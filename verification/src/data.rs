//! The data model: diagnostic levels and messages, expectation patterns,
//! filter needles, test modes, and the error taxonomy that a test run
//! accumulates.
//!
//! Each executable type that carries byte strings has a mathematical view
//! (`…V`) over `Seq<u8>`, and the contracts of the rest of the crate are
//! stated over those views.

use vstd::prelude::*;

use crate::rx::RegexPattern;
use crate::rx::regex_match_of;
use crate::util::contains_seq;

verus! {

/// Severity of a diagnostic, ordered `Error > Warn > Help > Note > Ico`.
#[derive(Clone, Copy, Debug, PartialEq, Eq, Structural)]
pub enum Level {
    Ico,
    Note,
    Help,
    Warn,
    Error,
}

/// Numeric rank of a level; bigger means more severe.
pub open spec fn level_rank(l: Level) -> int {
    match l {
        Level::Ico => 0,
        Level::Note => 1,
        Level::Help => 2,
        Level::Warn => 3,
        Level::Error => 4,
    }
}

impl Level {
    /// Rank as an integer, for comparing severities.
    pub fn rank(self) -> (r: u8)
        ensures
            r as int == level_rank(self),
    {
        match self {
            Level::Ico => 0,
            Level::Note => 1,
            Level::Help => 2,
            Level::Warn => 3,
            Level::Error => 4,
        }
    }

    /// Is this level at least as severe as `other`?
    pub fn at_least(self, other: Level) -> (r: bool)
        ensures
            r == (level_rank(self) >= level_rank(other)),
    {
        self.rank() >= other.rank()
    }

    /// The less severe of two levels.
    pub fn min_with(self, other: Level) -> (r: Level)
        ensures
            level_rank(r) == if level_rank(self) <= level_rank(other) {
                level_rank(self)
            } else {
                level_rank(other)
            },
            r == self || r == other,
    {
        if self.rank() <= other.rank() {
            self
        } else {
            other
        }
    }
}

/// One decoded diagnostic: its level and its text.
#[derive(Debug, PartialEq, Eq)]
pub struct Message {
    pub level: Level,
    pub message: Vec<u8>,
}

/// Mathematical view of a `Message`.
pub struct MessageV {
    pub level: Level,
    pub message: Seq<u8>,
}

impl View for Message {
    type V = MessageV;

    open spec fn view(&self) -> MessageV {
        MessageV { level: self.level, message: self.message@ }
    }
}

/// The views of a sequence of messages.
pub open spec fn messages_v(s: Seq<Message>) -> Seq<MessageV> {
    s.map_values(|m: Message| m@)
}

/// The views of a per-line table of messages.
pub open spec fn table_v(s: Seq<Vec<Message>>) -> Seq<Seq<MessageV>> {
    s.map_values(|v: Vec<Message>| messages_v(v@))
}

impl Message {
    /// A structurally fresh copy.
    pub fn duplicate(&self) -> (r: Message)
        ensures
            r@ == self@,
    {
        Message { level: self.level, message: crate::util::clone_bytes(&self.message) }
    }
}

/// What a diagnostic's text is expected to contain.
#[derive(Debug, PartialEq, Eq)]
pub enum Pattern {
    /// Case-sensitive substring.
    SubString(Vec<u8>),
    /// Regular expression.
    Regex(RegexPattern),
}

/// Mathematical view of a `Pattern`.
pub enum PatternV {
    SubString(Seq<u8>),
    Regex(Seq<u8>),
}

impl View for Pattern {
    type V = PatternV;

    open spec fn view(&self) -> PatternV {
        match self {
            Pattern::SubString(s) => PatternV::SubString(s@),
            Pattern::Regex(r) => PatternV::Regex(r@),
        }
    }
}

/// Whether a pattern matches a diagnostic text.
pub open spec fn pattern_matches(p: PatternV, text: Seq<u8>) -> bool {
    match p {
        PatternV::SubString(s) => contains_seq(text, s),
        PatternV::Regex(r) => regex_match_of(r, text),
    }
}

impl Pattern {
    /// Does this pattern match `text`?
    pub fn matches(&self, text: &[u8]) -> (r: bool)
        ensures
            r == pattern_matches(self@, text@),
    {
        match self {
            Pattern::SubString(s) => crate::util::contains_bytes(text, s.as_slice()),
            Pattern::Regex(re) => re.is_match(text),
        }
    }

    /// A structurally fresh copy.
    pub fn duplicate(&self) -> (r: Pattern)
        ensures
            r@ == self@,
    {
        match self {
            Pattern::SubString(s) => Pattern::SubString(crate::util::clone_bytes(s)),
            Pattern::Regex(re) => Pattern::Regex(re.duplicate()),
        }
    }
}

/// A filter's needle: what a replacement applies to.
#[derive(Debug, PartialEq, Eq)]
pub enum Match {
    /// An exact byte sequence.
    Exact(Vec<u8>),
    /// A regular expression.
    Regex(RegexPattern),
}

/// Mathematical view of a `Match`.
pub enum MatchV {
    Exact(Seq<u8>),
    Regex(Seq<u8>),
}

impl View for Match {
    type V = MatchV;

    open spec fn view(&self) -> MatchV {
        match self {
            Match::Exact(s) => MatchV::Exact(s@),
            Match::Regex(r) => MatchV::Regex(r@),
        }
    }
}

impl Match {
    /// A structurally fresh copy.
    pub fn duplicate(&self) -> (r: Match)
        ensures
            r@ == self@,
    {
        match self {
            Match::Exact(s) => Match::Exact(crate::util::clone_bytes(s)),
            Match::Regex(re) => Match::Regex(re.duplicate()),
        }
    }
}

/// An ordered list of replacements applied to an output stream.
pub type Filter = Vec<(Match, Vec<u8>)>;

/// A line-anchored expectation parsed from an inline comment.
#[derive(Debug, PartialEq, Eq)]
pub struct ErrorMatch {
    pub pattern: Pattern,
    /// Line the annotation comment itself sits on (1-based).
    pub definition_line: usize,
    /// Line the diagnostic is expected on (1-based).
    pub line: usize,
    pub level: Level,
}

/// Mathematical view of an `ErrorMatch`.
pub struct ErrorMatchV {
    pub pattern: PatternV,
    pub definition_line: int,
    pub line: int,
    pub level: Level,
}

impl View for ErrorMatch {
    type V = ErrorMatchV;

    open spec fn view(&self) -> ErrorMatchV {
        ErrorMatchV {
            pattern: self.pattern@,
            definition_line: self.definition_line as int,
            line: self.line as int,
            level: self.level,
        }
    }
}

impl ErrorMatch {
    /// A structurally fresh copy.
    pub fn duplicate(&self) -> (r: ErrorMatch)
        ensures
            r@ == self@,
    {
        ErrorMatch {
            pattern: self.pattern.duplicate(),
            definition_line: self.definition_line,
            line: self.line,
            level: self.level,
        }
    }
}

/// A condition under which a test is ignored or selected.
#[derive(Debug, PartialEq, Eq)]
pub enum Condition {
    /// The target's pointer width in bits is this value.
    Bitwidth(u8),
    /// The target triple contains this substring.
    Target(Vec<u8>),
    /// The host triple contains this substring.
    Host(Vec<u8>),
    /// Target and host triple are the same.
    OnHost,
}

/// Mathematical view of a `Condition`.
pub enum ConditionV {
    Bitwidth(u8),
    Target(Seq<u8>),
    Host(Seq<u8>),
    OnHost,
}

impl View for Condition {
    type V = ConditionV;

    open spec fn view(&self) -> ConditionV {
        match self {
            Condition::Bitwidth(b) => ConditionV::Bitwidth(*b),
            Condition::Target(t) => ConditionV::Target(t@),
            Condition::Host(h) => ConditionV::Host(h@),
            Condition::OnHost => ConditionV::OnHost,
        }
    }
}

impl Condition {
    /// A structurally fresh copy.
    pub fn duplicate(&self) -> (r: Condition)
        ensures
            r@ == self@,
    {
        match self {
            Condition::Bitwidth(b) => Condition::Bitwidth(*b),
            Condition::Target(t) => Condition::Target(crate::util::clone_bytes(t)),
            Condition::Host(h) => Condition::Host(crate::util::clone_bytes(h)),
            Condition::OnHost => Condition::OnHost,
        }
    }
}

/// What is expected of a test's exit status.
#[derive(Clone, Copy, Debug, PartialEq, Eq, Structural)]
pub enum Mode {
    /// The program exits with code 0.
    Pass,
    /// The program panics, exiting with code 101.
    Panic,
    /// The program exits with code 1.
    Fail {
        /// Whether a failing test must carry at least one error pattern.
        require_patterns: bool,
    },
    /// Any exit status is accepted as long as annotations are satisfied.
    Yolo,
}

/// The errors an exit status earns under a mode: none under `Yolo` or on
/// the expected code, one `ExitStatus` otherwise.
pub open spec fn mode_ok_spec(m: Mode, status: Option<i32>) -> Seq<ErrorV> {
    match mode_expected_code(m) {
        None => Seq::empty(),
        Some(expected) => if status == Some(expected) {
            Seq::empty()
        } else {
            seq![ErrorV::ExitStatus { mode: m, status, expected }]
        },
    }
}

/// A run that exited with code 101 outside the panic-expecting modes is an
/// internal failure of the program under test.
pub open spec fn is_unexpected_panic(m: Mode, status: Option<i32>) -> bool {
    status == Some(101i32) && !(m is Panic || m is Yolo)
}

/// The exit code a mode expects, or `None` for any.
pub open spec fn mode_expected_code(m: Mode) -> Option<i32> {
    match m {
        Mode::Pass => Some(0i32),
        Mode::Panic => Some(101i32),
        Mode::Fail { require_patterns: _ } => Some(1i32),
        Mode::Yolo => None,
    }
}

impl Mode {
    /// Judge an exit status: the empty list when it fits the mode, one
    /// `ExitStatus` error when it does not. `None` stands for death by
    /// signal.
    pub fn ok(self, status: Option<i32>) -> (r: Vec<Error>)
        ensures
            errors_v(r@) == mode_ok_spec(self, status),
    {
        let expected: i32 = match self {
            Mode::Pass => 0,
            Mode::Panic => 101,
            Mode::Fail { require_patterns: _ } => 1,
            Mode::Yolo => {
                let empty: Vec<Error> = Vec::new();
                proof {
                    assert(errors_v(empty@) =~= mode_ok_spec(self, status));
                }
                return empty;
            },
        };
        let hit = match status {
            Some(code) => code == expected,
            None => false,
        };
        let mut r: Vec<Error> = Vec::new();
        if !hit {
            r.push(Error::ExitStatus { mode: self, status, expected });
        }
        proof {
            assert(errors_v(r@) =~= mode_ok_spec(self, status));
        }
        r
    }

    /// Did the program panic although the mode does not expect one?
    pub fn unexpected_panic(self, status: Option<i32>) -> (r: bool)
        ensures
            r == is_unexpected_panic(self, status),
    {
        let is_101 = match status {
            Some(code) => code == 101,
            None => false,
        };
        let tolerant = match self {
            Mode::Panic => true,
            Mode::Yolo => true,
            _ => false,
        };
        is_101 && !tolerant
    }
}

/// What to do when actual output differs from a golden file.
#[derive(Clone, Copy, Debug, PartialEq, Eq, Structural)]
pub enum OutputConflictHandling {
    /// Report the difference as an error.
    Error,
    /// Silently accept the difference.
    Ignore,
    /// Overwrite the golden file with the actual output.
    Bless,
}

/// Everything that can go wrong for one test, one entry per finding.
#[derive(Debug, PartialEq, Eq)]
pub enum Error {
    /// The program's exit status did not fit the mode.
    ExitStatus {
        mode: Mode,
        /// The observed exit code; `None` when killed by a signal.
        status: Option<i32>,
        expected: i32,
    },
    /// An expectation had no matching diagnostic.
    PatternNotFound { pattern: Pattern, definition_line: usize },
    /// A test in a failure-expecting mode carries no expectation at all.
    NoPatternsFound,
    /// A test in a pass-expecting mode carries an expectation.
    PatternFoundInPassTest,
    /// Actual output differs from the golden file.
    OutputDiffers { path: Vec<u8>, actual: Vec<u8>, expected: Vec<u8> },
    /// Diagnostics that no expectation accounted for.
    ErrorsWithoutPattern { msgs: Vec<Message>, path: Option<(Vec<u8>, usize)> },
    /// A malformed annotation comment.
    InvalidComment { msg: Vec<u8>, line: usize },
    /// A helper command exited with a failure status.
    Command { kind: Vec<u8>, status: Option<i32> },
    /// An internal failure while running the test.
    Bug(Vec<u8>),
}

/// Mathematical view of an `Error`.
pub enum ErrorV {
    ExitStatus { mode: Mode, status: Option<i32>, expected: i32 },
    PatternNotFound { pattern: PatternV, definition_line: int },
    NoPatternsFound,
    PatternFoundInPassTest,
    OutputDiffers { path: Seq<u8>, actual: Seq<u8>, expected: Seq<u8> },
    ErrorsWithoutPattern { msgs: Seq<MessageV>, path: Option<(Seq<u8>, int)> },
    InvalidComment { msg: Seq<u8>, line: int },
    Command { kind: Seq<u8>, status: Option<i32> },
    Bug(Seq<u8>),
}

impl View for Error {
    type V = ErrorV;

    open spec fn view(&self) -> ErrorV {
        match self {
            Error::ExitStatus { mode, status, expected } => ErrorV::ExitStatus {
                mode: *mode,
                status: *status,
                expected: *expected,
            },
            Error::PatternNotFound { pattern, definition_line } => ErrorV::PatternNotFound {
                pattern: pattern@,
                definition_line: *definition_line as int,
            },
            Error::NoPatternsFound => ErrorV::NoPatternsFound,
            Error::PatternFoundInPassTest => ErrorV::PatternFoundInPassTest,
            Error::OutputDiffers { path, actual, expected } => ErrorV::OutputDiffers {
                path: path@,
                actual: actual@,
                expected: expected@,
            },
            Error::ErrorsWithoutPattern { msgs, path } => ErrorV::ErrorsWithoutPattern {
                msgs: messages_v(msgs@),
                path: match path {
                    Some((p, l)) => Some((p@, *l as int)),
                    None => None,
                },
            },
            Error::InvalidComment { msg, line } => ErrorV::InvalidComment {
                msg: msg@,
                line: *line as int,
            },
            Error::Command { kind, status } => ErrorV::Command { kind: kind@, status: *status },
            Error::Bug(m) => ErrorV::Bug(m@),
        }
    }
}

/// The views of a sequence of errors.
pub open spec fn errors_v(s: Seq<Error>) -> Seq<ErrorV> {
    s.map_values(|e: Error| e@)
}

} // verus!
