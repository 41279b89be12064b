//! Compiled regular expressions, held behind a validated wrapper type.
//!
//! The regex engine itself is outside code; its behaviour on a given pattern
//! and text is a fixed function of the bytes alone, so it is given names here
//! (`regex_valid`, `regex_match_of`, `regex_replace_of`) that the rest of the
//! crate's contracts speak of.

use vstd::prelude::*;

verus! {

/// Whether `pattern` is valid UTF-8 and compiles as a regular expression.
pub uninterp spec fn regex_valid(pattern: Seq<u8>) -> bool;

/// Whether the regular expression `pattern` matches somewhere in `text`.
pub uninterp spec fn regex_match_of(pattern: Seq<u8>, text: Seq<u8>) -> bool;

/// `text` with every non-overlapping match of `pattern` rewritten, left to
/// right, as the engine reads `replacement` (which may name capture
/// groups).
pub uninterp spec fn regex_replace_of(pattern: Seq<u8>, text: Seq<u8>, replacement: Seq<u8>) -> Seq<
    u8,
>;

/// Relies on `regex::bytes::Regex::new`: whether a pattern compiles depends
/// on the pattern bytes alone.
#[verifier::external_body]
fn regex_compiles(pattern: &[u8]) -> (r: bool)
    ensures
        r == regex_valid(pattern@),
{
    match core::str::from_utf8(pattern) {
        Ok(p) => regex::bytes::Regex::new(p).is_ok(),
        Err(_) => false,
    }
}

/// Relies on `regex::bytes::Regex::is_match`: the answer depends on the
/// pattern and text bytes alone.
#[verifier::external_body]
fn regex_find(pattern: &[u8], text: &[u8]) -> (r: bool)
    requires
        regex_valid(pattern@),
    ensures
        r == regex_match_of(pattern@, text@),
{
    let re = regex::bytes::Regex::new(core::str::from_utf8(pattern).unwrap()).unwrap();
    re.is_match(text)
}

/// Relies on `regex::bytes::Regex::replace_all`: the result depends on the
/// pattern, text and replacement bytes alone.
#[verifier::external_body]
fn regex_substitute(pattern: &[u8], text: &[u8], replacement: &[u8]) -> (r: Vec<u8>)
    requires
        regex_valid(pattern@),
    ensures
        r@ == regex_replace_of(pattern@, text@, replacement@),
{
    let re = regex::bytes::Regex::new(core::str::from_utf8(pattern).unwrap()).unwrap();
    re.replace_all(text, replacement).into_owned()
}

/// A regular expression whose pattern is known to compile.
#[derive(Debug, PartialEq, Eq)]
pub struct RegexPattern {
    pattern: Vec<u8>,
}

impl View for RegexPattern {
    type V = Seq<u8>;

    closed spec fn view(&self) -> Seq<u8> {
        self.pattern@
    }
}

impl RegexPattern {
    #[verifier::type_invariant]
    spec fn type_inv(self) -> bool {
        regex_valid(self.pattern@)
    }

    /// Validate and keep a pattern; `None` when it does not compile.
    pub fn new(pattern: Vec<u8>) -> (r: Option<RegexPattern>)
        ensures
            match r {
                Some(rp) => rp@ == pattern@ && regex_valid(pattern@),
                None => !regex_valid(pattern@),
            },
    {
        if regex_compiles(pattern.as_slice()) {
            Some(RegexPattern { pattern })
        } else {
            None
        }
    }

    /// The pattern bytes this expression was built from.
    pub fn pattern_bytes(&self) -> (r: &[u8])
        ensures
            r@ == self@,
    {
        proof {
            use_type_invariant(self);
        }
        self.pattern.as_slice()
    }

    /// Does this expression match somewhere in `text`?
    pub fn is_match(&self, text: &[u8]) -> (r: bool)
        ensures
            r == regex_match_of(self@, text@),
    {
        proof {
            use_type_invariant(self);
        }
        regex_find(self.pattern.as_slice(), text)
    }

    /// Replace every non-overlapping match in `text` by `replacement`.
    pub fn replace_all(&self, text: &[u8], replacement: &[u8]) -> (r: Vec<u8>)
        ensures
            r@ == regex_replace_of(self@, text@, replacement@),
    {
        proof {
            use_type_invariant(self);
        }
        regex_substitute(self.pattern.as_slice(), text, replacement)
    }

    /// A structurally fresh copy of the same expression.
    pub fn duplicate(&self) -> (r: RegexPattern)
        ensures
            r@ == self@,
    {
        proof {
            use_type_invariant(self);
        }
        let src = self.pattern.as_slice();
        let pattern = crate::util::subvec(src, 0, src.len());
        assert(pattern@ =~= self.pattern@);
        RegexPattern { pattern }
    }
}

} // verus!
