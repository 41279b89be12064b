//! The diagnostic decoder: sorts decoded compiler diagnostics into a
//! per-line message table and an unknown-location bucket, and assembles the
//! rendered text that is compared against the golden file.
//!
//! The embedding parses the compiler's JSON lines and hands each one over as
//! a `DecodedItem`: either one diagnostic with its primary-span lines in the
//! test file, or plain text that passes through verbatim.

use vstd::prelude::*;

use crate::data::{Level, Message, MessageV, messages_v, table_v};
use crate::util::{clone_bytes, push_all};

verus! {

/// One child of a diagnostic: its own level, text and span lines.
#[derive(Debug, PartialEq, Eq)]
pub struct RawChild {
    pub level: Level,
    pub message: Vec<u8>,
    /// 1-based source lines of the primary spans that point into the test
    /// file; empty when none does.
    pub line_starts: Vec<usize>,
}

/// Mathematical view of a `RawChild`.
pub struct RawChildV {
    pub level: Level,
    pub message: Seq<u8>,
    pub lines: Seq<int>,
}

/// The 1-based lines as integers.
pub open spec fn lines_of(s: Seq<usize>) -> Seq<int> {
    s.map_values(|l: usize| l as int)
}

impl View for RawChild {
    type V = RawChildV;

    open spec fn view(&self) -> RawChildV {
        RawChildV {
            level: self.level,
            message: self.message@,
            lines: lines_of(self.line_starts@),
        }
    }
}

/// One decoded diagnostic: its level, text, span lines, rendered form, and
/// flattened children.
#[derive(Debug, PartialEq, Eq)]
pub struct RawDiagnostic {
    pub level: Level,
    pub message: Vec<u8>,
    /// 1-based source lines of the primary spans that point into the test
    /// file; empty when none does.
    pub line_starts: Vec<usize>,
    /// The compiler's rendered form, when it carries one.
    pub rendered: Option<Vec<u8>>,
    pub children: Vec<RawChild>,
}

/// Mathematical view of a `RawDiagnostic`.
pub struct RawDiagnosticV {
    pub level: Level,
    pub message: Seq<u8>,
    pub lines: Seq<int>,
    pub rendered: Option<Seq<u8>>,
    pub children: Seq<RawChildV>,
}

impl View for RawDiagnostic {
    type V = RawDiagnosticV;

    open spec fn view(&self) -> RawDiagnosticV {
        RawDiagnosticV {
            level: self.level,
            message: self.message@,
            lines: lines_of(self.line_starts@),
            rendered: match &self.rendered {
                Some(r) => Some(r@),
                None => None,
            },
            children: self.children@.map_values(|c: RawChild| c@),
        }
    }
}

/// One element of the compiler's stderr: a diagnostic, or text passed
/// through verbatim.
#[derive(Debug, PartialEq, Eq)]
pub enum DecodedItem {
    Diagnostic(RawDiagnostic),
    Text(Vec<u8>),
}

/// Mathematical view of a `DecodedItem`.
pub enum DecodedItemV {
    Diagnostic(RawDiagnosticV),
    Text(Seq<u8>),
}

impl View for DecodedItem {
    type V = DecodedItemV;

    open spec fn view(&self) -> DecodedItemV {
        match self {
            DecodedItem::Diagnostic(d) => DecodedItemV::Diagnostic(d@),
            DecodedItem::Text(t) => DecodedItemV::Text(t@),
        }
    }
}

/// The views of a list of decoded items.
pub open spec fn items_v(s: Seq<DecodedItem>) -> Seq<DecodedItemV> {
    s.map_values(|i: DecodedItem| i@)
}

/// The decoded output of one compiler run.
#[derive(Debug, PartialEq, Eq)]
pub struct Diagnostics {
    /// Bucket `i` holds the messages whose primary span starts on source
    /// line `i + 1`.
    pub messages: Vec<Vec<Message>>,
    /// Messages whose primary spans point outside the test file.
    pub messages_from_unknown_file_or_line: Vec<Message>,
    /// The concatenated rendered text.
    pub rendered: Vec<u8>,
}

/// A message appended to the bucket of one source line; the table grows
/// with empty buckets as needed. A line below 1 changes nothing.
pub open spec fn bucket_insert(table: Seq<Seq<MessageV>>, line: int, m: MessageV) -> Seq<
    Seq<MessageV>,
> {
    if line < 1 {
        table
    } else {
        let idx = line - 1;
        let grown = if idx < table.len() {
            table
        } else {
            Seq::new(
                (idx + 1) as nat,
                |i: int|
                    if i < table.len() {
                        table[i]
                    } else {
                        Seq::<MessageV>::empty()
                    },
            )
        };
        grown.update(idx, grown[idx].push(m))
    }
}

/// A message appended to the bucket of each listed line, in order.
pub open spec fn place_lines(table: Seq<Seq<MessageV>>, lines: Seq<int>, m: MessageV) -> Seq<
    Seq<MessageV>,
>
    decreases lines.len(),
{
    if lines.len() == 0 {
        table
    } else {
        place_lines(bucket_insert(table, lines[0], m), lines.drop_first(), m)
    }
}

/// One diagnostic unit placed into the state: with span lines into their
/// buckets, without any into the unknown-location bucket.
pub open spec fn place_unit(
    table: Seq<Seq<MessageV>>,
    unknown: Seq<MessageV>,
    level: Level,
    message: Seq<u8>,
    lines: Seq<int>,
) -> (Seq<Seq<MessageV>>, Seq<MessageV>) {
    if lines.len() == 0 {
        (table, unknown.push(MessageV { level, message }))
    } else {
        (place_lines(table, lines, MessageV { level, message }), unknown)
    }
}

/// All children placed, in order.
pub open spec fn place_children(
    table: Seq<Seq<MessageV>>,
    unknown: Seq<MessageV>,
    children: Seq<RawChildV>,
) -> (Seq<Seq<MessageV>>, Seq<MessageV>)
    decreases children.len(),
{
    if children.len() == 0 {
        (table, unknown)
    } else {
        let c = children[0];
        let st = place_unit(table, unknown, c.level, c.message, c.lines);
        place_children(st.0, st.1, children.drop_first())
    }
}

/// The rendered form of one diagnostic: the compiler's, or the message with
/// a newline when the compiler carries none.
pub open spec fn rendered_of(d: RawDiagnosticV) -> Seq<u8> {
    match d.rendered {
        Some(r) => r,
        None => d.message + seq![10u8],
    }
}

/// The whole decoding: each item in order either passes its text through or
/// places itself and its children and appends its rendered form.
pub open spec fn process_items(
    items: Seq<DecodedItemV>,
    table: Seq<Seq<MessageV>>,
    unknown: Seq<MessageV>,
    rendered: Seq<u8>,
) -> (Seq<Seq<MessageV>>, Seq<MessageV>, Seq<u8>)
    decreases items.len(),
{
    if items.len() == 0 {
        (table, unknown, rendered)
    } else {
        match items[0] {
            DecodedItemV::Text(t) => process_items(
                items.drop_first(),
                table,
                unknown,
                rendered + t,
            ),
            DecodedItemV::Diagnostic(d) => {
                let st = place_unit(table, unknown, d.level, d.message, d.lines);
                let st2 = place_children(st.0, st.1, d.children);
                process_items(items.drop_first(), st2.0, st2.1, rendered + rendered_of(d))
            },
        }
    }
}

/// A fresh copy of a message bucket.
fn clone_messages(v: &Vec<Message>) -> (r: Vec<Message>)
    ensures
        messages_v(r@) == messages_v(v@),
{
    let mut out: Vec<Message> = Vec::new();
    let mut i: usize = 0;
    while i < v.len()
        invariant
            i <= v@.len(),
            messages_v(out@) == messages_v(v@).take(i as int),
        decreases v@.len() - i,
    {
        let ghost prev = out@;
        out.push(v[i].duplicate());
        proof {
            assert(messages_v(out@) =~= messages_v(prev).push(messages_v(v@)[i as int]));
            assert(messages_v(v@).take(i + 1) =~= messages_v(v@).take(i as int).push(
                messages_v(v@)[i as int],
            ));
        }
        i += 1;
    }
    proof {
        assert(messages_v(v@).take(v@.len() as int) =~= messages_v(v@));
    }
    out
}

/// Append one message to the bucket of one source line, growing the table.
fn insert_message(table: &mut Vec<Vec<Message>>, line: usize, level: Level, message: &Vec<u8>)
    ensures
        table_v(final(table)@) == bucket_insert(
            table_v(old(table)@),
            line as int,
            MessageV { level, message: message@ },
        ),
{
    let ghost t0 = table_v(old(table)@);
    if line < 1 {
        return ;
    }
    let idx = line - 1;
    while table.len() <= idx
        invariant
            idx < usize::MAX,
            table_v(table@).len() == table@.len(),
            table_v(table@).len() >= t0.len(),
            table_v(table@).len() <= (if t0.len() > idx {
                t0.len() as int
            } else {
                idx + 1
            }),
            forall|i: int|
                0 <= i < table_v(table@).len() ==> table_v(table@)[i] == (if i < t0.len() {
                    t0[i]
                } else {
                    Seq::<MessageV>::empty()
                }),
        decreases idx + 1 - table@.len(),
    {
        let ghost prev = table@;
        let empty_bucket: Vec<Message> = Vec::new();
        proof {
            assert(messages_v(empty_bucket@) =~= Seq::<MessageV>::empty());
        }
        table.push(empty_bucket);
        proof {
            assert(table_v(table@) =~= table_v(prev).push(Seq::<MessageV>::empty()));
        }
    }
    let ghost grown = table_v(table@);
    proof {
        if idx < t0.len() {
            assert(grown =~= t0);
        } else {
            assert(grown =~= Seq::new(
                (idx + 1) as nat,
                |i: int|
                    if i < t0.len() {
                        t0[i]
                    } else {
                        Seq::<MessageV>::empty()
                    },
            ));
        }
    }
    let mut bucket = clone_messages(&table[idx]);
    bucket.push(Message { level, message: clone_bytes(message) });
    proof {
        assert(messages_v(bucket@) =~= grown[idx as int].push(
            MessageV { level, message: message@ },
        ));
    }
    vstd::pervasive::VecAdditionalExecFns::set(table, idx, bucket);
    proof {
        assert(table_v(table@) =~= grown.update(
            idx as int,
            grown[idx as int].push(MessageV { level, message: message@ }),
        ));
    }
}

/// Place one diagnostic unit: into its lines' buckets, or into the
/// unknown-location bucket when it has no span line in the test file.
fn place_unit_exec(
    table: &mut Vec<Vec<Message>>,
    unknown: &mut Vec<Message>,
    level: Level,
    message: &Vec<u8>,
    line_starts: &Vec<usize>,
)
    ensures
        ({
            let st = place_unit(
                table_v(old(table)@),
                messages_v(old(unknown)@),
                level,
                message@,
                lines_of(line_starts@),
            );
            table_v(final(table)@) == st.0 && messages_v(final(unknown)@) == st.1
        }),
{
    let ghost lines = lines_of(line_starts@);
    let ghost m = MessageV { level, message: message@ };
    if line_starts.len() == 0 {
        let ghost prev = unknown@;
        unknown.push(Message { level, message: clone_bytes(message) });
        proof {
            assert(messages_v(unknown@) =~= messages_v(prev).push(m));
        }
        return ;
    }
    let mut j: usize = 0;
    proof {
        assert(lines.skip(0) =~= lines);
    }
    while j < line_starts.len()
        invariant
            j <= line_starts@.len(),
            lines == lines_of(line_starts@),
            lines.len() == line_starts@.len(),
            m == (MessageV { level, message: message@ }),
            place_lines(table_v(table@), lines.skip(j as int), m) == place_lines(
                table_v(old(table)@),
                lines,
                m,
            ),
            unknown@ == old(unknown)@,
        decreases line_starts@.len() - j,
    {
        proof {
            assert(lines.skip(j as int)[0] == lines[j as int]);
            assert(lines.skip(j as int).drop_first() =~= lines.skip(j + 1));
        }
        insert_message(table, line_starts[j], level, message);
        j += 1;
    }
    proof {
        assert(lines.skip(lines.len() as int) =~= Seq::<int>::empty());
    }
}

/// Decode one run's items into the per-line table, the unknown-location
/// bucket, and the rendered text, as `process_items` says.
pub fn process(items: &Vec<DecodedItem>) -> (r: Diagnostics)
    ensures
        ({
            let st = process_items(
                items_v(items@),
                Seq::empty(),
                Seq::empty(),
                Seq::empty(),
            );
            &&& table_v(r.messages@) == st.0
            &&& messages_v(r.messages_from_unknown_file_or_line@) == st.1
            &&& r.rendered@ == st.2
        }),
{
    let ghost iv = items_v(items@);
    let mut table: Vec<Vec<Message>> = Vec::new();
    let mut unknown: Vec<Message> = Vec::new();
    let mut rendered: Vec<u8> = Vec::new();
    let mut i: usize = 0;
    proof {
        assert(iv.skip(0) =~= iv);
        assert(table_v(table@) =~= Seq::<Seq<MessageV>>::empty());
        assert(messages_v(unknown@) =~= Seq::<MessageV>::empty());
    }
    while i < items.len()
        invariant
            i <= items@.len(),
            iv == items_v(items@),
            iv.len() == items@.len(),
            process_items(
                iv.skip(i as int),
                table_v(table@),
                messages_v(unknown@),
                rendered@,
            ) == process_items(iv, Seq::empty(), Seq::empty(), Seq::empty()),
        decreases items@.len() - i,
    {
        let ghost tb0 = table_v(table@);
        let ghost un0 = messages_v(unknown@);
        let ghost rd0 = rendered@;
        proof {
            assert(iv.skip(i as int)[0] == iv[i as int]);
            assert(iv.skip(i as int).drop_first() =~= iv.skip(i + 1));
        }
        match &items[i] {
            DecodedItem::Text(t) => {
                push_all(&mut rendered, t.as_slice());
            },
            DecodedItem::Diagnostic(d) => {
                let ghost dv = d@;
                place_unit_exec(&mut table, &mut unknown, d.level, &d.message, &d.line_starts);
                let ghost st = place_unit(tb0, un0, dv.level, dv.message, dv.lines);
                let ghost cw = dv.children;
                let ghost st2goal = place_children(st.0, st.1, cw);
                let mut c: usize = 0;
                proof {
                    assert(cw.skip(0) =~= cw);
                }
                while c < d.children.len()
                    invariant
                        c <= d.children@.len(),
                        cw == d@.children,
                        cw.len() == d.children@.len(),
                        st2goal == place_children(st.0, st.1, cw),
                        place_children(
                            table_v(table@),
                            messages_v(unknown@),
                            cw.skip(c as int),
                        ) == st2goal,
                    decreases d.children@.len() - c,
                {
                    proof {
                        assert(cw.skip(c as int)[0] == cw[c as int]);
                        assert(cw.skip(c as int).drop_first() =~= cw.skip(c + 1));
                        assert(cw[c as int] == d.children@[c as int]@);
                    }
                    let child = &d.children[c];
                    place_unit_exec(
                        &mut table,
                        &mut unknown,
                        child.level,
                        &child.message,
                        &child.line_starts,
                    );
                    c += 1;
                }
                proof {
                    assert(cw.skip(cw.len() as int) =~= Seq::<RawChildV>::empty());
                    assert((table_v(table@), messages_v(unknown@)) == st2goal);
                }
                match &d.rendered {
                    Some(rtext) => {
                        push_all(&mut rendered, rtext.as_slice());
                        proof {
                            assert(rendered@ =~= rd0 + rendered_of(dv));
                        }
                    },
                    None => {
                        push_all(&mut rendered, d.message.as_slice());
                        rendered.push(10);
                        proof {
                            assert(rendered@ =~= rd0 + rendered_of(dv));
                        }
                    },
                }
            },
        }
        i += 1;
    }
    proof {
        assert(iv.skip(iv.len() as int) =~= Seq::<DecodedItemV>::empty());
    }
    Diagnostics { messages: table, messages_from_unknown_file_or_line: unknown, rendered }
}

} // verus!
