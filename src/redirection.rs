//! Output redirection: finding the operator in a command's argument text,
//! splitting the text at it, and where each output stream goes.

use vstd::prelude::*;
use crate::text::{
    contains, occurs_at, is_first_occurrence, first_index, lemma_first_occurrence_unique, trim,
    join_with, chars_of, find_first, trimmed_range, copy_range, string_from_chars, join_strings,
};
use crate::tokenizer::{tokens_of, special_char_args_builder};

verus! {

/// A redirection operator, listed in the order in which they are looked for.
#[derive(Clone, Copy, Debug, PartialEq, Eq, Structural)]
pub enum RedirectOperator {
    /// `1>>`
    FdOneAppend,
    /// `2>>`
    FdTwoAppend,
    /// `>>`
    Append,
    /// `1>`
    FdOne,
    /// `2>`
    FdTwo,
    /// `>`
    Truncate,
}

impl RedirectOperator {
    pub open spec fn spec_text(self) -> Seq<char> {
        match self {
            RedirectOperator::FdOneAppend => seq!['1', '>', '>'],
            RedirectOperator::FdTwoAppend => seq!['2', '>', '>'],
            RedirectOperator::Append => seq!['>', '>'],
            RedirectOperator::FdOne => seq!['1', '>'],
            RedirectOperator::FdTwo => seq!['2', '>'],
            RedirectOperator::Truncate => seq!['>'],
        }
    }

    /// The operator as written.
    pub fn text(&self) -> (r: Vec<char>)
        ensures
            r@ == self.spec_text(),
    {
        match self {
            RedirectOperator::FdOneAppend => vec!['1', '>', '>'],
            RedirectOperator::FdTwoAppend => vec!['2', '>', '>'],
            RedirectOperator::Append => vec!['>', '>'],
            RedirectOperator::FdOne => vec!['1', '>'],
            RedirectOperator::FdTwo => vec!['2', '>'],
            RedirectOperator::Truncate => vec!['>'],
        }
    }

    pub open spec fn spec_is_append(self) -> bool {
        self == RedirectOperator::FdOneAppend || self == RedirectOperator::FdTwoAppend
            || self == RedirectOperator::Append
    }

    /// The `>>` family adds to the target; the others replace it.
    pub fn is_append(&self) -> (r: bool)
        ensures
            r == self.spec_is_append(),
    {
        match self {
            RedirectOperator::FdOneAppend | RedirectOperator::FdTwoAppend
            | RedirectOperator::Append => true,
            _ => false,
        }
    }

    pub open spec fn spec_is_stderr(self) -> bool {
        self == RedirectOperator::FdTwoAppend || self == RedirectOperator::FdTwo
    }

    /// `2>` and `2>>` take the error stream; the others the output stream.
    pub fn is_stderr(&self) -> (r: bool)
        ensures
            r == self.spec_is_stderr(),
    {
        match self {
            RedirectOperator::FdTwoAppend | RedirectOperator::FdTwo => true,
            _ => false,
        }
    }
}

/// The operator that a line's text selects: the first of the fixed order
/// that occurs in it anywhere.
pub open spec fn chosen_operator(s: Seq<char>) -> Option<RedirectOperator> {
    if contains(s, RedirectOperator::FdOneAppend.spec_text()) {
        Some(RedirectOperator::FdOneAppend)
    } else if contains(s, RedirectOperator::FdTwoAppend.spec_text()) {
        Some(RedirectOperator::FdTwoAppend)
    } else if contains(s, RedirectOperator::Append.spec_text()) {
        Some(RedirectOperator::Append)
    } else if contains(s, RedirectOperator::FdOne.spec_text()) {
        Some(RedirectOperator::FdOne)
    } else if contains(s, RedirectOperator::FdTwo.spec_text()) {
        Some(RedirectOperator::FdTwo)
    } else if contains(s, RedirectOperator::Truncate.spec_text()) {
        Some(RedirectOperator::Truncate)
    } else {
        None
    }
}

/// What a line's text means for redirection: the operator, the command
/// text before its first occurrence (trimmed) and the target after it (its
/// words, quotes resolved, joined by single spaces).
pub open spec fn redirection_spec(s: Seq<char>) -> Option<(RedirectOperator, Seq<char>, Seq<char>)> {
    match chosen_operator(s) {
        None => None,
        Some(op) => {
            let i = first_index(s, op.spec_text());
            Some(
                (
                    op,
                    trim(s.take(i)),
                    join_with(tokens_of(s.skip(i + op.spec_text().len())), seq![' ']),
                ),
            )
        },
    }
}

/// A parsed redirection.
#[derive(Debug, PartialEq, Eq)]
pub struct Redirection {
    pub operator: RedirectOperator,
    /// The command's own text, before the operator.
    pub command: String,
    /// The path that the stream goes to.
    pub target: String,
}

/// Every operator holds a `>`, so a text that holds none has no redirection.
proof fn lemma_operator_needs_gt(s: Seq<char>, op: RedirectOperator)
    requires
        contains(s, op.spec_text()),
    ensures
        contains(s, seq!['>']),
{
    let t = op.spec_text();
    let i = choose|i: int| occurs_at(s, t, i);
    let k: int = if t[0] == '>' {
        0
    } else {
        1
    };
    assert(s.subrange(i, i + t.len())[k] == t[k]);
    assert(s.subrange(i + k, i + k + 1) == seq!['>']);
    assert(occurs_at(s, seq!['>'], i + k));
}

/// Whether the text holds a `>` and so asks for a redirection.
pub fn is_redirection_args(args: &str) -> (r: bool)
    ensures
        r == contains(args@, seq!['>']),
{
    let v = chars_of(args);
    let gt = vec!['>'];
    assert(gt@ == seq!['>']);
    find_first(&v, &gt).is_some()
}

/// Splits the argument text at its redirection operator, if it has one.
/// There is none exactly where the text holds no `>`.
pub fn redirection_args_builder(args: &str) -> (r: Option<Redirection>)
    ensures
        r is None <==> !contains(args@, seq!['>']),
        match r {
            None => redirection_spec(args@) is None,
            Some(red) => redirection_spec(args@) == Some((red.operator, red.command@, red.target@)),
        },
{
    let v = chars_of(args);
    let order = [
        RedirectOperator::FdOneAppend,
        RedirectOperator::FdTwoAppend,
        RedirectOperator::Append,
        RedirectOperator::FdOne,
        RedirectOperator::FdTwo,
        RedirectOperator::Truncate,
    ];
    let mut k: usize = 0;
    while k < 6
        invariant
            k <= 6,
            v@ == args@,
            order@ == seq![
                RedirectOperator::FdOneAppend,
                RedirectOperator::FdTwoAppend,
                RedirectOperator::Append,
                RedirectOperator::FdOne,
                RedirectOperator::FdTwo,
                RedirectOperator::Truncate,
            ],
            forall|m: int| 0 <= m < k ==> !contains(args@, (#[trigger] order@[m]).spec_text()),
        decreases 6 - k,
    {
        let op = order[k];
        let t = op.text();
        match find_first(&v, &t) {
            Some(i) => {
                let cmd = trimmed_range(&v, 0, i);
                let rest = string_from_chars(&copy_range(&v, i + t.len(), v.len()));
                let words = special_char_args_builder(rest.as_str());
                let target = join_strings(&words, " ");
                proof {
                    reveal_strlit(" ");
                    assert(" "@ =~= seq![' ']);
                    assert(t@ == op.spec_text());
                    assert(contains(args@, t@));
                    assert(is_first_occurrence(args@, op.spec_text(), i as int));
                    assert(k >= 1 ==> !contains(args@, order@[0].spec_text()));
                    assert(k >= 2 ==> !contains(args@, order@[1].spec_text()));
                    assert(k >= 3 ==> !contains(args@, order@[2].spec_text()));
                    assert(k >= 4 ==> !contains(args@, order@[3].spec_text()));
                    assert(k >= 5 ==> !contains(args@, order@[4].spec_text()));
                    assert(v@.subrange(0, i as int) == args@.take(i as int));
                    assert(v@.subrange(i + t.len(), v.len() as int) == args@.skip(i + t@.len()));
                    assert(chosen_operator(args@) == Some(op));
                    lemma_first_occurrence_unique(
                        args@,
                        t@,
                        i as int,
                        first_index(args@, op.spec_text()),
                    );
                    lemma_operator_needs_gt(args@, op);
                    assert(first_index(args@, op.spec_text()) == i);
                    assert(cmd@ == trim(args@.take(i as int)));
                    assert(rest@ == args@.skip(i + op.spec_text().len()));
                    assert(target@ == join_with(tokens_of(rest@), seq![' ']));
                }
                return Some(
                    Redirection {
                        operator: op,
                        command: string_from_chars(&cmd),
                        target,
                    },
                );
            },
            None => {},
        }
        k = k + 1;
    }
    assert(chosen_operator(args@) is None);
    None
}

/// When the text holds `>>`, an appending operator is chosen, never the
/// shorter `>` inside it; and `1>>`, looked for first, wins wherever it
/// stands.
pub proof fn lemma_redirection_priority(s: Seq<char>)
    ensures
        contains(s, seq!['1', '>', '>']) ==> chosen_operator(s) == Some(
            RedirectOperator::FdOneAppend,
        ),
        contains(s, seq!['>', '>']) ==> chosen_operator(s) is Some && chosen_operator(
            s,
        )->0.spec_is_append(),
        contains(s, seq!['>', '>']) && !contains(s, seq!['1', '>', '>']) && !contains(
            s,
            seq!['2', '>', '>'],
        ) ==> chosen_operator(s) == Some(RedirectOperator::Append),
{
}

/// A file that an output stream goes to.
#[derive(Debug, PartialEq, Eq)]
pub struct FileTarget {
    pub path: String,
    /// Add to what the file holds, rather than replace it.
    pub append: bool,
}

/// Where an output stream goes.
#[derive(Debug, PartialEq, Eq)]
pub enum Sink {
    Terminal,
    File(FileTarget),
}

/// `s` is the terminal where `target` is `None`, else that file in that mode.
pub open spec fn sink_is(s: Sink, target: Option<(Seq<char>, bool)>) -> bool {
    match s {
        Sink::Terminal => target is None,
        Sink::File(f) => target == Some((f.path@, f.append)),
    }
}

/// The command text and the targets of the output and error streams that
/// an argument text asks for.
pub open spec fn stream_targets(s: Seq<char>) -> (
    Seq<char>,
    Option<(Seq<char>, bool)>,
    Option<(Seq<char>, bool)>,
) {
    match redirection_spec(s) {
        None => (s, None, None),
        Some((op, cmd, target)) => {
            if op.spec_is_stderr() {
                (cmd, None, Some((target, op.spec_is_append())))
            } else {
                (cmd, Some((target, op.spec_is_append())), None)
            }
        },
    }
}

/// A command's text and where its two output streams go.
pub struct OutputPlan {
    pub text: String,
    pub stdout: Sink,
    pub stderr: Sink,
}

/// Where a command's output goes, from its argument text.
pub fn plan_output(args: &str) -> (r: OutputPlan)
    ensures
        r.text@ == stream_targets(args@).0,
        sink_is(r.stdout, stream_targets(args@).1),
        sink_is(r.stderr, stream_targets(args@).2),
{
    match redirection_args_builder(args) {
        None => OutputPlan {
            text: string_from_chars(&chars_of(args)),
            stdout: Sink::Terminal,
            stderr: Sink::Terminal,
        },
        Some(red) => {
            let append = red.operator.is_append();
            let file = Sink::File(FileTarget { path: red.target, append });
            if red.operator.is_stderr() {
                OutputPlan { text: red.command, stdout: Sink::Terminal, stderr: file }
            } else {
                OutputPlan { text: red.command, stdout: file, stderr: Sink::Terminal }
            }
        },
    }
}

} // verus!
