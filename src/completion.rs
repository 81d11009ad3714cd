//! What the two completion front ends share: the command table, prefix
//! matching, the longest common prefix and the state carried from one Tab
//! press to the next.

use vstd::prelude::*;
use crate::text::{chars_of, copy_range, join_with, join_strings};

verus! {

/// `p` is a leading part of `s`.
pub open spec fn is_prefix_of(p: Seq<char>, s: Seq<char>) -> bool {
    p.len() <= s.len() && s.take(p.len() as int) == p
}

/// The commands that begin with `line`, in table order.
pub open spec fn matching(commands: Seq<Seq<char>>, line: Seq<char>) -> Seq<Seq<char>> {
    commands.filter(|c: Seq<char>| is_prefix_of(line, c))
}

/// The names in order of first appearance, each once.
pub open spec fn distinct_names(s: Seq<Seq<char>>) -> Seq<Seq<char>>
    decreases s.len(),
{
    if s.len() == 0 {
        s
    } else {
        let d = distinct_names(s.drop_last());
        if d.contains(s.last()) {
            d
        } else {
            d.push(s.last())
        }
    }
}

/// Each name stands once in `distinct_names(s)`.
pub proof fn lemma_distinct_names_no_duplicates(s: Seq<Seq<char>>)
    ensures
        distinct_names(s).no_duplicates(),
    decreases s.len(),
{
    if s.len() > 0 {
        lemma_distinct_names_no_duplicates(s.drop_last());
        let d = distinct_names(s.drop_last());
        if !d.contains(s.last()) {
            let e = d.push(s.last());
            assert forall|i: int, j: int| 0 <= i < e.len() && 0 <= j < e.len() && i != j implies e[i]
                != e[j] by {
                if i == d.len() as int {
                    assert(e[j] == d[j]);
                } else if j == d.len() as int {
                    assert(e[i] == d[i]);
                }
            }
        }
    }
}

/// `p` begins every one of `strs`.
pub open spec fn is_common_prefix(p: Seq<char>, strs: Seq<Seq<char>>) -> bool {
    forall|i: int| 0 <= i < strs.len() ==> is_prefix_of(p, #[trigger] strs[i])
}

/// `p` is the longest string that begins every one of `strs`; the empty
/// string where there are none.
pub open spec fn is_longest_common_prefix(p: Seq<char>, strs: Seq<Seq<char>>) -> bool {
    if strs.len() == 0 {
        p.len() == 0
    } else {
        &&& is_common_prefix(p, strs)
        &&& forall|q: Seq<char>| #[trigger] is_common_prefix(q, strs) ==> q.len() <= p.len()
    }
}

pub open spec fn longest_common_prefix(strs: Seq<Seq<char>>) -> Seq<char> {
    choose|p: Seq<char>| is_longest_common_prefix(p, strs)
}

/// There is only one longest common prefix.
pub proof fn lemma_longest_common_prefix_unique(p: Seq<char>, q: Seq<char>, strs: Seq<Seq<char>>)
    requires
        is_longest_common_prefix(p, strs),
        is_longest_common_prefix(q, strs),
    ensures
        p == q,
{
    if strs.len() == 0 {
        assert(p == q);
    } else {
        assert(is_prefix_of(p, strs[0]));
        assert(is_prefix_of(q, strs[0]));
        assert(p.len() == q.len());
        assert(p == strs[0].take(p.len() as int));
    }
}

/// The state carried between Tab presses on one input line.
#[derive(Clone, Debug)]
pub struct CompletionSession {
    /// The last press found several candidates and no longer common prefix.
    pub awaiting_second_tab: bool,
    /// The candidates of that press, while it waits for the next one.
    pub candidates: Vec<String>,
}

/// A session either waits with at least two candidates or holds none.
pub open spec fn session_wf(awaiting: bool, stored: Seq<Seq<char>>) -> bool {
    &&& awaiting ==> stored.len() >= 2
    &&& !awaiting ==> stored.len() == 0
}

impl CompletionSession {
    pub fn new() -> (r: CompletionSession)
        ensures
            !r.awaiting_second_tab,
            r.candidates.deep_view() == Seq::<Seq<char>>::empty(),
    {
        let r = CompletionSession { awaiting_second_tab: false, candidates: Vec::new() };
        assert(r.candidates.deep_view() == Seq::<Seq<char>>::empty());
        r
    }
}

fn starts_with_chars(s: &Vec<char>, p: &Vec<char>) -> (r: bool)
    ensures
        r == is_prefix_of(p@, s@),
{
    if p.len() > s.len() {
        return false;
    }
    let mut k: usize = 0;
    while k < p.len()
        invariant
            k <= p.len() <= s.len(),
            forall|m: int| 0 <= m < k ==> s@[m] == p@[m],
        decreases p.len() - k,
    {
        if s[k] != p[k] {
            assert(s@.take(p.len() as int)[k as int] != p@[k as int]);
            return false;
        }
        k = k + 1;
    }
    assert(s@.take(p.len() as int) == p@);
    true
}

/// The commands that begin with `line`, in table order.
pub fn matching_commands(commands: &Vec<String>, line: &str) -> (r: Vec<String>)
    ensures
        r.deep_view() == matching(commands.deep_view(), line@),
        forall|i: int| 0 <= i < r.len() ==> is_prefix_of(line@, #[trigger] r.deep_view()[i]),
{
    let lc = chars_of(line);
    let mut r: Vec<String> = Vec::new();
    let mut i: usize = 0;
    let ghost pred = |c: Seq<char>| is_prefix_of(line@, c);
    assert(commands.deep_view().take(0).filter(pred) == Seq::<Seq<char>>::empty()) by {
        reveal(Seq::filter);
    }
    assert(r.deep_view() == Seq::<Seq<char>>::empty());
    while i < commands.len()
        invariant
            i <= commands.len(),
            lc@ == line@,
            pred == (|c: Seq<char>| is_prefix_of(line@, c)),
            r.deep_view() == commands.deep_view().take(i as int).filter(pred),
            forall|j: int| 0 <= j < r.len() ==> is_prefix_of(line@, #[trigger] r.deep_view()[j]),
        decreases commands.len() - i,
    {
        let ghost before = r.deep_view();
        let ghost d = commands.deep_view();
        let cc = chars_of(commands[i].as_str());
        if starts_with_chars(&cc, &lc) {
            r.push(commands[i].clone());
            assert(r.deep_view() == before.push(d[i as int]));
        }
        assert(d.take(i + 1).drop_last() == d.take(i as int));
        assert(d.take(i + 1).last() == d[i as int]);
        assert(d.take(i + 1).filter(pred) == if pred(d[i as int]) {
            d.take(i as int).filter(pred).push(d[i as int])
        } else {
            d.take(i as int).filter(pred)
        }) by {
            reveal(Seq::filter);
        }
        i = i + 1;
    }
    assert(commands.deep_view().take(commands.len() as int) == commands.deep_view());
    r
}

fn contains_name(v: &Vec<String>, s: &String) -> (r: bool)
    ensures
        r == v.deep_view().contains(s@),
{
    let mut i: usize = 0;
    while i < v.len()
        invariant
            i <= v.len(),
            forall|j: int| 0 <= j < i ==> v.deep_view()[j] != s@,
        decreases v.len() - i,
    {
        if v[i] == *s {
            assert(v.deep_view()[i as int] == s@);
            return true;
        }
        i = i + 1;
    }
    false
}

/// The names in order of first appearance, each once.
pub fn distinct_commands(names: Vec<String>) -> (r: Vec<String>)
    ensures
        r.deep_view() == distinct_names(names.deep_view()),
        r.deep_view().no_duplicates(),
{
    let mut r: Vec<String> = Vec::new();
    let mut i: usize = 0;
    assert(names.deep_view().take(0) == Seq::<Seq<char>>::empty());
    assert(r.deep_view() == Seq::<Seq<char>>::empty());
    while i < names.len()
        invariant
            i <= names.len(),
            r.deep_view() == distinct_names(names.deep_view().take(i as int)),
        decreases names.len() - i,
    {
        let ghost before = r.deep_view();
        let ghost d = names.deep_view();
        if !contains_name(&r, &names[i]) {
            r.push(names[i].clone());
            assert(r.deep_view() == before.push(d[i as int]));
        }
        assert(d.take(i + 1).drop_last() == d.take(i as int));
        assert(d.take(i + 1).last() == d[i as int]);
        i = i + 1;
    }
    assert(names.deep_view().take(names.len() as int) == names.deep_view());
    proof {
        lemma_distinct_names_no_duplicates(names.deep_view());
    }
    r
}

/// `s` from its character at index `n` on.
pub fn suffix_from(s: &str, n: usize) -> (r: String)
    requires
        n <= s@.len(),
    ensures
        r@ == s@.skip(n as int),
{
    let v = chars_of(s);
    let t = copy_range(&v, n, v.len());
    crate::text::string_from_chars(&t)
}

/// The candidates on one line, separated by two spaces.
pub fn listing_line(candidates: &Vec<String>) -> (r: String)
    ensures
        r@ == join_with(candidates.deep_view(), seq![' ', ' ']),
{
    proof {
        reveal_strlit("  ");
        assert("  "@ =~= seq![' ', ' ']);
    }
    join_strings(candidates, "  ")
}

} // verus!
