//! The Tab key handler: completes a command name at each press, rings the
//! bell when there is nothing to add, and lists the candidates when a press
//! that found several is followed by another.

use vstd::prelude::*;
use crate::completion::{
    CompletionSession, matching, matching_commands, distinct_commands, distinct_names,
    is_prefix_of, is_common_prefix, is_longest_common_prefix, longest_common_prefix,
    lemma_longest_common_prefix_unique, session_wf, suffix_from,
};
use crate::text::{chars_of, copy_range, string_from_chars};

verus! {

/// What a Tab press asks the line editor to do.
#[derive(Debug, PartialEq, Eq)]
pub enum TabAction {
    /// Insert this text at the cursor.
    InsertSuffix(String),
    /// Ring the bell, print these candidates below the prompt and redraw the
    /// line as it was.
    ListAndBell(Vec<String>),
    /// Ring the bell and leave the line as it is.
    Bell,
}

pub enum TabActionView {
    InsertSuffix(Seq<char>),
    ListAndBell(Seq<Seq<char>>),
    Bell,
}

impl View for TabAction {
    type V = TabActionView;

    open spec fn view(&self) -> TabActionView {
        match self {
            TabAction::InsertSuffix(s) => TabActionView::InsertSuffix(s@),
            TabAction::ListAndBell(v) => TabActionView::ListAndBell(v.deep_view()),
            TabAction::Bell => TabActionView::Bell,
        }
    }
}

/// One Tab press on `line`: the action, then whether the session waits for
/// a second press and the candidates it keeps.
///
/// The candidates are the stored ones while the session waits, else the
/// commands that begin with `line`. None: bell. One: insert the rest of it
/// and a space. Several, on a second press: list them. Several, on a first
/// press: insert what their longest common prefix adds to the line, or,
/// where it adds nothing, ring the bell and wait with them.
pub open spec fn tab_outcome(
    commands: Seq<Seq<char>>,
    awaiting: bool,
    stored: Seq<Seq<char>>,
    line: Seq<char>,
) -> (TabActionView, bool, Seq<Seq<char>>) {
    let cands = if awaiting {
        stored
    } else {
        matching(commands, line)
    };
    if cands.len() == 0 {
        (TabActionView::Bell, false, Seq::empty())
    } else if cands.len() == 1 {
        (TabActionView::InsertSuffix(cands[0].skip(line.len() as int).push(' ')), false, Seq::empty())
    } else if awaiting {
        (TabActionView::ListAndBell(cands), false, Seq::empty())
    } else {
        let p = longest_common_prefix(cands);
        if p.len() > line.len() {
            (TabActionView::InsertSuffix(p.skip(line.len() as int)), false, Seq::empty())
        } else {
            (TabActionView::Bell, true, cands)
        }
    }
}

/// Completes command names from a fixed table, one Tab press at a time.
#[derive(Clone, Debug)]
pub struct MyTabHandler {
    commands: Vec<String>,
    session: CompletionSession,
}

impl MyTabHandler {
    /// The command table.
    pub closed spec fn spec_commands(&self) -> Seq<Seq<char>> {
        self.commands.deep_view()
    }

    /// The last press found several candidates and waits for another.
    pub closed spec fn spec_awaiting(&self) -> bool {
        self.session.awaiting_second_tab
    }

    /// The candidates kept for the next press.
    pub closed spec fn spec_stored(&self) -> Seq<Seq<char>> {
        self.session.candidates.deep_view()
    }

    /// The session is consistent, and the table holds each name once.
    pub open spec fn wf(&self) -> bool {
        &&& session_wf(self.spec_awaiting(), self.spec_stored())
        &&& self.spec_commands().no_duplicates()
    }

    /// A handler over the given command names, each kept once, with no
    /// press pending.
    pub fn new(commands: Vec<String>) -> (r: MyTabHandler)
        ensures
            r.spec_commands() == distinct_names(commands.deep_view()),
            !r.spec_awaiting(),
            r.spec_stored() == Seq::<Seq<char>>::empty(),
            r.wf(),
    {
        MyTabHandler { commands: distinct_commands(commands), session: CompletionSession::new() }
    }

    /// Forgets any pending press: the line was submitted or dropped.
    pub fn reset(&mut self)
        requires
            old(self).wf(),
        ensures
            final(self).spec_commands() == old(self).spec_commands(),
            !final(self).spec_awaiting(),
            final(self).spec_stored() == Seq::<Seq<char>>::empty(),
            final(self).wf(),
    {
        self.session = CompletionSession::new();
    }

    /// The longest string that begins every one of `strs`, compared character
    /// by character; the empty string where there are none.
    pub fn get_longest_common_prefix(strs: &Vec<String>) -> (r: String)
        ensures
            is_longest_common_prefix(r@, strs.deep_view()),
            r@ == longest_common_prefix(strs.deep_view()),
    {
        let ghost d = strs.deep_view();
        if strs.len() == 0 {
            let r = String::new();
            proof {
                lemma_longest_common_prefix_unique(r@, longest_common_prefix(d), d);
            }
            return r;
        }
        let first = chars_of(strs[0].as_str());
        let mut k: usize = first.len();
        let mut i: usize = 1;
        assert(first@.take(k as int) == d[0]);
        while i < strs.len()
            invariant
                1 <= i <= strs.len(),
                d == strs.deep_view(),
                first@ == d[0],
                k <= first.len(),
                forall|m: int| 0 <= m < i ==> is_prefix_of(first@.take(k as int), #[trigger] d[m]),
                k == first.len() || exists|m: int|
                    0 <= m < i && ((#[trigger] d[m]).len() == k || d[m][k as int] != first@[k as int]),
            decreases strs.len() - i,
        {
            let s = chars_of(strs[i].as_str());
            let mut j: usize = 0;
            while j < k && j < s.len() && s[j] == first[j]
                invariant
                    j <= k <= first.len(),
                    j <= s.len(),
                    forall|m: int| 0 <= m < j ==> s@[m] == first@[m],
                decreases k - j,
            {
                j = j + 1;
            }
            proof {
                assert(s@ == d[i as int]);
                assert(s@.take(j as int) =~= first@.take(j as int));
                assert(first@.take(j as int).len() == j);
                assert forall|m: int| 0 <= m < i + 1 implies is_prefix_of(
                    first@.take(j as int),
                    #[trigger] d[m],
                ) by {
                    if m < i {
                        assert(is_prefix_of(first@.take(k as int), d[m]));
                        assert(d[m].take(j as int) =~= d[m].take(k as int).take(j as int));
                        assert(first@.take(j as int) =~= first@.take(k as int).take(j as int));
                    } else {
                        assert(d[m] == s@);
                    }
                }
                if j < k {
                    assert(d[i as int].len() == j || d[i as int][j as int] != first@[j as int]);
                }
            }
            k = j;
            i = i + 1;
        }
        let t = copy_range(&first, 0, k);
        let r = string_from_chars(&t);
        proof {
            assert(r@ == first@.take(k as int));
            assert(is_common_prefix(r@, d));
            assert forall|q: Seq<char>| #[trigger] is_common_prefix(q, d) implies q.len() <= r@.len() by {
                if q.len() > k {
                    assert(is_prefix_of(q, d[0]));
                    if k < first.len() {
                        let m = choose|m: int|
                            0 <= m < i && ((#[trigger] d[m]).len() == k || d[m][k as int]
                                != first@[k as int]);
                        assert(is_prefix_of(q, d[m]));
                        assert(d[m].take(q.len() as int)[k as int] == q[k as int]);
                        assert(d[0].take(q.len() as int)[k as int] == q[k as int]);
                    }
                }
            }
            assert(is_longest_common_prefix(r@, d));
            lemma_longest_common_prefix_unique(r@, longest_common_prefix(d), d);
        }
        r
    }

    /// One Tab press on `line`.
    pub fn handle(&mut self, line: &str) -> (r: TabAction)
        requires
            old(self).wf(),
        ensures
            final(self).wf(),
            final(self).spec_commands() == old(self).spec_commands(),
            (r@, final(self).spec_awaiting(), final(self).spec_stored()) == tab_outcome(
                old(self).spec_commands(),
                old(self).spec_awaiting(),
                old(self).spec_stored(),
                line@,
            ),
            !old(self).spec_awaiting() && matching(old(self).spec_commands(), line@).len() == 0
                ==> r@ == TabActionView::Bell,
    {
        let awaiting = self.session.awaiting_second_tab;
        let mut stored: Vec<String> = Vec::new();
        std::mem::swap(&mut stored, &mut self.session.candidates);
        self.session.awaiting_second_tab = false;
        assert(self.session.candidates.deep_view() == Seq::<Seq<char>>::empty());
        let cands = if awaiting {
            stored
        } else {
            matching_commands(&self.commands, line)
        };
        let n = cands.len();
        if n == 0 {
            return TabAction::Bell;
        }
        let line_len = chars_of(line).len();
        if n == 1 {
            assert(is_prefix_of(line@, cands.deep_view()[0]));
            let mut s = suffix_from(cands[0].as_str(), line_len);
            s.push(' ');
            return TabAction::InsertSuffix(s);
        }
        if awaiting {
            return TabAction::ListAndBell(cands);
        }
        let p = Self::get_longest_common_prefix(&cands);
        let p_len = chars_of(p.as_str()).len();
        if p_len > line_len {
            return TabAction::InsertSuffix(suffix_from(p.as_str(), line_len));
        }
        self.session.awaiting_second_tab = true;
        self.session.candidates = cands;
        TabAction::Bell
    }
}

/// On a line whose candidates share nothing beyond it, a first press only
/// rings the bell and keeps them, and the press after it lists those same
/// candidates and leaves nothing pending, whatever the line then holds.
pub proof fn lemma_two_step_listing(commands: Seq<Seq<char>>, line: Seq<char>, next_line: Seq<char>)
    requires
        matching(commands, line).len() >= 2,
        longest_common_prefix(matching(commands, line)) == line,
    ensures
        tab_outcome(commands, false, Seq::empty(), line) == (
            TabActionView::Bell,
            true,
            matching(commands, line),
        ),
        tab_outcome(commands, true, matching(commands, line), next_line) == (
            TabActionView::ListAndBell(matching(commands, line)),
            false,
            Seq::<Seq<char>>::empty(),
        ),
{
}

impl Default for MyTabHandler {
    /// An empty command table, with no press pending.
    fn default() -> (r: MyTabHandler)
        ensures
            r.spec_commands() == Seq::<Seq<char>>::empty(),
            !r.spec_awaiting(),
            r.spec_stored() == Seq::<Seq<char>>::empty(),
            r.wf(),
    {
        let r = MyTabHandler::new(Vec::new());
        assert(r.spec_commands() == Seq::<Seq<char>>::empty());
        r
    }
}

} // verus!
