//! The line editor's completer: offers the whole command name when one
//! command matches, and on a second press lists the candidates that a first
//! press found.

use vstd::prelude::*;
use crate::completion::{
    CompletionSession, matching, matching_commands, distinct_commands, distinct_names,
    session_wf,
};
use crate::completion::longest_common_prefix;
use crate::tab_handler::MyTabHandler;
use crate::text::{chars_of, push_chars};

verus! {

/// What a completion request gives back to the line editor.
#[derive(Debug, PartialEq, Eq)]
pub enum LineCompletion {
    /// No command begins with the line.
    NoMatch,
    /// One command does: show `display`, and put `replacement` in place of
    /// the line.
    Single { display: String, replacement: String },
    /// Several do, on a first press, and begin with a longer common prefix
    /// than the line: put that prefix in place of the line.
    CommonPrefix(String),
    /// Several do, on a first press, with no common prefix longer than the
    /// line: nothing is shown yet.
    Ambiguous,
    /// Several did on the press before: print them and keep the line.
    Listed(Vec<String>),
}

pub enum LineCompletionView {
    NoMatch,
    Single(Seq<char>, Seq<char>),
    CommonPrefix(Seq<char>),
    Ambiguous,
    Listed(Seq<Seq<char>>),
}

impl View for LineCompletion {
    type V = LineCompletionView;

    open spec fn view(&self) -> LineCompletionView {
        match self {
            LineCompletion::NoMatch => LineCompletionView::NoMatch,
            LineCompletion::Single { display, replacement } => LineCompletionView::Single(
                display@,
                replacement@,
            ),
            LineCompletion::CommonPrefix(p) => LineCompletionView::CommonPrefix(p@),
            LineCompletion::Ambiguous => LineCompletionView::Ambiguous,
            LineCompletion::Listed(v) => LineCompletionView::Listed(v.deep_view()),
        }
    }
}

/// One completion request on `line`: the answer, then whether the session
/// waits for a second request and the candidates it keeps.
///
/// The candidates are the stored ones while the session waits, else the
/// commands that begin with `line`. None: no match. One: that command,
/// and to replace the line, the command and a space. Several, on a second
/// request: list them. Several, on a first: replace the line by their
/// longest common prefix where it is longer than the line, else keep them
/// and wait.
pub open spec fn completion_outcome(
    commands: Seq<Seq<char>>,
    awaiting: bool,
    stored: Seq<Seq<char>>,
    line: Seq<char>,
) -> (LineCompletionView, bool, Seq<Seq<char>>) {
    let cands = if awaiting {
        stored
    } else {
        matching(commands, line)
    };
    if cands.len() == 0 {
        (LineCompletionView::NoMatch, false, Seq::empty())
    } else if cands.len() == 1 {
        (LineCompletionView::Single(cands[0], cands[0].push(' ')), false, Seq::empty())
    } else if awaiting {
        (LineCompletionView::Listed(cands), false, Seq::empty())
    } else {
        let p = longest_common_prefix(cands);
        if p.len() > line.len() {
            (LineCompletionView::CommonPrefix(p), false, Seq::empty())
        } else {
            (LineCompletionView::Ambiguous, true, cands)
        }
    }
}

/// Completes command names from a fixed table for the line editor.
#[derive(Clone, Debug)]
pub struct MyEditorHelper {
    commands: Vec<String>,
    session: CompletionSession,
}

impl MyEditorHelper {
    /// The command table.
    pub closed spec fn spec_commands(&self) -> Seq<Seq<char>> {
        self.commands.deep_view()
    }

    /// The last request found several candidates and waits for another.
    pub closed spec fn spec_awaiting(&self) -> bool {
        self.session.awaiting_second_tab
    }

    /// The candidates kept for the next request.
    pub closed spec fn spec_stored(&self) -> Seq<Seq<char>> {
        self.session.candidates.deep_view()
    }

    /// The session is consistent, and the table holds each name once.
    pub open spec fn wf(&self) -> bool {
        &&& session_wf(self.spec_awaiting(), self.spec_stored())
        &&& self.spec_commands().no_duplicates()
    }

    /// A helper over the given command names, each kept once, with no
    /// request pending.
    pub fn new(commands: Vec<String>) -> (r: MyEditorHelper)
        ensures
            r.spec_commands() == distinct_names(commands.deep_view()),
            !r.spec_awaiting(),
            r.spec_stored() == Seq::<Seq<char>>::empty(),
            r.wf(),
    {
        MyEditorHelper { commands: distinct_commands(commands), session: CompletionSession::new() }
    }

    /// Forgets any pending request: the line was submitted or dropped.
    pub fn reset(&mut self)
        requires
            old(self).wf(),
        ensures
            final(self).spec_commands() == old(self).spec_commands(),
            !final(self).spec_awaiting(),
            final(self).spec_stored() == Seq::<Seq<char>>::empty(),
            final(self).wf(),
    {
        self.session = CompletionSession::new();
    }

    /// One completion request on `line`.
    pub fn complete(&mut self, line: &str) -> (r: LineCompletion)
        requires
            old(self).wf(),
        ensures
            final(self).wf(),
            final(self).spec_commands() == old(self).spec_commands(),
            (r@, final(self).spec_awaiting(), final(self).spec_stored()) == completion_outcome(
                old(self).spec_commands(),
                old(self).spec_awaiting(),
                old(self).spec_stored(),
                line@,
            ),
            !old(self).spec_awaiting() && matching(old(self).spec_commands(), line@).len() == 0
                ==> r@ == LineCompletionView::NoMatch,
    {
        let awaiting = self.session.awaiting_second_tab;
        let mut stored: Vec<String> = Vec::new();
        std::mem::swap(&mut stored, &mut self.session.candidates);
        self.session.awaiting_second_tab = false;
        assert(self.session.candidates.deep_view() == Seq::<Seq<char>>::empty());
        let cands = if awaiting {
            stored
        } else {
            matching_commands(&self.commands, line)
        };
        let n = cands.len();
        if n == 0 {
            return LineCompletion::NoMatch;
        }
        if n == 1 {
            let display = cands[0].clone();
            let mut replacement = String::new();
            push_chars(&mut replacement, cands[0].as_str());
            replacement.push(' ');
            assert(Seq::<char>::empty() + cands[0]@ == cands[0]@);
            return LineCompletion::Single { display, replacement };
        }
        if awaiting {
            return LineCompletion::Listed(cands);
        }
        let p = MyTabHandler::get_longest_common_prefix(&cands);
        if chars_of(p.as_str()).len() > chars_of(line).len() {
            return LineCompletion::CommonPrefix(p);
        }
        self.session.awaiting_second_tab = true;
        self.session.candidates = cands;
        LineCompletion::Ambiguous
    }
}

impl Default for MyEditorHelper {
    /// An empty command table, with no press pending.
    fn default() -> (r: MyEditorHelper)
        ensures
            r.spec_commands() == Seq::<Seq<char>>::empty(),
            !r.spec_awaiting(),
            r.spec_stored() == Seq::<Seq<char>>::empty(),
            r.wf(),
    {
        let r = MyEditorHelper::new(Vec::new());
        assert(r.spec_commands() == Seq::<Seq<char>>::empty());
        r
    }
}

} // verus!
