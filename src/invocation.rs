//! What a command does with its arguments: the text that `echo` writes, and
//! for an external program the arguments it gets, which of them are
//! reported as missing files, and whether it runs at all.

use vstd::prelude::*;
use crate::text::{
    join_with, trim, chars_of, trimmed_range, string_from_chars, join_strings, push_chars, same_chars,
};
use crate::tokenizer::{tokens_of, special_char_args_builder};
use crate::redirection::{Sink, sink_is, stream_targets, plan_output};
use crate::command::{CommandResolution, type_report, describe_resolution};

verus! {

/// What `echo` writes, given the text of its arguments: its words joined by
/// single spaces and a line end, or nothing where it has no words. The line
/// ends in `\r\n` where the command is redirected, in `\n` on the terminal.
pub open spec fn echo_line(text: Seq<char>, redirected: bool) -> Option<Seq<char>> {
    let words = tokens_of(text);
    if words.len() == 0 {
        None
    } else if redirected {
        Some(join_with(words, seq![' ']) + seq!['\r', '\n'])
    } else {
        Some(join_with(words, seq![' ']).push('\n'))
    }
}

/// The argument text holds a redirection.
pub open spec fn is_redirected(args: Seq<char>) -> bool {
    stream_targets(args).1 is Some || stream_targets(args).2 is Some
}

/// What `echo` writes, and where.
pub struct EchoPlan {
    pub line: Option<String>,
    pub stdout: Sink,
    pub stderr: Sink,
}

/// Plans `echo` on its argument text: the words before any redirection
/// operator, and the streams' targets.
pub fn command_echo(args: &str) -> (r: EchoPlan)
    ensures
        match r.line {
            Some(l) => echo_line(stream_targets(args@).0, is_redirected(args@)) == Some(l@),
            None => echo_line(stream_targets(args@).0, is_redirected(args@)) is None,
        },
        sink_is(r.stdout, stream_targets(args@).1),
        sink_is(r.stderr, stream_targets(args@).2),
{
    let plan = plan_output(args);
    let redirected = match (&plan.stdout, &plan.stderr) {
        (Sink::Terminal, Sink::Terminal) => false,
        _ => true,
    };
    let words = special_char_args_builder(plan.text.as_str());
    let line = if words.len() == 0 {
        None
    } else {
        let mut l = join_strings(&words, " ");
        let ghost joined = l@;
        if redirected {
            l.push('\r');
        }
        l.push('\n');
        proof {
            reveal_strlit(" ");
            assert(" "@ =~= seq![' ']);
            if redirected {
                assert(l@ == joined + seq!['\r', '\n']);
            }
        }
        Some(l)
    };
    EchoPlan { line, stdout: plan.stdout, stderr: plan.stderr }
}

/// An error line and where the error stream sends it.
#[derive(Debug, PartialEq, Eq)]
pub struct ErrorReport {
    pub text: String,
    pub sink: Sink,
}

/// The report for a command that did not resolve to a program: the line
/// that `type` gives for it, sent where the argument text sends the error
/// stream (a `2>` or `2>>` file, else the terminal).
pub fn resolution_failure(resolution: &CommandResolution, args: &str) -> (r: ErrorReport)
    ensures
        r.text@ == type_report(*resolution).push('\n'),
        sink_is(r.sink, stream_targets(args@).2),
{
    let mut text = describe_resolution(resolution);
    text.push('\n');
    let plan = plan_output(args);
    ErrorReport { text, sink: plan.stderr }
}

/// The programs whose plain arguments name files that must exist.
pub open spec fn checks_paths(program: Seq<char>) -> bool {
    program == "cat"@ || program == "ls"@ || program == "cat.exe"@ || program == "ls.exe"@
}

/// The arguments a program gets from its argument text: its words, each
/// trimmed.
pub open spec fn program_arguments(text: Seq<char>) -> Seq<Seq<char>> {
    tokens_of(text).map_values(|w: Seq<char>| trim(w))
}

/// How to run an external program.
pub struct ExecPlan {
    pub program: String,
    pub arguments: Vec<String>,
    /// The plain arguments must name existing files.
    pub check_paths: bool,
    pub stdout: Sink,
    pub stderr: Sink,
}

/// Plans running `command` on its argument text.
pub fn command_execute(command: &str, args: &str) -> (r: ExecPlan)
    ensures
        r.program@ == command@,
        r.arguments.deep_view() == program_arguments(stream_targets(args@).0),
        r.check_paths == checks_paths(command@),
        sink_is(r.stdout, stream_targets(args@).1),
        sink_is(r.stderr, stream_targets(args@).2),
{
    let plan = plan_output(args);
    let words = special_char_args_builder(plan.text.as_str());
    let mut arguments: Vec<String> = Vec::new();
    let mut i: usize = 0;
    while i < words.len()
        invariant
            i <= words.len(),
            words.deep_view() == tokens_of(plan.text@),
            arguments.deep_view() == words.deep_view().take(i as int).map_values(
                |w: Seq<char>| trim(w),
            ),
        decreases words.len() - i,
    {
        let ghost before = arguments.deep_view();
        let v = chars_of(words[i].as_str());
        let t = trimmed_range(&v, 0, v.len());
        assert(v@.subrange(0, v.len() as int) == v@);
        arguments.push(string_from_chars(&t));
        assert(arguments.deep_view() == before.push(trim(words.deep_view()[i as int])));
        assert(words.deep_view().take(i + 1).map_values(|w: Seq<char>| trim(w))
            == words.deep_view().take(i as int).map_values(|w: Seq<char>| trim(w)).push(
            trim(words.deep_view()[i as int]),
        ));
        i = i + 1;
    }
    assert(words.deep_view().take(words.len() as int) == words.deep_view());
    let v = chars_of(command);
    let check_paths = same_chars(&v, &chars_of("cat")) || same_chars(&v, &chars_of("ls"))
        || same_chars(&v, &chars_of("cat.exe")) || same_chars(&v, &chars_of("ls.exe"));
    ExecPlan {
        program: command.to_owned(),
        arguments,
        check_paths,
        stdout: plan.stdout,
        stderr: plan.stderr,
    }
}

/// Plans `cat` on its argument text.
pub fn command_cat(args: &str) -> (r: ExecPlan)
    ensures
        r.program@ == "cat"@,
        r.arguments.deep_view() == program_arguments(stream_targets(args@).0),
        r.check_paths,
        sink_is(r.stdout, stream_targets(args@).1),
        sink_is(r.stderr, stream_targets(args@).2),
{
    command_execute("cat", args)
}

/// Plans `ls` on its argument text.
pub fn command_ls(args: &str) -> (r: ExecPlan)
    ensures
        r.program@ == "ls"@,
        r.arguments.deep_view() == program_arguments(stream_targets(args@).0),
        r.check_paths,
        sink_is(r.stdout, stream_targets(args@).1),
        sink_is(r.stderr, stream_targets(args@).2),
{
    command_execute("ls", args)
}

/// An argument that starts with `-` is an option.
pub open spec fn is_option(a: Seq<char>) -> bool {
    a.len() > 0 && a[0] == '-'
}

fn is_option_exec(a: &str) -> (r: bool)
    ensures
        r == is_option(a@),
{
    let v = chars_of(a);
    v.len() > 0 && v[0] == '-'
}

/// Whether an argument must name an existing file before the program runs.
pub open spec fn needs_path(check_paths: bool, a: Seq<char>) -> bool {
    check_paths && !is_option(a)
}

/// Whether `argument` must name an existing file before the plan runs.
pub fn needs_path_check(plan: &ExecPlan, argument: &str) -> (r: bool)
    ensures
        r == needs_path(plan.check_paths, argument@),
{
    plan.check_paths && !is_option_exec(argument)
}

/// An argument, and whether a file of that name was found.
pub struct ArgumentProbe {
    pub argument: String,
    pub present: bool,
}

pub open spec fn is_missing(check_paths: bool, p: ArgumentProbe) -> bool {
    needs_path(check_paths, p.argument@) && !p.present
}

/// The arguments that the program gets: all but the missing files.
pub open spec fn kept_arguments(check_paths: bool, probes: Seq<ArgumentProbe>) -> Seq<Seq<char>>
    decreases probes.len(),
{
    if probes.len() == 0 {
        Seq::empty()
    } else {
        let kept = kept_arguments(check_paths, probes.drop_last());
        if is_missing(check_paths, probes.last()) {
            kept
        } else {
            kept.push(probes.last().argument@)
        }
    }
}

/// One line per missing file: `<program>: <argument>: No such file or
/// directory`.
pub open spec fn missing_report(program: Seq<char>, check_paths: bool, probes: Seq<ArgumentProbe>) -> Seq<char>
    decreases probes.len(),
{
    if probes.len() == 0 {
        Seq::empty()
    } else {
        let report = missing_report(program, check_paths, probes.drop_last());
        if is_missing(check_paths, probes.last()) {
            report + program + ": "@ + probes.last().argument@ + ": No such file or directory\r\n"@
        } else {
            report
        }
    }
}

/// The outcome of checking a program's arguments.
#[derive(Debug, PartialEq, Eq)]
pub struct ArgumentCheck {
    /// The arguments the program gets.
    pub valid: Vec<String>,
    /// The error text for the missing files.
    pub errors: String,
    /// The program runs: some argument it gets is not an option.
    pub run: bool,
}

/// Sorts a program's arguments, as probed, into those it gets and those
/// reported missing, and decides whether it runs.
pub fn check_arguments(program: &str, check_paths: bool, probes: &Vec<ArgumentProbe>) -> (r: ArgumentCheck)
    ensures
        r.valid.deep_view() == kept_arguments(check_paths, probes@),
        r.errors@ == missing_report(program@, check_paths, probes@),
        r.run == exists|i: int| 0 <= i < r.valid.len() && !is_option(#[trigger] r.valid.deep_view()[i]),
{
    let mut valid: Vec<String> = Vec::new();
    let mut errors = String::new();
    let mut run = false;
    let mut i: usize = 0;
    assert(probes@.take(0) == Seq::<ArgumentProbe>::empty());
    assert(valid.deep_view() == Seq::<Seq<char>>::empty());
    while i < probes.len()
        invariant
            i <= probes.len(),
            valid.deep_view() == kept_arguments(check_paths, probes@.take(i as int)),
            errors@ == missing_report(program@, check_paths, probes@.take(i as int)),
            run == exists|j: int| 0 <= j < valid.len() && !is_option(#[trigger] valid.deep_view()[j]),
        decreases probes.len() - i,
    {
        let ghost before = valid.deep_view();
        let p = &probes[i];
        proof {
            assert(probes@.take(i + 1).drop_last() == probes@.take(i as int));
            assert(probes@.take(i + 1).last() == probes@[i as int]);
        }
        let option = is_option_exec(p.argument.as_str());
        if check_paths && !option && !p.present {
            push_chars(&mut errors, program);
            push_chars(&mut errors, ": ");
            push_chars(&mut errors, p.argument.as_str());
            push_chars(&mut errors, ": No such file or directory\r\n");
        } else {
            valid.push(p.argument.clone());
            assert(valid.deep_view() == before.push(p.argument@));
            if !option {
                run = true;
            }
            proof {
                if !option {
                    assert(!is_option(valid.deep_view()[before.len() as int]));
                }
                assert forall|j: int| 0 <= j < before.len() implies valid.deep_view()[j] == before[j] by {}
            }
        }
        i = i + 1;
    }
    assert(probes@.take(probes.len() as int) == probes@);
    ArgumentCheck { valid, errors, run }
}

} // verus!
