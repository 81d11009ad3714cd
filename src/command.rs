//! Reading a command line: the command name and its argument text, the
//! builtins, and how a name resolves to a program on the search path.

use vstd::prelude::*;
use crate::text::{
    is_blank, trim, contains, first_index, is_first_occurrence, lemma_first_occurrence_unique,
    join_with, has_blank, first_blank, chars_of, copy_range, trimmed_range, find_first,
    find_blank, string_from_chars, join_strings, same_chars, push_chars, trim_str,
};
use crate::tokenizer::{tokens_of, special_char_args_builder};

verus! {

/// A command that the shell carries out itself.
#[derive(Clone, Copy, Debug, PartialEq, Eq, Structural)]
pub enum Builtin {
    Exit,
    Echo,
    Type,
    Pwd,
    Cd,
}

pub open spec fn builtin_spec(name: Seq<char>) -> Option<Builtin> {
    if name == "exit"@ {
        Some(Builtin::Exit)
    } else if name == "echo"@ {
        Some(Builtin::Echo)
    } else if name == "type"@ {
        Some(Builtin::Type)
    } else if name == "pwd"@ {
        Some(Builtin::Pwd)
    } else if name == "cd"@ {
        Some(Builtin::Cd)
    } else {
        None
    }
}

/// The builtin that `name` names, if any.
pub fn builtin_of(name: &str) -> (r: Option<Builtin>)
    ensures
        r == builtin_spec(name@),
{
    let v = chars_of(name);
    if same_chars(&v, &chars_of("exit")) {
        Some(Builtin::Exit)
    } else if same_chars(&v, &chars_of("echo")) {
        Some(Builtin::Echo)
    } else if same_chars(&v, &chars_of("type")) {
        Some(Builtin::Type)
    } else if same_chars(&v, &chars_of("pwd")) {
        Some(Builtin::Pwd)
    } else if same_chars(&v, &chars_of("cd")) {
        Some(Builtin::Cd)
    } else {
        None
    }
}

/// The names of the builtins.
pub fn builtin_names() -> (r: Vec<String>)
    ensures
        r.deep_view() == seq!["exit"@, "echo"@, "type"@, "pwd"@, "cd"@],
{
    let r = vec![
        "exit".to_owned(),
        "echo".to_owned(),
        "type".to_owned(),
        "pwd".to_owned(),
        "cd".to_owned(),
    ];
    assert(r.deep_view() == seq!["exit"@, "echo"@, "type"@, "pwd"@, "cd"@]);
    r
}

/// A command line taken apart: the command name and the text of its
/// arguments.
#[derive(Debug, PartialEq, Eq)]
pub struct CommandLine {
    pub command: String,
    pub args: String,
}

/// Why a command line cannot be taken apart.
#[derive(Clone, Copy, Debug, PartialEq, Eq, Structural)]
pub enum LineError {
    /// The command name opens a quote that the line never closes.
    UnterminatedQuote,
}

/// How a line splits into command name and argument text, after its
/// surrounding whitespace is dropped. A name that starts with a quote runs
/// to the next quote of that kind, and is resolved as a word; a line where
/// that quote is not closed has no split. Otherwise the name runs to the
/// first whitespace, and the arguments are the rest, trimmed.
pub open spec fn command_line_spec(line: Seq<char>) -> Option<(Seq<char>, Seq<char>)> {
    let t = trim(line);
    if t.len() > 0 && (t[0] == '\'' || t[0] == '"') {
        let q = seq![t[0]];
        let rest = t.skip(1);
        if contains(rest, q) {
            let e = first_index(rest, q);
            Some((join_with(tokens_of(t.take(e + 2)), seq![' ']), trim(t.skip(e + 2))))
        } else {
            None
        }
    } else if has_blank(t) {
        let i = first_blank(t);
        Some((t.take(i), trim(t.skip(i + 1))))
    } else {
        Some((t, Seq::empty()))
    }
}

/// Splits a line into command name and argument text.
pub fn split_command_line(line: &str) -> (r: Result<CommandLine, LineError>)
    ensures
        match r {
            Ok(cl) => command_line_spec(line@) == Some((cl.command@, cl.args@)),
            Err(_) => command_line_spec(line@) is None,
        },
{
    let t = trim_str(line);
    let v = chars_of(t.as_str());
    if v.len() > 0 && (v[0] == '\'' || v[0] == '"') {
        let q = vec![v[0]];
        let rest = copy_range(&v, 1, v.len());
        assert(rest@ == v@.skip(1));
        match find_first(&rest, &q) {
            None => {
                assert(v@ == trim(line@));
                assert(q@ == seq![v@[0]]);
                Err(LineError::UnterminatedQuote)
            },
            Some(e) => {
                proof {
                    assert(q@ == seq![v@[0]]);
                    assert(is_first_occurrence(rest@, q@, e as int));
                    assert(contains(rest@, q@));
                    lemma_first_occurrence_unique(rest@, q@, e as int, first_index(rest@, q@));
                }
                let quoted = string_from_chars(&copy_range(&v, 0, e + 2));
                let words = special_char_args_builder(quoted.as_str());
                let command = join_strings(&words, " ");
                let args = trimmed_range(&v, e + 2, v.len());
                proof {
                    reveal_strlit(" ");
                    assert(" "@ =~= seq![' ']);
                    assert(v@.subrange(0, e + 2) == v@.take(e + 2));
                    assert(v@.subrange(e + 2, v.len() as int) == v@.skip(e + 2));
                }
                let r = CommandLine { command, args: string_from_chars(&args) };
                assert(v@ == trim(line@));
                assert(command_line_spec(line@) == Some((r.command@, r.args@)));
                Ok(r)
            },
        }
    } else {
        match find_blank(&v) {
            Some(i) => {
                let command = string_from_chars(&copy_range(&v, 0, i));
                let args = trimmed_range(&v, i + 1, v.len());
                assert(is_blank(v@[i as int]));
                assert(has_blank(v@));
                assert(v@.subrange(0, i as int) == v@.take(i as int));
                assert(v@.subrange(i + 1, v.len() as int) == v@.skip(i + 1));
                let r = CommandLine { command, args: string_from_chars(&args) };
                assert(v@ == trim(line@));
                assert(command_line_spec(line@) == Some((r.command@, r.args@)));
                Ok(r)
            },
            None => {
                let r = CommandLine { command: t, args: String::new() };
                assert(command_line_spec(line@) == Some((r.command@, r.args@)));
                Ok(r)
            },
        }
    }
}

/// Where a program named `name` would stand in directory `dir`: an
/// absolute name stands for itself, an empty directory is the current one,
/// and otherwise the two are joined by one `/`.
pub open spec fn joined_path(dir: Seq<char>, name: Seq<char>) -> Seq<char> {
    if name.len() > 0 && name[0] == '/' {
        name
    } else if dir.len() == 0 {
        name
    } else if dir.last() == '/' {
        dir + name
    } else {
        dir + seq!['/'] + name
    }
}

fn join_path(dir: &str, name: &str) -> (r: String)
    ensures
        r@ == joined_path(dir@, name@),
{
    let d = chars_of(dir);
    let n = chars_of(name);
    let mut r = String::new();
    if n.len() > 0 && n[0] == '/' {
        push_chars(&mut r, name);
    } else if d.len() == 0 {
        push_chars(&mut r, name);
    } else if d[d.len() - 1] == '/' {
        push_chars(&mut r, dir);
        push_chars(&mut r, name);
    } else {
        push_chars(&mut r, dir);
        r.push('/');
        push_chars(&mut r, name);
    }
    assert(Seq::<char>::empty() + name@ == name@);
    assert(Seq::<char>::empty() + dir@ == dir@);
    r
}

/// The paths at which the search path's directories, taken in order,
/// offer a program `name`.
pub fn path_candidates(dirs: &Vec<String>, name: &str) -> (r: Vec<String>)
    ensures
        r.deep_view() == dirs.deep_view().map_values(|d: Seq<char>| joined_path(d, name@)),
{
    let mut r: Vec<String> = Vec::new();
    let mut i: usize = 0;
    while i < dirs.len()
        invariant
            i <= dirs.len(),
            r.deep_view() == dirs.deep_view().take(i as int).map_values(
                |d: Seq<char>| joined_path(d, name@),
            ),
        decreases dirs.len() - i,
    {
        let ghost before = r.deep_view();
        r.push(join_path(dirs[i].as_str(), name));
        assert(r.deep_view() == before.push(joined_path(dirs.deep_view()[i as int], name@)));
        assert(dirs.deep_view().take(i + 1).map_values(|d: Seq<char>| joined_path(d, name@))
            == dirs.deep_view().take(i as int).map_values(|d: Seq<char>| joined_path(d, name@)).push(
            joined_path(dirs.deep_view()[i as int], name@),
        ));
        i = i + 1;
    }
    assert(dirs.deep_view().take(dirs.len() as int) == dirs.deep_view());
    r
}

/// One place where a program was looked for, and whether an executable
/// file stands there.
pub struct PathProbe {
    pub path: String,
    pub executable: bool,
}

/// How a command name resolved.
#[derive(Clone, Copy, Debug, PartialEq, Eq, Structural)]
pub enum CommandKind {
    Builtin,
    External,
    NotFound,
}

#[derive(Debug, PartialEq, Eq)]
pub struct CommandResolution {
    pub name: String,
    pub kind: CommandKind,
    /// The program's path, for an external command.
    pub resolved_path: Option<String>,
}

/// `i` is the first probe that found an executable.
pub open spec fn is_first_executable(probes: Seq<PathProbe>, i: int) -> bool {
    &&& 0 <= i < probes.len()
    &&& probes[i].executable
    &&& forall|j: int| 0 <= j < i ==> !(#[trigger] probes[j]).executable
}

/// Resolves a command name: a builtin needs no search; otherwise the first
/// of the probes, taken in search-path order, that found an executable
/// gives the program, and where none did the command is not found.
pub fn resolve_command(name: &str, probes: &Vec<PathProbe>) -> (r: CommandResolution)
    ensures
        r.name@ == name@,
        builtin_spec(name@) is Some ==> r.kind == CommandKind::Builtin && r.resolved_path is None,
        builtin_spec(name@) is None ==> r.kind != CommandKind::Builtin,
        r.kind == CommandKind::External <==> builtin_spec(name@) is None && exists|i: int|
            0 <= i < probes.len() && (#[trigger] probes@[i]).executable,
        r.kind == CommandKind::External ==> r.resolved_path is Some && exists|i: int|
            is_first_executable(probes@, i) && r.resolved_path->0@ == probes@[i].path@,
        r.kind == CommandKind::NotFound ==> r.resolved_path is None,
{
    let owned = name.to_owned();
    if builtin_of(name).is_some() {
        return CommandResolution { name: owned, kind: CommandKind::Builtin, resolved_path: None };
    }
    let mut i: usize = 0;
    while i < probes.len()
        invariant
            i <= probes.len(),
            owned@ == name@,
            builtin_spec(name@) is None,
            forall|j: int| 0 <= j < i ==> !(#[trigger] probes@[j]).executable,
        decreases probes.len() - i,
    {
        if probes[i].executable {
            let path = probes[i].path.clone();
            assert(is_first_executable(probes@, i as int));
            return CommandResolution {
                name: owned,
                kind: CommandKind::External,
                resolved_path: Some(path),
            };
        }
        i = i + 1;
    }
    CommandResolution { name: owned, kind: CommandKind::NotFound, resolved_path: None }
}

/// What `type` reports of a resolution.
pub open spec fn type_report(r: CommandResolution) -> Seq<char> {
    match r.kind {
        CommandKind::Builtin => r.name@ + " is a shell builtin"@,
        CommandKind::External => r.name@ + " is "@ + match r.resolved_path {
            Some(p) => p@,
            None => Seq::empty(),
        },
        CommandKind::NotFound => r.name@ + ": not found"@,
    }
}

/// The line that `type` prints for a resolution: `<name> is a shell
/// builtin`, `<name> is <path>` or `<name>: not found`.
pub fn describe_resolution(r: &CommandResolution) -> (s: String)
    ensures
        s@ == type_report(*r),
{
    let mut s = String::new();
    push_chars(&mut s, r.name.as_str());
    match r.kind {
        CommandKind::Builtin => push_chars(&mut s, " is a shell builtin"),
        CommandKind::External => {
            push_chars(&mut s, " is ");
            match &r.resolved_path {
                Some(p) => push_chars(&mut s, p.as_str()),
                None => {
                    assert(s@ + Seq::<char>::empty() == s@);
                },
            }
        },
        CommandKind::NotFound => push_chars(&mut s, ": not found"),
    }
    assert(Seq::<char>::empty() + r.name@ == r.name@);
    s
}

/// Why `cd` has no directory to go to.
#[derive(Clone, Copy, Debug, PartialEq, Eq, Structural)]
pub enum CdError {
    /// The argument is `~` and no home directory is known.
    HomeMissing,
}

/// The directory that `cd` goes to: the home directory for `~`, else the
/// argument itself.
pub fn cd_target(args: &str, home: Option<String>) -> (r: Result<String, CdError>)
    ensures
        args@ == "~"@ ==> match home {
            Some(h) => (r matches Ok(t) && t@ == h@),
            None => r == Err::<String, CdError>(CdError::HomeMissing),
        },
        args@ != "~"@ ==> (r matches Ok(t) && t@ == args@),
{
    if same_chars(&chars_of(args), &chars_of("~")) {
        match home {
            Some(h) => Ok(h),
            None => Err(CdError::HomeMissing),
        }
    } else {
        Ok(args.to_owned())
    }
}

/// What `cd` reports when it cannot enter the directory named `arg`.
pub fn cd_failure_message(arg: &str) -> (r: String)
    ensures
        r@ == "cd: "@ + arg@ + ": No such file or directory"@,
{
    let mut r = String::new();
    push_chars(&mut r, "cd: ");
    push_chars(&mut r, arg);
    push_chars(&mut r, ": No such file or directory");
    assert(Seq::<char>::empty() + "cd: "@ == "cd: "@);
    r
}

} // verus!
