use shell_core::{
    ArgumentProbe, Builtin, CdError, CommandKind, CommandResolution, FileTarget, LineError,
    PathProbe, Sink, builtin_names, builtin_of, cd_failure_message, cd_target, check_arguments,
    command_cat, command_echo, command_execute, command_ls, describe_resolution, needs_path_check,
    path_candidates, resolve_command, split_command_line,
};

fn dirs(v: &[&str]) -> Vec<String> {
    v.iter().map(|s| s.to_string()).collect()
}

fn probe(path: &str, executable: bool) -> PathProbe {
    PathProbe { path: path.to_string(), executable }
}

#[test]
fn builtins_are_recognised() {
    assert_eq!(builtin_of("exit"), Some(Builtin::Exit));
    assert_eq!(builtin_of("echo"), Some(Builtin::Echo));
    assert_eq!(builtin_of("type"), Some(Builtin::Type));
    assert_eq!(builtin_of("pwd"), Some(Builtin::Pwd));
    assert_eq!(builtin_of("cd"), Some(Builtin::Cd));
    assert_eq!(builtin_of("ls"), None);
    assert_eq!(builtin_of("exi"), None);
    assert_eq!(builtin_names(), vec!["exit", "echo", "type", "pwd", "cd"]);
}

#[test]
fn split_plain_line() {
    let cl = split_command_line("  echo   hello world  ").unwrap();
    assert_eq!(cl.command, "echo");
    assert_eq!(cl.args, "hello world");
}

#[test]
fn split_line_without_arguments() {
    let cl = split_command_line("pwd").unwrap();
    assert_eq!(cl.command, "pwd");
    assert_eq!(cl.args, "");
}

#[test]
fn split_quoted_command_name() {
    let cl = split_command_line("'exe with space' file.txt").unwrap();
    assert_eq!(cl.command, "exe with space");
    assert_eq!(cl.args, "file.txt");
    let cl = split_command_line("\"exe  'q'\"   a b").unwrap();
    assert_eq!(cl.command, "exe  'q'");
    assert_eq!(cl.args, "a b");
}

#[test]
fn split_unterminated_quote_is_error() {
    assert_eq!(split_command_line("'abc def"), Err(LineError::UnterminatedQuote));
}

#[test]
fn candidates_follow_path_order() {
    assert_eq!(
        path_candidates(&dirs(&["/usr/bin", "/opt/tools/", "", "/bin"]), "ls"),
        vec!["/usr/bin/ls", "/opt/tools/ls", "ls", "/bin/ls"]
    );
    assert_eq!(path_candidates(&dirs(&["/bin"]), "/abs/prog"), vec!["/abs/prog"]);
    assert_eq!(path_candidates(&dirs(&[]), "ls"), Vec::<String>::new());
}

#[test]
fn first_directory_wins() {
    let probes = vec![probe("/a/tool", false), probe("/b/tool", true), probe("/c/tool", true)];
    let r = resolve_command("tool", &probes);
    assert_eq!(r.kind, CommandKind::External);
    assert_eq!(r.resolved_path, Some("/b/tool".to_string()));
    let probes = vec![probe("/x/tool", true), probe("/y/tool", true)];
    assert_eq!(resolve_command("tool", &probes).resolved_path, Some("/x/tool".to_string()));
}

#[test]
fn builtin_needs_no_search() {
    let r = resolve_command("echo", &vec![probe("/bin/echo", true)]);
    assert_eq!(r.kind, CommandKind::Builtin);
    assert_eq!(r.resolved_path, None);
    assert_eq!(describe_resolution(&r), "echo is a shell builtin");
}

#[test]
fn not_found_when_nothing_executable() {
    let r = resolve_command("nope", &vec![probe("/a/nope", false)]);
    assert_eq!(r.kind, CommandKind::NotFound);
    assert_eq!(describe_resolution(&r), "nope: not found");
    assert_eq!(resolve_command("nope", &vec![]).kind, CommandKind::NotFound);
}

#[test]
fn type_reports_path() {
    let r = CommandResolution {
        name: "ls".to_string(),
        kind: CommandKind::External,
        resolved_path: Some("/bin/ls".to_string()),
    };
    assert_eq!(describe_resolution(&r), "ls is /bin/ls");
}

#[test]
fn cd_home_and_errors() {
    assert_eq!(cd_target("~", Some("/home/me".to_string())), Ok("/home/me".to_string()));
    assert_eq!(cd_target("~", None), Err(CdError::HomeMissing));
    assert_eq!(cd_target("/tmp", None), Ok("/tmp".to_string()));
    assert_eq!(cd_failure_message("/nope"), "cd: /nope: No such file or directory");
}

#[test]
fn echo_to_terminal() {
    let p = command_echo("'hello    world'  x");
    assert_eq!(p.line, Some("hello    world x\n".to_string()));
    assert_eq!(p.stdout, Sink::Terminal);
    assert_eq!(p.stderr, Sink::Terminal);
}

#[test]
fn echo_without_words_writes_nothing() {
    assert_eq!(command_echo("").line, None);
    assert_eq!(command_echo("''").line, None);
}

#[test]
fn echo_redirected() {
    let p = command_echo("hi there >> /tmp/out.txt");
    assert_eq!(p.line, Some("hi there\r\n".to_string()));
    assert_eq!(p.stdout, Sink::File(FileTarget { path: "/tmp/out.txt".to_string(), append: true }));
    let p = command_echo("oops 2> /tmp/err.txt");
    assert_eq!(p.line, Some("oops\r\n".to_string()));
    assert_eq!(p.stdout, Sink::Terminal);
    assert_eq!(p.stderr, Sink::File(FileTarget { path: "/tmp/err.txt".to_string(), append: false }));
}

#[test]
fn execute_plan_arguments() {
    let p = command_execute("grep", "-i 'a b' \"c\" 1> out");
    assert_eq!(p.program, "grep");
    assert_eq!(p.arguments, vec!["-i", "a b", "c"]);
    assert!(!p.check_paths);
    assert_eq!(p.stdout, Sink::File(FileTarget { path: "out".to_string(), append: false }));
    assert!(!needs_path_check(&p, "a b"));
}

#[test]
fn cat_and_ls_check_paths() {
    let p = command_cat("' x '");
    assert_eq!(p.program, "cat");
    assert_eq!(p.arguments, vec!["x"]);
    assert!(p.check_paths);
    assert!(needs_path_check(&p, "x"));
    assert!(!needs_path_check(&p, "-n"));
    let p = command_ls("-la /tmp");
    assert_eq!(p.program, "ls");
    assert_eq!(p.arguments, vec!["-la", "/tmp"]);
    assert!(command_execute("ls.exe", "").check_paths);
}

#[test]
fn missing_files_are_reported() {
    let probes = vec![
        ArgumentProbe { argument: "-n".to_string(), present: false },
        ArgumentProbe { argument: "a.txt".to_string(), present: true },
        ArgumentProbe { argument: "b.txt".to_string(), present: false },
    ];
    let c = check_arguments("cat", true, &probes);
    assert_eq!(c.valid, vec!["-n", "a.txt"]);
    assert_eq!(c.errors, "cat: b.txt: No such file or directory\r\n");
    assert!(c.run);
}

#[test]
fn only_options_do_not_run() {
    let probes = vec![
        ArgumentProbe { argument: "-l".to_string(), present: true },
        ArgumentProbe { argument: "gone".to_string(), present: false },
    ];
    let c = check_arguments("ls", true, &probes);
    assert_eq!(c.valid, vec!["-l"]);
    assert_eq!(c.errors, "ls: gone: No such file or directory\r\n");
    assert!(!c.run);
    let c = check_arguments("grep", false, &probes);
    assert_eq!(c.valid, vec!["-l", "gone"]);
    assert_eq!(c.errors, "");
    assert!(c.run);
}

#[test]
fn split_at_unicode_whitespace() {
    let cl = split_command_line("\u{3000}echo\u{2003}hi there\u{00A0}").unwrap();
    assert_eq!(cl.command, "echo");
    assert_eq!(cl.args, "hi there");
}

#[test]
fn not_found_goes_to_error_target() {
    let r = resolve_command("nope", &vec![]);
    let report = shell_core::resolution_failure(&r, "x 2> err.txt");
    assert_eq!(report.text, "nope: not found\n");
    assert_eq!(report.sink, Sink::File(FileTarget { path: "err.txt".to_string(), append: false }));
    let report = shell_core::resolution_failure(&r, "x > out.txt");
    assert_eq!(report.sink, Sink::Terminal);
}
