use shell_core::{
    RedirectOperator, Sink, FileTarget, is_redirection_args, plan_output, redirection_args_builder,
};

#[test]
fn no_gt_means_no_redirection() {
    assert!(!is_redirection_args("hello world"));
    assert!(redirection_args_builder("hello world").is_none());
}

#[test]
fn gt_means_redirection() {
    assert!(is_redirection_args("a > b"));
    let r = redirection_args_builder("hello > out.txt").unwrap();
    assert_eq!(r.operator, RedirectOperator::Truncate);
    assert_eq!(r.command, "hello");
    assert_eq!(r.target, "out.txt");
}

#[test]
fn longer_operator_wins() {
    let r = redirection_args_builder("a >> b > c").unwrap();
    assert_eq!(r.operator, RedirectOperator::Append);
    assert_eq!(r.command, "a");
    assert_eq!(r.target, "b > c");
}

#[test]
fn fd_one_append_checked_first() {
    let r = redirection_args_builder("x >> y 1>> z").unwrap();
    assert_eq!(r.operator, RedirectOperator::FdOneAppend);
    assert_eq!(r.command, "x >> y");
    assert_eq!(r.target, "z");
}

#[test]
fn each_operator_is_found() {
    let cases = [
        ("a 1>> f", RedirectOperator::FdOneAppend),
        ("a 2>> f", RedirectOperator::FdTwoAppend),
        ("a >> f", RedirectOperator::Append),
        ("a 1> f", RedirectOperator::FdOne),
        ("a 2> f", RedirectOperator::FdTwo),
        ("a > f", RedirectOperator::Truncate),
    ];
    for (line, op) in cases {
        let r = redirection_args_builder(line).unwrap();
        assert_eq!(r.operator, op, "{}", line);
        assert_eq!(r.command, "a");
        assert_eq!(r.target, "f");
    }
}

#[test]
fn quoted_target_is_resolved() {
    let r = redirection_args_builder("hi > '/tmp/my file.txt'  ").unwrap();
    assert_eq!(r.target, "/tmp/my file.txt");
}

#[test]
fn split_at_first_occurrence() {
    let r = redirection_args_builder("a > b > c").unwrap();
    assert_eq!(r.command, "a");
    assert_eq!(r.target, "b > c");
}

#[test]
fn stdout_redirect_plan() {
    let p = plan_output("hi 1>> log.txt");
    assert_eq!(p.text, "hi");
    assert_eq!(p.stdout, Sink::File(FileTarget { path: "log.txt".to_string(), append: true }));
    assert_eq!(p.stderr, Sink::Terminal);
}

#[test]
fn stderr_redirect_plan() {
    let p = plan_output("missing 2> err.txt");
    assert_eq!(p.text, "missing");
    assert_eq!(p.stdout, Sink::Terminal);
    assert_eq!(p.stderr, Sink::File(FileTarget { path: "err.txt".to_string(), append: false }));
}

#[test]
fn plan_without_redirect() {
    let p = plan_output(" a  b ");
    assert_eq!(p.text, " a  b ");
    assert_eq!(p.stdout, Sink::Terminal);
    assert_eq!(p.stderr, Sink::Terminal);
}
