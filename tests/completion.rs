use shell_core::{LineCompletion, MyEditorHelper, MyTabHandler, TabAction, listing_line};

fn names(v: &[&str]) -> Vec<String> {
    v.iter().map(|s| s.to_string()).collect()
}

#[test]
fn single_match_inserts_rest_and_space() {
    let mut h = MyTabHandler::new(names(&["echo"]));
    assert_eq!(h.handle("ec"), TabAction::InsertSuffix("ho ".to_string()));
    // the session was reset: the same press does the same again
    assert_eq!(h.handle("ec"), TabAction::InsertSuffix("ho ".to_string()));
}

#[test]
fn ambiguous_rings_then_lists() {
    let mut h = MyTabHandler::new(names(&["xyz_a", "xyz_b"]));
    assert_eq!(h.handle("xyz_"), TabAction::Bell);
    let listed = h.handle("xyz_");
    assert_eq!(listed, TabAction::ListAndBell(names(&["xyz_a", "xyz_b"])));
    if let TabAction::ListAndBell(c) = listed {
        assert_eq!(listing_line(&c), "xyz_a  xyz_b");
    }
    // back to idle: a third press rings again
    assert_eq!(h.handle("xyz_"), TabAction::Bell);
}

#[test]
fn no_match_rings_bell() {
    let mut h = MyTabHandler::new(names(&["echo", "exit"]));
    assert_eq!(h.handle("zz"), TabAction::Bell);
    assert_eq!(h.handle("zz"), TabAction::Bell);
    assert_eq!(h.handle("ec"), TabAction::InsertSuffix("ho ".to_string()));
}

#[test]
fn common_prefix_is_inserted() {
    let mut h = MyTabHandler::new(names(&["xyz_foo", "xyz_foo_bar", "xyz_foo_bar_baz", "ls"]));
    assert_eq!(h.handle("xy"), TabAction::InsertSuffix("z_foo".to_string()));
    assert_eq!(h.handle("xyz_foo"), TabAction::Bell);
    assert_eq!(
        h.handle("xyz_foo"),
        TabAction::ListAndBell(names(&["xyz_foo", "xyz_foo_bar", "xyz_foo_bar_baz"]))
    );
}

#[test]
fn echo_and_exit_on_e_ring_then_list() {
    let mut h = MyTabHandler::new(names(&["echo", "exit"]));
    assert_eq!(h.handle("e"), TabAction::Bell);
    assert_eq!(h.handle("e"), TabAction::ListAndBell(names(&["echo", "exit"])));
}

#[test]
fn duplicate_names_count_once() {
    let mut h = MyTabHandler::new(names(&["ls", "ls", "cat"]));
    assert_eq!(h.handle("l"), TabAction::InsertSuffix("s ".to_string()));
}

#[test]
fn reset_forgets_pending_press() {
    let mut h = MyTabHandler::new(names(&["ab", "ac"]));
    assert_eq!(h.handle("a"), TabAction::Bell);
    h.reset();
    assert_eq!(h.handle("a"), TabAction::Bell);
}

#[test]
fn longest_common_prefix_cases() {
    assert_eq!(MyTabHandler::get_longest_common_prefix(&names(&[])), "");
    assert_eq!(MyTabHandler::get_longest_common_prefix(&names(&["abc"])), "abc");
    assert_eq!(MyTabHandler::get_longest_common_prefix(&names(&["flower", "flow", "flight"])), "fl");
    assert_eq!(MyTabHandler::get_longest_common_prefix(&names(&["dog", "car"])), "");
    assert_eq!(MyTabHandler::get_longest_common_prefix(&names(&["same", "same"])), "same");
    assert_eq!(MyTabHandler::get_longest_common_prefix(&names(&["héllo", "hélp"])), "hél");
}

#[test]
fn helper_single_match_replaces_line() {
    let mut h = MyEditorHelper::new(names(&["echo", "type"]));
    assert_eq!(
        h.complete("ec"),
        LineCompletion::Single { display: "echo".to_string(), replacement: "echo ".to_string() }
    );
}

#[test]
fn helper_ambiguous_then_listed() {
    let mut h = MyEditorHelper::new(names(&["xyz_a", "xyz_b"]));
    assert_eq!(h.complete("xyz_"), LineCompletion::Ambiguous);
    assert_eq!(h.complete("xyz_"), LineCompletion::Listed(names(&["xyz_a", "xyz_b"])));
    assert_eq!(h.complete("xyz_"), LineCompletion::Ambiguous);
}

#[test]
fn helper_no_match() {
    let mut h = MyEditorHelper::new(names(&["echo"]));
    assert_eq!(h.complete("q"), LineCompletion::NoMatch);
    h.reset();
    assert_eq!(h.complete("q"), LineCompletion::NoMatch);
}

#[test]
fn listing_separates_by_two_spaces() {
    assert_eq!(listing_line(&names(&["a", "b", "c"])), "a  b  c");
    assert_eq!(listing_line(&names(&[])), "");
}

#[test]
fn helper_inserts_common_prefix() {
    let mut h = MyEditorHelper::new(names(&["xyz_a", "xyz_b"]));
    assert_eq!(h.complete("x"), LineCompletion::CommonPrefix("xyz_".to_string()));
    // nothing pending: the next request on the extended line is a first one
    assert_eq!(h.complete("xyz_"), LineCompletion::Ambiguous);
}

#[test]
fn default_handlers_have_empty_tables() {
    let mut t = MyTabHandler::default();
    assert_eq!(t.handle("e"), TabAction::Bell);
    let mut h = MyEditorHelper::default();
    assert_eq!(h.complete("e"), LineCompletion::NoMatch);
}

#[test]
fn cloned_handler_keeps_pending_press() {
    let mut h = MyTabHandler::new(names(&["ab", "ac"]));
    assert_eq!(h.handle("a"), TabAction::Bell);
    let mut c = h.clone();
    assert_eq!(c.handle("a"), TabAction::ListAndBell(names(&["ab", "ac"])));
    assert_eq!(h.handle("a"), TabAction::ListAndBell(names(&["ab", "ac"])));
}
