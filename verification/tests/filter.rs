use hyper_mcp_remote::filter::{decide, patterns_of, FilterError, ToolFilter};

fn allow(p: &[&str]) -> Vec<String> {
    p.iter().map(|s| (*s).to_string()).collect()
}

#[test]
fn noop_filter_admits_everything() {
    let f = ToolFilter::from_cli(&[], &[]).expect("build");
    assert!(f.is_noop());
    assert!(f.permits("anything"));
    assert!(f.permits(""));
    assert!(f.permits("github.repos.create"));
}

#[test]
fn allow_all_constructor_matches_noop() {
    let f = ToolFilter::allow_all();
    assert!(f.is_noop());
    assert!(f.permits("x"));
}

#[test]
fn allow_list_is_exclusive() {
    let f = ToolFilter::from_cli(&allow(&["read_*", "search"]), &[]).expect("build");
    assert!(!f.is_noop());
    assert!(f.permits("read_file"));
    assert!(f.permits("read_anything"));
    assert!(f.permits("search"));
    assert!(!f.permits("write_file"));
    assert!(!f.permits("searchx"));
}

#[test]
fn deny_list_subtracts_from_allow_all() {
    let f = ToolFilter::from_cli(&[], &allow(&["dangerous_*"])).expect("build");
    assert!(!f.is_noop());
    assert!(f.permits("read_file"));
    assert!(!f.permits("dangerous_thing"));
}

#[test]
fn deny_beats_allow() {
    let f = ToolFilter::from_cli(&allow(&["read_*"]), &allow(&["read_secrets"])).expect("build");
    assert!(f.permits("read_file"));
    assert!(!f.permits("read_secrets"));
    assert!(!f.permits("write_file"));
}

#[test]
fn comma_split_is_equivalent_to_repeated_flags() {
    let comma = ToolFilter::from_cli(&allow(&["a,b,c"]), &[]).expect("build");
    let repeated = ToolFilter::from_cli(&allow(&["a", "b", "c"]), &[]).expect("build");
    for name in ["a", "b", "c", "d"] {
        assert_eq!(
            comma.permits(name),
            repeated.permits(name),
            "comma vs repeated must agree on {name}"
        );
    }
}

#[test]
fn whitespace_and_empty_entries_are_ignored() {
    let f = ToolFilter::from_cli(&allow(&[" read_* , ", "", "  ,write_*"]), &[]).expect("build");
    assert!(f.permits("read_file"));
    assert!(f.permits("write_file"));
    assert!(!f.permits("delete_file"));
}

#[test]
fn all_empty_input_is_noop_not_lockout() {
    let f = ToolFilter::from_cli(&allow(&["", " , "]), &allow(&[""])).expect("build");
    assert!(f.is_noop(), "all-empty input must degrade to no-op");
    assert!(f.permits("anything"));
}

#[test]
fn invalid_glob_is_rejected_with_flag_name() {
    let err =
        ToolFilter::from_cli(&allow(&["read_["]), &[]).expect_err("malformed glob must error");
    let msg = err.full_message();
    assert!(
        msg.contains("--allow-tool"),
        "error must mention the offending flag; got: {msg}"
    );
}

#[test]
fn deny_only_with_no_match_is_no_op_in_practice() {
    let f = ToolFilter::from_cli(&[], &allow(&["nope_*"])).expect("build");
    assert!(!f.is_noop());
    assert!(f.permits("read_file"));
    assert!(!f.permits("nope_this"));
}

#[test]
fn glob_question_mark_and_classes_work() {
    let f = ToolFilter::from_cli(&allow(&["tool_?", "x[0-9]"]), &[]).expect("build");
    assert!(f.permits("tool_a"));
    assert!(!f.permits("tool_ab"));
    assert!(f.permits("x3"));
    assert!(!f.permits("xa"));
}

#[test]
fn patterns_are_split_trimmed_and_never_empty() {
    assert_eq!(
        patterns_of(&allow(&[" read_* , ", "", "  ,write_*"])),
        allow(&["read_*", "write_*"])
    );
}

#[test]
fn invalid_pattern_is_quoted_in_the_message() {
    let err = ToolFilter::from_cli(&[], &allow(&["ok", "a\"["])).expect_err("malformed glob");
    assert_eq!(err.message(), "--deny-tool: invalid glob pattern \"a\\\"[\"");
    match err {
        FilterError::InvalidPattern { flag, pattern, cause } => {
            assert_eq!(flag, "--deny-tool");
            assert_eq!(pattern, "a\"[");
            assert_eq!(cause, globset::Glob::new("a\"[").expect_err("glob").to_string());
        }
        FilterError::Uncompilable { .. } => panic!("wrong error"),
    }
}

#[test]
fn uncompilable_set_message_names_the_flag() {
    let err = FilterError::Uncompilable {
        flag: "--allow-tool".to_string(),
        cause: "too big".to_string(),
    };
    assert_eq!(err.message(), "--allow-tool: failed to compile glob set");
    assert_eq!(err.full_message(), "--allow-tool: failed to compile glob set: too big");
}

#[test]
fn decision_table() {
    assert!(decide(None, false));
    assert!(!decide(None, true));
    assert!(decide(Some(true), false));
    assert!(!decide(Some(true), true));
    assert!(!decide(Some(false), false));
    assert!(!decide(Some(false), true));
}

#[test]
fn clone_and_default_keep_the_patterns() {
    let f = ToolFilter::from_cli(&allow(&["read_*"]), &allow(&["read_x"])).expect("build");
    let g = f.clone();
    assert!(g.permits("read_file"));
    assert!(!g.permits("read_x"));
    assert!(!g.is_noop());
    assert!(ToolFilter::default().is_noop());
}
