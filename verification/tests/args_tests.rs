use token_meta::args::{
    build_config, interpret_args, split_tokens_from_file, ArgOutcome, ParsedArgs,
};

fn args(list: &[&str]) -> Vec<String> {
    list.iter().map(|s| String::from(*s)).collect()
}

fn options(list: &[&str]) -> ParsedArgs {
    match interpret_args(&args(list)) {
        ArgOutcome::Options(p) => p,
        ArgOutcome::Help => panic!("unexpected help outcome"),
        ArgOutcome::Unknown(a) => panic!("unexpected unknown argument {}", a),
    }
}

#[test]
fn tokens_collect_until_the_next_flag() {
    let p = options(&["-t", "aaa", "bbb", "-v"]);
    assert_eq!(p.tokens, vec![String::from("aaa"), String::from("bbb")]);
    assert!(p.verbosity);
    assert_eq!(p.num_threads, 4);
}

#[test]
fn every_option_is_collected() {
    let p = options(&[
        "--token", "x", "-p", "http://proxy:1", "-o", "out.txt", "-n", "8", "-tf", "toks.txt",
    ]);
    assert_eq!(p.tokens, vec![String::from("x")]);
    assert_eq!(p.proxy.as_deref(), Some("http://proxy:1"));
    assert_eq!(p.output.as_deref(), Some("out.txt"));
    assert_eq!(p.num_threads, 8);
    assert_eq!(p.token_file.as_deref(), Some("toks.txt"));
    assert!(!p.verbosity);
}

#[test]
fn bad_thread_count_falls_back_to_four() {
    assert_eq!(options(&["-n", "many"]).num_threads, 4);
    assert_eq!(options(&["-n", "99999999999999999999"]).num_threads, 4);
    assert_eq!(options(&["-n", "0"]).num_threads, 4);
}

#[test]
fn help_flag_wins() {
    assert!(matches!(interpret_args(&args(&["-h"])), ArgOutcome::Help));
    assert!(matches!(interpret_args(&args(&["-v", "--help"])), ArgOutcome::Help));
}

#[test]
fn unknown_argument_is_reported() {
    match interpret_args(&args(&["--frobnicate"])) {
        ArgOutcome::Unknown(a) => assert_eq!(a, "--frobnicate"),
        _ => panic!("expected the unknown argument to be reported"),
    }
}

#[test]
fn file_contributes_one_token_per_nonempty_line() {
    assert_eq!(
        split_tokens_from_file("aaa\nbbb\n\nccc\n"),
        vec![String::from("aaa"), String::from("bbb"), String::from("ccc")],
    );
    assert_eq!(
        split_tokens_from_file("one\r\ntwo"),
        vec![String::from("one"), String::from("two")],
    );
    assert_eq!(split_tokens_from_file(""), Vec::<String>::new());
    assert_eq!(split_tokens_from_file("\n\n"), Vec::<String>::new());
}

#[test]
fn config_keeps_flag_tokens_before_file_tokens() {
    let c = build_config(
        vec![String::from("f1")],
        vec![String::from("g1"), String::from("g2")],
        None,
        Some(String::from("http://p")),
        true,
        None,
        7,
    );
    assert_eq!(c.tokens, vec![String::from("f1"), String::from("g1"), String::from("g2")]);
    assert_eq!(c.proxy.as_deref(), Some("http://p"));
    assert!(c.verbosity);
    assert_eq!(c.num_threads, 7);
}

#[test]
fn config_drops_empty_tokens() {
    let c = build_config(
        vec![String::from(""), String::from("f1")],
        vec![String::from(""), String::from("g1")],
        None,
        None,
        false,
        None,
        4,
    );
    assert_eq!(c.tokens, vec![String::from("f1"), String::from("g1")]);
}

#[test]
fn prompted_tokens_are_trimmed() {
    assert_eq!(token_meta::strutil::trim_spaces("  tok9\r\n"), "tok9");
    assert_eq!(token_meta::strutil::trim_spaces("tok9"), "tok9");
    assert_eq!(token_meta::strutil::trim_spaces(" \t \n"), "");
    assert_eq!(token_meta::strutil::trim_spaces("a b"), "a b");
}

#[test]
fn config_falls_back_to_the_prompted_token() {
    let c = build_config(
        Vec::new(),
        Vec::new(),
        Some(String::from("prompted")),
        None,
        false,
        None,
        4,
    );
    assert_eq!(c.tokens, vec![String::from("prompted")]);
}
