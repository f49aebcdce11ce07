use rushell::parse::{parse_input, InputBlock, Redirect, RedirectType};

fn words(b: &InputBlock) -> Vec<String> {
    let mut v = vec![b.command.clone()];
    v.extend(b.args.iter().cloned());
    v
}

#[test]
fn plain_words_round_trip() {
    let line = "cat file1 file2 -n";
    let blocks = parse_input(line);
    assert_eq!(blocks.len(), 1);
    assert_eq!(blocks[0].command, "cat");
    assert_eq!(blocks[0].args, vec!["file1", "file2", "-n"]);
    assert_eq!(words(&blocks[0]).join(" "), line);
    assert!(!blocks[0].piped);
    assert_eq!(blocks[0].redirect_options.redirect, Redirect::Terminal);
}

#[test]
fn extra_spaces_collapse() {
    let blocks = parse_input("echo   a    b");
    assert_eq!(blocks[0].args, vec!["a", "b"]);
}

#[test]
fn single_quotes_keep_everything() {
    let blocks = parse_input(r#"echo 'a\"b  c'"#);
    assert_eq!(blocks[0].args, vec![r#"a\"b  c"#]);
}

#[test]
fn double_quotes_drop_backslash_before_escapable() {
    let blocks = parse_input(r#"echo "x\$y\`z\\w\"q""#);
    assert_eq!(blocks[0].args, vec![r#"x$y`z\w"q"#]);
}

#[test]
fn double_quotes_keep_other_backslashes() {
    let blocks = parse_input(r#"echo "a\b" "it's""#);
    assert_eq!(blocks[0].args, vec![r"a\b", "it's"]);
}

#[test]
fn quotes_join_adjacent_text() {
    let blocks = parse_input(r#"echo ab'c d'"e f"g"#);
    assert_eq!(blocks[0].args, vec!["abc de fg"]);
}

#[test]
fn backslash_outside_quotes_takes_next_char() {
    let blocks = parse_input(r"echo a\ b \\ \'x\'");
    assert_eq!(blocks[0].args, vec!["a b", r"\", "'x'"]);
}

#[test]
fn unterminated_quote_runs_to_end() {
    let blocks = parse_input("echo 'a b");
    assert_eq!(blocks[0].args, vec!["a b"]);
}

#[test]
fn empty_input_gives_no_blocks() {
    assert!(parse_input("").is_empty());
    assert!(parse_input("''").is_empty());
}

#[test]
fn empty_quotes_give_no_word() {
    let blocks = parse_input("echo '' x");
    assert_eq!(blocks[0].args, vec!["x"]);
}

#[test]
fn pipeline_flags_mark_all_but_last() {
    let blocks = parse_input("ls -l | grep a | wc -l");
    assert_eq!(blocks.len(), 3);
    let flags: Vec<bool> = blocks.iter().map(|b| b.piped).collect();
    assert_eq!(flags, vec![true, true, false]);
    assert_eq!(blocks[1].command, "grep");
    assert_eq!(blocks[2].args, vec!["-l"]);
}

#[test]
fn trailing_pipe_leaves_empty_last_block() {
    let blocks = parse_input("echo a |");
    assert_eq!(blocks.len(), 2);
    assert!(blocks[0].piped);
    assert!(!blocks[1].piped);
    assert_eq!(blocks[1].command, "");
}

#[test]
fn redirect_operators() {
    let cases = [
        (">", Redirect::Stdout, RedirectType::Create),
        ("1>", Redirect::Stdout, RedirectType::Create),
        (">>", Redirect::Stdout, RedirectType::Append),
        ("1>>", Redirect::Stdout, RedirectType::Append),
        ("2>", Redirect::Stderr, RedirectType::Create),
        ("2>>", Redirect::Stderr, RedirectType::Append),
    ];
    for (op, r, t) in cases {
        let blocks = parse_input(&format!("ls x {op} out.txt"));
        assert_eq!(blocks.len(), 1);
        let o = &blocks[0].redirect_options;
        assert_eq!(o.redirect, r, "{op}");
        assert_eq!(o.redirect_type, t, "{op}");
        assert_eq!(o.redirect_location, "out.txt");
        assert_eq!(blocks[0].args, vec!["x"]);
    }
}

#[test]
fn word_after_target_is_an_argument() {
    let blocks = parse_input("echo a > f b");
    assert_eq!(blocks[0].redirect_options.redirect_location, "f");
    assert_eq!(blocks[0].args, vec!["a", "b"]);
}

#[test]
fn redirect_without_target_is_latched() {
    let blocks = parse_input("echo a >");
    let o = &blocks[0].redirect_options;
    assert_eq!(o.redirect, Redirect::Stdout);
    assert_eq!(o.redirect_location, "");
}

#[test]
fn operators_are_matched_by_their_text() {
    let blocks = parse_input("echo '|' wc");
    assert_eq!(blocks.len(), 2);
    assert!(blocks[0].piped);
    assert_eq!(blocks[1].command, "wc");
}

#[test]
fn operator_glued_to_a_word_is_an_argument() {
    let blocks = parse_input("echo a>b 2>x");
    assert_eq!(blocks.len(), 1);
    assert_eq!(blocks[0].args, vec!["a>b", "2>x"]);
    assert_eq!(blocks[0].redirect_options.redirect, Redirect::Terminal);
}

#[test]
fn first_word_is_command_even_if_operator() {
    let blocks = parse_input("| wc");
    assert_eq!(blocks.len(), 1);
    assert_eq!(blocks[0].command, "|");
    assert_eq!(blocks[0].args, vec!["wc"]);
}
