use rushell::complete::{
    autocomplete, builtins, completion_candidates, find_longest_common_prefix, is_executable_mode,
    Completion, PathEntry,
};

fn entry(name: &str, mode: u32) -> PathEntry {
    PathEntry { name: name.to_string(), mode }
}

fn strings(v: &[&str]) -> Vec<String> {
    v.iter().map(|s| s.to_string()).collect()
}

#[test]
fn builtin_list() {
    assert_eq!(builtins(), strings(&["echo", "exit", "type", "cd", "pwd", "history"]));
}

#[test]
fn executable_bits() {
    assert!(is_executable_mode(0o100755));
    assert!(is_executable_mode(0o001));
    assert!(is_executable_mode(0o010));
    assert!(!is_executable_mode(0o644));
    assert!(!is_executable_mode(0));
}

#[test]
fn candidates_builtins_then_path_without_repeats() {
    let entries = vec![
        entry("echo", 0o755),
        entry("ed", 0o755),
        entry("env", 0o644),
        entry("egrep", 0o711),
        entry("ls", 0o755),
        entry("ed", 0o755),
    ];
    let c = completion_candidates("e", &entries);
    assert_eq!(c, strings(&["echo", "exit", "ed", "egrep"]));
}

#[test]
fn candidates_are_stable() {
    let entries = vec![entry("zsh", 0o755), entry("zcat", 0o755)];
    let a = completion_candidates("z", &entries);
    let b = completion_candidates("z", &entries);
    assert_eq!(a, b);
}

#[test]
fn no_candidate_leaves_input() {
    let mut input = "qq".to_string();
    let r = autocomplete(&mut input, &vec![entry("ls", 0o755)]);
    assert!(matches!(r, Completion::NoMatch));
    assert_eq!(input, "qq");
}

#[test]
fn unique_candidate_is_filled_in() {
    let mut input = "ec".to_string();
    match autocomplete(&mut input, &vec![]) {
        Completion::Unique(t) => assert_eq!(t, "ho "),
        _ => panic!("expected one match"),
    }
    assert_eq!(input, "echo ");
}

#[test]
fn unique_path_candidate_is_filled_in() {
    let mut input = "gre".to_string();
    match autocomplete(&mut input, &vec![entry("grep", 0o755), entry("grab", 0o755)]) {
        Completion::Unique(t) => assert_eq!(t, "p "),
        _ => panic!("expected one match"),
    }
    assert_eq!(input, "grep ");
}

#[test]
fn echo_and_exit_share_nothing_after_e() {
    let mut input = "e".to_string();
    match autocomplete(&mut input, &vec![]) {
        Completion::Ambiguous(ext, list) => {
            assert_eq!(ext, "");
            assert_eq!(list, strings(&["echo", "exit"]));
        }
        _ => panic!("expected several matches"),
    }
    assert_eq!(input, "e");
}

#[test]
fn shared_characters_extend_input() {
    let mut input = "e".to_string();
    let entries = vec![entry("exitcode", 0o755), entry("echo", 0o755)];
    match autocomplete(&mut input, &entries) {
        Completion::Ambiguous(ext, list) => {
            assert_eq!(ext, "");
            assert_eq!(list, strings(&["echo", "exit", "exitcode"]));
        }
        _ => panic!("expected several matches"),
    }
    let mut input = "ex".to_string();
    match autocomplete(&mut input, &entries) {
        Completion::Ambiguous(ext, list) => {
            assert_eq!(ext, "it");
            assert_eq!(list, strings(&["exit", "exitcode"]));
        }
        _ => panic!("expected several matches"),
    }
    assert_eq!(input, "exit");
}

#[test]
fn listing_is_sorted() {
    let mut input = "x".to_string();
    let entries = vec![entry("xz", 0o755), entry("xargs", 0o755), entry("xdg-open", 0o755)];
    match autocomplete(&mut input, &entries) {
        Completion::Ambiguous(ext, list) => {
            assert_eq!(ext, "");
            assert_eq!(list, strings(&["xargs", "xdg-open", "xz"]));
        }
        _ => panic!("expected several matches"),
    }
}

#[test]
fn longest_common_prefix_from_position() {
    let m = strings(&["exit", "exitcode"]);
    assert_eq!(find_longest_common_prefix(&m, 1), "xit");
    let m = strings(&["echo", "exit"]);
    assert_eq!(find_longest_common_prefix(&m, 1), "");
    assert_eq!(find_longest_common_prefix(&m, 0), "e");
    let m = strings(&["abc"]);
    assert_eq!(find_longest_common_prefix(&m, 1), "bc");
    assert_eq!(find_longest_common_prefix(&m, 7), "");
}

#[test]
fn completing_twice_gives_the_same() {
    let entries = vec![entry("exitcode", 0o755), entry("exa", 0o755), entry("exit", 0o700)];
    let outcome = |input: &str| {
        let mut buf = input.to_string();
        let r = match autocomplete(&mut buf, &entries) {
            Completion::NoMatch => (0, String::new(), vec![]),
            Completion::Unique(t) => (1, t, vec![]),
            Completion::Ambiguous(t, l) => (2, t, l),
        };
        (buf, r)
    };
    for input in ["e", "ex", "exi", "q"] {
        assert_eq!(outcome(input), outcome(input), "{input:?}");
    }
    assert_eq!(outcome("ex").1 .2, strings(&["exa", "exit", "exitcode"]));
}
