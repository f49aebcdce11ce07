use rushell::exec::{history_fn, HistoryStep};
use rushell::history::History;

fn filled(entries: &[&str]) -> History {
    let mut h = History::new();
    for e in entries {
        h.add_entry(e.to_string());
    }
    h
}

fn args(a: &[&str]) -> Vec<String> {
    a.iter().map(|s| s.to_string()).collect()
}

#[test]
fn up_walks_back_newest_first() {
    let mut h = filled(&["one", "two", "three"]);
    assert_eq!(h.len(), 3);
    assert_eq!(h.move_up().cloned(), Some("three".to_string()));
    assert_eq!(h.move_up().cloned(), Some("two".to_string()));
    assert_eq!(h.move_up().cloned(), Some("one".to_string()));
    assert_eq!(h.move_up().cloned(), None);
}

#[test]
fn down_clamps_at_fresh_line() {
    let mut h = filled(&["one", "two"]);
    assert_eq!(h.move_down().cloned(), None);
    assert_eq!(h.move_down().cloned(), None);
    assert_eq!(h.move_up().cloned(), Some("two".to_string()));
}

#[test]
fn down_after_up_returns_newer_entries() {
    let mut h = filled(&["one", "two", "three"]);
    h.move_up();
    h.move_up();
    h.move_up();
    assert_eq!(h.move_down().cloned(), Some("two".to_string()));
    assert_eq!(h.move_down().cloned(), Some("three".to_string()));
    assert_eq!(h.move_down().cloned(), None);
    assert_eq!(h.move_up().cloned(), Some("three".to_string()));
}

#[test]
fn empty_history_moves_return_nothing() {
    let mut h = History::new();
    assert_eq!(h.move_up().cloned(), None);
    assert_eq!(h.move_down().cloned(), None);
}

#[test]
fn adding_resets_cursor_to_fresh_line() {
    let mut h = filled(&["one", "two"]);
    h.move_up();
    h.move_up();
    h.add_entry("three".to_string());
    assert_eq!(h.move_up().cloned(), Some("three".to_string()));
}

#[test]
fn from_text_reads_lines() {
    let mut h = History::from_text("ls\r\necho hi\n\npwd\n");
    assert_eq!(h.len(), 4);
    assert_eq!(h.all_text(), "ls\necho hi\n\npwd\n");
    assert_eq!(h.pending_text(), "");
    assert_eq!(h.move_up().cloned(), Some("pwd".to_string()));
}

#[test]
fn from_empty_text_is_empty() {
    let h = History::from_text("");
    assert_eq!(h.len(), 0);
}

#[test]
fn pending_text_holds_unsaved_entries() {
    let mut h = History::from_text("a\nb\n");
    h.add_entry("c".to_string());
    h.add_entry("d".to_string());
    assert_eq!(h.pending_text(), "c\nd\n");
    h.mark_appended();
    assert_eq!(h.pending_text(), "");
    assert_eq!(h.all_text(), "a\nb\nc\nd\n");
}

#[test]
fn append_lines_adds_each_line() {
    let mut h = filled(&["x"]);
    h.append_lines("y\nz");
    assert_eq!(h.all_text(), "x\ny\nz\n");
    assert_eq!(h.pending_text(), "x\ny\nz\n");
}

#[test]
fn listing_formats() {
    let h = filled(&["ls", "pwd", "echo hi"]);
    assert_eq!(h.listing(), "  1  ls\n  2  pwd\n  3  echo hi\n");
    assert_eq!(h.listing_last(2), " 2  pwd\n 3  echo hi\n");
    assert_eq!(h.listing_last(0), "");
}

#[test]
fn listing_numbers_past_nine() {
    let names: Vec<String> = (1..=11).map(|i| format!("c{i}")).collect();
    let refs: Vec<&str> = names.iter().map(|s| s.as_str()).collect();
    let h = filled(&refs);
    assert_eq!(h.listing_last(1), " 11  c11\n");
}

#[test]
fn history_without_args_lists_all() {
    let h = filled(&["ls", "pwd"]);
    match history_fn(&h, &args(&[])) {
        HistoryStep::Show(t) => assert_eq!(t, "  1  ls\n  2  pwd\n"),
        _ => panic!("expected a listing"),
    }
}

#[test]
fn history_with_number_lists_last() {
    let h = filled(&["ls", "pwd", "cd /"]);
    match history_fn(&h, &args(&["2"])) {
        HistoryStep::Show(t) => assert_eq!(t, " 2  pwd\n 3  cd /\n"),
        _ => panic!("expected a listing"),
    }
}

#[test]
fn history_number_too_large() {
    let h = filled(&["ls", "pwd"]);
    match history_fn(&h, &args(&["5"])) {
        HistoryStep::Report(t) => {
            assert_eq!(t, "Number provided is larger than current history: 2\n")
        }
        _ => panic!("expected a complaint"),
    }
}

#[test]
fn history_not_a_number() {
    let h = filled(&["ls"]);
    for bad in ["abc", "-3", "", "99999999999999999999999"] {
        match history_fn(&h, &args(&[bad])) {
            HistoryStep::Report(t) => assert_eq!(t, "History needs to be provided a number\n"),
            _ => panic!("expected a complaint for {bad:?}"),
        }
    }
}

#[test]
fn history_file_flags() {
    let h = filled(&["ls"]);
    assert!(matches!(history_fn(&h, &args(&["-r", "f"])), HistoryStep::Read(f) if f == "f"));
    assert!(matches!(history_fn(&h, &args(&["-w", "g"])), HistoryStep::Write(f) if f == "g"));
    assert!(matches!(history_fn(&h, &args(&["-a", "h"])), HistoryStep::Append(f) if f == "h"));
    for flag in ["-r", "-w", "-a"] {
        match history_fn(&h, &args(&[flag])) {
            HistoryStep::Report(t) => assert_eq!(t, "Need to be sent a file\n"),
            _ => panic!("expected a complaint for {flag}"),
        }
    }
}
