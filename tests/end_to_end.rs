use rushell::exec::{
    cd_fn, cd_missing, echo_fn, first_executable, path_search, plan_block, pwd_fn, to_buffer,
    type_fn, type_found, CdStep, Channel, CommandKind, TypeStep,
};
use rushell::parse::{parse_input, Redirect};

#[test]
fn echo_hello_world() {
    let blocks = parse_input("echo hello world");
    assert_eq!(blocks.len(), 1);
    let plan = plan_block(&blocks[0]).ok().unwrap();
    assert_eq!(plan.command, CommandKind::Echo);
    assert_eq!(plan.effective, Redirect::Terminal);
    assert_eq!(echo_fn(&blocks[0].args), "hello world\n");
}

#[test]
fn echo_quoted_arguments() {
    let blocks = parse_input(r#"echo 'a  b' "c\"d""#);
    assert_eq!(blocks[0].args, vec!["a  b", "c\"d"]);
    assert_eq!(echo_fn(&blocks[0].args), "a  b c\"d\n");
}

#[test]
fn pwd_into_file() {
    let blocks = parse_input("pwd > /tmp/out");
    let plan = plan_block(&blocks[0]).ok().unwrap();
    assert_eq!(plan.command, CommandKind::Pwd);
    assert_eq!(plan.effective, Redirect::Stdout);
    assert_eq!(plan.file, Some(("/tmp/out".to_string(), false)));
    assert!(to_buffer(plan.effective, Channel::Output));
    assert_eq!(pwd_fn("/work"), "/work\n");
}

#[test]
fn echo_piped_to_wc() {
    let blocks = parse_input("echo a | wc -c");
    assert_eq!(blocks.len(), 2);
    let first = plan_block(&blocks[0]).ok().unwrap();
    let second = plan_block(&blocks[1]).ok().unwrap();
    assert_eq!(first.effective, Redirect::Pipe);
    assert!(to_buffer(first.effective, Channel::Output));
    assert_eq!(echo_fn(&blocks[0].args).len(), 2);
    assert_eq!(second.command, CommandKind::External);
    assert_eq!(second.effective, Redirect::Terminal);
    assert_eq!(blocks[1].args, vec!["-c"]);
}

#[test]
fn cd_error_into_file() {
    let blocks = parse_input("cd /does/not/exist 2> /tmp/err");
    let plan = plan_block(&blocks[0]).ok().unwrap();
    assert_eq!(plan.effective, Redirect::Stderr);
    assert_eq!(plan.file, Some(("/tmp/err".to_string(), false)));
    match cd_fn(&blocks[0].args) {
        CdStep::Change(dir) => assert_eq!(
            cd_missing(&dir),
            "cd: /does/not/exist: No such file or directory\n"
        ),
        _ => panic!("expected a directory"),
    }
    assert!(to_buffer(plan.effective, Channel::Error));
}

#[test]
fn type_builtin_and_path() {
    let blocks = parse_input("type echo");
    match type_fn(&blocks[0].args) {
        TypeStep::Report(t) => assert_eq!(t, "echo is a shell builtin\n"),
        _ => panic!("expected a builtin"),
    }
    let blocks = parse_input("type ls");
    let name = match type_fn(&blocks[0].args) {
        TypeStep::Search(n) => n,
        _ => panic!("expected a search"),
    };
    let places = path_search(Some("/usr/local/bin:/bin"), &name);
    let found = first_executable(&vec![None, Some(0o100755)]).unwrap();
    assert_eq!(type_found(&name, &places[found]), "ls is /bin/ls\n");
}
