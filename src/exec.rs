use vstd::prelude::*;

use crate::complete::{builtin_names, executable_mode};
use crate::history::{numbered_lines, History};
use crate::parse::{strings_view, BlockModel, InputBlock, Redirect, RedirectType};
use crate::text::{
    decimal, join_strings, join_with, number_value, parse_usize, push_char, push_decimal, push_text,
    same_text, split_on, split_text,
};

verus! {

/// Which command a block runs.
#[derive(Clone, Copy, PartialEq, Eq, Debug, Structural)]
pub enum CommandKind {
    Empty,
    Exit,
    Echo,
    Pwd,
    Cd,
    Type,
    History,
    External,
}

pub open spec fn kind_of(name: Seq<char>) -> CommandKind {
    if name.len() == 0 {
        CommandKind::Empty
    } else if name == "exit"@ {
        CommandKind::Exit
    } else if name == "echo"@ {
        CommandKind::Echo
    } else if name == "pwd"@ {
        CommandKind::Pwd
    } else if name == "cd"@ {
        CommandKind::Cd
    } else if name == "type"@ {
        CommandKind::Type
    } else if name == "history"@ {
        CommandKind::History
    } else {
        CommandKind::External
    }
}

pub fn command_kind(name: &str) -> (r: CommandKind)
    ensures
        r == kind_of(name@),
{
    if name.is_empty() {
        CommandKind::Empty
    } else if same_text(name, "exit") {
        CommandKind::Exit
    } else if same_text(name, "echo") {
        CommandKind::Echo
    } else if same_text(name, "pwd") {
        CommandKind::Pwd
    } else if same_text(name, "cd") {
        CommandKind::Cd
    } else if same_text(name, "type") {
        CommandKind::Type
    } else if same_text(name, "history") {
        CommandKind::History
    } else {
        CommandKind::External
    }
}

/// Where a block's output goes: into the next block when it is piped,
/// otherwise where its latched redirection says.
pub open spec fn effective_redirect(b: BlockModel) -> Redirect {
    if b.piped {
        Redirect::Pipe
    } else {
        b.redirect
    }
}

/// Why a line is abandoned before a block runs.
#[derive(Clone, Copy, PartialEq, Eq, Debug, Structural)]
pub enum PlanError {
    MissingTarget,
    MissingType,
}

impl PlanError {
    /// The text printed when the line is abandoned.
    pub fn message(&self) -> (r: String)
        ensures
            r@ == (match self {
                PlanError::MissingTarget => "No redirect target found"@,
                PlanError::MissingType => "No redirect type found"@,
            }),
    {
        match self {
            PlanError::MissingTarget => String::from_str("No redirect target found"),
            PlanError::MissingType => String::from_str("No redirect type found"),
        }
    }
}

/// How one block is to be run.
pub struct BlockPlan {
    pub effective: Redirect,
    pub command: CommandKind,
    /// The file that receives the captured output, and whether it is
    /// appended to rather than truncated.
    pub file: Option<(String, bool)>,
}

pub open spec fn latched(b: BlockModel) -> bool {
    b.redirect == Redirect::Stdout || b.redirect == Redirect::Stderr
}

/// The plan for a block, or why the line stops there.
pub open spec fn plan_meets(b: BlockModel, r: Result<BlockPlan, PlanError>) -> bool {
    if latched(b) && b.target.len() == 0 {
        r == Err::<BlockPlan, PlanError>(PlanError::MissingTarget)
    } else if latched(b) && b.redirect_type == RedirectType::Unset {
        r == Err::<BlockPlan, PlanError>(PlanError::MissingType)
    } else {
        &&& r is Ok
        &&& r->Ok_0.effective == effective_redirect(b)
        &&& r->Ok_0.command == kind_of(b.command)
        &&& if effective_redirect(b) == Redirect::Stdout || effective_redirect(b)
            == Redirect::Stderr {
            &&& r->Ok_0.file is Some
            &&& r->Ok_0.file->Some_0.0@ == b.target
            &&& r->Ok_0.file->Some_0.1 == (b.redirect_type == RedirectType::Append)
        } else {
            r->Ok_0.file is None
        }
    }
}

/// Decides how a block runs: where its output goes, which command it is, and
/// which file receives the output; a latched redirection without a target
/// abandons the line.
pub fn plan_block(block: &InputBlock) -> (r: Result<BlockPlan, PlanError>)
    ensures
        plan_meets(block@, r),
{
    let opts = &block.redirect_options;
    let is_latched = opts.redirect == Redirect::Stdout || opts.redirect == Redirect::Stderr;
    if is_latched && opts.redirect_location.as_str().is_empty() {
        return Err(PlanError::MissingTarget);
    }
    if is_latched && opts.redirect_type == RedirectType::Unset {
        return Err(PlanError::MissingType);
    }
    let effective = if block.piped {
        Redirect::Pipe
    } else {
        opts.redirect
    };
    let file = if effective == Redirect::Stdout || effective == Redirect::Stderr {
        Some((opts.redirect_location.clone(), opts.redirect_type == RedirectType::Append))
    } else {
        None
    };
    Ok(BlockPlan { effective, command: command_kind(block.command.as_str()), file })
}

/// The two output streams of a command.
#[derive(Clone, Copy, PartialEq, Eq, Debug, Structural)]
pub enum Channel {
    Output,
    Error,
}

/// Whether text a command writes on `channel` is captured in the block's
/// buffer rather than shown on the terminal.
pub open spec fn captured(effective: Redirect, channel: Channel) -> bool {
    match channel {
        Channel::Output => effective == Redirect::Stdout || effective == Redirect::Pipe,
        Channel::Error => effective == Redirect::Stderr,
    }
}

pub fn to_buffer(effective: Redirect, channel: Channel) -> (r: bool)
    ensures
        r == captured(effective, channel),
{
    match channel {
        Channel::Output => effective == Redirect::Stdout || effective == Redirect::Pipe,
        Channel::Error => effective == Redirect::Stderr,
    }
}

/// How an external command's streams are set up, and what follows its start.
#[derive(Clone, Copy, PartialEq, Eq, Debug, Structural)]
pub enum AfterSpawn {
    /// Wait for it to finish.
    Wait,
    /// Keep its output as the next block's input, without waiting.
    HandOn,
    /// Read its standard output to the end, into the block's buffer.
    DrainStdout,
    /// Read its standard error to the end, into the block's buffer.
    DrainStderr,
}

pub open spec fn after_spawn_of(effective: Redirect) -> AfterSpawn {
    match effective {
        Redirect::Pipe => AfterSpawn::HandOn,
        Redirect::Stdout => AfterSpawn::DrainStdout,
        Redirect::Stderr => AfterSpawn::DrainStderr,
        Redirect::Terminal => AfterSpawn::Wait,
    }
}

pub fn after_spawn(effective: Redirect) -> (r: AfterSpawn)
    ensures
        r == after_spawn_of(effective),
{
    match effective {
        Redirect::Pipe => AfterSpawn::HandOn,
        Redirect::Stdout => AfterSpawn::DrainStdout,
        Redirect::Stderr => AfterSpawn::DrainStderr,
        Redirect::Terminal => AfterSpawn::Wait,
    }
}

/// What a block hands to the next one.
#[derive(Clone, Copy, PartialEq, Eq, Debug, Structural)]
pub enum Handoff {
    /// Nothing: the block is not piped.
    Nothing,
    /// The running child's standard output.
    ChildOutput,
    /// The bytes the block wrote into its buffer.
    Buffer,
}

/// A piped block hands on its child's output when it started an external
/// program, and otherwise the bytes it wrote; a block that is not piped
/// hands on nothing.
pub open spec fn handoff_of(effective: Redirect, spawned: bool) -> Handoff {
    if effective != Redirect::Pipe {
        Handoff::Nothing
    } else if spawned {
        Handoff::ChildOutput
    } else {
        Handoff::Buffer
    }
}

pub fn handoff(effective: Redirect, spawned: bool) -> (r: Handoff)
    ensures
        r == handoff_of(effective, spawned),
{
    if effective != Redirect::Pipe {
        Handoff::Nothing
    } else if spawned {
        Handoff::ChildOutput
    } else {
        Handoff::Buffer
    }
}

/// What `echo` writes: its arguments joined by single spaces, and a newline.
pub fn echo_fn(args: &Vec<String>) -> (r: String)
    ensures
        r@ == join_with(strings_view(args@), seq![' ']) + seq!['\n'],
{
    let mut r = join_strings(args, " ");
    proof {
        reveal_strlit(" ");
    }
    assert(" "@ =~= seq![' ']);
    push_char(&mut r, '\n');
    r
}

/// What `pwd` writes: the working directory and a newline.
pub fn pwd_fn(cwd: &str) -> (r: String)
    ensures
        r@ == cwd@ + seq!['\n'],
{
    let mut r = String::new();
    push_text(&mut r, cwd);
    push_char(&mut r, '\n');
    r
}

/// What `cd` is to do.
pub enum CdStep {
    /// Write this text on the error channel.
    Report(String),
    /// Go to the home directory.
    Home,
    /// Go to this directory, if it exists.
    Change(String),
}

/// Decides what `cd` does with its arguments: with none it complains, `~`
/// means the home directory, anything else is a directory to enter.
pub fn cd_fn(args: &Vec<String>) -> (r: CdStep)
    ensures
        args@.len() == 0 ==> (r matches CdStep::Report(t) && t@
            == "No file or directory passed into cd\n"@),
        args@.len() > 0 && args@[0]@ == "~"@ ==> r is Home,
        args@.len() > 0 && args@[0]@ != "~"@ ==> (r matches CdStep::Change(d) && d@
            == args@[0]@),
{
    if args.len() == 0 {
        return CdStep::Report(String::from_str("No file or directory passed into cd\n"));
    }
    if same_text(args[0].as_str(), "~") {
        CdStep::Home
    } else {
        CdStep::Change(args[0].clone())
    }
}

/// What `cd` writes on the error channel when the directory does not exist.
pub fn cd_missing(dir: &str) -> (r: String)
    ensures
        r@ == "cd: "@ + dir@ + ": No such file or directory\n"@,
{
    let mut r = String::from_str("cd: ");
    push_text(&mut r, dir);
    push_text(&mut r, ": No such file or directory\n");
    r
}

/// What `type` is to do.
pub enum TypeStep {
    /// No name was given: nothing to write.
    Silent,
    /// Write this text on the output channel.
    Report(String),
    /// Look this name up on the search path.
    Search(String),
}

/// Decides what `type` does: a builtin name is reported as such, any other
/// name is looked up on the search path.
pub fn type_fn(args: &Vec<String>) -> (r: TypeStep)
    ensures
        args@.len() == 0 ==> r is Silent,
        args@.len() > 0 && builtin_names().contains(args@[0]@) ==> (r matches TypeStep::Report(t)
            && t@ == args@[0]@ + " is a shell builtin\n"@),
        args@.len() > 0 && !builtin_names().contains(args@[0]@) ==> (r matches TypeStep::Search(n)
            && n@ == args@[0]@),
{
    if args.len() == 0 {
        return TypeStep::Silent;
    }
    let name = args[0].as_str();
    let known = same_text(name, "echo") || same_text(name, "exit") || same_text(name, "type")
        || same_text(name, "cd") || same_text(name, "pwd") || same_text(name, "history");
    assert(known == builtin_names().contains(name@)) by {
        if builtin_names().contains(name@) {
            let k = choose|k: int| 0 <= k < builtin_names().len() && builtin_names()[k] == name@;
            assert(k == 0 || k == 1 || k == 2 || k == 3 || k == 4 || k == 5);
        }
        if name@ == "echo"@ {
            assert(builtin_names()[0] == name@);
        } else if name@ == "exit"@ {
            assert(builtin_names()[1] == name@);
        } else if name@ == "type"@ {
            assert(builtin_names()[2] == name@);
        } else if name@ == "cd"@ {
            assert(builtin_names()[3] == name@);
        } else if name@ == "pwd"@ {
            assert(builtin_names()[4] == name@);
        } else if name@ == "history"@ {
            assert(builtin_names()[5] == name@);
        }
    }
    if known {
        let mut t = args[0].clone();
        push_text(&mut t, " is a shell builtin\n");
        TypeStep::Report(t)
    } else {
        TypeStep::Search(args[0].clone())
    }
}

/// What `type` writes on the output channel for a name found on the path.
pub fn type_found(name: &str, path: &str) -> (r: String)
    ensures
        r@ == name@ + " is "@ + path@ + "\n"@,
{
    let mut r = String::new();
    push_text(&mut r, name);
    push_text(&mut r, " is ");
    push_text(&mut r, path);
    push_text(&mut r, "\n");
    r
}

/// What `type` writes on the error channel for a name not found.
pub fn type_not_found(name: &str) -> (r: String)
    ensures
        r@ == name@ + ": not found\n"@,
{
    let mut r = String::new();
    push_text(&mut r, name);
    push_text(&mut r, ": not found\n");
    r
}

/// What is written on the error channel for an unknown command.
pub fn command_not_found(name: &str) -> (r: String)
    ensures
        r@ == name@ + ": command not found\n"@,
{
    let mut r = String::new();
    push_text(&mut r, name);
    push_text(&mut r, ": command not found\n");
    r
}

/// The directories of a search path: the pieces between colons, none when
/// the path is not set.
pub open spec fn path_dirs_of(path_var: Option<Seq<char>>) -> Seq<Seq<char>> {
    match path_var {
        Some(p) => split_on(p, ':'),
        None => seq![],
    }
}

pub fn path_dirs(path_var: Option<&str>) -> (r: Vec<String>)
    ensures
        strings_view(r@) == path_dirs_of(
            match path_var {
                Some(p) => Some(p@),
                None => None,
            },
        ),
{
    match path_var {
        Some(p) => split_text(p, ':'),
        None => {
            let r: Vec<String> = Vec::new();
            assert(strings_view(r@) =~= seq![]);
            r
        },
    }
}

/// The places where a command is looked for: `<dir>/<name>` for each
/// directory of the search path, in order.
pub fn path_search(path_var: Option<&str>, command: &str) -> (r: Vec<String>)
    ensures
        r@.len() == path_dirs_of(
            match path_var {
                Some(p) => Some(p@),
                None => None,
            },
        ).len(),
        forall|i: int|
            0 <= i < r@.len() ==> (#[trigger] r@[i])@ == path_dirs_of(
                match path_var {
                    Some(p) => Some(p@),
                    None => None,
                },
            )[i] + seq!['/'] + command@,
{
    let dirs = path_dirs(path_var);
    let mut r: Vec<String> = Vec::new();
    let mut i: usize = 0;
    while i < dirs.len()
        invariant
            i <= dirs.len(),
            r@.len() == i,
            forall|j: int|
                0 <= j < i ==> (#[trigger] r@[j])@ == strings_view(dirs@)[j] + seq!['/']
                    + command@,
        decreases dirs.len() - i,
    {
        let mut full = dirs[i].clone();
        push_char(&mut full, '/');
        push_text(&mut full, command);
        r.push(full);
        i = i + 1;
    }
    r
}

/// The first place that holds an executable file: `modes[i]` is the mode of
/// the file at the `i`-th place, if there is one.
pub fn first_executable(modes: &Vec<Option<u32>>) -> (r: Option<usize>)
    ensures
        r is None ==> forall|i: int|
            0 <= i < modes@.len() ==> !(#[trigger] modes@[i] matches Some(m) && executable_mode(m)),
        r matches Some(k) ==> {
            &&& k < modes@.len()
            &&& modes@[k as int] matches Some(m) && executable_mode(m)
            &&& forall|i: int|
                0 <= i < k ==> !(#[trigger] modes@[i] matches Some(m) && executable_mode(m))
        },
{
    let mut i: usize = 0;
    while i < modes.len()
        invariant
            i <= modes.len(),
            forall|j: int|
                0 <= j < i ==> !(#[trigger] modes@[j] matches Some(m) && executable_mode(m)),
        decreases modes.len() - i,
    {
        match modes[i] {
            Some(m) => {
                if m & 0o111u32 != 0 {
                    return Some(i);
                }
            },
            None => {},
        }
        i = i + 1;
    }
    None
}

/// What the `history` command is to do.
pub enum HistoryStep {
    /// Write this text on the output channel.
    Show(String),
    /// Write this text on the error channel.
    Report(String),
    /// Add the lines of this file to the history.
    Read(String),
    /// Write every entry to this file, replacing its contents.
    Write(String),
    /// Append the unsaved entries to this file.
    Append(String),
}

/// The content of a `HistoryStep`.
pub ghost enum HistoryStepModel {
    Show(Seq<char>),
    Report(Seq<char>),
    Read(Seq<char>),
    Write(Seq<char>),
    Append(Seq<char>),
}

impl View for HistoryStep {
    type V = HistoryStepModel;

    open spec fn view(&self) -> HistoryStepModel {
        match self {
            HistoryStep::Show(t) => HistoryStepModel::Show(t@),
            HistoryStep::Report(t) => HistoryStepModel::Report(t@),
            HistoryStep::Read(f) => HistoryStepModel::Read(f@),
            HistoryStep::Write(f) => HistoryStepModel::Write(f@),
            HistoryStep::Append(f) => HistoryStepModel::Append(f@),
        }
    }
}

/// What `history` with arguments `args` does on a history of the entries `list`.
pub open spec fn history_of(list: Seq<Seq<char>>, args: Seq<Seq<char>>) -> HistoryStepModel {
    if args.len() == 0 {
        HistoryStepModel::Show(numbered_lines(list, 0, list.len() as int, seq![' ', ' ']))
    } else if args[0] == "-r"@ || args[0] == "-w"@ || args[0] == "-a"@ {
        if args.len() < 2 {
            HistoryStepModel::Report("Need to be sent a file\n"@)
        } else if args[0] == "-r"@ {
            HistoryStepModel::Read(args[1])
        } else if args[0] == "-w"@ {
            HistoryStepModel::Write(args[1])
        } else {
            HistoryStepModel::Append(args[1])
        }
    } else {
        match number_value(args[0]) {
            Some(n) => if n > usize::MAX {
                HistoryStepModel::Report("History needs to be provided a number\n"@)
            } else if n > list.len() {
                HistoryStepModel::Report(
                    "Number provided is larger than current history: "@ + decimal(list.len())
                        + seq!['\n'],
                )
            } else {
                HistoryStepModel::Show(
                    numbered_lines(list, list.len() - n, list.len() as int, seq![' ']),
                )
            },
            None => HistoryStepModel::Report("History needs to be provided a number\n"@),
        }
    }
}

/// Decides what the `history` command does: list every entry, list the last
/// `N`, read, write or append a file, or complain about its arguments.
pub fn history_fn(history: &History, args: &Vec<String>) -> (r: HistoryStep)
    ensures
        r@ == history_of(history@.list, strings_view(args@)),
{
    let ghost a = strings_view(args@);
    if args.len() == 0 {
        return HistoryStep::Show(history.listing());
    }
    assert(a[0] == args@[0]@);
    let flag = args[0].as_str();
    let is_read = same_text(flag, "-r");
    let is_write = same_text(flag, "-w");
    let is_append = same_text(flag, "-a");
    if is_read || is_write || is_append {
        if args.len() < 2 {
            return HistoryStep::Report(String::from_str("Need to be sent a file\n"));
        }
        assert(a[1] == args@[1]@);
        let file = args[1].clone();
        if is_read {
            return HistoryStep::Read(file);
        } else if is_write {
            return HistoryStep::Write(file);
        } else {
            return HistoryStep::Append(file);
        }
    }
    assert(flag@ == a[0]);
    match parse_usize(flag) {
        Some(n) => {
            if n > history.len() {
                let mut t = String::from_str("Number provided is larger than current history: ");
                push_decimal(&mut t, history.len());
                let ghost before = t@;
                push_char(&mut t, '\n');
                assert(t@ =~= before + seq!['\n']);
                HistoryStep::Report(t)
            } else {
                HistoryStep::Show(history.listing_last(n))
            }
        },
        None => HistoryStep::Report(String::from_str("History needs to be provided a number\n")),
    }
}

} // verus!
