use vstd::prelude::*;

use crate::complete::builtin_names;
use crate::editor::InputLoop;
use crate::exec::{
    captured, cd_fn, cd_missing, command_not_found, echo_fn, effective_redirect, handoff,
    handoff_of, history_fn, history_of, kind_of, latched, plan_block, pwd_fn, to_buffer,
    type_found, type_fn, type_not_found, CdStep, Channel, CommandKind, Handoff, HistoryStep,
    HistoryStepModel, TypeStep,
};
use crate::history::History;
use crate::parse::{
    blocks_view, parse_input, strings_view, tokenize, BlockModel, InputBlock, Redirect,
    RedirectType,
};
use crate::text::join_with;

verus! {

/// What the outside world reports back after performing an action.
pub enum Event {
    /// The action was performed; nothing to report.
    Done,
    /// The current working directory.
    Cwd(String),
    /// Whether the directory asked about exists.
    DirExists(bool),
    /// Where the command asked about was found on the search path, if anywhere.
    Found(Option<String>),
}

/// One piece of outside work that running a line calls for.
pub enum Action {
    /// Show this text on the terminal.
    Print(String),
    /// Append this text to the current block's buffer.
    Capture(String),
    /// Report the current working directory.
    AskCwd,
    /// Report whether this directory exists.
    CheckDir(String),
    /// Make the home directory the working directory.
    GoHome,
    /// Make this directory the working directory.
    ChangeDir(String),
    /// Look this command up on the search path.
    Resolve(String),
    /// Start this program with these arguments, its streams set up for this
    /// redirection, its input being what the previous block handed on.
    Spawn(String, Vec<String>, Redirect),
    /// Add the lines of this file to the history.
    HistoryRead(String),
    /// Write every history entry to this file, replacing its contents.
    HistoryWrite(String),
    /// Append the unsaved history entries to this file.
    HistoryAppend(String),
    /// Write the block's buffer to this file, appending when the flag is set,
    /// truncating it first otherwise.
    WriteFile(String, bool),
    /// Hand this to the next block as its input, and start a new buffer.
    HandOn(Handoff),
    /// Show this text and a newline; the line is abandoned.
    Abandon(String),
    /// The line is over.
    Finish(InputLoop),
}

pub ghost enum ActionModel {
    Print(Seq<char>),
    Capture(Seq<char>),
    AskCwd,
    CheckDir(Seq<char>),
    GoHome,
    ChangeDir(Seq<char>),
    Resolve(Seq<char>),
    Spawn(Seq<char>, Seq<Seq<char>>, Redirect),
    HistoryRead(Seq<char>),
    HistoryWrite(Seq<char>),
    HistoryAppend(Seq<char>),
    WriteFile(Seq<char>, bool),
    HandOn(Handoff),
    Abandon(Seq<char>),
    Finish(InputLoop),
}

impl View for Action {
    type V = ActionModel;

    open spec fn view(&self) -> ActionModel {
        match self {
            Action::Print(t) => ActionModel::Print(t@),
            Action::Capture(t) => ActionModel::Capture(t@),
            Action::AskCwd => ActionModel::AskCwd,
            Action::CheckDir(d) => ActionModel::CheckDir(d@),
            Action::GoHome => ActionModel::GoHome,
            Action::ChangeDir(d) => ActionModel::ChangeDir(d@),
            Action::Resolve(n) => ActionModel::Resolve(n@),
            Action::Spawn(c, a, r) => ActionModel::Spawn(c@, strings_view(a@), *r),
            Action::HistoryRead(f) => ActionModel::HistoryRead(f@),
            Action::HistoryWrite(f) => ActionModel::HistoryWrite(f@),
            Action::HistoryAppend(f) => ActionModel::HistoryAppend(f@),
            Action::WriteFile(f, a) => ActionModel::WriteFile(f@, *a),
            Action::HandOn(h) => ActionModel::HandOn(*h),
            Action::Abandon(t) => ActionModel::Abandon(t@),
            Action::Finish(o) => ActionModel::Finish(*o),
        }
    }
}

/// Where the run of a line stands.
#[derive(Clone, Copy, PartialEq, Eq, Debug, Structural)]
pub enum Phase {
    /// The current block is to be started.
    Next,
    /// Waiting for the working directory, for `pwd`.
    AwaitCwd,
    /// Waiting to know whether the pending directory exists, for `cd`.
    AwaitDir,
    /// Waiting for the pending name's place on the search path, for `type`.
    AwaitTypeLookup,
    /// Waiting for the block's command's place on the search path.
    AwaitLookup,
    /// The command has done its part: its buffer goes to the file, if any.
    Closing,
    /// The block is over: hand on to the next one, or end the line.
    Handing,
    /// The line is over, with this outcome.
    Finished(InputLoop),
}

/// The run of one line: its blocks, the current one, and what is known of it.
pub struct LineRun {
    blocks: Vec<InputBlock>,
    index: usize,
    phase: Phase,
    effective: Redirect,
    file: Option<(String, bool)>,
    spawned: bool,
    pending: String,
}

pub ghost struct LineModel {
    pub blocks: Seq<BlockModel>,
    pub index: nat,
    pub phase: Phase,
    pub effective: Redirect,
    pub file: Option<(Seq<char>, bool)>,
    pub spawned: bool,
    pub pending: Seq<char>,
}

pub open spec fn file_view(f: Option<(String, bool)>) -> Option<(Seq<char>, bool)> {
    match f {
        Some((p, a)) => Some((p@, a)),
        None => None,
    }
}

impl View for LineRun {
    type V = LineModel;

    closed spec fn view(&self) -> LineModel {
        LineModel {
            blocks: blocks_view(self.blocks@),
            index: self.index as nat,
            phase: self.phase,
            effective: self.effective,
            file: file_view(self.file),
            spawned: self.spawned,
            pending: self.pending@,
        }
    }
}

/// A run that has not started on the blocks `blocks`.
pub open spec fn initial_line(blocks: Seq<BlockModel>) -> LineModel {
    LineModel {
        blocks,
        index: 0,
        phase: Phase::Next,
        effective: Redirect::Terminal,
        file: None,
        spawned: false,
        pending: seq![],
    }
}

pub open spec fn finish_of(m: LineModel, o: InputLoop) -> (LineModel, ActionModel) {
    (LineModel { phase: Phase::Finished(o), ..m }, ActionModel::Finish(o))
}

/// Text on `channel` goes to the buffer when the block's output is captured,
/// to the terminal otherwise.
pub open spec fn emit_of(effective: Redirect, channel: Channel, t: Seq<char>) -> ActionModel {
    if captured(effective, channel) {
        ActionModel::Capture(t)
    } else {
        ActionModel::Print(t)
    }
}

pub open spec fn emit_close_of(m: LineModel, channel: Channel, t: Seq<char>) -> (
    LineModel,
    ActionModel,
) {
    (LineModel { phase: Phase::Closing, ..m }, emit_of(m.effective, channel, t))
}

/// The end of a block: a piped block hands on to the next one; any other
/// ends the line.
pub open spec fn hand_of(m: LineModel) -> (LineModel, ActionModel) {
    if m.index < m.blocks.len() && m.blocks[m.index as int].piped {
        (
            LineModel {
                phase: Phase::Next,
                index: m.index + 1,
                file: None,
                spawned: false,
                ..m
            },
            ActionModel::HandOn(handoff_of(m.effective, m.spawned)),
        )
    } else {
        finish_of(m, InputLoop::ContinueOuter)
    }
}

/// After the command: the buffer is written to the block's file, if it has one.
pub open spec fn close_of(m: LineModel) -> (LineModel, ActionModel) {
    match m.file {
        Some((p, a)) => (LineModel { phase: Phase::Handing, ..m }, ActionModel::WriteFile(p, a)),
        None => hand_of(m),
    }
}

/// The file that receives a block's captured output.
pub open spec fn file_of(b: BlockModel) -> Option<(Seq<char>, bool)> {
    if effective_redirect(b) == Redirect::Stdout || effective_redirect(b) == Redirect::Stderr {
        Some((b.target, b.redirect_type == RedirectType::Append))
    } else {
        None
    }
}

/// Starting the block `b`: a redirection without target or mode abandons the
/// line; otherwise the builtin runs, or the command is looked up.
pub open spec fn start_of(m: LineModel, b: BlockModel, h: Seq<Seq<char>>) -> (
    LineModel,
    ActionModel,
) {
    if latched(b) && b.target.len() == 0 {
        (
            LineModel { phase: Phase::Finished(InputLoop::ContinueOuter), ..m },
            ActionModel::Abandon("No redirect target found"@),
        )
    } else if latched(b) && b.redirect_type == RedirectType::Unset {
        (
            LineModel { phase: Phase::Finished(InputLoop::ContinueOuter), ..m },
            ActionModel::Abandon("No redirect type found"@),
        )
    } else {
        let m1 = LineModel {
            effective: effective_redirect(b),
            file: file_of(b),
            spawned: false,
            ..m
        };
        match kind_of(b.command) {
            CommandKind::Empty => close_of(m1),
            CommandKind::Exit => finish_of(m1, InputLoop::Exit),
            CommandKind::Echo => emit_close_of(
                m1,
                Channel::Output,
                join_with(b.args, seq![' ']) + seq!['\n'],
            ),
            CommandKind::Pwd => (LineModel { phase: Phase::AwaitCwd, ..m1 }, ActionModel::AskCwd),
            CommandKind::Cd => if b.args.len() == 0 {
                emit_close_of(m1, Channel::Error, "No file or directory passed into cd\n"@)
            } else if b.args[0] == "~"@ {
                (LineModel { phase: Phase::Closing, ..m1 }, ActionModel::GoHome)
            } else {
                (
                    LineModel { phase: Phase::AwaitDir, pending: b.args[0], ..m1 },
                    ActionModel::CheckDir(b.args[0]),
                )
            },
            CommandKind::Type => if b.args.len() == 0 {
                close_of(m1)
            } else if builtin_names().contains(b.args[0]) {
                emit_close_of(m1, Channel::Output, b.args[0] + " is a shell builtin\n"@)
            } else {
                (
                    LineModel { phase: Phase::AwaitTypeLookup, pending: b.args[0], ..m1 },
                    ActionModel::Resolve(b.args[0]),
                )
            },
            CommandKind::History => match history_of(h, b.args) {
                HistoryStepModel::Show(t) => emit_close_of(m1, Channel::Output, t),
                HistoryStepModel::Report(t) => emit_close_of(m1, Channel::Error, t),
                HistoryStepModel::Read(f) => (
                    LineModel { phase: Phase::Closing, ..m1 },
                    ActionModel::HistoryRead(f),
                ),
                HistoryStepModel::Write(f) => (
                    LineModel { phase: Phase::Closing, ..m1 },
                    ActionModel::HistoryWrite(f),
                ),
                HistoryStepModel::Append(f) => (
                    LineModel { phase: Phase::Closing, ..m1 },
                    ActionModel::HistoryAppend(f),
                ),
            },
            CommandKind::External => (
                LineModel { phase: Phase::AwaitLookup, ..m1 },
                ActionModel::Resolve(b.command),
            ),
        }
    }
}

/// One step of running a line: from where the run stands and what the
/// outside world reported, where it goes next and what is to be done.
/// An event other than the one a phase waits for ends the line.
pub open spec fn run_step(m: LineModel, e: Event, h: Seq<Seq<char>>) -> (LineModel, ActionModel) {
    match m.phase {
        Phase::Finished(o) => (m, ActionModel::Finish(o)),
        _ => if m.index >= m.blocks.len() {
            finish_of(m, InputLoop::ContinueOuter)
        } else {
            let b = m.blocks[m.index as int];
            match m.phase {
                Phase::Next => start_of(m, b, h),
                Phase::AwaitCwd => match e {
                    Event::Cwd(c) => emit_close_of(m, Channel::Output, c@ + seq!['\n']),
                    _ => finish_of(m, InputLoop::ContinueOuter),
                },
                Phase::AwaitDir => match e {
                    Event::DirExists(exists) => if exists {
                        (LineModel { phase: Phase::Closing, ..m }, ActionModel::ChangeDir(m.pending))
                    } else {
                        emit_close_of(
                            m,
                            Channel::Error,
                            "cd: "@ + m.pending + ": No such file or directory\n"@,
                        )
                    },
                    _ => finish_of(m, InputLoop::ContinueOuter),
                },
                Phase::AwaitTypeLookup => match e {
                    Event::Found(found) => match found {
                        Some(p) => emit_close_of(
                            m,
                            Channel::Output,
                            m.pending + " is "@ + p@ + "\n"@,
                        ),
                        None => emit_close_of(m, Channel::Error, m.pending + ": not found\n"@),
                    },
                    _ => finish_of(m, InputLoop::ContinueOuter),
                },
                Phase::AwaitLookup => match e {
                    Event::Found(found) => match found {
                        Some(_) => (
                            LineModel { phase: Phase::Closing, spawned: true, ..m },
                            ActionModel::Spawn(b.command, b.args, m.effective),
                        ),
                        None => emit_close_of(
                            m,
                            Channel::Error,
                            b.command + ": command not found\n"@,
                        ),
                    },
                    _ => finish_of(m, InputLoop::ContinueOuter),
                },
                Phase::Closing => close_of(m),
                Phase::Handing => hand_of(m),
                Phase::Finished(o) => (m, ActionModel::Finish(o)),
            }
        },
    }
}

fn clone_strings(v: &Vec<String>) -> (r: Vec<String>)
    ensures
        strings_view(r@) == strings_view(v@),
{
    let mut r: Vec<String> = Vec::new();
    let mut i: usize = 0;
    while i < v.len()
        invariant
            i <= v.len(),
            strings_view(r@) == strings_view(v@.take(i as int)),
        decreases v.len() - i,
    {
        let ghost before = r@;
        r.push(v[i].clone());
        assert(strings_view(r@) =~= strings_view(before).push(v@[i as int]@));
        assert(strings_view(v@.take(i + 1)) =~= strings_view(v@.take(i as int)).push(
            v@[i as int]@,
        ));
        i = i + 1;
    }
    assert(v@.take(v.len() as int) =~= v@);
    r
}

fn emit(effective: Redirect, channel: Channel, t: String) -> (r: Action)
    ensures
        r@ == emit_of(effective, channel, t@),
{
    if to_buffer(effective, channel) {
        Action::Capture(t)
    } else {
        Action::Print(t)
    }
}

impl LineRun {
    /// A run of the given blocks, not yet started.
    pub fn new(blocks: Vec<InputBlock>) -> (r: LineRun)
        ensures
            r@ == initial_line(blocks_view(blocks@)),
    {
        LineRun {
            blocks,
            index: 0,
            phase: Phase::Next,
            effective: Redirect::Terminal,
            file: None,
            spawned: false,
            pending: String::new(),
        }
    }

    /// A run of the blocks of a line, not yet started.
    pub fn from_line(line: &str) -> (r: LineRun)
        ensures
            r@ == initial_line(tokenize(line@)),
    {
        LineRun::new(parse_input(line))
    }

    fn finish(&mut self, o: InputLoop) -> (r: Action)
        ensures
            (final(self)@, r@) == finish_of(old(self)@, o),
    {
        self.phase = Phase::Finished(o);
        Action::Finish(o)
    }

    fn emit_close(&mut self, channel: Channel, t: String) -> (r: Action)
        ensures
            (final(self)@, r@) == emit_close_of(old(self)@, channel, t@),
    {
        self.phase = Phase::Closing;
        emit(self.effective, channel, t)
    }

    fn hand(&mut self) -> (r: Action)
        ensures
            (final(self)@, r@) == hand_of(old(self)@),
    {
        if self.index < self.blocks.len() && self.blocks[self.index].piped {
            let h = handoff(self.effective, self.spawned);
            self.phase = Phase::Next;
            self.index = self.index + 1;
            self.file = None;
            self.spawned = false;
            Action::HandOn(h)
        } else {
            self.finish(InputLoop::ContinueOuter)
        }
    }

    fn close(&mut self) -> (r: Action)
        ensures
            (final(self)@, r@) == close_of(old(self)@),
    {
        match &self.file {
            Some((p, a)) => {
                let path = p.clone();
                let append = *a;
                self.phase = Phase::Handing;
                Action::WriteFile(path, append)
            },
            None => self.hand(),
        }
    }

    fn start(&mut self, history: &History) -> (r: Action)
        requires
            old(self)@.index < old(self)@.blocks.len(),
        ensures
            (final(self)@, r@) == start_of(
                old(self)@,
                old(self)@.blocks[old(self)@.index as int],
                history@.list,
            ),
    {
        let ghost b = self@.blocks[self@.index as int];
        assert(self.blocks@[self.index as int]@ == b);
        let plan = plan_block(&self.blocks[self.index]);
        match plan {
            Err(e) => {
                self.phase = Phase::Finished(InputLoop::ContinueOuter);
                Action::Abandon(e.message())
            },
            Ok(p) => {
                let command = self.blocks[self.index].command.clone();
                let args = clone_strings(&self.blocks[self.index].args);
                assert(file_view(p.file) == file_of(b));
                self.effective = p.effective;
                self.file = p.file;
                self.spawned = false;
                match p.command {
                    CommandKind::Empty => self.close(),
                    CommandKind::Exit => self.finish(InputLoop::Exit),
                    CommandKind::Echo => self.emit_close(Channel::Output, echo_fn(&args)),
                    CommandKind::Pwd => {
                        self.phase = Phase::AwaitCwd;
                        Action::AskCwd
                    },
                    CommandKind::Cd => match cd_fn(&args) {
                        CdStep::Report(t) => self.emit_close(Channel::Error, t),
                        CdStep::Home => {
                            self.phase = Phase::Closing;
                            Action::GoHome
                        },
                        CdStep::Change(d) => {
                            self.pending = d.clone();
                            self.phase = Phase::AwaitDir;
                            Action::CheckDir(d)
                        },
                    },
                    CommandKind::Type => match type_fn(&args) {
                        TypeStep::Silent => self.close(),
                        TypeStep::Report(t) => self.emit_close(Channel::Output, t),
                        TypeStep::Search(n) => {
                            self.pending = n.clone();
                            self.phase = Phase::AwaitTypeLookup;
                            Action::Resolve(n)
                        },
                    },
                    CommandKind::History => match history_fn(history, &args) {
                        HistoryStep::Show(t) => self.emit_close(Channel::Output, t),
                        HistoryStep::Report(t) => self.emit_close(Channel::Error, t),
                        HistoryStep::Read(f) => {
                            self.phase = Phase::Closing;
                            Action::HistoryRead(f)
                        },
                        HistoryStep::Write(f) => {
                            self.phase = Phase::Closing;
                            Action::HistoryWrite(f)
                        },
                        HistoryStep::Append(f) => {
                            self.phase = Phase::Closing;
                            Action::HistoryAppend(f)
                        },
                    },
                    CommandKind::External => {
                        self.phase = Phase::AwaitLookup;
                        Action::Resolve(command)
                    },
                }
            },
        }
    }

    /// Advances the run by one step: `event` reports on the last action, and
    /// the result is the next one. `Finish` ends the line.
    pub fn step(&mut self, event: Event, history: &History) -> (r: Action)
        ensures
            (final(self)@, r@) == run_step(old(self)@, event, history@.list),
    {
        if let Phase::Finished(o) = self.phase {
            return Action::Finish(o);
        }
        if self.index >= self.blocks.len() {
            return self.finish(InputLoop::ContinueOuter);
        }
        match self.phase {
            Phase::Next => self.start(history),
            Phase::AwaitCwd => match event {
                Event::Cwd(c) => self.emit_close(Channel::Output, pwd_fn(c.as_str())),
                _ => self.finish(InputLoop::ContinueOuter),
            },
            Phase::AwaitDir => match event {
                Event::DirExists(exists) => {
                    if exists {
                        self.phase = Phase::Closing;
                        Action::ChangeDir(self.pending.clone())
                    } else {
                        let t = cd_missing(self.pending.as_str());
                        self.emit_close(Channel::Error, t)
                    }
                },
                _ => self.finish(InputLoop::ContinueOuter),
            },
            Phase::AwaitTypeLookup => match event {
                Event::Found(found) => match found {
                    Some(p) => {
                        let t = type_found(self.pending.as_str(), p.as_str());
                        self.emit_close(Channel::Output, t)
                    },
                    None => {
                        let t = type_not_found(self.pending.as_str());
                        self.emit_close(Channel::Error, t)
                    },
                },
                _ => self.finish(InputLoop::ContinueOuter),
            },
            Phase::AwaitLookup => match event {
                Event::Found(found) => {
                    let command = self.blocks[self.index].command.clone();
                    match found {
                        Some(_) => {
                            let args = clone_strings(&self.blocks[self.index].args);
                            self.phase = Phase::Closing;
                            self.spawned = true;
                            Action::Spawn(command, args, self.effective)
                        },
                        None => {
                            let t = command_not_found(command.as_str());
                            self.emit_close(Channel::Error, t)
                        },
                    }
                },
                _ => self.finish(InputLoop::ContinueOuter),
            },
            Phase::Closing => self.close(),
            Phase::Handing => self.hand(),
            Phase::Finished(o) => Action::Finish(o),
        }
    }
}

/// A line whose first command is `exit`, with any arguments, ends the shell
/// at the run's first step, unless its redirection is missing a target or mode.
pub proof fn lemma_exit_ends_shell(line: Seq<char>, e: Event, h: Seq<Seq<char>>)
    requires
        tokenize(line).len() > 0,
        tokenize(line)[0].command == "exit"@,
        !(latched(tokenize(line)[0]) && tokenize(line)[0].target.len() == 0),
        !(latched(tokenize(line)[0]) && tokenize(line)[0].redirect_type == RedirectType::Unset),
    ensures
        run_step(initial_line(tokenize(line)), e, h).1 == ActionModel::Finish(InputLoop::Exit),
        run_step(initial_line(tokenize(line)), e, h).0.phase == Phase::Finished(InputLoop::Exit),
{
    reveal_strlit("exit");
    assert(kind_of(tokenize(line)[0].command) == CommandKind::Exit);
}

} // verus!
