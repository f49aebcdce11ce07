use vstd::prelude::*;

use crate::text::string_of;

verus! {

/// Where a command's output goes.
#[derive(Clone, Copy, PartialEq, Eq, Debug, Structural)]
pub enum Redirect {
    Stdout,
    Stderr,
    Pipe,
    Terminal,
}

/// How a redirection target file is opened.
#[derive(Clone, Copy, PartialEq, Eq, Debug, Structural)]
pub enum RedirectType {
    Create,
    Append,
    Unset,
}

/// The redirection latched on a command block.
#[derive(Clone, Debug)]
pub struct RedirectOptions {
    pub redirect: Redirect,
    pub redirect_type: RedirectType,
    pub redirect_location: String,
}

/// One command of a line: its name, its arguments, its redirection, and
/// whether its output feeds the next block.
#[derive(Clone, Debug)]
pub struct InputBlock {
    pub command: String,
    pub args: Vec<String>,
    pub redirect_options: RedirectOptions,
    pub piped: bool,
}

/// The mathematical content of a command block.
pub ghost struct BlockModel {
    pub command: Seq<char>,
    pub args: Seq<Seq<char>>,
    pub redirect: Redirect,
    pub redirect_type: RedirectType,
    pub target: Seq<char>,
    pub piped: bool,
}

pub open spec fn strings_view(v: Seq<String>) -> Seq<Seq<char>> {
    v.map_values(|s: String| s@)
}

impl View for InputBlock {
    type V = BlockModel;

    open spec fn view(&self) -> BlockModel {
        BlockModel {
            command: self.command@,
            args: strings_view(self.args@),
            redirect: self.redirect_options.redirect,
            redirect_type: self.redirect_options.redirect_type,
            target: self.redirect_options.redirect_location@,
            piped: self.piped,
        }
    }
}

pub open spec fn blocks_view(v: Seq<InputBlock>) -> Seq<BlockModel> {
    v.map_values(|b: InputBlock| b@)
}

pub open spec fn empty_block() -> BlockModel {
    BlockModel {
        command: seq![],
        args: seq![],
        redirect: Redirect::Terminal,
        redirect_type: RedirectType::Unset,
        target: seq![],
        piped: false,
    }
}

/// The state of the left-to-right scan of a line: the blocks finished so far,
/// the block being built, the word being accumulated, and the quoting flags.
pub ghost struct ScanState {
    pub blocks: Seq<BlockModel>,
    pub cur: BlockModel,
    pub word: Seq<char>,
    pub single: bool,
    pub double: bool,
    pub escape: bool,
}

pub open spec fn initial_scan() -> ScanState {
    ScanState {
        blocks: seq![],
        cur: empty_block(),
        word: seq![],
        single: false,
        double: false,
        escape: false,
    }
}

/// The redirection that an operator word latches, if it is one.
pub open spec fn redirect_operator(w: Seq<char>) -> Option<(Redirect, RedirectType)> {
    if w == seq!['>'] || w == seq!['1', '>'] {
        Some((Redirect::Stdout, RedirectType::Create))
    } else if w == seq!['>', '>'] || w == seq!['1', '>', '>'] {
        Some((Redirect::Stdout, RedirectType::Append))
    } else if w == seq!['2', '>'] {
        Some((Redirect::Stderr, RedirectType::Create))
    } else if w == seq!['2', '>', '>'] {
        Some((Redirect::Stderr, RedirectType::Append))
    } else {
        None
    }
}

pub open spec fn is_operator(w: Seq<char>) -> bool {
    w == seq!['|'] || redirect_operator(w) is Some
}

/// Puts a finished word where it belongs in the block being built, by position.
pub open spec fn place_in_block(blocks: Seq<BlockModel>, cur: BlockModel, w: Seq<char>) -> (
    Seq<BlockModel>,
    BlockModel,
) {
    if cur.command.len() == 0 {
        (blocks, BlockModel { command: w, ..cur })
    } else if cur.redirect != Redirect::Terminal && cur.target.len() == 0 {
        (blocks, BlockModel { target: w, ..cur })
    } else if w == seq!['|'] {
        (blocks.push(BlockModel { piped: true, ..cur }), empty_block())
    } else {
        match redirect_operator(w) {
            Some((r, t)) => (blocks, BlockModel { redirect: r, redirect_type: t, ..cur }),
            None => (blocks, BlockModel { args: cur.args.push(w), ..cur }),
        }
    }
}

/// Places the accumulated word and starts a new, empty one.
pub open spec fn place_word(st: ScanState) -> ScanState {
    let (blocks, cur) = place_in_block(st.blocks, st.cur, st.word);
    ScanState { blocks, cur, word: seq![], ..st }
}

/// Drops the backslash that ends `w` and puts `c` in its place.
pub open spec fn replace_last(w: Seq<char>, c: char) -> Seq<char> {
    if w.len() > 0 {
        w.drop_last().push(c)
    } else {
        w.push(c)
    }
}

pub open spec fn with_word(st: ScanState, w: Seq<char>) -> ScanState {
    ScanState { word: w, escape: false, ..st }
}

/// One character of the scan.
pub open spec fn step(st: ScanState, c: char) -> ScanState {
    let cleared = ScanState { escape: false, ..st };
    if c == '\'' {
        if st.double || st.escape {
            with_word(st, st.word.push(c))
        } else {
            ScanState { single: !st.single, ..cleared }
        }
    } else if c == '"' {
        if st.escape && st.double {
            with_word(st, replace_last(st.word, c))
        } else if st.escape || st.single {
            with_word(st, st.word.push(c))
        } else {
            ScanState { double: !st.double, ..cleared }
        }
    } else if c == '\\' {
        if st.escape && st.double {
            with_word(st, replace_last(st.word, c))
        } else if st.single || st.escape {
            with_word(st, st.word.push(c))
        } else if st.double {
            ScanState { word: st.word.push(c), escape: true, ..st }
        } else {
            ScanState { escape: true, ..st }
        }
    } else if c == ' ' {
        if st.single || st.double || st.escape {
            with_word(st, st.word.push(c))
        } else if st.word.len() > 0 {
            place_word(cleared)
        } else {
            cleared
        }
    } else {
        if st.double && st.escape && (c == '$' || c == '`' || c == '\n') {
            with_word(st, replace_last(st.word, c))
        } else {
            with_word(st, st.word.push(c))
        }
    }
}

/// The scan of the characters `s`, starting from `st`.
pub open spec fn scan_from(st: ScanState, s: Seq<char>) -> ScanState
    decreases s.len(),
{
    if s.len() == 0 {
        st
    } else {
        step(scan_from(st, s.drop_last()), s.last())
    }
}

/// End of input: the trailing word is placed, and the block being built closes
/// the list unless the line held no word at all.
pub open spec fn finish(st: ScanState) -> Seq<BlockModel> {
    let last = if st.word.len() > 0 {
        place_word(st)
    } else {
        st
    };
    if last.blocks.len() == 0 && last.cur.command.len() == 0 {
        seq![]
    } else {
        last.blocks.push(last.cur)
    }
}

/// The command blocks of a line.
pub open spec fn tokenize(s: Seq<char>) -> Seq<BlockModel> {
    finish(scan_from(initial_scan(), s))
}

impl InputBlock {
    pub fn new(
        command: String,
        args: Vec<String>,
        redirect_options: RedirectOptions,
        piped: bool,
    ) -> (r: InputBlock)
        ensures
            r.command == command,
            r.args == args,
            r.redirect_options == redirect_options,
            r.piped == piped,
    {
        InputBlock { command, args, redirect_options, piped }
    }

    fn empty() -> (r: InputBlock)
        ensures
            r@ == empty_block(),
    {
        let r = InputBlock {
            command: String::new(),
            args: Vec::new(),
            redirect_options: RedirectOptions {
                redirect: Redirect::Terminal,
                redirect_type: RedirectType::Unset,
                redirect_location: String::new(),
            },
            piped: false,
        };
        assert(strings_view(r.args@) =~= seq![]);
        r
    }
}

fn word_is1(w: &Vec<char>, a: char) -> (r: bool)
    ensures
        r == (w@ == seq![a]),
{
    let r = w.len() == 1 && w[0] == a;
    assert(r ==> w@ =~= seq![a]);
    r
}

fn word_is2(w: &Vec<char>, a: char, b: char) -> (r: bool)
    ensures
        r == (w@ == seq![a, b]),
{
    let r = w.len() == 2 && w[0] == a && w[1] == b;
    assert(r ==> w@ =~= seq![a, b]);
    r
}

fn word_is3(w: &Vec<char>, a: char, b: char, c: char) -> (r: bool)
    ensures
        r == (w@ == seq![a, b, c]),
{
    let r = w.len() == 3 && w[0] == a && w[1] == b && w[2] == c;
    assert(r ==> w@ =~= seq![a, b, c]);
    r
}

struct Scanner {
    blocks: Vec<InputBlock>,
    cur: InputBlock,
    word: Vec<char>,
    single: bool,
    double: bool,
    escape: bool,
}

impl View for Scanner {
    type V = ScanState;

    closed spec fn view(&self) -> ScanState {
        ScanState {
            blocks: blocks_view(self.blocks@),
            cur: self.cur@,
            word: self.word@,
            single: self.single,
            double: self.double,
            escape: self.escape,
        }
    }
}

impl Scanner {
    fn place_word(&mut self)
        ensures
            final(self)@ == place_word(old(self)@),
    {
        let is_pipe = word_is1(&self.word, '|');
        let is_out = word_is1(&self.word, '>') || word_is2(&self.word, '1', '>');
        let is_out_append = word_is2(&self.word, '>', '>') || word_is3(&self.word, '1', '>', '>');
        let is_err = word_is2(&self.word, '2', '>');
        let is_err_append = word_is3(&self.word, '2', '>', '>');
        let w = string_of(&self.word);
        self.word = Vec::new();
        if self.cur.command.as_str().is_empty() {
            self.cur.command = w;
        } else if self.cur.redirect_options.redirect != Redirect::Terminal
            && self.cur.redirect_options.redirect_location.as_str().is_empty() {
            self.cur.redirect_options.redirect_location = w;
        } else if is_pipe {
            let mut done = InputBlock::empty();
            std::mem::swap(&mut done, &mut self.cur);
            done.piped = true;
            self.blocks.push(done);
            assert(blocks_view(self.blocks@) =~= blocks_view(old(self).blocks@).push(done@));
        } else if is_out {
            self.cur.redirect_options.redirect = Redirect::Stdout;
            self.cur.redirect_options.redirect_type = RedirectType::Create;
        } else if is_out_append {
            self.cur.redirect_options.redirect = Redirect::Stdout;
            self.cur.redirect_options.redirect_type = RedirectType::Append;
        } else if is_err {
            self.cur.redirect_options.redirect = Redirect::Stderr;
            self.cur.redirect_options.redirect_type = RedirectType::Create;
        } else if is_err_append {
            self.cur.redirect_options.redirect = Redirect::Stderr;
            self.cur.redirect_options.redirect_type = RedirectType::Append;
        } else {
            let ghost before = self.cur.args@;
            self.cur.args.push(w);
            assert(strings_view(self.cur.args@) =~= strings_view(before).push(w@));
        }
    }
}

impl Scanner {
    fn step(&mut self, c: char)
        ensures
            final(self)@ == step(old(self)@, c),
    {
        if c == '\'' {
            if self.double || self.escape {
                self.word.push(c);
            } else {
                self.single = !self.single;
            }
            self.escape = false;
        } else if c == '"' {
            if self.escape && self.double {
                self.word.pop();
                self.word.push(c);
            } else if self.escape || self.single {
                self.word.push(c);
            } else {
                self.double = !self.double;
            }
            self.escape = false;
        } else if c == '\\' {
            if self.escape && self.double {
                self.word.pop();
                self.word.push(c);
                self.escape = false;
            } else if self.single || self.escape {
                self.word.push(c);
                self.escape = false;
            } else if self.double {
                self.word.push(c);
                self.escape = true;
            } else {
                self.escape = true;
            }
        } else if c == ' ' {
            if self.single || self.double || self.escape {
                self.word.push(c);
                self.escape = false;
            } else if self.word.len() > 0 {
                self.escape = false;
                self.place_word();
            } else {
                self.escape = false;
            }
        } else {
            if self.double && self.escape && (c == '$' || c == '`' || c == '\n') {
                self.word.pop();
                self.word.push(c);
            } else {
                self.word.push(c);
            }
            self.escape = false;
        }
    }
}

/// Splits a line into command blocks, honouring quotes and backslash escapes,
/// and recognising the pipe and redirection operators as separate words.
pub fn parse_input(arguments: &str) -> (r: Vec<InputBlock>)
    ensures
        blocks_view(r@) == tokenize(arguments@),
{
    let mut sc = Scanner {
        blocks: Vec::new(),
        cur: InputBlock::empty(),
        word: Vec::new(),
        single: false,
        double: false,
        escape: false,
    };
    assert(blocks_view(sc.blocks@) =~= seq![]);
    assert(arguments@.take(0) =~= seq![]);
    for c in it: arguments.chars()
        invariant
            it.seq() == arguments@,
            sc@ == scan_from(initial_scan(), arguments@.take(it.index() as int)),
    {
        proof {
            let t = arguments@.take(it.index() + 1);
            assert(t.drop_last() =~= arguments@.take(it.index() as int));
        }
        sc.step(c);
    }
    assert(arguments@.take(arguments@.len() as int) =~= arguments@);
    if sc.word.len() > 0 {
        sc.place_word();
    }
    if sc.blocks.len() == 0 && sc.cur.command.as_str().is_empty() {
        let r: Vec<InputBlock> = Vec::new();
        assert(blocks_view(r@) =~= seq![]);
        return r;
    }
    let Scanner { mut blocks, cur, .. } = sc;
    let ghost before = blocks@;
    blocks.push(cur);
    assert(blocks_view(blocks@) =~= blocks_view(before).push(cur@));
    blocks
}

} // verus!
