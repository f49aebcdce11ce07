use vstd::prelude::*;

use crate::parse::strings_view;
use crate::text::{decimal, lines_of, push_char, push_decimal, push_text, text_lines};

verus! {

/// The previously entered lines, a cursor for walking them with the arrow
/// keys, and the index from which entries have not yet been saved.
pub struct History {
    list: Vec<String>,
    position: usize,
    append_start: usize,
}

pub ghost struct HistoryModel {
    pub list: Seq<Seq<char>>,
    pub position: nat,
    pub append_start: nat,
}

impl HistoryModel {
    /// Both cursors lie within the list, `list.len()` standing for a fresh line.
    pub open spec fn wf(self) -> bool {
        self.position <= self.list.len() && self.append_start <= self.list.len()
    }
}

impl View for History {
    type V = HistoryModel;

    closed spec fn view(&self) -> HistoryModel {
        HistoryModel {
            list: strings_view(self.list@),
            position: self.position as nat,
            append_start: self.append_start as nat,
        }
    }
}

/// The history after a line is recorded: the cursor moves past it.
pub open spec fn add_once(m: HistoryModel, e: Seq<char>) -> HistoryModel {
    HistoryModel { list: m.list.push(e), position: m.list.len() + 1, ..m }
}

/// One press of the up key: the cursor steps back and the entry there is
/// returned, unless the cursor is at the oldest entry.
pub open spec fn up_once(m: HistoryModel) -> (HistoryModel, Option<Seq<char>>) {
    if m.position == 0 {
        (m, None)
    } else {
        (
            HistoryModel { position: (m.position - 1) as nat, ..m },
            Some(m.list[m.position - 1]),
        )
    }
}

/// One press of the down key: the cursor steps forward and the entry there
/// is returned; onto or past the fresh line nothing is returned and the
/// cursor stays on the fresh line.
pub open spec fn down_once(m: HistoryModel) -> (HistoryModel, Option<Seq<char>>) {
    if m.position + 1 < m.list.len() {
        (
            HistoryModel { position: m.position + 1, ..m },
            Some(m.list[m.position + 1int]),
        )
    } else {
        (HistoryModel { position: m.list.len(), ..m }, None)
    }
}

pub open spec fn entry_view(r: Option<&String>) -> Option<Seq<char>> {
    match r {
        Some(s) => Some(s@),
        None => None,
    }
}

/// The entries `from..to`, each followed by a newline.
pub open spec fn entry_lines(list: Seq<Seq<char>>, from: int, to: int) -> Seq<char>
    decreases to - from,
{
    if to <= from {
        seq![]
    } else {
        entry_lines(list, from, to - 1) + list[to - 1] + seq!['\n']
    }
}

/// The entries `from..to`, one per line, each after the indent, its 1-based
/// number and two spaces.
pub open spec fn numbered_lines(list: Seq<Seq<char>>, from: int, to: int, indent: Seq<char>) -> Seq<
    char,
>
    decreases to - from,
{
    if to <= from {
        seq![]
    } else {
        numbered_lines(list, from, to - 1, indent) + indent + decimal(to as nat) + seq![' ', ' ']
            + list[to - 1] + seq!['\n']
    }
}

impl History {
    pub fn new() -> (r: History)
        ensures
            r@ == (HistoryModel { list: seq![], position: 0, append_start: 0 }),
            r@.wf(),
    {
        let r = History { list: Vec::new(), position: 0, append_start: 0 };
        assert(strings_view(r.list@) =~= seq![]);
        r
    }

    /// A history holding the lines of a saved text, all counted as saved.
    pub fn from_text(content: &str) -> (r: History)
        ensures
            r@.list == text_lines(content@),
            r@.position == r@.list.len(),
            r@.append_start == r@.list.len(),
            r@.wf(),
    {
        let list = lines_of(content);
        let n = list.len();
        History { list, position: n, append_start: n }
    }

    pub fn len(&self) -> (r: usize)
        ensures
            r == self@.list.len(),
    {
        self.list.len()
    }

    /// Records a line; the cursor moves past it, to a fresh line.
    pub fn add_entry(&mut self, entry: String)
        requires
            old(self)@.wf(),
        ensures
            final(self)@.wf(),
            final(self)@ == add_once(old(self)@, entry@),
    {
        let ghost before = self.list@;
        self.list.push(entry);
        self.position = self.list.len();
        assert(strings_view(self.list@) =~= strings_view(before).push(entry@));
    }

    /// Steps to the previous entry and returns it; at the oldest entry nothing
    /// moves and nothing is returned.
    pub fn move_up(&mut self) -> (r: Option<&String>)
        requires
            old(self)@.wf(),
        ensures
            final(self)@.wf(),
            (final(self)@, entry_view(r)) == up_once(old(self)@),
    {
        if self.position == 0 {
            return None;
        }
        self.position = self.position - 1;
        Some(&self.list[self.position])
    }

    /// Steps to the next entry and returns it; stepping onto or past the fresh
    /// line returns nothing and leaves the cursor there.
    pub fn move_down(&mut self) -> (r: Option<&String>)
        requires
            old(self)@.wf(),
        ensures
            final(self)@.wf(),
            (final(self)@, entry_view(r)) == down_once(old(self)@),
    {
        if self.position >= self.list.len() || self.position + 1 >= self.list.len() {
            self.position = self.list.len();
            return None;
        }
        self.position = self.position + 1;
        Some(&self.list[self.position])
    }

    /// Every entry followed by a newline, as the history file holds them.
    pub fn all_text(&self) -> (r: String)
        ensures
            r@ == entry_lines(self@.list, 0, self@.list.len() as int),
    {
        self.entry_text(0)
    }

    /// The entries not yet saved, each followed by a newline.
    pub fn pending_text(&self) -> (r: String)
        requires
            self@.wf(),
        ensures
            r@ == entry_lines(self@.list, self@.append_start as int, self@.list.len() as int),
    {
        self.entry_text(self.append_start)
    }

    fn entry_text(&self, from: usize) -> (r: String)
        requires
            from <= self@.list.len(),
        ensures
            r@ == entry_lines(self@.list, from as int, self@.list.len() as int),
    {
        let mut r = String::new();
        let mut i: usize = from;
        while i < self.list.len()
            invariant
                from <= i <= self.list.len(),
                r@ == entry_lines(self@.list, from as int, i as int),
            decreases self.list.len() - i,
        {
            push_text(&mut r, self.list[i].as_str());
            push_char(&mut r, '\n');
            i = i + 1;
        }
        r
    }

    /// Counts every entry as saved.
    pub fn mark_appended(&mut self)
        requires
            old(self)@.wf(),
        ensures
            final(self)@.wf(),
            final(self)@ == (HistoryModel { append_start: old(self)@.list.len(), ..old(self)@ }),
    {
        self.append_start = self.list.len();
    }

    /// Records each line of a text, in order.
    pub fn append_lines(&mut self, content: &str)
        requires
            old(self)@.wf(),
        ensures
            final(self)@.wf(),
            final(self)@.list == old(self)@.list + text_lines(content@),
            final(self)@.append_start == old(self)@.append_start,
            text_lines(content@).len() > 0 ==> final(self)@.position == final(self)@.list.len(),
            text_lines(content@).len() == 0 ==> final(self)@ == old(self)@,
    {
        let lines = lines_of(content);
        let ghost start = self@;
        let mut i: usize = 0;
        while i < lines.len()
            invariant
                i <= lines.len(),
                strings_view(lines@) == text_lines(content@),
                self@.list == start.list + text_lines(content@).take(i as int),
                self@.append_start == start.append_start,
                i > 0 ==> self@.position == self@.list.len(),
                self@.wf(),
                i == 0 ==> self@ == start,
            decreases lines.len() - i,
        {
            let line = lines[i].clone();
            self.add_entry(line);
            assert(text_lines(content@).take(i + 1) =~= text_lines(content@).take(i as int).push(
                lines@[i as int]@,
            ));
            i = i + 1;
        }
        assert(text_lines(content@).take(lines.len() as int) =~= text_lines(content@));
        assert(start.list + seq![] =~= start.list);
    }

    /// The whole history as the `history` command lists it: two spaces, the
    /// 1-based number, two spaces and the entry, on each line.
    pub fn listing(&self) -> (r: String)
        ensures
            r@ == numbered_lines(self@.list, 0, self@.list.len() as int, seq![' ', ' ']),
    {
        self.numbered_text(0, true)
    }

    /// The last `n` entries, each line led by one space before its number.
    pub fn listing_last(&self, n: usize) -> (r: String)
        requires
            n <= self@.list.len(),
        ensures
            r@ == numbered_lines(
                self@.list,
                self@.list.len() - n,
                self@.list.len() as int,
                seq![' '],
            ),
    {
        self.numbered_text(self.list.len() - n, false)
    }

    fn numbered_text(&self, from: usize, wide: bool) -> (r: String)
        requires
            from <= self@.list.len(),
        ensures
            r@ == numbered_lines(
                self@.list,
                from as int,
                self@.list.len() as int,
                if wide {
                    seq![' ', ' ']
                } else {
                    seq![' ']
                },
            ),
    {
        let ghost indent = if wide {
            seq![' ', ' ']
        } else {
            seq![' ']
        };
        let mut r = String::new();
        let mut i: usize = from;
        while i < self.list.len()
            invariant
                from <= i <= self.list.len(),
                indent == (if wide {
                    seq![' ', ' ']
                } else {
                    seq![' ']
                }),
                r@ == numbered_lines(self@.list, from as int, i as int, indent),
            decreases self.list.len() - i,
        {
            let ghost before = r@;
            push_char(&mut r, ' ');
            if wide {
                push_char(&mut r, ' ');
            }
            push_decimal(&mut r, i + 1);
            push_char(&mut r, ' ');
            push_char(&mut r, ' ');
            push_text(&mut r, self.list[i].as_str());
            push_char(&mut r, '\n');
            assert(r@ =~= before + indent + decimal((i + 1) as nat) + seq![' ', ' ']
                + self@.list[i as int] + seq!['\n']);
            i = i + 1;
        }
        r
    }
}

/// The history after each of `es` is recorded, in order.
pub open spec fn add_all(m: HistoryModel, es: Seq<Seq<char>>) -> HistoryModel
    decreases es.len(),
{
    if es.len() == 0 {
        m
    } else {
        add_once(add_all(m, es.drop_last()), es.last())
    }
}

/// The history after `k` presses of the up key, and what each press returned.
pub open spec fn walk_up(m: HistoryModel, k: nat) -> (HistoryModel, Seq<Option<Seq<char>>>)
    decreases k,
{
    if k == 0 {
        (m, seq![])
    } else {
        let (m1, out) = walk_up(m, (k - 1) as nat);
        let (m2, r) = up_once(m1);
        (m2, out.push(r))
    }
}

proof fn lemma_add_all(es: Seq<Seq<char>>)
    ensures
        add_all(HistoryModel { list: seq![], position: 0, append_start: 0 }, es) == (HistoryModel {
            list: es,
            position: es.len(),
            append_start: 0,
        }),
    decreases es.len(),
{
    if es.len() > 0 {
        lemma_add_all(es.drop_last());
        assert(es.drop_last().push(es.last()) =~= es);
    } else {
        assert(es =~= seq![]);
    }
}

proof fn lemma_walk_up(m: HistoryModel, k: nat)
    requires
        m.position == m.list.len(),
        k <= m.list.len(),
    ensures
        walk_up(m, k).0 == (HistoryModel { position: (m.list.len() - k) as nat, ..m }),
        walk_up(m, k).1.len() == k,
        forall|j: int|
            0 <= j < k ==> #[trigger] walk_up(m, k).1[j] == Some(m.list[m.list.len() - 1 - j]),
    decreases k,
{
    if k > 0 {
        lemma_walk_up(m, (k - 1) as nat);
    }
}

/// After `n` lines are recorded in a new history, the cursor stands at `n`,
/// on a fresh line; `k <= n` presses of the up key then return the entries
/// `n - 1`, `n - 2`, ... `n - k`, newest first, and leave the cursor at
/// `n - k`; and from the fresh line a press of the down key returns nothing
/// and the cursor stays at `n`.
pub proof fn lemma_history_cursor(es: Seq<Seq<char>>, k: nat)
    requires
        k <= es.len(),
    ensures
        add_all(HistoryModel { list: seq![], position: 0, append_start: 0 }, es).position
            == es.len(),
        walk_up(add_all(HistoryModel { list: seq![], position: 0, append_start: 0 }, es), k).0.position
            == es.len() - k,
        walk_up(add_all(HistoryModel { list: seq![], position: 0, append_start: 0 }, es), k).1.len()
            == k,
        forall|j: int|
            0 <= j < k ==> #[trigger] walk_up(
                add_all(HistoryModel { list: seq![], position: 0, append_start: 0 }, es),
                k,
            ).1[j] == Some(es[es.len() - 1 - j]),
        down_once(add_all(HistoryModel { list: seq![], position: 0, append_start: 0 }, es)) == (
            add_all(HistoryModel { list: seq![], position: 0, append_start: 0 }, es),
            None::<Seq<char>>,
        ),
{
    lemma_add_all(es);
    let m = add_all(HistoryModel { list: seq![], position: 0, append_start: 0 }, es);
    lemma_walk_up(m, k);
}

} // verus!
