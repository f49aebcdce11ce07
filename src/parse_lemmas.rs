use vstd::prelude::*;

use crate::parse::{
    empty_block, initial_scan, is_operator, place_word, scan_from, step, tokenize, BlockModel,
    ScanState,
};

verus! {

/// Scanning a concatenation is scanning its parts one after the other.
pub proof fn lemma_scan_append(st: ScanState, a: Seq<char>, b: Seq<char>)
    ensures
        scan_from(st, a + b) == scan_from(scan_from(st, a), b),
    decreases b.len(),
{
    if b.len() == 0 {
        assert(a + b =~= a);
    } else {
        lemma_scan_append(st, a, b.drop_last());
        assert((a + b).drop_last() =~= a + b.drop_last());
        assert((a + b).last() == b.last());
    }
}

proof fn lemma_scan_one(st: ScanState, c: char)
    ensures
        scan_from(st, seq![c]) == step(st, c),
{
    assert(seq![c].drop_last() =~= Seq::<char>::empty());
    assert(scan_from(st, Seq::<char>::empty()) == st);
    assert(seq![c].last() == c);
}

proof fn lemma_scan_front(st: ScanState, c: char, rest: Seq<char>)
    ensures
        scan_from(st, seq![c] + rest) == scan_from(step(st, c), rest),
{
    lemma_scan_append(st, seq![c], rest);
    lemma_scan_one(st, c);
}

/// The blocks already finished are all piped, the one being built is not.
pub open spec fn pipe_flags_ok(st: ScanState) -> bool {
    &&& forall|i: int| 0 <= i < st.blocks.len() ==> (#[trigger] st.blocks[i]).piped
    &&& !st.cur.piped
}

proof fn lemma_step_keeps_pipe_flags(st: ScanState, c: char)
    requires
        pipe_flags_ok(st),
    ensures
        pipe_flags_ok(step(st, c)),
{
    let cleared = ScanState { escape: false, ..st };
    if c == ' ' && !(st.single || st.double || st.escape) && st.word.len() > 0 {
        let n = place_word(cleared);
        assert forall|i: int| 0 <= i < n.blocks.len() implies (#[trigger] n.blocks[i]).piped by {
            if i < st.blocks.len() {
                assert(n.blocks[i] == st.blocks[i]);
            }
        }
    }
}

proof fn lemma_scan_keeps_pipe_flags(s: Seq<char>)
    ensures
        pipe_flags_ok(scan_from(initial_scan(), s)),
    decreases s.len(),
{
    if s.len() > 0 {
        lemma_scan_keeps_pipe_flags(s.drop_last());
        lemma_step_keeps_pipe_flags(scan_from(initial_scan(), s.drop_last()), s.last());
    }
}

/// In the blocks of any line, exactly the blocks before the last feed their
/// output to the next one.
pub proof fn lemma_pipeline_flags(s: Seq<char>)
    ensures
        forall|i: int|
            0 <= i < tokenize(s).len() ==> (#[trigger] tokenize(s)[i]).piped == (i < tokenize(
                s,
            ).len() - 1),
{
    let st = scan_from(initial_scan(), s);
    lemma_scan_keeps_pipe_flags(s);
    let last = if st.word.len() > 0 {
        place_word(st)
    } else {
        st
    };
    if st.word.len() > 0 {
        assert(pipe_flags_ok(last)) by {
            assert forall|i: int| 0 <= i < last.blocks.len() implies (
            #[trigger] last.blocks[i]).piped by {
                if i < st.blocks.len() {
                    assert(last.blocks[i] == st.blocks[i]);
                }
            }
        }
    }
    let r = tokenize(s);
    assert forall|i: int| 0 <= i < r.len() implies (#[trigger] r[i]).piped == (i < r.len() - 1) by {
        if i < r.len() - 1 {
            assert(r[i] == last.blocks[i]);
        }
    }
}

/// A character that needs no quoting: no space, quote or backslash.
pub open spec fn plain_char(c: char) -> bool {
    c != ' ' && c != '\'' && c != '"' && c != '\\'
}

/// A non-empty word of plain characters that is not an operator.
pub open spec fn plain_word(w: Seq<char>) -> bool {
    &&& w.len() > 0
    &&& !is_operator(w)
    &&& forall|i: int| 0 <= i < w.len() ==> plain_char(#[trigger] w[i])
}

/// The words joined with single spaces.
pub open spec fn join_words(ws: Seq<Seq<char>>) -> Seq<char>
    decreases ws.len(),
{
    if ws.len() == 0 {
        seq![]
    } else if ws.len() == 1 {
        ws[0]
    } else {
        join_words(ws.drop_last()) + seq![' '] + ws.last()
    }
}

/// The block whose command is the first word and whose arguments are the rest.
pub open spec fn block_of_words(ws: Seq<Seq<char>>) -> BlockModel {
    if ws.len() == 0 {
        empty_block()
    } else {
        BlockModel { command: ws[0], args: ws.drop_first(), ..empty_block() }
    }
}

proof fn lemma_scan_plain(st: ScanState, w: Seq<char>)
    requires
        !st.single,
        !st.double,
        !st.escape,
        forall|i: int| 0 <= i < w.len() ==> plain_char(#[trigger] w[i]),
    ensures
        scan_from(st, w) == (ScanState { word: st.word + w, ..st }),
    decreases w.len(),
{
    if w.len() == 0 {
        assert(st.word + w =~= st.word);
    } else {
        lemma_scan_plain(st, w.drop_last());
        assert(plain_char(w[w.len() - 1]));
        assert((st.word + w.drop_last()).push(w.last()) =~= st.word + w);
    }
}

proof fn lemma_scan_words(ws: Seq<Seq<char>>, k: int)
    requires
        1 <= k <= ws.len(),
        forall|i: int| 0 <= i < ws.len() ==> plain_word(#[trigger] ws[i]),
    ensures
        scan_from(initial_scan(), join_words(ws.take(k))) == (ScanState {
            blocks: seq![],
            cur: block_of_words(ws.take(k - 1)),
            word: ws[k - 1],
            ..initial_scan()
        }),
    decreases k,
{
    let init = initial_scan();
    if k == 1 {
        assert(ws.take(1).len() == 1);
        assert(join_words(ws.take(1)) == ws[0]);
        assert(plain_word(ws[0]));
        lemma_scan_plain(init, ws[0]);
        assert(init.word + ws[0] =~= ws[0]);
        assert(block_of_words(ws.take(0)) == empty_block());
    } else {
        lemma_scan_words(ws, k - 1);
        let prev = ws.take(k - 1);
        assert(ws.take(k).drop_last() =~= prev);
        assert(ws.take(k).last() == ws[k - 1]);
        let sk = scan_from(init, join_words(prev));
        lemma_scan_append(init, join_words(prev) + seq![' '], ws[k - 1]);
        lemma_scan_append(init, join_words(prev), seq![' ']);
        lemma_scan_one(sk, ' ');
        assert(plain_word(ws[k - 2]));
        let placed = step(sk, ' ');
        assert(placed.cur == block_of_words(prev)) by {
            if k - 1 == 1 {
                assert(block_of_words(ws.take(1)).command == ws[0]);
                assert(ws.take(1).drop_first() =~= seq![]);
            } else {
                assert(ws.take(k - 2).len() > 0);
                assert(plain_word(ws[0]));
                assert(ws.take(k - 2).drop_first().push(ws[k - 2]) =~= prev.drop_first());
            }
        }
        assert(plain_word(ws[k - 1]));
        lemma_scan_plain(placed, ws[k - 1]);
        assert(placed.word + ws[k - 1] =~= ws[k - 1]);
    }
}

/// A line of plain words separated by single spaces is one block: the first
/// word is its command, the others its arguments, and joining command and
/// arguments with single spaces gives the line back.
pub proof fn lemma_plain_round_trip(ws: Seq<Seq<char>>)
    requires
        ws.len() > 0,
        forall|i: int| 0 <= i < ws.len() ==> plain_word(#[trigger] ws[i]),
    ensures
        tokenize(join_words(ws)) == seq![block_of_words(ws)],
        join_words(seq![tokenize(join_words(ws))[0].command] + tokenize(join_words(ws))[0].args)
            == join_words(ws),
{
    let n = ws.len() as int;
    assert(ws.take(n) =~= ws);
    lemma_scan_words(ws, n);
    let st = scan_from(initial_scan(), join_words(ws));
    assert(plain_word(ws[n - 1]));
    assert(plain_word(ws[0]));
    let placed = place_word(st);
    assert(placed.cur == block_of_words(ws)) by {
        if n == 1 {
            assert(ws.drop_first() =~= seq![]);
        } else {
            assert(ws.take(n - 1).drop_first().push(ws[n - 1]) =~= ws.drop_first());
        }
    }
    assert(tokenize(join_words(ws)) =~= seq![block_of_words(ws)]);
    assert(seq![ws[0]] + ws.drop_first() =~= ws);
}

proof fn lemma_scan_single_body(st: ScanState, q: Seq<char>)
    requires
        st.single,
        !st.double,
        !st.escape,
        forall|i: int| 0 <= i < q.len() ==> q[i] != '\'',
    ensures
        scan_from(st, q) == (ScanState { word: st.word + q, ..st }),
    decreases q.len(),
{
    if q.len() == 0 {
        assert(st.word + q =~= st.word);
    } else {
        lemma_scan_single_body(st, q.drop_last());
        assert(q[q.len() - 1] != '\'');
        assert((st.word + q.drop_last()).push(q.last()) =~= st.word + q);
    }
}

/// Inside single quotes every character stands for itself, backslashes and
/// double quotes included: the quoted text joins the current word unchanged.
pub proof fn lemma_single_quotes_verbatim(st: ScanState, q: Seq<char>)
    requires
        !st.single,
        !st.double,
        !st.escape,
        forall|i: int| 0 <= i < q.len() ==> q[i] != '\'',
    ensures
        scan_from(st, seq!['\''] + q + seq!['\'']) == (ScanState { word: st.word + q, ..st }),
{
    let opened = step(st, '\'');
    lemma_scan_append(st, seq!['\''] + q, seq!['\'']);
    lemma_scan_front(st, '\'', q);
    lemma_scan_single_body(opened, q);
    lemma_scan_one(scan_from(opened, q), '\'');
}

/// The characters whose leading backslash is dropped inside double quotes.
pub open spec fn double_quote_escapable(c: char) -> bool {
    c == '$' || c == '`' || c == '"' || c == '\\' || c == '\n'
}

/// Text that can stand between double quotes: no bare `"`, and no backslash
/// that would escape the closing quote.
pub open spec fn double_quote_body(q: Seq<char>) -> bool
    decreases q.len(),
{
    if q.len() == 0 {
        true
    } else if q[0] == '"' {
        false
    } else if q[0] == '\\' {
        q.len() >= 2 && double_quote_body(q.subrange(2, q.len() as int))
    } else {
        double_quote_body(q.drop_first())
    }
}

/// What double-quoted text stands for: each backslash before an escapable
/// character is removed, everything else is kept.
pub open spec fn double_quote_value(q: Seq<char>) -> Seq<char>
    decreases q.len(),
{
    if q.len() == 0 {
        seq![]
    } else if q[0] == '\\' && q.len() >= 2 {
        if double_quote_escapable(q[1]) {
            seq![q[1]] + double_quote_value(q.subrange(2, q.len() as int))
        } else {
            seq![q[0], q[1]] + double_quote_value(q.subrange(2, q.len() as int))
        }
    } else {
        seq![q[0]] + double_quote_value(q.drop_first())
    }
}

proof fn lemma_scan_double_body(st: ScanState, q: Seq<char>)
    requires
        st.double,
        !st.single,
        !st.escape,
        double_quote_body(q),
    ensures
        scan_from(st, q) == (ScanState { word: st.word + double_quote_value(q), ..st }),
    decreases q.len(),
{
    if q.len() == 0 {
        assert(st.word + double_quote_value(q) =~= st.word);
    } else if q[0] == '\\' {
        let rest = q.subrange(2, q.len() as int);
        assert(q =~= seq![q[0]] + (seq![q[1]] + rest));
        lemma_scan_front(st, q[0], seq![q[1]] + rest);
        let after_first = step(st, q[0]);
        lemma_scan_front(after_first, q[1], rest);
        let after_pair = step(after_first, q[1]);
        let v = if double_quote_escapable(q[1]) {
            seq![q[1]]
        } else {
            seq![q[0], q[1]]
        };
        assert(after_pair == ScanState { word: st.word + v, ..st }) by {
            assert(after_first.word == st.word.push('\\'));
            assert(st.word.push('\\').drop_last() =~= st.word);
            if double_quote_escapable(q[1]) {
                assert(st.word.push('\\').drop_last().push(q[1]) =~= st.word + v);
            } else {
                assert(st.word.push('\\').push(q[1]) =~= st.word + v);
            }
        }
        lemma_scan_double_body(after_pair, rest);
        assert(st.word + v + double_quote_value(rest) =~= st.word + double_quote_value(q));
    } else {
        let rest = q.drop_first();
        assert(q =~= seq![q[0]] + rest);
        lemma_scan_front(st, q[0], rest);
        let after_first = step(st, q[0]);
        assert(after_first == ScanState { word: st.word.push(q[0]), ..st });
        lemma_scan_double_body(after_first, rest);
        assert(st.word.push(q[0]) + double_quote_value(rest) =~= st.word + double_quote_value(q));
    }
}

/// Inside double quotes every character stands for itself, except that a
/// backslash before `$`, a backtick, `"`, `\` or a newline is dropped.
pub proof fn lemma_double_quotes_escapes(st: ScanState, q: Seq<char>)
    requires
        !st.single,
        !st.double,
        !st.escape,
        double_quote_body(q),
    ensures
        scan_from(st, seq!['"'] + q + seq!['"']) == (ScanState {
            word: st.word + double_quote_value(q),
            ..st
        }),
{
    let opened = step(st, '"');
    lemma_scan_append(st, seq!['"'] + q, seq!['"']);
    lemma_scan_front(st, '"', q);
    lemma_scan_double_body(opened, q);
    lemma_scan_one(scan_from(opened, q), '"');
}

} // verus!
