use vstd::prelude::*;

use crate::parse::strings_view;
use crate::text::{chars_of, has_prefix, push_char, push_text};

verus! {

/// A file found in a directory of the search path, with its permission bits.
pub struct PathEntry {
    pub name: String,
    pub mode: u32,
}

pub open spec fn entries_view(v: Seq<PathEntry>) -> Seq<(Seq<char>, u32)> {
    v.map_values(|e: PathEntry| (e.name@, e.mode))
}

/// The commands that the shell runs itself.
pub open spec fn builtin_names() -> Seq<Seq<char>> {
    seq!["echo"@, "exit"@, "type"@, "cd"@, "pwd"@, "history"@]
}

/// The names of the builtin commands, in their fixed order.
pub fn builtins() -> (r: Vec<String>)
    ensures
        strings_view(r@) == builtin_names(),
{
    let r = vec![
        String::from_str("echo"),
        String::from_str("exit"),
        String::from_str("type"),
        String::from_str("cd"),
        String::from_str("pwd"),
        String::from_str("history"),
    ];
    assert(strings_view(r@) =~= builtin_names());
    r
}

/// Whether a file mode grants execute permission to its owner, group or others.
pub open spec fn executable_mode(mode: u32) -> bool {
    mode & 0o111u32 != 0
}

pub fn is_executable_mode(mode: u32) -> (r: bool)
    ensures
        r == executable_mode(mode),
{
    mode & 0o111u32 != 0
}

/// The names that begin with `prefix`, in order.
pub open spec fn names_with_prefix(prefix: Seq<char>, names: Seq<Seq<char>>) -> Seq<Seq<char>>
    decreases names.len(),
{
    if names.len() == 0 {
        seq![]
    } else {
        let r = names_with_prefix(prefix, names.drop_last());
        if prefix.is_prefix_of(names.last()) {
            r.push(names.last())
        } else {
            r
        }
    }
}

/// The names of the executable entries that begin with `prefix`, in order.
pub open spec fn executables_with_prefix(prefix: Seq<char>, entries: Seq<(Seq<char>, u32)>) -> Seq<
    Seq<char>,
>
    decreases entries.len(),
{
    if entries.len() == 0 {
        seq![]
    } else {
        let r = executables_with_prefix(prefix, entries.drop_last());
        if prefix.is_prefix_of(entries.last().0) && executable_mode(entries.last().1) {
            r.push(entries.last().0)
        } else {
            r
        }
    }
}

/// The texts in order of first occurrence, each once.
pub open spec fn dedup(s: Seq<Seq<char>>) -> Seq<Seq<char>>
    decreases s.len(),
{
    if s.len() == 0 {
        seq![]
    } else {
        let d = dedup(s.drop_last());
        if d.contains(s.last()) {
            d
        } else {
            d.push(s.last())
        }
    }
}

/// What a partial command can complete to: the matching builtins, then the
/// matching executables of the search path in the order given, without
/// repeats.
pub open spec fn candidates(prefix: Seq<char>, entries: Seq<(Seq<char>, u32)>) -> Seq<Seq<char>> {
    dedup(names_with_prefix(prefix, builtin_names()) + executables_with_prefix(prefix, entries))
}

fn contains_text(v: &Vec<String>, x: &String) -> (r: bool)
    ensures
        r == strings_view(v@).contains(x@),
{
    let mut i: usize = 0;
    while i < v.len()
        invariant
            i <= v.len(),
            forall|j: int| 0 <= j < i ==> v@[j]@ != x@,
        decreases v.len() - i,
    {
        if v[i] == *x {
            assert(strings_view(v@)[i as int] == x@);
            return true;
        }
        i = i + 1;
    }
    assert forall|j: int| 0 <= j < strings_view(v@).len() implies strings_view(v@)[j] != x@ by {
        assert(v@[j]@ != x@);
    }
    false
}

fn push_unique(acc: &mut Vec<String>, x: String)
    ensures
        strings_view(final(acc)@) == (if strings_view(old(acc)@).contains(x@) {
            strings_view(old(acc)@)
        } else {
            strings_view(old(acc)@).push(x@)
        }),
{
    if !contains_text(acc, &x) {
        let ghost before = acc@;
        let ghost xv = x@;
        acc.push(x);
        assert(strings_view(acc@) =~= strings_view(before).push(xv));
    }
}

/// The completions of `prefix`: the builtins that begin with it, then the
/// executable files of the search path that do, each name once.
pub fn completion_candidates(prefix: &str, entries: &Vec<PathEntry>) -> (r: Vec<String>)
    ensures
        strings_view(r@) == candidates(prefix@, entries_view(entries@)),
{
    let names = builtins();
    let mut acc: Vec<String> = Vec::new();
    let mut i: usize = 0;
    assert(strings_view(acc@) =~= dedup(names_with_prefix(prefix@, builtin_names().take(0))));
    while i < names.len()
        invariant
            i <= names.len(),
            strings_view(names@) == builtin_names(),
            strings_view(acc@) == dedup(names_with_prefix(prefix@, builtin_names().take(i as int))),
        decreases names.len() - i,
    {
        let ghost raw = names_with_prefix(prefix@, builtin_names().take(i as int));
        assert(builtin_names().take(i + 1).drop_last() =~= builtin_names().take(i as int));
        assert(builtin_names()[i as int] == names@[i as int]@);
        if has_prefix(names[i].as_str(), prefix) {
            assert(raw.push(names@[i as int]@).drop_last() =~= raw);
            push_unique(&mut acc, names[i].clone());
        }
        i = i + 1;
    }
    assert(builtin_names().take(names.len() as int) =~= builtin_names());
    let ghost head = names_with_prefix(prefix@, builtin_names());
    let mut j: usize = 0;
    assert(head + executables_with_prefix(prefix@, entries_view(entries@).take(0)) =~= head);
    while j < entries.len()
        invariant
            j <= entries.len(),
            head == names_with_prefix(prefix@, builtin_names()),
            strings_view(acc@) == dedup(
                head + executables_with_prefix(prefix@, entries_view(entries@).take(j as int)),
            ),
        decreases entries.len() - j,
    {
        let ghost ev = entries_view(entries@);
        let ghost tail = executables_with_prefix(prefix@, ev.take(j as int));
        assert(ev.take(j + 1).drop_last() =~= ev.take(j as int));
        assert(ev.take(j + 1).last() == (entries@[j as int].name@, entries@[j as int].mode));
        let e = &entries[j];
        if has_prefix(e.name.as_str(), prefix) && is_executable_mode(e.mode) {
            assert((head + tail.push(e.name@)).drop_last() =~= head + tail);
            assert(head + tail.push(e.name@) =~= (head + tail).push(e.name@));
            push_unique(&mut acc, e.name.clone());
        }
        j = j + 1;
    }
    assert(entries_view(entries@).take(entries.len() as int) =~= entries_view(entries@));
    acc
}

/// Every text has a character at `pos`, the same in all of them.
pub open spec fn shared_at(ms: Seq<Seq<char>>, pos: int) -> bool {
    &&& ms.len() > 0
    &&& forall|j: int|
        0 <= j < ms.len() ==> pos < (#[trigger] ms[j]).len() && ms[j][pos] == ms[0][pos]
}

/// All the texts agree on every position in `start..end`.
pub open spec fn agree_on(ms: Seq<Seq<char>>, start: int, end: int) -> bool {
    forall|j: int, p: int|
        0 <= j < ms.len() && start <= p < end ==> p < ms[j].len() && (#[trigger] ms[j][p]) == ms[0][p]
}

/// `e` is the longest run of characters that all of `ms` share from `start` on.
pub open spec fn is_longest_common_extension(ms: Seq<Seq<char>>, start: int, e: Seq<char>) -> bool {
    &&& agree_on(ms, start, start + e.len())
    &&& forall|t: int| 0 <= t < e.len() ==> (#[trigger] e[t]) == ms[0][start + t]
    &&& !shared_at(ms, start + e.len())
}

/// The characters that all the texts share from position `start_from` on.
pub fn find_longest_common_prefix(potential_matches: &Vec<String>, start_from: usize) -> (r: String)
    requires
        potential_matches.len() > 0,
    ensures
        is_longest_common_extension(strings_view(potential_matches@), start_from as int, r@),
{
    let ghost ms = strings_view(potential_matches@);
    let mut cs: Vec<Vec<char>> = Vec::new();
    let mut k: usize = 0;
    while k < potential_matches.len()
        invariant
            k <= potential_matches.len(),
            ms == strings_view(potential_matches@),
            cs.len() == k,
            forall|j: int| 0 <= j < k ==> (#[trigger] cs@[j])@ == ms[j],
        decreases potential_matches.len() - k,
    {
        cs.push(chars_of(potential_matches[k].as_str()));
        k = k + 1;
    }
    let mut r = String::new();
    let mut pos: usize = start_from;
    loop
        invariant
            ms == strings_view(potential_matches@),
            ms.len() > 0,
            cs.len() == ms.len(),
            forall|j: int| 0 <= j < cs.len() ==> (#[trigger] cs@[j])@ == ms[j],
            pos == start_from + r@.len(),
            agree_on(ms, start_from as int, pos as int),
            forall|t: int| 0 <= t < r@.len() ==> (#[trigger] r@[t]) == ms[0][start_from + t],
        decreases cs@[0]@.len() - pos,
    {
        if pos >= cs[0].len() {
            assert(!shared_at(ms, pos as int)) by {
                if shared_at(ms, pos as int) {
                    assert(pos < ms[0].len());
                }
            }
            return r;
        }
        let c = cs[0][pos];
        let mut j: usize = 1;
        while j < cs.len()
            invariant
                1 <= j <= cs.len(),
                ms == strings_view(potential_matches@),
                cs.len() == ms.len(),
                ms.len() > 0,
                forall|i: int| 0 <= i < cs.len() ==> (#[trigger] cs@[i])@ == ms[i],
                pos < ms[0].len(),
                pos == start_from + r@.len(),
                agree_on(ms, start_from as int, pos as int),
                forall|t: int| 0 <= t < r@.len() ==> (#[trigger] r@[t]) == ms[0][start_from + t],
                c == ms[0][pos as int],
                forall|i: int| 0 <= i < j ==> pos < (#[trigger] ms[i]).len() && ms[i][pos as int] == c,
            decreases cs.len() - j,
        {
            if pos >= cs[j].len() || cs[j][pos] != c {
                assert(!shared_at(ms, pos as int)) by {
                    assert(!(pos < ms[j as int].len() && ms[j as int][pos as int] == ms[0][pos as int]));
                }
                return r;
            }
            j = j + 1;
        }
        let ghost before = r@;
        push_char(&mut r, c);
        assert(agree_on(ms, start_from as int, pos + 1)) by {
            assert forall|i: int, p: int|
                0 <= i < ms.len() && start_from <= p < pos + 1 implies p < ms[i].len()
                && (#[trigger] ms[i][p]) == ms[0][p] by {
                if p == pos {
                    assert(pos < ms[i].len() && ms[i][pos as int] == c);
                }
            }
        }
        assert forall|t: int| 0 <= t < r@.len() implies (#[trigger] r@[t]) == ms[0][start_from + t] by {
            if t < before.len() {
                assert(r@[t] == before[t]);
            }
        }
        pos = pos + 1;
    }
}

proof fn lemma_names_with_prefix(prefix: Seq<char>, names: Seq<Seq<char>>)
    ensures
        forall|i: int|
            0 <= i < names_with_prefix(prefix, names).len() ==> prefix.is_prefix_of(
                #[trigger] names_with_prefix(prefix, names)[i],
            ),
    decreases names.len(),
{
    if names.len() > 0 {
        lemma_names_with_prefix(prefix, names.drop_last());
        let r = names_with_prefix(prefix, names.drop_last());
        assert forall|i: int| 0 <= i < names_with_prefix(prefix, names).len() implies prefix.is_prefix_of(
            #[trigger] names_with_prefix(prefix, names)[i],
        ) by {
            if i < r.len() {
                assert(names_with_prefix(prefix, names)[i] == r[i]);
            }
        }
    }
}

proof fn lemma_executables_with_prefix(prefix: Seq<char>, entries: Seq<(Seq<char>, u32)>)
    ensures
        forall|i: int|
            0 <= i < executables_with_prefix(prefix, entries).len() ==> prefix.is_prefix_of(
                #[trigger] executables_with_prefix(prefix, entries)[i],
            ),
    decreases entries.len(),
{
    if entries.len() > 0 {
        lemma_executables_with_prefix(prefix, entries.drop_last());
        let r = executables_with_prefix(prefix, entries.drop_last());
        assert forall|i: int|
            0 <= i < executables_with_prefix(prefix, entries).len() implies prefix.is_prefix_of(
            #[trigger] executables_with_prefix(prefix, entries)[i],
        ) by {
            if i < r.len() {
                assert(executables_with_prefix(prefix, entries)[i] == r[i]);
            }
        }
    }
}

proof fn lemma_dedup_from(s: Seq<Seq<char>>)
    ensures
        forall|i: int| 0 <= i < dedup(s).len() ==> s.contains(#[trigger] dedup(s)[i]),
    decreases s.len(),
{
    if s.len() > 0 {
        lemma_dedup_from(s.drop_last());
        let d = dedup(s.drop_last());
        assert forall|i: int| 0 <= i < dedup(s).len() implies s.contains(#[trigger] dedup(s)[i]) by {
            if i < d.len() {
                assert(s.drop_last().contains(d[i]));
                let k = choose|k: int| 0 <= k < s.drop_last().len() && s.drop_last()[k] == d[i];
                assert(s[k] == d[i]);
            } else {
                assert(s[s.len() - 1] == dedup(s)[i]);
            }
        }
    }
}

/// Every candidate begins with the text it completes.
pub proof fn lemma_candidates_extend_prefix(prefix: Seq<char>, entries: Seq<(Seq<char>, u32)>)
    ensures
        forall|i: int|
            0 <= i < candidates(prefix, entries).len() ==> prefix.is_prefix_of(
                #[trigger] candidates(prefix, entries)[i],
            ),
{
    let a = names_with_prefix(prefix, builtin_names());
    let b = executables_with_prefix(prefix, entries);
    lemma_names_with_prefix(prefix, builtin_names());
    lemma_executables_with_prefix(prefix, entries);
    lemma_dedup_from(a + b);
    assert forall|i: int| 0 <= i < candidates(prefix, entries).len() implies prefix.is_prefix_of(
        #[trigger] candidates(prefix, entries)[i],
    ) by {
        let x = candidates(prefix, entries)[i];
        let k = choose|k: int| 0 <= k < (a + b).len() && (a + b)[k] == x;
        if k < a.len() {
            assert(a[k] == x);
        } else {
            assert(b[k - a.len()] == x);
        }
    }
}

/// With several candidates, completion extends the input exactly when all
/// of them share the character that follows it.
pub proof fn lemma_extends_iff_shared(c: Seq<Seq<char>>, start: int, ext: Seq<char>)
    requires
        c.len() >= 2,
        is_longest_common_extension(c, start, ext),
    ensures
        ext.len() > 0 <==> shared_at(c, start),
{
    if ext.len() > 0 {
        assert forall|j: int| 0 <= j < c.len() implies start < (#[trigger] c[j]).len() && c[j][start]
            == c[0][start] by {
            assert(c[j][start] == c[0][start]);
        }
    }
}

/// Whether `a` comes no later than `b` when texts are ordered
/// lexicographically by code point.
pub open spec fn text_le(a: Seq<char>, b: Seq<char>) -> bool
    decreases a.len(),
{
    if a.len() == 0 {
        true
    } else if b.len() == 0 {
        false
    } else if a[0] != b[0] {
        (a[0] as u32) < (b[0] as u32)
    } else {
        text_le(a.drop_first(), b.drop_first())
    }
}

pub open spec fn sorted_texts(v: Seq<Seq<char>>) -> bool {
    forall|i: int, j: int| 0 <= i < j < v.len() ==> text_le(#[trigger] v[i], #[trigger] v[j])
}

/// Relies on `slice::sort` over `String`: it permutes the items into
/// ascending order of `String`'s `Ord`, which compares the UTF-8 bytes and so
/// orders texts lexicographically by code point.
#[verifier::external_body]
fn sort_strings(v: &mut Vec<String>)
    ensures
        strings_view(final(v)@).to_multiset() == strings_view(old(v)@).to_multiset(),
        sorted_texts(strings_view(final(v)@)),
{
    v.sort()
}

/// What a press of TAB did to the current input.
pub enum Completion {
    /// Nothing matches: the input is left as it is.
    NoMatch,
    /// One command matches: the text appended to complete it, with a space.
    Unique(String),
    /// Several match: the text appended because all of them share it, and
    /// the candidates in sorted order, for listing.
    Ambiguous(String, Vec<String>),
}

/// `r` is what completing `input` against the candidates `c` gives, and
/// `after` the input that results.
pub open spec fn completion_meets(
    c: Seq<Seq<char>>,
    input: Seq<char>,
    r: Completion,
    after: Seq<char>,
) -> bool {
    match r {
        Completion::NoMatch => c.len() == 0 && after == input,
        Completion::Unique(t) => {
            &&& c.len() == 1
            &&& t@ == c[0].skip(input.len() as int) + seq![' ']
            &&& after == input + t@
            &&& after == c[0] + seq![' ']
        },
        Completion::Ambiguous(ext, list) => {
            &&& c.len() >= 2
            &&& is_longest_common_extension(c, input.len() as int, ext@)
            &&& after == input + ext@
            &&& strings_view(list@).to_multiset() == c.to_multiset()
            &&& sorted_texts(strings_view(list@))
        },
    }
}

/// Completes the current input against the builtins and the executables of
/// the search path: a unique match is filled in with a trailing space;
/// several matches extend the input by what they all share and come back
/// sorted for listing.
pub fn autocomplete(current_input: &mut String, entries: &Vec<PathEntry>) -> (r: Completion)
    ensures
        completion_meets(
            candidates(old(current_input)@, entries_view(entries@)),
            old(current_input)@,
            r,
            final(current_input)@,
        ),
{
    let mut found = completion_candidates(current_input.as_str(), entries);
    let ghost c = candidates(old(current_input)@, entries_view(entries@));
    let input_len = chars_of(current_input.as_str()).len();
    proof {
        lemma_candidates_extend_prefix(old(current_input)@, entries_view(entries@));
    }
    if found.len() == 0 {
        return Completion::NoMatch;
    }
    if found.len() == 1 {
        let name = chars_of(found[0].as_str());
        assert(c[0] == name@);
        assert(old(current_input)@.is_prefix_of(c[0]));
        let mut added = String::new();
        let mut i: usize = input_len;
        while i < name.len()
            invariant
                input_len <= i <= name.len(),
                input_len == old(current_input)@.len(),
                added@ == name@.subrange(input_len as int, i as int),
            decreases name.len() - i,
        {
            push_char(&mut added, name[i]);
            assert(name@.subrange(input_len as int, i + 1) =~= name@.subrange(
                input_len as int,
                i as int,
            ).push(name@[i as int]));
            i = i + 1;
        }
        push_char(&mut added, ' ');
        push_text(current_input, added.as_str());
        assert(added@ =~= c[0].skip(input_len as int) + seq![' ']);
        assert(final(current_input)@ =~= c[0] + seq![' ']) by {
            assert(c[0] =~= old(current_input)@ + c[0].skip(input_len as int));
        }
        return Completion::Unique(added);
    }
    let ext = find_longest_common_prefix(&found, input_len);
    push_text(current_input, ext.as_str());
    sort_strings(&mut found);
    Completion::Ambiguous(ext, found)
}

proof fn lemma_extension_unique(ms: Seq<Seq<char>>, start: int, e1: Seq<char>, e2: Seq<char>)
    requires
        ms.len() > 0,
        is_longest_common_extension(ms, start, e1),
        is_longest_common_extension(ms, start, e2),
    ensures
        e1 == e2,
{
    if e1.len() < e2.len() {
        let p = start + e1.len();
        assert forall|j: int| 0 <= j < ms.len() implies p < (#[trigger] ms[j]).len() && ms[j][p]
            == ms[0][p] by {
            assert(ms[j][p] == ms[0][p]);
        }
    }
    if e2.len() < e1.len() {
        let p = start + e2.len();
        assert forall|j: int| 0 <= j < ms.len() implies p < (#[trigger] ms[j]).len() && ms[j][p]
            == ms[0][p] by {
            assert(ms[j][p] == ms[0][p]);
        }
    }
    assert forall|t: int| 0 <= t < e1.len() implies e1[t] == e2[t] by {
        assert(e1[t] == ms[0][start + t]);
        assert(e2[t] == ms[0][start + t]);
    }
    assert(e1 =~= e2);
}

proof fn lemma_text_le_antisymmetric(a: Seq<char>, b: Seq<char>)
    requires
        text_le(a, b),
        text_le(b, a),
    ensures
        a == b,
    decreases a.len(),
{
    if a.len() == 0 {
        assert(b.len() == 0);
        assert(a =~= b);
    } else {
        assert(b.len() > 0);
        assert(a[0] == b[0]);
        lemma_text_le_antisymmetric(a.drop_first(), b.drop_first());
        assert forall|i: int| 0 <= i < a.len() implies a[i] == b[i] by {
            if i > 0 {
                assert(a[i] == a.drop_first()[i - 1]);
                assert(b[i] == b.drop_first()[i - 1]);
            }
        }
        assert(a =~= b);
    }
}

proof fn lemma_sorted_permutation_unique(s1: Seq<Seq<char>>, s2: Seq<Seq<char>>)
    requires
        sorted_texts(s1),
        sorted_texts(s2),
        s1.to_multiset() == s2.to_multiset(),
    ensures
        s1 == s2,
    decreases s1.len(),
{
    s1.to_multiset_ensures();
    s2.to_multiset_ensures();
    if s1.len() == 0 {
        assert(s2.len() == 0);
        assert(s1 =~= s2);
    } else {
        assert(s1.to_multiset().count(s1[0]) > 0);
        assert(s2.contains(s1[0]));
        let k = choose|k: int| 0 <= k < s2.len() && s2[k] == s1[0];
        assert(s2.to_multiset().count(s2[0]) > 0);
        assert(s1.contains(s2[0]));
        let l = choose|l: int| 0 <= l < s1.len() && s1[l] == s2[0];
        if k > 0 {
            assert(text_le(s2[0], s2[k]));
        } else {
            assert(s2[0] == s1[0]);
        }
        if l > 0 {
            assert(text_le(s1[0], s1[l]));
        }
        if s1[0] != s2[0] {
            lemma_text_le_antisymmetric(s1[0], s2[0]);
        }
        assert(s1.remove(0) =~= s1.drop_first());
        assert(s2.remove(0) =~= s2.drop_first());
        assert(s1.remove(0).to_multiset() == s1.to_multiset().remove(s1[0]));
        assert(s2.remove(0).to_multiset() == s2.to_multiset().remove(s2[0]));
        assert(sorted_texts(s1.drop_first())) by {
            assert forall|i: int, j: int| 0 <= i < j < s1.drop_first().len() implies text_le(
                #[trigger] s1.drop_first()[i],
                #[trigger] s1.drop_first()[j],
            ) by {
                assert(text_le(s1[i + 1], s1[j + 1]));
            }
        }
        assert(sorted_texts(s2.drop_first())) by {
            assert forall|i: int, j: int| 0 <= i < j < s2.drop_first().len() implies text_le(
                #[trigger] s2.drop_first()[i],
                #[trigger] s2.drop_first()[j],
            ) by {
                assert(text_le(s2[i + 1], s2[j + 1]));
            }
        }
        lemma_sorted_permutation_unique(s1.drop_first(), s2.drop_first());
        assert forall|i: int| 0 <= i < s1.len() implies s1[i] == s2[i] by {
            if i > 0 {
                assert(s1[i] == s1.drop_first()[i - 1]);
                assert(s2[i] == s2.drop_first()[i - 1]);
            }
        }
        assert(s1 =~= s2);
    }
}

pub ghost enum CompletionModel {
    NoMatch,
    Unique(Seq<char>),
    Ambiguous(Seq<char>, Seq<Seq<char>>),
}

impl View for Completion {
    type V = CompletionModel;

    open spec fn view(&self) -> CompletionModel {
        match self {
            Completion::NoMatch => CompletionModel::NoMatch,
            Completion::Unique(t) => CompletionModel::Unique(t@),
            Completion::Ambiguous(e, l) => CompletionModel::Ambiguous(e@, strings_view(l@)),
        }
    }
}

/// Completion is a function of the input and of the search path's entries:
/// two completions of the same input against the same entries leave the same
/// input, append the same text and list the same candidates in the same order.
pub proof fn lemma_completion_deterministic(
    input: Seq<char>,
    entries: Seq<(Seq<char>, u32)>,
    r1: Completion,
    after1: Seq<char>,
    r2: Completion,
    after2: Seq<char>,
)
    requires
        completion_meets(candidates(input, entries), input, r1, after1),
        completion_meets(candidates(input, entries), input, r2, after2),
    ensures
        after1 == after2,
        r1@ == r2@,
{
    let c = candidates(input, entries);
    match r1 {
        Completion::Ambiguous(e1, l1) => {
            match r2 {
                Completion::Ambiguous(e2, l2) => {
                    lemma_extension_unique(c, input.len() as int, e1@, e2@);
                    lemma_sorted_permutation_unique(strings_view(l1@), strings_view(l2@));
                },
                _ => {},
            }
        },
        _ => {},
    }
}

} // verus!
