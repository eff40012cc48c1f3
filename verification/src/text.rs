//! Character-sequence helpers shared by the journal, taste and web modules.
//!
//! Text is modelled as `Seq<char>`; Rust orders strings by their UTF-8 bytes,
//! which is the same order as comparing code points one by one.
use vstd::prelude::*;

verus! {

/// The characters of `s`, in order.
pub fn chars_of(s: &str) -> (out: Vec<char>)
    ensures
        out@ == s@,
{
    let mut out: Vec<char> = Vec::new();
    for c in it: s.chars()
        invariant
            out@ == it.seq().take(it.index() as int),
            it.seq() == s@,
    {
        out.push(c);
    }
    out
}

/// Collects characters into an owned `String` (`FromIterator<char> for String`).
#[verifier::external_body]
pub(crate) fn string_from_chars(chars: &[char]) -> (s: String)
    ensures
        s@ == chars@,
{
    chars.iter().collect()
}

/// Optional text as optional characters.
pub open spec fn opt_view(o: Option<String>) -> Option<Seq<char>> {
    match o {
        Some(s) => Some(s@),
        None => None,
    }
}

/// Copies a string slice into an owned `String`.
pub fn owned(s: &str) -> (out: String)
    ensures
        out@ == s@,
{
    s.to_owned()
}

/// Appends all of `extra` to `out`.
pub fn push_all(out: &mut Vec<char>, extra: &[char])
    ensures
        final(out)@ == old(out)@ + extra@,
{
    let mut i: usize = 0;
    while i < extra.len()
        invariant
            i <= extra.len(),
            out@ == old(out)@ + extra@.take(i as int),
        decreases extra.len() - i,
    {
        out.push(extra[i]);
        i = i + 1;
        assert(extra@.take(i as int) =~= extra@.take((i - 1) as int).push(extra@[i - 1]));
    }
    assert(extra@.take(extra.len() as int) =~= extra@);
}

/// Appends the characters of `extra` to `out`.
pub fn push_str(out: &mut Vec<char>, extra: &str)
    ensures
        final(out)@ == old(out)@ + extra@,
{
    let chars = chars_of(extra);
    push_all(out, chars.as_slice());
}

// ---------------------------------------------------------------------------
// Equality and order
// ---------------------------------------------------------------------------
/// Lexicographic strict order on code points (the order of `str::cmp`).
pub open spec fn seq_lt(a: Seq<char>, b: Seq<char>) -> bool {
    exists|k: int|
        #![trigger a.take(k), b.take(k)]
        0 <= k <= a.len() && k <= b.len() && a.take(k) =~= b.take(k) && ((k == a.len() && k
            < b.len()) || (k < a.len() && k < b.len() && (a[k] as u32) < (b[k] as u32)))
}

/// Index of the first position where `a` and `b` differ (or the shorter length).
pub open spec fn first_difference(a: Seq<char>, b: Seq<char>, k: int) -> bool {
    &&& 0 <= k <= a.len()
    &&& k <= b.len()
    &&& forall|j: int| 0 <= j < k ==> a[j] == b[j]
    &&& (k < a.len() && k < b.len()) ==> a[k] != b[k]
}

pub proof fn lemma_seq_lt_at_difference(a: Seq<char>, b: Seq<char>, k: int)
    requires
        first_difference(a, b, k),
    ensures
        seq_lt(a, b) == ((k == a.len() && k < b.len()) || (k < a.len() && k < b.len() && (
        a[k] as u32) < (b[k] as u32))),
        seq_lt(b, a) == ((k == b.len() && k < a.len()) || (k < a.len() && k < b.len() && (
        b[k] as u32) < (a[k] as u32))),
        (a == b) == (k == a.len() && k == b.len()),
{
    assert(a.take(k) =~= b.take(k));
    assert(b.take(k) =~= a.take(k));
    if seq_lt(a, b) {
        let j = choose|j: int|
            #![trigger a.take(j), b.take(j)]
            0 <= j <= a.len() && j <= b.len() && a.take(j) =~= b.take(j) && ((j == a.len() && j
                < b.len()) || (j < a.len() && j < b.len() && (a[j] as u32) < (b[j] as u32)));
        if j < k {
            assert(a[j] == b[j]);
        } else if j > k {
            assert(a.take(j)[k] == b.take(j)[k]);
        }
    }
    if seq_lt(b, a) {
        let j = choose|j: int|
            #![trigger b.take(j), a.take(j)]
            0 <= j <= b.len() && j <= a.len() && b.take(j) =~= a.take(j) && ((j == b.len() && j
                < a.len()) || (j < b.len() && j < a.len() && (b[j] as u32) < (a[j] as u32)));
        if j < k {
            assert(a[j] == b[j]);
        } else if j > k {
            assert(a.take(j)[k] == b.take(j)[k]);
        }
    }
    if k == a.len() && k == b.len() {
        assert(a =~= b);
    }
    if a == b && k < a.len() {
        assert(a[k] == b[k]);
    }
}

proof fn first_difference_from(a: Seq<char>, b: Seq<char>, i: int) -> (k: int)
    requires
        0 <= i <= a.len(),
        i <= b.len(),
        forall|j: int| 0 <= j < i ==> a[j] == b[j],
    ensures
        first_difference(a, b, k),
    decreases a.len() - i,
{
    if i < a.len() && i < b.len() && a[i] == b[i] {
        first_difference_from(a, b, i + 1)
    } else {
        i
    }
}

/// Every two sequences have a first position where they differ.
pub proof fn first_difference_index(a: Seq<char>, b: Seq<char>) -> (k: int)
    ensures
        first_difference(a, b, k),
{
    first_difference_from(a, b, 0)
}

/// `seq_lt` is a strict order that relates any two different sequences one way.
pub proof fn lemma_seq_lt_strict(a: Seq<char>, b: Seq<char>)
    ensures
        !seq_lt(a, a),
        seq_lt(a, b) ==> !seq_lt(b, a) && a != b,
        a != b ==> seq_lt(a, b) || seq_lt(b, a),
{
    let k = first_difference_index(a, b);
    lemma_seq_lt_at_difference(a, b, k);
    let j = first_difference_index(a, a);
    lemma_seq_lt_at_difference(a, a, j);
    if k < a.len() && k < b.len() {
        vstd::utf8::char_u32_cast(a[k], a[k] as u32);
        vstd::utf8::char_u32_cast(b[k], b[k] as u32);
    }
}

/// Three-way comparison of two character sequences (`Ord for str`).
pub fn chars_order(a: &[char], b: &[char]) -> (r: i8)
    ensures
        (r < 0) == seq_lt(a@, b@),
        (r == 0) == (a@ == b@),
        (r > 0) == seq_lt(b@, a@),
{
    let mut i: usize = 0;
    while i < a.len() && i < b.len() && a[i] == b[i]
        invariant
            i <= a.len(),
            i <= b.len(),
            forall|j: int| 0 <= j < i ==> a@[j] == b@[j],
        decreases a.len() - i,
    {
        i = i + 1;
    }
    proof {
        lemma_seq_lt_at_difference(a@, b@, i as int);
    }
    if i < a.len() && i < b.len() {
        proof {
            assert(a@[i as int] != b@[i as int]);
            vstd::utf8::char_u32_cast(a@[i as int], a@[i as int] as u32);
            vstd::utf8::char_u32_cast(b@[i as int], b@[i as int] as u32);
            assert((a@[i as int] as u32) != (b@[i as int] as u32));
        }
        if (a[i] as u32) < (b[i] as u32) {
            -1
        } else {
            1
        }
    } else if i < b.len() {
        -1
    } else if i < a.len() {
        1
    } else {
        0
    }
}

/// Whether two character sequences are equal.
pub fn chars_eq(a: &[char], b: &[char]) -> (r: bool)
    ensures
        r == (a@ == b@),
{
    chars_order(a, b) == 0
}

/// Whether a string slice holds exactly the characters `b`.
pub fn str_eq_chars(a: &str, b: &[char]) -> (r: bool)
    ensures
        r == (a@ == b@),
{
    let ac = chars_of(a);
    chars_eq(ac.as_slice(), b)
}

/// Whether two string slices are equal.
pub fn str_eq(a: &str, b: &str) -> (r: bool)
    ensures
        r == (a@ == b@),
{
    let ac = chars_of(a);
    let bc = chars_of(b);
    chars_eq(ac.as_slice(), bc.as_slice())
}

// ---------------------------------------------------------------------------
// Prefixes, suffixes, occurrences
// ---------------------------------------------------------------------------
pub open spec fn is_prefix(p: Seq<char>, s: Seq<char>) -> bool {
    p.len() <= s.len() && s.take(p.len() as int) == p
}

pub open spec fn is_suffix(p: Seq<char>, s: Seq<char>) -> bool {
    p.len() <= s.len() && s.skip(s.len() - p.len()) == p
}

/// `p` occurs in `s` starting at index `i`.
pub open spec fn occurs_at(s: Seq<char>, p: Seq<char>, i: int) -> bool {
    0 <= i && i + p.len() <= s.len() && s.subrange(i, i + p.len()) == p
}

/// Whether `s` contains `p` as a contiguous run.
pub open spec fn contains_run(s: Seq<char>, p: Seq<char>) -> bool {
    exists|i: int| occurs_at(s, p, i)
}

/// Whether `p` occurs in `s` at index `i` (checked by a loop).
pub fn matches_at(s: &[char], p: &[char], i: usize) -> (r: bool)
    ensures
        r == occurs_at(s@, p@, i as int),
{
    if p.len() > s.len() || i > s.len() - p.len() {
        return false;
    }
    let mut j: usize = 0;
    while j < p.len()
        invariant
            j <= p.len(),
            i + p.len() <= s.len(),
            forall|k: int| 0 <= k < j ==> s@[i + k] == p@[k],
        decreases p.len() - j,
    {
        if s[i + j] != p[j] {
            assert(s@.subrange(i as int, i + p.len())[j as int] != p@[j as int]);
            return false;
        }
        j = j + 1;
    }
    assert(s@.subrange(i as int, i + p@.len()) =~= p@);
    true
}

pub fn has_prefix(s: &[char], p: &[char]) -> (r: bool)
    ensures
        r == is_prefix(p@, s@),
{
    let r = matches_at(s, p, 0);
    proof {
        if r {
            assert(s@.take(p@.len() as int) =~= s@.subrange(0, p@.len() as int));
        }
        if is_prefix(p@, s@) {
            assert(s@.subrange(0, p@.len() as int) =~= s@.take(p@.len() as int));
        }
    }
    r
}

pub fn has_suffix(s: &[char], p: &[char]) -> (r: bool)
    ensures
        r == is_suffix(p@, s@),
{
    if p.len() > s.len() {
        return false;
    }
    let r = matches_at(s, p, s.len() - p.len());
    proof {
        assert(s@.skip(s@.len() - p@.len()) =~= s@.subrange(
            s@.len() - p@.len(),
            s@.len() - p@.len() + p@.len(),
        ));
    }
    r
}

/// The first index at which `p` occurs in `s`.
pub fn find_first(s: &[char], p: &[char]) -> (r: Option<usize>)
    ensures
        match r {
            Some(i) => occurs_at(s@, p@, i as int) && forall|j: int|
                0 <= j < i ==> !occurs_at(s@, p@, j),
            None => forall|j: int| !occurs_at(s@, p@, j),
        },
{
    if p.len() > s.len() {
        return None;
    }
    if p.len() == 0 {
        assert(s@.subrange(0, 0) =~= p@);
        return Some(0);
    }
    let last = s.len() - p.len();
    let mut i: usize = 0;
    while i <= last
        invariant
            last == s.len() - p.len(),
            0 < p.len() <= s.len(),
            forall|j: int| 0 <= j < i ==> !occurs_at(s@, p@, j),
        decreases last + 1 - i,
    {
        if matches_at(s, p, i) {
            return Some(i);
        }
        i = i + 1;
    }
    None
}

/// The last index at which `p` occurs in `s`.
pub fn find_last(s: &[char], p: &[char]) -> (r: Option<usize>)
    ensures
        match r {
            Some(i) => occurs_at(s@, p@, i as int) && forall|j: int|
                i < j ==> !occurs_at(s@, p@, j),
            None => forall|j: int| !occurs_at(s@, p@, j),
        },
{
    if p.len() > s.len() {
        return None;
    }
    if p.len() == 0 {
        assert(s@.subrange(s.len() as int, s.len() as int) =~= p@);
        return Some(s.len());
    }
    let mut i: usize = s.len() - p.len() + 1;
    while i > 0
        invariant
            i <= s.len() - p.len() + 1,
            p.len() <= s.len(),
            forall|j: int| i <= j ==> !occurs_at(s@, p@, j),
        decreases i,
    {
        if matches_at(s, p, i - 1) {
            return Some(i - 1);
        }
        i = i - 1;
    }
    None
}

/// Whether `p` occurs anywhere in `s`.
pub fn contains_chars(s: &[char], p: &[char]) -> (r: bool)
    ensures
        r == contains_run(s@, p@),
{
    match find_first(s, p) {
        Some(_) => true,
        None => false,
    }
}

/// The subrange `s[start..end]` as a new vector.
pub fn slice_chars(s: &[char], start: usize, end: usize) -> (out: Vec<char>)
    requires
        start <= end <= s.len(),
    ensures
        out@ == s@.subrange(start as int, end as int),
{
    let mut out: Vec<char> = Vec::new();
    let mut i = start;
    while i < end
        invariant
            start <= i <= end,
            end <= s.len(),
            out@ == s@.subrange(start as int, i as int),
        decreases end - i,
    {
        out.push(s[i]);
        i = i + 1;
        assert(out@ =~= s@.subrange(start as int, i as int));
    }
    out
}

// ---------------------------------------------------------------------------
// Splitting and joining
// ---------------------------------------------------------------------------
/// All pieces of `s` between occurrences of `sep` (like `str::split(sep)`).
pub open spec fn split_on(s: Seq<char>, sep: char) -> Seq<Seq<char>>
    decreases s.len(),
{
    if s.len() == 0 {
        seq![Seq::<char>::empty()]
    } else {
        let prev = split_on(s.drop_last(), sep);
        if s.last() == sep {
            prev.push(Seq::<char>::empty())
        } else {
            prev.update(prev.len() - 1, prev.last().push(s.last()))
        }
    }
}

pub proof fn lemma_split_on_nonempty(s: Seq<char>, sep: char)
    ensures
        split_on(s, sep).len() >= 1,
    decreases s.len(),
{
    if s.len() > 0 {
        lemma_split_on_nonempty(s.drop_last(), sep);
    }
}

/// The character sequences held by a vector of vectors.
pub open spec fn rows(v: Seq<Vec<char>>) -> Seq<Seq<char>> {
    v.map_values(|x: Vec<char>| x@)
}

/// Splits `s` at every `sep` (like `str::split(sep)`).
pub fn split_char(s: &[char], sep: char) -> (out: Vec<Vec<char>>)
    ensures
        rows(out@) == split_on(s@, sep),
{
    let mut done: Vec<Vec<char>> = Vec::new();
    let mut cur: Vec<char> = Vec::new();
    let mut i: usize = 0;
    while i < s.len()
        invariant
            i <= s.len(),
            rows(done@).push(cur@) == split_on(s@.take(i as int), sep),
        decreases s.len() - i,
    {
        let ghost before = rows(done@).push(cur@);
        proof {
            assert(s@.take((i + 1) as int).drop_last() =~= s@.take(i as int));
            lemma_split_on_nonempty(s@.take(i as int), sep);
        }
        if s[i] == sep {
            let ghost old_done = rows(done@);
            let piece = cur;
            done.push(piece);
            cur = Vec::new();
            assert(rows(done@) =~= old_done.push(piece@));
            assert(rows(done@).push(cur@) =~= before.push(Seq::<char>::empty()));
        } else {
            cur.push(s[i]);
            assert(rows(done@).push(cur@) =~= before.update(
                before.len() - 1,
                before.last().push(s@[i as int]),
            ));
        }
        i = i + 1;
    }
    assert(s@.take(s.len() as int) =~= s@);
    let ghost old_done = rows(done@);
    let ghost last = cur@;
    done.push(cur);
    assert(rows(done@) =~= old_done.push(last));
    done
}

/// `parts` joined with `sep` between consecutive parts (like `[&str]::join`).
pub open spec fn join(parts: Seq<Seq<char>>, sep: Seq<char>) -> Seq<char>
    decreases parts.len(),
{
    if parts.len() == 0 {
        Seq::<char>::empty()
    } else if parts.len() == 1 {
        parts[0]
    } else {
        join(parts.drop_last(), sep) + sep + parts.last()
    }
}

/// `c` occurs nowhere in `s`.
pub open spec fn free_of(s: Seq<char>, c: char) -> bool {
    forall|j: int| 0 <= j < s.len() ==> s[j] != c
}

/// No piece of a split holds the separator.
pub proof fn lemma_split_pieces_free(s: Seq<char>, sep: char)
    ensures
        forall|k: int| 0 <= k < split_on(s, sep).len() ==> free_of(#[trigger] split_on(s, sep)[k], sep),
    decreases s.len(),
{
    if s.len() > 0 {
        let prev = split_on(s.drop_last(), sep);
        lemma_split_pieces_free(s.drop_last(), sep);
        lemma_split_on_nonempty(s.drop_last(), sep);
        let now = split_on(s, sep);
        assert forall|k: int| 0 <= k < now.len() implies free_of(#[trigger] now[k], sep) by {
            if s.last() == sep {
                if k < prev.len() {
                    assert(now[k] == prev[k]);
                } else {
                    assert(now[k] =~= Seq::<char>::empty());
                }
            } else if k < prev.len() - 1 {
                assert(now[k] == prev[k]);
            } else {
                assert(free_of(prev[prev.len() - 1], sep));
                assert(now[k] == prev.last().push(s.last()));
            }
        }
    }
}

/// Joining pieces free of a one-character separator loses nothing: equal
/// joins come from equal pieces.
pub proof fn lemma_join_injective(xs: Seq<Seq<char>>, ys: Seq<Seq<char>>, sep: char)
    requires
        xs.len() >= 1,
        ys.len() >= 1,
        forall|k: int| 0 <= k < xs.len() ==> free_of(#[trigger] xs[k], sep),
        forall|k: int| 0 <= k < ys.len() ==> free_of(#[trigger] ys[k], sep),
        join(xs, seq![sep]) == join(ys, seq![sep]),
    ensures
        xs == ys,
    decreases xs.len() + ys.len(),
{
    let j = join(xs, seq![sep]);
    if xs.len() == 1 && ys.len() == 1 {
        assert(xs =~= ys);
    } else if xs.len() == 1 {
        let b = join(ys.drop_last(), seq![sep]);
        assert(j == b + seq![sep] + ys.last());
        assert(j[b.len() as int] == sep);
        assert(free_of(xs[0], sep));
    } else if ys.len() == 1 {
        let a = join(xs.drop_last(), seq![sep]);
        assert(j == a + seq![sep] + xs.last());
        assert(j[a.len() as int] == sep);
        assert(free_of(ys[0], sep));
    } else {
        let a = join(xs.drop_last(), seq![sep]);
        let b = join(ys.drop_last(), seq![sep]);
        let x = xs.last();
        let y = ys.last();
        assert(free_of(xs[xs.len() - 1], sep));
        assert(free_of(ys[ys.len() - 1], sep));
        assert(j == a + seq![sep] + x);
        assert(j == b + seq![sep] + y);
        if x.len() < y.len() {
            assert(j[a.len() as int] == sep);
            assert(j[a.len() as int] == y[a.len() - b.len() - 1]);
        } else if y.len() < x.len() {
            assert(j[b.len() as int] == sep);
            assert(j[b.len() as int] == x[b.len() - a.len() - 1]);
        }
        assert(a.len() == b.len());
        assert(a =~= j.take(a.len() as int));
        assert(b =~= j.take(b.len() as int));
        assert(x =~= j.skip(a.len() as int + 1));
        assert(y =~= j.skip(b.len() as int + 1));
        let xi = xs.drop_last();
        let yi = ys.drop_last();
        assert forall|k: int| 0 <= k < xi.len() implies free_of(#[trigger] xi[k], sep) by {
            assert(xi[k] == xs[k]);
        }
        assert forall|k: int| 0 <= k < yi.len() implies free_of(#[trigger] yi[k], sep) by {
            assert(yi[k] == ys[k]);
        }
        lemma_join_injective(xi, yi, sep);
        assert(xs =~= xi.push(x));
        assert(ys =~= yi.push(y));
    }
}

/// Joins `parts` with `sep`.
pub fn join_chars(parts: &Vec<Vec<char>>, sep: &[char]) -> (out: Vec<char>)
    ensures
        out@ == join(rows(parts@), sep@),
{
    let mut out: Vec<char> = Vec::new();
    let mut i: usize = 0;
    while i < parts.len()
        invariant
            i <= parts.len(),
            out@ == join(rows(parts@).take(i as int), sep@),
        decreases parts.len() - i,
    {
        let ghost prev = rows(parts@).take(i as int);
        if i > 0 {
            push_all(&mut out, sep);
        }
        push_all(&mut out, parts[i].as_slice());
        i = i + 1;
        proof {
            let cur = rows(parts@).take(i as int);
            assert(cur.drop_last() =~= prev);
            assert(cur.last() == parts[i - 1]@);
            if i == 1 {
                assert(out@ =~= parts[0]@);
            }
        }
    }
    assert(rows(parts@).take(parts.len() as int) =~= rows(parts@));
    out
}

// ---------------------------------------------------------------------------
// Lines
// ---------------------------------------------------------------------------
/// A line without the `\r` of a `\r\n` ending.
pub open spec fn strip_cr(line: Seq<char>) -> Seq<char> {
    if line.len() > 0 && line.last() == '\r' {
        line.drop_last()
    } else {
        line
    }
}

/// `str::lines`: pieces between newlines, a `\r` before a newline dropped, and
/// no empty piece after a final newline.
pub open spec fn lines_of(s: Seq<char>) -> Seq<Seq<char>> {
    let parts = split_on(s, '\n');
    let ended = parts.drop_last().map_values(|p: Seq<char>| strip_cr(p));
    if parts.last().len() == 0 {
        ended
    } else {
        ended.push(parts.last())
    }
}

/// The lines of `s` (`str::lines`).
pub fn lines(s: &str) -> (out: Vec<Vec<char>>)
    ensures
        rows(out@) == lines_of(s@),
{
    let cs = chars_of(s);
    let parts = split_char(cs.as_slice(), '\n');
    proof {
        lemma_split_on_nonempty(s@, '\n');
    }
    let mut out: Vec<Vec<char>> = Vec::new();
    let mut i: usize = 0;
    let n = parts.len() - 1;
    while i < n
        invariant
            i <= n,
            n == parts.len() - 1,
            rows(parts@) == split_on(s@, '\n'),
            rows(out@) == rows(parts@).drop_last().take(i as int).map_values(
                |p: Seq<char>| strip_cr(p),
            ),
        decreases n - i,
    {
        let part = &parts[i];
        let line = if part.len() > 0 && part[part.len() - 1] == '\r' {
            slice_chars(part.as_slice(), 0, part.len() - 1)
        } else {
            slice_chars(part.as_slice(), 0, part.len())
        };
        let ghost before = rows(out@);
        out.push(line);
        proof {
            assert(part@.subrange(0, part.len() as int) =~= part@);
            assert(part@.subrange(0, part.len() - 1) =~= part@.drop_last());
            assert(rows(out@) =~= before.push(line@));
            assert(rows(parts@).drop_last().take(i + 1).map_values(|p: Seq<char>| strip_cr(p))
                =~= rows(parts@).drop_last().take(i as int).map_values(
                |p: Seq<char>| strip_cr(p),
            ).push(strip_cr(part@)));
        }
        i = i + 1;
    }
    proof {
        assert(rows(parts@).drop_last().take(n as int) =~= rows(parts@).drop_last());
    }
    if parts[n].len() > 0 {
        let last = slice_chars(parts[n].as_slice(), 0, parts[n].len());
        let ghost before = rows(out@);
        out.push(last);
        proof {
            assert(parts[n as int]@.subrange(0, parts[n as int]@.len() as int) =~= parts[n as int]@);
            assert(rows(out@) =~= before.push(last@));
        }
    }
    out
}

/// Whether `l` is one of `lines`.
pub fn contains_line(lines: &Vec<Vec<char>>, l: &[char]) -> (r: bool)
    ensures
        r == rows(lines@).contains(l@),
{
    let mut i: usize = 0;
    while i < lines.len()
        invariant
            i <= lines.len(),
            forall|j: int| 0 <= j < i ==> rows(lines@)[j] != l@,
        decreases lines.len() - i,
    {
        if chars_eq(lines[i].as_slice(), l) {
            proof {
                assert(rows(lines@)[i as int] == l@);
            }
            return true;
        }
        i = i + 1;
    }
    false
}

// ---------------------------------------------------------------------------
// Whitespace
// ---------------------------------------------------------------------------
/// `char::is_whitespace`: the Unicode `White_Space` property.
pub open spec fn is_ws(c: char) -> bool {
    let u = c as u32;
    (0x9 <= u <= 0xd) || u == 0x20 || u == 0x85 || u == 0xa0 || u == 0x1680 || (0x2000 <= u
        <= 0x200a) || u == 0x2028 || u == 0x2029 || u == 0x202f || u == 0x205f || u == 0x3000
}

pub fn is_whitespace(c: char) -> (r: bool)
    ensures
        r == is_ws(c),
{
    let u = c as u32;
    (0x9 <= u && u <= 0xd) || u == 0x20 || u == 0x85 || u == 0xa0 || u == 0x1680 || (0x2000 <= u
        && u <= 0x200a) || u == 0x2028 || u == 0x2029 || u == 0x202f || u == 0x205f || u == 0x3000
}

/// Number of leading whitespace characters of `s`.
pub open spec fn leading_ws(s: Seq<char>, n: int) -> bool {
    &&& 0 <= n <= s.len()
    &&& forall|j: int| 0 <= j < n ==> is_ws(s[j])
    &&& n < s.len() ==> !is_ws(s[n])
}

/// `s` with leading and trailing whitespace removed (`str::trim`).
pub open spec fn trimmed(s: Seq<char>, t: Seq<char>) -> bool {
    exists|a: int, b: int|
        #![trigger s.subrange(a, b)]
        0 <= a <= b <= s.len() && t == s.subrange(a, b) && (forall|j: int|
            0 <= j < a ==> is_ws(s[j])) && (forall|j: int| b <= j < s.len() ==> is_ws(s[j])) && (a
            < b ==> !is_ws(s[a]) && !is_ws(s[b - 1])) && (a == b ==> forall|j: int|
            0 <= j < s.len() ==> is_ws(s[j]))
}

/// `trimmed` describes at most one result.
pub proof fn lemma_trimmed_unique(s: Seq<char>, t: Seq<char>, u: Seq<char>)
    requires
        trimmed(s, t),
        trimmed(s, u),
    ensures
        t == u,
{
    let (a1, b1) = choose|a: int, b: int|
        #![trigger s.subrange(a, b)]
        0 <= a <= b <= s.len() && t == s.subrange(a, b) && (forall|j: int|
            0 <= j < a ==> is_ws(s[j])) && (forall|j: int| b <= j < s.len() ==> is_ws(s[j])) && (a
            < b ==> !is_ws(s[a]) && !is_ws(s[b - 1])) && (a == b ==> forall|j: int|
            0 <= j < s.len() ==> is_ws(s[j]));
    let (a2, b2) = choose|a: int, b: int|
        #![trigger s.subrange(a, b)]
        0 <= a <= b <= s.len() && u == s.subrange(a, b) && (forall|j: int|
            0 <= j < a ==> is_ws(s[j])) && (forall|j: int| b <= j < s.len() ==> is_ws(s[j])) && (a
            < b ==> !is_ws(s[a]) && !is_ws(s[b - 1])) && (a == b ==> forall|j: int|
            0 <= j < s.len() ==> is_ws(s[j]));
    if a1 < b1 && a2 < b2 {
        if a1 < a2 {
            assert(is_ws(s[a1]));
        }
        if a2 < a1 {
            assert(is_ws(s[a2]));
        }
        if b1 < b2 {
            assert(is_ws(s[b2 - 1]));
        }
        if b2 < b1 {
            assert(is_ws(s[b1 - 1]));
        }
    } else if a1 < b1 {
        assert(is_ws(s[a1]));
    } else if a2 < b2 {
        assert(is_ws(s[a2]));
    } else {
        assert(t =~= u);
    }
}

/// `str::trim`.
pub fn trim(s: &[char]) -> (out: Vec<char>)
    ensures
        trimmed(s@, out@),
{
    let mut a: usize = 0;
    while a < s.len() && is_whitespace(s[a])
        invariant
            a <= s.len(),
            forall|j: int| 0 <= j < a ==> is_ws(s@[j]),
        decreases s.len() - a,
    {
        a = a + 1;
    }
    let mut b: usize = s.len();
    while b > a && is_whitespace(s[b - 1])
        invariant
            a <= b <= s.len(),
            forall|j: int| b <= j < s.len() ==> is_ws(s@[j]),
        decreases b,
    {
        b = b - 1;
    }
    let out = slice_chars(s, a, b);
    proof {
        assert(0 <= a <= b <= s@.len() && out@ == s@.subrange(a as int, b as int));
    }
    out
}

// ---------------------------------------------------------------------------
// Decimal numerals
// ---------------------------------------------------------------------------
pub open spec fn digit_char(d: nat) -> char {
    if d == 0 {
        '0'
    } else if d == 1 {
        '1'
    } else if d == 2 {
        '2'
    } else if d == 3 {
        '3'
    } else if d == 4 {
        '4'
    } else if d == 5 {
        '5'
    } else if d == 6 {
        '6'
    } else if d == 7 {
        '7'
    } else if d == 8 {
        '8'
    } else {
        '9'
    }
}

/// The decimal numeral of `n` without leading zeros (`u64` `Display`).
pub open spec fn decimal(n: nat) -> Seq<char>
    decreases n,
{
    if n < 10 {
        seq![digit_char(n)]
    } else {
        decimal(n / 10).push(digit_char(n % 10))
    }
}

/// `decimal(n)` left-padded with zeros to at least `width` characters (`{:0width$}`).
pub open spec fn zero_padded(n: nat, width: nat) -> Seq<char> {
    let d = decimal(n);
    if d.len() >= width {
        d
    } else {
        Seq::new((width - d.len()) as nat, |i: int| '0') + d
    }
}

pub fn digit(d: u64) -> (c: char)
    requires
        d < 10,
    ensures
        c == digit_char(d as nat),
{
    if d == 0 {
        '0'
    } else if d == 1 {
        '1'
    } else if d == 2 {
        '2'
    } else if d == 3 {
        '3'
    } else if d == 4 {
        '4'
    } else if d == 5 {
        '5'
    } else if d == 6 {
        '6'
    } else if d == 7 {
        '7'
    } else if d == 8 {
        '8'
    } else {
        '9'
    }
}

/// The decimal numeral of `n`.
pub fn decimal_chars(n: u64) -> (out: Vec<char>)
    ensures
        out@ == decimal(n as nat),
    decreases n,
{
    if n < 10 {
        let mut out = Vec::new();
        out.push(digit(n));
        out
    } else {
        let mut out = decimal_chars(n / 10);
        out.push(digit(n % 10));
        out
    }
}

/// Appends `decimal(n)` zero-padded to `width` characters.
pub fn push_zero_padded(out: &mut Vec<char>, n: u64, width: usize)
    ensures
        final(out)@ == old(out)@ + zero_padded(n as nat, width as nat),
{
    let d = decimal_chars(n);
    let ghost start = out@;
    if d.len() < width {
        let mut k: usize = 0;
        while k < width - d.len()
            invariant
                d.len() < width,
                k <= width - d.len(),
                out@ == start + Seq::new(k as nat, |i: int| '0'),
            decreases width - d.len() - k,
        {
            out.push('0');
            k = k + 1;
            assert(out@ =~= start + Seq::new(k as nat, |i: int| '0'));
        }
    }
    push_all(out, d.as_slice());
    assert(out@ =~= start + zero_padded(n as nat, width as nat));
}

/// Appends the decimal numeral of a signed integer (`i64` `Display`).
pub open spec fn signed_decimal(n: int) -> Seq<char> {
    if n < 0 {
        seq!['-'] + decimal((-n) as nat)
    } else {
        decimal(n as nat)
    }
}

pub fn push_signed_decimal(out: &mut Vec<char>, n: i64)
    ensures
        final(out)@ == old(out)@ + signed_decimal(n as int),
{
    if n < 0 {
        out.push('-');
        let m: u64 = if n == i64::MIN {
            9223372036854775808u64
        } else {
            (-n) as u64
        };
        let d = decimal_chars(m);
        let ghost mid = out@;
        push_all(out, d.as_slice());
        assert(out@ =~= old(out)@ + signed_decimal(n as int));
    } else {
        let d = decimal_chars(n as u64);
        push_all(out, d.as_slice());
    }
}

/// The decimal value of a run of ASCII digits, `None` if a non-digit occurs.
pub open spec fn digits_value(s: Seq<char>) -> Option<nat>
    decreases s.len(),
{
    if s.len() == 0 {
        Some(0)
    } else {
        match digits_value(s.drop_last()) {
            Some(v) => if '0' <= s.last() <= '9' {
                Some(v * 10 + (s.last() as u32 - '0' as u32) as nat)
            } else {
                None
            },
            None => None,
        }
    }
}

/// `u64::from_str`: an optional `+`, then one or more ASCII digits, no overflow.
pub open spec fn parse_u64_spec(s: Seq<char>) -> Option<u64> {
    let body = if s.len() > 0 && s[0] == '+' {
        s.drop_first()
    } else {
        s
    };
    if body.len() == 0 {
        None
    } else {
        match digits_value(body) {
            Some(v) => if v <= u64::MAX {
                Some(v as u64)
            } else {
                None
            },
            None => None,
        }
    }
}

/// Parses the digits of `s[start..]` as a value bounded by `u64::MAX`.
fn digits_from(s: &[char], start: usize) -> (r: Option<u64>)
    requires
        start <= s.len(),
    ensures
        match r {
            Some(v) => digits_value(s@.skip(start as int)) == Some(v as nat),
            None => match digits_value(s@.skip(start as int)) {
                Some(v) => v > u64::MAX,
                None => true,
            },
        },
{
    let mut acc: u64 = 0;
    let mut i = start;
    while i < s.len()
        invariant
            start <= i <= s.len(),
            digits_value(s@.subrange(start as int, i as int)) == Some(acc as nat),
        decreases s.len() - i,
    {
        let ghost prefix = s@.subrange(start as int, i as int);
        let ghost next = s@.subrange(start as int, (i + 1) as int);
        assert(next.drop_last() =~= prefix);
        let c = s[i];
        if !('0' <= c && c <= '9') {
            proof {
                assert(s@.skip(start as int).take((i + 1 - start) as int) =~= next);
                lemma_digits_none_extends(s@.skip(start as int), (i + 1 - start) as int);
            }
            return None;
        }
        let d = (c as u32 - '0' as u32) as u64;
        if acc > (u64::MAX - d) / 10 {
            proof {
                assert(acc * 10 + d > u64::MAX) by (nonlinear_arith)
                    requires
                        acc > (u64::MAX - d) / 10,
                        d <= 9,
                ;
                assert(s@.skip(start as int).take((i + 1 - start) as int) =~= next);
                lemma_digits_grow(s@.skip(start as int), (i + 1 - start) as int);
            }
            return None;
        }
        proof {
            assert(acc * 10 + d <= u64::MAX) by (nonlinear_arith)
                requires
                    acc <= (u64::MAX - d) / 10,
                    d <= 9,
            ;
        }
        acc = acc * 10 + d;
        i = i + 1;
    }
    assert(s@.subrange(start as int, s.len() as int) =~= s@.skip(start as int));
    Some(acc)
}

pub proof fn lemma_digits_none_extends(s: Seq<char>, k: int)
    requires
        0 <= k <= s.len(),
        digits_value(s.take(k)) is None,
    ensures
        digits_value(s) is None,
    decreases s.len() - k,
{
    if k < s.len() {
        assert(s.take(k + 1).drop_last() =~= s.take(k));
        lemma_digits_none_extends(s, k + 1);
    } else {
        assert(s.take(k) =~= s);
    }
}

pub proof fn lemma_digits_grow(s: Seq<char>, k: int)
    requires
        0 <= k <= s.len(),
        match digits_value(s.take(k)) {
            Some(v) => v > u64::MAX,
            None => true,
        },
    ensures
        match digits_value(s) {
            Some(v) => v > u64::MAX,
            None => true,
        },
    decreases s.len() - k,
{
    if k < s.len() {
        assert(s.take(k + 1).drop_last() =~= s.take(k));
        lemma_digits_grow(s, k + 1);
    } else {
        assert(s.take(k) =~= s);
    }
}

/// `str::parse::<u64>`.
pub fn parse_u64(s: &[char]) -> (r: Option<u64>)
    ensures
        r == parse_u64_spec(s@),
{
    let start: usize = if s.len() > 0 && s[0] == '+' {
        1
    } else {
        0
    };
    proof {
        if start == 1 {
            assert(s@.skip(1) =~= s@.drop_first());
        } else {
            assert(s@.skip(0) =~= s@);
        }
    }
    if start == s.len() {
        return None;
    }
    digits_from(s, start)
}


/// `i64::from_str`: an optional sign, then one or more ASCII digits, in range.
pub open spec fn parse_i64_spec(s: Seq<char>) -> Option<i64> {
    if s.len() > 0 && s[0] == '-' {
        let body = s.drop_first();
        if body.len() == 0 {
            None
        } else {
            match digits_value(body) {
                Some(v) => if v <= 9223372036854775808 {
                    Some((-v) as i64)
                } else {
                    None
                },
                None => None,
            }
        }
    } else {
        match parse_u64_spec(s) {
            Some(v) => if v <= i64::MAX {
                Some(v as i64)
            } else {
                None
            },
            None => None,
        }
    }
}

pub fn parse_i64(s: &[char]) -> (r: Option<i64>)
    ensures
        r == parse_i64_spec(s@),
{
    if s.len() > 0 && s[0] == '-' {
        if s.len() == 1 {
            return None;
        }
        proof {
            assert(s@.skip(1) =~= s@.drop_first());
        }
        match digits_from(s, 1) {
            Some(v) => {
                if v <= 9223372036854775807 {
                    let w = v as i64;
                    Some(-w)
                } else if v == 9223372036854775808 {
                    Some(i64::MIN)
                } else {
                    None
                }
            },
            None => None,
        }
    } else {
        match parse_u64(s) {
            Some(v) => if v <= 9223372036854775807 {
                Some(v as i64)
            } else {
                None
            },
            None => None,
        }
    }
}

/// `usize::from_str`.
pub open spec fn parse_usize_spec(s: Seq<char>) -> Option<usize> {
    match parse_u64_spec(s) {
        Some(v) => if v <= usize::MAX {
            Some(v as usize)
        } else {
            None
        },
        None => None,
    }
}

pub fn parse_usize(s: &[char]) -> (r: Option<usize>)
    ensures
        r == parse_usize_spec(s@),
{
    match parse_u64(s) {
        Some(v) => if v <= usize::MAX as u64 {
            Some(v as usize)
        } else {
            None
        },
        None => None,
    }
}

proof fn lemma_digit_char(d: nat)
    requires
        d < 10,
    ensures
        '0' <= digit_char(d) <= '9',
        (digit_char(d) as u32 - '0' as u32) == d,
{
}

/// The decimal numeral of `n` is a run of digits whose value is `n`.
pub proof fn lemma_decimal_digits(n: nat)
    ensures
        digits_value(decimal(n)) == Some(n),
        decimal(n).len() >= 1,
        '0' <= decimal(n)[0] <= '9',
    decreases n,
{
    if n >= 10 {
        lemma_decimal_digits(n / 10);
        lemma_digit_char(n % 10);
        assert(decimal(n).drop_last() =~= decimal(n / 10));
        assert(decimal(n)[0] == decimal(n / 10)[0]);
        assert((n / 10) * 10 + n % 10 == n) by (nonlinear_arith);
        assert(decimal(n).last() == digit_char(n % 10));
    } else {
        lemma_digit_char(n);
        assert(decimal(n).drop_last() =~= Seq::<char>::empty());
        assert(digits_value(Seq::<char>::empty()) == Some(0nat));
        assert(decimal(n).last() == digit_char(n));
    }
}

/// Parsing the decimal numeral of a number gives the number back.
pub proof fn lemma_parse_decimal(n: u64)
    ensures
        parse_u64_spec(decimal(n as nat)) == Some(n),
        parse_usize_spec(decimal(n as nat)) == if n <= usize::MAX {
            Some(n as usize)
        } else {
            None::<usize>
        },
{
    lemma_decimal_digits(n as nat);
}

/// Parsing the numeral of a signed number gives the number back.
pub proof fn lemma_parse_signed_decimal(n: i64)
    ensures
        parse_i64_spec(signed_decimal(n as int)) == Some(n),
{
    if n < 0 {
        let m: nat = (-n) as nat;
        lemma_decimal_digits(m);
        let s = signed_decimal(n as int);
        assert(s[0] == '-');
        assert(s.drop_first() =~= decimal(m));
    } else {
        lemma_decimal_digits(n as nat);
    }
}

/// What `String::from_utf8_lossy` makes of a byte string.
pub uninterp spec fn utf8_lossy(bytes: Seq<u8>) -> Seq<char>;

/// `String::from_utf8_lossy`, owned: valid UTF-8 is decoded as it is (invalid
/// sequences would become U+FFFD, which is left to the name `utf8_lossy`).
#[verifier::external_body]
pub(crate) fn lossy_string(bytes: &[u8]) -> (r: String)
    ensures
        r@ == utf8_lossy(bytes@),
        vstd::utf8::valid_utf8(bytes@) ==> r@ == vstd::utf8::decode_utf8(bytes@),
{
    String::from_utf8_lossy(bytes).into_owned()
}

/// Position of the first `c` in `s`.
pub open spec fn first_index(s: Seq<char>, c: char) -> Option<int>
    decreases s.len(),
{
    if s.len() == 0 {
        None
    } else if s[0] == c {
        Some(0)
    } else {
        match first_index(s.drop_first(), c) {
            Some(i) => Some(i + 1),
            None => None,
        }
    }
}

pub proof fn lemma_first_index(s: Seq<char>, c: char)
    ensures
        match first_index(s, c) {
            Some(i) => 0 <= i < s.len() && s[i] == c && forall|j: int| 0 <= j < i ==> s[j] != c,
            None => forall|j: int| 0 <= j < s.len() ==> s[j] != c,
        },
    decreases s.len(),
{
    if s.len() > 0 {
        lemma_first_index(s.drop_first(), c);
        if s[0] != c {
            assert forall|j: int| 1 <= j < s.len() implies s[j] == s.drop_first()[j - 1] by {}
        }
    }
}

/// The position of the first `c` in `s`.
pub fn find_char(s: &[char], c: char) -> (r: Option<usize>)
    ensures
        match r {
            Some(i) => i < s.len() && first_index(s@, c) == Some(i as int),
            None => first_index(s@, c) is None,
        },
{
    proof {
        lemma_first_index(s@, c);
    }
    let mut i: usize = 0;
    while i < s.len()
        invariant
            i <= s.len(),
            forall|j: int| 0 <= j < i ==> s@[j] != c,
        decreases s.len() - i,
    {
        if s[i] == c {
            proof {
                lemma_first_index(s@, c);
                match first_index(s@, c) {
                    Some(k) => {
                        if k < i {
                            assert(s@[k] != c);
                        } else if k > i {
                            assert(s@[i as int] != c);
                        }
                    },
                    None => {
                        assert(s@[i as int] != c);
                    },
                }
            }
            return Some(i);
        }
        i = i + 1;
    }
    proof {
        lemma_first_index(s@, c);
        match first_index(s@, c) {
            Some(k) => {
                assert(s@[k] != c);
            },
            None => {},
        }
    }
    None
}
/// Whether two byte strings are equal.
pub fn bytes_eq(a: &[u8], b: &[u8]) -> (r: bool)
    ensures
        r == (a@ == b@),
{
    if a.len() != b.len() {
        return false;
    }
    let mut i: usize = 0;
    while i < a.len()
        invariant
            i <= a.len() == b.len(),
            forall|j: int| 0 <= j < i ==> a@[j] == b@[j],
        decreases a.len() - i,
    {
        if a[i] != b[i] {
            return false;
        }
        i = i + 1;
    }
    proof {
        assert(a@ =~= b@);
    }
    true
}

} // verus!
