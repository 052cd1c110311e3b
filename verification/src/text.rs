//! Character sequences: whitespace, trimming and splitting.

use vstd::prelude::*;

verus! {

/// The whitespace characters that lines are trimmed of.
pub open spec fn is_space(c: char) -> bool {
    c == ' ' || c == '\t' || c == '\n' || c == '\r' || c == '\x0b' || c == '\x0c'
}

/// A sequence is blank when it holds nothing but whitespace.
pub open spec fn is_blank(s: Seq<char>) -> bool {
    forall|i: int| 0 <= i < s.len() ==> is_space(#[trigger] s[i])
}

/// `s` without its leading whitespace.
pub open spec fn trim_start(s: Seq<char>) -> Seq<char>
    decreases s.len(),
{
    if s.len() > 0 && is_space(s.first()) {
        trim_start(s.drop_first())
    } else {
        s
    }
}

/// `s` without its trailing whitespace.
pub open spec fn trim_end(s: Seq<char>) -> Seq<char>
    decreases s.len(),
{
    if s.len() > 0 && is_space(s.last()) {
        trim_end(s.drop_last())
    } else {
        s
    }
}

/// `s` without the whitespace at either end.
pub open spec fn trim(s: Seq<char>) -> Seq<char> {
    trim_end(trim_start(s))
}

/// The pieces of `s` between the characters equal to `a` or `b`: every such
/// character closes one piece and opens the next, so there is always one
/// piece more than there are separators.
pub open spec fn split(s: Seq<char>, a: char, b: char) -> Seq<Seq<char>>
    decreases s.len(),
{
    if s.len() == 0 {
        seq![Seq::<char>::empty()]
    } else {
        let before = split(s.drop_last(), a, b);
        if s.last() == a || s.last() == b {
            before.push(Seq::<char>::empty())
        } else {
            before.drop_last().push(before.last().push(s.last()))
        }
    }
}

/// `parts` written one after the other.
pub open spec fn concat(parts: Seq<Seq<char>>) -> Seq<char>
    decreases parts.len(),
{
    if parts.len() == 0 {
        Seq::<char>::empty()
    } else {
        concat(parts.drop_last()) + parts.last()
    }
}

/// The character sequences that a vector of strings stands for.
pub open spec fn texts(v: Seq<String>) -> Seq<Seq<char>> {
    Seq::new(v.len(), |i: int| v[i]@)
}

/// The character sequences that a vector of character vectors stands for.
pub open spec fn rows(v: Seq<Vec<char>>) -> Seq<Seq<char>> {
    Seq::new(v.len(), |i: int| v[i]@)
}

/// Whether `p` begins `s`.
pub open spec fn begins(s: Seq<char>, p: Seq<char>) -> bool {
    p.len() <= s.len() && s.subrange(0, p.len() as int) == p
}

/// Leading whitespace goes until the first character that is none.
pub proof fn lemma_trim_start_is_suffix(s: Seq<char>, k: int)
    requires
        0 <= k <= s.len(),
        forall|i: int| 0 <= i < k ==> is_space(#[trigger] s[i]),
        k < s.len() ==> !is_space(s[k]),
    ensures
        trim_start(s) == s.subrange(k, s.len() as int),
    decreases k,
{
    if k == 0 {
        assert(s.subrange(0, s.len() as int) =~= s);
    } else {
        let t = s.drop_first();
        assert forall|i: int| 0 <= i < k - 1 implies is_space(#[trigger] t[i]) by {
            assert(t[i] == s[i + 1]);
        }
        lemma_trim_start_is_suffix(t, k - 1);
        assert(t.subrange(k - 1, t.len() as int) =~= s.subrange(k, s.len() as int));
    }
}

/// Trailing whitespace goes back to the last character that is none.
pub proof fn lemma_trim_end_is_prefix(s: Seq<char>, k: int)
    requires
        0 <= k <= s.len(),
        forall|i: int| k <= i < s.len() ==> is_space(#[trigger] s[i]),
        k > 0 ==> !is_space(s[k - 1]),
    ensures
        trim_end(s) == s.subrange(0, k),
    decreases s.len() - k,
{
    if k == s.len() {
        assert(s.subrange(0, k) =~= s);
    } else {
        let t = s.drop_last();
        lemma_trim_end_is_prefix(t, k);
        assert(t.subrange(0, k) =~= s.subrange(0, k));
    }
}

/// What trimming leaves neither begins nor ends with whitespace, and it is
/// empty exactly for a blank sequence.
pub proof fn lemma_trim_is_tight(s: Seq<char>)
    ensures
        trim(s).len() > 0 ==> !is_space(trim(s).first()) && !is_space(trim(s).last()),
        trim(s).len() == 0 <==> is_blank(s),
        trim(s).len() <= s.len(),
        forall|c: char| trim(s).contains(c) ==> s.contains(c),
{
    let a = first_solid(s, 0);
    lemma_first_solid(s, 0);
    lemma_trim_start_is_suffix(s, a);
    let t = s.subrange(a, s.len() as int);
    let b = last_solid(t, t.len() as int);
    lemma_last_solid(t, t.len() as int);
    lemma_trim_end_is_prefix(t, b);
    let u = t.subrange(0, b);
    assert(trim(s) == u);
    if u.len() > 0 {
        assert(u.first() == t[0]);
        assert(u.last() == t[b - 1]);
        assert(!is_blank(s)) by {
            assert(!is_space(s[a]));
        }
    } else {
        assert forall|i: int| 0 <= i < s.len() implies is_space(#[trigger] s[i]) by {
            if i >= a {
                assert(s[i] == t[i - a]);
            }
        }
    }
    assert forall|c: char| u.contains(c) implies s.contains(c) by {
        let i = choose|i: int| 0 <= i < u.len() && u[i] == c;
        assert(s[a + i] == c);
    }
}

/// The first index from `from` on that holds no whitespace, or the length.
pub open spec fn first_solid(s: Seq<char>, from: int) -> int
    decreases s.len() - from,
{
    if 0 <= from < s.len() && is_space(s[from]) {
        first_solid(s, from + 1)
    } else {
        from
    }
}

/// One past the last index before `to` that holds no whitespace, or zero.
pub open spec fn last_solid(s: Seq<char>, to: int) -> int
    decreases to,
{
    if 0 < to <= s.len() && is_space(s[to - 1]) {
        last_solid(s, to - 1)
    } else {
        to
    }
}

proof fn lemma_first_solid(s: Seq<char>, from: int)
    requires
        0 <= from <= s.len(),
    ensures
        from <= first_solid(s, from) <= s.len(),
        forall|i: int| from <= i < first_solid(s, from) ==> is_space(#[trigger] s[i]),
        first_solid(s, from) < s.len() ==> !is_space(s[first_solid(s, from)]),
    decreases s.len() - from,
{
    if from < s.len() && is_space(s[from]) {
        lemma_first_solid(s, from + 1);
    }
}

proof fn lemma_last_solid(s: Seq<char>, to: int)
    requires
        0 <= to <= s.len(),
    ensures
        0 <= last_solid(s, to) <= to,
        forall|i: int| last_solid(s, to) <= i < to ==> is_space(#[trigger] s[i]),
        last_solid(s, to) > 0 ==> !is_space(s[last_solid(s, to) - 1]),
    decreases to,
{
    if 0 < to && is_space(s[to - 1]) {
        lemma_last_solid(s, to - 1);
    }
}

/// Splitting gives at least one piece; no piece holds a separator, and
/// every character of a piece is one of the sequence that was split.
pub proof fn lemma_split_pieces(s: Seq<char>, a: char, b: char)
    ensures
        split(s, a, b).len() >= 1,
        forall|i: int, j: int|
            0 <= i < split(s, a, b).len() && 0 <= j < split(s, a, b)[i].len() ==> {
                &&& #[trigger] split(s, a, b)[i][j] != a
                &&& split(s, a, b)[i][j] != b
                &&& s.contains(split(s, a, b)[i][j])
            },
    decreases s.len(),
{
    if s.len() > 0 {
        let init = s.drop_last();
        lemma_split_pieces(init, a, b);
        assert forall|c: char| init.contains(c) implies s.contains(c) by {
            let k = choose|k: int| 0 <= k < init.len() && init[k] == c;
            assert(s[k] == c);
        }
        assert(s.contains(s.last())) by {
            assert(s[s.len() - 1] == s.last());
        }
    }
}

/// The last piece is what follows the last separator.
pub proof fn lemma_last_piece(s: Seq<char>, a: char, b: char, k: int)
    requires
        0 <= k <= s.len(),
        forall|i: int| k <= i < s.len() ==> #[trigger] s[i] != a && s[i] != b,
        k > 0 ==> s[k - 1] == a || s[k - 1] == b,
    ensures
        split(s, a, b).len() >= 1,
        split(s, a, b).last() == s.subrange(k, s.len() as int),
    decreases s.len(),
{
    lemma_split_pieces(s, a, b);
    if k == s.len() {
        assert(split(s, a, b).last() =~= s.subrange(k, s.len() as int));
    } else {
        let init = s.drop_last();
        lemma_last_piece(init, a, b, k);
        lemma_split_pieces(init, a, b);
        assert(s[s.len() - 1] != a && s[s.len() - 1] != b);
        assert(init.subrange(k, init.len() as int).push(s.last()) =~= s.subrange(
            k,
            s.len() as int,
        ));
    }
}

/// Tests a character for whitespace.
pub fn space(c: char) -> (b: bool)
    ensures
        b == is_space(c),
{
    c == ' ' || c == '\t' || c == '\n' || c == '\r' || c == '\x0b' || c == '\x0c'
}

/// The characters of a string slice, in order.
pub fn to_chars(s: &str) -> (v: Vec<char>)
    ensures
        v@ == s@,
{
    let mut v: Vec<char> = Vec::new();
    for c in it: s.chars()
        invariant
            v@ == it.seq().take(it.index() as int),
            it.seq() == s@,
    {
        v.push(c);
    }
    v
}

/// `String::from_iter` over borrowed characters: the string that holds the
/// characters of `chars`, in their order, and nothing else.
#[verifier::external_body]
pub(crate) fn string_from_chars(chars: &Vec<char>) -> (s: String)
    ensures
        s@ == chars@,
{
    String::from_iter(chars)
}

/// The strings of `parts` written one after the other, and `last` after
/// them.
pub fn join_painted(parts: &Vec<String>, last: &str) -> (joined: String)
    ensures
        joined@ == concat(texts(parts@)) + last@,
{
    let mut joined = String::new();
    let mut k: usize = 0;
    assert(texts(parts@).take(0) =~= Seq::<Seq<char>>::empty());
    while k < parts.len()
        invariant
            k <= parts.len(),
            joined@ == concat(texts(parts@).take(k as int)),
        decreases parts.len() - k,
    {
        proof {
            let next = texts(parts@).take(k + 1);
            assert(next.drop_last() =~= texts(parts@).take(k as int));
            assert(next.last() == parts@[k as int]@);
        }
        joined.append(parts[k].as_str());
        k += 1;
    }
    assert(texts(parts@).take(parts.len() as int) =~= texts(parts@));
    joined.append(last);
    joined
}

/// Whether two character vectors hold the same sequence.
pub fn same_chars(x: &Vec<char>, y: &Vec<char>) -> (b: bool)
    ensures
        b == (x@ == y@),
{
    if x.len() != y.len() {
        return false;
    }
    let mut i: usize = 0;
    while i < x.len()
        invariant
            i <= x.len(),
            x.len() == y.len(),
            forall|j: int| 0 <= j < i ==> x@[j] == y@[j],
        decreases x.len() - i,
    {
        if x[i] != y[i] {
            return false;
        }
        i += 1;
    }
    assert(x@ =~= y@);
    true
}

/// Whether `s` begins with `p`.
pub fn starts_with(s: &Vec<char>, p: &Vec<char>) -> (b: bool)
    ensures
        b == begins(s@, p@),
{
    if p.len() > s.len() {
        return false;
    }
    let mut i: usize = 0;
    while i < p.len()
        invariant
            i <= p.len() <= s.len(),
            forall|j: int| 0 <= j < i ==> s@[j] == p@[j],
        decreases p.len() - i,
    {
        if s[i] != p[i] {
            assert(s@.subrange(0, p.len() as int)[i as int] != p@[i as int]);
            return false;
        }
        i += 1;
    }
    assert(s@.subrange(0, p.len() as int) =~= p@);
    true
}

/// Whether the line holds nothing but whitespace.
pub fn blank(line: &Vec<char>) -> (b: bool)
    ensures
        b == is_blank(line@),
{
    let mut i: usize = 0;
    while i < line.len()
        invariant
            i <= line.len(),
            forall|j: int| 0 <= j < i ==> is_space(#[trigger] line@[j]),
        decreases line.len() - i,
    {
        if !space(line[i]) {
            return false;
        }
        i += 1;
    }
    true
}

/// Where the line's text starts and ends once the whitespace at both ends is
/// left out.
pub fn trim_bounds(line: &Vec<char>) -> (r: (usize, usize))
    ensures
        r.0 <= r.1 <= line.len(),
        line@.subrange(r.0 as int, r.1 as int) == trim(line@),
{
    let n = line.len();
    let mut a: usize = 0;
    while a < n && space(line[a])
        invariant
            a <= n == line.len(),
            forall|j: int| 0 <= j < a ==> is_space(#[trigger] line@[j]),
        decreases n - a,
    {
        a += 1;
    }
    let mut b: usize = n;
    while b > a && space(line[b - 1])
        invariant
            a <= b <= n == line.len(),
            forall|j: int| b <= j < n ==> is_space(#[trigger] line@[j]),
        decreases b,
    {
        b -= 1;
    }
    proof {
        lemma_trim_start_is_suffix(line@, a as int);
        let t = line@.subrange(a as int, n as int);
        assert forall|j: int| b - a <= j < t.len() implies is_space(#[trigger] t[j]) by {
            assert(t[j] == line@[j + a]);
        }
        lemma_trim_end_is_prefix(t, b - a);
        assert(t.subrange(0, b - a) =~= line@.subrange(a as int, b as int));
    }
    (a, b)
}

/// The length of the line once its trailing whitespace is left out.
pub fn width(line: &Vec<char>) -> (w: usize)
    ensures
        w <= line.len(),
        trim_end(line@) == line@.subrange(0, w as int),
{
    let mut b: usize = line.len();
    while b > 0 && space(line[b - 1])
        invariant
            b <= line.len(),
            forall|j: int| b <= j < line.len() ==> is_space(#[trigger] line@[j]),
        decreases b,
    {
        b -= 1;
    }
    proof {
        lemma_trim_end_is_prefix(line@, b as int);
    }
    b
}

/// Appends the characters of `line` from `from` up to `to` to `out`.
pub fn append_range(out: &mut Vec<char>, line: &Vec<char>, from: usize, to: usize)
    requires
        from <= to <= line.len(),
    ensures
        final(out)@ == old(out)@ + line@.subrange(from as int, to as int),
{
    let mut i: usize = from;
    while i < to
        invariant
            from <= i <= to <= line.len(),
            out@ == old(out)@ + line@.subrange(from as int, i as int),
        decreases to - i,
    {
        out.push(line[i]);
        i += 1;
        assert(out@ =~= old(out)@ + line@.subrange(from as int, i as int));
    }
    assert(out@ =~= old(out)@ + line@.subrange(from as int, to as int));
}

/// Splits `s` at every character equal to `a` or `b`.
pub fn split_chars(s: &Vec<char>, a: char, b: char) -> (pieces: Vec<Vec<char>>)
    ensures
        rows(pieces@) == split(s@, a, b),
{
    let mut done: Vec<Vec<char>> = Vec::new();
    let mut current: Vec<char> = Vec::new();
    let mut i: usize = 0;
    assert(s@.take(0) =~= Seq::<char>::empty());
    assert(rows(done@).push(current@) =~= split(s@.take(0), a, b));
    while i < s.len()
        invariant
            i <= s.len(),
            rows(done@).push(current@) == split(s@.take(i as int), a, b),
        decreases s.len() - i,
    {
        let c = s[i];
        proof {
            let next = s@.take(i + 1);
            assert(next.drop_last() =~= s@.take(i as int));
            assert(next.last() == c);
        }
        let ghost shown = rows(done@).push(current@);
        if c == a || c == b {
            done.push(current);
            current = Vec::new();
            assert(rows(done@) =~= shown);
        } else {
            current.push(c);
            assert(rows(done@).push(current@) =~= shown.drop_last().push(shown.last().push(c)));
        }
        i += 1;
    }
    assert(s@.take(s.len() as int) =~= s@);
    let ghost shown = rows(done@).push(current@);
    done.push(current);
    assert(rows(done@) =~= shown);
    done
}

} // verus!
