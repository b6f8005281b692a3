//! Character-level text model: strings are viewed as `Seq<char>`, and the
//! scanning helpers here work on `Vec<char>` windows `[start, end)`.
use vstd::prelude::*;

verus! {

/// The Unicode `White_Space` property, which is what `char::is_whitespace`
/// and `str::trim_start` test.
pub open spec fn is_white_space(c: char) -> bool {
    let v = c as u32;
    ||| (0x9 <= v && v <= 0xd)
    ||| v == 0x20
    ||| v == 0x85
    ||| v == 0xa0
    ||| v == 0x1680
    ||| (0x2000 <= v && v <= 0x200a)
    ||| v == 0x2028
    ||| v == 0x2029
    ||| v == 0x202f
    ||| v == 0x205f
    ||| v == 0x3000
}

pub fn white_space(c: char) -> (b: bool)
    ensures
        b == is_white_space(c),
{
    let v = c as u32;
    (0x9 <= v && v <= 0xd) || v == 0x20 || v == 0x85 || v == 0xa0 || v == 0x1680 || (0x2000 <= v
        && v <= 0x200a) || v == 0x2028 || v == 0x2029 || v == 0x202f || v == 0x205f || v == 0x3000
}

/// `s` with its leading white space removed.
pub open spec fn trim_start(s: Seq<char>) -> Seq<char>
    decreases s.len(),
{
    if s.len() > 0 && is_white_space(s[0]) {
        trim_start(s.drop_first())
    } else {
        s
    }
}

/// `s` with every trailing occurrence of `c` removed.
pub open spec fn trim_end_char(s: Seq<char>, c: char) -> Seq<char>
    decreases s.len(),
{
    if s.len() > 0 && s.last() == c {
        trim_end_char(s.drop_last(), c)
    } else {
        s
    }
}

pub open spec fn has_prefix(s: Seq<char>, p: Seq<char>) -> bool {
    p.len() <= s.len() && s.take(p.len() as int) == p
}

pub open spec fn has_infix(s: Seq<char>, p: Seq<char>) -> bool {
    exists|i: int| 0 <= i && i + p.len() <= s.len() && #[trigger] s.subrange(i, i + p.len()) == p
}

/// The characters of a string slice, in order.
pub fn chars_of(s: &str) -> (v: Vec<char>)
    ensures
        v@ == s@,
{
    let mut v: Vec<char> = Vec::new();
    for c in it: s.chars()
        invariant
            v@ == it.seq().take(it.index() as int),
            it.seq() == s@,
    {
        v.push(c);
    }
    v
}

/// Appends the characters of `s` to `v`.
pub fn push_str(v: &mut Vec<char>, s: &str)
    ensures
        final(v)@ == old(v)@ + s@,
{
    let ghost start = v@;
    for c in it: s.chars()
        invariant
            v@ == start + it.seq().take(it.index() as int),
            it.seq() == s@,
    {
        v.push(c);
    }
}

/// `a` followed by `b`.
pub fn concat(a: &str, b: &str) -> (s: String)
    ensures
        s@ == a@ + b@,
{
    let mut v = chars_of(a);
    push_str(&mut v, b);
    string_from_chars(&v)
}

/// Appends `src[start..end]` to `v`.
pub fn push_range(v: &mut Vec<char>, src: &Vec<char>, start: usize, end: usize)
    requires
        start <= end <= src.len(),
    ensures
        final(v)@ == old(v)@ + src@.subrange(start as int, end as int),
{
    let ghost init = v@;
    let mut i = start;
    while i < end
        invariant
            start <= i <= end <= src.len(),
            v@ == init + src@.subrange(start as int, i as int),
        decreases end - i,
    {
        v.push(src[i]);
        i = i + 1;
        assert(src@.subrange(start as int, i as int) =~= src@.subrange(start as int, i - 1).push(
            src@[i - 1],
        ));
    }
}

/// The characters of `v`, in order, as a `String`, built by std's
/// `FromIterator<&char>` for `String`, which appends each character it is
/// given; its contract says the result holds exactly the characters of `v`.
#[verifier::external_body]
pub(crate) fn string_from_chars(v: &Vec<char>) -> (s: String)
    ensures
        s@ == v@,
{
    String::from_iter(v.iter())
}

proof fn lemma_trim_start_step(v: Seq<char>, i: int, end: int)
    requires
        0 <= i < end <= v.len(),
        is_white_space(v[i]),
    ensures
        trim_start(v.subrange(i, end)) == trim_start(v.subrange(i + 1, end)),
{
    assert(v.subrange(i, end).drop_first() =~= v.subrange(i + 1, end));
}

/// The index of the first character of `v[start..end]` that is not white
/// space (or `end`): `trim_start` of the window starts there.
pub fn skip_white_space(v: &Vec<char>, start: usize, end: usize) -> (i: usize)
    requires
        start <= end <= v.len(),
    ensures
        start <= i <= end,
        trim_start(v@.subrange(start as int, end as int)) == v@.subrange(i as int, end as int),
{
    let mut i = start;
    while i < end && white_space(v[i])
        invariant
            start <= i <= end <= v.len(),
            trim_start(v@.subrange(start as int, end as int)) == trim_start(
                v@.subrange(i as int, end as int),
            ),
        decreases end - i,
    {
        proof {
            lemma_trim_start_step(v@, i as int, end as int);
        }
        i = i + 1;
    }
    i
}

/// Whether `v[start..end]` begins with `p`.
pub fn window_has_prefix(v: &Vec<char>, start: usize, end: usize, p: &Vec<char>) -> (b: bool)
    requires
        start <= end <= v.len(),
    ensures
        b == has_prefix(v@.subrange(start as int, end as int), p@),
{
    let ghost w = v@.subrange(start as int, end as int);
    if p.len() > end - start {
        return false;
    }
    let mut j: usize = 0;
    while j < p.len()
        invariant
            start <= end <= v.len(),
            p.len() <= end - start,
            j <= p.len(),
            w == v@.subrange(start as int, end as int),
            forall|k: int| 0 <= k < j ==> v@[start + k] == p@[k],
        decreases p.len() - j,
    {
        if v[start + j] != p[j] {
            assert(w.take(p.len() as int)[j as int] != p@[j as int]);
            return false;
        }
        j = j + 1;
    }
    assert(w.take(p.len() as int) =~= p@);
    true
}

/// Whether `v[start..end]` holds the character `c`.
pub fn window_has_char(v: &Vec<char>, start: usize, end: usize, c: char) -> (b: bool)
    requires
        start <= end <= v.len(),
    ensures
        b == v@.subrange(start as int, end as int).contains(c),
{
    let ghost w = v@.subrange(start as int, end as int);
    let mut i = start;
    while i < end
        invariant
            start <= i <= end <= v.len(),
            w == v@.subrange(start as int, end as int),
            forall|k: int| start <= k < i ==> v@[k] != c,
        decreases end - i,
    {
        if v[i] == c {
            assert(w[i - start] == c);
            return true;
        }
        i = i + 1;
    }
    assert forall|k: int| 0 <= k < w.len() implies w[k] != c by {
        assert(w[k] == v@[start + k]);
    }
    false
}

/// Whether `p` occurs as a contiguous run inside `v`.
pub fn vec_has_infix(v: &Vec<char>, p: &Vec<char>) -> (b: bool)
    ensures
        b == has_infix(v@, p@),
{
    if p.len() > v.len() {
        assert(!has_infix(v@, p@));
        return false;
    }
    let last = v.len() - p.len();
    let mut i: usize = 0;
    loop
        invariant
            last == v.len() - p.len(),
            p.len() <= v.len(),
            i <= last,
            forall|k: int| 0 <= k < i ==> #[trigger] v@.subrange(k, k + p.len()) != p@,
        decreases last - i,
    {
        let hit = window_has_prefix(v, i, v.len(), p);
        assert(v@.subrange(i as int, v.len() as int).take(p.len() as int) =~= v@.subrange(
            i as int,
            i + p.len(),
        ));
        if hit {
            return true;
        }
        if i == last {
            assert(forall|k: int|
                0 <= k && k + p.len() <= v.len() ==> #[trigger] v@.subrange(k, k + p.len()) != p@);
            return false;
        }
        i = i + 1;
    }
}

} // verus!
