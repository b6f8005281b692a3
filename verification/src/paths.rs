//! Paths as text, with the rules of the platform they belong to: which
//! characters separate components, which paths are absolute, how a relative
//! suffix is joined, and the order in which paths are sorted.
use vstd::prelude::*;
use crate::error::CleanupError;
use crate::text::{chars_of, string_from_chars};

verus! {

/// The operating system whose path rules and cleanup targets apply.
#[derive(Debug, Clone, Copy, PartialEq, Eq, Structural)]
pub enum Platform {
    MacOs,
    Windows,
    /// Any other Unix-like system.
    Other,
}

pub open spec fn is_separator(w: Platform, c: char) -> bool {
    c == '/' || (w == Platform::Windows && c == '\\')
}

pub open spec fn main_separator(w: Platform) -> char {
    if w == Platform::Windows {
        '\\'
    } else {
        '/'
    }
}

pub open spec fn is_ascii_alpha(c: char) -> bool {
    (0x41 <= c as u64 && c as u64 <= 0x5a) || (0x61 <= c as u64 && c as u64 <= 0x7a)
}

/// A verbatim prefix: `\\?\` (`\\?\cat_pics`, `\\?\UNC\server\share`,
/// `\\?\C:`).
pub open spec fn verbatim_prefix(s: Seq<char>) -> bool {
    s.len() >= 4 && s[0] == '\\' && s[1] == '\\' && s[2] == '?' && s[3] == '\\'
}

/// A device namespace prefix: two separators, `.` and a separator
/// (`\\.\COM42`).
pub open spec fn device_prefix(w: Platform, s: Seq<char>) -> bool {
    s.len() >= 4 && is_separator(w, s[0]) && is_separator(w, s[1]) && s[2] == '.'
        && is_separator(w, s[3])
}

/// A UNC prefix: two separators, a server name and a share name, both
/// nonempty (`\\server\share`).
pub open spec fn unc_prefix(w: Platform, s: Seq<char>) -> bool {
    &&& s.len() >= 2
    &&& is_separator(w, s[0])
    &&& is_separator(w, s[1])
    &&& exists|k: int|
        2 < k && k + 1 < s.len() && is_separator(w, #[trigger] s[k]) && (forall|m: int|
            2 <= m < k ==> !is_separator(w, s[m])) && !is_separator(w, s[k + 1])
}

/// Whether `s` is an absolute path (`Path::is_absolute`). On Unix-like
/// systems: it starts with `/`. On Windows: it has a prefix and a root,
/// which is a drive (`C:`) followed by a separator, or any other prefix
/// (verbatim, device namespace, or UNC server and share), whose root is
/// implied.
pub open spec fn path_is_absolute(w: Platform, s: Seq<char>) -> bool {
    if w == Platform::Windows {
        ||| (s.len() >= 3 && is_ascii_alpha(s[0]) && s[1] == ':' && is_separator(w, s[2]))
        ||| verbatim_prefix(s)
        ||| device_prefix(w, s)
        ||| unc_prefix(w, s)
    } else {
        s.len() > 0 && s[0] == '/'
    }
}

/// `base` joined with the relative path `suffix`: a separator is put between
/// them unless `base` is empty or already ends in one.
pub open spec fn join_path(w: Platform, base: Seq<char>, suffix: Seq<char>) -> Seq<char> {
    if base.len() > 0 && !is_separator(w, base.last()) {
        base.push(main_separator(w)) + suffix
    } else {
        base + suffix
    }
}

fn separator(w: Platform, c: char) -> (b: bool)
    ensures
        b == is_separator(w, c),
{
    c == '/' || (w == Platform::Windows && c == '\\')
}

fn ascii_alpha(c: char) -> (b: bool)
    ensures
        b == is_ascii_alpha(c),
{
    let v = c as u64;
    (0x41 <= v && v <= 0x5a) || (0x61 <= v && v <= 0x7a)
}

/// Whether `v` is an absolute path on `w`.
pub fn is_absolute_path(w: Platform, v: &Vec<char>) -> (b: bool)
    ensures
        b == path_is_absolute(w, v@),
{
    if w == Platform::Windows {
        (v.len() >= 3 && ascii_alpha(v[0]) && v[1] == ':' && separator(w, v[2])) || (v.len() >= 4
            && v[0] == '\\' && v[1] == '\\' && v[2] == '?' && v[3] == '\\') || (v.len() >= 4
            && separator(w, v[0]) && separator(w, v[1]) && v[2] == '.' && separator(w, v[3]))
            || has_unc_prefix(w, v)
    } else {
        v.len() > 0 && v[0] == '/'
    }
}

/// Whether `v` starts with a UNC server and share.
fn has_unc_prefix(w: Platform, v: &Vec<char>) -> (b: bool)
    ensures
        b == unc_prefix(w, v@),
{
    if v.len() < 2 || !separator(w, v[0]) || !separator(w, v[1]) {
        return false;
    }
    let mut k: usize = 2;
    while k < v.len() && !separator(w, v[k])
        invariant
            2 <= k <= v.len(),
            forall|m: int| 2 <= m < k ==> !is_separator(w, v@[m]),
        decreases v.len() - k,
    {
        k = k + 1;
    }
    let b = k > 2 && k < v.len() - 1 && !separator(w, v[k + 1]);
    proof {
        if b {
            assert(is_separator(w, v@[k as int]));
        } else if unc_prefix(w, v@) {
            let j = choose|j: int|
                2 < j && j + 1 < v@.len() && is_separator(w, #[trigger] v@[j]) && (forall|m: int|
                    2 <= m < j ==> !is_separator(w, v@[m])) && !is_separator(w, v@[j + 1]);
            if j < k {
                assert(!is_separator(w, v@[j]));
            } else if k < j {
                assert(k < v.len());
                assert(is_separator(w, v@[k as int]));
                assert(!is_separator(w, v@[k as int]));
            }
        }
    }
    b
}

/// Joins the relative path `suffix` onto `base`.
pub fn join(w: Platform, base: &Vec<char>, suffix: &str) -> (p: Vec<char>)
    ensures
        p@ == join_path(w, base@, suffix@),
{
    let mut p: Vec<char> = Vec::new();
    crate::text::push_range(&mut p, base, 0, base.len());
    assert(base@.subrange(0, base@.len() as int) =~= base@);
    if base.len() > 0 && !separator(w, base[base.len() - 1]) {
        if w == Platform::Windows {
            p.push('\\');
        } else {
            p.push('/');
        }
    }
    crate::text::push_str(&mut p, suffix);
    p
}

/// The home directory of the user whose machine is cleaned: an absolute path.
#[derive(Debug, PartialEq, Eq)]
pub struct HomeDirectory {
    path: String,
    platform: Platform,
}

impl Clone for HomeDirectory {
    fn clone(&self) -> (c: Self)
        ensures
            c.path_view() == self.path_view(),
            c.platform_view() == self.platform_view(),
    {
        proof {
            use_type_invariant(self);
        }
        HomeDirectory { path: self.path.clone(), platform: self.platform }
    }
}

impl HomeDirectory {
    #[verifier::type_invariant]
    spec fn absolute(self) -> bool {
        path_is_absolute(self.platform, self.path@)
    }

    pub closed spec fn path_view(self) -> Seq<char> {
        self.path@
    }

    pub closed spec fn platform_view(self) -> Platform {
        self.platform
    }

    /// A home directory at `path`, which must be absolute.
    pub fn new(path: String, platform: Platform) -> (res: Result<Self, CleanupError>)
        ensures
            path_is_absolute(platform, path@) ==> (res matches Ok(h) && h.path_view() == path@
                && h.platform_view() == platform),
            !path_is_absolute(platform, path@) ==> res == Err::<Self, CleanupError>(
                CleanupError::HomeMustBeAbsolute { path },
            ),
    {
        if is_absolute_path(platform, &chars_of(path.as_str())) {
            Ok(HomeDirectory { path, platform })
        } else {
            Err(CleanupError::HomeMustBeAbsolute { path })
        }
    }

    /// The home directory that the environment names: `HOME` if it is set,
    /// else `USERPROFILE`; it must be absolute. (`USERPROFILE` is not looked
    /// at when `HOME` is set but relative.)
    pub fn current(home: Option<String>, user_profile: Option<String>, platform: Platform) -> (res:
        Result<Self, CleanupError>)
        ensures
            ({
                let chosen = if home is Some {
                    home
                } else {
                    user_profile
                };
                match chosen {
                    Some(p) => if path_is_absolute(platform, p@) {
                        res matches Ok(h) && h.path_view() == p@ && h.platform_view() == platform
                    } else {
                        res == Err::<Self, CleanupError>(CleanupError::MissingHome)
                    },
                    None => res == Err::<Self, CleanupError>(CleanupError::MissingHome),
                }
            }),
    {
        let chosen = match home {
            Some(h) => Some(h),
            None => user_profile,
        };
        match chosen {
            Some(p) => {
                if is_absolute_path(platform, &chars_of(p.as_str())) {
                    Ok(HomeDirectory { path: p, platform })
                } else {
                    Err(CleanupError::MissingHome)
                }
            },
            None => Err(CleanupError::MissingHome),
        }
    }

    /// The path of the home directory.
    pub fn as_str(&self) -> (s: &str)
        ensures
            s@ == self.path_view(),
            path_is_absolute(self.platform_view(), s@),
    {
        proof {
            use_type_invariant(self);
        }
        self.path.as_str()
    }

    /// The platform whose rules the home directory follows.
    pub fn platform(&self) -> (w: Platform)
        ensures
            w == self.platform_view(),
    {
        self.platform
    }

    /// The path `suffix` below the home directory.
    pub fn join(&self, suffix: &str) -> (p: String)
        ensures
            p@ == join_path(self.platform_view(), self.path_view(), suffix@),
    {
        let base = chars_of(self.path.as_str());
        string_from_chars(&join(self.platform, &base, suffix))
    }
}

// ---------------------------------------------------------------------------
// The order of paths.
//
// Paths compare component by component, as `std::path::Path` does: first the
// drive of a Windows path, then the root, then `.` (only at the start of a
// relative path), `..`, and plain names; empty components (from repeated
// separators) and inner `.` components do not count. Each component is
// encoded as its kind (0 drive, 1 root, 2 `.`, 3 `..`, 4 name), then its
// characters shifted by five (so that none reads as a kind or as the end), then
// a 0; comparing the encodings lexicographically compares the component lists,
// and the encoding of a path ends with that of a name exactly when the path's
// last component is that name. Of the Windows prefixes only the drive letter
// is its own component here; a UNC, device or verbatim prefix is ordered as
// the root followed by its parts as names.
// ---------------------------------------------------------------------------

/// The text of `s` split at every separator (empty parts included).
pub open spec fn segments(w: Platform, s: Seq<char>) -> Seq<Seq<char>>
    decreases s.len(),
{
    if s.len() == 0 {
        seq![seq![]]
    } else {
        let r = segments(w, s.drop_last());
        if is_separator(w, s.last()) {
            r.push(seq![])
        } else {
            r.update(r.len() - 1, r.last().push(s.last()))
        }
    }
}

pub open spec fn has_drive(w: Platform, s: Seq<char>) -> bool {
    w == Platform::Windows && s.len() >= 2 && is_ascii_alpha(s[0]) && s[1] == ':'
}

pub open spec fn after_drive(w: Platform, s: Seq<char>) -> Seq<char> {
    if has_drive(w, s) {
        s.skip(2)
    } else {
        s
    }
}

pub open spec fn upper_code(c: char) -> u64 {
    if 0x61 <= c as u64 && c as u64 <= 0x7a {
        (c as u64 - 0x20) as u64
    } else {
        c as u64
    }
}

pub open spec fn name_code(seg: Seq<char>) -> Seq<u64> {
    seq![4u64] + seg.map_values(|c: char| ((c as u32) as u64 + 5) as u64) + seq![0u64]
}

/// The encoding of one segment: nothing for an empty segment or an inner
/// `.`, the `.` component for a leading `.`, `..`, or a name.
pub open spec fn segment_code(seg: Seq<char>, first: bool) -> Seq<u64> {
    if seg.len() == 0 {
        seq![]
    } else if seg == seq!['.'] {
        if first {
            seq![2u64, 0u64]
        } else {
            seq![]
        }
    } else if seg == seq!['.', '.'] {
        seq![3u64, 0u64]
    } else {
        name_code(seg)
    }
}

pub open spec fn segments_code(segs: Seq<Seq<char>>) -> Seq<u64>
    decreases segs.len(),
{
    if segs.len() == 0 {
        seq![]
    } else {
        segments_code(segs.drop_last()) + segment_code(segs.last(), segs.len() == 1)
    }
}

/// The sort key of a path: its components, encoded.
#[verifier::opaque]
pub open spec fn path_key(w: Platform, s: Seq<char>) -> Seq<u64> {
    let rest = after_drive(w, s);
    (if has_drive(w, s) {
        seq![0u64, (upper_code(s[0]) + 5) as u64, 0u64]
    } else {
        seq![]
    }) + (if rest.len() > 0 && is_separator(w, rest[0]) {
        seq![1u64, 0u64]
    } else {
        seq![]
    }) + segments_code(segments(w, rest))
}

/// Lexicographic order of keys; a proper prefix comes first.
pub open spec fn key_less(a: Seq<u64>, b: Seq<u64>) -> bool
    decreases a.len(),
{
    if a.len() == 0 {
        b.len() > 0
    } else if b.len() == 0 {
        false
    } else if a[0] != b[0] {
        a[0] < b[0]
    } else {
        key_less(a.drop_first(), b.drop_first())
    }
}

/// Path `a` sorts before path `b`.
pub open spec fn path_before(w: Platform, a: Seq<char>, b: Seq<char>) -> bool {
    key_less(path_key(w, a), path_key(w, b))
}

/// Paths `a` and `b` name the same place (they have the same components).
pub open spec fn same_path(w: Platform, a: Seq<char>, b: Seq<char>) -> bool {
    path_key(w, a) == path_key(w, b)
}

pub proof fn lemma_key_less_irreflexive(a: Seq<u64>)
    ensures
        !key_less(a, a),
    decreases a.len(),
{
    if a.len() > 0 {
        lemma_key_less_irreflexive(a.drop_first());
    }
}

pub proof fn lemma_key_less_total(a: Seq<u64>, b: Seq<u64>)
    ensures
        a == b || key_less(a, b) || key_less(b, a),
        !(key_less(a, b) && key_less(b, a)),
    decreases a.len(),
{
    if a.len() > 0 && b.len() > 0 {
        lemma_key_less_total(a.drop_first(), b.drop_first());
        if a[0] == b[0] && a.drop_first() == b.drop_first() {
            assert(a =~= seq![a[0]] + a.drop_first());
            assert(b =~= seq![b[0]] + b.drop_first());
        }
    } else if a.len() == 0 && b.len() == 0 {
        assert(a =~= b);
    }
}

pub proof fn lemma_key_less_transitive(a: Seq<u64>, b: Seq<u64>, c: Seq<u64>)
    requires
        key_less(a, b),
        key_less(b, c),
    ensures
        key_less(a, c),
    decreases a.len(),
{
    if a.len() > 0 && b.len() > 0 && c.len() > 0 && a[0] == b[0] && b[0] == c[0] {
        lemma_key_less_transitive(a.drop_first(), b.drop_first(), c.drop_first());
    }
}

/// Whether key `a` sorts before key `b`.
pub fn keys_less(a: &Vec<u64>, b: &Vec<u64>) -> (r: bool)
    ensures
        r == key_less(a@, b@),
{
    let mut i: usize = 0;
    assert(a@.skip(0) =~= a@);
    assert(b@.skip(0) =~= b@);
    while i < a.len() && i < b.len() && a[i] == b[i]
        invariant
            i <= a.len(),
            i <= b.len(),
            key_less(a@, b@) == key_less(a@.skip(i as int), b@.skip(i as int)),
        decreases a.len() - i,
    {
        assert(a@.skip(i as int).drop_first() =~= a@.skip(i + 1));
        assert(b@.skip(i as int).drop_first() =~= b@.skip(i + 1));
        i = i + 1;
    }
    if i == a.len() {
        i < b.len()
    } else if i == b.len() {
        false
    } else {
        a[i] < b[i]
    }
}

/// Whether the last component of path `s` is the plain name `name`
/// (`Path::ends_with` with a one-component argument).
pub open spec fn ends_with_name(w: Platform, s: Seq<char>, name: Seq<char>) -> bool {
    let k = path_key(w, s);
    let c = name_code(name);
    c.len() <= k.len() && k.skip(k.len() - c.len()) == c
}

/// Whether the last component of the path `v` is `name`.
pub fn path_ends_with_name(w: Platform, v: &Vec<char>, name: &str) -> (b: bool)
    ensures
        b == ends_with_name(w, v@, name@),
{
    let k = path_key_of(w, v);
    let n = chars_of(name);
    let mut c: Vec<u64> = Vec::new();
    push_name_code(&mut c, &n, 0, n.len());
    proof {
        assert(n@.subrange(0, n@.len() as int) =~= name@);
        assert(c@ =~= name_code(name@));
    }
    if c.len() > k.len() {
        return false;
    }
    let off = k.len() - c.len();
    let mut i: usize = 0;
    while i < c.len()
        invariant
            off == k.len() - c.len(),
            k@ == path_key(w, v@),
            c@ == name_code(name@),
            i <= c.len(),
            forall|j: int| 0 <= j < i ==> k@[off + j] == c@[j],
        decreases c.len() - i,
    {
        if k[off + i] != c[i] {
            assert(k@.skip(off as int)[i as int] == k@[off + i]);
            assert(k@.skip(off as int) != c@);
            return false;
        }
        i = i + 1;
    }
    assert(k@.skip(off as int) =~= c@);
    true
}

/// Whether two keys are equal.
pub fn keys_equal(a: &Vec<u64>, b: &Vec<u64>) -> (r: bool)
    ensures
        r == (a@ == b@),
{
    if a.len() != b.len() {
        return false;
    }
    let mut i: usize = 0;
    while i < a.len()
        invariant
            a.len() == b.len(),
            i <= a.len(),
            forall|k: int| 0 <= k < i ==> a@[k] == b@[k],
        decreases a.len() - i,
    {
        if a[i] != b[i] {
            return false;
        }
        i = i + 1;
    }
    assert(a@ =~= b@);
    true
}

/// Appends the encoding of `v[start..end]` as a plain name.
fn push_name_code(key: &mut Vec<u64>, v: &Vec<char>, start: usize, end: usize)
    requires
        start <= end <= v.len(),
    ensures
        final(key)@ == old(key)@ + name_code(v@.subrange(start as int, end as int)),
{
    let ghost seg = v@.subrange(start as int, end as int);
    key.push(4);
    let mut i = start;
    while i < end
        invariant
            start <= i <= end <= v.len(),
            key@ == old(key)@ + seq![4u64] + v@.subrange(start as int, i as int).map_values(
                |c: char| ((c as u32) as u64 + 5) as u64,
            ),
        decreases end - i,
    {
        let c = (v[i] as u32) as u64 + 5;
        key.push(c);
        i = i + 1;
        assert(v@.subrange(start as int, i as int).map_values(|c: char| ((c as u32) as u64 + 5) as u64)
            =~= v@.subrange(start as int, i - 1).map_values(|c: char| ((c as u32) as u64 + 5) as u64).push(
            c,
        ));
    }
    key.push(0);
    assert(key@ =~= old(key)@ + name_code(seg));
}

/// Appends the encoding of the name `v`.
pub fn push_name_code_of(key: &mut Vec<u64>, v: &Vec<char>)
    ensures
        final(key)@ == old(key)@ + name_code(v@),
{
    push_name_code(key, v, 0, v.len());
    assert(v@.subrange(0, v@.len() as int) =~= v@);
}

/// Appends the encoding of the segment `v[start..end]`.
fn push_segment_code(key: &mut Vec<u64>, v: &Vec<char>, start: usize, end: usize, first: bool)
    requires
        start <= end <= v.len(),
    ensures
        final(key)@ == old(key)@ + segment_code(v@.subrange(start as int, end as int), first),
{
    let ghost seg = v@.subrange(start as int, end as int);
    if start == end {
        assert(old(key)@ + seq![] =~= old(key)@);
        return;
    }
    if end - start == 1 && v[start] == '.' {
        assert(seg =~= seq!['.']);
        if first {
            key.push(2);
            key.push(0);
            assert(key@ =~= old(key)@ + seq![2u64, 0u64]);
        } else {
            assert(old(key)@ + seq![] =~= old(key)@);
        }
        return;
    }
    if end - start == 2 && v[start] == '.' && v[start + 1] == '.' {
        assert(seg =~= seq!['.', '.']);
        key.push(3);
        key.push(0);
        assert(key@ =~= old(key)@ + seq![3u64, 0u64]);
        return;
    }
    assert(seg != seq!['.']) by {
        if seg.len() == 1 {
            assert(seg[0] == v@[start as int]);
        }
    }
    assert(seg != seq!['.', '.']) by {
        if seg.len() == 2 {
            assert(seg[0] == v@[start as int]);
            assert(seg[1] == v@[start + 1]);
        }
    }
    push_name_code(key, v, start, end);
}

proof fn lemma_segments_step(w: Platform, t: Seq<char>, k: int)
    requires
        0 <= k < t.len(),
    ensures
        segments(w, t.take(k + 1)) == if is_separator(w, t[k]) {
            segments(w, t.take(k)).push(seq![])
        } else {
            segments(w, t.take(k)).update(
                segments(w, t.take(k)).len() - 1,
                segments(w, t.take(k)).last().push(t[k]),
            )
        },
{
    assert(t.take(k + 1).drop_last() =~= t.take(k));
}

pub proof fn lemma_segments_nonempty(w: Platform, t: Seq<char>)
    ensures
        segments(w, t).len() > 0,
    decreases t.len(),
{
    if t.len() > 0 {
        lemma_segments_nonempty(w, t.drop_last());
    }
}

/// The sort key of the path `v` on `w`.
pub fn path_key_of(w: Platform, v: &Vec<char>) -> (key: Vec<u64>)
    ensures
        key@ == path_key(w, v@),
{
    reveal(path_key);
    let mut key: Vec<u64> = Vec::new();
    let drive = w == Platform::Windows && v.len() >= 2 && ascii_alpha(v[0]) && v[1] == ':';
    let s0: usize = if drive {
        2
    } else {
        0
    };
    if drive {
        let c = v[0] as u64;
        let up = if 0x61 <= c && c <= 0x7a {
            c - 0x20
        } else {
            c
        };
        key.push(0);
        key.push(up + 5);
        key.push(0);
    }
    let ghost rest = after_drive(w, v@);
    assert(rest =~= v@.skip(s0 as int));
    if s0 < v.len() && separator(w, v[s0]) {
        key.push(1);
        key.push(0);
    }
    let ghost base = key@;
    assert(base =~= (if has_drive(w, v@) {
        seq![0u64, (upper_code(v@[0]) + 5) as u64, 0u64]
    } else {
        seq![]
    }) + (if rest.len() > 0 && is_separator(w, rest[0]) {
        seq![1u64, 0u64]
    } else {
        seq![]
    }));
    let mut cs: usize = s0;
    let mut i: usize = s0;
    let mut nseg: usize = 0;
    let ghost mut done: Seq<Seq<char>> = seq![];
    assert(rest.take(0) =~= Seq::<char>::empty());
    assert(v@.subrange(cs as int, i as int) =~= Seq::<char>::empty());
    assert(segments(w, rest.take(0)) =~= done.push(v@.subrange(cs as int, i as int)));
    while i < v.len()
        invariant
            s0 <= cs <= i <= v.len(),
            rest == v@.skip(s0 as int),
            nseg == done.len(),
            nseg <= i,
            segments(w, rest.take(i - s0)) == done.push(v@.subrange(cs as int, i as int)),
            key@ == base + segments_code(done),
        decreases v.len() - i,
    {
        proof {
            lemma_segments_step(w, rest, i - s0);
            assert(rest[i - s0] == v@[i as int]);
        }
        if separator(w, v[i]) {
            let ghost cur = v@.subrange(cs as int, i as int);
            push_segment_code(&mut key, v, cs, i, nseg == 0);
            proof {
                let d2 = done.push(cur);
                assert(d2.drop_last() =~= done);
                assert(d2.last() == cur);
                done = d2;
                assert(v@.subrange(i + 1, i + 1) =~= Seq::<char>::empty());
            }
            nseg = nseg + 1;
            cs = i + 1;
        } else {
            proof {
                assert(v@.subrange(cs as int, i + 1) =~= v@.subrange(cs as int, i as int).push(
                    v@[i as int],
                ));
                assert(done.push(v@.subrange(cs as int, i as int)).update(
                    done.len() as int,
                    v@.subrange(cs as int, i + 1),
                ) =~= done.push(v@.subrange(cs as int, i + 1)));
            }
        }
        i = i + 1;
    }
    let ghost cur = v@.subrange(cs as int, i as int);
    push_segment_code(&mut key, v, cs, v.len(), nseg == 0);
    proof {
        let d2 = done.push(cur);
        assert(d2.drop_last() =~= done);
        assert(rest.take(i - s0) =~= rest);
    }
    key
}

/// The texts of a list of strings.
pub open spec fn texts(v: Seq<String>) -> Seq<Seq<char>> {
    v.map_values(|s: String| s@)
}

/// No earlier candidate names the same path as candidate `j`.
pub open spec fn first_of_its_path(w: Platform, cands: Seq<Seq<char>>, j: int) -> bool {
    forall|k: int| 0 <= k < j ==> !same_path(w, #[trigger] cands[k], cands[j])
}

/// `p` is a candidate, and no earlier candidate names the same path.
pub open spec fn is_first_candidate(w: Platform, cands: Seq<Seq<char>>, p: Seq<char>) -> bool {
    exists|j: int| 0 <= j < cands.len() && cands[j] == p && first_of_its_path(w, cands, j)
}

/// Some element of `out` names the same path as `p`.
pub open spec fn covers_path(w: Platform, out: Seq<Seq<char>>, p: Seq<char>) -> bool {
    exists|i: int| 0 <= i < out.len() && path_key(w, out[i]) == path_key(w, p)
}

/// `out` is `cands` sorted by path order with repeated paths dropped: it is
/// strictly increasing, each element is the first candidate naming its path,
/// and every candidate's path is in it. (This is what a stable sort followed
/// by `dedup` gives; these three properties fix `out` exactly.)
pub open spec fn sorted_unique_paths(w: Platform, out: Seq<Seq<char>>, cands: Seq<Seq<char>>) -> bool {
    &&& forall|i: int, j: int|
        0 <= i < j < out.len() ==> path_before(w, #[trigger] out[i], #[trigger] out[j])
    &&& forall|i: int| 0 <= i < out.len() ==> #[trigger] is_first_candidate(w, cands, out[i])
    &&& forall|j: int| 0 <= j < cands.len() ==> #[trigger] covers_path(w, out, cands[j])
}

/// The state of the sort after the first `j` candidates: `out` is sorted by
/// `keys` (the path keys of its elements); element `i` is candidate
/// `origin[i]`, the first candidate of its path; candidate `k`'s path is
/// element `slot[k]`.
spec fn sort_state(
    w: Platform,
    out: Seq<String>,
    keys: Seq<Vec<u64>>,
    cs: Seq<Seq<char>>,
    j: int,
    origin: Seq<int>,
    slot: Seq<int>,
) -> bool {
    &&& out.len() == keys.len()
    &&& origin.len() == out.len()
    &&& slot.len() == j
    &&& forall|i: int| 0 <= i < out.len() ==> (#[trigger] keys[i])@ == path_key(w, out[i]@)
    &&& forall|a: int, b: int|
        0 <= a < b < keys.len() ==> key_less((#[trigger] keys[a])@, (#[trigger] keys[b])@)
    &&& forall|i: int|
        0 <= i < out.len() ==> {
            &&& 0 <= #[trigger] origin[i] < j
            &&& out[i]@ == cs[origin[i]]
            &&& first_of_its_path(w, cs, origin[i])
        }
    &&& forall|k: int|
        0 <= k < j ==> {
            &&& 0 <= #[trigger] slot[k] < out.len()
            &&& path_key(w, out[slot[k]]@) == path_key(w, cs[k])
        }
}

proof fn lemma_sort_new(
    w: Platform,
    out: Seq<String>,
    keys: Seq<Vec<u64>>,
    cs: Seq<Seq<char>>,
    j: int,
    origin: Seq<int>,
    slot: Seq<int>,
    pos: int,
    c: String,
    key: Vec<u64>,
)
    requires
        sort_state(w, out, keys, cs, j, origin, slot),
        0 <= j < cs.len(),
        0 <= pos <= keys.len(),
        c@ == cs[j],
        key@ == path_key(w, cs[j]),
        forall|i: int| 0 <= i < pos ==> key_less((#[trigger] keys[i])@, key@),
        pos < keys.len() ==> !key_less(keys[pos]@, key@) && keys[pos]@ != key@,
    ensures
        sort_state(
            w,
            out.insert(pos, c),
            keys.insert(pos, key),
            cs,
            j + 1,
            origin.insert(pos, j),
            slot.map_values(|s: int| if s >= pos { s + 1 } else { s }).push(pos),
        ),
{
    let o2 = out.insert(pos, c);
    let k2 = keys.insert(pos, key);
    let or2 = origin.insert(pos, j);
    let sl2 = slot.map_values(|s: int| if s >= pos { s + 1 } else { s }).push(pos);
    assert forall|k: int| 0 <= k < j implies !#[trigger] same_path(w, cs[k], cs[j]) by {
        if same_path(w, cs[k], cs[j]) {
            let i = slot[k];
            assert(keys[i]@ == key@);
            if i < pos {
                lemma_key_less_irreflexive(key@);
            } else if i > pos {
                lemma_key_less_total(keys[pos]@, key@);
            }
        }
    }
    if pos < keys.len() {
        lemma_key_less_total(keys[pos]@, key@);
    }
    assert forall|i: int| 0 <= i < o2.len() implies (#[trigger] k2[i])@ == path_key(w, o2[i]@) by {
        if i < pos {
            assert(k2[i] == keys[i] && o2[i] == out[i]);
        } else if i > pos {
            assert(k2[i] == keys[i - 1] && o2[i] == out[i - 1]);
        }
    }
    assert forall|a: int, b: int|
        0 <= a < b < k2.len() implies key_less((#[trigger] k2[a])@, (#[trigger] k2[b])@) by {
        if b < pos {
            assert(k2[a] == keys[a] && k2[b] == keys[b]);
        } else if b == pos {
            assert(k2[a] == keys[a]);
        } else if a == pos {
            assert(k2[b] == keys[b - 1]);
            if b - 1 > pos {
                lemma_key_less_transitive(key@, keys[pos]@, keys[b - 1]@);
            }
        } else if a < pos {
            assert(k2[a] == keys[a] && k2[b] == keys[b - 1]);
            if b - 1 > pos {
                lemma_key_less_transitive(key@, keys[pos]@, keys[b - 1]@);
            }
            lemma_key_less_transitive(keys[a]@, key@, keys[b - 1]@);
        } else {
            assert(k2[a] == keys[a - 1] && k2[b] == keys[b - 1]);
        }
    }
    assert forall|i: int| 0 <= i < o2.len() implies {
        &&& 0 <= #[trigger] or2[i] < j + 1
        &&& o2[i]@ == cs[or2[i]]
        &&& first_of_its_path(w, cs, or2[i])
    } by {
        if i < pos {
            assert(or2[i] == origin[i] && o2[i] == out[i]);
        } else if i > pos {
            assert(or2[i] == origin[i - 1] && o2[i] == out[i - 1]);
        }
    }
    assert forall|k: int| 0 <= k < j + 1 implies {
        &&& 0 <= #[trigger] sl2[k] < o2.len()
        &&& path_key(w, o2[sl2[k]]@) == path_key(w, cs[k])
    } by {
        if k < j {
            let s = slot[k];
            if s >= pos {
                assert(sl2[k] == s + 1);
                assert(o2[s + 1] == out[s]);
            } else {
                assert(sl2[k] == s);
                assert(o2[s] == out[s]);
            }
        }
    }
}

/// Sorts paths by path order and drops repeated paths, keeping the first.
pub fn sort_paths_unique(w: Platform, cands: &Vec<String>) -> (out: Vec<String>)
    ensures
        sorted_unique_paths(w, texts(out@), texts(cands@)),
{
    let ghost cs = texts(cands@);
    let mut out: Vec<String> = Vec::new();
    let mut keys: Vec<Vec<u64>> = Vec::new();
    let ghost mut origin: Seq<int> = seq![];
    let ghost mut slot: Seq<int> = seq![];
    let mut j: usize = 0;
    while j < cands.len()
        invariant
            j <= cands.len(),
            cs == texts(cands@),
            sort_state(w, out@, keys@, cs, j as int, origin, slot),
        decreases cands.len() - j,
    {
        let c = &cands[j];
        assert(c@ == cs[j as int]);
        let key = path_key_of(w, &chars_of(c.as_str()));
        let mut pos: usize = 0;
        while pos < keys.len() && keys_less(&keys[pos], &key)
            invariant
                pos <= keys.len(),
                forall|i: int| 0 <= i < pos ==> key_less((#[trigger] keys@[i])@, key@),
            decreases keys.len() - pos,
        {
            pos = pos + 1;
        }
        if pos < keys.len() && keys_equal(&keys[pos], &key) {
            proof {
                let s2 = slot.push(pos as int);
                assert forall|k: int| 0 <= k < j + 1 implies {
                    &&& 0 <= #[trigger] s2[k] < out.len()
                    &&& path_key(w, out@[s2[k]]@) == path_key(w, cs[k])
                } by {
                    if k < j {
                        assert(s2[k] == slot[k]);
                    }
                }
                slot = s2;
            }
        } else {
            let c2 = c.clone();
            proof {
                lemma_sort_new(w, out@, keys@, cs, j as int, origin, slot, pos as int, c2, key);
                origin = origin.insert(pos as int, j as int);
                slot = slot.map_values(|s: int| if s >= pos { s + 1 } else { s }).push(pos as int);
            }
            out.insert(pos, c2);
            keys.insert(pos, key);
        }
        j = j + 1;
    }
    proof {
        let ov = texts(out@);
        assert(j == cands.len());
        assert(cs.len() == cands.len());
        assert forall|i: int, k: int|
            0 <= i < k < ov.len() implies path_before(w, #[trigger] ov[i], #[trigger] ov[k]) by {
            assert(keys@[i]@ == path_key(w, ov[i]));
            assert(keys@[k]@ == path_key(w, ov[k]));
        }
        assert forall|i: int| 0 <= i < ov.len() implies #[trigger] is_first_candidate(
            w,
            cs,
            ov[i],
        ) by {
            assert(ov[i] == out@[i]@);
            let k = origin[i];
            assert(cs[k] == ov[i]);
        }
        assert forall|k: int| 0 <= k < cs.len() implies #[trigger] covers_path(w, ov, cs[k]) by {
            let i = slot[k];
            assert(ov[i] == out@[i]@);
        }
        assert(sorted_unique_paths(w, ov, cs));
    }
    out
}

} // verus!
