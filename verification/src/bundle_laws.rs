//! The signed cmux application is never a target: no path that the removal
//! deletes or writes lies inside `/Applications/cmux.app`, unless the home
//! directory or a path that npm reported already does.
use vstd::prelude::*;
use crate::artifact_laws::plain_name;
use crate::guard::CMUX_CLEAN_BIN;
use crate::paths::{
    after_drive, first_of_its_path, has_drive, is_ascii_alpha, is_first_candidate, is_separator,
    join_path, main_separator, name_code, path_key, segment_code, segments,
    segments_code, sorted_unique_paths, Platform,
};
use crate::removal::{mirror_target, zshrc_target, RunContext};
use crate::targets::{
    all_prefix_artifacts, artifact_candidates, npm_prefix_list, prefix_artifacts,
    shell_config_list,
};

verus! {

/// The signed cmux application bundle.
pub open spec fn cmux_app() -> Seq<char> {
    "/Applications/cmux.app"@
}

/// `p` is `dir` or lies below it, comparing whole components as
/// `Path::starts_with` does.
pub open spec fn path_within(w: Platform, p: Seq<char>, dir: Seq<char>) -> bool {
    let k = path_key(w, p);
    let d = path_key(w, dir);
    d.len() <= k.len() && k.take(d.len() as int) == d
}

/// A path that starts at a root: with a separator, or with a drive and a
/// separator.
pub open spec fn rooted(w: Platform, u: Seq<char>) -> bool {
    ||| (u.len() > 0 && is_separator(w, u[0]))
    ||| (has_drive(w, u) && u.len() > 2 && is_separator(w, u[2]))
}

/// The codes of the components of a relative path that follows a root.
spec fn tail_code(segs: Seq<Seq<char>>) -> Seq<u64>
    decreases segs.len(),
{
    if segs.len() == 0 {
        seq![]
    } else {
        tail_code(segs.drop_last()) + segment_code(segs.last(), false)
    }
}

/// Splitting after a separator splits the components there.
proof fn lemma_segments_after_separator(w: Platform, u: Seq<char>, v: Seq<char>)
    requires
        u.len() > 0,
        is_separator(w, u.last()),
    ensures
        segments(w, u + v) == segments(w, u).drop_last() + segments(w, v),
    decreases v.len(),
{
    if v.len() == 0 {
        assert(u + v =~= u);
        assert(u.drop_last().push(u.last()) =~= u);
        assert(segments(w, u).drop_last() + segments(w, v) =~= segments(w, u));
    } else {
        let v0 = v.drop_last();
        lemma_segments_after_separator(w, u, v0);
        assert((u + v).drop_last() =~= u + v0);
        assert((u + v).last() == v.last());
        crate::paths::lemma_segments_nonempty(w, v0);
        let a = segments(w, u).drop_last();
        let b = segments(w, v0);
        if is_separator(w, v.last()) {
            assert((a + b).push(seq![]) =~= a + b.push(seq![]));
        } else {
            assert((a + b).last() == b.last());
            assert((a + b).update((a + b).len() - 1, b.last().push(v.last())) =~= a + b.update(
                b.len() - 1,
                b.last().push(v.last()),
            ));
        }
    }
}

proof fn lemma_segments_code_append(f: Seq<Seq<char>>, g: Seq<Seq<char>>)
    requires
        f.len() >= 1,
    ensures
        segments_code(f + g) == segments_code(f) + tail_code(g),
    decreases g.len(),
{
    if g.len() == 0 {
        assert(f + g =~= f);
        assert(segments_code(f) + tail_code(g) =~= segments_code(f));
    } else {
        let g0 = g.drop_last();
        lemma_segments_code_append(f, g0);
        assert((f + g).drop_last() =~= f + g0);
        assert((f + g).last() == g.last());
        assert(segments_code(f + g) == segments_code(f + g0) + segment_code(g.last(), false));
        assert(segments_code(f) + tail_code(g0) + segment_code(g.last(), false) =~= segments_code(f)
            + tail_code(g));
    }
}

proof fn lemma_separator_not_alpha(w: Platform, c: char)
    requires
        is_separator(w, c),
    ensures
        !is_ascii_alpha(c),
{
}

/// After a rooted prefix that ends in a separator, the key of the rest is
/// appended to the key of the prefix.
proof fn lemma_key_after_separator(w: Platform, u: Seq<char>, v: Seq<char>)
    requires
        rooted(w, u),
        is_separator(w, u.last()),
    ensures
        path_key(w, u + v) == path_key(w, u) + tail_code(segments(w, v)),
        rooted(w, u + v),
{
    reveal(path_key);
    let s = u + v;
    if u.len() > 0 && is_separator(w, u[0]) {
        lemma_separator_not_alpha(w, u[0]);
        assert(s[0] == u[0]);
        assert(!has_drive(w, u));
        assert(!has_drive(w, s));
        assert(after_drive(w, s) == after_drive(w, u) + v);
    } else {
        assert(s[0] == u[0] && s[1] == u[1] && s[2] == u[2]);
        assert(has_drive(w, s));
        assert(s.skip(2) =~= u.skip(2) + v);
    }
    let r = after_drive(w, u);
    assert(r.len() > 0 && is_separator(w, r[0]));
    assert(r.last() == u.last());
    assert(after_drive(w, s) == r + v);
    assert((r + v)[0] == r[0]);
    lemma_segments_after_separator(w, r, v);
    assert(r.drop_last().push(r.last()) =~= r);
    let f = segments(w, r.drop_last());
    crate::paths::lemma_segments_nonempty(w, r.drop_last());
    assert(segments(w, r) == f.push(seq![]));
    assert(segments(w, r).drop_last() =~= f);
    assert(segments(w, r).drop_last() == f);
    assert(segments_code(f.push(seq![])) == segments_code(f) + segment_code(seq![], false)) by {
        assert(f.push(seq![]).drop_last() =~= f);
    }
    assert(segments_code(segments(w, r)) =~= segments_code(f));
    lemma_segments_code_append(f, segments(w, v));
    let pre = (if has_drive(w, s) {
        seq![0u64, (crate::paths::upper_code(s[0]) + 5) as u64, 0u64]
    } else {
        seq![]
    }) + seq![1u64, 0u64];
    assert(path_key(w, u) =~= pre + segments_code(f));
    assert(path_key(w, s) =~= pre + (segments_code(f) + tail_code(segments(w, v))));
}

/// A trailing separator adds no component.
proof fn lemma_key_push_separator(w: Platform, u: Seq<char>)
    requires
        rooted(w, u),
    ensures
        path_key(w, u.push(main_separator(w))) == path_key(w, u),
        rooted(w, u.push(main_separator(w))),
        is_separator(w, u.push(main_separator(w)).last()),
{
    reveal(path_key);
    let sep = main_separator(w);
    let s = u.push(sep);
    if u.len() > 0 && is_separator(w, u[0]) {
        lemma_separator_not_alpha(w, u[0]);
        assert(s[0] == u[0]);
        assert(!has_drive(w, s));
    } else {
        assert(s[0] == u[0] && s[1] == u[1] && s[2] == u[2]);
        assert(s.skip(2) =~= u.skip(2).push(sep));
    }
    let r = after_drive(w, u);
    assert(after_drive(w, s) =~= r.push(sep));
    assert(r.push(sep)[0] == r[0]);
    assert(r.push(sep).drop_last() =~= r);
    crate::paths::lemma_segments_nonempty(w, r);
    assert(segments(w, r.push(sep)) == segments(w, r).push(seq![]));
    assert(segments(w, r).push(seq![]).drop_last() =~= segments(w, r));
    assert(segments_code(segments(w, r).push(seq![])) =~= segments_code(segments(w, r)));
}

/// Joining onto a rooted path appends the components of the suffix.
proof fn lemma_key_join(w: Platform, base: Seq<char>, suffix: Seq<char>)
    requires
        rooted(w, base),
    ensures
        path_key(w, join_path(w, base, suffix)) == path_key(w, base) + tail_code(
            segments(w, suffix),
        ),
        rooted(w, join_path(w, base, suffix)),
{
    if base.len() > 0 && !is_separator(w, base.last()) {
        lemma_key_push_separator(w, base);
        lemma_key_after_separator(w, base.push(main_separator(w)), suffix);
    } else {
        lemma_key_after_separator(w, base, suffix);
    }
}

proof fn lemma_segments_of_name(w: Platform, a: Seq<char>)
    requires
        forall|i: int| 0 <= i < a.len() ==> !is_separator(w, #[trigger] a[i]),
    ensures
        segments(w, a) == seq![a],
    decreases a.len(),
{
    if a.len() > 0 {
        let a0 = a.drop_last();
        assert forall|i: int| 0 <= i < a0.len() implies !is_separator(w, #[trigger] a0[i]) by {
            assert(a0[i] == a[i]);
        }
        lemma_segments_of_name(w, a0);
        assert(!is_separator(w, a[a.len() - 1]));
        assert(a0.push(a.last()) =~= a);
        assert(seq![a0].update(0, a) =~= seq![a]);
    } else {
        assert(a =~= Seq::<char>::empty());
    }
}

/// The first component of `a` followed by a separator (or by nothing) is `a`.
proof fn lemma_first_segment(w: Platform, a: Seq<char>, b: Seq<char>)
    requires
        forall|i: int| 0 <= i < a.len() ==> !is_separator(w, #[trigger] a[i]),
        b.len() == 0 || is_separator(w, b[0]),
    ensures
        segments(w, a + b).len() >= 1,
        segments(w, a + b)[0] == a,
{
    lemma_segments_of_name(w, a);
    if b.len() == 0 {
        assert(a + b =~= a);
    } else {
        let u = a.push(b[0]);
        assert(u.drop_last() =~= a);
        assert(segments(w, u) == seq![a].push(seq![]));
        assert(a + b =~= u + b.drop_first());
        lemma_segments_after_separator(w, u, b.drop_first());
        assert(segments(w, u).drop_last() =~= seq![a]);
    }
}

proof fn lemma_tail_code_starts(g: Seq<Seq<char>>)
    requires
        g.len() >= 1,
    ensures
        tail_code(g).len() >= segment_code(g[0], false).len(),
        tail_code(g).take(segment_code(g[0], false).len() as int) == segment_code(g[0], false),
    decreases g.len(),
{
    let c = segment_code(g[0], false);
    if g.len() == 1 {
        assert(g.drop_last() =~= Seq::<Seq<char>>::empty());
        assert(tail_code(g.drop_last()) == Seq::<u64>::empty());
        assert(g.last() == g[0]);
        assert(tail_code(g) =~= c);
        assert(tail_code(g).take(c.len() as int) =~= c);
    } else {
        lemma_tail_code_starts(g.drop_last());
        assert(g.drop_last()[0] == g[0]);
        let t = tail_code(g.drop_last());
        assert(tail_code(g).take(c.len() as int) =~= t.take(c.len() as int));
    }
}

/// Two different names have codes that differ where both are defined.
proof fn lemma_name_codes_differ(f: Seq<char>, g: Seq<char>)
    requires
        f != g,
    ensures
        exists|i: int|
            0 <= i < name_code(f).len() && i < name_code(g).len() && name_code(f)[i]
                != name_code(g)[i],
{
    let cf = name_code(f);
    let cg = name_code(g);
    if exists|j: int| 0 <= j < f.len() && j < g.len() && f[j] != g[j] {
        let j = choose|j: int| 0 <= j < f.len() && j < g.len() && f[j] != g[j];
        crate::artifact_laws::lemma_char_code_eq(f[j], g[j]);
        crate::artifact_laws::lemma_char_code_eq(g[j], f[j]);
        assert(cf[1 + j] == ((f[j] as u32) as u64 + 5) as u64);
        assert(cg[1 + j] == ((g[j] as u32) as u64 + 5) as u64);
        assert(cf[1 + j] != cg[1 + j]);
    } else if f.len() < g.len() {
        crate::artifact_laws::lemma_char_code_eq(g[f.len() as int], g[f.len() as int]);
        assert(cf[f.len() + 1int] == 0);
        assert(cg[f.len() + 1int] == ((g[f.len() as int] as u32) as u64 + 5) as u64);
    } else if g.len() < f.len() {
        crate::artifact_laws::lemma_char_code_eq(f[g.len() as int], f[g.len() as int]);
        assert(cg[g.len() + 1int] == 0);
        assert(cf[g.len() + 1int] == ((f[g.len() as int] as u32) as u64 + 5) as u64);
    } else {
        assert(f =~= g);
    }
}

proof fn lemma_name_code_inner_nonzero(g: Seq<char>, i: int)
    requires
        0 <= i < name_code(g).len() - 1,
    ensures
        name_code(g)[i] != 0,
{
    if i > 0 {
        crate::artifact_laws::lemma_char_code_eq(g[i - 1], g[i - 1]);
        assert(name_code(g)[i] == ((g[i - 1] as u32) as u64 + 5) as u64);
    }
}

proof fn lemma_segments_code_ends_in_zero(segs: Seq<Seq<char>>)
    ensures
        segments_code(segs).len() == 0 || segments_code(segs).last() == 0,
    decreases segs.len(),
{
    if segs.len() > 0 {
        lemma_segments_code_ends_in_zero(segs.drop_last());
        let c = segment_code(segs.last(), segs.len() == 1);
        if c.len() > 0 {
            assert((segments_code(segs.drop_last()) + c).last() == c.last());
        } else {
            assert(segments_code(segs.drop_last()) + c =~= segments_code(segs.drop_last()));
        }
    }
}

proof fn lemma_tail_code_of_name(w: Platform, a: Seq<char>)
    requires
        plain_name(w, a),
    ensures
        tail_code(seq![a]) == name_code(a),
        tail_code(seq![a, seq![]]) == name_code(a),
{
    assert(seq![a].drop_last() =~= Seq::<Seq<char>>::empty());
    assert(tail_code(Seq::<Seq<char>>::empty()) == Seq::<u64>::empty());
    assert(tail_code(seq![a]) =~= segment_code(a, false));
    assert(seq![a, seq![]].drop_last() =~= seq![a]);
    assert(tail_code(seq![a, seq![]]) =~= tail_code(seq![a]) + segment_code(seq![], false));
}

proof fn lemma_key_of_root(w: Platform)
    ensures
        path_key(w, "/"@) == seq![1u64, 0u64],
        rooted(w, "/"@),
{
    reveal(path_key);
    reveal_strlit("/");
    let r = "/"@;
    assert(r.len() == 1 && r[0] == '/');
    assert(!has_drive(w, r));
    assert(after_drive(w, r) == r);
    assert(r.drop_last() =~= Seq::<char>::empty());
    assert(segments(w, Seq::<char>::empty()) == seq![Seq::<char>::empty()]);
    assert(segments(w, r) =~= seq![Seq::<char>::empty(), Seq::<char>::empty()]);
    let segs = seq![Seq::<char>::empty(), Seq::<char>::empty()];
    assert(segs.drop_last() =~= seq![Seq::<char>::empty()]);
    assert(seq![Seq::<char>::empty()].drop_last() =~= Seq::<Seq<char>>::empty());
    assert(segments_code(Seq::<Seq<char>>::empty()) == Seq::<u64>::empty());
    assert(segment_code(Seq::<char>::empty(), true) == Seq::<u64>::empty());
    assert(segment_code(Seq::<char>::empty(), false) == Seq::<u64>::empty());
    assert(seq![Seq::<char>::empty()].last() == Seq::<char>::empty());
    assert(segments_code(seq![Seq::<char>::empty()]) =~= Seq::<u64>::empty());
    assert(segments_code(segs) =~= Seq::<u64>::empty());
    assert(path_key(w, r) =~= seq![1u64, 0u64]);
}

proof fn lemma_app_names(w: Platform)
    ensures
        plain_name(w, "Applications"@),
        plain_name(w, "cmux.app"@),
{
    reveal_strlit("Applications");
    reveal_strlit("cmux.app");
    assert("Applications"@[0] == 'A');
    assert("cmux.app"@[0] == 'c');
    assert("Applications"@[1] == 'p');
    assert("cmux.app"@[1] == 'm');
}

/// The components of the cmux application: the root, `Applications` and
/// `cmux.app`.
proof fn lemma_cmux_app_key(w: Platform)
    ensures
        path_key(w, cmux_app()) == seq![1u64, 0u64] + name_code("Applications"@) + name_code(
            "cmux.app"@,
        ),
{
    reveal_strlit("/Applications/cmux.app");
    reveal_strlit("/");
    reveal_strlit("Applications");
    reveal_strlit("cmux.app");
    lemma_app_names(w);
    lemma_key_of_root(w);
    let app = "Applications"@;
    let u1 = "/"@ + app.push('/');
    lemma_first_segment(w, app, seq!['/']);
    assert(app + seq!['/'] =~= app.push('/'));
    lemma_segments_after_separator(w, app.push('/'), Seq::<char>::empty());
    assert(app.push('/') + Seq::<char>::empty() =~= app.push('/'));
    lemma_segments_of_name(w, app);
    assert(app.push('/').drop_last() =~= app);
    assert(segments(w, app.push('/')) =~= seq![app, Seq::<char>::empty()]);
    lemma_key_after_separator(w, "/"@, app.push('/'));
    lemma_tail_code_of_name(w, app);
    assert(u1.last() == '/');
    lemma_key_after_separator(w, u1, "cmux.app"@);
    lemma_segments_of_name(w, "cmux.app"@);
    lemma_tail_code_of_name(w, "cmux.app"@);
    assert(cmux_app() =~= u1 + "cmux.app"@);
}

/// The key of a rooted path starts with its drive or its root and ends a
/// component.
proof fn lemma_rooted_key(w: Platform, u: Seq<char>)
    requires
        rooted(w, u),
    ensures
        path_key(w, u).len() >= 2,
        path_key(w, u).last() == 0,
        path_key(w, u)[0] == 0 || path_key(w, u)[0] == 1,
        path_key(w, u)[0] == 1 ==> !has_drive(w, u),
{
    reveal(path_key);
    if u.len() > 0 && is_separator(w, u[0]) {
        lemma_separator_not_alpha(w, u[0]);
    }
    let r = after_drive(w, u);
    assert(r.len() > 0 && is_separator(w, r[0]));
    let c = segments_code(segments(w, r));
    lemma_segments_code_ends_in_zero(segments(w, r));
    let pre = (if has_drive(w, u) {
        seq![0u64, (crate::paths::upper_code(u[0]) + 5) as u64, 0u64]
    } else {
        seq![]
    }) + seq![1u64, 0u64];
    assert(path_key(w, u) == pre + c);
    if c.len() > 0 {
        assert((pre + c).last() == c.last());
    } else {
        assert(pre + c =~= pre);
    }
}

/// Joining a path that begins with a plain name other than `Applications`
/// and `cmux.app` onto a rooted path outside the cmux application stays
/// outside it.
proof fn lemma_join_stays_out(w: Platform, base: Seq<char>, a: Seq<char>, b: Seq<char>)
    requires
        rooted(w, base),
        !path_within(w, base, cmux_app()),
        plain_name(w, a),
        b.len() == 0 || is_separator(w, b[0]),
        a != "Applications"@,
        a != "cmux.app"@,
    ensures
        rooted(w, join_path(w, base, a + b)),
        !path_within(w, join_path(w, base, a + b), cmux_app()),
{
    let j = join_path(w, base, a + b);
    lemma_key_join(w, base, a + b);
    lemma_first_segment(w, a, b);
    lemma_tail_code_starts(segments(w, a + b));
    let k = path_key(w, base);
    let t = tail_code(segments(w, a + b));
    let na = name_code(a);
    assert(segment_code(a, false) == na);
    lemma_cmux_app_key(w);
    lemma_app_names(w);
    let app = "Applications"@;
    let cmux = "cmux.app"@;
    let d = path_key(w, cmux_app());
    reveal_strlit("Applications");
    reveal_strlit("cmux.app");
    assert(name_code(app).len() == 14);
    assert(name_code(cmux).len() == 10);
    assert(d.len() == 26);
    lemma_rooted_key(w, base);
    if path_within(w, j, cmux_app()) {
        let kt = k + t;
        assert(path_key(w, j) == kt);
        assert(kt.take(26) == d);
        if k.len() >= 26 {
            assert(k.take(26) =~= kt.take(26));
            assert(false);
        } else {
            assert forall|i: int| 0 <= i < k.len() implies k[i] == d[i] by {
                assert(kt.take(26)[i] == kt[i]);
            }
            assert(k[0] == d[0]);
            assert(d[0] == 1);
            let m = k.len() as int;
            assert(d[m - 1] == 0);
            let g = if m == 2 {
                app
            } else {
                cmux
            };
            if m - 1 >= 2 && m - 1 < 15 {
                assert(d[m - 1] == name_code(app)[m - 3]);
                lemma_name_code_inner_nonzero(app, m - 3);
                assert(false);
            } else if m - 1 >= 16 && m - 1 < 25 {
                assert(d[m - 1] == name_code(cmux)[m - 17]);
                lemma_name_code_inner_nonzero(cmux, m - 17);
                assert(false);
            }
            assert(m == 2 || m == 16);
            assert forall|i: int| 0 <= i < name_code(g).len() implies d[m + i] == name_code(g)[i] by {
                if m == 2 {
                    assert(d[m + i] == (name_code(app) + name_code(cmux))[i]);
                }
            }
            lemma_name_codes_differ(a, g);
            let i = choose|i: int|
                0 <= i < name_code(a).len() && i < name_code(g).len() && name_code(a)[i]
                    != name_code(g)[i];
            assert(t.take(na.len() as int)[i] == t[i]);
            assert(kt[m + i] == t[i]);
            assert(kt.take(26)[m + i] == kt[m + i]);
            assert(false);
        }
    }
}

/// A first component that cannot lead into the cmux application.
spec fn harmless_first(w: Platform, a: Seq<char>) -> bool {
    &&& plain_name(w, a)
    &&& a != "Applications"@
    &&& a != "cmux.app"@
}

/// A path outside the cmux application.
spec fn safe_base(w: Platform, p: Seq<char>) -> bool {
    !path_within(w, p, cmux_app())
}

proof fn lemma_segments_code_first(segs: Seq<Seq<char>>)
    ensures
        segments_code(segs).len() > 0 ==> segments_code(segs)[0] >= 2,
    decreases segs.len(),
{
    if segs.len() > 0 {
        lemma_segments_code_first(segs.drop_last());
        let a = segments_code(segs.drop_last());
        let c = segment_code(segs.last(), segs.len() == 1);
        if a.len() > 0 {
            assert((a + c)[0] == a[0]);
        } else {
            assert(a + c =~= c);
        }
    }
}

/// Only a path that starts with a separator and has no drive can lie in the
/// cmux application.
proof fn lemma_within_starts_at_root(w: Platform, p: Seq<char>)
    requires
        path_within(w, p, cmux_app()),
    ensures
        p.len() > 0,
        is_separator(w, p[0]),
        !has_drive(w, p),
{
    reveal(path_key);
    lemma_cmux_app_key(w);
    reveal_strlit("Applications");
    reveal_strlit("cmux.app");
    let d = path_key(w, cmux_app());
    assert(d[0] == 1);
    assert(d.len() == 26);
    let k = path_key(w, p);
    assert(k.take(26)[0] == k[0]);
    assert(k[0] == 1);
    if has_drive(w, p) {
        assert(k[0] == 0);
    } else if !(p.len() > 0 && is_separator(w, p[0])) {
        lemma_segments_code_first(segments(w, p));
        assert(k == segments_code(segments(w, after_drive(w, p))));
    }
}

/// Joining onto a path that does not start at a root never leads into the
/// cmux application.
proof fn lemma_join_unrooted_out(w: Platform, base: Seq<char>, s: Seq<char>, a: Seq<char>)
    requires
        !rooted(w, base),
        plain_name(w, a),
        s.len() >= a.len(),
        s.take(a.len() as int) == a,
    ensures
        !path_within(w, join_path(w, base, s), cmux_app()),
{
    let j = join_path(w, base, s);
    if path_within(w, j, cmux_app()) {
        lemma_within_starts_at_root(w, j);
        if base.len() > 0 {
            if !is_separator(w, base.last()) {
                assert(j == base.push(main_separator(w)) + s);
            }
            assert(j[0] == base[0]);
        } else {
            assert(j =~= s);
            assert(s[0] == s.take(a.len() as int)[0]);
            assert(j[0] == a[0]);
        }
    }
}

proof fn lemma_join_safe(w: Platform, base: Seq<char>, s: Seq<char>, a: Seq<char>, b: Seq<char>)
    requires
        safe_base(w, base),
        harmless_first(w, a),
        b.len() == 0 || b[0] == '/',
        s == a + b,
    ensures
        safe_base(w, join_path(w, base, s)),
{
    if rooted(w, base) {
        lemma_join_stays_out(w, base, a, b);
    } else {
        assert(s.take(a.len() as int) =~= a);
        lemma_join_unrooted_out(w, base, s, a);
    }
}

proof fn lemma_root_safe(w: Platform)
    ensures
        safe_base(w, "/"@),
{
    lemma_key_of_root(w);
    lemma_cmux_app_key(w);
    reveal_strlit("Applications");
    reveal_strlit("cmux.app");
    assert(name_code("Applications"@).len() == 14);
    assert(path_key(w, cmux_app()).len() == 26);
}

proof fn lemma_harmless_name(w: Platform, a: Seq<char>)
    requires
        a.len() >= 3,
        forall|i: int| 0 <= i < a.len() ==> a[i] != '/' && a[i] != '\\' && a[i] != ':',
        a.len() != 12 || a[0] != 'A',
        a.len() != 8 || a[0] != 'c',
    ensures
        harmless_first(w, a),
{
    reveal_strlit("Applications");
    reveal_strlit("cmux.app");
    assert(a.len() != 2 ==> a != seq!['.', '.']);
    assert(a != seq!['.']);
    assert(a[1] != ':');
    if a == "Applications"@ {
        assert(a[0] == 'A');
    }
    if a == "cmux.app"@ {
        assert(a[0] == 'c');
    }
}

proof fn lemma_first_names(w: Platform)
    ensures
        harmless_first(w, ".grok"@),
        harmless_first(w, ".local"@),
        harmless_first(w, "AppData"@),
        harmless_first(w, "opt"@),
        harmless_first(w, "usr"@),
        harmless_first(w, ".hermes"@),
        harmless_first(w, "lib"@),
        harmless_first(w, "node_modules"@),
        harmless_first(w, "grok.cmd"@),
        harmless_first(w, "bin"@),
        harmless_first(w, "@vibe-kit"@),
        harmless_first(w, ".zshenv"@),
        harmless_first(w, ".zprofile"@),
        harmless_first(w, ".zshrc"@),
        harmless_first(w, ".bash_profile"@),
        harmless_first(w, ".bashrc"@),
        harmless_first(w, ".profile"@),
        harmless_first(w, ".config"@),
        harmless_first(w, "Documents"@),
{
    assert(harmless_first(w, ".grok"@)) by {
        reveal_strlit(".grok");
        lemma_harmless_name(w, ".grok"@);
    }
    assert(harmless_first(w, ".local"@)) by {
        reveal_strlit(".local");
        lemma_harmless_name(w, ".local"@);
    }
    assert(harmless_first(w, "AppData"@)) by {
        reveal_strlit("AppData");
        lemma_harmless_name(w, "AppData"@);
    }
    assert(harmless_first(w, "opt"@)) by {
        reveal_strlit("opt");
        lemma_harmless_name(w, "opt"@);
    }
    assert(harmless_first(w, "usr"@)) by {
        reveal_strlit("usr");
        lemma_harmless_name(w, "usr"@);
    }
    assert(harmless_first(w, ".hermes"@)) by {
        reveal_strlit(".hermes");
        lemma_harmless_name(w, ".hermes"@);
    }
    assert(harmless_first(w, "lib"@)) by {
        reveal_strlit("lib");
        lemma_harmless_name(w, "lib"@);
    }
    assert(harmless_first(w, "node_modules"@)) by {
        reveal_strlit("node_modules");
        lemma_harmless_name(w, "node_modules"@);
    }
    assert(harmless_first(w, "grok.cmd"@)) by {
        reveal_strlit("grok.cmd");
        lemma_harmless_name(w, "grok.cmd"@);
    }
    assert(harmless_first(w, "bin"@)) by {
        reveal_strlit("bin");
        lemma_harmless_name(w, "bin"@);
    }
    assert(harmless_first(w, "@vibe-kit"@)) by {
        reveal_strlit("@vibe-kit");
        lemma_harmless_name(w, "@vibe-kit"@);
    }
    assert(harmless_first(w, ".zshenv"@)) by {
        reveal_strlit(".zshenv");
        lemma_harmless_name(w, ".zshenv"@);
    }
    assert(harmless_first(w, ".zprofile"@)) by {
        reveal_strlit(".zprofile");
        lemma_harmless_name(w, ".zprofile"@);
    }
    assert(harmless_first(w, ".zshrc"@)) by {
        reveal_strlit(".zshrc");
        lemma_harmless_name(w, ".zshrc"@);
    }
    assert(harmless_first(w, ".bash_profile"@)) by {
        reveal_strlit(".bash_profile");
        lemma_harmless_name(w, ".bash_profile"@);
    }
    assert(harmless_first(w, ".bashrc"@)) by {
        reveal_strlit(".bashrc");
        lemma_harmless_name(w, ".bashrc"@);
    }
    assert(harmless_first(w, ".profile"@)) by {
        reveal_strlit(".profile");
        lemma_harmless_name(w, ".profile"@);
    }
    assert(harmless_first(w, ".config"@)) by {
        reveal_strlit(".config");
        lemma_harmless_name(w, ".config"@);
    }
    assert(harmless_first(w, "Documents"@)) by {
        reveal_strlit("Documents");
        lemma_harmless_name(w, "Documents"@);
    }
}

proof fn lemma_prefix_safe(w: Platform, p: Seq<char>)
    requires
        safe_base(w, p),
    ensures
        forall|j: int| 0 <= j < 3 ==> safe_base(w, #[trigger] prefix_artifacts(w, p)[j]),
{
    lemma_first_names(w);
    reveal_strlit("lib/node_modules/@vibe-kit/grok-cli");
    reveal_strlit("lib");
    reveal_strlit("/node_modules/@vibe-kit/grok-cli");
    assert("lib/node_modules/@vibe-kit/grok-cli"@ =~= "lib"@ + "/node_modules/@vibe-kit/grok-cli"@);
    reveal_strlit("node_modules/@vibe-kit/grok-cli");
    reveal_strlit("node_modules");
    reveal_strlit("/@vibe-kit/grok-cli");
    assert("node_modules/@vibe-kit/grok-cli"@ =~= "node_modules"@ + "/@vibe-kit/grok-cli"@);
    reveal_strlit("grok.cmd");
    reveal_strlit("grok.cmd");
    reveal_strlit("");
    assert("grok.cmd"@ =~= "grok.cmd"@ + ""@);
    reveal_strlit("bin/grok");
    reveal_strlit("bin");
    reveal_strlit("/grok");
    assert("bin/grok"@ =~= "bin"@ + "/grok"@);
    lemma_join_safe(w, p, "lib/node_modules/@vibe-kit/grok-cli"@, "lib"@, "/node_modules/@vibe-kit/grok-cli"@);
    lemma_join_safe(w, p, "node_modules/@vibe-kit/grok-cli"@, "node_modules"@, "/@vibe-kit/grok-cli"@);
    lemma_join_safe(w, p, "grok.cmd"@, "grok.cmd"@, ""@);
    lemma_join_safe(w, p, "bin/grok"@, "bin"@, "/grok"@);
}

proof fn lemma_all_prefix_artifacts_safe(w: Platform, prefixes: Seq<Seq<char>>)
    requires
        forall|j: int| 0 <= j < prefixes.len() ==> safe_base(w, #[trigger] prefixes[j]),
    ensures
        forall|j: int|
            0 <= j < all_prefix_artifacts(w, prefixes).len() ==> safe_base(
                w,
                #[trigger] all_prefix_artifacts(w, prefixes)[j],
            ),
    decreases prefixes.len(),
{
    if prefixes.len() > 0 {
        let p0 = prefixes.drop_last();
        assert forall|j: int| 0 <= j < p0.len() implies safe_base(w, #[trigger] p0[j]) by {
            assert(p0[j] == prefixes[j]);
        }
        lemma_all_prefix_artifacts_safe(w, p0);
        assert(safe_base(w, prefixes[prefixes.len() - 1]));
        lemma_prefix_safe(w, prefixes.last());
        let a = all_prefix_artifacts(w, p0);
        let b = prefix_artifacts(w, prefixes.last());
        assert forall|j: int| 0 <= j < (a + b).len() implies safe_base(w, #[trigger] (a + b)[j]) by {
            if j < a.len() {
                assert((a + b)[j] == a[j]);
            } else {
                assert((a + b)[j] == b[j - a.len()]);
            }
        }
    }
}

/// Whether an optional path that npm reported lies outside the cmux
/// application (or is absent).
pub open spec fn npm_path_outside(w: Platform, o: Option<Seq<char>>) -> bool {
    match o {
        Some(p) => !path_within(w, p, cmux_app()),
        None => true,
    }
}

proof fn lemma_npm_prefixes_safe(w: Platform, home: Seq<char>, np: Option<Seq<char>>)
    requires
        safe_base(w, home),
        npm_path_outside(w, np),
    ensures
        forall|j: int|
            0 <= j < npm_prefix_list(w, home, np).len() ==> safe_base(
                w,
                #[trigger] npm_prefix_list(w, home, np)[j],
            ),
{
    lemma_first_names(w);
    lemma_root_safe(w);
    reveal_strlit(".hermes/node");
    reveal_strlit(".hermes");
    reveal_strlit("/node");
    assert(".hermes/node"@ =~= ".hermes"@ + "/node"@);
    reveal_strlit(".local");
    reveal_strlit(".local");
    reveal_strlit("");
    assert(".local"@ =~= ".local"@ + ""@);
    reveal_strlit("opt/homebrew");
    reveal_strlit("opt");
    reveal_strlit("/homebrew");
    assert("opt/homebrew"@ =~= "opt"@ + "/homebrew"@);
    reveal_strlit("usr/local");
    reveal_strlit("usr");
    reveal_strlit("/local");
    assert("usr/local"@ =~= "usr"@ + "/local"@);
    reveal_strlit("/opt/homebrew");
    reveal_strlit("/usr/local");
    reveal_strlit("/");
    lemma_join_safe(w, home, ".hermes/node"@, ".hermes"@, "/node"@);
    lemma_join_safe(w, home, ".local"@, ".local"@, ""@);
    lemma_join_safe(w, "/"@, "opt/homebrew"@, "opt"@, "/homebrew"@);
    lemma_join_safe(w, "/"@, "usr/local"@, "usr"@, "/local"@);
    assert(join_path(w, "/"@, "opt/homebrew"@) =~= "/opt/homebrew"@);
    assert(join_path(w, "/"@, "usr/local"@) =~= "/usr/local"@);
    let l = npm_prefix_list(w, home, np);
    assert forall|j: int| 0 <= j < l.len() implies safe_base(w, #[trigger] l[j]) by {
        if j >= 2 && w != Platform::Windows && j < 4 {
            if j == 2 {
                assert(l[j] == "/opt/homebrew"@);
            } else {
                assert(l[j] == "/usr/local"@);
            }
        }
    }
}

proof fn lemma_candidates_safe(
    w: Platform,
    home: Seq<char>,
    np: Option<Seq<char>>,
    nr: Option<Seq<char>>,
)
    requires
        safe_base(w, home),
        npm_path_outside(w, np),
        npm_path_outside(w, nr),
    ensures
        forall|j: int|
            0 <= j < artifact_candidates(w, home, np, nr).len() ==> safe_base(
                w,
                #[trigger] artifact_candidates(w, home, np, nr)[j],
            ),
{
    lemma_first_names(w);
    lemma_root_safe(w);
    reveal_strlit(".grok");
    reveal_strlit(".grok");
    reveal_strlit("");
    assert(".grok"@ =~= ".grok"@ + ""@);
    reveal_strlit(".local/bin/grok.exe");
    reveal_strlit(".local");
    reveal_strlit("/bin/grok.exe");
    assert(".local/bin/grok.exe"@ =~= ".local"@ + "/bin/grok.exe"@);
    reveal_strlit("AppData/Roaming/npm/grok.cmd");
    reveal_strlit("AppData");
    reveal_strlit("/Roaming/npm/grok.cmd");
    assert("AppData/Roaming/npm/grok.cmd"@ =~= "AppData"@ + "/Roaming/npm/grok.cmd"@);
    reveal_strlit("AppData/Roaming/npm/grok.ps1");
    reveal_strlit("AppData");
    reveal_strlit("/Roaming/npm/grok.ps1");
    assert("AppData/Roaming/npm/grok.ps1"@ =~= "AppData"@ + "/Roaming/npm/grok.ps1"@);
    reveal_strlit("AppData/Local/npm/grok.cmd");
    reveal_strlit("AppData");
    reveal_strlit("/Local/npm/grok.cmd");
    assert("AppData/Local/npm/grok.cmd"@ =~= "AppData"@ + "/Local/npm/grok.cmd"@);
    reveal_strlit(".local/bin/grok");
    reveal_strlit(".local");
    reveal_strlit("/bin/grok");
    assert(".local/bin/grok"@ =~= ".local"@ + "/bin/grok"@);
    reveal_strlit("opt/homebrew/bin/grok");
    reveal_strlit("opt");
    reveal_strlit("/homebrew/bin/grok");
    assert("opt/homebrew/bin/grok"@ =~= "opt"@ + "/homebrew/bin/grok"@);
    reveal_strlit("usr/local/bin/grok");
    reveal_strlit("usr");
    reveal_strlit("/local/bin/grok");
    assert("usr/local/bin/grok"@ =~= "usr"@ + "/local/bin/grok"@);
    reveal_strlit("@vibe-kit/grok-cli");
    reveal_strlit("@vibe-kit");
    reveal_strlit("/grok-cli");
    assert("@vibe-kit/grok-cli"@ =~= "@vibe-kit"@ + "/grok-cli"@);
    reveal_strlit("/opt/homebrew/bin/grok");
    reveal_strlit("/usr/local/bin/grok");
    reveal_strlit("/");
    lemma_join_safe(w, home, ".grok"@, ".grok"@, ""@);
    lemma_join_safe(w, home, ".local/bin/grok.exe"@, ".local"@, "/bin/grok.exe"@);
    lemma_join_safe(w, home, "AppData/Roaming/npm/grok.cmd"@, "AppData"@, "/Roaming/npm/grok.cmd"@);
    lemma_join_safe(w, home, "AppData/Roaming/npm/grok.ps1"@, "AppData"@, "/Roaming/npm/grok.ps1"@);
    lemma_join_safe(w, home, "AppData/Local/npm/grok.cmd"@, "AppData"@, "/Local/npm/grok.cmd"@);
    lemma_join_safe(w, home, ".local/bin/grok"@, ".local"@, "/bin/grok"@);
    lemma_join_safe(w, "/"@, "opt/homebrew/bin/grok"@, "opt"@, "/homebrew/bin/grok"@);
    lemma_join_safe(w, "/"@, "usr/local/bin/grok"@, "usr"@, "/local/bin/grok"@);
    assert(join_path(w, "/"@, "opt/homebrew/bin/grok"@) =~= "/opt/homebrew/bin/grok"@);
    assert(join_path(w, "/"@, "usr/local/bin/grok"@) =~= "/usr/local/bin/grok"@);
    let ra: Seq<Seq<char>> = match nr {
        Some(r) => seq![join_path(w, r, "@vibe-kit/grok-cli"@)],
        None => seq![],
    };
    if let Some(r) = nr {
        lemma_join_safe(w, r, "@vibe-kit/grok-cli"@, "@vibe-kit"@, "/grok-cli"@);
    }
    lemma_npm_prefixes_safe(w, home, np);
    lemma_all_prefix_artifacts_safe(w, npm_prefix_list(w, home, np));
    let c = artifact_candidates(w, home, np, nr);
    let fixed = seq![join_path(w, home, ".grok"@)] + (if w == Platform::Windows {
        seq![
            join_path(w, home, ".local/bin/grok.exe"@),
            join_path(w, home, "AppData/Roaming/npm/grok.cmd"@),
            join_path(w, home, "AppData/Roaming/npm/grok.ps1"@),
            join_path(w, home, "AppData/Local/npm/grok.cmd"@),
        ]
    } else {
        seq![join_path(w, home, ".local/bin/grok"@), "/opt/homebrew/bin/grok"@, "/usr/local/bin/grok"@]
    });
    let pa = all_prefix_artifacts(w, npm_prefix_list(w, home, np));
    assert(c == fixed + pa + ra);
    assert forall|j: int| 0 <= j < c.len() implies safe_base(w, #[trigger] c[j]) by {
        if j < fixed.len() {
            assert(c[j] == fixed[j]);
        } else if j < fixed.len() + pa.len() {
            assert(c[j] == pa[j - fixed.len()]);
        } else {
            assert(c[j] == ra[j - fixed.len() - pa.len()]);
        }
    }
}

proof fn lemma_home_targets_safe(w: Platform, home: Seq<char>)
    requires
        safe_base(w, home),
    ensures
        forall|j: int|
            0 <= j < shell_config_list(w, home).len() ==> safe_base(
                w,
                #[trigger] shell_config_list(w, home)[j],
            ),
        safe_base(w, join_path(w, home, CMUX_CLEAN_BIN@)),
{
    lemma_first_names(w);
    reveal_strlit(".zshenv");
    reveal_strlit(".zshenv");
    reveal_strlit("");
    assert(".zshenv"@ =~= ".zshenv"@ + ""@);
    reveal_strlit(".zprofile");
    reveal_strlit(".zprofile");
    reveal_strlit("");
    assert(".zprofile"@ =~= ".zprofile"@ + ""@);
    reveal_strlit(".zshrc");
    reveal_strlit(".zshrc");
    reveal_strlit("");
    assert(".zshrc"@ =~= ".zshrc"@ + ""@);
    reveal_strlit(".bash_profile");
    reveal_strlit(".bash_profile");
    reveal_strlit("");
    assert(".bash_profile"@ =~= ".bash_profile"@ + ""@);
    reveal_strlit(".bashrc");
    reveal_strlit(".bashrc");
    reveal_strlit("");
    assert(".bashrc"@ =~= ".bashrc"@ + ""@);
    reveal_strlit(".profile");
    reveal_strlit(".profile");
    reveal_strlit("");
    assert(".profile"@ =~= ".profile"@ + ""@);
    reveal_strlit(".config/fish/config.fish");
    reveal_strlit(".config");
    reveal_strlit("/fish/config.fish");
    assert(".config/fish/config.fish"@ =~= ".config"@ + "/fish/config.fish"@);
    reveal_strlit("Documents/PowerShell/Microsoft.PowerShell_profile.ps1");
    reveal_strlit("Documents");
    reveal_strlit("/PowerShell/Microsoft.PowerShell_profile.ps1");
    assert("Documents/PowerShell/Microsoft.PowerShell_profile.ps1"@ =~= "Documents"@ + "/PowerShell/Microsoft.PowerShell_profile.ps1"@);
    reveal_strlit("Documents/WindowsPowerShell/Microsoft.PowerShell_profile.ps1");
    reveal_strlit("Documents");
    reveal_strlit("/WindowsPowerShell/Microsoft.PowerShell_profile.ps1");
    assert("Documents/WindowsPowerShell/Microsoft.PowerShell_profile.ps1"@ =~= "Documents"@ + "/WindowsPowerShell/Microsoft.PowerShell_profile.ps1"@);
    reveal_strlit(".local/share/cmux-without-grok/bin");
    reveal_strlit(".local");
    reveal_strlit("/share/cmux-without-grok/bin");
    assert(".local/share/cmux-without-grok/bin"@ =~= ".local"@ + "/share/cmux-without-grok/bin"@);
    reveal_strlit(".local/share/cmux-without-grok/bin");
    lemma_join_safe(w, home, ".zshenv"@, ".zshenv"@, ""@);
    lemma_join_safe(w, home, ".zprofile"@, ".zprofile"@, ""@);
    lemma_join_safe(w, home, ".zshrc"@, ".zshrc"@, ""@);
    lemma_join_safe(w, home, ".bash_profile"@, ".bash_profile"@, ""@);
    lemma_join_safe(w, home, ".bashrc"@, ".bashrc"@, ""@);
    lemma_join_safe(w, home, ".profile"@, ".profile"@, ""@);
    lemma_join_safe(w, home, ".config/fish/config.fish"@, ".config"@, "/fish/config.fish"@);
    lemma_join_safe(w, home, "Documents/PowerShell/Microsoft.PowerShell_profile.ps1"@, "Documents"@, "/PowerShell/Microsoft.PowerShell_profile.ps1"@);
    lemma_join_safe(w, home, "Documents/WindowsPowerShell/Microsoft.PowerShell_profile.ps1"@, "Documents"@, "/WindowsPowerShell/Microsoft.PowerShell_profile.ps1"@);
    lemma_join_safe(w, home, ".local/share/cmux-without-grok/bin"@, ".local"@, "/share/cmux-without-grok/bin"@);
    let l = shell_config_list(w, home);
    assert forall|j: int| 0 <= j < l.len() implies safe_base(w, #[trigger] l[j]) by {
        if w == Platform::Windows {
            assert(j == 0 || j == 1);
        } else {
            assert(0 <= j < 7);
        }
    }
}

/// `remove --apply` never deletes or writes inside the signed cmux
/// application: no artifact path, no shell profile, neither the mirror of
/// the cmux helpers nor the `.zshrc` that gets the guard lies in
/// `/Applications/cmux.app`, when the home directory and the paths that npm
/// reported lie outside it. (A home directory or an npm prefix inside the
/// application would put targets there.)
pub proof fn law_cmux_app_never_targeted(
    c: RunContext,
    npm_prefix: Option<Seq<char>>,
    npm_root: Option<Seq<char>>,
)
    requires
        !path_within(c.platform, c.home, cmux_app()),
        npm_path_outside(c.platform, npm_prefix),
        npm_path_outside(c.platform, npm_root),
        sorted_unique_paths(
            c.platform,
            c.artifacts,
            artifact_candidates(c.platform, c.home, npm_prefix, npm_root),
        ),
        c.configs == shell_config_list(c.platform, c.home),
    ensures
        forall|i: int|
            0 <= i < c.artifacts.len() ==> !path_within(
                c.platform,
                #[trigger] c.artifacts[i],
                cmux_app(),
            ),
        forall|i: int|
            0 <= i < c.configs.len() ==> !path_within(c.platform, #[trigger] c.configs[i], cmux_app()),
        !path_within(c.platform, mirror_target(c), cmux_app()),
        !path_within(c.platform, zshrc_target(c), cmux_app()),
{
    let w = c.platform;
    lemma_candidates_safe(w, c.home, npm_prefix, npm_root);
    lemma_home_targets_safe(w, c.home);
    let cands = artifact_candidates(w, c.home, npm_prefix, npm_root);
    assert forall|i: int| 0 <= i < c.artifacts.len() implies !path_within(
        w,
        #[trigger] c.artifacts[i],
        cmux_app(),
    ) by {
        assert(is_first_candidate(w, cands, c.artifacts[i]));
        let j = choose|j: int|
            0 <= j < cands.len() && cands[j] == c.artifacts[i] && first_of_its_path(w, cands, j);
        assert(safe_base(w, cands[j]));
    }
    if w == Platform::Windows {
        lemma_first_names(w);
        reveal_strlit(".zshrc");
        reveal_strlit("");
        assert(".zshrc"@ =~= ".zshrc"@ + ""@);
        lemma_join_safe(w, c.home, ".zshrc"@, ".zshrc"@, ""@);
    } else {
        assert(shell_config_list(w, c.home)[2] == zshrc_target(c));
    }
}

} // verus!
