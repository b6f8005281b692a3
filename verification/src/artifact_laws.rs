//! The removal touches only paths named like Grok CLI artifacts: whatever
//! the home directory and whatever npm reports, every known artifact path
//! ends in one of a fixed set of Grok names.
use vstd::prelude::*;
use crate::paths::{
    after_drive, ends_with_name, has_drive, is_ascii_alpha, is_first_candidate, is_separator,
    join_path, name_code, path_key, segment_code, segments, segments_code, sorted_unique_paths,
    Platform,
};
use crate::targets::{
    all_prefix_artifacts, artifact_candidates, artifact_detail_text, npm_prefix_list,
    prefix_artifacts,
};

verus! {

/// The last components that a known artifact path can have.
pub open spec fn grok_artifact_names() -> Seq<Seq<char>> {
    seq![".grok"@, "grok"@, "grok.exe"@, "grok.cmd"@, "grok.ps1"@, "grok-cli"@]
}

/// The path's last component is one of the Grok artifact names.
pub open spec fn grok_named(w: Platform, p: Seq<char>) -> bool {
    exists|k: int|
        0 <= k < grok_artifact_names().len() && ends_with_name(
            w,
            p,
            #[trigger] grok_artifact_names()[k],
        )
}

/// A plain name: nonempty, no separator, not `.` or `..`, and not read as a
/// Windows drive.
pub open spec fn plain_name(w: Platform, n: Seq<char>) -> bool {
    &&& n.len() > 0
    &&& n != seq!['.']
    &&& n != seq!['.', '.']
    &&& forall|i: int| 0 <= i < n.len() ==> !is_separator(w, #[trigger] n[i])
    &&& !(n.len() >= 2 && is_ascii_alpha(n[0]) && n[1] == ':')
}

proof fn lemma_segments_tail(w: Platform, u: Seq<char>, n: Seq<char>)
    requires
        forall|i: int| 0 <= i < n.len() ==> !is_separator(w, #[trigger] n[i]),
    ensures
        segments(w, u + n) == segments(w, u).update(
            segments(w, u).len() - 1,
            segments(w, u).last() + n,
        ),
        segments(w, u).len() > 0,
    decreases n.len(),
{
    crate::paths::lemma_segments_nonempty(w, u);
    if n.len() == 0 {
        assert(u + n =~= u);
        let s = segments(w, u);
        assert(s.last() + n =~= s.last());
        assert(s.update(s.len() - 1, s.last()) =~= s);
    } else {
        let n0 = n.drop_last();
        assert forall|i: int| 0 <= i < n0.len() implies !is_separator(w, #[trigger] n0[i]) by {
            assert(n0[i] == n[i]);
        }
        lemma_segments_tail(w, u, n0);
        assert((u + n).drop_last() =~= u + n0);
        assert((u + n).last() == n[n.len() - 1]);
        let s = segments(w, u);
        let t = s.update(s.len() - 1, s.last() + n0);
        assert(t.len() == s.len());
        assert(t.last() == s.last() + n0);
        assert((s.last() + n0).push(n[n.len() - 1]) =~= s.last() + n);
        assert(t.update(t.len() - 1, t.last().push(n[n.len() - 1])) =~= s.update(
            s.len() - 1,
            s.last() + n,
        ));
    }
}

proof fn lemma_code_of_plain(w: Platform, n: Seq<char>, first: bool)
    requires
        plain_name(w, n),
    ensures
        segment_code(n, first) == name_code(n),
{
}

/// A path that ends in a separator and a plain name has that name as its
/// last component.
proof fn lemma_ends_with_plain(w: Platform, u: Seq<char>, n: Seq<char>)
    requires
        plain_name(w, n),
        u.len() == 0 || is_separator(w, u.last()),
    ensures
        ends_with_name(w, u + n, n),
{
    reveal(path_key);
    let s = u + n;
    let r = after_drive(w, s);
    let ur = if has_drive(w, s) {
        u.skip(2)
    } else {
        u
    };
    if has_drive(w, s) {
        if u.len() == 0 {
            assert(s =~= n);
        } else if u.len() == 1 {
            assert(s[0] == u[0]);
        } else if u.len() == 2 {
            assert(s[1] == u[1]);
        }
        assert(u.len() >= 3);
        assert(r =~= ur + n);
    } else {
        assert(r =~= ur + n);
    }
    lemma_segments_tail(w, ur, n);
    let segs = segments(w, r);
    if ur.len() == 0 {
        assert(segments(w, ur) =~= seq![Seq::<char>::empty()]);
        assert(segs =~= seq![n]);
        assert(segs.drop_last() =~= Seq::<Seq<char>>::empty());
        lemma_code_of_plain(w, n, true);
    } else {
        assert(ur.last() == u.last());
        let front = segments(w, ur.drop_last());
        assert(ur.drop_last().push(ur.last()) =~= ur);
        assert(segments(w, ur) == front.push(seq![]));
        assert(segs =~= front.push(n));
        assert(segs.drop_last() =~= front);
        lemma_code_of_plain(w, n, segs.len() == 1);
    }
    assert(segs.last() == n);
    let k = path_key(w, s);
    let c = name_code(n);
    assert(segments_code(segs) == segments_code(segs.drop_last()) + c);
    assert(k.skip(k.len() - c.len()) =~= c);
}

/// Joining a suffix that ends in a plain name gives a path whose last
/// component is that name.
proof fn lemma_join_ends_with(w: Platform, base: Seq<char>, d: Seq<char>, n: Seq<char>)
    requires
        plain_name(w, n),
        d.len() == 0 || d.last() == '/',
    ensures
        ends_with_name(w, join_path(w, base, d + n), n),
{
    let base2 = if base.len() > 0 && !is_separator(w, base.last()) {
        base.push(crate::paths::main_separator(w))
    } else {
        base
    };
    assert(join_path(w, base, d + n) =~= (base2 + d) + n);
    let u = base2 + d;
    if d.len() > 0 {
        assert(u.last() == d.last());
    } else if base.len() > 0 {
        assert(u.last() == base2.last());
    }
    lemma_ends_with_plain(w, u, n);
}

proof fn lemma_names_plain(w: Platform)
    ensures
        forall|k: int|
            0 <= k < grok_artifact_names().len() ==> plain_name(w, #[trigger] grok_artifact_names()[k]),
{
    reveal_strlit(".grok");
    reveal_strlit("grok");
    reveal_strlit("grok.exe");
    reveal_strlit("grok.cmd");
    reveal_strlit("grok.ps1");
    reveal_strlit("grok-cli");
    assert forall|k: int| 0 <= k < grok_artifact_names().len() implies plain_name(
        w,
        #[trigger] grok_artifact_names()[k],
    ) by {
        let n = grok_artifact_names()[k];
        if k == 0 {
            assert(n[1] == 'g');
            assert(n.len() == 5);
        } else {
            assert(n[0] == 'g');
            assert(n[1] == 'r');
        }
    }
}

proof fn lemma_join_named(w: Platform, base: Seq<char>, suffix: Seq<char>, d: Seq<char>, k: int)
    requires
        0 <= k < grok_artifact_names().len(),
        suffix == d + grok_artifact_names()[k],
        d.len() == 0 || d.last() == '/',
    ensures
        grok_named(w, join_path(w, base, suffix)),
{
    lemma_names_plain(w);
    lemma_join_ends_with(w, base, d, grok_artifact_names()[k]);
}

proof fn lemma_prefix_artifacts_named(w: Platform, prefixes: Seq<Seq<char>>)
    ensures
        forall|j: int|
            0 <= j < all_prefix_artifacts(w, prefixes).len() ==> grok_named(
                w,
                #[trigger] all_prefix_artifacts(w, prefixes)[j],
            ),
    decreases prefixes.len(),
{
    if prefixes.len() > 0 {
        lemma_prefix_artifacts_named(w, prefixes.drop_last());
        let p = prefixes.last();
        reveal_strlit("lib/node_modules/@vibe-kit/grok-cli");
        reveal_strlit("lib/node_modules/@vibe-kit/");
        reveal_strlit("node_modules/@vibe-kit/grok-cli");
        reveal_strlit("node_modules/@vibe-kit/");
        reveal_strlit("grok.cmd");
        reveal_strlit("bin/grok");
        reveal_strlit("bin/");
        reveal_strlit("grok");
        reveal_strlit("grok-cli");
        reveal_strlit("");
        assert("lib/node_modules/@vibe-kit/grok-cli"@ =~= "lib/node_modules/@vibe-kit/"@
            + "grok-cli"@);
        assert("node_modules/@vibe-kit/grok-cli"@ =~= "node_modules/@vibe-kit/"@ + "grok-cli"@);
        assert("bin/grok"@ =~= "bin/"@ + "grok"@);
        assert("grok.cmd"@ =~= ""@ + "grok.cmd"@);
        assert(grok_artifact_names()[5] == "grok-cli"@);
        assert(grok_artifact_names()[1] == "grok"@);
        assert(grok_artifact_names()[3] == "grok.cmd"@);
        lemma_join_named(w, p, "lib/node_modules/@vibe-kit/grok-cli"@, "lib/node_modules/@vibe-kit/"@, 5);
        lemma_join_named(w, p, "node_modules/@vibe-kit/grok-cli"@, "node_modules/@vibe-kit/"@, 5);
        lemma_join_named(w, p, "bin/grok"@, "bin/"@, 1);
        lemma_join_named(w, p, "grok.cmd"@, ""@, 3);
        let a = all_prefix_artifacts(w, prefixes.drop_last());
        let b = prefix_artifacts(w, p);
        assert forall|j: int| 0 <= j < (a + b).len() implies grok_named(w, #[trigger] (a + b)[j]) by {
            if j < a.len() {
                assert((a + b)[j] == a[j]);
            } else {
                assert((a + b)[j] == b[j - a.len()]);
            }
        }
    }
}

proof fn lemma_candidates_named(
    w: Platform,
    home: Seq<char>,
    np: Option<Seq<char>>,
    nr: Option<Seq<char>>,
)
    ensures
        forall|j: int|
            0 <= j < artifact_candidates(w, home, np, nr).len() ==> grok_named(
                w,
                #[trigger] artifact_candidates(w, home, np, nr)[j],
            ),
{
    reveal_strlit(".grok");
    reveal_strlit(".local/bin/grok.exe");
    reveal_strlit(".local/bin/");
    reveal_strlit("grok.exe");
    reveal_strlit("AppData/Roaming/npm/grok.cmd");
    reveal_strlit("AppData/Roaming/npm/grok.ps1");
    reveal_strlit("AppData/Roaming/npm/");
    reveal_strlit("grok.cmd");
    reveal_strlit("grok.ps1");
    reveal_strlit("AppData/Local/npm/grok.cmd");
    reveal_strlit("AppData/Local/npm/");
    reveal_strlit(".local/bin/grok");
    reveal_strlit("grok");
    reveal_strlit("/opt/homebrew/bin/grok");
    reveal_strlit("/opt/homebrew/bin/");
    reveal_strlit("/usr/local/bin/grok");
    reveal_strlit("/usr/local/bin/");
    reveal_strlit("@vibe-kit/grok-cli");
    reveal_strlit("@vibe-kit/");
    reveal_strlit("grok-cli");
    reveal_strlit("");
    lemma_names_plain(w);
    assert(grok_artifact_names()[0] == ".grok"@);
    assert(grok_artifact_names()[1] == "grok"@);
    assert(grok_artifact_names()[2] == "grok.exe"@);
    assert(grok_artifact_names()[3] == "grok.cmd"@);
    assert(grok_artifact_names()[4] == "grok.ps1"@);
    assert(grok_artifact_names()[5] == "grok-cli"@);
    assert(".grok"@ =~= ""@ + ".grok"@);
    lemma_join_named(w, home, ".grok"@, ""@, 0);
    assert(".local/bin/grok.exe"@ =~= ".local/bin/"@ + "grok.exe"@);
    lemma_join_named(w, home, ".local/bin/grok.exe"@, ".local/bin/"@, 2);
    assert("AppData/Roaming/npm/grok.cmd"@ =~= "AppData/Roaming/npm/"@ + "grok.cmd"@);
    lemma_join_named(w, home, "AppData/Roaming/npm/grok.cmd"@, "AppData/Roaming/npm/"@, 3);
    assert("AppData/Roaming/npm/grok.ps1"@ =~= "AppData/Roaming/npm/"@ + "grok.ps1"@);
    lemma_join_named(w, home, "AppData/Roaming/npm/grok.ps1"@, "AppData/Roaming/npm/"@, 4);
    assert("AppData/Local/npm/grok.cmd"@ =~= "AppData/Local/npm/"@ + "grok.cmd"@);
    lemma_join_named(w, home, "AppData/Local/npm/grok.cmd"@, "AppData/Local/npm/"@, 3);
    assert(".local/bin/grok"@ =~= ".local/bin/"@ + "grok"@);
    lemma_join_named(w, home, ".local/bin/grok"@, ".local/bin/"@, 1);
    assert("/opt/homebrew/bin/grok"@ =~= "/opt/homebrew/bin/"@ + "grok"@);
    lemma_ends_with_plain(w, "/opt/homebrew/bin/"@, "grok"@);
    assert("/usr/local/bin/grok"@ =~= "/usr/local/bin/"@ + "grok"@);
    lemma_ends_with_plain(w, "/usr/local/bin/"@, "grok"@);
    assert(grok_named(w, "/opt/homebrew/bin/grok"@));
    assert(grok_named(w, "/usr/local/bin/grok"@));
    assert("@vibe-kit/grok-cli"@ =~= "@vibe-kit/"@ + "grok-cli"@);
    match nr {
        Some(r) => {
            lemma_join_named(w, r, "@vibe-kit/grok-cli"@, "@vibe-kit/"@, 5);
        },
        None => {},
    }
    lemma_prefix_artifacts_named(w, npm_prefix_list(w, home, np));
    let c = artifact_candidates(w, home, np, nr);
    let fixed = seq![join_path(w, home, ".grok"@)] + (if w == Platform::Windows {
        seq![
            join_path(w, home, ".local/bin/grok.exe"@),
            join_path(w, home, "AppData/Roaming/npm/grok.cmd"@),
            join_path(w, home, "AppData/Roaming/npm/grok.ps1"@),
            join_path(w, home, "AppData/Local/npm/grok.cmd"@),
        ]
    } else {
        seq![join_path(w, home, ".local/bin/grok"@), "/opt/homebrew/bin/grok"@, "/usr/local/bin/grok"@]
    });
    let pa = all_prefix_artifacts(w, npm_prefix_list(w, home, np));
    let ra: Seq<Seq<char>> = match nr {
        Some(r) => seq![join_path(w, r, "@vibe-kit/grok-cli"@)],
        None => seq![],
    };
    assert(c == fixed + pa + ra);
    assert forall|j: int| 0 <= j < c.len() implies grok_named(w, #[trigger] c[j]) by {
        if j < fixed.len() {
            assert(c[j] == fixed[j]);
        } else if j < fixed.len() + pa.len() {
            assert(c[j] == pa[j - fixed.len()]);
        } else {
            assert(c[j] == ra[j - fixed.len() - pa.len()]);
        }
    }
}

/// Every known artifact path (and so every path that `remove --apply` may
/// delete) ends in a Grok CLI name: `.grok`, `grok`, `grok.exe`, `grok.cmd`,
/// `grok.ps1` or `grok-cli`, whatever the home directory and whatever npm
/// reports. Files are never chosen for containing the word Grok.
pub proof fn law_artifacts_are_grok_named(
    w: Platform,
    home: Seq<char>,
    np: Option<Seq<char>>,
    nr: Option<Seq<char>>,
    out: Seq<Seq<char>>,
)
    requires
        sorted_unique_paths(w, out, artifact_candidates(w, home, np, nr)),
    ensures
        forall|i: int| 0 <= i < out.len() ==> grok_named(w, #[trigger] out[i]),
{
    lemma_candidates_named(w, home, np, nr);
    let c = artifact_candidates(w, home, np, nr);
    assert forall|i: int| 0 <= i < out.len() implies grok_named(w, #[trigger] out[i]) by {
        assert(is_first_candidate(w, c, out[i]));
        let j = choose|j: int|
            0 <= j < c.len() && c[j] == out[i] && crate::paths::first_of_its_path(w, c, j);
        assert(grok_named(w, c[j]));
    }
}

pub(crate) proof fn lemma_char_code_eq(a: char, b: char)
    ensures
        (a as u32) == (b as u32) ==> a == b,
        (a as u32) < 0x110000,
        ((a as u32) as u64 + 5) as u64 == (a as u32) + 5,
{
}

/// A path ends in at most one name: the code of a name cannot end inside
/// the code of another.
proof fn lemma_last_name_unique(w: Platform, p: Seq<char>, n1: Seq<char>, n2: Seq<char>)
    requires
        ends_with_name(w, p, n1),
        ends_with_name(w, p, n2),
    ensures
        n1 == n2,
{
    let k = path_key(w, p);
    let c1 = name_code(n1);
    let c2 = name_code(n2);
    if c1.len() < c2.len() {
        let j = c2.len() - c1.len();
        assert(k[k.len() - c1.len()] == c1[0]);
        assert(k.skip(k.len() - c2.len())[j] == k[k.len() - c1.len()]);
        lemma_char_code_eq(n2[j - 1], n2[j - 1]);
        assert(c2[j] == ((n2[j - 1] as u32) as u64 + 5) as u64);
        assert(false);
    } else if c2.len() < c1.len() {
        let j = c1.len() - c2.len();
        assert(k[k.len() - c2.len()] == c2[0]);
        assert(k.skip(k.len() - c1.len())[j] == k[k.len() - c2.len()]);
        lemma_char_code_eq(n1[j - 1], n1[j - 1]);
        assert(c1[j] == ((n1[j - 1] as u32) as u64 + 5) as u64);
        assert(false);
    } else {
        assert(c1 == c2);
        assert forall|i: int| 0 <= i < n1.len() implies n1[i] == n2[i] by {
            assert(c1[i + 1] == c2[i + 1]);
            lemma_char_code_eq(n1[i], n2[i]);
        }
        assert(n1 =~= n2);
    }
}

/// The detail of an artifact follows its last name: `.grok` is the user
/// configuration, `grok-cli` the npm package, and `grok`, `grok.exe`,
/// `grok.cmd` and `grok.ps1` are executables.
pub proof fn law_artifact_detail_by_name(w: Platform, p: Seq<char>, k: int)
    requires
        0 <= k < grok_artifact_names().len(),
        ends_with_name(w, p, grok_artifact_names()[k]),
    ensures
        artifact_detail_text(w, p) == if k == 0 {
            "Grok user configuration"@
        } else if k == 5 {
            "global npm Grok CLI package"@
        } else {
            "known Grok executable path"@
        },
{
    reveal_strlit(".grok");
    reveal_strlit("grok");
    reveal_strlit("grok.exe");
    reveal_strlit("grok.cmd");
    reveal_strlit("grok.ps1");
    reveal_strlit("grok-cli");
    let n = grok_artifact_names()[k];
    if ends_with_name(w, p, ".grok"@) {
        lemma_last_name_unique(w, p, n, ".grok"@);
        if k != 0 {
            assert(n[0] != '.');
        }
    } else if ends_with_name(w, p, "grok-cli"@) {
        lemma_last_name_unique(w, p, n, "grok-cli"@);
        if k != 5 {
            assert(n.len() != 8 || n[4] != '-');
        }
    } else {
        assert(k != 0 && k != 5);
    }
}

proof fn lemma_covers_candidate(
    w: Platform,
    out: Seq<Seq<char>>,
    cands: Seq<Seq<char>>,
    j: int,
)
    requires
        sorted_unique_paths(w, out, cands),
        0 <= j < cands.len(),
    ensures
        crate::paths::covers_path(w, out, cands[j]),
{
}

/// The known artifact paths cover every place where the installer or npm
/// leaves the Grok CLI: `~/.grok`; on Windows `~/.local/bin/grok.exe`, the
/// `grok.cmd` and `grok.ps1` shims in `~/AppData/Roaming/npm` and the
/// `grok.cmd` shim in `~/AppData/Local/npm`; elsewhere `~/.local/bin/grok`,
/// `/opt/homebrew/bin/grok` and `/usr/local/bin/grok`; the package and the
/// shim under the npm prefix that npm reports; and the package under the
/// global root that npm reports.
pub proof fn law_known_paths_cover_install_places(
    w: Platform,
    home: Seq<char>,
    np: Option<Seq<char>>,
    nr: Option<Seq<char>>,
    out: Seq<Seq<char>>,
)
    requires
        sorted_unique_paths(w, out, artifact_candidates(w, home, np, nr)),
    ensures
        crate::paths::covers_path(w, out, join_path(w, home, ".grok"@)),
        w == Platform::Windows ==> {
            &&& crate::paths::covers_path(w, out, join_path(w, home, ".local/bin/grok.exe"@))
            &&& crate::paths::covers_path(w, out, join_path(w, home, "AppData/Roaming/npm/grok.cmd"@))
            &&& crate::paths::covers_path(w, out, join_path(w, home, "AppData/Roaming/npm/grok.ps1"@))
            &&& crate::paths::covers_path(w, out, join_path(w, home, "AppData/Local/npm/grok.cmd"@))
        },
        w != Platform::Windows ==> {
            &&& crate::paths::covers_path(w, out, join_path(w, home, ".local/bin/grok"@))
            &&& crate::paths::covers_path(w, out, "/opt/homebrew/bin/grok"@)
            &&& crate::paths::covers_path(w, out, "/usr/local/bin/grok"@)
        },
        prefix_covered(w, out, join_path(w, home, ".hermes/node"@)),
        prefix_covered(w, out, join_path(w, home, ".local"@)),
        w != Platform::Windows ==> prefix_covered(w, out, "/opt/homebrew"@) && prefix_covered(
            w,
            out,
            "/usr/local"@,
        ),
        np matches Some(p) ==> prefix_covered(w, out, p),
        nr matches Some(r) ==> crate::paths::covers_path(
            w,
            out,
            join_path(w, r, "@vibe-kit/grok-cli"@),
        ),
{
    let c = artifact_candidates(w, home, np, nr);
    let fixed_len: int = if w == Platform::Windows {
        5
    } else {
        4
    };
    let pl = npm_prefix_list(w, home, np);
    let pa = all_prefix_artifacts(w, pl);
    lemma_covers_candidate(w, out, c, 0);
    if w == Platform::Windows {
        lemma_covers_candidate(w, out, c, 1);
        lemma_covers_candidate(w, out, c, 2);
        lemma_covers_candidate(w, out, c, 3);
        lemma_covers_candidate(w, out, c, 4);
    } else {
        lemma_covers_candidate(w, out, c, 1);
        lemma_covers_candidate(w, out, c, 2);
        lemma_covers_candidate(w, out, c, 3);
    }
    lemma_all_prefix_artifacts_shape(w, pl);
    assert forall|m: int| 0 <= m < pl.len() implies prefix_covered(w, out, #[trigger] pl[m]) by {
        lemma_all_prefix_artifacts_at(w, pl, m);
        let q = pl[m];
        assert(c[fixed_len + 3 * m] == pa[3 * m]);
        assert(c[fixed_len + 3 * m + 1] == pa[3 * m + 1]);
        assert(c[fixed_len + 3 * m + 2] == pa[3 * m + 2]);
        lemma_covers_candidate(w, out, c, fixed_len + 3 * m);
        lemma_covers_candidate(w, out, c, fixed_len + 3 * m + 1);
        lemma_covers_candidate(w, out, c, fixed_len + 3 * m + 2);
    }
    assert(pl[0] == join_path(w, home, ".hermes/node"@));
    assert(pl[1] == join_path(w, home, ".local"@));
    if w != Platform::Windows {
        assert(pl[2] == "/opt/homebrew"@);
        assert(pl[3] == "/usr/local"@);
    }
    if let Some(p) = np {
        assert(pl[pl.len() - 1] == p);
    }
    if let Some(r) = nr {
        assert(c[fixed_len + pa.len()] == join_path(w, r, "@vibe-kit/grok-cli"@));
        lemma_covers_candidate(w, out, c, fixed_len + pa.len());
    }
}

/// The npm package directories and the shim below the prefix `q` are
/// covered: `lib/node_modules/@vibe-kit/grok-cli`,
/// `node_modules/@vibe-kit/grok-cli`, and `grok.cmd` on Windows or
/// `bin/grok` elsewhere.
pub open spec fn prefix_covered(w: Platform, out: Seq<Seq<char>>, q: Seq<char>) -> bool {
    &&& crate::paths::covers_path(w, out, join_path(w, q, "lib/node_modules/@vibe-kit/grok-cli"@))
    &&& crate::paths::covers_path(w, out, join_path(w, q, "node_modules/@vibe-kit/grok-cli"@))
    &&& crate::paths::covers_path(
        w,
        out,
        join_path(w, q, if w == Platform::Windows {
            "grok.cmd"@
        } else {
            "bin/grok"@
        }),
    )
}

proof fn lemma_all_prefix_artifacts_at(w: Platform, ps: Seq<Seq<char>>, m: int)
    requires
        0 <= m < ps.len(),
    ensures
        all_prefix_artifacts(w, ps).len() == 3 * ps.len(),
        all_prefix_artifacts(w, ps)[3 * m] == prefix_artifacts(w, ps[m])[0],
        all_prefix_artifacts(w, ps)[3 * m + 1] == prefix_artifacts(w, ps[m])[1],
        all_prefix_artifacts(w, ps)[3 * m + 2] == prefix_artifacts(w, ps[m])[2],
    decreases ps.len(),
{
    let p0 = ps.drop_last();
    lemma_all_prefix_artifacts_shape(w, p0);
    if m < p0.len() {
        lemma_all_prefix_artifacts_at(w, p0, m);
        assert(p0[m] == ps[m]);
    }
}

proof fn lemma_all_prefix_artifacts_shape(w: Platform, ps: Seq<Seq<char>>)
    ensures
        all_prefix_artifacts(w, ps).len() == 3 * ps.len(),
    decreases ps.len(),
{
    if ps.len() > 0 {
        lemma_all_prefix_artifacts_shape(w, ps.drop_last());
    }
}

/// The shell profiles that are searched for exports, below the home
/// directory and in this order: on Windows the PowerShell 7 and Windows
/// PowerShell profiles; elsewhere `.zshenv`, `.zprofile`, `.zshrc`,
/// `.bash_profile`, `.bashrc`, `.profile` and fish's `config.fish`.
pub proof fn law_shell_profiles(w: Platform, home: Seq<char>)
    ensures
        crate::targets::shell_config_list(w, home) == if w == Platform::Windows {
            seq![
                join_path(w, home, "Documents/PowerShell/Microsoft.PowerShell_profile.ps1"@),
                join_path(w, home, "Documents/WindowsPowerShell/Microsoft.PowerShell_profile.ps1"@),
            ]
        } else {
            seq![
                join_path(w, home, ".zshenv"@),
                join_path(w, home, ".zprofile"@),
                join_path(w, home, ".zshrc"@),
                join_path(w, home, ".bash_profile"@),
                join_path(w, home, ".bashrc"@),
                join_path(w, home, ".profile"@),
                join_path(w, home, ".config/fish/config.fish"@),
            ]
        },
{
}

proof fn lemma_trim_end_white_space(t: Seq<char>, ws: Seq<char>)
    requires
        crate::export_laws::all_white_space(ws),
        t.len() > 0,
        !crate::text::is_white_space(t.last()),
    ensures
        crate::targets::trim_end_ws(t + ws) == t,
    decreases ws.len(),
{
    if ws.len() == 0 {
        assert(t + ws =~= t);
    } else {
        let w0 = ws.drop_last();
        assert(crate::export_laws::all_white_space(w0)) by {
            assert forall|i: int| 0 <= i < w0.len() implies crate::text::is_white_space(
                #[trigger] w0[i],
            ) by {
                assert(w0[i] == ws[i]);
            }
        }
        assert((t + ws).last() == ws.last());
        assert(crate::text::is_white_space(ws[ws.len() - 1]));
        assert((t + ws).drop_last() =~= t + w0);
        lemma_trim_end_white_space(t, w0);
    }
}

/// What an npm query printed is taken as a path exactly when the query
/// succeeded, its output is UTF-8, and the output, without the white space
/// around it, is an absolute path; that path is then the result.
pub proof fn law_npm_output_path(
    w: Platform,
    success: bool,
    stdout: Seq<u8>,
    ws1: Seq<char>,
    t: Seq<char>,
    ws2: Seq<char>,
)
    requires
        crate::export_laws::all_white_space(ws1),
        crate::export_laws::all_white_space(ws2),
        t.len() > 0,
        !crate::text::is_white_space(t[0]),
        !crate::text::is_white_space(t.last()),
    ensures
        !success ==> crate::targets::npm_output_path(w, success, stdout) is None,
        !vstd::utf8::valid_utf8(stdout) ==> crate::targets::npm_output_path(w, success, stdout) is None,
        success && vstd::utf8::valid_utf8(stdout) && vstd::utf8::decode_utf8(stdout) == ws1 + t
            + ws2 ==> crate::targets::npm_output_path(w, success, stdout) == if crate::paths::path_is_absolute(w, t) {
            Some(t)
        } else {
            None
        },
{
    crate::export_laws::lemma_trim_start_after_white_space(ws1, t + ws2);
    assert(ws1 + t + ws2 =~= ws1 + (t + ws2));
    assert((t + ws2)[0] == t[0]);
    assert(crate::text::trim_start(t + ws2) == t + ws2);
    lemma_trim_end_white_space(t, ws2);
}

} // verus!
