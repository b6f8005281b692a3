//! What the cleanup looks at: the known Grok artifact paths, the npm
//! prefixes they may live under, and the shell profiles that may export a key.
use vstd::prelude::*;
use crate::paths::{
    ends_with_name, is_absolute_path, join_path, path_ends_with_name, path_is_absolute,
    sort_paths_unique, sorted_unique_paths, texts, HomeDirectory, Platform,
};
use crate::text::{chars_of, is_white_space, push_range, skip_white_space, string_from_chars, trim_start, white_space};
use vstd::utf8::{decode_utf8, valid_utf8};

verus! {

/// The cleanup of one user's machine.
#[derive(Debug)]
pub struct CleanupEngine {
    home: HomeDirectory,
}

impl Clone for CleanupEngine {
    fn clone(&self) -> (c: Self)
        ensures
            c.home_view() == self.home_view(),
            c.platform_view() == self.platform_view(),
    {
        CleanupEngine { home: self.home.clone() }
    }
}

/// The npm package of the Grok CLI.
pub const GROK_PACKAGE: &'static str = "@vibe-kit/grok-cli";

/// Where npm prefixes may be, under `home`, in order: two fixed ones below the
/// home directory, the Homebrew and `/usr/local` prefixes (not on Windows), and
/// the prefix that `npm config get prefix` reports, if any.
pub open spec fn npm_prefix_list(w: Platform, home: Seq<char>, npm_prefix: Option<Seq<char>>) -> Seq<
    Seq<char>,
> {
    seq![join_path(w, home, ".hermes/node"@), join_path(w, home, ".local"@)] + (if w
        == Platform::Windows {
        seq![]
    } else {
        seq!["/opt/homebrew"@, "/usr/local"@]
    }) + match npm_prefix {
        Some(p) => seq![p],
        None => seq![],
    }
}

/// The places of the Grok CLI under one npm prefix.
pub open spec fn prefix_artifacts(w: Platform, prefix: Seq<char>) -> Seq<Seq<char>> {
    seq![
        join_path(w, prefix, "lib/node_modules/@vibe-kit/grok-cli"@),
        join_path(w, prefix, "node_modules/@vibe-kit/grok-cli"@),
        if w == Platform::Windows {
            join_path(w, prefix, "grok.cmd"@)
        } else {
            join_path(w, prefix, "bin/grok"@)
        },
    ]
}

pub open spec fn all_prefix_artifacts(w: Platform, prefixes: Seq<Seq<char>>) -> Seq<Seq<char>>
    decreases prefixes.len(),
{
    if prefixes.len() == 0 {
        seq![]
    } else {
        all_prefix_artifacts(w, prefixes.drop_last()) + prefix_artifacts(w, prefixes.last())
    }
}

/// Every place where a Grok CLI artifact may be, before sorting: the user
/// configuration, the installer's executables, the artifacts under each npm
/// prefix, and the package under the global npm root that `npm root --global`
/// reports, if any.
pub open spec fn artifact_candidates(
    w: Platform,
    home: Seq<char>,
    npm_prefix: Option<Seq<char>>,
    npm_root: Option<Seq<char>>,
) -> Seq<Seq<char>> {
    seq![join_path(w, home, ".grok"@)] + (if w == Platform::Windows {
        seq![
            join_path(w, home, ".local/bin/grok.exe"@),
            join_path(w, home, "AppData/Roaming/npm/grok.cmd"@),
            join_path(w, home, "AppData/Roaming/npm/grok.ps1"@),
            join_path(w, home, "AppData/Local/npm/grok.cmd"@),
        ]
    } else {
        seq![
            join_path(w, home, ".local/bin/grok"@),
            "/opt/homebrew/bin/grok"@,
            "/usr/local/bin/grok"@,
        ]
    }) + all_prefix_artifacts(w, npm_prefix_list(w, home, npm_prefix)) + match npm_root {
        Some(r) => seq![join_path(w, r, "@vibe-kit/grok-cli"@)],
        None => seq![],
    }
}

/// The shell profiles that may export a key: the PowerShell profiles on
/// Windows, the zsh, bash, POSIX and fish profiles elsewhere.
pub open spec fn shell_config_list(w: Platform, home: Seq<char>) -> Seq<Seq<char>> {
    if w == Platform::Windows {
        seq![
            join_path(w, home, "Documents/PowerShell/Microsoft.PowerShell_profile.ps1"@),
            join_path(w, home, "Documents/WindowsPowerShell/Microsoft.PowerShell_profile.ps1"@),
        ]
    } else {
        seq![
            join_path(w, home, ".zshenv"@),
            join_path(w, home, ".zprofile"@),
            join_path(w, home, ".zshrc"@),
            join_path(w, home, ".bash_profile"@),
            join_path(w, home, ".bashrc"@),
            join_path(w, home, ".profile"@),
            join_path(w, home, ".config/fish/config.fish"@),
        ]
    }
}

/// The detail that a report gives for an artifact path.
pub open spec fn artifact_detail_text(w: Platform, path: Seq<char>) -> Seq<char> {
    if ends_with_name(w, path, ".grok"@) {
        "Grok user configuration"@
    } else if ends_with_name(w, path, "grok-cli"@) {
        "global npm Grok CLI package"@
    } else {
        "known Grok executable path"@
    }
}

/// `s` without trailing white space.
pub open spec fn trim_end_ws(s: Seq<char>) -> Seq<char>
    decreases s.len(),
{
    if s.len() > 0 && is_white_space(s.last()) {
        trim_end_ws(s.drop_last())
    } else {
        s
    }
}

/// What `str::trim` leaves of `s`.
pub open spec fn trim(s: Seq<char>) -> Seq<char> {
    trim_end_ws(trim_start(s))
}

/// The path that an npm query printed: none if the query failed or its
/// output is not UTF-8; else the output without surrounding white space,
/// kept only if it is an absolute path.
pub open spec fn npm_output_path(w: Platform, success: bool, stdout: Seq<u8>) -> Option<Seq<char>> {
    if !success || !valid_utf8(stdout) {
        None
    } else {
        let t = trim(decode_utf8(stdout));
        if path_is_absolute(w, t) {
            Some(t)
        } else {
            None
        }
    }
}

/// The text of UTF-8 bytes (`String::from_utf8`): `None` exactly when they
/// are not valid UTF-8, else their decoding.
#[verifier::external_body]
fn string_from_utf8(bytes: Vec<u8>) -> (s: Option<String>)
    ensures
        s is Some <==> valid_utf8(bytes@),
        s matches Some(t) ==> t@ == decode_utf8(bytes@),
{
    String::from_utf8(bytes).ok()
}

/// The text of an optional string.
pub open spec fn opt_text(o: Option<String>) -> Option<Seq<char>> {
    match o {
        Some(s) => Some(s@),
        None => None,
    }
}

fn push_path(v: &mut Vec<String>, p: String)
    ensures
        texts(final(v)@) == texts(old(v)@).push(p@),
{
    v.push(p);
    assert(texts(v@) =~= texts(old(v)@).push(p@));
}

fn joined(w: Platform, base: &str, suffix: &str) -> (p: String)
    ensures
        p@ == join_path(w, base@, suffix@),
{
    string_from_chars(&crate::paths::join(w, &chars_of(base), suffix))
}

impl CleanupEngine {
    pub closed spec fn home_view(self) -> Seq<char> {
        self.home.path_view()
    }

    pub closed spec fn platform_view(self) -> Platform {
        self.home.platform_view()
    }

    pub fn new(home: HomeDirectory) -> (e: Self)
        ensures
            e.home_view() == home.path_view(),
            e.platform_view() == home.platform_view(),
    {
        CleanupEngine { home }
    }

    /// The home directory being cleaned.
    pub fn home(&self) -> (h: &HomeDirectory)
        ensures
            h.path_view() == self.home_view(),
            h.platform_view() == self.platform_view(),
    {
        &self.home
    }

    /// The platform whose paths and stores are cleaned.
    pub fn platform(&self) -> (w: Platform)
        ensures
            w == self.platform_view(),
    {
        self.home.platform()
    }

    /// The npm prefixes under which the Grok CLI may be installed, given the
    /// prefix that npm itself reports (see `npm_path_from_output`).
    pub fn npm_prefixes(&self, npm_prefix: Option<String>) -> (v: Vec<String>)
        ensures
            texts(v@) == npm_prefix_list(
                self.platform_view(),
                self.home_view(),
                opt_text(npm_prefix),
            ),
    {
        let w = self.home.platform();
        let ghost np = opt_text(npm_prefix);
        let mut v: Vec<String> = Vec::new();
        push_path(&mut v, self.home.join(".hermes/node"));
        push_path(&mut v, self.home.join(".local"));
        if w != Platform::Windows {
            push_path(&mut v, "/opt/homebrew".to_string());
            push_path(&mut v, "/usr/local".to_string());
        }
        match npm_prefix {
            Some(p) => {
                push_path(&mut v, p);
            },
            None => {},
        }
        assert(texts(v@) =~= npm_prefix_list(w, self.home_view(), np));
        v
    }

    /// The shell profiles that may export a Grok key.
    pub fn shell_config_paths(&self) -> (v: Vec<String>)
        ensures
            texts(v@) == shell_config_list(self.platform_view(), self.home_view()),
    {
        let mut v: Vec<String> = Vec::new();
        if self.home.platform() == Platform::Windows {
            push_path(&mut v, self.home.join("Documents/PowerShell/Microsoft.PowerShell_profile.ps1"));
            push_path(
                &mut v,
                self.home.join("Documents/WindowsPowerShell/Microsoft.PowerShell_profile.ps1"),
            );
        } else {
            push_path(&mut v, self.home.join(".zshenv"));
            push_path(&mut v, self.home.join(".zprofile"));
            push_path(&mut v, self.home.join(".zshrc"));
            push_path(&mut v, self.home.join(".bash_profile"));
            push_path(&mut v, self.home.join(".bashrc"));
            push_path(&mut v, self.home.join(".profile"));
            push_path(&mut v, self.home.join(".config/fish/config.fish"));
        }
        assert(texts(v@) =~= shell_config_list(self.platform_view(), self.home_view()));
        v
    }

    /// The known places of Grok CLI artifacts, sorted by path and without
    /// repeats, given what `npm config get prefix` and `npm root --global`
    /// reported (see `npm_path_from_output`).
    pub fn known_artifact_paths(&self, npm_prefix: Option<String>, npm_root: Option<String>) -> (v:
        Vec<String>)
        ensures
            sorted_unique_paths(
                self.platform_view(),
                texts(v@),
                artifact_candidates(
                    self.platform_view(),
                    self.home_view(),
                    opt_text(npm_prefix),
                    opt_text(npm_root),
                ),
            ),
    {
        let w = self.home.platform();
        let ghost home = self.home_view();
        let ghost np = opt_text(npm_prefix);
        let ghost nr = opt_text(npm_root);
        let mut c: Vec<String> = Vec::new();
        push_path(&mut c, self.home.join(".grok"));
        if w == Platform::Windows {
            push_path(&mut c, self.home.join(".local/bin/grok.exe"));
            push_path(&mut c, self.home.join("AppData/Roaming/npm/grok.cmd"));
            push_path(&mut c, self.home.join("AppData/Roaming/npm/grok.ps1"));
            push_path(&mut c, self.home.join("AppData/Local/npm/grok.cmd"));
        } else {
            push_path(&mut c, self.home.join(".local/bin/grok"));
            push_path(&mut c, "/opt/homebrew/bin/grok".to_string());
            push_path(&mut c, "/usr/local/bin/grok".to_string());
        }
        let ghost fixed = texts(c@);
        let prefixes = self.npm_prefixes(npm_prefix);
        let ghost pl = npm_prefix_list(w, home, np);
        let mut k: usize = 0;
        while k < prefixes.len()
            invariant
                k <= prefixes.len(),
                texts(prefixes@) == pl,
                texts(c@) == fixed + all_prefix_artifacts(w, pl.take(k as int)),
            decreases prefixes.len() - k,
        {
            let p = prefixes[k].as_str();
            assert(p@ == pl[k as int]);
            push_path(&mut c, joined(w, p, "lib/node_modules/@vibe-kit/grok-cli"));
            push_path(&mut c, joined(w, p, "node_modules/@vibe-kit/grok-cli"));
            if w == Platform::Windows {
                push_path(&mut c, joined(w, p, "grok.cmd"));
            } else {
                push_path(&mut c, joined(w, p, "bin/grok"));
            }
            assert(pl.take(k + 1).drop_last() =~= pl.take(k as int));
            assert(texts(c@) =~= fixed + all_prefix_artifacts(w, pl.take(k + 1)));
            k = k + 1;
        }
        assert(pl.take(k as int) =~= pl);
        match npm_root {
            Some(r) => {
                push_path(&mut c, joined(w, r.as_str(), GROK_PACKAGE));
            },
            None => {},
        }
        assert(texts(c@) =~= artifact_candidates(w, home, np, nr));
        sort_paths_unique(w, &c)
    }

    /// The path that an npm query (`npm config get prefix`, `npm root
    /// --global`) printed, given whether it succeeded and its output.
    pub fn npm_path_from_output(&self, success: bool, stdout: Vec<u8>) -> (p: Option<String>)
        ensures
            match p {
                Some(s) => npm_output_path(self.platform_view(), success, stdout@) == Some(s@),
                None => npm_output_path(self.platform_view(), success, stdout@) is None,
            },
    {
        if !success {
            return None;
        }
        let ghost bytes = stdout@;
        let text = match string_from_utf8(stdout) {
            Some(t) => t,
            None => {
                return None;
            },
        };
        let v = chars_of(text.as_str());
        let start = skip_white_space(&v, 0, v.len());
        let mut end = v.len();
        assert(v@.subrange(0, v.len() as int) =~= v@);
        while end > start && white_space(v[end - 1])
            invariant
                start <= end <= v.len(),
                trim_end_ws(v@.subrange(start as int, end as int)) == trim(v@),
            decreases end,
        {
            assert(v@.subrange(start as int, end as int).drop_last() =~= v@.subrange(
                start as int,
                end - 1,
            ));
            end = end - 1;
        }
        let mut t: Vec<char> = Vec::new();
        push_range(&mut t, &v, start, end);
        assert(t@ =~= trim(v@));
        if is_absolute_path(self.home.platform(), &t) {
            Some(string_from_chars(&t))
        } else {
            None
        }
    }
}

/// The detail that a report gives for an artifact path.
pub fn artifact_detail(w: Platform, path: &str) -> (d: String)
    ensures
        d@ == artifact_detail_text(w, path@),
{
    let v = chars_of(path);
    if path_ends_with_name(w, &v, ".grok") {
        "Grok user configuration".to_string()
    } else if path_ends_with_name(w, &v, "grok-cli") {
        "global npm Grok CLI package".to_string()
    } else {
        "known Grok executable path".to_string()
    }
}

} // verus!
