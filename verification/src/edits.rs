//! The decisions inside the edits that `remove --apply` makes: what to write
//! back to a shell profile, when to install the cmux guard, which cmux
//! helpers to mirror, and whether a package directory holds the Grok CLI.
use vstd::prelude::*;
use crate::credentials::{strip_credential_exports, strip_removes, stripped};
use crate::error::{error_view, CleanupError, ErrorView};
use crate::guard::{add_cmux_guard, guard_present, with_guard};
use crate::paths::{ends_with_name, path_ends_with_name, Platform};
use crate::targets::CleanupEngine;
use crate::text::chars_of;

verus! {

/// How reading a file went.
#[derive(Debug, Clone, PartialEq, Eq)]
pub enum ReadOutcome {
    Text(String),
    NotFound,
    /// Another error, with its message.
    Failed(String),
}

/// What to do with a profile.
#[derive(Debug, Clone, PartialEq, Eq)]
pub enum ProfileEdit {
    /// Leave it as it is.
    Unchanged,
    /// Replace its text with this one.
    Write(String),
    /// Report this error.
    Fail(CleanupError),
}

/// A profile edit as plain values.
pub enum EditView {
    Unchanged,
    Write(Seq<char>),
    Fail(ErrorView),
}

pub open spec fn edit_view(e: ProfileEdit) -> EditView {
    match e {
        ProfileEdit::Unchanged => EditView::Unchanged,
        ProfileEdit::Write(t) => EditView::Write(t@),
        ProfileEdit::Fail(err) => EditView::Fail(error_view(err)),
    }
}

/// What carrying out an edit reports: `false` when nothing was to be
/// written, `true` when the text was written, else the error (of reading, or
/// of writing as `written` gives it).
pub open spec fn edit_outcome(e: ProfileEdit, written: Result<(), CleanupError>) -> Result<
    bool,
    CleanupError,
> {
    match e {
        ProfileEdit::Unchanged => Ok(false),
        ProfileEdit::Write(_) => match written {
            Ok(_) => Ok(true),
            Err(x) => Err(x),
        },
        ProfileEdit::Fail(x) => Err(x),
    }
}

impl ProfileEdit {
    /// The outcome of this edit once carried out; `written` is how writing
    /// its text went and is looked at only for a write.
    pub fn outcome(self, written: Result<(), CleanupError>) -> (r: Result<bool, CleanupError>)
        ensures
            r == edit_outcome(self, written),
    {
        match self {
            ProfileEdit::Unchanged => Ok(false),
            ProfileEdit::Write(_) => match written {
                Ok(_) => Ok(true),
                Err(x) => Err(x),
            },
            ProfileEdit::Fail(x) => Err(x),
        }
    }
}

/// Sanitizing the profile at `path`, read as `read`: nothing if it does not
/// exist, a read error otherwise reported; with the credential exports
/// stripped, and on macOS with the cmux wrapper present the `.zshrc` also
/// gets the guard; it is written back only if that changed something.
pub open spec fn sanitize_edit(
    w: Platform,
    path: Seq<char>,
    read: ReadOutcome,
    cmux_wrapper_present: bool,
) -> EditView {
    match read {
        ReadOutcome::NotFound => EditView::Unchanged,
        ReadOutcome::Failed(m) => EditView::Fail(ErrorView::Read { path, source: m@ }),
        ReadOutcome::Text(t) => {
            let s = stripped(t@);
            if w == Platform::MacOs && ends_with_name(w, path, ".zshrc"@) && cmux_wrapper_present
                && !guard_present(s) {
                EditView::Write(with_guard(s))
            } else if strip_removes(t@) {
                EditView::Write(s)
            } else {
                EditView::Unchanged
            }
        },
    }
}

/// Installing the cmux guard into the `.zshrc` at `path`, read as `read`: a
/// missing profile counts as empty; the profile is written only if the guard
/// was not there.
pub open spec fn guard_edit(path: Seq<char>, read: ReadOutcome) -> EditView {
    match read {
        ReadOutcome::Failed(m) => EditView::Fail(ErrorView::Read { path, source: m@ }),
        _ => {
            let t = match read {
                ReadOutcome::Text(t) => t@,
                _ => seq![],
            };
            if guard_present(t) {
                EditView::Unchanged
            } else {
                EditView::Write(with_guard(t))
            }
        },
    }
}

/// What to do with one entry of the cmux helper directory.
#[derive(Debug, Clone, PartialEq, Eq)]
pub enum MirrorStep {
    /// Leave it out of the mirror (or it is mirrored already).
    Skip,
    /// Replace the mirror's entry with a link to it.
    Link,
    /// Stop with this error.
    Fail(CleanupError),
}

pub enum MirrorView {
    Skip,
    Link,
    Fail(ErrorView),
}

pub open spec fn mirror_view(m: MirrorStep) -> MirrorView {
    match m {
        MirrorStep::Skip => MirrorView::Skip,
        MirrorStep::Link => MirrorView::Link,
        MirrorStep::Fail(e) => MirrorView::Fail(error_view(e)),
    }
}

/// The decision for one helper: `grok` itself is never mirrored, nor is
/// anything but a regular file; a file already linked from the mirror is
/// left alone; an error while finding out its type stops the mirroring.
pub open spec fn mirror_decision(
    name: Seq<char>,
    entry_path: Seq<char>,
    is_file: Result<bool, Seq<char>>,
    already_linked: bool,
) -> MirrorView {
    if name == "grok"@ {
        MirrorView::Skip
    } else {
        match is_file {
            Err(m) => MirrorView::Fail(ErrorView::Inspect { path: entry_path, source: m }),
            Ok(f) => if !f || already_linked {
                MirrorView::Skip
            } else {
                MirrorView::Link
            },
        }
    }
}

fn same_text(a: &str, b: &str) -> (r: bool)
    ensures
        r == (a@ == b@),
{
    let x = chars_of(a);
    let y = chars_of(b);
    if x.len() != y.len() {
        return false;
    }
    let mut i: usize = 0;
    while i < x.len()
        invariant
            x.len() == y.len(),
            x@ == a@,
            y@ == b@,
            i <= x.len(),
            forall|k: int| 0 <= k < i ==> x@[k] == y@[k],
        decreases x.len() - i,
    {
        if x[i] != y[i] {
            assert(a@[i as int] != b@[i as int]);
            return false;
        }
        i = i + 1;
    }
    assert(x@ =~= y@);
    true
}

/// Whether a package's metadata names the Grok CLI package (`None` when the
/// metadata could not be read or parsed).
pub fn is_grok_package(name: Option<&str>) -> (b: bool)
    ensures
        b == (name matches Some(n) && n@ == crate::targets::GROK_PACKAGE@),
{
    match name {
        Some(n) => same_text(n, crate::targets::GROK_PACKAGE),
        None => false,
    }
}

/// The decision for one entry of the cmux helper directory.
pub fn mirror_step(
    name: &str,
    entry_path: &str,
    is_file: Result<bool, String>,
    already_linked: bool,
) -> (m: MirrorStep)
    ensures
        mirror_view(m) == mirror_decision(
            name@,
            entry_path@,
            match is_file {
                Ok(f) => Ok(f),
                Err(e) => Err(e@),
            },
            already_linked,
        ),
{
    if same_text(name, "grok") {
        return MirrorStep::Skip;
    }
    match is_file {
        Err(e) => MirrorStep::Fail(CleanupError::Inspect { path: entry_path.to_string(), source: e }),
        Ok(f) => if !f || already_linked {
            MirrorStep::Skip
        } else {
            MirrorStep::Link
        },
    }
}

/// What happened to one entry of the cmux helper directory.
#[derive(Debug, Clone, PartialEq, Eq)]
pub enum MirrorEntryResult {
    /// Left out of the mirror, or already mirrored.
    Skipped,
    /// Linked into the mirror.
    Linked,
    /// The mirroring stopped here with this error.
    Failed(CleanupError),
}

/// What mirroring reports after the entries `rs` (it stops at the first
/// failure): that failure, or else whether some entry was linked.
pub open spec fn mirror_result(rs: Seq<MirrorEntryResult>) -> Result<bool, CleanupError> {
    if exists|j: int| 0 <= j < rs.len() && rs[j] is Failed {
        let j = choose|j: int|
            0 <= j < rs.len() && rs[j] is Failed && forall|k: int| 0 <= k < j ==> !(rs[k] is Failed);
        Err(rs[j]->Failed_0)
    } else {
        Ok(exists|j: int| 0 <= j < rs.len() && rs[j] is Linked)
    }
}

proof fn lemma_first_failure(rs: Seq<MirrorEntryResult>, j: int)
    requires
        0 <= j < rs.len(),
        rs[j] is Failed,
        forall|k: int| 0 <= k < j ==> !(rs[k] is Failed),
    ensures
        mirror_result(rs) == Err::<bool, CleanupError>(rs[j]->Failed_0),
{
    let i = choose|i: int|
        0 <= i < rs.len() && rs[i] is Failed && forall|k: int| 0 <= k < i ==> !(rs[k] is Failed);
    if i < j {
        assert(!(rs[i] is Failed));
    } else if j < i {
        assert(!(rs[j] is Failed));
    }
}

/// The outcome of mirroring the cmux helpers, from what happened to each
/// entry in turn: the first failure, or else `true` exactly when some entry
/// was linked.
pub fn mirror_outcome(results: Vec<MirrorEntryResult>) -> (r: Result<bool, CleanupError>)
    ensures
        r == mirror_result(results@),
{
    let ghost orig = results@;
    let mut rs = results;
    assert(rs@ == orig);
    let mut i: usize = 0;
    let mut linked = false;
    while i < rs.len()
        invariant
            rs@ == orig,
            orig == results@,
            i <= rs.len(),
            forall|k: int| 0 <= k < i ==> !(orig[k] is Failed),
            linked == exists|k: int| 0 <= k < i && orig[k] is Linked,
        decreases rs.len() - i,
    {
        match &rs[i] {
            MirrorEntryResult::Failed(_) => {
                proof {
                    lemma_first_failure(orig, i as int);
                }
                let f = rs.remove(i);
                match f {
                    MirrorEntryResult::Failed(e) => {
                        return Err(e);
                    },
                    _ => {
                        return Ok(linked);
                    },
                }
            },
            MirrorEntryResult::Linked => {
                linked = true;
            },
            MirrorEntryResult::Skipped => {},
        }
        i = i + 1;
    }
    proof {
        assert(!exists|j: int| 0 <= j < orig.len() && orig[j] is Failed);
    }
    Ok(linked)
}

/// How a target that exists is removed.
#[derive(Debug, Clone, Copy, PartialEq, Eq)]
pub enum RemovalMethod {
    /// Remove the directory with everything in it.
    Tree,
    /// Remove the file, or the symbolic link itself.
    Single,
}

/// How to remove an existing target, given what its own metadata (not
/// followed through a link) says: a real directory goes with its contents;
/// anything else, a symbolic link to a directory included, is removed
/// alone, so a link is never followed.
pub fn removal_method(is_dir: bool, is_symlink: bool) -> (m: RemovalMethod)
    ensures
        m == (if is_dir && !is_symlink {
            RemovalMethod::Tree
        } else {
            RemovalMethod::Single
        }),
{
    if is_dir && !is_symlink {
        RemovalMethod::Tree
    } else {
        RemovalMethod::Single
    }
}

impl CleanupEngine {
    /// What to write back to the shell profile at `path`, read as `read`.
    pub fn sanitize_shell_config(
        &self,
        path: &str,
        read: ReadOutcome,
        cmux_wrapper_present: bool,
    ) -> (e: ProfileEdit)
        ensures
            edit_view(e) == sanitize_edit(self.platform_view(), path@, read, cmux_wrapper_present),
    {
        match read {
            ReadOutcome::NotFound => ProfileEdit::Unchanged,
            ReadOutcome::Failed(m) => ProfileEdit::Fail(
                CleanupError::Read { path: path.to_string(), source: m },
            ),
            ReadOutcome::Text(t) => {
                let (s, removed) = strip_credential_exports(t.as_str());
                let w = self.platform();
                if w == Platform::MacOs && path_ends_with_name(w, &chars_of(path), ".zshrc")
                    && cmux_wrapper_present {
                    let (g, added) = add_cmux_guard(s.as_str());
                    if added {
                        return ProfileEdit::Write(g);
                    }
                }
                if removed {
                    ProfileEdit::Write(s)
                } else {
                    ProfileEdit::Unchanged
                }
            },
        }
    }

    /// What to write back to the `.zshrc` at `path`, read as `read`, to
    /// install the cmux guard.
    pub fn guard_zshrc(&self, path: &str, read: ReadOutcome) -> (e: ProfileEdit)
        ensures
            edit_view(e) == guard_edit(path@, read),
    {
        let content = match read {
            ReadOutcome::Failed(m) => {
                return ProfileEdit::Fail(CleanupError::Read { path: path.to_string(), source: m });
            },
            ReadOutcome::NotFound => String::new(),
            ReadOutcome::Text(t) => t,
        };
        let (g, added) = add_cmux_guard(content.as_str());
        if added {
            ProfileEdit::Write(g)
        } else {
            ProfileEdit::Unchanged
        }
    }
}

/// The mirror of the cmux helpers never holds `grok`: that entry is skipped
/// whatever else is known of it. Any other regular file not yet linked from
/// the mirror is linked; a directory or other non-file, or a file already
/// linked, is skipped; and when its type cannot be found out the mirroring
/// stops with an inspection error naming the entry.
pub proof fn law_mirror_decisions(
    name: Seq<char>,
    entry_path: Seq<char>,
    is_file: Result<bool, Seq<char>>,
    already_linked: bool,
)
    ensures
        name == "grok"@ ==> mirror_decision(name, entry_path, is_file, already_linked)
            is Skip,
        name != "grok"@ ==> match is_file {
            Ok(true) => (mirror_decision(name, entry_path, is_file, already_linked) is Link)
                == !already_linked,
            Ok(false) => mirror_decision(name, entry_path, is_file, already_linked) is Skip,
            Err(m) => mirror_decision(name, entry_path, is_file, already_linked)
                == MirrorView::Fail(ErrorView::Inspect { path: entry_path, source: m }),
        },
{
}

} // verus!
