//! The zsh guard that keeps the Grok wrapper bundled with cmux out of reach
//! of interactive shells, and its idempotent installation into a profile.
use vstd::prelude::*;
use crate::text::{chars_of, has_infix, push_str, string_from_chars, vec_has_infix};

verus! {

/// Where the signed cmux application keeps its helper executables.
pub const CMUX_BUNDLED_BIN: &'static str = "/Applications/cmux.app/Contents/Resources/bin";

/// Where, below the home directory, the mirror of cmux helpers without Grok lives.
pub const CMUX_CLEAN_BIN: &'static str = ".local/share/cmux-without-grok/bin";

pub const CMUX_GUARD_START: &'static str = "# grok-eliminator:begin";

pub const CMUX_GUARD_END: &'static str = "# grok-eliminator:end";

/// A marker of an older hand-written guard.
pub const LEGACY_GUARD_MARKER: &'static str = "_disable_cmux_grok_wrapper";

/// A marker of any guard that points the shell at the clean mirror.
pub const CLEAN_MIRROR_MARKER: &'static str = "cmux-without-grok";

/// The zsh snippet appended to `.zshrc`.
pub const CMUX_GUARD: &'static str = r#"# grok-eliminator:begin
if [[ -o interactive ]]; then
  autoload -Uz add-zle-hook-widget
  _grok_eliminator_cmux_guard() {
    local cmux_bin='/Applications/cmux.app/Contents/Resources/bin'
    local clean_cmux_bin="$HOME/.local/share/cmux-without-grok/bin"
    local -a path_entries

    [[ -n "${CMUX_SURFACE_ID:-}" || ":$PATH:" == *":$cmux_bin:"* ]] || return
    path_entries=("${(@s/:/)PATH}")
    path_entries=("${path_entries[@]:#$cmux_bin}")
    if [[ -d "$clean_cmux_bin" ]] \
      && (( ${path_entries[(Ie)$clean_cmux_bin]} == 0 )); then
      path_entries=("$clean_cmux_bin" "${path_entries[@]}")
    fi
    export PATH="${(j/:/)path_entries}"
    rehash
    unfunction grok 2>/dev/null
    unset _CMUX_GROK_WRAPPER
  }
  add-zle-hook-widget -Uz line-init _grok_eliminator_cmux_guard
fi
# grok-eliminator:end
"#;

/// Whether a profile already carries a guard (this one or an earlier form).
pub open spec fn guard_present(content: Seq<char>) -> bool {
    ||| has_infix(content, CMUX_GUARD_START@)
    ||| has_infix(content, CMUX_GUARD_END@)
    ||| has_infix(content, LEGACY_GUARD_MARKER@)
    ||| has_infix(content, CLEAN_MIRROR_MARKER@)
}

/// The profile with the guard appended (after a line feed if the profile is
/// nonempty and does not end in one), or unchanged if a guard is present.
pub open spec fn with_guard(content: Seq<char>) -> Seq<char> {
    if guard_present(content) {
        content
    } else if content.len() > 0 && content.last() != '\n' {
        content.push('\n') + CMUX_GUARD@
    } else {
        content + CMUX_GUARD@
    }
}

/// Appends the cmux guard to a profile unless one is there; reports whether
/// it was added.
pub fn add_cmux_guard(content: &str) -> (res: (String, bool))
    ensures
        res.0@ == with_guard(content@),
        res.1 == !guard_present(content@),
{
    let v = chars_of(content);
    let present = vec_has_infix(&v, &chars_of(CMUX_GUARD_START)) || vec_has_infix(
        &v,
        &chars_of(CMUX_GUARD_END),
    ) || vec_has_infix(&v, &chars_of(LEGACY_GUARD_MARKER)) || vec_has_infix(
        &v,
        &chars_of(CLEAN_MIRROR_MARKER),
    );
    if present {
        return (string_from_chars(&v), false);
    }
    let mut out = v;
    if out.len() > 0 && out[out.len() - 1] != '\n' {
        out.push('\n');
    }
    push_str(&mut out, CMUX_GUARD);
    (string_from_chars(&out), true)
}

/// Once added, the guard is found again: adding it a second time changes
/// nothing and reports that nothing was added. The profile itself is kept
/// as the start of the result.
pub proof fn law_guard_added_once(content: Seq<char>)
    ensures
        guard_present(with_guard(content)),
        with_guard(with_guard(content)) == with_guard(content),
        with_guard(content).take(content.len() as int) == content,
{
    reveal_strlit("# grok-eliminator:begin");
    assert(CMUX_GUARD_START@ == "# grok-eliminator:begin"@);
    let n = CMUX_GUARD_START@.len();
    assert(CMUX_GUARD@.len() >= n && CMUX_GUARD@.take(n as int) =~= CMUX_GUARD_START@) by {
        reveal_strlit(r#"# grok-eliminator:begin
if [[ -o interactive ]]; then
  autoload -Uz add-zle-hook-widget
  _grok_eliminator_cmux_guard() {
    local cmux_bin='/Applications/cmux.app/Contents/Resources/bin'
    local clean_cmux_bin="$HOME/.local/share/cmux-without-grok/bin"
    local -a path_entries

    [[ -n "${CMUX_SURFACE_ID:-}" || ":$PATH:" == *":$cmux_bin:"* ]] || return
    path_entries=("${(@s/:/)PATH}")
    path_entries=("${path_entries[@]:#$cmux_bin}")
    if [[ -d "$clean_cmux_bin" ]] \
      && (( ${path_entries[(Ie)$clean_cmux_bin]} == 0 )); then
      path_entries=("$clean_cmux_bin" "${path_entries[@]}")
    fi
    export PATH="${(j/:/)path_entries}"
    rehash
    unfunction grok 2>/dev/null
    unset _CMUX_GROK_WRAPPER
  }
  add-zle-hook-widget -Uz line-init _grok_eliminator_cmux_guard
fi
# grok-eliminator:end
"#);
    }
    if !guard_present(content) {
        let prefix = if content.len() > 0 && content.last() != '\n' {
            content.push('\n')
        } else {
            content
        };
        let r = prefix + CMUX_GUARD@;
        assert forall|i: int| 0 <= i < n implies r[prefix.len() + i] == CMUX_GUARD_START@[i] by {
            assert(r[prefix.len() + i] == CMUX_GUARD@[i]);
            assert(CMUX_GUARD@.take(n as int)[i] == CMUX_GUARD@[i]);
        }
        assert(r.subrange(prefix.len() as int, (prefix.len() + CMUX_GUARD_START@.len()) as int)
            =~= CMUX_GUARD_START@);
        assert(r.take(content.len() as int) =~= content);
    } else {
        assert(content.take(content.len() as int) =~= content);
    }
}

} // verus!
