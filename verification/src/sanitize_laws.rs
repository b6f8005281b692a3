//! How exports combine when texts are joined at a line feed, and why a
//! profile that sanitizing writes back exports no Grok key, with or without
//! the cmux guard appended.
use vstd::prelude::*;
use crate::credentials::{
    content_exports, credential_export_line, grok_env_keys, lemma_pieces_concat, stripped,
    GROK_API_KEY, XAI_API_KEY,
};
use crate::edits::{sanitize_edit, EditView, ReadOutcome};
use crate::guard::{guard_present, CMUX_GUARD};
use crate::lines::{lemma_pieces_shape, line_of_piece, lines, pieces};
use crate::paths::Platform;
use crate::strip_laws::{lemma_cr_irrelevant, lemma_keys_have_no_cr, law_stripped_exports_no_key};
use crate::text::{has_prefix, is_white_space, trim_start};

verus! {

proof fn lemma_guard_has_no_y()
    ensures
        !CMUX_GUARD@.contains('Y'),
{
    reveal_strlit(r#"# grok-eliminator:begin
if [[ -o interactive ]]; then
  autoload -Uz add-zle-hook-widget
  _grok_eliminator_cmux_guard() {
    local cmux_bin='/Applications/cmux.app/Contents/Resources/bin'
    local clean_cmux_bin="$HOME/.local/share/cmux-without-grok/bin"
    local -a path_entries

    [[ -n "${CMUX_SURFACE_ID:-}" || ":$PATH:" == *":$cmux_bin:"* ]] || return
    path_entries=("${(@s/:/)PATH}")
    path_entries=("${path_entries[@]:#$cmux_bin}")
    if [[ -d "$clean_cmux_bin" ]] \
      && (( ${path_entries[(Ie)$clean_cmux_bin]} == 0 )); then
      path_entries=("$clean_cmux_bin" "${path_entries[@]}")
    fi
    export PATH="${(j/:/)path_entries}"
    rehash
    unfunction grok 2>/dev/null
    unset _CMUX_GROK_WRAPPER
  }
  add-zle-hook-widget -Uz line-init _grok_eliminator_cmux_guard
fi
# grok-eliminator:end
"#);
    assert(CMUX_GUARD@ == r#"# grok-eliminator:begin
if [[ -o interactive ]]; then
  autoload -Uz add-zle-hook-widget
  _grok_eliminator_cmux_guard() {
    local cmux_bin='/Applications/cmux.app/Contents/Resources/bin'
    local clean_cmux_bin="$HOME/.local/share/cmux-without-grok/bin"
    local -a path_entries

    [[ -n "${CMUX_SURFACE_ID:-}" || ":$PATH:" == *":$cmux_bin:"* ]] || return
    path_entries=("${(@s/:/)PATH}")
    path_entries=("${path_entries[@]:#$cmux_bin}")
    if [[ -d "$clean_cmux_bin" ]] \
      && (( ${path_entries[(Ie)$clean_cmux_bin]} == 0 )); then
      path_entries=("$clean_cmux_bin" "${path_entries[@]}")
    fi
    export PATH="${(j/:/)path_entries}"
    rehash
    unfunction grok 2>/dev/null
    unset _CMUX_GROK_WRAPPER
  }
  add-zle-hook-widget -Uz line-init _grok_eliminator_cmux_guard
fi
# grok-eliminator:end
"#@);
}

proof fn lemma_keys_have_y(k: int)
    requires
        0 <= k < grok_env_keys().len(),
    ensures
        grok_env_keys()[k].contains('Y'),
{
    reveal_strlit("GROK_API_KEY");
    reveal_strlit("XAI_API_KEY");
    assert(GROK_API_KEY@ == "GROK_API_KEY"@);
    assert(XAI_API_KEY@ == "XAI_API_KEY"@);
    assert(GROK_API_KEY@[11] == 'Y');
    assert(XAI_API_KEY@[10] == 'Y');
}

proof fn lemma_trim_start_keeps(s: Seq<char>, c: char)
    requires
        trim_start(s).contains(c),
    ensures
        s.contains(c),
    decreases s.len(),
{
    if s.len() > 0 && is_white_space(s[0]) {
        lemma_trim_start_keeps(s.drop_first(), c);
        let i = choose|i: int| 0 <= i < s.drop_first().len() && s.drop_first()[i] == c;
        assert(s[i + 1] == c);
    }
}

proof fn lemma_concat_has(a: Seq<char>, b: Seq<char>, c: char)
    requires
        a.contains(c) || b.contains(c),
    ensures
        (a + b).contains(c),
{
    if a.contains(c) {
        let i = choose|i: int| 0 <= i < a.len() && a[i] == c;
        assert((a + b)[i] == c);
    } else {
        let i = choose|i: int| 0 <= i < b.len() && b[i] == c;
        assert((a + b)[a.len() + i] == c);
    }
}

proof fn lemma_prefix_has(t: Seq<char>, p: Seq<char>, c: char)
    requires
        has_prefix(t, p),
        p.contains(c),
    ensures
        t.contains(c),
{
    let i = choose|i: int| 0 <= i < p.len() && p[i] == c;
    assert(t.take(p.len() as int)[i] == t[i]);
}

/// A line that exports a key holding a `Y` holds a `Y` itself.
proof fn lemma_export_needs_y(l: Seq<char>, key: Seq<char>)
    requires
        key.contains('Y'),
        credential_export_line(l, key),
    ensures
        l.contains('Y'),
{
    let t = trim_start(l);
    lemma_concat_has(key, "="@, 'Y');
    lemma_concat_has("export "@, key, 'Y');
    lemma_concat_has("export "@ + key, "="@, 'Y');
    lemma_concat_has("$env:"@, key, 'Y');
    lemma_concat_has("set -gx "@, key, 'Y');
    lemma_concat_has("set -gx "@ + key, " "@, 'Y');
    lemma_concat_has("setx "@, key, 'Y');
    lemma_concat_has("setx "@ + key, " "@, 'Y');
    if has_prefix(t, key + "="@) {
        lemma_prefix_has(t, key + "="@, 'Y');
    } else if has_prefix(t, "export "@ + key + "="@) {
        lemma_prefix_has(t, "export "@ + key + "="@, 'Y');
    } else if has_prefix(t, "$env:"@ + key) {
        lemma_prefix_has(t, "$env:"@ + key, 'Y');
    } else if has_prefix(t, "set -gx "@ + key + " "@) {
        lemma_prefix_has(t, "set -gx "@ + key + " "@, 'Y');
    } else {
        lemma_prefix_has(t, "setx "@ + key + " "@, 'Y');
    }
    lemma_trim_start_keeps(l, 'Y');
}

/// Every character of a piece of `s` is a character of `s`.
proof fn lemma_pieces_from(s: Seq<char>, c: char)
    requires
        !s.contains(c),
    ensures
        forall|j: int| 0 <= j < pieces(s).len() ==> !(#[trigger] pieces(s)[j]).contains(c),
    decreases s.len(),
{
    if s.len() > 0 {
        let s0 = s.drop_last();
        assert(!s0.contains(c)) by {
            if s0.contains(c) {
                let i = choose|i: int| 0 <= i < s0.len() && s0[i] == c;
                assert(s[i] == c);
            }
        }
        lemma_pieces_from(s0, c);
        let r = pieces(s0);
        assert(s.last() != c) by {
            assert(s[s.len() - 1] == s.last());
        }
        assert(!seq![s.last()].contains(c)) by {
            if seq![s.last()].contains(c) {
                let i = choose|i: int| 0 <= i < 1 && seq![s.last()][i] == c;
            }
        }
        if !(r.len() == 0 || r.last().last() == '\n') {
            let q = r.last().push(s.last());
            assert(!r.last().contains(c)) by {
                assert(r.last() == r[r.len() - 1]);
            }
            assert(!q.contains(c)) by {
                if q.contains(c) {
                    let i = choose|i: int| 0 <= i < q.len() && q[i] == c;
                    if i < r.last().len() {
                        assert(r.last()[i] == c);
                    }
                }
            }
        }
    }
}

/// A text without `Y` exports no key holding one.
proof fn lemma_no_y_no_export(s: Seq<char>, key: Seq<char>)
    requires
        !s.contains('Y'),
        key.contains('Y'),
    ensures
        !content_exports(s, key),
{
    lemma_pieces_from(s, 'Y');
    assert forall|j: int| 0 <= j < lines(s).len() implies !credential_export_line(
        #[trigger] lines(s)[j],
        key,
    ) by {
        let p = pieces(s)[j];
        let l = line_of_piece(p);
        assert(lines(s)[j] == l);
        if credential_export_line(l, key) {
            lemma_export_needs_y(l, key);
            let i = choose|i: int| 0 <= i < l.len() && l[i] == 'Y';
            if p.len() > 0 && p.last() == '\n' {
                let q = p.drop_last();
                if q.len() > 0 && q.last() == '\r' {
                    assert(q.drop_last()[i] == p[i]);
                } else {
                    assert(q[i] == p[i]);
                }
            }
            assert(p[i] == 'Y');
        }
    }
}

/// Text after a line feed (or after nothing) adds its own lines.
proof fn lemma_exports_of_concat(a: Seq<char>, b: Seq<char>, key: Seq<char>)
    requires
        a.len() == 0 || a.last() == '\n',
    ensures
        content_exports(a + b, key) == (content_exports(a, key) || content_exports(b, key)),
{
    lemma_pieces_concat(a, b);
    let la = lines(a);
    let lb = lines(b);
    assert(lines(a + b) =~= la + lb);
    if content_exports(a + b, key) {
        let j = choose|j: int|
            0 <= j < lines(a + b).len() && credential_export_line(#[trigger] lines(a + b)[j], key);
        if j < la.len() {
            assert(lines(a + b)[j] == la[j]);
        } else {
            assert(lines(a + b)[j] == lb[j - la.len()]);
        }
    }
    if content_exports(a, key) {
        let j = choose|j: int| 0 <= j < la.len() && credential_export_line(#[trigger] la[j], key);
        assert(lines(a + b)[j] == la[j]);
    }
    if content_exports(b, key) {
        let j = choose|j: int| 0 <= j < lb.len() && credential_export_line(#[trigger] lb[j], key);
        assert(lines(a + b)[la.len() + j] == lb[j]);
    }
}

/// An empty line exports nothing.
proof fn lemma_empty_line_exports_nothing(key: Seq<char>)
    ensures
        !credential_export_line(Seq::<char>::empty(), key),
{
    reveal_strlit("=");
    reveal_strlit("export ");
    reveal_strlit("$env:");
    reveal_strlit("set -gx ");
    reveal_strlit("setx ");
    assert(trim_start(Seq::<char>::empty()) == Seq::<char>::empty());
}

/// Ending the text with a line feed adds no export: the last line keeps its
/// text (a carriage return at its end aside), or an empty line is added.
proof fn lemma_exports_after_newline(s: Seq<char>, key: Seq<char>)
    requires
        !key.contains('\r'),
    ensures
        content_exports(s.push('\n'), key) == content_exports(s, key),
{
    let t = s.push('\n');
    assert(t.drop_last() =~= s);
    lemma_pieces_shape(s);
    let r = pieces(s);
    if s.len() == 0 || s.last() == '\n' {
        lemma_empty_line_exports_nothing(key);
        assert(pieces(t) == r.push(seq!['\n']));
        assert(seq!['\n'].drop_last() =~= Seq::<char>::empty());
        assert(line_of_piece(seq!['\n']) == Seq::<char>::empty());
        assert(lines(t) =~= lines(s).push(Seq::<char>::empty()));
        if content_exports(t, key) {
            let j = choose|j: int|
                0 <= j < lines(t).len() && credential_export_line(#[trigger] lines(t)[j], key);
            assert(lines(t)[j] == lines(s)[j]);
        }
        if content_exports(s, key) {
            let j = choose|j: int|
                0 <= j < lines(s).len() && credential_export_line(#[trigger] lines(s)[j], key);
            assert(lines(t)[j] == lines(s)[j]);
        }
    } else {
        let q = r.last();
        assert(pieces(t) == r.update(r.len() - 1, q.push('\n')));
        assert(q.push('\n').drop_last() =~= q);
        assert(lines(s)[r.len() - 1] == q);
        assert forall|j: int| 0 <= j < lines(t).len() implies credential_export_line(
            #[trigger] lines(t)[j],
            key,
        ) == credential_export_line(lines(s)[j], key) by {
            if j < r.len() - 1 {
                assert(lines(t)[j] == lines(s)[j]);
            } else {
                assert(lines(s)[j] == q);
                if q.len() > 0 && q.last() == '\r' {
                    assert(q.drop_last().push('\r') =~= q);
                    lemma_cr_irrelevant(q.drop_last(), key);
                }
            }
        }
        if content_exports(t, key) {
            let j = choose|j: int|
                0 <= j < lines(t).len() && credential_export_line(#[trigger] lines(t)[j], key);
            assert(credential_export_line(lines(s)[j], key));
        }
        if content_exports(s, key) {
            let j = choose|j: int|
                0 <= j < lines(s).len() && credential_export_line(#[trigger] lines(s)[j], key);
            assert(credential_export_line(lines(t)[j], key));
        }
    }
}

/// Two texts joined by a line feed export a key exactly when one of them
/// does, for a key without a carriage return. (A carriage return at the end
/// of the first text no longer belongs to its last line once the line feed
/// follows; it never decides an export.)
pub proof fn law_line_join_exports(a: Seq<char>, b: Seq<char>, key: Seq<char>)
    requires
        !key.contains('\r'),
    ensures
        content_exports(a.push('\n') + b, key) == (content_exports(a, key) || content_exports(
            b,
            key,
        )),
{
    lemma_exports_after_newline(a, key);
    lemma_exports_of_concat(a.push('\n'), b, key);
}

/// Whatever sanitizing a profile writes back exports neither Grok key: the
/// credential lines are gone, and the cmux guard that may be appended holds
/// no export.
pub proof fn law_sanitized_profile_exports_no_key(
    w: Platform,
    path: Seq<char>,
    read: ReadOutcome,
    cmux_wrapper_present: bool,
    k: int,
)
    requires
        0 <= k < grok_env_keys().len(),
    ensures
        sanitize_edit(w, path, read, cmux_wrapper_present) matches EditView::Write(t)
            ==> !content_exports(t, grok_env_keys()[k]),
{
    if let ReadOutcome::Text(c) = read {
        let s = stripped(c@);
        let key = grok_env_keys()[k];
        law_stripped_exports_no_key(c@, k);
        lemma_keys_have_no_cr(k);
        lemma_keys_have_y(k);
        if !guard_present(s) {
            lemma_guard_has_no_y();
            lemma_no_y_no_export(CMUX_GUARD@, key);
            if s.len() > 0 && s.last() != '\n' {
                lemma_exports_after_newline(s, key);
                lemma_exports_of_concat(s.push('\n'), CMUX_GUARD@, key);
            } else {
                lemma_exports_of_concat(s, CMUX_GUARD@, key);
            }
        }
    }
}

} // verus!
