//! What stripping credential exports guarantees about its result.
use vstd::prelude::*;
use crate::credentials::{
    content_exports, credential_export_line, credential_piece,
    grok_env_keys, kept_pieces, piece_body, strip_removes, stripped, GROK_API_KEY, XAI_API_KEY,
};
use crate::lines::{
    lemma_pieces_of_concat, lemma_pieces_shape, line_of_piece, lines,
    newline_only_at_end, pieces, terminated_pieces, well_formed_pieces,
};
use crate::text::{has_prefix, is_white_space, trim_end_char, trim_start};

verus! {

proof fn lemma_trim_start_push(y: Seq<char>, c: char)
    ensures
        trim_start(y.push(c)) == if trim_start(y).len() == 0 && is_white_space(c) {
            seq![]
        } else {
            trim_start(y).push(c)
        },
    decreases y.len(),
{
    if y.len() == 0 {
        assert(y.push(c) =~= seq![c]);
        assert(seq![c].drop_first() =~= y);
        assert(trim_start(y) == y);
        if is_white_space(c) {
            assert(trim_start(y.push(c)) == trim_start(y.push(c).drop_first()));
            assert(y.push(c).drop_first() =~= y);
        }
        assert(y.push(c) =~= trim_start(y).push(c));
    } else if is_white_space(y[0]) {
        assert(y.push(c).drop_first() =~= y.drop_first().push(c));
        assert(y.push(c)[0] == y[0]);
        lemma_trim_start_push(y.drop_first(), c);
    } else {
        assert(y.push(c)[0] == y[0]);
    }
}

proof fn lemma_prefix_push(t: Seq<char>, p: Seq<char>, c: char)
    requires
        !p.contains(c),
    ensures
        has_prefix(t.push(c), p) == has_prefix(t, p),
{
    if p.len() <= t.len() {
        assert(t.push(c).take(p.len() as int) =~= t.take(p.len() as int));
    } else if p.len() == t.len() + 1 {
        if has_prefix(t.push(c), p) {
            assert(t.push(c).take(p.len() as int) =~= t.push(c));
            assert(p[p.len() - 1] == c);
        }
    }
}

proof fn lemma_no_cr_concat(a: Seq<char>, b: Seq<char>)
    requires
        !a.contains('\r'),
        !b.contains('\r'),
    ensures
        !(a + b).contains('\r'),
{
    if (a + b).contains('\r') {
        let i = choose|i: int| 0 <= i < (a + b).len() && (a + b)[i] == '\r';
        if i < a.len() {
            assert(a[i] == '\r');
        } else {
            assert(b[i - a.len()] == '\r');
        }
    }
}

pub(crate) proof fn lemma_literal_has_no_cr(s: Seq<char>)
    requires
        forall|i: int| 0 <= i < s.len() ==> s[i] != '\r',
    ensures
        !s.contains('\r'),
{
}

/// A carriage return at the end of a line does not change whether it is an
/// export of a key that holds none.
pub(crate) proof fn lemma_cr_irrelevant(y: Seq<char>, key: Seq<char>)
    requires
        !key.contains('\r'),
    ensures
        credential_export_line(y.push('\r'), key) == credential_export_line(y, key),
{
    reveal_strlit("=");
    reveal_strlit("export ");
    reveal_strlit("$env:");
    reveal_strlit("set -gx ");
    reveal_strlit(" ");
    reveal_strlit("setx ");
    lemma_literal_has_no_cr("="@);
    lemma_literal_has_no_cr("export "@);
    lemma_literal_has_no_cr("$env:"@);
    lemma_literal_has_no_cr("set -gx "@);
    lemma_literal_has_no_cr(" "@);
    lemma_literal_has_no_cr("setx "@);
    let p1 = key + "="@;
    let p2 = "export "@ + key + "="@;
    let p3 = "$env:"@ + key;
    let p4 = "set -gx "@ + key + " "@;
    let p5 = "setx "@ + key + " "@;
    lemma_no_cr_concat(key, "="@);
    lemma_no_cr_concat("export "@, key);
    lemma_no_cr_concat("export "@ + key, "="@);
    lemma_no_cr_concat("$env:"@, key);
    lemma_no_cr_concat("set -gx "@, key);
    lemma_no_cr_concat("set -gx "@ + key, " "@);
    lemma_no_cr_concat("setx "@, key);
    lemma_no_cr_concat("setx "@ + key, " "@);
    lemma_trim_start_push(y, '\r');
    let t = trim_start(y);
    assert(is_white_space('\r'));
    if t.len() == 0 {
        assert(trim_start(y.push('\r')) =~= t);
    } else {
        lemma_prefix_push(t, p1, '\r');
        lemma_prefix_push(t, p2, '\r');
        lemma_prefix_push(t, p3, '\r');
        lemma_prefix_push(t, p4, '\r');
        lemma_prefix_push(t, p5, '\r');
        if has_prefix(t, p3) && t.len() > p3.len() {
            assert(t.push('\r')[p3.len() as int] == t[p3.len() as int]);
        }
        assert(!crate::credentials::is_name_char('\r'));
        assert(t.push('\r').contains('=') == t.contains('=')) by {
            if t.push('\r').contains('=') {
                let i = choose|i: int| 0 <= i < t.push('\r').len() && t.push('\r')[i] == '=';
                assert(t[i] == '=');
            }
            if t.contains('=') {
                let i = choose|i: int| 0 <= i < t.len() && t[i] == '=';
                assert(t.push('\r')[i] == '=');
            }
        }
        assert(crate::credentials::powershell_assignment(t.push('\r'), key)
            == crate::credentials::powershell_assignment(t, key));
    }
}

proof fn lemma_trailing_cr_irrelevant(y: Seq<char>, key: Seq<char>)
    requires
        !key.contains('\r'),
    ensures
        credential_export_line(y, key) == credential_export_line(trim_end_char(y, '\r'), key),
    decreases y.len(),
{
    if y.len() > 0 && y.last() == '\r' {
        lemma_trailing_cr_irrelevant(y.drop_last(), key);
        lemma_cr_irrelevant(y.drop_last(), key);
        assert(y.drop_last().push('\r') =~= y);
    }
}

pub(crate) proof fn lemma_keys_have_no_cr(k: int)
    requires
        0 <= k < grok_env_keys().len(),
    ensures
        !grok_env_keys()[k].contains('\r'),
{
    reveal_strlit("GROK_API_KEY");
    reveal_strlit("XAI_API_KEY");
    assert(GROK_API_KEY@ == "GROK_API_KEY"@);
    assert(XAI_API_KEY@ == "XAI_API_KEY"@);
    lemma_literal_has_no_cr("GROK_API_KEY"@);
    lemma_literal_has_no_cr("XAI_API_KEY"@);
}

/// For a piece of a split text, the line that `str::lines` gives and the
/// body that stripping tests agree on whether they export a key.
proof fn lemma_line_matches_body(p: Seq<char>, key: Seq<char>)
    requires
        newline_only_at_end(p),
        !key.contains('\r'),
    ensures
        credential_export_line(line_of_piece(p), key) == credential_export_line(piece_body(p), key),
{
    let q = trim_end_char(p, '\n');
    if p.len() > 0 && p.last() == '\n' {
        let p0 = p.drop_last();
        if p0.len() > 0 {
            assert(p0.last() == p[p.len() - 2]);
        }
        assert(trim_end_char(p0, '\n') == p0);
        assert(q == p0);
        if p0.len() > 0 && p0.last() == '\r' {
            assert(trim_end_char(p0, '\r') == trim_end_char(p0.drop_last(), '\r'));
        }
    } else {
        assert(q == p);
    }
    let line = line_of_piece(p);
    assert(trim_end_char(line, '\r') == trim_end_char(q, '\r'));
    lemma_trailing_cr_irrelevant(line, key);
}

proof fn lemma_kept_shape(ps: Seq<Seq<char>>)
    ensures
        forall|j: int|
            0 <= j < kept_pieces(ps).len() ==> !credential_piece(#[trigger] kept_pieces(ps)[j]),
        terminated_pieces(ps) ==> terminated_pieces(kept_pieces(ps)),
        well_formed_pieces(ps) ==> well_formed_pieces(kept_pieces(ps)),
    decreases ps.len(),
{
    if ps.len() > 0 {
        let p0 = ps.drop_last();
        let x = ps.last();
        lemma_kept_shape(p0);
        let k0 = kept_pieces(p0);
        if well_formed_pieces(ps) {
            assert forall|i: int| 0 <= i < p0.len() implies {
                &&& (#[trigger] p0[i]).len() > 0
                &&& newline_only_at_end(p0[i])
                &&& (i < p0.len() - 1 ==> p0[i].last() == '\n')
            } by {
                assert(p0[i] == ps[i]);
            }
            assert forall|i: int| 0 <= i < p0.len() implies (#[trigger] p0[i]).last() == '\n' by {
                assert(p0[i] == ps[i]);
            }
            assert(terminated_pieces(p0));
            assert(ps[ps.len() - 1] == x);
        }
        if !credential_piece(x) {
            let k = k0.push(x);
            assert forall|j: int| 0 <= j < k.len() implies !credential_piece(#[trigger] k[j]) by {
                if j < k0.len() {
                    assert(k[j] == k0[j]);
                }
            }
            if well_formed_pieces(ps) {
                assert forall|i: int| 0 <= i < k.len() implies {
                    &&& (#[trigger] k[i]).len() > 0
                    &&& newline_only_at_end(k[i])
                    &&& (i < k.len() - 1 ==> k[i].last() == '\n')
                } by {
                    if i < k0.len() {
                        assert(k[i] == k0[i]);
                    }
                }
            }
            if terminated_pieces(ps) {
                assert forall|i: int| 0 <= i < k.len() implies (#[trigger] k[i]).last() == '\n' by {
                    if i < k0.len() {
                        assert(k[i] == k0[i]);
                    }
                }
            }
        }
    }
}

proof fn lemma_kept_of_clean(ps: Seq<Seq<char>>)
    requires
        forall|j: int| 0 <= j < ps.len() ==> !credential_piece(#[trigger] ps[j]),
    ensures
        kept_pieces(ps) == ps,
    decreases ps.len(),
{
    if ps.len() > 0 {
        let p0 = ps.drop_last();
        assert forall|j: int| 0 <= j < p0.len() implies !credential_piece(#[trigger] p0[j]) by {
            assert(p0[j] == ps[j]);
        }
        lemma_kept_of_clean(p0);
        assert(!credential_piece(ps[ps.len() - 1]));
        assert(p0.push(ps.last()) =~= ps);
    }
}

/// Stripping keeps exactly the lines that are not credential exports, in
/// their order: the stripped text splits into those pieces of the input.
pub proof fn law_strip_keeps_other_lines(content: Seq<char>)
    ensures
        pieces(stripped(content)) == kept_pieces(pieces(content)),
        forall|j: int|
            0 <= j < pieces(stripped(content)).len() ==> !credential_piece(
                #[trigger] pieces(stripped(content))[j],
            ),
{
    lemma_pieces_shape(content);
    lemma_kept_shape(pieces(content));
    lemma_pieces_of_concat(kept_pieces(pieces(content)));
}

/// After stripping, no line of the profile exports `GROK_API_KEY` or
/// `XAI_API_KEY` any longer.
pub proof fn law_stripped_exports_no_key(content: Seq<char>, k: int)
    requires
        0 <= k < grok_env_keys().len(),
    ensures
        !content_exports(stripped(content), grok_env_keys()[k]),
{
    law_strip_keeps_other_lines(content);
    lemma_pieces_shape(stripped(content));
    lemma_keys_have_no_cr(k);
    let s = stripped(content);
    let key = grok_env_keys()[k];
    assert forall|j: int| 0 <= j < lines(s).len() implies !credential_export_line(
        #[trigger] lines(s)[j],
        key,
    ) by {
        let p = pieces(s)[j];
        assert(newline_only_at_end(p));
        lemma_line_matches_body(p, key);
        assert(!credential_piece(p));
    }
}

/// Stripping twice is stripping once, and the second pass removes nothing.
pub proof fn law_strip_idempotent(content: Seq<char>)
    ensures
        stripped(stripped(content)) == stripped(content),
        !strip_removes(stripped(content)),
{
    law_strip_keeps_other_lines(content);
    let s = stripped(content);
    lemma_kept_of_clean(pieces(s));
}

/// Stripping removes something exactly when some line of the profile exports
/// `GROK_API_KEY` or `XAI_API_KEY`.
pub proof fn law_strip_removes_iff_export_present(content: Seq<char>)
    ensures
        strip_removes(content) == (content_exports(content, GROK_API_KEY@) || content_exports(
            content,
            XAI_API_KEY@,
        )),
{
    lemma_pieces_shape(content);
    let ps = pieces(content);
    assert(grok_env_keys()[0] == GROK_API_KEY@);
    assert(grok_env_keys()[1] == XAI_API_KEY@);
    lemma_keys_have_no_cr(0);
    lemma_keys_have_no_cr(1);
    if strip_removes(content) {
        let j = choose|j: int| 0 <= j < ps.len() && credential_piece(#[trigger] ps[j]);
        let k = choose|k: int|
            0 <= k < grok_env_keys().len() && credential_export_line(
                piece_body(ps[j]),
                #[trigger] grok_env_keys()[k],
            );
        lemma_line_matches_body(ps[j], grok_env_keys()[k]);
        assert(lines(content)[j] == line_of_piece(ps[j]));
    }
    if content_exports(content, GROK_API_KEY@) || content_exports(content, XAI_API_KEY@) {
        let k: int = if content_exports(content, GROK_API_KEY@) {
            0
        } else {
            1
        };
        let key = grok_env_keys()[k];
        let j = choose|j: int|
            0 <= j < lines(content).len() && credential_export_line(#[trigger] lines(content)[j], key);
        lemma_line_matches_body(ps[j], key);
        assert(credential_piece(ps[j]));
    }
}

} // verus!
