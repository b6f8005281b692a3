//! Detection and removal of shell-profile lines that export a Grok or xAI
//! API key. Only the shape of a line is looked at; a value is never kept.
use vstd::prelude::*;
use crate::lines::{
    concat_pieces, lemma_pieces_append, lemma_pieces_shape, line_of_piece, lines, pieces,
};
use crate::text::{
    chars_of, has_prefix, push_range, push_str, skip_white_space, string_from_chars, trim_end_char,
    trim_start, window_has_char, window_has_prefix,
};

verus! {

pub const GROK_API_KEY: &'static str = "GROK_API_KEY";

pub const XAI_API_KEY: &'static str = "XAI_API_KEY";

/// The environment variables that hold a Grok credential, in the order in
/// which reports list them.
pub open spec fn grok_env_keys() -> Seq<Seq<char>> {
    seq![GROK_API_KEY@, XAI_API_KEY@]
}

/// Whether `line` assigns `key` in one of the shell forms that profiles use:
/// `KEY=`, `export KEY=`, PowerShell `$env:KEY` on a line holding an `=`,
/// fish `set -gx KEY `, or Windows `setx KEY `, after any leading white
/// space. The name must end where `key` ends: `KEY_NAME=` does not assign
/// `KEY` in any form.
pub open spec fn credential_export_line(line: Seq<char>, key: Seq<char>) -> bool {
    let t = trim_start(line);
    ||| has_prefix(t, key + "="@)
    ||| has_prefix(t, "export "@ + key + "="@)
    ||| powershell_assignment(t, key)
    ||| has_prefix(t, "set -gx "@ + key + " "@)
    ||| has_prefix(t, "setx "@ + key + " "@)
}

/// A character that continues a variable name: an ASCII letter or digit, or
/// `_`.
pub open spec fn is_name_char(c: char) -> bool {
    ('a' <= c && c <= 'z') || ('A' <= c && c <= 'Z') || ('0' <= c && c <= '9') || c == '_'
}

/// `t` starts with `$env:` and `key`, the name ends there, and the line
/// holds an `=` (plain or compound assignment such as `+=`).
pub open spec fn powershell_assignment(t: Seq<char>, key: Seq<char>) -> bool {
    let p = "$env:"@ + key;
    &&& has_prefix(t, p)
    &&& (t.len() == p.len() || !is_name_char(t[p.len() as int]))
    &&& t.contains('=')
}

/// Whether some line of `content` (as `str::lines` splits it) exports `key`.
pub open spec fn content_exports(content: Seq<char>, key: Seq<char>) -> bool {
    exists|j: int|
        0 <= j < lines(content).len() && credential_export_line(#[trigger] lines(content)[j], key)
}

/// The part of a piece that the stripping test looks at: the piece without
/// its trailing line feeds and then without its trailing carriage returns.
pub open spec fn piece_body(p: Seq<char>) -> Seq<char> {
    trim_end_char(trim_end_char(p, '\n'), '\r')
}

/// A piece of a profile that exports one of the Grok credential variables.
pub open spec fn credential_piece(p: Seq<char>) -> bool {
    exists|k: int|
        0 <= k < grok_env_keys().len() && credential_export_line(
            piece_body(p),
            #[trigger] grok_env_keys()[k],
        )
}

/// The pieces that survive stripping, in the order they came in.
pub open spec fn kept_pieces(ps: Seq<Seq<char>>) -> Seq<Seq<char>>
    decreases ps.len(),
{
    if ps.len() == 0 {
        seq![]
    } else if credential_piece(ps.last()) {
        kept_pieces(ps.drop_last())
    } else {
        kept_pieces(ps.drop_last()).push(ps.last())
    }
}

pub open spec fn any_credential_piece(ps: Seq<Seq<char>>) -> bool {
    exists|j: int| 0 <= j < ps.len() && credential_piece(#[trigger] ps[j])
}

/// The content with every credential-export line (and its line ending)
/// removed; every other byte is kept, in order.
pub open spec fn stripped(content: Seq<char>) -> Seq<char> {
    concat_pieces(kept_pieces(pieces(content)))
}

/// Whether stripping `content` removes anything.
pub open spec fn strip_removes(content: Seq<char>) -> bool {
    any_credential_piece(pieces(content))
}

/// `v[start..end]` without every trailing `c`.
fn trim_end_window(v: &Vec<char>, start: usize, end: usize, c: char) -> (e: usize)
    requires
        start <= end <= v.len(),
    ensures
        start <= e <= end,
        v@.subrange(start as int, e as int) == trim_end_char(
            v@.subrange(start as int, end as int),
            c,
        ),
{
    let mut e = end;
    while e > start && v[e - 1] == c
        invariant
            start <= e <= end <= v.len(),
            trim_end_char(v@.subrange(start as int, e as int), c) == trim_end_char(
                v@.subrange(start as int, end as int),
                c,
            ),
        decreases e,
    {
        assert(v@.subrange(start as int, e as int).drop_last() =~= v@.subrange(
            start as int,
            e - 1,
        ));
        e = e - 1;
    }
    e
}

/// `lit` followed by `key` and then `tail`.
fn pattern(lit: &str, key: &Vec<char>, tail: &str) -> (p: Vec<char>)
    ensures
        p@ == lit@ + key@ + tail@,
{
    let mut p = chars_of(lit);
    push_range(&mut p, key, 0, key.len());
    assert(key@.subrange(0, key@.len() as int) =~= key@);
    push_str(&mut p, tail);
    p
}

fn name_char(c: char) -> (b: bool)
    ensures
        b == is_name_char(c),
{
    ('a' <= c && c <= 'z') || ('A' <= c && c <= 'Z') || ('0' <= c && c <= '9') || c == '_'
}

/// Whether `v[start..end]` begins with `p`, the name ends there, and the
/// window holds an `=`.
fn powershell_window(v: &Vec<char>, start: usize, end: usize, p: &Vec<char>) -> (b: bool)
    requires
        start <= end <= v.len(),
    ensures
        ({
            let t = v@.subrange(start as int, end as int);
            b == (has_prefix(t, p@) && (t.len() == p@.len() || !is_name_char(t[p@.len() as int]))
                && t.contains('='))
        }),
{
    if !window_has_prefix(v, start, end, p) {
        return false;
    }
    let r = start + p.len();
    let ends = r == end || !name_char(v[r]);
    proof {
        let t = v@.subrange(start as int, end as int);
        if r < end {
            assert(t[p@.len() as int] == v@[r as int]);
        }
    }
    ends && window_has_char(v, start, end, '=')
}

/// Whether `v[start..end]` is an export of `key`.
fn credential_window(v: &Vec<char>, start: usize, end: usize, key: &Vec<char>) -> (b: bool)
    requires
        start <= end <= v.len(),
    ensures
        b == credential_export_line(v@.subrange(start as int, end as int), key@),
{
    let t = skip_white_space(v, start, end);
    let direct = pattern("", key, "=");
    let exported = pattern("export ", key, "=");
    let powershell = pattern("$env:", key, "");
    let fish = pattern("set -gx ", key, " ");
    let setx = pattern("setx ", key, " ");
    proof {
        reveal_strlit("");
        assert(direct@ =~= key@ + "="@);
        assert(powershell@ =~= "$env:"@ + key@);
    }
    window_has_prefix(v, t, end, &direct) || window_has_prefix(v, t, end, &exported)
        || powershell_window(v, t, end, &powershell) || window_has_prefix(v, t, end, &fish)
        || window_has_prefix(v, t, end, &setx)
}

/// Whether `line` exports `key` (see `credential_export_line`).
pub fn is_credential_export(line: &str, key: &str) -> (b: bool)
    ensures
        b == credential_export_line(line@, key@),
{
    let v = chars_of(line);
    let k = chars_of(key);
    assert(v@.subrange(0, v@.len() as int) =~= v@);
    credential_window(&v, 0, v.len(), &k)
}

/// Splitting after a line feed splits the pieces there too.
pub proof fn lemma_pieces_concat(a: Seq<char>, b: Seq<char>)
    requires
        a.len() == 0 || a.last() == '\n',
    ensures
        pieces(a + b) == pieces(a) + pieces(b),
    decreases b.len(),
{
    lemma_pieces_shape(a);
    if b.len() == 0 {
        assert(a + b =~= a);
        assert(pieces(a) + pieces(b) =~= pieces(a));
    } else {
        let b0 = b.drop_last();
        lemma_pieces_concat(a, b0);
        assert((a + b).drop_last() =~= a + b0);
        lemma_pieces_shape(b0);
        let r = pieces(a) + pieces(b0);
        if pieces(b0).len() == 0 {
            assert(r =~= pieces(a));
            assert(pieces(b) =~= seq![seq![b.last()]]);
            assert(pieces(a).push(seq![b.last()]) =~= pieces(a) + pieces(b));
        } else {
            assert(r.last() == pieces(b0).last());
            let rb = pieces(b0);
            if rb.last().last() == '\n' {
                assert(r.push(seq![b.last()]) =~= pieces(a) + rb.push(seq![b.last()]));
            } else {
                assert(r.update(r.len() - 1, r.last().push(b.last())) =~= pieces(a) + rb.update(
                    rb.len() - 1,
                    rb.last().push(b.last()),
                ));
            }
        }
    }
}

/// A window of `v` that begins after a line feed (or at 0) and holds no line
/// feed contributes exactly one piece.
proof fn lemma_next_piece(v: Seq<char>, start: int, end: int)
    requires
        0 <= start < end <= v.len(),
        start == 0 || v[start - 1] == '\n',
        forall|j: int| start <= j < end - 1 ==> v[j] != '\n',
    ensures
        pieces(v.take(end)) == pieces(v.take(start)).push(v.subrange(start, end)),
{
    let a = v.take(start);
    let b = v.subrange(start, end);
    assert forall|k: int| 0 <= k < b.len() - 1 implies b[k] != '\n' by {
        assert(b[k] == v[start + k]);
    }
    lemma_pieces_append(a, b);
    assert(a + b =~= v.take(end));
}

/// Whether some line of `content` exports `key` (as `str::lines` splits it).
pub fn contains_credential_export(content: &str, key: &str) -> (b: bool)
    ensures
        b == content_exports(content@, key@),
{
    let v = chars_of(content);
    let k = chars_of(key);
    let mut start: usize = 0;
    let mut i: usize = 0;
    while i < v.len()
        invariant
            start <= i <= v.len(),
            v@ == content@,
            k@ == key@,
            start == 0 || v@[start - 1] == '\n',
            forall|j: int| start <= j < i ==> v@[j] != '\n',
            forall|j: int|
                0 <= j < pieces(v@.take(start as int)).len() ==> !credential_export_line(
                    line_of_piece(#[trigger] pieces(v@.take(start as int))[j]),
                    k@,
                ),
        decreases v.len() - i,
    {
        if v[i] == '\n' {
            let e = if i > start && v[i - 1] == '\r' {
                i - 1
            } else {
                i
            };
            let ghost piece = v@.subrange(start as int, i + 1);
            proof {
                lemma_next_piece(v@, start as int, i + 1);
                assert(piece.drop_last() =~= v@.subrange(start as int, i as int));
                if i > start && v@[i - 1] == '\r' {
                    assert(piece.drop_last().drop_last() =~= v@.subrange(start as int, i - 1));
                }
                assert(line_of_piece(piece) == v@.subrange(start as int, e as int));
            }
            if credential_window(&v, start, e, &k) {
                proof {
                    let p1 = pieces(v@.take(i + 1));
                    lemma_pieces_concat(v@.take(i + 1), v@.skip(i + 1));
                    assert(v@.take(i + 1) + v@.skip(i + 1) =~= v@);
                    let j = pieces(v@.take(start as int)).len() as int;
                    assert(pieces(v@)[j] == p1[j]);
                    assert(lines(content@)[j] == line_of_piece(piece));
                }
                return true;
            }
            proof {
                let p0 = pieces(v@.take(start as int));
                assert forall|j: int|
                    0 <= j < pieces(v@.take(i + 1)).len() implies !credential_export_line(
                    line_of_piece(#[trigger] pieces(v@.take(i + 1))[j]),
                    k@,
                ) by {
                    if j < p0.len() {
                        assert(pieces(v@.take(i + 1))[j] == p0[j]);
                    }
                }
            }
            start = i + 1;
        }
        i = i + 1;
    }
    let ghost p0 = pieces(v@.take(start as int));
    if start < v.len() {
        proof {
            lemma_next_piece(v@, start as int, v.len() as int);
            assert(v@.take(v.len() as int) =~= v@);
            assert(line_of_piece(v@.subrange(start as int, v.len() as int)) == v@.subrange(
                start as int,
                v.len() as int,
            ));
        }
        let found = credential_window(&v, start, v.len(), &k);
        proof {
            assert forall|j: int| 0 <= j < lines(content@).len() && j != p0.len()
                implies !credential_export_line(#[trigger] lines(content@)[j], k@) by {
                assert(pieces(v@)[j] == p0[j]);
            }
            assert(lines(content@)[p0.len() as int] == v@.subrange(start as int, v.len() as int));
        }
        found
    } else {
        proof {
            assert(v@.take(start as int) =~= v@);
        }
        false
    }
}

/// Tests one piece `v[start..end]` and appends it to `out` unless it is a
/// credential export.
fn sift_piece(
    v: &Vec<char>,
    start: usize,
    end: usize,
    grok: &Vec<char>,
    xai: &Vec<char>,
    out: &mut Vec<char>,
) -> (cred: bool)
    requires
        start <= end <= v.len(),
        grok@ == GROK_API_KEY@,
        xai@ == XAI_API_KEY@,
    ensures
        cred == credential_piece(v@.subrange(start as int, end as int)),
        final(out)@ == old(out)@ + (if cred {
            seq![]
        } else {
            v@.subrange(start as int, end as int)
        }),
{
    let ghost piece = v@.subrange(start as int, end as int);
    let e1 = trim_end_window(v, start, end, '\n');
    let e = trim_end_window(v, start, e1, '\r');
    let cred = credential_window(v, start, e, grok) || credential_window(v, start, e, xai);
    proof {
        assert(piece_body(piece) == v@.subrange(start as int, e as int));
        assert(grok_env_keys()[0] == GROK_API_KEY@);
        assert(grok_env_keys()[1] == XAI_API_KEY@);
    }
    if !cred {
        push_range(out, v, start, end);
    } else {
        assert(old(out)@ + seq![] =~= old(out)@);
    }
    cred
}

/// One more piece extends the kept text and the removal flag as expected.
proof fn lemma_sift_step(p0: Seq<Seq<char>>, piece: Seq<char>)
    ensures
        concat_pieces(kept_pieces(p0.push(piece))) == concat_pieces(kept_pieces(p0)) + (if credential_piece(piece) {
            seq![]
        } else {
            piece
        }),
        any_credential_piece(p0.push(piece)) == (any_credential_piece(p0) || credential_piece(piece)),
{
    let ps = p0.push(piece);
    assert(ps.drop_last() =~= p0);
    assert(ps.last() == piece);
    let kp = kept_pieces(p0);
    if credential_piece(piece) {
        assert(ps[p0.len() as int] == piece);
        assert(concat_pieces(kp) + seq![] =~= concat_pieces(kp));
    } else {
        assert(kp.push(piece).drop_last() =~= kp);
    }
    assert forall|j: int| 0 <= j < p0.len() implies ps[j] == p0[j] by {}
    if any_credential_piece(ps) && !credential_piece(piece) {
        let j = choose|j: int| 0 <= j < ps.len() && credential_piece(#[trigger] ps[j]);
        if j == p0.len() {
            assert(ps[j] == piece);
        }
        assert(credential_piece(p0[j]));
    }
}

/// Removes every line that exports `GROK_API_KEY` or `XAI_API_KEY`, with its
/// line ending; reports whether any was removed.
pub fn strip_credential_exports(content: &str) -> (res: (String, bool))
    ensures
        res.0@ == stripped(content@),
        res.1 == strip_removes(content@),
{
    let v = chars_of(content);
    let grok = chars_of(GROK_API_KEY);
    let xai = chars_of(XAI_API_KEY);
    let mut out: Vec<char> = Vec::new();
    let mut removed = false;
    let mut start: usize = 0;
    let mut i: usize = 0;
    while i < v.len()
        invariant
            start <= i <= v.len(),
            v@ == content@,
            grok@ == GROK_API_KEY@,
            xai@ == XAI_API_KEY@,
            start == 0 || v@[start - 1] == '\n',
            forall|j: int| start <= j < i ==> v@[j] != '\n',
            out@ == concat_pieces(kept_pieces(pieces(v@.take(start as int)))),
            removed == any_credential_piece(pieces(v@.take(start as int))),
        decreases v.len() - i,
    {
        if v[i] == '\n' {
            let ghost p0 = pieces(v@.take(start as int));
            let ghost piece = v@.subrange(start as int, i + 1);
            let cred = sift_piece(&v, start, i + 1, &grok, &xai, &mut out);
            proof {
                lemma_next_piece(v@, start as int, i + 1);
                lemma_sift_step(p0, piece);
            }
            removed = removed || cred;
            start = i + 1;
        }
        i = i + 1;
    }
    if start < v.len() {
        let ghost p0 = pieces(v@.take(start as int));
        let ghost piece = v@.subrange(start as int, v.len() as int);
        let cred = sift_piece(&v, start, v.len(), &grok, &xai, &mut out);
        proof {
            lemma_next_piece(v@, start as int, v.len() as int);
            lemma_sift_step(p0, piece);
        }
        removed = removed || cred;
        start = v.len();
    }
    proof {
        assert(v@.take(start as int) =~= v@);
    }
    (string_from_chars(&out), removed)
}

} // verus!
