//! What counts as a credential export, said of whole families of lines:
//! leading white space never matters, each shell form exports its key
//! whatever follows, and a longer variable name is never taken for a key.
use vstd::prelude::*;
use crate::credentials::{credential_export_line, grok_env_keys, is_name_char, GROK_API_KEY, XAI_API_KEY};
use crate::text::{has_prefix, is_white_space, trim_start};

verus! {

/// Every character of `ws` is white space.
pub open spec fn all_white_space(ws: Seq<char>) -> bool {
    forall|i: int| 0 <= i < ws.len() ==> is_white_space(#[trigger] ws[i])
}

pub(crate) proof fn lemma_trim_start_after_white_space(ws: Seq<char>, line: Seq<char>)
    requires
        all_white_space(ws),
    ensures
        trim_start(ws + line) == trim_start(line),
    decreases ws.len(),
{
    if ws.len() > 0 {
        let rest = ws.drop_first();
        assert(all_white_space(rest)) by {
            assert forall|i: int| 0 <= i < rest.len() implies is_white_space(#[trigger] rest[i]) by {
                assert(rest[i] == ws[i + 1]);
            }
        }
        assert((ws + line)[0] == ws[0]);
        assert((ws + line).drop_first() =~= rest + line);
        lemma_trim_start_after_white_space(rest, line);
    } else {
        assert(ws + line =~= line);
    }
}

/// Leading white space never changes whether a line exports a key.
pub proof fn law_leading_white_space_irrelevant(ws: Seq<char>, line: Seq<char>, key: Seq<char>)
    requires
        all_white_space(ws),
    ensures
        credential_export_line(ws + line, key) == credential_export_line(line, key),
{
    lemma_trim_start_after_white_space(ws, line);
}

proof fn lemma_starts(t: Seq<char>, p: Seq<char>, rest: Seq<char>)
    requires
        t == p + rest,
    ensures
        has_prefix(t, p),
{
    assert(t.take(p.len() as int) =~= p);
}

/// Each form assigns its key, whatever the line goes on with and however it
/// is indented: `KEY=`, `export KEY=`, `$env:KEY =`, `set -gx KEY ` and
/// `setx KEY `.
pub proof fn law_each_form_exports(ws: Seq<char>, k: int, rest: Seq<char>)
    requires
        all_white_space(ws),
        0 <= k < grok_env_keys().len(),
    ensures
        ({
            let key = grok_env_keys()[k];
            &&& credential_export_line(ws + (key + "="@ + rest), key)
            &&& credential_export_line(ws + ("export "@ + key + "="@ + rest), key)
            &&& credential_export_line(ws + ("$env:"@ + key + " = "@ + rest), key)
            &&& credential_export_line(ws + ("set -gx "@ + key + " "@ + rest), key)
            &&& credential_export_line(ws + ("setx "@ + key + " "@ + rest), key)
        }),
{
    let key = grok_env_keys()[k];
    reveal_strlit("GROK_API_KEY");
    reveal_strlit("XAI_API_KEY");
    assert(GROK_API_KEY@ == "GROK_API_KEY"@);
    assert(XAI_API_KEY@ == "XAI_API_KEY"@);
    assert(key.len() > 0 && (key[0] == 'G' || key[0] == 'X'));
    reveal_strlit("=");
    reveal_strlit("export ");
    reveal_strlit("$env:");
    reveal_strlit(" = ");
    reveal_strlit("set -gx ");
    reveal_strlit(" ");
    reveal_strlit("setx ");
    let l1 = key + "="@ + rest;
    let l2 = "export "@ + key + "="@ + rest;
    let l3 = "$env:"@ + key + " = "@ + rest;
    let l4 = "set -gx "@ + key + " "@ + rest;
    let l5 = "setx "@ + key + " "@ + rest;
    law_leading_white_space_irrelevant(ws, l1, key);
    law_leading_white_space_irrelevant(ws, l2, key);
    law_leading_white_space_irrelevant(ws, l3, key);
    law_leading_white_space_irrelevant(ws, l4, key);
    law_leading_white_space_irrelevant(ws, l5, key);
    // each line starts with something that is not white space, so
    // trim_start leaves it whole
    assert forall|l: Seq<char>| l.len() > 0 && !is_white_space(l[0]) implies trim_start(l) == l by {}
    lemma_starts(l1, key + "="@, rest);
    lemma_starts(l2, "export "@ + key + "="@, rest);
    lemma_starts(l4, "set -gx "@ + key + " "@, rest);
    lemma_starts(l5, "setx "@ + key + " "@, rest);
    let p3 = "$env:"@ + key;
    assert(l3 =~= p3 + (" = "@ + rest));
    lemma_starts(l3, p3, " = "@ + rest);
    assert(l3[p3.len() as int] == ' ');
    assert(l3[p3.len() + 1int] == '=');
    assert(l1[0] == key[0]);
    assert(l2[0] == 'e');
    assert(l3[0] == '$');
    assert(l4[0] == 's');
    assert(l5[0] == 's');
    assert(!is_white_space('e') && !is_white_space('$') && !is_white_space('s')
        && !is_white_space('G') && !is_white_space('X'));
}

proof fn lemma_not_prefix_at(t: Seq<char>, p: Seq<char>, i: int)
    requires
        0 <= i < p.len(),
        i < t.len(),
        t[i] != p[i],
    ensures
        !has_prefix(t, p),
{
    if has_prefix(t, p) {
        assert(t.take(p.len() as int)[i] == t[i]);
    }
}

/// A longer variable name is never taken for a key: in every form, a key
/// followed by a letter, digit or `_` (`XAI_API_KEY_NAME`) is another
/// variable, and the line exports nothing for the key.
pub proof fn law_longer_names_are_not_the_key(
    ws: Seq<char>,
    k: int,
    c: char,
    rest: Seq<char>,
)
    requires
        all_white_space(ws),
        0 <= k < grok_env_keys().len(),
        is_name_char(c),
    ensures
        ({
            let key = grok_env_keys()[k];
            &&& !credential_export_line(ws + (key + seq![c] + rest), key)
            &&& !credential_export_line(ws + ("export "@ + key + seq![c] + rest), key)
            &&& !credential_export_line(ws + ("$env:"@ + key + seq![c] + rest), key)
            &&& !credential_export_line(ws + ("set -gx "@ + key + seq![c] + rest), key)
            &&& !credential_export_line(ws + ("setx "@ + key + seq![c] + rest), key)
        }),
{
    let key = grok_env_keys()[k];
    reveal_strlit("GROK_API_KEY");
    reveal_strlit("XAI_API_KEY");
    reveal_strlit("=");
    reveal_strlit("export ");
    reveal_strlit("$env:");
    reveal_strlit("set -gx ");
    reveal_strlit(" ");
    reveal_strlit("setx ");
    assert(GROK_API_KEY@ == "GROK_API_KEY"@);
    assert(XAI_API_KEY@ == "XAI_API_KEY"@);
    assert(key.len() > 0 && (key[0] == 'G' || key[0] == 'X'));
    let n = key.len() as int;
    let p1 = key + "="@;
    let p2 = "export "@ + key + "="@;
    let p3 = "$env:"@ + key;
    let p4 = "set -gx "@ + key + " "@;
    let p5 = "setx "@ + key + " "@;
    assert(c != '=' && c != ' ');
    assert(!is_white_space('e') && !is_white_space('$') && !is_white_space('s')
        && !is_white_space('G') && !is_white_space('X'));
    // the key itself
    let l1 = key + seq![c] + rest;
    law_leading_white_space_irrelevant(ws, l1, key);
    assert(l1[0] == key[0]);
    assert(l1[n] == c);
    lemma_not_prefix_at(l1, p1, n);
    lemma_not_prefix_at(l1, p2, 0);
    lemma_not_prefix_at(l1, p3, 0);
    lemma_not_prefix_at(l1, p4, 0);
    lemma_not_prefix_at(l1, p5, 0);
    // export
    let l2 = "export "@ + key + seq![c] + rest;
    law_leading_white_space_irrelevant(ws, l2, key);
    assert(l2[0] == 'e');
    assert(l2[7 + n] == c);
    lemma_not_prefix_at(l2, p1, 0);
    lemma_not_prefix_at(l2, p2, 7 + n);
    lemma_not_prefix_at(l2, p3, 0);
    lemma_not_prefix_at(l2, p4, 0);
    lemma_not_prefix_at(l2, p5, 0);
    // PowerShell
    let l3 = "$env:"@ + key + seq![c] + rest;
    law_leading_white_space_irrelevant(ws, l3, key);
    assert(l3[0] == '$');
    assert(l3[5 + n] == c);
    lemma_not_prefix_at(l3, p1, 0);
    lemma_not_prefix_at(l3, p2, 0);
    lemma_not_prefix_at(l3, p4, 0);
    lemma_not_prefix_at(l3, p5, 0);
    // fish
    let l4 = "set -gx "@ + key + seq![c] + rest;
    law_leading_white_space_irrelevant(ws, l4, key);
    assert(l4[0] == 's' && l4[3] == ' ');
    assert(l4[8 + n] == c);
    lemma_not_prefix_at(l4, p1, 0);
    lemma_not_prefix_at(l4, p2, 0);
    lemma_not_prefix_at(l4, p3, 0);
    lemma_not_prefix_at(l4, p4, 8 + n);
    lemma_not_prefix_at(l4, p5, 3);
    // setx
    let l5 = "setx "@ + key + seq![c] + rest;
    law_leading_white_space_irrelevant(ws, l5, key);
    assert(l5[0] == 's' && l5[3] == 'x');
    assert(l5[5 + n] == c);
    lemma_not_prefix_at(l5, p1, 0);
    lemma_not_prefix_at(l5, p2, 0);
    lemma_not_prefix_at(l5, p3, 0);
    lemma_not_prefix_at(l5, p4, 3);
    lemma_not_prefix_at(l5, p5, 5 + n);
}

} // verus!
