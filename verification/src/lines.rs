//! How text splits into lines: the pieces that `split_inclusive('\n')`
//! yields, and the lines that `str::lines` yields from them.
use vstd::prelude::*;

verus! {

/// The pieces of `s` as `str::split_inclusive('\n')` yields them: each piece
/// runs up to and including a line feed, and the last one may lack it.
pub open spec fn pieces(s: Seq<char>) -> Seq<Seq<char>>
    decreases s.len(),
{
    if s.len() == 0 {
        seq![]
    } else {
        let r = pieces(s.drop_last());
        if r.len() == 0 || r.last().last() == '\n' {
            r.push(seq![s.last()])
        } else {
            r.update(r.len() - 1, r.last().push(s.last()))
        }
    }
}

/// The line that `str::lines` yields for a piece: a final line feed is
/// dropped, and a carriage return just before it too.
pub open spec fn line_of_piece(p: Seq<char>) -> Seq<char> {
    if p.len() > 0 && p.last() == '\n' {
        let q = p.drop_last();
        if q.len() > 0 && q.last() == '\r' {
            q.drop_last()
        } else {
            q
        }
    } else {
        p
    }
}

/// The lines of `s` as `str::lines` yields them.
pub open spec fn lines(s: Seq<char>) -> Seq<Seq<char>> {
    pieces(s).map_values(|p: Seq<char>| line_of_piece(p))
}

/// The pieces joined back together.
pub open spec fn concat_pieces(ps: Seq<Seq<char>>) -> Seq<char>
    decreases ps.len(),
{
    if ps.len() == 0 {
        seq![]
    } else {
        concat_pieces(ps.drop_last()) + ps.last()
    }
}

/// No line feed in `p` but possibly at its end.
pub open spec fn newline_only_at_end(p: Seq<char>) -> bool {
    forall|k: int| 0 <= k < p.len() - 1 ==> p[k] != '\n'
}

/// What every split of a text looks like: nonempty pieces with a line feed
/// only at their ends, and at the end of every piece but the last.
pub open spec fn well_formed_pieces(ps: Seq<Seq<char>>) -> bool {
    forall|i: int|
        0 <= i < ps.len() ==> {
            &&& (#[trigger] ps[i]).len() > 0
            &&& newline_only_at_end(ps[i])
            &&& (i < ps.len() - 1 ==> ps[i].last() == '\n')
        }
}

/// Every piece ends in a line feed.
pub open spec fn terminated_pieces(ps: Seq<Seq<char>>) -> bool {
    &&& well_formed_pieces(ps)
    &&& forall|i: int| 0 <= i < ps.len() ==> (#[trigger] ps[i]).last() == '\n'
}

pub proof fn lemma_pieces_shape(s: Seq<char>)
    ensures
        s.len() == 0 <==> pieces(s).len() == 0,
        s.len() > 0 ==> pieces(s).last().len() > 0 && pieces(s).last().last() == s.last(),
        well_formed_pieces(pieces(s)),
        concat_pieces(pieces(s)) == s,
    decreases s.len(),
{
    if s.len() > 0 {
        let s0 = s.drop_last();
        lemma_pieces_shape(s0);
        let r = pieces(s0);
        let c = s.last();
        if r.len() == 0 || r.last().last() == '\n' {
            let ps = r.push(seq![c]);
            assert(ps.drop_last() =~= r);
            assert forall|i: int| 0 <= i < ps.len() implies {
                &&& (#[trigger] ps[i]).len() > 0
                &&& newline_only_at_end(ps[i])
                &&& (i < ps.len() - 1 ==> ps[i].last() == '\n')
            } by {
                if i < r.len() {
                    assert(ps[i] == r[i]);
                }
            }
            assert(concat_pieces(ps) == concat_pieces(r) + seq![c]);
            assert(s =~= s0 + seq![c]);
        } else {
            let last = r.last().push(c);
            let ps = r.update(r.len() - 1, last);
            assert(ps.drop_last() =~= r.drop_last());
            assert(r =~= r.drop_last().push(r.last()));
            assert(concat_pieces(r) == concat_pieces(r.drop_last()) + r.last());
            assert(concat_pieces(ps) == concat_pieces(r.drop_last()) + last);
            assert(concat_pieces(r.drop_last()) + last =~= (concat_pieces(r.drop_last())
                + r.last()) + seq![c]);
            assert(s =~= s0 + seq![c]);
            assert(concat_pieces(ps) =~= s);
            assert forall|i: int| 0 <= i < ps.len() implies {
                &&& (#[trigger] ps[i]).len() > 0
                &&& newline_only_at_end(ps[i])
                &&& (i < ps.len() - 1 ==> ps[i].last() == '\n')
            } by {
                if i < r.len() - 1 {
                    assert(ps[i] == r[i]);
                } else {
                    assert(ps[i] == last);
                    assert(r[r.len() - 1] == r.last());
                    assert forall|k: int| 0 <= k < last.len() - 1 implies last[k] != '\n' by {
                        if k < r.last().len() - 1 {
                            assert(last[k] == r.last()[k]);
                        } else {
                            assert(last[k] == r.last()[k]);
                            assert(r.last()[k] == r.last().last());
                        }
                    }
                }
            }
        }
    }
}

/// Appending a piece after a complete line adds exactly that piece.
pub proof fn lemma_pieces_append(a: Seq<char>, b: Seq<char>)
    requires
        a.len() == 0 || a.last() == '\n',
        b.len() > 0,
        newline_only_at_end(b),
    ensures
        pieces(a + b) == pieces(a).push(b),
    decreases b.len(),
{
    lemma_pieces_shape(a);
    if b.len() == 1 {
        assert((a + b).drop_last() =~= a);
        assert(b =~= seq![b.last()]);
    } else {
        let b0 = b.drop_last();
        assert forall|k: int| 0 <= k < b0.len() - 1 implies b0[k] != '\n' by {
            assert(b0[k] == b[k]);
        }
        lemma_pieces_append(a, b0);
        assert((a + b).drop_last() =~= a + b0);
        assert(b0.last() == b[b.len() - 2]);
        let r = pieces(a + b0);
        assert(r.last() == b0);
        assert(b0.push(b.last()) =~= b);
        assert(r.update(r.len() - 1, r.last().push(b.last())) =~= pieces(a).push(b));
    }
}

/// Joining well-formed pieces and splitting again gives them back.
pub proof fn lemma_pieces_of_concat(ps: Seq<Seq<char>>)
    requires
        well_formed_pieces(ps),
    ensures
        pieces(concat_pieces(ps)) == ps,
    decreases ps.len(),
{
    if ps.len() > 0 {
        let p0 = ps.drop_last();
        assert forall|i: int| 0 <= i < p0.len() implies {
            &&& (#[trigger] p0[i]).len() > 0
            &&& newline_only_at_end(p0[i])
            &&& (i < p0.len() - 1 ==> p0[i].last() == '\n')
        } by {
            assert(p0[i] == ps[i]);
        }
        lemma_pieces_of_concat(p0);
        let a = concat_pieces(p0);
        lemma_pieces_shape(a);
        if a.len() > 0 {
            assert(p0[p0.len() - 1] == ps[p0.len() - 1]);
        }
        assert(ps[ps.len() - 1] == ps.last());
        lemma_pieces_append(a, ps.last());
        assert(ps =~= p0.push(ps.last()));
    }
}

} // verus!
