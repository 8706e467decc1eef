//! Move ordering: hash-table move first, then captures by MVV-LVA.
//!
//! The orderer precomputes a 6x6 MVV-LVA table from the piece values:
//! `mvv_lva[attacker][victim] = value(victim) + 6 - value(attacker) / 100`.
//! `order_moves` pins the principal-variation move to the front, a distinct
//! hash-table move right after it, then all captures in descending MVV-LVA
//! order, then the quiet moves. The reordered list is a permutation of the
//! input.
use vstd::prelude::*;
use vstd::multiset::Multiset;
use vstd::seq_lib::group_to_multiset_ensures;

use crate::moves::Mv;

verus! {

broadcast use group_to_multiset_ensures, vstd::multiset::group_multiset_axioms;

#[derive(Clone)]
pub struct MoveOrdering {
    pub mvv_lva: Vec<Vec<i64>>,
}

/// How many moves the pinning step places in front: one for a
/// principal-variation move found in the list, one more for a hash-table
/// move found in the list and distinct from it.
pub open spec fn pin_count(pv_move: Option<Mv>, tt_move: Option<Mv>, olds: Seq<Mv>) -> int {
    (if pv_move matches Some(p) && olds.contains(p) {
        1int
    } else {
        0int
    }) + (if tt_move matches Some(t) && tt_move != pv_move && olds.contains(t) {
        1int
    } else {
        0int
    })
}

impl MoveOrdering {
    /// The table is 6x6.
    pub open spec fn wf(self) -> bool {
        &&& self.mvv_lva@.len() == 6
        &&& forall|a: int| 0 <= a < 6 ==> (#[trigger] self.mvv_lva@[a])@.len() == 6
    }

    /// The MVV-LVA key of a move, by its attacker and victim roles.
    pub open spec fn spec_key(self, m: Mv) -> int {
        self.mvv_lva@[m.spec_attacker_role() - 1]@[m.spec_victim_role() - 1] as int
    }

    /// Builds the MVV-LVA table from the piece values: most valuable victim
    /// first, least valuable attacker as the tie-break.
    pub fn new(piece_values: &[i64; 6]) -> (r: Self)
        requires
            forall|i: int| 0 <= i < 6 ==> 0 <= #[trigger] piece_values@[i] <= 10_000,
        ensures
            r.wf(),
            forall|a: int, v: int|
                0 <= a < 6 && 0 <= v < 6 ==> #[trigger] r.mvv_lva@[a]@[v] == piece_values@[v] + 6
                    - piece_values@[a] / 100,
    {
        let mut table: Vec<Vec<i64>> = Vec::new();
        let mut a: usize = 0;
        while a < 6
            invariant
                forall|i: int| 0 <= i < 6 ==> 0 <= #[trigger] piece_values@[i] <= 10_000,
                a <= 6,
                table@.len() == a,
                forall|i: int| 0 <= i < a ==> (#[trigger] table@[i])@.len() == 6,
                forall|i: int, v: int|
                    0 <= i < a && 0 <= v < 6 ==> #[trigger] table@[i]@[v] == piece_values@[v] + 6
                        - piece_values@[i] / 100,
            decreases 6 - a,
        {
            let mut row: Vec<i64> = Vec::new();
            let mut v: usize = 0;
            while v < 6
                invariant
                    forall|i: int| 0 <= i < 6 ==> 0 <= #[trigger] piece_values@[i] <= 10_000,
                    a < 6,
                    v <= 6,
                    row@.len() == v,
                    forall|j: int|
                        0 <= j < v ==> #[trigger] row@[j] == piece_values@[j] + 6 - piece_values@[
                            a as int
                        ] / 100,
                decreases 6 - v,
            {
                row.push(piece_values[v] + 6 - piece_values[a] / 100);
                v = v + 1;
            }
            table.push(row);
            a = a + 1;
        }
        MoveOrdering { mvv_lva: table }
    }

    /// The MVV-LVA key of a move; the move's own attacker and victim roles
    /// index the table.
    pub fn mvv_lva_score(&self, m: Mv) -> (r: i64)
        requires
            self.wf(),
            m.wf(),
        ensures
            r == self.spec_key(m),
    {
        let a = m.attacker_role();
        let v = m.victim_role();
        self.mvv_lva[(a - 1) as usize][(v - 1) as usize]
    }

    /// Sorts a list of moves by descending MVV-LVA key; the result is a
    /// permutation of the input.
    pub fn order_captures(&self, moves: &mut Vec<Mv>)
        requires
            self.wf(),
            forall|i: int| 0 <= i < old(moves)@.len() ==> (#[trigger] old(moves)@[i]).wf(),
        ensures
            final(moves)@.to_multiset() == old(moves)@.to_multiset(),
            final(moves)@.len() == old(moves)@.len(),
            forall|i: int| 0 <= i < final(moves)@.len() ==> (#[trigger] final(moves)@[i]).wf(),
            forall|i: int, j: int|
                0 <= i < j < final(moves)@.len() ==> self.spec_key(#[trigger] final(moves)@[i])
                    >= self.spec_key(#[trigger] final(moves)@[j]),
    {
        let ghost orig = moves@;
        let mut out: Vec<Mv> = Vec::new();
        while moves.len() > 0
            invariant
                self.wf(),
                forall|i: int| 0 <= i < moves@.len() ==> (#[trigger] moves@[i]).wf(),
                forall|i: int| 0 <= i < out@.len() ==> (#[trigger] out@[i]).wf(),
                out@.to_multiset().add(moves@.to_multiset()) =~= orig.to_multiset(),
                out@.len() + moves@.len() == orig.len(),
                forall|i: int, j: int|
                    0 <= i < j < out@.len() ==> self.spec_key(#[trigger] out@[i]) >= self.spec_key(
                        #[trigger] out@[j],
                    ),
                forall|i: int, k: int|
                    0 <= i < out@.len() && 0 <= k < moves@.len() ==> self.spec_key(
                        #[trigger] out@[i],
                    ) >= self.spec_key(#[trigger] moves@[k]),
            decreases moves@.len(),
        {
            let n = moves.len();
            let mut best: usize = 0;
            let mut j: usize = 1;
            while j < n
                invariant
                    self.wf(),
                    n == moves@.len(),
                    forall|i: int| 0 <= i < moves@.len() ==> (#[trigger] moves@[i]).wf(),
                    best < j <= n,
                    1 <= j,
                    forall|k: int|
                        0 <= k < j ==> self.spec_key(moves@[best as int]) >= self.spec_key(
                            #[trigger] moves@[k],
                        ),
                decreases n - j,
            {
                if self.mvv_lva_score(moves[j]) > self.mvv_lva_score(moves[best]) {
                    best = j;
                }
                j = j + 1;
            }
            let m = moves.remove(best);
            out.push(m);
            proof {
                assert(out@.to_multiset().add(moves@.to_multiset()) =~= orig.to_multiset());
            }
        }
        *moves = out;
    }

    /// Reorders a move list in place: the principal-variation move (when it
    /// occurs in the list) comes first, a distinct hash-table move (when it
    /// occurs) second, then every capture in descending MVV-LVA order, then
    /// the quiet moves. The result is a permutation of the input.
    #[verifier::rlimit(60)]
    pub fn order_moves(
        &self,
        pv_move: Option<Mv>,
        tt_move: Option<Mv>,
        moves: &mut Vec<Mv>,
    )
        requires
            self.wf(),
            forall|i: int| 0 <= i < old(moves)@.len() ==> (#[trigger] old(moves)@[i]).wf(),
        ensures
            final(moves)@.to_multiset() == old(moves)@.to_multiset(),
            final(moves)@.len() == old(moves)@.len(),
            forall|i: int| 0 <= i < final(moves)@.len() ==> (#[trigger] final(moves)@[i]).wf(),
            (pv_move is Some && old(moves)@.contains(pv_move->0)) ==> final(moves)@[0]
                == pv_move->0,
            (tt_move is Some && tt_move != pv_move && old(moves)@.contains(tt_move->0))
                ==> final(moves)@[pin_count(pv_move, None, old(moves)@)] == tt_move->0,
            forall|i: int, j: int|
                pin_count(pv_move, tt_move, old(moves)@) <= i < j < final(moves)@.len() && (
                #[trigger] final(moves)@[i]).spec_is_capture() && (
                #[trigger] final(moves)@[j]).spec_is_capture() ==> self.spec_key(final(moves)@[i])
                    >= self.spec_key(final(moves)@[j]),
            forall|i: int, j: int|
                pin_count(pv_move, tt_move, old(moves)@) <= i < j < final(moves)@.len() && !(
                #[trigger] final(moves)@[i]).spec_is_capture() ==> !(
                #[trigger] final(moves)@[j]).spec_is_capture(),
    {
        let ghost orig = moves@;
        let ghost pv_found = pv_move matches Some(p) && orig.contains(p);
        let mut result: Vec<Mv> = Vec::new();

        if let Some(p) = pv_move {
            if let Some(i) = position_of(moves, p) {
                moves.remove(i);
                result.push(p);
                proof {
                    assert(orig.remove(i as int).to_multiset() =~= orig.to_multiset().remove(
                        orig[i as int],
                    ));
                    assert(moves@.to_multiset() =~= orig.to_multiset().remove(p));
                }
            }
        }
        proof {
            assert(pv_found ==> result@ =~= seq![pv_move->0] && moves@.to_multiset()
                =~= orig.to_multiset().remove(pv_move->0) && moves@.len() + 1 == orig.len());
            assert(!pv_found ==> result@ =~= Seq::<Mv>::empty() && moves@ == orig);
        }
        let tt_distinct: Option<Mv> = match (tt_move, pv_move) {
            (Some(t), Some(p)) => if t == p {
                None
            } else {
                Some(t)
            },
            (Some(t), None) => Some(t),
            _ => None,
        };
        let ghost tt_found = tt_move matches Some(t) && tt_move != pv_move && orig.contains(t);
        proof {
            if tt_move is Some && tt_move != pv_move {
                let t = tt_move->0;
                assert(orig.contains(t) ==> orig.to_multiset().count(t) > 0);
                assert(moves@.to_multiset().count(t) == orig.to_multiset().count(t));
                assert(orig.contains(t) ==> moves@.contains(t));
                assert(moves@.contains(t) ==> orig.contains(t));
            }
        }
        let ghost mid = moves@;
        if let Some(t) = tt_distinct {
            if let Some(i) = position_of(moves, t) {
                moves.remove(i);
                result.push(t);
                proof {
                    assert(mid.remove(i as int).to_multiset() =~= mid.to_multiset().remove(
                        mid[i as int],
                    ));
                    assert(moves@.to_multiset() =~= mid.to_multiset().remove(t));
                }
            }
        }
        proof {
            assert(tt_found ==> moves@.to_multiset() =~= mid.to_multiset().remove(tt_move->0));
            assert(!tt_found ==> moves@ == mid);
        }
        let ghost pinned = result@;
        let ghost rest = moves@;

        let mut captures: Vec<Mv> = Vec::new();
        let mut quiets: Vec<Mv> = Vec::new();
        let n = moves.len();
        let mut i: usize = 0;
        while i < n
            invariant
                n == moves@.len(),
                i <= n,
                forall|k: int| 0 <= k < moves@.len() ==> (#[trigger] moves@[k]).wf(),
                forall|k: int| 0 <= k < captures@.len() ==> (#[trigger] captures@[k]).wf(),
                forall|k: int| 0 <= k < quiets@.len() ==> (#[trigger] quiets@[k]).wf(),
                forall|k: int|
                    0 <= k < captures@.len() ==> (#[trigger] captures@[k]).spec_is_capture(),
                forall|k: int|
                    0 <= k < quiets@.len() ==> !(#[trigger] quiets@[k]).spec_is_capture(),
                captures@.to_multiset().add(quiets@.to_multiset()) =~= moves@.take(
                    i as int,
                ).to_multiset(),
                captures@.len() + quiets@.len() == i,
            decreases n - i,
        {
            let m = moves[i];
            proof {
                assert(moves@.take(i + 1) =~= moves@.take(i as int).push(moves@[i as int]));
            }
            if m.is_capture() {
                captures.push(m);
            } else {
                quiets.push(m);
            }
            i = i + 1;
        }
        proof {
            assert(moves@.take(n as int) =~= moves@);
        }
        let ghost cap_before = captures@;
        self.order_captures(&mut captures);
        proof {
            assert forall|k: int| 0 <= k < captures@.len() implies (
            #[trigger] captures@[k]).spec_is_capture() by {
                assert(captures@.contains(captures@[k]));
                assert(captures@.to_multiset().count(captures@[k]) > 0);
                assert(cap_before.contains(captures@[k]));
                let w = choose|w: int|
                    0 <= w < cap_before.len() && cap_before[w] == captures@[k];
            }
        }

        let mut k: usize = 0;
        let cn = captures.len();
        while k < cn
            invariant
                cn == captures@.len(),
                k <= cn,
                forall|j: int| 0 <= j < captures@.len() ==> (#[trigger] captures@[j]).wf(),
                result@ == pinned + captures@.take(k as int),
            decreases cn - k,
        {
            proof {
                assert(captures@.take(k + 1) =~= captures@.take(k as int).push(
                    captures@[k as int],
                ));
                assert(pinned + captures@.take(k + 1) =~= (pinned + captures@.take(
                    k as int,
                )).push(captures@[k as int]));
            }
            result.push(captures[k]);
            k = k + 1;
        }
        proof {
            assert(captures@.take(cn as int) =~= captures@);
        }
        let mut q: usize = 0;
        let qn = quiets.len();
        while q < qn
            invariant
                qn == quiets@.len(),
                q <= qn,
                forall|j: int| 0 <= j < quiets@.len() ==> (#[trigger] quiets@[j]).wf(),
                result@ == pinned + captures@ + quiets@.take(q as int),
            decreases qn - q,
        {
            proof {
                assert(quiets@.take(q + 1) =~= quiets@.take(q as int).push(quiets@[q as int]));
                assert(pinned + captures@ + quiets@.take(q + 1) =~= (pinned + captures@
                    + quiets@.take(q as int)).push(quiets@[q as int]));
            }
            result.push(quiets[q]);
            q = q + 1;
        }
        proof {
            assert(quiets@.take(qn as int) =~= quiets@);
            assert(result@ =~= pinned + captures@ + quiets@);
            lemma_concat_multiset(pinned, captures@, quiets@);
            assert(Seq::<Mv>::empty().to_multiset() =~= Multiset::empty());
            assert(captures@.to_multiset().add(quiets@.to_multiset()) =~= rest.to_multiset());
            assert(result@.to_multiset() =~= pinned.to_multiset().add(
                captures@.to_multiset().add(quiets@.to_multiset()),
            ));
            assert(result@.to_multiset() =~= pinned.to_multiset().add(rest.to_multiset()));
            if pv_found {
                let p = pv_move->0;
                assert(orig.to_multiset().count(p) > 0);
                assert(mid.to_multiset() =~= orig.to_multiset().remove(p));
                if tt_found {
                    let t = tt_move->0;
                    assert(pinned =~= Seq::<Mv>::empty().push(p).push(t));
                    assert(pinned.to_multiset() =~= Multiset::empty().insert(p).insert(t));
                    assert(rest.to_multiset() =~= orig.to_multiset().remove(p).remove(t));
                    assert(orig.to_multiset().remove(p).count(t) > 0);
                    assert(result@.to_multiset() =~= orig.to_multiset());
                } else {
                    assert(pinned =~= Seq::<Mv>::empty().push(p));
                    assert(pinned.to_multiset() =~= Multiset::empty().insert(p));
                    assert(rest.to_multiset() =~= orig.to_multiset().remove(p));
                    assert(result@.to_multiset() =~= orig.to_multiset());
                }
            } else {
                assert(mid == orig);
                if tt_found {
                    let t = tt_move->0;
                    assert(pinned =~= Seq::<Mv>::empty().push(t));
                    assert(pinned.to_multiset() =~= Multiset::empty().insert(t));
                    assert(rest.to_multiset() =~= orig.to_multiset().remove(t));
                    assert(result@.to_multiset() =~= orig.to_multiset());
                } else {
                    assert(pinned =~= Seq::<Mv>::empty());
                    assert(rest =~= orig);
                    assert(result@.to_multiset() =~= orig.to_multiset());
                }
            }
            assert(result@.to_multiset().len() == orig.to_multiset().len());
            assert(result@.len() == orig.len());
            assert(pinned.len() == pin_count(pv_move, tt_move, orig));
            assert forall|i: int| 0 <= i < result@.len() implies (#[trigger] result@[i]).wf() by {
                assert(result@.contains(result@[i]));
                assert(result@.to_multiset().count(result@[i]) > 0);
                assert(orig.contains(result@[i]));
                let w = choose|w: int| 0 <= w < orig.len() && orig[w] == result@[i];
            }
            let pin = pinned.len() as int;
            let cn2 = captures@.len() as int;
            assert forall|i: int, j: int|
                pin_count(pv_move, tt_move, orig) <= i < j < result@.len() && (
                #[trigger] result@[i]).spec_is_capture() && (
                #[trigger] result@[j]).spec_is_capture() implies self.spec_key(result@[i])
                >= self.spec_key(result@[j]) by {
                if j >= pin + cn2 {
                    assert(result@[j] == quiets@[j - pin - cn2]);
                    assert(false);
                } else {
                    assert(result@[i] == captures@[i - pin]);
                    assert(result@[j] == captures@[j - pin]);
                }
            }
            assert forall|i: int, j: int|
                pin_count(pv_move, tt_move, orig) <= i < j < result@.len() && !(
                #[trigger] result@[i]).spec_is_capture() implies !(
                #[trigger] result@[j]).spec_is_capture() by {
                if i < pin + cn2 {
                    assert(result@[i] == captures@[i - pin]);
                    assert(false);
                } else {
                    assert(result@[j] == quiets@[j - pin - cn2]);
                }
            }
        }
        *moves = result;
    }
}

/// The first index holding `m`, if any.
fn position_of(moves: &Vec<Mv>, m: Mv) -> (r: Option<usize>)
    ensures
        match r {
            Some(i) => i < moves@.len() && moves@[i as int] == m,
            None => !moves@.contains(m),
        },
{
    let n = moves.len();
    let mut i: usize = 0;
    while i < n
        invariant
            n == moves@.len(),
            i <= n,
            forall|k: int| 0 <= k < i ==> moves@[k] != m,
        decreases n - i,
    {
        if moves[i] == m {
            return Some(i);
        }
        i = i + 1;
    }
    None
}

proof fn lemma_concat_multiset(a: Seq<Mv>, b: Seq<Mv>, c: Seq<Mv>)
    ensures
        (a + b + c).to_multiset() =~= a.to_multiset().add(b.to_multiset()).add(c.to_multiset()),
{
    lemma_two_concat_multiset(a, b);
    lemma_two_concat_multiset(a + b, c);
}

proof fn lemma_two_concat_multiset(a: Seq<Mv>, b: Seq<Mv>)
    ensures
        (a + b).to_multiset() =~= a.to_multiset().add(b.to_multiset()),
    decreases b.len(),
{
    if b.len() == 0 {
        assert(a + b =~= a);
    } else {
        let b0 = b.drop_last();
        lemma_two_concat_multiset(a, b0);
        assert(a + b =~= (a + b0).push(b.last()));
        assert(b =~= b0.push(b.last()));
    }
}

} // verus!
