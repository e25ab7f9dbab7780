//! Hand scoring and the final ranking.

use vstd::prelude::*;

verus! {

use crate::deck::Card;
use crate::events::Score;

/// The score of a hand: the sum of its cards' scores.
pub open spec fn spec_hand_score(cards: Seq<Card>) -> int
    decreases cards.len(),
{
    if cards.len() == 0 {
        0
    } else {
        spec_hand_score(cards.drop_last()) + cards.last().spec_score()
    }
}

/// Law: a hand's score is the sum over its cards, and each card scores
/// its rank, except that the rank-13 heart scores -1 and a joker 0.
pub proof fn lemma_hand_score_sum(cards: Seq<Card>)
    ensures
        cards.len() == 0 ==> spec_hand_score(cards) == 0,
        cards.len() > 0 ==> spec_hand_score(cards) == spec_hand_score(cards.drop_last())
            + cards.last().spec_score(),
        forall|c: Card| c is Joker ==> (#[trigger] c.spec_score()) == 0,
        forall|c: Card| c == Card::Hearts(13u8) ==> (#[trigger] c.spec_score()) == -1,
        forall|c: Card|
            c != Card::Hearts(13u8) && c.spec_value() is Some ==> (#[trigger] c.spec_score())
                == c.spec_value()->0 as int,
{
}

/// Compute a hand's score.  The length bound keeps the sum far inside
/// the integer range: each card contributes between -1 and 255.
pub fn hand_score(cards: &Vec<Card>) -> (r: i64)
    requires
        cards@.len() <= 0x1000_0000,
    ensures
        r == spec_hand_score(cards@),
{
    let mut acc: i64 = 0;
    let mut i: usize = 0;
    while i < cards.len()
        invariant
            0 <= i <= cards@.len(),
            cards@.len() <= 0x1000_0000,
            acc == spec_hand_score(cards@.subrange(0, i as int)),
            -(i as int) <= acc <= 0xff * (i as int),
        decreases cards@.len() - i,
    {
        let c: i64 = match cards[i] {
            Card::Hearts(13u8) => -1,
            Card::Joker => 0,
            Card::Clubs(n) | Card::Diamonds(n) | Card::Hearts(n) | Card::Spade(n) => n as i64,
        };
        proof {
            assert(c == cards@[i as int].spec_score());
            assert(cards@.subrange(0, i + 1).drop_last() =~= cards@.subrange(0, i as int));
            assert(cards@.subrange(0, i + 1).last() == cards@[i as int]);
        }
        acc = acc + c;
        i += 1;
    }
    proof {
        assert(cards@.subrange(0, cards@.len() as int) =~= cards@);
    }
    acc
}

/// An owned copy of a hand.
pub fn copy_cards(cards: &Vec<Card>) -> (r: Vec<Card>)
    ensures
        r@ == cards@,
{
    let mut out: Vec<Card> = Vec::new();
    let mut i: usize = 0;
    while i < cards.len()
        invariant
            0 <= i <= cards@.len(),
            out@ == cards@.subrange(0, i as int),
        decreases cards@.len() - i,
    {
        out.push(cards[i]);
        proof {
            assert(cards@.subrange(0, i + 1) =~= cards@.subrange(0, i as int).push(
                cards@[i as int],
            ));
        }
        i += 1;
    }
    proof {
        assert(cards@.subrange(0, cards@.len() as int) =~= cards@);
    }
    out
}

/// What a score entry says, as plain mathematics: whose hand, which
/// cards, and the claimed total.
pub open spec fn score_entry(s: Score) -> (crate::PlayerId, Seq<Card>, int) {
    (s.player_id, s.cards@, s.total_score as int)
}

/// A whole score list, as plain mathematics.
pub open spec fn entries_view(s: Seq<Score>) -> Seq<(crate::PlayerId, Seq<Card>, int)> {
    s.map_values(|sc: Score| score_entry(sc))
}

/// Score entries in ascending score order.
pub open spec fn scores_sorted(s: Seq<Score>) -> bool {
    forall|a: int, b: int| 0 <= a < b < s.len() ==> s[a].total_score <= s[b].total_score
}

/// Sort score entries ascending by total score.  The result is a
/// permutation of the input.
pub fn sort_scores(scores: Vec<Score>) -> (r: Vec<Score>)
    ensures
        r@.len() == scores@.len(),
        r@.to_multiset() == scores@.to_multiset(),
        entries_view(r@).to_multiset() == entries_view(scores@).to_multiset(),
        scores_sorted(r@),
{
    let mut rest = scores;
    let mut out: Vec<Score> = Vec::new();
    proof {
        broadcast use vstd::seq_lib::group_to_multiset_ensures;

        assert(out@.to_multiset().add(rest@.to_multiset()) =~= rest@.to_multiset());
        assert(entries_view(out@).to_multiset().add(entries_view(rest@).to_multiset())
            =~= entries_view(rest@).to_multiset());
    }
    loop
        invariant
            out@.to_multiset().add(rest@.to_multiset()) == scores@.to_multiset(),
            entries_view(out@).to_multiset().add(entries_view(rest@).to_multiset())
                == entries_view(scores@).to_multiset(),
            out@.len() + rest@.len() == scores@.len(),
            scores_sorted(out@),
        ensures
            rest@.len() == 0,
            out@.to_multiset() == scores@.to_multiset(),
            entries_view(out@).to_multiset() == entries_view(scores@).to_multiset(),
            out@.len() == scores@.len(),
            scores_sorted(out@),
        decreases rest@.len(),
    {
        let ghost rest0 = rest@;
        let s = match rest.pop() {
            Some(s) => s,
            None => {
                proof {
                    broadcast use vstd::seq_lib::group_to_multiset_ensures;

                    assert(rest@.to_multiset().len() == 0);
                    assert(out@.to_multiset().add(rest@.to_multiset()) =~= out@.to_multiset());
                    assert(entries_view(rest@).to_multiset().len() == 0);
                    assert(entries_view(out@).to_multiset().add(entries_view(rest@).to_multiset())
                        =~= entries_view(out@).to_multiset());
                }
                break ;
            },
        };
        proof {
            broadcast use vstd::seq_lib::group_to_multiset_ensures;

            assert(rest0 =~= rest@.push(s));
            assert(rest0.to_multiset() == rest@.to_multiset().insert(s));
            assert(entries_view(rest0) =~= entries_view(rest@).push(score_entry(s)));
            assert(entries_view(rest0).to_multiset() == entries_view(rest@).to_multiset().insert(
                score_entry(s),
            ));
        }
        let mut pos: usize = 0;
        while pos < out.len() && out[pos].total_score <= s.total_score
            invariant
                0 <= pos <= out@.len(),
                forall|k: int| 0 <= k < pos ==> #[trigger] out@[k].total_score <= s.total_score,
            decreases out@.len() - pos,
        {
            pos += 1;
        }
        let ghost out0 = out@;
        out.insert(pos, s);
        proof {
            assert forall|a: int, b: int| 0 <= a < b < out@.len() implies out@[a].total_score
                <= out@[b].total_score by {
                if a < pos && b == pos {
                    assert(out@[a] == out0[a]);
                } else if a == pos && b > pos {
                    assert(out@[b] == out0[b - 1]);
                    assert(pos < out0.len());
                    assert(out0[pos as int].total_score > s.total_score);
                    assert(out0[b - 1].total_score >= out0[pos as int].total_score);
                } else if a < pos && b > pos {
                    assert(out@[a] == out0[a]);
                    assert(out@[b] == out0[b - 1]);
                } else if a > pos && b > pos {
                    assert(out@[a] == out0[a - 1]);
                    assert(out@[b] == out0[b - 1]);
                }
            }
            broadcast use vstd::seq_lib::group_to_multiset_ensures;
            broadcast use vstd::seq_lib::to_multiset_insert;

            assert(out@.to_multiset() == out0.to_multiset().insert(s));
            assert(out@.to_multiset().add(rest@.to_multiset()) =~= scores@.to_multiset());
            assert(entries_view(out@) =~= entries_view(out0).insert(pos as int, score_entry(s)));
            assert(entries_view(out@).to_multiset() == entries_view(out0).to_multiset().insert(
                score_entry(s),
            ));
            assert(entries_view(out@).to_multiset().add(entries_view(rest@).to_multiset())
                =~= entries_view(scores@).to_multiset());
        }
    }
    out
}

} // verus!

