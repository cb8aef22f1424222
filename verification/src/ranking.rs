//! Candidates, their morning score, and the order in which they are offered.

use vstd::prelude::*;
use vstd::relations::{sorted_by, total_ordering};
use vstd::seq_lib::{lemma_sorted_unique, to_multiset_build, to_multiset_insert};
use crate::instant::{Instant, SLOT_SECONDS};

verus! {

/// How many ranked candidates are offered at most.
pub const TOP_COUNT: usize = 5;

/// First local hour that counts as morning.
pub const MORNING_FIRST_HOUR: u32 = 9;

/// First local hour that no longer counts as morning.
pub const MORNING_END_HOUR: u32 = 12;

/// A free slot with its priority. The end of the slot is not stored: it is
/// always `SLOT_SECONDS` after the start.
#[derive(Clone, Copy, Debug, PartialEq, Eq, Structural)]
pub struct Candidate {
    pub slot_start: Instant,
    pub score: i32,
}

/// The score of a slot that starts in local hour `local_hour`: 1 from nine
/// o'clock up to, but not including, noon, and 0 at any other hour.
pub open spec fn morning_score_of(local_hour: int) -> int {
    if MORNING_FIRST_HOUR <= local_hour < MORNING_END_HOUR {
        1
    } else {
        0
    }
}

/// Computes `morning_score_of`.
pub fn morning_score(local_hour: u32) -> (score: i32)
    ensures
        score == morning_score_of(local_hour as int),
        score == 1 <==> 9 <= local_hour < 12,
        score == 0 <==> !(9 <= local_hour < 12),
{
    if local_hour >= MORNING_FIRST_HOUR && local_hour < MORNING_END_HOUR {
        1
    } else {
        0
    }
}

impl Candidate {
    /// Where the slot ends.
    pub open spec fn end(&self) -> int {
        self.slot_start@ + SLOT_SECONDS
    }

    /// The end of the slot can be represented.
    pub open spec fn wf(&self) -> bool {
        self.end() <= i64::MAX
    }

    /// Decides `wf`.
    pub fn is_well_formed(&self) -> (b: bool)
        ensures
            b == self.wf(),
    {
        self.slot_start.secs <= i64::MAX - SLOT_SECONDS
    }

    /// The end of the slot, recomputed from its start: exactly one slot
    /// length later.
    pub fn slot_end(&self) -> (end: Instant)
        requires
            self.wf(),
        ensures
            end@ == self.end(),
            end@ - self.slot_start@ == SLOT_SECONDS,
    {
        Instant { secs: self.slot_start.secs + SLOT_SECONDS }
    }

    /// Whether the slot carries the morning score.
    pub fn is_morning(&self) -> (b: bool)
        ensures
            b == (self.score == 1),
    {
        self.score == 1
    }
}

/// The ranking order: a higher score comes first, and among equal scores the
/// earlier slot comes first.
pub open spec fn ranks_before(a: Candidate, b: Candidate) -> bool {
    a.score > b.score || (a.score == b.score && a.slot_start@ <= b.slot_start@)
}

/// `ranks_before` as a relation value.
pub open spec fn rank_order() -> spec_fn(Candidate, Candidate) -> bool {
    |a: Candidate, b: Candidate| ranks_before(a, b)
}

/// Whether `s` is in ranking order from front to back.
pub open spec fn is_ranked(s: Seq<Candidate>) -> bool {
    forall|i: int, j: int| 0 <= i < j < s.len() ==> ranks_before(#[trigger] s[i], #[trigger] s[j])
}

/// Whether `ranked` holds exactly the candidates of `candidates`, each as
/// often as it occurs there, in ranking order.
pub open spec fn is_ranking_of(ranked: Seq<Candidate>, candidates: Seq<Candidate>) -> bool {
    &&& is_ranked(ranked)
    &&& ranked.to_multiset() == candidates.to_multiset()
}

/// The ranking of `candidates`: the one sequence that holds the same
/// candidates in ranking order.
///
/// Two candidates that tie in score and in slot start are the same candidate,
/// so it makes no difference to the result which of them a sort puts first.
pub open spec fn ranking(candidates: Seq<Candidate>) -> Seq<Candidate> {
    candidates.sort_by(rank_order())
}

/// Decides `ranks_before`.
pub fn comes_before(a: &Candidate, b: &Candidate) -> (r: bool)
    ensures
        r == ranks_before(*a, *b),
{
    a.score > b.score || (a.score == b.score && a.slot_start.secs <= b.slot_start.secs)
}

/// The ranking order is a total order on candidates: two candidates that rank
/// before each other are the same candidate.
pub proof fn lemma_rank_order_total()
    ensures
        total_ordering(rank_order()),
{
    assert forall|x: Candidate, y: Candidate| #[trigger]
        rank_order()(x, y) && #[trigger] rank_order()(y, x) implies x == y by {
        assert(x.slot_start.secs == y.slot_start.secs);
    }
}

/// A ranking is determined by the candidates alone: two rankings of the same
/// candidates are the same sequence, whatever order the candidates came in
/// and however often the ranking is made.
pub proof fn lemma_ranking_unique(a: Seq<Candidate>, b: Seq<Candidate>, candidates: Seq<Candidate>)
    requires
        is_ranking_of(a, candidates),
        is_ranking_of(b, candidates),
    ensures
        a == b,
{
    lemma_rank_order_total();
    assert(sorted_by(a, rank_order()));
    assert(sorted_by(b, rank_order()));
    lemma_sorted_unique(a, b, rank_order());
}

/// `ranking` gives a ranking, and by `lemma_ranking_unique` the only one.
pub proof fn lemma_ranking_is_ranking(candidates: Seq<Candidate>)
    ensures
        is_ranking_of(ranking(candidates), candidates),
        ranking(candidates).len() == candidates.len(),
{
    lemma_rank_order_total();
    candidates.lemma_sort_by_ensures(rank_order());
    assert(sorted_by(ranking(candidates), rank_order()));
    assert forall|i: int, j: int| 0 <= i < j < ranking(candidates).len() implies ranks_before(
        #[trigger] ranking(candidates)[i],
        #[trigger] ranking(candidates)[j],
    ) by {
        assert(rank_order()(ranking(candidates)[i], ranking(candidates)[j]));
    }
    ranking(candidates).to_multiset_ensures();
    candidates.to_multiset_ensures();
}

/// The ranking depends on which candidates there are, not on the order in
/// which they came.
pub proof fn lemma_ranking_ignores_order(a: Seq<Candidate>, b: Seq<Candidate>)
    requires
        a.to_multiset() == b.to_multiset(),
    ensures
        ranking(a) == ranking(b),
{
    lemma_ranking_is_ranking(a);
    lemma_ranking_is_ranking(b);
    lemma_ranking_unique(ranking(a), ranking(b), a);
}

/// Ranking what is already ranked changes nothing.
pub proof fn lemma_ranking_idempotent(again: Seq<Candidate>, ranked: Seq<Candidate>)
    requires
        is_ranked(ranked),
        is_ranking_of(again, ranked),
    ensures
        again == ranked,
        ranking(ranked) == ranked,
{
    lemma_ranking_unique(again, ranked, ranked);
    lemma_ranking_is_ranking(ranked);
    lemma_ranking_unique(ranking(ranked), ranked, ranked);
}

/// Puts the candidates in ranking order: score descending, then slot start
/// ascending.
pub fn rank(candidates: Vec<Candidate>) -> (ranked: Vec<Candidate>)
    ensures
        ranked@ == ranking(candidates@),
        is_ranking_of(ranked@, candidates@),
        ranked@.len() == candidates@.len(),
{
    let mut ranked: Vec<Candidate> = Vec::new();
    let mut i: usize = 0;
    assert(candidates@.take(0) =~= Seq::<Candidate>::empty());
    while i < candidates.len()
        invariant
            i <= candidates.len(),
            is_ranked(ranked@),
            ranked@.to_multiset() == candidates@.take(i as int).to_multiset(),
            ranked@.len() == i,
        decreases candidates.len() - i,
    {
        let c = candidates[i];
        let mut pos: usize = ranked.len();
        while pos > 0 && !comes_before(&ranked[pos - 1], &c)
            invariant
                pos <= ranked.len(),
                forall|k: int| pos <= k < ranked.len() ==> ranks_before(c, #[trigger] ranked@[k]),
            decreases pos,
        {
            pos -= 1;
        }
        let ghost before = ranked@;
        ranked.insert(pos, c);
        proof {
            assert forall|x: int, y: int| 0 <= x < y < ranked@.len() implies ranks_before(
                #[trigger] ranked@[x],
                #[trigger] ranked@[y],
            ) by {
                if y < pos {
                    assert(ranks_before(before[x], before[y]));
                } else if y == pos {
                    if pos > 0 && x < pos - 1 {
                        assert(ranks_before(before[x], before[pos - 1]));
                    }
                } else if x < pos {
                    assert(ranks_before(before[x], before[y - 1]));
                } else if x == pos {
                    assert(ranks_before(c, before[y - 1]));
                } else {
                    assert(ranks_before(before[x - 1], before[y - 1]));
                }
            }
            to_multiset_insert(before, pos as int, c);
            to_multiset_build(candidates@.take(i as int), c);
            assert(candidates@.take(i + 1) =~= candidates@.take(i as int).push(c));
        }
        i += 1;
    }
    assert(candidates@.take(candidates.len() as int) =~= candidates@);
    proof {
        lemma_ranking_is_ranking(candidates@);
        lemma_ranking_unique(ranked@, ranking(candidates@), candidates@);
    }
    ranked
}

/// The first `limit` entries of `ranked`, or all of them where there are fewer.
pub open spec fn top_of(ranked: Seq<Candidate>, limit: int) -> Seq<Candidate> {
    if limit < ranked.len() {
        ranked.take(limit)
    } else {
        ranked
    }
}

/// Selects the first `limit` entries of a ranked list. A shorter list is
/// returned as it is; an empty one stays empty.
pub fn top_slots(ranked: &Vec<Candidate>, limit: usize) -> (top: Vec<Candidate>)
    ensures
        top@ == top_of(ranked@, limit as int),
{
    let mut top: Vec<Candidate> = Vec::new();
    let mut i: usize = 0;
    while i < ranked.len() && i < limit
        invariant
            i <= ranked.len(),
            i <= limit,
            top@ == ranked@.take(i as int),
        decreases ranked.len() - i,
    {
        top.push(ranked[i]);
        assert(ranked@.take(i + 1) =~= ranked@.take(i as int).push(ranked@[i as int]));
        i += 1;
    }
    assert(ranked@.take(ranked.len() as int) =~= ranked@);
    top
}

} // verus!
