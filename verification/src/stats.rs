use vstd::prelude::*;

verus! {

/// How the auction for an impression ended.
#[derive(Debug, Clone, Copy, PartialEq, Eq, Structural)]
pub enum AuctionOutcome {
    /// One or more campaigns won the impression (a fractional auction may share it).
    Sold,
    /// Bids came, but none reached the floor and the competing bid.
    Lost,
    /// No campaign bid.
    NoDemand,
}

/// The counts kept of a simulation run: impressions lost, impressions with no
/// demand, and impressions sold by each seller.
pub struct OutcomeCounts {
    pub lost_count: usize,
    pub no_bids_count: usize,
    pub impressions_sold: Vec<usize>,
}

/// How many outcomes are `kind`.
pub open spec fn count_outcomes(outcomes: Seq<AuctionOutcome>, kind: AuctionOutcome) -> nat
    decreases outcomes.len(),
{
    if outcomes.len() == 0 {
        0
    } else {
        count_outcomes(outcomes.drop_last(), kind) + if outcomes.last() == kind {
            1nat
        } else {
            0nat
        }
    }
}

/// How many impressions of seller `s` were sold.
pub open spec fn count_sold(outcomes: Seq<AuctionOutcome>, sellers: Seq<usize>, s: usize) -> nat
    decreases outcomes.len(),
{
    if outcomes.len() == 0 {
        0
    } else {
        count_sold(outcomes.drop_last(), sellers, s) + if outcomes.last() == AuctionOutcome::Sold
            && sellers[outcomes.len() - 1] == s {
            1nat
        } else {
            0nat
        }
    }
}

/// The sum of the counts.
pub open spec fn sum_counts(counts: Seq<usize>) -> nat
    decreases counts.len(),
{
    if counts.len() == 0 {
        0
    } else {
        sum_counts(counts.drop_last()) + counts.last() as nat
    }
}

/// Count, over the impressions of a run, the lost ones, those with no demand and
/// those each seller sold. `sellers[i]` is the seller of impression `i`.
pub fn tally_outcomes(outcomes: &Vec<AuctionOutcome>, sellers: &Vec<usize>, num_sellers: usize) -> (c: OutcomeCounts)
    requires
        outcomes@.len() == sellers@.len(),
        forall|i: int| 0 <= i < sellers@.len() ==> #[trigger] sellers@[i] < num_sellers,
    ensures
        c.lost_count == count_outcomes(outcomes@, AuctionOutcome::Lost),
        c.no_bids_count == count_outcomes(outcomes@, AuctionOutcome::NoDemand),
        c.impressions_sold@.len() == num_sellers,
        forall|s: int| 0 <= s < num_sellers ==> #[trigger] c.impressions_sold@[s] == count_sold(outcomes@, sellers@, s as usize),
        sum_counts(c.impressions_sold@) == count_outcomes(outcomes@, AuctionOutcome::Sold),
{
    let mut lost_count: usize = 0;
    let mut no_bids_count: usize = 0;
    let mut impressions_sold: Vec<usize> = vec![0; num_sellers];
    proof {
        lemma_sum_zeros(impressions_sold@);
    }
    let n = outcomes.len();
    let mut i: usize = 0;
    while i < n
        invariant
            n == outcomes@.len(),
            n == sellers@.len(),
            forall|k: int| 0 <= k < sellers@.len() ==> #[trigger] sellers@[k] < num_sellers,
            i <= n,
            lost_count == count_outcomes(outcomes@.take(i as int), AuctionOutcome::Lost),
            no_bids_count == count_outcomes(outcomes@.take(i as int), AuctionOutcome::NoDemand),
            impressions_sold@.len() == num_sellers,
            forall|s: int| 0 <= s < num_sellers ==> #[trigger] impressions_sold@[s] == count_sold(outcomes@.take(i as int), sellers@, s as usize),
            sum_counts(impressions_sold@) == count_outcomes(outcomes@.take(i as int), AuctionOutcome::Sold),
            lost_count + no_bids_count + sum_counts(impressions_sold@) == i,
        decreases n - i,
    {
        let ghost prefix = outcomes@.take(i as int);
        let ghost next = outcomes@.take(i + 1);
        assert(next.drop_last() =~= prefix);
        assert(next.last() == outcomes@[i as int]);
        match outcomes[i] {
            AuctionOutcome::Lost => {
                lost_count = lost_count + 1;
            },
            AuctionOutcome::NoDemand => {
                no_bids_count = no_bids_count + 1;
            },
            AuctionOutcome::Sold => {
                let s = sellers[i];
                let ghost before = impressions_sold@;
                proof {
                    lemma_sum_bounds(before, s as int);
                }
                let v = impressions_sold[s] + 1;
                impressions_sold.set(s, v);
                proof {
                    lemma_sum_increment(before, s as int);
                }
            },
        }
        i = i + 1;
    }
    assert(outcomes@.take(n as int) =~= outcomes@);
    OutcomeCounts { lost_count, no_bids_count, impressions_sold }
}

/// Counts that are all zero sum to zero.
proof fn lemma_sum_zeros(counts: Seq<usize>)
    requires
        forall|k: int| 0 <= k < counts.len() ==> #[trigger] counts[k] == 0,
    ensures
        sum_counts(counts) == 0,
    decreases counts.len(),
{
    if counts.len() > 0 {
        lemma_sum_zeros(counts.drop_last());
    }
}

/// Each count is at most the sum.
proof fn lemma_sum_bounds(counts: Seq<usize>, k: int)
    requires
        0 <= k < counts.len(),
    ensures
        counts[k] <= sum_counts(counts),
    decreases counts.len(),
{
    if k < counts.len() - 1 {
        lemma_sum_bounds(counts.drop_last(), k);
    }
}

/// Adding one to a count adds one to the sum.
proof fn lemma_sum_increment(counts: Seq<usize>, k: int)
    requires
        0 <= k < counts.len(),
        counts[k] < usize::MAX,
    ensures
        sum_counts(counts.update(k, (counts[k] + 1) as usize)) == sum_counts(counts) + 1,
    decreases counts.len(),
{
    let updated = counts.update(k, (counts[k] + 1) as usize);
    if k < counts.len() - 1 {
        lemma_sum_increment(counts.drop_last(), k);
        assert(updated.drop_last() =~= counts.drop_last().update(k, (counts[k] + 1) as usize));
    } else {
        assert(updated.drop_last() =~= counts.drop_last());
    }
}

/// Every impression of a run is sold, lost or without demand: the three counts
/// add up to the number of impressions.
pub proof fn law_every_impression_counted_once(outcomes: Seq<AuctionOutcome>)
    ensures
        count_outcomes(outcomes, AuctionOutcome::Sold) + count_outcomes(outcomes, AuctionOutcome::Lost)
            + count_outcomes(outcomes, AuctionOutcome::NoDemand) == outcomes.len(),
    decreases outcomes.len(),
{
    if outcomes.len() > 0 {
        law_every_impression_counted_once(outcomes.drop_last());
    }
}

} // verus!
