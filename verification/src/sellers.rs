use vstd::prelude::*;

use crate::campaigns::ControllerKind;

verus! {

/// Seller type for the different pricing models.
///
/// The fixed cost is an IEEE-754 double precision number held by its bit pattern
/// (`f64::to_bits`).
#[allow(non_camel_case_types)]
#[derive(Debug, Clone, Copy, PartialEq, Eq, Structural)]
pub enum SellerType {
    FIRST_PRICE,
    FIXED_PRICE { fixed_cost_cpm: u64 },
}

/// Convergence strategy for sellers; the values are IEEE-754 double precision
/// numbers held by their bit pattern (`f64::to_bits`).
#[allow(non_camel_case_types)]
#[derive(Debug, Clone, Copy, PartialEq, Eq, Structural)]
pub enum SellerConvergeStrategy {
    NONE { default_value: u64 },
    TOTAL_COST { target_total_cost: u64 },
}

/// The controller of a seller's boost: fixed at the given value for `NONE`,
/// proportional-derivative control towards a total cost.
pub open spec fn seller_controller_of(converge: SellerConvergeStrategy) -> ControllerKind {
    match converge {
        SellerConvergeStrategy::NONE { default_value } => ControllerKind::Constant { value: default_value },
        SellerConvergeStrategy::TOTAL_COST { .. } => ControllerKind::ProportionalDerivative,
    }
}

/// The controller of a seller's boost under a convergence strategy.
pub fn seller_controller(converge: SellerConvergeStrategy) -> (k: ControllerKind)
    ensures
        k == seller_controller_of(converge),
{
    match converge {
        SellerConvergeStrategy::NONE { default_value } => ControllerKind::Constant { value: default_value },
        SellerConvergeStrategy::TOTAL_COST { .. } => ControllerKind::ProportionalDerivative,
    }
}

/// A registered seller: its identifier, name, pricing, convergence and how many
/// impressions it offers. Sellers added ready-made (`add_advanced`) have no pricing
/// or convergence here.
pub struct SellerEntry {
    pub seller_id: usize,
    pub seller_name: String,
    pub seller_type: Option<SellerType>,
    pub seller_converge: Option<SellerConvergeStrategy>,
    pub impressions_on_offer: usize,
}

/// Container for sellers.
pub struct Sellers {
    pub sellers: Vec<SellerEntry>,
}

/// The number of impressions each seller offers, in seller order.
pub open spec fn offers(sellers: Seq<SellerEntry>) -> Seq<nat> {
    sellers.map_values(|s: SellerEntry| s.impressions_on_offer as nat)
}

/// The sum of the numbers.
pub open spec fn total(counts: Seq<nat>) -> nat
    decreases counts.len(),
{
    if counts.len() == 0 {
        0
    } else {
        total(counts.drop_last()) + counts.last()
    }
}

/// Which seller each impression comes from: the first seller's impressions first,
/// each seller offering as many impressions as it has on offer.
pub open spec fn impression_layout(counts: Seq<nat>) -> Seq<usize>
    decreases counts.len(),
{
    if counts.len() == 0 {
        Seq::empty()
    } else {
        impression_layout(counts.drop_last()) + Seq::new(counts.last(), |i: int| (counts.len() - 1) as usize)
    }
}

impl Sellers {
    /// Every seller's identifier is its position.
    pub open spec fn ids_are_positions(&self) -> bool {
        forall|k: int| 0 <= k < self.sellers@.len() ==> #[trigger] self.sellers@[k].seller_id == k
    }

    /// Create an empty container.
    pub fn new() -> (r: Self)
        ensures
            r.sellers@.len() == 0,
            r.ids_are_positions(),
    {
        Sellers { sellers: Vec::new() }
    }

    /// Add a seller; its identifier is its position.
    pub fn add(
        &mut self,
        seller_name: String,
        seller_type: SellerType,
        seller_converge: SellerConvergeStrategy,
        impressions_on_offer: usize,
    )
        ensures
            final(self).sellers@.len() == old(self).sellers@.len() + 1,
            forall|k: int| 0 <= k < old(self).sellers@.len() ==> #[trigger] final(self).sellers@[k] == old(self).sellers@[k],
            final(self).sellers@.last().seller_id == old(self).sellers@.len(),
            final(self).sellers@.last().seller_name@ == seller_name@,
            final(self).sellers@.last().seller_type == Some(seller_type),
            final(self).sellers@.last().seller_converge == Some(seller_converge),
            final(self).sellers@.last().impressions_on_offer == impressions_on_offer,
            old(self).ids_are_positions() ==> final(self).ids_are_positions(),
    {
        let seller_id = self.sellers.len();
        self.sellers.push(SellerEntry {
            seller_id,
            seller_name,
            seller_type: Some(seller_type),
            seller_converge: Some(seller_converge),
            impressions_on_offer,
        });
    }

    /// Add a ready-made seller, known here by its name and its offer; its identifier
    /// is its position.
    pub fn add_advanced(&mut self, seller_name: String, impressions_on_offer: usize)
        ensures
            final(self).sellers@.len() == old(self).sellers@.len() + 1,
            forall|k: int| 0 <= k < old(self).sellers@.len() ==> #[trigger] final(self).sellers@[k] == old(self).sellers@[k],
            final(self).sellers@.last().seller_id == old(self).sellers@.len(),
            final(self).sellers@.last().seller_name@ == seller_name@,
            final(self).sellers@.last().seller_type == None::<SellerType>,
            final(self).sellers@.last().seller_converge == None::<SellerConvergeStrategy>,
            final(self).sellers@.last().impressions_on_offer == impressions_on_offer,
            old(self).ids_are_positions() ==> final(self).ids_are_positions(),
    {
        let seller_id = self.sellers.len();
        self.sellers.push(SellerEntry {
            seller_id,
            seller_name,
            seller_type: None,
            seller_converge: None,
            impressions_on_offer,
        });
    }

    /// The total number of impressions on offer, or `None` when it does not fit
    /// in a `usize`.
    pub fn total_impressions(&self) -> (n: Option<usize>)
        ensures
            total(offers(self.sellers@)) <= usize::MAX ==> n == Some(total(offers(self.sellers@)) as usize),
            total(offers(self.sellers@)) > usize::MAX ==> n is None,
    {
        let ghost counts = offers(self.sellers@);
        let mut sum: usize = 0;
        let mut k: usize = 0;
        while k < self.sellers.len()
            invariant
                counts == offers(self.sellers@),
                k <= self.sellers@.len(),
                sum == total(counts.take(k as int)),
            decreases self.sellers@.len() - k,
        {
            assert(counts.take(k + 1).drop_last() =~= counts.take(k as int));
            match sum.checked_add(self.sellers[k].impressions_on_offer) {
                Some(next) => {
                    sum = next;
                },
                None => {
                    proof {
                        lemma_total_prefix(counts, k + 1);
                    }
                    return None;
                },
            }
            k = k + 1;
        }
        assert(counts.take(k as int) =~= counts);
        Some(sum)
    }

    /// The seller of each impression, in the order the impressions are generated:
    /// all impressions of the first seller, then those of the second, and so on.
    pub fn impression_sellers(&self) -> (layout: Vec<usize>)
        requires
            total(offers(self.sellers@)) <= usize::MAX,
        ensures
            layout@ == impression_layout(offers(self.sellers@)),
    {
        let ghost counts = offers(self.sellers@);
        let mut layout: Vec<usize> = Vec::new();
        let mut k: usize = 0;
        while k < self.sellers.len()
            invariant
                counts == offers(self.sellers@),
                k <= self.sellers@.len(),
                layout@ == impression_layout(counts.take(k as int)),
            decreases self.sellers@.len() - k,
        {
            let offer = self.sellers[k].impressions_on_offer;
            let ghost before = layout@;
            let mut j: usize = 0;
            while j < offer
                invariant
                    j <= offer,
                    layout@ == before + Seq::new(j as nat, |i: int| k),
                decreases offer - j,
            {
                layout.push(k);
                assert(layout@ =~= before + Seq::new((j + 1) as nat, |i: int| k));
                j = j + 1;
            }
            proof {
                let next = counts.take(k + 1);
                assert(next.drop_last() =~= counts.take(k as int));
                assert(next.last() == offer as nat);
                assert(Seq::new(offer as nat, |i: int| k) =~= Seq::new(next.last(), |i: int| (next.len() - 1) as usize));
            }
            k = k + 1;
        }
        assert(counts.take(k as int) =~= counts);
        layout
    }
}

/// A prefix of the counts sums to at most their total.
pub proof fn lemma_total_prefix(counts: Seq<nat>, k: int)
    requires
        0 <= k <= counts.len(),
    ensures
        total(counts.take(k)) <= total(counts),
    decreases counts.len() - k,
{
    if k < counts.len() {
        lemma_total_prefix(counts, k + 1);
        assert(counts.take(k + 1).drop_last() =~= counts.take(k));
    } else {
        assert(counts.take(k) =~= counts);
    }
}

/// How many times `x` occurs in `s`.
pub open spec fn occurrences(s: Seq<usize>, x: usize) -> nat
    decreases s.len(),
{
    if s.len() == 0 {
        0
    } else {
        occurrences(s.drop_last(), x) + if s.last() == x {
            1nat
        } else {
            0nat
        }
    }
}

/// Occurrences in two sequences joined add up.
pub proof fn lemma_occurrences_add(a: Seq<usize>, b: Seq<usize>, x: usize)
    ensures
        occurrences(a + b, x) == occurrences(a, x) + occurrences(b, x),
    decreases b.len(),
{
    if b.len() == 0 {
        assert(a + b =~= a);
    } else {
        lemma_occurrences_add(a, b.drop_last(), x);
        assert((a + b).drop_last() =~= a + b.drop_last());
        assert((a + b).last() == b.last());
    }
}

/// A run of `n` copies of `y` holds `x` `n` times when `x == y`, else never.
pub proof fn lemma_occurrences_run(n: nat, y: usize, x: usize)
    ensures
        occurrences(Seq::new(n, |i: int| y), x) == (if x == y { n } else { 0 }),
    decreases n,
{
    if n > 0 {
        lemma_occurrences_run((n - 1) as nat, y, x);
        assert(Seq::new(n, |i: int| y).drop_last() =~= Seq::new((n - 1) as nat, |i: int| y));
    }
}

/// There are as many impressions as sellers offer in total, each from a seller,
/// and each seller has exactly as many impressions as it offers.
pub proof fn law_impression_layout(counts: Seq<nat>)
    requires
        counts.len() <= usize::MAX,
    ensures
        impression_layout(counts).len() == total(counts),
        forall|i: int| 0 <= i < impression_layout(counts).len() ==> #[trigger] impression_layout(counts)[i] < counts.len(),
        forall|s: usize| s < counts.len() ==> #[trigger] occurrences(impression_layout(counts), s) == counts[s as int],
    decreases counts.len(),
{
    if counts.len() > 0 {
        let rest = counts.drop_last();
        law_impression_layout(rest);
        let last = (counts.len() - 1) as usize;
        let block = Seq::new(counts.last(), |i: int| last);
        let layout = impression_layout(counts);
        assert(layout == impression_layout(rest) + block);
        assert forall|i: int| 0 <= i < layout.len() implies #[trigger] layout[i] < counts.len() by {
            if i < impression_layout(rest).len() {
                assert(layout[i] == impression_layout(rest)[i]);
            }
        }
        assert forall|s: usize| s < counts.len() implies #[trigger] occurrences(layout, s) == counts[s as int] by {
            lemma_occurrences_add(impression_layout(rest), block, s);
            lemma_occurrences_run(counts.last(), last, s);
            if s < counts.len() - 1 {
                assert(rest[s as int] == counts[s as int]);
            } else {
                lemma_no_occurrences_beyond(rest, s);
            }
        }
    }
}

/// A seller beyond the last one has no impressions.
proof fn lemma_no_occurrences_beyond(counts: Seq<nat>, s: usize)
    requires
        s >= counts.len(),
        counts.len() <= usize::MAX,
    ensures
        occurrences(impression_layout(counts), s) == 0,
    decreases counts.len(),
{
    if counts.len() > 0 {
        let rest = counts.drop_last();
        lemma_no_occurrences_beyond(rest, s);
        let last = (counts.len() - 1) as usize;
        lemma_occurrences_add(impression_layout(rest), Seq::new(counts.last(), |i: int| last), s);
        lemma_occurrences_run(counts.last(), last, s);
    }
}

} // verus!
