use vstd::prelude::*;

verus! {

// Auction mechanisms: how a bid is scored when the auction picks its winner.

/// Plain net bid mechanism - uses the net bid as the score.
pub struct AuctionMechanismPlainNet;

impl AuctionMechanismPlainNet {
    /// Create a new AuctionMechanismPlainNet.
    pub fn new() -> (r: Self)
        ensures
            r == AuctionMechanismPlainNet,
    {
        AuctionMechanismPlainNet
    }
}

/// Plain gross bid mechanism - uses the gross bid as the score.
pub struct AuctionMechanismPlainGross;

impl AuctionMechanismPlainGross {
    /// Create a new AuctionMechanismPlainGross.
    pub fn new() -> (r: Self)
        ensures
            r == AuctionMechanismPlainGross,
    {
        AuctionMechanismPlainGross
    }
}

/// Expected net spend mechanism - the net bid times the predicted win probability at the net bid.
pub struct AuctionMechanismExpectedNetSpend;

impl AuctionMechanismExpectedNetSpend {
    /// Create a new AuctionMechanismExpectedNetSpend.
    pub fn new() -> (r: Self)
        ensures
            r == AuctionMechanismExpectedNetSpend,
    {
        AuctionMechanismExpectedNetSpend
    }
}

/// Expected gross revenue mechanism - the gross bid times the predicted win probability at the net bid.
pub struct AuctionMechanismExpectedGrossRevenue;

impl AuctionMechanismExpectedGrossRevenue {
    /// Create a new AuctionMechanismExpectedGrossRevenue.
    pub fn new() -> (r: Self)
        ensures
            r == AuctionMechanismExpectedGrossRevenue,
    {
        AuctionMechanismExpectedGrossRevenue
    }
}

/// Expected margin mechanism - the margin (gross - net) times the predicted win probability at the net bid.
pub struct AuctionMechanismExpectedMargin;

impl AuctionMechanismExpectedMargin {
    /// Create a new AuctionMechanismExpectedMargin.
    pub fn new() -> (r: Self)
        ensures
            r == AuctionMechanismExpectedMargin,
    {
        AuctionMechanismExpectedMargin
    }
}

// Margins and bid determination: how net and gross bids follow from an optimized bid.

/// Bid determination that sets both the net and the gross bid to the optimized bid.
pub struct BidDeterminationNoMargin;

impl BidDeterminationNoMargin {
    /// Create a new BidDeterminationNoMargin.
    pub fn new() -> (r: Self)
        ensures
            r == BidDeterminationNoMargin,
    {
        BidDeterminationNoMargin
    }
}

/// Margin that sets both the net and the gross bid to the optimized bid.
pub struct MarginNone;

impl MarginNone {
    /// Create a new MarginNone.
    pub fn new() -> (r: Self)
        ensures
            r == MarginNone,
    {
        MarginNone
    }
}

// Bid optimizers: how the final bid follows from the campaign's valuation.

/// Truthful optimizer: bids the valuation itself.
pub struct BidOptimizerTrutful;

impl BidOptimizerTrutful {
    /// Name of the optimizer type.
    pub fn get_optimizer_type(&self) -> (r: String)
        ensures
            r@ == "Truthful"@,
    {
        String::from_str("Truthful")
    }
}

/// Maximum margin optimizer: bids where P(win) * (valuation - bid) is largest.
pub struct BidOptimizerMaximumMargin;

impl BidOptimizerMaximumMargin {
    /// Name of the optimizer type.
    pub fn get_optimizer_type(&self) -> (r: String)
        ensures
            r@ == "MaxMargin"@,
    {
        String::from_str("MaxMargin")
    }
}

/// Cheater optimizer: bids just above the floor and the competing bid when it can afford it.
pub struct BidOptimizerCheater;

impl BidOptimizerCheater {
    /// Name of the optimizer type.
    pub fn get_optimizer_type(&self) -> (r: String)
        ensures
            r@ == "Cheater"@,
    {
        String::from_str("Cheater")
    }
}

/// Median optimizer: bids at the predicted competition offset when the valuation exceeds it.
pub struct BidOptimizerMedian;

impl BidOptimizerMedian {
    /// Name of the optimizer type.
    pub fn get_optimizer_type(&self) -> (r: String)
        ensures
            r@ == "Median"@,
    {
        String::from_str("Median")
    }
}

// Bid valuers: how much an impression is worth to a campaign under its control variables.

/// Valuer: pacing times value times the seller's control factor.
pub struct BidValuerMultiplicative;

impl BidValuerMultiplicative {
    /// Name of the valuer type.
    pub fn get_valuer_type(&self) -> (r: String)
        ensures
            r@ == "Multiplicative pacing"@,
    {
        String::from_str("Multiplicative pacing")
    }
}

#[allow(non_camel_case_types)]
/// Valuer: multiplicative pacing with an additive seller control factor.
pub struct BidValuerMultiplicative_AdditiveSupply;

impl BidValuerMultiplicative_AdditiveSupply {
    /// Name of the valuer type.
    pub fn get_valuer_type(&self) -> (r: String)
        ensures
            r@ == "Multiplicative additive supply"@,
    {
        String::from_str("Multiplicative additive supply")
    }
}

#[allow(non_camel_case_types)]
/// Valuer: multiplicative pacing with an exponential seller control factor.
pub struct BidValuerMultiplicative_ExponentialSupply;

impl BidValuerMultiplicative_ExponentialSupply {
    /// Name of the valuer type.
    pub fn get_valuer_type(&self) -> (r: String)
        ensures
            r@ == "Multiplicative exponential supply"@,
    {
        String::from_str("Multiplicative exponential supply")
    }
}

/// Valuer driven by two control variables (dual targets).
pub struct BidValuerDualTarget;

impl BidValuerDualTarget {
    /// Name of the valuer type.
    pub fn get_valuer_type(&self) -> (r: String)
        ensures
            r@ == "Max margin dual opt)"@,
    {
        String::from_str("Max margin dual opt)")
    }
}

// Campaign bidders: the bidding strategies of campaigns.

/// Bidder for the multiplicative pacing strategy: pacing * value * seller control factor.
pub struct CampaignBidderMultiplicative;

impl CampaignBidderMultiplicative {
    /// Name of the bidding type.
    pub fn get_bidding_type(&self) -> (r: String)
        ensures
            r@ == "Multiplicative pacing"@,
    {
        String::from_str("Multiplicative pacing")
    }
}

/// Bidder for the multiplicative pacing strategy (single control variable).
pub struct CampaignBidderMultiplicativePacing;

impl CampaignBidderMultiplicativePacing {
    /// Name of the bidding type.
    pub fn get_bidding_type(&self) -> (r: String)
        ensures
            r@ == "Multiplicative pacing"@,
    {
        String::from_str("Multiplicative pacing")
    }
}

/// Bidder for the multiplicative pacing strategy.
pub struct BidderMultiplicativePacing;

impl BidderMultiplicativePacing {
    /// Name of the bidding type.
    pub fn get_bidding_type(&self) -> (r: String)
        ensures
            r@ == "Multiplicative pacing"@,
    {
        String::from_str("Multiplicative pacing")
    }
}

/// Bidder for multiplicative pacing with an additive seller control factor.
pub struct CampaignBidderMultiplicativeAdditive;

impl CampaignBidderMultiplicativeAdditive {
    /// Name of the bidding type.
    pub fn get_bidding_type(&self) -> (r: String)
        ensures
            r@ == "Multiplicative additive"@,
    {
        String::from_str("Multiplicative additive")
    }
}

/// Bidder that bids at a constant marginal utility of spend.
pub struct CampaignBidderOptimal;

impl CampaignBidderOptimal {
    /// Name of the bidding type.
    pub fn get_bidding_type(&self) -> (r: String)
        ensures
            r@ == "Optimal bidding"@,
    {
        String::from_str("Optimal bidding")
    }
}

/// Bidder that maximizes P(win) * (full price - bid).
pub struct BidderMaxMargin;

impl BidderMaxMargin {
    /// Name of the bidding type.
    pub fn get_bidding_type(&self) -> (r: String)
        ensures
            r@ == "Max margin bidding"@,
    {
        String::from_str("Max margin bidding")
    }
}

/// Bidder that bids just above the floor and the competing bid (last look).
pub struct CampaignBidderCheaterLastLook;

impl CampaignBidderCheaterLastLook {
    /// Name of the bidding type.
    pub fn get_bidding_type(&self) -> (r: String)
        ensures
            r@ == "Cheater - last look/2nd price"@,
    {
        String::from_str("Cheater - last look/2nd price")
    }
}

/// Bidder for the cheater / last look strategy.
pub struct BidderCheaterLastLook;

impl BidderCheaterLastLook {
    /// Name of the bidding type.
    pub fn get_bidding_type(&self) -> (r: String)
        ensures
            r@ == "Cheater - last look/2nd price"@,
    {
        String::from_str("Cheater - last look/2nd price")
    }
}

/// Median bidder (Auction Level Bid): bids the predicted offset when the pacing bid exceeds it.
pub struct CampaignBidderALB;

impl CampaignBidderALB {
    /// Name of the bidding type.
    pub fn get_bidding_type(&self) -> (r: String)
        ensures
            r@ == "ALB (Auction Level Bid)"@,
    {
        String::from_str("ALB (Auction Level Bid)")
    }
}

/// Max margin bidder driven by two control variables.
pub struct CampaignBidderDouble;

impl CampaignBidderDouble {
    /// Name of the bidding type.
    pub fn get_bidding_type(&self) -> (r: String)
        ensures
            r@ == "Max margin bidding (dual control)"@,
    {
        String::from_str("Max margin bidding (dual control)")
    }
}

} // verus!
