use marrakesh::bidding::{
    AuctionMechanismExpectedGrossRevenue, AuctionMechanismExpectedMargin, AuctionMechanismExpectedNetSpend,
    AuctionMechanismPlainGross, AuctionMechanismPlainNet, BidDeterminationNoMargin, BidOptimizerCheater,
    BidOptimizerMaximumMargin, BidOptimizerMedian, BidOptimizerTrutful, BidValuerDualTarget, BidValuerMultiplicative,
    BidValuerMultiplicative_AdditiveSupply, BidValuerMultiplicative_ExponentialSupply, BidderCheaterLastLook,
    BidderMaxMargin, BidderMultiplicativePacing, CampaignBidderALB, CampaignBidderCheaterLastLook, CampaignBidderDouble,
    CampaignBidderMultiplicative, CampaignBidderMultiplicativeAdditive, CampaignBidderMultiplicativePacing,
    CampaignBidderOptimal, MarginNone,
};
use marrakesh::targets::{
    CampaignTargetNone, CampaignTargetTotalImpressions, ConvergeTargetTotalImpressions, SellerChargerFirstPrice,
    SellerTargetNone,
};

#[test]
fn constructors_build_the_mechanisms() {
    let _ = AuctionMechanismPlainNet::new();
    let _ = AuctionMechanismPlainGross::new();
    let _ = AuctionMechanismExpectedNetSpend::new();
    let _ = AuctionMechanismExpectedGrossRevenue::new();
    let _ = AuctionMechanismExpectedMargin::new();
    let _ = BidDeterminationNoMargin::new();
    let _ = MarginNone::new();
}

#[test]
fn strategy_names() {
    assert_eq!(BidOptimizerTrutful.get_optimizer_type(), "Truthful");
    assert_eq!(BidOptimizerMaximumMargin.get_optimizer_type(), "MaxMargin");
    assert_eq!(BidOptimizerCheater.get_optimizer_type(), "Cheater");
    assert_eq!(BidOptimizerMedian.get_optimizer_type(), "Median");
    assert_eq!(BidValuerMultiplicative.get_valuer_type(), "Multiplicative pacing");
    assert_eq!(BidValuerMultiplicative_AdditiveSupply.get_valuer_type(), "Multiplicative additive supply");
    assert_eq!(BidValuerMultiplicative_ExponentialSupply.get_valuer_type(), "Multiplicative exponential supply");
    assert_eq!(BidValuerDualTarget.get_valuer_type(), "Max margin dual opt)");
    assert_eq!(CampaignBidderMultiplicative.get_bidding_type(), "Multiplicative pacing");
    assert_eq!(CampaignBidderMultiplicativePacing.get_bidding_type(), "Multiplicative pacing");
    assert_eq!(BidderMultiplicativePacing.get_bidding_type(), "Multiplicative pacing");
    assert_eq!(CampaignBidderMultiplicativeAdditive.get_bidding_type(), "Multiplicative additive");
    assert_eq!(CampaignBidderOptimal.get_bidding_type(), "Optimal bidding");
    assert_eq!(BidderMaxMargin.get_bidding_type(), "Max margin bidding");
    assert_eq!(CampaignBidderCheaterLastLook.get_bidding_type(), "Cheater - last look/2nd price");
    assert_eq!(BidderCheaterLastLook.get_bidding_type(), "Cheater - last look/2nd price");
    assert_eq!(CampaignBidderALB.get_bidding_type(), "ALB (Auction Level Bid)");
    assert_eq!(CampaignBidderDouble.get_bidding_type(), "Max margin bidding (dual control)");
}

#[test]
fn target_descriptions() {
    assert_eq!(CampaignTargetTotalImpressions { total_impressions_target: 1000 }.converge_target_string(), "Fixed impressions (1000)");
    assert_eq!(ConvergeTargetTotalImpressions { total_impressions_target: -5 }.converge_target_string(), "Fixed impressions (-5)");
    assert_eq!(ConvergeTargetTotalImpressions { total_impressions_target: i32::MIN }.converge_target_string(), "Fixed impressions (-2147483648)");
    assert_eq!(CampaignTargetTotalImpressions { total_impressions_target: 0 }.converge_target_string(), "Fixed impressions (0)");
    assert_eq!(CampaignTargetNone.converge_target_string(), "No convergence target");
    assert_eq!(SellerTargetNone.converge_target_string(), "No convergence");
    assert_eq!(SellerChargerFirstPrice.get_charging_type(), "First price");
}
