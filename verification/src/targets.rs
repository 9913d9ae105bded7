use vstd::prelude::*;

use crate::text::{push_signed_decimal, signed_decimal};

verus! {

/// Convergence target for a total number of impressions.
pub struct CampaignTargetTotalImpressions {
    pub total_impressions_target: i32,
}

impl CampaignTargetTotalImpressions {
    /// Description of the target: "Fixed impressions (<target>)".
    pub fn converge_target_string(&self) -> (r: String)
        ensures
            r@ == "Fixed impressions ("@ + signed_decimal(self.total_impressions_target as int) + ")"@,
    {
        let mut r = String::from_str("Fixed impressions (");
        push_signed_decimal(&mut r, self.total_impressions_target as i64);
        r.append(")");
        r
    }
}

/// Convergence target for a total number of impressions (single controller).
pub struct ConvergeTargetTotalImpressions {
    pub total_impressions_target: i32,
}

impl ConvergeTargetTotalImpressions {
    /// Description of the target: "Fixed impressions (<target>)".
    pub fn converge_target_string(&self) -> (r: String)
        ensures
            r@ == "Fixed impressions ("@ + signed_decimal(self.total_impressions_target as int) + ")"@,
    {
        let mut r = String::from_str("Fixed impressions (");
        push_signed_decimal(&mut r, self.total_impressions_target as i64);
        r.append(")");
        r
    }
}

/// Campaign that does not converge: its control variable stays fixed.
pub struct CampaignTargetNone;

impl CampaignTargetNone {
    /// Description of the target.
    pub fn converge_target_string(&self) -> (r: String)
        ensures
            r@ == "No convergence target"@,
    {
        String::from_str("No convergence target")
    }
}

/// Seller that does not converge: its boost stays fixed.
pub struct SellerTargetNone;

impl SellerTargetNone {
    /// Description of the target.
    pub fn converge_target_string(&self) -> (r: String)
        ensures
            r@ == "No convergence"@,
    {
        String::from_str("No convergence")
    }
}

/// Charger for a first price auction: the supply cost is the winning bid.
pub struct SellerChargerFirstPrice;

impl SellerChargerFirstPrice {
    /// Name of the charging type.
    pub fn get_charging_type(&self) -> (r: String)
        ensures
            r@ == "First price"@,
    {
        String::from_str("First price")
    }
}

} // verus!
