use vstd::prelude::*;

use crate::bidding::{
    BidderMaxMargin, CampaignBidderALB, CampaignBidderCheaterLastLook, CampaignBidderDouble, CampaignBidderMultiplicative,
    CampaignBidderMultiplicativeAdditive,
};
use crate::text::{decimal, push_decimal};

verus! {

/// Campaign type determining the bidding strategy.
#[allow(non_camel_case_types)]
#[derive(Debug, Clone, Copy, PartialEq, Eq, Structural)]
pub enum CampaignType {
    MULTIPLICATIVE_PACING,
    MULTIPLICATIVE_ADDITIVE,
    CHEATER,
    MAX_MARGIN,
    MAX_MARGIN_ADDITIVE_SUPPLY,
    MAX_MARGIN_EXPONENTIAL_SUPPLY,
    MAX_MARGIN_DOUBLE_TARGET,
    MEDIAN,
}

impl CampaignType {
    /// How many convergence targets a campaign of this type is built from:
    /// two for the dual-target max margin bidder, one for every other type.
    pub open spec fn converge_target_count(self) -> nat {
        if self == CampaignType::MAX_MARGIN_DOUBLE_TARGET {
            2
        } else {
            1
        }
    }

    /// The name of the type as written in the program.
    pub open spec fn spelled_name(self) -> Seq<char> {
        match self {
            CampaignType::MULTIPLICATIVE_PACING => "MULTIPLICATIVE_PACING"@,
            CampaignType::MULTIPLICATIVE_ADDITIVE => "MULTIPLICATIVE_ADDITIVE"@,
            CampaignType::CHEATER => "CHEATER"@,
            CampaignType::MAX_MARGIN => "MAX_MARGIN"@,
            CampaignType::MAX_MARGIN_ADDITIVE_SUPPLY => "MAX_MARGIN_ADDITIVE_SUPPLY"@,
            CampaignType::MAX_MARGIN_EXPONENTIAL_SUPPLY => "MAX_MARGIN_EXPONENTIAL_SUPPLY"@,
            CampaignType::MAX_MARGIN_DOUBLE_TARGET => "MAX_MARGIN_DOUBLE_TARGET"@,
            CampaignType::MEDIAN => "MEDIAN"@,
        }
    }

    /// The name of the type.
    pub fn name(&self) -> (r: String)
        ensures
            r@ == self.spelled_name(),
    {
        match self {
            CampaignType::MULTIPLICATIVE_PACING => String::from_str("MULTIPLICATIVE_PACING"),
            CampaignType::MULTIPLICATIVE_ADDITIVE => String::from_str("MULTIPLICATIVE_ADDITIVE"),
            CampaignType::CHEATER => String::from_str("CHEATER"),
            CampaignType::MAX_MARGIN => String::from_str("MAX_MARGIN"),
            CampaignType::MAX_MARGIN_ADDITIVE_SUPPLY => String::from_str("MAX_MARGIN_ADDITIVE_SUPPLY"),
            CampaignType::MAX_MARGIN_EXPONENTIAL_SUPPLY => String::from_str("MAX_MARGIN_EXPONENTIAL_SUPPLY"),
            CampaignType::MAX_MARGIN_DOUBLE_TARGET => String::from_str("MAX_MARGIN_DOUBLE_TARGET"),
            CampaignType::MEDIAN => String::from_str("MEDIAN"),
        }
    }

    /// The message the program stops with when a campaign of this type is given
    /// the wrong number of convergence targets.
    pub fn converge_target_count_message(&self) -> (m: String)
        ensures
            self.converge_target_count() == 2 ==> m@ == self.spelled_name() + " requires exactly two converge targets"@,
            self.converge_target_count() == 1 ==> m@ == self.spelled_name() + " requires exactly one converge target"@,
    {
        let name = self.name();
        match self {
            CampaignType::MAX_MARGIN_DOUBLE_TARGET => name.concat(" requires exactly two converge targets"),
            _ => name.concat(" requires exactly one converge target"),
        }
    }

    /// How many convergence targets a campaign of this type is built from.
    pub fn required_converge_targets(&self) -> (n: usize)
        ensures
            n == self.converge_target_count(),
            n == 1 || n == 2,
            (n == 2) == (*self == CampaignType::MAX_MARGIN_DOUBLE_TARGET),
    {
        match self {
            CampaignType::MAX_MARGIN_DOUBLE_TARGET => 2,
            _ => 1,
        }
    }
}

/// Convergence target determining what the campaign converges on.
///
/// Budgets, average values and pacings are IEEE-754 double precision numbers,
/// held here by their bit pattern (`f64::to_bits`); the simulation that reads
/// them turns them back with `f64::from_bits`.
#[allow(non_camel_case_types)]
#[derive(Debug, Clone, Copy, PartialEq, Eq, Structural)]
pub enum ConvergeTarget {
    TOTAL_BUDGET { target_total_budget: u64 },
    TOTAL_IMPRESSIONS { target_total_impressions: i32 },
    AVG_VALUE { avg_impression_value_to_campaign: u64 },
    NONE { default_pacing: u64 },
}

/// How a campaign turns an impression's value into what it would pay.
#[derive(Debug, Clone, Copy, PartialEq, Eq, Structural)]
pub enum ValuerKind {
    /// Pacing times value times the seller's boost.
    Multiplicative,
    /// Pacing times value, plus the seller's boost.
    MultiplicativeAdditiveSupply,
    /// Pacing times value, raised to the seller's boost.
    MultiplicativeExponentialSupply,
    /// Two control variables: one for the first target, one for the average value.
    DualTarget,
}

/// How a campaign turns what it would pay into its bid.
#[derive(Debug, Clone, Copy, PartialEq, Eq, Structural)]
pub enum OptimizerKind {
    /// Bids what it would pay.
    Truthful,
    /// Bids where the expected margin is largest.
    MaximumMargin,
    /// Bids just above the floor and the competing bid.
    Cheater,
    /// Bids at the predicted competition offset.
    Median,
}

impl CampaignType {
    /// The valuer of a campaign of this type.
    pub open spec fn valuer_of(self) -> ValuerKind {
        match self {
            CampaignType::MULTIPLICATIVE_ADDITIVE | CampaignType::MAX_MARGIN_ADDITIVE_SUPPLY => ValuerKind::MultiplicativeAdditiveSupply,
            CampaignType::MAX_MARGIN_EXPONENTIAL_SUPPLY => ValuerKind::MultiplicativeExponentialSupply,
            CampaignType::MAX_MARGIN_DOUBLE_TARGET => ValuerKind::DualTarget,
            _ => ValuerKind::Multiplicative,
        }
    }

    /// The optimizer of a campaign of this type.
    pub open spec fn optimizer_of(self) -> OptimizerKind {
        match self {
            CampaignType::MULTIPLICATIVE_PACING | CampaignType::MULTIPLICATIVE_ADDITIVE => OptimizerKind::Truthful,
            CampaignType::CHEATER => OptimizerKind::Cheater,
            CampaignType::MEDIAN => OptimizerKind::Median,
            _ => OptimizerKind::MaximumMargin,
        }
    }

    /// The name of a campaign's bidding strategy, where its type has a bidder of
    /// its own: none for the max margin bidders with an additive or exponential
    /// supply boost, which are described by their valuer and optimizer.
    pub open spec fn bidding_label_of(self) -> Option<Seq<char>> {
        match self {
            CampaignType::MULTIPLICATIVE_PACING => Some("Multiplicative pacing"@),
            CampaignType::MULTIPLICATIVE_ADDITIVE => Some("Multiplicative additive"@),
            CampaignType::CHEATER => Some("Cheater - last look/2nd price"@),
            CampaignType::MAX_MARGIN => Some("Max margin bidding"@),
            CampaignType::MAX_MARGIN_DOUBLE_TARGET => Some("Max margin bidding (dual control)"@),
            CampaignType::MEDIAN => Some("ALB (Auction Level Bid)"@),
            _ => None,
        }
    }

    /// The valuer a campaign of this type bids with.
    pub fn valuer_kind(&self) -> (k: ValuerKind)
        ensures
            k == self.valuer_of(),
            (k == ValuerKind::MultiplicativeAdditiveSupply) == (*self == CampaignType::MULTIPLICATIVE_ADDITIVE
                || *self == CampaignType::MAX_MARGIN_ADDITIVE_SUPPLY),
            (k == ValuerKind::MultiplicativeExponentialSupply) == (*self == CampaignType::MAX_MARGIN_EXPONENTIAL_SUPPLY),
            (k == ValuerKind::DualTarget) == (*self == CampaignType::MAX_MARGIN_DOUBLE_TARGET),
            (k == ValuerKind::Multiplicative) == (*self == CampaignType::MULTIPLICATIVE_PACING
                || *self == CampaignType::CHEATER || *self == CampaignType::MAX_MARGIN || *self == CampaignType::MEDIAN),
    {
        match self {
            CampaignType::MULTIPLICATIVE_ADDITIVE | CampaignType::MAX_MARGIN_ADDITIVE_SUPPLY => ValuerKind::MultiplicativeAdditiveSupply,
            CampaignType::MAX_MARGIN_EXPONENTIAL_SUPPLY => ValuerKind::MultiplicativeExponentialSupply,
            CampaignType::MAX_MARGIN_DOUBLE_TARGET => ValuerKind::DualTarget,
            _ => ValuerKind::Multiplicative,
        }
    }

    /// The optimizer a campaign of this type bids with.
    pub fn optimizer_kind(&self) -> (k: OptimizerKind)
        ensures
            k == self.optimizer_of(),
            (k == OptimizerKind::Truthful) == (*self == CampaignType::MULTIPLICATIVE_PACING
                || *self == CampaignType::MULTIPLICATIVE_ADDITIVE),
            (k == OptimizerKind::MaximumMargin) == (*self == CampaignType::MAX_MARGIN
                || *self == CampaignType::MAX_MARGIN_ADDITIVE_SUPPLY || *self == CampaignType::MAX_MARGIN_EXPONENTIAL_SUPPLY
                || *self == CampaignType::MAX_MARGIN_DOUBLE_TARGET),
            (k == OptimizerKind::Cheater) == (*self == CampaignType::CHEATER),
            (k == OptimizerKind::Median) == (*self == CampaignType::MEDIAN),
    {
        match self {
            CampaignType::MULTIPLICATIVE_PACING | CampaignType::MULTIPLICATIVE_ADDITIVE => OptimizerKind::Truthful,
            CampaignType::CHEATER => OptimizerKind::Cheater,
            CampaignType::MEDIAN => OptimizerKind::Median,
            _ => OptimizerKind::MaximumMargin,
        }
    }

    /// The name of the bidding strategy of a campaign of this type, if it has one.
    pub fn bidding_label(&self) -> (r: Option<String>)
        ensures
            self.bidding_label_of() is None ==> r is None,
            self.bidding_label_of() matches Some(l) ==> r matches Some(s) && s@ == l,
    {
        match self {
            CampaignType::MULTIPLICATIVE_PACING => Some(CampaignBidderMultiplicative.get_bidding_type()),
            CampaignType::MULTIPLICATIVE_ADDITIVE => Some(CampaignBidderMultiplicativeAdditive.get_bidding_type()),
            CampaignType::CHEATER => Some(CampaignBidderCheaterLastLook.get_bidding_type()),
            CampaignType::MAX_MARGIN => Some(BidderMaxMargin.get_bidding_type()),
            CampaignType::MAX_MARGIN_DOUBLE_TARGET => Some(CampaignBidderDouble.get_bidding_type()),
            CampaignType::MEDIAN => Some(CampaignBidderALB.get_bidding_type()),
            _ => None,
        }
    }
}

/// The controller that moves a control variable (a campaign's pacing, a seller's
/// boost) towards its target between iterations of the simulation.
#[derive(Debug, Clone, Copy, PartialEq, Eq, Structural)]
pub enum ControllerKind {
    /// The control variable stays at this value (the bit pattern of an IEEE-754
    /// double, as in `ConvergeTarget`).
    Constant { value: u64 },
    /// Proportional-derivative control with the default gains.
    ProportionalDerivative,
    /// Proportional-derivative control with small steps (0.5% tolerance, at most
    /// 3% change, gains 0.03 and 0.015): the second target of a dual-target bidder.
    ProportionalDerivativeDamped,
}

/// The controller of a convergence target: a fixed pacing for `NONE`,
/// proportional-derivative control for every real target.
pub open spec fn target_controller(target: ConvergeTarget) -> ControllerKind {
    match target {
        ConvergeTarget::NONE { default_pacing } => ControllerKind::Constant { value: default_pacing },
        _ => ControllerKind::ProportionalDerivative,
    }
}

/// The controllers of a campaign, one per convergence target: the dual-target
/// bidder converges its two targets with the default and the damped controller,
/// the median bidder always converges its target, and every other type uses
/// the controller of its target.
pub open spec fn campaign_controllers_of(campaign_type: CampaignType, targets: Seq<ConvergeTarget>) -> Seq<ControllerKind> {
    if campaign_type == CampaignType::MAX_MARGIN_DOUBLE_TARGET {
        seq![ControllerKind::ProportionalDerivative, ControllerKind::ProportionalDerivativeDamped]
    } else if campaign_type == CampaignType::MEDIAN {
        seq![ControllerKind::ProportionalDerivative]
    } else {
        seq![target_controller(targets[0])]
    }
}

/// The controller of a convergence target.
pub fn controller_for_target(target: ConvergeTarget) -> (k: ControllerKind)
    ensures
        k == target_controller(target),
{
    match target {
        ConvergeTarget::NONE { default_pacing } => ControllerKind::Constant { value: default_pacing },
        _ => ControllerKind::ProportionalDerivative,
    }
}

/// The controllers a campaign of this type is built with, one per target.
pub fn campaign_controllers(campaign_type: CampaignType, converge_targets: &Vec<ConvergeTarget>) -> (ks: Vec<ControllerKind>)
    requires
        converge_targets@.len() == campaign_type.converge_target_count(),
    ensures
        ks@ == campaign_controllers_of(campaign_type, converge_targets@),
        ks@.len() == converge_targets@.len(),
{
    match campaign_type {
        CampaignType::MAX_MARGIN_DOUBLE_TARGET => {
            let ks = vec![ControllerKind::ProportionalDerivative, ControllerKind::ProportionalDerivativeDamped];
            assert(ks@ =~= campaign_controllers_of(campaign_type, converge_targets@));
            ks
        },
        CampaignType::MEDIAN => {
            let ks = vec![ControllerKind::ProportionalDerivative];
            assert(ks@ =~= campaign_controllers_of(campaign_type, converge_targets@));
            ks
        },
        _ => {
            let ks = vec![controller_for_target(converge_targets[0])];
            assert(ks@ =~= campaign_controllers_of(campaign_type, converge_targets@));
            ks
        },
    }
}

/// A campaign's pacing stays fixed exactly when it is not a median or
/// dual-target bidder and its target is `NONE`; a median bidder converges its
/// pacing whatever its target.
pub proof fn law_fixed_pacing_only_without_target(campaign_type: CampaignType, targets: Seq<ConvergeTarget>)
    requires
        targets.len() == campaign_type.converge_target_count(),
    ensures
        (exists|k: int| 0 <= k < targets.len() && #[trigger] campaign_controllers_of(campaign_type, targets)[k] is Constant)
            <==> (campaign_type != CampaignType::MEDIAN && campaign_type != CampaignType::MAX_MARGIN_DOUBLE_TARGET
                && targets[0] is NONE),
{
    let ks = campaign_controllers_of(campaign_type, targets);
    if campaign_type != CampaignType::MEDIAN && campaign_type != CampaignType::MAX_MARGIN_DOUBLE_TARGET && targets[0] is NONE {
        assert(ks[0] is Constant);
    }
}

/// How each campaign type bids: the two multiplicative types bid truthfully, every
/// max margin type (plain, with additive or exponential supply boost, dual
/// target) bids where the expected margin is largest, the cheater bids just
/// above the competition and the median bidder at the predicted offset. The
/// supply boost enters additively for the additive types, as an exponent for the
/// exponential one, and as a factor for the others; only the dual-target type
/// values with two control variables.
pub proof fn law_bidding_by_campaign_type(t: CampaignType)
    ensures
        (t.optimizer_of() == OptimizerKind::Truthful) == (t == CampaignType::MULTIPLICATIVE_PACING
            || t == CampaignType::MULTIPLICATIVE_ADDITIVE),
        (t.optimizer_of() == OptimizerKind::MaximumMargin) == (t == CampaignType::MAX_MARGIN
            || t == CampaignType::MAX_MARGIN_ADDITIVE_SUPPLY || t == CampaignType::MAX_MARGIN_EXPONENTIAL_SUPPLY
            || t == CampaignType::MAX_MARGIN_DOUBLE_TARGET),
        (t.optimizer_of() == OptimizerKind::Cheater) == (t == CampaignType::CHEATER),
        (t.optimizer_of() == OptimizerKind::Median) == (t == CampaignType::MEDIAN),
        (t.valuer_of() == ValuerKind::MultiplicativeAdditiveSupply) == (t == CampaignType::MULTIPLICATIVE_ADDITIVE
            || t == CampaignType::MAX_MARGIN_ADDITIVE_SUPPLY),
        (t.valuer_of() == ValuerKind::MultiplicativeExponentialSupply) == (t == CampaignType::MAX_MARGIN_EXPONENTIAL_SUPPLY),
        (t.valuer_of() == ValuerKind::DualTarget) == (t == CampaignType::MAX_MARGIN_DOUBLE_TARGET),
        (t.valuer_of() == ValuerKind::Multiplicative) == (t == CampaignType::MULTIPLICATIVE_PACING
            || t == CampaignType::CHEATER || t == CampaignType::MAX_MARGIN || t == CampaignType::MEDIAN),
{
}

/// Only the dual-target type takes two convergence targets, and gets two
/// controllers; every other type takes exactly one target and one controller.
pub proof fn law_one_target_except_dual(t: CampaignType, targets: Seq<ConvergeTarget>)
    ensures
        (t.converge_target_count() == 2) == (t == CampaignType::MAX_MARGIN_DOUBLE_TARGET),
        t != CampaignType::MAX_MARGIN_DOUBLE_TARGET ==> t.converge_target_count() == 1,
        campaign_controllers_of(t, targets).len() == t.converge_target_count(),
{
}

/// A registered campaign: its identifier, name, and how it bids and converges.
/// Campaigns added ready-made (`add_advanced`) have no type and no targets here.
pub struct CampaignEntry {
    pub campaign_id: usize,
    pub campaign_name: String,
    pub campaign_type: Option<CampaignType>,
    pub converge_targets: Vec<ConvergeTarget>,
}

/// Container for campaigns, their value groups and the campaign-to-group mapping.
///
/// Campaigns in one value group see the same value for each impression.
pub struct Campaigns {
    pub campaigns: Vec<CampaignEntry>,
    pub value_groups: Vec<Vec<usize>>,
    pub campaign_to_value_group_mapping: Vec<usize>,
}

/// Whether some group holds campaign `c`.
pub open spec fn in_some_group(groups: Seq<Seq<usize>>, c: usize) -> bool {
    exists|g: int| 0 <= g < groups.len() && #[trigger] groups[g].contains(c)
}

/// Every member of every group is a campaign identifier below `n`.
pub open spec fn members_below(groups: Seq<Seq<usize>>, n: nat) -> bool {
    forall|g: int, k: int| 0 <= g < groups.len() && 0 <= k < groups[g].len() ==> #[trigger] groups[g][k] < n
}

/// No campaign is in two different groups.
pub open spec fn groups_disjoint(groups: Seq<Seq<usize>>) -> bool {
    forall|g1: int, g2: int, c: usize|
        0 <= g1 < groups.len() && 0 <= g2 < groups.len() && g1 != g2 && #[trigger] groups[g1].contains(c)
            ==> !#[trigger] groups[g2].contains(c)
}

/// Index of the last group holding campaign `c`, or -1 when no group holds it.
pub open spec fn last_group_of(groups: Seq<Seq<usize>>, c: usize) -> int
    decreases groups.len(),
{
    if groups.len() == 0 {
        -1
    } else if groups.last().contains(c) {
        groups.len() - 1
    } else {
        last_group_of(groups.drop_last(), c)
    }
}

/// Campaigns below `n` that no group holds, in increasing order.
pub open spec fn ungrouped(groups: Seq<Seq<usize>>, n: nat) -> Seq<usize>
    decreases n,
{
    if n == 0 {
        Seq::empty()
    } else {
        let earlier = ungrouped(groups, (n - 1) as nat);
        if in_some_group(groups, (n - 1) as usize) {
            earlier
        } else {
            earlier.push((n - 1) as usize)
        }
    }
}

/// The groups after finalizing: the groups as they were, then one group of its own
/// for each campaign below `n` that no group holds, in increasing order.
pub open spec fn finalized_groups(groups: Seq<Seq<usize>>, n: nat) -> Seq<Seq<usize>> {
    groups + ungrouped(groups, n).map_values(|c: usize| seq![c])
}

/// The group a campaign is mapped to after finalizing: the last group holding it,
/// or else the group of its own that finalizing appends for it.
pub open spec fn finalized_group_of(groups: Seq<Seq<usize>>, c: usize) -> int {
    if last_group_of(groups, c) >= 0 {
        last_group_of(groups, c)
    } else {
        (groups.len() + ungrouped(groups, c as nat).len()) as int
    }
}

impl Campaigns {
    /// The value groups as sequences of campaign identifiers.
    pub open spec fn groups(&self) -> Seq<Seq<usize>> {
        self.value_groups@.map_values(|g: Vec<usize>| g@)
    }

    /// Create an empty container.
    pub fn new() -> (r: Self)
        ensures
            r.campaigns@.len() == 0,
            r.groups() == Seq::<Seq<usize>>::empty(),
            r.campaign_to_value_group_mapping@.len() == 0,
    {
        let r = Campaigns { campaigns: Vec::new(), value_groups: Vec::new(), campaign_to_value_group_mapping: Vec::new() };
        assert(r.groups() =~= Seq::<Seq<usize>>::empty());
        r
    }

    /// Add a campaign and return its identifier, which is its position.
    ///
    /// A campaign of type `MAX_MARGIN_DOUBLE_TARGET` is built from exactly two
    /// convergence targets, one of any other type from exactly one.
    pub fn add(&mut self, campaign_name: String, campaign_type: CampaignType, converge_targets: Vec<ConvergeTarget>) -> (campaign_id: usize)
        requires
            converge_targets@.len() == campaign_type.converge_target_count(),
        ensures
            campaign_id == old(self).campaigns@.len(),
            final(self).campaigns@.len() == old(self).campaigns@.len() + 1,
            forall|k: int| 0 <= k < campaign_id ==> #[trigger] final(self).campaigns@[k] == old(self).campaigns@[k],
            final(self).campaigns@[campaign_id as int].campaign_id == campaign_id,
            final(self).campaigns@[campaign_id as int].campaign_name@ == campaign_name@,
            final(self).campaigns@[campaign_id as int].campaign_type == Some(campaign_type),
            final(self).campaigns@[campaign_id as int].converge_targets@ == converge_targets@,
            final(self).value_groups@ == old(self).value_groups@,
            final(self).campaign_to_value_group_mapping@ == old(self).campaign_to_value_group_mapping@,
    {
        let campaign_id = self.campaigns.len();
        self.campaigns.push(CampaignEntry {
            campaign_id,
            campaign_name,
            campaign_type: Some(campaign_type),
            converge_targets,
        });
        campaign_id
    }

    /// Add a ready-made campaign, known here by its name, and return its identifier.
    pub fn add_advanced(&mut self, campaign_name: String) -> (campaign_id: usize)
        ensures
            campaign_id == old(self).campaigns@.len(),
            final(self).campaigns@.len() == old(self).campaigns@.len() + 1,
            forall|k: int| 0 <= k < campaign_id ==> #[trigger] final(self).campaigns@[k] == old(self).campaigns@[k],
            final(self).campaigns@[campaign_id as int].campaign_id == campaign_id,
            final(self).campaigns@[campaign_id as int].campaign_name@ == campaign_name@,
            final(self).campaigns@[campaign_id as int].campaign_type == None::<CampaignType>,
            final(self).campaigns@[campaign_id as int].converge_targets@.len() == 0,
            final(self).value_groups@ == old(self).value_groups@,
            final(self).campaign_to_value_group_mapping@ == old(self).campaign_to_value_group_mapping@,
    {
        let campaign_id = self.campaigns.len();
        self.campaigns.push(CampaignEntry {
            campaign_id,
            campaign_name,
            campaign_type: None,
            converge_targets: Vec::new(),
        });
        campaign_id
    }
}

/// Why campaigns cannot form a value group.
#[derive(Debug, Clone, Copy, PartialEq, Eq, Structural)]
pub enum ValueGroupError {
    /// The identifier is not that of a campaign (there are `num_campaigns`).
    InvalidCampaignId { campaign_id: usize, num_campaigns: usize },
    /// The campaign already is in a value group.
    AlreadyGrouped { campaign_id: usize },
}

impl ValueGroupError {
    /// The message the program stops with.
    pub fn message(&self) -> (m: String)
        ensures
            self matches ValueGroupError::InvalidCampaignId { campaign_id, num_campaigns } ==> m@ == "Invalid campaign_id "@
                + decimal(campaign_id as nat) + ": must be between 0 and "@ + decimal(num_campaigns as nat)
                + " (num_campaigns)"@,
            self matches ValueGroupError::AlreadyGrouped { campaign_id } ==> m@ == "Campaign "@ + decimal(campaign_id as nat)
                + " is already in a value group. Cannot add it to another group."@,
    {
        match self {
            ValueGroupError::InvalidCampaignId { campaign_id, num_campaigns } => {
                let mut m = String::from_str("Invalid campaign_id ");
                push_decimal(&mut m, *campaign_id as u64);
                m.append(": must be between 0 and ");
                push_decimal(&mut m, *num_campaigns as u64);
                m.append(" (num_campaigns)");
                m
            },
            ValueGroupError::AlreadyGrouped { campaign_id } => {
                let mut m = String::from_str("Campaign ");
                push_decimal(&mut m, *campaign_id as u64);
                m.append(" is already in a value group. Cannot add it to another group.");
                m
            },
        }
    }
}

/// Whether group `g` holds campaign `c`.
fn group_contains(group: &Vec<usize>, c: usize) -> (b: bool)
    ensures
        b == group@.contains(c),
{
    let mut i: usize = 0;
    while i < group.len()
        invariant
            i <= group.len(),
            forall|k: int| 0 <= k < i ==> group@[k] != c,
        decreases group.len() - i,
    {
        if group[i] == c {
            return true;
        }
        i = i + 1;
    }
    false
}

impl Campaigns {
    /// Whether some value group holds campaign `c`.
    pub fn is_grouped(&self, c: usize) -> (b: bool)
        ensures
            b == in_some_group(self.groups(), c),
    {
        let ghost groups = self.groups();
        let mut g: usize = 0;
        while g < self.value_groups.len()
            invariant
                groups == self.groups(),
                g <= self.value_groups@.len(),
                forall|j: int| 0 <= j < g ==> !(#[trigger] groups[j]).contains(c),
            decreases self.value_groups@.len() - g,
        {
            if group_contains(&self.value_groups[g], c) {
                assert(groups[g as int].contains(c));
                return true;
            }
            g = g + 1;
        }
        false
    }

    /// Check that the campaigns can form a value group: every identifier must be
    /// a campaign's (the first one that is not is reported), then no campaign may
    /// already be in a group (the first one that is, is reported).
    pub fn check_value_group(&self, campaign_ids: &Vec<usize>) -> (r: Result<(), ValueGroupError>)
        ensures
            r is Ok <==> (forall|k: int| 0 <= k < campaign_ids@.len() ==> #[trigger] campaign_ids@[k] < self.campaigns@.len())
                && (forall|k: int| 0 <= k < campaign_ids@.len() ==> !in_some_group(self.groups(), #[trigger] campaign_ids@[k])),
            r matches Err(ValueGroupError::InvalidCampaignId { campaign_id, num_campaigns }) ==> {
                &&& num_campaigns == self.campaigns@.len()
                &&& exists|k: int| 0 <= k < campaign_ids@.len() && campaign_ids@[k] == campaign_id && campaign_id >= num_campaigns
                    && forall|j: int| 0 <= j < k ==> #[trigger] campaign_ids@[j] < num_campaigns
            },
            r matches Err(ValueGroupError::AlreadyGrouped { campaign_id }) ==> {
                &&& forall|k: int| 0 <= k < campaign_ids@.len() ==> #[trigger] campaign_ids@[k] < self.campaigns@.len()
                &&& exists|k: int| 0 <= k < campaign_ids@.len() && campaign_ids@[k] == campaign_id
                    && in_some_group(self.groups(), campaign_id)
                    && forall|j: int| 0 <= j < k ==> !in_some_group(self.groups(), #[trigger] campaign_ids@[j])
            },
    {
        let num_campaigns = self.campaigns.len();
        let mut i: usize = 0;
        while i < campaign_ids.len()
            invariant
                num_campaigns == self.campaigns@.len(),
                i <= campaign_ids@.len(),
                forall|j: int| 0 <= j < i ==> #[trigger] campaign_ids@[j] < num_campaigns,
            decreases campaign_ids@.len() - i,
        {
            if campaign_ids[i] >= num_campaigns {
                return Err(ValueGroupError::InvalidCampaignId { campaign_id: campaign_ids[i], num_campaigns });
            }
            i = i + 1;
        }
        let mut i: usize = 0;
        while i < campaign_ids.len()
            invariant
                num_campaigns == self.campaigns@.len(),
                i <= campaign_ids@.len(),
                forall|j: int| 0 <= j < campaign_ids@.len() ==> #[trigger] campaign_ids@[j] < num_campaigns,
                forall|j: int| 0 <= j < i ==> !in_some_group(self.groups(), #[trigger] campaign_ids@[j]),
            decreases campaign_ids@.len() - i,
        {
            if self.is_grouped(campaign_ids[i]) {
                return Err(ValueGroupError::AlreadyGrouped { campaign_id: campaign_ids[i] });
            }
            i = i + 1;
        }
        Ok(())
    }

    /// Create a value group from the given campaign identifiers.
    ///
    /// Each identifier must be that of a campaign, and no campaign may already be
    /// in a value group.
    pub fn create_value_group(&mut self, campaign_ids: Vec<usize>)
        requires
            forall|k: int| 0 <= k < campaign_ids@.len() ==> #[trigger] campaign_ids@[k] < old(self).campaigns@.len(),
            forall|k: int| 0 <= k < campaign_ids@.len() ==> !in_some_group(old(self).groups(), #[trigger] campaign_ids@[k]),
        ensures
            final(self).groups() == old(self).groups().push(campaign_ids@),
            final(self).campaigns@ == old(self).campaigns@,
            final(self).campaign_to_value_group_mapping@ == old(self).campaign_to_value_group_mapping@,
    {
        let ghost before = self.groups();
        self.value_groups.push(campaign_ids);
        assert(self.groups() =~= before.push(self.value_groups@.last()@));
    }

    /// Give every campaign its value group: a campaign in a group is mapped to that
    /// group (the last one, should it be in several); each campaign in no group gets
    /// a new group holding just itself, appended in increasing campaign order.
    pub fn finalize_groups(&mut self)
        requires
            members_below(old(self).groups(), old(self).campaigns@.len() as nat),
        ensures
            final(self).campaigns@ == old(self).campaigns@,
            final(self).groups() == finalized_groups(old(self).groups(), old(self).campaigns@.len() as nat),
            final(self).campaign_to_value_group_mapping@.len() == old(self).campaigns@.len(),
            forall|c: int| 0 <= c < old(self).campaigns@.len() ==>
                #[trigger] final(self).campaign_to_value_group_mapping@[c] == finalized_group_of(old(self).groups(), c as usize),
    {
        let num_campaigns = self.campaigns.len();
        let ghost groups = self.groups();
        let ghost entries = self.campaigns@;
        let mut mapping: Vec<usize> = vec![usize::MAX; num_campaigns];

        // First pass: campaigns in a group take that group's index.
        let num_groups = self.value_groups.len();
        let mut g: usize = 0;
        while g < num_groups
            invariant
                num_groups == self.value_groups@.len(),
                groups == self.groups(),
                entries == self.campaigns@,
                num_campaigns == self.campaigns@.len(),
                members_below(groups, num_campaigns as nat),
                g <= num_groups,
                mapping@.len() == num_campaigns,
                forall|c: int| 0 <= c < num_campaigns ==> #[trigger] mapping@[c] == group_index(last_group_of(groups.take(g as int), c as usize)),
            decreases num_groups - g,
        {
            let members = &self.value_groups[g];
            assert(members@ == groups[g as int]);
            let m = members.len();
            let mut k: usize = 0;
            proof {
                let start = groups.take(g as int).push(groups[g as int].take(0));
                assert(start.drop_last() =~= groups.take(g as int));
                assert(!start.last().contains(0usize) && forall|c: usize| !start.last().contains(c));
            }
            while k < m
                invariant
                    members@ == groups[g as int],
                    m == members@.len(),
                    g < num_groups,
                    num_groups == groups.len(),
                    num_campaigns == self.campaigns@.len(),
                    members_below(groups, num_campaigns as nat),
                    k <= m,
                    mapping@.len() == num_campaigns,
                    forall|c: int| 0 <= c < num_campaigns ==> #[trigger] mapping@[c] == group_index(
                        last_group_of(groups.take(g as int).push(groups[g as int].take(k as int)), c as usize)),
                decreases m - k,
            {
                let campaign_id = members[k];
                assert(groups[g as int][k as int] == campaign_id);
                mapping.set(campaign_id, g);
                proof {
                    let before = groups.take(g as int).push(groups[g as int].take(k as int));
                    let after = groups.take(g as int).push(groups[g as int].take(k + 1));
                    assert(groups[g as int].take(k + 1) =~= groups[g as int].take(k as int).push(campaign_id));
                    assert(after.drop_last() =~= before.drop_last());
                    assert forall|c: int| 0 <= c < num_campaigns implies #[trigger] mapping@[c] == group_index(last_group_of(after, c as usize)) by {
                        assert(after.last() == groups[g as int].take(k + 1));
                        assert(before.last() == groups[g as int].take(k as int));
                        if c == campaign_id {
                            assert(after.last()[k as int] == campaign_id);
                        } else {
                            assert(after.last().contains(c as usize) == before.last().contains(c as usize)) by {
                                if after.last().contains(c as usize) {
                                    let j = choose|j: int| 0 <= j < after.last().len() && after.last()[j] == c as usize;
                                    assert(before.last()[j] == c as usize);
                                }
                                if before.last().contains(c as usize) {
                                    let j = choose|j: int| 0 <= j < before.last().len() && before.last()[j] == c as usize;
                                    assert(after.last()[j] == c as usize);
                                }
                            }
                        }
                    }
                }
                k = k + 1;
            }
            proof {
                assert(groups[g as int].take(m as int) =~= groups[g as int]);
                assert(groups.take(g as int).push(groups[g as int]) =~= groups.take(g + 1));
            }
            g = g + 1;
        }
        assert(groups.take(num_groups as int) =~= groups);

        // Second pass: each campaign in no group gets a group of its own.
        let mut c: usize = 0;
        while c < num_campaigns
            invariant
                num_campaigns == self.campaigns@.len(),
                entries == self.campaigns@,
                num_groups == groups.len(),
                members_below(groups, num_campaigns as nat),
                c <= num_campaigns,
                mapping@.len() == num_campaigns,
                self.groups() == groups + ungrouped(groups, c as nat).map_values(|x: usize| seq![x]),
                forall|x: int| 0 <= x < c ==> #[trigger] mapping@[x] == finalized_group_of(groups, x as usize),
                forall|x: int| c <= x < num_campaigns ==> #[trigger] mapping@[x] == group_index(last_group_of(groups, x as usize)),
            decreases num_campaigns - c,
        {
            proof {
                lemma_last_group_of(groups, c);
            }
            if mapping[c] == usize::MAX {
                let ghost before = self.groups();
                self.value_groups.push(vec![c]);
                assert(self.value_groups@.last()@ =~= seq![c]);
                assert(self.groups() =~= before.push(seq![c]));
                assert(ungrouped(groups, (c + 1) as nat) =~= ungrouped(groups, c as nat).push(c));
                assert(self.groups() =~= groups + ungrouped(groups, (c + 1) as nat).map_values(|x: usize| seq![x]));
                mapping.set(c, self.value_groups.len() - 1);
            } else {
                assert(ungrouped(groups, (c + 1) as nat) =~= ungrouped(groups, c as nat));
            }
            c = c + 1;
        }
        self.campaign_to_value_group_mapping = mapping;
    }
}

/// A group index as the first pass stores it: `usize::MAX` stands for "no group".
pub open spec fn group_index(g: int) -> usize {
    if g < 0 {
        usize::MAX
    } else {
        g as usize
    }
}

/// The last group holding a campaign does hold it, and there is one exactly when
/// some group holds the campaign.
pub proof fn lemma_last_group_of(groups: Seq<Seq<usize>>, c: usize)
    ensures
        -1 <= last_group_of(groups, c) < groups.len(),
        last_group_of(groups, c) >= 0 ==> groups[last_group_of(groups, c)].contains(c),
        (last_group_of(groups, c) >= 0) == in_some_group(groups, c),
        forall|g: int| last_group_of(groups, c) < g < groups.len() ==> !(#[trigger] groups[g]).contains(c),
    decreases groups.len(),
{
    if groups.len() > 0 {
        let rest = groups.drop_last();
        lemma_last_group_of(rest, c);
        if !groups.last().contains(c) {
            if in_some_group(groups, c) {
                let g = choose|g: int| 0 <= g < groups.len() && #[trigger] groups[g].contains(c);
                assert(rest[g] == groups[g]);
            }
            if last_group_of(rest, c) >= 0 {
                assert(rest[last_group_of(rest, c)] == groups[last_group_of(rest, c)]);
            }
            assert forall|g: int| last_group_of(groups, c) < g < groups.len() implies !(#[trigger] groups[g]).contains(c) by {
                if g < groups.len() - 1 {
                    assert(rest[g] == groups[g]);
                }
            }
        } else {
            assert(groups[groups.len() - 1] == groups.last());
        }
    }
}

/// The campaigns below `n` in no group: each is below `n` and in no group, they
/// increase strictly, and every such campaign is among them.
pub proof fn lemma_ungrouped(groups: Seq<Seq<usize>>, n: nat)
    requires
        n <= usize::MAX,
    ensures
        forall|i: int| 0 <= i < ungrouped(groups, n).len() ==> #[trigger] ungrouped(groups, n)[i] < n
            && !in_some_group(groups, ungrouped(groups, n)[i]),
        forall|a: int, b: int| 0 <= a < b < ungrouped(groups, n).len() ==> ungrouped(groups, n)[a] < ungrouped(groups, n)[b],
        forall|x: usize| x < n && !in_some_group(groups, x) ==> #[trigger] ungrouped(groups, n).contains(x),
    decreases n,
{
    if n > 0 {
        lemma_ungrouped(groups, (n - 1) as nat);
        let earlier = ungrouped(groups, (n - 1) as nat);
        let all = ungrouped(groups, n);
        assert forall|a: int, b: int| 0 <= a < b < all.len() implies all[a] < all[b] by {
            if in_some_group(groups, (n - 1) as usize) {
                assert(all == earlier);
                assert(earlier[a] < earlier[b]);
            } else {
                assert(all == earlier.push((n - 1) as usize));
                if b < earlier.len() {
                    assert(all[a] == earlier[a] && all[b] == earlier[b]);
                    assert(earlier[a] < earlier[b]);
                } else {
                    assert(all[a] == earlier[a]);
                    assert(earlier[a] < n - 1);
                    assert(all[b] == (n - 1) as usize);
                }
            }
        }
        assert forall|x: usize| x < n && !in_some_group(groups, x) implies #[trigger] all.contains(x) by {
            if x < n - 1 {
                assert(earlier.contains(x));
                let i = choose|i: int| 0 <= i < earlier.len() && earlier[i] == x;
                assert(all[i] == x);
            } else {
                assert(all[all.len() - 1] == x);
            }
        }
    }
}

/// The campaigns below `m` in no group come first among those below `n >= m`.
pub proof fn lemma_ungrouped_prefix(groups: Seq<Seq<usize>>, m: nat, n: nat)
    requires
        m <= n,
    ensures
        ungrouped(groups, m).len() <= ungrouped(groups, n).len(),
        forall|i: int| 0 <= i < ungrouped(groups, m).len() ==> #[trigger] ungrouped(groups, n)[i] == ungrouped(groups, m)[i],
    decreases n - m,
{
    if m < n {
        lemma_ungrouped_prefix(groups, m, (n - 1) as nat);
    }
}

/// Finalizing puts every campaign below `n` in exactly one group when no campaign
/// was in two groups: the group it is mapped to. The finalized groups hold only
/// campaigns below `n`, and still no campaign in two groups.
pub proof fn law_finalize_partitions_campaigns(groups: Seq<Seq<usize>>, n: nat)
    requires
        n <= usize::MAX,
        members_below(groups, n),
        groups_disjoint(groups),
    ensures
        members_below(finalized_groups(groups, n), n),
        groups_disjoint(finalized_groups(groups, n)),
        forall|c: usize| c < n ==> 0 <= #[trigger] finalized_group_of(groups, c) < finalized_groups(groups, n).len()
            && finalized_groups(groups, n)[finalized_group_of(groups, c)].contains(c),
        forall|c: usize, g: int| c < n && 0 <= g < finalized_groups(groups, n).len()
            && #[trigger] finalized_groups(groups, n)[g].contains(c) ==> g == finalized_group_of(groups, c),
{
    lemma_finalized_groups_cover(groups, n);
    let f = finalized_groups(groups, n);
    let u = ungrouped(groups, n);
    lemma_ungrouped(groups, n);
    assert forall|g: int, k: int| 0 <= g < f.len() && 0 <= k < f[g].len() implies #[trigger] f[g][k] < n by {
        if g >= groups.len() {
            assert(f[g] == seq![u[g - groups.len()]]);
        }
    }
    assert forall|c: usize, g: int| c < n && 0 <= g < f.len() && #[trigger] f[g].contains(c)
        implies g == finalized_group_of(groups, c) by {
        lemma_single_group(groups, n, c, g);
    }
    assert forall|g1: int, g2: int, c: usize|
        0 <= g1 < f.len() && 0 <= g2 < f.len() && g1 != g2 && #[trigger] f[g1].contains(c)
        implies !#[trigger] f[g2].contains(c) by {
        let k = choose|k: int| 0 <= k < f[g1].len() && f[g1][k] == c;
        assert(f[g1][k] < n);
        if f[g2].contains(c) {
            lemma_single_group(groups, n, c, g1);
            lemma_single_group(groups, n, c, g2);
        }
    }
}

/// Every campaign below `n` is in the finalized group it is mapped to.
proof fn lemma_finalized_groups_cover(groups: Seq<Seq<usize>>, n: nat)
    ensures
        forall|c: usize| c < n ==> 0 <= #[trigger] finalized_group_of(groups, c) < finalized_groups(groups, n).len()
            && finalized_groups(groups, n)[finalized_group_of(groups, c)].contains(c),
{
    let f = finalized_groups(groups, n);
    let u = ungrouped(groups, n);
    assert forall|c: usize| c < n implies 0 <= #[trigger] finalized_group_of(groups, c) < f.len()
        && f[finalized_group_of(groups, c)].contains(c) by {
        lemma_last_group_of(groups, c);
        if last_group_of(groups, c) < 0 {
            lemma_ungrouped_prefix(groups, (c + 1) as nat, n);
            assert(ungrouped(groups, (c + 1) as nat) == ungrouped(groups, c as nat).push(c));
            let i = ungrouped(groups, c as nat).len() as int;
            assert(u[i] == c);
            assert(f[groups.len() + i] == seq![c]);
            assert(seq![c][0] == c);
        }
    }
}

/// When no campaign is in two groups, a finalized group holding campaign `c < n`
/// is the group `c` is mapped to.
proof fn lemma_single_group(groups: Seq<Seq<usize>>, n: nat, c: usize, g: int)
    requires
        n <= usize::MAX,
        groups_disjoint(groups),
        c < n,
        0 <= g < finalized_groups(groups, n).len(),
        finalized_groups(groups, n)[g].contains(c),
    ensures
        g == finalized_group_of(groups, c),
{
    let f = finalized_groups(groups, n);
    let u = ungrouped(groups, n);
    lemma_ungrouped(groups, n);
    lemma_last_group_of(groups, c);
    if g < groups.len() {
        assert(f[g] == groups[g]);
        assert(in_some_group(groups, c));
        let lg = last_group_of(groups, c);
        if lg != g {
            assert(groups[lg].contains(c));
        }
    } else {
        let i = g - groups.len();
        assert(f[g] == seq![u[i]]);
        assert(u[i] == c);
        assert(!in_some_group(groups, c));
        lemma_ungrouped_prefix(groups, (c + 1) as nat, n);
        assert(ungrouped(groups, (c + 1) as nat) == ungrouped(groups, c as nat).push(c));
        let j = ungrouped(groups, c as nat).len() as int;
        assert(u[j] == c);
        if i < j {
            assert(u[i] < u[j]);
        } else if j < i {
            assert(u[j] < u[i]);
        }
    }
}

/// Finalizing twice gives what finalizing once gives: the groups stay as they are,
/// and every campaign keeps its group.
pub proof fn law_finalize_idempotent(groups: Seq<Seq<usize>>, n: nat)
    requires
        n <= usize::MAX,
        members_below(groups, n),
        groups_disjoint(groups),
    ensures
        finalized_groups(finalized_groups(groups, n), n) == finalized_groups(groups, n),
        forall|c: usize| c < n ==> #[trigger] finalized_group_of(finalized_groups(groups, n), c)
            == finalized_group_of(groups, c),
{
    let f = finalized_groups(groups, n);
    law_finalize_partitions_campaigns(groups, n);
    lemma_ungrouped(f, n);
    if ungrouped(f, n).len() > 0 {
        let x = ungrouped(f, n)[0];
        assert(f[finalized_group_of(groups, x)].contains(x));
    }
    assert(ungrouped(f, n).map_values(|c: usize| seq![c]) =~= Seq::<Seq<usize>>::empty());
    assert(finalized_groups(f, n) =~= f);
    assert forall|c: usize| c < n implies #[trigger] finalized_group_of(f, c) == finalized_group_of(groups, c) by {
        lemma_last_group_of(f, c);
        let fg = finalized_group_of(groups, c);
        assert(f[fg].contains(c));
        assert(in_some_group(f, c));
    }
}

/// Campaigns put in one value group are mapped to that group when the groups are
/// finalized, so each impression has the same value to all of them.
pub proof fn law_grouped_campaigns_share_their_value(groups: Seq<Seq<usize>>, n: nat, g: int, c1: usize, c2: usize)
    requires
        n <= usize::MAX,
        members_below(groups, n),
        groups_disjoint(groups),
        0 <= g < groups.len(),
        groups[g].contains(c1),
        groups[g].contains(c2),
    ensures
        finalized_group_of(groups, c1) == g,
        finalized_group_of(groups, c2) == g,
{
    law_finalize_partitions_campaigns(groups, n);
    let f = finalized_groups(groups, n);
    let k1 = choose|k: int| 0 <= k < groups[g].len() && groups[g][k] == c1;
    let k2 = choose|k: int| 0 <= k < groups[g].len() && groups[g][k] == c2;
    assert(groups[g][k1] < n);
    assert(groups[g][k2] < n);
    assert(f[g] == groups[g]);
    assert(f[g].contains(c1));
    assert(f[g].contains(c2));
}

/// A campaign that no value group holds is alone in the group it is mapped to.
pub proof fn law_ungrouped_campaign_is_alone(groups: Seq<Seq<usize>>, n: nat, c: usize)
    requires
        n <= usize::MAX,
        members_below(groups, n),
        groups_disjoint(groups),
        c < n,
        !in_some_group(groups, c),
    ensures
        finalized_groups(groups, n)[finalized_group_of(groups, c)] == seq![c],
        finalized_group_of(groups, c) >= groups.len(),
{
    law_finalize_partitions_campaigns(groups, n);
    lemma_last_group_of(groups, c);
    lemma_ungrouped(groups, n);
    lemma_ungrouped(groups, c as nat);
    lemma_ungrouped_prefix(groups, c as nat, n);
    lemma_ungrouped_prefix(groups, (c + 1) as nat, n);
    let u = ungrouped(groups, n);
    let i = ungrouped(groups, c as nat).len() as int;
    assert(ungrouped(groups, (c + 1) as nat) == ungrouped(groups, c as nat).push(c));
    assert(u[i] == c);
    assert(finalized_groups(groups, n)[groups.len() + i] == seq![u[i]]);
}

/// Creating a value group from campaigns that are in no group keeps every
/// campaign in at most one group.
pub proof fn law_create_group_keeps_groups_disjoint(groups: Seq<Seq<usize>>, campaign_ids: Seq<usize>)
    requires
        groups_disjoint(groups),
        forall|k: int| 0 <= k < campaign_ids.len() ==> !in_some_group(groups, #[trigger] campaign_ids[k]),
    ensures
        groups_disjoint(groups.push(campaign_ids)),
{
    let after = groups.push(campaign_ids);
    assert forall|g1: int, g2: int, c: usize|
        0 <= g1 < after.len() && 0 <= g2 < after.len() && g1 != g2 && #[trigger] after[g1].contains(c)
        implies !#[trigger] after[g2].contains(c) by {
        if g1 == groups.len() {
            let k = choose|k: int| 0 <= k < campaign_ids.len() && campaign_ids[k] == c;
            assert(!in_some_group(groups, campaign_ids[k]));
            assert(after[g2] == groups[g2]);
        } else if g2 == groups.len() {
            assert(after[g1] == groups[g1]);
            if after[g2].contains(c) {
                let k = choose|k: int| 0 <= k < campaign_ids.len() && campaign_ids[k] == c;
                assert(!in_some_group(groups, campaign_ids[k]));
            }
        } else {
            assert(after[g1] == groups[g1]);
            assert(after[g2] == groups[g2]);
        }
    }
}

} // verus!
