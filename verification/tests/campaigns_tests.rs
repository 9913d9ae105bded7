use marrakesh::campaigns::{campaign_controllers, controller_for_target, ControllerKind};
use marrakesh::campaigns::{CampaignType, Campaigns, ConvergeTarget, OptimizerKind, ValueGroupError, ValuerKind};

fn none_target() -> Vec<ConvergeTarget> {
    vec![ConvergeTarget::NONE { default_pacing: 1.0f64.to_bits() }]
}

#[test]
fn test_create_value_group_success() {
    let mut campaigns = Campaigns::new();

    campaigns.add("Campaign 0".to_string(), CampaignType::MULTIPLICATIVE_PACING, none_target());
    campaigns.add("Campaign 1".to_string(), CampaignType::MULTIPLICATIVE_PACING, none_target());
    campaigns.add("Campaign 2".to_string(), CampaignType::MULTIPLICATIVE_PACING, none_target());

    campaigns.create_value_group(vec![0, 1]);

    assert_eq!(campaigns.value_groups.len(), 1);
    assert_eq!(campaigns.value_groups[0], vec![0, 1]);
}

#[test]
fn test_create_value_group_multiple_groups() {
    let mut campaigns = Campaigns::new();
    for i in 0..5 {
        campaigns.add(format!("Campaign {}", i), CampaignType::MULTIPLICATIVE_PACING, none_target());
    }
    campaigns.create_value_group(vec![0, 1]);
    campaigns.create_value_group(vec![2, 3]);

    assert_eq!(campaigns.value_groups.len(), 2);
    assert_eq!(campaigns.value_groups[0], vec![0, 1]);
    assert_eq!(campaigns.value_groups[1], vec![2, 3]);
}

#[test]
fn test_finalize_groups_with_grouped_campaigns() {
    let mut campaigns = Campaigns::new();
    for i in 0..4 {
        campaigns.add(format!("Campaign {}", i), CampaignType::MULTIPLICATIVE_PACING, none_target());
    }
    campaigns.create_value_group(vec![0, 1]);
    campaigns.create_value_group(vec![2]);
    campaigns.finalize_groups();

    assert_eq!(campaigns.campaign_to_value_group_mapping.len(), 4);
    assert_eq!(campaigns.campaign_to_value_group_mapping[0], 0);
    assert_eq!(campaigns.campaign_to_value_group_mapping[1], 0);
    assert_eq!(campaigns.campaign_to_value_group_mapping[2], 1);
    assert_eq!(campaigns.campaign_to_value_group_mapping[3], 2);
}

#[test]
fn test_finalize_groups_with_no_groups() {
    let mut campaigns = Campaigns::new();
    for i in 0..3 {
        campaigns.add(format!("Campaign {}", i), CampaignType::MULTIPLICATIVE_PACING, none_target());
    }
    campaigns.finalize_groups();

    assert_eq!(campaigns.campaign_to_value_group_mapping.len(), 3);
    assert_eq!(campaigns.campaign_to_value_group_mapping[0], 0);
    assert_eq!(campaigns.campaign_to_value_group_mapping[1], 1);
    assert_eq!(campaigns.campaign_to_value_group_mapping[2], 2);

    assert_eq!(campaigns.value_groups.len(), 3);
    assert_eq!(campaigns.value_groups[0], vec![0]);
    assert_eq!(campaigns.value_groups[1], vec![1]);
    assert_eq!(campaigns.value_groups[2], vec![2]);
}

#[test]
fn test_finalize_groups_mixed() {
    let mut campaigns = Campaigns::new();
    for i in 0..6 {
        campaigns.add(format!("Campaign {}", i), CampaignType::MULTIPLICATIVE_PACING, none_target());
    }
    campaigns.create_value_group(vec![0, 1]);
    campaigns.create_value_group(vec![2, 3]);
    campaigns.finalize_groups();

    assert_eq!(campaigns.campaign_to_value_group_mapping.len(), 6);
    assert_eq!(campaigns.campaign_to_value_group_mapping[0], 0);
    assert_eq!(campaigns.campaign_to_value_group_mapping[1], 0);
    assert_eq!(campaigns.campaign_to_value_group_mapping[2], 1);
    assert_eq!(campaigns.campaign_to_value_group_mapping[3], 1);
    assert_eq!(campaigns.campaign_to_value_group_mapping[4], 2);
    assert_eq!(campaigns.campaign_to_value_group_mapping[5], 3);

    assert_eq!(campaigns.value_groups.len(), 4);
    assert_eq!(campaigns.value_groups[0], vec![0, 1]);
    assert_eq!(campaigns.value_groups[1], vec![2, 3]);
    assert_eq!(campaigns.value_groups[2], vec![4]);
    assert_eq!(campaigns.value_groups[3], vec![5]);
}

#[test]
fn test_finalize_groups_empty_campaigns() {
    let mut campaigns = Campaigns::new();
    campaigns.finalize_groups();
    assert_eq!(campaigns.campaign_to_value_group_mapping.len(), 0);
}

#[test]
fn test_finalize_groups_single_campaign_in_group() {
    let mut campaigns = Campaigns::new();
    for i in 0..3 {
        campaigns.add(format!("Campaign {}", i), CampaignType::MULTIPLICATIVE_PACING, none_target());
    }
    campaigns.create_value_group(vec![1]);
    campaigns.finalize_groups();

    assert_eq!(campaigns.campaign_to_value_group_mapping.len(), 3);
    assert_eq!(campaigns.campaign_to_value_group_mapping[0], 1);
    assert_eq!(campaigns.campaign_to_value_group_mapping[1], 0);
    assert_eq!(campaigns.campaign_to_value_group_mapping[2], 2);

    assert_eq!(campaigns.value_groups.len(), 3);
    assert_eq!(campaigns.value_groups[0], vec![1]);
    assert_eq!(campaigns.value_groups[1], vec![0]);
    assert_eq!(campaigns.value_groups[2], vec![2]);
}

#[test]
fn add_returns_the_position_and_keeps_the_description() {
    let mut campaigns = Campaigns::new();
    let a = campaigns.add("A".to_string(), CampaignType::MAX_MARGIN, vec![ConvergeTarget::TOTAL_IMPRESSIONS { target_total_impressions: 1000 }]);
    let b = campaigns.add(
        "B".to_string(),
        CampaignType::MAX_MARGIN_DOUBLE_TARGET,
        vec![
            ConvergeTarget::TOTAL_BUDGET { target_total_budget: 20.0f64.to_bits() },
            ConvergeTarget::AVG_VALUE { avg_impression_value_to_campaign: 0.8f64.to_bits() },
        ],
    );
    let c = campaigns.add_advanced("Custom".to_string());
    assert_eq!((a, b, c), (0, 1, 2));
    assert_eq!(campaigns.campaigns[1].campaign_id, 1);
    assert_eq!(campaigns.campaigns[1].campaign_name, "B");
    assert_eq!(campaigns.campaigns[1].campaign_type, Some(CampaignType::MAX_MARGIN_DOUBLE_TARGET));
    assert_eq!(campaigns.campaigns[1].converge_targets.len(), 2);
    assert_eq!(campaigns.campaigns[2].campaign_type, None);
    match campaigns.campaigns[1].converge_targets[0] {
        ConvergeTarget::TOTAL_BUDGET { target_total_budget } => assert_eq!(f64::from_bits(target_total_budget), 20.0),
        _ => panic!("wrong target"),
    }
}

#[test]
fn required_converge_targets_per_type() {
    assert_eq!(CampaignType::MAX_MARGIN_DOUBLE_TARGET.required_converge_targets(), 2);
    assert_eq!(CampaignType::MEDIAN.required_converge_targets(), 1);
    assert_eq!(CampaignType::CHEATER.required_converge_targets(), 1);
}

#[test]
fn finalizing_twice_changes_nothing() {
    let mut campaigns = Campaigns::new();
    for i in 0..5 {
        campaigns.add(format!("Campaign {}", i), CampaignType::MULTIPLICATIVE_PACING, none_target());
    }
    campaigns.create_value_group(vec![3, 1]);
    campaigns.finalize_groups();
    let groups = campaigns.value_groups.clone();
    let mapping = campaigns.campaign_to_value_group_mapping.clone();
    campaigns.finalize_groups();
    assert_eq!(campaigns.value_groups, groups);
    assert_eq!(campaigns.campaign_to_value_group_mapping, mapping);
    // every campaign is in exactly the group it is mapped to
    for c in 0..5usize {
        let holding: Vec<usize> = (0..groups.len()).filter(|g| groups[*g].contains(&c)).collect();
        assert_eq!(holding, vec![mapping[c]]);
    }
}

#[test]
fn controllers_follow_the_targets() {
    let pacing = 0.75f64.to_bits();
    assert_eq!(
        controller_for_target(ConvergeTarget::NONE { default_pacing: pacing }),
        ControllerKind::Constant { value: pacing }
    );
    assert_eq!(
        controller_for_target(ConvergeTarget::TOTAL_IMPRESSIONS { target_total_impressions: 1000 }),
        ControllerKind::ProportionalDerivative
    );
    assert_eq!(
        campaign_controllers(CampaignType::MULTIPLICATIVE_PACING, &vec![ConvergeTarget::NONE { default_pacing: pacing }]),
        vec![ControllerKind::Constant { value: pacing }]
    );
    assert_eq!(
        campaign_controllers(CampaignType::CHEATER, &vec![ConvergeTarget::TOTAL_BUDGET { target_total_budget: 10.0f64.to_bits() }]),
        vec![ControllerKind::ProportionalDerivative]
    );
}

#[test]
fn median_bidder_always_converges() {
    let fixed = vec![ConvergeTarget::NONE { default_pacing: 1.0f64.to_bits() }];
    assert_eq!(campaign_controllers(CampaignType::MEDIAN, &fixed), vec![ControllerKind::ProportionalDerivative]);
}

#[test]
fn dual_target_bidder_gets_a_damped_second_controller() {
    let targets = vec![
        ConvergeTarget::TOTAL_IMPRESSIONS { target_total_impressions: 1000 },
        ConvergeTarget::AVG_VALUE { avg_impression_value_to_campaign: 0.8f64.to_bits() },
    ];
    assert_eq!(
        campaign_controllers(CampaignType::MAX_MARGIN_DOUBLE_TARGET, &targets),
        vec![ControllerKind::ProportionalDerivative, ControllerKind::ProportionalDerivativeDamped]
    );
}

#[test]
fn value_group_with_unknown_campaign_is_refused() {
    let mut campaigns = Campaigns::new();
    campaigns.add("Campaign 0".to_string(), CampaignType::MULTIPLICATIVE_PACING, none_target());
    let error = campaigns.check_value_group(&vec![0, 1, 7]).unwrap_err();
    assert_eq!(error, ValueGroupError::InvalidCampaignId { campaign_id: 1, num_campaigns: 1 });
    assert_eq!(error.message(), "Invalid campaign_id 1: must be between 0 and 1 (num_campaigns)");
}

#[test]
fn value_group_with_grouped_campaign_is_refused() {
    let mut campaigns = Campaigns::new();
    for i in 0..3 {
        campaigns.add(format!("Campaign {}", i), CampaignType::MULTIPLICATIVE_PACING, none_target());
    }
    campaigns.create_value_group(vec![0]);
    assert!(campaigns.is_grouped(0));
    assert!(!campaigns.is_grouped(1));
    let error = campaigns.check_value_group(&vec![1, 0]).unwrap_err();
    assert_eq!(error, ValueGroupError::AlreadyGrouped { campaign_id: 0 });
    assert_eq!(error.message(), "Campaign 0 is already in a value group. Cannot add it to another group.");
    assert_eq!(campaigns.check_value_group(&vec![1, 2]), Ok(()));
}

#[test]
fn wrong_number_of_targets_is_named() {
    assert_eq!(CampaignType::MEDIAN.required_converge_targets(), 1);
    assert_eq!(CampaignType::MAX_MARGIN_DOUBLE_TARGET.required_converge_targets(), 2);
    assert_eq!(CampaignType::CHEATER.name(), "CHEATER");
    assert_eq!(
        CampaignType::MULTIPLICATIVE_PACING.converge_target_count_message(),
        "MULTIPLICATIVE_PACING requires exactly one converge target"
    );
    assert_eq!(
        CampaignType::MAX_MARGIN_DOUBLE_TARGET.converge_target_count_message(),
        "MAX_MARGIN_DOUBLE_TARGET requires exactly two converge targets"
    );
}

#[test]
fn grouped_campaigns_share_a_group_and_others_are_alone() {
    let mut campaigns = Campaigns::new();
    for i in 0..5 {
        campaigns.add(format!("Campaign {}", i), CampaignType::MULTIPLICATIVE_PACING, none_target());
    }
    campaigns.create_value_group(vec![3, 1]);
    campaigns.finalize_groups();
    let mapping = &campaigns.campaign_to_value_group_mapping;
    assert_eq!(mapping[1], 0);
    assert_eq!(mapping[3], 0);
    for c in [0usize, 2, 4] {
        assert!(mapping[c] >= 1);
        assert_eq!(campaigns.value_groups[mapping[c]], vec![c]);
    }
}

#[test]
fn campaign_types_choose_their_bidding() {
    assert_eq!(CampaignType::MULTIPLICATIVE_PACING.valuer_kind(), ValuerKind::Multiplicative);
    assert_eq!(CampaignType::MULTIPLICATIVE_PACING.optimizer_kind(), OptimizerKind::Truthful);
    assert_eq!(CampaignType::MAX_MARGIN_ADDITIVE_SUPPLY.valuer_kind(), ValuerKind::MultiplicativeAdditiveSupply);
    assert_eq!(CampaignType::MAX_MARGIN_EXPONENTIAL_SUPPLY.valuer_kind(), ValuerKind::MultiplicativeExponentialSupply);
    assert_eq!(CampaignType::MAX_MARGIN_DOUBLE_TARGET.valuer_kind(), ValuerKind::DualTarget);
    assert_eq!(CampaignType::MAX_MARGIN_DOUBLE_TARGET.optimizer_kind(), OptimizerKind::MaximumMargin);
    assert_eq!(CampaignType::CHEATER.optimizer_kind(), OptimizerKind::Cheater);
    assert_eq!(CampaignType::MEDIAN.optimizer_kind(), OptimizerKind::Median);
    assert_eq!(CampaignType::MEDIAN.bidding_label(), Some("ALB (Auction Level Bid)".to_string()));
    assert_eq!(CampaignType::CHEATER.bidding_label(), Some("Cheater - last look/2nd price".to_string()));
    assert_eq!(CampaignType::MAX_MARGIN_ADDITIVE_SUPPLY.bidding_label(), None);
}
