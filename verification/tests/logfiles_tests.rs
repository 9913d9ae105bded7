use marrakesh::logfiles::{auction_log_header, auctions_log_path, iterations_log_path, scenario_log_path, variant_log_path};

#[test]
fn log_paths_are_sanitized() {
    assert_eq!(scenario_log_path("value_groups"), "log/value_groups/scenario.log");
    assert_eq!(scenario_log_path("a b"), "log/a_b/scenario.log");
    assert_eq!(iterations_log_path("MRG boost", "boost_1.0"), "log/MRG_boost/iterations-boost_1.0.log");
    assert_eq!(variant_log_path("s", "two/10"), "log/s/variant-two_10.log");
    assert_eq!(auctions_log_path("s", "v:1", 12), "log/s/auctions-v_1-iter12.csv");
}

#[test]
fn auction_log_header_has_two_columns_per_campaign() {
    let fixed = "seller_id,campaign_id,winning_bid,floor_cpm,impression_base_value,competing_bid,win_rate_actual_sigmoid_offset,win_rate_actual_sigmoid_scale";
    assert_eq!(auction_log_header(0), fixed);
    assert_eq!(
        auction_log_header(2),
        format!("{},campaign_0_value,campaign_0_bid,campaign_1_value,campaign_1_bid", fixed)
    );
    assert_eq!(auction_log_header(11).split(',').count(), 8 + 22);
}

#[test]
fn scenarios_with_different_names_log_apart() {
    assert_ne!(scenario_log_path("a:b"), scenario_log_path("a_c"));
    assert_eq!(scenario_log_path("a:b"), scenario_log_path("a_b"));
}
