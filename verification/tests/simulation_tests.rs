use marrakesh::campaigns::ControllerKind;
use marrakesh::sellers::seller_controller;
use marrakesh::convergence::{converged_message, max_iterations_message, ConvergeStep, ConvergenceLoop};
use marrakesh::sellers::{SellerConvergeStrategy, SellerType, Sellers};
use marrakesh::stats::{tally_outcomes, AuctionOutcome};

#[test]
fn convergence_stops_at_first_unchanged_iteration() {
    let mut l = ConvergenceLoop::new(100);
    assert!(l.is_running());
    assert_eq!(l.finish_iteration(true, false), ConvergeStep::Continue);
    assert_eq!(l.finish_iteration(false, true), ConvergeStep::Continue);
    assert_eq!(l.finish_iteration(false, false), ConvergeStep::Converged { iterations: 3 });
    assert!(!l.is_running());
    assert_eq!(l.iterations(), 3);
}

#[test]
fn convergence_stops_at_max_iterations() {
    let mut l = ConvergenceLoop::new(2);
    assert_eq!(l.finish_iteration(true, true), ConvergeStep::Continue);
    assert_eq!(l.finish_iteration(true, false), ConvergeStep::MaxIterationsReached { iterations: 2 });
    assert!(!l.is_running());
}

#[test]
fn convergence_on_the_last_iteration_counts_as_converged() {
    let mut l = ConvergenceLoop::new(1);
    assert_eq!(l.finish_iteration(false, false), ConvergeStep::Converged { iterations: 1 });
}

#[test]
fn convergence_messages() {
    assert_eq!(converged_message("scarce", 12), "scarce: Converged after 12 iterations");
    assert_eq!(max_iterations_message("abundant", 100), "abundant: Reached maximum iterations (100)");
    assert_eq!(converged_message("v", 0), "v: Converged after 0 iterations");
}

#[test]
fn sellers_layout_and_total() {
    let mut sellers = Sellers::new();
    sellers.add("MRG".to_string(), SellerType::FIXED_PRICE { fixed_cost_cpm: 10.0f64.to_bits() }, SellerConvergeStrategy::NONE { default_value: 1.0f64.to_bits() }, 2);
    sellers.add("HB".to_string(), SellerType::FIRST_PRICE, SellerConvergeStrategy::TOTAL_COST { target_total_cost: 50.0f64.to_bits() }, 3);
    sellers.add_advanced("Empty".to_string(), 0);
    sellers.add_advanced("Last".to_string(), 1);
    assert_eq!(sellers.sellers[1].seller_id, 1);
    assert_eq!(sellers.sellers[3].seller_id, 3);
    assert_eq!(sellers.total_impressions(), Some(6));
    assert_eq!(sellers.impression_sellers(), vec![0, 0, 1, 1, 1, 3]);
}

#[test]
fn tally_counts_every_impression_once() {
    let outcomes = vec![
        AuctionOutcome::Sold,
        AuctionOutcome::Lost,
        AuctionOutcome::NoDemand,
        AuctionOutcome::Sold,
        AuctionOutcome::Sold,
        AuctionOutcome::Lost,
    ];
    let sellers = vec![0, 0, 1, 1, 2, 2];
    let c = tally_outcomes(&outcomes, &sellers, 4);
    assert_eq!(c.lost_count, 2);
    assert_eq!(c.no_bids_count, 1);
    assert_eq!(c.impressions_sold, vec![1, 1, 1, 0]);
    let sold: usize = c.impressions_sold.iter().sum();
    assert_eq!(sold + c.lost_count + c.no_bids_count, outcomes.len());
}

#[test]
fn seller_controllers_follow_the_strategy() {
    let boost = 2.0f64.to_bits();
    assert_eq!(
        seller_controller(SellerConvergeStrategy::NONE { default_value: boost }),
        ControllerKind::Constant { value: boost }
    );
    assert_eq!(
        seller_controller(SellerConvergeStrategy::TOTAL_COST { target_total_cost: 10.0f64.to_bits() }),
        ControllerKind::ProportionalDerivative
    );
}

#[test]
fn total_impressions_reports_overflow() {
    let mut sellers = Sellers::new();
    sellers.add_advanced("A".to_string(), usize::MAX);
    assert_eq!(sellers.total_impressions(), Some(usize::MAX));
    sellers.add_advanced("B".to_string(), 1);
    assert_eq!(sellers.total_impressions(), None);
}

#[test]
fn convergence_iterations_stay_within_the_maximum() {
    let mut l = ConvergenceLoop::new(3);
    while l.is_running() {
        l.finish_iteration(true, true);
        assert!(l.iterations() <= 3);
    }
    assert_eq!(l.iterations(), 3);
}
