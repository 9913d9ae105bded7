use marrakesh::cli::{run_header, stop_error_line};
use marrakesh::cli::{console_events, outcome_mark, parse_command, parse_flags, parse_u64, progress_mark, Command, CommandError};
use marrakesh::logger::LogEvent;
use marrakesh::scenarios::{select_scenarios, RunAction, ScenarioRunner, ValidationReport};
use marrakesh::logger::{Logger, ReceiverIds};

fn strings(v: &[&str]) -> Vec<String> {
    v.iter().map(|s| s.to_string()).collect()
}

#[test]
fn flags_are_taken_out() {
    let c = parse_flags(&strings(&["prog", "--verbose", "auction", "all", "--fastbreak", "5"]));
    assert_eq!(c.args, strings(&["prog", "all", "5"]));
    assert!(c.verbose_auction);
    assert!(c.fastbreak);

    let c = parse_flags(&strings(&["prog", "--verbose", "value_groups"]));
    assert_eq!(c.args, strings(&["prog", "value_groups"]));
    assert!(!c.verbose_auction);
    assert!(!c.fastbreak);

    let c = parse_flags(&strings(&["prog", "x", "--verbose"]));
    assert_eq!(c.args, strings(&["prog", "x"]));
    assert!(!c.verbose_auction);
}

#[test]
fn counts_are_read_as_decimal_numbers() {
    assert_eq!(parse_u64("10"), Some(10));
    assert_eq!(parse_u64("+7"), Some(7));
    assert_eq!(parse_u64("0"), Some(0));
    assert_eq!(parse_u64("18446744073709551615"), Some(u64::MAX));
    assert_eq!(parse_u64("18446744073709551616"), None);
    assert_eq!(parse_u64(""), None);
    assert_eq!(parse_u64("+"), None);
    assert_eq!(parse_u64("-1"), None);
    assert_eq!(parse_u64("12a"), None);
    assert_eq!(parse_u64(" 1"), None);
    for s in ["0", "42", "+3", "999", "", "x", "1.5"] {
        assert_eq!(parse_u64(s), s.parse::<u64>().ok());
    }
}

#[test]
fn commands_from_arguments() {
    assert!(matches!(parse_command(&strings(&["prog"])), Ok(Command::RunDefault)));
    assert!(matches!(parse_command(&strings(&["prog", "charts"])), Ok(Command::Charts)));
    assert!(matches!(parse_command(&strings(&["prog", "sigmoid"])), Ok(Command::Sigmoid)));
    assert!(matches!(parse_command(&strings(&["prog", "test"])), Ok(Command::Test)));
    match parse_command(&strings(&["prog", "all"])) {
        Ok(Command::RunScenarios { scenario, iterations, start_iteration }) => {
            assert_eq!(scenario, "all");
            assert_eq!(iterations, 1);
            assert_eq!(start_iteration, 0);
        }
        _ => panic!("expected a scenario run"),
    }
    match parse_command(&strings(&["prog", "value_groups", "10", "5"])) {
        Ok(Command::RunScenarios { scenario, iterations, start_iteration }) => {
            assert_eq!(scenario, "value_groups");
            assert_eq!(iterations, 10);
            assert_eq!(start_iteration, 5);
        }
        _ => panic!("expected a scenario run"),
    }
    match parse_command(&strings(&["prog", "all", "ten"])) {
        Err(e @ CommandError::InvalidIterations { .. }) => {
            assert_eq!(e.message(), "Error: Invalid iterations parameter 'ten'. Expected a number.");
        }
        _ => panic!("expected an iterations error"),
    }
    match parse_command(&strings(&["prog", "all", "2", "x"])) {
        Err(e @ CommandError::InvalidStartIteration { .. }) => {
            assert_eq!(e.message(), "Error: Invalid start iteration parameter 'x'. Expected a number.");
        }
        _ => panic!("expected a start iteration error"),
    }
}

#[test]
fn console_events_by_run_kind() {
    assert_eq!(console_events("all", 1), vec![LogEvent::Validation]);
    assert_eq!(console_events("value_groups", 3), vec![LogEvent::Validation]);
    assert_eq!(console_events("value_groups", 1), vec![LogEvent::Validation, LogEvent::Scenario]);
}

#[test]
fn run_marks() {
    assert_eq!(progress_mark(2, 10), "[2/10] ");
    assert_eq!(outcome_mark(5, &Ok(())), "✓");
    assert_eq!(outcome_mark(5, &Err("bad".to_string())), "✗");
    assert_eq!(outcome_mark(1, &Ok(())), "✓ PASSED");
    assert_eq!(outcome_mark(1, &Err("bad".to_string())), "✗ FAILED: bad");
}

#[test]
fn scenario_selection() {
    let catalog = strings(&["value_groups", "viewability", "value_groups"]);
    assert_eq!(select_scenarios(&catalog, "all"), Some(vec![0, 1, 2]));
    assert_eq!(select_scenarios(&catalog, "viewability"), Some(vec![1]));
    assert_eq!(select_scenarios(&catalog, "value_groups"), Some(vec![0]));
    assert_eq!(select_scenarios(&catalog, "missing"), None);
}

#[test]
fn validation_report_collects_failed_checks() {
    let mut ids = ReceiverIds::new();
    let mut logger = Logger::new();
    let scenario = logger.add_receiver(&mut ids, vec![LogEvent::Scenario]);
    let validation = logger.add_receiver(&mut ids, vec![LogEvent::Validation]);
    let mut report = ValidationReport::new();
    let d = report.check(&logger, true, "A > B");
    assert_eq!(d.receivers, vec![scenario]);
    assert_eq!(d.text, "✓ A > B\n");
    let d = report.check(&logger, false, "C < D");
    assert_eq!(d.receivers, vec![scenario, validation]);
    assert_eq!(d.text, "ERROR C < D\n");
    report.check(&logger, false, "E == F");
    assert!(!report.all_passed());
    assert_eq!(report.into_result("demo"), Err("Scenario 'demo' validation failed:\nC < D\nE == F".to_string()));

    let mut ok = ValidationReport::new();
    ok.check(&logger, true, "fine");
    assert!(ok.all_passed());
    assert_eq!(ok.into_result("demo"), Ok(()));
}

#[test]
fn run_header_names_the_run() {
    assert_eq!(run_header("all", 1, 0), "Running all scenarios... (Total simulation runs: 0)\n");
    assert_eq!(run_header("all", 5, 0), "Running all scenarios 5 times... (Total simulation runs: 0)\n");
    assert_eq!(run_header("value_groups", 1, 0), "Running scenario 'value_groups'... (Total simulation runs: 0)\n");
    assert_eq!(run_header("value_groups", 10, 3), "Running scenario 'value_groups' 10 times... (Total simulation runs: 3)\n");
}

#[test]
fn stop_error_line_gives_the_seed_for_repeated_runs() {
    assert_eq!(stop_error_line(1, 1, 0, "boom"), "Error: boom");
    assert_eq!(stop_error_line(4, 2, 11, "boom"), "Error at iteration 2/4 (seed 11): boom");
}

#[test]
fn runner_runs_each_scenario_with_consecutive_seeds() {
    let mut runner = ScenarioRunner::new(vec![3, 1], 2, 10, false);
    let mut actions = Vec::new();
    loop {
        let action = runner.next_action();
        actions.push(action);
        if action == RunAction::Finish {
            break;
        }
        if let RunAction::Run { .. } = action {
            assert!(!runner.record_outcome(false));
        }
    }
    assert_eq!(
        actions,
        vec![
            RunAction::OpenScenario { scenario: 3 },
            RunAction::Run { scenario: 3, seed: 10, run_number: 1 },
            RunAction::Run { scenario: 3, seed: 11, run_number: 2 },
            RunAction::CloseScenario { scenario: 3 },
            RunAction::OpenScenario { scenario: 1 },
            RunAction::Run { scenario: 1, seed: 10, run_number: 1 },
            RunAction::Run { scenario: 1, seed: 11, run_number: 2 },
            RunAction::CloseScenario { scenario: 1 },
            RunAction::Finish,
        ]
    );
    assert_eq!(runner.next_action(), RunAction::Finish);
}

#[test]
fn runner_with_fastbreak_stops_at_first_failure() {
    let mut runner = ScenarioRunner::new(vec![0, 1], 3, 0, true);
    assert_eq!(runner.next_action(), RunAction::OpenScenario { scenario: 0 });
    assert_eq!(runner.next_action(), RunAction::Run { scenario: 0, seed: 0, run_number: 1 });
    assert!(!runner.record_outcome(true));
    assert_eq!(runner.next_action(), RunAction::Run { scenario: 0, seed: 1, run_number: 2 });
    assert!(runner.record_outcome(false));
    assert_eq!(runner.next_action(), RunAction::Finish);
    assert_eq!(runner.next_action(), RunAction::Finish);
}

#[test]
fn runner_with_nothing_selected_finishes() {
    let mut runner = ScenarioRunner::new(Vec::new(), 5, 0, false);
    assert_eq!(runner.next_action(), RunAction::Finish);
}

#[test]
fn marked_failures_carry_a_cross() {
    let mut ids = ReceiverIds::new();
    let mut logger = Logger::new();
    let scenario = logger.add_receiver(&mut ids, vec![LogEvent::Scenario]);
    let validation = logger.add_receiver(&mut ids, vec![LogEvent::Validation]);
    let mut report = ValidationReport::new();
    let d = report.check_marked(&logger, true, "A > B");
    assert_eq!(d.receivers, vec![scenario]);
    assert_eq!(d.text, "✓ A > B\n");
    let d = report.check_marked(&logger, false, "C < D");
    assert_eq!(d.receivers, vec![scenario, validation]);
    assert_eq!(d.text, "ERROR ✗ C < D\n");
    assert_eq!(report.into_result("s"), Err("Scenario 's' validation failed:\nC < D".to_string()));
}
