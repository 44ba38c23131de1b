use srs_scheduler::review_log::ReviewLogEntry;
use srs_scheduler::{
    fitted_parameters, plan_optimization, srs_optimize, EngineFailure, FitRequest, LineFault,
    OptimizationFault, OptimizationPlan, Review, SrsError, TrainingItem,
};

fn item(reviews: &[(u32, u32)]) -> TrainingItem {
    TrainingItem {
        reviews: reviews.iter().map(|&(rating, delta_t)| Review { rating, delta_t }).collect(),
    }
}

fn fit(train_set: Vec<TrainingItem>) -> OptimizationPlan {
    OptimizationPlan::Fit(FitRequest { train_set, enable_short_term: true })
}

fn line(card_id: &str, rating: u32, elapsed: u32) -> String {
    format!("{{\"cardId\":\"{}\",\"rating\":{},\"elapsed\":{}}}\n", card_id, rating, elapsed)
}

#[test]
fn empty_log_keeps_the_defaults() {
    assert_eq!(srs_optimize(""), Ok(OptimizationPlan::UseDefaults));
    assert_eq!(srs_optimize("\n\n  \n"), Ok(OptimizationPlan::UseDefaults));
    assert_eq!(plan_optimization(&Vec::new()), Ok(OptimizationPlan::UseDefaults));
}

#[test]
fn single_reviews_keep_the_defaults() {
    let log = line("a", 3, 0) + &line("b", 1, 2) + &line("c", 4, 9);
    assert_eq!(srs_optimize(&log), Ok(OptimizationPlan::UseDefaults));
}

#[test]
fn two_reviews_of_a_card_call_for_a_fit() {
    let log = line("a", 3, 5) + &line("a", 2, 6);
    assert_eq!(srs_optimize(&log), Ok(fit(vec![item(&[(3, 0), (2, 6)])])));
}

#[test]
fn fit_switches_the_short_term_component_on() {
    let log = line("a", 3, 0) + &line("a", 3, 2);
    match srs_optimize(&log).unwrap() {
        OptimizationPlan::Fit(request) => assert!(request.enable_short_term),
        OptimizationPlan::UseDefaults => panic!("a fit was expected"),
    }
}

#[test]
fn plan_is_made_from_entries() {
    let entries = vec![
        ReviewLogEntry { card_id: "q".to_string(), rating: 9, elapsed: 1 },
        ReviewLogEntry { card_id: "q".to_string(), rating: 0, elapsed: 2 },
    ];
    assert_eq!(plan_optimization(&entries), Ok(fit(vec![item(&[(4, 0), (1, 2)])])));
}

#[test]
fn malformed_line_fails_the_optimization() {
    let log = line("a", 3, 0) + &line("a", 2, 4) + "{\"cardId\":\"a\",\"rating\":}\n" + &line("a", 1, 1);
    match srs_optimize(&log) {
        Err(SrsError::LogParse(fault)) => {
            assert_eq!(fault.line, 3);
            assert_eq!(fault.fault, LineFault::Syntax);
        },
        other => panic!("a parse error was expected, not {:?}", other),
    }
}

#[test]
fn malformed_record_fails_the_optimization() {
    let log = line("a", 3, 0) + "\n{\"cardId\":\"a\",\"rating\":3}\n";
    match srs_optimize(&log) {
        Err(SrsError::LogParse(fault)) => {
            assert_eq!(fault.line, 3);
            assert_eq!(fault.fault, LineFault::Elapsed);
        },
        other => panic!("a parse error was expected, not {:?}", other),
    }
}

#[test]
fn same_log_same_plan() {
    let log = line("a", 3, 0) + &line("b", 1, 0) + &line("a", 2, 4) + &line("b", 3, 1) + &line("c", 3, 0);
    let first = srs_optimize(&log);
    let second = srs_optimize(&log);
    assert_eq!(first, second);
    assert_eq!(first, Ok(fit(vec![item(&[(3, 0), (2, 4)]), item(&[(1, 0), (3, 1)])])));
}

#[test]
fn finite_parameters_are_handed_on() {
    let parameters: Vec<u32> = [0.212f32, 1.2931, 0.0, -3.5, f32::MAX].iter().map(|p| p.to_bits()).collect();
    assert_eq!(fitted_parameters(Ok(parameters.clone())), Ok(parameters));
    assert_eq!(fitted_parameters(Ok(Vec::new())), Ok(Vec::new()));
}

#[test]
fn parameters_that_are_no_numbers_are_an_error() {
    for bad in [f32::NAN, f32::INFINITY, f32::NEG_INFINITY] {
        let parameters = vec![0.5f32.to_bits(), bad.to_bits(), 1.0f32.to_bits()];
        assert_eq!(
            fitted_parameters(Ok(parameters)),
            Err(SrsError::Optimization(OptimizationFault::NonFiniteCoefficient))
        );
    }
}

#[test]
fn failed_fit_is_an_optimization_error() {
    for failure in [
        EngineFailure::NotEnoughData,
        EngineFailure::Interrupted,
        EngineFailure::InvalidParameters,
        EngineFailure::OptimalNotFound,
        EngineFailure::InvalidInput,
        EngineFailure::InvalidDeckSize,
    ] {
        assert_eq!(
            fitted_parameters(Err(failure)),
            Err(SrsError::Optimization(OptimizationFault::Engine(failure)))
        );
    }
}

#[test]
fn card_reviewed_on_one_day_only_fails_the_optimization() {
    let expected = Err(SrsError::Optimization(OptimizationFault::NoLongTermReview));
    let same_day = line("a", 3, 0) + &line("a", 3, 0);
    assert_eq!(srs_optimize(&same_day), expected);
    let first_elapsed_does_not_count = line("a", 3, 9) + &line("a", 3, 0) + &line("a", 4, 0);
    assert_eq!(srs_optimize(&first_elapsed_does_not_count), expected);
    let mixed = line("a", 3, 0) + &line("b", 3, 0) + &line("a", 3, 4) + &line("b", 3, 0);
    assert_eq!(srs_optimize(&mixed), expected);
}

#[test]
fn one_later_review_is_enough_for_a_fit() {
    let log = line("a", 3, 0) + &line("a", 3, 0) + &line("a", 2, 1) + &line("a", 3, 0);
    assert_eq!(srs_optimize(&log), Ok(fit(vec![item(&[(3, 0), (3, 0), (2, 1), (3, 0)])])));
}

#[test]
fn parse_errors_come_before_training_errors() {
    let log = line("a", 3, 0) + &line("a", 3, 0) + "oops\n";
    match srs_optimize(&log) {
        Err(SrsError::LogParse(fault)) => assert_eq!(fault.line, 3),
        other => panic!("a parse error was expected, not {:?}", other),
    }
}
