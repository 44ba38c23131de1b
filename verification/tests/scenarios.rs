use fsrs::{ComputeParametersInput, FSRSItem, FSRSReview, FSRS};
use srs_scheduler::{
    scheduling_request, srs_get_next_states, srs_optimize, srs_schedule_review, CardSrsData,
    EngineFailure, NextStatesPreview, OptimizationPlan, ScheduleResult, SchedulingRequest,
    TrainingItem,
};

fn result_of(state: &fsrs::ItemState) -> ScheduleResult {
    ScheduleResult {
        stability: state.memory.stability.to_bits(),
        difficulty: state.memory.difficulty.to_bits(),
        interval: state.interval.to_bits(),
    }
}

fn ask_model(request: &SchedulingRequest) -> Result<NextStatesPreview, EngineFailure> {
    let parameters: Vec<f32> = match &request.parameters {
        Some(bits) => bits.iter().map(|b| f32::from_bits(*b)).collect(),
        None => Vec::new(),
    };
    let model = FSRS::new(&parameters).map_err(|_| EngineFailure::InvalidParameters)?;
    let memory = request.memory.map(|m| fsrs::MemoryState {
        stability: f32::from_bits(m.stability),
        difficulty: f32::from_bits(m.difficulty),
    });
    let states = model
        .next_states(memory, f32::from_bits(request.desired_retention), request.elapsed_days)
        .map_err(|_| EngineFailure::InvalidInput)?;
    Ok(NextStatesPreview {
        again: result_of(&states.again),
        hard: result_of(&states.hard),
        good: result_of(&states.good),
        easy: result_of(&states.easy),
    })
}

fn schedule(card: &CardSrsData, rating: u8) -> (f32, f32, f32) {
    let request = scheduling_request(card, Some(0.9f32.to_bits()), None).unwrap();
    let chosen = srs_schedule_review(ask_model(&request), rating).unwrap();
    (
        f32::from_bits(chosen.stability),
        f32::from_bits(chosen.difficulty),
        f32::from_bits(chosen.interval),
    )
}

fn reviewed_card() -> CardSrsData {
    CardSrsData {
        stability: Some(5.0f32.to_bits()),
        difficulty: Some(5.0f32.to_bits()),
        elapsed_days: 3,
    }
}

fn fit(items: &[TrainingItem]) -> Vec<f32> {
    let train_set = items
        .iter()
        .map(|item| FSRSItem {
            reviews: item
                .reviews
                .iter()
                .map(|r| FSRSReview { rating: r.rating, delta_t: r.delta_t })
                .collect(),
        })
        .collect();
    fsrs::compute_parameters(ComputeParametersInput {
        train_set,
        enable_short_term: true,
        ..ComputeParametersInput::default()
    })
    .unwrap()
}

fn line(card_id: &str, rating: u32, elapsed: u32) -> String {
    format!("{{\"cardId\":\"{}\",\"rating\":{},\"elapsed\":{}}}\n", card_id, rating, elapsed)
}

#[test]
fn good_review_strengthens_the_memory() {
    let (stability, difficulty, interval) = schedule(&reviewed_card(), 3);
    let previous_interval = FSRS::new(&[]).unwrap().next_interval(Some(5.0), 0.9, 3);
    assert!(stability > 5.0);
    assert!(interval > 0.0);
    assert!(interval > previous_interval);
    assert!(difficulty < 5.0);
}

#[test]
fn lapse_weakens_the_memory() {
    let (stability, difficulty, interval) = schedule(&reviewed_card(), 1);
    assert!(stability < 5.0);
    assert!(stability > 0.0);
    assert!(interval > 0.0);
    assert!(interval < 2.0);
    assert!(difficulty > 5.0);
}

#[test]
fn new_card_starts_from_the_initial_state() {
    let card = CardSrsData { stability: None, difficulty: None, elapsed_days: 0 };
    let request = scheduling_request(&card, None, None).unwrap();
    assert_eq!(request.memory, None);
    let preview = srs_get_next_states(ask_model(&request)).unwrap();
    let initial = fsrs::DEFAULT_PARAMETERS;
    assert_eq!(f32::from_bits(preview.again.stability), initial[0]);
    assert_eq!(f32::from_bits(preview.hard.stability), initial[1]);
    assert_eq!(f32::from_bits(preview.good.stability), initial[2]);
    assert_eq!(f32::from_bits(preview.easy.stability), initial[3]);
}

#[test]
fn single_and_batch_paths_agree_on_the_model() {
    let request = scheduling_request(&reviewed_card(), None, None).unwrap();
    let all = srs_get_next_states(ask_model(&request)).unwrap();
    assert_eq!(srs_schedule_review(ask_model(&request), 1), Ok(all.again));
    assert_eq!(srs_schedule_review(ask_model(&request), 2), Ok(all.hard));
    assert_eq!(srs_schedule_review(ask_model(&request), 3), Ok(all.good));
    assert_eq!(srs_schedule_review(ask_model(&request), 4), Ok(all.easy));
}

#[test]
fn rejected_parameters_are_a_configuration_error() {
    let request =
        scheduling_request(&reviewed_card(), None, Some(vec![1.0f32.to_bits(); 5])).unwrap();
    assert_eq!(
        srs_get_next_states(ask_model(&request)),
        Err(srs_scheduler::SrsError::ModelConfiguration(
            srs_scheduler::ConfigurationFault::Engine(EngineFailure::InvalidParameters)
        ))
    );
}

#[test]
fn only_the_card_reviewed_five_times_is_trained_on() {
    let mut log = line("once", 3, 0);
    for (rating, elapsed) in [(3, 0), (3, 1), (2, 3), (1, 7), (3, 2)] {
        log += &line("often", rating, elapsed);
    }
    let plan = srs_optimize(&log).unwrap();
    let request = match &plan {
        OptimizationPlan::Fit(request) => request,
        OptimizationPlan::UseDefaults => panic!("a fit was expected"),
    };
    assert_eq!(request.train_set.len(), 1);
    assert_eq!(request.train_set[0].reviews.len(), 5);
    let fitted = fit(&request.train_set);
    assert!(fitted.iter().all(|p| p.is_finite()));

    let more = line("other", 4, 0) + &log + &line("another", 1, 0);
    assert_eq!(srs_optimize(&more).unwrap(), plan);
    let request_more = match srs_optimize(&more).unwrap() {
        OptimizationPlan::Fit(request) => request,
        OptimizationPlan::UseDefaults => panic!("a fit was expected"),
    };
    assert_eq!(fit(&request_more.train_set), fitted);
}

fn fit_log(log: &str) -> Result<Vec<f32>, srs_scheduler::SrsError> {
    let request = match srs_optimize(log)? {
        OptimizationPlan::Fit(request) => request,
        OptimizationPlan::UseDefaults => return Ok(fsrs::DEFAULT_PARAMETERS.to_vec()),
    };
    let train_set = request
        .train_set
        .iter()
        .map(|item| FSRSItem {
            reviews: item
                .reviews
                .iter()
                .map(|r| FSRSReview { rating: r.rating, delta_t: r.delta_t })
                .collect(),
        })
        .collect();
    let outcome = fsrs::compute_parameters(ComputeParametersInput {
        train_set,
        enable_short_term: request.enable_short_term,
        ..ComputeParametersInput::default()
    })
    .map(|parameters| parameters.iter().map(|p| p.to_bits()).collect())
    .map_err(|error| match error {
        fsrs::FSRSError::NotEnoughData => EngineFailure::NotEnoughData,
        fsrs::FSRSError::Interrupted => EngineFailure::Interrupted,
        fsrs::FSRSError::InvalidParameters => EngineFailure::InvalidParameters,
        fsrs::FSRSError::OptimalNotFound => EngineFailure::OptimalNotFound,
        fsrs::FSRSError::InvalidInput => EngineFailure::InvalidInput,
        fsrs::FSRSError::InvalidDeckSize => EngineFailure::InvalidDeckSize,
    });
    srs_scheduler::fitted_parameters(outcome)
        .map(|bits| bits.iter().map(|b| f32::from_bits(*b)).collect())
}

fn twice_reviewed_cards(count: u32) -> String {
    let mut log = String::new();
    for card in 0..count {
        log += &line(&format!("card-{}", card), 3, 0);
    }
    for card in 0..count {
        log += &line(&format!("card-{}", card), if card % 4 == 0 { 1 } else { 3 }, 2);
    }
    log
}

#[test]
fn log_without_reviews_is_answered_with_the_defaults() {
    assert_eq!(fit_log(""), Ok(fsrs::DEFAULT_PARAMETERS.to_vec()));
    assert_eq!(
        fit_log(&(line("a", 3, 0) + &line("b", 4, 0))),
        Ok(fsrs::DEFAULT_PARAMETERS.to_vec())
    );
}

#[test]
fn enough_cards_are_fitted() {
    let fitted = fit_log(&twice_reviewed_cards(24)).unwrap();
    assert_eq!(fitted.len(), fsrs::DEFAULT_PARAMETERS.len());
    assert!(fitted.iter().all(|p| p.is_finite()));
    assert_ne!(fitted, fsrs::DEFAULT_PARAMETERS.to_vec());
}

#[test]
fn same_log_is_fitted_the_same_way_twice() {
    let log = twice_reviewed_cards(24);
    assert_eq!(fit_log(&log), fit_log(&log));
}

#[test]
fn lone_reviews_do_not_change_the_fit() {
    let log = twice_reviewed_cards(24);
    let more = line("lone-1", 4, 0) + &log + &line("lone-2", 1, 3) + &line("lone-3", 2, 0);
    assert_eq!(fit_log(&more), fit_log(&log));
}

#[test]
fn refusal_of_the_fit_is_an_optimization_error() {
    let mut log = String::new();
    for card in 0..12u32 {
        for step in 0..4u32 {
            let rating = 1 + (card + step) % 4;
            log += &line(&format!("card-{}", card), rating, 1 + step * (card % 5 + 1));
        }
    }
    assert_eq!(
        fit_log(&log),
        Err(srs_scheduler::SrsError::Optimization(srs_scheduler::OptimizationFault::Engine(
            EngineFailure::NotEnoughData
        )))
    );
}

#[test]
fn recall_probability_decays_from_one() {
    for stability in [0.5f32, 5.0, 120.0] {
        let state = fsrs::MemoryState { stability, difficulty: 5.0 };
        let mut previous = fsrs::current_retrievability(state, 0.0, fsrs::FSRS6_DEFAULT_DECAY);
        assert_eq!(previous, 1.0);
        for elapsed in 1..=400u32 {
            let recall =
                fsrs::current_retrievability(state, elapsed as f32, fsrs::FSRS6_DEFAULT_DECAY);
            assert!(0.0 <= recall && recall <= 1.0);
            assert!(recall < previous, "stability {} day {}", stability, elapsed);
            previous = recall;
        }
    }
}
