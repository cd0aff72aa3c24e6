use wocka::dispatch::{accept, batch_ids, process_batch, BatchState, DispatchConfig};
use wocka::extract::{ExtractionOutcome, HardReason, SoftReason};
use wocka::record::WockaJoke;

fn joke(id: u64, body: &str) -> WockaJoke {
    WockaJoke {
        title: format!("title {id}"),
        body: body.to_string(),
        id,
        category: "Animal".to_string(),
    }
}

fn cfg(threshold: u64, limit: Option<u64>) -> DispatchConfig {
    DispatchConfig {
        batch_size: 50,
        failure_threshold: threshold,
        inter_batch_delay_ms: 10,
        length_limit: limit,
    }
}

#[test]
fn two_successes_in_id_order() {
    let state = BatchState::start();
    let outcomes = vec![
        ExtractionOutcome::Success(joke(1, "first body")),
        ExtractionOutcome::Success(joke(2, "second body")),
    ];
    let (new_state, rows, terminate) = process_batch(&state, &outcomes, &cfg(3, None));
    assert_eq!(rows.len(), 2);
    assert_eq!(rows[0].footer, "Source: wocka.com, Category: Animal, ID: 1");
    assert_eq!(rows[1].footer, "Source: wocka.com, Category: Animal, ID: 2");
    assert_eq!(new_state.consecutive_soft_failures, 0);
    assert_eq!(new_state.offset, 2);
    assert!(!terminate);
}

#[test]
fn success_then_two_soft_failures() {
    let state = BatchState::start();
    let outcomes = vec![
        ExtractionOutcome::Success(joke(1, "body")),
        ExtractionOutcome::SoftFailure(SoftReason::MissingTitle),
        ExtractionOutcome::SoftFailure(SoftReason::EmptyBody),
    ];
    let (new_state, rows, terminate) = process_batch(&state, &outcomes, &cfg(3, None));
    assert_eq!(rows.len(), 1);
    assert_eq!(new_state.consecutive_soft_failures, 2);
    assert!(!terminate);
}

#[test]
fn terminates_once_counter_exceeds_threshold() {
    // Threshold 3: five batches of one soft failure each; the run must
    // terminate exactly after the fourth, when the counter reaches 4.
    let config = cfg(3, None);
    let mut state = BatchState::start();
    let mut terminated_after = None;
    for n in 1..=5u64 {
        let outcomes = vec![ExtractionOutcome::SoftFailure(SoftReason::EmptyBody)];
        let (new_state, rows, terminate) = process_batch(&state, &outcomes, &config);
        assert!(rows.is_empty());
        state = new_state;
        assert_eq!(state.consecutive_soft_failures, n);
        if terminate {
            terminated_after = Some(n);
            break;
        }
    }
    assert_eq!(terminated_after, Some(4));
}

#[test]
fn hard_failure_leaves_counter_alone() {
    let state = BatchState::start();
    let outcomes = vec![
        ExtractionOutcome::SoftFailure(SoftReason::MissingTitle),
        ExtractionOutcome::HardFailure(HardReason::Transport),
        ExtractionOutcome::SoftFailure(SoftReason::MissingTitle),
    ];
    let (new_state, rows, terminate) = process_batch(&state, &outcomes, &cfg(10, None));
    assert!(rows.is_empty());
    assert_eq!(new_state.consecutive_soft_failures, 2);
    assert!(!terminate);
}

#[test]
fn success_resets_counter() {
    let state = BatchState { offset: 10, consecutive_soft_failures: 7 };
    let outcomes = vec![
        ExtractionOutcome::SoftFailure(SoftReason::MissingTitle),
        ExtractionOutcome::Success(joke(12, "body")),
        ExtractionOutcome::SoftFailure(SoftReason::MissingTitle),
    ];
    let (new_state, _, _) = process_batch(&state, &outcomes, &cfg(100, None));
    assert_eq!(new_state.consecutive_soft_failures, 1);
    assert_eq!(new_state.offset, 13);
}

#[test]
fn length_filter_drops_long_bodies_but_resets_counter() {
    let state = BatchState { offset: 0, consecutive_soft_failures: 5 };
    let outcomes = vec![ExtractionOutcome::Success(joke(1, "a body that is long"))];
    let (new_state, rows, _) = process_batch(&state, &outcomes, &cfg(100, Some(4)));
    assert!(rows.is_empty());
    assert_eq!(new_state.consecutive_soft_failures, 0);
}

#[test]
fn accept_without_limit_is_true() {
    let j = joke(1, "any body at all");
    assert!(accept(&j, None));
}

#[test]
fn accept_is_false_exactly_when_body_exceeds_limit() {
    let j = joke(1, "abcde");
    assert!(accept(&j, Some(5)));
    assert!(!accept(&j, Some(4)));
    assert!(accept(&j, Some(6)));
}

#[test]
fn accept_counts_characters_not_bytes() {
    let j = joke(1, "äöü");
    assert!(accept(&j, Some(3)));
    assert!(!accept(&j, Some(2)));
}

#[test]
fn batch_ids_are_ascending_from_offset() {
    let ids = batch_ids(10, 3);
    assert_eq!(ids, vec![11, 12, 13]);
}

#[test]
fn start_state_is_zeroed() {
    let s = BatchState::start();
    assert_eq!(s.offset, 0);
    assert_eq!(s.consecutive_soft_failures, 0);
}
