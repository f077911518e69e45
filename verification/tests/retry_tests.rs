use jager::database::{is_duplicate_err, CreateOrExist, DbError};
use jager::esi::{get_text_retry, EsiError, FetchAttempt};
use jager::retry::{insert_retry, insert_with_retry_if_not_present, retry_delay_ms, RetryDecision, RetryState, RETRY_COUNT};

fn transient_script(failures: usize) -> Vec<Result<(), DbError>> {
    let mut script: Vec<Result<(), DbError>> = Vec::new();
    for _ in 0..failures {
        script.push(Err(DbError::Transient));
    }
    script.push(Ok(()));
    while script.len() < RETRY_COUNT as usize {
        script.push(Err(DbError::Transient));
    }
    script
}

#[test]
fn retry_succeeds_after_transient_failures() {
    // Fails transiently exactly N = 3 times, then succeeds: N + 1 attempts.
    let script = transient_script(3);
    let (result, attempts) = insert_retry(&script);
    assert!(result.is_ok());
    assert_eq!(attempts, 4);
}

#[test]
fn retry_first_attempt_success() {
    let script = transient_script(0);
    let (result, attempts) = insert_retry(&script);
    assert!(result.is_ok());
    assert_eq!(attempts, 1);
}

#[test]
fn retry_gives_up_after_bound() {
    // Always fails: exactly RETRY_COUNT attempts, then the error surfaces.
    let script: Vec<Result<(), DbError>> = vec![Err(DbError::Transient); 12];
    let (result, attempts) = insert_retry(&script);
    assert_eq!(result, Err(DbError::Transient));
    assert_eq!(attempts, RETRY_COUNT as usize);
}

#[test]
fn retry_success_on_last_allowed_attempt() {
    let script = transient_script(9);
    let (result, attempts) = insert_retry(&script);
    assert!(result.is_ok());
    assert_eq!(attempts, 10);
}

#[test]
fn duplicate_collapses_to_exists_without_retry() {
    // A store that always reports duplicate-key: Exists after one attempt.
    let mut script: Vec<Result<(), DbError>> = vec![Err(DbError::DuplicateEntry); 12];
    let (result, attempts) = insert_with_retry_if_not_present(&script);
    assert_eq!(result, Ok(CreateOrExist::Exists));
    assert_eq!(attempts, 1);
    // And a success on the first attempt reports Created.
    script[0] = Ok(());
    let (result, attempts) = insert_with_retry_if_not_present(&script);
    assert_eq!(result, Ok(CreateOrExist::Created));
    assert_eq!(attempts, 1);
}

#[test]
fn writer_exhausts_budget_on_transient_failures() {
    let script: Vec<Result<(), DbError>> = vec![Err(DbError::Transient); 10];
    let (result, attempts) = insert_with_retry_if_not_present(&script);
    assert_eq!(result, Err(DbError::Transient));
    assert_eq!(attempts, 10);
}

#[test]
fn fetch_retry_returns_first_body() {
    let script = vec![
        FetchAttempt::ApiFail,
        FetchAttempt::ApiFail,
        FetchAttempt::Body(String::from("payload")),
        FetchAttempt::ApiFail,
        FetchAttempt::ApiFail,
        FetchAttempt::ApiFail,
        FetchAttempt::ApiFail,
        FetchAttempt::ApiFail,
        FetchAttempt::ApiFail,
        FetchAttempt::ApiFail,
    ];
    let (result, attempts) = get_text_retry(&script);
    assert_eq!(result.unwrap(), "payload");
    assert_eq!(attempts, 3);
}

#[test]
fn fetch_retry_gives_up_after_bound() {
    let mut script: Vec<FetchAttempt> = Vec::new();
    for _ in 0..11 {
        script.push(FetchAttempt::ApiFail);
    }
    let (result, attempts) = get_text_retry(&script);
    assert_eq!(result, Err(EsiError::ApiError));
    assert_eq!(attempts, 10);
}

#[test]
fn backoff_grows_linearly() {
    assert_eq!(retry_delay_ms(9), 200);
    assert_eq!(retry_delay_ms(8), 300);
    assert_eq!(retry_delay_ms(0), 1100);
}

#[test]
fn retry_state_steps() {
    let mut state = RetryState::new();
    assert_eq!(state.retries_left, RETRY_COUNT);
    assert!(matches!(state.step(false), RetryDecision::Settled));
    assert!(matches!(state.step(true), RetryDecision::RetryAfter(200)));
    assert_eq!(state.retries_left, RETRY_COUNT - 1);
    for _ in 0..9 {
        assert!(matches!(state.step(true), RetryDecision::RetryAfter(_)));
    }
    assert_eq!(state.retries_left, 0);
    assert!(matches!(state.step(true), RetryDecision::GiveUp));
}

#[test]
fn duplicate_error_detection() {
    assert!(is_duplicate_err(&DbError::DuplicateEntry));
    assert!(!is_duplicate_err(&DbError::Transient));
}
