use campfire_bench::errors::RunError;
use campfire_bench::extract::{
    extract_product, ExtractCause, ExtractError, ExtractField, PageSnapshot, RawRelatedRow,
    RawReviewRow,
};
use campfire_bench::poll::{wait_for_count, wait_for_nonempty, BoolProbe, CountProbe, WaitVerdict};
use campfire_bench::runner::{BenchmarkRun, WAIT_TIMEOUT_MS};
use campfire_bench::validate::{validate_product, Mismatch};

fn related_row(name: &str, price_text: &str, image: &str) -> RawRelatedRow {
    RawRelatedRow {
        name: Some(name.to_string()),
        price_text: Some(price_text.to_string()),
        image: Some(image.to_string()),
    }
}

fn review_row(name: &str, text: &str) -> RawReviewRow {
    RawReviewRow {
        name: Some(name.to_string()),
        text: Some(text.to_string()),
    }
}

fn fixture_snapshot(review_count: usize) -> PageSnapshot {
    let reviewers = [
        ("Ada", "Boils fast, packs small."),
        ("Lin", "Survived a windy week."),
        ("Sam", "Would buy again."),
    ];
    PageSnapshot {
        name: Some("Nomad Camp Stove".to_string()),
        price_text: Some("$244.99".to_string()),
        description: Some("A compact stove for basecamp cooking.".to_string()),
        image: Some("images/nomad_000.jpg".to_string()),
        related: Some(vec![
            related_row("Trail Kettle", "$39.99", "images/kettle_000.jpg"),
            related_row("Camp Mug", "$14.50", "images/mug_000.jpg"),
            related_row("Fuel Canister", "$9.99", "images/fuel_000.jpg"),
        ]),
        reviews: Some(
            reviewers[..review_count]
                .iter()
                .map(|(name, text)| review_row(name, text))
                .collect(),
        ),
    }
}

#[test]
fn one_iteration_against_the_fixture_validates() {
    // Price "$244.99", image "images/nomad_000.jpg", 3 related rows and
    // 3 review rows: the iteration completes and the validator passes.
    let nonempty_probes = vec![
        BoolProbe { elapsed_ms: 0, value: Some(false) },
        BoolProbe { elapsed_ms: 10, value: Some(true) },
    ];
    assert!(matches!(
        wait_for_nonempty("#product-price", &nonempty_probes, WAIT_TIMEOUT_MS),
        WaitVerdict::Satisfied { .. }
    ));
    let count_probes = vec![
        CountProbe { elapsed_ms: 20, value: Some(0) },
        CountProbe { elapsed_ms: 30, value: Some(3) },
    ];
    assert!(matches!(
        wait_for_count("#product-reviews > div", &count_probes, 1, WAIT_TIMEOUT_MS),
        WaitVerdict::Satisfied { .. }
    ));

    let product = extract_product(&fixture_snapshot(3)).unwrap();
    let validated = validate_product(product);
    assert!(validated.is_ok());

    let mut run = BenchmarkRun::new(1);
    assert!(run.should_continue());
    run.record_iteration(42);
    assert!(!run.should_continue());
    let summary = run.summary().unwrap();
    assert_eq!(summary.total_runs, 1);
    assert_eq!(summary.total_duration_ms, 42);
}

#[test]
fn two_reviews_abort_with_a_reviews_count_mismatch() {
    // The same fixture with only 2 review rows: validation fails naming the
    // reviews count, 2 observed against 3 expected.
    let product = extract_product(&fixture_snapshot(2)).unwrap();
    let err = validate_product(product).unwrap_err();
    assert_eq!(err.mismatch, Mismatch::ReviewsCount { actual: 2 });
    assert_eq!(err.product.reviews.len(), 2);
    let run_error = RunError::Validation(err);
    assert_eq!(run_error.label(), "validation error");
}

#[test]
fn price_never_populating_aborts_with_a_timeout_naming_the_selector() {
    // "#product-price" never becomes non-empty within the timeout: the wait
    // fails with a timeout error naming that selector.
    let probes: Vec<BoolProbe> = (0..=500)
        .map(|i| BoolProbe { elapsed_ms: (10 * i) as u64, value: Some(false) })
        .collect();
    let verdict = wait_for_nonempty("#product-price", &probes, WAIT_TIMEOUT_MS);
    match verdict {
        WaitVerdict::TimedOut { error } => {
            assert_eq!(error.selector, "#product-price");
            let run_error = RunError::Timeout(error);
            assert_eq!(run_error.label(), "timeout");
        }
        other => panic!("expected a timeout, got {:?}", other),
    }
}

#[test]
fn repeating_the_iteration_on_an_unchanged_fixture_is_idempotent() {
    // Two full extractions from the same fixture yield products the
    // validator cannot tell apart — and that agree field for field.
    let first = extract_product(&fixture_snapshot(3)).unwrap();
    let second = extract_product(&fixture_snapshot(3)).unwrap();
    assert_eq!(first.name, second.name);
    assert_eq!(first.price_cents, second.price_cents);
    assert_eq!(first.description, second.description);
    assert_eq!(first.image, second.image);
    assert_eq!(first.related.len(), second.related.len());
    for (a, b) in first.related.iter().zip(second.related.iter()) {
        assert_eq!(a.name, b.name);
        assert_eq!(a.price_cents, b.price_cents);
        assert_eq!(a.image, b.image);
    }
    assert_eq!(first.reviews.len(), second.reviews.len());
    for (a, b) in first.reviews.iter().zip(second.reviews.iter()) {
        assert_eq!(a.name, b.name);
        assert_eq!(a.text, b.text);
    }
    assert!(validate_product(first).is_ok());
    assert!(validate_product(second).is_ok());
}

#[test]
fn wrong_price_aborts_with_a_price_mismatch() {
    let mut snapshot = fixture_snapshot(3);
    snapshot.price_text = Some("$244.98".to_string());
    let product = extract_product(&snapshot).unwrap();
    let err = validate_product(product).unwrap_err();
    assert_eq!(err.mismatch, Mismatch::Price { actual_cents: 24498 });
}

#[test]
fn wrong_image_aborts_with_an_image_mismatch() {
    let mut snapshot = fixture_snapshot(3);
    snapshot.image = Some("images/nomad_001.jpg".to_string());
    let product = extract_product(&snapshot).unwrap();
    let err = validate_product(product).unwrap_err();
    assert_eq!(err.mismatch, Mismatch::Image);
    assert_eq!(err.product.image, "images/nomad_001.jpg");
}

#[test]
fn missing_related_row_aborts_with_a_related_count_mismatch() {
    let mut snapshot = fixture_snapshot(3);
    if let Some(rows) = snapshot.related.as_mut() {
        rows.pop();
    }
    let product = extract_product(&snapshot).unwrap();
    let err = validate_product(product).unwrap_err();
    assert_eq!(err.mismatch, Mismatch::RelatedCount { actual: 2 });
}

#[test]
fn error_labels_name_every_category() {
    assert_eq!(
        RunError::Connection { endpoint: "ws://127.0.0.1:9222".to_string() }.label(),
        "connection error"
    );
    assert_eq!(
        RunError::Navigation { url: "http://127.0.0.1:1234/campfire-commerce/".to_string() }
            .label(),
        "navigation error"
    );
    // A transport failure during an evaluation is reported by the caller
    // that performed the call, as an extraction error on the field it was
    // reading.
    let transport = ExtractError {
        field: ExtractField::Price,
        row: None,
        cause: ExtractCause::Transport,
        price_text: None,
    };
    assert_eq!(RunError::Extraction(transport).label(), "extraction error");
}
