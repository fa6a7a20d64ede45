use campfire_bench::extract::{
    extract_product, ExtractCause, ExtractError, ExtractField, PageSnapshot, RawRelatedRow,
    RawReviewRow,
};

fn related_row(name: &str, price_text: &str, image: &str) -> RawRelatedRow {
    RawRelatedRow {
        name: Some(name.to_string()),
        price_text: Some(price_text.to_string()),
        image: Some(image.to_string()),
    }
}

fn review_row(name: &str, text: &str) -> RawReviewRow {
    RawReviewRow {
        name: Some(name.to_string()),
        text: Some(text.to_string()),
    }
}

fn fixture_snapshot() -> PageSnapshot {
    PageSnapshot {
        name: Some("Nomad Camp Stove".to_string()),
        price_text: Some("$244.99".to_string()),
        description: Some("A compact stove for basecamp cooking.".to_string()),
        image: Some("images/nomad_000.jpg".to_string()),
        related: Some(vec![
            related_row("Trail Kettle", "$39.99", "images/kettle_000.jpg"),
            related_row("Camp Mug", "$14.50", "images/mug_000.jpg"),
            related_row("Fuel Canister", "$9.99", "images/fuel_000.jpg"),
        ]),
        reviews: Some(vec![
            review_row("Ada", "Boils fast, packs small."),
            review_row("Lin", "Survived a windy week."),
            review_row("Sam", "Would buy again."),
        ]),
    }
}

#[test]
fn extracts_complete_snapshot() {
    let product = extract_product(&fixture_snapshot()).unwrap();
    assert_eq!(product.name, "Nomad Camp Stove");
    assert_eq!(product.price_cents, 24499);
    assert_eq!(product.description, "A compact stove for basecamp cooking.");
    assert_eq!(product.image, "images/nomad_000.jpg");
    assert_eq!(product.related.len(), 3);
    assert_eq!(product.related[0].name, "Trail Kettle");
    assert_eq!(product.related[0].price_cents, 3999);
    assert_eq!(product.related[0].image, "images/kettle_000.jpg");
    assert_eq!(product.related[1].price_cents, 1450);
    assert_eq!(product.related[2].price_cents, 999);
    assert_eq!(product.reviews.len(), 3);
    assert_eq!(product.reviews[0].name, "Ada");
    assert_eq!(product.reviews[2].text, "Would buy again.");
}

#[test]
fn preserves_document_order_of_rows() {
    let product = extract_product(&fixture_snapshot()).unwrap();
    let related_names: Vec<&str> = product.related.iter().map(|r| r.name.as_str()).collect();
    assert_eq!(related_names, ["Trail Kettle", "Camp Mug", "Fuel Canister"]);
    let reviewers: Vec<&str> = product.reviews.iter().map(|r| r.name.as_str()).collect();
    assert_eq!(reviewers, ["Ada", "Lin", "Sam"]);
}

#[test]
fn missing_name_fails_on_that_field() {
    let mut snapshot = fixture_snapshot();
    snapshot.name = None;
    assert_eq!(
        extract_product(&snapshot).unwrap_err(),
        ExtractError {
            field: ExtractField::Name,
            row: None,
            cause: ExtractCause::MissingValue,
            price_text: None,
        }
    );
}

#[test]
fn missing_price_element_is_a_missing_value() {
    let mut snapshot = fixture_snapshot();
    snapshot.price_text = None;
    assert_eq!(
        extract_product(&snapshot).unwrap_err(),
        ExtractError {
            field: ExtractField::Price,
            row: None,
            cause: ExtractCause::MissingValue,
            price_text: None,
        }
    );
}

#[test]
fn unparsable_price_is_a_parse_failure_not_a_missing_value() {
    let mut snapshot = fixture_snapshot();
    snapshot.price_text = Some("$n/a".to_string());
    assert_eq!(
        extract_product(&snapshot).unwrap_err(),
        ExtractError {
            field: ExtractField::Price,
            row: None,
            cause: ExtractCause::PriceParse,
            price_text: Some("$n/a".to_string()),
        }
    );
}

#[test]
fn missing_image_fails_on_that_field() {
    let mut snapshot = fixture_snapshot();
    snapshot.image = None;
    assert_eq!(
        extract_product(&snapshot).unwrap_err(),
        ExtractError {
            field: ExtractField::Image,
            row: None,
            cause: ExtractCause::MissingValue,
            price_text: None,
        }
    );
}

#[test]
fn malformed_related_row_reports_its_index() {
    let mut snapshot = fixture_snapshot();
    if let Some(rows) = snapshot.related.as_mut() {
        rows[1].image = None;
    }
    assert_eq!(
        extract_product(&snapshot).unwrap_err(),
        ExtractError {
            field: ExtractField::Related,
            row: Some(1),
            cause: ExtractCause::MissingValue,
            price_text: None,
        }
    );
}

#[test]
fn bad_related_price_reports_a_row_parse_failure() {
    let mut snapshot = fixture_snapshot();
    if let Some(rows) = snapshot.related.as_mut() {
        rows[2].price_text = Some("soon".to_string());
    }
    assert_eq!(
        extract_product(&snapshot).unwrap_err(),
        ExtractError {
            field: ExtractField::Related,
            row: Some(2),
            cause: ExtractCause::PriceParse,
            price_text: Some("soon".to_string()),
        }
    );
}

#[test]
fn malformed_review_row_reports_its_index() {
    let mut snapshot = fixture_snapshot();
    if let Some(rows) = snapshot.reviews.as_mut() {
        rows[0].text = None;
    }
    assert_eq!(
        extract_product(&snapshot).unwrap_err(),
        ExtractError {
            field: ExtractField::Reviews,
            row: Some(0),
            cause: ExtractCause::MissingValue,
            price_text: None,
        }
    );
}

#[test]
fn missing_collections_fail_as_missing_values() {
    let mut snapshot = fixture_snapshot();
    snapshot.related = None;
    assert_eq!(
        extract_product(&snapshot).unwrap_err(),
        ExtractError {
            field: ExtractField::Related,
            row: None,
            cause: ExtractCause::MissingValue,
            price_text: None,
        }
    );

    let mut snapshot = fixture_snapshot();
    snapshot.reviews = None;
    assert_eq!(
        extract_product(&snapshot).unwrap_err(),
        ExtractError {
            field: ExtractField::Reviews,
            row: None,
            cause: ExtractCause::MissingValue,
            price_text: None,
        }
    );
}

#[test]
fn earlier_fields_win_when_several_are_missing() {
    let mut snapshot = fixture_snapshot();
    snapshot.price_text = None;
    snapshot.image = None;
    let err = extract_product(&snapshot).unwrap_err();
    assert_eq!(err.field, ExtractField::Price);
}
