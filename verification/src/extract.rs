//! The data extractor: turn raw values read from the rendered document into
//! one fully populated `Product` record.
//!
//! The caller evaluates fixed queries against the document and hands the raw
//! results over as a `PageSnapshot` of plain values: one optional string per
//! scalar field, and one optional row list per collection, where `None`
//! stands for an element or attribute the document did not provide.  Price
//! fields arrive as currency-prefixed text and are parsed here; a missing
//! field, a malformed row, or unparsable price text fails the whole
//! extraction with an error naming the field, the offending row, and the
//! cause.

use vstd::prelude::*;
use crate::price::{parse_price_text, spec_price_cents};

verus! {

/// One related-item row of the document.
#[derive(Clone, Debug)]
pub struct RelatedProduct {
    pub name: String,
    pub price_cents: u64,
    pub image: String,
}

/// One review row of the document.
#[derive(Clone, Debug)]
pub struct Review {
    pub name: String,
    pub text: String,
}

/// The complete product record extracted from one page instance.
#[derive(Clone, Debug)]
pub struct Product {
    pub name: String,
    pub price_cents: u64,
    pub description: String,
    pub image: String,
    pub related: Vec<RelatedProduct>,
    pub reviews: Vec<Review>,
}

/// A related-item row as read from the document, before parsing.
#[derive(Clone, Debug)]
pub struct RawRelatedRow {
    pub name: Option<String>,
    pub price_text: Option<String>,
    pub image: Option<String>,
}

/// A review row as read from the document, before parsing.
#[derive(Clone, Debug)]
pub struct RawReviewRow {
    pub name: Option<String>,
    pub text: Option<String>,
}

/// Everything read from one rendered page instance, as plain values.
/// `None` marks a field or collection the document failed to provide.
#[derive(Clone, Debug)]
pub struct PageSnapshot {
    pub name: Option<String>,
    pub price_text: Option<String>,
    pub description: Option<String>,
    pub image: Option<String>,
    pub related: Option<Vec<RawRelatedRow>>,
    pub reviews: Option<Vec<RawReviewRow>>,
}

/// Which field or collection an extraction failed on.
#[derive(Clone, Copy, Debug, PartialEq, Eq, Structural)]
pub enum ExtractField {
    Name,
    Price,
    Description,
    Image,
    Related,
    Reviews,
}

/// Why an extraction failed on that field.
#[derive(Clone, Copy, Debug, PartialEq, Eq, Structural)]
pub enum ExtractCause {
    /// The element, attribute or row sub-field was absent.
    MissingValue,
    /// Price text did not parse to a representable number of cents.
    PriceParse,
    /// The remote evaluation itself failed.  Produced by the caller that
    /// performs the evaluation, never by `extract_product`.
    Transport,
}

/// An extraction failure: the field it concerns, the row within a collection
/// when one is to blame, the cause, and — for a price-parse failure — the
/// offending price text, so the failure can be diagnosed without
/// reproducing it.
#[derive(Clone, Debug, PartialEq, Eq)]
pub struct ExtractError {
    pub field: ExtractField,
    pub row: Option<usize>,
    pub cause: ExtractCause,
    pub price_text: Option<String>,
}

/// `e` reports the same failure as `x`: the same field, row and cause, and
/// the same offending price text (compared by contents).
pub open spec fn spec_error_matches(e: ExtractError, x: ExtractError) -> bool {
    &&& e.field == x.field
    &&& e.row == x.row
    &&& e.cause == x.cause
    &&& match (e.price_text, x.price_text) {
        (Some(a), Some(b)) => a@ == b@,
        (None, None) => true,
        _ => false,
    }
}

/// Whether price text denotes a value representable in `u64` cents.
pub open spec fn spec_price_fits(s: Seq<char>) -> bool {
    spec_price_cents(s) matches Some(v) && v <= u64::MAX
}

/// The defect of one related-item row, if any: sub-fields are checked in
/// the order name, price, image.
pub open spec fn spec_related_row_error(row: RawRelatedRow) -> Option<ExtractCause> {
    if row.name is None {
        Some(ExtractCause::MissingValue)
    } else if row.price_text is None {
        Some(ExtractCause::MissingValue)
    } else if !spec_price_fits(row.price_text->0@) {
        Some(ExtractCause::PriceParse)
    } else if row.image is None {
        Some(ExtractCause::MissingValue)
    } else {
        None
    }
}

/// The defect of one review row, if any: name is checked before text.
pub open spec fn spec_review_row_error(row: RawReviewRow) -> Option<ExtractCause> {
    if row.name is None {
        Some(ExtractCause::MissingValue)
    } else if row.text is None {
        Some(ExtractCause::MissingValue)
    } else {
        None
    }
}

/// Index of the first defective related-item row, or `rows.len()`.
pub open spec fn spec_first_bad_related(rows: Seq<RawRelatedRow>) -> int
    decreases rows.len(),
{
    if rows.len() == 0 {
        0
    } else if spec_related_row_error(rows[0]) is Some {
        0
    } else {
        1 + spec_first_bad_related(rows.drop_first())
    }
}

/// Index of the first defective review row, or `rows.len()`.
pub open spec fn spec_first_bad_review(rows: Seq<RawReviewRow>) -> int
    decreases rows.len(),
{
    if rows.len() == 0 {
        0
    } else if spec_review_row_error(rows[0]) is Some {
        0
    } else {
        1 + spec_first_bad_review(rows.drop_first())
    }
}

/// The error `extract_product` owes for a snapshot, or `None` when the
/// snapshot is complete.  Fields are checked in document order: name, price,
/// description, image, related items, reviews; within a collection, rows in
/// order.
pub open spec fn spec_extract_error(s: PageSnapshot) -> Option<ExtractError> {
    if s.name is None {
        Some(ExtractError { field: ExtractField::Name, row: None, cause: ExtractCause::MissingValue, price_text: None })
    } else if s.price_text is None {
        Some(ExtractError { field: ExtractField::Price, row: None, cause: ExtractCause::MissingValue, price_text: None })
    } else if !spec_price_fits(s.price_text->0@) {
        Some(ExtractError { field: ExtractField::Price, row: None, cause: ExtractCause::PriceParse, price_text: s.price_text })
    } else if s.description is None {
        Some(ExtractError { field: ExtractField::Description, row: None, cause: ExtractCause::MissingValue, price_text: None })
    } else if s.image is None {
        Some(ExtractError { field: ExtractField::Image, row: None, cause: ExtractCause::MissingValue, price_text: None })
    } else if s.related is None {
        Some(ExtractError { field: ExtractField::Related, row: None, cause: ExtractCause::MissingValue, price_text: None })
    } else if spec_first_bad_related(s.related->0@) < s.related->0@.len() {
        let i = spec_first_bad_related(s.related->0@);
        Some(spec_related_row_as_error(s.related->0@, i))
    } else if s.reviews is None {
        Some(ExtractError { field: ExtractField::Reviews, row: None, cause: ExtractCause::MissingValue, price_text: None })
    } else if spec_first_bad_review(s.reviews->0@) < s.reviews->0@.len() {
        let i = spec_first_bad_review(s.reviews->0@);
        Some(ExtractError {
            field: ExtractField::Reviews,
            row: Some(i as usize),
            cause: spec_review_row_error(s.reviews->0@[i])->0,
            price_text: None,
        })
    } else {
        None
    }
}

/// The error a defective related-item row at index `i` gives rise to: a
/// price-parse failure carries the row's price text.
pub open spec fn spec_related_row_as_error(rows: Seq<RawRelatedRow>, i: int) -> ExtractError {
    let cause = spec_related_row_error(rows[i])->0;
    ExtractError {
        field: ExtractField::Related,
        row: Some(i as usize),
        cause,
        price_text: if cause == ExtractCause::PriceParse {
            rows[i].price_text
        } else {
            None
        },
    }
}

/// A built related item carries exactly the row's values, with the price
/// text parsed to cents.
pub open spec fn spec_related_matches(rp: RelatedProduct, row: RawRelatedRow) -> bool {
    &&& rp.name@ == row.name->0@
    &&& Some(rp.price_cents as int) == spec_price_cents(row.price_text->0@)
    &&& rp.image@ == row.image->0@
}

/// A built review carries exactly the row's values.
pub open spec fn spec_review_matches(rv: Review, row: RawReviewRow) -> bool {
    &&& rv.name@ == row.name->0@
    &&& rv.text@ == row.text->0@
}

/// A built product carries exactly the snapshot's values, field for field
/// and row for row, in document order.
pub open spec fn spec_product_matches(p: Product, s: PageSnapshot) -> bool {
    &&& p.name@ == s.name->0@
    &&& Some(p.price_cents as int) == spec_price_cents(s.price_text->0@)
    &&& p.description@ == s.description->0@
    &&& p.image@ == s.image->0@
    &&& p.related@.len() == s.related->0@.len()
    &&& forall|i: int|
        0 <= i < p.related@.len() ==> spec_related_matches(p.related@[i], s.related->0@[i])
    &&& p.reviews@.len() == s.reviews->0@.len()
    &&& forall|i: int|
        0 <= i < p.reviews@.len() ==> spec_review_matches(p.reviews@[i], s.reviews->0@[i])
}

proof fn lemma_first_bad_related_props(rows: Seq<RawRelatedRow>)
    ensures
        0 <= spec_first_bad_related(rows) <= rows.len(),
        forall|i: int|
            0 <= i < spec_first_bad_related(rows) ==> spec_related_row_error(rows[i]) is None,
        spec_first_bad_related(rows) < rows.len() ==> spec_related_row_error(
            rows[spec_first_bad_related(rows)],
        ) is Some,
    decreases rows.len(),
{
    if rows.len() > 0 && spec_related_row_error(rows[0]) is None {
        lemma_first_bad_related_props(rows.drop_first());
        let k = spec_first_bad_related(rows);
        assert forall|i: int| 0 <= i < k implies spec_related_row_error(rows[i]) is None by {
            if i > 0 {
                assert(rows.drop_first()[i - 1] == rows[i]);
            }
        }
        if k < rows.len() {
            assert(rows.drop_first()[k - 1] == rows[k]);
        }
    }
}

proof fn lemma_first_bad_review_props(rows: Seq<RawReviewRow>)
    ensures
        0 <= spec_first_bad_review(rows) <= rows.len(),
        forall|i: int|
            0 <= i < spec_first_bad_review(rows) ==> spec_review_row_error(rows[i]) is None,
        spec_first_bad_review(rows) < rows.len() ==> spec_review_row_error(
            rows[spec_first_bad_review(rows)],
        ) is Some,
    decreases rows.len(),
{
    if rows.len() > 0 && spec_review_row_error(rows[0]) is None {
        lemma_first_bad_review_props(rows.drop_first());
        let k = spec_first_bad_review(rows);
        assert forall|i: int| 0 <= i < k implies spec_review_row_error(rows[i]) is None by {
            if i > 0 {
                assert(rows.drop_first()[i - 1] == rows[i]);
            }
        }
        if k < rows.len() {
            assert(rows.drop_first()[k - 1] == rows[k]);
        }
    }
}

/// When rows below `i` are sound and row `i` is defective, `i` is the first
/// defective row.
proof fn lemma_first_bad_related_at(rows: Seq<RawRelatedRow>, i: int)
    requires
        0 <= i < rows.len(),
        forall|j: int| 0 <= j < i ==> spec_related_row_error(rows[j]) is None,
        spec_related_row_error(rows[i]) is Some,
    ensures
        spec_first_bad_related(rows) == i,
{
    lemma_first_bad_related_props(rows);
    let k = spec_first_bad_related(rows);
    if k < i {
        assert(spec_related_row_error(rows[k]) is None);
    }
    if k > i {
        assert(spec_related_row_error(rows[i]) is None);
    }
}

/// When rows below `i` are sound and row `i` is defective, `i` is the first
/// defective row.
proof fn lemma_first_bad_review_at(rows: Seq<RawReviewRow>, i: int)
    requires
        0 <= i < rows.len(),
        forall|j: int| 0 <= j < i ==> spec_review_row_error(rows[j]) is None,
        spec_review_row_error(rows[i]) is Some,
    ensures
        spec_first_bad_review(rows) == i,
{
    lemma_first_bad_review_props(rows);
    let k = spec_first_bad_review(rows);
    if k < i {
        assert(spec_review_row_error(rows[k]) is None);
    }
    if k > i {
        assert(spec_review_row_error(rows[i]) is None);
    }
}

/// Builds the related-item records from the raw rows, or reports the first
/// defective row.
fn build_related(rows: &Vec<RawRelatedRow>) -> (r: Result<Vec<RelatedProduct>, ExtractError>)
    ensures
        match r {
            Ok(out) => spec_first_bad_related(rows@) == rows@.len() && out@.len() == rows@.len()
                && forall|i: int|
                0 <= i < out@.len() ==> spec_related_matches(out@[i], rows@[i]),
            Err(e) => spec_first_bad_related(rows@) < rows@.len() && spec_error_matches(
                e,
                spec_related_row_as_error(rows@, spec_first_bad_related(rows@)),
            ),
        },
{
    let n = rows.len();
    let mut out: Vec<RelatedProduct> = Vec::new();
    let mut i: usize = 0;
    while i < n
        invariant
            0 <= i <= n,
            n == rows@.len(),
            out@.len() == i,
            forall|j: int| 0 <= j < i ==> spec_related_row_error(rows@[j]) is None,
            forall|j: int| 0 <= j < i ==> spec_related_matches(out@[j], rows@[j]),
        decreases n - i,
    {
        let row = &rows[i];
        let name = match &row.name {
            Some(v) => v.clone(),
            None => {
                proof {
                    lemma_first_bad_related_at(rows@, i as int);
                }
                return Err(ExtractError {
                    field: ExtractField::Related,
                    row: Some(i),
                    cause: ExtractCause::MissingValue,
                    price_text: None,
                });
            },
        };
        let price_text = match &row.price_text {
            Some(v) => v,
            None => {
                proof {
                    lemma_first_bad_related_at(rows@, i as int);
                }
                return Err(ExtractError {
                    field: ExtractField::Related,
                    row: Some(i),
                    cause: ExtractCause::MissingValue,
                    price_text: None,
                });
            },
        };
        let price_cents = match parse_price_text(price_text.as_str()) {
            Ok(c) => c,
            Err(_) => {
                proof {
                    lemma_first_bad_related_at(rows@, i as int);
                }
                return Err(ExtractError {
                    field: ExtractField::Related,
                    row: Some(i),
                    cause: ExtractCause::PriceParse,
                    price_text: Some(price_text.clone()),
                });
            },
        };
        let image = match &row.image {
            Some(v) => v.clone(),
            None => {
                proof {
                    lemma_first_bad_related_at(rows@, i as int);
                }
                return Err(ExtractError {
                    field: ExtractField::Related,
                    row: Some(i),
                    cause: ExtractCause::MissingValue,
                    price_text: None,
                });
            },
        };
        out.push(RelatedProduct { name, price_cents, image });
        i += 1;
    }
    proof {
        lemma_first_bad_related_props(rows@);
        let k = spec_first_bad_related(rows@);
        if k < rows@.len() {
            assert(spec_related_row_error(rows@[k]) is None);
        }
    }
    Ok(out)
}

/// Builds the review records from the raw rows, or reports the first
/// defective row.
fn build_reviews(rows: &Vec<RawReviewRow>) -> (r: Result<Vec<Review>, ExtractError>)
    ensures
        match r {
            Ok(out) => spec_first_bad_review(rows@) == rows@.len() && out@.len() == rows@.len()
                && forall|i: int|
                0 <= i < out@.len() ==> spec_review_matches(out@[i], rows@[i]),
            Err(e) => spec_first_bad_review(rows@) < rows@.len() && e == (ExtractError {
                field: ExtractField::Reviews,
                row: Some(spec_first_bad_review(rows@) as usize),
                cause: spec_review_row_error(rows@[spec_first_bad_review(rows@)])->0,
                price_text: None,
            }),
        },
{
    let n = rows.len();
    let mut out: Vec<Review> = Vec::new();
    let mut i: usize = 0;
    while i < n
        invariant
            0 <= i <= n,
            n == rows@.len(),
            out@.len() == i,
            forall|j: int| 0 <= j < i ==> spec_review_row_error(rows@[j]) is None,
            forall|j: int| 0 <= j < i ==> spec_review_matches(out@[j], rows@[j]),
        decreases n - i,
    {
        let row = &rows[i];
        let name = match &row.name {
            Some(v) => v.clone(),
            None => {
                proof {
                    lemma_first_bad_review_at(rows@, i as int);
                }
                return Err(ExtractError {
                    field: ExtractField::Reviews,
                    row: Some(i),
                    cause: ExtractCause::MissingValue,
                    price_text: None,
                });
            },
        };
        let text = match &row.text {
            Some(v) => v.clone(),
            None => {
                proof {
                    lemma_first_bad_review_at(rows@, i as int);
                }
                return Err(ExtractError {
                    field: ExtractField::Reviews,
                    row: Some(i),
                    cause: ExtractCause::MissingValue,
                    price_text: None,
                });
            },
        };
        out.push(Review { name, text });
        i += 1;
    }
    proof {
        lemma_first_bad_review_props(rows@);
        let k = spec_first_bad_review(rows@);
        if k < rows@.len() {
            assert(spec_review_row_error(rows@[k]) is None);
        }
    }
    Ok(out)
}

/// Assembles one `Product` from a page snapshot, or fails with an error
/// naming the first field or row, in document order, that the snapshot
/// cannot supply.  Succeeds exactly when the snapshot is complete: every
/// scalar field present, every row sound, every price parsable.
pub fn extract_product(snapshot: &PageSnapshot) -> (r: Result<Product, ExtractError>)
    ensures
        match r {
            Ok(p) => spec_extract_error(*snapshot) is None && spec_product_matches(p, *snapshot),
            Err(e) => spec_extract_error(*snapshot) matches Some(x) && spec_error_matches(e, x),
        },
{
    let name = match &snapshot.name {
        Some(v) => v.clone(),
        None => {
            return Err(ExtractError {
                field: ExtractField::Name,
                row: None,
                cause: ExtractCause::MissingValue,
                price_text: None,
            });
        },
    };
    let price_text = match &snapshot.price_text {
        Some(v) => v,
        None => {
            return Err(ExtractError {
                field: ExtractField::Price,
                row: None,
                cause: ExtractCause::MissingValue,
                price_text: None,
            });
        },
    };
    let price_cents = match parse_price_text(price_text.as_str()) {
        Ok(c) => c,
        Err(_) => {
            return Err(ExtractError {
                field: ExtractField::Price,
                row: None,
                cause: ExtractCause::PriceParse,
                price_text: Some(price_text.clone()),
            });
        },
    };
    let description = match &snapshot.description {
        Some(v) => v.clone(),
        None => {
            return Err(ExtractError {
                field: ExtractField::Description,
                row: None,
                cause: ExtractCause::MissingValue,
                price_text: None,
            });
        },
    };
    let image = match &snapshot.image {
        Some(v) => v.clone(),
        None => {
            return Err(ExtractError {
                field: ExtractField::Image,
                row: None,
                cause: ExtractCause::MissingValue,
                price_text: None,
            });
        },
    };
    let related_rows = match &snapshot.related {
        Some(v) => v,
        None => {
            return Err(ExtractError {
                field: ExtractField::Related,
                row: None,
                cause: ExtractCause::MissingValue,
                price_text: None,
            });
        },
    };
    let related = match build_related(related_rows) {
        Ok(v) => v,
        Err(e) => {
            return Err(e);
        },
    };
    let review_rows = match &snapshot.reviews {
        Some(v) => v,
        None => {
            return Err(ExtractError {
                field: ExtractField::Reviews,
                row: None,
                cause: ExtractCause::MissingValue,
                price_text: None,
            });
        },
    };
    let reviews = match build_reviews(review_rows) {
        Ok(v) => v,
        Err(e) => {
            return Err(e);
        },
    };
    Ok(Product { name, price_cents, description, image, related, reviews })
}

/// Both products agree on every field the extractor fills: same name, price,
/// description and image, and element-wise equal related items and reviews.
pub open spec fn spec_products_equivalent(p1: Product, p2: Product) -> bool {
    &&& p1.name@ == p2.name@
    &&& p1.price_cents == p2.price_cents
    &&& p1.description@ == p2.description@
    &&& p1.image@ == p2.image@
    &&& p1.related@.len() == p2.related@.len()
    &&& forall|i: int|
        0 <= i < p1.related@.len() ==> p1.related@[i].name@ == p2.related@[i].name@
            && p1.related@[i].price_cents == p2.related@[i].price_cents && p1.related@[i].image@
            == p2.related@[i].image@
    &&& p1.reviews@.len() == p2.reviews@.len()
    &&& forall|i: int|
        0 <= i < p1.reviews@.len() ==> p1.reviews@[i].name@ == p2.reviews@[i].name@
            && p1.reviews@[i].text@ == p2.reviews@[i].text@
}

/// Law: extraction is deterministic.  Any two products extracted from one
/// unchanged snapshot agree on every field, element-wise.
pub proof fn lemma_extraction_deterministic(p1: Product, p2: Product, s: PageSnapshot)
    requires
        spec_product_matches(p1, s),
        spec_product_matches(p2, s),
    ensures
        spec_products_equivalent(p1, p2),
{
    assert forall|i: int|
        0 <= i < p1.related@.len() implies p1.related@[i].name@ == p2.related@[i].name@
        && p1.related@[i].price_cents == p2.related@[i].price_cents && p1.related@[i].image@
        == p2.related@[i].image@ by {
        assert(spec_related_matches(p1.related@[i], s.related->0@[i]));
        assert(spec_related_matches(p2.related@[i], s.related->0@[i]));
    }
    assert forall|i: int|
        0 <= i < p1.reviews@.len() implies p1.reviews@[i].name@ == p2.reviews@[i].name@
        && p1.reviews@[i].text@ == p2.reviews@[i].text@ by {
        assert(spec_review_matches(p1.reviews@[i], s.reviews->0@[i]));
        assert(spec_review_matches(p2.reviews@[i], s.reviews->0@[i]));
    }
}

} // verus!
