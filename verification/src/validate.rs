//! The validator: pure comparison of an extracted product against the fixed
//! expected values of the test fixture.
//!
//! The expected values are named constants, so the same core can be pointed
//! at a different fixture by substituting them.  Prices were round-tripped
//! through text, so they are compared within a named tolerance rather than
//! by a bare equality; with prices held in whole cents the tolerance of zero
//! cents already covers any sub-cent epsilon.  Checks run in a fixed order
//! — price, image, related count, reviews count — and the first mismatch is
//! reported with the whole offending product attached for diagnostics.

use vstd::prelude::*;
use crate::extract::{spec_product_matches, spec_products_equivalent, PageSnapshot, Product};
use crate::extract::lemma_extraction_deterministic;

verus! {

/// Expected product price, in cents.
pub const EXPECTED_PRICE_CENTS: u64 = 24499;

/// Allowed difference between the extracted and the expected price, in
/// cents.
pub const PRICE_TOLERANCE_CENTS: u64 = 0;

/// Expected number of related-item rows in the fixture.
pub const EXPECTED_RELATED_COUNT: usize = 3;

/// Expected number of review rows in the fixture.
pub const EXPECTED_REVIEWS_COUNT: usize = 3;

/// Expected product image path.
pub open spec fn spec_expected_image() -> Seq<char> {
    "images/nomad_000.jpg"@
}

/// Expected product image path, as a value the caller can compare or print.
pub fn expected_image() -> (s: String)
    ensures
        s@ == spec_expected_image(),
{
    "images/nomad_000.jpg".to_owned()
}

/// The first check the product fails, with the observed value.
#[derive(Clone, Copy, Debug, PartialEq, Eq, Structural)]
pub enum Mismatch {
    /// The price is off by more than the tolerance.
    Price { actual_cents: u64 },
    /// The image path differs from the expected one.
    Image,
    /// The related-item count differs from the expected one.
    RelatedCount { actual: usize },
    /// The review count differs from the expected one.
    ReviewsCount { actual: usize },
}

/// A validation failure: the first mismatched check, and the whole product
/// it was found in.
#[derive(Clone, Debug)]
pub struct ValidationError {
    pub mismatch: Mismatch,
    pub product: Product,
}

/// Two cent values within the price tolerance of one another.
pub open spec fn spec_cents_close(a: u64, b: u64) -> bool {
    (if a >= b {
        a - b
    } else {
        b - a
    }) <= PRICE_TOLERANCE_CENTS
}

/// The first mismatch a product shows against the fixture's expected values,
/// checked in order: price, image, related count, reviews count; or `None`
/// when the product passes.
pub open spec fn spec_mismatch(p: Product) -> Option<Mismatch> {
    if !spec_cents_close(p.price_cents, EXPECTED_PRICE_CENTS) {
        Some(Mismatch::Price { actual_cents: p.price_cents })
    } else if p.image@ != spec_expected_image() {
        Some(Mismatch::Image)
    } else if p.related@.len() != EXPECTED_RELATED_COUNT {
        Some(Mismatch::RelatedCount { actual: p.related@.len() as usize })
    } else if p.reviews@.len() != EXPECTED_REVIEWS_COUNT {
        Some(Mismatch::ReviewsCount { actual: p.reviews@.len() as usize })
    } else {
        None
    }
}

/// Checks the product against the fixture's expected values.  Returns the
/// product back on success; on the first mismatch, fails with that mismatch
/// and the whole product attached.
pub fn validate_product(product: Product) -> (r: Result<Product, ValidationError>)
    ensures
        match r {
            Ok(p) => p == product && spec_mismatch(product) is None,
            Err(e) => spec_mismatch(product) == Some(e.mismatch) && e.product == product,
        },
{
    let actual_cents = product.price_cents;
    let diff = if actual_cents >= EXPECTED_PRICE_CENTS {
        actual_cents - EXPECTED_PRICE_CENTS
    } else {
        EXPECTED_PRICE_CENTS - actual_cents
    };
    if diff > PRICE_TOLERANCE_CENTS {
        return Err(ValidationError { mismatch: Mismatch::Price { actual_cents }, product });
    }
    if !(product.image == expected_image()) {
        return Err(ValidationError { mismatch: Mismatch::Image, product });
    }
    let related_count = product.related.len();
    if related_count != EXPECTED_RELATED_COUNT {
        return Err(ValidationError {
            mismatch: Mismatch::RelatedCount { actual: related_count },
            product,
        });
    }
    let reviews_count = product.reviews.len();
    if reviews_count != EXPECTED_REVIEWS_COUNT {
        return Err(ValidationError {
            mismatch: Mismatch::ReviewsCount { actual: reviews_count },
            product,
        });
    }
    Ok(product)
}

/// Products that the validator cannot tell apart: prices within tolerance of
/// one another, equal image paths, equal collection counts.
pub open spec fn spec_validator_equal(p1: Product, p2: Product) -> bool {
    &&& spec_cents_close(p1.price_cents, p2.price_cents)
    &&& p1.image@ == p2.image@
    &&& p1.related@.len() == p2.related@.len()
    &&& p1.reviews@.len() == p2.reviews@.len()
}

/// Law: running the iteration sequence twice against an unchanged fixture is
/// idempotent.  Two products extracted from the same snapshot agree on every
/// field, and in particular compare equal under the validator's rules.
pub proof fn lemma_repeat_extraction_idempotent(p1: Product, p2: Product, s: PageSnapshot)
    requires
        spec_product_matches(p1, s),
        spec_product_matches(p2, s),
    ensures
        spec_products_equivalent(p1, p2),
        spec_validator_equal(p1, p2),
{
    lemma_extraction_deterministic(p1, p2, s);
}

} // verus!
