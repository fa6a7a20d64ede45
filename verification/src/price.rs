//! Parsing of currency-prefixed price text into whole cents.
//!
//! Prices appear in the document as text such as `"$244.99"`.  The library
//! models a price as a number of cents (`u64`), which keeps the value exact:
//! the accepted grammar is any run of leading `'$'` signs, then decimal
//! digits with an optional `'.'` and further digits, where at least one
//! digit appears on one side of the dot and any fraction digits beyond the
//! second are zero.  So `"$244.99"`, `"$5."`, `"$.99"` and `"$244.990"` all
//! parse, each to its exact value in cents.  Text with non-zero digits past
//! the second fractional place is rejected rather than rounded: the cents
//! model holds no sub-cent precision, and silent rounding would let a price
//! pass validation that the page never showed.  A price is non-negative by
//! construction, matching the data-model invariant that prices are finite
//! and non-negative.

use vstd::prelude::*;

verus! {

/// Why a piece of price text was rejected.
#[derive(Clone, Copy, Debug, PartialEq, Eq, Structural)]
pub enum PriceParseError {
    /// The text does not match the price grammar.
    Malformed,
    /// The text is well-formed but the value in cents does not fit in `u64`.
    TooLarge,
}

pub open spec fn spec_is_digit(c: char) -> bool {
    48 <= c as u32 && c as u32 <= 57
}

pub open spec fn spec_digit_val(c: char) -> int {
    c as u32 - 48
}

pub open spec fn spec_all_digits(s: Seq<char>) -> bool {
    forall|i: int| 0 <= i < s.len() ==> spec_is_digit(s[i])
}

/// Value of a digit string read most-significant first.
pub open spec fn spec_digits_value(s: Seq<char>) -> int
    decreases s.len(),
{
    if s.len() == 0 {
        0
    } else {
        spec_digits_value(s.drop_last()) * 10 + spec_digit_val(s.last())
    }
}

/// Index of the first `'.'` in `s`, or `s.len()` if there is none.
pub open spec fn spec_first_dot(s: Seq<char>) -> int
    decreases s.len(),
{
    if s.len() == 0 {
        0
    } else if s[0] == '.' {
        0
    } else {
        1 + spec_first_dot(s.drop_first())
    }
}

/// The text with every leading `'$'` removed.
pub open spec fn spec_strip_dollars(s: Seq<char>) -> Seq<char>
    decreases s.len(),
{
    if s.len() > 0 && s[0] == '$' {
        spec_strip_dollars(s.drop_first())
    } else {
        s
    }
}

/// Fraction digits beyond the second place must all be zero: the cents
/// model holds no sub-cent precision.
pub open spec fn spec_frac_whole_cents(f: Seq<char>) -> bool {
    forall|i: int| 2 <= i < f.len() ==> f[i] == '0'
}

/// Cents contributed by the first two fraction digits (any further digits
/// are zeros and contribute nothing).
pub open spec fn spec_frac_cents(f: Seq<char>) -> int {
    if f.len() == 0 {
        0
    } else if f.len() == 1 {
        spec_digit_val(f[0]) * 10
    } else {
        spec_digit_val(f[0]) * 10 + spec_digit_val(f[1])
    }
}

/// The value in cents denoted by price text, or `None` if the text does not
/// match the grammar: leading `'$'` signs, then digits with an optional
/// `'.'` and further digits — at least one digit in all, and every fraction
/// digit beyond the second a zero.
pub open spec fn spec_price_cents(s: Seq<char>) -> Option<int> {
    let t = spec_strip_dollars(s);
    let d = spec_first_dot(t);
    if d == t.len() {
        if t.len() >= 1 && spec_all_digits(t) {
            Some(spec_digits_value(t) * 100)
        } else {
            None
        }
    } else {
        let int_part = t.subrange(0, d);
        let frac = t.subrange(d + 1, t.len() as int);
        if (int_part.len() >= 1 || frac.len() >= 1) && spec_all_digits(int_part)
            && spec_all_digits(frac) && spec_frac_whole_cents(frac) {
            Some(spec_digits_value(int_part) * 100 + spec_frac_cents(frac))
        } else {
            None
        }
    }
}

proof fn lemma_digits_value_nonneg(s: Seq<char>)
    requires
        spec_all_digits(s),
    ensures
        spec_digits_value(s) >= 0,
    decreases s.len(),
{
    if s.len() > 0 {
        assert(spec_all_digits(s.drop_last()));
        lemma_digits_value_nonneg(s.drop_last());
        assert(spec_digit_val(s.last()) >= 0);
    }
}

/// A digit string is worth at least as much as any of its prefixes.
proof fn lemma_digits_value_prefix(s: Seq<char>, k: int)
    requires
        spec_all_digits(s),
        0 <= k <= s.len(),
    ensures
        spec_digits_value(s) >= spec_digits_value(s.take(k)),
    decreases s.len() - k,
{
    if k < s.len() {
        let p = s.take(k);
        let q = s.take(k + 1);
        assert(q.drop_last() =~= p);
        assert(spec_all_digits(p));
        assert(spec_digits_value(q) == spec_digits_value(p) * 10 + spec_digit_val(q.last()));
        lemma_digits_value_nonneg(p);
        lemma_digits_value_prefix(s, k + 1);
        assert(s.take(s.len() as int) =~= s);
    } else {
        assert(s.take(k) =~= s);
    }
}

/// Everything before the first dot is not a dot, and the first dot, when it
/// exists, is a dot.
proof fn lemma_first_dot_props(s: Seq<char>)
    ensures
        0 <= spec_first_dot(s) <= s.len(),
        forall|i: int| 0 <= i < spec_first_dot(s) ==> s[i] != '.',
        spec_first_dot(s) < s.len() ==> s[spec_first_dot(s)] == '.',
    decreases s.len(),
{
    if s.len() > 0 && s[0] != '.' {
        lemma_first_dot_props(s.drop_first());
        let d = spec_first_dot(s);
        assert forall|i: int| 0 <= i < d implies s[i] != '.' by {
            if i > 0 {
                assert(s.drop_first()[i - 1] == s[i]);
            }
        }
        if d < s.len() {
            assert(s.drop_first()[d - 1] == s[d]);
        }
    }
}

/// A dollar-sign prefix of length `k` strips to the suffix from `k` on.
proof fn lemma_strip_dollars_at(s: Seq<char>, k: int)
    requires
        0 <= k <= s.len(),
        forall|j: int| 0 <= j < k ==> s[j] == '$',
        k < s.len() ==> s[k] != '$',
    ensures
        spec_strip_dollars(s) == s.subrange(k, s.len() as int),
    decreases k,
{
    if k == 0 {
        assert(s.subrange(0, s.len() as int) =~= s);
    } else {
        let r = s.drop_first();
        assert(s[0] == '$');
        lemma_strip_dollars_at(r, k - 1);
        assert(r.subrange(k - 1, r.len() as int) =~= s.subrange(k, s.len() as int));
    }
}

/// Digit value of the character at `i`, or `None` if it is not a digit.
fn digit_at(text: &str, i: usize) -> (r: Option<u64>)
    requires
        i < text@.len(),
    ensures
        match r {
            Some(d) => spec_is_digit(text@[i as int]) && d == spec_digit_val(text@[i as int]),
            None => !spec_is_digit(text@[i as int]),
        },
{
    let c = text.get_char(i);
    let u = c as u32;
    if 48 <= u && u <= 57 {
        Some((u - 48) as u64)
    } else {
        None
    }
}

/// Whether the character at `i` is exactly `'.'`.
fn dot_at(text: &str, i: usize) -> (r: bool)
    requires
        i < text@.len(),
    ensures
        r == (text@[i as int] == '.'),
{
    text.get_char(i) == '.'
}

/// Parses currency-prefixed price text into whole cents.
///
/// Returns `Ok(cents)` exactly when the text matches the price grammar and
/// its value fits in `u64`.  `Err(Malformed)` reports text that does not
/// match the grammar, including text whose sub-cent digits are not zero;
/// `Err(TooLarge)` reports a digit run whose value in cents already exceeds
/// `u64::MAX` (reported as soon as the scan sees it, so the remainder of
/// such text is not classified further).
pub fn parse_price_text(text: &str) -> (r: Result<u64, PriceParseError>)
    ensures
        match r {
            Ok(c) => spec_price_cents(text@) == Some(c as int),
            Err(PriceParseError::Malformed) => spec_price_cents(text@) is None,
            Err(PriceParseError::TooLarge) => spec_price_cents(text@) matches Some(v) ==> v
                > u64::MAX,
        },
{
    let ghost s = text@;
    let n = text.unicode_len();

    // Skip the leading run of '$' signs.
    let mut start: usize = 0;
    while start < n && text.get_char(start) == '$'
        invariant
            0 <= start <= n,
            n == s.len(),
            s == text@,
            forall|j: int| 0 <= j < start ==> s[j] == '$',
        decreases n - start,
    {
        start += 1;
    }
    proof {
        lemma_strip_dollars_at(s, start as int);
    }
    let ghost t = s.subrange(start as int, n as int);
    proof {
        lemma_first_dot_props(t);
    }

    // Accumulate the integer part.
    let mut j: usize = start;
    let mut acc: u64 = 0;
    loop
        invariant
            start <= j <= n,
            n == s.len(),
            s == text@,
            t == s.subrange(start as int, n as int),
            spec_strip_dollars(s) == t,
            spec_all_digits(s.subrange(start as int, j as int)),
            acc == spec_digits_value(s.subrange(start as int, j as int)),
        ensures
            start <= j <= n,
            spec_all_digits(s.subrange(start as int, j as int)),
            acc == spec_digits_value(s.subrange(start as int, j as int)),
            j == n || !spec_is_digit(s[j as int]),
        decreases n - j,
    {
        if j >= n {
            break;
        }
        match digit_at(text, j) {
            None => { break; },
            Some(d) => {
                let ghost p = s.subrange(start as int, j as int);
                let ghost q = s.subrange(start as int, j + 1 as int);
                proof {
                    assert(q.drop_last() =~= p);
                    assert(q.last() == s[j as int]);
                }
                if acc > (u64::MAX - d) / 10 {
                    // The integer part alone no longer fits: the full value,
                    // if the text is well-formed at all, exceeds u64::MAX.
                    proof {
                        lemma_price_overflow(s, start as int, j as int, d);
                    }
                    return Err(PriceParseError::TooLarge);
                }
                acc = acc * 10 + d;
                j += 1;
            },
        }
    }

    if j == n {
        if j == start {
            // Nothing but '$' signs: no digit anywhere.
            proof {
                assert(t.len() == 0);
            }
            return Err(PriceParseError::Malformed);
        }
        // Digits to the end: no fraction part.
        proof {
            assert(t =~= s.subrange(start as int, j as int));
            assert(forall|i: int| 0 <= i < t.len() ==> t[i] != '.');
            if spec_first_dot(t) < t.len() {
                assert(t[spec_first_dot(t)] == '.');
            }
        }
        if acc > u64::MAX / 100 {
            proof {
                assert(acc * 100 > u64::MAX) by (nonlinear_arith)
                    requires
                        acc > u64::MAX / 100,
                        acc <= u64::MAX,
                ;
            }
            return Err(PriceParseError::TooLarge);
        }
        return Ok(acc * 100);
    }

    // A non-digit stopped the scan strictly inside the text.
    if !dot_at(text, j) {
        // Not a dot either: the text cannot match the grammar.
        proof {
            let d = spec_first_dot(t);
            let bad = j - start;
            assert(t[bad as int] == s[j as int]);
            assert(!spec_is_digit(t[bad as int]));
            assert(t[bad as int] != '.');
            if d < t.len() {
                assert(forall|i: int| 0 <= i < d ==> t[i] != '.');
                assert(d != bad);
                if d < bad {
                    assert(spec_is_digit(t[d]));
                } else {
                    assert(t.subrange(0, d)[bad as int] == t[bad as int]);
                    assert(!spec_all_digits(t.subrange(0, d)));
                }
            } else {
                assert(!spec_all_digits(t));
            }
        }
        return Err(PriceParseError::Malformed);
    }

    // s[j] is the first dot of t.
    proof {
        lemma_dot_position(s, t, start as int, j as int);
    }
    let ghost dot = (j - start) as int;
    let ghost frac = t.subrange(dot + 1, t.len() as int);
    let flen = n - j - 1;
    proof {
        assert(frac.len() == flen);
        assert(t.subrange(0, dot) =~= s.subrange(start as int, j as int));
    }
    if j == start && flen == 0 {
        // A bare dot: no digit on either side.
        proof {
            assert(t.subrange(0, dot).len() == 0);
            assert(frac.len() == 0);
        }
        return Err(PriceParseError::Malformed);
    }

    // Read the first two fraction digits, which carry the cents.
    let mut fc: u64 = 0;
    if flen >= 1 {
        match digit_at(text, j + 1) {
            None => {
                proof {
                    assert(frac[0] == s[j + 1]);
                }
                return Err(PriceParseError::Malformed);
            },
            Some(d0) => {
                fc = d0 * 10;
                proof {
                    assert(frac[0] == s[j + 1]);
                }
            },
        }
    }
    if flen >= 2 {
        match digit_at(text, j + 2) {
            None => {
                proof {
                    assert(frac[1] == s[j + 2]);
                }
                return Err(PriceParseError::Malformed);
            },
            Some(d1) => {
                fc = fc + d1;
                proof {
                    assert(frac[0] == s[j + 1]);
                    assert(frac[1] == s[j + 2]);
                }
            },
        }
    }

    // Any further fraction digits must be zeros: the cents model cannot
    // hold sub-cent precision, and rounding would falsify validation.
    let mut k: usize = 3;
    #[verifier::loop_isolation(false)]
    while k <= flen
        invariant
            3 <= k,
            k <= flen + 1 || k == 3,
            forall|i: int| 2 <= i < k - 1 ==> frac[i] == '0',
        decreases flen + 1 - k,
    {
        let c = text.get_char(j + k);
        proof {
            assert(frac[k - 1] == s[j + k]);
        }
        if !(c == '0') {
            proof {
                if spec_is_digit(s[(j + k) as int]) {
                    assert(!spec_frac_whole_cents(frac));
                } else {
                    assert(!spec_all_digits(frac));
                }
            }
            return Err(PriceParseError::Malformed);
        }
        k += 1;
    }
    proof {
        assert(spec_is_digit('0'));
        assert(spec_frac_whole_cents(frac));
        assert(spec_all_digits(frac));
        assert(fc == spec_frac_cents(frac));
        assert(fc <= 99);
    }

    if acc > (u64::MAX - fc) / 100 {
        proof {
            assert(acc * 100 + fc > u64::MAX) by (nonlinear_arith)
                requires
                    acc > (u64::MAX - fc) / 100,
                    acc <= u64::MAX,
                    fc <= 99,
            ;
        }
        return Err(PriceParseError::TooLarge);
    }
    proof {
        assert(acc * 100 + fc <= u64::MAX) by (nonlinear_arith)
            requires
                acc <= (u64::MAX - fc) / 100,
                fc <= 99,
        ;
    }
    Ok(acc * 100 + fc)
}

/// When the digit run at the front of the stripped text already exceeds what
/// fits, any well-formed reading of the whole text exceeds `u64::MAX` cents.
proof fn lemma_price_overflow(s: Seq<char>, start: int, j: int, d: u64)
    requires
        0 <= start <= j < s.len(),
        spec_strip_dollars(s) == s.subrange(start, s.len() as int),
        spec_all_digits(s.subrange(start, j)),
        spec_is_digit(s[j]),
        d == spec_digit_val(s[j]),
        spec_digits_value(s.subrange(start, j)) * 10 + d > u64::MAX,
    ensures
        spec_price_cents(s) matches Some(v) ==> v > u64::MAX,
{
    let t = s.subrange(start, s.len() as int);
    let q = s.subrange(start, j + 1);
    assert(q.drop_last() =~= s.subrange(start, j));
    assert(q.last() == s[j]);
    assert(spec_digits_value(q) > u64::MAX);
    assert(spec_all_digits(q));
    lemma_first_dot_props(t);
    let dot = spec_first_dot(t);
    let pref = j + 1 - start;
    if spec_price_cents(s) is Some {
        if dot == t.len() {
            // the whole stripped text is the integer part
            assert(t.take(pref) =~= q);
            lemma_digits_value_prefix(t, pref);
            lemma_digits_value_nonneg(t);
            assert(spec_digits_value(t) * 100 >= spec_digits_value(t)) by (nonlinear_arith)
                requires
                    spec_digits_value(t) >= 0,
            ;
        } else {
            let int_part = t.subrange(0, dot);
            // every position below `pref` holds a digit, so the dot is at or
            // beyond `pref` and the scanned run is a prefix of the integer part
            assert(forall|i: int| 0 <= i < pref ==> t[i] == s[start + i] && spec_is_digit(t[i]));
            assert(dot >= pref);
            assert(int_part.take(pref) =~= q);
            lemma_digits_value_prefix(int_part, pref);
            lemma_digits_value_nonneg(int_part);
            let frac = t.subrange(dot + 1, t.len() as int);
            if spec_all_digits(frac) {
                assert(spec_frac_cents(frac) >= 0);
            }
            assert(spec_digits_value(int_part) * 100 >= spec_digits_value(int_part))
                by (nonlinear_arith)
                requires
                    spec_digits_value(int_part) >= 0,
            ;
        }
    }
}

/// When digits run from `start` to `j` and `s[j]` is a dot, that dot is the
/// first dot of the stripped text.
proof fn lemma_dot_position(s: Seq<char>, t: Seq<char>, start: int, j: int)
    requires
        0 <= start <= j < s.len(),
        t == s.subrange(start, s.len() as int),
        spec_all_digits(s.subrange(start, j)),
        s[j] == '.',
    ensures
        spec_first_dot(t) == j - start,
{
    lemma_first_dot_props(t);
    let dot = spec_first_dot(t);
    assert(forall|i: int| 0 <= i < j - start ==> t[i] == s[start + i] && spec_is_digit(t[i]));
    assert(t[j - start] == '.');
    if dot < j - start {
        assert(spec_is_digit(t[dot]));
        assert(t[dot] == '.');
    }
    if dot > j - start {
        assert(t[j - start] != '.');
    }
}

} // verus!
