//! Identifiers, held as 128-bit numbers and written as UUIDs.
use vstd::arithmetic::div_mod::{lemma_mod_breakdown, lemma_small_mod};
use vstd::arithmetic::power::{lemma_pow0, lemma_pow1, lemma_pow_adds, lemma_pow_positive, pow};
use vstd::prelude::*;

verus! {

/// The small hexadecimal digit `d`.
pub open spec fn hex_char(d: nat) -> char {
    if d < 10 {
        ((48 + d) as u32) as char
    } else {
        ((87 + d) as u32) as char
    }
}

/// Hexadecimal digit `k` of an identifier, counted from the highest of its 32 digits.
pub open spec fn hex_digit(id: u128, k: int) -> nat {
    ((id as int / pow(16, (31 - k) as nat)) % 16) as nat
}

/// The text of an identifier: its 32 digits in groups of 8, 4, 4, 4 and 12.
pub open spec fn uuid_text(id: u128) -> Seq<char> {
    Seq::new(
        36,
        |i: int|
            if i == 8 || i == 13 || i == 18 || i == 23 {
                '-'
            } else if i < 8 {
                hex_char(hex_digit(id, i))
            } else if i < 13 {
                hex_char(hex_digit(id, i - 1))
            } else if i < 18 {
                hex_char(hex_digit(id, i - 2))
            } else if i < 23 {
                hex_char(hex_digit(id, i - 3))
            } else {
                hex_char(hex_digit(id, i - 4))
            },
    )
}

proof fn lemma_hex_char(d: nat, e: nat)
    requires
        d < 16,
        e < 16,
        hex_char(d) == hex_char(e),
    ensures
        d == e,
{
    assert(hex_char(d) as u32 == (if d < 10 {
        48 + d
    } else {
        87 + d
    }));
    assert(hex_char(e) as u32 == (if e < 10 {
        48 + e
    } else {
        87 + e
    }));
}

proof fn lemma_low_digits(a: u128, b: u128, n: nat)
    requires
        n <= 32,
        forall|k: int| 0 <= k < 32 ==> #[trigger] hex_digit(a, k) == hex_digit(b, k),
    ensures
        a as int % pow(16, n) == b as int % pow(16, n),
    decreases n,
{
    if n == 0 {
        lemma_pow0(16);
    } else {
        let m = (n - 1) as nat;
        lemma_low_digits(a, b, m);
        lemma_pow_positive(16, m);
        lemma_pow_adds(16, m, 1);
        lemma_pow1(16);
        lemma_mod_breakdown(a as int, pow(16, m), 16);
        lemma_mod_breakdown(b as int, pow(16, m), 16);
        assert(hex_digit(a, 31 - m) == hex_digit(b, 31 - m));
    }
}

/// Two identifiers with the same text are the same.
pub proof fn law_texts_tell_identifiers_apart(a: u128, b: u128)
    requires
        uuid_text(a) == uuid_text(b),
    ensures
        a == b,
{
    assert forall|k: int| 0 <= k < 32 implies #[trigger] hex_digit(a, k) == hex_digit(b, k) by {
        let i = if k < 8 {
            k
        } else if k < 12 {
            k + 1
        } else if k < 16 {
            k + 2
        } else if k < 20 {
            k + 3
        } else {
            k + 4
        };
        assert(uuid_text(a)[i] == uuid_text(b)[i]);
        assert(uuid_text(a)[i] == hex_char(hex_digit(a, k)));
        assert(uuid_text(b)[i] == hex_char(hex_digit(b, k)));
        lemma_hex_char(hex_digit(a, k), hex_digit(b, k));
    }
    lemma_low_digits(a, b, 32);
    lemma_pow1(16);
    lemma_pow_adds(16, 1, 1);
    assert(pow(16, 2) == 0x100int) by (nonlinear_arith)
        requires
            pow(16, 2) == pow(16, 1) * pow(16, 1),
            pow(16, 1) == 0x10int,
    ;
    lemma_pow_adds(16, 2, 2);
    assert(pow(16, 4) == 0x10000int) by (nonlinear_arith)
        requires
            pow(16, 4) == pow(16, 2) * pow(16, 2),
            pow(16, 2) == 0x100int,
    ;
    lemma_pow_adds(16, 4, 4);
    assert(pow(16, 8) == 0x100000000int) by (nonlinear_arith)
        requires
            pow(16, 8) == pow(16, 4) * pow(16, 4),
            pow(16, 4) == 0x10000int,
    ;
    lemma_pow_adds(16, 8, 8);
    assert(pow(16, 16) == 0x10000000000000000int) by (nonlinear_arith)
        requires
            pow(16, 16) == pow(16, 8) * pow(16, 8),
            pow(16, 8) == 0x100000000int,
    ;
    lemma_pow_adds(16, 16, 16);
    assert(pow(16, 32) == 0x100000000000000000000000000000000int) by (nonlinear_arith)
        requires
            pow(16, 32) == pow(16, 16) * pow(16, 16),
            pow(16, 16) == 0x10000000000000000int,
    ;
    lemma_small_mod(a as nat, pow(16, 32) as nat);
    lemma_small_mod(b as nat, pow(16, 32) as nat);
}

/// The identifier that `uuid::Uuid::parse_str` reads in a text, or the text of its error.
pub uninterp spec fn uuid_parsed(text: Seq<char>) -> Result<u128, Seq<char>>;

/// The text of an optional identifier.
pub open spec fn opt_uuid_text(id: Option<u128>) -> Option<Seq<char>> {
    match id {
        Some(id) => Some(uuid_text(id)),
        None => None,
    }
}

/// `Uuid::from_u128` and the `Display` of `uuid::Uuid`: the identifier in small hexadecimal
/// digits with hyphens. `Uuid::parse_str` reads that text back as the same identifier.
#[verifier::external_body]
pub(crate) fn uuid_to_text(id: u128) -> (r: String)
    ensures
        r@ == uuid_text(id),
        uuid_parsed(r@) is Ok,
        uuid_parsed(r@)->Ok_0 == id,
{
    uuid::Uuid::from_u128(id).to_string()
}

/// `Uuid::parse_str`: the identifier that a text holds in one of the formats it takes, or the text
/// of the error that its `Display` writes.
#[verifier::external_body]
pub(crate) fn uuid_from_text(text: &str) -> (r: Result<u128, String>)
    ensures
        match r {
            Ok(id) => uuid_parsed(text@) matches Ok(v) && v == id,
            Err(e) => uuid_parsed(text@) matches Err(m) && m == e@,
        },
{
    uuid::Uuid::parse_str(text).map(|id| id.as_u128()).map_err(|e| e.to_string())
}

/// `Uuid::new_v4`: a random identifier. Its version digit is 4 and its variant digit is one of
/// 8, 9, a and b.
#[verifier::external_body]
pub(crate) fn random_uuid() -> (r: u128)
    ensures
        hex_digit(r, 12) == 4,
        8 <= hex_digit(r, 16) <= 11,
{
    uuid::Uuid::new_v4().as_u128()
}

/// The text of an identifier.
pub fn id_text(id: u128) -> (r: String)
    ensures
        r@ == uuid_text(id),
        uuid_parsed(r@) is Ok,
        uuid_parsed(r@)->Ok_0 == id,
{
    uuid_to_text(id)
}

/// The identifier that a text holds.
pub fn parse_id(text: &str) -> (r: Result<u128, String>)
    ensures
        match r {
            Ok(id) => uuid_parsed(text@) matches Ok(v) && v == id,
            Err(e) => uuid_parsed(text@) matches Err(m) && m == e@,
        },
{
    uuid_from_text(text)
}

/// A random identifier.
pub fn new_id() -> (r: u128)
    ensures
        hex_digit(r, 12) == 4,
        8 <= hex_digit(r, 16) <= 11,
{
    random_uuid()
}

/// `count` random identifiers.
pub fn new_ids(count: usize) -> (r: Vec<u128>)
    ensures
        r@.len() == count,
        forall|i: int| 0 <= i < count ==> hex_digit(#[trigger] r@[i], 12) == 4,
        forall|i: int| 0 <= i < count ==> 8 <= hex_digit(#[trigger] r@[i], 16) <= 11,
{
    let mut ids: Vec<u128> = Vec::new();
    while ids.len() < count
        invariant
            ids@.len() <= count,
            forall|i: int| 0 <= i < ids@.len() ==> hex_digit(#[trigger] ids@[i], 12) == 4,
            forall|i: int| 0 <= i < ids@.len() ==> 8 <= hex_digit(#[trigger] ids@[i], 16) <= 11,
        decreases count - ids@.len(),
    {
        ids.push(new_id());
    }
    ids
}

/// The first eight digits of an identifier.
pub fn short_uuid(id: u128) -> (r: String)
    ensures
        r@ == uuid_text(id).take(8),
{
    let text = id_text(id);
    crate::text_search::take_chars(text.as_str(), 8)
}

/// The text of an identifier begins with a digit.
pub proof fn lemma_first_is_a_digit(id: u128)
    ensures
        uuid_text(id)[0] != '/',
{
    assert(hex_digit(id, 0) < 16);
}

} // verus!
