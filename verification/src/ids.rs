//! Identifiers of collections and items: UUIDs, held as their 128-bit value and made and
//! rendered by the `uuid` crate.

use vstd::prelude::*;

verus! {

/// The lowercase hexadecimal digit for `n`, which must be below 16.
pub open spec fn hex_digit(n: u128) -> char {
    if n < 10 {
        (('0' as u128) + n) as char
    } else {
        (('a' as u128) + n - 10) as char
    }
}

/// Whether position `i` of the hyphenated form holds a hyphen.
pub open spec fn is_hyphen_position(i: int) -> bool {
    i == 8 || i == 13 || i == 18 || i == 23
}

/// Which of the 32 hexadecimal digits stands at position `i` of the hyphenated form.
pub open spec fn nibble_index(i: int) -> int {
    if i < 8 {
        i
    } else if i < 13 {
        i - 1
    } else if i < 18 {
        i - 2
    } else if i < 23 {
        i - 3
    } else {
        i - 4
    }
}

/// The `q`-th hexadecimal digit of `u`, most significant first.
pub open spec fn nibble(u: u128, q: int) -> u128 {
    (u >> ((4 * (31 - q)) as u128)) & 0xf
}

/// The hyphenated lowercase text of the UUID `u`, such as
/// `67e55044-10b1-426f-9247-bb680427c8c0`.
pub open spec fn uuid_text(u: u128) -> Seq<char> {
    Seq::new(36, |i: int| if is_hyphen_position(i) { '-' } else { hex_digit(nibble(u, nibble_index(i))) })
}

/// The version (4, random) and variant (RFC 4122) bits of a random UUID are set.
pub open spec fn is_v4(u: u128) -> bool {
    u & 0xF000_C000_0000_0000_0000u128 == 0x4000_8000_0000_0000_0000u128
}

/// A random UUID is not the nil UUID.
pub proof fn lemma_v4_not_nil(u: u128)
    requires
        is_v4(u),
    ensures
        u != 0,
{
    assert(u & 0xF000_C000_0000_0000_0000u128 == 0x4000_8000_0000_0000_0000u128 ==> u != 0) by (bit_vector);
}

/// A fresh random (version 4) UUID.
///
/// Trusted: calls `uuid::Uuid::new_v4()` and takes its value with `as_u128`. The random
/// bits are chance; `new_v4` masks the version and variant fields and sets them to
/// version 4 and the RFC 4122 variant, which is all that is claimed.
#[verifier::external_body]
pub(crate) fn new_uuid() -> (r: u128)
    ensures
        is_v4(r),
{
    uuid::Uuid::new_v4().as_u128()
}

/// The hyphenated lowercase text of a UUID, as its `Display` renders it.
///
/// Trusted: calls `Uuid::from_u128(u).to_string()`. The `uuid` crate documents and
/// implements `Display` as the lowercase hyphenated form, whose whole layout the
/// `ensures` states.
#[verifier::external_body]
pub(crate) fn uuid_to_string(u: u128) -> (r: String)
    ensures
        r@ == uuid_text(u),
{
    uuid::Uuid::from_u128(u).to_string()
}

/// A hexadecimal digit names one value.
pub proof fn lemma_hex_digit_injective(a: u128, b: u128)
    requires
        a < 16,
        b < 16,
        hex_digit(a) == hex_digit(b),
    ensures
        a == b,
{
    assert((hex_digit(a) as u32) == (if a < 10 { 48 + a } else { 87 + a }));
    assert((hex_digit(b) as u32) == (if b < 10 { 48 + b } else { 87 + b }));
}

/// The `k`-th hexadecimal digit of `u`, counting from the least significant one.
pub open spec fn digit(u: u128, k: u128) -> u128 {
    (u >> (4 * k)) & 0xf
}

/// A 128-bit value is its 32 hexadecimal digits.
proof fn lemma_digits_determine_value(u: u128, v: u128)
    by (bit_vector)
    requires
        digit(u, 0u128) == digit(v, 0u128),
        digit(u, 1u128) == digit(v, 1u128),
        digit(u, 2u128) == digit(v, 2u128),
        digit(u, 3u128) == digit(v, 3u128),
        digit(u, 4u128) == digit(v, 4u128),
        digit(u, 5u128) == digit(v, 5u128),
        digit(u, 6u128) == digit(v, 6u128),
        digit(u, 7u128) == digit(v, 7u128),
        digit(u, 8u128) == digit(v, 8u128),
        digit(u, 9u128) == digit(v, 9u128),
        digit(u, 10u128) == digit(v, 10u128),
        digit(u, 11u128) == digit(v, 11u128),
        digit(u, 12u128) == digit(v, 12u128),
        digit(u, 13u128) == digit(v, 13u128),
        digit(u, 14u128) == digit(v, 14u128),
        digit(u, 15u128) == digit(v, 15u128),
        digit(u, 16u128) == digit(v, 16u128),
        digit(u, 17u128) == digit(v, 17u128),
        digit(u, 18u128) == digit(v, 18u128),
        digit(u, 19u128) == digit(v, 19u128),
        digit(u, 20u128) == digit(v, 20u128),
        digit(u, 21u128) == digit(v, 21u128),
        digit(u, 22u128) == digit(v, 22u128),
        digit(u, 23u128) == digit(v, 23u128),
        digit(u, 24u128) == digit(v, 24u128),
        digit(u, 25u128) == digit(v, 25u128),
        digit(u, 26u128) == digit(v, 26u128),
        digit(u, 27u128) == digit(v, 27u128),
        digit(u, 28u128) == digit(v, 28u128),
        digit(u, 29u128) == digit(v, 29u128),
        digit(u, 30u128) == digit(v, 30u128),
        digit(u, 31u128) == digit(v, 31u128),
    ensures
        u == v,
{
}

/// Two values with the same hexadecimal digits are equal.
pub proof fn lemma_nibbles_determine_value(u: u128, v: u128)
    requires
        forall|q: int| 0 <= q < 32 ==> nibble(u, q) == nibble(v, q),
    ensures
        u == v,
{
    assert forall|k: u128| k < 32 implies #[trigger] digit(u, k) == digit(v, k) by {
        assert(nibble(u, 31 - k) == nibble(v, 31 - k));
        assert((4 * (31 - (31 - k))) as u128 == 4 * k);
    }
    lemma_digits_determine_value(u, v);
}

/// A digit of a value is below 16.
pub proof fn lemma_nibble_bound(u: u128, q: int)
    ensures
        nibble(u, q) < 16,
{
    let s = (4 * (31 - q)) as u128;
    assert((u >> s) & 0xf < 16) by (bit_vector);
}

} // verus!
