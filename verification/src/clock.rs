use vstd::prelude::*;
use vstd::arithmetic::power::pow;

verus! {

/// The current wall-clock time in microseconds since the Unix epoch, as
/// `chrono::Utc::now().timestamp_micros()` reports it.  Nothing is promised
/// of the value: it depends on the machine's clock.
#[verifier::external_body]
pub(crate) fn now_micros() -> (t: i64) {
    chrono::Utc::now().timestamp_micros()
}

/// A fresh random identifier, `uuid::Uuid::new_v4()` as a 128-bit integer.
/// Its bits are drawn at random but for the version (4) and the variant
/// (`10` in binary), which `new_v4` always sets; nothing else is promised.
#[verifier::external_body]
pub(crate) fn new_id() -> (id: u128)
    ensures
        (id >> 76u128) & 0xfu128 == 4u128,
        (id >> 62u128) & 3u128 == 2u128,
{
    uuid::Uuid::new_v4().as_u128()
}

/// The lower-case hexadecimal digit of `d` (below 16).
pub open spec fn hex_char(d: int) -> char {
    seq!['0', '1', '2', '3', '4', '5', '6', '7', '8', '9', 'a', 'b', 'c', 'd', 'e', 'f'][d]
}

/// The `k`-th hexadecimal digit of `id` (`0 <= k < 32`), most significant
/// first.
pub open spec fn uuid_nibble(id: u128, k: int) -> int {
    (id as int / pow(16, (31 - k) as nat)) % 16
}

/// The hyphenated lower-case text form of the identifier `id`: its 32
/// hexadecimal digits, most significant first, in groups of 8, 4, 4, 4 and
/// 12 joined by `-`.
pub open spec fn uuid_text(id: u128) -> Seq<char> {
    let h = Seq::new(32, |k: int| hex_char(uuid_nibble(id, k)));
    h.subrange(0, 8) + seq!['-'] + h.subrange(8, 12) + seq!['-'] + h.subrange(12, 16) + seq!['-']
        + h.subrange(16, 20) + seq!['-'] + h.subrange(20, 32)
}

/// `uuid::Uuid::from_u128(id).to_string()`: the contract says the text is
/// the hyphenated lower-case hexadecimal form of `id`, the form
/// `uuid::Uuid`'s `Display` writes, with the bytes of `id` in big-endian
/// order.
#[verifier::external_body]
pub(crate) fn uuid_string(id: u128) -> (s: String)
    ensures
        s@ == uuid_text(id),
{
    uuid::Uuid::from_u128(id).to_string()
}

/// Microseconds in one second.
pub const MICROS_PER_SECOND: i64 = 1_000_000;

} // verus!
