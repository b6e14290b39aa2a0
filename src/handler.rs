//! The sample handler that the runtime ships with: it answers every
//! invocation with a fresh token, and its streaming form with a random word.

use vstd::prelude::*;
use vstd::string::*;
use rand::Rng;

verus! {

/// The status code the handler reports on success.
pub const STATUS_OK: u16 = 200;

/// A lowercase hexadecimal digit, as a byte: `0`-`9` or `a`-`f`.
pub open spec fn is_lower_hex_digit(b: u8) -> bool {
    (0x30 <= b && b <= 0x39) || (0x61 <= b && b <= 0x66)
}

/// The hyphenated text of a version 4 UUID: 36 bytes, `-` at positions 8,
/// 13, 18 and 23, lowercase hexadecimal digits everywhere else, the version
/// digit `4` at position 14 and one of `8`, `9`, `a`, `b` at position 19.
pub open spec fn is_uuid_v4_text(b: Seq<u8>) -> bool {
    &&& b.len() == 36
    &&& b[14] == 0x34
    &&& (b[19] == 0x38 || b[19] == 0x39 || b[19] == 0x61 || b[19] == 0x62)
    &&& forall|i: int|
        0 <= i < 36 ==> if i == 8 || i == 13 || i == 18 || i == 23 {
            #[trigger] b[i] == 0x2d
        } else {
            is_lower_hex_digit(b[i])
        }
}

/// Relies on `uuid::Uuid::new_v4` and its `Display` impl, which writes the
/// hyphenated lowercase form: a random version 4 UUID (RFC 4122 variant)
/// as text.
#[verifier::external_body]
fn new_token() -> (r: Vec<u8>)
    ensures
        is_uuid_v4_text(r@),
{
    uuid::Uuid::new_v4().to_string().into_bytes()
}

/// Relies on `rand::Rng::gen_range` with the thread-local generator: an
/// index below `n`, at random. It panics on an empty range, hence `n > 0`.
#[verifier::external_body]
fn random_index(n: usize) -> (r: usize)
    requires
        n > 0,
    ensures
        r < n,
{
    rand::thread_rng().gen_range(0..n)
}

/// The words that [`random_word`] picks from, in order.
pub open spec fn sample_words() -> Seq<Seq<char>> {
    seq!["apple"@, "banana"@, "cherry"@, "date"@, "elderberry"@]
}

/// The number of sample words.
pub const SAMPLE_WORDS: usize = 5;

/// The sample word at `index`.
pub fn sample_word(index: usize) -> (r: String)
    requires
        index < SAMPLE_WORDS,
    ensures
        r@ == sample_words()[index as int],
{
    if index == 0 {
        String::from_str("apple")
    } else if index == 1 {
        String::from_str("banana")
    } else if index == 2 {
        String::from_str("cherry")
    } else if index == 3 {
        String::from_str("date")
    } else {
        String::from_str("elderberry")
    }
}

/// One of the sample words, at random.
pub fn random_word() -> (r: String)
    ensures
        exists|i: int| 0 <= i < sample_words().len() && r@ == sample_words()[i],
{
    let i = random_index(SAMPLE_WORDS);
    sample_word(i)
}

/// Handles one invocation: whatever the request id and payload, it answers
/// with status 200 and the text of a fresh random version 4 UUID.
pub fn handler(request_id: Option<&str>, body: &Vec<u8>) -> (r: (u16, Vec<u8>))
    ensures
        r.0 == STATUS_OK,
        is_uuid_v4_text(r.1@),
{
    (STATUS_OK, new_token())
}

} // verus!
