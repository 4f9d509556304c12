//! Text and byte encodings at the broker's boundary: identifiers, base64,
//! base32 and JSON members.

use vstd::prelude::*;
use vstd::utf8::is_ascii_chars;
use base64::Engine;

verus! {

/// Why a text is no UUID.
#[verifier::external_type_specification]
#[verifier::external_body]
pub struct ExUuidError(uuid::Error);

/// Why a text is no base64.
#[verifier::external_type_specification]
#[verifier::external_body]
pub struct ExDecodeError(base64::DecodeError);

/// The identifier that the text `text` denotes in any of the textual forms of
/// a UUID, as a 128-bit number with the first byte most significant; `None`
/// where `text` is no UUID.
pub uninterp spec fn uuid_of_text(text: Seq<char>) -> Option<u128>;

/// The standard base64 encoding of `bytes`, with padding.
pub uninterp spec fn base64_text(bytes: Seq<u8>) -> Seq<char>;

/// The bytes that `text` encodes in standard base64 with padding; `None`
/// where `text` is not such an encoding.
pub uninterp spec fn base64_bytes(text: Seq<char>) -> Option<Seq<u8>>;

/// The base32 encoding of `bytes` in the RFC 4648 alphabet, without padding.
pub uninterp spec fn base32_text(bytes: Seq<u8>) -> Seq<char>;

/// The text values of the members `first` and `second` of the JSON object
/// `document`; `None` where `document` is not JSON, or lacks a member of
/// either name whose value is a string.
pub uninterp spec fn json_text_members(
    document: Seq<char>,
    first: Seq<char>,
    second: Seq<char>,
) -> Option<(Seq<char>, Seq<char>)>;

/// The number whose big-endian digits in base 256 are `bytes`.
pub open spec fn be_value(bytes: Seq<u8>) -> nat
    decreases bytes.len(),
{
    if bytes.len() == 0 {
        0
    } else {
        be_value(bytes.drop_last()) * 256 + bytes.last() as nat
    }
}

/// 256 to the power of `n`.
spec fn pow256(n: nat) -> nat
    decreases n,
{
    if n == 0 {
        1
    } else {
        256 * pow256((n - 1) as nat)
    }
}

/// The number of characters of the unpadded base32 text for `n` bytes.
pub open spec fn base32_length(n: nat) -> nat {
    (n * 8 + 4) / 5
}

/// Whether base64 text for `n` bytes fits in memory.
pub open spec fn fits_base64(n: nat) -> bool {
    n / 3 * 4 + 4 <= usize::MAX
}

/// Calls `uuid::Uuid::parse_str` and hands back the UUID as a number
/// (`Uuid::as_u128`). Trusted: the call succeeds exactly on the texts that
/// denote a UUID, and gives the UUID denoted.
#[verifier::external_body]
pub(crate) fn uuid_parse(text: &str) -> (r: Result<u128, uuid::Error>)
    ensures
        match r {
            Ok(id) => uuid_of_text(text@) == Some(id),
            Err(_) => uuid_of_text(text@) is None,
        },
{
    match uuid::Uuid::parse_str(text) {
        Ok(id) => Ok(id.as_u128()),
        Err(e) => Err(e),
    }
}

/// Calls `Engine::encode` of `base64::engine::general_purpose::STANDARD`.
/// Trusted: the text is the standard base64 encoding of `bytes`. The call
/// panics where the text's length overflows, which `requires` leaves out.
#[verifier::external_body]
pub(crate) fn base64_encode(bytes: &Vec<u8>) -> (text: String)
    requires
        fits_base64(bytes@.len()),
    ensures
        text@ == base64_text(bytes@),
{
    base64::engine::general_purpose::STANDARD.encode(bytes)
}

/// Calls `Engine::decode` of `base64::engine::general_purpose::STANDARD`.
/// Trusted: the call succeeds exactly on standard base64 text, and gives the
/// bytes encoded.
#[verifier::external_body]
pub(crate) fn base64_decode(text: &str) -> (r: Result<Vec<u8>, base64::DecodeError>)
    ensures
        match r {
            Ok(bytes) => base64_bytes(text@) == Some(bytes@),
            Err(_) => base64_bytes(text@) is None,
        },
{
    base64::engine::general_purpose::STANDARD.decode(text)
}

/// Calls `totp_rs::Secret::to_encoded` on the raw secret `bytes`. Trusted:
/// the text is the unpadded base32 encoding of `bytes`: eight characters of
/// the alphabet for five bytes, rounded up.
#[verifier::external_body]
pub(crate) fn base32_encode(bytes: &Vec<u8>) -> (text: String)
    ensures
        text@ == base32_text(bytes@),
        text@.len() == base32_length(bytes@.len()),
        is_ascii_chars(text@),
{
    totp_rs::Secret::Raw(bytes.clone()).to_encoded().to_string()
}

/// Calls `serde_json::from_str` for a `serde_json::Value` and picks the
/// strings under `first` and `second` out of it (`Value::get`,
/// `Value::as_str`). Trusted: the result is `Some` exactly where `document`
/// is JSON with both members, each a string, and holds their values.
#[verifier::external_body]
pub(crate) fn json_members(document: &str, first: &str, second: &str) -> (r: Option<
    (String, String),
>)
    ensures
        match r {
            Some((a, b)) => json_text_members(document@, first@, second@) == Some((a@, b@)),
            None => json_text_members(document@, first@, second@) is None,
        },
{
    let parsed = serde_json::from_str::<serde_json::Value>(document).ok()?;
    let a = parsed.get(first)?.as_str()?.to_string();
    let b = parsed.get(second)?.as_str()?.to_string();
    Some((a, b))
}

/// Whether the texts `a` and `b` are the same.
pub fn same_text(a: &str, b: &str) -> (r: bool)
    ensures
        r == (a@ == b@),
{
    a.to_owned() == b.to_owned()
}

/// The identifier stored in the 16 bytes of `blob`, first byte most
/// significant; `None` where `blob` has another length.
pub fn id_from_blob(blob: &Vec<u8>) -> (r: Option<u128>)
    ensures
        r == if blob@.len() == 16 {
            Some(be_value(blob@) as u128)
        } else {
            None
        },
        blob@.len() == 16 ==> be_value(blob@) <= u128::MAX,
{
    if blob.len() != 16 {
        return None;
    }
    let mut value: u128 = 0;
    let mut i: usize = 0;
    proof {
        assert(blob@.take(0) =~= Seq::empty());
    }
    while i < 16
        invariant
            i <= 16,
            blob@.len() == 16,
            value == be_value(blob@.take(i as int)),
            value < pow256(i as nat),
        decreases 16 - i,
    {
        proof {
            assert(blob@.take(i + 1).drop_last() =~= blob@.take(i as int));
            assert(pow256(i as nat) <= pow256(15)) by {
                lemma_pow256_grows(i as nat, 15);
            }
            lemma_pow256_sixteen();
            assert(value * 256 + 255 < pow256(15) * 256) by (nonlinear_arith)
                requires
                    value < pow256(i as nat),
                    pow256(i as nat) <= pow256(15),
            ;
        }
        value = value * 256 + blob[i] as u128;
        i += 1;
    }
    proof {
        assert(blob@.take(16) =~= blob@);
    }
    Some(value)
}

/// Sixteen base-256 digits span exactly the 128-bit numbers.
proof fn lemma_pow256_sixteen()
    ensures
        pow256(16) == 0x1_0000_0000_0000_0000_0000_0000_0000_0000,
        pow256(16) == 256 * pow256(15),
{
    reveal_with_fuel(pow256, 17);
}

/// The powers of 256 grow with the exponent.
proof fn lemma_pow256_grows(m: nat, n: nat)
    requires
        m <= n,
    ensures
        pow256(m) <= pow256(n),
        pow256(m) >= 1,
    decreases n,
{
    if m < n {
        lemma_pow256_grows(m, (n - 1) as nat);
    } else if n > 0 {
        lemma_pow256_grows((m - 1) as nat, (n - 1) as nat);
    }
}

} // verus!
