//! Peer keys as addresses, session identifiers and the wall clock.

use vstd::prelude::*;
use vstd::utf8::{encode_utf8, is_ascii_chars, is_ascii_chars_encode_utf8};
use crate::addr::TransportAddr;
use crate::error::{Failure, TransportError};

verus! {

// ---------------------------------------------------------------------------
// Hexadecimal text
// ---------------------------------------------------------------------------

/// The value of a hexadecimal digit, given as an ASCII code.
pub open spec fn hex_value(c: u8) -> Option<nat> {
    if 0x30 <= c <= 0x39 {
        Some((c - 0x30) as nat)
    } else if 0x61 <= c <= 0x66 {
        Some((c - 0x61 + 10) as nat)
    } else if 0x41 <= c <= 0x46 {
        Some((c - 0x41 + 10) as nat)
    } else {
        None
    }
}

/// The bytes that a hexadecimal text denotes: two digits for each.
pub open spec fn hex_bytes(text: Seq<u8>) -> Option<Seq<u8>> {
    if text.len() % 2 == 0 && forall|i: int|
        0 <= i < text.len() ==> hex_value(#[trigger] text[i]) is Some {
        Some(
            Seq::new(
                text.len() / 2,
                |i: int| (hex_value(text[2 * i])->0 * 16 + hex_value(text[2 * i + 1])->0) as u8,
            ),
        )
    } else {
        None
    }
}

/// The lower-case hexadecimal digit with a value below sixteen.
pub open spec fn hex_digit(value: int) -> char {
    if value < 10 {
        ('0' as u32 + value as u32) as char
    } else {
        ('a' as u32 + (value - 10) as u32) as char
    }
}

/// The lower-case hexadecimal text of some bytes.
pub open spec fn hex_text(bytes: Seq<u8>) -> Seq<char> {
    Seq::new(
        2 * bytes.len(),
        |i: int|
            if i % 2 == 0 {
                hex_digit(bytes[i / 2] as int / 16)
            } else {
                hex_digit(bytes[i / 2] as int % 16)
            },
    )
}

/// What the `hex` crate says is wrong with a text that is not hexadecimal.
pub uninterp spec fn hex_error(text: Seq<u8>) -> Seq<char>;

/// `hex::decode`: the bytes that a text of an even number of hexadecimal digits
/// denotes, in either case. For any other text it returns an error, whose
/// words are a function of the text.
#[verifier::external_body]
fn decode_hex(text: &str) -> (bytes: Result<Vec<u8>, String>)
    ensures
        match bytes {
            Ok(b) => hex_bytes(encode_utf8(text@)) == Some(b@),
            Err(words) => hex_bytes(encode_utf8(text@)) is None && words@ == hex_error(
                encode_utf8(text@),
            ),
        },
{
    hex::decode(text).map_err(|error| error.to_string())
}

/// `hex::encode`: the lower-case hexadecimal text of some bytes.
#[verifier::external_body]
fn encode_hex(bytes: &Vec<u8>) -> (text: String)
    ensures
        text@ == hex_text(bytes@),
{
    hex::encode(bytes)
}

// ---------------------------------------------------------------------------
// Keys
// ---------------------------------------------------------------------------

/// What the `secp256k1` crate says is wrong with bytes that are no public key;
/// nothing where they are one.
pub uninterp spec fn key_error(bytes: Seq<u8>) -> Option<Seq<char>>;

/// `secp256k1::PublicKey::from_slice`: whether the bytes are a public key is a
/// function of the bytes, and so are the words of the error. Which points lie
/// on the curve is not stated here.
#[verifier::external_body]
fn check_key(bytes: &Vec<u8>) -> (error: Option<String>)
    ensures
        match error {
            Some(words) => key_error(bytes@) == Some(words@),
            None => key_error(bytes@) is None,
        },
{
    secp256k1::PublicKey::from_slice(bytes).err().map(|error| error.to_string())
}

/// `secp256k1::PublicKey::x_only_public_key`, then
/// `XOnlyPublicKey::public_key` with even parity and `PublicKey::serialize`:
/// the compressed form of the key with the same x coordinate and even parity is
/// the byte two followed by that coordinate, and it is a public key again.
#[verifier::external_body]
fn even_key(bytes: &Vec<u8>) -> (even: Vec<u8>)
    requires
        bytes@.len() == 33,
        key_error(bytes@) is None,
    ensures
        even@ == seq![2u8] + bytes@.subrange(1, 33),
        key_error(even@) is None,
{
    let key = secp256k1::PublicKey::from_slice(bytes).expect("a public key");
    let (xonly, _) = key.x_only_public_key();
    xonly.public_key(secp256k1::Parity::Even).serialize().to_vec()
}

/// `secp256k1::PublicKey::x_only_public_key` and `XOnlyPublicKey::serialize`:
/// the x coordinate of a compressed key is all of it but its first byte.
#[verifier::external_body]
fn x_coordinate(bytes: &Vec<u8>) -> (x: Vec<u8>)
    requires
        bytes@.len() == 33,
        key_error(bytes@) is None,
    ensures
        x@ == bytes@.subrange(1, 33),
{
    let key = secp256k1::PublicKey::from_slice(bytes).expect("a public key");
    let (xonly, _) = key.x_only_public_key();
    xonly.serialize().to_vec()
}

/// `nostr::PublicKey::from_slice`: takes any thirty-two bytes, and keeps them.
#[verifier::external_body]
fn nostr_key(x: &Vec<u8>) -> (key: Vec<u8>)
    requires
        x@.len() == 32,
    ensures
        key@ == x@,
{
    nostr::PublicKey::from_slice(x).expect("thirty-two bytes").to_bytes().to_vec()
}

/// Why a text is no compressed key, if it is none.
pub open spec fn key_refusal(text: Seq<char>) -> Option<Failure> {
    let data = encode_utf8(text);
    if data.len() != 66 {
        Some(
            Failure::InvalidAddress("WebRTC address must be 33-byte compressed pubkey hex"@),
        )
    } else {
        match hex_bytes(data) {
            None => Some(Failure::InvalidAddress(hex_error(data))),
            Some(bytes) => if bytes[0] != 2 && bytes[0] != 3 {
                Some(
                    Failure::InvalidAddress(
                        "WebRTC address must be compressed secp256k1 pubkey"@,
                    ),
                )
            } else {
                match key_error(bytes) {
                    Some(words) => Some(Failure::InvalidAddress(words)),
                    None => None,
                }
            },
        }
    }
}

/// The bytes of the compressed key that a text denotes.
pub open spec fn key_bytes(text: Seq<char>) -> Seq<u8> {
    hex_bytes(encode_utf8(text))->0
}

/// What remains to be checked of decoded bytes before they are tried as a key.
pub fn check_compressed_form(bytes: &Vec<u8>) -> (result: Result<(), TransportError>)
    ensures
        match result {
            Ok(_) => bytes@.len() == 33 && (bytes@[0] == 2 || bytes@[0] == 3),
            Err(error) => !(bytes@.len() == 33 && (bytes@[0] == 2 || bytes@[0] == 3)) && error@
                == Failure::InvalidAddress("WebRTC address must be compressed secp256k1 pubkey"@),
        },
{
    if bytes.len() != 33 || !(bytes[0] == 2 || bytes[0] == 3) {
        return Err(
            TransportError::InvalidAddress(
                "WebRTC address must be compressed secp256k1 pubkey".to_owned(),
            ),
        );
    }
    Ok(())
}

/// Reads a compressed key from its hexadecimal text.
pub fn compressed_pubkey_from_hex(text: &str) -> (result: Result<Vec<u8>, TransportError>)
    ensures
        match result {
            Ok(bytes) => {
                &&& key_refusal(text@) is None
                &&& bytes@ == key_bytes(text@)
                &&& bytes@.len() == 33
                &&& key_error(bytes@) is None
            },
            Err(error) => key_refusal(text@) == Some(error@),
        },
{
    if text.as_bytes().len() != 66 {
        return Err(
            TransportError::InvalidAddress(
                "WebRTC address must be 33-byte compressed pubkey hex".to_owned(),
            ),
        );
    }
    let bytes = match decode_hex(text) {
        Ok(bytes) => bytes,
        Err(words) => {
            return Err(TransportError::InvalidAddress(words));
        },
    };
    match check_compressed_form(&bytes) {
        Err(error) => {
            return Err(error);
        },
        Ok(_) => {},
    }
    match check_key(&bytes) {
        Some(words) => Err(TransportError::InvalidAddress(words)),
        None => Ok(bytes),
    }
}

/// Checks that a text is a compressed key.
pub fn validate_compressed_pubkey_hex(text: &str) -> (result: Result<(), TransportError>)
    ensures
        match result {
            Ok(_) => key_refusal(text@) is None,
            Err(error) => key_refusal(text@) == Some(error@),
        },
{
    match compressed_pubkey_from_hex(text) {
        Ok(_) => Ok(()),
        Err(error) => Err(error),
    }
}

/// How an address is shown: its text, or its bytes in hexadecimal where it has
/// none.
pub open spec fn addr_shown(addr: Seq<u8>) -> Seq<char> {
    match TransportAddr::spec_text(addr) {
        Some(text) => text,
        None => hex_text(addr),
    }
}

pub fn show_addr(addr: &TransportAddr) -> (shown: String)
    ensures
        shown@ == addr_shown(addr@),
{
    match addr.as_str() {
        Some(text) => text.to_owned(),
        None => encode_hex(&addr.bytes),
    }
}

/// The text of the key with the same x coordinate and even parity.
pub open spec fn canonical_text(bytes: Seq<u8>) -> Seq<char> {
    hex_text(seq![2u8] + bytes.subrange(1, 33))
}

/// The canonical text of a key: hexadecimal, in lower case, with even parity.
pub fn canonical_webrtc_pubkey_hex(key: &Vec<u8>) -> (text: String)
    requires
        key@.len() == 33,
        key_error(key@) is None,
    ensures
        text@ == canonical_text(key@),
        key_error(seq![2u8] + key@.subrange(1, 33)) is None,
{
    let even = even_key(key);
    encode_hex(&even)
}

/// The canonical form of an address, or why it has none.
pub open spec fn canonical_addr(addr: Seq<u8>) -> Result<Seq<u8>, Failure> {
    match TransportAddr::spec_text(addr) {
        None => Err(
            Failure::InvalidAddress("WebRTC address must be UTF-8 compressed pubkey hex"@),
        ),
        Some(text) => match key_refusal(text) {
            Some(failure) => Err(failure),
            None => Ok(encode_utf8(canonical_text(key_bytes(text)))),
        },
    }
}

/// The canonical form of an address: one for each x coordinate. A canonical
/// address is its own canonical form.
pub fn canonical_webrtc_addr(addr: &TransportAddr) -> (result: Result<
    TransportAddr,
    TransportError,
>)
    ensures
        match result {
            Ok(canonical) => {
                &&& canonical_addr(addr@) == Ok::<Seq<u8>, Failure>(canonical@)
                &&& canonical_addr(canonical@) == Ok::<Seq<u8>, Failure>(canonical@)
            },
            Err(error) => canonical_addr(addr@) == Err::<Seq<u8>, Failure>(error@),
        },
{
    let text = match addr.as_str() {
        Some(text) => text,
        None => {
            return Err(
                TransportError::InvalidAddress(
                    "WebRTC address must be UTF-8 compressed pubkey hex".to_owned(),
                ),
            );
        },
    };
    match compressed_pubkey_from_hex(text) {
        Err(error) => Err(error),
        Ok(key) => {
            let canonical = canonical_webrtc_pubkey_hex(&key);
            let result = TransportAddr::from_string(canonical.as_str());
            proof {
                lemma_canonical_form_is_stable(addr@, result@);
            }
            Ok(result)
        },
    }
}

/// The x coordinate of the key that a text denotes.
pub fn xonly_from_compressed_hex(text: &str) -> (result: Result<Vec<u8>, TransportError>)
    ensures
        match result {
            Ok(x) => key_refusal(text@) is None && x@ == key_bytes(text@).subrange(1, 33),
            Err(error) => key_refusal(text@) == Some(error@),
        },
{
    match compressed_pubkey_from_hex(text) {
        Err(error) => Err(error),
        Ok(key) => {
            let x = x_coordinate(&key);
            Ok(nostr_key(&x))
        },
    }
}

/// Why bytes are no compressed key, if they are none.
pub open spec fn bytes_refusal(key: Seq<u8>) -> Option<Failure> {
    if key.len() != 33 || (key[0] != 2 && key[0] != 3) {
        Some(Failure::InvalidAddress("WebRTC address must be compressed secp256k1 pubkey"@))
    } else {
        match key_error(key) {
            Some(words) => Some(Failure::InvalidAddress(words)),
            None => None,
        }
    }
}

/// Who sent a signal: the x coordinate of their key, and the text of the key.
pub fn signal_sender(key: &Vec<u8>) -> (result: Result<(Vec<u8>, String), TransportError>)
    ensures
        match result {
            Ok(sender) => bytes_refusal(key@) is None && sender.0@ == key@.subrange(1, 33)
                && sender.1@ == hex_text(key@),
            Err(error) => bytes_refusal(key@) == Some(error@),
        },
{
    match check_compressed_form(key) {
        Err(error) => {
            return Err(error);
        },
        Ok(_) => {},
    }
    match check_key(key) {
        Some(words) => Err(TransportError::InvalidAddress(words)),
        None => {
            let x = x_coordinate(key);
            Ok((nostr_key(&x), encode_hex(key)))
        },
    }
}

// ---------------------------------------------------------------------------
// Session identifiers
// ---------------------------------------------------------------------------

/// `rand::Rng::fill_bytes` on the generator of `rand::rng`: sixteen bytes, of
/// which nothing is known.
#[verifier::external_body]
fn random_bytes() -> (bytes: Vec<u8>)
    ensures
        bytes@.len() == 16,
{
    let mut bytes = [0u8; 16];
    rand::Rng::fill_bytes(&mut rand::rng(), &mut bytes);
    bytes.to_vec()
}

/// The session identifier made of some bytes.
pub fn session_id_of(bytes: &Vec<u8>) -> (id: String)
    ensures
        id@ == hex_text(bytes@),
{
    encode_hex(bytes)
}

/// A session identifier made of sixteen random bytes.
pub fn random_session_id() -> (id: String)
    ensures
        exists|bytes: Seq<u8>| bytes.len() == 16 && id@ == #[trigger] hex_text(bytes),
        id@.len() == 32,
{
    let bytes = random_bytes();
    session_id_of(&bytes)
}

// ---------------------------------------------------------------------------
// Wall clock
// ---------------------------------------------------------------------------

/// `SystemTime::now` and `duration_since` the Unix epoch, in milliseconds;
/// nothing where the clock stands before the epoch.
#[verifier::external_body]
fn clock_reading() -> (ms: Option<u128>) {
    std::time::SystemTime::now().duration_since(std::time::UNIX_EPOCH).ok().map(
        |since| since.as_millis(),
    )
}

/// A clock reading as milliseconds since the Unix epoch: zero where the clock
/// stands before the epoch, and the low sixty-four bits of a reading that does
/// not fit.
pub open spec fn reading_ms(reading: Option<u128>) -> u64 {
    match reading {
        Some(r) => r as u64,
        None => 0,
    }
}

pub fn clock_ms(reading: Option<u128>) -> (ms: u64)
    ensures
        ms == reading_ms(reading),
        reading matches Some(r) ==> (r <= u64::MAX ==> ms == r),
{
    match reading {
        Some(r) => #[verifier::truncate] (r as u64),
        None => 0,
    }
}

/// The wall clock in milliseconds since the Unix epoch.
pub fn now_ms() -> (ms: u64)
    ensures
        exists|reading: Option<u128>| ms == #[trigger] reading_ms(reading),
{
    clock_ms(clock_reading())
}

// ---------------------------------------------------------------------------
// Laws
// ---------------------------------------------------------------------------

/// Reading the hexadecimal text of some bytes gives the bytes back.
pub proof fn hex_round_trip(bytes: Seq<u8>)
    ensures
        hex_bytes(encode_utf8(hex_text(bytes))) == Some(bytes),
        encode_utf8(hex_text(bytes)).len() == 2 * bytes.len(),
{
    let text = hex_text(bytes);
    assert forall|i: int| 0 <= i < text.len() implies (#[trigger] text[i] as u32) < 128
        && hex_value(text[i] as u8) == Some(
        (if i % 2 == 0 {
            bytes[i / 2] as int / 16
        } else {
            bytes[i / 2] as int % 16
        }) as nat,
    ) by {}
    assert(is_ascii_chars(text));
    is_ascii_chars_encode_utf8(text);
    let data = encode_utf8(text);
    assert forall|i: int| 0 <= i < data.len() implies hex_value(#[trigger] data[i]) is Some by {
        assert(data[i] == text[i] as u8);
    }
    let read = hex_bytes(data)->0;
    assert forall|i: int| 0 <= i < bytes.len() implies read[i] == bytes[i] by {
        assert(data[2 * i] == text[2 * i] as u8);
        assert(data[2 * i + 1] == text[2 * i + 1] as u8);
        assert((2 * i) / 2 == i && (2 * i + 1) / 2 == i);
        assert((2 * i) % 2 == 0 && (2 * i + 1) % 2 == 1);
    }
    assert(read =~= bytes);
}

/// The text of a sender's key is an address from which the same x coordinate is
/// read again.
pub proof fn senders_can_be_answered(key: Seq<u8>)
    requires
        bytes_refusal(key) is None,
    ensures
        key_refusal(hex_text(key)) is None,
        key_bytes(hex_text(key)).subrange(1, 33) == key.subrange(1, 33),
{
    hex_round_trip(key);
}

proof fn lemma_canonical_form_is_stable(addr: Seq<u8>, canonical: Seq<u8>)
    requires
        canonical_addr(addr) == Ok::<Seq<u8>, Failure>(canonical),
        key_error(
            seq![2u8] + key_bytes(TransportAddr::spec_text(addr)->0).subrange(1, 33),
        ) is None,
    ensures
        canonical_addr(canonical) == Ok::<Seq<u8>, Failure>(canonical),
{
    let text = TransportAddr::spec_text(addr)->0;
    let even = seq![2u8] + key_bytes(text).subrange(1, 33);
    assert(even.len() == 33);
    hex_round_trip(even);
    TransportAddr::text_round_trip(hex_text(even));
    assert(even.subrange(1, 33) =~= key_bytes(text).subrange(1, 33));
}

/// The digits of hexadecimal text and their values: ten figures, and six letters
/// that count on from ten, in either case.
pub proof fn hex_digits_have_their_values(c: u8)
    ensures
        48 <= c <= 57 ==> hex_value(c) == Some((c - 48) as nat),
        97 <= c <= 102 ==> hex_value(c) == Some((c - 87) as nat),
        65 <= c <= 70 ==> hex_value(c) == Some((c - 55) as nat),
        hex_value(c) is Some <==> 48 <= c <= 57 || 97 <= c <= 102 || 65 <= c <= 70,
{
}

/// Hexadecimal text is read two digits to a byte, the higher one first; a text with
/// another character, or with an odd number of digits, is none.
pub proof fn hex_is_read_by_pairs(text: Seq<u8>, i: int)
    ensures
        hex_bytes(text) matches Some(bytes) ==> {
            &&& text.len() == 2 * bytes.len()
            &&& 0 <= i < bytes.len() ==> hex_value(text[2 * i]) is Some && hex_value(
                text[2 * i + 1],
            ) is Some && bytes[i] == 16 * hex_value(text[2 * i])->0 + hex_value(
                text[2 * i + 1],
            )->0
        },
        text.len() % 2 == 1 ==> hex_bytes(text) is None,
        0 <= i < text.len() && hex_value(text[i]) is None ==> hex_bytes(text) is None,
        text.len() % 2 == 0 && (forall|k: int|
            0 <= k < text.len() ==> hex_value(#[trigger] text[k]) is Some) ==> hex_bytes(
            text,
        ) is Some,
{
    if let Some(bytes) = hex_bytes(text) {
        if 0 <= i < bytes.len() {
            assert(hex_value(text[2 * i]) is Some);
            assert(hex_value(text[2 * i + 1]) is Some);
        }
    }
}

/// Bytes are written in hexadecimal two digits to a byte, the higher one first, in
/// lower case; the texts of two parts stand one behind the other.
pub proof fn hex_is_written_by_pairs(a: Seq<u8>, b: Seq<u8>, i: int)
    ensures
        hex_text(a).len() == 2 * a.len(),
        0 <= i < hex_text(a).len() ==> '0' <= hex_text(a)[i] <= '9' || 'a' <= hex_text(a)[i] <= 'f',
        hex_text(a + b) == hex_text(a) + hex_text(b),
        hex_text(a) == hex_text(b) <==> a == b,
{
    if 0 <= i < hex_text(a).len() {
        let byte = a[i / 2] as int;
        assert(0 <= byte / 16 < 16 && 0 <= byte % 16 < 16);
    }
    assert forall|k: int| 0 <= k < hex_text(a + b).len() implies hex_text(a + b)[k] == (hex_text(a)
        + hex_text(b))[k] by {
        if k >= 2 * a.len() {
            assert((k - 2 * a.len()) / 2 == k / 2 - a.len());
            assert((k - 2 * a.len()) % 2 == k % 2);
        }
    }
    assert(hex_text(a + b) =~= hex_text(a) + hex_text(b));
    hex_round_trip(a);
    hex_round_trip(b);
}

/// A text is that of a key exactly where it is 66 hexadecimal digits, the first
/// byte of which is two or three, and the bytes are a point of the curve.
pub proof fn keys_are_compressed_points(text: Seq<char>, bytes: Seq<u8>)
    ensures
        key_refusal(text) is None <==> encode_utf8(text).len() == 66 && (hex_bytes(
            encode_utf8(text),
        ) matches Some(key) && (key[0] == 2 || key[0] == 3) && key_error(key) is None),
        encode_utf8(text).len() != 66 ==> key_refusal(text) == Some(
            Failure::InvalidAddress("WebRTC address must be 33-byte compressed pubkey hex"@),
        ),
        encode_utf8(text).len() == 66 && hex_bytes(encode_utf8(text)) is None ==> key_refusal(text)
            == Some(Failure::InvalidAddress(hex_error(encode_utf8(text)))),
        bytes_refusal(bytes) is None <==> bytes.len() == 33 && (bytes[0] == 2 || bytes[0] == 3)
            && key_error(bytes) is None,
        bytes.len() == 33 ==> (bytes_refusal(bytes) is None <==> key_refusal(
            hex_text(bytes),
        ) is None),
        bytes.len() == 33 ==> key_bytes(hex_text(bytes)) == bytes,
{
    hex_round_trip(bytes);
}

/// The canonical text of a key is that of the key with the same x coordinate and
/// even parity: two keys have the same one exactly where their x coordinates are
/// the same.
pub proof fn keys_with_one_coordinate_have_one_text(a: Seq<u8>, b: Seq<u8>)
    requires
        a.len() == 33,
        b.len() == 33,
    ensures
        canonical_text(a) == seq!['0', '2'] + hex_text(a.subrange(1, 33)),
        canonical_text(a) == canonical_text(b) <==> a.subrange(1, 33) == b.subrange(1, 33),
        a[0] == 2 ==> canonical_text(a) == hex_text(a),
        key_bytes(canonical_text(a)) == seq![2u8] + a.subrange(1, 33),
{
    let (x, y) = (a.subrange(1, 33), b.subrange(1, 33));
    let two = seq![2u8];
    hex_is_written_by_pairs(two, x, 0);
    assert(hex_text(two) =~= seq!['0', '2']);
    hex_is_written_by_pairs(two + x, two + y, 0);
    if two + x == two + y {
        assert((two + x).skip(1) =~= x);
        assert((two + y).skip(1) =~= y);
    }
    if a[0] == 2 {
        assert(two + x =~= a);
    }
    hex_round_trip(two + x);
}

/// The canonical address of a key's text is that of its canonical text, and an
/// address that is no key's has none; all addresses of keys with one x coordinate
/// have the same one.
pub proof fn addresses_with_one_coordinate_are_one(a: Seq<u8>, s: Seq<char>, b: Seq<u8>, t: Seq<char>)
    requires
        TransportAddr::spec_text(a) == Some(s),
        TransportAddr::spec_text(b) == Some(t),
        key_refusal(s) is None,
        key_refusal(t) is None,
    ensures
        canonical_addr(a) == Ok::<Seq<u8>, Failure>(encode_utf8(canonical_text(key_bytes(s)))),
        key_bytes(s).subrange(1, 33) == key_bytes(t).subrange(1, 33) ==> canonical_addr(a)
            == canonical_addr(b),
{
}

/// An address that is no text, or whose text is no key's, has no canonical form.
pub proof fn other_addresses_have_no_canonical_form(addr: Seq<u8>, text: Seq<char>)
    ensures
        TransportAddr::spec_text(addr) is None ==> canonical_addr(addr) == Err::<Seq<u8>, Failure>(
            Failure::InvalidAddress("WebRTC address must be UTF-8 compressed pubkey hex"@),
        ),
        TransportAddr::spec_text(addr) == Some(text) ==> (key_refusal(text) matches Some(failure)
            ==> canonical_addr(addr) == Err::<Seq<u8>, Failure>(failure)),
{
}

/// An address is shown as its text where it is one, and in hexadecimal else.
pub proof fn addresses_are_shown(addr: Seq<u8>, text: Seq<char>)
    ensures
        TransportAddr::spec_text(addr) == Some(text) ==> addr_shown(addr) == text,
        TransportAddr::spec_text(addr) is None ==> addr_shown(addr) == hex_text(addr),
{
}

/// A reading of the clock is in milliseconds as it was read, and nothing where
/// there was none.
pub proof fn readings_are_milliseconds(reading: u128)
    ensures
        reading <= u64::MAX ==> reading_ms(Some(reading)) == reading,
        reading_ms(None) == 0,
{
}

} // verus!
