//! 32-byte digests and their 64-character lowercase hex spelling.
//!
//! A value that could name anything but a digest (`..`, a path separator, a
//! percent escape, an uppercase digit, a short or long string) never becomes a
//! [`ContentAddress`] or a [`CacheKey`].
use vstd::prelude::*;
use vstd::utf8::*;
use vstd::string::StringSliceAdditionalSpecFns;

verus! {

/// Length of a [`ContentAddress`] or a [`CacheKey`] in hex characters.
pub const ADDRESS_HEX_LEN: usize = 64;

broadcast use vstd::utf8::group_utf8_lib;

/// Why a string could not become a [`ContentAddress`] (or a [`CacheKey`]).
#[derive(Debug, Clone, Copy, PartialEq, Eq, Structural)]
pub enum ContentAddressError {
    /// Not exactly 64 bytes long, or a digit pair does not fall on character
    /// boundaries.
    Length,
    /// Contains something other than a lowercase hex digit.
    NotHex,
}

impl ContentAddressError {
    /// The human-readable text of the error.
    pub fn display_text(self) -> (text: &'static str)
        ensures
            text@ == (match self {
                ContentAddressError::Length => "content address is not 64 characters long"@,
                ContentAddressError::NotHex => "content address is not lowercase hex"@,
            }),
    {
        match self {
            ContentAddressError::Length => "content address is not 64 characters long",
            ContentAddressError::NotHex => "content address is not lowercase hex",
        }
    }
}

/// Whether a byte is one of `0-9a-f`.
pub open spec fn is_lower_hex_digit(b: u8) -> bool {
    (48 <= b && b <= 57) || (97 <= b && b <= 102)
}

/// The value of a lowercase hex digit byte.
pub open spec fn hex_value(b: u8) -> int {
    if b <= 57 {
        b - 48
    } else {
        b - 87
    }
}

/// What is wrong with digit pair `i` of `bytes`, if anything: a pair that
/// does not start and end on character boundaries is a length error, a pair
/// with a byte outside `0-9a-f` is not hex.
pub open spec fn pair_failure(bytes: Seq<u8>, i: int) -> Option<ContentAddressError> {
    if !is_char_boundary(bytes, 2 * i) || !is_char_boundary(bytes, 2 * i + 2) {
        Some(ContentAddressError::Length)
    } else if !is_lower_hex_digit(bytes[2 * i]) || !is_lower_hex_digit(bytes[2 * i + 1]) {
        Some(ContentAddressError::NotHex)
    } else {
        None
    }
}

/// The failure of the first bad digit pair at or after pair `i`.
pub open spec fn first_pair_failure(bytes: Seq<u8>, i: nat) -> Option<ContentAddressError>
    decreases 32 - i,
{
    if i >= 32 {
        None
    } else {
        match pair_failure(bytes, i as int) {
            Some(e) => Some(e),
            None => first_pair_failure(bytes, i + 1),
        }
    }
}

/// The 32 bytes a 64-digit hex string spells.
pub open spec fn decoded_digest(bytes: Seq<u8>) -> Seq<u8> {
    Seq::new(32, |k: int| (hex_value(bytes[2 * k]) * 16 + hex_value(bytes[2 * k + 1])) as u8)
}

/// The result of parsing the UTF-8 bytes of a string as a digest: exactly
/// 64 bytes, walked pair by pair.
pub open spec fn parse_digest(bytes: Seq<u8>) -> Result<Seq<u8>, ContentAddressError> {
    if bytes.len() != 64 {
        Err(ContentAddressError::Length)
    } else {
        match first_pair_failure(bytes, 0) {
            Some(e) => Err(e),
            None => Ok(decoded_digest(bytes)),
        }
    }
}

/// The lowercase hex character of a nibble.
pub open spec fn hex_char(n: int) -> char {
    if n <= 9 {
        (48 + n) as char
    } else {
        (87 + n) as char
    }
}

/// The lowercase hex spelling of some bytes: two characters per byte, high
/// nibble first.
pub open spec fn hex_text(bytes: Seq<u8>) -> Seq<char> {
    Seq::new(
        2 * bytes.len(),
        |j: int|
            if j % 2 == 0 {
                hex_char((bytes[j / 2] / 16) as int)
            } else {
                hex_char((bytes[j / 2] % 16) as int)
            },
    )
}

fn hex_digit(nibble: u8) -> (c: char)
    requires
        nibble < 16,
    ensures
        c == hex_char(nibble as int),
{
    if nibble <= 9 {
        (48u8 + nibble) as char
    } else {
        (87u8 + nibble) as char
    }
}

proof fn lemma_nibbles(b: u8)
    by (bit_vector)
    ensures
        b >> 4u8 == b / 16u8,
        b & 15u8 == b % 16u8,
{
}

/// The lowercase hex spelling of `bytes`.
pub fn hex_string(bytes: &[u8]) -> (s: String)
    requires
        bytes@.len() < usize::MAX / 2,
    ensures
        s@ == hex_text(bytes@),
{
    let mut s = String::new();
    let mut i: usize = 0;
    while i < bytes.len()
        invariant
            i <= bytes@.len(),
            bytes@.len() < usize::MAX / 2,
            s@.len() == 2 * i,
            forall|j: int| 0 <= j < 2 * i ==> s@[j] == #[trigger] hex_text(bytes@)[j],
        decreases bytes@.len() - i,
    {
        let byte = bytes[i];
        proof {
            lemma_nibbles(byte);
        }
        push_char_checked(&mut s, hex_digit(byte >> 4));
        push_char_checked(&mut s, hex_digit(byte & 15));
        i = i + 1;
    }
    assert(s@ =~= hex_text(bytes@));
    s
}

fn push_char_checked(s: &mut String, c: char)
    ensures
        final(s)@ == old(s)@.push(c),
{
    crate::text::push_char(s, c);
}

fn hex_nibble(b: u8) -> (n: Option<u8>)
    ensures
        n is Some <==> is_lower_hex_digit(b),
        n is Some ==> n->0 as int == hex_value(b) && n->0 < 16,
{
    if 48 <= b && b <= 57 {
        Some(b - 48)
    } else if 97 <= b && b <= 102 {
        Some(b - 87)
    } else {
        None
    }
}

fn parse_digest_hex(value: &str) -> (parsed: Result<[u8; 32], ContentAddressError>)
    ensures
        match parsed {
            Ok(bytes) => parse_digest(value.spec_bytes()) == Ok::<Seq<u8>, ContentAddressError>(
                bytes@,
            ),
            Err(e) => parse_digest(value.spec_bytes()) == Err::<Seq<u8>, ContentAddressError>(e),
        },
{
    let raw = value.as_bytes();
    if raw.len() != 64 {
        return Err(ContentAddressError::Length);
    }
    let ghost spelled = value.spec_bytes();
    proof {
        encode_utf8_valid_utf8(value@);
    }
    let mut bytes = [0u8; 32];
    let mut i: usize = 0;
    while i < 32
        invariant
            i <= 32,
            raw@ == spelled,
            spelled == value.spec_bytes(),
            valid_utf8(spelled),
            spelled.len() == 64,
            first_pair_failure(spelled, 0) == first_pair_failure(spelled, i as nat),
            forall|k: int| 0 <= k < i ==> #[trigger] bytes@[k] == decoded_digest(spelled)[k],
        decreases 32 - i,
    {
        let start_at: usize = 2 * i;
        let end_at: usize = 2 * i + 2;
        let start_ok = value.is_char_boundary(start_at);
        let end_ok = value.is_char_boundary(end_at);
        assert(start_ok == is_char_boundary(spelled, 2 * i));
        assert(end_ok == is_char_boundary(spelled, 2 * i + 2));
        if !start_ok || !end_ok {
            assert(pair_failure(spelled, i as int) == Some(ContentAddressError::Length));
            assert(first_pair_failure(spelled, i as nat) == Some(ContentAddressError::Length));
            return Err(ContentAddressError::Length);
        }
        let hi = hex_nibble(raw[2 * i]);
        let lo = hex_nibble(raw[2 * i + 1]);
        match (hi, lo) {
            (Some(h), Some(l)) => {
                bytes[i] = h * 16 + l;
                assert(pair_failure(spelled, i as int) == None::<ContentAddressError>);
                assert(first_pair_failure(spelled, i as nat) == first_pair_failure(
                    spelled,
                    (i + 1) as nat,
                ));
            },
            _ => {
                assert(pair_failure(spelled, i as int) == Some(ContentAddressError::NotHex));
                assert(first_pair_failure(spelled, i as nat) == Some(
                    ContentAddressError::NotHex,
                ));
                return Err(ContentAddressError::NotHex);
            },
        }
        i = i + 1;
    }
    assert(bytes@ =~= decoded_digest(spelled));
    Ok(bytes)
}

/// The content address of a stored artifact: the digest of the artifact
/// file's full content.
#[derive(Clone, Copy, PartialEq, Eq, PartialOrd, Ord, Hash)]
pub struct ContentAddress([u8; 32]);

impl View for ContentAddress {
    type V = Seq<u8>;

    closed spec fn view(&self) -> Seq<u8> {
        self.0@
    }
}

impl ContentAddress {
    pub fn from_bytes(bytes: [u8; 32]) -> (address: ContentAddress)
        ensures
            address@ == bytes@,
    {
        ContentAddress(bytes)
    }

    pub fn as_bytes(&self) -> (bytes: &[u8; 32])
        ensures
            bytes@ == self@,
    {
        &self.0
    }

    /// Parses exactly 64 lowercase hex characters and nothing else.
    pub fn from_hex(value: &str) -> (parsed: Result<ContentAddress, ContentAddressError>)
        ensures
            match parsed {
                Ok(address) => parse_digest(value.spec_bytes()) == Ok::<
                    Seq<u8>,
                    ContentAddressError,
                >(address@),
                Err(e) => parse_digest(value.spec_bytes()) == Err::<Seq<u8>, ContentAddressError>(
                    e,
                ),
            },
    {
        match parse_digest_hex(value) {
            Ok(bytes) => Ok(ContentAddress(bytes)),
            Err(e) => Err(e),
        }
    }

    /// Lowercase hex, 64 characters.
    pub fn to_hex(&self) -> (hex: String)
        ensures
            hex@ == hex_text(self@),
    {
        hex_string(&self.0)
    }

    /// Diagnostic text; never the digest itself.
    pub fn debug_text(&self) -> (text: &'static str)
        ensures
            text@ == "ContentAddress(<redacted>)"@,
    {
        "ContentAddress(<redacted>)"
    }

    /// Display text; never the digest itself.
    pub fn display_text(&self) -> (text: &'static str)
        ensures
            text@ == "<redacted>"@,
    {
        "<redacted>"
    }
}

/// The cache identity an artifact index is searched by: a 32-byte digest.
#[derive(Clone, Copy, PartialEq, Eq, Hash)]
pub struct CacheKey([u8; 32]);

impl View for CacheKey {
    type V = Seq<u8>;

    closed spec fn view(&self) -> Seq<u8> {
        self.0@
    }
}

impl CacheKey {
    pub fn from_bytes(bytes: [u8; 32]) -> (key: CacheKey)
        ensures
            key@ == bytes@,
    {
        CacheKey(bytes)
    }

    pub fn as_bytes(&self) -> (bytes: &[u8; 32])
        ensures
            bytes@ == self@,
    {
        &self.0
    }

    /// Parses exactly 64 lowercase hex characters and nothing else, by the
    /// same rule as [`ContentAddress::from_hex`].
    pub fn from_hex(value: &str) -> (parsed: Result<CacheKey, ContentAddressError>)
        ensures
            match parsed {
                Ok(key) => parse_digest(value.spec_bytes()) == Ok::<Seq<u8>, ContentAddressError>(
                    key@,
                ),
                Err(e) => parse_digest(value.spec_bytes()) == Err::<Seq<u8>, ContentAddressError>(
                    e,
                ),
            },
    {
        match parse_digest_hex(value) {
            Ok(bytes) => Ok(CacheKey(bytes)),
            Err(e) => Err(e),
        }
    }

    /// Lowercase hex, 64 characters.
    pub fn to_hex(&self) -> (hex: String)
        ensures
            hex@ == hex_text(self@),
    {
        hex_string(&self.0)
    }

    /// Diagnostic text; never the key itself.
    pub fn debug_text(&self) -> (text: &'static str)
        ensures
            text@ == "CacheKey(<redacted>)"@,
    {
        "CacheKey(<redacted>)"
    }

    /// Display text; never the key itself.
    pub fn display_text(&self) -> (text: &'static str)
        ensures
            text@ == "<redacted>"@,
    {
        "<redacted>"
    }
}

proof fn lemma_hex_char_round_trip(n: int)
    requires
        0 <= n < 16,
    ensures
        is_lower_hex_digit(hex_char(n) as u8),
        hex_value(hex_char(n) as u8) == n,
        '\0' <= hex_char(n) <= '\u{7f}',
{
}

/// Spelling a digest in hex and parsing the spelling gives the digest back.
pub proof fn law_hex_round_trip(bytes: Seq<u8>)
    requires
        bytes.len() == 32,
    ensures
        parse_digest(encode_utf8(hex_text(bytes))) == Ok::<Seq<u8>, ContentAddressError>(bytes),
{
    let chars = hex_text(bytes);
    assert forall|j: int| 0 <= j < chars.len() implies '\0' <= #[trigger] chars[j] <= '\u{7f}' by {
        lemma_hex_char_round_trip((bytes[j / 2] / 16) as int);
        lemma_hex_char_round_trip((bytes[j / 2] % 16) as int);
    }
    assert(is_ascii_chars(chars));
    is_ascii_chars_encode_utf8(chars);
    let spelled = encode_utf8(chars);
    assert(spelled.len() == 64);
    assert forall|i: int| 0 <= i < 32 implies pair_failure(spelled, i) == None::<
        ContentAddressError,
    > by {
        lemma_hex_char_round_trip((bytes[i] / 16) as int);
        lemma_hex_char_round_trip((bytes[i] % 16) as int);
        assert(spelled[2 * i] == chars[2 * i] as u8);
        assert(spelled[2 * i + 1] == chars[2 * i + 1] as u8);
        is_char_boundary_iff_not_is_continuation_byte(spelled, 2 * i);
        if 2 * i + 2 < 64 {
            lemma_hex_char_round_trip((bytes[i + 1] / 16) as int);
            assert(spelled[2 * i + 2] == chars[2 * i + 2] as u8);
            is_char_boundary_iff_not_is_continuation_byte(spelled, 2 * i + 2);
        } else {
            is_char_boundary_start_end_of_seq(spelled);
        }
    }
    lemma_no_failure_from(spelled, 0);
    assert forall|k: int| 0 <= k < 32 implies #[trigger] decoded_digest(spelled)[k] == bytes[k] by {
        lemma_hex_char_round_trip((bytes[k] / 16) as int);
        lemma_hex_char_round_trip((bytes[k] % 16) as int);
        assert(spelled[2 * k] == chars[2 * k] as u8);
        assert(spelled[2 * k + 1] == chars[2 * k + 1] as u8);
    }
    assert(decoded_digest(spelled) =~= bytes);
}

/// Two lowercase digits decode to a byte whose spelling is those digits.
proof fn lemma_digit_pair_respelled(hi: u8, lo: u8)
    requires
        is_lower_hex_digit(hi),
        is_lower_hex_digit(lo),
    ensures
        ({
            let d = (hex_value(hi) * 16 + hex_value(lo)) as u8;
            hex_char((d / 16) as int) as u8 == hi && hex_char((d % 16) as int) as u8 == lo
        }),
{
    let a = hex_value(hi);
    let b = hex_value(lo);
    assert(0 <= a < 16 && 0 <= b < 16);
    let d = (a * 16 + b) as u8;
    assert(d == a * 16 + b);
    assert((a * 16 + b) / 16 == a && (a * 16 + b) % 16 == b) by (nonlinear_arith)
        requires
            0 <= a < 16,
            0 <= b < 16,
    ;
    lemma_hex_char_round_trip(a);
    lemma_hex_char_round_trip(b);
}

proof fn lemma_failure_free_from(bytes: Seq<u8>, i: nat)
    requires
        first_pair_failure(bytes, i) == None::<ContentAddressError>,
    ensures
        forall|j: int| i <= j < 32 ==> pair_failure(bytes, j) == None::<ContentAddressError>,
    decreases 32 - i,
{
    if i < 32 {
        lemma_failure_free_from(bytes, i + 1);
    }
}

/// A string that parses as a digest is that digest's spelling: spelling a
/// parsed digest again gives back the very string that was parsed.
pub proof fn law_parsed_hex_respells(text: Seq<char>, digest: Seq<u8>)
    requires
        parse_digest(encode_utf8(text)) == Ok::<Seq<u8>, ContentAddressError>(digest),
    ensures
        hex_text(digest) == text,
{
    let bytes = encode_utf8(text);
    lemma_failure_free_from(bytes, 0);
    assert(digest == decoded_digest(bytes));
    let chars = hex_text(digest);
    assert forall|j: int| 0 <= j < chars.len() implies '\0' <= #[trigger] chars[j] <= '\u{7f}' by {
        lemma_hex_char_round_trip((digest[j / 2] / 16) as int);
        lemma_hex_char_round_trip((digest[j / 2] % 16) as int);
    }
    assert(is_ascii_chars(chars));
    is_ascii_chars_encode_utf8(chars);
    let spelled = encode_utf8(chars);
    assert forall|j: int| 0 <= j < 64 implies #[trigger] spelled[j] == bytes[j] by {
        let k = j / 2;
        assert(pair_failure(bytes, k) == None::<ContentAddressError>);
        lemma_digit_pair_respelled(bytes[2 * k], bytes[2 * k + 1]);
        assert(spelled[j] == chars[j] as u8);
    }
    assert(spelled =~= bytes);
    encode_utf8_decode_utf8(text);
    encode_utf8_decode_utf8(chars);
}

proof fn lemma_no_failure_from(bytes: Seq<u8>, i: nat)
    requires
        forall|j: int| i <= j < 32 ==> pair_failure(bytes, j) == None::<ContentAddressError>,
    ensures
        first_pair_failure(bytes, i) == None::<ContentAddressError>,
    decreases 32 - i,
{
    if i < 32 {
        lemma_no_failure_from(bytes, i + 1);
    }
}

} // verus!
