//! Kinds of messages an operator can send, and parsing of hex payload text.

use vstd::prelude::*;
use vstd::string::StrSliceExecFns;

verus! {

/// The kinds of message an operator can compose.
#[derive(Clone, Copy, Debug, PartialEq, Eq, Structural)]
pub enum MessageType {
    Sync,
    Nmt,
    Pdo,
    Raw,
    Emcy,
    Sdo,
    PdoConfig,
}

impl MessageType {
    /// The label shown for this kind.
    pub fn as_str(&self) -> (r: &'static str)
        ensures
            r@ == match *self {
                MessageType::Sync => "SYNC"@,
                MessageType::Nmt => "NMT"@,
                MessageType::Pdo => "PDO"@,
                MessageType::Raw => "Raw CAN"@,
                MessageType::Emcy => "EMCY"@,
                MessageType::Sdo => "SDO (CIA 402)"@,
                MessageType::PdoConfig => "PDO Config"@,
            },
    {
        match self {
            MessageType::Sync => "SYNC",
            MessageType::Nmt => "NMT",
            MessageType::Pdo => "PDO",
            MessageType::Raw => "Raw CAN",
            MessageType::Emcy => "EMCY",
            MessageType::Sdo => "SDO (CIA 402)",
            MessageType::PdoConfig => "PDO Config",
        }
    }

    /// Every kind, in the order they are offered.
    pub fn all() -> (r: [MessageType; 7])
        ensures
            r@ == seq![
                MessageType::Sync,
                MessageType::Nmt,
                MessageType::Pdo,
                MessageType::Sdo,
                MessageType::PdoConfig,
                MessageType::Raw,
                MessageType::Emcy,
            ],
    {
        let r = [
            MessageType::Sync,
            MessageType::Nmt,
            MessageType::Pdo,
            MessageType::Sdo,
            MessageType::PdoConfig,
            MessageType::Raw,
            MessageType::Emcy,
        ];
        assert(r@ =~= seq![
            MessageType::Sync,
            MessageType::Nmt,
            MessageType::Pdo,
            MessageType::Sdo,
            MessageType::PdoConfig,
            MessageType::Raw,
            MessageType::Emcy,
        ]);
        r
    }
}

/// Why hex payload text was rejected.
#[derive(Clone, Copy, Debug, PartialEq, Eq, Structural)]
pub enum HexError {
    /// Without whitespace the text has an odd number of characters.
    OddLength,
    /// The pair of characters starting at this position (counted in the text
    /// without whitespace) is not a byte in hex.
    InvalidDigit { position: usize },
}

/// Whether `c` has the Unicode White_Space property.
pub uninterp spec fn white_space(c: char) -> bool;

/// Relies on `char::is_whitespace`, which tests the Unicode White_Space
/// property of the character alone.
#[verifier::external_body]
fn is_white_space(c: char) -> (r: bool)
    ensures
        r == white_space(c),
{
    c.is_whitespace()
}

/// `s` without its whitespace.
pub open spec fn strip_white_space(s: Seq<char>) -> Seq<char> {
    s.filter(|c: char| !white_space(c))
}

/// Value of a hex digit, either case.
pub open spec fn hex_digit(c: char) -> Option<u8> {
    if '0' <= c <= '9' {
        Some((c as u32 - '0' as u32) as u8)
    } else if 'a' <= c <= 'f' {
        Some((c as u32 - 'a' as u32 + 10) as u8)
    } else if 'A' <= c <= 'F' {
        Some((c as u32 - 'A' as u32 + 10) as u8)
    } else {
        None
    }
}

/// Value of a two-character hex number as Rust's integer parsing reads it:
/// two digits, or a plus sign and one digit.
pub open spec fn hex_pair(a: char, b: char) -> Option<u8> {
    if a == '+' {
        hex_digit(b)
    } else {
        match (hex_digit(a), hex_digit(b)) {
            (Some(x), Some(y)) => Some((x * 16 + y) as u8),
            _ => None,
        }
    }
}

/// The pair of `s` starting at character `2 * i`.
pub open spec fn pair_at(s: Seq<char>, i: int) -> Option<u8> {
    hex_pair(s[2 * i], s[2 * i + 1])
}

fn hex_digit_exec(c: char) -> (r: Option<u8>)
    ensures
        r == hex_digit(c),
{
    if '0' <= c && c <= '9' {
        Some((c as u32 - '0' as u32) as u8)
    } else if 'a' <= c && c <= 'f' {
        Some((c as u32 - 'a' as u32 + 10) as u8)
    } else if 'A' <= c && c <= 'F' {
        Some((c as u32 - 'A' as u32 + 10) as u8)
    } else {
        None
    }
}

fn hex_pair_exec(a: char, b: char) -> (r: Option<u8>)
    ensures
        r == hex_pair(a, b),
{
    if a == '+' {
        return hex_digit_exec(b);
    }
    match (hex_digit_exec(a), hex_digit_exec(b)) {
        (Some(x), Some(y)) => Some(x * 16 + y),
        _ => None,
    }
}

/// Reads characters without whitespace as bytes in hex, two characters per
/// byte. Rejects an odd number of characters, and otherwise reports the
/// first pair that is not a byte in hex.
pub fn decode_hex_pairs(cleaned: &Vec<char>) -> (r: Result<Vec<u8>, HexError>)
    ensures
        cleaned@.len() % 2 == 1 ==> r == Err::<Vec<u8>, HexError>(HexError::OddLength),
        cleaned@.len() % 2 == 0 ==> (r is Ok <==> forall|i: int|
            0 <= i < cleaned@.len() / 2 ==> (#[trigger] pair_at(cleaned@, i)) is Some),
        r matches Ok(v) ==> v@.len() == cleaned@.len() / 2 && forall|i: int|
            0 <= i < v@.len() ==> pair_at(cleaned@, i) == Some(#[trigger] v@[i]),
        r matches Err(HexError::InvalidDigit { position }) ==> cleaned@.len() % 2 == 0 && position
            % 2 == 0 && position < cleaned@.len() && pair_at(cleaned@, (position / 2) as int) is None
            && forall|i: int| 0 <= i < position / 2 ==> (#[trigger] pair_at(cleaned@, i)) is Some,
{
    if cleaned.len() % 2 != 0 {
        return Err(HexError::OddLength);
    }
    let mut result: Vec<u8> = Vec::new();
    let mut i: usize = 0;
    while i < cleaned.len()
        invariant
            cleaned@.len() % 2 == 0,
            i % 2 == 0,
            i <= cleaned@.len(),
            result@.len() == i / 2,
            forall|k: int| 0 <= k < i / 2 ==> pair_at(cleaned@, k) == Some(#[trigger] result@[k]),
        decreases cleaned@.len() - i,
    {
        match hex_pair_exec(cleaned[i], cleaned[i + 1]) {
            Some(byte) => result.push(byte),
            None => {
                assert(pair_at(cleaned@, (i / 2) as int) is None);
                assert forall|k: int| 0 <= k < i / 2 implies (#[trigger] pair_at(cleaned@, k)) is Some by {
                    assert(pair_at(cleaned@, k) == Some(result@[k]));
                }
                return Err(HexError::InvalidDigit { position: i });
            },
        }
        i = i + 2;
    }
    assert forall|k: int| 0 <= k < cleaned@.len() / 2 implies (#[trigger] pair_at(cleaned@, k)) is Some by {
        assert(pair_at(cleaned@, k) == Some(result@[k]));
    }
    Ok(result)
}

/// Parses payload text such as "00 11 22" or "001122" into bytes: the
/// whitespace is dropped and the rest read as described at
/// `decode_hex_pairs`.
pub fn parse_hex_data(s: &str) -> (r: Result<Vec<u8>, HexError>)
    ensures
        ({
            let c = strip_white_space(s@);
            &&& c.len() % 2 == 1 ==> r == Err::<Vec<u8>, HexError>(HexError::OddLength)
            &&& c.len() % 2 == 0 ==> (r is Ok <==> forall|i: int|
                0 <= i < c.len() / 2 ==> (#[trigger] pair_at(c, i)) is Some)
            &&& r matches Ok(v) ==> v@.len() == c.len() / 2 && forall|i: int|
                0 <= i < v@.len() ==> pair_at(c, i) == Some(#[trigger] v@[i])
            &&& r matches Err(HexError::InvalidDigit { position }) ==> position % 2 == 0
                && position < c.len() && pair_at(c, (position / 2) as int) is None && forall|i: int|
                0 <= i < position / 2 ==> (#[trigger] pair_at(c, i)) is Some
        }),
{
    let n = s.unicode_len();
    let mut cleaned: Vec<char> = Vec::new();
    let mut i: usize = 0;
    while i < n
        invariant
            n == s@.len(),
            i <= n,
            cleaned@ == strip_white_space(s@.take(i as int)),
        decreases n - i,
    {
        let c = s.get_char(i);
        if !is_white_space(c) {
            cleaned.push(c);
        }
        proof {
            assert(s@.take(i + 1) =~= s@.take(i as int).push(c));
            s@.take(i as int).lemma_filter_push(c, |c: char| !white_space(c));
        }
        i = i + 1;
    }
    assert(s@.take(n as int) =~= s@);
    decode_hex_pairs(&cleaned)
}

} // verus!
