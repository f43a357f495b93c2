//! Hex text handling: parsing a 32-byte code hash out of its hex text
//! (optional `0x` prefix), and formatting raw bytes as `0x`-prefixed hex.

use vstd::prelude::*;

verus! {

/// Why a hash text failed to parse: not hex at all, or hex of the wrong size.
#[derive(Debug, Clone, Copy, PartialEq, Eq, Structural)]
pub enum HashParseError {
    InvalidFormat,
    InvalidLength,
}

pub open spec fn is_hex_digit(c: char) -> bool {
    c == '0' || c == '1' || c == '2' || c == '3' || c == '4' || c == '5' || c == '6' || c == '7'
        || c == '8' || c == '9' || c == 'a' || c == 'b' || c == 'c' || c == 'd' || c == 'e'
        || c == 'f' || c == 'A' || c == 'B' || c == 'C' || c == 'D' || c == 'E' || c == 'F'
}

pub open spec fn hex_digit_value(c: char) -> u8 {
    if c == '0' {
        0
    } else if c == '1' {
        1
    } else if c == '2' {
        2
    } else if c == '3' {
        3
    } else if c == '4' {
        4
    } else if c == '5' {
        5
    } else if c == '6' {
        6
    } else if c == '7' {
        7
    } else if c == '8' {
        8
    } else if c == '9' {
        9
    } else if c == 'a' || c == 'A' {
        10
    } else if c == 'b' || c == 'B' {
        11
    } else if c == 'c' || c == 'C' {
        12
    } else if c == 'd' || c == 'D' {
        13
    } else if c == 'e' || c == 'E' {
        14
    } else if c == 'f' || c == 'F' {
        15
    } else {
        0
    }
}

/// The hex digit (lower case) whose value is `v`.
pub open spec fn hex_char(v: u8) -> char {
    if v == 0 {
        '0'
    } else if v == 1 {
        '1'
    } else if v == 2 {
        '2'
    } else if v == 3 {
        '3'
    } else if v == 4 {
        '4'
    } else if v == 5 {
        '5'
    } else if v == 6 {
        '6'
    } else if v == 7 {
        '7'
    } else if v == 8 {
        '8'
    } else if v == 9 {
        '9'
    } else if v == 10 {
        'a'
    } else if v == 11 {
        'b'
    } else if v == 12 {
        'c'
    } else if v == 13 {
        'd'
    } else if v == 14 {
        'e'
    } else {
        'f'
    }
}

/// The text with a leading `0x` removed, if one is there.
pub open spec fn strip_hex_prefix(s: Seq<char>) -> Seq<char> {
    if s.len() >= 2 && s[0] == '0' && s[1] == 'x' {
        s.subrange(2, s.len() as int)
    } else {
        s
    }
}

pub open spec fn all_hex_digits(s: Seq<char>) -> bool {
    forall|i: int| 0 <= i < s.len() ==> is_hex_digit(s[i])
}

/// The bytes an even-length hex digit sequence denotes.
pub open spec fn decoded_bytes(s: Seq<char>) -> Seq<u8> {
    Seq::new(
        (s.len() / 2) as nat,
        |i: int| (16 * hex_digit_value(s[2 * i]) + hex_digit_value(s[2 * i + 1])) as u8,
    )
}

/// Whether a hash text (optional `0x` prefix) denotes exactly 32 bytes.
pub open spec fn hash_hex_ok(s: Seq<char>) -> bool {
    let h = strip_hex_prefix(s);
    h.len() == 64 && all_hex_digits(h)
}

/// The 32 bytes a well-formed hash text denotes.
pub open spec fn parsed_hash(s: Seq<char>) -> Seq<u8> {
    decoded_bytes(strip_hex_prefix(s))
}

/// How a malformed hash text is classified: content that is not hex (or an
/// odd digit count) is a format error; well-formed hex of a size other than
/// 32 bytes is a length error.
pub open spec fn hash_parse_error_kind(s: Seq<char>) -> HashParseError {
    let h = strip_hex_prefix(s);
    if !all_hex_digits(h) || h.len() % 2 != 0 {
        HashParseError::InvalidFormat
    } else {
        HashParseError::InvalidLength
    }
}

/// The lower-case hex text of a byte sequence, two digits per byte.
pub open spec fn hex_seq(b: Seq<u8>) -> Seq<char> {
    Seq::new(
        (b.len() * 2) as nat,
        |i: int|
            if i % 2 == 0 {
                hex_char(b[i / 2] / 16)
            } else {
                hex_char(b[i / 2] % 16)
            },
    )
}

/// The `0x`-prefixed lower-case hex text of a byte sequence.
pub open spec fn hex_prefixed(b: Seq<u8>) -> Seq<char> {
    seq!['0', 'x'] + hex_seq(b)
}

fn is_hex_digit_char(c: char) -> (r: bool)
    ensures
        r == is_hex_digit(c),
{
    match c {
        '0' | '1' | '2' | '3' | '4' | '5' | '6' | '7' | '8' | '9' => true,
        'a' | 'b' | 'c' | 'd' | 'e' | 'f' => true,
        'A' | 'B' | 'C' | 'D' | 'E' | 'F' => true,
        _ => false,
    }
}

fn hex_digit_value_char(c: char) -> (r: u8)
    requires
        is_hex_digit(c),
    ensures
        r == hex_digit_value(c),
        r < 16,
{
    match c {
        '0' => 0,
        '1' => 1,
        '2' => 2,
        '3' => 3,
        '4' => 4,
        '5' => 5,
        '6' => 6,
        '7' => 7,
        '8' => 8,
        '9' => 9,
        'a' | 'A' => 10,
        'b' | 'B' => 11,
        'c' | 'C' => 12,
        'd' | 'D' => 13,
        'e' | 'E' => 14,
        _ => 15,
    }
}

fn hex_digit_str(v: u8) -> (r: &'static str)
    requires
        v < 16,
    ensures
        r@ == seq![hex_char(v)],
{
    match v {
        0 => {
            proof {
                reveal_strlit("0");
                assert("0"@ =~= seq![hex_char(0u8)]);
            }
            "0"
        },
        1 => {
            proof {
                reveal_strlit("1");
                assert("1"@ =~= seq![hex_char(1u8)]);
            }
            "1"
        },
        2 => {
            proof {
                reveal_strlit("2");
                assert("2"@ =~= seq![hex_char(2u8)]);
            }
            "2"
        },
        3 => {
            proof {
                reveal_strlit("3");
                assert("3"@ =~= seq![hex_char(3u8)]);
            }
            "3"
        },
        4 => {
            proof {
                reveal_strlit("4");
                assert("4"@ =~= seq![hex_char(4u8)]);
            }
            "4"
        },
        5 => {
            proof {
                reveal_strlit("5");
                assert("5"@ =~= seq![hex_char(5u8)]);
            }
            "5"
        },
        6 => {
            proof {
                reveal_strlit("6");
                assert("6"@ =~= seq![hex_char(6u8)]);
            }
            "6"
        },
        7 => {
            proof {
                reveal_strlit("7");
                assert("7"@ =~= seq![hex_char(7u8)]);
            }
            "7"
        },
        8 => {
            proof {
                reveal_strlit("8");
                assert("8"@ =~= seq![hex_char(8u8)]);
            }
            "8"
        },
        9 => {
            proof {
                reveal_strlit("9");
                assert("9"@ =~= seq![hex_char(9u8)]);
            }
            "9"
        },
        10 => {
            proof {
                reveal_strlit("a");
                assert("a"@ =~= seq![hex_char(10u8)]);
            }
            "a"
        },
        11 => {
            proof {
                reveal_strlit("b");
                assert("b"@ =~= seq![hex_char(11u8)]);
            }
            "b"
        },
        12 => {
            proof {
                reveal_strlit("c");
                assert("c"@ =~= seq![hex_char(12u8)]);
            }
            "c"
        },
        13 => {
            proof {
                reveal_strlit("d");
                assert("d"@ =~= seq![hex_char(13u8)]);
            }
            "d"
        },
        14 => {
            proof {
                reveal_strlit("e");
                assert("e"@ =~= seq![hex_char(14u8)]);
            }
            "e"
        },
        _ => {
            proof {
                reveal_strlit("f");
                assert("f"@ =~= seq![hex_char(15u8)]);
            }
            "f"
        },
    }
}

/// Parses a code hash out of its hex text (optional `0x` prefix): exactly
/// 64 hex digits give the 32 denoted bytes; anything else is rejected and
/// classified as a format or a length error.
pub fn parse_code_hash(s: &str) -> (r: Result<Vec<u8>, HashParseError>)
    ensures
        hash_hex_ok(s@) <==> r is Ok,
        r matches Ok(b) ==> b@ == parsed_hash(s@) && b@.len() == 32,
        r matches Err(e) ==> e == hash_parse_error_kind(s@),
{
    let n = s.unicode_len();
    let start: usize = if n >= 2 && s.get_char(0) == '0' && s.get_char(1) == 'x' {
        2
    } else {
        0
    };
    let ghost h = strip_hex_prefix(s@);
    proof {
        assert(h =~= s@.subrange(start as int, n as int));
    }
    let mut i: usize = start;
    while i < n
        invariant
            start <= i <= n,
            n == s@.len(),
            h == strip_hex_prefix(s@),
            h == s@.subrange(start as int, n as int),
            forall|j: int| start <= j < i ==> is_hex_digit(s@[j]),
        decreases n - i,
    {
        if !is_hex_digit_char(s.get_char(i)) {
            proof {
                assert(h[i - start] == s@[i as int]);
                assert(!is_hex_digit(h[i - start]));
                assert(!all_hex_digits(h));
                assert(!hash_hex_ok(s@));
            }
            return Err(HashParseError::InvalidFormat);
        }
        i = i + 1;
    }
    proof {
        assert(forall|j: int| 0 <= j < h.len() ==> h[j] == s@[j + start] && is_hex_digit(h[j]));
    }
    let hlen = n - start;
    if hlen % 2 != 0 {
        return Err(HashParseError::InvalidFormat);
    }
    if hlen != 64 {
        return Err(HashParseError::InvalidLength);
    }
    let mut bytes: Vec<u8> = Vec::new();
    let mut k: usize = 0;
    while k < 32
        invariant
            k <= 32,
            n == s@.len(),
            start + 64 == n,
            h == strip_hex_prefix(s@),
            h == s@.subrange(start as int, n as int),
            h.len() == 64,
            all_hex_digits(h),
            bytes@.len() == k,
            forall|j: int| 0 <= j < k ==> bytes@[j] == decoded_bytes(h)[j],
        decreases 32 - k,
    {
        proof {
            assert(is_hex_digit(h[2 * k]));
            assert(h[2 * k] == s@[start + 2 * k]);
            assert(is_hex_digit(h[2 * k + 1]));
            assert(h[2 * k + 1] == s@[start + 2 * k + 1]);
        }
        let hi = hex_digit_value_char(s.get_char(start + 2 * k));
        let lo = hex_digit_value_char(s.get_char(start + 2 * k + 1));
        bytes.push(16 * hi + lo);
        k = k + 1;
    }
    proof {
        assert(bytes@ =~= decoded_bytes(h));
    }
    Ok(bytes)
}

/// Formats raw bytes as `0x`-prefixed lower-case hex, two digits per byte.
pub fn encode_hex_prefixed(bytes: &Vec<u8>) -> (s: String)
    ensures
        s@ == hex_prefixed(bytes@),
{
    let mut s = String::from_str("0x");
    proof {
        reveal_strlit("0x");
        assert(s@ =~= seq!['0', 'x'] + hex_seq(bytes@.take(0)));
    }
    let mut i: usize = 0;
    while i < bytes.len()
        invariant
            i <= bytes@.len(),
            s@ == seq!['0', 'x'] + hex_seq(bytes@.take(i as int)),
        decreases bytes@.len() - i,
    {
        let b = bytes[i];
        s.append(hex_digit_str(b / 16));
        s.append(hex_digit_str(b % 16));
        proof {
            assert(hex_seq(bytes@.take(i + 1)) =~= hex_seq(bytes@.take(i as int))
                + seq![hex_char(b / 16), hex_char(b % 16)]);
            assert(s@ =~= seq!['0', 'x'] + hex_seq(bytes@.take(i + 1)));
        }
        i = i + 1;
    }
    proof {
        assert(bytes@.take(bytes@.len() as int) =~= bytes@);
    }
    s
}

} // verus!
