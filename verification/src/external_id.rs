//! The text of an external id: a prefix that names the kind of entity, an
//! underscore, the key in lowercase hexadecimal and a random alphanumeric
//! suffix.

use rand::Rng;
use vstd::prelude::*;
use vstd::string::StringExecFns;

verus! {

/// How many random characters end the external id of an entity.
pub const ID_SUFFIX_LEN: usize = 20;

/// How many random characters make the key of a link.
pub const LINK_KEY_LEN: usize = 16;

/// The lowercase hexadecimal digit of a number below 16.
pub open spec fn hex_digit(value: nat) -> char {
    if value == 0 {
        '0'
    } else if value == 1 {
        '1'
    } else if value == 2 {
        '2'
    } else if value == 3 {
        '3'
    } else if value == 4 {
        '4'
    } else if value == 5 {
        '5'
    } else if value == 6 {
        '6'
    } else if value == 7 {
        '7'
    } else if value == 8 {
        '8'
    } else if value == 9 {
        '9'
    } else if value == 10 {
        'a'
    } else if value == 11 {
        'b'
    } else if value == 12 {
        'c'
    } else if value == 13 {
        'd'
    } else if value == 14 {
        'e'
    } else {
        'f'
    }
}

/// A number in lowercase hexadecimal, most significant digit first,
/// without leading zeros; zero is the one digit `0`.
pub open spec fn hex_lower(value: nat) -> Seq<char>
    decreases value,
{
    if value < 16 {
        seq![hex_digit(value)]
    } else {
        hex_lower(value / 16).push(hex_digit(value % 16))
    }
}

/// The 64 bits of a key, read as an unsigned number: a negative key
/// stands for its two's complement.
pub open spec fn key_bits(key: i64) -> nat {
    if key >= 0 {
        key as nat
    } else {
        (key + 0x1_0000_0000_0000_0000) as nat
    }
}

/// Whether a character is an ASCII letter or digit.
pub open spec fn is_alphanumeric(c: char) -> bool {
    ('0' <= c && c <= '9') || ('a' <= c && c <= 'z') || ('A' <= c && c <= 'Z')
}

/// Whether a text is `len` ASCII letters and digits.
pub open spec fn is_alphanumeric_text(text: Seq<char>, len: nat) -> bool {
    &&& text.len() == len
    &&& forall|i: int| 0 <= i < text.len() ==> is_alphanumeric(#[trigger] text[i])
}

/// The external id made of a prefix, a key and a suffix.
pub open spec fn external_id(prefix: Seq<char>, key: i64, suffix: Seq<char>) -> Seq<char> {
    prefix + seq!['_'] + hex_lower(key_bits(key)) + suffix
}

/// The digit of a number below 16, as a text of one character.
fn hex_digit_str(value: u64) -> (digit: &'static str)
    requires
        value < 16,
    ensures
        digit@ == seq![hex_digit(value as nat)],
{
    proof {
        reveal_strlit("0");
        reveal_strlit("1");
        reveal_strlit("2");
        reveal_strlit("3");
        reveal_strlit("4");
        reveal_strlit("5");
        reveal_strlit("6");
        reveal_strlit("7");
        reveal_strlit("8");
        reveal_strlit("9");
        reveal_strlit("a");
        reveal_strlit("b");
        reveal_strlit("c");
        reveal_strlit("d");
        reveal_strlit("e");
        reveal_strlit("f");
    }
    let digit = if value == 0 {
        "0"
    } else if value == 1 {
        "1"
    } else if value == 2 {
        "2"
    } else if value == 3 {
        "3"
    } else if value == 4 {
        "4"
    } else if value == 5 {
        "5"
    } else if value == 6 {
        "6"
    } else if value == 7 {
        "7"
    } else if value == 8 {
        "8"
    } else if value == 9 {
        "9"
    } else if value == 10 {
        "a"
    } else if value == 11 {
        "b"
    } else if value == 12 {
        "c"
    } else if value == 13 {
        "d"
    } else if value == 14 {
        "e"
    } else {
        "f"
    };
    assert(digit@ =~= seq![hex_digit(value as nat)]);
    digit
}

/// A key in lowercase hexadecimal, without leading zeros.
pub fn encode_key(key: i64) -> (text: String)
    ensures
        text@ == hex_lower(key_bits(key)),
{
    let bits: u64 = key as u64;
    assert(bits == key_bits(key)) by {
        assert(key >= 0 ==> key as u64 == key) by (bit_vector);
        assert(key < 0 ==> key as u64 == key + 0x1_0000_0000_0000_0000) by (bit_vector);
    }
    let mut shift: u64 = 60;
    while shift > 0 && (bits >> shift) == 0
        invariant
            shift <= 60,
            shift % 4 == 0,
            shift < 60 ==> (bits >> ((shift + 4) as u64)) == 0,
        decreases shift,
    {
        shift = shift - 4;
    }
    let top: u64 = bits >> shift;
    assert(top < 16) by {
        assert(bits >> 60u64 < 16) by (bit_vector);
        let above: u64 = (shift + 4) as u64;
        assert(shift < 60 && above == shift + 4 && (bits >> above) == 0 ==> (bits >> shift) < 16)
            by (bit_vector);
    }
    assert(shift > 0 ==> top > 0);
    let mut text = String::new();
    text.append(hex_digit_str(top));
    assert(text@ =~= hex_lower(top as nat));
    while shift > 0
        invariant
            shift <= 60,
            shift % 4 == 0,
            shift > 0 ==> (bits >> shift) > 0,
            text@ == hex_lower((bits >> shift) as nat),
        decreases shift,
    {
        let ghost high: u64 = bits >> shift;
        shift = shift - 4;
        let low: u64 = bits >> shift;
        let nibble: u64 = low & 0xf;
        assert(nibble == low % 16 && high == low / 16 && nibble < 16) by (bit_vector)
            requires
                shift <= 56,
                high == bits >> ((shift + 4) as u64),
                low == bits >> shift,
                nibble == low & 0xf,
        ;
        text.append(hex_digit_str(nibble));
        assert(low >= 16);
        assert(text@ =~= hex_lower(low as nat));
    }
    assert(bits >> 0u64 == bits) by (bit_vector);
    text
}

/// The external id with a given suffix: the prefix, an underscore, the key
/// in hexadecimal, the suffix.
pub fn prefixed_id(prefix: &str, key: i64, suffix: &str) -> (id: String)
    ensures
        id@ == external_id(prefix@, key, suffix@),
{
    proof {
        reveal_strlit("_");
    }
    let mut id = String::from_str(prefix);
    id.append("_");
    assert("_"@ =~= seq!['_']);
    let digits = encode_key(key);
    id.append(digits.as_str());
    id.append(suffix);
    id
}

/// `rand::thread_rng()`, sampled `len` times from
/// `rand::distributions::Alphanumeric` through `Rng::sample_iter`: a text
/// of `len` characters, each drawn from the 62 ASCII letters and digits.
/// Which characters come is left open; the generator panics where the
/// operating system cannot seed it.
#[verifier::external_body]
fn random_alphanumeric(len: usize) -> (text: String)
    ensures
        is_alphanumeric_text(text@, len as nat),
{
    rand::thread_rng().sample_iter(&rand::distributions::Alphanumeric).take(len).map(
        char::from,
    ).collect()
}

/// A fresh random suffix for the external id of an entity.
pub fn random_suffix() -> (suffix: String)
    ensures
        is_alphanumeric_text(suffix@, ID_SUFFIX_LEN as nat),
{
    random_alphanumeric(ID_SUFFIX_LEN)
}

/// A fresh random key for a link.
pub fn random_link_key() -> (key: String)
    ensures
        is_alphanumeric_text(key@, LINK_KEY_LEN as nat),
{
    random_alphanumeric(LINK_KEY_LEN)
}

} // verus!
