//! UUIDs: the canonical hyphenated text, read and written.
use vstd::prelude::*;
use crate::text::{chars_of, digit_char};
use crate::json::{Json, member, find_member};

verus! {

pub open spec fn is_hex_digit(c: char) -> bool {
    let u = c as u32;
    (0x30 <= u <= 0x39) || (0x61 <= u <= 0x66) || (0x41 <= u <= 0x46)
}

/// The value of a hex digit, of either case.
pub open spec fn hex_value(c: char) -> nat {
    let u = c as u32;
    if 0x30 <= u <= 0x39 {
        (u - 0x30) as nat
    } else if 0x61 <= u <= 0x66 {
        (u - 0x61 + 10) as nat
    } else {
        (u - 0x41 + 10) as nat
    }
}

pub open spec fn is_hyphen_pos(i: int) -> bool {
    i == 8 || i == 13 || i == 18 || i == 23
}

/// The 8-4-4-4-12 form: 36 characters, hyphens at 8, 13, 18 and 23, hex digits elsewhere.
pub open spec fn is_canonical_uuid(s: Seq<char>) -> bool {
    &&& s.len() == 36
    &&& forall|i: int|
        0 <= i < 36 ==> if is_hyphen_pos(i) {
            #[trigger] s[i] == '-'
        } else {
            is_hex_digit(s[i])
        }
}

/// The 32 digits of a canonical UUID, hyphens left out.
pub open spec fn uuid_digits(s: Seq<char>) -> Seq<char> {
    s.subrange(0, 8) + s.subrange(9, 13) + s.subrange(14, 18) + s.subrange(19, 23) + s.subrange(
        24,
        36,
    )
}

/// The number that hex digits spell, most significant first.
pub open spec fn hex_number(ds: Seq<char>) -> nat
    decreases ds.len(),
{
    if ds.len() == 0 {
        0
    } else {
        hex_number(ds.drop_last()) * 16 + hex_value(ds.last())
    }
}

/// The 128-bit number of a canonical UUID text.
pub open spec fn uuid_value(s: Seq<char>) -> nat {
    hex_number(uuid_digits(s))
}

/// A lower-case hex digit.
pub open spec fn hex_char(d: nat) -> char {
    if d < 10 {
        digit_char(d)
    } else if d == 10 {
        'a'
    } else if d == 11 {
        'b'
    } else if d == 12 {
        'c'
    } else if d == 13 {
        'd'
    } else if d == 14 {
        'e'
    } else {
        'f'
    }
}

/// The last `n` hex digits of `v`, lower case, most significant first.
pub open spec fn hex_text(v: nat, n: nat) -> Seq<char>
    decreases n,
{
    if n == 0 {
        Seq::empty()
    } else {
        hex_text(v / 16, (n - 1) as nat).push(hex_char(v % 16))
    }
}

/// The canonical text of a UUID: 32 lower-case hex digits in groups of 8-4-4-4-12.
pub open spec fn uuid_text(v: nat) -> Seq<char> {
    let d = hex_text(v, 32);
    d.subrange(0, 8) + seq!['-'] + d.subrange(8, 12) + seq!['-'] + d.subrange(12, 16) + seq!['-']
        + d.subrange(16, 20) + seq!['-'] + d.subrange(20, 32)
}

pub proof fn lemma_hex_text_chars(v: nat, n: nat, c: char)
    requires
        c == '\t' || c == '\n',
    ensures
        hex_text(v, n).len() == n,
        forall|i: int| 0 <= i < n ==> #[trigger] hex_text(v, n)[i] != c,
    decreases n,
{
    if n > 0 {
        lemma_hex_text_chars(v / 16, (n - 1) as nat, c);
    }
}

/// A UUID's text holds no tab and no newline.
pub proof fn lemma_uuid_text_chars(v: nat, c: char)
    requires
        c == '\t' || c == '\n',
    ensures
        uuid_text(v).len() == 36,
        forall|i: int| 0 <= i < uuid_text(v).len() ==> #[trigger] uuid_text(v)[i] != c,
{
    lemma_hex_text_chars(v, 32, c);
    let d = hex_text(v, 32);
    assert forall|i: int| 0 <= i < uuid_text(v).len() implies #[trigger] uuid_text(v)[i] != c by {
        if i < 8 {
            assert(uuid_text(v)[i] == d[i]);
        } else if i == 8 || i == 13 || i == 18 || i == 23 {
        } else if i < 13 {
            assert(uuid_text(v)[i] == d[i - 1]);
        } else if i < 18 {
            assert(uuid_text(v)[i] == d[i - 2]);
        } else if i < 23 {
            assert(uuid_text(v)[i] == d[i - 3]);
        } else {
            assert(uuid_text(v)[i] == d[i - 4]);
        }
    }
}

/// Relies on `uuid::Uuid::parse_str` and `Uuid::as_u128`: text of the 8-4-4-4-12 form,
/// with hex digits of either case, gives the number that its digits spell.
#[verifier::external_body]
fn parse_uuid(s: &str) -> (r: Option<u128>)
    ensures
        is_canonical_uuid(s@) ==> r == Some(uuid_value(s@) as u128),
{
    uuid::Uuid::parse_str(s).ok().map(|u| u.as_u128())
}

/// Relies on `uuid::Uuid::from_u128` and the `Display` of `Uuid::hyphenated`: the canonical
/// lower-case text of the UUID.
#[verifier::external_body]
fn format_uuid(v: u128) -> (r: String)
    ensures
        r@ == uuid_text(v as nat),
{
    uuid::Uuid::from_u128(v).hyphenated().to_string()
}

fn is_hex_char(c: char) -> (r: bool)
    ensures
        r == is_hex_digit(c),
{
    let u = c as u32;
    (0x30 <= u && u <= 0x39) || (0x61 <= u && u <= 0x66) || (0x41 <= u && u <= 0x46)
}

/// Whether `s` has the canonical 8-4-4-4-12 form.
pub fn is_canonical(s: &str) -> (r: bool)
    ensures
        r == is_canonical_uuid(s@),
{
    let cs = chars_of(s);
    if cs.len() != 36 {
        return false;
    }
    let mut i: usize = 0;
    while i < 36
        invariant
            i <= 36,
            cs@ == s@,
            cs.len() == 36,
            forall|k: int|
                0 <= k < i ==> if is_hyphen_pos(k) {
                    #[trigger] cs@[k] == '-'
                } else {
                    is_hex_digit(cs@[k])
                },
        decreases 36 - i,
    {
        let ok = if i == 8 || i == 13 || i == 18 || i == 23 {
            cs[i] == '-'
        } else {
            is_hex_char(cs[i])
        };
        if !ok {
            assert(!is_canonical_uuid(s@)) by {
                assert(cs@[i as int] == s@[i as int]);
            }
            return false;
        }
        i = i + 1;
    }
    true
}

/// The number of a UUID written in the canonical form; `None` for any other text.
pub fn uuid_from_text(s: &str) -> (r: Option<u128>)
    ensures
        r is Some <==> is_canonical_uuid(s@),
        r matches Some(v) ==> v == uuid_value(s@) as u128,
{
    if !is_canonical(s) {
        return None;
    }
    match parse_uuid(s) {
        Some(v) => Some(v),
        None => None,
    }
}

/// The canonical lower-case text of a UUID.
pub fn uuid_to_text(v: u128) -> (r: String)
    ensures
        r@ == uuid_text(v as nat),
{
    format_uuid(v)
}

/// The member `key` when it is a string in the canonical UUID form.
pub open spec fn uuid_member(ms: Seq<(String, Json)>, key: Seq<char>) -> Option<u128> {
    match member(ms, key) {
        Some(Json::Str(s)) => if is_canonical_uuid(s@) {
            Some(uuid_value(s@) as u128)
        } else {
            None
        },
        _ => None,
    }
}

/// The member `key` when it is a UUID.
pub fn get_uuid(ms: &Vec<(String, Json)>, key: &str) -> (r: Option<u128>)
    ensures
        r == uuid_member(ms@, key@),
{
    match find_member(ms, key) {
        Some(Json::Str(s)) => uuid_from_text(s.as_str()),
        _ => None,
    }
}

} // verus!
