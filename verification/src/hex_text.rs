//! Lower-case hexadecimal text of bytes.
use vstd::prelude::*;

verus! {

/// The lower-case hex digit of `d` (0 to 15).
pub open spec fn hex_digit(d: int) -> char {
    if d == 0 { '0' } else if d == 1 { '1' } else if d == 2 { '2' } else if d == 3 { '3' }
    else if d == 4 { '4' } else if d == 5 { '5' } else if d == 6 { '6' } else if d == 7 { '7' }
    else if d == 8 { '8' } else if d == 9 { '9' } else if d == 10 { 'a' } else if d == 11 { 'b' }
    else if d == 12 { 'c' } else if d == 13 { 'd' } else if d == 14 { 'e' } else { 'f' }
}

/// Two lower-case hex digits per byte, the high half first.
pub open spec fn hex_lower(bytes: Seq<u8>) -> Seq<char>
    decreases bytes.len(),
{
    if bytes.len() == 0 {
        Seq::empty()
    } else {
        hex_lower(bytes.drop_last()) + seq![
            hex_digit(bytes.last() as int / 16),
            hex_digit(bytes.last() as int % 16),
        ]
    }
}

/// Calls `hex::encode`, which writes each byte as two lower-case hex digits,
/// the high half first.
#[verifier::external_body]
pub(crate) fn hex_encode(bytes: &Vec<u8>) -> (r: String)
    ensures
        r@ == hex_lower(bytes@),
{
    hex::encode(bytes)
}

/// The outside error of a failed hex decoding.
#[verifier::external_type_specification]
#[verifier::external_body]
pub struct ExFromHexError(hex::FromHexError);

/// Whether `c` is a hex digit, in either case.
pub open spec fn is_hex_digit(c: char) -> bool {
    ('0' <= c && c <= '9') || ('a' <= c && c <= 'f') || ('A' <= c && c <= 'F')
}

/// The value of the hex digit `c`.
pub open spec fn hex_digit_value(c: char) -> int {
    if '0' <= c && c <= '9' {
        c as int - '0' as int
    } else if 'a' <= c && c <= 'f' {
        c as int - 'a' as int + 10
    } else {
        c as int - 'A' as int + 10
    }
}

/// Whether `s` is hex text: an even number of hex digits.
pub open spec fn is_hex_text(s: Seq<char>) -> bool {
    s.len() % 2 == 0 && forall|i: int| 0 <= i < s.len() ==> #[trigger] is_hex_digit(s[i])
}

/// The bytes that hex text stands for, two digits per byte, high half first.
pub open spec fn hex_bytes(s: Seq<char>) -> Seq<u8> {
    Seq::new(
        s.len() / 2,
        |i: int| (16 * hex_digit_value(s[2 * i]) + hex_digit_value(s[2 * i + 1])) as u8,
    )
}

/// Calls `hex::decode`, which reads hex text of either case: the bytes when
/// the text is an even number of hex digits, else an error.
#[verifier::external_body]
pub(crate) fn hex_decode(s: &str) -> (r: Result<Vec<u8>, hex::FromHexError>)
    ensures
        match r {
            Ok(b) => is_hex_text(s@) && b@ == hex_bytes(s@),
            Err(_) => !is_hex_text(s@),
        },
{
    hex::decode(s)
}

/// Whether `c` is a digit or a lower-case hex letter.
pub open spec fn is_lower_hex_digit(c: char) -> bool {
    ('0' <= c && c <= '9') || ('a' <= c && c <= 'f')
}

proof fn lemma_digit_round_trip(c: char)
    requires
        is_lower_hex_digit(c),
    ensures
        0 <= hex_digit_value(c) < 16,
        hex_digit(hex_digit_value(c)) == c,
{
    let d = hex_digit_value(c);
    assert(0 <= d < 16);
    if d == 0 { assert(c == '0'); } else if d == 1 { assert(c == '1'); } else if d == 2 { assert(c == '2'); }
    else if d == 3 { assert(c == '3'); } else if d == 4 { assert(c == '4'); } else if d == 5 { assert(c == '5'); }
    else if d == 6 { assert(c == '6'); } else if d == 7 { assert(c == '7'); } else if d == 8 { assert(c == '8'); }
    else if d == 9 { assert(c == '9'); } else if d == 10 { assert(c == 'a'); } else if d == 11 { assert(c == 'b'); }
    else if d == 12 { assert(c == 'c'); } else if d == 13 { assert(c == 'd'); } else if d == 14 { assert(c == 'e'); }
    else { assert(c == 'f'); }
}

/// Lower-case hex text decodes to bytes that encode back to the same text:
/// tags built from a remote file's lower-case hex hash record that hash.
pub proof fn law_hex_round_trip(s: Seq<char>)
    requires
        is_hex_text(s),
        forall|i: int| 0 <= i < s.len() ==> #[trigger] is_lower_hex_digit(s[i]),
    ensures
        hex_lower(hex_bytes(s)) == s,
    decreases s.len(),
{
    if s.len() > 0 {
        let n = s.len() as int;
        let t = s.subrange(0, n - 2);
        assert forall|i: int| 0 <= i < t.len() implies #[trigger] is_hex_digit(t[i]) by {
            assert(is_hex_digit(s[i]));
        }
        assert forall|i: int| 0 <= i < t.len() implies #[trigger] is_lower_hex_digit(t[i]) by {
            assert(is_lower_hex_digit(s[i]));
        }
        law_hex_round_trip(t);
        let b = hex_bytes(s);
        assert(b.drop_last() =~= hex_bytes(t));
        assert(is_lower_hex_digit(s[n - 2]));
        assert(is_lower_hex_digit(s[n - 1]));
        lemma_digit_round_trip(s[n - 2]);
        lemma_digit_round_trip(s[n - 1]);
        let hi = hex_digit_value(s[n - 2]);
        let lo = hex_digit_value(s[n - 1]);
        assert(b.last() == (16 * hi + lo) as u8);
        assert((16 * hi + lo) / 16 == hi && (16 * hi + lo) % 16 == lo) by (nonlinear_arith)
            requires
                0 <= hi < 16,
                0 <= lo < 16,
        ;
        assert(hex_lower(b) =~= s);
    }
}

} // verus!
