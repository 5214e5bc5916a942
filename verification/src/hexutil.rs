use vstd::prelude::*;

verus! {

/// The lower-case hexadecimal digit character for a value below sixteen.
pub open spec fn hex_digit(d: int) -> char
    recommends
        0 <= d < 16,
{
    if d < 10 {
        ((48 + d) as u8) as char
    } else {
        ((87 + d) as u8) as char
    }
}

/// The two hexadecimal digits of one byte, high digit first.
pub open spec fn hex_of_byte(b: u8) -> Seq<char> {
    seq![hex_digit(b as int / 16), hex_digit(b as int % 16)]
}

/// The hexadecimal rendering of a byte sequence.
pub open spec fn hex_of_bytes(s: Seq<u8>) -> Seq<char>
    decreases s.len(),
{
    if s.len() == 0 {
        Seq::empty()
    } else {
        hex_of_bytes(s.drop_last()) + hex_of_byte(s.last())
    }
}

/// Renders bytes as lower-case hexadecimal, two digits per byte.
pub fn encode(bytes: &[u8]) -> (r: String)
    ensures
        r@ == hex_of_bytes(bytes@),
        r@.len() == 2 * bytes@.len(),
{
    proof {
        lemma_hex_of_bytes_len(bytes@);
    }
    let n: usize = bytes.len();
    let mut r = String::new();
    let mut i: usize = 0;
    while i < n
        invariant
            n == bytes@.len(),
            i <= n,
            r@ == hex_of_bytes(bytes@.take(i as int)),
        decreases n - i,
    {
        let b: u8 = bytes[i];
        let hi: u8 = b / 16;
        let lo: u8 = b % 16;
        r.push(if hi < 10 { (48 + hi) as char } else { (87 + hi) as char });
        r.push(if lo < 10 { (48 + lo) as char } else { (87 + lo) as char });
        i = i + 1;
        proof {
            assert(bytes@.take(i as int).drop_last() =~= bytes@.take(i - 1));
            assert(r@ =~= hex_of_bytes(bytes@.take(i as int)));
        }
    }
    proof {
        assert(bytes@.take(n as int) =~= bytes@);
    }
    r
}

/// A hexadecimal rendering is twice as long as its bytes.
pub proof fn lemma_hex_of_bytes_len(s: Seq<u8>)
    ensures
        hex_of_bytes(s).len() == 2 * s.len(),
    decreases s.len(),
{
    if s.len() > 0 {
        lemma_hex_of_bytes_len(s.drop_last());
    }
}

/// The numeric value of a hexadecimal digit character, accepting both
/// cases, or nothing for any other character.
pub open spec fn hex_char_val(c: char) -> Option<int> {
    let u = c as u32;
    if 48 <= u && u <= 57 {
        Some(u - 48)
    } else if 97 <= u && u <= 102 {
        Some(u - 87)
    } else if 65 <= u && u <= 70 {
        Some(u - 55)
    } else {
        None
    }
}

/// Every character of the sequence is a hexadecimal digit.
pub open spec fn all_hex_digits(s: Seq<char>) -> bool {
    forall|i: int| 0 <= i < s.len() ==> hex_char_val(s[i]) is Some
}

/// The bytes spelled by an even-length sequence of hexadecimal digits.
pub open spec fn bytes_of_hex(s: Seq<char>) -> Seq<u8>
    recommends
        s.len() % 2 == 0,
        all_hex_digits(s),
{
    Seq::new(
        s.len() / 2,
        |i: int| (16 * hex_char_val(s[2 * i]).unwrap() + hex_char_val(s[2 * i + 1]).unwrap()) as u8,
    )
}

/// Parses a hexadecimal string into bytes: succeeds exactly on
/// even-length strings of hexadecimal digits.
pub fn decode_hex(s: &str) -> (r: Option<Vec<u8>>)
    ensures
        r is Some <==> (s@.len() % 2 == 0 && all_hex_digits(s@)),
        r is Some ==> r.unwrap()@ == bytes_of_hex(s@),
{
    let n: usize = s.unicode_len();
    if n % 2 != 0 {
        return None;
    }
    let mut out: Vec<u8> = Vec::new();
    let mut i: usize = 0;
    while i < n
        invariant
            n == s@.len(),
            n % 2 == 0,
            i <= n,
            i % 2 == 0,
            out@.len() == i / 2,
            forall|k: int| 0 <= k < i ==> hex_char_val(s@[k]) is Some,
            forall|k: int|
                0 <= k < i / 2 ==> out@[k] == (16 * hex_char_val(s@[2 * k]).unwrap()
                    + hex_char_val(s@[2 * k + 1]).unwrap()) as u8,
        decreases n - i,
    {
        let c1 = s.get_char(i);
        let c2 = s.get_char(i + 1);
        let v1: u8 = match hex_val_exec(c1) {
            Some(v) => v,
            None => { return None; },
        };
        let v2: u8 = match hex_val_exec(c2) {
            Some(v) => v,
            None => { return None; },
        };
        out.push(16 * v1 + v2);
        i = i + 2;
    }
    proof {
        assert(out@ =~= bytes_of_hex(s@));
    }
    Some(out)
}

/// The numeric value of one hexadecimal digit character.
pub(crate) fn hex_val_exec(c: char) -> (r: Option<u8>)
    ensures
        r is Some <==> hex_char_val(c) is Some,
        r is Some ==> r.unwrap() == hex_char_val(c).unwrap(),
        r is Some ==> r.unwrap() < 16,
{
    let u = c as u32;
    if 48 <= u && u <= 57 {
        Some((u - 48) as u8)
    } else if 97 <= u && u <= 102 {
        Some((u - 87) as u8)
    } else if 65 <= u && u <= 70 {
        Some((u - 55) as u8)
    } else {
        None
    }
}

/// The hexadecimal character sequence of a natural number, most
/// significant digit first and without leading zeros.
pub open spec fn hex_chars_of(n: nat) -> Seq<char>
    decreases n,
{
    if n < 16 {
        seq![hex_digit(n as int)]
    } else {
        hex_chars_of(n / 16) + seq![hex_digit((n % 16) as int)]
    }
}

/// Renders a number in lower-case hexadecimal without leading zeros,
/// as the `{:x}` format does.
pub fn u32_to_hex(n: u32) -> (r: String)
    ensures
        r@ == hex_chars_of(n as nat),
    decreases n,
{
    if n < 16 {
        let d: u8 = n as u8;
        let mut r = String::new();
        r.push(if d < 10 { (48 + d) as char } else { (87 + d) as char });
        assert(r@ =~= hex_chars_of(n as nat));
        r
    } else {
        let mut r = u32_to_hex(n / 16);
        let d: u8 = (n % 16) as u8;
        r.push(if d < 10 { (48 + d) as char } else { (87 + d) as char });
        assert(r@ =~= hex_chars_of(n as nat));
        r
    }
}

} // verus!
