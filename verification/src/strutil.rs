use vstd::prelude::*;

verus! {

/// Relies on std's `String::push`: appends exactly one character at
/// the end of the string.
pub assume_specification[ String::push ](s: &mut String, c: char)
    ensures
        final(s)@ == old(s)@.push(c),
;

/// ASCII lowering of one character: upper-case ASCII letters move to
/// their lower-case form, every other character is kept.
pub open spec fn lower_char(c: char) -> char {
    if 65 <= c as u32 && c as u32 <= 90 {
        (((c as u32) + 32) as u8) as char
    } else {
        c
    }
}

/// ASCII lowering of a character sequence, position by position.
pub open spec fn lower_chars(s: Seq<char>) -> Seq<char> {
    Seq::new(s.len(), |i: int| lower_char(s[i]))
}

/// Lowers the ASCII letters of a string; non-ASCII characters are kept
/// unchanged (intent and goal strings are matched case-insensitively
/// only over ASCII keywords).
pub fn to_ascii_lower(s: &str) -> (r: String)
    ensures
        r@ == lower_chars(s@),
{
    let len: usize = s.unicode_len();
    let mut r = String::new();
    let mut i: usize = 0;
    while i < len
        invariant
            len == s@.len(),
            i <= len,
            r@ == lower_chars(s@).take(i as int),
        decreases len - i,
    {
        let c = s.get_char(i);
        let code: u32 = c as u32;
        let lowered: char = if 65 <= code && code <= 90 {
            ((code + 32) as u8) as char
        } else {
            c
        };
        assert(lowered == lower_char(s@[i as int]));
        r.push(lowered);
        i = i + 1;
        assert(r@ =~= lower_chars(s@).take(i as int));
    }
    assert(r@ =~= lower_chars(s@));
    r
}

/// The needle matches the haystack at position `i`.
pub open spec fn match_at(hay: Seq<char>, needle: Seq<char>, i: int) -> bool {
    &&& 0 <= i
    &&& i + needle.len() <= hay.len()
    &&& forall|k: int| 0 <= k < needle.len() ==> hay[i + k] == needle[k]
}

/// The needle occurs somewhere in the haystack.
pub open spec fn contains_seq(hay: Seq<char>, needle: Seq<char>) -> bool {
    exists|i: int| match_at(hay, needle, i)
}

/// Substring test: true exactly when the needle occurs in the haystack.
pub fn contains_substring(hay: &str, needle: &str) -> (r: bool)
    ensures
        r == contains_seq(hay@, needle@),
{
    let hay_len: usize = hay.unicode_len();
    let needle_len: usize = needle.unicode_len();
    if needle_len > hay_len {
        assert(forall|i: int| !match_at(hay@, needle@, i));
        return false;
    }
    let mut i: usize = 0;
    while i <= hay_len - needle_len
        invariant
            hay_len == hay@.len(),
            needle_len == needle@.len(),
            needle_len <= hay_len,
            i <= hay_len - needle_len + 1,
            forall|j: int| 0 <= j < i ==> !match_at(hay@, needle@, j),
        decreases hay_len + 1 - needle_len - i,
    {
        let mut k: usize = 0;
        let mut all_match: bool = true;
        while k < needle_len
            invariant
                hay_len == hay@.len(),
                needle_len == needle@.len(),
                i + needle_len <= hay_len,
                k <= needle_len,
                all_match == (forall|m: int| 0 <= m < k ==> hay@[i + m] == needle@[m]),
            decreases needle_len - k,
        {
            let hc = hay.get_char(i + k);
            let nc = needle.get_char(k);
            if hc != nc {
                all_match = false;
                assert(!(forall|m: int| 0 <= m < k + 1 ==> hay@[i + m] == needle@[m]));
                k = needle_len;
            } else {
                k = k + 1;
            }
        }
        if all_match {
            assert(match_at(hay@, needle@, i as int));
            return true;
        }
        assert(!match_at(hay@, needle@, i as int));
        i = i + 1;
    }
    assert(forall|j: int| 0 <= j < i ==> !match_at(hay@, needle@, j));
    assert(forall|j: int| !match_at(hay@, needle@, j)) by {
        assert forall|j: int| match_at(hay@, needle@, j) implies false by {
            assert(j + needle@.len() <= hay@.len());
            assert(j < i);
        }
    }
    false
}

/// Prefix test: true exactly when the string begins with the prefix.
pub fn starts_with_str(s: &str, prefix: &str) -> (r: bool)
    ensures
        r == match_at(s@, prefix@, 0),
{
    let s_len: usize = s.unicode_len();
    let p_len: usize = prefix.unicode_len();
    if p_len > s_len {
        return false;
    }
    let mut k: usize = 0;
    while k < p_len
        invariant
            s_len == s@.len(),
            p_len == prefix@.len(),
            p_len <= s_len,
            k <= p_len,
            forall|m: int| 0 <= m < k ==> s@[m] == prefix@[m],
        decreases p_len - k,
    {
        if s.get_char(k) != prefix.get_char(k) {
            return false;
        }
        k = k + 1;
    }
    true
}

/// Character-wise string equality.
pub fn str_eq(a: &str, b: &str) -> (r: bool)
    ensures
        r == (a@ == b@),
{
    let la: usize = a.unicode_len();
    let lb: usize = b.unicode_len();
    if la != lb {
        return false;
    }
    let mut k: usize = 0;
    while k < la
        invariant
            la == a@.len(),
            la == b@.len(),
            k <= la,
            forall|m: int| 0 <= m < k ==> a@[m] == b@[m],
        decreases la - k,
    {
        if a.get_char(k) != b.get_char(k) {
            return false;
        }
        k = k + 1;
    }
    proof {
        assert(a@ =~= b@);
    }
    true
}

/// Copies an integer vector element for element.
pub fn copy_i32_vec(v: &Vec<i32>) -> (r: Vec<i32>)
    ensures
        r@ == v@,
{
    let mut r: Vec<i32> = Vec::new();
    let mut i: usize = 0;
    while i < v.len()
        invariant
            i <= v@.len(),
            r@ == v@.take(i as int),
        decreases v@.len() - i,
    {
        r.push(v[i]);
        i = i + 1;
        proof {
            assert(r@ =~= v@.take(i as int));
        }
    }
    proof {
        assert(v@.take(v@.len() as int) =~= v@);
    }
    r
}

/// The first position at or after `from` holding `c`, or the length
/// when there is none.
pub open spec fn find_from(s: Seq<char>, c: char, from: int) -> int
    recommends
        0 <= from,
    decreases s.len() - from,
{
    if from >= s.len() || from < 0 {
        s.len() as int
    } else if s[from] == c {
        from
    } else {
        find_from(s, c, from + 1)
    }
}

/// The find result lies between `from` and the length.
pub proof fn lemma_find_from_range(s: Seq<char>, c: char, from: int)
    requires
        0 <= from <= s.len(),
    ensures
        from <= find_from(s, c, from) <= s.len(),
        find_from(s, c, from) < s.len() ==> s[find_from(s, c, from)] == c,
        forall|j: int| from <= j < find_from(s, c, from) ==> s[j] != c,
    decreases s.len() - from,
{
    if from < s.len() && s[from] != c {
        lemma_find_from_range(s, c, from + 1);
    }
}

/// Finds the first occurrence of a character at or after a position.
pub fn find_char_from(s: &str, c: char, from: usize) -> (r: usize)
    requires
        from <= s@.len(),
    ensures
        r == find_from(s@, c, from as int),
        r <= s@.len(),
{
    proof {
        lemma_find_from_range(s@, c, from as int);
    }
    let len = s.unicode_len();
    let mut i: usize = from;
    while i < len
        invariant
            len == s@.len(),
            from <= i <= len,
            forall|j: int| from <= j < i ==> s@[j] != c,
            find_from(s@, c, from as int) == find_from(s@, c, i as int),
        decreases len - i,
    {
        if s.get_char(i) == c {
            return i;
        }
        i = i + 1;
    }
    len
}

/// An ASCII whitespace character.
pub open spec fn is_space(c: char) -> bool {
    c == ' ' || c == '\t' || c == '\r' || c == '\n'
}

/// The sequence with leading ASCII whitespace removed.
pub open spec fn trim_front(s: Seq<char>) -> Seq<char>
    decreases s.len(),
{
    if s.len() > 0 && is_space(s[0]) {
        trim_front(s.drop_first())
    } else {
        s
    }
}

/// The sequence with trailing ASCII whitespace removed.
pub open spec fn trim_back(s: Seq<char>) -> Seq<char>
    decreases s.len(),
{
    if s.len() > 0 && is_space(s.last()) {
        trim_back(s.drop_last())
    } else {
        s
    }
}

/// The sequence with ASCII whitespace removed from both ends.
pub open spec fn trim_chars(s: Seq<char>) -> Seq<char> {
    trim_back(trim_front(s))
}

/// Removes ASCII whitespace from both ends of a string.
pub fn trim_ascii(s: &str) -> (r: String)
    ensures
        r@ == trim_chars(s@),
{
    let len = s.unicode_len();
    let mut start: usize = 0;
    proof {
        assert(s@.skip(0) =~= s@);
    }
    while start < len && is_space_exec(s.get_char(start))
        invariant
            len == s@.len(),
            start <= len,
            trim_front(s@) == trim_front(s@.skip(start as int)),
        decreases len - start,
    {
        proof {
            assert(s@.skip(start as int).drop_first() =~= s@.skip(start + 1));
        }
        start = start + 1;
    }
    let mut end: usize = len;
    proof {
        assert(s@.skip(start as int) == trim_front(s@.skip(start as int)) || s@.skip(
            start as int,
        ).len() == 0 || !is_space(s@.skip(start as int)[0]));
    }
    while end > start && is_space_exec(s.get_char(end - 1))
        invariant
            len == s@.len(),
            start <= end <= len,
            trim_front(s@) == trim_front(s@.skip(start as int)),
            start < len ==> !is_space(s@[start as int]),
            start == len || !is_space(s@[start as int]),
            trim_back(trim_front(s@)) == trim_back(s@.subrange(start as int, end as int)),
        decreases end,
    {
        proof {
            let cur = s@.subrange(start as int, end as int);
            assert(cur.drop_last() =~= s@.subrange(start as int, end - 1));
        }
        end = end - 1;
    }
    proof {
        let cur = s@.subrange(start as int, end as int);
        if cur.len() > 0 {
            assert(!is_space(cur.last()));
        }
        assert(trim_back(cur) == cur);
    }
    let r = s.substring_char(start, end);
    String::from_str(r)
}

/// ASCII whitespace test.
pub fn is_space_exec(c: char) -> (r: bool)
    ensures
        r == is_space(c),
{
    c == ' ' || c == '\t' || c == '\r' || c == '\n'
}

/// Every character is a decimal digit.
pub open spec fn all_dec_digits(s: Seq<char>) -> bool {
    forall|i: int| 0 <= i < s.len() ==> 48 <= (#[trigger] s[i]) as u32 <= 57
}

/// The number a sequence of decimal digits spells.
pub open spec fn dec_value(s: Seq<char>) -> nat
    decreases s.len(),
{
    if s.len() == 0 {
        0
    } else {
        dec_value(s.drop_last()) * 10 + (if (s.last() as u32) >= 48 {
            ((s.last() as u32) - 48) as nat
        } else {
            0
        })
    }
}

/// Appending digits never shrinks the value.
pub proof fn lemma_dec_value_grows(s: Seq<char>, i: int)
    requires
        0 <= i <= s.len(),
    ensures
        dec_value(s.take(i)) <= dec_value(s),
    decreases s.len() - i,
{
    if i < s.len() {
        lemma_dec_value_grows(s, i + 1);
        assert(s.take(i + 1).drop_last() =~= s.take(i));
        assert(dec_value(s.take(i)) * 10 >= dec_value(s.take(i))) by (nonlinear_arith);
        assert(dec_value(s.take(i)) <= dec_value(s.take(i + 1)));
    } else {
        assert(s.take(i) =~= s);
    }
}

/// What a decimal numeral parses to: its value when it is a nonempty
/// all-digit string whose value fits, and 0 otherwise.
pub open spec fn parse_u64_dec_spec(s: Seq<char>) -> u64 {
    if s.len() > 0 && all_dec_digits(s) && dec_value(s) <= u64::MAX {
        dec_value(s) as u64
    } else {
        0u64
    }
}

/// Parses a decimal numeral; malformed or overflowing input parses
/// to 0.
pub fn parse_u64_dec(s: &str) -> (r: u64)
    ensures
        r == parse_u64_dec_spec(s@),
{
    let len = s.unicode_len();
    if len == 0 {
        return 0;
    }
    let mut acc: u64 = 0;
    let mut i: usize = 0;
    while i < len
        invariant
            len == s@.len(),
            0 < len,
            i <= len,
            all_dec_digits(s@.take(i as int)),
            acc == dec_value(s@.take(i as int)),
        decreases len - i,
    {
        let c = s.get_char(i);
        let u = c as u32;
        if u < 48 || u > 57 {
            return 0;
        }
        let d: u64 = (u - 48) as u64;
        if acc > (0xffff_ffff_ffff_ffffu64 - d) / 10 {
            proof {
                let t = s@.take(i + 1);
                assert(t.drop_last() =~= s@.take(i as int));
                assert(dec_value(t) == acc * 10 + d);
                assert(dec_value(t) > u64::MAX);
                lemma_dec_value_grows(s@, i + 1);
            }
            return 0;
        }
        proof {
            assert(s@.take(i + 1).drop_last() =~= s@.take(i as int));
        }
        acc = acc * 10 + d;
        i = i + 1;
    }
    proof {
        assert(s@.take(len as int) =~= s@);
    }
    acc
}

/// The number a sequence of hexadecimal digits spells.
pub open spec fn hex_value(s: Seq<char>) -> nat
    decreases s.len(),
{
    if s.len() == 0 {
        0
    } else {
        hex_value(s.drop_last()) * 16 + (match crate::hexutil::hex_char_val(s.last()) {
            Some(v) => v as nat,
            None => 0,
        })
    }
}

/// Appending hexadecimal digits never shrinks the value.
pub proof fn lemma_hex_value_grows(s: Seq<char>, i: int)
    requires
        0 <= i <= s.len(),
    ensures
        hex_value(s.take(i)) <= hex_value(s),
    decreases s.len() - i,
{
    if i < s.len() {
        lemma_hex_value_grows(s, i + 1);
        assert(s.take(i + 1).drop_last() =~= s.take(i));
        assert(hex_value(s.take(i)) * 16 >= hex_value(s.take(i))) by (nonlinear_arith);
        assert(hex_value(s.take(i)) <= hex_value(s.take(i + 1)));
    } else {
        assert(s.take(i) =~= s);
    }
}

/// What a hexadecimal numeral parses to: its value when it is a
/// nonempty all-digit string whose value fits, and 0 otherwise.
pub open spec fn parse_u64_hex_spec(s: Seq<char>) -> u64 {
    if s.len() > 0 && crate::hexutil::all_hex_digits(s) && hex_value(s) <= u64::MAX {
        hex_value(s) as u64
    } else {
        0u64
    }
}

/// Parses a hexadecimal numeral; malformed or overflowing input
/// parses to 0.
pub fn parse_u64_hex(s: &str) -> (r: u64)
    ensures
        r == parse_u64_hex_spec(s@),
{
    let len = s.unicode_len();
    if len == 0 {
        return 0;
    }
    let mut acc: u64 = 0;
    let mut i: usize = 0;
    while i < len
        invariant
            len == s@.len(),
            0 < len,
            i <= len,
            crate::hexutil::all_hex_digits(s@.take(i as int)),
            acc == hex_value(s@.take(i as int)),
        decreases len - i,
    {
        let c = s.get_char(i);
        let d: u64 = match crate::hexutil::hex_val_exec(c) {
            Some(v) => v as u64,
            None => {
                return 0;
            },
        };
        if acc > (0xffff_ffff_ffff_ffffu64 - d) / 16 {
            proof {
                let t = s@.take(i + 1);
                assert(t.drop_last() =~= s@.take(i as int));
                assert(hex_value(t) == acc * 16 + d);
                assert(hex_value(t) > u64::MAX);
                lemma_hex_value_grows(s@, i + 1);
            }
            return 0;
        }
        proof {
            assert(s@.take(i + 1).drop_last() =~= s@.take(i as int));
        }
        acc = acc * 16 + d;
        i = i + 1;
    }
    proof {
        assert(s@.take(len as int) =~= s@);
    }
    acc
}

/// The decimal digit character for a value below ten.
pub open spec fn dec_digit(d: int) -> char
    recommends
        0 <= d < 10,
{
    ((48 + d) as u8) as char
}

/// The decimal character sequence of a natural number, most
/// significant digit first.
pub open spec fn dec_chars(n: nat) -> Seq<char>
    decreases n,
{
    if n < 10 {
        seq![dec_digit(n as int)]
    } else {
        dec_chars(n / 10) + seq![dec_digit((n % 10) as int)]
    }
}

/// The decimal character sequence of an integer, with a sign for
/// negative values.
pub open spec fn dec_chars_i64(v: int) -> Seq<char> {
    if v < 0 {
        seq!['-'] + dec_chars((-v) as nat)
    } else {
        dec_chars(v as nat)
    }
}

/// Renders a signed number in decimal, matching `dec_chars_i64`.
pub fn i64_to_string(n: i64) -> (r: String)
    ensures
        r@ == dec_chars_i64(n as int),
{
    if n >= 0 {
        let r = u64_to_string(n as u64);
        r
    } else {
        let mag: u64 = if n == -0x8000_0000_0000_0000i64 {
            0x8000_0000_0000_0000u64
        } else {
            (-n) as u64
        };
        let mut r = String::new();
        r.push('-');
        let digits = u64_to_string(mag);
        r.append(digits.as_str());
        proof {
            assert(r@ =~= seq!['-'] + dec_chars(mag as nat));
        }
        r
    }
}

/// Renders a number in decimal, matching `dec_chars` exactly.
pub fn u64_to_string(n: u64) -> (r: String)
    ensures
        r@ == dec_chars(n as nat),
    decreases n,
{
    if n < 10 {
        let mut r = String::new();
        r.push(((48 + n as u8)) as char);
        assert(r@ =~= dec_chars(n as nat));
        r
    } else {
        let mut r = u64_to_string(n / 10);
        r.push((48 + (n % 10) as u8) as char);
        assert(r@ =~= dec_chars(n as nat));
        r
    }
}

} // verus!
