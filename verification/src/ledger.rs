use vstd::prelude::*;
use vstd::utf8::encode_utf8;
use crate::crypto::{sha512_hex, sha512_hex_of};
use crate::strutil::{contains_seq, contains_substring, find_char_from, find_from, lemma_find_from_range, trim_ascii, trim_chars};

verus! {

/// The smaller of two lengths.
pub fn min(a: usize, b: usize) -> (r: usize)
    ensures
        r == if a <= b { a as int } else { b as int },
{
    if a <= b {
        a
    } else {
        b
    }
}

/// A ledger line carries an entry (rather than a comment or
/// spacing): its trimmed form is nonempty and it does not open with
/// a comment mark.
pub open spec fn line_is_entry(l: Seq<char>) -> bool {
    trim_chars(l).len() > 0 && !(l.len() > 0 && l[0] == '#')
}

/// The stored hash field of an entry line: between the first two
/// separators, trimmed.
pub open spec fn line_hash(l: Seq<char>) -> Seq<char> {
    let i1 = find_from(l, '|', 0);
    let i2 = find_from(l, '|', i1 + 1);
    trim_chars(l.subrange(i1 + 1, i2))
}

/// The data field of an entry line: between the second and third
/// separators (or the end), trimmed.
pub open spec fn line_data(l: Seq<char>) -> Seq<char> {
    let i1 = find_from(l, '|', 0);
    let i2 = find_from(l, '|', i1 + 1);
    let i3 = find_from(l, '|', i2 + 1);
    trim_chars(l.subrange(i2 + 1, i3))
}

/// The line splits into at least three fields: it holds at least two
/// separators.
pub open spec fn line_has_three_parts(l: Seq<char>) -> bool {
    let i1 = find_from(l, '|', 0);
    i1 < l.len() && find_from(l, '|', i1 + 1) < l.len()
}

/// The stored hash agrees with the digest of the data, over however
/// many characters the stored hash offers (at most the digest's 128).
pub open spec fn line_hash_ok(l: Seq<char>) -> bool {
    let stored = line_hash(l);
    let computed = sha512_hex_of(encode_utf8(line_data(l)));
    let m: int = if stored.len() <= 128 { stored.len() as int } else { 128 };
    stored.take(m) == computed.take(m)
}

/// The data of this entry refers back to the previous entry's hash
/// (its first 16 characters, or all of it when shorter).
pub open spec fn line_chains(l: Seq<char>, prev: Seq<char>) -> bool {
    let m: int = if prev.len() <= 16 { prev.len() as int } else { 16 };
    contains_seq(line_data(l), prev.take(m))
}

/// The chain of entries from position `i` on is intact, given the
/// hash of the entry before it (if any).
pub open spec fn ledger_ok_from(lines: Seq<Seq<char>>, i: int, prev: Option<Seq<char>>) -> bool
    decreases lines.len() - i,
{
    if i < 0 || i >= lines.len() {
        true
    } else {
        let l = lines[i];
        if !line_is_entry(l) {
            ledger_ok_from(lines, i + 1, prev)
        } else if !line_has_three_parts(l) {
            false
        } else if !line_hash_ok(l) {
            false
        } else if (prev matches Some(p) && !line_chains(l, p)) {
            false
        } else {
            ledger_ok_from(lines, i + 1, Some(line_hash(l)))
        }
    }
}

/// The character views of a list of lines.
pub open spec fn line_views(lines: Seq<String>) -> Seq<Seq<char>> {
    Seq::new(lines.len(), |i: int| lines[i]@)
}

/// Verifies the integrity of a ledger, line by line: every entry's
/// stored hash must agree with the digest of its data, and every
/// entry's data must refer back to the previous entry's hash.
/// Comments and blank lines are passed over.
pub fn verify_ledger_lines(lines: &Vec<String>) -> (r: bool)
    ensures
        r == ledger_ok_from(line_views(lines@), 0, None),
{
    let ghost views = line_views(lines@);
    let mut prev: Option<String> = None;
    let mut i: usize = 0;
    while i < lines.len()
        invariant
            views == line_views(lines@),
            i <= lines@.len(),
            match prev {
                Some(p) => ledger_ok_from(views, 0, None) == ledger_ok_from(
                    views,
                    i as int,
                    Some(p@),
                ),
                None => ledger_ok_from(views, 0, None) == ledger_ok_from(
                    views,
                    i as int,
                    None::<Seq<char>>,
                ),
            },
        decreases lines@.len() - i,
    {
        let line = &lines[i];
        let ghost l = line@;
        proof {
            assert(views[i as int] == l);
        }
        let trimmed = trim_ascii(line.as_str());
        let len = line.unicode_len();
        let is_comment = if len > 0 {
            line.as_str().get_char(0) == '#'
        } else {
            false
        };
        if trimmed.unicode_len() == 0 || is_comment {
            proof {
                assert(!line_is_entry(l));
            }
            i = i + 1;
            continue ;
        }
        proof {
            assert(line_is_entry(l));
            lemma_find_from_range(l, '|', 0);
        }
        let i1 = find_char_from(line.as_str(), '|', 0);
        if i1 >= len {
            return false;
        }
        proof {
            lemma_find_from_range(l, '|', i1 + 1);
        }
        let i2 = find_char_from(line.as_str(), '|', i1 + 1);
        if i2 >= len {
            return false;
        }
        proof {
            lemma_find_from_range(l, '|', i2 + 1);
        }
        let i3 = find_char_from(line.as_str(), '|', i2 + 1);
        let hash_part = line.as_str().substring_char(i1 + 1, i2);
        let current_hash = trim_ascii(hash_part);
        let data_part = line.as_str().substring_char(i2 + 1, i3);
        let data = trim_ascii(data_part);
        proof {
            assert(current_hash@ == line_hash(l));
            assert(data@ == line_data(l));
        }
        let data_bytes = data.as_str().as_bytes_vec();
        let computed = sha512_hex(&data_bytes);
        let hash_len = current_hash.unicode_len();
        let m: usize = min(hash_len, 128);
        let stored_prefix = current_hash.as_str().substring_char(0, m);
        let computed_prefix = computed.as_str().substring_char(0, m);
        if !crate::strutil::str_eq(stored_prefix, computed_prefix) {
            proof {
                assert(current_hash@.subrange(0, m as int) =~= line_hash(l).take(m as int));
                assert(computed@.subrange(0, m as int) =~= sha512_hex_of(
                    encode_utf8(line_data(l)),
                ).take(m as int));
                assert(!line_hash_ok(l));
            }
            return false;
        }
        proof {
            assert(current_hash@.subrange(0, m as int) =~= line_hash(l).take(m as int));
            assert(computed@.subrange(0, m as int) =~= sha512_hex_of(encode_utf8(line_data(l))).take(
                m as int,
            ));
            assert(line_hash_ok(l));
        }
        match &prev {
            Some(p) => {
                let p_len = p.unicode_len();
                let pm: usize = min(p_len, 16);
                let p_prefix = p.as_str().substring_char(0, pm);
                if !contains_substring(data.as_str(), p_prefix) {
                    proof {
                        assert(p@.subrange(0, pm as int) =~= p@.take(pm as int));
                        assert(!line_chains(l, p@));
                    }
                    return false;
                }
                proof {
                    assert(p@.subrange(0, pm as int) =~= p@.take(pm as int));
                    assert(line_chains(l, p@));
                }
            },
            None => {},
        }
        prev = Some(current_hash);
        i = i + 1;
    }
    true
}

} // verus!
