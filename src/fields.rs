//! `key=value` lines: the outside query-string decoder, and typed field access.
use vstd::prelude::*;
use vstd::string::*;

verus! {

#[verifier::external_type_specification]
#[verifier::external_body]
pub struct ExQueryStringError(serde_teamspeak_querystring::Error);

/// Why one `key=value` line could not become a row.
#[derive(Debug)]
pub enum FieldError {
    /// The query-string decoder refused the line.
    Syntax(serde_teamspeak_querystring::Error),
    /// A key or value ends inside an escape, or escapes a non-ASCII
    /// character; holds the line.
    BadEscape(String),
    /// A field without a default is absent; holds its key.
    Missing(String),
    /// A numeric field does not hold a number of its type; holds key and value.
    InvalidNumber(String, String),
}

/// The fields of a line as the query-string decoder reads them into a map of
/// strings: keys and values unescaped, one entry per key, in key order.
/// `None` where the decoder refuses the line.
pub uninterp spec fn decoded_pairs(line: Seq<char>) -> Option<Seq<(Seq<char>, Seq<char>)>>;

pub open spec fn pair_views(v: Seq<(String, String)>) -> Seq<(Seq<char>, Seq<char>)> {
    v.map_values(|p: (String, String)| (p.0@, p.1@))
}

/// Whether the rest `s` of a line is escaped soundly, given whether the
/// current token is past its first `=` and whether an escape is open (an odd
/// run of backslashes ends what was read of the current key or value).
pub open spec fn escapes_ok_from(s: Seq<char>, in_value: bool, open: bool) -> bool
    decreases s.len(),
{
    if s.len() == 0 {
        !open
    } else {
        let c = s[0];
        if c == ' ' {
            !open && escapes_ok_from(s.skip(1), false, false)
        } else if c == '=' && !in_value {
            !open && escapes_ok_from(s.skip(1), true, false)
        } else if c == '\\' {
            escapes_ok_from(s.skip(1), in_value, !open)
        } else {
            !(open && c > '\x7f') && escapes_ok_from(s.skip(1), in_value, false)
        }
    }
}

/// No key or value of the line (its space-separated tokens, each cut at its
/// first `=`) ends in an odd run of backslashes, and no escape applies to a
/// non-ASCII character.
pub open spec fn well_escaped(line: Seq<char>) -> bool {
    escapes_ok_from(line, false, false)
}

/// Whether `line` is escaped soundly, as `well_escaped` states.
pub fn is_well_escaped(line: &str) -> (r: bool)
    ensures
        r == well_escaped(line@),
{
    let cs = crate::text::chars_of(line);
    let mut in_value = false;
    let mut open = false;
    let mut i: usize = 0;
    proof {
        assert(line@.skip(0) =~= line@);
    }
    while i < cs.len()
        invariant
            cs@ == line@,
            i <= cs@.len(),
            well_escaped(line@) == escapes_ok_from(line@.skip(i as int), in_value, open),
        decreases cs.len() - i,
    {
        proof {
            assert(line@.skip(i as int).skip(1) =~= line@.skip(i + 1));
            assert(line@.skip(i as int)[0] == cs@[i as int]);
        }
        let c = cs[i];
        if c == ' ' {
            if open {
                return false;
            }
            in_value = false;
        } else if c == '=' && !in_value {
            if open {
                return false;
            }
            in_value = true;
        } else if c == '\\' {
            open = !open;
        } else {
            if open && c > '\x7f' {
                return false;
            }
            open = false;
        }
        i = i + 1;
    }
    !open
}

/// Relies on `serde_teamspeak_querystring::from_str` into a
/// `BTreeMap<String, String>`: splits the line at spaces into `key=value`
/// pairs, unescapes keys and values; the map is walked in key order. The
/// decoder slices past the end of a key or value that ends inside an escape,
/// and of one whose unescaping leaves invalid UTF-8 (an escape of a
/// non-ASCII character): `well_escaped` leaves those lines out.
#[verifier::external_body]
fn decode_pairs(line: &str) -> (r: Result<Vec<(String, String)>, serde_teamspeak_querystring::Error>)
    requires
        well_escaped(line@),
    ensures
        match r {
            Ok(v) => decoded_pairs(line@) == Some(pair_views(v@)),
            Err(_) => decoded_pairs(line@) is None,
        },
{
    serde_teamspeak_querystring::from_str::<std::collections::BTreeMap<String, String>>(line).map(
        |m| m.into_iter().collect(),
    )
}

/// The value of the first pair with key `key`.
pub open spec fn lookup(ps: Seq<(Seq<char>, Seq<char>)>, key: Seq<char>) -> Option<Seq<char>>
    decreases ps.len(),
{
    if ps.len() == 0 {
        None
    } else if ps[0].0 == key {
        Some(ps[0].1)
    } else {
        lookup(ps.skip(1), key)
    }
}

pub open spec fn is_digit(c: char) -> bool {
    '0' <= c <= '9'
}

pub open spec fn all_digits(s: Seq<char>) -> bool {
    s.len() > 0 && forall|i: int| 0 <= i < s.len() ==> is_digit(#[trigger] s[i])
}

/// The number that the decimal digits `s` spell.
pub open spec fn digits_value(s: Seq<char>) -> nat
    decreases s.len(),
{
    if s.len() == 0 {
        0
    } else {
        digits_value(s.drop_last()) * 10 + (s.last() as nat - '0' as nat) as nat
    }
}

/// The integer that `s` spells: an optional sign, then digits; at least one
/// digit without a sign, and a lone sign reads as zero.
pub open spec fn int_value(s: Seq<char>) -> Option<int> {
    if s.len() > 0 && s[0] == '-' && (s.len() == 1 || all_digits(s.skip(1))) {
        Some(-digits_value(s.skip(1)))
    } else if s.len() > 0 && s[0] == '+' && (s.len() == 1 || all_digits(s.skip(1))) {
        Some(digits_value(s.skip(1)) as int)
    } else if all_digits(s) {
        Some(digits_value(s) as int)
    } else {
        None
    }
}

/// The integer that `s` spells, where it lies in `lo..=hi`.
pub open spec fn int_in(s: Seq<char>, lo: int, hi: int) -> Option<int> {
    match int_value(s) {
        Some(v) => if lo <= v <= hi {
            Some(v)
        } else {
            None
        },
        None => None,
    }
}

proof fn lemma_digits_grow(s: Seq<char>, k: int)
    requires
        0 <= k <= s.len(),
    ensures
        digits_value(s.take(k)) <= digits_value(s),
    decreases s.len(),
{
    if k < s.len() {
        assert(s.drop_last().take(k) =~= s.take(k));
        lemma_digits_grow(s.drop_last(), k);
    } else {
        assert(s.take(k) =~= s);
    }
}

const MAGNITUDE_CAP: u64 = 9223372036854775808;

/// The value of the digits of `s` from `start` on, where they are all digits
/// and their value is at most 2^63.
fn digits_from(s: &Vec<char>, start: usize) -> (r: Option<u64>)
    requires
        start <= s@.len(),
    ensures
        match r {
            Some(v) => all_digits(s@.skip(start as int)) && v == digits_value(s@.skip(start as int))
                && v <= MAGNITUDE_CAP,
            None => !all_digits(s@.skip(start as int)) || digits_value(s@.skip(start as int))
                > MAGNITUDE_CAP,
        },
{
    let ghost t = s@.skip(start as int);
    if start == s.len() {
        return None;
    }
    let mut acc: u64 = 0;
    let mut i: usize = start;
    while i < s.len()
        invariant
            start <= i <= s@.len(),
            t == s@.skip(start as int),
            forall|j: int| start <= j < i ==> is_digit(#[trigger] s@[j]),
            acc == digits_value(t.take(i - start)),
            acc <= MAGNITUDE_CAP,
        decreases s.len() - i,
    {
        let c = s[i];
        if !('0' <= c && c <= '9') {
            assert(!is_digit(t[i - start]));
            return None;
        }
        let d = (c as u32 - '0' as u32) as u64;
        proof {
            assert(t.take(i - start + 1).drop_last() =~= t.take(i - start));
        }
        if acc > (MAGNITUDE_CAP - d) / 10 {
            proof {
                assert(acc * 10 + d > MAGNITUDE_CAP) by (nonlinear_arith)
                    requires acc > (MAGNITUDE_CAP - d) / 10, d <= 9;
                lemma_digits_grow(t, i - start + 1);
            }
            return None;
        }
        assert(acc * 10 + d <= MAGNITUDE_CAP) by (nonlinear_arith)
            requires acc <= (MAGNITUDE_CAP - d) / 10, d <= 9;
        acc = acc * 10 + d;
        i = i + 1;
    }
    assert(t.take(i - start) =~= t);
    Some(acc)
}

/// The integer that `s` spells, where it lies in `lo..=hi`.
pub fn parse_int(s: &str, lo: i64, hi: i64) -> (r: Option<i64>)
    ensures
        match r {
            Some(v) => int_in(s@, lo as int, hi as int) == Some(v as int),
            None => int_in(s@, lo as int, hi as int) is None,
        },
{
    let cs = crate::text::chars_of(s);
    if cs.len() == 1 && (cs[0] == '-' || cs[0] == '+') {
        proof {
            assert(cs@.skip(1).len() == 0);
        }
        if lo <= 0 && 0 <= hi {
            return Some(0);
        } else {
            return None;
        }
    }
    if cs.len() > 0 && (cs[0] == '-' || cs[0] == '+') {
        let neg = cs[0] == '-';
        match digits_from(&cs, 1) {
            Some(m) => {
                if neg {
                    let v: i128 = -(m as i128);
                    if lo as i128 <= v && v <= hi as i128 {
                        Some(v as i64)
                    } else {
                        None
                    }
                } else {
                    if m <= hi as u64 && hi >= 0 && lo as i128 <= m as i128 {
                        Some(m as i64)
                    } else {
                        None
                    }
                }
            },
            None => None,
        }
    } else {
        match digits_from(&cs, 0) {
            Some(m) => {
                assert(cs@.skip(0) =~= cs@);
                if hi >= 0 && m <= hi as u64 && lo as i128 <= m as i128 {
                    Some(m as i64)
                } else {
                    None
                }
            },
            None => {
                assert(cs@.skip(0) =~= cs@);
                None
            },
        }
    }
}

/// The value of the first pair of `ps` with key `key`.
pub fn field<'a>(ps: &'a Vec<(String, String)>, key: &str) -> (r: Option<&'a String>)
    ensures
        match r {
            Some(v) => lookup(pair_views(ps@), key@) == Some(v@),
            None => lookup(pair_views(ps@), key@) is None,
        },
{
    let k = String::from_str(key);
    let ghost pv = pair_views(ps@);
    let mut i: usize = 0;
    proof {
        assert(pv.skip(0) =~= pv);
    }
    while i < ps.len()
        invariant
            pv == pair_views(ps@),
            k@ == key@,
            i <= ps@.len(),
            lookup(pv, key@) == lookup(pv.skip(i as int), key@),
        decreases ps.len() - i,
    {
        proof {
            assert(pv.skip(i as int)[0] == pv[i as int]);
            assert(pv.skip(i as int).skip(1) =~= pv.skip(i + 1));
        }
        if ps[i].0 == k {
            return Some(&ps[i].1);
        }
        i = i + 1;
    }
    None
}

/// A numeric field: its value where present and in `lo..=hi`, `default`
/// where absent; `None` where it cannot be had.
pub open spec fn int_field_value(
    ps: Seq<(Seq<char>, Seq<char>)>,
    key: Seq<char>,
    lo: int,
    hi: int,
    default: Option<int>,
) -> Option<int> {
    match lookup(ps, key) {
        Some(v) => int_in(v, lo, hi),
        None => default,
    }
}

/// A text field: its value where present, empty where absent and optional.
pub open spec fn text_field_value(ps: Seq<(Seq<char>, Seq<char>)>, key: Seq<char>, required: bool) -> Option<Seq<char>> {
    match lookup(ps, key) {
        Some(v) => Some(v),
        None => if required {
            None
        } else {
            Some(Seq::empty())
        },
    }
}

/// The numeric field `key`, as `int_field_value` states.
pub fn int_field(ps: &Vec<(String, String)>, key: &str, lo: i64, hi: i64, default: Option<i64>) -> (r: Result<i64, FieldError>)
    ensures
        match r {
            Ok(v) => int_field_value(pair_views(ps@), key@, lo as int, hi as int, match default {
                Some(d) => Some(d as int),
                None => None,
            }) == Some(v as int),
            Err(_) => int_field_value(pair_views(ps@), key@, lo as int, hi as int, match default {
                Some(d) => Some(d as int),
                None => None,
            }) is None,
        },
{
    match field(ps, key) {
        Some(v) => match parse_int(v.as_str(), lo, hi) {
            Some(n) => Ok(n),
            None => Err(FieldError::InvalidNumber(String::from_str(key), v.clone())),
        },
        None => match default {
            Some(d) => Ok(d),
            None => Err(FieldError::Missing(String::from_str(key))),
        },
    }
}

/// The text field `key`, as `text_field_value` states.
pub fn text_field(ps: &Vec<(String, String)>, key: &str, required: bool) -> (r: Result<String, FieldError>)
    ensures
        match r {
            Ok(v) => text_field_value(pair_views(ps@), key@, required) == Some(v@),
            Err(_) => text_field_value(pair_views(ps@), key@, required) is None,
        },
{
    match field(ps, key) {
        Some(v) => Ok(v.clone()),
        None => if required {
            Err(FieldError::Missing(String::from_str(key)))
        } else {
            Ok(String::new())
        },
    }
}

/// The fields of a line: none where it is not soundly escaped, else what the
/// query-string decoder reads.
pub open spec fn line_fields(line: Seq<char>) -> Option<Seq<(Seq<char>, Seq<char>)>> {
    if well_escaped(line) {
        decoded_pairs(line)
    } else {
        None
    }
}

/// The fields of `line`, as `line_fields` states.
pub fn line_pairs(line: &str) -> (r: Result<Vec<(String, String)>, FieldError>)
    ensures
        match r {
            Ok(v) => line_fields(line@) == Some(pair_views(v@)),
            Err(_) => line_fields(line@) is None,
        },
{
    if !is_well_escaped(line) {
        return Err(FieldError::BadEscape(String::from_str(line)));
    }
    match decode_pairs(line) {
        Ok(v) => Ok(v),
        Err(e) => Err(FieldError::Syntax(e)),
    }
}

} // verus!
