//! Character-level helpers over `str`, specified on `Seq<char>`.
use vstd::prelude::*;
use vstd::string::*;

verus! {

/// `p` occurs in `s` starting at position `i`.
pub open spec fn occurs_at(s: Seq<char>, p: Seq<char>, i: int) -> bool {
    0 <= i && i + p.len() <= s.len() && s.subrange(i, i + p.len()) == p
}

pub open spec fn starts_with(s: Seq<char>, p: Seq<char>) -> bool {
    occurs_at(s, p, 0)
}

pub open spec fn ends_with(s: Seq<char>, p: Seq<char>) -> bool {
    occurs_at(s, p, s.len() - p.len())
}

pub open spec fn contains(s: Seq<char>, p: Seq<char>) -> bool {
    exists|i: int| occurs_at(s, p, i)
}

/// `i` is the leftmost position at which `p` occurs in `s`.
pub open spec fn first_occurrence(s: Seq<char>, p: Seq<char>, i: int) -> bool {
    occurs_at(s, p, i) && forall|j: int| 0 <= j < i ==> !occurs_at(s, p, j)
}

/// The part of `s` after the leftmost occurrence of `p`, if `p` occurs.
pub open spec fn after_first(s: Seq<char>, p: Seq<char>) -> Option<Seq<char>> {
    if contains(s, p) {
        let i = choose|i: int| first_occurrence(s, p, i);
        Some(s.skip(i + p.len()))
    } else {
        None
    }
}

/// The part of `s` before the leftmost occurrence of `p`, or all of `s`.
pub open spec fn before_first(s: Seq<char>, p: Seq<char>) -> Seq<char> {
    if contains(s, p) {
        let i = choose|i: int| first_occurrence(s, p, i);
        s.take(i)
    } else {
        s
    }
}

pub open spec fn is_space(c: char) -> bool {
    c == ' ' || c == '\t' || c == '\n' || c == '\r' || c == '\x0b' || c == '\x0c'
}

/// `s` without its leading whitespace.
pub open spec fn trim_start(s: Seq<char>) -> Seq<char>
    decreases s.len(),
{
    if s.len() > 0 && is_space(s[0]) {
        trim_start(s.skip(1))
    } else {
        s
    }
}

/// Prefix `p` to the first piece of a split.
pub open spec fn prepend_first(p: Seq<char>, pieces: Seq<Seq<char>>) -> Seq<Seq<char>> {
    pieces.update(0, p + pieces[0])
}

/// `s` cut at each non-overlapping occurrence of `sep`, scanning from the left.
/// There is always at least one piece; an empty `s` gives one empty piece.
pub open spec fn split_on(s: Seq<char>, sep: Seq<char>) -> Seq<Seq<char>>
    decreases s.len(),
{
    if s.len() == 0 {
        seq![Seq::empty()]
    } else if sep.len() > 0 && starts_with(s, sep) {
        seq![Seq::empty()] + split_on(s.skip(sep.len() as int), sep)
    } else {
        prepend_first(seq![s[0]], split_on(s.skip(1), sep))
    }
}

pub proof fn lemma_split_nonempty(s: Seq<char>, sep: Seq<char>)
    ensures
        split_on(s, sep).len() >= 1,
    decreases s.len(),
{
    if s.len() == 0 {
    } else if sep.len() > 0 && starts_with(s, sep) {
        lemma_split_nonempty(s.skip(sep.len() as int), sep);
    } else {
        lemma_split_nonempty(s.skip(1), sep);
    }
}

/// The characters of `s`, one by one.
pub fn chars_of(s: &str) -> (r: Vec<char>)
    ensures
        r@ == s@,
{
    let n = s.unicode_len();
    let mut r: Vec<char> = Vec::new();
    let mut i: usize = 0;
    while i < n
        invariant
            n == s@.len(),
            i <= n,
            r@ == s@.take(i as int),
        decreases n - i,
    {
        r.push(s.get_char(i));
        i = i + 1;
        assert(r@ =~= s@.take(i as int));
    }
    assert(r@ =~= s@);
    r
}

/// Whether `p` occurs in `s` at position `i`.
pub fn matches_at(s: &Vec<char>, p: &Vec<char>, i: usize) -> (r: bool)
    ensures
        r == occurs_at(s@, p@, i as int),
{
    if i > s.len() || p.len() > s.len() - i {
        return false;
    }
    let n = s.len();
    let mut k: usize = 0;
    while k < p.len()
        invariant
            n == s@.len(),
            i + p@.len() <= s@.len(),
            i <= s@.len(),
            k <= p@.len(),
            forall|j: int| 0 <= j < k ==> s@[i + j] == p@[j],
        decreases p.len() - k,
    {
        assert(i + k < s@.len());
        if s[i + k] != p[k] {
            assert(s@.subrange(i as int, i + p@.len())[k as int] != p@[k as int]);
            return false;
        }
        k = k + 1;
    }
    assert(s@.subrange(i as int, i + p@.len()) =~= p@);
    true
}

/// The leftmost position of `p` in `s`, if any.
pub fn find(s: &Vec<char>, p: &Vec<char>) -> (r: Option<usize>)
    ensures
        match r {
            Some(i) => first_occurrence(s@, p@, i as int),
            None => !contains(s@, p@),
        },
{
    if p.len() > s.len() {
        return None;
    }
    let mut i: usize = 0;
    while i < s.len() - p.len()
        invariant
            p@.len() <= s@.len(),
            i <= s@.len() - p@.len(),
            forall|j: int| 0 <= j < i ==> !occurs_at(s@, p@, j),
        decreases s.len() - p.len() - i,
    {
        if matches_at(s, p, i) {
            return Some(i);
        }
        i = i + 1;
    }
    if matches_at(s, p, i) {
        return Some(i);
    }
    assert forall|j: int| !occurs_at(s@, p@, j) by {
        if 0 <= j <= i {
        }
    }
    None
}

/// The character sequences held by a list of strings.
pub open spec fn views(v: Seq<String>) -> Seq<Seq<char>> {
    v.map_values(|x: String| x@)
}

proof fn lemma_split_at_match(s: Seq<char>, sep: Seq<char>, i: int)
    requires
        sep.len() > 0,
        occurs_at(s, sep, i),
    ensures
        split_on(s.skip(i), sep) == seq![Seq::<char>::empty()] + split_on(
            s.skip(i + sep.len()),
            sep,
        ),
{
    assert(s.skip(i).subrange(0, sep.len() as int) =~= s.subrange(i, i + sep.len()));
    assert(s.skip(i).skip(sep.len() as int) =~= s.skip(i + sep.len()));
}

proof fn lemma_split_no_match(s: Seq<char>, sep: Seq<char>, i: int)
    requires
        sep.len() > 0,
        0 <= i < s.len(),
        !occurs_at(s, sep, i),
    ensures
        split_on(s.skip(i), sep) == prepend_first(seq![s[i]], split_on(s.skip(i + 1), sep)),
{
    if starts_with(s.skip(i), sep) {
        assert(s.skip(i).subrange(0, sep.len() as int) =~= s.subrange(i, i + sep.len()));
    }
    assert(s.skip(i).skip(1) =~= s.skip(i + 1));
}

/// `s` cut at each occurrence of `sep`, as `split_on` states.
pub fn split_text(s: &str, sep: &str) -> (r: Vec<String>)
    requires
        sep@.len() > 0,
    ensures
        views(r@) == split_on(s@, sep@),
        r@.len() >= 1,
{
    let cs = chars_of(s);
    let sc = chars_of(sep);
    let n = cs.len();
    let k = sc.len();
    let mut r: Vec<String> = Vec::new();
    let mut start: usize = 0;
    let mut i: usize = 0;
    proof {
        lemma_split_nonempty(s@, sep@);
        assert(s@.skip(0) =~= s@);
        let x = split_on(s@, sep@);
        assert(prepend_first(s@.subrange(0, 0), x) =~~= x);
        assert(views(r@) + x =~= x);
    }
    while i < n
        invariant
            cs@ == s@,
            sc@ == sep@,
            n == cs@.len(),
            k == sc@.len(),
            k > 0,
            start <= i <= n,
            split_on(s@, sep@) == views(r@) + prepend_first(
                s@.subrange(start as int, i as int),
                split_on(s@.skip(i as int), sep@),
            ),
        decreases n - i,
    {
        let ghost p = s@.subrange(start as int, i as int);
        if matches_at(&cs, &sc, i) {
            proof {
                lemma_split_at_match(s@, sep@, i as int);
                lemma_split_nonempty(s@.skip(i + k), sep@);
            }
            let piece = String::from_str(s.substring_char(start, i));
            let ghost old_r = r@;
            r.push(piece);
            i = i + k;
            start = i;
            proof {
                let rest = split_on(s@.skip(i as int), sep@);
                assert(views(r@) =~= views(old_r).push(p));
                assert(prepend_first(p, seq![Seq::<char>::empty()] + rest) =~= seq![p] + rest);
                assert(prepend_first(s@.subrange(start as int, i as int), rest) =~= rest);
                assert(views(old_r) + (seq![p] + rest) =~= views(r@) + rest);
            }
        } else {
            proof {
                lemma_split_no_match(s@, sep@, i as int);
                lemma_split_nonempty(s@.skip(i + 1), sep@);
                let rest = split_on(s@.skip(i + 1), sep@);
                assert(s@.subrange(start as int, i + 1) =~= p + seq![s@[i as int]]);
                assert(p + (seq![s@[i as int]] + rest[0]) =~= (p + seq![s@[i as int]]) + rest[0]);
                assert(prepend_first(p, prepend_first(seq![s@[i as int]], rest)) =~~= prepend_first(
                    s@.subrange(start as int, i + 1),
                    rest,
                ));
            }
            i = i + 1;
        }
    }
    let piece = String::from_str(s.substring_char(start, n));
    let ghost old_r = r@;
    r.push(piece);
    proof {
        let p = s@.subrange(start as int, n as int);
        assert(s@.skip(n as int) =~= Seq::<char>::empty());
        assert(split_on(Seq::<char>::empty(), sep@) == seq![Seq::<char>::empty()]);
        assert(prepend_first(p, seq![Seq::<char>::empty()]) =~= seq![p]);
        assert(views(r@) =~= views(old_r).push(p));
        assert(views(r@) =~= views(old_r) + seq![p]);
    }
    r
}

pub open spec fn digit_char(d: nat) -> char {
    if d == 0 { '0' } else if d == 1 { '1' } else if d == 2 { '2' } else if d == 3 { '3' }
    else if d == 4 { '4' } else if d == 5 { '5' } else if d == 6 { '6' } else if d == 7 { '7' }
    else if d == 8 { '8' } else { '9' }
}

/// The decimal digits of `n`, most significant first, without leading zeros.
pub open spec fn decimal(n: nat) -> Seq<char>
    decreases n,
{
    if n < 10 {
        seq![digit_char(n)]
    } else {
        decimal(n / 10) + seq![digit_char(n % 10)]
    }
}

fn digit_text(d: u64) -> (r: &'static str)
    requires
        d < 10,
    ensures
        r@ == seq![digit_char(d as nat)],
{
    proof {
        reveal_strlit("0");
        reveal_strlit("1");
        reveal_strlit("2");
        reveal_strlit("3");
        reveal_strlit("4");
        reveal_strlit("5");
        reveal_strlit("6");
        reveal_strlit("7");
        reveal_strlit("8");
        reveal_strlit("9");
    }
    let r = if d == 0 { "0" } else if d == 1 { "1" } else if d == 2 { "2" } else if d == 3 {
        "3"
    } else if d == 4 { "4" } else if d == 5 { "5" } else if d == 6 { "6" } else if d == 7 {
        "7"
    } else if d == 8 { "8" } else { "9" };
    assert(r@ =~= seq![digit_char(d as nat)]);
    r
}

/// `n` written in decimal.
pub fn decimal_text(n: u64) -> (r: String)
    ensures
        r@ == decimal(n as nat),
    decreases n,
{
    if n < 10 {
        String::from_str(digit_text(n))
    } else {
        let mut r = decimal_text(n / 10);
        r.append(digit_text(n % 10));
        r
    }
}

proof fn lemma_first_unique(s: Seq<char>, p: Seq<char>, i: int, j: int)
    requires
        first_occurrence(s, p, i),
        first_occurrence(s, p, j),
    ensures
        i == j,
{
}

/// What follows the leftmost occurrence of `p` in `s`, if `p` occurs.
pub fn split_after<'a>(s: &'a str, p: &str) -> (r: Option<&'a str>)
    ensures
        match r {
            Some(t) => after_first(s@, p@) == Some(t@),
            None => after_first(s@, p@) is None,
        },
{
    let cs = chars_of(s);
    let pc = chars_of(p);
    match find(&cs, &pc) {
        Some(i) => {
            proof {
                let j = choose|j: int| first_occurrence(s@, p@, j);
                lemma_first_unique(s@, p@, i as int, j);
                assert(i + pc@.len() <= cs@.len());
            }
            let n = cs.len();
            let k = pc.len();
            assert(i + k <= n);
            Some(s.substring_char(i + k, n))
        },
        None => None,
    }
}

/// What precedes the leftmost occurrence of `p` in `s`, or all of `s`.
pub fn split_before(s: &str, p: &str) -> (r: String)
    ensures
        r@ == before_first(s@, p@),
{
    let cs = chars_of(s);
    let pc = chars_of(p);
    match find(&cs, &pc) {
        Some(i) => {
            proof {
                let j = choose|j: int| first_occurrence(s@, p@, j);
                lemma_first_unique(s@, p@, i as int, j);
            }
            String::from_str(s.substring_char(0, i))
        },
        None => String::from_str(s),
    }
}

/// Whether `p` occurs in `s`.
pub fn has(s: &str, p: &str) -> (r: bool)
    ensures
        r == contains(s@, p@),
{
    let cs = chars_of(s);
    let pc = chars_of(p);
    find(&cs, &pc).is_some()
}

/// Whether `s` begins with `p`.
pub fn begins(s: &str, p: &str) -> (r: bool)
    ensures
        r == starts_with(s@, p@),
{
    let cs = chars_of(s);
    let pc = chars_of(p);
    matches_at(&cs, &pc, 0)
}

/// Whether `s` ends with `p`.
pub fn ends(s: &str, p: &str) -> (r: bool)
    ensures
        r == ends_with(s@, p@),
{
    let cs = chars_of(s);
    let pc = chars_of(p);
    if pc.len() > cs.len() {
        return false;
    }
    matches_at(&cs, &pc, cs.len() - pc.len())
}

/// `s` without its leading whitespace.
pub fn skip_space(s: &str) -> (r: String)
    ensures
        r@ == trim_start(s@),
{
    let cs = chars_of(s);
    let mut i: usize = 0;
    proof {
        assert(s@.skip(0) =~= s@);
    }
    while i < cs.len() && is_space_char(cs[i])
        invariant
            cs@ == s@,
            i <= cs@.len(),
            trim_start(s@) == trim_start(s@.skip(i as int)),
        decreases cs.len() - i,
    {
        proof {
            assert(s@.skip(i as int).skip(1) =~= s@.skip(i + 1));
        }
        i = i + 1;
    }
    String::from_str(s.substring_char(i, cs.len()))
}

fn is_space_char(c: char) -> (r: bool)
    ensures
        r == is_space(c),
{
    c == ' ' || c == '\t' || c == '\n' || c == '\r' || c == '\x0b' || c == '\x0c'
}

/// `n` in decimal, with a leading `-` when negative.
pub open spec fn signed_decimal(n: int) -> Seq<char> {
    if n < 0 {
        seq!['-'] + decimal((-n) as nat)
    } else {
        decimal(n as nat)
    }
}

/// `n` written in decimal.
pub fn signed_decimal_text(n: i64) -> (r: String)
    ensures
        r@ == signed_decimal(n as int),
{
    if n < 0 {
        let m: u64 = if n == i64::MIN {
            9223372036854775808u64
        } else {
            (-n) as u64
        };
        let mut r = String::from_str("-");
        let digits = decimal_text(m);
        r.append(digits.as_str());
        proof {
            reveal_strlit("-");
        }
        r
    } else {
        decimal_text(n as u64)
    }
}

/// A prefix of `b` stays a prefix, behind `a`.
pub proof fn lemma_starts_with_after(a: Seq<char>, b: Seq<char>, p: Seq<char>)
    requires
        starts_with(b, p),
    ensures
        starts_with(a + b, a + p),
{
    assert((a + b).subrange(0, (a + p).len() as int) =~= a + p);
}

/// `a` begins `a + b`.
pub proof fn lemma_starts_with_self(a: Seq<char>, b: Seq<char>)
    ensures
        starts_with(a + b, a),
{
    assert((a + b).subrange(0, a.len() as int) =~= a);
}

} // verus!
