//! The wire decoder: a raw response split into its status and its rows.
use crate::error::empty_response_text;
use crate::error::QueryError;
use crate::error::QueryResult;
use crate::row::FromQueryString;
use crate::text::begins;
use crate::text::skip_space;
use crate::text::prepend_first;
use crate::text::split_on;
use crate::text::split_text;
use crate::text::starts_with;
use crate::text::trim_start;
use crate::text::views;
use crate::types::status_of;
use crate::types::QueryStatus;
use vstd::prelude::*;
use vstd::string::*;

verus! {

/// The lines of a response: its text cut at each line terminator `\n\r`.
pub open spec fn response_lines(raw: Seq<char>) -> Seq<Seq<char>> {
    split_on(raw, "\n\r"@)
}

/// A status line begins, after leading whitespace, with `error `.
pub open spec fn is_status_line(line: Seq<char>) -> bool {
    starts_with(trim_start(line), "error "@)
}

/// A data line is any line that is not blank and not a status line.
pub open spec fn is_data_line(line: Seq<char>) -> bool {
    trim_start(line).len() > 0 && !is_status_line(line)
}

/// The index of the first status line at or after `i`, or the number of lines.
pub open spec fn first_status_from(ls: Seq<Seq<char>>, i: int) -> int
    decreases ls.len() - i,
{
    if i < 0 || i >= ls.len() {
        ls.len() as int
    } else if is_status_line(ls[i]) {
        i
    } else {
        first_status_from(ls, i + 1)
    }
}

/// The index of the first data line at or after `i`, or the number of lines.
pub open spec fn first_data_from(ls: Seq<Seq<char>>, i: int) -> int
    decreases ls.len() - i,
{
    if i < 0 || i >= ls.len() {
        ls.len() as int
    } else if is_data_line(ls[i]) {
        i
    } else {
        first_data_from(ls, i + 1)
    }
}

/// Whether the response holds a status line.
pub open spec fn has_status(raw: Seq<char>) -> bool {
    first_status_from(response_lines(raw), 0) < response_lines(raw).len()
}

/// The id and message of the response's first status line, where it has one
/// and that line parses.
pub open spec fn status_in(raw: Seq<char>) -> Option<(int, Seq<char>)> {
    if has_status(raw) {
        status_of(response_lines(raw)[first_status_from(response_lines(raw), 0)])
    } else {
        None
    }
}

/// What `decode_status` gives for `raw`: the failures, and success exactly
/// when the status id is zero.
pub open spec fn status_result_matches(raw: Seq<char>, r: Result<(), QueryError>) -> bool {
    &&& !has_status(raw) ==> (r matches Err(e) && e.spec_code() == -1 && e.spec_message()
        == empty_response_text())
    &&& match status_in(raw) {
        Some((id, msg)) => if id == 0 {
            r is Ok
        } else {
            r matches Err(e) && e.spec_code() == id && e.spec_message() == msg
        },
        None => has_status(raw) ==> (r matches Err(e) && e.spec_code() == -7),
    }
}

/// The response's status line parses and reports success.
pub open spec fn status_ok(raw: Seq<char>) -> bool {
    match status_in(raw) {
        Some((id, _)) => id == 0,
        None => false,
    }
}

pub open spec fn without_value<T>(r: QueryResult<T>) -> Result<(), QueryError> {
    match r {
        Ok(_) => Ok(()),
        Err(e) => Err(e),
    }
}

fn is_status(line: &str) -> (r: bool)
    ensures
        r == is_status_line(line@),
{
    let t = skip_space(line);
    begins(t.as_str(), "error ")
}

/// Checks the status line of a response; on success hands the whole response
/// back unchanged, status line included.
pub fn decode_status(content: String) -> (r: QueryResult<String>)
    ensures
        status_result_matches(content@, without_value(r)),
        r matches Ok(s) ==> s@ == content@,
{
    proof {
        reveal_strlit("\n\r");
    }
    let lines = split_text(content.as_str(), "\n\r");
    let ghost ls = views(lines@);
    let mut i: usize = 0;
    while i < lines.len()
        invariant
            ls == views(lines@),
            ls == response_lines(content@),
            i <= lines@.len(),
            first_status_from(ls, 0) == first_status_from(ls, i as int),
        decreases lines.len() - i,
    {
        if is_status(lines[i].as_str()) {
            let status = QueryStatus::from_line(lines[i].as_str())?;
            return status.into_result(content);
        }
        i = i + 1;
    }
    Err(QueryError::static_empty_response())
}

/// Checks the status of a response, then decodes its first data line: one
/// row per `|`-separated record, in order. `None` where the response has no
/// data line; a record that does not decode fails the whole call.
pub fn decode_status_with_result<T: FromQueryString>(data: String) -> (r: QueryResult<Option<Vec<T>>>)
    ensures
        !status_ok(data@) ==> status_result_matches(data@, without_value(r)),
        status_ok(data@) ==> rows_result_matches(data@, r),
{
    let ghost raw = data@;
    let content = match decode_status(data) {
        Ok(c) => c,
        Err(e) => return Err(e),
    };
    assert(content@ == raw);
    assert(status_ok(raw));
    proof {
        reveal_strlit("\n\r");
    }
    let lines = split_text(content.as_str(), "\n\r");
    let ghost ls = views(lines@);
    let mut i: usize = 0;
    while i < lines.len()
        invariant
            ls == views(lines@),
            ls == response_lines(content@),
            content@ == raw,
            raw == data@,
            status_ok(raw),
            i <= lines@.len(),
            first_data_from(ls, 0) == first_data_from(ls, i as int),
        decreases lines.len() - i,
    {
        let line = lines[i].as_str();
        let trimmed = skip_space(line);
        if trimmed.as_str().unicode_len() > 0 && !is_status(line) {
            assert(is_data_line(ls[i as int]));
            proof {
                reveal_strlit("|");
            }
            let records = split_text(line, "|");
            let ghost recs = views(records@);
            let mut v: Vec<T> = Vec::new();
            let mut j: usize = 0;
            while j < records.len()
                invariant
                    ls == views(lines@),
                    ls == response_lines(raw),
                    status_ok(raw),
                    raw == data@,
                    i < lines@.len(),
                    is_data_line(ls[i as int]),
                    first_data_from(ls, 0) == first_data_from(ls, i as int),
                    recs == views(records@),
                    recs == split_on(ls[i as int], "|"@),
                    j <= records@.len(),
                    v@.len() == j,
                    forall|k: int| 0 <= k < j ==> T::decodable(#[trigger] recs[k]),
                    forall|k: int| 0 <= k < j ==> T::decodes_to(recs[k], #[trigger] v@[k]),
                decreases records.len() - j,
            {
                match T::from_query(records[j].as_str()) {
                    Ok(row) => {
                        assert(records[j as int]@ == recs[j as int]);
                        let ghost old_v = v@;
                        v.push(row);
                        assert(forall|k: int| 0 <= k < j ==> v@[k] == old_v[k]);
                        assert(T::decodes_to(recs[j as int], v@[j as int]));
                    },
                    Err(e) => {
                        assert(first_data_from(ls, i as int) == i);
                        assert(!T::decodable(recs[j as int]));
                        return Err(QueryError::deserialize_error(e));
                    },
                }
                j = j + 1;
            }
            assert(first_data_from(ls, i as int) == i);
            return Ok(Some(v));
        }
        i = i + 1;
    }
    Ok(None)
}

/// What `decode_status_with_result` gives for a response whose status is
/// success: no rows without a data line; else one row per record of the
/// first data line, in order, or a decode error (code -7) where a record
/// does not decode.
pub open spec fn rows_result_matches<T: FromQueryString>(raw: Seq<char>, r: QueryResult<Option<Vec<T>>>) -> bool {
    let ls = response_lines(raw);
    let d = first_data_from(ls, 0);
    if d >= ls.len() {
        r matches Ok(None)
    } else {
        let recs = split_on(ls[d], "|"@);
        if forall|k: int| 0 <= k < recs.len() ==> T::decodable(#[trigger] recs[k]) {
            r matches Ok(Some(v)) && v@.len() == recs.len() && forall|k: int|
                0 <= k < recs.len() ==> T::decodes_to(recs[k], #[trigger] v@[k])
        } else {
            r matches Err(e) && e.spec_code() == -7
        }
    }
}

proof fn lemma_no_status_from(ls: Seq<Seq<char>>, i: int)
    requires
        0 <= i <= ls.len(),
        forall|j: int| i <= j < ls.len() ==> !is_status_line(#[trigger] ls[j]),
    ensures
        first_status_from(ls, i) == ls.len(),
    decreases ls.len() - i,
{
    if i < ls.len() {
        lemma_no_status_from(ls, i + 1);
    }
}

proof fn lemma_no_data_from(ls: Seq<Seq<char>>, i: int)
    requires
        0 <= i <= ls.len(),
        forall|j: int| i <= j < ls.len() ==> !is_data_line(#[trigger] ls[j]),
    ensures
        first_data_from(ls, i) == ls.len(),
    decreases ls.len() - i,
{
    if i < ls.len() {
        lemma_no_data_from(ls, i + 1);
    }
}

proof fn lemma_first_status_at(ls: Seq<Seq<char>>, i: int, k: int)
    requires
        0 <= i <= k < ls.len(),
        is_status_line(ls[k]),
        forall|j: int| 0 <= j < k ==> !is_status_line(#[trigger] ls[j]),
    ensures
        first_status_from(ls, i) == k,
    decreases k - i,
{
    if i < k {
        lemma_first_status_at(ls, i + 1, k);
    }
}

/// A response none of whose lines is a status line fails to decode with the
/// empty-response error (code -1), with or without rows asked for.
pub proof fn lemma_missing_status_is_empty_response(raw: Seq<char>, r: Result<(), QueryError>)
    requires
        forall|j: int|
            0 <= j < response_lines(raw).len() ==> !is_status_line(#[trigger] response_lines(raw)[j]),
        status_result_matches(raw, r),
    ensures
        r matches Err(e) && e.spec_code() == -1 && e.spec_message() == empty_response_text(),
        !status_ok(raw),
{
    lemma_no_status_from(response_lines(raw), 0);
}

/// Where the first status line of a response reports a non-zero id, decoding
/// fails with an error carrying exactly that id and message.
pub proof fn lemma_failed_status_is_reported(
    raw: Seq<char>,
    k: int,
    id: int,
    msg: Seq<char>,
    r: Result<(), QueryError>,
)
    requires
        0 <= k < response_lines(raw).len(),
        is_status_line(response_lines(raw)[k]),
        forall|j: int| 0 <= j < k ==> !is_status_line(#[trigger] response_lines(raw)[j]),
        status_of(response_lines(raw)[k]) == Some((id, msg)),
        id != 0,
        status_result_matches(raw, r),
    ensures
        r matches Err(e) && e.spec_code() == id && e.spec_message() == msg,
        !status_ok(raw),
{
    lemma_first_status_at(response_lines(raw), 0, k);
}

/// A successful response without data lines decodes to no rows: not an
/// error, and not an empty list.
pub proof fn lemma_no_data_lines_no_rows<T: FromQueryString>(raw: Seq<char>, r: QueryResult<Option<Vec<T>>>)
    requires
        status_ok(raw),
        forall|j: int|
            0 <= j < response_lines(raw).len() ==> !is_data_line(#[trigger] response_lines(raw)[j]),
        rows_result_matches(raw, r),
    ensures
        r matches Ok(None),
{
    lemma_no_data_from(response_lines(raw), 0);
}

proof fn lemma_first_data_at(ls: Seq<Seq<char>>, i: int, k: int)
    requires
        0 <= i <= k < ls.len(),
        is_data_line(ls[k]),
        forall|j: int| 0 <= j < k ==> !is_data_line(#[trigger] ls[j]),
    ensures
        first_data_from(ls, i) == k,
    decreases k - i,
{
    if i < k {
        lemma_first_data_at(ls, i + 1, k);
    }
}

/// A successful response whose data line holds N `|`-separated records, all
/// decodable, decodes to exactly N rows, the k-th from the k-th record.
pub proof fn lemma_rows_follow_records<T: FromQueryString>(
    raw: Seq<char>,
    d: int,
    r: QueryResult<Option<Vec<T>>>,
)
    requires
        status_ok(raw),
        0 <= d < response_lines(raw).len(),
        is_data_line(response_lines(raw)[d]),
        forall|j: int| 0 <= j < d ==> !is_data_line(#[trigger] response_lines(raw)[j]),
        forall|k: int|
            0 <= k < split_on(response_lines(raw)[d], "|"@).len() ==> T::decodable(
                #[trigger] split_on(response_lines(raw)[d], "|"@)[k],
            ),
        rows_result_matches(raw, r),
    ensures
        r matches Ok(Some(v)) && v@.len() == split_on(response_lines(raw)[d], "|"@).len()
            && forall|k: int|
            0 <= k < v@.len() ==> T::decodes_to(
                split_on(response_lines(raw)[d], "|"@)[k],
                #[trigger] v@[k],
            ),
{
    lemma_first_data_at(response_lines(raw), 0, d);
}

/// Records joined with `|` between them.
pub open spec fn join_records(recs: Seq<Seq<char>>) -> Seq<char>
    decreases recs.len(),
{
    if recs.len() <= 1 {
        if recs.len() == 1 {
            recs[0]
        } else {
            Seq::empty()
        }
    } else {
        recs[0] + "|"@ + join_records(recs.skip(1))
    }
}

proof fn lemma_split_free(a: Seq<char>, sep: Seq<char>)
    requires
        sep.len() > 0,
        !a.contains(sep[0]),
    ensures
        split_on(a, sep) == seq![a],
    decreases a.len(),
{
    if a.len() > 0 {
        assert(a[0] != sep[0]);
        assert(!a.skip(1).contains(sep[0])) by {
            if a.skip(1).contains(sep[0]) {
                let j = choose|j: int| 0 <= j < a.skip(1).len() && a.skip(1)[j] == sep[0];
                assert(a[j + 1] == sep[0]);
            }
        }
        lemma_split_free(a.skip(1), sep);
        assert(seq![a[0]] + a.skip(1) =~= a);
        assert(prepend_first(seq![a[0]], seq![a.skip(1)]) =~= seq![a]);
    } else {
        assert(a =~= Seq::<char>::empty());
    }
}

proof fn lemma_split_prefix(a: Seq<char>, sep: Seq<char>, b: Seq<char>)
    requires
        sep.len() > 0,
        !a.contains(sep[0]),
    ensures
        split_on(a + sep + b, sep) == seq![a] + split_on(b, sep),
    decreases a.len(),
{
    let s = a + sep + b;
    if a.len() > 0 {
        assert(s[0] == a[0]);
        assert(a[0] != sep[0]);
        assert(!a.skip(1).contains(sep[0])) by {
            if a.skip(1).contains(sep[0]) {
                let j = choose|j: int| 0 <= j < a.skip(1).len() && a.skip(1)[j] == sep[0];
                assert(a[j + 1] == sep[0]);
            }
        }
        assert(s.skip(1) =~= a.skip(1) + sep + b);
        lemma_split_prefix(a.skip(1), sep, b);
        assert(!starts_with(s, sep)) by {
            if starts_with(s, sep) {
                assert(s.subrange(0, sep.len() as int)[0] == s[0]);
            }
        }
        let rest = split_on(b, sep);
        assert(seq![a[0]] + a.skip(1) =~= a);
        assert(prepend_first(seq![a[0]], seq![a.skip(1)] + rest) =~= seq![a] + rest);
    } else {
        assert(s.subrange(0, sep.len() as int) =~= sep);
        assert(s.skip(sep.len() as int) =~= b);
        assert(a =~= Seq::<char>::empty());
    }
}

proof fn lemma_split_joined(recs: Seq<Seq<char>>)
    requires
        recs.len() >= 1,
        forall|k: int| 0 <= k < recs.len() ==> !(#[trigger] recs[k]).contains('|'),
    ensures
        split_on(join_records(recs), "|"@) == recs,
    decreases recs.len(),
{
    reveal_strlit("|");
    if recs.len() == 1 {
        lemma_split_free(recs[0], "|"@);
        assert(seq![recs[0]] =~= recs);
    } else {
        let tail = recs.skip(1);
        assert forall|k: int| 0 <= k < tail.len() implies !(#[trigger] tail[k]).contains('|') by {
            assert(tail[k] == recs[k + 1]);
        }
        lemma_split_joined(tail);
        assert(("|"@)[0] == '|');
        lemma_split_prefix(recs[0], "|"@, join_records(tail));
        assert(seq![recs[0]] + tail =~= recs);
    }
}

/// A successful response made of one data line of N records joined with `|`
/// and a status line reporting success, each ended by `\n\r`, decodes to N
/// rows, the k-th from the k-th record.
pub proof fn lemma_joined_records_decode<T: FromQueryString>(
    recs: Seq<Seq<char>>,
    st: Seq<char>,
    r: QueryResult<Option<Vec<T>>>,
)
    requires
        recs.len() >= 1,
        forall|k: int|
            0 <= k < recs.len() ==> !(#[trigger] recs[k]).contains('|') && !recs[k].contains('\n'),
        is_data_line(join_records(recs)),
        is_status_line(st),
        !st.contains('\n'),
        status_of(st) matches Some((id, _)) && id == 0,
        forall|k: int| 0 <= k < recs.len() ==> T::decodable(#[trigger] recs[k]),
        rows_result_matches(join_records(recs) + "\n\r"@ + (st + "\n\r"@), r),
    ensures
        r matches Ok(Some(v)) && v@.len() == recs.len() && forall|k: int|
            0 <= k < recs.len() ==> T::decodes_to(recs[k], #[trigger] v@[k]),
{
    reveal_strlit("\n\r");
    let j = join_records(recs);
    let raw = j + "\n\r"@ + (st + "\n\r"@);
    lemma_join_free(recs, '\n');
    let nl = "\n\r"@;
    assert(nl[0] == '\n');
    lemma_split_prefix(j, nl, st + nl);
    lemma_split_prefix(st, nl, Seq::empty());
    assert(st + nl + Seq::<char>::empty() =~= st + nl);
    assert(split_on(Seq::<char>::empty(), nl) == seq![Seq::<char>::empty()]);
    let ls = response_lines(raw);
    assert(ls =~= seq![j, st, Seq::<char>::empty()]);
    assert(first_data_from(ls, 0) == 0);
    lemma_split_joined(recs);
}

proof fn lemma_join_free(recs: Seq<Seq<char>>, c: char)
    requires
        c != '|',
        forall|k: int| 0 <= k < recs.len() ==> !(#[trigger] recs[k]).contains(c),
    ensures
        !join_records(recs).contains(c),
    decreases recs.len(),
{
    reveal_strlit("|");
    if recs.len() > 1 {
        let tail = recs.skip(1);
        assert forall|k: int| 0 <= k < tail.len() implies !(#[trigger] tail[k]).contains(c) by {
            assert(tail[k] == recs[k + 1]);
        }
        lemma_join_free(tail, c);
        let s = recs[0] + "|"@ + join_records(tail);
        if s.contains(c) {
            let i = choose|i: int| 0 <= i < s.len() && s[i] == c;
            if i < recs[0].len() {
                assert(recs[0][i] == c);
            } else if i == recs[0].len() {
            } else {
                assert(join_records(tail)[i - recs[0].len() - 1] == c);
            }
        }
    }
}

} // verus!
