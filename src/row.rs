//! The row codec: types that can be made from one `key=value` line.
use crate::fields::FieldError;
use vstd::prelude::*;
use vstd::string::*;

verus! {

/// A row type that can be decoded from one query-string line.
pub trait FromQueryString: Sized {
    /// Whether `line` decodes into a row of this type.
    spec fn decodable(line: Seq<char>) -> bool;

    /// Whether `v` is what `line` decodes into.
    spec fn decodes_to(line: Seq<char>, v: Self) -> bool;

    /// The row that `data` holds.
    fn from_query(data: &str) -> (r: Result<Self, FieldError>)
        ensures
            r is Ok <==> Self::decodable(data@),
            r matches Ok(v) ==> Self::decodes_to(data@, v),
    ;
}

/// The row of a command that returns nothing: any line will do.
impl FromQueryString for () {
    open spec fn decodable(line: Seq<char>) -> bool {
        true
    }

    open spec fn decodes_to(line: Seq<char>, v: ()) -> bool {
        true
    }

    fn from_query(_data: &str) -> (r: Result<(), FieldError>) {
        Ok(())
    }
}

/// The raw row: the line itself, unparsed.
impl FromQueryString for String {
    open spec fn decodable(line: Seq<char>) -> bool {
        true
    }

    open spec fn decodes_to(line: Seq<char>, v: String) -> bool {
        v@ == line
    }

    fn from_query(data: &str) -> (r: Result<String, FieldError>) {
        Ok(String::from_str(data))
    }
}

/// Encoding a raw row as its line and decoding that line gives the row back;
/// the unit row decodes from any line, its own empty encoding included.
pub proof fn lemma_builtin_rows_round_trip(row: String, line: Seq<char>)
    requires
        line == row@,
    ensures
        <String as FromQueryString>::decodable(line),
        forall|v: String| <String as FromQueryString>::decodes_to(line, v) <==> v@ == row@,
        <() as FromQueryString>::decodable(Seq::empty()),
        <() as FromQueryString>::decodes_to(Seq::empty(), ()),
{
}

} // verus!
