//! Binary encoding of plain values through bincode.
//!
//! Each shape of value that the protocol and the registry file carry has a
//! name for its bincode encoding. With bincode's default options there is no
//! size limit, and writing into a `Vec` cannot fail, so encoding always
//! succeeds. The decoders promise what bincode's round trip gives: bytes that
//! are exactly the encoding of a value decode to that value.
use vstd::prelude::*;

verus! {

/// bincode's encoding of a single string.
pub uninterp spec fn bincode_text(s: Seq<char>) -> Seq<u8>;

/// bincode's encoding of a pair of strings.
pub uninterp spec fn bincode_text_pair(a: Seq<char>, b: Seq<char>) -> Seq<u8>;

/// bincode's encoding of a (string, string, bool) triple.
pub uninterp spec fn bincode_pull_fields(a: Seq<char>, b: Seq<char>, flag: bool) -> Seq<u8>;

/// bincode's encoding of a list of string pairs.
pub uninterp spec fn bincode_pair_list(v: Seq<(Seq<char>, Seq<char>)>) -> Seq<u8>;

/// What bincode decodes from `b` as a list of string pairs, or `None` where it fails.
pub uninterp spec fn bincode_pair_list_decoded(b: Seq<u8>) -> Option<Seq<(Seq<char>, Seq<char>)>>;

/// Relies on `bincode::serialize` for a `String`: on success the bytes are its encoding.
#[verifier::external_body]
pub(crate) fn encode_text(s: &String) -> (r: Option<Vec<u8>>)
    ensures
        r is Some,
        r matches Some(b) ==> b@ == bincode_text(s@),
{
    bincode::serialize(s).ok()
}

/// Relies on `bincode::deserialize::<String>`: the encoding of a string decodes to it.
#[verifier::external_body]
pub(crate) fn decode_text(b: &[u8]) -> (r: Option<String>)
    ensures
        forall|s: Seq<char>| #[trigger] bincode_text(s) == b@ ==> (r is Some && r.unwrap()@ == s),
{
    bincode::deserialize::<String>(b).ok()
}

/// Relies on `bincode::serialize` for a `(String, String)`: on success the bytes are its encoding.
#[verifier::external_body]
pub(crate) fn encode_text_pair(a: &String, b: &String) -> (r: Option<Vec<u8>>)
    ensures
        r is Some,
        r matches Some(e) ==> e@ == bincode_text_pair(a@, b@),
{
    bincode::serialize(&(a, b)).ok()
}

/// Relies on `bincode::deserialize::<(String, String)>`: the encoding of a pair decodes to it.
#[verifier::external_body]
pub(crate) fn decode_text_pair(b: &[u8]) -> (r: Option<(String, String)>)
    ensures
        forall|x: Seq<char>, y: Seq<char>| #[trigger] bincode_text_pair(x, y) == b@ ==> (r is Some
            && r.unwrap().0@ == x && r.unwrap().1@ == y),
{
    bincode::deserialize::<(String, String)>(b).ok()
}

/// Relies on `bincode::serialize` for a `(String, String, bool)`: on success the bytes are its
/// encoding.
#[verifier::external_body]
pub(crate) fn encode_pull_fields(a: &String, b: &String, flag: bool) -> (r: Option<Vec<u8>>)
    ensures
        r is Some,
        r matches Some(e) ==> e@ == bincode_pull_fields(a@, b@, flag),
{
    bincode::serialize(&(a, b, flag)).ok()
}

/// Relies on `bincode::deserialize::<(String, String, bool)>`: the encoding of a triple decodes
/// to it.
#[verifier::external_body]
pub(crate) fn decode_pull_fields(b: &[u8]) -> (r: Option<(String, String, bool)>)
    ensures
        forall|x: Seq<char>, y: Seq<char>, f: bool| #[trigger] bincode_pull_fields(x, y, f) == b@
            ==> (r is Some && r.unwrap().0@ == x
            && r.unwrap().1@ == y && r.unwrap().2 == f),
{
    bincode::deserialize::<(String, String, bool)>(b).ok()
}

/// Relies on `bincode::serialize` for a `Vec<(String, String)>`: on success the bytes are its
/// encoding.
#[verifier::external_body]
pub(crate) fn encode_pair_list(v: &Vec<(String, String)>) -> (r: Option<Vec<u8>>)
    ensures
        r is Some,
        r matches Some(e) ==> e@ == bincode_pair_list(v.deep_view()),
{
    bincode::serialize(v).ok()
}

/// Relies on `bincode::deserialize::<Vec<(String, String)>>`: the outcome depends on the bytes
/// alone, and the encoding of a list decodes to it.
#[verifier::external_body]
pub(crate) fn decode_pair_list(b: &[u8]) -> (r: Option<Vec<(String, String)>>)
    ensures
        r.deep_view() == bincode_pair_list_decoded(b@),
        forall|v: Seq<(Seq<char>, Seq<char>)>| #[trigger] bincode_pair_list(v) == b@ ==> (r is Some
            && r.unwrap().deep_view() == v),
{
    bincode::deserialize::<Vec<(String, String)>>(b).ok()
}

} // verus!
