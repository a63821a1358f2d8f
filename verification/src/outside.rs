//! Trusted wrappers around the outside crates the layer leans on, and
//! the one standard-library method the verifier's library leaves
//! unspecified.
//!
//! Each wrapper's body only makes the outside call and converts values;
//! Verus believes the stated contract without reading the body, so every
//! clause here is justified by the called crate's source or documentation.

use vstd::prelude::*;

verus! {

/// Relies on `String::push`: appends exactly the given character.
#[verifier::external_body]
pub fn push_char(s: &mut String, c: char)
    ensures
        final(s)@ == old(s)@.push(c),
{
    s.push(c)
}

/// The number of logical CPUs that `num_cpus::get` reports for this
/// process. It depends on the machine, so nothing more than the documented
/// lower bound is stated.
#[verifier::external_body]
pub fn cpu_count() -> (n: usize)
    ensures
        n >= 1,
{
    num_cpus::get()
}

/// The (name, value) pairs that `form_urlencoded` parsing yields for a
/// query string, percent-decoded, in input order.
pub uninterp spec fn query_pairs_of(s: Seq<char>) -> Seq<(Seq<char>, Seq<char>)>;

/// Relies on `url::form_urlencoded::parse`: the pairs are a function of the
/// input bytes alone, and an empty input yields no pairs.
#[verifier::external_body]
pub fn parse_query_pairs(s: &str) -> (r: Vec<(String, String)>)
    ensures
        r@.len() == query_pairs_of(s@).len(),
        forall|i: int|
            0 <= i < r@.len() ==> r@[i].0@ == query_pairs_of(s@)[i].0 && r@[i].1@
                == query_pairs_of(s@)[i].1,
        s@.len() == 0 ==> r@.len() == 0,
{
    let mut out: Vec<(String, String)> = Vec::new();
    for (k, v) in url::form_urlencoded::parse(s.as_bytes()) {
        out.push((k.into_owned(), v.into_owned()));
    }
    out
}

/// The canonical rendering of a JSON document: the compact string that
/// `serde_json` prints for the parsed value, or nothing when the input is
/// not valid JSON.
pub uninterp spec fn json_canon_of(s: Seq<char>) -> Option<Seq<char>>;

/// Relies on `serde_json::from_str::<Value>` and `Value`'s `Display`:
/// parsing depends on the characters alone, printing a `Value` re-parses to
/// an equal `Value`, so canonicalizing is idempotent.
#[verifier::external_body]
pub fn canon_json(s: &str) -> (r: Option<String>)
    ensures
        (r is Some) == (json_canon_of(s@) is Some),
        r is Some ==> r->0@ == json_canon_of(s@)->0,
        r is Some ==> json_canon_of(r->0@) == Option::Some(r->0@),
{
    match serde_json::from_str::<serde_json::Value>(s) {
        Ok(v) => Some(v.to_string()),
        Err(_) => None,
    }
}

} // verus!
