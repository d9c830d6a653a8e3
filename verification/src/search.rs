//! Turning a search response into photo records.
//!
//! The search endpoint answers with a JSON body of the shape
//! `{ "results": [ { "id": "...", "urls": { "regular": "..." } }, ... ] }`.
//! A non-success status yields an empty record list and is not an error; a
//! success body that does not have this shape is an error, which the caller
//! treats as fatal.

use vstd::prelude::*;

verus! {

/// One photo of a search response: its opaque id and the URL of its
/// regular-resolution image.
#[derive(Debug, Clone)]
pub struct PhotoRecord {
    pub id: String,
    pub image_url: String,
}

/// Why a success response yielded no records.
#[derive(Debug, Clone, PartialEq, Eq, Structural)]
pub enum SearchError {
    /// The body was not JSON of the expected shape: no `results` array, or
    /// an element without a string `id` or a string `urls.regular`.
    MalformedResponse,
}

/// The `(id, regular URL)` pairs that reading a search body yields:
/// `None` when the body is not JSON carrying a `results` array of objects
/// that each hold a string `id` and a string `urls.regular`; otherwise the
/// pairs of every element, in array order. The outcome is fixed by the
/// body text alone.
pub uninterp spec fn search_records_of(body: Seq<char>) -> Option<Seq<(Seq<char>, Seq<char>)>>;

/// Relies on `serde_json::from_str`, `Value::get`, `Value::as_array` and
/// `Value::as_str`: parses the body, reads its `results` field as an
/// array, and reads `id` and `urls.regular` as strings from each element;
/// any missing piece fails the whole read. Each step is a pure function of
/// the body text.
#[verifier::external_body]
fn read_search_body(body: &str) -> (r: Option<Vec<(String, String)>>)
    ensures
        r is Some <==> search_records_of(body@) is Some,
        r is Some ==> r->0@.len() == search_records_of(body@)->0.len(),
        r is Some ==> forall|i: int|
            0 <= i < r->0@.len() ==> (#[trigger] r->0@[i]).0@ == search_records_of(body@)->0[i].0
                && r->0@[i].1@ == search_records_of(body@)->0[i].1,
{
    let v: serde_json::Value = match serde_json::from_str(body) { Ok(v) => v, Err(_) => return None };
    let arr = match v.get("results").and_then(serde_json::Value::as_array) { Some(a) => a, None => return None };
    let mut out: Vec<(String, String)> = Vec::new();
    for e in arr {
        let id = e.get("id").and_then(serde_json::Value::as_str);
        let url = e.get("urls").and_then(|u| u.get("regular")).and_then(serde_json::Value::as_str);
        match (id, url) {
            (Some(i), Some(u)) => out.push((i.to_owned(), u.to_owned())),
            _ => return None,
        }
    }
    Some(out)
}

/// Parse one search response. A non-success status yields `Ok` with no
/// records; a success body of the expected shape yields its records in
/// array order; any other success body yields `MalformedResponse`.
pub fn parse_search_response(success: bool, body: &str) -> (r: Result<
    Vec<PhotoRecord>,
    SearchError,
>)
    ensures
        !success ==> r is Ok && r->Ok_0@.len() == 0,
        success ==> ((r is Ok) <==> search_records_of(body@) is Some),
        success && search_records_of(body@) is Some ==> {
            let m = search_records_of(body@)->0;
            &&& r->Ok_0@.len() == m.len()
            &&& forall|i: int|
                0 <= i < m.len() ==> (#[trigger] r->Ok_0@[i]).id@ == m[i].0
                    && r->Ok_0@[i].image_url@ == m[i].1
        },
        success && search_records_of(body@) is None ==> r == Result::<
            Vec<PhotoRecord>,
            SearchError,
        >::Err(SearchError::MalformedResponse),
{
    if !success {
        return Ok(Vec::new());
    }
    let pairs = match read_search_body(body) {
        Some(p) => p,
        None => {
            return Err(SearchError::MalformedResponse);
        },
    };
    let ghost m = search_records_of(body@)->0;
    let mut records: Vec<PhotoRecord> = Vec::new();
    let mut i: usize = 0;
    while i < pairs.len()
        invariant
            i <= pairs@.len(),
            pairs@.len() == m.len(),
            forall|j: int|
                0 <= j < pairs@.len() ==> (#[trigger] pairs@[j]).0@ == m[j].0 && pairs@[j].1@
                    == m[j].1,
            records@.len() == i,
            forall|j: int|
                0 <= j < i ==> (#[trigger] records@[j]).id@ == m[j].0 && records@[j].image_url@
                    == m[j].1,
        decreases pairs@.len() - i,
    {
        let id = pairs[i].0.clone();
        let image_url = pairs[i].1.clone();
        records.push(PhotoRecord { id, image_url });
        i = i + 1;
    }
    Ok(records)
}

} // verus!
