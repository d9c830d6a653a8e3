//! The values one search request is made of.
//!
//! The request itself is plain HTTP; what the library fixes is every value
//! it carries: the trimmed query text, the page size as a decimal string
//! for the `per_page` parameter, and the `Authorization` header.

use vstd::prelude::*;

use crate::pages::{parse_page_count, spec_decimal, spec_parse_page_count, u8_to_decimal};

verus! {

/// One search to run: the free-form query text and how many results to
/// ask for.
#[derive(Debug, Clone)]
pub struct SearchQuery {
    pub text: String,
    pub page_size: u8,
}

impl SearchQuery {
    /// Build a query from the two input lines, already trimmed. Returns
    /// `None` when the page-count line is not a valid eight-bit count; the
    /// caller treats that as fatal before any request is made.
    pub fn from_input(text: String, page_count_line: &str) -> (r: Option<SearchQuery>)
        ensures
            r is Some <==> spec_parse_page_count(page_count_line@) is Some,
            r is Some ==> r->0.text == text && r->0.page_size == spec_parse_page_count(
                page_count_line@,
            )->0,
    {
        match parse_page_count(page_count_line) {
            Some(page_size) => Some(SearchQuery { text, page_size }),
            None => None,
        }
    }

    /// The decimal string sent as the `per_page` parameter.
    pub fn per_page_param(&self) -> (r: String)
        ensures
            r@ == spec_decimal(self.page_size as int),
    {
        u8_to_decimal(self.page_size)
    }
}

/// The `Authorization` header value for a given API key.
pub open spec fn spec_auth_header(key: Seq<char>) -> Seq<char> {
    "Client-ID "@ + key
}

/// Build the `Authorization` header value: the scheme word `Client-ID`,
/// one space, then the API key as given.
pub fn auth_header_value(key: &str) -> (r: String)
    ensures
        r@ == spec_auth_header(key@),
{
    let mut out = "Client-ID ".to_owned();
    out.append(key);
    out
}

} // verus!
