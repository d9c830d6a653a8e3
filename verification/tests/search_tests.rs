use photo_fetch::plan::plan_downloads;
use photo_fetch::request::{auth_header_value, SearchQuery};
use photo_fetch::search::{parse_search_response, SearchError};

#[test]
fn non_success_status_yields_no_records() {
    let r = parse_search_response(false, "{\"results\":[{\"id\":\"a\",\"urls\":{\"regular\":\"http://x/a.png\"}}]}");
    assert!(matches!(r, Ok(ref v) if v.is_empty()));
}

#[test]
fn success_body_yields_records_in_order() {
    let body = "{\"results\":[\
        {\"id\":\"first\",\"urls\":{\"regular\":\"http://x/1.png\"}},\
        {\"id\":\"second\",\"urls\":{\"regular\":\"http://x/2.gif\"}}\
    ]}";
    let records = parse_search_response(true, body).unwrap();
    assert_eq!(records.len(), 2);
    assert_eq!(records[0].id, "first");
    assert_eq!(records[0].image_url, "http://x/1.png");
    assert_eq!(records[1].id, "second");
    assert_eq!(records[1].image_url, "http://x/2.gif");
}

#[test]
fn empty_results_array_yields_no_records() {
    let r = parse_search_response(true, "{\"results\":[]}");
    assert!(matches!(r, Ok(ref v) if v.is_empty()));
}

#[test]
fn body_that_is_not_json_is_malformed() {
    let r = parse_search_response(true, "not json at all");
    assert_eq!(r.unwrap_err(), SearchError::MalformedResponse);
}

#[test]
fn body_without_results_array_is_malformed() {
    assert_eq!(
        parse_search_response(true, "{}").unwrap_err(),
        SearchError::MalformedResponse
    );
    assert_eq!(
        parse_search_response(true, "{\"results\":7}").unwrap_err(),
        SearchError::MalformedResponse
    );
}

#[test]
fn element_without_id_or_url_is_malformed() {
    assert_eq!(
        parse_search_response(true, "{\"results\":[{\"urls\":{\"regular\":\"http://x/a.png\"}}]}")
            .unwrap_err(),
        SearchError::MalformedResponse
    );
    assert_eq!(
        parse_search_response(true, "{\"results\":[{\"id\":\"a\",\"urls\":{}}]}").unwrap_err(),
        SearchError::MalformedResponse
    );
    assert_eq!(
        parse_search_response(true, "{\"results\":[{\"id\":3,\"urls\":{\"regular\":\"u\"}}]}")
            .unwrap_err(),
        SearchError::MalformedResponse
    );
}

#[test]
fn query_from_input_keeps_text_and_count() {
    let q = SearchQuery::from_input("cats".to_string(), "2").unwrap();
    assert_eq!(q.text, "cats");
    assert_eq!(q.page_size, 2);
    assert_eq!(q.per_page_param(), "2");
}

#[test]
fn query_from_bad_count_is_rejected() {
    assert!(SearchQuery::from_input("cats".to_string(), "abc").is_none());
}

#[test]
fn auth_header_carries_the_key() {
    assert_eq!(auth_header_value("k3y"), "Client-ID k3y");
    assert_eq!(auth_header_value(""), "Client-ID ");
}

#[test]
fn plan_has_one_job_per_record_in_response_order() {
    let body = "{\"results\":[\
        {\"id\":\"ab#1\",\"urls\":{\"regular\":\"http://x/img.png?sig=1\"}},\
        {\"id\":\"ab#2\",\"urls\":{\"regular\":\"http://x/img2\"}}\
    ]}";
    let records = parse_search_response(true, body).unwrap();
    let jobs = plan_downloads(&records, "images");
    assert_eq!(jobs.len(), 2);
    assert_eq!(jobs[0].url, "http://x/img.png?sig=1");
    assert_eq!(jobs[1].url, "http://x/img2");
}

#[test]
fn end_to_end_cats_scenario() {
    let q = SearchQuery::from_input("cats".to_string(), "2").unwrap();
    assert_eq!(q.per_page_param(), "2");
    let body = "{\"results\":[\
        {\"id\":\"ab#1\",\"urls\":{\"regular\":\"http://x/img.png?sig=1\"}},\
        {\"id\":\"ab#2\",\"urls\":{\"regular\":\"http://x/img2\"}}\
    ]}";
    let records = parse_search_response(true, body).unwrap();
    let jobs = plan_downloads(&records, "images");
    assert_eq!(jobs.len(), 2);
    assert_eq!(jobs[0].path, "images/ab_1.png");
    assert_eq!(jobs[1].path, "images/ab_2.jpg");
}
