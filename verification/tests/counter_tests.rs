use radio_api::counter::{AccessCounter, access_err_line, access_log_line, counter_key};

#[test]
fn counter_key_has_the_documented_shape() {
    assert_eq!(
        counter_key("GET", "/json/countries", 200),
        "method=\"GET\",url=\"/json/countries\",status_code=\"200\""
    );
}

#[test]
fn repeated_requests_raise_the_count_by_one_each() {
    let mut c = AccessCounter::new();
    for _ in 0..3 {
        c.log_ok("GET", "/json/countries", 200);
    }
    assert_eq!(c.get("method=\"GET\",url=\"/json/countries\",status_code=\"200\""), 3);
    assert_eq!(c.get("method=\"GET\",url=\"/json/tags\",status_code=\"200\""), 0);
}

#[test]
fn log_ok_keys_by_the_cleaned_url() {
    let mut c = AccessCounter::new();
    c.log_ok("GET", "/json/url/NOPE", 404);
    assert_eq!(c.get("method=\"GET\",url=\"/json/url\",status_code=\"404\""), 1);
}

#[test]
fn log_err_always_uses_status_500() {
    let mut c = AccessCounter::new();
    c.log_err("POST", "/json/add");
    assert_eq!(c.get("method=\"POST\",url=\"/json/add\",status_code=\"500\""), 1);
}

#[test]
fn access_log_line_matches_the_documented_format() {
    let line = access_log_line(
        "10.0.0.1",
        2,
        345,
        "01/02/2021:10:20:30.000001",
        "GET",
        "/json/countries?x=1",
        200,
        "-",
        "agent",
    );
    assert_eq!(
        line,
        "10.0.0.1 2,000000345 - [01/02/2021:10:20:30.000001] \"GET /json/countries?x=1\" 200 0 \"-\" \"agent\""
    );
}

#[test]
fn access_err_line_ends_with_the_bare_status() {
    let line = access_err_line("10.0.0.1", 0, 7, "ts", "GET", "/x");
    assert_eq!(line, "10.0.0.1 0,000000007 - [ts] \"GET /x\" 500");
}
