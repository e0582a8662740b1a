use radio_api::urlclean::clean_url;

#[test]
fn clean_url_drops_uuid_tail_on_four_slashes() {
    assert_eq!(clean_url("/json/stations/byuuid/XXXX").unwrap(), "/json/stations/byuuid");
}

#[test]
fn clean_url_keeps_three_slash_station_paths() {
    assert_eq!(clean_url("/json/stations/topvote").unwrap(), "/json/stations/topvote");
}

#[test]
fn clean_url_drops_tail_on_three_slashes_outside_stations() {
    assert_eq!(clean_url("/json/vote/YYYY").unwrap(), "/json/vote");
}

#[test]
fn clean_url_strips_query_string() {
    assert_eq!(clean_url("/json/countries?order=name&reverse=true").unwrap(), "/json/countries");
}

#[test]
fn clean_url_keeps_short_paths() {
    assert_eq!(clean_url("/metrics").unwrap(), "/metrics");
    assert_eq!(clean_url("/json/countries").unwrap(), "/json/countries");
}
