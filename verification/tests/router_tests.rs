use std::cell::Cell;
use std::cell::RefCell;

use radio_api::cache::{CacheType, GenericCache, GenericCacheType};
use radio_api::counter::AccessCounter;
use radio_api::data::{
    ExtraInfo, State, StationCheck, StationClick, StationHistoryCurrent, StationItem,
};
use radio_api::error::ApiError;
use radio_api::response::{add_cors, ApiResponse, HttpBody, HttpResponse};
use radio_api::router::{Config, DataStore};
use radio_api::params::RequestParameters;
use radio_api::server::{
    complete_response, handle_cached_connection, respond_api, HandleOutcome, RequestInfo,
};

#[derive(Default)]
struct FakeStore {
    stations: Vec<StationItem>,
    list_calls: Cell<u32>,
    add_calls: Cell<u32>,
    vote_calls: Cell<u32>,
    click_calls: Cell<u32>,
    last_search: RefCell<Option<String>>,
    last_limit: Cell<u32>,
}

impl DataStore for FakeStore {
    fn get_extra(
        &self,
        _table: &str,
        _column: &str,
        _filter: Option<String>,
        _order: String,
        _reverse: bool,
        _hidebroken: bool,
    ) -> Result<Vec<ExtraInfo>, ApiError> {
        self.list_calls.set(self.list_calls.get() + 1);
        Ok(Vec::new())
    }

    fn get_1_n(
        &self,
        _column: &str,
        _filter: Option<String>,
        _order: String,
        _reverse: bool,
        _hidebroken: bool,
    ) -> Result<Vec<ExtraInfo>, ApiError> {
        self.list_calls.set(self.list_calls.get() + 1);
        Ok(Vec::new())
    }

    fn get_states(
        &self,
        _country: Option<String>,
        _filter: Option<String>,
        _order: String,
        _reverse: bool,
        _hidebroken: bool,
    ) -> Result<Vec<State>, ApiError> {
        Ok(Vec::new())
    }

    fn get_stations_by_all(
        &self,
        _order: &str,
        _reverse: bool,
        _hidebroken: bool,
        _offset: u32,
        _limit: u32,
    ) -> Result<Vec<StationItem>, ApiError> {
        Ok(self.stations.clone())
    }

    fn get_stations_topvote(&self, limit: u32) -> Result<Vec<StationItem>, ApiError> {
        self.last_limit.set(limit);
        Ok(self.stations.clone())
    }

    fn get_stations_topclick(&self, _limit: u32) -> Result<Vec<StationItem>, ApiError> {
        Ok(self.stations.clone())
    }

    fn get_stations_lastclick(&self, _limit: u32) -> Result<Vec<StationItem>, ApiError> {
        Ok(self.stations.clone())
    }

    fn get_stations_lastchange(&self, _limit: u32) -> Result<Vec<StationItem>, ApiError> {
        Ok(self.stations.clone())
    }

    fn get_stations_broken(&self, _limit: u32) -> Result<Vec<StationItem>, ApiError> {
        Ok(self.stations.clone())
    }

    fn get_stations_improvable(&self, _limit: u32) -> Result<Vec<StationItem>, ApiError> {
        Ok(self.stations.clone())
    }

    fn get_stations_by_column(
        &self,
        _column: &str,
        search: String,
        _exact: bool,
        _order: &str,
        _reverse: bool,
        _hidebroken: bool,
        _offset: u32,
        _limit: u32,
    ) -> Result<Vec<StationItem>, ApiError> {
        *self.last_search.borrow_mut() = Some(search);
        Ok(self.stations.clone())
    }

    fn get_stations_by_column_multiple(
        &self,
        _column: &str,
        _search: Option<String>,
        _exact: bool,
        _order: &str,
        _reverse: bool,
        _hidebroken: bool,
        _offset: u32,
        _limit: u32,
    ) -> Result<Vec<StationItem>, ApiError> {
        Ok(self.stations.clone())
    }

    fn get_stations_advanced(
        &self,
        _name: Option<String>,
        _name_exact: bool,
        _country: Option<String>,
        _country_exact: bool,
        _countrycode: Option<String>,
        _state: Option<String>,
        _state_exact: bool,
        _language: Option<String>,
        _language_exact: bool,
        _tag: Option<String>,
        _tag_exact: bool,
        _tag_list: Vec<String>,
        _codec: Option<String>,
        _bitrate_min: u32,
        _bitrate_max: u32,
        _order: &str,
        _reverse: bool,
        _hidebroken: bool,
        _offset: u32,
        _limit: u32,
    ) -> Result<Vec<StationItem>, ApiError> {
        Ok(self.stations.clone())
    }

    fn get_changes(
        &self,
        _stationuuid: Option<String>,
        _changeuuid: Option<String>,
    ) -> Result<Vec<StationHistoryCurrent>, ApiError> {
        Ok(Vec::new())
    }

    fn get_checks(
        &self,
        _stationuuid: Option<String>,
        _checkuuid: Option<String>,
        _seconds: u32,
        _exact: bool,
    ) -> Result<Vec<StationCheck>, ApiError> {
        Ok(Vec::new())
    }

    fn get_clicks(
        &self,
        _stationuuid: Option<String>,
        _clickuuid: Option<String>,
        _seconds: u32,
    ) -> Result<Vec<StationClick>, ApiError> {
        Ok(Vec::new())
    }

    fn get_station_by_uuid(&self, uuid: &str) -> Result<Vec<StationItem>, ApiError> {
        Ok(self.stations.iter().filter(|s| s.stationuuid == uuid).cloned().collect())
    }

    fn vote_for_station(
        &self,
        _ip: &str,
        station: Option<StationItem>,
    ) -> Result<String, ApiError> {
        self.vote_calls.set(self.vote_calls.get() + 1);
        match station {
            Some(_) => Ok("voted for station successfully".to_string()),
            None => Err(ApiError::DataStoreError("could not find station".to_string())),
        }
    }

    fn increase_clicks(
        &self,
        _ip: &str,
        _station: &StationItem,
        _seconds: u64,
    ) -> Result<(), ApiError> {
        self.click_calls.set(self.click_calls.get() + 1);
        Ok(())
    }

    fn add_station_opt(
        &self,
        _name: Option<String>,
        _url: Option<String>,
        _homepage: Option<String>,
        _favicon: Option<String>,
        _country: Option<String>,
        _countrycode: Option<String>,
        _state: Option<String>,
        _language: Option<String>,
        _tags: Option<String>,
    ) -> Result<String, ApiError> {
        self.add_calls.set(self.add_calls.get() + 1);
        Ok("new-uuid".to_string())
    }

    fn get_station_count_working(&self) -> Result<u64, ApiError> {
        Ok(0)
    }

    fn get_station_count_broken(&self) -> Result<u64, ApiError> {
        Ok(0)
    }

    fn get_tag_count(&self) -> Result<u64, ApiError> {
        Ok(0)
    }

    fn get_click_count_last_hour(&self) -> Result<u64, ApiError> {
        Ok(0)
    }

    fn get_click_count_last_day(&self) -> Result<u64, ApiError> {
        Ok(0)
    }

    fn get_language_count(&self) -> Result<u64, ApiError> {
        Ok(0)
    }

    fn get_country_count(&self) -> Result<u64, ApiError> {
        Ok(0)
    }
}

fn test_config(exporter: bool) -> Config {
    Config {
        listen_host: "127.0.0.1".to_string(),
        listen_port: 8080,
        threads: 1,
        server_url: "http://localhost".to_string(),
        log_dir: ".".to_string(),
        static_files_dir: "static".to_string(),
        cache_type: CacheType::BuiltIn,
        cache_url: String::new(),
        cache_ttl: 60,
        click_valid_timeout: 3600,
        prometheus_exporter: exporter,
        prometheus_exporter_prefix: "radio".to_string(),
        broken_stations_timeout: 3600,
        broken_stations_never_working_timeout: 3600,
    }
}

fn request(method: &str, url: &str, pairs: &[(&str, &str)], now: u64) -> RequestInfo {
    RequestInfo {
        method: method.to_string(),
        raw_url: url.to_string(),
        x_forwarded_host: None,
        host: Some("api.example".to_string()),
        content_type_header: None,
        x_forwarded_for: None,
        peer_ip: "127.0.0.1".to_string(),
        params: RequestParameters::new(
            pairs.iter().map(|(k, v)| (k.to_string(), v.to_string())).collect(),
        ),
        now,
    }
}

fn header<'a>(r: &'a HttpResponse, name: &str) -> Option<&'a str> {
    r.headers.iter().find(|(n, _)| n == name).map(|(_, v)| v.as_str())
}

fn body_text(r: &HttpResponse) -> &str {
    match &r.body {
        HttpBody::Text(t) => t.as_str(),
        HttpBody::FilePath(_) => panic!("expected a text body"),
    }
}

fn run(
    store: &FakeStore,
    req: &RequestInfo,
    exporter: bool,
    clicks: &mut u64,
    cache: &mut GenericCache,
) -> HttpResponse {
    let config = test_config(exporter);
    match handle_cached_connection(store, req, &config, clicks, cache, "2.0").unwrap() {
        HandleOutcome::Done(resp) => add_cors(resp),
        HandleOutcome::Needs { .. } => panic!("expected a finished response"),
    }
}

fn fresh_cache() -> GenericCache {
    GenericCache::new(GenericCacheType::BuiltIn, String::new(), 60)
}

#[test]
fn countries_with_empty_store_yields_empty_json_array() {
    let store = FakeStore::default();
    let mut clicks: u64 = 0;
    let mut cache = fresh_cache();
    let req = request("GET", "/json/countries", &[], 100);
    let resp = run(&store, &req, false, &mut clicks, &mut cache);
    assert_eq!(resp.status, 200);
    assert_eq!(body_text(&resp), "[]");
    assert_eq!(header(&resp, "Content-Type"), Some("application/json"));
}

#[test]
fn byuuid_without_match_yields_empty_json_array() {
    let store = FakeStore::default();
    let mut clicks: u64 = 0;
    let mut cache = fresh_cache();
    let req = request("GET", "/json/stations/byuuid/NOPE", &[], 100);
    let resp = run(&store, &req, false, &mut clicks, &mut cache);
    assert_eq!(resp.status, 200);
    assert_eq!(body_text(&resp), "[]");
}

#[test]
fn url_without_match_yields_404_and_counter_increment() {
    let store = FakeStore::default();
    let mut clicks: u64 = 0;
    let mut cache = fresh_cache();
    let req = request("GET", "/json/url/NOPE", &[], 100);
    let resp = run(&store, &req, false, &mut clicks, &mut cache);
    assert_eq!(resp.status, 404);
    assert_eq!(clicks, 0);
    let mut counter = AccessCounter::new();
    counter.log_ok("GET", "/json/url/NOPE", resp.status);
    assert_eq!(counter.get("method=\"GET\",url=\"/json/url\",status_code=\"404\""), 1);
}

#[test]
fn options_yields_204_with_cors_and_no_body() {
    let store = FakeStore::default();
    let mut clicks: u64 = 0;
    let mut cache = fresh_cache();
    let req = request("OPTIONS", "/anything", &[], 100);
    let resp = run(&store, &req, false, &mut clicks, &mut cache);
    assert_eq!(resp.status, 204);
    assert_eq!(body_text(&resp), "");
    assert_eq!(header(&resp, "Access-Control-Allow-Origin"), Some("*"));
    assert_eq!(
        header(&resp, "Access-Control-Allow-Headers"),
        Some("origin, x-requested-with, content-type")
    );
    assert_eq!(header(&resp, "Access-Control-Allow-Methods"), Some("GET,POST"));
}

#[test]
fn unknown_method_yields_404_with_cors() {
    let store = FakeStore::default();
    let mut clicks: u64 = 0;
    let mut cache = fresh_cache();
    let req = request("PUT", "/json/countries", &[], 100);
    let resp = run(&store, &req, false, &mut clicks, &mut cache);
    assert_eq!(resp.status, 404);
    assert_eq!(header(&resp, "Access-Control-Allow-Origin"), Some("*"));
}

#[test]
fn metrics_with_exporter_disabled_yields_423_with_body() {
    let store = FakeStore::default();
    let mut clicks: u64 = 0;
    let mut cache = fresh_cache();
    let req = request("GET", "/metrics", &[], 100);
    let resp = run(&store, &req, false, &mut clicks, &mut cache);
    assert_eq!(resp.status, 423);
    assert_eq!(body_text(&resp), "Exporter not enabled!");
    // The locked answer is flagged cacheable, but only encoded text
    // bodies are ever deposited: the second probe is computed again.
    let resp2 = run(&store, &req, false, &mut clicks, &mut cache);
    assert_eq!(resp2.status, 423);
    assert_eq!(body_text(&resp2), "Exporter not enabled!");
}

#[test]
fn add_is_never_cached_and_reaches_the_store_each_time() {
    let store = FakeStore::default();
    let mut clicks: u64 = 0;
    let mut cache = fresh_cache();
    let req = request("POST", "/json/add", &[("name", "X"), ("url", "http://x")], 100);
    let resp = run(&store, &req, false, &mut clicks, &mut cache);
    assert_eq!(resp.status, 200);
    assert_eq!(
        body_text(&resp),
        "{\"ok\":true,\"message\":\"added station successfully\",\"uuid\":\"new-uuid\"}"
    );
    let resp2 = run(&store, &req, false, &mut clicks, &mut cache);
    assert_eq!(store.add_calls.get(), 2);
    assert_eq!(body_text(&resp2), body_text(&resp));
}

#[test]
fn list_endpoints_deposit_once_and_are_served_from_the_cache() {
    let store = FakeStore::default();
    let mut clicks: u64 = 0;
    let mut cache = fresh_cache();
    let req = request("GET", "/json/countries", &[], 100);
    let first = run(&store, &req, false, &mut clicks, &mut cache);
    assert_eq!(store.list_calls.get(), 1);
    let second = run(&store, &req, false, &mut clicks, &mut cache);
    assert_eq!(store.list_calls.get(), 1);
    assert_eq!(body_text(&second), body_text(&first));
}

#[test]
fn cached_entries_expire_with_the_janitor_sweep() {
    let store = FakeStore::default();
    let mut clicks: u64 = 0;
    let mut cache = fresh_cache();
    let req = request("GET", "/json/countries", &[], 100);
    run(&store, &req, false, &mut clicks, &mut cache);
    cache.cleanup(200);
    let late = request("GET", "/json/countries", &[], 200);
    run(&store, &late, false, &mut clicks, &mut cache);
    assert_eq!(store.list_calls.get(), 2);
}

#[test]
fn path_segments_are_percent_decoded_before_dispatch() {
    let store = FakeStore::default();
    let mut clicks: u64 = 0;
    let mut cache = fresh_cache();
    let req = request("GET", "/json/stations/byname/He%20llo", &[], 100);
    run(&store, &req, false, &mut clicks, &mut cache);
    assert_eq!(store.last_search.borrow().as_deref(), Some("He llo"));
}

#[test]
fn unknown_format_yields_406() {
    let store = FakeStore::default();
    let mut clicks: u64 = 0;
    let mut cache = fresh_cache();
    let req = request("GET", "/foo/countries", &[], 100);
    let resp = run(&store, &req, false, &mut clicks, &mut cache);
    assert_eq!(resp.status, 406);
}

#[test]
fn play_url_records_the_click_and_returns_the_station() {
    let store = FakeStore {
        stations: vec![StationItem {
            stationuuid: "u1".to_string(),
            name: "One".to_string(),
            url: "http://one.example/stream".to_string(),
        }],
        ..FakeStore::default()
    };
    let mut clicks: u64 = 0;
    let mut cache = fresh_cache();
    let req = request("GET", "/json/url/u1", &[], 100);
    let resp = run(&store, &req, false, &mut clicks, &mut cache);
    assert_eq!(resp.status, 200);
    assert_eq!(clicks, 1);
    assert_eq!(store.click_calls.get(), 1);
    assert_eq!(
        body_text(&resp),
        "{\"ok\":true,\"message\":\"retrieved station url\",\"stationuuid\":\"u1\",\"name\":\"One\",\"url\":\"http://one.example/stream\"}"
    );
}

#[test]
fn deprecated_v2_url_shape_still_resolves() {
    let store = FakeStore {
        stations: vec![StationItem {
            stationuuid: "u1".to_string(),
            name: "One".to_string(),
            url: "http://one.example/stream".to_string(),
        }],
        ..FakeStore::default()
    };
    let mut clicks: u64 = 0;
    let mut cache = fresh_cache();
    let req = request("GET", "/v2/json/url/u1", &[], 100);
    let resp = run(&store, &req, false, &mut clicks, &mut cache);
    assert_eq!(resp.status, 200);
    assert_eq!(clicks, 1);
}

#[test]
fn vote_wraps_the_outcome_in_the_body() {
    let store = FakeStore::default();
    let mut clicks: u64 = 0;
    let mut cache = fresh_cache();
    let req = request("GET", "/json/vote/NOPE", &[], 100);
    let resp = run(&store, &req, false, &mut clicks, &mut cache);
    assert_eq!(resp.status, 200);
    assert_eq!(body_text(&resp), "{\"ok\":false,\"message\":\"could not find station\"}");
    assert_eq!(store.vote_calls.get(), 1);
}

#[test]
fn five_segment_limit_is_parsed_with_zero_fallback() {
    let store = FakeStore::default();
    let mut clicks: u64 = 0;
    let mut cache = fresh_cache();
    let req = request("GET", "/json/stations/topvote/25", &[], 100);
    run(&store, &req, false, &mut clicks, &mut cache);
    assert_eq!(store.last_limit.get(), 25);
    let bad = request("GET", "/json/stations/topvote/abc", &[], 100);
    run(&store, &bad, false, &mut clicks, &mut cache);
    assert_eq!(store.last_limit.get(), 0);
}

#[test]
fn external_outcomes_flow_back_through_respond_api() {
    let mut cache = fresh_cache();
    let page = ApiResponse::Text("text/html".to_string(), "<html></html>".to_string());
    let resp = add_cors(respond_api("key", false, page, &mut cache, 100, "nothing"));
    assert_eq!(resp.status, 200);
    assert_eq!(body_text(&resp), "<html></html>");
    assert_eq!(header(&resp, "Content-Type"), Some("text/html"));
    assert_eq!(header(&resp, "Cache-Control"), Some("no-cache, no-store, must-revalidate"));
    assert_eq!(cache.get("key", 100), None);
}

#[test]
fn pipeline_errors_become_500_with_cors() {
    let resp = complete_response(Err(radio_api::error::ApiError::DataStoreError(
        "backend gone".to_string(),
    )));
    assert_eq!(resp.status, 500);
    assert_eq!(body_text(&resp), "backend gone");
    assert_eq!(header(&resp, "Access-Control-Allow-Origin"), Some("*"));
    assert_eq!(header(&resp, "Access-Control-Allow-Methods"), Some("GET,POST"));
}

#[test]
fn cache_hits_are_served_as_plain_text() {
    let store = FakeStore::default();
    let mut clicks: u64 = 0;
    let mut cache = fresh_cache();
    let req = request("GET", "/json/countries", &[], 100);
    let first = run(&store, &req, false, &mut clicks, &mut cache);
    assert_eq!(header(&first, "Content-Type"), Some("application/json"));
    let second = run(&store, &req, false, &mut clicks, &mut cache);
    // A hit carries the transport's plain-text type unless the client
    // hint overrides it.
    assert_eq!(header(&second, "Content-Type"), Some("text/plain; charset=utf-8"));
    assert_eq!(body_text(&second), body_text(&first));
}

#[test]
fn non_cacheable_text_carries_the_no_cache_marker() {
    let store = FakeStore::default();
    let mut clicks: u64 = 0;
    let mut cache = fresh_cache();
    let req = request("GET", "/json/vote/NOPE", &[], 100);
    let resp = run(&store, &req, false, &mut clicks, &mut cache);
    assert_eq!(
        header(&resp, "Cache-Control"),
        Some("no-cache, no-store, must-revalidate")
    );
}

#[test]
fn playlist_hint_adds_the_download_name() {
    let store = FakeStore::default();
    let mut clicks: u64 = 0;
    let mut cache = fresh_cache();
    let mut req = request("GET", "/json/countries", &[], 100);
    req.content_type_header = Some("m3u".to_string());
    let resp = run(&store, &req, false, &mut clicks, &mut cache);
    assert_eq!(header(&resp, "Content-Type"), Some("audio/mpegurl"));
    assert_eq!(
        header(&resp, "Content-Disposition"),
        Some("inline; filename=\"playlist.m3u\"")
    );
}

#[test]
fn content_type_hint_overrides_last() {
    let store = FakeStore::default();
    let mut clicks: u64 = 0;
    let mut cache = fresh_cache();
    let mut req = request("GET", "/json/countries", &[], 100);
    req.content_type_header = Some("xml; charset=utf-8".to_string());
    let resp = run(&store, &req, false, &mut clicks, &mut cache);
    assert_eq!(header(&resp, "Content-Type"), Some("text/xml"));
}
