//! The URL-to-operation router: path segments are percent-decoded and
//! dispatch goes by segment count and fixed keyword segments, yielding
//! the endpoint's response together with its cacheable flag.

use vstd::prelude::*;
use crate::cache::CacheType;
use crate::data::ExtraInfo;
use crate::data::State;
use crate::data::StationCheck;
use crate::data::StationClick;
use crate::data::StationHistoryCurrent;
use crate::data::StationItem;
use crate::data::Status;
use crate::data::add_result_from;
use crate::data::extract_cached_info;
use crate::data::json_add_result;
use crate::data::json_cached_info;
use crate::data::json_change_list;
use crate::data::json_check_list;
use crate::data::json_click_list;
use crate::data::json_extra_list;
use crate::data::json_message;
use crate::data::json_of_add_result;
use crate::data::json_of_change_list;
use crate::data::json_of_check_list;
use crate::data::json_of_click_list;
use crate::data::json_of_extra_list;
use crate::data::json_of_message_parts;
use crate::data::json_of_state_list;
use crate::data::json_of_station_list;
use crate::data::json_of_status;
use crate::data::json_state_list;
use crate::data::json_station_list;
use crate::data::json_status;
use crate::data::xml_status;
use crate::data::m3u_of_station_list;
use crate::data::m3u_station_list;
use crate::data::pls_of_station_list;
use crate::data::pls_station_list;
use crate::data::xml_change_list;
use crate::data::xml_check_list;
use crate::data::xml_click_list;
use crate::data::xml_extra_list;
use crate::data::xml_message;
use crate::data::xml_cached_info;
use crate::data::xml_add_result;
use crate::data::xml_of_add_result;
use crate::data::xml_of_change_list;
use crate::data::xml_of_check_list;
use crate::data::xml_of_click_list;
use crate::data::xml_of_extra_list;
use crate::data::xml_of_message_parts;
use crate::data::xml_of_state_list;
use crate::data::xml_of_station_list;
use crate::data::xml_of_status;
use crate::data::xml_state_list;
use crate::data::xml_station_list;
use crate::data::ResultMessage;
use crate::data::ServerEntry;
use crate::data::StationAddResult;
use crate::data::json_of_server_list;
use crate::data::json_server_list;
use crate::data::json_of_cached_info_parts;
use crate::data::xml_of_cached_info_parts;
use crate::encode::json_bool;
use crate::encode::json_bool_str;
use crate::encode::json_quote;
use crate::encode::json_str;
use crate::encode::xml_attr;
use crate::encode::xml_attr_append;
use crate::encode::dec_u64;
use crate::strutil::spec_dec;
use crate::decode::percent_decode_segment;
use crate::decode::percent_decoded;
use crate::error::ApiError;
use crate::counter::bump;
use crate::params::AllParameters;
use crate::response::ApiResponse;
use crate::strutil::find_char_from;
use crate::strutil::index_of_from;
use crate::strutil::parse_u32;
use crate::strutil::split_seq;
use crate::strutil::split_str;
use crate::strutil::str_eq;

verus! {

/// What the core consumes from its environment.
#[derive(Clone)]
pub struct Config {
    pub listen_host: String,
    pub listen_port: u32,
    pub threads: u32,
    pub server_url: String,
    pub log_dir: String,
    pub static_files_dir: String,
    pub cache_type: CacheType,
    pub cache_url: String,
    pub cache_ttl: u64,
    pub click_valid_timeout: u64,
    pub prometheus_exporter: bool,
    pub prometheus_exporter_prefix: String,
    pub broken_stations_timeout: u64,
    pub broken_stations_never_working_timeout: u64,
}

/// The data-access facade the router depends on.  Implementations live
/// outside this crate; tests substitute an in-memory fake.
pub trait DataStore {
    fn get_extra(
        &self,
        table: &str,
        column: &str,
        filter: Option<String>,
        order: String,
        reverse: bool,
        hidebroken: bool,
    ) -> Result<Vec<ExtraInfo>, ApiError>;

    fn get_1_n(
        &self,
        column: &str,
        filter: Option<String>,
        order: String,
        reverse: bool,
        hidebroken: bool,
    ) -> Result<Vec<ExtraInfo>, ApiError>;

    fn get_states(
        &self,
        country: Option<String>,
        filter: Option<String>,
        order: String,
        reverse: bool,
        hidebroken: bool,
    ) -> Result<Vec<State>, ApiError>;

    fn get_stations_by_all(
        &self,
        order: &str,
        reverse: bool,
        hidebroken: bool,
        offset: u32,
        limit: u32,
    ) -> Result<Vec<StationItem>, ApiError>;

    fn get_stations_topvote(&self, limit: u32) -> Result<Vec<StationItem>, ApiError>;

    fn get_stations_topclick(&self, limit: u32) -> Result<Vec<StationItem>, ApiError>;

    fn get_stations_lastclick(&self, limit: u32) -> Result<Vec<StationItem>, ApiError>;

    fn get_stations_lastchange(&self, limit: u32) -> Result<Vec<StationItem>, ApiError>;

    fn get_stations_broken(&self, limit: u32) -> Result<Vec<StationItem>, ApiError>;

    fn get_stations_improvable(&self, limit: u32) -> Result<Vec<StationItem>, ApiError>;

    fn get_stations_by_column(
        &self,
        column: &str,
        search: String,
        exact: bool,
        order: &str,
        reverse: bool,
        hidebroken: bool,
        offset: u32,
        limit: u32,
    ) -> Result<Vec<StationItem>, ApiError>;

    fn get_stations_by_column_multiple(
        &self,
        column: &str,
        search: Option<String>,
        exact: bool,
        order: &str,
        reverse: bool,
        hidebroken: bool,
        offset: u32,
        limit: u32,
    ) -> Result<Vec<StationItem>, ApiError>;

    fn get_stations_advanced(
        &self,
        name: Option<String>,
        name_exact: bool,
        country: Option<String>,
        country_exact: bool,
        countrycode: Option<String>,
        state: Option<String>,
        state_exact: bool,
        language: Option<String>,
        language_exact: bool,
        tag: Option<String>,
        tag_exact: bool,
        tag_list: Vec<String>,
        codec: Option<String>,
        bitrate_min: u32,
        bitrate_max: u32,
        order: &str,
        reverse: bool,
        hidebroken: bool,
        offset: u32,
        limit: u32,
    ) -> Result<Vec<StationItem>, ApiError>;

    fn get_changes(
        &self,
        stationuuid: Option<String>,
        changeuuid: Option<String>,
    ) -> Result<Vec<StationHistoryCurrent>, ApiError>;

    fn get_checks(
        &self,
        stationuuid: Option<String>,
        checkuuid: Option<String>,
        seconds: u32,
        exact: bool,
    ) -> Result<Vec<StationCheck>, ApiError>;

    fn get_clicks(
        &self,
        stationuuid: Option<String>,
        clickuuid: Option<String>,
        seconds: u32,
    ) -> Result<Vec<StationClick>, ApiError>;

    fn get_station_by_uuid(&self, uuid: &str) -> Result<Vec<StationItem>, ApiError>;

    fn vote_for_station(&self, ip: &str, station: Option<StationItem>) -> Result<
        String,
        ApiError,
    >;

    fn increase_clicks(&self, ip: &str, station: &StationItem, seconds: u64) -> Result<
        (),
        ApiError,
    >;

    fn add_station_opt(
        &self,
        name: Option<String>,
        url: Option<String>,
        homepage: Option<String>,
        favicon: Option<String>,
        country: Option<String>,
        countrycode: Option<String>,
        state: Option<String>,
        language: Option<String>,
        tags: Option<String>,
    ) -> Result<String, ApiError>;

    fn get_station_count_working(&self) -> Result<u64, ApiError>;

    fn get_station_count_broken(&self) -> Result<u64, ApiError>;

    fn get_tag_count(&self) -> Result<u64, ApiError>;

    fn get_click_count_last_hour(&self) -> Result<u64, ApiError>;

    fn get_click_count_last_day(&self) -> Result<u64, ApiError>;

    fn get_language_count(&self) -> Result<u64, ApiError>;

    fn get_country_count(&self) -> Result<u64, ApiError>;
}

/// Work the router decided on but cannot perform itself: the
/// application fulfils the task and hands the outcome back.
pub enum ExternalTask {
    /// Render the metrics-exporter page.
    MetricsRender,
    /// Render the documentation page for the given base URL.
    DocsPage { base_url: String },
    /// Render the health snapshot as an HTML page.
    StatsHtml { status: Status },
    /// Discover the peer servers over DNS and encode them in the given
    /// format.
    ServersList { format: String },
}

/// What the router produced: a finished response, or an external task
/// together with the endpoint's cacheable flag.
pub enum RouteOutcome {
    Done(bool, ApiResponse),
    Needs(bool, ExternalTask),
}

impl RouteOutcome {
    /// The endpoint's cacheable flag.
    pub open spec fn spec_cacheable_flag(self) -> bool {
        match self {
            RouteOutcome::Done(c, _) => c,
            RouteOutcome::Needs(c, _) => c,
        }
    }
}

/// The URL up to its query string.
pub open spec fn url_path(url: Seq<char>) -> Seq<char> {
    url.subrange(0, index_of_from(url, '?', 0))
}

/// The percent-decoded path segments the router dispatches on.
pub open spec fn url_items(url: Seq<char>) -> Seq<Seq<char>> {
    split_seq(url_path(url), '/').map_values(|p: Seq<char>| percent_decoded(p))
}

/// The per-endpoint cacheable policy: mutating endpoints and pages
/// rendered per request are not cacheable; list endpoints are.
pub open spec fn spec_cacheable(items: Seq<Seq<char>>, exporter_enabled: bool) -> bool {
    if items.len() == 2 {
        if items[1] == "metrics"@ {
            !exporter_enabled
        } else if items[1] == "favicon.ico"@ || items[1] == "robots.txt"@ || items[1]
            == "main.css"@ {
            true
        } else {
            false
        }
    } else if items.len() == 3 {
        items[2] != "add"@
    } else if items.len() == 4 {
        items[2] != "vote"@ && items[2] != "url"@
    } else if items.len() == 5 {
        items[1] != "v2"@
    } else {
        true
    }
}

/// The mutating endpoints are never cacheable: a submission, a vote or
/// a play-URL request always reaches the data store.
pub proof fn lemma_mutating_not_cacheable(items: Seq<Seq<char>>, exporter_enabled: bool)
    ensures
        items.len() == 3 && items[2] == "add"@ ==> !spec_cacheable(items, exporter_enabled),
        items.len() == 4 && (items[2] == "vote"@ || items[2] == "url"@) ==> !spec_cacheable(
            items,
            exporter_enabled,
        ),
{
}

/// The format keywords are pairwise distinct character sequences.
pub proof fn lemma_format_literals()
    ensures
        "json"@ != "xml"@,
        "json"@ != "m3u"@,
        "json"@ != "pls"@,
        "xml"@ != "m3u"@,
        "xml"@ != "pls"@,
        "m3u"@ != "pls"@,
{
    reveal_strlit("json");
    reveal_strlit("xml");
    reveal_strlit("m3u");
    reveal_strlit("pls");
    assert("json"@.len() == 4);
    assert("xml"@.len() == 3);
    assert("m3u"@.len() == 3);
    assert("pls"@.len() == 3);
    assert("xml"@[0] == 'x');
    assert("m3u"@[0] == 'm');
    assert("pls"@[0] == 'p');
}

/// Whether `r` is a text response with the given content type and body.
pub open spec fn text_resp(r: ApiResponse, ct: Seq<char>, body: Seq<char>) -> bool {
    r matches ApiResponse::Text(c, b) && c@ == ct && b@ == body
}

/// Keeps a lookup result only when it is unambiguous: one row.  Zero
/// rows and two or more are both treated as not found.
pub fn get_only_first_item(mut stations: Vec<StationItem>) -> (r: Option<StationItem>)
    ensures
        stations@.len() == 1 ==> (r matches Some(st) && st == stations@[0]),
        stations@.len() != 1 ==> r is None,
{
    if stations.len() == 1 {
        stations.pop()
    } else {
        None
    }
}

/// Gathers the health snapshot from the data store.  The caller passes
/// the software version to report.
pub fn get_status<A: DataStore>(connection_new: &A, version: &str) -> (r: Result<
    Status,
    ApiError,
>)
    ensures
        r matches Ok(s) ==> s.supported_version == 1 && s.spec_software_version()
            == Option::Some(version@) && s.status@ == "OK"@,
{
    let stations = match connection_new.get_station_count_working() {
        Ok(v) => v,
        Err(e) => {
            return Err(e);
        },
    };
    let stations_broken = match connection_new.get_station_count_broken() {
        Ok(v) => v,
        Err(e) => {
            return Err(e);
        },
    };
    let tags = match connection_new.get_tag_count() {
        Ok(v) => v,
        Err(e) => {
            return Err(e);
        },
    };
    let clicks_last_hour = match connection_new.get_click_count_last_hour() {
        Ok(v) => v,
        Err(e) => {
            return Err(e);
        },
    };
    let clicks_last_day = match connection_new.get_click_count_last_day() {
        Ok(v) => v,
        Err(e) => {
            return Err(e);
        },
    };
    let languages = match connection_new.get_language_count() {
        Ok(v) => v,
        Err(e) => {
            return Err(e);
        },
    };
    let countries = match connection_new.get_country_count() {
        Ok(v) => v,
        Err(e) => {
            return Err(e);
        },
    };
    Ok(
        Status::new(
            1,
            Some(version.to_owned()),
            "OK".to_owned(),
            stations,
            stations_broken,
            tags,
            clicks_last_hour,
            clicks_last_day,
            languages,
            countries,
        ),
    )
}

/// Names a static asset for the application to stream; a missing file
/// becomes the not-found response outside this crate.
pub fn send_file(path: &str, content_type: &str) -> (r: ApiResponse)
    ensures
        r matches ApiResponse::File(ct, p) && ct@ == content_type@ && p@ == path@,
{
    ApiResponse::File(content_type.to_owned(), path.to_owned())
}

/// Encodes an aggregate-row list in the requested format.
pub fn encode_extra(list: Vec<ExtraInfo>, format: &str, tag_name: &str) -> (r: ApiResponse)
    ensures
        format@ == "json"@ ==> text_resp(r, "application/json"@, json_of_extra_list(list@)),
        format@ == "xml"@ ==> text_resp(r, "text/xml"@, xml_of_extra_list(list@, tag_name@)),
        format@ != "json"@ && format@ != "xml"@ ==> r is UnknownContentType,
{
    proof {
        lemma_format_literals();
    }
    if str_eq(format, "json") {
        ApiResponse::Text("application/json".to_owned(), json_extra_list(&list))
    } else if str_eq(format, "xml") {
        ApiResponse::Text("text/xml".to_owned(), xml_extra_list(&list, tag_name))
    } else {
        ApiResponse::UnknownContentType
    }
}

/// Encodes a state list in the requested format.
pub fn encode_states(list: Vec<State>, format: &str) -> (r: ApiResponse)
    ensures
        format@ == "json"@ ==> text_resp(r, "application/json"@, json_of_state_list(list@)),
        format@ == "xml"@ ==> text_resp(r, "text/xml"@, xml_of_state_list(list@)),
        format@ != "json"@ && format@ != "xml"@ ==> r is UnknownContentType,
{
    proof {
        lemma_format_literals();
    }
    if str_eq(format, "json") {
        ApiResponse::Text("application/json".to_owned(), json_state_list(&list))
    } else if str_eq(format, "xml") {
        ApiResponse::Text("text/xml".to_owned(), xml_state_list(&list))
    } else {
        ApiResponse::UnknownContentType
    }
}

/// Encodes a station list in the requested format, playlists included.
pub fn encode_stations(list: Vec<StationItem>, format: &str) -> (r: ApiResponse)
    ensures
        format@ == "json"@ ==> text_resp(r, "application/json"@, json_of_station_list(list@)),
        format@ == "xml"@ ==> text_resp(r, "text/xml"@, xml_of_station_list(list@)),
        format@ == "m3u"@ ==> text_resp(r, "audio/mpegurl"@, m3u_of_station_list(list@)),
        format@ == "pls"@ ==> text_resp(r, "audio/x-scpls"@, pls_of_station_list(list@)),
        format@ != "json"@ && format@ != "xml"@ && format@ != "m3u"@ && format@ != "pls"@ ==> r
            is UnknownContentType,
{
    proof {
        lemma_format_literals();
    }
    if str_eq(format, "json") {
        ApiResponse::Text("application/json".to_owned(), json_station_list(&list))
    } else if str_eq(format, "xml") {
        ApiResponse::Text("text/xml".to_owned(), xml_station_list(&list))
    } else if str_eq(format, "m3u") {
        ApiResponse::Text("audio/mpegurl".to_owned(), m3u_station_list(&list))
    } else if str_eq(format, "pls") {
        ApiResponse::Text("audio/x-scpls".to_owned(), pls_station_list(&list))
    } else {
        ApiResponse::UnknownContentType
    }
}

/// Encodes a change-history list in the requested format.
pub fn encode_changes(list: Vec<StationHistoryCurrent>, format: &str) -> (r: ApiResponse)
    ensures
        format@ == "json"@ ==> text_resp(r, "application/json"@, json_of_change_list(list@)),
        format@ == "xml"@ ==> text_resp(r, "text/xml"@, xml_of_change_list(list@)),
        format@ != "json"@ && format@ != "xml"@ ==> r is UnknownContentType,
{
    proof {
        lemma_format_literals();
    }
    if str_eq(format, "json") {
        ApiResponse::Text("application/json".to_owned(), json_change_list(&list))
    } else if str_eq(format, "xml") {
        ApiResponse::Text("text/xml".to_owned(), xml_change_list(&list))
    } else {
        ApiResponse::UnknownContentType
    }
}

/// Encodes a check list in the requested format.
pub fn encode_checks(list: Vec<StationCheck>, format: &str) -> (r: ApiResponse)
    ensures
        format@ == "json"@ ==> text_resp(r, "application/json"@, json_of_check_list(list@)),
        format@ == "xml"@ ==> text_resp(r, "text/xml"@, xml_of_check_list(list@)),
        format@ != "json"@ && format@ != "xml"@ ==> r is UnknownContentType,
{
    proof {
        lemma_format_literals();
    }
    if str_eq(format, "json") {
        ApiResponse::Text("application/json".to_owned(), json_check_list(&list))
    } else if str_eq(format, "xml") {
        ApiResponse::Text("text/xml".to_owned(), xml_check_list(&list))
    } else {
        ApiResponse::UnknownContentType
    }
}

/// Encodes a click list in the requested format.
pub fn encode_clicks(list: Vec<StationClick>, format: &str) -> (r: ApiResponse)
    ensures
        format@ == "json"@ ==> text_resp(r, "application/json"@, json_of_click_list(list@)),
        format@ == "xml"@ ==> text_resp(r, "text/xml"@, xml_of_click_list(list@)),
        format@ != "json"@ && format@ != "xml"@ ==> r is UnknownContentType,
{
    proof {
        lemma_format_literals();
    }
    if str_eq(format, "json") {
        ApiResponse::Text("application/json".to_owned(), json_click_list(&list))
    } else if str_eq(format, "xml") {
        ApiResponse::Text("text/xml".to_owned(), xml_click_list(&list))
    } else {
        ApiResponse::UnknownContentType
    }
}

/// The text a submission outcome carries: the success message, or the
/// error's own words.
pub open spec fn spec_outcome_text(status: Result<String, ApiError>) -> Seq<char> {
    match status {
        Ok(m) => m@,
        Err(e) => e.spec_message(),
    }
}

/// Wraps a submission outcome into the response body: success or
/// failure is carried in the body, not the status code.
pub fn encode_message(status: Result<String, ApiError>, format: &str) -> (r: ApiResponse)
    ensures
        format@ != "json"@ && format@ != "xml"@ ==> r is UnknownContentType,
        format@ == "json"@ ==> text_resp(
            r,
            "application/json"@,
            json_of_message_parts(status is Ok, spec_outcome_text(status)),
        ),
        format@ == "xml"@ ==> text_resp(
            r,
            "text/xml"@,
            xml_of_message_parts(status is Ok, spec_outcome_text(status)),
        ),
{
    proof {
        lemma_format_literals();
    }
    let ghost ok_spec = status is Ok;
    let ghost text_spec = spec_outcome_text(status);
    let m: ResultMessage = match status {
        Ok(message) => ResultMessage::new(true, message),
        Err(err) => ResultMessage::new(false, err.message().to_owned()),
    };
    proof {
        assert(m.ok == ok_spec);
        assert(m.message@ == text_spec);
    }
    if str_eq(format, "json") {
        let body = json_message(&m);
        ApiResponse::Text("application/json".to_owned(), body)
    } else if str_eq(format, "xml") {
        let body = xml_message(&m);
        ApiResponse::Text("text/xml".to_owned(), body)
    } else {
        ApiResponse::UnknownContentType
    }
}

/// Encodes the health snapshot in the requested format.  The HTML
/// page goes through a template the application renders; the router
/// hands that case out before calling here.
pub fn encode_status(status: Status, format: &str) -> (r: ApiResponse)
    ensures
        format@ == "json"@ ==> text_resp(r, "application/json"@, json_of_status(status)),
        format@ == "xml"@ ==> text_resp(r, "text/xml"@, xml_of_status(status)),
        format@ != "json"@ && format@ != "xml"@ ==> r is UnknownContentType,
{
    proof {
        lemma_format_literals();
    }
    if str_eq(format, "json") {
        ApiResponse::Text("application/json".to_owned(), json_status(&status))
    } else if str_eq(format, "xml") {
        ApiResponse::Text("text/xml".to_owned(), xml_status(&status))
    } else {
        ApiResponse::UnknownContentType
    }
}

/// Encodes a submission outcome, UUID included, in the requested
/// format.
pub fn encode_add_result(a: StationAddResult, format: &str) -> (r: ApiResponse)
    ensures
        format@ == "json"@ ==> text_resp(r, "application/json"@, json_of_add_result(a)),
        format@ == "xml"@ ==> text_resp(r, "text/xml"@, xml_of_add_result(a)),
        format@ != "json"@ && format@ != "xml"@ ==> r is UnknownContentType,
{
    proof {
        lemma_format_literals();
    }
    if str_eq(format, "json") {
        ApiResponse::Text("application/json".to_owned(), json_add_result(&a))
    } else if str_eq(format, "xml") {
        ApiResponse::Text("text/xml".to_owned(), xml_add_result(&a))
    } else {
        ApiResponse::UnknownContentType
    }
}

/// Encodes the peer-server list found by DNS discovery; only the JSON
/// form exists, every other format is not found.
pub fn encode_server_list(list: Vec<ServerEntry>, format: &str) -> (r: ApiResponse)
    ensures
        format@ == "json"@ ==> text_resp(r, "application/json"@, json_of_server_list(list@)),
        format@ != "json"@ ==> r is NotFound,
{
    if str_eq(format, "json") {
        ApiResponse::Text("application/json".to_owned(), json_server_list(&list))
    } else {
        ApiResponse::NotFound
    }
}

/// The label under which a cache backend is reported.
pub open spec fn spec_cache_type_label(t: CacheType) -> Seq<char> {
    match t {
        CacheType::NoCache => "none"@,
        CacheType::BuiltIn => "builtin"@,
        CacheType::Redis => "redis"@,
        CacheType::Memcached => "memcached"@,
    }
}

fn cache_type_label(t: CacheType) -> (r: &'static str)
    ensures
        r@ == spec_cache_type_label(t),
{
    match t {
        CacheType::NoCache => "none",
        CacheType::BuiltIn => "builtin",
        CacheType::Redis => "redis",
        CacheType::Memcached => "memcached",
    }
}

/// The JSON body of the configuration endpoint.
pub open spec fn json_of_config(c: Config) -> Seq<char> {
    "{\"cache_type\":"@ + json_str(spec_cache_type_label(c.cache_type)) + ",\"cache_ttl\":"@
        + spec_dec(c.cache_ttl as int) + ",\"click_valid_timeout\":"@ + spec_dec(
        c.click_valid_timeout as int,
    ) + ",\"prometheus_exporter\":"@ + json_bool(c.prometheus_exporter)
        + ",\"broken_stations_timeout\":"@ + spec_dec(c.broken_stations_timeout as int)
        + ",\"broken_stations_never_working_timeout\":"@ + spec_dec(
        c.broken_stations_never_working_timeout as int,
    ) + "}"@
}

/// The XML body of the configuration endpoint.
pub open spec fn xml_of_config(c: Config) -> Seq<char> {
    "<result><config"@ + xml_attr("cache_type"@, spec_cache_type_label(c.cache_type)) + xml_attr(
        "cache_ttl"@,
        spec_dec(c.cache_ttl as int),
    ) + xml_attr("click_valid_timeout"@, spec_dec(c.click_valid_timeout as int)) + xml_attr(
        "prometheus_exporter"@,
        json_bool(c.prometheus_exporter),
    ) + xml_attr("broken_stations_timeout"@, spec_dec(c.broken_stations_timeout as int))
        + xml_attr(
        "broken_stations_never_working_timeout"@,
        spec_dec(c.broken_stations_never_working_timeout as int),
    ) + "/></result>"@
}

/// Encodes the active configuration in the requested format.
pub fn encode_config(config: &Config, format: &str) -> (r: ApiResponse)
    ensures
        format@ == "json"@ ==> text_resp(r, "application/json"@, json_of_config(*config)),
        format@ == "xml"@ ==> text_resp(r, "text/xml"@, xml_of_config(*config)),
        format@ != "json"@ && format@ != "xml"@ ==> r is UnknownContentType,
{
    proof {
        lemma_format_literals();
    }
    if str_eq(format, "json") {
        let mut out = String::new();
        out.append("{\"cache_type\":");
        let l = json_quote(cache_type_label(config.cache_type));
        out.append(l.as_str());
        out.append(",\"cache_ttl\":");
        let d1 = dec_u64(config.cache_ttl);
        out.append(d1.as_str());
        out.append(",\"click_valid_timeout\":");
        let d2 = dec_u64(config.click_valid_timeout);
        out.append(d2.as_str());
        out.append(",\"prometheus_exporter\":");
        out.append(json_bool_str(config.prometheus_exporter));
        out.append(",\"broken_stations_timeout\":");
        let d3 = dec_u64(config.broken_stations_timeout);
        out.append(d3.as_str());
        out.append(",\"broken_stations_never_working_timeout\":");
        let d4 = dec_u64(config.broken_stations_never_working_timeout);
        out.append(d4.as_str());
        out.append("}");
        proof {
            assert(out@ =~= json_of_config(*config));
        }
        ApiResponse::Text("application/json".to_owned(), out)
    } else if str_eq(format, "xml") {
        let mut out = String::new();
        out.append("<result><config");
        let l = cache_type_label(config.cache_type);
        xml_attr_append(&mut out, "cache_type", l);
        let d1 = dec_u64(config.cache_ttl);
        xml_attr_append(&mut out, "cache_ttl", d1.as_str());
        let d2 = dec_u64(config.click_valid_timeout);
        xml_attr_append(&mut out, "click_valid_timeout", d2.as_str());
        xml_attr_append(&mut out, "prometheus_exporter", json_bool_str(config.prometheus_exporter));
        let d3 = dec_u64(config.broken_stations_timeout);
        xml_attr_append(&mut out, "broken_stations_timeout", d3.as_str());
        let d4 = dec_u64(config.broken_stations_never_working_timeout);
        xml_attr_append(&mut out, "broken_stations_never_working_timeout", d4.as_str());
        out.append("/></result>");
        proof {
            assert(out@ =~= xml_of_config(*config));
        }
        ApiResponse::Text("text/xml".to_owned(), out)
    } else {
        ApiResponse::UnknownContentType
    }
}

/// Serves the play-URL endpoint for a looked-up station: the click
/// counter rises and the click is recorded whenever a station was
/// found, whatever the data store then answers; no station means not
/// found, and the counter stays.
pub fn encode_station_url<A: DataStore>(
    connection_new: &A,
    station: Option<StationItem>,
    ip: &str,
    format: &str,
    seconds: u64,
    counter_clicks: &mut u64,
) -> (r: ApiResponse)
    ensures
        station is None ==> r is NotFound && *final(counter_clicks) == *old(counter_clicks),
        station matches Some(st) ==> *final(counter_clicks) == bump(*old(counter_clicks)) && (
        format@ == "json"@ ==> text_resp(
            r,
            "application/json"@,
            json_of_cached_info_parts(
                true,
                "retrieved station url"@,
                st.stationuuid@,
                st.name@,
                st.url@,
            ),
        )) && (format@ == "xml"@ ==> text_resp(
            r,
            "text/xml"@,
            xml_of_cached_info_parts(
                true,
                "retrieved station url"@,
                st.stationuuid@,
                st.name@,
                st.url@,
            ),
        )) && (format@ == "m3u"@ ==> text_resp(r, "audio/mpegurl"@, m3u_of_station_list(seq![st])))
            && (format@ == "pls"@ ==> text_resp(r, "audio/x-scpls"@, pls_of_station_list(seq![st])))
            && (format@ != "json"@ && format@ != "xml"@ && format@ != "m3u"@ && format@ != "pls"@
            ==> r is UnknownContentType),
{
    match station {
        Some(station) => {
            if *counter_clicks < 0xFFFF_FFFF_FFFF_FFFF {
                *counter_clicks = *counter_clicks + 1;
            }
            let _ = connection_new.increase_clicks(ip, &station, seconds);
            proof {
                lemma_format_literals();
            }
            if str_eq(format, "json") {
                let c = extract_cached_info(&station, "retrieved station url");
                let body = json_cached_info(&c);
                ApiResponse::Text("application/json".to_owned(), body)
            } else if str_eq(format, "xml") {
                let c = extract_cached_info(&station, "retrieved station url");
                let body = xml_cached_info(&c);
                ApiResponse::Text("text/xml".to_owned(), body)
            } else if str_eq(format, "m3u") {
                let ghost st = station;
                let mut list: Vec<StationItem> = Vec::new();
                list.push(station);
                proof {
                    assert(list@ =~= seq![st]);
                }
                ApiResponse::Text("audio/mpegurl".to_owned(), m3u_station_list(&list))
            } else if str_eq(format, "pls") {
                let ghost st = station;
                let mut list: Vec<StationItem> = Vec::new();
                list.push(station);
                proof {
                    assert(list@ =~= seq![st]);
                }
                ApiResponse::Text("audio/x-scpls".to_owned(), pls_station_list(&list))
            } else {
                ApiResponse::UnknownContentType
            }
        },
        None => ApiResponse::NotFound,
    }
}

/// The command keywords that precede the mutating ones in the
/// dispatch chain are distinct from them.
pub proof fn lemma_command_literals()
    ensures
        "languages"@ != "add"@ && "languages"@ != "vote"@ && "languages"@ != "url"@,
        "countries"@ != "add"@ && "countries"@ != "vote"@ && "countries"@ != "url"@,
        "countrycodes"@ != "add"@ && "countrycodes"@ != "vote"@ && "countrycodes"@ != "url"@,
        "states"@ != "add"@ && "states"@ != "vote"@ && "states"@ != "url"@,
        "codecs"@ != "add"@ && "codecs"@ != "vote"@ && "codecs"@ != "url"@,
        "tags"@ != "add"@ && "tags"@ != "vote"@ && "tags"@ != "url"@,
        "stations"@ != "add"@,
        "servers"@ != "add"@,
        "stats"@ != "add"@,
        "checks"@ != "add"@,
        "clicks"@ != "add"@,
{
    reveal_strlit("languages");
    reveal_strlit("countries");
    reveal_strlit("countrycodes");
    reveal_strlit("states");
    reveal_strlit("codecs");
    reveal_strlit("tags");
    reveal_strlit("stations");
    reveal_strlit("servers");
    reveal_strlit("stats");
    reveal_strlit("checks");
    reveal_strlit("clicks");
    reveal_strlit("add");
    reveal_strlit("vote");
    reveal_strlit("url");
    assert("languages"@.len() == 9);
    assert("countries"@.len() == 9);
    assert("countrycodes"@.len() == 12);
    assert("states"@.len() == 6);
    assert("codecs"@.len() == 6);
    assert("tags"@.len() == 4);
    assert("stations"@.len() == 8);
    assert("servers"@.len() == 7);
    assert("stats"@.len() == 5);
    assert("checks"@.len() == 6);
    assert("clicks"@.len() == 6);
    assert("add"@.len() == 3);
    assert("vote"@.len() == 4);
    assert("url"@.len() == 3);
    assert("tags"@[0] == 't');
    assert("vote"@[0] == 'v');
}

/// The asset names of the two-segment routes are pairwise distinct.
pub proof fn lemma_asset_literals()
    ensures
        "metrics"@ != "favicon.ico"@ && "metrics"@ != "robots.txt"@ && "metrics"@ != "main.css"@
            && "metrics"@ != ""@,
        "favicon.ico"@ != "robots.txt"@ && "favicon.ico"@ != "main.css"@ && "favicon.ico"@
            != ""@,
        "robots.txt"@ != "main.css"@ && "robots.txt"@ != ""@,
        "main.css"@ != ""@,
{
    reveal_strlit("metrics");
    reveal_strlit("favicon.ico");
    reveal_strlit("robots.txt");
    reveal_strlit("main.css");
    reveal_strlit("");
    assert("metrics"@.len() == 7);
    assert("favicon.ico"@.len() == 11);
    assert("robots.txt"@.len() == 10);
    assert("main.css"@.len() == 8);
    assert(""@.len() == 0);
}

/// The late-tested command keywords are distinct from those tested
/// before them in the dispatch chain.
pub proof fn lemma_command_literals_late()
    ensures
        "config"@ != "languages"@ && "config"@ != "countries"@ && "config"@ != "countrycodes"@
            && "config"@ != "states"@ && "config"@ != "codecs"@ && "config"@ != "tags"@
            && "config"@ != "stations"@ && "config"@ != "servers"@ && "config"@ != "stats"@
            && "config"@ != "checks"@ && "config"@ != "clicks"@ && "config"@ != "add"@,
        "servers"@ != "languages"@ && "servers"@ != "countries"@ && "servers"@
            != "countrycodes"@ && "servers"@ != "states"@ && "servers"@ != "codecs"@
            && "servers"@ != "tags"@ && "servers"@ != "stations"@,
        "stats"@ != "languages"@ && "stats"@ != "countries"@ && "stats"@ != "countrycodes"@
            && "stats"@ != "states"@ && "stats"@ != "codecs"@ && "stats"@ != "tags"@ && "stats"@
            != "stations"@ && "stats"@ != "servers"@,
        "stations"@ != "languages"@ && "stations"@ != "countries"@ && "stations"@
            != "countrycodes"@ && "stations"@ != "codecs"@ && "stations"@ != "tags"@
            && "stations"@ != "states"@ && "stations"@ != "vote"@ && "stations"@ != "url"@,
        "vote"@ != "url"@,
        "checks"@ != "servers"@ && "clicks"@ != "servers"@ && "checks"@ != "stats"@ && "clicks"@
            != "stats"@,
        "checks"@ != "vote"@ && "checks"@ != "url"@ && "clicks"@ != "vote"@ && "clicks"@
            != "url"@,
        "stations"@ != "checks"@ && "stations"@ != "clicks"@,
{
    reveal_strlit("languages");
    reveal_strlit("countries");
    reveal_strlit("countrycodes");
    reveal_strlit("states");
    reveal_strlit("codecs");
    reveal_strlit("tags");
    reveal_strlit("stations");
    reveal_strlit("servers");
    reveal_strlit("stats");
    reveal_strlit("checks");
    reveal_strlit("clicks");
    reveal_strlit("add");
    reveal_strlit("vote");
    reveal_strlit("url");
    reveal_strlit("config");
    assert("languages"@.len() == 9);
    assert("countries"@.len() == 9);
    assert("countrycodes"@.len() == 12);
    assert("states"@.len() == 6);
    assert("codecs"@.len() == 6);
    assert("tags"@.len() == 4);
    assert("stations"@.len() == 8);
    assert("servers"@.len() == 7);
    assert("stats"@.len() == 5);
    assert("checks"@.len() == 6);
    assert("clicks"@.len() == 6);
    assert("add"@.len() == 3);
    assert("vote"@.len() == 4);
    assert("url"@.len() == 3);
    assert("config"@.len() == 6);
    assert("config"@[0] == 'c');
    assert("states"@[0] == 's');
    assert("config"@[1] == 'o');
    assert("checks"@[1] == 'h');
    assert("clicks"@[1] == 'l');
    assert("config"@[2] == 'n');
    assert("codecs"@[2] == 'd');
    assert("servers"@.len() == 7);
    assert("stats"@.len() == 5);
}

/// The exact-UUID station lookup keyword is distinct from the
/// subcommands tested before it.
pub proof fn lemma_byuuid_literal()
    ensures
        "byuuid"@ != "topvote"@ && "byuuid"@ != "topclick"@ && "byuuid"@ != "lastclick"@
            && "byuuid"@ != "lastchange"@ && "byuuid"@ != "broken"@ && "byuuid"@
            != "improvable"@ && "byuuid"@ != "byname"@ && "byuuid"@ != "bynameexact"@
            && "byuuid"@ != "bycodec"@ && "byuuid"@ != "bycodecexact"@ && "byuuid"@
            != "bycountry"@ && "byuuid"@ != "bycountryexact"@ && "byuuid"@
            != "bycountrycodeexact"@ && "byuuid"@ != "bystate"@ && "byuuid"@ != "bystateexact"@
            && "byuuid"@ != "bytag"@ && "byuuid"@ != "bytagexact"@ && "byuuid"@ != "bylanguage"@
            && "byuuid"@ != "bylanguageexact"@,
{
    reveal_strlit("byuuid");
    reveal_strlit("topvote");
    reveal_strlit("topclick");
    reveal_strlit("lastclick");
    reveal_strlit("lastchange");
    reveal_strlit("broken");
    reveal_strlit("improvable");
    reveal_strlit("byname");
    reveal_strlit("bynameexact");
    reveal_strlit("bycodec");
    reveal_strlit("bycodecexact");
    reveal_strlit("bycountry");
    reveal_strlit("bycountryexact");
    reveal_strlit("bycountrycodeexact");
    reveal_strlit("bystate");
    reveal_strlit("bystateexact");
    reveal_strlit("bytag");
    reveal_strlit("bytagexact");
    reveal_strlit("bylanguage");
    reveal_strlit("bylanguageexact");
    assert("byuuid"@.len() == 6);
    assert("topvote"@.len() == 7);
    assert("topclick"@.len() == 8);
    assert("lastclick"@.len() == 9);
    assert("lastchange"@.len() == 10);
    assert("broken"@.len() == 6);
    assert("improvable"@.len() == 10);
    assert("byname"@.len() == 6);
    assert("bynameexact"@.len() == 11);
    assert("bycodec"@.len() == 7);
    assert("bycodecexact"@.len() == 12);
    assert("bycountry"@.len() == 9);
    assert("bycountryexact"@.len() == 14);
    assert("bycountrycodeexact"@.len() == 18);
    assert("bystate"@.len() == 7);
    assert("bystateexact"@.len() == 12);
    assert("bytag"@.len() == 5);
    assert("bytagexact"@.len() == 10);
    assert("bylanguage"@.len() == 10);
    assert("bylanguageexact"@.len() == 15);
    assert("byuuid"@[1] == 'y');
    assert("broken"@[1] == 'r');
    assert("byuuid"@[2] == 'u');
    assert("byname"@[2] == 'n');
}

/// Dispatches one request on its decoded path segments: the segment
/// count picks the family (asset, list, filtered list, search), fixed
/// keyword segments pick the endpoint.  The outcome carries the
/// endpoint's cacheable flag, which depends on the path and the
/// exporter switch alone; the click counter moves only on the play-URL
/// endpoints.
#[verifier::rlimit(100)]
pub fn do_api_calls<A: DataStore>(
    all_params: AllParameters,
    connection_new: &A,
    config: &Config,
    counter_clicks: &mut u64,
    base_url: String,
    remote_ip: String,
    server_version: &str,
) -> (r: Result<RouteOutcome, ApiError>)
    ensures
        r matches Ok(out) ==> out.spec_cacheable_flag() == spec_cacheable(
            url_items(all_params.url@),
            config.prometheus_exporter,
        ),
        ({
            let items = url_items(all_params.url@);
            items.len() == 2 && items[1] == "metrics"@ && !config.prometheus_exporter ==> (
            r matches Ok(out) && out matches RouteOutcome::Done(c, resp)
                && resp matches ApiResponse::Locked(m) && c && m@ == "Exporter not enabled!"@)
        }),
        !(2 <= url_items(all_params.url@).len() <= 5) ==> (r matches Ok(out)
            && out matches RouteOutcome::Done(c, resp) && c && resp is NotFound),
        *final(counter_clicks) == *old(counter_clicks) || *final(counter_clicks) == bump(
            *old(counter_clicks),
        ),
        ({
            let items = url_items(all_params.url@);
            !(items.len() == 4 && items[2] == "url"@) && !(items.len() == 5 && items[1] == "v2"@)
                ==> *final(counter_clicks) == *old(counter_clicks)
        }),
        ({
            let items = url_items(all_params.url@);
            items.len() == 2 && items[1] == "metrics"@ && config.prometheus_exporter ==> (
            r matches Ok(out) && out matches RouteOutcome::Needs(c, t) && t is MetricsRender
                && !c)
        }),
        ({
            let items = url_items(all_params.url@);
            items.len() == 2 && items[1] == "favicon.ico"@ ==> (r matches Ok(out)
                && out matches RouteOutcome::Done(c, resp) && resp matches ApiResponse::File(
                ct,
                p,
            ) && c && ct@ == "image/png"@ && p@ == config.static_files_dir@ + "/favicon.ico"@)
        }),
        ({
            let items = url_items(all_params.url@);
            items.len() == 2 && items[1] == "robots.txt"@ ==> (r matches Ok(out)
                && out matches RouteOutcome::Done(c, resp) && resp matches ApiResponse::File(
                ct,
                p,
            ) && c && ct@ == "text/plain"@ && p@ == config.static_files_dir@ + "/robots.txt"@)
        }),
        ({
            let items = url_items(all_params.url@);
            items.len() == 2 && items[1] == "main.css"@ ==> (r matches Ok(out)
                && out matches RouteOutcome::Done(c, resp) && resp matches ApiResponse::File(
                ct,
                p,
            ) && c && ct@ == "text/css"@ && p@ == config.static_files_dir@ + "/main.css"@)
        }),
        ({
            let items = url_items(all_params.url@);
            items.len() == 2 && items[1] == ""@ ==> (r matches Ok(out)
                && out matches RouteOutcome::Needs(c, t)
                && t matches ExternalTask::DocsPage { base_url: bu } && !c && bu@ == base_url@)
        }),
        ({
            let items = url_items(all_params.url@);
            items.len() == 2 && items[1] != "metrics"@ && items[1] != "favicon.ico"@ && items[1]
                != "robots.txt"@ && items[1] != "main.css"@ && items[1] != ""@ ==> (
            r matches Ok(out) && out matches RouteOutcome::Done(c, resp) && resp is NotFound
                && !c)
        }),
        ({
            let items = url_items(all_params.url@);
            items.len() == 3 && items[2] == "servers"@ ==> (r matches Ok(out)
                && out matches RouteOutcome::Needs(c, t)
                && t matches ExternalTask::ServersList { format: f } && c && f@ == items[1])
        }),
        ({
            let items = url_items(all_params.url@);
            items.len() == 3 && items[2] == "config"@ ==> (r matches Ok(out)
                && out matches RouteOutcome::Done(c, resp) && c && (items[1] == "json"@
                ==> text_resp(resp, "application/json"@, json_of_config(*config))) && (items[1]
                == "xml"@ ==> text_resp(resp, "text/xml"@, xml_of_config(*config))) && (items[1]
                != "json"@ && items[1] != "xml"@ ==> resp is UnknownContentType))
        }),
        ({
            let items = url_items(all_params.url@);
            items.len() == 3 && items[2] == "stats"@ && items[1] == "html"@ ==> (
            r matches Ok(out) ==> (out matches RouteOutcome::Needs(c, t) && t is StatsHtml && c))
        }),
        ({
            let items = url_items(all_params.url@);
            items.len() == 3 && items[2] != "languages"@ && items[2] != "countries"@ && items[2]
                != "countrycodes"@ && items[2] != "states"@ && items[2] != "codecs"@ && items[2]
                != "tags"@ && items[2] != "stations"@ && items[2] != "servers"@ && items[2]
                != "stats"@ && items[2] != "checks"@ && items[2] != "clicks"@ && items[2]
                != "add"@ && items[2] != "config"@ ==> (r matches Ok(out)
                && out matches RouteOutcome::Done(c, resp) && resp is NotFound && c)
        }),
        ({
            let items = url_items(all_params.url@);
            items.len() == 4 && items[2] != "languages"@ && items[2] != "countries"@ && items[2]
                != "countrycodes"@ && items[2] != "codecs"@ && items[2] != "tags"@ && items[2]
                != "states"@ && items[2] != "vote"@ && items[2] != "url"@ && items[2]
                != "stations"@ && items[2] != "checks"@ && items[2] != "clicks"@ ==> (
            r matches Ok(out) && out matches RouteOutcome::Done(c, resp) && resp is NotFound
                && c)
        }),
        ({
            let items = url_items(all_params.url@);
            items.len() == 4 && items[2] == "stations"@ && items[3] != "topvote"@ && items[3]
                != "topclick"@ && items[3] != "lastclick"@ && items[3] != "lastchange"@
                && items[3] != "broken"@ && items[3] != "improvable"@ && items[3] != "changed"@
                && items[3] != "byurl"@ && items[3] != "search"@ ==> (r matches Ok(out)
                && out matches RouteOutcome::Done(c, resp) && resp is NotFound && c)
        }),
        ({
            let items = url_items(all_params.url@);
            items.len() == 5 && items[1] == "v2"@ && items[3] != "url"@ ==> (r matches Ok(out)
                && out matches RouteOutcome::Done(c, resp) && resp is NotFound && !c)
        }),
        ({
            let items = url_items(all_params.url@);
            items.len() == 5 && items[1] != "v2"@ && items[2] != "states"@ && items[2]
                != "stations"@ ==> (r matches Ok(out) && out matches RouteOutcome::Done(c, resp)
                && resp is NotFound && c)
        }),
        ({
            let items = url_items(all_params.url@);
            items.len() == 5 && items[1] != "v2"@ && items[2] == "stations"@ && items[3]
                != "topvote"@ && items[3] != "topclick"@ && items[3] != "lastclick"@ && items[3]
                != "lastchange"@ && items[3] != "broken"@ && items[3] != "improvable"@
                && items[3] != "byname"@ && items[3] != "bynameexact"@ && items[3] != "bycodec"@
                && items[3] != "bycodecexact"@ && items[3] != "bycountry"@ && items[3]
                != "bycountryexact"@ && items[3] != "bycountrycodeexact"@ && items[3]
                != "bystate"@ && items[3] != "bystateexact"@ && items[3] != "bytag"@ && items[3]
                != "bytagexact"@ && items[3] != "bylanguage"@ && items[3] != "bylanguageexact"@
                && items[3] != "byuuid"@ && items[3] != "changed"@ ==> (r matches Ok(out)
                && out matches RouteOutcome::Done(c, resp) && resp is NotFound && c)
        }),
        ({
            let items = url_items(all_params.url@);
            items.len() == 3 && items[2] == "countries"@ ==> (r matches Ok(out) ==> (
            out matches RouteOutcome::Done(c, resp) && c && (items[1] == "json"@ ==> (
            exists|list: Seq<ExtraInfo>|
                text_resp(resp, "application/json"@, #[trigger] json_of_extra_list(list))))))
        }),
        ({
            let items = url_items(all_params.url@);
            items.len() == 3 && items[2] == "add"@ ==> (r matches Ok(out)
                && out matches RouteOutcome::Done(c, resp) && !c && (items[1] == "json"@ ==> (
            exists|a: StationAddResult|
                text_resp(resp, "application/json"@, #[trigger] json_of_add_result(a)))))
        }),
        ({
            let items = url_items(all_params.url@);
            items.len() == 4 && items[2] == "vote"@ ==> (r matches Ok(out) ==> (
            out matches RouteOutcome::Done(c, resp) && !c && (resp is Text
                || resp is UnknownContentType)))
        }),
        ({
            let items = url_items(all_params.url@);
            items.len() == 4 && items[2] == "url"@ ==> (r matches Ok(out) ==> (
            out matches RouteOutcome::Done(c, resp) && !c && (resp is Text || resp is NotFound
                || resp is UnknownContentType)))
        }),
        ({
            let items = url_items(all_params.url@);
            items.len() == 5 && items[1] != "v2"@ && items[2] == "stations"@ && items[3]
                == "byuuid"@ ==> (r matches Ok(out) ==> (out matches RouteOutcome::Done(c, resp)
                && c && (items[1] == "json"@ ==> (exists|list: Seq<StationItem>|
                text_resp(resp, "application/json"@, #[trigger] json_of_station_list(list))))))
        }),
        ({
            let items = url_items(all_params.url@);
            items.len() == 5 && items[1] == "v2"@ && items[3] == "url"@ ==> (r matches Ok(out)
                ==> (out matches RouteOutcome::Done(c, resp) && !c && (resp is Text
                || resp is NotFound || resp is UnknownContentType)))
        }),
        ({
            let items = url_items(all_params.url@);
            items.len() == 3 && (items[2] == "languages"@ || items[2] == "countries"@
                || items[2] == "countrycodes"@ || items[2] == "states"@ || items[2] == "codecs"@
                || items[2] == "tags"@ || items[2] == "stations"@ || items[2] == "checks"@
                || items[2] == "clicks"@) ==> (r matches Ok(out) ==> (
            out matches RouteOutcome::Done(c, resp) && c && (resp is Text
                || resp is UnknownContentType)))
        }),
        ({
            let items = url_items(all_params.url@);
            items.len() == 3 && items[2] == "stats"@ && items[1] != "html"@ ==> (
            r matches Ok(out) ==> (out matches RouteOutcome::Done(c, resp) && c && (resp is Text
                || resp is UnknownContentType)))
        }),
        ({
            let items = url_items(all_params.url@);
            items.len() == 4 && (items[2] == "languages"@ || items[2] == "countries"@
                || items[2] == "countrycodes"@ || items[2] == "codecs"@ || items[2] == "tags"@
                || items[2] == "states"@ || items[2] == "checks"@ || items[2] == "clicks"@)
                ==> (r matches Ok(out) ==> (out matches RouteOutcome::Done(c, resp) && c && (
            resp is Text || resp is UnknownContentType)))
        }),
{
    let q: usize = find_char_from(all_params.url.as_str(), '?', 0);
    let path: &str = all_params.url.as_str().substring_char(0, q);
    let segs: Vec<String> = split_str(path, '/');
    let ghost gitems: Seq<Seq<char>> = url_items(all_params.url@);
    proof {
        assert(segs.deep_view().len() == segs@.len());
        assert(gitems == segs.deep_view().map_values(|p: Seq<char>| percent_decoded(p)));
    }
    let n: usize = segs.len();
    let mut items: Vec<String> = Vec::new();
    let mut i: usize = 0;
    while i < n
        invariant
            0 <= i <= n,
            n == segs@.len(),
            gitems.len() == n,
            items@.len() == i,
            gitems == url_items(all_params.url@),
            gitems == segs.deep_view().map_values(|p: Seq<char>| percent_decoded(p)),
            segs.deep_view().len() == n,
            forall|k: int| 0 <= k < i ==> (#[trigger] items@[k])@ == gitems[k],
        decreases n - i,
    {
        proof {
            assert(segs.deep_view()[i as int] == segs@[i as int]@);
        }
        let d = percent_decode_segment(segs[i].as_str());
        items.push(d);
        i = i + 1;
    }
    if items.len() == 2 {
        let file_name: &str = items[1].as_str();
        proof {
            assert(file_name@ == gitems[1]);
            lemma_asset_literals();
        }
        if str_eq(file_name, "metrics") {
            if config.prometheus_exporter {
                Ok(RouteOutcome::Needs(false, ExternalTask::MetricsRender))
            } else {
                Ok(
                    RouteOutcome::Done(
                        true,
                        ApiResponse::Locked("Exporter not enabled!".to_owned()),
                    ),
                )
            }
        } else if str_eq(file_name, "favicon.ico") {
            let mut p = config.static_files_dir.clone();
            p.append("/favicon.ico");
            Ok(RouteOutcome::Done(true, send_file(p.as_str(), "image/png")))
        } else if str_eq(file_name, "robots.txt") {
            let mut p = config.static_files_dir.clone();
            p.append("/robots.txt");
            Ok(RouteOutcome::Done(true, send_file(p.as_str(), "text/plain")))
        } else if str_eq(file_name, "main.css") {
            let mut p = config.static_files_dir.clone();
            p.append("/main.css");
            Ok(RouteOutcome::Done(true, send_file(p.as_str(), "text/css")))
        } else if str_eq(file_name, "") {
            Ok(RouteOutcome::Needs(false, ExternalTask::DocsPage { base_url }))
        } else {
            Ok(RouteOutcome::Done(false, ApiResponse::NotFound))
        }
    } else if items.len() == 3 {
        let format: &str = items[1].as_str();
        let command: &str = items[2].as_str();
        proof {
            assert(format@ == gitems[1]);
            assert(command@ == gitems[2]);
            lemma_command_literals();
            lemma_command_literals_late();
        }
        let filter: Option<String> = None;
        if str_eq(command, "languages") {
            match connection_new.get_extra(
                "LanguageCache",
                "LanguageName",
                filter,
                all_params.param_order,
                all_params.param_reverse,
                all_params.param_hidebroken,
            ) {
                Ok(list) => Ok(RouteOutcome::Done(true, encode_extra(list, format, "language"))),
                Err(e) => Err(e),
            }
        } else if str_eq(command, "countries") {
            match connection_new.get_1_n(
                "Country",
                filter,
                all_params.param_order,
                all_params.param_reverse,
                all_params.param_hidebroken,
            ) {
                Ok(list) => {
                    let ghost glist: Seq<ExtraInfo> = list@;
                    let resp = encode_extra(list, format, "country");
                    proof {
                        if format@ == "json"@ {
                            assert(text_resp(
                                resp,
                                "application/json"@,
                                json_of_extra_list(glist),
                            ));
                        }
                    }
                    Ok(RouteOutcome::Done(true, resp))
                },
                Err(e) => Err(e),
            }
        } else if str_eq(command, "countrycodes") {
            match connection_new.get_1_n(
                "CountryCode",
                filter,
                all_params.param_order,
                all_params.param_reverse,
                all_params.param_hidebroken,
            ) {
                Ok(list) => Ok(
                    RouteOutcome::Done(true, encode_extra(list, format, "countrycode")),
                ),
                Err(e) => Err(e),
            }
        } else if str_eq(command, "states") {
            match connection_new.get_states(
                None,
                filter,
                all_params.param_order,
                all_params.param_reverse,
                all_params.param_hidebroken,
            ) {
                Ok(list) => Ok(RouteOutcome::Done(true, encode_states(list, format))),
                Err(e) => Err(e),
            }
        } else if str_eq(command, "codecs") {
            match connection_new.get_1_n(
                "Codec",
                filter,
                all_params.param_order,
                all_params.param_reverse,
                all_params.param_hidebroken,
            ) {
                Ok(list) => Ok(RouteOutcome::Done(true, encode_extra(list, format, "codec"))),
                Err(e) => Err(e),
            }
        } else if str_eq(command, "tags") {
            match connection_new.get_extra(
                "TagCache",
                "TagName",
                filter,
                all_params.param_order,
                all_params.param_reverse,
                all_params.param_hidebroken,
            ) {
                Ok(list) => Ok(RouteOutcome::Done(true, encode_extra(list, format, "tag"))),
                Err(e) => Err(e),
            }
        } else if str_eq(command, "stations") {
            match connection_new.get_stations_by_all(
                all_params.param_order.as_str(),
                all_params.param_reverse,
                all_params.param_hidebroken,
                all_params.param_offset,
                all_params.param_limit,
            ) {
                Ok(list) => Ok(RouteOutcome::Done(true, encode_stations(list, format))),
                Err(e) => Err(e),
            }
        } else if str_eq(command, "servers") {
            Ok(RouteOutcome::Needs(true, ExternalTask::ServersList { format: format.to_owned() }))
        } else if str_eq(command, "stats") {
            match get_status(connection_new, server_version) {
                Ok(status) => {
                    if str_eq(format, "html") {
                        Ok(RouteOutcome::Needs(true, ExternalTask::StatsHtml { status }))
                    } else {
                        Ok(RouteOutcome::Done(true, encode_status(status, format)))
                    }
                },
                Err(e) => Err(e),
            }
        } else if str_eq(command, "checks") {
            match connection_new.get_checks(
                None,
                all_params.param_last_checkuuid,
                all_params.param_seconds,
                false,
            ) {
                Ok(list) => Ok(RouteOutcome::Done(true, encode_checks(list, format))),
                Err(e) => Err(e),
            }
        } else if str_eq(command, "clicks") {
            match connection_new.get_clicks(
                None,
                all_params.param_last_clickuuid,
                all_params.param_seconds,
            ) {
                Ok(list) => Ok(RouteOutcome::Done(true, encode_clicks(list, format))),
                Err(e) => Err(e),
            }
        } else if str_eq(command, "add") {
            let added = connection_new.add_station_opt(
                all_params.param_name,
                all_params.param_url,
                all_params.param_homepage,
                all_params.param_favicon,
                all_params.param_country,
                all_params.param_countrycode,
                all_params.param_state,
                all_params.param_language,
                all_params.param_tags,
            );
            let ar = add_result_from(added);
            let ghost gar: StationAddResult = ar;
            let resp = encode_add_result(ar, format);
            proof {
                if format@ == "json"@ {
                    assert(text_resp(resp, "application/json"@, json_of_add_result(gar)));
                }
            }
            Ok(RouteOutcome::Done(false, resp))
        } else if str_eq(command, "config") {
            Ok(RouteOutcome::Done(true, encode_config(config, format)))
        } else {
            Ok(RouteOutcome::Done(true, ApiResponse::NotFound))
        }
    } else if items.len() == 4 {
        let format: &str = items[1].as_str();
        let command: &str = items[2].as_str();
        let parameter: &str = items[3].as_str();
        proof {
            assert(format@ == gitems[1]);
            assert(command@ == gitems[2]);
            assert(parameter@ == gitems[3]);
            lemma_command_literals();
            lemma_command_literals_late();
        }
        if str_eq(command, "languages") {
            match connection_new.get_extra(
                "LanguageCache",
                "LanguageName",
                Some(parameter.to_owned()),
                all_params.param_order,
                all_params.param_reverse,
                all_params.param_hidebroken,
            ) {
                Ok(list) => Ok(RouteOutcome::Done(true, encode_extra(list, format, "language"))),
                Err(e) => Err(e),
            }
        } else if str_eq(command, "countries") {
            match connection_new.get_1_n(
                "Country",
                Some(parameter.to_owned()),
                all_params.param_order,
                all_params.param_reverse,
                all_params.param_hidebroken,
            ) {
                Ok(list) => Ok(RouteOutcome::Done(true, encode_extra(list, format, "country"))),
                Err(e) => Err(e),
            }
        } else if str_eq(command, "countrycodes") {
            match connection_new.get_1_n(
                "CountryCode",
                Some(parameter.to_owned()),
                all_params.param_order,
                all_params.param_reverse,
                all_params.param_hidebroken,
            ) {
                Ok(list) => Ok(
                    RouteOutcome::Done(true, encode_extra(list, format, "countrycode")),
                ),
                Err(e) => Err(e),
            }
        } else if str_eq(command, "codecs") {
            match connection_new.get_1_n(
                "Codec",
                Some(parameter.to_owned()),
                all_params.param_order,
                all_params.param_reverse,
                all_params.param_hidebroken,
            ) {
                Ok(list) => Ok(RouteOutcome::Done(true, encode_extra(list, format, "codec"))),
                Err(e) => Err(e),
            }
        } else if str_eq(command, "tags") {
            match connection_new.get_extra(
                "TagCache",
                "TagName",
                Some(parameter.to_owned()),
                all_params.param_order,
                all_params.param_reverse,
                all_params.param_hidebroken,
            ) {
                Ok(list) => Ok(RouteOutcome::Done(true, encode_extra(list, format, "tag"))),
                Err(e) => Err(e),
            }
        } else if str_eq(command, "states") {
            match connection_new.get_states(
                None,
                Some(parameter.to_owned()),
                all_params.param_order,
                all_params.param_reverse,
                all_params.param_hidebroken,
            ) {
                Ok(list) => Ok(RouteOutcome::Done(true, encode_states(list, format))),
                Err(e) => Err(e),
            }
        } else if str_eq(command, "vote") {
            match connection_new.get_station_by_uuid(parameter) {
                Ok(stations) => {
                    let voted = connection_new.vote_for_station(
                        remote_ip.as_str(),
                        get_only_first_item(stations),
                    );
                    Ok(RouteOutcome::Done(false, encode_message(voted, format)))
                },
                Err(e) => Err(e),
            }
        } else if str_eq(command, "url") {
            match connection_new.get_station_by_uuid(parameter) {
                Ok(stations) => Ok(
                    RouteOutcome::Done(
                        false,
                        encode_station_url(
                            connection_new,
                            get_only_first_item(stations),
                            remote_ip.as_str(),
                            format,
                            config.click_valid_timeout,
                            counter_clicks,
                        ),
                    ),
                ),
                Err(e) => Err(e),
            }
        } else if str_eq(command, "stations") {
            if str_eq(parameter, "topvote") {
                match connection_new.get_stations_topvote(all_params.param_limit) {
                    Ok(list) => Ok(RouteOutcome::Done(true, encode_stations(list, format))),
                    Err(e) => Err(e),
                }
            } else if str_eq(parameter, "topclick") {
                match connection_new.get_stations_topclick(all_params.param_limit) {
                    Ok(list) => Ok(RouteOutcome::Done(true, encode_stations(list, format))),
                    Err(e) => Err(e),
                }
            } else if str_eq(parameter, "lastclick") {
                match connection_new.get_stations_lastclick(all_params.param_limit) {
                    Ok(list) => Ok(RouteOutcome::Done(true, encode_stations(list, format))),
                    Err(e) => Err(e),
                }
            } else if str_eq(parameter, "lastchange") {
                match connection_new.get_stations_lastchange(all_params.param_limit) {
                    Ok(list) => Ok(RouteOutcome::Done(true, encode_stations(list, format))),
                    Err(e) => Err(e),
                }
            } else if str_eq(parameter, "broken") {
                match connection_new.get_stations_broken(all_params.param_limit) {
                    Ok(list) => Ok(RouteOutcome::Done(true, encode_stations(list, format))),
                    Err(e) => Err(e),
                }
            } else if str_eq(parameter, "improvable") {
                match connection_new.get_stations_improvable(all_params.param_limit) {
                    Ok(list) => Ok(RouteOutcome::Done(true, encode_stations(list, format))),
                    Err(e) => Err(e),
                }
            } else if str_eq(parameter, "changed") {
                match connection_new.get_changes(None, all_params.param_last_changeuuid) {
                    Ok(list) => Ok(RouteOutcome::Done(true, encode_changes(list, format))),
                    Err(e) => Err(e),
                }
            } else if str_eq(parameter, "byurl") {
                match connection_new.get_stations_by_column_multiple(
                    "Url",
                    all_params.param_url,
                    true,
                    all_params.param_order.as_str(),
                    all_params.param_reverse,
                    all_params.param_hidebroken,
                    all_params.param_offset,
                    all_params.param_limit,
                ) {
                    Ok(list) => Ok(RouteOutcome::Done(true, encode_stations(list, format))),
                    Err(e) => Err(e),
                }
            } else if str_eq(parameter, "search") {
                match connection_new.get_stations_advanced(
                    all_params.param_name,
                    all_params.param_name_exact,
                    all_params.param_country,
                    all_params.param_country_exact,
                    all_params.param_countrycode,
                    all_params.param_state,
                    all_params.param_state_exact,
                    all_params.param_language,
                    all_params.param_language_exact,
                    all_params.param_tag,
                    all_params.param_tag_exact,
                    all_params.param_tag_list,
                    all_params.param_codec,
                    all_params.param_bitrate_min,
                    all_params.param_bitrate_max,
                    all_params.param_order.as_str(),
                    all_params.param_reverse,
                    all_params.param_hidebroken,
                    all_params.param_offset,
                    all_params.param_limit,
                ) {
                    Ok(list) => Ok(RouteOutcome::Done(true, encode_stations(list, format))),
                    Err(e) => Err(e),
                }
            } else {
                Ok(RouteOutcome::Done(true, ApiResponse::NotFound))
            }
        } else if str_eq(command, "checks") {
            match connection_new.get_checks(
                Some(parameter.to_owned()),
                all_params.param_last_checkuuid,
                all_params.param_seconds,
                true,
            ) {
                Ok(list) => Ok(RouteOutcome::Done(true, encode_checks(list, format))),
                Err(e) => Err(e),
            }
        } else if str_eq(command, "clicks") {
            match connection_new.get_clicks(
                Some(parameter.to_owned()),
                all_params.param_last_clickuuid,
                all_params.param_seconds,
            ) {
                Ok(list) => Ok(RouteOutcome::Done(true, encode_clicks(list, format))),
                Err(e) => Err(e),
            }
        } else {
            Ok(RouteOutcome::Done(true, ApiResponse::NotFound))
        }
    } else if items.len() == 5 {
        let format: &str = items[1].as_str();
        let command: &str = items[2].as_str();
        let parameter: &str = items[3].as_str();
        let search: &str = items[4].as_str();
        proof {
            assert(format@ == gitems[1]);
            assert(command@ == gitems[2]);
            assert(parameter@ == gitems[3]);
            assert(search@ == gitems[4]);
            lemma_command_literals_late();
        }
        if str_eq(format, "v2") {
            // The deprecated shape shifts every segment one to the right.
            let format2: &str = command;
            let command2: &str = parameter;
            if str_eq(command2, "url") {
                match connection_new.get_station_by_uuid(search) {
                    Ok(stations) => Ok(
                        RouteOutcome::Done(
                            false,
                            encode_station_url(
                                connection_new,
                                get_only_first_item(stations),
                                remote_ip.as_str(),
                                format2,
                                config.click_valid_timeout,
                                counter_clicks,
                            ),
                        ),
                    ),
                    Err(e) => Err(e),
                }
            } else {
                Ok(RouteOutcome::Done(false, ApiResponse::NotFound))
            }
        } else if str_eq(command, "states") {
            match connection_new.get_states(
                Some(parameter.to_owned()),
                Some(search.to_owned()),
                all_params.param_order,
                all_params.param_reverse,
                all_params.param_hidebroken,
            ) {
                Ok(list) => Ok(RouteOutcome::Done(true, encode_states(list, format))),
                Err(e) => Err(e),
            }
        } else if str_eq(command, "stations") {
            let limit: u32 = match parse_u32(search) {
                Some(v) => v,
                None => 0,
            };
            if str_eq(parameter, "topvote") {
                match connection_new.get_stations_topvote(limit) {
                    Ok(list) => Ok(RouteOutcome::Done(true, encode_stations(list, format))),
                    Err(e) => Err(e),
                }
            } else if str_eq(parameter, "topclick") {
                match connection_new.get_stations_topclick(limit) {
                    Ok(list) => Ok(RouteOutcome::Done(true, encode_stations(list, format))),
                    Err(e) => Err(e),
                }
            } else if str_eq(parameter, "lastclick") {
                match connection_new.get_stations_lastclick(limit) {
                    Ok(list) => Ok(RouteOutcome::Done(true, encode_stations(list, format))),
                    Err(e) => Err(e),
                }
            } else if str_eq(parameter, "lastchange") {
                match connection_new.get_stations_lastchange(limit) {
                    Ok(list) => Ok(RouteOutcome::Done(true, encode_stations(list, format))),
                    Err(e) => Err(e),
                }
            } else if str_eq(parameter, "broken") {
                match connection_new.get_stations_broken(limit) {
                    Ok(list) => Ok(RouteOutcome::Done(true, encode_stations(list, format))),
                    Err(e) => Err(e),
                }
            } else if str_eq(parameter, "improvable") {
                match connection_new.get_stations_improvable(limit) {
                    Ok(list) => Ok(RouteOutcome::Done(true, encode_stations(list, format))),
                    Err(e) => Err(e),
                }
            } else if str_eq(parameter, "byname") {
                match connection_new.get_stations_by_column(
                    "Name",
                    search.to_owned(),
                    false,
                    all_params.param_order.as_str(),
                    all_params.param_reverse,
                    all_params.param_hidebroken,
                    all_params.param_offset,
                    all_params.param_limit,
                ) {
                    Ok(list) => Ok(RouteOutcome::Done(true, encode_stations(list, format))),
                    Err(e) => Err(e),
                }
            } else if str_eq(parameter, "bynameexact") {
                match connection_new.get_stations_by_column(
                    "Name",
                    search.to_owned(),
                    true,
                    all_params.param_order.as_str(),
                    all_params.param_reverse,
                    all_params.param_hidebroken,
                    all_params.param_offset,
                    all_params.param_limit,
                ) {
                    Ok(list) => Ok(RouteOutcome::Done(true, encode_stations(list, format))),
                    Err(e) => Err(e),
                }
            } else if str_eq(parameter, "bycodec") {
                match connection_new.get_stations_by_column(
                    "Codec",
                    search.to_owned(),
                    false,
                    all_params.param_order.as_str(),
                    all_params.param_reverse,
                    all_params.param_hidebroken,
                    all_params.param_offset,
                    all_params.param_limit,
                ) {
                    Ok(list) => Ok(RouteOutcome::Done(true, encode_stations(list, format))),
                    Err(e) => Err(e),
                }
            } else if str_eq(parameter, "bycodecexact") {
                match connection_new.get_stations_by_column(
                    "Codec",
                    search.to_owned(),
                    true,
                    all_params.param_order.as_str(),
                    all_params.param_reverse,
                    all_params.param_hidebroken,
                    all_params.param_offset,
                    all_params.param_limit,
                ) {
                    Ok(list) => Ok(RouteOutcome::Done(true, encode_stations(list, format))),
                    Err(e) => Err(e),
                }
            } else if str_eq(parameter, "bycountry") {
                match connection_new.get_stations_by_column(
                    "Country",
                    search.to_owned(),
                    false,
                    all_params.param_order.as_str(),
                    all_params.param_reverse,
                    all_params.param_hidebroken,
                    all_params.param_offset,
                    all_params.param_limit,
                ) {
                    Ok(list) => Ok(RouteOutcome::Done(true, encode_stations(list, format))),
                    Err(e) => Err(e),
                }
            } else if str_eq(parameter, "bycountryexact") {
                match connection_new.get_stations_by_column(
                    "Country",
                    search.to_owned(),
                    true,
                    all_params.param_order.as_str(),
                    all_params.param_reverse,
                    all_params.param_hidebroken,
                    all_params.param_offset,
                    all_params.param_limit,
                ) {
                    Ok(list) => Ok(RouteOutcome::Done(true, encode_stations(list, format))),
                    Err(e) => Err(e),
                }
            } else if str_eq(parameter, "bycountrycodeexact") {
                match connection_new.get_stations_by_column(
                    "CountryCode",
                    search.to_owned(),
                    true,
                    all_params.param_order.as_str(),
                    all_params.param_reverse,
                    all_params.param_hidebroken,
                    all_params.param_offset,
                    all_params.param_limit,
                ) {
                    Ok(list) => Ok(RouteOutcome::Done(true, encode_stations(list, format))),
                    Err(e) => Err(e),
                }
            } else if str_eq(parameter, "bystate") {
                match connection_new.get_stations_by_column(
                    "Subcountry",
                    search.to_owned(),
                    false,
                    all_params.param_order.as_str(),
                    all_params.param_reverse,
                    all_params.param_hidebroken,
                    all_params.param_offset,
                    all_params.param_limit,
                ) {
                    Ok(list) => Ok(RouteOutcome::Done(true, encode_stations(list, format))),
                    Err(e) => Err(e),
                }
            } else if str_eq(parameter, "bystateexact") {
                match connection_new.get_stations_by_column(
                    "Subcountry",
                    search.to_owned(),
                    true,
                    all_params.param_order.as_str(),
                    all_params.param_reverse,
                    all_params.param_hidebroken,
                    all_params.param_offset,
                    all_params.param_limit,
                ) {
                    Ok(list) => Ok(RouteOutcome::Done(true, encode_stations(list, format))),
                    Err(e) => Err(e),
                }
            } else if str_eq(parameter, "bytag") {
                match connection_new.get_stations_by_column_multiple(
                    "Tags",
                    Some(search.to_owned()),
                    false,
                    all_params.param_order.as_str(),
                    all_params.param_reverse,
                    all_params.param_hidebroken,
                    all_params.param_offset,
                    all_params.param_limit,
                ) {
                    Ok(list) => Ok(RouteOutcome::Done(true, encode_stations(list, format))),
                    Err(e) => Err(e),
                }
            } else if str_eq(parameter, "bytagexact") {
                match connection_new.get_stations_by_column_multiple(
                    "Tags",
                    Some(search.to_owned()),
                    true,
                    all_params.param_order.as_str(),
                    all_params.param_reverse,
                    all_params.param_hidebroken,
                    all_params.param_offset,
                    all_params.param_limit,
                ) {
                    Ok(list) => Ok(RouteOutcome::Done(true, encode_stations(list, format))),
                    Err(e) => Err(e),
                }
            } else if str_eq(parameter, "bylanguage") {
                match connection_new.get_stations_by_column_multiple(
                    "Language",
                    Some(search.to_owned()),
                    false,
                    all_params.param_order.as_str(),
                    all_params.param_reverse,
                    all_params.param_hidebroken,
                    all_params.param_offset,
                    all_params.param_limit,
                ) {
                    Ok(list) => Ok(RouteOutcome::Done(true, encode_stations(list, format))),
                    Err(e) => Err(e),
                }
            } else if str_eq(parameter, "bylanguageexact") {
                match connection_new.get_stations_by_column_multiple(
                    "Language",
                    Some(search.to_owned()),
                    true,
                    all_params.param_order.as_str(),
                    all_params.param_reverse,
                    all_params.param_hidebroken,
                    all_params.param_offset,
                    all_params.param_limit,
                ) {
                    Ok(list) => Ok(RouteOutcome::Done(true, encode_stations(list, format))),
                    Err(e) => Err(e),
                }
            } else if str_eq(parameter, "byuuid") {
                proof {
                    lemma_byuuid_literal();
                }
                match connection_new.get_stations_by_column(
                    "StationUuid",
                    search.to_owned(),
                    true,
                    all_params.param_order.as_str(),
                    all_params.param_reverse,
                    all_params.param_hidebroken,
                    all_params.param_offset,
                    all_params.param_limit,
                ) {
                    Ok(list) => {
                        let ghost glist: Seq<StationItem> = list@;
                        let resp = encode_stations(list, format);
                        proof {
                            if format@ == "json"@ {
                                assert(text_resp(
                                    resp,
                                    "application/json"@,
                                    json_of_station_list(glist),
                                ));
                            }
                        }
                        Ok(RouteOutcome::Done(true, resp))
                    },
                    Err(e) => Err(e),
                }
            } else if str_eq(parameter, "changed") {
                match connection_new.get_changes(
                    Some(search.to_owned()),
                    all_params.param_last_changeuuid,
                ) {
                    Ok(list) => Ok(RouteOutcome::Done(true, encode_changes(list, format))),
                    Err(e) => Err(e),
                }
            } else {
                Ok(RouteOutcome::Done(true, ApiResponse::NotFound))
            }
        } else {
            Ok(RouteOutcome::Done(true, ApiResponse::NotFound))
        }
    } else {
        Ok(RouteOutcome::Done(true, ApiResponse::NotFound))
    }
}

} // verus!
