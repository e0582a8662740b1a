use radio_api::data::{ExtraInfo, ServerEntry, State, StationItem, Status};
use radio_api::data::{
    json_extra_list, json_server_list, json_state_list, json_station_list, json_status,
    m3u_station_list, pls_station_list, xml_extra_list, xml_state_list,
};
use radio_api::encode::{json_quote, json_string_array};

fn station(uuid: &str, name: &str, url: &str) -> StationItem {
    StationItem { stationuuid: uuid.to_string(), name: name.to_string(), url: url.to_string() }
}

#[test]
fn json_quote_escapes_specials() {
    assert_eq!(json_quote("plain"), "\"plain\"");
    assert_eq!(json_quote("a\"b"), "\"a\\\"b\"");
    assert_eq!(json_quote("a\\b"), "\"a\\\\b\"");
    assert_eq!(json_quote("line\nbreak"), "\"line\\nbreak\"");
    assert_eq!(json_quote("tab\there"), "\"tab\\there\"");
    assert_eq!(json_quote("bell\u{07}"), "\"bell\\u0007\"");
}

#[test]
fn empty_lists_render_as_empty_arrays() {
    assert_eq!(json_extra_list(&Vec::new()), "[]");
    assert_eq!(json_station_list(&Vec::new()), "[]");
    assert_eq!(json_string_array(&Vec::new()), "[]");
}

#[test]
fn extra_list_renders_exactly() {
    let list = vec![
        ExtraInfo { name: "aac".to_string(), stationcount: 5 },
        ExtraInfo { name: "mp3".to_string(), stationcount: 12 },
    ];
    assert_eq!(
        json_extra_list(&list),
        "[{\"name\":\"aac\",\"stationcount\":5},{\"name\":\"mp3\",\"stationcount\":12}]"
    );
    assert_eq!(
        xml_extra_list(&list, "codec"),
        "<result><codec name=\"aac\" stationcount=\"5\"/><codec name=\"mp3\" stationcount=\"12\"/></result>"
    );
}

#[test]
fn state_list_renders_exactly() {
    let list = vec![State {
        name: "Bayern".to_string(),
        country: "Germany".to_string(),
        stationcount: 3,
    }];
    assert_eq!(
        json_state_list(&list),
        "[{\"name\":\"Bayern\",\"country\":\"Germany\",\"stationcount\":3}]"
    );
    assert_eq!(
        xml_state_list(&list),
        "<result><state name=\"Bayern\" country=\"Germany\" stationcount=\"3\"/></result>"
    );
}

#[test]
fn xml_attributes_are_escaped() {
    let list = vec![ExtraInfo { name: "r&b <\"x\">".to_string(), stationcount: 1 }];
    assert_eq!(
        xml_extra_list(&list, "tag"),
        "<result><tag name=\"r&amp;b &lt;&quot;x&quot;&gt;\" stationcount=\"1\"/></result>"
    );
}

#[test]
fn station_playlists_render_exactly() {
    let list = vec![
        station("u1", "One", "http://one.example/stream"),
        station("u2", "Two", "http://two.example/stream"),
    ];
    assert_eq!(
        m3u_station_list(&list),
        "#EXTM3U\n#EXTINF:1,One\nhttp://one.example/stream\n#EXTINF:1,Two\nhttp://two.example/stream\n"
    );
    assert_eq!(
        pls_station_list(&list),
        "[playlist]\nFile1=http://one.example/stream\nTitle1=One\nFile2=http://two.example/stream\nTitle2=Two\nNumberOfEntries=2\n"
    );
}

#[test]
fn server_list_renders_exactly() {
    let list = vec![ServerEntry::new("1.2.3.4".to_string(), "a.example".to_string())];
    assert_eq!(json_server_list(&list), "[{\"ip\":\"1.2.3.4\",\"name\":\"a.example\"}]");
}

#[test]
fn status_renders_every_count() {
    let s = Status::new(
        1,
        Some("2.0".to_string()),
        "OK".to_string(),
        10,
        2,
        30,
        4,
        50,
        6,
        7,
    );
    assert_eq!(
        json_status(&s),
        "{\"supported_version\":1,\"software_version\":\"2.0\",\"status\":\"OK\",\"stations\":10,\"stations_broken\":2,\"tags\":30,\"clicks_last_hour\":4,\"clicks_last_day\":50,\"languages\":6,\"countries\":7}"
    );
}
