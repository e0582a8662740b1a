//! The domain objects the API serves, with verified JSON, XML and
//! playlist renderings.  The renderings are pinned down exactly by spec
//! functions over the objects' fields.

use vstd::prelude::*;
use crate::encode::concat_all;
use crate::encode::json_bool;
use crate::encode::json_bool_str;
use crate::encode::json_opt_str;
use crate::encode::json_opt_quote;
use crate::encode::json_quote;
use crate::encode::json_str;
use crate::encode::spec_json_array;
use crate::encode::join_json_array;
use crate::encode::xml_attr;
use crate::encode::xml_attr_append;
use crate::encode::dec_u64;
use crate::strutil::push_char;
use crate::strutil::spec_dec;
use crate::strutil::u32_to_string;

verus! {

/// A list of pre-rendered XML elements wrapped in a `result` document.
pub open spec fn spec_xml_result(parts: Seq<Seq<char>>) -> Seq<char> {
    "<result>"@ + concat_all(parts, parts.len() as int) + "</result>"@
}

/// Wraps pre-rendered XML elements in a `result` document.
pub fn xml_result_doc(items: &Vec<String>) -> (r: String)
    ensures
        r@ == spec_xml_result(items.deep_view()),
{
    let mut out = String::new();
    out.append("<result>");
    let mut i: usize = 0;
    proof {
        assert(out@ =~= "<result>"@ + concat_all(items.deep_view(), 0));
    }
    while i < items.len()
        invariant
            0 <= i <= items@.len(),
            out@ == "<result>"@ + concat_all(items.deep_view(), i as int),
        decreases items@.len() - i,
    {
        out.append(items[i].as_str());
        i = i + 1;
        proof {
            assert(out@ =~= "<result>"@ + concat_all(items.deep_view(), i as int));
        }
    }
    out.append("</result>");
    proof {
        assert(out@ =~= spec_xml_result(items.deep_view()));
    }
    out
}

/// One peer server found by DNS discovery.
pub struct ServerEntry {
    ip: String,
    name: String,
}

impl ServerEntry {
    pub closed spec fn spec_ip(self) -> Seq<char> {
        self.ip@
    }

    pub closed spec fn spec_name(self) -> Seq<char> {
        self.name@
    }

    pub fn new(ip: String, name: String) -> (r: ServerEntry)
        ensures
            r.spec_ip() == ip@,
            r.spec_name() == name@,
    {
        ServerEntry { ip, name }
    }
}

pub open spec fn json_of_server(e: ServerEntry) -> Seq<char> {
    "{\"ip\":"@ + json_str(e.spec_ip()) + ",\"name\":"@ + json_str(e.spec_name()) + "}"@
}

fn json_server(e: &ServerEntry) -> (r: String)
    ensures
        r@ == json_of_server(*e),
{
    let mut out = String::new();
    out.append("{\"ip\":");
    let q = json_quote(e.ip.as_str());
    out.append(q.as_str());
    out.append(",\"name\":");
    let q2 = json_quote(e.name.as_str());
    out.append(q2.as_str());
    out.append("}");
    proof {
        assert(out@ =~= json_of_server(*e));
    }
    out
}

pub open spec fn json_of_server_list(list: Seq<ServerEntry>) -> Seq<char> {
    spec_json_array(list.map_values(|e: ServerEntry| json_of_server(e)))
}

/// Renders a peer-server list as JSON.
pub fn json_server_list(list: &Vec<ServerEntry>) -> (r: String)
    ensures
        r@ == json_of_server_list(list@),
{
    let mut parts: Vec<String> = Vec::new();
    let mut i: usize = 0;
    while i < list.len()
        invariant
            0 <= i <= list@.len(),
            parts@.len() == i,
            forall|k: int| 0 <= k < i ==> parts@[k]@ == json_of_server(#[trigger] list@[k]),
        decreases list@.len() - i,
    {
        parts.push(json_server(&list[i]));
        i = i + 1;
    }
    proof {
        assert(forall|k: int| 0 <= k < parts@.len() ==> parts.deep_view()[k] == parts@[k]@);
        assert(parts.deep_view() =~= list@.map_values(|e: ServerEntry| json_of_server(e)));
    }
    join_json_array(&parts)
}

/// A named aggregate row: a language, country, country code, codec or
/// tag together with how many stations carry it.
#[derive(Clone)]
pub struct ExtraInfo {
    pub name: String,
    pub stationcount: u32,
}

pub open spec fn json_of_extra(e: ExtraInfo) -> Seq<char> {
    "{\"name\":"@ + json_str(e.name@) + ",\"stationcount\":"@ + spec_dec(e.stationcount as int)
        + "}"@
}

fn json_extra(e: &ExtraInfo) -> (r: String)
    ensures
        r@ == json_of_extra(*e),
{
    let mut out = String::new();
    out.append("{\"name\":");
    let q = json_quote(e.name.as_str());
    out.append(q.as_str());
    out.append(",\"stationcount\":");
    let d = u32_to_string(e.stationcount);
    out.append(d.as_str());
    out.append("}");
    proof {
        assert(out@ =~= json_of_extra(*e));
    }
    out
}

pub open spec fn json_of_extra_list(list: Seq<ExtraInfo>) -> Seq<char> {
    spec_json_array(list.map_values(|e: ExtraInfo| json_of_extra(e)))
}

/// Renders an aggregate-row list as JSON.
pub fn json_extra_list(list: &Vec<ExtraInfo>) -> (r: String)
    ensures
        r@ == json_of_extra_list(list@),
{
    let mut parts: Vec<String> = Vec::new();
    let mut i: usize = 0;
    while i < list.len()
        invariant
            0 <= i <= list@.len(),
            parts@.len() == i,
            forall|k: int| 0 <= k < i ==> parts@[k]@ == json_of_extra(#[trigger] list@[k]),
        decreases list@.len() - i,
    {
        parts.push(json_extra(&list[i]));
        i = i + 1;
    }
    proof {
        assert(forall|k: int| 0 <= k < parts@.len() ==> parts.deep_view()[k] == parts@[k]@);
        assert(parts.deep_view() =~= list@.map_values(|e: ExtraInfo| json_of_extra(e)));
    }
    join_json_array(&parts)
}

pub open spec fn xml_of_extra(e: ExtraInfo, tag: Seq<char>) -> Seq<char> {
    seq!['<'] + tag + xml_attr("name"@, e.name@) + xml_attr(
        "stationcount"@,
        spec_dec(e.stationcount as int),
    ) + "/>"@
}

fn xml_extra(e: &ExtraInfo, tag: &str) -> (r: String)
    ensures
        r@ == xml_of_extra(*e, tag@),
{
    let mut out = String::new();
    push_char(&mut out, '<');
    out.append(tag);
    xml_attr_append(&mut out, "name", e.name.as_str());
    let d = u32_to_string(e.stationcount);
    xml_attr_append(&mut out, "stationcount", d.as_str());
    out.append("/>");
    proof {
        assert(out@ =~= xml_of_extra(*e, tag@));
    }
    out
}

pub open spec fn xml_of_extra_list(list: Seq<ExtraInfo>, tag: Seq<char>) -> Seq<char> {
    spec_xml_result(list.map_values(|e: ExtraInfo| xml_of_extra(e, tag)))
}

/// Renders an aggregate-row list as an XML `result` document; `tag`
/// names each element.
pub fn xml_extra_list(list: &Vec<ExtraInfo>, tag: &str) -> (r: String)
    ensures
        r@ == xml_of_extra_list(list@, tag@),
{
    let mut parts: Vec<String> = Vec::new();
    let mut i: usize = 0;
    while i < list.len()
        invariant
            0 <= i <= list@.len(),
            parts@.len() == i,
            forall|k: int| 0 <= k < i ==> parts@[k]@ == xml_of_extra(#[trigger] list@[k], tag@),
        decreases list@.len() - i,
    {
        parts.push(xml_extra(&list[i], tag));
        i = i + 1;
    }
    proof {
        assert(forall|k: int| 0 <= k < parts@.len() ==> parts.deep_view()[k] == parts@[k]@);
        assert(parts.deep_view() =~= list@.map_values(|e: ExtraInfo| xml_of_extra(e, tag@)));
    }
    xml_result_doc(&parts)
}

/// A regional subdivision with its station count.
#[derive(Clone)]
pub struct State {
    pub name: String,
    pub country: String,
    pub stationcount: u32,
}

pub open spec fn json_of_state(e: State) -> Seq<char> {
    "{\"name\":"@ + json_str(e.name@) + ",\"country\":"@ + json_str(e.country@)
        + ",\"stationcount\":"@ + spec_dec(e.stationcount as int) + "}"@
}

fn json_state(e: &State) -> (r: String)
    ensures
        r@ == json_of_state(*e),
{
    let mut out = String::new();
    out.append("{\"name\":");
    let q = json_quote(e.name.as_str());
    out.append(q.as_str());
    out.append(",\"country\":");
    let q2 = json_quote(e.country.as_str());
    out.append(q2.as_str());
    out.append(",\"stationcount\":");
    let d = u32_to_string(e.stationcount);
    out.append(d.as_str());
    out.append("}");
    proof {
        assert(out@ =~= json_of_state(*e));
    }
    out
}

pub open spec fn json_of_state_list(list: Seq<State>) -> Seq<char> {
    spec_json_array(list.map_values(|e: State| json_of_state(e)))
}

/// Renders a state list as JSON.
pub fn json_state_list(list: &Vec<State>) -> (r: String)
    ensures
        r@ == json_of_state_list(list@),
{
    let mut parts: Vec<String> = Vec::new();
    let mut i: usize = 0;
    while i < list.len()
        invariant
            0 <= i <= list@.len(),
            parts@.len() == i,
            forall|k: int| 0 <= k < i ==> parts@[k]@ == json_of_state(#[trigger] list@[k]),
        decreases list@.len() - i,
    {
        parts.push(json_state(&list[i]));
        i = i + 1;
    }
    proof {
        assert(forall|k: int| 0 <= k < parts@.len() ==> parts.deep_view()[k] == parts@[k]@);
        assert(parts.deep_view() =~= list@.map_values(|e: State| json_of_state(e)));
    }
    join_json_array(&parts)
}

pub open spec fn xml_of_state(e: State) -> Seq<char> {
    "<state"@ + xml_attr("name"@, e.name@) + xml_attr("country"@, e.country@) + xml_attr(
        "stationcount"@,
        spec_dec(e.stationcount as int),
    ) + "/>"@
}

fn xml_state(e: &State) -> (r: String)
    ensures
        r@ == xml_of_state(*e),
{
    let mut out = String::new();
    out.append("<state");
    xml_attr_append(&mut out, "name", e.name.as_str());
    xml_attr_append(&mut out, "country", e.country.as_str());
    let d = u32_to_string(e.stationcount);
    xml_attr_append(&mut out, "stationcount", d.as_str());
    out.append("/>");
    proof {
        assert(out@ =~= xml_of_state(*e));
    }
    out
}

pub open spec fn xml_of_state_list(list: Seq<State>) -> Seq<char> {
    spec_xml_result(list.map_values(|e: State| xml_of_state(e)))
}

/// Renders a state list as an XML `result` document.
pub fn xml_state_list(list: &Vec<State>) -> (r: String)
    ensures
        r@ == xml_of_state_list(list@),
{
    let mut parts: Vec<String> = Vec::new();
    let mut i: usize = 0;
    while i < list.len()
        invariant
            0 <= i <= list@.len(),
            parts@.len() == i,
            forall|k: int| 0 <= k < i ==> parts@[k]@ == xml_of_state(#[trigger] list@[k]),
        decreases list@.len() - i,
    {
        parts.push(xml_state(&list[i]));
        i = i + 1;
    }
    proof {
        assert(forall|k: int| 0 <= k < parts@.len() ==> parts.deep_view()[k] == parts@[k]@);
        assert(parts.deep_view() =~= list@.map_values(|e: State| xml_of_state(e)));
    }
    xml_result_doc(&parts)
}

/// One station row as the data store hands it out.
#[derive(Clone)]
pub struct StationItem {
    pub stationuuid: String,
    pub name: String,
    pub url: String,
}

pub open spec fn json_of_station(e: StationItem) -> Seq<char> {
    "{\"stationuuid\":"@ + json_str(e.stationuuid@) + ",\"name\":"@ + json_str(e.name@)
        + ",\"url\":"@ + json_str(e.url@) + "}"@
}

fn json_station(e: &StationItem) -> (r: String)
    ensures
        r@ == json_of_station(*e),
{
    let mut out = String::new();
    out.append("{\"stationuuid\":");
    let q = json_quote(e.stationuuid.as_str());
    out.append(q.as_str());
    out.append(",\"name\":");
    let q2 = json_quote(e.name.as_str());
    out.append(q2.as_str());
    out.append(",\"url\":");
    let q3 = json_quote(e.url.as_str());
    out.append(q3.as_str());
    out.append("}");
    proof {
        assert(out@ =~= json_of_station(*e));
    }
    out
}

pub open spec fn json_of_station_list(list: Seq<StationItem>) -> Seq<char> {
    spec_json_array(list.map_values(|e: StationItem| json_of_station(e)))
}

/// Renders a station list as JSON.
pub fn json_station_list(list: &Vec<StationItem>) -> (r: String)
    ensures
        r@ == json_of_station_list(list@),
{
    let mut parts: Vec<String> = Vec::new();
    let mut i: usize = 0;
    while i < list.len()
        invariant
            0 <= i <= list@.len(),
            parts@.len() == i,
            forall|k: int| 0 <= k < i ==> parts@[k]@ == json_of_station(#[trigger] list@[k]),
        decreases list@.len() - i,
    {
        parts.push(json_station(&list[i]));
        i = i + 1;
    }
    proof {
        assert(forall|k: int| 0 <= k < parts@.len() ==> parts.deep_view()[k] == parts@[k]@);
        assert(parts.deep_view() =~= list@.map_values(|e: StationItem| json_of_station(e)));
    }
    join_json_array(&parts)
}

pub open spec fn xml_of_station(e: StationItem) -> Seq<char> {
    "<station"@ + xml_attr("stationuuid"@, e.stationuuid@) + xml_attr("name"@, e.name@) + xml_attr(
        "url"@,
        e.url@,
    ) + "/>"@
}

fn xml_station(e: &StationItem) -> (r: String)
    ensures
        r@ == xml_of_station(*e),
{
    let mut out = String::new();
    out.append("<station");
    xml_attr_append(&mut out, "stationuuid", e.stationuuid.as_str());
    xml_attr_append(&mut out, "name", e.name.as_str());
    xml_attr_append(&mut out, "url", e.url.as_str());
    out.append("/>");
    proof {
        assert(out@ =~= xml_of_station(*e));
    }
    out
}

pub open spec fn xml_of_station_list(list: Seq<StationItem>) -> Seq<char> {
    spec_xml_result(list.map_values(|e: StationItem| xml_of_station(e)))
}

/// Renders a station list as an XML `result` document.
pub fn xml_station_list(list: &Vec<StationItem>) -> (r: String)
    ensures
        r@ == xml_of_station_list(list@),
{
    let mut parts: Vec<String> = Vec::new();
    let mut i: usize = 0;
    while i < list.len()
        invariant
            0 <= i <= list@.len(),
            parts@.len() == i,
            forall|k: int| 0 <= k < i ==> parts@[k]@ == xml_of_station(#[trigger] list@[k]),
        decreases list@.len() - i,
    {
        parts.push(xml_station(&list[i]));
        i = i + 1;
    }
    proof {
        assert(forall|k: int| 0 <= k < parts@.len() ==> parts.deep_view()[k] == parts@[k]@);
        assert(parts.deep_view() =~= list@.map_values(|e: StationItem| xml_of_station(e)));
    }
    xml_result_doc(&parts)
}

/// One station as an M3U playlist entry.
pub open spec fn m3u_of_station(e: StationItem) -> Seq<char> {
    "#EXTINF:1,"@ + e.name@ + "\n"@ + e.url@ + "\n"@
}

pub open spec fn m3u_of_station_list(list: Seq<StationItem>) -> Seq<char> {
    "#EXTM3U\n"@ + concat_all(
        list.map_values(|e: StationItem| m3u_of_station(e)),
        list.len() as int,
    )
}

/// Renders a station list as an M3U playlist.
pub fn m3u_station_list(list: &Vec<StationItem>) -> (r: String)
    ensures
        r@ == m3u_of_station_list(list@),
{
    let mut out = String::new();
    out.append("#EXTM3U\n");
    let ghost items = list@.map_values(|e: StationItem| m3u_of_station(e));
    let mut i: usize = 0;
    proof {
        assert(out@ =~= "#EXTM3U\n"@ + concat_all(items, 0));
    }
    while i < list.len()
        invariant
            0 <= i <= list@.len(),
            items == list@.map_values(|e: StationItem| m3u_of_station(e)),
            out@ == "#EXTM3U\n"@ + concat_all(items, i as int),
        decreases list@.len() - i,
    {
        out.append("#EXTINF:1,");
        out.append(list[i].name.as_str());
        out.append("\n");
        out.append(list[i].url.as_str());
        out.append("\n");
        i = i + 1;
        proof {
            assert(out@ =~= "#EXTM3U\n"@ + concat_all(items, i as int));
        }
    }
    out
}

/// One station as a PLS playlist entry; `k` is its one-based position.
pub open spec fn pls_of_station(e: StationItem, k: int) -> Seq<char> {
    "File"@ + spec_dec(k) + "="@ + e.url@ + "\nTitle"@ + spec_dec(k) + "="@ + e.name@ + "\n"@
}

pub open spec fn pls_entries(list: Seq<StationItem>, n: int) -> Seq<char>
    decreases n,
{
    if n <= 0 {
        Seq::empty()
    } else {
        pls_entries(list, n - 1) + pls_of_station(list[n - 1], n)
    }
}

pub open spec fn pls_of_station_list(list: Seq<StationItem>) -> Seq<char> {
    "[playlist]\n"@ + pls_entries(list, list.len() as int) + "NumberOfEntries="@ + spec_dec(
        list.len() as int,
    ) + "\n"@
}

/// Renders a station list as a PLS playlist.
pub fn pls_station_list(list: &Vec<StationItem>) -> (r: String)
    ensures
        r@ == pls_of_station_list(list@),
{
    let mut out = String::new();
    out.append("[playlist]\n");
    let mut i: usize = 0;
    proof {
        assert(out@ =~= "[playlist]\n"@ + pls_entries(list@, 0));
    }
    while i < list.len()
        invariant
            0 <= i <= list@.len(),
            out@ == "[playlist]\n"@ + pls_entries(list@, i as int),
        decreases list@.len() - i,
    {
        out.append("File");
        let d = dec_u64((i + 1) as u64);
        out.append(d.as_str());
        out.append("=");
        out.append(list[i].url.as_str());
        out.append("\nTitle");
        out.append(d.as_str());
        out.append("=");
        out.append(list[i].name.as_str());
        out.append("\n");
        i = i + 1;
        proof {
            assert(out@ =~= "[playlist]\n"@ + pls_entries(list@, i as int));
        }
    }
    out.append("NumberOfEntries=");
    let n = dec_u64(list.len() as u64);
    out.append(n.as_str());
    out.append("\n");
    proof {
        assert(out@ =~= pls_of_station_list(list@));
    }
    out
}

/// One entry of a station's change history.
#[derive(Clone)]
pub struct StationHistoryCurrent {
    pub changeuuid: String,
    pub stationuuid: String,
    pub name: String,
}

pub open spec fn json_of_change(e: StationHistoryCurrent) -> Seq<char> {
    "{\"changeuuid\":"@ + json_str(e.changeuuid@) + ",\"stationuuid\":"@ + json_str(
        e.stationuuid@,
    ) + ",\"name\":"@ + json_str(e.name@) + "}"@
}

fn json_change(e: &StationHistoryCurrent) -> (r: String)
    ensures
        r@ == json_of_change(*e),
{
    let mut out = String::new();
    out.append("{\"changeuuid\":");
    let q = json_quote(e.changeuuid.as_str());
    out.append(q.as_str());
    out.append(",\"stationuuid\":");
    let q2 = json_quote(e.stationuuid.as_str());
    out.append(q2.as_str());
    out.append(",\"name\":");
    let q3 = json_quote(e.name.as_str());
    out.append(q3.as_str());
    out.append("}");
    proof {
        assert(out@ =~= json_of_change(*e));
    }
    out
}

pub open spec fn json_of_change_list(list: Seq<StationHistoryCurrent>) -> Seq<char> {
    spec_json_array(list.map_values(|e: StationHistoryCurrent| json_of_change(e)))
}

/// Renders a change-history list as JSON.
pub fn json_change_list(list: &Vec<StationHistoryCurrent>) -> (r: String)
    ensures
        r@ == json_of_change_list(list@),
{
    let mut parts: Vec<String> = Vec::new();
    let mut i: usize = 0;
    while i < list.len()
        invariant
            0 <= i <= list@.len(),
            parts@.len() == i,
            forall|k: int| 0 <= k < i ==> parts@[k]@ == json_of_change(#[trigger] list@[k]),
        decreases list@.len() - i,
    {
        parts.push(json_change(&list[i]));
        i = i + 1;
    }
    proof {
        assert(forall|k: int| 0 <= k < parts@.len() ==> parts.deep_view()[k] == parts@[k]@);
        assert(parts.deep_view() =~= list@.map_values(|e: StationHistoryCurrent| json_of_change(e)));
    }
    join_json_array(&parts)
}

pub open spec fn xml_of_change(e: StationHistoryCurrent) -> Seq<char> {
    "<station"@ + xml_attr("changeuuid"@, e.changeuuid@) + xml_attr(
        "stationuuid"@,
        e.stationuuid@,
    ) + xml_attr("name"@, e.name@) + "/>"@
}

fn xml_change(e: &StationHistoryCurrent) -> (r: String)
    ensures
        r@ == xml_of_change(*e),
{
    let mut out = String::new();
    out.append("<station");
    xml_attr_append(&mut out, "changeuuid", e.changeuuid.as_str());
    xml_attr_append(&mut out, "stationuuid", e.stationuuid.as_str());
    xml_attr_append(&mut out, "name", e.name.as_str());
    out.append("/>");
    proof {
        assert(out@ =~= xml_of_change(*e));
    }
    out
}

pub open spec fn xml_of_change_list(list: Seq<StationHistoryCurrent>) -> Seq<char> {
    spec_xml_result(list.map_values(|e: StationHistoryCurrent| xml_of_change(e)))
}

/// Renders a change-history list as an XML `result` document.
pub fn xml_change_list(list: &Vec<StationHistoryCurrent>) -> (r: String)
    ensures
        r@ == xml_of_change_list(list@),
{
    let mut parts: Vec<String> = Vec::new();
    let mut i: usize = 0;
    while i < list.len()
        invariant
            0 <= i <= list@.len(),
            parts@.len() == i,
            forall|k: int| 0 <= k < i ==> parts@[k]@ == xml_of_change(#[trigger] list@[k]),
        decreases list@.len() - i,
    {
        parts.push(xml_change(&list[i]));
        i = i + 1;
    }
    proof {
        assert(forall|k: int| 0 <= k < parts@.len() ==> parts.deep_view()[k] == parts@[k]@);
        assert(parts.deep_view() =~= list@.map_values(|e: StationHistoryCurrent| xml_of_change(e)));
    }
    xml_result_doc(&parts)
}

/// One connectivity check of a station.
#[derive(Clone)]
pub struct StationCheck {
    pub checkuuid: String,
    pub stationuuid: String,
    pub ok: bool,
}

pub open spec fn json_of_check(e: StationCheck) -> Seq<char> {
    "{\"checkuuid\":"@ + json_str(e.checkuuid@) + ",\"stationuuid\":"@ + json_str(e.stationuuid@)
        + ",\"ok\":"@ + json_bool(e.ok) + "}"@
}

fn json_check(e: &StationCheck) -> (r: String)
    ensures
        r@ == json_of_check(*e),
{
    let mut out = String::new();
    out.append("{\"checkuuid\":");
    let q = json_quote(e.checkuuid.as_str());
    out.append(q.as_str());
    out.append(",\"stationuuid\":");
    let q2 = json_quote(e.stationuuid.as_str());
    out.append(q2.as_str());
    out.append(",\"ok\":");
    out.append(json_bool_str(e.ok));
    out.append("}");
    proof {
        assert(out@ =~= json_of_check(*e));
    }
    out
}

pub open spec fn json_of_check_list(list: Seq<StationCheck>) -> Seq<char> {
    spec_json_array(list.map_values(|e: StationCheck| json_of_check(e)))
}

/// Renders a check list as JSON.
pub fn json_check_list(list: &Vec<StationCheck>) -> (r: String)
    ensures
        r@ == json_of_check_list(list@),
{
    let mut parts: Vec<String> = Vec::new();
    let mut i: usize = 0;
    while i < list.len()
        invariant
            0 <= i <= list@.len(),
            parts@.len() == i,
            forall|k: int| 0 <= k < i ==> parts@[k]@ == json_of_check(#[trigger] list@[k]),
        decreases list@.len() - i,
    {
        parts.push(json_check(&list[i]));
        i = i + 1;
    }
    proof {
        assert(forall|k: int| 0 <= k < parts@.len() ==> parts.deep_view()[k] == parts@[k]@);
        assert(parts.deep_view() =~= list@.map_values(|e: StationCheck| json_of_check(e)));
    }
    join_json_array(&parts)
}

pub open spec fn xml_of_check(e: StationCheck) -> Seq<char> {
    "<check"@ + xml_attr("checkuuid"@, e.checkuuid@) + xml_attr("stationuuid"@, e.stationuuid@)
        + xml_attr("ok"@, json_bool(e.ok)) + "/>"@
}

fn xml_check(e: &StationCheck) -> (r: String)
    ensures
        r@ == xml_of_check(*e),
{
    let mut out = String::new();
    out.append("<check");
    xml_attr_append(&mut out, "checkuuid", e.checkuuid.as_str());
    xml_attr_append(&mut out, "stationuuid", e.stationuuid.as_str());
    xml_attr_append(&mut out, "ok", json_bool_str(e.ok));
    out.append("/>");
    proof {
        assert(out@ =~= xml_of_check(*e));
    }
    out
}

pub open spec fn xml_of_check_list(list: Seq<StationCheck>) -> Seq<char> {
    spec_xml_result(list.map_values(|e: StationCheck| xml_of_check(e)))
}

/// Renders a check list as an XML `result` document.
pub fn xml_check_list(list: &Vec<StationCheck>) -> (r: String)
    ensures
        r@ == xml_of_check_list(list@),
{
    let mut parts: Vec<String> = Vec::new();
    let mut i: usize = 0;
    while i < list.len()
        invariant
            0 <= i <= list@.len(),
            parts@.len() == i,
            forall|k: int| 0 <= k < i ==> parts@[k]@ == xml_of_check(#[trigger] list@[k]),
        decreases list@.len() - i,
    {
        parts.push(xml_check(&list[i]));
        i = i + 1;
    }
    proof {
        assert(forall|k: int| 0 <= k < parts@.len() ==> parts.deep_view()[k] == parts@[k]@);
        assert(parts.deep_view() =~= list@.map_values(|e: StationCheck| xml_of_check(e)));
    }
    xml_result_doc(&parts)
}

/// One recorded play click.
#[derive(Clone)]
pub struct StationClick {
    pub stationuuid: String,
    pub clickuuid: String,
}

pub open spec fn json_of_click(e: StationClick) -> Seq<char> {
    "{\"stationuuid\":"@ + json_str(e.stationuuid@) + ",\"clickuuid\":"@ + json_str(e.clickuuid@)
        + "}"@
}

fn json_click(e: &StationClick) -> (r: String)
    ensures
        r@ == json_of_click(*e),
{
    let mut out = String::new();
    out.append("{\"stationuuid\":");
    let q = json_quote(e.stationuuid.as_str());
    out.append(q.as_str());
    out.append(",\"clickuuid\":");
    let q2 = json_quote(e.clickuuid.as_str());
    out.append(q2.as_str());
    out.append("}");
    proof {
        assert(out@ =~= json_of_click(*e));
    }
    out
}

pub open spec fn json_of_click_list(list: Seq<StationClick>) -> Seq<char> {
    spec_json_array(list.map_values(|e: StationClick| json_of_click(e)))
}

/// Renders a click list as JSON.
pub fn json_click_list(list: &Vec<StationClick>) -> (r: String)
    ensures
        r@ == json_of_click_list(list@),
{
    let mut parts: Vec<String> = Vec::new();
    let mut i: usize = 0;
    while i < list.len()
        invariant
            0 <= i <= list@.len(),
            parts@.len() == i,
            forall|k: int| 0 <= k < i ==> parts@[k]@ == json_of_click(#[trigger] list@[k]),
        decreases list@.len() - i,
    {
        parts.push(json_click(&list[i]));
        i = i + 1;
    }
    proof {
        assert(forall|k: int| 0 <= k < parts@.len() ==> parts.deep_view()[k] == parts@[k]@);
        assert(parts.deep_view() =~= list@.map_values(|e: StationClick| json_of_click(e)));
    }
    join_json_array(&parts)
}

pub open spec fn xml_of_click(e: StationClick) -> Seq<char> {
    "<click"@ + xml_attr("stationuuid"@, e.stationuuid@) + xml_attr("clickuuid"@, e.clickuuid@)
        + "/>"@
}

fn xml_click(e: &StationClick) -> (r: String)
    ensures
        r@ == xml_of_click(*e),
{
    let mut out = String::new();
    out.append("<click");
    xml_attr_append(&mut out, "stationuuid", e.stationuuid.as_str());
    xml_attr_append(&mut out, "clickuuid", e.clickuuid.as_str());
    out.append("/>");
    proof {
        assert(out@ =~= xml_of_click(*e));
    }
    out
}

pub open spec fn xml_of_click_list(list: Seq<StationClick>) -> Seq<char> {
    spec_xml_result(list.map_values(|e: StationClick| xml_of_click(e)))
}

/// Renders a click list as an XML `result` document.
pub fn xml_click_list(list: &Vec<StationClick>) -> (r: String)
    ensures
        r@ == xml_of_click_list(list@),
{
    let mut parts: Vec<String> = Vec::new();
    let mut i: usize = 0;
    while i < list.len()
        invariant
            0 <= i <= list@.len(),
            parts@.len() == i,
            forall|k: int| 0 <= k < i ==> parts@[k]@ == xml_of_click(#[trigger] list@[k]),
        decreases list@.len() - i,
    {
        parts.push(xml_click(&list[i]));
        i = i + 1;
    }
    proof {
        assert(forall|k: int| 0 <= k < parts@.len() ==> parts.deep_view()[k] == parts@[k]@);
        assert(parts.deep_view() =~= list@.map_values(|e: StationClick| xml_of_click(e)));
    }
    xml_result_doc(&parts)
}

/// The outcome of a submission endpoint, carried in the response body.
#[derive(Clone)]
pub struct ResultMessage {
    pub ok: bool,
    pub message: String,
}

impl ResultMessage {
    pub fn new(ok: bool, message: String) -> (r: ResultMessage)
        ensures
            r.ok == ok,
            r.message@ == message@,
    {
        ResultMessage { ok, message }
    }
}

pub open spec fn json_of_message_parts(ok: bool, message: Seq<char>) -> Seq<char> {
    "{\"ok\":"@ + json_bool(ok) + ",\"message\":"@ + json_str(message) + "}"@
}

pub open spec fn json_of_message(m: ResultMessage) -> Seq<char> {
    json_of_message_parts(m.ok, m.message@)
}

/// Renders a submission outcome as JSON.
pub fn json_message(m: &ResultMessage) -> (r: String)
    ensures
        r@ == json_of_message(*m),
{
    let mut out = String::new();
    out.append("{\"ok\":");
    out.append(json_bool_str(m.ok));
    out.append(",\"message\":");
    let q = json_quote(m.message.as_str());
    out.append(q.as_str());
    out.append("}");
    proof {
        assert(out@ =~= json_of_message(*m));
    }
    out
}

pub open spec fn xml_of_message_parts(ok: bool, message: Seq<char>) -> Seq<char> {
    "<result><status"@ + xml_attr("ok"@, json_bool(ok)) + xml_attr("message"@, message)
        + "/></result>"@
}

pub open spec fn xml_of_message(m: ResultMessage) -> Seq<char> {
    xml_of_message_parts(m.ok, m.message@)
}

/// Renders a submission outcome as an XML `result` document.
pub fn xml_message(m: &ResultMessage) -> (r: String)
    ensures
        r@ == xml_of_message(*m),
{
    let mut out = String::new();
    out.append("<result><status");
    xml_attr_append(&mut out, "ok", json_bool_str(m.ok));
    xml_attr_append(&mut out, "message", m.message.as_str());
    out.append("/></result>");
    proof {
        assert(out@ =~= xml_of_message(*m));
    }
    out
}

/// The short station view returned by the play-URL endpoint.
#[derive(Clone)]
pub struct StationCachedInfo {
    pub ok: bool,
    pub message: String,
    pub stationuuid: String,
    pub name: String,
    pub url: String,
}

/// Reduces a station to the short view the play-URL endpoint returns.
pub fn extract_cached_info(station: &StationItem, message: &str) -> (r: StationCachedInfo)
    ensures
        r.ok == true,
        r.message@ == message@,
        r.stationuuid@ == station.stationuuid@,
        r.name@ == station.name@,
        r.url@ == station.url@,
{
    StationCachedInfo {
        ok: true,
        message: message.to_owned(),
        stationuuid: station.stationuuid.clone(),
        name: station.name.clone(),
        url: station.url.clone(),
    }
}

pub open spec fn json_of_cached_info_parts(
    ok: bool,
    message: Seq<char>,
    stationuuid: Seq<char>,
    name: Seq<char>,
    url: Seq<char>,
) -> Seq<char> {
    "{\"ok\":"@ + json_bool(ok) + ",\"message\":"@ + json_str(message) + ",\"stationuuid\":"@
        + json_str(stationuuid) + ",\"name\":"@ + json_str(name) + ",\"url\":"@ + json_str(url)
        + "}"@
}

pub open spec fn json_of_cached_info(c: StationCachedInfo) -> Seq<char> {
    json_of_cached_info_parts(c.ok, c.message@, c.stationuuid@, c.name@, c.url@)
}

/// Renders the short station view as JSON.
pub fn json_cached_info(c: &StationCachedInfo) -> (r: String)
    ensures
        r@ == json_of_cached_info(*c),
{
    let mut out = String::new();
    out.append("{\"ok\":");
    out.append(json_bool_str(c.ok));
    out.append(",\"message\":");
    let q = json_quote(c.message.as_str());
    out.append(q.as_str());
    out.append(",\"stationuuid\":");
    let q2 = json_quote(c.stationuuid.as_str());
    out.append(q2.as_str());
    out.append(",\"name\":");
    let q3 = json_quote(c.name.as_str());
    out.append(q3.as_str());
    out.append(",\"url\":");
    let q4 = json_quote(c.url.as_str());
    out.append(q4.as_str());
    out.append("}");
    proof {
        assert(out@ =~= json_of_cached_info(*c));
    }
    out
}

pub open spec fn xml_of_cached_info_parts(
    ok: bool,
    message: Seq<char>,
    stationuuid: Seq<char>,
    name: Seq<char>,
    url: Seq<char>,
) -> Seq<char> {
    "<result><status"@ + xml_attr("ok"@, json_bool(ok)) + xml_attr("message"@, message) + xml_attr(
        "stationuuid"@,
        stationuuid,
    ) + xml_attr("name"@, name) + xml_attr("url"@, url) + "/></result>"@
}

pub open spec fn xml_of_cached_info(c: StationCachedInfo) -> Seq<char> {
    xml_of_cached_info_parts(c.ok, c.message@, c.stationuuid@, c.name@, c.url@)
}

/// Renders the short station view as an XML `result` document.
pub fn xml_cached_info(c: &StationCachedInfo) -> (r: String)
    ensures
        r@ == xml_of_cached_info(*c),
{
    let mut out = String::new();
    out.append("<result><status");
    xml_attr_append(&mut out, "ok", json_bool_str(c.ok));
    xml_attr_append(&mut out, "message", c.message.as_str());
    xml_attr_append(&mut out, "stationuuid", c.stationuuid.as_str());
    xml_attr_append(&mut out, "name", c.name.as_str());
    xml_attr_append(&mut out, "url", c.url.as_str());
    out.append("/></result>");
    proof {
        assert(out@ =~= xml_of_cached_info(*c));
    }
    out
}

/// The outcome of a station submission.
#[derive(Clone)]
pub struct StationAddResult {
    pub ok: bool,
    pub message: String,
    pub uuid: String,
}

/// Builds the submission outcome from what the data store returned:
/// the fresh UUID on success, the error text otherwise.
pub fn add_result_from(r: Result<String, crate::error::ApiError>) -> (out: StationAddResult)
    ensures
        match r {
            Ok(uuid) => out.ok == true && out.message@ == "added station successfully"@
                && out.uuid@ == uuid@,
            Err(e) => out.ok == false && out.message@ == e.spec_message() && out.uuid@
                == Seq::<char>::empty(),
        },
{
    match r {
        Ok(uuid) => StationAddResult {
            ok: true,
            message: "added station successfully".to_owned(),
            uuid,
        },
        Err(e) => StationAddResult { ok: false, message: e.message().to_owned(), uuid: String::new() },
    }
}

pub open spec fn json_of_add_result(a: StationAddResult) -> Seq<char> {
    "{\"ok\":"@ + json_bool(a.ok) + ",\"message\":"@ + json_str(a.message@) + ",\"uuid\":"@
        + json_str(a.uuid@) + "}"@
}

/// Renders a submission outcome, UUID included, as JSON.
pub fn json_add_result(a: &StationAddResult) -> (r: String)
    ensures
        r@ == json_of_add_result(*a),
{
    let mut out = String::new();
    out.append("{\"ok\":");
    out.append(json_bool_str(a.ok));
    out.append(",\"message\":");
    let q = json_quote(a.message.as_str());
    out.append(q.as_str());
    out.append(",\"uuid\":");
    let q2 = json_quote(a.uuid.as_str());
    out.append(q2.as_str());
    out.append("}");
    proof {
        assert(out@ =~= json_of_add_result(*a));
    }
    out
}

pub open spec fn xml_of_add_result(a: StationAddResult) -> Seq<char> {
    "<result><status"@ + xml_attr("ok"@, json_bool(a.ok)) + xml_attr("message"@, a.message@)
        + xml_attr("uuid"@, a.uuid@) + "/></result>"@
}

/// Renders a submission outcome, UUID included, as an XML document.
pub fn xml_add_result(a: &StationAddResult) -> (r: String)
    ensures
        r@ == xml_of_add_result(*a),
{
    let mut out = String::new();
    out.append("<result><status");
    xml_attr_append(&mut out, "ok", json_bool_str(a.ok));
    xml_attr_append(&mut out, "message", a.message.as_str());
    xml_attr_append(&mut out, "uuid", a.uuid.as_str());
    out.append("/></result>");
    proof {
        assert(out@ =~= xml_of_add_result(*a));
    }
    out
}

/// The aggregate health snapshot served by the stats endpoint.
#[derive(Clone)]
pub struct Status {
    pub supported_version: u32,
    pub software_version: Option<String>,
    pub status: String,
    pub stations: u64,
    pub stations_broken: u64,
    pub tags: u64,
    pub clicks_last_hour: u64,
    pub clicks_last_day: u64,
    pub languages: u64,
    pub countries: u64,
}

impl Status {
    pub fn new(
        supported_version: u32,
        software_version: Option<String>,
        status: String,
        stations: u64,
        stations_broken: u64,
        tags: u64,
        clicks_last_hour: u64,
        clicks_last_day: u64,
        languages: u64,
        countries: u64,
    ) -> (r: Status)
        ensures
            r == (Status {
                supported_version,
                software_version,
                status,
                stations,
                stations_broken,
                tags,
                clicks_last_hour,
                clicks_last_day,
                languages,
                countries,
            }),
    {
        Status {
            supported_version,
            software_version,
            status,
            stations,
            stations_broken,
            tags,
            clicks_last_hour,
            clicks_last_day,
            languages,
            countries,
        }
    }

    pub open spec fn spec_software_version(self) -> Option<Seq<char>> {
        match self.software_version {
            Option::Some(v) => Option::Some(v@),
            Option::None => Option::None,
        }
    }
}

pub open spec fn json_of_status(s: Status) -> Seq<char> {
    "{\"supported_version\":"@ + spec_dec(s.supported_version as int) + ",\"software_version\":"@
        + json_opt_str(s.spec_software_version()) + ",\"status\":"@ + json_str(s.status@)
        + ",\"stations\":"@ + spec_dec(s.stations as int) + ",\"stations_broken\":"@ + spec_dec(
        s.stations_broken as int,
    ) + ",\"tags\":"@ + spec_dec(s.tags as int) + ",\"clicks_last_hour\":"@ + spec_dec(
        s.clicks_last_hour as int,
    ) + ",\"clicks_last_day\":"@ + spec_dec(s.clicks_last_day as int) + ",\"languages\":"@
        + spec_dec(s.languages as int) + ",\"countries\":"@ + spec_dec(s.countries as int) + "}"@
}

/// Renders the health snapshot as JSON.
pub fn json_status(s: &Status) -> (r: String)
    ensures
        r@ == json_of_status(*s),
{
    let mut out = String::new();
    out.append("{\"supported_version\":");
    let d0 = u32_to_string(s.supported_version);
    out.append(d0.as_str());
    out.append(",\"software_version\":");
    let v = json_opt_quote(&s.software_version);
    out.append(v.as_str());
    out.append(",\"status\":");
    let q = json_quote(s.status.as_str());
    out.append(q.as_str());
    out.append(",\"stations\":");
    let d1 = dec_u64(s.stations);
    out.append(d1.as_str());
    out.append(",\"stations_broken\":");
    let d2 = dec_u64(s.stations_broken);
    out.append(d2.as_str());
    out.append(",\"tags\":");
    let d3 = dec_u64(s.tags);
    out.append(d3.as_str());
    out.append(",\"clicks_last_hour\":");
    let d4 = dec_u64(s.clicks_last_hour);
    out.append(d4.as_str());
    out.append(",\"clicks_last_day\":");
    let d5 = dec_u64(s.clicks_last_day);
    out.append(d5.as_str());
    out.append(",\"languages\":");
    let d6 = dec_u64(s.languages);
    out.append(d6.as_str());
    out.append(",\"countries\":");
    let d7 = dec_u64(s.countries);
    out.append(d7.as_str());
    out.append("}");
    proof {
        assert(out@ =~= json_of_status(*s));
    }
    out
}

pub open spec fn xml_of_status(s: Status) -> Seq<char> {
    "<result><stats"@ + xml_attr("supported_version"@, spec_dec(s.supported_version as int))
        + (match s.spec_software_version() {
        Option::Some(v) => xml_attr("software_version"@, v),
        Option::None => Seq::<char>::empty(),
    }) + xml_attr("status"@, s.status@) + xml_attr("stations"@, spec_dec(s.stations as int))
        + xml_attr("stations_broken"@, spec_dec(s.stations_broken as int)) + xml_attr(
        "tags"@,
        spec_dec(s.tags as int),
    ) + xml_attr("clicks_last_hour"@, spec_dec(s.clicks_last_hour as int)) + xml_attr(
        "clicks_last_day"@,
        spec_dec(s.clicks_last_day as int),
    ) + xml_attr("languages"@, spec_dec(s.languages as int)) + xml_attr(
        "countries"@,
        spec_dec(s.countries as int),
    ) + "/></result>"@
}

/// Renders the health snapshot as an XML `result` document.
pub fn xml_status(s: &Status) -> (r: String)
    ensures
        r@ == xml_of_status(*s),
{
    let mut out = String::new();
    out.append("<result><stats");
    let d0 = u32_to_string(s.supported_version);
    xml_attr_append(&mut out, "supported_version", d0.as_str());
    match &s.software_version {
        Option::Some(v) => {
            xml_attr_append(&mut out, "software_version", v.as_str());
        },
        Option::None => {},
    }
    xml_attr_append(&mut out, "status", s.status.as_str());
    let d1 = dec_u64(s.stations);
    xml_attr_append(&mut out, "stations", d1.as_str());
    let d2 = dec_u64(s.stations_broken);
    xml_attr_append(&mut out, "stations_broken", d2.as_str());
    let d3 = dec_u64(s.tags);
    xml_attr_append(&mut out, "tags", d3.as_str());
    let d4 = dec_u64(s.clicks_last_hour);
    xml_attr_append(&mut out, "clicks_last_hour", d4.as_str());
    let d5 = dec_u64(s.clicks_last_day);
    xml_attr_append(&mut out, "clicks_last_day", d5.as_str());
    let d6 = dec_u64(s.languages);
    xml_attr_append(&mut out, "languages", d6.as_str());
    let d7 = dec_u64(s.countries);
    xml_attr_append(&mut out, "countries", d7.as_str());
    out.append("/></result>");
    proof {
        assert(out@ =~= xml_of_status(*s));
    }
    out
}

} // verus!
