//! The uniform typed view over query-string and form parameters, and
//! the frozen per-request parameter record whose serialization is the
//! response-cache key.

use vstd::prelude::*;
use crate::encode::json_bool;
use crate::encode::json_bool_str;
use crate::encode::json_opt_str;
use crate::encode::json_opt_quote;
use crate::encode::json_quote;
use crate::encode::json_str;
use crate::encode::json_str_array;
use crate::encode::json_string_array;
use crate::strutil::spec_dec;
use crate::strutil::spec_parse_u32;
use crate::strutil::spec_trim;
use crate::strutil::split_seq;
use crate::strutil::split_str;
use crate::strutil::str_eq;
use crate::strutil::parse_u32;
use crate::strutil::trim_str;
use crate::strutil::u32_to_string;

verus! {

/// The character sequences behind an optional string.
pub open spec fn opt_view(o: Option<String>) -> Option<Seq<char>> {
    match o {
        Option::Some(s) => Option::Some(s@),
        Option::None => Option::None,
    }
}

/// The value of the first pair named `name`, if any.
pub open spec fn first_value(ps: Seq<(Seq<char>, Seq<char>)>, name: Seq<char>) -> Option<
    Seq<char>,
>
    decreases ps.len(),
{
    if ps.len() == 0 {
        Option::None
    } else if ps[0].0 == name {
        Option::Some(ps[0].1)
    } else {
        first_value(ps.drop_first(), name)
    }
}

/// What `get_string` returns: the first value, trimmed; an empty
/// result counts as absent.
pub open spec fn spec_get_string(ps: Seq<(Seq<char>, Seq<char>)>, name: Seq<char>) -> Option<
    Seq<char>,
> {
    match first_value(ps, name) {
        Option::None => Option::None,
        Option::Some(v) => if spec_trim(v).len() == 0 {
            Option::None
        } else {
            Option::Some(spec_trim(v))
        },
    }
}

/// What `get_bool` returns: the default when absent, else whether the
/// raw value is exactly `true`.
pub open spec fn spec_get_bool(
    ps: Seq<(Seq<char>, Seq<char>)>,
    name: Seq<char>,
    default: bool,
) -> bool {
    match first_value(ps, name) {
        Option::None => default,
        Option::Some(v) => v == "true"@,
    }
}

/// What `get_number` returns: the default when absent or unparsable,
/// else the decimal value.
pub open spec fn spec_get_number(
    ps: Seq<(Seq<char>, Seq<char>)>,
    name: Seq<char>,
    default: u32,
) -> u32 {
    match first_value(ps, name) {
        Option::None => default,
        Option::Some(v) => match spec_parse_u32(v) {
            Option::Some(n) => n,
            Option::None => default,
        },
    }
}

/// Typed access over the request's query and form parameters, in
/// order of arrival.
pub struct RequestParameters {
    pairs: Vec<(String, String)>,
}

impl RequestParameters {
    /// The pairs as character sequences.
    pub closed spec fn spec_pairs(self) -> Seq<(Seq<char>, Seq<char>)> {
        self.pairs@.map_values(|p: (String, String)| (p.0@, p.1@))
    }

    pub fn new(pairs: Vec<(String, String)>) -> (r: RequestParameters)
        ensures
            r.spec_pairs() == pairs@.map_values(|p: (String, String)| (p.0@, p.1@)),
    {
        RequestParameters { pairs }
    }

    /// The raw value of the first pair named `name`.
    fn lookup_raw(&self, name: &str) -> (r: Option<String>)
        ensures
            opt_view(r) == first_value(self.spec_pairs(), name@),
    {
        let n: usize = self.pairs.len();
        let mut i: usize = 0;
        proof {
            assert(self.spec_pairs().skip(0) =~= self.spec_pairs());
        }
        while i < n
            invariant
                0 <= i <= n,
                n == self.pairs@.len(),
                first_value(self.spec_pairs(), name@) == first_value(
                    self.spec_pairs().skip(i as int),
                    name@,
                ),
            decreases n - i,
        {
            if str_eq(self.pairs[i].0.as_str(), name) {
                proof {
                    assert(self.spec_pairs().skip(i as int)[0] == self.spec_pairs()[i as int]);
                }
                return Some(self.pairs[i].1.clone());
            }
            i = i + 1;
            proof {
                assert(self.spec_pairs().skip(i - 1)[0] == self.spec_pairs()[i - 1]);
                assert(self.spec_pairs().skip(i - 1).drop_first() =~= self.spec_pairs().skip(
                    i as int,
                ));
            }
        }
        proof {
            assert(self.spec_pairs().skip(n as int) =~= Seq::<(Seq<char>, Seq<char>)>::empty());
        }
        None
    }

    /// The first value named `name`, trimmed; absent when empty.
    pub fn get_string(&self, name: &str) -> (r: Option<String>)
        ensures
            opt_view(r) == spec_get_string(self.spec_pairs(), name@),
    {
        match self.lookup_raw(name) {
            Option::Some(v) => {
                let t = trim_str(v.as_str());
                if t.unicode_len() == 0 {
                    None
                } else {
                    Some(t.to_owned())
                }
            },
            Option::None => None,
        }
    }

    /// Whether the value named `name` is exactly `true`; the default
    /// when absent.
    pub fn get_bool(&self, name: &str, default: bool) -> (r: bool)
        ensures
            r == spec_get_bool(self.spec_pairs(), name@, default),
    {
        match self.lookup_raw(name) {
            Option::Some(v) => str_eq(v.as_str(), "true"),
            Option::None => default,
        }
    }

    /// The decimal value named `name`; the default when absent or
    /// unparsable.
    pub fn get_number(&self, name: &str, default: u32) -> (r: u32)
        ensures
            r == spec_get_number(self.spec_pairs(), name@, default),
    {
        match self.lookup_raw(name) {
            Option::Some(v) => match parse_u32(v.as_str()) {
                Option::Some(n) => n,
                Option::None => default,
            },
            Option::None => default,
        }
    }
}

/// The comma-separated segments of `parts`, each trimmed, empties
/// dropped, over the first `n` segments.
pub open spec fn arr_from(parts: Seq<Seq<char>>, n: int) -> Seq<Seq<char>>
    decreases n,
{
    if n <= 0 {
        Seq::empty()
    } else {
        let t = spec_trim(parts[n - 1]);
        if t.len() == 0 {
            arr_from(parts, n - 1)
        } else {
            arr_from(parts, n - 1).push(t)
        }
    }
}

/// What `str_to_arr` yields for `s`.
pub open spec fn spec_str_to_arr(s: Seq<char>) -> Seq<Seq<char>> {
    arr_from(split_seq(s, ','), split_seq(s, ',').len() as int)
}

/// Splits a comma-separated string, trims each part and drops the
/// empty ones.
pub fn str_to_arr(string: &str) -> (r: Vec<String>)
    ensures
        r.deep_view() == spec_str_to_arr(string@),
{
    let parts: Vec<String> = split_str(string, ',');
    let mut list: Vec<String> = Vec::new();
    let ghost pd: Seq<Seq<char>> = parts.deep_view();
    let ghost mut acc: Seq<Seq<char>> = Seq::empty();
    let mut i: usize = 0;
    let n: usize = parts.len();
    while i < n
        invariant
            0 <= i <= n,
            n == parts@.len(),
            pd == parts.deep_view(),
            pd.len() == n,
            list@.len() == acc.len(),
            forall|k: int| 0 <= k < acc.len() ==> (#[trigger] list@[k])@ == acc[k],
            acc == arr_from(pd, i as int),
        decreases n - i,
    {
        let part_trimmed = trim_str(parts[i].as_str());
        proof {
            assert(parts.deep_view()[i as int] == parts@[i as int]@);
        }
        if part_trimmed.unicode_len() != 0 {
            list.push(part_trimmed.to_owned());
            proof {
                acc = acc.push(spec_trim(pd[i as int]));
            }
        }
        i = i + 1;
    }
    proof {
        assert(forall|k: int| 0 <= k < list@.len() ==> list.deep_view()[k] == list@[k]@);
        assert(list.deep_view() =~= acc);
    }
    list
}

/// Every recognized parameter of one request, frozen once and used
/// both by the router and as the source of the cache key.
pub struct AllParameters {
    pub url: String,
    pub param_tags: Option<String>,
    pub param_homepage: Option<String>,
    pub param_favicon: Option<String>,
    pub param_last_changeuuid: Option<String>,
    pub param_last_checkuuid: Option<String>,
    pub param_last_clickuuid: Option<String>,
    pub param_name: Option<String>,
    pub param_name_exact: bool,
    pub param_country: Option<String>,
    pub param_country_exact: bool,
    pub param_countrycode: Option<String>,
    pub param_state: Option<String>,
    pub param_state_exact: bool,
    pub param_language: Option<String>,
    pub param_language_exact: bool,
    pub param_tag: Option<String>,
    pub param_tag_exact: bool,
    pub param_tag_list: Vec<String>,
    pub param_codec: Option<String>,
    pub param_bitrate_min: u32,
    pub param_bitrate_max: u32,
    pub param_order: String,
    pub param_reverse: bool,
    pub param_hidebroken: bool,
    pub param_offset: u32,
    pub param_limit: u32,
    pub param_seconds: u32,
    pub param_url: Option<String>,
}

/// How a frozen record relates to the URL and parameter pairs it was
/// built from: every field carries the typed view of its parameter,
/// with the documented defaults.
pub open spec fn params_from(
    p: AllParameters,
    url: Seq<char>,
    ps: Seq<(Seq<char>, Seq<char>)>,
) -> bool {
    &&& p.url@ == url
    &&& opt_view(p.param_tags) == spec_get_string(ps, "tags"@)
    &&& opt_view(p.param_homepage) == spec_get_string(ps, "homepage"@)
    &&& opt_view(p.param_favicon) == spec_get_string(ps, "favicon"@)
    &&& opt_view(p.param_last_changeuuid) == spec_get_string(ps, "lastchangeuuid"@)
    &&& opt_view(p.param_last_checkuuid) == spec_get_string(ps, "lastcheckuuid"@)
    &&& opt_view(p.param_last_clickuuid) == spec_get_string(ps, "lastclickuuid"@)
    &&& opt_view(p.param_name) == spec_get_string(ps, "name"@)
    &&& p.param_name_exact == spec_get_bool(ps, "nameExact"@, false)
    &&& opt_view(p.param_country) == spec_get_string(ps, "country"@)
    &&& p.param_country_exact == spec_get_bool(ps, "countryExact"@, false)
    &&& opt_view(p.param_countrycode) == spec_get_string(ps, "countrycode"@)
    &&& opt_view(p.param_state) == spec_get_string(ps, "state"@)
    &&& p.param_state_exact == spec_get_bool(ps, "stateExact"@, false)
    &&& opt_view(p.param_language) == spec_get_string(ps, "language"@)
    &&& p.param_language_exact == spec_get_bool(ps, "languageExact"@, false)
    &&& opt_view(p.param_tag) == spec_get_string(ps, "tag"@)
    &&& p.param_tag_exact == spec_get_bool(ps, "tagExact"@, false)
    &&& p.param_tag_list.deep_view() == (match spec_get_string(ps, "tagList"@) {
        Option::Some(s) => spec_str_to_arr(s),
        Option::None => spec_str_to_arr(""@),
    })
    &&& opt_view(p.param_codec) == spec_get_string(ps, "codec"@)
    &&& p.param_bitrate_min == spec_get_number(ps, "bitrateMin"@, 0)
    &&& p.param_bitrate_max == spec_get_number(ps, "bitrateMax"@, 1000000)
    &&& p.param_order@ == (match spec_get_string(ps, "order"@) {
        Option::Some(s) => s,
        Option::None => "name"@,
    })
    &&& p.param_reverse == spec_get_bool(ps, "reverse"@, false)
    &&& p.param_hidebroken == spec_get_bool(ps, "hidebroken"@, false)
    &&& p.param_offset == spec_get_number(ps, "offset"@, 0)
    &&& p.param_limit == spec_get_number(ps, "limit"@, 999999)
    &&& p.param_seconds == spec_get_number(ps, "seconds"@, 0)
    &&& opt_view(p.param_url) == spec_get_string(ps, "url"@)
}

impl AllParameters {
    /// Freezes the recognized parameters of one request.
    pub fn new(url: String, ppp: &RequestParameters) -> (r: AllParameters)
        ensures
            params_from(r, url@, ppp.spec_pairs()),
    {
        let param_tag_list: Vec<String> = match ppp.get_string("tagList") {
            Option::Some(s) => str_to_arr(s.as_str()),
            Option::None => str_to_arr(""),
        };
        let param_order: String = match ppp.get_string("order") {
            Option::Some(s) => s,
            Option::None => "name".to_owned(),
        };
        AllParameters {
            url,
            param_tags: ppp.get_string("tags"),
            param_homepage: ppp.get_string("homepage"),
            param_favicon: ppp.get_string("favicon"),
            param_last_changeuuid: ppp.get_string("lastchangeuuid"),
            param_last_checkuuid: ppp.get_string("lastcheckuuid"),
            param_last_clickuuid: ppp.get_string("lastclickuuid"),
            param_name: ppp.get_string("name"),
            param_name_exact: ppp.get_bool("nameExact", false),
            param_country: ppp.get_string("country"),
            param_country_exact: ppp.get_bool("countryExact", false),
            param_countrycode: ppp.get_string("countrycode"),
            param_state: ppp.get_string("state"),
            param_state_exact: ppp.get_bool("stateExact", false),
            param_language: ppp.get_string("language"),
            param_language_exact: ppp.get_bool("languageExact", false),
            param_tag: ppp.get_string("tag"),
            param_tag_exact: ppp.get_bool("tagExact", false),
            param_tag_list,
            param_codec: ppp.get_string("codec"),
            param_bitrate_min: ppp.get_number("bitrateMin", 0),
            param_bitrate_max: ppp.get_number("bitrateMax", 1000000),
            param_order,
            param_reverse: ppp.get_bool("reverse", false),
            param_hidebroken: ppp.get_bool("hidebroken", false),
            param_offset: ppp.get_number("offset", 0),
            param_limit: ppp.get_number("limit", 999999),
            param_seconds: ppp.get_number("seconds", 0),
            param_url: ppp.get_string("url"),
        }
    }
}

/// The first third of the cache key: the URL and the string-valued
/// search parameters up to the name filter.
pub open spec fn spec_key_head(p: AllParameters) -> Seq<char> {
    "{\"url\":"@ + json_str(p.url@) + ",\"param_tags\":"@ + json_opt_str(opt_view(p.param_tags))
        + ",\"param_homepage\":"@ + json_opt_str(opt_view(p.param_homepage))
        + ",\"param_favicon\":"@ + json_opt_str(opt_view(p.param_favicon))
        + ",\"param_last_changeuuid\":"@ + json_opt_str(opt_view(p.param_last_changeuuid))
        + ",\"param_last_checkuuid\":"@ + json_opt_str(opt_view(p.param_last_checkuuid))
        + ",\"param_last_clickuuid\":"@ + json_opt_str(opt_view(p.param_last_clickuuid))
        + ",\"param_name\":"@ + json_opt_str(opt_view(p.param_name)) + ",\"param_name_exact\":"@
        + json_bool(p.param_name_exact)
}

/// The middle third of the cache key: the regional and tag filters.
pub open spec fn spec_key_mid(p: AllParameters) -> Seq<char> {
    ",\"param_country\":"@ + json_opt_str(opt_view(p.param_country))
        + ",\"param_country_exact\":"@ + json_bool(p.param_country_exact)
        + ",\"param_countrycode\":"@ + json_opt_str(opt_view(p.param_countrycode))
        + ",\"param_state\":"@ + json_opt_str(opt_view(p.param_state))
        + ",\"param_state_exact\":"@ + json_bool(p.param_state_exact) + ",\"param_language\":"@
        + json_opt_str(opt_view(p.param_language)) + ",\"param_language_exact\":"@ + json_bool(
        p.param_language_exact,
    ) + ",\"param_tag\":"@ + json_opt_str(opt_view(p.param_tag)) + ",\"param_tag_exact\":"@
        + json_bool(p.param_tag_exact) + ",\"param_tag_list\":"@ + json_str_array(
        p.param_tag_list.deep_view(),
    ) + ",\"param_codec\":"@ + json_opt_str(opt_view(p.param_codec))
}

/// The last third of the cache key: numeric bounds, ordering flags
/// and the submitted URL.
pub open spec fn spec_key_tail(p: AllParameters) -> Seq<char> {
    ",\"param_bitrate_min\":"@ + spec_dec(p.param_bitrate_min as int) + ",\"param_bitrate_max\":"@
        + spec_dec(p.param_bitrate_max as int) + ",\"param_order\":"@ + json_str(p.param_order@)
        + ",\"param_reverse\":"@ + json_bool(p.param_reverse) + ",\"param_hidebroken\":"@
        + json_bool(p.param_hidebroken) + ",\"param_offset\":"@ + spec_dec(p.param_offset as int)
        + ",\"param_limit\":"@ + spec_dec(p.param_limit as int) + ",\"param_seconds\":"@
        + spec_dec(p.param_seconds as int) + ",\"param_url\":"@ + json_opt_str(
        opt_view(p.param_url),
    ) + "}"@
}

/// The cache key: a canonical serialization of the URL and every
/// recognized parameter of the request.
pub open spec fn spec_key(p: AllParameters) -> Seq<char> {
    spec_key_head(p) + spec_key_mid(p) + spec_key_tail(p)
}

impl AllParameters {
    fn key_head(&self) -> (r: String)
        ensures
            r@ == spec_key_head(*self),
    {
        let mut out = String::new();
        out.append("{\"url\":");
        let q = json_quote(self.url.as_str());
        out.append(q.as_str());
        out.append(",\"param_tags\":");
        let v1 = json_opt_quote(&self.param_tags);
        out.append(v1.as_str());
        out.append(",\"param_homepage\":");
        let v2 = json_opt_quote(&self.param_homepage);
        out.append(v2.as_str());
        out.append(",\"param_favicon\":");
        let v3 = json_opt_quote(&self.param_favicon);
        out.append(v3.as_str());
        out.append(",\"param_last_changeuuid\":");
        let v4 = json_opt_quote(&self.param_last_changeuuid);
        out.append(v4.as_str());
        out.append(",\"param_last_checkuuid\":");
        let v5 = json_opt_quote(&self.param_last_checkuuid);
        out.append(v5.as_str());
        out.append(",\"param_last_clickuuid\":");
        let v6 = json_opt_quote(&self.param_last_clickuuid);
        out.append(v6.as_str());
        out.append(",\"param_name\":");
        let v7 = json_opt_quote(&self.param_name);
        out.append(v7.as_str());
        out.append(",\"param_name_exact\":");
        out.append(json_bool_str(self.param_name_exact));
        proof {
            assert(out@ =~= spec_key_head(*self));
        }
        out
    }

    fn key_mid(&self) -> (r: String)
        ensures
            r@ == spec_key_mid(*self),
    {
        let mut out = String::new();
        out.append(",\"param_country\":");
        let v8 = json_opt_quote(&self.param_country);
        out.append(v8.as_str());
        out.append(",\"param_country_exact\":");
        out.append(json_bool_str(self.param_country_exact));
        out.append(",\"param_countrycode\":");
        let v9 = json_opt_quote(&self.param_countrycode);
        out.append(v9.as_str());
        out.append(",\"param_state\":");
        let v10 = json_opt_quote(&self.param_state);
        out.append(v10.as_str());
        out.append(",\"param_state_exact\":");
        out.append(json_bool_str(self.param_state_exact));
        out.append(",\"param_language\":");
        let v11 = json_opt_quote(&self.param_language);
        out.append(v11.as_str());
        out.append(",\"param_language_exact\":");
        out.append(json_bool_str(self.param_language_exact));
        out.append(",\"param_tag\":");
        let v12 = json_opt_quote(&self.param_tag);
        out.append(v12.as_str());
        out.append(",\"param_tag_exact\":");
        out.append(json_bool_str(self.param_tag_exact));
        out.append(",\"param_tag_list\":");
        let v13 = json_string_array(&self.param_tag_list);
        out.append(v13.as_str());
        out.append(",\"param_codec\":");
        let v14 = json_opt_quote(&self.param_codec);
        out.append(v14.as_str());
        proof {
            assert(out@ =~= spec_key_mid(*self));
        }
        out
    }

    fn key_tail(&self) -> (r: String)
        ensures
            r@ == spec_key_tail(*self),
    {
        let mut out = String::new();
        out.append(",\"param_bitrate_min\":");
        let d1 = u32_to_string(self.param_bitrate_min);
        out.append(d1.as_str());
        out.append(",\"param_bitrate_max\":");
        let d2 = u32_to_string(self.param_bitrate_max);
        out.append(d2.as_str());
        out.append(",\"param_order\":");
        let v15 = json_quote(self.param_order.as_str());
        out.append(v15.as_str());
        out.append(",\"param_reverse\":");
        out.append(json_bool_str(self.param_reverse));
        out.append(",\"param_hidebroken\":");
        out.append(json_bool_str(self.param_hidebroken));
        out.append(",\"param_offset\":");
        let d3 = u32_to_string(self.param_offset);
        out.append(d3.as_str());
        out.append(",\"param_limit\":");
        let d4 = u32_to_string(self.param_limit);
        out.append(d4.as_str());
        out.append(",\"param_seconds\":");
        let d5 = u32_to_string(self.param_seconds);
        out.append(d5.as_str());
        out.append(",\"param_url\":");
        let v16 = json_opt_quote(&self.param_url);
        out.append(v16.as_str());
        out.append("}");
        proof {
            assert(out@ =~= spec_key_tail(*self));
        }
        out
    }

    /// Serializes the record into its cache key.
    pub fn to_string(&self) -> (r: String)
        ensures
            r@ == spec_key(*self),
    {
        let mut out = self.key_head();
        let mid = self.key_mid();
        out.append(mid.as_str());
        let tail = self.key_tail();
        out.append(tail.as_str());
        out
    }
}

/// Cache-key stability: two requests whose URL and whole recognized
/// parameter set agree, field by field, produce byte-equal cache
/// keys, whatever order the raw pairs arrived in.
pub proof fn lemma_cache_key_stable(a: AllParameters, b: AllParameters)
    requires
        a.url@ == b.url@,
        opt_view(a.param_tags) == opt_view(b.param_tags),
        opt_view(a.param_homepage) == opt_view(b.param_homepage),
        opt_view(a.param_favicon) == opt_view(b.param_favicon),
        opt_view(a.param_last_changeuuid) == opt_view(b.param_last_changeuuid),
        opt_view(a.param_last_checkuuid) == opt_view(b.param_last_checkuuid),
        opt_view(a.param_last_clickuuid) == opt_view(b.param_last_clickuuid),
        opt_view(a.param_name) == opt_view(b.param_name),
        a.param_name_exact == b.param_name_exact,
        opt_view(a.param_country) == opt_view(b.param_country),
        a.param_country_exact == b.param_country_exact,
        opt_view(a.param_countrycode) == opt_view(b.param_countrycode),
        opt_view(a.param_state) == opt_view(b.param_state),
        a.param_state_exact == b.param_state_exact,
        opt_view(a.param_language) == opt_view(b.param_language),
        a.param_language_exact == b.param_language_exact,
        opt_view(a.param_tag) == opt_view(b.param_tag),
        a.param_tag_exact == b.param_tag_exact,
        a.param_tag_list.deep_view() == b.param_tag_list.deep_view(),
        opt_view(a.param_codec) == opt_view(b.param_codec),
        a.param_bitrate_min == b.param_bitrate_min,
        a.param_bitrate_max == b.param_bitrate_max,
        a.param_order@ == b.param_order@,
        a.param_reverse == b.param_reverse,
        a.param_hidebroken == b.param_hidebroken,
        a.param_offset == b.param_offset,
        a.param_limit == b.param_limit,
        a.param_seconds == b.param_seconds,
        opt_view(a.param_url) == opt_view(b.param_url),
    ensures
        spec_key(a) == spec_key(b),
{
}

/// A corollary of the parameter freeze: records built from the same
/// URL and the same recognized parameter values share one cache key.
pub proof fn lemma_same_request_same_key(
    a: AllParameters,
    b: AllParameters,
    url: Seq<char>,
    ps: Seq<(Seq<char>, Seq<char>)>,
    qs: Seq<(Seq<char>, Seq<char>)>,
)
    requires
        params_from(a, url, ps),
        params_from(b, url, qs),
        forall|name: Seq<char>| spec_get_string(ps, name) == spec_get_string(qs, name),
        forall|name: Seq<char>, d: bool| spec_get_bool(ps, name, d) == spec_get_bool(qs, name, d),
        forall|name: Seq<char>, d: u32|
            spec_get_number(ps, name, d) == spec_get_number(qs, name, d),
    ensures
        spec_key(a) == spec_key(b),
{
    lemma_cache_key_stable(a, b);
}

} // verus!
