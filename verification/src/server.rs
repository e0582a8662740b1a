//! The request pipeline around the router: method preflight, the
//! parameter freeze, the response cache in front of the dispatch, and
//! the conversion of the router's outcome into one HTTP response.

use vstd::prelude::*;
use crate::cache::GenericCache;
use crate::cache::spec_expires;
use crate::error::ApiError;
use crate::counter::bump;
use crate::params::AllParameters;
use crate::params::lemma_same_request_same_key;
use crate::params::opt_view;
use crate::params::params_from;
use crate::params::spec_key;
use crate::params::RequestParameters;
use crate::response::ApiResponse;
use crate::response::add_cors;
use crate::response::cors_ok;
use crate::response::HttpBody;
use crate::response::HttpResponse;
use crate::params::first_value;
use crate::response::apply_content_type_hint;
use crate::response::lemma_header_name_literals;
use crate::response::spec_cd_after_hint;
use crate::response::spec_ct_after_hint;
use crate::response::lemma_replace_header;
use crate::response::with_no_cache;
use crate::router::Config;
use crate::router::DataStore;
use crate::router::ExternalTask;
use crate::router::RouteOutcome;
use crate::router::do_api_calls;
use crate::router::spec_cacheable;
use crate::router::url_items;
use crate::strutil::find_char_from;
use crate::strutil::index_of_from;
use crate::strutil::spec_trim;
use crate::strutil::str_eq;
use crate::strutil::trim_str;

verus! {

/// The plain values of one HTTP request, as the transport hands them
/// over: the method, the raw URL, the headers the core reads, the
/// peer address, the parsed parameters, and the arrival time in
/// seconds.
pub struct RequestInfo {
    pub method: String,
    pub raw_url: String,
    pub x_forwarded_host: Option<String>,
    pub host: Option<String>,
    pub content_type_header: Option<String>,
    pub x_forwarded_for: Option<String>,
    pub peer_ip: String,
    pub params: RequestParameters,
    pub now: u64,
}

/// What one request produced: a finished response, or an external task
/// whose outcome the application hands back to `respond_api` under the
/// same key, flag and hint.
pub enum HandleOutcome {
    Done(HttpResponse),
    Needs { key: String, cacheable: bool, task: ExternalTask, hint: String },
}

/// The base URL the documentation page reports: the forwarded host,
/// else the host header, else the configured server URL.
pub open spec fn spec_base_url(
    xfh: Option<Seq<char>>,
    host: Option<Seq<char>>,
    server_url: Seq<char>,
) -> Seq<char> {
    match xfh {
        Option::Some(h) => "http://"@ + h,
        Option::None => match host {
            Option::Some(h) => "http://"@ + h,
            Option::None => server_url,
        },
    }
}

/// Determines the base URL from the forwarded-host and host headers.
pub fn base_url_of(
    x_forwarded_host: &Option<String>,
    host: &Option<String>,
    server_url: &str,
) -> (r: String)
    ensures
        r@ == spec_base_url(
            (match x_forwarded_host {
                Option::Some(h) => Option::Some(h@),
                Option::None => Option::None,
            }),
            (match host {
                Option::Some(h) => Option::Some(h@),
                Option::None => Option::None,
            }),
            server_url@,
        ),
{
    match x_forwarded_host {
        Option::Some(h) => {
            let mut out = "http://".to_owned();
            out.append(h.as_str());
            out
        },
        Option::None => match host {
            Option::Some(h) => {
                let mut out = "http://".to_owned();
                out.append(h.as_str());
                out
            },
            Option::None => server_url.to_owned(),
        },
    }
}

/// The client's content-type hint: the first `;`-separated token of
/// the Content-Type header, trimmed; a fixed placeholder when the
/// header is absent.
pub open spec fn spec_content_type_hint(header: Option<Seq<char>>) -> Seq<char> {
    let raw = match header {
        Option::Some(v) => v,
        Option::None => "nothing"@,
    };
    spec_trim(raw.subrange(0, index_of_from(raw, ';', 0)))
}

/// Reads the client's content-type hint off the header value.
pub fn content_type_hint(header: &Option<String>) -> (r: String)
    ensures
        r@ == spec_content_type_hint(
            match header {
                Option::Some(v) => Option::Some(v@),
                Option::None => Option::None,
            },
        ),
{
    let raw: &str = match header {
        Option::Some(v) => v.as_str(),
        Option::None => "nothing",
    };
    let j: usize = find_char_from(raw, ';', 0);
    let first: &str = raw.substring_char(0, j);
    trim_str(first).to_owned()
}

proof fn lemma_method_literals()
    ensures
        "OPTIONS"@ != "GET"@,
        "OPTIONS"@ != "POST"@,
{
    reveal_strlit("OPTIONS");
    reveal_strlit("GET");
    reveal_strlit("POST");
    assert("OPTIONS"@.len() == 7);
    assert("GET"@.len() == 3);
    assert("POST"@.len() == 4);
}

/// The content type an endpoint outcome carries before the client
/// hint is applied: the endpoint's own for text and files, the
/// transport's plain-text default for the message bodies, none for
/// the empty responses.
pub open spec fn spec_endpoint_ct(response: ApiResponse) -> Option<Seq<char>> {
    match response {
        ApiResponse::Text(ct, b) => Option::Some(ct@),
        ApiResponse::File(ct, p) => Option::Some(ct@),
        ApiResponse::NotFound => Option::None,
        ApiResponse::UnknownContentType => Option::None,
        ApiResponse::ServerError(m) => Option::Some("text/plain; charset=utf-8"@),
        ApiResponse::Locked(m) => Option::Some("text/plain; charset=utf-8"@),
    }
}

/// Turns an endpoint's outcome into the HTTP response and feeds the
/// cache: the encoded text body of a cacheable endpoint is stored
/// under the request's key; every other outcome leaves the cache
/// unchanged, and non-cacheable text carries the no-cache marker.
/// The client's content-type hint is applied last.
pub fn respond_api(
    key: &str,
    do_cache: bool,
    response: ApiResponse,
    cache: &mut GenericCache,
    now: u64,
    hint: &str,
) -> (r: HttpResponse)
    requires
        old(cache).wf(),
    ensures
        final(cache).wf(),
        final(cache).spec_ttl() == old(cache).spec_ttl(),
        !(do_cache && response is Text) ==> *final(cache) == *old(cache),
        response matches ApiResponse::Text(ct, body) ==> (do_cache ==> ((*old(cache) is NoStore
            ==> *final(cache) == *old(cache)) && (*old(cache) is BuiltIn
            ==> final(cache).spec_lookup(key@) == Option::Some(
            (body@, spec_expires(now, old(cache).spec_ttl())),
        )) && (forall|k2: Seq<char>|
            k2 != key@ ==> final(cache).spec_lookup(k2) == old(cache).spec_lookup(k2)))),
        response matches ApiResponse::Text(ct, body) ==> r.status == 200 && (
        r.body matches HttpBody::Text(b) && b@ == body@),
        response matches ApiResponse::File(ct, path) ==> r.status == 200 && (
        r.body matches HttpBody::FilePath(p) && p@ == path@),
        response is NotFound ==> r.status == 404,
        response is UnknownContentType ==> r.status == 406,
        response matches ApiResponse::ServerError(msg) ==> r.status == 500 && (
        r.body matches HttpBody::Text(b) && b@ == msg@),
        response matches ApiResponse::Locked(msg) ==> r.status == 423 && (
        r.body matches HttpBody::Text(b) && b@ == msg@),
        r.spec_header("Content-Type"@) == spec_ct_after_hint(spec_endpoint_ct(response), hint@),
        r.spec_header("Content-Disposition"@) == spec_cd_after_hint(Option::None, hint@),
        response matches ApiResponse::Text(ct, b2) ==> (!do_cache ==> r.spec_header(
            "Cache-Control"@,
        ) == Option::Some("no-cache, no-store, must-revalidate"@)),
{
    let result: HttpResponse = match response {
        ApiResponse::Text(content_type, text) => {
            if do_cache {
                cache.set(key, text.as_str(), now);
                let resp0 = HttpResponse::text(text);
                let ghost h0 = resp0.spec_headers();
                let r1 = resp0.with_unique_header("Content-Type", content_type.as_str());
                proof {
                    lemma_header_name_literals();
                    lemma_replace_header(h0, "Content-Type"@, content_type@, "Content-Type"@);
                    lemma_replace_header(h0, "Content-Type"@, content_type@, "Content-Disposition"@);
                    assert(r1.spec_header("Content-Type"@) == Option::Some(content_type@));
                    assert(h0.drop_first() =~= Seq::<(Seq<char>, Seq<char>)>::empty());
                    assert(first_value(h0.drop_first(), "Content-Disposition"@) is None);
                    assert(first_value(h0, "Content-Disposition"@) is None);
                    assert(r1.spec_header("Content-Disposition"@) is None);
                }
                r1
            } else {
                let resp0 = HttpResponse::text(text);
                let ghost h0 = resp0.spec_headers();
                let r1 = resp0.with_unique_header("Content-Type", content_type.as_str());
                proof {
                    lemma_header_name_literals();
                    lemma_replace_header(h0, "Content-Type"@, content_type@, "Content-Type"@);
                    lemma_replace_header(h0, "Content-Type"@, content_type@, "Content-Disposition"@);
                    assert(h0.drop_first() =~= Seq::<(Seq<char>, Seq<char>)>::empty());
                    assert(first_value(h0.drop_first(), "Content-Disposition"@) is None);
                    assert(first_value(h0, "Content-Disposition"@) is None);
                }
                let r2 = with_no_cache(r1);
                proof {
                    lemma_header_name_literals();
                    assert(r1.spec_header("Content-Type"@) == Option::Some(content_type@));
                    assert(r2.spec_header("Content-Type"@) == r1.spec_header("Content-Type"@));
                    assert(r1.spec_header("Content-Disposition"@) is None);
                    assert(r2.spec_header("Content-Disposition"@) == r1.spec_header(
                        "Content-Disposition"@,
                    ));
                }
                r2
            }
        },
        ApiResponse::File(content_type, path) => {
            let ghost gct = content_type@;
            let mut headers: Vec<(String, String)> = Vec::new();
            headers.push(("Content-Type".to_owned(), content_type));
            let r1 = HttpResponse { status: 200, headers, body: HttpBody::FilePath(path) };
            proof {
                lemma_header_name_literals();
                let ghost h1 = r1.spec_headers();
                assert(h1[0] == ("Content-Type"@, gct));
                assert(h1.drop_first() =~= Seq::<(Seq<char>, Seq<char>)>::empty());
                assert(first_value(h1.drop_first(), "Content-Disposition"@) is None);
                assert(r1.spec_header("Content-Type"@) == Option::Some(gct));
                assert(r1.spec_header("Content-Disposition"@) is None);
            }
            r1
        },
        ApiResponse::NotFound => {
            let r1 = HttpResponse::empty(404);
            proof {
                assert(first_value(r1.spec_headers(), "Content-Type"@) is None);
                assert(first_value(r1.spec_headers(), "Content-Disposition"@) is None);
            }
            r1
        },
        ApiResponse::UnknownContentType => {
            let r1 = HttpResponse::empty(406);
            proof {
                assert(first_value(r1.spec_headers(), "Content-Type"@) is None);
                assert(first_value(r1.spec_headers(), "Content-Disposition"@) is None);
            }
            r1
        },
        ApiResponse::ServerError(msg) => {
            let r1 = HttpResponse::text(msg).with_status_code(500);
            proof {
                lemma_header_name_literals();
                let ghost h1 = r1.spec_headers();
                assert(h1[0] == ("Content-Type"@, "text/plain; charset=utf-8"@));
                assert(h1.drop_first() =~= Seq::<(Seq<char>, Seq<char>)>::empty());
                assert(first_value(h1.drop_first(), "Content-Disposition"@) is None);
                assert(r1.spec_header("Content-Type"@) == Option::Some(
                    "text/plain; charset=utf-8"@,
                ));
                assert(r1.spec_header("Content-Disposition"@) is None);
            }
            r1
        },
        ApiResponse::Locked(msg) => {
            let r1 = HttpResponse::text(msg).with_status_code(423);
            proof {
                lemma_header_name_literals();
                let ghost h1 = r1.spec_headers();
                assert(h1[0] == ("Content-Type"@, "text/plain; charset=utf-8"@));
                assert(h1.drop_first() =~= Seq::<(Seq<char>, Seq<char>)>::empty());
                assert(first_value(h1.drop_first(), "Content-Disposition"@) is None);
                assert(r1.spec_header("Content-Type"@) == Option::Some(
                    "text/plain; charset=utf-8"@,
                ));
                assert(r1.spec_header("Content-Disposition"@) is None);
            }
            r1
        },
    };
    proof {
        assert(result.spec_header("Content-Type"@) == spec_endpoint_ct(response));
        assert(result.spec_header("Content-Disposition"@) is None);
    }
    let out = apply_content_type_hint(result, hint);
    proof {
        lemma_header_name_literals();
        assert(out.spec_header("Cache-Control"@) == result.spec_header("Cache-Control"@));
    }
    out
}

/// Handles one request under the response cache: rejected methods get
/// their empty response at once; a hit is served from the cache; a
/// miss runs the router, stores what may be stored, and hands external
/// work out.  A non-cacheable endpoint never deposits into the cache.
pub fn handle_cached_connection<A: DataStore>(
    connection_new: &A,
    request: &RequestInfo,
    config: &Config,
    counter_clicks: &mut u64,
    cache: &mut GenericCache,
    server_version: &str,
) -> (r: Result<HandleOutcome, ApiError>)
    requires
        old(cache).wf(),
    ensures
        final(cache).wf(),
        request.method@ == "OPTIONS"@ ==> (r matches Ok(out) && out matches HandleOutcome::Done(
            resp,
        ) && resp.body matches HttpBody::Text(s) && resp.status == 204 && s@ == Seq::<
            char,
        >::empty() && *final(cache) == *old(cache)),
        request.method@ != "OPTIONS"@ && request.method@ != "GET"@ && request.method@ != "POST"@
            ==> (r matches Ok(out) && out matches HandleOutcome::Done(resp)
            && resp.body matches HttpBody::Text(s) && resp.status == 404 && s@ == Seq::<
            char,
        >::empty() && *final(cache) == *old(cache)),
        !spec_cacheable(url_items(request.raw_url@), config.prometheus_exporter) ==> *final(cache)
            == *old(cache),
        r matches Ok(out) ==> (out matches HandleOutcome::Needs { cacheable, .. } ==> cacheable
            == spec_cacheable(url_items(request.raw_url@), config.prometheus_exporter)
            && *final(cache) == *old(cache)),
        r is Err ==> *final(cache) == *old(cache),
        (request.method@ == "GET"@ || request.method@ == "POST"@) ==> (forall|p: AllParameters|
            #[trigger] params_from(p, request.raw_url@, request.params.spec_pairs()) ==> (
            match old(cache).spec_get(spec_key(p), request.now) {
                Option::Some(b) => (r matches Ok(out) && out matches HandleOutcome::Done(resp)
                    && resp.body matches HttpBody::Text(t) && resp.status == 200 && t@ == b
                    && *final(cache) == *old(cache) && resp.spec_header("Content-Type"@)
                    == spec_ct_after_hint(
                    Option::Some("text/plain; charset=utf-8"@),
                    spec_content_type_hint(opt_view(request.content_type_header)),
                ) && resp.spec_header("Content-Disposition"@) == spec_cd_after_hint(
                    Option::None,
                    spec_content_type_hint(opt_view(request.content_type_header)),
                )),
                Option::None => true,
            })),
        (request.method@ == "GET"@ || request.method@ == "POST"@) ==> (forall|p: AllParameters|
            #[trigger] params_from(p, request.raw_url@, request.params.spec_pairs()) ==> ((old(
                cache,
            ).spec_get(spec_key(p), request.now) is None && spec_cacheable(
                url_items(request.raw_url@),
                config.prometheus_exporter,
            ) && *old(cache) is BuiltIn) ==> (r matches Ok(out) ==> (
            out matches HandleOutcome::Done(resp) ==> (resp.body matches HttpBody::Text(b)
                ==> (resp.status == 200 ==> final(cache).spec_lookup(spec_key(p)) == Option::Some(
                (b@, spec_expires(request.now, old(cache).spec_ttl())),
            ))))))),
        *final(counter_clicks) == *old(counter_clicks) || *final(counter_clicks) == bump(
            *old(counter_clicks),
        ),
        ({
            let items = url_items(request.raw_url@);
            !(items.len() == 4 && items[2] == "url"@) && !(items.len() == 5 && items[1]
                == "v2"@) ==> *final(counter_clicks) == *old(counter_clicks)
        }),
{
    proof {
        lemma_method_literals();
    }
    if str_eq(request.method.as_str(), "OPTIONS") {
        return Ok(HandleOutcome::Done(HttpResponse::empty(204)));
    }
    if !str_eq(request.method.as_str(), "POST") && !str_eq(request.method.as_str(), "GET") {
        return Ok(HandleOutcome::Done(HttpResponse::empty(404)));
    }
    let base_url = base_url_of(
        &request.x_forwarded_host,
        &request.host,
        config.server_url.as_str(),
    );
    let hint = content_type_hint(&request.content_type_header);
    let remote_ip: String = match &request.x_forwarded_for {
        Option::Some(s) => s.clone(),
        Option::None => request.peer_ip.clone(),
    };
    let allparams = AllParameters::new(request.raw_url.clone(), &request.params);
    let ghost gurl: Seq<char> = allparams.url@;
    proof {
        assert(gurl == request.raw_url@);
    }
    let key = allparams.to_string();
    proof {
        assert forall|p: AllParameters| #[trigger] params_from(
            p,
            request.raw_url@,
            request.params.spec_pairs(),
        ) implies spec_key(p) == key@ by {
            lemma_same_request_same_key(
                p,
                allparams,
                request.raw_url@,
                request.params.spec_pairs(),
                request.params.spec_pairs(),
            );
        }
    }
    match cache.get(key.as_str(), request.now) {
        Option::Some(cached_item) => {
            // A hit is served as plain text; the client hint alone
            // sets the content type.
            let resp0 = HttpResponse::text(cached_item);
            let ghost h0 = resp0.spec_headers();
            proof {
                lemma_header_name_literals();
                assert(first_value(h0, "Content-Type"@) == Option::Some(
                    "text/plain; charset=utf-8"@,
                ));
                assert(h0.drop_first() =~= Seq::<(Seq<char>, Seq<char>)>::empty());
                assert(first_value(h0.drop_first(), "Content-Disposition"@) is None);
                assert(first_value(h0, "Content-Disposition"@) is None);
            }
            let resp = apply_content_type_hint(resp0, hint.as_str());
            Ok(HandleOutcome::Done(resp))
        },
        Option::None => {
            match do_api_calls(
                allparams,
                connection_new,
                config,
                counter_clicks,
                base_url,
                remote_ip,
                server_version,
            ) {
                Ok(RouteOutcome::Done(do_cache, response)) => Ok(
                    HandleOutcome::Done(
                        respond_api(
                            key.as_str(),
                            do_cache,
                            response,
                            cache,
                            request.now,
                            hint.as_str(),
                        ),
                    ),
                ),
                Ok(RouteOutcome::Needs(do_cache, task)) => {
                    proof {
                        assert(do_cache == spec_cacheable(
                            url_items(gurl),
                            config.prometheus_exporter,
                        ));
                    }
                    Ok(HandleOutcome::Needs { key, cacheable: do_cache, task, hint })
                },
                Err(e) => Err(e),
            }
        },
    }
}

/// Finishes one request for the transport: a pipeline error becomes
/// the 500 text response carrying its message, and every response —
/// the error ones included — leaves with the CORS headers.
pub fn complete_response(result: Result<HttpResponse, ApiError>) -> (r: HttpResponse)
    ensures
        cors_ok(r),
        result matches Ok(resp) ==> r.status == resp.status && r.body == resp.body,
        result matches Err(e) ==> r.status == 500 && (r.body matches HttpBody::Text(b) && b@
            == e.spec_message()),
{
    match result {
        Ok(resp) => add_cors(resp),
        Err(err) => add_cors(HttpResponse::text(err.message().to_owned()).with_status_code(500)),
    }
}

} // verus!
