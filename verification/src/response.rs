//! The router's response variants and the concrete HTTP response the
//! server hands to the transport: status, headers and body, with the
//! CORS headers and the client-hint content-type override.

use vstd::prelude::*;
use crate::params::first_value;
use crate::strutil::str_eq;

verus! {

/// What an endpoint produced: an encoded text body, a file to stream,
/// or one of the failure kinds.
pub enum ApiResponse {
    /// A content type and the already-encoded body.
    Text(String, String),
    /// A content type and the path of the file to stream.
    File(String, String),
    NotFound,
    UnknownContentType,
    ServerError(String),
    Locked(String),
}

/// A response body: encoded text, or a file path the application
/// streams.
pub enum HttpBody {
    Text(String),
    FilePath(String),
}

/// One HTTP response as the server emits it.  Header names are this
/// crate's own fixed spellings, so exact name comparison coincides
/// with the case-insensitive one of the transport.
pub struct HttpResponse {
    pub status: u16,
    pub headers: Vec<(String, String)>,
    pub body: HttpBody,
}

impl HttpResponse {
    /// The headers as character sequences.
    pub open spec fn spec_headers(self) -> Seq<(Seq<char>, Seq<char>)> {
        self.headers@.map_values(|p: (String, String)| (p.0@, p.1@))
    }

    /// The first value carried under a header name.
    pub open spec fn spec_header(self, name: Seq<char>) -> Option<Seq<char>> {
        first_value(self.spec_headers(), name)
    }
}

/// The headers with every pair named `name` removed.
pub open spec fn remove_header(h: Seq<(Seq<char>, Seq<char>)>, name: Seq<char>) -> Seq<
    (Seq<char>, Seq<char>),
>
    decreases h.len(),
{
    if h.len() == 0 {
        Seq::empty()
    } else {
        (if h[0].0 == name {
            Seq::empty()
        } else {
            seq![h[0]]
        }) + remove_header(h.drop_first(), name)
    }
}

/// Replacing a header: every pair under the name goes, the new pair is
/// appended.
pub open spec fn replace_header(
    h: Seq<(Seq<char>, Seq<char>)>,
    name: Seq<char>,
    value: Seq<char>,
) -> Seq<(Seq<char>, Seq<char>)> {
    remove_header(h, name).push((name, value))
}

proof fn lemma_remove_snoc(h: Seq<(Seq<char>, Seq<char>)>, x: (Seq<char>, Seq<char>), name: Seq<char>)
    ensures
        remove_header(h.push(x), name) == remove_header(h, name) + (if x.0 == name {
            Seq::<(Seq<char>, Seq<char>)>::empty()
        } else {
            seq![x]
        }),
    decreases h.len(),
{
    if h.len() == 0 {
        assert(h.push(x)[0] == x);
        assert(h.push(x).drop_first() =~= Seq::<(Seq<char>, Seq<char>)>::empty());
        assert(remove_header(h.push(x).drop_first(), name) =~= Seq::<(Seq<char>, Seq<char>)>::empty());
        assert(remove_header(h, name) =~= Seq::<(Seq<char>, Seq<char>)>::empty());
        assert(remove_header(h.push(x), name) =~= remove_header(h, name) + (if x.0 == name {
            Seq::<(Seq<char>, Seq<char>)>::empty()
        } else {
            seq![x]
        }));
    } else {
        assert(h.push(x)[0] == h[0]);
        assert(h.push(x).drop_first() =~= h.drop_first().push(x));
        lemma_remove_snoc(h.drop_first(), x, name);
        assert(remove_header(h.push(x), name) =~= remove_header(h, name) + (if x.0 == name {
            Seq::<(Seq<char>, Seq<char>)>::empty()
        } else {
            seq![x]
        }));
    }
}

/// After removal, no pair carries the name.
pub proof fn lemma_remove_header_gone(h: Seq<(Seq<char>, Seq<char>)>, name: Seq<char>)
    ensures
        forall|j: int|
            0 <= j < remove_header(h, name).len() ==> (#[trigger] remove_header(h, name)[j]).0
                != name,
    decreases h.len(),
{
    if h.len() > 0 {
        lemma_remove_header_gone(h.drop_first(), name);
        if h[0].0 == name {
            assert(remove_header(h, name) =~= remove_header(h.drop_first(), name));
        } else {
            assert(remove_header(h, name)[0] == h[0]);
            assert(remove_header(h, name).drop_first() =~= remove_header(h.drop_first(), name));
        }
    }
}

/// Removal keeps every other name's first value.
pub proof fn lemma_remove_header_other(
    h: Seq<(Seq<char>, Seq<char>)>,
    name: Seq<char>,
    n2: Seq<char>,
)
    requires
        n2 != name,
    ensures
        first_value(remove_header(h, name), n2) == first_value(h, n2),
    decreases h.len(),
{
    if h.len() > 0 {
        lemma_remove_header_other(h.drop_first(), name, n2);
        if h[0].0 == name {
            assert(remove_header(h, name) =~= remove_header(h.drop_first(), name));
        } else {
            assert(remove_header(h, name)[0] == h[0]);
            assert(remove_header(h, name).drop_first() =~= remove_header(h.drop_first(), name));
        }
    }
}

/// The first value after appending a pair: the earlier pairs win, the
/// appended pair answers where no earlier pair had the name.
pub proof fn lemma_first_value_push(
    s: Seq<(Seq<char>, Seq<char>)>,
    x: (Seq<char>, Seq<char>),
    n2: Seq<char>,
)
    ensures
        first_value(s.push(x), n2) == (match first_value(s, n2) {
            Option::Some(v) => Option::Some(v),
            Option::None => if x.0 == n2 {
                Option::Some(x.1)
            } else {
                Option::None::<Seq<char>>
            },
        }),
    decreases s.len(),
{
    if s.len() == 0 {
        assert(s.push(x)[0] == x);
        assert(s.push(x).drop_first() =~= Seq::<(Seq<char>, Seq<char>)>::empty());
        if x.0 != n2 {
            assert(first_value(s.push(x).drop_first(), n2) is None);
        }
    } else {
        assert(s.push(x)[0] == s[0]);
        assert(s.push(x).drop_first() =~= s.drop_first().push(x));
        lemma_first_value_push(s.drop_first(), x, n2);
    }
}

/// After a replacement the name carries the new value, and every other
/// name keeps its first value.
pub proof fn lemma_replace_header(
    h: Seq<(Seq<char>, Seq<char>)>,
    name: Seq<char>,
    value: Seq<char>,
    n2: Seq<char>,
)
    ensures
        first_value(replace_header(h, name, value), name) == Option::Some(value),
        n2 != name ==> first_value(replace_header(h, name, value), n2) == first_value(h, n2),
{
    lemma_remove_header_gone(h, name);
    let r = remove_header(h, name);
    lemma_first_value_none(r, name);
    lemma_first_value_push(r, (name, value), name);
    if n2 != name {
        lemma_remove_header_other(h, name, n2);
        lemma_first_value_push(r, (name, value), n2);
    }
}

proof fn lemma_first_value_none(s: Seq<(Seq<char>, Seq<char>)>, name: Seq<char>)
    requires
        forall|j: int| 0 <= j < s.len() ==> (#[trigger] s[j]).0 != name,
    ensures
        first_value(s, name) is None,
    decreases s.len(),
{
    if s.len() > 0 {
        lemma_first_value_none(s.drop_first(), name);
    }
}

impl HttpResponse {
    /// A plain-text 200 response, as the transport's text constructor
    /// builds it.
    pub fn text(body: String) -> (r: HttpResponse)
        ensures
            r.status == 200,
            r.spec_headers() =~= seq![("Content-Type"@, "text/plain; charset=utf-8"@)],
            r.body == HttpBody::Text(body),
    {
        let mut headers: Vec<(String, String)> = Vec::new();
        headers.push(("Content-Type".to_owned(), "text/plain; charset=utf-8".to_owned()));
        HttpResponse { status: 200, headers, body: HttpBody::Text(body) }
    }

    /// An empty response with the given status and no headers.
    pub fn empty(status: u16) -> (r: HttpResponse)
        ensures
            r.status == status,
            r.spec_headers() =~= Seq::<(Seq<char>, Seq<char>)>::empty(),
            r.body matches HttpBody::Text(s) && s@ == Seq::<char>::empty(),
    {
        HttpResponse { status, headers: Vec::new(), body: HttpBody::Text(String::new()) }
    }

    /// Replaces the given status on the response.
    pub fn with_status_code(self, status: u16) -> (r: HttpResponse)
        ensures
            r.status == status,
            r.spec_headers() == self.spec_headers(),
            r.body == self.body,
    {
        HttpResponse { status, headers: self.headers, body: self.body }
    }

    /// Removes every header of the given name and appends the pair, as
    /// the transport's unique-header helper does.
    pub fn with_unique_header(self, name: &str, value: &str) -> (r: HttpResponse)
        ensures
            r.status == self.status,
            r.body == self.body,
            r.spec_headers() == replace_header(self.spec_headers(), name@, value@),
    {
        let n: usize = self.headers.len();
        let mut kept: Vec<(String, String)> = Vec::new();
        let mut i: usize = 0;
        let ghost s0: Seq<(Seq<char>, Seq<char>)> = self.spec_headers();
        let ghost mut acc: Seq<(Seq<char>, Seq<char>)> = Seq::empty();
        proof {
            assert(s0.take(0) =~= Seq::<(Seq<char>, Seq<char>)>::empty());
            assert(acc =~= remove_header(s0.take(0), name@));
        }
        while i < n
            invariant
                0 <= i <= n,
                n == self.headers@.len(),
                s0 == self.spec_headers(),
                acc == kept@.map_values(|p: (String, String)| (p.0@, p.1@)),
                acc == remove_header(s0.take(i as int), name@),
            decreases n - i,
        {
            if !str_eq(self.headers[i].0.as_str(), name) {
                let e = (self.headers[i].0.clone(), self.headers[i].1.clone());
                kept.push(e);
                proof {
                    acc = acc.push(s0[i as int]);
                    assert(kept@.map_values(|p: (String, String)| (p.0@, p.1@)) =~= acc);
                }
            }
            i = i + 1;
            proof {
                assert(s0.take(i as int) =~= s0.take(i - 1).push(s0[i - 1]));
                lemma_remove_snoc(s0.take(i - 1), s0[i - 1], name@);
                assert(acc =~= remove_header(s0.take(i as int), name@));
            }
        }
        kept.push((name.to_owned(), value.to_owned()));
        let r = HttpResponse { status: self.status, headers: kept, body: self.body };
        proof {
            assert(s0.take(n as int) =~= s0);
            assert(r.spec_headers() =~= replace_header(s0, name@, value@));
        }
        r
    }
}

/// Whether the three CORS headers are present with their fixed values.
pub open spec fn cors_ok(r: HttpResponse) -> bool {
    &&& r.spec_header("Access-Control-Allow-Origin"@) == Option::Some("*"@)
    &&& r.spec_header("Access-Control-Allow-Headers"@) == Option::Some(
        "origin, x-requested-with, content-type"@,
    )
    &&& r.spec_header("Access-Control-Allow-Methods"@) == Option::Some("GET,POST"@)
}

/// Adds the three CORS headers to a response; status, body and every
/// other header's value stay.
pub fn add_cors(result: HttpResponse) -> (r: HttpResponse)
    ensures
        cors_ok(r),
        r.status == result.status,
        r.body == result.body,
        forall|n2: Seq<char>|
            n2 != "Access-Control-Allow-Origin"@ && n2 != "Access-Control-Allow-Headers"@ && n2
                != "Access-Control-Allow-Methods"@ ==> #[trigger] r.spec_header(n2)
                == result.spec_header(n2),
{
    let ghost h0 = result.spec_headers();
    let r1 = result.with_unique_header("Access-Control-Allow-Origin", "*");
    let r2 = r1.with_unique_header(
        "Access-Control-Allow-Headers",
        "origin, x-requested-with, content-type",
    );
    let r3 = r2.with_unique_header("Access-Control-Allow-Methods", "GET,POST");
    proof {
        let ghost n_o = "Access-Control-Allow-Origin"@;
        let ghost n_h = "Access-Control-Allow-Headers"@;
        let ghost n_m = "Access-Control-Allow-Methods"@;
        assert(n_o != n_h && n_o != n_m && n_h != n_m) by {
            reveal_strlit("Access-Control-Allow-Origin");
            reveal_strlit("Access-Control-Allow-Headers");
            reveal_strlit("Access-Control-Allow-Methods");
            assert("Access-Control-Allow-Origin"@.len() == 27);
            assert("Access-Control-Allow-Headers"@.len() == 28);
            assert("Access-Control-Allow-Methods"@.len() == 28);
            assert("Access-Control-Allow-Headers"@[21] == 'H');
            assert("Access-Control-Allow-Methods"@[21] == 'M');
        }
        assert forall|n2: Seq<char>| true implies #[trigger] first_value(r3.spec_headers(), n2)
            == (if n2 == n_m {
            Option::Some("GET,POST"@)
        } else if n2 == n_h {
            Option::Some("origin, x-requested-with, content-type"@)
        } else if n2 == n_o {
            Option::Some("*"@)
        } else {
            first_value(h0, n2)
        }) by {
            lemma_replace_header(r2.spec_headers(), n_m, "GET,POST"@, n2);
            lemma_replace_header(r1.spec_headers(), n_h, "origin, x-requested-with, content-type"@, n2);
            lemma_replace_header(h0, n_o, "*"@, n2);
        }
    }
    r3
}

/// Adds the transport's no-cache marker: the three caching headers are
/// replaced by their must-not-cache values.
pub fn with_no_cache(r: HttpResponse) -> (out: HttpResponse)
    ensures
        out.status == r.status,
        out.body == r.body,
        out.spec_header("Cache-Control"@) == Option::Some(
            "no-cache, no-store, must-revalidate"@,
        ),
        forall|n2: Seq<char>|
            n2 != "Cache-Control"@ && n2 != "Expires"@ && n2 != "Pragma"@
                ==> #[trigger] out.spec_header(n2) == r.spec_header(n2),
{
    let ghost h0 = r.spec_headers();
    let r1 = r.with_unique_header("Cache-Control", "no-cache, no-store, must-revalidate");
    let r2 = r1.with_unique_header("Expires", "0");
    let r3 = r2.with_unique_header("Pragma", "no-cache");
    proof {
        let ghost n_c = "Cache-Control"@;
        let ghost n_e = "Expires"@;
        let ghost n_p = "Pragma"@;
        assert(n_c != n_e && n_c != n_p && n_e != n_p) by {
            reveal_strlit("Cache-Control");
            reveal_strlit("Expires");
            reveal_strlit("Pragma");
            assert("Cache-Control"@.len() == 13);
            assert("Expires"@.len() == 7);
            assert("Pragma"@.len() == 6);
        }
        assert forall|n2: Seq<char>| true implies #[trigger] first_value(r3.spec_headers(), n2)
            == (if n2 == n_p {
            Option::Some("no-cache"@)
        } else if n2 == n_e {
            Option::Some("0"@)
        } else if n2 == n_c {
            Option::Some("no-cache, no-store, must-revalidate"@)
        } else {
            first_value(h0, n2)
        }) by {
            lemma_replace_header(r2.spec_headers(), n_p, "no-cache"@, n2);
            lemma_replace_header(r1.spec_headers(), n_e, "0"@, n2);
            lemma_replace_header(h0, n_c, "no-cache, no-store, must-revalidate"@, n2);
        }
    }
    r3
}

/// The content type that a client hint selects, with its download
/// name where playlists ask for one.
pub open spec fn spec_hint_headers(
    h: Seq<(Seq<char>, Seq<char>)>,
    hint: Seq<char>,
) -> Seq<(Seq<char>, Seq<char>)> {
    if hint == "json"@ {
        replace_header(h, "Content-Type"@, "application/json"@)
    } else if hint == "xml"@ {
        replace_header(h, "Content-Type"@, "text/xml"@)
    } else if hint == "m3u"@ {
        replace_header(
            replace_header(h, "Content-Type"@, "audio/mpegurl"@),
            "Content-Disposition"@,
            "inline; filename=\"playlist.m3u\""@,
        )
    } else if hint == "pls"@ {
        replace_header(
            replace_header(h, "Content-Type"@, "audio/x-scpls"@),
            "Content-Disposition"@,
            "inline; filename=\"playlist.pls\""@,
        )
    } else if hint == "xspf"@ {
        replace_header(
            replace_header(h, "Content-Type"@, "application/xspf+xml"@),
            "Content-Disposition"@,
            "inline; filename=\"playlist.xspf\""@,
        )
    } else if hint == "ttl"@ {
        replace_header(h, "Content-Type"@, "text/turtle"@)
    } else {
        h
    }
}

/// Header names are pairwise distinct character sequences.
pub proof fn lemma_header_name_literals()
    ensures
        "Content-Type"@ != "Content-Disposition"@,
        "Cache-Control"@ != "Content-Type"@,
        "Cache-Control"@ != "Content-Disposition"@,
        "Expires"@ != "Content-Type"@,
        "Expires"@ != "Content-Disposition"@,
        "Pragma"@ != "Content-Type"@,
        "Pragma"@ != "Content-Disposition"@,
{
    reveal_strlit("Content-Type");
    reveal_strlit("Content-Disposition");
    reveal_strlit("Cache-Control");
    reveal_strlit("Expires");
    reveal_strlit("Pragma");
    assert("Content-Type"@.len() == 12);
    assert("Content-Disposition"@.len() == 19);
    assert("Cache-Control"@.len() == 13);
    assert("Expires"@.len() == 7);
    assert("Pragma"@.len() == 6);
}

/// The first Content-Type value after the hint override, given the
/// value before it.
pub open spec fn spec_ct_after_hint(before: Option<Seq<char>>, hint: Seq<char>) -> Option<
    Seq<char>,
> {
    if hint == "json"@ {
        Option::Some("application/json"@)
    } else if hint == "xml"@ {
        Option::Some("text/xml"@)
    } else if hint == "m3u"@ {
        Option::Some("audio/mpegurl"@)
    } else if hint == "pls"@ {
        Option::Some("audio/x-scpls"@)
    } else if hint == "xspf"@ {
        Option::Some("application/xspf+xml"@)
    } else if hint == "ttl"@ {
        Option::Some("text/turtle"@)
    } else {
        before
    }
}

/// The first Content-Disposition value after the hint override: the
/// playlist hints name their download file, the others change nothing.
pub open spec fn spec_cd_after_hint(before: Option<Seq<char>>, hint: Seq<char>) -> Option<
    Seq<char>,
> {
    if hint == "json"@ || hint == "xml"@ {
        before
    } else if hint == "m3u"@ {
        Option::Some("inline; filename=\"playlist.m3u\""@)
    } else if hint == "pls"@ {
        Option::Some("inline; filename=\"playlist.pls\""@)
    } else if hint == "xspf"@ {
        Option::Some("inline; filename=\"playlist.xspf\""@)
    } else {
        before
    }
}

/// Applies the client's content-type hint last, as the server does:
/// a recognized hint overrides the content type the endpoint set, the
/// playlist hints add their download name, and every other header
/// keeps its value.
pub fn apply_content_type_hint(result: HttpResponse, hint: &str) -> (r: HttpResponse)
    ensures
        r.status == result.status,
        r.body == result.body,
        r.spec_headers() == spec_hint_headers(result.spec_headers(), hint@),
        r.spec_header("Content-Type"@) == spec_ct_after_hint(
            result.spec_header("Content-Type"@),
            hint@,
        ),
        r.spec_header("Content-Disposition"@) == spec_cd_after_hint(
            result.spec_header("Content-Disposition"@),
            hint@,
        ),
        forall|n2: Seq<char>|
            n2 != "Content-Type"@ && n2 != "Content-Disposition"@ ==> #[trigger] r.spec_header(n2)
                == result.spec_header(n2),
{
    let ghost h = result.spec_headers();
    proof {
        lemma_header_name_literals();
    }
    if str_eq(hint, "json") {
        let r = result.with_unique_header("Content-Type", "application/json");
        proof {
            assert forall|n2: Seq<char>| n2 != "Content-Type"@ implies #[trigger] first_value(
                r.spec_headers(),
                n2,
            ) == first_value(h, n2) by {
                lemma_replace_header(h, "Content-Type"@, "application/json"@, n2);
            }
            lemma_replace_header(h, "Content-Type"@, "application/json"@, "Content-Type"@);
        }
        r
    } else if str_eq(hint, "xml") {
        let r = result.with_unique_header("Content-Type", "text/xml");
        proof {
            assert forall|n2: Seq<char>| n2 != "Content-Type"@ implies #[trigger] first_value(
                r.spec_headers(),
                n2,
            ) == first_value(h, n2) by {
                lemma_replace_header(h, "Content-Type"@, "text/xml"@, n2);
            }
            lemma_replace_header(h, "Content-Type"@, "text/xml"@, "Content-Type"@);
        }
        r
    } else if str_eq(hint, "m3u") {
        let r1 = result.with_unique_header("Content-Type", "audio/mpegurl");
        let r = r1.with_unique_header(
            "Content-Disposition",
            "inline; filename=\"playlist.m3u\"",
        );
        proof {
            assert forall|n2: Seq<char>| n2 != "Content-Type"@ && n2 != "Content-Disposition"@
                implies #[trigger] first_value(r.spec_headers(), n2) == first_value(h, n2) by {
                lemma_replace_header(
                    r1.spec_headers(),
                    "Content-Disposition"@,
                    "inline; filename=\"playlist.m3u\""@,
                    n2,
                );
                lemma_replace_header(h, "Content-Type"@, "audio/mpegurl"@, n2);
            }
            lemma_replace_header(h, "Content-Type"@, "audio/mpegurl"@, "Content-Type"@);
            lemma_replace_header(
                r1.spec_headers(),
                "Content-Disposition"@,
                "inline; filename=\"playlist.m3u\""@,
                "Content-Type"@,
            );
            lemma_replace_header(
                r1.spec_headers(),
                "Content-Disposition"@,
                "inline; filename=\"playlist.m3u\""@,
                "Content-Disposition"@,
            );
        }
        r
    } else if str_eq(hint, "pls") {
        let r1 = result.with_unique_header("Content-Type", "audio/x-scpls");
        let r = r1.with_unique_header(
            "Content-Disposition",
            "inline; filename=\"playlist.pls\"",
        );
        proof {
            assert forall|n2: Seq<char>| n2 != "Content-Type"@ && n2 != "Content-Disposition"@
                implies #[trigger] first_value(r.spec_headers(), n2) == first_value(h, n2) by {
                lemma_replace_header(
                    r1.spec_headers(),
                    "Content-Disposition"@,
                    "inline; filename=\"playlist.pls\""@,
                    n2,
                );
                lemma_replace_header(h, "Content-Type"@, "audio/x-scpls"@, n2);
            }
            lemma_replace_header(h, "Content-Type"@, "audio/x-scpls"@, "Content-Type"@);
            lemma_replace_header(
                r1.spec_headers(),
                "Content-Disposition"@,
                "inline; filename=\"playlist.pls\""@,
                "Content-Type"@,
            );
            lemma_replace_header(
                r1.spec_headers(),
                "Content-Disposition"@,
                "inline; filename=\"playlist.pls\""@,
                "Content-Disposition"@,
            );
        }
        r
    } else if str_eq(hint, "xspf") {
        let r1 = result.with_unique_header("Content-Type", "application/xspf+xml");
        let r = r1.with_unique_header(
            "Content-Disposition",
            "inline; filename=\"playlist.xspf\"",
        );
        proof {
            assert forall|n2: Seq<char>| n2 != "Content-Type"@ && n2 != "Content-Disposition"@
                implies #[trigger] first_value(r.spec_headers(), n2) == first_value(h, n2) by {
                lemma_replace_header(
                    r1.spec_headers(),
                    "Content-Disposition"@,
                    "inline; filename=\"playlist.xspf\""@,
                    n2,
                );
                lemma_replace_header(h, "Content-Type"@, "application/xspf+xml"@, n2);
            }
            lemma_replace_header(h, "Content-Type"@, "application/xspf+xml"@, "Content-Type"@);
            lemma_replace_header(
                r1.spec_headers(),
                "Content-Disposition"@,
                "inline; filename=\"playlist.xspf\""@,
                "Content-Type"@,
            );
            lemma_replace_header(
                r1.spec_headers(),
                "Content-Disposition"@,
                "inline; filename=\"playlist.xspf\""@,
                "Content-Disposition"@,
            );
        }
        r
    } else if str_eq(hint, "ttl") {
        let r = result.with_unique_header("Content-Type", "text/turtle");
        proof {
            assert forall|n2: Seq<char>| n2 != "Content-Type"@ implies #[trigger] first_value(
                r.spec_headers(),
                n2,
            ) == first_value(h, n2) by {
                lemma_replace_header(h, "Content-Type"@, "text/turtle"@, n2);
            }
            lemma_replace_header(h, "Content-Type"@, "text/turtle"@, "Content-Type"@);
        }
        r
    } else {
        result
    }
}

} // verus!
