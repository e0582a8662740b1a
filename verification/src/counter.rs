//! The access counter: an in-memory mapping from
//! `method="M",url="U",status_code="C"` keys to monotonically
//! increasing counts, incremented once per completed request, and the
//! access-log line formats.

use vstd::prelude::*;
use crate::strutil::push_char;
use crate::strutil::spec_dec;
use crate::strutil::spec_dec_pad9;
use crate::strutil::str_eq;
use crate::strutil::u32_to_string;
use crate::strutil::u32_to_string_pad9;
use crate::strutil::u64_to_string;
use crate::urlclean::clean_url;
use crate::urlclean::spec_clean_url;

verus! {

/// The counter key for one (method, cleaned URL, status) triple.
pub open spec fn spec_counter_key(method: Seq<char>, url: Seq<char>, status: int) -> Seq<char> {
    "method=\""@ + method + "\",url=\""@ + url + "\",status_code=\""@ + spec_dec(status) + "\""@
}

/// Builds the counter key for one response.
pub fn counter_key(method: &str, url: &str, status: u16) -> (r: String)
    ensures
        r@ == spec_counter_key(method@, url@, status as int),
{
    let mut out = String::new();
    out.append("method=\"");
    out.append(method);
    out.append("\",url=\"");
    out.append(url);
    out.append("\",status_code=\"");
    let d = u32_to_string(status as u32);
    out.append(d.as_str());
    out.append("\"");
    proof {
        assert(out@ =~= spec_counter_key(method@, url@, status as int));
    }
    out
}

/// The count stored under `key` in an entry list; zero when absent.
pub open spec fn count_in(entries: Seq<(Seq<char>, u64)>, key: Seq<char>) -> u64
    decreases entries.len(),
{
    if entries.len() == 0 {
        0
    } else if entries[0].0 == key {
        entries[0].1
    } else {
        count_in(entries.drop_first(), key)
    }
}

/// One more than `c`, stopping at the largest representable count.
pub open spec fn bump(c: u64) -> u64 {
    if c < u64::MAX {
        (c + 1) as u64
    } else {
        c
    }
}

/// `bump` applied `n` times.
pub open spec fn bump_n(c: u64, n: nat) -> u64
    decreases n,
{
    if n == 0 {
        c
    } else {
        bump(bump_n(c, (n - 1) as nat))
    }
}

/// Counter monotonicity: recording an endpoint `n` times raises its
/// count by exactly `n`, for every count that stays representable.
pub proof fn lemma_counter_monotonic(c: u64, n: nat)
    requires
        c + n <= u64::MAX,
    ensures
        bump_n(c, n) == c + n,
    decreases n,
{
    if n > 0 {
        lemma_counter_monotonic(c, (n - 1) as nat);
    }
}

proof fn lemma_count_in_update(
    s: Seq<(Seq<char>, u64)>,
    i: int,
    v: u64,
    key: Seq<char>,
    k2: Seq<char>,
)
    requires
        0 <= i < s.len(),
        forall|j: int| 0 <= j < i ==> (#[trigger] s[j]).0 != key,
        s[i].0 == key,
    ensures
        count_in(s.update(i, (key, v)), key) == v,
        k2 != key ==> count_in(s.update(i, (key, v)), k2) == count_in(s, k2),
    decreases i,
{
    if i == 0 {
        assert(s.update(0, (key, v)).drop_first() =~= s.drop_first());
    } else {
        assert(s.update(i, (key, v)).drop_first() =~= s.drop_first().update(i - 1, (key, v)));
        lemma_count_in_update(s.drop_first(), i - 1, v, key, k2);
    }
}

proof fn lemma_count_in_push(s: Seq<(Seq<char>, u64)>, v: u64, key: Seq<char>, k2: Seq<char>)
    requires
        forall|j: int| 0 <= j < s.len() ==> (#[trigger] s[j]).0 != key,
    ensures
        count_in(s.push((key, v)), key) == v,
        k2 != key ==> count_in(s.push((key, v)), k2) == count_in(s, k2),
    decreases s.len(),
{
    if s.len() == 0 {
        assert(s.push((key, v))[0] == (key, v));
        assert(s.push((key, v)).drop_first() =~= Seq::<(Seq<char>, u64)>::empty());
        if k2 != key {
            assert(count_in(s.push((key, v)).drop_first(), k2) == 0);
        }
    } else {
        assert(s.push((key, v))[0] == s[0]);
        assert(s[0].0 != key);
        assert(s.push((key, v)).drop_first() =~= s.drop_first().push((key, v)));
        assert(forall|j: int|
            0 <= j < s.drop_first().len() ==> (#[trigger] s.drop_first()[j]).0 != key);
        lemma_count_in_push(s.drop_first(), v, key, k2);
    }
}

proof fn lemma_count_in_absent(s: Seq<(Seq<char>, u64)>, key: Seq<char>)
    requires
        forall|j: int| 0 <= j < s.len() ==> (#[trigger] s[j]).0 != key,
    ensures
        count_in(s, key) == 0,
    decreases s.len(),
{
    if s.len() > 0 {
        lemma_count_in_absent(s.drop_first(), key);
    }
}

/// In-memory counts per key, read by the metrics exporter and
/// incremented once per completed request.
pub struct AccessCounter {
    entries: Vec<(String, u64)>,
}

impl AccessCounter {
    /// The entries as character sequences.
    pub closed spec fn spec_entries(self) -> Seq<(Seq<char>, u64)> {
        self.entries@.map_values(|p: (String, u64)| (p.0@, p.1))
    }

    /// The count recorded under `key`; zero when absent.
    pub open spec fn spec_count(self, key: Seq<char>) -> u64 {
        count_in(self.spec_entries(), key)
    }

    /// An empty counter.
    pub fn new() -> (r: AccessCounter)
        ensures
            r.spec_entries() == Seq::<(Seq<char>, u64)>::empty(),
    {
        let r = AccessCounter { entries: Vec::new() };
        proof {
            assert(r.spec_entries() =~= Seq::<(Seq<char>, u64)>::empty());
        }
        r
    }

    /// Raises the count under `key` by one, saturating at the largest
    /// representable count; every other key keeps its count.
    pub fn increment(&mut self, key: &str)
        ensures
            final(self).spec_count(key@) == bump(old(self).spec_count(key@)),
            forall|k2: Seq<char>|
                k2 != key@ ==> final(self).spec_count(k2) == old(self).spec_count(k2),
    {
        let n: usize = self.entries.len();
        let mut i: usize = 0;
        let ghost s0: Seq<(Seq<char>, u64)> = self.spec_entries();
        proof {
            assert(s0.skip(0) =~= s0);
        }
        while i < n
            invariant
                0 <= i <= n,
                n == self.entries@.len(),
                s0 == self.spec_entries(),
                s0 == old(self).spec_entries(),
                forall|j: int| 0 <= j < i ==> (#[trigger] s0[j]).0 != key@,
                count_in(s0, key@) == count_in(s0.skip(i as int), key@),
            decreases n - i,
        {
            if str_eq(self.entries[i].0.as_str(), key) {
                proof {
                    assert(s0.skip(i as int)[0] == s0[i as int]);
                }
                let pair = self.entries.remove(i);
                let c: u64 = pair.1;
                let c2: u64 = if c < 0xFFFF_FFFF_FFFF_FFFF {
                    c + 1
                } else {
                    c
                };
                self.entries.insert(i, (pair.0, c2));
                proof {
                    assert(self.spec_entries() =~= s0.update(i as int, (key@, c2)));
                    lemma_count_in_update(s0, i as int, c2, key@, key@);
                    assert forall|k2: Seq<char>| k2 != key@ implies count_in(
                        self.spec_entries(),
                        k2,
                    ) == count_in(s0, k2) by {
                        lemma_count_in_update(s0, i as int, c2, key@, k2);
                    }
                }
                return ;
            }
            i = i + 1;
            proof {
                assert(s0.skip(i - 1)[0] == s0[i - 1]);
                assert(s0.skip(i - 1).drop_first() =~= s0.skip(i as int));
            }
        }
        self.entries.push((key.to_owned(), 1));
        proof {
            assert(s0.skip(n as int) =~= Seq::<(Seq<char>, u64)>::empty());
            assert(self.spec_entries() =~= s0.push((key@, 1)));
            lemma_count_in_absent(s0, key@);
            lemma_count_in_push(s0, 1, key@, key@);
            assert forall|k2: Seq<char>| k2 != key@ implies count_in(self.spec_entries(), k2)
                == count_in(s0, k2) by {
                lemma_count_in_push(s0, 1, key@, k2);
            }
        }
    }

    /// A copy of every key and its count, for the metrics exporter.
    pub fn snapshot(&self) -> (r: Vec<(String, u64)>)
        ensures
            r@.map_values(|p: (String, u64)| (p.0@, p.1)) == self.spec_entries(),
    {
        let n: usize = self.entries.len();
        let mut out: Vec<(String, u64)> = Vec::new();
        let mut i: usize = 0;
        while i < n
            invariant
                0 <= i <= n,
                n == self.entries@.len(),
                out@.len() == i,
                forall|k: int|
                    0 <= k < i ==> (#[trigger] out@[k]).0@ == self.spec_entries()[k].0 && out@[k].1
                        == self.spec_entries()[k].1,
            decreases n - i,
        {
            let name = self.entries[i].0.clone();
            out.push((name, self.entries[i].1));
            i = i + 1;
        }
        proof {
            assert(out@.map_values(|p: (String, u64)| (p.0@, p.1)) =~= self.spec_entries());
        }
        out
    }

    /// Reads the count recorded under `key`.
    pub fn get(&self, key: &str) -> (r: u64)
        ensures
            r == self.spec_count(key@),
    {
        let n: usize = self.entries.len();
        let mut i: usize = 0;
        let ghost s0: Seq<(Seq<char>, u64)> = self.spec_entries();
        proof {
            assert(s0.skip(0) =~= s0);
        }
        while i < n
            invariant
                0 <= i <= n,
                n == self.entries@.len(),
                s0 == self.spec_entries(),
                count_in(s0, key@) == count_in(s0.skip(i as int), key@),
            decreases n - i,
        {
            if str_eq(self.entries[i].0.as_str(), key) {
                proof {
                    assert(s0.skip(i as int)[0] == s0[i as int]);
                }
                return self.entries[i].1;
            }
            i = i + 1;
            proof {
                assert(s0.skip(i - 1)[0] == s0[i - 1]);
                assert(s0.skip(i - 1).drop_first() =~= s0.skip(i as int));
            }
        }
        proof {
            assert(s0.skip(n as int) =~= Seq::<(Seq<char>, u64)>::empty());
        }
        0
    }

    /// Records one completed response: the count keyed by the method,
    /// the cleaned URL and the actual status code rises by one.
    pub fn log_ok(&mut self, method: &str, raw_url: &str, status: u16)
        ensures
            final(self).spec_count(
                spec_counter_key(method@, spec_clean_url(raw_url@), status as int),
            ) == bump(
                old(self).spec_count(
                    spec_counter_key(method@, spec_clean_url(raw_url@), status as int),
                ),
            ),
            forall|k2: Seq<char>|
                k2 != spec_counter_key(method@, spec_clean_url(raw_url@), status as int)
                    ==> final(self).spec_count(k2) == old(self).spec_count(k2),
    {
        match clean_url(raw_url) {
            Ok(cleaned) => {
                let key = counter_key(method, cleaned, status);
                self.increment(key.as_str());
            },
            Err(_) => {},
        }
    }

    /// Records one failed response: the count keyed by the method, the
    /// cleaned URL and status 500 rises by one.
    pub fn log_err(&mut self, method: &str, raw_url: &str)
        ensures
            final(self).spec_count(spec_counter_key(method@, spec_clean_url(raw_url@), 500))
                == bump(
                old(self).spec_count(spec_counter_key(method@, spec_clean_url(raw_url@), 500)),
            ),
            forall|k2: Seq<char>|
                k2 != spec_counter_key(method@, spec_clean_url(raw_url@), 500)
                    ==> final(self).spec_count(k2) == old(self).spec_count(k2),
    {
        match clean_url(raw_url) {
            Ok(cleaned) => {
                let key = counter_key(method, cleaned, 500);
                self.increment(key.as_str());
            },
            Err(_) => {},
        }
    }
}

/// The access-log line for one completed response.
pub open spec fn spec_access_log_line(
    ip: Seq<char>,
    secs: int,
    nanos: int,
    ts: Seq<char>,
    method: Seq<char>,
    url: Seq<char>,
    status: int,
    referer: Seq<char>,
    user_agent: Seq<char>,
) -> Seq<char> {
    ip + seq![' '] + spec_dec(secs) + ","@ + spec_dec_pad9(nanos) + " - ["@ + ts + "] \""@ + method
        + seq![' '] + url + "\" "@ + spec_dec(status) + " 0 \""@ + referer + "\" \""@ + user_agent
        + "\""@
}

/// Builds the access-log line for one completed response.
pub fn access_log_line(
    ip: &str,
    secs: u64,
    nanos: u32,
    ts: &str,
    method: &str,
    url: &str,
    status: u16,
    referer: &str,
    user_agent: &str,
) -> (r: String)
    ensures
        r@ == spec_access_log_line(
            ip@,
            secs as int,
            nanos as int,
            ts@,
            method@,
            url@,
            status as int,
            referer@,
            user_agent@,
        ),
{
    let mut out = String::new();
    out.append(ip);
    push_char(&mut out, ' ');
    let d1 = u64_to_string(secs);
    out.append(d1.as_str());
    out.append(",");
    let d2 = u32_to_string_pad9(nanos);
    out.append(d2.as_str());
    out.append(" - [");
    out.append(ts);
    out.append("] \"");
    out.append(method);
    push_char(&mut out, ' ');
    out.append(url);
    out.append("\" ");
    let d3 = u32_to_string(status as u32);
    out.append(d3.as_str());
    out.append(" 0 \"");
    out.append(referer);
    out.append("\" \"");
    out.append(user_agent);
    out.append("\"");
    proof {
        assert(out@ =~= spec_access_log_line(
            ip@,
            secs as int,
            nanos as int,
            ts@,
            method@,
            url@,
            status as int,
            referer@,
            user_agent@,
        ));
    }
    out
}

/// The access-log line for one failed response: the trailing fields
/// are replaced by the bare status 500.
pub open spec fn spec_access_err_line(
    ip: Seq<char>,
    secs: int,
    nanos: int,
    ts: Seq<char>,
    method: Seq<char>,
    url: Seq<char>,
) -> Seq<char> {
    ip + seq![' '] + spec_dec(secs) + ","@ + spec_dec_pad9(nanos) + " - ["@ + ts + "] \""@ + method
        + seq![' '] + url + "\" 500"@
}

/// Builds the access-log line for one failed response.
pub fn access_err_line(
    ip: &str,
    secs: u64,
    nanos: u32,
    ts: &str,
    method: &str,
    url: &str,
) -> (r: String)
    ensures
        r@ == spec_access_err_line(ip@, secs as int, nanos as int, ts@, method@, url@),
{
    let mut out = String::new();
    out.append(ip);
    push_char(&mut out, ' ');
    let d1 = u64_to_string(secs);
    out.append(d1.as_str());
    out.append(",");
    let d2 = u32_to_string_pad9(nanos);
    out.append(d2.as_str());
    out.append(" - [");
    out.append(ts);
    out.append("] \"");
    out.append(method);
    push_char(&mut out, ' ');
    out.append(url);
    out.append("\" 500");
    proof {
        assert(out@ =~= spec_access_err_line(ip@, secs as int, nanos as int, ts@, method@, url@));
    }
    out
}

} // verus!
