//! Normalizing a raw request URL to the coarse key the access counter
//! uses, so endpoints that embed a UUID or search string do not blow up
//! the metric cardinality.

use vstd::prelude::*;
use crate::error::ApiError;
use crate::strutil::contains_seq;
use crate::strutil::contains_str;
use crate::strutil::count_char;
use crate::strutil::count_char_str;
use crate::strutil::find_char_from;
use crate::strutil::index_of_from;
use crate::strutil::last_index_of;
use crate::strutil::rfind_char;

verus! {

pub proof fn lemma_count_pos_last(s: Seq<char>, c: char)
    requires
        count_char(s, c) > 0,
    ensures
        0 <= last_index_of(s, c) < s.len(),
    decreases s.len(),
{
    if s.len() > 0 && s.last() != c {
        lemma_count_pos_last(s.drop_last(), c);
    }
}

/// The URL as the access counter keys it: the query string is dropped;
/// on paths with four slashes, and on three-slash paths outside
/// `/stations/`, the trailing segment is dropped as well.
pub open spec fn spec_clean_url(s: Seq<char>) -> Seq<char> {
    let base = s.subrange(0, index_of_from(s, '?', 0));
    let slashes = count_char(base, '/');
    if slashes == 4 {
        base.subrange(0, last_index_of(base, '/'))
    } else if slashes == 3 {
        if contains_seq(base, "/stations/"@) {
            base
        } else {
            base.subrange(0, last_index_of(base, '/'))
        }
    } else {
        base
    }
}

/// Reduces a raw request URL to its metrics-safe form.
pub fn clean_url(original_url: &str) -> (r: Result<&str, ApiError>)
    ensures
        r matches Ok(u) && u@ == spec_clean_url(original_url@),
{
    let q: usize = find_char_from(original_url, '?', 0);
    let base: &str = original_url.substring_char(0, q);
    let slashes: usize = count_char_str(base, '/');
    if slashes == 4 {
        match rfind_char(base, '/') {
            Some(k) => Ok(base.substring_char(0, k)),
            None => {
                proof {
                    lemma_count_pos_last(base@, '/');
                }
                Err(ApiError::InternalError(base.to_owned()))
            },
        }
    } else if slashes == 3 {
        if contains_str(base, "/stations/") {
            Ok(base)
        } else {
            match rfind_char(base, '/') {
                Some(k) => Ok(base.substring_char(0, k)),
                None => {
                    proof {
                        lemma_count_pos_last(base@, '/');
                    }
                    Err(ApiError::InternalError(base.to_owned()))
                },
            }
        }
    } else {
        Ok(base)
    }
}

} // verus!
