//! Rules of the download cache: where a fetched document is kept, how long it
//! stays fresh, and when the network is used.
use vstd::prelude::*;
use vstd::string::StringSliceAdditionalSpecFns;
use crate::codec::{md5_hex, md5_hex_of};
use crate::names::{is_remote, is_remote_ref};

verus! {

/// How long a cached document is served before it is fetched again, in seconds.
pub const MAX_AGE_SECS: u64 = 86400;

/// Whether a cached copy `age_secs` seconds old is still served.
pub fn is_fresh(age_secs: u64) -> (r: bool)
    ensures
        r == (age_secs < MAX_AGE_SECS),
{
    age_secs < MAX_AGE_SECS
}

/// The file name under which the document at `uri` is cached: the MD5 of
/// the reference.
pub fn cache_key(uri: &str) -> (r: String)
    ensures
        r@ == md5_hex(uri.spec_bytes()),
{
    md5_hex_of(uri.as_bytes())
}

/// What a request for a document does.
pub enum CacheDecision {
    /// Serve the fresh cached copy.
    UseCached,
    /// Download it, then keep a copy.
    Fetch,
    /// Nothing cached and not a web reference: an error.
    Refuse,
}

/// Decides how the document at `uri` is obtained, given whether a fresh copy
/// is cached.
pub fn fetch_decision(fresh_copy: bool, uri: &str) -> (r: CacheDecision)
    ensures
        r == (if fresh_copy {
            CacheDecision::UseCached
        } else if is_remote_ref(uri@) {
            CacheDecision::Fetch
        } else {
            CacheDecision::Refuse
        }),
{
    if fresh_copy {
        CacheDecision::UseCached
    } else if is_remote(uri) {
        CacheDecision::Fetch
    } else {
        CacheDecision::Refuse
    }
}

} // verus!
