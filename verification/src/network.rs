//! Fetching state: the response cache, the request log shown by the
//! developer tools, and the choice of how each URL is fetched.  The
//! transfers themselves are made by the caller.

use vstd::prelude::*;
use crate::strmap::StrMap;
use crate::text::{chars_of, string_from_chars, slice_chars, push_str, push_chars, lower, to_lower, has_prefix, has_suffix, starts_with_str, ends_with_str};

verus! {

/// One line of the network log.
#[derive(Debug, Clone)]
pub struct NetworkLogEntry {
    pub url: String,
    pub status: String,
    pub source: String,
}

/// Most lines kept in the network log.
pub const MAX_LOG_ENTRIES: usize = 256;

/// The text before the first `?` or `#`.
pub open spec fn before_query(s: Seq<char>) -> Seq<char>
    decreases s.len(),
{
    if s.len() == 0 {
        s
    } else if s[0] == '?' || s[0] == '#' {
        Seq::empty()
    } else {
        seq![s[0]] + before_query(s.drop_first())
    }
}

/// The kind of resource a URL names, by the extension of its path:
/// `CSS`, `JS`, else `HTML`.
pub open spec fn resource_kind(url: Seq<char>) -> Seq<char> {
    let p = lower(before_query(url));
    if has_suffix(p, ".css"@) {
        "CSS"@
    } else if has_suffix(p, ".js"@) {
        "JS"@
    } else {
        "HTML"@
    }
}

fn cut_query(s: &[char]) -> (r: Vec<char>)
    ensures
        r@ == before_query(s@),
{
    let mut i: usize = 0;
    assert(s@.skip(0) =~= s@);
    assert(s@.take(0) + s@ =~= s@);
    while i < s.len() && s[i] != '?' && s[i] != '#'
        invariant
            i <= s@.len(),
            before_query(s@) == s@.take(i as int) + before_query(s@.skip(i as int)),
        decreases s@.len() - i,
    {
        assert(s@.skip(i as int).drop_first() =~= s@.skip(i + 1));
        assert(s@.take(i + 1) =~= s@.take(i as int) + seq![s@[i as int]]);
        i = i + 1;
    }
    proof {
        if i < s@.len() {
            assert(before_query(s@.skip(i as int)) == Seq::<char>::empty());
        } else {
            assert(s@.skip(i as int) =~= Seq::<char>::empty());
        }
        assert(s@.take(i as int) + Seq::<char>::empty() =~= s@.take(i as int));
    }
    slice_chars(s, 0, i)
}

/// The kind of resource `url` names: `CSS`, `JS` or `HTML`.
pub fn categorize_resource(url: &str) -> (r: &'static str)
    ensures
        r@ == resource_kind(url@),
{
    let c = chars_of(url);
    let p = cut_query(c.as_slice());
    let l = to_lower(p.as_slice());
    if ends_with_str(l.as_slice(), ".css") {
        "CSS"
    } else if ends_with_str(l.as_slice(), ".js") {
        "JS"
    } else {
        "HTML"
    }
}

/// How a URL is fetched.
#[derive(Debug, Clone, PartialEq, Eq)]
pub enum FetchTarget {
    /// Over HTTP(S), at this URL.
    Http(String),
    /// From the file system, at this path.
    File(String),
}

/// How `url` is fetched: `http://` and `https://` URLs over the network;
/// anything else is a file path, after `file://` when it has one.
pub open spec fn target_of(url: Seq<char>) -> (bool, Seq<char>) {
    if has_prefix(url, "http://"@) || has_prefix(url, "https://"@) {
        (true, url)
    } else if has_prefix(url, "file://"@) {
        (false, url.skip(7))
    } else {
        (false, url)
    }
}

/// How `url` is fetched.
pub fn fetch_target(url: &str) -> (r: FetchTarget)
    ensures
        match r {
            FetchTarget::Http(u) => target_of(url@) == (true, u@),
            FetchTarget::File(p) => target_of(url@) == (false, p@),
        },
{
    proof {
        reveal_strlit("file://");
    }
    let c = chars_of(url);
    if starts_with_str(c.as_slice(), "http://") || starts_with_str(c.as_slice(), "https://") {
        FetchTarget::Http(string_from_chars(c.as_slice()))
    } else if starts_with_str(c.as_slice(), "file://") {
        let rest = slice_chars(c.as_slice(), 7, c.len());
        assert(rest@ == url@.skip(7));
        FetchTarget::File(string_from_chars(rest.as_slice()))
    } else {
        FetchTarget::File(string_from_chars(c.as_slice()))
    }
}

/// What the caller does next for a fetch.
#[derive(Debug, Clone, PartialEq, Eq)]
pub enum FetchStep {
    /// The response is cached: here it is.
    Cached(String),
    /// The resource must be fetched so.
    Fetch(FetchTarget),
}

/// The response cache and the request log.
pub struct NetworkEngine {
    cache: StrMap<String>,
    logs: Vec<NetworkLogEntry>,
}

/// The log after one more line: the oldest line goes when the log is full.
pub open spec fn logged(logs: Seq<NetworkLogEntry>, e: NetworkLogEntry) -> Seq<NetworkLogEntry> {
    if logs.len() >= MAX_LOG_ENTRIES {
        logs.drop_first().push(e)
    } else {
        logs.push(e)
    }
}

impl NetworkEngine {
    /// Cached responses by URL.
    pub closed spec fn cached(self) -> Map<Seq<char>, String> {
        self.cache@
    }

    /// The request log, oldest first.
    pub closed spec fn log(self) -> Seq<NetworkLogEntry> {
        self.logs@
    }

    /// The cache is well formed and the log holds at most
    /// `MAX_LOG_ENTRIES` lines.
    pub closed spec fn wf(self) -> bool {
        self.cache.wf() && self.logs@.len() <= MAX_LOG_ENTRIES
    }

    /// An empty cache and log.
    pub fn new() -> (r: Self)
        ensures
            r.wf(),
            r.cached() == Map::<Seq<char>, String>::empty(),
            r.log() == Seq::<NetworkLogEntry>::empty(),
    {
        NetworkEngine { cache: StrMap::new(), logs: Vec::new() }
    }

    /// Adds a line to the log, dropping the oldest when it is full.
    pub fn record_network_event(&mut self, url: &str, status: String, source: String)
        requires
            old(self).wf(),
        ensures
            final(self).wf(),
            final(self).cached() == old(self).cached(),
            final(self).log() == logged(
                old(self).log(),
                final(self).log().last(),
            ),
            final(self).log().last().url@ == url@,
            final(self).log().last().status == status,
            final(self).log().last().source == source,
    {
        if self.logs.len() >= MAX_LOG_ENTRIES {
            self.logs.remove(0);
        }
        let entry = NetworkLogEntry { url: url.to_string(), status, source };
        self.logs.push(entry);
        proof {
            assert(self.logs@ =~= logged(old(self).logs@, self.logs@.last()));
        }
    }

    /// The request log, oldest first.
    pub fn logs(&self) -> (r: &Vec<NetworkLogEntry>)
        ensures
            r@ == self.log(),
    {
        &self.logs
    }

    /// Forgets the cached response of `url`.
    pub fn clear_cache_for_url(&mut self, url: &str)
        requires
            old(self).wf(),
        ensures
            final(self).wf(),
            final(self).cached() == old(self).cached().remove(url@),
            final(self).log() == old(self).log(),
    {
        self.cache.remove(url);
    }

    /// Starts fetching `url`: a cached response is returned at once and
    /// logged as `OK (cache)`; otherwise the caller is told how to fetch it
    /// and reports back with [`NetworkEngine::finish_fetch`].
    pub fn begin_fetch(&mut self, url: &str) -> (r: FetchStep)
        requires
            old(self).wf(),
        ensures
            final(self).wf(),
            final(self).cached() == old(self).cached(),
            old(self).cached().contains_key(url@) ==> {
                &&& r == FetchStep::Cached(old(self).cached()[url@])
                &&& final(self).log() == logged(old(self).log(), final(self).log().last())
                &&& final(self).log().last().url@ == url@
                &&& final(self).log().last().status@ == "OK (cache)"@
                &&& final(self).log().last().source@ == resource_kind(url@)
            },
            !old(self).cached().contains_key(url@) ==> {
                &&& final(self).log() == old(self).log()
                &&& r matches FetchStep::Fetch(t)
                &&& match t {
                    FetchTarget::Http(u) => target_of(url@) == (true, u@),
                    FetchTarget::File(p) => target_of(url@) == (false, p@),
                }
            },
    {
        match self.cache.get_str(url) {
            Some(content) => {
                let content = content.clone();
                let source = categorize_resource(url).to_string();
                self.record_network_event(url, "OK (cache)".to_string(), source);
                FetchStep::Cached(content)
            },
            None => FetchStep::Fetch(fetch_target(url)),
        }
    }

    /// Reports how a fetch of `url` ended: a response is cached and logged
    /// as `OK`; a failure is logged as `ERR: ` and its message.  The result
    /// is handed back.
    pub fn finish_fetch(&mut self, url: &str, result: Result<String, String>) -> (r: Result<String, String>)
        requires
            old(self).wf(),
        ensures
            final(self).wf(),
            r == result,
            final(self).log() == logged(old(self).log(), final(self).log().last()),
            final(self).log().last().url@ == url@,
            final(self).log().last().source@ == resource_kind(url@),
            match result {
                Ok(content) => {
                    &&& final(self).cached() == old(self).cached().insert(url@, content)
                    &&& final(self).log().last().status@ == "OK"@
                },
                Err(e) => {
                    &&& final(self).cached() == old(self).cached()
                    &&& final(self).log().last().status@ == "ERR: "@ + e@
                },
            },
    {
        let source = categorize_resource(url).to_string();
        match &result {
            Ok(content) => {
                self.cache.insert(url.to_string(), content.clone());
                self.record_network_event(url, "OK".to_string(), source);
            },
            Err(e) => {
                let mut v: Vec<char> = Vec::new();
                push_str(&mut v, "ERR: ");
                let ec = chars_of(e.as_str());
                push_chars(&mut v, ec.as_slice());
                self.record_network_event(url, string_from_chars(v.as_slice()), source);
            },
        }
        result
    }
}


/// A response stored by a successful fetch is what the next fetch of the
/// same URL gets from the cache.
pub proof fn lemma_fetched_then_cached(a: NetworkEngine, b: NetworkEngine, url: Seq<char>, content: String)
    requires
        b.cached() == a.cached().insert(url, content),
    ensures
        b.cached().contains_key(url),
        b.cached()[url] == content,
{
}

} // verus!
