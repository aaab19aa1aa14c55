//! Background loading of page resources: what is requested and what comes
//! back.  The transfers run in the caller's tasks.

use vstd::prelude::*;
use crate::text::{chars_of, chars_are};

verus! {

/// A loaded resource with the URL it came from.
#[derive(Debug, Clone)]
pub enum Resource {
    Css(String, String),
    Image(String, Vec<u8>),
    Script(String, String),
}

/// A resource to load.
#[derive(Debug, Clone)]
pub enum ResourceRequest {
    Css(String),
    Image(String),
    Script(String),
}

/// Most transfers running at once.
pub const MAX_CONCURRENT: usize = 6;

/// Whether another transfer may start while `active` are running.
pub fn may_start_transfer(active: usize) -> (r: bool)
    ensures
        r == (active < MAX_CONCURRENT),
{
    active < MAX_CONCURRENT
}

impl ResourceRequest {
    /// The URL to load.
    pub fn url(&self) -> (r: &String)
        ensures
            r == (match *self {
                ResourceRequest::Css(u) => u,
                ResourceRequest::Image(u) => u,
                ResourceRequest::Script(u) => u,
            }),
    {
        match self {
            ResourceRequest::Css(u) => u,
            ResourceRequest::Image(u) => u,
            ResourceRequest::Script(u) => u,
        }
    }
}

/// The request kind named by a prefetch type (`css`, `image`, `script`).
pub open spec fn request_of(kind: Seq<char>, url: String) -> Option<ResourceRequest> {
    if kind == "css"@ {
        Some(ResourceRequest::Css(url))
    } else if kind == "image"@ {
        Some(ResourceRequest::Image(url))
    } else if kind == "script"@ {
        Some(ResourceRequest::Script(url))
    } else {
        None
    }
}

/// A prefetch type that names a request kind.
pub open spec fn is_prefetch_kind(kind: Seq<char>) -> bool {
    kind == "css"@ || kind == "image"@ || kind == "script"@
}

/// The requests to send for prefetching `urls` as `resource_type`: one per
/// URL, in order, or none for an unknown type.
pub fn prefetch_requests(urls: &Vec<String>, resource_type: &str) -> (r: Vec<ResourceRequest>)
    ensures
        !is_prefetch_kind(resource_type@) ==> r@.len() == 0,
        is_prefetch_kind(resource_type@) ==> r@.len() == urls@.len() && forall|i: int|
            0 <= i < urls@.len() ==> Some(#[trigger] r@[i]) == request_of(resource_type@, urls@[i]),
{
    let k = chars_of(resource_type);
    let kind: u8 = if chars_are(k.as_slice(), "css") {
        1
    } else if chars_are(k.as_slice(), "image") {
        2
    } else if chars_are(k.as_slice(), "script") {
        3
    } else {
        0
    };
    let mut r: Vec<ResourceRequest> = Vec::new();
    if kind == 0 {
        return r;
    }
    let mut i: usize = 0;
    while i < urls.len()
        invariant
            i <= urls@.len(),
            r@.len() == i,
            1 <= kind <= 3,
            kind == 1 <==> resource_type@ == "css"@,
            kind == 2 <==> resource_type@ == "image"@ && resource_type@ != "css"@,
            kind == 3 <==> resource_type@ == "script"@ && resource_type@ != "css"@ && resource_type@ != "image"@,
            forall|j: int| 0 <= j < i ==> Some(#[trigger] r@[j]) == request_of(resource_type@, urls@[j]),
        decreases urls@.len() - i,
    {
        let u = urls[i].clone();
        if kind == 1 {
            r.push(ResourceRequest::Css(u));
        } else if kind == 2 {
            r.push(ResourceRequest::Image(u));
        } else {
            r.push(ResourceRequest::Script(u));
        }
        i = i + 1;
    }
    r
}

/// The resource a finished transfer gives: the body as text for style
/// sheets and scripts, as bytes for images; nothing when the transfer
/// failed or the body could not be read.
pub fn resource_from_response(request: ResourceRequest, text: Option<String>, bytes: Option<Vec<u8>>) -> (r: Option<Resource>)
    ensures
        r == (match request {
            ResourceRequest::Css(u) => match text {
                Some(t) => Some(Resource::Css(u, t)),
                None => None,
            },
            ResourceRequest::Script(u) => match text {
                Some(t) => Some(Resource::Script(u, t)),
                None => None,
            },
            ResourceRequest::Image(u) => match bytes {
                Some(b) => Some(Resource::Image(u, b)),
                None => None,
            },
        }),
{
    match request {
        ResourceRequest::Css(u) => match text {
            Some(t) => Some(Resource::Css(u, t)),
            None => None,
        },
        ResourceRequest::Script(u) => match text {
            Some(t) => Some(Resource::Script(u, t)),
            None => None,
        },
        ResourceRequest::Image(u) => match bytes {
            Some(b) => Some(Resource::Image(u, b)),
            None => None,
        },
    }
}

} // verus!
