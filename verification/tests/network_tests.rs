use zver::network::{categorize_resource, fetch_target, FetchStep, FetchTarget, NetworkEngine, MAX_LOG_ENTRIES};
use zver::resource_loader::{may_start_transfer, prefetch_requests, resource_from_response, Resource, ResourceRequest};

#[test]
fn resource_categories() {
    assert_eq!(categorize_resource("https://x.org/style.CSS?v=2"), "CSS");
    assert_eq!(categorize_resource("app.js#top"), "JS");
    assert_eq!(categorize_resource("index.html"), "HTML");
    assert_eq!(categorize_resource("file.css.map"), "HTML");
}

#[test]
fn fetch_targets() {
    assert_eq!(fetch_target("https://a.b/c"), FetchTarget::Http("https://a.b/c".to_string()));
    assert_eq!(fetch_target("http://a.b/c"), FetchTarget::Http("http://a.b/c".to_string()));
    assert_eq!(fetch_target("file:///tmp/x.html"), FetchTarget::File("/tmp/x.html".to_string()));
    assert_eq!(fetch_target("tests/x.html"), FetchTarget::File("tests/x.html".to_string()));
}

#[test]
fn test_cache_functionality() {
    let mut net = NetworkEngine::new();
    let url = "tests/page.html";
    assert_eq!(net.begin_fetch(url), FetchStep::Fetch(FetchTarget::File(url.to_string())));
    let r = net.finish_fetch(url, Ok("<html></html>".to_string()));
    assert_eq!(r, Ok("<html></html>".to_string()));
    assert_eq!(net.begin_fetch(url), FetchStep::Cached("<html></html>".to_string()));
    let statuses: Vec<&str> = net.logs().iter().map(|e| e.status.as_str()).collect();
    assert_eq!(statuses, vec!["OK", "OK (cache)"]);
    assert_eq!(net.logs()[0].source, "HTML");
}

#[test]
fn test_cache_clear() {
    let mut net = NetworkEngine::new();
    net.finish_fetch("a.css", Ok("body{}".to_string()));
    net.clear_cache_for_url("a.css");
    assert!(matches!(net.begin_fetch("a.css"), FetchStep::Fetch(_)));
}

#[test]
fn failed_fetch_is_logged() {
    let mut net = NetworkEngine::new();
    let r = net.finish_fetch("missing.js", Err("No such file".to_string()));
    assert_eq!(r, Err("No such file".to_string()));
    assert_eq!(net.logs()[0].status, "ERR: No such file");
    assert_eq!(net.logs()[0].source, "JS");
    assert!(matches!(net.begin_fetch("missing.js"), FetchStep::Fetch(_)));
}

#[test]
fn log_is_bounded() {
    let mut net = NetworkEngine::new();
    for i in 0..(MAX_LOG_ENTRIES + 10) {
        net.record_network_event(&format!("u{}", i), "OK".to_string(), "HTML".to_string());
    }
    assert_eq!(net.logs().len(), MAX_LOG_ENTRIES);
    assert_eq!(net.logs()[0].url, "u10");
}

#[test]
fn prefetch_dispatch() {
    let urls = vec!["a".to_string(), "b".to_string()];
    let r = prefetch_requests(&urls, "css");
    assert_eq!(r.len(), 2);
    assert!(matches!(&r[0], ResourceRequest::Css(u) if u == "a"));
    assert!(matches!(&r[1], ResourceRequest::Css(u) if u == "b"));
    assert!(matches!(&prefetch_requests(&urls, "image")[0], ResourceRequest::Image(_)));
    assert!(prefetch_requests(&urls, "video").is_empty());
    assert_eq!(r[1].url(), "b");
    assert!(may_start_transfer(5));
    assert!(!may_start_transfer(6));
    let got = resource_from_response(ResourceRequest::Script("s.js".into()), Some("x()".into()), None);
    assert!(matches!(got, Some(Resource::Script(u, c)) if u == "s.js" && c == "x()"));
    assert!(resource_from_response(ResourceRequest::Image("i.png".into()), Some("t".into()), None).is_none());
    let img = resource_from_response(ResourceRequest::Image("i.png".into()), None, Some(vec![1, 2]));
    assert!(matches!(img, Some(Resource::Image(_, b)) if b == vec![1, 2]));
}
