use std::collections::HashMap;
use zver::browser::address_bar::{sort_texts, AddressBar};
use zver::browser::devtools::{
    build_node_summary, collect_sorted_attributes, format_node_label, ConsoleEntry, DevTools, DevToolsTab,
};
use zver::browser::tab::{Tab, TabManager, TabStatus};
use zver::dom::document::Document;
use zver::network::NetworkLogEntry;

#[test]
fn tab_titles() {
    assert_eq!(Tab::extract_title_from_url(""), "New Tab");
    assert_eq!(Tab::extract_title_from_url("file:///home/u/tests/page.html"), "page.html");
    assert_eq!(Tab::extract_title_from_url("https://example.com/path/x"), "example.com");
    assert_eq!(Tab::extract_title_from_url("about:blank"), "about:blank");
    assert_eq!(
        Tab::extract_title_from_url("data:text/plain,aaaaaaaaaaaaaaaaaaaaaaaaaaaaaaaa"),
        "data:text/plain,aaaaaaaaaaa..."
    );
}

#[test]
fn tab_history_back_and_forward() {
    let mut tab = Tab::new(3);
    assert_eq!(tab.title, "New Tab 3");
    assert!(!tab.can_go_back());
    tab.load_url("file:///a.html".to_string(), true);
    tab.finish_load(Ok(()));
    assert!(matches!(tab.status, TabStatus::Loaded));
    tab.load_url("file:///b.html".to_string(), true);
    assert!(matches!(tab.status, TabStatus::Loading));
    assert!(tab.can_go_back());
    assert_eq!(tab.go_back(), Some("file:///a.html".to_string()));
    assert_eq!(tab.url, "file:///a.html");
    assert!(tab.can_go_forward());
    assert_eq!(tab.go_forward(), Some("file:///b.html".to_string()));
    assert_eq!(tab.url, "file:///b.html");
    assert_eq!(tab.go_forward(), None);
    tab.finish_load(Err("boom".to_string()));
    assert!(matches!(tab.status, TabStatus::Error(ref e) if e == "boom"));
    assert_eq!(tab.reload(), Some("file:///b.html".to_string()));
}

#[test]
fn tab_manager_limits() {
    let mut m = TabManager::new();
    assert_eq!(m.tab_count(), 1);
    for _ in 0..4 {
        assert!(m.add_tab());
    }
    assert_eq!(m.tab_count(), 5);
    assert!(!m.add_tab());
    assert_eq!(m.active_index(), 4);
    assert!(m.close_tab(4));
    assert_eq!(m.active_index(), 3);
    m.set_active_tab(0);
    assert_eq!(m.active_index(), 0);
    m.load_url_in_active_tab("file:///x.html".to_string());
    m.finish_load_in_active_tab(Ok(()));
    assert_eq!(m.get_active_tab().unwrap().url, "file:///x.html");
    assert_eq!(m.eval_target(), Ok(0));
    while m.tab_count() > 1 {
        assert!(m.close_tab(0));
    }
    assert!(!m.close_tab(0));
}

#[test]
fn address_bar_urls() {
    let mut bar = AddressBar::new();
    assert_eq!(bar.requested_url(), None);
    bar.set_url_from_path("tests/a.html");
    assert_eq!(bar.url_input, "file://tests/a.html");
    bar.set_url_from_path("file:///x.html");
    assert_eq!(bar.url_input, "file:///x.html");
    assert_eq!(bar.requested_url(), Some("file:///x.html".to_string()));
    bar.toggle_devtools();
    assert!(bar.devtools_open);
    bar.toggle_devtools();
    assert!(!bar.devtools_open);
    bar.set_html_files(vec!["tests/c.html".into(), "tests/a.html".into(), "tests/b.html".into()]);
    assert_eq!(bar.html_files, vec!["tests/a.html", "tests/b.html", "tests/c.html"]);
    assert_eq!(bar.select_html_file(1), Some("file://tests/b.html".to_string()));
    assert_eq!(bar.selected_html_index, Some(1));
    assert_eq!(bar.select_html_file(7), None);
    assert_eq!(sort_texts(vec!["b".into(), "a".into(), "b".into(), "Z".into()]), vec!["Z", "a", "b", "b"]);
}

#[test]
fn devtools_console_history() {
    let mut d = DevTools::new();
    assert_eq!(d.console_logs().len(), 1);
    assert_eq!(d.console_logs()[0].formatted_text(), "\u{2248} Console initialized");
    assert_eq!(d.execute_console_command("   "), None);
    assert_eq!(d.execute_console_command(" 1 + 1 "), Some("1 + 1".to_string()));
    d.record_command_result(Ok("2".to_string()));
    assert_eq!(d.execute_console_command("foo()"), Some("foo()".to_string()));
    d.record_command_result(Err("foo is not defined".to_string()));
    let texts: Vec<String> = d.console_logs().iter().map(|e| e.formatted_text()).collect();
    assert_eq!(texts[1], "> 1 + 1");
    assert_eq!(texts[2], "< 2");
    assert_eq!(texts[4], "! Error: foo is not defined");
    d.recall_previous_command();
    assert_eq!(d.console_input(), "foo()");
    d.recall_previous_command();
    assert_eq!(d.console_input(), "1 + 1");
    d.recall_previous_command();
    assert_eq!(d.console_input(), "1 + 1");
    d.recall_next_command();
    assert_eq!(d.console_input(), "foo()");
    d.recall_next_command();
    assert_eq!(d.console_input(), "");
    assert_eq!(d.console_history_index(), None);
    d.record_engine_unavailable();
    d.clear_console();
    assert_eq!(d.console_logs().len(), 1);
    assert!(matches!(&d.console_logs()[0], ConsoleEntry::Info(m) if m == "Console cleared"));
}

#[test]
fn devtools_history_is_bounded() {
    let mut d = DevTools::new();
    for i in 0..205 {
        d.execute_console_command(&format!("x{}", i));
    }
    assert_eq!(d.console_history().len(), 200);
    assert_eq!(d.console_history()[0], "x5");
}

#[test]
fn devtools_tabs() {
    let names: Vec<&str> = DevToolsTab::all().iter().map(|t| t.name()).collect();
    assert_eq!(names, vec!["Elements", "Console", "Network", "Performance"]);
    let mut d = DevTools::new();
    d.set_active_tab(DevToolsTab::Network);
    assert_eq!(d.active_tab(), DevToolsTab::Network);
    assert!(!d.show_debug_overlays());
    d.set_show_debug_overlays(true);
    assert!(d.show_debug_overlays());
}

#[test]
fn devtools_inspector() {
    let mut doc = Document::new();
    doc.parse_html(r#"<html><body><p id="p1" class="c" data-x="1">Hello world</p></body></html>"#);
    let mut d = DevTools::new();
    d.toggle_selection(12345);
    assert_eq!(d.selected_node_id(), Some(12345));
    d.update_from_document(&doc, "Layout not computed".to_string(), vec![NetworkLogEntry {
        url: "u".into(),
        status: "OK".into(),
        source: "HTML".into(),
    }]);
    assert_eq!(d.selected_node_id(), None);
    assert!(d.cached_dom_stats().starts_with("DOM nodes: "));
    assert!(d.cached_dom_stats().ends_with(", Parser: scraper"));
    assert!(d.cached_html().contains("Hello world"));
    assert_eq!(d.cached_layout_stats(), "Layout not computed");
    assert_eq!(d.cached_network_logs().len(), 1);
    let tree = d.cached_dom_tree().unwrap();
    assert!(tree.label.contains("<html>"));
    let p = doc.get_element_by_id("p1").unwrap();
    d.toggle_selection(p);
    let (id, summary) = d.selected_node_summary().unwrap();
    assert_eq!(id, p);
    assert_eq!(summary.tag_name, Some("p".to_string()));
    assert_eq!(
        summary.attributes,
        vec![
            ("class".to_string(), "c".to_string()),
            ("data-x".to_string(), "1".to_string()),
            ("id".to_string(), "p1".to_string()),
        ]
    );
    d.toggle_selection(p);
    assert_eq!(d.selected_node_id(), None);
}

#[test]
fn node_labels_and_summaries() {
    let mut doc = Document::new();
    let e = doc.create_element("div").unwrap();
    for (k, v) in [("g", "7"), ("b", "2"), ("a", "1"), ("f", "6"), ("d", "4"), ("c", "3")] {
        doc.set_attribute(e, k, v).unwrap();
    }
    let node = doc.get_node(e).unwrap();
    let sorted = collect_sorted_attributes(node);
    let keys: Vec<&str> = sorted.iter().map(|p| p.0.as_str()).collect();
    assert_eq!(keys, vec!["a", "b", "c", "d", "f", "g"]);
    let label = format_node_label(node);
    assert_eq!(label, format!("[{}] <div> a=\"1\" b=\"2\" c=\"3\" d=\"4\" f=\"6\" ...", e));
    let mut page = Document::new();
    page.parse_html("<html><body><p id=\"t\">   a fairly long text that goes on and on and on   </p></body></html>");
    let t = page.get_element_by_id("t").unwrap();
    let text_id = page.get_node(t).unwrap().children[0];
    let text_node = page.get_node(text_id).unwrap();
    assert_eq!(
        format_node_label(text_node),
        format!("[{}] #text \"a fairly long text that goes o...\"", text_id)
    );
    let s = build_node_summary(text_node);
    assert_eq!(s.tag_name, None);
    assert_eq!(s.text_preview, Some("a fairly long text that goes on and on and on".to_string()));
    let mut snapshots = HashMap::new();
    let tree = DevTools::build_dom_node(&page, t, &mut snapshots).unwrap();
    assert_eq!(tree.children.len(), 1);
    assert!(snapshots.contains_key(&t) && snapshots.contains_key(&text_id));
    assert!(DevTools::build_dom_node(&page, 4242, &mut snapshots).is_none());
}
