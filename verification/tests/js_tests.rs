use zver::js::events::{EventRegistry, EventTarget, EventType};
use zver::js::timers::{timer_code, TimerQueue};

#[test]
fn event_type_names() {
    assert_eq!(EventType::parse("click"), EventType::Click);
    assert_eq!(EventType::parse("keydown"), EventType::KeyDown);
    assert_eq!(EventType::parse("my-event"), EventType::Custom("my-event".to_string()));
    assert_eq!(EventType::MouseOver.as_str(), "mouseover");
    assert_eq!(EventType::Custom("x".to_string()).as_str(), "x");
}

#[test]
fn listeners_once_and_removal() {
    let mut t = EventTarget::new();
    t.add_listener(EventType::Click, "a()".to_string(), false);
    t.add_listener(EventType::Click, "b()".to_string(), true);
    assert_eq!(t.get_listeners(&EventType::Click).unwrap().len(), 2);
    t.remove_once_listeners(&EventType::Click);
    let left = t.get_listeners(&EventType::Click).unwrap();
    assert_eq!(left.len(), 1);
    assert_eq!(left[0].callback_code, "a()");
    t.remove_listener(&EventType::Click, "a()");
    assert!(t.get_listeners(&EventType::Click).map(|v| v.is_empty()).unwrap_or(true));
}

#[test]
fn registry_per_node() {
    let mut r = EventRegistry::new();
    r.add_listener(1, EventType::Load, "init()".to_string(), false);
    r.add_listener(2, EventType::Load, "other()".to_string(), true);
    assert_eq!(r.get_listeners(1, &EventType::Load).len(), 1);
    assert_eq!(r.get_listeners(3, &EventType::Load).len(), 0);
    r.remove_once_listeners(2, &EventType::Load);
    assert_eq!(r.get_listeners(2, &EventType::Load).len(), 0);
    r.clear_node(1);
    assert_eq!(r.get_listeners(1, &EventType::Load).len(), 0);
    r.add_listener(4, EventType::Click, "x".to_string(), false);
    r.remove_listener(4, &EventType::Click, "x");
    assert_eq!(r.get_listeners(4, &EventType::Click).len(), 0);
}

#[test]
fn timer_callbacks_fire_in_order() {
    let mut q = TimerQueue::new();
    let a = q.schedule("first()".to_string(), 1000, 50);
    let b = q.schedule("function() { x = 1; }".to_string(), 1000, 10);
    let c = q.schedule("() => y".to_string(), 1000, 500);
    assert_eq!((a, b, c), (1, 2, 3));
    assert!(q.take_due(1005).is_empty());
    let due = q.take_due(1050);
    assert_eq!(due, vec![(1, "first()".to_string()), (2, "(function() { x = 1; })()".to_string())]);
    q.cancel(c);
    assert!(q.take_due(5000).is_empty());
}

#[test]
fn timer_code_wrapping() {
    assert_eq!(timer_code("a = 1"), "a = 1");
    assert_eq!(timer_code("x => x"), "(x => x)()");
    assert_eq!(timer_code("function f(){}"), "(function f(){})()");
    assert_eq!(timer_code("="), "=");
}
