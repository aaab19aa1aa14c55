//! DOM event types and the listeners registered for them.

use vstd::prelude::*;
use std::collections::HashMap;
use crate::strmap::StrMap;
use crate::text::{chars_are, chars_of, push_str, string_from_chars};

verus! {

broadcast use vstd::std_specs::hash::group_hash_axioms;

/// DOM event types.
#[derive(Debug, Clone, Eq, Hash)]
pub enum EventType {
    Click,
    Input,
    Change,
    KeyDown,
    KeyUp,
    MouseOver,
    MouseOut,
    Focus,
    Blur,
    Submit,
    Load,
    Custom(String),
}

/// The mathematical identity of an event type.
pub enum EventKey {
    Click,
    Input,
    Change,
    KeyDown,
    KeyUp,
    MouseOver,
    MouseOut,
    Focus,
    Blur,
    Submit,
    Load,
    Custom(Seq<char>),
}

/// The identity of an event type: two event types are equal exactly when
/// their keys are.
pub open spec fn event_key(e: EventType) -> EventKey {
    match e {
        EventType::Click => EventKey::Click,
        EventType::Input => EventKey::Input,
        EventType::Change => EventKey::Change,
        EventType::KeyDown => EventKey::KeyDown,
        EventType::KeyUp => EventKey::KeyUp,
        EventType::MouseOver => EventKey::MouseOver,
        EventType::MouseOut => EventKey::MouseOut,
        EventType::Focus => EventKey::Focus,
        EventType::Blur => EventKey::Blur,
        EventType::Submit => EventKey::Submit,
        EventType::Load => EventKey::Load,
        EventType::Custom(s) => EventKey::Custom(s@),
    }
}

impl PartialEq for EventType {
    fn eq(&self, other: &EventType) -> (r: bool) {
        match (self, other) {
            (EventType::Click, EventType::Click) => true,
            (EventType::Input, EventType::Input) => true,
            (EventType::Change, EventType::Change) => true,
            (EventType::KeyDown, EventType::KeyDown) => true,
            (EventType::KeyUp, EventType::KeyUp) => true,
            (EventType::MouseOver, EventType::MouseOver) => true,
            (EventType::MouseOut, EventType::MouseOut) => true,
            (EventType::Focus, EventType::Focus) => true,
            (EventType::Blur, EventType::Blur) => true,
            (EventType::Submit, EventType::Submit) => true,
            (EventType::Load, EventType::Load) => true,
            (EventType::Custom(a), EventType::Custom(b)) => *a == *b,
            _ => false,
        }
    }
}

impl vstd::std_specs::cmp::PartialEqSpecImpl for EventType {
    open spec fn obeys_eq_spec() -> bool {
        true
    }

    open spec fn eq_spec(&self, other: &EventType) -> bool {
        event_key(*self) == event_key(*other)
    }
}

/// The event type named `s`: the standard names map to their variants,
/// anything else is a custom event.
pub open spec fn event_named(s: Seq<char>) -> EventKey {
    if s == "click"@ {
        EventKey::Click
    } else if s == "input"@ {
        EventKey::Input
    } else if s == "change"@ {
        EventKey::Change
    } else if s == "keydown"@ {
        EventKey::KeyDown
    } else if s == "keyup"@ {
        EventKey::KeyUp
    } else if s == "mouseover"@ {
        EventKey::MouseOver
    } else if s == "mouseout"@ {
        EventKey::MouseOut
    } else if s == "focus"@ {
        EventKey::Focus
    } else if s == "blur"@ {
        EventKey::Blur
    } else if s == "submit"@ {
        EventKey::Submit
    } else if s == "load"@ {
        EventKey::Load
    } else {
        EventKey::Custom(s)
    }
}

/// The name of an event type.
pub open spec fn event_name(e: EventKey) -> Seq<char> {
    match e {
        EventKey::Click => "click"@,
        EventKey::Input => "input"@,
        EventKey::Change => "change"@,
        EventKey::KeyDown => "keydown"@,
        EventKey::KeyUp => "keyup"@,
        EventKey::MouseOver => "mouseover"@,
        EventKey::MouseOut => "mouseout"@,
        EventKey::Focus => "focus"@,
        EventKey::Blur => "blur"@,
        EventKey::Submit => "submit"@,
        EventKey::Load => "load"@,
        EventKey::Custom(s) => s,
    }
}

impl EventType {
    /// The event type with the given name.
    pub fn parse(s: &str) -> (r: EventType)
        ensures
            event_key(r) == event_named(s@),
    {
        let c = chars_of(s);
        if chars_are(c.as_slice(), "click") {
            EventType::Click
        } else if chars_are(c.as_slice(), "input") {
            EventType::Input
        } else if chars_are(c.as_slice(), "change") {
            EventType::Change
        } else if chars_are(c.as_slice(), "keydown") {
            EventType::KeyDown
        } else if chars_are(c.as_slice(), "keyup") {
            EventType::KeyUp
        } else if chars_are(c.as_slice(), "mouseover") {
            EventType::MouseOver
        } else if chars_are(c.as_slice(), "mouseout") {
            EventType::MouseOut
        } else if chars_are(c.as_slice(), "focus") {
            EventType::Focus
        } else if chars_are(c.as_slice(), "blur") {
            EventType::Blur
        } else if chars_are(c.as_slice(), "submit") {
            EventType::Submit
        } else if chars_are(c.as_slice(), "load") {
            EventType::Load
        } else {
            EventType::Custom(s.to_owned())
        }
    }

    /// The name of this event type.
    pub fn as_str(&self) -> (r: &str)
        ensures
            r@ == event_name(event_key(*self)),
    {
        match self {
            EventType::Click => "click",
            EventType::Input => "input",
            EventType::Change => "change",
            EventType::KeyDown => "keydown",
            EventType::KeyUp => "keyup",
            EventType::MouseOver => "mouseover",
            EventType::MouseOut => "mouseout",
            EventType::Focus => "focus",
            EventType::Blur => "blur",
            EventType::Submit => "submit",
            EventType::Load => "load",
            EventType::Custom(s) => s.as_str(),
        }
    }

    /// A copy of this event type.
    pub fn duplicate(&self) -> (r: EventType)
        ensures
            event_key(r) == event_key(*self),
    {
        match self {
            EventType::Click => EventType::Click,
            EventType::Input => EventType::Input,
            EventType::Change => EventType::Change,
            EventType::KeyDown => EventType::KeyDown,
            EventType::KeyUp => EventType::KeyUp,
            EventType::MouseOver => EventType::MouseOver,
            EventType::MouseOut => EventType::MouseOut,
            EventType::Focus => EventType::Focus,
            EventType::Blur => EventType::Blur,
            EventType::Submit => EventType::Submit,
            EventType::Load => EventType::Load,
            EventType::Custom(s) => EventType::Custom(s.clone()),
        }
    }
}

/// The standard event names.
pub open spec fn is_standard_name(s: Seq<char>) -> bool {
    !(event_named(s) is Custom)
}

/// The name of the event type parsed from a string is that string.
pub proof fn lemma_name_of_parsed(s: Seq<char>)
    ensures
        event_name(event_named(s)) == s,
{
}

/// Parsing the name of an event type gives back that event type, except for
/// custom events named like a standard event.
pub proof fn lemma_parse_name_roundtrip(e: EventKey)
    requires
        e matches EventKey::Custom(s) ==> !is_standard_name(s),
    ensures
        event_named(event_name(e)) == e,
{
    reveal_strlit("click");
    reveal_strlit("input");
    reveal_strlit("change");
    reveal_strlit("keydown");
    reveal_strlit("keyup");
    reveal_strlit("mouseover");
    reveal_strlit("mouseout");
    reveal_strlit("focus");
    reveal_strlit("blur");
    reveal_strlit("submit");
    reveal_strlit("load");
    assert("click"@.len() == 5 && "click"@[0] == 'c' && "click"@[4] == 'k');
    assert("input"@.len() == 5 && "input"@[0] == 'i' && "input"@[4] == 't');
    assert("change"@.len() == 6 && "change"@[0] == 'c' && "change"@[5] == 'e');
    assert("keydown"@.len() == 7 && "keydown"@[0] == 'k' && "keydown"@[6] == 'n');
    assert("keyup"@.len() == 5 && "keyup"@[0] == 'k' && "keyup"@[4] == 'p');
    assert("mouseover"@.len() == 9 && "mouseover"@[0] == 'm' && "mouseover"@[8] == 'r');
    assert("mouseout"@.len() == 8 && "mouseout"@[0] == 'm' && "mouseout"@[7] == 't');
    assert("focus"@.len() == 5 && "focus"@[0] == 'f' && "focus"@[4] == 's');
    assert("blur"@.len() == 4 && "blur"@[0] == 'b' && "blur"@[3] == 'r');
    assert("submit"@.len() == 6 && "submit"@[0] == 's' && "submit"@[5] == 't');
    assert("load"@.len() == 4 && "load"@[0] == 'l' && "load"@[3] == 'd');
}

/// The storage key of an event type: `S` and the name for a standard
/// event, `C` and the name for a custom one.
pub open spec fn event_code(k: EventKey) -> Seq<char> {
    match k {
        EventKey::Custom(s) => seq!['C'] + s,
        _ => seq!['S'] + event_name(k),
    }
}

/// Distinct event types have distinct storage keys.
pub proof fn lemma_event_code_injective(a: EventKey, b: EventKey)
    ensures
        event_code(a) == event_code(b) ==> a == b,
{
    if event_code(a) == event_code(b) {
        assert(event_code(a)[0] == event_code(b)[0]);
        match (a, b) {
            (EventKey::Custom(x), EventKey::Custom(y)) => {
                assert(x =~= event_code(a).drop_first());
                assert(y =~= event_code(b).drop_first());
            },
            (EventKey::Custom(x), _) => {},
            (_, EventKey::Custom(y)) => {},
            _ => {
                assert(event_name(a) =~= event_code(a).drop_first());
                assert(event_name(b) =~= event_code(b).drop_first());
                lemma_parse_name_roundtrip(a);
                lemma_parse_name_roundtrip(b);
            },
        }
    }
}

impl EventType {
    /// The storage key of this event type.
    pub fn code(&self) -> (r: String)
        ensures
            r@ == event_code(event_key(*self)),
    {
        let mut v: Vec<char> = Vec::new();
        match self {
            EventType::Custom(s) => {
                v.push('C');
                push_str(&mut v, s.as_str());
            },
            _ => {
                v.push('S');
                push_str(&mut v, self.as_str());
            },
        }
        let r = string_from_chars(v.as_slice());
        assert(r@ =~= event_code(event_key(*self)));
        r
    }
}

/// A registered event listener: the callback's source code and whether it
/// fires only once.
#[derive(Debug)]
pub struct EventListener {
    pub callback_code: String,
    pub once: bool,
}

/// What a listener is, as a value.
pub open spec fn listener_view(l: EventListener) -> (Seq<char>, bool) {
    (l.callback_code@, l.once)
}

/// What a list of listeners is, as a value.
pub open spec fn listeners_view(s: Seq<EventListener>) -> Seq<(Seq<char>, bool)> {
    s.map_values(|l: EventListener| listener_view(l))
}

impl EventListener {
    /// A copy of this listener.
    pub fn duplicate(&self) -> (r: Self)
        ensures
            listener_view(r) == listener_view(*self),
    {
        EventListener { callback_code: self.callback_code.clone(), once: self.once }
    }
}

impl Clone for EventListener {
    fn clone(&self) -> (r: Self) {
        self.duplicate()
    }
}

/// The listeners of `s` whose callback is not `code`.
pub open spec fn without_code(s: Seq<(Seq<char>, bool)>, code: Seq<char>) -> Seq<(Seq<char>, bool)> {
    s.filter(|l: (Seq<char>, bool)| l.0 != code)
}

/// The listeners of `s` that are not one-shot.
pub open spec fn without_once(s: Seq<(Seq<char>, bool)>) -> Seq<(Seq<char>, bool)> {
    s.filter(|l: (Seq<char>, bool)| !l.1)
}

fn copy_listeners(v: &Vec<EventListener>) -> (r: Vec<EventListener>)
    ensures
        listeners_view(r@) == listeners_view(v@),
{
    let mut r: Vec<EventListener> = Vec::new();
    let mut i: usize = 0;
    while i < v.len()
        invariant
            i <= v@.len(),
            listeners_view(r@) == listeners_view(v@.take(i as int)),
        decreases v@.len() - i,
    {
        let ghost before = r@;
        let d = v[i].duplicate();
        r.push(d);
        proof {
            assert(listeners_view(before).len() == before.len());
            assert(before.len() == i);
            assert(r@[i as int] == d);
            assert forall|j: int| 0 <= j < i + 1 implies listeners_view(r@)[j] == listeners_view(
                v@.take(i + 1),
            )[j] by {
                if j < i {
                    assert(listeners_view(before)[j] == listeners_view(v@.take(i as int))[j]);
                    assert(r@[j] == before[j]);
                    assert(v@.take(i as int)[j] == v@.take(i + 1)[j]);
                }
            }
        }
        i = i + 1;
        assert(listeners_view(r@) =~= listeners_view(v@.take(i as int)));
    }
    assert(v@.take(v@.len() as int) =~= v@);
    r
}

fn retain_listeners(v: &Vec<EventListener>, code: &str, drop_once: bool) -> (r: Vec<EventListener>)
    ensures
        listeners_view(r@) == (if drop_once {
            without_once(listeners_view(v@))
        } else {
            without_code(listeners_view(v@), code@)
        }),
{
    let ghost pred = if drop_once {
        |l: (Seq<char>, bool)| !l.1
    } else {
        |l: (Seq<char>, bool)| l.0 != code@
    };
    let ghost lv = listeners_view(v@);
    let c = code.to_owned();
    let mut r: Vec<EventListener> = Vec::new();
    let mut i: usize = 0;
    while i < v.len()
        invariant
            i <= v@.len(),
            lv == listeners_view(v@),
            c@ == code@,
            pred == (if drop_once {
                |l: (Seq<char>, bool)| !l.1
            } else {
                |l: (Seq<char>, bool)| l.0 != code@
            }),
            listeners_view(r@) == lv.take(i as int).filter(pred),
        decreases v@.len() - i,
    {
        proof {
            assert(lv.take(i + 1).drop_last() =~= lv.take(i as int));
            reveal_with_fuel(Seq::filter, 1);
        }
        let keep = if drop_once {
            !v[i].once
        } else {
            v[i].callback_code != c
        };
        if keep {
            r.push(v[i].duplicate());
            assert(listeners_view(r@) =~= listeners_view(r@).drop_last().push(lv[i as int]));
        }
        i = i + 1;
    }
    proof {
        assert(lv.take(v@.len() as int) =~= lv);
    }
    r
}

/// A DOM node's listeners, per event type.
#[derive(Debug)]
pub struct EventTarget {
    listeners: StrMap<Vec<EventListener>>,
}

impl EventTarget {
    /// The listeners registered for event type `k`, or `None` when nothing
    /// was ever registered for it.
    pub closed spec fn listeners_for(self, k: EventKey) -> Option<Seq<(Seq<char>, bool)>> {
        if self.listeners@.contains_key(event_code(k)) {
            Some(listeners_view(self.listeners@[event_code(k)]@))
        } else {
            None
        }
    }

    /// The listener table is well formed.
    pub closed spec fn wf(self) -> bool {
        self.listeners.wf()
    }

    /// A target without listeners.
    pub fn new() -> (r: Self)
        ensures
            r.wf(),
            forall|k: EventKey| r.listeners_for(k).is_none(),
    {
        EventTarget { listeners: StrMap::new() }
    }

    /// Registers a listener for `event_type`, after those already there.
    pub fn add_listener(&mut self, event_type: EventType, callback_code: String, once: bool)
        requires
            old(self).wf(),
        ensures
            final(self).wf(),
            final(self).listeners_for(event_key(event_type)) == Some(
                match old(self).listeners_for(event_key(event_type)) {
                    Some(s) => s,
                    None => Seq::empty(),
                }.push((callback_code@, once)),
            ),
            forall|k: EventKey| k != event_key(event_type) ==> #[trigger] final(self).listeners_for(k) == old(
                self,
            ).listeners_for(k),
    {
        let key = event_type.code();
        let ghost l = (callback_code@, once);
        let listener = EventListener { callback_code, once };
        let mut list = match self.listeners.remove(key.as_str()) {
            Some(v) => v,
            None => Vec::new(),
        };
        list.push(listener);
        self.listeners.insert(key, list);
        proof {
            assert forall|k: EventKey| k != event_key(event_type) implies #[trigger] self.listeners_for(k)
                == old(self).listeners_for(k) by {
                lemma_event_code_injective(k, event_key(event_type));
            }
            assert(listeners_view(self.listeners@[event_code(event_key(event_type))]@) =~= match old(
                self,
            ).listeners_for(event_key(event_type)) {
                Some(s) => s,
                None => Seq::empty(),
            }.push(l));
        }
    }

    fn retain(&mut self, event_type: &EventType, code: &str, drop_once: bool)
        requires
            old(self).wf(),
        ensures
            final(self).wf(),
            final(self).listeners_for(event_key(*event_type)) == match old(self).listeners_for(
                event_key(*event_type),
            ) {
                Some(s) => Some(
                    if drop_once {
                        without_once(s)
                    } else {
                        without_code(s, code@)
                    },
                ),
                None => None,
            },
            forall|k: EventKey| k != event_key(*event_type) ==> #[trigger] final(self).listeners_for(k) == old(
                self,
            ).listeners_for(k),
    {
        let key = event_type.code();
        match self.listeners.remove(key.as_str()) {
            None => {
                proof {
                    assert(self.listeners@ =~= old(self).listeners@);
                }
            },
            Some(v) => {
                let kept = retain_listeners(&v, code, drop_once);
                self.listeners.insert(key, kept);
            },
        }
        proof {
            assert forall|k: EventKey| k != event_key(*event_type) implies #[trigger] self.listeners_for(k)
                == old(self).listeners_for(k) by {
                lemma_event_code_injective(k, event_key(*event_type));
            }
        }
    }

    /// Removes the listeners of `event_type` whose callback is
    /// `callback_code`.
    pub fn remove_listener(&mut self, event_type: &EventType, callback_code: &str)
        requires
            old(self).wf(),
        ensures
            final(self).wf(),
            final(self).listeners_for(event_key(*event_type)) == match old(self).listeners_for(
                event_key(*event_type),
            ) {
                Some(s) => Some(without_code(s, callback_code@)),
                None => None,
            },
            forall|k: EventKey| k != event_key(*event_type) ==> #[trigger] final(self).listeners_for(k) == old(
                self,
            ).listeners_for(k),
    {
        self.retain(event_type, callback_code, false);
    }

    /// Removes the one-shot listeners of `event_type`.
    pub fn remove_once_listeners(&mut self, event_type: &EventType)
        requires
            old(self).wf(),
        ensures
            final(self).wf(),
            final(self).listeners_for(event_key(*event_type)) == match old(self).listeners_for(
                event_key(*event_type),
            ) {
                Some(s) => Some(without_once(s)),
                None => None,
            },
            forall|k: EventKey| k != event_key(*event_type) ==> #[trigger] final(self).listeners_for(k) == old(
                self,
            ).listeners_for(k),
    {
        self.retain(event_type, "", true);
    }

    /// The listeners registered for `event_type`.
    pub fn get_listeners(&self, event_type: &EventType) -> (r: Option<&Vec<EventListener>>)
        requires
            self.wf(),
        ensures
            match r {
                Some(v) => self.listeners_for(event_key(*event_type)) == Some(listeners_view(v@)),
                None => self.listeners_for(event_key(*event_type)).is_none(),
            },
    {
        let key = event_type.code();
        self.listeners.get_str(key.as_str())
    }
}

/// The listeners of all DOM nodes, by node id.
#[derive(Debug)]
pub struct EventRegistry {
    targets: HashMap<usize, EventTarget>,
}

impl EventRegistry {
    /// The listeners registered on node `node` for event type `k` (empty
    /// when none).
    pub closed spec fn listeners_of(self, node: usize, k: EventKey) -> Seq<(Seq<char>, bool)> {
        if self.targets@.contains_key(node) {
            match self.targets@[node].listeners_for(k) {
                Some(s) => s,
                None => Seq::empty(),
            }
        } else {
            Seq::empty()
        }
    }

    /// Every target's table is well formed.
    pub closed spec fn wf(self) -> bool {
        forall|n: usize| #[trigger] self.targets@.contains_key(n) ==> self.targets@[n].wf()
    }

    /// An empty registry.
    pub fn new() -> (r: Self)
        ensures
            r.wf(),
            forall|n: usize, k: EventKey| r.listeners_of(n, k) == Seq::<(Seq<char>, bool)>::empty(),
    {
        EventRegistry { targets: HashMap::new() }
    }

    /// Registers a listener on node `node_id` for `event_type`, after those
    /// already there.
    pub fn add_listener(&mut self, node_id: usize, event_type: EventType, callback_code: String, once: bool)
        requires
            old(self).wf(),
        ensures
            final(self).wf(),
            final(self).listeners_of(node_id, event_key(event_type)) == old(self).listeners_of(
                node_id,
                event_key(event_type),
            ).push((callback_code@, once)),
            forall|n: usize, k: EventKey|
                (n != node_id || k != event_key(event_type)) ==> #[trigger] final(self).listeners_of(n, k)
                    == old(self).listeners_of(n, k),
    {
        let ghost key = event_key(event_type);
        let mut target = match self.targets.remove(&node_id) {
            Some(t) => t,
            None => EventTarget::new(),
        };
        target.add_listener(event_type, callback_code, once);
        self.targets.insert(node_id, target);
    }

    /// Removes the listeners of node `node_id` for `event_type` whose
    /// callback is `callback_code`.
    pub fn remove_listener(&mut self, node_id: usize, event_type: &EventType, callback_code: &str)
        requires
            old(self).wf(),
        ensures
            final(self).wf(),
            final(self).listeners_of(node_id, event_key(*event_type)) == without_code(
                old(self).listeners_of(node_id, event_key(*event_type)),
                callback_code@,
            ),
            forall|n: usize, k: EventKey|
                (n != node_id || k != event_key(*event_type)) ==> #[trigger] final(self).listeners_of(n, k)
                    == old(self).listeners_of(n, k),
    {
        match self.targets.remove(&node_id) {
            Some(mut target) => {
                target.remove_listener(event_type, callback_code);
                self.targets.insert(node_id, target);
            },
            None => {
                proof {
                    assert(self.targets@ =~= old(self).targets@);
                    assert(without_code(Seq::<(Seq<char>, bool)>::empty(), callback_code@) =~= Seq::<(Seq<char>, bool)>::empty());
                }
            },
        }
    }

    /// Removes the one-shot listeners of node `node_id` for `event_type`.
    pub fn remove_once_listeners(&mut self, node_id: usize, event_type: &EventType)
        requires
            old(self).wf(),
        ensures
            final(self).wf(),
            final(self).listeners_of(node_id, event_key(*event_type)) == without_once(
                old(self).listeners_of(node_id, event_key(*event_type)),
            ),
            forall|n: usize, k: EventKey|
                (n != node_id || k != event_key(*event_type)) ==> #[trigger] final(self).listeners_of(n, k)
                    == old(self).listeners_of(n, k),
    {
        match self.targets.remove(&node_id) {
            Some(mut target) => {
                target.remove_once_listeners(event_type);
                self.targets.insert(node_id, target);
            },
            None => {
                proof {
                    assert(self.targets@ =~= old(self).targets@);
                    assert(without_once(Seq::<(Seq<char>, bool)>::empty()) =~= Seq::<(Seq<char>, bool)>::empty());
                }
            },
        }
    }

    /// A copy of the listeners of node `node_id` for `event_type`.
    pub fn get_listeners(&self, node_id: usize, event_type: &EventType) -> (r: Vec<EventListener>)
        requires
            self.wf(),
        ensures
            listeners_view(r@) == self.listeners_of(node_id, event_key(*event_type)),
    {
        match self.targets.get(&node_id) {
            Some(target) => match target.get_listeners(event_type) {
                Some(v) => copy_listeners(v),
                None => {
                    let r: Vec<EventListener> = Vec::new();
                    assert(listeners_view(r@) =~= Seq::<(Seq<char>, bool)>::empty());
                    r
                },
            },
            None => {
                let r: Vec<EventListener> = Vec::new();
                assert(listeners_view(r@) =~= Seq::<(Seq<char>, bool)>::empty());
                r
            },
        }
    }

    /// Drops every listener of node `node_id`.
    pub fn clear_node(&mut self, node_id: usize)
        requires
            old(self).wf(),
        ensures
            final(self).wf(),
            forall|k: EventKey| #[trigger] final(self).listeners_of(node_id, k) == Seq::<(Seq<char>, bool)>::empty(),
            forall|n: usize, k: EventKey| n != node_id ==> #[trigger] final(self).listeners_of(n, k) == old(
                self,
            ).listeners_of(n, k),
    {
        self.targets.remove(&node_id);
    }
}

/// After removing the listeners with a given callback, none with that
/// callback remains and the others keep their order.
pub proof fn lemma_removed_callback_gone(s: Seq<(Seq<char>, bool)>, code: Seq<char>)
    ensures
        forall|i: int| 0 <= i < without_code(s, code).len() ==> without_code(s, code)[i].0 != code,
        without_code(s, code).len() <= s.len(),
{
    s.filter_lemma(|l: (Seq<char>, bool)| l.0 != code);
}

/// After removing one-shot listeners, every remaining listener is
/// persistent.
pub proof fn lemma_once_removed(s: Seq<(Seq<char>, bool)>)
    ensures
        forall|i: int| 0 <= i < without_once(s).len() ==> !without_once(s)[i].1,
        forall|i: int| 0 <= i < s.len() && !s[i].1 ==> without_once(s).contains(s[i]),
{
    s.filter_lemma(|l: (Seq<char>, bool)| !l.1);
}

} // verus!
