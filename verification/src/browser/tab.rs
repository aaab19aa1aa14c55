//! Tabs, their navigation history, and the tab strip.

use vstd::prelude::*;
use vstd::string::StringSliceAdditionalSpecFns;
use crate::text::{
    lemma_encode_concat,
    chars_of, concat_chars, dec, decimal, has_prefix, push_chars, push_str, slice_chars,
    starts_with_str, string_from_chars,
};

verus! {

/// Loading status of a tab.
#[derive(Debug, Clone)]
pub enum TabStatus {
    /// Waiting for the user.
    Idle,
    /// Content is being loaded.
    Loading,
    /// Content was loaded.
    Loaded,
    /// Loading failed with the given message.
    Error(String),
}

/// The value of a tab status.
pub enum StatusView {
    Idle,
    Loading,
    Loaded,
    Error(Seq<char>),
}

/// What a tab status is, as a value.
pub open spec fn status_view(s: TabStatus) -> StatusView {
    match s {
        TabStatus::Idle => StatusView::Idle,
        TabStatus::Loading => StatusView::Loading,
        TabStatus::Loaded => StatusView::Loaded,
        TabStatus::Error(m) => StatusView::Error(m@),
    }
}

impl PartialEq for TabStatus {
    fn eq(&self, other: &TabStatus) -> (r: bool) {
        match (self, other) {
            (TabStatus::Idle, TabStatus::Idle) => true,
            (TabStatus::Loading, TabStatus::Loading) => true,
            (TabStatus::Loaded, TabStatus::Loaded) => true,
            (TabStatus::Error(a), TabStatus::Error(b)) => *a == *b,
            _ => false,
        }
    }
}

impl vstd::std_specs::cmp::PartialEqSpecImpl for TabStatus {
    open spec fn obeys_eq_spec() -> bool {
        true
    }

    open spec fn eq_spec(&self, other: &TabStatus) -> bool {
        status_view(*self) == status_view(*other)
    }
}

/// The last segment of `s` after its last `/` or `\\`.
pub open spec fn last_segment(s: Seq<char>) -> Seq<char>
    decreases s.len(),
{
    if s.len() == 0 {
        s
    } else if s.last() == '/' || s.last() == '\\' {
        Seq::empty()
    } else {
        last_segment(s.drop_last()).push(s.last())
    }
}

/// The first segment of `s` before its first `/`.
pub open spec fn first_segment(s: Seq<char>) -> Seq<char>
    decreases s.len(),
{
    if s.len() == 0 {
        s
    } else if s[0] == '/' {
        Seq::empty()
    } else {
        seq![s[0]] + first_segment(s.drop_first())
    }
}

/// The title shown for a URL, when the URL is short or starts with a known
/// scheme (longer URLs are shortened by bytes, see [`Tab::extract_title_from_url`]).
pub open spec fn title_for(url: Seq<char>) -> Seq<char> {
    if url.len() == 0 {
        "New Tab"@
    } else if has_prefix(url, "file://"@) {
        last_segment(url.skip(7))
    } else if has_prefix(url, "http://"@) {
        first_segment(url.skip(7))
    } else if has_prefix(url, "https://"@) {
        first_segment(url.skip(8))
    } else {
        url
    }
}

fn last_segment_of(s: &[char]) -> (r: Vec<char>)
    ensures
        r@ == last_segment(s@),
{
    let mut start: usize = s.len();
    assert(s@.take(s@.len() as int) =~= s@);
    assert(s@.skip(s@.len() as int) =~= Seq::<char>::empty());
    while start > 0 && s[start - 1] != '/' && s[start - 1] != '\\'
        invariant
            start <= s@.len(),
            last_segment(s@) == last_segment(s@.take(start as int)) + s@.skip(start as int),
        decreases start,
    {
        proof {
            assert(s@.take(start as int).drop_last() =~= s@.take(start - 1));
            assert(s@.skip(start - 1) =~= seq![s@[start - 1]] + s@.skip(start as int));
            assert(last_segment(s@.take(start - 1)).push(s@[start - 1]) + s@.skip(start as int)
                =~= last_segment(s@.take(start - 1)) + s@.skip(start - 1));
        }
        start = start - 1;
    }
    proof {
        assert(s@.take(s@.len() as int) =~= s@);
        assert(s@.skip(s@.len() as int) =~= Seq::<char>::empty());
        assert(last_segment(s@.take(start as int)) =~= Seq::<char>::empty());
    }
    let r = slice_chars(s, start, s.len());
    assert(r@ =~= s@.skip(start as int));
    r
}

fn first_segment_of(s: &[char]) -> (r: Vec<char>)
    ensures
        r@ == first_segment(s@),
{
    let mut end: usize = 0;
    assert(s@.skip(0) =~= s@);
    assert(s@.take(0) =~= Seq::<char>::empty());
    while end < s.len() && s[end] != '/'
        invariant
            end <= s@.len(),
            first_segment(s@) == s@.take(end as int) + first_segment(s@.skip(end as int)),
        decreases s@.len() - end,
    {
        proof {
            assert(s@.skip(end as int).drop_first() =~= s@.skip(end + 1));
            assert(s@.take(end + 1) =~= s@.take(end as int) + seq![s@[end as int]]);
        }
        end = end + 1;
    }
    proof {
        assert(s@.skip(0) =~= s@);
        assert(s@.take(0) =~= Seq::<char>::empty());
        assert(first_segment(s@.skip(end as int)) =~= Seq::<char>::empty());
    }
    let r = slice_chars(s, 0, end);
    assert(r@ =~= s@.take(end as int));
    r
}

/// One browser tab: what it shows, its status and its navigation history.
#[derive(Debug)]
pub struct Tab {
    /// Unique identifier of the tab.
    pub id: usize,
    /// Title shown in the tab strip.
    pub title: String,
    /// The URL currently loaded.
    pub url: String,
    /// Loading status.
    pub status: TabStatus,
    back_stack: Vec<String>,
    forward_stack: Vec<String>,
}

/// The URLs of a history stack.
pub open spec fn urls(s: Seq<String>) -> Seq<Seq<char>> {
    s.map_values(|u: String| u@)
}

impl Tab {
    /// The tab's id.
    pub closed spec fn tab_id(self) -> usize {
        self.id
    }

    /// The tab's title.
    pub closed spec fn title_text(self) -> Seq<char> {
        self.title@
    }

    /// The tab's URL.
    pub closed spec fn url_text(self) -> Seq<char> {
        self.url@
    }

    /// The tab's status.
    pub closed spec fn status_value(self) -> StatusView {
        status_view(self.status)
    }

    /// URLs to go back to, the most recent last.
    pub closed spec fn back(self) -> Seq<Seq<char>> {
        urls(self.back_stack@)
    }

    /// URLs to go forward to, the most recent last.
    pub closed spec fn forward(self) -> Seq<Seq<char>> {
        urls(self.forward_stack@)
    }

    /// A fresh tab titled `New Tab {id}`, with no URL and empty history.
    pub fn new(id: usize) -> (r: Self)
        ensures
            r.tab_id() == id,
            r.title_text() == "New Tab "@ + dec(id as nat),
            r.url_text() == Seq::<char>::empty(),
            r.status_value() == StatusView::Idle,
            r.back() == Seq::<Seq<char>>::empty(),
            r.forward() == Seq::<Seq<char>>::empty(),
    {
        let mut t: Vec<char> = Vec::new();
        push_str(&mut t, "New Tab ");
        let d = decimal(id as u64);
        push_chars(&mut t, d.as_slice());
        let r = Tab {
            id,
            title: string_from_chars(t.as_slice()),
            url: String::new(),
            status: TabStatus::Idle,
            back_stack: Vec::new(),
            forward_stack: Vec::new(),
        };
        assert(r.back() =~= Seq::<Seq<char>>::empty());
        assert(r.forward() =~= Seq::<Seq<char>>::empty());
        r
    }

    /// A display title for a URL: `New Tab` when empty, the file name of a
    /// `file://` URL, the host of an `http(s)://` URL; otherwise the URL,
    /// cut to its first 27 bytes followed by `...` when longer than 30 bytes.
    pub fn extract_title_from_url(url: &str) -> (r: String)
        requires
            vstd::utf8::encode_utf8(url@).len() <= usize::MAX,
            vstd::utf8::encode_utf8(url@).len() > 30 && !has_prefix(url@, "file://"@) && !has_prefix(url@, "http://"@)
                && !has_prefix(url@, "https://"@) ==> vstd::utf8::is_char_boundary(vstd::utf8::encode_utf8(url@), 27),
        ensures
            (url@.len() == 0 || has_prefix(url@, "file://"@) || has_prefix(url@, "http://"@) || has_prefix(
                url@,
                "https://"@,
            ) || vstd::utf8::encode_utf8(url@).len() <= 30) ==> r@ == title_for(url@),
            !(url@.len() == 0 || has_prefix(url@, "file://"@) || has_prefix(url@, "http://"@) || has_prefix(
                url@,
                "https://"@,
            ) || vstd::utf8::encode_utf8(url@).len() <= 30) ==> vstd::utf8::encode_utf8(r@) == vstd::utf8::encode_utf8(url@).take(27)
                + vstd::utf8::encode_utf8("..."@),
    {
        proof {
            reveal_strlit("file://");
            reveal_strlit("http://");
            reveal_strlit("https://");
        }
        let c = chars_of(url);
        if c.len() == 0 {
            return "New Tab".to_owned();
        }
        if starts_with_str(c.as_slice(), "file://") {
            let rest = slice_chars(c.as_slice(), 7, c.len());
            let seg = last_segment_of(rest.as_slice());
            return string_from_chars(seg.as_slice());
        }
        if starts_with_str(c.as_slice(), "http://") {
            let rest = slice_chars(c.as_slice(), 7, c.len());
            let seg = first_segment_of(rest.as_slice());
            return string_from_chars(seg.as_slice());
        }
        if starts_with_str(c.as_slice(), "https://") {
            let rest = slice_chars(c.as_slice(), 8, c.len());
            let seg = first_segment_of(rest.as_slice());
            return string_from_chars(seg.as_slice());
        }
        if url.len() > 30 {
            let (head, _) = url.split_at(27);
            let mut v = chars_of(head);
            push_str(&mut v, "...");
            proof {
                lemma_encode_concat(head@, "..."@);
                assert(v@ =~= head@ + "..."@);
            }
            string_from_chars(v.as_slice())
        } else {
            url.to_owned()
        }
    }

    /// Starts loading `url`: when `track_history` is set and a URL is shown,
    /// that URL is pushed on the back history and the forward history is
    /// cleared.  The tab then shows `url`, is `Loading`, and is titled after
    /// the URL.  The caller performs the load and reports it with
    /// [`Tab::finish_load`].
    pub fn load_url(&mut self, url: String, track_history: bool)
        requires
            vstd::utf8::encode_utf8(url@).len() <= usize::MAX,
            vstd::utf8::encode_utf8(url@).len() > 30 && !has_prefix(url@, "file://"@) && !has_prefix(url@, "http://"@)
                && !has_prefix(url@, "https://"@) ==> vstd::utf8::is_char_boundary(vstd::utf8::encode_utf8(url@), 27),
        ensures
            loaded(*old(self), *final(self), url@, track_history),
    {
        if track_history && !self.url.as_str().is_empty() {
            let current = self.url.clone();
            self.back_stack.push(current);
            self.forward_stack = Vec::new();
        }
        let title = Tab::extract_title_from_url(url.as_str());
        self.title = title;
        self.url = url;
        self.status = TabStatus::Loading;
        proof {
            assert(self.forward() =~= (if track_history && old(self).url@.len() > 0 {
                Seq::<Seq<char>>::empty()
            } else {
                old(self).forward()
            }));
            assert(self.back() =~= (if track_history && old(self).url@.len() > 0 {
                old(self).back().push(old(self).url@)
            } else {
                old(self).back()
            }));
        }
    }

    /// Records the outcome of a load: `Loaded`, or `Error` with the message.
    pub fn finish_load(&mut self, result: Result<(), String>)
        ensures
            final(self).status_value() == match result {
                Ok(()) => StatusView::Loaded,
                Err(e) => StatusView::Error(e@),
            },
            final(self).tab_id() == old(self).tab_id(),
            final(self).url_text() == old(self).url_text(),
            final(self).title_text() == old(self).title_text(),
            final(self).back() == old(self).back(),
            final(self).forward() == old(self).forward(),
    {
        match result {
            Ok(()) => {
                self.status = TabStatus::Loaded;
            },
            Err(e) => {
                self.status = TabStatus::Error(e);
            },
        }
    }

    /// Prepares a reload: nothing when no URL is shown; otherwise the tab
    /// becomes `Loading` and the URL to load again (without touching the
    /// history) is returned.
    pub fn reload(&mut self) -> (r: Option<String>)
        ensures
            old(self).url_text().len() == 0 ==> r.is_none() && same_tab(*final(self), *old(self)),
            old(self).url_text().len() > 0 ==> {
                &&& r.is_some()
                &&& r.unwrap()@ == old(self).url_text()
                &&& final(self).status_value() == StatusView::Loading
                &&& final(self).tab_id() == old(self).tab_id()
                &&& final(self).url_text() == old(self).url_text()
                &&& final(self).title_text() == old(self).title_text()
                &&& final(self).back() == old(self).back()
                &&& final(self).forward() == old(self).forward()
            },
    {
        if self.url.as_str().is_empty() {
            return None;
        }
        self.status = TabStatus::Loading;
        Some(self.url.clone())
    }

    /// Whether there is a page to go back to.
    pub fn can_go_back(&self) -> (r: bool)
        ensures
            r == (self.back().len() > 0),
    {
        self.back_stack.len() > 0
    }

    /// Whether there is a page to go forward to.
    pub fn can_go_forward(&self) -> (r: bool)
        ensures
            r == (self.forward().len() > 0),
    {
        self.forward_stack.len() > 0
    }

    /// Goes back one page: the shown URL (if any) moves to the forward
    /// history and the previous URL is loaded without recording history.
    /// Returns the URL to load, or `None` (and no change) when there is no
    /// history.
    pub fn go_back(&mut self) -> (r: Option<String>)
        requires
            forall|i: int| 0 <= i < old(self).back().len() ==> loadable(#[trigger] old(self).back()[i]),
        ensures
            match r {
                None => old(self).back().len() == 0 && same_tab(*final(self), *old(self)),
                Some(u) => old(self).back().len() > 0 && u@ == old(self).back().last() && went_back(
                    *old(self),
                    *final(self),
                ),
            },
    {
        match self.back_stack.pop() {
            None => None,
            Some(previous) => {
                proof {
                    assert(loadable(old(self).back()[old(self).back().len() - 1]));
                }
                if !self.url.as_str().is_empty() {
                    let current = self.url.clone();
                    self.forward_stack.push(current);
                }
                let target = previous.clone();
                self.load_url(previous, false);
                proof {
                    assert(self.back() =~= old(self).back().drop_last());
                    assert(self.forward() =~= (if old(self).url_text().len() > 0 {
                        old(self).forward().push(old(self).url_text())
                    } else {
                        old(self).forward()
                    }));
                }
                Some(target)
            },
        }
    }

    /// Goes forward one page: the shown URL (if any) moves to the back
    /// history and the next URL is loaded without recording history.
    /// Returns the URL to load, or `None` (and no change) when there is no
    /// forward history.
    pub fn go_forward(&mut self) -> (r: Option<String>)
        requires
            forall|i: int| 0 <= i < old(self).forward().len() ==> loadable(#[trigger] old(self).forward()[i]),
        ensures
            match r {
                None => old(self).forward().len() == 0 && same_tab(*final(self), *old(self)),
                Some(u) => old(self).forward().len() > 0 && u@ == old(self).forward().last() && went_forward(
                    *old(self),
                    *final(self),
                ),
            },
    {
        match self.forward_stack.pop() {
            None => None,
            Some(next) => {
                proof {
                    assert(loadable(old(self).forward()[old(self).forward().len() - 1]));
                }
                if !self.url.as_str().is_empty() {
                    let current = self.url.clone();
                    self.back_stack.push(current);
                }
                let target = next.clone();
                self.load_url(next, false);
                proof {
                    assert(self.forward() =~= old(self).forward().drop_last());
                    assert(self.back() =~= (if old(self).url_text().len() > 0 {
                        old(self).back().push(old(self).url_text())
                    } else {
                        old(self).back()
                    }));
                }
                Some(target)
            },
        }
    }
}

/// Two tabs showing the same thing with the same history.
pub open spec fn same_tab(a: Tab, b: Tab) -> bool {
    &&& a.tab_id() == b.tab_id()
    &&& a.url_text() == b.url_text()
    &&& a.title_text() == b.title_text()
    &&& a.status_value() == b.status_value()
    &&& a.back() == b.back()
    &&& a.forward() == b.forward()
}

/// A URL whose title can be computed without cutting a character in two.
pub open spec fn loadable(url: Seq<char>) -> bool {
    &&& vstd::utf8::encode_utf8(url).len() <= usize::MAX
    &&& (vstd::utf8::encode_utf8(url).len() > 30 && !has_prefix(url, "file://"@) && !has_prefix(url, "http://"@)
        && !has_prefix(url, "https://"@) ==> vstd::utf8::is_char_boundary(vstd::utf8::encode_utf8(url), 27))
}

/// `after` is `before` once `url` started loading.
pub open spec fn loaded(before: Tab, after: Tab, url: Seq<char>, track_history: bool) -> bool {
    let record = track_history && before.url_text().len() > 0;
    &&& after.tab_id() == before.tab_id()
    &&& after.url_text() == url
    &&& after.status_value() == StatusView::Loading
    &&& (loadable(url) ==> (url.len() == 0 || has_prefix(url, "file://"@) || has_prefix(url, "http://"@)
        || has_prefix(url, "https://"@) || vstd::utf8::encode_utf8(url).len() <= 30) ==> after.title_text()
        == title_for(url))
    &&& after.back() == (if record {
        before.back().push(before.url_text())
    } else {
        before.back()
    })
    &&& after.forward() == (if record {
        Seq::<Seq<char>>::empty()
    } else {
        before.forward()
    })
}

/// `after` is `before` after going back one page.
pub open spec fn went_back(before: Tab, after: Tab) -> bool {
    &&& after.tab_id() == before.tab_id()
    &&& after.url_text() == before.back().last()
    &&& after.status_value() == StatusView::Loading
    &&& after.back() == before.back().drop_last()
    &&& after.forward() == (if before.url_text().len() > 0 {
        before.forward().push(before.url_text())
    } else {
        before.forward()
    })
}

/// `after` is `before` after going forward one page.
pub open spec fn went_forward(before: Tab, after: Tab) -> bool {
    &&& after.tab_id() == before.tab_id()
    &&& after.url_text() == before.forward().last()
    &&& after.status_value() == StatusView::Loading
    &&& after.forward() == before.forward().drop_last()
    &&& after.back() == (if before.url_text().len() > 0 {
        before.back().push(before.url_text())
    } else {
        before.back()
    })
}

/// Going back and then forward again returns to the same page with the same
/// history, when a page was shown.
pub proof fn lemma_back_then_forward(a: Tab, b: Tab, c: Tab)
    requires
        a.url_text().len() > 0,
        a.back().len() > 0,
        went_back(a, b),
        b.url_text().len() > 0,
        went_forward(b, c),
    ensures
        c.url_text() == a.url_text(),
        c.back() == a.back(),
        c.forward() == a.forward(),
{
    assert(a.back().drop_last().push(a.back().last()) =~= a.back());
    assert(a.forward().push(a.url_text()).drop_last() =~= a.forward());
}

/// Loading a new page with history and then going back returns to the page
/// shown before, and the new page becomes the next forward step.
pub proof fn lemma_load_then_back(a: Tab, b: Tab, c: Tab, url: Seq<char>)
    requires
        a.url_text().len() > 0,
        url.len() > 0,
        loaded(a, b, url, true),
        went_back(b, c),
    ensures
        c.url_text() == a.url_text(),
        c.back() == a.back(),
        c.forward() == seq![url],
{
    assert(a.back().push(a.url_text()).drop_last() =~= a.back());
    assert(Seq::<Seq<char>>::empty().push(url) =~= seq![url]);
}

/// The open tabs and which one is active.
#[derive(Debug)]
pub struct TabManager {
    tabs: Vec<Tab>,
    active_tab_index: usize,
    next_tab_id: usize,
}

/// Maximum number of open tabs.
pub const MAX_TABS: usize = 5;

impl TabManager {
    /// The open tabs, in order.
    pub closed spec fn tab_seq(self) -> Seq<Tab> {
        self.tabs@
    }

    /// Index of the active tab.
    pub closed spec fn active(self) -> usize {
        self.active_tab_index
    }

    /// The id the next new tab receives.
    pub closed spec fn next_id(self) -> usize {
        self.next_tab_id
    }

    /// Between one and [`MAX_TABS`] tabs are open and the active index
    /// points at one of them.
    pub open spec fn wf(self) -> bool {
        &&& 1 <= self.tab_seq().len() <= MAX_TABS
        &&& self.active() < self.tab_seq().len()
    }

    /// One fresh tab (id 0), active.
    pub fn new() -> (r: Self)
        ensures
            r.wf(),
            r.tab_seq().len() == 1,
            r.tab_seq()[0].tab_id() == 0,
            r.tab_seq()[0].url_text() == Seq::<char>::empty(),
            r.active() == 0,
            r.next_id() == 1,
    {
        let mut tabs: Vec<Tab> = Vec::new();
        tabs.push(Tab::new(0));
        TabManager { tabs, active_tab_index: 0, next_tab_id: 1 }
    }

    /// Number of open tabs.
    pub fn tab_count(&self) -> (r: usize)
        ensures
            r == self.tab_seq().len(),
    {
        self.tabs.len()
    }

    /// Index of the active tab.
    pub fn active_index(&self) -> (r: usize)
        ensures
            r == self.active(),
    {
        self.active_tab_index
    }

    /// All open tabs.
    pub fn tabs(&self) -> (r: &[Tab])
        ensures
            r@ == self.tab_seq(),
    {
        self.tabs.as_slice()
    }

    /// The active tab.
    pub fn get_active_tab(&self) -> (r: Option<&Tab>)
        ensures
            r == (if self.active() < self.tab_seq().len() {
                Some(&self.tab_seq()[self.active() as int])
            } else {
                None
            }),
    {
        if self.active_tab_index < self.tabs.len() {
            Some(&self.tabs[self.active_tab_index])
        } else {
            None
        }
    }

    /// Activates tab `index` when it exists.
    pub fn set_active_tab(&mut self, index: usize)
        requires
            old(self).wf(),
        ensures
            final(self).wf(),
            final(self).tab_seq() == old(self).tab_seq(),
            final(self).next_id() == old(self).next_id(),
            final(self).active() == (if index < old(self).tab_seq().len() {
                index
            } else {
                old(self).active()
            }),
    {
        if index < self.tabs.len() {
            self.active_tab_index = index;
        }
    }

    /// Opens a new tab and activates it, unless [`MAX_TABS`] are already
    /// open.  Returns whether a tab was opened.
    pub fn add_tab(&mut self) -> (r: bool)
        requires
            old(self).wf(),
            old(self).next_id() < usize::MAX,
        ensures
            final(self).wf(),
            r == (old(self).tab_seq().len() < MAX_TABS),
            !r ==> final(self).tab_seq() == old(self).tab_seq() && final(self).active() == old(self).active()
                && final(self).next_id() == old(self).next_id(),
            r ==> {
                &&& final(self).tab_seq().len() == old(self).tab_seq().len() + 1
                &&& final(self).tab_seq().drop_last() == old(self).tab_seq()
                &&& final(self).tab_seq().last().tab_id() == old(self).next_id()
                &&& final(self).tab_seq().last().url_text() == Seq::<char>::empty()
                &&& final(self).active() == old(self).tab_seq().len()
                &&& final(self).next_id() == old(self).next_id() + 1
            },
    {
        if self.tabs.len() >= MAX_TABS {
            return false;
        }
        let new_tab = Tab::new(self.next_tab_id);
        self.next_tab_id = self.next_tab_id + 1;
        self.tabs.push(new_tab);
        self.active_tab_index = self.tabs.len() - 1;
        assert(self.tabs@.drop_last() =~= old(self).tabs@);
        true
    }

    /// Closes tab `index`, unless it is the last open tab or does not exist.
    /// The active index then stays on the same tab when a tab to its right
    /// was closed, and otherwise moves one to the left (not below 0).
    /// Returns whether a tab was closed.
    pub fn close_tab(&mut self, index: usize) -> (r: bool)
        requires
            old(self).wf(),
        ensures
            final(self).wf(),
            r == (old(self).tab_seq().len() > 1 && index < old(self).tab_seq().len()),
            final(self).next_id() == old(self).next_id(),
            !r ==> final(self).tab_seq() == old(self).tab_seq() && final(self).active() == old(self).active(),
            r ==> {
                &&& final(self).tab_seq() == old(self).tab_seq().remove(index as int)
                &&& final(self).active() == (if old(self).active() >= final(self).tab_seq().len() {
                    (final(self).tab_seq().len() - 1) as usize
                } else if index <= old(self).active() && old(self).active() > 0 {
                    (old(self).active() - 1) as usize
                } else {
                    old(self).active()
                })
            },
    {
        if self.tabs.len() <= 1 || index >= self.tabs.len() {
            return false;
        }
        self.tabs.remove(index);
        if self.active_tab_index >= self.tabs.len() {
            self.active_tab_index = self.tabs.len() - 1;
        } else if index <= self.active_tab_index && self.active_tab_index > 0 {
            self.active_tab_index = self.active_tab_index - 1;
        }
        true
    }

    /// Whether the active tab can go back.
    pub fn can_go_back(&self) -> (r: bool)
        ensures
            r == (self.active() < self.tab_seq().len() && self.tab_seq()[self.active() as int].back().len() > 0),
    {
        match self.get_active_tab() {
            Some(tab) => tab.can_go_back(),
            None => false,
        }
    }

    /// Whether the active tab can go forward.
    pub fn can_go_forward(&self) -> (r: bool)
        ensures
            r == (self.active() < self.tab_seq().len() && self.tab_seq()[self.active() as int].forward().len()
                > 0),
    {
        match self.get_active_tab() {
            Some(tab) => tab.can_go_forward(),
            None => false,
        }
    }

    /// Starts loading `url` in the active tab, recording history.
    pub fn load_url_in_active_tab(&mut self, url: String)
        requires
            old(self).wf(),
            loadable(url@),
        ensures
            final(self).wf(),
            final(self).active() == old(self).active(),
            final(self).next_id() == old(self).next_id(),
            final(self).tab_seq().len() == old(self).tab_seq().len(),
            forall|i: int| 0 <= i < final(self).tab_seq().len() && i != old(self).active() ==> final(self).tab_seq()[i]
                == old(self).tab_seq()[i],
            loaded(
                old(self).tab_seq()[old(self).active() as int],
                final(self).tab_seq()[old(self).active() as int],
                url@,
                true,
            ),
    {
        let i = self.active_tab_index;
        let mut tab = self.tabs.remove(i);
        tab.load_url(url, true);
        self.tabs.insert(i, tab);
        proof {
            assert forall|j: int| 0 <= j < self.tabs@.len() && j != i implies self.tabs@[j] == old(self).tabs@[j] by {
                if j < i {
                    assert(self.tabs@[j] == old(self).tabs@[j]);
                } else {
                    assert(self.tabs@[j] == old(self).tabs@[j]);
                }
            }
        }
    }

    /// Goes back in the active tab; returns the URL to load.
    pub fn go_back_active_tab(&mut self) -> (r: Option<String>)
        requires
            old(self).wf(),
            forall|i: int| 0 <= i < old(self).tab_seq()[old(self).active() as int].back().len() ==> loadable(#[trigger] old(self).tab_seq()[old(self).active() as int].back()[i]),
        ensures
            final(self).wf(),
            final(self).active() == old(self).active(),
            final(self).next_id() == old(self).next_id(),
            final(self).tab_seq().len() == old(self).tab_seq().len(),
            forall|i: int| 0 <= i < final(self).tab_seq().len() && i != old(self).active() ==> final(self).tab_seq()[i]
                == old(self).tab_seq()[i],
            match r {
                None => old(self).tab_seq()[old(self).active() as int].back().len() == 0 && same_tab(final(self).tab_seq()[old(self).active() as int], old(self).tab_seq()[old(self).active() as int]),
                Some(u) => old(self).tab_seq()[old(self).active() as int].back().len() > 0 && u@ == old(self).tab_seq()[old(self).active() as int].back().last() && went_back(old(self).tab_seq()[old(self).active() as int], final(self).tab_seq()[old(self).active() as int]),
            },
    {
        let i = self.active_tab_index;
        let mut tab = self.tabs.remove(i);
        let r = tab.go_back();
        self.tabs.insert(i, tab);
        proof {
            assert forall|j: int| 0 <= j < self.tabs@.len() && j != i implies self.tabs@[j] == old(self).tabs@[j] by {
                assert(self.tabs@[j] == old(self).tabs@[j]);
            }
        }
        r
    }

    /// Goes forward in the active tab; returns the URL to load.
    pub fn go_forward_active_tab(&mut self) -> (r: Option<String>)
        requires
            old(self).wf(),
            forall|i: int| 0 <= i < old(self).tab_seq()[old(self).active() as int].forward().len() ==> loadable(#[trigger] old(self).tab_seq()[old(self).active() as int].forward()[i]),
        ensures
            final(self).wf(),
            final(self).active() == old(self).active(),
            final(self).next_id() == old(self).next_id(),
            final(self).tab_seq().len() == old(self).tab_seq().len(),
            forall|i: int| 0 <= i < final(self).tab_seq().len() && i != old(self).active() ==> final(self).tab_seq()[i]
                == old(self).tab_seq()[i],
            match r {
                None => old(self).tab_seq()[old(self).active() as int].forward().len() == 0 && same_tab(final(self).tab_seq()[old(self).active() as int], old(self).tab_seq()[old(self).active() as int]),
                Some(u) => old(self).tab_seq()[old(self).active() as int].forward().len() > 0 && u@ == old(self).tab_seq()[old(self).active() as int].forward().last() && went_forward(old(self).tab_seq()[old(self).active() as int], final(self).tab_seq()[old(self).active() as int]),
            },
    {
        let i = self.active_tab_index;
        let mut tab = self.tabs.remove(i);
        let r = tab.go_forward();
        self.tabs.insert(i, tab);
        proof {
            assert forall|j: int| 0 <= j < self.tabs@.len() && j != i implies self.tabs@[j] == old(self).tabs@[j] by {
                assert(self.tabs@[j] == old(self).tabs@[j]);
            }
        }
        r
    }

    /// Records the outcome of the active tab's load.
    pub fn finish_load_in_active_tab(&mut self, result: Result<(), String>)
        requires
            old(self).wf(),
        ensures
            final(self).wf(),
            final(self).active() == old(self).active(),
            final(self).next_id() == old(self).next_id(),
            final(self).tab_seq().len() == old(self).tab_seq().len(),
            forall|i: int| 0 <= i < final(self).tab_seq().len() && i != old(self).active() ==> final(self).tab_seq()[i]
                == old(self).tab_seq()[i],
            final(self).tab_seq()[old(self).active() as int].status_value() == match result {
                Ok(()) => StatusView::Loaded,
                Err(e) => StatusView::Error(e@),
            },
            final(self).tab_seq()[old(self).active() as int].tab_id() == old(self).tab_seq()[old(self).active() as int].tab_id(),
            final(self).tab_seq()[old(self).active() as int].url_text() == old(self).tab_seq()[old(self).active() as int].url_text(),
            final(self).tab_seq()[old(self).active() as int].title_text() == old(self).tab_seq()[old(self).active() as int].title_text(),
            final(self).tab_seq()[old(self).active() as int].back() == old(self).tab_seq()[old(self).active() as int].back(),
            final(self).tab_seq()[old(self).active() as int].forward() == old(self).tab_seq()[old(self).active() as int].forward(),
    {
        let i = self.active_tab_index;
        let mut tab = self.tabs.remove(i);
        tab.finish_load(result);
        self.tabs.insert(i, tab);
        proof {
            assert forall|j: int| 0 <= j < self.tabs@.len() && j != i implies self.tabs@[j] == old(self).tabs@[j] by {
                assert(self.tabs@[j] == old(self).tabs@[j]);
            }
        }
    }

    /// The tab whose engine runs a script: the active tab's id, or the error
    /// `No active tab`.
    pub fn eval_target(&self) -> (r: Result<usize, String>)
        ensures
            self.active() < self.tab_seq().len() ==> r == Ok::<usize, String>(self.tab_seq()[self.active() as int].tab_id()),
            self.active() >= self.tab_seq().len() ==> (r matches Err(e) && e@ == "No active tab"@),
    {
        match self.get_active_tab() {
            Some(tab) => Ok(tab.id),
            None => Err("No active tab".to_string()),
        }
    }

    /// Prepares a reload of the active tab; returns the URL to load again.
    pub fn reload_active_tab(&mut self) -> (r: Option<String>)
        requires
            old(self).wf(),
        ensures
            final(self).wf(),
            final(self).active() == old(self).active(),
            final(self).next_id() == old(self).next_id(),
            final(self).tab_seq().len() == old(self).tab_seq().len(),
            forall|i: int| 0 <= i < final(self).tab_seq().len() && i != old(self).active() ==> final(self).tab_seq()[i]
                == old(self).tab_seq()[i],
            old(self).tab_seq()[old(self).active() as int].url_text().len() == 0 ==> r.is_none() && same_tab(final(self).tab_seq()[old(self).active() as int], old(self).tab_seq()[old(self).active() as int]),
            old(self).tab_seq()[old(self).active() as int].url_text().len() > 0 ==> {
                &&& r.is_some()
                &&& r.unwrap()@ == old(self).tab_seq()[old(self).active() as int].url_text()
                &&& final(self).tab_seq()[old(self).active() as int].status_value() == StatusView::Loading
                &&& final(self).tab_seq()[old(self).active() as int].tab_id() == old(self).tab_seq()[old(self).active() as int].tab_id()
                &&& final(self).tab_seq()[old(self).active() as int].url_text() == old(self).tab_seq()[old(self).active() as int].url_text()
                &&& final(self).tab_seq()[old(self).active() as int].title_text() == old(self).tab_seq()[old(self).active() as int].title_text()
                &&& final(self).tab_seq()[old(self).active() as int].back() == old(self).tab_seq()[old(self).active() as int].back()
                &&& final(self).tab_seq()[old(self).active() as int].forward() == old(self).tab_seq()[old(self).active() as int].forward()
            },
    {
        let i = self.active_tab_index;
        let mut tab = self.tabs.remove(i);
        let r = tab.reload();
        self.tabs.insert(i, tab);
        proof {
            assert forall|j: int| 0 <= j < self.tabs@.len() && j != i implies self.tabs@[j] == old(self).tabs@[j] by {
                assert(self.tabs@[j] == old(self).tabs@[j]);
            }
        }
        r
    }
}

/// Closing the tab that was just opened gives back the tabs that were open
/// before, with the rightmost of them active.
pub proof fn lemma_add_then_close(a: TabManager, b: TabManager, c: TabManager)
    requires
        a.wf(),
        b.tab_seq().len() == a.tab_seq().len() + 1,
        b.tab_seq().drop_last() == a.tab_seq(),
        b.active() == a.tab_seq().len(),
        c.tab_seq() == b.tab_seq().remove(b.active() as int),
        c.active() == (if b.active() >= c.tab_seq().len() {
            (c.tab_seq().len() - 1) as usize
        } else if b.active() <= b.active() && b.active() > 0 {
            (b.active() - 1) as usize
        } else {
            b.active()
        }),
    ensures
        c.tab_seq() == a.tab_seq(),
        c.active() == a.tab_seq().len() - 1,
        c.wf(),
{
    assert(b.tab_seq().remove(b.active() as int) =~= b.tab_seq().drop_last());
}

} // verus!
