//! The address bar: the URL being typed, the list of local test pages and
//! whether the developer tools are open.

use vstd::prelude::*;
use crate::text::{chars_of, push_chars, push_str, string_from_chars, starts_with_str, has_prefix, text_less, text_lt, lemma_text_lt_trans, lemma_text_lt_asym};

verus! {

broadcast use vstd::seq_lib::group_to_multiset_ensures;

/// The URL for a file path: the path itself when it already starts with
/// `file://`, else the path after `file://`.
pub open spec fn file_url(path: Seq<char>) -> Seq<char> {
    if has_prefix(path, "file://"@) {
        path
    } else {
        "file://"@ + path
    }
}

/// `s` is in non-decreasing text order.
pub open spec fn texts_sorted(s: Seq<String>) -> bool {
    forall|i: int, j: int| 0 <= i < j < s.len() ==> !text_lt(#[trigger] s[j]@, #[trigger] s[i]@)
}

/// Where `x` goes in the sorted list `r`: after every entry it does not
/// precede.
fn text_insert_position(r: &Vec<String>, x: &[char]) -> (p: usize)
    ensures
        p <= r@.len(),
        forall|q: int| 0 <= q < p ==> !text_lt(x@, #[trigger] r@[q]@),
        p < r@.len() ==> text_lt(x@, r@[p as int]@),
{
    let mut p: usize = 0;
    while p < r.len()
        invariant
            p <= r@.len(),
            forall|q: int| 0 <= q < p ==> !text_lt(x@, #[trigger] r@[q]@),
        decreases r@.len() - p,
    {
        let rc = chars_of(r[p].as_str());
        if text_less(x, rc.as_slice()) {
            return p;
        }
        p = p + 1;
    }
    p
}

/// The strings in non-decreasing text order (a stable insertion sort).
pub fn sort_texts(v: Vec<String>) -> (r: Vec<String>)
    ensures
        texts_sorted(r@),
        r@.to_multiset() == v@.to_multiset(),
{
    let mut r: Vec<String> = Vec::new();
    let mut i: usize = 0;
    while i < v.len()
        invariant
            i <= v@.len(),
            texts_sorted(r@),
            r@.to_multiset() == v@.take(i as int).to_multiset(),
        decreases v@.len() - i,
    {
        let x = v[i].clone();
        let xc = chars_of(x.as_str());
        let p = text_insert_position(&r, xc.as_slice());
        let ghost old_r = r@;
        r.insert(p, x);
        proof {
            vstd::seq_lib::to_multiset_insert(old_r, p as int, v@[i as int]);
            vstd::seq_lib::to_multiset_build(v@.take(i as int), v@[i as int]);
            assert(v@.take(i + 1) =~= v@.take(i as int).push(v@[i as int]));
            assert forall|a: int, b: int| 0 <= a < b < r@.len() implies !text_lt(#[trigger] r@[b]@, #[trigger] r@[a]@) by {
                if b < p {
                    assert(r@[a] == old_r[a] && r@[b] == old_r[b]);
                } else if b == p {
                    assert(r@[a] == old_r[a]);
                    assert(r@[b]@ == xc@);
                    assert(!text_lt(xc@, old_r[a]@));
                } else if a < p {
                    assert(r@[a] == old_r[a] && r@[b] == old_r[b - 1]);
                } else if a == p {
                    assert(r@[b] == old_r[b - 1]);
                    assert(r@[a]@ == xc@);
                    if text_lt(old_r[b - 1]@, xc@) {
                        lemma_text_lt_trans(old_r[b - 1]@, xc@, old_r[p as int]@);
                        lemma_text_lt_asym(old_r[p as int]@, old_r[p as int]@);
                        if b - 1 > p {
                            assert(!text_lt(old_r[b - 1]@, old_r[p as int]@));
                        }
                    }
                } else {
                    assert(r@[a] == old_r[a - 1] && r@[b] == old_r[b - 1]);
                }
            }
        }
        i = i + 1;
    }
    assert(v@.take(v@.len() as int) =~= v@);
    r
}

/// State of the address bar.
pub struct AddressBar {
    /// The URL in the input field.
    pub url_input: String,
    /// The local test pages, sorted.
    pub html_files: Vec<String>,
    /// Whether the developer tools are open.
    pub devtools_open: bool,
    /// The test page picked from the list.
    pub selected_html_index: Option<usize>,
}

/// What the user asked for through the address bar.
#[derive(Debug, Clone, Default)]
pub struct AddressBarResult {
    pub load_url: Option<String>,
    pub navigate_back: bool,
    pub navigate_forward: bool,
}

impl AddressBar {
    /// An empty address bar with no test pages listed and the developer
    /// tools closed.
    pub fn new() -> (r: Self)
        ensures
            r.url_input@ == Seq::<char>::empty(),
            r.html_files@ == Seq::<String>::empty(),
            !r.devtools_open,
            r.selected_html_index.is_none(),
    {
        AddressBar {
            url_input: String::new(),
            html_files: Vec::new(),
            devtools_open: false,
            selected_html_index: None,
        }
    }

    /// Lists the test pages found, in sorted order.
    pub fn set_html_files(&mut self, files: Vec<String>)
        ensures
            texts_sorted(final(self).html_files@),
            final(self).html_files@.to_multiset() == files@.to_multiset(),
            final(self).url_input == old(self).url_input,
            final(self).devtools_open == old(self).devtools_open,
            final(self).selected_html_index == old(self).selected_html_index,
    {
        self.html_files = sort_texts(files);
    }

    /// Opens or closes the developer tools.
    pub fn toggle_devtools(&mut self)
        ensures
            final(self).devtools_open == !old(self).devtools_open,
            final(self).url_input == old(self).url_input,
            final(self).html_files == old(self).html_files,
            final(self).selected_html_index == old(self).selected_html_index,
    {
        self.devtools_open = !self.devtools_open;
    }

    /// Puts the `file://` URL of `path` in the input field.
    pub fn set_url_from_path(&mut self, path: &str)
        ensures
            final(self).url_input@ == file_url(path@),
            final(self).devtools_open == old(self).devtools_open,
            final(self).html_files == old(self).html_files,
            final(self).selected_html_index == old(self).selected_html_index,
    {
        let pc = chars_of(path);
        if starts_with_str(pc.as_slice(), "file://") {
            self.url_input = string_from_chars(pc.as_slice());
        } else {
            let mut out: Vec<char> = Vec::new();
            push_str(&mut out, "file://");
            push_chars(&mut out, pc.as_slice());
            self.url_input = string_from_chars(out.as_slice());
        }
    }

    /// The URL to load when the user presses Enter, Load or Reload: the
    /// input, unless it is empty.
    pub fn requested_url(&self) -> (r: Option<String>)
        ensures
            self.url_input@.len() == 0 ==> r.is_none(),
            self.url_input@.len() > 0 ==> r == Some(self.url_input),
    {
        let uc = chars_of(self.url_input.as_str());
        if uc.len() == 0 {
            None
        } else {
            Some(self.url_input.clone())
        }
    }

    /// The user picked test page `index` from the list: it becomes the
    /// selection, its URL goes in the input field and is returned to load.
    pub fn select_html_file(&mut self, index: usize) -> (r: Option<String>)
        ensures
            index >= old(self).html_files@.len() ==> r.is_none() && *final(self) == *old(self),
            index < old(self).html_files@.len() ==> {
                &&& final(self).selected_html_index == Some(index)
                &&& final(self).url_input@ == file_url(old(self).html_files@[index as int]@)
                &&& r == Some(final(self).url_input)
                &&& final(self).html_files == old(self).html_files
                &&& final(self).devtools_open == old(self).devtools_open
            },
    {
        if index >= self.html_files.len() {
            return None;
        }
        self.selected_html_index = Some(index);
        let path = self.html_files[index].clone();
        self.set_url_from_path(path.as_str());
        Some(self.url_input.clone())
    }
}

} // verus!
