//! The parts of style-sheet parsing that do not depend on the tokenizer:
//! options and errors, and the simple `;`/`:` and `{`/`}` splitting used
//! for inline styles and for the fallback parser.

use vstd::prelude::*;
use crate::text::{chars_of, string_from_chars, slice_chars, push_str, push_chars, trim, trim_chars};
use crate::css::properties::{Property, PropertyParseError, parse_error_message};

verus! {

/// Parsing options.
#[derive(Debug, Clone, Copy, PartialEq, Eq, Structural)]
pub struct CssParseOptions {
    /// Whether parsing goes on after an error (the default).
    pub recover_from_errors: bool,
}

impl Default for CssParseOptions {
    fn default() -> (r: Self)
        ensures
            r.recover_from_errors,
    {
        CssParseOptions { recover_from_errors: true }
    }
}

/// A style-sheet error.
#[derive(Debug, Clone)]
pub enum CssParseError {
    Syntax(String),
}

/// The lines joined by newlines.
pub open spec fn joined_lines(lines: Seq<String>) -> Seq<char>
    decreases lines.len(),
{
    if lines.len() == 0 {
        Seq::empty()
    } else if lines.len() == 1 {
        lines[0]@
    } else {
        joined_lines(lines.drop_last()) + "\n"@ + lines.last()@
    }
}

impl CssParseError {
    /// One error carrying all the messages, one per line.
    pub fn from_messages(errors: Vec<String>) -> (r: Self)
        ensures
            r matches CssParseError::Syntax(m) && m@ == joined_lines(errors@),
    {
        let mut v: Vec<char> = Vec::new();
        let mut i: usize = 0;
        while i < errors.len()
            invariant
                i <= errors@.len(),
                v@ == joined_lines(errors@.take(i as int)),
            decreases errors@.len() - i,
        {
            assert(errors@.take(i + 1).drop_last() =~= errors@.take(i as int));
            if i > 0 {
                push_str(&mut v, "\n");
            }
            let e = chars_of(errors[i].as_str());
            push_chars(&mut v, e.as_slice());
            i = i + 1;
        }
        assert(errors@.take(errors@.len() as int) =~= errors@);
        CssParseError::Syntax(string_from_chars(v.as_slice()))
    }

    /// The error as text: `CSS parse error: ` and the message.
    pub fn message(&self) -> (r: String)
        ensures
            r@ == "CSS parse error: "@ + (match *self {
                CssParseError::Syntax(m) => m@,
            }),
    {
        let mut v: Vec<char> = Vec::new();
        push_str(&mut v, "CSS parse error: ");
        match self {
            CssParseError::Syntax(m) => {
                let c = chars_of(m.as_str());
                push_chars(&mut v, c.as_slice());
            },
        }
        string_from_chars(v.as_slice())
    }
}

/// The error reported for an inline style: `inline style error: ` and the
/// declaration's error.
pub fn inline_style_error(err: &PropertyParseError) -> (r: CssParseError)
    ensures
        r matches CssParseError::Syntax(m) && m@ == "inline style error: "@ + parse_error_message(*err),
{
    let mut v: Vec<char> = Vec::new();
    push_str(&mut v, "inline style error: ");
    let m = err.message();
    let c = chars_of(m.as_str());
    push_chars(&mut v, c.as_slice());
    CssParseError::Syntax(string_from_chars(v.as_slice()))
}

/// The pieces of `s` between the separators `c` (`str::split`).
pub open spec fn split_on(s: Seq<char>, c: char) -> Seq<Seq<char>>
    decreases s.len(),
{
    if s.len() == 0 {
        seq![Seq::<char>::empty()]
    } else {
        let rest = split_on(s.drop_last(), c);
        if s.last() == c {
            rest.push(Seq::empty())
        } else {
            rest.update(rest.len() - 1, rest.last().push(s.last()))
        }
    }
}

proof fn lemma_split_nonempty(s: Seq<char>, c: char)
    ensures
        split_on(s, c).len() >= 1,
    decreases s.len(),
{
    if s.len() > 0 {
        lemma_split_nonempty(s.drop_last(), c);
    }
}

/// `str::split` on a character slice.
pub fn split_chars(s: &[char], c: char) -> (r: Vec<Vec<char>>)
    ensures
        r@.len() == split_on(s@, c).len(),
        forall|i: int| 0 <= i < r@.len() ==> (#[trigger] r@[i])@ == split_on(s@, c)[i],
{
    let mut done: Vec<Vec<char>> = Vec::new();
    let mut cur: Vec<char> = Vec::new();
    let mut i: usize = 0;
    assert(s@.take(0) =~= Seq::<char>::empty());
    while i < s.len()
        invariant
            i <= s@.len(),
            done@.len() + 1 == split_on(s@.take(i as int), c).len(),
            forall|k: int| 0 <= k < done@.len() ==> (#[trigger] done@[k])@ == split_on(s@.take(i as int), c)[k],
            cur@ == split_on(s@.take(i as int), c).last(),
        decreases s@.len() - i,
    {
        proof {
            lemma_split_nonempty(s@.take(i as int), c);
            assert(s@.take(i + 1).drop_last() =~= s@.take(i as int));
        }
        if s[i] == c {
            done.push(cur);
            cur = Vec::new();
        } else {
            cur.push(s[i]);
        }
        i = i + 1;
    }
    assert(s@.take(s@.len() as int) =~= s@);
    done.push(cur);
    done
}

/// Position of the first `c` in `s`.
pub open spec fn first_index(s: Seq<char>, c: char) -> Option<int>
    decreases s.len(),
{
    if s.len() == 0 {
        None
    } else if s[0] == c {
        Some(0)
    } else {
        match first_index(s.drop_first(), c) {
            Some(k) => Some(k + 1),
            None => None,
        }
    }
}

fn find_first(s: &[char], c: char) -> (r: Option<usize>)
    ensures
        match r {
            Some(k) => first_index(s@, c) == Some(k as int) && k < s@.len(),
            None => first_index(s@, c).is_none(),
        },
{
    let mut i: usize = 0;
    assert(s@.skip(0) =~= s@);
    while i < s.len()
        invariant
            i <= s@.len(),
            first_index(s@, c) == (match first_index(s@.skip(i as int), c) {
                Some(k) => Some(k + i),
                None => None,
            }),
        decreases s@.len() - i,
    {
        assert(s@.skip(i as int).drop_first() =~= s@.skip(i + 1));
        if s[i] == c {
            return Some(i);
        }
        i = i + 1;
    }
    assert(s@.skip(i as int).len() == 0);
    None
}

/// The declaration `name: value` written in a piece, both trimmed and
/// non-empty.
pub open spec fn declaration_in(piece: Seq<char>) -> Option<(Seq<char>, Seq<char>)> {
    match first_index(piece, ':') {
        Some(k) => {
            let n = trim(piece.take(k));
            let v = trim(piece.skip(k + 1));
            if n.len() == 0 || v.len() == 0 {
                None
            } else {
                Some((n, v))
            }
        },
        None => None,
    }
}

/// The declarations written in the pieces, in order.
pub open spec fn declarations_in(pieces: Seq<Seq<char>>) -> Seq<(Seq<char>, Seq<char>)>
    decreases pieces.len(),
{
    if pieces.len() == 0 {
        Seq::empty()
    } else {
        let r = declarations_in(pieces.drop_last());
        match declaration_in(pieces.last()) {
            Some(d) => r.push(d),
            None => r,
        }
    }
}

/// The `name: value` pairs of a declaration list such as a `style`
/// attribute: split on `;`, then at the first `:`, both sides trimmed;
/// pieces without a colon or with an empty side are skipped.
pub fn declaration_pairs(source: &str) -> (r: Vec<(String, String)>)
    ensures
        r@.len() == declarations_in(split_on(source@, ';')).len(),
        forall|i: int| 0 <= i < r@.len() ==> (#[trigger] r@[i]).0@ == declarations_in(split_on(source@, ';'))[i].0
            && r@[i].1@ == declarations_in(split_on(source@, ';'))[i].1,
{
    let c = chars_of(source);
    let pieces = split_chars(c.as_slice(), ';');
    let ghost ps = split_on(source@, ';');
    assert(pieces@.len() == ps.len());
    let mut r: Vec<(String, String)> = Vec::new();
    let mut i: usize = 0;
    while i < pieces.len()
        invariant
            i <= pieces@.len(),
            pieces@.len() == ps.len(),
            ps == split_on(source@, ';'),
            forall|k: int| 0 <= k < pieces@.len() ==> (#[trigger] pieces@[k])@ == ps[k],
            r@.len() == declarations_in(ps.take(i as int)).len(),
            forall|k: int| 0 <= k < r@.len() ==> (#[trigger] r@[k]).0@ == declarations_in(ps.take(i as int))[k].0
                && r@[k].1@ == declarations_in(ps.take(i as int))[k].1,
        decreases pieces@.len() - i,
    {
        assert(ps.take(i + 1).drop_last() =~= ps.take(i as int));
        assert(ps.take(i + 1).last() == pieces@[i as int]@);
        let p = pieces[i].as_slice();
        match find_first(p, ':') {
            Some(k) => {
                let name_part = slice_chars(p, 0, k);
                let value_part = slice_chars(p, k + 1, p.len());
                assert(name_part@ == p@.take(k as int));
                assert(value_part@ == p@.skip(k + 1));
                let n = trim_chars(name_part.as_slice());
                let v = trim_chars(value_part.as_slice());
                if n.len() > 0 && v.len() > 0 {
                    r.push((string_from_chars(n.as_slice()), string_from_chars(v.as_slice())));
                }
            },
            None => {},
        }
        i = i + 1;
    }
    assert(ps.take(ps.len() as int) =~= ps);
    r
}

/// The rule written in a `}`-separated chunk: the trimmed selector before
/// the first `{` (not empty) and the declarations after it.
pub open spec fn rule_in(chunk: Seq<char>) -> Option<(Seq<char>, Seq<char>)> {
    let t = trim(chunk);
    if t.len() == 0 {
        None
    } else {
        match first_index(t, '{') {
            Some(k) => if trim(t.take(k)).len() == 0 {
                None
            } else {
                Some((trim(t.take(k)), t.skip(k + 1)))
            },
            None => None,
        }
    }
}

/// The rules written in the chunks, in order.
pub open spec fn rules_in(chunks: Seq<Seq<char>>) -> Seq<(Seq<char>, Seq<char>)>
    decreases chunks.len(),
{
    if chunks.len() == 0 {
        Seq::empty()
    } else {
        let r = rules_in(chunks.drop_last());
        match rule_in(chunks.last()) {
            Some(d) => r.push(d),
            None => r,
        }
    }
}

/// The `(selector, declarations)` pairs of a style sheet read the simple
/// way: split on `}`, then at the first `{`.
pub fn fallback_rule_texts(css: &str) -> (r: Vec<(String, String)>)
    ensures
        r@.len() == rules_in(split_on(css@, '}')).len(),
        forall|i: int| 0 <= i < r@.len() ==> (#[trigger] r@[i]).0@ == rules_in(split_on(css@, '}'))[i].0
            && r@[i].1@ == rules_in(split_on(css@, '}'))[i].1,
{
    let c = chars_of(css);
    let chunks = split_chars(c.as_slice(), '}');
    let ghost cs = split_on(css@, '}');
    let mut r: Vec<(String, String)> = Vec::new();
    let mut i: usize = 0;
    while i < chunks.len()
        invariant
            i <= chunks@.len(),
            chunks@.len() == cs.len(),
            cs == split_on(css@, '}'),
            forall|k: int| 0 <= k < chunks@.len() ==> (#[trigger] chunks@[k])@ == cs[k],
            r@.len() == rules_in(cs.take(i as int)).len(),
            forall|k: int| 0 <= k < r@.len() ==> (#[trigger] r@[k]).0@ == rules_in(cs.take(i as int))[k].0
                && r@[k].1@ == rules_in(cs.take(i as int))[k].1,
        decreases chunks@.len() - i,
    {
        assert(cs.take(i + 1).drop_last() =~= cs.take(i as int));
        assert(cs.take(i + 1).last() == chunks@[i as int]@);
        let t = trim_chars(chunks[i].as_slice());
        if t.len() > 0 {
            match find_first(t.as_slice(), '{') {
                Some(k) => {
                    let sel = slice_chars(t.as_slice(), 0, k);
                    assert(sel@ == t@.take(k as int));
                    let st = trim_chars(sel.as_slice());
                    if st.len() > 0 {
                        let decl = slice_chars(t.as_slice(), k + 1, t.len());
                        assert(decl@ == t@.skip(k + 1));
                        r.push((string_from_chars(st.as_slice()), string_from_chars(decl.as_slice())));
                    }
                },
                None => {},
            }
        }
        i = i + 1;
    }
    assert(cs.take(cs.len() as int) =~= cs);
    r
}

/// A parsed rule: the selector as written, its compiled form, and the
/// normalised declarations.
#[derive(Debug, Clone)]
pub struct ParsedRule<L> {
    pub selector_text: String,
    pub selector_list: L,
    pub declarations: Vec<Property>,
}

/// A style-sheet parser with its options.
#[derive(Debug, Clone, Copy)]
pub struct StylesheetParser {
    options: CssParseOptions,
}

impl StylesheetParser {
    /// The options the parser was made with.
    pub closed spec fn opts(self) -> CssParseOptions {
        self.options
    }

    /// A parser with `options`.
    pub fn new(options: CssParseOptions) -> (r: Self)
        ensures
            r.opts() == options,
    {
        StylesheetParser { options }
    }

    /// The options the parser was made with.
    pub fn options(&self) -> (r: CssParseOptions)
        ensures
            r == self.opts(),
    {
        self.options
    }
}

} // verus!
