//! The selector text of a rule, assembled from the tokens before its
//! `{`: runs of whitespace become one space, comments are dropped, and a
//! function is written with the tokens inside it.

use vstd::prelude::*;
use crate::text::{chars_of, string_from_chars, push_str, push_chars, trim, trim_chars};

verus! {

/// A token of a rule prelude.
#[derive(Debug)]
pub enum PreludePiece {
    /// Whitespace.
    Space,
    /// A comment.
    Comment,
    /// Any other token, as the tokenizer writes it back.
    Text(String),
    /// A function: its name and the tokens up to its `)`.
    Function(String, Vec<PreludePiece>),
}

/// `buf` followed by one space, unless it is empty or already ends with one.
pub open spec fn with_space(buf: Seq<char>) -> Seq<char> {
    if buf.len() > 0 && buf.last() != ' ' {
        buf.push(' ')
    } else {
        buf
    }
}

/// The text of the tokens inside a function; a function nested there
/// contributes its name and `(`.
pub open spec fn inner_text(ps: Seq<PreludePiece>) -> Seq<char>
    decreases ps.len(),
{
    if ps.len() == 0 {
        Seq::empty()
    } else {
        let buf = inner_text(ps.drop_last());
        match ps.last() {
            PreludePiece::Space => with_space(buf),
            PreludePiece::Comment => buf,
            PreludePiece::Text(t) => buf + t@,
            PreludePiece::Function(n, _) => buf + n@ + "("@,
        }
    }
}

/// The text of the prelude before trimming.
pub open spec fn prelude_buffer(ps: Seq<PreludePiece>) -> Seq<char>
    decreases ps.len(),
{
    if ps.len() == 0 {
        Seq::empty()
    } else {
        let buf = prelude_buffer(ps.drop_last());
        match ps.last() {
            PreludePiece::Space => with_space(buf),
            PreludePiece::Comment => buf,
            PreludePiece::Text(t) => buf + t@,
            PreludePiece::Function(n, inner) => buf + n@ + "("@ + inner_text(inner@) + ")"@,
        }
    }
}

fn push_space(buf: &mut Vec<char>)
    ensures
        final(buf)@ == with_space(old(buf)@),
{
    let n = buf.len();
    if n > 0 && buf[n - 1] != ' ' {
        buf.push(' ');
    }
}

fn inner_chars(ps: &Vec<PreludePiece>) -> (r: Vec<char>)
    ensures
        r@ == inner_text(ps@),
{
    let mut buf: Vec<char> = Vec::new();
    let mut i: usize = 0;
    while i < ps.len()
        invariant
            i <= ps@.len(),
            buf@ == inner_text(ps@.take(i as int)),
        decreases ps@.len() - i,
    {
        proof {
            assert(ps@.take(i + 1).drop_last() =~= ps@.take(i as int));
        }
        match &ps[i] {
            PreludePiece::Space => push_space(&mut buf),
            PreludePiece::Comment => {},
            PreludePiece::Text(t) => {
                let c = chars_of(t.as_str());
                push_chars(&mut buf, c.as_slice());
            },
            PreludePiece::Function(n, _) => {
                let c = chars_of(n.as_str());
                push_chars(&mut buf, c.as_slice());
                push_str(&mut buf, "(");
            },
        }
        i = i + 1;
    }
    proof {
        assert(ps@.take(ps@.len() as int) =~= ps@);
    }
    buf
}

/// The selector text of a rule prelude: the tokens written back with
/// whitespace collapsed and comments dropped, trimmed.
pub fn selector_text(ps: &Vec<PreludePiece>) -> (r: String)
    ensures
        r@ == trim(prelude_buffer(ps@)),
{
    let mut buf: Vec<char> = Vec::new();
    let mut i: usize = 0;
    while i < ps.len()
        invariant
            i <= ps@.len(),
            buf@ == prelude_buffer(ps@.take(i as int)),
        decreases ps@.len() - i,
    {
        proof {
            assert(ps@.take(i + 1).drop_last() =~= ps@.take(i as int));
        }
        match &ps[i] {
            PreludePiece::Space => push_space(&mut buf),
            PreludePiece::Comment => {},
            PreludePiece::Text(t) => {
                let c = chars_of(t.as_str());
                push_chars(&mut buf, c.as_slice());
            },
            PreludePiece::Function(n, inner) => {
                let c = chars_of(n.as_str());
                push_chars(&mut buf, c.as_slice());
                push_str(&mut buf, "(");
                let t = inner_chars(inner);
                push_chars(&mut buf, t.as_slice());
                push_str(&mut buf, ")");
            },
        }
        i = i + 1;
    }
    proof {
        assert(ps@.take(ps@.len() as int) =~= ps@);
    }
    let t = trim_chars(buf.as_slice());
    string_from_chars(t.as_slice())
}

} // verus!
