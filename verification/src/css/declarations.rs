//! Reading the declarations of a rule's block: `name: value` pairs ended
//! by `;`.  The tokenizer hands over each token of the block with the text
//! it was read from; a value is the source text between the `:` and the
//! `;`, trimmed.

use vstd::prelude::*;
use crate::css::tokens::{
    CssToken, is_skipped, skip_ws, next_tok, exhausted, semicolon_from, lemma_skip_ws_bounds,
    lemma_next_tok_bounds,
};
use crate::text::{chars_of, string_from_chars, push_chars, trim, trim_chars};

verus! {

/// A token of a block with its source text.
#[derive(Debug)]
pub struct SourceToken {
    pub token: CssToken,
    /// The token as written, a function or bracket with its contents and
    /// closing bracket.
    pub text: String,
    /// The part of `text` the tokenizer has passed right after handing out
    /// the token: the opening of a function or bracket, else all of it.
    pub head: String,
}

/// The tokens alone.
pub open spec fn kinds(s: Seq<SourceToken>) -> Seq<CssToken> {
    s.map_values(|t: SourceToken| t.token)
}

/// The source texts of the tokens, one after the other.
pub open spec fn source_text(s: Seq<SourceToken>) -> Seq<char>
    decreases s.len(),
{
    if s.len() == 0 {
        Seq::empty()
    } else {
        source_text(s.drop_last()) + s.last().text@
    }
}

/// The source of a value read from `c` up to `e`: where it stops at a `;`,
/// the position reached is the one right after the last token was handed
/// out, so a function or bracket there counts with its opening only.
pub open spec fn value_source(s: Seq<SourceToken>, c: int, e: int) -> Seq<char> {
    if c < e && e < s.len() {
        source_text(s.subrange(c, e - 1)) + s[e - 1].head@
    } else {
        source_text(s.subrange(c, e))
    }
}

/// The position after the first `;` at or after `p` (the end when there is
/// none).
pub open spec fn until_semicolon(k: Seq<CssToken>, p: int) -> int {
    let e = semicolon_from(k, p);
    if e < k.len() {
        e + 1
    } else {
        e
    }
}

/// One step of reading from `i` (not at the end): a name, `:` and a value
/// give a declaration unless the value is empty; a token that is not a
/// name, or a name without `:`, makes the reader skip past the next `;`.
/// Returns the declaration read, if any, and the position reached.
pub open spec fn declaration_step(s: Seq<SourceToken>, i: int) -> (Option<(Seq<char>, Seq<char>)>, int) {
    let k = kinds(s);
    let j = skip_ws(k, i);
    match next_tok(k, j) {
        Some((CssToken::Ident(n), j1)) => match next_tok(k, j1) {
            Some((CssToken::Colon, c)) => {
                let e = semicolon_from(k, c);
                let v = trim(value_source(s, c, e));
                (
                    if v.len() > 0 {
                        Some((n@, v))
                    } else {
                        None
                    },
                    if e < k.len() {
                        e + 1
                    } else {
                        e
                    },
                )
            },
            Some((_, c)) => (None, until_semicolon(k, c)),
            None => (None, k.len() as int),
        },
        _ => (None, until_semicolon(k, j)),
    }
}

/// The declarations read from position `i` to the end, in order.
pub open spec fn declarations_from(s: Seq<SourceToken>, i: int) -> Seq<(Seq<char>, Seq<char>)>
    decreases s.len() - i,
{
    if i < 0 || i >= s.len() || exhausted(kinds(s), i) {
        Seq::empty()
    } else {
        let (d, n) = declaration_step(s, i);
        let rest = if i < n <= s.len() {
            declarations_from(s, n)
        } else {
            Seq::empty()
        };
        match d {
            Some(p) => seq![p] + rest,
            None => rest,
        }
    }
}

/// The view of name/value pairs.
pub open spec fn pairs_view(v: Seq<(String, String)>) -> Seq<(Seq<char>, Seq<char>)> {
    v.map_values(|p: (String, String)| (p.0@, p.1@))
}

/// A step always moves forward and stays within the tokens.
pub proof fn lemma_step_advances(s: Seq<SourceToken>, i: int)
    requires
        0 <= i < s.len(),
        !exhausted(kinds(s), i),
    ensures
        i < declaration_step(s, i).1 <= s.len(),
{
    let k = kinds(s);
    lemma_skip_ws_bounds(k, i);
    let j = skip_ws(k, i);
    lemma_skip_ws_bounds(k, j);
    lemma_semicolon_bounds(k, j);
    lemma_next_tok_bounds(k, j);
    match next_tok(k, j) {
        Some((_, j1)) => {
            lemma_next_tok_bounds(k, j1);
            match next_tok(k, j1) {
                Some((_, c)) => {
                    lemma_semicolon_bounds(k, c);
                },
                None => {},
            }
        },
        None => {},
    }
}

/// Every declaration read has a value that is not empty.
pub proof fn lemma_values_not_empty(s: Seq<SourceToken>, i: int)
    ensures
        forall|m: int| 0 <= m < declarations_from(s, i).len() ==> #[trigger] declarations_from(s, i)[m].1.len() > 0,
    decreases s.len() - i,
{
    if i < 0 || i >= s.len() || exhausted(kinds(s), i) {
    } else {
        let (d, n) = declaration_step(s, i);
        if i < n <= s.len() {
            lemma_values_not_empty(s, n);
        }
        let rest = if i < n <= s.len() {
            declarations_from(s, n)
        } else {
            Seq::empty()
        };
        match d {
            Some(p) => {
                assert forall|m: int| 0 <= m < declarations_from(s, i).len() implies #[trigger] declarations_from(s, i)[m].1.len() > 0 by {
                    if m > 0 {
                        assert(declarations_from(s, i)[m] == rest[m - 1]);
                    }
                }
            },
            None => {},
        }
    }
}

/// `semicolon_from` stays between its start and the end.
pub proof fn lemma_semicolon_bounds(k: Seq<CssToken>, p: int)
    requires
        0 <= p <= k.len(),
    ensures
        p <= semicolon_from(k, p) <= k.len(),
        semicolon_from(k, p) < k.len() ==> k[semicolon_from(k, p)] is Semicolon,
    decreases k.len() - p,
{
    if p < k.len() && !(k[p] is Semicolon) {
        lemma_semicolon_bounds(k, p + 1);
    }
}

fn skip_source_ws(ts: &Vec<SourceToken>, i: usize) -> (r: usize)
    requires
        i <= ts@.len(),
    ensures
        r == skip_ws(kinds(ts@), i as int),
        i <= r <= ts@.len(),
{
    let ghost k = kinds(ts@);
    let mut j = i;
    while j < ts.len() && is_skipped(&ts[j].token)
        invariant
            i <= j <= ts@.len(),
            k == kinds(ts@),
            k.len() == ts@.len(),
            skip_ws(k, i as int) == skip_ws(k, j as int),
        decreases ts@.len() - j,
    {
        assert(k[j as int] == ts@[j as int].token);
        j = j + 1;
    }
    proof {
        if j < ts@.len() {
            assert(k[j as int] == ts@[j as int].token);
        }
    }
    j
}

fn find_source_semicolon(ts: &Vec<SourceToken>, p: usize) -> (e: usize)
    requires
        p <= ts@.len(),
    ensures
        e == semicolon_from(kinds(ts@), p as int),
        p <= e <= ts@.len(),
{
    let ghost k = kinds(ts@);
    let mut e = p;
    while e < ts.len()
        invariant
            p <= e <= ts@.len(),
            k == kinds(ts@),
            k.len() == ts@.len(),
            semicolon_from(k, p as int) == semicolon_from(k, e as int),
        decreases ts@.len() - e,
    {
        assert(k[e as int] == ts@[e as int].token);
        match &ts[e].token {
            CssToken::Semicolon => {
                return e;
            },
            _ => {},
        }
        e = e + 1;
    }
    e
}

/// Skips past the next `;` from `p`.
fn skip_until_semicolon(ts: &Vec<SourceToken>, p: usize) -> (r: usize)
    requires
        p <= ts@.len(),
    ensures
        r == until_semicolon(kinds(ts@), p as int),
        p <= r <= ts@.len(),
{
    let e = find_source_semicolon(ts, p);
    if e < ts.len() {
        e + 1
    } else {
        e
    }
}

fn append_texts(ts: &Vec<SourceToken>, from: usize, to: usize, out: &mut Vec<char>)
    requires
        from <= to <= ts@.len(),
    ensures
        final(out)@ == old(out)@ + source_text(ts@.subrange(from as int, to as int)),
{
    let mut m = from;
    assert(ts@.subrange(from as int, from as int) =~= Seq::<SourceToken>::empty());
    while m < to
        invariant
            from <= m <= to <= ts@.len(),
            out@ == old(out)@ + source_text(ts@.subrange(from as int, m as int)),
        decreases to - m,
    {
        let piece = chars_of(ts[m].text.as_str());
        push_chars(out, piece.as_slice());
        assert(ts@.subrange(from as int, m + 1).drop_last() =~= ts@.subrange(from as int, m as int));
        m = m + 1;
    }
}

/// The trimmed source of a value from `c` up to `e`.
fn value_text(ts: &Vec<SourceToken>, c: usize, e: usize) -> (r: Vec<char>)
    requires
        c <= e <= ts@.len(),
    ensures
        r@ == trim(value_source(ts@, c as int, e as int)),
{
    let mut raw: Vec<char> = Vec::new();
    if c < e && e < ts.len() {
        append_texts(ts, c, e - 1, &mut raw);
        let head = chars_of(ts[e - 1].head.as_str());
        push_chars(&mut raw, head.as_slice());
    } else {
        append_texts(ts, c, e, &mut raw);
    }
    assert(raw@ =~= value_source(ts@, c as int, e as int));
    trim_chars(raw.as_slice())
}

fn step(ts: &Vec<SourceToken>, i: usize) -> (r: (Option<(String, String)>, usize))
    requires
        i <= ts@.len(),
    ensures
        r.1 == declaration_step(ts@, i as int).1,
        match r.0 {
            Some(p) => declaration_step(ts@, i as int).0 == Some((p.0@, p.1@)),
            None => declaration_step(ts@, i as int).0.is_none(),
        },
{
    let ghost k = kinds(ts@);
    let j = skip_source_ws(ts, i);
    proof {
        lemma_skip_ws_bounds(k, j as int);
    }
    let j2 = skip_source_ws(ts, j);
    if j2 >= ts.len() {
        let n = skip_until_semicolon(ts, j);
        return (None, n);
    }
    assert(k[j2 as int] == ts@[j2 as int].token);
    match &ts[j2].token {
        CssToken::Ident(name) => {
            let j1 = j2 + 1;
            let c0 = skip_source_ws(ts, j1);
            if c0 >= ts.len() {
                return (None, ts.len());
            }
            assert(k[c0 as int] == ts@[c0 as int].token);
            match &ts[c0].token {
                CssToken::Colon => {
                    let c = c0 + 1;
                    let e = find_source_semicolon(ts, c);
                    let v = value_text(ts, c, e);
                    let n = if e < ts.len() {
                        e + 1
                    } else {
                        e
                    };
                    if v.len() > 0 {
                        (Some((name.clone(), string_from_chars(v.as_slice()))), n)
                    } else {
                        (None, n)
                    }
                },
                _ => {
                    let n = skip_until_semicolon(ts, c0 + 1);
                    (None, n)
                },
            }
        },
        _ => {
            let n = skip_until_semicolon(ts, j);
            (None, n)
        },
    }
}

/// Reads the declarations of a block, given its tokens with their source
/// texts: each is a name, `:` and a value up to the next `;` or the end,
/// kept with its value trimmed when that is not empty.  A token that does
/// not start a declaration, or a name without `:`, is skipped with all up
/// to the next `;`.
pub fn declaration_texts(ts: &Vec<SourceToken>) -> (r: Vec<(String, String)>)
    ensures
        pairs_view(r@) == declarations_from(ts@, 0),
        forall|m: int| 0 <= m < r@.len() ==> #[trigger] r@[m].1@.len() > 0,
{
    let mut out: Vec<(String, String)> = Vec::new();
    let mut i: usize = 0;
    while i < ts.len()
        invariant
            i <= ts@.len(),
            declarations_from(ts@, 0) == pairs_view(out@) + declarations_from(ts@, i as int),
        decreases ts@.len() - i,
    {
        let j = skip_source_ws(ts, i);
        if j >= ts.len() {
            assert(exhausted(kinds(ts@), i as int));
            assert(declarations_from(ts@, i as int) =~= Seq::<(Seq<char>, Seq<char>)>::empty());
            assert(pairs_view(out@) + Seq::<(Seq<char>, Seq<char>)>::empty() =~= pairs_view(out@));
            proof {
                lemma_pairs_not_empty(out@, ts@);
            }
            return out;
        }
        proof {
            lemma_step_advances(ts@, i as int);
        }
        let (d, n) = step(ts, i);
        let ghost before = out@;
        match d {
            Some(p) => {
                out.push(p);
                proof {
                    assert(pairs_view(out@) =~= pairs_view(before) + seq![(p.0@, p.1@)]);
                }
            },
            None => {},
        }
        proof {
            assert(pairs_view(out@) + declarations_from(ts@, n as int) =~= pairs_view(before)
                + declarations_from(ts@, i as int));
        }
        i = n;
    }
    assert(declarations_from(ts@, i as int) =~= Seq::<(Seq<char>, Seq<char>)>::empty());
    assert(pairs_view(out@) + Seq::<(Seq<char>, Seq<char>)>::empty() =~= pairs_view(out@));
    proof {
        lemma_pairs_not_empty(out@, ts@);
    }
    out
}

proof fn lemma_pairs_not_empty(out: Seq<(String, String)>, ts: Seq<SourceToken>)
    requires
        pairs_view(out) == declarations_from(ts, 0),
    ensures
        forall|m: int| 0 <= m < out.len() ==> #[trigger] out[m].1@.len() > 0,
{
    lemma_values_not_empty(ts, 0);
    assert forall|m: int| 0 <= m < out.len() implies #[trigger] out[m].1@.len() > 0 by {
        assert(pairs_view(out)[m] == (out[m].0@, out[m].1@));
        assert(declarations_from(ts, 0)[m].1.len() > 0);
    }
}

} // verus!
