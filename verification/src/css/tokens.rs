//! CSS tokens as plain values, and writing token lists back as CSS text.
//!
//! The tokenizer of the style-sheet parser produces these tokens; nested
//! blocks (functions and brackets) carry their contents.  Numbers carry the
//! text the tokenizer printed for their value.

use vstd::prelude::*;
use crate::text::{chars_of, string_from_chars, push_str, push_chars, trim, trim_chars};

verus! {

/// A CSS token.
#[derive(Debug)]
pub enum CssToken {
    Ident(String),
    AtKeyword(String),
    /// `#name` (both hash kinds).
    Hash(String),
    QuotedString(String),
    UnquotedUrl(String),
    BadUrl(String),
    BadString(String),
    Delim(char),
    Number { text: String, has_sign: bool, int_value: Option<i32> },
    Percentage { text: String },
    Dimension { text: String, unit: String },
    WhiteSpace,
    Comment,
    Colon,
    Semicolon,
    Comma,
    /// A token written as fixed text: `~=`, `|=`, `^=`, `$=`, `*=`, `<!--`,
    /// `-->`, or an unmatched closing bracket.
    Symbol(String),
    /// `name(` with the tokens up to the matching `)`.
    Function(String, Vec<CssToken>),
    /// `(`, `[` or `{` with the tokens up to the matching closing bracket.
    Block(char, Vec<CssToken>),
}

/// Whitespace and comments, which the parser steps over.
pub open spec fn skipped(t: CssToken) -> bool {
    t is WhiteSpace || t is Comment
}

/// The closing bracket of an opening one.
pub open spec fn closing(open: char) -> char {
    if open == '(' {
        ')'
    } else if open == '[' {
        ']'
    } else {
        '}'
    }
}

/// `s` with `"`, `\`, newline, carriage return and tab escaped.
pub open spec fn escaped(s: Seq<char>) -> Seq<char>
    decreases s.len(),
{
    if s.len() == 0 {
        s
    } else {
        escaped(s.drop_last()) + escaped_char(s.last())
    }
}

/// One character, escaped.
pub open spec fn escaped_char(c: char) -> Seq<char> {
    if c == '"' {
        "\\\""@
    } else if c == '\\' {
        "\\\\"@
    } else if c == '\n' {
        "\\n"@
    } else if c == '\r' {
        "\\r"@
    } else if c == '\t' {
        "\\t"@
    } else {
        seq![c]
    }
}

/// A space goes before this token when one of the spaced kinds precedes it.
pub open spec fn spaced_before(t: CssToken) -> bool {
    t is Ident || t is AtKeyword || t is Hash || t is Number || t is Percentage || t is Dimension || t is Function
}

/// A space goes after this token when one of the spaced kinds follows it.
pub open spec fn spaced_after(t: CssToken) -> bool {
    ||| t is Ident || t is AtKeyword || t is Hash || t is Number || t is Percentage || t is Dimension || t is Comma
    ||| (t matches CssToken::Symbol(s) && (s@ == ")"@ || s@ == "]"@ || s@ == "}"@))
}

/// The CSS text of one token.
pub open spec fn token_text(t: CssToken) -> Seq<char>
    decreases t,
{
    match t {
        CssToken::Ident(n) => n@,
        CssToken::AtKeyword(n) => "@"@ + n@,
        CssToken::Hash(n) => "#"@ + n@,
        CssToken::QuotedString(s) => "\""@ + escaped(s@) + "\""@,
        CssToken::UnquotedUrl(u) => "url("@ + u@ + ")"@,
        CssToken::BadUrl(u) => "url("@ + u@ + ")"@,
        CssToken::BadString(s) => "\""@ + s@ + "\""@,
        CssToken::Delim(c) => seq![c],
        CssToken::Number { text, .. } => text@,
        CssToken::Percentage { text } => text@ + "%"@,
        CssToken::Dimension { text, unit } => text@ + unit@,
        CssToken::WhiteSpace => " "@,
        CssToken::Comment => Seq::empty(),
        CssToken::Colon => ":"@,
        CssToken::Semicolon => ";"@,
        CssToken::Comma => ","@,
        CssToken::Symbol(s) => s@,
        CssToken::Function(n, inner) => n@ + "("@ + trim(tokens_text(inner@)) + ")"@,
        CssToken::Block(open, inner) => seq![open] + trim(tokens_text(inner@)) + seq![closing(open)],
    }
}

/// The last token of `s` that is not whitespace or a comment.
pub open spec fn last_significant(s: Seq<CssToken>) -> Option<CssToken>
    decreases s.len(),
{
    if s.len() == 0 {
        None
    } else if skipped(s.last()) {
        last_significant(s.drop_last())
    } else {
        Some(s.last())
    }
}

/// The tokens written out, whitespace and comments dropped, with a space
/// between two tokens where the kinds call for one.
pub open spec fn tokens_text(s: Seq<CssToken>) -> Seq<char>
    decreases s,
{
    if s.len() == 0 {
        Seq::empty()
    } else {
        let t = s[s.len() - 1];
        let rest = tokens_text(s.subrange(0, s.len() - 1));
        if skipped(t) {
            rest
        } else {
            let sep = match last_significant(s.subrange(0, s.len() - 1)) {
                Some(p) => spaced_after(p) && spaced_before(t),
                None => false,
            };
            rest + (if sep { " "@ } else { Seq::<char>::empty() }) + token_text(t)
        }
    }
}


/// `s` with `"`, `\`, newline, carriage return and tab escaped with a
/// backslash.
pub fn escape_string(s: &str) -> (r: String)
    ensures
        r@ == escaped(s@),
{
    let c = chars_of(s);
    let mut out: Vec<char> = Vec::new();
    let mut i: usize = 0;
    while i < c.len()
        invariant
            i <= c@.len(),
            c@ == s@,
            out@ == escaped(c@.take(i as int)),
        decreases c@.len() - i,
    {
        assert(c@.take(i + 1).drop_last() =~= c@.take(i as int));
        let ch = c[i];
        if ch == '"' {
            push_str(&mut out, "\\\"");
        } else if ch == '\\' {
            push_str(&mut out, "\\\\");
        } else if ch == '\n' {
            push_str(&mut out, "\\n");
        } else if ch == '\r' {
            push_str(&mut out, "\\r");
        } else if ch == '\t' {
            push_str(&mut out, "\\t");
        } else {
            out.push(ch);
        }
        i = i + 1;
    }
    assert(c@.take(c@.len() as int) =~= c@);
    string_from_chars(out.as_slice())
}

/// Whether a token is whitespace or a comment.
pub fn is_skipped(t: &CssToken) -> (r: bool)
    ensures
        r == skipped(*t),
{
    match t {
        CssToken::WhiteSpace | CssToken::Comment => true,
        _ => false,
    }
}

fn needs_separator_before(t: &CssToken) -> (r: bool)
    ensures
        r == spaced_before(*t),
{
    match t {
        CssToken::Ident(_) | CssToken::AtKeyword(_) | CssToken::Hash(_) | CssToken::Number { .. }
        | CssToken::Percentage { .. } | CssToken::Dimension { .. } | CssToken::Function(..) => true,
        _ => false,
    }
}

fn needs_separator_after(t: &CssToken) -> (r: bool)
    ensures
        r == spaced_after(*t),
{
    match t {
        CssToken::Ident(_) | CssToken::AtKeyword(_) | CssToken::Hash(_) | CssToken::Number { .. }
        | CssToken::Percentage { .. } | CssToken::Dimension { .. } | CssToken::Comma => true,
        CssToken::Symbol(s) => {
            let c = chars_of(s.as_str());
            crate::text::chars_are(c.as_slice(), ")") || crate::text::chars_are(c.as_slice(), "]")
                || crate::text::chars_are(c.as_slice(), "}")
        },
        _ => false,
    }
}

fn push_string(out: &mut Vec<char>, s: &String)
    ensures
        final(out)@ == old(out)@ + s@,
{
    let c = chars_of(s.as_str());
    push_chars(out, c.as_slice());
}

/// Appends the CSS text of one token.
fn serialize_token(out: &mut Vec<char>, t: &CssToken)
    ensures
        final(out)@ == old(out)@ + token_text(*t),
    decreases *t,
{
    match t {
        CssToken::Ident(n) => push_string(out, n),
        CssToken::AtKeyword(n) => {
            push_str(out, "@");
            push_string(out, n);
        },
        CssToken::Hash(n) => {
            push_str(out, "#");
            push_string(out, n);
        },
        CssToken::QuotedString(v) => {
            push_str(out, "\"");
            let e = escape_string(v.as_str());
            push_string(out, &e);
            push_str(out, "\"");
        },
        CssToken::UnquotedUrl(u) | CssToken::BadUrl(u) => {
            push_str(out, "url(");
            push_string(out, u);
            push_str(out, ")");
        },
        CssToken::BadString(v) => {
            push_str(out, "\"");
            push_string(out, v);
            push_str(out, "\"");
        },
        CssToken::Delim(c) => {
            out.push(*c);
        },
        CssToken::Number { text, .. } => push_string(out, text),
        CssToken::Percentage { text } => {
            push_string(out, text);
            push_str(out, "%");
        },
        CssToken::Dimension { text, unit } => {
            push_string(out, text);
            push_string(out, unit);
        },
        CssToken::WhiteSpace => push_str(out, " "),
        CssToken::Comment => {},
        CssToken::Colon => push_str(out, ":"),
        CssToken::Semicolon => push_str(out, ";"),
        CssToken::Comma => push_str(out, ","),
        CssToken::Symbol(v) => push_string(out, v),
        CssToken::Function(n, inner) => {
            push_string(out, n);
            push_str(out, "(");
            let body = tokens_raw(inner, 0, inner.len());
            assert(inner@.subrange(0, inner@.len() as int) =~= inner@);
            let tb = trim_chars(body.as_slice());
            push_chars(out, tb.as_slice());
            push_str(out, ")");
        },
        CssToken::Block(open, inner) => {
            out.push(*open);
            let body = tokens_raw(inner, 0, inner.len());
            assert(inner@.subrange(0, inner@.len() as int) =~= inner@);
            let tb = trim_chars(body.as_slice());
            push_chars(out, tb.as_slice());
            let close = if *open == '(' {
                ')'
            } else if *open == '[' {
                ']'
            } else {
                '}'
            };
            out.push(close);
        },
    }
}

/// The text of the tokens `ts[start..end]` (untrimmed).
fn tokens_raw(ts: &Vec<CssToken>, start: usize, end: usize) -> (r: Vec<char>)
    requires
        start <= end <= ts@.len(),
    ensures
        r@ == tokens_text(ts@.subrange(start as int, end as int)),
    decreases ts,
{
    let mut out: Vec<char> = Vec::new();
    let mut prev_spaced = false;
    let mut i: usize = start;
    assert(ts@.subrange(start as int, start as int) =~= Seq::<CssToken>::empty());
    while i < end
        invariant
            start <= i <= end,
            end <= ts@.len(),
            out@ == tokens_text(ts@.subrange(start as int, i as int)),
            prev_spaced == (match last_significant(ts@.subrange(start as int, i as int)) {
                Some(p) => spaced_after(p),
                None => false,
            }),
        decreases end - i,
    {
        let ghost before = ts@.subrange(start as int, i as int);
        let ghost now = ts@.subrange(start as int, i + 1);
        assert(now.subrange(0, now.len() - 1) =~= before);
        assert(now[now.len() - 1] == ts@[i as int]);
        assert(now.drop_last() =~= before);
        let t = &ts[i];
        if !is_skipped(t) {
            if prev_spaced && needs_separator_before(t) {
                push_str(&mut out, " ");
            }
            serialize_token(&mut out, t);
            prev_spaced = needs_separator_after(t);
        }
        i = i + 1;
    }
    out
}

/// Index of the first `;` at or after `i` (the length when there is none).
pub open spec fn semicolon_from(s: Seq<CssToken>, i: int) -> int
    decreases s.len() - i,
{
    if i >= s.len() {
        s.len() as int
    } else if s[i] is Semicolon {
        i
    } else {
        semicolon_from(s, i + 1)
    }
}

/// Where reading a value from `i` stops: at the first `;` when `until_semicolon`,
/// else at the end.
pub open spec fn value_end(s: Seq<CssToken>, i: int, until_semicolon: bool) -> int {
    if until_semicolon {
        semicolon_from(s, i)
    } else {
        s.len() as int
    }
}

/// The trimmed text of the tokens from `i` up to the first `;` (or the end),
/// and the position after that `;`.
pub open spec fn value_from(s: Seq<CssToken>, i: int, until_semicolon: bool) -> (Seq<char>, int) {
    let e = value_end(s, i, until_semicolon);
    (trim(tokens_text(s.subrange(i, e))), if e < s.len() { e + 1 } else { e })
}

/// Writes the tokens from position `start` back as CSS text, stopping after
/// the first `;` when `until_semicolon`: whitespace and comments dropped,
/// single spaces between words and numbers, the result trimmed.  Returns
/// the text and the position reached.
pub fn serialize_value_tokens(ts: &Vec<CssToken>, start: usize, until_semicolon: bool) -> (r: (String, usize))
    requires
        start <= ts@.len(),
    ensures
        (r.0@, r.1 as int) == value_from(ts@, start as int, until_semicolon),
        start <= r.1 <= ts@.len(),
{
    let e = if until_semicolon {
        find_semicolon(ts, start)
    } else {
        ts.len()
    };
    let raw = tokens_raw(ts, start, e);
    let t = trim_chars(raw.as_slice());
    let next = if e < ts.len() { e + 1 } else { e };
    (string_from_chars(t.as_slice()), next)
}

fn find_semicolon(ts: &Vec<CssToken>, start: usize) -> (e: usize)
    requires
        start <= ts@.len(),
    ensures
        e == semicolon_from(ts@, start as int),
        start <= e <= ts@.len(),
{
    let mut e: usize = start;
    while e < ts.len()
        invariant
            start <= e <= ts@.len(),
            semicolon_from(ts@, start as int) == semicolon_from(ts@, e as int),
        decreases ts@.len() - e,
    {
        match &ts[e] {
            CssToken::Semicolon => {
                return e;
            },
            _ => {},
        }
        e = e + 1;
    }
    e
}


/// The first position at or after `i` that is not whitespace or a comment.
pub open spec fn skip_ws(s: Seq<CssToken>, i: int) -> int
    decreases s.len() - i,
{
    if i >= s.len() {
        s.len() as int
    } else if skipped(s[i]) {
        skip_ws(s, i + 1)
    } else {
        i
    }
}

/// The next token after whitespace and comments, and the position after
/// it; `None` at the end.
pub open spec fn next_tok(s: Seq<CssToken>, i: int) -> Option<(CssToken, int)> {
    let j = skip_ws(s, i);
    if j >= s.len() {
        None
    } else {
        Some((s[j], j + 1))
    }
}

/// Only whitespace and comments are left from `i`.
pub open spec fn exhausted(s: Seq<CssToken>, i: int) -> bool {
    skip_ws(s, i) >= s.len()
}

/// Skipping moves forward and stays within the list.
pub proof fn lemma_skip_ws_bounds(s: Seq<CssToken>, i: int)
    requires
        0 <= i <= s.len(),
    ensures
        i <= skip_ws(s, i) <= s.len(),
        skip_ws(s, i) < s.len() ==> !skipped(s[skip_ws(s, i)]),
    decreases s.len() - i,
{
    if i < s.len() && skipped(s[i]) {
        lemma_skip_ws_bounds(s, i + 1);
    }
}

/// Reading a token moves past it.
pub proof fn lemma_next_tok_bounds(s: Seq<CssToken>, i: int)
    requires
        0 <= i <= s.len(),
    ensures
        next_tok(s, i) matches Some((_, k)) ==> i < k <= s.len(),
{
    lemma_skip_ws_bounds(s, i);
}

/// `skip_ws` on a token list.
pub fn skip_whitespace(ts: &Vec<CssToken>, i: usize) -> (r: usize)
    requires
        i <= ts@.len(),
    ensures
        r == skip_ws(ts@, i as int),
{
    let mut j = i;
    while j < ts.len() && is_skipped(&ts[j])
        invariant
            i <= j <= ts@.len(),
            skip_ws(ts@, i as int) == skip_ws(ts@, j as int),
        decreases ts@.len() - j,
    {
        j = j + 1;
    }
    j
}

/// `next_tok` on a token list: the token and the position after it.
pub fn next_token(ts: &Vec<CssToken>, i: usize) -> (r: Option<(&CssToken, usize)>)
    requires
        i <= ts@.len(),
    ensures
        match r {
            Some((t, k)) => next_tok(ts@, i as int) == Some((*t, k as int)),
            None => next_tok(ts@, i as int).is_none(),
        },
{
    let j = skip_whitespace(ts, i);
    proof {
        lemma_skip_ws_bounds(ts@, i as int);
    }
    if j >= ts.len() {
        None
    } else {
        Some((&ts[j], j + 1))
    }
}

} // verus!
