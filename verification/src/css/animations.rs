//! Keyword values of CSS animations, and the declarations of a keyframe.

use vstd::prelude::*;
use crate::css::properties::Property;
use crate::css::tokens::{
    CssToken, exhausted, next_tok, skip_ws, value_from, skip_whitespace, next_token, serialize_value_tokens,
    lemma_skip_ws_bounds, lemma_next_tok_bounds,
};

verus! {

/// `animation-direction`.
#[derive(Debug, Clone, Copy, PartialEq, Eq, Structural)]
pub enum AnimationDirection {
    Normal,
    Reverse,
    Alternate,
    AlternateReverse,
}

impl Default for AnimationDirection {
    fn default() -> (r: Self)
        ensures
            r == AnimationDirection::Normal,
    {
        AnimationDirection::Normal
    }
}

/// `animation-fill-mode`.
#[derive(Debug, Clone, Copy, PartialEq, Eq, Structural)]
pub enum AnimationFillMode {
    /// `none`.
    NoFill,
    Forwards,
    Backwards,
    Both,
}

impl Default for AnimationFillMode {
    fn default() -> (r: Self)
        ensures
            r == AnimationFillMode::NoFill,
    {
        AnimationFillMode::NoFill
    }
}

/// The `(name, value)` declarations of a keyframe block read from token
/// `i` on: a name, a colon and the value up to the next `;` (serialised);
/// empty values are dropped, and a token that does not start a declaration
/// is stepped over.
pub open spec fn keyframe_decls_from(s: Seq<CssToken>, i: int) -> Seq<(Seq<char>, Seq<char>)>
    decreases s.len() - i,
{
    if i < 0 || i > s.len() || exhausted(s, i) {
        Seq::empty()
    } else {
        match next_tok(s, i) {
            Some((CssToken::Ident(n), j)) => match next_tok(s, j) {
                Some((CssToken::Colon, k)) => {
                    let v = value_from(s, skip_ws(s, k), true);
                    let rest = if i < v.1 <= s.len() {
                        keyframe_decls_from(s, v.1)
                    } else {
                        Seq::empty()
                    };
                    if v.0.len() > 0 {
                        seq![(n@, v.0)] + rest
                    } else {
                        rest
                    }
                },
                Some((_, k)) => if i < k <= s.len() {
                    keyframe_decls_from(s, k)
                } else {
                    Seq::empty()
                },
                None => Seq::empty(),
            },
            Some((_, j)) => if i < j <= s.len() {
                keyframe_decls_from(s, j)
            } else {
                Seq::empty()
            },
            None => Seq::empty(),
        }
    }
}

/// The names and values of declarations.
pub open spec fn declared(ps: Seq<Property>) -> Seq<(Seq<char>, Seq<char>)> {
    ps.map_values(|p: Property| (p.name@, p.value@))
}

/// Reads the declarations inside one keyframe's `{ }` block from its
/// tokens; none of them is `!important`.
pub fn parse_keyframe_declarations(ts: &Vec<CssToken>) -> (r: Vec<Property>)
    ensures
        declared(r@) == keyframe_decls_from(ts@, 0),
        forall|k: int| 0 <= k < r@.len() ==> !(#[trigger] r@[k]).important,
{
    let mut out: Vec<Property> = Vec::new();
    let mut pos: usize = 0;
    proof {
        assert(declared(out@) + keyframe_decls_from(ts@, 0) =~= keyframe_decls_from(ts@, 0));
    }
    loop
        invariant
            pos <= ts@.len(),
            declared(out@) + keyframe_decls_from(ts@, pos as int) == keyframe_decls_from(ts@, 0),
            forall|k: int| 0 <= k < out@.len() ==> !(#[trigger] out@[k]).important,
        decreases ts@.len() - pos,
    {
        let ghost here = pos as int;
        let j0 = skip_whitespace(ts, pos);
        if j0 >= ts.len() {
            proof {
                assert(declared(out@) + Seq::<(Seq<char>, Seq<char>)>::empty() =~= declared(out@));
            }
            return out;
        }
        proof {
            lemma_next_tok_bounds(ts@, pos as int);
        }
        match next_token(ts, pos) {
            Some((CssToken::Ident(n), j)) => {
                proof {
                    lemma_next_tok_bounds(ts@, j as int);
                }
                match next_token(ts, j) {
                    Some((CssToken::Colon, k)) => {
                        let start = skip_whitespace(ts, k);
                        proof {
                            lemma_skip_ws_bounds(ts@, k as int);
                        }
                        let (value, e) = serialize_value_tokens(ts, start, true);
                        let ghost before = declared(out@);
                        let vc = crate::text::chars_of(value.as_str());
                        if vc.len() > 0 {
                            out.push(Property { name: n.clone(), value, important: false });
                            proof {
                                assert(declared(out@) =~= before.push((n@, value@)));
                                assert(before + (seq![(n@, value@)] + keyframe_decls_from(ts@, e as int))
                                    =~= declared(out@) + keyframe_decls_from(ts@, e as int));
                            }
                        } else {
                            proof {
                                assert(value@.len() == 0);
                            }
                        }
                        pos = e;
                    },
                    Some((_, k)) => {
                        pos = k;
                    },
                    None => {
                        proof {
                            assert(declared(out@) + Seq::<(Seq<char>, Seq<char>)>::empty() =~= declared(out@));
                        }
                        return out;
                    },
                }
            },
            Some((_, j)) => {
                pos = j;
            },
            None => {
                return out;
            },
        }
    }
}

} // verus!
