//! The change-language parser: from a token sequence to attribute texts,
//! visibilities, type-expression texts and the four domains' operation
//! lists, with a positioned error for malformed text.
//!
//! Each executable parser mirrors a specification function over the token
//! views; the grammar is the specification.

use vstd::prelude::*;

use crate::generic::{view_generic_ops, GenericChange, GenericChangeV};
use crate::map_enum::MapEnumV;
use crate::map_struct::MapStructV;
use crate::model::{
    clone_bytes, view_fields, ChangeError, FieldSpec, FieldV, GenericParamSpec, GenericV, Shape,
    ShapeV, VariantSpec, VariantV, VisV, Visibility,
};
use crate::named_field_change::{view_named_ops, NamedChangeV, NamedFieldChange};
use crate::unnamed_field_change::{view_unnamed_ops, UnnamedChangeV, UnnamedFieldChange};
use crate::variant::{view_variant_ops, VariantChange, VariantChangeV};
use crate::token::{view_tokens, TokKind, Token, TokenV};

verus! {

/// The text of the keyword `pub`.
pub open spec fn kw_pub() -> Seq<u8> {
    seq![112u8, 117u8, 98u8]
}

/// The text of the keyword `struct`.
pub open spec fn kw_struct() -> Seq<u8> {
    seq![115u8, 116u8, 114u8, 117u8, 99u8, 116u8]
}

/// The text of the keyword `enum`.
pub open spec fn kw_enum() -> Seq<u8> {
    seq![101u8, 110u8, 117u8, 109u8]
}

/// The text of the keyword `const`.
pub open spec fn kw_const() -> Seq<u8> {
    seq![99u8, 111u8, 110u8, 115u8, 116u8]
}

/// Whether the token at `i` is the single punctuation byte `c`.
pub open spec fn tok_punct(toks: Seq<TokenV>, i: int, c: u8) -> bool {
    0 <= i < toks.len() && toks[i].text == seq![c]
}

/// Whether the token at `i` is the arrow `->`.
pub open spec fn tok_arrow(toks: Seq<TokenV>, i: int) -> bool {
    0 <= i < toks.len() && toks[i].text == seq![45u8, 62u8]
}

/// Whether the token at `i` is an identifier-kind token with the given
/// text.
pub open spec fn tok_kw(toks: Seq<TokenV>, i: int, kw: Seq<u8>) -> bool {
    0 <= i < toks.len() && toks[i].kind == TokKind::Ident && toks[i].text == kw
}

/// Whether the token at `i` is an identifier-kind token.
pub open spec fn tok_ident(toks: Seq<TokenV>, i: int) -> bool {
    0 <= i < toks.len() && toks[i].kind == TokKind::Ident
}

/// Whether the token at `i` is a lone underscore.
pub open spec fn tok_underscore(toks: Seq<TokenV>, i: int) -> bool {
    tok_kw(toks, i, seq![95u8])
}

/// The byte offset to report an error at index `i`: the token's own
/// offset, or the last token's at the end of the input.
pub open spec fn pos_at(toks: Seq<TokenV>, i: int) -> int {
    if 0 <= i < toks.len() {
        toks[i].pos
    } else if toks.len() > 0 {
        toks[toks.len() - 1].pos
    } else {
        0
    }
}

/// The texts of the tokens between `i` and `e`, joined with single
/// spaces: the canonical spelling of a type expression or a declaration.
pub open spec fn join_text(toks: Seq<TokenV>, i: int, e: int) -> Seq<u8>
    decreases e - i,
{
    if e <= i || i < 0 || e > toks.len() {
        Seq::empty()
    } else if e == i + 1 {
        toks[i].text
    } else {
        join_text(toks, i, e - 1) + seq![32u8] + toks[e - 1].text
    }
}

/// How a token changes the bracket depth: openers count up, closers count
/// down, everything else not at all.
pub open spec fn type_delta(t: Seq<u8>) -> int {
    if t == seq![40u8] || t == seq![91u8] || t == seq![123u8] || t == seq![60u8] {
        1
    } else if t == seq![41u8] || t == seq![93u8] || t == seq![125u8] || t == seq![62u8] {
        -1
    } else {
        0
    }
}

/// A token that ends a type expression at bracket depth zero: a comma or
/// any closer, and the arrow where the grammar splits on it.
pub open spec fn is_type_stop(t: Seq<u8>, stop_arrow: bool) -> bool {
    t == seq![44u8] || t == seq![41u8] || t == seq![125u8] || t == seq![62u8] || t == seq![93u8]
        || (stop_arrow && t == seq![45u8, 62u8])
}

/// The first index at or after `i` where a type expression beginning at
/// depth `depth` ends.
pub open spec fn type_end(toks: Seq<TokenV>, i: int, depth: int, stop_arrow: bool) -> int
    decreases toks.len() - i,
{
    if i < 0 || i >= toks.len() {
        if i < 0 {
            0
        } else {
            i
        }
    } else if depth == 0 && is_type_stop(toks[i].text, stop_arrow) {
        i
    } else {
        let d = depth + type_delta(toks[i].text);
        if d < 0 {
            i
        } else {
            type_end(toks, i + 1, d, stop_arrow)
        }
    }
}

/// A parsed type expression: its canonical text and the index just past
/// it; a position when no token belongs to the type at all.
pub open spec fn parse_type(toks: Seq<TokenV>, i: int, stop_arrow: bool) -> Result<
    (Seq<u8>, int),
    int,
> {
    let e = type_end(toks, i, 0, stop_arrow);
    if e <= i {
        Err(pos_at(toks, i))
    } else {
        Ok((join_text(toks, i, e), e))
    }
}

/// A parsed visibility: nothing, `pub`, or `pub(...)` with the restriction
/// text; a position when the restriction never closes.
pub open spec fn parse_vis(toks: Seq<TokenV>, i: int) -> Result<(VisV, int), int> {
    if tok_kw(toks, i, kw_pub()) {
        if tok_punct(toks, i + 1, 40) {
            match find_punct(toks, i + 2, 41) {
                Some(e) => Ok((VisV::Restricted(join_text(toks, i + 2, e)), e + 1)),
                None => Err(pos_at(toks, i + 1)),
            }
        } else {
            Ok((VisV::Public, i + 1))
        }
    } else {
        Ok((VisV::Inherited, i))
    }
}

/// The first index at or after `i` whose token is the punctuation byte
/// `c`.
pub open spec fn find_punct(toks: Seq<TokenV>, i: int, c: u8) -> Option<int>
    decreases toks.len() - i,
{
    if i < 0 || i >= toks.len() {
        None
    } else if toks[i].text == seq![c] {
        Some(i)
    } else {
        find_punct(toks, i + 1, c)
    }
}

/// The index of the `]` that closes an attribute whose body starts at `i`
/// with bracket depth `depth`.
pub open spec fn bracket_end(toks: Seq<TokenV>, i: int, depth: int) -> Option<int>
    decreases toks.len() - i,
{
    if i < 0 || i >= toks.len() {
        None
    } else if depth == 0 && toks[i].text == seq![93u8] {
        Some(i)
    } else {
        let d = depth + type_delta(toks[i].text);
        if d < 0 {
            None
        } else {
            bracket_end(toks, i + 1, d)
        }
    }
}

/// The parsed outer attributes from `i` on: each one's inner text, and
/// the index just past them.
pub open spec fn parse_attrs(toks: Seq<TokenV>, i: int) -> Result<(Seq<Seq<u8>>, int), int>
    decreases toks.len() - i,
{
    if tok_punct(toks, i, 35) {
        if tok_punct(toks, i + 1, 91) {
            match bracket_end(toks, i + 2, 0) {
                Some(e) => {
                    if e < i + 2 || e >= toks.len() {
                        Err(pos_at(toks, i + 1))
                    } else {
                        match parse_attrs(toks, e + 1) {
                            Ok((rest, j)) => Ok((seq![join_text(toks, i + 2, e)] + rest, j)),
                            Err(p) => Err(p),
                        }
                    }
                },
                None => Err(pos_at(toks, i + 1)),
            }
        } else {
            Err(pos_at(toks, i + 1))
        }
    } else {
        Ok((Seq::empty(), i))
    }
}

/// Whether the token at `i` is the single punctuation byte `c`.
pub fn e_tok_punct(toks: &Vec<Token>, i: usize, c: u8) -> (r: bool)
    ensures
        r == tok_punct(view_tokens(toks@), i as int, c),
{
    if i < toks.len() {
        let t = &toks[i].text;
        if t.len() == 1 && t[0] == c {
            proof {
                assert(toks@[i as int]@.text =~= seq![c]);
            }
            true
        } else {
            proof {
                if view_tokens(toks@)[i as int].text == seq![c] {
                    assert(t@.len() == 1 && t@[0] == c);
                }
            }
            false
        }
    } else {
        false
    }
}

/// Whether the token at `i` is the arrow.
pub fn e_tok_arrow(toks: &Vec<Token>, i: usize) -> (r: bool)
    ensures
        r == tok_arrow(view_tokens(toks@), i as int),
{
    if i < toks.len() {
        let t = &toks[i].text;
        if t.len() == 2 && t[0] == 45 && t[1] == 62 {
            proof {
                assert(toks@[i as int]@.text =~= seq![45u8, 62u8]);
            }
            true
        } else {
            proof {
                if view_tokens(toks@)[i as int].text == seq![45u8, 62u8] {
                    assert(t@.len() == 2 && t@[0] == 45 && t@[1] == 62);
                }
            }
            false
        }
    } else {
        false
    }
}

/// Whether the token at `i` is an identifier-kind token.
pub fn e_tok_ident(toks: &Vec<Token>, i: usize) -> (r: bool)
    ensures
        r == tok_ident(view_tokens(toks@), i as int),
{
    i < toks.len() && matches!(toks[i].kind, TokKind::Ident)
}

/// The byte offset to report for an error at index `i`.
pub fn e_pos_at(toks: &Vec<Token>, i: usize) -> (r: usize)
    ensures
        r as int == pos_at(view_tokens(toks@), i as int),
{
    if i < toks.len() {
        toks[i].pos
    } else if toks.len() > 0 {
        toks[toks.len() - 1].pos
    } else {
        0
    }
}

/// Appends one byte string to another.
fn push_bytes(acc: &mut Vec<u8>, t: &Vec<u8>)
    ensures
        final(acc)@ == old(acc)@ + t@,
{
    let mut k: usize = 0;
    while k < t.len()
        invariant
            k <= t.len(),
            acc@ == old(acc)@ + t@.take(k as int),
        decreases t.len() - k,
    {
        acc.push(t[k]);
        proof {
            assert(old(acc)@ + t@.take(k as int + 1) =~= (old(acc)@ + t@.take(k as int)).push(
                t@[k as int],
            ));
        }
        k = k + 1;
    }
    proof {
        assert(t@.take(t@.len() as int) =~= t@);
        assert(acc@ =~= old(acc)@ + t@);
    }
}

/// The texts of the tokens between `i` and `e`, joined with single
/// spaces.
fn e_join_text(toks: &Vec<Token>, i: usize, e: usize) -> (r: Vec<u8>)
    requires
        i <= e <= toks.len(),
    ensures
        r@ == join_text(view_tokens(toks@), i as int, e as int),
{
    let mut r: Vec<u8> = Vec::new();
    let mut k = i;
    while k < e
        invariant
            i <= k <= e <= toks.len(),
            r@ == join_text(view_tokens(toks@), i as int, k as int),
        decreases e - k,
    {
        let ghost r0 = r@;
        if k > i {
            r.push(32);
            push_bytes(&mut r, &toks[k].text);
            proof {
                assert(r@ =~= (r0 + seq![32u8]) + toks@[k as int]@.text);
                assert(r@ =~= join_text(view_tokens(toks@), i as int, k as int + 1));
            }
        } else {
            push_bytes(&mut r, &toks[k].text);
            proof {
                assert(Seq::<u8>::empty() + toks@[k as int]@.text =~= toks@[k as int]@.text);
                assert(r@ =~= join_text(view_tokens(toks@), i as int, k as int + 1));
            }
        }
        k = k + 1;
    }
    r
}

/// The first index at or after `i` where a type expression ends.
fn e_type_end(toks: &Vec<Token>, i: usize, stop_arrow: bool) -> (r: usize)
    requires
        i <= toks.len(),
    ensures
        r as int == type_end(view_tokens(toks@), i as int, 0, stop_arrow),
        i <= r <= toks.len(),
{
    let ghost v = view_tokens(toks@);
    let mut k = i;
    let mut depth: usize = 0;
    while k < toks.len()
        invariant
            i <= k <= toks.len(),
            v == view_tokens(toks@),
            depth as int <= k - i,
            type_end(v, i as int, 0, stop_arrow) == type_end(v, k as int, depth as int,
                stop_arrow,
            ),
        decreases toks.len() - k,
    {
        let is_stop = e_tok_punct(toks, k, 44) || e_tok_punct(toks, k, 41) || e_tok_punct(
            toks,
            k,
            125,
        ) || e_tok_punct(toks, k, 62) || e_tok_punct(toks, k, 93) || (stop_arrow && e_tok_arrow(
            toks,
            k,
        ));
        if depth == 0 && is_stop {
            return k;
        }
        let opens = e_tok_punct(toks, k, 40) || e_tok_punct(toks, k, 91) || e_tok_punct(
            toks,
            k,
            123,
        ) || e_tok_punct(toks, k, 60);
        let closes = e_tok_punct(toks, k, 41) || e_tok_punct(toks, k, 93) || e_tok_punct(
            toks,
            k,
            125,
        ) || e_tok_punct(toks, k, 62);
        if opens {
            depth = depth + 1;
        } else if closes {
            if depth == 0 {
                return k;
            }
            depth = depth - 1;
        }
        k = k + 1;
    }
    k
}


/// A parsed named-field operation and the index just past it.
pub open spec fn parse_named_op(toks: Seq<TokenV>, i: int) -> Result<(NamedChangeV, int), int> {
    if tok_punct(toks, i, 43) {
        match parse_vis(toks, i + 1) {
            Err(p) => Err(p),
            Ok((vis, i2)) => {
                if !tok_ident(toks, i2) {
                    Err(pos_at(toks, i2))
                } else if !tok_punct(toks, i2 + 1, 58) {
                    Err(pos_at(toks, i2 + 1))
                } else {
                    match parse_type(toks, i2 + 2, false) {
                        Err(p) => Err(p),
                        Ok((ty, i3)) => Ok(
                            (NamedChangeV::Add { visibility: vis, ident: toks[i2].text, ty }, i3),
                        ),
                    }
                }
            },
        }
    } else if tok_punct(toks, i, 45) {
        if !tok_ident(toks, i + 1) {
            Err(pos_at(toks, i + 1))
        } else if tok_punct(toks, i + 2, 58) {
            match parse_type(toks, i + 3, false) {
                Err(p) => Err(p),
                Ok((ty, i3)) => Ok(
                    (NamedChangeV::Remove { ident: toks[i + 1].text, ty: Some(ty) }, i3),
                ),
            }
        } else {
            Ok((NamedChangeV::Remove { ident: toks[i + 1].text, ty: None }, i + 2))
        }
    } else if tok_punct(toks, i, 126) {
        match parse_vis(toks, i + 1) {
            Err(p) => Err(p),
            Ok((vis, i2)) => {
                if !tok_ident(toks, i2) {
                    Err(pos_at(toks, i2))
                } else {
                    let from = toks[i2].text;
                    if tok_punct(toks, i2 + 1, 58) {
                        match parse_type(toks, i2 + 2, false) {
                            Err(p) => Err(p),
                            Ok((ty, i3)) => Ok(
                                (
                                    NamedChangeV::Change {
                                        visibility: vis,
                                        ident: from,
                                        to: None,
                                        ty: Some(ty),
                                    },
                                    i3,
                                ),
                            ),
                        }
                    } else if tok_arrow(toks, i2 + 1) {
                        if !(vis is Inherited) {
                            Err(pos_at(toks, i2 + 1))
                        } else {
                            match parse_vis(toks, i2 + 2) {
                                Err(p) => Err(p),
                                Ok((vis2, i3)) => {
                                    if !tok_ident(toks, i3) {
                                        Err(pos_at(toks, i3))
                                    } else {
                                        let to = toks[i3].text;
                                        if tok_punct(toks, i3 + 1, 58) {
                                            match parse_type(toks, i3 + 2, false) {
                                                Err(p) => Err(p),
                                                Ok((ty, i4)) => Ok(
                                                    (
                                                        NamedChangeV::Change {
                                                            visibility: vis2,
                                                            ident: from,
                                                            to: Some(to),
                                                            ty: Some(ty),
                                                        },
                                                        i4,
                                                    ),
                                                ),
                                            }
                                        } else {
                                            Ok(
                                                (
                                                    NamedChangeV::Change {
                                                        visibility: vis2,
                                                        ident: from,
                                                        to: Some(to),
                                                        ty: None,
                                                    },
                                                    i3 + 1,
                                                ),
                                            )
                                        }
                                    }
                                },
                            }
                        }
                    } else {
                        Ok(
                            (
                                NamedChangeV::Change {
                                    visibility: vis,
                                    ident: from,
                                    to: None,
                                    ty: None,
                                },
                                i2 + 1,
                            ),
                        )
                    }
                }
            },
        }
    } else {
        Err(pos_at(toks, i))
    }
}

/// The parsed named-field operations from `i` on, separated by commas
/// with an optional trailing one, up to a closing brace or the input's
/// end.
pub open spec fn parse_named_ops(toks: Seq<TokenV>, i: int) -> Result<(Seq<NamedChangeV>, int), int>
    decreases toks.len() - i,
{
    if i < 0 {
        Err(0)
    } else if i >= toks.len() || tok_punct(toks, i, 125) {
        Ok((Seq::empty(), i))
    } else {
        match parse_named_op(toks, i) {
            Err(p) => Err(p),
            Ok((op, j)) => {
                if j <= i || j > toks.len() {
                    Err(pos_at(toks, i))
                } else if tok_punct(toks, j, 44) {
                    match parse_named_ops(toks, j + 1) {
                        Err(p) => Err(p),
                        Ok((rest, e)) => Ok((seq![op] + rest, e)),
                    }
                } else {
                    Ok((seq![op], j))
                }
            },
        }
    }
}

/// A parsed positional operation and the index just past it.
pub open spec fn parse_unnamed_op(toks: Seq<TokenV>, i: int) -> Result<(UnnamedChangeV, int), int> {
    if tok_punct(toks, i, 43) {
        match parse_vis(toks, i + 1) {
            Err(p) => Err(p),
            Ok((vis, i2)) => match parse_type(toks, i2, true) {
                Err(p) => Err(p),
                Ok((ty, i3)) => Ok((UnnamedChangeV::Add { visibility: vis, ty }, i3)),
            },
        }
    } else if tok_punct(toks, i, 45) {
        if tok_underscore(toks, i + 1) {
            Ok((UnnamedChangeV::Remove { ty: None }, i + 2))
        } else {
            match parse_type(toks, i + 1, true) {
                Err(p) => Err(p),
                Ok((ty, i2)) => Ok((UnnamedChangeV::Remove { ty: Some(ty) }, i2)),
            }
        }
    } else if tok_punct(toks, i, 126) {
        match parse_type(toks, i + 1, true) {
            Err(p) => Err(p),
            Ok((ty, i2)) => Ok((UnnamedChangeV::Retype { old_type: None, new_type: ty }, i2)),
        }
    } else if tok_underscore(toks, i) {
        if tok_arrow(toks, i + 1) {
            match parse_type(toks, i + 2, true) {
                Err(p) => Err(p),
                Ok((ty, i2)) => Ok((UnnamedChangeV::Retype { old_type: None, new_type: ty }, i2)),
            }
        } else {
            Ok((UnnamedChangeV::Match { ty: None }, i + 1))
        }
    } else {
        match parse_type(toks, i, true) {
            Err(p) => Err(p),
            Ok((ty1, i2)) => {
                if tok_arrow(toks, i2) {
                    match parse_type(toks, i2 + 1, true) {
                        Err(p) => Err(p),
                        Ok((ty2, i3)) => Ok(
                            (UnnamedChangeV::Retype { old_type: Some(ty1), new_type: ty2 }, i3),
                        ),
                    }
                } else {
                    Ok((UnnamedChangeV::Match { ty: Some(ty1) }, i2))
                }
            },
        }
    }
}

/// The parsed positional operations from `i` on, separated by commas with
/// an optional trailing one, up to a closing parenthesis or the input's
/// end.
pub open spec fn parse_unnamed_ops(toks: Seq<TokenV>, i: int) -> Result<
    (Seq<UnnamedChangeV>, int),
    int,
>
    decreases toks.len() - i,
{
    if i < 0 {
        Err(0)
    } else if i >= toks.len() || tok_punct(toks, i, 41) {
        Ok((Seq::empty(), i))
    } else {
        match parse_unnamed_op(toks, i) {
            Err(p) => Err(p),
            Ok((op, j)) => {
                if j <= i || j > toks.len() {
                    Err(pos_at(toks, i))
                } else if tok_punct(toks, j, 44) {
                    match parse_unnamed_ops(toks, j + 1) {
                        Err(p) => Err(p),
                        Ok((rest, e)) => Ok((seq![op] + rest, e)),
                    }
                } else {
                    Ok((seq![op], j))
                }
            },
        }
    }
}

/// A parsed positional field of a variant declaration: an optional
/// visibility and a type.
pub open spec fn parse_tuple_field(toks: Seq<TokenV>, i: int) -> Result<(FieldV, int), int> {
    match parse_vis(toks, i) {
        Err(p) => Err(p),
        Ok((vis, i2)) => match parse_type(toks, i2, false) {
            Err(p) => Err(p),
            Ok((ty, i3)) => Ok((FieldV { vis, name: None, ty }, i3)),
        },
    }
}

/// The parsed positional fields of a variant declaration from `i` on, up
/// to a closing parenthesis or the input's end.
pub open spec fn parse_tuple_fields(toks: Seq<TokenV>, i: int) -> Result<(Seq<FieldV>, int), int>
    decreases toks.len() - i,
{
    if i < 0 {
        Err(0)
    } else if i >= toks.len() || tok_punct(toks, i, 41) {
        Ok((Seq::empty(), i))
    } else {
        match parse_tuple_field(toks, i) {
            Err(p) => Err(p),
            Ok((f, j)) => {
                if j <= i || j > toks.len() {
                    Err(pos_at(toks, i))
                } else if tok_punct(toks, j, 44) {
                    match parse_tuple_fields(toks, j + 1) {
                        Err(p) => Err(p),
                        Ok((rest, e)) => Ok((seq![f] + rest, e)),
                    }
                } else {
                    Ok((seq![f], j))
                }
            },
        }
    }
}

/// A parsed named field of a variant declaration: an optional visibility,
/// a name, a colon and a type.
pub open spec fn parse_named_field(toks: Seq<TokenV>, i: int) -> Result<(FieldV, int), int> {
    match parse_vis(toks, i) {
        Err(p) => Err(p),
        Ok((vis, i2)) => {
            if !tok_ident(toks, i2) {
                Err(pos_at(toks, i2))
            } else if !tok_punct(toks, i2 + 1, 58) {
                Err(pos_at(toks, i2 + 1))
            } else {
                match parse_type(toks, i2 + 2, false) {
                    Err(p) => Err(p),
                    Ok((ty, i3)) => Ok((FieldV { vis, name: Some(toks[i2].text), ty }, i3)),
                }
            }
        },
    }
}

/// The parsed named fields of a variant declaration from `i` on, up to a
/// closing brace or the input's end.
pub open spec fn parse_named_fields(toks: Seq<TokenV>, i: int) -> Result<(Seq<FieldV>, int), int>
    decreases toks.len() - i,
{
    if i < 0 {
        Err(0)
    } else if i >= toks.len() || tok_punct(toks, i, 125) {
        Ok((Seq::empty(), i))
    } else {
        match parse_named_field(toks, i) {
            Err(p) => Err(p),
            Ok((f, j)) => {
                if j <= i || j > toks.len() {
                    Err(pos_at(toks, i))
                } else if tok_punct(toks, j, 44) {
                    match parse_named_fields(toks, j + 1) {
                        Err(p) => Err(p),
                        Ok((rest, e)) => Ok((seq![f] + rest, e)),
                    }
                } else {
                    Ok((seq![f], j))
                }
            },
        }
    }
}

/// A parsed whole variant declaration: a name and a unit, positional or
/// named shape.
pub open spec fn parse_variant_decl(toks: Seq<TokenV>, i: int) -> Result<(VariantV, int), int> {
    if !tok_ident(toks, i) {
        Err(pos_at(toks, i))
    } else {
        let name = toks[i].text;
        if tok_punct(toks, i + 1, 40) {
            match parse_tuple_fields(toks, i + 2) {
                Err(p) => Err(p),
                Ok((fs, e)) => {
                    if tok_punct(toks, e, 41) {
                        Ok((VariantV { name, shape: ShapeV::Positional(fs) }, e + 1))
                    } else {
                        Err(pos_at(toks, e))
                    }
                },
            }
        } else if tok_punct(toks, i + 1, 123) {
            match parse_named_fields(toks, i + 2) {
                Err(p) => Err(p),
                Ok((fs, e)) => {
                    if tok_punct(toks, e, 125) {
                        Ok((VariantV { name, shape: ShapeV::Named(fs) }, e + 1))
                    } else {
                        Err(pos_at(toks, e))
                    }
                },
            }
        } else {
            Ok((VariantV { name, shape: ShapeV::Unit }, i + 1))
        }
    }
}

/// A parsed variant operation and the index just past it.
pub open spec fn parse_variant_op(toks: Seq<TokenV>, i: int) -> Result<(VariantChangeV, int), int> {
    if tok_punct(toks, i, 43) {
        match parse_variant_decl(toks, i + 1) {
            Err(p) => Err(p),
            Ok((v, e)) => Ok((VariantChangeV::Add(v), e)),
        }
    } else if tok_punct(toks, i, 45) {
        if !tok_ident(toks, i + 1) {
            Err(pos_at(toks, i + 1))
        } else {
            Ok((VariantChangeV::Remove(toks[i + 1].text), i + 2))
        }
    } else if tok_punct(toks, i, 126) {
        if !tok_ident(toks, i + 1) {
            Err(pos_at(toks, i + 1))
        } else {
            let from = toks[i + 1].text;
            let has_to = tok_arrow(toks, i + 2) && tok_ident(toks, i + 3);
            if tok_arrow(toks, i + 2) && !tok_ident(toks, i + 3) {
                Err(pos_at(toks, i + 3))
            } else {
                let to = if has_to {
                    Some(toks[i + 3].text)
                } else {
                    None
                };
                let j = if has_to {
                    i + 4
                } else {
                    i + 2
                };
                if tok_punct(toks, j, 40) {
                    match parse_unnamed_ops(toks, j + 1) {
                        Err(p) => Err(p),
                        Ok((ops, e)) => {
                            if tok_punct(toks, e, 41) {
                                Ok((VariantChangeV::TupleRetype(from, to, ops), e + 1))
                            } else {
                                Err(pos_at(toks, e))
                            }
                        },
                    }
                } else if tok_punct(toks, j, 123) {
                    match parse_named_ops(toks, j + 1) {
                        Err(p) => Err(p),
                        Ok((ops, e)) => {
                            if tok_punct(toks, e, 125) {
                                Ok((VariantChangeV::StructRetype(from, to, ops), e + 1))
                            } else {
                                Err(pos_at(toks, e))
                            }
                        },
                    }
                } else if has_to {
                    Ok((VariantChangeV::Rename(from, toks[i + 3].text), j))
                } else {
                    Err(pos_at(toks, j))
                }
            }
        }
    } else if tok_ident(toks, i) && tok_arrow(toks, i + 1) {
        let from = toks[i].text;
        match parse_variant_decl(toks, i + 2) {
            Err(p) => Err(p),
            Ok((v, e)) => Ok((VariantChangeV::Replace(Some(from), v), e)),
        }
    } else {
        match parse_variant_decl(toks, i) {
            Err(p) => Err(p),
            Ok((v, e)) => Ok((VariantChangeV::Replace(None, v), e)),
        }
    }
}

/// The parsed variant operations from `i` on, separated by commas with an
/// optional trailing one, up to a closing brace or the input's end.
pub open spec fn parse_variant_ops(toks: Seq<TokenV>, i: int) -> Result<
    (Seq<VariantChangeV>, int),
    int,
>
    decreases toks.len() - i,
{
    if i < 0 {
        Err(0)
    } else if i >= toks.len() || tok_punct(toks, i, 125) {
        Ok((Seq::empty(), i))
    } else {
        match parse_variant_op(toks, i) {
            Err(p) => Err(p),
            Ok((op, j)) => {
                if j <= i || j > toks.len() {
                    Err(pos_at(toks, i))
                } else if tok_punct(toks, j, 44) {
                    match parse_variant_ops(toks, j + 1) {
                        Err(p) => Err(p),
                        Ok((rest, e)) => Ok((seq![op] + rest, e)),
                    }
                } else {
                    Ok((seq![op], j))
                }
            },
        }
    }
}

/// A parsed generic-parameter operation and the index just past it. An
/// add holds a whole parameter declaration, whose identifier is the
/// lifetime's name, the const parameter's name, or the type parameter
/// itself.
pub open spec fn parse_generic_op(toks: Seq<TokenV>, i: int) -> Result<(GenericChangeV, int), int> {
    if tok_punct(toks, i, 43) {
        let e = type_end(toks, i + 1, 0, false);
        if e <= i + 1 {
            Err(pos_at(toks, i + 1))
        } else if 0 <= i + 1 < toks.len() && toks[i + 1].kind == TokKind::Lifetime {
            let t = toks[i + 1].text;
            if t.len() < 1 {
                Err(pos_at(toks, i + 1))
            } else {
                Ok(
                    (
                        GenericChangeV::Add(
                            GenericV {
                                ident: t.subrange(1, t.len() as int),
                                decl: join_text(toks, i + 1, e),
                            },
                        ),
                        e,
                    ),
                )
            }
        } else if tok_kw(toks, i + 1, kw_const()) {
            if !tok_ident(toks, i + 2) {
                Err(pos_at(toks, i + 2))
            } else {
                Ok(
                    (
                        GenericChangeV::Add(
                            GenericV { ident: toks[i + 2].text, decl: join_text(toks, i + 1, e) },
                        ),
                        e,
                    ),
                )
            }
        } else if tok_ident(toks, i + 1) {
            Ok(
                (
                    GenericChangeV::Add(
                        GenericV { ident: toks[i + 1].text, decl: join_text(toks, i + 1, e) },
                    ),
                    e,
                ),
            )
        } else {
            Err(pos_at(toks, i + 1))
        }
    } else if tok_punct(toks, i, 45) {
        if !tok_ident(toks, i + 1) {
            Err(pos_at(toks, i + 1))
        } else {
            Ok((GenericChangeV::Remove(toks[i + 1].text), i + 2))
        }
    } else {
        Err(pos_at(toks, i))
    }
}

/// The parsed generic-parameter operations from `i` on, separated by
/// commas with an optional trailing one, up to a closing angle bracket or
/// the input's end.
pub open spec fn parse_generic_ops(toks: Seq<TokenV>, i: int) -> Result<
    (Seq<GenericChangeV>, int),
    int,
>
    decreases toks.len() - i,
{
    if i < 0 {
        Err(0)
    } else if i >= toks.len() || tok_punct(toks, i, 62) {
        Ok((Seq::empty(), i))
    } else {
        match parse_generic_op(toks, i) {
            Err(p) => Err(p),
            Ok((op, j)) => {
                if j <= i || j > toks.len() {
                    Err(pos_at(toks, i))
                } else if tok_punct(toks, j, 44) {
                    match parse_generic_ops(toks, j + 1) {
                        Err(p) => Err(p),
                        Ok((rest, e)) => Ok((seq![op] + rest, e)),
                    }
                } else {
                    Ok((seq![op], j))
                }
            },
        }
    }
}

/// The common head of a change specification: attributes, visibility, the
/// given keyword, a name and an optional generic change list, ending at
/// the index of the body's opening brace.
pub open spec fn parse_spec_head(toks: Seq<TokenV>, kw: Seq<u8>) -> Result<
    (Seq<Seq<u8>>, VisV, Seq<u8>, Seq<GenericChangeV>, int),
    int,
> {
    match parse_attrs(toks, 0) {
        Err(p) => Err(p),
        Ok((attrs, i1)) => match parse_vis(toks, i1) {
            Err(p) => Err(p),
            Ok((vis, i2)) => {
                if !tok_kw(toks, i2, kw) {
                    Err(pos_at(toks, i2))
                } else if !tok_ident(toks, i2 + 1) {
                    Err(pos_at(toks, i2 + 1))
                } else {
                    let name = toks[i2 + 1].text;
                    if tok_punct(toks, i2 + 2, 60) {
                        match parse_generic_ops(toks, i2 + 3) {
                            Err(p) => Err(p),
                            Ok((gens, e)) => {
                                if tok_punct(toks, e, 62) {
                                    Ok((attrs, vis, name, gens, e + 1))
                                } else {
                                    Err(pos_at(toks, e))
                                }
                            },
                        }
                    } else {
                        Ok((attrs, vis, name, Seq::empty(), i2 + 2))
                    }
                }
            },
        },
    }
}

/// A whole parsed struct change specification, which must span the full
/// token sequence.
pub open spec fn parse_map_struct(toks: Seq<TokenV>) -> Result<MapStructV, int> {
    match parse_spec_head(toks, kw_struct()) {
        Err(p) => Err(p),
        Ok((attrs, vis, name, gens, i)) => {
            if !tok_punct(toks, i, 123) {
                Err(pos_at(toks, i))
            } else {
                match parse_named_ops(toks, i + 1) {
                    Err(p) => Err(p),
                    Ok((ops, e)) => {
                        if !tok_punct(toks, e, 125) {
                            Err(pos_at(toks, e))
                        } else if e + 1 != toks.len() {
                            Err(pos_at(toks, e + 1))
                        } else {
                            Ok(
                                MapStructV {
                                    attrs,
                                    vis,
                                    ident: name,
                                    generics: gens,
                                    changes: ops,
                                },
                            )
                        }
                    },
                }
            }
        },
    }
}

/// A whole parsed enum change specification, which must span the full
/// token sequence.
pub open spec fn parse_map_enum(toks: Seq<TokenV>) -> Result<MapEnumV, int> {
    match parse_spec_head(toks, kw_enum()) {
        Err(p) => Err(p),
        Ok((attrs, vis, name, gens, i)) => {
            if !tok_punct(toks, i, 123) {
                Err(pos_at(toks, i))
            } else {
                match parse_variant_ops(toks, i + 1) {
                    Err(p) => Err(p),
                    Ok((ops, e)) => {
                        if !tok_punct(toks, e, 125) {
                            Err(pos_at(toks, e))
                        } else if e + 1 != toks.len() {
                            Err(pos_at(toks, e + 1))
                        } else {
                            Ok(
                                MapEnumV { attrs, vis, ident: name, generics: gens, changes: ops },
                            )
                        }
                    },
                }
            }
        },
    }
}

/// A struct change specification parsed from raw text.
pub open spec fn parse_map_struct_text(s: Seq<u8>) -> Result<MapStructV, int> {
    match crate::token::lex_spec(s) {
        Err(p) => Err(p),
        Ok(toks) => parse_map_struct(toks),
    }
}

/// An enum change specification parsed from raw text.
pub open spec fn parse_map_enum_text(s: Seq<u8>) -> Result<MapEnumV, int> {
    match crate::token::lex_spec(s) {
        Err(p) => Err(p),
        Ok(toks) => parse_map_enum(toks),
    }
}


/// Whether the token at `i` is the keyword `pub`.
fn e_tok_kw_pub(toks: &Vec<Token>, i: usize) -> (r: bool)
    ensures
        r == tok_kw(view_tokens(toks@), i as int, kw_pub()),
{
    if i < toks.len() && matches!(toks[i].kind, TokKind::Ident) {
        let t = &toks[i].text;
        if t.len() == 3 && t[0] == 112 && t[1] == 117 && t[2] == 98 {
            proof {
                assert(t@ =~= kw_pub());
            }
            true
        } else {
            proof {
                if toks@[i as int]@.text == kw_pub() {
                    assert(t@.len() == 3 && t@[0] == 112 && t@[1] == 117 && t@[2] == 98);
                }
            }
            false
        }
    } else {
        false
    }
}

/// Whether the token at `i` is the keyword `struct`.
fn e_tok_kw_struct(toks: &Vec<Token>, i: usize) -> (r: bool)
    ensures
        r == tok_kw(view_tokens(toks@), i as int, kw_struct()),
{
    if i < toks.len() && matches!(toks[i].kind, TokKind::Ident) {
        let t = &toks[i].text;
        if t.len() == 6 && t[0] == 115 && t[1] == 116 && t[2] == 114 && t[3] == 117 && t[4] == 99
            && t[5] == 116 {
            proof {
                assert(t@ =~= kw_struct());
            }
            true
        } else {
            proof {
                if toks@[i as int]@.text == kw_struct() {
                    assert(t@.len() == 6 && t@[0] == 115 && t@[1] == 116 && t@[2] == 114 && t@[3]
                        == 117 && t@[4] == 99 && t@[5] == 116);
                }
            }
            false
        }
    } else {
        false
    }
}

/// Whether the token at `i` is the keyword `enum`.
fn e_tok_kw_enum(toks: &Vec<Token>, i: usize) -> (r: bool)
    ensures
        r == tok_kw(view_tokens(toks@), i as int, kw_enum()),
{
    if i < toks.len() && matches!(toks[i].kind, TokKind::Ident) {
        let t = &toks[i].text;
        if t.len() == 4 && t[0] == 101 && t[1] == 110 && t[2] == 117 && t[3] == 109 {
            proof {
                assert(t@ =~= kw_enum());
            }
            true
        } else {
            proof {
                if toks@[i as int]@.text == kw_enum() {
                    assert(t@.len() == 4 && t@[0] == 101 && t@[1] == 110 && t@[2] == 117 && t@[3]
                        == 109);
                }
            }
            false
        }
    } else {
        false
    }
}

/// Whether the token at `i` is the keyword `const`.
fn e_tok_kw_const(toks: &Vec<Token>, i: usize) -> (r: bool)
    ensures
        r == tok_kw(view_tokens(toks@), i as int, kw_const()),
{
    if i < toks.len() && matches!(toks[i].kind, TokKind::Ident) {
        let t = &toks[i].text;
        if t.len() == 5 && t[0] == 99 && t[1] == 111 && t[2] == 110 && t[3] == 115 && t[4] == 116 {
            proof {
                assert(t@ =~= kw_const());
            }
            true
        } else {
            proof {
                if toks@[i as int]@.text == kw_const() {
                    assert(t@.len() == 5 && t@[0] == 99 && t@[1] == 111 && t@[2] == 110 && t@[3]
                        == 115 && t@[4] == 116);
                }
            }
            false
        }
    } else {
        false
    }
}

/// Whether the token at `i` is a lone underscore.
fn e_tok_underscore(toks: &Vec<Token>, i: usize) -> (r: bool)
    ensures
        r == tok_underscore(view_tokens(toks@), i as int),
{
    if i < toks.len() && matches!(toks[i].kind, TokKind::Ident) {
        let t = &toks[i].text;
        if t.len() == 1 && t[0] == 95 {
            proof {
                assert(t@ =~= seq![95u8]);
            }
            true
        } else {
            proof {
                if toks@[i as int]@.text == seq![95u8] {
                    assert(t@.len() == 1 && t@[0] == 95);
                }
            }
            false
        }
    } else {
        false
    }
}

/// The first index at or after `i` whose token is the punctuation byte
/// `c`.
fn e_find_punct(toks: &Vec<Token>, i: usize, c: u8) -> (r: Option<usize>)
    requires
        i <= toks.len(),
    ensures
        match r {
            Some(e) => find_punct(view_tokens(toks@), i as int, c) == Some(e as int) && i <= e
                < toks.len(),
            None => find_punct(view_tokens(toks@), i as int, c) is None,
        },
{
    let ghost v = view_tokens(toks@);
    let mut k = i;
    while k < toks.len()
        invariant
            i <= k <= toks.len(),
            v == view_tokens(toks@),
            find_punct(v, i as int, c) == find_punct(v, k as int, c),
        decreases toks.len() - k,
    {
        if e_tok_punct(toks, k, c) {
            return Some(k);
        }
        k = k + 1;
    }
    None
}

/// The index of the `]` that closes an attribute whose body starts at
/// `i`.
fn e_bracket_end(toks: &Vec<Token>, i: usize) -> (r: Option<usize>)
    requires
        i <= toks.len(),
    ensures
        match r {
            Some(e) => bracket_end(view_tokens(toks@), i as int, 0) == Some(e as int) && i <= e
                < toks.len(),
            None => bracket_end(view_tokens(toks@), i as int, 0) is None,
        },
{
    let ghost v = view_tokens(toks@);
    let mut k = i;
    let mut depth: usize = 0;
    while k < toks.len()
        invariant
            i <= k <= toks.len(),
            v == view_tokens(toks@),
            depth as int <= k - i,
            bracket_end(v, i as int, 0) == bracket_end(v, k as int, depth as int),
        decreases toks.len() - k,
    {
        if depth == 0 && e_tok_punct(toks, k, 93) {
            return Some(k);
        }
        let opens = e_tok_punct(toks, k, 40) || e_tok_punct(toks, k, 91) || e_tok_punct(
            toks,
            k,
            123,
        ) || e_tok_punct(toks, k, 60);
        let closes = e_tok_punct(toks, k, 41) || e_tok_punct(toks, k, 93) || e_tok_punct(
            toks,
            k,
            125,
        ) || e_tok_punct(toks, k, 62);
        if opens {
            depth = depth + 1;
        } else if closes {
            if depth == 0 {
                return None;
            }
            depth = depth - 1;
        }
        k = k + 1;
    }
    None
}

/// A parsed type expression: its canonical text and the index just past
/// it.
pub fn e_parse_type(toks: &Vec<Token>, i: usize, stop_arrow: bool) -> (r: Result<
    (Vec<u8>, usize),
    ChangeError,
>)
    requires
        i <= toks.len(),
    ensures
        match r {
            Ok((t, e)) => parse_type(view_tokens(toks@), i as int, stop_arrow) == Ok::<
                (Seq<u8>, int),
                int,
            >((t@, e as int)) && i < e <= toks.len(),
            Err(er) => parse_type(view_tokens(toks@), i as int, stop_arrow) is Err && er == (
            ChangeError::Syntax {
                pos: parse_type(view_tokens(toks@), i as int, stop_arrow)->Err_0 as usize,
            }),
        },
{
    let e = e_type_end(toks, i, stop_arrow);
    if e <= i {
        Err(ChangeError::Syntax { pos: e_pos_at(toks, i) })
    } else {
        Ok((e_join_text(toks, i, e), e))
    }
}

/// A parsed visibility and the index just past it.
pub fn e_parse_vis(toks: &Vec<Token>, i: usize) -> (r: Result<(Visibility, usize), ChangeError>)
    requires
        i <= toks.len(),
    ensures
        match r {
            Ok((vv, e)) => parse_vis(view_tokens(toks@), i as int) == Ok::<(VisV, int), int>(
                (vv@, e as int),
            ) && i <= e <= toks.len(),
            Err(er) => parse_vis(view_tokens(toks@), i as int) is Err && er == (
            ChangeError::Syntax {
                pos: parse_vis(view_tokens(toks@), i as int)->Err_0 as usize,
            }),
        },
{
    if e_tok_kw_pub(toks, i) {
        if e_tok_punct(toks, i + 1, 40) {
            match e_find_punct(toks, i + 2, 41) {
                Some(e) => Ok((Visibility::Restricted(e_join_text(toks, i + 2, e)), e + 1)),
                None => Err(ChangeError::Syntax { pos: e_pos_at(toks, i + 1) }),
            }
        } else {
            Ok((Visibility::Public, i + 1))
        }
    } else {
        Ok((Visibility::Inherited, i))
    }
}

/// The parsed outer attributes from `i` on.
pub fn e_parse_attrs(toks: &Vec<Token>, i: usize) -> (r: Result<(Vec<Vec<u8>>, usize), ChangeError>)
    requires
        i <= toks.len(),
    ensures
        match r {
            Ok((attrs, e)) => parse_attrs(view_tokens(toks@), i as int) == Ok::<
                (Seq<Seq<u8>>, int),
                int,
            >((crate::model::view_attrs(attrs@), e as int)) && i <= e <= toks.len(),
            Err(er) => parse_attrs(view_tokens(toks@), i as int) is Err && er == (
            ChangeError::Syntax {
                pos: parse_attrs(view_tokens(toks@), i as int)->Err_0 as usize,
            }),
        },
{
    let ghost v = view_tokens(toks@);
    let mut attrs: Vec<Vec<u8>> = Vec::new();
    let mut cur = i;
    while e_tok_punct(toks, cur, 35)
        invariant
            i <= cur <= toks.len(),
            v == view_tokens(toks@),
            ({
                match parse_attrs(v, cur as int) {
                    Ok((rest, e)) => parse_attrs(v, i as int) == Ok::<(Seq<Seq<u8>>, int), int>(
                        (crate::model::view_attrs(attrs@) + rest, e),
                    ),
                    Err(p) => parse_attrs(v, i as int) == Err::<(Seq<Seq<u8>>, int), int>(p),
                }
            }),
        decreases toks.len() - cur,
    {
        let ghost attrs0 = crate::model::view_attrs(attrs@);
        if !e_tok_punct(toks, cur + 1, 91) {
            return Err(ChangeError::Syntax { pos: e_pos_at(toks, cur + 1) });
        }
        match e_bracket_end(toks, cur + 2) {
            None => {
                return Err(ChangeError::Syntax { pos: e_pos_at(toks, cur + 1) });
            },
            Some(e) => {
                let txt = e_join_text(toks, cur + 2, e);
                let ghost txtv = txt@;
                attrs.push(txt);
                proof {
                    assert(crate::model::view_attrs(attrs@) =~= attrs0.push(txtv));
                    if parse_attrs(v, e as int + 1) is Ok {
                        let rest = parse_attrs(v, e as int + 1)->Ok_0.0;
                        assert(attrs0 + (seq![txtv] + rest) =~= attrs0.push(txtv) + rest);
                    }
                }
                cur = e + 1;
            },
        }
    }
    proof {
        assert(parse_attrs(v, cur as int) == Ok::<(Seq<Seq<u8>>, int), int>(
            (Seq::empty(), cur as int),
        ));
        assert(crate::model::view_attrs(attrs@) + Seq::<Seq<u8>>::empty() =~= crate::model::view_attrs(
            attrs@,
        ));
    }
    Ok((attrs, cur))
}


/// A parsed named-field operation and the index just past it.
pub fn e_parse_named_op(toks: &Vec<Token>, i: usize) -> (r: Result<
    (NamedFieldChange, usize),
    ChangeError,
>)
    requires
        i <= toks.len(),
    ensures
        match r {
            Ok((op, e)) => parse_named_op(view_tokens(toks@), i as int) == Ok::<
                (NamedChangeV, int),
                int,
            >((op@, e as int)) && i < e <= toks.len(),
            Err(er) => parse_named_op(view_tokens(toks@), i as int) is Err && er == (
            ChangeError::Syntax {
                pos: parse_named_op(view_tokens(toks@), i as int)->Err_0 as usize,
            }),
        },
{
    if e_tok_punct(toks, i, 43) {
        match e_parse_vis(toks, i + 1) {
            Err(er) => Err(er),
            Ok((vis, i2)) => {
                if !e_tok_ident(toks, i2) {
                    Err(ChangeError::Syntax { pos: e_pos_at(toks, i2) })
                } else if !e_tok_punct(toks, i2 + 1, 58) {
                    Err(ChangeError::Syntax { pos: e_pos_at(toks, i2 + 1) })
                } else {
                    match e_parse_type(toks, i2 + 2, false) {
                        Err(er) => Err(er),
                        Ok((ty, i3)) => Ok(
                            (
                                NamedFieldChange::Add {
                                    visibility: vis,
                                    ident: clone_bytes(&toks[i2].text),
                                    ty,
                                },
                                i3,
                            ),
                        ),
                    }
                }
            },
        }
    } else if e_tok_punct(toks, i, 45) {
        if !e_tok_ident(toks, i + 1) {
            Err(ChangeError::Syntax { pos: e_pos_at(toks, i + 1) })
        } else if e_tok_punct(toks, i + 2, 58) {
            match e_parse_type(toks, i + 3, false) {
                Err(er) => Err(er),
                Ok((ty, i3)) => Ok(
                    (
                        NamedFieldChange::Remove {
                            ident: clone_bytes(&toks[i + 1].text),
                            ty: Some(ty),
                        },
                        i3,
                    ),
                ),
            }
        } else {
            Ok((NamedFieldChange::Remove { ident: clone_bytes(&toks[i + 1].text), ty: None }, i
                + 2))
        }
    } else if e_tok_punct(toks, i, 126) {
        match e_parse_vis(toks, i + 1) {
            Err(er) => Err(er),
            Ok((vis, i2)) => {
                if !e_tok_ident(toks, i2) {
                    Err(ChangeError::Syntax { pos: e_pos_at(toks, i2) })
                } else {
                    if e_tok_punct(toks, i2 + 1, 58) {
                        match e_parse_type(toks, i2 + 2, false) {
                            Err(er) => Err(er),
                            Ok((ty, i3)) => Ok(
                                (
                                    NamedFieldChange::Change {
                                        visibility: vis,
                                        ident: clone_bytes(&toks[i2].text),
                                        to: None,
                                        ty: Some(ty),
                                    },
                                    i3,
                                ),
                            ),
                        }
                    } else if e_tok_arrow(toks, i2 + 1) {
                        if !matches!(vis, Visibility::Inherited) {
                            return Err(ChangeError::Syntax { pos: e_pos_at(toks, i2 + 1) });
                        }
                        match e_parse_vis(toks, i2 + 2) {
                            Err(er) => Err(er),
                            Ok((vis2, i3)) => {
                                if !e_tok_ident(toks, i3) {
                                    Err(ChangeError::Syntax { pos: e_pos_at(toks, i3) })
                                } else if e_tok_punct(toks, i3 + 1, 58) {
                                    match e_parse_type(toks, i3 + 2, false) {
                                        Err(er) => Err(er),
                                        Ok((ty, i4)) => Ok(
                                            (
                                                NamedFieldChange::Change {
                                                    visibility: vis2,
                                                    ident: clone_bytes(&toks[i2].text),
                                                    to: Some(clone_bytes(&toks[i3].text)),
                                                    ty: Some(ty),
                                                },
                                                i4,
                                            ),
                                        ),
                                    }
                                } else {
                                    Ok(
                                        (
                                            NamedFieldChange::Change {
                                                visibility: vis2,
                                                ident: clone_bytes(&toks[i2].text),
                                                to: Some(clone_bytes(&toks[i3].text)),
                                                ty: None,
                                            },
                                            i3 + 1,
                                        ),
                                    )
                                }
                            },
                        }
                    } else {
                        Ok(
                            (
                                NamedFieldChange::Change {
                                    visibility: vis,
                                    ident: clone_bytes(&toks[i2].text),
                                    to: None,
                                    ty: None,
                                },
                                i2 + 1,
                            ),
                        )
                    }
                }
            },
        }
    } else {
        Err(ChangeError::Syntax { pos: e_pos_at(toks, i) })
    }
}

/// A parsed positional operation and the index just past it.
pub fn e_parse_unnamed_op(toks: &Vec<Token>, i: usize) -> (r: Result<
    (UnnamedFieldChange, usize),
    ChangeError,
>)
    requires
        i <= toks.len(),
    ensures
        match r {
            Ok((op, e)) => parse_unnamed_op(view_tokens(toks@), i as int) == Ok::<
                (UnnamedChangeV, int),
                int,
            >((op@, e as int)) && i < e <= toks.len(),
            Err(er) => parse_unnamed_op(view_tokens(toks@), i as int) is Err && er == (
            ChangeError::Syntax {
                pos: parse_unnamed_op(view_tokens(toks@), i as int)->Err_0 as usize,
            }),
        },
{
    if e_tok_punct(toks, i, 43) {
        match e_parse_vis(toks, i + 1) {
            Err(er) => Err(er),
            Ok((vis, i2)) => match e_parse_type(toks, i2, true) {
                Err(er) => Err(er),
                Ok((ty, i3)) => Ok((UnnamedFieldChange::Add { visibility: vis, ty }, i3)),
            },
        }
    } else if e_tok_punct(toks, i, 45) {
        if e_tok_underscore(toks, i + 1) {
            Ok((UnnamedFieldChange::Remove { ty: None }, i + 2))
        } else {
            match e_parse_type(toks, i + 1, true) {
                Err(er) => Err(er),
                Ok((ty, i2)) => Ok((UnnamedFieldChange::Remove { ty: Some(ty) }, i2)),
            }
        }
    } else if e_tok_punct(toks, i, 126) {
        match e_parse_type(toks, i + 1, true) {
            Err(er) => Err(er),
            Ok((ty, i2)) => Ok(
                (UnnamedFieldChange::Retype { old_type: None, new_type: ty }, i2),
            ),
        }
    } else if e_tok_underscore(toks, i) {
        if e_tok_arrow(toks, i + 1) {
            match e_parse_type(toks, i + 2, true) {
                Err(er) => Err(er),
                Ok((ty, i2)) => Ok(
                    (UnnamedFieldChange::Retype { old_type: None, new_type: ty }, i2),
                ),
            }
        } else {
            Ok((UnnamedFieldChange::Match { ty: None }, i + 1))
        }
    } else {
        match e_parse_type(toks, i, true) {
            Err(er) => Err(er),
            Ok((ty1, i2)) => {
                if e_tok_arrow(toks, i2) {
                    match e_parse_type(toks, i2 + 1, true) {
                        Err(er) => Err(er),
                        Ok((ty2, i3)) => Ok(
                            (
                                UnnamedFieldChange::Retype { old_type: Some(ty1), new_type: ty2 },
                                i3,
                            ),
                        ),
                    }
                } else {
                    Ok((UnnamedFieldChange::Match { ty: Some(ty1) }, i2))
                }
            },
        }
    }
}

/// A parsed positional field of a variant declaration.
fn e_parse_tuple_field(toks: &Vec<Token>, i: usize) -> (r: Result<(FieldSpec, usize), ChangeError>)
    requires
        i <= toks.len(),
    ensures
        match r {
            Ok((f, e)) => parse_tuple_field(view_tokens(toks@), i as int) == Ok::<
                (FieldV, int),
                int,
            >((f@, e as int)) && i < e <= toks.len(),
            Err(er) => parse_tuple_field(view_tokens(toks@), i as int) is Err && er == (
            ChangeError::Syntax {
                pos: parse_tuple_field(view_tokens(toks@), i as int)->Err_0 as usize,
            }),
        },
{
    match e_parse_vis(toks, i) {
        Err(er) => Err(er),
        Ok((vis, i2)) => match e_parse_type(toks, i2, false) {
            Err(er) => Err(er),
            Ok((ty, i3)) => Ok((FieldSpec { vis, name: None, ty }, i3)),
        },
    }
}

/// A parsed named field of a variant declaration.
fn e_parse_named_field(toks: &Vec<Token>, i: usize) -> (r: Result<(FieldSpec, usize), ChangeError>)
    requires
        i <= toks.len(),
    ensures
        match r {
            Ok((f, e)) => parse_named_field(view_tokens(toks@), i as int) == Ok::<
                (FieldV, int),
                int,
            >((f@, e as int)) && i < e <= toks.len(),
            Err(er) => parse_named_field(view_tokens(toks@), i as int) is Err && er == (
            ChangeError::Syntax {
                pos: parse_named_field(view_tokens(toks@), i as int)->Err_0 as usize,
            }),
        },
{
    match e_parse_vis(toks, i) {
        Err(er) => Err(er),
        Ok((vis, i2)) => {
            if !e_tok_ident(toks, i2) {
                Err(ChangeError::Syntax { pos: e_pos_at(toks, i2) })
            } else if !e_tok_punct(toks, i2 + 1, 58) {
                Err(ChangeError::Syntax { pos: e_pos_at(toks, i2 + 1) })
            } else {
                match e_parse_type(toks, i2 + 2, false) {
                    Err(er) => Err(er),
                    Ok((ty, i3)) => Ok(
                        (FieldSpec { vis, name: Some(clone_bytes(&toks[i2].text)), ty }, i3),
                    ),
                }
            }
        },
    }
}


/// The parsed named-field operations from `i` on.
pub fn e_parse_named_ops(toks: &Vec<Token>, i: usize) -> (r: Result<(Vec<NamedFieldChange>, usize), ChangeError>)
    requires
        i <= toks.len(),
    ensures
        match r {
            Ok((ops, e)) => parse_named_ops(view_tokens(toks@), i as int) == Ok::<(Seq<NamedChangeV>, int), int>(
                (view_named_ops(ops@), e as int),
            ) && i <= e <= toks.len(),
            Err(er) => parse_named_ops(view_tokens(toks@), i as int) is Err && er == (
            ChangeError::Syntax {
                pos: parse_named_ops(view_tokens(toks@), i as int)->Err_0 as usize,
            }),
        },
{
    let ghost v = view_tokens(toks@);
    let mut acc: Vec<NamedFieldChange> = Vec::new();
    let mut cur = i;
    while cur < toks.len() && !e_tok_punct(toks, cur, 125)
        invariant
            i <= cur <= toks.len(),
            v == view_tokens(toks@),
            ({
                match parse_named_ops(v, cur as int) {
                    Ok((rest, e)) => parse_named_ops(v, i as int) == Ok::<(Seq<NamedChangeV>, int), int>(
                        (view_named_ops(acc@) + rest, e),
                    ),
                    Err(p) => parse_named_ops(v, i as int) == Err::<(Seq<NamedChangeV>, int), int>(p),
                }
            }),
        decreases toks.len() - cur,
    {
        let ghost acc0 = view_named_ops(acc@);
        match e_parse_named_op(toks, cur) {
            Err(er) => {
                return Err(er);
            },
            Ok((op, j)) => {
                let ghost opv = op@;
                acc.push(op);
                proof {
                    assert(view_named_ops(acc@) =~= acc0.push(opv));
                }
                if e_tok_punct(toks, j, 44) {
                    proof {
                        if parse_named_ops(v, j as int + 1) is Ok {
                            let rest = parse_named_ops(v, j as int + 1)->Ok_0.0;
                            assert(acc0 + (seq![opv] + rest) =~= acc0.push(opv) + rest);
                        }
                    }
                    cur = j + 1;
                } else {
                    proof {
                        assert(parse_named_ops(v, cur as int) == Ok::<(Seq<NamedChangeV>, int), int>(
                            (seq![opv], j as int),
                        ));
                        assert(acc0 + seq![opv] =~= acc0.push(opv));
                    }
                    return Ok((acc, j));
                }
            },
        }
    }
    proof {
        assert(parse_named_ops(v, cur as int) == Ok::<(Seq<NamedChangeV>, int), int>(
            (Seq::empty(), cur as int),
        ));
        assert(view_named_ops(acc@) + Seq::<NamedChangeV>::empty() =~= view_named_ops(acc@));
    }
    Ok((acc, cur))
}

/// The parsed positional operations from `i` on.
pub fn e_parse_unnamed_ops(toks: &Vec<Token>, i: usize) -> (r: Result<(Vec<UnnamedFieldChange>, usize), ChangeError>)
    requires
        i <= toks.len(),
    ensures
        match r {
            Ok((ops, e)) => parse_unnamed_ops(view_tokens(toks@), i as int) == Ok::<(Seq<UnnamedChangeV>, int), int>(
                (view_unnamed_ops(ops@), e as int),
            ) && i <= e <= toks.len(),
            Err(er) => parse_unnamed_ops(view_tokens(toks@), i as int) is Err && er == (
            ChangeError::Syntax {
                pos: parse_unnamed_ops(view_tokens(toks@), i as int)->Err_0 as usize,
            }),
        },
{
    let ghost v = view_tokens(toks@);
    let mut acc: Vec<UnnamedFieldChange> = Vec::new();
    let mut cur = i;
    while cur < toks.len() && !e_tok_punct(toks, cur, 41)
        invariant
            i <= cur <= toks.len(),
            v == view_tokens(toks@),
            ({
                match parse_unnamed_ops(v, cur as int) {
                    Ok((rest, e)) => parse_unnamed_ops(v, i as int) == Ok::<(Seq<UnnamedChangeV>, int), int>(
                        (view_unnamed_ops(acc@) + rest, e),
                    ),
                    Err(p) => parse_unnamed_ops(v, i as int) == Err::<(Seq<UnnamedChangeV>, int), int>(p),
                }
            }),
        decreases toks.len() - cur,
    {
        let ghost acc0 = view_unnamed_ops(acc@);
        match e_parse_unnamed_op(toks, cur) {
            Err(er) => {
                return Err(er);
            },
            Ok((op, j)) => {
                let ghost opv = op@;
                acc.push(op);
                proof {
                    assert(view_unnamed_ops(acc@) =~= acc0.push(opv));
                }
                if e_tok_punct(toks, j, 44) {
                    proof {
                        if parse_unnamed_ops(v, j as int + 1) is Ok {
                            let rest = parse_unnamed_ops(v, j as int + 1)->Ok_0.0;
                            assert(acc0 + (seq![opv] + rest) =~= acc0.push(opv) + rest);
                        }
                    }
                    cur = j + 1;
                } else {
                    proof {
                        assert(parse_unnamed_ops(v, cur as int) == Ok::<(Seq<UnnamedChangeV>, int), int>(
                            (seq![opv], j as int),
                        ));
                        assert(acc0 + seq![opv] =~= acc0.push(opv));
                    }
                    return Ok((acc, j));
                }
            },
        }
    }
    proof {
        assert(parse_unnamed_ops(v, cur as int) == Ok::<(Seq<UnnamedChangeV>, int), int>(
            (Seq::empty(), cur as int),
        ));
        assert(view_unnamed_ops(acc@) + Seq::<UnnamedChangeV>::empty() =~= view_unnamed_ops(acc@));
    }
    Ok((acc, cur))
}

/// The parsed positional fields of a variant declaration from `i` on.
fn e_parse_tuple_fields(toks: &Vec<Token>, i: usize) -> (r: Result<(Vec<FieldSpec>, usize), ChangeError>)
    requires
        i <= toks.len(),
    ensures
        match r {
            Ok((ops, e)) => parse_tuple_fields(view_tokens(toks@), i as int) == Ok::<(Seq<FieldV>, int), int>(
                (view_fields(ops@), e as int),
            ) && i <= e <= toks.len(),
            Err(er) => parse_tuple_fields(view_tokens(toks@), i as int) is Err && er == (
            ChangeError::Syntax {
                pos: parse_tuple_fields(view_tokens(toks@), i as int)->Err_0 as usize,
            }),
        },
{
    let ghost v = view_tokens(toks@);
    let mut acc: Vec<FieldSpec> = Vec::new();
    let mut cur = i;
    while cur < toks.len() && !e_tok_punct(toks, cur, 41)
        invariant
            i <= cur <= toks.len(),
            v == view_tokens(toks@),
            ({
                match parse_tuple_fields(v, cur as int) {
                    Ok((rest, e)) => parse_tuple_fields(v, i as int) == Ok::<(Seq<FieldV>, int), int>(
                        (view_fields(acc@) + rest, e),
                    ),
                    Err(p) => parse_tuple_fields(v, i as int) == Err::<(Seq<FieldV>, int), int>(p),
                }
            }),
        decreases toks.len() - cur,
    {
        let ghost acc0 = view_fields(acc@);
        match e_parse_tuple_field(toks, cur) {
            Err(er) => {
                return Err(er);
            },
            Ok((op, j)) => {
                let ghost opv = op@;
                acc.push(op);
                proof {
                    assert(view_fields(acc@) =~= acc0.push(opv));
                }
                if e_tok_punct(toks, j, 44) {
                    proof {
                        if parse_tuple_fields(v, j as int + 1) is Ok {
                            let rest = parse_tuple_fields(v, j as int + 1)->Ok_0.0;
                            assert(acc0 + (seq![opv] + rest) =~= acc0.push(opv) + rest);
                        }
                    }
                    cur = j + 1;
                } else {
                    proof {
                        assert(parse_tuple_fields(v, cur as int) == Ok::<(Seq<FieldV>, int), int>(
                            (seq![opv], j as int),
                        ));
                        assert(acc0 + seq![opv] =~= acc0.push(opv));
                    }
                    return Ok((acc, j));
                }
            },
        }
    }
    proof {
        assert(parse_tuple_fields(v, cur as int) == Ok::<(Seq<FieldV>, int), int>(
            (Seq::empty(), cur as int),
        ));
        assert(view_fields(acc@) + Seq::<FieldV>::empty() =~= view_fields(acc@));
    }
    Ok((acc, cur))
}

/// The parsed named fields of a variant declaration from `i` on.
fn e_parse_named_fields(toks: &Vec<Token>, i: usize) -> (r: Result<(Vec<FieldSpec>, usize), ChangeError>)
    requires
        i <= toks.len(),
    ensures
        match r {
            Ok((ops, e)) => parse_named_fields(view_tokens(toks@), i as int) == Ok::<(Seq<FieldV>, int), int>(
                (view_fields(ops@), e as int),
            ) && i <= e <= toks.len(),
            Err(er) => parse_named_fields(view_tokens(toks@), i as int) is Err && er == (
            ChangeError::Syntax {
                pos: parse_named_fields(view_tokens(toks@), i as int)->Err_0 as usize,
            }),
        },
{
    let ghost v = view_tokens(toks@);
    let mut acc: Vec<FieldSpec> = Vec::new();
    let mut cur = i;
    while cur < toks.len() && !e_tok_punct(toks, cur, 125)
        invariant
            i <= cur <= toks.len(),
            v == view_tokens(toks@),
            ({
                match parse_named_fields(v, cur as int) {
                    Ok((rest, e)) => parse_named_fields(v, i as int) == Ok::<(Seq<FieldV>, int), int>(
                        (view_fields(acc@) + rest, e),
                    ),
                    Err(p) => parse_named_fields(v, i as int) == Err::<(Seq<FieldV>, int), int>(p),
                }
            }),
        decreases toks.len() - cur,
    {
        let ghost acc0 = view_fields(acc@);
        match e_parse_named_field(toks, cur) {
            Err(er) => {
                return Err(er);
            },
            Ok((op, j)) => {
                let ghost opv = op@;
                acc.push(op);
                proof {
                    assert(view_fields(acc@) =~= acc0.push(opv));
                }
                if e_tok_punct(toks, j, 44) {
                    proof {
                        if parse_named_fields(v, j as int + 1) is Ok {
                            let rest = parse_named_fields(v, j as int + 1)->Ok_0.0;
                            assert(acc0 + (seq![opv] + rest) =~= acc0.push(opv) + rest);
                        }
                    }
                    cur = j + 1;
                } else {
                    proof {
                        assert(parse_named_fields(v, cur as int) == Ok::<(Seq<FieldV>, int), int>(
                            (seq![opv], j as int),
                        ));
                        assert(acc0 + seq![opv] =~= acc0.push(opv));
                    }
                    return Ok((acc, j));
                }
            },
        }
    }
    proof {
        assert(parse_named_fields(v, cur as int) == Ok::<(Seq<FieldV>, int), int>(
            (Seq::empty(), cur as int),
        ));
        assert(view_fields(acc@) + Seq::<FieldV>::empty() =~= view_fields(acc@));
    }
    Ok((acc, cur))
}


/// A parsed whole variant declaration and the index just past it.
pub fn e_parse_variant_decl(toks: &Vec<Token>, i: usize) -> (r: Result<
    (VariantSpec, usize),
    ChangeError,
>)
    requires
        i <= toks.len(),
    ensures
        match r {
            Ok((v2, e)) => parse_variant_decl(view_tokens(toks@), i as int) == Ok::<
                (VariantV, int),
                int,
            >((v2@, e as int)) && i < e <= toks.len(),
            Err(er) => parse_variant_decl(view_tokens(toks@), i as int) is Err && er == (
            ChangeError::Syntax {
                pos: parse_variant_decl(view_tokens(toks@), i as int)->Err_0 as usize,
            }),
        },
{
    if !e_tok_ident(toks, i) {
        Err(ChangeError::Syntax { pos: e_pos_at(toks, i) })
    } else {
        let name = clone_bytes(&toks[i].text);
        if e_tok_punct(toks, i + 1, 40) {
            match e_parse_tuple_fields(toks, i + 2) {
                Err(er) => Err(er),
                Ok((fs, e)) => {
                    if e_tok_punct(toks, e, 41) {
                        Ok((VariantSpec { name, shape: Shape::Positional(fs) }, e + 1))
                    } else {
                        Err(ChangeError::Syntax { pos: e_pos_at(toks, e) })
                    }
                },
            }
        } else if e_tok_punct(toks, i + 1, 123) {
            match e_parse_named_fields(toks, i + 2) {
                Err(er) => Err(er),
                Ok((fs, e)) => {
                    if e_tok_punct(toks, e, 125) {
                        Ok((VariantSpec { name, shape: Shape::Named(fs) }, e + 1))
                    } else {
                        Err(ChangeError::Syntax { pos: e_pos_at(toks, e) })
                    }
                },
            }
        } else {
            Ok((VariantSpec { name, shape: Shape::Unit }, i + 1))
        }
    }
}

/// A parsed variant operation and the index just past it.
pub fn e_parse_variant_op(toks: &Vec<Token>, i: usize) -> (r: Result<
    (VariantChange, usize),
    ChangeError,
>)
    requires
        i <= toks.len(),
    ensures
        match r {
            Ok((op, e)) => parse_variant_op(view_tokens(toks@), i as int) == Ok::<
                (VariantChangeV, int),
                int,
            >((op@, e as int)) && i < e <= toks.len(),
            Err(er) => parse_variant_op(view_tokens(toks@), i as int) is Err && er == (
            ChangeError::Syntax {
                pos: parse_variant_op(view_tokens(toks@), i as int)->Err_0 as usize,
            }),
        },
{
    if e_tok_punct(toks, i, 43) {
        match e_parse_variant_decl(toks, i + 1) {
            Err(er) => Err(er),
            Ok((v2, e)) => Ok((VariantChange::Add(v2), e)),
        }
    } else if e_tok_punct(toks, i, 45) {
        if !e_tok_ident(toks, i + 1) {
            Err(ChangeError::Syntax { pos: e_pos_at(toks, i + 1) })
        } else {
            Ok((VariantChange::Remove(clone_bytes(&toks[i + 1].text)), i + 2))
        }
    } else if e_tok_punct(toks, i, 126) {
        if !e_tok_ident(toks, i + 1) {
            Err(ChangeError::Syntax { pos: e_pos_at(toks, i + 1) })
        } else {
            let from = clone_bytes(&toks[i + 1].text);
            let arrow = e_tok_arrow(toks, i + 2);
            let has_to = arrow && e_tok_ident(toks, i + 3);
            if arrow && !e_tok_ident(toks, i + 3) {
                return Err(ChangeError::Syntax { pos: e_pos_at(toks, i + 3) });
            }
            let to = if has_to {
                Some(clone_bytes(&toks[i + 3].text))
            } else {
                None
            };
            let j = if has_to {
                i + 4
            } else {
                i + 2
            };
            if e_tok_punct(toks, j, 40) {
                match e_parse_unnamed_ops(toks, j + 1) {
                    Err(er) => Err(er),
                    Ok((ops, e)) => {
                        if e_tok_punct(toks, e, 41) {
                            Ok(
                                (
                                    VariantChange::TupleRetype(
                                        from,
                                        to,
                                        crate::tuple_change::TupleChange { changes: ops },
                                    ),
                                    e + 1,
                                ),
                            )
                        } else {
                            Err(ChangeError::Syntax { pos: e_pos_at(toks, e) })
                        }
                    },
                }
            } else if e_tok_punct(toks, j, 123) {
                match e_parse_named_ops(toks, j + 1) {
                    Err(er) => Err(er),
                    Ok((ops, e)) => {
                        if e_tok_punct(toks, e, 125) {
                            Ok(
                                (
                                    VariantChange::StructRetype(
                                        from,
                                        to,
                                        crate::struct_change::StructChange { changes: ops },
                                    ),
                                    e + 1,
                                ),
                            )
                        } else {
                            Err(ChangeError::Syntax { pos: e_pos_at(toks, e) })
                        }
                    },
                }
            } else if has_to {
                match to {
                    Some(t) => Ok((VariantChange::Rename(from, t), j)),
                    None => Err(ChangeError::Syntax { pos: e_pos_at(toks, j) }),
                }
            } else {
                Err(ChangeError::Syntax { pos: e_pos_at(toks, j) })
            }
        }
    } else if e_tok_ident(toks, i) && e_tok_arrow(toks, i + 1) {
        let from = clone_bytes(&toks[i].text);
        match e_parse_variant_decl(toks, i + 2) {
            Err(er) => Err(er),
            Ok((v2, e)) => Ok((VariantChange::Replace(Some(from), v2), e)),
        }
    } else {
        match e_parse_variant_decl(toks, i) {
            Err(er) => Err(er),
            Ok((v2, e)) => Ok((VariantChange::Replace(None, v2), e)),
        }
    }
}

/// A parsed generic-parameter operation and the index just past it.
pub fn e_parse_generic_op(toks: &Vec<Token>, i: usize) -> (r: Result<
    (GenericChange, usize),
    ChangeError,
>)
    requires
        i <= toks.len(),
    ensures
        match r {
            Ok((op, e)) => parse_generic_op(view_tokens(toks@), i as int) == Ok::<
                (GenericChangeV, int),
                int,
            >((op@, e as int)) && i < e <= toks.len(),
            Err(er) => parse_generic_op(view_tokens(toks@), i as int) is Err && er == (
            ChangeError::Syntax {
                pos: parse_generic_op(view_tokens(toks@), i as int)->Err_0 as usize,
            }),
        },
{
    if e_tok_punct(toks, i, 43) {
        let e = e_type_end(toks, i + 1, false);
        if e <= i + 1 {
            Err(ChangeError::Syntax { pos: e_pos_at(toks, i + 1) })
        } else if i + 1 < toks.len() && matches!(toks[i + 1].kind, TokKind::Lifetime) {
            let t = &toks[i + 1].text;
            if t.len() < 1 {
                Err(ChangeError::Syntax { pos: e_pos_at(toks, i + 1) })
            } else {
                let ident = crate::token::copy_range(t, 1, t.len());
                Ok(
                    (
                        GenericChange::Add(
                            GenericParamSpec { ident, decl: e_join_text(toks, i + 1, e) },
                        ),
                        e,
                    ),
                )
            }
        } else if e_tok_kw_const(toks, i + 1) {
            if !e_tok_ident(toks, i + 2) {
                Err(ChangeError::Syntax { pos: e_pos_at(toks, i + 2) })
            } else {
                Ok(
                    (
                        GenericChange::Add(
                            GenericParamSpec {
                                ident: clone_bytes(&toks[i + 2].text),
                                decl: e_join_text(toks, i + 1, e),
                            },
                        ),
                        e,
                    ),
                )
            }
        } else if e_tok_ident(toks, i + 1) {
            Ok(
                (
                    GenericChange::Add(
                        GenericParamSpec {
                            ident: clone_bytes(&toks[i + 1].text),
                            decl: e_join_text(toks, i + 1, e),
                        },
                    ),
                    e,
                ),
            )
        } else {
            Err(ChangeError::Syntax { pos: e_pos_at(toks, i + 1) })
        }
    } else if e_tok_punct(toks, i, 45) {
        if !e_tok_ident(toks, i + 1) {
            Err(ChangeError::Syntax { pos: e_pos_at(toks, i + 1) })
        } else {
            Ok((GenericChange::Remove(clone_bytes(&toks[i + 1].text)), i + 2))
        }
    } else {
        Err(ChangeError::Syntax { pos: e_pos_at(toks, i) })
    }
}


/// The parsed variant operations from `i` on.
pub fn e_parse_variant_ops(toks: &Vec<Token>, i: usize) -> (r: Result<(Vec<VariantChange>, usize), ChangeError>)
    requires
        i <= toks.len(),
    ensures
        match r {
            Ok((ops, e)) => parse_variant_ops(view_tokens(toks@), i as int) == Ok::<(Seq<VariantChangeV>, int), int>(
                (view_variant_ops(ops@), e as int),
            ) && i <= e <= toks.len(),
            Err(er) => parse_variant_ops(view_tokens(toks@), i as int) is Err && er == (
            ChangeError::Syntax {
                pos: parse_variant_ops(view_tokens(toks@), i as int)->Err_0 as usize,
            }),
        },
{
    let ghost v = view_tokens(toks@);
    let mut acc: Vec<VariantChange> = Vec::new();
    let mut cur = i;
    while cur < toks.len() && !e_tok_punct(toks, cur, 125)
        invariant
            i <= cur <= toks.len(),
            v == view_tokens(toks@),
            ({
                match parse_variant_ops(v, cur as int) {
                    Ok((rest, e)) => parse_variant_ops(v, i as int) == Ok::<(Seq<VariantChangeV>, int), int>(
                        (view_variant_ops(acc@) + rest, e),
                    ),
                    Err(p) => parse_variant_ops(v, i as int) == Err::<(Seq<VariantChangeV>, int), int>(p),
                }
            }),
        decreases toks.len() - cur,
    {
        let ghost acc0 = view_variant_ops(acc@);
        match e_parse_variant_op(toks, cur) {
            Err(er) => {
                return Err(er);
            },
            Ok((op, j)) => {
                let ghost opv = op@;
                acc.push(op);
                proof {
                    assert(view_variant_ops(acc@) =~= acc0.push(opv));
                }
                if e_tok_punct(toks, j, 44) {
                    proof {
                        if parse_variant_ops(v, j as int + 1) is Ok {
                            let rest = parse_variant_ops(v, j as int + 1)->Ok_0.0;
                            assert(acc0 + (seq![opv] + rest) =~= acc0.push(opv) + rest);
                        }
                    }
                    cur = j + 1;
                } else {
                    proof {
                        assert(parse_variant_ops(v, cur as int) == Ok::<(Seq<VariantChangeV>, int), int>(
                            (seq![opv], j as int),
                        ));
                        assert(acc0 + seq![opv] =~= acc0.push(opv));
                    }
                    return Ok((acc, j));
                }
            },
        }
    }
    proof {
        assert(parse_variant_ops(v, cur as int) == Ok::<(Seq<VariantChangeV>, int), int>(
            (Seq::empty(), cur as int),
        ));
        assert(view_variant_ops(acc@) + Seq::<VariantChangeV>::empty() =~= view_variant_ops(acc@));
    }
    Ok((acc, cur))
}

/// The parsed generic-parameter operations from `i` on.
pub fn e_parse_generic_ops(toks: &Vec<Token>, i: usize) -> (r: Result<(Vec<GenericChange>, usize), ChangeError>)
    requires
        i <= toks.len(),
    ensures
        match r {
            Ok((ops, e)) => parse_generic_ops(view_tokens(toks@), i as int) == Ok::<(Seq<GenericChangeV>, int), int>(
                (view_generic_ops(ops@), e as int),
            ) && i <= e <= toks.len(),
            Err(er) => parse_generic_ops(view_tokens(toks@), i as int) is Err && er == (
            ChangeError::Syntax {
                pos: parse_generic_ops(view_tokens(toks@), i as int)->Err_0 as usize,
            }),
        },
{
    let ghost v = view_tokens(toks@);
    let mut acc: Vec<GenericChange> = Vec::new();
    let mut cur = i;
    while cur < toks.len() && !e_tok_punct(toks, cur, 62)
        invariant
            i <= cur <= toks.len(),
            v == view_tokens(toks@),
            ({
                match parse_generic_ops(v, cur as int) {
                    Ok((rest, e)) => parse_generic_ops(v, i as int) == Ok::<(Seq<GenericChangeV>, int), int>(
                        (view_generic_ops(acc@) + rest, e),
                    ),
                    Err(p) => parse_generic_ops(v, i as int) == Err::<(Seq<GenericChangeV>, int), int>(p),
                }
            }),
        decreases toks.len() - cur,
    {
        let ghost acc0 = view_generic_ops(acc@);
        match e_parse_generic_op(toks, cur) {
            Err(er) => {
                return Err(er);
            },
            Ok((op, j)) => {
                let ghost opv = op@;
                acc.push(op);
                proof {
                    assert(view_generic_ops(acc@) =~= acc0.push(opv));
                }
                if e_tok_punct(toks, j, 44) {
                    proof {
                        if parse_generic_ops(v, j as int + 1) is Ok {
                            let rest = parse_generic_ops(v, j as int + 1)->Ok_0.0;
                            assert(acc0 + (seq![opv] + rest) =~= acc0.push(opv) + rest);
                        }
                    }
                    cur = j + 1;
                } else {
                    proof {
                        assert(parse_generic_ops(v, cur as int) == Ok::<(Seq<GenericChangeV>, int), int>(
                            (seq![opv], j as int),
                        ));
                        assert(acc0 + seq![opv] =~= acc0.push(opv));
                    }
                    return Ok((acc, j));
                }
            },
        }
    }
    proof {
        assert(parse_generic_ops(v, cur as int) == Ok::<(Seq<GenericChangeV>, int), int>(
            (Seq::empty(), cur as int),
        ));
        assert(view_generic_ops(acc@) + Seq::<GenericChangeV>::empty() =~= view_generic_ops(acc@));
    }
    Ok((acc, cur))
}

/// The common head of a change specification: attributes, visibility, the
/// expected keyword, a name and an optional generic change list.
fn e_parse_spec_head(toks: &Vec<Token>, is_enum: bool) -> (r: Result<
    (Vec<Vec<u8>>, Visibility, Vec<u8>, Vec<GenericChange>, usize),
    ChangeError,
>)
    ensures
        ({
            let kw = if is_enum {
                kw_enum()
            } else {
                kw_struct()
            };
            match r {
                Ok((attrs, vis, name, gens, e)) => parse_spec_head(view_tokens(toks@), kw) == Ok::<
                    (Seq<Seq<u8>>, VisV, Seq<u8>, Seq<GenericChangeV>, int),
                    int,
                >(
                    (
                        crate::model::view_attrs(attrs@),
                        vis@,
                        name@,
                        view_generic_ops(gens@),
                        e as int,
                    ),
                ) && e <= toks.len(),
                Err(er) => parse_spec_head(view_tokens(toks@), kw) is Err && er == (
                ChangeError::Syntax {
                    pos: parse_spec_head(view_tokens(toks@), kw)->Err_0 as usize,
                }),
            }
        }),
{
    let ghost kw = if is_enum {
        kw_enum()
    } else {
        kw_struct()
    };
    match e_parse_attrs(toks, 0) {
        Err(er) => Err(er),
        Ok((attrs, i1)) => match e_parse_vis(toks, i1) {
            Err(er) => Err(er),
            Ok((vis, i2)) => {
                let kw_found = if is_enum {
                    e_tok_kw_enum(toks, i2)
                } else {
                    e_tok_kw_struct(toks, i2)
                };
                if !kw_found {
                    Err(ChangeError::Syntax { pos: e_pos_at(toks, i2) })
                } else if !e_tok_ident(toks, i2 + 1) {
                    Err(ChangeError::Syntax { pos: e_pos_at(toks, i2 + 1) })
                } else {
                    let name = clone_bytes(&toks[i2 + 1].text);
                    if e_tok_punct(toks, i2 + 2, 60) {
                        match e_parse_generic_ops(toks, i2 + 3) {
                            Err(er) => Err(er),
                            Ok((gens, e)) => {
                                if e_tok_punct(toks, e, 62) {
                                    Ok((attrs, vis, name, gens, e + 1))
                                } else {
                                    Err(ChangeError::Syntax { pos: e_pos_at(toks, e) })
                                }
                            },
                        }
                    } else {
                        let gens: Vec<GenericChange> = Vec::new();
                        proof {
                            assert(view_generic_ops(gens@) =~= Seq::<GenericChangeV>::empty());
                        }
                        Ok((attrs, vis, name, gens, i2 + 2))
                    }
                }
            },
        },
    }
}

impl crate::map_struct::MapStruct {
    /// Parses a whole struct change specification from its text, or fails
    /// with a positioned syntax error.
    pub fn parse(text: &Vec<u8>) -> (r: Result<Self, ChangeError>)
        ensures
            match r {
                Ok(ms) => parse_map_struct_text(text@) == Ok::<MapStructV, int>(ms@),
                Err(er) => parse_map_struct_text(text@) is Err && er == (ChangeError::Syntax {
                    pos: parse_map_struct_text(text@)->Err_0 as usize,
                }),
            },
    {
        let toks = match crate::token::lex(text) {
            Ok(toks) => toks,
            Err(er) => {
                return Err(er);
            },
        };
        match e_parse_spec_head(&toks, false) {
            Err(er) => Err(er),
            Ok((attrs, vis, name, gens, i)) => {
                if !e_tok_punct(&toks, i, 123) {
                    Err(ChangeError::Syntax { pos: e_pos_at(&toks, i) })
                } else {
                    match e_parse_named_ops(&toks, i + 1) {
                        Err(er) => Err(er),
                        Ok((ops, e)) => {
                            if !e_tok_punct(&toks, e, 125) {
                                Err(ChangeError::Syntax { pos: e_pos_at(&toks, e) })
                            } else if e + 1 != toks.len() {
                                Err(ChangeError::Syntax { pos: e_pos_at(&toks, e + 1) })
                            } else {
                                Ok(
                                    crate::map_struct::MapStruct {
                                        attrs,
                                        vis,
                                        ident: name,
                                        generics: gens,
                                        changes: crate::struct_change::StructChange {
                                            changes: ops,
                                        },
                                    },
                                )
                            }
                        },
                    }
                }
            },
        }
    }
}

impl crate::map_enum::MapEnum {
    /// Parses a whole enum change specification from its text, or fails
    /// with a positioned syntax error.
    pub fn parse(text: &Vec<u8>) -> (r: Result<Self, ChangeError>)
        ensures
            match r {
                Ok(me) => parse_map_enum_text(text@) == Ok::<MapEnumV, int>(me@),
                Err(er) => parse_map_enum_text(text@) is Err && er == (ChangeError::Syntax {
                    pos: parse_map_enum_text(text@)->Err_0 as usize,
                }),
            },
    {
        let toks = match crate::token::lex(text) {
            Ok(toks) => toks,
            Err(er) => {
                return Err(er);
            },
        };
        match e_parse_spec_head(&toks, true) {
            Err(er) => Err(er),
            Ok((attrs, vis, name, gens, i)) => {
                if !e_tok_punct(&toks, i, 123) {
                    Err(ChangeError::Syntax { pos: e_pos_at(&toks, i) })
                } else {
                    match e_parse_variant_ops(&toks, i + 1) {
                        Err(er) => Err(er),
                        Ok((ops, e)) => {
                            if !e_tok_punct(&toks, e, 125) {
                                Err(ChangeError::Syntax { pos: e_pos_at(&toks, e) })
                            } else if e + 1 != toks.len() {
                                Err(ChangeError::Syntax { pos: e_pos_at(&toks, e + 1) })
                            } else {
                                Ok(
                                    crate::map_enum::MapEnum {
                                        attrs,
                                        vis,
                                        ident: name,
                                        generics: gens,
                                        changes: crate::enum_change::EnumChange { changes: ops },
                                    },
                                )
                            }
                        },
                    }
                }
            },
        }
    }
}


/// A whole text re-spelled canonically: its tokens joined with single
/// spaces. Type guards compare canonical spellings, so a caller that
/// obtained a type's text elsewhere puts it through this before handing
/// it to the library.
pub open spec fn canonical_text(s: Seq<u8>) -> Result<Seq<u8>, int> {
    match crate::token::lex_spec(s) {
        Ok(toks) => Ok(join_text(toks, 0, toks.len() as int)),
        Err(p) => Err(p),
    }
}

/// Re-spells a text canonically, or fails with the position of the first
/// malformed token.
pub fn canonicalize_text(s: &Vec<u8>) -> (r: Result<Vec<u8>, ChangeError>)
    ensures
        match r {
            Ok(t) => canonical_text(s@) == Ok::<Seq<u8>, int>(t@),
            Err(er) => canonical_text(s@) is Err && er == (ChangeError::Syntax {
                pos: canonical_text(s@)->Err_0 as usize,
            }),
        },
{
    match crate::token::lex(s) {
        Ok(toks) => Ok(e_join_text(&toks, 0, toks.len())),
        Err(er) => Err(er),
    }
}

} // verus!
