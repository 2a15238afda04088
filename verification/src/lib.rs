//! Derive one or more record-type definitions from a base definition by
//! applying an ordered list of change operations written in a small change
//! language.
//!
//! The crate models type definitions as plain data: identifiers and type
//! expressions are byte strings, so that every transformation is a pure,
//! verified function from a base shape and an operation list to a new shape
//! or an error.

pub mod enum_change;
pub mod generic;
pub mod laws;
pub mod map_enum;
pub mod map_struct;
pub mod model;
pub mod named_field_change;
pub mod parse;
pub mod struct_change;
pub mod token;
pub mod tuple_change;
pub mod unnamed_field_change;
pub mod variant;

use vstd::prelude::*;

use crate::map_enum::{map_enum_apply, MapEnum};
use crate::map_struct::{map_struct_apply, view_typedef_result, MapStruct};
use crate::model::{BodyV, ChangeError, TypeBody, TypeDef, TypeDefV};
use crate::parse::{parse_map_enum_text, parse_map_struct_text};

verus! {

/// What one change specification's text makes of the base definition: the
/// text is parsed per the base's kind — the struct grammar for a struct
/// base, the enum grammar for an enum base — and the parsed specification
/// is applied; a base that is neither is rejected.
pub open spec fn derive_one(base: TypeDefV, text: Seq<u8>) -> Result<TypeDefV, ChangeError> {
    match base.body {
        BodyV::Struct(_) => match parse_map_struct_text(text) {
            Ok(ms) => map_struct_apply(ms, base),
            Err(p) => Err(ChangeError::Syntax { pos: p as usize }),
        },
        BodyV::Enum(_) => match parse_map_enum_text(text) {
            Ok(me) => map_enum_apply(me, base),
            Err(p) => Err(ChangeError::Syntax { pos: p as usize }),
        },
        BodyV::Union => Err(ChangeError::BaseNotSupported),
    }
}

/// Derives one type definition per change specification. Each
/// specification is independent: a parse or transform failure yields that
/// specification's own error and leaves every other result untouched.
pub fn derive(base: &TypeDef, specs: &Vec<Vec<u8>>) -> (r: Vec<Result<TypeDef, ChangeError>>)
    ensures
        r@.len() == specs@.len(),
        forall|m: int|
            0 <= m < specs@.len() ==> view_typedef_result(#[trigger] r@[m]) == derive_one(
                base@,
                specs@[m]@,
            ),
{
    let mut out: Vec<Result<TypeDef, ChangeError>> = Vec::new();
    let mut i: usize = 0;
    while i < specs.len()
        invariant
            i <= specs.len(),
            out@.len() == i,
            forall|m: int|
                0 <= m < i ==> view_typedef_result(#[trigger] out@[m]) == derive_one(
                    base@,
                    specs@[m]@,
                ),
        decreases specs.len() - i,
    {
        let one = match &base.body {
            TypeBody::Struct(_) => match MapStruct::parse(&specs[i]) {
                Ok(ms) => ms.transform(base),
                Err(e) => Err(e),
            },
            TypeBody::Enum(_) => match MapEnum::parse(&specs[i]) {
                Ok(me) => me.transform(base),
                Err(e) => Err(e),
            },
            TypeBody::Union => Err(ChangeError::BaseNotSupported),
        };
        out.push(one);
        i = i + 1;
    }
    out
}

} // verus!
