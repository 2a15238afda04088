//! Change operations over an enum's variant list.
//!
//! Variants are matched by name. A retype recurses into the named-field or
//! positional transformer on the matched variant's own fields and may
//! rename the variant at the same time; a shape mismatch is an error, never
//! a silent coercion. A replace discards the matched variant's prior shape
//! and substitutes a fully specified variant.

use vstd::prelude::*;

use crate::model::{
    bytes_eq, clone_bytes, view_fields, view_opt_bytes, ChangeError, Shape, ShapeV, VariantSpec,
    VariantV,
};
use crate::named_field_change::NamedChangeV;
use crate::struct_change::{named_apply, StructChange};
use crate::tuple_change::{tuple_apply, TupleChange};
use crate::unnamed_field_change::UnnamedChangeV;

verus! {

/// One change operation in the variant domain.
pub enum VariantChange {
    /// Add a new variant to the enum.
    Add(VariantSpec),
    /// Remove the variant with the given name.
    Remove(Vec<u8>),
    /// Rename the variant with the given name.
    Rename(Vec<u8>, Vec<u8>),
    /// Apply a positional change list to the named variant's fields,
    /// optionally renaming it.
    TupleRetype(Vec<u8>, Option<Vec<u8>>, TupleChange),
    /// Apply a named-field change list to the named variant's fields,
    /// optionally renaming it.
    StructRetype(Vec<u8>, Option<Vec<u8>>, StructChange),
    /// Replace a whole variant: the one named explicitly before the arrow,
    /// or the one whose name equals the replacement's own.
    Replace(Option<Vec<u8>>, VariantSpec),
}

/// Mathematical view of [`VariantChange`].
pub enum VariantChangeV {
    Add(VariantV),
    Remove(Seq<u8>),
    Rename(Seq<u8>, Seq<u8>),
    TupleRetype(Seq<u8>, Option<Seq<u8>>, Seq<UnnamedChangeV>),
    StructRetype(Seq<u8>, Option<Seq<u8>>, Seq<NamedChangeV>),
    Replace(Option<Seq<u8>>, VariantV),
}

impl View for VariantChange {
    type V = VariantChangeV;

    open spec fn view(&self) -> VariantChangeV {
        match self {
            VariantChange::Add(v) => VariantChangeV::Add(v@),
            VariantChange::Remove(n) => VariantChangeV::Remove(n@),
            VariantChange::Rename(from, to) => VariantChangeV::Rename(from@, to@),
            VariantChange::TupleRetype(from, to, tc) => VariantChangeV::TupleRetype(
                from@,
                view_opt_bytes(*to),
                tc@,
            ),
            VariantChange::StructRetype(from, to, sc) => VariantChangeV::StructRetype(
                from@,
                view_opt_bytes(*to),
                sc@,
            ),
            VariantChange::Replace(from, v) => VariantChangeV::Replace(view_opt_bytes(*from), v@),
        }
    }
}

/// The view of a sequence of variant change operations.
pub open spec fn view_variant_ops(s: Seq<VariantChange>) -> Seq<VariantChangeV> {
    s.map_values(|c: VariantChange| c@)
}

/// The view of an optional variant.
pub open spec fn view_opt_variant(o: Option<VariantSpec>) -> Option<VariantV> {
    match o {
        Some(v) => Some(v@),
        None => None,
    }
}

/// The name a retype leaves the variant with: the rename target if one was
/// given, the matched name otherwise.
pub open spec fn rename_or(to: Option<Seq<u8>>, from: Seq<u8>) -> Seq<u8> {
    match to {
        Some(t) => t,
        None => from,
    }
}

/// The variant an operation creates, if it is an add.
pub open spec fn variant_creates(op: VariantChangeV) -> Option<VariantV> {
    match op {
        VariantChangeV::Add(v) => Some(v),
        _ => None,
    }
}

/// Whether an operation asks for the given variant to be removed.
pub open spec fn variant_removes(op: VariantChangeV, v: VariantV) -> bool {
    match op {
        VariantChangeV::Remove(n) => v.name == n,
        _ => false,
    }
}

/// What an operation does to the given variant if it matches it by name:
/// nothing, a successful in-place transformation, or an error of its own —
/// a shape mismatch, or a failure of the nested change list.
pub open spec fn variant_transforms(op: VariantChangeV, v: VariantV) -> Option<
    Result<VariantV, ChangeError>,
> {
    match op {
        VariantChangeV::Rename(from, to) => {
            if v.name == from {
                Some(Ok(VariantV { name: to, shape: v.shape }))
            } else {
                None
            }
        },
        VariantChangeV::TupleRetype(from, to, tops) => {
            if v.name == from {
                match v.shape {
                    ShapeV::Named(_) => Some(Err(ChangeError::StructAsTupleRetype)),
                    ShapeV::Positional(fs) => match tuple_apply(fs, tops) {
                        Ok(nf) => Some(
                            Ok(
                                VariantV {
                                    name: rename_or(to, from),
                                    shape: ShapeV::Positional(nf),
                                },
                            ),
                        ),
                        Err(e) => Some(Err(e)),
                    },
                    ShapeV::Unit => Some(Err(ChangeError::UnitRetype)),
                }
            } else {
                None
            }
        },
        VariantChangeV::StructRetype(from, to, nops) => {
            if v.name == from {
                match v.shape {
                    ShapeV::Named(fs) => match named_apply(fs, nops) {
                        Ok(nf) => Some(
                            Ok(VariantV { name: rename_or(to, from), shape: ShapeV::Named(nf) }),
                        ),
                        Err(e) => Some(Err(e)),
                    },
                    ShapeV::Positional(_) => Some(Err(ChangeError::TupleAsStructRetype)),
                    ShapeV::Unit => Some(Err(ChangeError::UnitRetype)),
                }
            } else {
                None
            }
        },
        VariantChangeV::Replace(from, nv) => {
            match from {
                Some(f) => if v.name == f {
                    Some(Ok(nv))
                } else {
                    None
                },
                None => if v.name == nv.name {
                    Some(Ok(nv))
                } else {
                    None
                },
            }
        },
        _ => None,
    }
}

/// The view of one transformation attempt's outcome.
pub open spec fn view_transform_outcome(r: Result<Option<VariantSpec>, ChangeError>) -> Option<
    Result<VariantV, ChangeError>,
> {
    match r {
        Ok(Some(v)) => Some(Ok(v@)),
        Ok(None) => None,
        Err(e) => Some(Err(e)),
    }
}

/// The retyped variant's executable name.
fn rename_to(to: &Option<Vec<u8>>, from: &Vec<u8>) -> (r: Vec<u8>)
    ensures
        r@ == rename_or(view_opt_bytes(*to), from@),
{
    match to {
        Some(t) => clone_bytes(t),
        None => clone_bytes(from),
    }
}

impl VariantChange {
    /// The variant this operation creates: one new variant for an add,
    /// nothing for the other operations.
    pub fn create(&self) -> (r: Option<VariantSpec>)
        ensures
            view_opt_variant(r) == variant_creates(self@),
    {
        match self {
            VariantChange::Add(v) => Some(v.clone()),
            _ => None,
        }
    }

    /// Whether this operation asks for the given variant to be removed.
    pub fn remove(&self, v: &VariantSpec) -> (r: bool)
        ensures
            r == variant_removes(self@, v@),
    {
        match self {
            VariantChange::Remove(n) => bytes_eq(&v.name, n),
            _ => false,
        }
    }

    /// What this operation does to the given variant: `Ok(None)` when it
    /// does not match it, `Ok(Some(new))` when it transforms it, and an
    /// error when it matches it but the retype does not fit its shape or
    /// the nested change list fails.
    pub fn transform(&self, v: &VariantSpec) -> (r: Result<Option<VariantSpec>, ChangeError>)
        ensures
            view_transform_outcome(r) == variant_transforms(self@, v@),
    {
        match self {
            VariantChange::Rename(from, to) => {
                if bytes_eq(&v.name, from) {
                    Ok(Some(VariantSpec { name: clone_bytes(to), shape: v.shape.clone() }))
                } else {
                    Ok(None)
                }
            },
            VariantChange::TupleRetype(from, to, tc) => {
                if bytes_eq(&v.name, from) {
                    match &v.shape {
                        Shape::Named(_) => Err(ChangeError::StructAsTupleRetype),
                        Shape::Positional(fs) => {
                            match tc.transform(fs) {
                                Ok(nf) => Ok(
                                    Some(
                                        VariantSpec {
                                            name: rename_to(to, from),
                                            shape: Shape::Positional(nf),
                                        },
                                    ),
                                ),
                                Err(e) => Err(e),
                            }
                        },
                        Shape::Unit => Err(ChangeError::UnitRetype),
                    }
                } else {
                    Ok(None)
                }
            },
            VariantChange::StructRetype(from, to, sc) => {
                if bytes_eq(&v.name, from) {
                    match &v.shape {
                        Shape::Named(fs) => {
                            match sc.transform(fs) {
                                Ok(nf) => Ok(
                                    Some(
                                        VariantSpec {
                                            name: rename_to(to, from),
                                            shape: Shape::Named(nf),
                                        },
                                    ),
                                ),
                                Err(e) => Err(e),
                            }
                        },
                        Shape::Positional(_) => Err(ChangeError::TupleAsStructRetype),
                        Shape::Unit => Err(ChangeError::UnitRetype),
                    }
                } else {
                    Ok(None)
                }
            },
            VariantChange::Replace(from, nv) => {
                let matched = match from {
                    Some(f) => bytes_eq(&v.name, f),
                    None => bytes_eq(&v.name, &nv.name),
                };
                if matched {
                    Ok(Some(nv.clone()))
                } else {
                    Ok(None)
                }
            },
            VariantChange::Add(_) => Ok(None),
            VariantChange::Remove(_) => Ok(None),
        }
    }
}

} // verus!
