//! Change operations over named field collections.
//!
//! Named fields are matched by identity: an operation names the field it
//! removes or transforms, and a change may rename, retype and set the
//! visibility of its target in one step.

use vstd::prelude::*;

use crate::model::{
    bytes_eq, clone_bytes, clone_opt_bytes, spec_guard_matches, view_opt_bytes, FieldSpec, FieldV,
    VisV, Visibility,
};

verus! {

/// One change operation in the named-field domain.
pub enum NamedFieldChange {
    /// Append a new field with the given visibility, name and type.
    Add { visibility: Visibility, ident: Vec<u8>, ty: Vec<u8> },
    /// Remove the field with the given name; a present guard must equal
    /// its type for the operation to match.
    Remove { ident: Vec<u8>, ty: Option<Vec<u8>> },
    /// Transform the field with the given name in place: optionally rename
    /// it, optionally retype it, and set its visibility.
    Change { visibility: Visibility, ident: Vec<u8>, to: Option<Vec<u8>>, ty: Option<Vec<u8>> },
}

/// Mathematical view of [`NamedFieldChange`].
pub enum NamedChangeV {
    Add { visibility: VisV, ident: Seq<u8>, ty: Seq<u8> },
    Remove { ident: Seq<u8>, ty: Option<Seq<u8>> },
    Change { visibility: VisV, ident: Seq<u8>, to: Option<Seq<u8>>, ty: Option<Seq<u8>> },
}

impl View for NamedFieldChange {
    type V = NamedChangeV;

    open spec fn view(&self) -> NamedChangeV {
        match self {
            NamedFieldChange::Add { visibility, ident, ty } => NamedChangeV::Add {
                visibility: visibility@,
                ident: ident@,
                ty: ty@,
            },
            NamedFieldChange::Remove { ident, ty } => NamedChangeV::Remove {
                ident: ident@,
                ty: view_opt_bytes(*ty),
            },
            NamedFieldChange::Change { visibility, ident, to, ty } => NamedChangeV::Change {
                visibility: visibility@,
                ident: ident@,
                to: view_opt_bytes(*to),
                ty: view_opt_bytes(*ty),
            },
        }
    }
}

/// The view of a sequence of named-field change operations.
pub open spec fn view_named_ops(s: Seq<NamedFieldChange>) -> Seq<NamedChangeV> {
    s.map_values(|c: NamedFieldChange| c@)
}

/// The view of an optional field.
pub open spec fn view_opt_field(o: Option<FieldSpec>) -> Option<FieldV> {
    match o {
        Some(f) => Some(f@),
        None => None,
    }
}

/// The field an operation creates, if it is an add.
pub open spec fn named_creates(op: NamedChangeV) -> Option<FieldV> {
    match op {
        NamedChangeV::Add { visibility, ident, ty } => Some(
            FieldV { vis: visibility, name: Some(ident), ty },
        ),
        _ => None,
    }
}

/// Whether an operation asks for the given field to be removed: it must be
/// a remove naming the field, and a present type guard must equal the
/// field's type.
pub open spec fn named_removes(op: NamedChangeV, f: FieldV) -> bool {
    match op {
        NamedChangeV::Remove { ident, ty } => f.name == Some(ident) && spec_guard_matches(
            ty,
            f.ty,
        ),
        _ => false,
    }
}

/// The in-place transformation an operation applies to the given field, if
/// it is a change naming the field: the optional rename and retype are
/// applied and the visibility is set to the operation's own.
pub open spec fn named_transforms(op: NamedChangeV, f: FieldV) -> Option<FieldV> {
    match op {
        NamedChangeV::Change { visibility, ident, to, ty } => {
            if f.name == Some(ident) {
                Some(
                    FieldV {
                        vis: visibility,
                        name: match to {
                            Some(n) => Some(n),
                            None => f.name,
                        },
                        ty: match ty {
                            Some(t) => t,
                            None => f.ty,
                        },
                    },
                )
            } else {
                None
            }
        },
        _ => None,
    }
}

/// Compares a field's name against an operation's target identifier.
fn name_is(name: &Option<Vec<u8>>, ident: &Vec<u8>) -> (r: bool)
    ensures
        r == (view_opt_bytes(*name) == Some(ident@)),
{
    match name {
        Some(n) => bytes_eq(n, ident),
        None => false,
    }
}

impl NamedFieldChange {
    /// The field this operation creates: one new field for an add, nothing
    /// for the other operations.
    pub fn create(&self) -> (r: Option<FieldSpec>)
        ensures
            view_opt_field(r) == named_creates(self@),
    {
        match self {
            NamedFieldChange::Add { visibility, ident, ty } => Some(
                FieldSpec {
                    vis: visibility.clone(),
                    name: Some(clone_bytes(ident)),
                    ty: clone_bytes(ty),
                },
            ),
            _ => None,
        }
    }

    /// Whether this operation asks for the given field to be removed.
    pub fn remove(&self, field: &FieldSpec) -> (r: bool)
        ensures
            r == named_removes(self@, field@),
    {
        match self {
            NamedFieldChange::Remove { ident, ty } => {
                name_is(&field.name, ident) && crate::model::guard_matches(ty, &field.ty)
            },
            _ => false,
        }
    }

    /// The transformed field this operation turns the given field into, if
    /// it is a change that matches it.
    pub fn transform(&self, field: &FieldSpec) -> (r: Option<FieldSpec>)
        ensures
            view_opt_field(r) == named_transforms(self@, field@),
    {
        match self {
            NamedFieldChange::Change { visibility, ident, to, ty } => {
                if name_is(&field.name, ident) {
                    Some(
                        FieldSpec {
                            vis: visibility.clone(),
                            name: match to {
                                Some(n) => Some(clone_bytes(n)),
                                None => clone_opt_bytes(&field.name),
                            },
                            ty: match ty {
                                Some(t) => clone_bytes(t),
                                None => clone_bytes(&field.ty),
                            },
                        },
                    )
                } else {
                    None
                }
            },
            _ => None,
        }
    }
}

} // verus!
