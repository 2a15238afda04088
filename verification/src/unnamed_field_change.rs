//! Change operations over positional (tuple-shaped) field sequences.
//!
//! Positional fields have no identity beyond their position, so every
//! operation other than an add consumes exactly one remaining original
//! field, in order; an optional type guard must textually equal the
//! consumed field's type.

use vstd::prelude::*;

use crate::model::{VisV, Visibility};

verus! {

/// One change operation in the positional domain.
pub enum UnnamedFieldChange {
    /// Append a new field with the given visibility and type; consumes no
    /// original field.
    Add { visibility: Visibility, ty: Vec<u8> },
    /// Consume the next original field and drop it; a present guard must
    /// equal its type.
    Remove { ty: Option<Vec<u8>> },
    /// Consume the next original field and keep it with a new type; a
    /// present guard must equal its old type.
    Retype { old_type: Option<Vec<u8>>, new_type: Vec<u8> },
    /// Consume the next original field and keep it unchanged; a present
    /// guard must equal its type.
    Match { ty: Option<Vec<u8>> },
}

/// Mathematical view of [`UnnamedFieldChange`].
pub enum UnnamedChangeV {
    Add { visibility: VisV, ty: Seq<u8> },
    Remove { ty: Option<Seq<u8>> },
    Retype { old_type: Option<Seq<u8>>, new_type: Seq<u8> },
    Match { ty: Option<Seq<u8>> },
}

impl View for UnnamedFieldChange {
    type V = UnnamedChangeV;

    open spec fn view(&self) -> UnnamedChangeV {
        match self {
            UnnamedFieldChange::Add { visibility, ty } => UnnamedChangeV::Add {
                visibility: visibility@,
                ty: ty@,
            },
            UnnamedFieldChange::Remove { ty } => UnnamedChangeV::Remove {
                ty: crate::model::view_opt_bytes(*ty),
            },
            UnnamedFieldChange::Retype { old_type, new_type } => UnnamedChangeV::Retype {
                old_type: crate::model::view_opt_bytes(*old_type),
                new_type: new_type@,
            },
            UnnamedFieldChange::Match { ty } => UnnamedChangeV::Match {
                ty: crate::model::view_opt_bytes(*ty),
            },
        }
    }
}

/// The view of a sequence of positional change operations.
pub open spec fn view_unnamed_ops(s: Seq<UnnamedFieldChange>) -> Seq<UnnamedChangeV> {
    s.map_values(|c: UnnamedFieldChange| c@)
}

} // verus!
