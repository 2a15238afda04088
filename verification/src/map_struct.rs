//! One change specification for a struct base: the target declaration's
//! attributes, visibility, name and generic changes, plus the named-field
//! change list, and its application to a whole base type definition.

use vstd::prelude::*;

use crate::generic::{
    apply_generic_changes, generic_apply, view_generic_ops, GenericChange, GenericChangeV,
};
use crate::model::{
    clone_attrs, clone_bytes, view_attrs, BodyV, ChangeError, Shape, ShapeV, TypeBody, TypeDef,
    TypeDefV, VisV, Visibility,
};
use crate::named_field_change::NamedChangeV;
use crate::struct_change::{named_apply, StructChange};

verus! {

/// A whole change specification for a struct base.
pub struct MapStruct {
    pub attrs: Vec<Vec<u8>>,
    pub vis: Visibility,
    pub ident: Vec<u8>,
    pub generics: Vec<GenericChange>,
    pub changes: StructChange,
}

/// Mathematical view of [`MapStruct`].
#[verifier::ext_equal]
pub struct MapStructV {
    pub attrs: Seq<Seq<u8>>,
    pub vis: VisV,
    pub ident: Seq<u8>,
    pub generics: Seq<GenericChangeV>,
    pub changes: Seq<NamedChangeV>,
}

impl View for MapStruct {
    type V = MapStructV;

    open spec fn view(&self) -> MapStructV {
        MapStructV {
            attrs: view_attrs(self.attrs@),
            vis: self.vis@,
            ident: self.ident@,
            generics: view_generic_ops(self.generics@),
            changes: self.changes@,
        }
    }
}

/// What a struct change specification makes of a base definition: the
/// specification's own attributes, visibility and name, the patched
/// generics, and the transformed named fields — or an error when the field
/// changes fail or the base is not a named-field struct.
pub open spec fn map_struct_apply(ms: MapStructV, base: TypeDefV) -> Result<TypeDefV, ChangeError> {
    match base.body {
        BodyV::Struct(shape) => match shape {
            ShapeV::Named(fs) => match named_apply(fs, ms.changes) {
                Ok(nf) => Ok(
                    TypeDefV {
                        attrs: ms.attrs,
                        vis: ms.vis,
                        name: ms.ident,
                        generics: generic_apply(base.generics, ms.generics),
                        body: BodyV::Struct(ShapeV::Named(nf)),
                    },
                ),
                Err(e) => Err(e),
            },
            ShapeV::Positional(_) => Err(ChangeError::TupleBaseUnsupported),
            ShapeV::Unit => Err(ChangeError::UnitBaseUnsupported),
        },
        _ => Err(ChangeError::BaseNotSupported),
    }
}

/// The view of a type-definition result.
pub open spec fn view_typedef_result(r: Result<TypeDef, ChangeError>) -> Result<
    TypeDefV,
    ChangeError,
> {
    match r {
        Ok(t) => Ok(t@),
        Err(e) => Err(e),
    }
}

impl MapStruct {
    /// Derives a new type definition from the base: the specification's
    /// attributes, visibility and name replace the base's, the generic
    /// changes patch its parameter list, and the field changes transform
    /// its named fields. A base that is not a named-field struct is
    /// rejected with a shape error.
    pub fn transform(&self, base: &TypeDef) -> (r: Result<TypeDef, ChangeError>)
        ensures
            view_typedef_result(r) == map_struct_apply(self@, base@),
    {
        match &base.body {
            TypeBody::Struct(shape) => match shape {
                Shape::Named(fs) => match self.changes.transform(fs) {
                    Ok(nf) => {
                        let out = TypeDef {
                            attrs: clone_attrs(&self.attrs),
                            vis: self.vis.clone(),
                            name: clone_bytes(&self.ident),
                            generics: apply_generic_changes(&base.generics, &self.generics),
                            body: TypeBody::Struct(Shape::Named(nf)),
                        };
                        proof {
                            assert(out@ =~= map_struct_apply(self@, base@)->Ok_0);
                        }
                        Ok(out)
                    },
                    Err(e) => Err(e),
                },
                Shape::Positional(_) => Err(ChangeError::TupleBaseUnsupported),
                Shape::Unit => Err(ChangeError::UnitBaseUnsupported),
            },
            _ => Err(ChangeError::BaseNotSupported),
        }
    }
}

} // verus!
