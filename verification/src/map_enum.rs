//! One change specification for an enum base: the target declaration's
//! attributes, visibility, name and generic changes, plus the variant
//! change list, and its application to a whole base type definition.

use vstd::prelude::*;

use crate::enum_change::{enum_apply, EnumChange};
use crate::generic::{
    apply_generic_changes, generic_apply, view_generic_ops, GenericChange, GenericChangeV,
};
use crate::model::{
    clone_attrs, clone_bytes, view_attrs, BodyV, ChangeError, TypeBody, TypeDef, TypeDefV, VisV,
    Visibility,
};
use crate::map_struct::view_typedef_result;
use crate::variant::VariantChangeV;

verus! {

/// A whole change specification for an enum base.
pub struct MapEnum {
    pub attrs: Vec<Vec<u8>>,
    pub vis: Visibility,
    pub ident: Vec<u8>,
    pub generics: Vec<GenericChange>,
    pub changes: EnumChange,
}

/// Mathematical view of [`MapEnum`].
#[verifier::ext_equal]
pub struct MapEnumV {
    pub attrs: Seq<Seq<u8>>,
    pub vis: VisV,
    pub ident: Seq<u8>,
    pub generics: Seq<GenericChangeV>,
    pub changes: Seq<VariantChangeV>,
}

impl View for MapEnum {
    type V = MapEnumV;

    open spec fn view(&self) -> MapEnumV {
        MapEnumV {
            attrs: view_attrs(self.attrs@),
            vis: self.vis@,
            ident: self.ident@,
            generics: view_generic_ops(self.generics@),
            changes: self.changes@,
        }
    }
}

/// What an enum change specification makes of a base definition: the
/// specification's own attributes, visibility and name, the patched
/// generics, and the transformed variant list — or an error when the
/// variant changes fail or the base is not an enum.
pub open spec fn map_enum_apply(me: MapEnumV, base: TypeDefV) -> Result<TypeDefV, ChangeError> {
    match base.body {
        BodyV::Enum(vs) => match enum_apply(vs, me.changes) {
            Ok(nv) => Ok(
                TypeDefV {
                    attrs: me.attrs,
                    vis: me.vis,
                    name: me.ident,
                    generics: generic_apply(base.generics, me.generics),
                    body: BodyV::Enum(nv),
                },
            ),
            Err(e) => Err(e),
        },
        _ => Err(ChangeError::BaseNotSupported),
    }
}

impl MapEnum {
    /// Derives a new type definition from the base: the specification's
    /// attributes, visibility and name replace the base's, the generic
    /// changes patch its parameter list, and the variant changes transform
    /// its variant list. A base that is not an enum is rejected with a
    /// shape error.
    pub fn transform(&self, base: &TypeDef) -> (r: Result<TypeDef, ChangeError>)
        ensures
            view_typedef_result(r) == map_enum_apply(self@, base@),
    {
        match &base.body {
            TypeBody::Enum(vs) => match self.changes.transform(vs) {
                Ok(nv) => {
                    let out = TypeDef {
                        attrs: clone_attrs(&self.attrs),
                        vis: self.vis.clone(),
                        name: clone_bytes(&self.ident),
                        generics: apply_generic_changes(&base.generics, &self.generics),
                        body: TypeBody::Enum(nv),
                    };
                    proof {
                        assert(out@ =~= map_enum_apply(self@, base@)->Ok_0);
                    }
                    Ok(out)
                },
                Err(e) => Err(e),
            },
            _ => Err(ChangeError::BaseNotSupported),
        }
    }
}

} // verus!
