//! The data model: visibilities, fields, shapes, variants, generic
//! parameters and whole type definitions, together with their mathematical
//! views and the error type shared by the parser and the transformers.
//!
//! Identifiers and type expressions are byte strings; a type guard compares
//! the declared type text of two fields, so equality throughout is textual.

use vstd::prelude::*;
use vstd::std_specs::cmp::PartialEqSpec;

verus! {

/// The visibility of a field or of a type definition.
#[derive(Debug, PartialEq, Eq)]
pub enum Visibility {
    /// No visibility modifier.
    Inherited,
    /// `pub`.
    Public,
    /// `pub(...)`; the payload is the text between the parentheses.
    Restricted(Vec<u8>),
}

/// Mathematical view of [`Visibility`].
pub enum VisV {
    Inherited,
    Public,
    Restricted(Seq<u8>),
}

impl View for Visibility {
    type V = VisV;

    open spec fn view(&self) -> VisV {
        match self {
            Visibility::Inherited => VisV::Inherited,
            Visibility::Public => VisV::Public,
            Visibility::Restricted(t) => VisV::Restricted(t@),
        }
    }
}

impl Clone for Visibility {
    fn clone(&self) -> (res: Self)
        ensures
            res@ == self@,
    {
        match self {
            Visibility::Inherited => Visibility::Inherited,
            Visibility::Public => Visibility::Public,
            Visibility::Restricted(t) => {
                let c = clone_bytes(t);
                Visibility::Restricted(c)
            },
        }
    }
}

/// One field of a struct, of a struct-shaped variant or of a tuple-shaped
/// variant. Named fields carry a name; positional fields do not.
#[derive(Debug, PartialEq, Eq)]
pub struct FieldSpec {
    pub vis: Visibility,
    pub name: Option<Vec<u8>>,
    pub ty: Vec<u8>,
}

/// Mathematical view of [`FieldSpec`].
#[verifier::ext_equal]
pub struct FieldV {
    pub vis: VisV,
    pub name: Option<Seq<u8>>,
    pub ty: Seq<u8>,
}

impl View for FieldSpec {
    type V = FieldV;

    open spec fn view(&self) -> FieldV {
        FieldV {
            vis: self.vis@,
            name: match self.name {
                Some(n) => Some(n@),
                None => None,
            },
            ty: self.ty@,
        }
    }
}

impl Clone for FieldSpec {
    fn clone(&self) -> (res: Self)
        ensures
            res@ == self@,
    {
        FieldSpec {
            vis: self.vis.clone(),
            name: match &self.name {
                Some(n) => Some(clone_bytes(n)),
                None => None,
            },
            ty: clone_bytes(&self.ty),
        }
    }
}

/// The structural kind of a record or of a variant.
#[derive(Debug, PartialEq, Eq)]
pub enum Shape {
    /// Curly-braced fields, each with a name.
    Named(Vec<FieldSpec>),
    /// Parenthesised fields without names.
    Positional(Vec<FieldSpec>),
    /// No fields at all.
    Unit,
}

/// Mathematical view of [`Shape`].
#[verifier::ext_equal]
pub enum ShapeV {
    Named(Seq<FieldV>),
    Positional(Seq<FieldV>),
    Unit,
}

/// The view of a sequence of fields.
pub open spec fn view_fields(s: Seq<FieldSpec>) -> Seq<FieldV> {
    s.map_values(|f: FieldSpec| f@)
}

impl View for Shape {
    type V = ShapeV;

    open spec fn view(&self) -> ShapeV {
        match self {
            Shape::Named(fs) => ShapeV::Named(view_fields(fs@)),
            Shape::Positional(fs) => ShapeV::Positional(view_fields(fs@)),
            Shape::Unit => ShapeV::Unit,
        }
    }
}

impl Clone for Shape {
    fn clone(&self) -> (res: Self)
        ensures
            res@ == self@,
    {
        match self {
            Shape::Named(fs) => Shape::Named(clone_fields(fs)),
            Shape::Positional(fs) => Shape::Positional(clone_fields(fs)),
            Shape::Unit => Shape::Unit,
        }
    }
}

/// One variant of an enum: a name and a shape.
#[derive(Debug, PartialEq, Eq)]
pub struct VariantSpec {
    pub name: Vec<u8>,
    pub shape: Shape,
}

/// Mathematical view of [`VariantSpec`].
#[verifier::ext_equal]
pub struct VariantV {
    pub name: Seq<u8>,
    pub shape: ShapeV,
}

impl View for VariantSpec {
    type V = VariantV;

    open spec fn view(&self) -> VariantV {
        VariantV { name: self.name@, shape: self.shape@ }
    }
}

impl Clone for VariantSpec {
    fn clone(&self) -> (res: Self)
        ensures
            res@ == self@,
    {
        VariantSpec { name: clone_bytes(&self.name), shape: self.shape.clone() }
    }
}

/// The view of a sequence of variants.
pub open spec fn view_variants(s: Seq<VariantSpec>) -> Seq<VariantV> {
    s.map_values(|v: VariantSpec| v@)
}

/// One generic parameter: the identifier it is known by and the text of its
/// full declaration (a lifetime, a type parameter with its bounds, or a
/// const parameter).
#[derive(Debug, PartialEq, Eq)]
pub struct GenericParamSpec {
    pub ident: Vec<u8>,
    pub decl: Vec<u8>,
}

/// Mathematical view of [`GenericParamSpec`].
#[verifier::ext_equal]
pub struct GenericV {
    pub ident: Seq<u8>,
    pub decl: Seq<u8>,
}

impl View for GenericParamSpec {
    type V = GenericV;

    open spec fn view(&self) -> GenericV {
        GenericV { ident: self.ident@, decl: self.decl@ }
    }
}

impl Clone for GenericParamSpec {
    fn clone(&self) -> (res: Self)
        ensures
            res@ == self@,
    {
        GenericParamSpec { ident: clone_bytes(&self.ident), decl: clone_bytes(&self.decl) }
    }
}

/// The view of a sequence of generic parameters.
pub open spec fn view_generics(s: Seq<GenericParamSpec>) -> Seq<GenericV> {
    s.map_values(|g: GenericParamSpec| g@)
}

/// The body of a type definition.
#[derive(Debug, PartialEq, Eq)]
pub enum TypeBody {
    /// A struct with the given shape.
    Struct(Shape),
    /// An enum with the given variants.
    Enum(Vec<VariantSpec>),
    /// A union; never transformed, only rejected.
    Union,
}

/// Mathematical view of [`TypeBody`].
#[verifier::ext_equal]
pub enum BodyV {
    Struct(ShapeV),
    Enum(Seq<VariantV>),
    Union,
}

impl View for TypeBody {
    type V = BodyV;

    open spec fn view(&self) -> BodyV {
        match self {
            TypeBody::Struct(s) => BodyV::Struct(s@),
            TypeBody::Enum(vs) => BodyV::Enum(view_variants(vs@)),
            TypeBody::Union => BodyV::Union,
        }
    }
}

/// A whole type definition: attributes (each one's text), visibility, name,
/// generic parameters and body.
#[derive(Debug, PartialEq, Eq)]
pub struct TypeDef {
    pub attrs: Vec<Vec<u8>>,
    pub vis: Visibility,
    pub name: Vec<u8>,
    pub generics: Vec<GenericParamSpec>,
    pub body: TypeBody,
}

/// Mathematical view of [`TypeDef`].
#[verifier::ext_equal]
pub struct TypeDefV {
    pub attrs: Seq<Seq<u8>>,
    pub vis: VisV,
    pub name: Seq<u8>,
    pub generics: Seq<GenericV>,
    pub body: BodyV,
}

/// The view of a sequence of attribute texts.
pub open spec fn view_attrs(s: Seq<Vec<u8>>) -> Seq<Seq<u8>> {
    s.map_values(|a: Vec<u8>| a@)
}

impl View for TypeDef {
    type V = TypeDefV;

    open spec fn view(&self) -> TypeDefV {
        TypeDefV {
            attrs: view_attrs(self.attrs@),
            vis: self.vis@,
            name: self.name@,
            generics: view_generics(self.generics@),
            body: self.body@,
        }
    }
}

/// Every way a change specification can fail: a positioned syntax error,
/// a shape error, a conflict error, a completeness error or a
/// positional-sequencing error.
#[derive(Clone, Copy, PartialEq, Eq, Structural, Debug)]
pub enum ChangeError {
    /// The change text is malformed at the given byte offset.
    Syntax { pos: usize },
    /// An operation matched an item that an earlier operation had already
    /// removed or transformed, or one operation both removes and transforms
    /// the same item.
    Conflict,
    /// A non-add operation matched no item at all.
    NoTargetMatched,
    /// A positional type guard did not equal the consumed field's type.
    TypeMismatch,
    /// A positional operation needed to consume an original field but none
    /// remained.
    NoMoreFields,
    /// The positional operation list ended with original fields left over.
    UnmatchedOriginals,
    /// A tuple retype matched a struct-shaped variant.
    StructAsTupleRetype,
    /// A struct retype matched a tuple-shaped variant.
    TupleAsStructRetype,
    /// A retype matched a unit variant, which has no fields to change;
    /// replacing the whole variant is the intended operation instead.
    UnitRetype,
    /// The base is a tuple struct, which has no named fields to transform.
    TupleBaseUnsupported,
    /// The base is a unit struct, which has no fields to transform.
    UnitBaseUnsupported,
    /// The base is neither a named-field struct nor an enum.
    BaseNotSupported,
}

/// The bookkeeping state of one item during a transformer pass, used to
/// detect conflicting operations.
#[derive(Clone, Copy, PartialEq, Eq, Structural, Debug)]
pub enum Tag {
    /// Untouched so far.
    Original,
    /// Created by an add operation during this pass.
    Added,
    /// Transformed in place by an earlier operation.
    Changed,
    /// Marked for removal by an earlier operation.
    Removed,
}

/// Clones a byte string.
pub fn clone_bytes(a: &Vec<u8>) -> (r: Vec<u8>)
    ensures
        r@ == a@,
{
    let r = a.clone();
    proof {
        assert(r@ =~= a@);
    }
    r
}

/// Compares two byte strings for equality.
pub fn bytes_eq(a: &Vec<u8>, b: &Vec<u8>) -> (r: bool)
    ensures
        r == (a@ == b@),
{
    let r = a == b;
    proof {
        if r {
            assert(a@ =~= b@);
        } else {
            if a@ == b@ {
                assert(a.eq_spec(b));
            }
        }
    }
    r
}

/// Compares an optional type guard against a type text: a missing guard
/// matches anything.
pub fn guard_matches(guard: &Option<Vec<u8>>, ty: &Vec<u8>) -> (r: bool)
    ensures
        r == spec_guard_matches(
            match *guard {
                Some(ref g) => Some(g@),
                None => None,
            },
            ty@,
        ),
{
    match guard {
        Some(g) => bytes_eq(g, ty),
        None => true,
    }
}

/// A missing guard matches anything; a present guard matches exactly its
/// own text.
pub open spec fn spec_guard_matches(guard: Option<Seq<u8>>, ty: Seq<u8>) -> bool {
    match guard {
        Some(g) => g == ty,
        None => true,
    }
}

/// The view of an optional byte string.
pub open spec fn view_opt_bytes(o: Option<Vec<u8>>) -> Option<Seq<u8>> {
    match o {
        Some(b) => Some(b@),
        None => None,
    }
}

/// Clones an optional byte string.
pub fn clone_opt_bytes(o: &Option<Vec<u8>>) -> (r: Option<Vec<u8>>)
    ensures
        view_opt_bytes(r) == view_opt_bytes(*o),
{
    match o {
        Some(b) => Some(clone_bytes(b)),
        None => None,
    }
}

/// The view of a field-list result: errors pass through, field lists are
/// viewed elementwise.
pub open spec fn view_fields_result(r: Result<Vec<FieldSpec>, ChangeError>) -> Result<
    Seq<FieldV>,
    ChangeError,
> {
    match r {
        Ok(v) => Ok(view_fields(v@)),
        Err(e) => Err(e),
    }
}

/// Clones a sequence of fields.
pub fn clone_fields(fs: &Vec<FieldSpec>) -> (r: Vec<FieldSpec>)
    ensures
        view_fields(r@) == view_fields(fs@),
{
    let mut r: Vec<FieldSpec> = Vec::new();
    let mut i: usize = 0;
    while i < fs.len()
        invariant
            i <= fs.len(),
            r@.len() == i,
            forall|j: int| 0 <= j < i ==> r@[j]@ == fs@[j]@,
        decreases fs.len() - i,
    {
        r.push(fs[i].clone());
        i = i + 1;
    }
    proof {
        assert(view_fields(r@) =~= view_fields(fs@));
    }
    r
}

/// Clones a sequence of attribute texts.
pub fn clone_attrs(attrs: &Vec<Vec<u8>>) -> (r: Vec<Vec<u8>>)
    ensures
        view_attrs(r@) == view_attrs(attrs@),
{
    let mut r: Vec<Vec<u8>> = Vec::new();
    let mut i: usize = 0;
    while i < attrs.len()
        invariant
            i <= attrs.len(),
            r@.len() == i,
            forall|j: int| 0 <= j < i ==> r@[j]@ == attrs@[j]@,
        decreases attrs.len() - i,
    {
        r.push(clone_bytes(&attrs[i]));
        i = i + 1;
    }
    proof {
        assert(view_attrs(r@) =~= view_attrs(attrs@));
    }
    r
}

} // verus!
