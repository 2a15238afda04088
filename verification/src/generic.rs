//! The generic-parameter patcher: a deliberately minimal two-pass
//! add/remove over a type's generic-parameter list.
//!
//! A remove drops every parameter whose identifier it names, across
//! lifetime, type and const parameters alike; the adds are then appended
//! in operation order. Removing an absent name or adding a duplicate is
//! not an error here: any inconsistency surfaces only in later syntactic
//! validation of the produced declaration.

use vstd::prelude::*;

use crate::model::{bytes_eq, GenericParamSpec, GenericV, view_generics};

verus! {

/// One change operation in the generic-parameter domain.
pub enum GenericChange {
    /// Append the full declaration of a new parameter.
    Add(GenericParamSpec),
    /// Drop every parameter with the given identifier.
    Remove(Vec<u8>),
}

/// Mathematical view of [`GenericChange`].
pub enum GenericChangeV {
    Add(GenericV),
    Remove(Seq<u8>),
}

impl View for GenericChange {
    type V = GenericChangeV;

    open spec fn view(&self) -> GenericChangeV {
        match self {
            GenericChange::Add(g) => GenericChangeV::Add(g@),
            GenericChange::Remove(n) => GenericChangeV::Remove(n@),
        }
    }
}

/// The view of a sequence of generic-parameter change operations.
pub open spec fn view_generic_ops(s: Seq<GenericChange>) -> Seq<GenericChangeV> {
    s.map_values(|c: GenericChange| c@)
}

/// Whether some remove operation names the given identifier.
pub open spec fn generic_removed(ops: Seq<GenericChangeV>, ident: Seq<u8>) -> bool {
    exists|j: int| 0 <= j < ops.len() && ops[j] == GenericChangeV::Remove(ident)
}

/// The base parameters that survive the removes, in their original order.
pub open spec fn filter_generics(params: Seq<GenericV>, ops: Seq<GenericChangeV>) -> Seq<GenericV>
    decreases params.len(),
{
    if params.len() == 0 {
        Seq::empty()
    } else {
        filter_generics(params.drop_last(), ops) + if generic_removed(ops, params.last().ident) {
            Seq::empty()
        } else {
            seq![params.last()]
        }
    }
}

/// The parameters the add operations from index `j` on append, in order.
pub open spec fn generics_added_from(ops: Seq<GenericChangeV>, j: int) -> Seq<GenericV>
    decreases ops.len() - j,
{
    if j < 0 || j >= ops.len() {
        Seq::empty()
    } else {
        (match ops[j] {
            GenericChangeV::Add(g) => seq![g],
            GenericChangeV::Remove(_) => Seq::empty(),
        }) + generics_added_from(ops, j + 1)
    }
}

/// The whole patch: the surviving base parameters followed by every added
/// one.
pub open spec fn generic_apply(params: Seq<GenericV>, ops: Seq<GenericChangeV>) -> Seq<GenericV> {
    filter_generics(params, ops) + generics_added_from(ops, 0)
}

/// Whether any remove operation in the list names the given identifier.
fn is_removed(ops: &Vec<GenericChange>, ident: &Vec<u8>) -> (r: bool)
    ensures
        r == generic_removed(view_generic_ops(ops@), ident@),
{
    let mut j: usize = 0;
    while j < ops.len()
        invariant
            j <= ops.len(),
            forall|m: int| 0 <= m < j ==> (view_generic_ops(ops@)[m]) != GenericChangeV::Remove(
                ident@,
            ),
        decreases ops.len() - j,
    {
        match &ops[j] {
            GenericChange::Remove(n) => {
                if bytes_eq(n, ident) {
                    proof {
                        assert(view_generic_ops(ops@)[j as int] == GenericChangeV::Remove(ident@));
                    }
                    return true;
                }
            },
            GenericChange::Add(_) => {},
        }
        j = j + 1;
    }
    false
}

/// Applies an add/remove operation list to a generic-parameter list.
pub fn apply_generic_changes(params: &Vec<GenericParamSpec>, ops: &Vec<GenericChange>) -> (r: Vec<
    GenericParamSpec,
>)
    ensures
        view_generics(r@) == generic_apply(view_generics(params@), view_generic_ops(ops@)),
{
    let ghost paramsv = view_generics(params@);
    let ghost opsv = view_generic_ops(ops@);
    let mut r: Vec<GenericParamSpec> = Vec::new();
    let mut i: usize = 0;
    while i < params.len()
        invariant
            i <= params.len(),
            paramsv == view_generics(params@),
            opsv == view_generic_ops(ops@),
            view_generics(r@) == filter_generics(paramsv.take(i as int), opsv),
        decreases params.len() - i,
    {
        let ghost r0 = view_generics(r@);
        if !is_removed(ops, &params[i].ident) {
            r.push(params[i].clone());
        }
        proof {
            assert(paramsv.take(i as int + 1).drop_last() =~= paramsv.take(i as int));
            assert(paramsv.take(i as int + 1).last() == paramsv[i as int]);
            assert(paramsv[i as int].ident == params@[i as int]@.ident);
            if !generic_removed(opsv, paramsv[i as int].ident) {
                assert(view_generics(r@) =~= r0 + seq![paramsv[i as int]]);
            } else {
                assert(view_generics(r@) =~= r0 + Seq::<GenericV>::empty());
                assert(r0 + Seq::<GenericV>::empty() =~= r0);
            }
        }
        i = i + 1;
    }
    proof {
        assert(paramsv.take(paramsv.len() as int) =~= paramsv);
    }
    let mut j: usize = 0;
    while j < ops.len()
        invariant
            j <= ops.len(),
            opsv == view_generic_ops(ops@),
            paramsv == view_generics(params@),
            view_generics(r@) + generics_added_from(opsv, j as int) == generic_apply(
                paramsv,
                opsv,
            ),
        decreases ops.len() - j,
    {
        let ghost r0 = view_generics(r@);
        match &ops[j] {
            GenericChange::Add(g) => {
                r.push(g.clone());
                proof {
                    assert(view_generics(r@) =~= r0 + seq![opsv[j as int]->Add_0]);
                    assert((r0 + seq![opsv[j as int]->Add_0]) + generics_added_from(
                        opsv,
                        j as int + 1,
                    ) =~= r0 + (seq![opsv[j as int]->Add_0] + generics_added_from(
                        opsv,
                        j as int + 1,
                    )));
                }
            },
            GenericChange::Remove(_) => {
                proof {
                    assert(generics_added_from(opsv, j as int) =~= Seq::<GenericV>::empty()
                        + generics_added_from(opsv, j as int + 1));
                }
            },
        }
        j = j + 1;
    }
    proof {
        assert(view_generics(r@) + Seq::<GenericV>::empty() =~= view_generics(r@));
    }
    r
}

} // verus!
