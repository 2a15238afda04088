//! The positional (tuple) transformer: a single lock-step walk of the
//! operation list against the original field sequence.
//!
//! Adds consume nothing and produce one new field; every other operation
//! consumes exactly one remaining original. When the operation list ends,
//! leftover originals are an error, and consuming past the end is an error.

use vstd::prelude::*;

use crate::model::{
    bytes_eq, clone_bytes, clone_opt_bytes, spec_guard_matches, view_fields, view_fields_result,
    ChangeError, FieldSpec, FieldV, Visibility,
};
use crate::unnamed_field_change::{view_unnamed_ops, UnnamedChangeV, UnnamedFieldChange};

verus! {

/// What remains of a positional run that starts at original index `i` and
/// operation index `j`: the new fields produced by the remaining
/// operations, or the first error met.
pub open spec fn tuple_run_from(
    olds: Seq<FieldV>,
    i: int,
    ops: Seq<UnnamedChangeV>,
    j: int,
) -> Result<Seq<FieldV>, ChangeError>
    decreases ops.len() - j,
{
    if j < 0 || j >= ops.len() {
        if i < olds.len() {
            Err(ChangeError::UnmatchedOriginals)
        } else {
            Ok(Seq::empty())
        }
    } else {
        match ops[j] {
            UnnamedChangeV::Add { visibility, ty } => {
                match tuple_run_from(olds, i, ops, j + 1) {
                    Ok(rest) => Ok(seq![FieldV { vis: visibility, name: None, ty }] + rest),
                    Err(e) => Err(e),
                }
            },
            UnnamedChangeV::Remove { ty } => {
                if i < 0 || i >= olds.len() {
                    Err(ChangeError::NoMoreFields)
                } else if !spec_guard_matches(ty, olds[i].ty) {
                    Err(ChangeError::TypeMismatch)
                } else {
                    tuple_run_from(olds, i + 1, ops, j + 1)
                }
            },
            UnnamedChangeV::Retype { old_type, new_type } => {
                if i < 0 || i >= olds.len() {
                    Err(ChangeError::NoMoreFields)
                } else if !spec_guard_matches(old_type, olds[i].ty) {
                    Err(ChangeError::TypeMismatch)
                } else {
                    match tuple_run_from(olds, i + 1, ops, j + 1) {
                        Ok(rest) => Ok(
                            seq![FieldV { vis: olds[i].vis, name: olds[i].name, ty: new_type }]
                                + rest,
                        ),
                        Err(e) => Err(e),
                    }
                }
            },
            UnnamedChangeV::Match { ty } => {
                if i < 0 || i >= olds.len() {
                    Err(ChangeError::NoMoreFields)
                } else if !spec_guard_matches(ty, olds[i].ty) {
                    Err(ChangeError::TypeMismatch)
                } else {
                    match tuple_run_from(olds, i + 1, ops, j + 1) {
                        Ok(rest) => Ok(seq![olds[i]] + rest),
                        Err(e) => Err(e),
                    }
                }
            },
        }
    }
}

/// The whole positional transformation: the new field sequence that the
/// operation list produces from the original one, or the first error.
pub open spec fn tuple_apply(olds: Seq<FieldV>, ops: Seq<UnnamedChangeV>) -> Result<
    Seq<FieldV>,
    ChangeError,
> {
    tuple_run_from(olds, 0, ops, 0)
}

/// Prefixes already-produced fields onto the rest of a run.
pub open spec fn prepend_fields(pre: Seq<FieldV>, r: Result<Seq<FieldV>, ChangeError>) -> Result<
    Seq<FieldV>,
    ChangeError,
> {
    match r {
        Ok(rest) => Ok(pre + rest),
        Err(e) => Err(e),
    }
}

/// An ordered list of positional change operations, applied as one
/// lock-step walk.
pub struct TupleChange {
    pub changes: Vec<UnnamedFieldChange>,
}

impl View for TupleChange {
    type V = Seq<UnnamedChangeV>;

    open spec fn view(&self) -> Seq<UnnamedChangeV> {
        view_unnamed_ops(self.changes@)
    }
}

impl TupleChange {
    /// Applies the operation list to a positional field sequence, returning
    /// the new sequence or the first error of the walk.
    pub fn transform(&self, fields: &Vec<FieldSpec>) -> (r: Result<Vec<FieldSpec>, ChangeError>)
        ensures
            view_fields_result(r) == tuple_apply(view_fields(fields@), self@),
    {
        let ghost olds = view_fields(fields@);
        let ghost ops = self@;
        let mut news: Vec<FieldSpec> = Vec::new();
        let mut i: usize = 0;
        let mut j: usize = 0;
        while j < self.changes.len()
            invariant
                i <= fields.len(),
                j <= self.changes.len(),
                olds == view_fields(fields@),
                ops == self@,
                tuple_apply(olds, ops) == prepend_fields(
                    view_fields(news@),
                    tuple_run_from(olds, i as int, ops, j as int),
                ),
            decreases self.changes.len() - j,
        {
            let ghost news0 = view_fields(news@);
            let ghost rest = tuple_run_from(olds, i as int + 1, ops, j as int + 1);
            let ghost rest_same = tuple_run_from(olds, i as int, ops, j as int + 1);
            match &self.changes[j] {
                UnnamedFieldChange::Add { visibility, ty } => {
                    news.push(
                        FieldSpec { vis: visibility.clone(), name: None, ty: clone_bytes(ty) },
                    );
                    proof {
                        if rest_same is Ok {
                            assert(view_fields(news@) =~= news0 + seq![news@.last()@]);
                            assert(news0 + (seq![news@.last()@] + rest_same->Ok_0) =~= view_fields(
                                news@,
                            ) + rest_same->Ok_0);
                        }
                    }
                },
                UnnamedFieldChange::Remove { ty } => {
                    if i >= fields.len() {
                        return Err(ChangeError::NoMoreFields);
                    }
                    if !crate::model::guard_matches(ty, &fields[i].ty) {
                        return Err(ChangeError::TypeMismatch);
                    }
                    i = i + 1;
                },
                UnnamedFieldChange::Retype { old_type, new_type } => {
                    if i >= fields.len() {
                        return Err(ChangeError::NoMoreFields);
                    }
                    if !crate::model::guard_matches(old_type, &fields[i].ty) {
                        return Err(ChangeError::TypeMismatch);
                    }
                    news.push(
                        FieldSpec {
                            vis: fields[i].vis.clone(),
                            name: clone_opt_bytes(&fields[i].name),
                            ty: clone_bytes(new_type),
                        },
                    );
                    i = i + 1;
                    proof {
                        if rest is Ok {
                            assert(news@.last()@ =~= FieldV {
                                vis: olds[i - 1].vis,
                                name: olds[i - 1].name,
                                ty: new_type@,
                            });
                            assert(view_fields(news@) =~= news0 + seq![news@.last()@]);
                            assert(news0 + (seq![news@.last()@] + rest->Ok_0) =~= view_fields(news@)
                                + rest->Ok_0);
                        }
                    }
                },
                UnnamedFieldChange::Match { ty } => {
                    if i >= fields.len() {
                        return Err(ChangeError::NoMoreFields);
                    }
                    if !crate::model::guard_matches(ty, &fields[i].ty) {
                        return Err(ChangeError::TypeMismatch);
                    }
                    news.push(fields[i].clone());
                    i = i + 1;
                    proof {
                        if rest is Ok {
                            assert(view_fields(news@) =~= news0 + seq![olds[i - 1]]);
                            assert(news0 + (seq![olds[i - 1]] + rest->Ok_0) =~= view_fields(news@)
                                + rest->Ok_0);
                        }
                    }
                },
            }
            j = j + 1;
        }
        if i < fields.len() {
            return Err(ChangeError::UnmatchedOriginals);
        }
        proof {
            assert(view_fields(news@) + Seq::<FieldV>::empty() =~= view_fields(news@));
        }
        Ok(news)
    }
}

/// How many original fields the operations from index `j` on will consume:
/// one per operation that is not an add.
pub open spec fn consumed_from(ops: Seq<UnnamedChangeV>, j: int) -> int
    decreases ops.len() - j,
{
    if j < 0 || j >= ops.len() {
        0
    } else {
        (match ops[j] {
            UnnamedChangeV::Add { .. } => 0int,
            _ => 1int,
        }) + consumed_from(ops, j + 1)
    }
}

/// How many original fields the whole operation list consumes.
pub open spec fn consumed_count(ops: Seq<UnnamedChangeV>) -> int {
    consumed_from(ops, 0)
}

/// Operations never give fields back: the consumed count is never
/// negative.
pub proof fn lemma_consumed_from_nonneg(ops: Seq<UnnamedChangeV>, j: int)
    ensures
        consumed_from(ops, j) >= 0,
    decreases ops.len() - j,
{
    if 0 <= j < ops.len() {
        lemma_consumed_from_nonneg(ops, j + 1);
    }
}

/// Whether every consuming operation from index `j` on is unguarded.
pub open spec fn unguarded_from(ops: Seq<UnnamedChangeV>, j: int) -> bool
    decreases ops.len() - j,
{
    if j < 0 || j >= ops.len() {
        true
    } else {
        (match ops[j] {
            UnnamedChangeV::Add { .. } => true,
            UnnamedChangeV::Remove { ty } => ty is None,
            UnnamedChangeV::Retype { old_type, .. } => old_type is None,
            UnnamedChangeV::Match { ty } => ty is None,
        }) && unguarded_from(ops, j + 1)
    }
}

/// Whether every consuming operation of the list is unguarded.
pub open spec fn all_unguarded(ops: Seq<UnnamedChangeV>) -> bool {
    unguarded_from(ops, 0)
}

/// A positional run over unguarded operations is decided by counting
/// alone: it succeeds exactly when the operations from `j` on consume
/// exactly the originals from `i` on, fails with leftover originals when
/// they consume fewer, and fails with no more fields when they consume
/// more. In particular it never fails on a type mismatch.
pub proof fn lemma_positional_unguarded_from(
    olds: Seq<FieldV>,
    i: int,
    ops: Seq<UnnamedChangeV>,
    j: int,
)
    requires
        0 <= i <= olds.len(),
        0 <= j <= ops.len(),
        unguarded_from(ops, j),
    ensures
        i + consumed_from(ops, j) == olds.len() ==> tuple_run_from(olds, i, ops, j) is Ok,
        i + consumed_from(ops, j) < olds.len() ==> tuple_run_from(olds, i, ops, j) == Err::<
            Seq<FieldV>,
            ChangeError,
        >(ChangeError::UnmatchedOriginals),
        i + consumed_from(ops, j) > olds.len() ==> tuple_run_from(olds, i, ops, j) == Err::<
            Seq<FieldV>,
            ChangeError,
        >(ChangeError::NoMoreFields),
    decreases ops.len() - j,
{
    lemma_consumed_from_nonneg(ops, j);
    if j < ops.len() {
        lemma_consumed_from_nonneg(ops, j + 1);
        match ops[j] {
            UnnamedChangeV::Add { .. } => {
                lemma_positional_unguarded_from(olds, i, ops, j + 1);
            },
            _ => {
                if i < olds.len() {
                    lemma_positional_unguarded_from(olds, i + 1, ops, j + 1);
                }
            },
        }
    }
}

/// Guard wildcard law: with every consuming operation unguarded, the
/// positional transformation never fails on a type mismatch; it succeeds
/// exactly when the operations consume exactly as many fields as the
/// original sequence holds, fails with leftover originals when they
/// consume fewer, and fails with no more fields when they consume more.
pub proof fn lemma_guard_wildcard(olds: Seq<FieldV>, ops: Seq<UnnamedChangeV>)
    requires
        all_unguarded(ops),
    ensures
        tuple_apply(olds, ops) != Err::<Seq<FieldV>, ChangeError>(ChangeError::TypeMismatch),
        tuple_apply(olds, ops) is Ok <==> consumed_count(ops) == olds.len(),
        consumed_count(ops) < olds.len() ==> tuple_apply(olds, ops) == Err::<
            Seq<FieldV>,
            ChangeError,
        >(ChangeError::UnmatchedOriginals),
        consumed_count(ops) > olds.len() ==> tuple_apply(olds, ops) == Err::<
            Seq<FieldV>,
            ChangeError,
        >(ChangeError::NoMoreFields),
{
    lemma_positional_unguarded_from(olds, 0, ops, 0);
}

/// A positional run whose remaining operations consume fewer originals
/// than remain always fails, whatever the guards say.
pub proof fn lemma_positional_too_few_from(
    olds: Seq<FieldV>,
    i: int,
    ops: Seq<UnnamedChangeV>,
    j: int,
)
    requires
        0 <= i <= olds.len(),
        0 <= j <= ops.len(),
        i + consumed_from(ops, j) < olds.len(),
    ensures
        tuple_run_from(olds, i, ops, j) is Err,
    decreases ops.len() - j,
{
    lemma_consumed_from_nonneg(ops, j);
    if j < ops.len() {
        lemma_consumed_from_nonneg(ops, j + 1);
        match ops[j] {
            UnnamedChangeV::Add { .. } => {
                lemma_positional_too_few_from(olds, i, ops, j + 1);
            },
            _ => {
                if i < olds.len() {
                    lemma_positional_too_few_from(olds, i + 1, ops, j + 1);
                }
            },
        }
    }
}

/// A positional run whose remaining operations consume more originals
/// than remain always fails, whatever the guards say.
pub proof fn lemma_positional_too_many_from(
    olds: Seq<FieldV>,
    i: int,
    ops: Seq<UnnamedChangeV>,
    j: int,
)
    requires
        0 <= i <= olds.len(),
        0 <= j <= ops.len(),
        i + consumed_from(ops, j) > olds.len(),
    ensures
        tuple_run_from(olds, i, ops, j) is Err,
    decreases ops.len() - j,
{
    lemma_consumed_from_nonneg(ops, j);
    if j < ops.len() {
        lemma_consumed_from_nonneg(ops, j + 1);
        match ops[j] {
            UnnamedChangeV::Add { .. } => {
                lemma_positional_too_many_from(olds, i, ops, j + 1);
            },
            _ => {
                if i < olds.len() {
                    lemma_positional_too_many_from(olds, i + 1, ops, j + 1);
                }
            },
        }
    }
}

/// Positional exactness law: an operation list that consumes a number of
/// fields different from what the original sequence holds always fails.
pub proof fn lemma_positional_exactness(olds: Seq<FieldV>, ops: Seq<UnnamedChangeV>)
    requires
        consumed_count(ops) != olds.len(),
    ensures
        tuple_apply(olds, ops) is Err,
{
    if consumed_count(ops) < olds.len() {
        lemma_positional_too_few_from(olds, 0, ops, 0);
    } else {
        lemma_positional_too_many_from(olds, 0, ops, 0);
    }
}

} // verus!
