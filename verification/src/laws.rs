//! The laws of the named-field and variant transformers, stated over the
//! mathematical model and proved from the transformers' own
//! specifications: order preservation, the append invariant, conflict
//! detection and completeness, in each of the two identity-matched
//! domains.

use vstd::prelude::*;

use crate::enum_change::{
    drop_removed_variants, enum_apply, lemma_variant_run_structure, tag_original_variants,
    variant_creates_from, variant_run_from, variant_run_desc, variant_scan, variant_step,
    variant_step_start, variant_transforms_to, TaggedVarV,
};
use crate::model::{ChangeError, FieldV, Tag, VariantV, VisV};
use crate::variant::{variant_creates, variant_removes, variant_transforms, VariantChangeV};
use crate::named_field_change::{named_creates, named_removes, named_transforms, NamedChangeV};
use crate::struct_change::{
    creates_from, drop_removed, lemma_run_structure, named_apply, named_run_from, named_scan,
    named_step, run_desc, step_start, tag_originals, TaggedV,
};

verus! {

/// Dropping removed items distributes over concatenation.
pub proof fn lemma_drop_removed_concat(a: Seq<TaggedV>, b: Seq<TaggedV>)
    ensures
        drop_removed(a + b) == drop_removed(a) + drop_removed(b),
    decreases b.len(),
{
    if b.len() == 0 {
        assert(a + b =~= a);
        assert(drop_removed(a) + drop_removed(b) =~= drop_removed(a));
    } else {
        lemma_drop_removed_concat(a, b.drop_last());
        assert((a + b).drop_last() =~= a + b.drop_last());
        let tail = if b.last().tag != Tag::Removed {
            seq![b.last().field]
        } else {
            Seq::<FieldV>::empty()
        };
        assert((a + b).last() == b.last());
        assert(drop_removed(a + b) == (drop_removed(a) + drop_removed(b.drop_last())) + tail);
        assert((drop_removed(a) + drop_removed(b.drop_last())) + tail =~= drop_removed(a) + (
        drop_removed(b.drop_last()) + tail));
    }
}

/// With no item marked removed, dropping removes nothing: the output keeps
/// every field in position.
pub proof fn lemma_drop_removed_all_kept(items: Seq<TaggedV>)
    requires
        forall|m: int| 0 <= m < items.len() ==> (#[trigger] items[m].tag) != Tag::Removed,
    ensures
        drop_removed(items).len() == items.len(),
        forall|m: int| 0 <= m < items.len() ==> #[trigger] drop_removed(items)[m]
            == items[m].field,
    decreases items.len(),
{
    if items.len() > 0 {
        lemma_drop_removed_all_kept(items.drop_last());
    }
}

/// Every output field of a finished collection is the field of some kept
/// item.
pub proof fn lemma_drop_removed_source(items: Seq<TaggedV>, m: int)
    requires
        0 <= m < drop_removed(items).len(),
    ensures
        exists|i: int|
            0 <= i < items.len() && (#[trigger] items[i]).tag != Tag::Removed && drop_removed(
                items,
            )[m] == items[i].field,
    decreases items.len(),
{
    if items.len() > 0 {
        let pre = drop_removed(items.drop_last());
        if m < pre.len() {
            lemma_drop_removed_source(items.drop_last(), m);
            let i = choose|i: int|
                0 <= i < items.drop_last().len() && (#[trigger] items.drop_last()[i]).tag
                    != Tag::Removed && pre[m] == items.drop_last()[i].field;
            assert(items[i] == items.drop_last()[i]);
            assert(items[i].tag != Tag::Removed && drop_removed(items)[m] == items[i].field);
        } else {
            let i = items.len() - 1;
            assert(items[i].tag != Tag::Removed && drop_removed(items)[m] == items[i].field);
        }
    }
}

/// With no add among the operations from `j` on, nothing is created.
pub proof fn lemma_creates_from_empty(ops: Seq<NamedChangeV>, j: int)
    requires
        forall|j2: int| j <= j2 < ops.len() ==> named_creates(#[trigger] ops[j2]) is None,
    ensures
        creates_from(ops, j).len() == 0,
    decreases ops.len() - j,
{
    if 0 <= j < ops.len() {
        lemma_creates_from_empty(ops, j + 1);
    }
}

/// Order preservation law: with no add and no remove among the operations,
/// a successful transformation returns exactly as many fields as it was
/// given, and the field at each position is the original one, transformed
/// in place by one of the operations if it was matched at all.
pub proof fn lemma_named_order_preservation(fields: Seq<FieldV>, ops: Seq<NamedChangeV>)
    requires
        forall|j: int| 0 <= j < ops.len() ==> named_creates(#[trigger] ops[j]) is None,
        forall|j: int| 0 <= j < ops.len() ==> !((#[trigger] ops[j]) is Remove),
        named_apply(fields, ops) is Ok,
    ensures
        ({
            let out = named_apply(fields, ops)->Ok_0;
            &&& out.len() == fields.len()
            &&& forall|m: int|
                0 <= m < fields.len() ==> (#[trigger] out[m]) == fields[m] || exists|j2: int|
                    0 <= j2 < ops.len() && named_transforms(#[trigger] ops[j2], fields[m]) == Some(
                        out[m],
                    )
        }),
{
    let origs = tag_originals(fields);
    let its = named_run_from(origs, ops, 0)->Ok_0;
    lemma_run_structure(origs, ops, 0);
    lemma_creates_from_empty(ops, 0);
    assert forall|m: int| 0 <= m < its.len() implies (#[trigger] its[m].tag) != Tag::Removed by {
        assert(run_desc(origs[m], its[m], ops, 0));
        if its[m].tag == Tag::Removed && its[m] != origs[m] {
            let j2 = choose|j2: int|
                0 <= j2 < ops.len() && named_removes(#[trigger] ops[j2], origs[m].field);
            assert(!(ops[j2] is Remove));
        }
    }
    lemma_drop_removed_all_kept(its);
    let out = named_apply(fields, ops)->Ok_0;
    assert forall|m: int| 0 <= m < fields.len() implies (#[trigger] out[m]) == fields[m] || exists|
        j2: int,
    |
        0 <= j2 < ops.len() && named_transforms(#[trigger] ops[j2], fields[m]) == Some(out[m]) by {
        assert(run_desc(origs[m], its[m], ops, 0));
        assert(origs[m] == (TaggedV { field: fields[m], tag: Tag::Original }));
        assert(out[m] == its[m].field);
    }
}

/// Whether an output field descends from the original field at index `i`:
/// it is that field itself, or an in-place transformation of it by one of
/// the operations.
pub open spec fn descends_from(
    out_f: FieldV,
    fields: Seq<FieldV>,
    ops: Seq<NamedChangeV>,
    i: int,
) -> bool {
    0 <= i < fields.len() && (out_f == fields[i] || exists|j2: int|
        0 <= j2 < ops.len() && named_transforms(#[trigger] ops[j2], fields[i]) == Some(out_f))
}

/// Whether an output field descends from some original field.
pub open spec fn descends(out_f: FieldV, fields: Seq<FieldV>, ops: Seq<NamedChangeV>) -> bool {
    exists|i: int| descends_from(out_f, fields, ops, i)
}

/// Append invariant law: a successful transformation ends with exactly the
/// fields created by the add operations, in the order of those operations,
/// after everything that descends from the original fields.
pub proof fn lemma_named_append_invariant(fields: Seq<FieldV>, ops: Seq<NamedChangeV>)
    requires
        named_apply(fields, ops) is Ok,
    ensures
        ({
            let out = named_apply(fields, ops)->Ok_0;
            let adds = creates_from(ops, 0);
            &&& adds.len() <= out.len()
            &&& out.skip(out.len() - adds.len()) == adds
            &&& forall|m: int|
                0 <= m < out.len() - adds.len() ==> descends(#[trigger] out[m], fields, ops)
        }),
{
    let origs = tag_originals(fields);
    let its = named_run_from(origs, ops, 0)->Ok_0;
    lemma_run_structure(origs, ops, 0);
    let n = fields.len() as int;
    let adds = creates_from(ops, 0);
    let pre = its.take(n);
    let suf = its.skip(n);
    assert(its =~= pre + suf);
    lemma_drop_removed_concat(pre, suf);
    assert forall|m: int| 0 <= m < suf.len() implies (#[trigger] suf[m].tag) != Tag::Removed by {
        assert(its[m + n] == (TaggedV { field: adds[m], tag: Tag::Added }));
    }
    lemma_drop_removed_all_kept(suf);
    assert(drop_removed(suf) =~= adds) by {
        assert forall|m: int| 0 <= m < suf.len() implies #[trigger] drop_removed(suf)[m] == adds[m]
            by {
            assert(its[m + n] == (TaggedV { field: adds[m], tag: Tag::Added }));
        }
    }
    let out = named_apply(fields, ops)->Ok_0;
    assert(out == drop_removed(pre) + adds);
    assert(adds.len() <= out.len());
    assert(out.skip(out.len() - adds.len()) =~= adds);
    assert(out.skip(out.len() - adds.len()) == adds);
    assert forall|m: int| 0 <= m < out.len() - adds.len() implies descends(
        #[trigger] out[m],
        fields,
        ops,
    ) by {
        lemma_drop_removed_source(pre, m);
        let i = choose|i: int|
            0 <= i < pre.len() && (#[trigger] pre[i]).tag != Tag::Removed && drop_removed(pre)[m]
                == pre[i].field;
        assert(run_desc(origs[i], its[i], ops, 0));
        assert(origs[i] == (TaggedV { field: fields[i], tag: Tag::Original }));
        assert(out[m] == drop_removed(pre)[m]);
        assert(descends_from(out[m], fields, ops, i));
    }
}

/// A scan whose operation matches nothing from index `k` on changes
/// nothing and applies nothing.
pub proof fn lemma_scan_no_match(items: Seq<TaggedV>, op: NamedChangeV, k: int, applied: bool)
    requires
        0 <= k <= items.len(),
        forall|m: int|
            k <= m < items.len() ==> !named_removes(op, (#[trigger] items[m]).field)
                && named_transforms(op, items[m].field) is None,
    ensures
        named_scan(items, op, k, applied) == Ok::<(Seq<TaggedV>, bool), ChangeError>(
            (items, applied),
        ),
    decreases items.len() - k,
{
    if k < items.len() {
        lemma_scan_no_match(items, op, k + 1, applied);
    }
}

/// Completeness law: a non-add operation that matches no field at all
/// fails with no target matched.
pub proof fn lemma_named_completeness(fields: Seq<FieldV>, op: NamedChangeV)
    requires
        named_creates(op) is None,
        forall|m: int|
            0 <= m < fields.len() ==> !named_removes(op, #[trigger] fields[m]) && named_transforms(
                op,
                fields[m],
            ) is None,
    ensures
        named_apply(fields, seq![op]) == Err::<Seq<FieldV>, ChangeError>(
            ChangeError::NoTargetMatched,
        ),
{
    let origs = tag_originals(fields);
    assert forall|m: int|
        0 <= m < origs.len() implies !named_removes(op, (#[trigger] origs[m]).field)
        && named_transforms(op, origs[m].field) is None by {
        assert(origs[m].field == fields[m]);
    }
    lemma_scan_no_match(origs, op, 0, false);
    assert(step_start(origs, op) == origs);
    assert(named_step(origs, op) == Err::<Seq<TaggedV>, ChangeError>(ChangeError::NoTargetMatched));
    assert(seq![op][0] == op);
    assert(named_run_from(origs, seq![op], 0) == Err::<Seq<TaggedV>, ChangeError>(
        ChangeError::NoTargetMatched,
    ));
}

/// A scan whose operation first matches at index `i0`, removing there with
/// no transformation, marks that item removed and touches nothing else.
pub proof fn lemma_scan_remove_one(
    items: Seq<TaggedV>,
    op: NamedChangeV,
    k: int,
    applied: bool,
    i0: int,
)
    requires
        0 <= k <= i0 < items.len(),
        items[i0].tag == Tag::Original,
        forall|m: int|
            k <= m < items.len() && m != i0 ==> !named_removes(op, (#[trigger] items[m]).field)
                && named_transforms(op, items[m].field) is None,
        named_removes(op, items[i0].field),
        named_transforms(op, items[i0].field) is None,
    ensures
        named_scan(items, op, k, applied) == Ok::<(Seq<TaggedV>, bool), ChangeError>(
            (items.update(i0, TaggedV { field: items[i0].field, tag: Tag::Removed }), true),
        ),
    decreases i0 - k,
{
    if k == i0 {
        let items2 = items.update(i0, TaggedV { field: items[i0].field, tag: Tag::Removed });
        assert forall|m: int|
            i0 + 1 <= m < items2.len() implies !named_removes(op, (#[trigger] items2[m]).field)
            && named_transforms(op, items2[m].field) is None by {
            assert(items2[m] == items[m]);
        }
        lemma_scan_no_match(items2, op, i0 + 1, true);
    } else {
        lemma_scan_remove_one(items, op, k + 1, applied, i0);
    }
}

/// A scan whose operation first matches at index `i0`, transforming there
/// with no removal, changes that item in place and touches nothing else.
pub proof fn lemma_scan_change_one(
    items: Seq<TaggedV>,
    op: NamedChangeV,
    k: int,
    applied: bool,
    i0: int,
)
    requires
        0 <= k <= i0 < items.len(),
        items[i0].tag == Tag::Original,
        forall|m: int|
            k <= m < items.len() && m != i0 ==> !named_removes(op, (#[trigger] items[m]).field)
                && named_transforms(op, items[m].field) is None,
        !named_removes(op, items[i0].field),
        named_transforms(op, items[i0].field) is Some,
    ensures
        named_scan(items, op, k, applied) == Ok::<(Seq<TaggedV>, bool), ChangeError>(
            (
                items.update(
                    i0,
                    TaggedV {
                        field: named_transforms(op, items[i0].field)->Some_0,
                        tag: Tag::Changed,
                    },
                ),
                true,
            ),
        ),
    decreases i0 - k,
{
    if k == i0 {
        let items2 = items.update(
            i0,
            TaggedV { field: named_transforms(op, items[i0].field)->Some_0, tag: Tag::Changed },
        );
        assert forall|m: int|
            i0 + 1 <= m < items2.len() implies !named_removes(op, (#[trigger] items2[m]).field)
            && named_transforms(op, items2[m].field) is None by {
            assert(items2[m] == items[m]);
        }
        lemma_scan_no_match(items2, op, i0 + 1, true);
    } else {
        lemma_scan_change_one(items, op, k + 1, applied, i0);
    }
}

/// A scan whose operation matches nothing before index `i0` and matches
/// an already-affected item there — or both removes and transforms the
/// item there — stops with a conflict.
pub proof fn lemma_scan_err_conflict(
    items: Seq<TaggedV>,
    op: NamedChangeV,
    k: int,
    applied: bool,
    i0: int,
)
    requires
        0 <= k <= i0 < items.len(),
        forall|m: int|
            k <= m < i0 ==> !named_removes(op, (#[trigger] items[m]).field) && named_transforms(
                op,
                items[m].field,
            ) is None,
        ({
            let dr = named_removes(op, items[i0].field);
            let tr = named_transforms(op, items[i0].field);
            ||| (dr && items[i0].tag != Tag::Original)
            ||| (tr is Some && items[i0].tag != Tag::Original)
            ||| (tr is Some && dr)
        }),
    ensures
        named_scan(items, op, k, applied) == Err::<(Seq<TaggedV>, bool), ChangeError>(
            ChangeError::Conflict,
        ),
    decreases i0 - k,
{
    if k < i0 {
        lemma_scan_err_conflict(items, op, k + 1, applied, i0);
    }
}

/// Conflict detection law: on a collection of distinctly named fields, a
/// remove and a change that both name the same field fail in either
/// order — with a conflict where the second operation still finds the
/// name, and with no target matched where a rename took the name away.
pub proof fn lemma_named_conflict_detection(
    fields: Seq<FieldV>,
    vis: VisV,
    n: Seq<u8>,
    to: Option<Seq<u8>>,
    nty: Option<Seq<u8>>,
)
    requires
        forall|i1: int, i2: int|
            0 <= i1 < i2 < fields.len() ==> (#[trigger] fields[i1]).name != (
            #[trigger] fields[i2]).name,
    ensures
        ({
            let rem = NamedChangeV::Remove { ident: n, ty: None };
            let chg = NamedChangeV::Change { visibility: vis, ident: n, to, ty: nty };
            &&& named_apply(fields, seq![rem, chg]) is Err
            &&& named_apply(fields, seq![chg, rem]) is Err
        }),
{
    let rem = NamedChangeV::Remove { ident: n, ty: None };
    let chg = NamedChangeV::Change { visibility: vis, ident: n, to, ty: nty };
    let origs = tag_originals(fields);
    assert(seq![rem, chg][0] == rem && seq![rem, chg][1] == chg);
    assert(seq![chg, rem][0] == chg && seq![chg, rem][1] == rem);
    if exists|i: int| 0 <= i < fields.len() && (#[trigger] fields[i]).name == Some(n) {
        let i0 = choose|i: int| 0 <= i < fields.len() && (#[trigger] fields[i]).name == Some(n);
        assert forall|m: int| 0 <= m < fields.len() && m != i0 implies (#[trigger] fields[m]).name
            != Some(n) by {
            if fields[m].name == Some(n) {
                assert(fields[m].name == fields[i0].name);
            }
        }
        assert(origs[i0].field == fields[i0]);

        // remove first, change second: the change still finds the name and
        // meets a removed item.
        lemma_scan_remove_one(origs, rem, 0, false, i0);
        let its1 = origs.update(i0, TaggedV { field: fields[i0], tag: Tag::Removed });
        assert(named_step(origs, rem) == Ok::<Seq<TaggedV>, ChangeError>(its1));
        assert forall|m: int|
            0 <= m < i0 implies !named_removes(chg, (#[trigger] its1[m]).field) && named_transforms(
            chg,
            its1[m].field,
        ) is None by {
            assert(its1[m] == origs[m]);
        }
        assert(named_transforms(chg, its1[i0].field) is Some);
        lemma_scan_err_conflict(its1, chg, 0, false, i0);
        assert(named_step(its1, chg) == Err::<Seq<TaggedV>, ChangeError>(ChangeError::Conflict));
        assert(named_run_from(its1, seq![rem, chg], 1) == Err::<Seq<TaggedV>, ChangeError>(
            ChangeError::Conflict,
        ));
        assert(named_run_from(origs, seq![rem, chg], 0) == Err::<Seq<TaggedV>, ChangeError>(
            ChangeError::Conflict,
        ));
        assert(named_apply(fields, seq![rem, chg]) is Err);

        // change first, remove second: either the name survives and the
        // remove meets a changed item, or a rename took the name away and
        // the remove matches nothing.
        lemma_scan_change_one(origs, chg, 0, false, i0);
        let nf = named_transforms(chg, fields[i0])->Some_0;
        let its2 = origs.update(i0, TaggedV { field: nf, tag: Tag::Changed });
        assert(named_step(origs, chg) == Ok::<Seq<TaggedV>, ChangeError>(its2));
        if nf.name == Some(n) {
            assert forall|m: int|
                0 <= m < i0 implies !named_removes(rem, (#[trigger] its2[m]).field)
                && named_transforms(rem, its2[m].field) is None by {
                assert(its2[m] == origs[m]);
            }
            assert(named_removes(rem, its2[i0].field));
            lemma_scan_err_conflict(its2, rem, 0, false, i0);
            assert(named_step(its2, rem) == Err::<Seq<TaggedV>, ChangeError>(
                ChangeError::Conflict,
            ));
        } else {
            assert forall|m: int|
                0 <= m < its2.len() implies !named_removes(rem, (#[trigger] its2[m]).field)
                && named_transforms(rem, its2[m].field) is None by {
                if m != i0 {
                    assert(its2[m] == origs[m]);
                }
            }
            lemma_scan_no_match(its2, rem, 0, false);
            assert(named_step(its2, rem) == Err::<Seq<TaggedV>, ChangeError>(
                ChangeError::NoTargetMatched,
            ));
        }
        assert(named_run_from(its2, seq![chg, rem], 1) is Err);
        assert(named_run_from(origs, seq![chg, rem], 0) is Err);
        assert(named_apply(fields, seq![chg, rem]) is Err);
    } else {
        assert forall|m: int|
            0 <= m < origs.len() implies !named_removes(rem, (#[trigger] origs[m]).field)
            && named_transforms(rem, origs[m].field) is None && !named_removes(
            chg,
            origs[m].field,
        ) && named_transforms(chg, origs[m].field) is None by {
            assert(origs[m].field == fields[m]);
            assert(fields[m].name != Some(n));
        }
        lemma_scan_no_match(origs, rem, 0, false);
        lemma_scan_no_match(origs, chg, 0, false);
        assert(named_step(origs, rem) == Err::<Seq<TaggedV>, ChangeError>(
            ChangeError::NoTargetMatched,
        ));
        assert(named_step(origs, chg) == Err::<Seq<TaggedV>, ChangeError>(
            ChangeError::NoTargetMatched,
        ));
        assert(named_apply(fields, seq![rem, chg]) is Err);
        assert(named_apply(fields, seq![chg, rem]) is Err);
    }
}


/// Dropping removed variants distributes over concatenation.
pub proof fn lemma_drop_removed_variants_concat(a: Seq<TaggedVarV>, b: Seq<TaggedVarV>)
    ensures
        drop_removed_variants(a + b) == drop_removed_variants(a) + drop_removed_variants(b),
    decreases b.len(),
{
    if b.len() == 0 {
        assert(a + b =~= a);
        assert(drop_removed_variants(a) + drop_removed_variants(b) =~= drop_removed_variants(a));
    } else {
        lemma_drop_removed_variants_concat(a, b.drop_last());
        assert((a + b).drop_last() =~= a + b.drop_last());
        let tail = if b.last().tag != Tag::Removed {
            seq![b.last().variant]
        } else {
            Seq::<VariantV>::empty()
        };
        assert((a + b).last() == b.last());
        assert(drop_removed_variants(a + b) == (drop_removed_variants(a) + drop_removed_variants(
            b.drop_last(),
        )) + tail);
        assert((drop_removed_variants(a) + drop_removed_variants(b.drop_last())) + tail
            =~= drop_removed_variants(a) + (drop_removed_variants(b.drop_last()) + tail));
    }
}

/// With no variant marked removed, dropping removes nothing.
pub proof fn lemma_drop_removed_variants_all_kept(items: Seq<TaggedVarV>)
    requires
        forall|m: int| 0 <= m < items.len() ==> (#[trigger] items[m].tag) != Tag::Removed,
    ensures
        drop_removed_variants(items).len() == items.len(),
        forall|m: int|
            0 <= m < items.len() ==> #[trigger] drop_removed_variants(items)[m]
                == items[m].variant,
    decreases items.len(),
{
    if items.len() > 0 {
        lemma_drop_removed_variants_all_kept(items.drop_last());
    }
}

/// Every output variant of a finished collection is the variant of some
/// kept item.
pub proof fn lemma_drop_removed_variants_source(items: Seq<TaggedVarV>, m: int)
    requires
        0 <= m < drop_removed_variants(items).len(),
    ensures
        exists|i: int|
            0 <= i < items.len() && (#[trigger] items[i]).tag != Tag::Removed
                && drop_removed_variants(items)[m] == items[i].variant,
    decreases items.len(),
{
    if items.len() > 0 {
        let pre = drop_removed_variants(items.drop_last());
        if m < pre.len() {
            lemma_drop_removed_variants_source(items.drop_last(), m);
            let i = choose|i: int|
                0 <= i < items.drop_last().len() && (#[trigger] items.drop_last()[i]).tag
                    != Tag::Removed && pre[m] == items.drop_last()[i].variant;
            assert(items[i] == items.drop_last()[i]);
            assert(items[i].tag != Tag::Removed && drop_removed_variants(items)[m]
                == items[i].variant);
        } else {
            let i = items.len() - 1;
            assert(items[i].tag != Tag::Removed && drop_removed_variants(items)[m]
                == items[i].variant);
        }
    }
}

/// With no add among the variant operations from `j` on, nothing is
/// created.
pub proof fn lemma_variant_creates_from_empty(ops: Seq<VariantChangeV>, j: int)
    requires
        forall|j2: int| j <= j2 < ops.len() ==> variant_creates(#[trigger] ops[j2]) is None,
    ensures
        variant_creates_from(ops, j).len() == 0,
    decreases ops.len() - j,
{
    if 0 <= j < ops.len() {
        lemma_variant_creates_from_empty(ops, j + 1);
    }
}

/// Order preservation law for variants: with no add and no remove among
/// the operations, a successful transformation returns exactly as many
/// variants as it was given, and the variant at each position is the
/// original one, transformed in place by one of the operations if it was
/// matched at all.
pub proof fn lemma_variant_order_preservation(vs: Seq<VariantV>, ops: Seq<VariantChangeV>)
    requires
        forall|j: int| 0 <= j < ops.len() ==> variant_creates(#[trigger] ops[j]) is None,
        forall|j: int| 0 <= j < ops.len() ==> !((#[trigger] ops[j]) is Remove),
        enum_apply(vs, ops) is Ok,
    ensures
        ({
            let out = enum_apply(vs, ops)->Ok_0;
            &&& out.len() == vs.len()
            &&& forall|m: int|
                0 <= m < vs.len() ==> (#[trigger] out[m]) == vs[m] || exists|j2: int|
                    0 <= j2 < ops.len() && variant_transforms_to(#[trigger] ops[j2], vs[m], out[m])
        }),
{
    let origs = tag_original_variants(vs);
    let its = variant_run_from(origs, ops, 0)->Ok_0;
    lemma_variant_run_structure(origs, ops, 0);
    lemma_variant_creates_from_empty(ops, 0);
    assert forall|m: int| 0 <= m < its.len() implies (#[trigger] its[m].tag) != Tag::Removed by {
        assert(variant_run_desc(origs[m], its[m], ops, 0));
        if its[m].tag == Tag::Removed && its[m] != origs[m] {
            let j2 = choose|j2: int|
                0 <= j2 < ops.len() && variant_removes(#[trigger] ops[j2], origs[m].variant);
            assert(!(ops[j2] is Remove));
        }
    }
    lemma_drop_removed_variants_all_kept(its);
    let out = enum_apply(vs, ops)->Ok_0;
    assert forall|m: int| 0 <= m < vs.len() implies (#[trigger] out[m]) == vs[m] || exists|j2: int|
        0 <= j2 < ops.len() && variant_transforms_to(#[trigger] ops[j2], vs[m], out[m]) by {
        assert(variant_run_desc(origs[m], its[m], ops, 0));
        assert(origs[m] == (TaggedVarV { variant: vs[m], tag: Tag::Original }));
        assert(out[m] == its[m].variant);
    }
}

/// Whether an output variant descends from the original variant at index
/// `i`: it is that variant itself, or an in-place transformation of it by
/// one of the operations.
pub open spec fn variant_descends_from(
    out_v: VariantV,
    vs: Seq<VariantV>,
    ops: Seq<VariantChangeV>,
    i: int,
) -> bool {
    0 <= i < vs.len() && (out_v == vs[i] || exists|j2: int|
        0 <= j2 < ops.len() && variant_transforms_to(#[trigger] ops[j2], vs[i], out_v))
}

/// Whether an output variant descends from some original variant.
pub open spec fn variant_descends(
    out_v: VariantV,
    vs: Seq<VariantV>,
    ops: Seq<VariantChangeV>,
) -> bool {
    exists|i: int| variant_descends_from(out_v, vs, ops, i)
}

/// Append invariant law for variants: a successful transformation ends
/// with exactly the variants created by the add operations, in the order
/// of those operations, after everything that descends from the original
/// variants.
pub proof fn lemma_variant_append_invariant(vs: Seq<VariantV>, ops: Seq<VariantChangeV>)
    requires
        enum_apply(vs, ops) is Ok,
    ensures
        ({
            let out = enum_apply(vs, ops)->Ok_0;
            let adds = variant_creates_from(ops, 0);
            &&& adds.len() <= out.len()
            &&& out.skip(out.len() - adds.len()) == adds
            &&& forall|m: int|
                0 <= m < out.len() - adds.len() ==> variant_descends(#[trigger] out[m], vs, ops)
        }),
{
    let origs = tag_original_variants(vs);
    let its = variant_run_from(origs, ops, 0)->Ok_0;
    lemma_variant_run_structure(origs, ops, 0);
    let n = vs.len() as int;
    let adds = variant_creates_from(ops, 0);
    let pre = its.take(n);
    let suf = its.skip(n);
    assert(its =~= pre + suf);
    lemma_drop_removed_variants_concat(pre, suf);
    assert forall|m: int| 0 <= m < suf.len() implies (#[trigger] suf[m].tag) != Tag::Removed by {
        assert(its[m + n] == (TaggedVarV { variant: adds[m], tag: Tag::Added }));
    }
    lemma_drop_removed_variants_all_kept(suf);
    assert(drop_removed_variants(suf) =~= adds) by {
        assert forall|m: int| 0 <= m < suf.len() implies #[trigger] drop_removed_variants(suf)[m]
            == adds[m] by {
            assert(its[m + n] == (TaggedVarV { variant: adds[m], tag: Tag::Added }));
        }
    }
    let out = enum_apply(vs, ops)->Ok_0;
    assert(out == drop_removed_variants(pre) + adds);
    assert(adds.len() <= out.len());
    assert(out.skip(out.len() - adds.len()) =~= adds);
    assert(out.skip(out.len() - adds.len()) == adds);
    assert forall|m: int| 0 <= m < out.len() - adds.len() implies variant_descends(
        #[trigger] out[m],
        vs,
        ops,
    ) by {
        lemma_drop_removed_variants_source(pre, m);
        let i = choose|i: int|
            0 <= i < pre.len() && (#[trigger] pre[i]).tag != Tag::Removed && drop_removed_variants(
                pre,
            )[m] == pre[i].variant;
        assert(variant_run_desc(origs[i], its[i], ops, 0));
        assert(origs[i] == (TaggedVarV { variant: vs[i], tag: Tag::Original }));
        assert(out[m] == drop_removed_variants(pre)[m]);
        assert(variant_descends_from(out[m], vs, ops, i));
    }
}

/// A variant scan whose operation matches nothing from index `k` on
/// changes nothing and applies nothing.
pub proof fn lemma_variant_scan_no_match(
    items: Seq<TaggedVarV>,
    op: VariantChangeV,
    k: int,
    applied: bool,
)
    requires
        0 <= k <= items.len(),
        forall|m: int|
            k <= m < items.len() ==> !variant_removes(op, (#[trigger] items[m]).variant)
                && variant_transforms(op, items[m].variant) is None,
    ensures
        variant_scan(items, op, k, applied) == Ok::<(Seq<TaggedVarV>, bool), ChangeError>(
            (items, applied),
        ),
    decreases items.len() - k,
{
    if k < items.len() {
        lemma_variant_scan_no_match(items, op, k + 1, applied);
    }
}

/// Completeness law for variants: a non-add operation that matches no
/// variant at all fails with no target matched.
pub proof fn lemma_variant_completeness(vs: Seq<VariantV>, op: VariantChangeV)
    requires
        variant_creates(op) is None,
        forall|m: int|
            0 <= m < vs.len() ==> !variant_removes(op, #[trigger] vs[m]) && variant_transforms(
                op,
                vs[m],
            ) is None,
    ensures
        enum_apply(vs, seq![op]) == Err::<Seq<VariantV>, ChangeError>(
            ChangeError::NoTargetMatched,
        ),
{
    let origs = tag_original_variants(vs);
    assert forall|m: int|
        0 <= m < origs.len() implies !variant_removes(op, (#[trigger] origs[m]).variant)
        && variant_transforms(op, origs[m].variant) is None by {
        assert(origs[m].variant == vs[m]);
    }
    lemma_variant_scan_no_match(origs, op, 0, false);
    assert(variant_step_start(origs, op) == origs);
    assert(variant_step(origs, op) == Err::<Seq<TaggedVarV>, ChangeError>(
        ChangeError::NoTargetMatched,
    ));
    assert(seq![op][0] == op);
    assert(variant_run_from(origs, seq![op], 0) == Err::<Seq<TaggedVarV>, ChangeError>(
        ChangeError::NoTargetMatched,
    ));
}


/// A variant scan whose operation first matches at index `i0`, removing
/// there with no transformation, marks that variant removed and touches
/// nothing else.
pub proof fn lemma_variant_scan_remove_one(
    items: Seq<TaggedVarV>,
    op: VariantChangeV,
    k: int,
    applied: bool,
    i0: int,
)
    requires
        0 <= k <= i0 < items.len(),
        items[i0].tag == Tag::Original,
        forall|m: int|
            k <= m < items.len() && m != i0 ==> !variant_removes(
                op,
                (#[trigger] items[m]).variant,
            ) && variant_transforms(op, items[m].variant) is None,
        variant_removes(op, items[i0].variant),
        variant_transforms(op, items[i0].variant) is None,
    ensures
        variant_scan(items, op, k, applied) == Ok::<(Seq<TaggedVarV>, bool), ChangeError>(
            (items.update(i0, TaggedVarV { variant: items[i0].variant, tag: Tag::Removed }), true),
        ),
    decreases i0 - k,
{
    if k == i0 {
        let items2 = items.update(
            i0,
            TaggedVarV { variant: items[i0].variant, tag: Tag::Removed },
        );
        assert forall|m: int|
            i0 + 1 <= m < items2.len() implies !variant_removes(
            op,
            (#[trigger] items2[m]).variant,
        ) && variant_transforms(op, items2[m].variant) is None by {
            assert(items2[m] == items[m]);
        }
        lemma_variant_scan_no_match(items2, op, i0 + 1, true);
    } else {
        lemma_variant_scan_remove_one(items, op, k + 1, applied, i0);
    }
}

/// A variant scan whose operation first matches at index `i0`,
/// transforming there successfully with no removal, changes that variant
/// in place and touches nothing else.
pub proof fn lemma_variant_scan_change_one(
    items: Seq<TaggedVarV>,
    op: VariantChangeV,
    k: int,
    applied: bool,
    i0: int,
)
    requires
        0 <= k <= i0 < items.len(),
        items[i0].tag == Tag::Original,
        forall|m: int|
            k <= m < items.len() && m != i0 ==> !variant_removes(
                op,
                (#[trigger] items[m]).variant,
            ) && variant_transforms(op, items[m].variant) is None,
        !variant_removes(op, items[i0].variant),
        variant_transforms(op, items[i0].variant) is Some,
        variant_transforms(op, items[i0].variant)->Some_0 is Ok,
    ensures
        variant_scan(items, op, k, applied) == Ok::<(Seq<TaggedVarV>, bool), ChangeError>(
            (
                items.update(
                    i0,
                    TaggedVarV {
                        variant: variant_transforms(op, items[i0].variant)->Some_0->Ok_0,
                        tag: Tag::Changed,
                    },
                ),
                true,
            ),
        ),
    decreases i0 - k,
{
    if k == i0 {
        let items2 = items.update(
            i0,
            TaggedVarV {
                variant: variant_transforms(op, items[i0].variant)->Some_0->Ok_0,
                tag: Tag::Changed,
            },
        );
        assert forall|m: int|
            i0 + 1 <= m < items2.len() implies !variant_removes(
            op,
            (#[trigger] items2[m]).variant,
        ) && variant_transforms(op, items2[m].variant) is None by {
            assert(items2[m] == items[m]);
        }
        lemma_variant_scan_no_match(items2, op, i0 + 1, true);
    } else {
        lemma_variant_scan_change_one(items, op, k + 1, applied, i0);
    }
}

/// A variant scan whose operation matches nothing before index `i0` and
/// matches an already-affected variant there stops with a conflict.
pub proof fn lemma_variant_scan_err_conflict(
    items: Seq<TaggedVarV>,
    op: VariantChangeV,
    k: int,
    applied: bool,
    i0: int,
)
    requires
        0 <= k <= i0 < items.len(),
        forall|m: int|
            k <= m < i0 ==> !variant_removes(op, (#[trigger] items[m]).variant)
                && variant_transforms(op, items[m].variant) is None,
        ({
            let dr = variant_removes(op, items[i0].variant);
            let tr = variant_transforms(op, items[i0].variant);
            ||| (dr && items[i0].tag != Tag::Original)
            ||| (tr is Some && tr->Some_0 is Ok && items[i0].tag != Tag::Original)
            ||| (tr is Some && tr->Some_0 is Ok && dr)
        }),
    ensures
        variant_scan(items, op, k, applied) == Err::<(Seq<TaggedVarV>, bool), ChangeError>(
            ChangeError::Conflict,
        ),
    decreases i0 - k,
{
    if k < i0 {
        lemma_variant_scan_err_conflict(items, op, k + 1, applied, i0);
    }
}

/// Conflict detection law for variants: on a list of distinctly named
/// variants, a remove and a rename that both name the same variant fail
/// in either order — with a conflict where the second operation still
/// finds the name, and with no target matched where the rename took the
/// name away.
pub proof fn lemma_variant_conflict_detection(vs: Seq<VariantV>, n: Seq<u8>, to: Seq<u8>)
    requires
        forall|i1: int, i2: int|
            0 <= i1 < i2 < vs.len() ==> (#[trigger] vs[i1]).name != (#[trigger] vs[i2]).name,
    ensures
        ({
            let rem = VariantChangeV::Remove(n);
            let ren = VariantChangeV::Rename(n, to);
            &&& enum_apply(vs, seq![rem, ren]) is Err
            &&& enum_apply(vs, seq![ren, rem]) is Err
        }),
{
    let rem = VariantChangeV::Remove(n);
    let ren = VariantChangeV::Rename(n, to);
    let origs = tag_original_variants(vs);
    assert(seq![rem, ren][0] == rem && seq![rem, ren][1] == ren);
    assert(seq![ren, rem][0] == ren && seq![ren, rem][1] == rem);
    if exists|i: int| 0 <= i < vs.len() && (#[trigger] vs[i]).name == n {
        let i0 = choose|i: int| 0 <= i < vs.len() && (#[trigger] vs[i]).name == n;
        assert forall|m: int| 0 <= m < vs.len() && m != i0 implies (#[trigger] vs[m]).name != n by {
            if vs[m].name == n {
                assert(vs[m].name == vs[i0].name);
            }
        }
        assert(origs[i0].variant == vs[i0]);

        // remove first, rename second: the rename still finds the name and
        // meets a removed variant.
        lemma_variant_scan_remove_one(origs, rem, 0, false, i0);
        let its1 = origs.update(i0, TaggedVarV { variant: vs[i0], tag: Tag::Removed });
        assert(variant_step(origs, rem) == Ok::<Seq<TaggedVarV>, ChangeError>(its1));
        assert forall|m: int|
            0 <= m < i0 implies !variant_removes(ren, (#[trigger] its1[m]).variant)
            && variant_transforms(ren, its1[m].variant) is None by {
            assert(its1[m] == origs[m]);
        }
        assert(variant_transforms(ren, its1[i0].variant) is Some);
        lemma_variant_scan_err_conflict(its1, ren, 0, false, i0);
        assert(variant_step(its1, ren) == Err::<Seq<TaggedVarV>, ChangeError>(
            ChangeError::Conflict,
        ));
        assert(variant_run_from(its1, seq![rem, ren], 1) == Err::<Seq<TaggedVarV>, ChangeError>(
            ChangeError::Conflict,
        ));
        assert(variant_run_from(origs, seq![rem, ren], 0) == Err::<Seq<TaggedVarV>, ChangeError>(
            ChangeError::Conflict,
        ));
        assert(enum_apply(vs, seq![rem, ren]) is Err);

        // rename first, remove second: either the rename kept the name and
        // the remove meets a changed variant, or it took the name away and
        // the remove matches nothing.
        lemma_variant_scan_change_one(origs, ren, 0, false, i0);
        let nv = variant_transforms(ren, vs[i0])->Some_0->Ok_0;
        let its2 = origs.update(i0, TaggedVarV { variant: nv, tag: Tag::Changed });
        assert(variant_step(origs, ren) == Ok::<Seq<TaggedVarV>, ChangeError>(its2));
        if nv.name == n {
            assert forall|m: int|
                0 <= m < i0 implies !variant_removes(rem, (#[trigger] its2[m]).variant)
                && variant_transforms(rem, its2[m].variant) is None by {
                assert(its2[m] == origs[m]);
            }
            assert(variant_removes(rem, its2[i0].variant));
            lemma_variant_scan_err_conflict(its2, rem, 0, false, i0);
            assert(variant_step(its2, rem) == Err::<Seq<TaggedVarV>, ChangeError>(
                ChangeError::Conflict,
            ));
        } else {
            assert forall|m: int|
                0 <= m < its2.len() implies !variant_removes(rem, (#[trigger] its2[m]).variant)
                && variant_transforms(rem, its2[m].variant) is None by {
                if m != i0 {
                    assert(its2[m] == origs[m]);
                }
            }
            lemma_variant_scan_no_match(its2, rem, 0, false);
            assert(variant_step(its2, rem) == Err::<Seq<TaggedVarV>, ChangeError>(
                ChangeError::NoTargetMatched,
            ));
        }
        assert(variant_run_from(its2, seq![ren, rem], 1) is Err);
        assert(variant_run_from(origs, seq![ren, rem], 0) is Err);
        assert(enum_apply(vs, seq![ren, rem]) is Err);
    } else {
        assert forall|m: int|
            0 <= m < origs.len() implies !variant_removes(rem, (#[trigger] origs[m]).variant)
            && variant_transforms(rem, origs[m].variant) is None && !variant_removes(
            ren,
            origs[m].variant,
        ) && variant_transforms(ren, origs[m].variant) is None by {
            assert(origs[m].variant == vs[m]);
            assert(vs[m].name != n);
        }
        lemma_variant_scan_no_match(origs, rem, 0, false);
        lemma_variant_scan_no_match(origs, ren, 0, false);
        assert(variant_step(origs, rem) == Err::<Seq<TaggedVarV>, ChangeError>(
            ChangeError::NoTargetMatched,
        ));
        assert(variant_step(origs, ren) == Err::<Seq<TaggedVarV>, ChangeError>(
            ChangeError::NoTargetMatched,
        ));
        assert(enum_apply(vs, seq![rem, ren]) is Err);
        assert(enum_apply(vs, seq![ren, rem]) is Err);
    }
}


/// The position, in a finished collection, of the item that produced the
/// `m`-th output field.
pub open spec fn kept_source(items: Seq<TaggedV>, m: int) -> int
    decreases items.len(),
{
    if items.len() == 0 {
        0
    } else {
        let pre = drop_removed(items.drop_last());
        if m < pre.len() {
            kept_source(items.drop_last(), m)
        } else {
            items.len() - 1
        }
    }
}

/// Each output field comes from the kept item at its source position.
pub proof fn lemma_kept_source(items: Seq<TaggedV>, m: int)
    requires
        0 <= m < drop_removed(items).len(),
    ensures
        0 <= kept_source(items, m) < items.len(),
        items[kept_source(items, m)].tag != Tag::Removed,
        drop_removed(items)[m] == items[kept_source(items, m)].field,
    decreases items.len(),
{
    if items.len() > 0 {
        let pre = drop_removed(items.drop_last());
        if m < pre.len() {
            lemma_kept_source(items.drop_last(), m);
            let i = kept_source(items.drop_last(), m);
            assert(items[i] == items.drop_last()[i]);
        }
    }
}

/// Source positions grow with output positions: the kept items come out
/// in the order they stood in.
pub proof fn lemma_kept_source_monotone(items: Seq<TaggedV>, m1: int, m2: int)
    requires
        0 <= m1 < m2 < drop_removed(items).len(),
    ensures
        kept_source(items, m1) < kept_source(items, m2),
    decreases items.len(),
{
    if items.len() > 0 {
        let pre = drop_removed(items.drop_last());
        if m2 < pre.len() {
            lemma_kept_source_monotone(items.drop_last(), m1, m2);
        } else {
            lemma_kept_source(items, m1);
            lemma_kept_source(items.drop_last(), m1);
        }
    }
}

/// Whether the `m`-th output field descends, untouched or transformed in
/// place, from the original field standing at its source position.
pub open spec fn kept_field_descends(
    out: Seq<FieldV>,
    pre: Seq<TaggedV>,
    fields: Seq<FieldV>,
    ops: Seq<NamedChangeV>,
    m: int,
) -> bool {
    let i = kept_source(pre, m);
    &&& 0 <= i < fields.len()
    &&& (out[m] == fields[i] || exists|j2: int|
        0 <= j2 < ops.len() && named_transforms(#[trigger] ops[j2], fields[i]) == Some(out[m]))
}

/// Order preservation law, general form: whatever adds, removes and
/// changes the operations mix, a successful transformation emits what
/// remains of the original fields first, at strictly increasing original
/// positions — each either untouched or transformed in place — and the
/// added fields after them.
pub proof fn lemma_named_order_general(fields: Seq<FieldV>, ops: Seq<NamedChangeV>)
    requires
        named_apply(fields, ops) is Ok,
    ensures
        ({
            let out = named_apply(fields, ops)->Ok_0;
            let its = named_run_from(tag_originals(fields), ops, 0)->Ok_0;
            let pre = its.take(fields.len() as int);
            let adds = creates_from(ops, 0);
            let split = out.len() - adds.len();
            &&& 0 <= split <= out.len()
            &&& forall|m: int|
                0 <= m < split ==> #[trigger] kept_field_descends(out, pre, fields, ops, m)
            &&& forall|m1: int, m2: int|
                0 <= m1 < m2 < split ==> kept_source(pre, m1) < kept_source(pre, m2)
        }),
{
    let origs = tag_originals(fields);
    let its = named_run_from(origs, ops, 0)->Ok_0;
    lemma_run_structure(origs, ops, 0);
    let n = fields.len() as int;
    let adds = creates_from(ops, 0);
    let pre = its.take(n);
    let suf = its.skip(n);
    assert(its =~= pre + suf);
    lemma_drop_removed_concat(pre, suf);
    assert forall|m: int| 0 <= m < suf.len() implies (#[trigger] suf[m].tag) != Tag::Removed by {
        assert(its[m + n] == (TaggedV { field: adds[m], tag: Tag::Added }));
    }
    lemma_drop_removed_all_kept(suf);
    let out = named_apply(fields, ops)->Ok_0;
    assert(out == drop_removed(pre) + drop_removed(suf));
    let split = out.len() - adds.len();
    assert(split == drop_removed(pre).len());
    assert forall|m: int| 0 <= m < split implies #[trigger] kept_field_descends(
        out,
        pre,
        fields,
        ops,
        m,
    ) by {
        lemma_kept_source(pre, m);
        let i = kept_source(pre, m);
        assert(pre[i] == its[i]);
        assert(run_desc(origs[i], its[i], ops, 0));
        assert(origs[i] == (TaggedV { field: fields[i], tag: Tag::Original }));
        assert(out[m] == drop_removed(pre)[m]);
    }
    assert forall|m1: int, m2: int| 0 <= m1 < m2 < split implies kept_source(pre, m1)
        < kept_source(pre, m2) by {
        lemma_kept_source_monotone(pre, m1, m2);
    }
}


/// The position, in a finished variant collection, of the item that
/// produced the `m`-th output variant.
pub open spec fn kept_variant_source(items: Seq<TaggedVarV>, m: int) -> int
    decreases items.len(),
{
    if items.len() == 0 {
        0
    } else {
        let pre = drop_removed_variants(items.drop_last());
        if m < pre.len() {
            kept_variant_source(items.drop_last(), m)
        } else {
            items.len() - 1
        }
    }
}

/// Each output variant comes from the kept item at its source position.
pub proof fn lemma_kept_variant_source(items: Seq<TaggedVarV>, m: int)
    requires
        0 <= m < drop_removed_variants(items).len(),
    ensures
        0 <= kept_variant_source(items, m) < items.len(),
        items[kept_variant_source(items, m)].tag != Tag::Removed,
        drop_removed_variants(items)[m] == items[kept_variant_source(items, m)].variant,
    decreases items.len(),
{
    if items.len() > 0 {
        let pre = drop_removed_variants(items.drop_last());
        if m < pre.len() {
            lemma_kept_variant_source(items.drop_last(), m);
            let i = kept_variant_source(items.drop_last(), m);
            assert(items[i] == items.drop_last()[i]);
        }
    }
}

/// Source positions grow with output positions: the kept variants come
/// out in the order they stood in.
pub proof fn lemma_kept_variant_source_monotone(items: Seq<TaggedVarV>, m1: int, m2: int)
    requires
        0 <= m1 < m2 < drop_removed_variants(items).len(),
    ensures
        kept_variant_source(items, m1) < kept_variant_source(items, m2),
    decreases items.len(),
{
    if items.len() > 0 {
        let pre = drop_removed_variants(items.drop_last());
        if m2 < pre.len() {
            lemma_kept_variant_source_monotone(items.drop_last(), m1, m2);
        } else {
            lemma_kept_variant_source(items, m1);
            lemma_kept_variant_source(items.drop_last(), m1);
        }
    }
}

/// Whether the `m`-th output variant descends, untouched or transformed
/// in place, from the original variant standing at its source position.
pub open spec fn kept_variant_descends(
    out: Seq<VariantV>,
    pre: Seq<TaggedVarV>,
    vs: Seq<VariantV>,
    ops: Seq<VariantChangeV>,
    m: int,
) -> bool {
    let i = kept_variant_source(pre, m);
    &&& 0 <= i < vs.len()
    &&& (out[m] == vs[i] || exists|j2: int|
        0 <= j2 < ops.len() && variant_transforms_to(#[trigger] ops[j2], vs[i], out[m]))
}

/// Order preservation law for variants, general form: whatever adds,
/// removes and changes the operations mix, a successful transformation
/// emits what remains of the original variants first, at strictly
/// increasing original positions — each either untouched or transformed
/// in place — and the added variants after them.
pub proof fn lemma_variant_order_general(vs: Seq<VariantV>, ops: Seq<VariantChangeV>)
    requires
        enum_apply(vs, ops) is Ok,
    ensures
        ({
            let out = enum_apply(vs, ops)->Ok_0;
            let its = variant_run_from(tag_original_variants(vs), ops, 0)->Ok_0;
            let pre = its.take(vs.len() as int);
            let adds = variant_creates_from(ops, 0);
            let split = out.len() - adds.len();
            &&& 0 <= split <= out.len()
            &&& forall|m: int|
                0 <= m < split ==> #[trigger] kept_variant_descends(out, pre, vs, ops, m)
            &&& forall|m1: int, m2: int|
                0 <= m1 < m2 < split ==> kept_variant_source(pre, m1) < kept_variant_source(
                    pre,
                    m2,
                )
        }),
{
    let origs = tag_original_variants(vs);
    let its = variant_run_from(origs, ops, 0)->Ok_0;
    lemma_variant_run_structure(origs, ops, 0);
    let n = vs.len() as int;
    let adds = variant_creates_from(ops, 0);
    let pre = its.take(n);
    let suf = its.skip(n);
    assert(its =~= pre + suf);
    lemma_drop_removed_variants_concat(pre, suf);
    assert forall|m: int| 0 <= m < suf.len() implies (#[trigger] suf[m].tag) != Tag::Removed by {
        assert(its[m + n] == (TaggedVarV { variant: adds[m], tag: Tag::Added }));
    }
    lemma_drop_removed_variants_all_kept(suf);
    let out = enum_apply(vs, ops)->Ok_0;
    assert(out == drop_removed_variants(pre) + drop_removed_variants(suf));
    let split = out.len() - adds.len();
    assert(split == drop_removed_variants(pre).len());
    assert forall|m: int| 0 <= m < split implies #[trigger] kept_variant_descends(
        out,
        pre,
        vs,
        ops,
        m,
    ) by {
        lemma_kept_variant_source(pre, m);
        let i = kept_variant_source(pre, m);
        assert(pre[i] == its[i]);
        assert(variant_run_desc(origs[i], its[i], ops, 0));
        assert(origs[i] == (TaggedVarV { variant: vs[i], tag: Tag::Original }));
        assert(out[m] == drop_removed_variants(pre)[m]);
    }
    assert forall|m1: int, m2: int| 0 <= m1 < m2 < split implies kept_variant_source(pre, m1)
        < kept_variant_source(pre, m2) by {
        lemma_kept_variant_source_monotone(pre, m1, m2);
    }
}

} // verus!
