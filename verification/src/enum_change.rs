//! The variant transformer: the tagged-collection discipline of the
//! named-field transformer, applied to an enum's variant list keyed by
//! name, where a matched variant's transformation may itself fail on a
//! shape mismatch or on its nested change list.

use vstd::prelude::*;

use crate::model::{ChangeError, Tag, VariantSpec, VariantV};
use crate::variant::{
    variant_creates, variant_removes, variant_transforms, view_variant_ops, VariantChange,
    VariantChangeV,
};

verus! {

/// One entry of the working collection: a variant and its bookkeeping tag.
pub struct TaggedVariant {
    pub variant: VariantSpec,
    pub tag: Tag,
}

/// Mathematical view of [`TaggedVariant`].
#[verifier::ext_equal]
pub struct TaggedVarV {
    pub variant: VariantV,
    pub tag: Tag,
}

impl View for TaggedVariant {
    type V = TaggedVarV;

    open spec fn view(&self) -> TaggedVarV {
        TaggedVarV { variant: self.variant@, tag: self.tag }
    }
}

/// The view of a working collection of variants.
pub open spec fn view_tagged_variants(s: Seq<TaggedVariant>) -> Seq<TaggedVarV> {
    s.map_values(|t: TaggedVariant| t@)
}

/// The original variants, each tagged untouched.
pub open spec fn tag_original_variants(vs: Seq<VariantV>) -> Seq<TaggedVarV> {
    vs.map_values(|v: VariantV| TaggedVarV { variant: v, tag: Tag::Original })
}

/// One operation's scan over the variant collection from index `k` on.
pub open spec fn variant_scan(
    items: Seq<TaggedVarV>,
    op: VariantChangeV,
    k: int,
    applied: bool,
) -> Result<(Seq<TaggedVarV>, bool), ChangeError>
    decreases items.len() - k,
{
    if k < 0 || k >= items.len() {
        Ok((items, applied))
    } else {
        let it = items[k];
        let do_remove = variant_removes(op, it.variant);
        if do_remove && it.tag != Tag::Original {
            Err(ChangeError::Conflict)
        } else {
            match variant_transforms(op, it.variant) {
                Some(Err(e)) => Err(e),
                Some(Ok(nv)) => {
                    if it.tag != Tag::Original {
                        Err(ChangeError::Conflict)
                    } else if do_remove {
                        Err(ChangeError::Conflict)
                    } else {
                        variant_scan(
                            items.update(k, TaggedVarV { variant: nv, tag: Tag::Changed }),
                            op,
                            k + 1,
                            true,
                        )
                    }
                },
                None => {
                    if do_remove {
                        variant_scan(
                            items.update(k, TaggedVarV { variant: it.variant, tag: Tag::Removed }),
                            op,
                            k + 1,
                            true,
                        )
                    } else {
                        variant_scan(items, op, k + 1, applied)
                    }
                },
            }
        }
    }
}

/// The variant collection as one operation's scan begins.
pub open spec fn variant_step_start(items: Seq<TaggedVarV>, op: VariantChangeV) -> Seq<
    TaggedVarV,
> {
    match variant_creates(op) {
        Some(v) => items.push(TaggedVarV { variant: v, tag: Tag::Added }),
        None => items,
    }
}

/// One whole operation over the variant collection.
pub open spec fn variant_step(items: Seq<TaggedVarV>, op: VariantChangeV) -> Result<
    Seq<TaggedVarV>,
    ChangeError,
> {
    let start = variant_step_start(items, op);
    let applied0 = variant_creates(op) is Some;
    match variant_scan(start, op, 0, applied0) {
        Err(e) => Err(e),
        Ok((its, applied)) => if applied {
            Ok(its)
        } else {
            Err(ChangeError::NoTargetMatched)
        },
    }
}

/// The operations from index `j` on, applied in order.
pub open spec fn variant_run_from(
    items: Seq<TaggedVarV>,
    ops: Seq<VariantChangeV>,
    j: int,
) -> Result<Seq<TaggedVarV>, ChangeError>
    decreases ops.len() - j,
{
    if j < 0 || j >= ops.len() {
        Ok(items)
    } else {
        match variant_step(items, ops[j]) {
            Err(e) => Err(e),
            Ok(its) => variant_run_from(its, ops, j + 1),
        }
    }
}

/// The variants of a finished collection, with the removed ones dropped.
pub open spec fn drop_removed_variants(items: Seq<TaggedVarV>) -> Seq<VariantV>
    decreases items.len(),
{
    if items.len() == 0 {
        Seq::empty()
    } else {
        drop_removed_variants(items.drop_last()) + if items.last().tag != Tag::Removed {
            seq![items.last().variant]
        } else {
            Seq::empty()
        }
    }
}

/// The whole variant-list transformation.
pub open spec fn enum_apply(vs: Seq<VariantV>, ops: Seq<VariantChangeV>) -> Result<
    Seq<VariantV>,
    ChangeError,
> {
    match variant_run_from(tag_original_variants(vs), ops, 0) {
        Ok(its) => Ok(drop_removed_variants(its)),
        Err(e) => Err(e),
    }
}

/// The view of a variant-list result.
pub open spec fn view_variants_result(r: Result<Vec<VariantSpec>, ChangeError>) -> Result<
    Seq<VariantV>,
    ChangeError,
> {
    match r {
        Ok(v) => Ok(crate::model::view_variants(v@)),
        Err(e) => Err(e),
    }
}

/// When one operation's scan stops on an error, the whole run from the
/// originals stops on that error.
proof fn lemma_variant_run_err(
    items_in: Seq<TaggedVarV>,
    ops: Seq<VariantChangeV>,
    j: int,
    origs: Seq<TaggedVarV>,
    opv: VariantChangeV,
    start: Seq<TaggedVarV>,
    applied0: bool,
    cur: Seq<TaggedVarV>,
    k: int,
    applied: bool,
    e: ChangeError,
)
    requires
        0 <= j < ops.len(),
        opv == ops[j],
        applied0 == (variant_creates(opv) is Some),
        start == variant_step_start(items_in, opv),
        variant_run_from(items_in, ops, j) == variant_run_from(origs, ops, 0),
        variant_scan(cur, opv, k, applied) == variant_scan(start, opv, 0, applied0),
        variant_scan(cur, opv, k, applied) == Err::<(Seq<TaggedVarV>, bool), ChangeError>(e),
    ensures
        variant_run_from(origs, ops, 0) == Err::<Seq<TaggedVarV>, ChangeError>(e),
{
    assert(variant_step(items_in, opv) == Err::<Seq<TaggedVarV>, ChangeError>(e));
    assert(variant_run_from(items_in, ops, j) == Err::<Seq<TaggedVarV>, ChangeError>(e));
}

/// An ordered list of variant change operations.
pub struct EnumChange {
    pub changes: Vec<VariantChange>,
}

impl View for EnumChange {
    type V = Seq<VariantChangeV>;

    open spec fn view(&self) -> Seq<VariantChangeV> {
        view_variant_ops(self.changes@)
    }
}

impl EnumChange {
    /// Applies the operation list to a variant list, returning the new
    /// list or the first error.
    pub fn transform(&self, variants: &Vec<VariantSpec>) -> (r: Result<
        Vec<VariantSpec>,
        ChangeError,
    >)
        ensures
            view_variants_result(r) == enum_apply(crate::model::view_variants(variants@), self@),
    {
        let ghost origs = tag_original_variants(crate::model::view_variants(variants@));
        let ghost ops = self@;

        let mut items: Vec<TaggedVariant> = Vec::new();
        let mut i: usize = 0;
        while i < variants.len()
            invariant
                i <= variants.len(),
                items@.len() == i,
                forall|m: int| 0 <= m < i ==> items@[m]@ == (TaggedVarV {
                    variant: variants@[m]@,
                    tag: Tag::Original,
                }),
            decreases variants.len() - i,
        {
            items.push(TaggedVariant { variant: variants[i].clone(), tag: Tag::Original });
            i = i + 1;
        }
        proof {
            assert(view_tagged_variants(items@) =~= origs);
        }

        let mut j: usize = 0;
        while j < self.changes.len()
            invariant
                j <= self.changes.len(),
                ops == self@,
                origs == tag_original_variants(crate::model::view_variants(variants@)),
                variant_run_from(view_tagged_variants(items@), ops, j as int) == variant_run_from(
                    origs,
                    ops,
                    0,
                ),
            decreases self.changes.len() - j,
        {
            let op = &self.changes[j];
            let ghost items_in = view_tagged_variants(items@);
            let ghost opv = ops[j as int];

            let mut applied = false;
            match op.create() {
                Some(v) => {
                    items.push(TaggedVariant { variant: v, tag: Tag::Added });
                    applied = true;
                },
                None => {},
            }
            let ghost start = view_tagged_variants(items@);
            let ghost applied0 = variant_creates(opv) is Some;
            proof {
                match variant_creates(opv) {
                    Some(vv) => {
                        assert(start =~= items_in.push(TaggedVarV { variant: vv, tag: Tag::Added }));
                    },
                    None => {
                        assert(start =~= items_in);
                    },
                }
            }

            let mut k: usize = 0;
            while k < items.len()
                invariant
                    k <= items.len(),
                    ops == self@,
                    j < self.changes.len(),
                    opv == ops[j as int],
                    op@ == opv,
                    origs == tag_original_variants(crate::model::view_variants(variants@)),
                    applied0 == (variant_creates(opv) is Some),
                    start == variant_step_start(items_in, opv),
                    variant_run_from(items_in, ops, j as int) == variant_run_from(origs, ops, 0),
                    variant_scan(view_tagged_variants(items@), opv, k as int, applied)
                        == variant_scan(start, opv, 0, applied0),
                decreases items.len() - k,
            {
                let ghost cur = view_tagged_variants(items@);
                let ghost applied_in = applied;
                let do_remove = op.remove(&items[k].variant);
                proof {
                    assert(cur[k as int] == items@[k as int]@);
                }
                if do_remove && !matches!(items[k].tag, Tag::Original) {
                    proof {
                        lemma_variant_run_err(items_in, ops, j as int, origs, opv, start, applied0,
                            cur, k as int, applied_in, ChangeError::Conflict);
                    }
                    return Err(ChangeError::Conflict);
                }
                match op.transform(&items[k].variant) {
                    Err(e) => {
                        proof {
                            lemma_variant_run_err(items_in, ops, j as int, origs, opv, start,
                                applied0, cur, k as int, applied_in, e);
                        }
                        return Err(e);
                    },
                    Ok(Some(nv)) => {
                        if !matches!(items[k].tag, Tag::Original) {
                            proof {
                                lemma_variant_run_err(items_in, ops, j as int, origs, opv, start,
                                    applied0, cur, k as int, applied_in, ChangeError::Conflict);
                            }
                            return Err(ChangeError::Conflict);
                        }
                        if do_remove {
                            proof {
                                lemma_variant_run_err(items_in, ops, j as int, origs, opv, start,
                                    applied0, cur, k as int, applied_in, ChangeError::Conflict);
                            }
                            return Err(ChangeError::Conflict);
                        }
                        items.set(k, TaggedVariant { variant: nv, tag: Tag::Changed });
                        applied = true;
                        proof {
                            assert(view_tagged_variants(items@) =~= cur.update(
                                k as int,
                                TaggedVarV {
                                    variant: variant_transforms(opv, cur[k as int].variant)
                                        ->Some_0->Ok_0,
                                    tag: Tag::Changed,
                                },
                            ));
                        }
                    },
                    Ok(None) => {
                        if do_remove {
                            let old_variant = items[k].variant.clone();
                            items.set(k, TaggedVariant { variant: old_variant, tag: Tag::Removed });
                            applied = true;
                            proof {
                                assert(view_tagged_variants(items@) =~= cur.update(
                                    k as int,
                                    TaggedVarV { variant: cur[k as int].variant, tag: Tag::Removed },
                                ));
                            }
                        }
                    },
                }
                proof {
                    assert(variant_scan(view_tagged_variants(items@), opv, k as int + 1, applied)
                        == variant_scan(cur, opv, k as int, applied_in));
                }
                k = k + 1;
            }
            proof {
                assert(variant_scan(start, opv, 0, applied0) == Ok::<
                    (Seq<TaggedVarV>, bool),
                    ChangeError,
                >((view_tagged_variants(items@), applied)));
            }
            if !applied {
                proof {
                    assert(variant_step(items_in, opv) == Err::<Seq<TaggedVarV>, ChangeError>(
                        ChangeError::NoTargetMatched,
                    ));
                    assert(variant_run_from(origs, ops, 0) == Err::<Seq<TaggedVarV>, ChangeError>(
                        ChangeError::NoTargetMatched,
                    ));
                }
                return Err(ChangeError::NoTargetMatched);
            }
            proof {
                assert(variant_step(items_in, opv) == Ok::<Seq<TaggedVarV>, ChangeError>(
                    view_tagged_variants(items@),
                ));
            }
            j = j + 1;
        }

        let ghost done = view_tagged_variants(items@);
        let mut out: Vec<VariantSpec> = Vec::new();
        let mut k: usize = 0;
        while k < items.len()
            invariant
                k <= items.len(),
                done == view_tagged_variants(items@),
                crate::model::view_variants(out@) == drop_removed_variants(done.take(k as int)),
            decreases items.len() - k,
        {
            let ghost out0 = crate::model::view_variants(out@);
            if !matches!(items[k].tag, Tag::Removed) {
                out.push(items[k].variant.clone());
            }
            proof {
                assert(done.take(k as int + 1).drop_last() =~= done.take(k as int));
                assert(done.take(k as int + 1).last() == done[k as int]);
                if done[k as int].tag != Tag::Removed {
                    assert(crate::model::view_variants(out@) =~= out0 + seq![done[k as int].variant]);
                } else {
                    assert(crate::model::view_variants(out@) =~= out0 + Seq::<VariantV>::empty());
                    assert(out0 + Seq::<VariantV>::empty() =~= out0);
                }
            }
            k = k + 1;
        }
        proof {
            assert(done.take(done.len() as int) =~= done);
        }
        Ok(out)
    }
}


/// The variants created by the add operations from index `j` on, in
/// operation order.
pub open spec fn variant_creates_from(ops: Seq<VariantChangeV>, j: int) -> Seq<VariantV>
    decreases ops.len() - j,
{
    if j < 0 || j >= ops.len() {
        Seq::empty()
    } else {
        (match variant_creates(ops[j]) {
            Some(v) => seq![v],
            None => Seq::empty(),
        }) + variant_creates_from(ops, j + 1)
    }
}

/// Whether an operation transforms the given variant into exactly the
/// given successor.
pub open spec fn variant_transforms_to(op: VariantChangeV, v: VariantV, nv: VariantV) -> bool {
    match variant_transforms(op, v) {
        Some(r) => match r {
            Ok(x) => x == nv,
            Err(_) => false,
        },
        None => false,
    }
}

/// How one scan may relate a variant to its successor: untouched, changed
/// in place by the operation, or marked removed by the operation with its
/// value kept.
pub open spec fn variant_scan_desc(
    before: TaggedVarV,
    after: TaggedVarV,
    op: VariantChangeV,
) -> bool {
    ||| after == before
    ||| (before.tag == Tag::Original && after.tag == Tag::Changed && variant_transforms_to(
        op,
        before.variant,
        after.variant,
    ))
    ||| (before.tag == Tag::Original && after.tag == Tag::Removed && after.variant
        == before.variant && variant_removes(op, before.variant))
}

/// How a whole run may relate a variant to its successor.
pub open spec fn variant_run_desc(
    before: TaggedVarV,
    after: TaggedVarV,
    ops: Seq<VariantChangeV>,
    j: int,
) -> bool {
    ||| after == before
    ||| (before.tag == Tag::Original && after.tag == Tag::Changed && exists|j2: int|
        j <= j2 < ops.len() && variant_transforms_to(ops[j2], before.variant, after.variant))
    ||| (before.tag == Tag::Original && after.tag == Tag::Removed && after.variant
        == before.variant && exists|j2: int|
        j <= j2 < ops.len() && variant_removes(ops[j2], before.variant))
}

/// A successful scan keeps the collection's length, leaves the part
/// before its start index alone, and relates every other variant to its
/// successor by [`variant_scan_desc`].
pub proof fn lemma_variant_scan_structure(
    items: Seq<TaggedVarV>,
    op: VariantChangeV,
    k: int,
    applied: bool,
)
    requires
        0 <= k <= items.len(),
        variant_scan(items, op, k, applied) is Ok,
    ensures
        ({
            let out = variant_scan(items, op, k, applied)->Ok_0.0;
            &&& out.len() == items.len()
            &&& forall|m: int| 0 <= m < k ==> out[m] == items[m]
            &&& forall|m: int|
                k <= m < items.len() ==> variant_scan_desc(items[m], #[trigger] out[m], op)
        }),
    decreases items.len() - k,
{
    if k < items.len() {
        let it = items[k];
        match variant_transforms(op, it.variant) {
            Some(r) => match r {
                Ok(nv) => {
                    let items2 = items.update(k, TaggedVarV { variant: nv, tag: Tag::Changed });
                    lemma_variant_scan_structure(items2, op, k + 1, true);
                },
                Err(_) => {},
            },
            None => {
                if variant_removes(op, it.variant) {
                    let items2 = items.update(
                        k,
                        TaggedVarV { variant: it.variant, tag: Tag::Removed },
                    );
                    lemma_variant_scan_structure(items2, op, k + 1, true);
                } else {
                    lemma_variant_scan_structure(items, op, k + 1, applied);
                }
            },
        }
    }
}

/// A successful operation appends exactly what it creates, tagged added,
/// and relates every prior variant to its successor by
/// [`variant_scan_desc`].
pub proof fn lemma_variant_step_structure(items: Seq<TaggedVarV>, op: VariantChangeV)
    requires
        variant_step(items, op) is Ok,
    ensures
        ({
            let out = variant_step(items, op)->Ok_0;
            &&& out.len() == items.len() + (match variant_creates(op) {
                Some(_) => 1int,
                None => 0int,
            })
            &&& forall|m: int|
                0 <= m < items.len() ==> variant_scan_desc(items[m], #[trigger] out[m], op)
            &&& (variant_creates(op) is Some ==> out[items.len() as int] == (TaggedVarV {
                variant: variant_creates(op)->Some_0,
                tag: Tag::Added,
            }))
        }),
{
    let start = variant_step_start(items, op);
    let applied0 = variant_creates(op) is Some;
    lemma_variant_scan_structure(start, op, 0, applied0);
    let out = variant_step(items, op)->Ok_0;
    if variant_creates(op) is Some {
        assert(variant_scan_desc(start[items.len() as int], out[items.len() as int], op));
        assert(start[items.len() as int].tag == Tag::Added);
    }
}

/// A successful run appends exactly the variants its add operations
/// create, in operation order and tagged added, and relates every prior
/// variant to its successor by [`variant_run_desc`].
pub proof fn lemma_variant_run_structure(
    items: Seq<TaggedVarV>,
    ops: Seq<VariantChangeV>,
    j: int,
)
    requires
        0 <= j <= ops.len(),
        variant_run_from(items, ops, j) is Ok,
    ensures
        ({
            let out = variant_run_from(items, ops, j)->Ok_0;
            &&& out.len() == items.len() + variant_creates_from(ops, j).len()
            &&& forall|m: int|
                0 <= m < items.len() ==> variant_run_desc(items[m], #[trigger] out[m], ops, j)
            &&& forall|m: int|
                items.len() <= m < out.len() ==> #[trigger] out[m] == (TaggedVarV {
                    variant: variant_creates_from(ops, j)[m - items.len()],
                    tag: Tag::Added,
                })
        }),
    decreases ops.len() - j,
{
    if j < ops.len() {
        let mid = variant_step(items, ops[j])->Ok_0;
        let out = variant_run_from(items, ops, j)->Ok_0;
        lemma_variant_step_structure(items, ops[j]);
        lemma_variant_run_structure(mid, ops, j + 1);
        assert forall|m: int| 0 <= m < items.len() implies variant_run_desc(
            items[m],
            #[trigger] out[m],
            ops,
            j,
        ) by {
            assert(variant_scan_desc(items[m], mid[m], ops[j]));
            assert(variant_run_desc(mid[m], out[m], ops, j + 1));
            if out[m] == mid[m] {
                if mid[m] == items[m] {
                } else if mid[m].tag == Tag::Changed && variant_transforms_to(
                    ops[j],
                    items[m].variant,
                    mid[m].variant,
                ) {
                    assert(j <= j < ops.len() && variant_transforms_to(ops[j], items[m].variant,
                        out[m].variant));
                } else {
                    assert(j <= j < ops.len() && variant_removes(ops[j], items[m].variant));
                }
            } else {
                assert(mid[m] == items[m]);
            }
        }
        assert forall|m: int| items.len() <= m < out.len() implies #[trigger] out[m] == (TaggedVarV {
            variant: variant_creates_from(ops, j)[m - items.len()],
            tag: Tag::Added,
        }) by {
            if m < mid.len() {
                assert(m == items.len());
                assert(mid[m].tag == Tag::Added);
                assert(variant_run_desc(mid[m], out[m], ops, j + 1));
                assert(out[m] == mid[m]);
            } else {
                assert(out[m] == (TaggedVarV {
                    variant: variant_creates_from(ops, j + 1)[m - mid.len()],
                    tag: Tag::Added,
                }));
            }
        }
    }
}

} // verus!
