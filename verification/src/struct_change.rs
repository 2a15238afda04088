//! The named-field transformer: an ordered operation list applied to a
//! growing, tagged working collection of fields.
//!
//! Every original field starts untouched. Each operation first appends the
//! field it creates, if any, then scans the whole working collection —
//! fields added earlier in the pass included. A match on an item that an
//! earlier operation already affected is a conflict, as is one operation
//! both removing and transforming the same item; an operation that never
//! applies is a completeness error. Fields marked removed are dropped at
//! the end; everything else keeps its position, with created fields
//! appended after all originals in operation order.

use vstd::prelude::*;

use crate::model::{view_fields, view_fields_result, ChangeError, FieldSpec, FieldV, Tag};
use crate::named_field_change::{
    named_creates, named_removes, named_transforms, view_named_ops, NamedChangeV, NamedFieldChange,
};

verus! {

/// One entry of the working collection: a field and its bookkeeping tag.
pub struct TaggedField {
    pub field: FieldSpec,
    pub tag: Tag,
}

/// Mathematical view of [`TaggedField`].
#[verifier::ext_equal]
pub struct TaggedV {
    pub field: FieldV,
    pub tag: Tag,
}

impl View for TaggedField {
    type V = TaggedV;

    open spec fn view(&self) -> TaggedV {
        TaggedV { field: self.field@, tag: self.tag }
    }
}

/// The view of a working collection.
pub open spec fn view_tagged(s: Seq<TaggedField>) -> Seq<TaggedV> {
    s.map_values(|t: TaggedField| t@)
}

/// The originals, each tagged untouched.
pub open spec fn tag_originals(fields: Seq<FieldV>) -> Seq<TaggedV> {
    fields.map_values(|f: FieldV| TaggedV { field: f, tag: Tag::Original })
}

/// One operation's scan over the working collection from index `k` on,
/// with `applied` recording whether the operation has taken effect so far:
/// the updated collection and the final applied flag, or the conflict that
/// stops the scan.
pub open spec fn named_scan(
    items: Seq<TaggedV>,
    op: NamedChangeV,
    k: int,
    applied: bool,
) -> Result<(Seq<TaggedV>, bool), ChangeError>
    decreases items.len() - k,
{
    if k < 0 || k >= items.len() {
        Ok((items, applied))
    } else {
        let it = items[k];
        let do_remove = named_removes(op, it.field);
        if do_remove && it.tag != Tag::Original {
            Err(ChangeError::Conflict)
        } else {
            match named_transforms(op, it.field) {
                Some(nf) => {
                    if it.tag != Tag::Original {
                        Err(ChangeError::Conflict)
                    } else if do_remove {
                        Err(ChangeError::Conflict)
                    } else {
                        named_scan(
                            items.update(k, TaggedV { field: nf, tag: Tag::Changed }),
                            op,
                            k + 1,
                            true,
                        )
                    }
                },
                None => {
                    if do_remove {
                        named_scan(
                            items.update(k, TaggedV { field: it.field, tag: Tag::Removed }),
                            op,
                            k + 1,
                            true,
                        )
                    } else {
                        named_scan(items, op, k + 1, applied)
                    }
                },
            }
        }
    }
}

/// The working collection as one operation's scan begins: what the
/// operation creates, if anything, appended tagged as added.
pub open spec fn step_start(items: Seq<TaggedV>, op: NamedChangeV) -> Seq<TaggedV> {
    match named_creates(op) {
        Some(f) => items.push(TaggedV { field: f, tag: Tag::Added }),
        None => items,
    }
}

/// One whole operation: append what it creates, scan the collection, and
/// demand that the operation applied to something.
pub open spec fn named_step(items: Seq<TaggedV>, op: NamedChangeV) -> Result<
    Seq<TaggedV>,
    ChangeError,
> {
    let start = step_start(items, op);
    let applied0 = named_creates(op) is Some;
    match named_scan(start, op, 0, applied0) {
        Err(e) => Err(e),
        Ok((its, applied)) => if applied {
            Ok(its)
        } else {
            Err(ChangeError::NoTargetMatched)
        },
    }
}

/// The operations from index `j` on, applied in order to the working
/// collection.
pub open spec fn named_run_from(items: Seq<TaggedV>, ops: Seq<NamedChangeV>, j: int) -> Result<
    Seq<TaggedV>,
    ChangeError,
>
    decreases ops.len() - j,
{
    if j < 0 || j >= ops.len() {
        Ok(items)
    } else {
        match named_step(items, ops[j]) {
            Err(e) => Err(e),
            Ok(its) => named_run_from(its, ops, j + 1),
        }
    }
}

/// The fields of a finished working collection, with the removed ones
/// dropped and every other one kept in position.
pub open spec fn drop_removed(items: Seq<TaggedV>) -> Seq<FieldV>
    decreases items.len(),
{
    if items.len() == 0 {
        Seq::empty()
    } else {
        drop_removed(items.drop_last()) + if items.last().tag != Tag::Removed {
            seq![items.last().field]
        } else {
            Seq::empty()
        }
    }
}

/// The whole named-field transformation: the new field sequence the
/// operation list produces from the originals, or the first error.
pub open spec fn named_apply(fields: Seq<FieldV>, ops: Seq<NamedChangeV>) -> Result<
    Seq<FieldV>,
    ChangeError,
> {
    match named_run_from(tag_originals(fields), ops, 0) {
        Ok(its) => Ok(drop_removed(its)),
        Err(e) => Err(e),
    }
}

/// The fields created by the add operations from index `j` on, in
/// operation order.
pub open spec fn creates_from(ops: Seq<NamedChangeV>, j: int) -> Seq<FieldV>
    decreases ops.len() - j,
{
    if j < 0 || j >= ops.len() {
        Seq::empty()
    } else {
        (match named_creates(ops[j]) {
            Some(f) => seq![f],
            None => Seq::empty(),
        }) + creates_from(ops, j + 1)
    }
}

/// How one scan may relate an item to its successor: untouched, changed in
/// place by the operation, or marked removed by the operation with its
/// field kept.
pub open spec fn scan_desc(before: TaggedV, after: TaggedV, op: NamedChangeV) -> bool {
    ||| after == before
    ||| (before.tag == Tag::Original && after.tag == Tag::Changed && named_transforms(
        op,
        before.field,
    ) == Some(after.field))
    ||| (before.tag == Tag::Original && after.tag == Tag::Removed && after.field == before.field
        && named_removes(op, before.field))
}

/// How a whole run may relate an item to its successor: untouched, changed
/// in place by one of the remaining operations, or marked removed by one
/// of them with its field kept.
pub open spec fn run_desc(before: TaggedV, after: TaggedV, ops: Seq<NamedChangeV>, j: int) -> bool {
    ||| after == before
    ||| (before.tag == Tag::Original && after.tag == Tag::Changed && exists|j2: int|
        j <= j2 < ops.len() && named_transforms(ops[j2], before.field) == Some(after.field))
    ||| (before.tag == Tag::Original && after.tag == Tag::Removed && after.field == before.field
        && exists|j2: int| j <= j2 < ops.len() && named_removes(ops[j2], before.field))
}

/// A successful scan keeps the collection's length, leaves the part before
/// its start index alone, and relates every other item to its successor by
/// [`scan_desc`].
pub proof fn lemma_scan_structure(items: Seq<TaggedV>, op: NamedChangeV, k: int, applied: bool)
    requires
        0 <= k <= items.len(),
        named_scan(items, op, k, applied) is Ok,
    ensures
        ({
            let out = named_scan(items, op, k, applied)->Ok_0.0;
            &&& out.len() == items.len()
            &&& forall|m: int| 0 <= m < k ==> out[m] == items[m]
            &&& forall|m: int| k <= m < items.len() ==> scan_desc(items[m], #[trigger] out[m], op)
        }),
    decreases items.len() - k,
{
    if k < items.len() {
        let it = items[k];
        let do_remove = named_removes(op, it.field);
        match named_transforms(op, it.field) {
            Some(nf) => {
                let items2 = items.update(k, TaggedV { field: nf, tag: Tag::Changed });
                lemma_scan_structure(items2, op, k + 1, true);
            },
            None => {
                if do_remove {
                    let items2 = items.update(k, TaggedV { field: it.field, tag: Tag::Removed });
                    lemma_scan_structure(items2, op, k + 1, true);
                } else {
                    lemma_scan_structure(items, op, k + 1, applied);
                }
            },
        }
    }
}

/// A successful operation appends exactly what it creates, tagged added,
/// and relates every prior item to its successor by [`scan_desc`].
pub proof fn lemma_step_structure(items: Seq<TaggedV>, op: NamedChangeV)
    requires
        named_step(items, op) is Ok,
    ensures
        ({
            let out = named_step(items, op)->Ok_0;
            &&& out.len() == items.len() + (match named_creates(op) {
                Some(_) => 1int,
                None => 0int,
            })
            &&& forall|m: int| 0 <= m < items.len() ==> scan_desc(items[m], #[trigger] out[m], op)
            &&& (named_creates(op) is Some ==> out[items.len() as int] == (TaggedV {
                field: named_creates(op)->Some_0,
                tag: Tag::Added,
            }))
        }),
{
    let start = step_start(items, op);
    let applied0 = named_creates(op) is Some;
    lemma_scan_structure(start, op, 0, applied0);
    let out = named_step(items, op)->Ok_0;
    if named_creates(op) is Some {
        assert(scan_desc(start[items.len() as int], out[items.len() as int], op));
        assert(start[items.len() as int].tag == Tag::Added);
    }
}

/// A successful run appends exactly the fields its add operations create,
/// in operation order and tagged added, and relates every prior item to
/// its successor by [`run_desc`].
pub proof fn lemma_run_structure(items: Seq<TaggedV>, ops: Seq<NamedChangeV>, j: int)
    requires
        0 <= j <= ops.len(),
        named_run_from(items, ops, j) is Ok,
    ensures
        ({
            let out = named_run_from(items, ops, j)->Ok_0;
            &&& out.len() == items.len() + creates_from(ops, j).len()
            &&& forall|m: int| 0 <= m < items.len() ==> run_desc(items[m], #[trigger] out[m], ops, j)
            &&& forall|m: int| items.len() <= m < out.len() ==> #[trigger] out[m] == (TaggedV {
                field: creates_from(ops, j)[m - items.len()],
                tag: Tag::Added,
            })
        }),
    decreases ops.len() - j,
{
    if j < ops.len() {
        let mid = named_step(items, ops[j])->Ok_0;
        let out = named_run_from(items, ops, j)->Ok_0;
        lemma_step_structure(items, ops[j]);
        lemma_run_structure(mid, ops, j + 1);
        assert forall|m: int| 0 <= m < items.len() implies run_desc(
            items[m],
            #[trigger] out[m],
            ops,
            j,
        ) by {
            assert(scan_desc(items[m], mid[m], ops[j]));
            assert(run_desc(mid[m], out[m], ops, j + 1));
            if out[m] == mid[m] {
                if mid[m] == items[m] {
                } else if mid[m].tag == Tag::Changed && named_transforms(ops[j], items[m].field)
                    == Some(mid[m].field) {
                    assert(j <= j < ops.len() && named_transforms(ops[j], items[m].field) == Some(
                        out[m].field,
                    ));
                } else {
                    assert(j <= j < ops.len() && named_removes(ops[j], items[m].field));
                }
            } else {
                assert(mid[m] == items[m]);
            }
        }
        assert forall|m: int| items.len() <= m < out.len() implies #[trigger] out[m] == (TaggedV {
            field: creates_from(ops, j)[m - items.len()],
            tag: Tag::Added,
        }) by {
            if m < mid.len() {
                assert(m == items.len());
                assert(mid[m].tag == Tag::Added);
                assert(run_desc(mid[m], out[m], ops, j + 1));
                assert(out[m] == mid[m]);
            } else {
                assert(out[m] == (TaggedV {
                    field: creates_from(ops, j + 1)[m - mid.len()],
                    tag: Tag::Added,
                }));
            }
        }
    }
}

/// When one operation's scan stops on an error, the whole run from the
/// originals stops on that error.
proof fn lemma_run_err(
    items_in: Seq<TaggedV>,
    ops: Seq<NamedChangeV>,
    j: int,
    origs: Seq<TaggedV>,
    opv: NamedChangeV,
    start: Seq<TaggedV>,
    applied0: bool,
    cur: Seq<TaggedV>,
    k: int,
    applied: bool,
    e: ChangeError,
)
    requires
        0 <= j < ops.len(),
        opv == ops[j],
        applied0 == (named_creates(opv) is Some),
        start == step_start(items_in, opv),
        named_run_from(items_in, ops, j) == named_run_from(origs, ops, 0),
        named_scan(cur, opv, k, applied) == named_scan(start, opv, 0, applied0),
        named_scan(cur, opv, k, applied) == Err::<(Seq<TaggedV>, bool), ChangeError>(e),
    ensures
        named_run_from(origs, ops, 0) == Err::<Seq<TaggedV>, ChangeError>(e),
{
    assert(named_step(items_in, opv) == Err::<Seq<TaggedV>, ChangeError>(e));
    assert(named_run_from(items_in, ops, j) == Err::<Seq<TaggedV>, ChangeError>(e));
}

/// An ordered list of named-field change operations.
pub struct StructChange {
    pub changes: Vec<NamedFieldChange>,
}

impl View for StructChange {
    type V = Seq<NamedChangeV>;

    open spec fn view(&self) -> Seq<NamedChangeV> {
        view_named_ops(self.changes@)
    }
}

impl StructChange {
    /// Applies the operation list to a named field collection, returning
    /// the new collection or the first error.
    pub fn transform(&self, fields: &Vec<FieldSpec>) -> (r: Result<Vec<FieldSpec>, ChangeError>)
        ensures
            view_fields_result(r) == named_apply(view_fields(fields@), self@),
    {
        let ghost origs = tag_originals(view_fields(fields@));
        let ghost ops = self@;

        let mut items: Vec<TaggedField> = Vec::new();
        let mut i: usize = 0;
        while i < fields.len()
            invariant
                i <= fields.len(),
                items@.len() == i,
                forall|m: int| 0 <= m < i ==> items@[m]@ == (TaggedV {
                    field: fields@[m]@,
                    tag: Tag::Original,
                }),
            decreases fields.len() - i,
        {
            items.push(TaggedField { field: fields[i].clone(), tag: Tag::Original });
            i = i + 1;
        }
        proof {
            assert(view_tagged(items@) =~= origs);
        }

        let mut j: usize = 0;
        while j < self.changes.len()
            invariant
                j <= self.changes.len(),
                ops == self@,
                origs == tag_originals(view_fields(fields@)),
                named_run_from(view_tagged(items@), ops, j as int) == named_run_from(origs, ops, 0),
            decreases self.changes.len() - j,
        {
            let op = &self.changes[j];
            let ghost items_in = view_tagged(items@);
            let ghost opv = ops[j as int];

            let mut applied = false;
            match op.create() {
                Some(f) => {
                    items.push(TaggedField { field: f, tag: Tag::Added });
                    applied = true;
                },
                None => {},
            }
            let ghost start = view_tagged(items@);
            let ghost applied0 = named_creates(opv) is Some;
            proof {
                match named_creates(opv) {
                    Some(fv) => {
                        assert(start =~= items_in.push(TaggedV { field: fv, tag: Tag::Added }));
                    },
                    None => {
                        assert(start =~= items_in);
                    },
                }
            }

            let mut k: usize = 0;
            while k < items.len()
                invariant
                    k <= items.len(),
                    ops == self@,
                    j < self.changes.len(),
                    opv == ops[j as int],
                    op@ == opv,
                    origs == tag_originals(view_fields(fields@)),
                    applied0 == (named_creates(opv) is Some),
                    start == step_start(items_in, opv),
                    named_run_from(items_in, ops, j as int) == named_run_from(origs, ops, 0),
                    named_scan(view_tagged(items@), opv, k as int, applied) == named_scan(
                        start,
                        opv,
                        0,
                        applied0,
                    ),
                decreases items.len() - k,
            {
                let ghost cur = view_tagged(items@);
                let ghost applied_in = applied;
                let do_remove = op.remove(&items[k].field);
                proof {
                    assert(cur[k as int] == items@[k as int]@);
                }
                if do_remove && !matches!(items[k].tag, Tag::Original) {
                    proof {
                        lemma_run_err(items_in, ops, j as int, origs, opv, start, applied0, cur,
                            k as int, applied_in, ChangeError::Conflict);
                    }
                    return Err(ChangeError::Conflict);
                }
                match op.transform(&items[k].field) {
                    Some(nf) => {
                        if !matches!(items[k].tag, Tag::Original) {
                            proof {
                                lemma_run_err(items_in, ops, j as int, origs, opv, start, applied0,
                                    cur, k as int, applied_in, ChangeError::Conflict);
                            }
                            return Err(ChangeError::Conflict);
                        }
                        if do_remove {
                            proof {
                                lemma_run_err(items_in, ops, j as int, origs, opv, start, applied0,
                                    cur, k as int, applied_in, ChangeError::Conflict);
                            }
                            return Err(ChangeError::Conflict);
                        }
                        items.set(k, TaggedField { field: nf, tag: Tag::Changed });
                        applied = true;
                        proof {
                            assert(view_tagged(items@) =~= cur.update(
                                k as int,
                                TaggedV {
                                    field: named_transforms(opv, cur[k as int].field)->Some_0,
                                    tag: Tag::Changed,
                                },
                            ));
                        }
                    },
                    None => {
                        if do_remove {
                            let old_field = items[k].field.clone();
                            items.set(k, TaggedField { field: old_field, tag: Tag::Removed });
                            applied = true;
                            proof {
                                assert(view_tagged(items@) =~= cur.update(
                                    k as int,
                                    TaggedV { field: cur[k as int].field, tag: Tag::Removed },
                                ));
                            }
                        }
                    },
                }
                proof {
                    assert(named_scan(view_tagged(items@), opv, k as int + 1, applied)
                        == named_scan(cur, opv, k as int, applied_in));
                }
                k = k + 1;
            }
            proof {
                assert(named_scan(start, opv, 0, applied0) == Ok::<(Seq<TaggedV>, bool), ChangeError>(
                    (view_tagged(items@), applied),
                ));
            }
            if !applied {
                proof {
                    assert(named_step(items_in, opv) == Err::<Seq<TaggedV>, ChangeError>(
                        ChangeError::NoTargetMatched,
                    ));
                    assert(named_run_from(origs, ops, 0) == Err::<Seq<TaggedV>, ChangeError>(
                        ChangeError::NoTargetMatched,
                    ));
                }
                return Err(ChangeError::NoTargetMatched);
            }
            proof {
                assert(named_step(items_in, opv) == Ok::<Seq<TaggedV>, ChangeError>(
                    view_tagged(items@),
                ));
            }
            j = j + 1;
        }

        let ghost done = view_tagged(items@);
        let mut out: Vec<FieldSpec> = Vec::new();
        let mut k: usize = 0;
        while k < items.len()
            invariant
                k <= items.len(),
                done == view_tagged(items@),
                view_fields(out@) == drop_removed(done.take(k as int)),
            decreases items.len() - k,
        {
            let ghost out0 = view_fields(out@);
            if !matches!(items[k].tag, Tag::Removed) {
                out.push(items[k].field.clone());
            }
            proof {
                assert(done.take(k as int + 1).drop_last() =~= done.take(k as int));
                assert(done.take(k as int + 1).last() == done[k as int]);
                if done[k as int].tag != Tag::Removed {
                    assert(view_fields(out@) =~= out0 + seq![done[k as int].field]);
                } else {
                    assert(view_fields(out@) =~= out0 + Seq::<FieldV>::empty());
                    assert(out0 + Seq::<FieldV>::empty() =~= out0);
                }
            }
            k = k + 1;
        }
        proof {
            assert(done.take(done.len() as int) =~= done);
        }
        Ok(out)
    }
}

} // verus!
