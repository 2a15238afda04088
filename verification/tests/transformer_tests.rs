use mapstruct::enum_change::EnumChange;
use mapstruct::model::{ChangeError, FieldSpec, Shape, VariantSpec, Visibility};
use mapstruct::named_field_change::NamedFieldChange;
use mapstruct::struct_change::StructChange;
use mapstruct::tuple_change::TupleChange;
use mapstruct::unnamed_field_change::UnnamedFieldChange;
use mapstruct::variant::VariantChange;

fn by(s: &str) -> Vec<u8> {
    s.as_bytes().to_vec()
}

fn named_field(name: &str, ty: &str) -> FieldSpec {
    FieldSpec { vis: Visibility::Inherited, name: Some(by(name)), ty: by(ty) }
}

fn pos_field(ty: &str) -> FieldSpec {
    FieldSpec { vis: Visibility::Inherited, name: None, ty: by(ty) }
}

fn tuple_variant(name: &str, tys: &[&str]) -> VariantSpec {
    VariantSpec {
        name: by(name),
        shape: Shape::Positional(tys.iter().map(|t| pos_field(t)).collect()),
    }
}

fn rename(from: &str, to: &str) -> NamedFieldChange {
    NamedFieldChange::Change {
        visibility: Visibility::Inherited,
        ident: by(from),
        to: Some(by(to)),
        ty: None,
    }
}

fn retype(name: &str, ty: &str) -> NamedFieldChange {
    NamedFieldChange::Change {
        visibility: Visibility::Inherited,
        ident: by(name),
        to: None,
        ty: Some(by(ty)),
    }
}

fn add(name: &str, ty: &str) -> NamedFieldChange {
    NamedFieldChange::Add { visibility: Visibility::Inherited, ident: by(name), ty: by(ty) }
}

fn remove(name: &str) -> NamedFieldChange {
    NamedFieldChange::Remove { ident: by(name), ty: None }
}

fn scenario_fields() -> Vec<FieldSpec> {
    vec![
        named_field("id", "i64"),
        named_field("name", "String"),
        named_field("age", "i32"),
        named_field("height", "f32"),
        named_field("some", "String"),
    ]
}

#[test]
fn named_scenario_rename_retype_add_remove() {
    let changes = StructChange {
        changes: vec![
            rename("id", "x_id"),
            retype("name", "& str"),
            retype("some", "& str"),
            add("last_name", "& str"),
            remove("height"),
        ],
    };
    let out = changes.transform(&scenario_fields()).unwrap();
    let expected = vec![
        named_field("x_id", "i64"),
        named_field("name", "& str"),
        named_field("age", "i32"),
        named_field("some", "& str"),
        named_field("last_name", "& str"),
    ];
    assert_eq!(out, expected);
}

#[test]
fn named_order_is_preserved_without_structural_changes() {
    let changes = StructChange {
        changes: vec![retype("age", "u32"), rename("some", "other")],
    };
    let out = changes.transform(&scenario_fields()).unwrap();
    let expected = vec![
        named_field("id", "i64"),
        named_field("name", "String"),
        named_field("age", "u32"),
        named_field("height", "f32"),
        named_field("other", "String"),
    ];
    assert_eq!(out, expected);
}

#[test]
fn named_adds_append_in_operation_order() {
    let changes = StructChange {
        changes: vec![add("first", "u8"), remove("height"), add("second", "u16")],
    };
    let out = changes.transform(&scenario_fields()).unwrap();
    let expected = vec![
        named_field("id", "i64"),
        named_field("name", "String"),
        named_field("age", "i32"),
        named_field("some", "String"),
        named_field("first", "u8"),
        named_field("second", "u16"),
    ];
    assert_eq!(out, expected);
}

#[test]
fn named_remove_then_change_conflicts() {
    let changes = StructChange { changes: vec![remove("age"), retype("age", "u32")] };
    assert_eq!(changes.transform(&scenario_fields()), Err(ChangeError::Conflict));
}

#[test]
fn named_change_then_remove_conflicts() {
    let changes = StructChange { changes: vec![retype("age", "u32"), remove("age")] };
    assert_eq!(changes.transform(&scenario_fields()), Err(ChangeError::Conflict));
}

#[test]
fn named_rename_then_remove_reports_no_target() {
    let changes = StructChange { changes: vec![rename("age", "years"), remove("age")] };
    assert_eq!(changes.transform(&scenario_fields()), Err(ChangeError::NoTargetMatched));
}

#[test]
fn named_guarded_remove_on_changed_field_conflicts() {
    let changes = StructChange {
        changes: vec![
            rename("age", "age"),
            NamedFieldChange::Remove { ident: by("age"), ty: Some(by("i32")) },
        ],
    };
    assert_eq!(changes.transform(&scenario_fields()), Err(ChangeError::Conflict));
}

#[test]
fn named_absent_target_reports_no_target() {
    let changes = StructChange { changes: vec![remove("absent")] };
    assert_eq!(changes.transform(&scenario_fields()), Err(ChangeError::NoTargetMatched));
}

#[test]
fn named_guarded_remove_needs_matching_type() {
    let ok = StructChange {
        changes: vec![NamedFieldChange::Remove { ident: by("age"), ty: Some(by("i32")) }],
    };
    assert!(ok.transform(&scenario_fields()).is_ok());
    let bad = StructChange {
        changes: vec![NamedFieldChange::Remove { ident: by("age"), ty: Some(by("u32")) }],
    };
    assert_eq!(bad.transform(&scenario_fields()), Err(ChangeError::NoTargetMatched));
}

#[test]
fn named_change_sets_visibility() {
    let changes = StructChange {
        changes: vec![NamedFieldChange::Change {
            visibility: Visibility::Public,
            ident: by("id"),
            to: None,
            ty: None,
        }],
    };
    let out = changes.transform(&vec![named_field("id", "i64")]).unwrap();
    assert_eq!(
        out,
        vec![FieldSpec { vis: Visibility::Public, name: Some(by("id")), ty: by("i64") }]
    );
}

#[test]
fn positional_match_and_add_extend_a_tuple() {
    let changes = TupleChange {
        changes: vec![
            UnnamedFieldChange::Match { ty: None },
            UnnamedFieldChange::Match { ty: None },
            UnnamedFieldChange::Match { ty: None },
            UnnamedFieldChange::Add { visibility: Visibility::Inherited, ty: by("i64") },
        ],
    };
    let out = changes
        .transform(&vec![pos_field("i8"), pos_field("i16"), pos_field("i32")])
        .unwrap();
    assert_eq!(
        out,
        vec![pos_field("i8"), pos_field("i16"), pos_field("i32"), pos_field("i64")]
    );
}

#[test]
fn positional_retype_changes_the_last_element() {
    let changes = TupleChange {
        changes: vec![
            UnnamedFieldChange::Match { ty: None },
            UnnamedFieldChange::Match { ty: None },
            UnnamedFieldChange::Retype { old_type: None, new_type: by("i128") },
        ],
    };
    let out = changes
        .transform(&vec![pos_field("i32"), pos_field("i64"), pos_field("i16")])
        .unwrap();
    assert_eq!(out, vec![pos_field("i32"), pos_field("i64"), pos_field("i128")]);
}

#[test]
fn positional_leftover_originals_fail() {
    let changes = TupleChange {
        changes: vec![
            UnnamedFieldChange::Match { ty: None },
            UnnamedFieldChange::Match { ty: None },
            UnnamedFieldChange::Retype { old_type: None, new_type: by("u8") },
        ],
    };
    let fields = vec![pos_field("i16"), pos_field("i8"), pos_field("i32"), pos_field("i64")];
    assert_eq!(changes.transform(&fields), Err(ChangeError::UnmatchedOriginals));
}

#[test]
fn positional_consuming_past_the_end_fails() {
    let changes = TupleChange {
        changes: vec![
            UnnamedFieldChange::Match { ty: None },
            UnnamedFieldChange::Remove { ty: None },
        ],
    };
    assert_eq!(
        changes.transform(&vec![pos_field("i8")]),
        Err(ChangeError::NoMoreFields)
    );
}

#[test]
fn positional_unguarded_ops_ignore_types() {
    let changes = TupleChange {
        changes: vec![
            UnnamedFieldChange::Remove { ty: None },
            UnnamedFieldChange::Retype { old_type: None, new_type: by("u8") },
            UnnamedFieldChange::Match { ty: None },
        ],
    };
    let out = changes
        .transform(&vec![pos_field("String"), pos_field("i8"), pos_field("bool")])
        .unwrap();
    assert_eq!(out, vec![pos_field("u8"), pos_field("bool")]);
}

#[test]
fn positional_guards_compare_type_text() {
    let ok = TupleChange {
        changes: vec![UnnamedFieldChange::Remove { ty: Some(by("i8")) }],
    };
    assert_eq!(ok.transform(&vec![pos_field("i8")]), Ok(vec![]));
    let bad = TupleChange {
        changes: vec![UnnamedFieldChange::Remove { ty: Some(by("u8")) }],
    };
    assert_eq!(bad.transform(&vec![pos_field("i8")]), Err(ChangeError::TypeMismatch));
}

#[test]
fn variant_retype_rejects_wrong_shapes() {
    let tuple_on_struct = EnumChange {
        changes: vec![VariantChange::TupleRetype(
            by("A"),
            None,
            TupleChange { changes: vec![] },
        )],
    };
    let struct_shaped = vec![VariantSpec {
        name: by("A"),
        shape: Shape::Named(vec![named_field("id", "i64")]),
    }];
    assert_eq!(
        tuple_on_struct.transform(&struct_shaped),
        Err(ChangeError::StructAsTupleRetype)
    );

    let struct_on_tuple = EnumChange {
        changes: vec![VariantChange::StructRetype(
            by("A"),
            None,
            StructChange { changes: vec![] },
        )],
    };
    let tuple_shaped = vec![tuple_variant("A", &["i64"])];
    assert_eq!(
        struct_on_tuple.transform(&tuple_shaped),
        Err(ChangeError::TupleAsStructRetype)
    );

    let unit_shaped = vec![VariantSpec { name: by("A"), shape: Shape::Unit }];
    assert_eq!(
        tuple_on_struct.transform(&unit_shaped),
        Err(ChangeError::UnitRetype)
    );
    assert_eq!(
        struct_on_tuple.transform(&unit_shaped),
        Err(ChangeError::UnitRetype)
    );
}

#[test]
fn variant_rename_keeps_the_shape_and_position() {
    let changes = EnumChange {
        changes: vec![VariantChange::Rename(by("A"), by("Z"))],
    };
    let out = changes
        .transform(&vec![tuple_variant("A", &["i64"]), tuple_variant("B", &["i32"])])
        .unwrap();
    assert_eq!(out, vec![tuple_variant("Z", &["i64"]), tuple_variant("B", &["i32"])]);
}

#[test]
fn variant_replace_matches_by_its_own_name() {
    let changes = EnumChange {
        changes: vec![VariantChange::Replace(None, tuple_variant("B", &["u8"]))],
    };
    let out = changes
        .transform(&vec![tuple_variant("A", &["i64"]), tuple_variant("B", &["i32"])])
        .unwrap();
    assert_eq!(out, vec![tuple_variant("A", &["i64"]), tuple_variant("B", &["u8"])]);
}

#[test]
fn variant_remove_and_change_conflict_in_either_order() {
    let base = vec![tuple_variant("A", &["i64"]), tuple_variant("B", &["i32"])];
    let remove_then_rename = EnumChange {
        changes: vec![
            VariantChange::Remove(by("A")),
            VariantChange::Rename(by("A"), by("Z")),
        ],
    };
    assert_eq!(remove_then_rename.transform(&base), Err(ChangeError::Conflict));
    let rename_then_remove = EnumChange {
        changes: vec![
            VariantChange::Rename(by("A"), by("Z")),
            VariantChange::Remove(by("A")),
        ],
    };
    assert_eq!(rename_then_remove.transform(&base), Err(ChangeError::NoTargetMatched));
}

#[test]
fn variant_absent_target_reports_no_target() {
    let base = vec![tuple_variant("A", &["i64"])];
    let changes = EnumChange { changes: vec![VariantChange::Remove(by("Q"))] };
    assert_eq!(changes.transform(&base), Err(ChangeError::NoTargetMatched));
}

#[test]
fn variant_added_by_one_op_conflicts_with_a_later_match() {
    let base = vec![tuple_variant("A", &["i64"])];
    let changes = EnumChange {
        changes: vec![
            VariantChange::Add(tuple_variant("B", &["u8"])),
            VariantChange::Rename(by("B"), by("C")),
        ],
    };
    assert_eq!(changes.transform(&base), Err(ChangeError::Conflict));
}
