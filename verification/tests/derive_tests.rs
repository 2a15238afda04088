use mapstruct::model::{FieldSpec, GenericParamSpec, Shape, TypeBody, TypeDef, VariantSpec, Visibility};

fn by(s: &str) -> Vec<u8> {
    s.as_bytes().to_vec()
}

fn named_field(name: &str, ty: &str) -> FieldSpec {
    FieldSpec { vis: Visibility::Inherited, name: Some(by(name)), ty: by(ty) }
}

fn pos_field(ty: &str) -> FieldSpec {
    FieldSpec { vis: Visibility::Inherited, name: None, ty: by(ty) }
}

fn tuple_variant(name: &str, tys: &[&str]) -> VariantSpec {
    VariantSpec {
        name: by(name),
        shape: Shape::Positional(tys.iter().map(|t| pos_field(t)).collect()),
    }
}

fn struct_variant(name: &str, fields: &[(&str, &str)]) -> VariantSpec {
    VariantSpec {
        name: by(name),
        shape: Shape::Named(fields.iter().map(|(n, t)| named_field(n, t)).collect()),
    }
}

fn struct_base(fields: Vec<FieldSpec>) -> TypeDef {
    TypeDef {
        attrs: vec![],
        vis: Visibility::Inherited,
        name: by("X"),
        generics: vec![],
        body: TypeBody::Struct(Shape::Named(fields)),
    }
}

fn enum_base(variants: Vec<VariantSpec>) -> TypeDef {
    TypeDef {
        attrs: vec![],
        vis: Visibility::Inherited,
        name: by("X"),
        generics: vec![],
        body: TypeBody::Enum(variants),
    }
}

#[test]
fn test() {
    println!("Hello, world!")
}

#[test]
fn test_derive_struct() {
    let base = struct_base(vec![
        named_field("id", "i64"),
        named_field("name", "String"),
        named_field("age", "i32"),
        named_field("height", "f32"),
        named_field("some", "String"),
    ]);
    let spec = by(
        "#[derive(Debug)]\n\
         struct Y<\n\
             +'a,\n\
             +T,\n\
         > {\n\
             ~id -> x_id,\n\
             ~name: &'a str,\n\
             ~some: &'a str,\n\
             +last_name: &'a str,\n\
             -height,\n\
             +t: T,\n\
         }",
    );
    let expected = TypeDef {
        attrs: vec![by("derive ( Debug )")],
        vis: Visibility::Inherited,
        name: by("Y"),
        generics: vec![
            GenericParamSpec { ident: by("a"), decl: by("'a") },
            GenericParamSpec { ident: by("T"), decl: by("T") },
        ],
        body: TypeBody::Struct(Shape::Named(vec![
            named_field("x_id", "i64"),
            named_field("name", "& 'a str"),
            named_field("age", "i32"),
            named_field("some", "& 'a str"),
            named_field("last_name", "& 'a str"),
            named_field("t", "T"),
        ])),
    };
    let results = mapstruct::derive(&base, &vec![spec]);
    assert_eq!(results.len(), 1);
    assert_eq!(results[0], Ok(expected));
}

#[test]
fn test_derive_enum_tuple() {
    let base = enum_base(vec![
        tuple_variant("A", &["i64"]),
        tuple_variant("B", &["i32"]),
        tuple_variant("C", &["i16"]),
    ]);
    let spec = by("#[derive(Debug)] enum Y { -A, +D(i8), }");
    let expected = TypeDef {
        attrs: vec![by("derive ( Debug )")],
        vis: Visibility::Inherited,
        name: by("Y"),
        generics: vec![],
        body: TypeBody::Enum(vec![
            tuple_variant("B", &["i32"]),
            tuple_variant("C", &["i16"]),
            tuple_variant("D", &["i8"]),
        ]),
    };
    let results = mapstruct::derive(&base, &vec![spec]);
    assert_eq!(results.len(), 1);
    assert_eq!(results[0], Ok(expected));
}

#[test]
fn test_derive_enum_struct() {
    let base = enum_base(vec![
        struct_variant("A", &[("id", "i64"), ("name", "String")]),
        struct_variant("B", &[("id", "i32"), ("name", "String")]),
        struct_variant("C", &[("id", "i16"), ("name", "String")]),
    ]);
    let spec = by(
        "#[derive(Debug)] enum Y { -A, ~B { -name, }, ~C { -name, }, +D { id: i8, }, }",
    );
    let expected = TypeDef {
        attrs: vec![by("derive ( Debug )")],
        vis: Visibility::Inherited,
        name: by("Y"),
        generics: vec![],
        body: TypeBody::Enum(vec![
            struct_variant("B", &[("id", "i32")]),
            struct_variant("C", &[("id", "i16")]),
            struct_variant("D", &[("id", "i8")]),
        ]),
    };
    let results = mapstruct::derive(&base, &vec![spec]);
    assert_eq!(results.len(), 1);
    assert_eq!(results[0], Ok(expected));
}

#[test]
fn test_derive_enum_struct_replace() {
    let base = enum_base(vec![
        struct_variant("A", &[("id", "i64"), ("name", "String")]),
        struct_variant("B", &[("id", "i32"), ("name", "String")]),
        struct_variant("C", &[("id", "i16"), ("name", "String")]),
    ]);
    let spec = by(
        "#[derive(Debug)] enum Y { ~B { -name, }, ~C { -name, }, ~A -> D { ~id: i8, -name, }, }",
    );
    let expected = TypeDef {
        attrs: vec![by("derive ( Debug )")],
        vis: Visibility::Inherited,
        name: by("Y"),
        generics: vec![],
        body: TypeBody::Enum(vec![
            struct_variant("D", &[("id", "i8")]),
            struct_variant("B", &[("id", "i32")]),
            struct_variant("C", &[("id", "i16")]),
        ]),
    };
    let results = mapstruct::derive(&base, &vec![spec]);
    assert_eq!(results.len(), 1);
    assert_eq!(results[0], Ok(expected));
}

#[test]
fn test_derive_enum_tuple_replace() {
    let base = enum_base(vec![
        struct_variant("A", &[("id", "i64"), ("name", "String")]),
        struct_variant("B", &[("id", "i32"), ("name", "String")]),
        struct_variant("C", &[("id", "i16"), ("name", "String")]),
    ]);
    let spec = by("#[derive(Debug)] pub enum Y { A(i64), B(i32), C(i16), +D(i8), }");
    let expected = TypeDef {
        attrs: vec![by("derive ( Debug )")],
        vis: Visibility::Public,
        name: by("Y"),
        generics: vec![],
        body: TypeBody::Enum(vec![
            tuple_variant("A", &["i64"]),
            tuple_variant("B", &["i32"]),
            tuple_variant("C", &["i16"]),
            tuple_variant("D", &["i8"]),
        ]),
    };
    let results = mapstruct::derive(&base, &vec![spec]);
    assert_eq!(results.len(), 1);
    assert_eq!(results[0], Ok(expected));
}

#[test]
fn test_derive_enum_tuple_change() {
    let base = enum_base(vec![
        tuple_variant("A", &["i8", "i16", "i32"]),
        tuple_variant("B", &["i32", "i64", "i16"]),
        tuple_variant("C", &["i16", "i8", "i32"]),
        tuple_variant("D", &["i8", "i16", "i32", "i64"]),
    ]);
    let spec = by(
        "#[derive(Debug)] pub enum Y { ~A(_, _, _, +i64), ~B(_, _, ~i128), ~C(_, _, ~u16, +u8), +E(i8, i16, i32, i64), }",
    );
    let expected = TypeDef {
        attrs: vec![by("derive ( Debug )")],
        vis: Visibility::Public,
        name: by("Y"),
        generics: vec![],
        body: TypeBody::Enum(vec![
            tuple_variant("A", &["i8", "i16", "i32", "i64"]),
            tuple_variant("B", &["i32", "i64", "i128"]),
            tuple_variant("C", &["i16", "i8", "u16", "u8"]),
            tuple_variant("D", &["i8", "i16", "i32", "i64"]),
            tuple_variant("E", &["i8", "i16", "i32", "i64"]),
        ]),
    };
    let results = mapstruct::derive(&base, &vec![spec]);
    assert_eq!(results.len(), 1);
    assert_eq!(results[0], Ok(expected));
}

#[test]
fn derive_processes_each_specification_independently() {
    let base = struct_base(vec![named_field("id", "i64")]);
    let good = by("struct Y { ~id -> key, }");
    let bad = by("struct Z { -absent, }");
    let results = mapstruct::derive(&base, &vec![bad, good]);
    assert_eq!(results.len(), 2);
    assert_eq!(
        results[0],
        Err(mapstruct::model::ChangeError::NoTargetMatched)
    );
    let expected = TypeDef {
        attrs: vec![],
        vis: Visibility::Inherited,
        name: by("Y"),
        generics: vec![],
        body: TypeBody::Struct(Shape::Named(vec![named_field("key", "i64")])),
    };
    assert_eq!(results[1], Ok(expected));
}

#[test]
fn derive_rejects_tuple_unit_and_union_bases() {
    let spec = by("struct Y { }");
    let tuple_base = TypeDef {
        attrs: vec![],
        vis: Visibility::Inherited,
        name: by("X"),
        generics: vec![],
        body: TypeBody::Struct(Shape::Positional(vec![pos_field("i8")])),
    };
    let unit_base = TypeDef {
        attrs: vec![],
        vis: Visibility::Inherited,
        name: by("X"),
        generics: vec![],
        body: TypeBody::Struct(Shape::Unit),
    };
    let union_base = TypeDef {
        attrs: vec![],
        vis: Visibility::Inherited,
        name: by("X"),
        generics: vec![],
        body: TypeBody::Union,
    };
    assert_eq!(
        mapstruct::derive(&tuple_base, &vec![spec.clone()])[0],
        Err(mapstruct::model::ChangeError::TupleBaseUnsupported)
    );
    assert_eq!(
        mapstruct::derive(&unit_base, &vec![spec.clone()])[0],
        Err(mapstruct::model::ChangeError::UnitBaseUnsupported)
    );
    assert_eq!(
        mapstruct::derive(&union_base, &vec![spec])[0],
        Err(mapstruct::model::ChangeError::BaseNotSupported)
    );
}

#[test]
fn derive_reports_syntax_errors_with_a_position() {
    let base = struct_base(vec![named_field("id", "i64")]);
    let results = mapstruct::derive(&base, &vec![by("struct Y { ?id, }")]);
    match results[0] {
        Err(mapstruct::model::ChangeError::Syntax { pos }) => assert_eq!(pos, 11),
        ref other => panic!("expected a syntax error, got {:?}", other),
    }
}

#[test]
fn generic_removes_drop_lifetimes_types_and_consts() {
    let base = TypeDef {
        attrs: vec![],
        vis: Visibility::Inherited,
        name: by("X"),
        generics: vec![
            GenericParamSpec { ident: by("a"), decl: by("'a") },
            GenericParamSpec { ident: by("T"), decl: by("T : Clone") },
            GenericParamSpec { ident: by("N"), decl: by("const N : usize") },
        ],
        body: TypeBody::Struct(Shape::Named(vec![named_field("id", "i64")])),
    };
    let spec = by("struct Y<-a, -N, +U,> { ~id: u8, }");
    let results = mapstruct::derive(&base, &vec![spec]);
    let expected = TypeDef {
        attrs: vec![],
        vis: Visibility::Inherited,
        name: by("Y"),
        generics: vec![
            GenericParamSpec { ident: by("T"), decl: by("T : Clone") },
            GenericParamSpec { ident: by("U"), decl: by("U") },
        ],
        body: TypeBody::Struct(Shape::Named(vec![named_field("id", "u8")])),
    };
    assert_eq!(results[0], Ok(expected));
}
