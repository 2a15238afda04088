use mapstruct::model::{ChangeError, FieldSpec, Shape, TypeBody, TypeDef, VariantSpec, Visibility};
use mapstruct::map_enum::MapEnum;
use mapstruct::map_struct::MapStruct;

fn by(s: &str) -> Vec<u8> {
    s.as_bytes().to_vec()
}

fn named_field(name: &str, ty: &str) -> FieldSpec {
    FieldSpec { vis: Visibility::Inherited, name: Some(by(name)), ty: by(ty) }
}

fn pos_field(ty: &str) -> FieldSpec {
    FieldSpec { vis: Visibility::Inherited, name: None, ty: by(ty) }
}

fn tuple_variant(name: &str, tys: &[&str]) -> VariantSpec {
    VariantSpec {
        name: by(name),
        shape: Shape::Positional(tys.iter().map(|t| pos_field(t)).collect()),
    }
}

#[test]
fn parse_keeps_restricted_visibility() {
    let base = TypeDef {
        attrs: vec![],
        vis: Visibility::Inherited,
        name: by("X"),
        generics: vec![],
        body: TypeBody::Struct(Shape::Named(vec![named_field("id", "i64")])),
    };
    let spec = by("pub(crate) struct Y { +pub(in a::b) key: u8, -id, }");
    let results = mapstruct::derive(&base, &vec![spec]);
    let expected = TypeDef {
        attrs: vec![],
        vis: Visibility::Restricted(by("crate")),
        name: by("Y"),
        generics: vec![],
        body: TypeBody::Struct(Shape::Named(vec![FieldSpec {
            vis: Visibility::Restricted(by("in a :: b")),
            name: Some(by("key")),
            ty: by("u8"),
        }])),
    };
    assert_eq!(results[0], Ok(expected));
}

#[test]
fn parse_rejects_visibility_written_before_a_rename() {
    let spec = by("struct Y { ~pub id -> key, }");
    match MapStruct::parse(&spec) {
        Err(ChangeError::Syntax { .. }) => {}
        other => panic!("expected a syntax error, got {:?}", other.map(|_| ())),
    }
}

#[test]
fn parse_rejects_trailing_tokens() {
    let spec = by("struct Y { } extra");
    match MapStruct::parse(&spec) {
        Err(ChangeError::Syntax { pos }) => assert_eq!(pos, 13),
        other => panic!("expected a syntax error, got {:?}", other.map(|_| ())),
    }
}

#[test]
fn parse_rejects_an_unterminated_string() {
    let spec = by("struct Y { +s: \"oops }");
    match MapStruct::parse(&spec) {
        Err(ChangeError::Syntax { pos }) => assert_eq!(pos, 15),
        other => panic!("expected a syntax error, got {:?}", other.map(|_| ())),
    }
}

#[test]
fn parse_nested_generic_types_stop_at_the_right_comma() {
    let base = TypeDef {
        attrs: vec![],
        vis: Visibility::Inherited,
        name: by("X"),
        generics: vec![],
        body: TypeBody::Struct(Shape::Named(vec![named_field("id", "i64")])),
    };
    let spec = by("struct Y { +m: Map2<u8, (i16, i32)>, ~id: Vec<u8>, }");
    let results = mapstruct::derive(&base, &vec![spec]);
    let expected = TypeDef {
        attrs: vec![],
        vis: Visibility::Inherited,
        name: by("Y"),
        generics: vec![],
        body: TypeBody::Struct(Shape::Named(vec![
            named_field("id", "Vec < u8 >"),
            named_field("m", "Map2 < u8 , ( i16 , i32 ) >"),
        ])),
    };
    assert_eq!(results[0], Ok(expected));
}

#[test]
fn parse_positional_guard_and_unguarded_remove_through_the_enum_grammar() {
    let spec = by("enum Y { ~A(-_, i16 -> u16), }");
    let me = MapEnum::parse(&spec).unwrap();
    let base = vec![tuple_variant("A", &["i8", "i16"])];
    let out = me.changes.transform(&base).unwrap();
    assert_eq!(out, vec![tuple_variant("A", &["u16"])]);
}

#[test]
fn canonical_text_respells_tokens_uniformly() {
    let canon = |s: &str| {
        mapstruct::parse::canonicalize_text(&by(s)).map(|v| String::from_utf8(v).unwrap())
    };
    assert_eq!(canon("(i16,i32)"), Ok("( i16 , i32 )".to_string()));
    assert_eq!(canon("a::b"), Ok("a :: b".to_string()));
    assert_eq!(canon("&'a   str"), Ok("& 'a str".to_string()));
    assert_eq!(canon("fn(u8) -> u16"), Ok("fn ( u8 ) -> u16".to_string()));
}

#[test]
fn parse_guarded_positional_mismatch_fails_through_the_enum_grammar() {
    let spec = by("enum Y { ~A(-i32, _), }");
    let me = MapEnum::parse(&spec).unwrap();
    let base = vec![tuple_variant("A", &["i8", "i16"])];
    assert_eq!(me.changes.transform(&base), Err(ChangeError::TypeMismatch));
}
