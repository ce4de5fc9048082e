use godot_cell::declaration::{
    Attribute, AttributeValue, Declaration, NamedField, Struct, StructFields, Token,
};
use godot_cell::derive_godot_class::{
    ensure_kv_empty, parse_class_attr, parse_fields, parse_struct_attributes, transform,
    ClassAttributes, ErrorKind, ExportedField, Field, Fields, GodotClass, ParseError, Site,
};
use godot_cell::util::{KvError, KvMap, KvValue};

fn ident(text: &str) -> Token {
    Token::Ident(text.to_string())
}

fn lit(text: &str) -> Token {
    Token::Literal(text.to_string())
}

fn attr(name: &str, tokens: Vec<Token>) -> Attribute {
    Attribute { path: vec![ident(name)], value: AttributeValue::Group(tokens) }
}

fn bare(name: &str) -> Attribute {
    Attribute { path: vec![ident(name)], value: AttributeValue::Empty }
}

fn kv(key: &str, value: Token) -> Vec<Token> {
    vec![ident(key), Token::Punct('='), value, Token::Punct(',')]
}

fn export(getter: &str, setter: &str, variant_type: &str) -> Attribute {
    let mut tokens = kv("getter", lit(getter));
    tokens.extend(kv("setter", lit(setter)));
    tokens.extend(kv("variant_type", lit(variant_type)));
    attr("export", tokens)
}

fn field(name: &str, ty: &str, attributes: Vec<Attribute>) -> NamedField {
    NamedField { attributes, name: name.to_string(), ty: ty.to_string() }
}

fn class(attributes: Vec<Attribute>, fields: StructFields) -> Struct {
    Struct { attributes, name: "Player".to_string(), fields }
}

fn plain(name: &str, ty: &str) -> Field {
    Field { name: name.to_string(), ty: ty.to_string() }
}

fn error(kind: ErrorKind, site: Site) -> ParseError {
    ParseError { kind, site }
}

fn map_of(entries: Vec<(&str, KvValue)>) -> KvMap {
    let mut map = KvMap::new();
    for (key, value) in entries {
        map.insert(key.to_string(), value);
    }
    map
}

fn literal(text: &str) -> KvValue {
    KvValue::Lit(text.to_string())
}

#[test]
fn field_new_keeps_name_and_type() {
    let declared = field("hp", "i32", vec![bare("base")]);
    assert_eq!(Field::new(&declared), plain("hp", "i32"));
}

#[test]
fn ensure_kv_empty_lists_what_is_left() {
    let site = Site::StructAttribute { attribute: 2 };
    assert_eq!(ensure_kv_empty(KvMap::new(), site), Ok(()));
    let map = map_of(vec![("x", KvValue::Absent), ("y", literal("1"))]);
    assert_eq!(
        ensure_kv_empty(map, site),
        Err(error(ErrorKind::UnknownKeys(vec!["x".to_string(), "y".to_string()]), site))
    );
}

#[test]
fn require_key_value_takes_a_literal_out() {
    let site = Site::FieldAttribute { field: 1, attribute: 0 };
    let mut map = map_of(vec![
        ("getter", literal("\"get\"")),
        ("setter", KvValue::Ident("set".to_string())),
        ("flag", KvValue::Absent),
    ]);
    assert_eq!(
        ExportedField::require_key_value(&mut map, "getter", site),
        Ok("\"get\"".to_string())
    );
    assert_eq!(map.len(), 2);
    assert_eq!(
        ExportedField::require_key_value(&mut map, "getter", site),
        Err(error(ErrorKind::MissingKey("getter".to_string()), site))
    );
    assert_eq!(
        ExportedField::require_key_value(&mut map, "setter", site),
        Err(error(ErrorKind::NonLiteralValue("setter".to_string()), site))
    );
    assert!(!map.contains_key("setter"));
    assert_eq!(
        ExportedField::require_key_value(&mut map, "flag", site),
        Err(error(ErrorKind::NonLiteralValue("flag".to_string()), site))
    );
    assert!(map.is_empty());
}

#[test]
fn new_from_kv_builds_the_exported_field() {
    let site = Site::FieldAttribute { field: 0, attribute: 0 };
    let map = map_of(vec![
        ("variant_type", literal("\"Int\"")),
        ("setter", literal("\"set_hp\"")),
        ("getter", literal("\"get_hp\"")),
    ]);
    assert_eq!(
        ExportedField::new_from_kv(plain("hp", "i32"), site, map),
        Ok(ExportedField {
            field: plain("hp", "i32"),
            getter: "\"get_hp\"".to_string(),
            setter: "\"set_hp\"".to_string(),
            variant_type: "\"Int\"".to_string(),
        })
    );
}

#[test]
fn new_from_kv_tells_the_first_fault() {
    let site = Site::FieldAttribute { field: 3, attribute: 1 };
    let make = |entries: Vec<(&str, KvValue)>| {
        ExportedField::new_from_kv(plain("hp", "i32"), site, map_of(entries)).err()
    };
    assert_eq!(make(vec![]), Some(error(ErrorKind::MissingKey("getter".to_string()), site)));
    assert_eq!(
        make(vec![("setter", KvValue::Absent), ("getter", KvValue::Absent)]),
        Some(error(ErrorKind::NonLiteralValue("getter".to_string()), site))
    );
    assert_eq!(
        make(vec![("getter", literal("1")), ("variant_type", literal("2"))]),
        Some(error(ErrorKind::MissingKey("setter".to_string()), site))
    );
    assert_eq!(
        make(vec![
            ("getter", literal("1")),
            ("setter", literal("2")),
            ("variant_type", KvValue::Ident("Int".to_string())),
            ("more", KvValue::Absent),
        ]),
        Some(error(ErrorKind::NonLiteralValue("variant_type".to_string()), site))
    );
    assert_eq!(
        make(vec![("getter", literal("1")), ("setter", literal("2"))]),
        Some(error(ErrorKind::MissingKey("variant_type".to_string()), site))
    );
    assert_eq!(
        make(vec![
            ("more", KvValue::Absent),
            ("getter", literal("1")),
            ("setter", literal("2")),
            ("variant_type", literal("3")),
            ("other", literal("4")),
        ]),
        Some(error(
            ErrorKind::UnknownKeys(vec!["more".to_string(), "other".to_string()]),
            site
        ))
    );
}

#[test]
fn variant_type_source_strips_first_and_last_character() {
    let exported = |variant_type: &str| ExportedField {
        field: plain("hp", "i32"),
        getter: String::new(),
        setter: String::new(),
        variant_type: variant_type.to_string(),
    };
    assert_eq!(exported("\"VariantType::Int\"").variant_type_source(), "VariantType::Int");
    assert_eq!(exported("\"\"").variant_type_source(), "");
    assert_eq!(exported("'é'").variant_type_source(), "é");
    assert_eq!(exported("123").variant_type_source(), "2");
}

#[test]
fn class_attr_is_found_with_its_place() {
    assert!(matches!(parse_class_attr(&vec![]), Ok(None)));
    assert!(matches!(
        parse_class_attr(&vec![bare("derive"), attr("doc", vec![lit("1")])]),
        Ok(None)
    ));
    let attributes = vec![bare("derive"), attr("class", vec![ident("init")]), bare("other")];
    let (place, map) = parse_class_attr(&attributes).unwrap().unwrap();
    assert_eq!(place, 1);
    assert_eq!(map.keys(), vec!["init".to_string()]);
    assert_eq!(map.get("init"), Some(&KvValue::Absent));
    let (place, map) = parse_class_attr(&vec![bare("class")]).unwrap().unwrap();
    assert_eq!(place, 0);
    assert!(map.is_empty());
}

#[test]
fn class_attr_faults() {
    let attributes = vec![attr("class", vec![]), bare("doc"), bare("class"), bare("class")];
    assert_eq!(
        parse_class_attr(&attributes).err(),
        Some(error(
            ErrorKind::SeveralClassAttributes,
            Site::StructAttribute { attribute: 2 }
        ))
    );
    let attributes = vec![bare("doc"), attr("class", vec![lit("1")]), bare("class")];
    assert_eq!(
        parse_class_attr(&attributes).err(),
        Some(error(
            ErrorKind::KeyValue(KvError::ExpectedKey { at: 0 }),
            Site::StructAttribute { attribute: 1 }
        ))
    );
    // A second one is an error before its own tokens are read.
    let attributes = vec![bare("class"), attr("class", vec![lit("1")])];
    assert_eq!(
        parse_class_attr(&attributes).err(),
        Some(error(
            ErrorKind::SeveralClassAttributes,
            Site::StructAttribute { attribute: 1 }
        ))
    );
    // A path of several tokens is no class attribute.
    let qualified = Attribute {
        path: vec![Token::Punct(':'), Token::Punct(':'), ident("class")],
        value: AttributeValue::Group(vec![lit("1")]),
    };
    assert!(matches!(parse_class_attr(&vec![qualified]), Ok(None)));
}

#[test]
fn struct_attributes_default_to_ref_counted() {
    let expected =
        ClassAttributes { base_ty: "RefCounted".to_string(), has_generated_init: false };
    assert_eq!(parse_struct_attributes(&class(vec![], StructFields::Unit)), Ok(expected.clone()));
    assert_eq!(
        parse_struct_attributes(&class(vec![bare("derive")], StructFields::Unit)),
        Ok(expected.clone())
    );
    assert_eq!(
        parse_struct_attributes(&class(vec![bare("class")], StructFields::Unit)),
        Ok(expected)
    );
}

#[test]
fn struct_attributes_read_base_and_init() {
    let attributes = vec![attr(
        "class",
        vec![ident("init"), Token::Punct(','), ident("base"), Token::Punct('='), ident("Node2D")],
    )];
    assert_eq!(
        parse_struct_attributes(&class(attributes, StructFields::Unit)),
        Ok(ClassAttributes { base_ty: "Node2D".to_string(), has_generated_init: true })
    );
    let attributes = vec![attr("class", kv("base", ident("Node")))];
    assert_eq!(
        parse_struct_attributes(&class(attributes, StructFields::Unit)),
        Ok(ClassAttributes { base_ty: "Node".to_string(), has_generated_init: false })
    );
    let attributes = vec![bare("doc"), attr("class", vec![ident("init")])];
    assert_eq!(
        parse_struct_attributes(&class(attributes, StructFields::Unit)),
        Ok(ClassAttributes { base_ty: "RefCounted".to_string(), has_generated_init: true })
    );
}

#[test]
fn struct_attributes_faults() {
    let site = Site::StructAttribute { attribute: 0 };
    let parse = |tokens: Vec<Token>| {
        parse_struct_attributes(&class(vec![attr("class", tokens)], StructFields::Unit)).err()
    };
    assert_eq!(parse(kv("base", lit("\"Node\""))), Some(error(ErrorKind::InvalidBase, site)));
    assert_eq!(
        parse(vec![ident("base"), Token::Punct(','), ident("init"), Token::Punct('='), lit("1")]),
        Some(error(ErrorKind::InvalidBase, site))
    );
    assert_eq!(parse(kv("init", lit("true"))), Some(error(ErrorKind::InitHasValue, site)));
    assert_eq!(parse(kv("init", ident("yes"))), Some(error(ErrorKind::InitHasValue, site)));
    assert_eq!(
        parse(vec![ident("init"), Token::Punct(','), ident("extra"), Token::Punct(','), ident("x")]),
        Some(error(
            ErrorKind::UnknownKeys(vec!["extra".to_string(), "x".to_string()]),
            site
        ))
    );
    assert_eq!(
        parse(vec![ident("init"), Token::Punct('=')]),
        Some(error(ErrorKind::KeyValue(KvError::UnexpectedEnd), site))
    );
    assert_eq!(
        parse_struct_attributes(&class(vec![bare("class"), bare("class")], StructFields::Unit))
            .err(),
        Some(error(
            ErrorKind::SeveralClassAttributes,
            Site::StructAttribute { attribute: 1 }
        ))
    );
}

#[test]
fn fields_of_unit_and_tuple_structs() {
    assert_eq!(
        parse_fields(&class(vec![], StructFields::Unit)),
        Ok(Fields { all_field_names: vec![], base_field: None, exported_fields: vec![] })
    );
    assert_eq!(
        parse_fields(&class(vec![], StructFields::Named(vec![]))),
        Ok(Fields { all_field_names: vec![], base_field: None, exported_fields: vec![] })
    );
    assert_eq!(
        parse_fields(&class(vec![], StructFields::Tuple)),
        Err(error(ErrorKind::TupleStruct, Site::Fields))
    );
}

#[test]
fn fields_are_sorted_into_names_base_and_exports() {
    let fields = StructFields::Named(vec![
        field("hp", "i32", vec![bare("doc"), export("\"get_hp\"", "\"set_hp\"", "\"Int\"")]),
        field("base", "Base<Node>", vec![bare("base")]),
        field("name", "String", vec![]),
        field(
            "speed",
            "f32",
            vec![export("\"g1\"", "\"s1\"", "\"Float\""), export("\"g2\"", "\"s2\"", "\"Float\"")],
        ),
    ]);
    let exported = |name: &str, ty: &str, getter: &str, setter: &str, variant_type: &str| {
        ExportedField {
            field: plain(name, ty),
            getter: getter.to_string(),
            setter: setter.to_string(),
            variant_type: variant_type.to_string(),
        }
    };
    assert_eq!(
        parse_fields(&class(vec![], fields)),
        Ok(Fields {
            all_field_names: vec!["hp".to_string(), "name".to_string(), "speed".to_string()],
            base_field: Some(plain("base", "Base<Node>")),
            exported_fields: vec![
                exported("hp", "i32", "\"get_hp\"", "\"set_hp\"", "\"Int\""),
                exported("speed", "f32", "\"g1\"", "\"s1\"", "\"Float\""),
                exported("speed", "f32", "\"g2\"", "\"s2\"", "\"Float\""),
            ],
        })
    );
}

#[test]
fn a_base_field_may_be_exported_too() {
    let fields = StructFields::Named(vec![field(
        "base",
        "Base<Node>",
        vec![export("\"g\"", "\"s\"", "\"Object\""), bare("base")],
    )]);
    let parsed = parse_fields(&class(vec![], fields)).unwrap();
    assert!(parsed.all_field_names.is_empty());
    assert_eq!(parsed.base_field, Some(plain("base", "Base<Node>")));
    assert_eq!(parsed.exported_fields.len(), 1);
    assert_eq!(parsed.exported_fields[0].field, plain("base", "Base<Node>"));
}

#[test]
fn fields_faults() {
    let parse = |fields: Vec<NamedField>| {
        parse_fields(&class(vec![], StructFields::Named(fields))).err()
    };
    assert_eq!(
        parse(vec![
            field("a", "A", vec![bare("base")]),
            field("b", "B", vec![bare("doc"), bare("base")]),
        ]),
        Some(error(
            ErrorKind::SeveralBaseFields("a".to_string()),
            Site::FieldAttribute { field: 1, attribute: 1 }
        ))
    );
    assert_eq!(
        parse(vec![field("a", "A", vec![bare("base"), bare("base")])]),
        Some(error(
            ErrorKind::SeveralBaseFields("a".to_string()),
            Site::FieldAttribute { field: 0, attribute: 1 }
        ))
    );
    assert_eq!(
        parse(vec![field("a", "A", vec![]), field("b", "B", vec![bare("export")])]),
        Some(error(
            ErrorKind::MissingKey("getter".to_string()),
            Site::FieldAttribute { field: 1, attribute: 0 }
        ))
    );
    assert_eq!(
        parse(vec![field("a", "A", vec![attr("export", vec![ident("getter"), lit("1")])])]),
        Some(error(
            ErrorKind::KeyValue(KvError::ExpectedEqualsOrComma { at: 1 }),
            Site::FieldAttribute { field: 0, attribute: 0 }
        ))
    );
    // The first fault in the order of the fields and their attributes is told.
    assert_eq!(
        parse(vec![
            field("a", "A", vec![bare("base")]),
            field("b", "B", vec![attr("export", kv("getter", ident("g"))), bare("base")]),
        ]),
        Some(error(
            ErrorKind::NonLiteralValue("getter".to_string()),
            Site::FieldAttribute { field: 1, attribute: 0 }
        ))
    );
}

#[test]
fn transform_works_out_the_class() {
    let declaration = Declaration::Struct(class(
        vec![attr(
            "class",
            vec![ident("base"), Token::Punct('='), ident("Node"), Token::Punct(','), ident("init")],
        )],
        StructFields::Named(vec![
            field("base", "Base<Node>", vec![bare("base")]),
            field("hp", "i32", vec![export("\"get_hp\"", "\"set_hp\"", "\"Int\"")]),
        ]),
    ));
    assert_eq!(
        transform(&declaration),
        Ok(GodotClass {
            class_name: "Player".to_string(),
            base_ty: "Node".to_string(),
            inherits_macro: "inherits_transitive_Node".to_string(),
            has_generated_init: true,
            fields: Fields {
                all_field_names: vec!["hp".to_string()],
                base_field: Some(plain("base", "Base<Node>")),
                exported_fields: vec![ExportedField {
                    field: plain("hp", "i32"),
                    getter: "\"get_hp\"".to_string(),
                    setter: "\"set_hp\"".to_string(),
                    variant_type: "\"Int\"".to_string(),
                }],
            },
        })
    );
}

#[test]
fn transform_of_a_plain_struct() {
    let declaration = Declaration::Struct(class(vec![], StructFields::Unit));
    assert_eq!(
        transform(&declaration),
        Ok(GodotClass {
            class_name: "Player".to_string(),
            base_ty: "RefCounted".to_string(),
            inherits_macro: "inherits_transitive_RefCounted".to_string(),
            has_generated_init: false,
            fields: Fields { all_field_names: vec![], base_field: None, exported_fields: vec![] },
        })
    );
    assert_eq!(declaration.as_struct().map(|class| class.name.as_str()), Some("Player"));
}

#[test]
fn transform_faults() {
    assert_eq!(
        transform(&Declaration::Other),
        Err(error(ErrorKind::NotAStruct, Site::Declaration))
    );
    assert_eq!(Declaration::Other.as_struct(), None);
    // A fault in the attributes comes before one in the fields.
    let declaration =
        Declaration::Struct(class(vec![attr("class", kv("init", lit("1")))], StructFields::Tuple));
    assert_eq!(
        transform(&declaration),
        Err(error(ErrorKind::InitHasValue, Site::StructAttribute { attribute: 0 }))
    );
    let declaration = Declaration::Struct(class(vec![bare("class")], StructFields::Tuple));
    assert_eq!(transform(&declaration), Err(error(ErrorKind::TupleStruct, Site::Fields)));
}
