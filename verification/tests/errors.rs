use type_gen::{
    gen, gen_object_header, gen_simple_enum_header, make_type_optional, remove_start_from_ref,
    Error, ExternalTypeCollector, InstanceType, Literal, Property, RootSchema, Schema,
    SchemaObject,
};

fn empty_obj() -> SchemaObject {
    SchemaObject {
        title: None,
        instance_type: None,
        properties: None,
        items: None,
        enum_values: None,
        any_of: None,
        reference: None,
    }
}

fn kind_node(kinds: Vec<InstanceType>) -> Schema {
    let mut o = empty_obj();
    o.instance_type = Some(kinds);
    Schema::Object(o)
}

fn prop(name: &str, value: Schema) -> Property {
    Property { name: name.to_owned(), value }
}

fn product(title: &str, props: Vec<Property>) -> SchemaObject {
    let mut o = empty_obj();
    o.title = Some(title.to_owned());
    o.properties = Some(props);
    o
}

fn gen_err(schema: SchemaObject, definitions: Vec<(String, Schema)>) -> Error {
    let mut x = ExternalTypeCollector::new();
    gen(RootSchema { schema, definitions }, &mut x).unwrap_err()
}

#[test]
fn nameless_root_is_rejected() {
    assert_eq!(gen_err(empty_obj(), vec![]), Error::NoNameForType);
}

#[test]
fn placeholder_field_is_no_real_type() {
    let schema = product("T", vec![prop("f", Schema::Any)]);
    assert_eq!(gen_err(schema, vec![]), Error::TypeIsNoRealType);
}

#[test]
fn empty_field_node_has_no_type_set() {
    let schema = product("T", vec![prop("f", Schema::Object(empty_obj()))]);
    assert_eq!(gen_err(schema, vec![]), Error::NoTypeSet);
}

#[test]
fn union_root_without_branches_or_literals() {
    let mut o = empty_obj();
    o.title = Some("T".to_owned());
    assert_eq!(gen_err(o, vec![]), Error::EnumHasNoTypes);
}

#[test]
fn unknown_reference_is_reported() {
    let schema = product("T", vec![prop("f", {
        let mut o = empty_obj();
        o.reference = Some("#/definitions/Missing".to_owned());
        Schema::Object(o)
    })]);
    assert_eq!(gen_err(schema, vec![]), Error::ExternalTypeNotAvailable);
}

#[test]
fn non_string_literal_is_not_simple() {
    let mut o = empty_obj();
    o.title = Some("E".to_owned());
    o.enum_values = Some(vec![Literal::Str("A".to_owned()), Literal::Other]);
    assert_eq!(gen_err(o, vec![]), Error::SimpleEnumNotSimple);
}

#[test]
fn union_of_other_width_in_field_position() {
    let mut union = empty_obj();
    union.any_of = Some(vec![
        kind_node(vec![InstanceType::Str]),
        kind_node(vec![InstanceType::Integer]),
        kind_node(vec![InstanceType::Boolean]),
    ]);
    let schema = product("T", vec![prop("f", Schema::Object(union))]);
    assert_eq!(gen_err(schema, vec![]), Error::NoNameForType);
}

#[test]
fn union_branch_of_no_known_shape() {
    // A branch with neither a single-field object part nor literal values.
    let mut union = empty_obj();
    union.title = Some("U".to_owned());
    union.any_of = Some(vec![Schema::Object(empty_obj())]);
    assert_eq!(gen_err(union, vec![]), Error::NoNameForType);
}

#[test]
fn error_messages_name_the_failure() {
    assert_eq!(
        Error::ExternalTypeNotAvailable.message(),
        "An external type was referenced, but it was not found"
    );
    assert_eq!(
        Error::SimpleEnumNotSimple.message(),
        "An enum was expected to not store any values, but it does"
    );
}

#[test]
fn reference_prefix_is_stripped_only_when_extended() {
    assert_eq!(remove_start_from_ref("#/definitions/Foo"), "Foo");
    assert_eq!(remove_start_from_ref("Foo"), "Foo");
    assert_eq!(remove_start_from_ref("#/definitions/"), "#/definitions/");
    assert_eq!(remove_start_from_ref("#/defXnitions/Foo"), "#/defXnitions/Foo");
    assert_eq!(remove_start_from_ref(""), "");
}

#[test]
fn text_helpers() {
    assert_eq!(make_type_optional("int"), "option<int>");
    assert_eq!(gen_simple_enum_header("X"), "type X = \n");
    assert_eq!(gen_object_header("X"), "type X = \n");
}

#[test]
fn two_null_kinds_concatenate() {
    // Two declared kinds where none or both are `Null` fall back to the
    // concatenation of the single-kind names.
    let mut x = ExternalTypeCollector::new();
    let root = RootSchema {
        schema: product(
            "T",
            vec![
                prop("both_null", kind_node(vec![InstanceType::Null, InstanceType::Null])),
                prop(
                    "two_real",
                    kind_node(vec![InstanceType::Str, InstanceType::Integer]),
                ),
            ],
        ),
        definitions: vec![],
    };
    let text = gen(root, &mut x).unwrap();
    assert_eq!(
        text,
        "type T = \n    {\n        both_null : unitunit\n        two_real : stringint\n    }"
    );
}

#[test]
fn registry_direct_use() {
    let mut x = ExternalTypeCollector::new();
    let mut ext = empty_obj();
    ext.properties = Some(vec![prop("test", kind_node(vec![InstanceType::Str]))]);
    x.add_types_to_parse(vec![("ExternalType".to_owned(), Schema::Object(ext))]);
    let name = x.get_type("#/definitions/ExternalType").unwrap();
    assert_eq!(name, "ExternalType");
    let decls = x.get_external_types();
    assert_eq!(decls.len(), 1);
    assert_eq!(
        decls[0].1,
        "type ExternalType = \n    {\n        test : string\n    }"
    );

    let mut fields = Vec::new();
    fields.push(prop("n", kind_node(vec![InstanceType::Integer])));
    x.add_unnamed_type("Anon", &fields).unwrap();
    let decls = x.get_external_types();
    assert_eq!(decls.len(), 2);
    assert_eq!(decls[1].0, "Anon");
    assert_eq!(decls[1].1, "type Anon = \n    {\n        n : int\n    }");
}

#[test]
fn shared_registry_accumulates_over_runs() {
    let mut x = ExternalTypeCollector::new();
    let mut first_ext = empty_obj();
    first_ext.properties = Some(vec![prop("a", kind_node(vec![InstanceType::Integer]))]);
    let first = RootSchema {
        schema: product("First", vec![prop("f", {
            let mut o = empty_obj();
            o.reference = Some("#/definitions/ExtA".to_owned());
            Schema::Object(o)
        })]),
        definitions: vec![("ExtA".to_owned(), Schema::Object(first_ext))],
    };
    gen(first, &mut x).unwrap();

    let mut second_ext = empty_obj();
    second_ext.properties = Some(vec![prop("b", kind_node(vec![InstanceType::Str]))]);
    let second = RootSchema {
        schema: product("Second", vec![prop("g", {
            let mut o = empty_obj();
            o.reference = Some("#/definitions/ExtB".to_owned());
            Schema::Object(o)
        })]),
        definitions: vec![("ExtB".to_owned(), Schema::Object(second_ext))],
    };
    gen(second, &mut x).unwrap();

    let decls = x.get_external_types();
    assert_eq!(decls.len(), 2);
    assert_eq!(decls[0].0, "ExtA");
    assert_eq!(decls[1].0, "ExtB");
}

#[test]
fn later_pending_definition_replaces_earlier() {
    let mut x = ExternalTypeCollector::new();
    let mut v1 = empty_obj();
    v1.properties = Some(vec![prop("old", kind_node(vec![InstanceType::Integer]))]);
    let mut v2 = empty_obj();
    v2.properties = Some(vec![prop("new", kind_node(vec![InstanceType::Str]))]);
    x.add_types_to_parse(vec![("X".to_owned(), Schema::Object(v1))]);
    x.add_types_to_parse(vec![("X".to_owned(), Schema::Object(v2))]);
    x.get_type("X").unwrap();
    let decls = x.get_external_types();
    assert_eq!(decls.len(), 1);
    assert_eq!(decls[0].1, "type X = \n    {\n        new : string\n    }");
}

#[test]
fn reference_names_may_hold_any_characters() {
    assert_eq!(remove_start_from_ref("#/definitions/Grüße"), "Grüße");
    assert_eq!(remove_start_from_ref("Grüße"), "Grüße");
}
