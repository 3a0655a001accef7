use type_gen::{
    gen, ExternalTypeCollector, InstanceType, Items, Literal, Property, RootSchema, Schema,
    SchemaObject,
};

fn empty_obj() -> SchemaObject {
    SchemaObject {
        title: None,
        instance_type: None,
        properties: None,
        items: None,
        enum_values: None,
        any_of: None,
        reference: None,
    }
}

fn kind_node(kinds: Vec<InstanceType>) -> Schema {
    let mut o = empty_obj();
    o.instance_type = Some(kinds);
    Schema::Object(o)
}

fn ref_node(reference: &str) -> Schema {
    let mut o = empty_obj();
    o.reference = Some(reference.to_owned());
    Schema::Object(o)
}

fn prop(name: &str, value: Schema) -> Property {
    Property { name: name.to_owned(), value }
}

fn product(title: &str, props: Vec<Property>) -> SchemaObject {
    let mut o = empty_obj();
    o.title = Some(title.to_owned());
    o.properties = Some(props);
    o
}

fn null_marker() -> Schema {
    kind_node(vec![InstanceType::Null])
}

#[test]
fn product_type_field_order() {
    let mut x = ExternalTypeCollector::new();
    let root = RootSchema {
        schema: product(
            "TestType",
            vec![
                prop("a_string", kind_node(vec![InstanceType::Str])),
                prop(
                    "optional_float",
                    kind_node(vec![InstanceType::Number, InstanceType::Null]),
                ),
            ],
        ),
        definitions: vec![],
    };
    let text = gen(root, &mut x).unwrap();
    assert_eq!(
        text,
        "type TestType = \n    {\n        a_string : string\n        optional_float : option<float>\n    }"
    );
    assert_eq!(x.get_external_types().len(), 0);
}

#[test]
fn simple_enum_three_variants_in_order() {
    let mut x = ExternalTypeCollector::new();
    let mut o = empty_obj();
    o.title = Some("E".to_owned());
    o.enum_values = Some(vec![
        Literal::Str("A".to_owned()),
        Literal::Str("B".to_owned()),
        Literal::Str("C".to_owned()),
    ]);
    let root = RootSchema { schema: o, definitions: vec![] };
    let text = gen(root, &mut x).unwrap();
    assert_eq!(text, "type E = \n\n    | A\n    | B\n    | C");
}

#[test]
fn optional_union_both_orders() {
    for flipped in [false, true] {
        let mut x = ExternalTypeCollector::new();
        let branches = if flipped {
            vec![null_marker(), kind_node(vec![InstanceType::Str])]
        } else {
            vec![kind_node(vec![InstanceType::Str]), null_marker()]
        };
        let mut union = empty_obj();
        union.any_of = Some(branches);
        let root = RootSchema {
            schema: product("T", vec![prop("f", Schema::Object(union))]),
            definitions: vec![],
        };
        let text = gen(root, &mut x).unwrap();
        assert_eq!(text, "type T = \n    {\n        f : option<string>\n    }");
    }
}

#[test]
fn optional_union_with_placeholder_marker() {
    // The permissive placeholder counts as a null marker beside a real type.
    let mut x = ExternalTypeCollector::new();
    let mut union = empty_obj();
    union.any_of = Some(vec![kind_node(vec![InstanceType::Integer]), Schema::Any]);
    let root = RootSchema {
        schema: product("T", vec![prop("f", Schema::Object(union))]),
        definitions: vec![],
    };
    let text = gen(root, &mut x).unwrap();
    assert_eq!(text, "type T = \n    {\n        f : option<int>\n    }");
}

#[test]
fn two_real_branches_fall_back_to_multi_branch_form() {
    let mut x = ExternalTypeCollector::new();
    let mut union = empty_obj();
    union.any_of = Some(vec![
        kind_node(vec![InstanceType::Str]),
        kind_node(vec![InstanceType::Integer]),
    ]);
    let root = RootSchema {
        schema: product("T", vec![prop("f", Schema::Object(union))]),
        definitions: vec![],
    };
    let text = gen(root, &mut x).unwrap();
    assert_eq!(text, "type T = \n    {\n        f : result<string,int>\n    }");
}

#[test]
fn tagged_union_four_variants() {
    let mut x = ExternalTypeCollector::new();

    let mut lit_alt = empty_obj();
    lit_alt.enum_values = Some(vec![
        Literal::Str("A".to_owned()),
        Literal::Str("D".to_owned()),
    ]);

    let mut tuple_payload = empty_obj();
    tuple_payload.instance_type = Some(vec![InstanceType::Array]);
    tuple_payload.items = Some(Items::Multiple(vec![
        kind_node(vec![InstanceType::Number]),
        kind_node(vec![InstanceType::Integer]),
    ]));
    let mut b_alt = empty_obj();
    b_alt.properties = Some(vec![prop("B", Schema::Object(tuple_payload))]);

    let mut record_payload = empty_obj();
    record_payload.instance_type = Some(vec![InstanceType::Object]);
    record_payload.properties = Some(vec![
        prop("test", kind_node(vec![InstanceType::Number])),
        prop("test2", kind_node(vec![InstanceType::Str])),
    ]);
    let mut c_alt = empty_obj();
    c_alt.properties = Some(vec![prop("C", Schema::Object(record_payload))]);

    let mut union = empty_obj();
    union.title = Some("TestEnum".to_owned());
    union.any_of = Some(vec![
        Schema::Object(lit_alt),
        Schema::Object(b_alt),
        Schema::Object(c_alt),
    ]);

    let root = RootSchema { schema: union, definitions: vec![] };
    let text = gen(root, &mut x).unwrap();
    assert_eq!(
        text,
        "type TestEnum = \n\n    | A\n    | D\n    | B of float * int\n    | C of TestEnumC\n"
    );
    let decls = x.get_external_types();
    assert_eq!(decls.len(), 1);
    assert_eq!(decls[0].0, "TestEnumC");
    assert_eq!(
        decls[0].1,
        "type TestEnumC = \n    {\n        test : float\n        test2 : string\n    }"
    );
}

#[test]
fn recursive_union_resolves_once() {
    let mut x = ExternalTypeCollector::new();

    let mut rec_alt = empty_obj();
    rec_alt.properties = Some(vec![prop("Rec", ref_node("#/definitions/SimpleRecursiveEnum"))]);
    let mut nope_alt = empty_obj();
    nope_alt.properties = Some(vec![prop("Nope", kind_node(vec![InstanceType::Number]))]);
    let mut def = empty_obj();
    def.any_of = Some(vec![Schema::Object(rec_alt), Schema::Object(nope_alt)]);

    let root = RootSchema {
        schema: product(
            "Root",
            vec![prop("recursive_type", ref_node("#/definitions/SimpleRecursiveEnum"))],
        ),
        definitions: vec![("SimpleRecursiveEnum".to_owned(), Schema::Object(def))],
    };
    let text = gen(root, &mut x).unwrap();
    assert_eq!(
        text,
        "type Root = \n    {\n        recursive_type : SimpleRecursiveEnum\n    }"
    );
    let decls = x.get_external_types();
    assert_eq!(decls.len(), 1);
    assert_eq!(decls[0].0, "SimpleRecursiveEnum");
    assert_eq!(
        decls[0].1,
        "type SimpleRecursiveEnum = \n\n    | Rec of SimpleRecursiveEnum\n    | Nope of float\n"
    );
}

#[test]
fn repeated_references_are_memoized() {
    let mut x = ExternalTypeCollector::new();
    let mut ext = empty_obj();
    ext.properties = Some(vec![prop("test", kind_node(vec![InstanceType::Str]))]);
    let root = RootSchema {
        schema: product(
            "Root",
            vec![
                prop("first", ref_node("#/definitions/ExternalType")),
                prop("second", ref_node("#/definitions/ExternalType")),
            ],
        ),
        definitions: vec![("ExternalType".to_owned(), Schema::Object(ext))],
    };
    let text = gen(root, &mut x).unwrap();
    assert_eq!(
        text,
        "type Root = \n    {\n        first : ExternalType\n        second : ExternalType\n    }"
    );
    let decls = x.get_external_types();
    assert_eq!(decls.len(), 1);
    assert_eq!(decls[0].0, "ExternalType");
}

#[test]
fn placeholder_definition_yields_bare_name() {
    let mut x = ExternalTypeCollector::new();
    let root = RootSchema {
        schema: product("Root", vec![prop("f", ref_node("#/definitions/X"))]),
        definitions: vec![("X".to_owned(), Schema::Any)],
    };
    let text = gen(root, &mut x).unwrap();
    assert_eq!(text, "type Root = \n    {\n        f : X\n    }");
    assert_eq!(x.get_external_types().len(), 0);
}

#[test]
fn arrays_and_scalars() {
    let mut x = ExternalTypeCollector::new();
    let mut single_array = empty_obj();
    single_array.instance_type = Some(vec![InstanceType::Array]);
    single_array.items = Some(Items::Single(Box::new(kind_node(vec![InstanceType::Number]))));
    let mut bare_array = empty_obj();
    bare_array.instance_type = Some(vec![InstanceType::Array]);
    let root = RootSchema {
        schema: product(
            "Root",
            vec![
                prop("floats", Schema::Object(single_array)),
                prop("anything", Schema::Object(bare_array)),
                prop("flag", kind_node(vec![InstanceType::Boolean])),
                prop("nothing", kind_node(vec![InstanceType::Null])),
                prop("obj", kind_node(vec![InstanceType::Object])),
            ],
        ),
        definitions: vec![],
    };
    let text = gen(root, &mut x).unwrap();
    assert_eq!(
        text,
        "type Root = \n    {\n        floats : float[]\n        anything : object[]\n        flag : bool\n        nothing : unit\n        obj : object\n    }"
    );
}

#[test]
fn nested_anonymous_object_is_registered_under_prefix() {
    let mut x = ExternalTypeCollector::new();
    let mut nested = empty_obj();
    nested.instance_type = Some(vec![InstanceType::Object]);
    nested.properties = Some(vec![prop("inner", kind_node(vec![InstanceType::Integer]))]);
    let root = RootSchema {
        schema: product("Outer", vec![prop("n", Schema::Object(nested))]),
        definitions: vec![],
    };
    let text = gen(root, &mut x).unwrap();
    // The nested record is registered under the enclosing prefix extended
    // with the field's name, and the field refers to it by that name.
    assert_eq!(text, "type Outer = \n    {\n        n : Outern\n    }");
    let decls = x.get_external_types();
    assert_eq!(decls.len(), 1);
    assert_eq!(decls[0].0, "Outern");
    assert_eq!(decls[0].1, "type Outern = \n    {\n        inner : int\n    }");
}

#[test]
fn declarations_come_in_first_resolved_order() {
    // A definition referenced from inside another finishes resolving first,
    // so it is emitted first.
    let mut x = ExternalTypeCollector::new();
    let mut inner = empty_obj();
    inner.properties = Some(vec![prop("n", kind_node(vec![InstanceType::Integer]))]);
    let mut outer = empty_obj();
    outer.properties = Some(vec![prop("b", ref_node("#/definitions/Second"))]);
    let root = RootSchema {
        schema: product("Root", vec![prop("a", ref_node("#/definitions/First"))]),
        definitions: vec![
            ("First".to_owned(), Schema::Object(outer)),
            ("Second".to_owned(), Schema::Object(inner)),
        ],
    };
    let text = gen(root, &mut x).unwrap();
    assert_eq!(text, "type Root = \n    {\n        a : First\n    }");
    let decls = x.get_external_types();
    assert_eq!(decls.len(), 2);
    assert_eq!(decls[0].0, "Second");
    assert_eq!(decls[1].0, "First");
}

#[test]
fn combined_schema_with_references_enums_and_arrays() {
    let mut x = ExternalTypeCollector::new();

    let mut external = empty_obj();
    external.properties = Some(vec![prop("test", kind_node(vec![InstanceType::Str]))]);

    let mut simple_enum = empty_obj();
    simple_enum.enum_values = Some(vec![
        Literal::Str("A".to_owned()),
        Literal::Str("B".to_owned()),
    ]);

    let mut optional_external = empty_obj();
    optional_external.any_of = Some(vec![
        ref_node("#/definitions/ExternalType"),
        null_marker(),
    ]);

    let mut external_array = empty_obj();
    external_array.instance_type = Some(vec![InstanceType::Array]);
    external_array.items = Some(Items::Single(Box::new(ref_node(
        "#/definitions/ExternalType",
    ))));

    let mut option_strings = empty_obj();
    option_strings.instance_type = Some(vec![InstanceType::Array]);
    option_strings.items = Some(Items::Single(Box::new(kind_node(vec![
        InstanceType::Str,
        InstanceType::Null,
    ]))));

    let root = RootSchema {
        schema: product(
            "TestType",
            vec![
                prop("a_number", kind_node(vec![InstanceType::Integer])),
                prop("optional_external", Schema::Object(optional_external)),
                prop("an_external_array", Schema::Object(external_array)),
                prop("an_array_of_options", Schema::Object(option_strings)),
                prop("an_enum", ref_node("#/definitions/SimpleEnum")),
            ],
        ),
        definitions: vec![
            ("ExternalType".to_owned(), Schema::Object(external)),
            ("SimpleEnum".to_owned(), Schema::Object(simple_enum)),
        ],
    };
    let text = gen(root, &mut x).unwrap();
    assert_eq!(
        text,
        "type TestType = \n    {\n        a_number : int\n        optional_external : option<ExternalType>\n        an_external_array : ExternalType[]\n        an_array_of_options : option<string>[]\n        an_enum : SimpleEnum\n    }"
    );
    let decls = x.get_external_types();
    assert_eq!(decls.len(), 2);
    assert_eq!(decls[0].0, "ExternalType");
    assert_eq!(
        decls[1],
        (
            "SimpleEnum".to_owned(),
            "type SimpleEnum = \n\n    | A\n    | B".to_owned()
        )
    );
}
