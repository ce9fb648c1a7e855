use mocksmith::entity::{ArgDecl, ClassDecl, Entity, EntityData, MethodDecl, NamespaceDecl, RefQualifier};
use mocksmith::generate::Generator;
use mocksmith::log::Logger;
use mocksmith::model::classes_in_tree;
use mocksmith::naming::default_name_mock;
use mocksmith::MethodsToMockStrategy;
use mocksmith::Mock;

fn method_decl(name: &str, result: &str, is_virtual: bool, is_pure: bool, is_static: bool) -> MethodDecl {
    MethodDecl {
        name: name.to_string(),
        result_type_display: result.to_string(),
        arguments: Vec::new(),
        is_const: false,
        is_virtual,
        is_pure_virtual: is_pure,
        is_static,
        is_noexcept: false,
        ref_qualifier: None,
        range: None,
    }
}

fn arg(ty: &str, name: Option<&str>) -> ArgDecl {
    ArgDecl {
        name: name.map(|s| s.to_string()),
        type_display: ty.to_string(),
        range: None,
        location: None,
    }
}

fn method_entity(m: MethodDecl) -> Entity {
    Entity { in_main_file: true, data: EntityData::Method(m) }
}

fn class_entity(name: &str, children: Vec<Entity>) -> Entity {
    Entity {
        in_main_file: true,
        data: EntityData::Class(ClassDecl {
            name: name.to_string(),
            is_definition: true,
            children,
        }),
    }
}

fn namespace_entity(name: &str, children: Vec<Entity>) -> Entity {
    Entity {
        in_main_file: true,
        data: EntityData::Namespace(NamespaceDecl { name: name.to_string(), children }),
    }
}

fn root(children: Vec<Entity>) -> Entity {
    Entity { in_main_file: true, data: EntityData::Other(children) }
}

fn create_mocks(tree: &Entity, text: Option<String>, strategy: MethodsToMockStrategy) -> Vec<Mock> {
    let (classes, _log) = classes_in_tree(tree, text, strategy, Logger::new(false));
    let generator = Generator::new();
    classes
        .iter()
        .map(|class| generator.mock(class, &default_name_mock(&class.name)))
        .collect()
}

#[test]
fn simple_pure_virtual_function_can_be_mocked() {
    let tree = root(vec![class_entity(
        "Foo",
        vec![method_entity(method_decl("bar", "void", true, true, false))],
    )]);
    let mocks = create_mocks(&tree, None, MethodsToMockStrategy::AllVirtual);
    assert_eq!(mocks.len(), 1);
    assert_eq!(
        mocks[0].code,
        "class MockFoo : public Foo\n\
         {\n\
         public:\n\
         \x20 MOCK_METHOD(void, bar, (), (override));\n\
         };\n"
    );
}

#[test]
fn simple_non_virtual_function_is_ignored() {
    let tree = root(vec![class_entity(
        "Foo",
        vec![method_entity(method_decl("bar", "void", false, false, false))],
    )]);
    let mocks = create_mocks(&tree, None, MethodsToMockStrategy::AllVirtual);
    assert!(mocks.is_empty());
}

#[test]
fn various_return_types_and_argument_types_can_be_mocked() {
    let mut bar = method_decl("bar", "std::string", true, true, false);
    bar.arguments = vec![
        arg("const std::string &", Some("arg1")),
        arg("const char *", Some("arg2")),
    ];
    let mut fizz = method_decl("fizz", "uint32_t", true, true, false);
    fizz.arguments = vec![
        arg("uint32_t", Some("arg1")),
        arg("uint64_t", Some("arg2")),
        arg("int32_t", Some("arg3")),
        arg("int64_t", Some("arg4")),
    ];
    let tree = root(vec![class_entity(
        "Foo",
        vec![method_entity(bar), method_entity(fizz)],
    )]);
    let mocks = create_mocks(&tree, None, MethodsToMockStrategy::AllVirtual);
    assert_eq!(mocks.len(), 1);
    assert_eq!(
        mocks[0].code,
        "class MockFoo : public Foo\n\
         {\n\
         public:\n\
         \x20 MOCK_METHOD(std::string, bar, (const std::string & arg1, const char * arg2), (override));\n\
         \x20 MOCK_METHOD(uint32_t, fizz, (uint32_t arg1, uint64_t arg2, int32_t arg3, int64_t arg4), (override));\n\
         };\n"
    );
}

#[test]
fn noexcept_and_const_qualifiers_are_added_when_needed() {
    let mut bar = method_decl("bar", "void", true, true, false);
    bar.is_const = true;
    let mut fizz = method_decl("fizz", "void", true, true, false);
    fizz.is_noexcept = true;
    let mut buzz = method_decl("buzz", "void", true, true, false);
    buzz.is_const = true;
    buzz.is_noexcept = true;
    let tree = root(vec![class_entity(
        "Foo",
        vec![method_entity(bar), method_entity(fizz), method_entity(buzz)],
    )]);
    let mocks = create_mocks(&tree, None, MethodsToMockStrategy::AllVirtual);
    assert_eq!(mocks.len(), 1);
    assert_eq!(
        mocks[0].code,
        "class MockFoo : public Foo\n\
         {\n\
         public:\n\
         \x20 MOCK_METHOD(void, bar, (), (const, override));\n\
         \x20 MOCK_METHOD(void, fizz, (), (noexcept, override));\n\
         \x20 MOCK_METHOD(void, buzz, (), (const, noexcept, override));\n\
         };\n"
    );
}

#[test]
fn ref_qualifiers_are_added_when_needed() {
    let mut bar = method_decl("bar", "void", true, true, false);
    bar.is_const = true;
    bar.ref_qualifier = Some(RefQualifier::LValue);
    let mut fizz = method_decl("fizz", "void", true, true, false);
    fizz.is_const = true;
    fizz.ref_qualifier = Some(RefQualifier::RValue);
    let tree = root(vec![class_entity(
        "Foo",
        vec![method_entity(bar), method_entity(fizz)],
    )]);
    let mocks = create_mocks(&tree, None, MethodsToMockStrategy::AllVirtual);
    assert_eq!(mocks.len(), 1);
    assert_eq!(
        mocks[0].code,
        "class MockFoo : public Foo\n\
         {\n\
         public:\n\
         \x20 MOCK_METHOD(void, bar, (), (const, ref(&), override));\n\
         \x20 MOCK_METHOD(void, fizz, (), (const, ref(&&), override));\n\
         };\n"
    );
}

#[test]
fn types_with_commas_are_wrapped_with_parenthesis() {
    let mut bar = method_decl("bar", "std::map<int, int>", true, true, false);
    bar.arguments = vec![arg("const std::map<int, int> &", Some("arg"))];
    let tree = root(vec![class_entity("Foo", vec![method_entity(bar)])]);
    let mocks = create_mocks(&tree, None, MethodsToMockStrategy::AllVirtual);
    assert_eq!(mocks.len(), 1);
    assert_eq!(
        mocks[0].code,
        "class MockFoo : public Foo\n\
         {\n\
         public:\n\
         \x20 MOCK_METHOD((std::map<int, int>), bar, ((const std::map<int, int> & arg)), (override));\n\
         };\n"
    );
}

#[test]
fn protected_and_private_methods_are_mocked_as_public() {
    // Access levels do not reach the model; every method child of the class
    // is judged by the strategy alone and rendered under `public:`.
    let tree = root(vec![class_entity(
        "Foo",
        vec![
            method_entity(method_decl("bar", "void", true, true, false)),
            method_entity(method_decl("fizz", "void", true, true, false)),
        ],
    )]);
    let mocks = create_mocks(&tree, None, MethodsToMockStrategy::AllVirtual);
    assert_eq!(mocks.len(), 1);
    assert_eq!(
        mocks[0].code,
        "class MockFoo : public Foo\n\
         {\n\
         public:\n\
         \x20 MOCK_METHOD(void, bar, (), (override));\n\
         \x20 MOCK_METHOD(void, fizz, (), (override));\n\
         };\n"
    );
}

#[test]
fn configured_indent_level_is_used() {
    let tree = root(vec![class_entity(
        "Foo",
        vec![method_entity(method_decl("bar", "void", true, true, false))],
    )]);
    let (classes, _log) = classes_in_tree(
        &tree,
        None,
        MethodsToMockStrategy::AllVirtual,
        Logger::new(false),
    );
    let mut generator = Generator::new();
    generator.indent_str("    ".to_string());
    let mock = generator.mock(&classes[0], &default_name_mock(&classes[0].name));
    assert_eq!(
        mock.code,
        "class MockFoo : public Foo\n\
         {\n\
         public:\n\
         \x20   MOCK_METHOD(void, bar, (), (override));\n\
         };\n"
    );
}

#[test]
fn configured_nested_namespace_style_is_used() {
    let tree = root(vec![namespace_entity(
        "outer",
        vec![namespace_entity(
            "inner",
            vec![class_entity(
                "Foo",
                vec![method_entity(method_decl("bar", "void", true, true, false))],
            )],
        )],
    )]);
    let (classes, _log) = classes_in_tree(
        &tree,
        None,
        MethodsToMockStrategy::AllVirtual,
        Logger::new(false),
    );
    assert_eq!(classes.len(), 1);
    assert_eq!(classes[0].namespaces, vec!["outer".to_string(), "inner".to_string()]);

    let mut generator = Generator::new();
    generator.indent_str("    ".to_string());
    let mock = generator.mock(&classes[0], &default_name_mock(&classes[0].name));
    assert_eq!(
        mock.code,
        "namespace outer::inner {\n\
         class MockFoo : public Foo\n\
         {\n\
         public:\n\
         \x20   MOCK_METHOD(void, bar, (), (override));\n\
         };\n\
         }\n"
    );

    generator.simplified_nested_namespaces(false);
    let mock = generator.mock(&classes[0], &default_name_mock(&classes[0].name));
    assert_eq!(
        mock.code,
        "namespace outer { namespace inner {\n\
         class MockFoo : public Foo\n\
         {\n\
         public:\n\
         \x20   MOCK_METHOD(void, bar, (), (override));\n\
         };\n\
         }}\n"
    );
}

#[test]
fn configured_mock_name_function_is_used() {
    let tree = root(vec![class_entity(
        "Foo",
        vec![method_entity(method_decl("bar", "void", true, true, false))],
    )]);
    let (classes, _log) = classes_in_tree(
        &tree,
        None,
        MethodsToMockStrategy::AllVirtual,
        Logger::new(false),
    );
    let generator = Generator::new();
    let name = format!("Smith{}", classes[0].name);
    let mock = generator.mock(&classes[0], &name);
    assert_eq!(
        mock.code,
        "class SmithFoo : public Foo\n\
         {\n\
         public:\n\
         \x20 MOCK_METHOD(void, bar, (), (override));\n\
         };\n"
    );
}

#[test]
fn generate_all_functions_mocks_non_virtual_functions() {
    // Class with only non-virtual functions can be found and mocked
    let tree = root(vec![class_entity(
        "Foo",
        vec![method_entity(method_decl("bar", "void", false, false, false))],
    )]);
    let mocks = create_mocks(&tree, None, MethodsToMockStrategy::All);
    assert_eq!(mocks.len(), 1);
    assert_eq!(
        mocks[0].code,
        "class MockFoo : public Foo\n\
         {\n\
         public:\n\
         \x20 MOCK_METHOD(void, bar, (), ());\n\
         };\n"
    );

    // Class with virtual functions is also found and mocked
    let tree = root(vec![class_entity(
        "Foo",
        vec![
            method_entity(method_decl("bar", "void", false, false, false)),
            method_entity(method_decl("fizz", "void", true, false, false)),
            method_entity(method_decl("buzz", "void", true, true, false)),
            method_entity(method_decl("qux", "void", false, false, true)),
        ],
    )]);
    let mocks = create_mocks(&tree, None, MethodsToMockStrategy::All);
    assert_eq!(mocks.len(), 1);
    assert_eq!(
        mocks[0].code,
        "class MockFoo : public Foo\n\
         {\n\
         public:\n\
         \x20 MOCK_METHOD(void, bar, (), ());\n\
         \x20 MOCK_METHOD(void, fizz, (), (override));\n\
         \x20 MOCK_METHOD(void, buzz, (), (override));\n\
         };\n"
    );
}

#[test]
fn generate_all_virtual_functions_mocks_virtual_functions_only() {
    // Class with only non-virtual functions is ignored
    let tree = root(vec![class_entity(
        "Foo",
        vec![method_entity(method_decl("bar", "void", false, false, false))],
    )]);
    let mocks = create_mocks(&tree, None, MethodsToMockStrategy::AllVirtual);
    assert!(mocks.is_empty());

    // Class with virtual functions is found and virtual functions are mocked
    let tree = root(vec![class_entity(
        "Foo",
        vec![
            method_entity(method_decl("bar", "void", false, false, false)),
            method_entity(method_decl("fizz", "void", true, false, false)),
            method_entity(method_decl("buzz", "void", true, true, false)),
            method_entity(method_decl("qux", "void", false, false, true)),
        ],
    )]);
    let mocks = create_mocks(&tree, None, MethodsToMockStrategy::AllVirtual);
    assert_eq!(mocks.len(), 1);
    assert_eq!(
        mocks[0].code,
        "class MockFoo : public Foo\n\
         {\n\
         public:\n\
         \x20 MOCK_METHOD(void, fizz, (), (override));\n\
         \x20 MOCK_METHOD(void, buzz, (), (override));\n\
         };\n"
    );
}

#[test]
fn generate_pure_virtual_functions_mocks_pure_virtual_functions_only() {
    // Class with no pure virtual functions is ignored
    let tree = root(vec![class_entity(
        "Foo",
        vec![
            method_entity(method_decl("bar", "void", false, false, false)),
            method_entity(method_decl("fizz", "void", true, false, false)),
        ],
    )]);
    let mocks = create_mocks(&tree, None, MethodsToMockStrategy::OnlyPureVirtual);
    assert!(mocks.is_empty());

    // Class with pure virtual functions is found and they are mocked
    let tree = root(vec![class_entity(
        "Foo",
        vec![
            method_entity(method_decl("bar", "void", false, false, false)),
            method_entity(method_decl("fizz", "void", true, false, false)),
            method_entity(method_decl("buzz", "void", true, true, false)),
            method_entity(method_decl("qux", "void", false, false, true)),
        ],
    )]);
    let mocks = create_mocks(&tree, None, MethodsToMockStrategy::OnlyPureVirtual);
    assert_eq!(mocks.len(), 1);
    assert_eq!(
        mocks[0].code,
        "class MockFoo : public Foo\n\
         {\n\
         public:\n\
         \x20 MOCK_METHOD(void, buzz, (), (override));\n\
         };\n"
    );
}

#[test]
fn forward_declarations_are_not_mocked() {
    let tree = root(vec![Entity {
        in_main_file: true,
        data: EntityData::Class(ClassDecl {
            name: "Foo".to_string(),
            is_definition: false,
            children: vec![method_entity(method_decl("bar", "void", true, true, false))],
        }),
    }]);
    let mocks = create_mocks(&tree, None, MethodsToMockStrategy::AllVirtual);
    assert!(mocks.is_empty());
}

#[test]
fn included_files_are_not_entered() {
    let mut included = class_entity(
        "Foo",
        vec![method_entity(method_decl("bar", "void", true, true, false))],
    );
    included.in_main_file = false;
    let tree = root(vec![
        included,
        class_entity(
            "Own",
            vec![method_entity(method_decl("fun", "void", true, true, false))],
        ),
    ]);
    let mocks = create_mocks(&tree, None, MethodsToMockStrategy::AllVirtual);
    assert_eq!(mocks.len(), 1);
    assert_eq!(mocks[0].parent_name, "Own");
}

#[test]
fn unresolved_argument_type_is_reconstructed_verbatim() {
    // The parser reports an unresolved argument as an unnamed `int`; the
    // model recovers the text `Unknown x` from the source instead.
    let text = "class Foo {\npublic:\n  virtual void bar(Unknown x) = 0;\n};\n".to_string();
    let after_arg = text.find(')').unwrap();
    let mut bar = method_decl("bar", "void", true, true, false);
    bar.arguments = vec![ArgDecl {
        name: None,
        type_display: "int".to_string(),
        range: None,
        location: Some(after_arg),
    }];
    let tree = root(vec![class_entity("Foo", vec![method_entity(bar)])]);
    let mocks = create_mocks(&tree, Some(text), MethodsToMockStrategy::AllVirtual);
    assert_eq!(mocks.len(), 1);
    assert_eq!(
        mocks[0].code,
        "class MockFoo : public Foo\n\
         {\n\
         public:\n\
         \x20 MOCK_METHOD(void, bar, (Unknown x), (override));\n\
         };\n"
    );
}

#[test]
fn named_argument_type_is_recovered_from_source() {
    let text = "class Foo {\npublic:\n  virtual void bar(Unknown x) = 0;\n};\n".to_string();
    let start = text.find("Unknown").unwrap();
    let end = text.find(')').unwrap();
    let mut bar = method_decl("bar", "void", true, true, false);
    bar.arguments = vec![ArgDecl {
        name: Some("x".to_string()),
        type_display: "int".to_string(),
        range: Some((start, end)),
        location: None,
    }];
    let tree = root(vec![class_entity("Foo", vec![method_entity(bar)])]);
    let mocks = create_mocks(&tree, Some(text), MethodsToMockStrategy::AllVirtual);
    assert_eq!(mocks.len(), 1);
    assert_eq!(
        mocks[0].code,
        "class MockFoo : public Foo\n\
         {\n\
         public:\n\
         \x20 MOCK_METHOD(void, bar, (Unknown x), (override));\n\
         };\n"
    );
}

#[test]
fn qualifiers_are_read_from_source_when_parser_flags_lack_them() {
    // A method whose return type did not resolve loses its `virtual` flag in
    // the parser; the source text still shows it.
    let text = "struct S {\n  virtual Unknown f() = 0;\n  static void g();\n};\n".to_string();
    let f_start = text.find("virtual").unwrap();
    let f_end = text.find(";").unwrap();
    let g_start = text.find("static").unwrap();
    let g_end = text.find("g();").unwrap() + 3;
    let mut f = method_decl("f", "int", false, false, false);
    f.range = Some((f_start, f_end));
    let mut g = method_decl("g", "void", false, false, false);
    g.range = Some((g_start, g_end));
    let tree = root(vec![class_entity("S", vec![method_entity(f), method_entity(g)])]);
    let (classes, _log) = classes_in_tree(
        &tree,
        Some(text),
        MethodsToMockStrategy::All,
        Logger::new(false),
    );
    assert_eq!(classes.len(), 1);
    assert!(classes[0].methods[0].is_virtual);
    assert!(classes[0].methods[0].is_pure_virtual);
    assert!(classes[0].methods[1].is_static);
    assert!(!classes[0].methods[1].is_virtual);
}
