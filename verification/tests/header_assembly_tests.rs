use mocksmith::generate::Generator;
use mocksmith::{Mock, MocksmithError};

fn some_mock(class_name: &str, mock_name: &str) -> Mock {
    Mock {
        source_file: None,
        parent_name: class_name.to_string(),
        name: mock_name.to_string(),
        code: format!(
            "class {} : public {}\n{{\npublic:\n  MOCK_METHOD(void, fun, (), (override));\n}};\n",
            mock_name, class_name
        ),
    }
}

#[test]
fn header_holds_marker_pragma_includes_and_mocks() {
    let generator = Generator::new();
    let mocks = vec![some_mock("ISomething", "MockSomething")];
    let header = generator.header(&vec!["sub/source.h".to_string()], &mocks);
    let expected = format!(
        "// Automatically generated mocks - do not edit\n\
         #pragma once\n\
         \n\
         #include \"sub/source.h\"\n\
         #include <gmock/gmock.h>\n\
         \n\
         {}",
        mocks[0].code
    );
    assert_eq!(header, expected);
}

#[test]
fn header_includes_each_distinct_source_once() {
    let generator = Generator::new();
    let mocks = vec![
        some_mock("ISomething", "MockSomething"),
        some_mock("IOther", "MockOther"),
    ];
    let header = generator.header(
        &vec!["a.h".to_string(), "a.h".to_string(), "b.h".to_string()],
        &mocks,
    );
    assert_eq!(header.matches("#include \"a.h\"").count(), 1);
    assert_eq!(header.matches("#include \"b.h\"").count(), 1);
    // mocks separated by one blank line, in input order
    let expected_body = format!("{}\n{}", mocks[0].code, mocks[1].code);
    assert!(header.ends_with(&expected_body));
}

#[test]
fn assembling_a_header_without_mocks_is_an_error() {
    let generator = Generator::new();
    let result = generator.assemble_header(&vec!["source.h".to_string()], Vec::new());
    assert_eq!(result, Err(MocksmithError::NothingToMock));
}

#[test]
fn assembled_header_keeps_its_mocks_and_code() {
    let generator = Generator::new();
    let mocks = vec![some_mock("ISomething", "MockSomething")];
    let expected_code = generator.header(&vec!["source.h".to_string()], &mocks);
    let header = generator
        .assemble_header(&vec!["source.h".to_string()], mocks)
        .unwrap();
    assert_eq!(header.mocks.len(), 1);
    assert_eq!(header.mocks[0].name, "MockSomething");
    assert_eq!(header.code, expected_code);
}

#[test]
fn pragma_added_when_allowing_overriding_deprecated() {
    let mut generator = Generator::new();
    generator.add_deprecation_pragma(true);
    let mocks = vec![some_mock("ISomething", "MockSomething")];
    let header = generator.header(&vec!["source.h".to_string()], &mocks);
    let expected = format!(
        "// Automatically generated mocks - do not edit\n\
         #pragma once\n\
         \n\
         #include \"source.h\"\n\
         #include <gmock/gmock.h>\n\
         \n\
         #ifdef _MSC_VER\n\
         #  pragma warning(push)\n\
         #  pragma warning(disable : 4996)\n\
         #endif\n\
         \n\
         {}\n\
         #ifdef _MSC_VER\n\
         #  pragma warning(pop)\n\
         #endif\n",
        mocks[0].code
    );
    assert_eq!(header, expected);
}
