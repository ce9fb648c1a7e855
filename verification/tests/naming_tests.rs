use mocksmith::naming::{default_name_mock, default_name_output_file, SedReplacement};
use mocksmith::{Mock, MockHeader, MocksmithError};

fn mock_named(source: Option<&str>, parent: &str, name: &str) -> Mock {
    Mock {
        source_file: source.map(|s| s.to_string()),
        parent_name: parent.to_string(),
        name: name.to_string(),
        code: String::new(),
    }
}

#[test]
fn test_default_name_mock() {
    assert_eq!(default_name_mock("MyTypeInterface"), "MockMyType");
    assert_eq!(default_name_mock("MyTypeIfc"), "MockMyType");
    assert_eq!(default_name_mock("InterfaceMyType"), "MockMyType");
    assert_eq!(default_name_mock("IfcMyType"), "MockMyType");
    assert_eq!(default_name_mock("IMyType"), "MockMyType");

    assert_eq!(default_name_mock("MyType"), "MockMyType");
    assert_eq!(default_name_mock("InterestingType"), "MockInterestingType");
    assert_eq!(default_name_mock("I"), "MockI");
}

#[test]
fn default_name_output_file_uses_mock_name_when_only_one_mock() {
    let info = MockHeader {
        mocks: vec![mock_named(Some("source.h"), "ISomething", "MockSomething")],
        code: String::new(),
    };

    assert_eq!(default_name_output_file(&info), "MockSomething.h");
}

#[test]
fn default_name_output_file_uses_extension_from_source_file() {
    let info = MockHeader {
        mocks: vec![mock_named(Some("source.hpp"), "ISomething", "MockSomething")],
        code: String::new(),
    };

    assert_eq!(default_name_output_file(&info), "MockSomething.hpp");
}

#[test]
fn default_name_output_file_uses_source_file_with_suffix_when_several_mocks() {
    let info = MockHeader {
        mocks: vec![
            mock_named(Some("source.hpp"), "ISomething", "MockSomething"),
            mock_named(Some("source.hpp"), "IOther", "MockOther"),
        ],
        code: String::new(),
    };

    assert_eq!(default_name_output_file(&info), "source_mocks.hpp");
}

#[test]
fn default_name_output_file_falls_back_to_mocks_h() {
    let info = MockHeader {
        mocks: vec![
            mock_named(None, "ISomething", "MockSomething"),
            mock_named(None, "IOther", "MockOther"),
        ],
        code: String::new(),
    };

    assert_eq!(default_name_output_file(&info), "mocks.h");
}

#[test]
fn sed_namer_replaces_matches() {
    let namer = SedReplacement::from_sed_replacement(r"s/Ifc(.*)/Mock\1/").unwrap();
    assert_eq!(namer.name("IfcMyType"), "MockMyType");
}

#[test]
fn sed_namer_defaults_to_prefix() {
    let namer = SedReplacement::from_sed_replacement(r"s/Ifc(.*)/Mock\1/").unwrap();
    assert_eq!(namer.name("IMyType"), "MockIMyType");
    assert_eq!(namer.name("MyIfcType"), "MockMyIfcType");
}

#[test]
fn invalid_sed_style_causes_error() {
    let result = SedReplacement::from_sed_replacement(r"s/Ifc(.*)/Mock\1");
    assert!(matches!(
        result,
        Err(MocksmithError::InvalidSedReplacement(_))
    ));
    assert_eq!(
        result.err().unwrap().message(),
        "Invalid sed style replacement string: \
         Got s/Ifc(.*)/Mock\\1, but expected s/<regex>/<replacement>/"
    );

    let result = SedReplacement::from_sed_replacement(r"s/Ifc(.*/Mock\1/");
    assert!(matches!(
        result,
        Err(MocksmithError::InvalidSedReplacement(_))
    ));
    assert_eq!(
        result.err().unwrap().message(),
        format!(
            "{}{}{}{}",
            "Invalid sed style replacement string: \
             Invalid regex for name replacement: \
             regex parse error:\n",
            "    ^Ifc(.*$\n",
            "        ^\n",
            "error: unclosed group"
        )
    );
}

#[test]
fn sed_namer_substitutes_empty_for_absent_group() {
    let namer = SedReplacement::from_sed_replacement(r"s/(Ifc)?(.*)/Mock\1\2/").unwrap();
    assert_eq!(namer.name("Plain"), "MockPlain");
}
