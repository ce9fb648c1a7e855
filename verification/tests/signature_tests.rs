use mocksmith::model::factory::{MethodSignature, ModelFactory};
use mocksmith::log::Logger;
use mocksmith::entity::ArgDecl;

#[test]
fn declaration_parsing_detects_qualifiers() {
    let sig = MethodSignature::parse_declaration("virtual void f() = 0").unwrap();
    assert!(sig.is_virtual);
    assert!(sig.is_pure_virtual);
    assert!(!sig.is_static);

    let sig = MethodSignature::parse_declaration("virtual void f() =0;").unwrap();
    assert!(sig.is_pure_virtual);

    let sig = MethodSignature::parse_declaration("void f() override { body(); }").unwrap();
    assert!(sig.is_virtual);
    assert!(!sig.is_pure_virtual);

    let sig = MethodSignature::parse_declaration("static int g(int x)").unwrap();
    assert!(sig.is_static);
    assert!(!sig.is_virtual);

    // No argument list in sight: nothing can be read off the text.
    assert_eq!(MethodSignature::parse_declaration("int x"), None);

    // The body is cut away before scanning, so a `= 0` inside it does not count.
    let sig = MethodSignature::parse_declaration("virtual void f() { x = 0; }").unwrap();
    assert!(!sig.is_pure_virtual);
}

#[test]
fn unusable_offsets_fall_back_to_the_parser_type() {
    let text = "short".to_string();
    let mut factory = ModelFactory::new(Some(text), Logger::new(false));
    // Range end beyond the text: fall back, with an advisory message.
    let arg = ArgDecl {
        name: Some("x".to_string()),
        type_display: "int".to_string(),
        range: Some((2, 99)),
        location: None,
    };
    assert_eq!(factory.get_argument_type(&arg), "int");

    // Name longer than the ranged text: fall back rather than fail.
    let arg = ArgDecl {
        name: Some("much_too_long".to_string()),
        type_display: "int".to_string(),
        range: Some((0, 4)),
        location: None,
    };
    assert_eq!(factory.get_argument_type(&arg), "int");

    // Each fallback left one advisory message behind.
    assert_eq!(
        factory.log.messages().as_slice(),
        [
            "Falling back to parser type for an argument due to illegal source position"
                .to_string(),
            "Falling back to parser type for an argument due to illegal source position"
                .to_string(),
        ]
    );
}

#[test]
fn no_source_text_means_parser_types_everywhere() {
    let mut factory = ModelFactory::new(None, Logger::new(false));
    let arg = ArgDecl {
        name: Some("x".to_string()),
        type_display: "unsigned long".to_string(),
        range: Some((0, 10)),
        location: None,
    };
    assert_eq!(factory.get_argument_type(&arg), "unsigned long");
    assert_eq!(
        factory.log.messages().as_slice(),
        ["Falling back to parser type for an argument due to missing range or source text"
            .to_string()]
    );
}
