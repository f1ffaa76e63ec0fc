use nqcc::errors::CompilerError;

#[test]
fn lexical_diagnostic_shows_its_position() {
    let e = CompilerError::LexError { message: "invalid identifier".to_string(), line: 3, column: 14 };
    assert_eq!(e.to_string(), "[3:14] Error: invalid identifier");
}

#[test]
fn parser_diagnostic_is_its_message() {
    let e = CompilerError::ParseError { message: "Expected: Integer; Got: EOF".to_string() };
    assert_eq!(e.to_string(), "Expected: Integer; Got: EOF");
}

#[test]
fn unsupported_diagnostic_says_so() {
    let e = CompilerError::unsupported("main", "frame too large");
    assert_eq!(e, CompilerError::Unsupported { message: "main: frame too large".to_string() });
    assert_eq!(e.to_string(), "unsupported construct: main: frame too large");
}

#[test]
fn unsupported_at_ends_in_the_position() {
    let e = CompilerError::unsupported_at("struct declaration", 17);
    assert_eq!(e, CompilerError::Unsupported { message: "struct declaration at offset 17".to_string() });
}

#[test]
fn within_names_the_function_of_an_unsupported_construct_only() {
    let e = CompilerError::unsupported_construct("long constant").within("f");
    assert_eq!(e, CompilerError::Unsupported { message: "f: long constant".to_string() });
    let p = CompilerError::ParseError { message: "oops".to_string() }.within("f");
    assert_eq!(p, CompilerError::ParseError { message: "oops".to_string() });
}

#[test]
fn same_as_compares_values() {
    let a = CompilerError::LexError { message: "m".to_string(), line: 1, column: 2 };
    let b = CompilerError::LexError { message: "m".to_string(), line: 1, column: 2 };
    let c = CompilerError::LexError { message: "m".to_string(), line: 1, column: 3 };
    let d = CompilerError::ParseError { message: "m".to_string() };
    assert!(a.same_as(&b));
    assert!(!a.same_as(&c));
    assert!(!a.same_as(&d));
    assert_eq!(a.duplicate(), a);
}
