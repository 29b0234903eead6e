use aether::compiler::Compiler;
use aether::lexer::{Lexer, TokenType};
use aether::parser::{ASTNode, ParseError, Parser};

#[test]
fn test_hello_world_service() {
    let source = r#"
            service HelloService {
                @get("/hello")
                endpoint greet(name: String): String {
                    return "Hello, World!";
                }
            }
        "#;

    let compiler = Compiler::new(source.to_string());
    let result = compiler.compile();
    assert!(result.is_ok());
}

#[test]
fn test_parse_shape_of_hello_service() {
    let source = r#"
            service HelloService {
                @get("/hello")
                endpoint greet(name: String): String {
                    return "Hello, World!";
                }
            }
        "#;
    let ast = Compiler::new(source.to_string()).compile().unwrap();
    match ast {
        ASTNode::Service { name, endpoints } => {
            assert_eq!(name, "HelloService");
            assert_eq!(endpoints.len(), 1);
            match &endpoints[0] {
                ASTNode::Endpoint { path, method, params, return_type, body } => {
                    assert_eq!(path, "/hello");
                    assert_eq!(method, "get");
                    assert_eq!(return_type, "String");
                    assert_eq!(params.len(), 1);
                    assert_eq!(params[0].name, "name");
                    assert_eq!(params[0].param_type, "String");
                    match &**body {
                        ASTNode::Block { statements } => {
                            assert_eq!(statements.len(), 1);
                            match &statements[0] {
                                ASTNode::ReturnStatement { expression } => match &**expression {
                                    ASTNode::StringLiteral { value } => {
                                        assert_eq!(value, "Hello, World!")
                                    }
                                    other => panic!("expected a string literal, got {:?}", other),
                                },
                                other => panic!("expected a return statement, got {:?}", other),
                            }
                        }
                        other => panic!("expected a block, got {:?}", other),
                    }
                }
                other => panic!("expected an endpoint, got {:?}", other),
            }
        }
        other => panic!("expected a service, got {:?}", other),
    }
}

#[test]
fn test_method_is_lowercased_on_capture() {
    let source = r#"service S { @GET("/x") endpoint e(): T { return "a"; } }"#;
    let ast = Compiler::new(source.to_string()).compile().unwrap();
    match ast {
        ASTNode::Service { endpoints, .. } => match &endpoints[0] {
            ASTNode::Endpoint { method, .. } => assert_eq!(method, "get"),
            other => panic!("expected an endpoint, got {:?}", other),
        },
        other => panic!("expected a service, got {:?}", other),
    }
}

#[test]
fn test_empty_service_and_empty_params() {
    let ast = Compiler::new("service Empty { }".to_string()).compile().unwrap();
    match ast {
        ASTNode::Service { name, endpoints } => {
            assert_eq!(name, "Empty");
            assert!(endpoints.is_empty());
        }
        other => panic!("expected a service, got {:?}", other),
    }
    let source = r#"service S { @get("/p") endpoint e(): T { return "x"; } }"#;
    let ast = Compiler::new(source.to_string()).compile().unwrap();
    match ast {
        ASTNode::Service { endpoints, .. } => match &endpoints[0] {
            ASTNode::Endpoint { params, .. } => assert!(params.is_empty()),
            other => panic!("expected an endpoint, got {:?}", other),
        },
        other => panic!("expected a service, got {:?}", other),
    }
}

#[test]
fn test_identifier_return_and_multiple_endpoints() {
    let source = r#"
        service Two {
            @get("/a")
            endpoint a(name: String): String { return name; }
            @post("/b")
            endpoint b(): String { return "fixed"; }
        }
    "#;
    let ast = Compiler::new(source.to_string()).compile().unwrap();
    match ast {
        ASTNode::Service { endpoints, .. } => {
            assert_eq!(endpoints.len(), 2);
            match &endpoints[0] {
                ASTNode::Endpoint { body, .. } => match &**body {
                    ASTNode::Block { statements } => match &statements[0] {
                        ASTNode::ReturnStatement { expression } => match &**expression {
                            ASTNode::Identifier { name } => assert_eq!(name, "name"),
                            other => panic!("expected an identifier, got {:?}", other),
                        },
                        other => panic!("expected a return, got {:?}", other),
                    },
                    other => panic!("expected a block, got {:?}", other),
                },
                other => panic!("expected an endpoint, got {:?}", other),
            }
            match &endpoints[1] {
                ASTNode::Endpoint { method, path, .. } => {
                    assert_eq!(method, "post");
                    assert_eq!(path, "/b");
                }
                other => panic!("expected an endpoint, got {:?}", other),
            }
        }
        other => panic!("expected a service, got {:?}", other),
    }
}

#[test]
fn test_parse_errors_name_what_is_missing() {
    // No service keyword at all: kind mismatch with position.
    match Parser::new("nothing").parse_service() {
        Err(ParseError::UnexpectedToken { line, column, .. }) => {
            assert_eq!(line, 1);
            assert_eq!(column, 0);
        }
        other => panic!("expected a token mismatch, got {:?}", other),
    }
    assert!(matches!(
        Parser::new("service {").parse_service(),
        Err(ParseError::ExpectedServiceName)
    ));
    assert!(matches!(
        Parser::new("service S { @(").parse_service(),
        Err(ParseError::ExpectedHttpMethod)
    ));
    assert!(matches!(
        Parser::new("service S { @get(name").parse_service(),
        Err(ParseError::ExpectedPathString)
    ));
    assert!(matches!(
        Parser::new(r#"service S { @get("/p") endpoint ("#).parse_service(),
        Err(ParseError::ExpectedEndpointName)
    ));
    assert!(matches!(
        Parser::new(r#"service S { @get("/p") endpoint e(a: {"#).parse_service(),
        Err(ParseError::ExpectedParameterType)
    ));
    assert!(matches!(
        Parser::new(r#"service S { @get("/p") endpoint e(): {"#).parse_service(),
        Err(ParseError::ExpectedReturnType)
    ));
    assert!(matches!(
        Parser::new(r#"service S { @get("/p") endpoint e(): T { return ; }"#).parse_service(),
        Err(ParseError::ExpectedExpression)
    ));
    // A missing semicolon is a kind mismatch on the current token.
    assert!(matches!(
        Parser::new(r#"service S { @get("/p") endpoint e(): T { return "x" } }"#).parse_service(),
        Err(ParseError::UnexpectedToken { .. })
    ));
}

#[test]
fn test_parsing_twice_yields_identical_trees() {
    let source = r#"
        service Twice {
            @get("/a")
            endpoint a(x: Int y: String): String { return "ok"; }
        }
    "#;
    let a = Compiler::new(source.to_string()).compile().unwrap();
    let b = Compiler::new(source.to_string()).compile().unwrap();
    assert_eq!(format!("{:?}", a), format!("{:?}", b));
}

#[test]
fn test_lexer_tokens_and_positions() {
    let mut lexer = Lexer::new("service x\n  @");
    let t = lexer.next_token();
    assert!(matches!(t.token_type, TokenType::Service));
    assert_eq!(t.line, 1);
    assert_eq!(t.column, 0);
    let t = lexer.next_token();
    match t.token_type {
        TokenType::Identifier(name) => assert_eq!(name, "x"),
        other => panic!("expected an identifier, got {:?}", other),
    }
    assert_eq!(t.column, 8);
    let t = lexer.next_token();
    assert!(matches!(t.token_type, TokenType::At));
    assert_eq!(t.line, 2);
    assert_eq!(t.column, 2);
    // After end of input, the end marker repeats.
    assert!(matches!(lexer.next_token().token_type, TokenType::EOF));
    assert!(matches!(lexer.next_token().token_type, TokenType::EOF));
}

#[test]
fn test_lexer_string_escapes() {
    let mut lexer = Lexer::new(r#""a\n\t\r\\\"z\q""#);
    match lexer.next_token().token_type {
        // Known escapes map to their characters; an unknown escape passes
        // through literally, backslash and all.
        TokenType::StringLiteral(s) => assert_eq!(s, "a\n\t\r\\\"z\\q"),
        other => panic!("expected a string literal, got {:?}", other),
    }
}

#[test]
fn test_lexer_unterminated_string_reads_to_end() {
    let mut lexer = Lexer::new("\"abc");
    match lexer.next_token().token_type {
        TokenType::StringLiteral(s) => assert_eq!(s, "abc"),
        other => panic!("expected a string literal, got {:?}", other),
    }
    assert!(matches!(lexer.next_token().token_type, TokenType::EOF));
}

#[test]
fn test_lexer_arrow_and_lone_minus() {
    let mut lexer = Lexer::new("->");
    assert!(matches!(lexer.next_token().token_type, TokenType::Arrow));
    // A lone minus deliberately yields the end marker, not an error.
    let mut lexer = Lexer::new("- x");
    assert!(matches!(lexer.next_token().token_type, TokenType::EOF));
    match lexer.next_token().token_type {
        TokenType::Identifier(name) => assert_eq!(name, "x"),
        other => panic!("expected an identifier, got {:?}", other),
    }
}

#[test]
fn test_lexer_number_keeps_raw_spelling() {
    let mut lexer = Lexer::new("3.14 1.2.3");
    match lexer.next_token().token_type {
        TokenType::NumberLiteral(n) => assert_eq!(n, "3.14"),
        other => panic!("expected a number, got {:?}", other),
    }
    match lexer.next_token().token_type {
        TokenType::NumberLiteral(n) => assert_eq!(n, "1.2.3"),
        other => panic!("expected a number, got {:?}", other),
    }
}

#[test]
fn test_lexer_unknown_character_becomes_end_marker() {
    let mut lexer = Lexer::new("# service");
    assert!(matches!(lexer.next_token().token_type, TokenType::EOF));
    assert!(matches!(lexer.next_token().token_type, TokenType::Service));
}

#[test]
fn test_keywords_are_case_sensitive() {
    let mut lexer = Lexer::new("Service return");
    match lexer.next_token().token_type {
        TokenType::Identifier(name) => assert_eq!(name, "Service"),
        other => panic!("expected an identifier, got {:?}", other),
    }
    assert!(matches!(lexer.next_token().token_type, TokenType::Return));
}

#[test]
fn test_comma_is_not_a_token_and_aborts_a_parameter_list() {
    // The token set has no comma: one in a parameter list lexes as the end
    // marker, so the whole parse fails. Parameters are juxtaposed instead.
    let with_comma = r#"service S { @get("/p") endpoint e(a: Int, b: Int): T { return "x"; } }"#;
    assert!(Compiler::new(with_comma.to_string()).compile().is_err());
    let juxtaposed = r#"service S { @get("/p") endpoint e(a: Int b: Int): T { return "x"; } }"#;
    let ast = Compiler::new(juxtaposed.to_string()).compile().unwrap();
    match ast {
        ASTNode::Service { endpoints, .. } => match &endpoints[0] {
            ASTNode::Endpoint { params, .. } => assert_eq!(params.len(), 2),
            other => panic!("expected an endpoint, got {:?}", other),
        },
        other => panic!("expected a service, got {:?}", other),
    }
}
