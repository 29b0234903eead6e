use aether::compiler::Compiler;
use aether::dispatch::{build_routes, dispatch, respond, Response, RouteRule, Runtime};
use aether::parser::ASTNode;

fn table_of(source: &str) -> Vec<RouteRule> {
    let ast = Compiler::new(source.to_string()).compile().unwrap();
    build_routes(&ast)
}

const HELLO: &str = r#"
    service HelloService {
        @get("/hello")
        endpoint greet(name: String): String {
            return "Hello, World!";
        }
    }
"#;

#[test]
fn test_dispatch_hello_returns_the_literal() {
    let source = r#"
        service HelloService {
            @get("/hello")
            endpoint greet(): String {
                return "Hello, World!";
            }
        }
    "#;
    let table = table_of(source);
    let query: Vec<(String, String)> = Vec::new();
    let r = dispatch(&table, "get", "/hello", &query, "t0");
    assert_eq!(r, Response::Text("Hello, World!".to_string()));
}

#[test]
fn test_dispatch_substitutes_query_parameters() {
    let source = r#"
        service Greeter {
            @get("/greet")
            endpoint greet(name: String): String {
                return "Hello, \(name)!";
            }
        }
    "#;
    let table = table_of(source);
    let query = vec![("name".to_string(), "World".to_string())];
    let r = dispatch(&table, "get", "/greet", &query, "t0");
    assert_eq!(r, Response::Text("Hello, World!".to_string()));

    // Without the query parameter the whole request fails, naming it.
    let empty: Vec<(String, String)> = Vec::new();
    let r = dispatch(&table, "get", "/greet", &empty, "t0");
    assert_eq!(r, Response::Error("Missing required parameter: name".to_string()));
}

#[test]
fn test_dispatch_substitutes_every_occurrence_and_all_parameters() {
    let source = r#"
        service Echo {
            @get("/echo")
            endpoint echo(a: String b: String): String {
                return "\(a) and \(b) and \(a)";
            }
        }
    "#;
    let table = table_of(source);
    let query = vec![("a".to_string(), "x".to_string()), ("b".to_string(), "y".to_string())];
    let r = dispatch(&table, "get", "/echo", &query, "t0");
    assert_eq!(r, Response::Text("x and y and x".to_string()));
}

#[test]
fn test_dispatch_identifier_reads_the_query_only() {
    let source = r#"
        service Id {
            @get("/id")
            endpoint id(name: String): String {
                return name;
            }
        }
    "#;
    let table = table_of(source);
    let query = vec![("name".to_string(), "World".to_string())];
    let r = dispatch(&table, "get", "/id", &query, "t0");
    assert_eq!(r, Response::Text("World".to_string()));

    let empty: Vec<(String, String)> = Vec::new();
    let r = dispatch(&table, "get", "/id", &empty, "t0");
    assert_eq!(
        r,
        Response::Error("Identifier 'name' not found in query parameters".to_string())
    );
}

#[test]
fn test_health_is_synthesized_with_status_and_timestamp() {
    let table = table_of(HELLO);
    let query: Vec<(String, String)> = Vec::new();
    let r = dispatch(&table, "get", "/health", &query, "2021-01-01T00:00:00+00:00");
    assert_eq!(
        r,
        Response::Object(vec![
            ("status".to_string(), "operational".to_string()),
            ("timestamp".to_string(), "2021-01-01T00:00:00+00:00".to_string()),
        ])
    );
    // Through the clock-reading entry point the shape is the same.
    match respond(&table, "get", "/health", &query) {
        Response::Object(fields) => {
            assert_eq!(fields[0].0, "status");
            assert_eq!(fields[0].1, "operational");
            assert_eq!(fields[1].0, "timestamp");
            assert!(!fields[1].1.is_empty());
        }
        other => panic!("expected the health payload, got {:?}", other),
    }
}

#[test]
fn test_declared_health_path_wins_over_synthesis() {
    let source = r#"
        service H {
            @get("/health")
            endpoint h(): String {
                return "custom";
            }
        }
    "#;
    let table = table_of(source);
    let query: Vec<(String, String)> = Vec::new();
    let r = dispatch(&table, "get", "/health", &query, "t0");
    assert_eq!(r, Response::Text("custom".to_string()));
}

#[test]
fn test_post_is_registered_but_not_implemented() {
    let source = r#"
        service P {
            @get("/thing")
            endpoint read(): String {
                return "computed";
            }
            @post("/thing")
            endpoint write(): String {
                return "never";
            }
        }
    "#;
    let table = table_of(source);
    let query: Vec<(String, String)> = Vec::new();
    // The POST path answers the fixed payload, never the GET handler's.
    let r = dispatch(&table, "post", "/thing", &query, "t0");
    assert_eq!(r, Response::Error("POST not implemented for this method".to_string()));
    // The GET handler still answers for GET.
    let r = dispatch(&table, "get", "/thing", &query, "t0");
    assert_eq!(r, Response::Text("computed".to_string()));
}

#[test]
fn test_put_and_delete_are_not_implemented() {
    let source = r#"
        service P {
            @put("/a")
            endpoint a(): String { return "x"; }
            @delete("/b")
            endpoint b(): String { return "y"; }
        }
    "#;
    let table = table_of(source);
    let query: Vec<(String, String)> = Vec::new();
    assert_eq!(
        dispatch(&table, "put", "/a", &query, "t0"),
        Response::Error("PUT not implemented for this method".to_string())
    );
    assert_eq!(
        dispatch(&table, "delete", "/b", &query, "t0"),
        Response::Error("DELETE not implemented for this method".to_string())
    );
}

#[test]
fn test_unknown_method_is_registered_under_get_as_unsupported() {
    let source = r#"
        service P {
            @patch("/weird")
            endpoint w(): String { return "x"; }
        }
    "#;
    let table = table_of(source);
    let query: Vec<(String, String)> = Vec::new();
    assert_eq!(
        dispatch(&table, "get", "/weird", &query, "t0"),
        Response::Error("Method not supported".to_string())
    );
}

#[test]
fn test_unregistered_pair_is_not_found() {
    let table = table_of(HELLO);
    let query: Vec<(String, String)> = Vec::new();
    assert_eq!(
        dispatch(&table, "get", "/nowhere", &query, "t0"),
        Response::Error("Not found".to_string())
    );
    assert_eq!(
        dispatch(&table, "post", "/hello", &query, "t0"),
        Response::Error("Not found".to_string())
    );
}

#[test]
fn test_system_routes_list_every_registered_path() {
    let table = table_of(HELLO);
    let query: Vec<(String, String)> = Vec::new();
    let r = dispatch(&table, "get", "/system/routes", &query, "t0");
    assert_eq!(
        r,
        Response::List(vec![
            "/hello".to_string(),
            "/health".to_string(),
            "/system/info".to_string(),
            "/system/routes".to_string(),
        ])
    );
}

#[test]
fn test_system_info_reports_build_metadata() {
    let table = table_of(HELLO);
    let query: Vec<(String, String)> = Vec::new();
    match dispatch(&table, "get", "/system/info", &query, "t0") {
        Response::Object(fields) => {
            assert_eq!(fields[0], ("name".to_string(), "aether".to_string()));
            assert_eq!(fields[1], ("version".to_string(), "0.1.0".to_string()));
            assert_eq!(fields[2].0, "authors");
            assert_eq!(fields[3].0, "description");
        }
        other => panic!("expected the info payload, got {:?}", other),
    }
}

#[test]
fn test_malformed_bodies_answer_local_errors() {
    let query: Vec<(String, String)> = Vec::new();
    // An endpoint whose body has no statement.
    let ast = ASTNode::Service {
        name: "S".to_string(),
        endpoints: vec![ASTNode::Endpoint {
            path: "/e".to_string(),
            method: "get".to_string(),
            params: vec![],
            return_type: "T".to_string(),
            body: Box::new(ASTNode::Block { statements: vec![] }),
        }],
    };
    let table = build_routes(&ast);
    assert_eq!(
        dispatch(&table, "get", "/e", &query, "t0"),
        Response::Error("No return statement in endpoint body".to_string())
    );

    // An endpoint whose body is not a block at all.
    let ast = ASTNode::Service {
        name: "S".to_string(),
        endpoints: vec![ASTNode::Endpoint {
            path: "/e".to_string(),
            method: "get".to_string(),
            params: vec![],
            return_type: "T".to_string(),
            body: Box::new(ASTNode::Identifier { name: "x".to_string() }),
        }],
    };
    let table = build_routes(&ast);
    assert_eq!(
        dispatch(&table, "get", "/e", &query, "t0"),
        Response::Error("Invalid endpoint body structure".to_string())
    );

    // A return whose expression is neither a literal nor an identifier.
    let ast = ASTNode::Service {
        name: "S".to_string(),
        endpoints: vec![ASTNode::Endpoint {
            path: "/e".to_string(),
            method: "get".to_string(),
            params: vec![],
            return_type: "T".to_string(),
            body: Box::new(ASTNode::Block {
                statements: vec![ASTNode::ReturnStatement {
                    expression: Box::new(ASTNode::Block { statements: vec![] }),
                }],
            }),
        }],
    };
    let table = build_routes(&ast);
    assert_eq!(
        dispatch(&table, "get", "/e", &query, "t0"),
        Response::Error("Invalid return type for dynamic processing".to_string())
    );
}

#[test]
fn test_only_the_first_statement_counts() {
    let source = r#"
        service First {
            @get("/f")
            endpoint f(): String {
                return "first";
                return "second";
            }
        }
    "#;
    let table = table_of(source);
    let query: Vec<(String, String)> = Vec::new();
    assert_eq!(
        dispatch(&table, "get", "/f", &query, "t0"),
        Response::Text("first".to_string())
    );
}

#[test]
fn test_runtime_holds_ast_and_port() {
    let ast = Compiler::new(HELLO.to_string()).compile().unwrap();
    let runtime = Runtime::new(ast, 8081);
    assert_eq!(runtime.port, 8081);
    let table = runtime.routes();
    let query = vec![("name".to_string(), "World".to_string())];
    assert_eq!(
        dispatch(&table, "get", "/hello", &query, "t0"),
        Response::Text("Hello, World!".to_string())
    );
}

#[test]
fn test_aether_builder_sets_port() {
    let aether = aether::Aether::new(HELLO.to_string()).with_port(8081);
    assert_eq!(aether.port, 8081);
    assert!(aether.compiler.compile().is_ok());
}
