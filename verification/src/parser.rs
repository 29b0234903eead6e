use vstd::prelude::*;
use crate::lexer::{same_kind, spec_next_token, lemma_next_token_advances, Lexer, LexerState, Tok,
    Token, TokenSnap, TokenType};
use crate::text::{lower_of, to_lowercase_str};

verus! {

broadcast use vstd::std_specs::vec::group_vec_axioms;

/// A named, typed endpoint parameter. The type name is opaque: no type
/// system checks it.
#[derive(Debug, Clone)]
pub struct Parameter {
    pub name: String,
    pub param_type: String,
}

/// Mathematical model of a parameter.
#[verifier::ext_equal]
pub struct ParamModel {
    pub name: Seq<char>,
    pub param_type: Seq<char>,
}

impl View for Parameter {
    type V = ParamModel;

    open spec fn view(&self) -> ParamModel {
        ParamModel { name: self.name@, param_type: self.param_type@ }
    }
}

/// The abstract syntax tree: a service holds endpoints; an endpoint holds a
/// block; a block holds statements; a return statement holds a string
/// literal or a bare identifier. The tree is built once by the parser and
/// never mutated.
#[derive(Debug)]
pub enum ASTNode {
    Service { name: String, endpoints: Vec<ASTNode> },
    Endpoint {
        path: String,
        method: String,
        params: Vec<Parameter>,
        return_type: String,
        body: Box<ASTNode>,
    },
    Block { statements: Vec<ASTNode> },
    ReturnStatement { expression: Box<ASTNode> },
    StringLiteral { value: String },
    Identifier { name: String },
}

/// Mathematical model of an AST node.
#[verifier::ext_equal]
pub enum AstModel {
    Service { name: Seq<char>, endpoints: Seq<AstModel> },
    Endpoint {
        path: Seq<char>,
        method: Seq<char>,
        params: Seq<ParamModel>,
        return_type: Seq<char>,
        body: Box<AstModel>,
    },
    Block { statements: Seq<AstModel> },
    ReturnStatement { expression: Box<AstModel> },
    StringLiteral { value: Seq<char> },
    Identifier { name: Seq<char> },
}

/// The model of an AST node: strings become character sequences, vectors
/// become sequences, node by node.
pub open spec fn ast_view(n: ASTNode) -> AstModel
    decreases n,
    via ast_view_decreases
{
    match n {
        ASTNode::Service { name, endpoints } => AstModel::Service {
            name: name@,
            endpoints: Seq::new(
                endpoints@.len(),
                |i: int|
                    if 0 <= i < endpoints@.len() {
                        ast_view(endpoints@[i])
                    } else {
                        AstModel::Block { statements: Seq::empty() }
                    },
            ),
        },
        ASTNode::Endpoint { path, method, params, return_type, body } => AstModel::Endpoint {
            path: path@,
            method: method@,
            params: Seq::new(params@.len(), |i: int| params@[i]@),
            return_type: return_type@,
            body: Box::new(ast_view(*body)),
        },
        ASTNode::Block { statements } => AstModel::Block {
            statements: Seq::new(
                statements@.len(),
                |i: int|
                    if 0 <= i < statements@.len() {
                        ast_view(statements@[i])
                    } else {
                        AstModel::Block { statements: Seq::empty() }
                    },
            ),
        },
        ASTNode::ReturnStatement { expression } => AstModel::ReturnStatement {
            expression: Box::new(ast_view(*expression)),
        },
        ASTNode::StringLiteral { value } => AstModel::StringLiteral { value: value@ },
        ASTNode::Identifier { name } => AstModel::Identifier { name: name@ },
    }
}

#[via_fn]
proof fn ast_view_decreases(n: ASTNode) {
    match n {
        ASTNode::Service { name, endpoints } => {
            assert forall|i: int| 0 <= i < endpoints@.len() implies decreases_to!(n => endpoints@[i]) by {
                assert(endpoints == n->Service_endpoints);
                assert(decreases_to!(n => n->Service_endpoints));
                assert(decreases_to!(endpoints => endpoints@));
                assert(decreases_to!(endpoints@ => endpoints@[i]));
            }
        },
        ASTNode::Block { statements } => {
            assert forall|i: int| 0 <= i < statements@.len() implies decreases_to!(n => statements@[i]) by {
                assert(statements == n->Block_statements);
                assert(decreases_to!(n => n->Block_statements));
                assert(decreases_to!(statements => statements@));
                assert(decreases_to!(statements@ => statements@[i]));
            }
        },
        _ => {},
    }
}

impl View for ASTNode {
    type V = AstModel;

    open spec fn view(&self) -> AstModel {
        ast_view(*self)
    }
}

impl ASTNode {
    /// A structurally identical copy of the node.
    #[verifier::loop_isolation(false)]
    pub fn duplicate(&self) -> (r: ASTNode)
        ensures
            r@ == self@,
        decreases self,
    {
        match self {
            ASTNode::Service { name, endpoints } => {
                let mut es: Vec<ASTNode> = Vec::new();
                let mut i: usize = 0;
                while i < endpoints.len()
                    invariant
                        i <= endpoints@.len(),
                        es@.len() == i,
                        forall|j: int| 0 <= j < i ==> es@[j]@ == ast_view(endpoints@[j]),
                    decreases endpoints@.len() - i,
                {
                    proof {
                        assert(*endpoints == (*self)->Service_endpoints);
                        assert(decreases_to!(*self => (*self)->Service_endpoints));
                        assert(decreases_to!(*endpoints => endpoints@));
                        assert(decreases_to!(endpoints@ => endpoints@[i as int]));
                    }
                    es.push(endpoints[i].duplicate());
                    i = i + 1;
                }
                let r = ASTNode::Service { name: name.clone(), endpoints: es };
                proof {
                    assert(r@ matches AstModel::Service { endpoints: e2, .. } && e2 =~= self@->Service_endpoints);
                }
                r
            },
            ASTNode::Endpoint { path, method, params, return_type, body } => {
                let mut ps: Vec<Parameter> = Vec::new();
                let mut i: usize = 0;
                while i < params.len()
                    invariant
                        i <= params@.len(),
                        ps@.len() == i,
                        forall|j: int| 0 <= j < i ==> ps@[j]@ == params@[j]@,
                    decreases params@.len() - i,
                {
                    ps.push(Parameter {
                        name: params[i].name.clone(),
                        param_type: params[i].param_type.clone(),
                    });
                    i = i + 1;
                }
                let r = ASTNode::Endpoint {
                    path: path.clone(),
                    method: method.clone(),
                    params: ps,
                    return_type: return_type.clone(),
                    body: Box::new(body.duplicate()),
                };
                proof {
                    assert(r@ matches AstModel::Endpoint { params: p2, .. } && p2 =~= self@->Endpoint_params);
                }
                r
            },
            ASTNode::Block { statements } => {
                let mut ss: Vec<ASTNode> = Vec::new();
                let mut i: usize = 0;
                while i < statements.len()
                    invariant
                        i <= statements@.len(),
                        ss@.len() == i,
                        forall|j: int| 0 <= j < i ==> ss@[j]@ == ast_view(statements@[j]),
                    decreases statements@.len() - i,
                {
                    proof {
                        assert(*statements == (*self)->Block_statements);
                        assert(decreases_to!(*self => (*self)->Block_statements));
                        assert(decreases_to!(*statements => statements@));
                        assert(decreases_to!(statements@ => statements@[i as int]));
                    }
                    ss.push(statements[i].duplicate());
                    i = i + 1;
                }
                let r = ASTNode::Block { statements: ss };
                proof {
                    assert(r@ matches AstModel::Block { statements: s2 } && s2 =~= self@->Block_statements);
                }
                r
            },
            ASTNode::ReturnStatement { expression } => ASTNode::ReturnStatement {
                expression: Box::new(expression.duplicate()),
            },
            ASTNode::StringLiteral { value } => ASTNode::StringLiteral { value: value.clone() },
            ASTNode::Identifier { name } => ASTNode::Identifier { name: name.clone() },
        }
    }
}


/// A parse error: a structural mismatch carries the expected and actual
/// token kinds with the position of the offending token; the other variants
/// name the piece of the grammar that was missing. Any error aborts the
/// whole parse: there is no recovery and no partial tree.
#[derive(Debug, PartialEq)]
pub enum ParseError {
    UnexpectedToken { expected: TokenType, got: TokenType, line: usize, column: usize },
    ExpectedServiceName,
    ExpectedHttpMethod,
    ExpectedPathString,
    ExpectedEndpointName,
    ExpectedParameterType,
    ExpectedReturnType,
    ExpectedExpression,
}

/// Mathematical model of a parse error.
pub enum PErr {
    UnexpectedToken { expected: Tok, got: Tok, line: nat, column: nat },
    ExpectedServiceName,
    ExpectedHttpMethod,
    ExpectedPathString,
    ExpectedEndpointName,
    ExpectedParameterType,
    ExpectedReturnType,
    ExpectedExpression,
}

impl View for ParseError {
    type V = PErr;

    open spec fn view(&self) -> PErr {
        match self {
            ParseError::UnexpectedToken { expected, got, line, column } => PErr::UnexpectedToken {
                expected: expected@,
                got: got@,
                line: *line as nat,
                column: *column as nat,
            },
            ParseError::ExpectedServiceName => PErr::ExpectedServiceName,
            ParseError::ExpectedHttpMethod => PErr::ExpectedHttpMethod,
            ParseError::ExpectedPathString => PErr::ExpectedPathString,
            ParseError::ExpectedEndpointName => PErr::ExpectedEndpointName,
            ParseError::ExpectedParameterType => PErr::ExpectedParameterType,
            ParseError::ExpectedReturnType => PErr::ExpectedReturnType,
            ParseError::ExpectedExpression => PErr::ExpectedExpression,
        }
    }
}

/// Mathematical model of the parser: the lexer's state plus the single
/// lookahead token. The parser never holds more than the current token.
pub struct PState {
    pub lex: LexerState,
    pub tok: TokenSnap,
}

impl PState {
    pub open spec fn wf(self) -> bool {
        self.lex.wf()
    }
}

/// The parser state after reading the next token.
pub open spec fn spec_advance(st: PState) -> PState {
    let (t, lx) = spec_next_token(st.lex);
    PState { lex: lx, tok: t }
}

/// Matching by kind only: on the expected kind the parser advances; on any
/// other it stops with the expected kind, the actual kind, and the position.
pub open spec fn spec_expect(st: PState, kind: Tok) -> Result<PState, PErr> {
    if same_kind(st.tok.kind, kind) {
        Ok(spec_advance(st))
    } else {
        Err(
            PErr::UnexpectedToken {
                expected: kind,
                got: st.tok.kind,
                line: st.tok.line,
                column: st.tok.column,
            },
        )
    }
}

/// The models of a sequence of AST nodes.
pub open spec fn nodes_view(s: Seq<ASTNode>) -> Seq<AstModel> {
    Seq::new(
        s.len(),
        |i: int|
            if 0 <= i < s.len() {
                ast_view(s[i])
            } else {
                AstModel::Block { statements: Seq::empty() }
            },
    )
}

/// The models of a sequence of parameters.
pub open spec fn params_view(s: Seq<Parameter>) -> Seq<ParamModel> {
    Seq::new(s.len(), |i: int| if 0 <= i < s.len() { s[i]@ } else { ParamModel { name: Seq::empty(), param_type: Seq::empty() } })
}

/// The parameter list: `name ':' type` entries while an identifier is in
/// view, stopping early when a closing parenthesis follows an entry. The
/// fuel only bounds the recursion; the parser always supplies more fuel
/// than characters, so the exhaustion branch is never taken.
pub open spec fn spec_parse_params(st: PState, acc: Seq<ParamModel>, fuel: nat) -> Result<
    (Seq<ParamModel>, PState),
    PErr,
>
    decreases fuel,
{
    match st.tok.kind {
        Tok::Identifier(pname) => {
            if fuel == 0 {
                Ok((acc, st))
            } else {
                let st1 = spec_advance(st);
                match spec_expect(st1, Tok::Colon) {
                    Err(e) => Err(e),
                    Ok(st2) => match st2.tok.kind {
                        Tok::Identifier(ptype) => {
                            let st3 = spec_advance(st2);
                            let acc2 = acc.push(ParamModel { name: pname, param_type: ptype });
                            if st3.tok.kind is RightParen {
                                Ok((acc2, st3))
                            } else {
                                spec_parse_params(st3, acc2, (fuel - 1) as nat)
                            }
                        },
                        _ => Err(PErr::ExpectedParameterType),
                    },
                }
            }
        },
        _ => Ok((acc, st)),
    }
}

/// A single return statement: `return` followed by a string literal or a
/// bare identifier, closed by a semicolon.
pub open spec fn spec_parse_return(st: PState) -> Result<(AstModel, PState), PErr> {
    match spec_expect(st, Tok::Return) {
        Err(e) => Err(e),
        Ok(st1) => {
            let expr = match st1.tok.kind {
                Tok::StringLiteral(v) => Some(AstModel::StringLiteral { value: v }),
                Tok::Identifier(n) => Some(AstModel::Identifier { name: n }),
                _ => None,
            };
            match expr {
                None => Err(PErr::ExpectedExpression),
                Some(e) => {
                    let st2 = spec_advance(st1);
                    match spec_expect(st2, Tok::Semicolon) {
                        Err(er) => Err(er),
                        Ok(st3) => Ok(
                            (AstModel::ReturnStatement { expression: Box::new(e) }, st3),
                        ),
                    }
                },
            }
        },
    }
}

/// A block: return statements while the `return` keyword is in view. The
/// fuel only bounds the recursion and is never exhausted by the parser,
/// which always supplies more fuel than characters.
pub open spec fn spec_parse_block(st: PState, acc: Seq<AstModel>, fuel: nat) -> Result<
    (AstModel, PState),
    PErr,
>
    decreases fuel,
{
    if st.tok.kind is Return {
        if fuel == 0 {
            Ok((AstModel::Block { statements: acc }, st))
        } else {
            match spec_parse_return(st) {
                Err(e) => Err(e),
                Ok((stmt, st1)) => spec_parse_block(st1, acc.push(stmt), (fuel - 1) as nat),
            }
        }
    } else {
        Ok((AstModel::Block { statements: acc }, st))
    }
}

/// One endpoint: `@method ( "path" ) endpoint name ( params ) : type
/// { block }`. The method identifier is lower-cased on capture; the
/// endpoint's own name is checked and discarded.
pub open spec fn spec_parse_endpoint(st: PState, fuel: nat) -> Result<(AstModel, PState), PErr> {
    match spec_expect(st, Tok::At) {
        Err(e) => Err(e),
        Ok(st1) => match st1.tok.kind {
            Tok::Identifier(m) => {
                let method = lower_of(m);
                let st2 = spec_advance(st1);
                match spec_expect(st2, Tok::LeftParen) {
                    Err(e) => Err(e),
                    Ok(st3) => match st3.tok.kind {
                        Tok::StringLiteral(path) => {
                            let st4 = spec_advance(st3);
                            match spec_expect(st4, Tok::RightParen) {
                                Err(e) => Err(e),
                                Ok(st5) => match spec_expect(st5, Tok::Endpoint) {
                                    Err(e) => Err(e),
                                    Ok(st6) => match st6.tok.kind {
                                        Tok::Identifier(_) => {
                                            let st7 = spec_advance(st6);
                                            spec_parse_endpoint_tail(st7, fuel, path, method)
                                        },
                                        _ => Err(PErr::ExpectedEndpointName),
                                    },
                                },
                            }
                        },
                        _ => Err(PErr::ExpectedPathString),
                    },
                }
            },
            _ => Err(PErr::ExpectedHttpMethod),
        },
    }
}

/// The rest of an endpoint after its name: parameter list, return type,
/// and body.
pub open spec fn spec_parse_endpoint_tail(
    st: PState,
    fuel: nat,
    path: Seq<char>,
    method: Seq<char>,
) -> Result<(AstModel, PState), PErr> {
    match spec_expect(st, Tok::LeftParen) {
        Err(e) => Err(e),
        Ok(st8) => match spec_parse_params(st8, Seq::empty(), fuel) {
            Err(e) => Err(e),
            Ok((params, st9)) => match spec_expect(st9, Tok::RightParen) {
                Err(e) => Err(e),
                Ok(st10) => match spec_expect(st10, Tok::Colon) {
                    Err(e) => Err(e),
                    Ok(st11) => match st11.tok.kind {
                        Tok::Identifier(rt) => {
                            let st12 = spec_advance(st11);
                            match spec_expect(st12, Tok::LeftBrace) {
                                Err(e) => Err(e),
                                Ok(st13) => match spec_parse_block(st13, Seq::empty(), fuel) {
                                    Err(e) => Err(e),
                                    Ok((body, st14)) => match spec_expect(st14, Tok::RightBrace) {
                                        Err(e) => Err(e),
                                        Ok(st15) => Ok(
                                            (
                                                AstModel::Endpoint {
                                                    path,
                                                    method,
                                                    params,
                                                    return_type: rt,
                                                    body: Box::new(body),
                                                },
                                                st15,
                                            ),
                                        ),
                                    },
                                },
                            }
                        },
                        _ => Err(PErr::ExpectedReturnType),
                    },
                },
            },
        },
    }
}

/// The endpoint list of a service: endpoints while `@` is in view. The
/// fuel only bounds the recursion and is never exhausted by the parser,
/// which always supplies more fuel than characters.
pub open spec fn spec_parse_endpoints(st: PState, acc: Seq<AstModel>, fuel: nat) -> Result<
    (Seq<AstModel>, PState),
    PErr,
>
    decreases fuel,
{
    if st.tok.kind is At {
        if fuel == 0 {
            Ok((acc, st))
        } else {
            match spec_parse_endpoint(st, fuel) {
                Err(e) => Err(e),
                Ok((ep, st1)) => spec_parse_endpoints(st1, acc.push(ep), (fuel - 1) as nat),
            }
        }
    } else {
        Ok((acc, st))
    }
}

/// A whole service: `service Name { endpoint* }`. Tokens after the closing
/// brace are not inspected. One unit of fuel is spent per endpoint, and an
/// endpoint costs at least one character, so a fuel of one more than the
/// input's length can never run out.
pub open spec fn spec_parse_service(st: PState) -> Result<(AstModel, PState), PErr> {
    let fuel = st.lex.input.len() + 1;
    match spec_expect(st, Tok::Service) {
        Err(e) => Err(e),
        Ok(st1) => match st1.tok.kind {
            Tok::Identifier(name) => {
                let st2 = spec_advance(st1);
                match spec_expect(st2, Tok::LeftBrace) {
                    Err(e) => Err(e),
                    Ok(st3) => match spec_parse_endpoints(st3, Seq::empty(), fuel) {
                        Err(e) => Err(e),
                        Ok((endpoints, st4)) => match spec_expect(st4, Tok::RightBrace) {
                            Err(e) => Err(e),
                            Ok(st5) => Ok((AstModel::Service { name, endpoints }, st5)),
                        },
                    },
                }
            },
            _ => Err(PErr::ExpectedServiceName),
        },
    }
}

/// The parser state over a fresh input: the lexer at the start, with the
/// first token already read as the lookahead.
pub open spec fn spec_init_parser(input: Seq<char>) -> PState {
    let lex0 = LexerState { input, pos: 0 as nat, line: 1 as nat, column: 0 as nat };
    let (t0, lex1) = spec_next_token(lex0);
    PState { lex: lex1, tok: t0 }
}

/// What parsing a text yields: the service's model, or the first error.
/// This is a mathematical function of the text alone, so parsing is
/// deterministic and pure.
pub open spec fn spec_parse(input: Seq<char>) -> Result<AstModel, PErr> {
    match spec_parse_service(spec_init_parser(input)) {
        Ok(p) => Ok(p.0),
        Err(e) => Err(e),
    }
}

/// Law: parsing is deterministic and pure. Two parses of the same text
/// yield structurally identical trees, or the identical error: each equals
/// `spec_parse` of the text, which `Parser::parse_service` ensures.
pub proof fn lemma_parse_deterministic(
    input: Seq<char>,
    r1: Result<AstModel, PErr>,
    r2: Result<AstModel, PErr>,
)
    requires
        r1 == spec_parse(input),
        r2 == spec_parse(input),
    ensures
        r1 == r2,
{
}

/// A copy of a token kind whose model is the same.
fn clone_token_type(t: &TokenType) -> (r: TokenType)
    ensures
        r@ == t@,
{
    match t {
        TokenType::Service => TokenType::Service,
        TokenType::Endpoint => TokenType::Endpoint,
        TokenType::Class => TokenType::Class,
        TokenType::Interface => TokenType::Interface,
        TokenType::Async => TokenType::Async,
        TokenType::Await => TokenType::Await,
        TokenType::Cloud => TokenType::Cloud,
        TokenType::Import => TokenType::Import,
        TokenType::Export => TokenType::Export,
        TokenType::Try => TokenType::Try,
        TokenType::Catch => TokenType::Catch,
        TokenType::Defer => TokenType::Defer,
        TokenType::Return => TokenType::Return,
        TokenType::LeftBrace => TokenType::LeftBrace,
        TokenType::RightBrace => TokenType::RightBrace,
        TokenType::LeftParen => TokenType::LeftParen,
        TokenType::RightParen => TokenType::RightParen,
        TokenType::Arrow => TokenType::Arrow,
        TokenType::Colon => TokenType::Colon,
        TokenType::Semicolon => TokenType::Semicolon,
        TokenType::At => TokenType::At,
        TokenType::Identifier(s) => TokenType::Identifier(s.clone()),
        TokenType::StringLiteral(s) => TokenType::StringLiteral(s.clone()),
        TokenType::NumberLiteral(s) => TokenType::NumberLiteral(s.clone()),
        TokenType::EOF => TokenType::EOF,
    }
}

/// The recursive-descent parser: one token of lookahead over a lazily
/// driven lexer. Every method's result equals the corresponding
/// mathematical parse function of the state it started from.
pub struct Parser {
    lexer: Lexer,
    current_token: Token,
}

impl View for Parser {
    type V = PState;

    closed spec fn view(&self) -> PState {
        PState { lex: self.lexer@, tok: self.current_token@ }
    }
}

impl Parser {
    pub open spec fn wf(self) -> bool {
        self@.wf()
    }

    /// A parser over the given text, with the first token read.
    pub fn new(input: &str) -> (r: Parser)
        requires
            input@.len() < usize::MAX,
        ensures
            r.wf(),
            r@ == spec_init_parser(input@),
    {
        let mut lexer = Lexer::new(input);
        let current_token = lexer.next_token();
        Parser { lexer, current_token }
    }

    fn advance(&mut self)
        requires
            old(self).wf(),
        ensures
            final(self).wf(),
            final(self)@ == spec_advance(old(self)@),
            final(self)@.lex.input == old(self)@.lex.input,
            final(self)@.lex.pos >= old(self)@.lex.pos,
            !(final(self)@.tok.kind is EOF) ==> final(self)@.lex.pos > old(self)@.lex.pos,
    {
        proof {
            lemma_next_token_advances(old(self)@.lex);
        }
        self.current_token = self.lexer.next_token();
    }

    fn expect(&mut self, token_type: TokenType) -> (r: Result<(), ParseError>)
        requires
            old(self).wf(),
        ensures
            final(self).wf(),
            final(self)@.lex.input == old(self)@.lex.input,
            final(self)@.lex.pos >= old(self)@.lex.pos,
            match r {
                Ok(_) => spec_expect(old(self)@, token_type@) == Ok::<PState, PErr>(final(self)@)
                    && (!(final(self)@.tok.kind is EOF) ==> final(self)@.lex.pos > old(self)@.lex.pos),
                Err(e) => spec_expect(old(self)@, token_type@) == Err::<PState, PErr>(e@)
                    && final(self)@ == old(self)@,
            },
    {
        if self.current_token.token_type.kind_matches(&token_type) {
            self.advance();
            Ok(())
        } else {
            Err(
                ParseError::UnexpectedToken {
                    expected: token_type,
                    got: clone_token_type(&self.current_token.token_type),
                    line: self.current_token.line,
                    column: self.current_token.column,
                },
            )
        }
    }

    fn tok_is_at(&self) -> (b: bool)
        ensures
            b == (self@.tok.kind is At),
    {
        match &self.current_token.token_type {
            TokenType::At => true,
            _ => false,
        }
    }

    fn tok_is_identifier(&self) -> (b: bool)
        ensures
            b == (self@.tok.kind is Identifier),
    {
        match &self.current_token.token_type {
            TokenType::Identifier(_) => true,
            _ => false,
        }
    }

    fn tok_is_return(&self) -> (b: bool)
        ensures
            b == (self@.tok.kind is Return),
    {
        match &self.current_token.token_type {
            TokenType::Return => true,
            _ => false,
        }
    }

    /// Parse the whole service. Any structural mismatch aborts the parse
    /// with a single error; the result is exactly `spec_parse_service` of
    /// the starting state.
    #[verifier::loop_isolation(false)]
    #[verifier::rlimit(60)]
    pub fn parse_service(&mut self) -> (r: Result<ASTNode, ParseError>)
        requires
            old(self).wf(),
        ensures
            final(self).wf(),
            match spec_parse_service(old(self)@) {
                Ok(p) => r matches Ok(n) && n@ == p.0 && final(self)@ == p.1,
                Err(e) => r matches Err(pe) && pe@ == e,
            },
    {
        let ghost st0 = self@;
        let ghost fuel0: nat = self@.lex.input.len() + 1;
        match self.expect(TokenType::Service) {
            Err(e) => {
                return Err(e);
            },
            Ok(_) => {},
        }
        let name = match &self.current_token.token_type {
            TokenType::Identifier(n) => n.clone(),
            _ => {
                return Err(ParseError::ExpectedServiceName);
            },
        };
        self.advance();
        match self.expect(TokenType::LeftBrace) {
            Err(e) => {
                return Err(e);
            },
            Ok(_) => {},
        }
        let ghost st3 = self@;
        let mut endpoints: Vec<ASTNode> = Vec::new();
        let ghost mut fuel: nat = fuel0;
        proof {
            assert(nodes_view(endpoints@) =~= Seq::<AstModel>::empty());
        }
        while self.tok_is_at()
            invariant
                self.wf(),
                self@.lex.input == st0.lex.input,
                fuel >= self@.lex.input.len() + 1 - self@.lex.pos,
                spec_parse_endpoints(self@, nodes_view(endpoints@), fuel) == spec_parse_endpoints(
                    st3,
                    Seq::empty(),
                    fuel0,
                ),
            decreases fuel,
        {
            proof {
                assert(self@.lex.pos <= self@.lex.input.len());
                assert(fuel >= 1);
            }
            let ghost pre_acc = nodes_view(endpoints@);
            let ep = match self.parse_endpoint(Ghost(fuel)) {
                Ok(n) => n,
                Err(e) => {
                    return Err(e);
                },
            };
            endpoints.push(ep);
            proof {
                assert(nodes_view(endpoints@) =~= pre_acc.push(ep@));
                fuel = (fuel - 1) as nat;
            }
        }
        match self.expect(TokenType::RightBrace) {
            Err(e) => {
                return Err(e);
            },
            Ok(_) => {},
        }
        let r = ASTNode::Service { name, endpoints };
        proof {
            assert(r@ matches AstModel::Service { name: n2, endpoints: e2 } && e2
                =~= nodes_view(endpoints@));
        }
        Ok(r)
    }

    #[verifier::rlimit(100)]
    fn parse_endpoint(&mut self, Ghost(fuel): Ghost<nat>) -> (r: Result<ASTNode, ParseError>)
        requires
            old(self).wf(),
            fuel >= old(self)@.lex.input.len() + 1 - old(self)@.lex.pos,
        ensures
            final(self).wf(),
            final(self)@.lex.input == old(self)@.lex.input,
            final(self)@.lex.pos >= old(self)@.lex.pos,
            match spec_parse_endpoint(old(self)@, fuel) {
                Ok(p) => r matches Ok(n) && n@ == p.0 && final(self)@ == p.1
                    && final(self)@.lex.pos > old(self)@.lex.pos,
                Err(e) => r matches Err(pe) && pe@ == e,
            },
    {
        match self.expect(TokenType::At) {
            Err(e) => {
                return Err(e);
            },
            Ok(_) => {},
        }
        let method_raw = match &self.current_token.token_type {
            TokenType::Identifier(m) => m.clone(),
            _ => {
                return Err(ParseError::ExpectedHttpMethod);
            },
        };
        let method = to_lowercase_str(method_raw.as_str());
        self.advance();
        match self.expect(TokenType::LeftParen) {
            Err(e) => {
                return Err(e);
            },
            Ok(_) => {},
        }
        let path = match &self.current_token.token_type {
            TokenType::StringLiteral(p) => p.clone(),
            _ => {
                return Err(ParseError::ExpectedPathString);
            },
        };
        self.advance();
        match self.expect(TokenType::RightParen) {
            Err(e) => {
                return Err(e);
            },
            Ok(_) => {},
        }
        match self.expect(TokenType::Endpoint) {
            Err(e) => {
                return Err(e);
            },
            Ok(_) => {},
        }
        match &self.current_token.token_type {
            TokenType::Identifier(_) => {},
            _ => {
                return Err(ParseError::ExpectedEndpointName);
            },
        }
        self.advance();
        match self.expect(TokenType::LeftParen) {
            Err(e) => {
                return Err(e);
            },
            Ok(_) => {},
        }
        let params = match self.parse_params(Ghost(fuel)) {
            Ok(ps) => ps,
            Err(e) => {
                return Err(e);
            },
        };
        match self.expect(TokenType::RightParen) {
            Err(e) => {
                return Err(e);
            },
            Ok(_) => {},
        }
        match self.expect(TokenType::Colon) {
            Err(e) => {
                return Err(e);
            },
            Ok(_) => {},
        }
        let return_type = match &self.current_token.token_type {
            TokenType::Identifier(t) => t.clone(),
            _ => {
                return Err(ParseError::ExpectedReturnType);
            },
        };
        self.advance();
        match self.expect(TokenType::LeftBrace) {
            Err(e) => {
                return Err(e);
            },
            Ok(_) => {},
        }
        let body = match self.parse_block(Ghost(fuel)) {
            Ok(b) => b,
            Err(e) => {
                return Err(e);
            },
        };
        match self.expect(TokenType::RightBrace) {
            Err(e) => {
                return Err(e);
            },
            Ok(_) => {},
        }
        let r = ASTNode::Endpoint {
            path,
            method,
            params,
            return_type,
            body: Box::new(body),
        };
        proof {
            assert(r@ matches AstModel::Endpoint { params: p2, .. } && p2 =~= params_view(
                params@,
            ));
        }
        Ok(r)
    }

    #[verifier::loop_isolation(false)]
    #[verifier::rlimit(60)]
    fn parse_params(&mut self, Ghost(fuel): Ghost<nat>) -> (r: Result<Vec<Parameter>, ParseError>)
        requires
            old(self).wf(),
            fuel >= old(self)@.lex.input.len() + 1 - old(self)@.lex.pos,
        ensures
            final(self).wf(),
            final(self)@.lex.input == old(self)@.lex.input,
            final(self)@.lex.pos >= old(self)@.lex.pos,
            match spec_parse_params(old(self)@, Seq::empty(), fuel) {
                Ok(p) => r matches Ok(ps) && params_view(ps@) == p.0 && final(self)@ == p.1,
                Err(e) => r matches Err(pe) && pe@ == e,
            },
    {
        let ghost st0 = self@;
        let mut params: Vec<Parameter> = Vec::new();
        let ghost mut f: nat = fuel;
        proof {
            assert(params_view(params@) =~= Seq::<ParamModel>::empty());
        }
        let mut done = false;
        while !done && self.tok_is_identifier()
            invariant
                self.wf(),
                self@.lex.input == st0.lex.input,
                self@.lex.pos >= st0.lex.pos,
                f >= self@.lex.input.len() + 1 - self@.lex.pos,
                spec_parse_params(self@, params_view(params@), f) == spec_parse_params(
                    st0,
                    Seq::empty(),
                    fuel,
                ),
                done ==> self@.tok.kind is RightParen,
            decreases f, (if done { 0int } else { 1int }),
        {
            let ghost pre_acc = params_view(params@);
            let pname = match &self.current_token.token_type {
                TokenType::Identifier(n) => n.clone(),
                _ => {
                    proof {
                        assert(false);
                    }
                    vstd::pervasive::unreached()
                },
            };
            proof {
                assert(f >= 1);
            }
            self.advance();
            match self.expect(TokenType::Colon) {
                Err(e) => {
                    return Err(e);
                },
                Ok(_) => {},
            }
            let ptype = match &self.current_token.token_type {
                TokenType::Identifier(t) => t.clone(),
                _ => {
                    return Err(ParseError::ExpectedParameterType);
                },
            };
            self.advance();
            params.push(Parameter { name: pname, param_type: ptype });
            proof {
                assert(params_view(params@) =~= pre_acc.push(
                    ParamModel { name: pname@, param_type: ptype@ },
                ));
                f = (f - 1) as nat;
            }
            match &self.current_token.token_type {
                TokenType::RightParen => {
                    done = true;
                },
                _ => {},
            }
        }
        Ok(params)
    }

    #[verifier::loop_isolation(false)]
    #[verifier::rlimit(60)]
    fn parse_block(&mut self, Ghost(fuel): Ghost<nat>) -> (r: Result<ASTNode, ParseError>)
        requires
            old(self).wf(),
            fuel >= old(self)@.lex.input.len() + 1 - old(self)@.lex.pos,
        ensures
            final(self).wf(),
            final(self)@.lex.input == old(self)@.lex.input,
            final(self)@.lex.pos >= old(self)@.lex.pos,
            match spec_parse_block(old(self)@, Seq::empty(), fuel) {
                Ok(p) => r matches Ok(b) && b@ == p.0 && final(self)@ == p.1,
                Err(e) => r matches Err(pe) && pe@ == e,
            },
    {
        let ghost st0 = self@;
        let mut statements: Vec<ASTNode> = Vec::new();
        let ghost mut f: nat = fuel;
        proof {
            assert(nodes_view(statements@) =~= Seq::<AstModel>::empty());
        }
        while self.tok_is_return()
            invariant
                self.wf(),
                self@.lex.input == st0.lex.input,
                self@.lex.pos >= st0.lex.pos,
                f >= self@.lex.input.len() + 1 - self@.lex.pos,
                spec_parse_block(self@, nodes_view(statements@), f) == spec_parse_block(
                    st0,
                    Seq::empty(),
                    fuel,
                ),
            decreases f,
        {
            proof {
                assert(f >= 1);
            }
            let ghost pre_acc = nodes_view(statements@);
            let stmt = match self.parse_return_statement() {
                Ok(s) => s,
                Err(e) => {
                    return Err(e);
                },
            };
            statements.push(stmt);
            proof {
                assert(nodes_view(statements@) =~= pre_acc.push(stmt@));
                f = (f - 1) as nat;
            }
        }
        let r = ASTNode::Block { statements };
        proof {
            assert(r@ matches AstModel::Block { statements: s2 } && s2 =~= nodes_view(
                statements@,
            ));
        }
        Ok(r)
    }

    fn parse_return_statement(&mut self) -> (r: Result<ASTNode, ParseError>)
        requires
            old(self).wf(),
        ensures
            final(self).wf(),
            final(self)@.lex.input == old(self)@.lex.input,
            final(self)@.lex.pos >= old(self)@.lex.pos,
            match spec_parse_return(old(self)@) {
                Ok(p) => r matches Ok(n) && n@ == p.0 && final(self)@ == p.1
                    && final(self)@.lex.pos > old(self)@.lex.pos,
                Err(e) => r matches Err(pe) && pe@ == e,
            },
    {
        match self.expect(TokenType::Return) {
            Err(e) => {
                return Err(e);
            },
            Ok(_) => {},
        }
        let expression = match &self.current_token.token_type {
            TokenType::StringLiteral(s) => ASTNode::StringLiteral { value: s.clone() },
            TokenType::Identifier(n) => ASTNode::Identifier { name: n.clone() },
            _ => {
                return Err(ParseError::ExpectedExpression);
            },
        };
        self.advance();
        match self.expect(TokenType::Semicolon) {
            Err(e) => {
                return Err(e);
            },
            Ok(_) => {},
        }
        let node = ASTNode::ReturnStatement { expression: Box::new(expression) };
        proof {
            assert(node@ == AstModel::ReturnStatement { expression: Box::new(expression@) });
        }
        Ok(node)
    }
}

} // verus!
