use vstd::prelude::*;
use vstd::string::StringExecFns;
use crate::parser::{ast_view, params_view, ASTNode, AstModel, ParamModel, Parameter};
use crate::text::chars_of;
use crate::text::string_from_chars;

verus! {

broadcast use vstd::std_specs::vec::group_vec_axioms;

/// The response envelope: a success carries a `data` value — a string, a
/// field map, or a list of paths — and a failure carries an `error` string.
/// Never both, never neither.
#[derive(Debug, PartialEq)]
pub enum Response {
    Text(String),
    Object(Vec<(String, String)>),
    List(Vec<String>),
    Error(String),
}

/// Mathematical model of a response.
#[verifier::ext_equal]
pub enum RespModel {
    Text(Seq<char>),
    Object(Seq<(Seq<char>, Seq<char>)>),
    List(Seq<Seq<char>>),
    Error(Seq<char>),
}

/// The models of a list of string pairs.
pub open spec fn pairs_view(v: Seq<(String, String)>) -> Seq<(Seq<char>, Seq<char>)> {
    Seq::new(v.len(), |i: int| (v[i].0@, v[i].1@))
}

/// The models of a list of strings.
pub open spec fn strings_view(v: Seq<String>) -> Seq<Seq<char>> {
    Seq::new(v.len(), |i: int| v[i]@)
}

impl View for Response {
    type V = RespModel;

    open spec fn view(&self) -> RespModel {
        match self {
            Response::Text(s) => RespModel::Text(s@),
            Response::Object(fields) => RespModel::Object(pairs_view(fields@)),
            Response::List(items) => RespModel::List(strings_view(items@)),
            Response::Error(s) => RespModel::Error(s@),
        }
    }
}

/// What a registered route does when a request hits it.
#[derive(Debug)]
pub enum Action {
    /// A `get` endpoint: evaluate the body's first return statement against
    /// the request's query parameters.
    Evaluate { params: Vec<Parameter>, body: ASTNode },
    /// A `post`, `put` or `delete` endpoint: a fixed "not implemented"
    /// payload, deliberately — the body is ignored.
    NotImplemented,
    /// An endpoint with any other method: a fixed "not supported" payload,
    /// registered under `get`.
    Unsupported,
    /// The synthesized health check.
    Health,
    /// The fixed build metadata route.
    Info,
    /// The route listing every registered path.
    Routes,
}

/// Mathematical model of an action.
#[verifier::ext_equal]
pub enum ActionModel {
    Evaluate { params: Seq<ParamModel>, body: AstModel },
    NotImplemented,
    Unsupported,
    Health,
    Info,
    Routes,
}

impl View for Action {
    type V = ActionModel;

    open spec fn view(&self) -> ActionModel {
        match self {
            Action::Evaluate { params, body } => ActionModel::Evaluate {
                params: params_view(params@),
                body: ast_view(*body),
            },
            Action::NotImplemented => ActionModel::NotImplemented,
            Action::Unsupported => ActionModel::Unsupported,
            Action::Health => ActionModel::Health,
            Action::Info => ActionModel::Info,
            Action::Routes => ActionModel::Routes,
        }
    }
}

/// One row of the routing table: requests matching the method and the exact
/// path are answered by the action. Built once, read-only afterwards.
#[derive(Debug)]
pub struct RouteRule {
    pub method: String,
    pub path: String,
    pub action: Action,
}

/// Mathematical model of a route.
#[verifier::ext_equal]
pub struct RouteModel {
    pub method: Seq<char>,
    pub path: Seq<char>,
    pub action: ActionModel,
}

impl View for RouteRule {
    type V = RouteModel;

    open spec fn view(&self) -> RouteModel {
        RouteModel { method: self.method@, path: self.path@, action: self.action@ }
    }
}

/// The models of a routing table.
pub open spec fn table_view(t: Seq<RouteRule>) -> Seq<RouteModel> {
    Seq::new(t.len(), |i: int| t[i]@)
}

/// The models of a query-parameter list.
pub open spec fn query_view(q: Seq<(String, String)>) -> Seq<(Seq<char>, Seq<char>)> {
    Seq::new(q.len(), |i: int| (q[i].0@, q[i].1@))
}

/// The routes one endpoint contributes: a `get` endpoint carries its
/// parameters and body; `post`, `put` and `delete` are registered but not
/// implemented; any other method is registered under `get` as unsupported.
/// A node that is not an endpoint contributes nothing.
pub open spec fn spec_route_of(e: AstModel) -> Seq<RouteModel> {
    match e {
        AstModel::Endpoint { path, method, params, body, .. } => {
            if method == "get"@ {
                seq![RouteModel { method, path, action: ActionModel::Evaluate { params, body: *body } }]
            } else if method == "post"@ || method == "put"@ || method == "delete"@ {
                seq![RouteModel { method, path, action: ActionModel::NotImplemented }]
            } else {
                seq![RouteModel { method: "get"@, path, action: ActionModel::Unsupported }]
            }
        },
        _ => Seq::empty(),
    }
}

/// The routes of a list of endpoints, in declaration order.
pub open spec fn spec_user_routes(eps: Seq<AstModel>, acc: Seq<RouteModel>) -> Seq<RouteModel>
    decreases eps.len(),
{
    if eps.len() == 0 {
        acc
    } else {
        spec_user_routes(eps.drop_first(), acc + spec_route_of(eps[0]))
    }
}

/// Whether some endpoint declares the path `/health`, whatever its method.
pub open spec fn spec_has_health(eps: Seq<AstModel>) -> bool {
    exists|i: int|
        0 <= i < eps.len() && (#[trigger] eps[i] matches AstModel::Endpoint { path, .. } && path
            == "/health"@)
}

pub open spec fn spec_health_route() -> RouteModel {
    RouteModel { method: "get"@, path: "/health"@, action: ActionModel::Health }
}

pub open spec fn spec_info_route() -> RouteModel {
    RouteModel { method: "get"@, path: "/system/info"@, action: ActionModel::Info }
}

pub open spec fn spec_routes_route() -> RouteModel {
    RouteModel { method: "get"@, path: "/system/routes"@, action: ActionModel::Routes }
}

/// The whole routing table of a service: its endpoints' routes in
/// declaration order; a synthesized health check when no endpoint declares
/// `/health`; and the two fixed introspection routes, always.
pub open spec fn spec_build_routes(ast: AstModel) -> Seq<RouteModel> {
    let user = match ast {
        AstModel::Service { endpoints, .. } => spec_user_routes(endpoints, Seq::empty()),
        _ => Seq::empty(),
    };
    let has_health = match ast {
        AstModel::Service { endpoints, .. } => spec_has_health(endpoints),
        _ => false,
    };
    let with_health = if has_health {
        user
    } else {
        user.push(spec_health_route())
    };
    with_health.push(spec_info_route()).push(spec_routes_route())
}

/// The first route matching the method and the exact path, if any.
pub open spec fn spec_lookup(table: Seq<RouteModel>, method: Seq<char>, path: Seq<char>) -> Option<
    RouteModel,
>
    decreases table.len(),
{
    if table.len() == 0 {
        None
    } else if table[0].method == method && table[0].path == path {
        Some(table[0])
    } else {
        spec_lookup(table.drop_first(), method, path)
    }
}

/// The value of the first query parameter with the given name, if any.
pub open spec fn spec_query_get(q: Seq<(Seq<char>, Seq<char>)>, name: Seq<char>) -> Option<
    Seq<char>,
>
    decreases q.len(),
{
    if q.len() == 0 {
        None
    } else if q[0].0 == name {
        Some(q[0].1)
    } else {
        spec_query_get(q.drop_first(), name)
    }
}

/// The placeholder a parameter stands for inside a template: `\(name)`.
pub open spec fn spec_pattern(name: Seq<char>) -> Seq<char> {
    seq!['\\', '('] + name + seq![')']
}

/// Every non-overlapping occurrence of `pat` in `s` replaced by `rep`,
/// scanning left to right. An empty pattern replaces nothing.
pub open spec fn spec_replace(s: Seq<char>, pat: Seq<char>, rep: Seq<char>) -> Seq<char>
    decreases s.len(),
{
    if pat.len() == 0 || s.len() < pat.len() {
        s
    } else if s.subrange(0, pat.len() as int) == pat {
        rep + spec_replace(s.subrange(pat.len() as int, s.len() as int), pat, rep)
    } else {
        seq![s[0]] + spec_replace(s.drop_first(), pat, rep)
    }
}

/// Template substitution, all-or-nothing: each declared parameter in order
/// must have a query value, which replaces every `\(name)` occurrence; the
/// first parameter without a value fails the whole request with its name.
pub open spec fn spec_substitute(
    text: Seq<char>,
    params: Seq<ParamModel>,
    q: Seq<(Seq<char>, Seq<char>)>,
) -> Result<Seq<char>, Seq<char>>
    decreases params.len(),
{
    if params.len() == 0 {
        Ok(text)
    } else {
        match spec_query_get(q, params[0].name) {
            Some(v) => spec_substitute(
                spec_replace(text, spec_pattern(params[0].name), v),
                params.drop_first(),
                q,
            ),
            None => Err(params[0].name),
        }
    }
}

/// What a `get` endpoint answers: only the body's first statement counts;
/// it must be a return of a string literal (template substitution) or of a
/// bare identifier (the query value of that name, never a variable). Every
/// malformed shape is a local error payload, never a fault.
pub open spec fn spec_eval_get(
    params: Seq<ParamModel>,
    body: AstModel,
    q: Seq<(Seq<char>, Seq<char>)>,
) -> RespModel {
    match body {
        AstModel::Block { statements } => {
            if statements.len() > 0 && statements[0] is ReturnStatement {
                match *statements[0]->ReturnStatement_expression {
                    AstModel::StringLiteral { value } => match spec_substitute(value, params, q) {
                        Ok(t) => RespModel::Text(t),
                        Err(n) => RespModel::Error("Missing required parameter: "@ + n),
                    },
                    AstModel::Identifier { name } => match spec_query_get(q, name) {
                        Some(v) => RespModel::Text(v),
                        None => RespModel::Error(
                            "Identifier '"@ + name + "' not found in query parameters"@,
                        ),
                    },
                    _ => RespModel::Error("Invalid return type for dynamic processing"@),
                }
            } else {
                RespModel::Error("No return statement in endpoint body"@)
            }
        },
        _ => RespModel::Error("Invalid endpoint body structure"@),
    }
}

/// The fixed payload of an unimplemented method.
pub open spec fn spec_not_implemented_msg(method: Seq<char>) -> Seq<char> {
    if method == "post"@ {
        "POST not implemented for this method"@
    } else if method == "put"@ {
        "PUT not implemented for this method"@
    } else {
        "DELETE not implemented for this method"@
    }
}

/// Every registered path, in table order.
pub open spec fn spec_paths(table: Seq<RouteModel>) -> Seq<Seq<char>> {
    Seq::new(table.len(), |i: int| table[i].path)
}

/// The build metadata the info route reports.
pub open spec fn spec_info_fields() -> Seq<(Seq<char>, Seq<char>)> {
    seq![
        ("name"@, "aether"@),
        ("version"@, "0.1.0"@),
        ("authors"@, ""@),
        ("description"@, ""@),
    ]
}

/// One request against a table: an exact (method, path) match answers by
/// its action; no match answers the generic error payload. `now` is the
/// timestamp the health payload carries.
pub open spec fn spec_dispatch(
    table: Seq<RouteModel>,
    method: Seq<char>,
    path: Seq<char>,
    q: Seq<(Seq<char>, Seq<char>)>,
    now: Seq<char>,
) -> RespModel {
    match spec_lookup(table, method, path) {
        None => RespModel::Error("Not found"@),
        Some(r) => match r.action {
            ActionModel::Evaluate { params, body } => spec_eval_get(params, body, q),
            ActionModel::NotImplemented => RespModel::Error(spec_not_implemented_msg(r.method)),
            ActionModel::Unsupported => RespModel::Error("Method not supported"@),
            ActionModel::Health => RespModel::Object(
                seq![("status"@, "operational"@), ("timestamp"@, now)],
            ),
            ActionModel::Info => RespModel::Object(spec_info_fields()),
            ActionModel::Routes => RespModel::List(spec_paths(table)),
        },
    }
}


/// A copy of a parameter list whose model is the same.
fn duplicate_params(params: &Vec<Parameter>) -> (r: Vec<Parameter>)
    ensures
        params_view(r@) == params_view(params@),
{
    let mut r: Vec<Parameter> = Vec::new();
    let mut i: usize = 0;
    while i < params.len()
        invariant
            i <= params@.len(),
            r@.len() == i,
            forall|j: int| 0 <= j < i ==> r@[j]@ == params@[j]@,
        decreases params@.len() - i,
    {
        r.push(Parameter {
            name: params[i].name.clone(),
            param_type: params[i].param_type.clone(),
        });
        i = i + 1;
    }
    proof {
        assert(params_view(r@) =~= params_view(params@));
    }
    r
}

/// Extending the list of endpoints already registered extends what
/// `spec_has_health` sees by exactly the new endpoint's path.
proof fn lemma_has_health_step(eps: Seq<AstModel>, i: int)
    requires
        0 <= i < eps.len(),
    ensures
        spec_has_health(eps.take(i + 1)) == (spec_has_health(eps.take(i)) || (eps[i]
            matches AstModel::Endpoint { path, .. } && path == "/health"@)),
{
    let a = eps.take(i);
    let b = eps.take(i + 1);
    assert(forall|j: int| 0 <= j < i ==> a[j] == eps[j]);
    assert(forall|j: int| 0 <= j <= i ==> b[j] == eps[j]);
    if spec_has_health(b) {
        let j = choose|j: int|
            0 <= j < b.len() && (#[trigger] b[j] matches AstModel::Endpoint { path, .. } && path
                == "/health"@);
        if j < i {
            assert(a[j] == b[j]);
            assert(spec_has_health(a));
        } else {
            assert(b[j] == eps[i]);
        }
    }
    if spec_has_health(a) {
        let j = choose|j: int|
            0 <= j < a.len() && (#[trigger] a[j] matches AstModel::Endpoint { path, .. } && path
                == "/health"@);
        assert(b[j] == a[j]);
        assert(spec_has_health(b));
    }
    if (eps[i] matches AstModel::Endpoint { path, .. } && path == "/health"@) {
        assert(b[i] == eps[i]);
        assert(spec_has_health(b));
    }
}

/// The routing table of a syntax tree, built in one pass over the
/// endpoints, then completed with the synthesized routes.
#[verifier::loop_isolation(false)]
pub fn build_routes(ast: &ASTNode) -> (t: Vec<RouteRule>)
    ensures
        table_view(t@) == spec_build_routes(ast@),
{
    let mut table: Vec<RouteRule> = Vec::new();
    let mut has_health = false;
    proof {
        assert(table_view(table@) =~= Seq::<RouteModel>::empty());
    }
    match ast {
        ASTNode::Service { endpoints, .. } => {
            let ghost eps = ast@->Service_endpoints;
            let mut i: usize = 0;
            proof {
                assert(eps.take(0) =~= Seq::<AstModel>::empty());
                assert(eps.skip(0) =~= eps);
            }
            while i < endpoints.len()
                invariant
                    i <= endpoints@.len(),
                    eps.len() == endpoints@.len(),
                    forall|j: int| 0 <= j < eps.len() ==> eps[j] == ast_view(endpoints@[j]),
                    spec_user_routes(eps.skip(i as int), table_view(table@)) == spec_user_routes(
                        eps,
                        Seq::empty(),
                    ),
                    has_health == spec_has_health(eps.take(i as int)),
                decreases endpoints@.len() - i,
            {
                let ghost pre_table = table_view(table@);
                let ep = &endpoints[i];
                proof {
                    assert(eps.skip(i as int)[0] == eps[i as int]);
                    assert(eps.skip(i as int).drop_first() =~= eps.skip(i as int + 1));
                    lemma_has_health_step(eps, i as int);
                }
                match ep {
                    ASTNode::Endpoint { path, method, params, body, .. } => {
                        if path.eq(&String::from_str("/health")) {
                            has_health = true;
                        }
                        let rule = if method.eq(&String::from_str("get")) {
                            RouteRule {
                                method: method.clone(),
                                path: path.clone(),
                                action: Action::Evaluate {
                                    params: duplicate_params(params),
                                    body: body.duplicate(),
                                },
                            }
                        } else if method.eq(&String::from_str("post")) || method.eq(
                            &String::from_str("put"),
                        ) || method.eq(&String::from_str("delete")) {
                            RouteRule {
                                method: method.clone(),
                                path: path.clone(),
                                action: Action::NotImplemented,
                            }
                        } else {
                            RouteRule {
                                method: String::from_str("get"),
                                path: path.clone(),
                                action: Action::Unsupported,
                            }
                        };
                        proof {
                            assert(seq![rule@] =~~= spec_route_of(eps[i as int]));
                        }
                        table.push(rule);
                        proof {
                            assert(table_view(table@) =~= pre_table + spec_route_of(
                                eps[i as int],
                            ));
                        }
                    },
                    _ => {
                        proof {
                            assert(spec_route_of(eps[i as int]) =~= Seq::<RouteModel>::empty());
                            assert(table_view(table@) =~= pre_table + spec_route_of(
                                eps[i as int],
                            ));
                        }
                    },
                }
                i = i + 1;
            }
            proof {
                assert(eps.skip(endpoints@.len() as int) =~= Seq::<AstModel>::empty());
                assert(eps.take(endpoints@.len() as int) =~= eps);
            }
        },
        _ => {},
    }
    if !has_health {
        let ghost pre = table_view(table@);
        table.push(
            RouteRule {
                method: String::from_str("get"),
                path: String::from_str("/health"),
                action: Action::Health,
            },
        );
        proof {
            assert(table_view(table@) =~= pre.push(spec_health_route()));
        }
    }
    let ghost pre2 = table_view(table@);
    table.push(
        RouteRule {
            method: String::from_str("get"),
            path: String::from_str("/system/info"),
            action: Action::Info,
        },
    );
    proof {
        assert(table_view(table@) =~= pre2.push(spec_info_route()));
    }
    let ghost pre3 = table_view(table@);
    table.push(
        RouteRule {
            method: String::from_str("get"),
            path: String::from_str("/system/routes"),
            action: Action::Routes,
        },
    );
    proof {
        assert(table_view(table@) =~= pre3.push(spec_routes_route()));
    }
    table
}

/// The value of the first query parameter with the given name.
fn query_get(query: &Vec<(String, String)>, name: &String) -> (r: Option<String>)
    ensures
        match r {
            Some(v) => spec_query_get(query_view(query@), name@) == Some(v@),
            None => spec_query_get(query_view(query@), name@) is None,
        },
{
    let ghost qv = query_view(query@);
    let mut i: usize = 0;
    proof {
        assert(qv.skip(0) =~= qv);
    }
    while i < query.len()
        invariant
            i <= query@.len(),
            qv == query_view(query@),
            qv.len() == query@.len(),
            spec_query_get(qv.skip(i as int), name@) == spec_query_get(qv, name@),
        decreases query@.len() - i,
    {
        proof {
            assert(qv.skip(i as int)[0] == qv[i as int]);
            assert(qv.skip(i as int).drop_first() =~= qv.skip(i as int + 1));
        }
        if query[i].0.eq(name) {
            return Some(query[i].1.clone());
        }
        i = i + 1;
    }
    proof {
        assert(qv.skip(query@.len() as int) =~= Seq::<(Seq<char>, Seq<char>)>::empty());
    }
    None
}

/// Whether `pat` occurs in `s` starting at `i`.
fn chars_match(s: &Vec<char>, i: usize, pat: &Vec<char>) -> (b: bool)
    requires
        i + pat@.len() <= s@.len(),
    ensures
        b == (s@.subrange(i as int, i as int + pat@.len() as int) == pat@),
{
    let mut j: usize = 0;
    while j < pat.len()
        invariant
            j <= pat@.len(),
            i + pat@.len() <= s@.len(),
            forall|k: int| 0 <= k < j ==> s@[i as int + k] == pat@[k],
        decreases pat@.len() - j,
    {
        let sl = s.len();
        proof {
            assert(i + j < sl);
        }
        if s[i + j] != pat[j] {
            proof {
                assert(s@.subrange(i as int, i as int + pat@.len() as int)[j as int] != pat@[
                    j as int
                ]);
            }
            return false;
        }
        j = j + 1;
    }
    proof {
        assert(s@.subrange(i as int, i as int + pat@.len() as int) =~= pat@);
    }
    true
}

/// Every non-overlapping occurrence of `pat` in `s` replaced by `rep`,
/// left to right, as `spec_replace` states it.
#[verifier::loop_isolation(false)]
fn replace_chars(s: &Vec<char>, pat: &Vec<char>, rep: &Vec<char>) -> (r: Vec<char>)
    ensures
        r@ == spec_replace(s@, pat@, rep@),
{
    let mut out: Vec<char> = Vec::new();
    if pat.len() == 0 {
        let mut i: usize = 0;
        while i < s.len()
            invariant
                i <= s@.len(),
                out@ == s@.take(i as int),
            decreases s@.len() - i,
        {
            out.push(s[i]);
            proof {
                assert(out@ =~= s@.take(i as int + 1));
            }
            i = i + 1;
        }
        proof {
            assert(out@ =~= s@);
        }
        return out;
    }
    let mut i: usize = 0;
    proof {
        assert(s@.skip(0) =~= s@);
    }
    while i < s.len() && pat.len() <= s.len() - i
        invariant
            i <= s@.len(),
            spec_replace(s@, pat@, rep@) == out@ + spec_replace(s@.skip(i as int), pat@, rep@),
        decreases s@.len() - i,
    {
        let ghost rem = s@.skip(i as int);
        if chars_match(s, i, pat) {
            proof {
                assert(rem.subrange(0, pat@.len() as int) =~= s@.subrange(
                    i as int,
                    i as int + pat@.len() as int,
                ));
                assert(rem.subrange(pat@.len() as int, rem.len() as int) =~= s@.skip(
                    i as int + pat@.len() as int,
                ));
            }
            let ghost pre_out = out@;
            let mut j: usize = 0;
            while j < rep.len()
                invariant
                    j <= rep@.len(),
                    out@ == pre_out + rep@.take(j as int),
                decreases rep@.len() - j,
            {
                out.push(rep[j]);
                proof {
                    assert(out@ =~= pre_out + rep@.take(j as int + 1));
                }
                j = j + 1;
            }
            proof {
                assert(out@ =~= pre_out + rep@);
                assert(out@ + spec_replace(s@.skip(i as int + pat@.len() as int), pat@, rep@)
                    =~= pre_out + (rep@ + spec_replace(
                    s@.skip(i as int + pat@.len() as int),
                    pat@,
                    rep@,
                )));
            }
            i = i + pat.len();
        } else {
            proof {
                assert(rem.subrange(0, pat@.len() as int) =~= s@.subrange(
                    i as int,
                    i as int + pat@.len() as int,
                ));
                assert(rem[0] == s@[i as int]);
                assert(rem.drop_first() =~= s@.skip(i as int + 1));
            }
            let ghost pre_out = out@;
            out.push(s[i]);
            proof {
                assert(out@ =~= pre_out + seq![s@[i as int]]);
                assert(out@ + spec_replace(s@.skip(i as int + 1), pat@, rep@) =~= pre_out + (
                seq![s@[i as int]] + spec_replace(s@.skip(i as int + 1), pat@, rep@)));
            }
            i = i + 1;
        }
    }
    // What is left is shorter than the pattern and is kept as it stands.
    proof {
        assert(spec_replace(s@.skip(i as int), pat@, rep@) == s@.skip(i as int));
    }
    let ghost tail_start = i;
    while i < s.len()
        invariant
            tail_start <= i <= s@.len(),
            out@ + s@.skip(i as int) == out@ + s@.skip(tail_start as int).skip(
                i - tail_start as int,
            ),
            spec_replace(s@, pat@, rep@) == out@ + s@.skip(i as int),
        decreases s@.len() - i,
    {
        let ghost pre_out = out@;
        out.push(s[i]);
        proof {
            assert(pre_out + s@.skip(i as int) =~= out@ + s@.skip(i as int + 1));
        }
        i = i + 1;
    }
    proof {
        assert(s@.skip(s@.len() as int) =~= Seq::<char>::empty());
        assert(out@ + Seq::<char>::empty() =~= out@);
    }
    out
}

/// The `\(name)` placeholder of a parameter, as characters.
fn build_pattern(name: &String) -> (r: Vec<char>)
    ensures
        r@ == spec_pattern(name@),
{
    let mut v: Vec<char> = Vec::new();
    v.push('\\');
    v.push('(');
    let nc = chars_of(name.as_str());
    let mut j: usize = 0;
    while j < nc.len()
        invariant
            j <= nc@.len(),
            nc@ == name@,
            v@ == seq!['\\', '('] + name@.take(j as int),
        decreases nc@.len() - j,
    {
        v.push(nc[j]);
        proof {
            assert(v@ =~= seq!['\\', '('] + name@.take(j as int + 1));
        }
        j = j + 1;
    }
    v.push(')');
    proof {
        assert(v@ =~= spec_pattern(name@));
    }
    v
}

/// Template substitution over the declared parameters, in order,
/// all-or-nothing: the first parameter without a query value fails the
/// request, naming the parameter.
#[verifier::loop_isolation(false)]
fn substitute(value: &String, params: &Vec<Parameter>, query: &Vec<(String, String)>) -> (r:
    Response)
    ensures
        r@ == (match spec_substitute(value@, params_view(params@), query_view(query@)) {
            Ok(t) => RespModel::Text(t),
            Err(n) => RespModel::Error("Missing required parameter: "@ + n),
        }),
{
    let ghost pv = params_view(params@);
    let ghost qv = query_view(query@);
    let mut cur: Vec<char> = chars_of(value.as_str());
    let mut i: usize = 0;
    proof {
        assert(pv.skip(0) =~= pv);
    }
    while i < params.len()
        invariant
            i <= params@.len(),
            spec_substitute(cur@, pv.skip(i as int), qv) == spec_substitute(value@, pv, qv),
        decreases params@.len() - i,
    {
        proof {
            assert(pv.skip(i as int)[0] == pv[i as int]);
            assert(pv.skip(i as int).drop_first() =~= pv.skip(i as int + 1));
        }
        let p = &params[i];
        match query_get(query, &p.name) {
            Some(v) => {
                let pat = build_pattern(&p.name);
                let repv = chars_of(v.as_str());
                cur = replace_chars(&cur, &pat, &repv);
            },
            None => {
                let mut msg = String::from_str("Missing required parameter: ");
                msg.append(p.name.as_str());
                return Response::Error(msg);
            },
        }
        i = i + 1;
    }
    proof {
        assert(pv.skip(params@.len() as int) =~= Seq::<ParamModel>::empty());
    }
    Response::Text(string_from_chars(&cur))
}

/// What a `get` endpoint answers for one request: the body's first return
/// statement, evaluated against the query parameters.
pub fn eval_get(params: &Vec<Parameter>, body: &ASTNode, query: &Vec<(String, String)>) -> (r:
    Response)
    ensures
        r@ == spec_eval_get(params_view(params@), body@, query_view(query@)),
{
    match body {
        ASTNode::Block { statements } => {
            if statements.len() > 0 {
                proof {
                    assert(body@->Block_statements[0] == ast_view(statements@[0]));
                }
                match &statements[0] {
                    ASTNode::ReturnStatement { expression } => {
                        proof {
                            assert(ast_view(statements@[0]) == AstModel::ReturnStatement {
                                expression: Box::new(ast_view(*(*expression))),
                            });
                        }
                        match &**expression {
                            ASTNode::StringLiteral { value } => substitute(value, params, query),
                            ASTNode::Identifier { name } => match query_get(query, name) {
                                Some(v) => Response::Text(v),
                                None => {
                                    let mut msg = String::from_str("Identifier '");
                                    msg.append(name.as_str());
                                    msg.append("' not found in query parameters");
                                    Response::Error(msg)
                                },
                            },
                            _ => Response::Error(
                                String::from_str("Invalid return type for dynamic processing"),
                            ),
                        }
                    },
                    _ => Response::Error(String::from_str("No return statement in endpoint body")),
                }
            } else {
                Response::Error(String::from_str("No return statement in endpoint body"))
            }
        },
        _ => Response::Error(String::from_str("Invalid endpoint body structure")),
    }
}

/// The fixed payload of an unimplemented method.
fn not_implemented_msg(method: &String) -> (r: String)
    ensures
        r@ == spec_not_implemented_msg(method@),
{
    if method.eq(&String::from_str("post")) {
        String::from_str("POST not implemented for this method")
    } else if method.eq(&String::from_str("put")) {
        String::from_str("PUT not implemented for this method")
    } else {
        String::from_str("DELETE not implemented for this method")
    }
}

/// Every registered path, in table order.
fn collect_paths(table: &Vec<RouteRule>) -> (r: Vec<String>)
    ensures
        strings_view(r@) == spec_paths(table_view(table@)),
{
    let mut r: Vec<String> = Vec::new();
    let mut i: usize = 0;
    while i < table.len()
        invariant
            i <= table@.len(),
            r@.len() == i,
            forall|j: int| 0 <= j < i ==> r@[j]@ == table@[j]@.path,
        decreases table@.len() - i,
    {
        r.push(table[i].path.clone());
        i = i + 1;
    }
    proof {
        assert(strings_view(r@) =~= spec_paths(table_view(table@)));
    }
    r
}

/// Serve one request against the table: an exact (method, path) match is
/// answered by its rule; anything else gets the generic error payload.
/// `now` is the timestamp the health payload carries; everything is a pure
/// function of the arguments.
#[verifier::loop_isolation(false)]
pub fn dispatch(
    table: &Vec<RouteRule>,
    method: &str,
    path: &str,
    query: &Vec<(String, String)>,
    now: &str,
) -> (r: Response)
    ensures
        r@ == spec_dispatch(table_view(table@), method@, path@, query_view(query@), now@),
{
    let ghost tv = table_view(table@);
    let m = method.to_owned();
    let p = path.to_owned();
    let mut i: usize = 0;
    proof {
        assert(tv.skip(0) =~= tv);
    }
    while i < table.len()
        invariant
            i <= table@.len(),
            spec_lookup(tv.skip(i as int), method@, path@) == spec_lookup(tv, method@, path@),
        decreases table@.len() - i,
    {
        proof {
            assert(tv.skip(i as int)[0] == tv[i as int]);
            assert(tv.skip(i as int).drop_first() =~= tv.skip(i as int + 1));
        }
        if table[i].method.eq(&m) && table[i].path.eq(&p) {
            let rule = &table[i];
            match &rule.action {
                Action::Evaluate { params, body } => {
                    return eval_get(params, body, query);
                },
                Action::NotImplemented => {
                    return Response::Error(not_implemented_msg(&rule.method));
                },
                Action::Unsupported => {
                    return Response::Error(String::from_str("Method not supported"));
                },
                Action::Health => {
                    let mut fields: Vec<(String, String)> = Vec::new();
                    fields.push((String::from_str("status"), String::from_str("operational")));
                    fields.push((String::from_str("timestamp"), now.to_owned()));
                    let r = Response::Object(fields);
                    proof {
                        assert(pairs_view(fields@) =~= seq![
                            ("status"@, "operational"@),
                            ("timestamp"@, now@),
                        ]);
                    }
                    return r;
                },
                Action::Info => {
                    let mut fields: Vec<(String, String)> = Vec::new();
                    fields.push((String::from_str("name"), String::from_str("aether")));
                    fields.push((String::from_str("version"), String::from_str("0.1.0")));
                    fields.push((String::from_str("authors"), String::new()));
                    fields.push((String::from_str("description"), String::new()));
                    let r = Response::Object(fields);
                    proof {
                        reveal_strlit("");
                        assert(""@ =~= Seq::<char>::empty());
                        assert(pairs_view(fields@) =~= spec_info_fields());
                    }
                    return r;
                },
                Action::Routes => {
                    return Response::List(collect_paths(table));
                },
            }
        }
        i = i + 1;
    }
    proof {
        assert(tv.skip(table@.len() as int) =~= Seq::<RouteModel>::empty());
    }
    Response::Error(String::from_str("Not found"))
}

/// Relies on chrono's `Utc::now` and `to_rfc3339`: the current UTC time in
/// RFC 3339 form. The value depends on the clock, so nothing is promised
/// of it.
#[verifier::external_body]
fn now_rfc3339() -> String {
    chrono::Utc::now().to_rfc3339()
}

/// Serve one request at the current time: the timestamp is read from the
/// clock once; the rest is `dispatch`, a pure function of its arguments.
pub fn respond(
    table: &Vec<RouteRule>,
    method: &str,
    path: &str,
    query: &Vec<(String, String)>,
) -> (r: Response)
    ensures
        exists|now: Seq<char>|
            r@ == spec_dispatch(table_view(table@), method@, path@, query_view(query@), now),
{
    let now = now_rfc3339();
    let r = dispatch(table, method, path, query, now.as_str());
    proof {
        assert(r@ == spec_dispatch(
            table_view(table@),
            method@,
            path@,
            query_view(query@),
            now@,
        ));
    }
    r
}

/// The runtime: the parsed tree and the port to serve it on. The tree is
/// immutable; the routing table is derived from it once.
pub struct Runtime {
    pub ast: ASTNode,
    pub port: u16,
}

impl Runtime {
    pub fn new(ast: ASTNode, port: u16) -> (r: Runtime)
        ensures
            r.ast == ast,
            r.port == port,
    {
        Runtime { ast, port }
    }

    /// The routing table of the held tree.
    pub fn routes(&self) -> (t: Vec<RouteRule>)
        ensures
            table_view(t@) == spec_build_routes(self.ast@),
    {
        build_routes(&self.ast)
    }
}


/// Building routes from endpoints distributes over the accumulator.
proof fn lemma_user_routes_acc(eps: Seq<AstModel>, acc: Seq<RouteModel>)
    ensures
        spec_user_routes(eps, acc) == acc + spec_user_routes(eps, Seq::empty()),
    decreases eps.len(),
{
    if eps.len() == 0 {
        assert(acc + spec_user_routes(eps, Seq::empty()) =~= acc);
    } else {
        let r0 = spec_route_of(eps[0]);
        let rest = eps.drop_first();
        lemma_user_routes_acc(rest, acc + r0);
        lemma_user_routes_acc(rest, Seq::empty() + r0);
        assert((acc + r0) + spec_user_routes(rest, Seq::empty()) =~= acc + ((Seq::empty() + r0)
            + spec_user_routes(rest, Seq::empty())));
    }
}

/// Looking a pair up in a concatenation: the left table wins when it
/// matches; otherwise the right table decides.
proof fn lemma_lookup_append(a: Seq<RouteModel>, b: Seq<RouteModel>, m: Seq<char>, p: Seq<char>)
    ensures
        spec_lookup(a + b, m, p) == (if spec_lookup(a, m, p) is Some {
            spec_lookup(a, m, p)
        } else {
            spec_lookup(b, m, p)
        }),
    decreases a.len(),
{
    if a.len() == 0 {
        assert(a + b =~= b);
    } else {
        assert((a + b)[0] == a[0]);
        if !(a[0].method == m && a[0].path == p) {
            assert((a + b).drop_first() =~= a.drop_first() + b);
            lemma_lookup_append(a.drop_first(), b, m, p);
        }
    }
}

/// When no endpoint declares a path, no route of theirs answers to it,
/// whatever the method: every route keeps its endpoint's path.
proof fn lemma_user_lookup_none(eps: Seq<AstModel>, m: Seq<char>, p: Seq<char>)
    requires
        forall|i: int|
            0 <= i < eps.len() ==> !(#[trigger] eps[i] matches AstModel::Endpoint { path, .. }
                && path == p),
    ensures
        spec_lookup(spec_user_routes(eps, Seq::empty()), m, p) is None,
    decreases eps.len(),
{
    if eps.len() > 0 {
        let r0 = spec_route_of(eps[0]);
        let rest = eps.drop_first();
        lemma_user_routes_acc(rest, Seq::empty() + r0);
        assert(spec_user_routes(eps, Seq::empty()) =~= r0 + spec_user_routes(
            rest,
            Seq::empty(),
        ));
        lemma_lookup_append(r0, spec_user_routes(rest, Seq::empty()), m, p);
        assert(!(eps[0] matches AstModel::Endpoint { path, .. } && path == p));
        match eps[0] {
            AstModel::Endpoint { path, .. } => {
                assert(r0.len() == 1 && r0[0].path == path);
                assert(path != p);
                assert(r0.drop_first() =~= Seq::<RouteModel>::empty());
                assert(spec_lookup(r0.drop_first(), m, p) is None);
                assert(spec_lookup(r0, m, p) is None);
            },
            _ => {
                assert(r0 =~= Seq::<RouteModel>::empty());
            },
        }
        assert(forall|i: int|
            0 <= i < rest.len() ==> !(#[trigger] rest[i] matches AstModel::Endpoint {
                path,
                ..
            } && path == p)) by {
            assert(forall|i: int| 0 <= i < rest.len() ==> rest[i] == eps[i + 1]);
        }
        lemma_user_lookup_none(rest, m, p);
    }
}

/// Among the routes the endpoints contribute, whatever answers to `post`
/// is an unimplemented-method rule.
proof fn lemma_user_lookup_post(eps: Seq<AstModel>, p: Seq<char>)
    ensures
        match spec_lookup(spec_user_routes(eps, Seq::empty()), "post"@, p) {
            Some(r) => r.action is NotImplemented && r.method == "post"@,
            None => true,
        },
    decreases eps.len(),
{
    reveal_strlit("get");
    reveal_strlit("post");
    if eps.len() > 0 {
        let r0 = spec_route_of(eps[0]);
        let rest = eps.drop_first();
        lemma_user_routes_acc(rest, Seq::empty() + r0);
        assert(spec_user_routes(eps, Seq::empty()) =~= r0 + spec_user_routes(
            rest,
            Seq::empty(),
        ));
        lemma_lookup_append(r0, spec_user_routes(rest, Seq::empty()), "post"@, p);
        match eps[0] {
            AstModel::Endpoint { method, .. } => {
                assert(r0.len() == 1);
                assert(r0.drop_first() =~= Seq::<RouteModel>::empty());
                assert(spec_lookup(r0.drop_first(), "post"@, p) is None);
                assert("get"@.len() != "post"@.len());
                if method == "get"@ {
                    assert(r0[0].method == "get"@);
                    assert(spec_lookup(r0, "post"@, p) is None);
                } else if method == "post"@ || method == "put"@ || method == "delete"@ {
                    assert(r0[0].action is NotImplemented);
                } else {
                    assert(r0[0].method == "get"@);
                    assert(spec_lookup(r0, "post"@, p) is None);
                }
            },
            _ => {
                assert(r0 =~= Seq::<RouteModel>::empty());
            },
        }
        lemma_user_lookup_post(rest, p);
    }
}

/// The three synthesized routes all answer to `get` alone.
proof fn lemma_synth_lookup_none(p: Seq<char>)
    ensures
        spec_lookup(
            seq![spec_health_route(), spec_info_route(), spec_routes_route()],
            "post"@,
            p,
        ) is None,
{
    reveal_strlit("get");
    reveal_strlit("post");
    let s = seq![spec_health_route(), spec_info_route(), spec_routes_route()];
    assert("get"@.len() != "post"@.len());
    let s1 = s.drop_first();
    let s2 = s1.drop_first();
    let s3 = s2.drop_first();
    assert(s1 =~= seq![spec_info_route(), spec_routes_route()]);
    assert(s2 =~= seq![spec_routes_route()]);
    assert(s3 =~= Seq::<RouteModel>::empty());
    assert(s[0].method == "get"@);
    assert(spec_lookup(s, "post"@, p) == spec_lookup(s1, "post"@, p));
    assert(s1[0].method == "get"@);
    assert(spec_lookup(s1, "post"@, p) == spec_lookup(s2, "post"@, p));
    assert(s2[0].method == "get"@);
    assert(spec_lookup(s2, "post"@, p) == spec_lookup(s3, "post"@, p));
    assert(spec_lookup(s3, "post"@, p) is None);
}

/// Law: when no endpoint declares the path `/health`, the table synthesizes
/// a health route, and `GET /health` always answers the fixed success
/// payload — a status field plus the given timestamp — whatever else the
/// service declares and whatever the query holds.
pub proof fn lemma_health_always_present(
    ast: AstModel,
    q: Seq<(Seq<char>, Seq<char>)>,
    now: Seq<char>,
)
    requires
        !(ast matches AstModel::Service { endpoints, .. } && spec_has_health(endpoints)),
    ensures
        spec_dispatch(spec_build_routes(ast), "get"@, "/health"@, q, now) == RespModel::Object(
            seq![("status"@, "operational"@), ("timestamp"@, now)],
        ),
{
    let user = match ast {
        AstModel::Service { endpoints, .. } => spec_user_routes(endpoints, Seq::empty()),
        _ => Seq::<RouteModel>::empty(),
    };
    let tail = seq![spec_health_route(), spec_info_route(), spec_routes_route()];
    let table = spec_build_routes(ast);
    assert(table =~= user + tail);
    match ast {
        AstModel::Service { endpoints, .. } => {
            assert(forall|i: int|
                0 <= i < endpoints.len() ==> !(#[trigger] endpoints[i]
                    matches AstModel::Endpoint { path, .. } && path == "/health"@));
            lemma_user_lookup_none(endpoints, "get"@, "/health"@);
        },
        _ => {},
    }
    lemma_lookup_append(user, tail, "get"@, "/health"@);
    assert(tail[0] == spec_health_route());
    assert(spec_lookup(table, "get"@, "/health"@) == Some(spec_health_route()));
}

/// Law: dispatching a registered `POST` path answers the fixed "not
/// implemented" payload — never a `GET` handler's computed response, even
/// when the same path is also registered for `GET`.
pub proof fn lemma_post_not_implemented(
    ast: AstModel,
    path: Seq<char>,
    q: Seq<(Seq<char>, Seq<char>)>,
    now: Seq<char>,
)
    requires
        spec_lookup(spec_build_routes(ast), "post"@, path) is Some,
    ensures
        spec_dispatch(spec_build_routes(ast), "post"@, path, q, now) == RespModel::Error(
            "POST not implemented for this method"@,
        ),
{
    reveal_strlit("get");
    reveal_strlit("post");
    let user = match ast {
        AstModel::Service { endpoints, .. } => spec_user_routes(endpoints, Seq::empty()),
        _ => Seq::<RouteModel>::empty(),
    };
    let tail = seq![spec_health_route(), spec_info_route(), spec_routes_route()];
    let table = spec_build_routes(ast);
    if ast matches AstModel::Service { endpoints, .. } && spec_has_health(endpoints) {
        assert(table =~= user + tail.drop_first());
        assert(spec_lookup(tail.drop_first(), "post"@, path) is None) by {
            lemma_synth_lookup_none(path);
        }
        lemma_lookup_append(user, tail.drop_first(), "post"@, path);
    } else {
        assert(table =~= user + tail);
        lemma_synth_lookup_none(path);
        lemma_lookup_append(user, tail, "post"@, path);
    }
    match ast {
        AstModel::Service { endpoints, .. } => {
            lemma_user_lookup_post(endpoints, path);
        },
        _ => {},
    }
}

/// Law: an unregistered (method, path) pair answers the generic error
/// payload — never a fatal outcome, never another rule's response.
pub proof fn lemma_unregistered_not_found(
    table: Seq<RouteModel>,
    method: Seq<char>,
    path: Seq<char>,
    q: Seq<(Seq<char>, Seq<char>)>,
    now: Seq<char>,
)
    requires
        spec_lookup(table, method, path) is None,
    ensures
        spec_dispatch(table, method, path, q, now) == RespModel::Error("Not found"@),
{
}

} // verus!
