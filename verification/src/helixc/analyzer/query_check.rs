//! Checks of queries: parameters, statements in order, and return values.
use vstd::prelude::*;
use crate::helixc::analyzer::checks::{check_identifier, check_variable, reserved_word};
use crate::helixc::analyzer::diagnostic::{Diagnostic, DiagnosticSeverity};
use crate::helixc::analyzer::error_codes::ErrorCode;
use crate::helixc::analyzer::infer::{expr_checked, expr_shape, infer_expr_type, shape_of};
use crate::helixc::analyzer::items::{extends, lemma_reported_with_extends, reported_with, lemma_extends_refl, lemma_extends_trans, lemma_reported_at, lemma_reported_extends, reported};
use crate::helixc::analyzer::schema::{is_node_type, node_declared};
use crate::helixc::analyzer::scope::{
    bind, codes, duplicate, in_query, in_scope, lookup, query_error, query_warning, scope_flat, scope_lookup, wrapped, wrapped2,
};
use crate::helixc::analyzer::types::{Type, flat_type};
use crate::helixc::location::Loc;
use crate::helixc::parser::ast::{
    BuiltInMacro, Expression, ExpressionType, FieldType, ForLoopVars, Query, Schema, StartNode, Statement, StatementType, StepType,
};
use crate::helixc::generator::return_values::ReturnType;
use crate::helixc::generator::utils::{GenRef, GeneratedValue};
use crate::utils::decimal::{i128_text, signed_numeral};
use crate::utils::text::owned;

verus! {

/// The type of one element of a collection of type `t`.
fn element_of(t: &Type) -> (r: Type)
    requires
        flat_type(*t),
    ensures
        flat_type(r),
        r == match *t {
            Type::Nodes(n) => Type::Node(n),
            Type::Edges(n) => Type::Edge(n),
            Type::Vectors(n) => Type::Vector(n),
            _ => Type::Unknown,
        },
{
    match t {
        Type::Nodes(n) => Type::Node(crate::helixc::analyzer::types::copy_name(n)),
        Type::Edges(n) => Type::Edge(crate::helixc::analyzer::types::copy_name(n)),
        Type::Vectors(n) => Type::Vector(crate::helixc::analyzer::types::copy_name(n)),
        _ => Type::Unknown,
    }
}

/// Whether a statement was checked in scope `scope`, from the diagnostics
/// `before` to `after`, leaving a loop's body aside: an assignment reports
/// its variable first (E302, with its message) exactly when the variable
/// is in scope, then has its value checked (see `expr_checked`); an
/// expression or a drop has its expression checked; a loop reports a
/// collection not in scope (E301).
pub open spec fn stmt_shallow_checked(
    s: Schema,
    q: Query,
    scope: Seq<(String, Type)>,
    st: Statement,
    before: Seq<Diagnostic>,
    after: Seq<Diagnostic>,
) -> bool {
    match st.statement {
        StatementType::Assignment(a) => exists|d: Seq<Diagnostic>, t: Type| {
            &&& extends(before, d)
            &&& if in_scope(scope, a.variable@) {
                d.len() == before.len() + 1 && d.last().error_code == ErrorCode::E302
                    && d.last().message@ == in_query(redeclared_message(a.variable@), q)
            } else {
                d == before
            }
            &&& #[trigger] expr_checked(s, q, scope, a.value, None, t, d, after)
        },
        StatementType::Expression(e) => exists|t: Type| #[trigger] expr_checked(s, q, scope, e, None, t, before, after),
        StatementType::Drop(e) => exists|t: Type| #[trigger] expr_checked(s, q, scope, e, None, t, before, after),
        StatementType::ForLoop(fl) => !in_scope(scope, fl.in_variable.1@) ==> after.len() > before.len()
            && after[before.len() as int].error_code == ErrorCode::E301,
    }
}

/// Whether a statement was checked as `stmt_shallow_checked` says, and for
/// a loop each statement of its body was checked so, in some scope, on a
/// stretch of the diagnostics.
pub open spec fn stmt_checked(
    s: Schema,
    q: Query,
    scope: Seq<(String, Type)>,
    st: Statement,
    before: Seq<Diagnostic>,
    after: Seq<Diagnostic>,
) -> bool {
    &&& stmt_shallow_checked(s, q, scope, st, before, after)
    &&& st.statement matches StatementType::ForLoop(fl) ==> forall|i: int| 0 <= i < fl.statements@.len()
        ==> #[trigger] body_checked(s, q, fl.statements@[i], before, after)
}

/// Whether a statement of a loop's body was checked, in some scope, on a
/// stretch of the diagnostics from `before` to `after`.
pub open spec fn body_checked(s: Schema, q: Query, st: Statement, before: Seq<Diagnostic>, after: Seq<Diagnostic>) -> bool {
    exists|sc: Seq<(String, Type)>, d1: Seq<Diagnostic>, d2: Seq<Diagnostic>| {
        &&& extends(before, d1)
        &&& extends(d1, d2)
        &&& extends(d2, after)
        &&& #[trigger] stmt_shallow_checked(s, q, sc, st, d1, d2)
    }
}

/// Whether a statement of a query was checked as `stmt_checked` says, in
/// some scope, on a stretch of the diagnostics from `before` to `after`.
pub open spec fn stmt_checked_on(s: Schema, q: Query, st: Statement, before: Seq<Diagnostic>, after: Seq<Diagnostic>) -> bool {
    exists|sc: Seq<(String, Type)>, d1: Seq<Diagnostic>, d2: Seq<Diagnostic>| {
        &&& extends(before, d1)
        &&& extends(d1, d2)
        &&& extends(d2, after)
        &&& #[trigger] stmt_checked(s, q, sc, st, d1, d2)
    }
}

/// A statement checked up to `mid` stays checked as more diagnostics
/// follow.
pub proof fn lemma_stmt_checked_on_extend(s: Schema, q: Query, st: Statement, before: Seq<Diagnostic>, mid: Seq<Diagnostic>, after: Seq<Diagnostic>)
    requires
        stmt_checked_on(s, q, st, before, mid),
        extends(mid, after),
    ensures
        stmt_checked_on(s, q, st, before, after),
{
    let (sc, d1, d2) = choose|sc: Seq<(String, Type)>, d1: Seq<Diagnostic>, d2: Seq<Diagnostic>| {
        &&& extends(before, d1)
        &&& extends(d1, d2)
        &&& extends(d2, mid)
        &&& #[trigger] stmt_checked(s, q, sc, st, d1, d2)
    };
    lemma_extends_trans(d2, mid, after);
    assert(stmt_checked(s, q, sc, st, d1, d2));
}

/// A body statement checked up to `mid` stays checked as more diagnostics
/// follow.
pub proof fn lemma_body_checked_extend(s: Schema, q: Query, st: Statement, before: Seq<Diagnostic>, mid: Seq<Diagnostic>, after: Seq<Diagnostic>)
    requires
        body_checked(s, q, st, before, mid),
        extends(mid, after),
    ensures
        body_checked(s, q, st, before, after),
{
    let (sc, d1, d2) = choose|sc: Seq<(String, Type)>, d1: Seq<Diagnostic>, d2: Seq<Diagnostic>| {
        &&& extends(before, d1)
        &&& extends(d1, d2)
        &&& extends(d2, mid)
        &&& #[trigger] stmt_shallow_checked(s, q, sc, st, d1, d2)
    };
    lemma_extends_trans(d2, mid, after);
    assert(stmt_shallow_checked(s, q, sc, st, d1, d2));
}

/// Checks a statement in scope `scope`, and puts the variable that it
/// assigns in scope. Assigning a variable that is in scope already is
/// reported first, with E302.
pub fn validate_statement(
    s: &Schema,
    q: &Query,
    scope: &mut Vec<(String, Type)>,
    st: &Statement,
    diags: &mut Vec<Diagnostic>,
)
    requires
        scope_flat(old(scope)@),
    ensures
        scope_flat(final(scope)@),
        extends(old(diags)@, final(diags)@),
        st.statement matches StatementType::Assignment(a) ==> {
            &&& in_scope(old(scope)@, a.variable@) ==> (final(diags)@.len() > old(diags)@.len()
                && final(diags)@[old(diags)@.len() as int].error_code == ErrorCode::E302
                && final(diags)@[old(diags)@.len() as int].message@ == in_query(redeclared_message(a.variable@), *q))
            &&& forall|m: Seq<char>| in_scope(final(scope)@, m) <==> (in_scope(old(scope)@, m) || m == a.variable@)
            &&& forall|m: Seq<char>| m != a.variable@ ==> #[trigger] scope_lookup(final(scope)@, m) == scope_lookup(old(scope)@, m)
            &&& scope_lookup(final(scope)@, a.variable@) matches Some(t)
            &&& reported(old(diags)@, final(diags)@, ErrorCode::E621)
                || shape_of(t) == expr_shape(*s, old(scope)@, a.value, None)
            &&& exists|d: Seq<Diagnostic>| extends(old(diags)@, d)
                && #[trigger] expr_checked(*s, *q, old(scope)@, a.value, None, t, d, final(diags)@)
        },
        st.statement matches StatementType::Expression(e) ==> exists|t: Type|
            #[trigger] expr_checked(*s, *q, old(scope)@, e, None, t, old(diags)@, final(diags)@),
        st.statement matches StatementType::Drop(e) ==> exists|t: Type|
            #[trigger] expr_checked(*s, *q, old(scope)@, e, None, t, old(diags)@, final(diags)@),
        st.statement matches StatementType::ForLoop(fl) ==> (!in_scope(old(scope)@, fl.in_variable.1@) ==> (
            final(diags)@.len() > old(diags)@.len()
            && final(diags)@[old(diags)@.len() as int].error_code == ErrorCode::E301)),
        !(st.statement is Assignment) ==> final(scope)@ == old(scope)@,
        stmt_checked(*s, *q, old(scope)@, *st, old(diags)@, final(diags)@),
    decreases st,
{
    match &st.statement {
        StatementType::Assignment(a) => {
            let ghost before = diags@;
            if lookup(scope, a.variable.as_str()).is_some() {
                query_error(diags, q, &a.loc, ErrorCode::E302, wrapped("variable named `", a.variable.as_str(), "` is already declared"), "rename the variable or remove the earlier declaration");
                assert(diags@.subrange(0, before.len() as int) =~= before);
            } else {
                proof { lemma_extends_refl(diags@); }
            }
            let ghost d1 = diags@;
            let ghost sc0 = scope@;
            let t = infer_expr_type(s, q, scope, &a.value, None, diags);
            let ghost tg = t;
            proof {
                assert(extends(before, d1));
                assert(expr_checked(*s, *q, sc0, a.value, None, tg, d1, diags@));
                if !in_scope(sc0, a.variable@) {
                    assert(d1 =~= before);
                }
                assert(stmt_checked(*s, *q, sc0, *st, before, diags@));
            }
            bind(scope, &a.variable, t);
            proof {
                assert(scope_lookup(scope@, a.variable@) == Some(tg));
                lemma_reported_extends(before, d1, diags@, ErrorCode::E621);
                lemma_extends_trans(before, d1, diags@);
                if d1.len() > before.len() {
                    assert(diags@[before.len() as int] == diags@.subrange(0, d1.len() as int)[before.len() as int]);
                }
            }
        },
        StatementType::Expression(e) => {
            let t = infer_expr_type(s, q, scope, e, None, diags);
            assert(expr_checked(*s, *q, scope@, *e, None, t, old(diags)@, diags@));
            assert(stmt_checked(*s, *q, scope@, *st, old(diags)@, diags@));
        },
        StatementType::Drop(e) => {
            let t = infer_expr_type(s, q, scope, e, None, diags);
            assert(expr_checked(*s, *q, scope@, *e, None, t, old(diags)@, diags@));
            assert(stmt_checked(*s, *q, scope@, *st, old(diags)@, diags@));
        },
        StatementType::ForLoop(fl) => {
            let ghost before = diags@;
            let collection = check_variable(q, &fl.in_variable.0, scope, fl.in_variable.1.as_str(), diags);
            let ghost d1 = diags@;
            let elem = match &collection {
                Some(t) => element_of(t),
                None => Type::Unknown,
            };
            let mut inner: Vec<(String, Type)> = Vec::new();
            let mut k: usize = 0;
            while k < scope.len()
                invariant
                    k <= scope@.len(),
                    scope_flat(scope@),
                    scope_flat(inner@),
                decreases scope.len() - k,
            {
                inner.push((scope[k].0.clone(), duplicate(&scope[k].1)));
                k = k + 1;
            }
            match &fl.variable {
                ForLoopVars::Identifier { name, .. } => bind(&mut inner, name, elem),
                ForLoopVars::ObjectAccess { name, .. } => bind(&mut inner, name, Type::Unknown),
                ForLoopVars::ObjectDestructuring { fields, .. } => {
                    let mut j: usize = 0;
                    while j < fields.len()
                        invariant
                            j <= fields@.len(),
                            scope_flat(inner@),
                        decreases fields.len() - j,
                    {
                        bind(&mut inner, &fields[j].1, Type::Unknown);
                        j = j + 1;
                    }
                },
            }
            proof { lemma_extends_refl(diags@); }
            let mut i: usize = 0;
            while i < fl.statements.len()
                invariant
                    i <= fl.statements@.len(),
                    scope_flat(inner@),
                    extends(d1, diags@),
                    extends(before, d1),
                    st.statement is ForLoop,
                    st.statement->ForLoop_0 == *fl,
                    forall|k: int| 0 <= k < i ==> #[trigger] body_checked(*s, *q, fl.statements@[k], before, diags@),
                decreases fl.statements.len() - i,
            {
                proof {
                    assert(decreases_to!(*st => st.statement->ForLoop_0.statements@[i as int]));
                }
                let ghost b = diags@;
                let ghost sc_i = inner@;
                validate_statement(s, q, &mut inner, &fl.statements[i], diags);
                proof {
                    lemma_extends_trans(d1, b, diags@);
                    lemma_extends_trans(before, d1, b);
                    lemma_extends_refl(diags@);
                    assert(stmt_shallow_checked(*s, *q, sc_i, fl.statements@[i as int], b, diags@));
                    assert(body_checked(*s, *q, fl.statements@[i as int], before, diags@));
                    assert forall|k: int| 0 <= k < i + 1 implies #[trigger] body_checked(*s, *q, fl.statements@[k], before, diags@) by {
                        if k < i {
                            lemma_body_checked_extend(*s, *q, fl.statements@[k], before, b, diags@);
                        }
                    }
                }
                i = i + 1;
            }
            proof {
                lemma_extends_trans(before, d1, diags@);
                if !in_scope(scope@, fl.in_variable.1@) {
                    assert(codes(d1).len() == codes(before).len() + 1);
                    assert(d1[before.len() as int].error_code == codes(d1)[before.len() as int]);
                    assert(diags@[before.len() as int] == diags@.subrange(0, d1.len() as int)[before.len() as int]);
                }
                assert(stmt_checked(*s, *q, scope@, *st, before, diags@));
            }
        },
    }
}

/// Whether `rt` returns a value under the name `n`.
pub open spec fn named(rt: ReturnType, n: Seq<char>) -> bool {
    match rt {
        ReturnType::NamedLiteral(GeneratedValue::Literal(GenRef::Literal(x))) => x@ == n,
        ReturnType::SingleExpr(GeneratedValue::Literal(GenRef::Literal(x))) => x@ == n,
        ReturnType::NamedExpr(GeneratedValue::Literal(GenRef::Literal(x))) => x@ == n,
        _ => false,
    }
}

/// Whether `rt` returns the literal written `t`.
pub open spec fn literal_return(rt: ReturnType, t: Seq<char>) -> bool {
    rt matches ReturnType::Literal(GeneratedValue::Literal(GenRef::Literal(x))) && x@ == t
}

/// Whether `rt` is how generated code returns the value of `e`, whose type
/// is `t`: a variable by its name, as a literal where it holds a scalar and
/// as one value where it holds one element; a traversal from a variable by
/// the variable's name, as one value where it gives one; a literal as
/// itself; anything else without a name.
pub open spec fn returned(e: Expression, t: Type, rt: ReturnType) -> bool {
    match e.expr {
        ExpressionType::Identifier(n) => named(rt, n@) && (t is Scalar <==> rt is NamedLiteral)
            && ((t is Node || t is Edge || t is Vector) <==> rt is SingleExpr),
        ExpressionType::Traversal(tr) => match tr.start {
            StartNode::Identifier(v) => named(rt, v@) && !(rt is NamedLiteral)
                && ((t is Nodes || t is Edges || t is Vectors) <==> rt is NamedExpr),
            _ => rt is UnnamedExpr,
        },
        ExpressionType::StringLiteral(s) => literal_return(rt, s@),
        ExpressionType::IntegerLiteral(i) => literal_return(rt, signed_numeral(i as int)),
        ExpressionType::FloatLiteral(f) => literal_return(rt, f@),
        ExpressionType::BooleanLiteral(b) => literal_return(rt, if b { "true"@ } else { "false"@ }),
        _ => rt is UnnamedExpr,
    }
}

/// Where the returned values of the first `n` return expressions start: just
/// after the last empty one (which clears those before it), else at 0.
pub open spec fn returns_start(es: Seq<Expression>, n: int) -> int
    decreases n,
{
    if n <= 0 || n > es.len() {
        0
    } else if es[n - 1].expr is Empty {
        n
    } else {
        returns_start(es, n - 1)
    }
}

/// Whether `rs` are how generated code returns the values of the return
/// expressions `es`: one for each expression after the last empty one, in
/// order (see `returned`).
pub open spec fn returns_generated(es: Seq<Expression>, rs: Seq<ReturnType>) -> bool {
    &&& rs.len() == es.len() - returns_start(es, es.len() as int)
    &&& forall|i: int| 0 <= i < rs.len() ==> #[trigger] returned_as(es[returns_start(es, es.len() as int) + i], rs[i])
}

/// Whether `rt` returns the value of `e` as `returned` says for some type
/// of `e`.
pub open spec fn returned_as(e: Expression, rt: ReturnType) -> bool {
    exists|t: Type| #[trigger] returned(e, t, rt)
}

/// How generated code returns a value of type `t` given by `e`.
fn return_type_of(e: &Expression, t: &Type) -> (r: ReturnType)
    ensures
        returned(*e, *t, r),
{
    proof {
        reveal_strlit("true");
        reveal_strlit("false");
    }
    let name = |n: &String| -> (g: GeneratedValue)
        ensures
            g matches GeneratedValue::Literal(GenRef::Literal(x)) && x@ == n@,
        { GeneratedValue::Literal(GenRef::Literal(n.clone())) };
    match &e.expr {
        ExpressionType::Identifier(n) => match t {
            Type::Scalar(_) => ReturnType::NamedLiteral(name(n)),
            Type::Node(_) | Type::Edge(_) | Type::Vector(_) => ReturnType::SingleExpr(name(n)),
            _ => ReturnType::NamedExpr(name(n)),
        },
        ExpressionType::Traversal(tr) => match &tr.start {
            StartNode::Identifier(v) => match t {
                Type::Nodes(_) | Type::Edges(_) | Type::Vectors(_) => ReturnType::NamedExpr(name(v)),
                _ => ReturnType::SingleExpr(name(v)),
            },
            _ => ReturnType::UnnamedExpr,
        },
        ExpressionType::StringLiteral(s) => ReturnType::Literal(name(s)),
        ExpressionType::IntegerLiteral(i) => ReturnType::Literal(GeneratedValue::Literal(GenRef::Literal(i128_text(*i as i128)))),
        ExpressionType::FloatLiteral(f) => ReturnType::Literal(name(f)),
        ExpressionType::BooleanLiteral(b) => ReturnType::Literal(GeneratedValue::Literal(GenRef::Literal(owned(if *b { "true" } else { "false" })))),
        _ => ReturnType::UnnamedExpr,
    }
}

/// The message, before the query's name, for a variable assigned again.
pub open spec fn redeclared_message(v: Seq<char>) -> Seq<char> {
    "variable named `"@ + v + "` is already declared"@
}

/// The message of the report that statement `k` of `q` assigns a name
/// bound before it.
pub open spec fn reassign_message(q: Query, k: int) -> Seq<char> {
    in_query(redeclared_message(q.statements@[k].statement->Assignment_0.variable@), q)
}

/// The message, before the query's name, for an MCP query that does not
/// return exactly one value.
pub open spec fn mcp_return_message() -> Seq<char> {
    "MCP queries can only return a single value as LLM needs to be able to traverse from the result"@
}

/// Whether a parameter's type is a reserved word in place of a name.
pub open spec fn param_reserved(ft: FieldType) -> bool {
    ft matches FieldType::Identifier(id) && reserved_word(id@)
}

/// Whether a parameter's type names a type that is no declared node type.
pub open spec fn param_undeclared(s: Schema, ft: FieldType) -> bool {
    ft matches FieldType::Identifier(id) && !reserved_word(id@) && !node_declared(s, id@)
}

/// Whether the name `m` is bound before statement `k` of query `q`: it names
/// a parameter, or a statement before `k` assigns it.
pub open spec fn bound_before(q: Query, k: int, m: Seq<char>) -> bool {
    ||| exists|p: int| 0 <= p < q.parameters@.len() && #[trigger] q.parameters@[p].name.1@ == m
    ||| exists|j: int| 0 <= j < k && #[trigger] assigns(q.statements@[j], m)
}

/// Whether a statement assigns the variable `m`.
pub open spec fn assigns(st: Statement, m: Seq<char>) -> bool {
    st.statement matches StatementType::Assignment(a) && a.variable@ == m
}

/// Whether statement `k` of query `q` assigns a name bound before it.
pub open spec fn reassigns(q: Query, k: int) -> bool {
    q.statements@[k].statement matches StatementType::Assignment(a) && bound_before(q, k, a.variable@)
}

/// Whether a query carries the `#[mcp]` macro.
pub open spec fn is_mcp(q: Query) -> bool {
    q.built_in_macro matches Some(BuiltInMacro::MCP)
}

/// Checks a query: the types of its parameters, its statements in order,
/// and its return values. A parameter typed by a reserved word is reported
/// with E105, one typed by an undeclared name with E201. A query without
/// return values is warned of; an MCP query must return exactly one value
/// (E401).
pub fn check_query(s: &Schema, q: &Query, diags: &mut Vec<Diagnostic>) -> (rv: Vec<ReturnType>)
    ensures
        extends(old(diags)@, final(diags)@),
        returns_generated(q.return_values@, rv@),
        forall|p: int| 0 <= p < q.parameters@.len() && param_reserved(#[trigger] q.parameters@[p].param_type.1)
            ==> reported(old(diags)@, final(diags)@, ErrorCode::E105),
        forall|p: int| 0 <= p < q.parameters@.len() && param_undeclared(*s, #[trigger] q.parameters@[p].param_type.1)
            ==> reported(old(diags)@, final(diags)@, ErrorCode::E201),
        forall|k: int| 0 <= k < q.statements@.len() && #[trigger] reassigns(*q, k)
            ==> reported_with(old(diags)@, final(diags)@, ErrorCode::E302, reassign_message(*q, k)),
        forall|k: int| 0 <= k < q.statements@.len() ==> #[trigger] stmt_checked_on(*s, *q, q.statements@[k], old(diags)@, final(diags)@),
        q.return_values@.len() == 0 ==> exists|i: int| old(diags)@.len() <= i < final(diags)@.len()
            && #[trigger] final(diags)@[i].severity == DiagnosticSeverity::Warning,
        (is_mcp(*q) && q.return_values@.len() != 1) ==> exists|i: int| old(diags)@.len() <= i < final(diags)@.len()
            && #[trigger] final(diags)@[i].error_code == ErrorCode::E401
            && final(diags)@[i].message@ == in_query(mcp_return_message(), *q),
{
    let mut scope: Vec<(String, Type)> = Vec::new();
    proof { lemma_extends_refl(diags@); }
    let mut p: usize = 0;
    while p < q.parameters.len()
        invariant
            p <= q.parameters@.len(),
            scope_flat(scope@),
            extends(old(diags)@, diags@),
            forall|k: int| 0 <= k < p && param_reserved(#[trigger] q.parameters@[k].param_type.1)
                ==> reported(old(diags)@, diags@, ErrorCode::E105),
            forall|k: int| 0 <= k < p && param_undeclared(*s, #[trigger] q.parameters@[k].param_type.1)
                ==> reported(old(diags)@, diags@, ErrorCode::E201),
            forall|m: Seq<char>| in_scope(scope@, m)
                <==> exists|k: int| 0 <= k < p && #[trigger] q.parameters@[k].name.1@ == m,
        decreases q.parameters.len() - p,
    {
        let ghost before = diags@;
        let param = &q.parameters[p];
        match &param.param_type.1 {
            FieldType::Identifier(id) => {
                if check_identifier(q, &param.param_type.0, id.as_str(), diags) {
                    if !is_node_type(s, id.as_str()) {
                        let ghost d1 = diags@;
                        query_error(diags, q, &param.param_type.0, ErrorCode::E201,
                            wrapped2("unknown type `", id.as_str(), "` for parameter `", param.name.1.as_str(), "`"),
                            "declare or use a matching schema object or use a primitive type");
                        assert(diags@.subrange(0, d1.len() as int) =~= d1);
                        proof {
                            lemma_extends_trans(before, d1, diags@);
                            lemma_reported_at(before, diags@, d1.len() as int);
                        }
                    }
                } else {
                    proof {
                        assert(codes(diags@).len() == codes(before).len() + 1);
                        assert(diags@.len() == before.len() + 1);
                        assert(codes(diags@)[before.len() as int] == ErrorCode::E105);
                        assert(diags@[before.len() as int].error_code == ErrorCode::E105);
                        assert(diags@.subrange(0, before.len() as int) =~= before);
                        lemma_reported_at(before, diags@, before.len() as int);
                    }
                }
            },
            _ => { proof { lemma_extends_refl(diags@); } },
        }
        proof {
            lemma_reported_extends(old(diags)@, before, diags@, ErrorCode::E105);
            lemma_reported_extends(old(diags)@, before, diags@, ErrorCode::E201);
        }
        proof { crate::helixc::analyzer::types::lemma_field_type_flat(param.param_type.1); }
        bind(&mut scope, &param.name.1, Type::from_field_type(&param.param_type.1));
        proof {
            lemma_extends_trans(old(diags)@, before, diags@);
            assert forall|m: Seq<char>| in_scope(scope@, m)
                <==> exists|k: int| 0 <= k < p + 1 && #[trigger] q.parameters@[k].name.1@ == m by {
                if m == param.name.1@ {
                    assert(q.parameters@[p as int].name.1@ == m);
                }
                if exists|k: int| 0 <= k < p + 1 && #[trigger] q.parameters@[k].name.1@ == m {
                    let k = choose|k: int| 0 <= k < p + 1 && #[trigger] q.parameters@[k].name.1@ == m;
                    if k < p {
                        assert(exists|k2: int| 0 <= k2 < p && #[trigger] q.parameters@[k2].name.1@ == m);
                    }
                }
            }
        }
        p = p + 1;
    }
    let ghost after_params = diags@;
    proof { lemma_extends_refl(diags@); }
    let mut i: usize = 0;
    while i < q.statements.len()
        invariant
            i <= q.statements@.len(),
            scope_flat(scope@),
            extends(old(diags)@, diags@),
            extends(old(diags)@, after_params),
            extends(after_params, diags@),
            forall|m: Seq<char>| in_scope(scope@, m) <==> bound_before(*q, i as int, m),
            forall|k: int| 0 <= k < i && #[trigger] reassigns(*q, k)
                ==> reported_with(old(diags)@, diags@, ErrorCode::E302, reassign_message(*q, k)),
            forall|k: int| 0 <= k < i ==> #[trigger] stmt_checked_on(*s, *q, q.statements@[k], old(diags)@, diags@),
        decreases q.statements.len() - i,
    {
        let ghost before = diags@;
        let ghost scope_before = scope@;
        validate_statement(s, q, &mut scope, &q.statements[i], diags);
        proof {
            lemma_extends_trans(old(diags)@, before, diags@);
            lemma_extends_refl(diags@);
            assert(stmt_checked(*s, *q, scope_before, q.statements@[i as int], before, diags@));
            assert(stmt_checked_on(*s, *q, q.statements@[i as int], old(diags)@, diags@));
            assert forall|k: int| 0 <= k < i + 1 implies #[trigger] stmt_checked_on(*s, *q, q.statements@[k], old(diags)@, diags@) by {
                if k < i {
                    lemma_stmt_checked_on_extend(*s, *q, q.statements@[k], old(diags)@, before, diags@);
                }
            }
            lemma_extends_trans(after_params, before, diags@);
            assert forall|k: int| 0 <= k < i && #[trigger] reassigns(*q, k)
                implies reported_with(old(diags)@, diags@, ErrorCode::E302, reassign_message(*q, k)) by {
                lemma_reported_with_extends(old(diags)@, before, diags@, ErrorCode::E302, reassign_message(*q, k));
            }
            let ghost st = q.statements@[i as int];
            if reassigns(*q, i as int) {
                let a = st.statement->Assignment_0;
                assert(bound_before(*q, i as int, a.variable@));
                assert(in_scope(scope_before, a.variable@));
                assert(diags@[before.len() as int].error_code == ErrorCode::E302);
                assert(diags@[before.len() as int].message@ == reassign_message(*q, i as int));
                assert(reported_with(before, diags@, ErrorCode::E302, reassign_message(*q, i as int)));
                lemma_reported_with_extends(old(diags)@, before, diags@, ErrorCode::E302, reassign_message(*q, i as int));
            }
            assert forall|m: Seq<char>| in_scope(scope@, m) <==> bound_before(*q, i + 1, m) by {
                if assigns(st, m) {
                    assert(0 <= i < i + 1 && assigns(q.statements@[i as int], m));
                }
                if exists|j: int| 0 <= j < i && #[trigger] assigns(q.statements@[j], m) {
                    let j = choose|j: int| 0 <= j < i && #[trigger] assigns(q.statements@[j], m);
                    assert(0 <= j < i + 1 && assigns(q.statements@[j], m));
                }
                if exists|j: int| 0 <= j < i + 1 && #[trigger] assigns(q.statements@[j], m) {
                    let j = choose|j: int| 0 <= j < i + 1 && #[trigger] assigns(q.statements@[j], m);
                    if j < i {
                        assert(exists|j2: int| 0 <= j2 < i && #[trigger] assigns(q.statements@[j2], m));
                    }
                }
                assert(bound_before(*q, i + 1, m) <==> (bound_before(*q, i as int, m) || assigns(st, m)));
                assert(in_scope(scope_before, m) <==> bound_before(*q, i as int, m));
                match st.statement {
                    StatementType::Assignment(a) => {
                        assert(in_scope(scope@, m) <==> (in_scope(scope_before, m) || m == a.variable@));
                    },
                    _ => {
                        assert(scope@ == scope_before);
                    },
                }
            }
        }
        i = i + 1;
    }
    let ghost before_returns = diags@;
    let ghost after_statements = diags@;
    proof {
        lemma_reported_extends(old(diags)@, after_params, diags@, ErrorCode::E105);
        lemma_reported_extends(old(diags)@, after_params, diags@, ErrorCode::E201);
    }
    if q.return_values.len() == 0 {
        let end = Loc { filepath: None, start: q.loc.end, end: q.loc.end };
        query_warning(diags, q, &end, ErrorCode::E305, owned("query has no RETURN clause"), "add `RETURN <expr>` at the end");
        assert(diags@.subrange(0, before_returns.len() as int) =~= before_returns);
        assert(diags@[before_returns.len() as int].severity == DiagnosticSeverity::Warning);
    } else {
        proof { lemma_extends_refl(diags@); }
    }
    proof { lemma_extends_trans(old(diags)@, before_returns, diags@); }
    let ghost after_warning = diags@;
    proof { lemma_extends_refl(diags@); }
    let mut rv: Vec<ReturnType> = Vec::new();
    let ghost mut types: Seq<Type> = Seq::empty();
    let mut r: usize = 0;
    while r < q.return_values.len()
        invariant
            r <= q.return_values@.len(),
            scope_flat(scope@),
            extends(old(diags)@, diags@),
            extends(after_warning, diags@),
            extends(before_returns, diags@),
            extends(old(diags)@, before_returns),
            rv@.len() == r - returns_start(q.return_values@, r as int),
            types.len() == rv@.len(),
            forall|i: int| 0 <= i < rv@.len() ==> #[trigger] returned(
                q.return_values@[returns_start(q.return_values@, r as int) + i], types[i], rv@[i]),
        decreases q.return_values.len() - r,
    {
        let ghost before = diags@;
        let t = infer_expr_type(s, q, &scope, &q.return_values[r], None, diags);
        let ghost pre = rv@;
        let ghost pre_types = types;
        match &q.return_values[r].expr {
            ExpressionType::Empty => {
                rv = Vec::new();
                proof { types = Seq::empty(); }
                assert(returns_start(q.return_values@, r + 1) == r + 1);
            },
            _ => {
                let rt = return_type_of(&q.return_values[r], &t);
                rv.push(rt);
                proof {
                    types = pre_types.push(t);
                    assert(returns_start(q.return_values@, r + 1) == returns_start(q.return_values@, r as int));
                    let st = returns_start(q.return_values@, r as int);
                    assert forall|i: int| 0 <= i < rv@.len() implies #[trigger] returned(
                        q.return_values@[returns_start(q.return_values@, r + 1) + i], types[i], rv@[i]) by {
                        if i < pre.len() {
                            assert(rv@[i] == pre[i]);
                            assert(types[i] == pre_types[i]);
                        } else {
                            assert(st + i == r);
                        }
                    }
                }
            },
        }
        proof {
            lemma_extends_trans(old(diags)@, before, diags@);
            lemma_extends_trans(after_warning, before, diags@);
            lemma_extends_trans(before_returns, before, diags@);
        }
        r = r + 1;
    }
    proof {
        if q.return_values@.len() == 0 {
            let k = before_returns.len() as int;
            assert(diags@[k] == diags@.subrange(0, after_warning.len() as int)[k]);
        }
    }
    let ghost after_returns = diags@;
    let mcp = match &q.built_in_macro {
        Some(BuiltInMacro::MCP) => true,
        _ => false,
    };
    if mcp && q.return_values.len() != 1 {
        let ghost before = diags@;
        query_error(diags, q, &q.loc, ErrorCode::E401,
            owned("MCP queries can only return a single value as LLM needs to be able to traverse from the result"),
            "add a single return value that is a node, edge, or vector");
        assert(diags@.subrange(0, before.len() as int) =~= before);
        proof {
            lemma_extends_trans(old(diags)@, before, diags@);
            assert(diags@[before.len() as int].error_code == ErrorCode::E401);
            if q.return_values@.len() == 0 {
                let k = before_returns.len() as int;
                assert(diags@[k] == diags@.subrange(0, before.len() as int)[k]);
            }
        }
    }
    proof {
        if diags@ == after_returns {
            lemma_extends_refl(diags@);
        }
        assert(extends(after_returns, diags@));
        lemma_extends_trans(before_returns, after_returns, diags@);
        lemma_reported_extends(old(diags)@, before_returns, diags@, ErrorCode::E105);
        lemma_reported_extends(old(diags)@, before_returns, diags@, ErrorCode::E201);
        assert forall|k: int| 0 <= k < q.statements@.len() && #[trigger] reassigns(*q, k)
            implies reported_with(old(diags)@, diags@, ErrorCode::E302, reassign_message(*q, k)) by {
            lemma_reported_with_extends(old(diags)@, before_returns, diags@, ErrorCode::E302, reassign_message(*q, k));
        }
    }
    proof {
        let start = returns_start(q.return_values@, q.return_values@.len() as int);
        assert(r == q.return_values@.len());
        assert(start == returns_start(q.return_values@, r as int));
        assert(rv@.len() == q.return_values@.len() - start);
        assert forall|i: int| 0 <= i < rv@.len() implies #[trigger] returned_as(q.return_values@[start + i], rv@[i]) by {
            assert(returned(q.return_values@[start + i], types[i], rv@[i]));
        }
        assert(returns_generated(q.return_values@, rv@));
        assert(extends(after_statements, diags@));
        assert forall|k: int| 0 <= k < q.statements@.len() implies #[trigger] stmt_checked_on(*s, *q, q.statements@[k], old(diags)@, diags@) by {
            lemma_stmt_checked_on_extend(*s, *q, q.statements@[k], old(diags)@, after_statements, diags@);
        }
    }
    rv
}

} // verus!
verus! {

/// Whether an expression changes the graph: it adds a node, an edge or a
/// vector, or it is a traversal with an update step.
pub open spec fn expr_mutates(e: Expression) -> bool {
    match e.expr {
        ExpressionType::AddNode(_) => true,
        ExpressionType::AddEdge(_) => true,
        ExpressionType::AddVector(_) => true,
        ExpressionType::Traversal(tr) => exists|k: int| 0 <= k < tr.steps@.len() && #[trigger] update_at(tr.steps@, k),
        _ => false,
    }
}

/// Whether step `k` updates what the traversal reached.
pub open spec fn update_at(steps: Seq<crate::helixc::parser::ast::Step>, k: int) -> bool {
    steps[k].step is Update
}

/// Whether one of the statements, those of loops included, changes the
/// graph: it drops something, or its expression changes the graph.
pub open spec fn stmts_mutate(sts: Seq<Statement>) -> bool
    decreases sts,
{
    exists|k: int| 0 <= k < sts.len() && match #[trigger] sts[k].statement {
        StatementType::Drop(_) => true,
        StatementType::Assignment(a) => expr_mutates(a.value),
        StatementType::Expression(e) => expr_mutates(e),
        StatementType::ForLoop(fl) => {
            &&& decreases_to!(sts => fl.statements@)
            &&& stmts_mutate(fl.statements@)
        },
    }
}

/// Whether a query changes the graph: one of its statements or return
/// values does.
pub open spec fn query_mutates(q: Query) -> bool {
    stmts_mutate(q.statements@) || exists|r: int| 0 <= r < q.return_values@.len() && #[trigger] expr_mutates(q.return_values@[r])
}

/// Whether an expression changes the graph (see `expr_mutates`).
fn expr_mutates_exec(e: &Expression) -> (r: bool)
    ensures
        r == expr_mutates(*e),
{
    match &e.expr {
        ExpressionType::AddNode(_) | ExpressionType::AddEdge(_) | ExpressionType::AddVector(_) => true,
        ExpressionType::Traversal(tr) => {
            let mut k: usize = 0;
            while k < tr.steps.len()
                invariant
                    k <= tr.steps@.len(),
                    forall|j: int| 0 <= j < k ==> !#[trigger] update_at(tr.steps@, j),
                    e.expr is Traversal,
                    e.expr->Traversal_0 == *tr,
                decreases tr.steps.len() - k,
            {
                match &tr.steps[k].step {
                    StepType::Update(_) => {
                        assert(update_at(tr.steps@, k as int));
                        return true;
                    },
                    _ => {},
                }
                k = k + 1;
            }
            false
        },
        _ => false,
    }
}

/// Whether one of the statements changes the graph (see `stmts_mutate`).
fn stmts_mutate_exec(sts: &Vec<Statement>) -> (r: bool)
    ensures
        r == stmts_mutate(sts@),
    decreases sts,
{
    let mut k: usize = 0;
    while k < sts.len()
        invariant
            k <= sts@.len(),
            forall|j: int| 0 <= j < k ==> !match #[trigger] sts@[j].statement {
                StatementType::Drop(_) => true,
                StatementType::Assignment(a) => expr_mutates(a.value),
                StatementType::Expression(e) => expr_mutates(e),
                StatementType::ForLoop(fl) => {
                    &&& decreases_to!(sts@ => fl.statements@)
                    &&& stmts_mutate(fl.statements@)
                },
            },
        decreases sts.len() - k,
    {
        let found = match &sts[k].statement {
            StatementType::Drop(_) => true,
            StatementType::Assignment(a) => expr_mutates_exec(&a.value),
            StatementType::Expression(e) => expr_mutates_exec(e),
            StatementType::ForLoop(fl) => {
                proof {
                    assert(decreases_to!(sts@ => fl.statements@));
                }
                stmts_mutate_exec(&fl.statements)
            },
        };
        if found {
            return true;
        }
        k = k + 1;
    }
    false
}

/// Whether a query changes the graph (see `query_mutates`).
pub fn query_mutates_exec(q: &Query) -> (r: bool)
    ensures
        r == query_mutates(*q),
{
    if stmts_mutate_exec(&q.statements) {
        return true;
    }
    let mut k: usize = 0;
    while k < q.return_values.len()
        invariant
            k <= q.return_values@.len(),
            !stmts_mutate(q.statements@),
            forall|j: int| 0 <= j < k ==> !expr_mutates(#[trigger] q.return_values@[j]),
        decreases q.return_values.len() - k,
    {
        if expr_mutates_exec(&q.return_values[k]) {
            return true;
        }
        k = k + 1;
    }
    false
}

} // verus!
