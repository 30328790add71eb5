//! Variables in scope while a query is checked, and how query errors are
//! reported.
use vstd::prelude::*;
use crate::helixc::analyzer::diagnostic::{Diagnostic, DiagnosticSeverity};
use crate::helixc::analyzer::error_codes::ErrorCode;
use crate::helixc::analyzer::schema_check::push_diagnostic;
use crate::helixc::analyzer::types::{Type, flat_type};
use crate::helixc::location::Loc;
use crate::helixc::parser::ast::Query;
use crate::utils::text::{owned, push_str};

verus! {

/// The codes of a list of diagnostics.
pub open spec fn codes(ds: Seq<Diagnostic>) -> Seq<ErrorCode> {
    ds.map_values(|d: Diagnostic| d.error_code)
}

/// Whether a variable named `n` is in scope.
pub open spec fn in_scope(scope: Seq<(String, Type)>, n: Seq<char>) -> bool {
    exists|i: int| 0 <= i < scope.len() && #[trigger] scope[i].0@ == n
}

/// The type of the variable named `n`: that of its first binding.
pub open spec fn scope_lookup(scope: Seq<(String, Type)>, n: Seq<char>) -> Option<Type>
    decreases scope.len(),
{
    if scope.len() == 0 {
        None
    } else if scope[0].0@ == n {
        Some(scope[0].1)
    } else {
        scope_lookup(scope.drop_first(), n)
    }
}

/// A variable is in scope exactly when it has a binding.
proof fn lemma_lookup_in_scope(scope: Seq<(String, Type)>, n: Seq<char>)
    ensures
        scope_lookup(scope, n) is Some <==> in_scope(scope, n),
    decreases scope.len(),
{
    if scope.len() > 0 {
        lemma_lookup_in_scope(scope.drop_first(), n);
        if in_scope(scope, n) && scope[0].0@ != n {
            let k = choose|k: int| 0 <= k < scope.len() && #[trigger] scope[k].0@ == n;
            assert(scope.drop_first()[k - 1].0@ == n);
        }
        if in_scope(scope.drop_first(), n) {
            let k = choose|k: int| 0 <= k < scope.drop_first().len() && #[trigger] scope.drop_first()[k].0@ == n;
            assert(scope[k + 1].0@ == n);
        }
    }
}

/// Replacing a binding by one of the same name changes the lookup of that
/// name only, where it is the first of its name.
proof fn lemma_lookup_update(scope: Seq<(String, Type)>, i: int, e: (String, Type), m: Seq<char>)
    requires
        0 <= i < scope.len(),
        e.0@ == scope[i].0@,
        forall|k: int| 0 <= k < i ==> #[trigger] scope[k].0@ != scope[i].0@,
    ensures
        scope_lookup(scope.update(i, e), m) == if m == e.0@ { Some(e.1) } else { scope_lookup(scope, m) },
    decreases i,
{
    let u = scope.update(i, e);
    if i == 0 {
        assert(u.drop_first() =~= scope.drop_first());
    } else {
        let t = scope.drop_first();
        assert(u.drop_first() =~= t.update(i - 1, e));
        assert forall|k: int| 0 <= k < i - 1 implies #[trigger] t[k].0@ != t[i - 1].0@ by {
            assert(t[k] == scope[k + 1]);
        }
        lemma_lookup_update(t, i - 1, e, m);
        assert(u[0] == scope[0]);
        if m == e.0@ {
            assert(scope[0].0@ != m);
        }
    }
}

/// Adding a binding at the end gives it to a name that had none.
proof fn lemma_lookup_push(scope: Seq<(String, Type)>, e: (String, Type), m: Seq<char>)
    ensures
        scope_lookup(scope.push(e), m) == match scope_lookup(scope, m) {
            Some(t) => Some(t),
            None => if m == e.0@ { Some(e.1) } else { None },
        },
    decreases scope.len(),
{
    let p = scope.push(e);
    if scope.len() > 0 {
        assert(p[0] == scope[0]);
        assert(p.drop_first() =~= scope.drop_first().push(e));
        lemma_lookup_push(scope.drop_first(), e, m);
        if scope[0].0@ != m {
            assert(scope_lookup(p, m) == scope_lookup(p.drop_first(), m));
            assert(scope_lookup(scope, m) == scope_lookup(scope.drop_first(), m));
        }
    } else {
        assert(p[0] == e);
        assert(p.drop_first() =~= Seq::<(String, Type)>::empty());
        assert(scope_lookup(p.drop_first(), m) is None);
    }
}

/// Whether every type in scope is flat (see `flat_type`).
pub open spec fn scope_flat(scope: Seq<(String, Type)>) -> bool {
    forall|i: int| 0 <= i < scope.len() ==> flat_type(#[trigger] scope[i].1)
}

/// A copy of a flat type; any other type gives `Unknown`.
pub fn duplicate(t: &Type) -> (r: Type)
    ensures
        flat_type(*t) ==> r == *t,
        flat_type(r),
{
    match t {
        Type::Object(_) => Type::Unknown,
        Type::Anonymous(_) => Type::Unknown,
        Type::Scalar(ft) => {
            match ft {
                crate::helixc::parser::ast::FieldType::Array(_)
                | crate::helixc::parser::ast::FieldType::Identifier(_)
                | crate::helixc::parser::ast::FieldType::Object(_) => Type::Unknown,
                _ => t.copy_flat(),
            }
        },
        _ => t.copy_flat(),
    }
}

/// The type of the variable named `n`, if it is in scope.
pub fn lookup(scope: &Vec<(String, Type)>, n: &str) -> (r: Option<Type>)
    requires
        scope_flat(scope@),
    ensures
        r == scope_lookup(scope@, n@),
        r is Some <==> in_scope(scope@, n@),
        r matches Some(t) ==> flat_type(t),
{
    proof { lemma_lookup_in_scope(scope@, n@); }
    let mut i: usize = 0;
    assert(scope@.skip(0) =~= scope@);
    while i < scope.len()
        invariant
            i <= scope@.len(),
            forall|k: int| 0 <= k < i ==> #[trigger] scope@[k].0@ != n@,
            scope_lookup(scope@, n@) == scope_lookup(scope@.skip(i as int), n@),
            scope_flat(scope@),
        decreases scope.len() - i,
    {
        assert(scope@.skip(i as int)[0] == scope@[i as int]);
        assert(scope@.skip(i as int).drop_first() =~= scope@.skip(i + 1));
        if crate::utils::text::str_equal(scope[i].0.as_str(), n) {
            assert(flat_type(scope@[i as int].1));
            return Some(duplicate(&scope[i].1));
        }
        i = i + 1;
    }
    None
}

/// Puts a variable in scope, replacing one of the same name.
pub fn bind(scope: &mut Vec<(String, Type)>, n: &String, t: Type)
    requires
        scope_flat(old(scope)@),
        flat_type(t),
    ensures
        scope_flat(final(scope)@),
        forall|m: Seq<char>| in_scope(final(scope)@, m) <==> (in_scope(old(scope)@, m) || m == n@),
        forall|m: Seq<char>| #[trigger] scope_lookup(final(scope)@, m) == if m == n@ {
            Some(t)
        } else {
            scope_lookup(old(scope)@, m)
        },
{
    let mut i: usize = 0;
    while i < scope.len()
        invariant
            i <= scope@.len(),
            scope@ == old(scope)@,
            flat_type(t),
            scope_flat(old(scope)@),
            forall|k: int| 0 <= k < i ==> #[trigger] scope@[k].0@ != n@,
        decreases scope.len() - i,
    {
        if scope[i].0 == *n {
            proof {
                assert forall|m: Seq<char>| #[trigger] scope_lookup(old(scope)@.update(i as int, (*n, t)), m) == if m == n@ {
                    Some(t)
                } else {
                    scope_lookup(old(scope)@, m)
                } by {
                    lemma_lookup_update(old(scope)@, i as int, (*n, t), m);
                }
            }
            scope.set(i, (n.clone(), t));
            assert(scope@ =~= old(scope)@.update(i as int, (*n, t)));
            assert forall|k: int| 0 <= k < scope@.len() implies flat_type(#[trigger] scope@[k].1) by {
                if k != i {
                    assert(scope@[k] == old(scope)@[k]);
                }
            }
            assert forall|m: Seq<char>| in_scope(scope@, m) <==> (in_scope(old(scope)@, m) || m == n@) by {
                if in_scope(old(scope)@, m) {
                    let k = choose|k: int| 0 <= k < old(scope)@.len() && #[trigger] old(scope)@[k].0@ == m;
                    assert(scope@[k].0@ == m);
                }
                if in_scope(scope@, m) {
                    let k = choose|k: int| 0 <= k < scope@.len() && #[trigger] scope@[k].0@ == m;
                    if k != i {
                        assert(old(scope)@[k].0@ == m);
                    }
                }
            }
            return;
        }
        i = i + 1;
    }
    proof {
        assert forall|m: Seq<char>| #[trigger] scope_lookup(old(scope)@.push((*n, t)), m) == if m == n@ {
            Some(t)
        } else {
            scope_lookup(old(scope)@, m)
        } by {
            lemma_lookup_push(old(scope)@, (*n, t), m);
            if m == n@ {
                lemma_lookup_in_scope(old(scope)@, m);
            }
        }
    }
    scope.push((n.clone(), t));
    assert(scope@ =~= old(scope)@.push((*n, t)));
    assert forall|m: Seq<char>| in_scope(scope@, m) <==> (in_scope(old(scope)@, m) || m == n@) by {
        if in_scope(old(scope)@, m) {
            let k = choose|k: int| 0 <= k < old(scope)@.len() && #[trigger] old(scope)@[k].0@ == m;
            assert(scope@[k].0@ == m);
        }
        if in_scope(scope@, m) {
            let k = choose|k: int| 0 <= k < scope@.len() && #[trigger] scope@[k].0@ == m;
            if k < old(scope)@.len() {
                assert(old(scope)@[k].0@ == m);
            }
        }
        if m == n@ {
            assert(scope@[scope@.len() - 1].0@ == m);
        }
    }
}

/// The message of a query error: the message, then the query's name.
pub open spec fn in_query(msg: Seq<char>, q: Query) -> Seq<char> {
    msg + " (in QUERY named `"@ + q.name@ + "`)"@
}

/// Reports an error in query `q` at `loc`, in the query's file.
pub fn query_error(diags: &mut Vec<Diagnostic>, q: &Query, loc: &Loc, code: ErrorCode, msg: String, hint: &str)
    ensures
        final(diags)@.len() == old(diags)@.len() + 1,
        final(diags)@.drop_last() == old(diags)@,
        final(diags)@.last().error_code == code,
        final(diags)@.last().message@ == in_query(msg@, *q),
        final(diags)@.last().severity == DiagnosticSeverity::Error,
        codes(final(diags)@) == codes(old(diags)@).push(code),
{
    let mut message = msg;
    push_str(&mut message, " (in QUERY named `");
    push_str(&mut message, q.name.as_str());
    push_str(&mut message, "`)");
    let filepath = match &q.loc.filepath {
        Some(p) => Some(p.clone()),
        None => None,
    };
    let location = Loc { filepath, start: loc.start, end: loc.end };
    push_diagnostic(diags, location, code, message, Some(owned(hint)), DiagnosticSeverity::Error);
    assert(codes(diags@) =~= codes(old(diags)@).push(code));
}

/// Reports a warning in query `q` at `loc`.
pub fn query_warning(diags: &mut Vec<Diagnostic>, q: &Query, loc: &Loc, code: ErrorCode, msg: String, hint: &str)
    ensures
        final(diags)@.len() == old(diags)@.len() + 1,
        final(diags)@.drop_last() == old(diags)@,
        final(diags)@.last().severity == DiagnosticSeverity::Warning,
        final(diags)@.last().message@ == in_query(msg@, *q),
        codes(final(diags)@) == codes(old(diags)@).push(code),
{
    let mut message = msg;
    push_str(&mut message, " (in QUERY named `");
    push_str(&mut message, q.name.as_str());
    push_str(&mut message, "`)");
    let filepath = match &q.loc.filepath {
        Some(p) => Some(p.clone()),
        None => None,
    };
    let location = Loc { filepath, start: loc.start, end: loc.end };
    push_diagnostic(diags, location, code, message, Some(owned(hint)), DiagnosticSeverity::Warning);
    assert(codes(diags@) =~= codes(old(diags)@).push(code));
}

/// `prefix` then `a`, then `suffix`.
pub fn wrapped(prefix: &str, a: &str, suffix: &str) -> (r: String)
    ensures
        r@ == prefix@ + a@ + suffix@,
{
    let mut s = owned(prefix);
    push_str(&mut s, a);
    push_str(&mut s, suffix);
    s
}

/// `p1`, `a`, `p2`, `b`, `p3`, in order.
pub fn wrapped2(p1: &str, a: &str, p2: &str, b: &str, p3: &str) -> (r: String)
    ensures
        r@ == p1@ + a@ + p2@ + b@ + p3@,
{
    let mut s = owned(p1);
    push_str(&mut s, a);
    push_str(&mut s, p2);
    push_str(&mut s, b);
    push_str(&mut s, p3);
    s
}

} // verus!
