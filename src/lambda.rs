pub mod bruijn;
pub mod named;

use vstd::prelude::*;

use self::bruijn::{eval_spec, subst_spec, has_free_ref, indices_below, Bruijn};
use self::named::Expr;

verus! {

/// The names of a binding stack, innermost binder last.
pub open spec fn names_of(scope: Seq<String>) -> Seq<Seq<char>> {
    scope.map_values(|s: String| s@)
}

/// How many binders lie between a use of `name` and the innermost binder of
/// `name` in `scope` (innermost last), if `scope` binds it at all.
pub open spec fn lookup_spec(scope: Seq<Seq<char>>, name: Seq<char>) -> Option<nat>
    decreases scope.len(),
{
    if scope.len() == 0 {
        None
    } else if scope.last() == name {
        Some(0)
    } else {
        match lookup_spec(scope.drop_last(), name) {
            Some(d) => Some(d + 1),
            None => None,
        }
    }
}

/// The index form of `e` under the binders `scope` (innermost last): a bound
/// name becomes its distance to its innermost binder, an unbound name stays
/// a free variable, and each abstraction pushes its parameter. There is no
/// result where a distance does not fit in an `i32`.
pub open spec fn resolve_spec(e: Expr, scope: Seq<Seq<char>>) -> Option<Bruijn>
    decreases e,
{
    match e {
        Expr::Var(name) => match lookup_spec(scope, name@) {
            Some(d) => if d <= i32::MAX {
                Some(Bruijn::Val(d as i32))
            } else {
                None
            },
            None => Some(Bruijn::Lit(name)),
        },
        Expr::Abs(head, body) => match resolve_spec(*body, scope.push(head@)) {
            Some(b) => Some(Bruijn::Abs(Box::new(b))),
            None => None,
        },
        Expr::App(f, a) => match (resolve_spec(*f, scope), resolve_spec(*a, scope)) {
            (Some(g), Some(b)) => Some(Bruijn::App(Box::new(g), Box::new(b))),
            _ => None,
        },
    }
}

/// Where the binders after position `k` do not bind `name`, looking it up in
/// the whole stack is looking it up in the first `k` binders, `len - k`
/// further out.
proof fn lemma_lookup_prefix(names: Seq<Seq<char>>, name: Seq<char>, k: int)
    requires
        0 <= k <= names.len(),
        forall|j: int| k <= j < names.len() ==> names[j] != name,
    ensures
        lookup_spec(names, name) == match lookup_spec(names.subrange(0, k), name) {
            Some(d) => Some((d + names.len() - k) as nat),
            None => None::<nat>,
        },
    decreases names.len(),
{
    if k == names.len() {
        assert(names.subrange(0, k) =~= names);
    } else {
        let rest = names.drop_last();
        lemma_lookup_prefix(rest, name, k);
        assert(rest.subrange(0, k) =~= names.subrange(0, k));
    }
}

fn lookup(scope: &Vec<String>, name: &String) -> (r: Option<usize>)
    ensures
        r is Some <==> lookup_spec(names_of(scope@), name@) is Some,
        r matches Some(d) ==> d < scope@.len() && lookup_spec(names_of(scope@), name@) == Some(
            d as nat,
        ),
{
    let ghost names = names_of(scope@);
    let mut k: usize = scope.len();
    while k > 0
        invariant
            k <= scope.len(),
            names == names_of(scope@),
            forall|j: int| k <= j < names.len() ==> names[j] != name@,
        decreases k,
    {
        if scope[k - 1] == *name {
            proof {
                lemma_lookup_prefix(names, name@, k as int);
            }
            return Some(scope.len() - k);
        }
        k = k - 1;
    }
    proof {
        lemma_lookup_prefix(names, name@, 0);
    }
    None
}

/// The greatest number of abstractions nested along one path of `e`.
pub open spec fn binder_depth(e: Expr) -> nat
    decreases e,
{
    match e {
        Expr::Var(_) => 0,
        Expr::Abs(_, body) => 1 + binder_depth(*body),
        Expr::App(f, a) => {
            let (df, da) = (binder_depth(*f), binder_depth(*a));
            if df >= da {
                df
            } else {
                da
            }
        },
    }
}

/// Every name used in `e` is bound, in `e` itself or in `scope`.
pub open spec fn is_closed(e: Expr, scope: Seq<Seq<char>>) -> bool
    decreases e,
{
    match e {
        Expr::Var(name) => scope.contains(name@),
        Expr::Abs(head, body) => is_closed(*body, scope.push(head@)),
        Expr::App(f, a) => is_closed(*f, scope) && is_closed(*a, scope),
    }
}

/// A name is found exactly when the stack holds it, and then less than the
/// stack's length away.
pub proof fn lemma_lookup_found(scope: Seq<Seq<char>>, name: Seq<char>)
    ensures
        lookup_spec(scope, name) is Some <==> scope.contains(name),
        lookup_spec(scope, name) matches Some(d) ==> d < scope.len(),
    decreases scope.len(),
{
    if scope.len() > 0 {
        let rest = scope.drop_last();
        lemma_lookup_found(rest, name);
        assert(scope =~= rest.push(scope.last()));
        if rest.contains(name) {
            let j = choose|j: int| 0 <= j < rest.len() && rest[j] == name;
            assert(scope[j] == name);
        }
        if scope.contains(name) && scope.last() != name {
            let j = choose|j: int| 0 <= j < scope.len() && scope[j] == name;
            assert(rest[j] == name);
        }
    }
}

/// The indices of the translation of `e` under `scope` all point at binders
/// inside it or in `scope`, and when every name of `e` is bound no free
/// variable is left in it.
pub proof fn lemma_resolve_well_scoped(e: Expr, scope: Seq<Seq<char>>)
    ensures
        resolve_spec(e, scope) matches Some(b) ==> {
            &&& indices_below(b, scope.len() as int)
            &&& (is_closed(e, scope) ==> !has_free_ref(b))
        },
    decreases e,
{
    match e {
        Expr::Var(name) => lemma_lookup_found(scope, name@),
        Expr::Abs(head, body) => lemma_resolve_well_scoped(*body, scope.push(head@)),
        Expr::App(f, a) => {
            lemma_resolve_well_scoped(*f, scope);
            lemma_resolve_well_scoped(*a, scope);
        },
    }
}

/// Translating a term that binds every name it uses gives a term whose every
/// index `i` has more than `i` abstractions around it, and no free variable.
pub proof fn resolve_closed_is_well_scoped(e: Expr)
    requires
        is_closed(e, Seq::empty()),
    ensures
        resolve_spec(e, Seq::empty()) matches Some(b) ==> indices_below(b, 0) && !has_free_ref(b),
{
    lemma_resolve_well_scoped(e, Seq::empty());
}

/// Translation fails only on an index beyond `i32`: with no more binders in
/// reach than that, it always succeeds.
pub proof fn resolve_succeeds(e: Expr, scope: Seq<Seq<char>>)
    requires
        scope.len() + binder_depth(e) <= i32::MAX + 1,
    ensures
        resolve_spec(e, scope) is Some,
    decreases e,
{
    match e {
        Expr::Var(name) => lemma_lookup_found(scope, name@),
        Expr::Abs(head, body) => resolve_succeeds(*body, scope.push(head@)),
        Expr::App(f, a) => {
            resolve_succeeds(*f, scope);
            resolve_succeeds(*a, scope);
        },
    }
}

/// The innermost binder of a name wins: under two binders of `x`, `x` is
/// index 0, whatever the enclosing scope.
pub proof fn inner_binder_shadows(x: String, scope: Seq<Seq<char>>)
    ensures
        resolve_spec(
            Expr::Abs(x, Box::new(Expr::Abs(x, Box::new(Expr::Var(x))))),
            scope,
        ) == Some(Bruijn::Abs(Box::new(Bruijn::Abs(Box::new(Bruijn::Val(0)))))),
{
    let inner = scope.push(x@).push(x@);
    assert(lookup_spec(inner, x@) == Some(0nat));
    assert(resolve_spec(Expr::Var(x), inner) == Some(Bruijn::Val(0)));
    assert(resolve_spec(Expr::Abs(x, Box::new(Expr::Var(x))), scope.push(x@)) == Some(
        Bruijn::Abs(Box::new(Bruijn::Val(0))),
    ));
}

/// An application opens no scope: both of its sides resolve a name bound
/// innermost in the scope to the same index 0.
pub proof fn application_shares_scope(x: String, scope: Seq<Seq<char>>)
    requires
        scope.len() > 0,
        scope.last() == x@,
    ensures
        resolve_spec(Expr::App(Box::new(Expr::Var(x)), Box::new(Expr::Var(x))), scope) == Some(
            Bruijn::App(Box::new(Bruijn::Val(0)), Box::new(Bruijn::Val(0))),
        ),
{
    assert(lookup_spec(scope, x@) == Some(0nat));
    assert(resolve_spec(Expr::Var(x), scope) == Some(Bruijn::Val(0)));
}

/// The identity function, translated and applied to a free variable,
/// evaluates to that variable.
pub proof fn identity_returns_argument(a: String, v: String)
    ensures
        resolve_spec(Expr::Abs(a, Box::new(Expr::Var(a))), Seq::empty()) matches Some(id)
            && eval_spec(Bruijn::App(Box::new(id), Box::new(Bruijn::Lit(v)))) == Bruijn::Lit(v),
{
    let inner = Seq::<Seq<char>>::empty().push(a@);
    assert(lookup_spec(inner, a@) == Some(0nat));
    assert(resolve_spec(Expr::Var(a), inner) == Some(Bruijn::Val(0)));
    let id = Bruijn::Abs(Box::new(Bruijn::Val(0)));
    assert(eval_spec(id) == id);
    assert(subst_spec(Bruijn::Val(0), 0, Bruijn::Lit(v)) == Bruijn::Lit(v));
}

fn match_expr(expr: &Expr, scope: &mut Vec<String>) -> (r: Option<Bruijn>)
    ensures
        final(scope)@ == old(scope)@,
        r == resolve_spec(*expr, names_of(old(scope)@)),
    decreases expr,
{
    match expr {
        Expr::Var(varid) => match lookup(scope, varid) {
            Some(d) => {
                if d <= i32::MAX as usize {
                    Some(Bruijn::Val(d as i32))
                } else {
                    None
                }
            },
            None => Some(Bruijn::Lit(varid.clone())),
        },
        Expr::Abs(head, body) => {
            let ghost before = scope@;
            scope.push(head.clone());
            assert(names_of(scope@) =~= names_of(before).push(head@));
            let new_body = match_expr(body, scope);
            scope.pop();
            assert(scope@ =~= before);
            match new_body {
                Some(b) => Some(Bruijn::Abs(Box::new(b))),
                None => None,
            }
        },
        Expr::App(expr1, expr2) => {
            let new_expr1 = match_expr(expr1, scope);
            let new_expr2 = match_expr(expr2, scope);
            match (new_expr1, new_expr2) {
                (Some(g), Some(b)) => Some(Bruijn::App(Box::new(g), Box::new(b))),
                _ => None,
            }
        },
    }
}

/// Translates `expr` to de Bruijn form under the binders `scope`, innermost
/// last: a name is resolved to its innermost binder, whether that binder lies
/// in `expr` or in `scope`.
pub fn expr_to_bruijn_in(expr: &Expr, scope: &Vec<String>) -> (r: Option<Bruijn>)
    ensures
        r == resolve_spec(*expr, names_of(scope@)),
{
    let mut stack: Vec<String> = Vec::new();
    let mut i: usize = 0;
    while i < scope.len()
        invariant
            i <= scope.len(),
            stack@ == scope@.subrange(0, i as int),
        decreases scope.len() - i,
    {
        stack.push(scope[i].clone());
        assert(stack@ =~= scope@.subrange(0, i + 1));
        i = i + 1;
    }
    assert(stack@ =~= scope@);
    match_expr(expr, &mut stack)
}

/// Translates a closed or open term to de Bruijn form: bound names become
/// indices, free names become `Lit`.
pub fn expr_to_bruijn(expr: &Expr) -> (r: Option<Bruijn>)
    ensures
        r == resolve_spec(*expr, Seq::empty()),
{
    let mut scope: Vec<String> = Vec::new();
    assert(names_of(scope@) =~= Seq::empty());
    match_expr(expr, &mut scope)
}

} // verus!
