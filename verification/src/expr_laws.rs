//! What holds of lowering an expression.
use vstd::prelude::*;

use crate::accounts::{collected, depth, refusal, refused, refused_at, tells_expr};
use crate::ast::{
    supported, supported_block, supported_def, supported_var, Accessor, Array, Attribute, BinOp,
    Block, Call, Def, DefBody, Expr, KwArg, Lambda, Literal, Local, PosArg, Signature,
    SubrSignature, UnaryOp, VarPattern, VarSignature,
};
use crate::context::{
    ContextKind, ParamInfo, QueryView, RegistrationMode, Reply, ScopeView, State, Visibility,
};
use crate::error::{Location, LowerErrorView};
use crate::evidence::{
    acc_backed, asked_at, backed, backs_expr, block_backed, body_backed, carried_t, def_backed,
    ends_in, entered_at, gives_back, lambda_backed, lemma_carried_t, lemma_reads_on,
    lemma_reads_on_refl, reads_on, reply_at, subr_backed, var_backed, was_found,
};
use crate::hir::{block_t, expr_t, typed, AccessorView, ExprView, KwArgView, SignatureView};
use crate::laws::{all_param_tys, parameters_are_split};
use crate::outside::bounds_in;
use crate::proofs::{
    goes_on, lemma_check_body_t, lemma_define_subr, lemma_define_var, lemma_expr, lemma_exprs,
    lemma_grow, lemma_in_lambda, lemma_kw_args, lemma_pos_args, lemma_subr_def, lemma_var_def,
};
use crate::semantics::{
    check_body_t, grow, import, lower_acc, lower_array, lower_bin, lower_block, lower_call,
    lower_def, lower_expr, lower_exprs, lower_in_lambda, lower_kw_args, lower_lambda,
    lower_pos_args, lower_subr_def, lower_unary, lower_var_def, Res,
};
use crate::text::lambda_name;
use crate::token::{Token, TokenKind};
use crate::ty::{opt_str_view, CalleeTyView, TyView};

verus! {

/// An expression has a type just if it carries one, and then it is that: a literal by its token, a
/// name, an array and a lambda the type they were given, an operation and a call what is given
/// back, and a definition that of `None`.
pub proof fn types_are_carried(h: ExprView)
    ensures
        typed(h) <==> carried_t(h) is Some,
        carried_t(h) matches Some(t) ==> expr_t(h) == t,
{
    lemma_carried_t(h);
}

/// Every type in a typed tree is what the context gave for that part of the tree while it was
/// lowered.
pub proof fn types_come_from_the_context(st: State, expr: Expr, check: bool)
    ensures
        lower_expr(st, expr, check).1 matches Res::Val(h) ==> backed(
            st,
            lower_expr(st, expr, check).0,
            st.scopes.last(),
            h,
            expr,
            check,
        ),
{
    let out = lower_expr(st, expr, check);
    lemma_reads_on_refl(st);
    lemma_reads_on_refl(out.0);
    if out.1 is Val {
        backs_expr(st, out.0, st, expr, check);
    }
}

/// A variable is looked up in the current scope. It has the type that the context replies and, if
/// the reply is an error, that error is what comes of it.
pub proof fn variables_are_looked_up(st: State, name: Local)
    ensures
        ({
            let out = lower_expr(st, Expr::Accessor(Accessor::Local(name)), true);
            let var_t = QueryView::VarT {
                symbol: name.symbol,
                namespace: st.scopes.last().name,
            };
            let uniq_name = QueryView::UniqObjName { symbol: name.symbol };
            &&& out.0.scopes == st.scopes
            &&& out.0.errs == st.errs
            &&& st.pending.len() == 0 ==> out.1 == Res::<ExprView>::Ask(var_t)
            &&& st.pending.len() > 0 ==> match st.pending[0] {
                Reply::VarT(Err(e)) => out.1 == Res::<ExprView>::Fail(e@) && out.0.asked
                    == st.asked.push(var_t),
                Reply::VarT(Ok(t)) => if st.pending.len() == 1 || !(st.pending[1] is UniqObjName) {
                    out.1 == Res::<ExprView>::Ask(uniq_name) && out.0.asked == st.asked.push(var_t)
                } else {
                    &&& out.0.asked == st.asked.push(var_t).push(uniq_name)
                    &&& st.pending[1] matches Reply::UniqObjName(given) && out.1 == Res::Val(
                        ExprView::Accessor(
                            AccessorView::Local {
                                name: name.symbol,
                                uniq_name: opt_str_view(given),
                                t: t@,
                            },
                        ),
                    )
                },
                _ => out.1 == Res::<ExprView>::Ask(var_t) && out.0.asked == st.asked,
            }
        }),
{
    reveal_with_fuel(lower_expr, 2);
    assert(lower_acc(st, Accessor::Local(name), true).0.scopes == st.scopes);
    let var_t = QueryView::VarT { symbol: name.symbol, namespace: st.scopes.last().name };
    if st.pending.len() > 1 {
        assert(st.answered(var_t).pending[0] == st.pending[1]);
    }
}

/// A variable that is an argument of a call, positional or by keyword, is looked up: it has the
/// type that the context replied about it, and an error in such a reply is what comes of the call,
/// once the scopes entered since are left.
pub proof fn arguments_are_looked_up(st: State, call: Call, check: bool)
    ensures
        ({
            let (end, r) = lower_expr(st, Expr::Call(call), check);
            let pos = call.args.pos_args@;
            let kw = call.args.kw_args@;
            &&& r matches Res::Val(h) ==> (h matches ExprView::Call(h) && {
                &&& h.pos_args.len() == pos.len()
                &&& h.kw_args.len() == kw.len()
                &&& forall|i: int|
                    0 <= i < pos.len() ==> ((#[trigger] pos[i]).expr matches Expr::Accessor(
                        Accessor::Local(name),
                    ) ==> (h.pos_args[i] matches ExprView::Accessor(
                        AccessorView::Local { t, uniq_name, .. },
                    ) && was_found(st, end, st.scopes.last(), name.symbol, uniq_name, t)))
                &&& forall|i: int|
                    0 <= i < kw.len() ==> ((#[trigger] kw[i]).expr matches Expr::Accessor(
                        Accessor::Local(name),
                    ) ==> (h.kw_args[i].expr matches ExprView::Accessor(
                        AccessorView::Local { t, uniq_name, .. },
                    ) && was_found(st, end, st.scopes.last(), name.symbol, uniq_name, t)))
            })
            &&& forall|i: int, symbol: Token, namespace: Seq<char>| #[trigger]
                asked_at(st, end, i, QueryView::VarT { symbol, namespace }) ==> (reply_at(
                    st,
                    i,
                ) matches Reply::VarT(Err(e)) ==> r == Res::<ExprView>::Fail(e@) || r
                    == Res::<ExprView>::Ask(QueryView::Pop))
        }),
{
    types_come_from_the_context(st, Expr::Call(call), check);
    refusals_decide(st, Expr::Call(call), check);
    let (end, r) = lower_expr(st, Expr::Call(call), check);
    let pos = call.args.pos_args@;
    let kw = call.args.kw_args@;
    match r {
        Res::Val(h) => match h {
            ExprView::Call(h) => {
                assert forall|i: int| 0 <= i < pos.len() implies ((
                #[trigger] pos[i]).expr matches Expr::Accessor(Accessor::Local(name)) ==> (
                h.pos_args[i] matches ExprView::Accessor(AccessorView::Local { t, uniq_name, .. })
                    && was_found(st, end, st.scopes.last(), name.symbol, uniq_name, t))) by {
                    lemma_backed_local(st, end, st.scopes.last(), h.pos_args[i], pos[i].expr);
                }
                assert forall|i: int| 0 <= i < kw.len() implies ((
                #[trigger] kw[i]).expr matches Expr::Accessor(Accessor::Local(name)) ==> (
                h.kw_args[i].expr matches ExprView::Accessor(
                    AccessorView::Local { t, uniq_name, .. },
                ) && was_found(st, end, st.scopes.last(), name.symbol, uniq_name, t))) by {
                    lemma_backed_local(st, end, st.scopes.last(), h.kw_args[i].expr, kw[i].expr);
                }
            },
            _ => {},
        },
        _ => {},
    }
}

/// A variable that is an element of an array is looked up, where the array is: it has the type that
/// the context replied about it, and an error in such a reply is what comes of the array, once the
/// scopes entered since are left.
pub proof fn elements_are_looked_up(st: State, array: Array)
    ensures
        ({
            let (end, r) = lower_expr(st, Expr::Array(array), true);
            let elems = array.elems.pos_args@;
            &&& r matches Res::Val(h) ==> (h matches ExprView::Array(h) && {
                &&& h.elems.len() == elems.len()
                &&& forall|i: int|
                    0 <= i < elems.len() ==> ((#[trigger] elems[i]).expr matches Expr::Accessor(
                        Accessor::Local(name),
                    ) ==> (h.elems[i] matches ExprView::Accessor(
                        AccessorView::Local { t, uniq_name, .. },
                    ) && was_found(st, end, st.scopes.last(), name.symbol, uniq_name, t)))
            })
            &&& forall|i: int, symbol: Token, namespace: Seq<char>| #[trigger]
                asked_at(st, end, i, QueryView::VarT { symbol, namespace }) ==> (reply_at(
                    st,
                    i,
                ) matches Reply::VarT(Err(e)) ==> r == Res::<ExprView>::Fail(e@) || r
                    == Res::<ExprView>::Ask(QueryView::Pop))
        }),
{
    types_come_from_the_context(st, Expr::Array(array), true);
    refusals_decide(st, Expr::Array(array), true);
    let (end, r) = lower_expr(st, Expr::Array(array), true);
    let elems = array.elems.pos_args@;
    match r {
        Res::Val(h) => match h {
            ExprView::Array(h) => {
                assert forall|i: int| 0 <= i < elems.len() implies ((
                #[trigger] elems[i]).expr matches Expr::Accessor(Accessor::Local(name)) ==> (
                h.elems[i] matches ExprView::Accessor(AccessorView::Local { t, uniq_name, .. })
                    && was_found(st, end, st.scopes.last(), name.symbol, uniq_name, t))) by {
                    lemma_backed_local(st, end, st.scopes.last(), h.elems[i], elems[i].expr);
                }
            },
            _ => {},
        },
        _ => {},
    }
}

proof fn lemma_backed_local(
    from: State,
    to: State,
    scope: ScopeView,
    h: ExprView,
    expr: Expr,
)
    requires
        backed(from, to, scope, h, expr, true),
    ensures
        expr matches Expr::Accessor(Accessor::Local(name)) ==> (h matches ExprView::Accessor(
            AccessorView::Local { t, uniq_name, .. },
        ) && was_found(from, to, scope, name.symbol, uniq_name, t)),
{
    reveal_with_fuel(backed, 2);
}

/// What the context refuses decides what comes of an expression. If it refuses nothing there is no
/// error. An error is the first by which it refuses something, and it is all that comes of the
/// expression, once the scopes entered since are left.
pub proof fn refusals_decide(st: State, expr: Expr, check: bool)
    ensures
        ({
            let (end, r) = lower_expr(st, expr, check);
            &&& forall|i: int|
                st.asked.len() <= i < end.asked.len() ==> (refusal(
                    #[trigger] end.asked[i],
                    reply_at(st, i),
                ) matches Some(e) ==> r == Res::<ExprView>::Fail(e) || r == Res::<ExprView>::Ask(
                    QueryView::Pop,
                ))
            &&& r matches Res::Fail(e) ==> exists|i: int|
                st.asked.len() <= i < end.asked.len() && refusal(
                    #[trigger] end.asked[i],
                    reply_at(st, i),
                ) == Some(e)
            &&& forall|i: int, j: int|
                st.asked.len() <= i < j < end.asked.len() && refusal(
                    #[trigger] end.asked[i],
                    reply_at(st, i),
                ) is Some ==> #[trigger] end.asked[j] == QueryView::Pop
        }),
{
    tells_expr(st, expr, check);
    let (end, r) = lower_expr(st, expr, check);
    match r {
        Res::Fail(e) => lemma_refused(st, end, e),
        Res::Ask(_) => {
            if exists|e: LowerErrorView| #[trigger] refused(st, end, e) {
                let e = choose|e: LowerErrorView| #[trigger] refused(st, end, e);
                lemma_refused(st, end, e);
            }
        },
        _ => {},
    }
}

/// A run that stops at an error has no other.
proof fn lemma_refused(from: State, to: State, e: LowerErrorView)
    requires
        refused(from, to, e),
    ensures
        exists|i: int|
            from.asked.len() <= i < to.asked.len() && refusal(
                #[trigger] to.asked[i],
                reply_at(from, i),
            ) == Some(e),
        forall|i: int|
            from.asked.len() <= i < to.asked.len() ==> (refusal(
                #[trigger] to.asked[i],
                reply_at(from, i),
            ) matches Some(other) ==> other == e),
        forall|i: int, j: int|
            from.asked.len() <= i < j < to.asked.len() && refusal(
                #[trigger] to.asked[i],
                reply_at(from, i),
            ) is Some ==> #[trigger] to.asked[j] == QueryView::Pop,
{
    let at = choose|i: int| refused_at(from, to, e, i);
    assert forall|i: int| from.asked.len() <= i < to.asked.len() implies (refusal(
        #[trigger] to.asked[i],
        reply_at(from, i),
    ) matches Some(other) ==> other == e && i == at) by {
        if i < at {
            assert(refusal(to.asked[i], reply_at(from, i)) is None);
        } else if i > at {
            assert(to.asked[i] == QueryView::Pop);
        }
    }
}

/// The errors that lowering an expression collects are those that the context has of the scopes
/// that are left, and a mismatch for each two types that it could not unify, in the order in which
/// they come up.
pub proof fn errors_are_collected_in_order(st: State, expr: Expr, check: bool)
    ensures
        ({
            let end = lower_expr(st, expr, check).0;
            collected(
                end.errs.skip(st.errs.len() as int),
                end.asked.skip(st.asked.len() as int),
                st.pending.take(end.asked.len() - st.asked.len()),
            )
        }),
{
    tells_expr(st, expr, check);
}

/// Lowering an expression is as many scopes further in as the context was had enter and not leave.
/// So at a value or an error each scope that was entered has been left.
pub proof fn scopes_are_left_as_often_as_entered(st: State, expr: Expr, check: bool)
    ensures
        ({
            let (end, r) = lower_expr(st, expr, check);
            let n = depth(st.pending.take(end.asked.len() - st.asked.len()));
            &&& end.scopes.len() == st.scopes.len() + n
            &&& r is Val || r is Fail ==> n == 0
        }),
{
    tells_expr(st, expr, check);
    lemma_expr(st, expr, check);
}

/// The type of a lambda is that of a subroutine, below a quantifier if there are bounds. It is a
/// procedure or a function as its arrow says. Its two lists of parameters hold between them every
/// parameter that the context gave for its scope, with its name and type, those with a default in
/// the first; and it gives back what the last expression of its body does.
pub proof fn lambda_types_hold_their_parameters(st: State, lambda: Lambda, check: bool)
    ensures
        ({
            let (end, r) = lower_expr(st, Expr::Lambda(lambda), check);
            let n = end.asked.len() as int;
            r matches Res::Val(h) ==> (h matches ExprView::Lambda(h) && {
                &&& n - 3 > st.asked.len()
                &&& end.asked[n - 3] == QueryView::ScopeParams
                &&& reply_at(st, n - 3) matches Reply::ParamInfos(params) && (reply_at(
                    st,
                    n - 2,
                ) matches Reply::Bounds(Ok(bounds)) && {
                    let below = match h.t {
                        TyView::Quantified { unbound_callable, .. } => *unbound_callable,
                        t => t,
                    };
                    &&& h.t matches TyView::Quantified { bounds: b, .. } ==> b == *bounds
                    &&& h.t is Quantified <==> bounds_in(*bounds) != Set::<
                        erg_common::ty::TyBound,
                    >::empty()
                    &&& below matches TyView::Callee(
                        CalleeTyView::Subr { kind, non_default_params, default_params, return_t },
                    ) && {
                        &&& kind is Proc <==> lambda.op.kind == TokenKind::ProcArrow
                        &&& kind is Func <==> lambda.op.kind != TokenKind::ProcArrow
                        &&& non_default_params.to_multiset().add(default_params.to_multiset())
                            == all_param_tys(params@).to_multiset()
                        &&& non_default_params == all_param_tys(
                            params@.filter(|p: ParamInfo| p.has_default),
                        )
                        &&& default_params == all_param_tys(
                            params@.filter(|p: ParamInfo| !p.has_default),
                        )
                        &&& ends_in(h.body, *return_t)
                    }
                })
            })
        }),
{
    let (end, r) = lower_expr(st, Expr::Lambda(lambda), check);
    let procedural = lambda.op.kind == TokenKind::ProcArrow;
    let kind = if procedural {
        ContextKind::Proc
    } else {
        ContextKind::Func
    };
    let name = lambda_name(lambda.sig@.id);
    let st1 = grow(st, name, kind).0;
    let (st2, r2) = lower_in_lambda(st1, lambda);
    lemma_grow(st, name, kind);
    lemma_in_lambda(st1, lambda);
    match (r, r2) {
        (Res::Val(_), Res::Val((body, params, _))) => {
            lemma_lambda_end(st, st1, lambda);
            lemma_carried_t(body.last());
            parameters_are_split(params);
            assert((|p: ParamInfo| p.has_default == true) =~= (|p: ParamInfo| p.has_default));
            assert((|p: ParamInfo| p.has_default == false) =~= (|p: ParamInfo| !p.has_default));
        },
        _ => {},
    }
}

/// What is asked last in the scope of a lambda.
proof fn lemma_lambda_end(st: State, st1: State, lambda: Lambda)
    requires
        goes_on(st, st1),
        st1.asked.len() > st.asked.len(),
        lower_in_lambda(st1, lambda).1 is Val,
    ensures
        lower_in_lambda(st1, lambda).1 matches Res::Val((_, params, bounds)) && {
            let end = lower_in_lambda(st1, lambda).0;
            let n = end.asked.len() as int;
            &&& n - 2 > st.asked.len()
            &&& end.asked[n - 2] == QueryView::ScopeParams
            &&& end.asked[n - 1] == (QueryView::InstantiateTyBounds {
                bounds: lambda.sig@.bounds,
                mode: RegistrationMode::Normal,
            })
            &&& reply_at(st, n - 2) matches Reply::ParamInfos(given) && given@ == params
            &&& reply_at(st, n - 1) matches Reply::Bounds(Ok(given)) && *given == bounds
        },
{
    let st2 = st1.answered(QueryView::AssignParams { params: lambda.sig@.params });
    let st3 = st2.answered(QueryView::Preregister { block: lambda.body });
    let (st4, _) = lower_exprs(st3, Seq::empty(), lambda.body.exprs@);
    let st5 = st4.answered(QueryView::ScopeParams);
    lemma_exprs(st3, Seq::empty(), lambda.body.exprs@);
    assert(st4.pending == st3.pending.skip(st4.asked.len() - st3.asked.len()));
    assert(st4.pending[0] == reply_at(st, st4.asked.len() as int));
    assert(st5.pending[0] == st4.pending[1]);
}

/// The state in a scope that was entered from another state, when some queries of a run have been
/// answered and no error has been added.
pub open spec fn inside(st: State, to: State, kind: ContextKind, n: int) -> State {
    let made = reply_at(st, st.asked.len() as int)->Grown_0->Ok_0;
    State {
        scopes: st.scopes.push(ScopeView { name: made.name@, kind, level: made.level }),
        errs: st.errs,
        pending: st.pending.skip(n),
        asked: to.asked.take(st.asked.len() + n),
    }
}

/// A state past some queries of a run that add no error and stay in the scope.
pub open spec fn past(st: State, to: State, n: int) -> State {
    State { pending: st.pending.skip(n), asked: to.asked.take(st.asked.len() + n), ..st }
}

/// Past some queries in a scope that was just entered is inside of it.
proof fn lemma_inside(
    st: State,
    in_scope: State,
    to: State,
    name: Seq<char>,
    kind: ContextKind,
    n: int,
)
    requires
        grow(st, name, kind).1 is Val,
        reads_on(grow(st, name, kind).0, in_scope),
        in_scope.asked.is_prefix_of(to.asked),
        0 <= n <= in_scope.asked.len() - grow(st, name, kind).0.asked.len(),
    ensures
        inside(st, to, kind, n + 1) == past(grow(st, name, kind).0, in_scope, n),
        to.asked[st.asked.len() as int] == (QueryView::Grow {
            name,
            kind,
            vis: Visibility::Private,
        }),
        reply_at(st, st.asked.len() as int) matches Reply::Grown(Ok(_)),
{
    let st1 = grow(st, name, kind).0;
    let n0 = st.asked.len() as int;
    assert(st1.pending.skip(n) =~= st.pending.skip(n + 1));
    assert(to.asked.take(n0 + n + 1) =~= in_scope.asked.take(st1.asked.len() + n));
    assert(st1.asked[n0] == in_scope.asked[n0]);
    assert(in_scope.asked[n0] == to.asked[n0]);
}

/// A lambda is lowered in a scope of its own, of the kind its arrow says. The parameters are given
/// their types and the names of the body are registered before the body is lowered; after it the
/// parameters and the bounds are asked for, and then the scope is left.
pub proof fn lambdas_are_lowered_in_their_scope(st: State, lambda: Lambda, check: bool)
    ensures
        ({
            let (end, r) = lower_expr(st, Expr::Lambda(lambda), check);
            let asked = end.asked;
            let n0 = st.asked.len() as int;
            let n = asked.len() as int;
            let kind = if lambda.op.kind == TokenKind::ProcArrow {
                ContextKind::Proc
            } else {
                ContextKind::Func
            };
            r matches Res::Val(h) ==> (h matches ExprView::Lambda(h) && {
                let (body_end, body) = lower_exprs(
                    inside(st, end, kind, 3),
                    Seq::empty(),
                    lambda.body.exprs@,
                );
                &&& n >= n0 + 6
                &&& asked[n0] == QueryView::Grow {
                    name: lambda_name(lambda.sig@.id),
                    kind,
                    vis: Visibility::Private,
                }
                &&& reply_at(st, n0) matches Reply::Grown(Ok(_))
                &&& asked[n0 + 1] == QueryView::AssignParams { params: lambda.sig@.params }
                &&& asked[n0 + 2] == QueryView::Preregister { block: lambda.body }
                &&& body == Res::Val(h.body)
                &&& asked == body_end.asked + seq![
                    QueryView::ScopeParams,
                    QueryView::InstantiateTyBounds {
                        bounds: lambda.sig@.bounds,
                        mode: RegistrationMode::Normal,
                    },
                    QueryView::Pop,
                ]
            })
        }),
{
    let (end, r) = lower_expr(st, Expr::Lambda(lambda), check);
    let n0 = st.asked.len() as int;
    let kind = if lambda.op.kind == TokenKind::ProcArrow {
        ContextKind::Proc
    } else {
        ContextKind::Func
    };
    let name = lambda_name(lambda.sig@.id);
    let assign = QueryView::AssignParams { params: lambda.sig@.params };
    let register = QueryView::Preregister { block: lambda.body };
    let st1 = grow(st, name, kind).0;
    let st2 = st1.answered(assign);
    let st3 = st2.answered(register);
    let (st4, r4) = lower_exprs(st3, Seq::empty(), lambda.body.exprs@);
    if r is Val {
        assert(lower_lambda(st, lambda).1 is Val);
        assert(lower_in_lambda(st1, lambda).1 is Val);
        let st6 = lower_in_lambda(st1, lambda).0;
        lemma_exprs(st3, Seq::empty(), lambda.body.exprs@);
        lemma_in_lambda(st1, lambda);
        lemma_reads_on(st1, st6);
        assert(end.asked =~= st4.asked + seq![
            QueryView::ScopeParams,
            QueryView::InstantiateTyBounds {
                bounds: lambda.sig@.bounds,
                mode: RegistrationMode::Normal,
            },
            QueryView::Pop,
        ]);
        assert(st4.asked.is_prefix_of(st6.asked)) by {
            assert(st4.asked =~= st6.asked.subrange(0, st4.asked.len() as int));
        }
        lemma_prefix(st3.asked, st4.asked, st6.asked);
        assert(past(st1, st6, 2) == st3) by {
            assert(st3.pending =~= st1.pending.skip(2));
            assert(st3.asked =~= st6.asked.take(n0 + 3));
        }
        lemma_inside(st, st6, end, name, kind, 2);
        assert(st3.asked[n0 + 1] == assign);
        assert(st3.asked[n0 + 2] == register);
        assert(st4.asked[n0 + 1] == st3.asked[n0 + 1]);
        assert(st4.asked[n0 + 2] == st3.asked[n0 + 2]);
    }
}

/// A subroutine is defined in a scope of its own. Its type outside is asked for, its parameters are
/// given their types and the names of its body are registered before the body is lowered. Then the
/// type of the last expression of the body, and no other, is unified with what the type outside
/// gives back and, whatever comes of that, assigned to the subroutine; and the scope is left.
pub proof fn subroutines_get_the_type_of_their_last_expression(
    st: State,
    def: Def,
    sig: SubrSignature,
    check: bool,
)
    requires
        def.sig == Signature::Subr(sig),
    ensures
        ({
            let (end, r) = lower_expr(st, Expr::Def(def), check);
            let asked = end.asked;
            let n0 = st.asked.len() as int;
            let n = asked.len() as int;
            r matches Res::Val(h) ==> (h matches ExprView::Def(h) && (
            h.sig matches SignatureView::Subr { sig_t, .. } && (carried_t(
                h.block.last(),
            ) matches Some(t) && {
                let (body_end, body) = lower_exprs(
                    inside(st, end, ContextKind::Instant, 4),
                    Seq::empty(),
                    def.body.block.exprs@,
                );
                let u = body_end.asked.len() as int;
                &&& h.block.len() > 0
                &&& n >= n0 + 6
                &&& asked[n0] == QueryView::Grow {
                    name: sig.name.content@,
                    kind: ContextKind::Instant,
                    vis: Visibility::Private,
                }
                &&& asked[n0 + 1] == QueryView::OuterSubrT { name: sig.name.content@ }
                &&& reply_at(st, n0 + 1) matches Reply::OuterSubrT(given) && given@ == sig_t
                &&& asked[n0 + 2] == QueryView::AssignParams { params: sig.params }
                &&& asked[n0 + 3] == QueryView::Preregister { block: def.body.block }
                &&& body == Res::Val(h.block)
                &&& asked[u] matches QueryView::Unify { expect, found, loc } && Some(expect)
                    == gives_back(sig_t) && found == t && loc == sig.place()
                &&& n == u + 3 || (n == u + 4 && asked[u + 1] == QueryView::CausedBy)
                &&& n == u + 3 <==> (reply_at(st, u) matches Reply::Done(Ok(_)))
                &&& asked[n - 2] == QueryView::AssignSubr { sig, id: def.body.id, t }
                &&& asked[n - 1] == QueryView::Pop
            })))
        }),
{
    let (end, r) = lower_expr(st, Expr::Def(def), check);
    let n0 = st.asked.len() as int;
    let name = sig.name.content@;
    let st1 = grow(st, name, ContextKind::Instant).0;
    let (st2, r2) = lower_subr_def(st1, sig, def.body);
    if r is Val {
        assert(lower_def(st, def).1 is Val);
        lemma_subr_queries(st1, sig, def.body);
        assert(end.asked == st2.asked.push(QueryView::Pop));
        lemma_inside(st, st2, end, name, ContextKind::Instant, 3);
        let u = lower_exprs(
            past(st1, st2, 3),
            Seq::empty(),
            def.body.block.exprs@,
        ).0.asked.len() as int;
        assert(reply_at(st, n0 + 1) == reply_at(st1, n0 + 1));
        assert(reply_at(st, u) == reply_at(st1, u));
        assert(end.asked[n0 + 1] == st2.asked[n0 + 1]);
        assert(end.asked[n0 + 2] == st2.asked[n0 + 2]);
        assert(end.asked[n0 + 3] == st2.asked[n0 + 3]);
        assert(end.asked[u] == st2.asked[u]);
        assert(end.asked[u + 1] == st2.asked[u + 1]);
    }
}

/// What is asked in the scope of the definition of a subroutine.
#[verifier::spinoff_prover]
proof fn lemma_subr_queries(st: State, sig: SubrSignature, body: DefBody)
    requires
        lower_subr_def(st, sig, body).1 is Val,
    ensures
        ({
            let (end, r) = lower_subr_def(st, sig, body);
            let asked = end.asked;
            let n0 = st.asked.len() as int;
            let n = asked.len() as int;
            &&& reads_on(st, end)
            &&& r matches Res::Val(h) && (h.sig matches SignatureView::Subr { sig_t, .. } && (
            carried_t(h.block.last()) matches Some(t) && {
                let (body_end, block) = lower_exprs(
                    past(st, end, 3),
                    Seq::empty(),
                    body.block.exprs@,
                );
                let u = body_end.asked.len() as int;
                &&& h.block.len() > 0
                &&& n0 + 3 <= u
                &&& asked[n0] == QueryView::OuterSubrT { name: sig.name.content@ }
                &&& reply_at(st, n0) matches Reply::OuterSubrT(given) && given@ == sig_t
                &&& asked[n0 + 1] == QueryView::AssignParams { params: sig.params }
                &&& asked[n0 + 2] == QueryView::Preregister { block: body.block }
                &&& block == Res::Val(h.block)
                &&& asked[u] matches QueryView::Unify { expect, found, loc } && Some(expect)
                    == gives_back(sig_t) && found == t && loc == sig.place()
                &&& n == u + 2 || (n == u + 3 && asked[u + 1] == QueryView::CausedBy)
                &&& n == u + 2 <==> (reply_at(st, u) matches Reply::Done(Ok(_)))
                &&& asked[n - 1] == QueryView::AssignSubr { sig, id: body.id, t }
            }))
        }),
{
    let (end, r) = lower_subr_def(st, sig, body);
    let n0 = st.asked.len() as int;
    let name = sig.name.content@;
    let outer = QueryView::OuterSubrT { name };
    let assign = QueryView::AssignParams { params: sig.params };
    let register = QueryView::Preregister { block: body.block };
    let st2 = st.answered(outer);
    let st3 = st2.answered(assign);
    let st4 = st3.answered(register);
    let (st5, r5) = lower_exprs(st4, Seq::empty(), body.block.exprs@);
    assert(lower_block(st4, body.block) == (st5, r5));
    lemma_exprs(st4, Seq::empty(), body.block.exprs@);
    lemma_subr_def(st, sig, body);
    lemma_reads_on(st, end);
    match (r5, st.reply()) {
        (Res::Val(block), Some(Reply::OuterSubrT(sig_t))) => {
            lemma_carried_t(block.last());
            let t = carried_t(block.last()).unwrap();
            let expect = sig_t@.return_t().unwrap();
            let unify = QueryView::Unify { expect, found: t, loc: sig.place() };
            let define = QueryView::AssignSubr { sig, id: body.id, t };
            let st6 = check_body_t(st5, sig.place(), name, Some(expect), t).0;
            assert(end.asked == st6.asked.push(define));
            if st5.pending[0] matches Reply::Done(Ok(_)) {
                assert(st6.asked == st5.asked.push(unify));
            } else {
                assert(st6.asked == st5.asked.push(unify).push(QueryView::CausedBy));
            }
            assert(st5.asked.is_prefix_of(end.asked)) by {
                assert(st5.asked =~= end.asked.subrange(0, st5.asked.len() as int));
            }
            lemma_prefix(st4.asked, st5.asked, end.asked);
            assert(past(st, end, 3) == st4) by {
                assert(st4.pending =~= st.pending.skip(3));
                assert(st4.asked =~= end.asked.take(n0 + 3));
            }
            assert(st4.asked[n0] == outer);
            assert(st4.asked[n0 + 1] == assign);
            assert(st4.asked[n0 + 2] == register);
            assert(reply_at(st, st5.asked.len() as int) == st5.pending[0]);
            assert(end.asked[st5.asked.len() as int] == unify);
        },
        _ => {},
    }
}

proof fn lemma_prefix<T>(a: Seq<T>, b: Seq<T>, c: Seq<T>)
    requires
        a.is_prefix_of(b),
        b.is_prefix_of(c),
    ensures
        a.is_prefix_of(c),
        forall|i: int| 0 <= i < a.len() ==> a[i] == c[i],
{
    assert forall|i: int| 0 <= i < a.len() implies a[i] == c[i] by {
        assert(a[i] == b[i]);
        assert(b[i] == c[i]);
    }
    assert(a =~= c.subrange(0, a.len() as int));
}

/// A variable is defined in a scope of its own. The names of its body are registered before the
/// body is lowered. Then its type outside is asked for and, if it has one, the type of the last
/// expression of the body, and no other, is unified with it; whatever comes of that, the type of
/// the last expression is assigned to the variable. If the body starts with a call of `import`, the
/// context is had import what the first argument says; and the scope is left.
pub proof fn variables_get_the_type_of_their_last_expression(
    st: State,
    def: Def,
    sig: VarSignature,
    check: bool,
)
    requires
        def.sig == Signature::Var(sig),
    ensures
        ({
            let (end, r) = lower_expr(st, Expr::Def(def), check);
            let asked = end.asked;
            let n0 = st.asked.len() as int;
            let n = asked.len() as int;
            r matches Res::Val(h) ==> (h matches ExprView::Def(h) && (
            h.sig matches SignatureView::Var { t: given, .. } && (carried_t(
                h.block.last(),
            ) matches Some(t) && {
                let (body_end, body) = lower_exprs(
                    inside(st, end, ContextKind::Instant, 2),
                    Seq::empty(),
                    def.body.block.exprs@,
                );
                let p = body_end.asked.len() as int;
                let k = match reply_at(st, p) {
                    Reply::OuterVarT(Some(_)) => if reply_at(st, p + 1) matches Reply::Done(
                        Ok(_),
                    ) {
                        p + 2
                    } else {
                        p + 3
                    },
                    _ => p + 1,
                };
                let imports = h.block[0] matches ExprView::Call(call) && (
                *call.obj matches ExprView::Accessor(AccessorView::Local { name, .. })
                    && name.content@ == "import"@);
                &&& h.block.len() > 0
                &&& given == t
                &&& asked[n0] == QueryView::Grow {
                    name: sig.pat.name_token().unwrap().content@,
                    kind: ContextKind::Instant,
                    vis: Visibility::Private,
                }
                &&& asked[n0 + 1] == QueryView::Preregister { block: def.body.block }
                &&& body == Res::Val(h.block)
                &&& asked[p] == QueryView::OuterVarT {
                    name: sig.pat.name_token().unwrap().content@,
                }
                &&& reply_at(st, p) matches Reply::OuterVarT(expect) && (
                expect matches Some(expect) ==> asked[p + 1] == QueryView::Unify {
                    expect: expect@,
                    found: t,
                    loc: sig.place(),
                } && (k == p + 3 ==> asked[p + 2] == QueryView::CausedBy))
                &&& asked[k] == QueryView::AssignVar { sig, id: def.body.id, t }
                &&& imports ==> asked[k + 1] == QueryView::ImportMod {
                    name: sig.pat.name_token().unwrap(),
                    path: h.block[0]->Call_0.pos_args[0],
                }
                &&& n == if imports {
                    k + 3
                } else {
                    k + 2
                }
                &&& asked[n - 1] == QueryView::Pop
            })))
        }),
{
    let (end, r) = lower_expr(st, Expr::Def(def), check);
    let n0 = st.asked.len() as int;
    let name = sig.pat.name_token().unwrap().content@;
    let st1 = grow(st, name, ContextKind::Instant).0;
    let (st2, r2) = lower_var_def(st1, sig, def.body);
    if r is Val {
        assert(lower_def(st, def).1 is Val);
        lemma_var_queries(st1, sig, def.body);
        assert(end.asked == st2.asked.push(QueryView::Pop));
        lemma_inside(st, st2, end, name, ContextKind::Instant, 1);
        let p = lower_exprs(
            past(st1, st2, 1),
            Seq::empty(),
            def.body.block.exprs@,
        ).0.asked.len() as int;
        assert(reply_at(st, p) == reply_at(st1, p));
        assert(reply_at(st, p + 1) == reply_at(st1, p + 1));
        assert(forall|i: int| 0 <= i < st2.asked.len() ==> end.asked[i] == st2.asked[i]);
    }
}

/// What is asked in the scope of the definition of a variable.
#[verifier::spinoff_prover]
#[verifier::rlimit(30)]
proof fn lemma_var_queries(st: State, sig: VarSignature, body: DefBody)
    requires
        sig.pat.name_token() is Some,
        lower_var_def(st, sig, body).1 is Val,
    ensures
        ({
            let (end, r) = lower_var_def(st, sig, body);
            let asked = end.asked;
            let n0 = st.asked.len() as int;
            let n = asked.len() as int;
            &&& reads_on(st, end)
            &&& r matches Res::Val(h) && (h.sig matches SignatureView::Var { t: given, .. } && (
            carried_t(h.block.last()) matches Some(t) && {
                let (body_end, block) = lower_exprs(
                    past(st, end, 1),
                    Seq::empty(),
                    body.block.exprs@,
                );
                let p = body_end.asked.len() as int;
                let k = match reply_at(st, p) {
                    Reply::OuterVarT(Some(_)) => if reply_at(st, p + 1) matches Reply::Done(
                        Ok(_),
                    ) {
                        p + 2
                    } else {
                        p + 3
                    },
                    _ => p + 1,
                };
                let imports = h.block[0] matches ExprView::Call(call) && (
                *call.obj matches ExprView::Accessor(AccessorView::Local { name, .. })
                    && name.content@ == "import"@);
                &&& h.block.len() > 0
                &&& given == t
                &&& n0 + 1 <= p
                &&& asked[n0] == QueryView::Preregister { block: body.block }
                &&& block == Res::Val(h.block)
                &&& asked[p] == QueryView::OuterVarT {
                    name: sig.pat.name_token().unwrap().content@,
                }
                &&& reply_at(st, p) matches Reply::OuterVarT(expect) && (
                expect matches Some(expect) ==> asked[p + 1] == QueryView::Unify {
                    expect: expect@,
                    found: t,
                    loc: sig.place(),
                } && (k == p + 3 ==> asked[p + 2] == QueryView::CausedBy))
                &&& asked[k] == QueryView::AssignVar { sig, id: body.id, t }
                &&& imports ==> asked[k + 1] == QueryView::ImportMod {
                    name: sig.pat.name_token().unwrap(),
                    path: h.block[0]->Call_0.pos_args[0],
                }
                &&& n == if imports {
                    k + 2
                } else {
                    k + 1
                }
            }))
        }),
{
    let (end, r) = lower_var_def(st, sig, body);
    let n0 = st.asked.len() as int;
    let name = sig.pat.name_token().unwrap().content@;
    let register = QueryView::Preregister { block: body.block };
    let outer = QueryView::OuterVarT { name };
    let st1 = st.answered(register);
    let (st2, r2) = lower_exprs(st1, Seq::empty(), body.block.exprs@);
    let st3 = st2.answered(outer);
    assert(lower_block(st1, body.block) == (st2, r2));
    lemma_exprs(st1, Seq::empty(), body.block.exprs@);
    lemma_var_def(st, sig, body);
    lemma_reads_on(st, end);
    match (r2, st2.reply()) {
        (Res::Val(block), Some(Reply::OuterVarT(expect))) => {
            let expect = match expect {
                Some(expect) => Some(expect@),
                None => None,
            };
            lemma_carried_t(block.last());
            let t = carried_t(block.last()).unwrap();
            let st4 = check_body_t(st3, sig.place(), name, expect, t).0;
            let st5 = st4.answered(QueryView::AssignVar { sig, id: body.id, t });
            assert(end == import(st5, sig.pat, block).0);
            lemma_import_queries(st5, sig.pat, block);
            lemma_check_queries(st3, sig.place(), name, expect, t);
            assert(st3.asked.is_prefix_of(st5.asked)) by {
                assert(st3.asked =~= st5.asked.subrange(0, st3.asked.len() as int));
            }
            lemma_prefix(st3.asked, st5.asked, end.asked);
            lemma_prefix(st4.asked, st5.asked, end.asked);
            assert(st2.asked.is_prefix_of(st3.asked)) by {
                assert(st2.asked =~= st3.asked.subrange(0, st2.asked.len() as int));
            }
            lemma_prefix(st1.asked, st2.asked, st3.asked);
            lemma_prefix(st1.asked, st3.asked, end.asked);
            assert(past(st, end, 1) == st1) by {
                assert(st1.pending =~= st.pending.skip(1));
                assert(st1.asked =~= end.asked.take(n0 + 1));
            }
            let p = st2.asked.len() as int;
            assert(st1.asked[n0] == register);
            assert(st3.asked[p] == outer);
            assert(st2.pending[0] == reply_at(st, p));
            assert(st3.pending.len() > 0 ==> st3.pending[0] == reply_at(st, p + 1));
            assert(end.asked[st5.asked.len() - 1] == st5.asked.last());
        },
        _ => {},
    }
}

/// What is asked to check the type of a body.
proof fn lemma_check_queries(
    st: State,
    loc: Location,
    name: Seq<char>,
    expect: Option<TyView>,
    found: TyView,
)
    requires
        check_body_t(st, loc, name, expect, found).1 is Val,
    ensures
        check_body_t(st, loc, name, expect, found).0.asked == match expect {
            Some(t) => if st.pending[0] matches Reply::Done(Ok(_)) {
                st.asked.push(QueryView::Unify { expect: t, found, loc })
            } else {
                st.asked.push(QueryView::Unify { expect: t, found, loc }).push(
                    QueryView::CausedBy,
                )
            },
            None => st.asked,
        },
        expect is Some ==> st.pending.len() > 0,
{
}

/// What is asked to import a module.
proof fn lemma_import_queries(st: State, pat: VarPattern, block: Seq<ExprView>)
    requires
        pat.name_token() is Some,
        import(st, pat, block).1 is Val,
    ensures
        import(st, pat, block).0.asked == match block[0] {
            ExprView::Call(call) => match *call.obj {
                ExprView::Accessor(AccessorView::Local { name, .. }) => if name.content@
                    == "import"@ {
                    st.asked.push(
                        QueryView::ImportMod {
                            name: pat.name_token().unwrap(),
                            path: call.pos_args[0],
                        },
                    )
                } else {
                    st.asked
                },
                _ => st.asked,
            },
            _ => st.asked,
        },
{
}

/// Whether something comes to what a part of it comes to, where that is no value.
pub open spec fn stops_as<T, U>(out: (State, Res<T>), part: (State, Res<U>)) -> bool {
    &&& out.0 == part.0
    &&& match part.1 {
        Res::Val(_) => false,
        Res::Fail(e) => out.1 == Res::<T>::Fail(e),
        Res::Ask(query) => out.1 == Res::<T>::Ask(query),
        Res::Unsupported => out.1 == Res::<T>::Unsupported,
    }
}

/// Whether, once its parts are lowered, the one thing left to ask was asked last: it waits, or it
/// was answered.
pub open spec fn asks_last(out: (State, Res<ExprView>), parts: State, query: QueryView) -> bool {
    match out.1 {
        Res::Ask(waiting) => waiting == query && out.0 == parts,
        Res::Unsupported => false,
        _ => out.0.asked == parts.asked.push(query) && out.0.errs == parts.errs,
    }
}

/// The left operand is lowered before the right one, and the operator is asked about at the end,
/// with just these operands.
pub proof fn operands_are_lowered_in_order(st: State, bin: BinOp, check: bool)
    ensures
        ({
            let out = lower_expr(st, Expr::BinOp(bin), check);
            let lhs = lower_expr(st, *bin.lhs, true);
            let rhs = lower_expr(lhs.0, *bin.rhs, true);
            match (lhs.1, rhs.1) {
                (Res::Val(l), Res::Val(r)) => {
                    &&& asks_last(
                        out,
                        rhs.0,
                        QueryView::BinOpT {
                            op: bin.op,
                            lhs: l,
                            rhs: r,
                            namespace: st.scopes.last().name,
                        },
                    )
                    &&& out.1 matches Res::Val(h) ==> (h matches ExprView::BinOp(h) && h.op
                        == bin.op && *h.lhs == l && *h.rhs == r)
                },
                (Res::Val(_), _) => stops_as(out, rhs),
                _ => stops_as(out, lhs),
            }
        }),
{
    assert(lower_expr(st, Expr::BinOp(bin), check).0 == lower_bin(st, bin).0);
    let lhs = lower_expr(st, *bin.lhs, true);
    lemma_expr(st, *bin.lhs, true);
    lemma_expr(lhs.0, *bin.rhs, true);
}

/// The operand is lowered first, and the operator is asked about at the end, with just this
/// operand.
pub proof fn operand_is_lowered_first(st: State, unary: UnaryOp, check: bool)
    ensures
        ({
            let out = lower_expr(st, Expr::UnaryOp(unary), check);
            let part = lower_expr(st, *unary.expr, true);
            match part.1 {
                Res::Val(expr) => {
                    &&& asks_last(
                        out,
                        part.0,
                        QueryView::UnaryOpT {
                            op: unary.op,
                            expr,
                            namespace: st.scopes.last().name,
                        },
                    )
                    &&& out.1 matches Res::Val(h) ==> (h matches ExprView::UnaryOp(h) && h.op
                        == unary.op && *h.expr == expr)
                },
                _ => stops_as(out, part),
            }
        }),
{
    assert(lower_expr(st, Expr::UnaryOp(unary), check).0 == lower_unary(st, unary).0);
    lemma_expr(st, *unary.expr, true);
}

/// What an attribute is of is lowered first, and always looked up; then the attribute is asked
/// about, unless it is not to be checked.
pub proof fn object_is_lowered_first(st: State, attr: Attribute, check: bool)
    ensures
        ({
            let out = lower_expr(st, Expr::Accessor(Accessor::Attr(attr)), check);
            let part = lower_expr(st, *attr.obj, true);
            match part.1 {
                Res::Val(obj) => {
                    &&& check ==> asks_last(
                        out,
                        part.0,
                        QueryView::AttrT {
                            obj,
                            name: attr.name.symbol,
                            namespace: st.scopes.last().name,
                        },
                    )
                    &&& !check ==> out.0 == part.0 && out.1 is Val
                    &&& out.1 matches Res::Val(h) ==> (h matches ExprView::Accessor(
                        AccessorView::Attr { obj: o, name, .. },
                    ) && *o == obj && name == attr.name.symbol)
                },
                _ => stops_as(out, part),
            }
        }),
{
    let acc = Accessor::Attr(attr);
    assert(lower_expr(st, Expr::Accessor(acc), check).0 == lower_acc(st, acc, check).0);
    lemma_expr(st, *attr.obj, true);
}

/// An array is asked about first, by the level of the current scope, and then its elements are
/// lowered, and looked up if the array is to be checked.
pub proof fn elements_are_lowered_last(st: State, array: Array, check: bool)
    ensures
        ({
            let out = lower_expr(st, Expr::Array(array), check);
            let query = QueryView::ArrayT { level: st.scopes.last().level };
            let parts = lower_pos_args(
                st.answered(query),
                Seq::empty(),
                array.elems.pos_args@,
                check,
            );
            if st.pending.len() > 0 && st.pending[0] is ArrayT {
                match parts.1 {
                    Res::Val(elems) => {
                        &&& out.0 == parts.0
                        &&& out.1 matches Res::Val(h) && (h matches ExprView::Array(h) && h.elems
                            == elems)
                    },
                    _ => stops_as(out, parts),
                }
            } else {
                out == (st, Res::<ExprView>::Ask(query))
            }
        }),
{
    assert(lower_expr(st, Expr::Array(array), check).0 == lower_array(st, array, check).0);
}

/// The positional arguments of a call are lowered before those by keyword, all of them looked up,
/// and what is called after them, not looked up. The call is asked about at the end, with just
/// these.
pub proof fn arguments_are_lowered_before_the_callee(st: State, call: Call, check: bool)
    ensures
        ({
            let out = lower_expr(st, Expr::Call(call), check);
            let pos = lower_pos_args(st, Seq::empty(), call.args.pos_args@, true);
            let kw = lower_kw_args(pos.0, Seq::empty(), call.args.kw_args@);
            let callee = lower_expr(kw.0, *call.obj, false);
            match (pos.1, kw.1, callee.1) {
                (Res::Val(pos_args), Res::Val(kw_args), Res::Val(obj)) => {
                    &&& asks_last(
                        out,
                        callee.0,
                        QueryView::CallT {
                            obj,
                            pos_args,
                            kw_args,
                            namespace: st.scopes.last().name,
                        },
                    )
                    &&& out.1 matches Res::Val(h) ==> (h matches ExprView::Call(h) && *h.obj == obj
                        && h.pos_args == pos_args && h.kw_args == kw_args)
                },
                (Res::Val(_), Res::Val(_), _) => stops_as(out, callee),
                (Res::Val(_), _, _) => stops_as(out, kw),
                _ => stops_as(out, pos),
            }
        }),
{
    assert(lower_expr(st, Expr::Call(call), check).0 == lower_call(st, call).0);
    let pos = lower_pos_args(st, Seq::empty(), call.args.pos_args@, true);
    let kw = lower_kw_args(pos.0, Seq::empty(), call.args.kw_args@);
    lemma_pos_args(st, Seq::empty(), call.args.pos_args@, true);
    lemma_kw_args(pos.0, Seq::empty(), call.args.kw_args@);
    lemma_expr(kw.0, *call.obj, false);
}

/// Positional arguments are lowered one after the other: what some of them come to is what the
/// others start from.
pub proof fn positional_arguments_are_lowered_in_order(
    st: State,
    done: Seq<ExprView>,
    first: Seq<PosArg>,
    then: Seq<PosArg>,
    check: bool,
)
    ensures
        lower_pos_args(st, done, first + then, check) == match lower_pos_args(
            st,
            done,
            first,
            check,
        ) {
            (st1, Res::Val(hs)) => lower_pos_args(st1, hs, then, check),
            stopped => stopped,
        },
    decreases first.len(),
{
    if first.len() == 0 {
        assert(first + then =~= then);
    } else {
        assert((first + then).drop_first() =~= first.drop_first() + then);
        let (st1, r) = lower_expr(st, first[0].expr, check);
        match r {
            Res::Val(h) => positional_arguments_are_lowered_in_order(
                st1,
                done.push(h),
                first.drop_first(),
                then,
                check,
            ),
            _ => {},
        }
    }
}

/// Keyword arguments are lowered one after the other: what some of them come to is what the others
/// start from.
pub proof fn keyword_arguments_are_lowered_in_order(
    st: State,
    done: Seq<KwArgView>,
    first: Seq<KwArg>,
    then: Seq<KwArg>,
)
    ensures
        lower_kw_args(st, done, first + then) == match lower_kw_args(st, done, first) {
            (st1, Res::Val(hs)) => lower_kw_args(st1, hs, then),
            stopped => stopped,
        },
    decreases first.len(),
{
    if first.len() == 0 {
        assert(first + then =~= then);
    } else {
        assert((first + then).drop_first() =~= first.drop_first() + then);
        let (st1, r) = lower_expr(st, first[0].expr, true);
        match r {
            Res::Val(h) => keyword_arguments_are_lowered_in_order(
                st1,
                done.push(KwArgView { keyword: first[0].keyword, expr: h }),
                first.drop_first(),
                then,
            ),
            _ => {},
        }
    }
}

/// One argument alone, positional or by keyword, and one expression of a block alone, comes to what
/// the expression comes to, after those that there are.
pub proof fn one_part_is_lowered_as_it_is(
    st: State,
    done: Seq<ExprView>,
    done_kw: Seq<KwArgView>,
    pos: PosArg,
    kw: KwArg,
    expr: Expr,
    check: bool,
)
    ensures
        ({
            let out = lower_pos_args(st, done, seq![pos], check);
            let part = lower_expr(st, pos.expr, check);
            match part.1 {
                Res::Val(h) => out == (part.0, Res::Val(done.push(h))),
                _ => stops_as(out, part),
            }
        }),
        ({
            let out = lower_kw_args(st, done_kw, seq![kw]);
            let part = lower_expr(st, kw.expr, true);
            match part.1 {
                Res::Val(h) => out == (
                    part.0,
                    Res::Val(done_kw.push(KwArgView { keyword: kw.keyword, expr: h })),
                ),
                _ => stops_as(out, part),
            }
        }),
        ({
            let out = lower_exprs(st, done, seq![expr]);
            let part = lower_expr(st, expr, true);
            match part.1 {
                Res::Val(h) => out == (part.0, Res::Val(done.push(h))),
                _ => stops_as(out, part),
            }
        }),
{
    reveal_with_fuel(lower_pos_args, 2);
    reveal_with_fuel(lower_kw_args, 2);
    reveal_with_fuel(lower_exprs, 2);
    assert(seq![pos].drop_first().len() == 0);
    assert(seq![kw].drop_first().len() == 0);
    assert(seq![expr].drop_first().len() == 0);
}

/// A literal is kept as it is, and nothing is asked about it.
pub proof fn literals_are_kept(st: State, lit: Literal, check: bool)
    requires
        carried_t(ExprView::Lit(lit.token)) is Some,
    ensures
        lower_expr(st, Expr::Lit(lit), check) == (st, Res::Val(ExprView::Lit(lit.token))),
{
}

/// What is not supported is not lowered: an expression that comes to a value is one that has a
/// lowering.
pub proof fn only_supported_expressions_are_lowered(st: State, expr: Expr, check: bool)
    ensures
        lower_expr(st, expr, check).1 is Val ==> supported(expr),
{
    types_come_from_the_context(st, expr, check);
    let (end, r) = lower_expr(st, expr, check);
    match r {
        Res::Val(h) => lemma_backed_supported(st, end, st.scopes.last(), h, expr, check),
        _ => {},
    }
}

/// A tree that the replies of a run speak for is one of a supported expression.
pub proof fn lemma_backed_supported(
    from: State,
    to: State,
    scope: ScopeView,
    h: ExprView,
    expr: Expr,
    check: bool,
)
    requires
        backed(from, to, scope, h, expr, check),
    ensures
        supported(expr),
    decreases expr, 0nat,
{
    match (h, expr) {
        (ExprView::Accessor(h), Expr::Accessor(acc)) => {
            assert(acc_backed(from, to, scope, h, acc, check));
            match (h, acc) {
                (AccessorView::Attr { obj, .. }, Accessor::Attr(a)) => lemma_backed_supported(
                    from,
                    to,
                    scope,
                    *obj,
                    *a.obj,
                    true,
                ),
                _ => {},
            }
        },
        (ExprView::Array(h), Expr::Array(array)) => {
            let args = array.elems.pos_args@;
            assert forall|i: int| 0 <= i < args.len() implies supported(
                (#[trigger] args[i]).expr,
            ) by {
                lemma_backed_supported(from, to, scope, h.elems[i], args[i].expr, check);
            }
        },
        (ExprView::BinOp(h), Expr::BinOp(bin)) => {
            lemma_backed_supported(from, to, scope, *h.lhs, *bin.lhs, true);
            lemma_backed_supported(from, to, scope, *h.rhs, *bin.rhs, true);
        },
        (ExprView::UnaryOp(h), Expr::UnaryOp(unary)) => {
            lemma_backed_supported(from, to, scope, *h.expr, *unary.expr, true);
        },
        (ExprView::Call(h), Expr::Call(call)) => {
            let pos = call.args.pos_args@;
            let kw = call.args.kw_args@;
            lemma_backed_supported(from, to, scope, *h.obj, *call.obj, false);
            assert forall|i: int| 0 <= i < pos.len() implies supported(
                (#[trigger] pos[i]).expr,
            ) by {
                lemma_backed_supported(from, to, scope, h.pos_args[i], pos[i].expr, true);
            }
            assert forall|i: int| 0 <= i < kw.len() implies supported((#[trigger] kw[i]).expr) by {
                lemma_backed_supported(from, to, scope, h.kw_args[i].expr, kw[i].expr, true);
            }
        },
        (ExprView::Lambda(h), Expr::Lambda(lambda)) => {
            assert(lambda_backed(from, to, h, lambda));
            let kind = if lambda.op.kind == TokenKind::ProcArrow {
                ContextKind::Proc
            } else {
                ContextKind::Func
            };
            let name = lambda_name(lambda.sig@.id);
            assert(h.body.len() > 0);
            lemma_body_supported(from, to, name, kind, h.body, lambda.body);
        },
        (ExprView::Def(h), Expr::Def(def)) => {
            assert(def_backed(from, to, h, def));
            let name = def.sig.name_token().unwrap().content@;
            lemma_body_supported(
                from,
                to,
                name,
                ContextKind::Instant,
                h.block,
                def.body.block,
            );
            match (h.sig, def.sig) {
                (SignatureView::Var { t, .. }, Signature::Var(sig)) => {
                    assert(var_backed(from, to, h.block, t, sig, def.body));
                    lemma_first_call(from, to, h.block, t, sig, def.body);
                },
                (SignatureView::Subr { sig_t, .. }, Signature::Subr(sig)) => {
                    assert(subr_backed(from, to, h.block, sig_t, sig, def.body));
                },
                _ => {},
            }
            assert(h.block.len() > 0);
            assert(supported_def(def));
        },
        _ => {},
    }
}

proof fn lemma_body_supported(
    from: State,
    to: State,
    name: Seq<char>,
    kind: ContextKind,
    h: Seq<ExprView>,
    block: Block,
)
    requires
        body_backed(from, to, name, kind, h, block),
    ensures
        h.len() == block.exprs@.len(),
        h.len() > 0 ==> supported_block(block),
        exists|inner: ScopeView| #[trigger] block_backed(from, to, inner, h, block),
    decreases block, 1nat,
{
    let (i, inner) = choose|i: int, inner: ScopeView| #[trigger]
        entered_at(from, to, i, name, kind, inner) && block_backed(from, to, inner, h, block);
    assert(block_backed(from, to, inner, h, block));
    assert forall|j: int| 0 <= j < block.exprs@.len() implies supported(
        #[trigger] block.exprs@[j],
    ) by {
        lemma_backed_supported(from, to, inner, h[j], block.exprs@[j], true);
    }
}

/// A variable whose body begins with a call can be defined so.
proof fn lemma_first_call(
    from: State,
    to: State,
    h: Seq<ExprView>,
    t: TyView,
    sig: VarSignature,
    body: DefBody,
)
    requires
        sig.pat.name_token() is Some,
        var_backed(from, to, h, t, sig, body),
        exists|inner: ScopeView| #[trigger] block_backed(from, to, inner, h, body.block),
    ensures
        supported_var(sig, body.block),
{
    let inner = choose|inner: ScopeView| #[trigger] block_backed(from, to, inner, h, body.block);
    let first = body.block.exprs@[0];
    assert(backed(from, to, inner, h[0], first, true));
    match (h[0], first) {
        (ExprView::Call(hc), Expr::Call(call)) => {
            assert(backed(from, to, inner, *hc.obj, *call.obj, false));
            match (*hc.obj, *call.obj) {
                (ExprView::Accessor(acc), Expr::Accessor(of)) => {
                    assert(acc_backed(from, to, inner, acc, of, false));
                },
                _ => {},
            }
        },
        _ => {},
    }
}

/// Whether a block of expressions comes to no value that has a type: it has no lowering, or it is
/// empty, or the type of its last expression is not known.
pub open spec fn untyped(block: (State, Res<Seq<ExprView>>)) -> bool {
    match block.1 {
        Res::Val(hs) => hs.len() == 0 || carried_t(hs.last()) is None,
        Res::Unsupported => true,
        _ => false,
    }
}

/// A lambda has no lowering only if its body has no value with a type.
pub proof fn lambdas_lack_a_lowering_by_their_body(st: State, lambda: Lambda, check: bool)
    ensures
        ({
            let (end, r) = lower_expr(st, Expr::Lambda(lambda), check);
            let kind = if lambda.op.kind == TokenKind::ProcArrow {
                ContextKind::Proc
            } else {
                ContextKind::Func
            };
            r is Unsupported ==> untyped(
                lower_exprs(inside(st, end, kind, 3), Seq::empty(), lambda.body.exprs@),
            )
        }),
{
    let (end, r) = lower_expr(st, Expr::Lambda(lambda), check);
    let kind = if lambda.op.kind == TokenKind::ProcArrow {
        ContextKind::Proc
    } else {
        ContextKind::Func
    };
    let name = lambda_name(lambda.sig@.id);
    let st1 = grow(st, name, kind).0;
    let st3 = st1.answered(QueryView::AssignParams { params: lambda.sig@.params }).answered(
        QueryView::Preregister { block: lambda.body },
    );
    let (st4, r4) = lower_exprs(st3, Seq::empty(), lambda.body.exprs@);
    if r is Unsupported {
        assert(lower_lambda(st, lambda).1 is Unsupported);
        let (st6, r6) = lower_in_lambda(st1, lambda);
        lemma_in_lambda(st1, lambda);
        lemma_reads_on(st1, st6);
        lemma_exprs(st3, Seq::empty(), lambda.body.exprs@);
        assert(st6.asked.is_prefix_of(end.asked)) by {
            assert(st6.asked =~= end.asked.subrange(0, st6.asked.len() as int));
        }
        assert(st4.asked.is_prefix_of(st6.asked)) by {
            assert(st4.asked =~= st6.asked.subrange(0, st4.asked.len() as int));
        }
        lemma_prefix(st3.asked, st4.asked, st6.asked);
        assert(past(st1, st6, 2) == st3) by {
            assert(st3.pending =~= st1.pending.skip(2));
            assert(st3.asked =~= st6.asked.take(st.asked.len() + 3int));
        }
        lemma_inside(st, st6, end, name, kind, 2);
        match r4 {
            Res::Val(body) => {
                if body.len() > 0 {
                    lemma_carried_t(body.last());
                }
            },
            _ => {},
        }
    }
}

/// The definition of a subroutine has no lowering only if its body has no value with a type, or if
/// its own type does not say what it gives back.
pub proof fn subroutines_lack_a_lowering_by_their_body(
    st: State,
    def: Def,
    sig: SubrSignature,
    check: bool,
)
    requires
        def.sig == Signature::Subr(sig),
    ensures
        ({
            let (end, r) = lower_expr(st, Expr::Def(def), check);
            let outer = reply_at(st, st.asked.len() + 1int);
            r is Unsupported ==> untyped(
                lower_exprs(
                    inside(st, end, ContextKind::Instant, 4),
                    Seq::empty(),
                    def.body.block.exprs@,
                ),
            ) || (outer matches Reply::OuterSubrT(t) && gives_back(t@) is None)
        }),
{
    let (end, r) = lower_expr(st, Expr::Def(def), check);
    let n0 = st.asked.len() as int;
    let name = sig.name.content@;
    let body = def.body;
    let outer = QueryView::OuterSubrT { name };
    let st1 = grow(st, name, ContextKind::Instant).0;
    let st2 = st1.answered(outer);
    let st4 = st2.answered(QueryView::AssignParams { params: sig.params }).answered(
        QueryView::Preregister { block: body.block },
    );
    let (st5, r5) = lower_exprs(st4, Seq::empty(), body.block.exprs@);
    if r is Unsupported {
        assert(lower_def(st, def).1 is Unsupported);
        let (st6, r6) = lower_subr_def(st1, sig, body);
        assert(end == st6 && r6 is Unsupported);
        assert(lower_block(st4, body.block) == (st5, r5));
        lemma_subr_def(st1, sig, body);
        lemma_reads_on(st1, st6);
        lemma_exprs(st4, Seq::empty(), body.block.exprs@);
        match (r5, st1.reply()) {
            (Res::Val(block), Some(Reply::OuterSubrT(sig_t))) => {
                lemma_define_subr(st5, sig, body, block, sig_t@);
                if block.len() > 0 {
                    lemma_carried_t(block.last());
                }
                lemma_check_body_t(
                    st5,
                    sig.place(),
                    name,
                    sig_t@.return_t(),
                    block_t(block),
                );
                assert(reply_at(st, n0 + 1) == st1.pending[0]);
            },
            _ => {
                assert(st6 == st5);
            },
        }
        assert(st5.asked.is_prefix_of(st6.asked));
        lemma_prefix(st4.asked, st5.asked, st6.asked);
        assert(past(st1, st6, 3) == st4) by {
            assert(st4.pending =~= st1.pending.skip(3));
            assert(st4.asked =~= st6.asked.take(n0 + 4));
        }
        lemma_inside(st, st6, end, name, ContextKind::Instant, 3);
    }
}

/// The definition of a variable has no lowering only if it has no name, if its body has no value
/// with a type, or if the body begins with a call and either the name is no plain one or the call
/// has no positional argument.
pub proof fn variables_lack_a_lowering_by_their_body(
    st: State,
    def: Def,
    sig: VarSignature,
    check: bool,
)
    requires
        def.sig == Signature::Var(sig),
    ensures
        ({
            let (end, r) = lower_expr(st, Expr::Def(def), check);
            let block = lower_exprs(
                inside(st, end, ContextKind::Instant, 2),
                Seq::empty(),
                def.body.block.exprs@,
            );
            r is Unsupported && sig.pat.name_token() is Some ==> untyped(block) || (
            block.1 matches Res::Val(hs) && (hs[0] matches ExprView::Call(call) && (!(
            sig.pat is VarName) || call.pos_args.len() == 0)))
        }),
{
    let (end, r) = lower_expr(st, Expr::Def(def), check);
    let n0 = st.asked.len() as int;
    if r is Unsupported && sig.pat.name_token() is Some {
        let name = sig.pat.name_token().unwrap().content@;
        let body = def.body;
        let st1 = grow(st, name, ContextKind::Instant).0;
        let st2 = st1.answered(QueryView::Preregister { block: body.block });
        let (st3, r3) = lower_exprs(st2, Seq::empty(), body.block.exprs@);
        let st4 = st3.answered(QueryView::OuterVarT { name });
        assert(lower_def(st, def).1 is Unsupported);
        let (st5, r5) = lower_var_def(st1, sig, body);
        assert(end == st5 && r5 is Unsupported);
        assert(lower_block(st2, body.block) == (st3, r3));
        lemma_var_def(st1, sig, body);
        lemma_reads_on(st1, st5);
        lemma_exprs(st2, Seq::empty(), body.block.exprs@);
        match (r3, st3.reply()) {
            (Res::Val(block), Some(Reply::OuterVarT(expect))) => {
                let expect = match expect {
                    Some(expect) => Some(expect@),
                    None => None,
                };
                if block.len() > 0 {
                    lemma_carried_t(block.last());
                    if typed(block.last()) {
                        lemma_define_var(st4, sig, body, block, expect);
                        assert(st3.asked.is_prefix_of(st4.asked)) by {
                            assert(st3.asked =~= st4.asked.subrange(0, st3.asked.len() as int));
                        }
                        lemma_prefix(st3.asked, st4.asked, st5.asked);
                    }
                }
            },
            _ => {},
        }
        assert(st3.asked.is_prefix_of(st5.asked));
        lemma_prefix(st2.asked, st3.asked, st5.asked);
        assert(past(st1, st5, 1) == st2) by {
            assert(st2.pending =~= st1.pending.skip(1));
            assert(st2.asked =~= st5.asked.take(n0 + 2));
        }
        lemma_inside(st, st5, end, name, ContextKind::Instant, 1);
    }
}

/// Of the rest, only a literal whose token is of no literal, an attribute that is not named, a
/// dictionary and a declaration have no lowering, and none of them ever has.
pub proof fn forms_without_a_lowering(st: State, expr: Expr, check: bool)
    ensures
        expr is Dict || expr is Decl ==> lower_expr(st, expr, check) == (
            st,
            Res::<ExprView>::Unsupported,
        ),
        expr matches Expr::Lit(lit) ==> (lower_expr(st, expr, check).1 is Unsupported
            <==> carried_t(ExprView::Lit(lit.token)) is None),
        expr matches Expr::Accessor(acc) ==> (!(acc is Local) && !(acc is Attr) ==> lower_expr(
            st,
            expr,
            check,
        ) == (st, Res::<ExprView>::Unsupported)),
{
    match expr {
        Expr::Accessor(acc) => assert(lower_acc(st, acc, check).0 == lower_expr(
            st,
            expr,
            check,
        ).0),
        _ => {},
    }
}

} // verus!
