//! What the context said in favour of a typed tree.
//!
//! A run of lowering goes from one state to another. In between queries were put, and each was
//! answered by the next of the replies. Here it is said, of a tree that comes of a run, which
//! queries there must have been and how the types in the tree follow from the replies.
use vstd::prelude::*;

use crate::ast::{
    Accessor, Array, BinOp, Block, Call, Def, DefBody, Expr, KwArg, Lambda, PosArg, Signature,
    SubrSignature, UnaryOp, VarPattern, VarSignature,
};
use crate::context::{
    ContextKind, ParamInfo, QueryView, RegistrationMode, Reply, ScopeView, State, Visibility,
};
use crate::error::{Location, LowerErrorView};
use crate::hir::{
    block_t, block_typed, expr_t, is_import, typed, AccessorView, DefView, ExprView, KwArgView,
    LambdaView, SignatureView,
};
use crate::outside::{bounds_in, TyBounds};
use crate::proofs::{
    goes_on, lemma_block, lemma_check_body_t, lemma_expr, lemma_exprs, lemma_grow, lemma_import,
    lemma_kw_args, lemma_pos_args, lemma_subr_def, lemma_var_def,
};
use crate::semantics::{
    ask_callee, ask_done, check_body_t, define_var, grow, import, lambda_t, lower_acc, lower_array,
    lower_bin, lower_block, lower_call, lower_def, lower_expr, lower_exprs, lower_kw_args,
    lower_lambda, lower_pos_args, lower_subr_def, lower_unary, lower_var_def, pop_append_errs, Res,
};
use crate::text::lambda_name;
use crate::token::{Token, TokenKind};
use crate::ty::{opt_str_view, CalleeTyView, ParamTyView, TyView};

verus! {

/// A run reads replies from one state on to another, and forgets no error on the way.
pub open spec fn reads_on(from: State, to: State) -> bool {
    &&& from.asked.is_prefix_of(to.asked)
    &&& to.asked.len() - from.asked.len() <= from.pending.len()
    &&& to.pending == from.pending.skip(to.asked.len() - from.asked.len())
    &&& from.errs.is_prefix_of(to.errs)
}

/// Whether a query is the one put at a point of a run.
pub open spec fn asked_at(from: State, to: State, i: int, query: QueryView) -> bool {
    from.asked.len() <= i < to.asked.len() && to.asked[i] == query
}

/// The reply at a point of a run.
pub open spec fn reply_at(from: State, i: int) -> Reply {
    from.pending[i - from.asked.len()]
}

/// Whether the context did something in a run.
pub open spec fn was_done(from: State, to: State, query: QueryView) -> bool {
    exists|i: int| #[trigger]
        asked_at(from, to, i, query) && reply_at(from, i) matches Reply::Done(Ok(_))
}

/// Whether a variable was looked up in a run, and found to have a type and a unique name.
pub open spec fn was_found(
    from: State,
    to: State,
    scope: ScopeView,
    symbol: Token,
    uniq_name: Option<Seq<char>>,
    t: TyView,
) -> bool {
    &&& exists|i: int| #[trigger]
        asked_at(from, to, i, QueryView::VarT { symbol, namespace: scope.name }) && (reply_at(
            from,
            i,
        ) matches Reply::VarT(Ok(found)) && found@ == t)
    &&& exists|i: int| #[trigger]
        asked_at(from, to, i, QueryView::UniqObjName { symbol }) && (reply_at(
            from,
            i,
        ) matches Reply::UniqObjName(found) && opt_str_view(found) == uniq_name)
}

/// Whether the context gave a type for an attribute in a run.
pub open spec fn attr_found(from: State, to: State, query: QueryView, t: TyView) -> bool {
    exists|i: int| #[trigger]
        asked_at(from, to, i, query) && (reply_at(from, i) matches Reply::AttrT(Ok(found))
            && found@ == t)
}

/// Whether the context gave a type for an array in a run.
pub open spec fn array_found(from: State, to: State, level: usize, t: TyView) -> bool {
    exists|i: int| #[trigger]
        asked_at(from, to, i, QueryView::ArrayT { level }) && (reply_at(
            from,
            i,
        ) matches Reply::ArrayT(found) && found@ == t)
}

/// Whether the context gave a type for what is called in a run.
pub open spec fn callee_found(from: State, to: State, query: QueryView, t: TyView) -> bool {
    exists|i: int| #[trigger]
        asked_at(from, to, i, query) && (reply_at(from, i) matches Reply::CalleeT(Ok(found))
            && found@ == t)
}

/// Whether a private scope was entered at a point of a run, and is as said.
pub open spec fn entered_at(
    from: State,
    to: State,
    i: int,
    name: Seq<char>,
    kind: ContextKind,
    scope: ScopeView,
) -> bool {
    &&& asked_at(from, to, i, QueryView::Grow { name, kind, vis: Visibility::Private })
    &&& reply_at(from, i) matches Reply::Grown(Ok(made)) && scope == (ScopeView {
        name: made.name@,
        kind,
        level: made.level,
    })
}

/// Whether a scope was left in a run.
pub open spec fn was_left(from: State, to: State) -> bool {
    exists|i: int| #[trigger]
        asked_at(from, to, i, QueryView::Pop) && reply_at(from, i) is Popped
}

/// What a call gives back, where the type is of something that can be called.
pub open spec fn gives_back(t: TyView) -> Option<TyView> {
    match t {
        TyView::Callee(CalleeTyView::Subr { return_t, .. }) => Some(*return_t),
        TyView::Callee(CalleeTyView::Callable { return_t, .. }) => Some(*return_t),
        _ => None,
    }
}

/// The type that a typed expression carries.
pub open spec fn carried_t(h: ExprView) -> Option<TyView> {
    match h {
        ExprView::Lit(token) => match token.kind {
            TokenKind::NatLit => Some(TyView::Nat),
            TokenKind::IntLit => Some(TyView::Int),
            TokenKind::RatioLit => Some(TyView::Ratio),
            TokenKind::StrLit => Some(TyView::Str),
            TokenKind::BoolLit => Some(TyView::Bool),
            TokenKind::NoneLit => Some(TyView::NoneType),
            TokenKind::NoImplLit => Some(TyView::NotImplemented),
            TokenKind::EllipsisLit => Some(TyView::Ellipsis),
            TokenKind::InfLit => Some(TyView::Inf),
            _ => None,
        },
        ExprView::Accessor(AccessorView::Local { t, .. }) => Some(t),
        ExprView::Accessor(AccessorView::Attr { t, .. }) => Some(t),
        ExprView::Array(array) => Some(array.t),
        ExprView::BinOp(bin) => gives_back(bin.sig_t),
        ExprView::UnaryOp(unary) => gives_back(unary.sig_t),
        ExprView::Call(call) => gives_back(call.sig_t),
        ExprView::Lambda(lambda) => Some(lambda.t),
        ExprView::Def(_) => Some(TyView::NoneType),
    }
}

/// Whether a type is that of the last expression of a block.
pub open spec fn ends_in(block: Seq<ExprView>, t: TyView) -> bool {
    block.len() > 0 && carried_t(block[block.len() - 1]) == Some(t)
}

/// Whether a type is that of a lambda whose scope has these parameters and whose body and bounds
/// are these.
pub open spec fn is_lambda_t(
    t: TyView,
    procedural: bool,
    params: Seq<ParamInfo>,
    body: Seq<ExprView>,
    bounds: TyBounds,
) -> bool {
    let subr = if bounds_in(bounds) == Set::<erg_common::ty::TyBound>::empty() {
        t
    } else {
        match t {
            TyView::Quantified { unbound_callable, .. } => *unbound_callable,
            _ => t,
        }
    };
    let ty = |p: ParamInfo| ParamTyView { name: opt_str_view(p.name), ty: p.t@ };
    &&& bounds_in(bounds) != Set::<erg_common::ty::TyBound>::empty() ==> {
        t matches TyView::Quantified { bounds: b, .. } && b == bounds
    }
    &&& subr matches TyView::Callee(
        CalleeTyView::Subr { kind, non_default_params, default_params, return_t },
    ) && {
        &&& kind is Proc <==> procedural
        &&& kind is Func <==> !procedural
        &&& non_default_params == params.filter(|p: ParamInfo| p.has_default).map_values(ty)
        &&& default_params == params.filter(|p: ParamInfo| !p.has_default).map_values(ty)
        &&& ends_in(body, *return_t)
    }
}

/// Whether the parameters of the current scope and its bounds were asked for in a run, and a type
/// is made of what came back.
pub open spec fn lambda_t_found(from: State, to: State, h: LambdaView, lambda: Lambda) -> bool {
    exists|i: int, j: int| #[trigger]
        asked_at(from, to, i, QueryView::ScopeParams) && #[trigger] asked_at(
            from,
            to,
            j,
            QueryView::InstantiateTyBounds {
                bounds: lambda.sig@.bounds,
                mode: RegistrationMode::Normal,
            },
        ) && (reply_at(from, i) matches Reply::ParamInfos(params) && (reply_at(
            from,
            j,
        ) matches Reply::Bounds(Ok(bounds)) && is_lambda_t(
            h.t,
            lambda.op.kind == TokenKind::ProcArrow,
            params@,
            h.body,
            *bounds,
        )))
}

/// Whether the type found for a name was unified with the expected one in a run or, where that
/// failed, reported as a mismatch.
pub open spec fn was_checked(
    from: State,
    to: State,
    loc: Location,
    name: Seq<char>,
    expect: TyView,
    found: TyView,
) -> bool {
    exists|i: int| #[trigger]
        asked_at(from, to, i, QueryView::Unify { expect, found, loc }) && {
            ||| reply_at(from, i) matches Reply::Done(Ok(_))
            ||| (reply_at(from, i) matches Reply::Done(Err(_))) && mismatch_reported(
                from,
                to,
                loc,
                name,
                expect,
                found,
            )
        }
}

/// Whether a mismatch is among the errors at the end of a run, blamed on what the context said.
pub open spec fn mismatch_reported(
    from: State,
    to: State,
    loc: Location,
    name: Seq<char>,
    expect: TyView,
    found: TyView,
) -> bool {
    exists|i: int| #[trigger]
        asked_at(from, to, i, QueryView::CausedBy) && (reply_at(from, i) matches Reply::CausedBy(
            caused_by,
        ) && to.errs.contains(
            LowerErrorView::TypeMismatch {
                errno: 55,
                loc,
                caused_by: caused_by@,
                name,
                expect,
                found,
            },
        ))
}

/// Whether a typed tree, made of an expression in a scope, is one that the replies of a run speak
/// for: each type in it is what the context gave for just that part of the tree, and what is done
/// in a scope of its own was done in one that was entered and left. The type of a name that is
/// not to be checked is left open.
pub open spec fn backed(
    from: State,
    to: State,
    scope: ScopeView,
    h: ExprView,
    expr: Expr,
    check: bool,
) -> bool
    decreases expr, 0nat,
{
    match (h, expr) {
        (ExprView::Lit(token), Expr::Lit(lit)) => token == lit.token && carried_t(h) is Some,
        (ExprView::Accessor(h), Expr::Accessor(acc)) => acc_backed(from, to, scope, h, acc, check),
        (ExprView::Array(h), Expr::Array(array)) => {
            &&& h.l_sqbr == array.l_sqbr
            &&& h.r_sqbr == array.r_sqbr
            &&& h.level == scope.level
            &&& array_found(from, to, scope.level, h.t)
            &&& h.elems.len() == array.elems.pos_args@.len()
            &&& forall|i: int|
                0 <= i < array.elems.pos_args@.len() ==> backed(
                    from,
                    to,
                    scope,
                    h.elems[i],
                    (#[trigger] array.elems.pos_args@[i]).expr,
                    check,
                )
        },
        (ExprView::BinOp(h), Expr::BinOp(bin)) => {
            &&& h.op == bin.op
            &&& backed(from, to, scope, *h.lhs, *bin.lhs, true)
            &&& backed(from, to, scope, *h.rhs, *bin.rhs, true)
            &&& callee_found(
                from,
                to,
                QueryView::BinOpT {
                    op: bin.op,
                    lhs: *h.lhs,
                    rhs: *h.rhs,
                    namespace: scope.name,
                },
                h.sig_t,
            )
        },
        (ExprView::UnaryOp(h), Expr::UnaryOp(unary)) => {
            &&& h.op == unary.op
            &&& backed(from, to, scope, *h.expr, *unary.expr, true)
            &&& callee_found(
                from,
                to,
                QueryView::UnaryOpT { op: unary.op, expr: *h.expr, namespace: scope.name },
                h.sig_t,
            )
        },
        (ExprView::Call(h), Expr::Call(call)) => {
            &&& h.paren == call.args.paren
            &&& h.pos_args.len() == call.args.pos_args@.len()
            &&& h.kw_args.len() == call.args.kw_args@.len()
            &&& forall|i: int|
                0 <= i < call.args.pos_args@.len() ==> backed(
                    from,
                    to,
                    scope,
                    h.pos_args[i],
                    (#[trigger] call.args.pos_args@[i]).expr,
                    true,
                )
            &&& forall|i: int|
                0 <= i < call.args.kw_args@.len() ==> {
                    &&& h.kw_args[i].keyword == (#[trigger] call.args.kw_args@[i]).keyword
                    &&& backed(
                        from,
                        to,
                        scope,
                        h.kw_args[i].expr,
                        call.args.kw_args@[i].expr,
                        true,
                    )
                }
            &&& backed(from, to, scope, *h.obj, *call.obj, false)
            &&& callee_found(
                from,
                to,
                QueryView::CallT {
                    obj: *h.obj,
                    pos_args: h.pos_args,
                    kw_args: h.kw_args,
                    namespace: scope.name,
                },
                h.sig_t,
            )
        },
        (ExprView::Lambda(h), Expr::Lambda(lambda)) => lambda_backed(from, to, h, lambda),
        (ExprView::Def(h), Expr::Def(def)) => def_backed(from, to, h, def),
        _ => false,
    }
}

pub open spec fn acc_backed(
    from: State,
    to: State,
    scope: ScopeView,
    h: AccessorView,
    acc: Accessor,
    check: bool,
) -> bool
    decreases acc, 0nat,
{
    match (h, acc) {
        (AccessorView::Local { name, uniq_name, t }, Accessor::Local(l)) => {
            &&& name == l.symbol
            &&& if check {
                was_found(from, to, scope, l.symbol, uniq_name, t)
            } else {
                uniq_name is None && t is ASTOmitted
            }
        },
        (AccessorView::Attr { obj, name, t }, Accessor::Attr(a)) => {
            &&& name == a.name.symbol
            &&& backed(from, to, scope, *obj, *a.obj, true)
            &&& if check {
                attr_found(
                    from,
                    to,
                    QueryView::AttrT { obj: *obj, name: a.name.symbol, namespace: scope.name },
                    t,
                )
            } else {
                t is ASTOmitted
            }
        },
        _ => false,
    }
}

pub open spec fn block_backed(
    from: State,
    to: State,
    scope: ScopeView,
    h: Seq<ExprView>,
    block: Block,
) -> bool
    decreases block, 0nat,
{
    &&& was_done(from, to, QueryView::Preregister { block })
    &&& h.len() == block.exprs@.len()
    &&& forall|i: int|
        0 <= i < block.exprs@.len() ==> backed(
            from,
            to,
            scope,
            h[i],
            #[trigger] block.exprs@[i],
            true,
        )
}

/// Whether a block was lowered in a scope of its own, under a name.
pub open spec fn body_backed(
    from: State,
    to: State,
    name: Seq<char>,
    kind: ContextKind,
    h: Seq<ExprView>,
    block: Block,
) -> bool
    decreases block, 1nat,
{
    exists|i: int, inner: ScopeView| #[trigger]
        entered_at(from, to, i, name, kind, inner) && block_backed(from, to, inner, h, block)
}

pub open spec fn lambda_backed(from: State, to: State, h: LambdaView, lambda: Lambda) -> bool
    decreases lambda, 0nat,
{
    let kind = if lambda.op.kind == TokenKind::ProcArrow {
        ContextKind::Proc
    } else {
        ContextKind::Func
    };
    &&& h.id == lambda.sig@.id
    &&& h.params == lambda.sig@.params
    &&& h.op == lambda.op
    &&& body_backed(from, to, lambda_name(lambda.sig@.id), kind, h.body, lambda.body)
    &&& was_done(from, to, QueryView::AssignParams { params: lambda.sig@.params })
    &&& lambda_t_found(from, to, h, lambda)
    &&& was_left(from, to)
}

pub open spec fn def_backed(from: State, to: State, h: DefView, def: Def) -> bool
    decreases def, 0nat,
{
    &&& h.op == def.body.op
    &&& h.id == def.body.id
    &&& def.sig.name_token() matches Some(name) && body_backed(
        from,
        to,
        name.content@,
        ContextKind::Instant,
        h.block,
        def.body.block,
    )
    &&& match (h.sig, def.sig) {
        (SignatureView::Var { pat, t }, Signature::Var(sig)) => pat == sig.pat && var_backed(
            from,
            to,
            h.block,
            t,
            sig,
            def.body,
        ),
        (SignatureView::Subr { name, params, sig_t }, Signature::Subr(sig)) => name == sig.name
            && params == sig.params && subr_backed(from, to, h.block, sig_t, sig, def.body),
        _ => false,
    }
    &&& was_left(from, to)
}

/// Whether a variable was defined in a run by the type of the last expression of its body.
pub open spec fn var_backed(
    from: State,
    to: State,
    block: Seq<ExprView>,
    t: TyView,
    sig: VarSignature,
    body: DefBody,
) -> bool {
    let name = sig.pat.name_token().unwrap().content@;
    &&& ends_in(block, t)
    &&& exists|i: int| #[trigger]
        asked_at(from, to, i, QueryView::OuterVarT { name }) && (reply_at(
            from,
            i,
        ) matches Reply::OuterVarT(expect) && (expect matches Some(expect) ==> was_checked(
            from,
            to,
            sig.place(),
            name,
            expect@,
            t,
        )))
    &&& was_done(from, to, QueryView::AssignVar { sig, id: body.id, t })
    &&& block[0] matches ExprView::Call(call) ==> {
        &&& sig.pat is VarName
        &&& *call.obj matches ExprView::Accessor(AccessorView::Local { name: callee, .. }) ==> (
        callee.content@ == "import"@ ==> call.pos_args.len() > 0 && was_done(
            from,
            to,
            QueryView::ImportMod {
                name: sig.pat.name_token().unwrap(),
                path: call.pos_args[0],
            },
        ))
    }
}

/// Whether a subroutine was defined in a run by the type of the last expression of its body.
pub open spec fn subr_backed(
    from: State,
    to: State,
    block: Seq<ExprView>,
    sig_t: TyView,
    sig: SubrSignature,
    body: DefBody,
) -> bool {
    let name = sig.name.content@;
    &&& exists|i: int| #[trigger]
        asked_at(from, to, i, QueryView::OuterSubrT { name }) && (reply_at(
            from,
            i,
        ) matches Reply::OuterSubrT(t) && t@ == sig_t)
    &&& was_done(from, to, QueryView::AssignParams { params: sig.params })
    &&& exists|t: TyView| #[trigger]
        ends_in(block, t) && was_done(from, to, QueryView::AssignSubr { sig, id: body.id, t })
            && gives_back(sig_t) is Some && was_checked(
            from,
            to,
            sig.place(),
            name,
            gives_back(sig_t).unwrap(),
            t,
        )
}

pub proof fn lemma_reads_on(st: State, st1: State)
    requires
        goes_on(st, st1),
    ensures
        reads_on(st, st1),
{
}

pub proof fn lemma_reads_on_refl(st: State)
    ensures
        reads_on(st, st),
{
    assert(st.pending =~= st.pending.skip(0));
}

pub proof fn lemma_reads_on_trans(st: State, st1: State, st2: State)
    requires
        reads_on(st, st1),
        reads_on(st1, st2),
    ensures
        reads_on(st, st2),
{
    assert(st2.pending =~= st.pending.skip(st2.asked.len() - st.asked.len()));
    assert(st.asked =~= st2.asked.subrange(0, st.asked.len() as int)) by {
        assert(st1.asked == st2.asked.subrange(0, st1.asked.len() as int));
        assert forall|i: int| 0 <= i < st.asked.len() implies st.asked[i] == st2.asked[i] by {
            assert(st.asked[i] == st1.asked[i]);
            assert(st1.asked[i] == st2.asked[i]);
        }
    }
    assert(st.errs =~= st2.errs.subrange(0, st.errs.len() as int)) by {
        assert forall|i: int| 0 <= i < st.errs.len() implies st.errs[i] == st2.errs[i] by {
            assert(st.errs[i] == st1.errs[i]);
            assert(st1.errs[i] == st2.errs[i]);
        }
    }
}

/// A query that was answered on the way stands at its point of the run, with its reply.
proof fn lemma_point(from: State, to: State, st: State, query: QueryView)
    requires
        reads_on(from, st),
        st.pending.len() > 0,
        reads_on(st.answered(query), to),
    ensures
        asked_at(from, to, st.asked.len() as int, query),
        reply_at(from, st.asked.len() as int) == st.pending[0],
        reads_on(from, st.answered(query)),
        reads_on(st, to),
{
    let st1 = st.answered(query);
    let n = st.asked.len() as int;
    assert(st1.asked[n] == query);
    assert(to.asked[n] == st1.asked[n]);
    assert(st.pending[0] == from.pending[n - from.asked.len()]);
    assert(st1.pending =~= st.pending.skip(1));
    assert(st.asked =~= st1.asked.subrange(0, n));
    lemma_reads_on_trans(from, st, st1);
    lemma_reads_on_trans(st, st1, to);
}

pub proof fn lemma_reads_answered(from: State, st: State, query: QueryView)
    requires
        reads_on(from, st),
        st.pending.len() > 0,
    ensures
        reads_on(from, st.answered(query)),
{
    let st1 = st.answered(query);
    assert(st1.pending =~= st.pending.skip(1));
    assert(st.asked =~= st1.asked.subrange(0, st.asked.len() as int));
    lemma_reads_on_trans(from, st, st1);
}

proof fn lemma_entered(from: State, to: State, st: State, name: Seq<char>, kind: ContextKind)
    requires
        reads_on(from, st),
        grow(st, name, kind).1 is Val,
        reads_on(grow(st, name, kind).0, to),
    ensures
        entered_at(
            from,
            to,
            st.asked.len() as int,
            name,
            kind,
            grow(st, name, kind).0.scopes.last(),
        ),
{
    let query = QueryView::Grow { name, kind, vis: Visibility::Private };
    assert(reads_on(st.answered(query), to));
    lemma_point(from, to, st, query);
}

proof fn lemma_was_done(from: State, to: State, st: State, query: QueryView)
    requires
        reads_on(from, st),
        ask_done(st, query).1 is Val,
        reads_on(ask_done(st, query).0, to),
    ensures
        was_done(from, to, query),
        reads_on(from, ask_done(st, query).0),
        reads_on(st, to),
{
    lemma_point(from, to, st, query);
}

proof fn lemma_callee_found(from: State, to: State, st: State, query: QueryView)
    requires
        reads_on(from, st),
        ask_callee(st, query).1 is Val,
        reads_on(ask_callee(st, query).0, to),
    ensures
        ask_callee(st, query).1 matches Res::Val(t) && callee_found(from, to, query, t),
        reads_on(from, ask_callee(st, query).0),
        reads_on(st, to),
{
    lemma_point(from, to, st, query);
}

proof fn lemma_was_left(from: State, to: State, st: State)
    requires
        reads_on(from, st),
        pop_append_errs(st).1 is Val,
        reads_on(pop_append_errs(st).0, to),
    ensures
        was_left(from, to),
        reads_on(st, to),
{
    let st1 = st.answered(QueryView::Pop);
    let st2 = pop_append_errs(st).0;
    assert(st1.errs =~= st2.errs.subrange(0, st1.errs.len() as int));
    assert(st1.asked =~= st2.asked.subrange(0, st1.asked.len() as int));
    assert(st1.pending =~= st1.pending.skip(0));
    lemma_reads_on_trans(st1, st2, to);
    lemma_point(from, to, st, QueryView::Pop);
}

/// The type of an expression that has one is the type that it carries.
pub proof fn lemma_carried_t(h: ExprView)
    ensures
        typed(h) <==> carried_t(h) is Some,
        typed(h) ==> carried_t(h) == Some(expr_t(h)),
{
}

proof fn lemma_ends_in(block: Seq<ExprView>)
    requires
        block_typed(block),
    ensures
        ends_in(block, block_t(block)),
{
    lemma_carried_t(block.last());
}

pub proof fn backs_expr(from: State, to: State, st: State, expr: Expr, check: bool)
    requires
        reads_on(from, st),
        lower_expr(st, expr, check).1 is Val,
        reads_on(lower_expr(st, expr, check).0, to),
    ensures
        lower_expr(st, expr, check).1 matches Res::Val(h) && backed(
            from,
            to,
            st.scopes.last(),
            h,
            expr,
            check,
        ),
    decreases expr,
{
    match expr {
        Expr::Accessor(acc) => backs_acc(from, to, st, acc, check),
        Expr::Array(array) => backs_array(from, to, st, array, check),
        Expr::BinOp(bin) => backs_bin(from, to, st, bin),
        Expr::UnaryOp(unary) => backs_unary(from, to, st, unary),
        Expr::Call(call) => backs_call(from, to, st, call),
        Expr::Lambda(lambda) => backs_lambda(from, to, st, lambda),
        Expr::Def(def) => backs_def(from, to, st, def),
        _ => {},
    }
}

proof fn backs_acc(from: State, to: State, st: State, acc: Accessor, check: bool)
    requires
        reads_on(from, st),
        lower_acc(st, acc, check).1 is Val,
        reads_on(lower_acc(st, acc, check).0, to),
    ensures
        lower_acc(st, acc, check).1 matches Res::Val(h) && acc_backed(
            from,
            to,
            st.scopes.last(),
            h,
            acc,
            check,
        ),
    decreases acc,
{
    match acc {
        Accessor::Local(n) => {
            if check {
                let var_t = QueryView::VarT { symbol: n.symbol, namespace: st.name() };
                let uniq_name = QueryView::UniqObjName { symbol: n.symbol };
                let st1 = st.answered(var_t);
                lemma_reads_answered(from, st, var_t);
                lemma_point(from, to, st1, uniq_name);
                lemma_point(from, to, st, var_t);
            }
        },
        Accessor::Attr(a) => {
            lemma_expr(st, *a.obj, true);
            let (st1, r) = lower_expr(st, *a.obj, true);
            lemma_reads_on(st, st1);
            lemma_reads_on_trans(from, st, st1);
            match r {
                Res::Val(obj) => {
                    if check {
                        let query = QueryView::AttrT {
                            obj,
                            name: a.name.symbol,
                            namespace: st1.name(),
                        };
                        lemma_point(from, to, st1, query);
                    }
                    backs_expr(from, to, st, *a.obj, true);
                },
                _ => {},
            }
        },
        _ => {},
    }
}

proof fn backs_pos_args(
    from: State,
    to: State,
    st: State,
    done: Seq<ExprView>,
    args: Seq<PosArg>,
    check: bool,
)
    requires
        reads_on(from, st),
        lower_pos_args(st, done, args, check).1 is Val,
        reads_on(lower_pos_args(st, done, args, check).0, to),
    ensures
        lower_pos_args(st, done, args, check).1 matches Res::Val(hs) && forall|i: int|
            0 <= i < args.len() ==> backed(
                from,
                to,
                st.scopes.last(),
                hs[done.len() + i],
                (#[trigger] args[i]).expr,
                check,
            ),
    decreases args,
{
    if args.len() > 0 {
        let (st1, r) = lower_expr(st, args[0].expr, check);
        let rest = args.drop_first();
        match r {
            Res::Val(h) => {
                let (st2, r2) = lower_pos_args(st1, done.push(h), rest, check);
                lemma_expr(st, args[0].expr, check);
                lemma_pos_args(st1, done.push(h), rest, check);
                lemma_reads_on(st, st1);
                lemma_reads_on(st1, st2);
                lemma_reads_on_trans(from, st, st1);
                lemma_reads_on_trans(st1, st2, to);
                backs_expr(from, to, st, args[0].expr, check);
                backs_pos_args(from, to, st1, done.push(h), rest, check);
                match r2 {
                    Res::Val(hs) => {
                        assert(hs.take((done.len() + 1) as int)[done.len() as int] == h);
                        assert forall|i: int| 0 <= i < args.len() implies backed(
                            from,
                            to,
                            st.scopes.last(),
                            hs[done.len() + i],
                            (#[trigger] args[i]).expr,
                            check,
                        ) by {
                            if i > 0 {
                                assert(rest[i - 1] == args[i]);
                            }
                        }
                    },
                    _ => {},
                }
            },
            _ => {},
        }
    }
}

proof fn backs_kw_args(
    from: State,
    to: State,
    st: State,
    done: Seq<KwArgView>,
    args: Seq<KwArg>,
)
    requires
        reads_on(from, st),
        lower_kw_args(st, done, args).1 is Val,
        reads_on(lower_kw_args(st, done, args).0, to),
    ensures
        lower_kw_args(st, done, args).1 matches Res::Val(hs) && forall|i: int|
            0 <= i < args.len() ==> {
                &&& hs[done.len() + i].keyword == (#[trigger] args[i]).keyword
                &&& backed(
                    from,
                    to,
                    st.scopes.last(),
                    hs[done.len() + i].expr,
                    args[i].expr,
                    true,
                )
            },
    decreases args,
{
    if args.len() > 0 {
        let (st1, r) = lower_expr(st, args[0].expr, true);
        let rest = args.drop_first();
        match r {
            Res::Val(h) => {
                let kw = KwArgView { keyword: args[0].keyword, expr: h };
                let (st2, r2) = lower_kw_args(st1, done.push(kw), rest);
                lemma_expr(st, args[0].expr, true);
                lemma_kw_args(st1, done.push(kw), rest);
                lemma_reads_on(st, st1);
                lemma_reads_on(st1, st2);
                lemma_reads_on_trans(from, st, st1);
                lemma_reads_on_trans(st1, st2, to);
                backs_expr(from, to, st, args[0].expr, true);
                backs_kw_args(from, to, st1, done.push(kw), rest);
                match r2 {
                    Res::Val(hs) => {
                        assert(hs.take((done.len() + 1) as int)[done.len() as int] == kw);
                        assert forall|i: int| 0 <= i < args.len() implies {
                            &&& hs[done.len() + i].keyword == (#[trigger] args[i]).keyword
                            &&& backed(
                                from,
                                to,
                                st.scopes.last(),
                                hs[done.len() + i].expr,
                                args[i].expr,
                                true,
                            )
                        } by {
                            if i > 0 {
                                assert(rest[i - 1] == args[i]);
                            }
                        }
                    },
                    _ => {},
                }
            },
            _ => {},
        }
    }
}

proof fn backs_exprs(from: State, to: State, st: State, done: Seq<ExprView>, exprs: Seq<Expr>)
    requires
        reads_on(from, st),
        lower_exprs(st, done, exprs).1 is Val,
        reads_on(lower_exprs(st, done, exprs).0, to),
    ensures
        lower_exprs(st, done, exprs).1 matches Res::Val(hs) && forall|i: int|
            0 <= i < exprs.len() ==> backed(
                from,
                to,
                st.scopes.last(),
                hs[done.len() + i],
                #[trigger] exprs[i],
                true,
            ),
    decreases exprs,
{
    if exprs.len() > 0 {
        let (st1, r) = lower_expr(st, exprs[0], true);
        let rest = exprs.drop_first();
        match r {
            Res::Val(h) => {
                let (st2, r2) = lower_exprs(st1, done.push(h), rest);
                lemma_expr(st, exprs[0], true);
                lemma_exprs(st1, done.push(h), rest);
                lemma_reads_on(st, st1);
                lemma_reads_on(st1, st2);
                lemma_reads_on_trans(from, st, st1);
                lemma_reads_on_trans(st1, st2, to);
                backs_expr(from, to, st, exprs[0], true);
                backs_exprs(from, to, st1, done.push(h), rest);
                match r2 {
                    Res::Val(hs) => {
                        assert(hs.take((done.len() + 1) as int)[done.len() as int] == h);
                        assert forall|i: int| 0 <= i < exprs.len() implies backed(
                            from,
                            to,
                            st.scopes.last(),
                            hs[done.len() + i],
                            #[trigger] exprs[i],
                            true,
                        ) by {
                            if i > 0 {
                                assert(rest[i - 1] == exprs[i]);
                            }
                        }
                    },
                    _ => {},
                }
            },
            _ => {},
        }
    }
}

/// A block whose names were registered and whose expressions were lowered is backed.
proof fn backs_block(from: State, to: State, st: State, block: Block)
    requires
        reads_on(from, st),
        was_done(from, to, QueryView::Preregister { block }),
        lower_block(st, block).1 is Val,
        reads_on(lower_block(st, block).0, to),
    ensures
        lower_block(st, block).1 matches Res::Val(h) && block_backed(
            from,
            to,
            st.scopes.last(),
            h,
            block,
        ),
    decreases block,
{
    lemma_exprs(st, Seq::empty(), block.exprs@);
    backs_exprs(from, to, st, Seq::empty(), block.exprs@);
    match lower_block(st, block).1 {
        Res::Val(h) => {
            assert forall|i: int| 0 <= i < block.exprs@.len() implies backed(
                from,
                to,
                st.scopes.last(),
                h[i],
                #[trigger] block.exprs@[i],
                true,
            ) by {
                assert(h[0 + i] == h[i]);
            }
        },
        _ => {},
    }
}

proof fn backs_array(from: State, to: State, st: State, array: Array, check: bool)
    requires
        reads_on(from, st),
        lower_array(st, array, check).1 is Val,
        reads_on(lower_array(st, array, check).0, to),
    ensures
        lower_array(st, array, check).1 matches Res::Val(h) && backed(
            from,
            to,
            st.scopes.last(),
            ExprView::Array(h),
            Expr::Array(array),
            check,
        ),
    decreases array,
{
    let args = array.elems.pos_args@;
    let query = QueryView::ArrayT { level: st.scopes.last().level };
    let st1 = st.answered(query);
    let (st2, r2) = lower_pos_args(st1, Seq::empty(), args, check);
    lemma_pos_args(st1, Seq::empty(), args, check);
    lemma_reads_on(st1, st2);
    lemma_reads_on_trans(st1, st2, to);
    lemma_point(from, to, st, query);
    backs_pos_args(from, to, st1, Seq::empty(), args, check);
    match r2 {
        Res::Val(elems) => {
            assert forall|i: int| 0 <= i < args.len() implies backed(
                from,
                to,
                st.scopes.last(),
                elems[i],
                (#[trigger] args[i]).expr,
                check,
            ) by {
                assert(elems[0 + i] == elems[i]);
            }
        },
        _ => {},
    }
}

proof fn backs_bin(from: State, to: State, st: State, bin: BinOp)
    requires
        reads_on(from, st),
        lower_bin(st, bin).1 is Val,
        reads_on(lower_bin(st, bin).0, to),
    ensures
        lower_bin(st, bin).1 matches Res::Val(h) && backed(
            from,
            to,
            st.scopes.last(),
            ExprView::BinOp(h),
            Expr::BinOp(bin),
            true,
        ),
        lower_bin(st, bin).1 matches Res::Val(h) && backed(
            from,
            to,
            st.scopes.last(),
            ExprView::BinOp(h),
            Expr::BinOp(bin),
            false,
        ),
    decreases bin,
{
    let (st1, r1) = lower_expr(st, *bin.lhs, true);
    let (st2, r2) = lower_expr(st1, *bin.rhs, true);
    lemma_expr(st, *bin.lhs, true);
    lemma_expr(st1, *bin.rhs, true);
    lemma_reads_on(st, st1);
    lemma_reads_on(st1, st2);
    lemma_reads_on_trans(from, st, st1);
    lemma_reads_on_trans(from, st1, st2);
    match (r1, r2) {
        (Res::Val(lhs), Res::Val(rhs)) => {
            let query = QueryView::BinOpT { op: bin.op, lhs, rhs, namespace: st2.name() };
            lemma_callee_found(from, to, st2, query);
            lemma_reads_on_trans(st1, st2, to);
            backs_expr(from, to, st, *bin.lhs, true);
            backs_expr(from, to, st1, *bin.rhs, true);
        },
        _ => {},
    }
}

proof fn backs_unary(from: State, to: State, st: State, unary: UnaryOp)
    requires
        reads_on(from, st),
        lower_unary(st, unary).1 is Val,
        reads_on(lower_unary(st, unary).0, to),
    ensures
        lower_unary(st, unary).1 matches Res::Val(h) && backed(
            from,
            to,
            st.scopes.last(),
            ExprView::UnaryOp(h),
            Expr::UnaryOp(unary),
            true,
        ),
        lower_unary(st, unary).1 matches Res::Val(h) && backed(
            from,
            to,
            st.scopes.last(),
            ExprView::UnaryOp(h),
            Expr::UnaryOp(unary),
            false,
        ),
    decreases unary,
{
    let (st1, r1) = lower_expr(st, *unary.expr, true);
    lemma_expr(st, *unary.expr, true);
    lemma_reads_on(st, st1);
    lemma_reads_on_trans(from, st, st1);
    match r1 {
        Res::Val(expr) => {
            let query = QueryView::UnaryOpT { op: unary.op, expr, namespace: st1.name() };
            lemma_callee_found(from, to, st1, query);
            backs_expr(from, to, st, *unary.expr, true);
        },
        _ => {},
    }
}

proof fn backs_call(from: State, to: State, st: State, call: Call)
    requires
        reads_on(from, st),
        lower_call(st, call).1 is Val,
        reads_on(lower_call(st, call).0, to),
    ensures
        lower_call(st, call).1 matches Res::Val(h) && backed(
            from,
            to,
            st.scopes.last(),
            ExprView::Call(h),
            Expr::Call(call),
            true,
        ),
        lower_call(st, call).1 matches Res::Val(h) && backed(
            from,
            to,
            st.scopes.last(),
            ExprView::Call(h),
            Expr::Call(call),
            false,
        ),
    decreases call,
{
    let pos = call.args.pos_args@;
    let kw = call.args.kw_args@;
    let (st1, r1) = lower_pos_args(st, Seq::empty(), pos, true);
    let (st2, r2) = lower_kw_args(st1, Seq::empty(), kw);
    let (st3, r3) = lower_expr(st2, *call.obj, false);
    lemma_pos_args(st, Seq::empty(), pos, true);
    lemma_kw_args(st1, Seq::empty(), kw);
    lemma_expr(st2, *call.obj, false);
    lemma_reads_on(st, st1);
    lemma_reads_on(st1, st2);
    lemma_reads_on(st2, st3);
    lemma_reads_on_trans(from, st, st1);
    lemma_reads_on_trans(from, st1, st2);
    lemma_reads_on_trans(from, st2, st3);
    match (r1, r2, r3) {
        (Res::Val(pos_args), Res::Val(kw_args), Res::Val(obj)) => {
            let query = QueryView::CallT { obj, pos_args, kw_args, namespace: st3.name() };
            lemma_callee_found(from, to, st3, query);
            lemma_reads_on_trans(st2, st3, to);
            lemma_reads_on_trans(st1, st2, to);
            backs_pos_args(from, to, st, Seq::empty(), pos, true);
            backs_kw_args(from, to, st1, Seq::empty(), kw);
            backs_expr(from, to, st2, *call.obj, false);
            assert forall|i: int| 0 <= i < pos.len() implies backed(
                from,
                to,
                st.scopes.last(),
                pos_args[i],
                (#[trigger] pos[i]).expr,
                true,
            ) by {
                assert(pos_args[0 + i] == pos_args[i]);
            }
            assert forall|i: int| 0 <= i < kw.len() implies {
                &&& kw_args[i].keyword == (#[trigger] kw[i]).keyword
                &&& backed(
                    from,
                    to,
                    st.scopes.last(),
                    kw_args[i].expr,
                    kw[i].expr,
                    true,
                )
            } by {
                assert(kw_args[0 + i] == kw_args[i]);
            }
        },
        _ => {},
    }
}

/// The type made of the parameters, the body and the bounds is the one that is told.
proof fn lemma_is_lambda_t(
    procedural: bool,
    params: Seq<ParamInfo>,
    body: Seq<ExprView>,
    bounds: &TyBounds,
)
    requires
        block_typed(body),
    ensures
        is_lambda_t(
            lambda_t(procedural, params, block_t(body), *bounds),
            procedural,
            params,
            body,
            *bounds,
        ),
{
    lemma_ends_in(body);
    assert((|p: ParamInfo| p.has_default == true) =~= (|p: ParamInfo| p.has_default));
    assert((|p: ParamInfo| p.has_default == false) =~= (|p: ParamInfo| !p.has_default));
}

proof fn backs_lambda(from: State, to: State, st: State, lambda: Lambda)
    requires
        reads_on(from, st),
        lower_lambda(st, lambda).1 is Val,
        reads_on(lower_lambda(st, lambda).0, to),
    ensures
        lower_lambda(st, lambda).1 matches Res::Val(h) && lambda_backed(from, to, h, lambda),
    decreases lambda,
{
    let procedural = lambda.op.kind == TokenKind::ProcArrow;
    let kind = if procedural {
        ContextKind::Proc
    } else {
        ContextKind::Func
    };
    let name = lambda_name(lambda.sig@.id);
    let assign = QueryView::AssignParams { params: lambda.sig@.params };
    let register = QueryView::Preregister { block: lambda.body };
    let instantiate = QueryView::InstantiateTyBounds {
        bounds: lambda.sig@.bounds,
        mode: RegistrationMode::Normal,
    };
    let exprs = lambda.body.exprs@;
    let st1 = grow(st, name, kind).0;
    let st2 = ask_done(st1, assign).0;
    let st3 = ask_done(st2, register).0;
    let (st4, r4) = lower_exprs(st3, Seq::empty(), exprs);
    let st5 = st4.answered(QueryView::ScopeParams);
    let st6 = st5.answered(instantiate);
    lemma_grow(st, name, kind);
    lemma_exprs(st3, Seq::empty(), exprs);
    lemma_reads_on(st, st1);
    lemma_reads_on(st3, st4);
    lemma_reads_on_trans(from, st, st1);
    lemma_reads_answered(from, st1, assign);
    lemma_reads_answered(from, st2, register);
    lemma_reads_on_trans(from, st3, st4);
    lemma_reads_answered(from, st4, QueryView::ScopeParams);
    lemma_reads_answered(from, st5, instantiate);
    lemma_was_left(from, to, st6);
    lemma_point(from, to, st5, instantiate);
    lemma_point(from, to, st4, QueryView::ScopeParams);
    lemma_reads_on_trans(st3, st4, to);
    lemma_was_done(from, to, st2, register);
    lemma_was_done(from, to, st1, assign);
    lemma_entered(from, to, st, name, kind);
    backs_block(from, to, st3, lambda.body);
    match (r4, st4.reply(), st5.reply()) {
        (Res::Val(body), Some(Reply::ParamInfos(params)), Some(Reply::Bounds(Ok(bounds)))) => {
            lemma_is_lambda_t(procedural, params@, body, &*bounds);
            assert(entered_at(from, to, st.asked.len() as int, name, kind, st1.scopes.last()));
        },
        _ => {},
    }
}

/// A check of the type of a body that does not wait is one that was made.
proof fn lemma_was_checked(
    from: State,
    to: State,
    st: State,
    loc: Location,
    name: Seq<char>,
    expect: Option<TyView>,
    found: TyView,
)
    requires
        reads_on(from, st),
        check_body_t(st, loc, name, expect, found).1 is Val,
        reads_on(check_body_t(st, loc, name, expect, found).0, to),
    ensures
        reads_on(from, check_body_t(st, loc, name, expect, found).0),
        reads_on(st, to),
        expect matches Some(t) ==> was_checked(from, to, loc, name, t, found),
{
    let end = check_body_t(st, loc, name, expect, found).0;
    lemma_check_body_t(st, loc, name, expect, found);
    lemma_reads_on(st, end);
    lemma_reads_on_trans(from, st, end);
    lemma_reads_on_trans(st, end, to);
    match expect {
        Some(t) => {
            let query = QueryView::Unify { expect: t, found, loc };
            let st1 = st.answered(query);
            match st.reply() {
                Some(Reply::Done(Ok(_))) => lemma_point(from, to, st, query),
                _ => {
                    let st2 = st1.answered(QueryView::CausedBy);
                    assert(reads_on(st2, end)) by {
                        assert(st2.pending =~= st2.pending.skip(0));
                        assert(st2.asked =~= end.asked.subrange(0, st2.asked.len() as int));
                        assert(st2.errs =~= end.errs.subrange(0, st2.errs.len() as int));
                    }
                    lemma_reads_on_trans(st2, end, to);
                    lemma_reads_answered(from, st, query);
                    lemma_point(from, to, st1, QueryView::CausedBy);
                    lemma_point(from, to, st, query);
                    let e = end.errs.last();
                    assert(to.errs[end.errs.len() - 1] == e);
                    assert(to.errs.contains(e));
                    assert(mismatch_reported(from, to, loc, name, t, found));
                },
            }
        },
        None => {},
    }
}

proof fn backs_var(
    from: State,
    to: State,
    st: State,
    sig: VarSignature,
    body: DefBody,
    block: Seq<ExprView>,
    expect: Option<TyView>,
)
    requires
        reads_on(from, st),
        sig.pat.name_token() is Some,
        block_typed(block),
        define_var(st, sig, body, block, expect).1 is Val,
        reads_on(define_var(st, sig, body, block, expect).0, to),
    ensures
        reads_on(st, to),
        ({
            let name = sig.pat.name_token().unwrap().content@;
            let t = block_t(block);
            &&& ends_in(block, t)
            &&& expect matches Some(e) ==> was_checked(from, to, sig.place(), name, e, t)
            &&& was_done(from, to, QueryView::AssignVar { sig, id: body.id, t })
            &&& block[0] matches ExprView::Call(call) ==> {
                &&& sig.pat is VarName
                &&& *call.obj matches ExprView::Accessor(
                    AccessorView::Local { name: callee, .. },
                ) ==> (callee.content@ == "import"@ ==> call.pos_args.len() > 0 && was_done(
                    from,
                    to,
                    QueryView::ImportMod {
                        name: sig.pat.name_token().unwrap(),
                        path: call.pos_args[0],
                    },
                ))
            }
        }),
{
    let t = block_t(block);
    let name = sig.pat.name_token().unwrap().content@;
    let assign = QueryView::AssignVar { sig, id: body.id, t };
    let st1 = check_body_t(st, sig.place(), name, expect, t).0;
    let st2 = ask_done(st1, assign).0;
    let st3 = import(st2, sig.pat, block).0;
    lemma_ends_in(block);
    lemma_check_body_t(st, sig.place(), name, expect, t);
    lemma_reads_on(st, st1);
    lemma_reads_on_trans(from, st, st1);
    lemma_reads_answered(from, st1, assign);
    lemma_import(st2, sig.pat, block);
    lemma_reads_on(st2, st3);
    lemma_reads_on_trans(st2, st3, to);
    lemma_was_done(from, to, st1, assign);
    lemma_was_checked(from, to, st, sig.place(), name, expect, t);
    match (block[0], sig.pat) {
        (ExprView::Call(call), VarPattern::VarName(token)) => {
            if is_import(call) {
                let query = QueryView::ImportMod { name: token, path: call.pos_args[0] };
                lemma_was_done(from, to, st2, query);
            }
        },
        _ => {},
    }
}

proof fn backs_var_def(from: State, to: State, st: State, sig: VarSignature, body: DefBody)
    requires
        reads_on(from, st),
        sig.pat.name_token() is Some,
        lower_var_def(st, sig, body).1 is Val,
        reads_on(lower_var_def(st, sig, body).0, to),
    ensures
        reads_on(st, to),
        lower_var_def(st, sig, body).1 matches Res::Val(h) && {
            &&& block_backed(from, to, st.scopes.last(), h.block, body.block)
            &&& h.op == body.op
            &&& h.id == body.id
            &&& h.sig matches SignatureView::Var { pat, t } && pat == sig.pat && var_backed(
                from,
                to,
                h.block,
                t,
                sig,
                body,
            )
        },
    decreases body,
{
    let register = QueryView::Preregister { block: body.block };
    let query = QueryView::OuterVarT { name: sig.pat.name_token().unwrap().content@ };
    let st1 = ask_done(st, register).0;
    let (st2, r2) = lower_block(st1, body.block);
    let st3 = st2.answered(query);
    lemma_block(st1, body.block);
    lemma_reads_answered(from, st, register);
    lemma_reads_on(st1, st2);
    lemma_reads_on_trans(from, st1, st2);
    match (r2, st2.reply()) {
        (Res::Val(block), Some(Reply::OuterVarT(expect))) => {
            let expect = match expect {
                Some(expect) => Some(expect@),
                None => None,
            };
            lemma_reads_answered(from, st2, query);
            backs_var(from, to, st3, sig, body, block, expect);
            lemma_point(from, to, st2, query);
            lemma_reads_on_trans(st1, st2, to);
            lemma_was_done(from, to, st, register);
            backs_block(from, to, st1, body.block);
        },
        _ => {},
    }
}

proof fn backs_subr_def(from: State, to: State, st: State, sig: SubrSignature, body: DefBody)
    requires
        reads_on(from, st),
        lower_subr_def(st, sig, body).1 is Val,
        reads_on(lower_subr_def(st, sig, body).0, to),
    ensures
        reads_on(st, to),
        lower_subr_def(st, sig, body).1 matches Res::Val(h) && {
            &&& block_backed(from, to, st.scopes.last(), h.block, body.block)
            &&& h.op == body.op
            &&& h.id == body.id
            &&& h.sig matches SignatureView::Subr { name, params, sig_t } && name == sig.name
                && params == sig.params && subr_backed(from, to, h.block, sig_t, sig, body)
        },
    decreases body,
{
    let query = QueryView::OuterSubrT { name: sig.name.content@ };
    let assign = QueryView::AssignParams { params: sig.params };
    let register = QueryView::Preregister { block: body.block };
    let st1 = st.answered(query);
    let st2 = ask_done(st1, assign).0;
    let st3 = ask_done(st2, register).0;
    let (st4, r4) = lower_block(st3, body.block);
    lemma_block(st3, body.block);
    lemma_reads_answered(from, st, query);
    lemma_reads_answered(from, st1, assign);
    lemma_reads_answered(from, st2, register);
    lemma_reads_on(st3, st4);
    lemma_reads_on_trans(from, st3, st4);
    match (r4, st.reply()) {
        (Res::Val(block), Some(Reply::OuterSubrT(sig_t))) => {
            let t = block_t(block);
            let define = QueryView::AssignSubr { sig, id: body.id, t };
            let expect = sig_t@.return_t();
            let st5 = check_body_t(st4, sig.place(), sig.name.content@, expect, t).0;
            lemma_check_body_t(st4, sig.place(), sig.name.content@, expect, t);
            lemma_reads_on(st4, st5);
            lemma_reads_on_trans(from, st4, st5);
            lemma_was_done(from, to, st5, define);
            lemma_was_checked(from, to, st4, sig.place(), sig.name.content@, expect, t);
            lemma_reads_on_trans(st3, st4, to);
            lemma_was_done(from, to, st2, register);
            lemma_was_done(from, to, st1, assign);
            lemma_point(from, to, st, query);
            backs_block(from, to, st3, body.block);
            lemma_ends_in(block);
            assert(gives_back(sig_t@) == expect);
        },
        _ => {},
    }
}

proof fn backs_def(from: State, to: State, st: State, def: Def)
    requires
        reads_on(from, st),
        lower_def(st, def).1 is Val,
        reads_on(lower_def(st, def).0, to),
    ensures
        lower_def(st, def).1 matches Res::Val(h) && def_backed(from, to, h, def),
    decreases def,
{
    match def.sig.name_token() {
        Some(name) => {
            let st1 = grow(st, name.content@, ContextKind::Instant).0;
            lemma_grow(st, name.content@, ContextKind::Instant);
            lemma_reads_on(st, st1);
            lemma_reads_on_trans(from, st, st1);
            match def.sig {
                Signature::Subr(sig) => {
                    let st2 = lower_subr_def(st1, sig, def.body).0;
                    lemma_subr_def(st1, sig, def.body);
                    lemma_reads_on(st1, st2);
                    lemma_reads_on_trans(from, st1, st2);
                    lemma_was_left(from, to, st2);
                    backs_subr_def(from, to, st1, sig, def.body);
                },
                Signature::Var(sig) => {
                    let st2 = lower_var_def(st1, sig, def.body).0;
                    lemma_var_def(st1, sig, def.body);
                    lemma_reads_on(st1, st2);
                    lemma_reads_on_trans(from, st1, st2);
                    lemma_was_left(from, to, st2);
                    backs_var_def(from, to, st1, sig, def.body);
                },
            }
            lemma_entered(from, to, st, name.content@, ContextKind::Instant);
        },
        None => {},
    }
}

} // verus!
