//! What every step of lowering keeps, by induction over the syntax tree.
use vstd::prelude::*;

use crate::ast::{
    Accessor, Array, BinOp, Block, Call, Chunk, Def, DefBody, Expr, KwArg, Lambda, PosArg,
    Signature, SubrSignature, UnaryOp, VarPattern, VarSignature,
};
use crate::context::{
    answers, ContextKind, QueryView, RegistrationMode, Reply, ScopeView, State, Visibility,
};
use crate::error::{Language, Location, LowerErrorView};
use crate::hir::{
    block_t, typed, AccessorView, ArrayView, BinOpView, CallView, DefView,
    ExprView, KwArgView, LambdaView, SignatureView, UnaryOpView,
};
use crate::semantics::{
    ask_callee, ask_done, check_body_t, define_subr, define_var, grow, import, leave_failing,
    lower_acc, lower_array, lower_bin, lower_block, lower_call, lower_chunks, lower_def,
    lower_expr, lower_exprs, lower_in_lambda, lower_kw_args, lower_lambda, lower_pos_args,
    lower_subr_def, lower_unary, lower_var_def, pop_append_errs, return_t_check, unused,
    unused_error, Res,
};
use crate::text::lambda_name;
use crate::token::TokenKind;
use crate::ty::TyView;

verus! {

/// From one state lowering goes on to another: errors are only added to those collected, each
/// query takes the next of the replies, which is one to it, and the scopes that were entered
/// still are.
pub open spec fn goes_on(st: State, st1: State) -> bool {
    &&& st.errs.is_prefix_of(st1.errs)
    &&& st.scopes.is_prefix_of(st1.scopes)
    &&& st.asked.is_prefix_of(st1.asked)
    &&& st1.asked.len() - st.asked.len() <= st.pending.len()
    &&& st1.pending == st.pending.skip(st1.asked.len() - st.asked.len())
    &&& replies_fit(st.pending, st.asked.len(), st1.asked)
}

/// Whether replies are to the queries that were put after the first `n`, in their order.
#[verifier::opaque]
pub open spec fn replies_fit(replies: Seq<Reply>, n: nat, asked: Seq<QueryView>) -> bool {
    forall|i: int| n <= i < asked.len() ==> answers(replies[i - n], #[trigger] asked[i])
}

/// Lowering goes on and, where it comes to a value or an error, is back in the scope it started
/// from.
pub open spec fn keeps<T>(st: State, out: (State, Res<T>)) -> bool {
    &&& goes_on(st, out.0)
    &&& ends_in_scope(st, out)
}

/// Where lowering comes to a value or an error, it is back in the scope it started from.
pub open spec fn ends_in_scope<T>(st: State, out: (State, Res<T>)) -> bool {
    (out.1 is Val || out.1 is Fail) ==> out.0.scopes == st.scopes
}

pub proof fn lemma_goes_on_trans(st: State, st1: State, st2: State)
    requires
        goes_on(st, st1),
        goes_on(st1, st2),
    ensures
        goes_on(st, st2),
{
    assert(st2.pending =~= st.pending.skip(st2.asked.len() - st.asked.len()));
    reveal(replies_fit);
    let n = st1.asked.len() as int;
    assert forall|i: int| st.asked.len() <= i < st2.asked.len() implies answers(
        st.pending[i - st.asked.len()],
        #[trigger] st2.asked[i],
    ) by {
        if i < n {
            assert(st2.asked.subrange(0, n)[i] == st1.asked[i]);
        } else {
            assert(st1.pending[i - n] == st.pending[i - st.asked.len()]);
        }
    }
}

pub proof fn lemma_answered(st: State, query: QueryView)
    requires
        st.pending.len() > 0,
    ensures
        answers(st.pending[0], query) ==> goes_on(st, st.answered(query)),
{
    reveal(replies_fit);
    assert(st.answered(query).pending =~= st.pending.skip(1));
}

pub proof fn lemma_goes_on_refl(st: State)
    ensures
        goes_on(st, st),
{
    reveal(replies_fit);
    assert(st.pending =~= st.pending.skip(0));
}

pub proof fn lemma_ask_done(st: State, query: QueryView)
    requires
        forall|reply: Reply| #[trigger] answers(reply, query) <==> reply is Done,
    ensures
        keeps(st, ask_done(st, query)),
{
    lemma_goes_on_refl(st);
    if st.pending.len() > 0 {
        lemma_answered(st, query);
    }
}

pub proof fn lemma_ask_callee(st: State, query: QueryView)
    requires
        forall|reply: Reply| #[trigger] answers(reply, query) <==> reply is CalleeT,
    ensures
        keeps(st, ask_callee(st, query)),
{
    lemma_goes_on_refl(st);
    if st.pending.len() > 0 {
        lemma_answered(st, query);
    }
}

pub proof fn lemma_grow(st: State, name: Seq<char>, kind: ContextKind)
    ensures
        goes_on(st, grow(st, name, kind).0),
        grow(st, name, kind).1 is Val ==> {
            &&& grow(st, name, kind).0.scopes.len() == st.scopes.len() + 1
            &&& grow(st, name, kind).0.scopes.drop_last() == st.scopes
        },
        grow(st, name, kind).1 is Fail ==> grow(st, name, kind).0.scopes == st.scopes,
{
    lemma_goes_on_refl(st);
    if st.pending.len() > 0 {
        let query = QueryView::Grow { name, kind, vis: Visibility::Private };
        lemma_answered(st, query);
        match st.pending[0] {
            Reply::Grown(Ok(made)) => {
                let scope = ScopeView { name: made.name@, kind, level: made.level };
                assert(st.scopes.push(scope).drop_last() =~= st.scopes);
            },
            _ => {},
        }
    }
}

/// Leaving a scope that was entered from `st` comes back to the scopes of `st`.
pub proof fn lemma_pop(st: State, st1: State)
    requires
        goes_on(st, st1),
        st1.scopes.len() == st.scopes.len() + 1,
    ensures
        goes_on(st, pop_append_errs(st1).0),
        pop_append_errs(st1).1 is Val ==> pop_append_errs(st1).0.scopes == st.scopes,
        !(pop_append_errs(st1).1 is Fail),
{
    if st1.pending.len() > 0 && st1.pending[0] is Popped {
        lemma_answered(st1, QueryView::Pop);
        lemma_goes_on_trans(st, st1, st1.answered(QueryView::Pop));
        assert(st1.scopes.drop_last() =~= st.scopes);
        match st1.pending[0] {
            Reply::Popped(Err(errs)) => {
                assert(st.errs =~= (st1.errs + errs@).subrange(0, st.errs.len() as int));
            },
            _ => {},
        }
    }
}

pub proof fn lemma_leave_failing<T, U>(st: State, st1: State, failed: Res<T>)
    requires
        goes_on(st, st1),
        !(failed is Val),
        failed is Fail ==> st1.scopes.len() == st.scopes.len() + 1,
    ensures
        keeps(st, leave_failing::<T, U>(st1, failed)),
        !(leave_failing::<T, U>(st1, failed).1 is Val),
{
    if failed is Fail {
        lemma_pop(st, st1);
    }
}

pub proof fn lemma_return_t_check(
    st: State,
    loc: Location,
    name: Seq<char>,
    expect: TyView,
    found: TyView,
)
    ensures
        keeps(st, return_t_check(st, loc, name, expect, found)),
{
    let query = QueryView::Unify { expect, found, loc };
    lemma_goes_on_refl(st);
    if st.pending.len() > 0 && st.pending[0] is Done {
        lemma_answered(st, query);
        let st1 = st.answered(query);
        if st1.pending.len() > 0 && st1.pending[0] is CausedBy {
            lemma_answered(st1, QueryView::CausedBy);
            lemma_goes_on_trans(st, st1, st1.answered(QueryView::CausedBy));
        }
    }
}

pub proof fn lemma_report(st: State, e: LowerErrorView)
    ensures
        goes_on(st, st.report(e)),
{
    lemma_goes_on_refl(st);
}

pub proof fn lemma_check_body_t(
    st: State,
    loc: Location,
    name: Seq<char>,
    expect: Option<TyView>,
    found: TyView,
)
    ensures
        keeps(st, check_body_t(st, loc, name, expect, found)),
        !(check_body_t(st, loc, name, expect, found).1 is Fail),
{
    lemma_goes_on_refl(st);
    match expect {
        Some(expect) => {
            lemma_return_t_check(st, loc, name, expect, found);
            let (st1, r) = return_t_check(st, loc, name, expect, found);
            match r {
                Res::Fail(e) => {
                    lemma_report(st1, e);
                    lemma_goes_on_trans(st, st1, st1.report(e));
                },
                _ => {},
            }
        },
        None => {},
    }
}

pub proof fn lemma_import(st: State, pat: VarPattern, block: Seq<ExprView>)
    ensures
        keeps(st, import(st, pat, block)),
{
    lemma_goes_on_refl(st);
    match (block[0], pat) {
        (ExprView::Call(call), VarPattern::VarName(name)) => {
            lemma_ask_done(st, QueryView::ImportMod { name, path: call.pos_args[0] });
        },
        _ => {},
    }
}

/// Whether a typed tree is a syntax tree with types put to it. The keyword elements and the guard
/// of an array are not kept.
pub open spec fn lowered_from(h: ExprView, expr: Expr) -> bool
    decreases expr,
{
    match (h, expr) {
        (ExprView::Lit(token), Expr::Lit(lit)) => token == lit.token && token.kind.is_literal(),
        (ExprView::Accessor(h), Expr::Accessor(acc)) => acc_lowered_from(h, acc),
        (ExprView::Array(h), Expr::Array(array)) => array_lowered_from(h, array),
        (ExprView::BinOp(h), Expr::BinOp(bin)) => bin_lowered_from(h, bin),
        (ExprView::UnaryOp(h), Expr::UnaryOp(unary)) => unary_lowered_from(h, unary),
        (ExprView::Call(h), Expr::Call(call)) => call_lowered_from(h, call),
        (ExprView::Lambda(h), Expr::Lambda(lambda)) => lambda_lowered_from(h, lambda),
        (ExprView::Def(h), Expr::Def(def)) => def_lowered_from(h, def),
        _ => false,
    }
}

pub open spec fn acc_lowered_from(h: AccessorView, acc: Accessor) -> bool
    decreases acc,
{
    match (h, acc) {
        (AccessorView::Local { name, .. }, Accessor::Local(l)) => name == l.symbol,
        (AccessorView::Attr { obj, name, .. }, Accessor::Attr(a)) => {
            &&& name == a.name.symbol
            &&& lowered_from(*obj, *a.obj)
        },
        _ => false,
    }
}

pub open spec fn array_lowered_from(h: ArrayView, array: Array) -> bool
    decreases array,
{
    &&& h.l_sqbr == array.l_sqbr
    &&& h.r_sqbr == array.r_sqbr
    &&& h.elems.len() == array.elems.pos_args@.len()
    &&& forall|i: int|
        0 <= i < array.elems.pos_args@.len() ==> lowered_from(
            h.elems[i],
            (#[trigger] array.elems.pos_args@[i]).expr,
        )
}

pub open spec fn bin_lowered_from(h: BinOpView, bin: BinOp) -> bool
    decreases bin,
{
    &&& h.op == bin.op
    &&& lowered_from(*h.lhs, *bin.lhs)
    &&& lowered_from(*h.rhs, *bin.rhs)
}

pub open spec fn unary_lowered_from(h: UnaryOpView, unary: UnaryOp) -> bool
    decreases unary,
{
    &&& h.op == unary.op
    &&& lowered_from(*h.expr, *unary.expr)
}

pub open spec fn call_lowered_from(h: CallView, call: Call) -> bool
    decreases call,
{
    &&& lowered_from(*h.obj, *call.obj)
    &&& h.paren == call.args.paren
    &&& h.pos_args.len() == call.args.pos_args@.len()
    &&& forall|i: int|
        0 <= i < call.args.pos_args@.len() ==> lowered_from(
            h.pos_args[i],
            (#[trigger] call.args.pos_args@[i]).expr,
        )
    &&& h.kw_args.len() == call.args.kw_args@.len()
    &&& forall|i: int|
        0 <= i < call.args.kw_args@.len() ==> {
            &&& h.kw_args[i].keyword == (#[trigger] call.args.kw_args@[i]).keyword
            &&& lowered_from(h.kw_args[i].expr, call.args.kw_args@[i].expr)
        }
}

pub open spec fn lambda_lowered_from(h: LambdaView, lambda: Lambda) -> bool
    decreases lambda,
{
    &&& h.id == lambda.sig@.id
    &&& h.params == lambda.sig@.params
    &&& h.op == lambda.op
    &&& block_lowered_from(h.body, lambda.body)
}

pub open spec fn block_lowered_from(h: Seq<ExprView>, block: Block) -> bool
    decreases block,
{
    &&& h.len() == block.exprs@.len()
    &&& forall|i: int|
        0 <= i < block.exprs@.len() ==> lowered_from(h[i], #[trigger] block.exprs@[i])
}

pub open spec fn def_lowered_from(h: DefView, def: Def) -> bool
    decreases def,
{
    &&& match (h.sig, def.sig) {
        (SignatureView::Var { pat, .. }, Signature::Var(sig)) => pat == sig.pat,
        (SignatureView::Subr { name, params, .. }, Signature::Subr(sig)) => {
            &&& name == sig.name
            &&& params == sig.params
        },
        _ => false,
    }
    &&& h.op == def.body.op
    &&& h.id == def.body.id
    &&& block_lowered_from(h.block, def.body.block)
}

pub proof fn lemma_expr(st: State, expr: Expr, check: bool)
    ensures
        keeps(st, lower_expr(st, expr, check)),
        lower_expr(st, expr, check).1 matches Res::Val(h) ==> lowered_from(h, expr),
    decreases expr,
{
    lemma_goes_on_refl(st);
    match expr {
        Expr::Lit(_) => {},
        Expr::Accessor(acc) => lemma_acc(st, acc, check),
        Expr::Array(array) => lemma_array(st, array, check),
        Expr::BinOp(bin) => lemma_bin(st, bin),
        Expr::UnaryOp(unary) => lemma_unary(st, unary),
        Expr::Call(call) => lemma_call(st, call),
        Expr::Lambda(lambda) => lemma_lambda(st, lambda),
        Expr::Def(def) => lemma_def(st, def),
        Expr::Dict(_) => {},
        Expr::Decl(_) => {},
    }
}

pub proof fn lemma_pos_args(st: State, done: Seq<ExprView>, args: Seq<PosArg>, check: bool)
    ensures
        keeps(st, lower_pos_args(st, done, args, check)),
        lower_pos_args(st, done, args, check).1 matches Res::Val(hs) ==> {
            &&& hs.len() == done.len() + args.len()
            &&& done == hs.take(done.len() as int)
            &&& forall|i: int|
                0 <= i < args.len() ==> lowered_from(hs[done.len() + i], #[trigger] args[i].expr)
        },
    decreases args,
{
    lemma_goes_on_refl(st);
    if args.len() == 0 {
        assert(done =~= done.take(done.len() as int));
    } else {
        lemma_expr(st, args[0].expr, check);
        let (st1, r) = lower_expr(st, args[0].expr, check);
        match r {
            Res::Val(h) => {
                let rest = args.drop_first();
                lemma_pos_args(st1, done.push(h), rest, check);
                let (st2, r2) = lower_pos_args(st1, done.push(h), rest, check);
                lemma_goes_on_trans(st, st1, st2);
                match r2 {
                    Res::Val(hs) => {
                        assert(hs.take(done.len() as int) =~= done.push(h).take(
                            done.len() as int,
                        ));
                        assert(done =~= hs.take(done.len() as int));
                        assert forall|i: int| 0 <= i < args.len() implies lowered_from(
                            hs[done.len() + i],
                            #[trigger] args[i].expr,
                        ) by {
                            if i == 0 {
                                assert(hs.take((done.len() + 1) as int)[done.len() as int] == h);
                            } else {
                                assert(rest[i - 1] == args[i]);
                            }
                        }
                    },
                    _ => {},
                }
            },
            _ => {},
        }
    }
}

pub proof fn lemma_kw_args(st: State, done: Seq<KwArgView>, args: Seq<KwArg>)
    ensures
        keeps(st, lower_kw_args(st, done, args)),
        lower_kw_args(st, done, args).1 matches Res::Val(hs) ==> {
            &&& hs.len() == done.len() + args.len()
            &&& done == hs.take(done.len() as int)
            &&& forall|i: int|
                0 <= i < args.len() ==> hs[done.len() + i].keyword == args[i].keyword
                    && lowered_from(hs[done.len() + i].expr, #[trigger] args[i].expr)
        },
    decreases args,
{
    lemma_goes_on_refl(st);
    if args.len() == 0 {
        assert(done =~= done.take(done.len() as int));
    } else {
        lemma_expr(st, args[0].expr, true);
        let (st1, r) = lower_expr(st, args[0].expr, true);
        match r {
            Res::Val(h) => {
                let rest = args.drop_first();
                let kw = KwArgView { keyword: args[0].keyword, expr: h };
                lemma_kw_args(st1, done.push(kw), rest);
                let (st2, r2) = lower_kw_args(st1, done.push(kw), rest);
                lemma_goes_on_trans(st, st1, st2);
                match r2 {
                    Res::Val(hs) => {
                        assert(hs.take(done.len() as int) =~= done.push(kw).take(
                            done.len() as int,
                        ));
                        assert(done =~= hs.take(done.len() as int));
                        assert forall|i: int| 0 <= i < args.len() implies hs[done.len()
                            + i].keyword == args[i].keyword && lowered_from(
                            hs[done.len() + i].expr,
                            #[trigger] args[i].expr,
                        ) by {
                            if i == 0 {
                                assert(hs.take((done.len() + 1) as int)[done.len() as int] == kw);
                            } else {
                                assert(rest[i - 1] == args[i]);
                            }
                        }
                    },
                    _ => {},
                }
            },
            _ => {},
        }
    }
}

pub proof fn lemma_exprs(st: State, done: Seq<ExprView>, exprs: Seq<Expr>)
    ensures
        keeps(st, lower_exprs(st, done, exprs)),
        lower_exprs(st, done, exprs).1 matches Res::Val(hs) ==> {
            &&& hs.len() == done.len() + exprs.len()
            &&& done == hs.take(done.len() as int)
            &&& forall|i: int|
                0 <= i < exprs.len() ==> lowered_from(hs[done.len() + i], #[trigger] exprs[i])
        },
    decreases exprs,
{
    lemma_goes_on_refl(st);
    if exprs.len() == 0 {
        assert(done =~= done.take(done.len() as int));
    } else {
        lemma_expr(st, exprs[0], true);
        let (st1, r) = lower_expr(st, exprs[0], true);
        match r {
            Res::Val(h) => {
                let rest = exprs.drop_first();
                lemma_exprs(st1, done.push(h), rest);
                let (st2, r2) = lower_exprs(st1, done.push(h), rest);
                lemma_goes_on_trans(st, st1, st2);
                match r2 {
                    Res::Val(hs) => {
                        assert(hs.take(done.len() as int) =~= done.push(h).take(
                            done.len() as int,
                        ));
                        assert(done =~= hs.take(done.len() as int));
                        assert forall|i: int| 0 <= i < exprs.len() implies lowered_from(
                            hs[done.len() + i],
                            #[trigger] exprs[i],
                        ) by {
                            if i == 0 {
                                assert(hs.take((done.len() + 1) as int)[done.len() as int] == h);
                            } else {
                                assert(rest[i - 1] == exprs[i]);
                            }
                        }
                    },
                    _ => {},
                }
            },
            _ => {},
        }
    }
}

pub proof fn lemma_block(st: State, block: Block)
    ensures
        keeps(st, lower_block(st, block)),
        lower_block(st, block).1 matches Res::Val(h) ==> block_lowered_from(h, block),
    decreases block,
{
    lemma_exprs(st, Seq::empty(), block.exprs@);
}

pub proof fn lemma_array(st: State, array: Array, check: bool)
    ensures
        keeps(st, lower_array(st, array, check)),
        lower_array(st, array, check).1 matches Res::Val(h) ==> array_lowered_from(h, array),
    decreases array,
{
    let args = array.elems.pos_args@;
    let query = QueryView::ArrayT { level: st.scopes.last().level };
    lemma_goes_on_refl(st);
    if st.pending.len() > 0 && st.pending[0] is ArrayT {
        lemma_answered(st, query);
        let st1 = st.answered(query);
        lemma_pos_args(st1, Seq::empty(), args, check);
        lemma_goes_on_trans(st, st1, lower_pos_args(st1, Seq::empty(), args, check).0);
    }
}

pub proof fn lemma_acc(st: State, acc: Accessor, check: bool)
    ensures
        keeps(st, lower_acc(st, acc, check)),
        lower_acc(st, acc, check).1 matches Res::Val(h) ==> acc_lowered_from(h, acc),
    decreases acc,
{
    lemma_goes_on_refl(st);
    match acc {
        Accessor::Local(n) => {
            if check && st.pending.len() > 0 && st.pending[0] is VarT {
                let var_t = QueryView::VarT { symbol: n.symbol, namespace: st.name() };
                let uniq_name = QueryView::UniqObjName { symbol: n.symbol };
                lemma_answered(st, var_t);
                let st1 = st.answered(var_t);
                if st1.pending.len() > 0 && st1.pending[0] is UniqObjName {
                    lemma_answered(st1, uniq_name);
                    lemma_goes_on_trans(st, st1, st1.answered(uniq_name));
                }
            }
        },
        Accessor::Attr(a) => {
            lemma_expr(st, *a.obj, true);
            let (st1, r) = lower_expr(st, *a.obj, true);
            match r {
                Res::Val(obj) => {
                    if check && st1.pending.len() > 0 && st1.pending[0] is AttrT {
                        let query = QueryView::AttrT {
                            obj,
                            name: a.name.symbol,
                            namespace: st1.name(),
                        };
                        lemma_answered(st1, query);
                        lemma_goes_on_trans(st, st1, st1.answered(query));
                    }
                },
                _ => {},
            }
        },
        _ => {},
    }
}

pub proof fn lemma_bin(st: State, bin: BinOp)
    ensures
        keeps(st, lower_bin(st, bin)),
        lower_bin(st, bin).1 matches Res::Val(h) ==> bin_lowered_from(h, bin),
    decreases bin,
{
    lemma_expr(st, *bin.lhs, true);
    let (st1, r1) = lower_expr(st, *bin.lhs, true);
    match r1 {
        Res::Val(lhs) => {
            lemma_expr(st1, *bin.rhs, true);
            let (st2, r2) = lower_expr(st1, *bin.rhs, true);
            lemma_goes_on_trans(st, st1, st2);
            match r2 {
                Res::Val(rhs) => {
                    let query = QueryView::BinOpT { op: bin.op, lhs, rhs, namespace: st2.name() };
                    lemma_ask_callee(st2, query);
                    lemma_goes_on_trans(st, st2, ask_callee(st2, query).0);
                },
                _ => {},
            }
        },
        _ => {},
    }
}

pub proof fn lemma_unary(st: State, unary: UnaryOp)
    ensures
        keeps(st, lower_unary(st, unary)),
        lower_unary(st, unary).1 matches Res::Val(h) ==> unary_lowered_from(h, unary),
    decreases unary,
{
    lemma_expr(st, *unary.expr, true);
    let (st1, r1) = lower_expr(st, *unary.expr, true);
    match r1 {
        Res::Val(expr) => {
            let query = QueryView::UnaryOpT { op: unary.op, expr, namespace: st1.name() };
            lemma_ask_callee(st1, query);
            lemma_goes_on_trans(st, st1, ask_callee(st1, query).0);
        },
        _ => {},
    }
}

pub proof fn lemma_call(st: State, call: Call)
    ensures
        keeps(st, lower_call(st, call)),
        lower_call(st, call).1 matches Res::Val(h) ==> call_lowered_from(h, call),
    decreases call,
{
    let pos = call.args.pos_args@;
    let kw = call.args.kw_args@;
    lemma_pos_args(st, Seq::empty(), pos, true);
    let (st1, r1) = lower_pos_args(st, Seq::empty(), pos, true);
    match r1 {
        Res::Val(pos_args) => {
            lemma_kw_args(st1, Seq::empty(), kw);
            let (st2, r2) = lower_kw_args(st1, Seq::empty(), kw);
            lemma_goes_on_trans(st, st1, st2);
            match r2 {
                Res::Val(kw_args) => {
                    lemma_expr(st2, *call.obj, false);
                    let (st3, r3) = lower_expr(st2, *call.obj, false);
                    lemma_goes_on_trans(st, st2, st3);
                    match r3 {
                        Res::Val(obj) => {
                            let query = QueryView::CallT {
                                obj,
                                pos_args,
                                kw_args,
                                namespace: st3.name(),
                            };
                            lemma_ask_callee(st3, query);
                            lemma_goes_on_trans(st, st3, ask_callee(st3, query).0);
                        },
                        _ => {},
                    }
                },
                _ => {},
            }
        },
        _ => {},
    }
}

pub proof fn lemma_in_lambda(st: State, lambda: Lambda)
    ensures
        keeps(st, lower_in_lambda(st, lambda)),
        lower_in_lambda(st, lambda).1 matches Res::Val((body, _, _)) ==> block_lowered_from(
            body,
            lambda.body,
        ),
    decreases lambda.body,
{
    let assign = QueryView::AssignParams { params: lambda.sig@.params };
    let register = QueryView::Preregister { block: lambda.body };
    let exprs = lambda.body.exprs@;
    lemma_ask_done(st, assign);
    let (st1, r1) = ask_done(st, assign);
    match r1 {
        Res::Val(_) => {
            lemma_ask_done(st1, register);
            let (st2, r2) = ask_done(st1, register);
            lemma_goes_on_trans(st, st1, st2);
            match r2 {
                Res::Val(_) => {
                    lemma_exprs(st2, Seq::empty(), exprs);
                    let (st3, r3) = lower_exprs(st2, Seq::empty(), exprs);
                    lemma_goes_on_trans(st, st2, st3);
                    match r3 {
                        Res::Val(body) => {
                            if st3.pending.len() > 0 && st3.pending[0] is ParamInfos {
                                lemma_answered(st3, QueryView::ScopeParams);
                                let st4 = st3.answered(QueryView::ScopeParams);
                                lemma_goes_on_trans(st, st3, st4);
                                if st4.pending.len() > 0 && st4.pending[0] is Bounds {
                                    let query = QueryView::InstantiateTyBounds {
                                        bounds: lambda.sig@.bounds,
                                        mode: RegistrationMode::Normal,
                                    };
                                    lemma_answered(st4, query);
                                    lemma_goes_on_trans(st, st4, st4.answered(query));
                                }
                            }
                        },
                        _ => {},
                    }
                },
                _ => {},
            }
        },
        _ => {},
    }
}

pub proof fn lemma_lambda(st: State, lambda: Lambda)
    ensures
        keeps(st, lower_lambda(st, lambda)),
        lower_lambda(st, lambda).1 matches Res::Val(h) ==> lambda_lowered_from(h, lambda),
    decreases lambda,
{
    let kind = if lambda.op.kind == TokenKind::ProcArrow {
        ContextKind::Proc
    } else {
        ContextKind::Func
    };
    let name = lambda_name(lambda.sig@.id);
    lemma_grow(st, name, kind);
    let (st1, r1) = grow(st, name, kind);
    match r1 {
        Res::Val(_) => {
            lemma_in_lambda(st1, lambda);
            let (st2, r2) = lower_in_lambda(st1, lambda);
            lemma_goes_on_trans(st, st1, st2);
            match r2 {
                Res::Val(_) => lemma_pop(st, st2),
                _ => lemma_leave_failing::<_, LambdaView>(st, st2, r2),
            }
        },
        _ => {},
    }
}

pub proof fn lemma_def(st: State, def: Def)
    ensures
        keeps(st, lower_def(st, def)),
        lower_def(st, def).1 matches Res::Val(h) ==> def_lowered_from(h, def),
    decreases def,
{
    lemma_goes_on_refl(st);
    match def.sig.name_token() {
        Some(name) => {
            lemma_grow(st, name.content@, ContextKind::Instant);
            let (st1, r1) = grow(st, name.content@, ContextKind::Instant);
            if r1 is Val {
                let (st2, r2) = match def.sig {
                    Signature::Subr(sig) => {
                        lemma_subr_def(st1, sig, def.body);
                        lower_subr_def(st1, sig, def.body)
                    },
                    Signature::Var(sig) => {
                        lemma_var_def(st1, sig, def.body);
                        lower_var_def(st1, sig, def.body)
                    },
                };
                lemma_goes_on_trans(st, st1, st2);
                match r2 {
                    Res::Val(_) => lemma_pop(st, st2),
                    _ => lemma_leave_failing::<_, DefView>(st, st2, r2),
                }
            }
        },
        None => {},
    }
}

pub proof fn lemma_define_var(
    st: State,
    sig: VarSignature,
    body: DefBody,
    block: Seq<ExprView>,
    expect: Option<TyView>,
)
    ensures
        keeps(st, define_var(st, sig, body, block, expect)),
{
    let t = block_t(block);
    let name = sig.pat.name_token().unwrap().content@;
    lemma_check_body_t(st, sig.place(), name, expect, t);
    let (st1, r1) = check_body_t(st, sig.place(), name, expect, t);
    if r1 is Val {
        let assign = QueryView::AssignVar { sig, id: body.id, t };
        lemma_ask_done(st1, assign);
        let (st2, r2) = ask_done(st1, assign);
        lemma_goes_on_trans(st, st1, st2);
        if r2 is Val {
            lemma_import(st2, sig.pat, block);
            lemma_goes_on_trans(st, st2, import(st2, sig.pat, block).0);
        }
    }
}

pub proof fn lemma_var_def(st: State, sig: VarSignature, body: DefBody)
    ensures
        keeps(st, lower_var_def(st, sig, body)),
        lower_var_def(st, sig, body).1 matches Res::Val(h) ==> {
            &&& h.sig matches SignatureView::Var { pat, .. } && pat == sig.pat
            &&& h.op == body.op
            &&& h.id == body.id
            &&& block_lowered_from(h.block, body.block)
        },
    decreases body,
{
    let register = QueryView::Preregister { block: body.block };
    let query = QueryView::OuterVarT { name: sig.pat.name_token().unwrap().content@ };
    lemma_ask_done(st, register);
    let (st1, r1) = ask_done(st, register);
    if r1 is Val {
        lemma_block(st1, body.block);
        let (st2, r2) = lower_block(st1, body.block);
        lemma_goes_on_trans(st, st1, st2);
        match (r2, st2.reply()) {
            (Res::Val(block), Some(Reply::OuterVarT(expect))) => {
                let expect = match expect {
                    Some(expect) => Some(expect@),
                    None => None,
                };
                lemma_answered(st2, query);
                let st3 = st2.answered(query);
                lemma_goes_on_trans(st, st2, st3);
                lemma_define_var(st3, sig, body, block, expect);
                lemma_goes_on_trans(st, st3, define_var(st3, sig, body, block, expect).0);
            },
            _ => {},
        }
    }
}

pub proof fn lemma_define_subr(
    st: State,
    sig: SubrSignature,
    body: DefBody,
    block: Seq<ExprView>,
    sig_t: TyView,
)
    ensures
        keeps(st, define_subr(st, sig, body, block, sig_t)),
{
    lemma_goes_on_refl(st);
    let t = block_t(block);
    let expect = sig_t.return_t();
    lemma_check_body_t(st, sig.place(), sig.name.content@, expect, t);
    let (st1, r1) = check_body_t(st, sig.place(), sig.name.content@, expect, t);
    if r1 is Val {
        let assign = QueryView::AssignSubr { sig, id: body.id, t };
        lemma_ask_done(st1, assign);
        lemma_goes_on_trans(st, st1, ask_done(st1, assign).0);
    }
}

pub proof fn lemma_subr_def(st: State, sig: SubrSignature, body: DefBody)
    ensures
        keeps(st, lower_subr_def(st, sig, body)),
        lower_subr_def(st, sig, body).1 matches Res::Val(h) ==> {
            &&& h.sig matches SignatureView::Subr { name, params, .. } && name == sig.name && params
                == sig.params
            &&& h.op == body.op
            &&& h.id == body.id
            &&& block_lowered_from(h.block, body.block)
        },
    decreases body,
{
    let query = QueryView::OuterSubrT { name: sig.name.content@ };
    let assign = QueryView::AssignParams { params: sig.params };
    let register = QueryView::Preregister { block: body.block };
    lemma_goes_on_refl(st);
    match st.reply() {
        Some(Reply::OuterSubrT(sig_t)) => {
            lemma_answered(st, query);
            let st0 = st.answered(query);
            lemma_ask_done(st0, assign);
            let (st1, r1) = ask_done(st0, assign);
            lemma_goes_on_trans(st, st0, st1);
            if r1 is Val {
                lemma_ask_done(st1, register);
                let (st2, r2) = ask_done(st1, register);
                lemma_goes_on_trans(st, st1, st2);
                if r2 is Val {
                    lemma_block(st2, body.block);
                    let (st3, r3) = lower_block(st2, body.block);
                    lemma_goes_on_trans(st, st2, st3);
                    match r3 {
                        Res::Val(block) => {
                            lemma_define_subr(st3, sig, body, block, sig_t@);
                            lemma_goes_on_trans(
                                st,
                                st3,
                                define_subr(st3, sig, body, block, sig_t@).0,
                            );
                        },
                        _ => {},
                    }
                }
            }
        },
        _ => {},
    }
}

/// Whether typed trees are, in their order, expressions of a module with types put to them, of
/// which some may be left out.
pub open spec fn lowered_from_some(hs: Seq<ExprView>, chunks: Seq<Chunk>) -> bool
    decreases chunks.len(),
{
    if chunks.len() == 0 {
        hs.len() == 0
    } else {
        ||| lowered_from_some(hs, chunks.drop_first())
        ||| {
            &&& hs.len() > 0
            &&& lowered_from(hs[0], chunks[0].expr)
            &&& lowered_from_some(hs.drop_first(), chunks.drop_first())
        }
    }
}

/// Each expression of a module either comes into the tree or leaves an error, and none that
/// comes into the tree goes unused.
#[verifier::spinoff_prover]
#[verifier::rlimit(50)]
pub proof fn lemma_chunks(
    st: State,
    done: Seq<ExprView>,
    chunks: Seq<Chunk>,
    mode: Seq<char>,
    lang: Language,
)
    ensures
        keeps(st, lower_chunks(st, done, chunks, mode, lang)),
        !(lower_chunks(st, done, chunks, mode, lang).1 is Fail),
        lower_chunks(st, done, chunks, mode, lang).1 matches Res::Val(hs) ==> {
            let errs = lower_chunks(st, done, chunks, mode, lang).0.errs;
            &&& done.len() <= hs.len() <= done.len() + chunks.len()
            &&& done == hs.take(done.len() as int)
            &&& hs.len() + errs.len() >= done.len() + chunks.len() + st.errs.len()
            &&& lowered_from_some(hs.skip(done.len() as int), chunks)
            &&& forall|i: int| done.len() <= i < hs.len() ==> !unused(#[trigger] hs[i], mode)
            &&& errs.len() == st.errs.len() ==> forall|i: int|
                0 <= i < chunks.len() ==> lowered_from(
                    hs[done.len() + i],
                    (#[trigger] chunks[i]).expr,
                )
        },
    decreases chunks.len(),
{
    lemma_goes_on_refl(st);
    if chunks.len() == 0 {
        assert(done =~= done.take(done.len() as int));
        assert(done.skip(done.len() as int).len() == 0);
    } else {
        let rest = chunks.drop_first();
        lemma_expr(st, chunks[0].expr, true);
        let (st1, r) = lower_expr(st, chunks[0].expr, true);
        match r {
            Res::Val(h) => if mode != "eval"@ && !typed(h) {
            } else if unused(h, mode) {
                let e = unused_error(st1.name(), chunks[0].loc, lang);
                lemma_report(st1, e);
                lemma_goes_on_trans(st, st1, st1.report(e));
                lemma_chunks(st1.report(e), done, rest, mode, lang);
                lemma_goes_on_trans(
                    st,
                    st1.report(e),
                    lower_chunks(st1.report(e), done, rest, mode, lang).0,
                );
            } else {
                lemma_chunks(st1, done.push(h), rest, mode, lang);
                let (st2, r2) = lower_chunks(st1, done.push(h), rest, mode, lang);
                lemma_goes_on_trans(st, st1, st2);
                match r2 {
                    Res::Val(hs) => {
                        let n = done.len() as int;
                        assert(hs.take(n) =~= done.push(h).take(n));
                        assert(done =~= hs.take(n));
                        assert(hs.take(n + 1)[n] == h);
                        assert(hs.skip(n).drop_first() =~= hs.skip(n + 1));
                        assert(hs.skip(n)[0] == h);
                        assert forall|i: int| n <= i < hs.len() implies !unused(
                            #[trigger] hs[i],
                            mode,
                        ) by {
                            if i == n {
                                assert(hs[n] == h);
                            }
                        }
                        if st2.errs.len() == st.errs.len() {
                            assert forall|i: int| 0 <= i < chunks.len() implies lowered_from(
                                hs[done.len() + i],
                                (#[trigger] chunks[i]).expr,
                            ) by {
                                if i > 0 {
                                    assert(rest[i - 1] == chunks[i]);
                                    assert(lowered_from(
                                        hs[done.push(h).len() + (i - 1)],
                                        rest[i - 1].expr,
                                    ));
                                }
                            }
                        }
                    },
                    _ => {},
                }
            },
            Res::Fail(e) => {
                lemma_report(st1, e);
                lemma_goes_on_trans(st, st1, st1.report(e));
                lemma_chunks(st1.report(e), done, rest, mode, lang);
                lemma_goes_on_trans(
                    st,
                    st1.report(e),
                    lower_chunks(st1.report(e), done, rest, mode, lang).0,
                );
            },
            _ => {},
        }
    }
}

/// Lowering an expression ends in the scope it started from.
pub proof fn lemma_expr_end(st: State, expr: Expr, check: bool)
    ensures
        ends_in_scope(st, lower_expr(st, expr, check)),
{
    lemma_expr(st, expr, check);
}

/// Lowering a block ends in the scope it started from.
pub proof fn lemma_block_end(st: State, block: Block)
    ensures
        ends_in_scope(st, lower_block(st, block)),
{
    lemma_block(st, block);
}

/// Lowering the definition of a variable ends in the scope it started from.
pub proof fn lemma_var_def_end(st: State, sig: VarSignature, body: DefBody)
    ensures
        ends_in_scope(st, lower_var_def(st, sig, body)),
{
    lemma_var_def(st, sig, body);
}

/// Lowering the definition of a subroutine ends in the scope it started from.
pub proof fn lemma_subr_def_end(st: State, sig: SubrSignature, body: DefBody)
    ensures
        ends_in_scope(st, lower_subr_def(st, sig, body)),
{
    lemma_subr_def(st, sig, body);
}

/// Lowering the expressions of a module never fails, and only adds scopes and errors; at the end it
/// is in the scope it started from.
pub proof fn lemma_chunks_end(
    st: State,
    done: Seq<ExprView>,
    chunks: Seq<Chunk>,
    mode: Seq<char>,
    lang: Language,
)
    ensures
        !(lower_chunks(st, done, chunks, mode, lang).1 is Fail),
        st.scopes.is_prefix_of(lower_chunks(st, done, chunks, mode, lang).0.scopes),
        st.errs.is_prefix_of(lower_chunks(st, done, chunks, mode, lang).0.errs),
        lower_chunks(st, done, chunks, mode, lang).1 is Val ==> lower_chunks(
            st,
            done,
            chunks,
            mode,
            lang,
        ).0.scopes == st.scopes,
{
    lemma_chunks(st, done, chunks, mode, lang);
}

} // verus!
