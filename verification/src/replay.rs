//! Lowering with more replies goes on where lowering with fewer of them stopped.
use vstd::prelude::*;

use crate::ast::{
    Accessor, Array, BinOp, Block, Call, Chunk, Def,
    DefBody, Expr, KwArg, Lambda, PosArg, Signature, SubrSignature, UnaryOp, VarPattern,
    VarSignature,
};
use crate::context::{
    answers, ContextKind, QueryView, RegistrationMode, Reply, State, Visibility,
};
use crate::error::{Language, Location};
use crate::hir::{block_t, block_typed, typed, DefView, ExprView, KwArgView, LambdaView};
use crate::proofs::{
    lemma_ask_callee, lemma_ask_done, lemma_block, lemma_chunks, lemma_define_subr,
    lemma_define_var, lemma_expr, lemma_exprs, lemma_import, lemma_in_lambda, lemma_kw_args,
    lemma_pos_args, lemma_subr_def, lemma_var_def,
};
use crate::semantics::{
    ask_callee, ask_done, check_body_t, define_subr, define_var, grow, import, lambda_t,
    leave_failing, lower_acc, lower_array, lower_bin, lower_block, lower_call, lower_chunks,
    lower_def, lower_expr, lower_exprs, lower_in_lambda, lower_kw_args, lower_lambda,
    lower_pos_args, lower_subr_def, lower_unary, lower_var_def, pop_append_errs, return_t_check,
    unused, unused_error, Res,
};
use crate::text::lambda_name;
use crate::token::TokenKind;
use crate::ty::TyView;

verus! {

/// A state with more replies to come.
pub open spec fn with_more(st: State, more: Seq<Reply>) -> State {
    State { pending: st.pending + more, ..st }
}

/// Whether lowering stops because the replies are used up.
pub open spec fn waits<T>(out: (State, Res<T>)) -> bool {
    out.1 is Ask && out.0.pending.len() == 0
}

/// Whether `to` is what `from` comes to when there are more replies. Unless the replies were used
/// up, that is the same. If they were, the first of the further replies goes to the query that was
/// waiting, if it is one to that query; else that query goes on waiting.
pub open spec fn resumes<T>(from: (State, Res<T>), to: (State, Res<T>), more: Seq<Reply>) -> bool {
    if waits(from) {
        let n = from.0.asked.len();
        &&& from.0.asked.is_prefix_of(to.0.asked)
        &&& if more.len() > 0 && answers(more[0], from.1->Ask_0) {
            to.0.asked.len() > n && to.0.asked[n as int] == from.1->Ask_0
        } else {
            to == (with_more(from.0, more), from.1)
        }
    } else {
        to == (with_more(from.0, more), from.1)
    }
}

pub proof fn lemma_asked_trans(a: State, b: State, c: State)
    requires
        a.asked.is_prefix_of(b.asked),
        b.asked.is_prefix_of(c.asked),
    ensures
        a.asked.is_prefix_of(c.asked),
{
    assert(a.asked =~= c.asked.subrange(0, a.asked.len() as int));
}

/// What follows a step does not change how the step resumes.
pub proof fn lemma_resumes_through<T, U>(
    from: (State, Res<T>),
    to: (State, Res<T>),
    end: (State, Res<U>),
    more: Seq<Reply>,
)
    requires
        waits(from),
        resumes(from, to, more),
        to.0.asked.is_prefix_of(end.0.asked),
        to.1 is Ask ==> end == (to.0, to.1.stop::<U>()),
    ensures
        resumes((from.0, from.1.stop::<U>()), end, more),
{
    lemma_asked_trans(from.0, to.0, end.0);
    let n = from.0.asked.len();
    if to.0.asked.len() > n {
        assert(end.0.asked.subrange(0, to.0.asked.len() as int)[n as int] == to.0.asked[n as int]);
    }
}

/// The next reply stays the next one.
pub proof fn lemma_more(st: State, query: QueryView, more: Seq<Reply>)
    requires
        st.pending.len() > 0,
    ensures
        with_more(st, more).reply() == st.reply(),
        with_more(st, more).answered(query) == with_more(st.answered(query), more),
{
    assert((st.pending + more).drop_first() =~= st.pending.drop_first() + more);
}

pub proof fn lemma_asked(st: State, query: QueryView)
    ensures
        st.asked.is_prefix_of(st.answered(query).asked),
        st.answered(query).asked[st.asked.len() as int] == query,
{
    assert(st.asked =~= st.asked.push(query).subrange(0, st.asked.len() as int));
}

/// A query that was put stays where it was put.
proof fn lemma_asked_at(st: State, end: State, query: QueryView)
    requires
        st.answered(query).asked.is_prefix_of(end.asked),
    ensures
        end.asked.len() > st.asked.len(),
        end.asked[st.asked.len() as int] == query,
{
    let asked = st.answered(query).asked;
    assert(end.asked.subrange(0, asked.len() as int)[st.asked.len() as int] == query);
}

pub proof fn lemma_same(st: State)
    ensures
        st.asked.is_prefix_of(st.asked),
{
    assert(st.asked =~= st.asked.subrange(0, st.asked.len() as int));
}

pub proof fn resume_ask_done(st: State, query: QueryView, more: Seq<Reply>)
    requires
        forall|reply: Reply| #[trigger] answers(reply, query) <==> reply is Done,
    ensures
        resumes(ask_done(st, query), ask_done(with_more(st, more), query), more),
{
    lemma_same(st);
    lemma_asked(with_more(st, more), query);
    if st.pending.len() > 0 {
        lemma_more(st, query, more);
    }
}

proof fn resume_ask_callee(st: State, query: QueryView, more: Seq<Reply>)
    requires
        forall|reply: Reply| #[trigger] answers(reply, query) <==> reply is CalleeT,
    ensures
        resumes(ask_callee(st, query), ask_callee(with_more(st, more), query), more),
{
    lemma_same(st);
    lemma_asked(with_more(st, more), query);
    if st.pending.len() > 0 {
        lemma_more(st, query, more);
    }
}

proof fn resume_grow(st: State, name: Seq<char>, kind: ContextKind, more: Seq<Reply>)
    ensures
        resumes(grow(st, name, kind), grow(with_more(st, more), name, kind), more),
{
    let query = QueryView::Grow { name, kind, vis: Visibility::Private };
    lemma_same(st);
    lemma_asked(with_more(st, more), query);
    if st.pending.len() > 0 {
        lemma_more(st, query, more);
    }
}

proof fn lemma_pop_asked(st: State)
    ensures
        st.asked.is_prefix_of(pop_append_errs(st).0.asked),
{
    lemma_same(st);
    lemma_asked(st, QueryView::Pop);
}

proof fn resume_pop(st: State, more: Seq<Reply>)
    ensures
        resumes(pop_append_errs(st), pop_append_errs(with_more(st, more)), more),
{
    lemma_same(st);
    lemma_asked(with_more(st, more), QueryView::Pop);
    if st.pending.len() > 0 {
        lemma_more(st, QueryView::Pop, more);
    }
}

/// Leaving a scope after what was done in it resumes as that does.
proof fn resume_leave<T, U>(
    from: (State, Res<T>),
    to: (State, Res<T>),
    made: U,
    more: Seq<Reply>,
)
    requires
        resumes(from, to, more),
    ensures
        !(from.1 is Val) ==> resumes(
            leave_failing::<T, U>(from.0, from.1),
            if to.1 is Val {
                let (st, popped) = pop_append_errs(to.0);
                match popped {
                    Res::Val(_) => (st, Res::Val(made)),
                    _ => (st, popped.stop()),
                }
            } else {
                leave_failing::<T, U>(to.0, to.1)
            },
            more,
        ),
{
    lemma_same(to.0);
    lemma_pop_asked(to.0);
    match from.1 {
        Res::Val(_) => {},
        Res::Fail(_) => {
            resume_pop(from.0, more);
        },
        _ => {
            let end = if to.1 is Val {
                let (st, popped) = pop_append_errs(to.0);
                match popped {
                    Res::Val(_) => (st, Res::Val(made)),
                    _ => (st, popped.stop()),
                }
            } else {
                leave_failing::<T, U>(to.0, to.1)
            };
            if waits(from) {
                lemma_resumes_through::<T, U>(from, to, end, more);
            }
        },
    }
}

proof fn resume_return_t_check(
    st: State,
    loc: Location,
    name: Seq<char>,
    expect: TyView,
    found: TyView,
    more: Seq<Reply>,
)
    ensures
        resumes(
            return_t_check(st, loc, name, expect, found),
            return_t_check(with_more(st, more), loc, name, expect, found),
            more,
        ),
{
    let query = QueryView::Unify { expect, found, loc };
    let to = with_more(st, more);
    lemma_same(st);
    lemma_asked(to, query);
    lemma_asked(to.answered(query), QueryView::CausedBy);
    if st.pending.len() > 0 {
        lemma_more(st, query, more);
        let st1 = st.answered(query);
        lemma_same(st1);
        lemma_asked(st1, QueryView::CausedBy);
        if st1.pending.len() > 0 {
            lemma_more(st1, QueryView::CausedBy, more);
        }
    } else {
        lemma_asked_trans(st, to.answered(query), to.answered(query).answered(QueryView::CausedBy));
    }
}

proof fn resume_check_body_t(
    st: State,
    loc: Location,
    name: Seq<char>,
    expect: Option<TyView>,
    found: TyView,
    more: Seq<Reply>,
)
    ensures
        resumes(
            check_body_t(st, loc, name, expect, found),
            check_body_t(with_more(st, more), loc, name, expect, found),
            more,
        ),
{
    match expect {
        Some(expect) => {
            resume_return_t_check(st, loc, name, expect, found, more);
            let from = return_t_check(st, loc, name, expect, found);
            let to = return_t_check(with_more(st, more), loc, name, expect, found);
            lemma_same(to.0);
        },
        None => {},
    }
}

proof fn resume_import(st: State, pat: VarPattern, block: Seq<ExprView>, more: Seq<Reply>)
    ensures
        resumes(import(st, pat, block), import(with_more(st, more), pat, block), more),
{
    match (block[0], pat) {
        (ExprView::Call(call), VarPattern::VarName(name)) => {
            resume_ask_done(st, QueryView::ImportMod { name, path: call.pos_args[0] }, more);
        },
        _ => {},
    }
}

pub proof fn resume_expr(st: State, expr: Expr, check: bool, more: Seq<Reply>)
    ensures
        resumes(lower_expr(st, expr, check), lower_expr(with_more(st, more), expr, check), more),
    decreases expr,
{
    match expr {
        Expr::Lit(_) => {},
        Expr::Accessor(acc) => resume_acc(st, acc, check, more),
        Expr::Array(array) => resume_array(st, array, check, more),
        Expr::BinOp(bin) => resume_bin(st, bin, more),
        Expr::UnaryOp(unary) => resume_unary(st, unary, more),
        Expr::Call(call) => resume_call(st, call, more),
        Expr::Lambda(lambda) => resume_lambda(st, lambda, more),
        Expr::Def(def) => resume_def(st, def, more),
        Expr::Dict(_) => {},
        Expr::Decl(_) => {},
    }
}

proof fn resume_pos_args(
    st: State,
    done: Seq<ExprView>,
    args: Seq<PosArg>,
    check: bool,
    more: Seq<Reply>,
)
    ensures
        resumes(
            lower_pos_args(st, done, args, check),
            lower_pos_args(with_more(st, more), done, args, check),
            more,
        ),
    decreases args,
{
    if args.len() > 0 {
        let rest = args.drop_first();
        resume_expr(st, args[0].expr, check, more);
        let from = lower_expr(st, args[0].expr, check);
        let to = lower_expr(with_more(st, more), args[0].expr, check);
        let end = lower_pos_args(with_more(st, more), done, args, check);
        match from.1 {
            Res::Val(h) => resume_pos_args(from.0, done.push(h), rest, check, more),
            _ => {
                lemma_same(to.0);
                match to.1 {
                    Res::Val(h) => lemma_pos_args(to.0, done.push(h), rest, check),
                    _ => {},
                }
                if waits(from) {
                    lemma_resumes_through(from, to, end, more);
                }
            },
        }
    }
}

proof fn resume_kw_args(st: State, done: Seq<KwArgView>, args: Seq<KwArg>, more: Seq<Reply>)
    ensures
        resumes(
            lower_kw_args(st, done, args),
            lower_kw_args(with_more(st, more), done, args),
            more,
        ),
    decreases args,
{
    if args.len() > 0 {
        let rest = args.drop_first();
        resume_expr(st, args[0].expr, true, more);
        let from = lower_expr(st, args[0].expr, true);
        let to = lower_expr(with_more(st, more), args[0].expr, true);
        let end = lower_kw_args(with_more(st, more), done, args);
        match from.1 {
            Res::Val(h) => {
                let kw = KwArgView { keyword: args[0].keyword, expr: h };
                resume_kw_args(from.0, done.push(kw), rest, more);
            },
            _ => {
                lemma_same(to.0);
                match to.1 {
                    Res::Val(h) => {
                        let kw = KwArgView { keyword: args[0].keyword, expr: h };
                        lemma_kw_args(to.0, done.push(kw), rest);
                    },
                    _ => {},
                }
                if waits(from) {
                    lemma_resumes_through(from, to, end, more);
                }
            },
        }
    }
}

proof fn resume_exprs(st: State, done: Seq<ExprView>, exprs: Seq<Expr>, more: Seq<Reply>)
    ensures
        resumes(
            lower_exprs(st, done, exprs),
            lower_exprs(with_more(st, more), done, exprs),
            more,
        ),
    decreases exprs,
{
    if exprs.len() > 0 {
        let rest = exprs.drop_first();
        resume_expr(st, exprs[0], true, more);
        let from = lower_expr(st, exprs[0], true);
        let to = lower_expr(with_more(st, more), exprs[0], true);
        let end = lower_exprs(with_more(st, more), done, exprs);
        match from.1 {
            Res::Val(h) => resume_exprs(from.0, done.push(h), rest, more),
            _ => {
                lemma_same(to.0);
                match to.1 {
                    Res::Val(h) => lemma_exprs(to.0, done.push(h), rest),
                    _ => {},
                }
                if waits(from) {
                    lemma_resumes_through(from, to, end, more);
                }
            },
        }
    }
}

proof fn resume_array(st: State, array: Array, check: bool, more: Seq<Reply>)
    ensures
        resumes(
            lower_array(st, array, check),
            lower_array(with_more(st, more), array, check),
            more,
        ),
    decreases array,
{
    let args = array.elems.pos_args@;
    let query = QueryView::ArrayT { level: st.scopes.last().level };
    let to = with_more(st, more);
    lemma_same(st);
    if st.pending.len() > 0 {
        lemma_more(st, query, more);
        resume_pos_args(st.answered(query), Seq::empty(), args, check, more);
    } else {
        lemma_asked(to, query);
        lemma_pos_args(to.answered(query), Seq::empty(), args, check);
        let end = lower_pos_args(to.answered(query), Seq::empty(), args, check).0;
        lemma_asked_trans(st, to.answered(query), end);
        lemma_asked_at(to, end, query);
    }
}

proof fn resume_acc(st: State, acc: Accessor, check: bool, more: Seq<Reply>)
    ensures
        resumes(lower_acc(st, acc, check), lower_acc(with_more(st, more), acc, check), more),
    decreases acc,
{
    match acc {
        Accessor::Local(n) => {
            let var_t = QueryView::VarT { symbol: n.symbol, namespace: st.name() };
            let uniq_name = QueryView::UniqObjName { symbol: n.symbol };
            let to = with_more(st, more);
            lemma_same(st);
            lemma_asked(to, var_t);
            lemma_asked(to.answered(var_t), uniq_name);
            if st.pending.len() > 0 {
                lemma_more(st, var_t, more);
                let st1 = st.answered(var_t);
                lemma_same(st1);
                lemma_asked(st1, uniq_name);
                if st1.pending.len() > 0 {
                    lemma_more(st1, uniq_name, more);
                }
            } else {
                lemma_asked_trans(st, to.answered(var_t), to.answered(var_t).answered(uniq_name));
            }
        },
        Accessor::Attr(a) => {
            resume_expr(st, *a.obj, true, more);
            let from = lower_expr(st, *a.obj, true);
            let to = lower_expr(with_more(st, more), *a.obj, true);
            let end = lower_acc(with_more(st, more), acc, check);
            match from.1 {
                Res::Val(obj) => {
                    let query = QueryView::AttrT {
                        obj,
                        name: a.name.symbol,
                        namespace: from.0.name(),
                    };
                    lemma_same(from.0);
                    lemma_asked(to.0, query);
                    if from.0.pending.len() > 0 {
                        lemma_more(from.0, query, more);
                    }
                },
                _ => {
                    lemma_same(to.0);
                    match to.1 {
                        Res::Val(obj) => lemma_asked(
                            to.0,
                            QueryView::AttrT {
                                obj,
                                name: a.name.symbol,
                                namespace: to.0.name(),
                            },
                        ),
                        _ => {},
                    }
                    if waits(from) {
                        lemma_resumes_through(from, to, end, more);
                    }
                },
            }
        },
        _ => {},
    }
}

proof fn resume_bin(st: State, bin: BinOp, more: Seq<Reply>)
    ensures
        resumes(lower_bin(st, bin), lower_bin(with_more(st, more), bin), more),
    decreases bin,
{
    let to1 = lower_expr(with_more(st, more), *bin.lhs, true);
    let end = lower_bin(with_more(st, more), bin);
    lemma_same(to1.0);
    match to1.1 {
        Res::Val(lhs) => {
            let to2 = lower_expr(to1.0, *bin.rhs, true);
            lemma_expr(to1.0, *bin.rhs, true);
            lemma_same(to2.0);
            match to2.1 {
                Res::Val(rhs) => {
                    let query = QueryView::BinOpT { op: bin.op, lhs, rhs, namespace: to2.0.name() };
                    lemma_ask_callee(to2.0, query);
                    lemma_asked_trans(to1.0, to2.0, end.0);
                },
                _ => {},
            }
        },
        _ => {},
    }
    resume_expr(st, *bin.lhs, true, more);
    let from1 = lower_expr(st, *bin.lhs, true);
    match from1.1 {
        Res::Val(lhs) => {
            resume_expr(from1.0, *bin.rhs, true, more);
            let from2 = lower_expr(from1.0, *bin.rhs, true);
            let to2 = lower_expr(to1.0, *bin.rhs, true);
            match from2.1 {
                Res::Val(rhs) => resume_ask_callee(
                    from2.0,
                    QueryView::BinOpT { op: bin.op, lhs, rhs, namespace: from2.0.name() },
                    more,
                ),
                _ => if waits(from2) {
                    lemma_resumes_through(from2, to2, end, more);
                },
            }
        },
        _ => if waits(from1) {
            lemma_resumes_through(from1, to1, end, more);
        },
    }
}

proof fn resume_unary(st: State, unary: UnaryOp, more: Seq<Reply>)
    ensures
        resumes(lower_unary(st, unary), lower_unary(with_more(st, more), unary), more),
    decreases unary,
{
    let from = lower_expr(st, *unary.expr, true);
    let to = lower_expr(with_more(st, more), *unary.expr, true);
    let end = lower_unary(with_more(st, more), unary);
    lemma_same(to.0);
    match to.1 {
        Res::Val(expr) => lemma_ask_callee(
            to.0,
            QueryView::UnaryOpT { op: unary.op, expr, namespace: to.0.name() },
        ),
        _ => {},
    }
    resume_expr(st, *unary.expr, true, more);
    match from.1 {
        Res::Val(expr) => resume_ask_callee(
            from.0,
            QueryView::UnaryOpT { op: unary.op, expr, namespace: from.0.name() },
            more,
        ),
        _ => if waits(from) {
            lemma_resumes_through(from, to, end, more);
        },
    }
}

proof fn resume_call(st: State, call: Call, more: Seq<Reply>)
    ensures
        resumes(lower_call(st, call), lower_call(with_more(st, more), call), more),
    decreases call,
{
    let end = lower_call(with_more(st, more), call);
    let to1 = lower_pos_args(with_more(st, more), Seq::empty(), call.args.pos_args@, true);
    let to2 = lower_kw_args(to1.0, Seq::empty(), call.args.kw_args@);
    let to3 = lower_expr(to2.0, *call.obj, false);
    lemma_same(to1.0);
    lemma_same(to2.0);
    lemma_same(to3.0);
    lemma_kw_args(to1.0, Seq::empty(), call.args.kw_args@);
    lemma_expr(to2.0, *call.obj, false);
    lemma_asked_trans(to1.0, to2.0, to3.0);
    match (to1.1, to2.1, to3.1) {
        (Res::Val(pos_args), Res::Val(kw_args), Res::Val(obj)) => {
            let query = QueryView::CallT { obj, pos_args, kw_args, namespace: to3.0.name() };
            lemma_ask_callee(to3.0, query);
            lemma_asked_trans(to2.0, to3.0, end.0);
            lemma_asked_trans(to1.0, to3.0, end.0);
        },
        _ => {},
    }
    resume_pos_args(st, Seq::empty(), call.args.pos_args@, true, more);
    let from1 = lower_pos_args(st, Seq::empty(), call.args.pos_args@, true);
    match from1.1 {
        Res::Val(pos_args) => {
            resume_kw_args(from1.0, Seq::empty(), call.args.kw_args@, more);
            let from2 = lower_kw_args(from1.0, Seq::empty(), call.args.kw_args@);
            match from2.1 {
                Res::Val(kw_args) => {
                    resume_expr(from2.0, *call.obj, false, more);
                    let from3 = lower_expr(from2.0, *call.obj, false);
                    match from3.1 {
                        Res::Val(obj) => resume_ask_callee(
                            from3.0,
                            QueryView::CallT {
                                obj,
                                pos_args,
                                kw_args,
                                namespace: from3.0.name(),
                            },
                            more,
                        ),
                        _ => if waits(from3) {
                            lemma_resumes_through(from3, to3, end, more);
                        },
                    }
                },
                _ => if waits(from2) {
                    lemma_resumes_through(from2, to2, end, more);
                },
            }
        },
        _ => if waits(from1) {
            lemma_resumes_through(from1, to1, end, more);
        },
    }
}

#[verifier::spinoff_prover]
#[verifier::rlimit(50)]
proof fn resume_in_lambda(st: State, lambda: Lambda, more: Seq<Reply>)
    ensures
        resumes(lower_in_lambda(st, lambda), lower_in_lambda(with_more(st, more), lambda), more),
    decreases lambda.body,
{
    let assign = QueryView::AssignParams { params: lambda.sig@.params };
    let register = QueryView::Preregister { block: lambda.body };
    let bounds = QueryView::InstantiateTyBounds {
        bounds: lambda.sig@.bounds,
        mode: RegistrationMode::Normal,
    };
    let exprs = lambda.body.exprs@;
    let end = lower_in_lambda(with_more(st, more), lambda);
    let to1 = ask_done(with_more(st, more), assign);
    let to2 = ask_done(to1.0, register);
    let to3 = lower_exprs(to2.0, Seq::empty(), exprs);
    lemma_ask_done(to1.0, register);
    lemma_exprs(to2.0, Seq::empty(), exprs);
    lemma_same(to1.0);
    lemma_same(to2.0);
    lemma_same(to3.0);
    lemma_asked(to3.0, QueryView::ScopeParams);
    lemma_asked(to3.0.answered(QueryView::ScopeParams), bounds);
    lemma_asked_trans(
        to3.0,
        to3.0.answered(QueryView::ScopeParams),
        to3.0.answered(QueryView::ScopeParams).answered(bounds),
    );
    lemma_asked_trans(to1.0, to2.0, to3.0);
    if to1.1 is Val && to2.1 is Val {
        assert(to3.0.asked.is_prefix_of(end.0.asked));
        lemma_asked_trans(to2.0, to3.0, end.0);
        lemma_asked_trans(to1.0, to3.0, end.0);
    }
    resume_ask_done(st, assign, more);
    let from1 = ask_done(st, assign);
    match from1.1 {
        Res::Val(_) => {
            resume_ask_done(from1.0, register, more);
            let from2 = ask_done(from1.0, register);
            match from2.1 {
                Res::Val(_) => {
                    resume_exprs(from2.0, Seq::empty(), exprs, more);
                    let from3 = lower_exprs(from2.0, Seq::empty(), exprs);
                    match from3.1 {
                        Res::Val(_) => {
                            lemma_same(from3.0);
                            if from3.0.pending.len() > 0 {
                                lemma_more(from3.0, QueryView::ScopeParams, more);
                                let st4 = from3.0.answered(QueryView::ScopeParams);
                                lemma_same(st4);
                                if st4.pending.len() > 0 {
                                    lemma_more(st4, bounds, more);
                                }
                            }
                        },
                        _ => if waits(from3) {
                            lemma_resumes_through(from3, to3, end, more);
                        },
                    }
                },
                _ => if waits(from2) {
                    lemma_resumes_through(from2, to2, end, more);
                },
            }
        },
        _ => if waits(from1) {
            lemma_resumes_through(from1, to1, end, more);
        },
    }
}

proof fn resume_lambda(st: State, lambda: Lambda, more: Seq<Reply>)
    ensures
        resumes(lower_lambda(st, lambda), lower_lambda(with_more(st, more), lambda), more),
    decreases lambda,
{
    let procedural = lambda.op.kind == TokenKind::ProcArrow;
    let kind = if procedural {
        ContextKind::Proc
    } else {
        ContextKind::Func
    };
    let name = lambda_name(lambda.sig@.id);
    let end = lower_lambda(with_more(st, more), lambda);
    let to1 = grow(with_more(st, more), name, kind);
    let to2 = lower_in_lambda(to1.0, lambda);
    lemma_in_lambda(to1.0, lambda);
    lemma_same(to1.0);
    lemma_same(to2.0);
    lemma_pop_asked(to2.0);
    let made = match to2.1 {
        Res::Val((body, params, bounds)) => LambdaView {
            id: lambda.sig@.id,
            params: lambda.sig@.params,
            op: lambda.op,
            body,
            t: lambda_t(procedural, params, block_t(body), bounds),
        },
        _ => arbitrary(),
    };
    if to1.1 is Val {
        assert(to2.0.asked.is_prefix_of(end.0.asked));
        lemma_asked_trans(to1.0, to2.0, end.0);
    }
    resume_grow(st, name, kind, more);
    let from1 = grow(st, name, kind);
    match from1.1 {
        Res::Val(_) => {
            resume_in_lambda(from1.0, lambda, more);
            let from2 = lower_in_lambda(from1.0, lambda);
            match from2.1 {
                Res::Val(_) => resume_pop(from2.0, more),
                _ => resume_leave(from2, to2, made, more),
            }
        },
        _ => if waits(from1) {
            lemma_resumes_through(from1, to1, end, more);
        },
    }
}

proof fn resume_def(st: State, def: Def, more: Seq<Reply>)
    ensures
        resumes(lower_def(st, def), lower_def(with_more(st, more), def), more),
    decreases def,
{
    if def.sig.name_token() is Some {
        let name = def.sig.name_token().unwrap().content@;
        let end = lower_def(with_more(st, more), def);
        let to1 = grow(with_more(st, more), name, ContextKind::Instant);
        let to2 = match def.sig {
            Signature::Subr(sig) => lower_subr_def(to1.0, sig, def.body),
            Signature::Var(sig) => lower_var_def(to1.0, sig, def.body),
        };
        match def.sig {
            Signature::Subr(sig) => lemma_subr_def(to1.0, sig, def.body),
            Signature::Var(sig) => lemma_var_def(to1.0, sig, def.body),
        }
        lemma_same(to1.0);
        lemma_same(to2.0);
        lemma_pop_asked(to2.0);
        let made: DefView = match to2.1 {
            Res::Val(h) => h,
            _ => arbitrary(),
        };
        if to1.1 is Val {
            assert(to2.0.asked.is_prefix_of(end.0.asked));
            lemma_asked_trans(to1.0, to2.0, end.0);
        }
        resume_grow(st, name, ContextKind::Instant, more);
        let from1 = grow(st, name, ContextKind::Instant);
        match from1.1 {
            Res::Val(_) => {
                let from2 = match def.sig {
                    Signature::Subr(sig) => lower_subr_def(from1.0, sig, def.body),
                    Signature::Var(sig) => lower_var_def(from1.0, sig, def.body),
                };
                match def.sig {
                    Signature::Subr(sig) => resume_subr_def(from1.0, sig, def.body, more),
                    Signature::Var(sig) => resume_var_def(from1.0, sig, def.body, more),
                }
                match from2.1 {
                    Res::Val(_) => resume_pop(from2.0, more),
                    _ => resume_leave(from2, to2, made, more),
                }
            },
            _ => if waits(from1) {
                lemma_resumes_through(from1, to1, end, more);
            },
        }
    }
}

proof fn resume_block(st: State, block: Block, more: Seq<Reply>)
    ensures
        resumes(lower_block(st, block), lower_block(with_more(st, more), block), more),
    decreases block,
{
    resume_exprs(st, Seq::empty(), block.exprs@, more);
}

proof fn resume_define_var(
    st: State,
    sig: VarSignature,
    body: DefBody,
    block: Seq<ExprView>,
    expect: Option<TyView>,
    more: Seq<Reply>,
)
    ensures
        resumes(
            define_var(st, sig, body, block, expect),
            define_var(with_more(st, more), sig, body, block, expect),
            more,
        ),
{
    let t = block_t(block);
    let name = sig.pat.name_token().unwrap().content@;
    let assign = QueryView::AssignVar { sig, id: body.id, t };
    let end = define_var(with_more(st, more), sig, body, block, expect);
    let to1 = check_body_t(with_more(st, more), sig.place(), name, expect, t);
    let to2 = ask_done(to1.0, assign);
    lemma_same(to1.0);
    lemma_same(to2.0);
    lemma_ask_done(to1.0, assign);
    lemma_import(to2.0, sig.pat, block);
    if to1.1 is Val {
        lemma_asked_trans(to1.0, to2.0, end.0);
    }
    resume_check_body_t(st, sig.place(), name, expect, t, more);
    let from1 = check_body_t(st, sig.place(), name, expect, t);
    match from1.1 {
        Res::Val(_) => {
            resume_ask_done(from1.0, assign, more);
            let from2 = ask_done(from1.0, assign);
            match from2.1 {
                Res::Val(_) => resume_import(from2.0, sig.pat, block, more),
                _ => if waits(from2) {
                    lemma_resumes_through(from2, to2, end, more);
                },
            }
        },
        _ => if waits(from1) {
            lemma_resumes_through(from1, to1, end, more);
        },
    }
}

proof fn resume_var_def(st: State, sig: VarSignature, body: DefBody, more: Seq<Reply>)
    ensures
        resumes(lower_var_def(st, sig, body), lower_var_def(with_more(st, more), sig, body), more),
    decreases body,
{
    let register = QueryView::Preregister { block: body.block };
    let outer = QueryView::OuterVarT { name: sig.pat.name_token().unwrap().content@ };
    let end = lower_var_def(with_more(st, more), sig, body);
    let to1 = ask_done(with_more(st, more), register);
    let to2 = lower_block(to1.0, body.block);
    lemma_same(to1.0);
    lemma_same(to2.0);
    lemma_block(to1.0, body.block);
    lemma_asked(to2.0, outer);
    match (to2.1, to2.0.reply()) {
        (Res::Val(block), Some(Reply::OuterVarT(expect))) => {
            let expect = match expect {
                Some(expect) => Some(expect@),
                None => None,
            };
            let st3 = to2.0.answered(outer);
            lemma_define_var(st3, sig, body, block, expect);
            lemma_asked_trans(to2.0, st3, define_var(st3, sig, body, block, expect).0);
            lemma_asked_at(to2.0, define_var(st3, sig, body, block, expect).0, outer);
        },
        _ => {},
    }
    if to1.1 is Val {
        lemma_asked_trans(to1.0, to2.0, end.0);
    }
    resume_ask_done(st, register, more);
    let from1 = ask_done(st, register);
    match from1.1 {
        Res::Val(_) => {
            resume_block(from1.0, body.block, more);
            let from2 = lower_block(from1.0, body.block);
            match from2.1 {
                Res::Val(block) => {
                    lemma_same(from2.0);
                    if from2.0.pending.len() > 0 {
                        lemma_more(from2.0, outer, more);
                        match from2.0.reply() {
                            Some(Reply::OuterVarT(expect)) => {
                                let expect = match expect {
                                    Some(expect) => Some(expect@),
                                    None => None,
                                };
                                let st3 = from2.0.answered(outer);
                                resume_define_var(st3, sig, body, block, expect, more);
                            },
                            _ => {},
                        }
                    }
                },
                _ => if waits(from2) {
                    lemma_resumes_through(from2, to2, end, more);
                },
            }
        },
        _ => if waits(from1) {
            lemma_resumes_through(from1, to1, end, more);
        },
    }
}

proof fn resume_define_subr(
    st: State,
    sig: SubrSignature,
    body: DefBody,
    block: Seq<ExprView>,
    sig_t: TyView,
    more: Seq<Reply>,
)
    ensures
        resumes(
            define_subr(st, sig, body, block, sig_t),
            define_subr(with_more(st, more), sig, body, block, sig_t),
            more,
        ),
{
    let t = block_t(block);
    let expect = sig_t.return_t();
    let assign = QueryView::AssignSubr { sig, id: body.id, t };
    let end = define_subr(with_more(st, more), sig, body, block, sig_t);
    let to1 = check_body_t(with_more(st, more), sig.place(), sig.name.content@, expect, t);
    lemma_same(to1.0);
    lemma_ask_done(to1.0, assign);
    resume_check_body_t(st, sig.place(), sig.name.content@, expect, t, more);
    let from1 = check_body_t(st, sig.place(), sig.name.content@, expect, t);
    if block_typed(block) && sig_t.return_t() is Some {
        match from1.1 {
            Res::Val(_) => resume_ask_done(from1.0, assign, more),
            _ => if waits(from1) {
                lemma_resumes_through(from1, to1, end, more);
            },
        }
    }
}

/// What is done in the scope of a subroutine once its type is known.
spec fn subr_def_known(st: State, sig: SubrSignature, body: DefBody, sig_t: TyView) -> (
    State,
    Res<DefView>,
) {
    let (st1, r1) = ask_done(st, QueryView::AssignParams { params: sig.params });
    match r1 {
        Res::Val(_) => {
            let (st2, r2) = ask_done(st1, QueryView::Preregister { block: body.block });
            match r2 {
                Res::Val(_) => {
                    let (st3, r3) = lower_block(st2, body.block);
                    match r3 {
                        Res::Val(block) => define_subr(st3, sig, body, block, sig_t),
                        _ => (st3, r3.stop()),
                    }
                },
                _ => (st2, r2.stop()),
            }
        },
        _ => (st1, r1.stop()),
    }
}

proof fn resume_subr_def_known(
    st: State,
    sig: SubrSignature,
    body: DefBody,
    sig_t: TyView,
    more: Seq<Reply>,
)
    ensures
        resumes(
            subr_def_known(st, sig, body, sig_t),
            subr_def_known(with_more(st, more), sig, body, sig_t),
            more,
        ),
        with_more(st, more).asked.is_prefix_of(
            subr_def_known(with_more(st, more), sig, body, sig_t).0.asked,
        ),
    decreases body.block,
{
    let assign = QueryView::AssignParams { params: sig.params };
    let register = QueryView::Preregister { block: body.block };
    let end = subr_def_known(with_more(st, more), sig, body, sig_t);
    let to1 = ask_done(with_more(st, more), assign);
    let to2 = ask_done(to1.0, register);
    let to3 = lower_exprs(to2.0, Seq::empty(), body.block.exprs@);
    lemma_ask_done(with_more(st, more), assign);
    lemma_ask_done(to1.0, register);
    lemma_exprs(to2.0, Seq::empty(), body.block.exprs@);
    lemma_same(to1.0);
    lemma_same(to2.0);
    lemma_same(to3.0);
    match to3.1 {
        Res::Val(block) => lemma_define_subr(to3.0, sig, body, block, sig_t),
        _ => {},
    }
    if to1.1 is Val {
        if to2.1 is Val {
            lemma_asked_trans(to2.0, to3.0, end.0);
        }
        lemma_asked_trans(to1.0, to2.0, end.0);
    }
    lemma_asked_trans(with_more(st, more), to1.0, end.0);
    resume_ask_done(st, assign, more);
    let from1 = ask_done(st, assign);
    match from1.1 {
        Res::Val(_) => {
            resume_ask_done(from1.0, register, more);
            let from2 = ask_done(from1.0, register);
            match from2.1 {
                Res::Val(_) => {
                    resume_exprs(from2.0, Seq::empty(), body.block.exprs@, more);
                    let from3 = lower_exprs(from2.0, Seq::empty(), body.block.exprs@);
                    match from3.1 {
                        Res::Val(block) => resume_define_subr(
                            from3.0,
                            sig,
                            body,
                            block,
                            sig_t,
                            more,
                        ),
                        _ => if waits(from3) {
                            lemma_resumes_through(from3, to3, end, more);
                        },
                    }
                },
                _ => if waits(from2) {
                    lemma_resumes_through(from2, to2, end, more);
                },
            }
        },
        _ => if waits(from1) {
            lemma_resumes_through(from1, to1, end, more);
        },
    }
}

proof fn resume_subr_def(st: State, sig: SubrSignature, body: DefBody, more: Seq<Reply>)
    ensures
        resumes(
            lower_subr_def(st, sig, body),
            lower_subr_def(with_more(st, more), sig, body),
            more,
        ),
    decreases body,
{
    let query = QueryView::OuterSubrT { name: sig.name.content@ };
    let to = with_more(st, more);
    lemma_same(st);
    lemma_asked(to, query);
    match to.reply() {
        Some(Reply::OuterSubrT(sig_t)) => {
            let known = st.answered(query);
            if st.pending.len() > 0 {
                lemma_more(st, query, more);
                resume_subr_def_known(known, sig, body, sig_t@, more);
            } else {
                let rest = to.answered(query);
                assert(with_more(rest, Seq::empty()) == rest) by {
                    assert(rest.pending + Seq::<Reply>::empty() =~= rest.pending);
                }
                resume_subr_def_known(rest, sig, body, sig_t@, Seq::empty());
                lemma_asked_at(to, lower_subr_def(to, sig, body).0, query);
            }
        },
        _ => {
            if st.pending.len() > 0 {
                lemma_more(st, query, more);
            }
        },
    }
}

pub proof fn resume_chunks(
    st: State,
    done: Seq<ExprView>,
    chunks: Seq<Chunk>,
    mode: Seq<char>,
    lang: Language,
    more: Seq<Reply>,
)
    ensures
        resumes(
            lower_chunks(st, done, chunks, mode, lang),
            lower_chunks(with_more(st, more), done, chunks, mode, lang),
            more,
        ),
    decreases chunks.len(),
{
    if chunks.len() > 0 {
        let rest = chunks.drop_first();
        let end = lower_chunks(with_more(st, more), done, chunks, mode, lang);
        let to = lower_expr(with_more(st, more), chunks[0].expr, true);
        lemma_same(to.0);
        match to.1 {
            Res::Val(h) => if mode != "eval"@ && !typed(h) {
            } else if unused(h, mode) {
                let e = unused_error(to.0.name(), chunks[0].loc, lang);
                lemma_chunks(to.0.report(e), done, rest, mode, lang);
            } else {
                lemma_chunks(to.0, done.push(h), rest, mode, lang);
            },
            Res::Fail(e) => lemma_chunks(to.0.report(e), done, rest, mode, lang),
            _ => {},
        }
        resume_expr(st, chunks[0].expr, true, more);
        let from = lower_expr(st, chunks[0].expr, true);
        match from.1 {
            Res::Val(h) => if mode != "eval"@ && !typed(h) {
            } else if unused(h, mode) {
                let e = unused_error(from.0.name(), chunks[0].loc, lang);
                resume_chunks(from.0.report(e), done, rest, mode, lang, more);
            } else {
                resume_chunks(from.0, done.push(h), rest, mode, lang, more);
            },
            Res::Fail(e) => resume_chunks(from.0.report(e), done, rest, mode, lang, more),
            _ => if waits(from) {
                lemma_resumes_through(from, to, end, more);
            },
        }
    }
}
} // verus!
