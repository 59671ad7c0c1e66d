//! What the replies of a run come to: the error that stops it, the errors that are collected on
//! the way, and the scopes that are entered and left.
use vstd::prelude::*;

use crate::ast::{
    Accessor, Array, BinOp, Call, Def, DefBody, Expr, KwArg, Lambda, PosArg, Signature,
    SubrSignature, UnaryOp, VarPattern, VarSignature,
};
use crate::context::{ContextKind, QueryView, RegistrationMode, Reply, State, Visibility};
use crate::error::{Location, LowerErrorView};
use crate::evidence::{
    lemma_reads_answered, lemma_reads_on_refl, lemma_reads_on_trans, reads_on, reply_at,
};
use crate::hir::{block_t, DefView, ExprView, KwArgView, LambdaView};
use crate::proofs::{lemma_grow, lemma_in_lambda, lemma_subr_def, lemma_var_def};
use crate::semantics::{
    ask_callee, ask_done, check_body_t, define_subr, define_var, grow, import, leave_failing,
    lower_acc, lower_array, lower_bin, lower_block, lower_call, lower_def, lower_expr, lower_exprs,
    lower_in_lambda, lower_kw_args, lower_lambda, lower_pos_args, lower_subr_def, lower_unary,
    lower_var_def, pop_append_errs, Res,
};
use crate::text::lambda_name;
use crate::token::TokenKind;
use crate::ty::TyView;

verus! {

/// The error by which the context refuses what it is asked. That two types are not unified, and
/// that a scope is left with errors, refuses nothing.
pub open spec fn refusal(query: QueryView, reply: Reply) -> Option<LowerErrorView> {
    match (query, reply) {
        (QueryView::Unify { .. }, _) => None,
        (QueryView::Pop, _) => None,
        (_, Reply::VarT(Err(e))) => Some(e@),
        (_, Reply::AttrT(Err(e))) => Some(e@),
        (_, Reply::CalleeT(Err(e))) => Some(e@),
        (_, Reply::Grown(Err(e))) => Some(e@),
        (_, Reply::Bounds(Err(e))) => Some(e@),
        (_, Reply::Done(Err(e))) => Some(e@),
        _ => None,
    }
}

/// Whether the context refuses nothing in a run.
pub open spec fn unrefused(from: State, to: State) -> bool {
    forall|i: int|
        from.asked.len() <= i < to.asked.len() ==> refusal(
            #[trigger] to.asked[i],
            reply_at(from, i),
        ) is None
}

/// Whether a run stops at an error by which the context refuses something: it is the first one,
/// and after it scopes are left and nothing else is asked.
pub open spec fn refused(from: State, to: State, e: LowerErrorView) -> bool {
    exists|i: int| #[trigger] refused_at(from, to, e, i)
}

/// Whether a run stops at an error that comes at a point of it.
pub open spec fn refused_at(from: State, to: State, e: LowerErrorView, i: int) -> bool {
    &&& from.asked.len() <= i < to.asked.len()
    &&& refusal(to.asked[i], reply_at(from, i)) == Some(e)
    &&& forall|j: int|
        from.asked.len() <= j < i ==> refusal(#[trigger] to.asked[j], reply_at(from, j)) is None
    &&& forall|j: int| i < j < to.asked.len() ==> #[trigger] to.asked[j] == QueryView::Pop
}

/// Whether what a run comes to is told by what the context refuses: a value if it refuses
/// nothing, and else the error, once the scopes are left.
pub open spec fn decided<T>(from: State, out: (State, Res<T>)) -> bool {
    match out.1 {
        Res::Val(_) => unrefused(from, out.0),
        Res::Fail(e) => refused(from, out.0, e),
        Res::Ask(query) => unrefused(from, out.0) || (query == QueryView::Pop && exists|
            e: LowerErrorView,
        |
            #[trigger] refused(from, out.0, e)),
        Res::Unsupported => unrefused(from, out.0),
    }
}

/// By how many scopes replies lead further in.
pub open spec fn depth(replies: Seq<Reply>) -> int
    decreases replies.len(),
{
    if replies.len() == 0 {
        0
    } else {
        depth(replies.drop_last()) + match replies.last() {
            Reply::Grown(Ok(_)) => 1int,
            Reply::Popped(_) => -1int,
            _ => 0int,
        }
    }
}

/// Whether errors are those that come up in a dialogue, in their order: those that the context has
/// of a scope when it is left, and for each two types that it could not unify a mismatch of them,
/// blamed on what it says.
pub open spec fn collected(
    errs: Seq<LowerErrorView>,
    asked: Seq<QueryView>,
    replies: Seq<Reply>,
) -> bool
    decreases asked.len(),
{
    if asked.len() == 0 {
        errs.len() == 0
    } else {
        match (asked.last(), replies.last()) {
            (QueryView::Pop, Reply::Popped(Err(left))) => {
                &&& errs.len() >= left@.len()
                &&& errs.skip(errs.len() - left@.len()) == left@
                &&& collected(
                    errs.take(errs.len() - left@.len()),
                    asked.drop_last(),
                    replies.drop_last(),
                )
            },
            (QueryView::CausedBy, Reply::CausedBy(by)) => {
                &&& errs.len() > 0
                &&& asked.len() > 1
                &&& asked[asked.len() - 2] matches QueryView::Unify { expect, found, loc } && (
                errs.last() matches LowerErrorView::TypeMismatch {
                    errno,
                    loc: at,
                    caused_by,
                    name: _,
                    expect: wanted,
                    found: got,
                } && errno == 55 && at == loc && caused_by == by@ && wanted == expect && got
                    == found)
                &&& collected(errs.drop_last(), asked.drop_last(), replies.drop_last())
            },
            _ => collected(errs, asked.drop_last(), replies.drop_last()),
        }
    }
}

/// The replies that a run uses.
pub open spec fn used(from: State, to: State) -> Seq<Reply> {
    from.pending.take(to.asked.len() - from.asked.len())
}

/// Whether the errors that a run adds, and the scopes it leads into, are told by the replies.
pub open spec fn accounted(from: State, to: State) -> bool {
    &&& to.scopes.len() - from.scopes.len() == depth(used(from, to))
    &&& collected(
        to.errs.skip(from.errs.len() as int),
        to.asked.skip(from.asked.len() as int),
        used(from, to),
    )
}

/// Whether what comes of a run is told by the replies.
pub open spec fn told<T>(from: State, out: (State, Res<T>)) -> bool {
    &&& accounted(from, out.0)
    &&& decided(from, out)
}

proof fn lemma_depth(a: Seq<Reply>, b: Seq<Reply>)
    ensures
        depth(a + b) == depth(a) + depth(b),
    decreases b.len(),
{
    if b.len() == 0 {
        assert(a + b =~= a);
    } else {
        assert((a + b).drop_last() =~= a + b.drop_last());
        lemma_depth(a, b.drop_last());
    }
}

proof fn lemma_collected(
    errs: Seq<LowerErrorView>,
    asked: Seq<QueryView>,
    replies: Seq<Reply>,
    errs1: Seq<LowerErrorView>,
    asked1: Seq<QueryView>,
    replies1: Seq<Reply>,
)
    requires
        collected(errs, asked, replies),
        collected(errs1, asked1, replies1),
        asked.len() == replies.len(),
        asked1.len() == replies1.len(),
    ensures
        collected(errs + errs1, asked + asked1, replies + replies1),
    decreases asked1.len(),
{
    if asked1.len() == 0 {
        assert(errs + errs1 =~= errs);
        assert(asked + asked1 =~= asked);
        assert(replies + replies1 =~= replies);
    } else {
        let a = asked + asked1;
        let e = errs + errs1;
        assert(a.drop_last() =~= asked + asked1.drop_last());
        assert((replies + replies1).drop_last() =~= replies + replies1.drop_last());
        match (asked1.last(), replies1.last()) {
            (QueryView::Pop, Reply::Popped(Err(left))) => {
                let n = errs1.len() - left@.len();
                assert(e.skip(e.len() - left@.len()) =~= errs1.skip(n));
                assert(e.take(e.len() - left@.len()) =~= errs + errs1.take(n));
                lemma_collected(
                    errs,
                    asked,
                    replies,
                    errs1.take(n),
                    asked1.drop_last(),
                    replies1.drop_last(),
                );
            },
            (QueryView::CausedBy, Reply::CausedBy(_)) => {
                assert(a[a.len() - 2] == asked1[asked1.len() - 2]);
                assert(e.drop_last() =~= errs + errs1.drop_last());
                lemma_collected(
                    errs,
                    asked,
                    replies,
                    errs1.drop_last(),
                    asked1.drop_last(),
                    replies1.drop_last(),
                );
            },
            _ => lemma_collected(
                errs,
                asked,
                replies,
                errs1,
                asked1.drop_last(),
                replies1.drop_last(),
            ),
        }
    }
}

pub proof fn lemma_accounted_trans(st: State, st1: State, st2: State)
    requires
        reads_on(st, st1),
        reads_on(st1, st2),
        accounted(st, st1),
        accounted(st1, st2),
    ensures
        accounted(st, st2),
{
    lemma_reads_on_trans(st, st1, st2);
    assert(used(st, st2) =~= used(st, st1) + used(st1, st2));
    lemma_depth(used(st, st1), used(st1, st2));
    let n = st.errs.len() as int;
    let k = st.asked.len() as int;
    assert(st2.errs.skip(n) =~= st1.errs.skip(n) + st2.errs.skip(st1.errs.len() as int));
    assert(st2.asked.skip(k) =~= st1.asked.skip(k) + st2.asked.skip(st1.asked.len() as int));
    lemma_collected(
        st1.errs.skip(n),
        st1.asked.skip(k),
        used(st, st1),
        st2.errs.skip(st1.errs.len() as int),
        st2.asked.skip(st1.asked.len() as int),
        used(st1, st2),
    );
}

pub proof fn lemma_unrefused_trans(st: State, st1: State, st2: State)
    requires
        reads_on(st, st1),
        reads_on(st1, st2),
        unrefused(st, st1),
        unrefused(st1, st2),
    ensures
        unrefused(st, st2),
{
    assert forall|i: int| st.asked.len() <= i < st2.asked.len() implies refusal(
        #[trigger] st2.asked[i],
        reply_at(st, i),
    ) is None by {
        if i < st1.asked.len() {
            assert(st1.asked[i] == st2.asked[i]);
        } else {
            assert(reply_at(st1, i) == reply_at(st, i));
        }
    }
}

proof fn lemma_refused_later(st: State, st1: State, st2: State, e: LowerErrorView)
    requires
        reads_on(st, st1),
        reads_on(st1, st2),
        unrefused(st, st1),
        refused(st1, st2, e),
    ensures
        refused(st, st2, e),
{
    let i = choose|i: int| refused_at(st1, st2, e, i);
    assert(reply_at(st1, i) == reply_at(st, i));
    assert forall|j: int| st.asked.len() <= j < i implies refusal(
        #[trigger] st2.asked[j],
        reply_at(st, j),
    ) is None by {
        if j < st1.asked.len() {
            assert(st1.asked[j] == st2.asked[j]);
        } else {
            assert(reply_at(st1, j) == reply_at(st, j));
        }
    }
    assert(refused_at(st, st2, e, i));
}

/// What comes after a run that came to a value is told as what comes of both.
proof fn lemma_told_trans<T>(st: State, st1: State, out: (State, Res<T>))
    requires
        reads_on(st, st1),
        reads_on(st1, out.0),
        accounted(st, st1),
        unrefused(st, st1),
        told(st1, out),
    ensures
        told(st, out),
{
    lemma_accounted_trans(st, st1, out.0);
    if unrefused(st1, out.0) {
        lemma_unrefused_trans(st, st1, out.0);
    }
    match out.1 {
        Res::Fail(e) => lemma_refused_later(st, st1, out.0, e),
        Res::Ask(_) => {
            if !unrefused(st1, out.0) {
                let e = choose|e: LowerErrorView| #[trigger] refused(st1, out.0, e);
                lemma_refused_later(st, st1, out.0, e);
            }
        },
        _ => {},
    }
}

/// Where nothing is asked there is nothing to tell.
pub proof fn lemma_nothing(st: State)
    ensures
        accounted(st, st),
        unrefused(st, st),
        reads_on(st, st),
{
    lemma_reads_on_refl(st);
    assert(used(st, st) =~= Seq::empty());
    assert(st.asked.skip(st.asked.len() as int).len() == 0);
    assert(st.errs.skip(st.errs.len() as int).len() == 0);
}

/// A reply that neither enters nor leaves a scope, nor blames a mismatch, adds no error.
pub proof fn lemma_answer(st: State, query: QueryView)
    requires
        st.pending.len() > 0,
        !(st.pending[0] is Popped),
        !(st.pending[0] is CausedBy),
        !(st.pending[0] matches Reply::Grown(Ok(_))),
    ensures
        accounted(st, st.answered(query)),
        reads_on(st, st.answered(query)),
        refusal(query, st.pending[0]) is None ==> unrefused(st, st.answered(query)),
        refusal(query, st.pending[0]) matches Some(e) ==> refused(st, st.answered(query), e),
{
    let st1 = st.answered(query);
    lemma_one(st, query);
    reveal_with_fuel(depth, 2);
    reveal_with_fuel(collected, 2);
    assert(st1.errs.skip(st.errs.len() as int).len() == 0);
    assert(used(st, st1).drop_last().len() == 0);
}

/// The only query and the only reply of a run of one query.
proof fn lemma_one(st: State, query: QueryView)
    requires
        st.pending.len() > 0,
    ensures
        used(st, st.answered(query)) == seq![st.pending[0]],
        st.answered(query).asked.skip(st.asked.len() as int) == seq![query],
        reads_on(st, st.answered(query)),
        refusal(query, st.pending[0]) is None ==> unrefused(st, st.answered(query)),
        refusal(query, st.pending[0]) matches Some(e) ==> refused(st, st.answered(query), e),
{
    let st1 = st.answered(query);
    lemma_reads_on_refl(st);
    lemma_reads_answered(st, st, query);
    assert(used(st, st1) =~= seq![st.pending[0]]);
    assert(st1.asked.skip(st.asked.len() as int) =~= seq![query]);
    assert(st1.asked[st.asked.len() as int] == query);
    match refusal(query, st.pending[0]) {
        Some(e) => assert(refused_at(st, st1, e, st.asked.len() as int)),
        None => {},
    }
}

pub proof fn tells_ask_done(st: State, query: QueryView)
    requires
        query != QueryView::Pop,
        !(query is Unify),
    ensures
        told(st, ask_done(st, query)),
        reads_on(st, ask_done(st, query).0),
{
    lemma_nothing(st);
    if st.pending.len() > 0 && st.pending[0] is Done {
        lemma_answer(st, query);
    }
}

proof fn tells_ask_callee(st: State, query: QueryView)
    requires
        query != QueryView::Pop,
        !(query is Unify),
    ensures
        told(st, ask_callee(st, query)),
        reads_on(st, ask_callee(st, query).0),
{
    lemma_nothing(st);
    if st.pending.len() > 0 && st.pending[0] is CalleeT {
        lemma_answer(st, query);
    }
}

proof fn tells_grow(st: State, name: Seq<char>, kind: ContextKind)
    ensures
        told(st, grow(st, name, kind)),
        reads_on(st, grow(st, name, kind).0),
{
    lemma_nothing(st);
    let query = QueryView::Grow { name, kind, vis: Visibility::Private };
    match st.reply() {
        Some(Reply::Grown(Ok(_))) => {
            let st1 = grow(st, name, kind).0;
            lemma_one(st, query);
            reveal_with_fuel(depth, 2);
            reveal_with_fuel(collected, 2);
            assert(st1.errs.skip(st.errs.len() as int).len() == 0);
            assert(used(st, st1) == seq![st.pending[0]]);
            assert(used(st, st1).drop_last().len() == 0);
            assert(unrefused(st, st1));
        },
        Some(Reply::Grown(Err(_))) => lemma_answer(st, query),
        _ => {},
    }
}

/// Leaving a scope goes with one reply, which refuses nothing.
proof fn lemma_left(st: State)
    requires
        st.scopes.len() > 0,
    ensures
        pop_append_errs(st).1 is Val || pop_append_errs(st) == (
            st,
            Res::<()>::Ask(QueryView::Pop),
        ),
        accounted(st, pop_append_errs(st).0),
        reads_on(st, pop_append_errs(st).0),
        unrefused(st, pop_append_errs(st).0),
        pop_append_errs(st).1 is Val ==> pop_append_errs(st).0.asked == st.asked.push(
            QueryView::Pop,
        ),
{
    lemma_nothing(st);
    if st.pending.len() > 0 && st.pending[0] is Popped {
        let st1 = st.answered(QueryView::Pop);
        let st2 = pop_append_errs(st).0;
        lemma_one(st, QueryView::Pop);
        reveal_with_fuel(depth, 2);
        reveal_with_fuel(collected, 2);
        assert(used(st, st2) == seq![st.pending[0]]);
        assert(used(st, st2).drop_last().len() == 0);
        assert(st.errs =~= st2.errs.subrange(0, st.errs.len() as int));
        let new = st2.errs.skip(st.errs.len() as int);
        match st.pending[0] {
            Reply::Popped(Err(errs)) => {
                assert(new =~= errs@);
                assert(new.skip(0) =~= errs@);
                assert(new.take(0).len() == 0);
            },
            _ => {
                assert(new.len() == 0);
            },
        }
    }
}

/// Leaving a scope after a run that came to a value.
proof fn lemma_left_after(st: State, st1: State)
    requires
        reads_on(st, st1),
        accounted(st, st1),
        unrefused(st, st1),
        st1.scopes.len() > 0,
    ensures
        told(st, pop_append_errs(st1)),
        reads_on(st, pop_append_errs(st1).0),
{
    lemma_left(st1);
    lemma_told_trans(st, st1, pop_append_errs(st1));
    lemma_reads_on_trans(st, st1, pop_append_errs(st1).0);
}

/// Leaving a scope after a run that came to no value.
proof fn lemma_left_failing<T, U>(st: State, st1: State, failed: Res<T>)
    requires
        reads_on(st, st1),
        told(st, (st1, failed)),
        !(failed is Val),
        failed is Fail ==> st1.scopes.len() > 0,
    ensures
        told(st, leave_failing::<T, U>(st1, failed)),
        reads_on(st, leave_failing::<T, U>(st1, failed).0),
{
    match failed {
        Res::Fail(e) => {
            lemma_left(st1);
            let st2 = pop_append_errs(st1).0;
            lemma_reads_on_trans(st, st1, st2);
            lemma_accounted_trans(st, st1, st2);
            let i = choose|i: int| refused_at(st, st1, e, i);
            assert(st2.asked[i] == st1.asked[i]);
            assert forall|j: int| st.asked.len() <= j < i implies refusal(
                #[trigger] st2.asked[j],
                reply_at(st, j),
            ) is None by {
                assert(st1.asked[j] == st2.asked[j]);
            }
            assert forall|j: int| i < j < st2.asked.len() implies #[trigger] st2.asked[j]
                == QueryView::Pop by {
                if j < st1.asked.len() {
                    assert(st1.asked[j] == st2.asked[j]);
                }
            }
            assert(refused_at(st, st2, e, i));
            assert(refused(st, st2, e));
        },
        _ => {},
    }
}

proof fn tells_check_body_t(
    st: State,
    loc: Location,
    name: Seq<char>,
    expect: Option<TyView>,
    found: TyView,
)
    ensures
        told(st, check_body_t(st, loc, name, expect, found)),
        reads_on(st, check_body_t(st, loc, name, expect, found).0),
{
    lemma_nothing(st);
    match expect {
        Some(expect) => {
            let query = QueryView::Unify { expect, found, loc };
            match st.reply() {
                Some(Reply::Done(Ok(_))) => lemma_answer(st, query),
                Some(Reply::Done(Err(_))) => {
                    let st1 = st.answered(query);
                    lemma_answer(st, query);
                    if st1.pending.len() > 0 && st1.pending[0] is CausedBy {
                        let st2 = check_body_t(st, loc, name, Some(expect), found).0;
                        let mid = st1.answered(QueryView::CausedBy);
                        lemma_one(st1, QueryView::CausedBy);
                        lemma_reads_on_refl(st);
                        lemma_reads_answered(st, st, query);
                        lemma_reads_answered(st, st1, QueryView::CausedBy);
                        lemma_unrefused_trans(st, st1, mid);
                        assert(reads_on(st, st2)) by {
                            assert(st.errs =~= st2.errs.subrange(0, st.errs.len() as int));
                        }
                        let new = st2.errs.skip(st.errs.len() as int);
                        assert(used(st, st2) =~= seq![st.pending[0], st1.pending[0]]);
                        assert(st2.asked.skip(st.asked.len() as int) =~= seq![
                            query,
                            QueryView::CausedBy,
                        ]);
                        assert(seq![query, QueryView::CausedBy].drop_last() =~= seq![query]);
                        assert(used(st, st2).drop_last() =~= seq![st.pending[0]]);
                        assert(new =~= seq![st2.errs.last()]);
                        assert(new.drop_last().len() == 0);
                        assert(seq![st.pending[0]].drop_last().len() == 0);
                        reveal_with_fuel(depth, 3);
                        reveal_with_fuel(collected, 3);
                        assert(unrefused(st, st2));
                    }
                },
                _ => {},
            }
        },
        None => {},
    }
}

proof fn tells_import(st: State, pat: VarPattern, block: Seq<ExprView>)
    ensures
        told(st, import(st, pat, block)),
        reads_on(st, import(st, pat, block).0),
{
    lemma_nothing(st);
    match (block[0], pat) {
        (ExprView::Call(call), VarPattern::VarName(name)) => {
            tells_ask_done(st, QueryView::ImportMod { name, path: call.pos_args[0] });
        },
        _ => {},
    }
}

pub proof fn tells_expr(st: State, expr: Expr, check: bool)
    ensures
        told(st, lower_expr(st, expr, check)),
        reads_on(st, lower_expr(st, expr, check).0),
    decreases expr,
{
    lemma_nothing(st);
    match expr {
        Expr::Accessor(acc) => tells_acc(st, acc, check),
        Expr::Array(array) => tells_array(st, array, check),
        Expr::BinOp(bin) => tells_bin(st, bin),
        Expr::UnaryOp(unary) => tells_unary(st, unary),
        Expr::Call(call) => tells_call(st, call),
        Expr::Lambda(lambda) => tells_lambda(st, lambda),
        Expr::Def(def) => tells_def(st, def),
        _ => {},
    }
}

proof fn tells_acc(st: State, acc: Accessor, check: bool)
    ensures
        told(st, lower_acc(st, acc, check)),
        reads_on(st, lower_acc(st, acc, check).0),
    decreases acc,
{
    lemma_nothing(st);
    match acc {
        Accessor::Local(n) => {
            if check && st.pending.len() > 0 && st.pending[0] is VarT {
                let var_t = QueryView::VarT { symbol: n.symbol, namespace: st.name() };
                let uniq_name = QueryView::UniqObjName { symbol: n.symbol };
                let st1 = st.answered(var_t);
                lemma_answer(st, var_t);
                lemma_nothing(st1);
                if st1.pending.len() > 0 && st1.pending[0] is UniqObjName {
                    lemma_answer(st1, uniq_name);
                    lemma_reads_on_trans(st, st1, st1.answered(uniq_name));
                }
                if st.pending[0] matches Reply::VarT(Ok(_)) {
                    lemma_told_trans(st, st1, lower_acc(st, acc, check));
                }
            }
        },
        Accessor::Attr(a) => {
            tells_expr(st, *a.obj, true);
            let (st1, r) = lower_expr(st, *a.obj, true);
            lemma_nothing(st1);
            match r {
                Res::Val(obj) => {
                    if check && st1.pending.len() > 0 && st1.pending[0] is AttrT {
                        let query = QueryView::AttrT {
                            obj,
                            name: a.name.symbol,
                            namespace: st1.name(),
                        };
                        lemma_answer(st1, query);
                        lemma_reads_on_trans(st, st1, st1.answered(query));
                    }
                    lemma_told_trans(st, st1, lower_acc(st, acc, check));
                },
                _ => {},
            }
        },
        _ => {},
    }
}

proof fn tells_pos_args(st: State, done: Seq<ExprView>, args: Seq<PosArg>, check: bool)
    ensures
        told(st, lower_pos_args(st, done, args, check)),
        reads_on(st, lower_pos_args(st, done, args, check).0),
    decreases args,
{
    lemma_nothing(st);
    if args.len() > 0 {
        tells_expr(st, args[0].expr, check);
        let (st1, r) = lower_expr(st, args[0].expr, check);
        match r {
            Res::Val(h) => {
                tells_pos_args(st1, done.push(h), args.drop_first(), check);
                let out = lower_pos_args(st1, done.push(h), args.drop_first(), check);
                lemma_told_trans(st, st1, out);
                lemma_reads_on_trans(st, st1, out.0);
            },
            _ => {},
        }
    }
}

proof fn tells_kw_args(st: State, done: Seq<KwArgView>, args: Seq<KwArg>)
    ensures
        told(st, lower_kw_args(st, done, args)),
        reads_on(st, lower_kw_args(st, done, args).0),
    decreases args,
{
    lemma_nothing(st);
    if args.len() > 0 {
        tells_expr(st, args[0].expr, true);
        let (st1, r) = lower_expr(st, args[0].expr, true);
        match r {
            Res::Val(h) => {
                let kw = KwArgView { keyword: args[0].keyword, expr: h };
                tells_kw_args(st1, done.push(kw), args.drop_first());
                let out = lower_kw_args(st1, done.push(kw), args.drop_first());
                lemma_told_trans(st, st1, out);
                lemma_reads_on_trans(st, st1, out.0);
            },
            _ => {},
        }
    }
}

proof fn tells_exprs(st: State, done: Seq<ExprView>, exprs: Seq<Expr>)
    ensures
        told(st, lower_exprs(st, done, exprs)),
        reads_on(st, lower_exprs(st, done, exprs).0),
    decreases exprs,
{
    lemma_nothing(st);
    if exprs.len() > 0 {
        tells_expr(st, exprs[0], true);
        let (st1, r) = lower_expr(st, exprs[0], true);
        match r {
            Res::Val(h) => {
                tells_exprs(st1, done.push(h), exprs.drop_first());
                let out = lower_exprs(st1, done.push(h), exprs.drop_first());
                lemma_told_trans(st, st1, out);
                lemma_reads_on_trans(st, st1, out.0);
            },
            _ => {},
        }
    }
}

proof fn tells_array(st: State, array: Array, check: bool)
    ensures
        told(st, lower_array(st, array, check)),
        reads_on(st, lower_array(st, array, check).0),
    decreases array,
{
    let args = array.elems.pos_args@;
    let query = QueryView::ArrayT { level: st.scopes.last().level };
    lemma_nothing(st);
    if st.pending.len() > 0 && st.pending[0] is ArrayT {
        lemma_answer(st, query);
        let st1 = st.answered(query);
        tells_pos_args(st1, Seq::empty(), args, check);
        let out = lower_pos_args(st1, Seq::empty(), args, check);
        lemma_told_trans(st, st1, out);
        lemma_reads_on_trans(st, st1, out.0);
    }
}

proof fn tells_bin(st: State, bin: BinOp)
    ensures
        told(st, lower_bin(st, bin)),
        reads_on(st, lower_bin(st, bin).0),
    decreases bin,
{
    tells_expr(st, *bin.lhs, true);
    let (st1, r1) = lower_expr(st, *bin.lhs, true);
    match r1 {
        Res::Val(lhs) => {
            tells_expr(st1, *bin.rhs, true);
            let (st2, r2) = lower_expr(st1, *bin.rhs, true);
            lemma_told_trans(st, st1, (st2, r2));
            lemma_reads_on_trans(st, st1, st2);
            match r2 {
                Res::Val(rhs) => {
                    let query = QueryView::BinOpT { op: bin.op, lhs, rhs, namespace: st2.name() };
                    tells_ask_callee(st2, query);
                    lemma_told_trans(st, st2, ask_callee(st2, query));
                    lemma_reads_on_trans(st, st2, ask_callee(st2, query).0);
                },
                _ => {},
            }
        },
        _ => {},
    }
}

proof fn tells_unary(st: State, unary: UnaryOp)
    ensures
        told(st, lower_unary(st, unary)),
        reads_on(st, lower_unary(st, unary).0),
    decreases unary,
{
    tells_expr(st, *unary.expr, true);
    let (st1, r1) = lower_expr(st, *unary.expr, true);
    match r1 {
        Res::Val(expr) => {
            let query = QueryView::UnaryOpT { op: unary.op, expr, namespace: st1.name() };
            tells_ask_callee(st1, query);
            lemma_told_trans(st, st1, ask_callee(st1, query));
            lemma_reads_on_trans(st, st1, ask_callee(st1, query).0);
        },
        _ => {},
    }
}

proof fn tells_call(st: State, call: Call)
    ensures
        told(st, lower_call(st, call)),
        reads_on(st, lower_call(st, call).0),
    decreases call,
{
    let pos = call.args.pos_args@;
    let kw = call.args.kw_args@;
    tells_pos_args(st, Seq::empty(), pos, true);
    let (st1, r1) = lower_pos_args(st, Seq::empty(), pos, true);
    match r1 {
        Res::Val(pos_args) => {
            tells_kw_args(st1, Seq::empty(), kw);
            let (st2, r2) = lower_kw_args(st1, Seq::empty(), kw);
            lemma_told_trans(st, st1, (st2, r2));
            lemma_reads_on_trans(st, st1, st2);
            match r2 {
                Res::Val(kw_args) => {
                    tells_expr(st2, *call.obj, false);
                    let (st3, r3) = lower_expr(st2, *call.obj, false);
                    lemma_told_trans(st, st2, (st3, r3));
                    lemma_reads_on_trans(st, st2, st3);
                    match r3 {
                        Res::Val(obj) => {
                            let query = QueryView::CallT {
                                obj,
                                pos_args,
                                kw_args,
                                namespace: st3.name(),
                            };
                            tells_ask_callee(st3, query);
                            lemma_told_trans(st, st3, ask_callee(st3, query));
                            lemma_reads_on_trans(st, st3, ask_callee(st3, query).0);
                        },
                        _ => {},
                    }
                },
                _ => {},
            }
        },
        _ => {},
    }
}

proof fn tells_in_lambda(st: State, lambda: Lambda)
    ensures
        told(st, lower_in_lambda(st, lambda)),
        reads_on(st, lower_in_lambda(st, lambda).0),
    decreases lambda.body,
{
    let assign = QueryView::AssignParams { params: lambda.sig@.params };
    let register = QueryView::Preregister { block: lambda.body };
    let exprs = lambda.body.exprs@;
    tells_ask_done(st, assign);
    let (st1, r1) = ask_done(st, assign);
    if r1 is Val {
        tells_ask_done(st1, register);
        let (st2, r2) = ask_done(st1, register);
        lemma_told_trans(st, st1, (st2, r2));
        lemma_reads_on_trans(st, st1, st2);
        if r2 is Val {
            tells_exprs(st2, Seq::empty(), exprs);
            let (st3, r3) = lower_exprs(st2, Seq::empty(), exprs);
            lemma_told_trans(st, st2, (st3, r3));
            lemma_reads_on_trans(st, st2, st3);
            if r3 is Val && st3.pending.len() > 0 && st3.pending[0] is ParamInfos {
                let st4 = st3.answered(QueryView::ScopeParams);
                let query = QueryView::InstantiateTyBounds {
                    bounds: lambda.sig@.bounds,
                    mode: RegistrationMode::Normal,
                };
                lemma_answer(st3, QueryView::ScopeParams);
                lemma_accounted_trans(st, st3, st4);
                lemma_unrefused_trans(st, st3, st4);
                lemma_reads_on_trans(st, st3, st4);
                if st4.pending.len() > 0 && st4.pending[0] is Bounds {
                    lemma_answer(st4, query);
                    lemma_reads_on_trans(st, st4, st4.answered(query));
                    lemma_told_trans(st, st4, lower_in_lambda(st, lambda));
                }
            }
        }
    }
}

proof fn tells_lambda(st: State, lambda: Lambda)
    ensures
        told(st, lower_lambda(st, lambda)),
        reads_on(st, lower_lambda(st, lambda).0),
    decreases lambda,
{
    let kind = if lambda.op.kind == TokenKind::ProcArrow {
        ContextKind::Proc
    } else {
        ContextKind::Func
    };
    let name = lambda_name(lambda.sig@.id);
    tells_grow(st, name, kind);
    lemma_grow(st, name, kind);
    let (st1, r1) = grow(st, name, kind);
    if r1 is Val {
        tells_in_lambda(st1, lambda);
        lemma_in_lambda(st1, lambda);
        let (st2, r2) = lower_in_lambda(st1, lambda);
        lemma_told_trans(st, st1, (st2, r2));
        lemma_reads_on_trans(st, st1, st2);
        match r2 {
            Res::Val(_) => lemma_left_after(st, st2),
            _ => lemma_left_failing::<_, LambdaView>(st, st2, r2),
        }
    }
}

proof fn tells_def(st: State, def: Def)
    ensures
        told(st, lower_def(st, def)),
        reads_on(st, lower_def(st, def).0),
    decreases def,
{
    lemma_nothing(st);
    match def.sig.name_token() {
        Some(name) => {
            tells_grow(st, name.content@, ContextKind::Instant);
            lemma_grow(st, name.content@, ContextKind::Instant);
            let (st1, r1) = grow(st, name.content@, ContextKind::Instant);
            if r1 is Val {
                let (st2, r2) = match def.sig {
                    Signature::Subr(sig) => {
                        tells_subr_def(st1, sig, def.body);
                        lemma_subr_def(st1, sig, def.body);
                        lower_subr_def(st1, sig, def.body)
                    },
                    Signature::Var(sig) => {
                        tells_var_def(st1, sig, def.body);
                        lemma_var_def(st1, sig, def.body);
                        lower_var_def(st1, sig, def.body)
                    },
                };
                lemma_told_trans(st, st1, (st2, r2));
                lemma_reads_on_trans(st, st1, st2);
                match r2 {
                    Res::Val(_) => lemma_left_after(st, st2),
                    _ => lemma_left_failing::<_, DefView>(st, st2, r2),
                }
            }
        },
        None => {},
    }
}

proof fn tells_define_var(
    st: State,
    sig: VarSignature,
    body: DefBody,
    block: Seq<ExprView>,
    expect: Option<TyView>,
)
    ensures
        told(st, define_var(st, sig, body, block, expect)),
        reads_on(st, define_var(st, sig, body, block, expect).0),
{
    let t = block_t(block);
    let name = sig.pat.name_token().unwrap().content@;
    tells_check_body_t(st, sig.place(), name, expect, t);
    let (st1, r1) = check_body_t(st, sig.place(), name, expect, t);
    if r1 is Val {
        let assign = QueryView::AssignVar { sig, id: body.id, t };
        tells_ask_done(st1, assign);
        let (st2, r2) = ask_done(st1, assign);
        lemma_told_trans(st, st1, (st2, r2));
        lemma_reads_on_trans(st, st1, st2);
        if r2 is Val {
            tells_import(st2, sig.pat, block);
            lemma_told_trans(st, st2, import(st2, sig.pat, block));
            lemma_reads_on_trans(st, st2, import(st2, sig.pat, block).0);
        }
    }
}

proof fn tells_var_def(st: State, sig: VarSignature, body: DefBody)
    ensures
        told(st, lower_var_def(st, sig, body)),
        reads_on(st, lower_var_def(st, sig, body).0),
    decreases body,
{
    let register = QueryView::Preregister { block: body.block };
    let query = QueryView::OuterVarT { name: sig.pat.name_token().unwrap().content@ };
    tells_ask_done(st, register);
    let (st1, r1) = ask_done(st, register);
    if r1 is Val {
        tells_exprs(st1, Seq::empty(), body.block.exprs@);
        let (st2, r2) = lower_block(st1, body.block);
        lemma_told_trans(st, st1, (st2, r2));
        lemma_reads_on_trans(st, st1, st2);
        match (r2, st2.reply()) {
            (Res::Val(block), Some(Reply::OuterVarT(expect))) => {
                let expect = match expect {
                    Some(expect) => Some(expect@),
                    None => None,
                };
                let st3 = st2.answered(query);
                lemma_answer(st2, query);
                lemma_accounted_trans(st, st2, st3);
                lemma_unrefused_trans(st, st2, st3);
                lemma_reads_on_trans(st, st2, st3);
                tells_define_var(st3, sig, body, block, expect);
                lemma_told_trans(st, st3, define_var(st3, sig, body, block, expect));
                lemma_reads_on_trans(st, st3, define_var(st3, sig, body, block, expect).0);
            },
            _ => {},
        }
    }
}

proof fn tells_define_subr(
    st: State,
    sig: SubrSignature,
    body: DefBody,
    block: Seq<ExprView>,
    sig_t: TyView,
)
    ensures
        told(st, define_subr(st, sig, body, block, sig_t)),
        reads_on(st, define_subr(st, sig, body, block, sig_t).0),
{
    lemma_nothing(st);
    let t = block_t(block);
    let expect = sig_t.return_t();
    tells_check_body_t(st, sig.place(), sig.name.content@, expect, t);
    let (st1, r1) = check_body_t(st, sig.place(), sig.name.content@, expect, t);
    if r1 is Val {
        let assign = QueryView::AssignSubr { sig, id: body.id, t };
        tells_ask_done(st1, assign);
        lemma_told_trans(st, st1, ask_done(st1, assign));
        lemma_reads_on_trans(st, st1, ask_done(st1, assign).0);
    }
}

proof fn tells_subr_def(st: State, sig: SubrSignature, body: DefBody)
    ensures
        told(st, lower_subr_def(st, sig, body)),
        reads_on(st, lower_subr_def(st, sig, body).0),
    decreases body,
{
    let query = QueryView::OuterSubrT { name: sig.name.content@ };
    let assign = QueryView::AssignParams { params: sig.params };
    let register = QueryView::Preregister { block: body.block };
    lemma_nothing(st);
    match st.reply() {
        Some(Reply::OuterSubrT(sig_t)) => {
            let st0 = st.answered(query);
            lemma_answer(st, query);
            tells_ask_done(st0, assign);
            let (st1, r1) = ask_done(st0, assign);
            lemma_told_trans(st, st0, (st1, r1));
            lemma_reads_on_trans(st, st0, st1);
            if r1 is Val {
                tells_ask_done(st1, register);
                let (st2, r2) = ask_done(st1, register);
                lemma_told_trans(st, st1, (st2, r2));
                lemma_reads_on_trans(st, st1, st2);
                if r2 is Val {
                    tells_exprs(st2, Seq::empty(), body.block.exprs@);
                    let (st3, r3) = lower_block(st2, body.block);
                    lemma_told_trans(st, st2, (st3, r3));
                    lemma_reads_on_trans(st, st2, st3);
                    match r3 {
                        Res::Val(block) => {
                            tells_define_subr(st3, sig, body, block, sig_t@);
                            let out = define_subr(st3, sig, body, block, sig_t@);
                            lemma_told_trans(st, st3, out);
                            lemma_reads_on_trans(st, st3, out.0);
                        },
                        _ => {},
                    }
                }
            }
        },
        _ => {},
    }
}

/// Where no error comes up, no scope is left with one and no mismatch is blamed on anything.
pub proof fn lemma_none_collected(asked: Seq<QueryView>, replies: Seq<Reply>)
    requires
        asked.len() == replies.len(),
        collected(Seq::empty(), asked, replies),
    ensures
        forall|i: int|
            0 <= i < asked.len() ==> {
                &&& #[trigger] asked[i] == QueryView::CausedBy ==> !(replies[i] is CausedBy)
                &&& asked[i] == QueryView::Pop ==> (replies[i] matches Reply::Popped(Err(errs))
                    ==> errs@.len() == 0)
            },
    decreases asked.len(),
{
    if asked.len() > 0 {
        assert(Seq::<LowerErrorView>::empty().take(0) =~= Seq::empty());
        lemma_none_collected(asked.drop_last(), replies.drop_last());
        assert forall|i: int| 0 <= i < asked.len() implies {
            &&& #[trigger] asked[i] == QueryView::CausedBy ==> !(replies[i] is CausedBy)
            &&& asked[i] == QueryView::Pop ==> (replies[i] matches Reply::Popped(Err(errs))
                ==> errs@.len() == 0)
        } by {
            if i < asked.len() - 1 {
                assert(asked.drop_last()[i] == asked[i]);
                assert(replies.drop_last()[i] == replies[i]);
            }
        }
    }
}

} // verus!
