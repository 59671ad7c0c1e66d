//! What holds of lowering as a whole.
use vstd::prelude::*;

use crate::accounts::{
    accounted, lemma_accounted_trans, lemma_answer, lemma_none_collected, lemma_nothing,
    lemma_unrefused_trans, refusal, tells_ask_done, tells_expr, unrefused, used,
};
use crate::ast::{supported, supported_module, Accessor, Chunk, Expr, Local, AST};
use crate::context::{all_callable, answers, module_opening, ParamInfo, QueryView, Reply, State};
use crate::error::{unused_value_desc, unused_value_hint, Language, Location, LowerErrorView};
use crate::evidence::{
    backed, backs_expr, carried_t, lemma_carried_t, lemma_reads_answered, lemma_reads_on,
    lemma_reads_on_refl, lemma_reads_on_trans, reads_on, reply_at,
};
use crate::expr_laws::lemma_backed_supported;
use crate::hir::{expr_t, typed, AccessorView, ExprView, HIRView};
use crate::lower::ASTLowererView;
use crate::proofs::{
    goes_on, lemma_answered, lemma_ask_done, lemma_check_body_t, lemma_chunks, lemma_expr,
    lemma_goes_on_trans, lowered_from, lowered_from_some, replies_fit,
};
use crate::replay::{
    lemma_asked, lemma_asked_trans, lemma_more, lemma_resumes_through, lemma_same, resume_ask_done,
    resume_chunks, waits, with_more,
};
use crate::semantics::{
    ask_done, check_body_t, lower_acc, lower_chunks, lower_expr, lower_exprs, param_tys,
    return_t_check, unused, unused_error, Outcome, Res,
};
use crate::support::{lemma_supported, lemma_supported_module};
use crate::ty::{opt_str_view, ParamTyView, TyView};

verus! {

/// The tree that lowering hands to the context at the end, where it has come that far.
pub open spec fn tree_handed_out(asked: Seq<QueryView>) -> Option<HIRView> {
    if asked.len() > 0 {
        match asked.last() {
            QueryView::DerefToplevel { hir } => Some(hir),
            _ => None,
        }
    } else {
        None
    }
}

/// An expression that is lowered keeps its syntax: types are put to it, and only the keyword
/// elements and the guards of arrays are left out.
pub proof fn syntax_is_kept(st: State, expr: Expr, check: bool)
    ensures
        lower_expr(st, expr, check).1 matches Res::Val(h) ==> lowered_from(h, expr),
{
    lemma_expr(st, expr, check);
}

/// Whether lowering an expression comes to a value or to an error, it ends in the scope it started
/// from. While it waits for a reply, that scope is still entered.
pub proof fn scopes_are_left(st: State, expr: Expr, check: bool)
    ensures
        (lower_expr(st, expr, check).1 is Val || lower_expr(st, expr, check).1 is Fail)
            ==> lower_expr(st, expr, check).0.scopes == st.scopes,
        st.scopes.is_prefix_of(lower_expr(st, expr, check).0.scopes),
{
    lemma_expr(st, expr, check);
}

/// Lowering an expression forgets none of the errors collected before.
pub proof fn errors_are_only_added(st: State, expr: Expr, check: bool)
    ensures
        st.errs.is_prefix_of(lower_expr(st, expr, check).0.errs),
{
    lemma_expr(st, expr, check);
}

/// A name that is called is not looked up by itself: nothing is asked about it, and its type is
/// left open.
pub proof fn callee_is_not_inferred(st: State, name: Local)
    ensures
        lower_expr(st, Expr::Accessor(Accessor::Local(name)), false) == (
            st,
            Res::Val(
                ExprView::Accessor(
                    AccessorView::Local {
                        name: name.symbol,
                        uniq_name: None,
                        t: TyView::ASTOmitted,
                    },
                ),
            ),
        ),
{
    reveal_with_fuel(lower_expr, 2);
    assert(lower_acc(st, Accessor::Local(name), false).0 == st);
}

/// A body whose type is not the expected one stops nothing: the mismatch is collected.
pub proof fn mismatch_stops_nothing(
    st: State,
    loc: Location,
    name: Seq<char>,
    expect: Option<TyView>,
    found: TyView,
)
    ensures
        !(check_body_t(st, loc, name, expect, found).1 is Fail),
        expect matches Some(t) ==> (return_t_check(st, loc, name, t, found).1 matches Res::Fail(e)
            ==> check_body_t(st, loc, name, expect, found).0.errs == st.errs.push(e)),
{
    lemma_check_body_t(st, loc, name, expect, found);
}

/// The parameter types of all parameters, in their order.
pub open spec fn all_param_tys(params: Seq<ParamInfo>) -> Seq<ParamTyView> {
    params.map_values(|p: ParamInfo| ParamTyView { name: opt_str_view(p.name), ty: p.t@ })
}

/// The two lists of parameters of the type of a lambda hold, between them, each parameter of its
/// scope as often as the scope does.
pub proof fn parameters_are_split(params: Seq<ParamInfo>)
    ensures
        param_tys(params, true).to_multiset().add(param_tys(params, false).to_multiset())
            == all_param_tys(params).to_multiset(),
    decreases params.len(),
{
    broadcast use vstd::seq_lib::group_to_multiset_ensures;

    reveal(Seq::filter);
    let with = param_tys(params, true);
    let without = param_tys(params, false);
    let all = all_param_tys(params);
    if params.len() > 0 {
        let rest = params.drop_last();
        let last = params.last();
        let ty = ParamTyView { name: opt_str_view(last.name), ty: last.t@ };
        parameters_are_split(rest);
        assert(all =~= all_param_tys(rest).push(ty));
        if last.has_default {
            assert(with =~= param_tys(rest, true).push(ty));
            assert(without =~= param_tys(rest, false));
        } else {
            assert(with =~= param_tys(rest, true));
            assert(without =~= param_tys(rest, false).push(ty));
        }
    }
    assert(with.to_multiset().add(without.to_multiset()) =~= all.to_multiset());
}

/// What holds whatever a module is lowered to, as far as its expressions have been lowered.
proof fn lemma_lower(l: ASTLowererView, ast: AST, mode: Seq<char>, replies: Seq<Reply>)
    ensures
        ({
            let st = l.start(replies);
            let (st1, r1) = ask_done(
                st,
                QueryView::PreregisterModule { module: ast.module },
            );
            let (st2, r2) = lower_chunks(st1, Seq::empty(), ast.module.chunks@, mode, l.lang);
            &&& goes_on(st, st1)
            &&& st1.scopes == st.scopes
            &&& st1.errs == st.errs
            &&& goes_on(st, st2)
            &&& !(r2 is Fail)
            &&& r2 is Val ==> st2.scopes == st.scopes
            &&& forall|query: QueryView| #![trigger st2.answered(query)]
                st2.pending.len() > 0 && answers(st2.pending[0], query) ==> goes_on(
                    st,
                    st2.answered(query),
                )
        }),
{
    let st = l.start(replies);
    let query = QueryView::PreregisterModule { module: ast.module };
    let (st1, r1) = ask_done(st, query);
    lemma_ask_done(st, query);
    lemma_chunks(st1, Seq::empty(), ast.module.chunks@, mode, l.lang);
    let (st2, r2) = lower_chunks(st1, Seq::empty(), ast.module.chunks@, mode, l.lang);
    lemma_goes_on_trans(st, st1, st2);
    assert forall|query: QueryView| #![trigger st2.answered(query)]
        st2.pending.len() > 0 && answers(st2.pending[0], query) implies goes_on(
        st,
        st2.answered(query),
    ) by {
        lemma_answered(st2, query);
        lemma_goes_on_trans(st, st2, st2.answered(query));
    }
}

/// Replies are used in their order, each by one query to which it is a reply, and what is not used
/// is left.
pub proof fn replies_are_used_in_order(
    l: ASTLowererView,
    ast: AST,
    mode: Seq<char>,
    replies: Seq<Reply>,
)
    ensures
        l.lower(ast, mode, replies).0.asked.len() <= replies.len(),
        l.lower(ast, mode, replies).0.pending == replies.skip(
            l.lower(ast, mode, replies).0.asked.len() as int,
        ),
        forall|i: int|
            0 <= i < l.lower(ast, mode, replies).0.asked.len() ==> answers(
                replies[i],
                #[trigger] l.lower(ast, mode, replies).0.asked[i],
            ),
{
    lemma_lower(l, ast, mode, replies);
    reveal(replies_fit);
}

/// Lowering a module leaves the lowerer in the scopes, and with the language, that it had. So what
/// the context is to be opened with stays the same.
pub proof fn lowerer_keeps_its_scopes(
    l: ASTLowererView,
    ast: AST,
    mode: Seq<char>,
    replies: Seq<Reply>,
)
    ensures
        l.after(l.lower(ast, mode, replies)).scopes == l.scopes,
        l.after(l.lower(ast, mode, replies)).outer == l.outer,
        l.after(l.lower(ast, mode, replies)).lang == l.lang,
        l.after(l.lower(ast, mode, replies)).opening() == l.opening(),
{
    lemma_lower(l, ast, mode, replies);
}

/// While a query is to be answered the lowerer is as it was, and so it is where there is no
/// lowering.
pub proof fn waiting_changes_nothing(
    l: ASTLowererView,
    ast: AST,
    mode: Seq<char>,
    replies: Seq<Reply>,
)
    ensures
        !(l.lower(ast, mode, replies).1 is Done) ==> l.after(l.lower(ast, mode, replies)) == l,
{
}

/// The first thing that is asked is to register the names of the module.
pub proof fn names_are_registered_first(
    l: ASTLowererView,
    ast: AST,
    mode: Seq<char>,
    replies: Seq<Reply>,
)
    ensures
        ({
            let register = QueryView::PreregisterModule { module: ast.module };
            let (st, outcome) = l.lower(ast, mode, replies);
            if st.asked.len() == 0 {
                outcome == Outcome::Ask(register)
            } else {
                st.asked[0] == register
            }
        }),
{
    lemma_lower(l, ast, mode, replies);
    let query = QueryView::PreregisterModule { module: ast.module };
    let (st1, r1) = ask_done(l.start(replies), query);
    if r1 is Val {
        lemma_chunks(st1, Seq::empty(), ast.module.chunks@, mode, l.lang);
        let (st2, _) = lower_chunks(st1, Seq::empty(), ast.module.chunks@, mode, l.lang);
        assert(st1.asked[0] == query);
        assert(st2.asked.take(st1.asked.len() as int)[0] == query);
    }
}

/// A module is lowered only if there is no error, neither from before nor of its own. Then the
/// tree that the context finishes is the whole module, each expression in its place with types
/// put to it, and no value in it goes unused. The result is what the context makes of that tree,
/// with the warnings that there were.
pub proof fn success_is_complete(
    l: ASTLowererView,
    ast: AST,
    mode: Seq<char>,
    replies: Seq<Reply>,
)
    ensures
        l.lower(ast, mode, replies).1 matches Outcome::Done(Ok((hir, warns))) ==> {
            let chunks = ast.module.chunks@;
            let asked = l.lower(ast, mode, replies).0.asked;
            &&& l.errs.len() == 0
            &&& warns == l.warns
            &&& tree_handed_out(asked) matches Some(tree) && {
                &&& tree.name == ast.name@
                &&& tree.module.len() == chunks.len()
                &&& forall|i: int|
                    0 <= i < chunks.len() ==> {
                        &&& lowered_from(tree.module[i], (#[trigger] chunks[i]).expr)
                        &&& !unused(tree.module[i], mode)
                    }
            }
            &&& 0 < asked.len() <= replies.len()
            &&& replies[asked.len() - 1] matches Reply::Derefed(Ok(made)) && made@ == hir
        },
{
    lemma_lower(l, ast, mode, replies);
    let query = QueryView::PreregisterModule { module: ast.module };
    let chunks = ast.module.chunks@;
    let st = l.start(replies);
    let (st1, r1) = ask_done(st, query);
    lemma_chunks(st1, Seq::empty(), chunks, mode, l.lang);
    let (st2, r2) = lower_chunks(st1, Seq::empty(), chunks, mode, l.lang);
    match l.lower(ast, mode, replies).1 {
        Outcome::Done(Ok(_)) => match r2 {
            Res::Val(hs) => {
                assert(st1.errs == l.errs);
                assert(st2.pending == replies.skip(st2.asked.len() as int));
                assert forall|i: int| 0 <= i < chunks.len() implies {
                    &&& lowered_from(hs[i], (#[trigger] chunks[i]).expr)
                    &&& !unused(hs[i], mode)
                } by {
                    assert(lowered_from(hs[0 + i], chunks[i].expr));
                }
            },
            _ => {},
        },
        _ => {},
    }
}

/// A module that cannot be lowered is answered by at least one error. Errors that the lowerer had
/// collected before come first among those handed out or, where registering the names or
/// finishing the tree failed, stay with the lowerer.
pub proof fn failure_has_errors(
    l: ASTLowererView,
    ast: AST,
    mode: Seq<char>,
    replies: Seq<Reply>,
)
    ensures
        l.lower(ast, mode, replies).1 matches Outcome::Done(Err(errs)) ==> {
            &&& errs.len() > 0
            &&& {
                ||| l.errs.is_prefix_of(errs) && l.after(
                    l.lower(ast, mode, replies),
                ).errs.len() == 0
                ||| errs.len() == 1 && l.errs.is_prefix_of(
                    l.after(l.lower(ast, mode, replies)).errs,
                )
            }
        },
{
    lemma_lower(l, ast, mode, replies);
}

/// Each expression of a module is lowered or reported: those that come into the tree stand in it
/// in their order, and there are errors for at least as many as do not.
pub proof fn every_expression_is_accounted_for(
    l: ASTLowererView,
    ast: AST,
    mode: Seq<char>,
    replies: Seq<Reply>,
)
    ensures
        l.lower(ast, mode, replies).1 matches Outcome::Done(Err(errs)) ==> (tree_handed_out(
            l.lower(ast, mode, replies).0.asked,
        ) matches Some(tree) ==> {
            let kept = l.after(l.lower(ast, mode, replies)).errs;
            &&& lowered_from_some(tree.module, ast.module.chunks@)
            &&& forall|i: int|
                0 <= i < tree.module.len() ==> !unused(#[trigger] tree.module[i], mode)
            &&& tree.module.len() + errs.len() + kept.len() >= ast.module.chunks@.len()
                + l.errs.len()
        }),
{
    lemma_lower(l, ast, mode, replies);
    let query = QueryView::PreregisterModule { module: ast.module };
    let chunks = ast.module.chunks@;
    let st = l.start(replies);
    let (st1, r1) = ask_done(st, query);
    lemma_chunks(st1, Seq::empty(), chunks, mode, l.lang);
    let (st2, r2) = lower_chunks(st1, Seq::empty(), chunks, mode, l.lang);
    match r2 {
        Res::Val(hs) => {
            assert(hs.skip(0) =~= hs);
        },
        _ => {},
    }
}

/// With more replies lowering does what it did with fewer of them, and goes on from there. Once it
/// has come to an end, or to something that has no lowering, more replies change nothing. While it
/// waits, the next reply goes to the query that waits if it is one to that query, and the queries
/// answered before are not put again; else lowering goes on waiting for the same query.
pub proof fn lowering_resumes(
    l: ASTLowererView,
    ast: AST,
    mode: Seq<char>,
    replies: Seq<Reply>,
    more: Seq<Reply>,
)
    ensures
        ({
            let from = l.lower(ast, mode, replies);
            let to = l.lower(ast, mode, replies + more);
            let n = from.0.asked.len();
            &&& from.0.asked.is_prefix_of(to.0.asked)
            &&& !(from.1 is Ask) ==> {
                &&& to.1 == from.1
                &&& to.0.asked == from.0.asked
                &&& l.after(to) == l.after(from)
            }
            &&& from.1 matches Outcome::Ask(query) ==> {
                if from.0.pending.len() == 0 && more.len() > 0 && answers(more[0], query) {
                    to.0.asked.len() > n && to.0.asked[n as int] == query
                } else {
                    to.1 == from.1 && to.0.asked == from.0.asked
                }
            }
        }),
{
    let register = QueryView::PreregisterModule { module: ast.module };
    let chunks = ast.module.chunks@;
    let st = l.start(replies);
    let end = l.lower(ast, mode, replies + more);
    assert(with_more(st, more) == l.start(replies + more));
    resume_ask_done(st, register, more);
    let from1 = ask_done(st, register);
    let to1 = ask_done(with_more(st, more), register);
    lemma_chunks(to1.0, Seq::empty(), chunks, mode, l.lang);
    let to2 = lower_chunks(to1.0, Seq::empty(), chunks, mode, l.lang);
    lemma_chunks(from1.0, Seq::empty(), chunks, mode, l.lang);
    resume_chunks(from1.0, Seq::empty(), chunks, mode, l.lang, more);
    let from2 = lower_chunks(from1.0, Seq::empty(), chunks, mode, l.lang);
    match to2.1 {
        Res::Val(exprs) => {
            let query = QueryView::DerefToplevel {
                hir: HIRView { name: ast.name@, module: exprs },
            };
            lemma_asked(to2.0, query);
            lemma_same(to2.0);
            lemma_asked_trans(to1.0, to2.0, to2.0.answered(query));
            if from2.0.pending.len() > 0 {
                lemma_more(from2.0, query, more);
            }
            lemma_same(from2.0);
        },
        _ => {},
    }
    lemma_same(to1.0);
    if waits(from1) {
        let last: Res<()> = if to1.1 is Ask {
            to1.1.stop()
        } else {
            Res::Val(())
        };
        lemma_resumes_through(from1, to1, (end.0, last), more);
    } else if from1.1 is Val && waits(from2) {
        let last: Res<()> = if to2.1 is Ask {
            to2.1.stop()
        } else {
            Res::Val(())
        };
        lemma_resumes_through(from2, to2, (end.0, last), more);
    }
}

/// An expression that is supported has a lowering, if what the context takes for something that is
/// called is of a type that says what a call gives back.
pub proof fn supported_expressions_are_lowered(st: State, expr: Expr, check: bool)
    requires
        supported(expr),
        all_callable(st.pending),
    ensures
        !(lower_expr(st, expr, check).1 is Unsupported),
{
    lemma_supported(st, expr, check);
}

/// A module of supported expressions has a lowering, if what the context takes for something that
/// is called is of a type that says what a call gives back.
pub proof fn supported_modules_are_lowered(
    l: ASTLowererView,
    ast: AST,
    mode: Seq<char>,
    replies: Seq<Reply>,
)
    requires
        supported_module(ast.module),
        all_callable(replies),
    ensures
        !(l.lower(ast, mode, replies).1 is Unsupported),
{
    lemma_supported_module(l.start(replies), ast, mode, l.lang, l.warns);
}

/// The expressions of a block are lowered one after the other: what some of them come to is what
/// the others start from.
pub proof fn blocks_are_lowered_in_order(
    st: State,
    done: Seq<ExprView>,
    first: Seq<Expr>,
    then: Seq<Expr>,
)
    ensures
        lower_exprs(st, done, first + then) == match lower_exprs(st, done, first) {
            (st1, Res::Val(hs)) => lower_exprs(st1, hs, then),
            stopped => stopped,
        },
    decreases first.len(),
{
    if first.len() == 0 {
        assert(first + then =~= then);
    } else {
        assert((first + then).drop_first() =~= first.drop_first() + then);
        let (st1, r) = lower_expr(st, first[0], true);
        match r {
            Res::Val(h) => blocks_are_lowered_in_order(
                st1,
                done.push(h),
                first.drop_first(),
                then,
            ),
            _ => {},
        }
    }
}

/// The mode only tells an evaluation from anything else.
pub proof fn mode_only_tells_evaluations(
    l: ASTLowererView,
    ast: AST,
    mode: Seq<char>,
    other: Seq<char>,
    replies: Seq<Reply>,
)
    requires
        mode != "eval"@,
        other != "eval"@,
    ensures
        l.lower(ast, mode, replies) == l.lower(ast, other, replies),
{
    let query = QueryView::PreregisterModule { module: ast.module };
    let (st1, _) = ask_done(l.start(replies), query);
    lemma_modes(st1, Seq::empty(), ast.module.chunks@, mode, other, l.lang);
}

proof fn lemma_modes(
    st: State,
    done: Seq<ExprView>,
    chunks: Seq<Chunk>,
    mode: Seq<char>,
    other: Seq<char>,
    lang: Language,
)
    requires
        mode != "eval"@,
        other != "eval"@,
    ensures
        lower_chunks(st, done, chunks, mode, lang) == lower_chunks(st, done, chunks, other, lang),
    decreases chunks.len(),
{
    if chunks.len() > 0 {
        let rest = chunks.drop_first();
        let (st1, r) = lower_expr(st, chunks[0].expr, true);
        match r {
            Res::Val(h) => if unused(h, mode) {
                let e = unused_error(st1.name(), chunks[0].loc, lang);
                lemma_modes(st1.report(e), done, rest, mode, other, lang);
            } else {
                lemma_modes(st1, done.push(h), rest, mode, other, lang);
            },
            Res::Fail(e) => lemma_modes(st1.report(e), done, rest, mode, other, lang),
            _ => {},
        }
    }
}

/// Lowering warns of nothing: the warnings that it hands out, or keeps, are those that there were.
pub proof fn no_warning_arises(
    l: ASTLowererView,
    ast: AST,
    mode: Seq<char>,
    replies: Seq<Reply>,
)
    ensures
        ({
            let end = l.lower(ast, mode, replies);
            match end.1 {
                Outcome::Done(Ok((_, warns))) => warns == l.warns && l.after(end).warns.len() == 0,
                _ => l.after(end).warns == l.warns,
            }
        }),
{
    lemma_lower(l, ast, mode, replies);
}

/// A lowerer that has no errors, whatever it has lowered before, lowers an empty module to what the
/// context makes of the empty tree.
pub proof fn empty_modules_are_lowered(
    l: ASTLowererView,
    ast: AST,
    mode: Seq<char>,
    replies: Seq<Reply>,
)
    requires
        l.errs.len() == 0,
        ast.module.chunks@.len() == 0,
        replies.len() >= 2,
        replies[0] matches Reply::Done(Ok(_)),
        replies[1] matches Reply::Derefed(Ok(_)),
    ensures
        tree_handed_out(l.lower(ast, mode, replies).0.asked) == Some(
            HIRView { name: ast.name@, module: Seq::empty() },
        ),
        replies[1] matches Reply::Derefed(Ok(made)) ==> l.lower(ast, mode, replies).1
            == Outcome::Done(Ok((made@, l.warns))),
{
    let register = QueryView::PreregisterModule { module: ast.module };
    assert(l.start(replies).answered(register).pending[0] == replies[1]);
}

/// Whether a type is that of `None`, that of the empty tuple, or an option of one of these.
pub open spec fn holds_nothing(t: TyView) -> bool
    decreases t,
{
    match t {
        TyView::NoneType => true,
        TyView::Unit => true,
        TyView::Optional { inner, .. } => holds_nothing(*inner),
        _ => false,
    }
}

/// The types of which a value holds nothing are those of `None` and the empty tuple, and options of
/// those.
pub proof fn only_options_hold_nothing(t: TyView)
    ensures
        t.is_nonelike() <==> holds_nothing(t),
    decreases t,
{
    match t {
        TyView::Optional { inner, .. } => only_options_hold_nothing(*inner),
        _ => {},
    }
}

/// Whether each of some typed expressions has a type of which a value holds nothing.
pub open spec fn all_hold_nothing(exprs: Seq<ExprView>) -> bool {
    forall|i: int|
        0 <= i < exprs.len() ==> (carried_t(#[trigger] exprs[i]) matches Some(t) && holds_nothing(
            t,
        ))
}

/// But for an evaluation, the expressions of a module that come into the tree are those whose type
/// is that of `None`, of the empty tuple, or an option of those.
pub proof fn values_are_not_kept(
    st: State,
    done: Seq<ExprView>,
    chunks: Seq<Chunk>,
    mode: Seq<char>,
    lang: Language,
)
    requires
        mode != "eval"@,
        all_hold_nothing(done),
    ensures
        lower_chunks(st, done, chunks, mode, lang).1 matches Res::Val(hs) ==> all_hold_nothing(hs),
    decreases chunks.len(),
{
    if chunks.len() > 0 {
        let rest = chunks.drop_first();
        let (st1, r) = lower_expr(st, chunks[0].expr, true);
        match r {
            Res::Val(h) => if typed(h) {
                lemma_carried_t(h);
                only_options_hold_nothing(expr_t(h));
                if holds_nothing(expr_t(h)) {
                    values_are_not_kept(st1, done.push(h), rest, mode, lang);
                } else {
                    let e = unused_error(st1.name(), chunks[0].loc, lang);
                    values_are_not_kept(st1.report(e), done, rest, mode, lang);
                }
            },
            Res::Fail(e) => values_are_not_kept(st1.report(e), done, rest, mode, lang),
            _ => {},
        }
    }
}

/// But for an evaluation, every expression of the tree that is handed to the context has the type
/// of `None`, that of the empty tuple, or an option of those, whatever comes of the module.
pub proof fn no_value_goes_unused(
    l: ASTLowererView,
    ast: AST,
    mode: Seq<char>,
    replies: Seq<Reply>,
)
    requires
        mode != "eval"@,
    ensures
        l.lower(ast, mode, replies).1 is Done ==> (tree_handed_out(
            l.lower(ast, mode, replies).0.asked,
        ) matches Some(tree) ==> forall|i: int|
            0 <= i < tree.module.len() ==> (carried_t(#[trigger] tree.module[i]) matches Some(t)
                && holds_nothing(t))),
{
    lemma_lower(l, ast, mode, replies);
    let query = QueryView::PreregisterModule { module: ast.module };
    let (st1, r1) = ask_done(l.start(replies), query);
    values_are_not_kept(st1, Seq::empty(), ast.module.chunks@, mode, l.lang);
}

/// An expression of a module comes into the tree if it is an evaluation or if its type is that of
/// `None`, of the empty tuple, or an option of those. Else its value goes unused, which is reported
/// at its place and blamed on the current scope. If it fails, the error is added to those that came
/// up on the way. None of that keeps the next expression from being lowered.
pub proof fn expressions_are_kept_or_reported(
    st: State,
    done: Seq<ExprView>,
    chunk: Chunk,
    mode: Seq<char>,
    lang: Language,
)
    ensures
        ({
            let (st1, r) = lower_expr(st, chunk.expr, true);
            let (end, kept) = lower_chunks(st, done, seq![chunk], mode, lang);
            match r {
                Res::Val(h) => if mode == "eval"@ {
                    end == st1 && kept == Res::Val(done.push(h))
                } else {
                    match carried_t(h) {
                        Some(t) => if holds_nothing(t) {
                            end == st1 && kept == Res::Val(done.push(h))
                        } else {
                            &&& kept == Res::Val(done)
                            &&& end == State {
                                errs: st1.errs.push(
                                    LowerErrorView::Syntax {
                                        errno: 0,
                                        loc: chunk.loc,
                                        caused_by: st.scopes.last().name,
                                        desc: unused_value_desc(lang),
                                        hint: Some(unused_value_hint(lang)),
                                    },
                                ),
                                ..st1
                            }
                        },
                        None => kept is Unsupported && end == st1,
                    }
                },
                Res::Fail(e) => kept == Res::Val(done) && end == State {
                    errs: st1.errs.push(e),
                    ..st1
                },
                Res::Ask(query) => kept == Res::<Seq<ExprView>>::Ask(query) && end == st1,
                Res::Unsupported => kept is Unsupported && end == st1,
            }
        }),
{
    reveal_with_fuel(lower_chunks, 2);
    let (st1, r) = lower_expr(st, chunk.expr, true);
    lemma_expr(st, chunk.expr, true);
    assert(seq![chunk].drop_first().len() == 0);
    match r {
        Res::Val(h) => {
            lemma_carried_t(h);
            only_options_hold_nothing(expr_t(h));
        },
        _ => {},
    }
}

/// The expressions of a module are lowered one after the other: what some of them come to is what
/// the others start from.
pub proof fn modules_are_lowered_in_order(
    st: State,
    done: Seq<ExprView>,
    first: Seq<Chunk>,
    then: Seq<Chunk>,
    mode: Seq<char>,
    lang: Language,
)
    ensures
        lower_chunks(st, done, first + then, mode, lang) == match lower_chunks(
            st,
            done,
            first,
            mode,
            lang,
        ) {
            (st1, Res::Val(hs)) => lower_chunks(st1, hs, then, mode, lang),
            stopped => stopped,
        },
    decreases first.len(),
{
    if first.len() == 0 {
        assert(first + then =~= then);
    } else {
        assert((first + then).drop_first() =~= first.drop_first() + then);
        let rest = first.drop_first();
        let (st1, r) = lower_expr(st, first[0].expr, true);
        match r {
            Res::Val(h) => if mode != "eval"@ && !typed(h) {
            } else if unused(h, mode) {
                let e = unused_error(st1.name(), first[0].loc, lang);
                modules_are_lowered_in_order(st1.report(e), done, rest, then, mode, lang);
            } else {
                modules_are_lowered_in_order(st1, done.push(h), rest, then, mode, lang);
            },
            Res::Fail(e) => modules_are_lowered_in_order(
                st1.report(e),
                done,
                rest,
                then,
                mode,
                lang,
            ),
            _ => {},
        }
    }
}

/// What comes of a module. If its names cannot be registered, that error. Else its expressions are
/// lowered from the start and, once that is done, the context is handed the tree under the name of
/// the module. If it refuses the tree, that error comes of the module. Else the errors collected
/// do, all of them, and none stay with the lowerer; and only if there is none, what the context
/// made of the tree.
pub proof fn module_comes_to_its_errors(
    l: ASTLowererView,
    ast: AST,
    mode: Seq<char>,
    replies: Seq<Reply>,
)
    ensures
        ({
            let (end, outcome) = l.lower(ast, mode, replies);
            let register = QueryView::PreregisterModule { module: ast.module };
            let st = State {
                scopes: l.scopes,
                errs: l.errs,
                pending: replies.skip(1),
                asked: seq![register],
            };
            let (st1, kept) = lower_chunks(st, Seq::empty(), ast.module.chunks@, mode, l.lang);
            let n = st1.asked.len() as int;
            &&& outcome is Done ==> l.after((end, outcome)).errs == end.errs
            &&& if replies.len() == 0 || !(replies[0] is Done) {
                outcome == Outcome::Ask(register) && end.asked.len() == 0
            } else if replies[0]->Done_0 is Err {
                &&& outcome == Outcome::Done(Err(seq![replies[0]->Done_0->Err_0@]))
                &&& end.errs == l.errs
                &&& end.asked == seq![register]
            } else {
                match kept {
                    Res::Val(exprs) => {
                        let query = QueryView::DerefToplevel {
                            hir: HIRView { name: ast.name@, module: exprs },
                        };
                        if replies.len() <= n || !(replies[n] is Derefed) {
                            outcome == Outcome::Ask(query) && end.asked == st1.asked
                        } else {
                            &&& end.asked == st1.asked.push(query)
                            &&& match replies[n] {
                                Reply::Derefed(Err(e)) => outcome == Outcome::Done(Err(seq![e@]))
                                    && end.errs == st1.errs,
                                Reply::Derefed(Ok(made)) => if st1.errs.len() == 0 {
                                    outcome == Outcome::Done(Ok((made@, l.warns)))
                                        && end.errs.len() == 0
                                } else {
                                    outcome == Outcome::Done(Err(st1.errs)) && end.errs.len() == 0
                                },
                                _ => true,
                            }
                        }
                    },
                    Res::Fail(_) => false,
                    Res::Ask(query) => outcome == Outcome::Ask(query) && end.asked == st1.asked,
                    Res::Unsupported => outcome is Unsupported,
                }
            }
        }),
{
    lemma_lower(l, ast, mode, replies);
    let register = QueryView::PreregisterModule { module: ast.module };
    if replies.len() > 0 {
        assert(l.start(replies).answered(register) == (State {
            scopes: l.scopes,
            errs: l.errs,
            pending: replies.skip(1),
            asked: seq![register],
        })) by {
            assert(replies.drop_first() =~= replies.skip(1));
            assert(Seq::<QueryView>::empty().push(register) =~= seq![register]);
        }
    }
}

/// Every type in the tree of a module that is lowered is what the context gave for that part of the
/// tree, in a reply to a query about it.
pub proof fn types_of_modules_come_from_the_context(
    l: ASTLowererView,
    ast: AST,
    mode: Seq<char>,
    replies: Seq<Reply>,
)
    ensures
        l.lower(ast, mode, replies).1 matches Outcome::Done(Ok(_)) ==> {
            let end = l.lower(ast, mode, replies).0;
            let chunks = ast.module.chunks@;
            tree_handed_out(end.asked) matches Some(tree) && {
                &&& tree.module.len() == chunks.len()
                &&& forall|i: int|
                    0 <= i < chunks.len() ==> backed(
                        l.start(replies),
                        end,
                        l.scopes.last(),
                        tree.module[i],
                        (#[trigger] chunks[i]).expr,
                        true,
                    )
            }
        },
{
    success_is_complete(l, ast, mode, replies);
    lemma_lower(l, ast, mode, replies);
    let st = l.start(replies);
    let register = QueryView::PreregisterModule { module: ast.module };
    let chunks = ast.module.chunks@;
    let (st1, r1) = ask_done(st, register);
    let (st2, r2) = lower_chunks(st1, Seq::empty(), chunks, mode, l.lang);
    let end = l.lower(ast, mode, replies).0;
    match l.lower(ast, mode, replies).1 {
        Outcome::Done(Ok(_)) => match r2 {
            Res::Val(hs) => {
                let query = QueryView::DerefToplevel {
                    hir: HIRView { name: ast.name@, module: hs },
                };
                lemma_chunks(st1, Seq::empty(), chunks, mode, l.lang);
                lemma_reads_on(st, st1);
                lemma_reads_on_refl(st2);
                lemma_reads_answered(st2, st2, query);
                backs_chunks(st, end, st1, Seq::empty(), chunks, mode, l.lang);
                assert forall|i: int| 0 <= i < chunks.len() implies backed(
                    st,
                    end,
                    l.scopes.last(),
                    hs[i],
                    (#[trigger] chunks[i]).expr,
                    true,
                ) by {
                    assert(hs[0 + i] == hs[i]);
                }
            },
            _ => {},
        },
        _ => {},
    }
}

proof fn backs_chunks(
    from: State,
    to: State,
    st: State,
    done: Seq<ExprView>,
    chunks: Seq<Chunk>,
    mode: Seq<char>,
    lang: Language,
)
    requires
        reads_on(from, st),
        lower_chunks(st, done, chunks, mode, lang).1 is Val,
        lower_chunks(st, done, chunks, mode, lang).0.errs.len() == st.errs.len(),
        reads_on(lower_chunks(st, done, chunks, mode, lang).0, to),
    ensures
        lower_chunks(st, done, chunks, mode, lang).1 matches Res::Val(hs) && forall|i: int|
            0 <= i < chunks.len() ==> backed(
                from,
                to,
                st.scopes.last(),
                hs[done.len() + i],
                (#[trigger] chunks[i]).expr,
                true,
            ),
    decreases chunks.len(),
{
    if chunks.len() > 0 {
        let rest = chunks.drop_first();
        let (st1, r) = lower_expr(st, chunks[0].expr, true);
        lemma_expr(st, chunks[0].expr, true);
        match r {
            Res::Val(h) => if unused(h, mode) {
                let e = unused_error(st1.name(), chunks[0].loc, lang);
                lemma_chunks(st1.report(e), done, rest, mode, lang);
            } else {
                let (st2, r2) = lower_chunks(st1, done.push(h), rest, mode, lang);
                lemma_chunks(st1, done.push(h), rest, mode, lang);
                lemma_reads_on(st, st1);
                lemma_reads_on(st1, st2);
                lemma_reads_on_trans(from, st, st1);
                lemma_reads_on_trans(st1, st2, to);
                backs_expr(from, to, st, chunks[0].expr, true);
                backs_chunks(from, to, st1, done.push(h), rest, mode, lang);
                match r2 {
                    Res::Val(hs) => {
                        assert(hs.take((done.len() + 1) as int)[done.len() as int] == h);
                        assert forall|i: int| 0 <= i < chunks.len() implies backed(
                            from,
                            to,
                            st.scopes.last(),
                            hs[done.len() + i],
                            (#[trigger] chunks[i]).expr,
                            true,
                        ) by {
                            if i > 0 {
                                assert(rest[i - 1] == chunks[i]);
                            }
                        }
                    },
                    _ => {},
                }
            },
            Res::Fail(e) => {
                lemma_chunks(st1.report(e), done, rest, mode, lang);
            },
            _ => {},
        }
    }
}

/// A module is lowered only if the context objects to nothing on the way: it refuses nothing that
/// it is asked, has no errors of any scope that is left, and blames no mismatch.
pub proof fn success_is_unopposed(
    l: ASTLowererView,
    ast: AST,
    mode: Seq<char>,
    replies: Seq<Reply>,
)
    ensures
        l.lower(ast, mode, replies).1 matches Outcome::Done(Ok(_)) ==> {
            let asked = l.lower(ast, mode, replies).0.asked;
            forall|i: int|
                0 <= i < asked.len() ==> {
                    &&& refusal(#[trigger] asked[i], replies[i]) is None
                    &&& asked[i] != QueryView::CausedBy
                    &&& asked[i] == QueryView::Pop ==> (replies[i] matches Reply::Popped(Err(errs))
                        ==> errs@.len() == 0)
                }
        },
{
    replies_are_used_in_order(l, ast, mode, replies);
    lemma_lower(l, ast, mode, replies);
    let st = l.start(replies);
    let register = QueryView::PreregisterModule { module: ast.module };
    let chunks = ast.module.chunks@;
    let (st1, r1) = ask_done(st, register);
    let (st2, r2) = lower_chunks(st1, Seq::empty(), chunks, mode, l.lang);
    let end = l.lower(ast, mode, replies).0;
    match l.lower(ast, mode, replies).1 {
        Outcome::Done(Ok(_)) => match r2 {
            Res::Val(hs) => {
                let query = QueryView::DerefToplevel {
                    hir: HIRView { name: ast.name@, module: hs },
                };
                success_is_complete(l, ast, mode, replies);
                lemma_chunks(st1, Seq::empty(), chunks, mode, l.lang);
                lemma_reads_on(st1, st2);
                tells_ask_done(st, register);
                lemma_unopposed(st1, Seq::empty(), chunks, mode, l.lang);
                lemma_accounted_trans(st, st1, st2);
                lemma_unrefused_trans(st, st1, st2);
                lemma_reads_on_trans(st, st1, st2);
                lemma_answer(st2, query);
                lemma_accounted_trans(st, st2, end);
                lemma_unrefused_trans(st, st2, end);
                assert(end.errs.skip(0) =~= Seq::empty());
                assert(end.asked.skip(0) =~= end.asked);
                lemma_none_collected(end.asked, used(st, end));
                assert forall|i: int| 0 <= i < end.asked.len() implies {
                    &&& refusal(#[trigger] end.asked[i], replies[i]) is None
                    &&& end.asked[i] != QueryView::CausedBy
                    &&& end.asked[i] == QueryView::Pop ==> (
                    replies[i] matches Reply::Popped(Err(errs)) ==> errs@.len() == 0)
                } by {
                    assert(used(st, end)[i] == replies[i]);
                    assert(reply_at(st, i) == replies[i]);
                    assert(answers(replies[i], end.asked[i]));
                }
            },
            _ => {},
        },
        _ => {},
    }
}

/// The expressions of a module that add no error are refused nothing.
proof fn lemma_unopposed(
    st: State,
    done: Seq<ExprView>,
    chunks: Seq<Chunk>,
    mode: Seq<char>,
    lang: Language,
)
    requires
        lower_chunks(st, done, chunks, mode, lang).1 is Val,
        lower_chunks(st, done, chunks, mode, lang).0.errs.len() == st.errs.len(),
    ensures
        accounted(st, lower_chunks(st, done, chunks, mode, lang).0),
        unrefused(st, lower_chunks(st, done, chunks, mode, lang).0),
        reads_on(st, lower_chunks(st, done, chunks, mode, lang).0),
    decreases chunks.len(),
{
    lemma_nothing(st);
    if chunks.len() > 0 {
        let rest = chunks.drop_first();
        let (st1, r) = lower_expr(st, chunks[0].expr, true);
        lemma_expr(st, chunks[0].expr, true);
        tells_expr(st, chunks[0].expr, true);
        match r {
            Res::Val(h) => if unused(h, mode) {
                let e = unused_error(st1.name(), chunks[0].loc, lang);
                lemma_chunks(st1.report(e), done, rest, mode, lang);
            } else {
                let (st2, r2) = lower_chunks(st1, done.push(h), rest, mode, lang);
                lemma_chunks(st1, done.push(h), rest, mode, lang);
                lemma_unopposed(st1, done.push(h), rest, mode, lang);
                lemma_accounted_trans(st, st1, st2);
                lemma_unrefused_trans(st, st1, st2);
                lemma_reads_on_trans(st, st1, st2);
            },
            Res::Fail(e) => {
                lemma_chunks(st1.report(e), done, rest, mode, lang);
            },
            _ => {},
        }
    }
}

/// A module that is lowered is one of supported expressions.
pub proof fn only_supported_modules_are_lowered(
    l: ASTLowererView,
    ast: AST,
    mode: Seq<char>,
    replies: Seq<Reply>,
)
    ensures
        l.lower(ast, mode, replies).1 matches Outcome::Done(Ok(_)) ==> supported_module(
            ast.module,
        ),
{
    types_of_modules_come_from_the_context(l, ast, mode, replies);
    let end = l.lower(ast, mode, replies).0;
    let chunks = ast.module.chunks@;
    match l.lower(ast, mode, replies).1 {
        Outcome::Done(Ok(_)) => {
            let tree = tree_handed_out(end.asked).unwrap();
            assert forall|i: int| 0 <= i < chunks.len() implies supported(
                (#[trigger] chunks[i]).expr,
            ) by {
                lemma_backed_supported(
                    l.start(replies),
                    end,
                    l.scopes.last(),
                    tree.module[i],
                    chunks[i].expr,
                    true,
                );
            }
        },
        _ => {},
    }
}

/// A module is lowered in a scope at the first level, inside the builtins.
pub proof fn modules_stand_in_the_builtins()
    ensures
        module_opening().scope.name == "<module>"@,
        module_opening().scope.kind is Module,
        module_opening().scope.level == 1,
        module_opening().outer is Some,
{
}

} // verus!
