//! Expressions that are supported have a lowering.
use vstd::prelude::*;

use crate::ast::{
    import_names_path, supported, supported_block, supported_def, supported_module, supported_var,
    Accessor, BinOp, Block, Call, Chunk, Def, DefBody, Expr, KwArg, Lambda, PosArg, Signature,
    SubrSignature, UnaryOp, VarSignature, AST,
};
use crate::context::{all_callable, callable, ContextKind, QueryView, State};
use crate::error::{Language, LowerErrorView};
use crate::hir::{block_typed, is_import, typed, ExprView, KwArgView};
use crate::proofs::{
    acc_lowered_from, block_lowered_from, call_lowered_from, goes_on, lemma_answered,
    lemma_ask_done, lemma_block, lemma_expr, lemma_grow, lowered_from,
};
use crate::semantics::{
    ask_done, grow, lower, lower_acc, lower_array, lower_bin, lower_block, lower_call,
    lower_chunks, lower_def, lower_expr, lower_exprs, lower_in_lambda, lower_kw_args,
    lower_lambda, lower_pos_args, lower_subr_def, lower_unary, lower_var_def, unused,
    unused_error, Res,
};
use crate::text::lambda_name;
use crate::token::TokenKind;

verus! {

/// A lowered block begins with a call only where the block does, and with one of `import` that
/// says what is imported only where the block does.
proof fn lemma_first_call(h: Seq<ExprView>, block: Block)
    requires
        block_lowered_from(h, block),
        block.exprs@.len() > 0,
        import_names_path(block),
    ensures
        h[0] is Call ==> block.exprs@[0] is Call,
        h[0] matches ExprView::Call(call) ==> (is_import(call) ==> call.pos_args.len() > 0),
{
    let expr = block.exprs@[0];
    assert(lowered_from(h[0], expr));
    match (h[0], expr) {
        (ExprView::Call(hc), Expr::Call(c)) => {
            assert(call_lowered_from(hc, c));
            assert(lowered_from(*hc.obj, *c.obj));
            match (*hc.obj, *c.obj) {
                (ExprView::Accessor(ha), Expr::Accessor(a)) => {
                    assert(acc_lowered_from(ha, a));
                },
                _ => {},
            }
        },
        _ => {},
    }
}

/// The replies that are left are among those there were.
proof fn lemma_still_callable(st: State, st1: State)
    requires
        goes_on(st, st1),
        all_callable(st.pending),
    ensures
        all_callable(st1.pending),
{
    let n = st1.asked.len() - st.asked.len();
    assert forall|i: int| 0 <= i < st1.pending.len() implies callable(
        #[trigger] st1.pending[i],
    ) by {
        assert(st1.pending[i] == st.pending[i + n]);
    }
}

pub proof fn lemma_supported(st: State, expr: Expr, check: bool)
    requires
        supported(expr),
        all_callable(st.pending),
    ensures
        !(lower_expr(st, expr, check).1 is Unsupported),
        lower_expr(st, expr, check).1 matches Res::Val(h) ==> typed(h),
        all_callable(lower_expr(st, expr, check).0.pending),
    decreases expr,
{
    lemma_expr(st, expr, check);
    lemma_still_callable(st, lower_expr(st, expr, check).0);
    match expr {
        Expr::Lit(_) => {},
        Expr::Accessor(acc) => supported_acc(st, acc, check),
        Expr::Array(array) => {
            let query = QueryView::ArrayT { level: st.scopes.last().level };
            if st.pending.len() > 0 && st.pending[0] is ArrayT {
                lemma_answered(st, query);
                lemma_still_callable(st, st.answered(query));
                supported_pos_args(
                    st.answered(query),
                    Seq::empty(),
                    array.elems.pos_args@,
                    check,
                );
            }
            assert(!(lower_array(st, array, check).1 is Unsupported));
        },
        Expr::BinOp(bin) => supported_bin(st, bin),
        Expr::UnaryOp(unary) => supported_unary(st, unary),
        Expr::Call(call) => supported_call(st, call),
        Expr::Lambda(lambda) => {
            assert(supported_block(lambda.body));
            supported_lambda(st, lambda);
        },
        Expr::Def(def) => {
            assert(supported_def(def));
            supported_in_def(st, def);
        },
        _ => {},
    }
}

proof fn supported_acc(st: State, acc: Accessor, check: bool)
    requires
        supported(Expr::Accessor(acc)),
        all_callable(st.pending),
    ensures
        !(lower_acc(st, acc, check).1 is Unsupported),
    decreases acc,
{
    match acc {
        Accessor::Attr(a) => lemma_supported(st, *a.obj, true),
        _ => {},
    }
}

proof fn supported_bin(st: State, bin: BinOp)
    requires
        supported(Expr::BinOp(bin)),
        all_callable(st.pending),
    ensures
        !(lower_bin(st, bin).1 is Unsupported),
        lower_bin(st, bin).1 matches Res::Val(h) ==> h.sig_t.return_t() is Some,
    decreases bin,
{
    lemma_supported(st, *bin.lhs, true);
    lemma_supported(lower_expr(st, *bin.lhs, true).0, *bin.rhs, true);
}

proof fn supported_unary(st: State, unary: UnaryOp)
    requires
        supported(Expr::UnaryOp(unary)),
        all_callable(st.pending),
    ensures
        !(lower_unary(st, unary).1 is Unsupported),
        lower_unary(st, unary).1 matches Res::Val(h) ==> h.sig_t.return_t() is Some,
    decreases unary,
{
    lemma_supported(st, *unary.expr, true);
}

proof fn supported_pos_args(st: State, done: Seq<ExprView>, args: Seq<PosArg>, check: bool)
    requires
        forall|i: int| 0 <= i < args.len() ==> supported((#[trigger] args[i]).expr),
        all_callable(st.pending),
    ensures
        !(lower_pos_args(st, done, args, check).1 is Unsupported),
        all_callable(lower_pos_args(st, done, args, check).0.pending),
    decreases args,
{
    if args.len() > 0 {
        let rest = args.drop_first();
        assert forall|i: int| 0 <= i < rest.len() implies supported((#[trigger] rest[i]).expr) by {
            assert(rest[i] == args[i + 1]);
        }
        lemma_supported(st, args[0].expr, check);
        let (st1, r) = lower_expr(st, args[0].expr, check);
        match r {
            Res::Val(h) => supported_pos_args(st1, done.push(h), rest, check),
            _ => {},
        }
    }
}

proof fn supported_kw_args(st: State, done: Seq<KwArgView>, args: Seq<KwArg>)
    requires
        forall|i: int| 0 <= i < args.len() ==> supported((#[trigger] args[i]).expr),
        all_callable(st.pending),
    ensures
        !(lower_kw_args(st, done, args).1 is Unsupported),
        all_callable(lower_kw_args(st, done, args).0.pending),
    decreases args,
{
    if args.len() > 0 {
        let rest = args.drop_first();
        assert forall|i: int| 0 <= i < rest.len() implies supported((#[trigger] rest[i]).expr) by {
            assert(rest[i] == args[i + 1]);
        }
        lemma_supported(st, args[0].expr, true);
        let (st1, r) = lower_expr(st, args[0].expr, true);
        match r {
            Res::Val(h) => {
                let kw = KwArgView { keyword: args[0].keyword, expr: h };
                supported_kw_args(st1, done.push(kw), rest);
            },
            _ => {},
        }
    }
}

proof fn supported_exprs(st: State, done: Seq<ExprView>, exprs: Seq<Expr>)
    requires
        forall|i: int| 0 <= i < exprs.len() ==> supported(#[trigger] exprs[i]),
        all_callable(st.pending),
    ensures
        !(lower_exprs(st, done, exprs).1 is Unsupported),
        all_callable(lower_exprs(st, done, exprs).0.pending),
        lower_exprs(st, done, exprs).1 matches Res::Val(hs) ==> (exprs.len() > 0 ==> block_typed(
            hs,
        )),
    decreases exprs,
{
    if exprs.len() > 0 {
        let rest = exprs.drop_first();
        assert forall|i: int| 0 <= i < rest.len() implies supported(#[trigger] rest[i]) by {
            assert(rest[i] == exprs[i + 1]);
        }
        lemma_supported(st, exprs[0], true);
        let (st1, r) = lower_expr(st, exprs[0], true);
        match r {
            Res::Val(h) => {
                supported_exprs(st1, done.push(h), rest);
                if rest.len() == 0 {
                    assert(lower_exprs(st1, done.push(h), rest).1 == Res::Val(done.push(h)));
                }
            },
            _ => {},
        }
    }
}

proof fn supported_call(st: State, call: Call)
    requires
        supported(Expr::Call(call)),
        all_callable(st.pending),
    ensures
        !(lower_call(st, call).1 is Unsupported),
        lower_call(st, call).1 matches Res::Val(h) ==> h.sig_t.return_t() is Some,
    decreases call,
{
    supported_pos_args(st, Seq::empty(), call.args.pos_args@, true);
    let (st1, r1) = lower_pos_args(st, Seq::empty(), call.args.pos_args@, true);
    supported_kw_args(st1, Seq::empty(), call.args.kw_args@);
    let (st2, r2) = lower_kw_args(st1, Seq::empty(), call.args.kw_args@);
    lemma_supported(st2, *call.obj, false);
}

proof fn supported_lambda(st: State, lambda: Lambda)
    requires
        supported_block(lambda.body),
        all_callable(st.pending),
    ensures
        !(lower_lambda(st, lambda).1 is Unsupported),
    decreases lambda,
{
    let kind = if lambda.op.kind == TokenKind::ProcArrow {
        ContextKind::Proc
    } else {
        ContextKind::Func
    };
    let exprs = lambda.body.exprs@;
    let assign = QueryView::AssignParams { params: lambda.sig@.params };
    let register = QueryView::Preregister { block: lambda.body };
    let (st1, _) = grow(st, lambda_name(lambda.sig@.id), kind);
    lemma_grow(st, lambda_name(lambda.sig@.id), kind);
    lemma_still_callable(st, st1);
    let (st2, _) = ask_done(st1, assign);
    lemma_ask_done(st1, assign);
    lemma_still_callable(st1, st2);
    let (st3, _) = ask_done(st2, register);
    lemma_ask_done(st2, register);
    lemma_still_callable(st2, st3);
    supported_exprs(st3, Seq::empty(), exprs);
    assert(!(lower_in_lambda(st1, lambda).1 is Unsupported));
    assert(lower_in_lambda(st1, lambda).1 matches Res::Val((body, _, _)) ==> block_typed(body));
}

proof fn supported_in_def(st: State, def: Def)
    requires
        supported_def(def),
        all_callable(st.pending),
    ensures
        !(lower_def(st, def).1 is Unsupported),
    decreases def,
{
    assert(supported_block(def.body.block));
    assert(def.sig.name_token() is Some);
    let name = def.sig.name_token().unwrap().content@;
    let (st1, _) = grow(st, name, ContextKind::Instant);
    lemma_grow(st, name, ContextKind::Instant);
    lemma_still_callable(st, st1);
    match def.sig {
        Signature::Var(sig) => supported_var_def(st1, sig, def.body),
        Signature::Subr(sig) => supported_subr_def(st1, sig, def.body),
    }
}

proof fn supported_var_def(st: State, sig: VarSignature, body: DefBody)
    requires
        supported_block(body.block),
        supported_var(sig, body.block),
        all_callable(st.pending),
    ensures
        !(lower_var_def(st, sig, body).1 is Unsupported),
    decreases body,
{
    let register = QueryView::Preregister { block: body.block };
    let (st1, _) = ask_done(st, register);
    lemma_ask_done(st, register);
    lemma_still_callable(st, st1);
    supported_exprs(st1, Seq::empty(), body.block.exprs@);
    lemma_block(st1, body.block);
    match lower_block(st1, body.block).1 {
        Res::Val(block) => lemma_first_call(block, body.block),
        _ => {},
    }
}

proof fn supported_subr_def(st: State, sig: SubrSignature, body: DefBody)
    requires
        supported_block(body.block),
        all_callable(st.pending),
    ensures
        !(lower_subr_def(st, sig, body).1 is Unsupported),
    decreases body,
{
    let query = QueryView::OuterSubrT { name: sig.name.content@ };
    let assign = QueryView::AssignParams { params: sig.params };
    let register = QueryView::Preregister { block: body.block };
    if st.pending.len() > 0 && st.pending[0] is OuterSubrT {
        let st0 = st.answered(query);
        lemma_answered(st, query);
        lemma_still_callable(st, st0);
        let (st1, _) = ask_done(st0, assign);
        lemma_ask_done(st0, assign);
        lemma_still_callable(st0, st1);
        let (st2, _) = ask_done(st1, register);
        lemma_ask_done(st1, register);
        lemma_still_callable(st1, st2);
        supported_exprs(st2, Seq::empty(), body.block.exprs@);
        assert(!(lower_block(st2, body.block).1 is Unsupported));
    }
}

proof fn supported_chunks(
    st: State,
    done: Seq<ExprView>,
    chunks: Seq<Chunk>,
    mode: Seq<char>,
    lang: Language,
)
    requires
        forall|i: int| 0 <= i < chunks.len() ==> supported((#[trigger] chunks[i]).expr),
        all_callable(st.pending),
    ensures
        !(lower_chunks(st, done, chunks, mode, lang).1 is Unsupported),
    decreases chunks.len(),
{
    if chunks.len() > 0 {
        let rest = chunks.drop_first();
        assert forall|i: int| 0 <= i < rest.len() implies supported((#[trigger] rest[i]).expr) by {
            assert(rest[i] == chunks[i + 1]);
        }
        lemma_supported(st, chunks[0].expr, true);
        let (st1, r) = lower_expr(st, chunks[0].expr, true);
        match r {
            Res::Val(h) => if unused(h, mode) {
                let e = unused_error(st1.name(), chunks[0].loc, lang);
                supported_chunks(st1.report(e), done, rest, mode, lang);
            } else {
                supported_chunks(st1, done.push(h), rest, mode, lang);
            },
            Res::Fail(e) => supported_chunks(st1.report(e), done, rest, mode, lang),
            _ => {},
        }
    }
}

pub proof fn lemma_supported_module(
    st: State,
    ast: AST,
    mode: Seq<char>,
    lang: Language,
    warns: Seq<LowerErrorView>,
)
    requires
        supported_module(ast.module),
        all_callable(st.pending),
    ensures
        !(lower(st, ast, mode, lang, warns).1 is Unsupported),
{
    let query = QueryView::PreregisterModule { module: ast.module };
    let (st1, _) = ask_done(st, query);
    lemma_ask_done(st, query);
    lemma_still_callable(st, st1);
    supported_chunks(st1, Seq::empty(), ast.module.chunks@, mode, lang);
}

} // verus!
