//! What lowering means: the state it comes to, the queries it puts and the tree it makes, as
//! functions of the syntax tree and of the replies of the context.
use vstd::prelude::*;

use crate::ast::{
    AST, Accessor, Array, BinOp, Block, Call, Chunk, Def, DefBody, Expr, KwArg, Lambda, PosArg,
    Signature, SubrSignature, UnaryOp, VarPattern, VarSignature,
};
use crate::context::{
    ContextKind, ParamInfo, QueryView, RegistrationMode, Reply, ScopeView, State, Visibility,
};
use crate::error::{unused_value_desc, unused_value_hint, Language, Location, LowerErrorView};
use crate::hir::{
    block_t, block_typed, expr_t, is_import, typed, AccessorView, ArrayView, BinOpView, CallView,
    DefView, ExprView, HIRView, KwArgView, LambdaView, SignatureView, UnaryOpView,
};
use crate::outside::{bounds_in, TyBounds};
use crate::text::lambda_name;
use crate::token::TokenKind;
use crate::ty::{func_t, opt_str_view, proc_t, ParamTyView, TyView};

verus! {

/// What a step of lowering comes to: a value, an error, a query that no reply answers yet, or
/// something that has no lowering.
pub enum Res<T> {
    Val(T),
    Fail(LowerErrorView),
    Ask(QueryView),
    Unsupported,
}

impl<T> Res<T> {
    /// What is no value, in the place of another value.
    pub open spec fn stop<U>(self) -> Res<U> {
        match self {
            Res::Val(_) => arbitrary(),
            Res::Fail(e) => Res::Fail(e),
            Res::Ask(q) => Res::Ask(q),
            Res::Unsupported => Res::Unsupported,
        }
    }
}

/// The number of the error of a type that is not the expected one.
pub const TYPE_MISMATCH_ERRNO: usize = 55;

/// The number of the error of a value that is not used.
pub const UNUSED_VALUE_ERRNO: usize = 0;

/// Has the context do something that it may refuse.
pub open spec fn ask_done(st: State, query: QueryView) -> (State, Res<()>) {
    match st.reply() {
        Some(Reply::Done(Ok(_))) => (st.answered(query), Res::Val(())),
        Some(Reply::Done(Err(e))) => (st.answered(query), Res::Fail(e@)),
        _ => (st, Res::Ask(query)),
    }
}

/// Asks for the type of what is called.
pub open spec fn ask_callee(st: State, query: QueryView) -> (State, Res<TyView>) {
    match st.reply() {
        Some(Reply::CalleeT(Ok(t))) => (st.answered(query), Res::Val(t@)),
        Some(Reply::CalleeT(Err(e))) => (st.answered(query), Res::Fail(e@)),
        _ => (st, Res::Ask(query)),
    }
}

/// Enters a private scope, unless the context refuses.
pub open spec fn grow(st: State, name: Seq<char>, kind: ContextKind) -> (State, Res<()>) {
    let query = QueryView::Grow { name, kind, vis: Visibility::Private };
    match st.reply() {
        Some(Reply::Grown(Ok(made))) => (
            st.answered(query).enter(ScopeView { name: made.name@, kind, level: made.level }),
            Res::Val(()),
        ),
        Some(Reply::Grown(Err(e))) => (st.answered(query), Res::Fail(e@)),
        _ => (st, Res::Ask(query)),
    }
}

/// Leaves the current scope. The errors that the context has of it are collected.
pub open spec fn pop_append_errs(st: State) -> (State, Res<()>) {
    match st.reply() {
        Some(Reply::Popped(Ok(_))) => (st.answered(QueryView::Pop).leave(), Res::Val(())),
        Some(Reply::Popped(Err(errs))) => (
            State { errs: st.errs + errs@, ..st.answered(QueryView::Pop).leave() },
            Res::Val(()),
        ),
        _ => (st, Res::Ask(QueryView::Pop)),
    }
}

/// Leaves the current scope because of an error, which stays the outcome.
pub open spec fn leave_failing<T, U>(st: State, failed: Res<T>) -> (State, Res<U>) {
    match failed {
        Res::Fail(e) => {
            let (st1, popped) = pop_append_errs(st);
            match popped {
                Res::Val(_) => (st1, Res::Fail(e)),
                _ => (st1, popped.stop()),
            }
        },
        _ => (st, failed.stop()),
    }
}

/// Has the context unify the type found for a name with the expected one. Where it cannot, the
/// types do not match.
pub open spec fn return_t_check(
    st: State,
    loc: Location,
    name: Seq<char>,
    expect: TyView,
    found: TyView,
) -> (State, Res<()>) {
    let query = QueryView::Unify { expect, found, loc };
    match st.reply() {
        Some(Reply::Done(Ok(_))) => (st.answered(query), Res::Val(())),
        Some(Reply::Done(Err(_))) => {
            let st1 = st.answered(query);
            match st1.reply() {
                Some(Reply::CausedBy(caused_by)) => (
                    st1.answered(QueryView::CausedBy),
                    Res::Fail(
                        LowerErrorView::TypeMismatch {
                            errno: TYPE_MISMATCH_ERRNO,
                            loc,
                            caused_by: caused_by@,
                            name,
                            expect,
                            found,
                        },
                    ),
                ),
                _ => (st1, Res::Ask(QueryView::CausedBy)),
            }
        },
        _ => (st, Res::Ask(query)),
    }
}

/// Whether the value of an expression of a module goes unused: it is no evaluation, and the value
/// is something.
pub open spec fn unused(expr: ExprView, mode: Seq<char>) -> bool {
    mode != "eval"@ && !expr_t(expr).is_nonelike()
}

/// The error of an expression whose value goes unused.
pub open spec fn unused_error(name: Seq<char>, loc: Location, lang: Language) -> LowerErrorView {
    LowerErrorView::Syntax {
        errno: UNUSED_VALUE_ERRNO,
        loc,
        caused_by: name,
        desc: unused_value_desc(lang),
        hint: Some(unused_value_hint(lang)),
    }
}

/// The parameter types of those parameters that have a default, or of those that have none, in
/// their order.
pub open spec fn param_tys(params: Seq<ParamInfo>, has_default: bool) -> Seq<ParamTyView> {
    params.filter(|p: ParamInfo| p.has_default == has_default).map_values(
        |p: ParamInfo| ParamTyView { name: opt_str_view(p.name), ty: p.t@ },
    )
}

/// The type of a lambda, from the parameters of its scope, the type of its body and its bounds.
/// The parameters with a default stand in the first list of parameters and the others in the
/// second.
pub open spec fn lambda_t(
    procedural: bool,
    params: Seq<ParamInfo>,
    body_t: TyView,
    bounds: TyBounds,
) -> TyView {
    let t = if procedural {
        proc_t(param_tys(params, true), param_tys(params, false), body_t)
    } else {
        func_t(param_tys(params, true), param_tys(params, false), body_t)
    };
    if bounds_in(bounds) == Set::<erg_common::ty::TyBound>::empty() {
        t
    } else {
        TyView::Quantified { unbound_callable: Box::new(t), bounds }
    }
}

pub open spec fn lower_expr(st: State, expr: Expr, check: bool) -> (State, Res<ExprView>)
    decreases expr,
{
    match expr {
        Expr::Lit(lit) => if lit.token.kind.is_literal() {
            (st, Res::Val(ExprView::Lit(lit.token)))
        } else {
            (st, Res::Unsupported)
        },
        Expr::Accessor(acc) => {
            let (st1, r) = lower_acc(st, acc, check);
            match r {
                Res::Val(h) => (st1, Res::Val(ExprView::Accessor(h))),
                _ => (st1, r.stop()),
            }
        },
        Expr::Array(array) => {
            let (st1, r) = lower_array(st, array, check);
            match r {
                Res::Val(h) => (st1, Res::Val(ExprView::Array(h))),
                _ => (st1, r.stop()),
            }
        },
        Expr::BinOp(bin) => {
            let (st1, r) = lower_bin(st, bin);
            match r {
                Res::Val(h) => (st1, Res::Val(ExprView::BinOp(h))),
                _ => (st1, r.stop()),
            }
        },
        Expr::UnaryOp(unary) => {
            let (st1, r) = lower_unary(st, unary);
            match r {
                Res::Val(h) => (st1, Res::Val(ExprView::UnaryOp(h))),
                _ => (st1, r.stop()),
            }
        },
        Expr::Call(call) => {
            let (st1, r) = lower_call(st, call);
            match r {
                Res::Val(h) => (st1, Res::Val(ExprView::Call(h))),
                _ => (st1, r.stop()),
            }
        },
        Expr::Lambda(lambda) => {
            let (st1, r) = lower_lambda(st, lambda);
            match r {
                Res::Val(h) => (st1, Res::Val(ExprView::Lambda(h))),
                _ => (st1, r.stop()),
            }
        },
        Expr::Def(def) => {
            let (st1, r) = lower_def(st, def);
            match r {
                Res::Val(h) => (st1, Res::Val(ExprView::Def(h))),
                _ => (st1, r.stop()),
            }
        },
        Expr::Dict(_) => (st, Res::Unsupported),
        Expr::Decl(_) => (st, Res::Unsupported),
    }
}

/// Lowers the positional arguments that are left, after those that are lowered.
pub open spec fn lower_pos_args(
    st: State,
    done: Seq<ExprView>,
    args: Seq<PosArg>,
    check: bool,
) -> (State, Res<Seq<ExprView>>)
    decreases args,
{
    if args.len() == 0 {
        (st, Res::Val(done))
    } else {
        let (st1, r) = lower_expr(st, args[0].expr, check);
        match r {
            Res::Val(h) => lower_pos_args(st1, done.push(h), args.drop_first(), check),
            _ => (st1, r.stop()),
        }
    }
}

/// Lowers the keyword arguments that are left, after those that are lowered.
pub open spec fn lower_kw_args(st: State, done: Seq<KwArgView>, args: Seq<KwArg>) -> (
    State,
    Res<Seq<KwArgView>>,
)
    decreases args,
{
    if args.len() == 0 {
        (st, Res::Val(done))
    } else {
        let (st1, r) = lower_expr(st, args[0].expr, true);
        match r {
            Res::Val(h) => lower_kw_args(
                st1,
                done.push(KwArgView { keyword: args[0].keyword, expr: h }),
                args.drop_first(),
            ),
            _ => (st1, r.stop()),
        }
    }
}

/// Lowers the expressions of a block that are left, after those that are lowered.
pub open spec fn lower_exprs(st: State, done: Seq<ExprView>, exprs: Seq<Expr>) -> (
    State,
    Res<Seq<ExprView>>,
)
    decreases exprs,
{
    if exprs.len() == 0 {
        (st, Res::Val(done))
    } else {
        let (st1, r) = lower_expr(st, exprs[0], true);
        match r {
            Res::Val(h) => lower_exprs(st1, done.push(h), exprs.drop_first()),
            _ => (st1, r.stop()),
        }
    }
}

pub open spec fn lower_block(st: State, block: Block) -> (State, Res<Seq<ExprView>>)
    decreases block,
{
    lower_exprs(st, Seq::empty(), block.exprs@)
}

/// An array has a type before its elements are lowered. It keeps its positional elements; its
/// keyword elements and its guard are dropped.
pub open spec fn lower_array(st: State, array: Array, check: bool) -> (State, Res<ArrayView>)
    decreases array,
{
    let level = st.scopes.last().level;
    let query = QueryView::ArrayT { level };
    match st.reply() {
        Some(Reply::ArrayT(t)) => {
            let (st1, r) = lower_pos_args(
                st.answered(query),
                Seq::empty(),
                array.elems.pos_args@,
                check,
            );
            match r {
                Res::Val(elems) => (
                    st1,
                    Res::Val(
                        ArrayView {
                            l_sqbr: array.l_sqbr,
                            r_sqbr: array.r_sqbr,
                            level,
                            t: t@,
                            elems,
                        },
                    ),
                ),
                _ => (st1, r.stop()),
            }
        },
        _ => (st, Res::Ask(query)),
    }
}

/// Where `check` is off the type is left out and nothing is asked about the name.
pub open spec fn lower_acc(st: State, acc: Accessor, check: bool) -> (State, Res<AccessorView>)
    decreases acc,
{
    match acc {
        Accessor::Local(n) => if check {
            let var_t = QueryView::VarT { symbol: n.symbol, namespace: st.name() };
            let uniq_name = QueryView::UniqObjName { symbol: n.symbol };
            match st.reply() {
                Some(Reply::VarT(Ok(t))) => {
                    let st1 = st.answered(var_t);
                    match st1.reply() {
                        Some(Reply::UniqObjName(name)) => (
                            st1.answered(uniq_name),
                            Res::Val(
                                AccessorView::Local {
                                    name: n.symbol,
                                    uniq_name: opt_str_view(name),
                                    t: t@,
                                },
                            ),
                        ),
                        _ => (st1, Res::Ask(uniq_name)),
                    }
                },
                Some(Reply::VarT(Err(e))) => (st.answered(var_t), Res::Fail(e@)),
                _ => (st, Res::Ask(var_t)),
            }
        } else {
            (
                st,
                Res::Val(
                    AccessorView::Local {
                        name: n.symbol,
                        uniq_name: None,
                        t: TyView::ASTOmitted,
                    },
                ),
            )
        },
        Accessor::Attr(a) => {
            let (st1, r) = lower_expr(st, *a.obj, true);
            match r {
                Res::Val(obj) => if check {
                    let query = QueryView::AttrT {
                        obj,
                        name: a.name.symbol,
                        namespace: st1.name(),
                    };
                    match st1.reply() {
                        Some(Reply::AttrT(Ok(t))) => (
                            st1.answered(query),
                            Res::Val(
                                AccessorView::Attr {
                                    obj: Box::new(obj),
                                    name: a.name.symbol,
                                    t: t@,
                                },
                            ),
                        ),
                        Some(Reply::AttrT(Err(e))) => (st1.answered(query), Res::Fail(e@)),
                        _ => (st1, Res::Ask(query)),
                    }
                } else {
                    (
                        st1,
                        Res::Val(
                            AccessorView::Attr {
                                obj: Box::new(obj),
                                name: a.name.symbol,
                                t: TyView::ASTOmitted,
                            },
                        ),
                    )
                },
                _ => (st1, r.stop()),
            }
        },
        _ => (st, Res::Unsupported),
    }
}

pub open spec fn lower_bin(st: State, bin: BinOp) -> (State, Res<BinOpView>)
    decreases bin,
{
    let (st1, r1) = lower_expr(st, *bin.lhs, true);
    match r1 {
        Res::Val(lhs) => {
            let (st2, r2) = lower_expr(st1, *bin.rhs, true);
            match r2 {
                Res::Val(rhs) => {
                    let (st3, r3) = ask_callee(
                        st2,
                        QueryView::BinOpT { op: bin.op, lhs, rhs, namespace: st2.name() },
                    );
                    match r3 {
                        Res::Val(sig_t) => (
                            st3,
                            Res::Val(
                                BinOpView {
                                    op: bin.op,
                                    lhs: Box::new(lhs),
                                    rhs: Box::new(rhs),
                                    sig_t,
                                },
                            ),
                        ),
                        _ => (st3, r3.stop()),
                    }
                },
                _ => (st2, r2.stop()),
            }
        },
        _ => (st1, r1.stop()),
    }
}

pub open spec fn lower_unary(st: State, unary: UnaryOp) -> (State, Res<UnaryOpView>)
    decreases unary,
{
    let (st1, r1) = lower_expr(st, *unary.expr, true);
    match r1 {
        Res::Val(expr) => {
            let (st2, r2) = ask_callee(
                st1,
                QueryView::UnaryOpT { op: unary.op, expr, namespace: st1.name() },
            );
            match r2 {
                Res::Val(sig_t) => (
                    st2,
                    Res::Val(UnaryOpView { op: unary.op, expr: Box::new(expr), sig_t }),
                ),
                _ => (st2, r2.stop()),
            }
        },
        _ => (st1, r1.stop()),
    }
}

/// The arguments come first, and then what is called, whose type is only known with them.
pub open spec fn lower_call(st: State, call: Call) -> (State, Res<CallView>)
    decreases call,
{
    let (st1, r1) = lower_pos_args(st, Seq::empty(), call.args.pos_args@, true);
    match r1 {
        Res::Val(pos_args) => {
            let (st2, r2) = lower_kw_args(st1, Seq::empty(), call.args.kw_args@);
            match r2 {
                Res::Val(kw_args) => {
                    let (st3, r3) = lower_expr(st2, *call.obj, false);
                    match r3 {
                        Res::Val(obj) => {
                            let (st4, r4) = ask_callee(
                                st3,
                                QueryView::CallT { obj, pos_args, kw_args, namespace: st3.name() },
                            );
                            match r4 {
                                Res::Val(sig_t) => (
                                    st4,
                                    Res::Val(
                                        CallView {
                                            obj: Box::new(obj),
                                            pos_args,
                                            kw_args,
                                            paren: call.args.paren,
                                            sig_t,
                                        },
                                    ),
                                ),
                                _ => (st4, r4.stop()),
                            }
                        },
                        _ => (st3, r3.stop()),
                    }
                },
                _ => (st2, r2.stop()),
            }
        },
        _ => (st1, r1.stop()),
    }
}

/// A lambda is lowered in a scope of its own, which is left whatever comes of it. Its body gives
/// it its type, so one whose body has none has no lowering.
pub open spec fn lower_lambda(st: State, lambda: Lambda) -> (State, Res<LambdaView>)
    decreases lambda,
{
    let procedural = lambda.op.kind == TokenKind::ProcArrow;
    let kind = if procedural {
        ContextKind::Proc
    } else {
        ContextKind::Func
    };
    let (st1, r1) = grow(st, lambda_name(lambda.sig@.id), kind);
    match r1 {
        Res::Val(_) => {
            let (st2, r2) = lower_in_lambda(st1, lambda);
            match r2 {
                Res::Val((body, params, bounds)) => {
                    let (st3, r3) = pop_append_errs(st2);
                    match r3 {
                        Res::Val(_) => if block_typed(body) {
                            (
                                st3,
                                Res::Val(
                                    LambdaView {
                                        id: lambda.sig@.id,
                                        params: lambda.sig@.params,
                                        op: lambda.op,
                                        body,
                                        t: lambda_t(procedural, params, block_t(body), bounds),
                                    },
                                ),
                            )
                        } else {
                            (st3, Res::Unsupported)
                        },
                        _ => (st3, r3.stop()),
                    }
                },
                _ => leave_failing(st2, r2),
            }
        },
        _ => (st1, r1.stop()),
    }
}

/// What is done in the scope of a lambda: its parameters get their types, the names of its body
/// are registered, its body is lowered, and the parameters of the scope and the bounds are asked
/// for.
pub open spec fn lower_in_lambda(st: State, lambda: Lambda) -> (
    State,
    Res<(Seq<ExprView>, Seq<ParamInfo>, TyBounds)>,
)
    decreases lambda.body,
{
    let (st1, r1) = ask_done(st, QueryView::AssignParams { params: lambda.sig@.params });
    match r1 {
        Res::Val(_) => {
            let (st2, r2) = ask_done(st1, QueryView::Preregister { block: lambda.body });
            match r2 {
                Res::Val(_) => {
                    let (st3, r3) = lower_exprs(st2, Seq::empty(), lambda.body.exprs@);
                    match r3 {
                        Res::Val(body) => match st3.reply() {
                            Some(Reply::ParamInfos(params)) => {
                                let st4 = st3.answered(QueryView::ScopeParams);
                                let query = QueryView::InstantiateTyBounds {
                                    bounds: lambda.sig@.bounds,
                                    mode: RegistrationMode::Normal,
                                };
                                match st4.reply() {
                                    Some(Reply::Bounds(Ok(bounds))) => (
                                        st4.answered(query),
                                        Res::Val((body, params@, *bounds)),
                                    ),
                                    Some(Reply::Bounds(Err(e))) => (
                                        st4.answered(query),
                                        Res::Fail(e@),
                                    ),
                                    _ => (st4, Res::Ask(query)),
                                }
                            },
                            _ => (st3, Res::Ask(QueryView::ScopeParams)),
                        },
                        _ => (st3, r3.stop()),
                    }
                },
                _ => (st2, r2.stop()),
            }
        },
        _ => (st1, r1.stop()),
    }
}

/// A definition is lowered in a scope of its own, which is left whatever comes of it. One that
/// gives no name has no lowering.
pub open spec fn lower_def(st: State, def: Def) -> (State, Res<DefView>)
    decreases def,
{
    match def.sig.name_token() {
        Some(name) => {
            let (st1, r1) = grow(st, name.content@, ContextKind::Instant);
            match r1 {
                Res::Val(_) => {
                    let (st2, r2) = match def.sig {
                        Signature::Subr(sig) => lower_subr_def(st1, sig, def.body),
                        Signature::Var(sig) => lower_var_def(st1, sig, def.body),
                    };
                    match r2 {
                        Res::Val(h) => {
                            let (st3, r3) = pop_append_errs(st2);
                            match r3 {
                                Res::Val(_) => (st3, Res::Val(h)),
                                _ => (st3, r3.stop()),
                            }
                        },
                        _ => leave_failing(st2, r2),
                    }
                },
                _ => (st1, r1.stop()),
            }
        },
        None => (st, Res::Unsupported),
    }
}

/// Checks the type of a body against the expected one, where there is one. A mismatch is
/// collected and stops nothing.
pub open spec fn check_body_t(
    st: State,
    loc: Location,
    name: Seq<char>,
    expect: Option<TyView>,
    found: TyView,
) -> (State, Res<()>) {
    match expect {
        Some(expect) => {
            let (st1, r) = return_t_check(st, loc, name, expect, found);
            match r {
                Res::Fail(e) => (st1.report(e), Res::Val(())),
                _ => (st1, r),
            }
        },
        None => (st, Res::Val(())),
    }
}

/// Has the context import a module, where a variable is defined by a call of `import`. A call is
/// only assigned to a plain name, and one of `import` says what is imported.
pub open spec fn import(st: State, pat: VarPattern, block: Seq<ExprView>) -> (State, Res<()>) {
    match (block[0], pat) {
        (ExprView::Call(call), VarPattern::VarName(name)) => if !is_import(call) {
            (st, Res::Val(()))
        } else if call.pos_args.len() > 0 {
            ask_done(st, QueryView::ImportMod { name, path: call.pos_args[0] })
        } else {
            (st, Res::Unsupported)
        },
        (ExprView::Call(_), _) => (st, Res::Unsupported),
        _ => (st, Res::Val(())),
    }
}

/// Defines a variable by a lowered body: the type of the body is checked against the expected one
/// and assigned to the variable, and a module is imported where the body says so.
pub open spec fn define_var(
    st: State,
    sig: VarSignature,
    body: DefBody,
    block: Seq<ExprView>,
    expect: Option<TyView>,
) -> (State, Res<DefView>) {
    let t = block_t(block);
    let (st1, r1) = check_body_t(
        st,
        sig.place(),
        sig.pat.name_token().unwrap().content@,
        expect,
        t,
    );
    match r1 {
        Res::Val(_) => {
            let (st2, r2) = ask_done(st1, QueryView::AssignVar { sig, id: body.id, t });
            match r2 {
                Res::Val(_) => {
                    let (st3, r3) = import(st2, sig.pat, block);
                    match r3 {
                        Res::Val(_) => (
                            st3,
                            Res::Val(
                                DefView {
                                    sig: SignatureView::Var { pat: sig.pat, t },
                                    op: body.op,
                                    block,
                                    id: body.id,
                                },
                            ),
                        ),
                        _ => (st3, r3.stop()),
                    }
                },
                _ => (st2, r2.stop()),
            }
        },
        _ => (st1, r1.stop()),
    }
}

pub open spec fn lower_var_def(st: State, sig: VarSignature, body: DefBody) -> (
    State,
    Res<DefView>,
)
    decreases body,
{
    let (st1, r1) = ask_done(st, QueryView::Preregister { block: body.block });
    match r1 {
        Res::Val(_) => {
            let (st2, r2) = lower_block(st1, body.block);
            match r2 {
                Res::Val(block) => if block_typed(block) {
                    let query = QueryView::OuterVarT {
                        name: sig.pat.name_token().unwrap().content@,
                    };
                    match st2.reply() {
                        Some(Reply::OuterVarT(Some(expect))) => define_var(
                            st2.answered(query),
                            sig,
                            body,
                            block,
                            Some(expect@),
                        ),
                        Some(Reply::OuterVarT(None)) => define_var(
                            st2.answered(query),
                            sig,
                            body,
                            block,
                            None,
                        ),
                        _ => (st2, Res::Ask(query)),
                    }
                } else {
                    (st2, Res::Unsupported)
                },
                _ => (st2, r2.stop()),
            }
        },
        _ => (st1, r1.stop()),
    }
}

/// Defines a subroutine by a lowered body: the type of the body is checked against what the
/// subroutine is expected to give back, and assigned to it. There is no lowering where the body
/// has no type, or where the subroutine is not of a type that says what it gives back.
pub open spec fn define_subr(
    st: State,
    sig: SubrSignature,
    body: DefBody,
    block: Seq<ExprView>,
    sig_t: TyView,
) -> (State, Res<DefView>) {
    if !block_typed(block) || sig_t.return_t() is None {
        (st, Res::Unsupported)
    } else {
        let t = block_t(block);
        let (st1, r1) = check_body_t(st, sig.place(), sig.name.content@, sig_t.return_t(), t);
        match r1 {
            Res::Val(_) => {
                let (st2, r2) = ask_done(st1, QueryView::AssignSubr { sig, id: body.id, t });
                match r2 {
                    Res::Val(_) => (
                        st2,
                        Res::Val(
                            DefView {
                                sig: SignatureView::Subr {
                                    name: sig.name,
                                    params: sig.params,
                                    sig_t,
                                },
                                op: body.op,
                                block,
                                id: body.id,
                            },
                        ),
                    ),
                    _ => (st2, r2.stop()),
                }
            },
            _ => (st1, r1.stop()),
        }
    }
}

pub open spec fn lower_subr_def(st: State, sig: SubrSignature, body: DefBody) -> (
    State,
    Res<DefView>,
)
    decreases body,
{
    let query = QueryView::OuterSubrT { name: sig.name.content@ };
    match st.reply() {
        Some(Reply::OuterSubrT(sig_t)) => {
            let (st1, r1) = ask_done(
                st.answered(query),
                QueryView::AssignParams { params: sig.params },
            );
            match r1 {
                Res::Val(_) => {
                    let (st2, r2) = ask_done(st1, QueryView::Preregister { block: body.block });
                    match r2 {
                        Res::Val(_) => {
                            let (st3, r3) = lower_block(st2, body.block);
                            match r3 {
                                Res::Val(block) => define_subr(st3, sig, body, block, sig_t@),
                                _ => (st3, r3.stop()),
                            }
                        },
                        _ => (st2, r2.stop()),
                    }
                },
                _ => (st1, r1.stop()),
            }
        },
        _ => (st, Res::Ask(query)),
    }
}

/// Lowers the expressions of a module that are left, after those that are lowered. An error, and
/// a value that goes unused, is collected, and lowering goes on with the next expression. Whether
/// a value goes unused is told by its type.
pub open spec fn lower_chunks(
    st: State,
    done: Seq<ExprView>,
    chunks: Seq<Chunk>,
    mode: Seq<char>,
    lang: Language,
) -> (State, Res<Seq<ExprView>>)
    decreases chunks.len(),
{
    if chunks.len() == 0 {
        (st, Res::Val(done))
    } else {
        let (st1, r) = lower_expr(st, chunks[0].expr, true);
        let rest = chunks.drop_first();
        match r {
            Res::Val(h) => if mode != "eval"@ && !typed(h) {
                (st1, Res::Unsupported)
            } else if unused(h, mode) {
                lower_chunks(
                    st1.report(unused_error(st1.name(), chunks[0].loc, lang)),
                    done,
                    rest,
                    mode,
                    lang,
                )
            } else {
                lower_chunks(st1, done.push(h), rest, mode, lang)
            },
            Res::Fail(e) => lower_chunks(st1.report(e), done, rest, mode, lang),
            _ => (st1, r.stop()),
        }
    }
}

/// What lowering a module comes to: a query that no reply answers yet, the end, or something that
/// has no lowering.
pub enum Outcome {
    Ask(QueryView),
    Unsupported,
    /// The typed tree and the warnings, or the errors.
    Done(Result<(HIRView, Seq<LowerErrorView>), Seq<LowerErrorView>>),
}

/// Lowers a module. The names it defines are registered, its expressions are lowered, and the
/// type variables of the tree are replaced. It succeeds if no error was collected; the errors
/// collected, or else the warnings, are handed out.
pub open spec fn lower(
    st: State,
    ast: AST,
    mode: Seq<char>,
    lang: Language,
    warns: Seq<LowerErrorView>,
) -> (State, Outcome) {
    let (st1, r1) = ask_done(st, QueryView::PreregisterModule { module: ast.module });
    match r1 {
        Res::Val(_) => {
            let (st2, r2) = lower_chunks(st1, Seq::empty(), ast.module.chunks@, mode, lang);
            match r2 {
                Res::Val(exprs) => {
                    let query = QueryView::DerefToplevel {
                        hir: HIRView { name: ast.name@, module: exprs },
                    };
                    match st2.reply() {
                        Some(Reply::Derefed(Ok(hir))) => {
                            let st3 = st2.answered(query);
                            if st3.errs.len() == 0 {
                                (st3, Outcome::Done(Ok((hir@, warns))))
                            } else {
                                (
                                    State { errs: Seq::empty(), ..st3 },
                                    Outcome::Done(Err(st3.errs)),
                                )
                            }
                        },
                        Some(Reply::Derefed(Err(e))) => (
                            st2.answered(query),
                            Outcome::Done(Err(seq![e@])),
                        ),
                        _ => (st2, Outcome::Ask(query)),
                    }
                },
                Res::Fail(e) => (st2, Outcome::Done(Err(seq![e]))),
                Res::Ask(q) => (st2, Outcome::Ask(q)),
                Res::Unsupported => (st2, Outcome::Unsupported),
            }
        },
        Res::Fail(e) => (st1, Outcome::Done(Err(seq![e]))),
        Res::Ask(q) => (st1, Outcome::Ask(q)),
        Res::Unsupported => (st1, Outcome::Unsupported),
    }
}

} // verus!
