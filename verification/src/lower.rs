//! The lowerer.
use std::rc::Rc;
use vstd::prelude::*;

use crate::ast::{
    supported_module, Accessor, Array, BinOp, Block, Call, Chunk, Def, DefBody, Expr, KwArg,
    Lambda, PosArg, Signature, SubrSignature, UnaryOp, VarPattern, VarSignature, AST,
};
use crate::context::{
    all_callable, module_opening, Builtins, Context, ContextKind, Dialogue, Opening, OpeningView,
    ParamInfo, Query, QueryView, RegistrationMode, Reply, Scope, ScopeView, State, Visibility,
    TOP_LEVEL,
};
use crate::error::{
    dup_opt_str, Language, Location, LowerError, LowerErrorView, LowerErrors, LowerWarnings,
};
use crate::hir;
use crate::outside::{no_bounds, TyBounds};
use crate::proofs::{
    lemma_block_end, lemma_chunks_end, lemma_expr_end, lemma_subr_def_end, lemma_var_def_end,
};
use crate::semantics;
use crate::semantics::{Outcome, Res, TYPE_MISMATCH_ERRNO, UNUSED_VALUE_ERRNO};
use crate::support::lemma_supported_module;
use crate::text::{same_text, write_lambda_name};
use crate::token::dup_paren;
use crate::ty::{opt_str_view, param_tys_view, ParamTy, ParamTyView, Ty};

verus! {

/// Why a step of lowering stops: an error, a query that no reply answers yet, or something that
/// has no lowering.
#[derive(Debug, PartialEq, Eq)]
pub enum Stop<'a> {
    Fail(LowerError),
    Ask(Query<'a>),
    Unsupported,
}

/// A stop, in the place of a value.
pub open spec fn stopped<T>(stop: Stop) -> Res<T> {
    match stop {
        Stop::Fail(e) => Res::Fail(e@),
        Stop::Ask(q) => Res::Ask(q@),
        Stop::Unsupported => Res::Unsupported,
    }
}

/// The outcome of a step of lowering.
pub open spec fn outcome<T: View>(r: Result<T, Stop>) -> Res<T::V> {
    match r {
        Ok(v) => Res::Val(v@),
        Err(stop) => stopped(stop),
    }
}

/// The parameter types of those parameters that have a default, or of those that have none, in
/// their order.
fn param_tys(params: &Vec<ParamInfo>, has_default: bool) -> (tys: Vec<ParamTy>)
    ensures
        param_tys_view(tys@) == semantics::param_tys(params@, has_default),
{
    let ghost keep = |p: ParamInfo| p.has_default == has_default;
    let ghost ty = |p: ParamInfo| ParamTyView { name: opt_str_view(p.name), ty: p.t@ };
    let mut tys: Vec<ParamTy> = Vec::new();
    let mut i: usize = 0;
    proof {
        reveal(Seq::filter);
        assert(param_tys_view(tys@) =~= params@.take(0).filter(keep).map_values(ty));
    }
    while i < params.len()
        invariant
            i <= params.len(),
            keep == (|p: ParamInfo| p.has_default == has_default),
            ty == (|p: ParamInfo| ParamTyView { name: opt_str_view(p.name), ty: p.t@ }),
            param_tys_view(tys@) == params@.take(i as int).filter(keep).map_values(ty),
        decreases params.len() - i,
    {
        let ghost before = params@.take(i as int);
        let ghost after = params@.take(i + 1);
        proof {
            reveal(Seq::filter);
            assert(after.drop_last() =~= before);
            assert(after.last() == params@[i as int]);
        }
        if params[i].has_default == has_default {
            let param = ParamTy { name: dup_opt_str(&params[i].name), ty: params[i].t.clone() };
            assert(tys@.push(param).drop_last() =~= tys@);
            assert(param@ == ty(params@[i as int]));
            tys.push(param);
            assert(after.filter(keep) == before.filter(keep).push(params@[i as int]));
            assert(param_tys_view(tys@) =~= after.filter(keep).map_values(ty));
        }
        i = i + 1;
    }
    assert(params@.take(i as int) =~= params@);
    tys
}

/// The type of a lambda, from the parameters of its scope, the type of its body and its bounds.
fn lambda_ty(
    is_procedural: bool,
    params: &Vec<ParamInfo>,
    body_t: Rc<Ty>,
    bounds: Rc<TyBounds>,
) -> (t: Ty)
    ensures
        t@ == semantics::lambda_t(is_procedural, params@, body_t@, *bounds),
{
    let non_default_params = param_tys(params, true);
    let default_params = param_tys(params, false);
    let t = if is_procedural {
        Ty::proc(non_default_params, default_params, body_t)
    } else {
        Ty::func(non_default_params, default_params, body_t)
    };
    if no_bounds(&bounds) {
        t
    } else {
        Ty::quantified(t, bounds)
    }
}

/// Checks the types of a syntax tree and lowers it into a typed tree.
#[derive(Debug)]
pub struct ASTLowerer {
    pub(crate) ctx: Context,
    errs: LowerErrors,
    warns: LowerWarnings,
    lang: Language,
}

/// A lowerer: the scopes that it is in and what they stand in, the errors and warnings that it has
/// collected, and the language of its messages.
pub struct ASTLowererView {
    pub scopes: Seq<ScopeView>,
    pub outer: Option<Builtins>,
    pub errs: Seq<LowerErrorView>,
    pub warns: Seq<LowerErrorView>,
    pub lang: Language,
}

impl View for ASTLowerer {
    type V = ASTLowererView;

    closed spec fn view(&self) -> ASTLowererView {
        ASTLowererView {
            scopes: self.ctx@.scopes,
            outer: self.ctx@.outer,
            errs: self.errs@,
            warns: self.warns@,
            lang: self.lang,
        }
    }
}

impl ASTLowererView {
    /// What lowering has come to, with a dialogue.
    pub open spec fn state(self, d: Dialogue) -> State {
        State { scopes: self.scopes, errs: self.errs, pending: d.pending(), asked: d.asked@ }
    }

    /// What the context is to be opened with: the first scope, and what that stands in.
    pub open spec fn opening(self) -> OpeningView {
        OpeningView { scope: self.scopes[0], outer: self.outer }
    }

    /// What a lowerer starts from when there are replies of the context.
    pub open spec fn start(self, replies: Seq<Reply>) -> State {
        State { scopes: self.scopes, errs: self.errs, pending: replies, asked: Seq::empty() }
    }

    /// What lowering a module comes to.
    pub open spec fn lower(self, ast: AST, mode: Seq<char>, replies: Seq<Reply>) -> (
        State,
        Outcome,
    ) {
        semantics::lower(self.start(replies), ast, mode, self.lang, self.warns)
    }

    /// A lowerer after it has come to something. While a query is to be answered, and where there
    /// is no lowering, it stays as it is. The warnings that are handed out are no longer there.
    pub open spec fn after(self, end: (State, Outcome)) -> ASTLowererView {
        match end.1 {
            Outcome::Ask(_) => self,
            Outcome::Unsupported => self,
            Outcome::Done(Ok(_)) => ASTLowererView {
                scopes: end.0.scopes,
                errs: end.0.errs,
                warns: Seq::empty(),
                ..self
            },
            Outcome::Done(Err(_)) => ASTLowererView {
                scopes: end.0.scopes,
                errs: end.0.errs,
                ..self
            },
        }
    }
}

/// How far lowering a module has come: to a query that no reply answers yet, or to the end.
#[derive(Debug, PartialEq, Eq)]
pub enum Step<'a> {
    Ask(Query<'a>),
    /// The typed tree and the warnings, or the errors.
    Done(Result<(Rc<hir::HIR>, LowerWarnings), LowerErrors>),
}

impl<'a> View for Step<'a> {
    type V = Outcome;

    open spec fn view(&self) -> Outcome {
        match *self {
            Step::Ask(q) => Outcome::Ask(q@),
            Step::Done(Ok((hir, warns))) => Outcome::Done(Ok((hir@, warns@))),
            Step::Done(Err(errs)) => Outcome::Done(Err(errs@)),
        }
    }
}

impl ASTLowerer {
    /// A lowerer is always in some scope.
    pub open spec fn wf(self) -> bool {
        self@.scopes.len() > 0
    }

    /// What no step of lowering changes.
    pub open spec fn same_setting(self, other: ASTLowerer) -> bool {
        &&& self@.outer == other@.outer
        &&& self@.warns == other@.warns
        &&& self@.lang == other@.lang
    }

    /// A lowerer in the scope of a module inside the builtins, which has found nothing yet.
    pub fn new() -> (lowerer: ASTLowerer)
        ensures
            lowerer.wf(),
            lowerer@ == (ASTLowererView {
                scopes: seq![
                    ScopeView { name: "<module>"@, kind: ContextKind::Module, level: TOP_LEVEL },
                ],
                outer: Some(Builtins),
                errs: Seq::empty(),
                warns: Seq::empty(),
                lang: Language::English,
            }),
            lowerer@.opening() == module_opening(),
    {
        ASTLowerer::with_language(Language::English)
    }

    /// A lowerer as [`ASTLowerer::new`] makes it, with its messages in a language.
    pub fn with_language(lang: Language) -> (lowerer: ASTLowerer)
        ensures
            lowerer.wf(),
            lowerer@ == (ASTLowererView {
                scopes: seq![
                    ScopeView { name: "<module>"@, kind: ContextKind::Module, level: TOP_LEVEL },
                ],
                outer: Some(Builtins),
                errs: Seq::empty(),
                warns: Seq::empty(),
                lang,
            }),
            lowerer@.opening() == module_opening(),
    {
        ASTLowerer {
            ctx: Context::new(
                "<module>".to_owned(),
                ContextKind::Module,
                Some(Builtins),
                TOP_LEVEL,
            ),
            errs: LowerErrors::empty(),
            warns: LowerWarnings::empty(),
            lang,
        }
    }

    /// What the context is to be opened with before the first module is lowered.
    pub fn opening(&self) -> (opening: Opening)
        requires
            self.wf(),
        ensures
            opening@ == self@.opening(),
    {
        Opening { scope: self.ctx.scopes[0].dup(), outer: self.ctx.outer }
    }

    /// Checks the type found for a name against the expected one.
    fn return_t_check<'a>(
        &self,
        d: &mut Dialogue,
        loc: Location,
        name: &str,
        expect: &Rc<Ty>,
        found: &Rc<Ty>,
    ) -> (r: Result<(), Stop<'a>>)
        requires
            old(d).wf(),
        ensures
            final(d).wf(),
            (self@.state(*final(d)), outcome(r)) == semantics::return_t_check(
                self@.state(*old(d)),
                loc,
                name@,
                expect@,
                found@,
            ),
    {
        let query = Ghost(QueryView::Unify { expect: expect@, found: found@, loc });
        match d.take_done(query) {
            Some(Ok(_)) => Ok(()),
            Some(Err(_)) => match d.peek() {
                Some(Reply::CausedBy(caused_by)) => {
                    d.answered(Ghost(QueryView::CausedBy));
                    Err(
                        Stop::Fail(
                            LowerError::TypeMismatch {
                                errno: TYPE_MISMATCH_ERRNO,
                                loc,
                                caused_by: caused_by.clone(),
                                name: name.to_owned(),
                                expect: expect.clone(),
                                found: found.clone(),
                            },
                        ),
                    )
                },
                _ => Err(Stop::Ask(Query::CausedBy)),
            },
            None => Err(
                Stop::Ask(Query::Unify { expect: expect.clone(), found: found.clone(), loc }),
            ),
        }
    }

    /// Hands an expression of a module back, unless its value goes unused.
    fn use_check(&self, expr: hir::Expr, loc: Location, mode: &str) -> (r: Result<
        hir::Expr,
        LowerError,
    >)
        requires
            self.wf(),
            mode@ == "eval"@ || hir::typed(expr@),
        ensures
            match r {
                Ok(e) => !semantics::unused(expr@, mode@) && e == expr,
                Err(e) => semantics::unused(expr@, mode@) && e@ == semantics::unused_error(
                    self@.scopes.last().name,
                    loc,
                    self@.lang,
                ),
            },
    {
        if !same_text(mode, "eval") && !expr.t().is_nonelike() {
            Err(
                LowerError::Syntax {
                    errno: UNUSED_VALUE_ERRNO,
                    loc,
                    caused_by: self.ctx.name(),
                    desc: self.lang.unused_value_desc(),
                    hint: Some(self.lang.unused_value_hint()),
                },
            )
        } else {
            Ok(expr)
        }
    }

    /// Enters a private scope, unless the context refuses.
    fn grow<'a>(&mut self, d: &mut Dialogue, name: String, kind: ContextKind) -> (r: Result<
        (),
        Stop<'a>,
    >)
        requires
            old(d).wf(),
        ensures
            final(d).wf(),
            final(self).same_setting(*old(self)),
            (final(self)@.state(*final(d)), outcome(r)) == semantics::grow(
                old(self)@.state(*old(d)),
                name@,
                kind,
            ),
    {
        let query = Ghost(QueryView::Grow { name: name@, kind, vis: Visibility::Private });
        match d.peek() {
            Some(Reply::Grown(Ok(made))) => {
                d.answered(query);
                self.ctx.push(Scope { name: made.name.clone(), kind, level: made.level });
                Ok(())
            },
            Some(Reply::Grown(Err(e))) => {
                d.answered(query);
                Err(Stop::Fail(e.dup()))
            },
            _ => Err(Stop::Ask(Query::Grow { name, kind, vis: Visibility::Private })),
        }
    }

    /// Leaves the current scope and collects the errors that the context has of it.
    fn pop_append_errs<'a>(&mut self, d: &mut Dialogue) -> (r: Result<(), Stop<'a>>)
        requires
            old(d).wf(),
            old(self).wf(),
        ensures
            final(d).wf(),
            final(self).same_setting(*old(self)),
            (final(self)@.state(*final(d)), outcome(r)) == semantics::pop_append_errs(
                old(self)@.state(*old(d)),
            ),
    {
        match d.peek() {
            Some(Reply::Popped(Ok(_))) => {
                d.answered(Ghost(QueryView::Pop));
                self.ctx.pop();
                Ok(())
            },
            Some(Reply::Popped(Err(errs))) => {
                d.answered(Ghost(QueryView::Pop));
                self.ctx.pop();
                self.errs.append(errs);
                Ok(())
            },
            _ => Err(Stop::Ask(Query::Pop)),
        }
    }

    /// Leaves the current scope because of an error, which stays the outcome.
    fn leave_failing<'a>(&mut self, d: &mut Dialogue, stop: Stop<'a>) -> (r: Stop<'a>)
        requires
            old(d).wf(),
            stop is Fail ==> old(self).wf(),
        ensures
            final(d).wf(),
            final(self).same_setting(*old(self)),
            (final(self)@.state(*final(d)), stopped::<()>(r)) == semantics::leave_failing::<(), ()>(
                old(self)@.state(*old(d)),
                stopped(stop),
            ),
    {
        match stop {
            Stop::Fail(e) => match self.pop_append_errs(d) {
                Ok(_) => Stop::Fail(e),
                Err(stop) => stop,
            },
            other => other,
        }
    }

    /// Has the context do something that it may refuse.
    fn ask_done<'a>(&self, d: &mut Dialogue, query: Query<'a>) -> (r: Result<(), Stop<'a>>)
        requires
            old(d).wf(),
        ensures
            final(d).wf(),
            (self@.state(*final(d)), outcome(r)) == semantics::ask_done(
                self@.state(*old(d)),
                query@,
            ),
    {
        match d.take_done(Ghost(query@)) {
            Some(Ok(_)) => Ok(()),
            Some(Err(e)) => Err(Stop::Fail(e)),
            None => Err(Stop::Ask(query)),
        }
    }

    /// Checks the type of a body against the expected one, where there is one. A mismatch is
    /// collected and stops nothing.
    fn check_body_t<'a>(
        &mut self,
        d: &mut Dialogue,
        loc: Location,
        name: &str,
        expect: Option<&Rc<Ty>>,
        found: &Rc<Ty>,
    ) -> (r: Result<(), Stop<'a>>)
        requires
            old(d).wf(),
        ensures
            final(d).wf(),
            final(self).same_setting(*old(self)),
            (final(self)@.state(*final(d)), outcome(r)) == semantics::check_body_t(
                old(self)@.state(*old(d)),
                loc,
                name@,
                match expect {
                    Some(expect) => Some(expect@),
                    None => None,
                },
                found@,
            ),
    {
        match expect {
            Some(expect) => match self.return_t_check(d, loc, name, expect, found) {
                Err(Stop::Fail(e)) => {
                    self.errs.push(e);
                    Ok(())
                },
                r => r,
            },
            None => Ok(()),
        }
    }

    /// Lowers positional arguments, in their order.
    #[verifier::spinoff_prover]
    #[verifier::rlimit(60)]
    fn lower_pos_args<'a>(&mut self, d: &mut Dialogue, args: &'a Vec<PosArg>, check: bool) -> (r:
        Result<Vec<hir::PosArg>, Stop<'a>>)
        requires
            old(d).wf(),
            old(self).wf(),
        ensures
            final(d).wf(),
            final(self).same_setting(*old(self)),
            (
                final(self)@.state(*final(d)),
                match r {
                    Ok(v) => Res::Val(hir::pos_args_view(v@)),
                    Err(stop) => stopped(stop),
                },
            ) == semantics::lower_pos_args(
                old(self)@.state(*old(d)),
                Seq::empty(),
                args@,
                check,
            ),
            (r is Ok || r matches Err(Stop::Fail(_))) ==> final(self)@.scopes == old(self)@.scopes,
        decreases args@,
    {
        let ghost st0 = self@.state(*d);
        let mut hir_args: Vec<hir::PosArg> = Vec::new();
        let mut i: usize = 0;
        assert(args@.skip(0) =~= args@);
        while i < args.len()
            invariant
                i <= args.len(),
                d.wf(),
                self.wf(),
                st0 == old(self)@.state(*old(d)),
                self.same_setting(*old(self)),
                self@.scopes == old(self)@.scopes,
                    semantics::lower_pos_args(st0, Seq::empty(), args@, check)
                    == semantics::lower_pos_args(
                    self@.state(*d),
                    hir::pos_args_view(hir_args@),
                    args@.skip(i as int),
                    check,
                ),
            decreases args.len() - i,
        {
            let ghost left = args@.skip(i as int);
            proof {
                assert(left[0] == args@[i as int]);
                assert(left.drop_first() =~= args@.skip(i + 1));
            }
            match self.lower_expr(d, &args[i].expr, check) {
                Ok(expr) => {
                    let arg = hir::PosArg { expr };
                    assert(hir_args@.push(arg).drop_last() =~= hir_args@);
                    hir_args.push(arg);
                },
                Err(stop) => {
                    return Err(stop);
                },
            }
            i = i + 1;
        }
        assert(args@.skip(i as int).len() == 0);
        Ok(hir_args)
    }

    /// Lowers keyword arguments, in their order.
    #[verifier::spinoff_prover]
    #[verifier::rlimit(60)]
    fn lower_kw_args<'a>(&mut self, d: &mut Dialogue, args: &'a Vec<KwArg>) -> (r: Result<
        Vec<hir::KwArg>,
        Stop<'a>,
    >)
        requires
            old(d).wf(),
            old(self).wf(),
        ensures
            final(d).wf(),
            final(self).same_setting(*old(self)),
            (
                final(self)@.state(*final(d)),
                match r {
                    Ok(v) => Res::Val(hir::kw_args_view(v@)),
                    Err(stop) => stopped(stop),
                },
            ) == semantics::lower_kw_args(old(self)@.state(*old(d)), Seq::empty(), args@),
            (r is Ok || r matches Err(Stop::Fail(_))) ==> final(self)@.scopes == old(self)@.scopes,
        decreases args@,
    {
        let ghost st0 = self@.state(*d);
        let mut hir_args: Vec<hir::KwArg> = Vec::new();
        let mut i: usize = 0;
        assert(args@.skip(0) =~= args@);
        while i < args.len()
            invariant
                i <= args.len(),
                d.wf(),
                self.wf(),
                st0 == old(self)@.state(*old(d)),
                self.same_setting(*old(self)),
                self@.scopes == old(self)@.scopes,
                    semantics::lower_kw_args(st0, Seq::empty(), args@) == semantics::lower_kw_args(
                    self@.state(*d),
                    hir::kw_args_view(hir_args@),
                    args@.skip(i as int),
                ),
            decreases args.len() - i,
        {
            let ghost left = args@.skip(i as int);
            proof {
                assert(left[0] == args@[i as int]);
                assert(left.drop_first() =~= args@.skip(i + 1));
            }
            match self.lower_expr(d, &args[i].expr, true) {
                Ok(expr) => {
                    let arg = hir::KwArg { keyword: args[i].keyword.dup(), expr };
                    assert(hir_args@.push(arg).drop_last() =~= hir_args@);
                    hir_args.push(arg);
                },
                Err(stop) => {
                    return Err(stop);
                },
            }
            i = i + 1;
        }
        assert(args@.skip(i as int).len() == 0);
        Ok(hir_args)
    }

    #[verifier::spinoff_prover]
    #[verifier::rlimit(60)]
    fn lower_array<'a>(&mut self, d: &mut Dialogue, array: &'a Array, check: bool) -> (r: Result<
        hir::Array,
        Stop<'a>,
    >)
        requires
            old(d).wf(),
            old(self).wf(),
        ensures
            final(d).wf(),
            final(self).same_setting(*old(self)),
            (final(self)@.state(*final(d)), outcome(r)) == semantics::lower_array(
                old(self)@.state(*old(d)),
                *array,
                check,
            ),
        decreases array,
    {
        let level: usize = self.ctx.level();
        let t = match d.peek() {
            Some(Reply::ArrayT(t)) => t.clone(),
            _ => {
                return Err(Stop::Ask(Query::ArrayT { level }));
            },
        };
        d.answered(Ghost(QueryView::ArrayT { level }));
        match self.lower_pos_args(d, &array.elems.pos_args, check) {
            Ok(elems) => Ok(
                hir::Array {
                    l_sqbr: array.l_sqbr.dup(),
                    r_sqbr: array.r_sqbr.dup(),
                    level,
                    t,
                    elems,
                },
            ),
            Err(stop) => Err(stop),
        }
    }

    /// Lowers an accessor. What is called in a call may only be inferred with the whole call:
    /// then `check` is off.
    fn lower_acc<'a>(&mut self, d: &mut Dialogue, acc: &'a Accessor, check: bool) -> (r: Result<
        hir::Accessor,
        Stop<'a>,
    >)
        requires
            old(d).wf(),
            old(self).wf(),
        ensures
            final(d).wf(),
            final(self).same_setting(*old(self)),
            (final(self)@.state(*final(d)), outcome(r)) == semantics::lower_acc(
                old(self)@.state(*old(d)),
                *acc,
                check,
            ),
        decreases acc,
    {
        match acc {
            Accessor::Local(n) => {
                if !check {
                    return Ok(
                        hir::Accessor::Local(
                            hir::Local {
                                name: n.symbol.dup(),
                                uniq_name: None,
                                t: Rc::new(Ty::ASTOmitted),
                            },
                        ),
                    );
                }
                let namespace = self.ctx.name();
                let query = Ghost(QueryView::VarT { symbol: n.symbol, namespace: namespace@ });
                let t = match d.peek() {
                    Some(Reply::VarT(Ok(t))) => t.clone(),
                    Some(Reply::VarT(Err(e))) => {
                        d.answered(query);
                        return Err(Stop::Fail(e.dup()));
                    },
                    _ => {
                        return Err(Stop::Ask(Query::VarT { symbol: &n.symbol, namespace }));
                    },
                };
                d.answered(query);
                match d.peek() {
                    Some(Reply::UniqObjName(name)) => {
                        d.answered(Ghost(QueryView::UniqObjName { symbol: n.symbol }));
                        Ok(
                            hir::Accessor::Local(
                                hir::Local {
                                    name: n.symbol.dup(),
                                    uniq_name: dup_opt_str(name),
                                    t,
                                },
                            ),
                        )
                    },
                    _ => Err(Stop::Ask(Query::UniqObjName { symbol: &n.symbol })),
                }
            },
            Accessor::Attr(a) => {
                let obj = match self.lower_expr(d, &a.obj, true) {
                    Ok(obj) => obj,
                    Err(stop) => {
                        return Err(stop);
                    },
                };
                if !check {
                    return Ok(
                        hir::Accessor::Attr(
                            hir::Attribute {
                                obj: Box::new(obj),
                                name: a.name.symbol.dup(),
                                t: Rc::new(Ty::ASTOmitted),
                            },
                        ),
                    );
                }
                let namespace = self.ctx.name();
                let query = Ghost(
                    QueryView::AttrT { obj: obj@, name: a.name.symbol, namespace: namespace@ },
                );
                match d.peek() {
                    Some(Reply::AttrT(Ok(t))) => {
                        d.answered(query);
                        Ok(
                            hir::Accessor::Attr(
                                hir::Attribute {
                                    obj: Box::new(obj),
                                    name: a.name.symbol.dup(),
                                    t: t.clone(),
                                },
                            ),
                        )
                    },
                    Some(Reply::AttrT(Err(e))) => {
                        d.answered(query);
                        Err(Stop::Fail(e.dup()))
                    },
                    _ => Err(Stop::Ask(Query::AttrT { obj, name: &a.name.symbol, namespace })),
                }
            },
            _ => Err(Stop::Unsupported),
        }
    }

    fn lower_bin<'a>(&mut self, d: &mut Dialogue, bin: &'a BinOp) -> (r: Result<
        hir::BinOp,
        Stop<'a>,
    >)
        requires
            old(d).wf(),
            old(self).wf(),
        ensures
            final(d).wf(),
            final(self).same_setting(*old(self)),
            (final(self)@.state(*final(d)), outcome(r)) == semantics::lower_bin(
                old(self)@.state(*old(d)),
                *bin,
            ),
        decreases bin,
    {
        let lhs = match self.lower_expr(d, &bin.lhs, true) {
            Ok(lhs) => lhs,
            Err(stop) => {
                return Err(stop);
            },
        };
        let rhs = match self.lower_expr(d, &bin.rhs, true) {
            Ok(rhs) => rhs,
            Err(stop) => {
                return Err(stop);
            },
        };
        let namespace = self.ctx.name();
        let query = Ghost(
            QueryView::BinOpT { op: bin.op, lhs: lhs@, rhs: rhs@, namespace: namespace@ },
        );
        match d.take_callee(query) {
            Some(Ok(sig_t)) => Ok(
                hir::BinOp { op: bin.op.dup(), lhs: Box::new(lhs), rhs: Box::new(rhs), sig_t },
            ),
            Some(Err(e)) => Err(Stop::Fail(e)),
            None => Err(Stop::Ask(Query::BinOpT { op: &bin.op, lhs, rhs, namespace })),
        }
    }

    fn lower_unary<'a>(&mut self, d: &mut Dialogue, unary: &'a UnaryOp) -> (r: Result<
        hir::UnaryOp,
        Stop<'a>,
    >)
        requires
            old(d).wf(),
            old(self).wf(),
        ensures
            final(d).wf(),
            final(self).same_setting(*old(self)),
            (final(self)@.state(*final(d)), outcome(r)) == semantics::lower_unary(
                old(self)@.state(*old(d)),
                *unary,
            ),
        decreases unary,
    {
        let expr = match self.lower_expr(d, &unary.expr, true) {
            Ok(expr) => expr,
            Err(stop) => {
                return Err(stop);
            },
        };
        let namespace = self.ctx.name();
        let query = Ghost(
            QueryView::UnaryOpT { op: unary.op, expr: expr@, namespace: namespace@ },
        );
        match d.take_callee(query) {
            Some(Ok(sig_t)) => Ok(
                hir::UnaryOp { op: unary.op.dup(), expr: Box::new(expr), sig_t },
            ),
            Some(Err(e)) => Err(Stop::Fail(e)),
            None => Err(Stop::Ask(Query::UnaryOpT { op: &unary.op, expr, namespace })),
        }
    }

    #[verifier::spinoff_prover]
    #[verifier::rlimit(60)]
    fn lower_call<'a>(&mut self, d: &mut Dialogue, call: &'a Call) -> (r: Result<
        hir::Call,
        Stop<'a>,
    >)
        requires
            old(d).wf(),
            old(self).wf(),
        ensures
            final(d).wf(),
            final(self).same_setting(*old(self)),
            (final(self)@.state(*final(d)), outcome(r)) == semantics::lower_call(
                old(self)@.state(*old(d)),
                *call,
            ),
        decreases call,
    {
        let pos_args = match self.lower_pos_args(d, &call.args.pos_args, true) {
            Ok(pos_args) => pos_args,
            Err(stop) => {
                return Err(stop);
            },
        };
        let kw_args = match self.lower_kw_args(d, &call.args.kw_args) {
            Ok(kw_args) => kw_args,
            Err(stop) => {
                return Err(stop);
            },
        };
        let obj = match self.lower_expr(d, &call.obj, false) {
            Ok(obj) => obj,
            Err(stop) => {
                return Err(stop);
            },
        };
        let namespace = self.ctx.name();
        let query = Ghost(
            QueryView::CallT {
                obj: obj@,
                pos_args: hir::pos_args_view(pos_args@),
                kw_args: hir::kw_args_view(kw_args@),
                namespace: namespace@,
            },
        );
        match d.take_callee(query) {
            Some(Ok(sig_t)) => {
                let args = hir::Args { pos_args, kw_args, paren: dup_paren(&call.args.paren) };
                Ok(hir::Call { obj: Box::new(obj), args, sig_t })
            },
            Some(Err(e)) => Err(Stop::Fail(e)),
            None => Err(Stop::Ask(Query::CallT { obj, pos_args, kw_args, namespace })),
        }
    }

    /// Lowers an expression. What is called in a call cannot be inferred by itself, but only with
    /// its arguments: then `check` is off.
    fn lower_expr<'a>(&mut self, d: &mut Dialogue, expr: &'a Expr, check: bool) -> (r: Result<
        hir::Expr,
        Stop<'a>,
    >)
        requires
            old(d).wf(),
            old(self).wf(),
        ensures
            final(d).wf(),
            final(self).same_setting(*old(self)),
            (final(self)@.state(*final(d)), outcome(r)) == semantics::lower_expr(
                old(self)@.state(*old(d)),
                *expr,
                check,
            ),
            (r is Ok || r matches Err(Stop::Fail(_))) ==> final(self)@.scopes == old(self)@.scopes,
        decreases expr,
    {
        proof {
            lemma_expr_end(self@.state(*d), *expr, check);
        }
        match expr {
            Expr::Lit(lit) => if lit.token.kind.writes_literal() {
                Ok(hir::Expr::Lit(hir::Literal { token: lit.token.dup() }))
            } else {
                Err(Stop::Unsupported)
            },
            Expr::Array(array) => match self.lower_array(d, array, check) {
                Ok(h) => Ok(hir::Expr::Array(h)),
                Err(stop) => Err(stop),
            },
            Expr::Accessor(acc) => match self.lower_acc(d, acc, check) {
                Ok(h) => Ok(hir::Expr::Accessor(h)),
                Err(stop) => Err(stop),
            },
            Expr::BinOp(bin) => match self.lower_bin(d, bin) {
                Ok(h) => Ok(hir::Expr::BinOp(h)),
                Err(stop) => Err(stop),
            },
            Expr::UnaryOp(unary) => match self.lower_unary(d, unary) {
                Ok(h) => Ok(hir::Expr::UnaryOp(h)),
                Err(stop) => Err(stop),
            },
            Expr::Call(call) => match self.lower_call(d, call) {
                Ok(h) => Ok(hir::Expr::Call(h)),
                Err(stop) => Err(stop),
            },
            Expr::Lambda(lambda) => match self.lower_lambda(d, lambda) {
                Ok(h) => Ok(hir::Expr::Lambda(h)),
                Err(stop) => Err(stop),
            },
            Expr::Def(def) => match self.lower_def(d, def) {
                Ok(h) => Ok(hir::Expr::Def(h)),
                Err(stop) => Err(stop),
            },
            Expr::Dict(_) => Err(Stop::Unsupported),
            Expr::Decl(_) => Err(Stop::Unsupported),
        }
    }

    #[verifier::spinoff_prover]
    #[verifier::rlimit(60)]
    fn lower_block<'a>(&mut self, d: &mut Dialogue, block: &'a Block) -> (r: Result<
        hir::Block,
        Stop<'a>,
    >)
        requires
            old(d).wf(),
            old(self).wf(),
        ensures
            final(d).wf(),
            final(self).same_setting(*old(self)),
            (final(self)@.state(*final(d)), outcome(r)) == semantics::lower_block(
                old(self)@.state(*old(d)),
                *block,
            ),
            (r is Ok || r matches Err(Stop::Fail(_))) ==> final(self)@.scopes == old(self)@.scopes,
        decreases block.exprs@,
    {
        let ghost st0 = self@.state(*d);
        let ghost all = block.exprs@;
        let mut exprs: Vec<hir::Expr> = Vec::new();
        let mut i: usize = 0;
        assert(all.skip(0) =~= all);
        while i < block.exprs.len()
            invariant
                i <= block.exprs.len(),
                d.wf(),
                self.wf(),
                st0 == old(self)@.state(*old(d)),
                self.same_setting(*old(self)),
                self@.scopes == old(self)@.scopes,
                all == block.exprs@,
                    semantics::lower_exprs(st0, Seq::empty(), all) == semantics::lower_exprs(
                    self@.state(*d),
                    hir::exprs_view(exprs@),
                    all.skip(i as int),
                ),
            decreases block.exprs.len() - i,
        {
            let ghost left = all.skip(i as int);
            proof {
                assert(left[0] == all[i as int]);
                assert(left.drop_first() =~= all.skip(i + 1));
            }
            match self.lower_expr(d, &block.exprs[i], true) {
                Ok(expr) => {
                    assert(exprs@.push(expr).drop_last() =~= exprs@);
                    exprs.push(expr);
                },
                Err(stop) => {
                    return Err(stop);
                },
            }
            i = i + 1;
        }
        proof {
            assert(all.skip(i as int).len() == 0);
            lemma_block_end(st0, *block);
        }
        Ok(hir::Block { exprs })
    }

    /// Does what is done in the scope of a lambda, and gives the lowered body, the parameters of
    /// the scope and the bounds.
    #[verifier::spinoff_prover]
    #[verifier::rlimit(60)]
    fn lower_in_lambda<'a, 'r>(&mut self, d: &mut Dialogue<'r>, lambda: &'a Lambda) -> (r: Result<
        (hir::Block, &'r Vec<ParamInfo>, Rc<TyBounds>),
        Stop<'a>,
    >)
        requires
            old(d).wf(),
            old(self).wf(),
        ensures
            final(d).wf(),
            final(self).same_setting(*old(self)),
            (
                final(self)@.state(*final(d)),
                match r {
                    Ok((body, params, bounds)) => Res::Val((body@, params@, *bounds)),
                    Err(stop) => stopped(stop),
                },
            ) == semantics::lower_in_lambda(old(self)@.state(*old(d)), *lambda),
            (r is Ok || r matches Err(Stop::Fail(_))) ==> final(self)@.scopes == old(self)@.scopes,
        decreases lambda.body,
    {
        match self.ask_done(d, Query::AssignParams { params: lambda.sig.params() }) {
            Ok(_) => {},
            Err(stop) => {
                return Err(stop);
            },
        }
        match self.ask_done(d, Query::Preregister { block: &lambda.body }) {
            Ok(_) => {},
            Err(stop) => {
                return Err(stop);
            },
        }
        let body = match self.lower_block(d, &lambda.body) {
            Ok(body) => body,
            Err(stop) => {
                return Err(stop);
            },
        };
        let params = match d.peek() {
            Some(Reply::ParamInfos(params)) => params,
            _ => {
                return Err(Stop::Ask(Query::ScopeParams));
            },
        };
        d.answered(Ghost(QueryView::ScopeParams));
        let mode = RegistrationMode::Normal;
        let query = Ghost(QueryView::InstantiateTyBounds { bounds: lambda.sig@.bounds, mode });
        match d.peek() {
            Some(Reply::Bounds(Ok(bounds))) => {
                d.answered(query);
                Ok((body, params, bounds.clone()))
            },
            Some(Reply::Bounds(Err(e))) => {
                d.answered(query);
                Err(Stop::Fail(e.dup()))
            },
            _ => Err(Stop::Ask(Query::InstantiateTyBounds { bounds: lambda.sig.bounds(), mode })),
        }
    }

    #[verifier::spinoff_prover]
    #[verifier::rlimit(60)]
    fn lower_lambda<'a>(&mut self, d: &mut Dialogue, lambda: &'a Lambda) -> (r: Result<
        hir::Lambda,
        Stop<'a>,
    >)
        requires
            old(d).wf(),
            old(self).wf(),
        ensures
            final(d).wf(),
            final(self).same_setting(*old(self)),
            (final(self)@.state(*final(d)), outcome(r)) == semantics::lower_lambda(
                old(self)@.state(*old(d)),
                *lambda,
            ),
            r matches Ok(h) ==> h.id == lambda.sig@.id && lambda.sig@.hashed(),
        decreases lambda,
    {
        let is_procedural = lambda.is_procedural();
        let name = write_lambda_name(lambda.sig.id());
        let kind = if is_procedural {
            ContextKind::Proc
        } else {
            ContextKind::Func
        };
        match self.grow(d, name, kind) {
            Ok(_) => {},
            Err(stop) => {
                return Err(stop);
            },
        }
        let (body, params, bounds) = match self.lower_in_lambda(d, lambda) {
            Ok(done) => done,
            Err(stop) => {
                return Err(self.leave_failing(d, stop));
            },
        };
        match self.pop_append_errs(d) {
            Ok(_) => {},
            Err(stop) => {
                return Err(stop);
            },
        }
        if !body.has_t() {
            return Err(Stop::Unsupported);
        }
        let t = lambda_ty(is_procedural, params, body.t(), bounds);
        Ok(
            hir::Lambda {
                id: lambda.sig.id(),
                params: lambda.sig.params().clone(),
                op: lambda.op.dup(),
                body,
                t: Rc::new(t),
            },
        )
    }

    #[verifier::spinoff_prover]
    #[verifier::rlimit(60)]
    fn lower_def<'a>(&mut self, d: &mut Dialogue, def: &'a Def) -> (r: Result<hir::Def, Stop<'a>>)
        requires
            old(d).wf(),
            old(self).wf(),
        ensures
            final(d).wf(),
            final(self).same_setting(*old(self)),
            (final(self)@.state(*final(d)), outcome(r)) == semantics::lower_def(
                old(self)@.state(*old(d)),
                *def,
            ),
        decreases def,
    {
        let name = match def.sig.name() {
            Some(name) => name,
            None => {
                return Err(Stop::Unsupported);
            },
        };
        match self.grow(d, name.clone(), ContextKind::Instant) {
            Ok(_) => {},
            Err(stop) => {
                return Err(stop);
            },
        }
        let res = match &def.sig {
            Signature::Subr(sig) => self.lower_subr_def(d, sig, &def.body),
            Signature::Var(sig) => self.lower_var_def(d, sig, &def.body),
        };
        match res {
            Ok(h) => match self.pop_append_errs(d) {
                Ok(_) => Ok(h),
                Err(stop) => Err(stop),
            },
            Err(stop) => Err(self.leave_failing(d, stop)),
        }
    }

    #[verifier::spinoff_prover]
    #[verifier::rlimit(60)]
    fn lower_var_def<'a>(
        &mut self,
        d: &mut Dialogue,
        sig: &'a VarSignature,
        body: &'a DefBody,
    ) -> (r: Result<hir::Def, Stop<'a>>)
        requires
            old(d).wf(),
            old(self).wf(),
            sig.pat.name_token() is Some,
        ensures
            final(d).wf(),
            final(self).same_setting(*old(self)),
            (final(self)@.state(*final(d)), outcome(r)) == semantics::lower_var_def(
                old(self)@.state(*old(d)),
                *sig,
                *body,
            ),
            (r is Ok || r matches Err(Stop::Fail(_))) ==> final(self)@.scopes == old(self)@.scopes,
        decreases body,
    {
        proof {
            lemma_var_def_end(self@.state(*d), *sig, *body);
        }
        match self.ask_done(d, Query::Preregister { block: &body.block }) {
            Ok(_) => {},
            Err(stop) => {
                return Err(stop);
            },
        }
        let block = match self.lower_block(d, &body.block) {
            Ok(block) => block,
            Err(stop) => {
                return Err(stop);
            },
        };
        if !block.has_t() {
            return Err(Stop::Unsupported);
        }
        let found_body_t = block.t();
        let name = sig.pat.inspect().unwrap();
        let expect_body_t = match d.peek() {
            Some(Reply::OuterVarT(t)) => t.as_ref(),
            _ => {
                return Err(Stop::Ask(Query::OuterVarT { name }));
            },
        };
        d.answered(Ghost(QueryView::OuterVarT { name: name@ }));
        match self.check_body_t(d, sig.loc(), name.as_str(), expect_body_t, &found_body_t) {
            Ok(_) => {},
            Err(stop) => {
                return Err(stop);
            },
        }
        match self.ask_done(d, Query::AssignVar { sig, id: body.id, t: found_body_t.clone() }) {
            Ok(_) => {},
            Err(stop) => {
                return Err(stop);
            },
        }
        let block = match self.import(d, &sig.pat, block) {
            Ok(block) => block,
            Err(stop) => {
                return Err(stop);
            },
        };
        let sig = hir::VarSignature { pat: sig.pat.dup(), t: found_body_t };
        let body = hir::DefBody { op: body.op.dup(), block, id: body.id };
        Ok(hir::Def { sig: hir::Signature::Var(sig), body })
    }

    /// Has the context import a module, where the variable is defined by a call of `import`. The
    /// block is handed back.
    fn import<'a>(&self, d: &mut Dialogue, pat: &'a VarPattern, block: hir::Block) -> (r: Result<
        hir::Block,
        Stop<'a>,
    >)
        requires
            old(d).wf(),
            block@.len() > 0,
        ensures
            final(d).wf(),
            (
                self@.state(*final(d)),
                match r {
                    Ok(_) => Res::Val(()),
                    Err(stop) => stopped(stop),
                },
            ) == semantics::import(self@.state(*old(d)), *pat, block@),
            r matches Ok(b) ==> b == block,
    {
        proof {
            hir::lemma_exprs_view(block.exprs@);
            assert(block@[0] == hir::expr_view(block.exprs@[0]));
        }
        let (name, query) = match (&block.exprs[0], pat) {
            (hir::Expr::Call(call), VarPattern::VarName(name)) => {
                proof {
                    assert(block@[0] == hir::ExprView::Call(call@));
                    hir::lemma_pos_args_view(call.args.pos_args@);
                }
                if !call.is_import_call() {
                    return Ok(block);
                }
                if call.args.pos_args.len() == 0 {
                    return Err(Stop::Unsupported);
                }
                (name, Ghost(QueryView::ImportMod { name: *name, path: call@.pos_args[0] }))
            },
            (hir::Expr::Call(_), _) => {
                return Err(Stop::Unsupported);
            },
            _ => {
                return Ok(block);
            },
        };
        match d.take_done(query) {
            Some(Ok(_)) => Ok(block),
            Some(Err(e)) => Err(Stop::Fail(e)),
            None => {
                let mut exprs = block.exprs;
                match exprs.remove(0) {
                    hir::Expr::Call(call) => {
                        let mut pos_args = call.args.pos_args;
                        assert(hir::pos_args_view(pos_args@)[0] == hir::expr_view(
                            pos_args@[0].expr,
                        ));
                        let path = pos_args.remove(0).expr;
                        Err(Stop::Ask(Query::ImportMod { name, path }))
                    },
                    _ => {
                        assert(false);
                        Err(Stop::Unsupported)
                    },
                }
            },
        }
    }

    // While this runs the current scope is that of the subroutine, and what is defined belongs to
    // the scope around it.
    #[verifier::spinoff_prover]
    #[verifier::rlimit(60)]
    fn lower_subr_def<'a>(
        &mut self,
        d: &mut Dialogue,
        sig: &'a SubrSignature,
        body: &'a DefBody,
    ) -> (r: Result<hir::Def, Stop<'a>>)
        requires
            old(d).wf(),
            old(self).wf(),
        ensures
            final(d).wf(),
            final(self).same_setting(*old(self)),
            (final(self)@.state(*final(d)), outcome(r)) == semantics::lower_subr_def(
                old(self)@.state(*old(d)),
                *sig,
                *body,
            ),
            (r is Ok || r matches Err(Stop::Fail(_))) ==> final(self)@.scopes == old(self)@.scopes,
        decreases body,
    {
        proof {
            lemma_subr_def_end(self@.state(*d), *sig, *body);
        }
        let sig_t = match d.peek() {
            Some(Reply::OuterSubrT(t)) => t.clone(),
            _ => {
                return Err(Stop::Ask(Query::OuterSubrT { name: &sig.name.content }));
            },
        };
        d.answered(Ghost(QueryView::OuterSubrT { name: sig.name.content@ }));
        match self.ask_done(d, Query::AssignParams { params: &sig.params }) {
            Ok(_) => {},
            Err(stop) => {
                return Err(stop);
            },
        }
        match self.ask_done(d, Query::Preregister { block: &body.block }) {
            Ok(_) => {},
            Err(stop) => {
                return Err(stop);
            },
        }
        let block = match self.lower_block(d, &body.block) {
            Ok(block) => block,
            Err(stop) => {
                return Err(stop);
            },
        };
        if !block.has_t() {
            return Err(Stop::Unsupported);
        }
        let found_body_t = block.t();
        let expect_body_t = match sig_t.return_t() {
            Some(t) => Some(t),
            None => {
                return Err(Stop::Unsupported);
            },
        };
        match self.check_body_t(
            d,
            sig.loc(),
            sig.name.content.as_str(),
            expect_body_t,
            &found_body_t,
        ) {
            Ok(_) => {},
            Err(stop) => {
                return Err(stop);
            },
        }
        match self.ask_done(d, Query::AssignSubr { sig, id: body.id, t: found_body_t }) {
            Ok(_) => {},
            Err(stop) => {
                return Err(stop);
            },
        }
        let sig = hir::SubrSignature { name: sig.name.dup(), params: sig.params.clone(), sig_t };
        let body = hir::DefBody { op: body.op.dup(), block, id: body.id };
        Ok(hir::Def { sig: hir::Signature::Subr(sig), body })
    }

    /// Lowers the expressions of a module. An error, and a value that goes unused, is collected,
    /// and lowering goes on with the next expression.
    #[verifier::spinoff_prover]
    #[verifier::rlimit(60)]
    fn lower_chunks<'a>(&mut self, d: &mut Dialogue, chunks: &'a Vec<Chunk>, mode: &str) -> (r:
        Result<hir::Module, Stop<'a>>)
        requires
            old(d).wf(),
            old(self).wf(),
        ensures
            final(d).wf(),
            final(self).same_setting(*old(self)),
            (
                final(self)@.state(*final(d)),
                outcome(r),
            ) == semantics::lower_chunks(
                old(self)@.state(*old(d)),
                Seq::empty(),
                chunks@,
                mode@,
                old(self)@.lang,
            ),
            old(self)@.scopes.is_prefix_of(final(self)@.scopes),
            old(self)@.errs.is_prefix_of(final(self)@.errs),
            r is Ok ==> final(self)@.scopes == old(self)@.scopes,
            !(r matches Err(Stop::Fail(_))),
    {
        let ghost st0 = self@.state(*d);
        let ghost lang = self@.lang;
        let mut exprs: Vec<hir::Expr> = Vec::new();
        let mut i: usize = 0;
        proof {
            assert(chunks@.skip(0) =~= chunks@);
            lemma_chunks_end(st0, Seq::empty(), chunks@, mode@, lang);
        }
        while i < chunks.len()
            invariant
                i <= chunks.len(),
                d.wf(),
                self.wf(),
                st0 == old(self)@.state(*old(d)),
                lang == old(self)@.lang,
                self.same_setting(*old(self)),
                self@.scopes == old(self)@.scopes,
                    st0.scopes.is_prefix_of(
                    semantics::lower_chunks(st0, Seq::empty(), chunks@, mode@, lang).0.scopes,
                ),
                st0.errs.is_prefix_of(
                    semantics::lower_chunks(st0, Seq::empty(), chunks@, mode@, lang).0.errs,
                ),
                !(semantics::lower_chunks(st0, Seq::empty(), chunks@, mode@, lang).1 is Fail),
                semantics::lower_chunks(st0, Seq::empty(), chunks@, mode@, lang)
                    == semantics::lower_chunks(
                    self@.state(*d),
                    hir::exprs_view(exprs@),
                    chunks@.skip(i as int),
                    mode@,
                    lang,
                ),
            decreases chunks.len() - i,
        {
            let ghost left = chunks@.skip(i as int);
            proof {
                assert(left[0] == chunks@[i as int]);
                assert(left.drop_first() =~= chunks@.skip(i + 1));
            }
            match self.lower_expr(d, &chunks[i].expr, true) {
                Ok(expr) => {
                    if !same_text(mode, "eval") && !expr.has_t() {
                        return Err(Stop::Unsupported);
                    }
                    match self.use_check(expr, chunks[i].loc, mode) {
                        Ok(expr) => {
                            assert(exprs@.push(expr).drop_last() =~= exprs@);
                            exprs.push(expr);
                        },
                        Err(e) => {
                            self.errs.push(e);
                        },
                    }
                },
                Err(Stop::Fail(e)) => {
                    self.errs.push(e);
                },
                Err(stop) => {
                    return Err(stop);
                },
            }
            i = i + 1;
        }
        assert(chunks@.skip(i as int).len() == 0);
        Ok(hir::Module { exprs })
    }

    /// Lowers a module that has a lowering, as far as the replies of the context go.
    ///
    /// Lowering runs through the replies in their order. Where the next query is not answered by
    /// the next reply, the query is handed out and the lowerer is as it was: the caller has the
    /// context answer the query, adds the reply to the list and calls again. A reply that is none
    /// to the query answers nothing. At the end there is a typed tree with the warnings, or the
    /// errors.
    ///
    /// A module has a lowering if all of its expressions do ([`Module::is_supported`]) and what the
    /// context takes for something that is called is of a type that says what a call gives back,
    /// or if lowering stops before it comes to what has none.
    ///
    /// [`Module::is_supported`]: crate::ast::Module::is_supported
    pub fn lower<'a>(&mut self, ast: &'a AST, mode: &str, replies: &Vec<Reply>) -> (step: Step<'a>)
        requires
            old(self).wf(),
            (supported_module(ast.module) && all_callable(replies@)) || !(old(self)@.lower(
                *ast,
                mode@,
                replies@,
            ).1 is Unsupported),
        ensures
            final(self).wf(),
            step@ == old(self)@.lower(*ast, mode@, replies@).1,
            final(self)@ == old(self)@.after(old(self)@.lower(*ast, mode@, replies@)),
    {
        proof {
            if supported_module(ast.module) && all_callable(replies@) {
                lemma_supported_module(self@.start(replies@), *ast, mode@, self@.lang, self@.warns);
            }
        }
        self.try_lower(ast, mode, replies).unwrap()
    }

    /// Lowers a module as [`ASTLowerer::lower`] does, if it has a lowering. If lowering comes to
    /// an expression that has none, there is no step and the lowerer is as it was.
    #[verifier::spinoff_prover]
    #[verifier::rlimit(60)]
    pub fn try_lower<'a>(&mut self, ast: &'a AST, mode: &str, replies: &Vec<Reply>) -> (step:
        Option<Step<'a>>)
        requires
            old(self).wf(),
        ensures
            final(self).wf(),
            match step {
                Some(step) => step@ == old(self)@.lower(*ast, mode@, replies@).1,
                None => old(self)@.lower(*ast, mode@, replies@).1 is Unsupported,
            },
            final(self)@ == old(self)@.after(old(self)@.lower(*ast, mode@, replies@)),
    {
        let n_scopes: usize = self.ctx.scopes.len();
        let n_errs: usize = self.errs.len();
        let mut d = Dialogue::new(replies);
        match self.ask_done(&mut d, Query::PreregisterModule { module: &ast.module }) {
            Ok(_) => {},
            Err(Stop::Fail(e)) => {
                return Some(Step::Done(Err(LowerErrors::of(e))));
            },
            Err(Stop::Ask(q)) => {
                return Some(Step::Ask(q));
            },
            Err(Stop::Unsupported) => {
                return None;
            },
        }
        let module = match self.lower_chunks(&mut d, &ast.module.chunks, mode) {
            Ok(module) => module,
            Err(stop) => {
                self.ctx.truncate(n_scopes);
                self.errs.truncate(n_errs);
                return match stop {
                    Stop::Ask(q) => Some(Step::Ask(q)),
                    _ => None,
                };
            },
        };
        let hir = hir::HIR { name: ast.name.clone(), module };
        match d.peek() {
            Some(Reply::Derefed(Ok(hir))) => if self.errs.is_empty() {
                Some(Step::Done(Ok((hir.clone(), self.warns.take_all()))))
            } else {
                Some(Step::Done(Err(self.errs.take_all())))
            },
            Some(Reply::Derefed(Err(e))) => Some(Step::Done(Err(LowerErrors::of(e.dup())))),
            _ => {
                self.errs.truncate(n_errs);
                Some(Step::Ask(Query::DerefToplevel { hir }))
            },
        }
    }
}

impl Default for ASTLowerer {
    fn default() -> (lowerer: ASTLowerer)
        ensures
            lowerer.wf(),
            lowerer@ == (ASTLowererView {
                scopes: seq![
                    ScopeView { name: "<module>"@, kind: ContextKind::Module, level: TOP_LEVEL },
                ],
                outer: Some(Builtins),
                errs: Seq::empty(),
                warns: Seq::empty(),
                lang: Language::English,
            }),
            lowerer@.opening() == module_opening(),
    {
        ASTLowerer::new()
    }
}

} // verus!
