//! The types that lowering reads and makes.
use std::rc::Rc;
use vstd::prelude::*;

use crate::outside::TyBounds;
use crate::token::TokenKind;

verus! {

/// A type, as far as lowering tells types apart.
#[derive(Debug, PartialEq, Eq)]
pub enum Ty {
    Int,
    Nat,
    Ratio,
    Bool,
    Str,
    NoneType,
    NotImplemented,
    Ellipsis,
    Inf,
    /// `Option T`, or `Option! T` where it is mutable.
    Optional { mutable: bool, inner: Rc<Ty> },
    /// The tuple of no types.
    Unit,
    /// The type of what can be called.
    Callee(Rc<CalleeTy>),
    /// A type under bounds on its type variables, e.g. `|T: Type| T -> T`.
    Quantified { unbound_callable: Rc<Ty>, bounds: Rc<TyBounds> },
    /// Stands where no type is inferred, e.g. at what is called in a call.
    ASTOmitted,
    /// Any other type.
    Other(erg_common::ty::Type),
}

/// The type of what can be called.
#[derive(Debug, PartialEq, Eq)]
pub enum CalleeTy {
    Subr(SubrTy),
    Callable { param_ts: Vec<Rc<Ty>>, return_t: Rc<Ty> },
}

/// The type of a subroutine, e.g. `(x: Int, ?base: Int) -> Int`.
#[derive(Debug, PartialEq, Eq)]
pub struct SubrTy {
    pub kind: SubrKind,
    pub non_default_params: Vec<ParamTy>,
    pub default_params: Vec<ParamTy>,
    pub return_t: Rc<Ty>,
}

#[derive(Debug, PartialEq, Eq)]
pub enum SubrKind {
    Func,
    Proc,
    FuncMethod(Rc<Ty>),
    ProcMethod { before: Rc<Ty>, after: Option<Rc<Ty>> },
}

/// A parameter of a subroutine type.
#[derive(Debug, PartialEq, Eq)]
pub struct ParamTy {
    pub name: Option<String>,
    pub ty: Rc<Ty>,
}

/// A type with its parameter lists as sequences.
pub enum TyView {
    Int,
    Nat,
    Ratio,
    Bool,
    Str,
    NoneType,
    NotImplemented,
    Ellipsis,
    Inf,
    Optional { mutable: bool, inner: Box<TyView> },
    Unit,
    Callee(CalleeTyView),
    Quantified { unbound_callable: Box<TyView>, bounds: TyBounds },
    ASTOmitted,
    Other(erg_common::ty::Type),
}

pub enum CalleeTyView {
    Subr {
        kind: SubrKind,
        non_default_params: Seq<ParamTyView>,
        default_params: Seq<ParamTyView>,
        return_t: Box<TyView>,
    },
    Callable { param_ts: Seq<TyView>, return_t: Box<TyView> },
}

pub struct ParamTyView {
    pub name: Option<Seq<char>>,
    pub ty: TyView,
}

pub open spec fn ty_view(t: Ty) -> TyView
    decreases t,
{
    match t {
        Ty::Int => TyView::Int,
        Ty::Nat => TyView::Nat,
        Ty::Ratio => TyView::Ratio,
        Ty::Bool => TyView::Bool,
        Ty::Str => TyView::Str,
        Ty::NoneType => TyView::NoneType,
        Ty::NotImplemented => TyView::NotImplemented,
        Ty::Ellipsis => TyView::Ellipsis,
        Ty::Inf => TyView::Inf,
        Ty::Optional { mutable, inner } => TyView::Optional {
            mutable,
            inner: Box::new(ty_view(*inner)),
        },
        Ty::Unit => TyView::Unit,
        Ty::Callee(c) => TyView::Callee(callee_view(*c)),
        Ty::Quantified { unbound_callable, bounds } => TyView::Quantified {
            unbound_callable: Box::new(ty_view(*unbound_callable)),
            bounds: *bounds,
        },
        Ty::ASTOmitted => TyView::ASTOmitted,
        Ty::Other(o) => TyView::Other(o),
    }
}

pub open spec fn callee_view(c: CalleeTy) -> CalleeTyView
    decreases c,
{
    match c {
        CalleeTy::Subr(s) => CalleeTyView::Subr {
            kind: s.kind,
            non_default_params: param_tys_view(s.non_default_params@),
            default_params: param_tys_view(s.default_params@),
            return_t: Box::new(ty_view(*s.return_t)),
        },
        CalleeTy::Callable { param_ts, return_t } => CalleeTyView::Callable {
            param_ts: tys_view(param_ts@),
            return_t: Box::new(ty_view(*return_t)),
        },
    }
}

pub open spec fn param_ty_view(p: ParamTy) -> ParamTyView
    decreases p,
{
    ParamTyView { name: opt_str_view(p.name), ty: ty_view(*p.ty) }
}

pub open spec fn param_tys_view(s: Seq<ParamTy>) -> Seq<ParamTyView>
    decreases s,
{
    if s.len() == 0 {
        Seq::empty()
    } else {
        param_tys_view(s.drop_last()).push(param_ty_view(s.last()))
    }
}

pub open spec fn tys_view(s: Seq<Rc<Ty>>) -> Seq<TyView>
    decreases s,
{
    if s.len() == 0 {
        Seq::empty()
    } else {
        tys_view(s.drop_last()).push(ty_view(*s.last()))
    }
}

/// The text of a name that may be missing.
pub open spec fn opt_str_view(s: Option<String>) -> Option<Seq<char>> {
    match s {
        Some(s) => Some(s@),
        None => None,
    }
}

impl View for Ty {
    type V = TyView;

    open spec fn view(&self) -> TyView {
        ty_view(*self)
    }
}

impl View for CalleeTy {
    type V = CalleeTyView;

    open spec fn view(&self) -> CalleeTyView {
        callee_view(*self)
    }
}

impl View for ParamTy {
    type V = ParamTyView;

    open spec fn view(&self) -> ParamTyView {
        param_ty_view(*self)
    }
}

impl CalleeTyView {
    /// What a call gives back.
    pub open spec fn return_t(self) -> TyView {
        match self {
            CalleeTyView::Subr { return_t, .. } => *return_t,
            CalleeTyView::Callable { return_t, .. } => *return_t,
        }
    }
}

impl TyView {
    /// Whether a value of the type holds nothing: `None`, the empty tuple, and options of those.
    pub open spec fn is_nonelike(self) -> bool
        decreases self,
    {
        match self {
            TyView::NoneType => true,
            TyView::Optional { inner, .. } => inner.is_nonelike(),
            TyView::Unit => true,
            _ => false,
        }
    }

    /// What a call gives back, where the type is of something that can be called.
    pub open spec fn return_t(self) -> Option<TyView> {
        match self {
            TyView::Callee(c) => Some(c.return_t()),
            _ => None,
        }
    }
}

/// The type of a function.
pub open spec fn func_t(
    non_default_params: Seq<ParamTyView>,
    default_params: Seq<ParamTyView>,
    return_t: TyView,
) -> TyView {
    TyView::Callee(
        CalleeTyView::Subr {
            kind: SubrKind::Func,
            non_default_params,
            default_params,
            return_t: Box::new(return_t),
        },
    )
}

/// The type of a procedure.
pub open spec fn proc_t(
    non_default_params: Seq<ParamTyView>,
    default_params: Seq<ParamTyView>,
    return_t: TyView,
) -> TyView {
    TyView::Callee(
        CalleeTyView::Subr {
            kind: SubrKind::Proc,
            non_default_params,
            default_params,
            return_t: Box::new(return_t),
        },
    )
}

/// The type of the literals that a kind of token writes.
pub open spec fn literal_t(kind: TokenKind) -> TyView
    recommends
        kind.is_literal(),
{
    match kind {
        TokenKind::NatLit => TyView::Nat,
        TokenKind::IntLit => TyView::Int,
        TokenKind::RatioLit => TyView::Ratio,
        TokenKind::StrLit => TyView::Str,
        TokenKind::BoolLit => TyView::Bool,
        TokenKind::NoneLit => TyView::NoneType,
        TokenKind::NoImplLit => TyView::NotImplemented,
        TokenKind::EllipsisLit => TyView::Ellipsis,
        _ => TyView::Inf,
    }
}

impl CalleeTy {
    /// What a call gives back.
    pub fn return_t(&self) -> (t: &Rc<Ty>)
        ensures
            t@ == self@.return_t(),
    {
        match self {
            CalleeTy::Subr(s) => &s.return_t,
            CalleeTy::Callable { return_t, .. } => return_t,
        }
    }
}

impl Ty {
    /// Whether a value of the type holds nothing: `None`, the empty tuple, and options of those.
    pub fn is_nonelike(&self) -> (b: bool)
        ensures
            b == self@.is_nonelike(),
        decreases self,
    {
        match self {
            Ty::NoneType => true,
            Ty::Optional { inner, .. } => inner.is_nonelike(),
            Ty::Unit => true,
            _ => false,
        }
    }

    /// What a call gives back, where the type is of something that can be called.
    pub fn return_t(&self) -> (t: Option<&Rc<Ty>>)
        ensures
            match t {
                Some(t) => self@.return_t() == Some(t@),
                None => self@.return_t() is None,
            },
    {
        match self {
            Ty::Callee(c) => Some(c.return_t()),
            _ => None,
        }
    }

    /// The type of a function.
    pub fn func(
        non_default_params: Vec<ParamTy>,
        default_params: Vec<ParamTy>,
        return_t: Rc<Ty>,
    ) -> (t: Ty)
        ensures
            t@ == func_t(
                param_tys_view(non_default_params@),
                param_tys_view(default_params@),
                return_t@,
            ),
    {
        proof {
            reveal_with_fuel(ty_view, 2);
        }
        Ty::Callee(
            Rc::new(
                CalleeTy::Subr(
                    SubrTy { kind: SubrKind::Func, non_default_params, default_params, return_t },
                ),
            ),
        )
    }

    /// The type of a procedure.
    pub fn proc(
        non_default_params: Vec<ParamTy>,
        default_params: Vec<ParamTy>,
        return_t: Rc<Ty>,
    ) -> (t: Ty)
        ensures
            t@ == proc_t(
                param_tys_view(non_default_params@),
                param_tys_view(default_params@),
                return_t@,
            ),
    {
        proof {
            reveal_with_fuel(ty_view, 2);
        }
        Ty::Callee(
            Rc::new(
                CalleeTy::Subr(
                    SubrTy { kind: SubrKind::Proc, non_default_params, default_params, return_t },
                ),
            ),
        )
    }

    /// A type under bounds.
    pub fn quantified(unbound_t: Ty, bounds: Rc<TyBounds>) -> (t: Ty)
        ensures
            t@ == (TyView::Quantified {
                unbound_callable: Box::new(unbound_t@),
                bounds: *bounds,
            }),
    {
        Ty::Quantified { unbound_callable: Rc::new(unbound_t), bounds }
    }

    /// The type of the literals that a kind of token writes.
    pub fn of_literal(kind: TokenKind) -> (t: Ty)
        requires
            kind.is_literal(),
        ensures
            t@ == literal_t(kind),
    {
        match kind {
            TokenKind::NatLit => Ty::Nat,
            TokenKind::IntLit => Ty::Int,
            TokenKind::RatioLit => Ty::Ratio,
            TokenKind::StrLit => Ty::Str,
            TokenKind::BoolLit => Ty::Bool,
            TokenKind::NoneLit => Ty::NoneType,
            TokenKind::NoImplLit => Ty::NotImplemented,
            TokenKind::EllipsisLit => Ty::Ellipsis,
            _ => Ty::Inf,
        }
    }
}

} // verus!
