//! What lowering and the context say to each other.
//!
//! Names, their types and their scopes are kept by a context outside of this library. Lowering
//! puts [`Query`]s to it, one at a time, and goes on with the [`Reply`]s.
use std::rc::Rc;
use vstd::prelude::*;

use erg_parser::ast::{Params, TypeBoundSpecs};

use crate::ast::{Block, DefId, Module, SubrSignature, VarSignature};
use crate::error::{Location, LowerError, LowerErrorView, LowerErrors};
use crate::hir;
use crate::hir::{ExprView, HIRView, KwArgView};
use crate::outside::TyBounds;
use crate::token::Token;
use crate::ty::{Ty, TyView};

verus! {

/// What a scope belongs to.
#[derive(Debug, Clone, Copy, PartialEq, Eq, Hash, Structural)]
pub enum ContextKind {
    Module,
    Func,
    Proc,
    Instant,
}

#[derive(Debug, Clone, Copy, PartialEq, Eq, Hash, Structural)]
pub enum Visibility {
    Private,
    Public,
}

/// How bounds are registered.
#[derive(Debug, Clone, Copy, PartialEq, Eq, Hash, Structural)]
pub enum RegistrationMode {
    PreRegister,
    Normal,
}

/// The level of the scope of a module.
pub const TOP_LEVEL: usize = 1;

/// A scope: its name, what it belongs to and how deep it is.
#[derive(Debug, PartialEq, Eq)]
pub struct Scope {
    pub name: String,
    pub kind: ContextKind,
    pub level: usize,
}

pub struct ScopeView {
    pub name: Seq<char>,
    pub kind: ContextKind,
    pub level: usize,
}

impl View for Scope {
    type V = ScopeView;

    open spec fn view(&self) -> ScopeView {
        ScopeView { name: self.name@, kind: self.kind, level: self.level }
    }
}

impl Scope {
    /// Another copy of the scope.
    pub fn dup(&self) -> (scope: Scope)
        ensures
            scope == *self,
    {
        Scope { name: self.name.clone(), kind: self.kind, level: self.level }
    }
}

/// What the context makes of a scope that is entered: the name it has there, and its level.
#[derive(Debug, PartialEq, Eq)]
pub struct NewScope {
    pub name: String,
    pub level: usize,
}

/// The scope of what every module can name. The context knows what is in it.
#[derive(Debug, Clone, Copy, PartialEq, Eq, Hash, Structural)]
pub struct Builtins;

/// What a context is to be opened with before anything is asked of it: its first scope, with
/// nothing in it yet, and the scope around that, where there is one.
#[derive(Debug, PartialEq, Eq)]
pub struct Opening {
    pub scope: Scope,
    pub outer: Option<Builtins>,
}

pub struct OpeningView {
    pub scope: ScopeView,
    pub outer: Option<Builtins>,
}

impl View for Opening {
    type V = OpeningView;

    open spec fn view(&self) -> OpeningView {
        OpeningView { scope: self.scope@, outer: self.outer }
    }
}

/// A module is lowered in a scope of its own inside the builtins.
pub open spec fn module_opening() -> OpeningView {
    OpeningView {
        scope: ScopeView { name: "<module>"@, kind: ContextKind::Module, level: TOP_LEVEL },
        outer: Some(Builtins),
    }
}

/// A parameter of the current scope.
#[derive(Debug, PartialEq, Eq)]
pub struct ParamInfo {
    pub name: Option<String>,
    pub t: Rc<Ty>,
    pub has_default: bool,
}

/// A question to the context, or something that it is to do.
#[allow(inconsistent_fields)]
#[derive(Debug, PartialEq, Eq)]
pub enum Query<'a> {
    /// The type of a variable. Answered by [`Reply::VarT`].
    VarT { symbol: &'a Token, namespace: String },
    /// The unique name of the object that a variable stands for. Answered by
    /// [`Reply::UniqObjName`].
    UniqObjName { symbol: &'a Token },
    /// The type of an attribute. Answered by [`Reply::AttrT`].
    AttrT { obj: hir::Expr, name: &'a Token, namespace: String },
    /// The type of an array made at a level, before its elements are looked at. Answered by
    /// [`Reply::ArrayT`].
    ArrayT { level: usize },
    /// The type of a binary operator at its operands. Answered by [`Reply::CalleeT`].
    BinOpT { op: &'a Token, lhs: hir::Expr, rhs: hir::Expr, namespace: String },
    /// The type of a unary operator at its operand. Answered by [`Reply::CalleeT`].
    UnaryOpT { op: &'a Token, expr: hir::Expr, namespace: String },
    /// The type of what is called with arguments. Answered by [`Reply::CalleeT`].
    CallT {
        obj: hir::Expr,
        pos_args: Vec<hir::PosArg>,
        kw_args: Vec<hir::KwArg>,
        namespace: String,
    },
    /// Enter a new scope. Answered by [`Reply::Grown`].
    Grow { name: String, kind: ContextKind, vis: Visibility },
    /// Leave the current scope. Answered by [`Reply::Popped`].
    Pop,
    /// Assign types to the parameters of the current scope, with no declared type at hand.
    /// Answered by [`Reply::Done`].
    AssignParams { params: &'a Rc<Params> },
    /// Register the names that a block defines before it is lowered. Answered by [`Reply::Done`].
    Preregister { block: &'a Block },
    /// Register the names that a module defines before it is lowered. Answered by
    /// [`Reply::Done`].
    PreregisterModule { module: &'a Module },
    /// The parameters of the current scope. Answered by [`Reply::ParamInfos`].
    ScopeParams,
    /// The bounds that written bounds stand for. Answered by [`Reply::Bounds`].
    InstantiateTyBounds { bounds: &'a TypeBoundSpecs, mode: RegistrationMode },
    /// The type registered for a variable in the scope around the current one, where there is
    /// one. Answered by [`Reply::OuterVarT`].
    OuterVarT { name: &'a String },
    /// The type registered for a subroutine in the scope around the current one. Answered by
    /// [`Reply::OuterSubrT`].
    OuterSubrT { name: &'a String },
    /// Make two types the same; the location is that of the expected one. Answered by
    /// [`Reply::Done`].
    Unify { expect: Rc<Ty>, found: Rc<Ty>, loc: Location },
    /// What an error in the current scope is blamed on. Answered by [`Reply::CausedBy`].
    CausedBy,
    /// Assign a type to a variable in the scope around the current one. Answered by
    /// [`Reply::Done`].
    AssignVar { sig: &'a VarSignature, id: DefId, t: Rc<Ty> },
    /// Assign a type of body to a subroutine in the scope around the current one. Answered by
    /// [`Reply::Done`].
    AssignSubr { sig: &'a SubrSignature, id: DefId, t: Rc<Ty> },
    /// Import a module under a name into the scope around the current one. Answered by
    /// [`Reply::Done`].
    ImportMod { name: &'a Token, path: hir::Expr },
    /// Replace the type variables of a lowered module by what they stand for. Answered by
    /// [`Reply::Derefed`].
    DerefToplevel { hir: hir::HIR },
}

/// What the context says to a [`Query`].
#[derive(Debug, PartialEq, Eq)]
pub enum Reply {
    VarT(Result<Rc<Ty>, LowerError>),
    UniqObjName(Option<String>),
    AttrT(Result<Rc<Ty>, LowerError>),
    ArrayT(Rc<Ty>),
    CalleeT(Result<Rc<Ty>, LowerError>),
    Grown(Result<NewScope, LowerError>),
    Popped(Result<(), LowerErrors>),
    Done(Result<(), LowerError>),
    ParamInfos(Vec<ParamInfo>),
    Bounds(Result<Rc<TyBounds>, LowerError>),
    OuterVarT(Option<Rc<Ty>>),
    OuterSubrT(Rc<Ty>),
    CausedBy(String),
    Derefed(Result<Rc<hir::HIR>, LowerError>),
}

/// A query with its texts and lists as sequences.
#[allow(inconsistent_fields)]
pub enum QueryView {
    VarT { symbol: Token, namespace: Seq<char> },
    UniqObjName { symbol: Token },
    AttrT { obj: ExprView, name: Token, namespace: Seq<char> },
    ArrayT { level: usize },
    BinOpT { op: Token, lhs: ExprView, rhs: ExprView, namespace: Seq<char> },
    UnaryOpT { op: Token, expr: ExprView, namespace: Seq<char> },
    CallT {
        obj: ExprView,
        pos_args: Seq<ExprView>,
        kw_args: Seq<KwArgView>,
        namespace: Seq<char>,
    },
    Grow { name: Seq<char>, kind: ContextKind, vis: Visibility },
    Pop,
    AssignParams { params: Rc<Params> },
    Preregister { block: Block },
    PreregisterModule { module: Module },
    ScopeParams,
    InstantiateTyBounds { bounds: TypeBoundSpecs, mode: RegistrationMode },
    OuterVarT { name: Seq<char> },
    OuterSubrT { name: Seq<char> },
    Unify { expect: TyView, found: TyView, loc: Location },
    CausedBy,
    AssignVar { sig: VarSignature, id: DefId, t: TyView },
    AssignSubr { sig: SubrSignature, id: DefId, t: TyView },
    ImportMod { name: Token, path: ExprView },
    DerefToplevel { hir: HIRView },
}

impl<'a> View for Query<'a> {
    type V = QueryView;

    open spec fn view(&self) -> QueryView {
        match *self {
            Query::VarT { symbol, namespace } => QueryView::VarT {
                symbol: *symbol,
                namespace: namespace@,
            },
            Query::UniqObjName { symbol } => QueryView::UniqObjName { symbol: *symbol },
            Query::AttrT { obj, name, namespace } => QueryView::AttrT {
                obj: obj@,
                name: *name,
                namespace: namespace@,
            },
            Query::ArrayT { level } => QueryView::ArrayT { level },
            Query::BinOpT { op, lhs, rhs, namespace } => QueryView::BinOpT {
                op: *op,
                lhs: lhs@,
                rhs: rhs@,
                namespace: namespace@,
            },
            Query::UnaryOpT { op, expr, namespace } => QueryView::UnaryOpT {
                op: *op,
                expr: expr@,
                namespace: namespace@,
            },
            Query::CallT { obj, pos_args, kw_args, namespace } => QueryView::CallT {
                obj: obj@,
                pos_args: hir::pos_args_view(pos_args@),
                kw_args: hir::kw_args_view(kw_args@),
                namespace: namespace@,
            },
            Query::Grow { name, kind, vis } => QueryView::Grow { name: name@, kind, vis },
            Query::Pop => QueryView::Pop,
            Query::AssignParams { params } => QueryView::AssignParams { params: *params },
            Query::Preregister { block } => QueryView::Preregister { block: *block },
            Query::PreregisterModule { module } => QueryView::PreregisterModule {
                module: *module,
            },
            Query::ScopeParams => QueryView::ScopeParams,
            Query::InstantiateTyBounds { bounds, mode } => QueryView::InstantiateTyBounds {
                bounds: *bounds,
                mode,
            },
            Query::OuterVarT { name } => QueryView::OuterVarT { name: name@ },
            Query::OuterSubrT { name } => QueryView::OuterSubrT { name: name@ },
            Query::Unify { expect, found, loc } => QueryView::Unify {
                expect: expect@,
                found: found@,
                loc,
            },
            Query::CausedBy => QueryView::CausedBy,
            Query::AssignVar { sig, id, t } => QueryView::AssignVar { sig: *sig, id, t: t@ },
            Query::AssignSubr { sig, id, t } => QueryView::AssignSubr { sig: *sig, id, t: t@ },
            Query::ImportMod { name, path } => QueryView::ImportMod { name: *name, path: path@ },
            Query::DerefToplevel { hir } => QueryView::DerefToplevel { hir: hir@ },
        }
    }
}

/// Whether a reply is one to a query.
pub open spec fn answers(reply: Reply, query: QueryView) -> bool {
    match query {
        QueryView::VarT { .. } => reply is VarT,
        QueryView::UniqObjName { .. } => reply is UniqObjName,
        QueryView::AttrT { .. } => reply is AttrT,
        QueryView::ArrayT { .. } => reply is ArrayT,
        QueryView::BinOpT { .. } => reply is CalleeT,
        QueryView::UnaryOpT { .. } => reply is CalleeT,
        QueryView::CallT { .. } => reply is CalleeT,
        QueryView::Grow { .. } => reply is Grown,
        QueryView::Pop => reply is Popped,
        QueryView::AssignParams { .. } => reply is Done,
        QueryView::Preregister { .. } => reply is Done,
        QueryView::PreregisterModule { .. } => reply is Done,
        QueryView::ScopeParams => reply is ParamInfos,
        QueryView::InstantiateTyBounds { .. } => reply is Bounds,
        QueryView::OuterVarT { .. } => reply is OuterVarT,
        QueryView::OuterSubrT { .. } => reply is OuterSubrT,
        QueryView::Unify { .. } => reply is Done,
        QueryView::CausedBy => reply is CausedBy,
        QueryView::AssignVar { .. } => reply is Done,
        QueryView::AssignSubr { .. } => reply is Done,
        QueryView::ImportMod { .. } => reply is Done,
        QueryView::DerefToplevel { .. } => reply is Derefed,
    }
}

/// Whether a type in a reply, where it is one of something that is called, says what a call gives
/// back.
pub open spec fn callable(reply: Reply) -> bool {
    match reply {
        Reply::CalleeT(Ok(t)) => t@.return_t() is Some,
        Reply::OuterSubrT(t) => t@.return_t() is Some,
        _ => true,
    }
}

/// Whether all types in replies that are of something that is called say what a call gives back.
pub open spec fn all_callable(replies: Seq<Reply>) -> bool {
    forall|i: int| 0 <= i < replies.len() ==> callable(#[trigger] replies[i])
}

impl Reply {
    /// Whether the reply is one to a query.
    pub fn answers(&self, query: &Query) -> (b: bool)
        ensures
            b == answers(*self, query@),
    {
        match query {
            Query::VarT { .. } => matches!(self, Reply::VarT(_)),
            Query::UniqObjName { .. } => matches!(self, Reply::UniqObjName(_)),
            Query::AttrT { .. } => matches!(self, Reply::AttrT(_)),
            Query::ArrayT { .. } => matches!(self, Reply::ArrayT(_)),
            Query::BinOpT { .. } => matches!(self, Reply::CalleeT(_)),
            Query::UnaryOpT { .. } => matches!(self, Reply::CalleeT(_)),
            Query::CallT { .. } => matches!(self, Reply::CalleeT(_)),
            Query::Grow { .. } => matches!(self, Reply::Grown(_)),
            Query::Pop => matches!(self, Reply::Popped(_)),
            Query::AssignParams { .. } => matches!(self, Reply::Done(_)),
            Query::Preregister { .. } => matches!(self, Reply::Done(_)),
            Query::PreregisterModule { .. } => matches!(self, Reply::Done(_)),
            Query::ScopeParams => matches!(self, Reply::ParamInfos(_)),
            Query::InstantiateTyBounds { .. } => matches!(self, Reply::Bounds(_)),
            Query::OuterVarT { .. } => matches!(self, Reply::OuterVarT(_)),
            Query::OuterSubrT { .. } => matches!(self, Reply::OuterSubrT(_)),
            Query::Unify { .. } => matches!(self, Reply::Done(_)),
            Query::CausedBy => matches!(self, Reply::CausedBy(_)),
            Query::AssignVar { .. } => matches!(self, Reply::Done(_)),
            Query::AssignSubr { .. } => matches!(self, Reply::Done(_)),
            Query::ImportMod { .. } => matches!(self, Reply::Done(_)),
            Query::DerefToplevel { .. } => matches!(self, Reply::Derefed(_)),
        }
    }
}

/// The replies of the context so far, and how many of them lowering has gone through.
pub struct Dialogue<'r> {
    pub replies: &'r Vec<Reply>,
    pub next: usize,
    /// What was asked for the replies that lowering has gone through.
    pub asked: Ghost<Seq<QueryView>>,
}

impl<'r> Dialogue<'r> {
    pub open spec fn wf(self) -> bool {
        self.next <= self.replies.len()
    }

    /// The replies that are still to be used.
    pub open spec fn pending(self) -> Seq<Reply> {
        self.replies@.skip(self.next as int)
    }

    /// The next reply, where there is one.
    pub open spec fn reply(self) -> Option<Reply> {
        if self.pending().len() > 0 {
            Some(self.pending()[0])
        } else {
            None
        }
    }

    /// Whether this is what comes of another dialogue when its next reply answers a query, or,
    /// where none does, the same.
    pub open spec fn said(self, before: Dialogue, query: QueryView, answered: bool) -> bool {
        if answered {
            &&& before.pending().len() > 0
            &&& self.pending() == before.pending().drop_first()
            &&& self.asked@ == before.asked@.push(query)
        } else {
            &&& self.pending() == before.pending()
            &&& self.asked@ == before.asked@
        }
    }

    pub fn new(replies: &'r Vec<Reply>) -> (d: Dialogue<'r>)
        ensures
            d.wf(),
            d.pending() == replies@,
            d.asked@ == Seq::<QueryView>::empty(),
    {
        let d = Dialogue { replies, next: 0, asked: Ghost(Seq::empty()) };
        assert(d.pending() =~= replies@);
        d
    }

    /// The next reply, where there is one.
    pub fn peek(&self) -> (reply: Option<&'r Reply>)
        requires
            self.wf(),
        ensures
            match reply {
                Some(reply) => self.pending().len() > 0 && *reply == self.pending()[0],
                None => self.pending().len() == 0,
            },
    {
        if self.next < self.replies.len() {
            Some(&self.replies[self.next])
        } else {
            None
        }
    }

    /// Goes past the next reply, which answers a query.
    pub(crate) fn answered(&mut self, query: Ghost<QueryView>)
        requires
            old(self).wf(),
            old(self).pending().len() > 0,
        ensures
            final(self).wf(),
            final(self).pending() == old(self).pending().drop_first(),
            final(self).asked@ == old(self).asked@.push(query@),
    {
        self.next = self.next + 1;
        self.asked = Ghost(self.asked@.push(query@));
        assert(self.pending() =~= old(self).pending().drop_first());
    }

    /// Goes past the next reply and gives what it says, where it is one to something that the
    /// context is to do.
    pub(crate) fn take_done(&mut self, query: Ghost<QueryView>) -> (done: Option<
        Result<(), LowerError>,
    >)
        requires
            old(self).wf(),
        ensures
            final(self).wf(),
            final(self).said(*old(self), query@, done is Some),
            match done {
                Some(Ok(_)) => old(self).reply() matches Some(Reply::Done(Ok(_))),
                Some(Err(e)) => old(self).reply() == Some(Reply::Done(Err(e))),
                None => !(old(self).reply() matches Some(Reply::Done(_))),
            },
    {
        match self.peek() {
            Some(Reply::Done(Ok(_))) => {
                self.answered(query);
                Some(Ok(()))
            },
            Some(Reply::Done(Err(e))) => {
                let e = e.dup();
                self.answered(query);
                Some(Err(e))
            },
            _ => None,
        }
    }

    /// Goes past the next reply and gives what it says, where it is one on the type of what is
    /// called.
    pub(crate) fn take_callee(&mut self, query: Ghost<QueryView>) -> (callee: Option<
        Result<Rc<Ty>, LowerError>,
    >)
        requires
            old(self).wf(),
        ensures
            final(self).wf(),
            final(self).said(*old(self), query@, callee is Some),
            match callee {
                Some(callee) => old(self).reply() == Some(Reply::CalleeT(callee)),
                None => !(old(self).reply() matches Some(Reply::CalleeT(_))),
            },
    {
        match self.peek() {
            Some(Reply::CalleeT(Ok(t))) => {
                self.answered(query);
                Some(Ok(t.clone()))
            },
            Some(Reply::CalleeT(Err(e))) => {
                let e = e.dup();
                self.answered(query);
                Some(Err(e))
            },
            _ => None,
        }
    }
}

/// The scopes that are entered, the current one last, and the scope around the first of them.
#[derive(Debug, PartialEq, Eq)]
pub struct Context {
    pub scopes: Vec<Scope>,
    pub outer: Option<Builtins>,
}

pub struct ContextView {
    pub scopes: Seq<ScopeView>,
    pub outer: Option<Builtins>,
}

/// The scopes of a list, seen as [`ScopeView`]s.
pub open spec fn scopes_view(s: Seq<Scope>) -> Seq<ScopeView> {
    s.map_values(|e: Scope| e@)
}

impl View for Context {
    type V = ContextView;

    open spec fn view(&self) -> ContextView {
        ContextView { scopes: scopes_view(self.scopes@), outer: self.outer }
    }
}

impl Context {
    /// A context in one scope, with no other entered.
    pub fn new(name: String, kind: ContextKind, outer: Option<Builtins>, level: usize) -> (ctx:
        Context)
        ensures
            ctx@ == (ContextView { scopes: seq![ScopeView { name: name@, kind, level }], outer }),
    {
        let mut scopes: Vec<Scope> = Vec::new();
        scopes.push(Scope { name, kind, level });
        let ctx = Context { scopes, outer };
        assert(ctx@.scopes =~= seq![ScopeView { name: name@, kind, level }]);
        ctx
    }

    /// The name of the current scope.
    pub fn name(&self) -> (name: String)
        requires
            self@.scopes.len() > 0,
        ensures
            name@ == self@.scopes.last().name,
    {
        self.scopes[self.scopes.len() - 1].name.clone()
    }

    /// The level of the current scope.
    pub fn level(&self) -> (level: usize)
        requires
            self@.scopes.len() > 0,
        ensures
            level == self@.scopes.last().level,
    {
        self.scopes[self.scopes.len() - 1].level
    }

    pub fn push(&mut self, scope: Scope)
        ensures
            final(self)@ == (ContextView { scopes: old(self)@.scopes.push(scope@), ..old(self)@ }),
    {
        self.scopes.push(scope);
        assert(self@.scopes =~= old(self)@.scopes.push(scope@));
    }

    pub fn pop(&mut self)
        requires
            old(self)@.scopes.len() > 0,
        ensures
            final(self)@ == (ContextView { scopes: old(self)@.scopes.drop_last(), ..old(self)@ }),
    {
        let _ = self.scopes.pop();
        assert(self@.scopes =~= old(self)@.scopes.drop_last());
    }

    /// Keeps the first `n` scopes.
    pub fn truncate(&mut self, n: usize)
        requires
            n <= old(self)@.scopes.len(),
        ensures
            final(self)@ == (ContextView {
                scopes: old(self)@.scopes.take(n as int),
                ..old(self)@
            }),
    {
        self.scopes.truncate(n);
        assert(self@.scopes =~= old(self)@.scopes.take(n as int));
    }
}

/// What lowering has come to: the scopes that are entered, the errors collected, the replies that
/// are still to be used and the queries that the others answered.
pub struct State {
    pub scopes: Seq<ScopeView>,
    pub errs: Seq<LowerErrorView>,
    pub pending: Seq<Reply>,
    pub asked: Seq<QueryView>,
}

impl State {
    /// The next reply, where there is one.
    pub open spec fn reply(self) -> Option<Reply> {
        if self.pending.len() > 0 {
            Some(self.pending[0])
        } else {
            None
        }
    }

    /// Past the next reply, which answers a query.
    pub open spec fn answered(self, query: QueryView) -> State {
        State { pending: self.pending.drop_first(), asked: self.asked.push(query), ..self }
    }

    /// The name of the current scope.
    pub open spec fn name(self) -> Seq<char> {
        self.scopes.last().name
    }

    /// In a new scope.
    pub open spec fn enter(self, scope: ScopeView) -> State {
        State { scopes: self.scopes.push(scope), ..self }
    }

    /// Out of the current scope.
    pub open spec fn leave(self) -> State {
        State { scopes: self.scopes.drop_last(), ..self }
    }

    /// With one more error.
    pub open spec fn report(self, e: LowerErrorView) -> State {
        State { errs: self.errs.push(e), ..self }
    }
}

} // verus!
