//! The typed tree that lowering makes.
use std::rc::Rc;
use vstd::prelude::*;

use erg_parser::ast::Params;

use crate::ast::{DefId, VarPattern};
use crate::text::same_text;
use crate::token::Token;
use crate::ty::{literal_t, opt_str_view, Ty, TyView};

verus! {

#[derive(Debug, PartialEq, Eq)]
pub struct Literal {
    pub token: Token,
}

#[derive(Debug, PartialEq, Eq)]
pub struct PosArg {
    pub expr: Expr,
}

#[derive(Debug, PartialEq, Eq)]
pub struct KwArg {
    pub keyword: Token,
    pub expr: Expr,
}

#[derive(Debug, PartialEq, Eq)]
pub struct Args {
    pub pos_args: Vec<PosArg>,
    pub kw_args: Vec<KwArg>,
    pub paren: Option<(Token, Token)>,
}

#[derive(Debug, PartialEq, Eq)]
pub struct Local {
    pub name: Token,
    /// The unique name of the object that the variable stands for, where it has one.
    pub uniq_name: Option<String>,
    pub t: Rc<Ty>,
}

#[derive(Debug, PartialEq, Eq)]
pub struct Attribute {
    pub obj: Box<Expr>,
    pub name: Token,
    pub t: Rc<Ty>,
}

#[derive(Debug, PartialEq, Eq)]
pub enum Accessor {
    Local(Local),
    Attr(Attribute),
}

#[derive(Debug, PartialEq, Eq)]
pub struct Array {
    pub l_sqbr: Token,
    pub r_sqbr: Token,
    /// The level at which the array is made.
    pub level: usize,
    pub t: Rc<Ty>,
    pub elems: Vec<PosArg>,
}

#[derive(Debug, PartialEq, Eq)]
pub struct BinOp {
    pub op: Token,
    pub lhs: Box<Expr>,
    pub rhs: Box<Expr>,
    /// The type of the operator.
    pub sig_t: Rc<Ty>,
}

#[derive(Debug, PartialEq, Eq)]
pub struct UnaryOp {
    pub op: Token,
    pub expr: Box<Expr>,
    /// The type of the operator.
    pub sig_t: Rc<Ty>,
}

#[derive(Debug, PartialEq, Eq)]
pub struct Call {
    pub obj: Box<Expr>,
    pub args: Args,
    /// The type of what is called.
    pub sig_t: Rc<Ty>,
}

#[derive(Debug, PartialEq, Eq)]
pub struct Block {
    pub exprs: Vec<Expr>,
}

#[derive(Debug, PartialEq, Eq)]
pub struct Lambda {
    pub id: usize,
    pub params: Rc<Params>,
    pub op: Token,
    pub body: Block,
    pub t: Rc<Ty>,
}

#[derive(Debug, PartialEq, Eq)]
pub struct VarSignature {
    pub pat: VarPattern,
    pub t: Rc<Ty>,
}

#[derive(Debug, PartialEq, Eq)]
pub struct SubrSignature {
    pub name: Token,
    pub params: Rc<Params>,
    pub sig_t: Rc<Ty>,
}

#[derive(Debug, PartialEq, Eq)]
pub enum Signature {
    Var(VarSignature),
    Subr(SubrSignature),
}

#[derive(Debug, PartialEq, Eq)]
pub struct DefBody {
    pub op: Token,
    pub block: Block,
    pub id: DefId,
}

#[derive(Debug, PartialEq, Eq)]
pub struct Def {
    pub sig: Signature,
    pub body: DefBody,
}

#[derive(Debug, PartialEq, Eq)]
pub enum Expr {
    Lit(Literal),
    Accessor(Accessor),
    Array(Array),
    BinOp(BinOp),
    UnaryOp(UnaryOp),
    Call(Call),
    Lambda(Lambda),
    Def(Def),
}

#[derive(Debug, PartialEq, Eq)]
pub struct Module {
    pub exprs: Vec<Expr>,
}

/// A lowered module under its name.
#[derive(Debug, PartialEq, Eq)]
pub struct HIR {
    pub name: String,
    pub module: Module,
}

/// An expression with its lists as sequences.
pub enum ExprView {
    Lit(Token),
    Accessor(AccessorView),
    Array(ArrayView),
    BinOp(BinOpView),
    UnaryOp(UnaryOpView),
    Call(CallView),
    Lambda(LambdaView),
    Def(DefView),
}

pub enum AccessorView {
    Local { name: Token, uniq_name: Option<Seq<char>>, t: TyView },
    Attr { obj: Box<ExprView>, name: Token, t: TyView },
}

pub struct ArrayView {
    pub l_sqbr: Token,
    pub r_sqbr: Token,
    pub level: usize,
    pub t: TyView,
    pub elems: Seq<ExprView>,
}

pub struct BinOpView {
    pub op: Token,
    pub lhs: Box<ExprView>,
    pub rhs: Box<ExprView>,
    pub sig_t: TyView,
}

pub struct UnaryOpView {
    pub op: Token,
    pub expr: Box<ExprView>,
    pub sig_t: TyView,
}

pub struct CallView {
    pub obj: Box<ExprView>,
    pub pos_args: Seq<ExprView>,
    pub kw_args: Seq<KwArgView>,
    pub paren: Option<(Token, Token)>,
    pub sig_t: TyView,
}

pub struct KwArgView {
    pub keyword: Token,
    pub expr: ExprView,
}

pub struct LambdaView {
    pub id: usize,
    pub params: Rc<Params>,
    pub op: Token,
    pub body: Seq<ExprView>,
    pub t: TyView,
}

pub enum SignatureView {
    Var { pat: VarPattern, t: TyView },
    Subr { name: Token, params: Rc<Params>, sig_t: TyView },
}

pub struct DefView {
    pub sig: SignatureView,
    pub op: Token,
    pub block: Seq<ExprView>,
    pub id: DefId,
}

pub struct HIRView {
    pub name: Seq<char>,
    pub module: Seq<ExprView>,
}

pub open spec fn expr_view(expr: Expr) -> ExprView
    decreases expr,
{
    match expr {
        Expr::Lit(lit) => ExprView::Lit(lit.token),
        Expr::Accessor(acc) => ExprView::Accessor(accessor_view(acc)),
        Expr::Array(array) => ExprView::Array(array_view(array)),
        Expr::BinOp(bin) => ExprView::BinOp(bin_op_view(bin)),
        Expr::UnaryOp(unary) => ExprView::UnaryOp(unary_op_view(unary)),
        Expr::Call(call) => ExprView::Call(call_view(call)),
        Expr::Lambda(lambda) => ExprView::Lambda(lambda_view(lambda)),
        Expr::Def(def) => ExprView::Def(def_view(def)),
    }
}

pub open spec fn accessor_view(acc: Accessor) -> AccessorView
    decreases acc,
{
    match acc {
        Accessor::Local(l) => AccessorView::Local {
            name: l.name,
            uniq_name: opt_str_view(l.uniq_name),
            t: l.t@,
        },
        Accessor::Attr(a) => AccessorView::Attr {
            obj: Box::new(expr_view(*a.obj)),
            name: a.name,
            t: a.t@,
        },
    }
}

pub open spec fn array_view(array: Array) -> ArrayView
    decreases array,
{
    ArrayView {
        l_sqbr: array.l_sqbr,
        r_sqbr: array.r_sqbr,
        level: array.level,
        t: array.t@,
        elems: pos_args_view(array.elems@),
    }
}

pub open spec fn bin_op_view(bin: BinOp) -> BinOpView
    decreases bin,
{
    BinOpView {
        op: bin.op,
        lhs: Box::new(expr_view(*bin.lhs)),
        rhs: Box::new(expr_view(*bin.rhs)),
        sig_t: bin.sig_t@,
    }
}

pub open spec fn unary_op_view(unary: UnaryOp) -> UnaryOpView
    decreases unary,
{
    UnaryOpView {
        op: unary.op,
        expr: Box::new(expr_view(*unary.expr)),
        sig_t: unary.sig_t@,
    }
}

pub open spec fn call_view(call: Call) -> CallView
    decreases call,
{
    CallView {
        obj: Box::new(expr_view(*call.obj)),
        pos_args: pos_args_view(call.args.pos_args@),
        kw_args: kw_args_view(call.args.kw_args@),
        paren: call.args.paren,
        sig_t: call.sig_t@,
    }
}

pub open spec fn lambda_view(lambda: Lambda) -> LambdaView
    decreases lambda,
{
    LambdaView {
        id: lambda.id,
        params: lambda.params,
        op: lambda.op,
        body: exprs_view(lambda.body.exprs@),
        t: lambda.t@,
    }
}

pub open spec fn signature_view(sig: Signature) -> SignatureView {
    match sig {
        Signature::Var(v) => SignatureView::Var { pat: v.pat, t: v.t@ },
        Signature::Subr(s) => SignatureView::Subr {
            name: s.name,
            params: s.params,
            sig_t: s.sig_t@,
        },
    }
}

pub open spec fn def_view(def: Def) -> DefView
    decreases def,
{
    DefView {
        sig: signature_view(def.sig),
        op: def.body.op,
        block: exprs_view(def.body.block.exprs@),
        id: def.body.id,
    }
}

pub open spec fn exprs_view(s: Seq<Expr>) -> Seq<ExprView>
    decreases s,
{
    if s.len() == 0 {
        Seq::empty()
    } else {
        exprs_view(s.drop_last()).push(expr_view(s.last()))
    }
}

pub open spec fn pos_args_view(s: Seq<PosArg>) -> Seq<ExprView>
    decreases s,
{
    if s.len() == 0 {
        Seq::empty()
    } else {
        pos_args_view(s.drop_last()).push(expr_view(s.last().expr))
    }
}

pub open spec fn kw_args_view(s: Seq<KwArg>) -> Seq<KwArgView>
    decreases s,
{
    if s.len() == 0 {
        Seq::empty()
    } else {
        kw_args_view(s.drop_last()).push(
            KwArgView { keyword: s.last().keyword, expr: expr_view(s.last().expr) },
        )
    }
}

impl View for Expr {
    type V = ExprView;

    open spec fn view(&self) -> ExprView {
        expr_view(*self)
    }
}

impl View for Accessor {
    type V = AccessorView;

    open spec fn view(&self) -> AccessorView {
        accessor_view(*self)
    }
}

impl View for Array {
    type V = ArrayView;

    open spec fn view(&self) -> ArrayView {
        array_view(*self)
    }
}

impl View for BinOp {
    type V = BinOpView;

    open spec fn view(&self) -> BinOpView {
        bin_op_view(*self)
    }
}

impl View for UnaryOp {
    type V = UnaryOpView;

    open spec fn view(&self) -> UnaryOpView {
        unary_op_view(*self)
    }
}

impl View for Call {
    type V = CallView;

    open spec fn view(&self) -> CallView {
        call_view(*self)
    }
}

impl View for Lambda {
    type V = LambdaView;

    open spec fn view(&self) -> LambdaView {
        lambda_view(*self)
    }
}

impl View for Def {
    type V = DefView;

    open spec fn view(&self) -> DefView {
        def_view(*self)
    }
}

impl View for Block {
    type V = Seq<ExprView>;

    open spec fn view(&self) -> Seq<ExprView> {
        exprs_view(self.exprs@)
    }
}

impl View for Module {
    type V = Seq<ExprView>;

    open spec fn view(&self) -> Seq<ExprView> {
        exprs_view(self.exprs@)
    }
}

impl View for HIR {
    type V = HIRView;

    open spec fn view(&self) -> HIRView {
        HIRView { name: self.name@, module: self.module@ }
    }
}

/// The type of an expression. That of a call, and of an operator, is what it gives back; a
/// definition gives nothing back.
pub open spec fn expr_t(expr: ExprView) -> TyView
    recommends
        typed(expr),
{
    match expr {
        ExprView::Lit(token) => literal_t(token.kind),
        ExprView::Accessor(AccessorView::Local { t, .. }) => t,
        ExprView::Accessor(AccessorView::Attr { t, .. }) => t,
        ExprView::Array(array) => array.t,
        ExprView::BinOp(bin) => bin.sig_t.return_t().unwrap(),
        ExprView::UnaryOp(unary) => unary.sig_t.return_t().unwrap(),
        ExprView::Call(call) => call.sig_t.return_t().unwrap(),
        ExprView::Lambda(lambda) => lambda.t,
        ExprView::Def(_) => TyView::NoneType,
    }
}

/// The type of a block is that of its last expression.
pub open spec fn block_t(block: Seq<ExprView>) -> TyView
    recommends
        block_typed(block),
{
    expr_t(block.last())
}

/// Whether a call is one of the local name `import`.
pub open spec fn is_import(call: CallView) -> bool {
    *call.obj matches ExprView::Accessor(AccessorView::Local { name, .. }) && name.content@
        == "import"@
}

/// Whether an expression has a type: a literal is written by a token of a literal, and what is
/// called, and an operator, is of a type that says what is given back.
pub open spec fn typed(expr: ExprView) -> bool {
    match expr {
        ExprView::Lit(token) => token.kind.is_literal(),
        ExprView::BinOp(bin) => bin.sig_t.return_t() is Some,
        ExprView::UnaryOp(unary) => unary.sig_t.return_t() is Some,
        ExprView::Call(call) => call.sig_t.return_t() is Some,
        _ => true,
    }
}

/// Whether a block has a type: it is not empty, and its last expression has one.
pub open spec fn block_typed(block: Seq<ExprView>) -> bool {
    block.len() > 0 && typed(block.last())
}

pub proof fn lemma_exprs_view(s: Seq<Expr>)
    ensures
        exprs_view(s).len() == s.len(),
        forall|i: int| 0 <= i < s.len() ==> exprs_view(s)[i] == #[trigger] expr_view(s[i]),
    decreases s.len(),
{
    if s.len() > 0 {
        lemma_exprs_view(s.drop_last());
        assert forall|i: int| 0 <= i < s.len() implies exprs_view(s)[i] == #[trigger] expr_view(
            s[i],
        ) by {
            if i < s.len() - 1 {
                assert(s.drop_last()[i] == s[i]);
            }
        }
    }
}

pub proof fn lemma_pos_args_view(s: Seq<PosArg>)
    ensures
        pos_args_view(s).len() == s.len(),
        forall|i: int|
            0 <= i < s.len() ==> pos_args_view(s)[i] == #[trigger] expr_view(s[i].expr),
    decreases s.len(),
{
    if s.len() > 0 {
        lemma_pos_args_view(s.drop_last());
        assert forall|i: int| 0 <= i < s.len() implies pos_args_view(s)[i]
            == #[trigger] expr_view(s[i].expr) by {
            if i < s.len() - 1 {
                assert(s.drop_last()[i] == s[i]);
            }
        }
    }
}

impl Expr {
    /// Whether the expression has a type.
    pub fn has_t(&self) -> (b: bool)
        ensures
            b == typed(self@),
    {
        match self {
            Expr::Lit(lit) => lit.token.kind.writes_literal(),
            Expr::BinOp(bin) => bin.sig_t.return_t().is_some(),
            Expr::UnaryOp(unary) => unary.sig_t.return_t().is_some(),
            Expr::Call(call) => call.sig_t.return_t().is_some(),
            _ => true,
        }
    }

    /// The type of the expression. That of a call, and of an operator, is what it gives back; a
    /// definition gives nothing back.
    pub fn t(&self) -> (t: Rc<Ty>)
        requires
            typed(self@),
        ensures
            t@ == expr_t(self@),
    {
        match self {
            Expr::Lit(lit) => Rc::new(Ty::of_literal(lit.token.kind)),
            Expr::Accessor(Accessor::Local(l)) => l.t.clone(),
            Expr::Accessor(Accessor::Attr(a)) => a.t.clone(),
            Expr::Array(array) => array.t.clone(),
            Expr::BinOp(bin) => bin.sig_t.return_t().unwrap().clone(),
            Expr::UnaryOp(unary) => unary.sig_t.return_t().unwrap().clone(),
            Expr::Call(call) => call.sig_t.return_t().unwrap().clone(),
            Expr::Lambda(lambda) => lambda.t.clone(),
            Expr::Def(_) => Rc::new(Ty::NoneType),
        }
    }
}

impl Block {
    /// Whether the block has a type.
    pub fn has_t(&self) -> (b: bool)
        ensures
            b == block_typed(self@),
    {
        proof {
            lemma_exprs_view(self.exprs@);
            if self.exprs@.len() > 0 {
                assert(self@.last() == expr_view(self.exprs@[self.exprs@.len() - 1]));
            }
        }
        self.exprs.len() > 0 && self.exprs[self.exprs.len() - 1].has_t()
    }

    /// The type of the block, which is that of its last expression.
    pub fn t(&self) -> (t: Rc<Ty>)
        requires
            block_typed(self@),
        ensures
            t@ == block_t(self@),
    {
        proof {
            lemma_exprs_view(self.exprs@);
            assert(self@.last() == expr_view(self.exprs@[self.exprs@.len() - 1]));
        }
        self.exprs[self.exprs.len() - 1].t()
    }
}

impl Call {
    /// Whether the call is one of the local name `import`.
    pub fn is_import_call(&self) -> (b: bool)
        ensures
            b == is_import(self@),
    {
        proof {
            assert(*self@.obj == expr_view(*self.obj));
            let obj = *self.obj;
            assert(obj matches Expr::Accessor(acc) ==> expr_view(obj) == ExprView::Accessor(
                accessor_view(acc),
            ));
        }
        match &*self.obj {
            Expr::Accessor(Accessor::Local(l)) => same_text(l.name.content.as_str(), "import"),
            _ => false,
        }
    }
}

} // verus!
