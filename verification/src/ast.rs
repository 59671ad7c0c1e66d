//! The syntax tree that is lowered.
use std::rc::Rc;
use vstd::prelude::*;

use erg_parser::ast::{
    Dict, Params, Subscript, TypeBoundSpecs, TypeSpec, VarArrayPattern, VarRecordPattern,
    VarTuplePattern,
};

use crate::error::Location;
use crate::outside::{hash_signature, is_signature_hash, Decorators};
use crate::text::same_text;
use crate::token::{Token, TokenKind};

verus! {

/// A literal.
#[derive(Debug, PartialEq, Eq)]
pub struct Literal {
    pub token: Token,
}

#[derive(Debug, PartialEq, Eq)]
pub struct PosArg {
    pub expr: Expr,
}

#[derive(Debug, PartialEq, Eq)]
pub struct KwArg {
    pub keyword: Token,
    pub expr: Expr,
}

#[derive(Debug, PartialEq, Eq)]
pub struct Args {
    pub pos_args: Vec<PosArg>,
    pub kw_args: Vec<KwArg>,
    pub paren: Option<(Token, Token)>,
}

/// A local variable.
#[derive(Debug, PartialEq, Eq)]
pub struct Local {
    pub symbol: Token,
}

/// `obj.name`
#[derive(Debug, PartialEq, Eq)]
pub struct Attribute {
    pub obj: Box<Expr>,
    pub name: Local,
}

/// `obj.0`
#[derive(Debug, PartialEq, Eq)]
pub struct TupleAttribute {
    pub obj: Box<Expr>,
    pub index: Literal,
}

#[derive(Debug, PartialEq, Eq)]
pub enum Accessor {
    Local(Local),
    /// `self.name`, which has no lowering.
    SelfDot(Local),
    Attr(Attribute),
    /// Has no lowering.
    TupleAttr(TupleAttribute),
    /// `obj[index]`, which has no lowering.
    Subscr(Subscript),
}

#[derive(Debug, PartialEq, Eq)]
pub struct Array {
    pub l_sqbr: Token,
    pub r_sqbr: Token,
    pub elems: Args,
    pub guard: Option<Box<Expr>>,
}

#[derive(Debug, PartialEq, Eq)]
pub struct BinOp {
    pub op: Token,
    pub lhs: Box<Expr>,
    pub rhs: Box<Expr>,
}

#[derive(Debug, PartialEq, Eq)]
pub struct UnaryOp {
    pub op: Token,
    pub expr: Box<Expr>,
}

#[derive(Debug, PartialEq, Eq)]
pub struct Call {
    pub obj: Box<Expr>,
    pub args: Args,
}

#[derive(Debug, PartialEq, Eq)]
pub struct Block {
    pub exprs: Vec<Expr>,
}

/// The signature of a lambda, with its hash, by which the lambda is told from others.
#[derive(Debug, PartialEq, Eq)]
pub struct LambdaSignature {
    params: Rc<Params>,
    return_t_spec: Option<TypeSpec>,
    bounds: TypeBoundSpecs,
    id: usize,
}

pub struct LambdaSignatureView {
    pub params: Rc<Params>,
    pub return_t_spec: Option<TypeSpec>,
    pub bounds: TypeBoundSpecs,
    pub id: usize,
}

#[derive(Debug, PartialEq, Eq)]
pub struct Lambda {
    pub sig: LambdaSignature,
    /// `->` of a function, `=>` of a procedure.
    pub op: Token,
    pub body: Block,
}

/// The left side of the definition of a variable.
#[derive(Debug, PartialEq, Eq)]
pub enum VarPattern {
    Discard(Token),
    VarName(Token),
    SelfDot(Token),
    /// `[x, y]`
    Array(Rc<VarArrayPattern>),
    /// `(x, y)`
    Tuple(Rc<VarTuplePattern>),
    /// `{x; y}`
    Record(Rc<VarRecordPattern>),
}

#[derive(Debug, PartialEq, Eq)]
pub struct VarSignature {
    pub pat: VarPattern,
    pub t_spec: Option<TypeSpec>,
    /// Where the written type stands, if there is one.
    pub t_spec_loc: Location,
}

#[derive(Debug, PartialEq, Eq)]
pub struct SubrSignature {
    pub decorators: Decorators,
    pub name: Token,
    pub params: Rc<Params>,
    pub return_t_spec: Option<TypeSpec>,
    pub bounds: TypeBoundSpecs,
    /// Where the last of its parts stands: its bounds where there are any, or else the written
    /// type of what it gives back, or else its parameters.
    pub end_loc: Location,
}

#[derive(Debug, PartialEq, Eq)]
pub enum Signature {
    Var(VarSignature),
    Subr(SubrSignature),
}

#[derive(Debug, Clone, Copy, PartialEq, Eq, Hash, Structural)]
pub struct DefId(pub usize);

#[derive(Debug, PartialEq, Eq)]
pub struct DefBody {
    pub op: Token,
    pub block: Block,
    pub id: DefId,
}

#[derive(Debug, PartialEq, Eq)]
pub struct Def {
    pub sig: Signature,
    pub body: DefBody,
}

/// An expression.
#[derive(Debug, PartialEq, Eq)]
pub enum Expr {
    Lit(Literal),
    Accessor(Accessor),
    Array(Array),
    BinOp(BinOp),
    UnaryOp(UnaryOp),
    Call(Call),
    Lambda(Lambda),
    Def(Def),
    /// A dictionary, which has no lowering.
    Dict(Dict),
    /// A declaration, which has no lowering.
    Decl(Signature),
}

/// An expression of a module.
#[derive(Debug, PartialEq, Eq)]
pub struct Chunk {
    pub expr: Expr,
    /// Where the expression stands, from the beginning of its first part to the end of its last.
    /// It is what is pointed at if the value of the expression is not used.
    pub loc: Location,
}

#[derive(Debug, PartialEq, Eq)]
pub struct Module {
    pub chunks: Vec<Chunk>,
}

/// A module under its name.
#[derive(Debug, PartialEq, Eq)]
pub struct AST {
    pub name: String,
    pub module: Module,
}

impl View for LambdaSignature {
    type V = LambdaSignatureView;

    closed spec fn view(&self) -> LambdaSignatureView {
        LambdaSignatureView {
            params: self.params,
            return_t_spec: self.return_t_spec,
            bounds: self.bounds,
            id: self.id,
        }
    }
}

impl LambdaSignatureView {
    /// Whether the id is the hash of the other parts. Which number that is depends on the words
    /// of the machine, and is not said.
    pub open spec fn hashed(self) -> bool {
        is_signature_hash(*self.params, self.return_t_spec, self.bounds, self.id)
    }
}

impl LambdaSignature {
    #[verifier::type_invariant]
    spec fn inv(self) -> bool {
        self@.hashed()
    }

    /// A signature made of its parts, with their hash for its id.
    pub fn new(params: Rc<Params>, return_t_spec: Option<TypeSpec>, bounds: TypeBoundSpecs) -> (sig:
        LambdaSignature)
        ensures
            sig@.params == params,
            sig@.return_t_spec == return_t_spec,
            sig@.bounds == bounds,
            sig@.hashed(),
    {
        let id: usize = hash_signature(&params, &return_t_spec, &bounds);
        LambdaSignature { params, return_t_spec, bounds, id }
    }

    pub fn params(&self) -> (params: &Rc<Params>)
        ensures
            *params == self@.params,
    {
        &self.params
    }

    pub fn return_t_spec(&self) -> (return_t_spec: &Option<TypeSpec>)
        ensures
            *return_t_spec == self@.return_t_spec,
    {
        &self.return_t_spec
    }

    pub fn bounds(&self) -> (bounds: &TypeBoundSpecs)
        ensures
            *bounds == self@.bounds,
    {
        &self.bounds
    }

    /// The hash of the signature.
    pub fn id(&self) -> (id: usize)
        ensures
            id == self@.id,
            self@.hashed(),
    {
        proof {
            use_type_invariant(self);
        }
        self.id
    }
}

impl Lambda {
    pub fn new(sig: LambdaSignature, op: Token, body: Block) -> (lambda: Lambda)
        ensures
            lambda == (Lambda { sig, op, body }),
            lambda.sig@.hashed(),
    {
        proof {
            use_type_invariant(&sig);
        }
        Lambda { sig, op, body }
    }

    /// Whether the lambda is a procedure.
    pub fn is_procedural(&self) -> (b: bool)
        ensures
            b == (self.op.kind == TokenKind::ProcArrow),
    {
        self.op.is(TokenKind::ProcArrow)
    }
}

impl VarPattern {
    /// The token that names the variable, where there is one.
    pub open spec fn name_token(self) -> Option<Token> {
        match self {
            VarPattern::VarName(n) => Some(n),
            VarPattern::SelfDot(n) => Some(n),
            _ => None,
        }
    }

    /// The name of the variable, where there is one.
    pub fn inspect(&self) -> (name: Option<&String>)
        ensures
            match name {
                Some(name) => self.name_token() is Some && *name
                    == self.name_token().unwrap().content,
                None => self.name_token() is None,
            },
    {
        match self {
            VarPattern::VarName(n) => Some(&n.content),
            VarPattern::SelfDot(n) => Some(&n.content),
            _ => None,
        }
    }

    /// Another copy of the pattern.
    pub fn dup(&self) -> (pat: VarPattern)
        ensures
            pat == *self,
    {
        match self {
            VarPattern::Discard(t) => VarPattern::Discard(t.dup()),
            VarPattern::VarName(t) => VarPattern::VarName(t.dup()),
            VarPattern::SelfDot(t) => VarPattern::SelfDot(t.dup()),
            VarPattern::Array(p) => VarPattern::Array(p.clone()),
            VarPattern::Tuple(p) => VarPattern::Tuple(p.clone()),
            VarPattern::Record(p) => VarPattern::Record(p.clone()),
        }
    }
}

impl SubrSignature {
    /// Where the signature stands: from its name to the last of its parts.
    pub open spec fn place(self) -> Location {
        self.name.place().through(self.end_loc)
    }

    /// Where the signature stands.
    pub fn loc(&self) -> (loc: Location)
        ensures
            loc == self.place(),
    {
        Location::concat(self.name.loc(), self.end_loc)
    }
}

impl Signature {
    /// The token that names what is defined, where there is one.
    pub open spec fn name_token(self) -> Option<Token> {
        match self {
            Signature::Var(v) => v.pat.name_token(),
            Signature::Subr(s) => Some(s.name),
        }
    }

    /// The name of what is defined, where there is one.
    pub fn name(&self) -> (name: Option<&String>)
        ensures
            match name {
                Some(name) => self.name_token() is Some && *name
                    == self.name_token().unwrap().content,
                None => self.name_token() is None,
            },
    {
        match self {
            Signature::Var(v) => v.pat.inspect(),
            Signature::Subr(s) => Some(&s.name.content),
        }
    }
}

/// Whether an expression is a call of the local name `import`.
pub open spec fn is_import_call(call: Call) -> bool {
    *call.obj matches Expr::Accessor(Accessor::Local(l)) && l.symbol.content@ == "import"@
}

/// Whether an expression has a lowering: its literals are written by tokens of literals, it holds
/// none of the forms that have none, no lambda and no definition in it has an empty body, and the
/// variables that it defines can be defined so.
pub open spec fn supported(expr: Expr) -> bool
    decreases expr,
{
    match expr {
        Expr::Lit(lit) => lit.token.kind.is_literal(),
        Expr::Accessor(Accessor::Local(_)) => true,
        Expr::Accessor(Accessor::Attr(attr)) => supported(*attr.obj),
        Expr::Accessor(_) => false,
        Expr::Array(array) => forall|i: int|
            0 <= i < array.elems.pos_args@.len() ==> supported(
                (#[trigger] array.elems.pos_args@[i]).expr,
            ),
        Expr::BinOp(bin) => supported(*bin.lhs) && supported(*bin.rhs),
        Expr::UnaryOp(unary) => supported(*unary.expr),
        Expr::Call(call) => {
            &&& supported(*call.obj)
            &&& forall|i: int|
                0 <= i < call.args.pos_args@.len() ==> supported(
                    (#[trigger] call.args.pos_args@[i]).expr,
                )
            &&& forall|i: int|
                0 <= i < call.args.kw_args@.len() ==> supported(
                    (#[trigger] call.args.kw_args@[i]).expr,
                )
        },
        Expr::Lambda(lambda) => supported_block(lambda.body),
        Expr::Def(def) => supported_def(def),
        Expr::Dict(_) => false,
        Expr::Decl(_) => false,
    }
}

/// Whether a block has an expression and each of its expressions has a lowering.
pub open spec fn supported_block(block: Block) -> bool
    decreases block,
{
    &&& block.exprs@.len() > 0
    &&& forall|i: int| 0 <= i < block.exprs@.len() ==> supported(#[trigger] block.exprs@[i])
}

/// Whether a definition has a lowering.
pub open spec fn supported_def(def: Def) -> bool
    decreases def,
{
    &&& supported_block(def.body.block)
    &&& def.sig matches Signature::Var(sig) ==> supported_var(sig, def.body.block)
}

/// Whether a variable with a body can be defined: it has a name, and where the body begins with a
/// call the name is a plain one, and a call of `import` says what is imported.
pub open spec fn supported_var(sig: VarSignature, block: Block) -> bool {
    &&& sig.pat.name_token() is Some
    &&& block.exprs@[0] is Call ==> sig.pat is VarName
    &&& import_names_path(block)
}

/// Whether a call of `import` that a block begins with says what is imported.
pub open spec fn import_names_path(block: Block) -> bool {
    block.exprs@[0] matches Expr::Call(call) ==> (is_import_call(call)
        ==> call.args.pos_args@.len() > 0)
}

/// Whether each expression of a module has a lowering.
pub open spec fn supported_module(module: Module) -> bool {
    forall|i: int|
        0 <= i < module.chunks@.len() ==> supported((#[trigger] module.chunks@[i]).expr)
}

impl Expr {
    /// Whether the expression has a lowering.
    pub fn is_supported(&self) -> (b: bool)
        ensures
            b == supported(*self),
        decreases self,
    {
        proof {
            assert(self matches Expr::Lambda(lambda) ==> supported(*self) == supported_block(
                lambda.body,
            ));
            assert(self matches Expr::Def(def) ==> supported(*self) == supported_def(*def));
            assert(self matches Expr::Def(def) ==> (supported_def(*def) ==> supported_block(
                def.body.block,
            )));
        }
        match self {
            Expr::Lit(lit) => lit.token.kind.writes_literal(),
            Expr::Accessor(Accessor::Local(_)) => true,
            Expr::Accessor(Accessor::Attr(attr)) => attr.obj.is_supported(),
            Expr::Accessor(_) => false,
            Expr::Array(array) => pos_args_are_supported(&array.elems.pos_args),
            Expr::BinOp(bin) => bin.lhs.is_supported() && bin.rhs.is_supported(),
            Expr::UnaryOp(unary) => unary.expr.is_supported(),
            Expr::Call(call) => call.obj.is_supported() && pos_args_are_supported(
                &call.args.pos_args,
            ) && kw_args_are_supported(&call.args.kw_args),
            Expr::Lambda(lambda) => exprs_are_supported(&lambda.body.exprs)
                && lambda.body.exprs.len() > 0,
            Expr::Def(def) => exprs_are_supported(&def.body.block.exprs)
                && def.body.block.exprs.len() > 0 && match &def.sig {
                Signature::Var(sig) => sig.is_supported(&def.body.block),
                Signature::Subr(_) => true,
            },
            Expr::Dict(_) => false,
            Expr::Decl(_) => false,
        }
    }
}

fn pos_args_are_supported(args: &Vec<PosArg>) -> (b: bool)
    ensures
        b == forall|i: int| 0 <= i < args@.len() ==> supported((#[trigger] args@[i]).expr),
    decreases args@,
{
    let mut i: usize = 0;
    while i < args.len()
        invariant
            i <= args.len(),
            forall|j: int| 0 <= j < i ==> supported((#[trigger] args@[j]).expr),
        decreases args.len() - i,
    {
        if !args[i].expr.is_supported() {
            assert(!supported(args@[i as int].expr));
            return false;
        }
        i = i + 1;
    }
    true
}

fn kw_args_are_supported(args: &Vec<KwArg>) -> (b: bool)
    ensures
        b == forall|i: int| 0 <= i < args@.len() ==> supported((#[trigger] args@[i]).expr),
    decreases args@,
{
    let mut i: usize = 0;
    while i < args.len()
        invariant
            i <= args.len(),
            forall|j: int| 0 <= j < i ==> supported((#[trigger] args@[j]).expr),
        decreases args.len() - i,
    {
        if !args[i].expr.is_supported() {
            assert(!supported(args@[i as int].expr));
            return false;
        }
        i = i + 1;
    }
    true
}

fn exprs_are_supported(exprs: &Vec<Expr>) -> (b: bool)
    ensures
        b == forall|i: int| 0 <= i < exprs@.len() ==> supported(#[trigger] exprs@[i]),
    decreases exprs@,
{
    let mut i: usize = 0;
    while i < exprs.len()
        invariant
            i <= exprs.len(),
            forall|j: int| 0 <= j < i ==> supported(#[trigger] exprs@[j]),
        decreases exprs.len() - i,
    {
        if !exprs[i].is_supported() {
            assert(!supported(exprs@[i as int]));
            return false;
        }
        i = i + 1;
    }
    true
}

impl Call {
    /// Whether the call is one of the local name `import`.
    pub fn is_import_call(&self) -> (b: bool)
        ensures
            b == is_import_call(*self),
    {
        match &*self.obj {
            Expr::Accessor(Accessor::Local(l)) => same_text(l.symbol.content.as_str(), "import"),
            _ => false,
        }
    }
}

impl VarSignature {
    /// Where the signature of a variable with a name stands: its name, and its written type if
    /// there is one.
    pub open spec fn place(self) -> Location
        recommends
            self.pat.name_token() is Some,
    {
        let name = self.pat.name_token().unwrap().place();
        match self.t_spec {
            Some(_) => name.through(self.t_spec_loc),
            None => name,
        }
    }

    /// Where the signature stands.
    pub fn loc(&self) -> (loc: Location)
        requires
            self.pat.name_token() is Some,
        ensures
            loc == self.place(),
    {
        let name = match &self.pat {
            VarPattern::VarName(n) => n.loc(),
            VarPattern::SelfDot(n) => n.loc(),
            _ => Location::Unknown,
        };
        match &self.t_spec {
            Some(_) => Location::concat(name, self.t_spec_loc),
            None => name,
        }
    }

    /// Whether the variable can be defined by a body.
    pub fn is_supported(&self, block: &Block) -> (b: bool)
        requires
            block.exprs@.len() > 0,
        ensures
            b == supported_var(*self, *block),
    {
        let named = match &self.pat {
            VarPattern::VarName(_) => true,
            VarPattern::SelfDot(_) => true,
            _ => false,
        };
        let plain = match &self.pat {
            VarPattern::VarName(_) => true,
            _ => false,
        };
        named && match &block.exprs[0] {
            Expr::Call(call) => plain && (!call.is_import_call() || call.args.pos_args.len() > 0),
            _ => true,
        }
    }
}

impl Module {
    /// Whether each expression of the module has a lowering.
    pub fn is_supported(&self) -> (b: bool)
        ensures
            b == supported_module(*self),
    {
        let mut i: usize = 0;
        while i < self.chunks.len()
            invariant
                i <= self.chunks.len(),
                forall|j: int| 0 <= j < i ==> supported((#[trigger] self.chunks@[j]).expr),
            decreases self.chunks.len() - i,
        {
            if !self.chunks[i].expr.is_supported() {
                assert(!supported(self.chunks@[i as int].expr));
                return false;
            }
            i = i + 1;
        }
        true
    }
}

} // verus!
