//! Lowering of modules, with the replies of the context written out.
use std::rc::Rc;

use erg_lower::ast::{
    Accessor, Args, Array, Attribute, BinOp, Block, Call, Chunk, Def, DefBody, DefId, Expr, KwArg,
    Lambda, LambdaSignature, Literal, Local, Module, PosArg, Signature, SubrSignature,
    TupleAttribute, UnaryOp, VarPattern, VarSignature, AST,
};
use erg_lower::context::{
    Builtins, ContextKind, NewScope, Opening, ParamInfo, Query, RegistrationMode, Reply, Scope,
    Visibility,
};
use erg_lower::error::{
    ContextError, Language, Location, LowerError, LowerErrors, LowerWarnings,
};
use erg_lower::hir;
use erg_lower::lower::{ASTLowerer, Step};
use erg_lower::outside::{Decorators, TyBounds};
use erg_lower::token::{Token, TokenKind};
use erg_lower::ty::{CalleeTy, ParamTy, SubrKind, SubrTy, Ty};

use erg_parser::ast::{
    ConstArgs, ParamPattern, ParamSignature, Params, PreDeclTypeSpec, SimpleTypeSpec,
    TypeBoundSpecs, TypeSpec, VarName,
};

type Ended = Result<(Rc<hir::HIR>, LowerWarnings), LowerErrors>;

fn tok(kind: TokenKind, content: &str) -> Token {
    Token::new(kind, content.to_string(), 1, 0)
}

fn sym(content: &str) -> Token {
    tok(TokenKind::Symbol, content)
}

fn nat_lit(content: &str) -> Expr {
    Expr::Lit(Literal { token: tok(TokenKind::NatLit, content) })
}

fn none() -> Expr {
    Expr::Lit(Literal { token: tok(TokenKind::NoneLit, "None") })
}

fn local(name: &str) -> Expr {
    Expr::Accessor(Accessor::Local(Local { symbol: sym(name) }))
}

/// A declaration, which has no lowering.
fn decl() -> Expr {
    Expr::Decl(Signature::Var(var_sig("d")))
}

fn args(pos: Vec<Expr>) -> Args {
    Args {
        pos_args: pos.into_iter().map(|expr| PosArg { expr }).collect(),
        kw_args: vec![],
        paren: None,
    }
}

fn call(obj: Expr, pos: Vec<Expr>) -> Expr {
    Expr::Call(Call { obj: Box::new(obj), args: args(pos) })
}

fn module(exprs: Vec<Expr>) -> AST {
    let chunks = exprs
        .into_iter()
        .enumerate()
        .map(|(i, expr)| Chunk { expr, loc: Location::Line(i + 1) })
        .collect();
    AST { name: "main".to_string(), module: Module { chunks } }
}

fn params(names: &[&'static str]) -> Rc<Params> {
    let params = names
        .iter()
        .map(|name| ParamPattern::VarName(VarName::from_static(name)))
        .map(|pat| ParamSignature::new(pat, None, None))
        .collect();
    Rc::new(Params::new(params, vec![], None))
}

fn lambda(op: TokenKind, body: Vec<Expr>) -> Lambda {
    let sig = LambdaSignature::new(params(&["x"]), None, TypeBoundSpecs::empty());
    Lambda::new(sig, tok(op, "->"), Block { exprs: body })
}

fn def_body(block: Vec<Expr>) -> DefBody {
    DefBody { op: tok(TokenKind::Equal, "="), block: Block { exprs: block }, id: DefId(7) }
}

fn var_name(name: &str) -> Token {
    Token::new(TokenKind::Symbol, name.to_string(), 40, 4)
}

/// Where the variable `v` is named in its signature.
fn at_v() -> Location {
    Location::Range { ln_begin: 40, col_begin: 4, ln_end: 40, col_end: 5 }
}

fn var_sig(name: &str) -> VarSignature {
    VarSignature {
        pat: VarPattern::VarName(var_name(name)),
        t_spec: None,
        t_spec_loc: Location::Unknown,
    }
}

fn var_def(name: &str, block: Vec<Expr>) -> Expr {
    Expr::Def(Def { sig: Signature::Var(var_sig(name)), body: def_body(block) })
}

fn subr_sig(name: &str) -> SubrSignature {
    SubrSignature {
        decorators: Decorators::new(),
        name: sym(name),
        params: params(&["x"]),
        return_t_spec: None,
        bounds: TypeBoundSpecs::empty(),
        end_loc: Location::Line(41),
    }
}

fn subr_def(name: &str, block: Vec<Expr>) -> Expr {
    Expr::Def(Def { sig: Signature::Subr(subr_sig(name)), body: def_body(block) })
}

fn subr_t(return_t: Ty) -> Rc<Ty> {
    Rc::new(Ty::Callee(Rc::new(CalleeTy::Subr(SubrTy {
        kind: SubrKind::Func,
        non_default_params: vec![],
        default_params: vec![],
        return_t: Rc::new(return_t),
    }))))
}

fn context_error(desc: &str) -> LowerError {
    LowerError::Reported(ContextError {
        errno: 3,
        kind: 1,
        loc: Location::Unknown,
        caused_by: "ctx".to_string(),
        desc: desc.to_string(),
        hint: None,
    })
}

fn unused_error(line: usize) -> LowerError {
    LowerError::Syntax {
        errno: 0,
        loc: Location::Line(line),
        caused_by: "<module>".to_string(),
        desc: "the evaluation result of the expression is not used".to_string(),
        hint: Some("if you don't use the value, use discard function".to_string()),
    }
}

fn done() -> Reply {
    Reply::Done(Ok(()))
}

fn grown(name: &str, level: usize) -> Reply {
    Reply::Grown(Ok(NewScope { name: name.to_string(), level }))
}

fn popped() -> Reply {
    Reply::Popped(Ok(()))
}

fn array_t(t: Ty) -> Reply {
    Reply::ArrayT(Rc::new(t))
}

fn no_bounds() -> Reply {
    Reply::Bounds(Ok(Rc::new(TyBounds::new())))
}

fn var_t(t: Ty) -> Reply {
    Reply::VarT(Ok(Rc::new(t)))
}

fn callee_t(return_t: Ty) -> Reply {
    Reply::CalleeT(Ok(subr_t(return_t)))
}

fn hir_lit(kind: TokenKind, content: &str) -> hir::Expr {
    hir::Expr::Lit(hir::Literal { token: tok(kind, content) })
}

fn hir_local(name: &str, uniq_name: Option<&str>, t: Ty) -> hir::Expr {
    hir::Expr::Accessor(hir::Accessor::Local(hir::Local {
        name: sym(name),
        uniq_name: uniq_name.map(|s| s.to_string()),
        t: Rc::new(t),
    }))
}

fn empty_hir() -> Rc<hir::HIR> {
    Rc::new(hir::HIR { name: "main".to_string(), module: hir::Module { exprs: vec![] } })
}

fn query_name(query: &Query) -> &'static str {
    match query {
        Query::VarT { .. } => "var_t",
        Query::UniqObjName { .. } => "uniq_obj_name",
        Query::AttrT { .. } => "attr_t",
        Query::ArrayT { .. } => "array_t",
        Query::BinOpT { .. } => "binop_t",
        Query::UnaryOpT { .. } => "unaryop_t",
        Query::CallT { .. } => "call_t",
        Query::Grow { .. } => "grow",
        Query::Pop => "pop",
        Query::AssignParams { .. } => "assign_params",
        Query::Preregister { .. } => "preregister",
        Query::PreregisterModule { .. } => "preregister_module",
        Query::ScopeParams => "scope_params",
        Query::InstantiateTyBounds { .. } => "instantiate_ty_bounds",
        Query::OuterVarT { .. } => "outer_var_t",
        Query::OuterSubrT { .. } => "outer_subr_t",
        Query::Unify { .. } => "unify",
        Query::CausedBy => "caused_by",
        Query::AssignVar { .. } => "assign_var",
        Query::AssignSubr { .. } => "assign_subr",
        Query::ImportMod { .. } => "import_mod",
        Query::DerefToplevel { .. } => "deref_toplevel",
    }
}

/// Answers the queries one by one; gives their names and how lowering ended.
fn talk(lowerer: &mut ASTLowerer, ast: &AST, mode: &str, script: Vec<Reply>) -> (
    Vec<&'static str>,
    Ended,
) {
    let mut replies: Vec<Reply> = vec![];
    let mut names: Vec<&'static str> = vec![];
    for reply in script {
        match lowerer.lower(ast, mode, &replies) {
            Step::Ask(query) => names.push(query_name(&query)),
            Step::Done(_) => panic!("a reply is left over after {:?}", names),
        }
        replies.push(reply);
    }
    match lowerer.lower(ast, mode, &replies) {
        Step::Ask(query) => panic!("{} is not answered", query_name(&query)),
        Step::Done(ended) => (names, ended),
    }
}

/// The typed tree that the context is to finish, after the replies before that.
fn tree(ast: &AST, mode: &str, replies: Vec<Reply>) -> Vec<hir::Expr> {
    let mut lowerer = ASTLowerer::new();
    match lowerer.lower(ast, mode, &replies) {
        Step::Ask(Query::DerefToplevel { hir }) => {
            assert_eq!(hir.name, "main");
            hir.module.exprs
        }
        other => panic!("{:?}", other),
    }
}

/// The errors with which lowering ends.
fn errors(ast: &AST, mode: &str, mut replies: Vec<Reply>) -> Vec<LowerError> {
    replies.push(Reply::Derefed(Ok(empty_hir())));
    let mut lowerer = ASTLowerer::new();
    match lowerer.lower(ast, mode, &replies) {
        Step::Done(Err(errs)) => errs.errs,
        other => panic!("{:?}", other),
    }
}

fn ask<'a>(ast: &'a AST, replies: Vec<Reply>) -> Query<'a> {
    let mut lowerer = ASTLowerer::new();
    match lowerer.lower(ast, "exec", &replies) {
        Step::Ask(query) => query,
        other => panic!("{:?}", other),
    }
}

#[test]
fn new_lowerer_is_the_default_one() {
    assert_eq!(format!("{:?}", ASTLowerer::new()), format!("{:?}", ASTLowerer::default()));
    let english = ASTLowerer::with_language(Language::English);
    assert_eq!(format!("{:?}", ASTLowerer::new()), format!("{:?}", english));
}

#[test]
fn context_is_opened_for_a_module_inside_the_builtins() {
    let opening = || Opening {
        scope: Scope { name: "<module>".to_string(), kind: ContextKind::Module, level: 1 },
        outer: Some(Builtins),
    };
    let mut lowerer = ASTLowerer::new();
    assert_eq!(lowerer.opening(), opening());
    assert_eq!(ASTLowerer::default().opening(), opening());
    assert_eq!(ASTLowerer::with_language(Language::Japanese).opening(), opening());
    let ast = module(vec![var_def("v", vec![nat_lit("1")])]);
    let _ = lowerer.lower(&ast, "exec", &vec![done(), grown("v", 2), done()]);
    assert_eq!(lowerer.opening(), opening());
}

#[test]
fn empty_module_is_registered_and_finished() {
    let ast = module(vec![]);
    let script = vec![done(), Reply::Derefed(Ok(empty_hir()))];
    let (names, ended) = talk(&mut ASTLowerer::new(), &ast, "exec", script);
    assert_eq!(names, ["preregister_module", "deref_toplevel"]);
    let (hir, warns) = ended.unwrap();
    assert_eq!(hir, empty_hir());
    assert!(warns.is_empty());
}

#[test]
fn names_of_the_module_are_registered_first() {
    let ast = module(vec![nat_lit("1")]);
    assert_eq!(ask(&ast, vec![]), Query::PreregisterModule { module: &ast.module });
}

#[test]
fn failing_registration_ends_lowering() {
    let ast = module(vec![nat_lit("1")]);
    let script = vec![Reply::Done(Err(context_error("twice")))];
    let (_, ended) = talk(&mut ASTLowerer::new(), &ast, "exec", script);
    assert_eq!(ended.unwrap_err().errs, vec![context_error("twice")]);
}

#[test]
fn the_result_is_what_the_context_finishes() {
    let ast = module(vec![none()]);
    let made = Rc::new(hir::HIR {
        name: "made".to_string(),
        module: hir::Module { exprs: vec![hir_lit(TokenKind::NoneLit, "None")] },
    });
    let script = vec![done(), Reply::Derefed(Ok(made.clone()))];
    let (_, ended) = talk(&mut ASTLowerer::new(), &ast, "exec", script);
    assert_eq!(ended.unwrap().0, made);
}

#[test]
fn unused_value_is_an_error() {
    let ast = module(vec![none(), nat_lit("1")]);
    assert_eq!(errors(&ast, "exec", vec![done()]), vec![unused_error(2)]);
    assert_eq!(tree(&ast, "exec", vec![done()]), vec![hir_lit(TokenKind::NoneLit, "None")]);
}

#[test]
fn value_of_an_evaluation_is_used() {
    let ast = module(vec![nat_lit("1")]);
    assert_eq!(tree(&ast, "eval", vec![done()]), vec![hir_lit(TokenKind::NatLit, "1")]);
}

#[test]
fn value_that_holds_nothing_is_not_unused() {
    for t in [
        Ty::NoneType,
        Ty::Unit,
        Ty::Optional { mutable: false, inner: Rc::new(Ty::NoneType) },
        Ty::Optional { mutable: true, inner: Rc::new(Ty::Unit) },
    ] {
        let ast = module(vec![call(local("f"), vec![])]);
        assert_eq!(tree(&ast, "exec", vec![done(), callee_t(t)]).len(), 1);
    }
    for t in [
        Ty::Int,
        Ty::ASTOmitted,
        Ty::Optional { mutable: false, inner: Rc::new(Ty::Int) },
        Ty::Other(erg_common::ty::Type::Obj),
    ] {
        let ast = module(vec![call(local("f"), vec![])]);
        assert_eq!(errors(&ast, "exec", vec![done(), callee_t(t)]), vec![unused_error(1)]);
    }
}

#[test]
fn messages_are_written_in_the_language() {
    let texts = [
        (
            Language::Japanese,
            "式の評価結果が使われていません",
            "値を使わない場合は、discard関数を使用してください",
        ),
        (
            Language::SimplifiedChinese,
            "表达式评估结果未使用",
            "如果您不想使用该值，请使用discard函数",
        ),
        (
            Language::TraditionalChinese,
            "表達式評估結果未使用",
            "如果您不想使用該值，請使用discard函數",
        ),
        (
            Language::English,
            "the evaluation result of the expression is not used",
            "if you don't use the value, use discard function",
        ),
    ];
    for (lang, desc, hint) in texts {
        let ast = module(vec![nat_lit("1")]);
        let replies = vec![done(), Reply::Derefed(Ok(empty_hir()))];
        let expected = LowerError::Syntax {
            errno: 0,
            loc: Location::Line(1),
            caused_by: "<module>".to_string(),
            desc: desc.to_string(),
            hint: Some(hint.to_string()),
        };
        match ASTLowerer::with_language(lang).lower(&ast, "exec", &replies) {
            Step::Done(Err(errs)) => assert_eq!(errs.errs, vec![expected]),
            other => panic!("{:?}", other),
        }
    }
}

#[test]
fn variable_is_looked_up_in_the_current_scope() {
    let ast = module(vec![local("x")]);
    assert_eq!(
        ask(&ast, vec![done()]),
        Query::VarT { symbol: &sym("x"), namespace: "<module>".to_string() }
    );
    assert_eq!(
        ask(&ast, vec![done(), var_t(Ty::NoneType)]),
        Query::UniqObjName { symbol: &sym("x") }
    );
    let replies =
        vec![done(), var_t(Ty::NoneType), Reply::UniqObjName(Some("x_1".to_string()))];
    assert_eq!(tree(&ast, "exec", replies), vec![hir_local("x", Some("x_1"), Ty::NoneType)]);
}

#[test]
fn error_in_one_expression_leaves_the_others() {
    let ast = module(vec![local("x"), none(), local("y"), none()]);
    let replies = || {
        vec![
            done(),
            Reply::VarT(Err(context_error("no x"))),
            Reply::VarT(Err(context_error("no y"))),
        ]
    };
    assert_eq!(
        errors(&ast, "exec", replies()),
        vec![context_error("no x"), context_error("no y")]
    );
    let hir_none = || hir_lit(TokenKind::NoneLit, "None");
    assert_eq!(tree(&ast, "exec", replies()), vec![hir_none(), hir_none()]);
}

#[test]
fn call_is_inferred_with_its_arguments() {
    let mut args = args(vec![local("x")]);
    args.kw_args.push(KwArg { keyword: sym("base"), expr: nat_lit("2") });
    let paren = || (tok(TokenKind::LParen, "("), tok(TokenKind::RParen, ")"));
    args.paren = Some(paren());
    let ast = module(vec![Expr::Call(Call { obj: Box::new(local("f")), args })]);
    let before = || vec![done(), var_t(Ty::Nat), Reply::UniqObjName(None)];
    let pos = || vec![hir::PosArg { expr: hir_local("x", None, Ty::Nat) }];
    let kw = || {
        vec![hir::KwArg { keyword: sym("base"), expr: hir_lit(TokenKind::NatLit, "2") }]
    };
    assert_eq!(
        ask(&ast, before()),
        Query::CallT {
            obj: hir_local("f", None, Ty::ASTOmitted),
            pos_args: pos(),
            kw_args: kw(),
            namespace: "<module>".to_string(),
        }
    );
    let mut replies = before();
    replies.push(callee_t(Ty::NoneType));
    let expected = hir::Expr::Call(hir::Call {
        obj: Box::new(hir_local("f", None, Ty::ASTOmitted)),
        args: hir::Args { pos_args: pos(), kw_args: kw(), paren: Some(paren()) },
        sig_t: subr_t(Ty::NoneType),
    });
    assert_eq!(tree(&ast, "exec", replies), vec![expected]);
}

#[test]
fn failing_inference_of_a_call_is_reported() {
    let ast = module(vec![call(local("f"), vec![])]);
    let replies = vec![done(), Reply::CalleeT(Err(context_error("no f")))];
    assert_eq!(errors(&ast, "exec", replies), vec![context_error("no f")]);
}

#[test]
fn operators_are_inferred_at_their_operands() {
    let plus = || tok(TokenKind::Plus, "+");
    let minus = || tok(TokenKind::PreMinus, "-");
    let unary = Expr::UnaryOp(UnaryOp { op: minus(), expr: Box::new(nat_lit("2")) });
    let bin =
        Expr::BinOp(BinOp { op: plus(), lhs: Box::new(nat_lit("1")), rhs: Box::new(unary) });
    let ast = module(vec![bin]);
    assert_eq!(
        ask(&ast, vec![done()]),
        Query::UnaryOpT {
            op: &minus(),
            expr: hir_lit(TokenKind::NatLit, "2"),
            namespace: "<module>".to_string(),
        }
    );
    let rhs = || {
        hir::Expr::UnaryOp(hir::UnaryOp {
            op: minus(),
            expr: Box::new(hir_lit(TokenKind::NatLit, "2")),
            sig_t: subr_t(Ty::Int),
        })
    };
    assert_eq!(
        ask(&ast, vec![done(), callee_t(Ty::Int)]),
        Query::BinOpT {
            op: &plus(),
            lhs: hir_lit(TokenKind::NatLit, "1"),
            rhs: rhs(),
            namespace: "<module>".to_string(),
        }
    );
    let expected = hir::Expr::BinOp(hir::BinOp {
        op: plus(),
        lhs: Box::new(hir_lit(TokenKind::NatLit, "1")),
        rhs: Box::new(rhs()),
        sig_t: subr_t(Ty::Int),
    });
    let replies = || vec![done(), callee_t(Ty::Int), callee_t(Ty::Int)];
    assert_eq!(tree(&ast, "eval", replies()), vec![expected]);
    assert_eq!(errors(&ast, "exec", replies()), vec![unused_error(1)]);
}

#[test]
fn attribute_is_inferred_unless_it_is_called() {
    let attr = || {
        Expr::Accessor(Accessor::Attr(Attribute {
            obj: Box::new(local("x")),
            name: Local { symbol: sym("a") },
        }))
    };
    let hir_attr = |t: Ty| {
        hir::Expr::Accessor(hir::Accessor::Attr(hir::Attribute {
            obj: Box::new(hir_local("x", None, Ty::Int)),
            name: sym("a"),
            t: Rc::new(t),
        }))
    };
    let obj = || vec![done(), var_t(Ty::Int), Reply::UniqObjName(None)];
    let ast = module(vec![attr()]);
    assert_eq!(
        ask(&ast, obj()),
        Query::AttrT {
            obj: hir_local("x", None, Ty::Int),
            name: &sym("a"),
            namespace: "<module>".to_string(),
        }
    );
    let mut replies = obj();
    replies.push(Reply::AttrT(Ok(Rc::new(Ty::NoneType))));
    assert_eq!(tree(&ast, "exec", replies), vec![hir_attr(Ty::NoneType)]);
    let mut replies = obj();
    replies.push(Reply::AttrT(Err(context_error("no a"))));
    assert_eq!(errors(&ast, "exec", replies), vec![context_error("no a")]);

    let ast = module(vec![call(attr(), vec![])]);
    match ask(&ast, obj()) {
        Query::CallT { obj, .. } => assert_eq!(obj, hir_attr(Ty::ASTOmitted)),
        other => panic!("{:?}", other),
    }
}

#[test]
fn array_keeps_its_positional_elements() {
    let mut elems = args(vec![nat_lit("1"), nat_lit("2")]);
    elems.kw_args.push(KwArg { keyword: sym("k"), expr: nat_lit("3") });
    let array = Expr::Array(Array {
        l_sqbr: tok(TokenKind::LSqBr, "["),
        r_sqbr: tok(TokenKind::RSqBr, "]"),
        elems,
        guard: Some(Box::new(nat_lit("4"))),
    });
    let ast = module(vec![array]);
    assert_eq!(ask(&ast, vec![done()]), Query::ArrayT { level: 1 });
    let replies = || vec![done(), array_t(Ty::Str)];
    let expected = hir::Expr::Array(hir::Array {
        l_sqbr: tok(TokenKind::LSqBr, "["),
        r_sqbr: tok(TokenKind::RSqBr, "]"),
        level: 1,
        t: Rc::new(Ty::Str),
        elems: vec![
            hir::PosArg { expr: hir_lit(TokenKind::NatLit, "1") },
            hir::PosArg { expr: hir_lit(TokenKind::NatLit, "2") },
        ],
    });
    assert_eq!(tree(&ast, "eval", replies()), vec![expected]);
    assert_eq!(errors(&ast, "exec", replies()), vec![unused_error(1)]);
}

#[test]
fn array_in_a_call_has_its_names_left_open() {
    let array = Expr::Array(Array {
        l_sqbr: tok(TokenKind::LSqBr, "["),
        r_sqbr: tok(TokenKind::RSqBr, "]"),
        elems: args(vec![local("x")]),
        guard: None,
    });
    let ast = module(vec![call(array, vec![])]);
    match ask(&ast, vec![done(), array_t(Ty::Str)]) {
        Query::CallT { obj: hir::Expr::Array(array), .. } => {
            assert_eq!(array.elems[0].expr, hir_local("x", None, Ty::ASTOmitted));
        }
        other => panic!("{:?}", other),
    }
}

fn infos() -> Reply {
    Reply::ParamInfos(vec![
        ParamInfo { name: Some("a".to_string()), t: Rc::new(Ty::Int), has_default: false },
        ParamInfo { name: Some("b".to_string()), t: Rc::new(Ty::Str), has_default: true },
        ParamInfo { name: None, t: Rc::new(Ty::Bool), has_default: false },
    ])
}

#[test]
fn id_of_a_lambda_is_the_hash_of_its_signature() {
    let made = lambda(TokenKind::FuncArrow, vec![nat_lit("1")]);
    let sig = erg_parser::ast::LambdaSignature::new(
        (*params(&["x"])).clone(),
        None,
        TypeBoundSpecs::empty(),
    );
    assert_eq!(made.sig.id(), erg_common::get_hash(&sig));
    assert_eq!(*made.sig.params(), params(&["x"]));
    assert_eq!(*made.sig.return_t_spec(), None);
    assert_eq!(*made.sig.bounds(), TypeBoundSpecs::empty());
    let other = Lambda::new(
        LambdaSignature::new(params(&["y"]), None, TypeBoundSpecs::empty()),
        tok(TokenKind::FuncArrow, "->"),
        Block { exprs: vec![nat_lit("1")] },
    );
    assert_ne!(made.sig.id(), other.sig.id());
}

#[test]
fn lambda_is_lowered_in_its_own_scope() {
    let ast = module(vec![Expr::Lambda(lambda(TokenKind::FuncArrow, vec![local("x")]))]);
    let id = lambda(TokenKind::FuncArrow, vec![]).sig.id();
    assert_eq!(
        ask(&ast, vec![done()]),
        Query::Grow {
            name: format!("<lambda_{}>", id),
            kind: ContextKind::Func,
            vis: Visibility::Private,
        }
    );
    let script = vec![
        done(),
        grown("inner", 2),
        done(),
        done(),
        var_t(Ty::Int),
        Reply::UniqObjName(None),
        infos(),
        no_bounds(),
        popped(),
        Reply::Derefed(Ok(empty_hir())),
    ];
    let (names, _) = talk(&mut ASTLowerer::new(), &ast, "eval", script);
    assert_eq!(
        names,
        [
            "preregister_module",
            "grow",
            "assign_params",
            "preregister",
            "var_t",
            "uniq_obj_name",
            "scope_params",
            "instantiate_ty_bounds",
            "pop",
            "deref_toplevel",
        ]
    );
    match ask(&ast, vec![done(), grown("inner", 2), done(), done()]) {
        Query::VarT { namespace, .. } => assert_eq!(namespace, "inner"),
        other => panic!("{:?}", other),
    }
}

#[test]
fn type_of_a_lambda_is_made_of_its_parameters_and_body() {
    let ast = module(vec![Expr::Lambda(lambda(TokenKind::FuncArrow, vec![none(), nat_lit("1")]))]);
    let replies = vec![
        done(),
        grown("inner", 2),
        done(),
        done(),
        infos(),
        no_bounds(),
        popped(),
    ];
    let t = Ty::Callee(Rc::new(CalleeTy::Subr(SubrTy {
        kind: SubrKind::Func,
        non_default_params: vec![ParamTy { name: Some("b".to_string()), ty: Rc::new(Ty::Str) }],
        default_params: vec![
            ParamTy { name: Some("a".to_string()), ty: Rc::new(Ty::Int) },
            ParamTy { name: None, ty: Rc::new(Ty::Bool) },
        ],
        return_t: Rc::new(Ty::Nat),
    })));
    let source = lambda(TokenKind::FuncArrow, vec![]);
    let expected = hir::Expr::Lambda(hir::Lambda {
        id: source.sig.id(),
        params: params(&["x"]),
        op: tok(TokenKind::FuncArrow, "->"),
        body: hir::Block {
            exprs: vec![hir_lit(TokenKind::NoneLit, "None"), hir_lit(TokenKind::NatLit, "1")],
        },
        t: Rc::new(t),
    });
    assert_eq!(tree(&ast, "eval", replies), vec![expected]);
}

#[test]
fn bounds_of_a_procedure_quantify_its_type() {
    let ast = module(vec![Expr::Lambda(lambda(TokenKind::ProcArrow, vec![none()]))]);
    match ask(&ast, vec![done()]) {
        Query::Grow { kind, .. } => assert_eq!(kind, ContextKind::Proc),
        other => panic!("{:?}", other),
    }
    let body = || vec![done(), grown("inner", 2), done(), done(), Reply::ParamInfos(vec![])];
    assert_eq!(
        ask(&ast, body()),
        Query::InstantiateTyBounds {
            bounds: &TypeBoundSpecs::empty(),
            mode: RegistrationMode::Normal,
        }
    );
    let bounds = || {
        let mut bounds: TyBounds = TyBounds::new();
        bounds.insert(erg_common::ty::TyBound::Instance {
            name: "T".into(),
            t: erg_common::ty::Type::Nat,
        });
        Rc::new(bounds)
    };
    let mut replies = body();
    replies.push(Reply::Bounds(Ok(bounds())));
    replies.push(popped());
    let unbound = Ty::Callee(Rc::new(CalleeTy::Subr(SubrTy {
        kind: SubrKind::Proc,
        non_default_params: vec![],
        default_params: vec![],
        return_t: Rc::new(Ty::NoneType),
    })));
    match &tree(&ast, "eval", replies)[0] {
        hir::Expr::Lambda(lambda) => assert_eq!(
            *lambda.t,
            Ty::Quantified { unbound_callable: Rc::new(unbound), bounds: bounds() }
        ),
        other => panic!("{:?}", other),
    }
}

#[test]
fn failing_lambda_leaves_its_scope() {
    let of_scope = || Reply::Popped(Err(LowerErrors { errs: vec![context_error("of scope")] }));
    let failed = || Reply::Done(Err(context_error("failed")));
    let failures: Vec<Vec<Reply>> = vec![
        vec![failed()],
        vec![done(), failed()],
        vec![done(), done(), Reply::VarT(Err(context_error("failed")))],
        vec![
            done(),
            done(),
            var_t(Ty::Int),
            Reply::UniqObjName(None),
            infos(),
            Reply::Bounds(Err(context_error("failed"))),
        ],
    ];
    for failure in failures {
        let ast = module(vec![
            Expr::Lambda(lambda(TokenKind::FuncArrow, vec![local("x")])),
            local("y"),
        ]);
        let mut replies = vec![done(), grown("inner", 2)];
        replies.extend(failure);
        replies.push(of_scope());
        let mut lowerer = ASTLowerer::new();
        match lowerer.lower(&ast, "exec", &replies) {
            Step::Ask(Query::VarT { namespace, .. }) => assert_eq!(namespace, "<module>"),
            other => panic!("{:?}", other),
        }
        replies.push(var_t(Ty::NoneType));
        replies.push(Reply::UniqObjName(None));
        assert_eq!(
            errors(&ast, "exec", replies),
            vec![context_error("of scope"), context_error("failed")]
        );
    }
}

#[test]
fn refused_scope_is_not_entered() {
    let ast = module(vec![
        Expr::Lambda(lambda(TokenKind::FuncArrow, vec![nat_lit("1")])),
        var_def("v", vec![nat_lit("1")]),
    ]);
    let refused = || Reply::Grown(Err(context_error("no scope")));
    let script = vec![done(), refused(), refused(), Reply::Derefed(Ok(empty_hir()))];
    let (names, ended) = talk(&mut ASTLowerer::new(), &ast, "exec", script);
    assert_eq!(names, ["preregister_module", "grow", "grow", "deref_toplevel"]);
    assert_eq!(
        ended.unwrap_err().errs,
        vec![context_error("no scope"), context_error("no scope")]
    );
}

#[test]
fn variable_gets_the_type_of_its_body() {
    let ast = module(vec![var_def("v", vec![none(), nat_lit("1")])]);
    assert_eq!(
        ask(&ast, vec![done()]),
        Query::Grow {
            name: "v".to_string(),
            kind: ContextKind::Instant,
            vis: Visibility::Private,
        }
    );
    let body = || vec![done(), grown("v", 2), done()];
    assert_eq!(ask(&ast, body()), Query::OuterVarT { name: &"v".to_string() });
    let mut replies = body();
    replies.push(Reply::OuterVarT(None));
    let sig = var_sig("v");
    assert_eq!(
        ask(&ast, replies),
        Query::AssignVar { sig: &sig, id: DefId(7), t: Rc::new(Ty::Nat) }
    );
    let mut replies = body();
    replies.extend(vec![Reply::OuterVarT(None), done(), popped()]);
    let expected = hir::Expr::Def(hir::Def {
        sig: hir::Signature::Var(hir::VarSignature {
            pat: VarPattern::VarName(var_name("v")),
            t: Rc::new(Ty::Nat),
        }),
        body: hir::DefBody {
            op: tok(TokenKind::Equal, "="),
            block: hir::Block {
                exprs: vec![hir_lit(TokenKind::NoneLit, "None"), hir_lit(TokenKind::NatLit, "1")],
            },
            id: DefId(7),
        },
    });
    assert_eq!(tree(&ast, "exec", replies), vec![expected]);
}

#[test]
fn mismatch_of_a_variable_is_reported_and_stops_nothing() {
    let ast = module(vec![var_def("v", vec![nat_lit("1")])]);
    let body = || {
        vec![done(), grown("v", 2), done(), Reply::OuterVarT(Some(Rc::new(Ty::Str)))]
    };
    assert_eq!(
        ask(&ast, body()),
        Query::Unify {
            expect: Rc::new(Ty::Str),
            found: Rc::new(Ty::Nat),
            loc: at_v(),
        }
    );
    let mut replies = body();
    replies.extend(vec![
        Reply::Done(Err(context_error("not unified"))),
        Reply::CausedBy("<module>::v".to_string()),
        done(),
        popped(),
    ]);
    let expected = LowerError::TypeMismatch {
        errno: 55,
        loc: at_v(),
        caused_by: "<module>::v".to_string(),
        name: "v".to_string(),
        expect: Rc::new(Ty::Str),
        found: Rc::new(Ty::Nat),
    };
    assert_eq!(errors(&ast, "exec", replies), vec![expected]);
    let mut replies = body();
    replies.push(Reply::Done(Err(context_error("not unified"))));
    replies.push(Reply::CausedBy(String::new()));
    assert_eq!(query_name(&ask(&ast, replies)), "assign_var");
    let mut replies = body();
    replies.extend(vec![done(), done(), popped()]);
    assert_eq!(tree(&ast, "exec", replies).len(), 1);
}

#[test]
fn import_is_handed_to_the_context() {
    let path = || Expr::Lit(Literal { token: tok(TokenKind::StrLit, "\"math\"") });
    let ast = module(vec![var_def("math", vec![call(local("import"), vec![path()])])]);
    let assigned = || {
        vec![
            done(),
            grown("math", 2),
            done(),
            callee_t(Ty::Int),
            Reply::OuterVarT(None),
            done(),
        ]
    };
    assert_eq!(
        ask(&ast, assigned()),
        Query::ImportMod {
            name: &var_name("math"),
            path: hir_lit(TokenKind::StrLit, "\"math\""),
        }
    );
    let mut replies = assigned();
    replies.extend(vec![done(), popped()]);
    assert_eq!(tree(&ast, "exec", replies).len(), 1);
    let mut replies = assigned();
    replies.extend(vec![Reply::Done(Err(context_error("no module"))), popped()]);
    assert_eq!(errors(&ast, "exec", replies), vec![context_error("no module")]);

    let ast = module(vec![var_def("v", vec![call(local("other"), vec![path()])])]);
    assert_eq!(query_name(&ask(&ast, assigned())), "pop");
}

#[test]
fn subroutine_is_checked_against_what_it_gives_back() {
    let ast = module(vec![subr_def("f", vec![nat_lit("1")])]);
    let outer = || Reply::OuterSubrT(subr_t(Ty::Int));
    let script = vec![
        done(),
        grown("f", 2),
        outer(),
        done(),
        done(),
        done(),
        done(),
        popped(),
        Reply::Derefed(Ok(empty_hir())),
    ];
    let (names, ended) = talk(&mut ASTLowerer::new(), &ast, "exec", script);
    assert_eq!(
        names,
        [
            "preregister_module",
            "grow",
            "outer_subr_t",
            "assign_params",
            "preregister",
            "unify",
            "assign_subr",
            "pop",
            "deref_toplevel",
        ]
    );
    assert!(ended.is_ok());
    let sig = subr_sig("f");
    let body = || vec![done(), grown("f", 2), outer(), done(), done()];
    assert_eq!(
        ask(&ast, body()),
        Query::Unify {
            expect: Rc::new(Ty::Int),
            found: Rc::new(Ty::Nat),
            loc: Location::LineRange(1, 41),
        }
    );
    let mut replies = body();
    replies.push(done());
    assert_eq!(
        ask(&ast, replies),
        Query::AssignSubr { sig: &sig, id: DefId(7), t: Rc::new(Ty::Nat) }
    );
    let mut replies = body();
    replies.extend(vec![done(), done(), popped()]);
    let expected = hir::Expr::Def(hir::Def {
        sig: hir::Signature::Subr(hir::SubrSignature {
            name: sym("f"),
            params: params(&["x"]),
            sig_t: subr_t(Ty::Int),
        }),
        body: hir::DefBody {
            op: tok(TokenKind::Equal, "="),
            block: hir::Block { exprs: vec![hir_lit(TokenKind::NatLit, "1")] },
            id: DefId(7),
        },
    });
    assert_eq!(tree(&ast, "exec", replies), vec![expected]);
}

#[test]
fn mismatch_of_a_subroutine_is_reported() {
    let ast = module(vec![subr_def("f", vec![nat_lit("1")])]);
    let replies = vec![
        done(),
        grown("f", 2),
        Reply::OuterSubrT(subr_t(Ty::Str)),
        done(),
        done(),
        Reply::Done(Err(context_error("not unified"))),
        Reply::CausedBy("f".to_string()),
        done(),
        popped(),
    ];
    let expected = LowerError::TypeMismatch {
        errno: 55,
        loc: Location::LineRange(1, 41),
        caused_by: "f".to_string(),
        name: "f".to_string(),
        expect: Rc::new(Ty::Str),
        found: Rc::new(Ty::Nat),
    };
    assert_eq!(errors(&ast, "exec", replies), vec![expected]);
}

#[test]
fn failing_definition_leaves_its_scope() {
    let ast = module(vec![subr_def("f", vec![local("y")]), local("z")]);
    let replies = vec![
        done(),
        grown("f", 2),
        Reply::OuterSubrT(subr_t(Ty::Int)),
        Reply::Done(Err(context_error("params"))),
        Reply::Popped(Err(LowerErrors {
            errs: vec![context_error("first"), context_error("second")],
        })),
        Reply::VarT(Err(context_error("no z"))),
    ];
    assert_eq!(
        errors(&ast, "exec", replies),
        vec![
            context_error("first"),
            context_error("second"),
            context_error("params"),
            context_error("no z"),
        ]
    );
}

#[test]
fn array_in_a_scope_is_made_at_its_level() {
    let array = Expr::Array(Array {
        l_sqbr: tok(TokenKind::LSqBr, "["),
        r_sqbr: tok(TokenKind::RSqBr, "]"),
        elems: args(vec![]),
        guard: None,
    });
    let ast = module(vec![var_def("v", vec![array])]);
    assert_eq!(
        ask(&ast, vec![done(), grown("v", 5), done()]),
        Query::ArrayT { level: 5 }
    );
    let replies =
        vec![done(), grown("v", 5), done(), array_t(Ty::Str), Reply::OuterVarT(None)];
    match ask(&ast, replies) {
        Query::AssignVar { t, .. } => assert_eq!(*t, Ty::Str),
        other => panic!("{:?}", other),
    }
}

#[test]
fn waiting_leaves_the_lowerer_as_it_was() {
    let ast = module(vec![nat_lit("1"), subr_def("f", vec![local("y")])]);
    let mut lowerer = ASTLowerer::new();
    let before = format!("{:?}", lowerer);
    let mut replies = vec![];
    for reply in [
        done(),
        grown("f", 2),
        Reply::OuterSubrT(subr_t(Ty::Int)),
        done(),
        done(),
        var_t(Ty::Int),
        Reply::UniqObjName(None),
        done(),
        done(),
        popped(),
    ] {
        assert!(matches!(lowerer.lower(&ast, "exec", &replies), Step::Ask(_)));
        assert_eq!(format!("{:?}", lowerer), before);
        replies.push(reply);
    }
    assert!(matches!(
        lowerer.lower(&ast, "exec", &replies),
        Step::Ask(Query::DerefToplevel { .. })
    ));
    assert_eq!(format!("{:?}", lowerer), before);
}

#[test]
fn reply_to_something_else_answers_nothing() {
    let ast = module(vec![local("x")]);
    for wrong in [done(), popped(), callee_t(Ty::Int), Reply::UniqObjName(None)] {
        let replies = vec![done(), wrong, var_t(Ty::Int)];
        assert_eq!(
            ask(&ast, replies),
            Query::VarT { symbol: &sym("x"), namespace: "<module>".to_string() }
        );
    }
}

#[test]
fn more_replies_change_nothing_at_the_end() {
    let ast = module(vec![nat_lit("1")]);
    let replies = vec![done(), Reply::Derefed(Ok(empty_hir())), done(), popped()];
    let mut lowerer = ASTLowerer::new();
    match lowerer.lower(&ast, "exec", &replies) {
        Step::Done(Err(errs)) => assert_eq!(errs.errs, vec![unused_error(1)]),
        other => panic!("{:?}", other),
    }
    assert_eq!(format!("{:?}", lowerer), format!("{:?}", ASTLowerer::new()));
}

#[test]
fn errors_stay_when_the_tree_cannot_be_finished() {
    let ast = module(vec![nat_lit("1")]);
    let mut lowerer = ASTLowerer::new();
    let script = vec![done(), Reply::Derefed(Err(context_error("left open")))];
    let (_, ended) = talk(&mut lowerer, &ast, "exec", script);
    assert_eq!(ended.unwrap_err().errs, vec![context_error("left open")]);

    let ast = module(vec![none()]);
    let script = vec![done(), Reply::Derefed(Ok(empty_hir()))];
    let (_, ended) = talk(&mut lowerer, &ast, "exec", script);
    assert_eq!(ended.unwrap_err().errs, vec![unused_error(1)]);

    let script = vec![done(), Reply::Derefed(Ok(empty_hir()))];
    let (_, ended) = talk(&mut lowerer, &ast, "exec", script);
    assert!(ended.is_ok());
}

#[test]
fn every_expression_comes_into_the_tree_on_success() {
    let ast = module(vec![none(), var_def("v", vec![nat_lit("1")]), none()]);
    let replies =
        vec![done(), grown("v", 2), done(), Reply::OuterVarT(None), done(), popped()];
    let exprs = tree(&ast, "exec", replies);
    assert_eq!(exprs.len(), 3);
    assert!(matches!(exprs[0], hir::Expr::Lit(_)));
    assert!(matches!(exprs[1], hir::Expr::Def(_)));
    assert!(matches!(exprs[2], hir::Expr::Lit(_)));
}

#[test]
fn support_is_told() {
    let unsupported = |expr: Expr| !module(vec![none(), expr]).module.is_supported();
    let supported = |expr: Expr| module(vec![none(), expr]).module.is_supported();
    assert!(supported(nat_lit("1")));
    assert!(unsupported(Expr::Lit(Literal { token: sym("x") })));
    assert!(supported(local("x")));
    assert!(unsupported(Expr::Accessor(Accessor::SelfDot(Local { symbol: sym("x") }))));
    assert!(unsupported(decl()));
    assert!(unsupported(call(local("f"), vec![nat_lit("1"), decl()])));
    assert!(unsupported(call(decl(), vec![])));
    assert!(supported(Expr::Lambda(lambda(TokenKind::FuncArrow, vec![nat_lit("1")]))));
    assert!(unsupported(Expr::Lambda(lambda(TokenKind::FuncArrow, vec![]))));
    assert!(unsupported(Expr::Lambda(lambda(TokenKind::FuncArrow, vec![decl()]))));
    assert!(supported(subr_def("f", vec![nat_lit("1")])));
    assert!(unsupported(subr_def("f", vec![])));
    assert!(supported(var_def("v", vec![call(local("import"), vec![nat_lit("1")])])));
    assert!(unsupported(var_def("v", vec![call(local("import"), vec![])])));
    assert!(supported(var_def("v", vec![call(local("f"), vec![])])));
    let def = |pat: VarPattern, block: Vec<Expr>| {
        let sig = VarSignature { pat, t_spec: None, t_spec_loc: Location::Unknown };
        Expr::Def(Def { sig: Signature::Var(sig), body: def_body(block) })
    };
    assert!(supported(def(VarPattern::SelfDot(sym("x")), vec![nat_lit("1")])));
    assert!(unsupported(def(VarPattern::SelfDot(sym("x")), vec![call(local("f"), vec![])])));
    assert!(unsupported(def(VarPattern::Discard(sym("_")), vec![nat_lit("1")])));
    let tuple = erg_parser::ast::VarTuplePattern::new(None, erg_parser::ast::Vars::empty());
    assert!(unsupported(def(VarPattern::Tuple(Rc::new(tuple)), vec![nat_lit("1")])));
    let dict = erg_parser::ast::Dict::new(
        erg_parser::token::Token::from_str(erg_parser::token::TokenKind::LBrace, "{"),
        erg_parser::token::Token::from_str(erg_parser::token::TokenKind::RBrace, "}"),
        erg_parser::ast::Args::empty(),
        None,
    );
    assert!(unsupported(Expr::Dict(dict)));
    let index = Literal { token: tok(TokenKind::NatLit, "0") };
    let attr = TupleAttribute { obj: Box::new(local("x")), index };
    assert!(unsupported(Expr::Accessor(Accessor::TupleAttr(attr))));
}

#[test]
fn replies_are_told_from_each_other() {
    let x = sym("x");
    let query = Query::VarT { symbol: &x, namespace: String::new() };
    assert!(var_t(Ty::Int).answers(&query));
    assert!(Reply::VarT(Err(context_error("no x"))).answers(&query));
    assert!(!done().answers(&query));
    assert!(!callee_t(Ty::Int).answers(&query));
    assert!(popped().answers(&Query::Pop));
    assert!(!grown("f", 2).answers(&Query::Pop));
    assert!(Reply::CausedBy(String::new()).answers(&Query::CausedBy));
    assert!(infos().answers(&Query::ScopeParams));
    assert!(done().answers(&Query::ImportMod {
        name: &x,
        path: hir_lit(TokenKind::StrLit, "\"math\""),
    }));
}

/// Whether lowering comes to something that has no lowering, and changes nothing then.
fn stuck(expr: Expr, replies: Vec<Reply>) -> bool {
    let ast = module(vec![nat_lit("1"), expr]);
    let mut lowerer = ASTLowerer::new();
    let none = lowerer.try_lower(&ast, "exec", &replies).is_none();
    if none {
        assert_eq!(format!("{:?}", lowerer), format!("{:?}", ASTLowerer::new()));
    }
    none
}

#[test]
fn what_has_no_lowering_is_only_met_where_lowering_comes_to_it() {
    assert!(stuck(decl(), vec![done()]));
    assert!(!stuck(decl(), vec![Reply::Done(Err(context_error("twice")))]));
    assert!(stuck(Expr::Lit(Literal { token: sym("x") }), vec![done()]));
    assert!(stuck(Expr::Accessor(Accessor::SelfDot(Local { symbol: sym("x") })), vec![done()]));

    let late = || call(local("f"), vec![local("x"), decl()]);
    assert!(!stuck(late(), vec![done(), Reply::VarT(Err(context_error("no x")))]));
    assert!(stuck(late(), vec![done(), var_t(Ty::Int), Reply::UniqObjName(None)]));

    let empty = || Expr::Lambda(lambda(TokenKind::FuncArrow, vec![]));
    let in_lambda = || {
        vec![
            done(),
            grown("inner", 2),
            done(),
            done(),
            Reply::ParamInfos(vec![]),
            no_bounds(),
        ]
    };
    assert!(!stuck(empty(), in_lambda()));
    let mut replies = in_lambda();
    replies.push(popped());
    assert!(stuck(empty(), replies));

    let subr = vec![done(), grown("f", 2), Reply::OuterSubrT(subr_t(Ty::Int)), done(), done()];
    assert!(stuck(subr_def("f", vec![]), subr));
    assert!(stuck(var_def("v", vec![]), vec![done(), grown("v", 2), done()]));
    let unnamed = VarSignature {
        pat: VarPattern::Discard(sym("_")),
        t_spec: None,
        t_spec_loc: Location::Unknown,
    };
    let unnamed = Def { sig: Signature::Var(unnamed), body: def_body(vec![nat_lit("1")]) };
    assert!(stuck(Expr::Def(unnamed), vec![done()]));

    let assigned = || {
        vec![
            done(),
            grown("v", 2),
            done(),
            callee_t(Ty::Int),
            Reply::OuterVarT(None),
            done(),
        ]
    };
    assert!(stuck(var_def("v", vec![call(local("import"), vec![])]), assigned()));
    assert!(!stuck(var_def("v", vec![call(local("f"), vec![])]), assigned()));
    let own = VarSignature {
        pat: VarPattern::SelfDot(sym("v")),
        t_spec: None,
        t_spec_loc: Location::Unknown,
    };
    let own = Def { sig: Signature::Var(own), body: def_body(vec![call(local("f"), vec![])]) };
    assert!(stuck(Expr::Def(own), assigned()));
}

#[test]
fn written_type_belongs_to_the_place_of_a_signature() {
    let t_spec = TypeSpec::PreDeclTy(PreDeclTypeSpec::Simple(SimpleTypeSpec::new(
        VarName::from_static("Int"),
        ConstArgs::empty(),
    )));
    let end = Location::Range { ln_begin: 40, col_begin: 8, ln_end: 40, col_end: 11 };
    let mut sig = var_sig("v");
    assert_eq!(sig.loc(), at_v());
    sig.t_spec = Some(t_spec);
    sig.t_spec_loc = end;
    let whole = Location::Range { ln_begin: 40, col_begin: 4, ln_end: 40, col_end: 11 };
    assert_eq!(sig.loc(), whole);
    let ast = module(vec![Expr::Def(Def {
        sig: Signature::Var(sig),
        body: def_body(vec![nat_lit("1")]),
    })]);
    let replies =
        vec![done(), grown("v", 2), done(), Reply::OuterVarT(Some(Rc::new(Ty::Int)))];
    match ask(&ast, replies) {
        Query::Unify { loc, .. } => assert_eq!(loc, whole),
        other => panic!("{:?}", other),
    }
}

#[test]
fn type_that_cannot_be_called_is_only_met_where_it_is_read() {
    let not_called = || Reply::OuterSubrT(Rc::new(Ty::Nat));
    let subr = || subr_def("f", vec![nat_lit("1")]);
    let failing = vec![
        done(),
        grown("f", 2),
        not_called(),
        Reply::Done(Err(context_error("params"))),
        popped(),
    ];
    assert!(!stuck(subr(), failing));
    let read = vec![done(), grown("f", 2), not_called(), done(), done()];
    assert!(stuck(subr(), read));

    let not_called = || Reply::CalleeT(Ok(Rc::new(Ty::Nat)));
    assert!(stuck(call(local("f"), vec![]), vec![done(), not_called()]));
    let ast = module(vec![call(local("f"), vec![])]);
    assert_eq!(tree(&ast, "eval", vec![done(), not_called()]).len(), 1);
    let ast = module(vec![call(local("f"), vec![call(local("g"), vec![])])]);
    let replies = vec![done(), not_called(), callee_t(Ty::NoneType)];
    assert_eq!(tree(&ast, "exec", replies).len(), 1);
}

#[test]
fn any_mode_but_eval_is_the_same() {
    let ast = module(vec![none(), nat_lit("1")]);
    for mode in ["exec", "", "evaluate"] {
        assert_eq!(errors(&ast, mode, vec![done()]), vec![unused_error(2)]);
    }
}
