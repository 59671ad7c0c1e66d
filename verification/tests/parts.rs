//! Types, texts, tokens and lists of errors.
use std::rc::Rc;

use erg_lower::error::{Location, LowerError, LowerErrors};
use erg_lower::outside::TyBounds;
use erg_lower::text::{push_decimal, same_text, write_lambda_name};
use erg_lower::token::{Token, TokenKind};
use erg_lower::ty::{CalleeTy, ParamTy, SubrKind, SubrTy, Ty};

fn error(desc: &str) -> LowerError {
    LowerError::Syntax {
        errno: 0,
        loc: Location::Unknown,
        caused_by: "test".to_string(),
        desc: desc.to_string(),
        hint: None,
    }
}

#[test]
fn literals_have_the_type_of_their_tokens() {
    for (kind, t) in [
        (TokenKind::NatLit, Ty::Nat),
        (TokenKind::IntLit, Ty::Int),
        (TokenKind::RatioLit, Ty::Ratio),
        (TokenKind::StrLit, Ty::Str),
        (TokenKind::BoolLit, Ty::Bool),
        (TokenKind::NoneLit, Ty::NoneType),
        (TokenKind::NoImplLit, Ty::NotImplemented),
        (TokenKind::EllipsisLit, Ty::Ellipsis),
        (TokenKind::InfLit, Ty::Inf),
    ] {
        assert!(kind.writes_literal());
        assert_eq!(Ty::of_literal(kind), t);
    }
    assert!(!TokenKind::Symbol.writes_literal());
}

#[test]
fn options_of_nothing_hold_nothing() {
    let option = |inner: Ty| Ty::Optional { mutable: false, inner: Rc::new(inner) };
    assert!(Ty::NoneType.is_nonelike());
    assert!(Ty::Unit.is_nonelike());
    assert!(option(option(Ty::NoneType)).is_nonelike());
    assert!(!option(Ty::Nat).is_nonelike());
    assert!(!Ty::Nat.is_nonelike());
    assert!(!Ty::Other(erg_common::ty::Type::Obj).is_nonelike());
}

#[test]
fn callables_give_back_their_return_type() {
    let callable = CalleeTy::Callable {
        param_ts: vec![Rc::new(Ty::Nat)],
        return_t: Rc::new(Ty::Str),
    };
    assert_eq!(*callable.return_t(), Rc::new(Ty::Str));
    assert_eq!(Ty::Callee(Rc::new(callable)).return_t(), Some(&Rc::new(Ty::Str)));
    assert_eq!(Ty::Str.return_t(), None);
    let quantified = Ty::quantified(
        Ty::func(vec![], vec![], Rc::new(Ty::Nat)),
        Rc::new(TyBounds::new()),
    );
    assert_eq!(quantified.return_t(), None);
}

#[test]
fn subroutine_types_are_built_from_their_parts() {
    let param = |name: &str| ParamTy { name: Some(name.to_string()), ty: Rc::new(Ty::Nat) };
    let built = |kind: SubrKind| {
        Ty::Callee(Rc::new(CalleeTy::Subr(SubrTy {
            kind,
            non_default_params: vec![param("a")],
            default_params: vec![param("b"), param("c")],
            return_t: Rc::new(Ty::Bool),
        })))
    };
    let parts = || (vec![param("a")], vec![param("b"), param("c")], Rc::new(Ty::Bool));
    let (nd, d, ret) = parts();
    assert_eq!(Ty::func(nd, d, ret), built(SubrKind::Func));
    let (nd, d, ret) = parts();
    assert_eq!(Ty::proc(nd, d, ret), built(SubrKind::Proc));
    let bounds = || {
        let mut bounds: TyBounds = TyBounds::new();
        bounds.insert(erg_common::ty::TyBound::Instance {
            name: "N".into(),
            t: erg_common::ty::Type::Nat,
        });
        Rc::new(bounds)
    };
    assert_eq!(
        Ty::quantified(built(SubrKind::Func), bounds()),
        Ty::Quantified { unbound_callable: Rc::new(built(SubrKind::Func)), bounds: bounds() }
    );
}

#[test]
fn lambdas_are_named_by_their_id() {
    assert_eq!(write_lambda_name(0), "<lambda_0>");
    assert_eq!(write_lambda_name(9), "<lambda_9>");
    assert_eq!(write_lambda_name(10), "<lambda_10>");
    assert_eq!(write_lambda_name(1234567890), "<lambda_1234567890>");
    assert_eq!(write_lambda_name(usize::MAX), format!("<lambda_{}>", usize::MAX));
    let mut text = "n = ".to_string();
    push_decimal(&mut text, 4096);
    assert_eq!(text, "n = 4096");
}

#[test]
fn texts_are_compared() {
    assert!(same_text("eval", "eval"));
    assert!(!same_text("eval", "exec"));
    assert!(!same_text("eval", "evaluate"));
    assert!(same_text("", ""));
}

#[test]
fn errors_are_collected_in_order() {
    let mut errs = LowerErrors::empty();
    assert!(errs.is_empty());
    errs.push(error("a"));
    errs.append(&LowerErrors { errs: vec![error("b"), error("c")] });
    assert_eq!(errs.len(), 3);
    assert_eq!(errs.errs, vec![error("a"), error("b"), error("c")]);
    errs.truncate(2);
    assert_eq!(errs.errs, vec![error("a"), error("b")]);
    let taken = errs.take_all();
    assert_eq!(taken.errs, vec![error("a"), error("b")]);
    assert!(errs.is_empty());
    assert_eq!(LowerErrors::of(error("d")).errs, vec![error("d")]);
}

#[test]
fn copies_of_tokens_are_equal() {
    let token = Token::new(TokenKind::Plus, "+".to_string(), 3, 4);
    assert_eq!(token.dup(), token);
    assert!(token.is(TokenKind::Plus));
    assert!(!token.is(TokenKind::Minus));
}

#[test]
fn tokens_stand_on_their_line() {
    let token = Token::new(TokenKind::Symbol, "x1".to_string(), 3, 4);
    let at = |col_end: usize| Location::Range { ln_begin: 3, col_begin: 4, ln_end: 3, col_end };
    assert_eq!(token.loc(), at(6));
    let token = Token::new(TokenKind::Symbol, "\u{3042}".to_string(), 3, 4);
    assert_eq!(token.loc(), at(7));
    let token = Token::new(TokenKind::Symbol, "x".to_string(), 0, 4);
    assert_eq!(token.loc(), Location::Unknown);
}

#[test]
fn places_are_joined_from_begin_to_end() {
    let range = |ln: usize, col: usize| Location::Range {
        ln_begin: ln,
        col_begin: col,
        ln_end: ln,
        col_end: col + 1,
    };
    assert_eq!(
        Location::concat(range(1, 2), range(3, 4)),
        Location::Range { ln_begin: 1, col_begin: 2, ln_end: 3, col_end: 5 }
    );
    assert_eq!(Location::concat(range(1, 2), Location::Line(3)), Location::LineRange(1, 3));
    assert_eq!(Location::concat(Location::LineRange(1, 2), range(3, 4)), Location::LineRange(1, 3));
    assert_eq!(Location::concat(range(1, 2), Location::Unknown), Location::Line(1));
    assert_eq!(Location::concat(Location::Unknown, range(3, 4)), Location::Line(3));
    assert_eq!(Location::concat(Location::Unknown, Location::Unknown), Location::Unknown);
    let pair =
        Location::RangePair { ln_begin: 5, col_first: (1, 2), ln_end: 6, col_second: (3, 4) };
    assert_eq!(Location::concat(pair, pair), Location::LineRange(5, 6));
}
