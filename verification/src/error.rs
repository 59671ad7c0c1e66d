//! Locations, the errors of lowering, and the lists that collect them.
use std::rc::Rc;
use vstd::prelude::*;

use crate::ty::{opt_str_view, Ty, TyView};

verus! {

/// Points at a place in the source.
#[derive(Debug, Clone, Copy, PartialEq, Eq, Hash)]
pub enum Location {
    RangePair {
        ln_begin: usize,
        col_first: (usize, usize),
        ln_end: usize,
        col_second: (usize, usize),
    },
    Range { ln_begin: usize, col_begin: usize, ln_end: usize, col_end: usize },
    LineRange(usize, usize),
    Line(usize),
    Unknown,
}

impl Location {
    /// The line where the place begins.
    pub open spec fn ln_begin(self) -> Option<usize> {
        match self {
            Location::RangePair { ln_begin, .. } => Some(ln_begin),
            Location::Range { ln_begin, .. } => Some(ln_begin),
            Location::LineRange(ln_begin, _) => Some(ln_begin),
            Location::Line(lineno) => Some(lineno),
            Location::Unknown => None,
        }
    }

    /// The line where the place ends.
    pub open spec fn ln_end(self) -> Option<usize> {
        match self {
            Location::RangePair { ln_end, .. } => Some(ln_end),
            Location::Range { ln_end, .. } => Some(ln_end),
            Location::LineRange(_, ln_end) => Some(ln_end),
            Location::Line(lineno) => Some(lineno),
            Location::Unknown => None,
        }
    }

    /// The place from the beginning of one to the end of another. Its columns are known where the
    /// two are plain ranges.
    pub open spec fn through(self, end: Location) -> Location {
        match (self, end) {
            (
                Location::Range { ln_begin, col_begin, .. },
                Location::Range { ln_end, col_end, .. },
            ) => Location::Range { ln_begin, col_begin, ln_end, col_end },
            _ => match (self.ln_begin(), end.ln_end()) {
                (Some(ln_begin), Some(ln_end)) => Location::LineRange(ln_begin, ln_end),
                (Some(lineno), None) => Location::Line(lineno),
                (None, Some(lineno)) => Location::Line(lineno),
                (None, None) => Location::Unknown,
            },
        }
    }

    /// The place from the beginning of one to the end of another.
    pub fn concat(l: Location, r: Location) -> (loc: Location)
        ensures
            loc == l.through(r),
    {
        let ln_begin: Option<usize> = match l {
            Location::RangePair { ln_begin, .. } => Some(ln_begin),
            Location::Range { ln_begin, .. } => Some(ln_begin),
            Location::LineRange(ln_begin, _) => Some(ln_begin),
            Location::Line(lineno) => Some(lineno),
            Location::Unknown => None,
        };
        let ln_end: Option<usize> = match r {
            Location::RangePair { ln_end, .. } => Some(ln_end),
            Location::Range { ln_end, .. } => Some(ln_end),
            Location::LineRange(_, ln_end) => Some(ln_end),
            Location::Line(lineno) => Some(lineno),
            Location::Unknown => None,
        };
        match (l, r) {
            (
                Location::Range { ln_begin, col_begin, .. },
                Location::Range { ln_end, col_end, .. },
            ) => Location::Range { ln_begin, col_begin, ln_end, col_end },
            _ => match (ln_begin, ln_end) {
                (Some(ln_begin), Some(ln_end)) => Location::LineRange(ln_begin, ln_end),
                (Some(lineno), None) => Location::Line(lineno),
                (None, Some(lineno)) => Location::Line(lineno),
                (None, None) => Location::Unknown,
            },
        }
    }
}

/// An error that the context reports.
#[derive(Debug, PartialEq, Eq)]
pub struct ContextError {
    pub errno: usize,
    pub kind: u8,
    pub loc: Location,
    pub caused_by: String,
    pub desc: String,
    pub hint: Option<String>,
}

/// An error of lowering.
#[derive(Debug, PartialEq, Eq)]
pub enum LowerError {
    /// The type found for a name is not the one expected of it.
    TypeMismatch {
        errno: usize,
        loc: Location,
        caused_by: String,
        name: String,
        expect: Rc<Ty>,
        found: Rc<Ty>,
    },
    /// The source is against a rule of the language.
    Syntax {
        errno: usize,
        loc: Location,
        caused_by: String,
        desc: String,
        hint: Option<String>,
    },
    /// The context reported an error.
    Reported(ContextError),
}

/// An error with its texts as sequences of characters.
pub enum LowerErrorView {
    TypeMismatch {
        errno: usize,
        loc: Location,
        caused_by: Seq<char>,
        name: Seq<char>,
        expect: TyView,
        found: TyView,
    },
    Syntax {
        errno: usize,
        loc: Location,
        caused_by: Seq<char>,
        desc: Seq<char>,
        hint: Option<Seq<char>>,
    },
    Reported(ContextError),
}

impl View for LowerError {
    type V = LowerErrorView;

    open spec fn view(&self) -> LowerErrorView {
        match *self {
            LowerError::TypeMismatch { errno, loc, caused_by, name, expect, found } => {
                LowerErrorView::TypeMismatch {
                    errno,
                    loc,
                    caused_by: caused_by@,
                    name: name@,
                    expect: expect@,
                    found: found@,
                }
            },
            LowerError::Syntax { errno, loc, caused_by, desc, hint } => LowerErrorView::Syntax {
                errno,
                loc,
                caused_by: caused_by@,
                desc: desc@,
                hint: opt_str_view(hint),
            },
            LowerError::Reported(e) => LowerErrorView::Reported(e),
        }
    }
}

/// A copy of a text that may be missing.
pub fn dup_opt_str(s: &Option<String>) -> (r: Option<String>)
    ensures
        r == *s,
{
    match s {
        Some(s) => Some(s.clone()),
        None => None,
    }
}

impl LowerError {
    /// Another copy of the error.
    pub fn dup(&self) -> (e: LowerError)
        ensures
            e == *self,
    {
        match self {
            LowerError::TypeMismatch { errno, loc, caused_by, name, expect, found } => {
                LowerError::TypeMismatch {
                    errno: *errno,
                    loc: *loc,
                    caused_by: caused_by.clone(),
                    name: name.clone(),
                    expect: expect.clone(),
                    found: found.clone(),
                }
            },
            LowerError::Syntax { errno, loc, caused_by, desc, hint } => LowerError::Syntax {
                errno: *errno,
                loc: *loc,
                caused_by: caused_by.clone(),
                desc: desc.clone(),
                hint: dup_opt_str(hint),
            },
            LowerError::Reported(e) => LowerError::Reported(
                ContextError {
                    errno: e.errno,
                    kind: e.kind,
                    loc: e.loc,
                    caused_by: e.caused_by.clone(),
                    desc: e.desc.clone(),
                    hint: dup_opt_str(&e.hint),
                },
            ),
        }
    }
}

/// Errors in the order in which they were found.
#[derive(Debug, PartialEq, Eq)]
pub struct LowerErrors {
    pub errs: Vec<LowerError>,
}

/// Warnings in the order in which they were found.
pub type LowerWarnings = LowerErrors;

/// The errors of a list, seen as [`LowerErrorView`]s.
pub open spec fn errors_view(s: Seq<LowerError>) -> Seq<LowerErrorView> {
    s.map_values(|e: LowerError| e@)
}

impl View for LowerErrors {
    type V = Seq<LowerErrorView>;

    open spec fn view(&self) -> Seq<LowerErrorView> {
        errors_view(self.errs@)
    }
}

impl LowerErrors {
    pub fn empty() -> (errs: LowerErrors)
        ensures
            errs@ == Seq::<LowerErrorView>::empty(),
    {
        let errs = LowerErrors { errs: Vec::new() };
        assert(errs@ =~= Seq::<LowerErrorView>::empty());
        errs
    }

    /// The list of one error.
    pub fn of(e: LowerError) -> (errs: LowerErrors)
        ensures
            errs@ == seq![e@],
    {
        let mut errs = LowerErrors::empty();
        errs.push(e);
        assert(errs@ =~= seq![e@]);
        errs
    }

    pub fn is_empty(&self) -> (b: bool)
        ensures
            b == (self@.len() == 0),
    {
        self.errs.len() == 0
    }

    pub fn len(&self) -> (n: usize)
        ensures
            n == self@.len(),
    {
        self.errs.len()
    }

    pub fn push(&mut self, e: LowerError)
        ensures
            final(self)@ == old(self)@.push(e@),
    {
        self.errs.push(e);
        assert(self@ =~= old(self)@.push(e@));
    }

    /// Adds a copy of each of the other errors, in their order.
    pub fn append(&mut self, others: &LowerErrors)
        ensures
            final(self)@ == old(self)@ + others@,
    {
        let ghost before = self@;
        assert(before + others@.take(0) =~= before);
        let mut i: usize = 0;
        while i < others.errs.len()
            invariant
                i <= others.errs.len(),
                self@ == before + others@.take(i as int),
            decreases others.errs.len() - i,
        {
            self.push(others.errs[i].dup());
            assert(others@.take(i + 1) =~= others@.take(i as int).push(others@[i as int]));
            assert(self@ =~= before + others@.take(i + 1));
            i = i + 1;
        }
        assert(others@.take(i as int) =~= others@);
    }

    /// Keeps the first `n` errors.
    pub fn truncate(&mut self, n: usize)
        requires
            n <= old(self)@.len(),
        ensures
            final(self)@ == old(self)@.take(n as int),
    {
        self.errs.truncate(n);
        assert(self@ =~= old(self)@.take(n as int));
    }

    /// Takes all errors out and leaves none.
    pub fn take_all(&mut self) -> (errs: LowerErrors)
        ensures
            errs@ == old(self)@,
            final(self)@ == Seq::<LowerErrorView>::empty(),
    {
        let mut errs = LowerErrors::empty();
        std::mem::swap(&mut errs.errs, &mut self.errs);
        assert(self@ =~= Seq::<LowerErrorView>::empty());
        errs
    }
}

/// The languages in which messages are written.
#[derive(Debug, Clone, Copy, PartialEq, Eq, Hash, Structural)]
pub enum Language {
    Japanese,
    SimplifiedChinese,
    TraditionalChinese,
    English,
}

/// What is said of an expression whose value is not used.
pub open spec fn unused_value_desc(lang: Language) -> Seq<char> {
    match lang {
        Language::Japanese => "式の評価結果が使われていません"@,
        Language::SimplifiedChinese => "表达式评估结果未使用"@,
        Language::TraditionalChinese => "表達式評估結果未使用"@,
        Language::English => "the evaluation result of the expression is not used"@,
    }
}

/// What is advised for an expression whose value is not used.
pub open spec fn unused_value_hint(lang: Language) -> Seq<char> {
    match lang {
        Language::Japanese => "値を使わない場合は、discard関数を使用してください"@,
        Language::SimplifiedChinese => "如果您不想使用该值，请使用discard函数"@,
        Language::TraditionalChinese => "如果您不想使用該值，請使用discard函數"@,
        Language::English => "if you don't use the value, use discard function"@,
    }
}

impl Language {
    /// What is said of an expression whose value is not used.
    pub fn unused_value_desc(self) -> (s: String)
        ensures
            s@ == unused_value_desc(self),
    {
        match self {
            Language::Japanese => "式の評価結果が使われていません".to_owned(),
            Language::SimplifiedChinese => "表达式评估结果未使用".to_owned(),
            Language::TraditionalChinese => "表達式評估結果未使用".to_owned(),
            Language::English => "the evaluation result of the expression is not used".to_owned(),
        }
    }

    /// What is advised for an expression whose value is not used.
    pub fn unused_value_hint(self) -> (s: String)
        ensures
            s@ == unused_value_hint(self),
    {
        match self {
            Language::Japanese => "値を使わない場合は、discard関数を使用してください".to_owned(),
            Language::SimplifiedChinese => "如果您不想使用该值，请使用discard函数".to_owned(),
            Language::TraditionalChinese => "如果您不想使用該值，請使用discard函數".to_owned(),
            Language::English => "if you don't use the value, use discard function".to_owned(),
        }
    }
}

} // verus!
