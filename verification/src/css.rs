//! CSS values as the style and print code reads them: keywords, strings,
//! numbers, lengths, colors, functions and lists.

use vstd::prelude::*;
use crate::types::F32Bits;

verus! {

/// A CSS length unit.
#[derive(Debug, Clone, Copy, PartialEq, Eq, Structural)]
pub enum Unit {
    Px,
    Pt,
    Mm,
    Cm,
    In,
    Em,
    Rem,
    Percent,
    Vw,
    Vh,
}

/// A CSS function call such as `url("a.png")` or `counter(page)`.
#[derive(Debug, PartialEq)]
pub struct CssFunction {
    pub name: String,
    pub arguments: Vec<CssValue>,
}

/// A CSS value.
#[derive(Debug, PartialEq)]
pub enum CssValue {
    /// A keyword such as `block`
    Ident(String),
    /// A quoted string
    String(String),
    /// Unquoted literal text
    Literal(String),
    /// A number
    Number(F32Bits),
    /// An integer
    Integer(i32),
    /// A percentage
    Percentage(F32Bits),
    /// A length with its unit
    Length(F32Bits, Unit),
    /// A `#rrggbb` color
    HexColor(u32),
    /// A function call
    Function(CssFunction),
    /// A space- or comma-separated list
    List(Vec<CssValue>),
}

impl CssFunction {
    /// A function without arguments.
    pub fn new(name: &str) -> (f: CssFunction)
        ensures
            f.name@ == name@,
            f.arguments@.len() == 0,
    {
        CssFunction { name: String::from_str(name), arguments: Vec::new() }
    }

    /// Appends an argument.
    pub fn add_argument(&mut self, value: CssValue)
        ensures
            final(self).name == old(self).name,
            final(self).arguments@ == old(self).arguments@.push(value),
    {
        self.arguments.push(value);
    }
}


/// One part of a selector, as specificity reads it.
#[derive(Debug, Clone, PartialEq)]
pub enum SelectorPart {
    /// An element type such as `div`
    Type(String),
    /// A class, `.name`
    Class(String),
    /// An id, `#name`
    Id(String),
    /// An attribute test, `[name]`
    Attribute { name: String },
    /// A pseudo-class such as `:hover`
    PseudoClass(String),
    /// A pseudo-element such as `::before`
    PseudoElement(String),
    /// The universal selector `*`
    Universal,
}

/// A selector: its parts in order.
#[derive(Debug, Clone, PartialEq)]
pub struct Selector {
    pub parts: Vec<SelectorPart>,
}

/// A page selector of an `@page` rule.
#[derive(Debug, Clone, PartialEq)]
pub enum PageSelector {
    /// `:first`
    First,
    /// `:left`
    Left,
    /// `:right`
    Right,
    /// `:blank`
    Blank,
    /// A named page (the empty name for every page)
    Named(String),
}

/// A page selector as plain values.
pub enum SelectorView {
    First,
    Left,
    Right,
    Blank,
    Named(Seq<char>),
}

/// The plain view of a page selector.
pub open spec fn selector_view(s: PageSelector) -> SelectorView {
    match s {
        PageSelector::First => SelectorView::First,
        PageSelector::Left => SelectorView::Left,
        PageSelector::Right => SelectorView::Right,
        PageSelector::Blank => SelectorView::Blank,
        PageSelector::Named(n) => SelectorView::Named(n@),
    }
}

/// The plain views of page selectors.
pub open spec fn selectors_view(ss: Seq<PageSelector>) -> Seq<SelectorView> {
    Seq::new(ss.len(), |i: int| selector_view(ss[i]))
}

/// Whether two page selectors are the same.
pub fn selector_eq(a: &PageSelector, b: &PageSelector) -> (r: bool)
    ensures
        r == (selector_view(*a) == selector_view(*b)),
{
    match (a, b) {
        (PageSelector::First, PageSelector::First) => true,
        (PageSelector::Left, PageSelector::Left) => true,
        (PageSelector::Right, PageSelector::Right) => true,
        (PageSelector::Blank, PageSelector::Blank) => true,
        (PageSelector::Named(x), PageSelector::Named(y)) => crate::strings::str_eq(x.as_str(), y.as_str()),
        _ => false,
    }
}

} // verus!
