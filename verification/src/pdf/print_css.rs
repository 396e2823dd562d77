//! Paged media: margin box content, break properties, page counters and
//! bookmarks.

use vstd::prelude::*;
use crate::css::{CssValue, CssFunction, PageSelector, SelectorView, selector_view, selectors_view, selector_eq};
use crate::html::attr_of;
use crate::types::{Margins, Color};
use crate::strings::{decimal, push_decimal, push_char};
use crate::strings::{str_eq, chars_of};
use crate::types::{F32Bits, f32_is_nan, f32_trunc, saturate};

verus! {

/// Parts of margin box content
#[derive(Debug, Clone, PartialEq)]
pub enum MarginContentPart {
    /// Plain text
    Text(String),
    /// Reference to a running string (`string()`)
    StringRef(String),
    /// Current page number counter
    PageCounter,
    /// Total pages counter
    PagesCounter,
    /// Target counter for cross-references (`target-counter()`)
    TargetCounter { selector: String, counter: String },
    /// Leader character for filling space
    Leader(char),
}

/// A margin content part as plain values.
pub enum ContentView {
    Text(Seq<char>),
    StringRef(Seq<char>),
    PageCounter,
    PagesCounter,
    TargetCounter(Seq<char>, Seq<char>),
    Leader(char),
}

pub open spec fn part_view(p: MarginContentPart) -> ContentView {
    match p {
        MarginContentPart::Text(s) => ContentView::Text(s@),
        MarginContentPart::StringRef(s) => ContentView::StringRef(s@),
        MarginContentPart::PageCounter => ContentView::PageCounter,
        MarginContentPart::PagesCounter => ContentView::PagesCounter,
        MarginContentPart::TargetCounter { selector, counter } => ContentView::TargetCounter(selector@, counter@),
        MarginContentPart::Leader(c) => ContentView::Leader(c),
    }
}

pub open spec fn parts_view(ps: Seq<MarginContentPart>) -> Seq<ContentView> {
    Seq::new(ps.len(), |i: int| part_view(ps[i]))
}

/// The name held by an identifier or string value.
pub open spec fn name_of(v: CssValue) -> Option<Seq<char>> {
    match v {
        CssValue::Ident(s) => Some(s@),
        CssValue::String(s) => Some(s@),
        _ => None,
    }
}

/// The content parts of a call of the function `f`.
pub open spec fn function_content(f: CssFunction) -> Seq<ContentView> {
    let args = f.arguments@;
    if f.name@ == "string"@ {
        if args.len() > 0 && name_of(args[0]) is Some {
            seq![ContentView::StringRef(name_of(args[0]).unwrap())]
        } else {
            Seq::empty()
        }
    } else if f.name@ == "counter"@ {
        if args.len() > 0 && name_of(args[0]) == Some("page"@) {
            seq![ContentView::PageCounter]
        } else if args.len() > 0 && name_of(args[0]) == Some("pages"@) {
            seq![ContentView::PagesCounter]
        } else {
            Seq::empty()
        }
    } else if f.name@ == "leader"@ {
        let c: char = if args.len() > 0 {
            match args[0] {
                CssValue::String(s) => if s@.len() > 0 { s@[0] } else { '.' },
                CssValue::Literal(s) => if s@.len() > 0 { s@[0] } else { '.' },
                _ => '.',
            }
        } else {
            '.'
        };
        seq![ContentView::Leader(c)]
    } else if f.name@ == "target-counter"@ {
        if args.len() >= 2 && args[0] is String && args[1] is Ident {
            seq![ContentView::TargetCounter(args[0]->String_0@, args[1]->Ident_0@)]
        } else {
            Seq::empty()
        }
    } else {
        Seq::empty()
    }
}

/// The content parts of a `content` value: a string is text, functions
/// give counters, running strings and leaders, a list concatenates the
/// parts of its items; anything else gives nothing.
pub open spec fn content_of(v: CssValue) -> Seq<ContentView>
    decreases v, 1nat,
{
    match v {
        CssValue::String(s) => seq![ContentView::Text(s@)],
        CssValue::Function(f) => function_content(f),
        CssValue::List(items) => list_content(items@),
        _ => Seq::empty(),
    }
}

/// The content parts of list items, concatenated.
pub open spec fn list_content(items: Seq<CssValue>) -> Seq<ContentView>
    decreases items, 0nat,
{
    if items.len() == 0 {
        Seq::empty()
    } else {
        list_content(items.subrange(0, items.len() - 1)) + content_of(items[items.len() - 1])
    }
}


/// The name held by an identifier or string value.
fn value_name(v: &CssValue) -> (r: Option<&String>)
    ensures
        match r {
            Some(s) => name_of(*v) == Some(s@),
            None => name_of(*v) is None,
        },
{
    match v {
        CssValue::Ident(s) => Some(s),
        CssValue::String(s) => Some(s),
        _ => None,
    }
}

/// The first character of `s`, or `.`.
fn first_char_or_dot(s: &String) -> (r: char)
    ensures
        r == (if s@.len() > 0 { s@[0] } else { '.' }),
{
    let cs = chars_of(s.as_str());
    if cs.len() > 0 { cs[0] } else { '.' }
}

fn function_parts(f: &CssFunction) -> (r: Vec<MarginContentPart>)
    ensures
        parts_view(r@) == function_content(*f),
{
    let name = f.name.as_str();
    let args = &f.arguments;
    let mut r: Vec<MarginContentPart> = Vec::new();
    if str_eq(name, "string") {
        if args.len() > 0 {
            if let Some(n) = value_name(&args[0]) {
                r.push(MarginContentPart::StringRef(n.clone()));
            }
        }
    } else if str_eq(name, "counter") {
        if args.len() > 0 {
            if let Some(n) = value_name(&args[0]) {
                if str_eq(n.as_str(), "page") {
                    r.push(MarginContentPart::PageCounter);
                } else if str_eq(n.as_str(), "pages") {
                    r.push(MarginContentPart::PagesCounter);
                }
            }
        }
    } else if str_eq(name, "leader") {
        let c = if args.len() > 0 {
            match &args[0] {
                CssValue::String(s) => first_char_or_dot(s),
                CssValue::Literal(s) => first_char_or_dot(s),
                _ => '.',
            }
        } else {
            '.'
        };
        r.push(MarginContentPart::Leader(c));
    } else if str_eq(name, "target-counter") {
        if args.len() >= 2 {
            match (&args[0], &args[1]) {
                (CssValue::String(url), CssValue::Ident(counter)) => {
                    r.push(MarginContentPart::TargetCounter { selector: url.clone(), counter: counter.clone() });
                },
                _ => {},
            }
        }
    }
    assert(parts_view(r@) =~= function_content(*f));
    r
}

/// A copy of a content part.
fn copy_part(p: &MarginContentPart) -> (r: MarginContentPart)
    ensures
        part_view(r) == part_view(*p),
{
    match p {
        MarginContentPart::Text(s) => MarginContentPart::Text(s.clone()),
        MarginContentPart::StringRef(s) => MarginContentPart::StringRef(s.clone()),
        MarginContentPart::PageCounter => MarginContentPart::PageCounter,
        MarginContentPart::PagesCounter => MarginContentPart::PagesCounter,
        MarginContentPart::TargetCounter { selector, counter } =>
            MarginContentPart::TargetCounter { selector: selector.clone(), counter: counter.clone() },
        MarginContentPart::Leader(c) => MarginContentPart::Leader(*c),
    }
}

/// Parse content value for margin boxes
pub fn parse_content_value(value: &CssValue) -> (r: Vec<MarginContentPart>)
    ensures
        parts_view(r@) == content_of(*value),
    decreases value,
{
    match value {
        CssValue::String(s) => {
            let mut r: Vec<MarginContentPart> = Vec::new();
            r.push(MarginContentPart::Text(s.clone()));
            assert(parts_view(r@) =~= content_of(*value));
            r
        },
        CssValue::Function(f) => function_parts(f),
        CssValue::List(list) => {
            let mut r: Vec<MarginContentPart> = Vec::new();
            let mut i: usize = 0;
            assert(list@.subrange(0, 0) =~= Seq::<CssValue>::empty());
            while i < list.len()
                invariant
                    i <= list@.len(),
                    *value == CssValue::List(*list),
                    parts_view(r@) == list_content(list@.subrange(0, i as int)),
                decreases list@.len() - i,
            {
                proof {
                    assert(list@.subrange(0, i + 1).subrange(0, i as int) =~= list@.subrange(0, i as int));
                    assert(list@.subrange(0, i + 1)[i as int] == list@[i as int]);
                }
                proof {
                    assert(decreases_to!(*value => (*value)->List_0));
                    assert((*value)->List_0 == *list);
                    assert(decreases_to!(*list => list@));
                    assert(decreases_to!(list@ => list@[i as int]));
                }
                let sub = parse_content_value(&list[i]);
                let ghost before = r@;
                let mut k: usize = 0;
                while k < sub.len()
                    invariant
                        k <= sub@.len(),
                        parts_view(r@) == parts_view(before) + parts_view(sub@).take(k as int),
                    decreases sub@.len() - k,
                {
                    let ghost r0 = r@;
                    r.push(copy_part(&sub[k]));
                    assert(parts_view(r@) =~= parts_view(r0).push(part_view(sub@[k as int])));
                    assert(parts_view(sub@).take(k + 1) =~= parts_view(sub@).take(k as int).push(part_view(sub@[k as int])));
                    assert(parts_view(r@) =~= parts_view(before) + parts_view(sub@).take(k + 1));
                    k = k + 1;
                }
                assert(parts_view(sub@).take(sub@.len() as int) =~= parts_view(sub@));
                i = i + 1;
            }
            assert(list@.subrange(0, list@.len() as int) =~= list@);
            r
        },
        _ => Vec::new(),
    }
}

/// Text alignment for margin boxes
#[derive(Debug, Clone, Copy, PartialEq, Eq, Structural)]
pub enum TextAlign {
    Left,
    Center,
    Right,
    Justify,
}

/// Vertical alignment for margin boxes
#[derive(Debug, Clone, Copy, PartialEq, Eq, Structural)]
pub enum VerticalAlign {
    Top,
    Middle,
    Bottom,
}

/// Page break types
#[derive(Debug, Clone, Copy, PartialEq, Eq, Structural)]
pub enum BreakType {
    Auto,
    Always,
    Avoid,
    Page,
    Column,
    Region,
    Left,
    Right,
    Recto,
    Verso,
}

impl Default for BreakType {
    fn default() -> (r: Self)
        ensures
            r == BreakType::Auto,
    {
        BreakType::Auto
    }
}

/// Page break inside values
#[derive(Debug, Clone, Copy, PartialEq, Eq, Structural)]
pub enum BreakInside {
    Auto,
    Avoid,
    AvoidPage,
    AvoidColumn,
    AvoidRegion,
}

impl Default for BreakInside {
    fn default() -> (r: Self)
        ensures
            r == BreakInside::Auto,
    {
        BreakInside::Auto
    }
}


/// The value of a `text-align` keyword; other values give `Center`.
pub open spec fn margin_text_align_of(v: CssValue) -> TextAlign {
    match v {
        CssValue::Ident(s) => if s@ == "left"@ { TextAlign::Left } else if s@ == "center"@ { TextAlign::Center } else if s@ == "right"@ { TextAlign::Right } else if s@ == "justify"@ { TextAlign::Justify } else { TextAlign::Center },
        _ => TextAlign::Center,
    }
}

pub fn parse_text_align(value: &CssValue) -> (r: TextAlign)
    ensures
        r == margin_text_align_of(*value),
{
    match value {
        CssValue::Ident(s) => {
            let t = s.as_str();
            if str_eq(t, "left") {
                TextAlign::Left
            } else if str_eq(t, "center") {
                TextAlign::Center
            } else if str_eq(t, "right") {
                TextAlign::Right
            } else if str_eq(t, "justify") {
                TextAlign::Justify
            } else {
                TextAlign::Center
            }
        },
        _ => TextAlign::Center,
    }
}


/// The value of a `vertical-align` keyword; other values give `Middle`.
pub open spec fn margin_vertical_align_of(v: CssValue) -> VerticalAlign {
    match v {
        CssValue::Ident(s) => if s@ == "top"@ { VerticalAlign::Top } else if s@ == "middle"@ { VerticalAlign::Middle } else if s@ == "bottom"@ { VerticalAlign::Bottom } else { VerticalAlign::Middle },
        _ => VerticalAlign::Middle,
    }
}

pub fn parse_vertical_align(value: &CssValue) -> (r: VerticalAlign)
    ensures
        r == margin_vertical_align_of(*value),
{
    match value {
        CssValue::Ident(s) => {
            let t = s.as_str();
            if str_eq(t, "top") {
                VerticalAlign::Top
            } else if str_eq(t, "middle") {
                VerticalAlign::Middle
            } else if str_eq(t, "bottom") {
                VerticalAlign::Bottom
            } else {
                VerticalAlign::Middle
            }
        },
        _ => VerticalAlign::Middle,
    }
}


/// The value of a `break-before/after` keyword; other values give `Auto`.
pub open spec fn break_of(v: CssValue) -> BreakType {
    match v {
        CssValue::Ident(s) => if s@ == "auto"@ { BreakType::Auto } else if s@ == "always"@ { BreakType::Always } else if s@ == "avoid"@ { BreakType::Avoid } else if s@ == "page"@ { BreakType::Page } else if s@ == "left"@ { BreakType::Left } else if s@ == "right"@ { BreakType::Right } else if s@ == "recto"@ { BreakType::Recto } else if s@ == "verso"@ { BreakType::Verso } else if s@ == "column"@ { BreakType::Column } else if s@ == "region"@ { BreakType::Region } else { BreakType::Auto },
        _ => BreakType::Auto,
    }
}

pub fn parse_break_value(value: &CssValue) -> (r: BreakType)
    ensures
        r == break_of(*value),
{
    match value {
        CssValue::Ident(s) => {
            let t = s.as_str();
            if str_eq(t, "auto") {
                BreakType::Auto
            } else if str_eq(t, "always") {
                BreakType::Always
            } else if str_eq(t, "avoid") {
                BreakType::Avoid
            } else if str_eq(t, "page") {
                BreakType::Page
            } else if str_eq(t, "left") {
                BreakType::Left
            } else if str_eq(t, "right") {
                BreakType::Right
            } else if str_eq(t, "recto") {
                BreakType::Recto
            } else if str_eq(t, "verso") {
                BreakType::Verso
            } else if str_eq(t, "column") {
                BreakType::Column
            } else if str_eq(t, "region") {
                BreakType::Region
            } else {
                BreakType::Auto
            }
        },
        _ => BreakType::Auto,
    }
}


/// The value of a `break-inside` keyword; other values give `Auto`.
pub open spec fn break_inside_of(v: CssValue) -> BreakInside {
    match v {
        CssValue::Ident(s) => if s@ == "auto"@ { BreakInside::Auto } else if s@ == "avoid"@ { BreakInside::Avoid } else if s@ == "avoid-page"@ { BreakInside::AvoidPage } else if s@ == "avoid-column"@ { BreakInside::AvoidColumn } else if s@ == "avoid-region"@ { BreakInside::AvoidRegion } else { BreakInside::Auto },
        _ => BreakInside::Auto,
    }
}

pub fn parse_break_inside_value(value: &CssValue) -> (r: BreakInside)
    ensures
        r == break_inside_of(*value),
{
    match value {
        CssValue::Ident(s) => {
            let t = s.as_str();
            if str_eq(t, "auto") {
                BreakInside::Auto
            } else if str_eq(t, "avoid") {
                BreakInside::Avoid
            } else if str_eq(t, "avoid-page") {
                BreakInside::AvoidPage
            } else if str_eq(t, "avoid-column") {
                BreakInside::AvoidColumn
            } else if str_eq(t, "avoid-region") {
                BreakInside::AvoidRegion
            } else {
                BreakInside::Auto
            }
        },
        _ => BreakInside::Auto,
    }
}

/// The orphans/widows count of a value: an integer converted with `as u32`
/// (wrapping), a number truncated and saturated as `as u32` does, else 2.
pub open spec fn orphans_widows_of(v: CssValue) -> u32 {
    match v {
        CssValue::Integer(n) => n as u32,
        CssValue::Number(n) => (if f32_is_nan(n.0) { 0 } else { saturate(f32_trunc(n.0), 0, u32::MAX as int) }) as u32,
        _ => 2u32,
    }
}

/// Parse orphans/widows value
pub fn parse_orphans_widows_value(value: &CssValue) -> (r: u32)
    ensures
        r == orphans_widows_of(*value),
{
    match value {
        CssValue::Integer(n) => {
            #[verifier::truncate]
            let r = *n as u32;
            r
        },
        CssValue::Number(n) => n.to_u32(),
        _ => 2,
    }
}

/// Running element (`position: running()`)
#[derive(Debug, Clone, PartialEq)]
pub struct RunningElement {
    /// Name of the running element
    pub name: String,
    /// The content as HTML/XML string
    pub content: String,
}

/// Content part selector
#[derive(Debug, Clone, Copy, PartialEq, Eq, Structural)]
pub enum ContentPart {
    Element,
    FirstLetter,
    FirstLine,
    Before,
    After,
}

/// Value for string-set
#[derive(Debug, Clone, PartialEq)]
pub enum StringSetValue {
    /// Static text
    Text(String),
    /// Content from element (first-letter, first-line, before, after)
    Content(ContentPart),
    /// Element attribute
    Attr(String),
}

/// String set declaration from CSS
#[derive(Debug, Clone, PartialEq)]
pub struct StringSet {
    /// Name of the string
    pub name: String,
    /// Value expression
    pub value: StringSetValue,
}

/// The values of the counter `name`, if it has been set: the first entry
/// under that name.
pub open spec fn counter_values(es: Seq<(String, Vec<u32>)>, name: Seq<char>) -> Option<Seq<u32>>
    decreases es.len(),
{
    if es.len() == 0 {
        None
    } else if es[0].0@ == name {
        Some(es[0].1@)
    } else {
        counter_values(es.drop_first(), name)
    }
}

/// The current value of a counter: the last value set.
pub open spec fn counter_current(vs: Option<Seq<u32>>) -> Option<u32> {
    match vs {
        Some(s) => if s.len() > 0 { Some(s.last()) } else { None },
        None => None,
    }
}

proof fn lemma_counter_update(es: Seq<(String, Vec<u32>)>, i: int, v: Vec<u32>, name: Seq<char>)
    requires
        0 <= i < es.len(),
        forall|j: int| 0 <= j < i ==> (#[trigger] es[j]).0@ != es[i].0@,
    ensures
        counter_values(es.update(i, (es[i].0, v)), name)
            == (if name == es[i].0@ { Some(v@) } else { counter_values(es, name) }),
        counter_values(es, es[i].0@) == Some(es[i].1@),
    decreases i,
{
    let es2 = es.update(i, (es[i].0, v));
    if i > 0 {
        assert(es2.drop_first() =~= es.drop_first().update(i - 1, (es[i].0, v)));
        assert(es2[0] == es[0]);
        assert(es.drop_first()[i - 1] == es[i]);
        assert forall|j: int| 0 <= j < i - 1 implies (#[trigger] es.drop_first()[j]).0@ != es.drop_first()[i - 1].0@ by {
            assert(es.drop_first()[j] == es[j + 1]);
        }
        lemma_counter_update(es.drop_first(), i - 1, v, name);
    } else {
        assert(es2.drop_first() =~= es.drop_first());
    }
}

proof fn lemma_counter_push(es: Seq<(String, Vec<u32>)>, e: (String, Vec<u32>), name: Seq<char>)
    requires
        counter_values(es, e.0@) is None,
    ensures
        counter_values(es.push(e), name) == (if name == e.0@ { Some(e.1@) } else { counter_values(es, name) }),
    decreases es.len(),
{
    if es.len() > 0 {
        assert(es.push(e).drop_first() =~= es.drop_first().push(e));
        assert(es.push(e)[0] == es[0]);
        lemma_counter_push(es.drop_first(), e, name);
    } else {
        assert(es.push(e).drop_first() =~= Seq::<(String, Vec<u32>)>::empty());
        assert(es.push(e)[0] == e);
        reveal_with_fuel(counter_values, 2);
    }
}

/// Page counter manager
#[derive(Debug, Clone, PartialEq)]
pub struct PageCounter {
    /// Current page number
    pub current: u32,
    /// Counter resets at specific elements
    pub resets: Vec<(String, u32)>,
    /// Named counters: each name with the values set for it, in order
    pub named_counters: Vec<(String, Vec<u32>)>,
}

impl PageCounter {
    /// Create a new page counter starting at 1
    pub fn new() -> (r: Self)
        ensures
            r.current == 1,
            r.resets@.len() == 0,
            forall|name: Seq<char>| #[trigger] counter_values(r.named_counters@, name) is None,
    {
        PageCounter { current: 1, resets: Vec::new(), named_counters: Vec::new() }
    }

    /// Reset the page counter
    pub fn reset(&mut self, value: u32)
        ensures
            final(self).current == value,
            final(self).named_counters == old(self).named_counters,
            final(self).resets == old(self).resets,
    {
        self.current = value;
    }

    /// Increment the page counter
    pub fn increment(&mut self)
        requires
            old(self).current < u32::MAX,
        ensures
            final(self).current == old(self).current + 1,
            final(self).named_counters == old(self).named_counters,
            final(self).resets == old(self).resets,
    {
        self.current = self.current + 1;
    }

    /// The position of the entry for `name`, if any.
    fn find(&self, name: &str) -> (r: Option<usize>)
        ensures
            match r {
                Some(i) => i < self.named_counters@.len() && self.named_counters@[i as int].0@ == name@
                    && forall|j: int| 0 <= j < i ==> (#[trigger] self.named_counters@[j]).0@ != name@,
                None => counter_values(self.named_counters@, name@) is None,
            },
    {
        let mut i: usize = 0;
        assert(self.named_counters@.skip(0) =~= self.named_counters@);
        while i < self.named_counters.len()
            invariant
                i <= self.named_counters@.len(),
                forall|j: int| 0 <= j < i ==> (#[trigger] self.named_counters@[j]).0@ != name@,
                counter_values(self.named_counters@, name@) == counter_values(self.named_counters@.skip(i as int), name@),
            decreases self.named_counters@.len() - i,
        {
            assert(self.named_counters@.skip(i as int).drop_first() =~= self.named_counters@.skip(i + 1));
            if str_eq(self.named_counters[i].0.as_str(), name) {
                return Some(i);
            }
            i = i + 1;
        }
        None
    }

    /// Set a named counter: `value` becomes its current value, after the
    /// values set before.
    pub fn set_named_counter(&mut self, name: &str, value: u32)
        ensures
            counter_values(final(self).named_counters@, name@) == Some(
                match counter_values(old(self).named_counters@, name@) {
                    Some(s) => s,
                    None => Seq::<u32>::empty(),
                }.push(value)),
            forall|n: Seq<char>| n != name@ ==> #[trigger] counter_values(final(self).named_counters@, n)
                == counter_values(old(self).named_counters@, n),
            final(self).current == old(self).current,
            final(self).resets == old(self).resets,
    {
        let ghost es = self.named_counters@;
        match self.find(name) {
            Some(i) => {
                let mut vs = self.named_counters[i].1.clone();
                assert(vs@ =~= es[i as int].1@);
                vs.push(value);
                let key = self.named_counters[i].0.clone();
                proof { lemma_counter_update(es, i as int, vs, name@); }
                self.named_counters.set(i, (key, vs));
                proof {
                    assert(self.named_counters@ =~= es.update(i as int, (es[i as int].0, vs)));
                    assert forall|n: Seq<char>| n != name@ implies #[trigger] counter_values(self.named_counters@, n)
                        == counter_values(es, n) by {
                        lemma_counter_update(es, i as int, vs, n);
                    }
                }
            },
            None => {
                let mut vs: Vec<u32> = Vec::new();
                vs.push(value);
                let e = (String::from_str(name), vs);
                proof { lemma_counter_push(es, e, name@); }
                self.named_counters.push(e);
                proof {
                    assert forall|n: Seq<char>| n != name@ implies #[trigger] counter_values(self.named_counters@, n)
                        == counter_values(es, n) by {
                        lemma_counter_push(es, e, n);
                    }
                    assert(Seq::<u32>::empty().push(value) =~= seq![value]);
                }
            },
        }
    }

    /// Get a named counter value: the last value set for it
    pub fn get_named_counter(&self, name: &str) -> (r: Option<u32>)
        ensures
            r == counter_current(counter_values(self.named_counters@, name@)),
    {
        match self.find(name) {
            Some(i) => {
                proof { lemma_counter_update(self.named_counters@, i as int, self.named_counters@[i as int].1, name@); }
                let vs = &self.named_counters[i].1;
                if vs.len() > 0 { Some(vs[vs.len() - 1]) } else { None }
            },
            None => None,
        }
    }

    /// Reset a named counter: `value` becomes its only value
    pub fn reset_named_counter(&mut self, name: &str, value: u32)
        ensures
            counter_values(final(self).named_counters@, name@) == Some(seq![value]),
            forall|n: Seq<char>| n != name@ ==> #[trigger] counter_values(final(self).named_counters@, n)
                == counter_values(old(self).named_counters@, n),
            final(self).current == old(self).current,
            final(self).resets == old(self).resets,
    {
        let ghost es = self.named_counters@;
        let mut vs: Vec<u32> = Vec::new();
        vs.push(value);
        match self.find(name) {
            Some(i) => {
                let key = self.named_counters[i].0.clone();
                proof { lemma_counter_update(es, i as int, vs, name@); }
                self.named_counters.set(i, (key, vs));
                proof {
                    assert(self.named_counters@ =~= es.update(i as int, (es[i as int].0, vs)));
                    assert forall|n: Seq<char>| n != name@ implies #[trigger] counter_values(self.named_counters@, n)
                        == counter_values(es, n) by {
                        lemma_counter_update(es, i as int, vs, n);
                    }
                }
            },
            None => {
                let e = (String::from_str(name), vs);
                proof { lemma_counter_push(es, e, name@); }
                self.named_counters.push(e);
                proof {
                    assert forall|n: Seq<char>| n != name@ implies #[trigger] counter_values(self.named_counters@, n)
                        == counter_values(es, n) by {
                        lemma_counter_push(es, e, n);
                    }
                }
            },
        }
    }
}

impl Default for PageCounter {
    fn default() -> (r: Self)
        ensures
            r.current == 1,
            r.resets@.len() == 0,
            forall|name: Seq<char>| #[trigger] counter_values(r.named_counters@, name) is None,
    {
        PageCounter::new()
    }
}

/// Bookmark/Outline entry for PDF
#[derive(Debug, PartialEq)]
pub struct Bookmark {
    /// Title text
    pub title: String,
    /// Page number (1-indexed)
    pub page: u32,
    /// Nesting level (0 = top level)
    pub level: u32,
    /// Children bookmarks
    pub children: Vec<Bookmark>,
}

impl Bookmark {
    /// Create a new bookmark
    pub fn new(title: &str, page: u32, level: u32) -> (r: Self)
        ensures
            r.title@ == title@,
            r.page == page,
            r.level == level,
            r.children@.len() == 0,
    {
        Bookmark { title: String::from_str(title), page, level, children: Vec::new() }
    }

    /// Add a child bookmark
    pub fn add_child(&mut self, child: Bookmark)
        ensures
            final(self).children@ == old(self).children@.push(child),
            final(self).title == old(self).title,
            final(self).page == old(self).page,
            final(self).level == old(self).level,
    {
        self.children.push(child);
    }
}


/// A named counter reads back the value last set for it or reset to
/// (`get_named_counter` after `set_named_counter` or `reset_named_counter`
/// on the same name).
pub proof fn lemma_counter_reads_back(values_before: Option<Seq<u32>>, value: u32)
    ensures
        counter_current(Some(match values_before {
            Some(s) => s,
            None => Seq::<u32>::empty(),
        }.push(value))) == Some(value),
        counter_current(Some(seq![value])) == Some(value),
{
}


/// Page size in points, as single-precision patterns.
#[derive(Debug, Clone, Copy, PartialEq, Eq, Structural)]
pub struct PageSize {
    pub width: F32Bits,
    pub height: F32Bits,
}

impl Default for PageSize {
    /// A4: 595.28 by 841.89 points.
    fn default() -> (r: Self)
        ensures
            r == (PageSize { width: F32Bits(0x4414_d1ec), height: F32Bits(0x4452_78f6) }),
    {
        PageSize { width: F32Bits(0x4414_d1ec), height: F32Bits(0x4452_78f6) }
    }
}

/// What a page is while its margin boxes are laid out.
#[derive(Debug, Clone)]
pub struct PageContext {
    /// Page number (1-indexed)
    pub page_number: u32,
    /// Total pages in document
    pub total_pages: u32,
    /// Whether this is the first page
    pub is_first: bool,
    /// Whether this is a left page (verso) or right page (recto)
    pub is_left: bool,
    /// Whether this page is blank
    pub is_blank: bool,
    /// Named page type (if specified)
    pub named_page: Option<String>,
    /// Page size
    pub size: PageSize,
    /// Page margins
    pub margins: Margins,
    /// Running strings (set by the string-set property), by name
    pub running_strings: Vec<(String, String)>,
}

/// The selectors that apply to a page: the default (unnamed) page,
/// `:first` on the first page, `:left` or `:right`, `:blank` on a blank
/// page, and the page's name.
pub open spec fn applicable_view(c: PageContext) -> Seq<SelectorView> {
    seq![SelectorView::Named(Seq::empty())]
        + (if c.is_first { seq![SelectorView::First] } else { Seq::empty() })
        + (if c.is_left { seq![SelectorView::Left] } else { seq![SelectorView::Right] })
        + (if c.is_blank { seq![SelectorView::Blank] } else { Seq::empty() })
        + (match c.named_page { Some(n) => seq![SelectorView::Named(n@)], None => Seq::empty() })
}

impl PageContext {
    /// Create a new page context: the first page is the first, even pages
    /// are left pages; A4 with one-inch margins, no running strings.
    pub fn new(page_number: u32, total_pages: u32) -> (r: Self)
        ensures
            r.page_number == page_number,
            r.total_pages == total_pages,
            r.is_first == (page_number == 1),
            r.is_left == (page_number % 2 == 0),
            !r.is_blank,
            r.named_page is None,
            r.size == (PageSize { width: F32Bits(0x4414_d1ec), height: F32Bits(0x4452_78f6) }),
            r.margins == (Margins { top: F32Bits(0x4290_0000), right: F32Bits(0x4290_0000),
                bottom: F32Bits(0x4290_0000), left: F32Bits(0x4290_0000) }),
            r.running_strings@.len() == 0,
    {
        PageContext {
            page_number,
            total_pages,
            is_first: page_number == 1,
            is_left: page_number % 2 == 0,
            is_blank: false,
            named_page: None,
            size: PageSize::default(),
            margins: Margins::all(F32Bits(0x4290_0000)),
            running_strings: Vec::new(),
        }
    }

    /// Get page selector types that apply to this page
    pub fn applicable_selectors(&self) -> (r: Vec<PageSelector>)
        ensures
            selectors_view(r@) == applicable_view(*self),
    {
        let mut r: Vec<PageSelector> = Vec::new();
        r.push(PageSelector::Named(String::new()));
        if self.is_first {
            r.push(PageSelector::First);
        }
        if self.is_left {
            r.push(PageSelector::Left);
        } else {
            r.push(PageSelector::Right);
        }
        if self.is_blank {
            r.push(PageSelector::Blank);
        }
        match &self.named_page {
            Some(n) => r.push(PageSelector::Named(n.clone())),
            None => {},
        }
        assert(selectors_view(r@) =~= applicable_view(*self));
        r
    }

    /// Check if this page matches the given selectors: no selectors match
    /// every page, else one of them must apply.
    pub fn matches_selectors(&self, selectors: &Vec<PageSelector>) -> (r: bool)
        ensures
            r == (selectors@.len() == 0 || exists|i: int| 0 <= i < selectors@.len()
                && applicable_view(*self).contains(#[trigger] selector_view(selectors@[i]))),
    {
        if selectors.len() == 0 {
            return true;
        }
        let applicable = self.applicable_selectors();
        let mut i: usize = 0;
        while i < selectors.len()
            invariant
                i <= selectors@.len(),
                selectors_view(applicable@) == applicable_view(*self),
                forall|k: int| 0 <= k < i ==> !applicable_view(*self).contains(#[trigger] selector_view(selectors@[k])),
            decreases selectors@.len() - i,
        {
            let mut j: usize = 0;
            while j < applicable.len()
                invariant
                    i < selectors@.len(),
                    j <= applicable@.len(),
                    selectors_view(applicable@) == applicable_view(*self),
                    forall|k: int| 0 <= k < j ==> selector_view(applicable@[k]) != selector_view(selectors@[i as int]),
                decreases applicable@.len() - j,
            {
                if selector_eq(&selectors[i], &applicable[j]) {
                    assert(applicable_view(*self)[j as int] == selector_view(selectors@[i as int]));
                    return true;
                }
                j = j + 1;
            }
            proof {
                assert forall|k: int| 0 <= k < applicable_view(*self).len() implies applicable_view(*self)[k] != selector_view(selectors@[i as int]) by {
                    assert(applicable_view(*self)[k] == selector_view(applicable@[k]));
                }
            }
            i = i + 1;
        }
        false
    }

    /// Get a running string by name
    pub fn get_running_string(&self, name: &str) -> (r: Option<&str>)
        ensures
            match r {
                Some(v) => attr_of(self.running_strings@, name@) == Some(v@),
                None => attr_of(self.running_strings@, name@) is None,
            },
    {
        let mut i: usize = 0;
        assert(self.running_strings@.skip(0) =~= self.running_strings@);
        while i < self.running_strings.len()
            invariant
                i <= self.running_strings@.len(),
                attr_of(self.running_strings@, name@) == attr_of(self.running_strings@.skip(i as int), name@),
            decreases self.running_strings@.len() - i,
        {
            assert(self.running_strings@.skip(i as int).drop_first() =~= self.running_strings@.skip(i + 1));
            if str_eq(self.running_strings[i].0.as_str(), name) {
                return Some(self.running_strings[i].1.as_str());
            }
            i = i + 1;
        }
        None
    }

    /// Sets the running string `name` (as inserting into a map: the value
    /// replaces an earlier one).
    pub fn set_running_string(&mut self, name: &str, value: &str)
        ensures
            attr_of(final(self).running_strings@, name@) == Some(value@),
            forall|k: Seq<char>| k != name@ ==> attr_of(final(self).running_strings@, k) == attr_of(old(self).running_strings@, k),
            final(self).page_number == old(self).page_number,
            final(self).total_pages == old(self).total_pages,
    {
        let mut i: usize = 0;
        let ghost rs = self.running_strings@;
        while i < self.running_strings.len()
            invariant
                i <= rs.len(),
                self.running_strings@ == rs,
                self.page_number == old(self).page_number,
                self.total_pages == old(self).total_pages,
                rs == old(self).running_strings@,
                forall|k: int| 0 <= k < i ==> rs[k].0@ != name@,
            decreases rs.len() - i,
        {
            if str_eq(self.running_strings[i].0.as_str(), name) {
                let key = self.running_strings[i].0.clone();
                self.running_strings.set(i, (key, String::from_str(value)));
                proof { crate::pdf::print_css::lemma_attr_update(rs, i as int, name@, self.running_strings@); }
                return;
            }
            i = i + 1;
        }
        self.running_strings.push((String::from_str(name), String::from_str(value)));
        proof { crate::pdf::print_css::lemma_attr_push(rs, name@, self.running_strings@); }
    }
}

/// Updating the value of the first entry called `name` changes what
/// `name` reads and nothing else.
pub proof fn lemma_attr_update(rs: Seq<(String, String)>, i: int, name: Seq<char>, after: Seq<(String, String)>)
    requires
        0 <= i < rs.len(),
        rs[i].0@ == name,
        forall|k: int| 0 <= k < i ==> rs[k].0@ != name,
        after.len() == rs.len(),
        after[i].0@ == name,
        forall|k: int| 0 <= k < rs.len() && k != i ==> after[k] == rs[k],
    ensures
        attr_of(after, name) == Some(after[i].1@),
        forall|k: Seq<char>| k != name ==> attr_of(after, k) == attr_of(rs, k),
    decreases i,
{
    if i > 0 {
        assert(rs[0].0@ != name);
        assert(after[0] == rs[0]);
        lemma_attr_update(rs.drop_first(), i - 1, name, after.drop_first());
    }
    assert forall|k: Seq<char>| k != name implies attr_of(after, k) == attr_of(rs, k) by {
        lemma_attr_update_other(rs, i, name, after, k);
    }
}

proof fn lemma_attr_update_other(rs: Seq<(String, String)>, i: int, name: Seq<char>, after: Seq<(String, String)>, k: Seq<char>)
    requires
        0 <= i < rs.len(),
        rs[i].0@ == name,
        after.len() == rs.len(),
        after[i].0@ == name,
        forall|j: int| 0 <= j < rs.len() && j != i ==> after[j] == rs[j],
        k != name,
    ensures
        attr_of(after, k) == attr_of(rs, k),
    decreases rs.len(),
{
    if rs.len() > 0 {
        if i == 0 {
            assert(after.drop_first() =~= rs.drop_first());
        } else {
            assert(after[0] == rs[0]);
            lemma_attr_update_other(rs.drop_first(), i - 1, name, after.drop_first(), k);
        }
    }
}

/// Adding an entry for a name that has none makes the name read its value
/// and changes nothing else.
pub proof fn lemma_attr_push(rs: Seq<(String, String)>, name: Seq<char>, after: Seq<(String, String)>)
    requires
        forall|k: int| 0 <= k < rs.len() ==> rs[k].0@ != name,
        after.len() == rs.len() + 1,
        forall|k: int| 0 <= k < rs.len() ==> after[k] == rs[k],
        after[rs.len() as int].0@ == name,
    ensures
        attr_of(after, name) == Some(after[rs.len() as int].1@),
        forall|k: Seq<char>| k != name ==> attr_of(after, k) == attr_of(rs, k),
    decreases rs.len(),
{
    if rs.len() > 0 {
        assert(after[0] == rs[0]);
        assert(rs[0].0@ != name);
        lemma_attr_push(rs.drop_first(), name, after.drop_first());
        assert(after.drop_first()[rs.len() - 1] == after[rs.len() as int]);
        assert forall|k: Seq<char>| k != name implies attr_of(after, k) == attr_of(rs, k) by {
            if rs[0].0@ != k {
                assert(attr_of(after.drop_first(), k) == attr_of(rs.drop_first(), k));
            }
        }
    } else {
        assert forall|k: Seq<char>| k != name implies attr_of(after, k) == attr_of(rs, k) by {
            assert(after.drop_first().len() == 0);
            assert(attr_of(after.drop_first(), k) == None::<Seq<char>>);
        }
        assert(attr_of(after.drop_first(), name) == None::<Seq<char>>);
    }
}

/// The text a margin content part gives on a page: text as it is, a
/// running string's value (nothing without one), the page number or the
/// page count, nothing for a target counter, a leader's character.
pub open spec fn part_text(p: ContentView, c: PageContext) -> Seq<char> {
    match p {
        ContentView::Text(t) => t,
        ContentView::StringRef(n) => match attr_of(c.running_strings@, n) {
            Some(v) => v,
            None => Seq::empty(),
        },
        ContentView::PageCounter => decimal(c.page_number as nat),
        ContentView::PagesCounter => decimal(c.total_pages as nat),
        ContentView::TargetCounter(_, _) => Seq::empty(),
        ContentView::Leader(ch) => seq![ch],
    }
}

/// The text of margin content parts on a page, in order.
pub open spec fn parts_text(ps: Seq<ContentView>, c: PageContext) -> Seq<char>
    decreases ps.len(),
{
    if ps.len() == 0 { Seq::empty() } else { parts_text(ps.drop_last(), c) + part_text(ps.last(), c) }
}

/// Content for a margin box
#[derive(Debug, Clone)]
pub struct MarginBoxContent {
    /// Content parts
    pub content: Vec<MarginContentPart>,
    /// Font size for this margin box
    pub font_size: F32Bits,
    /// Text color
    pub color: Option<Color>,
    /// Text alignment
    pub text_align: TextAlign,
    /// Vertical alignment
    pub vertical_align: VerticalAlign,
}

impl Default for MarginBoxContent {
    /// No content, 10 point text, no color, centered in the middle.
    fn default() -> (r: Self)
        ensures
            r.content@.len() == 0,
            r.font_size == F32Bits(0x4120_0000),
            r.color is None,
            r.text_align == TextAlign::Center,
            r.vertical_align == VerticalAlign::Middle,
    {
        MarginBoxContent {
            content: Vec::new(),
            font_size: F32Bits(0x4120_0000),
            color: None,
            text_align: TextAlign::Center,
            vertical_align: VerticalAlign::Middle,
        }
    }
}

impl MarginBoxContent {
    /// Generate the actual text content for this margin box given a page context
    pub fn generate_text(&self, context: &PageContext) -> (r: String)
        ensures
            r@ == parts_text(parts_view(self.content@), *context),
    {
        let mut r = String::new();
        let mut i: usize = 0;
        assert(parts_view(self.content@).take(0) =~= Seq::<ContentView>::empty());
        while i < self.content.len()
            invariant
                i <= self.content@.len(),
                r@ == parts_text(parts_view(self.content@).take(i as int), *context),
            decreases self.content@.len() - i,
        {
            match &self.content[i] {
                MarginContentPart::Text(t) => r.append(t.as_str()),
                MarginContentPart::StringRef(name) => {
                    match context.get_running_string(name.as_str()) {
                        Some(v) => r.append(v),
                        None => {},
                    }
                },
                MarginContentPart::PageCounter => push_decimal(&mut r, context.page_number as u128),
                MarginContentPart::PagesCounter => push_decimal(&mut r, context.total_pages as u128),
                MarginContentPart::TargetCounter { .. } => {},
                MarginContentPart::Leader(c) => push_char(&mut r, *c),
            }
            proof {
                let ps = parts_view(self.content@).take(i + 1);
                assert(ps.drop_last() =~= parts_view(self.content@).take(i as int));
                assert(ps.last() == part_view(self.content@[i as int]));
            }
            assert(r@ =~= parts_text(parts_view(self.content@).take(i + 1), *context));
            i = i + 1;
        }
        assert(parts_view(self.content@).take(self.content@.len() as int) =~= parts_view(self.content@));
        r
    }
}

} // verus!
