//! HTML form controls: what kind of control an element is, the values a
//! control box carries, and the text it shows.

use vstd::prelude::*;
use crate::html::{Element, Node, attr_of, children_text, node_text};
use crate::strings::{lower_chars, chars_are, ascii_lower_seq, push_char, str_eq};
use crate::types::{Color, F32Bits, f32_of_nat, round24, f32_of_u128};

verus! {

/// Type of form control
#[derive(Debug, Clone, Copy, PartialEq, Eq, Structural)]
pub enum FormControlType {
    Text,
    Password,
    Email,
    Number,
    Checkbox,
    Radio,
    Date,
    Time,
    File,
    Hidden,
    Textarea,
    Select,
    Button,
    Submit,
    Reset,
    Label,
}

/// The control type named by an input's `type` attribute, in lowercase.
pub open spec fn input_control_of(t: Seq<char>) -> FormControlType {
    if t == "password"@ {
        FormControlType::Password
    } else if t == "email"@ {
        FormControlType::Email
    } else if t == "number"@ {
        FormControlType::Number
    } else if t == "checkbox"@ {
        FormControlType::Checkbox
    } else if t == "radio"@ {
        FormControlType::Radio
    } else if t == "date"@ {
        FormControlType::Date
    } else if t == "time"@ {
        FormControlType::Time
    } else if t == "file"@ {
        FormControlType::File
    } else if t == "hidden"@ {
        FormControlType::Hidden
    } else {
        FormControlType::Text
    }
}

impl FormControlType {
    /// Get the form control type from an input element's type attribute
    /// (compared without ASCII case; unknown types are text)
    pub fn from_input_type(input_type: &str) -> (r: Self)
        ensures
            r == input_control_of(ascii_lower_seq(input_type@)),
    {
        let t = lower_chars(input_type);
        if chars_are(&t, "password") {
            FormControlType::Password
        } else if chars_are(&t, "email") {
            FormControlType::Email
        } else if chars_are(&t, "number") {
            FormControlType::Number
        } else if chars_are(&t, "checkbox") {
            FormControlType::Checkbox
        } else if chars_are(&t, "radio") {
            FormControlType::Radio
        } else if chars_are(&t, "date") {
            FormControlType::Date
        } else if chars_are(&t, "time") {
            FormControlType::Time
        } else if chars_are(&t, "file") {
            FormControlType::File
        } else if chars_are(&t, "hidden") {
            FormControlType::Hidden
        } else {
            FormControlType::Text
        }
    }

    /// The form control type of an input's type attribute, as
    /// `from_input_type`.
    pub fn from_input(input_type: &str) -> (r: Self)
        ensures
            r == input_control_of(ascii_lower_seq(input_type@)),
    {
        FormControlType::from_input_type(input_type)
    }

    /// Check if this form control should be rendered
    pub fn is_visible(&self) -> (r: bool)
        ensures
            r == !(*self is Hidden),
    {
        match self {
            FormControlType::Hidden => false,
            _ => true,
        }
    }

    /// Check if this is a text-based input
    pub fn is_text_input(&self) -> (r: bool)
        ensures
            r == (*self is Text || *self is Password || *self is Email || *self is Number),
    {
        match self {
            FormControlType::Text | FormControlType::Password | FormControlType::Email | FormControlType::Number => true,
            _ => false,
        }
    }

    /// Check if this is a selection control (checkbox/radio)
    pub fn is_selection_control(&self) -> (r: bool)
        ensures
            r == (*self is Checkbox || *self is Radio),
    {
        match self {
            FormControlType::Checkbox | FormControlType::Radio => true,
            _ => false,
        }
    }

    /// Check if this is a button type
    pub fn is_button(&self) -> (r: bool)
        ensures
            r == (*self is Button || *self is Submit || *self is Reset),
    {
        match self {
            FormControlType::Button | FormControlType::Submit | FormControlType::Reset => true,
            _ => false,
        }
    }
}

/// Option for select elements
#[derive(Debug, Clone, PartialEq)]
pub struct SelectOption {
    pub value: String,
    pub text: String,
    pub selected: bool,
    pub disabled: bool,
}

/// Data for form control boxes
#[derive(Debug, Clone, PartialEq)]
pub struct FormBox {
    /// Type of form control
    pub control_type: FormControlType,
    /// Current value/text content
    pub value: String,
    /// Placeholder text
    pub placeholder: String,
    /// Whether the control is disabled
    pub disabled: bool,
    /// Whether the control is readonly
    pub readonly: bool,
    /// Whether checkbox/radio is checked
    pub checked: bool,
    /// For select: selected option index
    pub selected_index: Option<usize>,
    /// For select: options list
    pub options: Vec<SelectOption>,
    /// Name attribute
    pub name: String,
    /// ID attribute
    pub id: String,
    /// For file input: filename
    pub filename: Option<String>,
    /// Associated label text (for labels)
    pub label_for: Option<String>,
}

/// The value of attribute `name`, or `dflt` when it is absent.
pub open spec fn attr_or(e: Element, name: Seq<char>, dflt: Seq<char>) -> Seq<char> {
    match attr_of(e.attributes@, name) {
        Some(v) => v,
        None => dflt,
    }
}

/// Whether attribute `name` is present.
pub open spec fn has(e: Element, name: Seq<char>) -> bool {
    attr_of(e.attributes@, name) is Some
}

/// The value of attribute `name` as a string, `dflt` when absent.
fn attr_string(e: &Element, name: &str, dflt: &str) -> (r: String)
    ensures
        r@ == attr_or(*e, name@, dflt@),
{
    match e.attr(name) {
        Some(v) => String::from_str(v),
        None => String::from_str(dflt),
    }
}

/// The text of an element's descendants.
pub open spec fn element_text(e: Element) -> Seq<char> {
    children_text(e.children@)
}

/// The fields of a form box read from an element's common attributes.
pub open spec fn common_fields(b: FormBox, e: Element) -> bool {
    &&& b.name@ == attr_or(e, "name"@, ""@)
    &&& b.id@ == attr_or(e, "id"@, ""@)
    &&& b.filename is None
    &&& b.label_for is None
}

/// An option element: the children named `option` without ASCII case.
pub open spec fn is_option(n: Node) -> bool {
    n matches Node::Element(el) && ascii_lower_seq(el.tag_name@) == "option"@
}

/// The options among a list of nodes, in order: value, text, selected, disabled.
pub open spec fn options_of(ch: Seq<Node>) -> Seq<(Seq<char>, Seq<char>, bool, bool)>
    decreases ch.len(),
{
    if ch.len() == 0 {
        Seq::empty()
    } else {
        let rest = options_of(ch.drop_last());
        match ch.last() {
            Node::Element(el) => if ascii_lower_seq(el.tag_name@) == "option"@ {
                rest.push((attr_or(el, "value"@, ""@), element_text(el), has(el, "selected"@), has(el, "disabled"@)))
            } else {
                rest
            },
            _ => rest,
        }
    }
}

/// The index of the first selected option, if any.
pub open spec fn first_selected(os: Seq<(Seq<char>, Seq<char>, bool, bool)>) -> Option<int>
    decreases os.len(),
{
    if os.len() == 0 {
        None
    } else {
        match first_selected(os.drop_last()) {
            Some(i) => Some(i),
            None => if os.last().2 { Some(os.len() - 1) } else { None },
        }
    }
}

/// A select's chosen option: the first selected one, else the first.
pub open spec fn chosen(os: Seq<(Seq<char>, Seq<char>, bool, bool)>) -> Option<int> {
    match first_selected(os) {
        Some(i) => Some(i),
        None => if os.len() > 0 { Some(0) } else { None },
    }
}

proof fn lemma_first_selected_bounds(os: Seq<(Seq<char>, Seq<char>, bool, bool)>)
    ensures
        first_selected(os) matches Some(i) ==> 0 <= i < os.len() && os[i].2,
    decreases os.len(),
{
    if os.len() > 0 {
        lemma_first_selected_bounds(os.drop_last());
    }
}

/// The options of a form box as plain values.
pub open spec fn options_view(v: Seq<SelectOption>) -> Seq<(Seq<char>, Seq<char>, bool, bool)> {
    Seq::new(v.len(), |i: int| (v[i].value@, v[i].text@, v[i].selected, v[i].disabled))
}

/// The control type of a button by its lowercase `type` attribute.
pub open spec fn button_control_of(t: Seq<char>) -> FormControlType {
    if t == "button"@ {
        FormControlType::Button
    } else if t == "reset"@ {
        FormControlType::Reset
    } else {
        FormControlType::Submit
    }
}

/// The label of a button: its text, or when that is empty a default by
/// its type.
pub open spec fn button_value(e: Element, ct: FormControlType) -> Seq<char> {
    if element_text(e).len() == 0 {
        if ct is Submit {
            "Submit"@
        } else if ct is Reset {
            "Reset"@
        } else {
            attr_or(e, "value"@, "Button"@)
        }
    } else {
        element_text(e)
    }
}

/// `n` bullet characters.
fn bullets(n: usize) -> (r: String)
    ensures
        r@ == Seq::new(n as nat, |i: int| '•'),
{
    let mut s = String::new();
    let mut k: usize = 0;
    while k < n
        invariant
            k <= n,
            s@ == Seq::new(k as nat, |i: int| '•'),
        decreases n - k,
    {
        push_char(&mut s, '•');
        assert(s@ =~= Seq::new((k + 1) as nat, |i: int| '•'));
        k = k + 1;
    }
    s
}

impl FormBox {
    /// Create a new form box from an input element
    pub fn from_input(element: &Element) -> (r: Self)
        ensures
            r.control_type == input_control_of(ascii_lower_seq(attr_or(*element, "type"@, "text"@))),
            r.value@ == attr_or(*element, "value"@, ""@),
            r.placeholder@ == attr_or(*element, "placeholder"@, ""@),
            r.disabled == has(*element, "disabled"@),
            r.readonly == has(*element, "readonly"@),
            r.checked == has(*element, "checked"@),
            r.selected_index is None,
            r.options@.len() == 0,
            common_fields(r, *element),
    {
        let input_type = attr_string(element, "type", "text");
        let control_type = FormControlType::from_input_type(input_type.as_str());
        FormBox {
            control_type,
            value: attr_string(element, "value", ""),
            placeholder: attr_string(element, "placeholder", ""),
            disabled: element.has_attr("disabled"),
            readonly: element.has_attr("readonly"),
            checked: element.has_attr("checked"),
            selected_index: None,
            options: Vec::new(),
            name: attr_string(element, "name", ""),
            id: attr_string(element, "id", ""),
            filename: None,
            label_for: None,
        }
    }

    /// Create a new form box from a textarea element
    pub fn from_textarea(element: &Element) -> (r: Self)
        ensures
            r.control_type == FormControlType::Textarea,
            r.value@ == element_text(*element),
            r.placeholder@ == attr_or(*element, "placeholder"@, ""@),
            r.disabled == has(*element, "disabled"@),
            r.readonly == has(*element, "readonly"@),
            !r.checked,
            r.selected_index is None,
            r.options@.len() == 0,
            common_fields(r, *element),
    {
        FormBox {
            control_type: FormControlType::Textarea,
            value: element.text_content(),
            placeholder: attr_string(element, "placeholder", ""),
            disabled: element.has_attr("disabled"),
            readonly: element.has_attr("readonly"),
            checked: false,
            selected_index: None,
            options: Vec::new(),
            name: attr_string(element, "name", ""),
            id: attr_string(element, "id", ""),
            filename: None,
            label_for: None,
        }
    }

    /// Create a new form box from a select element: its `option` children,
    /// the first selected one chosen (else the first option).
    pub fn from_select(element: &Element) -> (r: Self)
        ensures
            r.control_type == FormControlType::Select,
            options_view(r.options@) == options_of(element.children@),
            r.selected_index == (match chosen(options_of(element.children@)) {
                Some(i) => Some(i as usize),
                None => None::<usize>,
            }),
            r.value@ == (match chosen(options_of(element.children@)) {
                Some(i) => options_of(element.children@)[i].1,
                None => Seq::<char>::empty(),
            }),
            r.placeholder@ == Seq::<char>::empty(),
            r.disabled == has(*element, "disabled"@),
            !r.readonly,
            !r.checked,
            common_fields(r, *element),
    {
        let mut options: Vec<SelectOption> = Vec::new();
        let mut selected_index: Option<usize> = None;
        let mut i: usize = 0;
        let ch = element.children();
        while i < ch.len()
            invariant
                i <= ch@.len(),
                ch == &element.children,
                options_view(options@) == options_of(ch@.take(i as int)),
                options@.len() <= i,
                selected_index == (match first_selected(options_of(ch@.take(i as int))) {
                    Some(k) => Some(k as usize),
                    None => None::<usize>,
                }),
            decreases ch@.len() - i,
        {
            proof {
                assert(ch@.take(i + 1).drop_last() =~= ch@.take(i as int));
                lemma_first_selected_bounds(options_of(ch@.take(i as int)));
            }
            if let Some(el) = ch[i].as_element() {
                let tag = lower_chars(el.tag_name());
                if chars_are(&tag, "option") {
                    let opt = SelectOption {
                        value: attr_string(el, "value", ""),
                        text: el.text_content(),
                        selected: el.has_attr("selected"),
                        disabled: el.has_attr("disabled"),
                    };
                    if opt.selected && selected_index.is_none() {
                        selected_index = Some(options.len());
                    }
                    let ghost before = options@;
                    options.push(opt);
                    assert(options_of(ch@.take(i + 1)).drop_last() =~= options_of(ch@.take(i as int)));
                    proof {
                        assert(options_view(options@) =~= options_view(before).push(
                            (options@.last().value@, options@.last().text@, options@.last().selected, options@.last().disabled)));
                    }
                }
            }
            i = i + 1;
        }
        assert(ch@.take(i as int) =~= ch@);
        proof { lemma_first_selected_bounds(options_of(ch@)); }
        if selected_index.is_none() && options.len() > 0 {
            selected_index = Some(0);
        }
        let value = match selected_index {
            Some(k) => options[k].text.clone(),
            None => String::new(),
        };
        FormBox {
            control_type: FormControlType::Select,
            value,
            placeholder: String::new(),
            disabled: element.has_attr("disabled"),
            readonly: false,
            checked: false,
            selected_index,
            options,
            name: attr_string(element, "name", ""),
            id: attr_string(element, "id", ""),
            filename: None,
            label_for: None,
        }
    }

    /// Create a new form box from a button element
    pub fn from_button(element: &Element) -> (r: Self)
        ensures
            r.control_type == button_control_of(ascii_lower_seq(attr_or(*element, "type"@, "submit"@))),
            r.value@ == button_value(*element, r.control_type),
            r.placeholder@ == Seq::<char>::empty(),
            r.disabled == has(*element, "disabled"@),
            !r.readonly,
            !r.checked,
            r.selected_index is None,
            r.options@.len() == 0,
            common_fields(r, *element),
    {
        let button_type = attr_string(element, "type", "submit");
        let t = lower_chars(button_type.as_str());
        let control_type = if chars_are(&t, "button") {
            FormControlType::Button
        } else if chars_are(&t, "reset") {
            FormControlType::Reset
        } else {
            FormControlType::Submit
        };
        let text = element.text_content();
        let value = if text.as_str().is_empty() {
            match control_type {
                FormControlType::Submit => String::from_str("Submit"),
                FormControlType::Reset => String::from_str("Reset"),
                _ => attr_string(element, "value", "Button"),
            }
        } else {
            text
        };
        FormBox {
            control_type,
            value,
            placeholder: String::new(),
            disabled: element.has_attr("disabled"),
            readonly: false,
            checked: false,
            selected_index: None,
            options: Vec::new(),
            name: attr_string(element, "name", ""),
            id: attr_string(element, "id", ""),
            filename: None,
            label_for: None,
        }
    }

    /// Create a new form box from a label element
    pub fn from_label(element: &Element) -> (r: Self)
        ensures
            r.control_type == FormControlType::Label,
            r.value@ == element_text(*element),
            r.placeholder@ == Seq::<char>::empty(),
            !r.disabled,
            !r.readonly,
            !r.checked,
            r.selected_index is None,
            r.options@.len() == 0,
            r.name@ == Seq::<char>::empty(),
            r.id@ == attr_or(*element, "id"@, ""@),
            r.filename is None,
            match attr_of(element.attributes@, "for"@) {
                Some(v) => r.label_for matches Some(l) && l@ == v,
                None => r.label_for is None,
            },
    {
        let label_for = match element.attr("for") {
            Some(v) => Some(String::from_str(v)),
            None => None,
        };
        FormBox {
            control_type: FormControlType::Label,
            value: element.text_content(),
            placeholder: String::new(),
            disabled: false,
            readonly: false,
            checked: false,
            selected_index: None,
            options: Vec::new(),
            name: String::new(),
            id: attr_string(element, "id", ""),
            filename: None,
            label_for,
        }
    }

    /// Get default background color: light gray for buttons, else white.
    pub fn default_background_color(&self) -> (r: Color)
        ensures
            r == (if self.control_type is Button || self.control_type is Submit || self.control_type is Reset {
                Color { r: 240, g: 240, b: 240, a: 255 }
            } else {
                Color { r: 255, g: 255, b: 255, a: 255 }
            }),
    {
        match self.control_type {
            FormControlType::Button | FormControlType::Submit | FormControlType::Reset => Color::new(240, 240, 240),
            _ => Color::white(),
        }
    }

    /// Get default border color
    pub fn default_border_color(&self) -> (r: Color)
        ensures
            r == (if self.disabled { Color { r: 200, g: 200, b: 200, a: 255 } } else { Color { r: 150, g: 150, b: 150, a: 255 } }),
    {
        if self.disabled {
            Color::new(200, 200, 200)
        } else {
            Color::new(150, 150, 150)
        }
    }

    /// Get default text color
    pub fn default_text_color(&self) -> (r: Color)
        ensures
            r == (if self.disabled { Color { r: 128, g: 128, b: 128, a: 255 } } else { Color { r: 0, g: 0, b: 0, a: 255 } }),
    {
        if self.disabled {
            Color::new(128, 128, 128)
        } else {
            Color::black()
        }
    }

    /// Get the display text for this control: bullets for a password (one
    /// per byte of its UTF-8 value), the file name or a prompt for a file,
    /// the chosen option for a select, a box symbol for a checkbox or radio
    /// button, else the value.
    pub fn display_text(&self) -> (r: String)
        ensures
            r@ == (match self.control_type {
                FormControlType::Password => Seq::new(
                    (vstd::utf8::encode_utf8(self.value@).len() as usize) as nat, |i: int| '•'),
                FormControlType::File => match self.filename {
                    Some(f) => "📎 "@ + f@,
                    None => "Choose file..."@,
                },
                FormControlType::Select => match self.selected_index {
                    Some(i) => if i < self.options@.len() { self.options@[i as int].text@ } else { self.value@ },
                    None => self.value@,
                },
                FormControlType::Checkbox => if self.checked { "☑"@ } else { "☐"@ },
                FormControlType::Radio => if self.checked { "◉"@ } else { "○"@ },
                _ => self.value@,
            }),
    {
        match self.control_type {
            FormControlType::Password => {
                let n = self.value.as_str().len();
                bullets(n)
            },
            FormControlType::File => match &self.filename {
                Some(f) => {
                    let mut s = String::from_str("📎 ");
                    s.append(f.as_str());
                    s
                },
                None => String::from_str("Choose file..."),
            },
            FormControlType::Select => match self.selected_index {
                Some(i) => if i < self.options.len() { self.options[i].text.clone() } else { self.value.clone() },
                None => self.value.clone(),
            },
            FormControlType::Checkbox => if self.checked { String::from_str("☑") } else { String::from_str("☐") },
            FormControlType::Radio => if self.checked { String::from_str("◉") } else { String::from_str("○") },
            _ => self.value.clone(),
        }
    }

    /// Check if this control needs a border: all but hidden inputs and labels
    pub fn needs_border(&self) -> (r: bool)
        ensures
            r == !(self.control_type is Hidden || self.control_type is Label),
    {
        match self.control_type {
            FormControlType::Hidden | FormControlType::Label => false,
            _ => true,
        }
    }
}

/// The number of bytes of a text in UTF-8.
pub open spec fn byte_len(s: Seq<char>) -> nat {
    (vstd::utf8::encode_utf8(s).len() as usize) as nat
}

/// The intrinsic width of a control in points: fixed per type; for a
/// button 8 per byte of its value plus 32, for a label 7 per byte, each
/// computed in single precision from the byte count.
pub open spec fn intrinsic_width_of(ct: FormControlType, len: nat) -> F32Bits {
    match ct {
        FormControlType::Text | FormControlType::Password | FormControlType::Email => F32Bits(0x4348_0000),
        FormControlType::Number => F32Bits(0x42c8_0000),
        FormControlType::Date | FormControlType::Time => F32Bits(0x42f0_0000),
        FormControlType::File => F32Bits(0x437a_0000),
        FormControlType::Textarea => F32Bits(0x4396_0000),
        FormControlType::Select => F32Bits(0x4348_0000),
        FormControlType::Button | FormControlType::Submit | FormControlType::Reset =>
            F32Bits(f32_of_nat(8 * round24(len) + 32)),
        FormControlType::Checkbox | FormControlType::Radio => F32Bits(0x4180_0000),
        FormControlType::Label => F32Bits(f32_of_nat(7 * round24(len))),
        FormControlType::Hidden => F32Bits(0),
    }
}

/// The intrinsic height of a control in points.
pub open spec fn intrinsic_height_of(ct: FormControlType) -> F32Bits {
    match ct {
        FormControlType::Text | FormControlType::Password | FormControlType::Email | FormControlType::Number
        | FormControlType::Date | FormControlType::Time | FormControlType::File | FormControlType::Select =>
            F32Bits(0x41e0_0000),
        FormControlType::Textarea => F32Bits(0x42a0_0000),
        FormControlType::Button | FormControlType::Submit | FormControlType::Reset => F32Bits(0x4200_0000),
        FormControlType::Checkbox | FormControlType::Radio => F32Bits(0x4180_0000),
        FormControlType::Label => F32Bits(0x41a0_0000),
        FormControlType::Hidden => F32Bits(0),
    }
}

impl FormBox {
    /// Get the intrinsic width for this form control (points, single precision)
    pub fn intrinsic_width(&self) -> (r: F32Bits)
        ensures
            r == intrinsic_width_of(self.control_type, byte_len(self.value@)),
    {
        match self.control_type {
            FormControlType::Text | FormControlType::Password | FormControlType::Email => F32Bits(0x4348_0000),
            FormControlType::Number => F32Bits(0x42c8_0000),
            FormControlType::Date | FormControlType::Time => F32Bits(0x42f0_0000),
            FormControlType::File => F32Bits(0x437a_0000),
            FormControlType::Textarea => F32Bits(0x4396_0000),
            FormControlType::Select => F32Bits(0x4348_0000),
            FormControlType::Button | FormControlType::Submit | FormControlType::Reset => {
                let n = self.value.as_str().len() as u128;
                let v = f32_of_u128(n).1;
                F32Bits(f32_of_u128(8 * v + 32).0)
            },
            FormControlType::Checkbox | FormControlType::Radio => F32Bits(0x4180_0000),
            FormControlType::Label => {
                let n = self.value.as_str().len() as u128;
                let v = f32_of_u128(n).1;
                F32Bits(f32_of_u128(7 * v).0)
            },
            FormControlType::Hidden => F32Bits(0),
        }
    }

    /// Get the intrinsic height for this form control (points)
    pub fn intrinsic_height(&self) -> (r: F32Bits)
        ensures
            r == intrinsic_height_of(self.control_type),
    {
        match self.control_type {
            FormControlType::Text | FormControlType::Password | FormControlType::Email | FormControlType::Number
            | FormControlType::Date | FormControlType::Time | FormControlType::File | FormControlType::Select =>
                F32Bits(0x41e0_0000),
            FormControlType::Textarea => F32Bits(0x42a0_0000),
            FormControlType::Button | FormControlType::Submit | FormControlType::Reset => F32Bits(0x4200_0000),
            FormControlType::Checkbox | FormControlType::Radio => F32Bits(0x4180_0000),
            FormControlType::Label => F32Bits(0x41a0_0000),
            FormControlType::Hidden => F32Bits(0),
        }
    }

    /// Get border width: one point for every control
    pub fn border_width(&self) -> (r: F32Bits)
        ensures
            r == F32Bits(0x3f80_0000),
    {
        match self.control_type {
            FormControlType::Checkbox | FormControlType::Radio => F32Bits(0x3f80_0000),
            FormControlType::Button | FormControlType::Submit | FormControlType::Reset => F32Bits(0x3f80_0000),
            _ => F32Bits(0x3f80_0000),
        }
    }
}

/// The tag names of form elements, in lowercase.
pub open spec fn is_form_tag(t: Seq<char>) -> bool {
    t == "input"@ || t == "textarea"@ || t == "select"@ || t == "button"@ || t == "label"@
}

/// Check if an element is a form element
pub fn is_form_element(tag_name: &str) -> (r: bool)
    ensures
        r == is_form_tag(ascii_lower_seq(tag_name@)),
{
    let t = lower_chars(tag_name);
    chars_are(&t, "input") || chars_are(&t, "textarea") || chars_are(&t, "select") || chars_are(&t, "button")
        || chars_are(&t, "label")
}

/// Create a form box from an element if it's a form element
pub fn create_form_box(element: &Element) -> (r: Option<FormBox>)
    ensures
        r is Some == is_form_tag(ascii_lower_seq(element.tag_name@)),
        ascii_lower_seq(element.tag_name@) == "input"@ ==> (r matches Some(b) && b.control_type
            == input_control_of(ascii_lower_seq(attr_or(*element, "type"@, "text"@)))),
        ascii_lower_seq(element.tag_name@) == "textarea"@ ==> (r matches Some(b) && b.control_type == FormControlType::Textarea),
        ascii_lower_seq(element.tag_name@) == "select"@ ==> (r matches Some(b) && b.control_type == FormControlType::Select),
        ascii_lower_seq(element.tag_name@) == "button"@ ==> (r matches Some(b) && b.control_type
            == button_control_of(ascii_lower_seq(attr_or(*element, "type"@, "submit"@)))),
        ascii_lower_seq(element.tag_name@) == "label"@ ==> (r matches Some(b) && b.control_type == FormControlType::Label),
{
    let t = lower_chars(element.tag_name());
    proof {
        reveal_strlit("input");
        reveal_strlit("textarea");
        reveal_strlit("select");
        reveal_strlit("button");
        reveal_strlit("label");
        assert("input"@.len() == 5 && "textarea"@.len() == 8 && "select"@.len() == 6);
        assert("button"@.len() == 6 && "label"@.len() == 5);
        assert("input"@[0] != "label"@[0] && "select"@[0] != "button"@[0]);
    }
    if chars_are(&t, "input") {
        Some(FormBox::from_input(element))
    } else if chars_are(&t, "textarea") {
        Some(FormBox::from_textarea(element))
    } else if chars_are(&t, "select") {
        Some(FormBox::from_select(element))
    } else if chars_are(&t, "button") {
        Some(FormBox::from_button(element))
    } else if chars_are(&t, "label") {
        Some(FormBox::from_label(element))
    } else {
        None
    }
}

/// The default styles of form elements: for each tag, its property
/// declarations.
pub open spec fn form_default_styles() -> Seq<(Seq<char>, Seq<(Seq<char>, Seq<char>)>)> {
    seq![
        ("input"@, seq![("display"@, "inline-block"@), ("border"@, "1px solid #999"@), ("background"@, "white"@),
            ("padding"@, "4px 8px"@), ("font-family"@, "inherit"@), ("font-size"@, "inherit"@)]),
        ("textarea"@, seq![("display"@, "inline-block"@), ("border"@, "1px solid #999"@), ("background"@, "white"@),
            ("padding"@, "6px 8px"@), ("font-family"@, "inherit"@), ("font-size"@, "inherit"@), ("resize"@, "none"@)]),
        ("select"@, seq![("display"@, "inline-block"@), ("border"@, "1px solid #999"@), ("background"@, "white"@),
            ("padding"@, "4px 8px"@), ("font-family"@, "inherit"@), ("font-size"@, "inherit"@)]),
        ("button"@, seq![("display"@, "inline-block"@), ("border"@, "1px solid #999"@), ("background"@, "#f0f0f0"@),
            ("padding"@, "6px 16px"@), ("font-family"@, "inherit"@), ("font-size"@, "inherit"@), ("cursor"@, "default"@)]),
        ("label"@, seq![("display"@, "inline"@), ("font-family"@, "inherit"@), ("font-size"@, "inherit"@)]),
    ]
}

/// The declarations as plain values.
pub open spec fn decls_view(v: Seq<(&'static str, &'static str)>) -> Seq<(Seq<char>, Seq<char>)> {
    Seq::new(v.len(), |i: int| (v[i].0@, v[i].1@))
}

/// The style table as plain values.
pub open spec fn styles_view(v: Seq<(String, Vec<(&'static str, &'static str)>)>) -> Seq<(Seq<char>, Seq<(Seq<char>, Seq<char>)>)> {
    Seq::new(v.len(), |i: int| (v[i].0@, decls_view(v[i].1@)))
}

/// Default form element styles to add to style resolver
pub fn get_form_default_styles() -> (r: Vec<(String, Vec<(&'static str, &'static str)>)>)
    ensures
        styles_view(r@) == form_default_styles(),
{
    let input = vec![("display", "inline-block"), ("border", "1px solid #999"), ("background", "white"),
        ("padding", "4px 8px"), ("font-family", "inherit"), ("font-size", "inherit")];
    let textarea = vec![("display", "inline-block"), ("border", "1px solid #999"), ("background", "white"),
        ("padding", "6px 8px"), ("font-family", "inherit"), ("font-size", "inherit"), ("resize", "none")];
    let select = vec![("display", "inline-block"), ("border", "1px solid #999"), ("background", "white"),
        ("padding", "4px 8px"), ("font-family", "inherit"), ("font-size", "inherit")];
    let button = vec![("display", "inline-block"), ("border", "1px solid #999"), ("background", "#f0f0f0"),
        ("padding", "6px 16px"), ("font-family", "inherit"), ("font-size", "inherit"), ("cursor", "default")];
    let label = vec![("display", "inline"), ("font-family", "inherit"), ("font-size", "inherit")];
    let r = vec![
        (String::from_str("input"), input),
        (String::from_str("textarea"), textarea),
        (String::from_str("select"), select),
        (String::from_str("button"), button),
        (String::from_str("label"), label),
    ];
    assert(styles_view(r@) =~= form_default_styles()) by {
        assert(decls_view(r@[0].1@) =~= form_default_styles()[0].1);
        assert(decls_view(r@[1].1@) =~= form_default_styles()[1].1);
        assert(decls_view(r@[2].1@) =~= form_default_styles()[2].1);
        assert(decls_view(r@[3].1@) =~= form_default_styles()[3].1);
        assert(decls_view(r@[4].1@) =~= form_default_styles()[4].1);
    }
    r
}

} // verus!
