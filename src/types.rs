//! The typed UI schema that a lowering pass builds from the generic tree.
use vstd::prelude::*;

verus! {

/// The schema a document targets.
#[derive(Debug, Clone)]
pub enum Language {
    Ratatui,
    AnyOther { name: String, url: String },
}

/// How a container arranges its children.
#[derive(Debug, Clone)]
pub enum Layout {
    LeftToRight,
    RightToLeft,
    TopToBottom,
    BottomToTop,
    FreeForm,
}

/// One size constraint.
#[derive(Debug, Clone)]
pub enum SizeConstraint {
    Auto,
    Fixed(u32),
    Percentage(u32),
}

/// Width, height and position constraints of an element.
#[derive(Debug, Clone)]
pub struct SizeConstraints {
    pub width: SizeConstraint,
    pub height: SizeConstraint,
    pub left: SizeConstraint,
    pub top: SizeConstraint,
}

/// Margins around an element.
#[derive(Debug, Clone)]
pub struct Margins {
    pub left: u32,
    pub right: u32,
    pub top: u32,
    pub bottom: u32,
}

/// A standalone text label.
#[derive(Debug, Clone)]
pub struct Label {
    pub text: String,
    pub word_wrap: bool,
    pub size_constraints: SizeConstraints,
    pub margins: Margins,
}

/// A text input field.
#[derive(Debug, Clone)]
pub struct TextInput {
    pub placeholder: String,
    pub default_text: String,
    pub size_constraints: SizeConstraints,
    pub margins: Margins,
    pub read_only: bool,
}

/// A clickable button.
#[derive(Debug, Clone)]
pub struct Button {
    pub text: String,
    pub size_constraints: SizeConstraints,
    pub margins: Margins,
}

/// A checkbox.
#[derive(Debug, Clone)]
pub struct Checkbox {
    pub label: String,
    pub checked: bool,
    pub size_constraints: SizeConstraints,
    pub margins: Margins,
}

/// One radio button.
#[derive(Debug, Clone)]
pub struct Radio {
    pub label: String,
    pub value: String,
    pub margins: Margins,
}

/// A group of radio buttons.
#[derive(Debug, Clone)]
pub struct RadioGroup {
    pub children: Vec<Radio>,
    pub selected_radio: String,
    pub size_constraints: SizeConstraints,
    pub margins: Margins,
}

/// The value of a dropdown option. A fractional value keeps its numeral as
/// written, as the generic tree does.
#[derive(Debug, Clone)]
pub enum DropdownOptionValue {
    StringValue(String),
    NumberValue(i64),
    FloatValue(String),
    BoolValue(bool),
}

/// One option of a dropdown.
#[derive(Debug, Clone)]
pub struct DropdownOption {
    pub label: String,
    pub value: DropdownOptionValue,
}

/// A dropdown menu.
#[derive(Debug, Clone)]
pub struct Dropdown {
    pub options: Vec<DropdownOption>,
    pub selected_option: String,
    pub size_constraints: SizeConstraints,
    pub margins: Margins,
}

/// A grid view.
#[derive(Debug, Clone)]
pub struct Grid {
    pub columns: Vec<Column>,
    pub size_constraints: SizeConstraints,
    pub margins: Margins,
}

/// One column of a grid.
#[derive(Debug, Clone)]
pub struct Column {
    pub title: String,
    pub width: SizeConstraint,
}

/// Where the tabs of a tab control stand.
#[derive(Debug, Clone)]
pub enum TabPosition {
    Top,
    Bottom,
    Left,
    Right,
}

} // verus!
