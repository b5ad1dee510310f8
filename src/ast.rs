//! The generic syntax tree that the parser produces, and its mathematical model.
use vstd::prelude::*;

verus! {

/// A literal value on the right of `=`.
///
/// Numbers keep the numeral as written (`12`, `0.5`); a percentage keeps it
/// without the trailing `%`. Turning a numeral into a binary float is left to
/// the consumer of the tree.
pub enum Value {
    String(String),
    Number(String),
    Percentage(String),
    Identifier(String),
    DString(String),
}

/// A `name = value` pair.
pub struct Property {
    pub name: String,
    pub value: Value,
}

/// An `@Kind name { ... }` node with its properties and nested elements.
pub struct Element {
    pub kind: String,
    pub name: String,
    pub properties: Vec<Property>,
    pub children: Vec<Element>,
}

/// The leading `@name value` or `@name value("url")` directive.
pub struct Language {
    pub name: String,
    pub value: String,
    pub url: Option<String>,
}

/// One directive followed by one root element.
pub struct Document {
    pub language: Language,
    pub root: Element,
}

/// Model of a [`Value`].
pub enum ValueModel {
    String(Seq<char>),
    Number(Seq<char>),
    Percentage(Seq<char>),
    Identifier(Seq<char>),
    DString(Seq<char>),
}

pub struct PropertyModel {
    pub name: Seq<char>,
    pub value: ValueModel,
}

pub struct ElementModel {
    pub kind: Seq<char>,
    pub name: Seq<char>,
    pub properties: Seq<PropertyModel>,
    pub children: Seq<ElementModel>,
}

pub struct LanguageModel {
    pub name: Seq<char>,
    pub value: Seq<char>,
    pub url: Option<Seq<char>>,
}

pub struct DocumentModel {
    pub language: LanguageModel,
    pub root: ElementModel,
}

impl View for Value {
    type V = ValueModel;

    open spec fn view(&self) -> ValueModel {
        match self {
            Value::String(t) => ValueModel::String(t@),
            Value::Number(t) => ValueModel::Number(t@),
            Value::Percentage(t) => ValueModel::Percentage(t@),
            Value::Identifier(t) => ValueModel::Identifier(t@),
            Value::DString(t) => ValueModel::DString(t@),
        }
    }
}

impl View for Property {
    type V = PropertyModel;

    open spec fn view(&self) -> PropertyModel {
        PropertyModel { name: self.name@, value: self.value@ }
    }
}

/// Models of a sequence of properties.
pub open spec fn properties_model(ps: Seq<Property>) -> Seq<PropertyModel> {
    ps.map_values(|p: Property| p@)
}

/// Model of an element, subtree by subtree.
pub open spec fn element_model(e: Element) -> ElementModel
    decreases e,
{
    ElementModel {
        kind: e.kind@,
        name: e.name@,
        properties: properties_model(e.properties@),
        children: elements_model(e.children@),
    }
}

/// Models of a sequence of elements.
pub open spec fn elements_model(es: Seq<Element>) -> Seq<ElementModel>
    decreases es,
{
    if es.len() == 0 {
        Seq::empty()
    } else {
        elements_model(es.drop_last()).push(element_model(es.last()))
    }
}

impl View for Element {
    type V = ElementModel;

    open spec fn view(&self) -> ElementModel {
        element_model(*self)
    }
}

impl View for Language {
    type V = LanguageModel;

    open spec fn view(&self) -> LanguageModel {
        LanguageModel {
            name: self.name@,
            value: self.value@,
            url: match self.url {
                Some(u) => Some(u@),
                None => None,
            },
        }
    }
}

impl View for Document {
    type V = DocumentModel;

    open spec fn view(&self) -> DocumentModel {
        DocumentModel { language: self.language@, root: self.root@ }
    }
}

} // verus!
