//! The structural events of a feed, as the tokenizer hands them out.

use vstd::prelude::*;

verus! {

/// The mathematical model of an attribute.
#[verifier::ext_equal]
pub struct AttributeModel {
    pub name: Seq<char>,
    pub value: Seq<char>,
}

/// One attribute of a start-element: its local name and its value.
#[derive(Clone, Debug, PartialEq, Eq)]
pub struct Attribute {
    pub name: String,
    pub value: String,
}

impl View for Attribute {
    type V = AttributeModel;

    open spec fn view(&self) -> AttributeModel {
        AttributeModel { name: self.name@, value: self.value@ }
    }
}

impl DeepView for Attribute {
    type V = AttributeModel;

    open spec fn deep_view(&self) -> AttributeModel {
        self@
    }
}

/// The mathematical model of a structural event.
#[verifier::ext_equal]
pub enum EventModel {
    StartElement { name: Seq<char>, attributes: Seq<AttributeModel> },
    EndElement { name: Seq<char> },
    Characters(Seq<char>),
    CData(Seq<char>),
    Malformed,
    Other,
}

impl EventModel {
    /// The text that a character-data event carries. Plain character data
    /// and CDATA sections count alike.
    pub open spec fn text(self) -> Option<Seq<char>> {
        match self {
            EventModel::Characters(text) => Some(text),
            EventModel::CData(text) => Some(text),
            _ => None,
        }
    }

    /// Whether the event opens an element of the given local name.
    pub open spec fn opens(self, element: Seq<char>) -> bool {
        self matches EventModel::StartElement { name, .. } && name == element
    }

    /// Whether the event closes an element of the given local name.
    pub open spec fn closes(self, element: Seq<char>) -> bool {
        self matches EventModel::EndElement { name } && name == element
    }
}

/// One structural event of a feed. Elements and attributes go by their
/// local names.
#[derive(Clone, Debug, PartialEq, Eq)]
pub enum FeedEvent {
    /// An opening tag, or the opening half of a bodiless tag.
    StartElement { name: String, attributes: Vec<Attribute> },
    /// A closing tag, or the closing half of a bodiless tag.
    EndElement { name: String },
    /// Character data between tags.
    Characters(String),
    /// The content of a CDATA section.
    CData(String),
    /// A fragment that the tokenizer could not decode.
    Malformed,
    /// Anything else: document boundaries, comments, processing
    /// instructions, whitespace.
    Other,
}

impl View for FeedEvent {
    type V = EventModel;

    open spec fn view(&self) -> EventModel {
        match self {
            FeedEvent::StartElement { name, attributes } => EventModel::StartElement {
                name: name@,
                attributes: attributes.deep_view(),
            },
            FeedEvent::EndElement { name } => EventModel::EndElement { name: name@ },
            FeedEvent::Characters(text) => EventModel::Characters(text@),
            FeedEvent::CData(text) => EventModel::CData(text@),
            FeedEvent::Malformed => EventModel::Malformed,
            FeedEvent::Other => EventModel::Other,
        }
    }
}

impl DeepView for FeedEvent {
    type V = EventModel;

    open spec fn deep_view(&self) -> EventModel {
        self@
    }
}

} // verus!
