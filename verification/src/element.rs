//! Elements: the closed set of variants a node of the tree can be.

use vstd::prelude::*;
use vstd::string::StringExecFns;

verus! {

/// Which variant an element is, without its payload.
#[derive(Clone, Copy, Debug, PartialEq, Eq, Structural)]
pub enum Kind {
    Root,
    Hidden,
    Comment,
    Label,
    Button,
    Vertical,
    Horizontal,
    Separator,
    TextEdit,
}

impl Kind {
    /// Whether elements of this kind carry a text payload.
    pub open spec fn spec_bears_text(self) -> bool {
        self == Kind::Hidden || self == Kind::Comment || self == Kind::Label || self
            == Kind::Button || self == Kind::TextEdit
    }

    /// Whether elements of this kind carry a text payload.
    #[verifier::when_used_as_spec(spec_bears_text)]
    pub fn bears_text(self) -> (b: bool)
        ensures
            b == self.spec_bears_text(),
    {
        match self {
            Kind::Hidden | Kind::Comment | Kind::Label | Kind::Button | Kind::TextEdit => true,
            Kind::Root | Kind::Vertical | Kind::Horizontal | Kind::Separator => false,
        }
    }

    /// Whether the walk descends into the children of elements of this kind.
    pub open spec fn spec_is_container(self) -> bool {
        self == Kind::Root || self == Kind::Vertical || self == Kind::Horizontal
    }

    /// Whether the walk descends into the children of elements of this kind.
    #[verifier::when_used_as_spec(spec_is_container)]
    pub fn is_container(self) -> (b: bool)
        ensures
            b == self.spec_is_container(),
    {
        match self {
            Kind::Root | Kind::Vertical | Kind::Horizontal => true,
            _ => false,
        }
    }
}

/// The kind a tag of the closed vocabulary stands for; `None` for any other
/// string. The root has no tag: it exists from the start and is never created.
pub open spec fn kind_of_tag(tag: Seq<char>) -> Option<Kind> {
    if tag == "label"@ {
        Some(Kind::Label)
    } else if tag == "vertical"@ {
        Some(Kind::Vertical)
    } else if tag == "horizontal"@ {
        Some(Kind::Horizontal)
    } else if tag == "button"@ {
        Some(Kind::Button)
    } else if tag == "hidden"@ {
        Some(Kind::Hidden)
    } else if tag == "comment"@ {
        Some(Kind::Comment)
    } else if tag == "separator"@ {
        Some(Kind::Separator)
    } else if tag == "text-edit"@ {
        Some(Kind::TextEdit)
    } else {
        None
    }
}

/// Reads a tag string as a kind.
pub fn parse_tag(tag: &str) -> (k: Option<Kind>)
    ensures
        k == kind_of_tag(tag@),
{
    let t = String::from_str(tag);
    if t == String::from_str("label") {
        Some(Kind::Label)
    } else if t == String::from_str("vertical") {
        Some(Kind::Vertical)
    } else if t == String::from_str("horizontal") {
        Some(Kind::Horizontal)
    } else if t == String::from_str("button") {
        Some(Kind::Button)
    } else if t == String::from_str("hidden") {
        Some(Kind::Hidden)
    } else if t == String::from_str("comment") {
        Some(Kind::Comment)
    } else if t == String::from_str("separator") {
        Some(Kind::Separator)
    } else if t == String::from_str("text-edit") {
        Some(Kind::TextEdit)
    } else {
        None
    }
}

/// What an element is to a specification: its kind and its text, which is
/// empty for the kinds that bear none.
pub struct ElementView {
    pub kind: Kind,
    pub text: Seq<char>,
}

/// A node of the tree. Text-bearing variants own their payload; structural
/// variants have none.
#[derive(Clone, Debug, PartialEq, Eq)]
pub enum Element {
    Root,
    Hidden(String),
    Comment(String),
    Label(String),
    Button(String),
    Vertical,
    Horizontal,
    Separator,
    TextEdit(String),
}

impl View for Element {
    type V = ElementView;

    open spec fn view(&self) -> ElementView {
        match self {
            Element::Root => ElementView { kind: Kind::Root, text: Seq::empty() },
            Element::Hidden(t) => ElementView { kind: Kind::Hidden, text: t@ },
            Element::Comment(t) => ElementView { kind: Kind::Comment, text: t@ },
            Element::Label(t) => ElementView { kind: Kind::Label, text: t@ },
            Element::Button(t) => ElementView { kind: Kind::Button, text: t@ },
            Element::Vertical => ElementView { kind: Kind::Vertical, text: Seq::empty() },
            Element::Horizontal => ElementView { kind: Kind::Horizontal, text: Seq::empty() },
            Element::Separator => ElementView { kind: Kind::Separator, text: Seq::empty() },
            Element::TextEdit(t) => ElementView { kind: Kind::TextEdit, text: t@ },
        }
    }
}

impl ElementView {
    /// A freshly created element of the given kind: no text yet.
    pub open spec fn fresh(kind: Kind) -> ElementView {
        ElementView { kind, text: Seq::empty() }
    }

    /// The same element with its text replaced.
    pub open spec fn with_text(self, text: Seq<char>) -> ElementView {
        ElementView { kind: self.kind, text }
    }
}

impl Element {
    /// A freshly created element of the given kind, with an empty payload
    /// where the kind bears text.
    pub fn fresh(kind: Kind) -> (e: Element)
        ensures
            e@ == ElementView::fresh(kind),
    {
        match kind {
            Kind::Root => Element::Root,
            Kind::Hidden => Element::Hidden(String::new()),
            Kind::Comment => Element::Comment(String::new()),
            Kind::Label => Element::Label(String::new()),
            Kind::Button => Element::Button(String::new()),
            Kind::Vertical => Element::Vertical,
            Kind::Horizontal => Element::Horizontal,
            Kind::Separator => Element::Separator,
            Kind::TextEdit => Element::TextEdit(String::new()),
        }
    }

    /// The variant of this element.
    pub fn kind(&self) -> (k: Kind)
        ensures
            k == self@.kind,
    {
        match self {
            Element::Root => Kind::Root,
            Element::Hidden(_) => Kind::Hidden,
            Element::Comment(_) => Kind::Comment,
            Element::Label(_) => Kind::Label,
            Element::Button(_) => Kind::Button,
            Element::Vertical => Kind::Vertical,
            Element::Horizontal => Kind::Horizontal,
            Element::Separator => Kind::Separator,
            Element::TextEdit(_) => Kind::TextEdit,
        }
    }

    /// A copy of the text payload; empty for a structural variant.
    pub fn text(&self) -> (t: String)
        ensures
            t@ == self@.text,
    {
        match self {
            Element::Hidden(t) => t.clone(),
            Element::Comment(t) => t.clone(),
            Element::Label(t) => t.clone(),
            Element::Button(t) => t.clone(),
            Element::TextEdit(t) => t.clone(),
            _ => String::new(),
        }
    }

    /// An element of the same variant carrying `text`, or `None` when the
    /// variant is structural and has no payload to set.
    pub fn with_text(&self, text: String) -> (r: Option<Element>)
        ensures
            match r {
                Some(e) => self@.kind.bears_text() && e@ == self@.with_text(text@),
                None => !self@.kind.bears_text(),
            },
    {
        match self {
            Element::Hidden(_) => Some(Element::Hidden(text)),
            Element::Comment(_) => Some(Element::Comment(text)),
            Element::Label(_) => Some(Element::Label(text)),
            Element::Button(_) => Some(Element::Button(text)),
            Element::TextEdit(_) => Some(Element::TextEdit(text)),
            _ => None,
        }
    }
}

} // verus!
