//! The property values of a page of the remote task database, as they are
//! received and as they are sent.

use vstd::prelude::*;

verus! {

/// A checkbox as received.
#[derive(Debug)]
pub struct Checkbox {
    pub checkbox: bool,
    pub id: String,
    pub kind: String,
}

/// A checkbox as sent.
#[derive(Debug)]
pub struct SendCheckbox {
    pub checkbox: bool,
}

/// A date as received.
#[derive(Debug)]
pub struct Date {
    pub date: InnerDate,
    pub id: String,
    pub kind: String,
}

/// The span of a date as received.
#[derive(Debug)]
pub struct InnerDate {
    pub end: Option<String>,
    pub start: String,
    pub time_zone: Option<String>,
}

/// A date as sent.
#[derive(Debug)]
pub struct SendDate {
    pub date: SendInnerDate,
}

/// The span of a date as sent.
#[derive(Debug)]
pub struct SendInnerDate {
    pub start: String,
    pub end: Option<String>,
}

/// How a piece of text is set.
#[derive(Debug)]
pub struct Annotations {
    pub bold: bool,
    pub code: bool,
    pub color: String,
    pub italic: bool,
    pub strikethrough: bool,
    pub underline: bool,
}

/// The content of a piece of text as received.
#[derive(Debug)]
pub struct InnerText {
    pub content: String,
    pub link: Option<Link>,
}

/// A title as sent.
#[derive(Debug)]
pub struct SendTitle {
    pub title: Vec<SendText>,
}

/// A piece of text as sent.
#[derive(Debug)]
pub struct SendText {
    pub text: SendInnerText,
}

/// The content of a piece of text as sent.
#[derive(Debug)]
pub struct SendInnerText {
    pub content: String,
}

/// A link.
#[derive(Debug)]
pub struct Link {
    pub url: String,
}

/// A reference to another page, as sent.
#[derive(Debug)]
pub struct SendRelationId {
    pub id: String,
}

/// References to other pages, as sent.
#[derive(Debug)]
pub struct SendRelation {
    pub relation: Vec<SendRelationId>,
}

/// The kinds of property that the integration handles.
#[derive(Clone, Copy, Debug, PartialEq, Eq, Structural)]
pub enum PropertyKind {
    Title,
    Checkbox,
    Date,
    Relation,
    Other,
}

} // verus!
