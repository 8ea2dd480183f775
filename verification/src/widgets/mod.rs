//! Widget data models and HTML renderers. Every widget separates fetching
//! (network, done by the caller) from rendering (a function of the fetched
//! data and an injected "now").

pub mod config;
pub mod countdown;
pub mod crypto;
pub mod template;
pub mod weather;

use vstd::prelude::*;
use crate::text::{chars_of, push_str, string_from_chars};
use template::{template_error_message, TemplateError};

verus! {

/// Shared error type of the widget fetchers and renderers. Transport,
/// decoding and file failures carry the underlying error's description.
#[derive(Debug, PartialEq)]
pub enum WidgetError {
    Http(String),
    Parse(String),
    Template(TemplateError),
    Io(String),
    Data(String),
}

/// The message of a widget error, as shown to the user.
pub open spec fn widget_error_message(e: WidgetError) -> Seq<char> {
    match e {
        WidgetError::Http(m) => "http request failed: "@ + m@,
        WidgetError::Parse(m) => "failed to parse API response: "@ + m@,
        WidgetError::Template(t) => "template error: "@ + template_error_message(t),
        WidgetError::Io(m) => "io error: "@ + m@,
        WidgetError::Data(m) => m@,
    }
}

impl WidgetError {
    /// The message of the error, as shown to the user.
    pub fn message(&self) -> (m: String)
        ensures
            m@ == widget_error_message(*self),
    {
        let mut out: Vec<char> = Vec::new();
        match self {
            WidgetError::Http(m) => {
                push_str(&mut out, "http request failed: ");
                push_str(&mut out, m.as_str());
            },
            WidgetError::Parse(m) => {
                push_str(&mut out, "failed to parse API response: ");
                push_str(&mut out, m.as_str());
            },
            WidgetError::Template(t) => {
                push_str(&mut out, "template error: ");
                let tm = t.message();
                push_str(&mut out, tm.as_str());
            },
            WidgetError::Io(m) => {
                push_str(&mut out, "io error: ");
                push_str(&mut out, m.as_str());
            },
            WidgetError::Data(m) => {
                push_str(&mut out, m.as_str());
            },
        }
        string_from_chars(&out)
    }
}

} // verus!
