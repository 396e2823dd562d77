//! Conversion of HTML documents to PDF: the logic of the converter, with
//! its contracts proved by Verus.

use vstd::prelude::*;

pub mod progress;
pub mod strings;
pub mod types;
pub mod binary32;
pub mod css;
pub mod html;
pub mod pdf;
pub mod layout;
pub mod script;

verus! {

/// Where the HTML comes from
#[derive(Debug, Clone, PartialEq, Eq)]
pub enum Input {
    /// Path to an HTML file
    File(String),
    /// HTML content as a string
    Html(String),
    /// URL to fetch
    Url(String),
}

impl Input {
    /// Returns a human-readable description of the input source
    pub fn description(&self) -> (r: String)
        ensures
            r@ == (match *self {
                Input::File(path) => "file: "@ + path@,
                Input::Html(_) => "HTML string"@,
                Input::Url(url) => "URL: "@ + url@,
            }),
    {
        match self {
            Input::File(path) => {
                let mut s = String::from_str("file: ");
                s.append(path.as_str());
                s
            },
            Input::Html(_) => String::from_str("HTML string"),
            Input::Url(url) => {
                let mut s = String::from_str("URL: ");
                s.append(url.as_str());
                s
            },
        }
    }
}

} // verus!
