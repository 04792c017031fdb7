//! The failures of building or walking the attributed tree.

use crate::text::{decimal_digits, push_decimal};
use vstd::prelude::*;
use vstd::string::StringExecFns;

verus! {

/// The event stream is no well-formed document.
#[derive(Copy, Clone, Debug)]
pub struct InvalidXml;

impl InvalidXml {
    /// The text that describes this failure.
    pub fn message(&self) -> (text: String)
        ensures
            text@ == "Invalid xml file"@,
    {
        String::from_str("Invalid xml file")
    }
}

/// A node index that the arena does not hold.
#[derive(Copy, Clone, Debug)]
pub struct MissingNode(pub usize);

impl MissingNode {
    /// The text that describes this failure.
    pub fn message(&self) -> (text: String)
        ensures
            text@ == "Missing node "@ + decimal_digits(self.0 as nat),
    {
        let mut text = String::from_str("Missing node ");
        push_decimal(&mut text, self.0);
        text
    }
}

/// A node that holds text was given a child, or one that holds anything was
/// given text.
#[derive(Copy, Clone, Debug)]
pub struct InvalidOwnedData;

impl InvalidOwnedData {
    /// The text that describes this failure.
    pub fn message(&self) -> (text: String)
        ensures
            text@ == "Node contains wrong data type"@,
    {
        String::from_str("Node contains wrong data type")
    }
}

} // verus!
