//! The ways in which a call can fail.

use vstd::prelude::*;
use vstd::string::StringExecFns;

verus! {

/// Why no flow records could be produced.
#[derive(Debug, Clone, PartialEq, Eq)]
pub enum FlowError {
    /// A source file is missing or cannot be read; the text says why.
    Io(String),
    /// A source cannot be laid out as a table; the text says why.
    MalformedTable(String),
    /// A table has no column under the label that is held here.
    MissingColumn(String),
}

/// A failure with its texts as character sequences.
pub enum FlowErrorModel {
    Io(Seq<char>),
    MalformedTable(Seq<char>),
    MissingColumn(Seq<char>),
}

impl View for FlowError {
    type V = FlowErrorModel;

    open spec fn view(&self) -> FlowErrorModel {
        match self {
            FlowError::Io(reason) => FlowErrorModel::Io(reason@),
            FlowError::MalformedTable(reason) => FlowErrorModel::MalformedTable(reason@),
            FlowError::MissingColumn(label) => FlowErrorModel::MissingColumn(label@),
        }
    }
}

/// The words in front of the label in the message of a missing column.
pub open spec fn missing_column_prefix() -> Seq<char> {
    "missing column: "@
}

impl FlowErrorModel {
    /// The message that describes the failure.
    pub open spec fn message(self) -> Seq<char> {
        match self {
            FlowErrorModel::Io(reason) => reason,
            FlowErrorModel::MalformedTable(reason) => reason,
            FlowErrorModel::MissingColumn(label) => missing_column_prefix() + label,
        }
    }
}

impl FlowError {
    /// A description of the failure for a human reader; for a missing
    /// column it ends with the column's label.
    pub fn message(&self) -> (text: String)
        ensures
            text@ == self@.message(),
    {
        match self {
            FlowError::Io(reason) => reason.clone(),
            FlowError::MalformedTable(reason) => reason.clone(),
            FlowError::MissingColumn(label) => {
                let mut text = "missing column: ".to_owned();
                text.append(label.as_str());
                text
            },
        }
    }
}

} // verus!
