//! Annual trade-flow figures from two statistical tables, one of imports
//! and one of exports.
//!
//! Each table has a composite metadata column, which packs five
//! comma-joined values into one cell, and one column of observations for
//! each year. The library decodes the composite column into its five
//! metadata columns, looks a year's column up by its label, and lists the
//! rows that hold an observation for that year as flow records: the
//! imports records first, then the exports records, each in row order.
//!
//! Numbers are held as IEEE 754 binary64 patterns. A caller reads a source
//! into a [`table::RawTable`] and turns the patterns of the records back
//! into numbers.

use vstd::prelude::*;

pub mod error;
pub mod flow_laws;
pub mod flows;
pub mod label;
pub mod metadata;
pub mod observation;
pub mod table;
pub mod text;

pub use error::FlowError;
pub use flows::{extract, extract_table, get_flow_data, FlowRecord, EXPORTS, IMPORTS};
pub use label::year_label;
pub use metadata::{decode_metadata, Metadata};
pub use observation::{is_missing, observation};
pub use table::{process_tsv, DecodedTable, RawTable, YearColumn};
pub use text::split_fields;
