//! Flow records: the observations of one year, from an imports table and an
//! exports table.

use crate::error::{FlowError, FlowErrorModel};
use crate::label::{decimal, year_label};
use crate::observation::{is_observed, observation};
use crate::table::{
    lemma_year_index, process_tsv, year_index, DecodedTable, RawModel, RawTable, TableModel,
};
use vstd::prelude::*;

verus! {

/// The flow type of every record that comes from an imports table.
pub const IMPORTS: &'static str = "Total Imports";

/// The flow type of every record that comes from an exports table.
pub const EXPORTS: &'static str = "Total Exports";

/// One observation: an industry's flow in one direction.
#[derive(Debug, Clone, PartialEq, Eq)]
pub struct FlowRecord {
    /// The industry classification code of the row.
    pub industry_code: String,
    /// The direction of the flow.
    pub flow_type: String,
    /// The observed number as its IEEE 754 binary64 pattern.
    pub value_bits: u64,
}

/// A flow record with its texts as character sequences.
pub struct FlowRecordModel {
    pub industry_code: Seq<char>,
    pub flow_type: Seq<char>,
    pub value_bits: u64,
}

impl View for FlowRecord {
    type V = FlowRecordModel;

    open spec fn view(&self) -> FlowRecordModel {
        FlowRecordModel {
            industry_code: self.industry_code@,
            flow_type: self.flow_type@,
            value_bits: self.value_bits,
        }
    }
}

impl DeepView for FlowRecord {
    type V = FlowRecordModel;

    open spec fn deep_view(&self) -> FlowRecordModel {
        self@
    }
}

/// The rows of a year column that hold an observation, in ascending order.
pub open spec fn observed_rows(values: Seq<Option<u64>>) -> Seq<int>
    decreases values.len(),
{
    if values.len() == 0 {
        Seq::<int>::empty()
    } else {
        let earlier = observed_rows(values.drop_last());
        if is_observed(values.last()) {
            earlier.push(values.len() - 1)
        } else {
            earlier
        }
    }
}

/// The record that row `row` gives.
pub open spec fn record_of(
    codes: Seq<Seq<char>>,
    values: Seq<Option<u64>>,
    flow_type: Seq<char>,
    row: int,
) -> FlowRecordModel {
    FlowRecordModel { industry_code: codes[row], flow_type, value_bits: values[row]->0 }
}

/// The records of one year column: one for each row that holds an
/// observation, in row order, each with the row's industry code.
pub open spec fn flow_records(
    codes: Seq<Seq<char>>,
    values: Seq<Option<u64>>,
    flow_type: Seq<char>,
) -> Seq<FlowRecordModel> {
    observed_rows(values).map_values(|row: int| record_of(codes, values, flow_type, row))
}

/// What the extraction of one table gives: the records of the column that
/// stands under `label`, or the failure that names the label where the
/// table has no such column.
pub open spec fn table_flows(table: TableModel, flow_type: Seq<char>, label: Seq<char>) -> Result<
    Seq<FlowRecordModel>,
    FlowErrorModel,
> {
    match year_index(table.years, label) {
        Some(found) => Ok(flow_records(table.nace_r2, table.years[found].values, flow_type)),
        None => Err(FlowErrorModel::MissingColumn(label)),
    }
}

/// What the extraction of a year gives: the imports records followed by the
/// exports records, or the failure of the first table that lacks the year.
pub open spec fn year_flows(imports: TableModel, exports: TableModel, year: int) -> Result<
    Seq<FlowRecordModel>,
    FlowErrorModel,
> {
    match table_flows(imports, IMPORTS@, decimal(year)) {
        Ok(inward) => match table_flows(exports, EXPORTS@, decimal(year)) {
            Ok(outward) => Ok(inward + outward),
            Err(error) => Err(error),
        },
        Err(error) => Err(error),
    }
}

/// What the whole pipeline gives for the cells of two sources: the failure
/// of the first source that decodes to no table, imports first, and
/// otherwise the extraction of the year from the two decoded tables.
pub open spec fn pipeline_flows(imports: RawModel, exports: RawModel, year: int) -> Result<
    Seq<FlowRecordModel>,
    FlowErrorModel,
> {
    match imports.decoded() {
        Ok(inward) => match exports.decoded() {
            Ok(outward) => year_flows(inward, outward, year),
            Err(error) => Err(error),
        },
        Err(error) => Err(error),
    }
}

/// The outcome of a call with its texts as character sequences.
pub open spec fn outcome(res: Result<Vec<FlowRecord>, FlowError>) -> Result<
    Seq<FlowRecordModel>,
    FlowErrorModel,
> {
    match res {
        Ok(records) => Ok(records.deep_view()),
        Err(error) => Err(error@),
    }
}

/// How the observed rows of a prefix grow when the prefix takes in one more
/// row.
proof fn lemma_observed_rows_step(values: Seq<Option<u64>>, row: int)
    requires
        0 <= row < values.len(),
    ensures
        observed_rows(values.take(row + 1)) == (if is_observed(values[row]) {
            observed_rows(values.take(row)).push(row)
        } else {
            observed_rows(values.take(row))
        }),
{
    assert(values.take(row + 1).drop_last() =~= values.take(row));
}

/// Extracts the records of the column under `label` from one table, each
/// tagged with `flow_type`.
pub fn extract_table(table: &DecodedTable, flow_type: &str, label: &str) -> (res: Result<
    Vec<FlowRecord>,
    FlowError,
>)
    ensures
        outcome(res) == table_flows(table@, flow_type@, label@),
{
    let column = match table.year_column(label) {
        Some(column) => column,
        None => {
            return Err(FlowError::MissingColumn(label.to_owned()));
        },
    };
    let codes = table.nace_r2();
    let rows = table.rows();
    proof {
        lemma_year_index(table@.years, label@);
    }
    let mut records: Vec<FlowRecord> = Vec::new();
    let mut row: usize = 0;
    proof {
        assert(column.values@.take(0) =~= Seq::<Option<u64>>::empty());
        assert(records.deep_view() =~= Seq::<FlowRecordModel>::empty());
    }
    while row < rows
        invariant
            row <= rows,
            rows == codes.len(),
            rows == column.values.len(),
            records.deep_view() == observed_rows(column.values@.take(row as int)).map_values(
                |at: int| record_of(codes.deep_view(), column.values@, flow_type@, at),
            ),
        decreases rows - row,
    {
        proof {
            lemma_observed_rows_step(column.values@, row as int);
        }
        let ghost built = records.deep_view();
        match observation(column.values[row]) {
            Some(value_bits) => {
                records.push(
                    FlowRecord {
                        industry_code: codes[row].clone(),
                        flow_type: flow_type.to_owned(),
                        value_bits,
                    },
                );
                proof {
                    let held = record_of(
                        codes.deep_view(),
                        column.values@,
                        flow_type@,
                        row as int,
                    );
                    assert(codes.deep_view()[row as int] == codes[row as int]@);
                    assert(records.deep_view() =~= built.push(held));
                    assert(records.deep_view() =~= observed_rows(
                        column.values@.take(row as int + 1),
                    ).map_values(
                        |at: int| record_of(codes.deep_view(), column.values@, flow_type@, at),
                    ));
                }
            },
            None => {},
        }
        row = row + 1;
    }
    proof {
        assert(column.values@.take(rows as int) =~= column.values@);
    }
    Ok(records)
}

/// Extracts the records of one year from an imports table and an exports
/// table: every imports record, then every exports record.
///
/// Fails where either table has no column under the year's decimal form.
pub fn extract(imports: &DecodedTable, exports: &DecodedTable, year: i32) -> (res: Result<
    Vec<FlowRecord>,
    FlowError,
>)
    ensures
        outcome(res) == year_flows(imports@, exports@, year as int),
{
    let label = year_label(year);
    let mut records = match extract_table(imports, IMPORTS, label.as_str()) {
        Ok(inward) => inward,
        Err(error) => {
            return Err(error);
        },
    };
    let mut outward = match extract_table(exports, EXPORTS, label.as_str()) {
        Ok(outward) => outward,
        Err(error) => {
            return Err(error);
        },
    };
    let ghost first = records.deep_view();
    let ghost second = outward.deep_view();
    records.append(&mut outward);
    proof {
        assert(records.deep_view() =~= first + second);
    }
    Ok(records)
}

/// Decodes the cells of an imports source and of an exports source, and
/// extracts the records of one year from them.
///
/// Fails where a source decodes to no table, and where either decoded table
/// has no column under the year's decimal form; no records come with a
/// failure.
pub fn get_flow_data(imports: RawTable, exports: RawTable, year: i32) -> (res: Result<
    Vec<FlowRecord>,
    FlowError,
>)
    ensures
        outcome(res) == pipeline_flows(imports@, exports@, year as int),
{
    let imports_table = match process_tsv(imports) {
        Ok(table) => table,
        Err(error) => {
            return Err(error);
        },
    };
    let exports_table = match process_tsv(exports) {
        Ok(table) => table,
        Err(error) => {
            return Err(error);
        },
    };
    extract(&imports_table, &exports_table, year)
}

} // verus!
