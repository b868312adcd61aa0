//! What holds of the records of every table.

use crate::error::FlowErrorModel;
use crate::flows::{
    flow_records, observed_rows, record_of, table_flows, year_flows, FlowRecordModel, EXPORTS,
    IMPORTS,
};
use crate::label::decimal;
use crate::observation::is_observed;
use crate::table::{year_index, TableModel};
use vstd::prelude::*;

verus! {

/// The observed rows are exactly the rows that hold an observation, each
/// once and in ascending order.
pub proof fn lemma_observed_rows(values: Seq<Option<u64>>)
    ensures
        observed_rows(values).len() <= values.len(),
        forall|k: int|
            0 <= k < observed_rows(values).len() ==> {
                let row = #[trigger] observed_rows(values)[k];
                0 <= row < values.len() && is_observed(values[row])
            },
        forall|j: int, k: int|
            0 <= j < k < observed_rows(values).len() ==> observed_rows(values)[j]
                < observed_rows(values)[k],
        forall|row: int|
            0 <= row < values.len() && is_observed(#[trigger] values[row]) ==> observed_rows(
                values,
            ).contains(row),
    decreases values.len(),
{
    if values.len() > 0 {
        let shorter = values.drop_last();
        let earlier = observed_rows(shorter);
        let rows = observed_rows(values);
        lemma_observed_rows(shorter);
        assert forall|row: int|
            0 <= row < values.len() && is_observed(#[trigger] values[row]) implies rows.contains(
            row,
        ) by {
            if row < shorter.len() {
                assert(is_observed(shorter[row]));
                let k = choose|k: int| 0 <= k < earlier.len() && earlier[k] == row;
                assert(rows[k] == row);
            } else {
                assert(rows[rows.len() - 1] == row);
            }
        }
    }
}

/// There are as many records as rows that hold an observation, so never
/// more than rows.
pub proof fn lemma_record_count(
    codes: Seq<Seq<char>>,
    values: Seq<Option<u64>>,
    flow_type: Seq<char>,
)
    ensures
        flow_records(codes, values, flow_type).len() == values.filter(
            |cell: Option<u64>| is_observed(cell),
        ).len(),
        flow_records(codes, values, flow_type).len() <= values.len(),
{
    lemma_observed_count(values);
    lemma_observed_rows(values);
}

proof fn lemma_observed_count(values: Seq<Option<u64>>)
    ensures
        observed_rows(values).len() == values.filter(|cell: Option<u64>| is_observed(cell)).len(),
    decreases values.len(),
{
    reveal(Seq::filter);
    if values.len() > 0 {
        lemma_observed_count(values.drop_last());
    }
}

/// The records stand in the order of their rows: the record at each place
/// is the one that the observed row at that place gives, and a later record
/// comes from a later row.
pub proof fn lemma_records_in_row_order(
    codes: Seq<Seq<char>>,
    values: Seq<Option<u64>>,
    flow_type: Seq<char>,
)
    ensures
        flow_records(codes, values, flow_type).len() == observed_rows(values).len(),
        forall|k: int|
            0 <= k < observed_rows(values).len() ==> #[trigger] flow_records(
                codes,
                values,
                flow_type,
            )[k] == record_of(codes, values, flow_type, observed_rows(values)[k]),
        forall|j: int, k: int|
            0 <= j < k < observed_rows(values).len() ==> observed_rows(values)[j]
                < observed_rows(values)[k],
{
    lemma_observed_rows(values);
}

/// The records of a column are those of the column without its last row,
/// followed by the record of the last row where that row holds an
/// observation.
pub proof fn lemma_flow_records_last(
    codes: Seq<Seq<char>>,
    values: Seq<Option<u64>>,
    flow_type: Seq<char>,
)
    requires
        values.len() > 0,
    ensures
        flow_records(codes, values, flow_type) == flow_records(
            codes,
            values.drop_last(),
            flow_type,
        ) + (if is_observed(values.last()) {
            seq![record_of(codes, values, flow_type, values.len() - 1)]
        } else {
            Seq::<FlowRecordModel>::empty()
        }),
{
    lemma_observed_rows(values.drop_last());
    let tail = if is_observed(values.last()) {
        seq![record_of(codes, values, flow_type, values.len() - 1)]
    } else {
        Seq::<FlowRecordModel>::empty()
    };
    assert(flow_records(codes, values, flow_type) =~= flow_records(
        codes,
        values.drop_last(),
        flow_type,
    ) + tail);
}

/// The records depend on the industry codes of the column's rows alone.
proof fn lemma_flow_records_codes(
    codes: Seq<Seq<char>>,
    others: Seq<Seq<char>>,
    values: Seq<Option<u64>>,
    flow_type: Seq<char>,
)
    requires
        forall|row: int| 0 <= row < values.len() ==> codes[row] == others[row],
    ensures
        flow_records(codes, values, flow_type) == flow_records(others, values, flow_type),
{
    lemma_observed_rows(values);
    assert(flow_records(codes, values, flow_type) =~= flow_records(others, values, flow_type));
}

/// A row without an observation gives no record and touches no other: the
/// records are those of the table without that row.
pub proof fn lemma_unobserved_row_is_omitted(
    codes: Seq<Seq<char>>,
    values: Seq<Option<u64>>,
    flow_type: Seq<char>,
    row: int,
)
    requires
        0 <= row < values.len() <= codes.len(),
        !is_observed(values[row]),
    ensures
        !observed_rows(values).contains(row),
        flow_records(codes, values, flow_type) == flow_records(
            codes.remove(row),
            values.remove(row),
            flow_type,
        ),
    decreases values.len(),
{
    lemma_observed_rows(values);
    lemma_flow_records_last(codes, values, flow_type);
    if row == values.len() - 1 {
        assert(values.remove(row) =~= values.drop_last());
        lemma_flow_records_codes(codes, codes.remove(row), values.drop_last(), flow_type);
    } else {
        let kept = values.remove(row);
        assert(kept.drop_last() =~= values.drop_last().remove(row));
        lemma_flow_records_last(codes.remove(row), kept, flow_type);
        lemma_unobserved_row_is_omitted(codes, values.drop_last(), flow_type, row);
    }
}

/// A row that holds an observation gives a record with its own industry
/// code and number, whatever the code is, the empty one included.
pub proof fn lemma_observed_row_is_emitted(
    codes: Seq<Seq<char>>,
    values: Seq<Option<u64>>,
    flow_type: Seq<char>,
    row: int,
)
    requires
        0 <= row < values.len(),
        is_observed(values[row]),
    ensures
        flow_records(codes, values, flow_type).contains(
            FlowRecordModel {
                industry_code: codes[row],
                flow_type,
                value_bits: values[row]->0,
            },
        ),
{
    lemma_observed_rows(values);
    let place = choose|k: int|
        0 <= k < observed_rows(values).len() && observed_rows(values)[k] == row;
    assert(flow_records(codes, values, flow_type)[place] == record_of(
        codes,
        values,
        flow_type,
        row,
    ));
}

/// Every imports record stands in front of every exports record.
pub proof fn lemma_imports_precede_exports(imports: TableModel, exports: TableModel, year: int)
    requires
        year_flows(imports, exports, year) is Ok,
    ensures
        ({
            let records = year_flows(imports, exports, year)->Ok_0;
            let inward = table_flows(imports, IMPORTS@, decimal(year))->Ok_0;
            let outward = table_flows(exports, EXPORTS@, decimal(year))->Ok_0;
            &&& records == inward + outward
            &&& forall|k: int| 0 <= k < inward.len() ==> (#[trigger] records[k]).flow_type == IMPORTS@
            &&& forall|k: int|
                inward.len() <= k < records.len() ==> (#[trigger] records[k]).flow_type == EXPORTS@
            &&& forall|j: int, k: int|
                0 <= j < records.len() && 0 <= k < records.len() && records[j].flow_type == IMPORTS@
                    && records[k].flow_type == EXPORTS@ ==> j < k
        }),
{
    reveal_strlit("Total Imports");
    reveal_strlit("Total Exports");
    assert(IMPORTS@ != EXPORTS@) by {
        assert(IMPORTS@[6] == 'I');
        assert(EXPORTS@[6] == 'E');
    }
}

/// Where either table has no column under the year's decimal form, the
/// extraction fails with the missing column of that label, and only then
/// does it fail.
pub proof fn lemma_missing_year(imports: TableModel, exports: TableModel, year: int)
    ensures
        (year_index(imports.years, decimal(year)) is None || year_index(
            exports.years,
            decimal(year),
        ) is None) <==> year_flows(imports, exports, year) is Err,
        year_flows(imports, exports, year) is Err ==> year_flows(imports, exports, year)
            == Err::<Seq<FlowRecordModel>, FlowErrorModel>(
            FlowErrorModel::MissingColumn(decimal(year)),
        ),
{
}

} // verus!
