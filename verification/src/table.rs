//! Tables: the cells as they are read from a source, and the decoded table
//! with its five metadata columns and its year columns.

use crate::error::{FlowError, FlowErrorModel};
use crate::metadata::{decode_metadata, field_at, metadata_of};
use vstd::prelude::*;

verus! {

/// One year's observations, a cell for each row.
///
/// A cell is `None` where the source holds no number for the row, and
/// otherwise the IEEE 754 binary64 pattern of the number.
#[derive(Debug, Clone, PartialEq, Eq)]
pub struct YearColumn {
    pub label: String,
    pub values: Vec<Option<u64>>,
}

/// A year column as a label and a sequence of cells.
pub struct YearSeries {
    pub label: Seq<char>,
    pub values: Seq<Option<u64>>,
}

impl View for YearColumn {
    type V = YearSeries;

    open spec fn view(&self) -> YearSeries {
        YearSeries { label: self.label@, values: self.values@ }
    }
}

impl DeepView for YearColumn {
    type V = YearSeries;

    open spec fn deep_view(&self) -> YearSeries {
        self@
    }
}

/// The cells of one source, column by column: the composite metadata
/// column, which stands first in the source, and the year columns in the
/// order of the source's header. The header label of the composite column
/// has no meaning and is not kept.
#[derive(Debug, Clone, PartialEq, Eq)]
pub struct RawTable {
    /// The composite cells, a text or nothing for each row; `None` where
    /// the source has no column at all.
    pub composite: Option<Vec<Option<String>>>,
    /// Every column after the first.
    pub years: Vec<YearColumn>,
}

/// The cells of one source as sequences.
pub struct RawModel {
    pub composite: Option<Seq<Option<Seq<char>>>>,
    pub years: Seq<YearSeries>,
}

impl View for RawTable {
    type V = RawModel;

    open spec fn view(&self) -> RawModel {
        RawModel { composite: self.composite.deep_view(), years: self.years.deep_view() }
    }
}

impl RawModel {
    /// The number of rows: that of the composite column.
    pub open spec fn rows(self) -> nat {
        match self.composite {
            Some(cells) => cells.len(),
            None => 0,
        }
    }

    /// Every year column has a cell for every row.
    pub open spec fn aligned(self) -> bool {
        forall|j: int|
            0 <= j < self.years.len() ==> (#[trigger] self.years[j]).values.len() == self.rows()
    }

    /// The metadata values at `position` of all rows.
    pub open spec fn metadata_column(self, position: int) -> Seq<Seq<char>> {
        Seq::new(self.rows(), |row: int| field_at(self.composite->0[row], position))
    }

    /// The table that these cells decode to, or why they decode to none:
    /// a source without columns is no table, and neither is one with a year
    /// column that is longer or shorter than the composite column.
    pub open spec fn decoded(self) -> Result<TableModel, FlowErrorModel> {
        if self.composite is None {
            Err(FlowErrorModel::MalformedTable(no_columns_message()))
        } else if !self.aligned() {
            Err(FlowErrorModel::MalformedTable(misaligned_message()))
        } else {
            Ok(
                TableModel {
                    freq: self.metadata_column(0),
                    nace_r2: self.metadata_column(1),
                    c_exp: self.metadata_column(2),
                    unit: self.metadata_column(3),
                    geo: self.metadata_column(4),
                    years: self.years,
                },
            )
        }
    }
}

/// A decoded table as sequences: the metadata columns under their fixed
/// names and the year columns in header order.
pub struct TableModel {
    pub freq: Seq<Seq<char>>,
    pub nace_r2: Seq<Seq<char>>,
    pub c_exp: Seq<Seq<char>>,
    pub unit: Seq<Seq<char>>,
    pub geo: Seq<Seq<char>>,
    pub years: Seq<YearSeries>,
}

impl TableModel {
    /// The number of rows.
    pub open spec fn rows(self) -> nat {
        self.nace_r2.len()
    }

    /// Every column has one cell for each row.
    pub open spec fn well_formed(self) -> bool {
        &&& self.freq.len() == self.rows()
        &&& self.c_exp.len() == self.rows()
        &&& self.unit.len() == self.rows()
        &&& self.geo.len() == self.rows()
        &&& forall|j: int|
            0 <= j < self.years.len() ==> (#[trigger] self.years[j]).values.len() == self.rows()
    }
}

/// The first column at or after `from` that stands under `label`.
pub open spec fn first_labelled(years: Seq<YearSeries>, label: Seq<char>, from: int) -> Option<int>
    decreases years.len() - from,
{
    if from < 0 || from >= years.len() {
        None
    } else if years[from].label == label {
        Some(from)
    } else {
        first_labelled(years, label, from + 1)
    }
}

/// The column that a lookup of `label` finds: the first one whose label is
/// exactly `label`.
pub open spec fn year_index(years: Seq<YearSeries>, label: Seq<char>) -> Option<int> {
    first_labelled(years, label, 0)
}

/// A lookup finds a column under the label with no such column in front of
/// it, and finds none only where no column stands under the label.
pub proof fn lemma_year_index(years: Seq<YearSeries>, label: Seq<char>)
    ensures
        match year_index(years, label) {
            Some(found) => {
                &&& 0 <= found < years.len()
                &&& years[found].label == label
                &&& forall|j: int| 0 <= j < found ==> (#[trigger] years[j]).label != label
            },
            None => forall|j: int| 0 <= j < years.len() ==> (#[trigger] years[j]).label != label,
        },
{
    lemma_first_labelled(years, label, 0);
}

proof fn lemma_first_labelled(years: Seq<YearSeries>, label: Seq<char>, from: int)
    requires
        0 <= from,
    ensures
        match first_labelled(years, label, from) {
            Some(found) => {
                &&& from <= found < years.len()
                &&& years[found].label == label
                &&& forall|j: int| from <= j < found ==> (#[trigger] years[j]).label != label
            },
            None => forall|j: int| from <= j < years.len() ==> (#[trigger] years[j]).label != label,
        },
    decreases years.len() - from,
{
    if from < years.len() && years[from].label != label {
        lemma_first_labelled(years, label, from + 1);
    }
}

/// The message for a source without columns.
pub open spec fn no_columns_message() -> Seq<char> {
    "table has no columns"@
}

/// The message for a source with a year column that is longer or shorter
/// than its composite column.
pub open spec fn misaligned_message() -> Seq<char> {
    "year column length differs from row count"@
}

/// A decoded table. It never changes once it is built, and each of its
/// columns has one cell for each row.
#[derive(Debug, PartialEq, Eq)]
pub struct DecodedTable {
    freq: Vec<String>,
    nace_r2: Vec<String>,
    c_exp: Vec<String>,
    unit: Vec<String>,
    geo: Vec<String>,
    years: Vec<YearColumn>,
}

impl View for DecodedTable {
    type V = TableModel;

    closed spec fn view(&self) -> TableModel {
        TableModel {
            freq: self.freq.deep_view(),
            nace_r2: self.nace_r2.deep_view(),
            c_exp: self.c_exp.deep_view(),
            unit: self.unit.deep_view(),
            geo: self.geo.deep_view(),
            years: self.years.deep_view(),
        }
    }
}

impl DecodedTable {
    #[verifier::type_invariant]
    spec fn aligned(&self) -> bool {
        self@.well_formed()
    }

    /// The number of rows.
    pub fn rows(&self) -> (rows: usize)
        ensures
            rows == self@.rows(),
            self@.well_formed(),
    {
        proof {
            use_type_invariant(self);
        }
        self.nace_r2.len()
    }

    /// The first value of each row's composite field.
    pub fn freq(&self) -> (column: &Vec<String>)
        ensures
            column.deep_view() == self@.freq,
            self@.well_formed(),
    {
        proof {
            use_type_invariant(self);
        }
        &self.freq
    }

    /// The industry classification code of each row.
    pub fn nace_r2(&self) -> (column: &Vec<String>)
        ensures
            column.deep_view() == self@.nace_r2,
            self@.well_formed(),
    {
        proof {
            use_type_invariant(self);
        }
        &self.nace_r2
    }

    /// The third value of each row's composite field.
    pub fn c_exp(&self) -> (column: &Vec<String>)
        ensures
            column.deep_view() == self@.c_exp,
            self@.well_formed(),
    {
        proof {
            use_type_invariant(self);
        }
        &self.c_exp
    }

    /// The fourth value of each row's composite field.
    pub fn unit(&self) -> (column: &Vec<String>)
        ensures
            column.deep_view() == self@.unit,
            self@.well_formed(),
    {
        proof {
            use_type_invariant(self);
        }
        &self.unit
    }

    /// The fifth value of each row's composite field.
    pub fn geo(&self) -> (column: &Vec<String>)
        ensures
            column.deep_view() == self@.geo,
            self@.well_formed(),
    {
        proof {
            use_type_invariant(self);
        }
        &self.geo
    }

    /// The year columns in header order.
    pub fn years(&self) -> (columns: &Vec<YearColumn>)
        ensures
            columns.deep_view() == self@.years,
            self@.well_formed(),
    {
        proof {
            use_type_invariant(self);
        }
        &self.years
    }

    /// Looks a year column up by its label, which must match exactly.
    pub fn year_column(&self, label: &str) -> (column: Option<&YearColumn>)
        ensures
            self@.well_formed(),
            match year_index(self@.years, label@) {
                Some(found) => column matches Some(held) && held@ == self@.years[found],
                None => column is None,
            },
    {
        proof {
            use_type_invariant(self);
        }
        let wanted = label.to_owned();
        let mut index: usize = 0;
        while index < self.years.len()
            invariant
                index <= self.years.len(),
                wanted@ == label@,
                self@.well_formed(),
                self@.years == self.years.deep_view(),
                year_index(self@.years, label@) == first_labelled(
                    self@.years,
                    label@,
                    index as int,
                ),
            decreases self.years.len() - index,
        {
            assert(self@.years[index as int] == self.years[index as int]@);
            if self.years[index].label == wanted {
                return Some(&self.years[index]);
            }
            index = index + 1;
        }
        None
    }
}

/// Decodes the cells of one source into a table: each composite cell is
/// cut into its five metadata values, and the year columns are kept as they
/// are, cell for cell and in their order. A source with a composite column
/// and no rows decodes to a table without rows, and one without year
/// columns to a table of the metadata columns alone.
///
/// Fails where the source has no column at all, and where a year column
/// has more or fewer cells than there are rows.
pub fn process_tsv(raw: RawTable) -> (res: Result<DecodedTable, FlowError>)
    ensures
        match res {
            Ok(table) => raw@.decoded() == Ok::<TableModel, FlowErrorModel>(table@),
            Err(error) => raw@.decoded() == Err::<TableModel, FlowErrorModel>(error@),
        },
{
    let composite = match raw.composite {
        Some(composite) => composite,
        None => {
            return Err(FlowError::MalformedTable("table has no columns".to_owned()));
        },
    };
    let years = raw.years;
    let rows = composite.len();
    let mut column: usize = 0;
    while column < years.len()
        invariant
            column <= years.len(),
            rows == composite.len(),
            raw@.composite == Some(composite.deep_view()),
            raw@.years == years.deep_view(),
            forall|j: int| 0 <= j < column ==> (#[trigger] raw@.years[j]).values.len() == rows,
        decreases years.len() - column,
    {
        if years[column].values.len() != rows {
            assert(raw@.years[column as int].values.len() != raw@.rows());
            return Err(
                FlowError::MalformedTable("year column length differs from row count".to_owned()),
            );
        }
        column = column + 1;
    }
    assert(raw@.aligned());
    let mut freq: Vec<String> = Vec::new();
    let mut nace_r2: Vec<String> = Vec::new();
    let mut c_exp: Vec<String> = Vec::new();
    let mut unit: Vec<String> = Vec::new();
    let mut geo: Vec<String> = Vec::new();
    let mut row: usize = 0;
    while row < rows
        invariant
            row <= rows,
            rows == composite.len(),
            raw@.composite == Some(composite.deep_view()),
            freq.deep_view() == raw@.metadata_column(0).take(row as int),
            nace_r2.deep_view() == raw@.metadata_column(1).take(row as int),
            c_exp.deep_view() == raw@.metadata_column(2).take(row as int),
            unit.deep_view() == raw@.metadata_column(3).take(row as int),
            geo.deep_view() == raw@.metadata_column(4).take(row as int),
        decreases rows - row,
    {
        let metadata = match &composite[row] {
            Some(text) => decode_metadata(Some(text.as_str())),
            None => decode_metadata(None),
        };
        assert(metadata@ == metadata_of(raw@.composite->0[row as int])) by {
            assert(raw@.composite->0[row as int] == composite[row as int].deep_view());
        }
        let ghost values = metadata@;
        let ghost built = (
            freq.deep_view(),
            nace_r2.deep_view(),
            c_exp.deep_view(),
            unit.deep_view(),
            geo.deep_view(),
        );
        freq.push(metadata.freq);
        nace_r2.push(metadata.nace_r2);
        c_exp.push(metadata.c_exp);
        unit.push(metadata.unit);
        geo.push(metadata.geo);
        proof {
            assert(freq.deep_view() =~= built.0.push(values.freq));
            assert(nace_r2.deep_view() =~= built.1.push(values.nace_r2));
            assert(c_exp.deep_view() =~= built.2.push(values.c_exp));
            assert(unit.deep_view() =~= built.3.push(values.unit));
            assert(geo.deep_view() =~= built.4.push(values.geo));
            assert(freq.deep_view() =~= raw@.metadata_column(0).take(row as int + 1));
            assert(nace_r2.deep_view() =~= raw@.metadata_column(1).take(row as int + 1));
            assert(c_exp.deep_view() =~= raw@.metadata_column(2).take(row as int + 1));
            assert(unit.deep_view() =~= raw@.metadata_column(3).take(row as int + 1));
            assert(geo.deep_view() =~= raw@.metadata_column(4).take(row as int + 1));
        }
        row = row + 1;
    }
    proof {
        assert(raw@.metadata_column(0).take(rows as int) =~= raw@.metadata_column(0));
        assert(raw@.metadata_column(1).take(rows as int) =~= raw@.metadata_column(1));
        assert(raw@.metadata_column(2).take(rows as int) =~= raw@.metadata_column(2));
        assert(raw@.metadata_column(3).take(rows as int) =~= raw@.metadata_column(3));
        assert(raw@.metadata_column(4).take(rows as int) =~= raw@.metadata_column(4));
    }
    Ok(DecodedTable { freq, nace_r2, c_exp, unit, geo, years })
}

} // verus!
