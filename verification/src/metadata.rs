//! The composite metadata field: five comma-joined values in one cell.

use crate::text::{join_with, lemma_split_join_prefix, lemma_split_nonempty, split_fields, split_on};
use vstd::prelude::*;

verus! {

/// How many values a composite field packs.
pub const FIELD_COUNT: usize = 5;

/// The five values of one row's composite field.
#[derive(Debug, Clone, PartialEq, Eq)]
pub struct Metadata {
    pub freq: String,
    pub nace_r2: String,
    pub c_exp: String,
    pub unit: String,
    pub geo: String,
}

/// The five values as character sequences.
pub struct MetadataModel {
    pub freq: Seq<char>,
    pub nace_r2: Seq<char>,
    pub c_exp: Seq<char>,
    pub unit: Seq<char>,
    pub geo: Seq<char>,
}

impl View for Metadata {
    type V = MetadataModel;

    open spec fn view(&self) -> MetadataModel {
        MetadataModel {
            freq: self.freq@,
            nace_r2: self.nace_r2@,
            c_exp: self.c_exp@,
            unit: self.unit@,
            geo: self.geo@,
        }
    }
}

impl MetadataModel {
    /// The values in their fixed order.
    pub open spec fn fields(self) -> Seq<Seq<char>> {
        seq![self.freq, self.nace_r2, self.c_exp, self.unit, self.geo]
    }
}

/// The value at `position` of a composite cell: the field there when the
/// cell is cut at its commas, and the empty text where the cell is absent
/// or has fewer fields.
pub open spec fn field_at(composite: Option<Seq<char>>, position: int) -> Seq<char> {
    match composite {
        Some(text) => {
            let fields = split_on(text, ',');
            if 0 <= position < fields.len() {
                fields[position]
            } else {
                Seq::<char>::empty()
            }
        },
        None => Seq::<char>::empty(),
    }
}

/// The metadata that a composite cell stands for. Fields beyond the fifth
/// are dropped.
pub open spec fn metadata_of(composite: Option<Seq<char>>) -> MetadataModel {
    MetadataModel {
        freq: field_at(composite, 0),
        nace_r2: field_at(composite, 1),
        c_exp: field_at(composite, 2),
        unit: field_at(composite, 3),
        geo: field_at(composite, 4),
    }
}

/// The character sequence of an optional text.
pub open spec fn text_of(cell: Option<&str>) -> Option<Seq<char>> {
    match cell {
        Some(text) => Some(text@),
        None => None,
    }
}

/// Takes the field at `position` off the end of `fields`, or gives the
/// empty text where `fields` ends before it.
fn take_field(fields: &mut Vec<String>, position: usize) -> (field: String)
    requires
        old(fields).len() <= position + 1,
    ensures
        field@ == (if position < old(fields).len() {
            old(fields)[position as int]@
        } else {
            Seq::<char>::empty()
        }),
        final(fields)@ == (if position < old(fields).len() {
            old(fields)@.take(position as int)
        } else {
            old(fields)@
        }),
{
    if fields.len() > position {
        let field = fields.pop();
        proof {
            assert(fields@ =~= old(fields)@.take(position as int));
        }
        match field {
            Some(field) => field,
            None => String::new(),
        }
    } else {
        String::new()
    }
}

/// Decodes one composite cell into its five values.
///
/// An absent or empty cell gives five empty values; a cell with fewer than
/// five fields gives empty values for those that are missing.
pub fn decode_metadata(composite: Option<&str>) -> (metadata: Metadata)
    ensures
        metadata@ == metadata_of(text_of(composite)),
{
    let mut fields = match composite {
        Some(text) => split_fields(text),
        None => Vec::new(),
    };
    let ghost all = fields.deep_view();
    fields.truncate(FIELD_COUNT);
    let ghost kept = fields@;
    assert(forall|k: int| 0 <= k < kept.len() ==> (#[trigger] kept[k])@ == all[k]);
    let geo = take_field(&mut fields, 4);
    let unit = take_field(&mut fields, 3);
    let c_exp = take_field(&mut fields, 2);
    let nace_r2 = take_field(&mut fields, 1);
    let freq = take_field(&mut fields, 0);
    Metadata { freq, nace_r2, c_exp, unit, geo }
}

/// Joining the fields that a composite cell does hold, up to the fifth,
/// gives back the cell's text up to the comma that ends the fifth field:
/// the whole text where it has at most five fields.
pub proof fn lemma_metadata_round_trip(text: Seq<char>)
    ensures
        ({
            let fields = split_on(text, ',');
            let held = if fields.len() < 5 {
                fields.len() as int
            } else {
                5
            };
            let joined = join_with(metadata_of(Some(text)).fields().take(held), ',');
            &&& joined.is_prefix_of(text)
            &&& fields.len() <= 5 ==> joined == text
            &&& fields.len() > 5 ==> joined.len() < text.len() && text[joined.len() as int]
                == ','
        }),
{
    let fields = split_on(text, ',');
    lemma_split_nonempty(text, ',');
    let held = if fields.len() < 5 {
        fields.len() as int
    } else {
        5
    };
    assert(metadata_of(Some(text)).fields().take(held) =~= fields.take(held));
    lemma_split_join_prefix(text, ',', held);
}

/// A cell with exactly five fields is its five values joined by commas.
pub proof fn lemma_metadata_of_five_fields(text: Seq<char>)
    requires
        split_on(text, ',').len() == 5,
    ensures
        join_with(metadata_of(Some(text)).fields(), ',') == text,
{
    lemma_metadata_round_trip(text);
    assert(metadata_of(Some(text)).fields().take(5) =~= metadata_of(Some(text)).fields());
}

/// An absent cell and an empty one both decode to five empty values.
pub proof fn lemma_metadata_of_empty()
    ensures
        metadata_of(None) == metadata_of(Some(Seq::<char>::empty())),
        metadata_of(None).fields() == Seq::new(5, |k: int| Seq::<char>::empty()),
{
    assert(split_on(Seq::<char>::empty(), ',') =~= seq![Seq::<char>::empty()]);
    assert(metadata_of(None).fields() =~= Seq::new(5, |k: int| Seq::<char>::empty()));
}

} // verus!
