//! Separator-delimited text: splitting a string into its fields and joining
//! fields back together.

use vstd::prelude::*;

verus! {

/// The fields of `text` when cut at every occurrence of `sep`.
///
/// Text without a separator is one field, so the result is never empty;
/// a separator at either end, or two in a row, gives an empty field.
pub open spec fn split_on(text: Seq<char>, sep: char) -> Seq<Seq<char>>
    decreases text.len(),
{
    if text.len() == 0 {
        seq![Seq::<char>::empty()]
    } else {
        let earlier = split_on(text.drop_last(), sep);
        if text.last() == sep {
            earlier.push(Seq::<char>::empty())
        } else {
            earlier.drop_last().push(earlier.last().push(text.last()))
        }
    }
}

/// The fields written one after another with `sep` between neighbours.
pub open spec fn join_with(fields: Seq<Seq<char>>, sep: char) -> Seq<char>
    decreases fields.len(),
{
    if fields.len() == 0 {
        Seq::<char>::empty()
    } else if fields.len() == 1 {
        fields[0]
    } else {
        join_with(fields.drop_last(), sep).push(sep) + fields.last()
    }
}

/// How the fields of a prefix grow when the prefix takes in one more
/// character.
proof fn lemma_split_step(text: Seq<char>, pos: int, sep: char)
    requires
        0 <= pos < text.len(),
    ensures
        split_on(text.take(pos + 1), sep) == ({
            let earlier = split_on(text.take(pos), sep);
            if text[pos] == sep {
                earlier.push(Seq::<char>::empty())
            } else {
                earlier.drop_last().push(earlier.last().push(text[pos]))
            }
        }),
{
    assert(text.take(pos + 1).drop_last() =~= text.take(pos));
}

/// Cuts `text` at every comma.
pub fn split_fields(text: &str) -> (fields: Vec<String>)
    ensures
        fields.deep_view() == split_on(text@, ','),
{
    let total = text.unicode_len();
    let mut fields: Vec<String> = Vec::new();
    let mut start: usize = 0;
    let mut pos: usize = 0;
    proof {
        assert(text@.take(0) =~= Seq::<char>::empty());
        assert(fields.deep_view().push(text@.subrange(0, 0)) =~= seq![Seq::<char>::empty()]);
    }
    for c in it: text.chars()
        invariant
            total == text@.len(),
            it.seq() == text@,
            pos == it.index(),
            start <= pos <= total,
            split_on(text@.take(pos as int), ',') == fields.deep_view().push(
                text@.subrange(start as int, pos as int),
            ),
    {
        proof {
            lemma_split_step(text@, pos as int, ',');
        }
        let ghost before = fields.deep_view();
        if c == ',' {
            fields.push(text.substring_char(start, pos).to_owned());
            proof {
                assert(fields.deep_view() =~= before.push(
                    text@.subrange(start as int, pos as int),
                ));
                assert(text@.subrange(pos as int + 1, pos as int + 1) =~= Seq::<char>::empty());
            }
            start = pos + 1;
        } else {
            proof {
                assert(before.push(text@.subrange(start as int, pos as int)).drop_last()
                    =~= before);
                assert(text@.subrange(start as int, pos as int).push(c) =~= text@.subrange(
                    start as int,
                    pos as int + 1,
                ));
            }
        }
        pos = pos + 1;
    }
    let ghost before = fields.deep_view();
    fields.push(text.substring_char(start, pos).to_owned());
    proof {
        assert(text@.take(pos as int) =~= text@);
        assert(fields.deep_view() =~= before.push(text@.subrange(start as int, pos as int)));
    }
    fields
}

/// Splitting always yields at least one field.
pub proof fn lemma_split_nonempty(text: Seq<char>, sep: char)
    ensures
        split_on(text, sep).len() >= 1,
    decreases text.len(),
{
    if text.len() > 0 {
        lemma_split_nonempty(text.drop_last(), sep);
    }
}

/// Joining the fields of a text with the separator it was split on gives
/// the text back.
pub proof fn lemma_split_join(text: Seq<char>, sep: char)
    ensures
        join_with(split_on(text, sep), sep) == text,
    decreases text.len(),
{
    if text.len() == 0 {
        assert(join_with(split_on(text, sep), sep) =~= text);
    } else {
        let rest = text.drop_last();
        let earlier = split_on(rest, sep);
        let fields = split_on(text, sep);
        lemma_split_join(rest, sep);
        lemma_split_nonempty(rest, sep);
        if text.last() == sep {
            assert(fields.drop_last() =~= earlier);
            assert(join_with(fields, sep) =~= rest.push(sep) + Seq::<char>::empty());
            assert(join_with(fields, sep) =~= text);
        } else if earlier.len() == 1 {
            assert(fields[0] =~= earlier[0].push(text.last()));
            assert(join_with(fields, sep) =~= text);
        } else {
            assert(fields.drop_last() =~= earlier.drop_last());
            let front = join_with(earlier.drop_last(), sep).push(sep);
            assert(join_with(fields, sep) == front + earlier.last().push(text.last()));
            assert(rest == front + earlier.last());
            assert(front + earlier.last().push(text.last()) =~= (front + earlier.last()).push(
                text.last(),
            ));
            assert(rest.push(text.last()) =~= text);
        }
    }
}

/// No field of a split text holds the separator.
pub proof fn lemma_split_fields_lack_separator(text: Seq<char>, sep: char)
    ensures
        forall|k: int, i: int|
            0 <= k < split_on(text, sep).len() && 0 <= i < split_on(text, sep)[k].len()
                ==> split_on(text, sep)[k][i] != sep,
    decreases text.len(),
{
    if text.len() > 0 {
        lemma_split_fields_lack_separator(text.drop_last(), sep);
        lemma_split_nonempty(text.drop_last(), sep);
    }
}

/// Joining the first `count` fields of a text gives a prefix of the text:
/// the whole text when every field is taken, and otherwise the part in
/// front of the separator that ends field `count - 1`.
pub proof fn lemma_split_join_prefix(text: Seq<char>, sep: char, count: int)
    requires
        1 <= count <= split_on(text, sep).len(),
    ensures
        join_with(split_on(text, sep).take(count), sep).is_prefix_of(text),
        count == split_on(text, sep).len() ==> join_with(split_on(text, sep).take(count), sep)
            == text,
        count < split_on(text, sep).len() ==> {
            let joined = join_with(split_on(text, sep).take(count), sep);
            joined.len() < text.len() && text[joined.len() as int] == sep
        },
    decreases text.len(),
{
    let fields = split_on(text, sep);
    if count == fields.len() {
        assert(fields.take(count) =~= fields);
        lemma_split_join(text, sep);
    } else {
        let rest = text.drop_last();
        let earlier = split_on(rest, sep);
        lemma_split_nonempty(rest, sep);
        assert(fields.take(count) =~= earlier.take(count));
        lemma_split_join_prefix(rest, sep, count);
    }
}

/// A text that ends in a separator and a field without one splits into the
/// fields in front of that separator, then that field.
proof fn lemma_split_last_field(front: Seq<char>, last: Seq<char>, sep: char)
    requires
        forall|i: int| 0 <= i < last.len() ==> last[i] != sep,
    ensures
        split_on(front.push(sep) + last, sep) == split_on(front, sep).push(last),
    decreases last.len(),
{
    let text = front.push(sep) + last;
    if last.len() == 0 {
        assert(text.drop_last() =~= front);
        assert(last =~= Seq::<char>::empty());
    } else {
        lemma_split_last_field(front, last.drop_last(), sep);
        assert(text.drop_last() =~= front.push(sep) + last.drop_last());
        let earlier = split_on(front, sep).push(last.drop_last());
        assert(earlier.drop_last() =~= split_on(front, sep));
        assert(last.drop_last().push(last.last()) =~= last);
    }
}

/// A text without a separator is its own single field.
proof fn lemma_split_single_field(text: Seq<char>, sep: char)
    requires
        forall|i: int| 0 <= i < text.len() ==> text[i] != sep,
    ensures
        split_on(text, sep) == seq![text],
    decreases text.len(),
{
    if text.len() == 0 {
        assert(text =~= Seq::<char>::empty());
    } else {
        lemma_split_single_field(text.drop_last(), sep);
        assert(text.drop_last().push(text.last()) =~= text);
        assert(seq![text.drop_last()].drop_last().push(text) =~= seq![text]);
    }
}

/// Splitting undoes joining: fields that hold no separator, joined, split
/// into themselves. With [`lemma_split_join`] this makes the fields of a
/// text the one way to cut it into parts without a separator.
pub proof fn lemma_join_split(fields: Seq<Seq<char>>, sep: char)
    requires
        fields.len() >= 1,
        forall|k: int, i: int|
            0 <= k < fields.len() && 0 <= i < fields[k].len() ==> fields[k][i] != sep,
    ensures
        split_on(join_with(fields, sep), sep) == fields,
    decreases fields.len(),
{
    if fields.len() == 1 {
        lemma_split_single_field(fields[0], sep);
        assert(seq![fields[0]] =~= fields);
    } else {
        lemma_join_split(fields.drop_last(), sep);
        lemma_split_last_field(join_with(fields.drop_last(), sep), fields.last(), sep);
        assert(fields.drop_last().push(fields.last()) =~= fields);
    }
}

} // verus!
