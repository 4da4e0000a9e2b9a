//! The string table: the texts of the lines, each under the key that a line
//! carries. The engine hands out keys; the host looks the texts up.

use crate::table::Table;
use vstd::prelude::*;

verus! {

/// One row of a string table.
#[derive(Debug, PartialEq)]
pub struct StringInfo {
    /// The key of the line.
    pub id: String,
    /// The text of the line, with its placeholders.
    pub text: String,
}

/// What a [`StringInfo`] is in contracts.
pub ghost struct StringInfoView {
    pub id: Seq<char>,
    pub text: Seq<char>,
}

impl View for StringInfo {
    type V = StringInfoView;

    open spec fn view(&self) -> StringInfoView {
        StringInfoView { id: self.id@, text: self.text@ }
    }
}

impl Clone for StringInfo {
    fn clone(&self) -> (copy: Self)
        ensures
            copy@ == self@,
    {
        StringInfo { id: self.id.clone(), text: self.text.clone() }
    }
}

/// The views of a sequence of rows, one by one.
pub open spec fn rows_view(rows: Seq<StringInfo>) -> Seq<StringInfoView> {
    rows.map_values(|row: StringInfo| row@)
}

/// The rows by their keys. Where several rows have the same key, the last
/// of them counts.
pub open spec fn keyed_by_id(rows: Seq<StringInfoView>) -> Map<Seq<char>, StringInfoView>
    decreases rows.len(),
{
    if rows.len() == 0 {
        Map::empty()
    } else {
        keyed_by_id(rows.drop_last()).insert(rows.last().id, rows.last())
    }
}

/// A row is found under its key unless a later row has the same key.
pub proof fn lemma_last_row_counts(rows: Seq<StringInfoView>, i: int)
    requires
        0 <= i < rows.len(),
        forall|j: int| i < j < rows.len() ==> (#[trigger] rows[j]).id != rows[i].id,
    ensures
        keyed_by_id(rows).contains_key(rows[i].id),
        keyed_by_id(rows)[rows[i].id] == rows[i],
    decreases rows.len(),
{
    if i < rows.len() - 1 {
        let front = rows.drop_last();
        assert(rows.last() == rows[rows.len() - 1]);
        assert forall|j: int| i < j < front.len() implies (#[trigger] front[j]).id
            != front[i].id by {
            assert(rows[j].id != rows[i].id);
        }
        lemma_last_row_counts(front, i);
    }
}

/// Every key of the table is the key of a row.
pub proof fn lemma_keys_are_row_keys(rows: Seq<StringInfoView>, id: Seq<char>)
    requires
        keyed_by_id(rows).contains_key(id),
    ensures
        exists|i: int| 0 <= i < rows.len() && (#[trigger] rows[i]).id == id,
    decreases rows.len(),
{
    if rows.len() > 0 {
        if rows.last().id == id {
            assert(rows[rows.len() - 1].id == id);
        } else {
            let front = rows.drop_last();
            lemma_keys_are_row_keys(front, id);
            let i = choose|i: int| 0 <= i < front.len() && (#[trigger] front[i]).id == id;
            assert(rows[i].id == id);
        }
    }
}

/// Builds the string table from its rows: each row under its key.
pub fn string_table(rows: Vec<StringInfo>) -> (table: Table<StringInfo>)
    ensures
        table@ == keyed_by_id(rows_view(rows@)),
{
    let ghost given = rows_view(rows@);
    let mut table: Table<StringInfo> = Table::new();
    let mut i: usize = 0;
    assert(given.take(0) =~= Seq::<StringInfoView>::empty());
    while i < rows.len()
        invariant
            given == rows_view(rows@),
            i <= rows@.len(),
            table@ == keyed_by_id(given.take(i as int)),
        decreases rows@.len() - i,
    {
        let row = rows[i].clone();
        proof {
            assert(given.take(i + 1).drop_last() =~= given.take(i as int));
            assert(given.take(i + 1).last() == row@);
        }
        table.insert(row.id.clone(), row);
        i += 1;
    }
    assert(given.take(rows@.len() as int) =~= given);
    table
}

} // verus!
