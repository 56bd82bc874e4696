//! The full-text indexer: what it holds and what its operations do to it.
use vstd::prelude::*;

use crate::schema::{indexer_message, is_plain, schema_fields, FieldKind, FieldSpec};
use crate::text::{decimal, MAX_TEXT};
use crate::value::{values_size, FieldValue, ValueView};

verus! {

/// What an index holds.
#[verifier::ext_equal]
pub struct IndexState {
    /// The fields of its schema.
    pub fields: Seq<FieldSpec>,
    /// The live documents by their ids, each with the values of its stored fields.
    pub documents: Map<Seq<char>, Map<u16, Seq<ValueView>>>,
    /// The tables by which documents are found, and all else that a search reads, in some fixed
    /// writing.
    pub tables: Seq<u8>,
    /// The largest number of words that a field has numbered.
    pub words: nat,
    /// How many changes were made.
    pub sequence: u64,
    /// How many of the changes are known to be on record elsewhere.
    pub persisted: u64,
    /// Whether the tables by which documents are found agree with the documents and number them
    /// and their words within 32 bits, under a plain schema. They do in every index that was made empty and then
    /// changed, and in every index read back from a checkpoint of one. Bytes that no index wrote
    /// may decode to an index whose tables disagree.
    pub sound: bool,
}

/// A document as it is handed to the index.
#[verifier::ext_equal]
pub struct DocumentView {
    pub id: Seq<char>,
    /// The fields in the order in which they were added, with their values.
    pub entries: Seq<(u16, Seq<ValueView>)>,
}

/// Whether a value is of the type of a field.
pub open spec fn fits(kind: FieldKind, value: ValueView) -> bool {
    match kind {
        FieldKind::Text(_) => value is Text,
        FieldKind::Keyword => value is Text,
        FieldKind::I64 => value is Integer,
        FieldKind::Bool => value is Flag,
    }
}

/// Why the index refuses the values of a field.
pub open spec fn entry_fault(field: FieldSpec, values: Seq<ValueView>) -> Option<Seq<char>> {
    if values.len() > 1 && !field.flags.multi_value {
        Some("field "@ + field.name + " is single-value"@)
    } else if exists|i: int| 0 <= i < values.len() && !fits(field.kind, #[trigger] values[i]) {
        Some("value type does not match field "@ + field.name)
    } else {
        None
    }
}

/// Why the index refuses the fields of a document: the first field that it refuses decides.
pub open spec fn entries_fault(
    fields: Seq<FieldSpec>,
    entries: Seq<(u16, Seq<ValueView>)>,
) -> Option<Seq<char>>
    decreases entries.len(),
{
    if entries.len() == 0 {
        None
    } else {
        match entries_fault(fields, entries.drop_last()) {
            Some(message) => Some(message),
            None => entry_fault(fields[entries.last().0 as int], entries.last().1),
        }
    }
}

/// Why the index refuses a document.
pub open spec fn document_fault(fields: Seq<FieldSpec>, document: DocumentView) -> Option<
    Seq<char>,
> {
    if document.id.len() == 0 {
        Some("document id cannot be empty"@)
    } else {
        entries_fault(fields, document.entries)
    }
}

/// The values of a document that the index keeps: those of the stored fields that have any.
pub open spec fn kept(fields: Seq<FieldSpec>, entries: Seq<(u16, Seq<ValueView>)>) -> Map<
    u16,
    Seq<ValueView>,
>
    decreases entries.len(),
{
    if entries.len() == 0 {
        Map::empty()
    } else {
        let front = kept(fields, entries.drop_last());
        let (number, values) = entries.last();
        if values.len() > 0 && fields[number as int].flags.stored {
            front.insert(number, values)
        } else {
            front
        }
    }
}

/// The index after a document was put in, with the tables and the words that it then has.
pub open spec fn after_upsert(
    state: IndexState,
    document: DocumentView,
    tables: Seq<u8>,
    words: nat,
) -> IndexState {
    IndexState {
        documents: state.documents.insert(document.id, kept(state.fields, document.entries)),
        tables,
        words,
        sequence: (state.sequence + 1) as u64,
        ..state
    }
}

/// The index after a document was taken out.
pub open spec fn after_delete(state: IndexState, id: Seq<char>) -> IndexState {
    if state.documents.contains_key(id) {
        IndexState {
            documents: state.documents.remove(id),
            tables: tables_without(state.tables, id),
            sequence: (state.sequence + 1) as u64,
            ..state
        }
    } else {
        state
    }
}

/// The index after documents were taken out, one after the other.
pub open spec fn after_deletes(state: IndexState, ids: Seq<Seq<char>>) -> IndexState
    decreases ids.len(),
{
    if ids.len() == 0 {
        state
    } else {
        after_delete(after_deletes(state, ids.drop_last()), ids.last())
    }
}

/// How many characters the texts of a document have.
pub open spec fn entries_size(entries: Seq<(u16, Seq<ValueView>)>) -> nat
    decreases entries.len(),
{
    if entries.len() == 0 {
        0
    } else {
        entries_size(entries.drop_last()) + values_size(entries.last().1)
    }
}

/// The index can take a document in: it can count one more change, and the texts are not too long
/// for its tokenizer.
pub open spec fn can_take(state: IndexState, document: DocumentView) -> bool {
    &&& state.sequence < u64::MAX
    &&& entries_size(document.entries) <= MAX_TEXT
}

/// What holds of the documents wherever the tables agree with them.
pub open spec fn counted(state: IndexState) -> bool {
    state.sound ==> state.documents.dom().finite() && state.documents.len() <= u32::MAX
}

/// How many words a document can add to those of a field at most: each character belongs to no
/// more than twenty, and an empty keyword is one.
pub open spec fn most_words(document: DocumentView) -> nat {
    20 * entries_size(document.entries) + 1
}

/// Documents and words have numbers of 32 bits: one is left for a document, or it replaces one
/// with its id, and enough are left for its words.
pub open spec fn has_room(state: IndexState, document: DocumentView) -> bool {
    &&& state.documents.contains_key(document.id) || state.documents.len() < u32::MAX
    &&& state.words + most_words(document) <= u32::MAX
}

/// The document type of the indexer.
#[verifier::external_type_specification]
#[verifier::external_body]
pub struct ExDocument(memory_indexer::Document);

/// The value type of the indexer.
#[verifier::external_type_specification]
#[verifier::external_body]
pub struct ExIndexerValue(memory_indexer::Value);

/// The index of the indexer.
#[verifier::external_type_specification]
#[verifier::external_body]
pub struct ExMemoryIndex(memory_indexer::MemoryIndex);

/// What a document holds.
pub uninterp spec fn document_of(document: memory_indexer::Document) -> DocumentView;

/// What a value of the indexer stands for.
pub uninterp spec fn indexer_value(value: memory_indexer::Value) -> ValueView;

/// What an index holds.
pub uninterp spec fn index_state(index: memory_indexer::MemoryIndex) -> IndexState;

/// The tables of an index without documents: those that `memory_indexer::MemoryIndex::new` makes.
pub uninterp spec fn new_tables(fields: Seq<FieldSpec>) -> Seq<u8>;

/// Whether `memory_indexer::MemoryIndex::upsert` can turn the tables of an index into others when
/// it puts a document in. It is no function of the document: the words of a text are told apart
/// by logarithms, which no two machines need to round alike.
pub uninterp spec fn can_become(
    fields: Seq<FieldSpec>,
    before: Seq<u8>,
    document: DocumentView,
    after: Seq<u8>,
) -> bool;

/// The tables from which `memory_indexer::MemoryIndex::delete` took a document out.
pub uninterp spec fn tables_without(tables: Seq<u8>, id: Seq<char>) -> Seq<u8>;

/// What a list of values of the indexer stands for.
pub open spec fn indexer_values(values: Seq<memory_indexer::Value>) -> Seq<ValueView> {
    values.map_values(|v: memory_indexer::Value| indexer_value(v))
}

/// Makes a `memory_indexer::Value` of a value, variant by variant.
#[verifier::external_body]
fn to_indexer(value: FieldValue) -> (r: memory_indexer::Value)
    ensures
        indexer_value(r) == value@,
{
    match value {
        FieldValue::Text(s) => memory_indexer::Value::String(s),
        FieldValue::Integer(i) => memory_indexer::Value::I64(i),
        FieldValue::Flag(b) => memory_indexer::Value::Bool(b),
    }
}

/// Makes a value of a `memory_indexer::Value`, variant by variant.
#[verifier::external_body]
pub(crate) fn from_indexer(value: memory_indexer::Value) -> (r: FieldValue)
    ensures
        r@ == indexer_value(value),
{
    match value {
        memory_indexer::Value::String(s) => FieldValue::Text(s),
        memory_indexer::Value::I64(i) => FieldValue::Integer(i),
        memory_indexer::Value::Bool(b) => FieldValue::Flag(b),
    }
}

/// `memory_indexer::Document::new` gives a document without fields.
#[verifier::external_body]
pub(crate) fn new_document(id: String) -> (r: memory_indexer::Document)
    ensures
        document_of(r) == (DocumentView { id: id@, entries: Seq::empty() }),
{
    memory_indexer::Document::new(id)
}

/// `memory_indexer::Document::add_values` adds a field that the document does not have yet
/// behind the others.
#[verifier::external_body]
fn add_field(
    document: &mut memory_indexer::Document,
    number: u16,
    values: Vec<memory_indexer::Value>,
)
    requires
        forall|i: int|
            0 <= i < document_of(*old(document)).entries.len() ==> (
            #[trigger] document_of(*old(document)).entries[i]).0 != number,
    ensures
        document_of(*final(document)) == (DocumentView {
            entries: document_of(*old(document)).entries.push((number, indexer_values(values@))),
            ..document_of(*old(document))
        }),
{
    document.add_values(memory_indexer::FieldId(number), values);
}

/// `memory_indexer::MemoryIndex::new` gives an index without documents.
pub assume_specification[ memory_indexer::MemoryIndex::new ](
    schema: memory_indexer::Schema,
) -> (r: memory_indexer::MemoryIndex)
    requires
        is_plain(schema),
    ensures
        index_state(r) == (IndexState {
            fields: schema_fields(schema),
            documents: Map::empty(),
            tables: new_tables(schema_fields(schema)),
            words: 0,
            sequence: 0,
            persisted: 0,
            sound: true,
        }),
;

/// A clone of a `memory_indexer::Schema` has the same fields, and is as plain.
pub assume_specification[ <memory_indexer::Schema as Clone>::clone ](
    schema: &memory_indexer::Schema,
) -> (r: memory_indexer::Schema)
    ensures
        schema_fields(r) == schema_fields(*schema),
        is_plain(r) == is_plain(*schema),
;

/// The fields of a document are known to the index, each at most once.
pub open spec fn known_entries(fields: Seq<FieldSpec>, entries: Seq<(u16, Seq<ValueView>)>) -> bool {
    &&& forall|i: int| 0 <= i < entries.len() ==> (#[trigger] entries[i]).0 < fields.len()
    &&& forall|i: int, j: int|
        0 <= i < j < entries.len() ==> (#[trigger] entries[i]).0 != (#[trigger] entries[j]).0
}

/// `memory_indexer::MemoryIndex::upsert` puts a document in, in place of one with its id, and
/// counts one change. It refuses a document with a message and then changes nothing. It panics
/// where the tables of the index disagree, and where a counter overflows as it takes a document
/// in. What becomes of the documents is not said of an index that has used up their numbers or
/// those of their words.
#[verifier::external_body]
pub(crate) fn put_document(
    index: &mut memory_indexer::MemoryIndex,
    document: memory_indexer::Document,
) -> (r: Result<(), memory_indexer::Error>)
    requires
        index_state(*old(index)).sound,
        known_entries(index_state(*old(index)).fields, document_of(document).entries),
        document_fault(index_state(*old(index)).fields, document_of(document)) is None ==> can_take(
            index_state(*old(index)),
            document_of(document),
        ),
    ensures
        ({
            let before = index_state(*old(index));
            let after = index_state(*final(index));
            let put = after_upsert(before, document_of(document), after.tables, after.words);
            match r {
                Ok(_) => {
                    &&& document_fault(before.fields, document_of(document)) is None
                    &&& after.fields == put.fields
                    &&& after.sequence == put.sequence
                    &&& after.persisted == put.persisted
                    &&& counted(after)
                    &&& can_become(
                        before.fields,
                        before.tables,
                        document_of(document),
                        after.tables,
                    )
                    &&& after.words <= before.words + most_words(document_of(document))
                    &&& has_room(before, document_of(document)) ==> after == put
                },
                Err(e) => {
                    &&& document_fault(before.fields, document_of(document)) == Some(
                        indexer_message(e),
                    )
                    &&& *final(index) == *old(index)
                },
            }
        }),
{
    index.upsert(document)?;
    Ok(())
}

/// `memory_indexer::MemoryIndex::delete` takes a document out and counts one change, or changes
/// nothing where there is no document with the id. It panics where the tables of the index
/// disagree.
pub assume_specification[ memory_indexer::MemoryIndex::delete ](
    index: &mut memory_indexer::MemoryIndex,
    id: &str,
) -> (r: bool)
    requires
        index_state(*old(index)).sound,
        index_state(*old(index)).documents.contains_key(id@) ==> index_state(*old(index)).sequence
            < u64::MAX,
    ensures
        r == index_state(*old(index)).documents.contains_key(id@),
        index_state(*final(index)).tables == (if r {
            tables_without(index_state(*old(index)).tables, id@)
        } else {
            index_state(*old(index)).tables
        }),
        index_state(*final(index)) == after_delete(index_state(*old(index)), id@),
;

/// `memory_indexer::MemoryIndex::len` counts the documents.
pub assume_specification[ memory_indexer::MemoryIndex::len ](
    index: &memory_indexer::MemoryIndex,
) -> (r: usize)
    ensures
        index_state(*index).sound ==> r == index_state(*index).documents.len(),
;

/// `memory_indexer::MemoryIndex::change_sequence` gives the number of changes.
pub assume_specification[ memory_indexer::MemoryIndex::change_sequence ](
    index: &memory_indexer::MemoryIndex,
) -> (r: u64)
    ensures
        r == index_state(*index).sequence,
;

/// `memory_indexer::MemoryIndex::has_unpersisted_changes` tells whether there are changes that
/// are not known to be on record.
pub assume_specification[ memory_indexer::MemoryIndex::has_unpersisted_changes ](
    index: &memory_indexer::MemoryIndex,
) -> (r: bool)
    ensures
        r == (index_state(*index).sequence > index_state(*index).persisted),
;

/// Why a number of changes cannot be on record: the index has not made as many.
pub open spec fn future_fault(sequence: u64, current: u64) -> Seq<char> {
    "checkpoint sequence "@ + decimal(sequence as int) + " is newer than index sequence "@
        + decimal(current as int)
}

/// `memory_indexer::MemoryIndex::mark_checkpoint_persisted` notes that the changes up to a
/// number are on record; the note never goes back. It refuses a number of changes that the index
/// has not made.
pub assume_specification[ memory_indexer::MemoryIndex::mark_checkpoint_persisted ](
    index: &mut memory_indexer::MemoryIndex,
    sequence: u64,
) -> (r: Result<(), memory_indexer::Error>)
    ensures
        ({
            let before = index_state(*old(index));
            let after = index_state(*final(index));
            match r {
                Ok(_) => {
                    &&& sequence <= before.sequence
                    &&& after == IndexState {
                        persisted: if sequence > before.persisted {
                            sequence
                        } else {
                            before.persisted
                        },
                        ..before
                    }
                },
                Err(e) => {
                    &&& sequence > before.sequence
                    &&& indexer_message(e) == future_fault(sequence, before.sequence)
                    &&& *final(index) == *old(index)
                },
            }
        }),
;

/// The index that bytes stand for as a checkpoint under the plain schema with the given fields, or
/// why they stand for none: what `memory_indexer::MemoryIndex::from_checkpoint` makes of them.
pub uninterp spec fn decoded_checkpoint(fields: Seq<FieldSpec>, bytes: Seq<u8>) -> Result<
    IndexState,
    Seq<char>,
>;

/// The state of an index that is read back from its own checkpoint: all its changes are on
/// record.
pub open spec fn recorded(state: IndexState) -> IndexState {
    IndexState { persisted: state.sequence, ..state }
}

/// `memory_indexer::MemoryIndex::checkpoint` writes an index down. From the bytes
/// `from_checkpoint` makes an index with the same documents, the same tables and the same number
/// of changes, all of them on record. Whether it succeeds is up to the compressor.
#[verifier::external_body]
pub(crate) fn write_checkpoint(index: &memory_indexer::MemoryIndex) -> (r: Result<
    Vec<u8>,
    memory_indexer::Error,
>)
    ensures
        match r {
            Ok(bytes) => index_state(*index).sound ==> decoded_checkpoint(
                index_state(*index).fields,
                bytes@,
            ) == Ok::<_, Seq<char>>(recorded(index_state(*index))),
            Err(_) => true,
        },
{
    Ok(index.checkpoint()?.bytes)
}

/// An index that can be the outcome of reading a checkpoint: it has the schema that was asked
/// for, all its changes are on record, and it holds no more documents than can have numbers.
pub open spec fn restored(state: IndexState, fields: Seq<FieldSpec>) -> bool {
    &&& state.fields == fields
    &&& state.persisted == state.sequence
    &&& counted(state)
}

/// `memory_indexer::MemoryIndex::from_checkpoint` reads an index back, under a plain schema. On
/// bytes that pass for a checkpoint but that no index wrote it may claim more memory than there
/// is.
pub assume_specification[ memory_indexer::MemoryIndex::from_checkpoint ](
    expected_schema: memory_indexer::Schema,
    bytes: &[u8],
) -> (r: Result<memory_indexer::MemoryIndex, memory_indexer::Error>)
    requires
        is_plain(expected_schema),
    ensures
        match r {
            Ok(index) => {
                &&& decoded_checkpoint(schema_fields(expected_schema), bytes@) == Ok::<
                    _,
                    Seq<char>,
                >(index_state(index))
                &&& restored(index_state(index), schema_fields(expected_schema))
            },
            Err(e) => decoded_checkpoint(schema_fields(expected_schema), bytes@) == Err::<
                IndexState,
                _,
            >(indexer_message(e)),
        },
;

/// Adds a field that a document does not have yet behind the others.
pub(crate) fn add_entry(
    document: &mut memory_indexer::Document,
    number: u16,
    values: Vec<FieldValue>,
)
    requires
        forall|i: int|
            0 <= i < document_of(*old(document)).entries.len() ==> (
            #[trigger] document_of(*old(document)).entries[i]).0 != number,
    ensures
        document_of(*final(document)) == (DocumentView {
            entries: document_of(*old(document)).entries.push(
                (number, crate::value::value_views(values@)),
            ),
            ..document_of(*old(document))
        }),
{
    let ghost views = crate::value::value_views(values@);
    let mut converted: Vec<memory_indexer::Value> = Vec::new();
    for value in iter: values
        invariant
            iter.seq() == values@,
            indexer_values(converted@) =~= crate::value::value_views(values@).take(
                iter.index() as int,
            ),
    {
        let ghost before = converted@;
        converted.push(to_indexer(value));
        assert(indexer_values(converted@) =~= indexer_values(before).push(value@));
    }
    assert(views.take(views.len() as int) =~= views);
    add_field(document, number, converted);
}

} // verus!
