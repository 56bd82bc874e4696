//! The in-memory full-text index.
use memory_indexer::MemoryIndex;
use vstd::prelude::*;
use vstd::string::*;

use crate::engine::{
    add_entry, after_deletes, after_upsert, can_become, counted, decoded_checkpoint, document_fault,
    document_of, entries_size, future_fault, has_room, index_state, known_entries, most_words,
    new_document, new_tables, put_document, recorded, write_checkpoint, DocumentView, IndexState,
};
use crate::error::{IndexError, IndexFault};
use crate::json::{
    distinct_names, json_text, json_to_values, json_values, lemma_json_size, member_views,
    members_size, parse_object, parsed_object, write_json, write_json_error, Json,
};
use crate::schema::{
    build_schema, built, can_show, declared, first_text, indexer_message, is_plain, lemma_can_show,
    lemma_field_count, lemma_first_text, numbered, numbers_suffice, schema_fields, shown_fields, write_indexer_error,
    FieldSpec, SchemaDef,
};
use crate::search::{
    answers, can_answer, known_fields, named_mode, parse_mode, result_json, run_search,
    serialize_result, verdict, RequestView, ResultView, SearchOpts, SearchRequest,
};
use crate::text::MAX_TEXT;
use crate::value::ValueView;

verus! {

/// The number of the first field among the first `n` that has a name.
pub open spec fn first_named(fields: Seq<FieldSpec>, name: Seq<char>, n: int) -> Option<int>
    decreases n,
{
    if n <= 0 {
        None
    } else {
        match first_named(fields, name, n - 1) {
            Some(i) => Some(i),
            None => if fields[n - 1].name == name {
                Some(n - 1)
            } else {
                None
            },
        }
    }
}

/// The number of the field with a name.
pub open spec fn field_number(fields: Seq<FieldSpec>, name: Seq<char>) -> Option<int> {
    first_named(fields, name, fields.len() as int)
}

/// The fields of a document that the members of an object stand for, each with its values; the
/// first member that stands for none decides the failure.
pub open spec fn member_entries(
    fields: Seq<FieldSpec>,
    members: Seq<(Seq<char>, Json)>,
) -> Result<Seq<(u16, Seq<ValueView>)>, IndexFault>
    decreases members.len(),
{
    if members.len() == 0 {
        Ok(Seq::empty())
    } else {
        match member_entries(fields, members.drop_last()) {
            Err(fault) => Err(fault),
            Ok(front) => match field_number(fields, members.last().0) {
                None => Err(IndexFault::UnknownField(members.last().0)),
                Some(number) => match json_values(members.last().1) {
                    Err(fault) => Err(fault),
                    Ok(values) => Ok(front.push((number as u16, values))),
                },
            },
        }
    }
}

/// The document that an id and the members of an object stand for, or why the index refuses it.
pub open spec fn member_document(
    fields: Seq<FieldSpec>,
    id: Seq<char>,
    members: Seq<(Seq<char>, Json)>,
) -> Result<DocumentView, IndexFault> {
    match member_entries(fields, members) {
        Err(fault) => Err(fault),
        Ok(entries) => {
            let document = DocumentView { id, entries };
            match document_fault(fields, document) {
                Some(message) => Err(IndexFault::Indexer(message)),
                None => Ok(document),
            }
        },
    }
}

/// The document that an id and a text stand for, or why the index refuses them.
pub open spec fn text_document(
    fields: Seq<FieldSpec>,
    id: Seq<char>,
    text: Seq<char>,
) -> Result<DocumentView, IndexFault> {
    match parsed_object(text) {
        Err(message) => Err(IndexFault::Json(message)),
        Ok(members) => member_document(fields, id, members),
    }
}

/// An index after a document was put in: the schema and what is on record stay, one more change
/// is counted, the tables are some that the document can make of them, and the document stands
/// under its id. Where the numbers of the documents or of their words are used up, nothing is said
/// of the documents.
pub open spec fn upserted(
    before: IndexState,
    after: IndexState,
    document: DocumentView,
) -> bool {
    let put = after_upsert(before, document, after.tables, after.words);
    &&& can_become(before.fields, before.tables, document, after.tables)
    &&& after.fields == put.fields
    &&& after.sequence == put.sequence
    &&& after.persisted == put.persisted
    &&& after.words <= before.words + most_words(document)
    &&& has_room(before, document) ==> after == put
}

/// What a list of texts stands for.
pub open spec fn texts(list: Seq<String>) -> Seq<Seq<char>> {
    list.map_values(|s: String| s@)
}

/// The ids among `ids` that documents of the index have.
pub open spec fn present(state: IndexState, ids: Seq<Seq<char>>) -> Set<Seq<char>> {
    state.documents.dom().intersect(ids.to_set())
}

/// The index can count the documents that are to be taken out.
pub open spec fn can_count(state: IndexState, ids: Seq<Seq<char>>) -> bool {
    state.sequence + present(state, ids).len() <= u64::MAX
}

/// An index without documents.
pub open spec fn empty_index(fields: Seq<FieldSpec>) -> IndexState {
    IndexState {
        fields,
        documents: Map::empty(),
        tables: new_tables(fields),
        words: 0,
        sequence: 0,
        persisted: 0,
        sound: true,
    }
}

/// The index that bytes stand for as a checkpoint under a schema, or why they stand for none.
pub open spec fn checkpoint_index(fields: Seq<FieldSpec>, bytes: Seq<u8>) -> Result<
    IndexState,
    IndexFault,
> {
    match decoded_checkpoint(fields, bytes) {
        Err(message) => Err(IndexFault::Indexer(message)),
        Ok(state) => Ok(state),
    }
}

/// The request that a query and its options stand for in an index that gives back the values of
/// the fields `shown`, or why they stand for none.
pub open spec fn requested(
    fields: Seq<FieldSpec>,
    shown: Seq<u16>,
    query: Seq<char>,
    options: SearchOpts,
) -> Result<RequestView, IndexFault> {
    let number = match options.field {
        Some(name) => field_number(fields, name@),
        None => first_text(fields, fields.len() as int),
    };
    match number {
        None => Err(IndexFault::UnknownField(options.field->Some_0@)),
        Some(field) => Ok(
            RequestView {
                field: field as u16,
                query,
                mode: named_mode(
                    match options.mode {
                        Some(mode) => Some(mode@),
                        None => None,
                    },
                ),
                limit: match options.limit {
                    Some(limit) => limit as nat,
                    None => 10,
                },
                offset: match options.offset {
                    Some(offset) => offset as nat,
                    None => 0,
                },
                stored_fields: if options.stored_fields == Some(true) {
                    shown
                } else {
                    Seq::empty()
                },
                highlight_fields: if options.highlight == Some(true) {
                    seq![field as u16]
                } else {
                    Seq::empty()
                },
            },
        ),
    }
}

/// The options that a caller gives, or those that say nothing.
pub open spec fn given(options: Option<SearchOpts>) -> SearchOpts {
    match options {
        Some(options) => options,
        None => SearchOpts {
            field: None,
            mode: None,
            limit: None,
            offset: None,
            highlight: None,
            stored_fields: None,
        },
    }
}

/// An index in which the changes up to a number are known to be on record.
pub open spec fn acknowledged(state: IndexState, sequence: u64) -> IndexState {
    IndexState {
        persisted: if sequence > state.persisted {
            sequence
        } else {
            state.persisted
        },
        ..state
    }
}

/// How the index can refuse a request.
pub open spec fn refused(state: IndexState, request: RequestView, fault: IndexFault) -> bool {
    &&& fault matches IndexFault::Indexer(message)
    &&& verdict(state.fields, request, Some(message))
}

/// In-memory multilingual full-text index.
pub struct SearchIndex {
    schema: memory_indexer::Schema,
    fields: Vec<(String, u16)>,
    stored_fields: Vec<u16>,
    default_text_field: u16,
    index: MemoryIndex,
    checkpoint_sequence: u64,
}

impl View for SearchIndex {
    type V = IndexState;

    closed spec fn view(&self) -> IndexState {
        index_state(self.index)
    }
}

impl SearchIndex {
    /// The numbers of the fields whose values a search gives back.
    pub closed spec fn shown(&self) -> Seq<u16> {
        self.stored_fields@
    }

    /// The change sequence of the latest checkpoint; zero where there was none.
    pub closed spec fn latest(&self) -> u64 {
        self.checkpoint_sequence
    }

    /// What holds of every index: the tables of fields agree with the schema, and neither is more
    /// on record than was changed nor was there a checkpoint of more.
    pub closed spec fn inv(&self) -> bool {
        &&& is_plain(self.schema)
        &&& schema_fields(self.schema) == self@.fields
        &&& self@.fields.len() <= 0x1_0000
        &&& numbered(self.fields@, self@.fields)
        &&& can_show(self@.fields, self.stored_fields@)
        &&& first_text(self@.fields, self@.fields.len() as int) == Some(
            self.default_text_field as int,
        )
        &&& self@.persisted <= self@.sequence
        &&& self.checkpoint_sequence <= self@.sequence
        &&& counted(self@)
    }

    /// What the invariant of an index says to its users: no more is on record than was changed,
    /// the latest checkpoint is not ahead of the index, the fields whose values are given back
    /// keep them, there is a first text field, and the documents can be counted.
    pub proof fn law_invariant(&self)
        requires
            self.inv(),
        ensures
            self@.persisted <= self@.sequence,
            self.latest() <= self@.sequence,
            can_show(self@.fields, self.shown()),
            first_text(self@.fields, self@.fields.len() as int) is Some,
            self@.fields.len() <= 0x1_0000,
            counted(self@),
    {
    }

    /// Creates an empty index. Without a schema a single text field `content` (pinyin, prefix,
    /// fuzzy and positions) is used.
    pub fn new(schema: Option<SchemaDef>) -> (r: Result<SearchIndex, IndexError>)
        requires
            numbers_suffice(declared(schema)),
        ensures
            match r {
                Ok(index) => {
                    &&& index.inv()
                    &&& built(declared(schema)) == Ok::<_, IndexFault>(index@.fields)
                    &&& index@ == empty_index(index@.fields)
                    &&& index.shown() == shown_fields(declared(schema))
                    &&& index.latest() == 0
                },
                Err(e) => built(declared(schema)) == Err::<Seq<FieldSpec>, _>(e@),
            },
    {
        match build_schema(schema) {
            Err(e) => Err(e),
            Ok((made, fields, stored_fields, default_text_field)) => {
                proof {
                    lemma_field_count(declared(schema));
                    lemma_can_show(declared(schema));
                }
                let index = MemoryIndex::new(made.clone());
                Ok(
                    SearchIndex {
                        schema: made,
                        fields,
                        stored_fields,
                        default_text_field,
                        index,
                        checkpoint_sequence: 0,
                    },
                )
            },
        }
    }

    /// Creates an index from a checkpoint produced by [`SearchIndex::checkpoint`]. Bytes
    /// that pass for a checkpoint but that no index wrote are not told apart: the indexer may panic
    /// as it reads them, where they claim more than memory holds, and it may make an index of them
    /// on which changes and searches panic, one that is not sound.
    pub fn from_checkpoint(schema: Option<SchemaDef>, bytes: Vec<u8>) -> (r: Result<
        SearchIndex,
        IndexError,
    >)
        requires
            numbers_suffice(declared(schema)),
        ensures
            match r {
                Ok(index) => {
                    &&& index.inv()
                    &&& built(declared(schema)) == Ok::<_, IndexFault>(index@.fields)
                    &&& checkpoint_index(index@.fields, bytes@) == Ok::<_, IndexFault>(index@)
                    &&& index.shown() == shown_fields(declared(schema))
                    &&& index.latest() == index@.sequence
                    &&& index@.persisted == index@.sequence
                },
                Err(e) => match built(declared(schema)) {
                    Err(fault) => e@ == fault,
                    Ok(fields) => checkpoint_index(fields, bytes@) == Err::<IndexState, _>(e@),
                },
            },
    {
        match build_schema(schema) {
            Err(e) => Err(e),
            Ok((made, fields, stored_fields, default_text_field)) => {
                proof {
                    lemma_field_count(declared(schema));
                    lemma_can_show(declared(schema));
                }
                match MemoryIndex::from_checkpoint(made.clone(), bytes.as_slice()) {
                    Err(e) => Err(IndexError::Indexer(write_indexer_error(&e))),
                    Ok(index) => {
                        let checkpoint_sequence: u64 = index.change_sequence();
                        Ok(
                            SearchIndex {
                                schema: made,
                                fields,
                                stored_fields,
                                default_text_field,
                                index,
                                checkpoint_sequence,
                            },
                        )
                    },
                }
            },
        }
    }

    /// The number of the field with a name.
    fn find_field(&self, name: &str) -> (r: Option<u16>)
        requires
            self.inv(),
        ensures
            match r {
                Some(number) => field_number(self@.fields, name@) == Some(number as int),
                None => field_number(self@.fields, name@) is None,
            },
    {
        for i in 0..self.fields.len()
            invariant
                self.inv(),
                first_named(self@.fields, name@, i as int) is None,
        {
            if self.fields[i].0.as_str().eq(name) {
                proof {
                    lemma_first_named_stays(self@.fields, name@, i + 1, self@.fields.len() as int);
                }
                return Some(self.fields[i].1);
            }
        }
        None
    }

    /// Inserts or replaces one document. `fields_json` maps the name of a field to its value: a
    /// string, an integer, a boolean or an array of those. A document that the index takes in has
    /// to be one that it can count and cut into words; [`SearchIndex::try_upsert`] tests that.
    pub fn upsert(&mut self, id: String, fields_json: String) -> (r: Result<(), IndexError>)
        requires
            old(self).inv(),
            old(self)@.sound,
            text_document(old(self)@.fields, id@, fields_json@) is Ok ==> {
                &&& old(self)@.sequence < u64::MAX
                &&& fields_json@.len() <= MAX_TEXT
            },
        ensures
            final(self).inv(),
            match r {
                Ok(_) => {
                    &&& text_document(old(self)@.fields, id@, fields_json@) matches Ok(document)
                    &&& upserted(old(self)@, final(self)@, document)
                    &&& final(self).shown() == old(self).shown()
                    &&& final(self).latest() == old(self).latest()
                },
                Err(e) => {
                    &&& text_document(old(self)@.fields, id@, fields_json@) == Err::<
                        DocumentView,
                        _,
                    >(e@)
                    &&& *final(self) == *old(self)
                },
            },
    {
        match parse_object(fields_json.as_str()) {
            Err(e) => Err(IndexError::Json(write_json_error(&e))),
            Ok(members) => self.upsert_members(id, members),
        }
    }

    /// Inserts or replaces one document as [`SearchIndex::upsert`] does; gives nothing, and does
    /// nothing, where the index can count no further change or the text is too long.
    pub fn try_upsert(&mut self, id: String, fields_json: String) -> (r: Option<
        Result<(), IndexError>,
    >)
        requires
            old(self).inv(),
            old(self)@.sound,
        ensures
            final(self).inv(),
            r is None <==> old(self)@.sequence == u64::MAX || fields_json@.len() > MAX_TEXT,
            match r {
                None => *final(self) == *old(self),
                Some(Ok(_)) => {
                    &&& text_document(old(self)@.fields, id@, fields_json@) matches Ok(document)
                    &&& upserted(old(self)@, final(self)@, document)
                    &&& final(self).shown() == old(self).shown()
                    &&& final(self).latest() == old(self).latest()
                },
                Some(Err(e)) => {
                    &&& text_document(old(self)@.fields, id@, fields_json@) == Err::<
                        DocumentView,
                        _,
                    >(e@)
                    &&& *final(self) == *old(self)
                },
            },
    {
        if self.can_change(1) && fields_json.as_str().unicode_len() <= MAX_TEXT {
            Some(self.upsert(id, fields_json))
        } else {
            None
        }
    }

    /// Inserts or replaces one document, given the members of the object that describes it.
    pub fn upsert_members(
        &mut self,
        id: String,
        members: Vec<(String, serde_json::Value)>,
    ) -> (r: Result<(), IndexError>)
        requires
            old(self).inv(),
            old(self)@.sound,
            distinct_names(member_views(members@)),
            member_document(old(self)@.fields, id@, member_views(members@)) is Ok ==> {
                &&& old(self)@.sequence < u64::MAX
                &&& members_size(member_views(members@)) <= MAX_TEXT
            },
        ensures
            final(self).inv(),
            match r {
                Ok(_) => {
                    &&& member_document(old(self)@.fields, id@, member_views(members@)) matches Ok(
                        document,
                    )
                    &&& upserted(old(self)@, final(self)@, document)
                    &&& final(self).shown() == old(self).shown()
                    &&& final(self).latest() == old(self).latest()
                },
                Err(e) => {
                    &&& member_document(old(self)@.fields, id@, member_views(members@)) == Err::<
                        DocumentView,
                        _,
                    >(e@)
                    &&& *final(self) == *old(self)
                },
            },
    {
        let ghost all = member_views(members@);
        let ghost fields = self@.fields;
        let ghost name = id@;
        let mut document = new_document(id);
        assert(all.take(0) =~= Seq::empty());
        for i in 0..members.len()
            invariant
                self.inv(),
                *self == *old(self),
                fields == self@.fields,
                all == member_views(members@),
                distinct_names(all),
                document_of(document).id == name,
                name == id@,
                document_of(document).entries.len() == i,
                member_entries(fields, all.take(i as int)) == Ok::<_, IndexFault>(
                    document_of(document).entries,
                ),
                known_entries(fields, document_of(document).entries),
                forall|k: int|
                    0 <= k < i ==> fields[(#[trigger] document_of(document).entries[k]).0 as int].name
                        == all[k].0,
        {
            proof {
                assert(all.take(i + 1).drop_last() =~= all.take(i as int));
                assert(all.take(i + 1).last() == all[i as int]);
            }
            let (member, value) = &members[i];
            match self.find_field(member.as_str()) {
                None => {
                    proof {
                        lemma_member_fault_stays(fields, all, i + 1);
                    }
                    return Err(IndexError::UnknownField(member.clone()));
                },
                Some(number) => match json_to_values(value) {
                    Err(e) => {
                        proof {
                            lemma_member_fault_stays(fields, all, i + 1);
                        }
                        return Err(e);
                    },
                    Ok(values) => {
                        proof {
                            lemma_first_named(fields, all[i as int].0, fields.len() as int);
                        }
                        add_entry(&mut document, number, values);
                    },
                },
            }
        }
        assert(all.take(all.len() as int) =~= all);
        proof {
            lemma_members_size(fields, all);
        }
        match put_document(&mut self.index, document) {
            Err(e) => Err(IndexError::Indexer(write_indexer_error(&e))),
            Ok(_) => Ok(()),
        }
    }

    /// Deletes documents by id; returns the number actually removed.
    pub fn delete(&mut self, ids: Vec<String>) -> (r: u32)
        requires
            old(self).inv(),
            old(self)@.sound,
            can_count(old(self)@, texts(ids@)),
        ensures
            final(self).inv(),
            r == present(old(self)@, texts(ids@)).len(),
            final(self)@ == after_deletes(old(self)@, texts(ids@)),
            final(self)@.fields == old(self)@.fields,
            final(self)@.documents == old(self)@.documents.remove_keys(texts(ids@).to_set()),
            final(self)@.documents.len() == old(self)@.documents.len() - r,
            final(self)@.sequence == old(self)@.sequence + r,
            final(self)@.persisted == old(self)@.persisted,
            final(self)@.sound,
            final(self).shown() == old(self).shown(),
            final(self).latest() == old(self).latest(),
    {
        let ghost before = self@;
        let ghost all = texts(ids@);
        let mut removed: u32 = 0;
        proof {
            assert(all.take(0) =~= Seq::empty());
            assert(present(before, all.take(0)) =~= Set::empty());
            assert(before.documents.remove_keys(all.take(0).to_set()) =~= before.documents);
        }
        for i in 0..ids.len()
            invariant
                self.inv(),
                before == old(self)@,
                all == texts(ids@),
                before.sound,
                counted(before),
                can_count(before, all),
                self.shown() == old(self).shown(),
                self.latest() == old(self).latest(),
                self@ == after_deletes(before, all.take(i as int)),
                self@.fields == before.fields,
                self@.persisted == before.persisted,
                self@.sequence == before.sequence + removed,
                removed == present(before, all.take(i as int)).len(),
                self@.documents == before.documents.remove_keys(all.take(i as int).to_set()),
                self@.documents.len() == before.documents.len() - removed,
                self@.sound,
        {
            proof {
                lemma_present_step(before, all, i as int);
                assert(all.take(i + 1).drop_last() =~= all.take(i as int));
                assert(all.take(i + 1).last() == all[i as int]);
            }
            if self.index.delete(ids[i].as_str()) {
                removed = removed + 1;
            }
            proof {
                assert(self@.documents =~= before.documents.remove_keys(all.take(i + 1).to_set()))
                    by {
                    lemma_take_set(all, i as int);
                }
            }
        }
        assert(all.take(all.len() as int) =~= all);
        removed
    }

    /// Whether the index can count a number of further changes.
    pub fn can_change(&self, changes: u64) -> (r: bool)
        ensures
            r == (self@.sequence + changes <= u64::MAX),
    {
        self.index.change_sequence() <= u64::MAX - changes
    }

    /// The request that a query and its options stand for.
    pub fn search_request(&self, query: String, options: SearchOpts) -> (r: Result<
        SearchRequest,
        IndexError,
    >)
        requires
            self.inv(),
        ensures
            match r {
                Ok(request) => {
                    &&& requested(self@.fields, self.shown(), query@, options) == Ok::<_, IndexFault>(request@)
                    &&& known_fields(self@.fields, request@)
                },
                Err(e) => requested(self@.fields, self.shown(), query@, options) == Err::<RequestView, _>(e@),
            },
    {
        proof {
            lemma_first_text(self@.fields, self@.fields.len() as int);
            if options.field is Some {
                lemma_first_named(
                    self@.fields,
                    options.field->Some_0@,
                    self@.fields.len() as int,
                );
            }
        }
        let field: u16 = match &options.field {
            Some(name) => match self.find_field(name.as_str()) {
                Some(number) => number,
                None => {
                    return Err(IndexError::UnknownField(name.clone()));
                },
            },
            None => self.default_text_field,
        };
        let mode = match &options.mode {
            Some(name) => parse_mode(Some(name.as_str())),
            None => parse_mode(None),
        };
        let stored_fields = if options.stored_fields.unwrap_or(false) {
            copy_numbers(&self.stored_fields)
        } else {
            Vec::new()
        };
        let highlight_fields = if options.highlight.unwrap_or(false) {
            vec![field]
        } else {
            Vec::new()
        };
        assert(highlight_fields@ =~= if options.highlight == Some(true) {
            seq![field]
        } else {
            Seq::empty()
        });
        Ok(
            SearchRequest {
                field,
                query,
                mode,
                limit: options.limit.unwrap_or(10),
                offset: options.offset.unwrap_or(0),
                stored_fields,
                highlight_fields,
            },
        )
    }

    /// Full-text search. Returns JSON `{ total, hits: [{ id, score, fields, highlights }] }`.
    pub fn search(&self, query: String, options: Option<SearchOpts>) -> (r: Result<
        String,
        IndexError,
    >)
        requires
            self.inv(),
            self@.sound,
            query@.len() <= MAX_TEXT,
        ensures
            match r {
                Ok(text) => {
                    &&& requested(self@.fields, self.shown(), query@, given(options)) matches Ok(request)
                    &&& verdict(self@.fields, request, None)
                    &&& exists|result: ResultView|
                        {
                            &&& #[trigger] can_answer(
                                self@.fields,
                                self@.tables,
                                request,
                                result,
                            )
                            &&& answers(self@, request, result)
                            &&& text@ == json_text(result_json(self@.fields, result))
                        }
                },
                Err(e) => match requested(self@.fields, self.shown(), query@, given(options)) {
                    Err(fault) => e@ == fault,
                    Ok(request) => refused(self@, request, e@),
                },
            },
    {
        let options = match options {
            Some(options) => options,
            None => SearchOpts::default(),
        };
        let request = match self.search_request(query, options) {
            Ok(request) => request,
            Err(e) => {
                return Err(e);
            },
        };
        match run_search(&self.index, request) {
            Err(e) => Err(IndexError::Indexer(write_indexer_error(&e))),
            Ok(result) => {
                assert(can_answer(self@.fields, self@.tables, request@, result@));
                match write_json(&serialize_result(&self.schema, &result)) {
                    Err(e) => Err(IndexError::Json(write_json_error(&e))),
                    Ok(text) => Ok(text),
                }
            },
        }
    }

    /// Number of live documents.
    pub fn len(&self) -> (r: u32)
        requires
            self.inv(),
        ensures
            self@.sound ==> r == self@.documents.len(),
    {
        self.index.len() as u32
    }

    /// Compressed snapshot bytes.
    pub fn checkpoint(&mut self) -> (r: Result<Vec<u8>, IndexError>)
        requires
            old(self).inv(),
        ensures
            final(self).inv(),
            match r {
                Ok(bytes) => {
                    &&& old(self)@.sound ==> checkpoint_index(old(self)@.fields, bytes@) == Ok::<
                        _,
                        IndexFault,
                    >(recorded(old(self)@))
                    &&& final(self)@ == old(self)@
                    &&& final(self).shown() == old(self).shown()
                    &&& final(self).latest() == old(self)@.sequence
                },
                Err(e) => {
                    &&& exists|error: memory_indexer::Error|
                        e@ == IndexFault::Indexer(#[trigger] indexer_message(error))
                    &&& *final(self) == *old(self)
                },
            },
    {
        match write_checkpoint(&self.index) {
            Err(e) => Err(IndexError::Indexer(write_indexer_error(&e))),
            Ok(bytes) => {
                self.checkpoint_sequence = self.index.change_sequence();
                Ok(bytes)
            },
        }
    }

    /// Change sequence of the latest checkpoint: the last one taken or loaded; zero where there
    /// was none.
    pub fn sequence(&self) -> (r: i64)
        ensures
            r == self.latest() as i64,
    {
        self.checkpoint_sequence as i64
    }

    /// Whether there are changes that were not acknowledged as persisted.
    pub fn has_unpersisted_changes(&self) -> (r: bool)
        ensures
            r == (self@.sequence > self@.persisted),
    {
        self.index.has_unpersisted_changes()
    }

    /// Acknowledges that `sequence` was persisted.
    pub fn mark_persisted(&mut self, sequence: i64) -> (r: Result<(), IndexError>)
        requires
            old(self).inv(),
        ensures
            final(self).inv(),
            match r {
                Ok(_) => {
                    &&& sequence as u64 <= old(self)@.sequence
                    &&& final(self)@ == acknowledged(old(self)@, sequence as u64)
                    &&& final(self).shown() == old(self).shown()
                    &&& final(self).latest() == old(self).latest()
                },
                Err(e) => {
                    &&& sequence as u64 > old(self)@.sequence
                    &&& e@ == IndexFault::Indexer(
                        future_fault(sequence as u64, old(self)@.sequence),
                    )
                    &&& *final(self) == *old(self)
                },
            },
    {
        match self.index.mark_checkpoint_persisted(sequence as u64) {
            Err(e) => Err(IndexError::Indexer(write_indexer_error(&e))),
            Ok(_) => Ok(()),
        }
    }

    /// Loads a checkpoint, replacing the current contents. What is said at
    /// [`SearchIndex::from_checkpoint`] of bytes that no index wrote holds here too.
    pub fn load(&mut self, bytes: Vec<u8>) -> (r: Result<(), IndexError>)
        requires
            old(self).inv(),
        ensures
            final(self).inv(),
            match r {
                Ok(_) => {
                    &&& checkpoint_index(old(self)@.fields, bytes@) == Ok::<_, IndexFault>(
                        final(self)@,
                    )
                    &&& final(self)@.fields == old(self)@.fields
                    &&& final(self)@.persisted == final(self)@.sequence
                    &&& final(self).shown() == old(self).shown()
                    &&& final(self).latest() == final(self)@.sequence
                },
                Err(e) => {
                    &&& checkpoint_index(old(self)@.fields, bytes@) == Err::<IndexState, _>(e@)
                    &&& *final(self) == *old(self)
                },
            },
    {
        match MemoryIndex::from_checkpoint(self.schema.clone(), bytes.as_slice()) {
            Err(e) => Err(IndexError::Indexer(write_indexer_error(&e))),
            Ok(index) => {
                self.checkpoint_sequence = index.change_sequence();
                self.index = index;
                Ok(())
            },
        }
    }
}

/// A copy of a list of field numbers.
fn copy_numbers(numbers: &Vec<u16>) -> (r: Vec<u16>)
    ensures
        r@ == numbers@,
{
    let mut copy: Vec<u16> = Vec::new();
    for i in 0..numbers.len()
        invariant
            copy@ =~= numbers@.take(i as int),
    {
        copy.push(numbers[i]);
    }
    assert(numbers@.take(numbers@.len() as int) =~= numbers@);
    copy
}

/// One more element of a list is one more element of its set.
proof fn lemma_take_set(all: Seq<Seq<char>>, i: int)
    requires
        0 <= i < all.len(),
    ensures
        all.take(i + 1).to_set() == all.take(i).to_set().insert(all[i]),
{
    assert(all.take(i + 1) =~= all.take(i).push(all[i]));
    all.take(i).lemma_push_to_set_commute(all[i]);
}

/// How many documents are to be taken out grows by one with an id of a document that is still
/// there, and with no other.
proof fn lemma_present_step(state: IndexState, all: Seq<Seq<char>>, i: int)
    requires
        0 <= i < all.len(),
        state.documents.dom().finite(),
    ensures
        ({
            let left = state.documents.remove_keys(all.take(i).to_set());
            let next = present(state, all.take(i)).len() + (if left.contains_key(all[i]) {
                1int
            } else {
                0int
            });
            &&& present(state, all.take(i + 1)).len() == next
            &&& next <= present(state, all).len() <= state.documents.len()
        }),
{
    lemma_take_set(all, i);
    let now = present(state, all.take(i));
    let left = state.documents.remove_keys(all.take(i).to_set());
    if left.contains_key(all[i]) {
        assert(present(state, all.take(i + 1)) =~= now.insert(all[i]));
    } else {
        assert(present(state, all.take(i + 1)) =~= now);
    }
    assert(present(state, all.take(i + 1)).subset_of(present(state, all))) by {
        let front = all.take(i + 1);
        assert forall|x: Seq<char>| front.contains(x) implies all.contains(x) by {
            let k = choose|k: int| 0 <= k < front.len() && front[k] == x;
            assert(all[k] == x);
        }
    }
    vstd::set_lib::lemma_len_subset(present(state, all.take(i + 1)), present(state, all));
    vstd::set_lib::lemma_len_subset(present(state, all), state.documents.dom());
}

/// Once the first of some fields with a name is found, further fields do not change it.
proof fn lemma_first_named_stays(fields: Seq<FieldSpec>, name: Seq<char>, n: int, m: int)
    requires
        0 <= n <= m <= fields.len(),
        first_named(fields, name, n) is Some,
    ensures
        first_named(fields, name, m) == first_named(fields, name, n),
    decreases m - n,
{
    if n < m {
        lemma_first_named_stays(fields, name, n, m - 1);
    }
}

/// The field that is found under a name has that name.
proof fn lemma_first_named(fields: Seq<FieldSpec>, name: Seq<char>, n: int)
    requires
        0 <= n <= fields.len(),
    ensures
        first_named(fields, name, n) matches Some(i) ==> 0 <= i < n && fields[i].name == name,
    decreases n,
{
    if n > 0 {
        lemma_first_named(fields, name, n - 1);
    }
}

/// The document that members stand for has their texts.
proof fn lemma_members_size(fields: Seq<FieldSpec>, members: Seq<(Seq<char>, Json)>)
    ensures
        member_entries(fields, members) matches Ok(entries) ==> entries_size(entries)
            == members_size(members),
    decreases members.len(),
{
    if members.len() > 0 {
        lemma_members_size(fields, members.drop_last());
        lemma_json_size(members.last().1);
        if let Ok(entries) = member_entries(fields, members) {
            assert(entries.drop_last() =~= member_entries(fields, members.drop_last())->Ok_0);
        }
    }
}

/// Once a prefix of the members stands for no fields, all of them fail in the same way.
proof fn lemma_member_fault_stays(
    fields: Seq<FieldSpec>,
    members: Seq<(Seq<char>, Json)>,
    n: int,
)
    requires
        0 <= n <= members.len(),
        member_entries(fields, members.take(n)) is Err,
    ensures
        member_entries(fields, members) == member_entries(fields, members.take(n)),
    decreases members.len() - n,
{
    if n < members.len() {
        assert(members.take(n + 1).drop_last() =~= members.take(n));
        lemma_member_fault_stays(fields, members, n + 1);
    } else {
        assert(members.take(n) =~= members);
    }
}

} // verus!
