//! The laws of the full-text index: what holds across its operations.
use vstd::prelude::*;

use crate::engine::{
    after_upsert, counted, document_fault, entries_fault, entry_fault, fits, has_room, kept,
    known_entries, recorded, DocumentView, IndexState,
};
use crate::error::IndexFault;
use crate::index::{
    acknowledged, checkpoint_index, field_number, first_named, given,
    member_document, member_entries, present, requested, upserted,
};
use crate::json::{
    all_json_values, json_values, value_json, values_json, Json, JsonNumber,
};
use crate::schema::{
    bad_name, built, default_defs, field_spec, field_specs, first_text, lemma_field_count, lemma_field_specs,
    lemma_first_text, lemma_can_show, name_fault, numbers_suffice, shown_fields,
    FieldDefView, FieldSpec,
};
use crate::search::{
    answers, can_answer, can_highlight, first_unstored, hit_of, max_window, named_mode,
    request_fault, too_many_words, values_for, RequestView, ResultView, SearchOpts,
};
use crate::text::lower;
use crate::value::ValueView;

verus! {

/// A document that was put in stands under its id, every other document stays, and the number of
/// documents grows by one where the id is new and not at all where it replaces one.
pub proof fn law_upsert_keeps_others(
    before: IndexState,
    after: IndexState,
    document: DocumentView,
    other: Seq<char>,
)
    requires
        before.sound,
        counted(before),
        has_room(before, document),
        upserted(before, after, document),
    ensures
        after.documents.contains_key(document.id),
        after.documents[document.id] == kept(before.fields, document.entries),
        other != document.id ==> after.documents.contains_key(other)
            == before.documents.contains_key(other),
        other != document.id && before.documents.contains_key(other) ==> after.documents[other]
            == before.documents[other],
        after.documents.len() == before.documents.len() + (if before.documents.contains_key(
            document.id,
        ) {
            0int
        } else {
            1int
        }),
        after.sound,
{
}

/// Putting a document in twice leaves the same documents as putting it in once.
pub proof fn law_upsert_twice(
    state: IndexState,
    document: DocumentView,
    once: (Seq<u8>, nat),
    twice: (Seq<u8>, nat),
)
    ensures
        ({
            let first = after_upsert(state, document, once.0, once.1);
            after_upsert(first, document, twice.0, twice.1).documents == first.documents
        }),
{
    let first = after_upsert(state, document, once.0, once.1);
    assert(after_upsert(first, document, twice.0, twice.1).documents =~= first.documents);
}

/// A change that was made is not on record: after a document was put in, there are unpersisted
/// changes.
pub proof fn law_upsert_is_unpersisted(
    before: IndexState,
    after: IndexState,
    document: DocumentView,
)
    requires
        before.persisted <= before.sequence < u64::MAX,
        upserted(before, after, document),
    ensures
        after.sequence == before.sequence + 1,
        after.sequence > after.persisted,
{
}

/// Acknowledging the sequence of the latest checkpoint leaves no unpersisted changes where nothing
/// was changed since, and leaves them unpersisted where something was. Documents, and what a
/// search can answer, stay. The sequence passes through a signed integer unharmed.
pub proof fn law_acknowledged_checkpoint(
    state: IndexState,
    latest: u64,
    request: RequestView,
    result: ResultView,
)
    requires
        state.persisted <= latest <= state.sequence,
    ensures
        (latest as i64) as u64 == latest,
        ({
            let after = acknowledged(state, latest);
            &&& after.sequence > after.persisted <==> state.sequence > latest
            &&& after.documents == state.documents
            &&& can_answer(after.fields, after.tables, request, result) == can_answer(
                state.fields,
                state.tables,
                request,
                result,
            )
        }),
{
    assert((latest as i64) as u64 == latest) by (bit_vector);
}

/// What is on record never goes back, and it never outruns the changes that were made.
pub proof fn law_acknowledged_never_goes_back(state: IndexState, sequence: u64)
    requires
        state.persisted <= state.sequence,
        sequence <= state.sequence,
    ensures
        state.persisted <= acknowledged(state, sequence).persisted <= acknowledged(
            state,
            sequence,
        ).sequence,
{
}

/// An index that is read back from a checkpoint of another one has its documents and its
/// sequence, no unpersisted changes, and can answer every search as the other one can.
pub proof fn law_checkpoint_reads_back(
    before: IndexState,
    bytes: Seq<u8>,
    after: IndexState,
    request: RequestView,
    result: ResultView,
)
    requires
        checkpoint_index(before.fields, bytes) == Ok::<_, IndexFault>(recorded(before)),
        checkpoint_index(before.fields, bytes) == Ok::<_, IndexFault>(after),
    ensures
        after.fields == before.fields,
        after.documents == before.documents,
        after.documents.len() == before.documents.len(),
        after.sequence == before.sequence,
        !(after.sequence > after.persisted),
        after.sound == before.sound,
        can_answer(after.fields, after.tables, request, result) == can_answer(
            before.fields,
            before.tables,
            request,
            result,
        ),
{
}

/// One checkpoint gives one index: loading bytes into an index and making an index of them with
/// the same fields lead to the same documents and the same answers.
pub proof fn law_checkpoint_gives_one_index(
    fields: Seq<FieldSpec>,
    bytes: Seq<u8>,
    loaded: IndexState,
    made: IndexState,
)
    requires
        checkpoint_index(fields, bytes) == Ok::<_, IndexFault>(loaded),
        checkpoint_index(fields, bytes) == Ok::<_, IndexFault>(made),
    ensures
        loaded == made,
{
}

/// Deleted documents are gone, all others stay, the number of documents drops by those that were
/// there, and deleting the same ids again finds nothing.
pub proof fn law_delete(
    before: IndexState,
    after: IndexState,
    ids: Seq<Seq<char>>,
    id: Seq<char>,
)
    requires
        before.sound,
        counted(before),
        after.documents == before.documents.remove_keys(ids.to_set()),
    ensures
        ids.contains(id) ==> !after.documents.contains_key(id),
        !ids.contains(id) ==> after.documents.contains_key(id) == before.documents.contains_key(id),
        !ids.contains(id) && before.documents.contains_key(id) ==> after.documents[id]
            == before.documents[id],
        before.documents.len() - after.documents.len() == present(before, ids).len(),
        present(after, ids) == Set::<Seq<char>>::empty(),
        present(after, ids).len() == 0,
{
    assert(present(after, ids) =~= Set::empty());
    let gone = present(before, ids);
    assert(after.documents.dom() =~= before.documents.dom().difference(gone));
    assert(before.documents.dom().intersect(gone) =~= gone);
    vstd::set_lib::lemma_set_disjoint_lens(after.documents.dom(), gone);
    assert(after.documents.dom() + gone =~= before.documents.dom());
}

/// A document with an unknown field is refused.
pub proof fn law_unknown_field_is_refused(
    fields: Seq<FieldSpec>,
    id: Seq<char>,
    members: Seq<(Seq<char>, Json)>,
    k: int,
)
    requires
        0 <= k < members.len(),
        field_number(fields, members[k].0) is None,
    ensures
        member_entries(fields, members) is Err,
        member_document(fields, id, members) is Err,
        (forall|i: int|
            0 <= i < k ==> field_number(fields, (#[trigger] members[i]).0) is Some && json_values(
                members[i].1,
            ) is Ok) ==> member_document(fields, id, members) == Err::<DocumentView, _>(
            IndexFault::UnknownField(members[k].0),
        ),
    decreases members.len(),
{
    let front = members.drop_last();
    if k < members.len() - 1 {
        law_unknown_field_is_refused(fields, id, front, k);
        assert(front[k] == members[k]);
        if forall|i: int|
            0 <= i < k ==> field_number(fields, (#[trigger] members[i]).0) is Some && json_values(
                members[i].1,
            ) is Ok {
            assert forall|i: int| 0 <= i < k implies field_number(fields, (#[trigger] front[i]).0)
                is Some && json_values(front[i].1) is Ok by {
                assert(front[i] == members[i]);
            }
        }
    } else {
        if forall|i: int|
            0 <= i < k ==> field_number(fields, (#[trigger] members[i]).0) is Some && json_values(
                members[i].1,
            ) is Ok {
            assert forall|i: int| 0 <= i < front.len() implies field_number(
                fields,
                (#[trigger] front[i]).0,
            ) is Some && json_values(front[i].1) is Ok by {
                assert(front[i] == members[i]);
            }
            lemma_known_members(fields, front);
        }
    }
}

/// Members that have fields and values stand for entries.
proof fn lemma_known_members(fields: Seq<FieldSpec>, members: Seq<(Seq<char>, Json)>)
    requires
        forall|i: int|
            0 <= i < members.len() ==> field_number(fields, (#[trigger] members[i]).0) is Some
                && json_values(members[i].1) is Ok,
    ensures
        member_entries(fields, members) is Ok,
    decreases members.len(),
{
    if members.len() > 0 {
        let front = members.drop_last();
        assert forall|i: int| 0 <= i < front.len() implies field_number(
            fields,
            (#[trigger] front[i]).0,
        ) is Some && json_values(front[i].1) is Ok by {
            assert(front[i] == members[i]);
        }
        lemma_known_members(fields, front);
        assert(members[members.len() - 1] == members.last());
    }
}

/// A JSON value that a field can take: a string, a boolean, an integer of 64 bits, nothing, or an
/// array of such values.
pub open spec fn acceptable(json: Json) -> bool
    decreases json,
{
    match json {
        Json::Null => true,
        Json::Bool(_) => true,
        Json::Text(_) => true,
        Json::Num(JsonNumber::Integer(i)) => i64::MIN <= i <= i64::MAX,
        Json::Num(JsonNumber::Fraction(_)) => false,
        Json::Array(items) => forall|k: int|
            0 <= k < items.len() ==> acceptable(#[trigger] items[k]),
        Json::Object(_) => false,
    }
}

/// A field takes a value just where it is a string, a boolean, an integer of 64 bits, nothing or
/// an array of such values; fractions, larger numbers and objects are refused, in arrays too.
pub proof fn law_accepted_values(json: Json)
    ensures
        json_values(json) is Ok <==> acceptable(json),
    decreases json,
{
    if let Json::Array(items) = json {
        lemma_all_accepted(items);
    }
}

/// Several values are taken where each of them is.
proof fn lemma_all_accepted(items: Seq<Json>)
    ensures
        all_json_values(items) is Ok <==> forall|k: int|
            0 <= k < items.len() ==> acceptable(#[trigger] items[k]),
    decreases items,
{
    if items.len() > 0 {
        let front = items.drop_last();
        lemma_all_accepted(front);
        law_accepted_values(items.last());
        if forall|k: int| 0 <= k < items.len() ==> acceptable(#[trigger] items[k]) {
            assert forall|k: int| 0 <= k < front.len() implies acceptable(#[trigger] front[k]) by {
                assert(front[k] == items[k]);
            }
            assert(items[items.len() - 1] == items.last());
        }
        if all_json_values(items) is Ok {
            assert forall|k: int| 0 <= k < items.len() implies acceptable(#[trigger] items[k]) by {
                if k < front.len() {
                    assert(front[k] == items[k]);
                }
            }
        }
    }
}

/// The values that a search gives back for a field can be put in again and stand for the same
/// values.
pub proof fn law_shown_values_read_back(values: Seq<ValueView>)
    ensures
        json_values(values_json(values)) == Ok::<_, IndexFault>(values),
{
    if values.len() == 1 {
        assert(seq![values[0]] =~= values);
    } else {
        lemma_shown_array(values);
    }
}

/// An array of values stands for the values.
proof fn lemma_shown_array(values: Seq<ValueView>)
    ensures
        all_json_values(values.map_values(|v: ValueView| value_json(v))) == Ok::<_, IndexFault>(
            values,
        ),
    decreases values.len(),
{
    let items = values.map_values(|v: ValueView| value_json(v));
    if values.len() > 0 {
        let front = values.drop_last();
        lemma_shown_array(front);
        assert(items.drop_last() =~= front.map_values(|v: ValueView| value_json(v)));
        assert(items.last() == value_json(values.last()));
        assert(json_values(items.last()) == Ok::<_, IndexFault>(seq![values.last()]));
        assert(front + seq![values.last()] =~= values);
    } else {
        assert(values =~= Seq::empty());
    }
}

/// The name of a mode is read in whatever case.
pub proof fn law_mode_ignores_case(a: Seq<char>, b: Seq<char>)
    requires
        lower(a) == lower(b),
    ensures
        named_mode(Some(a)) == named_mode(Some(b)),
{
}

/// Without a schema an index can always be made: it has the one text field `content`, in which
/// searches look.
pub proof fn law_default_schema()
    ensures
        numbers_suffice(default_defs()),
        built(default_defs()) matches Ok(fields) && fields.len() == 1 && fields[0].name
            == "content"@ && fields[0].kind is Text && first_text(fields, 1) == Some(0int),
{
    let defs = default_defs();
    reveal_strlit("content");
    assert(defs.drop_last() =~= Seq::empty());
    assert(field_specs(defs.drop_last()) == Ok::<Seq<FieldSpec>, Seq<char>>(Seq::empty()));
    assert(field_spec(defs.last()) is Some);
    let fields = field_specs(defs)->Ok_0;
    assert(fields =~= seq![field_spec(defs[0])->Some_0]);
    assert(name_fault(fields, 0) is None);
    assert(name_fault(fields, 1) is None);
    assert(first_text(fields, 0) is None);
}

/// A schema that was built has as many fields as were declared, each under the name that it was
/// declared with; no name is empty, no two are the same, and the first text field, in which
/// searches look where they name none, exists.
pub proof fn law_built_schema(defs: Seq<FieldDefView>)
    requires
        built(defs) is Ok,
    ensures
        ({
            let fields = built(defs)->Ok_0;
            &&& fields.len() == defs.len()
            &&& forall|i: int|
                0 <= i < defs.len() ==> field_spec(#[trigger] defs[i]) == Some(fields[i])
                    && fields[i].name == defs[i].name
            &&& forall|i: int|
                0 <= i < fields.len() ==> (#[trigger] fields[i]).name.len() > 0 && field_number(
                    fields,
                    fields[i].name,
                ) == Some(i)
            &&& forall|i: int, j: int|
                0 <= i < j < fields.len() ==> (#[trigger] fields[i]).name != (
                #[trigger] fields[j]).name
            &&& first_text(fields, fields.len() as int) matches Some(t) && 0 <= t < fields.len()
                && fields[t].kind is Text && forall|i: int|
                0 <= i < t ==> !((#[trigger] fields[i]).kind is Text)
        }),
{
    lemma_field_specs(defs);
    let fields = built(defs)->Ok_0;
    lemma_first_text(fields, fields.len() as int);
    assert forall|i: int| 0 <= i < fields.len() implies !(#[trigger] bad_name(fields, i)) by {
        lemma_good_names(fields, fields.len() as int, i);
    }
    assert forall|i: int, j: int| 0 <= i < j < fields.len() implies (#[trigger] fields[i]).name != (
    #[trigger] fields[j]).name by {
        assert(!bad_name(fields, j));
    }
    assert forall|i: int| 0 <= i < fields.len() implies (#[trigger] fields[i]).name.len() > 0
        && field_number(fields, fields[i].name) == Some(i) by {
        assert(!bad_name(fields, i));
        lemma_own_number(fields, i, fields.len() as int);
    }
    assert forall|i: int| 0 <= i < defs.len() implies field_spec(#[trigger] defs[i]) == Some(
        fields[i],
    ) && fields[i].name == defs[i].name by {
        assert(field_spec(defs[i]) == Some(fields[i]));
    }
}

/// Where no name is at fault, every name is good.
proof fn lemma_good_names(fields: Seq<FieldSpec>, n: int, i: int)
    requires
        name_fault(fields, n) is None,
        0 <= i < n,
    ensures
        !bad_name(fields, i),
    decreases n,
{
    if i < n - 1 {
        lemma_good_names(fields, n - 1, i);
    }
}

/// Where no two names are the same, a field is found under its name.
proof fn lemma_own_number(fields: Seq<FieldSpec>, i: int, n: int)
    requires
        0 <= i < fields.len(),
        0 <= n <= fields.len(),
        forall|j: int, k: int|
            0 <= j < k < fields.len() ==> (#[trigger] fields[j]).name != (#[trigger] fields[k]).name,
    ensures
        first_named(fields, fields[i].name, n) == (if i < n {
            Some(i)
        } else {
            None
        }),
    decreases n,
{
    if n > 0 {
        lemma_own_number(fields, i, n - 1);
    }
}

/// A text field and a keyword field take any number of texts, an `i64` field takes an integer and
/// a `bool` field a boolean.
pub proof fn law_fields_take_values(
    def: FieldDefView,
    texts: Seq<ValueView>,
    integer: i64,
    flag: bool,
)
    requires
        field_spec(def) is Some,
        forall|i: int| 0 <= i < texts.len() ==> (#[trigger] texts[i]) is Text,
    ensures
        ({
            let field = field_spec(def)->Some_0;
            &&& def.ty == "text"@ || def.ty == "keyword"@ ==> entry_fault(field, texts) is None
            &&& def.ty == "i64"@ ==> entry_fault(field, seq![ValueView::Integer(integer)]) is None
            &&& def.ty == "bool"@ ==> entry_fault(field, seq![ValueView::Flag(flag)]) is None
        }),
{
    reveal_strlit("text");
    reveal_strlit("keyword");
    reveal_strlit("i64");
    reveal_strlit("bool");
    let field = field_spec(def)->Some_0;
    if def.ty == "text"@ || def.ty == "keyword"@ {
        assert(!(field.kind is I64) && !(field.kind is Bool)) by {
            assert("text"@.len() == 4 && "keyword"@.len() == 7 && "i64"@.len() == 3);
            assert("text"@[0] == 't' && "bool"@[0] == 'b');
        }
        assert forall|i: int| 0 <= i < texts.len() implies fits(field.kind, #[trigger] texts[i]) by {
        }
    }
    if def.ty == "bool"@ {
        assert("text"@[0] == 't' && "bool"@[0] == 'b' && "keyword"@[0] == 'k' && "i64"@[0] == 'i');
    }
    if def.ty == "i64"@ {
        assert("text"@[0] == 't' && "keyword"@[0] == 'k' && "i64"@[0] == 'i');
    }
}

/// A document with an id is taken where each of its fields takes its values.
pub proof fn law_document_is_taken(fields: Seq<FieldSpec>, document: DocumentView)
    requires
        document.id.len() > 0,
        forall|i: int|
            0 <= i < document.entries.len() ==> entry_fault(
                fields[(#[trigger] document.entries[i]).0 as int],
                document.entries[i].1,
            ) is None,
    ensures
        document_fault(fields, document) is None,
{
    lemma_entries_taken(fields, document.entries);
}

/// Entries are taken where each of them is.
proof fn lemma_entries_taken(fields: Seq<FieldSpec>, entries: Seq<(u16, Seq<ValueView>)>)
    requires
        forall|i: int|
            0 <= i < entries.len() ==> entry_fault(
                fields[(#[trigger] entries[i]).0 as int],
                entries[i].1,
            ) is None,
    ensures
        entries_fault(fields, entries) is None,
    decreases entries.len(),
{
    if entries.len() > 0 {
        let front = entries.drop_last();
        assert forall|i: int| 0 <= i < front.len() implies entry_fault(
            fields[(#[trigger] front[i]).0 as int],
            front[i].1,
        ) is None by {
            assert(front[i] == entries[i]);
        }
        lemma_entries_taken(fields, front);
        assert(entries[entries.len() - 1] == entries.last());
    }
}

/// The index keeps of a document just the values of its stored fields.
pub proof fn law_kept_values(
    fields: Seq<FieldSpec>,
    entries: Seq<(u16, Seq<ValueView>)>,
    k: int,
)
    requires
        known_entries(fields, entries),
        0 <= k < entries.len(),
    ensures
        kept(fields, entries).contains_key(entries[k].0) <==> fields[entries[k].0 as int].flags.stored
            && entries[k].1.len() > 0,
        kept(fields, entries).contains_key(entries[k].0) ==> kept(fields, entries)[entries[k].0]
            == entries[k].1,
    decreases entries.len(),
{
    let front = entries.drop_last();
    if k < front.len() {
        assert(known_entries(fields, front)) by {
            assert forall|i: int| 0 <= i < front.len() implies (#[trigger] front[i]).0
                < fields.len() by {
                assert(front[i] == entries[i]);
            }
            assert forall|i: int, j: int| 0 <= i < j < front.len() implies (#[trigger] front[i]).0
                != (#[trigger] front[j]).0 by {
                assert(front[i] == entries[i] && front[j] == entries[j]);
            }
        }
        law_kept_values(fields, front, k);
        assert(front[k] == entries[k]);
        assert(entries[k].0 != entries[entries.len() - 1].0);
    } else {
        assert forall|i: int| 0 <= i < front.len() implies (#[trigger] front[i]).0
            != entries[k].0 by {
            assert(front[i] == entries[i]);
        }
        lemma_not_kept(fields, front, entries[k].0);
    }
}

/// Of a field that a document does not have nothing is kept.
proof fn lemma_not_kept(fields: Seq<FieldSpec>, entries: Seq<(u16, Seq<ValueView>)>, number: u16)
    ensures
        (forall|i: int| 0 <= i < entries.len() ==> (#[trigger] entries[i]).0 != number) ==> !kept(
            fields,
            entries,
        ).contains_key(number),
    decreases entries.len(),
{
    if entries.len() > 0 {
        let front = entries.drop_last();
        lemma_not_kept(fields, front, number);
        if forall|i: int| 0 <= i < entries.len() ==> (#[trigger] entries[i]).0 != number {
            assert forall|i: int| 0 <= i < front.len() implies (#[trigger] front[i]).0
                != number by {
                assert(front[i] == entries[i]);
            }
            assert(entries[entries.len() - 1].0 != number);
        }
    }
}

/// A hit for a document that was put in shows the values that were put in, for those of the
/// fields that were asked for; without stored fields a hit shows no values.
pub proof fn law_hits_show_values(
    before: IndexState,
    after: IndexState,
    document: DocumentView,
    request: RequestView,
    result: ResultView,
    i: int,
)
    requires
        before.sound,
        has_room(before, document),
        upserted(before, after, document),
        answers(after, request, result),
        0 <= i < result.hits.len(),
    ensures
        result.hits[i].id == document.id ==> result.hits[i].fields == values_for(
            kept(before.fields, document.entries),
            request.stored_fields,
        ),
        request.stored_fields.len() == 0 ==> result.hits[i].fields.len() == 0,
        request.highlight_fields.len() == 0 ==> result.hits[i].highlights.len() == 0,
{
    assert(hit_of(after, request, result.hits[i]));
    if request.highlight_fields.len() == 0 && result.hits[i].highlights.len() > 0 {
        assert(request.highlight_fields.contains(result.hits[i].highlights[0].0));
    }
}

/// A deleted document is no hit.
pub proof fn law_deleted_is_no_hit(
    before: IndexState,
    after: IndexState,
    ids: Seq<Seq<char>>,
    request: RequestView,
    result: ResultView,
    i: int,
)
    requires
        after.documents == before.documents.remove_keys(ids.to_set()),
        answers(after, request, result),
        0 <= i < result.hits.len(),
    ensures
        !ids.contains(result.hits[i].id),
{
    assert(hit_of(after, request, result.hits[i]));
}

/// In a schema that was built, what a search asks for is refused for nothing but a query of too
/// many words where it names no field, marks no words and stays within the first ten thousand
/// matches.
pub proof fn law_plain_search(
    defs: Seq<FieldDefView>,
    query: Seq<char>,
    options: SearchOpts,
    words: nat,
)
    requires
        numbers_suffice(defs),
        built(defs) is Ok,
        options.field is None,
        options.highlight != Some(true),
        (match options.limit {
            Some(limit) => limit as nat,
            None => 10,
        }) + (match options.offset {
            Some(offset) => offset as nat,
            None => 0,
        }) <= max_window(),
    ensures
        ({
            let fields = built(defs)->Ok_0;
            &&& requested(fields, shown_fields(defs), query, options) matches Ok(request)
            &&& request_fault(fields, request, words) == if words > 64 {
                Some(too_many_words(words))
            } else {
                None
            }
        }),
{
    law_built_schema(defs);
    lemma_field_count(defs);
    lemma_can_show(defs);
    let fields = built(defs)->Ok_0;
    let request = requested(fields, shown_fields(defs), query, options)->Ok_0;
    assert(field_spec(defs[request.field as int]) == Some(fields[request.field as int]));
    lemma_all_stored(fields, request.stored_fields);
}

/// Words can be marked in every text field that is declared with positions, whether or not its
/// values are given back.
pub proof fn law_positions_allow_highlights(def: FieldDefView)
    requires
        def.ty == "text"@,
    ensures
        field_spec(def) matches Some(field) && can_highlight(field) == def.text.positions,
{
}

/// Options that are left out stand for the same request as options that name the defaults: the
/// first text field, the mode `auto`, ten hits from the first on, no marked words and no values.
pub proof fn law_default_options(
    defs: Seq<FieldDefView>,
    query: Seq<char>,
    none: SearchOpts,
    named: SearchOpts,
)
    requires
        built(defs) is Ok,
        none.field is None,
        none.mode is None,
        none.limit is None,
        none.offset is None,
        none.highlight is None,
        none.stored_fields is None,
        named.field matches Some(name) && name@ == built(defs)->Ok_0[first_text(
            built(defs)->Ok_0,
            built(defs)->Ok_0.len() as int,
        )->Some_0].name,
        named.mode matches Some(mode) && lower(mode@) == "auto"@,
        named.limit == Some(10usize),
        named.offset == Some(0usize),
        named.highlight != Some(true),
        named.stored_fields != Some(true),
    ensures
        ({
            let fields = built(defs)->Ok_0;
            let shown = shown_fields(defs);
            &&& requested(fields, shown, query, given(None)) == requested(fields, shown, query, none)
            &&& requested(fields, shown, query, given(Some(none))) == requested(
                fields,
                shown,
                query,
                none,
            )
            &&& requested(fields, shown, query, named) == requested(fields, shown, query, none)
        }),
{
    law_built_schema(defs);
    reveal_strlit("auto");
    reveal_strlit("exact");
    reveal_strlit("pinyin");
    reveal_strlit("fuzzy");
    assert("auto"@.len() == 4 && "exact"@.len() == 5 && "pinyin"@.len() == 6 && "fuzzy"@.len() == 5);
}

/// Where every field keeps its values, none is found that does not.
proof fn lemma_all_stored(fields: Seq<FieldSpec>, numbers: Seq<u16>)
    requires
        forall|k: int|
            0 <= k < numbers.len() ==> fields[(#[trigger] numbers[k]) as int].flags.stored,
    ensures
        first_unstored(fields, numbers) is None,
    decreases numbers.len(),
{
    if numbers.len() > 0 {
        let front = numbers.drop_last();
        assert forall|k: int| 0 <= k < front.len() implies fields[(#[trigger] front[k]) as int].flags.stored by {
            assert(front[k] == numbers[k]);
        }
        lemma_all_stored(fields, front);
        assert(numbers[numbers.len() - 1] == numbers.last());
    }
}

} // verus!
