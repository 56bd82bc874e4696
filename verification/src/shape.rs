//! Laws of the index on what its callers hold in hand: declarations and the fields that are built
//! of them, JSON values and the documents that are made of them, options and the request that they
//! stand for, and the JSON of an answer.
use vstd::prelude::*;

use crate::engine::{
    can_become, decoded_checkpoint, document_fault, has_room, kept, DocumentView, IndexState,
};
use crate::error::{fault_message, IndexError, IndexFault};
use crate::index::{
    acknowledged, checkpoint_index, empty_index, field_number, first_named, given, member_document,
    member_entries, refused, requested, text_document, texts, upserted,
};
use crate::json::{
    all_json_values, at_least, json_tree, json_values, member_views, object_of, parsed_object,
    value_json, values_json, Json, JsonNumber,
};
use crate::laws::{law_built_schema, law_default_schema};
use crate::schema::{
    bad_name, built, declared, def_views, default_defs, field_spec, field_specs, first_text,
    lemma_field_specs, lemma_first_text, lemma_shown_numbers, name_fault, numbers_suffice,
    shown_fields, FieldDef, FieldKind, FieldSpec, SchemaDef,
};
use crate::search::{
    answers, can_cut, can_highlight, fields_json, first_unmarkable, first_unstored,
    highlights_json, name_of, named_mode, ranked, request_fault, result_json, spans_json, Mode,
    RequestView, ResultView, SearchOpts, SearchRequest, SearchResult,
};
use crate::tables::comes_before;
use crate::text::{blank, lower, white_space};
use crate::value::{value_views, FieldValue, ValueView};

verus! {

/// The JSON of an answer holds the number of matches under `total`, and under `hits` one object for
/// each hit, in the order of the hits: the first hit is the first element. Each holds the id, the
/// score, the values and the highlights of its own hit, and nothing else.
pub proof fn law_answer_in_json(fields: Seq<FieldSpec>, result: ResultView)
    ensures
        ({
            &&& result_json(fields, result) matches Json::Object(top)
            &&& top.dom() == set!["total"@, "hits"@]
            &&& top["total"@] == Json::Num(JsonNumber::Integer(result.total as int))
            &&& top["hits"@] matches Json::Array(items)
            &&& items.len() == result.hits.len()
            &&& forall|i: int|
                0 <= i < items.len() ==> {
                    &&& #[trigger] items[i] matches Json::Object(hit)
                    &&& hit.dom() == set!["id"@, "score"@, "fields"@, "highlights"@]
                    &&& hit["id"@] == Json::Text(result.hits[i].id)
                    &&& hit["score"@] == result.hits[i].score
                    &&& hit["fields"@] == fields_json(fields, result.hits[i].fields)
                    &&& hit["highlights"@] == highlights_json(fields, result.hits[i].highlights)
                }
        }),
{
    reveal_strlit("total");
    reveal_strlit("hits");
    reveal_strlit("id");
    reveal_strlit("score");
    reveal_strlit("fields");
    reveal_strlit("highlights");
    assert("total"@.len() == 5 && "hits"@.len() == 4 && "id"@.len() == 2 && "score"@.len() == 5
        && "fields"@.len() == 6 && "highlights"@.len() == 10);
    assert("total"@[0] != "score"@[0]);
    let top = result_json(fields, result)->Object_0;
    assert(top.dom() =~= set!["total"@, "hits"@]);
    let items = top["hits"@]->Array_0;
    assert forall|i: int| 0 <= i < items.len() implies {
        &&& #[trigger] items[i] matches Json::Object(hit)
        &&& hit.dom() == set!["id"@, "score"@, "fields"@, "highlights"@]
        &&& hit["id"@] == Json::Text(result.hits[i].id)
        &&& hit["score"@] == result.hits[i].score
        &&& hit["fields"@] == fields_json(fields, result.hits[i].fields)
        &&& hit["highlights"@] == highlights_json(fields, result.hits[i].highlights)
    } by {
        let hit = items[i]->Object_0;
        assert(hit.dom() =~= set!["id"@, "score"@, "fields"@, "highlights"@]);
    }
}

/// The best hits come first, in the answer and in its JSON: no score is above an earlier one, and
/// hits of one score come in the order of their ids.
pub proof fn law_best_hits_come_first(
    state: IndexState,
    request: RequestView,
    result: ResultView,
    i: int,
    j: int,
)
    requires
        answers(state, request, result),
        0 <= i < j < result.hits.len(),
    ensures
        ({
            let items = result_json(state.fields, result)->Object_0["hits"@]->Array_0;
            let (better, worse) = (items[i]->Object_0, items[j]->Object_0);
            &&& better["id"@] == Json::Text(result.hits[i].id)
            &&& worse["id"@] == Json::Text(result.hits[j].id)
            &&& (better["score"@] matches Json::Num(JsonNumber::Fraction(a)) ==> (worse["score"@]
                matches Json::Num(JsonNumber::Fraction(b)) ==> at_least(a, b) && (a == b
                ==> comes_before(result.hits[i].id, result.hits[j].id))))
        }),
{
    law_answer_in_json(state.fields, result);
    assert(ranked(result.hits[i], result.hits[j]));
    let items = result_json(state.fields, result)->Object_0["hits"@]->Array_0;
    assert(items[i] is Object && items[j] is Object);
}

/// An answer that the library holds stands for itself, hit by hit and in order.
pub proof fn law_answer_is_what_it_says(result: SearchResult)
    ensures
        result@.total == result.total,
        result@.hits.len() == result.hits@.len(),
        forall|i: int|
            0 <= i < result.hits@.len() ==> {
                &&& (#[trigger] result@.hits[i]).id == result.hits@[i].id@
                &&& result@.hits[i].score == json_tree(result.hits@[i].score)
                &&& result@.hits[i].fields.len() == result.hits@[i].fields@.len()
                &&& forall|k: int|
                    0 <= k < result.hits@[i].fields@.len() ==> (
                    #[trigger] result@.hits[i].fields[k]).0 == result.hits@[i].fields@[k].0
                        && result@.hits[i].fields[k].1 == value_views(
                        result.hits@[i].fields@[k].1@,
                    )
                &&& result@.hits[i].highlights.len() == result.hits@[i].highlights@.len()
                &&& forall|k: int|
                    0 <= k < result.hits@[i].highlights@.len() ==> (
                    #[trigger] result@.hits[i].highlights[k]).0
                        == result.hits@[i].highlights@[k].field
                        && result@.hits[i].highlights[k].1
                        == result.hits@[i].highlights@[k].spans@
            },
{
}

/// The members of an object are those that it is filled with; of several with one name the last
/// one stays.
proof fn lemma_object_members(members: Seq<(Seq<char>, Json)>, k: int)
    requires
        0 <= k < members.len(),
        forall|m: int| k < m < members.len() ==> (#[trigger] members[m]).0 != members[k].0,
    ensures
        object_of(members).contains_key(members[k].0),
        object_of(members)[members[k].0] == members[k].1,
    decreases members.len(),
{
    if k < members.len() - 1 {
        let front = members.drop_last();
        assert forall|m: int| k < m < front.len() implies (#[trigger] front[m]).0
            != front[k].0 by {
            assert(front[m] == members[m]);
        }
        lemma_object_members(front, k);
        assert(members[members.len() - 1].0 != members[k].0);
    }
}

/// An object holds nothing but what it is filled with.
proof fn lemma_object_names(members: Seq<(Seq<char>, Json)>, name: Seq<char>)
    requires
        object_of(members).contains_key(name),
    ensures
        exists|k: int| 0 <= k < members.len() && (#[trigger] members[k]).0 == name,
    decreases members.len(),
{
    if members.len() > 0 {
        let front = members.drop_last();
        if members.last().0 != name {
            lemma_object_names(front, name);
            let k = choose|k: int| 0 <= k < front.len() && (#[trigger] front[k]).0 == name;
            assert(members[k].0 == name);
        } else {
            assert(members[members.len() - 1].0 == name);
        }
    }
}

/// The values of a hit stand under the names of their fields: a single value as itself, any other
/// number of them as an array of the values in order. No other name is there.
pub proof fn law_hit_values_in_json(
    fields: Seq<FieldSpec>,
    values: Seq<(u16, Seq<ValueView>)>,
    k: int,
    name: Seq<char>,
)
    requires
        forall|i: int| 0 <= i < values.len() ==> (#[trigger] values[i]).0 < fields.len(),
        forall|i: int, j: int|
            0 <= i < j < values.len() ==> fields[(#[trigger] values[i]).0 as int].name != fields[(
            #[trigger] values[j]).0 as int].name,
        0 <= k < values.len(),
    ensures
        ({
            &&& fields_json(fields, values) matches Json::Object(shown)
            &&& shown.contains_key(fields[values[k].0 as int].name)
            &&& {
                let json = shown[fields[values[k].0 as int].name];
                let list = values[k].1;
                &&& list.len() == 1 ==> json == value_json(list[0])
                &&& list.len() != 1 ==> {
                    &&& json matches Json::Array(items)
                    &&& items.len() == list.len()
                    &&& forall|i: int|
                        0 <= i < items.len() ==> #[trigger] items[i] == value_json(list[i])
                }
            }
            &&& shown.contains_key(name) ==> exists|i: int|
                0 <= i < values.len() && fields[(#[trigger] values[i]).0 as int].name == name
        }),
{
    let members = values.map_values(
        |f: (u16, Seq<ValueView>)| (name_of(fields, f.0), values_json(f.1)),
    );
    assert forall|m: int| k < m < members.len() implies (#[trigger] members[m]).0
        != members[k].0 by {
        assert(fields[values[k].0 as int].name != fields[values[m].0 as int].name);
    }
    lemma_object_members(members, k);
    assert(members[k] == (fields[values[k].0 as int].name, values_json(values[k].1)));
    if object_of(members).contains_key(name) {
        lemma_object_names(members, name);
        let i = choose|i: int| 0 <= i < members.len() && (#[trigger] members[i]).0 == name;
        assert(fields[values[i].0 as int].name == name);
    }
}

/// The highlights of a hit stand under the names of their fields, each an array of spans in order,
/// each span an array of its start and its end.
pub proof fn law_highlights_in_json(
    fields: Seq<FieldSpec>,
    highlights: Seq<(u16, Seq<(u32, u32)>)>,
    k: int,
    name: Seq<char>,
)
    requires
        forall|i: int| 0 <= i < highlights.len() ==> (#[trigger] highlights[i]).0 < fields.len(),
        0 <= k < highlights.len(),
        forall|i: int|
            k < i < highlights.len() ==> fields[(#[trigger] highlights[i]).0 as int].name
                != fields[highlights[k].0 as int].name,
    ensures
        ({
            &&& highlights_json(fields, highlights) matches Json::Object(shown)
            &&& shown.contains_key(fields[highlights[k].0 as int].name)
            &&& shown[fields[highlights[k].0 as int].name] matches Json::Array(items)
            &&& items.len() == highlights[k].1.len()
            &&& forall|i: int|
                0 <= i < items.len() ==> (#[trigger] items[i]) == Json::Array(
                    seq![
                        Json::Num(JsonNumber::Integer(highlights[k].1[i].0 as int)),
                        Json::Num(JsonNumber::Integer(highlights[k].1[i].1 as int)),
                    ],
                )
            &&& shown.contains_key(name) ==> exists|i: int|
                0 <= i < highlights.len() && fields[(#[trigger] highlights[i]).0 as int].name
                    == name
        }),
{
    let members = highlights.map_values(
        |h: (u16, Seq<(u32, u32)>)| (name_of(fields, h.0), spans_json(h.1)),
    );
    assert forall|m: int| k < m < members.len() implies (#[trigger] members[m]).0
        != members[k].0 by {
        assert(fields[highlights[m].0 as int].name != fields[highlights[k].0 as int].name);
    }
    lemma_object_members(members, k);
    assert(members[k] == (fields[highlights[k].0 as int].name, spans_json(highlights[k].1)));
    if object_of(members).contains_key(name) {
        lemma_object_names(members, name);
        let i = choose|i: int| 0 <= i < members.len() && (#[trigger] members[i]).0 == name;
        assert(fields[highlights[i].0 as int].name == name);
    }
}

/// A value of the library stands for itself.
pub proof fn law_values_are_what_they_say(values: Seq<FieldValue>)
    ensures
        value_views(values).len() == values.len(),
        forall|i: int|
            0 <= i < values.len() ==> match values[i] {
                FieldValue::Text(s) => #[trigger] value_views(values)[i] == ValueView::Text(s@),
                FieldValue::Integer(n) => value_views(values)[i] == ValueView::Integer(n),
                FieldValue::Flag(b) => value_views(values)[i] == ValueView::Flag(b),
            },
{
}

/// The values that a JSON value gives: a string, a boolean and an integer of 64 bits give
/// themselves, true or false, zero or not; `null` gives none; other numbers and objects are
/// refused, each in its way.
pub proof fn law_single_values(
    text: Seq<char>,
    flag: bool,
    integer: int,
    fraction: Seq<char>,
    object: Map<Seq<char>, Json>,
)
    ensures
        json_values(Json::Text(text)) == Ok::<_, IndexFault>(seq![ValueView::Text(text)]),
        json_values(Json::Bool(flag)) == Ok::<_, IndexFault>(seq![ValueView::Flag(flag)]),
        json_values(Json::Num(JsonNumber::Integer(integer))) == if i64::MIN <= integer <= i64::MAX {
            Ok::<_, IndexFault>(seq![ValueView::Integer(integer as i64)])
        } else {
            Err(IndexFault::NotInteger(crate::text::decimal(integer)))
        },
        json_values(Json::Num(JsonNumber::Fraction(fraction))) == Err::<Seq<ValueView>, _>(
            IndexFault::NotInteger(fraction),
        ),
        json_values(Json::Null) == Ok::<_, IndexFault>(Seq::<ValueView>::empty()),
        json_values(Json::Object(object)) == Err::<Seq<ValueView>, _>(
            IndexFault::UnsupportedValue,
        ),
{
}

/// An array gives what its elements give, one behind the other: an array of one element gives what
/// the element gives, a longer one what its two parts give; the first part that fails decides.
pub proof fn law_array_values(one: Json, front: Seq<Json>, back: Seq<Json>)
    ensures
        json_values(Json::Array(Seq::empty())) == Ok::<_, IndexFault>(Seq::<ValueView>::empty()),
        json_values(Json::Array(seq![one])) == json_values(one),
        json_values(Json::Array(front + back)) == match (
            json_values(Json::Array(front)),
            json_values(Json::Array(back)),
        ) {
            (Ok(a), Ok(b)) => Ok(a + b),
            (Err(fault), _) => Err(fault),
            (_, Err(fault)) => Err(fault),
        },
    decreases back.len(),
{
    assert(all_json_values(Seq::empty()) == Ok::<_, IndexFault>(Seq::<ValueView>::empty()));
    let single = seq![one];
    assert(single.drop_last() =~= Seq::empty());
    assert(all_json_values(single.drop_last()) == Ok::<_, IndexFault>(Seq::<ValueView>::empty()));
    assert(all_json_values(single) == json_values(one)) by {
        if let Ok(values) = json_values(one) {
            assert(Seq::<ValueView>::empty() + values =~= values);
        }
    }
    lemma_joined_arrays(front, back);
}

/// Joined arrays give what both give.
proof fn lemma_joined_arrays(front: Seq<Json>, back: Seq<Json>)
    ensures
        all_json_values(front + back) == match (all_json_values(front), all_json_values(back)) {
            (Ok(a), Ok(b)) => Ok(a + b),
            (Err(fault), _) => Err(fault),
            (_, Err(fault)) => Err(fault),
        },
    decreases back.len(),
{
    let all = front + back;
    if back.len() == 0 {
        assert(all =~= front);
        assert(all_json_values(back) == Ok::<_, IndexFault>(Seq::<ValueView>::empty()));
        if let Ok(a) = all_json_values(front) {
            assert(a + Seq::<ValueView>::empty() =~= a);
        }
    } else {
        lemma_joined_arrays(front, back.drop_last());
        assert(all.drop_last() =~= front + back.drop_last());
        assert(all.last() == back.last());
        if let (Ok(a), Ok(b), Ok(c)) = (
            all_json_values(front),
            all_json_values(back.drop_last()),
            json_values(back.last()),
        ) {
            assert(a + (b + c) =~= (a + b) + c);
        }
    }
}

/// What a search gives back of values: a text as a string, an integer as a number, a flag as a
/// boolean; one value as itself, any other number of them as an array of the values in order.
pub proof fn law_written_values(values: Seq<ValueView>, text: Seq<char>, integer: i64, flag: bool)
    ensures
        value_json(ValueView::Text(text)) == Json::Text(text),
        value_json(ValueView::Integer(integer)) == Json::Num(JsonNumber::Integer(integer as int)),
        value_json(ValueView::Flag(flag)) == Json::Bool(flag),
        values.len() == 1 ==> values_json(values) == value_json(values[0]),
        values.len() != 1 ==> {
            &&& values_json(values) matches Json::Array(items)
            &&& items.len() == values.len()
            &&& forall|i: int|
                0 <= i < items.len() ==> #[trigger] items[i] == value_json(values[i])
        },
{
}

/// The field that is found under a name has the name, and no earlier field has it; where none is
/// found, no field has it.
pub proof fn law_field_by_name(fields: Seq<FieldSpec>, name: Seq<char>)
    ensures
        match field_number(fields, name) {
            Some(n) => {
                &&& 0 <= n < fields.len()
                &&& fields[n].name == name
                &&& forall|i: int| 0 <= i < n ==> (#[trigger] fields[i]).name != name
            },
            None => forall|i: int| 0 <= i < fields.len() ==> (#[trigger] fields[i]).name != name,
        },
{
    lemma_named(fields, name, fields.len() as int);
}

/// The first of some fields with a name.
proof fn lemma_named(fields: Seq<FieldSpec>, name: Seq<char>, n: int)
    requires
        0 <= n <= fields.len(),
    ensures
        match first_named(fields, name, n) {
            Some(k) => {
                &&& 0 <= k < n
                &&& fields[k].name == name
                &&& forall|i: int| 0 <= i < k ==> (#[trigger] fields[i]).name != name
            },
            None => forall|i: int| 0 <= i < n ==> (#[trigger] fields[i]).name != name,
        },
    decreases n,
{
    if n > 0 {
        lemma_named(fields, name, n - 1);
    }
}

/// A document has all that its members say: as many entries as members, the k-th with the number of
/// the field of the k-th member's name and with all the values that the k-th member gives, whatever
/// they are. Its id is the one that was given.
pub proof fn law_document_has_all_members(
    fields: Seq<FieldSpec>,
    id: Seq<char>,
    members: Seq<(Seq<char>, Json)>,
    k: int,
)
    requires
        fields.len() <= 0x1_0000,
        0 <= k < members.len(),
    ensures
        member_entries(fields, members) matches Ok(entries) ==> {
            &&& entries.len() == members.len()
            &&& entries[k].0 < fields.len()
            &&& fields[entries[k].0 as int].name == members[k].0
            &&& forall|i: int| 0 <= i < entries[k].0 ==> (#[trigger] fields[i]).name != members[k].0
            &&& json_values(members[k].1) == Ok::<_, IndexFault>(entries[k].1)
        },
        member_document(fields, id, members) matches Ok(document) ==> {
            &&& document.id == id
            &&& member_entries(fields, members) == Ok::<_, IndexFault>(document.entries)
            &&& document.entries.len() == members.len()
            &&& fields[document.entries[k].0 as int].name == members[k].0
            &&& json_values(members[k].1) == Ok::<_, IndexFault>(document.entries[k].1)
            &&& document_fault(fields, document) is None
        },
{
    lemma_all_members(fields, members, k);
}

/// Entries are those of the members.
proof fn lemma_all_members(fields: Seq<FieldSpec>, members: Seq<(Seq<char>, Json)>, k: int)
    requires
        fields.len() <= 0x1_0000,
        0 <= k < members.len(),
    ensures
        member_entries(fields, members) matches Ok(entries) ==> {
            &&& entries.len() == members.len()
            &&& entries[k].0 < fields.len()
            &&& fields[entries[k].0 as int].name == members[k].0
            &&& forall|i: int| 0 <= i < entries[k].0 ==> (#[trigger] fields[i]).name != members[k].0
            &&& json_values(members[k].1) == Ok::<_, IndexFault>(entries[k].1)
        },
    decreases members.len(),
{
    let front = members.drop_last();
    law_field_by_name(fields, members.last().0);
    if k < front.len() {
        lemma_all_members(fields, front, k);
        assert(front[k] == members[k]);
    } else if front.len() > 0 {
        lemma_all_members(fields, front, 0);
    }
}

/// Where every member has a field and values, the document is made of them, and is refused for
/// nothing but what the indexer says of it; where a member has none, the first such member decides
/// the failure: an undeclared name is named, and a bad value is told.
pub proof fn law_members_decide(
    fields: Seq<FieldSpec>,
    id: Seq<char>,
    members: Seq<(Seq<char>, Json)>,
    k: int,
)
    requires
        0 <= k <= members.len(),
        forall|i: int|
            0 <= i < k ==> field_number(fields, (#[trigger] members[i]).0) is Some && json_values(
                members[i].1,
            ) is Ok,
    ensures
        k == members.len() ==> {
            &&& member_entries(fields, members) matches Ok(entries)
            &&& member_document(fields, id, members) == match document_fault(
                fields,
                DocumentView { id, entries },
            ) {
                None => Ok(DocumentView { id, entries }),
                Some(message) => Err(IndexFault::Indexer(message)),
            }
        },
        k < members.len() && field_number(fields, members[k].0) is None ==> member_document(
            fields,
            id,
            members,
        ) == Err::<DocumentView, _>(IndexFault::UnknownField(members[k].0)),
        k < members.len() && field_number(fields, members[k].0) is Some && json_values(
            members[k].1,
        ) is Err ==> member_document(fields, id, members) == Err::<DocumentView, _>(
            json_values(members[k].1)->Err_0,
        ),
{
    lemma_members_decide(fields, members, k);
}

/// The first member without a field or values decides.
proof fn lemma_members_decide(fields: Seq<FieldSpec>, members: Seq<(Seq<char>, Json)>, k: int)
    requires
        0 <= k <= members.len(),
        forall|i: int|
            0 <= i < k ==> field_number(fields, (#[trigger] members[i]).0) is Some && json_values(
                members[i].1,
            ) is Ok,
    ensures
        k == members.len() ==> member_entries(fields, members) is Ok,
        k < members.len() && field_number(fields, members[k].0) is None ==> member_entries(
            fields,
            members,
        ) == Err::<Seq<(u16, Seq<ValueView>)>, _>(IndexFault::UnknownField(members[k].0)),
        k < members.len() && field_number(fields, members[k].0) is Some && json_values(
            members[k].1,
        ) is Err ==> member_entries(fields, members) == Err::<Seq<(u16, Seq<ValueView>)>, _>(
            json_values(members[k].1)->Err_0,
        ),
    decreases members.len(),
{
    if members.len() > 0 {
        let front = members.drop_last();
        let n = if k < front.len() {
            k
        } else {
            front.len() as int
        };
        assert forall|i: int| 0 <= i < n implies field_number(fields, (#[trigger] front[i]).0)
            is Some && json_values(front[i].1) is Ok by {
            assert(front[i] == members[i]);
        }
        lemma_members_decide(fields, front, n);
        if k < front.len() {
            assert(front[k] == members[k]);
        } else {
            assert(members.last() == members[members.len() - 1]);
        }
    }
}

/// A text that is no object is refused with the parser's message; one that is stands for the
/// document of its members.
pub proof fn law_text_stands_for_members(fields: Seq<FieldSpec>, id: Seq<char>, text: Seq<char>)
    ensures
        parsed_object(text) matches Err(message) ==> text_document(fields, id, text) == Err::<
            DocumentView,
            _,
        >(IndexFault::Json(message)),
        parsed_object(text) matches Ok(members) ==> text_document(fields, id, text)
            == member_document(fields, id, members),
{
}

/// A field is built as it is declared: under its name, of its type, a text field with its own
/// pinyin, prefix, fuzzy and positions flags, `i64` and `bool` sortable, the others with any number
/// of values. Values are kept where they are declared to be stored, and in text fields with
/// positions; they are given back just where they are declared to be stored.
pub proof fn law_fields_are_built_as_declared(schema: SchemaDef, i: int)
    requires
        schema.fields is Some,
        0 <= i < schema.fields->Some_0@.len(),
        numbers_suffice(declared(Some(schema))),
        built(declared(Some(schema))) is Ok,
    ensures
        ({
            let def = schema.fields->Some_0@[i];
            let fields = built(declared(Some(schema)))->Ok_0;
            let field = fields[i];
            &&& fields.len() == schema.fields->Some_0@.len()
            &&& field.name == def.name@
            &&& field.flags.indexed
            &&& def.ty@ == "text"@ || def.ty@ == "keyword"@ || def.ty@ == "i64"@ || def.ty@ == "bool"@
            &&& def.ty@ == "text"@ ==> {
                &&& field.kind matches FieldKind::Text(text)
                &&& text.pinyin == def.pinyin
                &&& text.prefix == def.prefix
                &&& text.fuzzy == def.fuzzy
                &&& text.positions == def.positions
                &&& field.flags.stored == (def.stored || def.positions)
                &&& !field.flags.sortable
                &&& field.flags.multi_value
            }
            &&& def.ty@ == "keyword"@ ==> {
                &&& field.kind is Keyword
                &&& field.flags.stored == def.stored
                &&& !field.flags.sortable
                &&& field.flags.multi_value
            }
            &&& def.ty@ == "i64"@ ==> {
                &&& field.kind is I64
                &&& field.flags.stored == def.stored
                &&& field.flags.sortable
                &&& !field.flags.multi_value
            }
            &&& def.ty@ == "bool"@ ==> {
                &&& field.kind is Bool
                &&& field.flags.stored == def.stored
                &&& field.flags.sortable
                &&& !field.flags.multi_value
            }
            &&& shown_fields(declared(Some(schema))).contains(i as u16) == def.stored
        }),
{
    let defs = declared(Some(schema));
    let def = schema.fields->Some_0@[i];
    lemma_type_names();
    law_built_schema(defs);
    lemma_field_specs(defs);
    crate::schema::lemma_field_count(defs);
    lemma_shown_numbers(defs, defs.len() as int);
    assert(defs[i] == def@);
    assert(field_spec(defs[i]) == Some(built(defs)->Ok_0[i]));
    let shown = shown_fields(defs);
    if shown.contains(i as u16) {
        let k = choose|k: int| 0 <= k < shown.len() && shown[k] == i as u16;
        assert(defs[shown[k] as int].stored);
    }
}

/// The names of the types differ.
proof fn lemma_type_names()
    ensures
        "text"@ != "keyword"@,
        "text"@ != "i64"@,
        "text"@ != "bool"@,
        "keyword"@ != "i64"@,
        "keyword"@ != "bool"@,
        "i64"@ != "bool"@,
{
    reveal_strlit("text");
    reveal_strlit("keyword");
    reveal_strlit("i64");
    reveal_strlit("bool");
    assert("text"@[0] == 't' && "keyword"@[0] == 'k' && "i64"@[0] == 'i' && "bool"@[0] == 'b');
}

/// The values that a search gives back come in the order of the declaration, none twice.
pub proof fn law_shown_fields_in_order(schema: Option<SchemaDef>)
    requires
        declared(schema).len() <= 0x1_0000,
    ensures
        forall|j: int, k: int|
            0 <= j < k < shown_fields(declared(schema)).len() ==> shown_fields(declared(schema))[j]
                < shown_fields(declared(schema))[k],
        forall|k: int|
            0 <= k < shown_fields(declared(schema)).len() ==> (#[trigger] shown_fields(
                declared(schema),
            )[k]) < declared(schema).len(),
{
    lemma_shown_numbers(declared(schema), declared(schema).len() as int);
}

/// Without a list of fields there is one, the text field `content`, with all four flags set, its
/// values kept and given back.
pub proof fn law_default_field(defs: Seq<FieldDef>)
    requires
        def_views(defs) == default_defs(),
    ensures
        declared(None) == default_defs(),
        declared(Some(SchemaDef { fields: None })) == default_defs(),
        defs.len() == 1,
        defs[0].name@ == "content"@,
        defs[0].ty@ == "text"@,
        defs[0].pinyin && defs[0].prefix && defs[0].fuzzy && defs[0].positions && defs[0].stored,
        ({
            &&& built(default_defs()) matches Ok(fields)
            &&& fields.len() == 1
            &&& fields[0].name == "content"@
            &&& fields[0].kind matches FieldKind::Text(text)
            &&& text.pinyin && text.prefix && text.fuzzy && text.positions
            &&& fields[0].flags.indexed && fields[0].flags.stored
            &&& shown_fields(default_defs()).contains(0u16)
        }),
{
    law_default_schema();
    lemma_field_specs(default_defs());
    assert(def_views(defs).len() == defs.len());
    assert(def_views(defs)[0] == defs[0]@);
    assert(field_spec(default_defs()[0]) == Some(built(default_defs())->Ok_0[0]));
    lemma_shown_numbers(default_defs(), 1);
}

/// A declaration of a known type.
pub open spec fn known_type(def: FieldDef) -> bool {
    def.ty@ == "text"@ || def.ty@ == "keyword"@ || def.ty@ == "i64"@ || def.ty@ == "bool"@
}

/// A declaration whose name is empty or taken by an earlier one.
pub open spec fn poor_name(defs: Seq<FieldDef>, i: int) -> bool {
    ||| defs[i].name@.len() == 0
    ||| exists|j: int| 0 <= j < i && (#[trigger] defs[j]).name@ == defs[i].name@
}

/// The types of fields are `text`, `keyword`, `i64` and `bool`, and a name is poor where it is
/// empty or an earlier field has it.
pub proof fn law_types_and_names(defs: Seq<FieldDef>, i: int)
    requires
        0 <= i < defs.len(),
    ensures
        known_type(defs[i]) <==> (defs[i].ty@ == "text"@ || defs[i].ty@ == "keyword"@ || defs[i].ty@
            == "i64"@ || defs[i].ty@ == "bool"@),
        poor_name(defs, i) <==> (defs[i].name@.len() == 0 || exists|j: int|
            0 <= j < i && (#[trigger] defs[j]).name@ == defs[i].name@),
{
}

/// When a schema is refused: where it declares no field; for the first type that does not exist;
/// where all types exist, for the first name that is empty or taken; where the names are good too,
/// for want of a text field. Every other schema is built.
pub proof fn law_schema_verdict(schema: SchemaDef, k: int)
    requires
        schema.fields is Some,
    ensures
        ({
            let defs = schema.fields->Some_0@;
            let verdict = built(declared(Some(schema)));
            let typed = forall|i: int| 0 <= i < defs.len() ==> known_type(#[trigger] defs[i]);
            let named = forall|i: int| 0 <= i < defs.len() ==> !#[trigger] poor_name(defs, i);
            let texts = exists|i: int| 0 <= i < defs.len() && (#[trigger] defs[i]).ty@ == "text"@;
            &&& defs.len() == 0 ==> verdict == Err::<Seq<FieldSpec>, _>(IndexFault::EmptySchema)
            &&& 0 <= k < defs.len() && !known_type(defs[k]) && (forall|i: int|
                0 <= i < k ==> known_type(#[trigger] defs[i])) ==> verdict == Err::<
                Seq<FieldSpec>,
                _,
            >(IndexFault::UnknownFieldType(defs[k].ty@))
            &&& typed && 0 <= k < defs.len() && poor_name(defs, k) && (forall|i: int|
                0 <= i < k ==> !#[trigger] poor_name(defs, i)) ==> verdict == Err::<
                Seq<FieldSpec>,
                _,
            >(IndexFault::Indexer("duplicate or empty field name: "@ + defs[k].name@))
            &&& defs.len() > 0 && typed && named && !texts ==> verdict == Err::<Seq<FieldSpec>, _>(
                IndexFault::NoTextField,
            )
            &&& typed && named && texts ==> verdict is Ok
        }),
{
    let defs = schema.fields->Some_0@;
    let views = declared(Some(schema));
    assert(views =~= def_views(defs));
    lemma_type_names();
    assert forall|i: int| 0 <= i < defs.len() implies known_type(#[trigger] defs[i]) == (field_spec(
        views[i],
    ) is Some) by {
        assert(views[i] == defs[i]@);
    }
    if 0 <= k < defs.len() && !known_type(defs[k]) && (forall|i: int|
        0 <= i < k ==> known_type(#[trigger] defs[i])) {
        assert forall|i: int| 0 <= i < k implies field_spec(#[trigger] views[i]) is Some by {
            assert(known_type(defs[i]));
        }
        lemma_first_unknown(views, k);
    }
    if forall|i: int| 0 <= i < defs.len() ==> known_type(#[trigger] defs[i]) {
        assert forall|i: int| 0 <= i < views.len() implies field_spec(#[trigger] views[i])
            is Some by {
            assert(known_type(defs[i]));
        }
        lemma_all_known(views);
        lemma_field_specs(views);
        let fields = field_specs(views)->Ok_0;
        assert forall|i: int| 0 <= i < fields.len() implies (#[trigger] fields[i]).name
            == defs[i].name@ && (fields[i].kind is Text <==> defs[i].ty@ == "text"@) by {
            assert(field_spec(views[i]) == Some(fields[i]));
            assert(views[i] == defs[i]@);
        }
        assert forall|i: int| 0 <= i < fields.len() implies #[trigger] bad_name(fields, i)
            == poor_name(defs, i) by {
            if poor_name(defs, i) && defs[i].name@.len() > 0 {
                let j = choose|j: int| 0 <= j < i && (#[trigger] defs[j]).name@ == defs[i].name@;
                assert(fields[j].name == fields[i].name);
            }
            if bad_name(fields, i) && fields[i].name.len() > 0 {
                let j = choose|j: int| 0 <= j < i && (#[trigger] fields[j]).name == fields[i].name;
                assert(defs[j].name@ == defs[i].name@);
            }
        }
        if 0 <= k < defs.len() && poor_name(defs, k) && (forall|i: int|
            0 <= i < k ==> !#[trigger] poor_name(defs, i)) {
            assert forall|i: int| 0 <= i < k implies !#[trigger] bad_name(fields, i) by {
                assert(!poor_name(defs, i));
            }
            lemma_first_fault(fields, k, fields.len() as int);
        }
        if forall|i: int| 0 <= i < defs.len() ==> !#[trigger] poor_name(defs, i) {
            assert forall|i: int| 0 <= i < fields.len() implies !#[trigger] bad_name(fields, i) by {
                assert(!poor_name(defs, i));
            }
            lemma_no_fault(fields, fields.len() as int);
            lemma_first_text(fields, fields.len() as int);
            if exists|i: int| 0 <= i < defs.len() && (#[trigger] defs[i]).ty@ == "text"@ {
                let i = choose|i: int| 0 <= i < defs.len() && (#[trigger] defs[i]).ty@ == "text"@;
                assert(fields[i].kind is Text);
            }
        }
    }
}

/// The first unknown type decides.
proof fn lemma_first_unknown(defs: Seq<crate::schema::FieldDefView>, k: int)
    requires
        0 <= k < defs.len(),
        field_spec(defs[k]) is None,
        forall|i: int| 0 <= i < k ==> field_spec(#[trigger] defs[i]) is Some,
    ensures
        field_specs(defs) == Err::<Seq<FieldSpec>, _>(defs[k].ty),
    decreases defs.len(),
{
    let front = defs.drop_last();
    if k < front.len() {
        assert forall|i: int| 0 <= i < k implies field_spec(#[trigger] front[i]) is Some by {
            assert(front[i] == defs[i]);
        }
        assert(front[k] == defs[k]);
        lemma_first_unknown(front, k);
    } else {
        assert forall|i: int| 0 <= i < front.len() implies field_spec(#[trigger] front[i])
            is Some by {
            assert(front[i] == defs[i]);
        }
        lemma_all_known(front);
    }
}

/// Declarations of known types stand for fields.
proof fn lemma_all_known(defs: Seq<crate::schema::FieldDefView>)
    requires
        forall|i: int| 0 <= i < defs.len() ==> field_spec(#[trigger] defs[i]) is Some,
    ensures
        field_specs(defs) is Ok,
    decreases defs.len(),
{
    if defs.len() > 0 {
        let front = defs.drop_last();
        assert forall|i: int| 0 <= i < front.len() implies field_spec(#[trigger] front[i])
            is Some by {
            assert(front[i] == defs[i]);
        }
        lemma_all_known(front);
        assert(field_spec(defs[defs.len() - 1]) is Some);
    }
}

/// The first bad name decides.
proof fn lemma_first_fault(fields: Seq<FieldSpec>, k: int, n: int)
    requires
        0 <= k < n <= fields.len(),
        bad_name(fields, k),
        forall|i: int| 0 <= i < k ==> !#[trigger] bad_name(fields, i),
    ensures
        name_fault(fields, n) == Some(fields[k].name),
    decreases n,
{
    if k < n - 1 {
        lemma_first_fault(fields, k, n - 1);
    } else {
        lemma_no_fault(fields, k);
    }
}

/// Good names are at no fault.
proof fn lemma_no_fault(fields: Seq<FieldSpec>, n: int)
    requires
        n <= fields.len(),
        forall|i: int| 0 <= i < n ==> !#[trigger] bad_name(fields, i),
    ensures
        name_fault(fields, n) is None,
    decreases n,
{
    if n > 0 {
        lemma_no_fault(fields, n - 1);
    }
}

/// Field numbers suffice for as many fields as 16 bits number, and for more only where an unknown
/// type comes in time.
pub proof fn law_field_numbers(schema: SchemaDef)
    requires
        schema.fields is Some,
    ensures
        ({
            let defs = schema.fields->Some_0@;
            &&& defs.len() <= 0x1_0000 ==> numbers_suffice(declared(Some(schema)))
            &&& defs.len() > 0x1_0000 && (forall|i: int|
                0 <= i <= 0x1_0000 ==> known_type(#[trigger] defs[i])) ==> !numbers_suffice(
                declared(Some(schema)),
            )
            &&& (exists|i: int|
                0 <= i <= 0x1_0000 && i < defs.len() && !known_type(#[trigger] defs[i]))
                ==> numbers_suffice(declared(Some(schema)))
        }),
{
    let defs = schema.fields->Some_0@;
    let views = declared(Some(schema));
    assert forall|i: int| 0 <= i < defs.len() implies known_type(#[trigger] defs[i]) == (field_spec(
        views[i],
    ) is Some) by {
        assert(views[i] == defs[i]@);
    }
    if exists|i: int| 0 <= i <= 0x1_0000 && i < defs.len() && !known_type(#[trigger] defs[i]) {
        let i = choose|i: int|
            0 <= i <= 0x1_0000 && i < defs.len() && !known_type(#[trigger] defs[i]);
        assert(field_spec(views[i]) is None);
    }
    if defs.len() > 0x1_0000 && (forall|i: int|
        0 <= i <= 0x1_0000 ==> known_type(#[trigger] defs[i])) {
        assert forall|i: int| 0 <= i <= 0x1_0000 && i < views.len() implies field_spec(
            #[trigger] views[i],
        ) is Some by {
            assert(known_type(defs[i]));
        }
    }
}

/// A search asks for what its options say: in the field of the given name, or in the first text
/// field; for its own query; in the mode of the given name; for as many hits as asked, or ten, from
/// the place asked, or the first; with the values of the fields that are given back just where that
/// is asked; with words marked in the searched field just where that is asked. It is refused just
/// where no field has the given name.
pub proof fn law_request_follows_options(
    fields: Seq<FieldSpec>,
    shown: Seq<u16>,
    query: Seq<char>,
    options: SearchOpts,
    request: SearchRequest,
)
    requires
        fields.len() <= 0x1_0000,
        first_text(fields, fields.len() as int) is Some,
    ensures
        requested(fields, shown, query, options) is Err <==> options.field is Some && forall|i: int|
            0 <= i < fields.len() ==> (#[trigger] fields[i]).name != options.field->Some_0@,
        requested(fields, shown, query, options) matches Err(fault) ==> fault
            == IndexFault::UnknownField(options.field->Some_0@),
        requested(fields, shown, query, options) == Ok::<_, IndexFault>(request@) ==> {
            &&& request.query@ == query
            &&& request.field < fields.len()
            &&& options.field matches Some(name) ==> {
                &&& fields[request.field as int].name == name@
                &&& forall|i: int| 0 <= i < request.field ==> (#[trigger] fields[i]).name != name@
            }
            &&& options.field is None ==> {
                &&& fields[request.field as int].kind is Text
                &&& forall|i: int| 0 <= i < request.field ==> !((#[trigger] fields[i]).kind is Text)
            }
            &&& options.limit matches Some(limit) ==> request.limit == limit
            &&& options.limit is None ==> request.limit == 10
            &&& options.offset matches Some(offset) ==> request.offset == offset
            &&& options.offset is None ==> request.offset == 0
            &&& options.stored_fields == Some(true) ==> request.stored_fields@ == shown
            &&& options.stored_fields != Some(true) ==> request.stored_fields@.len() == 0
            &&& options.highlight == Some(true) ==> request.highlight_fields@ == seq![request.field]
            &&& options.highlight != Some(true) ==> request.highlight_fields@.len() == 0
            &&& options.mode matches Some(mode) ==> {
                &&& request.mode == Mode::Exact <==> lower(mode@) == "exact"@
                &&& request.mode == Mode::Pinyin <==> lower(mode@) == "pinyin"@
                &&& request.mode == Mode::Fuzzy <==> lower(mode@) == "fuzzy"@
            }
            &&& options.mode is None ==> request.mode == Mode::Auto
        },
{
    lemma_first_text(fields, fields.len() as int);
    if let Some(name) = options.field {
        law_field_by_name(fields, name@);
    }
    if let Some(mode) = options.mode {
        law_modes(mode@);
    }
}

/// The modes have their own names, in whatever case; every other name is `auto`.
pub proof fn law_modes(name: Seq<char>)
    ensures
        named_mode(None) == Mode::Auto,
        named_mode(Some(name)) == Mode::Exact <==> lower(name) == "exact"@,
        named_mode(Some(name)) == Mode::Pinyin <==> lower(name) == "pinyin"@,
        named_mode(Some(name)) == Mode::Fuzzy <==> lower(name) == "fuzzy"@,
        named_mode(Some(name)) == Mode::Auto <==> lower(name) != "exact"@ && lower(name)
            != "pinyin"@ && lower(name) != "fuzzy"@,
{
    reveal_strlit("exact");
    reveal_strlit("pinyin");
    reveal_strlit("fuzzy");
    assert("exact"@.len() == 5 && "pinyin"@.len() == 6 && "fuzzy"@.len() == 5);
    assert("exact"@[0] == 'e' && "fuzzy"@[0] == 'f');
}

/// Options that are given are the options; where none are given, none says anything.
pub proof fn law_given_options(options: SearchOpts)
    ensures
        given(Some(options)) == options,
        given(None).field is None,
        given(None).mode is None,
        given(None).limit is None,
        given(None).offset is None,
        given(None).highlight is None,
        given(None).stored_fields is None,
{
}

/// An acknowledgement raises what is on record to the number given, never lowers it, and changes
/// nothing else.
pub proof fn law_acknowledgement(state: IndexState, sequence: u64)
    ensures
        ({
            let after = acknowledged(state, sequence);
            &&& after.persisted >= sequence
            &&& after.persisted >= state.persisted
            &&& after.persisted == sequence || after.persisted == state.persisted
            &&& after.fields == state.fields
            &&& after.documents == state.documents
            &&& after.tables == state.tables
            &&& after.words == state.words
            &&& after.sequence == state.sequence
            &&& after.sound == state.sound
        }),
{
}

/// Bytes give an index just where the indexer reads them, and then the index that it reads; where
/// it does not, its message is told.
pub proof fn law_checkpoint_verdict(fields: Seq<FieldSpec>, bytes: Seq<u8>)
    ensures
        decoded_checkpoint(fields, bytes) matches Ok(state) ==> checkpoint_index(fields, bytes)
            == Ok::<_, IndexFault>(state),
        decoded_checkpoint(fields, bytes) matches Err(message) ==> checkpoint_index(fields, bytes)
            == Err::<IndexState, _>(IndexFault::Indexer(message)),
{
}

/// A new index has no documents and no changes.
pub proof fn law_new_index(fields: Seq<FieldSpec>)
    ensures
        empty_index(fields).fields == fields,
        empty_index(fields).documents.dom() == Set::<Seq<char>>::empty(),
        empty_index(fields).documents.len() == 0,
        empty_index(fields).words == 0,
        empty_index(fields).sequence == 0,
        empty_index(fields).persisted == 0,
        empty_index(fields).sound,
{
    assert(empty_index(fields).documents.dom() =~= Set::empty());
}

/// Each failure has its own message.
pub proof fn law_messages(error: IndexError)
    ensures
        match error {
            IndexError::EmptySchema => fault_message(error@)
                == "schema must declare at least one field"@,
            IndexError::UnknownFieldType(ty) => fault_message(error@) == "unknown field type: "@
                + ty@,
            IndexError::NoTextField => fault_message(error@)
                == "schema must declare at least one text field"@,
            IndexError::UnknownField(name) => fault_message(error@) == "unknown field: "@ + name@,
            IndexError::NotInteger(number) => fault_message(error@)
                == "only integer numbers are supported, got "@ + number@,
            IndexError::UnsupportedValue => fault_message(error@) == "unsupported value type"@,
            IndexError::Json(message) => fault_message(error@) == message@,
            IndexError::Indexer(message) => fault_message(error@) == message@,
        },
        match error@ {
            IndexFault::EmptySchema => error is EmptySchema,
            IndexFault::UnknownFieldType(ty) => error is UnknownFieldType
                && error->UnknownFieldType_0@ == ty,
            IndexFault::NoTextField => error is NoTextField,
            IndexFault::UnknownField(name) => error is UnknownField && error->UnknownField_0@
                == name,
            IndexFault::NotInteger(number) => error is NotInteger && error->NotInteger_0@ == number,
            IndexFault::UnsupportedValue => error is UnsupportedValue,
            IndexFault::Json(message) => error is Json && error->Json_0@ == message,
            IndexFault::Indexer(message) => error is Indexer && error->Indexer_0@ == message,
        },
{
}

/// A list of texts stands for its texts, in order.
pub proof fn law_texts(list: Seq<String>)
    ensures
        texts(list).len() == list.len(),
        forall|i: int| 0 <= i < list.len() ==> #[trigger] texts(list)[i] == list[i]@,
{
}

/// A text is blank just where each of its parts is: nothing is blank, and one character is where it
/// is white space.
pub proof fn law_blank(one: char, front: Seq<char>, back: Seq<char>)
    ensures
        blank(Seq::empty()),
        blank(seq![one]) == white_space(one),
        blank(front + back) == (blank(front) && blank(back)),
{
    assert(blank(seq![one]) ==> white_space(seq![one][0]));
    let all = front + back;
    if blank(all) {
        assert forall|i: int| 0 <= i < front.len() implies white_space(#[trigger] front[i]) by {
            assert(white_space(all[i]));
        }
        assert forall|i: int| 0 <= i < back.len() implies white_space(#[trigger] back[i]) by {
            assert(white_space(all[front.len() + i]));
        }
    }
    if blank(front) && blank(back) {
        assert forall|i: int| 0 <= i < all.len() implies white_space(#[trigger] all[i]) by {
            if i < front.len() {
                assert(all[i] == front[i]);
            } else {
                assert(all[i] == back[i - front.len()]);
            }
        }
    }
}

/// Putting a document in counts one change, keeps the schema and what is on record, and makes of
/// the tables what the whole document can make of them.
pub proof fn law_upsert_takes_the_whole_document(
    before: IndexState,
    after: IndexState,
    document: DocumentView,
)
    requires
        upserted(before, after, document),
        before.sequence < u64::MAX,
    ensures
        can_become(before.fields, before.tables, document, after.tables),
        after.sequence == before.sequence + 1,
        after.fields == before.fields,
        after.persisted == before.persisted,
        has_room(before, document) ==> {
            &&& after.documents == before.documents.insert(
                document.id,
                kept(before.fields, document.entries),
            )
            &&& after.sound == before.sound
        },
{
}

/// A request is refused for a reason that the indexer gives of it, and for no other: with a number
/// of words that its query falls into, for what it asks.
pub proof fn law_refusals_have_reasons(state: IndexState, request: RequestView, fault: IndexFault)
    requires
        refused(state, request, fault),
    ensures
        fault matches IndexFault::Indexer(message) && exists|words: nat|
            {
                &&& #[trigger] can_cut(request.query, words)
                &&& request.query.len() == 0 ==> words == 0
                &&& request_fault(state.fields, request, words) == Some(message)
            },
{
}

/// What a request is refused for: a field that is no text field, a query of more than 64 words, a
/// place beyond the ten thousandth, a value that is not kept, or a field without marks. A request
/// with none of these is not refused, and one with one of these is.
pub proof fn law_reasons(fields: Seq<FieldSpec>, request: RequestView, words: nat)
    requires
        fields[request.field as int].flags.indexed,
    ensures
        request_fault(fields, request, words) is None <==> {
            &&& fields[request.field as int].kind is Text
            &&& words <= 64
            &&& request.offset + request.limit <= 10_000
            &&& forall|k: int|
                0 <= k < request.stored_fields.len() ==> fields[(
                #[trigger] request.stored_fields[k]) as int].flags.stored
            &&& forall|k: int|
                0 <= k < request.highlight_fields.len() ==> {
                    let field = fields[(#[trigger] request.highlight_fields[k]) as int];
                    field.flags.stored && field.kind is Text && field.kind->Text_0.positions
                }
        },
{
    lemma_unstored(fields, request.stored_fields);
    lemma_unmarkable(fields, request.highlight_fields);
}

/// A field is found whose values are not kept just where there is one.
proof fn lemma_unstored(fields: Seq<FieldSpec>, numbers: Seq<u16>)
    ensures
        first_unstored(fields, numbers) is None <==> forall|k: int|
            0 <= k < numbers.len() ==> fields[(#[trigger] numbers[k]) as int].flags.stored,
    decreases numbers.len(),
{
    if numbers.len() > 0 {
        let front = numbers.drop_last();
        lemma_unstored(fields, front);
        if forall|k: int|
            0 <= k < numbers.len() ==> fields[(#[trigger] numbers[k]) as int].flags.stored {
            assert forall|k: int| 0 <= k < front.len() implies fields[(
            #[trigger] front[k]) as int].flags.stored by {
                assert(front[k] == numbers[k]);
            }
            assert(numbers[numbers.len() - 1] == numbers.last());
        }
        if first_unstored(fields, numbers) is None {
            assert forall|k: int| 0 <= k < numbers.len() implies fields[(
            #[trigger] numbers[k]) as int].flags.stored by {
                if k < front.len() {
                    assert(front[k] == numbers[k]);
                }
            }
        }
    }
}

/// A field is found in which words cannot be marked just where there is one.
proof fn lemma_unmarkable(fields: Seq<FieldSpec>, numbers: Seq<u16>)
    ensures
        first_unmarkable(fields, numbers) is None <==> forall|k: int|
            0 <= k < numbers.len() ==> can_highlight(fields[(#[trigger] numbers[k]) as int]),
    decreases numbers.len(),
{
    if numbers.len() > 0 {
        let front = numbers.drop_last();
        lemma_unmarkable(fields, front);
        if forall|k: int|
            0 <= k < numbers.len() ==> can_highlight(fields[(#[trigger] numbers[k]) as int]) {
            assert forall|k: int| 0 <= k < front.len() implies can_highlight(
                fields[(#[trigger] front[k]) as int],
            ) by {
                assert(front[k] == numbers[k]);
            }
            assert(numbers[numbers.len() - 1] == numbers.last());
        }
        if first_unmarkable(fields, numbers) is None {
            assert forall|k: int| 0 <= k < numbers.len() implies can_highlight(
                fields[(#[trigger] numbers[k]) as int],
            ) by {
                if k < front.len() {
                    assert(front[k] == numbers[k]);
                }
            }
        }
    }
}

/// The members that the parser hands over are the members: names and values, in order.
pub proof fn law_members_are_what_they_say(members: Seq<(String, serde_json::Value)>)
    ensures
        member_views(members).len() == members.len(),
        forall|i: int|
            0 <= i < members.len() ==> (#[trigger] member_views(members)[i]).0 == members[i].0@
                && member_views(members)[i].1 == json_tree(members[i].1),
{
}

} // verus!
