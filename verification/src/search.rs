//! Searches: what is asked of the index, what it answers and how the answer is written.
use memory_indexer::{FieldId, MemoryIndex, Query, SearchOptions};
use vstd::prelude::*;
use vstd::string::*;

use crate::engine::{from_indexer, index_state, indexer_values, IndexState};
use crate::json::{
    at_least, json_tree, json_trees, make_json, member_views, object_of, values_json,
    values_to_json, Json,
    JsonNumber, JsonPart,
};
use crate::schema::{indexer_message, schema_fields, FieldKind, FieldSpec};
use crate::tables::comes_before;
use crate::text::{decimal, lower, MAX_TEXT};
use crate::value::{value_views, FieldValue, ValueView};

verus! {

/// How the words of a query are matched.
#[derive(Clone, Copy, Debug, PartialEq, Eq)]
pub enum Mode {
    Exact,
    Pinyin,
    Fuzzy,
    Auto,
}

/// The mode that a name stands for, in whatever case; any other name, or none, is `Auto`.
pub open spec fn named_mode(name: Option<Seq<char>>) -> Mode {
    match name {
        Some(n) => if lower(n) == "exact"@ {
            Mode::Exact
        } else if lower(n) == "pinyin"@ {
            Mode::Pinyin
        } else if lower(n) == "fuzzy"@ {
            Mode::Fuzzy
        } else {
            Mode::Auto
        },
        None => Mode::Auto,
    }
}

/// The mode that a name stands for, in whatever case; any other name, or none, is `Auto`.
pub fn parse_mode(mode: Option<&str>) -> (r: Mode)
    ensures
        r == named_mode(
            match mode {
                Some(m) => Some(m@),
                None => None,
            },
        ),
{
    match mode {
        Some(m) => {
            let name = m.to_ascii_lowercase();
            if name.as_str().eq("exact") {
                Mode::Exact
            } else if name.as_str().eq("pinyin") {
                Mode::Pinyin
            } else if name.as_str().eq("fuzzy") {
                Mode::Fuzzy
            } else {
                Mode::Auto
            }
        },
        None => Mode::Auto,
    }
}

/// What a caller may say of a search.
#[derive(Clone, Debug, PartialEq, Eq)]
pub struct SearchOpts {
    /// The text field to search; the first one where nothing is said.
    pub field: Option<String>,
    /// `exact`, `pinyin`, `fuzzy` or `auto`.
    pub mode: Option<String>,
    /// How many hits to give at most; 10 where nothing is said.
    pub limit: Option<usize>,
    /// How many hits to leave out at the front; none where nothing is said.
    pub offset: Option<usize>,
    /// Whether to tell where the words stand in the searched field.
    pub highlight: Option<bool>,
    /// Whether to give the stored values of the hits.
    pub stored_fields: Option<bool>,
}

impl Default for SearchOpts {
    fn default() -> (r: SearchOpts)
        ensures
            r.field is None,
            r.mode is None,
            r.limit is None,
            r.offset is None,
            r.highlight is None,
            r.stored_fields is None,
    {
        SearchOpts {
            field: None,
            mode: None,
            limit: None,
            offset: None,
            highlight: None,
            stored_fields: None,
        }
    }
}

/// A search as it is put to the index.
pub struct SearchRequest {
    pub field: u16,
    pub query: String,
    pub mode: Mode,
    pub limit: usize,
    pub offset: usize,
    /// The fields whose values each hit is to give.
    pub stored_fields: Vec<u16>,
    /// The fields in which the words are to be marked.
    pub highlight_fields: Vec<u16>,
}

/// What a [`SearchRequest`] stands for.
#[verifier::ext_equal]
pub struct RequestView {
    pub field: u16,
    pub query: Seq<char>,
    pub mode: Mode,
    pub limit: nat,
    pub offset: nat,
    pub stored_fields: Seq<u16>,
    pub highlight_fields: Seq<u16>,
}

impl View for SearchRequest {
    type V = RequestView;

    open spec fn view(&self) -> RequestView {
        RequestView {
            field: self.field,
            query: self.query@,
            mode: self.mode,
            limit: self.limit as nat,
            offset: self.offset as nat,
            stored_fields: self.stored_fields@,
            highlight_fields: self.highlight_fields@,
        }
    }
}

/// The places of the searched words in one value of a field.
#[derive(Clone, Debug, PartialEq, Eq)]
pub struct Highlight {
    pub field: u16,
    pub spans: Vec<(u32, u32)>,
}

/// One document that a search found.
pub struct SearchHit {
    pub id: String,
    /// The score, as the JSON number that it is written as.
    pub score: serde_json::Value,
    pub fields: Vec<(u16, Vec<FieldValue>)>,
    pub highlights: Vec<Highlight>,
}

/// The answer to a search.
pub struct SearchResult {
    /// How many documents match.
    pub total: usize,
    /// Those that were asked for, the best first.
    pub hits: Vec<SearchHit>,
}

/// What a [`SearchHit`] stands for.
#[verifier::ext_equal]
pub struct HitView {
    pub id: Seq<char>,
    pub score: Json,
    pub fields: Seq<(u16, Seq<ValueView>)>,
    pub highlights: Seq<(u16, Seq<(u32, u32)>)>,
}

/// What a [`SearchResult`] stands for.
#[verifier::ext_equal]
pub struct ResultView {
    pub total: nat,
    pub hits: Seq<HitView>,
}

/// The places that a list of highlights stands for.
pub open spec fn highlight_views(highlights: Seq<Highlight>) -> Seq<(u16, Seq<(u32, u32)>)> {
    highlights.map_values(|h: Highlight| (h.field, h.spans@))
}

/// The values that a list of fields stands for.
pub open spec fn field_views(fields: Seq<(u16, Vec<FieldValue>)>) -> Seq<(u16, Seq<ValueView>)> {
    fields.map_values(|f: (u16, Vec<FieldValue>)| (f.0, value_views(f.1@)))
}

impl View for SearchHit {
    type V = HitView;

    open spec fn view(&self) -> HitView {
        HitView {
            id: self.id@,
            score: json_tree(self.score),
            fields: field_views(self.fields@),
            highlights: highlight_views(self.highlights@),
        }
    }
}

/// What a list of hits stands for.
pub open spec fn hit_views(hits: Seq<SearchHit>) -> Seq<HitView> {
    hits.map_values(|h: SearchHit| h@)
}

impl View for SearchResult {
    type V = ResultView;

    open spec fn view(&self) -> ResultView {
        ResultView { total: self.total as nat, hits: hit_views(self.hits@) }
    }
}

/// The first field among `numbers` whose values are not kept.
pub open spec fn first_unstored(fields: Seq<FieldSpec>, numbers: Seq<u16>) -> Option<u16>
    decreases numbers.len(),
{
    if numbers.len() == 0 {
        None
    } else {
        match first_unstored(fields, numbers.drop_last()) {
            Some(n) => Some(n),
            None => if fields[numbers.last() as int].flags.stored {
                None
            } else {
                Some(numbers.last())
            },
        }
    }
}

/// Words can be marked in a field that is a text field with positions and keeps its values.
pub open spec fn can_highlight(field: FieldSpec) -> bool {
    &&& field.kind matches FieldKind::Text(text)
    &&& text.positions
    &&& field.flags.stored
}

/// The first field among `numbers` in which words cannot be marked.
pub open spec fn first_unmarkable(fields: Seq<FieldSpec>, numbers: Seq<u16>) -> Option<u16>
    decreases numbers.len(),
{
    if numbers.len() == 0 {
        None
    } else {
        match first_unmarkable(fields, numbers.drop_last()) {
            Some(n) => Some(n),
            None => if can_highlight(fields[numbers.last() as int]) {
                None
            } else {
                Some(numbers.last())
            },
        }
    }
}

/// Searches look at indexed text fields.
pub open spec fn searchable(field: FieldSpec) -> bool {
    field.kind is Text && field.flags.indexed
}

/// The largest place of a hit that can be asked for.
pub open spec fn max_window() -> nat {
    10_000
}

/// Why the index refuses a request whose query falls into a number of words.
pub open spec fn request_fault(
    fields: Seq<FieldSpec>,
    request: RequestView,
    words: nat,
) -> Option<Seq<char>> {
    if !searchable(fields[request.field as int]) {
        Some("Text query requires indexed Text field"@)
    } else if words > 64 {
        Some(too_many_words(words))
    } else if request.offset + request.limit > max_window() {
        Some("search window exceeds 10000"@)
    } else {
        match first_unstored(fields, request.stored_fields) {
            Some(n) => Some("field "@ + fields[n as int].name + " is not stored"@),
            None => match first_unmarkable(fields, request.highlight_fields) {
                Some(n) => Some("field "@ + fields[n as int].name + " cannot be highlighted"@),
                None => None,
            },
        }
    }
}

/// How the index refuses a query that falls into too many words.
pub open spec fn too_many_words(words: nat) -> Seq<char> {
    "query has "@ + decimal(words as int) + " tokens; the limit is 64"@
}

/// How many of `total` matches a request shows.
pub open spec fn shown(total: nat, offset: nat, limit: nat) -> nat {
    if total <= offset {
        0
    } else if total - offset <= limit {
        (total - offset) as nat
    } else {
        limit
    }
}

/// The values of a document for the fields that were asked for, in the order of the request.
pub open spec fn values_for(document: Map<u16, Seq<ValueView>>, numbers: Seq<u16>) -> Seq<
    (u16, Seq<ValueView>),
>
    decreases numbers.len(),
{
    if numbers.len() == 0 {
        Seq::empty()
    } else {
        let front = values_for(document, numbers.drop_last());
        let n = numbers.last();
        if document.contains_key(n) {
            front.push((n, document[n]))
        } else {
            front
        }
    }
}

/// A hit is a document of the index, with those of its values that were asked for, and with
/// words marked in no field but those that were asked for.
pub open spec fn hit_of(state: IndexState, request: RequestView, hit: HitView) -> bool {
    &&& state.documents.contains_key(hit.id)
    &&& hit.fields == values_for(state.documents[hit.id], request.stored_fields)
    &&& forall|i: int|
        0 <= i < hit.highlights.len() ==> request.highlight_fields.contains(
            (#[trigger] hit.highlights[i]).0,
        )
}

/// One hit comes before another one by right: its score is at least that of the other, and where
/// the scores are the same its id comes first.
pub open spec fn ranked(better: HitView, worse: HitView) -> bool {
    match (better.score, worse.score) {
        (Json::Num(JsonNumber::Fraction(a)), Json::Num(JsonNumber::Fraction(b))) => {
            &&& at_least(a, b)
            &&& a == b ==> comes_before(better.id, worse.id)
        },
        _ => true,
    }
}

/// What holds of every answer to a request: the part of the matches that was asked for, the best
/// first, each hit a document of its own.
pub open spec fn answers(state: IndexState, request: RequestView, result: ResultView) -> bool {
    &&& result.total <= state.documents.len()
    &&& result.hits.len() == shown(result.total, request.offset, request.limit)
    &&& forall|i: int|
        0 <= i < result.hits.len() ==> hit_of(state, request, #[trigger] result.hits[i])
    &&& forall|i: int, j: int|
        0 <= i < j < result.hits.len() ==> (#[trigger] result.hits[i]).id != (
        #[trigger] result.hits[j]).id
    &&& forall|i: int, j: int|
        0 <= i < j < result.hits.len() ==> ranked(#[trigger] result.hits[i], #[trigger] result.hits[j])
    &&& request.query.len() == 0 ==> result.total == 0
}

/// One hit as the indexer gives it: its id, its score, its stored values and its highlights.
pub(crate) struct FoundHit(
    pub String,
    pub serde_json::Value,
    pub Vec<(u16, Vec<memory_indexer::Value>)>,
    pub Vec<(u16, Vec<(u32, u32)>)>,
);

/// The places that a list of found highlights stands for.
pub(crate) open spec fn found_highlights(highlights: Seq<(u16, Vec<(u32, u32)>)>) -> Seq<
    (u16, Seq<(u32, u32)>),
> {
    highlights.map_values(|h: (u16, Vec<(u32, u32)>)| (h.0, h.1@))
}

/// The values that a list of found fields stands for.
pub(crate) open spec fn found_fields(fields: Seq<(u16, Vec<memory_indexer::Value>)>) -> Seq<
    (u16, Seq<ValueView>),
> {
    fields.map_values(|f: (u16, Vec<memory_indexer::Value>)| (f.0, indexer_values(f.1@)))
}

impl FoundHit {
    /// What this hit stands for.
    pub(crate) open spec fn shape(&self) -> HitView {
        HitView {
            id: self.0@,
            score: json_tree(self.1),
            fields: found_fields(self.2@),
            highlights: found_highlights(self.3@),
        }
    }
}

/// What a list of found hits stands for.
pub(crate) open spec fn found_hits(hits: Seq<FoundHit>) -> Seq<HitView> {
    hits.map_values(|h: FoundHit| h.shape())
}

/// The search mode of the indexer.
#[verifier::external_type_specification]
#[verifier::external_body]
pub struct ExSearchMode(memory_indexer::SearchMode);

/// What a search mode of the indexer stands for.
pub uninterp spec fn indexer_mode(mode: memory_indexer::SearchMode) -> Mode;

/// Makes a `memory_indexer::SearchMode` of a mode, variant by variant.
#[verifier::external_body]
fn to_indexer_mode(mode: Mode) -> (r: memory_indexer::SearchMode)
    ensures
        indexer_mode(r) == mode,
{
    match mode {
        Mode::Exact => memory_indexer::SearchMode::Exact,
        Mode::Pinyin => memory_indexer::SearchMode::Pinyin,
        Mode::Fuzzy => memory_indexer::SearchMode::Fuzzy,
        Mode::Auto => memory_indexer::SearchMode::Auto,
    }
}

/// The fields that a request speaks of exist.
pub open spec fn known_fields(fields: Seq<FieldSpec>, request: RequestView) -> bool {
    &&& request.field < fields.len()
    &&& forall|i: int|
        0 <= i < request.stored_fields.len() ==> #[trigger] request.stored_fields[i] < fields.len()
    &&& forall|i: int|
        0 <= i < request.highlight_fields.len() ==> #[trigger] request.highlight_fields[i]
            < fields.len()
}

/// Whether `memory_indexer::MemoryIndex::search` on an index can answer a request with a result.
/// The answer is not a function of the request: which near words a query reaches, how the matches
/// are scored and so in which order they come can differ from one run to the next.
pub uninterp spec fn can_answer(
    fields: Seq<FieldSpec>,
    tables: Seq<u8>,
    request: RequestView,
    result: ResultView,
) -> bool;

/// Whether `memory_indexer::MemoryIndex::search` can cut a query into a number of words. It is no
/// function of the query: Chinese words are told apart by logarithms, which no two machines need
/// to round alike.
pub uninterp spec fn can_cut(query: Seq<char>, words: nat) -> bool;

/// The index can come to a verdict on a request: its query falls into a number of words, none
/// where it is empty, with which the request is refused for a reason or for none.
pub open spec fn verdict(
    fields: Seq<FieldSpec>,
    request: RequestView,
    reason: Option<Seq<char>>,
) -> bool {
    exists|words: nat|
        {
            &&& #[trigger] can_cut(request.query, words)
            &&& request.query.len() == 0 ==> words == 0
            &&& request_fault(fields, request, words) == reason
        }
}

/// `memory_indexer::MemoryIndex::search` answers a text query from the tables of an index, the
/// hits in the order of their scores and those of one score in the order of their ids, or
/// refuses it, as [`verdict`] says. It panics where the tables disagree, and where a
/// counter of the tokenizer overflows.
#[verifier::external_body]
fn ask(
    index: &MemoryIndex,
    request: SearchRequest,
    mode: memory_indexer::SearchMode,
) -> (r: Result<(usize, Vec<FoundHit>), memory_indexer::Error>)
    requires
        index_state(*index).sound,
        request.query@.len() <= MAX_TEXT,
        known_fields(index_state(*index).fields, request@),
        indexer_mode(mode) == request.mode,
    ensures
        match r {
            Ok((total, hits)) => {
                let result = ResultView { total: total as nat, hits: found_hits(hits@) };
                let state = index_state(*index);
                &&& exists|words: nat|
                    words <= 64 && #[trigger] can_cut(request.query@, words)
                &&& verdict(state.fields, request@, None)
                &&& can_answer(state.fields, state.tables, request@, result)
                &&& answers(state, request@, result)
            },
            Err(e) => verdict(index_state(*index).fields, request@, Some(indexer_message(e))),
        },
{
    let mut options = SearchOptions::new(request.limit);
    options.offset = request.offset;
    options.stored_fields = request.stored_fields.into_iter().map(FieldId).collect();
    options.highlight_fields = request.highlight_fields.into_iter().map(FieldId).collect();
    let found = index.search(&Query::text(FieldId(request.field), request.query, mode), options)?;
    let hits = found.hits.into_iter().map(|hit| FoundHit(
        hit.id,
        hit.score.into(),
        hit.fields.into_iter().map(|f| (f.0.0, f.1)).collect(),
        hit.highlights.into_iter().map(|h| (h.field.0, h.spans)).collect(),
    ));
    Ok((found.total, hits.collect()))
}

/// Makes plain values of the fields of a hit.
fn open_fields(found: Vec<(u16, Vec<memory_indexer::Value>)>) -> (r: Vec<(u16, Vec<FieldValue>)>)
    ensures
        field_views(r@) == found_fields(found@),
{
    let mut fields: Vec<(u16, Vec<FieldValue>)> = Vec::new();
    let ghost all = found_fields(found@);
    for entry in iter: found
        invariant
            iter.seq() == found@,
            all == found_fields(found@),
            field_views(fields@) =~= all.take(iter.index() as int),
    {
        let ghost before = fields@;
        let (number, stored) = entry;
        let ghost views = indexer_values(stored@);
        let mut values: Vec<FieldValue> = Vec::new();
        for value in inner: stored
            invariant
                inner.seq() == stored@,
                views == indexer_values(stored@),
                value_views(values@) =~= views.take(inner.index() as int),
        {
            let ghost made = values@;
            values.push(from_indexer(value));
            assert(value_views(values@) =~= value_views(made).push(
                views[inner.index() as int],
            ));
        }
        assert(views.take(views.len() as int) =~= views);
        fields.push((number, values));
        assert(field_views(fields@) =~= field_views(before).push(all[iter.index() as int]));
    }
    assert(all.take(all.len() as int) =~= all);
    fields
}

/// Makes plain values of the highlights of a hit.
fn open_highlights(found: Vec<(u16, Vec<(u32, u32)>)>) -> (r: Vec<Highlight>)
    ensures
        highlight_views(r@) == found_highlights(found@),
{
    let mut highlights: Vec<Highlight> = Vec::new();
    let ghost all = found_highlights(found@);
    for entry in iter: found
        invariant
            iter.seq() == found@,
            all == found_highlights(found@),
            highlight_views(highlights@) =~= all.take(iter.index() as int),
    {
        let ghost before = highlights@;
        let (field, spans) = entry;
        highlights.push(Highlight { field, spans });
        assert(highlight_views(highlights@) =~= highlight_views(before).push(
            all[iter.index() as int],
        ));
    }
    assert(all.take(all.len() as int) =~= all);
    highlights
}

/// Puts a request to an index.
pub(crate) fn run_search(index: &MemoryIndex, request: SearchRequest) -> (r: Result<
    SearchResult,
    memory_indexer::Error,
>)
    requires
        index_state(*index).sound,
        request.query@.len() <= MAX_TEXT,
        known_fields(index_state(*index).fields, request@),
    ensures
        match r {
            Ok(result) => {
                let state = index_state(*index);
                &&& verdict(state.fields, request@, None)
                &&& can_answer(state.fields, state.tables, request@, result@)
                &&& answers(state, request@, result@)
            },
            Err(e) => verdict(index_state(*index).fields, request@, Some(indexer_message(e))),
        },
{
    let mode = to_indexer_mode(request.mode);
    match ask(index, request, mode) {
        Err(e) => Err(e),
        Ok((total, found)) => {
            let ghost all = found_hits(found@);
            let mut hits: Vec<SearchHit> = Vec::new();
            for hit in iter: found
                invariant
                    iter.seq() == found@,
                    all == found_hits(found@),
                    hit_views(hits@) =~= all.take(iter.index() as int),
            {
                let ghost before = hits@;
                let FoundHit(id, score, fields, highlights) = hit;
                hits.push(
                    SearchHit {
                        id,
                        score,
                        fields: open_fields(fields),
                        highlights: open_highlights(highlights),
                    },
                );
                assert(hit_views(hits@) =~= hit_views(before).push(all[iter.index() as int]));
            }
            assert(all.take(all.len() as int) =~= all);
            Ok(SearchResult { total, hits })
        },
    }
}

/// `memory_indexer::Schema::field` gives the field with a number, here its name.
#[verifier::external_body]
fn field_name(schema: &memory_indexer::Schema, number: u16) -> (r: Option<String>)
    ensures
        match r {
            Some(name) => number < schema_fields(*schema).len() && name@ == schema_fields(
                *schema,
            )[number as int].name,
            None => number >= schema_fields(*schema).len(),
        },
{
    schema.field(FieldId(number)).map(|field| field.name.clone())
}

/// The name of the field with a number; empty where there is none.
pub open spec fn name_of(fields: Seq<FieldSpec>, number: u16) -> Seq<char> {
    if number < fields.len() {
        fields[number as int].name
    } else {
        Seq::empty()
    }
}

/// The values of a hit in JSON, by the names of their fields.
pub open spec fn fields_json(fields: Seq<FieldSpec>, values: Seq<(u16, Seq<ValueView>)>) -> Json {
    Json::Object(
        object_of(
            values.map_values(
                |f: (u16, Seq<ValueView>)| (name_of(fields, f.0), values_json(f.1)),
            ),
        ),
    )
}

/// A span in JSON: an array of its two ends.
pub open spec fn span_json(span: (u32, u32)) -> Json {
    Json::Array(
        seq![
            Json::Num(JsonNumber::Integer(span.0 as int)),
            Json::Num(JsonNumber::Integer(span.1 as int)),
        ],
    )
}

/// Spans in JSON.
pub open spec fn spans_json(spans: Seq<(u32, u32)>) -> Json {
    Json::Array(spans.map_values(|s: (u32, u32)| span_json(s)))
}

/// The highlights of a hit in JSON, by the names of their fields. Of several for one field the
/// last one stays.
pub open spec fn highlights_json(
    fields: Seq<FieldSpec>,
    highlights: Seq<(u16, Seq<(u32, u32)>)>,
) -> Json {
    Json::Object(
        object_of(
            highlights.map_values(
                |h: (u16, Seq<(u32, u32)>)| (name_of(fields, h.0), spans_json(h.1)),
            ),
        ),
    )
}

/// A hit in JSON.
pub open spec fn hit_json(fields: Seq<FieldSpec>, hit: HitView) -> Json {
    Json::Object(
        map![
            "id"@ => Json::Text(hit.id),
            "score"@ => hit.score,
            "fields"@ => fields_json(fields, hit.fields),
            "highlights"@ => highlights_json(fields, hit.highlights)
        ],
    )
}

/// The answer to a search in JSON.
pub open spec fn result_json(fields: Seq<FieldSpec>, result: ResultView) -> Json {
    Json::Object(
        map![
            "total"@ => Json::Num(JsonNumber::Integer(result.total as int)),
            "hits"@ => Json::Array(result.hits.map_values(|h: HitView| hit_json(fields, h)))
        ],
    )
}

/// The name of the field with a number; empty where there is none.
fn shown_name(schema: &memory_indexer::Schema, number: u16) -> (r: String)
    ensures
        r@ == name_of(schema_fields(*schema), number),
{
    match field_name(schema, number) {
        Some(name) => name,
        None => String::new(),
    }
}

/// Writes the values of a hit as JSON.
fn serialize_fields(
    schema: &memory_indexer::Schema,
    fields: &Vec<(u16, Vec<FieldValue>)>,
) -> (r: serde_json::Value)
    ensures
        json_tree(r) == fields_json(schema_fields(*schema), field_views(fields@)),
{
    let ghost all = field_views(fields@).map_values(
        |f: (u16, Seq<ValueView>)| (name_of(schema_fields(*schema), f.0), values_json(f.1)),
    );
    let mut members: Vec<(String, serde_json::Value)> = Vec::new();
    for i in 0..fields.len()
        invariant
            all == field_views(fields@).map_values(
                |f: (u16, Seq<ValueView>)| (name_of(schema_fields(*schema), f.0), values_json(f.1)),
            ),
            member_views(members@) =~= all.take(i as int),
    {
        let ghost before = members@;
        let (number, values) = &fields[i];
        members.push((shown_name(schema, *number), values_to_json(values)));
        assert(member_views(members@) =~= member_views(before).push(all[i as int]));
    }
    assert(all.take(all.len() as int) =~= all);
    make_json(JsonPart::Object(members))
}

/// Writes spans as JSON.
fn serialize_spans(spans: &Vec<(u32, u32)>) -> (r: serde_json::Value)
    ensures
        json_tree(r) == spans_json(spans@),
{
    let ghost all = spans@.map_values(|s: (u32, u32)| span_json(s));
    let mut items: Vec<serde_json::Value> = Vec::new();
    for i in 0..spans.len()
        invariant
            all == spans@.map_values(|s: (u32, u32)| span_json(s)),
            json_trees(items@) =~= all.take(i as int),
    {
        let ghost before = items@;
        let (start, end) = spans[i];
        let ends = vec![
            make_json(JsonPart::Count(start as u64)),
            make_json(JsonPart::Count(end as u64)),
        ];
        assert(Json::Array(json_trees(ends@)) == span_json(spans@[i as int])) by {
            assert(json_trees(ends@) =~= span_json(spans@[i as int])->Array_0);
        }
        items.push(make_json(JsonPart::Array(ends)));
        assert(json_trees(items@) =~= json_trees(before).push(all[i as int]));
    }
    assert(all.take(all.len() as int) =~= all);
    make_json(JsonPart::Array(items))
}

/// Writes the highlights of a hit as JSON.
fn serialize_highlights(
    schema: &memory_indexer::Schema,
    highlights: &Vec<Highlight>,
) -> (r: serde_json::Value)
    ensures
        json_tree(r) == highlights_json(schema_fields(*schema), highlight_views(highlights@)),
{
    let ghost all = highlight_views(highlights@).map_values(
        |h: (u16, Seq<(u32, u32)>)| (name_of(schema_fields(*schema), h.0), spans_json(h.1)),
    );
    let mut members: Vec<(String, serde_json::Value)> = Vec::new();
    for i in 0..highlights.len()
        invariant
            all == highlight_views(highlights@).map_values(
                |h: (u16, Seq<(u32, u32)>)| (name_of(schema_fields(*schema), h.0), spans_json(h.1)),
            ),
            member_views(members@) =~= all.take(i as int),
    {
        let ghost before = members@;
        let highlight = &highlights[i];
        members.push((shown_name(schema, highlight.field), serialize_spans(&highlight.spans)));
        assert(member_views(members@) =~= member_views(before).push(all[i as int]));
    }
    assert(all.take(all.len() as int) =~= all);
    make_json(JsonPart::Object(members))
}

/// Writes a hit as JSON.
fn serialize_hit(schema: &memory_indexer::Schema, hit: &SearchHit) -> (r: serde_json::Value)
    ensures
        json_tree(r) == hit_json(schema_fields(*schema), hit@),
{
    let members = vec![
        (String::from_str("id"), make_json(JsonPart::Text(hit.id.clone()))),
        (String::from_str("score"), hit.score.clone()),
        (String::from_str("fields"), serialize_fields(schema, &hit.fields)),
        (String::from_str("highlights"), serialize_highlights(schema, &hit.highlights)),
    ];
    proof {
        let fields = schema_fields(*schema);
        assert(member_views(members@) =~= seq![
            ("id"@, Json::Text(hit@.id)),
            ("score"@, hit@.score),
            ("fields"@, fields_json(fields, hit@.fields)),
            ("highlights"@, highlights_json(fields, hit@.highlights)),
        ]);
        lemma_object_of_four(
            member_views(members@)[0],
            member_views(members@)[1],
            member_views(members@)[2],
            member_views(members@)[3],
        );
    }
    make_json(JsonPart::Object(members))
}

/// An object of four members is filled one by one.
proof fn lemma_object_of_four(
    a: (Seq<char>, Json),
    b: (Seq<char>, Json),
    c: (Seq<char>, Json),
    d: (Seq<char>, Json),
)
    ensures
        object_of(seq![a, b, c, d]) == map![a.0 => a.1, b.0 => b.1, c.0 => c.1, d.0 => d.1],
{
    lemma_object_of_two(a, b);
    assert(seq![a, b, c, d].drop_last() =~= seq![a, b, c]);
    assert(seq![a, b, c].drop_last() =~= seq![a, b]);
    assert(object_of(seq![a, b, c]) == object_of(seq![a, b]).insert(c.0, c.1));
}

/// An object of two members is filled one by one.
proof fn lemma_object_of_two(a: (Seq<char>, Json), b: (Seq<char>, Json))
    ensures
        object_of(seq![a, b]) == map![a.0 => a.1, b.0 => b.1],
{
    assert(seq![a, b].drop_last() =~= seq![a]);
    assert(seq![a].drop_last() =~= Seq::empty());
    assert(object_of(Seq::<(Seq<char>, Json)>::empty()) == Map::<Seq<char>, Json>::empty());
    assert(object_of(seq![a]) == Map::<Seq<char>, Json>::empty().insert(a.0, a.1));
}

/// Writes the answer to a search as JSON: `total`, and under `hits` the `id`, the `score`, the
/// `fields` and the `highlights` of each hit.
pub fn serialize_result(
    schema: &memory_indexer::Schema,
    result: &SearchResult,
) -> (r: serde_json::Value)
    ensures
        json_tree(r) == result_json(schema_fields(*schema), result@),
{
    let ghost fields = schema_fields(*schema);
    let ghost all = result@.hits.map_values(|h: HitView| hit_json(fields, h));
    let mut hits: Vec<serde_json::Value> = Vec::new();
    for i in 0..result.hits.len()
        invariant
            fields == schema_fields(*schema),
            all == result@.hits.map_values(|h: HitView| hit_json(fields, h)),
            json_trees(hits@) =~= all.take(i as int),
    {
        let ghost before = hits@;
        hits.push(serialize_hit(schema, &result.hits[i]));
        assert(json_trees(hits@) =~= json_trees(before).push(all[i as int]));
    }
    assert(all.take(all.len() as int) =~= all);
    let members = vec![
        (String::from_str("total"), make_json(JsonPart::Count(result.total as u64))),
        (String::from_str("hits"), make_json(JsonPart::Array(hits))),
    ];
    proof {
        assert(member_views(members@) =~= seq![
            ("total"@, Json::Num(JsonNumber::Integer(result@.total as int))),
            ("hits"@, Json::Array(all)),
        ]);
        lemma_object_of_two(member_views(members@)[0], member_views(members@)[1]);
    }
    make_json(JsonPart::Object(members))
}

} // verus!
