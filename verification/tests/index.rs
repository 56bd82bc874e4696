use assetvault::error::IndexError;
use assetvault::index::SearchIndex;
use assetvault::schema::{can_number, default_fields, FieldDef, SchemaDef};
use assetvault::search::{parse_mode, Mode, SearchOpts};
use serde_json::Value;

fn field(name: &str, ty: &str) -> FieldDef {
    FieldDef {
        name: name.to_string(),
        ty: ty.to_string(),
        pinyin: false,
        prefix: false,
        fuzzy: false,
        positions: false,
        stored: true,
    }
}

fn schema(fields: Vec<FieldDef>) -> Option<SchemaDef> {
    Some(SchemaDef { fields: Some(fields) })
}

fn article_index() -> SearchIndex {
    SearchIndex::new(schema(vec![
        field("title", "text"),
        field("tags", "keyword"),
        field("rank", "i64"),
        field("draft", "bool"),
    ]))
    .unwrap()
}

fn options() -> SearchOpts {
    SearchOpts::default()
}

fn found(index: &SearchIndex, query: &str, options: SearchOpts) -> Value {
    serde_json::from_str(&index.search(query.to_string(), Some(options)).unwrap()).unwrap()
}

fn refusal(index: &mut SearchIndex, fields: &str) -> String {
    index.upsert("a".to_string(), fields.to_string()).unwrap_err().message()
}

#[test]
fn upsert_search_and_checkpoint_roundtrip() {
    let mut index = SearchIndex::new(None).unwrap();
    index
        .upsert("a".into(), "{\"content\":\"你好世界 memory-indexer\"}".into())
        .unwrap();

    let result: serde_json::Value =
        serde_json::from_str(&index.search("nihao".into(), None).unwrap()).unwrap();
    assert_eq!(result["total"], 1);
    assert_eq!(result["hits"][0]["id"], "a");

    let snapshot = index.checkpoint().unwrap();
    let restored = SearchIndex::from_checkpoint(None, snapshot).unwrap();
    assert_eq!(restored.len(), 1);
}

#[test]
fn unknown_field_is_rejected() {
    let mut index = SearchIndex::new(None).unwrap();
    assert!(index.upsert("a".into(), "{\"nope\":\"x\"}".into()).is_err());
}

#[test]
fn refused_documents_change_nothing() {
    let mut index = article_index();
    assert_eq!(refusal(&mut index, "{\"nope\":\"x\"}"), "unknown field: nope");
    assert_eq!(index.len(), 0);
    assert_eq!(index.sequence(), 0);
    assert!(!index.has_unpersisted_changes());
}

#[test]
fn the_first_faulty_member_decides() {
    let mut index = article_index();
    let fault = index.upsert("a".into(), "{\"nope\":1,\"rank\":1.5}".into()).unwrap_err();
    assert!(matches!(fault, IndexError::UnknownField(_)));
    let fault = index.upsert("a".into(), "{\"rank\":1.5,\"zzz\":1}".into()).unwrap_err();
    assert!(matches!(fault, IndexError::NotInteger(_)));
}

#[test]
fn fractions_are_refused() {
    let mut index = article_index();
    let fault = index.upsert("a".into(), "{\"rank\":1.5}".into()).unwrap_err();
    assert!(matches!(fault, IndexError::NotInteger(_)));
    assert_eq!(fault.message(), "only integer numbers are supported, got 1.5");
    let fault = index.upsert("a".into(), "{\"tags\":[\"x\",0.5]}".into()).unwrap_err();
    assert!(matches!(fault, IndexError::NotInteger(_)));
}

#[test]
fn integers_beyond_64_bits_are_refused() {
    let mut index = article_index();
    let fault = index.upsert("a".into(), "{\"rank\":9223372036854775808}".into()).unwrap_err();
    assert!(matches!(fault, IndexError::NotInteger(_)));
    assert!(index.upsert("a".into(), "{\"rank\":9223372036854775807}".into()).is_ok());
    assert!(index.upsert("a".into(), "{\"rank\":-9223372036854775808}".into()).is_ok());
}

#[test]
fn objects_are_refused() {
    let mut index = article_index();
    let fault = index.upsert("a".into(), "{\"title\":{\"x\":1}}".into()).unwrap_err();
    assert!(matches!(fault, IndexError::UnsupportedValue));
    assert_eq!(fault.message(), "unsupported value type");
}

#[test]
fn text_that_is_no_object_is_refused() {
    let mut index = article_index();
    let fault = index.upsert("a".into(), "[1]".into()).unwrap_err();
    assert!(matches!(fault, IndexError::Json(_)));
    let fault = index.upsert("a".into(), "{".into()).unwrap_err();
    assert_eq!(fault.message(), "EOF while parsing an object at line 1 column 1");
}

#[test]
fn an_empty_id_is_refused() {
    let mut index = article_index();
    let fault = index.upsert("".into(), "{\"title\":\"x\"}".into()).unwrap_err();
    assert!(matches!(fault, IndexError::Indexer(_)));
    assert_eq!(fault.message(), "document id cannot be empty");
}

#[test]
fn values_of_another_type_are_refused() {
    let mut index = article_index();
    assert_eq!(refusal(&mut index, "{\"rank\":\"one\"}"), "value type does not match field rank");
    assert_eq!(refusal(&mut index, "{\"draft\":1}"), "value type does not match field draft");
    assert_eq!(refusal(&mut index, "{\"rank\":[1,2]}"), "field rank is single-value");
}

#[test]
fn text_and_keyword_fields_take_arrays() {
    let mut index = article_index();
    index
        .upsert("a".into(), "{\"title\":[\"blue river\",\"green hill\"],\"tags\":[\"x\",\"y\"]}".into())
        .unwrap();
    let mut options = options();
    options.stored_fields = Some(true);
    let result = found(&index, "hill", options);
    assert_eq!(result["total"], 1);
    assert_eq!(result["hits"][0]["fields"]["title"][0], "blue river");
    assert_eq!(result["hits"][0]["fields"]["title"][1], "green hill");
    assert_eq!(result["hits"][0]["fields"]["tags"].as_array().unwrap().len(), 2);
}

#[test]
fn nothing_is_kept_of_null_and_of_empty_arrays() {
    let mut index = article_index();
    index.upsert("a".into(), "{\"title\":\"river\",\"tags\":[],\"rank\":null}".into()).unwrap();
    let mut options = options();
    options.stored_fields = Some(true);
    let fields = found(&index, "river", options)["hits"][0]["fields"].clone();
    assert_eq!(fields.as_object().unwrap().len(), 1);
    assert_eq!(fields["title"], "river");
}

#[test]
fn stored_values_come_on_demand() {
    let mut index = article_index();
    index
        .upsert("a".into(), "{\"title\":\"river\",\"rank\":-7,\"draft\":true}".into())
        .unwrap();
    let plain = found(&index, "river", options());
    assert_eq!(plain["hits"][0]["fields"].as_object().unwrap().len(), 0);
    let mut full = options();
    full.stored_fields = Some(true);
    let fields = found(&index, "river", full)["hits"][0]["fields"].clone();
    assert_eq!(fields["title"], "river");
    assert_eq!(fields["rank"], -7);
    assert_eq!(fields["draft"], true);
}

#[test]
fn fields_that_are_not_stored_are_not_given_back() {
    let mut kept = field("title", "text");
    kept.stored = true;
    let mut dropped = field("body", "text");
    dropped.stored = false;
    let mut index = SearchIndex::new(schema(vec![kept, dropped])).unwrap();
    index.upsert("a".into(), "{\"title\":\"river\",\"body\":\"meadow\"}".into()).unwrap();
    let mut options = options();
    options.field = Some("body".to_string());
    options.stored_fields = Some(true);
    let result = found(&index, "meadow", options);
    assert_eq!(result["total"], 1);
    assert_eq!(result["hits"][0]["fields"].as_object().unwrap().len(), 1);
    assert_eq!(result["hits"][0]["fields"]["title"], "river");
}

#[test]
fn a_later_document_replaces_an_earlier_one() {
    let mut index = article_index();
    index.upsert("a".into(), "{\"title\":\"river\"}".into()).unwrap();
    index.upsert("b".into(), "{\"title\":\"river\"}".into()).unwrap();
    index.upsert("a".into(), "{\"title\":\"meadow\"}".into()).unwrap();
    assert_eq!(index.len(), 2);
    index.checkpoint().unwrap();
    assert_eq!(index.sequence(), 3);
    let result = found(&index, "river", options());
    assert_eq!(result["total"], 1);
    assert_eq!(result["hits"][0]["id"], "b");
}

#[test]
fn deletion_counts_what_it_removes() {
    let mut index = article_index();
    index.upsert("a".into(), "{\"title\":\"river\"}".into()).unwrap();
    index.upsert("b".into(), "{\"title\":\"river\"}".into()).unwrap();
    let ids = vec!["a".to_string(), "a".to_string(), "zzz".to_string()];
    assert_eq!(index.delete(ids.clone()), 1);
    assert_eq!(index.len(), 1);
    index.checkpoint().unwrap();
    assert_eq!(index.sequence(), 3);
    assert_eq!(index.delete(ids), 0);
    assert_eq!(index.len(), 1);
    index.checkpoint().unwrap();
    assert_eq!(index.sequence(), 3);
    let result = found(&index, "river", options());
    assert_eq!(result["total"], 1);
    assert_eq!(result["hits"][0]["id"], "b");
}

#[test]
fn changes_are_unpersisted_until_acknowledged() {
    let mut index = SearchIndex::new(None).unwrap();
    assert!(!index.has_unpersisted_changes());
    index.upsert("a".into(), "{\"content\":\"river\"}".into()).unwrap();
    assert!(index.has_unpersisted_changes());
    index.checkpoint().unwrap();
    assert_eq!(index.sequence(), 1);
    let sequence = index.sequence();
    index.mark_persisted(sequence).unwrap();
    assert!(!index.has_unpersisted_changes());
    index.mark_persisted(0).unwrap();
    assert!(!index.has_unpersisted_changes());
}

#[test]
fn the_future_cannot_be_acknowledged() {
    let mut index = SearchIndex::new(None).unwrap();
    let fault = index.mark_persisted(2).unwrap_err();
    assert_eq!(fault.message(), "checkpoint sequence 2 is newer than index sequence 0");
    assert!(index.mark_persisted(-1).is_err());
}

#[test]
fn a_checkpoint_is_read_back() {
    let mut index = article_index();
    index.upsert("a".into(), "{\"title\":\"river\",\"rank\":3}".into()).unwrap();
    index.upsert("b".into(), "{\"title\":\"meadow\"}".into()).unwrap();
    let bytes = index.checkpoint().unwrap();
    let mut other = article_index();
    other.upsert("c".into(), "{\"title\":\"hill\"}".into()).unwrap();
    other.load(bytes).unwrap();
    assert_eq!(other.len(), 2);
    assert_eq!(other.sequence(), 2);
    assert!(!other.has_unpersisted_changes());
    let mut full = options();
    full.stored_fields = Some(true);
    let result = found(&other, "river", full);
    assert_eq!(result["hits"][0]["fields"]["rank"], 3);
    assert_eq!(found(&other, "hill", options())["total"], 0);
}

#[test]
fn bytes_that_are_no_checkpoint_are_refused() {
    let mut index = article_index();
    index.upsert("a".into(), "{\"title\":\"river\"}".into()).unwrap();
    let fault = index.load(vec![1, 2, 3]).unwrap_err();
    assert!(matches!(fault, IndexError::Indexer(_)));
    assert_eq!(index.len(), 1);
    assert!(SearchIndex::from_checkpoint(None, vec![]).is_err());
}

#[test]
fn a_checkpoint_of_another_schema_is_refused() {
    let mut index = article_index();
    index.upsert("a".into(), "{\"title\":\"river\"}".into()).unwrap();
    let bytes = index.checkpoint().unwrap();
    assert!(SearchIndex::from_checkpoint(None, bytes).is_err());
}

#[test]
fn a_schema_without_fields_is_refused() {
    let fault = SearchIndex::new(schema(vec![])).err().unwrap();
    assert!(matches!(fault, IndexError::EmptySchema));
    assert_eq!(fault.message(), "schema must declare at least one field");
    assert!(SearchIndex::new(Some(SchemaDef { fields: None })).is_ok());
}

#[test]
fn unknown_field_types_are_refused() {
    let fault = SearchIndex::new(schema(vec![field("a", "text"), field("b", "float")])).err().unwrap();
    assert!(matches!(fault, IndexError::UnknownFieldType(_)));
    assert_eq!(fault.message(), "unknown field type: float");
}

#[test]
fn a_schema_needs_a_text_field() {
    let fault = SearchIndex::new(schema(vec![field("a", "keyword")])).err().unwrap();
    assert!(matches!(fault, IndexError::NoTextField));
    assert_eq!(fault.message(), "schema must declare at least one text field");
}

#[test]
fn field_names_are_distinct_and_not_empty() {
    let fault = SearchIndex::new(schema(vec![field("a", "text"), field("a", "i64")])).err().unwrap();
    assert_eq!(fault.message(), "duplicate or empty field name: a");
    assert!(SearchIndex::new(schema(vec![field("", "text")])).is_err());
}

#[test]
fn the_default_schema_has_one_text_field() {
    let fields = default_fields();
    assert_eq!(fields.len(), 1);
    assert_eq!(fields[0].name, "content");
    assert_eq!(fields[0].ty, "text");
    assert!(fields[0].pinyin && fields[0].prefix && fields[0].fuzzy && fields[0].positions);
}

#[test]
fn searches_look_in_the_first_text_field() {
    let mut index =
        SearchIndex::new(schema(vec![field("rank", "i64"), field("a", "text"), field("b", "text")]))
            .unwrap();
    index.upsert("x".into(), "{\"a\":\"river\",\"b\":\"meadow\"}".into()).unwrap();
    assert_eq!(found(&index, "river", options())["total"], 1);
    assert_eq!(found(&index, "meadow", options())["total"], 0);
    let mut second = options();
    second.field = Some("b".to_string());
    assert_eq!(found(&index, "meadow", second)["total"], 1);
}

#[test]
fn searches_in_unknown_and_other_fields_are_refused() {
    let index = article_index();
    let mut unknown = options();
    unknown.field = Some("nope".to_string());
    let fault = index.search("x".to_string(), Some(unknown)).unwrap_err();
    assert_eq!(fault.message(), "unknown field: nope");
    let mut keyword = options();
    keyword.field = Some("tags".to_string());
    let fault = index.search("x".to_string(), Some(keyword)).unwrap_err();
    assert_eq!(fault.message(), "Text query requires indexed Text field");
}

#[test]
fn limits_and_offsets_cut_the_hits() {
    let mut index = SearchIndex::new(None).unwrap();
    for i in 0..15 {
        index.upsert(format!("doc-{i:02}"), "{\"content\":\"river\"}".to_string()).unwrap();
    }
    let all = found(&index, "river", options());
    assert_eq!(all["total"], 15);
    assert_eq!(all["hits"].as_array().unwrap().len(), 10);
    let mut tail = options();
    tail.offset = Some(12);
    assert_eq!(found(&index, "river", tail)["hits"].as_array().unwrap().len(), 3);
    let mut none = options();
    none.limit = Some(0);
    assert_eq!(found(&index, "river", none)["hits"].as_array().unwrap().len(), 0);
    let mut wide = options();
    wide.limit = Some(10_001);
    let fault = index.search("river".to_string(), Some(wide)).unwrap_err();
    assert_eq!(fault.message(), "search window exceeds 10000");
    let mut widest = options();
    widest.limit = Some(10_000);
    assert_eq!(found(&index, "river", widest)["total"], 15);
}

#[test]
fn highlights_give_the_places_of_the_words() {
    let mut index = SearchIndex::new(None).unwrap();
    index.upsert("a".into(), "{\"content\":\"blue river\"}".into()).unwrap();
    let plain = found(&index, "river", options());
    assert_eq!(plain["hits"][0]["highlights"].as_object().unwrap().len(), 0);
    let mut marked = options();
    marked.highlight = Some(true);
    let result = found(&index, "river", marked);
    let spans = result["hits"][0]["highlights"]["content"].as_array().unwrap();
    assert_eq!(spans[0][0], 5);
    assert_eq!(spans[0][1], 10);
    assert!(result["hits"][0]["score"].is_number());
}

#[test]
fn words_cannot_be_marked_without_positions() {
    let index = article_index();
    let mut marked = options();
    marked.highlight = Some(true);
    let fault = index.search("x".to_string(), Some(marked)).unwrap_err();
    assert_eq!(fault.message(), "field title cannot be highlighted");
}

#[test]
fn an_empty_query_finds_nothing() {
    let mut index = SearchIndex::new(None).unwrap();
    index.upsert("a".into(), "{\"content\":\"river\"}".into()).unwrap();
    assert_eq!(found(&index, "", options())["total"], 0);
    assert_eq!(index.search("".to_string(), None).unwrap(), "{\"hits\":[],\"total\":0}");
}

#[test]
fn queries_of_too_many_words_are_refused() {
    let index = SearchIndex::new(None).unwrap();
    let query = (0..80).map(|i| format!("word{i}")).collect::<Vec<String>>().join(" ");
    let fault = index.search(query, None).unwrap_err();
    assert!(fault.message().contains("tokens; the limit is 64"));
}

#[test]
fn modes_are_read_in_any_case() {
    assert_eq!(parse_mode(Some("exact")), Mode::Exact);
    assert_eq!(parse_mode(Some("EXACT")), Mode::Exact);
    assert_eq!(parse_mode(Some("Pinyin")), Mode::Pinyin);
    assert_eq!(parse_mode(Some("fuzzY")), Mode::Fuzzy);
    assert_eq!(parse_mode(Some("auto")), Mode::Auto);
    assert_eq!(parse_mode(Some("other")), Mode::Auto);
    assert_eq!(parse_mode(None), Mode::Auto);
}

#[test]
fn the_mode_decides_what_is_found() {
    let mut index = SearchIndex::new(None).unwrap();
    index.upsert("a".into(), "{\"content\":\"你好世界\"}".into()).unwrap();
    let mut exact = options();
    exact.mode = Some("exact".to_string());
    assert_eq!(found(&index, "nihao", exact)["total"], 0);
    let mut pinyin = options();
    pinyin.mode = Some("PINYIN".to_string());
    assert_eq!(found(&index, "nihao", pinyin)["total"], 1);
}

#[test]
fn field_numbers_run_out() {
    assert!(can_number(&None));
    let many = |n: usize| (0..n).map(|i| field(&format!("f{i}"), "text")).collect::<Vec<FieldDef>>();
    assert!(can_number(&schema(many(65_536))));
    assert!(!can_number(&schema(many(65_537))));
    let mut fields = many(65_537);
    fields[65_536].ty = "float".to_string();
    assert!(can_number(&schema(fields.clone())));
    assert!(matches!(SearchIndex::new(schema(fields)), Err(IndexError::UnknownFieldType(_))));
}

#[test]
fn the_sequence_is_that_of_the_latest_checkpoint() {
    let mut index = SearchIndex::new(None).unwrap();
    assert_eq!(index.sequence(), 0);
    index.upsert("a".into(), "{\"content\":\"river\"}".into()).unwrap();
    assert_eq!(index.sequence(), 0);
    let bytes = index.checkpoint().unwrap();
    assert_eq!(index.sequence(), 1);
    index.upsert("b".into(), "{\"content\":\"meadow\"}".into()).unwrap();
    assert_eq!(index.sequence(), 1);
    let sequence = index.sequence();
    index.mark_persisted(sequence).unwrap();
    assert!(index.has_unpersisted_changes());
    index.checkpoint().unwrap();
    assert_eq!(index.sequence(), 2);
    index.load(bytes).unwrap();
    assert_eq!(index.sequence(), 1);
    assert!(!index.has_unpersisted_changes());
    assert_eq!(found(&index, "meadow", options())["total"], 0);
    assert_eq!(found(&index, "river", options())["total"], 1);
}

#[test]
fn words_are_marked_in_fields_that_are_not_stored() {
    let mut body = field("body", "text");
    body.stored = false;
    body.positions = true;
    let mut index = SearchIndex::new(schema(vec![body])).unwrap();
    index.upsert("a".into(), "{\"body\":\"blue river\"}".into()).unwrap();
    let mut marked = options();
    marked.highlight = Some(true);
    marked.stored_fields = Some(true);
    let result = found(&index, "river", marked);
    assert_eq!(result["hits"][0]["highlights"]["body"][0][0], 5);
    assert_eq!(result["hits"][0]["fields"].as_object().unwrap().len(), 0);
}

#[test]
fn options_left_out_mean_the_defaults() {
    let mut index = article_index();
    for i in 0..12 {
        index.upsert(format!("doc-{i:02}"), "{\"title\":\"river\"}".to_string()).unwrap();
    }
    let named = SearchOpts {
        field: Some("title".to_string()),
        mode: Some("auto".to_string()),
        limit: Some(10),
        offset: Some(0),
        highlight: Some(false),
        stored_fields: Some(false),
    };
    let expected = index.search("river".to_string(), None).unwrap();
    assert_eq!(index.search("river".to_string(), Some(options())).unwrap(), expected);
    assert_eq!(index.search("river".to_string(), Some(named)).unwrap(), expected);
}

#[test]
fn refusals_leave_the_answers() {
    let mut index = article_index();
    index.upsert("a".into(), "{\"title\":\"river\",\"rank\":1}".into()).unwrap();
    let expected = index.search("river".to_string(), None).unwrap();
    assert!(index.upsert("a".into(), "{\"title\":\"meadow\",\"rank\":1.5}".into()).is_err());
    assert!(index.load(vec![0; 80]).is_err());
    assert!(index.mark_persisted(1).is_ok());
    assert_eq!(index.search("river".to_string(), None).unwrap(), expected);
    assert_eq!(index.len(), 1);
}

#[test]
fn changes_can_be_counted() {
    let mut index = SearchIndex::new(None).unwrap();
    assert!(index.can_change(u64::MAX));
    index.upsert("a".into(), "{\"content\":\"river\"}".into()).unwrap();
    assert!(index.can_change(u64::MAX - 1));
    assert!(!index.can_change(u64::MAX));
}

#[test]
fn an_upsert_can_be_tried() {
    let mut index = SearchIndex::new(None).unwrap();
    let taken = index.try_upsert("a".into(), "{\"content\":\"river\"}".into());
    assert_eq!(taken, Some(Ok(())));
    assert_eq!(found(&index, "river", options())["total"], 1);
    let refused = index.try_upsert("a".into(), "{\"nope\":1}".into());
    assert_eq!(refused, Some(Err(IndexError::UnknownField("nope".to_string()))));
    assert_eq!(found(&index, "river", options())["total"], 1);
}

#[test]
fn long_words_are_found() {
    let mut index = SearchIndex::new(None).unwrap();
    let word = "a".repeat(100_000);
    index.upsert("a".into(), format!("{{\"content\":\"{word}\"}}")).unwrap();
    let mut exact = options();
    exact.mode = Some("exact".to_string());
    assert_eq!(found(&index, &word, exact)["total"], 1);
}
