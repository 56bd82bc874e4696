//! The fields that an index declares.
use vstd::prelude::*;
use vstd::string::*;

use crate::error::{IndexError, IndexFault};

verus! {

/// The declaration of one field.
#[derive(Clone, Debug, PartialEq, Eq)]
pub struct FieldDef {
    pub name: String,
    /// `text`, `keyword`, `i64` or `bool`.
    pub ty: String,
    pub pinyin: bool,
    pub prefix: bool,
    pub fuzzy: bool,
    pub positions: bool,
    /// Whether the index keeps the values, so that a search can give them back.
    pub stored: bool,
}

/// What a [`FieldDef`] stands for.
#[verifier::ext_equal]
pub struct FieldDefView {
    pub name: Seq<char>,
    pub ty: Seq<char>,
    pub text: TextFlags,
    pub stored: bool,
}

impl View for FieldDef {
    type V = FieldDefView;

    open spec fn view(&self) -> FieldDefView {
        FieldDefView {
            name: self.name@,
            ty: self.ty@,
            text: TextFlags {
                pinyin: self.pinyin,
                prefix: self.prefix,
                fuzzy: self.fuzzy,
                positions: self.positions,
            },
            stored: self.stored,
        }
    }
}

/// The declaration of a schema; without a list of fields the default fields are meant.
#[derive(Clone, Debug, PartialEq, Eq)]
pub struct SchemaDef {
    pub fields: Option<Vec<FieldDef>>,
}

/// How the text of a field can be found.
#[derive(Clone, Copy, Debug, PartialEq, Eq)]
pub struct TextFlags {
    pub pinyin: bool,
    pub prefix: bool,
    pub fuzzy: bool,
    pub positions: bool,
}

/// The type of a field.
#[derive(Clone, Copy, Debug, PartialEq, Eq)]
pub enum FieldKind {
    Text(TextFlags),
    Keyword,
    I64,
    Bool,
}

/// What the index does with the values of a field.
#[derive(Clone, Copy, Debug, PartialEq, Eq)]
pub struct FieldFlags {
    pub indexed: bool,
    pub stored: bool,
    pub sortable: bool,
    pub multi_value: bool,
}

/// One field of a schema. Its number is its place in the schema.
#[verifier::ext_equal]
pub struct FieldSpec {
    pub name: Seq<char>,
    pub kind: FieldKind,
    pub flags: FieldFlags,
}

/// What a list of declarations stands for.
pub open spec fn def_views(defs: Seq<FieldDef>) -> Seq<FieldDefView> {
    defs.map_values(|d: FieldDef| d@)
}

/// The declaration that is used where none is given: one text field `content` that can be found
/// in every way and whose values are kept.
pub open spec fn default_defs() -> Seq<FieldDefView> {
    seq![
        FieldDefView {
            name: "content"@,
            ty: "text"@,
            text: TextFlags { pinyin: true, prefix: true, fuzzy: true, positions: true },
            stored: true,
        },
    ]
}

/// The fields that are declared where no others are.
pub fn default_fields() -> (r: Vec<FieldDef>)
    ensures
        def_views(r@) == default_defs(),
{
    let r = vec![
        FieldDef {
            name: String::from_str("content"),
            ty: String::from_str("text"),
            pinyin: true,
            prefix: true,
            fuzzy: true,
            positions: true,
            stored: true,
        },
    ];
    assert(def_views(r@) =~= default_defs());
    r
}

/// The declarations that a schema stands for.
pub open spec fn declared(schema: Option<SchemaDef>) -> Seq<FieldDefView> {
    match schema {
        Some(SchemaDef { fields: Some(defs) }) => def_views(defs@),
        _ => default_defs(),
    }
}

/// What the index does with the values of a field: every field is indexed, and the values are
/// kept where they are to be given back or words are to be marked in them. `i64` and `bool` fields
/// can be sorted by, so they have one value; the others can have several.
pub open spec fn field_flags(sortable: bool, stored: bool) -> FieldFlags {
    FieldFlags { indexed: true, stored, sortable, multi_value: !sortable }
}

/// The field that a declaration stands for, if its type exists.
pub open spec fn field_spec(def: FieldDefView) -> Option<FieldSpec> {
    if def.ty == "text"@ {
        Some(
            FieldSpec {
                name: def.name,
                kind: FieldKind::Text(def.text),
                flags: field_flags(false, def.stored || def.text.positions),
            },
        )
    } else if def.ty == "keyword"@ {
        Some(
            FieldSpec {
                name: def.name,
                kind: FieldKind::Keyword,
                flags: field_flags(false, def.stored),
            },
        )
    } else if def.ty == "i64"@ {
        Some(
            FieldSpec {
                name: def.name,
                kind: FieldKind::I64,
                flags: field_flags(true, def.stored),
            },
        )
    } else if def.ty == "bool"@ {
        Some(
            FieldSpec {
                name: def.name,
                kind: FieldKind::Bool,
                flags: field_flags(true, def.stored),
            },
        )
    } else {
        None
    }
}

/// The fields that declarations stand for, or the first type that does not exist.
pub open spec fn field_specs(defs: Seq<FieldDefView>) -> Result<Seq<FieldSpec>, Seq<char>>
    decreases defs.len(),
{
    if defs.len() == 0 {
        Ok(Seq::empty())
    } else {
        match field_specs(defs.drop_last()) {
            Err(ty) => Err(ty),
            Ok(front) => match field_spec(defs.last()) {
                None => Err(defs.last().ty),
                Some(field) => Ok(front.push(field)),
            },
        }
    }
}

/// A field whose name is empty or taken by an earlier field.
pub open spec fn bad_name(fields: Seq<FieldSpec>, i: int) -> bool {
    ||| fields[i].name.len() == 0
    ||| exists|j: int| 0 <= j < i && (#[trigger] fields[j]).name == fields[i].name
}

/// The first name among the first `n` fields that is empty or taken.
pub open spec fn name_fault(fields: Seq<FieldSpec>, n: int) -> Option<Seq<char>>
    decreases n,
{
    if n <= 0 {
        None
    } else {
        match name_fault(fields, n - 1) {
            Some(name) => Some(name),
            None => if bad_name(fields, n - 1) {
                Some(fields[n - 1].name)
            } else {
                None
            },
        }
    }
}

/// The first text field among the first `n` fields.
pub open spec fn first_text(fields: Seq<FieldSpec>, n: int) -> Option<int>
    decreases n,
{
    if n <= 0 {
        None
    } else {
        match first_text(fields, n - 1) {
            Some(i) => Some(i),
            None => if fields[n - 1].kind is Text {
                Some(n - 1)
            } else {
                None
            },
        }
    }
}

/// The numbers of those of the first `n` declared fields whose values are given back.
pub open spec fn shown_numbers(defs: Seq<FieldDefView>, n: int) -> Seq<u16>
    decreases n,
{
    if n <= 0 {
        Seq::empty()
    } else if defs[n - 1].stored {
        shown_numbers(defs, n - 1).push((n - 1) as u16)
    } else {
        shown_numbers(defs, n - 1)
    }
}

/// The numbers of the fields of a declaration whose values are given back.
pub open spec fn shown_fields(defs: Seq<FieldDefView>) -> Seq<u16> {
    shown_numbers(defs, defs.len() as int)
}

/// The schema that declarations stand for, or why they stand for none.
pub open spec fn built(defs: Seq<FieldDefView>) -> Result<Seq<FieldSpec>, IndexFault> {
    if defs.len() == 0 {
        Err(IndexFault::EmptySchema)
    } else {
        match field_specs(defs) {
            Err(ty) => Err(IndexFault::UnknownFieldType(ty)),
            Ok(fields) => match name_fault(fields, fields.len() as int) {
                Some(name) => Err(
                    IndexFault::Indexer("duplicate or empty field name: "@ + name),
                ),
                None => if first_text(fields, fields.len() as int) is None {
                    Err(IndexFault::NoTextField)
                } else {
                    Ok(fields)
                },
            },
        }
    }
}

/// Field numbers have 16 bits: there are no more than that many declarations, or one of an
/// unknown type comes before they run out.
pub open spec fn numbers_suffice(defs: Seq<FieldDefView>) -> bool {
    ||| defs.len() <= 0x1_0000
    ||| exists|i: int| 0 <= i <= 0x1_0000 && i < defs.len() && #[trigger] field_spec(defs[i]) is None
}

/// Whether there are enough field numbers for a schema.
pub fn can_number(schema: &Option<SchemaDef>) -> (r: bool)
    ensures
        r == numbers_suffice(declared(*schema)),
{
    let fields = match schema {
        Some(SchemaDef { fields: Some(fields) }) => fields,
        _ => {
            return true;
        },
    };
    let ghost defs = declared(*schema);
    if fields.len() <= 0x1_0000 {
        return true;
    }
    for i in 0..0x1_0001usize
        invariant
            defs == declared(*schema),
            defs == def_views(fields@),
            fields@.len() > 0x1_0000,
            forall|k: int| 0 <= k < i ==> field_spec(#[trigger] defs[k]) is Some,
    {
        let ty = fields[i].ty.as_str();
        if !(ty.eq("text") || ty.eq("keyword") || ty.eq("i64") || ty.eq("bool")) {
            assert(field_spec(defs[i as int]) is None);
            return true;
        }
    }
    false
}

/// The schema builder of the indexer.
#[verifier::external_type_specification]
#[verifier::external_body]
pub struct ExSchemaBuilder(memory_indexer::SchemaBuilder);

/// The schema of the indexer.
#[verifier::external_type_specification]
#[verifier::external_body]
pub struct ExSchema(memory_indexer::Schema);

/// The error type of the indexer.
#[verifier::external_type_specification]
#[verifier::external_body]
pub struct ExIndexerError(memory_indexer::Error);

/// The fields that a schema builder holds, in the order in which they were added.
pub uninterp spec fn builder_fields(builder: memory_indexer::SchemaBuilder) -> Seq<FieldSpec>;

/// Whether a schema builder counts places as it does by default and has no dictionary.
pub uninterp spec fn is_plain_builder(builder: memory_indexer::SchemaBuilder) -> bool;

/// The fields that a schema holds.
pub uninterp spec fn schema_fields(schema: memory_indexer::Schema) -> Seq<FieldSpec>;

/// Whether a schema counts places as it does by default and has no dictionary. Plain schemas
/// differ in nothing but their fields.
pub uninterp spec fn is_plain(schema: memory_indexer::Schema) -> bool;

/// The message of an error of the indexer.
pub uninterp spec fn indexer_message(error: memory_indexer::Error) -> Seq<char>;

/// The `Display` of `memory_indexer::Error` writes its message.
#[verifier::external_body]
pub(crate) fn write_indexer_error(error: &memory_indexer::Error) -> (r: String)
    ensures
        r@ == indexer_message(*error),
{
    error.to_string()
}

/// `memory_indexer::Schema::builder` gives a builder without fields.
#[verifier::external_body]
fn new_builder() -> (r: memory_indexer::SchemaBuilder)
    ensures
        builder_fields(r) == Seq::<FieldSpec>::empty(),
        is_plain_builder(r),
{
    memory_indexer::Schema::builder()
}

/// `memory_indexer::SchemaBuilder::text` adds a text field and gives its number, which is its
/// place. It panics once the numbers of 16 bits have run out.
#[verifier::external_body]
fn add_text(
    builder: &mut memory_indexer::SchemaBuilder,
    name: &str,
    text: TextFlags,
    flags: FieldFlags,
) -> (number: u16)
    requires
        builder_fields(*old(builder)).len() <= u16::MAX,
    ensures
        number == builder_fields(*old(builder)).len(),
        is_plain_builder(*final(builder)) == is_plain_builder(*old(builder)),
        builder_fields(*final(builder)) == builder_fields(*old(builder)).push(
            FieldSpec { name: name@, kind: FieldKind::Text(text), flags },
        ),
{
    let TextFlags { pinyin, prefix, fuzzy, positions } = text;
    let FieldFlags { indexed, stored, sortable, multi_value } = flags;
    let text = memory_indexer::TextOptions { pinyin, prefix, fuzzy, positions };
    let options = memory_indexer::FieldOptions { indexed, stored, sortable, multi_value };
    builder.text(name, text, options).0
}

/// `memory_indexer::SchemaBuilder::keyword` adds a keyword field and gives its number, which is
/// its place. It panics once the numbers of 16 bits have run out.
#[verifier::external_body]
fn add_keyword(
    builder: &mut memory_indexer::SchemaBuilder,
    name: &str,
    flags: FieldFlags,
) -> (number: u16)
    requires
        builder_fields(*old(builder)).len() <= u16::MAX,
    ensures
        number == builder_fields(*old(builder)).len(),
        is_plain_builder(*final(builder)) == is_plain_builder(*old(builder)),
        builder_fields(*final(builder)) == builder_fields(*old(builder)).push(
            FieldSpec { name: name@, kind: FieldKind::Keyword, flags },
        ),
{
    let FieldFlags { indexed, stored, sortable, multi_value } = flags;
    let options = memory_indexer::FieldOptions { indexed, stored, sortable, multi_value };
    builder.keyword(name, options).0
}

/// `memory_indexer::SchemaBuilder::i64` adds an integer field and gives its number, which is its
/// place. It panics once the numbers of 16 bits have run out.
#[verifier::external_body]
fn add_i64(
    builder: &mut memory_indexer::SchemaBuilder,
    name: &str,
    flags: FieldFlags,
) -> (number: u16)
    requires
        builder_fields(*old(builder)).len() <= u16::MAX,
    ensures
        number == builder_fields(*old(builder)).len(),
        is_plain_builder(*final(builder)) == is_plain_builder(*old(builder)),
        builder_fields(*final(builder)) == builder_fields(*old(builder)).push(
            FieldSpec { name: name@, kind: FieldKind::I64, flags },
        ),
{
    let FieldFlags { indexed, stored, sortable, multi_value } = flags;
    let options = memory_indexer::FieldOptions { indexed, stored, sortable, multi_value };
    builder.i64(name, options).0
}

/// `memory_indexer::SchemaBuilder::bool` adds a boolean field and gives its number, which is its
/// place. It panics once the numbers of 16 bits have run out.
#[verifier::external_body]
fn add_bool(
    builder: &mut memory_indexer::SchemaBuilder,
    name: &str,
    flags: FieldFlags,
) -> (number: u16)
    requires
        builder_fields(*old(builder)).len() <= u16::MAX,
    ensures
        number == builder_fields(*old(builder)).len(),
        is_plain_builder(*final(builder)) == is_plain_builder(*old(builder)),
        builder_fields(*final(builder)) == builder_fields(*old(builder)).push(
            FieldSpec { name: name@, kind: FieldKind::Bool, flags },
        ),
{
    let FieldFlags { indexed, stored, sortable, multi_value } = flags;
    let options = memory_indexer::FieldOptions { indexed, stored, sortable, multi_value };
    builder.bool(name, options).0
}

/// Flags that a schema accepts for a field: the values are indexed, and a field that can be
/// sorted by is neither a text field nor one of several values.
pub open spec fn sound_field(field: FieldSpec) -> bool {
    &&& field.flags.indexed
    &&& field.flags.sortable ==> !field.flags.multi_value && !(field.kind is Text)
}

/// `memory_indexer::SchemaBuilder::build` gives a schema of the fields, unless the name of one
/// is empty or taken by an earlier one; its message then names the first of these.
#[verifier::external_body]
fn finish_schema(builder: memory_indexer::SchemaBuilder) -> (r: Result<
    memory_indexer::Schema,
    memory_indexer::Error,
>)
    requires
        forall|i: int|
            0 <= i < builder_fields(builder).len() ==> sound_field(
                #[trigger] builder_fields(builder)[i],
            ),
    ensures
        match r {
            Ok(schema) => {
                &&& name_fault(builder_fields(builder), builder_fields(builder).len() as int) is None
                &&& schema_fields(schema) == builder_fields(builder)
                &&& is_plain(schema) == is_plain_builder(builder)
            },
            Err(e) => {
                &&& name_fault(builder_fields(builder), builder_fields(builder).len() as int)
                    matches Some(name)
                &&& indexer_message(e) == "duplicate or empty field name: "@ + name
            },
        },
{
    builder.build()
}

/// The numbers of the fields of a schema, by name.
pub open spec fn numbered(names: Seq<(String, u16)>, fields: Seq<FieldSpec>) -> bool {
    &&& names.len() == fields.len()
    &&& forall|i: int|
        #![trigger names[i]]
        #![trigger fields[i]]
        0 <= i < fields.len() ==> names[i].0@ == fields[i].name && names[i].1 == i
}

/// Makes the schema that a declaration stands for, with the numbers of its fields by name, the
/// numbers of those whose values are given back, and the number of its first text field.
pub fn build_schema(schema: Option<SchemaDef>) -> (r: Result<
    (memory_indexer::Schema, Vec<(String, u16)>, Vec<u16>, u16),
    IndexError,
>)
    requires
        numbers_suffice(declared(schema)),
    ensures
        match r {
            Ok((made, names, stored, text)) => {
                &&& built(declared(schema)) == Ok::<_, IndexFault>(schema_fields(made))
                &&& is_plain(made)
                &&& numbered(names@, schema_fields(made))
                &&& stored@ == shown_fields(declared(schema))
                &&& first_text(schema_fields(made), schema_fields(made).len() as int) == Some(
                    text as int,
                )
            },
            Err(e) => built(declared(schema)) == Err::<Seq<FieldSpec>, _>(e@),
        },
{
    let fields: Vec<FieldDef> = match schema {
        Some(SchemaDef { fields: Some(fields) }) => fields,
        _ => default_fields(),
    };
    let ghost defs = def_views(fields@);
    assert(defs == declared(schema));
    if fields.len() == 0 {
        return Err(IndexError::EmptySchema);
    }
    let mut builder = new_builder();
    let mut names: Vec<(String, u16)> = Vec::new();
    let mut stored: Vec<u16> = Vec::new();
    let mut text: Option<u16> = None;
    assert(defs.take(0) =~= Seq::empty());
    for i in 0..fields.len()
        invariant
            defs == def_views(fields@),
            defs == declared(schema),
            numbers_suffice(defs),
            field_specs(defs.take(i as int)) == Ok::<_, Seq<char>>(builder_fields(builder)),
            builder_fields(builder).len() == i,
            is_plain_builder(builder),
            forall|j: int|
                0 <= j < i ==> sound_field(#[trigger] builder_fields(builder)[j]),
            forall|j: int| 0 <= j < i ==> field_spec(#[trigger] defs[j]) is Some,
            numbered(names@, builder_fields(builder)),
            stored@ == shown_numbers(defs, i as int),
            match text {
                Some(t) => first_text(builder_fields(builder), i as int) == Some(t as int),
                None => first_text(builder_fields(builder), i as int) is None,
            },
    {
        let field = &fields[i];
        let ghost before = builder_fields(builder);
        proof {
            assert(defs.take(i + 1).drop_last() =~= defs.take(i as int));
            assert(defs.take(i + 1).last() == defs[i as int]);
            assert(defs[i as int] == field@);
            if field_spec(defs[i as int]) is Some && i >= 0x1_0000 {
                let k = choose|k: int|
                    0 <= k <= 0x1_0000 && k < defs.len() && #[trigger] field_spec(defs[k]) is None;
                assert(k < i || k == i);
                assert(false);
            }
        }
        let flags = FieldFlags {
            indexed: true,
            stored: field.stored,
            sortable: false,
            multi_value: true,
        };
        let sorted = FieldFlags {
            indexed: true,
            stored: field.stored,
            sortable: true,
            multi_value: false,
        };
        let marked = FieldFlags {
            indexed: true,
            stored: field.stored || field.positions,
            sortable: false,
            multi_value: true,
        };
        let name = field.name.as_str();
        let number: u16 = if field.ty.as_str().eq("text") {
            let how = TextFlags {
                pinyin: field.pinyin,
                prefix: field.prefix,
                fuzzy: field.fuzzy,
                positions: field.positions,
            };
            let number = add_text(&mut builder, name, how, marked);
            if text.is_none() {
                text = Some(number);
            }
            number
        } else if field.ty.as_str().eq("keyword") {
            add_keyword(&mut builder, name, flags)
        } else if field.ty.as_str().eq("i64") {
            add_i64(&mut builder, name, sorted)
        } else if field.ty.as_str().eq("bool") {
            add_bool(&mut builder, name, sorted)
        } else {
            proof {
                lemma_unknown_type_stays(defs, i + 1);
            }
            return Err(IndexError::UnknownFieldType(field.ty.clone()));
        };
        names.push((field.name.clone(), number));
        if field.stored {
            stored.push(number);
        }
        proof {
            lemma_push_keeps(before, builder_fields(builder)[i as int], i as int);
        }
    }
    assert(defs.take(defs.len() as int) =~= defs);
    match finish_schema(builder) {
        Err(e) => Err(IndexError::Indexer(write_indexer_error(&e))),
        Ok(made) => match text {
            None => Err(IndexError::NoTextField),
            Some(t) => Ok((made, names, stored, t)),
        },
    }
}

/// Once a prefix of the declarations holds an unknown type, so do all of them.
proof fn lemma_unknown_type_stays(defs: Seq<FieldDefView>, n: int)
    requires
        0 <= n <= defs.len(),
        field_specs(defs.take(n)) is Err,
    ensures
        field_specs(defs) == field_specs(defs.take(n)),
    decreases defs.len() - n,
{
    if n < defs.len() {
        assert(defs.take(n + 1).drop_last() =~= defs.take(n));
        lemma_unknown_type_stays(defs, n + 1);
    } else {
        assert(defs.take(n) =~= defs);
    }
}

/// A field at the end does not change which fields before it are text fields.
proof fn lemma_push_keeps(fields: Seq<FieldSpec>, field: FieldSpec, n: int)
    requires
        0 <= n <= fields.len(),
    ensures
        first_text(fields.push(field), n) == first_text(fields, n),
    decreases n,
{
    if n > 0 {
        lemma_push_keeps(fields, field, n - 1);
    }
}

/// Declarations that stand for fields stand for as many, each for its own.
pub proof fn lemma_field_specs(defs: Seq<FieldDefView>)
    requires
        field_specs(defs) is Ok,
    ensures
        field_specs(defs)->Ok_0.len() == defs.len(),
        forall|i: int|
            0 <= i < defs.len() ==> field_spec(#[trigger] defs[i]) == Some(
                field_specs(defs)->Ok_0[i],
            ),
    decreases defs.len(),
{
    if defs.len() > 0 {
        lemma_field_specs(defs.drop_last());
        assert forall|i: int| 0 <= i < defs.len() implies field_spec(#[trigger] defs[i]) == Some(
            field_specs(defs)->Ok_0[i],
        ) by {
            if i < defs.len() - 1 {
                assert(defs.drop_last()[i] == defs[i]);
            }
        }
    }
}

/// A schema has no more fields than there are numbers for them.
pub proof fn lemma_field_count(defs: Seq<FieldDefView>)
    requires
        numbers_suffice(defs),
        built(defs) is Ok,
    ensures
        built(defs)->Ok_0.len() == defs.len(),
        defs.len() <= 0x1_0000,
{
    lemma_field_specs(defs);
}

/// The first text field is a text field among those asked about, and no earlier one is.
pub proof fn lemma_first_text(fields: Seq<FieldSpec>, n: int)
    requires
        0 <= n <= fields.len(),
    ensures
        match first_text(fields, n) {
            Some(t) => {
                &&& 0 <= t < n
                &&& fields[t].kind is Text
                &&& forall|i: int| 0 <= i < t ==> !((#[trigger] fields[i]).kind is Text)
            },
            None => forall|i: int| 0 <= i < n ==> !((#[trigger] fields[i]).kind is Text),
        },
    decreases n,
{
    if n > 0 {
        lemma_first_text(fields, n - 1);
    }
}

/// The numbers of the fields whose values are given back are the numbers of just these, in order.
pub proof fn lemma_shown_numbers(defs: Seq<FieldDefView>, n: int)
    requires
        0 <= n <= defs.len() <= 0x1_0000,
    ensures
        forall|k: int|
            0 <= k < shown_numbers(defs, n).len() ==> (#[trigger] shown_numbers(defs, n)[k]) < n
                && defs[shown_numbers(defs, n)[k] as int].stored,
        forall|i: int|
            0 <= i < n && (#[trigger] defs[i]).stored ==> shown_numbers(defs, n).contains(i as u16),
        forall|j: int, k: int|
            0 <= j < k < shown_numbers(defs, n).len() ==> shown_numbers(defs, n)[j]
                < shown_numbers(defs, n)[k],
    decreases n,
{
    if n > 0 {
        lemma_shown_numbers(defs, n - 1);
        let front = shown_numbers(defs, n - 1);
        let all = shown_numbers(defs, n);
        assert forall|i: int| 0 <= i < n && (#[trigger] defs[i]).stored implies all.contains(
            i as u16,
        ) by {
            if i < n - 1 {
                let k = choose|k: int| 0 <= k < front.len() && front[k] == i as u16;
                assert(all[k] == i as u16);
            } else {
                assert(all[front.len() as int] == i as u16);
            }
        }
    }
}

/// Fields whose values can be given back: they exist, and the index keeps their values.
pub open spec fn can_show(fields: Seq<FieldSpec>, numbers: Seq<u16>) -> bool {
    forall|k: int|
        0 <= k < numbers.len() ==> (#[trigger] numbers[k]) < fields.len()
            && fields[numbers[k] as int].flags.stored
}

/// In a schema that was built, the values of the fields that are declared so can be given back.
pub proof fn lemma_can_show(defs: Seq<FieldDefView>)
    requires
        numbers_suffice(defs),
        built(defs) is Ok,
    ensures
        can_show(built(defs)->Ok_0, shown_fields(defs)),
{
    lemma_field_count(defs);
    lemma_field_specs(defs);
    lemma_shown_numbers(defs, defs.len() as int);
    let fields = built(defs)->Ok_0;
    let numbers = shown_fields(defs);
    assert forall|k: int| 0 <= k < numbers.len() implies (#[trigger] numbers[k]) < fields.len()
        && fields[numbers[k] as int].flags.stored by {
        assert(field_spec(defs[numbers[k] as int]) == Some(fields[numbers[k] as int]));
    }
}

} // verus!
