//! JSON as the index reads and writes it.
//!
//! A JSON value is held by the parser's own type, which is opaque here; [`Json`] says what such
//! a value holds.
use vstd::arithmetic::power::pow;
use vstd::prelude::*;

use crate::error::{IndexError, IndexFault};
use crate::text::{blank, decimal, is_blank};
use crate::value::{lemma_values_size, value_views, values_size, FieldValue, ValueView};

verus! {

/// The JSON that a caller gives for a parameter that may be left out: a blank text is none.
pub fn given_json<'a>(raw: Option<&'a str>) -> (r: Option<&'a str>)
    ensures
        match r {
            Some(text) => raw is Some && text@ == raw->Some_0@ && !blank(text@),
            None => raw is Some ==> blank(raw->Some_0@),
        },
{
    match raw {
        Some(text) => if is_blank(text) {
            None
        } else {
            Some(text)
        },
        None => None,
    }
}

/// A JSON number: an integer, or a fraction as it is written.
pub enum JsonNumber {
    Integer(int),
    Fraction(Seq<char>),
}

/// A JSON value.
pub enum Json {
    Null,
    Bool(bool),
    Num(JsonNumber),
    Text(Seq<char>),
    Array(Seq<Json>),
    Object(Map<Seq<char>, Json>),
}

/// The value type of `serde_json`.
#[verifier::external_type_specification]
#[verifier::external_body]
pub struct ExJsonValue(serde_json::Value);

/// The number type of `serde_json`.
#[verifier::external_type_specification]
#[verifier::external_body]
pub struct ExJsonNumber(serde_json::Number);

/// What a `serde_json::Value` holds.
pub uninterp spec fn json_tree(value: serde_json::Value) -> Json;

/// What a `serde_json::Number` holds.
pub uninterp spec fn json_number(number: serde_json::Number) -> JsonNumber;

/// How a number is written.
pub open spec fn number_text(number: JsonNumber) -> Seq<char> {
    match number {
        JsonNumber::Integer(i) => decimal(i),
        JsonNumber::Fraction(text) => text,
    }
}

/// The first place of a character in a text; behind the text where it is not there.
pub open spec fn place_of(s: Seq<char>, c: char) -> int
    decreases s.len(),
{
    if s.len() == 0 || s[0] == c {
        0
    } else {
        1 + place_of(s.skip(1), c)
    }
}

/// The number that decimal digits stand for.
pub open spec fn digits_value(s: Seq<char>) -> int
    decreases s.len(),
{
    if s.len() == 0 {
        0
    } else {
        10 * digits_value(s.drop_last()) + (s.last() as int - '0' as int)
    }
}

/// The integer that decimal digits behind a sign, or behind none, stand for.
pub open spec fn signed_value(s: Seq<char>) -> int {
    if s.len() > 0 && s[0] == '-' {
        -digits_value(s.skip(1))
    } else if s.len() > 0 && s[0] == '+' {
        digits_value(s.skip(1))
    } else {
        digits_value(s)
    }
}

/// What a number stands for that is written with a point, an exponent, both or neither: an integer
/// and the power of ten that it is multiplied with.
pub open spec fn scientific(text: Seq<char>) -> (int, int) {
    let e = place_of(text, 'e');
    let head = text.take(e);
    let point = place_of(head, '.');
    let digits = if point < head.len() {
        head.take(point) + head.skip(point + 1)
    } else {
        head
    };
    let power = if e < text.len() {
        signed_value(text.skip(e + 1))
    } else {
        0
    };
    (signed_value(digits), power - (digits.len() - point))
}

/// One written number is at least another one.
pub open spec fn at_least(a: Seq<char>, b: Seq<char>) -> bool {
    let (m, x) = scientific(a);
    let (n, y) = scientific(b);
    if x >= y {
        m * pow(10, (x - y) as nat) >= n
    } else {
        m >= n * pow(10, (y - x) as nat)
    }
}

/// What a list of JSON values holds.
pub open spec fn json_trees(values: Seq<serde_json::Value>) -> Seq<Json> {
    values.map_values(|v: serde_json::Value| json_tree(v))
}

/// A clone of a `serde_json::Value` holds the same.
pub assume_specification[ <serde_json::Value as Clone>::clone ](
    value: &serde_json::Value,
) -> (r: serde_json::Value)
    ensures
        json_tree(r) == json_tree(*value),
;

/// The outermost layer of a JSON value.
pub enum JsonNode<'a> {
    Null,
    Bool(bool),
    Num(&'a serde_json::Number),
    Text(&'a String),
    Array(&'a Vec<serde_json::Value>),
    Object,
}

/// Tells the variants of `serde_json::Value` apart and hands out what each holds, but for the
/// members of an object.
#[verifier::external_body]
fn json_node<'a>(value: &'a serde_json::Value) -> (node: JsonNode<'a>)
    ensures
        match node {
            JsonNode::Null => json_tree(*value) == Json::Null,
            JsonNode::Bool(b) => json_tree(*value) == Json::Bool(b),
            JsonNode::Num(n) => json_tree(*value) == Json::Num(json_number(*n)),
            JsonNode::Text(s) => json_tree(*value) == Json::Text(s@),
            JsonNode::Array(items) => json_tree(*value) == Json::Array(json_trees(items@)),
            JsonNode::Object => json_tree(*value) is Object,
        },
{
    match value {
        serde_json::Value::Null => JsonNode::Null,
        serde_json::Value::Bool(b) => JsonNode::Bool(*b),
        serde_json::Value::Number(n) => JsonNode::Num(n),
        serde_json::Value::String(s) => JsonNode::Text(s),
        serde_json::Value::Array(items) => JsonNode::Array(items),
        serde_json::Value::Object(_) => JsonNode::Object,
    }
}

/// `serde_json::Number::as_i64` gives an integer that fits in 64 signed bits, and nothing for
/// any other number.
pub assume_specification[ serde_json::Number::as_i64 ](number: &serde_json::Number) -> (r: Option<
    i64,
>)
    ensures
        match json_number(*number) {
            JsonNumber::Integer(i) => if i64::MIN <= i <= i64::MAX {
                r == Some(i as i64)
            } else {
                r is None
            },
            JsonNumber::Fraction(_) => r is None,
        },
;

/// The `Display` of `serde_json::Number` writes an integer in decimal, and a fraction as
/// [`JsonNumber::Fraction`] holds it.
#[verifier::external_body]
fn write_number(number: &serde_json::Number) -> (r: String)
    ensures
        r@ == number_text(json_number(*number)),
{
    number.to_string()
}

/// The error type of `serde_json`.
#[verifier::external_type_specification]
#[verifier::external_body]
pub struct ExJsonError(serde_json::Error);

/// The message of a `serde_json::Error`.
pub uninterp spec fn json_error_message(error: serde_json::Error) -> Seq<char>;

/// The `Display` of `serde_json::Error` writes its message.
#[verifier::external_body]
pub(crate) fn write_json_error(error: &serde_json::Error) -> (r: String)
    ensures
        r@ == json_error_message(*error),
{
    error.to_string()
}

/// What `serde_json::from_str` makes of a text that is to be an object: the members in the
/// order in which the parser's map walks them, or the parser's message.
pub uninterp spec fn parsed_object(text: Seq<char>) -> Result<Seq<(Seq<char>, Json)>, Seq<char>>;

/// The members of an object, with their names and what they hold.
pub open spec fn member_views(members: Seq<(String, serde_json::Value)>) -> Seq<
    (Seq<char>, Json),
> {
    members.map_values(|m: (String, serde_json::Value)| (m.0@, json_tree(m.1)))
}

/// How many characters the texts have that a JSON value gives to a field.
pub open spec fn json_size(json: Json) -> nat
    decreases json,
{
    match json {
        Json::Text(s) => s.len(),
        Json::Array(items) => all_json_size(items),
        _ => 0,
    }
}

/// How many characters the texts have that several JSON values give.
pub open spec fn all_json_size(items: Seq<Json>) -> nat
    decreases items,
{
    if items.len() == 0 {
        0
    } else {
        all_json_size(items.drop_last()) + json_size(items.last())
    }
}

/// How many characters the texts have that the members of an object give.
pub open spec fn members_size(members: Seq<(Seq<char>, Json)>) -> nat
    decreases members.len(),
{
    if members.len() == 0 {
        0
    } else {
        members_size(members.drop_last()) + json_size(members.last().1)
    }
}

/// No two members of an object share a name.
pub open spec fn distinct_names(members: Seq<(Seq<char>, Json)>) -> bool {
    forall|i: int, j: int|
        0 <= i < j < members.len() ==> (#[trigger] members[i]).0 != (#[trigger] members[j]).0
}

/// `serde_json::from_str` into `serde_json::Map` reads a text as a JSON object. The result is a
/// function of the text; a map holds each name once, and its texts all stand in the text that was
/// read, no two of them in the same place.
#[verifier::external_body]
pub(crate) fn parse_object(text: &str) -> (r: Result<
    Vec<(String, serde_json::Value)>,
    serde_json::Error,
>)
    ensures
        match r {
            Ok(members) => {
                &&& parsed_object(text@) == Ok::<_, Seq<char>>(member_views(members@))
                &&& distinct_names(member_views(members@))
                &&& members_size(member_views(members@)) <= text@.len()
            },
            Err(e) => parsed_object(text@) == Err::<Seq<(Seq<char>, Json)>, _>(
                json_error_message(e),
            ),
        },
{
    let object: serde_json::Map<String, serde_json::Value> = serde_json::from_str(text)?;
    Ok(object.into_iter().collect())
}

/// The parts that a JSON value is made of.
pub enum JsonPart {
    Text(String),
    Flag(bool),
    Integer(i64),
    Count(u64),
    Array(Vec<serde_json::Value>),
    Object(Vec<(String, serde_json::Value)>),
}

/// An object with the given members; of several with one name, the last one stays.
pub open spec fn object_of(members: Seq<(Seq<char>, Json)>) -> Map<Seq<char>, Json>
    decreases members.len(),
{
    if members.len() == 0 {
        Map::empty()
    } else {
        object_of(members.drop_last()).insert(members.last().0, members.last().1)
    }
}

/// The JSON value that a part makes.
pub open spec fn part_tree(part: JsonPart) -> Json {
    match part {
        JsonPart::Text(s) => Json::Text(s@),
        JsonPart::Flag(b) => Json::Bool(b),
        JsonPart::Integer(i) => Json::Num(JsonNumber::Integer(i as int)),
        JsonPart::Count(n) => Json::Num(JsonNumber::Integer(n as int)),
        JsonPart::Array(items) => Json::Array(json_trees(items@)),
        JsonPart::Object(members) => Json::Object(object_of(member_views(members@))),
    }
}

/// Makes a `serde_json::Value` of its parts: the variants `String`, `Bool` and `Array`, `From`
/// for the integers, and the variant `Object` over a map that is filled member by member.
#[verifier::external_body]
pub(crate) fn make_json(part: JsonPart) -> (r: serde_json::Value)
    ensures
        json_tree(r) == part_tree(part),
{
    match part {
        JsonPart::Text(s) => serde_json::Value::String(s),
        JsonPart::Flag(b) => serde_json::Value::Bool(b),
        JsonPart::Integer(i) => serde_json::Value::from(i),
        JsonPart::Count(n) => serde_json::Value::from(n),
        JsonPart::Array(items) => serde_json::Value::Array(items),
        JsonPart::Object(members) => serde_json::Value::Object(members.into_iter().collect()),
    }
}

/// A JSON value as `serde_json::to_string` writes it.
pub uninterp spec fn json_text(json: Json) -> Seq<char>;

/// `serde_json::to_string` writes a JSON value. On a `serde_json::Value` it does not fail: every
/// key is a string and every number is finite.
#[verifier::external_body]
pub(crate) fn write_json(value: &serde_json::Value) -> (r: Result<String, serde_json::Error>)
    ensures
        r is Ok,
        r->Ok_0@ == json_text(json_tree(*value)),
{
    serde_json::to_string(value)
}

/// The values that a JSON value gives to a field: a string, a boolean or an integer gives
/// itself, an array gives what its elements give, `null` gives nothing.
pub open spec fn json_values(json: Json) -> Result<Seq<ValueView>, IndexFault>
    decreases json,
{
    match json {
        Json::Text(s) => Ok(seq![ValueView::Text(s)]),
        Json::Bool(b) => Ok(seq![ValueView::Flag(b)]),
        Json::Num(JsonNumber::Integer(i)) if i64::MIN <= i <= i64::MAX => Ok(
            seq![ValueView::Integer(i as i64)],
        ),
        Json::Num(n) => Err(IndexFault::NotInteger(number_text(n))),
        Json::Array(items) => all_json_values(items),
        Json::Null => Ok(Seq::empty()),
        Json::Object(_) => Err(IndexFault::UnsupportedValue),
    }
}

/// The values that several JSON values give, one after the other; the first that gives none
/// decides the failure.
pub open spec fn all_json_values(items: Seq<Json>) -> Result<Seq<ValueView>, IndexFault>
    decreases items,
{
    if items.len() == 0 {
        Ok(Seq::empty())
    } else {
        match all_json_values(items.drop_last()) {
            Err(fault) => Err(fault),
            Ok(front) => match json_values(items.last()) {
                Err(fault) => Err(fault),
                Ok(back) => Ok(front + back),
            },
        }
    }
}

/// The values that a JSON value gives have its texts.
pub proof fn lemma_json_size(json: Json)
    ensures
        json_values(json) matches Ok(values) ==> values_size(values) == json_size(json),
    decreases json,
{
    reveal_with_fuel(values_size, 2);
    match json {
        Json::Array(items) => lemma_all_json_size(items),
        Json::Text(s) => {
            assert(seq![ValueView::Text(s)].drop_last() =~= Seq::empty());
        },
        Json::Bool(b) => {
            assert(seq![ValueView::Flag(b)].drop_last() =~= Seq::empty());
        },
        Json::Num(JsonNumber::Integer(i)) => {
            assert(seq![ValueView::Integer(i as i64)].drop_last() =~= Seq::empty());
        },
        _ => {},
    }
}

/// The values that several JSON values give have their texts.
proof fn lemma_all_json_size(items: Seq<Json>)
    ensures
        all_json_values(items) matches Ok(values) ==> values_size(values) == all_json_size(items),
    decreases items,
{
    if items.len() > 0 {
        lemma_all_json_size(items.drop_last());
        lemma_json_size(items.last());
        if let (Ok(front), Ok(back)) = (
            all_json_values(items.drop_last()),
            json_values(items.last()),
        ) {
            lemma_values_size(front, back);
        }
    }
}

/// The values that a JSON value gives to a field.
pub fn json_to_values(value: &serde_json::Value) -> (r: Result<Vec<FieldValue>, IndexError>)
    ensures
        match r {
            Ok(values) => json_values(json_tree(*value)) == Ok::<_, IndexFault>(
                value_views(values@),
            ),
            Err(e) => json_values(json_tree(*value)) == Err::<Seq<ValueView>, _>(e@),
        },
    decreases json_tree(*value),
{
    match json_node(value) {
        JsonNode::Text(s) => {
            let values = vec![FieldValue::Text(s.clone())];
            assert(value_views(values@) =~= seq![ValueView::Text(s@)]);
            Ok(values)
        },
        JsonNode::Bool(b) => {
            let values = vec![FieldValue::Flag(b)];
            assert(value_views(values@) =~= seq![ValueView::Flag(b)]);
            Ok(values)
        },
        JsonNode::Num(n) => match n.as_i64() {
            Some(i) => {
                let values = vec![FieldValue::Integer(i)];
                assert(value_views(values@) =~= seq![ValueView::Integer(i)]);
                Ok(values)
            },
            None => Err(IndexError::NotInteger(write_number(n))),
        },
        JsonNode::Array(items) => {
            let mut out: Vec<FieldValue> = Vec::new();
            let ghost trees = json_trees(items@);
            assert(value_views(out@) =~= Seq::empty());
            assert(trees.take(0) =~= Seq::empty());
            for i in 0..items.len()
                invariant
                    trees == json_trees(items@),
                    json_tree(*value) == Json::Array(trees),
                    all_json_values(trees.take(i as int)) == Ok::<_, IndexFault>(
                        value_views(out@),
                    ),
            {
                let ghost upto = trees.take(i + 1);
                assert(upto.drop_last() =~= trees.take(i as int));
                assert(upto.last() == json_tree(items@[i as int]));
                assert(decreases_to!(json_tree(*value) => trees[i as int]));
                match json_to_values(&items[i]) {
                    Ok(mut values) => {
                        let ghost before = out@;
                        let ghost more = values@;
                        out.append(&mut values);
                        assert(value_views(out@) =~= value_views(before) + value_views(more));
                    },
                    Err(e) => {
                        proof {
                            lemma_fault_stays(trees, i + 1);
                        }
                        return Err(e);
                    },
                }
            }
            assert(trees.take(trees.len() as int) =~= trees);
            Ok(out)
        },
        JsonNode::Null => {
            let values: Vec<FieldValue> = Vec::new();
            assert(value_views(values@) =~= Seq::empty());
            Ok(values)
        },
        JsonNode::Object => Err(IndexError::UnsupportedValue),
    }
}

/// Once a prefix of a list gives no values, the whole list fails in the same way.
proof fn lemma_fault_stays(items: Seq<Json>, n: int)
    requires
        0 <= n <= items.len(),
        all_json_values(items.take(n)) is Err,
    ensures
        all_json_values(items) == all_json_values(items.take(n)),
    decreases items.len() - n,
{
    if n < items.len() {
        assert(items.take(n + 1).drop_last() =~= items.take(n));
        lemma_fault_stays(items, n + 1);
    } else {
        assert(items.take(n) =~= items);
    }
}

/// One value of a field in JSON.
pub open spec fn value_json(value: ValueView) -> Json {
    match value {
        ValueView::Text(s) => Json::Text(s),
        ValueView::Integer(i) => Json::Num(JsonNumber::Integer(i as int)),
        ValueView::Flag(b) => Json::Bool(b),
    }
}

/// One value of a field in JSON.
pub fn value_to_json(value: &FieldValue) -> (r: serde_json::Value)
    ensures
        json_tree(r) == value_json(value@),
{
    match value {
        FieldValue::Text(s) => make_json(JsonPart::Text(s.clone())),
        FieldValue::Integer(i) => make_json(JsonPart::Integer(*i)),
        FieldValue::Flag(b) => make_json(JsonPart::Flag(*b)),
    }
}

/// The values of a field in JSON: a single value stands for itself, any other number of values
/// is an array.
pub open spec fn values_json(values: Seq<ValueView>) -> Json {
    if values.len() == 1 {
        value_json(values[0])
    } else {
        Json::Array(values.map_values(|v: ValueView| value_json(v)))
    }
}

/// The values of a field in JSON.
pub fn values_to_json(values: &Vec<FieldValue>) -> (r: serde_json::Value)
    ensures
        json_tree(r) == values_json(value_views(values@)),
{
    if values.len() == 1 {
        value_to_json(&values[0])
    } else {
        let mut items: Vec<serde_json::Value> = Vec::new();
        let ghost views = value_views(values@);
        for i in 0..values.len()
            invariant
                views == value_views(values@),
                json_trees(items@) =~= views.take(i as int).map_values(
                    |v: ValueView| value_json(v),
                ),
        {
            let ghost before = items@;
            items.push(value_to_json(&values[i]));
            assert(json_trees(items@) =~= json_trees(before).push(value_json(views[i as int])));
        }
        assert(views.take(views.len() as int) =~= views);
        make_json(JsonPart::Array(items))
    }
}

} // verus!
