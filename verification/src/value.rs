//! The values that a document field holds.
use vstd::prelude::*;

verus! {

/// One value of a document field.
#[derive(Clone, Debug, PartialEq, Eq)]
pub enum FieldValue {
    Text(String),
    Integer(i64),
    Flag(bool),
}

/// What a [`FieldValue`] stands for.
pub enum ValueView {
    Text(Seq<char>),
    Integer(i64),
    Flag(bool),
}

impl View for FieldValue {
    type V = ValueView;

    open spec fn view(&self) -> ValueView {
        match *self {
            FieldValue::Text(s) => ValueView::Text(s@),
            FieldValue::Integer(i) => ValueView::Integer(i),
            FieldValue::Flag(b) => ValueView::Flag(b),
        }
    }
}

/// What a list of values stands for.
pub open spec fn value_views(values: Seq<FieldValue>) -> Seq<ValueView> {
    values.map_values(|v: FieldValue| v@)
}

/// How many characters the texts among some values have.
pub open spec fn values_size(values: Seq<ValueView>) -> nat
    decreases values.len(),
{
    if values.len() == 0 {
        0
    } else {
        values_size(values.drop_last()) + match values.last() {
            ValueView::Text(s) => s.len(),
            _ => 0,
        }
    }
}

/// The texts of joined values have as many characters as those of both parts.
pub proof fn lemma_values_size(a: Seq<ValueView>, b: Seq<ValueView>)
    ensures
        values_size(a + b) == values_size(a) + values_size(b),
    decreases b.len(),
{
    if b.len() == 0 {
        assert(a + b =~= a);
    } else {
        lemma_values_size(a, b.drop_last());
        assert((a + b).drop_last() =~= a + b.drop_last());
        assert((a + b).last() == b.last());
    }
}

} // verus!
