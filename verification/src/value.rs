//! The values that codecs carry.

use crate::types::integer::Integer;
use vstd::prelude::*;

verus! {

/// A value in memory, as a codec reads or writes it.
#[derive(Debug, PartialEq, Eq)]
pub enum Value {
    /// A number, for the integer kinds and, as its bit pattern, for floats.
    Int(Integer),
    Bool(bool),
    Text(String),
    /// The elements of a sequence, an array or a tuple, or the fields of a
    /// record, in order.
    List(Vec<Value>),
    /// One variant of a union: its discriminant and its fields in order.
    Variant { discriminant: Integer, fields: Vec<Value> },
    /// A value of a named type that travels as a value of another type.
    Opaque { name: String, wire: Box<Value> },
}

/// The mathematical content of a [`Value`].
pub enum ValueView {
    Int(int),
    Bool(bool),
    Text(Seq<char>),
    List(Seq<ValueView>),
    Variant { discriminant: int, fields: Seq<ValueView> },
    Opaque { name: Seq<char>, wire: Box<ValueView> },
}

impl Value {
    /// The content of the value; [`View::view`] gives the same.
    pub open spec fn model(&self) -> ValueView
        decreases self,
    {
        match self {
            Value::Int(n) => ValueView::Int(n@),
            Value::Bool(b) => ValueView::Bool(*b),
            Value::Text(s) => ValueView::Text(s@),
            Value::List(items) => ValueView::List(
                Seq::new(
                    items.len() as nat,
                    |i: int|
                        if 0 <= i < items.len() {
                            items[i].model()
                        } else {
                            ValueView::Bool(false)
                        },
                ),
            ),
            Value::Variant { discriminant, fields } => ValueView::Variant {
                discriminant: discriminant@,
                fields: Seq::new(
                    fields.len() as nat,
                    |i: int|
                        if 0 <= i < fields.len() {
                            fields[i].model()
                        } else {
                            ValueView::Bool(false)
                        },
                ),
            },
            Value::Opaque { name, wire } => ValueView::Opaque {
                name: name@,
                wire: Box::new(wire.model()),
            },
        }
    }
}

impl View for Value {
    type V = ValueView;

    open spec fn view(&self) -> ValueView {
        self.model()
    }
}

/// The contents of a vector of values, one by one.
pub open spec fn values_view(items: Seq<Value>) -> Seq<ValueView> {
    Seq::new(items.len(), |i: int| items[i]@)
}

/// The content of a list is the contents of its items.
pub proof fn lemma_list_view(items: Vec<Value>)
    ensures
        Value::List(items)@ == ValueView::List(values_view(items@)),
{
    assert(Value::List(items).model()->List_0 =~= values_view(items@));
}

/// The content of a variant is its discriminant and the contents of its
/// fields.
pub proof fn lemma_variant_view(discriminant: Integer, fields: Vec<Value>)
    ensures
        (Value::Variant { discriminant, fields })@ == (ValueView::Variant {
            discriminant: discriminant@,
            fields: values_view(fields@),
        }),
{
    assert((Value::Variant { discriminant, fields }).model()->Variant_fields =~= values_view(
        fields@,
    ));
}

} // verus!
