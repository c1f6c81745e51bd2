use vstd::prelude::*;

verus! {

/// A structured value for the text serializer: strings, numbers, booleans,
/// ordered sequences and ordered key-value records.
#[derive(Debug)]
pub enum Value {
    String(String),
    Str(&'static str),
    Integer(i64),
    /// The exact number `num / den`; the serializer renders it as a decimal.
    Ratio(i64, i64),
    Boolean(bool),
    Array(ValueVec),
    Object(ValueObj),
}

#[derive(Debug)]
pub struct ValueVec(pub Vec<Value>);

impl ValueVec {
    pub fn new() -> (r: ValueVec)
        ensures
            r.0@ == Seq::<Value>::empty(),
    {
        ValueVec(Vec::new())
    }

    pub fn push(&mut self, value: Value)
        ensures
            final(self).0@ == old(self).0@.push(value),
    {
        self.0.push(value);
    }
}

#[derive(Debug)]
pub struct ValueObj(pub Vec<(&'static str, Value)>);

impl ValueObj {
    pub fn new() -> (r: ValueObj)
        ensures
            r.0@ == Seq::<(&'static str, Value)>::empty(),
    {
        ValueObj(Vec::new())
    }

    /// Appends an entry; records keep their insertion order.
    pub fn insert(&mut self, key: &'static str, value: Value)
        ensures
            final(self).0@ == old(self).0@.push((key, value)),
    {
        self.0.push((key, value));
    }
}

} // verus!
