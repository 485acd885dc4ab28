use vstd::prelude::*;

verus! {

/// The four sorts of runtime value.
#[derive(Debug, Clone, Copy, PartialEq, Eq, Structural)]
pub enum ValueKind {
    Unit,
    Bool,
    Number,
    Text,
}

/// A runtime value.
///
/// A number is held as the bit pattern of an IEEE 754 double; this library
/// never looks inside it.
#[derive(Debug, PartialEq)]
pub enum Value {
    Unit,
    Bool(bool),
    Number(u64),
    Text(String),
}

/// The mathematical content of a [`Value`].
pub ghost enum ValueView {
    Unit,
    Bool(bool),
    Number(u64),
    Text(Seq<char>),
}

impl ValueView {
    pub open spec fn kind(self) -> ValueKind {
        match self {
            ValueView::Unit => ValueKind::Unit,
            ValueView::Bool(_) => ValueKind::Bool,
            ValueView::Number(_) => ValueKind::Number,
            ValueView::Text(_) => ValueKind::Text,
        }
    }
}

impl View for Value {
    type V = ValueView;

    open spec fn view(&self) -> ValueView {
        match self {
            Value::Unit => ValueView::Unit,
            Value::Bool(b) => ValueView::Bool(*b),
            Value::Number(n) => ValueView::Number(*n),
            Value::Text(t) => ValueView::Text(t@),
        }
    }
}

impl Clone for Value {
    fn clone(&self) -> (copy: Self)
        ensures
            copy@ == self@,
    {
        match self {
            Value::Unit => Value::Unit,
            Value::Bool(b) => Value::Bool(*b),
            Value::Number(n) => Value::Number(*n),
            Value::Text(t) => Value::Text(t.clone()),
        }
    }
}

impl Value {
    /// The sort of this value.
    pub fn kind(&self) -> (kind: ValueKind)
        ensures
            kind == self@.kind(),
    {
        match self {
            Value::Unit => ValueKind::Unit,
            Value::Bool(_) => ValueKind::Bool,
            Value::Number(_) => ValueKind::Number,
            Value::Text(_) => ValueKind::Text,
        }
    }
}

impl ValueKind {
    /// The name under which a sort appears in messages.
    pub open spec fn label(self) -> Seq<char> {
        match self {
            ValueKind::Unit => "unit"@,
            ValueKind::Bool => "bool"@,
            ValueKind::Number => "number"@,
            ValueKind::Text => "text"@,
        }
    }

    /// The name under which a sort appears in messages.
    pub fn name(self) -> (name: &'static str)
        ensures
            name@ == self.label(),
    {
        match self {
            ValueKind::Unit => "unit",
            ValueKind::Bool => "bool",
            ValueKind::Number => "number",
            ValueKind::Text => "text",
        }
    }
}

} // verus!
