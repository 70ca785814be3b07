//! Values that can be bound to a statement.
use vstd::prelude::*;

verus! {

/// A value bound to a positional marker of a statement.
///
/// A `Float` holds the bits of an IEEE 754 double, a `Timestamp` the
/// nanoseconds since the Unix epoch. A `List` holds scalars and stands on the
/// right of a set-membership comparison only.
#[derive(Debug, PartialEq)]
pub enum Value {
    Integer(i64),
    Float(u64),
    Text(String),
    Boolean(bool),
    Timestamp(i128),
    Null,
    List(Vec<Value>),
}

/// What a [`Value`] holds, with text as a sequence of characters.
pub enum ValueView {
    Integer(i64),
    Float(u64),
    Text(Seq<char>),
    Boolean(bool),
    Timestamp(i128),
    Null,
    List(Seq<ValueView>),
}

impl ValueView {
    /// Anything but a list.
    pub open spec fn is_scalar(self) -> bool {
        !(self is List)
    }

    /// A scalar, or a list of scalars.
    pub open spec fn well_formed(self) -> bool {
        self matches ValueView::List(items) ==> forall|i: int|
            0 <= i < items.len() ==> (#[trigger] items[i]).is_scalar()
    }
}

impl Value {
    /// What the value holds, with text as a sequence of characters.
    pub open spec fn model(self) -> ValueView
        decreases self,
    {
        match self {
            Value::Integer(i) => ValueView::Integer(i),
            Value::Float(bits) => ValueView::Float(bits),
            Value::Text(s) => ValueView::Text(s@),
            Value::Boolean(b) => ValueView::Boolean(b),
            Value::Timestamp(t) => ValueView::Timestamp(t),
            Value::Null => ValueView::Null,
            Value::List(items) => ValueView::List(
                Seq::new(
                    items@.len(),
                    |i: int|
                        if 0 <= i < items@.len() {
                            items@[i].model()
                        } else {
                            ValueView::Null
                        },
                ),
            ),
        }
    }
}

impl View for Value {
    type V = ValueView;

    open spec fn view(&self) -> ValueView {
        self.model()
    }
}

/// The views of `values`, in order.
pub open spec fn views(values: Seq<Value>) -> Seq<ValueView> {
    Seq::new(values.len(), |i: int| values[i]@)
}

impl Clone for Value {
    fn clone(&self) -> (r: Self)
        ensures
            r@ == self@,
        decreases self,
    {
        match self {
            Value::Integer(i) => Value::Integer(*i),
            Value::Float(bits) => Value::Float(*bits),
            Value::Text(s) => Value::Text(s.clone()),
            Value::Boolean(b) => Value::Boolean(*b),
            Value::Timestamp(t) => Value::Timestamp(*t),
            Value::Null => Value::Null,
            Value::List(items) => {
                let mut out: Vec<Value> = Vec::new();
                let mut i: usize = 0;
                while i < items.len()
                    invariant
                        i <= items@.len(),
                        out@.len() == i,
                        *self is List,
                        self->List_0 == *items,
                        forall|j: int| 0 <= j < i ==> (#[trigger] out@[j])@ == items@[j]@,
                    decreases items@.len() - i,
                {
                    out.push(items[i].clone());
                    i += 1;
                }
                let r = Value::List(out);
                proof {
                    assert(r@->List_0 =~= self@->List_0);
                }
                r
            },
        }
    }
}

impl Value {
    /// Whether the value is a list.
    pub fn is_list(&self) -> (r: bool)
        ensures
            r == (self@ is List),
    {
        match self {
            Value::List(_) => true,
            _ => false,
        }
    }

    /// Whether the value is a scalar, or a list that holds scalars only.
    pub fn is_well_formed(&self) -> (r: bool)
        ensures
            r == self@.well_formed(),
    {
        match self {
            Value::List(items) => {
                let mut i: usize = 0;
                while i < items.len()
                    invariant
                        i <= items@.len(),
                        *self is List,
                        self->List_0 == *items,
                        forall|j: int| 0 <= j < i ==> (#[trigger] self@->List_0[j]).is_scalar(),
                    decreases items@.len() - i,
                {
                    if items[i].is_list() {
                        assert(!self@->List_0[i as int].is_scalar());
                        return false;
                    }
                    i += 1;
                }
                true
            },
            _ => true,
        }
    }
}

/// Copies `values`, one for one.
pub fn clone_values(values: &Vec<Value>) -> (out: Vec<Value>)
    ensures
        views(out@) == views(values@),
{
    let mut out: Vec<Value> = Vec::new();
    let mut i: usize = 0;
    while i < values.len()
        invariant
            i <= values@.len(),
            out@.len() == i,
            forall|j: int| 0 <= j < i ==> (#[trigger] out@[j])@ == values@[j]@,
        decreases values@.len() - i,
    {
        out.push(values[i].clone());
        i += 1;
    }
    proof {
        assert(views(out@) =~= views(values@));
    }
    out
}

/// Anything that can be bound to a statement.
pub trait ToValue {
    /// What `self` is bound as. An implementation says what it is; where it
    /// says nothing, nothing is known of it.
    open spec fn value(&self) -> ValueView {
        arbitrary()
    }

    /// The value `self` is bound as.
    fn to_value(&self) -> (v: Value)
        ensures
            v@ == self.value(),
    ;
}

impl ToValue for Value {
    open spec fn value(&self) -> ValueView {
        self@
    }

    fn to_value(&self) -> (v: Value) {
        self.clone()
    }
}

impl ToValue for i64 {
    open spec fn value(&self) -> ValueView {
        ValueView::Integer(*self)
    }

    fn to_value(&self) -> (v: Value) {
        Value::Integer(*self)
    }
}

impl ToValue for i32 {
    open spec fn value(&self) -> ValueView {
        ValueView::Integer(*self as i64)
    }

    fn to_value(&self) -> (v: Value) {
        Value::Integer(*self as i64)
    }
}

impl ToValue for bool {
    open spec fn value(&self) -> ValueView {
        ValueView::Boolean(*self)
    }

    fn to_value(&self) -> (v: Value) {
        Value::Boolean(*self)
    }
}

impl ToValue for &str {
    open spec fn value(&self) -> ValueView {
        ValueView::Text(self@)
    }

    fn to_value(&self) -> (v: Value) {
        Value::Text(String::from_str(self))
    }
}

impl ToValue for String {
    open spec fn value(&self) -> ValueView {
        ValueView::Text(self@)
    }

    fn to_value(&self) -> (v: Value) {
        Value::Text(self.clone())
    }
}

impl<T: ToValue> ToValue for Option<T> {
    open spec fn value(&self) -> ValueView {
        match self {
            Some(inner) => inner.value(),
            None => ValueView::Null,
        }
    }

    fn to_value(&self) -> (v: Value) {
        match self {
            Some(inner) => inner.to_value(),
            None => Value::Null,
        }
    }
}

impl ToValue for &[i64] {
    open spec fn value(&self) -> ValueView {
        ValueView::List(Seq::new(self@.len(), |i: int| ValueView::Integer(self@[i])))
    }

    fn to_value(&self) -> (v: Value) {
        let mut out: Vec<Value> = Vec::new();
        let mut i: usize = 0;
        while i < self.len()
            invariant
                i <= self@.len(),
                out@.len() == i,
                forall|j: int| 0 <= j < i ==> (#[trigger] out@[j])@ == ValueView::Integer(self@[j]),
            decreases self@.len() - i,
        {
            out.push(Value::Integer(self[i]));
            i += 1;
        }
        let v = Value::List(out);
        proof {
            assert(v@->List_0 =~= self.value()->List_0);
        }
        v
    }
}

/// Anything that can be read from a value.
pub trait FromValue: Sized {
    /// Whether `r` is what `value` reads as. An implementation says what its
    /// readings are; where it says nothing, any result is one.
    open spec fn reads(value: ValueView, r: Option<Self>) -> bool {
        true
    }

    /// Reads `value`, if it is of the right kind.
    fn from_value(value: &Value) -> (r: Option<Self>)
        ensures
            Self::reads(value@, r),
    ;
}

impl FromValue for i64 {
    open spec fn reads(value: ValueView, r: Option<Self>) -> bool {
        r == match value {
            ValueView::Integer(i) => Some(i),
            _ => None,
        }
    }

    fn from_value(value: &Value) -> (r: Option<Self>) {
        match value {
            Value::Integer(i) => Some(*i),
            _ => None,
        }
    }
}

impl FromValue for bool {
    open spec fn reads(value: ValueView, r: Option<Self>) -> bool {
        r == match value {
            ValueView::Boolean(b) => Some(b),
            _ => None,
        }
    }

    fn from_value(value: &Value) -> (r: Option<Self>) {
        match value {
            Value::Boolean(b) => Some(*b),
            _ => None,
        }
    }
}

impl FromValue for String {
    open spec fn reads(value: ValueView, r: Option<Self>) -> bool {
        match value {
            ValueView::Text(s) => r matches Some(text) && text@ == s,
            _ => r is None,
        }
    }

    fn from_value(value: &Value) -> (r: Option<Self>) {
        match value {
            Value::Text(s) => Some(s.clone()),
            _ => None,
        }
    }
}

/// A null reads as nothing; any other value as what it reads as.
impl<T: FromValue> FromValue for Option<T> {
    open spec fn reads(value: ValueView, r: Option<Self>) -> bool {
        match value {
            ValueView::Null => r == Some(None::<T>),
            _ => match r {
                Some(Some(inner)) => T::reads(value, Some(inner)),
                Some(None) => false,
                None => T::reads(value, None),
            },
        }
    }

    fn from_value(value: &Value) -> (r: Option<Self>) {
        match value {
            Value::Null => Some(None),
            _ => match T::from_value(value) {
                Some(inner) => Some(Some(inner)),
                None => None,
            },
        }
    }
}

} // verus!
