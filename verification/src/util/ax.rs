use vstd::pervasive::cloned;
use vstd::prelude::*;

verus! {

/// A value `v` with an attachment `a` (a source location, a tag, or nothing).
#[derive(Debug, Clone, Copy, Hash, PartialEq, Eq)]
pub struct Ax<Attachment, Value> {
    pub a: Attachment,
    pub v: Value,
}

/// Attaches `a` to `v`.
pub fn ax<A, V>(a: A, v: V) -> (r: Ax<A, V>)
    ensures
        r == (Ax { a, v }),
{
    Ax { a, v }
}

/// Wraps `v` with the empty attachment.
pub fn ax0<V>(v: V) -> (r: Ax<(), V>)
    ensures
        r == (Ax { a: (), v }),
{
    Ax { a: (), v }
}

impl<Attachment, Value> Ax<Attachment, Value> {
    /// Attaches `a` to `v`.
    pub fn new(a: Attachment, v: Value) -> (r: Self)
        ensures
            r == (Ax { a, v }),
    {
        Ax { a, v }
    }

    /// Applies `f` to the value and keeps the attachment.
    pub fn map<NewVal, F: FnOnce(Value) -> NewVal>(self, f: F) -> (r: Ax<Attachment, NewVal>)
        requires
            f.requires((self.v,)),
        ensures
            r.a == self.a,
            f.ensures((self.v,), r.v),
    {
        Ax { a: self.a, v: f(self.v) }
    }

    /// Applies `f` to the attachment and keeps the value.
    pub fn map_a<NewAx, F: FnOnce(Attachment) -> NewAx>(self, f: F) -> (r: Ax<NewAx, Value>)
        requires
            f.requires((self.a,)),
        ensures
            r.v == self.v,
            f.ensures((self.a,), r.a),
    {
        Ax { a: f(self.a), v: self.v }
    }

    /// Borrows both parts.
    pub fn as_ref(&self) -> (r: Ax<&Attachment, &Value>)
        ensures
            *r.a == self.a,
            *r.v == self.v,
    {
        Ax { a: &self.a, v: &self.v }
    }
}

impl<Attachment: Clone, Value> Ax<&Attachment, Value> {
    /// Turns a borrowed attachment into an owned one: a clone of it.
    pub fn clone_a(self) -> (r: Ax<Attachment, Value>)
        ensures
            cloned(*self.a, r.a),
            r.v == self.v,
    {
        Ax { a: self.a.clone(), v: self.v }
    }
}

impl<Attachment, Value, E> Ax<Attachment, Result<Value, E>> {
    /// Moves the attachment inside a successful result; an error loses it.
    pub fn transpose(self) -> (r: Result<Ax<Attachment, Value>, E>)
        ensures
            r == match self.v {
                Ok(v) => Ok::<Ax<Attachment, Value>, E>(Ax { a: self.a, v }),
                Err(e) => Err(e),
            },
    {
        match self.v {
            Ok(v) => Ok(Ax { a: self.a, v }),
            Err(e) => Err(e),
        }
    }
}

impl<Attachment, Value> Ax<Attachment, Option<Value>> {
    /// Moves the attachment inside a present value; an absent one loses it.
    pub fn transpose(self) -> (r: Option<Ax<Attachment, Value>>)
        ensures
            r == match self.v {
                Some(v) => Some(Ax { a: self.a, v }),
                None => None,
            },
    {
        match self.v {
            Some(v) => Some(Ax { a: self.a, v }),
            None => None,
        }
    }
}

} // verus!
