//! A closed model of the JSON values the control protocol reads and writes.
//! The transport parses incoming text into this shape and serializes outgoing
//! values from it; the protocol logic itself works only on this type.

use vstd::prelude::*;

verus! {

broadcast use vstd::std_specs::vec::axiom_vec_index_decreases;

/// An executable JSON value. A number is kept only as far as the protocol
/// reads it: an unsigned integer, or `NumOther` for any other number.
#[derive(Debug)]
pub enum JsonVal {
    Null,
    Bool(bool),
    UInt(u64),
    NumOther,
    Str(String),
    Arr(Vec<JsonVal>),
    Obj(Vec<(String, JsonVal)>),
}

/// The mathematical shape of a JSON value, used by contracts.
#[verifier::ext_equal]
pub enum JsonRep {
    Null,
    Bool(bool),
    UInt(u64),
    NumOther,
    Str(Seq<char>),
    Arr(Seq<JsonRep>),
    Obj(Seq<(Seq<char>, JsonRep)>),
}

/// The shape of an executable JSON value.
pub open spec fn json_view(v: JsonVal) -> JsonRep
    decreases v,
{
    match v {
        JsonVal::Null => JsonRep::Null,
        JsonVal::Bool(b) => JsonRep::Bool(b),
        JsonVal::UInt(n) => JsonRep::UInt(n),
        JsonVal::NumOther => JsonRep::NumOther,
        JsonVal::Str(s) => JsonRep::Str(s@),
        JsonVal::Arr(a) => JsonRep::Arr(
            Seq::new(a@.len(), |i: int| if 0 <= i < a@.len() {
                json_view(a[i])
            } else {
                JsonRep::Null
            }),
        ),
        JsonVal::Obj(o) => JsonRep::Obj(
            Seq::new(o@.len(), |i: int| if 0 <= i < o@.len() {
                (o[i].0@, json_view(o[i].1))
            } else {
                (Seq::empty(), JsonRep::Null)
            }),
        ),
    }
}

impl View for JsonVal {
    type V = JsonRep;

    open spec fn view(&self) -> JsonRep {
        json_view(*self)
    }
}

} // verus!
