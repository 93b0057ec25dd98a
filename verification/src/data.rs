//! Values read back from term references.

use vstd::prelude::*;

use vstd::std_specs::convert::{FromSpec, FromSpecImpl};

verus! {

/// A value read back from a term reference. Floating-point values are held by
/// their IEEE-754 bit patterns, so `==` compares floats bit for bit: a NaN
/// equals a NaN with the same bits, and `0.0` differs from `-0.0`.
#[derive(Clone, Debug, PartialEq)]
pub enum Data {
    String(String),
    Bool(bool),
    U32(u32),
    U64(u64),
    I32(i32),
    I64(i64),
    F32(u32),
    F64(u64),
}

impl From<String> for Data {
    fn from(value: String) -> (d: Data) {
        Data::String(value)
    }
}

impl FromSpecImpl<String> for Data {
    open spec fn obeys_from_spec() -> bool {
        true
    }

    open spec fn from_spec(v: String) -> Data {
        Data::String(v)
    }
}

impl<'a> From<&'a str> for Data {
    /// The text as a `Data::String`. A `String` made from a `&str` is known
    /// only by its characters, so this conversion promises no more than those.
    fn from(value: &'a str) -> (d: Data)
        ensures
            d matches Data::String(s) && s@ == value@,
    {
        Data::String(value.to_string())
    }
}

impl<'a> FromSpecImpl<&'a str> for Data {
    open spec fn obeys_from_spec() -> bool {
        false
    }

    open spec fn from_spec(v: &'a str) -> Data {
        Data::Bool(false)
    }
}

impl From<bool> for Data {
    fn from(value: bool) -> (d: Data) {
        Data::Bool(value)
    }
}

impl FromSpecImpl<bool> for Data {
    open spec fn obeys_from_spec() -> bool {
        true
    }

    open spec fn from_spec(v: bool) -> Data {
        Data::Bool(v)
    }
}

impl From<u32> for Data {
    fn from(value: u32) -> (d: Data) {
        Data::U32(value)
    }
}

impl FromSpecImpl<u32> for Data {
    open spec fn obeys_from_spec() -> bool {
        true
    }

    open spec fn from_spec(v: u32) -> Data {
        Data::U32(v)
    }
}

impl From<u64> for Data {
    fn from(value: u64) -> (d: Data) {
        Data::U64(value)
    }
}

impl FromSpecImpl<u64> for Data {
    open spec fn obeys_from_spec() -> bool {
        true
    }

    open spec fn from_spec(v: u64) -> Data {
        Data::U64(v)
    }
}

impl From<i32> for Data {
    fn from(value: i32) -> (d: Data) {
        Data::I32(value)
    }
}

impl FromSpecImpl<i32> for Data {
    open spec fn obeys_from_spec() -> bool {
        true
    }

    open spec fn from_spec(v: i32) -> Data {
        Data::I32(v)
    }
}

impl From<i64> for Data {
    fn from(value: i64) -> (d: Data) {
        Data::I64(value)
    }
}

impl FromSpecImpl<i64> for Data {
    open spec fn obeys_from_spec() -> bool {
        true
    }

    open spec fn from_spec(v: i64) -> Data {
        Data::I64(v)
    }
}

/// Converting a value into `Data` keeps it, in the variant of its type: so
/// two values convert to equal `Data` exactly when they are equal.
pub proof fn lemma_data_from_keeps_value(s: String, b: bool, u: u32, w: u64, i: i32, l: i64)
    ensures
        <Data as FromSpec<String>>::obeys_from_spec() && <Data as FromSpec<String>>::from_spec(s) == Data::String(s),
        <Data as FromSpec<bool>>::obeys_from_spec() && <Data as FromSpec<bool>>::from_spec(b) == Data::Bool(b),
        <Data as FromSpec<u32>>::obeys_from_spec() && <Data as FromSpec<u32>>::from_spec(u) == Data::U32(u),
        <Data as FromSpec<u64>>::obeys_from_spec() && <Data as FromSpec<u64>>::from_spec(w) == Data::U64(w),
        <Data as FromSpec<i32>>::obeys_from_spec() && <Data as FromSpec<i32>>::from_spec(i) == Data::I32(i),
        <Data as FromSpec<i64>>::obeys_from_spec() && <Data as FromSpec<i64>>::from_spec(l) == Data::I64(l),
        forall|x: bool, y: bool| <Data as FromSpec<bool>>::from_spec(x) == <Data as FromSpec<bool>>::from_spec(y) <==> x == y,
        forall|x: i32, y: i32| <Data as FromSpec<i32>>::from_spec(x) == <Data as FromSpec<i32>>::from_spec(y) <==> x == y,
        forall|x: i64, y: i64| <Data as FromSpec<i64>>::from_spec(x) == <Data as FromSpec<i64>>::from_spec(y) <==> x == y,
        forall|x: u32, y: u32| <Data as FromSpec<u32>>::from_spec(x) == <Data as FromSpec<u32>>::from_spec(y) <==> x == y,
        forall|x: u64, y: u64| <Data as FromSpec<u64>>::from_spec(x) == <Data as FromSpec<u64>>::from_spec(y) <==> x == y,
{
}

} // verus!
