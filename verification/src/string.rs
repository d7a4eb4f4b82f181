//! A text element whose addition is concatenation.

use crate::text::Text;
use core::ops::{Add, Deref};
use vstd::prelude::*;
use vstd::string::StringExecFns;

verus! {

/// A string that can stand as a matrix element: `a + b` is `a` followed by
/// `b`.
pub struct String_(String);

impl View for String_ {
    type V = Seq<char>;

    closed spec fn view(&self) -> Seq<char> {
        self.0@
    }
}

impl Clone for String_ {
    /// An equal string.
    fn clone(&self) -> (res: Self)
        ensures
            res == *self,
    {
        String_(self.0.clone())
    }
}

impl Deref for String_ {
    type Target = String;

    /// The string inside.
    fn deref(&self) -> (s: &String)
        ensures
            s@ == self@,
    {
        &self.0
    }
}

impl vstd::std_specs::convert::FromSpecImpl<String> for String_ {
    open spec fn obeys_from_spec() -> bool {
        true
    }

    closed spec fn from_spec(v: String) -> String_ {
        String_(v)
    }
}

impl From<String> for String_ {
    /// Wraps a string.
    fn from(v: String) -> (res: String_)
        ensures
            res@ == v@,
    {
        String_(v)
    }
}

impl vstd::std_specs::ops::AddSpecImpl for String_ {
    open spec fn obeys_add_spec() -> bool {
        false
    }

    open spec fn add_req(self, rhs: String_) -> bool {
        true
    }

    open spec fn add_spec(self, rhs: String_) -> String_ {
        arbitrary()
    }
}

impl Add for String_ {
    type Output = String_;

    /// The left string followed by the right one.
    fn add(self, rhs: String_) -> (res: String_)
        ensures
            res@ == self@ + rhs@,
    {
        String_(self.0.concat(rhs.0.as_str()))
    }
}

impl Text for String_ {
    open spec fn text(&self) -> Seq<char> {
        self@
    }

    fn to_text(&self) -> (s: String) {
        self.0.clone()
    }
}

} // verus!
