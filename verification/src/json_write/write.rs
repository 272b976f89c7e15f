//! The sink of JSON text, and the punctuation of JSON.

use vstd::prelude::*;
use crate::json_write::key::WriteJsonKey;
use crate::json_write::value::WriteJsonValue;

verus! {

/// `core::fmt::Error`: the error of a sink that did not take a text; it says no more.
#[verifier::external_type_specification]
#[verifier::external_body]
pub struct ExFmtError(core::fmt::Error);

/// A sink of JSON text. `text` is what the sink has accepted so far; a sink that is
/// `infallible` never refuses a write.
pub trait JsonWrite {
    spec fn text(&self) -> Seq<char>;

    spec fn infallible(&self) -> bool;

    /// Writes `s` as it is.
    fn write_str(&mut self, s: &str) -> (r: core::fmt::Result)
        ensures
            final(self).infallible() == old(self).infallible(),
            old(self).infallible() ==> r is Ok,
            r is Ok ==> final(self).text() == old(self).text() + s@,
    ;

    fn open_object(&mut self) -> (r: core::fmt::Result)
        ensures
            final(self).infallible() == old(self).infallible(),
            old(self).infallible() ==> r is Ok,
            r is Ok ==> final(self).text() == old(self).text() + "{"@,
    {
        self.write_str("{")
    }

    fn close_object(&mut self) -> (r: core::fmt::Result)
        ensures
            final(self).infallible() == old(self).infallible(),
            old(self).infallible() ==> r is Ok,
            r is Ok ==> final(self).text() == old(self).text() + "}"@,
    {
        self.write_str("}")
    }

    fn open_array(&mut self) -> (r: core::fmt::Result)
        ensures
            final(self).infallible() == old(self).infallible(),
            old(self).infallible() ==> r is Ok,
            r is Ok ==> final(self).text() == old(self).text() + "["@,
    {
        self.write_str("[")
    }

    fn close_array(&mut self) -> (r: core::fmt::Result)
        ensures
            final(self).infallible() == old(self).infallible(),
            old(self).infallible() ==> r is Ok,
            r is Ok ==> final(self).text() == old(self).text() + "]"@,
    {
        self.write_str("]")
    }

    /// Writes the separator between a key and its value.
    fn keyval_sep(&mut self) -> (r: core::fmt::Result)
        ensures
            final(self).infallible() == old(self).infallible(),
            old(self).infallible() ==> r is Ok,
            r is Ok ==> final(self).text() == old(self).text() + ":"@,
    {
        self.write_str(":")
    }

    /// Writes the separator between two values.
    fn val_sep(&mut self) -> (r: core::fmt::Result)
        ensures
            final(self).infallible() == old(self).infallible(),
            old(self).infallible() ==> r is Ok,
            r is Ok ==> final(self).text() == old(self).text() + ","@,
    {
        self.write_str(",")
    }

    fn space(&mut self) -> (r: core::fmt::Result)
        ensures
            final(self).infallible() == old(self).infallible(),
            old(self).infallible() ==> r is Ok,
            r is Ok ==> final(self).text() == old(self).text() + " "@,
    {
        self.write_str(" ")
    }

    fn newline(&mut self) -> (r: core::fmt::Result)
        ensures
            final(self).infallible() == old(self).infallible(),
            old(self).infallible() ==> r is Ok,
            r is Ok ==> final(self).text() == old(self).text() + "\n"@,
    {
        self.write_str("\n")
    }
}

/// A string takes every text.
impl JsonWrite for String {
    open spec fn text(&self) -> Seq<char> {
        self@
    }

    open spec fn infallible(&self) -> bool {
        true
    }

    fn write_str(&mut self, s: &str) -> (r: core::fmt::Result) {
        self.append(s);
        Ok(())
    }
}

/// Writing keys and values to a sink of JSON text.
pub trait JsonWriteItems: JsonWrite {
    /// Writes an encoded JSON key.
    fn key<K: WriteJsonKey>(&mut self, value: K) -> (r: core::fmt::Result)
        ensures
            final(self).infallible() == old(self).infallible(),
            old(self).infallible() ==> r is Ok,
            r is Ok ==> final(self).text() == old(self).text() + value.json_key(),
    ;

    /// Writes an encoded JSON value.
    fn value<V: WriteJsonValue>(&mut self, value: V) -> (r: core::fmt::Result)
        ensures
            final(self).infallible() == old(self).infallible(),
            old(self).infallible() ==> r is Ok,
            r is Ok ==> final(self).text() == old(self).text() + value.json_value(),
    ;
}

impl<W: JsonWrite + ?Sized> JsonWriteItems for W {
    fn key<K: WriteJsonKey>(&mut self, value: K) -> (r: core::fmt::Result) {
        value.write_json_key(self)
    }

    fn value<V: WriteJsonValue>(&mut self, value: V) -> (r: core::fmt::Result) {
        value.write_json_value(self)
    }
}

} // verus!
