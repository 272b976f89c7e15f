//! What can stand as a key of a JSON object.

use vstd::prelude::*;
use crate::json_write::value::json_string;
use crate::json_write::value::write_json_str;
use crate::json_write::write::JsonWrite;

verus! {

/// A value that can be written as a JSON key.
pub trait WriteJsonKey {
    /// The JSON text of the key.
    spec fn json_key(&self) -> Seq<char>;

    fn write_json_key<W: JsonWrite + ?Sized>(&self, writer: &mut W) -> (r: core::fmt::Result)
        ensures
            final(writer).infallible() == old(writer).infallible(),
            old(writer).infallible() ==> r is Ok,
            r is Ok ==> final(writer).text() == old(writer).text() + self.json_key(),
    ;
}

impl WriteJsonKey for str {
    open spec fn json_key(&self) -> Seq<char> {
        json_string(self@)
    }

    fn write_json_key<W: JsonWrite + ?Sized>(&self, writer: &mut W) -> (r: core::fmt::Result) {
        write_json_str(self, writer)
    }
}

impl WriteJsonKey for String {
    open spec fn json_key(&self) -> Seq<char> {
        json_string(self@)
    }

    fn write_json_key<W: JsonWrite + ?Sized>(&self, writer: &mut W) -> (r: core::fmt::Result) {
        write_json_str(self.as_str(), writer)
    }
}

impl WriteJsonKey for std::borrow::Cow<'_, str> {
    open spec fn json_key(&self) -> Seq<char> {
        json_string(self@)
    }

    fn write_json_key<W: JsonWrite + ?Sized>(&self, writer: &mut W) -> (r: core::fmt::Result) {
        match self {
            std::borrow::Cow::Borrowed(borrowed) => write_json_str(borrowed, writer),
            std::borrow::Cow::Owned(owned) => write_json_str(owned.as_str(), writer),
        }
    }
}

impl<V: WriteJsonKey + ?Sized> WriteJsonKey for &V {
    open spec fn json_key(&self) -> Seq<char> {
        (*self).json_key()
    }

    fn write_json_key<W: JsonWrite + ?Sized>(&self, writer: &mut W) -> (r: core::fmt::Result) {
        (*self).write_json_key(writer)
    }
}

/// A value that gives its JSON key as a string.
pub trait ToJsonKey: WriteJsonKey {
    fn to_json_key(&self) -> (key: String)
        ensures
            key@ == self.json_key(),
    ;
}

impl<T: WriteJsonKey + ?Sized> ToJsonKey for T {
    fn to_json_key(&self) -> (key: String) {
        let mut result = String::new();
        let _ = self.write_json_key(&mut result);
        result
    }
}

} // verus!
