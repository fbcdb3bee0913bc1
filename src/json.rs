use std::sync::Arc;
use vstd::prelude::*;

use crate::keyed::{bound_value, find_binding};

verus! {

/// An open-ended structured value: parameters, step inputs and the payload
/// of a module result. Arrays and objects are shared, so copies are cheap.
#[derive(Debug)]
pub enum JsonValue {
    Null,
    Bool(bool),
    /// A number, held as its decimal text.
    Number(String),
    Str(String),
    Array(Arc<Vec<JsonValue>>),
    /// Members in order; when a name repeats, the last member wins.
    Object(Arc<Vec<(String, JsonValue)>>),
}

impl Clone for JsonValue {
    fn clone(&self) -> (r: Self)
        ensures
            r == *self,
    {
        match self {
            JsonValue::Null => JsonValue::Null,
            JsonValue::Bool(b) => JsonValue::Bool(*b),
            JsonValue::Number(n) => JsonValue::Number(n.clone()),
            JsonValue::Str(s) => JsonValue::Str(s.clone()),
            JsonValue::Array(items) => JsonValue::Array(items.clone()),
            JsonValue::Object(members) => JsonValue::Object(members.clone()),
        }
    }
}

impl JsonValue {
    /// The member `key` of an object; nothing for any other kind of value.
    pub open spec fn field(self, key: Seq<char>) -> Option<JsonValue> {
        match self {
            JsonValue::Object(members) => bound_value(members@, key),
            _ => None,
        }
    }

    /// The member `key` of an object, if this is an object that has one.
    pub fn get(&self, key: &str) -> (r: Option<&JsonValue>)
        ensures
            match r {
                Some(v) => self.field(key@) == Some(*v),
                None => self.field(key@) is None,
            },
    {
        match self {
            JsonValue::Object(members) => match find_binding(&**members, key) {
                Some(i) => Some(&members[i].1),
                None => None,
            },
            _ => None,
        }
    }

    /// The text of a string value.
    pub fn as_str(&self) -> (r: Option<&str>)
        ensures
            match r {
                Some(s) => self matches JsonValue::Str(t) && t@ == s@,
                None => !(self is Str),
            },
    {
        match self {
            JsonValue::Str(s) => Some(s.as_str()),
            _ => None,
        }
    }

    /// An object with the given members.
    pub fn object(members: Vec<(String, JsonValue)>) -> (r: JsonValue)
        ensures
            r matches JsonValue::Object(m) && *m == members,
    {
        JsonValue::Object(Arc::new(members))
    }

    /// An array with the given items.
    pub fn array(items: Vec<JsonValue>) -> (r: JsonValue)
        ensures
            r matches JsonValue::Array(a) && *a == items,
    {
        JsonValue::Array(Arc::new(items))
    }
}

} // verus!
