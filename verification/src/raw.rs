//! The raw shape of one record as the origin dataset hands it over: a
//! loosely-typed nested mapping. The surrounding process decodes the wire
//! format into this tree of plain values before any field is extracted, so
//! every lookup path and coercion below is checked.
//!
//! A numeric leaf carries the IEEE-754 bit pattern of its value; the
//! extraction rules only pass numbers through, never compute with them.

use vstd::prelude::*;

use crate::text::str_eq;

verus! {

/// One node of a raw record: null, boolean, number (as its 64-bit IEEE-754
/// bit pattern), text, array, or mapping of named members.
pub enum RawValue {
    Null,
    Bool(bool),
    Num(u64),
    Str(String),
    Arr(Vec<RawValue>),
    Obj(Vec<(String, RawValue)>),
}

/// The first member of `pairs` named `key`, if any; members are kept in
/// the order the origin sent them, and an earlier member shadows a later
/// one of the same name.
pub open spec fn lookup(pairs: Seq<(String, RawValue)>, key: Seq<char>) -> Option<RawValue>
    decreases pairs.len(),
{
    if pairs.len() == 0 {
        None
    } else if pairs[0].0@ == key {
        Some(pairs[0].1)
    } else {
        lookup(pairs.drop_first(), key)
    }
}

impl RawValue {
    /// Member `key` of a mapping node; nothing on any other node.
    pub open spec fn obj_get(self, key: Seq<char>) -> Option<RawValue> {
        match self {
            RawValue::Obj(pairs) => lookup(pairs@, key),
            _ => None,
        }
    }

    /// Element `i` of an array node; nothing on any other node.
    pub open spec fn arr_get(self, i: int) -> Option<RawValue> {
        match self {
            RawValue::Arr(items) => if 0 <= i < items@.len() {
                Some(items@[i])
            } else {
                None
            },
            _ => None,
        }
    }

    /// The characters of a text node; nothing on any other node.
    pub open spec fn as_text_spec(self) -> Option<Seq<char>> {
        match self {
            RawValue::Str(s) => Some(s@),
            _ => None,
        }
    }

    /// The bit pattern of a numeric node; nothing on any other node.
    pub open spec fn as_num_spec(self) -> Option<u64> {
        match self {
            RawValue::Num(bits) => Some(bits),
            _ => None,
        }
    }

    /// Looks the named member up in a mapping node.
    pub fn get<'a>(&'a self, key: &str) -> (r: Option<&'a RawValue>)
        ensures
            match r {
                Some(v) => self.obj_get(key@) == Some(*v),
                None => self.obj_get(key@) is None,
            },
    {
        match self {
            RawValue::Obj(pairs) => {
                let n: usize = pairs.len();
                let mut i: usize = 0;
                proof {
                    assert(pairs@.skip(0) =~= pairs@);
                }
                while i < n
                    invariant
                        n == pairs@.len(),
                        i <= n,
                        lookup(pairs@, key@) == lookup(pairs@.skip(i as int), key@),
                        self.obj_get(key@) == lookup(pairs@, key@),
                    decreases n - i,
                {
                    proof {
                        assert(pairs@.skip(i as int).len() == n - i);
                        assert(pairs@.skip(i as int)[0] == pairs@[i as int]);
                        assert(pairs@.skip(i as int).drop_first() =~= pairs@.skip(i + 1));
                    }
                    let pair = &pairs[i];
                    if str_eq(pair.0.as_str(), key) {
                        proof {
                            assert(lookup(pairs@.skip(i as int), key@) == Some(
                                pairs@[i as int].1,
                            ));
                        }
                        return Some(&pair.1);
                    }
                    i = i + 1;
                }
                proof {
                    assert(pairs@.skip(n as int).len() == 0);
                }
                None
            },
            _ => None,
        }
    }

    /// Indexes into an array node.
    pub fn at<'a>(&'a self, i: usize) -> (r: Option<&'a RawValue>)
        ensures
            match r {
                Some(v) => self.arr_get(i as int) == Some(*v),
                None => self.arr_get(i as int) is None,
            },
    {
        match self {
            RawValue::Arr(items) => {
                if i < items.len() {
                    Some(&items[i])
                } else {
                    None
                }
            },
            _ => None,
        }
    }

    /// Reads a text node.
    pub fn as_text<'a>(&'a self) -> (r: Option<&'a String>)
        ensures
            match r {
                Some(s) => self.as_text_spec() == Some(s@),
                None => self.as_text_spec() is None,
            },
    {
        match self {
            RawValue::Str(s) => Some(s),
            _ => None,
        }
    }

    /// Reads the bit pattern of a numeric node.
    pub fn as_num_bits(&self) -> (r: Option<u64>)
        ensures
            r == self.as_num_spec(),
    {
        match self {
            RawValue::Num(bits) => Some(*bits),
            _ => None,
        }
    }
}

} // verus!
