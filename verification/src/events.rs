//! The tokenizer-facing data: ordered XML events with raw attribute lists,
//! last-wins attribute lookup, and element-name classification.
//!
//! The tokenizer collaborator delivers events strictly in document order;
//! attribute values arrive already entity-unescaped.

use vstd::prelude::*;
use crate::bytestr::bytes_eq;
use crate::model::ObjKind;
use crate::names::{name_node, name_way, name_relation, name_tag, name_nd, name_member,
    name_node_bytes, name_way_bytes, name_relation_bytes, name_tag_bytes, name_nd_bytes,
    name_member_bytes};

verus! {

/// One raw attribute: key and entity-unescaped value.
pub struct RawAttr {
    pub key: Vec<u8>,
    pub value: Vec<u8>,
}

/// A buffered child element of an in-progress object: its name and
/// attributes, in document order.
pub struct RawChild {
    pub name: Vec<u8>,
    pub attrs: Vec<RawAttr>,
}

/// One tokenizer event.
pub enum RawEvent {
    /// An opening element with its attributes.
    Start { name: Vec<u8>, attrs: Vec<RawAttr> },
    /// A self-closing (empty) element with its attributes.
    Empty { name: Vec<u8>, attrs: Vec<RawAttr> },
    /// A closing element.
    End { name: Vec<u8> },
    /// End of input.
    Eof,
}

/// Last-wins lookup of `key` in a raw attribute list.
pub open spec fn attr_lookup(attrs: Seq<RawAttr>, key: Seq<u8>) -> Option<Seq<u8>>
    decreases attrs.len(),
{
    if attrs.len() == 0 {
        None
    } else if attrs.last().key@ == key {
        Some(attrs.last().value@)
    } else {
        attr_lookup(attrs.drop_last(), key)
    }
}

/// Finds the value of `key`; when the key repeats, the last occurrence wins.
pub fn find_attr<'a>(attrs: &'a [RawAttr], key: &[u8]) -> (r: Option<&'a Vec<u8>>)
    ensures
        match r {
            Some(v) => attr_lookup(attrs@, key@) == Some(v@),
            None => attr_lookup(attrs@, key@) is None,
        },
{
    proof {
        assert(attrs@.take(attrs@.len() as int) =~= attrs@);
    }
    let mut i: usize = attrs.len();
    while i > 0
        invariant
            i <= attrs@.len(),
            attr_lookup(attrs@, key@) == attr_lookup(attrs@.take(i as int), key@),
        decreases i,
    {
        i = i - 1;
        proof {
            assert(attrs@.take(i + 1).drop_last() =~= attrs@.take(i as int));
            assert(attrs@.take(i + 1).last() == attrs@[i as int]);
        }
        if bytes_eq(attrs[i].key.as_slice(), key) {
            return Some(&attrs[i].value);
        }
    }
    None
}

/// What an element name means to the assembler.
#[derive(Clone, Copy, PartialEq, Eq, Structural, Debug)]
pub enum ElemClass {
    /// `node`, `way` or `relation`: a top-level object.
    Object(ObjKind),
    /// `tag`, `nd` or `member`: only valid inside an object.
    Child,
    /// Anything else (`osm`, `bounds`, ...): ignored at the top level.
    Other,
}

/// Classification of an element name.
pub open spec fn spec_classify(name: Seq<u8>) -> ElemClass {
    if name == name_node() {
        ElemClass::Object(ObjKind::Node)
    } else if name == name_way() {
        ElemClass::Object(ObjKind::Way)
    } else if name == name_relation() {
        ElemClass::Object(ObjKind::Relation)
    } else if name == name_tag() || name == name_nd() || name == name_member() {
        ElemClass::Child
    } else {
        ElemClass::Other
    }
}

/// Classifies an element name.
pub fn classify_name(name: &[u8]) -> (c: ElemClass)
    ensures
        c == spec_classify(name@),
{
    if bytes_eq(name, name_node_bytes().as_slice()) {
        ElemClass::Object(ObjKind::Node)
    } else if bytes_eq(name, name_way_bytes().as_slice()) {
        ElemClass::Object(ObjKind::Way)
    } else if bytes_eq(name, name_relation_bytes().as_slice()) {
        ElemClass::Object(ObjKind::Relation)
    } else if bytes_eq(name, name_tag_bytes().as_slice()) || bytes_eq(
        name,
        name_nd_bytes().as_slice(),
    ) || bytes_eq(name, name_member_bytes().as_slice()) {
        ElemClass::Child
    } else {
        ElemClass::Other
    }
}

} // verus!
