//! The domain object builder: turns typed attributes plus the ordered list
//! of buffered child elements into a finished record.
//!
//! Tag children need both `k` and `v`; on a repeated key the last occurrence
//! in document order wins. An `nd` child without a `ref` is silently
//! omitted; a present but malformed `ref` is an error. A `member` child must
//! carry `type`, `ref` and `role`, each absence being a distinct error, and
//! the type must name one of the three record kinds.

use vstd::prelude::*;
use crate::attrs::{res_view, spec_typed_attrs, typed_attrs, typed_lat, typed_lon, node_lat,
    node_lon};
use crate::bytestr::{bytes_eq, clone_bytes};
use crate::events::{RawAttr, RawChild, attr_lookup, find_attr};
use crate::model::{Member, MemberV, Node, NodeV, ObjKind, ObjV, OsmError, OsmObj, Relation,
    RelationV, Tags, Way, WayV, AttrField};
use crate::names::{name_tag, name_nd, name_member, name_node, name_way, name_relation, key_k,
    key_v, key_ref, key_type, key_role, name_tag_bytes, name_nd_bytes, name_member_bytes,
    name_node_bytes, name_way_bytes, name_relation_bytes, key_k_bytes, key_v_bytes,
    key_ref_bytes, key_type_bytes, key_role_bytes};
use crate::numeric::{spec_parse_i64, parse_i64};

verus! {

/// A `tag` child carrying both `k` and `v`.
pub open spec fn is_kv_tag(c: RawChild) -> bool {
    c.name@ == name_tag() && attr_lookup(c.attrs@, key_k()) is Some && attr_lookup(
        c.attrs@,
        key_v(),
    ) is Some
}

/// The tag mapping described by a child list, in document order,
/// the last occurrence of a key winning.
pub open spec fn spec_tags(children: Seq<RawChild>) -> Map<Seq<u8>, Seq<u8>>
    decreases children.len(),
{
    if children.len() == 0 {
        Map::empty()
    } else {
        let m = spec_tags(children.drop_last());
        let c = children.last();
        if is_kv_tag(c) {
            m.insert(
                attr_lookup(c.attrs@, key_k())->Some_0,
                attr_lookup(c.attrs@, key_v())->Some_0,
            )
        } else {
            m
        }
    }
}

/// Builds the tag mapping of an object from its buffered children.
pub fn build_tags(children: &[RawChild]) -> (t: Tags)
    ensures
        t@ == spec_tags(children@),
{
    let mut t = Tags::new();
    let mut i: usize = 0;
    while i < children.len()
        invariant
            i <= children@.len(),
            t@ == spec_tags(children@.take(i as int)),
        decreases children@.len() - i,
    {
        proof {
            assert(children@.take(i + 1).drop_last() =~= children@.take(i as int));
            assert(children@.take(i + 1).last() == children@[i as int]);
        }
        let c = &children[i];
        if bytes_eq(c.name.as_slice(), name_tag_bytes().as_slice()) {
            match find_attr(c.attrs.as_slice(), key_k_bytes().as_slice()) {
                Some(k) => {
                    match find_attr(c.attrs.as_slice(), key_v_bytes().as_slice()) {
                        Some(v) => {
                            let kc = clone_bytes(k.as_slice());
                            let vc = clone_bytes(v.as_slice());
                            t = t.insert(kc, vc);
                        },
                        None => {},
                    }
                },
                None => {},
            }
        }
        i = i + 1;
    }
    proof {
        assert(children@.take(children@.len() as int) =~= children@);
    }
    t
}

/// The ordered node-reference list of a way: the literal `ref` values of
/// its `nd` children; an `nd` without `ref` contributes nothing.
pub open spec fn spec_refs(children: Seq<RawChild>) -> Result<Seq<i64>, OsmError>
    decreases children.len(),
{
    if children.len() == 0 {
        Ok(Seq::empty())
    } else {
        match spec_refs(children.drop_last()) {
            Err(e) => Err(e),
            Ok(s) => {
                let c = children.last();
                if c.name@ == name_nd() {
                    match attr_lookup(c.attrs@, key_ref()) {
                        None => Ok(s),
                        Some(v) => match spec_parse_i64(v) {
                            None => Err(OsmError::MalformedAttribute(AttrField::NdRef)),
                            Some(x) => Ok(s.push(x)),
                        },
                    }
                } else {
                    Ok(s)
                }
            },
        }
    }
}

/// Once a prefix of the child list fails, the whole list fails the same way.
proof fn lemma_refs_err(children: Seq<RawChild>, i: int)
    requires
        0 <= i <= children.len(),
        spec_refs(children.take(i)) is Err,
    ensures
        spec_refs(children) == spec_refs(children.take(i)),
    decreases children.len() - i,
{
    if i < children.len() {
        assert(children.take(i + 1).drop_last() =~= children.take(i));
        lemma_refs_err(children, i + 1);
    } else {
        assert(children.take(i) =~= children);
    }
}

/// Builds a way's node-reference list from its buffered children.
pub fn build_refs(children: &[RawChild]) -> (r: Result<Vec<i64>, OsmError>)
    ensures
        match r {
            Ok(refs) => spec_refs(children@) == Ok::<Seq<i64>, OsmError>(refs@),
            Err(e) => spec_refs(children@) == Err::<Seq<i64>, OsmError>(e),
        },
{
    let mut refs: Vec<i64> = Vec::new();
    let mut i: usize = 0;
    while i < children.len()
        invariant
            i <= children@.len(),
            spec_refs(children@.take(i as int)) == Ok::<Seq<i64>, OsmError>(refs@),
        decreases children@.len() - i,
    {
        proof {
            assert(children@.take(i + 1).drop_last() =~= children@.take(i as int));
            assert(children@.take(i + 1).last() == children@[i as int]);
        }
        let c = &children[i];
        if bytes_eq(c.name.as_slice(), name_nd_bytes().as_slice()) {
            match find_attr(c.attrs.as_slice(), key_ref_bytes().as_slice()) {
                None => {},
                Some(v) => match parse_i64(v.as_slice()) {
                    None => {
                        proof {
                            lemma_refs_err(children@, i + 1);
                        }
                        return Err(OsmError::MalformedAttribute(AttrField::NdRef));
                    },
                    Some(x) => {
                        refs.push(x);
                    },
                },
            }
        }
        i = i + 1;
    }
    proof {
        assert(children@.take(children@.len() as int) =~= children@);
    }
    Ok(refs)
}

/// The typed form of one `member` child: `type`, `ref` and `role` are all
/// required, and `type` must name a record kind.
pub open spec fn spec_member(c: RawChild) -> Result<MemberV, OsmError> {
    match attr_lookup(c.attrs@, key_type()) {
        None => Err(OsmError::NoMemberType),
        Some(t) => match attr_lookup(c.attrs@, key_ref()) {
            None => Err(OsmError::NoMemberRef),
            Some(rv) => match attr_lookup(c.attrs@, key_role()) {
                None => Err(OsmError::NoMemberRole),
                Some(role) => {
                    if t == name_node() || t == name_way() || t == name_relation() {
                        let kind = if t == name_node() {
                            ObjKind::Node
                        } else if t == name_way() {
                            ObjKind::Way
                        } else {
                            ObjKind::Relation
                        };
                        match spec_parse_i64(rv) {
                            None => Err(OsmError::MalformedAttribute(AttrField::MemberRef)),
                            Some(x) => Ok(MemberV { kind, mref: x, role }),
                        }
                    } else {
                        Err(OsmError::UnknownMemberType)
                    }
                },
            },
        },
    }
}

/// The ordered member list of a relation; a faulty member fails the whole
/// object.
pub open spec fn spec_members(children: Seq<RawChild>) -> Result<Seq<MemberV>, OsmError>
    decreases children.len(),
{
    if children.len() == 0 {
        Ok(Seq::empty())
    } else {
        match spec_members(children.drop_last()) {
            Err(e) => Err(e),
            Ok(s) => {
                let c = children.last();
                if c.name@ == name_member() {
                    match spec_member(c) {
                        Err(e) => Err(e),
                        Ok(m) => Ok(s.push(m)),
                    }
                } else {
                    Ok(s)
                }
            },
        }
    }
}

proof fn lemma_members_err(children: Seq<RawChild>, i: int)
    requires
        0 <= i <= children.len(),
        spec_members(children.take(i)) is Err,
    ensures
        spec_members(children) == spec_members(children.take(i)),
    decreases children.len() - i,
{
    if i < children.len() {
        assert(children.take(i + 1).drop_last() =~= children.take(i));
        lemma_members_err(children, i + 1);
    } else {
        assert(children.take(i) =~= children);
    }
}

/// Builds one member from a `member` child element.
fn build_member(c: &RawChild) -> (r: Result<Member, OsmError>)
    ensures
        res_view(r) == spec_member(*c),
{
    let t = match find_attr(c.attrs.as_slice(), key_type_bytes().as_slice()) {
        None => {
            return Err(OsmError::NoMemberType);
        },
        Some(t) => t,
    };
    let rv = match find_attr(c.attrs.as_slice(), key_ref_bytes().as_slice()) {
        None => {
            return Err(OsmError::NoMemberRef);
        },
        Some(rv) => rv,
    };
    let role = match find_attr(c.attrs.as_slice(), key_role_bytes().as_slice()) {
        None => {
            return Err(OsmError::NoMemberRole);
        },
        Some(role) => role,
    };
    let kind: ObjKind = if bytes_eq(t.as_slice(), name_node_bytes().as_slice()) {
        ObjKind::Node
    } else if bytes_eq(t.as_slice(), name_way_bytes().as_slice()) {
        ObjKind::Way
    } else if bytes_eq(t.as_slice(), name_relation_bytes().as_slice()) {
        ObjKind::Relation
    } else {
        return Err(OsmError::UnknownMemberType);
    };
    match parse_i64(rv.as_slice()) {
        None => Err(OsmError::MalformedAttribute(AttrField::MemberRef)),
        Some(x) => Ok(Member { kind, mref: x, role: clone_bytes(role.as_slice()) }),
    }
}

/// Builds a relation's member list from its buffered children.
pub fn build_members(children: &[RawChild]) -> (r: Result<Vec<Member>, OsmError>)
    ensures
        match r {
            Ok(ms) => spec_members(children@) == Ok::<Seq<MemberV>, OsmError>(
                ms@.map_values(|m: Member| m@),
            ),
            Err(e) => spec_members(children@) == Err::<Seq<MemberV>, OsmError>(e),
        },
{
    let mut ms: Vec<Member> = Vec::new();
    let mut i: usize = 0;
    proof {
        assert(ms@.map_values(|m: Member| m@) =~= Seq::<MemberV>::empty());
    }
    while i < children.len()
        invariant
            i <= children@.len(),
            spec_members(children@.take(i as int)) == Ok::<Seq<MemberV>, OsmError>(
                ms@.map_values(|m: Member| m@),
            ),
        decreases children@.len() - i,
    {
        proof {
            assert(children@.take(i + 1).drop_last() =~= children@.take(i as int));
            assert(children@.take(i + 1).last() == children@[i as int]);
        }
        let c = &children[i];
        if bytes_eq(c.name.as_slice(), name_member_bytes().as_slice()) {
            match build_member(c) {
                Err(e) => {
                    proof {
                        lemma_members_err(children@, i + 1);
                    }
                    return Err(e);
                },
                Ok(m) => {
                    let ghost before = ms@;
                    ms.push(m);
                    proof {
                        assert(ms@.map_values(|mm: Member| mm@) =~= before.map_values(
                            |mm: Member| mm@,
                        ).push(m@));
                    }
                },
            }
        }
        i = i + 1;
    }
    proof {
        assert(children@.take(children@.len() as int) =~= children@);
    }
    Ok(ms)
}

/// The finished record of a completed element group, or the first error
/// its assembly hits: common metadata first, then the kind's required
/// fields (longitude before latitude), then the children.
pub open spec fn spec_build(kind: ObjKind, attrs: Seq<RawAttr>, children: Seq<RawChild>) -> Result<
    ObjV,
    OsmError,
> {
    match spec_typed_attrs(attrs) {
        Err(e) => Err(e),
        Ok(a) => match kind {
            ObjKind::Node => match typed_lon(attrs) {
                Err(e) => Err(e),
                Ok(lon) => match typed_lat(attrs) {
                    Err(e) => Err(e),
                    Ok(lat) => Ok(
                        ObjV::Node(NodeV { attrs: a, lat, lon, tags: spec_tags(children) }),
                    ),
                },
            },
            ObjKind::Way => match spec_refs(children) {
                Err(e) => Err(e),
                Ok(refs) => Ok(
                    ObjV::Way(WayV { attrs: a, tags: spec_tags(children), refs }),
                ),
            },
            ObjKind::Relation => match spec_members(children) {
                Err(e) => Err(e),
                Ok(members) => Ok(
                    ObjV::Relation(RelationV { attrs: a, tags: spec_tags(children), members }),
                ),
            },
        },
    }
}

/// Builds the finished record for a completed element group.
pub fn build_object(kind: ObjKind, attrs: &[RawAttr], children: &[RawChild]) -> (r: Result<
    OsmObj,
    OsmError,
>)
    ensures
        res_view(r) == spec_build(kind, attrs@, children@),
{
    let a = match typed_attrs(attrs) {
        Err(e) => {
            return Err(e);
        },
        Ok(a) => a,
    };
    match kind {
        ObjKind::Node => {
            let lon = match node_lon(attrs) {
                Err(e) => {
                    return Err(e);
                },
                Ok(lon) => lon,
            };
            let lat = match node_lat(attrs) {
                Err(e) => {
                    return Err(e);
                },
                Ok(lat) => lat,
            };
            let tags = build_tags(children);
            Ok(OsmObj::Node(Node { attrs: a, lat, lon, tags }))
        },
        ObjKind::Way => {
            let refs = match build_refs(children) {
                Err(e) => {
                    return Err(e);
                },
                Ok(refs) => refs,
            };
            let tags = build_tags(children);
            Ok(OsmObj::Way(Way { attrs: a, tags, refs }))
        },
        ObjKind::Relation => {
            let members = match build_members(children) {
                Err(e) => {
                    return Err(e);
                },
                Ok(members) => members,
            };
            let tags = build_tags(children);
            Ok(OsmObj::Relation(Relation { attrs: a, tags, members }))
        },
    }
}

} // verus!
