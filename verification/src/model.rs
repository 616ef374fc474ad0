//! Domain records: nodes, ways, relations, their shared metadata, tags,
//! and the error values a parse can yield.
//!
//! Each executable type has a mathematical view: tags are seen as a map
//! from key to value, byte strings as sequences, lists as sequences.

use vstd::prelude::*;
use crate::bytestr::bytes_eq;

verus! {

/// The three top-level record kinds.
#[derive(Clone, Copy, PartialEq, Eq, Structural, Debug)]
pub enum ObjKind {
    Node,
    Way,
    Relation,
}

/// The attribute a malformed-value error refers to.
#[derive(Clone, Copy, PartialEq, Eq, Structural, Debug)]
pub enum AttrField {
    Id,
    Uid,
    Visible,
    Deleted,
    Version,
    Changeset,
    Lat,
    Lon,
    NdRef,
    MemberRef,
}

/// Everything that can go wrong while assembling records.
///
/// The first group is recoverable: the faulty object is reported and the
/// sequence goes on. The structural violations (`ChildOutsideObject`,
/// `NestedObject`, `UnexpectedObjectClose`) are reported as values too, and
/// end the sequence. `NotOsmFile` is a configuration error from input
/// selection.
#[derive(Clone, Copy, PartialEq, Eq, Structural, Debug)]
pub enum OsmError {
    /// An attribute was present but its value failed to parse.
    MalformedAttribute(AttrField),
    /// A node element without a `lon` attribute.
    NoLongitude,
    /// A node element without a `lat` attribute.
    NoLatitude,
    /// A relation member without a `type` attribute.
    NoMemberType,
    /// A relation member without a `ref` attribute.
    NoMemberRef,
    /// A relation member without a `role` attribute.
    NoMemberRole,
    /// A member `type` other than `node`, `way` or `relation`.
    UnknownMemberType,
    /// A `tag`, `nd` or `member` element outside any object.
    ChildOutsideObject,
    /// An object element opened inside another object.
    NestedObject,
    /// An object close with no object open.
    UnexpectedObjectClose,
    /// An input path without a recognized suffix.
    NotOsmFile,
}

impl OsmError {
    /// A short description, for hosts that print errors.
    pub fn message(&self) -> &'static str {
        match self {
            OsmError::MalformedAttribute(_) => "attribute value is malformed",
            OsmError::NoLongitude => "node has no longitude",
            OsmError::NoLatitude => "node has no latitude",
            OsmError::NoMemberType => "member has no type",
            OsmError::NoMemberRef => "member has no ref",
            OsmError::NoMemberRole => "member has no role",
            OsmError::UnknownMemberType => "member type is not node, way or relation",
            OsmError::ChildOutsideObject => "tag, nd or member appears outside node/way/relation",
            OsmError::NestedObject => "node/way/relation nested inside another object",
            OsmError::UnexpectedObjectClose => "object close with no object open",
            OsmError::NotOsmFile => "file is not .osm format",
        }
    }
}

/// One tag entry as stored.
#[derive(PartialEq, Eq, Debug)]
pub struct TagEntry {
    pub key: Vec<u8>,
    pub value: Vec<u8>,
}

/// Keys of `s` are pairwise distinct.
pub open spec fn unique_keys(s: Seq<TagEntry>) -> bool {
    forall|i: int, j: int| 0 <= i < j < s.len() ==> s[i].key@ != s[j].key@
}

/// The mapping described by an entry list, later entries overriding earlier.
pub open spec fn entry_map(s: Seq<TagEntry>) -> Map<Seq<u8>, Seq<u8>>
    decreases s.len(),
{
    if s.len() == 0 {
        Map::empty()
    } else {
        entry_map(s.drop_last()).insert(s.last().key@, s.last().value@)
    }
}

/// A key→value tag mapping with unique keys; inserting an existing key
/// overwrites its value (last occurrence wins).
#[derive(PartialEq, Eq, Debug)]
pub struct Tags {
    entries: Vec<TagEntry>,
}

impl View for Tags {
    type V = Map<Seq<u8>, Seq<u8>>;

    closed spec fn view(&self) -> Map<Seq<u8>, Seq<u8>> {
        entry_map(self.entries@)
    }
}

proof fn lemma_entry_map_at(s: Seq<TagEntry>, i: int)
    requires
        unique_keys(s),
        0 <= i < s.len(),
    ensures
        entry_map(s).contains_key(s[i].key@),
        entry_map(s)[s[i].key@] == s[i].value@,
    decreases s.len(),
{
    if i < s.len() - 1 {
        lemma_entry_map_at(s.drop_last(), i);
        assert(s.drop_last()[i] == s[i]);
        assert(s.last().key@ != s[i].key@);
    }
}

proof fn lemma_entry_map_absent(s: Seq<TagEntry>, k: Seq<u8>)
    requires
        forall|i: int| 0 <= i < s.len() ==> s[i].key@ != k,
    ensures
        !entry_map(s).contains_key(k),
    decreases s.len(),
{
    if s.len() > 0 {
        lemma_entry_map_absent(s.drop_last(), k);
    }
}

proof fn lemma_entry_map_finite(s: Seq<TagEntry>)
    ensures
        entry_map(s).dom().finite(),
    decreases s.len(),
{
    if s.len() > 0 {
        lemma_entry_map_finite(s.drop_last());
    }
}

proof fn lemma_entry_map_len(s: Seq<TagEntry>)
    requires
        unique_keys(s),
    ensures
        entry_map(s).dom().finite(),
        entry_map(s).dom().len() == s.len(),
    decreases s.len(),
{
    lemma_entry_map_finite(s);
    if s.len() > 0 {
        lemma_entry_map_len(s.drop_last());
        lemma_entry_map_absent(s.drop_last(), s.last().key@);
        assert(entry_map(s).dom() =~= entry_map(s.drop_last()).dom().insert(s.last().key@));
    }
}

proof fn lemma_entry_map_update(s: Seq<TagEntry>, i: int, e: TagEntry)
    requires
        unique_keys(s),
        0 <= i < s.len(),
        e.key@ == s[i].key@,
    ensures
        entry_map(s.update(i, e)) == entry_map(s).insert(e.key@, e.value@),
    decreases s.len(),
{
    let t = s.update(i, e);
    if i == s.len() - 1 {
        assert(t.drop_last() =~= s.drop_last());
        assert(t.last() == e);
        assert(entry_map(t) == entry_map(s.drop_last()).insert(e.key@, e.value@));
        assert(entry_map(s).insert(e.key@, e.value@) =~= entry_map(s.drop_last()).insert(
            e.key@,
            e.value@,
        ));
    } else {
        assert(t.drop_last() =~= s.drop_last().update(i, e));
        assert(t.last() == s.last());
        assert(s.drop_last()[i] == s[i]);
        lemma_entry_map_update(s.drop_last(), i, e);
        assert(s.last().key@ != e.key@);
        assert(entry_map(s.drop_last()).insert(e.key@, e.value@).insert(
            s.last().key@,
            s.last().value@,
        ) =~= entry_map(s.drop_last()).insert(s.last().key@, s.last().value@).insert(
            e.key@,
            e.value@,
        ));
    }
}

impl Tags {
    #[verifier::type_invariant]
    spec fn wf(&self) -> bool {
        unique_keys(self.entries@)
    }

    /// An empty mapping.
    pub fn new() -> (t: Tags)
        ensures
            t@ == Map::<Seq<u8>, Seq<u8>>::empty(),
    {
        Tags { entries: Vec::new() }
    }

    /// Number of distinct keys.
    pub fn len(&self) -> (n: usize)
        ensures
            n == self@.dom().len(),
    {
        proof {
            use_type_invariant(self);
            lemma_entry_map_len(self.entries@);
        }
        self.entries.len()
    }

    /// Looks a key up.
    pub fn get(&self, key: &[u8]) -> (r: Option<&Vec<u8>>)
        ensures
            match r {
                Some(v) => self@.contains_key(key@) && v@ == self@[key@],
                None => !self@.contains_key(key@),
            },
    {
        proof {
            use_type_invariant(self);
        }
        let mut i: usize = 0;
        while i < self.entries.len()
            invariant
                i <= self.entries@.len(),
                unique_keys(self.entries@),
                forall|j: int| 0 <= j < i ==> self.entries@[j].key@ != key@,
        decreases self.entries@.len() - i,
        {
            if bytes_eq(self.entries[i].key.as_slice(), key) {
                proof {
                    lemma_entry_map_at(self.entries@, i as int);
                }
                return Some(&self.entries[i].value);
            }
            i = i + 1;
        }
        proof {
            lemma_entry_map_absent(self.entries@, key@);
        }
        None
    }

    /// Inserts a key/value pair; an existing key is overwritten.
    #[verifier::loop_isolation(false)]
    pub fn insert(self, key: Vec<u8>, value: Vec<u8>) -> (r: Tags)
        ensures
            r@ == self@.insert(key@, value@),
    {
        proof {
            use_type_invariant(&self);
        }
        let Tags { mut entries } = self;
        let ghost s0 = entries@;
        let mut i: usize = 0;
        while i < entries.len()
            invariant
                i <= entries@.len(),
                entries@ == s0,
                unique_keys(s0),
                forall|j: int| 0 <= j < i ==> s0[j].key@ != key@,
            decreases entries@.len() - i,
        {
            if bytes_eq(entries[i].key.as_slice(), key.as_slice()) {
                let e = TagEntry { key, value };
                proof {
                    lemma_entry_map_update(s0, i as int, e);
                }
                entries.set(i, e);
                proof {
                    assert(unique_keys(entries@)) by {
                        assert(forall|j: int|
                            0 <= j < s0.len() && j != i ==> entries@[j] == s0[j]);
                    }
                }
                return Tags { entries };
            }
            i = i + 1;
        }
        let e = TagEntry { key, value };
        entries.push(e);
        proof {
            assert(entries@.drop_last() =~= s0);
            assert(entries@.last() == e);
            assert(unique_keys(entries@)) by {
                assert(forall|j: int| 0 <= j < s0.len() ==> entries@[j] == s0[j]);
            }
        }
        Tags { entries }
    }
}

/// Common optional metadata shared by all record kinds.
#[derive(PartialEq, Eq, Debug)]
pub struct ElementAttrs {
    pub id: Option<i64>,
    pub timestamp: Option<Vec<u8>>,
    pub uid: Option<i64>,
    pub user: Option<Vec<u8>>,
    pub visible: Option<bool>,
    pub deleted: Option<bool>,
    pub version: Option<u32>,
    pub changeset: Option<u64>,
}

/// Mathematical form of `ElementAttrs`.
pub ghost struct AttrsV {
    pub id: Option<i64>,
    pub timestamp: Option<Seq<u8>>,
    pub uid: Option<i64>,
    pub user: Option<Seq<u8>>,
    pub visible: Option<bool>,
    pub deleted: Option<bool>,
    pub version: Option<u32>,
    pub changeset: Option<u64>,
}

/// View of an optional byte string.
pub open spec fn opt_bytes_view(o: Option<Vec<u8>>) -> Option<Seq<u8>> {
    match o {
        Some(v) => Some(v@),
        None => None,
    }
}

impl View for ElementAttrs {
    type V = AttrsV;

    open spec fn view(&self) -> AttrsV {
        AttrsV {
            id: self.id,
            timestamp: opt_bytes_view(self.timestamp),
            uid: self.uid,
            user: opt_bytes_view(self.user),
            visible: self.visible,
            deleted: self.deleted,
            version: self.version,
            changeset: self.changeset,
        }
    }
}

/// A point record. `lat` and `lon` are in ten-millionths of a degree.
#[derive(PartialEq, Eq, Debug)]
pub struct Node {
    pub attrs: ElementAttrs,
    pub lat: i64,
    pub lon: i64,
    pub tags: Tags,
}

/// Mathematical form of `Node`.
pub ghost struct NodeV {
    pub attrs: AttrsV,
    pub lat: i64,
    pub lon: i64,
    pub tags: Map<Seq<u8>, Seq<u8>>,
}

impl View for Node {
    type V = NodeV;

    open spec fn view(&self) -> NodeV {
        NodeV { attrs: self.attrs@, lat: self.lat, lon: self.lon, tags: self.tags@ }
    }
}

/// An ordered path of node references.
#[derive(PartialEq, Eq, Debug)]
pub struct Way {
    pub attrs: ElementAttrs,
    pub tags: Tags,
    pub refs: Vec<i64>,
}

/// Mathematical form of `Way`.
pub ghost struct WayV {
    pub attrs: AttrsV,
    pub tags: Map<Seq<u8>, Seq<u8>>,
    pub refs: Seq<i64>,
}

impl View for Way {
    type V = WayV;

    open spec fn view(&self) -> WayV {
        WayV { attrs: self.attrs@, tags: self.tags@, refs: self.refs@ }
    }
}

/// One member of a relation.
#[derive(PartialEq, Eq, Debug)]
pub struct Member {
    pub kind: ObjKind,
    pub mref: i64,
    pub role: Vec<u8>,
}

/// Mathematical form of `Member`.
pub ghost struct MemberV {
    pub kind: ObjKind,
    pub mref: i64,
    pub role: Seq<u8>,
}

impl View for Member {
    type V = MemberV;

    open spec fn view(&self) -> MemberV {
        MemberV { kind: self.kind, mref: self.mref, role: self.role@ }
    }
}

/// A labeled grouping of references.
#[derive(PartialEq, Eq, Debug)]
pub struct Relation {
    pub attrs: ElementAttrs,
    pub tags: Tags,
    pub members: Vec<Member>,
}

/// Mathematical form of `Relation`.
pub ghost struct RelationV {
    pub attrs: AttrsV,
    pub tags: Map<Seq<u8>, Seq<u8>>,
    pub members: Seq<MemberV>,
}

impl View for Relation {
    type V = RelationV;

    open spec fn view(&self) -> RelationV {
        RelationV {
            attrs: self.attrs@,
            tags: self.tags@,
            members: self.members@.map_values(|m: Member| m@),
        }
    }
}

/// A completed record of any kind.
#[derive(PartialEq, Eq, Debug)]
pub enum OsmObj {
    Node(Node),
    Way(Way),
    Relation(Relation),
}

/// Mathematical form of `OsmObj`.
pub ghost enum ObjV {
    Node(NodeV),
    Way(WayV),
    Relation(RelationV),
}

impl View for OsmObj {
    type V = ObjV;

    open spec fn view(&self) -> ObjV {
        match self {
            OsmObj::Node(n) => ObjV::Node(n@),
            OsmObj::Way(w) => ObjV::Way(w@),
            OsmObj::Relation(r) => ObjV::Relation(r@),
        }
    }
}

impl OsmObj {
    /// The record's kind.
    pub fn kind(&self) -> (k: ObjKind)
        ensures
            k == self@.kind(),
    {
        match self {
            OsmObj::Node(_) => ObjKind::Node,
            OsmObj::Way(_) => ObjKind::Way,
            OsmObj::Relation(_) => ObjKind::Relation,
        }
    }
}

impl ObjV {
    /// The record's kind.
    pub open spec fn kind(&self) -> ObjKind {
        match self {
            ObjV::Node(_) => ObjKind::Node,
            ObjV::Way(_) => ObjKind::Way,
            ObjV::Relation(_) => ObjKind::Relation,
        }
    }
}

/// One element of the result sequence: a record or a recoverable error.
pub type ParseItem = Result<OsmObj, OsmError>;

/// View of one result item.
pub open spec fn item_view(r: ParseItem) -> Result<ObjV, OsmError> {
    match r {
        Ok(o) => Ok(o@),
        Err(e) => Err(e),
    }
}

/// View of a result sequence.
pub open spec fn items_view(s: Seq<ParseItem>) -> Seq<Result<ObjV, OsmError>> {
    s.map_values(|r: ParseItem| item_view(r))
}

} // verus!
