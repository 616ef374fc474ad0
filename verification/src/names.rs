//! The element names, attribute keys and path suffixes the format uses,
//! as byte strings: each has a spec-level sequence and an executable array
//! proved equal to it.

use vstd::prelude::*;

verus! {

/// `id`
pub open spec fn key_id() -> Seq<u8> {
    seq![105u8, 100u8]
}

/// `id`
pub fn key_id_bytes() -> (a: [u8; 2])
    ensures
        a@ == key_id(),
{
    let a: [u8; 2] = [105u8, 100u8];
    proof {
        assert(a@ =~= key_id());
    }
    a
}

/// `timestamp`
pub open spec fn key_timestamp() -> Seq<u8> {
    seq![116u8, 105u8, 109u8, 101u8, 115u8, 116u8, 97u8, 109u8, 112u8]
}

/// `timestamp`
pub fn key_timestamp_bytes() -> (a: [u8; 9])
    ensures
        a@ == key_timestamp(),
{
    let a: [u8; 9] = [116u8, 105u8, 109u8, 101u8, 115u8, 116u8, 97u8, 109u8, 112u8];
    proof {
        assert(a@ =~= key_timestamp());
    }
    a
}

/// `uid`
pub open spec fn key_uid() -> Seq<u8> {
    seq![117u8, 105u8, 100u8]
}

/// `uid`
pub fn key_uid_bytes() -> (a: [u8; 3])
    ensures
        a@ == key_uid(),
{
    let a: [u8; 3] = [117u8, 105u8, 100u8];
    proof {
        assert(a@ =~= key_uid());
    }
    a
}

/// `user`
pub open spec fn key_user() -> Seq<u8> {
    seq![117u8, 115u8, 101u8, 114u8]
}

/// `user`
pub fn key_user_bytes() -> (a: [u8; 4])
    ensures
        a@ == key_user(),
{
    let a: [u8; 4] = [117u8, 115u8, 101u8, 114u8];
    proof {
        assert(a@ =~= key_user());
    }
    a
}

/// `visible`
pub open spec fn key_visible() -> Seq<u8> {
    seq![118u8, 105u8, 115u8, 105u8, 98u8, 108u8, 101u8]
}

/// `visible`
pub fn key_visible_bytes() -> (a: [u8; 7])
    ensures
        a@ == key_visible(),
{
    let a: [u8; 7] = [118u8, 105u8, 115u8, 105u8, 98u8, 108u8, 101u8];
    proof {
        assert(a@ =~= key_visible());
    }
    a
}

/// `deleted`
pub open spec fn key_deleted() -> Seq<u8> {
    seq![100u8, 101u8, 108u8, 101u8, 116u8, 101u8, 100u8]
}

/// `deleted`
pub fn key_deleted_bytes() -> (a: [u8; 7])
    ensures
        a@ == key_deleted(),
{
    let a: [u8; 7] = [100u8, 101u8, 108u8, 101u8, 116u8, 101u8, 100u8];
    proof {
        assert(a@ =~= key_deleted());
    }
    a
}

/// `version`
pub open spec fn key_version() -> Seq<u8> {
    seq![118u8, 101u8, 114u8, 115u8, 105u8, 111u8, 110u8]
}

/// `version`
pub fn key_version_bytes() -> (a: [u8; 7])
    ensures
        a@ == key_version(),
{
    let a: [u8; 7] = [118u8, 101u8, 114u8, 115u8, 105u8, 111u8, 110u8];
    proof {
        assert(a@ =~= key_version());
    }
    a
}

/// `changeset`
pub open spec fn key_changeset() -> Seq<u8> {
    seq![99u8, 104u8, 97u8, 110u8, 103u8, 101u8, 115u8, 101u8, 116u8]
}

/// `changeset`
pub fn key_changeset_bytes() -> (a: [u8; 9])
    ensures
        a@ == key_changeset(),
{
    let a: [u8; 9] = [99u8, 104u8, 97u8, 110u8, 103u8, 101u8, 115u8, 101u8, 116u8];
    proof {
        assert(a@ =~= key_changeset());
    }
    a
}

/// `lat`
pub open spec fn key_lat() -> Seq<u8> {
    seq![108u8, 97u8, 116u8]
}

/// `lat`
pub fn key_lat_bytes() -> (a: [u8; 3])
    ensures
        a@ == key_lat(),
{
    let a: [u8; 3] = [108u8, 97u8, 116u8];
    proof {
        assert(a@ =~= key_lat());
    }
    a
}

/// `lon`
pub open spec fn key_lon() -> Seq<u8> {
    seq![108u8, 111u8, 110u8]
}

/// `lon`
pub fn key_lon_bytes() -> (a: [u8; 3])
    ensures
        a@ == key_lon(),
{
    let a: [u8; 3] = [108u8, 111u8, 110u8];
    proof {
        assert(a@ =~= key_lon());
    }
    a
}

/// `k`
pub open spec fn key_k() -> Seq<u8> {
    seq![107u8]
}

/// `k`
pub fn key_k_bytes() -> (a: [u8; 1])
    ensures
        a@ == key_k(),
{
    let a: [u8; 1] = [107u8];
    proof {
        assert(a@ =~= key_k());
    }
    a
}

/// `v`
pub open spec fn key_v() -> Seq<u8> {
    seq![118u8]
}

/// `v`
pub fn key_v_bytes() -> (a: [u8; 1])
    ensures
        a@ == key_v(),
{
    let a: [u8; 1] = [118u8];
    proof {
        assert(a@ =~= key_v());
    }
    a
}

/// `ref`
pub open spec fn key_ref() -> Seq<u8> {
    seq![114u8, 101u8, 102u8]
}

/// `ref`
pub fn key_ref_bytes() -> (a: [u8; 3])
    ensures
        a@ == key_ref(),
{
    let a: [u8; 3] = [114u8, 101u8, 102u8];
    proof {
        assert(a@ =~= key_ref());
    }
    a
}

/// `type`
pub open spec fn key_type() -> Seq<u8> {
    seq![116u8, 121u8, 112u8, 101u8]
}

/// `type`
pub fn key_type_bytes() -> (a: [u8; 4])
    ensures
        a@ == key_type(),
{
    let a: [u8; 4] = [116u8, 121u8, 112u8, 101u8];
    proof {
        assert(a@ =~= key_type());
    }
    a
}

/// `role`
pub open spec fn key_role() -> Seq<u8> {
    seq![114u8, 111u8, 108u8, 101u8]
}

/// `role`
pub fn key_role_bytes() -> (a: [u8; 4])
    ensures
        a@ == key_role(),
{
    let a: [u8; 4] = [114u8, 111u8, 108u8, 101u8];
    proof {
        assert(a@ =~= key_role());
    }
    a
}

/// `node`
pub open spec fn name_node() -> Seq<u8> {
    seq![110u8, 111u8, 100u8, 101u8]
}

/// `node`
pub fn name_node_bytes() -> (a: [u8; 4])
    ensures
        a@ == name_node(),
{
    let a: [u8; 4] = [110u8, 111u8, 100u8, 101u8];
    proof {
        assert(a@ =~= name_node());
    }
    a
}

/// `way`
pub open spec fn name_way() -> Seq<u8> {
    seq![119u8, 97u8, 121u8]
}

/// `way`
pub fn name_way_bytes() -> (a: [u8; 3])
    ensures
        a@ == name_way(),
{
    let a: [u8; 3] = [119u8, 97u8, 121u8];
    proof {
        assert(a@ =~= name_way());
    }
    a
}

/// `relation`
pub open spec fn name_relation() -> Seq<u8> {
    seq![114u8, 101u8, 108u8, 97u8, 116u8, 105u8, 111u8, 110u8]
}

/// `relation`
pub fn name_relation_bytes() -> (a: [u8; 8])
    ensures
        a@ == name_relation(),
{
    let a: [u8; 8] = [114u8, 101u8, 108u8, 97u8, 116u8, 105u8, 111u8, 110u8];
    proof {
        assert(a@ =~= name_relation());
    }
    a
}

/// `tag`
pub open spec fn name_tag() -> Seq<u8> {
    seq![116u8, 97u8, 103u8]
}

/// `tag`
pub fn name_tag_bytes() -> (a: [u8; 3])
    ensures
        a@ == name_tag(),
{
    let a: [u8; 3] = [116u8, 97u8, 103u8];
    proof {
        assert(a@ =~= name_tag());
    }
    a
}

/// `nd`
pub open spec fn name_nd() -> Seq<u8> {
    seq![110u8, 100u8]
}

/// `nd`
pub fn name_nd_bytes() -> (a: [u8; 2])
    ensures
        a@ == name_nd(),
{
    let a: [u8; 2] = [110u8, 100u8];
    proof {
        assert(a@ =~= name_nd());
    }
    a
}

/// `member`
pub open spec fn name_member() -> Seq<u8> {
    seq![109u8, 101u8, 109u8, 98u8, 101u8, 114u8]
}

/// `member`
pub fn name_member_bytes() -> (a: [u8; 6])
    ensures
        a@ == name_member(),
{
    let a: [u8; 6] = [109u8, 101u8, 109u8, 98u8, 101u8, 114u8];
    proof {
        assert(a@ =~= name_member());
    }
    a
}

/// `.osm`
pub open spec fn suffix_osm() -> Seq<u8> {
    seq![46u8, 111u8, 115u8, 109u8]
}

/// `.osm`
pub fn suffix_osm_bytes() -> (a: [u8; 4])
    ensures
        a@ == suffix_osm(),
{
    let a: [u8; 4] = [46u8, 111u8, 115u8, 109u8];
    proof {
        assert(a@ =~= suffix_osm());
    }
    a
}

/// `.osm.gz`
pub open spec fn suffix_osm_gz() -> Seq<u8> {
    seq![46u8, 111u8, 115u8, 109u8, 46u8, 103u8, 122u8]
}

/// `.osm.gz`
pub fn suffix_osm_gz_bytes() -> (a: [u8; 7])
    ensures
        a@ == suffix_osm_gz(),
{
    let a: [u8; 7] = [46u8, 111u8, 115u8, 109u8, 46u8, 103u8, 122u8];
    proof {
        assert(a@ =~= suffix_osm_gz());
    }
    a
}

/// `.osm.bz2`
pub open spec fn suffix_osm_bz2() -> Seq<u8> {
    seq![46u8, 111u8, 115u8, 109u8, 46u8, 98u8, 122u8, 50u8]
}

/// `.osm.bz2`
pub fn suffix_osm_bz2_bytes() -> (a: [u8; 8])
    ensures
        a@ == suffix_osm_bz2(),
{
    let a: [u8; 8] = [46u8, 111u8, 115u8, 109u8, 46u8, 98u8, 122u8, 50u8];
    proof {
        assert(a@ =~= suffix_osm_bz2());
    }
    a
}

} // verus!
