//! The attribute typing layer: turns a raw attribute list into typed common
//! metadata. Absent attributes are valid; a present but malformed value is a
//! recoverable error naming the attribute. Fields are checked in a fixed
//! order, so the first malformed attribute in that order is reported.

use vstd::prelude::*;
use crate::bytestr::clone_bytes;
use crate::coord::{spec_parse_coord, parse_coord};
use crate::events::{RawAttr, attr_lookup, find_attr};
use crate::model::{AttrField, AttrsV, ElementAttrs, OsmError};
use crate::names::{key_id, key_timestamp, key_uid, key_user, key_visible, key_deleted,
    key_version, key_changeset, key_lat, key_lon, key_id_bytes, key_timestamp_bytes,
    key_uid_bytes, key_user_bytes, key_visible_bytes, key_deleted_bytes, key_version_bytes,
    key_changeset_bytes, key_lat_bytes, key_lon_bytes};
use crate::numeric::{spec_parse_i64, spec_parse_u64, spec_parse_u32, spec_parse_bool, parse_i64,
    parse_u64, parse_u32, parse_bool};

verus! {

/// View of a `Result` whose success side has a view.
pub open spec fn res_view<T: View>(r: Result<T, OsmError>) -> Result<T::V, OsmError> {
    match r {
        Ok(t) => Ok(t@),
        Err(e) => Err(e),
    }
}

/// The typed `id` field: absent is fine, malformed is an error.
pub open spec fn typed_id(attrs: Seq<RawAttr>) -> Result<Option<i64>, OsmError> {
    match attr_lookup(attrs, key_id()) {
        None => Ok(None),
        Some(v) => match spec_parse_i64(v) {
            None => Err(OsmError::MalformedAttribute(AttrField::Id)),
            Some(x) => Ok(Some(x)),
        },
    }
}

/// The typed `uid` field.
pub open spec fn typed_uid(attrs: Seq<RawAttr>) -> Result<Option<i64>, OsmError> {
    match attr_lookup(attrs, key_uid()) {
        None => Ok(None),
        Some(v) => match spec_parse_i64(v) {
            None => Err(OsmError::MalformedAttribute(AttrField::Uid)),
            Some(x) => Ok(Some(x)),
        },
    }
}

/// The typed `visible` field.
pub open spec fn typed_visible(attrs: Seq<RawAttr>) -> Result<Option<bool>, OsmError> {
    match attr_lookup(attrs, key_visible()) {
        None => Ok(None),
        Some(v) => match spec_parse_bool(v) {
            None => Err(OsmError::MalformedAttribute(AttrField::Visible)),
            Some(x) => Ok(Some(x)),
        },
    }
}

/// The typed `deleted` field.
pub open spec fn typed_deleted(attrs: Seq<RawAttr>) -> Result<Option<bool>, OsmError> {
    match attr_lookup(attrs, key_deleted()) {
        None => Ok(None),
        Some(v) => match spec_parse_bool(v) {
            None => Err(OsmError::MalformedAttribute(AttrField::Deleted)),
            Some(x) => Ok(Some(x)),
        },
    }
}

/// The typed `version` field.
pub open spec fn typed_version(attrs: Seq<RawAttr>) -> Result<Option<u32>, OsmError> {
    match attr_lookup(attrs, key_version()) {
        None => Ok(None),
        Some(v) => match spec_parse_u32(v) {
            None => Err(OsmError::MalformedAttribute(AttrField::Version)),
            Some(x) => Ok(Some(x)),
        },
    }
}

/// The typed `changeset` field.
pub open spec fn typed_changeset(attrs: Seq<RawAttr>) -> Result<Option<u64>, OsmError> {
    match attr_lookup(attrs, key_changeset()) {
        None => Ok(None),
        Some(v) => match spec_parse_u64(v) {
            None => Err(OsmError::MalformedAttribute(AttrField::Changeset)),
            Some(x) => Ok(Some(x)),
        },
    }
}

/// Typed common metadata of an element, or its first malformed attribute in
/// the order id, uid, visible, deleted, version, changeset.
pub open spec fn spec_typed_attrs(attrs: Seq<RawAttr>) -> Result<AttrsV, OsmError> {
    if typed_id(attrs) is Err {
        Err(typed_id(attrs)->Err_0)
    } else if typed_uid(attrs) is Err {
        Err(typed_uid(attrs)->Err_0)
    } else if typed_visible(attrs) is Err {
        Err(typed_visible(attrs)->Err_0)
    } else if typed_deleted(attrs) is Err {
        Err(typed_deleted(attrs)->Err_0)
    } else if typed_version(attrs) is Err {
        Err(typed_version(attrs)->Err_0)
    } else if typed_changeset(attrs) is Err {
        Err(typed_changeset(attrs)->Err_0)
    } else {
        Ok(
            AttrsV {
                id: typed_id(attrs)->Ok_0,
                timestamp: attr_lookup(attrs, key_timestamp()),
                uid: typed_uid(attrs)->Ok_0,
                user: attr_lookup(attrs, key_user()),
                visible: typed_visible(attrs)->Ok_0,
                deleted: typed_deleted(attrs)->Ok_0,
                version: typed_version(attrs)->Ok_0,
                changeset: typed_changeset(attrs)->Ok_0,
            },
        )
    }
}

/// Builds the typed common metadata from a raw attribute list.
pub fn typed_attrs(attrs: &[RawAttr]) -> (r: Result<ElementAttrs, OsmError>)
    ensures
        res_view(r) == spec_typed_attrs(attrs@),
{
    let id: Option<i64> = match find_attr(attrs, key_id_bytes().as_slice()) {
        None => None,
        Some(v) => match parse_i64(v.as_slice()) {
            None => {
                return Err(OsmError::MalformedAttribute(AttrField::Id));
            },
            Some(x) => Some(x),
        },
    };
    let uid: Option<i64> = match find_attr(attrs, key_uid_bytes().as_slice()) {
        None => None,
        Some(v) => match parse_i64(v.as_slice()) {
            None => {
                return Err(OsmError::MalformedAttribute(AttrField::Uid));
            },
            Some(x) => Some(x),
        },
    };
    let visible: Option<bool> = match find_attr(attrs, key_visible_bytes().as_slice()) {
        None => None,
        Some(v) => match parse_bool(v.as_slice()) {
            None => {
                return Err(OsmError::MalformedAttribute(AttrField::Visible));
            },
            Some(x) => Some(x),
        },
    };
    let deleted: Option<bool> = match find_attr(attrs, key_deleted_bytes().as_slice()) {
        None => None,
        Some(v) => match parse_bool(v.as_slice()) {
            None => {
                return Err(OsmError::MalformedAttribute(AttrField::Deleted));
            },
            Some(x) => Some(x),
        },
    };
    let version: Option<u32> = match find_attr(attrs, key_version_bytes().as_slice()) {
        None => None,
        Some(v) => match parse_u32(v.as_slice()) {
            None => {
                return Err(OsmError::MalformedAttribute(AttrField::Version));
            },
            Some(x) => Some(x),
        },
    };
    let changeset: Option<u64> = match find_attr(attrs, key_changeset_bytes().as_slice()) {
        None => None,
        Some(v) => match parse_u64(v.as_slice()) {
            None => {
                return Err(OsmError::MalformedAttribute(AttrField::Changeset));
            },
            Some(x) => Some(x),
        },
    };
    let timestamp: Option<Vec<u8>> = match find_attr(attrs, key_timestamp_bytes().as_slice()) {
        None => None,
        Some(v) => Some(clone_bytes(v.as_slice())),
    };
    let user: Option<Vec<u8>> = match find_attr(attrs, key_user_bytes().as_slice()) {
        None => None,
        Some(v) => Some(clone_bytes(v.as_slice())),
    };
    Ok(ElementAttrs { id, timestamp, uid, user, visible, deleted, version, changeset })
}

/// The latitude of a node element, in ten-millionths of a degree: the
/// attribute must be present and well formed.
pub open spec fn typed_lat(attrs: Seq<RawAttr>) -> Result<i64, OsmError> {
    match attr_lookup(attrs, key_lat()) {
        None => Err(OsmError::NoLatitude),
        Some(v) => match spec_parse_coord(v) {
            None => Err(OsmError::MalformedAttribute(AttrField::Lat)),
            Some(x) => Ok(x),
        },
    }
}

/// The longitude of a node element, in ten-millionths of a degree.
pub open spec fn typed_lon(attrs: Seq<RawAttr>) -> Result<i64, OsmError> {
    match attr_lookup(attrs, key_lon()) {
        None => Err(OsmError::NoLongitude),
        Some(v) => match spec_parse_coord(v) {
            None => Err(OsmError::MalformedAttribute(AttrField::Lon)),
            Some(x) => Ok(x),
        },
    }
}

/// Reads the required latitude attribute.
pub fn node_lat(attrs: &[RawAttr]) -> (r: Result<i64, OsmError>)
    ensures
        r == typed_lat(attrs@),
{
    match find_attr(attrs, key_lat_bytes().as_slice()) {
        None => Err(OsmError::NoLatitude),
        Some(v) => match parse_coord(v.as_slice()) {
            None => Err(OsmError::MalformedAttribute(AttrField::Lat)),
            Some(x) => Ok(x),
        },
    }
}

/// Reads the required longitude attribute.
pub fn node_lon(attrs: &[RawAttr]) -> (r: Result<i64, OsmError>)
    ensures
        r == typed_lon(attrs@),
{
    match find_attr(attrs, key_lon_bytes().as_slice()) {
        None => Err(OsmError::NoLongitude),
        Some(v) => match parse_coord(v.as_slice()) {
            None => Err(OsmError::MalformedAttribute(AttrField::Lon)),
            Some(x) => Ok(x),
        },
    }
}

} // verus!
