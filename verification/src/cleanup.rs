//! The guard of an upload that has reserved a version.
use crate::data::Uuid;
use crate::object::{
    object_with, Object, ObjectVersion, ObjectVersionState, ObjectView, StateView,
};
use vstd::prelude::*;

verus! {

/// The version that a clean-up after an interrupted PUT marks as aborted.
#[derive(Debug, Clone, PartialEq, Eq)]
pub struct CleanupTarget {
    pub bucket_id: Uuid,
    pub key: String,
    pub version_uuid: Uuid,
    pub version_timestamp: u64,
}

/// The guard of a PUT that has reserved a version: until it is cancelled,
/// letting go of it yields the row that marks the version as aborted.
#[derive(Debug, PartialEq, Eq)]
pub struct InterruptedCleanup {
    pub target: Option<CleanupTarget>,
}

impl InterruptedCleanup {
    /// Whether the guard still stands, and for which version.
    pub open spec fn armed_for(
        self,
        bucket_id: Uuid,
        key: Seq<char>,
        version_uuid: Uuid,
        version_timestamp: u64,
    ) -> bool {
        &&& self.target matches Some(t)
        &&& t.bucket_id == bucket_id
        &&& t.key@ == key
        &&& t.version_uuid == version_uuid
        &&& t.version_timestamp == version_timestamp
    }

    /// The row that letting go of the guard yields: where the guard still
    /// stands, the object with the version, at its time stamp, as aborted.
    pub open spec fn released_row(self) -> Option<ObjectView> {
        match self.target {
            Some(t) => Some(
                object_with(
                    t.bucket_id,
                    t.key@,
                    t.version_uuid,
                    t.version_timestamp,
                    StateView::Aborted,
                ),
            ),
            None => None,
        }
    }

    /// The guard of the version `version_uuid` of `key` in `bucket_id`.
    pub fn new(bucket_id: Uuid, key: String, version_uuid: Uuid, version_timestamp: u64) -> (r:
        InterruptedCleanup)
        ensures
            r.armed_for(bucket_id, key@, version_uuid, version_timestamp),
    {
        InterruptedCleanup {
            target: Some(CleanupTarget { bucket_id, key, version_uuid, version_timestamp }),
        }
    }

    /// Disarms the guard: the PUT went through.
    pub fn cancel(&mut self)
        ensures
            final(self).target is None,
    {
        self.target = None;
    }

    /// Lets go of the guard. Where it still stood, the result is the row to
    /// write: the object with the version, at its time stamp, as aborted.
    /// The guard is disarmed.
    pub fn release(&mut self) -> (r: Option<Object>)
        ensures
            final(self).target is None,
            match old(self).released_row() {
                Some(row) => r matches Some(o) && o@ == row,
                None => r is None,
            },
    {
        match self.target.take() {
            Some(t) => {
                let version = ObjectVersion {
                    uuid: t.version_uuid,
                    timestamp: t.version_timestamp,
                    state: ObjectVersionState::Aborted,
                };
                Some(Object::single(t.bucket_id, t.key, version))
            },
            None => None,
        }
    }
}

} // verus!
