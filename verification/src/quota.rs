//! The quotas of a bucket, held against its counters.
//!
//! The counters are only eventually consistent, so the quotas are soft: a
//! write is refused where it would grow the bucket beyond a quota, and a
//! write that does not grow it is never refused.
use crate::error::{Error, ErrorView};
use crate::object::{counted_bytes, counted_objects, Object, ObjectVersionView};
use crate::text::{decimal, i64_to_string, signed_decimal, u64_to_string};
use vstd::prelude::*;

verus! {

/// The limits of a bucket; a limit that is absent does not bind.
#[derive(Debug, Clone, Copy, PartialEq, Eq)]
pub struct BucketQuotas {
    pub max_size: Option<u64>,
    pub max_objects: Option<u64>,
}

/// What a bucket holds by its counters.
#[derive(Debug, Clone, Copy, PartialEq, Eq)]
pub struct BucketCounters {
    pub objects: i64,
    pub bytes: i64,
}

/// How a write fares against the quotas.
pub enum QuotaVerdict {
    Allowed,
    /// The write adds an object and the bucket would hold more than this
    /// many.
    TooManyObjects(u64),
    /// The write adds bytes and the bucket would hold more than `max`.
    TooManyBytes { max: u64, current: i64, added: nat },
}

/// The objects that the write adds: one, less what the key held before.
pub open spec fn objects_added(prev: Option<Seq<ObjectVersionView>>) -> int {
    match prev {
        Some(v) => 1 - counted_objects(v),
        None => 1,
    }
}

/// The bytes that the write adds: its size, less what the key held before.
pub open spec fn bytes_added(size: u64, prev: Option<Seq<ObjectVersionView>>) -> int {
    match prev {
        Some(v) => size - counted_bytes(v),
        None => size as int,
    }
}

/// A write is refused exactly where it adds to a count and the count after
/// it is beyond the limit; the objects are looked at first.
pub open spec fn quota_verdict(
    quotas: BucketQuotas,
    counters: BucketCounters,
    size: u64,
    prev: Option<Seq<ObjectVersionView>>,
) -> QuotaVerdict {
    let more_objects = objects_added(prev);
    let more_bytes = bytes_added(size, prev);
    if quotas.max_objects is Some && more_objects > 0 && counters.objects + more_objects
        > quotas.max_objects->0 {
        QuotaVerdict::TooManyObjects(quotas.max_objects->0)
    } else if quotas.max_size is Some && more_bytes > 0 && counters.bytes + more_bytes
        > quotas.max_size->0 {
        QuotaVerdict::TooManyBytes {
            max: quotas.max_size->0,
            current: counters.bytes,
            added: more_bytes as nat,
        }
    } else {
        QuotaVerdict::Allowed
    }
}

/// The message of the refusal for too many objects.
pub open spec fn objects_message(max: u64) -> Seq<char> {
    "Object quota is reached, maximum objects for this bucket: "@ + decimal(max as nat)
}

/// The message of the refusal for too many bytes.
pub open spec fn bytes_message(max: u64, current: i64, added: nat) -> Seq<char> {
    "Bucket size quota is reached, maximum total size of objects for this bucket: "@ + decimal(
        max as nat,
    ) + ". The bucket is already "@ + signed_decimal(current as int)
        + " bytes, and this object would add "@ + decimal(added) + " bytes."@
}

/// The error, if any, that the quotas answer a write with.
pub open spec fn quota_result(
    quotas: BucketQuotas,
    counters: BucketCounters,
    size: u64,
    prev: Option<Seq<ObjectVersionView>>,
) -> Result<(), ErrorView> {
    match quota_verdict(quotas, counters, size, prev) {
        QuotaVerdict::Allowed => Ok(()),
        QuotaVerdict::TooManyObjects(max) => Err(ErrorView::Forbidden(objects_message(max))),
        QuotaVerdict::TooManyBytes { max, current, added } => Err(
            ErrorView::Forbidden(bytes_message(max, current, added)),
        ),
    }
}

/// The versions that an object, where there is one, holds.
pub open spec fn versions_of(prev_object: Option<&Object>) -> Option<Seq<ObjectVersionView>> {
    match prev_object {
        Some(o) => Some(o@.versions),
        None => None,
    }
}

/// A write that adds neither an object nor a byte is allowed, whatever the
/// quotas and the counters are.
pub proof fn lemma_shrinking_write_allowed(
    quotas: BucketQuotas,
    counters: BucketCounters,
    size: u64,
    prev: Seq<ObjectVersionView>,
)
    requires
        counted_objects(prev) == 1,
        size <= counted_bytes(prev),
    ensures
        quota_verdict(quotas, counters, size, Some(prev)) is Allowed,
{
}

/// Checks that writing an object of `size` bytes, in place of `prev_object`
/// where the key held one, keeps the bucket within its quotas.
pub fn check_quotas(
    quotas: &BucketQuotas,
    counters: &BucketCounters,
    size: u64,
    prev_object: Option<&Object>,
) -> (r: Result<(), Error>)
    ensures
        match r {
            Ok(()) => quota_result(*quotas, *counters, size, versions_of(prev_object)) is Ok,
            Err(e) => quota_result(*quotas, *counters, size, versions_of(prev_object)) == Err::<
                (),
                ErrorView,
            >(e@),
        },
{
    if quotas.max_objects.is_none() && quotas.max_size.is_none() {
        return Ok(());
    }
    let (prev_objects, prev_bytes): (u64, u128) = match prev_object {
        Some(o) => o.counts(),
        None => (0, 0),
    };
    if let Some(mo) = quotas.max_objects {
        if prev_objects == 0 && counters.objects as i128 + 1 > mo as i128 {
            let mut m = String::from_str(
                "Object quota is reached, maximum objects for this bucket: ",
            );
            let n = u64_to_string(mo);
            m.append(n.as_str());
            return Err(Error::Forbidden(m));
        }
    }
    if let Some(ms) = quotas.max_size {
        if prev_bytes < size as u128 {
            let added: u64 = size - prev_bytes as u64;
            if counters.bytes as i128 + added as i128 > ms as i128 {
                let mut m = String::from_str(
                    "Bucket size quota is reached, maximum total size of objects for this bucket: ",
                );
                let a = u64_to_string(ms);
                m.append(a.as_str());
                m.append(". The bucket is already ");
                let b = i64_to_string(counters.bytes);
                m.append(b.as_str());
                m.append(" bytes, and this object would add ");
                let c = u64_to_string(added);
                m.append(c.as_str());
                m.append(" bytes.");
                return Err(Error::Forbidden(m));
            }
        }
    }
    Ok(())
}

} // verus!
