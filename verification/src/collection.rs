//! User collections of catalogue objects, and the rules for creating them.
use vstd::prelude::*;

use crate::text::{concat3, decimal, decimal_string};

verus! {

/// The fewest objects a collection may hold.
pub const COLLECTION_MIN_SIZE: usize = 2;

/// The most objects a collection may hold.
pub const COLLECTION_MAX_SIZE: usize = 50;

/// A point in time in UTC: seconds since the Unix epoch and nanoseconds.
#[derive(Clone, Copy, PartialEq, Eq, Structural, Debug)]
pub struct Timestamp {
    pub secs: i64,
    pub nanos: u32,
}

pub struct Collection {
    pub uuid: String,
    pub name: String,
    pub description: Option<String>,
    pub image_url: Option<String>,
    pub author: String,
    pub objects: Vec<String>,
    pub created_at: Timestamp,
    pub updated_at: Timestamp,
}

/// The RFC 3339 text that `chrono::DateTime::<Utc>::from_timestamp(secs,
/// nanos)` followed by `to_rfc3339` gives: `None` where the time is out of
/// chrono's range.
pub uninterp spec fn rfc3339(secs: i64, nanos: u32) -> Option<Seq<char>>;

/// `chrono::DateTime::from_timestamp` followed by `DateTime::to_rfc3339`.
/// Claims: the outcome is the named one.
#[verifier::external_body]
fn format_rfc3339(secs: i64, nanos: u32) -> (res: Option<String>)
    ensures
        match res {
            Some(s) => rfc3339(secs, nanos) == Some(s@),
            None => rfc3339(secs, nanos) is None,
        },
{
    match chrono::DateTime::from_timestamp(secs, nanos) {
        Some(d) => Some(d.to_rfc3339()),
        None => None,
    }
}

fn rfc3339_text(t: Timestamp) -> (res: Option<String>)
    ensures
        match res {
            Some(s) => rfc3339(t.secs, t.nanos) == Some(s@),
            None => rfc3339(t.secs, t.nanos) is None,
        },
{
    format_rfc3339(t.secs, t.nanos)
}

impl Collection {
    /// The creation time in RFC 3339.
    pub fn created_at(&self) -> (res: Option<String>)
        ensures
            match res {
                Some(s) => rfc3339(self.created_at.secs, self.created_at.nanos) == Some(s@),
                None => rfc3339(self.created_at.secs, self.created_at.nanos) is None,
            },
    {
        rfc3339_text(self.created_at)
    }

    /// The time of the last change in RFC 3339.
    pub fn updated_at(&self) -> (res: Option<String>)
        ensures
            match res {
                Some(s) => rfc3339(self.updated_at.secs, self.updated_at.nanos) == Some(s@),
                None => rfc3339(self.updated_at.secs, self.updated_at.nanos) is None,
            },
    {
        rfc3339_text(self.updated_at)
    }
}

/// The message when a collection is too small or too large.
pub open spec fn size_message() -> Seq<char> {
    "Collection must contain between "@ + decimal(COLLECTION_MIN_SIZE as nat) + " and "@ + decimal(
        COLLECTION_MAX_SIZE as nat,
    ) + " objects"@
}

/// Accepts a collection of `len` objects when `len` is within
/// `COLLECTION_MIN_SIZE ..= COLLECTION_MAX_SIZE`.
pub fn check_collection_size(len: usize) -> (res: Result<(), String>)
    ensures
        match res {
            Ok(()) => COLLECTION_MIN_SIZE <= len <= COLLECTION_MAX_SIZE,
            Err(msg) => !(COLLECTION_MIN_SIZE <= len <= COLLECTION_MAX_SIZE) && msg@
                == size_message(),
        },
{
    if COLLECTION_MIN_SIZE <= len && len <= COLLECTION_MAX_SIZE {
        Ok(())
    } else {
        let lo = decimal_string(COLLECTION_MIN_SIZE as u64);
        let hi = decimal_string(COLLECTION_MAX_SIZE as u64);
        let mut msg = concat3("Collection must contain between ", lo.as_str(), " and ");
        msg.append(hi.as_str());
        msg.append(" objects");
        Err(msg)
    }
}

/// The texts of a list of strings.
pub open spec fn texts(v: Seq<String>) -> Seq<Seq<char>> {
    v.map_values(|s: String| s@)
}

/// The message when a requested object does not exist.
pub open spec fn missing_object_message(uuid: Seq<char>) -> Seq<char> {
    "Object "@ + uuid + " does not exist!"@
}

/// Accepts the requested objects when each was found; otherwise reports the
/// first one (in the order requested) that was not.
pub fn check_objects_found(requested: &Vec<String>, found: &Vec<String>) -> (res: Result<(), String>)
    ensures
        match res {
            Ok(()) => forall|i: int|
                0 <= i < requested@.len() ==> texts(found@).contains(#[trigger] requested@[i]@),
            Err(msg) => exists|i: int|
                0 <= i < requested@.len() && !texts(found@).contains(#[trigger] requested@[i]@)
                    && msg@ == missing_object_message(requested@[i]@) && forall|j: int|
                    0 <= j < i ==> texts(found@).contains(#[trigger] requested@[j]@),
        },
{
    let n = requested.len();
    for i in 0..n
        invariant
            n == requested@.len(),
            forall|j: int| 0 <= j < i ==> texts(found@).contains(#[trigger] requested@[j]@),
    {
        let mut present = false;
        let m = found.len();
        for k in 0..m
            invariant
                m == found@.len(),
                n == requested@.len(),
                i < n,
                present ==> texts(found@).contains(requested@[i as int]@),
                !present ==> forall|q: int| 0 <= q < k ==> found@[q]@ != requested@[i as int]@,
        {
            if found[k] == requested[i] {
                assert(texts(found@)[k as int] == requested@[i as int]@);
                present = true;
            }
        }
        if !present {
            assert(!texts(found@).contains(requested@[i as int]@)) by {
                assert forall|q: int| 0 <= q < texts(found@).len() implies texts(found@)[q]
                    != requested@[i as int]@ by {
                    assert(texts(found@)[q] == found@[q]@);
                }
            }
            let msg = concat3("Object ", requested[i].as_str(), " does not exist!");
            return Err(msg);
        }
    }
    Ok(())
}

/// A new collection by `author` holding `objects`, created and last changed at `now`.
pub fn new_collection(
    uuid: String,
    name: String,
    description: Option<String>,
    image_url: Option<String>,
    author: String,
    objects: Vec<String>,
    now: Timestamp,
) -> (res: Collection)
    ensures
        res.uuid == uuid,
        res.name == name,
        res.description == description,
        res.image_url == image_url,
        res.author == author,
        res.objects == objects,
        res.created_at == now,
        res.updated_at == now,
{
    Collection {
        uuid,
        name,
        description,
        image_url,
        author,
        objects,
        created_at: now,
        updated_at: now,
    }
}

/// The message when a collection to delete does not exist.
pub open spec fn collection_missing_message(uuid: Seq<char>) -> Seq<char> {
    "Collection "@ + uuid + " does not exist!"@
}

/// The message when a collection to delete does not exist.
pub fn collection_missing_error(uuid: &str) -> (res: String)
    ensures
        res@ == collection_missing_message(uuid@),
{
    concat3("Collection ", uuid, " does not exist!")
}

} // verus!
