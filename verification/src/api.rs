//! The indexes the database is kept with.
use vstd::prelude::*;

use crate::text::owned;

verus! {

/// The database collections of the catalogue.
#[derive(Clone, Copy, PartialEq, Eq, Structural, Debug)]
pub enum StoredCollection {
    /// Catalogue objects (`odc`).
    Objects,
    /// User collections (`odc_collections`).
    Collections,
    /// Users (`odc_users`).
    Users,
}

/// One index: its collection, its keys with their directions (1 ascending,
/// -1 descending), and whether its keys are unique.
pub struct IndexPlan {
    pub collection: StoredCollection,
    pub keys: Vec<(String, i32)>,
    pub unique: bool,
}

pub open spec fn plan_view(p: IndexPlan) -> (StoredCollection, Seq<(Seq<char>, i32)>, bool) {
    (p.collection, p.keys@.map_values(|k: (String, i32)| (k.0@, k.1)), p.unique)
}

/// The indexes: by uuid (not unique, since an object has a record per
/// version), by timestamp and by each metadata field with timestamp, and by
/// default name for objects; by unique uuid and by author with timestamp for
/// collections; by unique uuid for users.
pub open spec fn index_plan_spec() -> Seq<(StoredCollection, Seq<(Seq<char>, i32)>, bool)> {
    seq![
        (StoredCollection::Objects, seq![("uuid"@, 1i32)], false),
        (StoredCollection::Objects, seq![("timestamp"@, -1i32), ("uuid"@, 1i32)], false),
        (StoredCollection::Objects, seq![("type"@, 1i32), ("timestamp"@, -1i32), ("uuid"@, 1i32)], false),
        (StoredCollection::Objects, seq![("clothing_type"@, 1i32), ("timestamp"@, -1i32), ("uuid"@, 1i32)], false),
        (StoredCollection::Objects, seq![("furniture_type"@, 1i32), ("timestamp"@, -1i32), ("uuid"@, 1i32)], false),
        (StoredCollection::Objects, seq![("scene_type"@, 1i32), ("timestamp"@, -1i32), ("uuid"@, 1i32)], false),
        (StoredCollection::Objects, seq![("genders"@, 1i32), ("timestamp"@, -1i32), ("uuid"@, 1i32)], false),
        (StoredCollection::Objects, seq![("name.default"@, 1i32), ("uuid"@, 1i32)], false),
        (StoredCollection::Collections, seq![("uuid"@, 1i32)], true),
        (StoredCollection::Collections, seq![("user_uuid"@, 1i32), ("timestamp"@, -1i32)], false),
        (StoredCollection::Users, seq![("uuid"@, 1i32)], true),
    ]
}

fn plan1(collection: StoredCollection, f1: &str, d1: i32, unique: bool) -> (res: IndexPlan)
    ensures
        plan_view(res) == (collection, seq![(f1@, d1)], unique),
{
    let mut keys: Vec<(String, i32)> = Vec::new();
    keys.push((owned(f1), d1));
    let res = IndexPlan { collection, keys, unique };
    assert(plan_view(res).1 =~= seq![(f1@, d1)]);
    res
}

fn plan2(collection: StoredCollection, f1: &str, d1: i32, f2: &str, d2: i32, unique: bool) -> (res:
    IndexPlan)
    ensures
        plan_view(res) == (collection, seq![(f1@, d1), (f2@, d2)], unique),
{
    let mut keys: Vec<(String, i32)> = Vec::new();
    keys.push((owned(f1), d1));
    keys.push((owned(f2), d2));
    let res = IndexPlan { collection, keys, unique };
    assert(plan_view(res).1 =~= seq![(f1@, d1), (f2@, d2)]);
    res
}

fn plan3(
    collection: StoredCollection,
    f1: &str,
    d1: i32,
    f2: &str,
    d2: i32,
    f3: &str,
    d3: i32,
    unique: bool,
) -> (res: IndexPlan)
    ensures
        plan_view(res) == (collection, seq![(f1@, d1), (f2@, d2), (f3@, d3)], unique),
{
    let mut keys: Vec<(String, i32)> = Vec::new();
    keys.push((owned(f1), d1));
    keys.push((owned(f2), d2));
    keys.push((owned(f3), d3));
    let res = IndexPlan { collection, keys, unique };
    assert(plan_view(res).1 =~= seq![(f1@, d1), (f2@, d2), (f3@, d3)]);
    res
}

/// The indexes the database is kept with (see `index_plan_spec`).
pub fn index_plan() -> (res: Vec<IndexPlan>)
    ensures
        res@.map_values(|p: IndexPlan| plan_view(p)) == index_plan_spec(),
{
    let o = StoredCollection::Objects;
    let mut res: Vec<IndexPlan> = Vec::new();
    res.push(plan1(o, "uuid", 1, false));
    res.push(plan2(o, "timestamp", -1, "uuid", 1, false));
    res.push(plan3(o, "type", 1, "timestamp", -1, "uuid", 1, false));
    res.push(plan3(o, "clothing_type", 1, "timestamp", -1, "uuid", 1, false));
    res.push(plan3(o, "furniture_type", 1, "timestamp", -1, "uuid", 1, false));
    res.push(plan3(o, "scene_type", 1, "timestamp", -1, "uuid", 1, false));
    res.push(plan3(o, "genders", 1, "timestamp", -1, "uuid", 1, false));
    res.push(plan2(o, "name.default", 1, "uuid", 1, false));
    res.push(plan1(StoredCollection::Collections, "uuid", 1, true));
    res.push(plan2(StoredCollection::Collections, "user_uuid", 1, "timestamp", -1, false));
    res.push(plan1(StoredCollection::Users, "uuid", 1, true));
    assert(res@.map_values(|p: IndexPlan| plan_view(p)) =~= index_plan_spec());
    res
}

} // verus!
