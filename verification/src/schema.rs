//! The catalogue query: search input, the database match and sort it turns
//! into, keyset cursors, facet counts, and the assembled page of results.
use vstd::prelude::*;

pub use crate::codec::{decode_cursor, encode_cursor};
use crate::codec::{cursor_of_text, cursor_parts, cursor_payload, has_no_nul};
use crate::object::{
    ClothingType, Coded, FurnitureType, Gender, Locale, Object, ObjectType,
    SceneType,
};
use crate::text::{owned, push_char, trim, trimmed};

verus! {

/// The largest page the catalogue hands out.
pub const MAX_OBJECT_PAGE_SIZE: u32 = 100;

/// The page size used when none is asked for.
pub const DEFAULT_OBJECT_PAGE_SIZE: u32 = 24;

#[derive(Clone, Copy, PartialEq, Eq, Structural, Debug)]
pub enum ObjectSort {
    Relevance,
    NameAsc,
    NameDesc,
    Newest,
    Oldest,
}

impl Default for ObjectSort {
    fn default() -> (res: Self)
        ensures
            res == ObjectSort::Relevance,
    {
        ObjectSort::Relevance
    }
}

/// Filters accepted by the catalogue connection.
#[derive(Clone)]
pub struct ObjectSearchInput {
    pub query: Option<String>,
    pub types: Option<Vec<ObjectType>>,
    pub clothing_types: Option<Vec<ClothingType>>,
    pub furniture_types: Option<Vec<FurnitureType>>,
    pub scene_types: Option<Vec<SceneType>>,
    pub genders: Option<Vec<Gender>>,
    pub locale: Option<Locale>,
    pub sort: Option<ObjectSort>,
}

impl Default for ObjectSearchInput {
    fn default() -> (res: Self)
        ensures
            res.query is None,
            res.types is None,
            res.clothing_types is None,
            res.furniture_types is None,
            res.scene_types is None,
            res.genders is None,
            res.locale is None,
            res.sort is None,
    {
        ObjectSearchInput {
            query: None,
            types: None,
            clothing_types: None,
            furniture_types: None,
            scene_types: None,
            genders: None,
            locale: None,
            sort: None,
        }
    }
}

pub struct PageInfo {
    pub has_next_page: bool,
    pub has_previous_page: bool,
    pub start_cursor: Option<String>,
    pub end_cursor: Option<String>,
}

pub struct ObjectEdge {
    pub cursor: String,
    pub node: Object,
}

pub struct TypeFacet {
    pub object_type: ObjectType,
    pub count: u64,
}

pub struct ClothingTypeFacet {
    pub clothing_type: ClothingType,
    pub count: u64,
}

pub struct FurnitureTypeFacet {
    pub furniture_type: FurnitureType,
    pub count: u64,
}

pub struct SceneTypeFacet {
    pub scene_type: SceneType,
    pub count: u64,
}

pub struct GenderFacet {
    pub gender: Gender,
    pub count: u64,
}

pub struct ObjectFacets {
    pub types: Vec<TypeFacet>,
    pub clothing_types: Vec<ClothingTypeFacet>,
    pub furniture_types: Vec<FurnitureTypeFacet>,
    pub scene_types: Vec<SceneTypeFacet>,
    pub genders: Vec<GenderFacet>,
}

pub struct ObjectConnection {
    pub edges: Vec<ObjectEdge>,
    pub page_info: PageInfo,
    pub facets: Option<ObjectFacets>,
}

/// The read operations of the catalogue's GraphQL schema: browsing and
/// searching objects, single objects, random samples and collections.
pub struct Query;

/// The write operations of the catalogue's GraphQL schema: users and
/// collections.
pub struct Mutation;

// ---------------------------------------------------------------------------
// Regex escaping
// ---------------------------------------------------------------------------
/// The characters that have a meaning in a regular expression.
pub open spec fn is_regex_special(c: char) -> bool {
    c == '\\' || c == '^' || c == '$' || c == '.' || c == '|' || c == '?' || c == '*' || c == '+'
        || c == '(' || c == ')' || c == '[' || c == ']' || c == '{' || c == '}'
}

/// One character of text as a regular expression that matches it literally.
pub open spec fn escape_char(c: char) -> Seq<char> {
    if is_regex_special(c) {
        seq!['\\', c]
    } else {
        seq![c]
    }
}

/// Text with a backslash put before each special character.
pub open spec fn escaped(s: Seq<char>) -> Seq<char>
    decreases s.len(),
{
    if s.len() == 0 {
        Seq::empty()
    } else {
        escaped(s.drop_last()) + escape_char(s.last())
    }
}

/// Reads an escaped text back: a backslash stands for the character after it.
pub open spec fn unescaped(t: Seq<char>) -> Seq<char>
    decreases t.len(),
{
    if t.len() == 0 {
        t
    } else if t[0] == '\\' && t.len() >= 2 {
        seq![t[1]] + unescaped(t.skip(2))
    } else {
        seq![t[0]] + unescaped(t.drop_first())
    }
}

proof fn lemma_escaped_concat(a: Seq<char>, b: Seq<char>)
    ensures
        escaped(a + b) == escaped(a) + escaped(b),
    decreases b.len(),
{
    if b.len() == 0 {
        assert(a + b == a);
        assert(escaped(a) + escaped(b) == escaped(a));
    } else {
        lemma_escaped_concat(a, b.drop_last());
        assert((a + b).drop_last() == a + b.drop_last());
        assert((a + b).last() == b.last());
    }
}

/// Escaping loses nothing: reading the escaped text back gives the text.
pub proof fn lemma_escape_roundtrip(s: Seq<char>)
    ensures
        unescaped(escaped(s)) == s,
    decreases s.len(),
{
    if s.len() > 0 {
        let c = s[0];
        let rest = s.drop_first();
        assert(s == seq![c] + rest);
        lemma_escaped_concat(seq![c], rest);
        assert(seq![c].drop_last() == Seq::<char>::empty());
        assert(escaped(Seq::<char>::empty()) == Seq::<char>::empty());
        assert(seq![c].last() == c);
        assert(Seq::<char>::empty() + escape_char(c) == escape_char(c));
        assert(escaped(seq![c]) == escape_char(c));
        lemma_escape_roundtrip(rest);
        let t = escape_char(c) + escaped(rest);
        if is_regex_special(c) {
            assert(t[0] == '\\' && t[1] == c);
            assert(t.skip(2) == escaped(rest));
        } else {
            assert(t[0] == c);
            assert(t.drop_first() == escaped(rest));
        }
        assert(unescaped(t) == seq![c] + rest);
    }
}

/// Escapes the characters of `query` that have a meaning in a regular
/// expression, so that the result matches the query text literally.
pub fn escape_mongo_regex(query: &str) -> (res: String)
    ensures
        res@ == escaped(query@),
{
    let cs = crate::text::chars_of(query);
    let mut res = String::new();
    let n = cs.len();
    for i in 0..n
        invariant
            n == cs@.len(),
            cs@ == query@,
            res@ == escaped(cs@.take(i as int)),
    {
        let c = cs[i];
        assert(cs@.take(i + 1).drop_last() == cs@.take(i as int));
        if c == '\\' || c == '^' || c == '$' || c == '.' || c == '|' || c == '?' || c == '*' || c
            == '+' || c == '(' || c == ')' || c == '[' || c == ']' || c == '{' || c == '}' {
            push_char(&mut res, '\\');
        }
        push_char(&mut res, c);
        assert(res@ =~= escaped(cs@.take(i + 1)));
    }
    assert(cs@.take(n as int) == cs@);
    res
}

// ---------------------------------------------------------------------------
// The match stage
// ---------------------------------------------------------------------------
/// One condition of the match stage.
pub enum MatchCondition {
    /// The object has this uuid, or its default name matches this pattern
    /// case-insensitively.
    UuidOrName { uuid: String, name_pattern: String },
    /// The field holds one of these codes.
    In(Vec<u8>),
}

/// A condition, with its texts and codes as plain values.
pub enum MatchConditionView {
    UuidOrName { uuid: Seq<char>, name_pattern: Seq<char> },
    In(Seq<u8>),
}

impl View for MatchCondition {
    type V = MatchConditionView;

    open spec fn view(&self) -> MatchConditionView {
        match self {
            MatchCondition::UuidOrName { uuid, name_pattern } => MatchConditionView::UuidOrName {
                uuid: uuid@,
                name_pattern: name_pattern@,
            },
            MatchCondition::In(codes) => MatchConditionView::In(codes@),
        }
    }
}

/// The match stage of the catalogue query: field names with their conditions, in order.
pub struct ObjectMatch {
    pub entries: Vec<(String, MatchCondition)>,
}

impl View for ObjectMatch {
    type V = Seq<(Seq<char>, MatchConditionView)>;

    open spec fn view(&self) -> Seq<(Seq<char>, MatchConditionView)> {
        self.entries@.map_values(|e: (String, MatchCondition)| (e.0@, e.1@))
    }
}

impl ObjectMatch {
    /// Whether the stage has no condition.
    pub fn is_empty(&self) -> (res: bool)
        ensures
            res == (self@.len() == 0),
    {
        self.entries.len() == 0
    }

    /// Whether the stage has a condition on `key`.
    pub fn contains_key(&self, key: &str) -> (res: bool)
        ensures
            res == exists|i: int| 0 <= i < self@.len() && (#[trigger] self@[i]).0 == key@,
    {
        let n = self.entries.len();
        for i in 0..n
            invariant
                n == self.entries@.len(),
                forall|j: int| 0 <= j < i ==> (#[trigger] self@[j]).0 != key@,
        {
            if crate::text::str_eq(self.entries[i].0.as_str(), key) {
                assert(self@[i as int].0 == key@);
                return true;
            }
        }
        false
    }
}

/// The codes of a list of coded values.
pub open spec fn codes_of<T: Coded>(v: Seq<T>) -> Seq<u8> {
    v.map_values(|t: T| t.code_of())
}

/// The codes of a list of coded values.
pub fn codes<T: Coded>(v: &Vec<T>) -> (res: Vec<u8>)
    ensures
        res@ == codes_of(v@),
{
    let mut res: Vec<u8> = Vec::new();
    let n = v.len();
    for i in 0..n
        invariant
            n == v@.len(),
            res@ == codes_of(v@.take(i as int)),
    {
        res.push(v[i].code());
        assert(res@ =~= codes_of(v@.take(i + 1)));
    }
    assert(v@.take(n as int) == v@);
    res
}

/// The codes of a filter list that is present and not empty.
pub open spec fn filter_codes<T: Coded>(v: Option<Vec<T>>) -> Option<Seq<u8>> {
    match v {
        Some(l) => if l@.len() > 0 {
            Some(codes_of(l@))
        } else {
            None
        },
        None => None,
    }
}

pub open spec fn in_entry(field: Seq<char>, codes: Option<Seq<u8>>) -> Seq<
    (Seq<char>, MatchConditionView),
> {
    match codes {
        Some(c) => seq![(field, MatchConditionView::In(c))],
        None => Seq::empty(),
    }
}

/// The query text after trimming, when present and not empty.
pub open spec fn query_text(q: Option<String>) -> Option<Seq<char>> {
    match q {
        Some(s) => if trimmed(s@).len() > 0 {
            Some(trimmed(s@))
        } else {
            None
        },
        None => None,
    }
}

/// The match stage for a search input: the query (by uuid, or by default
/// name as a literal, case-insensitive pattern) and then each filter list
/// that is not empty, in the order type, clothing type, furniture type,
/// scene type, genders.
pub open spec fn object_match_spec(input: ObjectSearchInput) -> Seq<(Seq<char>, MatchConditionView)> {
    let q = match query_text(input.query) {
        Some(t) => seq![
            ("$or"@, MatchConditionView::UuidOrName { uuid: t, name_pattern: escaped(t) }),
        ],
        None => Seq::empty(),
    };
    q + in_entry("metadata.type"@, filter_codes(input.types)) + in_entry(
        "metadata.clothing_type"@,
        filter_codes(input.clothing_types),
    ) + in_entry("metadata.furniture_type"@, filter_codes(input.furniture_types)) + in_entry(
        "metadata.scene_type"@,
        filter_codes(input.scene_types),
    ) + in_entry("metadata.genders"@, filter_codes(input.genders))
}

fn push_in<T: Coded>(m: &mut ObjectMatch, field: &str, v: &Option<Vec<T>>)
    ensures
        final(m)@ == old(m)@ + in_entry(field@, filter_codes(*v)),
{
    match v {
        Some(l) => {
            if l.len() > 0 {
                let c = codes(l);
                let ghost before = m@;
                m.entries.push((owned(field), MatchCondition::In(c)));
                assert(m@ =~= before + in_entry(field@, filter_codes(*v)));
            } else {
                assert(old(m)@ + in_entry(field@, filter_codes(*v)) =~= old(m)@);
            }
        },
        None => {
            assert(old(m)@ + in_entry(field@, filter_codes(*v)) =~= old(m)@);
        },
    }
}

/// Builds the match stage of the catalogue query from the search input.
pub fn build_object_match(input: &ObjectSearchInput) -> (res: ObjectMatch)
    ensures
        res@ == object_match_spec(*input),
{
    let mut m = ObjectMatch { entries: Vec::new() };
    assert(m@ =~= Seq::<(Seq<char>, MatchConditionView)>::empty());
    match &input.query {
        Some(q) => {
            let t = trim(q.as_str());
            if !t.as_str().is_empty() {
                let pattern = escape_mongo_regex(t.as_str());
                m.entries.push(
                    (owned("$or"), MatchCondition::UuidOrName { uuid: t, name_pattern: pattern }),
                );
                assert(m@ =~= seq![
                    ("$or"@, MatchConditionView::UuidOrName { uuid: trimmed(q@), name_pattern: escaped(trimmed(q@)) }),
                ]);
            } else {
                assert(trimmed(q@).len() == 0);
            }
        },
        None => {},
    }
    push_in(&mut m, "metadata.type", &input.types);
    push_in(&mut m, "metadata.clothing_type", &input.clothing_types);
    push_in(&mut m, "metadata.furniture_type", &input.furniture_types);
    push_in(&mut m, "metadata.scene_type", &input.scene_types);
    push_in(&mut m, "metadata.genders", &input.genders);
    m
}

// ---------------------------------------------------------------------------
// Sort order and keyset cursor
// ---------------------------------------------------------------------------
/// The sort of the catalogue query: the key field and the direction; ties
/// are broken by uuid in the same direction.
pub struct SortPlan {
    pub key_field: String,
    pub ascending: bool,
}

/// Where a page starts, relative to the cursor it was asked after.
pub enum CursorFilter {
    /// From the first object.
    Start,
    /// After the given uuid, in ascending uuid order.
    AfterUuid(String),
    /// After the given key value (and, for an equal key, after the given uuid)
    /// in the sort direction: greater values when `greater`, smaller otherwise.
    AfterKey { field: String, greater: bool, sort_val: String, uuid: String },
}

pub enum CursorFilterView {
    Start,
    AfterUuid(Seq<char>),
    AfterKey { field: Seq<char>, greater: bool, sort_val: Seq<char>, uuid: Seq<char> },
}

impl View for CursorFilter {
    type V = CursorFilterView;

    open spec fn view(&self) -> CursorFilterView {
        match self {
            CursorFilter::Start => CursorFilterView::Start,
            CursorFilter::AfterUuid(u) => CursorFilterView::AfterUuid(u@),
            CursorFilter::AfterKey { field, greater, sort_val, uuid } => CursorFilterView::AfterKey {
                field: field@,
                greater: *greater,
                sort_val: sort_val@,
                uuid: uuid@,
            },
        }
    }
}

/// The key field a sort orders by.
pub open spec fn sort_field(sort: ObjectSort) -> Seq<char> {
    match sort {
        ObjectSort::Newest | ObjectSort::Oldest => "timestamp"@,
        _ => "names.default"@,
    }
}

/// Whether a sort is ascending.
pub open spec fn sort_ascending(sort: ObjectSort) -> bool {
    match sort {
        ObjectSort::NameAsc | ObjectSort::Relevance | ObjectSort::Oldest => true,
        _ => false,
    }
}

/// The sort plans order pages as the sorts are named: the time sorts by the
/// `timestamp` field and every other sort by the default name
/// (`names.default`); `Oldest` ascends and `Newest` descends, `NameAsc` (and
/// `Relevance`) ascend and `NameDesc` descends. So the two sorts of each pair
/// order the same field in opposite directions.
pub proof fn lemma_sort_plans(sort: ObjectSort)
    ensures
        sort_field(sort) == "timestamp"@ <==> (sort == ObjectSort::Oldest || sort
            == ObjectSort::Newest),
        sort_field(sort) == "names.default"@ <==> !(sort == ObjectSort::Oldest || sort
            == ObjectSort::Newest),
        sort_ascending(ObjectSort::Oldest),
        !sort_ascending(ObjectSort::Newest),
        sort_ascending(ObjectSort::NameAsc),
        !sort_ascending(ObjectSort::NameDesc),
        sort_ascending(ObjectSort::Relevance),
        sort_field(ObjectSort::Oldest) == sort_field(ObjectSort::Newest),
        sort_field(ObjectSort::NameAsc) == sort_field(ObjectSort::NameDesc),
        sort_ascending(ObjectSort::Oldest) != sort_ascending(ObjectSort::Newest),
        sort_ascending(ObjectSort::NameAsc) != sort_ascending(ObjectSort::NameDesc),
{
    reveal_strlit("timestamp");
    reveal_strlit("names.default");
    assert("timestamp"@.len() != "names.default"@.len());
}

/// The value an object holds in a sort key field, as text: its timestamp
/// for `timestamp`, its default name for `names.default` (empty when absent).
pub open spec fn key_field_value(obj: Object, field: Seq<char>) -> Seq<char> {
    if field == "timestamp"@ {
        match obj.timestamp {
            Some(t) => t@,
            None => Seq::empty(),
        }
    } else if field == "names.default"@ {
        match obj.names {
            Some(n) => match n.default {
                Some(d) => d@,
                None => Seq::empty(),
            },
            None => Seq::empty(),
        }
    } else {
        Seq::empty()
    }
}

/// An edge's cursor records the value the page is sorted by: the sort value
/// of an object is what it holds in the key field of the sort plan (its
/// timestamp for the time sorts, its default name otherwise).
pub proof fn lemma_sort_value_is_key_field(obj: Object, sort: ObjectSort)
    ensures
        sort_value_spec(obj, sort) == key_field_value(obj, sort_field(sort)),
{
    reveal_strlit("timestamp");
    reveal_strlit("names.default");
    assert("timestamp"@.len() != "names.default"@.len());
}

/// Where the page after `after` starts: from the first object unless `after`
/// decodes; after a bare uuid when its sort value is empty; else after its
/// key value and uuid in the sort direction.
pub open spec fn cursor_filter_spec(sort: ObjectSort, after: Option<Seq<char>>) -> CursorFilterView {
    let parts = match after {
        Some(a) => cursor_parts(a),
        None => None,
    };
    match parts {
        None => CursorFilterView::Start,
        Some((sort_val, uuid)) => if sort_val.len() == 0 {
            CursorFilterView::AfterUuid(uuid)
        } else {
            CursorFilterView::AfterKey {
                field: sort_field(sort),
                greater: sort_ascending(sort),
                sort_val,
                uuid,
            }
        },
    }
}

fn sort_field_name(sort: ObjectSort) -> (res: String)
    ensures
        res@ == sort_field(sort),
{
    match sort {
        ObjectSort::Newest | ObjectSort::Oldest => owned("timestamp"),
        _ => owned("names.default"),
    }
}

/// The sort plan and the cursor filter for a page of the catalogue query.
pub fn build_sort_and_cursor(sort: ObjectSort, after: Option<&str>) -> (res: (SortPlan, CursorFilter))
    ensures
        res.0.key_field@ == sort_field(sort),
        res.0.ascending == sort_ascending(sort),
        res.1@ == cursor_filter_spec(
            sort,
            match after {
                Some(a) => Some(a@),
                None => None,
            },
        ),
{
    let ascending = match sort {
        ObjectSort::NameAsc | ObjectSort::Relevance | ObjectSort::Oldest => true,
        _ => false,
    };
    let plan = SortPlan { key_field: sort_field_name(sort), ascending };
    let decoded = match after {
        Some(a) => decode_cursor(a),
        None => None,
    };
    let filter = match decoded {
        None => CursorFilter::Start,
        Some((sort_val, uuid)) => {
            if sort_val.as_str().is_empty() {
                CursorFilter::AfterUuid(uuid)
            } else {
                CursorFilter::AfterKey {
                    field: sort_field_name(sort),
                    greater: ascending,
                    sort_val,
                    uuid,
                }
            }
        },
    };
    (plan, filter)
}

/// The value an object is ordered by: its default name for name and relevance
/// sorts, its timestamp for time sorts, empty when absent.
pub open spec fn sort_value_spec(obj: Object, sort: ObjectSort) -> Seq<char> {
    match sort {
        ObjectSort::Newest | ObjectSort::Oldest => match obj.timestamp {
            Some(t) => t@,
            None => Seq::empty(),
        },
        _ => match obj.names {
            Some(n) => match n.default {
                Some(d) => d@,
                None => Seq::empty(),
            },
            None => Seq::empty(),
        },
    }
}

/// The value an object is ordered by under `sort`.
pub fn get_sort_value(obj: &Object, sort: ObjectSort) -> (res: String)
    ensures
        res@ == sort_value_spec(*obj, sort),
{
    match sort {
        ObjectSort::Newest | ObjectSort::Oldest => match &obj.timestamp {
            Some(t) => t.clone(),
            None => String::new(),
        },
        _ => match &obj.names {
            Some(n) => match &n.default {
                Some(d) => d.clone(),
                None => String::new(),
            },
            None => String::new(),
        },
    }
}

// ---------------------------------------------------------------------------
// Facet counts
// ---------------------------------------------------------------------------
/// A number as the database stores it.
#[derive(Clone, Copy, PartialEq, Eq, Structural, Debug)]
pub enum FacetNumber {
    Int32(i32),
    Int64(i64),
}

/// One group of a facet count: its `_id` and `count`, each present when it
/// is a 32- or 64-bit integer.
#[derive(Clone, Copy, PartialEq, Eq, Structural, Debug)]
pub struct FacetItem {
    pub id: Option<FacetNumber>,
    pub count: Option<FacetNumber>,
}

/// The groups of each facet count as the database returns them: `None` for a
/// count that is missing or not an array, and `None` for an array element
/// that is not a document.
pub struct FacetCounts {
    pub type_counts: Option<Vec<Option<FacetItem>>>,
    pub clothing_counts: Option<Vec<Option<FacetItem>>>,
    pub furniture_counts: Option<Vec<Option<FacetItem>>>,
    pub scene_counts: Option<Vec<Option<FacetItem>>>,
    pub gender_counts: Option<Vec<Option<FacetItem>>>,
}

/// A group id read as a 32-bit integer (a 64-bit one is truncated).
pub open spec fn facet_id(n: FacetNumber) -> i32 {
    match n {
        FacetNumber::Int32(v) => v,
        FacetNumber::Int64(v) => v as i32,
    }
}

/// A group count read as an unsigned 64-bit integer (negative values wrap).
pub open spec fn facet_count(n: FacetNumber) -> u64 {
    match n {
        FacetNumber::Int32(v) => v as u64,
        FacetNumber::Int64(v) => v as u64,
    }
}

/// What one group contributes: its id (as a byte, truncated) and its count,
/// when both are present.
pub open spec fn facet_entry(item: Option<FacetItem>) -> Option<(u8, u64)> {
    match item {
        Some(FacetItem { id: Some(i), count: Some(c) }) => Some((facet_id(i) as u8, facet_count(c))),
        _ => None,
    }
}

/// The groups whose id names a value of `T`, with their counts, in order.
pub open spec fn facet_items_spec<T: Coded>(items: Seq<Option<FacetItem>>) -> Seq<(T, u64)>
    decreases items.len(),
{
    if items.len() == 0 {
        Seq::empty()
    } else {
        let prev = facet_items_spec::<T>(items.drop_last());
        match facet_entry(items.last()) {
            Some((code, count)) => match T::from_code_spec(code) {
                Some(t) => prev.push((t, count)),
                None => prev,
            },
            None => prev,
        }
    }
}

pub open spec fn facet_list_spec<T: Coded>(items: Option<Vec<Option<FacetItem>>>) -> Seq<(T, u64)> {
    match items {
        Some(v) => facet_items_spec::<T>(v@),
        None => Seq::empty(),
    }
}

fn facet_id_exec(n: FacetNumber) -> (res: i32)
    ensures
        res == facet_id(n),
{
    match n {
        FacetNumber::Int32(v) => v,
        FacetNumber::Int64(v) => v as i32,
    }
}

fn facet_count_exec(n: FacetNumber) -> (res: u64)
    ensures
        res == facet_count(n),
{
    match n {
        FacetNumber::Int32(v) => v as u64,
        FacetNumber::Int64(v) => v as u64,
    }
}

/// Reads the groups of one facet count into values of `T` with their counts.
pub fn parse_facet_items<T: Coded>(items: &Option<Vec<Option<FacetItem>>>) -> (res: Vec<(T, u64)>)
    ensures
        res@ == facet_list_spec::<T>(*items),
{
    let mut res: Vec<(T, u64)> = Vec::new();
    match items {
        None => {},
        Some(v) => {
            let n = v.len();
            for i in 0..n
                invariant
                    n == v@.len(),
                    res@ == facet_items_spec::<T>(v@.take(i as int)),
            {
                assert(v@.take(i + 1).drop_last() == v@.take(i as int));
                assert(v@.take(i + 1).last() == v@[i as int]);
                match v[i] {
                    Some(FacetItem { id: Some(id), count: Some(count) }) => {
                        let code = facet_id_exec(id) as u8;
                        let cnt = facet_count_exec(count);
                        match T::from_code(code) {
                            Some(t) => res.push((t, cnt)),
                            None => {},
                        }
                    },
                    _ => {},
                }
            }
            assert(v@.take(n as int) == v@);
        },
    }
    res
}

pub open spec fn type_facets_view(v: Seq<TypeFacet>) -> Seq<(ObjectType, u64)> {
    v.map_values(|f: TypeFacet| (f.object_type, f.count))
}

pub open spec fn clothing_facets_view(v: Seq<ClothingTypeFacet>) -> Seq<(ClothingType, u64)> {
    v.map_values(|f: ClothingTypeFacet| (f.clothing_type, f.count))
}

pub open spec fn furniture_facets_view(v: Seq<FurnitureTypeFacet>) -> Seq<(FurnitureType, u64)> {
    v.map_values(|f: FurnitureTypeFacet| (f.furniture_type, f.count))
}

pub open spec fn scene_facets_view(v: Seq<SceneTypeFacet>) -> Seq<(SceneType, u64)> {
    v.map_values(|f: SceneTypeFacet| (f.scene_type, f.count))
}

pub open spec fn gender_facets_view(v: Seq<GenderFacet>) -> Seq<(Gender, u64)> {
    v.map_values(|f: GenderFacet| (f.gender, f.count))
}

/// The facets, each as a list of values with their counts.
pub open spec fn facets_view(f: ObjectFacets) -> (
    Seq<(ObjectType, u64)>,
    Seq<(ClothingType, u64)>,
    Seq<(FurnitureType, u64)>,
    Seq<(SceneType, u64)>,
    Seq<(Gender, u64)>,
) {
    (
        type_facets_view(f.types@),
        clothing_facets_view(f.clothing_types@),
        furniture_facets_view(f.furniture_types@),
        scene_facets_view(f.scene_types@),
        gender_facets_view(f.genders@),
    )
}

/// Builds the facets from lists of values with their counts.
pub fn make_facets(
    types: Vec<(ObjectType, u64)>,
    clothing: Vec<(ClothingType, u64)>,
    furniture: Vec<(FurnitureType, u64)>,
    scenes: Vec<(SceneType, u64)>,
    genders: Vec<(Gender, u64)>,
) -> (res: ObjectFacets)
    ensures
        facets_view(res) == (types@, clothing@, furniture@, scenes@, genders@),
{
    let mut tf: Vec<TypeFacet> = Vec::new();
    for i in 0..types.len()
        invariant
            type_facets_view(tf@) == types@.take(i as int),
    {
        tf.push(TypeFacet { object_type: types[i].0, count: types[i].1 });
        let ghost prev = type_facets_view(tf@).drop_last();
        assert(prev =~= types@.take(i as int));
        assert(type_facets_view(tf@)[i as int] == types@[i as int]);
        assert(type_facets_view(tf@) =~= types@.take(i + 1));
    }
    assert(types@.take(types@.len() as int) == types@);
    let mut cf: Vec<ClothingTypeFacet> = Vec::new();
    for i in 0..clothing.len()
        invariant
            clothing_facets_view(cf@) == clothing@.take(i as int),
    {
        cf.push(ClothingTypeFacet { clothing_type: clothing[i].0, count: clothing[i].1 });
        let ghost prev = clothing_facets_view(cf@).drop_last();
        assert(prev =~= clothing@.take(i as int));
        assert(clothing_facets_view(cf@)[i as int] == clothing@[i as int]);
        assert(clothing_facets_view(cf@) =~= clothing@.take(i + 1));
    }
    assert(clothing@.take(clothing@.len() as int) == clothing@);
    let mut ff: Vec<FurnitureTypeFacet> = Vec::new();
    for i in 0..furniture.len()
        invariant
            furniture_facets_view(ff@) == furniture@.take(i as int),
    {
        ff.push(FurnitureTypeFacet { furniture_type: furniture[i].0, count: furniture[i].1 });
        let ghost prev = furniture_facets_view(ff@).drop_last();
        assert(prev =~= furniture@.take(i as int));
        assert(furniture_facets_view(ff@)[i as int] == furniture@[i as int]);
        assert(furniture_facets_view(ff@) =~= furniture@.take(i + 1));
    }
    assert(furniture@.take(furniture@.len() as int) == furniture@);
    let mut sf: Vec<SceneTypeFacet> = Vec::new();
    for i in 0..scenes.len()
        invariant
            scene_facets_view(sf@) == scenes@.take(i as int),
    {
        sf.push(SceneTypeFacet { scene_type: scenes[i].0, count: scenes[i].1 });
        let ghost prev = scene_facets_view(sf@).drop_last();
        assert(prev =~= scenes@.take(i as int));
        assert(scene_facets_view(sf@)[i as int] == scenes@[i as int]);
        assert(scene_facets_view(sf@) =~= scenes@.take(i + 1));
    }
    assert(scenes@.take(scenes@.len() as int) == scenes@);
    let mut gf: Vec<GenderFacet> = Vec::new();
    for i in 0..genders.len()
        invariant
            gender_facets_view(gf@) == genders@.take(i as int),
    {
        gf.push(GenderFacet { gender: genders[i].0, count: genders[i].1 });
        let ghost prev = gender_facets_view(gf@).drop_last();
        assert(prev =~= genders@.take(i as int));
        assert(gender_facets_view(gf@)[i as int] == genders@[i as int]);
        assert(gender_facets_view(gf@) =~= genders@.take(i + 1));
    }
    assert(genders@.take(genders@.len() as int) == genders@);
    ObjectFacets {
        types: tf,
        clothing_types: cf,
        furniture_types: ff,
        scene_types: sf,
        genders: gf,
    }
}

/// The facets that the database's facet counts give.
pub fn facets_from_counts(counts: &FacetCounts) -> (res: ObjectFacets)
    ensures
        facets_view(res) == (
            facet_list_spec::<ObjectType>(counts.type_counts),
            facet_list_spec::<ClothingType>(counts.clothing_counts),
            facet_list_spec::<FurnitureType>(counts.furniture_counts),
            facet_list_spec::<SceneType>(counts.scene_counts),
            facet_list_spec::<Gender>(counts.gender_counts),
        ),
{
    make_facets(
        parse_facet_items::<ObjectType>(&counts.type_counts),
        parse_facet_items::<ClothingType>(&counts.clothing_counts),
        parse_facet_items::<FurnitureType>(&counts.furniture_counts),
        parse_facet_items::<SceneType>(&counts.scene_counts),
        parse_facet_items::<Gender>(&counts.gender_counts),
    )
}

/// Facets with no entries.
pub fn empty_facets() -> (res: ObjectFacets)
    ensures
        facets_view(res) == (
            Seq::<(ObjectType, u64)>::empty(),
            Seq::<(ClothingType, u64)>::empty(),
            Seq::<(FurnitureType, u64)>::empty(),
            Seq::<(SceneType, u64)>::empty(),
            Seq::<(Gender, u64)>::empty(),
        ),
{
    make_facets(Vec::new(), Vec::new(), Vec::new(), Vec::new(), Vec::new())
}

// ---------------------------------------------------------------------------
// Pages
// ---------------------------------------------------------------------------
/// The page size for a request: 24 when none is asked for, kept within 1 ..= 100.
pub fn page_size(first: Option<u32>) -> (res: u32)
    ensures
        res == match first {
            Some(f) => if f < 1 {
                1
            } else if f > MAX_OBJECT_PAGE_SIZE {
                MAX_OBJECT_PAGE_SIZE
            } else {
                f
            },
            None => DEFAULT_OBJECT_PAGE_SIZE,
        },
        1 <= res <= MAX_OBJECT_PAGE_SIZE,
{
    let f = match first {
        Some(f) => f,
        None => DEFAULT_OBJECT_PAGE_SIZE,
    };
    if f < 1 {
        1
    } else if f > MAX_OBJECT_PAGE_SIZE {
        MAX_OBJECT_PAGE_SIZE
    } else {
        f
    }
}

/// The number of objects a random sample asks for: 50 when none is asked
/// for, at most 50.
pub fn random_sample_size(amount: Option<u32>) -> (res: u32)
    ensures
        res == match amount {
            Some(a) => if a > 50 {
                50
            } else {
                a
            },
            None => 50,
        },
{
    match amount {
        Some(a) => if a > 50 {
            50
        } else {
            a
        },
        None => 50,
    }
}

/// The skip and limit of a text search: nothing skipped and no limit unless asked.
pub fn search_window(limit: Option<u32>, skip: Option<u32>) -> (res: (u32, i64))
    ensures
        res.0 == match skip {
            Some(s) => s,
            None => 0,
        },
        res.1 == match limit {
            Some(l) => l as i64,
            None => u32::MAX as i64,
        },
{
    let s = match skip {
        Some(s) => s,
        None => 0,
    };
    let l = match limit {
        Some(l) => l as i64,
        None => u32::MAX as i64,
    };
    (s, l)
}

/// The number of objects the database is asked for: one more than the page
/// size, to learn whether another page follows.
pub fn page_limit(first: u32) -> (res: i64)
    requires
        first < u32::MAX,
    ensures
        res == first + 1,
{
    (first + 1) as i64
}

/// Drops the extra object fetched to detect a next page: whether there are
/// more objects than the page size, and the objects without the last one
/// when there are.
pub fn split_page(objects: Vec<Object>, first: u32) -> (res: (Vec<Object>, bool))
    ensures
        res.1 == (objects@.len() > first),
        res.0@ == if res.1 {
            objects@.drop_last()
        } else {
            objects@
        },
{
    let mut objects = objects;
    let has_next = objects.len() > first as usize;
    if has_next {
        objects.pop();
    }
    (objects, has_next)
}

/// The cursor text of an object under a sort.
pub open spec fn object_cursor(obj: Object, sort: ObjectSort) -> Seq<char> {
    cursor_of_text(cursor_payload(sort_value_spec(obj, sort), obj.uuid@))
}

/// `cursor` is the cursor of `obj` under `sort`: it encodes the object's sort
/// value and uuid, and decodes back to them when neither holds the separator.
pub open spec fn is_object_cursor(cursor: Seq<char>, obj: Object, sort: ObjectSort) -> bool {
    &&& cursor == object_cursor(obj, sort)
    &&& has_no_nul(sort_value_spec(obj, sort)) && has_no_nul(obj.uuid@) ==> cursor_parts(cursor)
        == Some((sort_value_spec(obj, sort), obj.uuid@))
}

/// Turns the objects of a page into edges, each with the cursor that
/// continues after it.
pub fn object_edges(objects: Vec<Object>, sort: ObjectSort) -> (res: Vec<ObjectEdge>)
    ensures
        res@.len() == objects@.len(),
        forall|i: int|
            0 <= i < res@.len() ==> (#[trigger] res@[i]).node == objects@[i] && is_object_cursor(
                res@[i].cursor@,
                objects@[i],
                sort,
            ),
{
    let ghost all = objects@;
    let mut rest = objects;
    let mut res: Vec<ObjectEdge> = Vec::new();
    while rest.len() > 0
        invariant
            res@.len() + rest@.len() == all.len(),
            rest@ == all.skip(res@.len() as int),
            forall|i: int|
                0 <= i < res@.len() ==> (#[trigger] res@[i]).node == all[i] && is_object_cursor(
                    res@[i].cursor@,
                    all[i],
                    sort,
                ),
        decreases rest@.len(),
    {
        let obj = rest.remove(0);
        assert(obj == all[res@.len() as int]);
        assert(rest@ == all.skip(res@.len() + 1int));
        let sort_val = get_sort_value(&obj, sort);
        let cursor = encode_cursor(sort_val.as_str(), obj.uuid.as_str());
        res.push(ObjectEdge { cursor, node: obj });
    }
    res
}

/// The cursor of an edge, copied.
fn edge_cursor(edges: &Vec<ObjectEdge>, i: usize) -> (res: Option<String>)
    requires
        i < edges@.len(),
    ensures
        res == Some(edges@[i as int].cursor),
{
    Some(edges[i].cursor.clone())
}

/// Assembles a page from its edges: the start and end cursors are those of
/// the first and last edge.
pub fn assemble_connection(
    edges: Vec<ObjectEdge>,
    has_next_page: bool,
    has_previous_page: bool,
    facets: ObjectFacets,
) -> (res: ObjectConnection)
    ensures
        res.edges@ == edges@,
        res.page_info.has_next_page == has_next_page,
        res.page_info.has_previous_page == has_previous_page,
        res.page_info.start_cursor == if edges@.len() > 0 {
            Some(edges@[0].cursor)
        } else {
            None
        },
        res.page_info.end_cursor == if edges@.len() > 0 {
            Some(edges@.last().cursor)
        } else {
            None
        },
        res.facets == Some(facets),
{
    let n = edges.len();
    let start_cursor = if n > 0 {
        edge_cursor(&edges, 0)
    } else {
        None
    };
    let end_cursor = if n > 0 {
        edge_cursor(&edges, n - 1)
    } else {
        None
    };
    ObjectConnection {
        edges,
        page_info: PageInfo { has_next_page, has_previous_page, start_cursor, end_cursor },
        facets: Some(facets),
    }
}

/// The page of a database query: the objects of the page (see
/// `split_page`) turned into edges, with the facet counts.
pub fn database_page(
    page: Vec<Object>,
    has_next_page: bool,
    has_previous_page: bool,
    sort: ObjectSort,
    counts: &FacetCounts,
) -> (res: ObjectConnection)
    ensures
        res.page_info.has_next_page == has_next_page,
        res.page_info.has_previous_page == has_previous_page,
        res.edges@.len() == page@.len(),
        forall|i: int|
            0 <= i < res.edges@.len() ==> (#[trigger] res.edges@[i]).node == page@[i]
                && is_object_cursor(res.edges@[i].cursor@, page@[i], sort),
        res.page_info.start_cursor == if res.edges@.len() > 0 {
            Some(res.edges@[0].cursor)
        } else {
            None
        },
        res.page_info.end_cursor == if res.edges@.len() > 0 {
            Some(res.edges@.last().cursor)
        } else {
            None
        },
        res.facets matches Some(f) && facets_view(f) == (
            facet_list_spec::<ObjectType>(counts.type_counts),
            facet_list_spec::<ClothingType>(counts.clothing_counts),
            facet_list_spec::<FurnitureType>(counts.furniture_counts),
            facet_list_spec::<SceneType>(counts.scene_counts),
            facet_list_spec::<Gender>(counts.gender_counts),
        ),
{
    let edges = object_edges(page, sort);
    let facets = facets_from_counts(counts);
    assemble_connection(edges, has_next_page, has_previous_page, facets)
}

/// Pagination continues after an edge: asking for the page after the cursor
/// of an object's edge starts right after that object, after its sort value
/// and uuid in the sort direction (after its uuid alone when it has no sort
/// value). This holds where neither the sort value nor the uuid holds the
/// cursor's separator.
pub proof fn lemma_cursor_continues_after(cursor: Seq<char>, obj: Object, sort: ObjectSort)
    requires
        is_object_cursor(cursor, obj, sort),
        has_no_nul(sort_value_spec(obj, sort)),
        has_no_nul(obj.uuid@),
    ensures
        cursor_filter_spec(sort, Some(cursor)) == if sort_value_spec(obj, sort).len() == 0 {
            CursorFilterView::AfterUuid(obj.uuid@)
        } else {
            CursorFilterView::AfterKey {
                field: sort_field(sort),
                greater: sort_ascending(sort),
                sort_val: sort_value_spec(obj, sort),
                uuid: obj.uuid@,
            }
        },
{
}

/// The page when the database returns no result at all.
pub fn empty_connection(has_previous_page: bool) -> (res: ObjectConnection)
    ensures
        res.edges@.len() == 0,
        !res.page_info.has_next_page,
        res.page_info.has_previous_page == has_previous_page,
        res.page_info.start_cursor is None,
        res.page_info.end_cursor is None,
        res.facets matches Some(f) && facets_view(f) == (
            Seq::<(ObjectType, u64)>::empty(),
            Seq::<(ClothingType, u64)>::empty(),
            Seq::<(FurnitureType, u64)>::empty(),
            Seq::<(SceneType, u64)>::empty(),
            Seq::<(Gender, u64)>::empty(),
        ),
{
    assemble_connection(Vec::new(), false, has_previous_page, empty_facets())
}

} // verus!
