//! The search index: the document each object is indexed as, the search
//! request built from the catalogue input, and the page built from the
//! index's answer.
use vstd::prelude::*;

pub use crate::codec::{decode_meili_cursor, encode_meili_cursor};
use crate::codec::{meili_cursor, meili_cursor_offset};
use crate::object::{
    ClothingType, Coded, FurnitureType, Gender, Locale, LocalizedEntry, Metadata, Object,
    ObjectType, SceneType, locale_code,
};
use crate::schema::{
    ObjectConnection, ObjectEdge, ObjectFacets, ObjectSearchInput, ObjectSort, assemble_connection,
    codes, facets_view, make_facets,
};
use crate::text::{
    blank, decimal, decimal_string, is_blank, owned, parse_decimal, parse_unsigned,
};

verus! {

// ---------------------------------------------------------------------------
// Indexed documents
// ---------------------------------------------------------------------------
/// The variants gathered from `vals`, on top of `acc`: each value that
/// is not blank and not already gathered, in order.
pub open spec fn gather(acc: Seq<Seq<char>>, vals: Seq<Seq<char>>) -> Seq<Seq<char>>
    decreases vals.len(),
{
    if vals.len() == 0 {
        acc
    } else {
        let prev = gather(acc, vals.drop_last());
        let v = vals.last();
        if !is_blank(v) && !prev.contains(v) {
            prev.push(v)
        } else {
            prev
        }
    }
}

/// The texts of a list of strings.
pub open spec fn texts(v: Seq<String>) -> Seq<Seq<char>> {
    v.map_values(|s: String| s@)
}

/// The default text of a localized field (empty when absent).
pub open spec fn default_text(entry: Option<LocalizedEntry<String>>) -> Seq<char> {
    match entry {
        Some(e) => match e.default {
            Some(d) => d@,
            None => Seq::empty(),
        },
        None => Seq::empty(),
    }
}

/// The default text of a localized field as a variant, when it is not blank.
pub open spec fn default_variant(e: LocalizedEntry<String>) -> Seq<Seq<char>> {
    match e.default {
        Some(d) => if !is_blank(d@) {
            seq![d@]
        } else {
            Seq::empty()
        },
        None => Seq::empty(),
    }
}

/// All variants of a localized field: the default one (when not blank)
/// and then each localized one that is not blank and not seen before.
pub open spec fn variants(entry: Option<LocalizedEntry<String>>) -> Seq<Seq<char>> {
    match entry {
        Some(e) => {
            let start = default_variant(e);
            match e.localized {
                Some(l) => gather(start, l@.map_values(|p: (String, String)| p.1@)),
                None => start,
            }
        },
        None => Seq::empty(),
    }
}

proof fn lemma_gather(acc: Seq<Seq<char>>, vals: Seq<Seq<char>>)
    requires
        acc.no_duplicates(),
        forall|i: int| 0 <= i < acc.len() ==> !is_blank(#[trigger] acc[i]),
    ensures
        gather(acc, vals).no_duplicates(),
        forall|i: int| 0 <= i < gather(acc, vals).len() ==> !is_blank(#[trigger] gather(acc, vals)[i]),
        forall|i: int| 0 <= i < acc.len() ==> gather(acc, vals).contains(#[trigger] acc[i]),
        forall|i: int|
            0 <= i < vals.len() && !is_blank(#[trigger] vals[i]) ==> gather(acc, vals).contains(
                vals[i],
            ),
    decreases vals.len(),
{
    if vals.len() > 0 {
        lemma_gather(acc, vals.drop_last());
        let prev = gather(acc, vals.drop_last());
        let g = gather(acc, vals);
        assert forall|i: int| 0 <= i < prev.len() implies g.contains(#[trigger] prev[i]) by {
            if g != prev {
                assert(g[i] == prev[i]);
            }
        }
        assert forall|i: int| 0 <= i < vals.len() && !is_blank(#[trigger] vals[i]) implies g.contains(
            vals[i],
        ) by {
            if i < vals.len() - 1 {
                assert(vals.drop_last()[i] == vals[i]);
                assert(prev.contains(vals[i]));
            } else {
                if prev.contains(vals[i]) {
                } else {
                    assert(g[g.len() - 1] == vals[i]);
                }
            }
        }
        assert forall|i: int| 0 <= i < acc.len() implies g.contains(#[trigger] acc[i]) by {
            assert(prev.contains(acc[i]));
        }
    }
}

fn contains_text(v: &Vec<String>, s: &String) -> (res: bool)
    ensures
        res == texts(v@).contains(s@),
{
    let n = v.len();
    for i in 0..n
        invariant
            n == v@.len(),
            forall|j: int| 0 <= j < i ==> v@[j]@ != s@,
    {
        if v[i] == *s {
            assert(texts(v@)[i as int] == s@);
            return true;
        }
    }
    assert forall|j: int| 0 <= j < texts(v@).len() implies texts(v@)[j] != s@ by {
        assert(texts(v@)[j] == v@[j]@);
    }
    false
}

/// The default text and all variants of a localized field: the default
/// (when not blank), then the localized values in their list order, which
/// for a well-formed entry is ascending tag order, each value at its first
/// occurrence. The variants hold no blank text and no text twice, and every
/// text of the field that is not blank is among them.
pub fn extract_localized_strings(entry: Option<&LocalizedEntry<String>>) -> (res: (
    String,
    Vec<String>,
))
    requires
        entry matches Some(e) ==> e.wf(),
    ensures
        res.0@ == default_text(
            match entry {
                Some(e) => Some(*e),
                None => None,
            },
        ),
        texts(res.1@) == variants(
            match entry {
                Some(e) => Some(*e),
                None => None,
            },
        ),
        texts(res.1@).no_duplicates(),
        forall|i: int| 0 <= i < res.1@.len() ==> !is_blank(#[trigger] res.1@[i]@),
        entry matches Some(e) ==> (e.default matches Some(d) ==> (!is_blank(d@) ==> texts(
            res.1@,
        ).contains(d@))),
        entry matches Some(e) ==> (e.localized matches Some(l) ==> forall|i: int|
            0 <= i < l@.len() && !is_blank((#[trigger] l@[i]).1@) ==> texts(res.1@).contains(
                l@[i].1@,
            )),
{
    let mut default_str = String::new();
    let mut all: Vec<String> = Vec::new();
    let ghost e_opt = match entry {
        Some(e) => Some(*e),
        None => None,
    };
    match entry {
        None => {
            assert(texts(all@) =~= Seq::<Seq<char>>::empty());
            return (default_str, all);
        },
        Some(e) => {
            match &e.default {
                Some(d) => {
                    default_str = d.clone();
                    if !blank(d.as_str()) {
                        all.push(d.clone());
                    }
                },
                None => {},
            }
            let ghost start = texts(all@);
            assert(start =~= default_variant(*e));
            assert(start.no_duplicates());
            assert(forall|i: int| 0 <= i < start.len() ==> !is_blank(#[trigger] start[i]));
            match &e.localized {
                None => {
                    proof {
                        lemma_gather(start, Seq::empty());
                    }
                },
                Some(l) => {
                    let ghost vals = l@.map_values(|p: (String, String)| p.1@);
                    let n = l.len();
                    for i in 0..n
                        invariant
                            n == l@.len(),
                            vals == l@.map_values(|p: (String, String)| p.1@),
                            texts(all@) == gather(start, vals.take(i as int)),
                    {
                        let v = &l[i].1;
                        assert(vals.take(i + 1).drop_last() == vals.take(i as int));
                        assert(vals.take(i + 1).last() == v@);
                        if !blank(v.as_str()) && !contains_text(&all, v) {
                            all.push(v.clone());
                            assert(texts(all@) =~= gather(start, vals.take(i as int)).push(v@));
                        }
                    }
                    assert(vals.take(n as int) == vals);
                    proof {
                        lemma_gather(start, vals);
                        assert forall|i: int|
                            0 <= i < l@.len() && !is_blank((#[trigger] l@[i]).1@) implies texts(
                            all@,
                        ).contains(l@[i].1@) by {
                            assert(vals[i] == l@[i].1@);
                        }
                    }
                },
            }
            proof {
                assert(texts(all@) == variants(e_opt));
                lemma_gather(start, Seq::empty());
                assert forall|i: int| 0 <= i < all@.len() implies !is_blank(#[trigger] all@[i]@) by {
                    assert(texts(all@)[i] == all@[i]@);
                    match &e.localized {
                        Some(l) => {
                            lemma_gather(start, l@.map_values(|p: (String, String)| p.1@));
                        },
                        None => {},
                    }
                }
                match &e.default {
                    Some(d) => {
                        if !is_blank(d@) {
                            assert(start[0] == d@);
                        }
                    },
                    None => {},
                }
            }
            (default_str, all)
        },
    }
}

/// The document an object is indexed as.
pub struct MeiliDocument {
    pub uuid: String,
    pub timestamp: u64,
    pub name: String,
    pub names: Vec<String>,
    pub description: String,
    pub descriptions: Vec<String>,
    pub maker: String,
    pub makers: Vec<String>,
    pub object_type: u64,
    pub clothing_type: Option<u64>,
    pub furniture_type: Option<u64>,
    pub scene_type: Option<u64>,
    pub genders: Vec<u64>,
}

/// The indexed timestamp: the object's timestamp read as a `u64`, 0 when
/// absent or unreadable.
pub open spec fn timestamp_spec(t: Option<String>) -> u64 {
    match t {
        Some(s) => match parse_unsigned(s@, u64::MAX as int) {
            Some(v) => v as u64,
            None => 0,
        },
        None => 0,
    }
}

pub open spec fn opt_code<T: Coded>(v: Option<T>) -> Option<u64> {
    match v {
        Some(t) => Some(t.code_of() as u64),
        None => None,
    }
}

/// The gender codes of the metadata, empty when absent.
pub open spec fn gender_codes(m: Metadata) -> Seq<u64> {
    match m.genders {
        Some(g) => g@.map_values(|x: Gender| x.code_of() as u64),
        None => Seq::empty(),
    }
}

fn opt_code_exec<T: Coded>(v: &Option<T>) -> (res: Option<u64>)
    ensures
        res == opt_code(*v),
{
    match v {
        Some(t) => Some(t.code() as u64),
        None => None,
    }
}

fn gender_codes_exec(m: &Metadata) -> (res: Vec<u64>)
    ensures
        res@ == gender_codes(*m),
{
    let mut res: Vec<u64> = Vec::new();
    match &m.genders {
        None => {},
        Some(g) => {
            let n = g.len();
            for i in 0..n
                invariant
                    n == g@.len(),
                    res@ == g@.take(i as int).map_values(|x: Gender| x.code_of() as u64),
            {
                res.push(g[i].code() as u64);
                assert(res@ =~= g@.take(i + 1).map_values(|x: Gender| x.code_of() as u64));
            }
            assert(g@.take(n as int) == g@);
        },
    }
    res
}

fn timestamp_exec(t: &Option<String>) -> (res: u64)
    ensures
        res == timestamp_spec(*t),
{
    match t {
        Some(s) => match parse_decimal(s.as_str(), u64::MAX) {
            Some(v) => v,
            None => 0,
        },
        None => 0,
    }
}

/// Whether `d` is the document for `obj`: its uuid; its timestamp (see
/// `timestamp_spec`); the default text and all variants of its names,
/// descriptions and makers; its metadata codes (type 5, `Other`, without
/// metadata).
pub open spec fn is_document_of(d: MeiliDocument, obj: Object) -> bool {
    &&& d.uuid@ == obj.uuid@
    &&& d.timestamp == timestamp_spec(obj.timestamp)
    &&& d.name@ == default_text(obj.names)
    &&& texts(d.names@) == variants(obj.names)
    &&& d.description@ == default_text(obj.descriptions)
    &&& texts(d.descriptions@) == variants(obj.descriptions)
    &&& d.maker@ == default_text(obj.maker)
    &&& texts(d.makers@) == variants(obj.maker)
    &&& match obj.metadata {
        Some(m) => {
            &&& d.object_type == m.object_type.code_of() as u64
            &&& d.clothing_type == opt_code(m.clothing_type)
            &&& d.furniture_type == opt_code(m.furniture_type)
            &&& d.scene_type == opt_code(m.scene_type)
            &&& d.genders@ == gender_codes(m)
        },
        None => {
            &&& d.object_type == 5
            &&& d.clothing_type is None
            &&& d.furniture_type is None
            &&& d.scene_type is None
            &&& d.genders@.len() == 0
        },
    }
}

fn entry_ref(e: &Option<LocalizedEntry<String>>) -> (res: Option<&LocalizedEntry<String>>)
    ensures
        match res {
            Some(r) => *e == Some(*r),
            None => e is None,
        },
{
    match e {
        Some(x) => Some(x),
        None => None,
    }
}

impl MeiliDocument {
    /// The document an object is indexed as.
    pub fn from_object(obj: &Object) -> (res: MeiliDocument)
        requires
            obj.wf(),
        ensures
            is_document_of(res, *obj),
    {
        let (name, names) = extract_localized_strings(entry_ref(&obj.names));
        let (description, descriptions) = extract_localized_strings(entry_ref(&obj.descriptions));
        let (maker, makers) = extract_localized_strings(entry_ref(&obj.maker));
        let (object_type, clothing_type, furniture_type, scene_type, genders) = match &obj.metadata {
            None => (5u64, None, None, None, Vec::new()),
            Some(m) => (
                m.object_type.code() as u64,
                opt_code_exec(&m.clothing_type),
                opt_code_exec(&m.furniture_type),
                opt_code_exec(&m.scene_type),
                gender_codes_exec(m),
            ),
        };
        MeiliDocument {
            uuid: obj.uuid.clone(),
            timestamp: timestamp_exec(&obj.timestamp),
            name,
            names,
            description,
            descriptions,
            maker,
            makers,
            object_type,
            clothing_type,
            furniture_type,
            scene_type,
            genders,
        }
    }
}

/// The documents for a list of objects, in order.
pub fn meili_documents(objects: &Vec<Object>) -> (res: Vec<MeiliDocument>)
    requires
        forall|i: int| 0 <= i < objects@.len() ==> (#[trigger] objects@[i]).wf(),
    ensures
        res@.len() == objects@.len(),
        forall|i: int| 0 <= i < res@.len() ==> is_document_of(#[trigger] res@[i], objects@[i]),
{
    let mut res: Vec<MeiliDocument> = Vec::new();
    let n = objects.len();
    for i in 0..n
        invariant
            n == objects@.len(),
            forall|k: int| 0 <= k < objects@.len() ==> (#[trigger] objects@[k]).wf(),
            res@.len() == i,
            forall|j: int| 0 <= j < i ==> is_document_of(#[trigger] res@[j], objects@[j]),
    {
        res.push(MeiliDocument::from_object(&objects[i]));
    }
    res
}

/// The documents to write through to the index after a database page, when
/// there is an index and something to write: `None` when there are no objects
/// or the index address is blank.
pub fn documents_to_index(meili_url: &str, objects: &Vec<Object>) -> (res: Option<
    Vec<MeiliDocument>,
>)
    requires
        forall|i: int| 0 <= i < objects@.len() ==> (#[trigger] objects@[i]).wf(),
    ensures
        res is None <==> (objects@.len() == 0 || is_blank(meili_url@)),
        res matches Some(docs) ==> docs@.len() == objects@.len() && forall|i: int|
            0 <= i < docs@.len() ==> is_document_of(#[trigger] docs@[i], objects@[i]),
{
    if objects.len() == 0 || blank(meili_url) {
        None
    } else {
        Some(meili_documents(objects))
    }
}

// ---------------------------------------------------------------------------
// Search request
// ---------------------------------------------------------------------------
/// One filter term: the field equals the code.
pub open spec fn filter_term(field: Seq<char>, code: u8) -> Seq<char> {
    field + " = "@ + decimal(code as nat)
}

/// The filter terms for each code, joined by ` OR `.
pub open spec fn joined_terms(field: Seq<char>, codes: Seq<u8>) -> Seq<char>
    decreases codes.len(),
{
    if codes.len() == 0 {
        Seq::empty()
    } else if codes.len() == 1 {
        filter_term(field, codes[0])
    } else {
        joined_terms(field, codes.drop_last()) + " OR "@ + filter_term(field, codes.last())
    }
}

/// A filter clause: the joined terms in parentheses.
pub open spec fn filter_clause(field: Seq<char>, codes: Seq<u8>) -> Seq<char> {
    "("@ + joined_terms(field, codes) + ")"@
}

pub open spec fn clause_for(field: Seq<char>, codes: Option<Seq<u8>>) -> Seq<Seq<char>> {
    match codes {
        Some(c) => seq![filter_clause(field, c)],
        None => Seq::empty(),
    }
}

/// The search filter for an input: one clause per filter list that is not
/// empty, in the order type, clothing type, furniture type, scene type, genders.
pub open spec fn meili_filter_spec(input: ObjectSearchInput) -> Seq<Seq<char>> {
    clause_for("type"@, crate::schema::filter_codes(input.types)) + clause_for(
        "clothing_type"@,
        crate::schema::filter_codes(input.clothing_types),
    ) + clause_for("furniture_type"@, crate::schema::filter_codes(input.furniture_types))
        + clause_for("scene_type"@, crate::schema::filter_codes(input.scene_types)) + clause_for(
        "genders"@,
        crate::schema::filter_codes(input.genders),
    )
}

/// The index clauses that the `$in` conditions of a database match stage
/// stand for, in order: a condition on `metadata.F` becomes the clause on the
/// index field `F` with the same codes; the query condition has no clause.
pub open spec fn index_clauses(m: Seq<(Seq<char>, crate::schema::MatchConditionView)>) -> Seq<
    Seq<char>,
>
    decreases m.len(),
{
    if m.len() == 0 {
        Seq::empty()
    } else {
        let prev = index_clauses(m.drop_last());
        match m.last().1 {
            crate::schema::MatchConditionView::In(c) => prev.push(
                filter_clause(m.last().0.skip(9), c),
            ),
            _ => prev,
        }
    }
}

proof fn lemma_index_clauses_concat(
    a: Seq<(Seq<char>, crate::schema::MatchConditionView)>,
    b: Seq<(Seq<char>, crate::schema::MatchConditionView)>,
)
    ensures
        index_clauses(a + b) == index_clauses(a) + index_clauses(b),
    decreases b.len(),
{
    if b.len() == 0 {
        assert(a + b == a);
        assert(index_clauses(a) + index_clauses(b) == index_clauses(a));
    } else {
        lemma_index_clauses_concat(a, b.drop_last());
        assert((a + b).drop_last() == a + b.drop_last());
        assert((a + b).last() == b.last());
    }
}

proof fn lemma_in_entry_clause(field: Seq<char>, codes: Option<Seq<u8>>)
    requires
        field.len() >= 9,
    ensures
        index_clauses(crate::schema::in_entry(field, codes)) == clause_for(field.skip(9), codes),
{
    match codes {
        Some(c) => {
            let m = crate::schema::in_entry(field, codes);
            assert(m.len() == 1);
            assert(m.last() == (field, crate::schema::MatchConditionView::In(c)));
            assert(m.drop_last() =~= Seq::<(Seq<char>, crate::schema::MatchConditionView)>::empty());
            assert(index_clauses(m.drop_last()) == Seq::<Seq<char>>::empty());
            assert(index_clauses(m) =~= seq![filter_clause(field.skip(9), c)]);
        },
        None => {},
    }
}

/// The search index filters as the database does: its filter clauses are
/// exactly the database's `$in` conditions, in the same order and with the
/// same codes, each on the index field that the database field
/// `metadata.F` names (`F`).
pub proof fn lemma_filters_agree(input: ObjectSearchInput)
    ensures
        meili_filter_spec(input) == index_clauses(crate::schema::object_match_spec(input)),
{
    reveal_strlit("metadata.type");
    reveal_strlit("metadata.clothing_type");
    reveal_strlit("metadata.furniture_type");
    reveal_strlit("metadata.scene_type");
    reveal_strlit("metadata.genders");
    reveal_strlit("type");
    reveal_strlit("clothing_type");
    reveal_strlit("furniture_type");
    reveal_strlit("scene_type");
    reveal_strlit("genders");
    assert("metadata.type"@.skip(9) =~= "type"@);
    assert("metadata.clothing_type"@.skip(9) =~= "clothing_type"@);
    assert("metadata.furniture_type"@.skip(9) =~= "furniture_type"@);
    assert("metadata.scene_type"@.skip(9) =~= "scene_type"@);
    assert("metadata.genders"@.skip(9) =~= "genders"@);
    let e1 = crate::schema::in_entry("metadata.type"@, crate::schema::filter_codes(input.types));
    let e2 = crate::schema::in_entry(
        "metadata.clothing_type"@,
        crate::schema::filter_codes(input.clothing_types),
    );
    let e3 = crate::schema::in_entry(
        "metadata.furniture_type"@,
        crate::schema::filter_codes(input.furniture_types),
    );
    let e4 = crate::schema::in_entry(
        "metadata.scene_type"@,
        crate::schema::filter_codes(input.scene_types),
    );
    let e5 = crate::schema::in_entry("metadata.genders"@, crate::schema::filter_codes(input.genders));
    let q = match crate::schema::query_text(input.query) {
        Some(t) => seq![
            ("$or"@, crate::schema::MatchConditionView::UuidOrName { uuid: t, name_pattern: crate::schema::escaped(t) }),
        ],
        None => Seq::empty(),
    };
    assert(index_clauses(q) =~= Seq::<Seq<char>>::empty()) by {
        if q.len() > 0 {
            assert(q.len() == 1);
            assert(q.last().1 is UuidOrName);
            assert(q.drop_last() =~= Seq::<(Seq<char>, crate::schema::MatchConditionView)>::empty());
            assert(index_clauses(q.drop_last()) == Seq::<Seq<char>>::empty());
        }
    }
    lemma_in_entry_clause("metadata.type"@, crate::schema::filter_codes(input.types));
    lemma_in_entry_clause("metadata.clothing_type"@, crate::schema::filter_codes(input.clothing_types));
    lemma_in_entry_clause("metadata.furniture_type"@, crate::schema::filter_codes(input.furniture_types));
    lemma_in_entry_clause("metadata.scene_type"@, crate::schema::filter_codes(input.scene_types));
    lemma_in_entry_clause("metadata.genders"@, crate::schema::filter_codes(input.genders));
    lemma_index_clauses_concat(q, e1);
    lemma_index_clauses_concat(q + e1, e2);
    lemma_index_clauses_concat(q + e1 + e2, e3);
    lemma_index_clauses_concat(q + e1 + e2 + e3, e4);
    lemma_index_clauses_concat(q + e1 + e2 + e3 + e4, e5);
    assert(crate::schema::object_match_spec(input) == q + e1 + e2 + e3 + e4 + e5);
}

/// The filter clause that accepts any of `codes` in `field`.
pub fn filter_clause_exec(field: &str, codes: &Vec<u8>) -> (res: String)
    ensures
        res@ == filter_clause(field@, codes@),
{
    let mut res = owned("(");
    let n = codes.len();
    for i in 0..n
        invariant
            n == codes@.len(),
            res@ == "("@ + joined_terms(field@, codes@.take(i as int)),
    {
        let ghost before = res@;
        let ghost t = codes@.take(i + 1);
        assert(t.drop_last() == codes@.take(i as int));
        assert(t.last() == codes@[i as int]);
        if i > 0 {
            res.append(" OR ");
        }
        res.append(field);
        res.append(" = ");
        let digits = decimal_string(codes[i] as u64);
        res.append(digits.as_str());
        if i == 0 {
            assert(t.len() == 1 && t[0] == codes@[0]);
            assert(res@ =~= "("@ + joined_terms(field@, t));
        } else {
            assert(res@ =~= "("@ + joined_terms(field@, t));
        }
    }
    assert(codes@.take(n as int) == codes@);
    res.append(")");
    res
}

fn push_clause<T: Coded>(filters: &mut Vec<String>, field: &str, v: &Option<Vec<T>>)
    ensures
        texts(final(filters)@) == texts(old(filters)@) + clause_for(
            field@,
            crate::schema::filter_codes(*v),
        ),
{
    let ghost before = texts(filters@);
    match v {
        Some(l) => {
            if l.len() > 0 {
                let c = codes(l);
                filters.push(filter_clause_exec(field, &c));
                assert(texts(filters@) =~= before + clause_for(
                    field@,
                    crate::schema::filter_codes(*v),
                ));
            } else {
                assert(texts(filters@) =~= before + clause_for(
                    field@,
                    crate::schema::filter_codes(*v),
                ));
            }
        },
        None => {
            assert(texts(filters@) =~= before + clause_for(
                field@,
                crate::schema::filter_codes(*v),
            ));
        },
    }
}

/// The search filter for an input (see `meili_filter_spec`).
pub fn build_meili_filter(input: &ObjectSearchInput) -> (res: Vec<String>)
    ensures
        texts(res@) == meili_filter_spec(*input),
{
    let mut filters: Vec<String> = Vec::new();
    assert(texts(filters@) =~= Seq::<Seq<char>>::empty());
    push_clause(&mut filters, "type", &input.types);
    push_clause(&mut filters, "clothing_type", &input.clothing_types);
    push_clause(&mut filters, "furniture_type", &input.furniture_types);
    push_clause(&mut filters, "scene_type", &input.scene_types);
    push_clause(&mut filters, "genders", &input.genders);
    assert(texts(filters@) =~= meili_filter_spec(*input));
    filters
}

/// The sort rules of the search index for a sort: none for relevance.
pub open spec fn meili_sort_spec(sort: ObjectSort) -> Seq<Seq<char>> {
    match sort {
        ObjectSort::Relevance => Seq::empty(),
        ObjectSort::NameAsc => seq!["name:asc"@],
        ObjectSort::NameDesc => seq!["name:desc"@],
        ObjectSort::Newest => seq!["timestamp:desc"@],
        ObjectSort::Oldest => seq!["timestamp:asc"@],
    }
}

/// The name the search index gives a database sort key: `timestamp` for the
/// timestamp, `name` for the default name.
pub open spec fn index_sort_key(field: Seq<char>) -> Seq<char> {
    if field == "timestamp"@ {
        "timestamp"@
    } else {
        "name"@
    }
}

/// The search index sorts as the database does: no rule for relevance (the
/// index ranks by relevance); for every other sort, one rule on the same key
/// as the database sort plan (`name` or `timestamp`), ascending exactly when
/// the plan ascends.
pub proof fn lemma_meili_sort_matches_plan(sort: ObjectSort)
    ensures
        sort == ObjectSort::Relevance ==> meili_sort_spec(sort).len() == 0,
        sort != ObjectSort::Relevance ==> meili_sort_spec(sort) == seq![
            index_sort_key(crate::schema::sort_field(sort)) + ":"@ + if crate::schema::sort_ascending(
                sort,
            ) {
                "asc"@
            } else {
                "desc"@
            },
        ],
{
    reveal_strlit("timestamp");
    reveal_strlit("names.default");
    reveal_strlit("name");
    reveal_strlit(":");
    reveal_strlit("asc");
    reveal_strlit("desc");
    reveal_strlit("name:asc");
    reveal_strlit("name:desc");
    reveal_strlit("timestamp:asc");
    reveal_strlit("timestamp:desc");
    assert("timestamp"@.len() != "names.default"@.len());
    assert("name"@ + ":"@ + "asc"@ =~= "name:asc"@);
    assert("name"@ + ":"@ + "desc"@ =~= "name:desc"@);
    assert("timestamp"@ + ":"@ + "asc"@ =~= "timestamp:asc"@);
    assert("timestamp"@ + ":"@ + "desc"@ =~= "timestamp:desc"@);
}

/// The sort rules of the search index for a sort.
pub fn build_meili_sort(sort: ObjectSort) -> (res: Vec<String>)
    ensures
        texts(res@) == meili_sort_spec(sort),
{
    let mut res: Vec<String> = Vec::new();
    match sort {
        ObjectSort::Relevance => {},
        ObjectSort::NameAsc => res.push(owned("name:asc")),
        ObjectSort::NameDesc => res.push(owned("name:desc")),
        ObjectSort::Newest => res.push(owned("timestamp:desc")),
        ObjectSort::Oldest => res.push(owned("timestamp:asc")),
    }
    assert(texts(res@) =~= meili_sort_spec(sort));
    res
}

// ---------------------------------------------------------------------------
// Facet distribution
// ---------------------------------------------------------------------------
/// The counts listed under the first facet called `name`.
pub open spec fn facet_named(dist: Seq<(String, Vec<(String, u64)>)>, name: Seq<char>) -> Option<
    Seq<(String, u64)>,
>
    decreases dist.len(),
{
    if dist.len() == 0 {
        None
    } else if dist[0].0@ == name {
        Some(dist[0].1@)
    } else {
        facet_named(dist.drop_first(), name)
    }
}

/// The counts whose key reads as a byte (as `str::parse::<u8>` reads it), in order.
pub open spec fn parsed_counts(m: Seq<(String, u64)>) -> Seq<(u8, u64)>
    decreases m.len(),
{
    if m.len() == 0 {
        Seq::empty()
    } else {
        let prev = parsed_counts(m.drop_last());
        match parse_unsigned(m.last().0@, 255) {
            Some(k) => prev.push((k as u8, m.last().1)),
            None => prev,
        }
    }
}

/// The counts with key `k`, in order.
pub open spec fn with_code(items: Seq<(u8, u64)>, k: int) -> Seq<(u8, u64)>
    decreases items.len(),
{
    if items.len() == 0 {
        Seq::empty()
    } else {
        let prev = with_code(items.drop_last(), k);
        if items.last().0 == k {
            prev.push(items.last())
        } else {
            prev
        }
    }
}

/// The counts with keys `k`, `k + 1`, ... up to `n` (excluded), in turn:
/// a stable sort by key, keeping the keys below `n`.
pub open spec fn by_code_from(items: Seq<(u8, u64)>, k: int, n: int) -> Seq<(u8, u64)>
    decreases n - k,
{
    if k >= n {
        Seq::empty()
    } else {
        with_code(items, k) + by_code_from(items, k + 1, n)
    }
}

/// The counts whose key names a value of `T`, as such values, in order.
pub open spec fn coded_counts<T: Coded>(items: Seq<(u8, u64)>) -> Seq<(T, u64)>
    decreases items.len(),
{
    if items.len() == 0 {
        Seq::empty()
    } else {
        let prev = coded_counts::<T>(items.drop_last());
        match T::from_code_spec(items.last().0) {
            Some(t) => prev.push((t, items.last().1)),
            None => prev,
        }
    }
}

/// The facet of `T` in a distribution: the counts listed under `name` whose
/// key reads as the code of a value of `T`, ordered by code (counts with the
/// same code keep their order).
pub open spec fn meili_facet_spec<T: Coded>(
    dist: Seq<(String, Vec<(String, u64)>)>,
    name: Seq<char>,
) -> Seq<(T, u64)> {
    match facet_named(dist, name) {
        Some(m) => coded_counts::<T>(by_code_from(parsed_counts(m), 0, T::code_count() as int)),
        None => Seq::empty(),
    }
}

proof fn lemma_by_code_step(items: Seq<(u8, u64)>, k: int, n: int)
    requires
        0 <= k < n,
    ensures
        by_code_from(items, 0, k + 1) == by_code_from(items, 0, k) + with_code(items, k),
    decreases k,
{
    if k == 0 {
        assert(by_code_from(items, 1, 1) == Seq::<(u8, u64)>::empty());
        assert(by_code_from(items, 0, 0) == Seq::<(u8, u64)>::empty());
        assert(by_code_from(items, 0, 1) =~= with_code(items, 0));
    } else {
        lemma_by_code_prefix(items, 0, k, k + 1);
    }
}

/// Extending the upper bound by one appends the counts of that key.
proof fn lemma_by_code_prefix(items: Seq<(u8, u64)>, j: int, k: int, n: int)
    requires
        0 <= j <= k,
        n == k + 1,
    ensures
        by_code_from(items, j, n) == by_code_from(items, j, k) + with_code(items, k),
    decreases k - j,
{
    if j == k {
        assert(by_code_from(items, k + 1, n) == Seq::<(u8, u64)>::empty());
        assert(by_code_from(items, k, k) == Seq::<(u8, u64)>::empty());
        assert(by_code_from(items, j, n) =~= with_code(items, k));
    } else {
        lemma_by_code_prefix(items, j + 1, k, n);
        assert(by_code_from(items, j, n) == with_code(items, j) + by_code_from(items, j + 1, n));
        assert(by_code_from(items, j, k) == with_code(items, j) + by_code_from(items, j + 1, k));
        assert(by_code_from(items, j, n) =~= by_code_from(items, j, k) + with_code(items, k));
    }
}

/// The first facet called `name`.
fn find_facet<'a>(dist: &'a Vec<(String, Vec<(String, u64)>)>, name: &str) -> (res: Option<
    &'a Vec<(String, u64)>,
>)
    ensures
        match res {
            Some(v) => facet_named(dist@, name@) == Some(v@),
            None => facet_named(dist@, name@) is None,
        },
{
    let n = dist.len();
    assert(dist@.skip(0) == dist@);
    for i in 0..n
        invariant
            n == dist@.len(),
            facet_named(dist@, name@) == facet_named(dist@.skip(i as int), name@),
    {
        let ghost rest = dist@.skip(i as int);
        assert(rest[0] == dist@[i as int]);
        assert(rest.drop_first() == dist@.skip(i + 1));
        if crate::text::str_eq(dist[i].0.as_str(), name) {
            return Some(&dist[i].1);
        }
    }
    assert(dist@.skip(n as int).len() == 0);
    None
}

fn parse_counts(m: &Vec<(String, u64)>) -> (res: Vec<(u8, u64)>)
    ensures
        res@ == parsed_counts(m@),
{
    let mut res: Vec<(u8, u64)> = Vec::new();
    let n = m.len();
    for i in 0..n
        invariant
            n == m@.len(),
            res@ == parsed_counts(m@.take(i as int)),
    {
        assert(m@.take(i + 1).drop_last() == m@.take(i as int));
        assert(m@.take(i + 1).last() == m@[i as int]);
        match parse_decimal(m[i].0.as_str(), 255) {
            Some(k) => res.push((k as u8, m[i].1)),
            None => {},
        }
    }
    assert(m@.take(n as int) == m@);
    res
}

/// The counts of `items` with keys below `n`, ordered by key, ties in the
/// order given.
pub fn order_by_code(items: &Vec<(u8, u64)>, n: u8) -> (res: Vec<(u8, u64)>)
    ensures
        res@ == by_code_from(items@, 0, n as int),
{
    let mut res: Vec<(u8, u64)> = Vec::new();
    let len = items.len();
    assert(by_code_from(items@, 0, 0) == Seq::<(u8, u64)>::empty());
    for k in 0..n
        invariant
            len == items@.len(),
            res@ == by_code_from(items@, 0, k as int),
    {
        let ghost base = res@;
        for j in 0..len
            invariant
                len == items@.len(),
                res@ == base + with_code(items@.take(j as int), k as int),
        {
            assert(items@.take(j + 1).drop_last() == items@.take(j as int));
            assert(items@.take(j + 1).last() == items@[j as int]);
            if items[j].0 == k {
                res.push(items[j]);
                assert(res@ =~= base + with_code(items@.take(j + 1), k as int));
            }
        }
        assert(items@.take(len as int) == items@);
        proof {
            lemma_by_code_step(items@, k as int, n as int);
        }
    }
    res
}

fn coded<T: Coded>(items: &Vec<(u8, u64)>) -> (res: Vec<(T, u64)>)
    ensures
        res@ == coded_counts::<T>(items@),
{
    let mut res: Vec<(T, u64)> = Vec::new();
    let n = items.len();
    for i in 0..n
        invariant
            n == items@.len(),
            res@ == coded_counts::<T>(items@.take(i as int)),
    {
        assert(items@.take(i + 1).drop_last() == items@.take(i as int));
        assert(items@.take(i + 1).last() == items@[i as int]);
        match T::from_code(items[i].0) {
            Some(t) => res.push((t, items[i].1)),
            None => {},
        }
    }
    assert(items@.take(n as int) == items@);
    res
}

fn meili_facet<T: Coded>(dist: &Vec<(String, Vec<(String, u64)>)>, name: &str, count: u8) -> (res:
    Vec<(T, u64)>)
    requires
        count == T::code_count(),
    ensures
        res@ == meili_facet_spec::<T>(dist@, name@),
{
    match find_facet(dist, name) {
        Some(m) => {
            let parsed = parse_counts(m);
            let ordered = order_by_code(&parsed, count);
            coded::<T>(&ordered)
        },
        None => Vec::new(),
    }
}

/// No key occurs twice among the pairs.
pub open spec fn distinct_keys<T>(pairs: Seq<(String, T)>) -> bool {
    forall|i: int, j: int|
        #![trigger pairs[i], pairs[j]]
        0 <= i < j < pairs.len() ==> pairs[i].0@ != pairs[j].0@
}

/// A facet distribution as the index answers it (a map of maps): each facet
/// named once, and each key once within a facet.
pub open spec fn distribution_wf(dist: Seq<(String, Vec<(String, u64)>)>) -> bool {
    &&& distinct_keys(dist)
    &&& forall|i: int| 0 <= i < dist.len() ==> distinct_keys(#[trigger] dist[i].1@)
}

/// Whether no key occurs twice among the pairs.
pub fn has_distinct_keys<T>(pairs: &Vec<(String, T)>) -> (res: bool)
    ensures
        res == distinct_keys(pairs@),
{
    let n = pairs.len();
    for j in 0..n
        invariant
            n == pairs@.len(),
            forall|a: int, b: int|
                #![trigger pairs@[a], pairs@[b]]
                0 <= a < b < j ==> pairs@[a].0@ != pairs@[b].0@,
    {
        for i in 0..j
            invariant
                n == pairs@.len(),
                j < n,
                forall|a: int, b: int|
                    #![trigger pairs@[a], pairs@[b]]
                    0 <= a < b < j ==> pairs@[a].0@ != pairs@[b].0@,
                forall|a: int| 0 <= a < i ==> (#[trigger] pairs@[a]).0@ != pairs@[j as int].0@,
        {
            if crate::text::str_eq(pairs[i].0.as_str(), pairs[j].0.as_str()) {
                assert(pairs@[i as int].0@ == pairs@[j as int].0@);
                return false;
            }
        }
    }
    true
}

/// Whether a facet distribution names each facet once and each key once within a facet.
pub fn is_distribution_wf(dist: &Vec<(String, Vec<(String, u64)>)>) -> (res: bool)
    ensures
        res == distribution_wf(dist@),
{
    if !has_distinct_keys(dist) {
        return false;
    }
    let n = dist.len();
    for i in 0..n
        invariant
            n == dist@.len(),
            forall|k: int| 0 <= k < i ==> distinct_keys(#[trigger] dist@[k].1@),
    {
        if !has_distinct_keys(&dist[i].1) {
            return false;
        }
    }
    true
}

/// The facets of a search-index answer: for each facet, its counts under
/// keys that read as codes, ordered by code.
pub fn parse_meili_facets(dist: &Vec<(String, Vec<(String, u64)>)>) -> (res: ObjectFacets)
    requires
        distribution_wf(dist@),
    ensures
        facets_view(res) == (
            meili_facet_spec::<ObjectType>(dist@, "type"@),
            meili_facet_spec::<ClothingType>(dist@, "clothing_type"@),
            meili_facet_spec::<FurnitureType>(dist@, "furniture_type"@),
            meili_facet_spec::<SceneType>(dist@, "scene_type"@),
            meili_facet_spec::<Gender>(dist@, "genders"@),
        ),
{
    make_facets(
        meili_facet::<ObjectType>(dist, "type", 6),
        meili_facet::<ClothingType>(dist, "clothing_type", 9),
        meili_facet::<FurnitureType>(dist, "furniture_type", 12),
        meili_facet::<SceneType>(dist, "scene_type", 2),
        meili_facet::<Gender>(dist, "genders", 2),
    )
}

/// The counts are ordered by their key.
pub open spec fn sorted_by_key(s: Seq<(u8, u64)>) -> bool {
    forall|i: int, j: int| 0 <= i < j < s.len() ==> s[i].0 <= s[j].0
}

/// The values are ordered by their code.
pub open spec fn sorted_by_code<T: Coded>(s: Seq<(T, u64)>) -> bool {
    forall|i: int, j: int| 0 <= i < j < s.len() ==> s[i].0.code_of() <= s[j].0.code_of()
}

proof fn lemma_with_code_keys(items: Seq<(u8, u64)>, k: int)
    ensures
        forall|i: int| 0 <= i < with_code(items, k).len() ==> (#[trigger] with_code(items, k)[i]).0 == k,
    decreases items.len(),
{
    if items.len() > 0 {
        lemma_with_code_keys(items.drop_last(), k);
        let prev = with_code(items.drop_last(), k);
        let w = with_code(items, k);
        assert forall|i: int| 0 <= i < w.len() implies (#[trigger] w[i]).0 == k by {
            if i < prev.len() {
                assert(w[i] == prev[i]);
            }
        }
    }
}

proof fn lemma_by_code_sorted(items: Seq<(u8, u64)>, k: int, n: int)
    requires
        0 <= k,
    ensures
        sorted_by_key(by_code_from(items, k, n)),
        forall|i: int|
            0 <= i < by_code_from(items, k, n).len() ==> k <= (#[trigger] by_code_from(
                items,
                k,
                n,
            )[i]).0 < n,
    decreases n - k,
{
    if k < n {
        lemma_by_code_sorted(items, k + 1, n);
        lemma_with_code_keys(items, k);
        let a = with_code(items, k);
        let b = by_code_from(items, k + 1, n);
        let s = by_code_from(items, k, n);
        assert(s == a + b);
        assert forall|i: int, j: int| 0 <= i < j < s.len() implies s[i].0 <= s[j].0 by {
            if j < a.len() {
                assert(s[i] == a[i] && s[j] == a[j]);
            } else if i < a.len() {
                assert(s[i] == a[i] && s[j] == b[j - a.len()]);
            } else {
                assert(s[i] == b[i - a.len()] && s[j] == b[j - a.len()]);
            }
        }
        assert forall|i: int| 0 <= i < s.len() implies k <= (#[trigger] s[i]).0 < n by {
            if i < a.len() {
                assert(s[i] == a[i]);
            } else {
                assert(s[i] == b[i - a.len()]);
            }
        }
    }
}

proof fn lemma_coded_sorted<T: Coded>(s: Seq<(u8, u64)>)
    requires
        sorted_by_key(s),
    ensures
        sorted_by_code(coded_counts::<T>(s)),
        s.len() > 0 ==> forall|i: int|
            0 <= i < coded_counts::<T>(s).len() ==> (#[trigger] coded_counts::<T>(s)[i]).0.code_of()
                <= s.last().0,
        s.len() == 0 ==> coded_counts::<T>(s).len() == 0,
    decreases s.len(),
{
    if s.len() > 0 {
        let p = s.drop_last();
        assert(sorted_by_key(p));
        lemma_coded_sorted::<T>(p);
        let c = coded_counts::<T>(s);
        let cp = coded_counts::<T>(p);
        if p.len() > 0 {
            assert(p.last().0 <= s.last().0);
        }
        match T::from_code_spec(s.last().0) {
            Some(t) => {
                T::lemma_code_range(s.last().0);
                assert(c == cp.push((t, s.last().1)));
                assert forall|i: int, j: int| 0 <= i < j < c.len() implies c[i].0.code_of()
                    <= c[j].0.code_of() by {
                    if j < cp.len() {
                        assert(c[i] == cp[i] && c[j] == cp[j]);
                    } else {
                        assert(c[i] == cp[i]);
                    }
                }
                assert forall|i: int| 0 <= i < c.len() implies c[i].0.code_of() <= s.last().0 by {
                    if i < cp.len() {
                        assert(c[i] == cp[i]);
                    }
                }
            },
            None => {
                assert(c == cp);
            },
        }
    }
}

/// The facets built from a search-index answer are ordered by code.
pub proof fn lemma_meili_facets_sorted<T: Coded>(
    dist: Seq<(String, Vec<(String, u64)>)>,
    name: Seq<char>,
)
    ensures
        sorted_by_code(meili_facet_spec::<T>(dist, name)),
{
    match facet_named(dist, name) {
        Some(m) => {
            lemma_by_code_sorted(parsed_counts(m), 0, T::code_count() as int);
            lemma_coded_sorted::<T>(by_code_from(parsed_counts(m), 0, T::code_count() as int));
        },
        None => {},
    }
}

// ---------------------------------------------------------------------------
// Search request and results page
// ---------------------------------------------------------------------------
/// A search request to the index.
pub struct MeiliSearchRequest {
    /// The query text.
    pub q: String,
    /// How many hits to ask for: one more than the page size.
    pub limit: usize,
    /// How many hits to skip.
    pub offset: usize,
    /// The facets to count.
    pub facets: Vec<String>,
    /// The sort rules; left out of the request when empty.
    pub sort: Vec<String>,
    /// The filter clauses; left out of the request when empty.
    pub filter: Vec<String>,
}

/// The answer of the index to a search: the uuids of the hits, in order,
/// and the facet distribution (facet name, then key and count; see
/// `distribution_wf`).
pub struct MeiliSearchResponse {
    pub hits: Vec<String>,
    pub facet_distribution: Vec<(String, Vec<(String, u64)>)>,
}

/// The facets the catalogue counts.
pub open spec fn facet_names() -> Seq<Seq<char>> {
    seq!["type"@, "clothing_type"@, "furniture_type"@, "scene_type"@, "genders"@]
}

/// The offset a search starts at: the one its cursor names, else 0.
pub open spec fn request_offset(after: Option<Seq<char>>) -> int {
    match after {
        Some(a) => match meili_cursor_offset(a) {
            Some(v) => v,
            None => 0,
        },
        None => 0,
    }
}

pub open spec fn opt_text(a: Option<&str>) -> Option<Seq<char>> {
    match a {
        Some(s) => Some(s@),
        None => None,
    }
}

/// The search request for a page of `limit` objects after `after`.
pub fn build_meili_request(input: &ObjectSearchInput, limit: usize, after: Option<&str>) -> (res:
    MeiliSearchRequest)
    requires
        limit < usize::MAX,
    ensures
        res.q@ == match input.query {
            Some(q) => q@,
            None => Seq::empty(),
        },
        res.limit == limit + 1,
        res.offset == request_offset(opt_text(after)),
        texts(res.facets@) == facet_names(),
        texts(res.sort@) == meili_sort_spec(
            match input.sort {
                Some(s) => s,
                None => ObjectSort::Relevance,
            },
        ),
        texts(res.filter@) == meili_filter_spec(*input),
{
    let offset = match after {
        Some(a) => match decode_meili_cursor(a) {
            Some(v) => v,
            None => 0,
        },
        None => 0,
    };
    let sort = match input.sort {
        Some(s) => s,
        None => ObjectSort::Relevance,
    };
    let q = match &input.query {
        Some(q) => q.clone(),
        None => String::new(),
    };
    let mut facets: Vec<String> = Vec::new();
    facets.push(owned("type"));
    facets.push(owned("clothing_type"));
    facets.push(owned("furniture_type"));
    facets.push(owned("scene_type"));
    facets.push(owned("genders"));
    assert(texts(facets@) =~= facet_names());
    MeiliSearchRequest {
        q,
        limit: limit + 1,
        offset,
        facets,
        sort: build_meili_sort(sort),
        filter: build_meili_filter(input),
    }
}

/// The message when the index finds nothing for a first page.
pub open spec fn no_hits_message() -> Seq<char> {
    "Meilisearch returned 0 hits, falling back to MongoDB"@
}

/// The hits of the page: an error when the index finds nothing for a first
/// page; else the first `limit` hits, and whether more hits follow.
pub fn meili_page_hits(hits: &Vec<String>, offset: usize, limit: usize) -> (res: Result<
    (Vec<String>, bool),
    String,
>)
    ensures
        match res {
            Err(msg) => hits@.len() == 0 && offset == 0 && msg@ == no_hits_message(),
            Ok((page, has_next)) => !(hits@.len() == 0 && offset == 0) && has_next == (hits@.len()
                > limit) && texts(page@) == texts(hits@).take(
                if hits@.len() > limit {
                    limit as int
                } else {
                    hits@.len() as int
                },
            ),
        },
{
    if hits.len() == 0 && offset == 0 {
        return Err(owned("Meilisearch returned 0 hits, falling back to MongoDB"));
    }
    let has_next = hits.len() > limit;
    let n = if has_next {
        limit
    } else {
        hits.len()
    };
    let mut page: Vec<String> = Vec::new();
    for i in 0..n
        invariant
            n <= hits@.len(),
            texts(page@) == texts(hits@).take(i as int),
    {
        let h = hits[i].clone();
        assert(h@ == hits@[i as int]@);
        page.push(h);
        assert(texts(page@).drop_last() =~= texts(hits@).take(i as int));
        assert(texts(page@)[i as int] == texts(hits@)[i as int]);
        assert(texts(page@) =~= texts(hits@).take(i + 1));
    }
    Ok((page, has_next))
}

/// The object most recently listed under uuid `u`.
pub open spec fn latest(pool: Seq<Object>, u: Seq<char>) -> Option<Object>
    decreases pool.len(),
{
    if pool.len() == 0 {
        None
    } else {
        match latest(pool.drop_first(), u) {
            Some(o) => Some(o),
            None => if pool[0].uuid@ == u {
                Some(pool[0])
            } else {
                None
            },
        }
    }
}

/// The objects not listed under uuid `u`, in order.
pub open spec fn without(pool: Seq<Object>, u: Seq<char>) -> Seq<Object>
    decreases pool.len(),
{
    if pool.len() == 0 {
        Seq::empty()
    } else {
        let rest = without(pool.drop_first(), u);
        if pool[0].uuid@ != u {
            seq![pool[0]] + rest
        } else {
            rest
        }
    }
}

/// The edges of a search page, as (position, object) pairs: each hit in turn
/// takes the object most recently listed under its uuid out of the pool; a
/// hit whose uuid is not (or no longer) in the pool gives no edge. Positions
/// count from `pos`.
pub open spec fn meili_edges_spec(hits: Seq<Seq<char>>, pool: Seq<Object>, pos: nat) -> Seq<
    (nat, Object),
>
    decreases hits.len(),
{
    if hits.len() == 0 {
        Seq::empty()
    } else {
        let u = hits[0];
        let rest = meili_edges_spec(hits.drop_first(), without(pool, u), pos + 1);
        match latest(pool, u) {
            Some(o) => seq![(pos, o)] + rest,
            None => rest,
        }
    }
}

/// `a` and `b` are the same object, apart from the locale it is read in.
pub open spec fn same_except_locale(a: Object, b: Object) -> bool {
    &&& a.uuid == b.uuid
    &&& a.version == b.version
    &&& a.names == b.names
    &&& a.descriptions == b.descriptions
    &&& a.maker == b.maker
    &&& a.images == b.images
    &&& a.data == b.data
    &&& a.entitlements == b.entitlements
    &&& a.legal == b.legal
    &&& a.heat == b.heat
    &&& a.timestamp == b.timestamp
    &&& a.metadata == b.metadata
}

/// `e` is the edge for the object `o` at position `pos`, read in `locale`.
pub open spec fn is_meili_edge(e: ObjectEdge, pos: nat, o: Object, locale: Locale) -> bool {
    &&& e.cursor@ == meili_cursor(pos)
    &&& meili_cursor_offset(e.cursor@) == Some(pos as int)
    &&& same_except_locale(e.node, o)
    &&& e.node.for_locale@ == locale_code(locale)
}

proof fn lemma_latest(pool: Seq<Object>, u: Seq<char>)
    ensures
        latest(pool, u) matches Some(o) ==> pool.contains(o) && o.uuid@ == u,
    decreases pool.len(),
{
    if pool.len() > 0 {
        let rest = pool.drop_first();
        lemma_latest(rest, u);
        match latest(rest, u) {
            Some(o) => {
                let k = choose|k: int| 0 <= k < rest.len() && rest[k] == o;
                assert(pool[k + 1] == o);
            },
            None => {
                if pool[0].uuid@ == u {
                    assert(pool[0] == pool[0]);
                }
            },
        }
    }
}

proof fn lemma_without(pool: Seq<Object>, u: Seq<char>)
    ensures
        forall|i: int|
            0 <= i < without(pool, u).len() ==> (#[trigger] without(pool, u)[i]).uuid@ != u
                && pool.contains(without(pool, u)[i]),
    decreases pool.len(),
{
    if pool.len() > 0 {
        let rest = pool.drop_first();
        lemma_without(rest, u);
        let w = without(pool, u);
        let wr = without(rest, u);
        assert forall|i: int| 0 <= i < w.len() implies (#[trigger] w[i]).uuid@ != u && pool.contains(
            w[i],
        ) by {
            if pool[0].uuid@ != u {
                if i == 0 {
                    assert(w[0] == pool[0]);
                } else {
                    assert(w[i] == wr[i - 1]);
                    let k = choose|k: int| 0 <= k < rest.len() && rest[k] == wr[i - 1];
                    assert(pool[k + 1] == w[i]);
                }
            } else {
                assert(w[i] == wr[i]);
                let k = choose|k: int| 0 <= k < rest.len() && rest[k] == wr[i];
                assert(pool[k + 1] == w[i]);
            }
        }
    }
}

/// A search page holds each object at most once: every edge holds an object
/// of the pool listed under the uuid of its hit, positions increase along the
/// page, and no two edges hold objects with the same uuid.
pub proof fn lemma_meili_edges_distinct(hits: Seq<Seq<char>>, pool: Seq<Object>, pos: nat)
    ensures
        ({
            let edges = meili_edges_spec(hits, pool, pos);
            &&& forall|i: int| 0 <= i < edges.len() ==> pool.contains(#[trigger] edges[i].1)
            &&& forall|i: int|
                0 <= i < edges.len() ==> pos <= (#[trigger] edges[i]).0 < pos + hits.len()
                    && edges[i].1.uuid@ == hits[edges[i].0 - pos]
            &&& forall|i: int, j: int|
                0 <= i < j < edges.len() ==> (#[trigger] edges[i]).0 < (#[trigger] edges[j]).0
                    && edges[i].1.uuid@ != edges[j].1.uuid@
        }),
    decreases hits.len(),
{
    if hits.len() > 0 {
        let u = hits[0];
        let smaller = without(pool, u);
        let tail = hits.drop_first();
        lemma_meili_edges_distinct(tail, smaller, pos + 1);
        lemma_without(pool, u);
        lemma_latest(pool, u);
        let rest = meili_edges_spec(tail, smaller, pos + 1);
        let edges = meili_edges_spec(hits, pool, pos);
        assert forall|i: int| 0 <= i < rest.len() implies pool.contains(#[trigger] rest[i].1)
            && rest[i].1.uuid@ != u by {
            assert(smaller.contains(rest[i].1));
            let k = choose|k: int| 0 <= k < smaller.len() && smaller[k] == rest[i].1;
            assert(smaller[k].uuid@ != u && pool.contains(smaller[k]));
        }
        assert forall|i: int| 0 <= i < rest.len() implies hits[(#[trigger] rest[i]).0 - pos]
            == tail[rest[i].0 - (pos + 1)] by {
        }
        match latest(pool, u) {
            Some(o) => {
                assert(edges == seq![(pos, o)] + rest);
                assert forall|i: int| 0 <= i < edges.len() implies pool.contains(
                    #[trigger] edges[i].1,
                ) by {
                    if i > 0 {
                        assert(edges[i] == rest[i - 1]);
                    }
                }
                assert forall|i: int|
                    0 <= i < edges.len() implies pos <= (#[trigger] edges[i]).0 < pos + hits.len()
                    && edges[i].1.uuid@ == hits[edges[i].0 - pos] by {
                    if i > 0 {
                        assert(edges[i] == rest[i - 1]);
                    }
                }
                assert forall|i: int, j: int| 0 <= i < j < edges.len() implies (
                #[trigger] edges[i]).0 < (#[trigger] edges[j]).0 && edges[i].1.uuid@
                    != edges[j].1.uuid@ by {
                    assert(edges[j] == rest[j - 1]);
                    if i > 0 {
                        assert(edges[i] == rest[i - 1]);
                    }
                }
            },
            None => {
                assert(edges == rest);
            },
        }
    }
}

/// Search pagination continues after an edge: the request for the page after
/// an edge's cursor starts at that edge's position, so its first hit is the
/// one after the edge's hit.
pub proof fn lemma_meili_cursor_continues_after(e: ObjectEdge, pos: nat, o: Object, locale: Locale)
    requires
        is_meili_edge(e, pos, o, locale),
    ensures
        request_offset(Some(e.cursor@)) == pos,
{
}

/// Takes the object most recently listed under `u` out of the pool, and
/// every other object listed under it.
fn take_latest(pool: &mut Vec<Object>, u: &String) -> (res: Option<Object>)
    ensures
        res == latest(old(pool)@, u@),
        final(pool)@ == without(old(pool)@, u@),
{
    let ghost all = pool@;
    let mut taken: Option<Object> = None;
    let mut m: usize = pool.len();
    assert(all.skip(m as int) =~= Seq::<Object>::empty());
    assert(all.take(m as int) == all);
    assert(pool@ =~= all.take(m as int) + without(all.skip(m as int), u@));
    while m > 0
        invariant
            m <= all.len(),
            pool@ == all.take(m as int) + without(all.skip(m as int), u@),
            taken == latest(all.skip(m as int), u@),
        decreases m,
    {
        let k = m - 1;
        let ghost tail = all.skip(k as int);
        assert(tail[0] == all[k as int]);
        assert(tail.drop_first() == all.skip(m as int));
        assert(pool@[k as int] == all[k as int]);
        if pool[k].uuid == *u {
            let x = pool.remove(k);
            assert(pool@ =~= all.take(k as int) + without(all.skip(m as int), u@));
            if taken.is_none() {
                taken = Some(x);
            }
        } else {
            assert(pool@ =~= all.take(k as int) + (seq![all[k as int]] + without(
                all.skip(m as int),
                u@,
            )));
        }
        m = k;
    }
    assert(all.skip(0) == all);
    assert(all.take(0) =~= Seq::<Object>::empty());
    taken
}

/// The edges of a search page: for the hits of the page in order, the
/// objects the database returned for them, read in `locale`, each with the
/// cursor of its position (counted from `offset + 1`).
pub fn meili_edges(page_hits: &Vec<String>, offset: usize, hydrated: Vec<Object>, locale: Locale) -> (res:
    Vec<ObjectEdge>)
    requires
        offset + page_hits@.len() <= usize::MAX,
    ensures
        ({
            let spec_edges = meili_edges_spec(texts(page_hits@), hydrated@, (offset + 1) as nat);
            &&& res@.len() == spec_edges.len()
            &&& forall|i: int|
                0 <= i < res@.len() ==> is_meili_edge(
                    #[trigger] res@[i],
                    spec_edges[i].0,
                    spec_edges[i].1,
                    locale,
                )
        }),
{
    let ghost hits = texts(page_hits@);
    let ghost all = meili_edges_spec(hits, hydrated@, (offset + 1) as nat);
    let mut pool = hydrated;
    let mut edges: Vec<ObjectEdge> = Vec::new();
    let n = page_hits.len();
    assert(hits.skip(0) == hits);
    for i in 0..n
        invariant
            n == page_hits@.len(),
            hits == texts(page_hits@),
            offset + n <= usize::MAX,
            all == all.take(edges@.len() as int) + meili_edges_spec(
                hits.skip(i as int),
                pool@,
                (offset + i + 1) as nat,
            ),
            edges@.len() <= all.len(),
            forall|t: int|
                0 <= t < edges@.len() ==> is_meili_edge(
                    #[trigger] edges@[t],
                    all[t].0,
                    all[t].1,
                    locale,
                ),
    {
        let ghost rest_hits = hits.skip(i as int);
        assert(rest_hits[0] == page_hits@[i as int]@);
        assert(rest_hits.drop_first() == hits.skip(i + 1));
        let ghost before = pool@;
        let taken = take_latest(&mut pool, &page_hits[i]);
        match taken {
            Some(mut obj) => {
                let ghost orig = obj;
                obj.for_locale = locale.to_string();
                let cursor = encode_meili_cursor(offset + i + 1);
                let ghost k = edges@.len() as int;
                proof {
                    assert(meili_edges_spec(rest_hits, before, (offset + i + 1) as nat) == seq![
                        ((offset + i + 1) as nat, orig),
                    ] + meili_edges_spec(hits.skip(i + 1), pool@, (offset + i + 2) as nat));
                    assert(all[k] == ((offset + i + 1) as nat, orig));
                    assert(all.take(k + 1) =~= all.take(k).push(all[k]));
                }
                edges.push(ObjectEdge { cursor, node: obj });
                assert(all =~= all.take(edges@.len() as int) + meili_edges_spec(
                    hits.skip(i + 1),
                    pool@,
                    (offset + i + 2) as nat,
                ));
            },
            None => {},
        }
    }
    assert(hits.skip(n as int).len() == 0);
    assert(all.take(edges@.len() as int) == all);
    edges
}

/// The page built from the index's answer: its edges (see `meili_edges`), a
/// previous page when the offset is not 0, the start and end cursors of the
/// first and last edge, and the facets of the distribution.
pub fn meili_connection(
    page_hits: &Vec<String>,
    has_next_page: bool,
    offset: usize,
    hydrated: Vec<Object>,
    locale: Locale,
    dist: &Vec<(String, Vec<(String, u64)>)>,
) -> (res: ObjectConnection)
    requires
        offset + page_hits@.len() <= usize::MAX,
        distribution_wf(dist@),
    ensures
        ({
            let spec_edges = meili_edges_spec(texts(page_hits@), hydrated@, (offset + 1) as nat);
            &&& res.edges@.len() == spec_edges.len()
            &&& forall|i: int|
                0 <= i < res.edges@.len() ==> is_meili_edge(
                    #[trigger] res.edges@[i],
                    spec_edges[i].0,
                    spec_edges[i].1,
                    locale,
                )
        }),
        res.page_info.has_next_page == has_next_page,
        res.page_info.has_previous_page == (offset > 0),
        res.page_info.start_cursor == if res.edges@.len() > 0 {
            Some(res.edges@[0].cursor)
        } else {
            None
        },
        res.page_info.end_cursor == if res.edges@.len() > 0 {
            Some(res.edges@.last().cursor)
        } else {
            None
        },
        res.facets matches Some(f) && facets_view(f) == (
            meili_facet_spec::<ObjectType>(dist@, "type"@),
            meili_facet_spec::<ClothingType>(dist@, "clothing_type"@),
            meili_facet_spec::<FurnitureType>(dist@, "furniture_type"@),
            meili_facet_spec::<SceneType>(dist@, "scene_type"@),
            meili_facet_spec::<Gender>(dist@, "genders"@),
        ),
{
    let edges = meili_edges(page_hits, offset, hydrated, locale);
    let facets = parse_meili_facets(dist);
    assemble_connection(edges, has_next_page, offset > 0, facets)
}

// ---------------------------------------------------------------------------
// Initial synchronisation from the database
// ---------------------------------------------------------------------------
/// Whether a catalogue page is asked of the search index first (the database
/// answers when the index fails): exactly when an index address is set and
/// is not blank.
pub fn use_search_index(meili_url: Option<&str>) -> (res: bool)
    ensures
        res == (meili_url matches Some(u) && !is_blank(u@)),
{
    match meili_url {
        Some(u) => !blank(u),
        None => false,
    }
}

/// Whether the index must be filled from the database: unless the database
/// has objects and the index already holds at least as many documents.
pub fn meili_needs_sync(mongo_count: u64, meili_count: u64) -> (res: bool)
    ensures
        res == !(mongo_count > 0 && meili_count >= mongo_count),
{
    !(mongo_count > 0 && meili_count >= mongo_count)
}

/// How many documents are sent to the index at once.
pub const SYNC_BATCH_SIZE: usize = 5000;

/// Groups the documents of a synchronisation into batches of
/// `SYNC_BATCH_SIZE`, counting the documents handed out.
pub struct SyncBatcher {
    pending: Vec<MeiliDocument>,
    total: usize,
    seen: Ghost<Seq<MeiliDocument>>,
    sent: Ghost<Seq<MeiliDocument>>,
}

impl SyncBatcher {
    /// Every document pushed is either handed out in a batch or pending, in
    /// the order pushed; fewer than a batch are pending; the count is that of
    /// the documents handed out.
    pub closed spec fn wf(&self) -> bool {
        &&& self.sent@ + self.pending@ == self.seen@
        &&& self.pending@.len() < SYNC_BATCH_SIZE
        &&& self.total == self.sent@.len()
    }

    /// The documents pushed so far.
    pub closed spec fn seen(&self) -> Seq<MeiliDocument> {
        self.seen@
    }

    /// The documents handed out so far.
    pub closed spec fn sent(&self) -> Seq<MeiliDocument> {
        self.sent@
    }

    /// An empty batcher.
    pub fn new() -> (res: Self)
        ensures
            res.wf(),
            res.seen() == Seq::<MeiliDocument>::empty(),
            res.sent() == Seq::<MeiliDocument>::empty(),
    {
        SyncBatcher {
            pending: Vec::new(),
            total: 0,
            seen: Ghost(Seq::empty()),
            sent: Ghost(Seq::empty()),
        }
    }

    /// How many documents were handed out so far.
    pub fn total(&self) -> (res: usize)
        requires
            self.wf(),
        ensures
            res == self.sent().len(),
    {
        self.total
    }

    /// Adds a document; hands out a full batch when the pending documents
    /// reach the batch size.
    pub fn push(&mut self, doc: MeiliDocument) -> (res: Option<Vec<MeiliDocument>>)
        requires
            old(self).wf(),
            old(self).sent().len() + SYNC_BATCH_SIZE <= usize::MAX,
        ensures
            final(self).wf(),
            final(self).seen() == old(self).seen().push(doc),
            res is Some <==> old(self).seen().len() + 1 - old(self).sent().len() == SYNC_BATCH_SIZE,
            match res {
                Some(batch) => batch@.len() == SYNC_BATCH_SIZE && final(self).sent() == old(
                    self,
                ).sent() + batch@,
                None => final(self).sent() == old(self).sent(),
            },
    {
        self.pending.push(doc);
        self.seen = Ghost(self.seen@.push(doc));
        if self.pending.len() >= SYNC_BATCH_SIZE {
            let mut batch: Vec<MeiliDocument> = Vec::new();
            std::mem::swap(&mut batch, &mut self.pending);
            self.total = self.total + batch.len();
            self.sent = Ghost(self.sent@ + batch@);
            assert(self.sent@ + self.pending@ =~= self.seen@);
            Some(batch)
        } else {
            assert(self.sent@ + self.pending@ =~= self.seen@);
            None
        }
    }

    /// Hands out the last, partial batch (if any documents are pending) and
    /// the number of documents handed out in all. Every document pushed has
    /// then been handed out exactly once, in order.
    pub fn finish(self) -> (res: (Option<Vec<MeiliDocument>>, usize))
        requires
            self.wf(),
            self.seen().len() <= usize::MAX,
        ensures
            match res.0 {
                Some(batch) => batch@.len() > 0 && self.sent() + batch@ == self.seen(),
                None => self.sent() == self.seen(),
            },
            res.1 == self.seen().len(),
    {
        let SyncBatcher { pending, total, seen, sent } = self;
        if pending.len() > 0 {
            let t = total + pending.len();
            (Some(pending), t)
        } else {
            assert(sent@ + pending@ =~= sent@);
            (None, total)
        }
    }
}

// ---------------------------------------------------------------------------
// Index settings
// ---------------------------------------------------------------------------
/// The settings of the catalogue's index.
pub struct MeiliIndexSettings {
    /// Where the query text is looked for, in order of weight.
    pub searchable_attributes: Vec<String>,
    /// What the filter clauses may name.
    pub filterable_attributes: Vec<String>,
    /// What the sort rules may name.
    pub sortable_attributes: Vec<String>,
    /// How many hits a search can reach.
    pub max_total_hits: u64,
    /// Whether misspelt words match.
    pub typo_tolerance: bool,
    /// The shortest word that may hold one typo.
    pub one_typo_min_word_size: u64,
    /// The shortest word that may hold two typos.
    pub two_typos_min_word_size: u64,
}

pub open spec fn searchable_spec() -> Seq<Seq<char>> {
    seq!["name"@, "names"@, "description"@, "descriptions"@, "maker"@, "makers"@, "uuid"@]
}

pub open spec fn sortable_spec() -> Seq<Seq<char>> {
    seq!["name"@, "timestamp"@]
}

/// The settings of the catalogue's index: the document texts and the uuid
/// are searchable; the metadata codes filterable; name and timestamp
/// sortable; up to 200000 hits; typo tolerance from words of 4 letters (one
/// typo) and 8 letters (two typos).
pub fn meili_index_settings() -> (res: MeiliIndexSettings)
    ensures
        texts(res.searchable_attributes@) == searchable_spec(),
        texts(res.filterable_attributes@) == facet_names(),
        texts(res.sortable_attributes@) == sortable_spec(),
        res.max_total_hits == 200000,
        res.typo_tolerance,
        res.one_typo_min_word_size == 4,
        res.two_typos_min_word_size == 8,
{
    let mut searchable: Vec<String> = Vec::new();
    searchable.push(owned("name"));
    searchable.push(owned("names"));
    searchable.push(owned("description"));
    searchable.push(owned("descriptions"));
    searchable.push(owned("maker"));
    searchable.push(owned("makers"));
    searchable.push(owned("uuid"));
    let mut filterable: Vec<String> = Vec::new();
    filterable.push(owned("type"));
    filterable.push(owned("clothing_type"));
    filterable.push(owned("furniture_type"));
    filterable.push(owned("scene_type"));
    filterable.push(owned("genders"));
    let mut sortable: Vec<String> = Vec::new();
    sortable.push(owned("name"));
    sortable.push(owned("timestamp"));
    assert(texts(searchable@) =~= searchable_spec());
    assert(texts(filterable@) =~= facet_names());
    assert(texts(sortable@) =~= sortable_spec());
    MeiliIndexSettings {
        searchable_attributes: searchable,
        filterable_attributes: filterable,
        sortable_attributes: sortable,
        max_total_hits: 200000,
        typo_tolerance: true,
        one_typo_min_word_size: 4,
        two_typos_min_word_size: 8,
    }
}

} // verus!
