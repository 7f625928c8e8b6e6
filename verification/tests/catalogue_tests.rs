use catalogue::meili::{has_distinct_keys, is_distribution_wf, use_search_index};
use catalogue::object::{has_ascending_tags, text_before};
use catalogue::api::{index_plan, StoredCollection};
use catalogue::auth::{claims_subject, issue_token, token_subject, user_claims};
use catalogue::codec::{decode_cursor, encode_cursor};
use catalogue::collection::{
    check_collection_size, check_objects_found, collection_missing_error, new_collection,
    Timestamp,
};
use catalogue::meili::{
    build_meili_filter, build_meili_request, build_meili_sort, decode_meili_cursor,
    documents_to_index, encode_meili_cursor, extract_localized_strings, meili_connection,
    meili_index_settings, meili_needs_sync, meili_page_hits, parse_meili_facets, MeiliDocument,
    SyncBatcher,
};
use catalogue::object::{
    all_match, any_match, classify_entitlements, last_piece, AgeRating, ClothingType, Coded,
    EntitlementEntry, Entitlements, FurnitureType, Gender, Legal, Locale, LocalizedEntry,
    Metadata, Object, ObjectType, SceneType, Type, Version,
};
use catalogue::schema::{
    build_object_match, build_sort_and_cursor, database_page, empty_connection,
    escape_mongo_regex, facets_from_counts, get_sort_value, page_limit, page_size, random_sample_size,
    search_window, split_page, CursorFilter, FacetCounts, FacetItem, FacetNumber,
    MatchCondition, ObjectSearchInput, ObjectSort,
};
use catalogue::text::{blank, decimal_string, parse_decimal, trim};

fn entry(default: Option<&str>, localized: &[(&str, &str)]) -> LocalizedEntry<String> {
    LocalizedEntry {
        default: default.map(|s| s.to_string()),
        localized: if localized.is_empty() {
            None
        } else {
            Some(localized.iter().map(|(k, v)| (k.to_string(), v.to_string())).collect())
        },
    }
}

fn object(uuid: &str) -> Object {
    Object {
        uuid: uuid.to_string(),
        version: Version { odc: "1".to_string(), hdk: None, object: None },
        names: None,
        descriptions: None,
        maker: None,
        images: None,
        data: None,
        entitlements: None,
        legal: None,
        heat: None,
        timestamp: None,
        metadata: None,
        for_locale: "default".to_string(),
    }
}

fn with_entitlements(uuid: &str, values: &[&str]) -> Object {
    let mut o = object(uuid);
    o.entitlements = Some(Entitlements {
        entitlement_id: Some(
            values
                .iter()
                .map(|v| EntitlementEntry { territory: "US".to_string(), value: v.to_string() })
                .collect(),
        ),
        category_id: None,
        product_id: None,
    });
    o
}

// ---------------------------------------------------------------------------
// Tests carried over
// ---------------------------------------------------------------------------

#[test]
fn test_encode_decode_meili_cursor() {
    let cursor = encode_meili_cursor(42);
    let decoded = decode_meili_cursor(&cursor);
    assert_eq!(decoded, Some(42));
}

#[test]
fn test_decode_invalid_cursor() {
    assert_eq!(decode_meili_cursor("!!!"), None);
}

#[test]
fn test_build_meili_filter_empty() {
    let input = ObjectSearchInput::default();
    assert!(build_meili_filter(&input).is_empty());
}

#[test]
fn test_escape_mongo_regex() {
    assert_eq!(escape_mongo_regex("hello world"), "hello world");
    assert_eq!(escape_mongo_regex("item (v1.0) [bundle]"), "item \\(v1\\.0\\) \\[bundle\\]");
}

#[test]
fn test_encode_decode_cursor() {
    let cursor = encode_cursor("Shirt", "uuid-1234");
    let decoded = decode_cursor(&cursor);
    assert_eq!(decoded, Some(("Shirt".to_string(), "uuid-1234".to_string())));
}

#[test]
fn test_build_object_match_empty() {
    let input = ObjectSearchInput::default();
    let doc = build_object_match(&input);
    assert!(doc.is_empty());
}

#[test]
fn test_build_object_match_query_and_types() {
    let input = ObjectSearchInput {
        query: Some("Hat".to_string()),
        types: Some(vec![ObjectType::Clothing]),
        clothing_types: Some(vec![ClothingType::Hat]),
        ..Default::default()
    };
    let doc = build_object_match(&input);
    assert!(doc.contains_key("$or"));
    assert!(doc.contains_key("metadata.type"));
    assert!(doc.contains_key("metadata.clothing_type"));
}

// ---------------------------------------------------------------------------
// Text and numbers
// ---------------------------------------------------------------------------

#[test]
fn decimal_formatting_and_parsing() {
    assert_eq!(decimal_string(0), "0");
    assert_eq!(decimal_string(1234567890), "1234567890");
    assert_eq!(decimal_string(u64::MAX), "18446744073709551615");
    assert_eq!(parse_decimal("+42", 255), Some(42));
    assert_eq!(parse_decimal("007", 255), Some(7));
    assert_eq!(parse_decimal("255", 255), Some(255));
    assert_eq!(parse_decimal("256", 255), None);
    assert_eq!(parse_decimal("", 255), None);
    assert_eq!(parse_decimal("+", 255), None);
    assert_eq!(parse_decimal("-1", 255), None);
    assert_eq!(parse_decimal("1a", 255), None);
    assert_eq!(parse_decimal("18446744073709551615", u64::MAX), Some(u64::MAX));
    assert_eq!(parse_decimal("18446744073709551616", u64::MAX), None);
}

#[test]
fn trimming_and_blank_text() {
    assert_eq!(trim("  Hat \t\n"), "Hat");
    assert_eq!(trim("\u{3000}x\u{00A0}"), "x");
    assert!(blank(" \t\u{2003} "));
    assert!(blank(""));
    assert!(!blank(" a "));
}

#[test]
fn escaping_every_special_character() {
    assert_eq!(escape_mongo_regex("a\\b^$.|?*+()[]{}"), "a\\\\b\\^\\$\\.\\|\\?\\*\\+\\(\\)\\[\\]\\{\\}");
    assert_eq!(escape_mongo_regex(""), "");
}

// ---------------------------------------------------------------------------
// Cursors
// ---------------------------------------------------------------------------

#[test]
fn meili_cursor_values() {
    assert_eq!(encode_meili_cursor(42), "NDI");
    assert_eq!(decode_meili_cursor(&encode_meili_cursor(0)), Some(0));
    assert_eq!(decode_meili_cursor(&encode_meili_cursor(usize::MAX)), Some(usize::MAX));
    // "abc" is valid base64 of text that is not a number
    assert_eq!(decode_meili_cursor("YWJj"), None);
    // "+5" parses as 5
    assert_eq!(decode_meili_cursor("KzU"), Some(5));
}

#[test]
fn keyset_cursor_edge_cases() {
    assert_eq!(encode_cursor("Shirt", "uuid-1234"), "U2hpcnQAdXVpZC0xMjM0");
    // no separator: read as a bare uuid
    assert_eq!(decode_cursor("dXVpZA"), Some((String::new(), "uuid".to_string())));
    // two separators: read as a bare uuid holding the whole text
    let c = encode_cursor("a\u{0}b", "c");
    assert_eq!(decode_cursor(&c), Some((String::new(), "a\u{0}b\u{0}c".to_string())));
    assert_eq!(decode_cursor(&encode_cursor("", "u")), Some((String::new(), "u".to_string())));
    assert_eq!(decode_cursor("!!!"), None);
    // valid base64, invalid UTF-8
    assert_eq!(decode_cursor("_w"), None);
}

// ---------------------------------------------------------------------------
// Enumerations and locales
// ---------------------------------------------------------------------------

#[test]
fn enum_codes_round_trip() {
    for c in 0u8..=255 {
        match ObjectType::try_from(c) {
            Ok(t) => assert_eq!(t.code(), c),
            Err(()) => assert!(c >= 6),
        }
        match ClothingType::try_from(c) {
            Ok(t) => assert_eq!(t.code(), c),
            Err(()) => assert!(c >= 9),
        }
        match FurnitureType::try_from(c) {
            Ok(t) => assert_eq!(t.code(), c),
            Err(()) => assert!(c >= 12),
        }
        assert_eq!(Gender::try_from(c).is_ok(), c < 2);
        assert_eq!(SceneType::try_from(c).is_ok(), c < 2);
    }
    assert_eq!(ObjectType::try_from(3u8), Ok(ObjectType::Scene));
    assert_eq!(FurnitureType::try_from(11u8), Ok(FurnitureType::Table));
    assert_eq!(Gender::Female.code(), 1);
}

#[test]
fn locale_text_forms() {
    assert_eq!(Locale::from("en-GB".to_string()), Locale::BritishEnglish);
    assert_eq!(Locale::from("zh-TW".to_string()), Locale::TaiwaneseChinese);
    assert_eq!(Locale::from("xx-XX".to_string()), Locale::Default);
    assert_eq!(Locale::from("default".to_string()), Locale::Default);
    assert_eq!(Locale::Korean.to_string(), "ko-KR");
    assert_eq!(Locale::Default.to_string(), "default");
    assert_eq!(Locale::Italian.path(), "localized.it-IT");
    assert_eq!(Locale::Default.path(), "default");
    assert_eq!(Locale::HongKongChinese.iso_code(), "HK");
    assert_eq!(Locale::Default.iso_code(), "default");
    let all = [
        Locale::BritishEnglish,
        Locale::AmericanEnglish,
        Locale::SingaporeEnglish,
        Locale::Italian,
        Locale::German,
        Locale::Spanish,
        Locale::French,
        Locale::Japanese,
        Locale::Korean,
        Locale::HongKongChinese,
        Locale::TaiwaneseChinese,
        Locale::Default,
    ];
    for l in all {
        assert_eq!(Locale::from(l.to_string()), l);
    }
    assert_eq!(last_piece("a-b-c", '-'), "c");
    assert_eq!(last_piece("abc", '-'), "abc");
    assert_eq!(last_piece("abc-", '-'), "");
}

// ---------------------------------------------------------------------------
// Objects
// ---------------------------------------------------------------------------

#[test]
fn localized_fields_follow_the_locale() {
    let mut o = object("u1");
    o.names = Some(entry(Some("Hat"), &[("en-US", "Cap"), ("it-IT", "Cappello")]));
    o.legal = Some(Legal {
        age_rating: Some(LocalizedEntry {
            default: Some(AgeRating { minimum_age: 3, parental_control_level: 1 }),
            localized: Some(vec![(
                "en-US".to_string(),
                AgeRating { minimum_age: 12, parental_control_level: 5 },
            )]),
        }),
    });
    assert_eq!(o.name(), Some("Hat".to_string()));
    assert_eq!(o.legal(), Some(AgeRating { minimum_age: 3, parental_control_level: 1 }));
    o.set_locale(Some(Locale::AmericanEnglish));
    assert_eq!(o.for_locale, "en-US");
    assert_eq!(o.name(), Some("Cap".to_string()));
    assert_eq!(o.legal(), Some(AgeRating { minimum_age: 12, parental_control_level: 5 }));
    o.set_locale(Some(Locale::German));
    assert_eq!(o.name(), None);
    assert_eq!(o.description(), None);
    assert_eq!(o.maker(), None);
    assert_eq!(o.legal(), None);
    o.set_locale(None);
    assert_eq!(o.for_locale, "default");
}

#[test]
fn object_type_classification() {
    assert_eq!(object("a").object_type(), Some(Type::Other));
    assert_eq!(with_entitlements("b", &["LUA_REWARD"]).object_type(), Some(Type::Reward));
    assert_eq!(
        with_entitlements("c", &["UP9000-NPUQ00020_00", "AUTOMATIC_REWARD"]).object_type(),
        Some(Type::Reward)
    );
    assert_eq!(
        with_entitlements("d", &["UP9000-NPUQ00020_00", "EP9000-NPEA00013_00-ABCDEF"])
            .object_type(),
        Some(Type::Premium)
    );
    assert_eq!(
        with_entitlements("e", &["UP9000-NPUQ00020_00", "FREE"]).object_type(),
        Some(Type::Other)
    );
    // an empty list: every value (none) is premium
    assert_eq!(with_entitlements("f", &[]).object_type(), Some(Type::Premium));
    let mut g = object("g");
    g.entitlements = Some(Entitlements { entitlement_id: None, category_id: None, product_id: None });
    assert_eq!(g.object_type(), Some(Type::Other));
    assert_eq!(Type::default(), Type::Other);
}

#[test]
fn classification_from_outcomes() {
    assert_eq!(classify_entitlements(&vec![Some(false), Some(true)], &vec![None]), Some(Type::Reward));
    assert_eq!(classify_entitlements(&vec![None, Some(true)], &vec![]), None);
    assert_eq!(classify_entitlements(&vec![Some(false)], &vec![Some(true)]), Some(Type::Premium));
    assert_eq!(classify_entitlements(&vec![Some(false)], &vec![Some(false), None]), Some(Type::Other));
    assert_eq!(classify_entitlements(&vec![Some(false)], &vec![Some(true), None]), None);
    assert_eq!(any_match(&vec![]), Some(false));
    assert_eq!(all_match(&vec![]), Some(true));
}

#[test]
fn bundle_detection() {
    let mut o = object("b");
    assert_eq!(o.bundle(), Some(false));
    o.names = Some(entry(Some("Starter PACK"), &[]));
    assert_eq!(o.bundle(), Some(true));
    o.names = Some(entry(Some("Chair"), &[]));
    o.descriptions = Some(entry(Some("Part of the lounge set"), &[]));
    assert_eq!(o.bundle(), Some(true));
    o.descriptions = Some(entry(Some("A chair"), &[]));
    assert_eq!(o.bundle(), Some(false));
}

// ---------------------------------------------------------------------------
// Search index
// ---------------------------------------------------------------------------

#[test]
fn localized_strings_are_deduplicated() {
    let e = entry(Some("Hat"), &[("de-DE", "Hut"), ("en-GB", "Hat"), ("en-US", "  "), ("fr-FR", "Chapeau"), ("it-IT", "Hut")]);
    let (d, all) = extract_localized_strings(Some(&e));
    assert_eq!(d, "Hat");
    assert_eq!(all, vec!["Hat".to_string(), "Hut".to_string(), "Chapeau".to_string()]);
    let blank_default = entry(Some(" "), &[]);
    let (d, all) = extract_localized_strings(Some(&blank_default));
    assert_eq!(d, " ");
    assert!(all.is_empty());
    let (d, all) = extract_localized_strings(None);
    assert_eq!(d, "");
    assert!(all.is_empty());
}

#[test]
fn meili_document_of_an_object() {
    let mut o = object("u9");
    o.timestamp = Some("1700000000".to_string());
    o.names = Some(entry(Some("Hat"), &[("it-IT", "Cappello")]));
    o.metadata = Some(Metadata {
        object_type: ObjectType::Clothing,
        bundle: None,
        furniture_type: None,
        clothing_type: Some(ClothingType::Feet),
        genders: Some(vec![Gender::Female, Gender::Male]),
        scene_type: None,
    });
    let d = MeiliDocument::from_object(&o);
    assert_eq!(d.uuid, "u9");
    assert_eq!(d.timestamp, 1700000000);
    assert_eq!(d.name, "Hat");
    assert_eq!(d.names, vec!["Hat".to_string(), "Cappello".to_string()]);
    assert_eq!(d.description, "");
    assert!(d.descriptions.is_empty());
    assert_eq!(d.object_type, 0);
    assert_eq!(d.clothing_type, Some(7));
    assert_eq!(d.furniture_type, None);
    assert_eq!(d.genders, vec![1, 0]);
    let mut bare = object("u10");
    bare.timestamp = Some("yesterday".to_string());
    let d = MeiliDocument::from_object(&bare);
    assert_eq!(d.timestamp, 0);
    assert_eq!(d.object_type, 5);
    assert!(d.genders.is_empty());
}

#[test]
fn documents_to_index_need_objects_and_an_address() {
    let objs = vec![object("a"), object("b")];
    assert!(documents_to_index(" ", &objs).is_none());
    assert!(documents_to_index("http://search", &vec![]).is_none());
    let docs = documents_to_index("http://search", &objs).unwrap();
    assert_eq!(docs.len(), 2);
    assert_eq!(docs[1].uuid, "b");
}

#[test]
fn meili_filter_and_sort() {
    let input = ObjectSearchInput {
        types: Some(vec![ObjectType::Clothing, ObjectType::Scene]),
        furniture_types: Some(vec![]),
        genders: Some(vec![Gender::Female]),
        ..Default::default()
    };
    assert_eq!(
        build_meili_filter(&input),
        vec!["(type = 0 OR type = 3)".to_string(), "(genders = 1)".to_string()]
    );
    assert!(build_meili_sort(ObjectSort::Relevance).is_empty());
    assert_eq!(build_meili_sort(ObjectSort::NameDesc), vec!["name:desc".to_string()]);
    assert_eq!(build_meili_sort(ObjectSort::Newest), vec!["timestamp:desc".to_string()]);
    assert_eq!(ObjectSort::default(), ObjectSort::Relevance);
}

#[test]
fn meili_request_for_a_page() {
    let input = ObjectSearchInput {
        query: Some("hoodie".to_string()),
        sort: Some(ObjectSort::Oldest),
        ..Default::default()
    };
    let after = encode_meili_cursor(24);
    let req = build_meili_request(&input, 24, Some(&after));
    assert_eq!(req.q, "hoodie");
    assert_eq!(req.limit, 25);
    assert_eq!(req.offset, 24);
    assert_eq!(req.facets.len(), 5);
    assert_eq!(req.sort, vec!["timestamp:asc".to_string()]);
    assert!(req.filter.is_empty());
    let req = build_meili_request(&ObjectSearchInput::default(), 10, Some("!!!"));
    assert_eq!(req.offset, 0);
    assert_eq!(req.q, "");
}

#[test]
fn meili_facets_are_ordered_by_code() {
    let dist = vec![
        (
            "type".to_string(),
            vec![
                ("3".to_string(), 10u64),
                ("1".to_string(), 4),
                ("x".to_string(), 7),
                ("9".to_string(), 2),
                ("+1".to_string(), 5),
            ],
        ),
        ("genders".to_string(), vec![("1".to_string(), 8u64), ("0".to_string(), 9)]),
    ];
    let f = parse_meili_facets(&dist);
    let types: Vec<(ObjectType, u64)> = f.types.iter().map(|t| (t.object_type, t.count)).collect();
    assert_eq!(
        types,
        vec![(ObjectType::Furniture, 4), (ObjectType::Furniture, 5), (ObjectType::Scene, 10)]
    );
    let genders: Vec<(Gender, u64)> = f.genders.iter().map(|g| (g.gender, g.count)).collect();
    assert_eq!(genders, vec![(Gender::Male, 9), (Gender::Female, 8)]);
    assert!(f.clothing_types.is_empty());
}

#[test]
fn meili_page_selection() {
    let hits: Vec<String> = vec!["a".to_string(), "b".to_string(), "c".to_string()];
    assert_eq!(
        meili_page_hits(&vec![], 0, 10),
        Err("Meilisearch returned 0 hits, falling back to MongoDB".to_string())
    );
    assert_eq!(meili_page_hits(&vec![], 5, 10), Ok((vec![], false)));
    assert_eq!(
        meili_page_hits(&hits, 0, 2),
        Ok((vec!["a".to_string(), "b".to_string()], true))
    );
    assert_eq!(meili_page_hits(&hits, 0, 3), Ok((hits.clone(), false)));
}

#[test]
fn meili_connection_hydrates_hits_in_order() {
    let hits: Vec<String> =
        vec!["b".to_string(), "missing".to_string(), "a".to_string(), "b".to_string()];
    let mut a = object("a");
    a.timestamp = Some("1".to_string());
    let mut b_old = object("b");
    b_old.timestamp = Some("old".to_string());
    let mut b_new = object("b");
    b_new.timestamp = Some("new".to_string());
    let conn = meili_connection(&hits, true, 10, vec![b_old, a, b_new], Locale::French, &vec![]);
    assert_eq!(conn.edges.len(), 2);
    assert_eq!(conn.edges[0].node.uuid, "b");
    assert_eq!(conn.edges[0].node.timestamp, Some("new".to_string()));
    assert_eq!(conn.edges[0].node.for_locale, "fr-FR");
    assert_eq!(decode_meili_cursor(&conn.edges[0].cursor), Some(11));
    assert_eq!(conn.edges[1].node.uuid, "a");
    assert_eq!(decode_meili_cursor(&conn.edges[1].cursor), Some(13));
    assert!(conn.page_info.has_next_page);
    assert!(conn.page_info.has_previous_page);
    assert_eq!(conn.page_info.start_cursor, Some(conn.edges[0].cursor.clone()));
    assert_eq!(conn.page_info.end_cursor, Some(conn.edges[1].cursor.clone()));
    assert!(conn.facets.unwrap().types.is_empty());
}

#[test]
fn meili_sync_decisions_and_batches() {
    assert!(meili_needs_sync(0, 0));
    assert!(meili_needs_sync(10, 9));
    assert!(!meili_needs_sync(10, 10));
    assert!(!meili_needs_sync(10, 12));
    let mut b = SyncBatcher::new();
    let mut batches = 0;
    for i in 0..5001u64 {
        let mut o = object(&format!("u{i}"));
        o.timestamp = Some(i.to_string());
        if let Some(batch) = b.push(MeiliDocument::from_object(&o)) {
            assert_eq!(batch.len(), 5000);
            assert_eq!(batch[4999].timestamp, 4999);
            batches += 1;
        }
    }
    assert_eq!(batches, 1);
    assert_eq!(b.total(), 5000);
    let (last, total) = b.finish();
    let last = last.unwrap();
    assert_eq!(last.len(), 1);
    assert_eq!(last[0].uuid, "u5000");
    assert_eq!(total, 5001);
    let (last, total) = SyncBatcher::new().finish();
    assert!(last.is_none());
    assert_eq!(total, 0);
}

// ---------------------------------------------------------------------------
// Database query
// ---------------------------------------------------------------------------

#[test]
fn object_match_conditions() {
    let input = ObjectSearchInput {
        query: Some("  Hat (v1) ".to_string()),
        scene_types: Some(vec![SceneType::Clubhouse]),
        genders: Some(vec![]),
        ..Default::default()
    };
    let m = build_object_match(&input);
    assert_eq!(m.entries.len(), 2);
    assert_eq!(m.entries[0].0, "$or");
    match &m.entries[0].1 {
        MatchCondition::UuidOrName { uuid, name_pattern } => {
            assert_eq!(uuid, "Hat (v1)");
            assert_eq!(name_pattern, "Hat \\(v1\\)");
        }
        MatchCondition::In(_) => panic!("expected the query condition"),
    }
    assert_eq!(m.entries[1].0, "metadata.scene_type");
    match &m.entries[1].1 {
        MatchCondition::In(codes) => assert_eq!(codes, &vec![1u8]),
        MatchCondition::UuidOrName { .. } => panic!("expected an $in condition"),
    }
    assert!(!m.contains_key("metadata.genders"));
    let blank_query = ObjectSearchInput { query: Some("   ".to_string()), ..Default::default() };
    assert!(build_object_match(&blank_query).is_empty());
}

#[test]
fn sort_and_cursor_plans() {
    let (plan, filter) = build_sort_and_cursor(ObjectSort::Relevance, None);
    assert_eq!(plan.key_field, "names.default");
    assert!(plan.ascending);
    assert!(matches!(filter, CursorFilter::Start));
    let after = encode_cursor("1700", "u2");
    let (plan, filter) = build_sort_and_cursor(ObjectSort::Newest, Some(&after));
    assert_eq!(plan.key_field, "timestamp");
    assert!(!plan.ascending);
    match filter {
        CursorFilter::AfterKey { field, greater, sort_val, uuid } => {
            assert_eq!(field, "timestamp");
            assert!(!greater);
            assert_eq!(sort_val, "1700");
            assert_eq!(uuid, "u2");
        }
        _ => panic!("expected a key cursor"),
    }
    let bare = encode_cursor("", "u3");
    let (_, filter) = build_sort_and_cursor(ObjectSort::NameDesc, Some(&bare));
    match filter {
        CursorFilter::AfterUuid(u) => assert_eq!(u, "u3"),
        _ => panic!("expected a uuid cursor"),
    }
    let (_, filter) = build_sort_and_cursor(ObjectSort::NameAsc, Some("!!!"));
    assert!(matches!(filter, CursorFilter::Start));
}

#[test]
fn sort_values() {
    let mut o = object("s");
    assert_eq!(get_sort_value(&o, ObjectSort::NameAsc), "");
    o.names = Some(entry(Some("Sofa"), &[]));
    o.timestamp = Some("99".to_string());
    assert_eq!(get_sort_value(&o, ObjectSort::Relevance), "Sofa");
    assert_eq!(get_sort_value(&o, ObjectSort::Oldest), "99");
}

#[test]
fn page_sizes_and_windows() {
    assert_eq!(page_size(None), 24);
    assert_eq!(page_size(Some(0)), 1);
    assert_eq!(page_size(Some(500)), 100);
    assert_eq!(page_size(Some(7)), 7);
    assert_eq!(random_sample_size(None), 50);
    assert_eq!(random_sample_size(Some(80)), 50);
    assert_eq!(random_sample_size(Some(0)), 0);
    assert_eq!(search_window(None, None), (0, u32::MAX as i64));
    assert_eq!(page_limit(24), 25);
    assert_eq!(search_window(Some(5), Some(10)), (10, 5));
}

#[test]
fn database_pages() {
    let objs = vec![object("a"), object("b"), object("c")];
    let (page, more) = split_page(objs, 2);
    assert!(more);
    assert_eq!(page.len(), 2);
    let counts = FacetCounts {
        type_counts: Some(vec![
            Some(FacetItem { id: Some(FacetNumber::Int32(2)), count: Some(FacetNumber::Int32(7)) }),
            None,
            Some(FacetItem { id: Some(FacetNumber::Int64(258)), count: Some(FacetNumber::Int64(3)) }),
            Some(FacetItem { id: Some(FacetNumber::Int32(6)), count: Some(FacetNumber::Int32(1)) }),
            Some(FacetItem { id: None, count: Some(FacetNumber::Int32(1)) }),
        ]),
        clothing_counts: None,
        furniture_counts: Some(vec![Some(FacetItem {
            id: Some(FacetNumber::Int32(11)),
            count: Some(FacetNumber::Int32(-1)),
        })]),
        scene_counts: None,
        gender_counts: None,
    };
    let mut named = object("b");
    named.names = Some(entry(Some("Bed"), &[]));
    let (page, more) = split_page(vec![object("a"), named, object("c")], 2);
    let conn = database_page(page, more, true, ObjectSort::NameAsc, &counts);
    assert_eq!(conn.edges.len(), 2);
    assert!(conn.page_info.has_next_page);
    assert!(conn.page_info.has_previous_page);
    assert_eq!(decode_cursor(&conn.edges[1].cursor), Some(("Bed".to_string(), "b".to_string())));
    assert_eq!(conn.page_info.end_cursor, Some(conn.edges[1].cursor.clone()));
    let f = conn.facets.unwrap();
    let types: Vec<(ObjectType, u64)> = f.types.iter().map(|t| (t.object_type, t.count)).collect();
    assert_eq!(types, vec![(ObjectType::Portable, 7), (ObjectType::Portable, 3)]);
    assert_eq!(f.furniture_types.len(), 1);
    assert_eq!(f.furniture_types[0].furniture_type, FurnitureType::Table);
    assert_eq!(f.furniture_types[0].count, u64::MAX);
    let direct = facets_from_counts(&counts);
    assert_eq!(direct.types.len(), 2);
    let empty = empty_connection(false);
    assert!(empty.edges.is_empty());
    assert!(!empty.page_info.has_next_page);
    assert!(empty.page_info.start_cursor.is_none());
}

// ---------------------------------------------------------------------------
// Collections and users
// ---------------------------------------------------------------------------

#[test]
fn collection_rules() {
    assert_eq!(check_collection_size(2), Ok(()));
    assert_eq!(check_collection_size(50), Ok(()));
    assert_eq!(
        check_collection_size(1),
        Err("Collection must contain between 2 and 50 objects".to_string())
    );
    assert!(check_collection_size(51).is_err());
    let requested = vec!["a".to_string(), "x".to_string(), "y".to_string()];
    let found = vec!["a".to_string()];
    assert_eq!(
        check_objects_found(&requested, &found),
        Err("Object x does not exist!".to_string())
    );
    assert_eq!(check_objects_found(&found, &requested), Ok(()));
    assert_eq!(collection_missing_error("c1"), "Collection c1 does not exist!");
    let c = new_collection(
        "c1".to_string(),
        "Mine".to_string(),
        None,
        None,
        "u1".to_string(),
        found.clone(),
        Timestamp { secs: 0, nanos: 0 },
    );
    assert_eq!(c.created_at(), Some("1970-01-01T00:00:00+00:00".to_string()));
    assert_eq!(c.updated_at(), c.created_at());
    assert_eq!(c.objects, found);
}

#[test]
fn tokens_name_their_user() {
    let key = b"some-secret";
    let claims = user_claims("user-1");
    assert_eq!(claims, vec![("iss".to_string(), "API".to_string()), ("sub".to_string(), "user-1".to_string())]);
    let token = issue_token(key, "user-1").unwrap();
    assert_eq!(token_subject(key, &token), Some("user-1".to_string()));
    assert_eq!(token_subject(b"other-secret", &token), None);
    assert_eq!(token_subject(key, "not a token"), None);
}

#[test]
fn database_indexes() {
    let plan = index_plan();
    assert_eq!(plan.len(), 11);
    assert_eq!(plan[0].collection, StoredCollection::Objects);
    assert_eq!(plan[1].keys, vec![("timestamp".to_string(), -1), ("uuid".to_string(), 1)]);
    assert!(plan[8].unique);
    assert_eq!(plan[10].collection, StoredCollection::Users);
}

#[test]
fn subject_is_the_first_sub_claim() {
    let claims = vec![
        ("iss".to_string(), "API".to_string()),
        ("sub".to_string(), "first".to_string()),
        ("sub".to_string(), "second".to_string()),
    ];
    assert_eq!(claims_subject(&claims), Some("first".to_string()));
    assert_eq!(claims_subject(&vec![("iss".to_string(), "API".to_string())]), None);
}

#[test]
fn index_settings() {
    let s = meili_index_settings();
    assert_eq!(s.searchable_attributes.len(), 7);
    assert_eq!(s.searchable_attributes[6], "uuid");
    assert_eq!(s.filterable_attributes[4], "genders");
    assert_eq!(s.sortable_attributes, vec!["name".to_string(), "timestamp".to_string()]);
    assert_eq!(s.max_total_hits, 200000);
    assert!(s.typo_tolerance);
    assert_eq!((s.one_typo_min_word_size, s.two_typos_min_word_size), (4, 8));
}

#[test]
fn pagination_continues_after_an_edge() {
    let mut named = object("b");
    named.names = Some(entry(Some("Bed"), &[]));
    let counts = FacetCounts {
        type_counts: None,
        clothing_counts: None,
        furniture_counts: None,
        scene_counts: None,
        gender_counts: None,
    };
    let conn = database_page(vec![object("a"), named], true, false, ObjectSort::NameDesc, &counts);
    let (_, filter) = build_sort_and_cursor(ObjectSort::NameDesc, Some(&conn.edges[1].cursor));
    match filter {
        CursorFilter::AfterKey { field, greater, sort_val, uuid } => {
            assert_eq!(field, "names.default");
            assert!(!greater);
            assert_eq!(sort_val, "Bed");
            assert_eq!(uuid, "b");
        }
        _ => panic!("expected a key cursor"),
    }
    let (_, filter) = build_sort_and_cursor(ObjectSort::NameDesc, Some(&conn.edges[0].cursor));
    match filter {
        CursorFilter::AfterUuid(u) => assert_eq!(u, "a"),
        _ => panic!("expected a uuid cursor"),
    }

    let hits: Vec<String> = vec!["x".to_string()];
    let search = meili_connection(&hits, false, 4, vec![object("x")], Locale::Default, &vec![]);
    let next = build_meili_request(
        &ObjectSearchInput::default(),
        10,
        Some(&search.edges[0].cursor),
    );
    assert_eq!(next.offset, 5);
}

#[test]
fn localized_tags_and_distributions_are_checked() {
    assert!(text_before("de-DE", "en-GB"));
    assert!(text_before("en", "en-GB"));
    assert!(!text_before("en-GB", "en-GB"));
    assert!(!text_before("zh-TW", "zh-HK"));
    assert!(!text_before("", ""));
    assert!(text_before("Z", "a"));
    let sorted = entry(Some("Hat"), &[("de-DE", "Hut"), ("en-GB", "Hat"), ("it-IT", "Cappello")]);
    assert!(sorted.is_wf());
    let unsorted = entry(None, &[("it-IT", "Cappello"), ("de-DE", "Hut")]);
    assert!(!unsorted.is_wf());
    let twice = vec![("en-GB".to_string(), 1), ("en-GB".to_string(), 2)];
    assert!(!has_ascending_tags(&twice));
    assert!(!has_distinct_keys(&twice));
    let mut o = object("o");
    assert!(o.is_wf());
    o.descriptions = Some(unsorted);
    assert!(!o.is_wf());
    let good = vec![("type".to_string(), vec![("1".to_string(), 2u64), ("+1".to_string(), 3)])];
    assert!(is_distribution_wf(&good));
    let bad_inner = vec![("type".to_string(), vec![("1".to_string(), 2u64), ("1".to_string(), 3)])];
    assert!(!is_distribution_wf(&bad_inner));
    let bad_outer = vec![("type".to_string(), vec![]), ("type".to_string(), vec![])];
    assert!(!is_distribution_wf(&bad_outer));
    assert!(use_search_index(Some("http://search:7700")));
    assert!(!use_search_index(Some("  ")));
    assert!(!use_search_index(None));
    assert!(issue_token(b"k", "u").is_some());
}
