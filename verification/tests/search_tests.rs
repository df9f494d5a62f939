use budbuddy::catalog::{CatalogEntry, FilterCriteria, Subspecies};
use budbuddy::composer::Catalog;

fn entry(id: u64, name: &str) -> CatalogEntry {
    CatalogEntry {
        id,
        name: name.to_string(),
        description: None,
        subspecies: None,
        image_url: None,
        positive_effects: vec![],
        negative_effects: vec![],
        flavors: vec![],
        ailments: vec![],
    }
}

fn strs(v: &[&str]) -> Vec<String> {
    v.iter().map(|s| s.to_string()).collect()
}

fn no_filter() -> FilterCriteria {
    FilterCriteria::none()
}

#[test]
fn absent_flavor_filter_keeps_untagged_entries() {
    let mut bare = entry(1, "Northern Lights");
    bare.flavors = strs(&[]);
    let mut tagged = entry(2, "Blue Dream");
    tagged.flavors = strs(&["Citrus"]);
    let catalog = Catalog::from_entries(vec![bare, tagged]).unwrap();

    let all = catalog.search(&no_filter());
    assert_eq!(all.len(), 2);
    assert_eq!(all[0].id, 1);
    assert_eq!(all[1].id, 2);
}

#[test]
fn present_flavor_filter_excludes_untagged_entries() {
    let mut bare = entry(1, "Northern Lights");
    bare.flavors = strs(&[]);
    let mut tagged = entry(2, "Blue Dream");
    tagged.flavors = strs(&["Citrus"]);
    let catalog = Catalog::from_entries(vec![bare, tagged]).unwrap();

    let mut c = no_filter();
    c.flavor = Some("citrus".to_string());
    let hits = catalog.search(&c);
    assert_eq!(hits.len(), 1);
    assert_eq!(hits[0].id, 2);
    assert_eq!(hits[0].name, "Blue Dream");
}

#[test]
fn tag_filter_is_case_insensitive_exact_match() {
    let mut e = entry(4, "Sour Diesel");
    e.ailments = strs(&["Stress"]);
    let catalog = Catalog::from_entries(vec![e]).unwrap();

    let mut c = no_filter();
    c.ailment = Some("sTRESS".to_string());
    assert_eq!(catalog.search(&c).len(), 1);

    let mut sub = no_filter();
    sub.ailment = Some("stres".to_string());
    assert_eq!(catalog.search(&sub).len(), 0, "tag match is exact, not substring");
}

#[test]
fn entry_with_two_matching_tags_is_listed_once() {
    let mut e = entry(3, "Gelato");
    e.flavors = strs(&["Sweet", "SWEET"]);
    let catalog = Catalog::from_entries(vec![e]).unwrap();

    let mut c = no_filter();
    c.flavor = Some("sweet".to_string());
    let hits = catalog.search(&c);
    assert_eq!(hits.len(), 1);
    assert_eq!(hits[0].id, 3);
}

#[test]
fn more_than_fifteen_matches_return_exactly_fifteen_ascending() {
    let entries: Vec<CatalogEntry> = (1..=20).map(|i| entry(i, "Haze")).collect();
    let catalog = Catalog::from_entries(entries).unwrap();

    let hits = catalog.search(&no_filter());
    assert_eq!(hits.len(), 15);
    for (k, hit) in hits.iter().enumerate() {
        assert_eq!(hit.id, (k + 1) as u64);
    }
}

#[test]
fn name_filter_is_case_insensitive_substring() {
    let catalog =
        Catalog::from_entries(vec![entry(1, "OG Kush"), entry(2, "Blueberry")]).unwrap();

    let mut c = no_filter();
    c.name = Some("kUsH".to_string());
    let hits = catalog.search(&c);
    assert_eq!(hits.len(), 1);
    assert_eq!(hits[0].name, "OG Kush");
}

#[test]
fn subspecies_filter_keeps_exact_matches_only() {
    let mut indica = entry(1, "Afghani");
    indica.subspecies = Some(Subspecies::Indica);
    let mut sativa = entry(2, "Durban Poison");
    sativa.subspecies = Some(Subspecies::Sativa);
    let uncategorized = entry(3, "Mystery");
    let catalog = Catalog::from_entries(vec![indica, sativa, uncategorized]).unwrap();

    let mut c = no_filter();
    c.subspecies = Some(Subspecies::Indica);
    let hits = catalog.search(&c);
    assert_eq!(hits.len(), 1);
    assert_eq!(hits[0].id, 1);
}

#[test]
fn effect_filter_sees_positive_and_negative_sets() {
    let mut e = entry(1, "Jack Herer");
    e.positive_effects = strs(&["Uplifted"]);
    e.negative_effects = strs(&["Dry Mouth"]);
    let catalog = Catalog::from_entries(vec![e]).unwrap();

    let mut c = no_filter();
    c.effect = Some("uplifted".to_string());
    assert_eq!(catalog.search(&c).len(), 1);

    let mut c2 = no_filter();
    c2.effect = Some("dry mouth".to_string());
    assert_eq!(catalog.search(&c2).len(), 1);

    let mut c3 = no_filter();
    c3.effect = Some("sleepy".to_string());
    assert_eq!(catalog.search(&c3).len(), 0);
}

#[test]
fn filters_combine_independently() {
    let mut a = entry(1, "Lemon Haze");
    a.subspecies = Some(Subspecies::Sativa);
    a.flavors = strs(&["Lemon"]);
    let mut b = entry(2, "Lemon Kush");
    b.subspecies = Some(Subspecies::Indica);
    b.flavors = strs(&["Lemon"]);
    let catalog = Catalog::from_entries(vec![a, b]).unwrap();

    let mut c = no_filter();
    c.name = Some("lemon".to_string());
    c.subspecies = Some(Subspecies::Sativa);
    c.flavor = Some("lemon".to_string());
    let hits = catalog.search(&c);
    assert_eq!(hits.len(), 1);
    assert_eq!(hits[0].id, 1);
}

#[test]
fn from_entries_refuses_unsorted_or_repeated_identifiers() {
    assert!(Catalog::from_entries(vec![entry(2, "B"), entry(1, "A")]).is_none());
    assert!(Catalog::from_entries(vec![entry(1, "A"), entry(1, "B")]).is_none());
    assert!(Catalog::from_entries(vec![entry(1, "A"), entry(2, "B")]).is_some());
}

#[test]
fn from_entries_refuses_empty_names() {
    assert!(Catalog::from_entries(vec![entry(1, "")]).is_none());
}

#[test]
fn detail_fetch_returns_full_deduplicated_record() {
    let mut e = entry(9, "Purple Punch");
    e.description = Some("Grape candy".to_string());
    e.subspecies = Some(Subspecies::Hybrid);
    e.image_url = Some("https://example.test/punch.png".to_string());
    e.positive_effects = strs(&["Relaxed", "Relaxed", "Sleepy"]);
    e.negative_effects = strs(&["Dry Eyes"]);
    e.flavors = strs(&["Grape", "Grape"]);
    e.ailments = strs(&["Insomnia"]);
    let catalog = Catalog::from_entries(vec![e]).unwrap();

    let d = catalog.fetch_detail(9).unwrap();
    assert_eq!(d.id, 9);
    assert_eq!(d.name, "Purple Punch");
    assert_eq!(d.description, "Grape candy");
    assert!(matches!(d.subspecies, Some(Subspecies::Hybrid)));
    assert_eq!(d.image_url.as_deref(), Some("https://example.test/punch.png"));
    assert_eq!(d.positive_effects, strs(&["Relaxed", "Sleepy"]));
    assert_eq!(d.negative_effects, strs(&["Dry Eyes"]));
    assert_eq!(d.flavors, strs(&["Grape"]));
    assert_eq!(d.ailments, strs(&["Insomnia"]));
}

#[test]
fn detail_fetch_defaults_missing_description() {
    let catalog = Catalog::from_entries(vec![entry(5, "White Widow")]).unwrap();
    let d = catalog.fetch_detail(5).unwrap();
    assert_eq!(d.description, "No description available");
}

#[test]
fn detail_fetch_unknown_identifier_is_not_found() {
    let catalog = Catalog::from_entries(vec![entry(5, "White Widow")]).unwrap();
    assert!(catalog.fetch_detail(6).is_none());
}

#[test]
fn subspecies_store_names_round_trip() {
    for s in [
        Subspecies::Hybrid,
        Subspecies::Indica,
        Subspecies::Sativa,
        Subspecies::Ruderalis,
    ] {
        assert_eq!(Subspecies::from_store(s.store_name()), Some(s));
    }
    assert_eq!(Subspecies::from_store("Hybrid"), None, "store names are exact");
    assert_eq!(Subspecies::from_store("autoflower"), None);
    assert_eq!(Subspecies::Ruderalis.label(), "Ruderalis");
}
