use pc_price_check::amount::Amount;
use pc_price_check::catalog::{CatalogError, Component, PartsList, RecordError};
use pc_price_check::sorting::sort_components;
use pc_price_check::category::ComponentType;

fn part(kind: ComponentType, query: &str, cents: u64) -> Component {
    Component { component_type: kind, query: query.to_string(), price: Amount::from_cents(cents) }
}

fn other(label: &str) -> ComponentType {
    ComponentType::Other(label.to_string())
}

fn mixed() -> Vec<Component> {
    vec![
        part(ComponentType::Ssd, "samsung 990 pro 2tb", 25900),
        part(other("Webcam"), "logitech c920", 9900),
        part(ComponentType::Cpu, "ryzen 7 7800x3d", 62900),
        part(ComponentType::Memory, "ddr5 6000 32gb", 18900),
        part(ComponentType::Cpu, "Ryzen 5 7600", 32900),
        part(ComponentType::CPUCooling, "noctua nh-d15", 16900),
        part(other("Cable"), "hdmi 2.1", 1900),
        part(ComponentType::Cpu, "ryzen 7 7800x3d", 59900),
        part(ComponentType::Hdd, "wd red 8tb", 32000),
        part(ComponentType::Memory, "ddr5 6000 32gb", 17500),
        part(ComponentType::Cpu, "ryzen 7 7800x3d", 61000),
        part(ComponentType::Case, "fractal north", 21900),
    ]
}

#[test]
fn groups_come_in_the_order_of_kinds_not_of_entry() {
    let mut parts = PartsList {
        parts: vec![part(ComponentType::Cpu, "X", 80000), part(ComponentType::Case, "Y", 20000)],
    };
    parts.sort();
    assert_eq!(
        parts.parts,
        vec![part(ComponentType::Case, "Y", 20000), part(ComponentType::Cpu, "X", 80000)]
    );
}

#[test]
fn sorting_orders_by_kind_then_by_search_text() {
    let mut parts = mixed();
    sort_components(&mut parts);
    assert_eq!(
        parts,
        vec![
            part(ComponentType::CPUCooling, "noctua nh-d15", 16900),
            part(ComponentType::Case, "fractal north", 21900),
            part(ComponentType::Cpu, "Ryzen 5 7600", 32900),
            part(ComponentType::Cpu, "ryzen 7 7800x3d", 62900),
            part(ComponentType::Cpu, "ryzen 7 7800x3d", 59900),
            part(ComponentType::Cpu, "ryzen 7 7800x3d", 61000),
            part(ComponentType::Memory, "ddr5 6000 32gb", 18900),
            part(ComponentType::Memory, "ddr5 6000 32gb", 17500),
            part(ComponentType::Ssd, "samsung 990 pro 2tb", 25900),
            part(ComponentType::Hdd, "wd red 8tb", 32000),
            part(other("Cable"), "hdmi 2.1", 1900),
            part(other("Webcam"), "logitech c920", 9900),
        ]
    );
}

#[test]
fn sorting_keeps_the_order_of_parts_that_agree_in_kind_and_text() {
    let mut parts = vec![
        part(ComponentType::Cpu, "same", 300),
        part(ComponentType::Case, "z", 1),
        part(ComponentType::Cpu, "same", 100),
        part(ComponentType::Cpu, "same", 200),
        part(ComponentType::Cpu, "same", 100),
    ];
    sort_components(&mut parts);
    let prices: Vec<u128> = parts.iter().map(|p| p.price.cents()).collect();
    assert_eq!(prices, vec![1, 300, 100, 200, 100]);
}

#[test]
fn sorting_twice_is_sorting_once() {
    let mut once = mixed();
    sort_components(&mut once);
    let mut twice = once.clone();
    sort_components(&mut twice);
    assert_eq!(once, twice);
}

#[test]
fn sorting_is_what_a_stable_sort_by_the_two_keys_gives() {
    let mut ours = mixed();
    ours.extend(mixed());
    ours.reverse();
    let mut theirs = ours.clone();
    sort_components(&mut ours);
    theirs.sort_by(|a, b| a.component_type.cmp(&b.component_type).then(a.query.cmp(&b.query)));
    assert_eq!(ours, theirs);
}

#[test]
fn sorting_keeps_every_part() {
    let mut parts = mixed();
    sort_components(&mut parts);
    assert_eq!(parts.len(), mixed().len());
    for p in mixed() {
        let before = mixed().iter().filter(|q| **q == p).count();
        let after = parts.iter().filter(|q| **q == p).count();
        assert_eq!(before, after);
    }
}

#[test]
fn sorting_nothing_or_one_part_changes_nothing() {
    let mut none: Vec<Component> = Vec::new();
    sort_components(&mut none);
    assert!(none.is_empty());
    let mut one = vec![part(ComponentType::Monitor, "m", 5)];
    sort_components(&mut one);
    assert_eq!(one, vec![part(ComponentType::Monitor, "m", 5)]);
}

#[test]
fn search_texts_are_ordered_by_code_point() {
    let mut parts = vec![
        part(ComponentType::Case, "b", 1),
        part(ComponentType::Case, "a", 2),
        part(ComponentType::Case, "B", 3),
        part(ComponentType::Case, "ab", 4),
        part(ComponentType::Case, "é", 5),
        part(ComponentType::Case, "", 6),
    ];
    sort_components(&mut parts);
    let texts: Vec<&str> = parts.iter().map(|p| p.query.as_str()).collect();
    assert_eq!(texts, vec!["", "B", "a", "ab", "b", "é"]);
}

#[test]
fn a_part_comes_before_another_by_kind_then_text() {
    let a = part(ComponentType::Case, "z", 1);
    let b = part(ComponentType::Cpu, "a", 1);
    let c = part(ComponentType::Cpu, "b", 9);
    assert!(a.comes_before(&b));
    assert!(!b.comes_before(&a));
    assert!(b.comes_before(&c));
    assert!(!c.comes_before(&b));
    assert!(!b.comes_before(&part(ComponentType::Cpu, "a", 2)));
}

#[test]
fn a_catalog_with_search_texts_passes() {
    assert_eq!(PartsList { parts: mixed() }.check(), Ok(()));
    assert_eq!(PartsList { parts: Vec::new() }.check(), Ok(()));
}

#[test]
fn the_first_part_without_search_text_is_reported() {
    let mut parts = mixed();
    parts[7].query.clear();
    parts[3].query.clear();
    let error = PartsList { parts }.check().unwrap_err();
    assert_eq!(error, CatalogError::EmptyQuery { position: 3 });
    assert_eq!(error.message(), "Part 4 has no search text");
}

#[test]
fn a_record_of_the_manifest_becomes_a_part() {
    assert_eq!(
        Component::from_record("Cpu", "ryzen 7", "629.5"),
        Ok(part(ComponentType::Cpu, "ryzen 7", 62950))
    );
    assert_eq!(
        Component::from_record("Webcam", "c920", "99"),
        Ok(part(other("Webcam"), "c920", 9900))
    );
    assert_eq!(
        Component::from_record("Case", "free", "0.000000000000000000001"),
        Ok(part(ComponentType::Case, "free", 0))
    );
    assert_eq!(
        Component::from_record("Case", "north", "219.990000000000000000000001"),
        Ok(part(ComponentType::Case, "north", 21999))
    );
}

#[test]
fn a_record_without_search_text_or_price_is_refused() {
    assert_eq!(Component::from_record("Cpu", "", "1"), Err(RecordError::EmptyQuery));
    assert_eq!(Component::from_record("Cpu", "", "x"), Err(RecordError::EmptyQuery));
    for price in ["", "-1", "1,000", "NaN", "inf", "$5"] {
        assert_eq!(Component::from_record("Cpu", "q", price), Err(RecordError::InvalidPrice));
    }
    assert_eq!(RecordError::EmptyQuery.message(), "The part has no search text");
    assert_eq!(RecordError::InvalidPrice.message(), "The price is not a decimal amount");
}
