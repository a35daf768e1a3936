use native_ocel::names::{
    sanitize_type_name, table_name_for_type, type_table_names, unique_name, NameSet,
};
use native_ocel::ocel::TypeDefinition;
use native_ocel::text::{ascii_lowercase, contains_text, decimal_i64, decimal_u64};

fn set_of(names: &[&str]) -> NameSet {
    let mut set = NameSet::new();
    for name in names {
        set.insert(name.to_string());
    }
    set
}

fn types(names: &[&str]) -> Vec<TypeDefinition> {
    names
        .iter()
        .map(|name| TypeDefinition { name: name.to_string(), attributes: Vec::new() })
        .collect()
}

#[test]
fn lower_case_touches_ascii_letters_only() {
    assert_eq!(ascii_lowercase("AbZ 09_\u{c4}\u{df}"), "abz 09_\u{c4}\u{df}");
    assert_eq!(ascii_lowercase(""), "");
}

#[test]
fn parts_are_found_anywhere() {
    assert!(contains_text("uint64", "int"));
    assert!(contains_text("int", "int"));
    assert!(contains_text("anything", ""));
    assert!(contains_text("", ""));
    assert!(!contains_text("in", "int"));
    assert!(!contains_text("i nt", "int"));
}

#[test]
fn decimal_notation() {
    assert_eq!(decimal_u64(0), "0");
    assert_eq!(decimal_u64(10), "10");
    assert_eq!(decimal_u64(u64::MAX), u64::MAX.to_string());
    assert_eq!(decimal_i64(-7), "-7");
    assert_eq!(decimal_i64(i64::MIN), i64::MIN.to_string());
    assert_eq!(decimal_i64(i64::MAX), i64::MAX.to_string());
}

#[test]
fn name_sets_hold_what_was_inserted() {
    let mut set = NameSet::new();
    assert!(!set.contains("a"));
    assert!(set.insert("a".to_string()));
    assert!(!set.insert("a".to_string()));
    assert!(set.contains("a"));
    assert!(!set.contains("A"));
    assert_eq!(set.len(), 1);
}

#[test]
fn free_names_are_kept() {
    assert_eq!(unique_name("order", &set_of(&["item"])), "order");
}

#[test]
fn used_names_get_the_first_free_number() {
    assert_eq!(unique_name("order", &set_of(&["order"])), "order_1");
    assert_eq!(
        unique_name("order", &set_of(&["order", "order_1", "order_2", "order_4"])),
        "order_3"
    );
    assert_eq!(unique_name("order", &set_of(&["order", "order_2"])), "order_1");
}

#[test]
fn numbers_grow_beyond_one_digit() {
    let mut used = vec!["x".to_string()];
    for i in 1..=10 {
        used.push(format!("x_{i}"));
    }
    let names: Vec<&str> = used.iter().map(|name| name.as_str()).collect();
    assert_eq!(unique_name("x", &set_of(&names)), "x_11");
}

#[test]
fn labels_become_names() {
    assert_eq!(sanitize_type_name("Place Order"), "place_order");
    assert_eq!(sanitize_type_name("  --Pay!!  (now)-- "), "pay_now");
    assert_eq!(sanitize_type_name("a__b"), "a_b");
    assert_eq!(sanitize_type_name("Caf\u{e9} 24/7"), "caf_24_7");
    assert_eq!(sanitize_type_name("\u{a0}\u{2003}x\u{a0}"), "x");
}

#[test]
fn labels_without_name_characters_become_type() {
    assert_eq!(sanitize_type_name(""), "type");
    assert_eq!(sanitize_type_name(" \t--__ "), "type");
}

#[test]
fn long_labels_are_cut_after_eighty_characters() {
    assert_eq!(sanitize_type_name(&"a".repeat(81)), "a".repeat(80));
    assert_eq!(sanitize_type_name(&"a".repeat(80)), "a".repeat(80));
    let cut = sanitize_type_name(&format!("{} b", "a".repeat(79)));
    assert_eq!(cut, format!("{}_", "a".repeat(79)));
    assert_eq!(sanitize_type_name(&cut), "a".repeat(79));
}

#[test]
fn sanitised_names_stay_as_they_are() {
    let once = sanitize_type_name("Create  Purchase-Order #1");
    assert_eq!(once, "create_purchase_order_1");
    assert_eq!(sanitize_type_name(&once), once);
    assert_eq!(sanitize_type_name("CREATE  Purchase-ORDER #1"), once);
}

#[test]
fn types_get_tables_of_their_own() {
    let mut used = set_of(&["event_pay"]);
    let pairs = type_table_names("event", &types(&["Pay", "pay", "Ship it"]), &mut used);
    assert_eq!(
        pairs,
        vec![
            ("Pay".to_string(), "event_pay_1".to_string()),
            ("pay".to_string(), "event_pay_2".to_string()),
            ("Ship it".to_string(), "event_ship_it".to_string()),
        ]
    );
    assert!(used.contains("event_pay"));
    assert!(used.contains("event_pay_1"));
    assert!(used.contains("event_pay_2"));
    assert!(used.contains("event_ship_it"));
    assert!(!used.contains("event_ship"));
}

#[test]
fn tables_are_found_by_type() {
    let mut used = NameSet::new();
    let pairs = type_table_names("object", &types(&["Order", "order"]), &mut used);
    assert_eq!(table_name_for_type(&pairs, "Order"), "object_order");
    assert_eq!(table_name_for_type(&pairs, "order"), "object_order_1");
    assert_eq!(table_name_for_type(&pairs, "Big Item"), "big_item");
    let twice = vec![
        ("a".to_string(), "first".to_string()),
        ("a".to_string(), "second".to_string()),
    ];
    assert_eq!(table_name_for_type(&twice, "a"), "first");
}
