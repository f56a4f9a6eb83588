use poe_ninja_cli::filter_currencies_by_name;
use poe_ninja_cli::filter_items_by_criteria;
use poe_ninja_cli::sort_currencies_by_value;
use poe_ninja_cli::sort_items_by_value;
use poe_ninja_cli::get_available_leagues;
use poe_ninja_cli::get_currency_types;
use poe_ninja_cli::get_item_types;
use poe_ninja_cli::currency_rows;
use poe_ninja_cli::item_rows;
use poe_ninja_cli::CurrencyData;
use poe_ninja_cli::CurrencyLine;
use poe_ninja_cli::ItemLine;
use poe_ninja_cli::SparkLine;

fn empty_spark() -> SparkLine {
    SparkLine { data: None, total_change: None }
}

fn currency(name: &str, chaos_equivalent: Option<i64>, details_id: &str) -> CurrencyLine {
    CurrencyLine {
        currency_type_name: name.to_string(),
        chaos_equivalent,
        pay: None,
        receive: None,
        pay_spark_line: empty_spark(),
        receive_spark_line: empty_spark(),
        low_confidence_pay_spark_line: empty_spark(),
        low_confidence_receive_spark_line: empty_spark(),
        details_id: details_id.to_string(),
    }
}

fn item(id: i32, name: &str, chaos_value: i64, details_id: &str) -> ItemLine {
    ItemLine {
        id,
        name: name.to_string(),
        chaos_value,
        icon: "".to_string(),
        map_tier: None,
        level_required: None,
        base_type: None,
        stack_size: None,
        variant: None,
        item_class: None,
        sparkline: empty_spark(),
        low_confidence_sparkline: empty_spark(),
        implicit_modifiers: vec![],
        explicit_modifiers: vec![],
        flavour_text: "".to_string(),
        corrupted: None,
        gem_level: None,
        gem_quality: None,
        item_type: None,
        exalted_value: None,
        divine_value: None,
        count: 1,
        details_id: details_id.to_string(),
        listing_count: None,
        links: None,
        trade_info: None,
    }
}

fn create_mock_currency_data() -> Vec<CurrencyLine> {
    vec![
        CurrencyLine {
            currency_type_name: "Exalted Orb".to_string(),
            chaos_equivalent: Some(180_000_000),
            pay: Some(CurrencyData {
                id: 1,
                league_id: 1,
                pay_currency_id: 1,
                get_currency_id: 2,
                sample_time_utc: "2023-01-01T00:00:00Z".to_string(),
                count: 100,
                value: 5_600,
                data_point_count: Some(1),
                includes_secondary: Some(true),
                listing_count: Some(500),
            }),
            receive: None,
            pay_spark_line: SparkLine { data: None, total_change: Some(5_200_000) },
            receive_spark_line: empty_spark(),
            low_confidence_pay_spark_line: empty_spark(),
            low_confidence_receive_spark_line: empty_spark(),
            details_id: "exalted-orb".to_string(),
        },
        CurrencyLine {
            currency_type_name: "Chaos Orb".to_string(),
            chaos_equivalent: Some(1_000_000),
            pay: None,
            receive: Some(CurrencyData {
                id: 2,
                league_id: 1,
                pay_currency_id: 2,
                get_currency_id: 1,
                sample_time_utc: "2023-01-01T00:00:00Z".to_string(),
                count: 1000,
                value: 1_000_000,
                data_point_count: Some(1),
                includes_secondary: Some(true),
                listing_count: Some(2000),
            }),
            pay_spark_line: empty_spark(),
            receive_spark_line: SparkLine { data: None, total_change: Some(-1_200_000) },
            low_confidence_pay_spark_line: empty_spark(),
            low_confidence_receive_spark_line: empty_spark(),
            details_id: "chaos-orb".to_string(),
        },
    ]
}

fn create_mock_item_data() -> Vec<ItemLine> {
    vec![
        ItemLine {
            id: 1,
            name: "Belly of the Beast".to_string(),
            icon: "test.png".to_string(),
            base_type: Some("Full Wyrmscale".to_string()),
            chaos_value: 150_000_000,
            divine_value: Some(600_000),
            exalted_value: None,
            count: 50,
            listing_count: Some(200),
            level_required: Some(46),
            map_tier: None,
            stack_size: None,
            variant: None,
            item_class: Some(1),
            sparkline: SparkLine { data: None, total_change: Some(-2_100_000) },
            low_confidence_sparkline: empty_spark(),
            implicit_modifiers: vec![],
            explicit_modifiers: vec![],
            flavour_text: "".to_string(),
            corrupted: None,
            gem_level: None,
            gem_quality: None,
            item_type: Some("Body Armour".to_string()),
            details_id: "belly-of-the-beast".to_string(),
            links: None,
            trade_info: None,
        },
        ItemLine {
            id: 2,
            name: "Kaom's Heart".to_string(),
            icon: "test2.png".to_string(),
            base_type: Some("Glorious Plate".to_string()),
            chaos_value: 80_000_000,
            divine_value: Some(300_000),
            exalted_value: None,
            count: 25,
            listing_count: Some(100),
            level_required: Some(68),
            map_tier: None,
            stack_size: None,
            variant: None,
            item_class: Some(1),
            sparkline: SparkLine { data: None, total_change: Some(3_500_000) },
            low_confidence_sparkline: empty_spark(),
            implicit_modifiers: vec![],
            explicit_modifiers: vec![],
            flavour_text: "".to_string(),
            corrupted: None,
            gem_level: None,
            gem_quality: None,
            item_type: Some("Body Armour".to_string()),
            details_id: "kaoms-heart".to_string(),
            links: None,
            trade_info: None,
        },
    ]
}

#[test]
fn test_filter_currencies_by_name() {
    let currencies = vec![
        currency("Exalted Orb", Some(180_000_000), "exalted-orb"),
        currency("Chaos Orb", Some(1_000_000), "chaos-orb"),
    ];

    let filtered = filter_currencies_by_name(currencies, Some("exalted"));
    assert_eq!(filtered.len(), 1);
    assert_eq!(filtered[0].currency_type_name, "Exalted Orb");
}

#[test]
fn test_filter_items_by_price_range() {
    let items = vec![
        item(1, "Expensive Item", 500_000_000, "expensive"),
        item(2, "Cheap Item", 5_000_000, "cheap"),
    ];

    let filtered = filter_items_by_criteria(items, None, Some(10_000_000), Some(1_000_000_000));
    assert_eq!(filtered.len(), 1);
    assert_eq!(filtered[0].name, "Expensive Item");
}

#[test]
fn test_available_leagues_not_empty() {
    let leagues = get_available_leagues();
    assert!(!leagues.is_empty());
    assert!(leagues.contains(&"Standard"));
    assert!(leagues.contains(&"Hardcore"));
}

#[test]
fn lib_test_item_types_comprehensive() {
    let types = get_item_types();
    assert!(types.contains(&"UniqueWeapon"));
    assert!(types.contains(&"UniqueArmour"));
    assert!(types.contains(&"Essence"));
    assert!(types.contains(&"DivinationCard"));
}

#[test]
fn test_currency_filtering() {
    let currencies = create_mock_currency_data();

    let filtered = filter_currencies_by_name(currencies.clone(), Some("exalted"));
    assert_eq!(filtered.len(), 1);
    assert_eq!(filtered[0].currency_type_name, "Exalted Orb");
    assert_eq!(filtered[0].chaos_equivalent, Some(180_000_000));

    let all = filter_currencies_by_name(currencies, None);
    assert_eq!(all.len(), 2);
}

#[test]
fn test_currency_sorting() {
    let currencies = create_mock_currency_data();
    let sorted = sort_currencies_by_value(currencies);

    assert_eq!(sorted[0].currency_type_name, "Exalted Orb");
    assert_eq!(sorted[1].currency_type_name, "Chaos Orb");
}

#[test]
fn test_item_price_filtering() {
    let items = create_mock_item_data();

    let filtered = filter_items_by_criteria(
        items.clone(),
        None,
        Some(100_000_000),
        Some(200_000_000),
    );
    assert_eq!(filtered.len(), 1);
    assert_eq!(filtered[0].name, "Belly of the Beast");
    assert_eq!(filtered[0].chaos_value, 150_000_000);

    let min_filtered = filter_items_by_criteria(items.clone(), None, Some(100_000_000), None);
    assert_eq!(min_filtered.len(), 1);
    assert_eq!(min_filtered[0].name, "Belly of the Beast");

    let max_filtered = filter_items_by_criteria(items, None, None, Some(100_000_000));
    assert_eq!(max_filtered.len(), 1);
    assert_eq!(max_filtered[0].name, "Kaom's Heart");
}

#[test]
fn test_item_name_filtering() {
    let items = create_mock_item_data();

    let filtered = filter_items_by_criteria(items, Some("belly"), None, None);
    assert_eq!(filtered.len(), 1);
    assert_eq!(filtered[0].name, "Belly of the Beast");
}

#[test]
fn test_item_sorting() {
    let items = create_mock_item_data();
    let sorted = sort_items_by_value(items);

    assert_eq!(sorted[0].name, "Belly of the Beast");
    assert_eq!(sorted[1].name, "Kaom's Heart");
}

#[test]
fn test_combined_filtering_and_sorting() {
    let items = create_mock_item_data();

    let filtered = filter_items_by_criteria(items, Some("a"), Some(50_000_000), Some(200_000_000));
    let sorted = sort_items_by_value(filtered);

    assert_eq!(sorted.len(), 2);
    assert_eq!(sorted[0].name, "Belly of the Beast");
    assert_eq!(sorted[1].name, "Kaom's Heart");
}

#[test]
fn test_get_available_leagues() {
    let leagues = get_available_leagues();
    assert!(!leagues.is_empty());
    assert!(leagues.contains(&"Standard"));
    assert!(leagues.contains(&"Hardcore"));
    assert!(leagues.contains(&"Settlers"));
}

#[test]
fn test_get_currency_types() {
    let types = get_currency_types();
    assert!(!types.is_empty());
    assert!(types.contains(&"Currency"));
    assert!(types.contains(&"Fragment"));
}

#[test]
fn test_get_item_types() {
    let types = get_item_types();
    assert!(!types.is_empty());
    assert!(types.contains(&"UniqueWeapon"));
    assert!(types.contains(&"UniqueArmour"));
    assert!(types.contains(&"Essence"));
    assert!(types.contains(&"DivinationCard"));
    assert!(types.contains(&"Oil"));
}

#[test]
fn integration_tests_test_item_types_comprehensive() {
    let types = get_item_types();

    let expected_types = vec![
        "Oil", "Essence", "UniqueWeapon", "UniqueArmour", "Map",
        "DivinationCard", "SkillGem", "UniqueJewel", "Fossil",
    ];

    for expected in expected_types {
        assert!(types.contains(&expected), "Missing item type: {}", expected);
    }
}

#[test]
fn test_empty_currency_list() {
    let currencies = vec![];
    let filtered = filter_currencies_by_name(currencies, Some("exalted"));
    assert!(filtered.is_empty());
}

#[test]
fn test_empty_item_list() {
    let items = vec![];
    let filtered = filter_items_by_criteria(items, Some("belly"), Some(100_000_000), Some(200_000_000));
    assert!(filtered.is_empty());
}

#[test]
fn test_case_insensitive_filtering() {
    let currencies = vec![currency("Exalted Orb", Some(180_000_000), "exalted-orb")];

    let filtered_lower = filter_currencies_by_name(currencies.clone(), Some("exalted"));
    let filtered_upper = filter_currencies_by_name(currencies.clone(), Some("EXALTED"));
    let filtered_mixed = filter_currencies_by_name(currencies, Some("ExAlTeD"));

    assert_eq!(filtered_lower.len(), 1);
    assert_eq!(filtered_upper.len(), 1);
    assert_eq!(filtered_mixed.len(), 1);
}

#[test]
fn test_extreme_chaos_values() {
    let items = vec![
        item(1, "Expensive Item", 999_999_000_000, "expensive"),
        item(2, "Free Item", 0, "free"),
    ];

    let expensive_only = filter_items_by_criteria(items.clone(), None, Some(999_999_000_000), None);
    assert_eq!(expensive_only.len(), 1);
    assert_eq!(expensive_only[0].name, "Expensive Item");

    let free_only = filter_items_by_criteria(items, None, None, Some(0));
    assert_eq!(free_only.len(), 1);
    assert_eq!(free_only[0].name, "Free Item");
}

#[test]
fn test_no_filters_are_identity() {
    let currencies = create_mock_currency_data();
    let all = filter_currencies_by_name(currencies.clone(), None);
    assert_eq!(all.len(), currencies.len());
    for (a, b) in all.iter().zip(currencies.iter()) {
        assert_eq!(a.currency_type_name, b.currency_type_name);
    }

    let items = create_mock_item_data();
    let all = filter_items_by_criteria(items.clone(), None, None, None);
    assert_eq!(all.len(), items.len());
    for (a, b) in all.iter().zip(items.iter()) {
        assert_eq!(a.name, b.name);
    }
}

#[test]
fn test_range_boundaries_inclusive() {
    let items = vec![
        item(1, "At Minimum", 100_000_000, "at-min"),
        item(2, "At Maximum", 1_000_000_000, "at-max"),
        item(3, "Below", 99_999_999, "below"),
        item(4, "Above", 1_000_000_001, "above"),
    ];

    let kept = filter_items_by_criteria(items, None, Some(100_000_000), Some(1_000_000_000));
    assert_eq!(kept.len(), 2);
    assert_eq!(kept[0].name, "At Minimum");
    assert_eq!(kept[1].name, "At Maximum");
}

#[test]
fn test_sort_already_sorted_unchanged() {
    let items = vec![
        item(1, "Belly of the Beast", 150_000_000, "belly"),
        item(2, "Kaom's Heart", 80_000_000, "kaom"),
    ];
    let once = sort_items_by_value(items);
    assert_eq!(once[0].name, "Belly of the Beast");
    assert_eq!(once[1].name, "Kaom's Heart");

    let twice = sort_items_by_value(once);
    assert_eq!(twice[0].name, "Belly of the Beast");
    assert_eq!(twice[1].name, "Kaom's Heart");
}

#[test]
fn test_sort_currencies_without_quote_last() {
    let currencies = vec![
        currency("Unquoted", None, "unquoted"),
        currency("Mirror of Kalandra", Some(100_000_000_000), "mirror"),
        currency("Chaos Orb", Some(1_000_000), "chaos-orb"),
    ];
    let sorted = sort_currencies_by_value(currencies);
    assert_eq!(sorted[0].currency_type_name, "Mirror of Kalandra");
    assert_eq!(sorted[1].currency_type_name, "Chaos Orb");
    assert_eq!(sorted[2].currency_type_name, "Unquoted");
}

#[test]
fn test_display_rows_defaults() {
    let currencies = create_mock_currency_data();
    let rows = currency_rows(&currencies);
    assert_eq!(rows.len(), 2);
    assert_eq!(rows[0].name, "Exalted Orb");
    assert_eq!(rows[0].chaos_equivalent, 180_000_000);
    assert_eq!(rows[0].pay_value, 5_600);
    assert_eq!(rows[0].receive_value, 0);
    assert_eq!(rows[0].pay_count, 100);
    assert_eq!(rows[0].receive_count, 0);

    let unquoted = vec![currency("Unquoted", None, "unquoted")];
    let rows = currency_rows(&unquoted);
    assert_eq!(rows[0].chaos_equivalent, 0);

    let items = create_mock_item_data();
    let rows = item_rows(&items);
    assert_eq!(rows[0].name, "Belly of the Beast");
    assert_eq!(rows[0].base_type, "Full Wyrmscale");
    assert_eq!(rows[0].chaos_value, 150_000_000);
    assert_eq!(rows[0].divine_value, 600_000);
    assert_eq!(rows[0].count, 50);
    assert_eq!(rows[0].listing_count, 200);
    assert_eq!(rows[0].level_required, 46);

    let bare = vec![item(9, "Bare", 1_000_000, "bare")];
    let rows = item_rows(&bare);
    assert_eq!(rows[0].base_type, "N/A");
    assert_eq!(rows[0].divine_value, 0);
    assert_eq!(rows[0].listing_count, 0);
    assert_eq!(rows[0].level_required, 0);
}
