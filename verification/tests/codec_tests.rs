use poe_ninja_cli::currency_line_to_json;
use poe_ninja_cli::currency_overview_from_response;
use poe_ninja_cli::decode_currency_line;
use poe_ninja_cli::decode_currency_overview;
use poe_ninja_cli::decode_item_line;
use poe_ninja_cli::decode_item_overview;
use poe_ninja_cli::encode;
use poe_ninja_cli::currency_overview_url;
use poe_ninja_cli::item_overview_url;
use poe_ninja_cli::item_overview_from_response;
use poe_ninja_cli::json_to_string;
use poe_ninja_cli::parse_json;
use poe_ninja_cli::ApiError;
use poe_ninja_cli::CurrencyData;
use poe_ninja_cli::CurrencyLine;
use poe_ninja_cli::ItemLine;
use poe_ninja_cli::SchemaError;
use poe_ninja_cli::SparkLine;
use poe_ninja_cli::TransportError;

struct PriceInfo {
    chaos_value: i64,
    divine_value: Option<i64>,
    exalted_value: Option<i64>,
    change_24h: Option<i64>,
}

impl PriceInfo {
    fn from_item(item: &ItemLine) -> Self {
        Self {
            chaos_value: item.chaos_value,
            divine_value: item.divine_value,
            exalted_value: item.exalted_value,
            change_24h: item.sparkline.total_change,
        }
    }

    fn from_currency(currency: &CurrencyLine) -> Self {
        Self {
            chaos_value: currency.chaos_equivalent.unwrap_or(0),
            divine_value: None,
            exalted_value: None,
            change_24h: currency.pay_spark_line.total_change,
        }
    }
}

#[test]
fn test_price_info_from_item() {
    let item = ItemLine {
        id: 1,
        name: "Test Item".to_string(),
        icon: "test.png".to_string(),
        map_tier: None,
        level_required: Some(60),
        base_type: Some("Weapon".to_string()),
        stack_size: None,
        variant: None,
        item_class: Some(1),
        sparkline: SparkLine {
            data: Some(vec![Some(1_000_000), Some(2_000_000), Some(3_000_000)]),
            total_change: Some(10_500_000),
        },
        low_confidence_sparkline: SparkLine { data: None, total_change: None },
        implicit_modifiers: vec![],
        explicit_modifiers: vec![],
        flavour_text: "Test flavour".to_string(),
        corrupted: Some(false),
        gem_level: None,
        gem_quality: None,
        item_type: Some("Unique".to_string()),
        chaos_value: 150_000_000,
        exalted_value: Some(500_000),
        divine_value: Some(100_000),
        count: 10,
        details_id: "test".to_string(),
        listing_count: Some(5),
        links: Some(6),
        trade_info: None,
    };

    let price_info = PriceInfo::from_item(&item);

    assert_eq!(price_info.chaos_value, 150_000_000);
    assert_eq!(price_info.divine_value, Some(100_000));
    assert_eq!(price_info.exalted_value, Some(500_000));
    assert_eq!(price_info.change_24h, Some(10_500_000));

    println!("✓ PriceInfo::from_item works correctly");
}

#[test]
fn test_price_info_from_currency() {
    let currency = CurrencyLine {
        currency_type_name: "Divine Orb".to_string(),
        pay: Some(CurrencyData {
            id: 1,
            league_id: 1,
            pay_currency_id: 1,
            get_currency_id: 2,
            sample_time_utc: "2024-01-01T00:00:00Z".to_string(),
            count: 100,
            value: 200_000_000,
            data_point_count: Some(50),
            includes_secondary: Some(false),
            listing_count: Some(25),
        }),
        receive: None,
        pay_spark_line: SparkLine { data: Some(vec![Some(1_000_000)]), total_change: Some(0) },
        receive_spark_line: SparkLine { data: None, total_change: None },
        chaos_equivalent: Some(200_000_000),
        low_confidence_pay_spark_line: SparkLine { data: None, total_change: None },
        low_confidence_receive_spark_line: SparkLine { data: None, total_change: None },
        details_id: "divine-orb".to_string(),
    };

    let price_info = PriceInfo::from_currency(&currency);

    assert_eq!(price_info.chaos_value, 200_000_000);
    assert_eq!(price_info.divine_value, None);
    assert_eq!(price_info.exalted_value, None);
    assert_eq!(price_info.change_24h, Some(0));

    println!("✓ PriceInfo::from_currency works correctly");
}

#[test]
fn test_json_serialization_deserialization() {
    let currency = CurrencyLine {
        currency_type_name: "Chaos Orb".to_string(),
        pay: None,
        receive: None,
        pay_spark_line: SparkLine { data: Some(vec![Some(1_000_000)]), total_change: Some(0) },
        receive_spark_line: SparkLine { data: None, total_change: None },
        chaos_equivalent: Some(1_000_000),
        low_confidence_pay_spark_line: SparkLine { data: None, total_change: None },
        low_confidence_receive_spark_line: SparkLine { data: None, total_change: None },
        details_id: "chaos-orb".to_string(),
    };

    let json = json_to_string(&currency_line_to_json(&currency));
    let deserialized: CurrencyLine = decode_currency_line(&json).expect("Failed to deserialize");

    assert_eq!(currency.currency_type_name, deserialized.currency_type_name);
    assert_eq!(currency.chaos_equivalent, deserialized.chaos_equivalent);
    assert_eq!(currency.details_id, deserialized.details_id);

    println!("✓ CurrencyLine JSON serialization/deserialization works");
}

#[test]
fn test_struct_field_mapping() {
    let json_data = r#"{
        "currencyTypeName": "Test Currency",
        "chaosEquivalent": 5.5,
        "detailsId": "test-currency",
        "paySparkLine": {
            "data": [1.0, 2.0, 3.0],
            "totalChange": 15.5
        },
        "receiveSparkLine": {
            "data": null,
            "totalChange": null
        },
        "lowConfidencePaySparkLine": {
            "data": null,
            "totalChange": null
        },
        "lowConfidenceReceiveSparkLine": {
            "data": null,
            "totalChange": null
        }
    }"#;

    let currency: CurrencyLine = decode_currency_line(json_data)
        .expect("Failed to deserialize test currency JSON");

    assert_eq!(currency.currency_type_name, "Test Currency");
    assert_eq!(currency.chaos_equivalent, Some(5_500_000));
    assert_eq!(currency.details_id, "test-currency");
    assert_eq!(currency.pay_spark_line.total_change, Some(15_500_000));

    if let Some(data) = currency.pay_spark_line.data {
        assert_eq!(data, vec![Some(1_000_000), Some(2_000_000), Some(3_000_000)]);
    }

    println!("✓ Wire field mapping works correctly");
}

#[test]
fn test_item_json_field_mapping() {
    let json_data = r#"{
        "id": 123,
        "name": "Test Weapon",
        "icon": "test.png",
        "mapTier": null,
        "levelRequired": 60,
        "baseType": "Long Sword",
        "stackSize": null,
        "variant": null,
        "itemClass": 6,
        "sparkline": {
            "data": [100.0, 110.0, 120.0],
            "totalChange": 20.0
        },
        "lowConfidenceSparkline": {
            "data": null,
            "totalChange": null
        },
        "implicitModifiers": [],
        "explicitModifiers": [
            {
                "text": "+50 to maximum Life",
                "optional": false
            }
        ],
        "flavourText": "Test item",
        "corrupted": false,
        "gemLevel": null,
        "gemQuality": null,
        "itemType": "weapon.sword",
        "chaosValue": 150.75,
        "exaltedValue": null,
        "divineValue": 0.75,
        "count": 15,
        "detailsId": "test-weapon",
        "listingCount": 8,
        "links": 6,
        "tradeInfo": []
    }"#;

    let item: ItemLine = decode_item_line(json_data)
        .expect("Failed to deserialize test item JSON");

    assert_eq!(item.id, 123);
    assert_eq!(item.name, "Test Weapon");
    assert_eq!(item.level_required, Some(60));
    assert_eq!(item.base_type, Some("Long Sword".to_string()));
    assert_eq!(item.chaos_value, 150_750_000);
    assert_eq!(item.divine_value, Some(750_000));
    assert_eq!(item.links, Some(6));
    assert_eq!(item.explicit_modifiers.len(), 1);
    assert_eq!(item.explicit_modifiers[0].text, "+50 to maximum Life");
    assert!(!item.explicit_modifiers[0].optional);

    if let Some(data) = item.sparkline.data {
        assert_eq!(data, vec![Some(100_000_000), Some(110_000_000), Some(120_000_000)]);
    }
    assert_eq!(item.sparkline.total_change, Some(20_000_000));

    println!("✓ ItemLine JSON field mapping works correctly");
}

#[test]
fn test_optional_fields_handling() {
    let minimal_item_json = r#"{
        "id": 1,
        "name": "Minimal Item",
        "icon": "minimal.png",
        "sparkline": {
            "data": null,
            "totalChange": null
        },
        "lowConfidenceSparkline": {
            "data": null,
            "totalChange": null
        },
        "implicitModifiers": [],
        "explicitModifiers": [],
        "flavourText": "",
        "chaosValue": 1.0,
        "count": 1,
        "detailsId": "minimal",
        "tradeInfo": []
    }"#;

    let item: ItemLine = decode_item_line(minimal_item_json)
        .expect("Failed to deserialize minimal item JSON");

    assert_eq!(item.id, 1);
    assert_eq!(item.name, "Minimal Item");
    assert_eq!(item.chaos_value, 1_000_000);

    assert!(item.map_tier.is_none());
    assert!(item.level_required.is_none());
    assert!(item.base_type.is_none());
    assert!(item.divine_value.is_none());
    assert!(item.links.is_none());
    assert!(item.gem_level.is_none());

    println!("✓ Optional fields handling works correctly");
}

#[test]
fn test_http_error_status_is_transport() {
    let r = currency_overview_from_response(500, r#"{"lines":[],"currencyDetails":[]}"#);
    assert_eq!(r.unwrap_err(), ApiError::Transport(TransportError::Status(500)));

    let r = item_overview_from_response(500, r#"{"lines":[]}"#);
    assert_eq!(r.unwrap_err(), ApiError::Transport(TransportError::Status(500)));

    let r = currency_overview_from_response(404, "not even json");
    assert_eq!(r.unwrap_err(), ApiError::Transport(TransportError::Status(404)));
}

#[test]
fn test_success_response_decodes() {
    let r = currency_overview_from_response(200, r#"{"lines":[],"currencyDetails":[]}"#)
        .expect("success body should decode");
    assert!(r.lines.is_empty());
    assert!(r.currency_details.is_empty());

    let r = item_overview_from_response(200, r#"{"lines":[]}"#)
        .expect("success body should decode");
    assert!(r.lines.is_empty());

    let r = currency_overview_from_response(200, "not even json");
    assert_eq!(r.unwrap_err(), ApiError::Schema(SchemaError::InvalidJson));
}

#[test]
fn test_invalid_json_is_schema_error() {
    assert_eq!(decode_currency_overview("").unwrap_err(), SchemaError::InvalidJson);
    assert_eq!(decode_item_overview("{").unwrap_err(), SchemaError::InvalidJson);
    assert_eq!(decode_item_overview("[1, 2,]").unwrap_err(), SchemaError::InvalidJson);
}

#[test]
fn test_missing_required_field() {
    let no_name = r#"{
        "id": 1,
        "icon": "x.png",
        "sparkline": {"data": null, "totalChange": null},
        "lowConfidenceSparkline": {"data": null, "totalChange": null},
        "implicitModifiers": [],
        "explicitModifiers": [],
        "flavourText": "",
        "chaosValue": 1.0,
        "count": 1,
        "detailsId": "x"
    }"#;
    assert_eq!(decode_item_line(no_name).unwrap_err(), SchemaError::MissingField);

    let no_lines = r#"{"currencyDetails": []}"#;
    assert_eq!(decode_currency_overview(no_lines).unwrap_err(), SchemaError::MissingField);
}

#[test]
fn test_wrong_type_field() {
    let name_not_string = r#"{
        "id": 1,
        "name": 7,
        "icon": "x.png",
        "sparkline": {"data": null, "totalChange": null},
        "lowConfidenceSparkline": {"data": null, "totalChange": null},
        "implicitModifiers": [],
        "explicitModifiers": [],
        "flavourText": "",
        "chaosValue": 1.0,
        "count": 1,
        "detailsId": "x"
    }"#;
    assert_eq!(decode_item_line(name_not_string).unwrap_err(), SchemaError::WrongType);

    let lines_not_array = r#"{"lines": 3}"#;
    assert_eq!(decode_item_overview(lines_not_array).unwrap_err(), SchemaError::WrongType);
}

#[test]
fn test_number_round_trip_through_text() {
    let line = CurrencyLine {
        currency_type_name: "Divine \"Orb\"\\test".to_string(),
        pay: None,
        receive: None,
        pay_spark_line: SparkLine {
            data: Some(vec![Some(-2_100_000), None, Some(150_750_000)]),
            total_change: Some(-5_200_000),
        },
        receive_spark_line: SparkLine { data: None, total_change: None },
        chaos_equivalent: Some(999_999_000_001),
        low_confidence_pay_spark_line: SparkLine { data: None, total_change: None },
        low_confidence_receive_spark_line: SparkLine { data: None, total_change: None },
        details_id: "divine-orb".to_string(),
    };
    let text = json_to_string(&currency_line_to_json(&line));
    let back = decode_currency_line(&text).expect("round trip should decode");
    assert_eq!(back.currency_type_name, line.currency_type_name);
    assert_eq!(back.chaos_equivalent, line.chaos_equivalent);
    assert_eq!(back.details_id, line.details_id);
    assert_eq!(back.pay_spark_line.total_change, line.pay_spark_line.total_change);
    assert_eq!(back.pay_spark_line.data, line.pay_spark_line.data);
}

#[test]
fn test_parse_json_accepts_the_grammar() {
    assert!(parse_json(r#"  { "a": [1, -2.5, null, true, false, "x\n"] }  "#).is_some());
    assert!(parse_json("3.0000005").is_some());
    assert!(parse_json("\"\\u0041\"").is_none());
    assert!(parse_json("01").is_some());
    assert!(parse_json("1e5").is_none());
    assert!(parse_json("{\"a\":1,}").is_none());
}

#[test]
fn test_percent_encoding() {
    assert_eq!(encode("Standard"), "Standard");
    assert_eq!(encode("Hardcore Settlers"), "Hardcore%20Settlers");
    assert_eq!(encode("Solo Self-Found"), "Solo%20Self%2DFound");
    assert_eq!(encode("a+b/c"), "a%2Bb%2Fc");
}

#[test]
fn test_overview_urls() {
    assert_eq!(
        currency_overview_url("Standard", "Currency"),
        "https://poe.ninja/api/data/currencyoverview?league=Standard&type=Currency"
    );
    assert_eq!(
        item_overview_url("Hardcore Settlers", "UniqueWeapon"),
        "https://poe.ninja/api/data/itemoverview?league=Hardcore%20Settlers&type=UniqueWeapon"
    );
}
