//! Market-snapshot retrieval and query pipeline for a game-economy pricing
//! service: typed records for the two upstream payload shapes, a JSON codec
//! for them, the filter/sort query pipeline, and the display projection.
//!
//! All prices are fixed-point integers in micro-chaos (millionths of one
//! chaos orb); the caller converts at the edges.

pub mod api;
pub mod catalog;
pub mod decode;
pub mod display;
pub mod encode;
pub mod error;
pub mod json;
pub mod print;
pub mod query;
pub mod roundtrip;
pub mod text;
pub mod types;

pub use api::currency_overview_from_response;
pub use api::currency_overview_url;
pub use api::encode;
pub use api::item_overview_from_response;
pub use api::item_overview_url;
pub use catalog::get_available_leagues;
pub use catalog::get_currency_types;
pub use catalog::get_item_types;
pub use decode::decode_currency_line;
pub use decode::decode_currency_overview;
pub use decode::decode_item_line;
pub use decode::decode_item_overview;
pub use display::CurrencyRow;
pub use display::ItemRow;
pub use display::currency_row;
pub use display::currency_rows;
pub use display::item_row;
pub use display::item_rows;
pub use encode::currency_line_to_json;
pub use error::ApiError;
pub use error::SchemaError;
pub use error::TransportError;
pub use json::JsonValue;
pub use json::parse_json;
pub use print::json_to_string;
pub use query::filter_currencies_by_name;
pub use query::filter_items_by_criteria;
pub use query::sort_currencies_by_value;
pub use query::sort_items_by_value;

pub use types::CurrencyData;
pub use types::CurrencyDataModel;
pub use types::CurrencyDetail;
pub use types::CurrencyDetailModel;
pub use types::CurrencyLine;
pub use types::CurrencyLineModel;
pub use types::CurrencyOverviewModel;
pub use types::CurrencyOverviewResponse;
pub use types::ItemLine;
pub use types::ItemLineModel;
pub use types::ItemOverviewModel;
pub use types::ItemOverviewResponse;
pub use types::Modifier;
pub use types::ModifierModel;
pub use types::SparkLine;
pub use types::SparkLineModel;
pub use types::TradeInfo;
pub use types::TradeInfoModel;
