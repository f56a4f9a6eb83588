use vstd::prelude::*;

verus! {

// Prices and exchange rates are carried as fixed-point integers counting
// millionths of one chaos orb ("micro-chaos"). The upstream service reports
// decimal numbers; six fractional digits cover every quotation it makes, and
// integers keep the whole pipeline free of floating point.

/// One sampled price history, as reported: `data` and `total_change` may each
/// be absent, and individual sample points inside `data` may be absent.
#[derive(Clone, Debug)]
pub struct SparkLine {
    pub data: Option<Vec<Option<i64>>>,
    pub total_change: Option<i64>,
}

/// Mathematical model of a [`SparkLine`].
pub struct SparkLineModel {
    pub data: Option<Seq<Option<i64>>>,
    pub total_change: Option<i64>,
}

impl DeepView for SparkLine {
    type V = SparkLineModel;

    open spec fn deep_view(&self) -> SparkLineModel {
        SparkLineModel { data: self.data.deep_view(), total_change: self.total_change }
    }
}

/// One side of a currency exchange quote (pay or receive), with its
/// provenance fields.
#[derive(Clone, Debug)]
pub struct CurrencyData {
    pub id: i32,
    pub league_id: i32,
    pub pay_currency_id: i32,
    pub get_currency_id: i32,
    pub sample_time_utc: String,
    pub count: i32,
    /// Exchange rate in micro-chaos.
    pub value: i64,
    pub data_point_count: Option<i32>,
    pub includes_secondary: Option<bool>,
    pub listing_count: Option<i32>,
}

/// Mathematical model of a [`CurrencyData`].
pub struct CurrencyDataModel {
    pub id: i32,
    pub league_id: i32,
    pub pay_currency_id: i32,
    pub get_currency_id: i32,
    pub sample_time_utc: Seq<char>,
    pub count: i32,
    pub value: i64,
    pub data_point_count: Option<i32>,
    pub includes_secondary: Option<bool>,
    pub listing_count: Option<i32>,
}

impl DeepView for CurrencyData {
    type V = CurrencyDataModel;

    open spec fn deep_view(&self) -> CurrencyDataModel {
        CurrencyDataModel {
            id: self.id,
            league_id: self.league_id,
            pay_currency_id: self.pay_currency_id,
            get_currency_id: self.get_currency_id,
            sample_time_utc: self.sample_time_utc@,
            count: self.count,
            value: self.value,
            data_point_count: self.data_point_count,
            includes_secondary: self.includes_secondary,
            listing_count: self.listing_count,
        }
    }
}

/// One currency kind in a currency overview. `chaos_equivalent` is absent
/// when the service has no reliable quote yet; the schema layer never
/// substitutes a default for it.
#[derive(Clone, Debug)]
pub struct CurrencyLine {
    pub currency_type_name: String,
    pub pay: Option<CurrencyData>,
    pub receive: Option<CurrencyData>,
    pub pay_spark_line: SparkLine,
    pub receive_spark_line: SparkLine,
    /// Canonical value in micro-chaos, if quoted.
    pub chaos_equivalent: Option<i64>,
    pub low_confidence_pay_spark_line: SparkLine,
    pub low_confidence_receive_spark_line: SparkLine,
    pub details_id: String,
}

/// Mathematical model of a [`CurrencyLine`].
pub struct CurrencyLineModel {
    pub currency_type_name: Seq<char>,
    pub pay: Option<CurrencyDataModel>,
    pub receive: Option<CurrencyDataModel>,
    pub pay_spark_line: SparkLineModel,
    pub receive_spark_line: SparkLineModel,
    pub chaos_equivalent: Option<i64>,
    pub low_confidence_pay_spark_line: SparkLineModel,
    pub low_confidence_receive_spark_line: SparkLineModel,
    pub details_id: Seq<char>,
}

impl DeepView for CurrencyLine {
    type V = CurrencyLineModel;

    open spec fn deep_view(&self) -> CurrencyLineModel {
        CurrencyLineModel {
            currency_type_name: self.currency_type_name@,
            pay: self.pay.deep_view(),
            receive: self.receive.deep_view(),
            pay_spark_line: self.pay_spark_line.deep_view(),
            receive_spark_line: self.receive_spark_line.deep_view(),
            chaos_equivalent: self.chaos_equivalent,
            low_confidence_pay_spark_line: self.low_confidence_pay_spark_line.deep_view(),
            low_confidence_receive_spark_line: self.low_confidence_receive_spark_line.deep_view(),
            details_id: self.details_id@,
        }
    }
}

/// Static description of a currency kind (icon and trade identifier).
#[derive(Debug)]
pub struct CurrencyDetail {
    pub id: i32,
    pub icon: Option<String>,
    pub name: String,
    pub trade_id: Option<String>,
}

/// Mathematical model of a [`CurrencyDetail`].
pub struct CurrencyDetailModel {
    pub id: i32,
    pub icon: Option<Seq<char>>,
    pub name: Seq<char>,
    pub trade_id: Option<Seq<char>>,
}

impl DeepView for CurrencyDetail {
    type V = CurrencyDetailModel;

    open spec fn deep_view(&self) -> CurrencyDetailModel {
        CurrencyDetailModel {
            id: self.id,
            icon: self.icon.deep_view(),
            name: self.name@,
            trade_id: self.trade_id.deep_view(),
        }
    }
}

/// A decoded currency overview payload.
#[derive(Debug)]
pub struct CurrencyOverviewResponse {
    pub lines: Vec<CurrencyLine>,
    pub currency_details: Vec<CurrencyDetail>,
}

/// Mathematical model of a [`CurrencyOverviewResponse`].
pub struct CurrencyOverviewModel {
    pub lines: Seq<CurrencyLineModel>,
    pub currency_details: Seq<CurrencyDetailModel>,
}

impl DeepView for CurrencyOverviewResponse {
    type V = CurrencyOverviewModel;

    open spec fn deep_view(&self) -> CurrencyOverviewModel {
        CurrencyOverviewModel {
            lines: self.lines.deep_view(),
            currency_details: self.currency_details.deep_view(),
        }
    }
}

/// One item affix, in upstream order.
#[derive(Clone, Debug)]
pub struct Modifier {
    pub text: String,
    pub optional: bool,
}

/// Mathematical model of a [`Modifier`].
pub struct ModifierModel {
    pub text: Seq<char>,
    pub optional: bool,
}

impl DeepView for Modifier {
    type V = ModifierModel;

    open spec fn deep_view(&self) -> ModifierModel {
        ModifierModel { text: self.text@, optional: self.optional }
    }
}

/// A tradeable modifier range on an item.
#[derive(Clone, Debug)]
pub struct TradeInfo {
    pub mod_name: String,
    pub min: i32,
    pub max: i32,
}

/// Mathematical model of a [`TradeInfo`].
pub struct TradeInfoModel {
    pub mod_name: Seq<char>,
    pub min: i32,
    pub max: i32,
}

impl DeepView for TradeInfo {
    type V = TradeInfoModel;

    open spec fn deep_view(&self) -> TradeInfoModel {
        TradeInfoModel { mod_name: self.mod_name@, min: self.min, max: self.max }
    }
}

/// One item in an item overview. `chaos_value` is always reported; the many
/// descriptive fields are each explicitly optional.
#[derive(Clone, Debug)]
pub struct ItemLine {
    pub id: i32,
    pub name: String,
    pub icon: String,
    pub map_tier: Option<i32>,
    pub level_required: Option<i32>,
    pub base_type: Option<String>,
    pub stack_size: Option<i32>,
    pub variant: Option<String>,
    pub item_class: Option<i32>,
    pub sparkline: SparkLine,
    pub low_confidence_sparkline: SparkLine,
    pub implicit_modifiers: Vec<Modifier>,
    pub explicit_modifiers: Vec<Modifier>,
    pub flavour_text: String,
    pub corrupted: Option<bool>,
    pub gem_level: Option<i32>,
    pub gem_quality: Option<i32>,
    pub item_type: Option<String>,
    /// Price in micro-chaos; always present.
    pub chaos_value: i64,
    pub exalted_value: Option<i64>,
    pub divine_value: Option<i64>,
    pub count: i32,
    pub details_id: String,
    pub listing_count: Option<i32>,
    pub links: Option<i32>,
    pub trade_info: Option<Vec<TradeInfo>>,
}

/// Mathematical model of an [`ItemLine`].
pub struct ItemLineModel {
    pub id: i32,
    pub name: Seq<char>,
    pub icon: Seq<char>,
    pub map_tier: Option<i32>,
    pub level_required: Option<i32>,
    pub base_type: Option<Seq<char>>,
    pub stack_size: Option<i32>,
    pub variant: Option<Seq<char>>,
    pub item_class: Option<i32>,
    pub sparkline: SparkLineModel,
    pub low_confidence_sparkline: SparkLineModel,
    pub implicit_modifiers: Seq<ModifierModel>,
    pub explicit_modifiers: Seq<ModifierModel>,
    pub flavour_text: Seq<char>,
    pub corrupted: Option<bool>,
    pub gem_level: Option<i32>,
    pub gem_quality: Option<i32>,
    pub item_type: Option<Seq<char>>,
    pub chaos_value: i64,
    pub exalted_value: Option<i64>,
    pub divine_value: Option<i64>,
    pub count: i32,
    pub details_id: Seq<char>,
    pub listing_count: Option<i32>,
    pub links: Option<i32>,
    pub trade_info: Option<Seq<TradeInfoModel>>,
}

impl DeepView for ItemLine {
    type V = ItemLineModel;

    open spec fn deep_view(&self) -> ItemLineModel {
        ItemLineModel {
            id: self.id,
            name: self.name@,
            icon: self.icon@,
            map_tier: self.map_tier,
            level_required: self.level_required,
            base_type: self.base_type.deep_view(),
            stack_size: self.stack_size,
            variant: self.variant.deep_view(),
            item_class: self.item_class,
            sparkline: self.sparkline.deep_view(),
            low_confidence_sparkline: self.low_confidence_sparkline.deep_view(),
            implicit_modifiers: self.implicit_modifiers.deep_view(),
            explicit_modifiers: self.explicit_modifiers.deep_view(),
            flavour_text: self.flavour_text@,
            corrupted: self.corrupted,
            gem_level: self.gem_level,
            gem_quality: self.gem_quality,
            item_type: self.item_type.deep_view(),
            chaos_value: self.chaos_value,
            exalted_value: self.exalted_value,
            divine_value: self.divine_value,
            count: self.count,
            details_id: self.details_id@,
            listing_count: self.listing_count,
            links: self.links,
            trade_info: self.trade_info.deep_view(),
        }
    }
}

/// A decoded item overview payload.
#[derive(Debug)]
pub struct ItemOverviewResponse {
    pub lines: Vec<ItemLine>,
}

/// Mathematical model of an [`ItemOverviewResponse`].
pub struct ItemOverviewModel {
    pub lines: Seq<ItemLineModel>,
}

impl DeepView for ItemOverviewResponse {
    type V = ItemOverviewModel;

    open spec fn deep_view(&self) -> ItemOverviewModel {
        ItemOverviewModel { lines: self.lines.deep_view() }
    }
}

} // verus!
