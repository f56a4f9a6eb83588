use vstd::prelude::*;

use crate::error::SchemaError;
use crate::json::JsonModel;
use crate::json::JsonValue;
use crate::json::json_view;
use crate::json::json_view_elems;
use crate::json::json_view_members;
use crate::text::str_eq;
use crate::types::CurrencyData;
use crate::types::CurrencyDataModel;
use crate::types::CurrencyDetail;
use crate::types::CurrencyDetailModel;
use crate::types::CurrencyLine;
use crate::types::CurrencyLineModel;
use crate::types::CurrencyOverviewModel;
use crate::types::CurrencyOverviewResponse;
use crate::types::ItemLine;
use crate::types::ItemLineModel;
use crate::types::ItemOverviewModel;
use crate::types::ItemOverviewResponse;
use crate::types::Modifier;
use crate::types::ModifierModel;
use crate::types::SparkLine;
use crate::types::SparkLineModel;
use crate::types::TradeInfo;
use crate::types::TradeInfoModel;
use crate::json::parse_json;
use crate::json::parse_json_spec;

verus! {

/// The value of the first field named `key`, if any.
pub open spec fn obj_get(fields: Seq<(Seq<char>, JsonModel)>, key: Seq<char>) -> Option<JsonModel>
    decreases fields.len(),
{
    if fields.len() == 0 {
        None
    } else if fields[0].0 == key {
        Some(fields[0].1)
    } else {
        obj_get(fields.drop_first(), key)
    }
}

fn get_field<'a>(fields: &'a Vec<(String, JsonValue)>, key: &str) -> (r: Option<&'a JsonValue>)
    ensures
        match r {
            Some(v) => obj_get(json_view_members(fields@), key@) == Some(json_view(*v)),
            None => obj_get(json_view_members(fields@), key@) is None,
        },
{
    let ghost members = json_view_members(fields@);
    proof {
        assert(members.skip(0) =~= members);
    }
    let mut i: usize = 0;
    while i < fields.len()
        invariant
            i <= fields@.len(),
            members == json_view_members(fields@),
            obj_get(members, key@) == obj_get(members.skip(i as int), key@),
        decreases fields@.len() - i,
    {
        if str_eq(fields[i].0.as_str(), key) {
            proof {
                assert(members.skip(i as int)[0] == members[i as int]);
            }
            return Some(&fields[i].1);
        }
        proof {
            assert(members.skip(i as int)[0] == members[i as int]);
            assert(members.skip(i as int).drop_first() =~= members.skip(i + 1));
        }
        i += 1;
    }
    proof {
        assert(members.skip(fields@.len() as int).len() == 0);
    }
    None
}

/// A required string field.
pub open spec fn req_str(fields: Seq<(Seq<char>, JsonModel)>, key: Seq<char>) -> Result<
    Seq<char>,
    SchemaError,
> {
    match obj_get(fields, key) {
        None => Err(SchemaError::MissingField),
        Some(JsonModel::Str(s)) => Ok(s),
        Some(_) => Err(SchemaError::WrongType),
    }
}

fn req_str_field(fields: &Vec<(String, JsonValue)>, key: &str) -> (r: Result<String, SchemaError>)
    ensures
        match r {
            Ok(s) => req_str(json_view_members(fields@), key@) == Ok::<Seq<char>, SchemaError>(s@),
            Err(e) => req_str(json_view_members(fields@), key@) == Err::<Seq<char>, SchemaError>(
                e,
            ),
        },
{
    match get_field(fields, key) {
        None => Err(SchemaError::MissingField),
        Some(v) => match v {
            JsonValue::Str(s) => Ok(s.clone()),
            _ => Err(SchemaError::WrongType),
        },
    }
}

/// An optional string field: absent or null means no value.
pub open spec fn opt_str(fields: Seq<(Seq<char>, JsonModel)>, key: Seq<char>) -> Result<
    Option<Seq<char>>,
    SchemaError,
> {
    match obj_get(fields, key) {
        None => Ok(None),
        Some(JsonModel::Null) => Ok(None),
        Some(JsonModel::Str(s)) => Ok(Some(s)),
        Some(_) => Err(SchemaError::WrongType),
    }
}

fn opt_str_field(fields: &Vec<(String, JsonValue)>, key: &str) -> (r: Result<
    Option<String>,
    SchemaError,
>)
    ensures
        match r {
            Ok(s) => opt_str(json_view_members(fields@), key@) == Ok::<_, SchemaError>(
                s.deep_view(),
            ),
            Err(e) => opt_str(json_view_members(fields@), key@) == Err::<
                Option<Seq<char>>,
                SchemaError,
            >(e),
        },
{
    match get_field(fields, key) {
        None => Ok(None),
        Some(v) => match v {
            JsonValue::Null => Ok(None),
            JsonValue::Str(s) => Ok(Some(s.clone())),
            _ => Err(SchemaError::WrongType),
        },
    }
}

/// A required numeric field, in micro-units.
pub open spec fn req_num(fields: Seq<(Seq<char>, JsonModel)>, key: Seq<char>) -> Result<
    i64,
    SchemaError,
> {
    match obj_get(fields, key) {
        None => Err(SchemaError::MissingField),
        Some(JsonModel::Num(m)) => if i64::MIN <= m <= i64::MAX {
            Ok(m as i64)
        } else {
            Err(SchemaError::WrongType)
        },
        Some(_) => Err(SchemaError::WrongType),
    }
}

fn req_num_field(fields: &Vec<(String, JsonValue)>, key: &str) -> (r: Result<i64, SchemaError>)
    ensures
        match r {
            Ok(m) => req_num(json_view_members(fields@), key@) == Ok::<i64, SchemaError>(m),
            Err(e) => req_num(json_view_members(fields@), key@) == Err::<i64, SchemaError>(e),
        },
{
    match get_field(fields, key) {
        None => Err(SchemaError::MissingField),
        Some(v) => match v {
            JsonValue::Num(m) => Ok(*m),
            _ => Err(SchemaError::WrongType),
        },
    }
}

/// An optional numeric field, in micro-units: absent or null means no
/// value.
pub open spec fn opt_num(fields: Seq<(Seq<char>, JsonModel)>, key: Seq<char>) -> Result<
    Option<i64>,
    SchemaError,
> {
    match obj_get(fields, key) {
        None => Ok(None),
        Some(JsonModel::Null) => Ok(None),
        Some(JsonModel::Num(m)) => if i64::MIN <= m <= i64::MAX {
            Ok(Some(m as i64))
        } else {
            Err(SchemaError::WrongType)
        },
        Some(_) => Err(SchemaError::WrongType),
    }
}

fn opt_num_field(fields: &Vec<(String, JsonValue)>, key: &str) -> (r: Result<
    Option<i64>,
    SchemaError,
>)
    ensures
        match r {
            Ok(m) => opt_num(json_view_members(fields@), key@) == Ok::<Option<i64>, SchemaError>(
                m,
            ),
            Err(e) => opt_num(json_view_members(fields@), key@) == Err::<Option<i64>, SchemaError>(
                e,
            ),
        },
{
    match get_field(fields, key) {
        None => Ok(None),
        Some(v) => match v {
            JsonValue::Null => Ok(None),
            JsonValue::Num(m) => Ok(Some(*m)),
            _ => Err(SchemaError::WrongType),
        },
    }
}

/// A whole number of units carried in micro-units, converted to `i32` when
/// it is exact and in range.
pub open spec fn micros_to_i32_spec(m: int) -> Result<i32, SchemaError> {
    if m >= 0 {
        let q = m / 1000000;
        if m % 1000000 == 0 && q <= i32::MAX {
            Ok(q as i32)
        } else {
            Err(SchemaError::WrongType)
        }
    } else if m < -2147483648000000 {
        Err(SchemaError::WrongType)
    } else {
        let p = -m;
        let q = p / 1000000;
        if p % 1000000 == 0 {
            Ok((-q) as i32)
        } else {
            Err(SchemaError::WrongType)
        }
    }
}

fn micros_to_i32(m: i64) -> (r: Result<i32, SchemaError>)
    ensures
        r == micros_to_i32_spec(m as int),
{
    if m >= 0 {
        let q = m / 1000000;
        let rem = m % 1000000;
        if rem == 0 && q <= 2147483647 {
            Ok(q as i32)
        } else {
            Err(SchemaError::WrongType)
        }
    } else if m < -2147483648000000i64 {
        Err(SchemaError::WrongType)
    } else {
        let p = -m;
        let q = p / 1000000;
        let rem = p % 1000000;
        if rem == 0 {
            Ok((-q) as i32)
        } else {
            Err(SchemaError::WrongType)
        }
    }
}

/// A required integer field: the number must be whole and fit an `i32`.
pub open spec fn req_i32(fields: Seq<(Seq<char>, JsonModel)>, key: Seq<char>) -> Result<
    i32,
    SchemaError,
> {
    match obj_get(fields, key) {
        None => Err(SchemaError::MissingField),
        Some(JsonModel::Num(m)) => if i64::MIN <= m <= i64::MAX {
            micros_to_i32_spec(m)
        } else {
            Err(SchemaError::WrongType)
        },
        Some(_) => Err(SchemaError::WrongType),
    }
}

fn req_i32_field(fields: &Vec<(String, JsonValue)>, key: &str) -> (r: Result<i32, SchemaError>)
    ensures
        match r {
            Ok(m) => req_i32(json_view_members(fields@), key@) == Ok::<i32, SchemaError>(m),
            Err(e) => req_i32(json_view_members(fields@), key@) == Err::<i32, SchemaError>(e),
        },
{
    match get_field(fields, key) {
        None => Err(SchemaError::MissingField),
        Some(v) => match v {
            JsonValue::Num(m) => micros_to_i32(*m),
            _ => Err(SchemaError::WrongType),
        },
    }
}

/// An optional integer field: absent or null means no value.
pub open spec fn opt_i32(fields: Seq<(Seq<char>, JsonModel)>, key: Seq<char>) -> Result<
    Option<i32>,
    SchemaError,
> {
    match obj_get(fields, key) {
        None => Ok(None),
        Some(JsonModel::Null) => Ok(None),
        Some(JsonModel::Num(m)) => if i64::MIN <= m <= i64::MAX {
            match micros_to_i32_spec(m) {
                Ok(q) => Ok(Some(q)),
                Err(e) => Err(e),
            }
        } else {
            Err(SchemaError::WrongType)
        },
        Some(_) => Err(SchemaError::WrongType),
    }
}

fn opt_i32_field(fields: &Vec<(String, JsonValue)>, key: &str) -> (r: Result<
    Option<i32>,
    SchemaError,
>)
    ensures
        match r {
            Ok(m) => opt_i32(json_view_members(fields@), key@) == Ok::<Option<i32>, SchemaError>(
                m,
            ),
            Err(e) => opt_i32(json_view_members(fields@), key@) == Err::<Option<i32>, SchemaError>(
                e,
            ),
        },
{
    match get_field(fields, key) {
        None => Ok(None),
        Some(v) => match v {
            JsonValue::Null => Ok(None),
            JsonValue::Num(m) => match micros_to_i32(*m) {
                Ok(q) => Ok(Some(q)),
                Err(e) => Err(e),
            },
            _ => Err(SchemaError::WrongType),
        },
    }
}

/// An optional boolean field: absent or null means no value.
pub open spec fn opt_bool(fields: Seq<(Seq<char>, JsonModel)>, key: Seq<char>) -> Result<
    Option<bool>,
    SchemaError,
> {
    match obj_get(fields, key) {
        None => Ok(None),
        Some(JsonModel::Null) => Ok(None),
        Some(JsonModel::Bool(b)) => Ok(Some(b)),
        Some(_) => Err(SchemaError::WrongType),
    }
}

fn opt_bool_field(fields: &Vec<(String, JsonValue)>, key: &str) -> (r: Result<
    Option<bool>,
    SchemaError,
>)
    ensures
        match r {
            Ok(m) => opt_bool(json_view_members(fields@), key@) == Ok::<Option<bool>, SchemaError>(
                m,
            ),
            Err(e) => opt_bool(json_view_members(fields@), key@) == Err::<
                Option<bool>,
                SchemaError,
            >(e),
        },
{
    match get_field(fields, key) {
        None => Ok(None),
        Some(v) => match v {
            JsonValue::Null => Ok(None),
            JsonValue::Bool(b) => Ok(Some(*b)),
            _ => Err(SchemaError::WrongType),
        },
    }
}

/// A required boolean field.
pub open spec fn req_bool(fields: Seq<(Seq<char>, JsonModel)>, key: Seq<char>) -> Result<
    bool,
    SchemaError,
> {
    match obj_get(fields, key) {
        None => Err(SchemaError::MissingField),
        Some(JsonModel::Bool(b)) => Ok(b),
        Some(_) => Err(SchemaError::WrongType),
    }
}

fn req_bool_field(fields: &Vec<(String, JsonValue)>, key: &str) -> (r: Result<bool, SchemaError>)
    ensures
        match r {
            Ok(m) => req_bool(json_view_members(fields@), key@) == Ok::<bool, SchemaError>(m),
            Err(e) => req_bool(json_view_members(fields@), key@) == Err::<bool, SchemaError>(e),
        },
{
    match get_field(fields, key) {
        None => Err(SchemaError::MissingField),
        Some(v) => match v {
            JsonValue::Bool(b) => Ok(*b),
            _ => Err(SchemaError::WrongType),
        },
    }
}

/// The sample points of a spark line: each is a number or null.
pub open spec fn dec_points(es: Seq<JsonModel>, i: int) -> Result<Seq<Option<i64>>, SchemaError>
    decreases es.len() - i,
{
    if i >= es.len() {
        Ok(Seq::empty())
    } else {
        match es[i] {
            JsonModel::Null => match dec_points(es, i + 1) {
                Ok(t) => Ok(seq![Option::<i64>::None] + t),
                Err(e) => Err(e),
            },
            JsonModel::Num(m) => if i64::MIN <= m <= i64::MAX {
                match dec_points(es, i + 1) {
                    Ok(t) => Ok(seq![Some(m as i64)] + t),
                    Err(e) => Err(e),
                }
            } else {
                Err(SchemaError::WrongType)
            },
            _ => Err(SchemaError::WrongType),
        }
    }
}

fn p_dec_points(es: &Vec<JsonValue>, i: usize) -> (r: Result<Vec<Option<i64>>, SchemaError>)
    requires
        i <= es@.len(),
    ensures
        match r {
            Ok(v) => dec_points(json_view_elems(es@), i as int) == Ok::<_, SchemaError>(
                v.deep_view(),
            ),
            Err(e) => dec_points(json_view_elems(es@), i as int) == Err::<
                Seq<Option<i64>>,
                SchemaError,
            >(e),
        },
    decreases es@.len() - i,
{
    if i >= es.len() {
        let v: Vec<Option<i64>> = Vec::new();
        proof {
            assert(v.deep_view() =~= Seq::<Option<i64>>::empty());
        }
        Ok(v)
    } else {
        match &es[i] {
            JsonValue::Null => match p_dec_points(es, i + 1) {
                Ok(t) => {
                    let ghost tail = t.deep_view();
                    let mut t = t;
                    t.insert(0, None);
                    proof {
                        assert(t.deep_view() =~= seq![Option::<i64>::None] + tail);
                    }
                    Ok(t)
                },
                Err(e) => Err(e),
            },
            JsonValue::Num(m) => {
                let mv = *m;
                match p_dec_points(es, i + 1) {
                    Ok(t) => {
                        let ghost tail = t.deep_view();
                        let mut t = t;
                        t.insert(0, Some(mv));
                        proof {
                            assert(t.deep_view() =~= seq![Some(mv)] + tail);
                        }
                        Ok(t)
                    },
                    Err(e) => Err(e),
                }
            },
            _ => Err(SchemaError::WrongType),
        }
    }
}

/// One spark line object: an optional `data` array of optional points, and
/// an optional `totalChange`.
pub open spec fn dec_sparkline(j: JsonModel) -> Result<SparkLineModel, SchemaError> {
    match j {
        JsonModel::Obj(fs) => {
            let data = match obj_get(fs, "data"@) {
                None => Ok(None),
                Some(JsonModel::Null) => Ok(None),
                Some(JsonModel::Arr(es)) => match dec_points(es, 0) {
                    Ok(ps) => Ok(Some(ps)),
                    Err(e) => Err(e),
                },
                Some(_) => Err(SchemaError::WrongType),
            };
            match data {
                Ok(d) => match opt_num(fs, "totalChange"@) {
                    Ok(tc) => Ok(SparkLineModel { data: d, total_change: tc }),
                    Err(e) => Err(e),
                },
                Err(e) => Err(e),
            }
        },
        _ => Err(SchemaError::WrongType),
    }
}

fn p_dec_sparkline(j: &JsonValue) -> (r: Result<SparkLine, SchemaError>)
    ensures
        match r {
            Ok(v) => dec_sparkline(json_view(*j)) == Ok::<_, SchemaError>(v.deep_view()),
            Err(e) => dec_sparkline(json_view(*j)) == Err::<SparkLineModel, SchemaError>(e),
        },
{
    match j {
        JsonValue::Obj(fs) => {
            let data = match get_field(fs, "data") {
                None => None,
                Some(v) => match v {
                    JsonValue::Null => None,
                    JsonValue::Arr(es) => match p_dec_points(es, 0) {
                        Ok(ps) => Some(ps),
                        Err(e) => {
                            return Err(e);
                        },
                    },
                    _ => {
                        return Err(SchemaError::WrongType);
                    },
                },
            };
            match opt_num_field(fs, "totalChange") {
                Ok(tc) => Ok(SparkLine { data, total_change: tc }),
                Err(e) => Err(e),
            }
        },
        _ => Err(SchemaError::WrongType),
    }
}

/// One exchange quote object.
pub open spec fn dec_currency_data(j: JsonModel) -> Result<CurrencyDataModel, SchemaError> {
    match j {
        JsonModel::Obj(fs) => match req_i32(fs, "id"@) {
            Err(e) => Err(e),
            Ok(id) => match req_i32(fs, "league_id"@) {
                Err(e) => Err(e),
                Ok(league_id) => match req_i32(fs, "pay_currency_id"@) {
                    Err(e) => Err(e),
                    Ok(pay_currency_id) => match req_i32(fs, "get_currency_id"@) {
                        Err(e) => Err(e),
                        Ok(get_currency_id) => match req_str(fs, "sample_time_utc"@) {
                            Err(e) => Err(e),
                            Ok(sample_time_utc) => match req_i32(fs, "count"@) {
                                Err(e) => Err(e),
                                Ok(count) => match req_num(fs, "value"@) {
                                    Err(e) => Err(e),
                                    Ok(value) => match opt_i32(fs, "data_point_count"@) {
                                        Err(e) => Err(e),
                                        Ok(data_point_count) => match opt_bool(
                                            fs,
                                            "includes_secondary"@,
                                        ) {
                                            Err(e) => Err(e),
                                            Ok(includes_secondary) => match opt_i32(
                                                fs,
                                                "listing_count"@,
                                            ) {
                                                Err(e) => Err(e),
                                                Ok(listing_count) => Ok(
                                                    CurrencyDataModel {
                                                        id,
                                                        league_id,
                                                        pay_currency_id,
                                                        get_currency_id,
                                                        sample_time_utc,
                                                        count,
                                                        value,
                                                        data_point_count,
                                                        includes_secondary,
                                                        listing_count,
                                                    },
                                                ),
                                            },
                                        },
                                    },
                                },
                            },
                        },
                    },
                },
            },
        },
        _ => Err(SchemaError::WrongType),
    }
}

fn p_dec_currency_data(j: &JsonValue) -> (r: Result<CurrencyData, SchemaError>)
    ensures
        match r {
            Ok(v) => dec_currency_data(json_view(*j)) == Ok::<_, SchemaError>(v.deep_view()),
            Err(e) => dec_currency_data(json_view(*j)) == Err::<CurrencyDataModel, SchemaError>(e),
        },
{
    match j {
        JsonValue::Obj(fs) => {
            let id = match req_i32_field(fs, "id") {
                Ok(x) => x,
                Err(e) => {
                    return Err(e);
                },
            };
            let league_id = match req_i32_field(fs, "league_id") {
                Ok(x) => x,
                Err(e) => {
                    return Err(e);
                },
            };
            let pay_currency_id = match req_i32_field(fs, "pay_currency_id") {
                Ok(x) => x,
                Err(e) => {
                    return Err(e);
                },
            };
            let get_currency_id = match req_i32_field(fs, "get_currency_id") {
                Ok(x) => x,
                Err(e) => {
                    return Err(e);
                },
            };
            let sample_time_utc = match req_str_field(fs, "sample_time_utc") {
                Ok(x) => x,
                Err(e) => {
                    return Err(e);
                },
            };
            let count = match req_i32_field(fs, "count") {
                Ok(x) => x,
                Err(e) => {
                    return Err(e);
                },
            };
            let value = match req_num_field(fs, "value") {
                Ok(x) => x,
                Err(e) => {
                    return Err(e);
                },
            };
            let data_point_count = match opt_i32_field(fs, "data_point_count") {
                Ok(x) => x,
                Err(e) => {
                    return Err(e);
                },
            };
            let includes_secondary = match opt_bool_field(fs, "includes_secondary") {
                Ok(x) => x,
                Err(e) => {
                    return Err(e);
                },
            };
            let listing_count = match opt_i32_field(fs, "listing_count") {
                Ok(x) => x,
                Err(e) => {
                    return Err(e);
                },
            };
            Ok(
                CurrencyData {
                    id,
                    league_id,
                    pay_currency_id,
                    get_currency_id,
                    sample_time_utc,
                    count,
                    value,
                    data_point_count,
                    includes_secondary,
                    listing_count,
                },
            )
        },
        _ => Err(SchemaError::WrongType),
    }
}

/// An optional exchange quote field: absent or null means no value.
pub open spec fn opt_currency_data(fields: Seq<(Seq<char>, JsonModel)>, key: Seq<char>) -> Result<
    Option<CurrencyDataModel>,
    SchemaError,
> {
    match obj_get(fields, key) {
        None => Ok(None),
        Some(JsonModel::Null) => Ok(None),
        Some(o) => match dec_currency_data(o) {
            Ok(d) => Ok(Some(d)),
            Err(e) => Err(e),
        },
    }
}

fn opt_currency_data_field(fields: &Vec<(String, JsonValue)>, key: &str) -> (r: Result<
    Option<CurrencyData>,
    SchemaError,
>)
    ensures
        match r {
            Ok(v) => opt_currency_data(json_view_members(fields@), key@) == Ok::<_, SchemaError>(
                v.deep_view(),
            ),
            Err(e) => opt_currency_data(json_view_members(fields@), key@) == Err::<
                Option<CurrencyDataModel>,
                SchemaError,
            >(e),
        },
{
    match get_field(fields, key) {
        None => Ok(None),
        Some(v) => match v {
            JsonValue::Null => Ok(None),
            o => match p_dec_currency_data(o) {
                Ok(d) => Ok(Some(d)),
                Err(e) => Err(e),
            },
        },
    }
}

/// A required spark line field.
pub open spec fn req_sparkline(fields: Seq<(Seq<char>, JsonModel)>, key: Seq<char>) -> Result<
    SparkLineModel,
    SchemaError,
> {
    match obj_get(fields, key) {
        None => Err(SchemaError::MissingField),
        Some(o) => dec_sparkline(o),
    }
}

fn req_sparkline_field(fields: &Vec<(String, JsonValue)>, key: &str) -> (r: Result<
    SparkLine,
    SchemaError,
>)
    ensures
        match r {
            Ok(v) => req_sparkline(json_view_members(fields@), key@) == Ok::<_, SchemaError>(
                v.deep_view(),
            ),
            Err(e) => req_sparkline(json_view_members(fields@), key@) == Err::<
                SparkLineModel,
                SchemaError,
            >(e),
        },
{
    match get_field(fields, key) {
        None => Err(SchemaError::MissingField),
        Some(o) => p_dec_sparkline(o),
    }
}

/// One currency snapshot object.
pub open spec fn dec_currency_line(j: JsonModel) -> Result<CurrencyLineModel, SchemaError> {
    match j {
        JsonModel::Obj(fs) => match req_str(fs, "currencyTypeName"@) {
            Err(e) => Err(e),
            Ok(currency_type_name) => match opt_currency_data(fs, "pay"@) {
                Err(e) => Err(e),
                Ok(pay) => match opt_currency_data(fs, "receive"@) {
                    Err(e) => Err(e),
                    Ok(receive) => match req_sparkline(fs, "paySparkLine"@) {
                        Err(e) => Err(e),
                        Ok(pay_spark_line) => match req_sparkline(fs, "receiveSparkLine"@) {
                            Err(e) => Err(e),
                            Ok(receive_spark_line) => match opt_num(fs, "chaosEquivalent"@) {
                                Err(e) => Err(e),
                                Ok(chaos_equivalent) => match req_sparkline(
                                    fs,
                                    "lowConfidencePaySparkLine"@,
                                ) {
                                    Err(e) => Err(e),
                                    Ok(low_confidence_pay_spark_line) => match req_sparkline(
                                        fs,
                                        "lowConfidenceReceiveSparkLine"@,
                                    ) {
                                        Err(e) => Err(e),
                                        Ok(low_confidence_receive_spark_line) => match req_str(
                                            fs,
                                            "detailsId"@,
                                        ) {
                                            Err(e) => Err(e),
                                            Ok(details_id) => Ok(
                                                CurrencyLineModel {
                                                    currency_type_name,
                                                    pay,
                                                    receive,
                                                    pay_spark_line,
                                                    receive_spark_line,
                                                    chaos_equivalent,
                                                    low_confidence_pay_spark_line,
                                                    low_confidence_receive_spark_line,
                                                    details_id,
                                                },
                                            ),
                                        },
                                    },
                                },
                            },
                        },
                    },
                },
            },
        },
        _ => Err(SchemaError::WrongType),
    }
}

fn p_dec_currency_line(j: &JsonValue) -> (r: Result<CurrencyLine, SchemaError>)
    ensures
        match r {
            Ok(v) => dec_currency_line(json_view(*j)) == Ok::<_, SchemaError>(v.deep_view()),
            Err(e) => dec_currency_line(json_view(*j)) == Err::<CurrencyLineModel, SchemaError>(e),
        },
{
    match j {
        JsonValue::Obj(fs) => {
            let currency_type_name = match req_str_field(fs, "currencyTypeName") {
                Ok(x) => x,
                Err(e) => {
                    return Err(e);
                },
            };
            let pay = match opt_currency_data_field(fs, "pay") {
                Ok(x) => x,
                Err(e) => {
                    return Err(e);
                },
            };
            let receive = match opt_currency_data_field(fs, "receive") {
                Ok(x) => x,
                Err(e) => {
                    return Err(e);
                },
            };
            let pay_spark_line = match req_sparkline_field(fs, "paySparkLine") {
                Ok(x) => x,
                Err(e) => {
                    return Err(e);
                },
            };
            let receive_spark_line = match req_sparkline_field(fs, "receiveSparkLine") {
                Ok(x) => x,
                Err(e) => {
                    return Err(e);
                },
            };
            let chaos_equivalent = match opt_num_field(fs, "chaosEquivalent") {
                Ok(x) => x,
                Err(e) => {
                    return Err(e);
                },
            };
            let low_confidence_pay_spark_line = match req_sparkline_field(
                fs,
                "lowConfidencePaySparkLine",
            ) {
                Ok(x) => x,
                Err(e) => {
                    return Err(e);
                },
            };
            let low_confidence_receive_spark_line = match req_sparkline_field(
                fs,
                "lowConfidenceReceiveSparkLine",
            ) {
                Ok(x) => x,
                Err(e) => {
                    return Err(e);
                },
            };
            let details_id = match req_str_field(fs, "detailsId") {
                Ok(x) => x,
                Err(e) => {
                    return Err(e);
                },
            };
            Ok(
                CurrencyLine {
                    currency_type_name,
                    pay,
                    receive,
                    pay_spark_line,
                    receive_spark_line,
                    chaos_equivalent,
                    low_confidence_pay_spark_line,
                    low_confidence_receive_spark_line,
                    details_id,
                },
            )
        },
        _ => Err(SchemaError::WrongType),
    }
}

/// One currency detail object.
pub open spec fn dec_currency_detail(j: JsonModel) -> Result<CurrencyDetailModel, SchemaError> {
    match j {
        JsonModel::Obj(fs) => match req_i32(fs, "id"@) {
            Err(e) => Err(e),
            Ok(id) => match opt_str(fs, "icon"@) {
                Err(e) => Err(e),
                Ok(icon) => match req_str(fs, "name"@) {
                    Err(e) => Err(e),
                    Ok(name) => match opt_str(fs, "tradeId"@) {
                        Err(e) => Err(e),
                        Ok(trade_id) => Ok(CurrencyDetailModel { id, icon, name, trade_id }),
                    },
                },
            },
        },
        _ => Err(SchemaError::WrongType),
    }
}

fn p_dec_currency_detail(j: &JsonValue) -> (r: Result<CurrencyDetail, SchemaError>)
    ensures
        match r {
            Ok(v) => dec_currency_detail(json_view(*j)) == Ok::<_, SchemaError>(v.deep_view()),
            Err(e) => dec_currency_detail(json_view(*j)) == Err::<
                CurrencyDetailModel,
                SchemaError,
            >(e),
        },
{
    match j {
        JsonValue::Obj(fs) => {
            let id = match req_i32_field(fs, "id") {
                Ok(x) => x,
                Err(e) => {
                    return Err(e);
                },
            };
            let icon = match opt_str_field(fs, "icon") {
                Ok(x) => x,
                Err(e) => {
                    return Err(e);
                },
            };
            let name = match req_str_field(fs, "name") {
                Ok(x) => x,
                Err(e) => {
                    return Err(e);
                },
            };
            let trade_id = match opt_str_field(fs, "tradeId") {
                Ok(x) => x,
                Err(e) => {
                    return Err(e);
                },
            };
            Ok(CurrencyDetail { id, icon, name, trade_id })
        },
        _ => Err(SchemaError::WrongType),
    }
}

/// The currency snapshots of a `lines` array, in order.
pub open spec fn dec_currency_lines(es: Seq<JsonModel>, i: int) -> Result<
    Seq<CurrencyLineModel>,
    SchemaError,
>
    decreases es.len() - i,
{
    if i >= es.len() {
        Ok(Seq::empty())
    } else {
        match dec_currency_line(es[i]) {
            Err(e) => Err(e),
            Ok(l) => match dec_currency_lines(es, i + 1) {
                Ok(t) => Ok(seq![l] + t),
                Err(e) => Err(e),
            },
        }
    }
}

fn p_dec_currency_lines(es: &Vec<JsonValue>, i: usize) -> (r: Result<
    Vec<CurrencyLine>,
    SchemaError,
>)
    requires
        i <= es@.len(),
    ensures
        match r {
            Ok(v) => dec_currency_lines(json_view_elems(es@), i as int) == Ok::<_, SchemaError>(
                v.deep_view(),
            ),
            Err(e) => dec_currency_lines(json_view_elems(es@), i as int) == Err::<
                Seq<CurrencyLineModel>,
                SchemaError,
            >(e),
        },
    decreases es@.len() - i,
{
    if i >= es.len() {
        let v: Vec<CurrencyLine> = Vec::new();
        proof {
            assert(v.deep_view() =~= Seq::<CurrencyLineModel>::empty());
        }
        Ok(v)
    } else {
        match p_dec_currency_line(&es[i]) {
            Err(e) => Err(e),
            Ok(l) => match p_dec_currency_lines(es, i + 1) {
                Ok(t) => {
                    let ghost lv = l.deep_view();
                    let ghost tail = t.deep_view();
                    let mut t = t;
                    t.insert(0, l);
                    proof {
                        assert(t.deep_view() =~= seq![lv] + tail);
                    }
                    Ok(t)
                },
                Err(e) => Err(e),
            },
        }
    }
}

/// The currency details of a `currencyDetails` array, in order.
pub open spec fn dec_currency_details(es: Seq<JsonModel>, i: int) -> Result<
    Seq<CurrencyDetailModel>,
    SchemaError,
>
    decreases es.len() - i,
{
    if i >= es.len() {
        Ok(Seq::empty())
    } else {
        match dec_currency_detail(es[i]) {
            Err(e) => Err(e),
            Ok(l) => match dec_currency_details(es, i + 1) {
                Ok(t) => Ok(seq![l] + t),
                Err(e) => Err(e),
            },
        }
    }
}

fn p_dec_currency_details(es: &Vec<JsonValue>, i: usize) -> (r: Result<
    Vec<CurrencyDetail>,
    SchemaError,
>)
    requires
        i <= es@.len(),
    ensures
        match r {
            Ok(v) => dec_currency_details(json_view_elems(es@), i as int) == Ok::<_, SchemaError>(
                v.deep_view(),
            ),
            Err(e) => dec_currency_details(json_view_elems(es@), i as int) == Err::<
                Seq<CurrencyDetailModel>,
                SchemaError,
            >(e),
        },
    decreases es@.len() - i,
{
    if i >= es.len() {
        let v: Vec<CurrencyDetail> = Vec::new();
        proof {
            assert(v.deep_view() =~= Seq::<CurrencyDetailModel>::empty());
        }
        Ok(v)
    } else {
        match p_dec_currency_detail(&es[i]) {
            Err(e) => Err(e),
            Ok(l) => match p_dec_currency_details(es, i + 1) {
                Ok(t) => {
                    let ghost lv = l.deep_view();
                    let ghost tail = t.deep_view();
                    let mut t = t;
                    t.insert(0, l);
                    proof {
                        assert(t.deep_view() =~= seq![lv] + tail);
                    }
                    Ok(t)
                },
                Err(e) => Err(e),
            },
        }
    }
}

/// A whole currency overview document.
pub open spec fn dec_currency_overview(j: JsonModel) -> Result<CurrencyOverviewModel, SchemaError> {
    match j {
        JsonModel::Obj(fs) => match obj_get(fs, "lines"@) {
            None => Err(SchemaError::MissingField),
            Some(JsonModel::Arr(es)) => match dec_currency_lines(es, 0) {
                Err(e) => Err(e),
                Ok(lines) => match obj_get(fs, "currencyDetails"@) {
                    None => Err(SchemaError::MissingField),
                    Some(JsonModel::Arr(ds)) => match dec_currency_details(ds, 0) {
                        Err(e) => Err(e),
                        Ok(currency_details) => Ok(
                            CurrencyOverviewModel { lines, currency_details },
                        ),
                    },
                    Some(_) => Err(SchemaError::WrongType),
                },
            },
            Some(_) => Err(SchemaError::WrongType),
        },
        _ => Err(SchemaError::WrongType),
    }
}

fn p_dec_currency_overview(j: &JsonValue) -> (r: Result<CurrencyOverviewResponse, SchemaError>)
    ensures
        match r {
            Ok(v) => dec_currency_overview(json_view(*j)) == Ok::<_, SchemaError>(v.deep_view()),
            Err(e) => dec_currency_overview(json_view(*j)) == Err::<
                CurrencyOverviewModel,
                SchemaError,
            >(e),
        },
{
    match j {
        JsonValue::Obj(fs) => {
            let lines = match get_field(fs, "lines") {
                None => {
                    return Err(SchemaError::MissingField);
                },
                Some(v) => match v {
                    JsonValue::Arr(es) => match p_dec_currency_lines(es, 0) {
                        Ok(ls) => ls,
                        Err(e) => {
                            return Err(e);
                        },
                    },
                    _ => {
                        return Err(SchemaError::WrongType);
                    },
                },
            };
            let currency_details = match get_field(fs, "currencyDetails") {
                None => {
                    return Err(SchemaError::MissingField);
                },
                Some(v) => match v {
                    JsonValue::Arr(ds) => match p_dec_currency_details(ds, 0) {
                        Ok(ls) => ls,
                        Err(e) => {
                            return Err(e);
                        },
                    },
                    _ => {
                        return Err(SchemaError::WrongType);
                    },
                },
            };
            Ok(CurrencyOverviewResponse { lines, currency_details })
        },
        _ => Err(SchemaError::WrongType),
    }
}

/// One item affix object.
pub open spec fn dec_modifier(j: JsonModel) -> Result<ModifierModel, SchemaError> {
    match j {
        JsonModel::Obj(fs) => match req_str(fs, "text"@) {
            Err(e) => Err(e),
            Ok(text) => match req_bool(fs, "optional"@) {
                Err(e) => Err(e),
                Ok(optional) => Ok(ModifierModel { text, optional }),
            },
        },
        _ => Err(SchemaError::WrongType),
    }
}

fn p_dec_modifier(j: &JsonValue) -> (r: Result<Modifier, SchemaError>)
    ensures
        match r {
            Ok(v) => dec_modifier(json_view(*j)) == Ok::<_, SchemaError>(v.deep_view()),
            Err(e) => dec_modifier(json_view(*j)) == Err::<ModifierModel, SchemaError>(e),
        },
{
    match j {
        JsonValue::Obj(fs) => {
            let text = match req_str_field(fs, "text") {
                Ok(x) => x,
                Err(e) => {
                    return Err(e);
                },
            };
            let optional = match req_bool_field(fs, "optional") {
                Ok(x) => x,
                Err(e) => {
                    return Err(e);
                },
            };
            Ok(Modifier { text, optional })
        },
        _ => Err(SchemaError::WrongType),
    }
}

/// The affixes of a modifier array, in order.
pub open spec fn dec_modifiers(es: Seq<JsonModel>, i: int) -> Result<Seq<ModifierModel>, SchemaError>
    decreases es.len() - i,
{
    if i >= es.len() {
        Ok(Seq::empty())
    } else {
        match dec_modifier(es[i]) {
            Err(e) => Err(e),
            Ok(l) => match dec_modifiers(es, i + 1) {
                Ok(t) => Ok(seq![l] + t),
                Err(e) => Err(e),
            },
        }
    }
}

fn p_dec_modifiers(es: &Vec<JsonValue>, i: usize) -> (r: Result<Vec<Modifier>, SchemaError>)
    requires
        i <= es@.len(),
    ensures
        match r {
            Ok(v) => dec_modifiers(json_view_elems(es@), i as int) == Ok::<_, SchemaError>(
                v.deep_view(),
            ),
            Err(e) => dec_modifiers(json_view_elems(es@), i as int) == Err::<
                Seq<ModifierModel>,
                SchemaError,
            >(e),
        },
    decreases es@.len() - i,
{
    if i >= es.len() {
        let v: Vec<Modifier> = Vec::new();
        proof {
            assert(v.deep_view() =~= Seq::<ModifierModel>::empty());
        }
        Ok(v)
    } else {
        match p_dec_modifier(&es[i]) {
            Err(e) => Err(e),
            Ok(l) => match p_dec_modifiers(es, i + 1) {
                Ok(t) => {
                    let ghost lv = l.deep_view();
                    let ghost tail = t.deep_view();
                    let mut t = t;
                    t.insert(0, l);
                    proof {
                        assert(t.deep_view() =~= seq![lv] + tail);
                    }
                    Ok(t)
                },
                Err(e) => Err(e),
            },
        }
    }
}

/// A required modifier array field.
pub open spec fn req_modifiers(fields: Seq<(Seq<char>, JsonModel)>, key: Seq<char>) -> Result<
    Seq<ModifierModel>,
    SchemaError,
> {
    match obj_get(fields, key) {
        None => Err(SchemaError::MissingField),
        Some(JsonModel::Arr(es)) => dec_modifiers(es, 0),
        Some(_) => Err(SchemaError::WrongType),
    }
}

fn req_modifiers_field(fields: &Vec<(String, JsonValue)>, key: &str) -> (r: Result<
    Vec<Modifier>,
    SchemaError,
>)
    ensures
        match r {
            Ok(v) => req_modifiers(json_view_members(fields@), key@) == Ok::<_, SchemaError>(
                v.deep_view(),
            ),
            Err(e) => req_modifiers(json_view_members(fields@), key@) == Err::<
                Seq<ModifierModel>,
                SchemaError,
            >(e),
        },
{
    match get_field(fields, key) {
        None => Err(SchemaError::MissingField),
        Some(v) => match v {
            JsonValue::Arr(es) => p_dec_modifiers(es, 0),
            _ => Err(SchemaError::WrongType),
        },
    }
}

/// One tradeable modifier range object.
pub open spec fn dec_trade_info(j: JsonModel) -> Result<TradeInfoModel, SchemaError> {
    match j {
        JsonModel::Obj(fs) => match req_str(fs, "mod"@) {
            Err(e) => Err(e),
            Ok(mod_name) => match req_i32(fs, "min"@) {
                Err(e) => Err(e),
                Ok(min) => match req_i32(fs, "max"@) {
                    Err(e) => Err(e),
                    Ok(max) => Ok(TradeInfoModel { mod_name, min, max }),
                },
            },
        },
        _ => Err(SchemaError::WrongType),
    }
}

fn p_dec_trade_info(j: &JsonValue) -> (r: Result<TradeInfo, SchemaError>)
    ensures
        match r {
            Ok(v) => dec_trade_info(json_view(*j)) == Ok::<_, SchemaError>(v.deep_view()),
            Err(e) => dec_trade_info(json_view(*j)) == Err::<TradeInfoModel, SchemaError>(e),
        },
{
    match j {
        JsonValue::Obj(fs) => {
            let mod_name = match req_str_field(fs, "mod") {
                Ok(x) => x,
                Err(e) => {
                    return Err(e);
                },
            };
            let min = match req_i32_field(fs, "min") {
                Ok(x) => x,
                Err(e) => {
                    return Err(e);
                },
            };
            let max = match req_i32_field(fs, "max") {
                Ok(x) => x,
                Err(e) => {
                    return Err(e);
                },
            };
            Ok(TradeInfo { mod_name, min, max })
        },
        _ => Err(SchemaError::WrongType),
    }
}

/// The entries of a trade info array, in order.
pub open spec fn dec_trade_infos(es: Seq<JsonModel>, i: int) -> Result<
    Seq<TradeInfoModel>,
    SchemaError,
>
    decreases es.len() - i,
{
    if i >= es.len() {
        Ok(Seq::empty())
    } else {
        match dec_trade_info(es[i]) {
            Err(e) => Err(e),
            Ok(l) => match dec_trade_infos(es, i + 1) {
                Ok(t) => Ok(seq![l] + t),
                Err(e) => Err(e),
            },
        }
    }
}

fn p_dec_trade_infos(es: &Vec<JsonValue>, i: usize) -> (r: Result<Vec<TradeInfo>, SchemaError>)
    requires
        i <= es@.len(),
    ensures
        match r {
            Ok(v) => dec_trade_infos(json_view_elems(es@), i as int) == Ok::<_, SchemaError>(
                v.deep_view(),
            ),
            Err(e) => dec_trade_infos(json_view_elems(es@), i as int) == Err::<
                Seq<TradeInfoModel>,
                SchemaError,
            >(e),
        },
    decreases es@.len() - i,
{
    if i >= es.len() {
        let v: Vec<TradeInfo> = Vec::new();
        proof {
            assert(v.deep_view() =~= Seq::<TradeInfoModel>::empty());
        }
        Ok(v)
    } else {
        match p_dec_trade_info(&es[i]) {
            Err(e) => Err(e),
            Ok(l) => match p_dec_trade_infos(es, i + 1) {
                Ok(t) => {
                    let ghost lv = l.deep_view();
                    let ghost tail = t.deep_view();
                    let mut t = t;
                    t.insert(0, l);
                    proof {
                        assert(t.deep_view() =~= seq![lv] + tail);
                    }
                    Ok(t)
                },
                Err(e) => Err(e),
            },
        }
    }
}

/// An optional trade info array field: absent or null means no value.
pub open spec fn opt_trade_infos(fields: Seq<(Seq<char>, JsonModel)>, key: Seq<char>) -> Result<
    Option<Seq<TradeInfoModel>>,
    SchemaError,
> {
    match obj_get(fields, key) {
        None => Ok(None),
        Some(JsonModel::Null) => Ok(None),
        Some(JsonModel::Arr(es)) => match dec_trade_infos(es, 0) {
            Ok(t) => Ok(Some(t)),
            Err(e) => Err(e),
        },
        Some(_) => Err(SchemaError::WrongType),
    }
}

fn opt_trade_infos_field(fields: &Vec<(String, JsonValue)>, key: &str) -> (r: Result<
    Option<Vec<TradeInfo>>,
    SchemaError,
>)
    ensures
        match r {
            Ok(v) => opt_trade_infos(json_view_members(fields@), key@) == Ok::<_, SchemaError>(
                v.deep_view(),
            ),
            Err(e) => opt_trade_infos(json_view_members(fields@), key@) == Err::<
                Option<Seq<TradeInfoModel>>,
                SchemaError,
            >(e),
        },
{
    match get_field(fields, key) {
        None => Ok(None),
        Some(v) => match v {
            JsonValue::Null => Ok(None),
            JsonValue::Arr(es) => match p_dec_trade_infos(es, 0) {
                Ok(t) => Ok(Some(t)),
                Err(e) => Err(e),
            },
            _ => Err(SchemaError::WrongType),
        },
    }
}

/// One item snapshot object.
pub open spec fn dec_item_line(j: JsonModel) -> Result<ItemLineModel, SchemaError> {
    match j {
        JsonModel::Obj(fs) => match req_i32(fs, "id"@) {
            Err(e) => Err(e),
            Ok(id) => match req_str(fs, "name"@) {
                Err(e) => Err(e),
                Ok(name) => match req_str(fs, "icon"@) {
                    Err(e) => Err(e),
                    Ok(icon) => match opt_i32(fs, "mapTier"@) {
                        Err(e) => Err(e),
                        Ok(map_tier) => match opt_i32(fs, "levelRequired"@) {
                            Err(e) => Err(e),
                            Ok(level_required) => match opt_str(fs, "baseType"@) {
                                Err(e) => Err(e),
                                Ok(base_type) => match opt_i32(fs, "stackSize"@) {
                                    Err(e) => Err(e),
                                    Ok(stack_size) => match opt_str(fs, "variant"@) {
                                        Err(e) => Err(e),
                                        Ok(variant) => match opt_i32(fs, "itemClass"@) {
                                            Err(e) => Err(e),
                                            Ok(item_class) => match req_sparkline(
                                                fs,
                                                "sparkline"@,
                                            ) {
                                                Err(e) => Err(e),
                                                Ok(sparkline) => match req_sparkline(
                                                    fs,
                                                    "lowConfidenceSparkline"@,
                                                ) {
                                                    Err(e) => Err(e),
                                                    Ok(low_confidence_sparkline) => dec_item_line_rest(
                                                        fs,
                                                        ItemLinePrefix {
                                                            id,
                                                            name,
                                                            icon,
                                                            map_tier,
                                                            level_required,
                                                            base_type,
                                                            stack_size,
                                                            variant,
                                                            item_class,
                                                            sparkline,
                                                            low_confidence_sparkline,
                                                        },
                                                    ),
                                                },
                                            },
                                        },
                                    },
                                },
                            },
                        },
                    },
                },
            },
        },
        _ => Err(SchemaError::WrongType),
    }
}

/// The first eleven fields of an item snapshot, gathered while the rest are
/// decoded.
pub struct ItemLinePrefix {
    pub id: i32,
    pub name: Seq<char>,
    pub icon: Seq<char>,
    pub map_tier: Option<i32>,
    pub level_required: Option<i32>,
    pub base_type: Option<Seq<char>>,
    pub stack_size: Option<i32>,
    pub variant: Option<Seq<char>>,
    pub item_class: Option<i32>,
    pub sparkline: SparkLineModel,
    pub low_confidence_sparkline: SparkLineModel,
}

/// The remaining fields of an item snapshot.
pub open spec fn dec_item_line_rest(fs: Seq<(Seq<char>, JsonModel)>, p: ItemLinePrefix) -> Result<
    ItemLineModel,
    SchemaError,
> {
    match req_modifiers(fs, "implicitModifiers"@) {
        Err(e) => Err(e),
        Ok(implicit_modifiers) => match req_modifiers(fs, "explicitModifiers"@) {
            Err(e) => Err(e),
            Ok(explicit_modifiers) => match req_str(fs, "flavourText"@) {
                Err(e) => Err(e),
                Ok(flavour_text) => match opt_bool(fs, "corrupted"@) {
                    Err(e) => Err(e),
                    Ok(corrupted) => match opt_i32(fs, "gemLevel"@) {
                        Err(e) => Err(e),
                        Ok(gem_level) => match opt_i32(fs, "gemQuality"@) {
                            Err(e) => Err(e),
                            Ok(gem_quality) => match opt_str(fs, "itemType"@) {
                                Err(e) => Err(e),
                                Ok(item_type) => match req_num(fs, "chaosValue"@) {
                                    Err(e) => Err(e),
                                    Ok(chaos_value) => match opt_num(fs, "exaltedValue"@) {
                                        Err(e) => Err(e),
                                        Ok(exalted_value) => match opt_num(fs, "divineValue"@) {
                                            Err(e) => Err(e),
                                            Ok(divine_value) => match req_i32(fs, "count"@) {
                                                Err(e) => Err(e),
                                                Ok(count) => match req_str(fs, "detailsId"@) {
                                                    Err(e) => Err(e),
                                                    Ok(details_id) => match opt_i32(
                                                        fs,
                                                        "listingCount"@,
                                                    ) {
                                                        Err(e) => Err(e),
                                                        Ok(listing_count) => match opt_i32(
                                                            fs,
                                                            "links"@,
                                                        ) {
                                                            Err(e) => Err(e),
                                                            Ok(links) => match opt_trade_infos(
                                                                fs,
                                                                "tradeInfo"@,
                                                            ) {
                                                                Err(e) => Err(e),
                                                                Ok(trade_info) => Ok(
                                                                    ItemLineModel {
                                                                        id: p.id,
                                                                        name: p.name,
                                                                        icon: p.icon,
                                                                        map_tier: p.map_tier,
                                                                        level_required:
                                                                            p.level_required,
                                                                        base_type: p.base_type,
                                                                        stack_size: p.stack_size,
                                                                        variant: p.variant,
                                                                        item_class: p.item_class,
                                                                        sparkline: p.sparkline,
                                                                        low_confidence_sparkline:
                                                                            p.low_confidence_sparkline,
                                                                        implicit_modifiers,
                                                                        explicit_modifiers,
                                                                        flavour_text,
                                                                        corrupted,
                                                                        gem_level,
                                                                        gem_quality,
                                                                        item_type,
                                                                        chaos_value,
                                                                        exalted_value,
                                                                        divine_value,
                                                                        count,
                                                                        details_id,
                                                                        listing_count,
                                                                        links,
                                                                        trade_info,
                                                                    },
                                                                ),
                                                            },
                                                        },
                                                    },
                                                },
                                            },
                                        },
                                    },
                                },
                            },
                        },
                    },
                },
            },
        },
    }
}

fn p_dec_item_line(j: &JsonValue) -> (r: Result<ItemLine, SchemaError>)
    ensures
        match r {
            Ok(v) => dec_item_line(json_view(*j)) == Ok::<_, SchemaError>(v.deep_view()),
            Err(e) => dec_item_line(json_view(*j)) == Err::<ItemLineModel, SchemaError>(e),
        },
{
    match j {
        JsonValue::Obj(fs) => {
            let id = match req_i32_field(fs, "id") {
                Ok(x) => x,
                Err(e) => {
                    return Err(e);
                },
            };
            let name = match req_str_field(fs, "name") {
                Ok(x) => x,
                Err(e) => {
                    return Err(e);
                },
            };
            let icon = match req_str_field(fs, "icon") {
                Ok(x) => x,
                Err(e) => {
                    return Err(e);
                },
            };
            let map_tier = match opt_i32_field(fs, "mapTier") {
                Ok(x) => x,
                Err(e) => {
                    return Err(e);
                },
            };
            let level_required = match opt_i32_field(fs, "levelRequired") {
                Ok(x) => x,
                Err(e) => {
                    return Err(e);
                },
            };
            let base_type = match opt_str_field(fs, "baseType") {
                Ok(x) => x,
                Err(e) => {
                    return Err(e);
                },
            };
            let stack_size = match opt_i32_field(fs, "stackSize") {
                Ok(x) => x,
                Err(e) => {
                    return Err(e);
                },
            };
            let variant = match opt_str_field(fs, "variant") {
                Ok(x) => x,
                Err(e) => {
                    return Err(e);
                },
            };
            let item_class = match opt_i32_field(fs, "itemClass") {
                Ok(x) => x,
                Err(e) => {
                    return Err(e);
                },
            };
            let sparkline = match req_sparkline_field(fs, "sparkline") {
                Ok(x) => x,
                Err(e) => {
                    return Err(e);
                },
            };
            let low_confidence_sparkline = match req_sparkline_field(fs, "lowConfidenceSparkline") {
                Ok(x) => x,
                Err(e) => {
                    return Err(e);
                },
            };
            let implicit_modifiers = match req_modifiers_field(fs, "implicitModifiers") {
                Ok(x) => x,
                Err(e) => {
                    return Err(e);
                },
            };
            let explicit_modifiers = match req_modifiers_field(fs, "explicitModifiers") {
                Ok(x) => x,
                Err(e) => {
                    return Err(e);
                },
            };
            let flavour_text = match req_str_field(fs, "flavourText") {
                Ok(x) => x,
                Err(e) => {
                    return Err(e);
                },
            };
            let corrupted = match opt_bool_field(fs, "corrupted") {
                Ok(x) => x,
                Err(e) => {
                    return Err(e);
                },
            };
            let gem_level = match opt_i32_field(fs, "gemLevel") {
                Ok(x) => x,
                Err(e) => {
                    return Err(e);
                },
            };
            let gem_quality = match opt_i32_field(fs, "gemQuality") {
                Ok(x) => x,
                Err(e) => {
                    return Err(e);
                },
            };
            let item_type = match opt_str_field(fs, "itemType") {
                Ok(x) => x,
                Err(e) => {
                    return Err(e);
                },
            };
            let chaos_value = match req_num_field(fs, "chaosValue") {
                Ok(x) => x,
                Err(e) => {
                    return Err(e);
                },
            };
            let exalted_value = match opt_num_field(fs, "exaltedValue") {
                Ok(x) => x,
                Err(e) => {
                    return Err(e);
                },
            };
            let divine_value = match opt_num_field(fs, "divineValue") {
                Ok(x) => x,
                Err(e) => {
                    return Err(e);
                },
            };
            let count = match req_i32_field(fs, "count") {
                Ok(x) => x,
                Err(e) => {
                    return Err(e);
                },
            };
            let details_id = match req_str_field(fs, "detailsId") {
                Ok(x) => x,
                Err(e) => {
                    return Err(e);
                },
            };
            let listing_count = match opt_i32_field(fs, "listingCount") {
                Ok(x) => x,
                Err(e) => {
                    return Err(e);
                },
            };
            let links = match opt_i32_field(fs, "links") {
                Ok(x) => x,
                Err(e) => {
                    return Err(e);
                },
            };
            let trade_info = match opt_trade_infos_field(fs, "tradeInfo") {
                Ok(x) => x,
                Err(e) => {
                    return Err(e);
                },
            };
            Ok(
                ItemLine {
                    id,
                    name,
                    icon,
                    map_tier,
                    level_required,
                    base_type,
                    stack_size,
                    variant,
                    item_class,
                    sparkline,
                    low_confidence_sparkline,
                    implicit_modifiers,
                    explicit_modifiers,
                    flavour_text,
                    corrupted,
                    gem_level,
                    gem_quality,
                    item_type,
                    chaos_value,
                    exalted_value,
                    divine_value,
                    count,
                    details_id,
                    listing_count,
                    links,
                    trade_info,
                },
            )
        },
        _ => Err(SchemaError::WrongType),
    }
}

/// The item snapshots of a `lines` array, in order.
pub open spec fn dec_item_lines(es: Seq<JsonModel>, i: int) -> Result<Seq<ItemLineModel>, SchemaError>
    decreases es.len() - i,
{
    if i >= es.len() {
        Ok(Seq::empty())
    } else {
        match dec_item_line(es[i]) {
            Err(e) => Err(e),
            Ok(l) => match dec_item_lines(es, i + 1) {
                Ok(t) => Ok(seq![l] + t),
                Err(e) => Err(e),
            },
        }
    }
}

fn p_dec_item_lines(es: &Vec<JsonValue>, i: usize) -> (r: Result<Vec<ItemLine>, SchemaError>)
    requires
        i <= es@.len(),
    ensures
        match r {
            Ok(v) => dec_item_lines(json_view_elems(es@), i as int) == Ok::<_, SchemaError>(
                v.deep_view(),
            ),
            Err(e) => dec_item_lines(json_view_elems(es@), i as int) == Err::<
                Seq<ItemLineModel>,
                SchemaError,
            >(e),
        },
    decreases es@.len() - i,
{
    if i >= es.len() {
        let v: Vec<ItemLine> = Vec::new();
        proof {
            assert(v.deep_view() =~= Seq::<ItemLineModel>::empty());
        }
        Ok(v)
    } else {
        match p_dec_item_line(&es[i]) {
            Err(e) => Err(e),
            Ok(l) => match p_dec_item_lines(es, i + 1) {
                Ok(t) => {
                    let ghost lv = l.deep_view();
                    let ghost tail = t.deep_view();
                    let mut t = t;
                    t.insert(0, l);
                    proof {
                        assert(t.deep_view() =~= seq![lv] + tail);
                    }
                    Ok(t)
                },
                Err(e) => Err(e),
            },
        }
    }
}

/// A whole item overview document.
pub open spec fn dec_item_overview(j: JsonModel) -> Result<ItemOverviewModel, SchemaError> {
    match j {
        JsonModel::Obj(fs) => match obj_get(fs, "lines"@) {
            None => Err(SchemaError::MissingField),
            Some(JsonModel::Arr(es)) => match dec_item_lines(es, 0) {
                Err(e) => Err(e),
                Ok(lines) => Ok(ItemOverviewModel { lines }),
            },
            Some(_) => Err(SchemaError::WrongType),
        },
        _ => Err(SchemaError::WrongType),
    }
}

fn p_dec_item_overview(j: &JsonValue) -> (r: Result<ItemOverviewResponse, SchemaError>)
    ensures
        match r {
            Ok(v) => dec_item_overview(json_view(*j)) == Ok::<_, SchemaError>(v.deep_view()),
            Err(e) => dec_item_overview(json_view(*j)) == Err::<ItemOverviewModel, SchemaError>(e),
        },
{
    match j {
        JsonValue::Obj(fs) => {
            let lines = match get_field(fs, "lines") {
                None => {
                    return Err(SchemaError::MissingField);
                },
                Some(v) => match v {
                    JsonValue::Arr(es) => match p_dec_item_lines(es, 0) {
                        Ok(ls) => ls,
                        Err(e) => {
                            return Err(e);
                        },
                    },
                    _ => {
                        return Err(SchemaError::WrongType);
                    },
                },
            };
            Ok(ItemOverviewResponse { lines })
        },
        _ => Err(SchemaError::WrongType),
    }
}

/// What decoding a currency overview body yields: a parse failure is an
/// invalid document, and a parsed document is decoded field by field.
pub open spec fn decode_currency_overview_spec(s: Seq<char>) -> Result<
    CurrencyOverviewModel,
    SchemaError,
> {
    match parse_json_spec(s) {
        None => Err(SchemaError::InvalidJson),
        Some(j) => dec_currency_overview(j),
    }
}

/// Decode a currency overview response body.
pub fn decode_currency_overview(body: &str) -> (r: Result<CurrencyOverviewResponse, SchemaError>)
    ensures
        match r {
            Ok(v) => decode_currency_overview_spec(body@) == Ok::<_, SchemaError>(v.deep_view()),
            Err(e) => decode_currency_overview_spec(body@) == Err::<
                CurrencyOverviewModel,
                SchemaError,
            >(e),
        },
{
    match parse_json(body) {
        None => Err(SchemaError::InvalidJson),
        Some(j) => p_dec_currency_overview(&j),
    }
}

/// What decoding an item overview body yields.
pub open spec fn decode_item_overview_spec(s: Seq<char>) -> Result<ItemOverviewModel, SchemaError> {
    match parse_json_spec(s) {
        None => Err(SchemaError::InvalidJson),
        Some(j) => dec_item_overview(j),
    }
}

/// Decode an item overview response body.
pub fn decode_item_overview(body: &str) -> (r: Result<ItemOverviewResponse, SchemaError>)
    ensures
        match r {
            Ok(v) => decode_item_overview_spec(body@) == Ok::<_, SchemaError>(v.deep_view()),
            Err(e) => decode_item_overview_spec(body@) == Err::<ItemOverviewModel, SchemaError>(e),
        },
{
    match parse_json(body) {
        None => Err(SchemaError::InvalidJson),
        Some(j) => p_dec_item_overview(&j),
    }
}

/// What decoding a single currency snapshot document yields.
pub open spec fn decode_currency_line_spec(s: Seq<char>) -> Result<CurrencyLineModel, SchemaError> {
    match parse_json_spec(s) {
        None => Err(SchemaError::InvalidJson),
        Some(j) => dec_currency_line(j),
    }
}

/// Decode one currency snapshot from a JSON document of its wire shape.
pub fn decode_currency_line(body: &str) -> (r: Result<CurrencyLine, SchemaError>)
    ensures
        match r {
            Ok(v) => decode_currency_line_spec(body@) == Ok::<_, SchemaError>(v.deep_view()),
            Err(e) => decode_currency_line_spec(body@) == Err::<CurrencyLineModel, SchemaError>(e),
        },
{
    match parse_json(body) {
        None => Err(SchemaError::InvalidJson),
        Some(j) => p_dec_currency_line(&j),
    }
}

/// What decoding a single item snapshot document yields.
pub open spec fn decode_item_line_spec(s: Seq<char>) -> Result<ItemLineModel, SchemaError> {
    match parse_json_spec(s) {
        None => Err(SchemaError::InvalidJson),
        Some(j) => dec_item_line(j),
    }
}

/// Decode one item snapshot from a JSON document of its wire shape.
pub fn decode_item_line(body: &str) -> (r: Result<ItemLine, SchemaError>)
    ensures
        match r {
            Ok(v) => decode_item_line_spec(body@) == Ok::<_, SchemaError>(v.deep_view()),
            Err(e) => decode_item_line_spec(body@) == Err::<ItemLineModel, SchemaError>(e),
        },
{
    match parse_json(body) {
        None => Err(SchemaError::InvalidJson),
        Some(j) => p_dec_item_line(&j),
    }
}

} // verus!
