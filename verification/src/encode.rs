use vstd::prelude::*;

use crate::json::JsonValue;
use crate::json::json_view;
use crate::json::json_view_elems;
use crate::json::json_view_members;
use crate::types::CurrencyData;
use crate::types::CurrencyLine;
use crate::types::SparkLine;
use crate::decode::dec_currency_data;
use crate::decode::dec_currency_line;
use crate::decode::dec_points;
use crate::decode::dec_sparkline;
use crate::decode::micros_to_i32_spec;
use crate::decode::obj_get;
use crate::error::SchemaError;
use crate::json::JsonModel;
use crate::types::CurrencyDataModel;
use crate::types::CurrencyLineModel;
use crate::types::SparkLineModel;

verus! {

/// A whole number of units carried on the wire in micro-units.
pub open spec fn enc_i32(v: i32) -> JsonModel {
    JsonModel::Num(v as int * 1000000)
}

/// An optional whole number: absence is written as null.
pub open spec fn enc_opt_i32(v: Option<i32>) -> JsonModel {
    match v {
        None => JsonModel::Null,
        Some(x) => enc_i32(x),
    }
}

/// An optional amount in micro-units: absence is written as null.
pub open spec fn enc_opt_num(v: Option<i64>) -> JsonModel {
    match v {
        None => JsonModel::Null,
        Some(x) => JsonModel::Num(x as int),
    }
}

/// An optional boolean: absence is written as null.
pub open spec fn enc_opt_bool(v: Option<bool>) -> JsonModel {
    match v {
        None => JsonModel::Null,
        Some(b) => JsonModel::Bool(b),
    }
}

/// The sample points of a spark line.
pub open spec fn enc_points(ps: Seq<Option<i64>>) -> Seq<JsonModel> {
    ps.map_values(
        |p: Option<i64>|
            match p {
                None => JsonModel::Null,
                Some(m) => JsonModel::Num(m as int),
            },
    )
}

/// The wire shape of a spark line.
pub open spec fn enc_sparkline(m: SparkLineModel) -> JsonModel {
    JsonModel::Obj(
        seq![
            (
                "data"@,
                match m.data {
                    None => JsonModel::Null,
                    Some(ps) => JsonModel::Arr(enc_points(ps)),
                },
            ),
            ("totalChange"@, enc_opt_num(m.total_change)),
        ],
    )
}

/// The wire shape of an exchange quote.
pub open spec fn enc_currency_data(m: CurrencyDataModel) -> JsonModel {
    JsonModel::Obj(
        seq![
            ("id"@, enc_i32(m.id)),
            ("league_id"@, enc_i32(m.league_id)),
            ("pay_currency_id"@, enc_i32(m.pay_currency_id)),
            ("get_currency_id"@, enc_i32(m.get_currency_id)),
            ("sample_time_utc"@, JsonModel::Str(m.sample_time_utc)),
            ("count"@, enc_i32(m.count)),
            ("value"@, JsonModel::Num(m.value as int)),
            ("data_point_count"@, enc_opt_i32(m.data_point_count)),
            ("includes_secondary"@, enc_opt_bool(m.includes_secondary)),
            ("listing_count"@, enc_opt_i32(m.listing_count)),
        ],
    )
}

/// An optional exchange quote: absence is written as null.
pub open spec fn enc_opt_currency_data(m: Option<CurrencyDataModel>) -> JsonModel {
    match m {
        None => JsonModel::Null,
        Some(d) => enc_currency_data(d),
    }
}

/// The wire shape of a currency snapshot: the same lowerCamelCase field
/// names the decoder reads.
pub open spec fn enc_currency_line(m: CurrencyLineModel) -> JsonModel {
    JsonModel::Obj(
        seq![
            ("currencyTypeName"@, JsonModel::Str(m.currency_type_name)),
            ("pay"@, enc_opt_currency_data(m.pay)),
            ("receive"@, enc_opt_currency_data(m.receive)),
            ("paySparkLine"@, enc_sparkline(m.pay_spark_line)),
            ("receiveSparkLine"@, enc_sparkline(m.receive_spark_line)),
            ("chaosEquivalent"@, enc_opt_num(m.chaos_equivalent)),
            ("lowConfidencePaySparkLine"@, enc_sparkline(m.low_confidence_pay_spark_line)),
            ("lowConfidenceReceiveSparkLine"@, enc_sparkline(m.low_confidence_receive_spark_line)),
            ("detailsId"@, JsonModel::Str(m.details_id)),
        ],
    )
}

proof fn lemma_micros_i32_round_trip(v: i32)
    ensures
        micros_to_i32_spec(v as int * 1000000) == Ok::<i32, SchemaError>(v),
{
    if v >= 0 {
        assert((v as int * 1000000) / 1000000 == v as int && (v as int * 1000000) % 1000000 == 0)
            by (nonlinear_arith);
    } else {
        assert(((-(v as int)) * 1000000) / 1000000 == -(v as int) && ((-(v as int)) * 1000000)
            % 1000000 == 0) by (nonlinear_arith);
        assert(-(v as int * 1000000) == (-(v as int)) * 1000000);
        assert(v as int * 1000000 >= -2147483648 * 1000000);
    }
}

proof fn lemma_points_round_trip(ps: Seq<Option<i64>>, i: int)
    requires
        0 <= i <= ps.len(),
    ensures
        dec_points(enc_points(ps), i) == Ok::<_, SchemaError>(ps.skip(i)),
    decreases ps.len() - i,
{
    if i == ps.len() {
        assert(ps.skip(i) =~= Seq::<Option<i64>>::empty());
    } else {
        lemma_points_round_trip(ps, i + 1);
        match ps[i] {
            None => {
                assert(seq![Option::<i64>::None] + ps.skip(i + 1) =~= ps.skip(i));
            },
            Some(m) => {
                assert(seq![Some(m)] + ps.skip(i + 1) =~= ps.skip(i));
            },
        }
    }
}

proof fn lemma_sparkline_round_trip(m: SparkLineModel)
    ensures
        dec_sparkline(enc_sparkline(m)) == Ok::<SparkLineModel, SchemaError>(m),
{
    reveal_strlit("data");
    reveal_strlit("totalChange");
    let fs = match enc_sparkline(m) {
        JsonModel::Obj(fs) => fs,
        _ => arbitrary(),
    };
    assert forall|k: int| 0 <= k < fs.len() implies obj_get(fs, fs[k].0) == Some(fs[k].1) by {
        assert forall|t: int| 0 <= t < k implies (#[trigger] fs[t].0) != fs[k].0 by {
            assert(("data"@).len() == 4);
            assert(("totalChange"@).len() == 11);
        }
        lemma_obj_get_at(fs, k);
    }
    match m.data {
        None => {},
        Some(ps) => {
            lemma_points_round_trip(ps, 0);
            assert(ps.skip(0) =~= ps);
        },
    }
}

proof fn lemma_obj_get_at(fs: Seq<(Seq<char>, JsonModel)>, k: int)
    requires
        0 <= k < fs.len(),
        forall|t: int| 0 <= t < k ==> (#[trigger] fs[t].0) != fs[k].0,
    ensures
        obj_get(fs, fs[k].0) == Some(fs[k].1),
    decreases k,
{
    if k == 0 {
    } else {
        lemma_obj_get_at(fs.drop_first(), k - 1);
        assert(fs.drop_first()[k - 1] == fs[k]);
        assert forall|t: int| 0 <= t < k - 1 implies (#[trigger] fs.drop_first()[t].0)
            != fs.drop_first()[k - 1].0 by {
            assert(fs.drop_first()[t] == fs[t + 1]);
        }
    }
}

proof fn lemma_currency_data_round_trip(m: CurrencyDataModel)
    ensures
        dec_currency_data(enc_currency_data(m)) == Ok::<CurrencyDataModel, SchemaError>(m),
{
    reveal_strlit("id");
    reveal_strlit("league_id");
    reveal_strlit("pay_currency_id");
    reveal_strlit("get_currency_id");
    reveal_strlit("sample_time_utc");
    reveal_strlit("count");
    reveal_strlit("value");
    reveal_strlit("data_point_count");
    reveal_strlit("includes_secondary");
    reveal_strlit("listing_count");
    let fs = match enc_currency_data(m) {
        JsonModel::Obj(fs) => fs,
        _ => arbitrary(),
    };
    assert forall|k: int| 0 <= k < fs.len() implies obj_get(fs, fs[k].0) == Some(fs[k].1) by {
        assert forall|t: int| 0 <= t < k implies (#[trigger] fs[t].0) != fs[k].0 by {
            assert(("id"@).len() == 2);
            assert(("league_id"@).len() == 9);
            assert(("pay_currency_id"@)[0] == 'p');
            assert(("get_currency_id"@)[0] == 'g');
            assert(("sample_time_utc"@)[0] == 's');
            assert(("count"@)[0] == 'c');
            assert(("value"@)[0] == 'v');
            assert(("data_point_count"@).len() == 16);
            assert(("includes_secondary"@).len() == 18);
            assert(("listing_count"@).len() == 13);
        }
        lemma_obj_get_at(fs, k);
    }
    lemma_micros_i32_round_trip(m.id);
    lemma_micros_i32_round_trip(m.league_id);
    lemma_micros_i32_round_trip(m.pay_currency_id);
    lemma_micros_i32_round_trip(m.get_currency_id);
    lemma_micros_i32_round_trip(m.count);
    match m.data_point_count {
        None => {},
        Some(v) => {
            lemma_micros_i32_round_trip(v);
        },
    }
    match m.listing_count {
        None => {},
        Some(v) => {
            lemma_micros_i32_round_trip(v);
        },
    }
}

/// Round trip: a currency snapshot written to its wire JSON shape and
/// decoded back comes back whole, every field equal, quotes and spark
/// lines included.
pub proof fn lemma_currency_line_round_trip(m: CurrencyLineModel)
    ensures
        dec_currency_line(enc_currency_line(m)) == Ok::<CurrencyLineModel, SchemaError>(m),
{
    reveal_strlit("currencyTypeName");
    reveal_strlit("pay");
    reveal_strlit("receive");
    reveal_strlit("paySparkLine");
    reveal_strlit("receiveSparkLine");
    reveal_strlit("chaosEquivalent");
    reveal_strlit("lowConfidencePaySparkLine");
    reveal_strlit("lowConfidenceReceiveSparkLine");
    reveal_strlit("detailsId");
    let fs = match enc_currency_line(m) {
        JsonModel::Obj(fs) => fs,
        _ => arbitrary(),
    };
    assert forall|k: int| 0 <= k < fs.len() implies obj_get(fs, fs[k].0) == Some(fs[k].1) by {
        assert forall|t: int| 0 <= t < k implies (#[trigger] fs[t].0) != fs[k].0 by {
            assert(("currencyTypeName"@).len() == 16);
            assert(("pay"@).len() == 3);
            assert(("receive"@).len() == 7);
            assert(("paySparkLine"@).len() == 12);
            assert(("receiveSparkLine"@).len() == 16);
            assert(("chaosEquivalent"@).len() == 15);
            assert(("lowConfidencePaySparkLine"@).len() == 25);
            assert(("lowConfidenceReceiveSparkLine"@).len() == 29);
            assert(("detailsId"@).len() == 9);
            assert(("currencyTypeName"@)[0] == 'c');
            assert(("receiveSparkLine"@)[0] == 'r');
        }
        lemma_obj_get_at(fs, k);
    }
    match m.pay {
        None => {},
        Some(d) => {
            lemma_currency_data_round_trip(d);
        },
    }
    match m.receive {
        None => {},
        Some(d) => {
            lemma_currency_data_round_trip(d);
        },
    }
    lemma_sparkline_round_trip(m.pay_spark_line);
    lemma_sparkline_round_trip(m.receive_spark_line);
    lemma_sparkline_round_trip(m.low_confidence_pay_spark_line);
    lemma_sparkline_round_trip(m.low_confidence_receive_spark_line);
}

/// The wire shape of one optional sample point.
pub open spec fn enc_point(p: Option<i64>) -> JsonModel {
    match p {
        None => JsonModel::Null,
        Some(m) => JsonModel::Num(m as int),
    }
}

fn points_to_json(ps: &Vec<Option<i64>>) -> (r: Vec<JsonValue>)
    ensures
        json_view_elems(r@) == enc_points(ps.deep_view()),
{
    let mut out: Vec<JsonValue> = Vec::new();
    let mut i: usize = 0;
    while i < ps.len()
        invariant
            i <= ps@.len(),
            out@.len() == i,
            forall|t: int| 0 <= t < i ==> json_view(#[trigger] out@[t]) == enc_point(ps@[t]),
        decreases ps@.len() - i,
    {
        match ps[i] {
            None => out.push(JsonValue::Null),
            Some(m) => out.push(JsonValue::Num(m)),
        }
        i += 1;
    }
    proof {
        assert(ps.deep_view() =~= ps@);
        assert(json_view_elems(out@) =~= enc_points(ps.deep_view()));
    }
    out
}

fn key(k: &str) -> (r: String)
    ensures
        r@ == k@,
{
    String::from_str(k)
}

fn sparkline_to_json(m: &SparkLine) -> (r: JsonValue)
    ensures
        json_view(r) == enc_sparkline(m.deep_view()),
{
    let mut fields: Vec<(String, JsonValue)> = Vec::new();
    let data = match &m.data {
        None => JsonValue::Null,
        Some(ps) => JsonValue::Arr(points_to_json(ps)),
    };
    fields.push((key("data"), data));
    let tc = match m.total_change {
        None => JsonValue::Null,
        Some(x) => JsonValue::Num(x),
    };
    fields.push((key("totalChange"), tc));
    let ghost fseq = fields@;
    let r = JsonValue::Obj(fields);
    proof {
        let spec_fs = match enc_sparkline(m.deep_view()) {
            JsonModel::Obj(sfs) => sfs,
            _ => arbitrary(),
        };
        assert(json_view_members(fseq) =~= spec_fs);
    }
    r
}

fn currency_data_to_json(m: &CurrencyData) -> (r: JsonValue)
    ensures
        json_view(r) == enc_currency_data(m.deep_view()),
{
    let mut fields: Vec<(String, JsonValue)> = Vec::new();
    fields.push((key("id"), JsonValue::Num((m.id as i64) * 1000000)));
    fields.push((key("league_id"), JsonValue::Num((m.league_id as i64) * 1000000)));
    fields.push((key("pay_currency_id"), JsonValue::Num((m.pay_currency_id as i64) * 1000000)));
    fields.push((key("get_currency_id"), JsonValue::Num((m.get_currency_id as i64) * 1000000)));
    fields.push((key("sample_time_utc"), JsonValue::Str(m.sample_time_utc.clone())));
    fields.push((key("count"), JsonValue::Num((m.count as i64) * 1000000)));
    fields.push((key("value"), JsonValue::Num(m.value)));
    let dpc = match m.data_point_count {
        None => JsonValue::Null,
        Some(x) => JsonValue::Num((x as i64) * 1000000),
    };
    fields.push((key("data_point_count"), dpc));
    let inc = match m.includes_secondary {
        None => JsonValue::Null,
        Some(b) => JsonValue::Bool(b),
    };
    fields.push((key("includes_secondary"), inc));
    let lc = match m.listing_count {
        None => JsonValue::Null,
        Some(x) => JsonValue::Num((x as i64) * 1000000),
    };
    fields.push((key("listing_count"), lc));
    let ghost fseq = fields@;
    let r = JsonValue::Obj(fields);
    proof {
        let spec_fs = match enc_currency_data(m.deep_view()) {
            JsonModel::Obj(sfs) => sfs,
            _ => arbitrary(),
        };
        assert(json_view_members(fseq) =~= spec_fs);
    }
    r
}

/// Write one currency snapshot as a JSON document of its wire shape.
pub fn currency_line_to_json(c: &CurrencyLine) -> (r: JsonValue)
    ensures
        json_view(r) == enc_currency_line(c.deep_view()),
{
    let mut fields: Vec<(String, JsonValue)> = Vec::new();
    fields.push((key("currencyTypeName"), JsonValue::Str(c.currency_type_name.clone())));
    let pay = match &c.pay {
        None => JsonValue::Null,
        Some(d) => currency_data_to_json(d),
    };
    fields.push((key("pay"), pay));
    let receive = match &c.receive {
        None => JsonValue::Null,
        Some(d) => currency_data_to_json(d),
    };
    fields.push((key("receive"), receive));
    fields.push((key("paySparkLine"), sparkline_to_json(&c.pay_spark_line)));
    fields.push((key("receiveSparkLine"), sparkline_to_json(&c.receive_spark_line)));
    let ce = match c.chaos_equivalent {
        None => JsonValue::Null,
        Some(x) => JsonValue::Num(x),
    };
    fields.push((key("chaosEquivalent"), ce));
    fields.push(
        (key("lowConfidencePaySparkLine"), sparkline_to_json(&c.low_confidence_pay_spark_line)),
    );
    fields.push(
        (
            key("lowConfidenceReceiveSparkLine"),
            sparkline_to_json(&c.low_confidence_receive_spark_line),
        ),
    );
    fields.push((key("detailsId"), JsonValue::Str(c.details_id.clone())));
    let ghost fseq = fields@;
    let r = JsonValue::Obj(fields);
    proof {
        let spec_fs = match enc_currency_line(c.deep_view()) {
            JsonModel::Obj(sfs) => sfs,
            _ => arbitrary(),
        };
        assert(json_view_members(fseq) =~= spec_fs);
    }
    r
}

} // verus!
