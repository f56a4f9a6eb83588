use vstd::prelude::*;

use crate::decode::decode_currency_line_spec;
use crate::encode::enc_currency_data;
use crate::encode::enc_currency_line;
use crate::encode::enc_points;
use crate::encode::enc_sparkline;
use crate::encode::lemma_currency_line_round_trip;
use crate::error::SchemaError;
use crate::json::JsonModel;
use crate::json::MAX_DOC_LEN;
use crate::json::parse_json_spec;
use crate::types::CurrencyDataModel;
use crate::types::CurrencyLineModel;
use crate::types::SparkLineModel;
use crate::json::digit_run_end;
use crate::json::digit_val;
use crate::json::digits_val;
use crate::json::is_digit;
use crate::json::is_plain_str_char;
use crate::json::is_ws;
use crate::json::parse_elems_spec;
use crate::json::parse_members_spec;
use crate::json::parse_num_spec;
use crate::json::parse_value_spec;
use crate::json::skip_ws;
use crate::json::parse_str_body_spec;
use crate::json::pow10;
use crate::print::digit_char;
use crate::print::esc_char;
use crate::print::esc_str;
use crate::print::print_digits;
use crate::print::print_frac6;
use crate::print::print_json_spec;
use crate::print::print_elems_spec;
use crate::print::print_members_spec;
use crate::print::print_num;
use crate::print::print_num_abs;
use crate::print::print_str;
use vstd::arithmetic::div_mod::lemma_fundamental_div_mod;

verus! {

// The codec's text form reads back: a document written by the printer is
// accepted by the grammar and parses to the document it came from. The
// lemmas here build that up from the numerals.

/// A character that may directly follow a printed value inside a larger
/// document: a separator or a closing bracket.
pub open spec fn is_delim(c: char) -> bool {
    c == ',' || c == ']' || c == '}'
}

proof fn lemma_digits_val_shift(s: Seq<char>, p0: int, t: Seq<char>, l: int)
    requires
        0 <= l <= t.len(),
        forall|i: int| 0 <= i < l ==> s[p0 + i] == #[trigger] t[i],
    ensures
        digits_val(s, p0, p0 + l) == digits_val(t, 0, l),
    decreases l,
{
    if l > 0 {
        lemma_digits_val_shift(s, p0, t, l - 1);
        assert(s[p0 + (l - 1)] == t[l - 1]);
    }
}

proof fn lemma_print_digits_wf(n: int)
    requires
        n >= 0,
    ensures
        print_digits(n).len() >= 1,
        forall|i: int| 0 <= i < print_digits(n).len() ==> is_digit(#[trigger] print_digits(n)[i]),
        digits_val(print_digits(n), 0, print_digits(n).len() as int) == n,
    decreases n,
{
    if n < 10 {
        assert(digit_val(digit_char(n)) == n);
        assert(digits_val(print_digits(n), 0, 1) == digits_val(print_digits(n), 0, 0) * 10
            + digit_val(print_digits(n)[0]));
    } else {
        lemma_print_digits_wf(n / 10);
        let p = print_digits(n / 10);
        let w = print_digits(n);
        assert(w[w.len() - 1] == digit_char(n % 10));
        assert forall|i: int| 0 <= i < w.len() implies is_digit(w[i]) by {
            if i < p.len() {
                assert(w[i] == p[i]);
            }
        }
        lemma_digits_val_shift(w, 0, p, p.len() as int);
        assert(digit_val(digit_char(n % 10)) == n % 10);
        lemma_fundamental_div_mod(n, 10);
    }
}

proof fn lemma_print_digits_len_le(n: int, k: nat)
    requires
        0 <= n,
        n < pow10(k),
        1 <= k,
    ensures
        print_digits(n).len() <= k,
    decreases k,
{
    if n < 10 {
    } else {
        assert(pow10(k) == 10 * pow10((k - 1) as nat));
        lemma_fundamental_div_mod(n, 10);
        assert(n / 10 < pow10((k - 1) as nat));
        assert(k >= 2) by {
            if k == 1 {
                assert(pow10(1) == 10 * pow10(0));
            }
        }
        lemma_print_digits_len_le(n / 10, (k - 1) as nat);
    }
}

proof fn lemma_frac6_round_trip(f: int)
    requires
        0 <= f < 1000000,
    ensures
        print_frac6(f).len() == 6,
        forall|i: int| 0 <= i < 6 ==> is_digit(#[trigger] print_frac6(f)[i]),
        digits_val(print_frac6(f), 0, 6) == f,
{
    let t = print_frac6(f);
    assert(digit_val(t[0]) == (f / 100000) % 10);
    assert(digit_val(t[1]) == (f / 10000) % 10);
    assert(digit_val(t[2]) == (f / 1000) % 10);
    assert(digit_val(t[3]) == (f / 100) % 10);
    assert(digit_val(t[4]) == (f / 10) % 10);
    assert(digit_val(t[5]) == f % 10);
    assert(digits_val(t, 0, 1) == digits_val(t, 0, 0) * 10 + digit_val(t[0]));
    assert(digits_val(t, 0, 2) == digits_val(t, 0, 1) * 10 + digit_val(t[1]));
    assert(digits_val(t, 0, 3) == digits_val(t, 0, 2) * 10 + digit_val(t[2]));
    assert(digits_val(t, 0, 4) == digits_val(t, 0, 3) * 10 + digit_val(t[3]));
    assert(digits_val(t, 0, 5) == digits_val(t, 0, 4) * 10 + digit_val(t[4]));
    assert(digits_val(t, 0, 6) == digits_val(t, 0, 5) * 10 + digit_val(t[5]));
    assert((((((((f / 100000) % 10) * 10 + (f / 10000) % 10) * 10 + (f / 1000) % 10) * 10 + (f
        / 100) % 10) * 10 + (f / 10) % 10) * 10) + f % 10 == f) by {
        lemma_fundamental_div_mod(f, 10);
        lemma_fundamental_div_mod(f / 10, 10);
        lemma_fundamental_div_mod(f / 100, 10);
        lemma_fundamental_div_mod(f / 1000, 10);
        lemma_fundamental_div_mod(f / 10000, 10);
        lemma_fundamental_div_mod(f, 100000);
        assert((f / 10) / 10 == f / 100) by (nonlinear_arith)
            requires
                0 <= f,
        ;
        assert((f / 100) / 10 == f / 1000) by (nonlinear_arith)
            requires
                0 <= f,
        ;
        assert((f / 1000) / 10 == f / 10000) by (nonlinear_arith)
            requires
                0 <= f,
        ;
        assert((f / 10000) / 10 == f / 100000) by (nonlinear_arith)
            requires
                0 <= f,
        ;
        assert(f / 100000 < 10);
        assert((f / 100000) % 10 == f / 100000) by {
            lemma_fundamental_div_mod(f / 100000, 10);
            assert((f / 100000) / 10 == 0) by (nonlinear_arith)
                requires
                    0 <= f / 100000 < 10,
            ;
        }
    }
}

proof fn lemma_digit_run_end_exact(s: Seq<char>, pos: int, end: int)
    requires
        0 <= pos <= end <= s.len(),
        forall|i: int| pos <= i < end ==> is_digit(#[trigger] s[i]),
        end == s.len() || !is_digit(s[end]),
    ensures
        digit_run_end(s, pos) == end,
    decreases end - pos,
{
    if pos < end {
        lemma_digit_run_end_exact(s, pos + 1, end);
    }
}

#[verifier::rlimit(50)]
proof fn lemma_parse_print_num_abs(s: Seq<char>, pos: int, p0: int, ma: int, neg: bool)
    requires
        0 <= ma < 1000000000000000000,
        0 <= pos <= p0,
        neg == (pos < s.len() && s[pos] == '-'),
        p0 == if neg {
            pos + 1
        } else {
            pos
        },
        p0 + print_num_abs(ma).len() <= s.len(),
        forall|i: int|
            0 <= i < print_num_abs(ma).len() ==> s[p0 + i] == #[trigger] print_num_abs(ma)[i],
        p0 + print_num_abs(ma).len() == s.len() || (!is_digit(
            s[p0 + print_num_abs(ma).len()],
        ) && s[p0 + print_num_abs(ma).len()] != '.'),
    ensures
        parse_num_spec(s, pos) == Some(
            (
                if neg {
                    -ma
                } else {
                    ma
                },
                p0 + print_num_abs(ma).len() as int,
            ),
        ),
{
    let w = ma / 1000000;
    let fr = ma % 1000000;
    lemma_fundamental_div_mod(ma, 1000000);
    lemma_print_digits_wf(w);
    let wd = print_digits(w);
    assert(pow10(12) == 1000000000000) by {
        reveal_with_fuel(pow10, 14);
    }
    lemma_print_digits_len_le(w, 12);
    let t = print_num_abs(ma);
    if fr == 0 {
        assert(t == wd);
        assert forall|i: int| 0 <= i < wd.len() implies s[p0 + i] == #[trigger] wd[i] by {
            assert(s[p0 + i] == t[i]);
        }
        assert forall|i: int| p0 <= i < p0 + wd.len() implies is_digit(#[trigger] s[i]) by {
            assert(s[p0 + (i - p0)] == wd[i - p0]);
            assert(is_digit(wd[i - p0]));
        }
        lemma_digit_run_end_exact(s, p0, p0 + wd.len());
        lemma_digits_val_shift(s, p0, wd, wd.len() as int);
        assert(digits_val(s, p0, digit_run_end(s, p0)) == w);
    } else {
        lemma_frac6_round_trip(fr);
        let fd6 = print_frac6(fr);
        assert(t == wd + seq!['.'] + fd6);
        assert forall|i: int| 0 <= i < wd.len() implies s[p0 + i] == #[trigger] wd[i] by {
            assert(t[i] == wd[i]);
        }
        assert(t[wd.len() as int] == '.');
        assert(s[p0 + wd.len() as int] == '.');
        assert forall|i: int| p0 <= i < p0 + wd.len() implies is_digit(#[trigger] s[i]) by {
            assert(s[p0 + (i - p0)] == wd[i - p0]);
            assert(is_digit(wd[i - p0]));
        }
        lemma_digit_run_end_exact(s, p0, p0 + wd.len());
        lemma_digits_val_shift(s, p0, wd, wd.len() as int);
        let p2 = p0 + wd.len() as int + 1;
        assert forall|i: int| 0 <= i < 6 implies s[p2 + i] == #[trigger] fd6[i] by {
            assert(t[wd.len() + 1 + i] == fd6[i]);
            assert(s[p0 + (wd.len() + 1 + i)] == t[wd.len() + 1 + i]);
        }
        assert forall|i: int| p2 <= i < p2 + 6 implies is_digit(#[trigger] s[i]) by {
            assert(s[p2 + (i - p2)] == fd6[i - p2]);
            assert(is_digit(fd6[i - p2]));
        }
        lemma_digit_run_end_exact(s, p2, p2 + 6);
        lemma_digits_val_shift(s, p2, fd6, 6);
        assert(pow10(0) == 1);
        assert(w * 1000000 + fr * pow10(0) == ma);
    }
}

#[verifier::rlimit(100)]
proof fn lemma_parse_print_num(s: Seq<char>, pos: int, m: int)
    requires
        -1000000000000000000 < m < 1000000000000000000,
        0 <= pos,
        pos + print_num(m).len() <= s.len(),
        forall|i: int| 0 <= i < print_num(m).len() ==> s[pos + i] == #[trigger] print_num(m)[i],
        pos + print_num(m).len() == s.len() || (!is_digit(s[pos + print_num(m).len()]) && s[pos
            + print_num(m).len()] != '.'),
    ensures
        parse_num_spec(s, pos) == Some((m, pos + print_num(m).len() as int)),
{
    let t = print_num(m);
    if m >= 0 {
        let ta = print_num_abs(m);
        let w = m / 1000000;
        lemma_print_digits_wf(w);
        assert(t == ta);
        assert(is_digit(ta[0])) by {
            if m % 1000000 == 0 {
                assert(ta == print_digits(w));
            } else {
                assert(ta == print_digits(w) + seq!['.'] + print_frac6(m % 1000000));
                assert(ta[0] == print_digits(w)[0]);
            }
        }
        assert(s[pos] == t[0]);
        assert(s[pos] != '-');
        lemma_parse_print_num_abs(s, pos, pos, m, false);
    } else {
        let ta = print_num_abs(-m);
        assert(t == seq!['-'] + ta);
        assert(s[pos] == t[0]);
        assert(s[pos] == '-');
        assert forall|i: int| 0 <= i < ta.len() implies s[pos + 1 + i] == #[trigger] ta[i] by {
            assert(s[pos + (1 + i)] == t[1 + i]);
            assert(t[1 + i] == ta[i]);
        }
        lemma_parse_print_num_abs(s, pos, pos + 1, -m, true);
    }
}


/// A character the printer can write into a string literal and the grammar
/// read back: printable ASCII, the quote, the backslash, or one of the
/// three escaped control characters.
pub open spec fn wf_text_char(c: char) -> bool {
    is_plain_str_char(c) || c == '"' || c == '\\' || c == '\n' || c == '\t' || c == '\r'
}

/// Every character of the string survives printing and reparsing.
pub open spec fn wf_text(s: Seq<char>) -> bool {
    forall|i: int| 0 <= i < s.len() ==> wf_text_char(#[trigger] s[i])
}

proof fn lemma_parse_print_str_body(s: Seq<char>, pos: int, body: Seq<char>, i: int)
    requires
        wf_text(body),
        0 <= i <= body.len(),
        0 <= pos,
        pos + esc_str(body, i).len() + 1 <= s.len(),
        forall|k: int|
            0 <= k < esc_str(body, i).len() ==> s[pos + k] == #[trigger] esc_str(body, i)[k],
        s[pos + esc_str(body, i).len()] == '"',
    ensures
        parse_str_body_spec(s, pos) == Some((body.skip(i), pos + esc_str(body, i).len() + 1)),
    decreases body.len() - i,
{
    let e = esc_str(body, i);
    if i == body.len() {
        assert(body.skip(i) =~= Seq::<char>::empty());
    } else {
        let c = body[i];
        let rest = esc_str(body, i + 1);
        let ec = esc_char(c);
        assert(e == ec + rest);
        assert(wf_text_char(c));
        assert forall|k: int|
            0 <= k < rest.len() implies s[pos + ec.len() + k] == #[trigger] rest[k] by {
            assert(e[ec.len() + k] == rest[k]);
            assert(s[pos + (ec.len() + k)] == e[ec.len() + k]);
        }
        assert(s[pos + ec.len() + rest.len()] == '"') by {
            assert(pos + ec.len() + rest.len() == pos + e.len());
        }
        lemma_parse_print_str_body(s, pos + ec.len() as int, body, i + 1);
        if c == '"' || c == '\\' || c == '\n' || c == '\t' || c == '\r' {
            assert(s[pos] == e[0]);
            assert(s[pos + 1] == e[1]);
            assert(seq![c] + body.skip(i + 1) =~= body.skip(i));
        } else {
            assert(is_plain_str_char(c));
            assert(s[pos] == e[0]);
            assert(seq![body[i]] + body.skip(i + 1) =~= body.skip(i));
        }
    }
}

proof fn lemma_print_first_char(j: JsonModel)
    ensures
        print_json_spec(j).len() >= 1,
        !is_ws(print_json_spec(j)[0]),
        !is_delim(print_json_spec(j)[0]),
{
    match j {
        JsonModel::Null => {
            reveal_strlit("null");
        },
        JsonModel::Bool(b) => {
            reveal_strlit("true");
            reveal_strlit("false");
        },
        JsonModel::Num(m) => {
            if m < 0 {
                assert(print_json_spec(j)[0] == '-');
            } else {
                let w = m / 1000000;
                lemma_print_digits_wf(w);
                if m % 1000000 == 0 {
                    assert(print_num_abs(m) == print_digits(w));
                } else {
                    assert(print_num_abs(m) == print_digits(w) + seq!['.'] + print_frac6(
                        m % 1000000,
                    ));
                    assert(print_num_abs(m)[0] == print_digits(w)[0]);
                }
                assert(is_digit(print_num_abs(m)[0]));
            }
        },
        JsonModel::Str(t) => {
            assert(print_json_spec(j)[0] == '"');
        },
        JsonModel::Arr(es) => {
            assert(print_json_spec(j)[0] == '[');
        },
        JsonModel::Obj(fs) => {
            assert(print_json_spec(j)[0] == '{');
        },
    }
}

/// A document whose printed text reads back: numbers lie strictly within
/// eighteen decimal digits and every string character prints faithfully.
pub open spec fn wf_json_text(j: JsonModel) -> bool
    decreases j, 0int,
{
    match j {
        JsonModel::Null => true,
        JsonModel::Bool(_) => true,
        JsonModel::Num(m) => -1000000000000000000 < m < 1000000000000000000,
        JsonModel::Str(t) => wf_text(t),
        JsonModel::Arr(es) => wf_elems_text(es, 0),
        JsonModel::Obj(fs) => wf_members_text(fs, 0),
    }
}

/// The array elements from index `i` on are all well formed.
pub open spec fn wf_elems_text(es: Seq<JsonModel>, i: int) -> bool
    decreases es, es.len() - i,
{
    if i < 0 || i >= es.len() {
        true
    } else {
        wf_json_text(es[i]) && wf_elems_text(es, i + 1)
    }
}

/// The object fields from index `i` on have well-formed keys and values.
pub open spec fn wf_members_text(fs: Seq<(Seq<char>, JsonModel)>, i: int) -> bool
    decreases fs, fs.len() - i,
{
    if i < 0 || i >= fs.len() {
        true
    } else {
        wf_text(fs[i].0) && wf_json_text(fs[i].1) && wf_members_text(fs, i + 1)
    }
}

/// The recursion budget a document needs from the grammar: one unit per
/// value plus one per element or field.
pub open spec fn jsize(j: JsonModel) -> int
    decreases j, 0int,
{
    match j {
        JsonModel::Null => 1,
        JsonModel::Bool(_) => 1,
        JsonModel::Num(_) => 1,
        JsonModel::Str(_) => 1,
        JsonModel::Arr(es) => 1 + elems_size(es, 0),
        JsonModel::Obj(fs) => 1 + members_size(fs, 0),
    }
}

/// The budget of the array elements from index `i` on.
pub open spec fn elems_size(es: Seq<JsonModel>, i: int) -> int
    decreases es, es.len() - i,
{
    if i < 0 || i >= es.len() {
        0
    } else {
        jsize(es[i]) + 1 + elems_size(es, i + 1)
    }
}

/// The budget of the object fields from index `i` on.
pub open spec fn members_size(fs: Seq<(Seq<char>, JsonModel)>, i: int) -> int
    decreases fs, fs.len() - i,
{
    if i < 0 || i >= fs.len() {
        0
    } else {
        jsize(fs[i].1) + 1 + members_size(fs, i + 1)
    }
}

proof fn lemma_jsize_pos(j: JsonModel)
    ensures
        jsize(j) >= 1,
    decreases j, 0int,
{
    match j {
        JsonModel::Arr(es) => {
            lemma_elems_size_nonneg(es, 0);
        },
        JsonModel::Obj(fs) => {
            lemma_members_size_nonneg(fs, 0);
        },
        _ => {},
    }
}

proof fn lemma_elems_size_nonneg(es: Seq<JsonModel>, i: int)
    ensures
        elems_size(es, i) >= 0,
    decreases es, es.len() - i,
{
    if 0 <= i < es.len() {
        lemma_jsize_pos(es[i]);
        lemma_elems_size_nonneg(es, i + 1);
    }
}

proof fn lemma_members_size_nonneg(fs: Seq<(Seq<char>, JsonModel)>, i: int)
    ensures
        members_size(fs, i) >= 0,
    decreases fs, fs.len() - i,
{
    if 0 <= i < fs.len() {
        lemma_jsize_pos(fs[i].1);
        lemma_members_size_nonneg(fs, i + 1);
    }
}

proof fn lemma_print_len_ge_jsize(j: JsonModel)
    ensures
        print_json_spec(j).len() >= jsize(j),
    decreases j, 0int,
{
    match j {
        JsonModel::Arr(es) => {
            lemma_print_elems_len_ge(es, 0);
        },
        JsonModel::Obj(fs) => {
            lemma_print_members_len_ge(fs, 0);
        },
        _ => {
            lemma_print_first_char(j);
        },
    }
}

proof fn lemma_print_elems_len_ge(es: Seq<JsonModel>, i: int)
    ensures
        print_elems_spec(es, i).len() >= elems_size(es, i) - 1,
    decreases es, es.len() - i,
{
    if 0 <= i < es.len() {
        lemma_print_len_ge_jsize(es[i]);
        lemma_print_elems_len_ge(es, i + 1);
        lemma_jsize_pos(es[i]);
        if i + 1 < es.len() {
        } else {
            lemma_elems_size_nonneg(es, i + 1);
        }
    }
}

proof fn lemma_print_members_len_ge(fs: Seq<(Seq<char>, JsonModel)>, i: int)
    ensures
        print_members_spec(fs, i).len() >= members_size(fs, i) - 1,
    decreases fs, fs.len() - i,
{
    if 0 <= i < fs.len() {
        lemma_print_len_ge_jsize(fs[i].1);
        lemma_print_members_len_ge(fs, i + 1);
        lemma_jsize_pos(fs[i].1);
        if i + 1 < fs.len() {
        } else {
            lemma_members_size_nonneg(fs, i + 1);
        }
    }
}


proof fn lemma_skip_ws_here(s: Seq<char>, pos: int)
    requires
        pos >= s.len() || !is_ws(s[pos]),
    ensures
        skip_ws(s, pos) == pos,
{
}

#[verifier::rlimit(100)]
proof fn lemma_parse_print_value(s: Seq<char>, pos: int, j: JsonModel, fuel: nat)
    requires
        wf_json_text(j),
        fuel >= jsize(j),
        0 <= pos,
        pos + print_json_spec(j).len() <= s.len(),
        forall|k: int|
            0 <= k < print_json_spec(j).len() ==> s[pos + k] == #[trigger] print_json_spec(j)[k],
        pos + print_json_spec(j).len() == s.len() || is_delim(s[pos + print_json_spec(j).len()]),
    ensures
        parse_value_spec(s, pos, fuel) == Some((j, pos + print_json_spec(j).len() as int)),
    decreases j, 1int,
{
    let t = print_json_spec(j);
    lemma_jsize_pos(j);
    match j {
        JsonModel::Null => {
            reveal_strlit("null");
            assert(s[pos + 0] == t[0]);
            assert(s[pos + 1] == t[1]);
            assert(s[pos + 2] == t[2]);
            assert(s[pos + 3] == t[3]);
        },
        JsonModel::Bool(b) => {
            reveal_strlit("true");
            reveal_strlit("false");
            if b {
                assert(s[pos + 0] == t[0]);
                assert(s[pos + 1] == t[1]);
                assert(s[pos + 2] == t[2]);
                assert(s[pos + 3] == t[3]);
            } else {
                assert(s[pos + 0] == t[0]);
                assert(s[pos + 1] == t[1]);
                assert(s[pos + 2] == t[2]);
                assert(s[pos + 3] == t[3]);
                assert(s[pos + 4] == t[4]);
            }
        },
        JsonModel::Num(m) => {
            lemma_print_first_char(j);
            assert(s[pos + 0] == t[0]);
            lemma_parse_print_num(s, pos, m);
        },
        JsonModel::Str(body) => {
            let e = esc_str(body, 0);
            assert(t == seq!['"'] + e + seq!['"']);
            assert(s[pos + 0] == t[0]);
            assert forall|k: int| 0 <= k < e.len() implies s[pos + 1 + k] == #[trigger] e[k] by {
                assert(t[1 + k] == e[k]);
                assert(s[pos + (1 + k)] == t[1 + k]);
            }
            assert(s[pos + 1 + e.len()] == '"') by {
                assert(t[1 + e.len() as int] == '"');
                assert(s[pos + (1 + e.len())] == t[1 + e.len() as int]);
            }
            lemma_parse_print_str_body(s, pos + 1, body, 0);
            assert(body.skip(0) =~= body);
        },
        JsonModel::Arr(es) => {
            let el = print_elems_spec(es, 0);
            assert(t == seq!['['] + el + seq![']']);
            assert(s[pos + 0] == t[0]);
            assert(s[pos + (1 + el.len())] == t[1 + el.len() as int]);
            assert(s[pos + 1 + el.len()] == ']');
            if es.len() == 0 {
                assert(el.len() == 0);
                assert(s[pos + 1] == ']');
                lemma_skip_ws_here(s, pos + 1);
                assert(es =~= Seq::<JsonModel>::empty());
            } else {
                let pv = print_json_spec(es[0]);
                lemma_print_first_char(es[0]);
                assert(el[0] == pv[0]);
                assert(s[pos + 1] == t[1]);
                assert(t[1] == el[0]);
                lemma_skip_ws_here(s, pos + 1);
                assert forall|k: int| 0 <= k < el.len() implies s[pos + 1 + k] == #[trigger] el[k]
                    by {
                    assert(t[1 + k] == el[k]);
                    assert(s[pos + (1 + k)] == t[1 + k]);
                }
                lemma_parse_print_elems(s, pos + 1, es, 0, (fuel - 1) as nat);
                assert(es.skip(0) =~= es);
            }
        },
        JsonModel::Obj(fs) => {
            let ml = print_members_spec(fs, 0);
            assert(t == seq!['{'] + ml + seq!['}']);
            assert(s[pos + 0] == t[0]);
            assert(s[pos + (1 + ml.len())] == t[1 + ml.len() as int]);
            assert(s[pos + 1 + ml.len()] == '}');
            if fs.len() == 0 {
                assert(ml.len() == 0);
                assert(s[pos + 1] == '}');
                lemma_skip_ws_here(s, pos + 1);
                assert(fs =~= Seq::<(Seq<char>, JsonModel)>::empty());
            } else {
                let pk = print_str(fs[0].0);
                assert(ml[0] == pk[0]);
                assert(pk[0] == '"');
                assert(s[pos + 1] == t[1]);
                assert(t[1] == ml[0]);
                lemma_skip_ws_here(s, pos + 1);
                assert forall|k: int| 0 <= k < ml.len() implies s[pos + 1 + k] == #[trigger] ml[k]
                    by {
                    assert(t[1 + k] == ml[k]);
                    assert(s[pos + (1 + k)] == t[1 + k]);
                }
                lemma_parse_print_members(s, pos + 1, fs, 0, (fuel - 1) as nat);
                assert(fs.skip(0) =~= fs);
            }
        },
    }
}

#[verifier::rlimit(100)]
proof fn lemma_parse_print_elems(s: Seq<char>, pos: int, es: Seq<JsonModel>, i: int, fuel: nat)
    requires
        wf_elems_text(es, i),
        0 <= i < es.len(),
        fuel >= elems_size(es, i),
        0 <= pos,
        pos + print_elems_spec(es, i).len() + 1 <= s.len(),
        forall|k: int|
            0 <= k < print_elems_spec(es, i).len() ==> s[pos + k] == #[trigger] print_elems_spec(
                es,
                i,
            )[k],
        s[pos + print_elems_spec(es, i).len()] == ']',
    ensures
        parse_elems_spec(s, pos, fuel) == Some(
            (es.skip(i), pos + print_elems_spec(es, i).len() + 1),
        ),
    decreases es, es.len() - i,
{
    let el = print_elems_spec(es, i);
    let pv = print_json_spec(es[i]);
    lemma_jsize_pos(es[i]);
    lemma_elems_size_nonneg(es, i + 1);
    if i + 1 < es.len() {
        let rest = print_elems_spec(es, i + 1);
        assert(el == pv + seq![','] + rest);
        assert forall|k: int| 0 <= k < pv.len() implies s[pos + k] == #[trigger] pv[k] by {
            assert(el[k] == pv[k]);
        }
        assert(s[pos + pv.len()] == ',') by {
            assert(el[pv.len() as int] == ',');
        }
        lemma_parse_print_value(s, pos, es[i], (fuel - 1) as nat);
        lemma_skip_ws_here(s, pos + pv.len());
        lemma_print_first_char(es[i + 1]);
        assert(rest[0] == print_json_spec(es[i + 1])[0]);
        assert(s[pos + pv.len() + 1] == rest[0]) by {
            assert(el[pv.len() + 1 as int] == rest[0]);
            assert(s[pos + (pv.len() + 1)] == el[pv.len() + 1 as int]);
        }
        lemma_skip_ws_here(s, pos + pv.len() + 1);
        assert forall|k: int|
            0 <= k < rest.len() implies s[pos + pv.len() + 1 + k] == #[trigger] rest[k] by {
            assert(el[pv.len() + 1 + k] == rest[k]);
            assert(s[pos + (pv.len() + 1 + k)] == el[pv.len() + 1 + k]);
        }
        assert(s[pos + pv.len() + 1 + rest.len()] == ']') by {
            assert(pos + pv.len() + 1 + rest.len() == pos + el.len());
        }
        lemma_parse_print_elems(s, pos + pv.len() + 1, es, i + 1, (fuel - 1) as nat);
        assert(seq![es[i]] + es.skip(i + 1) =~= es.skip(i));
    } else {
        assert(el == pv);
        lemma_parse_print_value(s, pos, es[i], (fuel - 1) as nat);
        lemma_skip_ws_here(s, pos + pv.len());
        assert(seq![es[i]] =~= es.skip(i));
    }
}

#[verifier::rlimit(100)]
proof fn lemma_parse_print_members(
    s: Seq<char>,
    pos: int,
    fs: Seq<(Seq<char>, JsonModel)>,
    i: int,
    fuel: nat,
)
    requires
        wf_members_text(fs, i),
        0 <= i < fs.len(),
        fuel >= members_size(fs, i),
        0 <= pos,
        pos + print_members_spec(fs, i).len() + 1 <= s.len(),
        forall|k: int|
            0 <= k < print_members_spec(fs, i).len() ==> s[pos + k] == #[trigger] print_members_spec(
                fs,
                i,
            )[k],
        s[pos + print_members_spec(fs, i).len()] == '}',
    ensures
        parse_members_spec(s, pos, fuel) == Some(
            (fs.skip(i), pos + print_members_spec(fs, i).len() + 1),
        ),
    decreases fs, fs.len() - i,
{
    let ml = print_members_spec(fs, i);
    let key = fs[i].0;
    let e = esc_str(key, 0);
    let pk = print_str(key);
    let pv = print_json_spec(fs[i].1);
    lemma_jsize_pos(fs[i].1);
    lemma_members_size_nonneg(fs, i + 1);
    let head = pk + seq![':'] + pv;
    if i + 1 < fs.len() {
        assert(ml == pk + seq![':'] + pv + seq![','] + print_members_spec(fs, i + 1));
    } else {
        assert(ml == pk + seq![':'] + pv);
    }
    assert forall|k: int| 0 <= k < head.len() implies s[pos + k] == #[trigger] head[k] by {
        assert(ml[k] == head[k]);
    }
    assert(pk == seq!['"'] + e + seq!['"']);
    assert(s[pos + 0] == head[0]);
    assert(head[0] == '"');
    assert forall|k: int| 0 <= k < e.len() implies s[pos + 1 + k] == #[trigger] e[k] by {
        assert(head[1 + k] == pk[1 + k]);
        assert(pk[1 + k] == e[k]);
        assert(s[pos + (1 + k)] == head[1 + k]);
    }
    assert(s[pos + 1 + e.len()] == '"') by {
        assert(pk[1 + e.len() as int] == '"');
        assert(head[1 + e.len() as int] == pk[1 + e.len() as int]);
        assert(s[pos + (1 + e.len())] == head[1 + e.len() as int]);
    }
    lemma_parse_print_str_body(s, pos + 1, key, 0);
    assert(key.skip(0) =~= key);
    let p1 = pos + pk.len() as int;
    assert(s[p1] == ':') by {
        assert(head[pk.len() as int] == ':');
        assert(s[pos + pk.len()] == head[pk.len() as int]);
    }
    lemma_skip_ws_here(s, p1);
    let p3 = p1 + 1;
    lemma_print_first_char(fs[i].1);
    assert(s[p3] == pv[0]) by {
        assert(head[pk.len() + 1 as int] == pv[0]);
        assert(s[pos + (pk.len() + 1)] == head[pk.len() + 1 as int]);
    }
    lemma_skip_ws_here(s, p3);
    assert forall|k: int| 0 <= k < pv.len() implies s[p3 + k] == #[trigger] pv[k] by {
        assert(head[pk.len() + 1 + k] == pv[k]);
        assert(s[pos + (pk.len() + 1 + k)] == head[pk.len() + 1 + k]);
    }
    let p4 = p3 + pv.len() as int;
    if i + 1 < fs.len() {
        let rest = print_members_spec(fs, i + 1);
        assert(s[p4] == ',') by {
            assert(ml[head.len() as int] == ',');
            assert(s[pos + head.len()] == ml[head.len() as int]);
        }
        lemma_parse_print_value(s, p3, fs[i].1, (fuel - 1) as nat);
        lemma_skip_ws_here(s, p4);
        assert(rest[0] == print_str(fs[i + 1].0)[0]);
        assert(rest[0] == '"');
        assert(s[p4 + 1] == rest[0]) by {
            assert(ml[head.len() + 1 as int] == rest[0]);
            assert(s[pos + (head.len() + 1)] == ml[head.len() + 1 as int]);
        }
        lemma_skip_ws_here(s, p4 + 1);
        assert forall|k: int|
            0 <= k < rest.len() implies s[p4 + 1 + k] == #[trigger] rest[k] by {
            assert(ml[head.len() + 1 + k] == rest[k]);
            assert(s[pos + (head.len() + 1 + k)] == ml[head.len() + 1 + k]);
        }
        assert(s[p4 + 1 + rest.len()] == '}') by {
            assert(p4 + 1 + rest.len() == pos + ml.len());
        }
        lemma_parse_print_members(s, p4 + 1, fs, i + 1, (fuel - 1) as nat);
        assert((key.skip(0), fs[i].1) == fs[i]);
        assert(seq![fs[i]] + fs.skip(i + 1) =~= fs.skip(i));
    } else {
        assert(s[p4] == '}');
        lemma_parse_print_value(s, p3, fs[i].1, (fuel - 1) as nat);
        lemma_skip_ws_here(s, p4);
        assert((key.skip(0), fs[i].1) == fs[i]);
        assert(seq![fs[i]] =~= fs.skip(i));
    }
}


/// A well-formed document, printed as text, is accepted by the grammar and
/// parses back to the very document it came from.
pub proof fn lemma_print_parse_json(j: JsonModel)
    requires
        wf_json_text(j),
        print_json_spec(j).len() <= MAX_DOC_LEN,
    ensures
        parse_json_spec(print_json_spec(j)) == Some(j),
{
    let s = print_json_spec(j);
    lemma_print_first_char(j);
    lemma_skip_ws_here(s, 0);
    lemma_jsize_pos(j);
    lemma_print_len_ge_jsize(j);
    assert forall|k: int| 0 <= k < s.len() implies s[0 + k] == #[trigger] s[k] by {}
    lemma_parse_print_value(s, 0, j, (2 * s.len() + 2) as nat);
    lemma_skip_ws_here(s, s.len() as int);
}

spec fn plain_prefix(s: Seq<char>, n: int) -> bool
    decreases n,
{
    if n <= 0 {
        true
    } else {
        plain_prefix(s, n - 1) && is_plain_str_char(s[n - 1])
    }
}

proof fn lemma_plain_prefix(s: Seq<char>, n: int)
    requires
        plain_prefix(s, n),
    ensures
        forall|i: int| 0 <= i < n ==> is_plain_str_char(#[trigger] s[i]),
    decreases n,
{
    if n > 0 {
        lemma_plain_prefix(s, n - 1);
    }
}

/// An amount whose decimal numeral the grammar reads back: strictly within
/// eighteen digits.
pub open spec fn wf_amount(x: i64) -> bool {
    -1000000000000000000 < x < 1000000000000000000
}

/// An optional amount within the printable range.
pub open spec fn wf_opt_amount(x: Option<i64>) -> bool {
    match x {
        None => true,
        Some(v) => wf_amount(v),
    }
}

/// A spark line whose wire text reads back.
pub open spec fn wf_sparkline_model(m: SparkLineModel) -> bool {
    &&& match m.data {
        None => true,
        Some(ps) => forall|i: int| 0 <= i < ps.len() ==> wf_opt_amount(#[trigger] ps[i]),
    }
    &&& wf_opt_amount(m.total_change)
}

/// An exchange quote whose wire text reads back.
pub open spec fn wf_currency_data_model(m: CurrencyDataModel) -> bool {
    &&& wf_text(m.sample_time_utc)
    &&& wf_amount(m.value)
}

/// A currency snapshot whose wire text reads back: printable strings and
/// amounts within the printable range.
pub open spec fn wf_currency_line_model(m: CurrencyLineModel) -> bool {
    &&& wf_text(m.currency_type_name)
    &&& wf_text(m.details_id)
    &&& match m.pay {
        None => true,
        Some(d) => wf_currency_data_model(d),
    }
    &&& match m.receive {
        None => true,
        Some(d) => wf_currency_data_model(d),
    }
    &&& wf_sparkline_model(m.pay_spark_line)
    &&& wf_sparkline_model(m.receive_spark_line)
    &&& wf_sparkline_model(m.low_confidence_pay_spark_line)
    &&& wf_sparkline_model(m.low_confidence_receive_spark_line)
    &&& wf_opt_amount(m.chaos_equivalent)
}

proof fn lemma_wf_enc_points(ps: Seq<Option<i64>>, i: int)
    requires
        forall|k: int| 0 <= k < ps.len() ==> wf_opt_amount(#[trigger] ps[k]),
        0 <= i,
    ensures
        wf_elems_text(enc_points(ps), i),
    decreases ps.len() - i,
{
    if i < ps.len() {
        lemma_wf_enc_points(ps, i + 1);
        assert(wf_json_text(enc_points(ps)[i])) by {
            assert(wf_opt_amount(ps[i]));
        }
    }
}

proof fn lemma_wf_enc_sparkline(m: SparkLineModel)
    requires
        wf_sparkline_model(m),
    ensures
        wf_json_text(enc_sparkline(m)),
{
    reveal_strlit("data");
    reveal_strlit("totalChange");
    let fs = match enc_sparkline(m) {
        JsonModel::Obj(fs) => fs,
        _ => arbitrary(),
    };
    assert(wf_text("data"@)) by {
        assert(plain_prefix("data"@, 4)) by {
            reveal_with_fuel(plain_prefix, 6);
        }
        lemma_plain_prefix("data"@, 4);
    }
    assert(wf_text("totalChange"@)) by {
        assert(plain_prefix("totalChange"@, 11)) by {
            reveal_with_fuel(plain_prefix, 13);
        }
        lemma_plain_prefix("totalChange"@, 11);
    }
    assert(wf_json_text(fs[0].1)) by {
        match m.data {
            None => {},
            Some(ps) => {
                lemma_wf_enc_points(ps, 0);
            },
        }
    }
    assert(fs.len() == 2);
    assert(fs[1].0 == "totalChange"@);
    assert(wf_json_text(fs[1].1));
    assert(wf_members_text(fs, 2));
    assert(wf_members_text(fs, 1));
    assert(wf_members_text(fs, 0));
}

proof fn lemma_wf_enc_currency_data(m: CurrencyDataModel)
    requires
        wf_currency_data_model(m),
    ensures
        wf_json_text(enc_currency_data(m)),
{
    reveal_strlit("id");
    reveal_strlit("league_id");
    reveal_strlit("pay_currency_id");
    reveal_strlit("get_currency_id");
    reveal_strlit("sample_time_utc");
    reveal_strlit("count");
    reveal_strlit("value");
    reveal_strlit("data_point_count");
    reveal_strlit("includes_secondary");
    reveal_strlit("listing_count");
    let fs = match enc_currency_data(m) {
        JsonModel::Obj(fs) => fs,
        _ => arbitrary(),
    };
    assert(wf_text("id"@)) by {
        assert(plain_prefix("id"@, 2)) by {
            reveal_with_fuel(plain_prefix, 4);
        }
        lemma_plain_prefix("id"@, 2);
    }
    assert(wf_text("league_id"@)) by {
        assert(plain_prefix("league_id"@, 9)) by {
            reveal_with_fuel(plain_prefix, 11);
        }
        lemma_plain_prefix("league_id"@, 9);
    }
    assert(wf_text("pay_currency_id"@)) by {
        assert(plain_prefix("pay_currency_id"@, 15)) by {
            reveal_with_fuel(plain_prefix, 17);
        }
        lemma_plain_prefix("pay_currency_id"@, 15);
    }
    assert(wf_text("get_currency_id"@)) by {
        assert(plain_prefix("get_currency_id"@, 15)) by {
            reveal_with_fuel(plain_prefix, 17);
        }
        lemma_plain_prefix("get_currency_id"@, 15);
    }
    assert(wf_text("sample_time_utc"@)) by {
        assert(plain_prefix("sample_time_utc"@, 15)) by {
            reveal_with_fuel(plain_prefix, 17);
        }
        lemma_plain_prefix("sample_time_utc"@, 15);
    }
    assert(wf_text("count"@)) by {
        assert(plain_prefix("count"@, 5)) by {
            reveal_with_fuel(plain_prefix, 7);
        }
        lemma_plain_prefix("count"@, 5);
    }
    assert(wf_text("value"@)) by {
        assert(plain_prefix("value"@, 5)) by {
            reveal_with_fuel(plain_prefix, 7);
        }
        lemma_plain_prefix("value"@, 5);
    }
    assert(wf_text("data_point_count"@)) by {
        assert(plain_prefix("data_point_count"@, 16)) by {
            reveal_with_fuel(plain_prefix, 18);
        }
        lemma_plain_prefix("data_point_count"@, 16);
    }
    assert(wf_text("includes_secondary"@)) by {
        assert(plain_prefix("includes_secondary"@, 18)) by {
            reveal_with_fuel(plain_prefix, 20);
        }
        lemma_plain_prefix("includes_secondary"@, 18);
    }
    assert(wf_text("listing_count"@)) by {
        assert(plain_prefix("listing_count"@, 13)) by {
            reveal_with_fuel(plain_prefix, 15);
        }
        lemma_plain_prefix("listing_count"@, 13);
    }
    assert(fs.len() == 10);
    assert(wf_json_text(fs[0].1));
    assert(wf_json_text(fs[1].1));
    assert(wf_json_text(fs[2].1));
    assert(wf_json_text(fs[3].1));
    assert(wf_json_text(fs[4].1));
    assert(wf_json_text(fs[5].1));
    assert(wf_json_text(fs[6].1));
    assert(wf_json_text(fs[7].1));
    assert(wf_json_text(fs[8].1));
    assert(wf_json_text(fs[9].1));
    assert(wf_members_text(fs, 10));
    assert(wf_members_text(fs, 9));
    assert(wf_members_text(fs, 8));
    assert(wf_members_text(fs, 7));
    assert(wf_members_text(fs, 6));
    assert(wf_members_text(fs, 5));
    assert(wf_members_text(fs, 4));
    assert(wf_members_text(fs, 3));
    assert(wf_members_text(fs, 2));
    assert(wf_members_text(fs, 1));
    assert(wf_members_text(fs, 0));
}

proof fn lemma_wf_enc_currency_line(m: CurrencyLineModel)
    requires
        wf_currency_line_model(m),
    ensures
        wf_json_text(enc_currency_line(m)),
{
    reveal_strlit("currencyTypeName");
    reveal_strlit("pay");
    reveal_strlit("receive");
    reveal_strlit("paySparkLine");
    reveal_strlit("receiveSparkLine");
    reveal_strlit("chaosEquivalent");
    reveal_strlit("lowConfidencePaySparkLine");
    reveal_strlit("lowConfidenceReceiveSparkLine");
    reveal_strlit("detailsId");
    let fs = match enc_currency_line(m) {
        JsonModel::Obj(fs) => fs,
        _ => arbitrary(),
    };
    assert(wf_text("currencyTypeName"@)) by {
        assert(plain_prefix("currencyTypeName"@, 16)) by {
            reveal_with_fuel(plain_prefix, 18);
        }
        lemma_plain_prefix("currencyTypeName"@, 16);
    }
    assert(wf_text("pay"@)) by {
        assert(plain_prefix("pay"@, 3)) by {
            reveal_with_fuel(plain_prefix, 5);
        }
        lemma_plain_prefix("pay"@, 3);
    }
    assert(wf_text("receive"@)) by {
        assert(plain_prefix("receive"@, 7)) by {
            reveal_with_fuel(plain_prefix, 9);
        }
        lemma_plain_prefix("receive"@, 7);
    }
    assert(wf_text("paySparkLine"@)) by {
        assert(plain_prefix("paySparkLine"@, 12)) by {
            reveal_with_fuel(plain_prefix, 14);
        }
        lemma_plain_prefix("paySparkLine"@, 12);
    }
    assert(wf_text("receiveSparkLine"@)) by {
        assert(plain_prefix("receiveSparkLine"@, 16)) by {
            reveal_with_fuel(plain_prefix, 18);
        }
        lemma_plain_prefix("receiveSparkLine"@, 16);
    }
    assert(wf_text("chaosEquivalent"@)) by {
        assert(plain_prefix("chaosEquivalent"@, 15)) by {
            reveal_with_fuel(plain_prefix, 17);
        }
        lemma_plain_prefix("chaosEquivalent"@, 15);
    }
    assert(wf_text("lowConfidencePaySparkLine"@)) by {
        assert(plain_prefix("lowConfidencePaySparkLine"@, 25)) by {
            reveal_with_fuel(plain_prefix, 27);
        }
        lemma_plain_prefix("lowConfidencePaySparkLine"@, 25);
    }
    assert(wf_text("lowConfidenceReceiveSparkLine"@)) by {
        assert(plain_prefix("lowConfidenceReceiveSparkLine"@, 29)) by {
            reveal_with_fuel(plain_prefix, 31);
        }
        lemma_plain_prefix("lowConfidenceReceiveSparkLine"@, 29);
    }
    assert(wf_text("detailsId"@)) by {
        assert(plain_prefix("detailsId"@, 9)) by {
            reveal_with_fuel(plain_prefix, 11);
        }
        lemma_plain_prefix("detailsId"@, 9);
    }
    assert(wf_json_text(fs[1].1)) by {
        match m.pay {
            None => {},
            Some(d) => {
                lemma_wf_enc_currency_data(d);
            },
        }
    }
    assert(wf_json_text(fs[2].1)) by {
        match m.receive {
            None => {},
            Some(d) => {
                lemma_wf_enc_currency_data(d);
            },
        }
    }
    lemma_wf_enc_sparkline(m.pay_spark_line);
    lemma_wf_enc_sparkline(m.receive_spark_line);
    lemma_wf_enc_sparkline(m.low_confidence_pay_spark_line);
    lemma_wf_enc_sparkline(m.low_confidence_receive_spark_line);
    assert(fs.len() == 9);
    assert(wf_json_text(fs[0].1));
    assert(wf_json_text(fs[3].1)) by {
        assert(fs[3].1 == enc_sparkline(m.pay_spark_line));
    }
    assert(wf_json_text(fs[4].1)) by {
        assert(fs[4].1 == enc_sparkline(m.receive_spark_line));
    }
    assert(wf_json_text(fs[5].1));
    assert(wf_json_text(fs[6].1)) by {
        assert(fs[6].1 == enc_sparkline(m.low_confidence_pay_spark_line));
    }
    assert(wf_json_text(fs[7].1)) by {
        assert(fs[7].1 == enc_sparkline(m.low_confidence_receive_spark_line));
    }
    assert(wf_json_text(fs[8].1));
    assert(wf_members_text(fs, 9));
    assert(wf_members_text(fs, 8));
    assert(wf_members_text(fs, 7));
    assert(wf_members_text(fs, 6));
    assert(wf_members_text(fs, 5));
    assert(wf_members_text(fs, 4));
    assert(wf_members_text(fs, 3));
    assert(wf_members_text(fs, 2));
    assert(wf_members_text(fs, 1));
    assert(wf_members_text(fs, 0));
}

/// Full round trip through the wire text: a well-formed currency snapshot
/// written as a JSON document and printed is accepted by the grammar, and
/// decoding what was parsed yields the snapshot that was written, every
/// field equal.
pub proof fn lemma_currency_line_text_round_trip(m: CurrencyLineModel)
    requires
        wf_currency_line_model(m),
        print_json_spec(enc_currency_line(m)).len() <= MAX_DOC_LEN,
    ensures
        parse_json_spec(print_json_spec(enc_currency_line(m))) == Some(enc_currency_line(m)),
        decode_currency_line_spec(print_json_spec(enc_currency_line(m))) == Ok::<
            CurrencyLineModel,
            SchemaError,
        >(m),
{
    lemma_wf_enc_currency_line(m);
    lemma_print_parse_json(enc_currency_line(m));
    lemma_currency_line_round_trip(m);
}

} // verus!
