use vstd::prelude::*;

use crate::json::JsonModel;
use crate::json::JsonValue;
use crate::json::json_view;
use crate::json::json_view_elems;
use crate::json::json_view_members;

verus! {

broadcast use
    vstd::std_specs::vec::axiom_vec_index_decreases,
    vstd::seq::axiom_seq_index_decreases,
;

/// The character of one decimal digit.
pub open spec fn digit_char(n: int) -> char {
    ((('0' as u8) + n) as char)
}

/// The decimal numeral of a non-negative number, most significant digit
/// first.
pub open spec fn print_digits(n: int) -> Seq<char>
    decreases n,
{
    if n < 10 {
        seq![digit_char(n)]
    } else {
        print_digits(n / 10) + seq![digit_char(n % 10)]
    }
}

/// Six zero-padded fractional digits of a value below one million.
pub open spec fn print_frac6(f: int) -> Seq<char> {
    seq![
        digit_char((f / 100000) % 10),
        digit_char((f / 10000) % 10),
        digit_char((f / 1000) % 10),
        digit_char((f / 100) % 10),
        digit_char((f / 10) % 10),
        digit_char(f % 10),
    ]
}

/// A non-negative amount of micro-units as a decimal numeral: whole numbers
/// without a point, others with six fractional digits.
pub open spec fn print_num_abs(m: int) -> Seq<char> {
    if m % 1000000 == 0 {
        print_digits(m / 1000000)
    } else {
        print_digits(m / 1000000) + seq!['.'] + print_frac6(m % 1000000)
    }
}

/// An amount of micro-units as a decimal numeral.
pub open spec fn print_num(m: int) -> Seq<char> {
    if m < 0 {
        seq!['-'] + print_num_abs(-m)
    } else {
        print_num_abs(m)
    }
}

/// How one string character is written: the quote, the backslash and the
/// three control characters are escaped, everything else stands for itself.
pub open spec fn esc_char(c: char) -> Seq<char> {
    if c == '"' {
        seq!['\\', '"']
    } else if c == '\\' {
        seq!['\\', '\\']
    } else if c == '\n' {
        seq!['\\', 'n']
    } else if c == '\t' {
        seq!['\\', 't']
    } else if c == '\r' {
        seq!['\\', 'r']
    } else {
        seq![c]
    }
}

/// The escaped body of a string literal, from position `i` on.
pub open spec fn esc_str(s: Seq<char>, i: int) -> Seq<char>
    decreases s.len() - i,
{
    if i >= s.len() {
        Seq::empty()
    } else {
        esc_char(s[i]) + esc_str(s, i + 1)
    }
}

/// A quoted and escaped string literal.
pub open spec fn print_str(s: Seq<char>) -> Seq<char> {
    seq!['"'] + esc_str(s, 0) + seq!['"']
}

/// The canonical text of a document: no insignificant whitespace, absent
/// values as `null`.
pub open spec fn print_json_spec(j: JsonModel) -> Seq<char>
    decreases j, 0int,
{
    match j {
        JsonModel::Null => "null"@,
        JsonModel::Bool(b) => if b {
            "true"@
        } else {
            "false"@
        },
        JsonModel::Num(m) => print_num(m),
        JsonModel::Str(s) => print_str(s),
        JsonModel::Arr(es) => seq!['['] + print_elems_spec(es, 0) + seq![']'],
        JsonModel::Obj(fs) => seq!['{'] + print_members_spec(fs, 0) + seq!['}'],
    }
}

/// Comma-separated array elements, from index `i` on.
pub open spec fn print_elems_spec(es: Seq<JsonModel>, i: int) -> Seq<char>
    decreases es, es.len() - i,
{
    if i < 0 || i >= es.len() {
        Seq::empty()
    } else if i + 1 < es.len() {
        print_json_spec(es[i]) + seq![','] + print_elems_spec(es, i + 1)
    } else {
        print_json_spec(es[i])
    }
}

/// Comma-separated object fields, from index `i` on.
pub open spec fn print_members_spec(fs: Seq<(Seq<char>, JsonModel)>, i: int) -> Seq<char>
    decreases fs, fs.len() - i,
{
    if i < 0 || i >= fs.len() {
        Seq::empty()
    } else if i + 1 < fs.len() {
        print_str(fs[i].0) + seq![':'] + print_json_spec(fs[i].1) + seq![',']
            + print_members_spec(fs, i + 1)
    } else {
        print_str(fs[i].0) + seq![':'] + print_json_spec(fs[i].1)
    }
}

fn digit_str(d: u64) -> (r: &'static str)
    requires
        d < 10,
    ensures
        r@ == seq![digit_char(d as int)],
{
    let r = match d {
        0 => "0",
        1 => "1",
        2 => "2",
        3 => "3",
        4 => "4",
        5 => "5",
        6 => "6",
        7 => "7",
        8 => "8",
        _ => "9",
    };
    proof {
        reveal_strlit("0");
        reveal_strlit("1");
        reveal_strlit("2");
        reveal_strlit("3");
        reveal_strlit("4");
        reveal_strlit("5");
        reveal_strlit("6");
        reveal_strlit("7");
        reveal_strlit("8");
        reveal_strlit("9");
        assert(r@ =~= seq![digit_char(d as int)]);
    }
    r
}

fn pr_digits(n: u64) -> (r: String)
    ensures
        r@ == print_digits(n as int),
    decreases n,
{
    if n < 10 {
        String::from_str(digit_str(n))
    } else {
        let mut s = pr_digits(n / 10);
        s.append(digit_str(n % 10));
        s
    }
}

fn pr_frac6(f: u64) -> (r: String)
    requires
        f < 1000000,
    ensures
        r@ == print_frac6(f as int),
{
    let mut s = String::from_str(digit_str((f / 100000) % 10));
    s.append(digit_str((f / 10000) % 10));
    s.append(digit_str((f / 1000) % 10));
    s.append(digit_str((f / 100) % 10));
    s.append(digit_str((f / 10) % 10));
    s.append(digit_str(f % 10));
    proof {
        assert(s@ =~= print_frac6(f as int));
    }
    s
}

fn pr_num_abs(m: u64) -> (r: String)
    ensures
        r@ == print_num_abs(m as int),
{
    let whole = m / 1000000;
    let frac = m % 1000000;
    if frac == 0 {
        pr_digits(whole)
    } else {
        let mut s = pr_digits(whole);
        s.append(".");
        s.append(pr_frac6(frac).as_str());
        proof {
            reveal_strlit(".");
            assert(s@ =~= print_num_abs(m as int));
        }
        s
    }
}

fn pr_num(m: i64) -> (r: String)
    ensures
        r@ == print_num(m as int),
{
    if m >= 0 {
        pr_num_abs(m as u64)
    } else {
        let um: u64 = ((-(m + 1)) as u64) + 1;
        proof {
            assert(um as int == -(m as int));
        }
        let mut s = String::from_str("-");
        s.append(pr_num_abs(um).as_str());
        proof {
            reveal_strlit("-");
            assert(s@ =~= print_num(m as int));
        }
        s
    }
}

fn pr_str_body(s: &str, i: usize) -> (r: String)
    requires
        i <= s@.len(),
    ensures
        r@ == esc_str(s@, i as int),
    decreases s@.len() - i,
{
    if i >= s.unicode_len() {
        String::new()
    } else {
        let c = s.get_char(i);
        let rest = pr_str_body(s, i + 1);
        let mut out: String;
        if c == '"' {
            out = String::from_str("\\\"");
            proof {
                reveal_strlit("\\\"");
                assert(out@ =~= esc_char(s@[i as int]));
            }
        } else if c == '\\' {
            out = String::from_str("\\\\");
            proof {
                reveal_strlit("\\\\");
                assert(out@ =~= esc_char(s@[i as int]));
            }
        } else if c == '\n' {
            out = String::from_str("\\n");
            proof {
                reveal_strlit("\\n");
                assert(out@ =~= esc_char(s@[i as int]));
            }
        } else if c == '\t' {
            out = String::from_str("\\t");
            proof {
                reveal_strlit("\\t");
                assert(out@ =~= esc_char(s@[i as int]));
            }
        } else if c == '\r' {
            out = String::from_str("\\r");
            proof {
                reveal_strlit("\\r");
                assert(out@ =~= esc_char(s@[i as int]));
            }
        } else {
            let piece = s.substring_char(i, i + 1);
            out = String::from_str(piece);
            proof {
                assert(out@ =~= esc_char(s@[i as int]));
            }
        }
        out.append(rest.as_str());
        out
    }
}

fn pr_string(s: &str) -> (r: String)
    ensures
        r@ == print_str(s@),
{
    let mut out = String::from_str("\"");
    out.append(pr_str_body(s, 0).as_str());
    out.append("\"");
    proof {
        reveal_strlit("\"");
        assert(out@ =~= print_str(s@));
    }
    out
}

/// Write a document as its canonical text: what [`print_json_spec`] gives
/// for its model.
pub fn json_to_string(v: &JsonValue) -> (r: String)
    ensures
        r@ == print_json_spec(json_view(*v)),
    decreases *v, 0int,
{
    match v {
        JsonValue::Null => String::from_str("null"),
        JsonValue::Bool(b) => {
            if *b {
                String::from_str("true")
            } else {
                String::from_str("false")
            }
        },
        JsonValue::Num(m) => pr_num(*m),
        JsonValue::Str(s) => pr_string(s.as_str()),
        JsonValue::Arr(es) => {
            let mut out = String::from_str("[");
            out.append(pr_elems(es, 0).as_str());
            out.append("]");
            proof {
                reveal_strlit("[");
                reveal_strlit("]");
                assert(out@ =~= print_json_spec(json_view(*v)));
            }
            out
        },
        JsonValue::Obj(fs) => {
            let mut out = String::from_str("{");
            out.append(pr_members(fs, 0).as_str());
            out.append("}");
            proof {
                reveal_strlit("{");
                reveal_strlit("}");
                assert(out@ =~= print_json_spec(json_view(*v)));
            }
            out
        },
    }
}

fn pr_elems(es: &Vec<JsonValue>, i: usize) -> (r: String)
    requires
        i <= es@.len(),
    ensures
        r@ == print_elems_spec(json_view_elems(es@), i as int),
    decreases *es, es@.len() - i,
{
    if i >= es.len() {
        String::new()
    } else if i + 1 < es.len() {
        let mut out = json_to_string(&es[i]);
        out.append(",");
        out.append(pr_elems(es, i + 1).as_str());
        proof {
            reveal_strlit(",");
            assert(out@ =~= print_elems_spec(json_view_elems(es@), i as int));
        }
        out
    } else {
        let out = json_to_string(&es[i]);
        proof {
            assert(out@ =~= print_elems_spec(json_view_elems(es@), i as int));
        }
        out
    }
}

fn pr_members(fs: &Vec<(String, JsonValue)>, i: usize) -> (r: String)
    requires
        i <= fs@.len(),
    ensures
        r@ == print_members_spec(json_view_members(fs@), i as int),
    decreases *fs, fs@.len() - i,
{
    if i >= fs.len() {
        String::new()
    } else {
        let mut out = pr_string(fs[i].0.as_str());
        out.append(":");
        out.append(json_to_string(&fs[i].1).as_str());
        if i + 1 < fs.len() {
            out.append(",");
            out.append(pr_members(fs, i + 1).as_str());
        }
        proof {
            reveal_strlit(":");
            reveal_strlit(",");
            assert(out@ =~= print_members_spec(json_view_members(fs@), i as int));
        }
        out
    }
}

} // verus!
