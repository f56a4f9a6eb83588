use vstd::prelude::*;

verus! {

broadcast use
    vstd::std_specs::vec::axiom_vec_index_decreases,
    vstd::std_specs::vec::axiom_vec_decreases_to_view,
    vstd::seq::axiom_seq_index_decreases,
;

/// Upper bound on accepted document length, in characters: a resource
/// bound, far above any snapshot payload the service returns.
pub const MAX_DOC_LEN: usize = 100_000_000;

/// Mathematical model of a JSON document. Numbers are fixed-point integers
/// in millionths (micro-units).
pub enum JsonModel {
    Null,
    Bool(bool),
    Num(int),
    Str(Seq<char>),
    Arr(Seq<JsonModel>),
    Obj(Seq<(Seq<char>, JsonModel)>),
}

/// A decoded JSON document. Numbers are fixed-point integers in millionths
/// (micro-units); object fields keep their wire order.
pub enum JsonValue {
    Null,
    Bool(bool),
    Num(i64),
    Str(String),
    Arr(Vec<JsonValue>),
    Obj(Vec<(String, JsonValue)>),
}

/// The model of a decoded document.
pub open spec fn json_view(v: JsonValue) -> JsonModel
    decreases v,
{
    match v {
        JsonValue::Null => JsonModel::Null,
        JsonValue::Bool(b) => JsonModel::Bool(b),
        JsonValue::Num(m) => JsonModel::Num(m as int),
        JsonValue::Str(s) => JsonModel::Str(s@),
        JsonValue::Arr(a) => JsonModel::Arr(json_view_elems(a@)),
        JsonValue::Obj(f) => JsonModel::Obj(json_view_members(f@)),
    }
}

/// The models of a sequence of array elements.
pub open spec fn json_view_elems(s: Seq<JsonValue>) -> Seq<JsonModel>
    decreases s,
{
    Seq::new(
        s.len(),
        |i: int|
            if 0 <= i < s.len() {
                json_view(s[i])
            } else {
                JsonModel::Null
            },
    )
}

/// The models of a sequence of object fields.
pub open spec fn json_view_members(s: Seq<(String, JsonValue)>) -> Seq<(Seq<char>, JsonModel)>
    decreases s,
{
    Seq::new(
        s.len(),
        |i: int|
            if 0 <= i < s.len() {
                (s[i].0@, json_view(s[i].1))
            } else {
                (Seq::<char>::empty(), JsonModel::Null)
            },
    )
}

/// JSON insignificant whitespace.
pub open spec fn is_ws(c: char) -> bool {
    c == ' ' || c == '\t' || c == '\n' || c == '\r'
}

/// An ASCII decimal digit.
pub open spec fn is_digit(c: char) -> bool {
    '0' <= c && c <= '9'
}

/// The position of the first non-whitespace character at or after `pos`.
pub open spec fn skip_ws(s: Seq<char>, pos: int) -> int
    decreases s.len() - pos,
{
    if pos < s.len() && is_ws(s[pos]) {
        skip_ws(s, pos + 1)
    } else {
        pos
    }
}

/// The position of the first non-digit character at or after `pos`.
pub open spec fn digit_run_end(s: Seq<char>, pos: int) -> int
    decreases s.len() - pos,
{
    if pos < s.len() && is_digit(s[pos]) {
        digit_run_end(s, pos + 1)
    } else {
        pos
    }
}

/// The numeric value of one digit character.
pub open spec fn digit_val(c: char) -> int {
    (c as u8) - ('0' as u8)
}

/// The value of the decimal numeral written in `s` from `start` to `end`.
pub open spec fn digits_val(s: Seq<char>, start: int, end: int) -> int
    decreases end - start,
{
    if start >= end {
        0
    } else {
        digits_val(s, start, end - 1) * 10 + digit_val(s[end - 1])
    }
}

/// Ten to the `n`.
pub open spec fn pow10(n: nat) -> int
    decreases n,
{
    if n == 0 {
        1
    } else {
        10 * pow10((n - 1) as nat)
    }
}

/// The numeral grammar this codec accepts: an optional minus sign, one to
/// twelve integer digits, and optionally a point followed by fractional
/// digits, of which the first six are significant. The result is the value
/// in micro-units, with the position after the numeral.
pub open spec fn parse_num_spec(s: Seq<char>, pos: int) -> Option<(int, int)> {
    let neg = pos < s.len() && s[pos] == '-';
    let p0 = if neg {
        pos + 1
    } else {
        pos
    };
    let e1 = digit_run_end(s, p0);
    if e1 == p0 || e1 - p0 > 12 {
        None
    } else {
        let whole = digits_val(s, p0, e1);
        if e1 < s.len() && s[e1] == '.' {
            let p2 = e1 + 1;
            let e2 = digit_run_end(s, p2);
            if e2 == p2 {
                None
            } else {
                let fd = if e2 - p2 > 6 {
                    6
                } else {
                    e2 - p2
                };
                let micros = whole * 1000000 + digits_val(s, p2, p2 + fd) * pow10((6 - fd) as nat);
                Some(
                    (
                        if neg {
                            -micros
                        } else {
                            micros
                        },
                        e2,
                    ),
                )
            }
        } else {
            let micros = whole * 1000000;
            Some(
                (
                    if neg {
                        -micros
                    } else {
                        micros
                    },
                    e1,
                ),
            )
        }
    }
}

/// A string character that stands for itself: printable ASCII other than
/// the quote and the backslash. The service's payloads are ASCII, and this
/// codec treats any other byte as invalid.
pub open spec fn is_plain_str_char(c: char) -> bool {
    ' ' <= c && c <= '~' && c != '"' && c != '\\'
}

/// The character denoted by a backslash escape, where one is accepted.
pub open spec fn unescape(c: char) -> Option<char> {
    if c == '"' {
        Some('"')
    } else if c == '\\' {
        Some('\\')
    } else if c == '/' {
        Some('/')
    } else if c == 'n' {
        Some('\n')
    } else if c == 't' {
        Some('\t')
    } else if c == 'r' {
        Some('\r')
    } else {
        None
    }
}

/// The body of a string literal, starting just after the opening quote:
/// the denoted characters and the position after the closing quote.
pub open spec fn parse_str_body_spec(s: Seq<char>, pos: int) -> Option<(Seq<char>, int)>
    decreases s.len() - pos,
{
    if pos >= s.len() {
        None
    } else if s[pos] == '"' {
        Some((Seq::empty(), pos + 1))
    } else if s[pos] == '\\' {
        if pos + 1 < s.len() {
            match unescape(s[pos + 1]) {
                Some(u) => match parse_str_body_spec(s, pos + 2) {
                    Some((t, q)) => Some((seq![u] + t, q)),
                    None => None,
                },
                None => None,
            }
        } else {
            None
        }
    } else if is_plain_str_char(s[pos]) {
        match parse_str_body_spec(s, pos + 1) {
            Some((t, q)) => Some((seq![s[pos]] + t, q)),
            None => None,
        }
    } else {
        None
    }
}

/// One JSON value starting at `pos`. The fuel only bounds recursion depth;
/// the fuel [`parse_json_spec`] supplies never runs out on a document the
/// grammar accepts.
pub open spec fn parse_value_spec(s: Seq<char>, pos: int, fuel: nat) -> Option<(JsonModel, int)>
    decreases fuel,
{
    if fuel == 0 || pos >= s.len() {
        None
    } else {
        let c = s[pos];
        if c == 'n' {
            if pos + 4 <= s.len() && s[pos + 1] == 'u' && s[pos + 2] == 'l' && s[pos + 3] == 'l' {
                Some((JsonModel::Null, pos + 4))
            } else {
                None
            }
        } else if c == 't' {
            if pos + 4 <= s.len() && s[pos + 1] == 'r' && s[pos + 2] == 'u' && s[pos + 3] == 'e' {
                Some((JsonModel::Bool(true), pos + 4))
            } else {
                None
            }
        } else if c == 'f' {
            if pos + 5 <= s.len() && s[pos + 1] == 'a' && s[pos + 2] == 'l' && s[pos + 3] == 's'
                && s[pos + 4] == 'e' {
                Some((JsonModel::Bool(false), pos + 5))
            } else {
                None
            }
        } else if c == '"' {
            match parse_str_body_spec(s, pos + 1) {
                Some((t, q)) => Some((JsonModel::Str(t), q)),
                None => None,
            }
        } else if c == '-' || is_digit(c) {
            match parse_num_spec(s, pos) {
                Some((m, q)) => Some((JsonModel::Num(m), q)),
                None => None,
            }
        } else if c == '[' {
            let p1 = skip_ws(s, pos + 1);
            if p1 < s.len() && s[p1] == ']' {
                Some((JsonModel::Arr(Seq::empty()), p1 + 1))
            } else {
                match parse_elems_spec(s, p1, (fuel - 1) as nat) {
                    Some((es, q)) => Some((JsonModel::Arr(es), q)),
                    None => None,
                }
            }
        } else if c == '{' {
            let p1 = skip_ws(s, pos + 1);
            if p1 < s.len() && s[p1] == '}' {
                Some((JsonModel::Obj(Seq::empty()), p1 + 1))
            } else {
                match parse_members_spec(s, p1, (fuel - 1) as nat) {
                    Some((ms, q)) => Some((JsonModel::Obj(ms), q)),
                    None => None,
                }
            }
        } else {
            None
        }
    }
}

/// One or more comma-separated array elements, ending at the closing
/// bracket.
pub open spec fn parse_elems_spec(s: Seq<char>, pos: int, fuel: nat) -> Option<
    (Seq<JsonModel>, int),
>
    decreases fuel,
{
    if fuel == 0 {
        None
    } else {
        match parse_value_spec(s, pos, (fuel - 1) as nat) {
            Some((v, p1)) => {
                let p2 = skip_ws(s, p1);
                if p2 < s.len() && s[p2] == ',' {
                    let p3 = skip_ws(s, p2 + 1);
                    match parse_elems_spec(s, p3, (fuel - 1) as nat) {
                        Some((es, q)) => Some((seq![v] + es, q)),
                        None => None,
                    }
                } else if p2 < s.len() && s[p2] == ']' {
                    Some((seq![v], p2 + 1))
                } else {
                    None
                }
            },
            None => None,
        }
    }
}

/// One or more comma-separated object fields, ending at the closing brace.
pub open spec fn parse_members_spec(s: Seq<char>, pos: int, fuel: nat) -> Option<
    (Seq<(Seq<char>, JsonModel)>, int),
>
    decreases fuel,
{
    if fuel == 0 {
        None
    } else if pos < s.len() && s[pos] == '"' {
        match parse_str_body_spec(s, pos + 1) {
            Some((key, p1)) => {
                let p2 = skip_ws(s, p1);
                if p2 < s.len() && s[p2] == ':' {
                    let p3 = skip_ws(s, p2 + 1);
                    match parse_value_spec(s, p3, (fuel - 1) as nat) {
                        Some((v, p4)) => {
                            let p5 = skip_ws(s, p4);
                            if p5 < s.len() && s[p5] == ',' {
                                let p6 = skip_ws(s, p5 + 1);
                                match parse_members_spec(s, p6, (fuel - 1) as nat) {
                                    Some((ms, q)) => Some((seq![(key, v)] + ms, q)),
                                    None => None,
                                }
                            } else if p5 < s.len() && s[p5] == '}' {
                                Some((seq![(key, v)], p5 + 1))
                            } else {
                                None
                            }
                        },
                        None => None,
                    }
                } else {
                    None
                }
            },
            None => None,
        }
    } else {
        None
    }
}

/// A whole document: optional whitespace, one value, optional whitespace,
/// end of input. Documents longer than [`MAX_DOC_LEN`] are rejected
/// outright.
pub open spec fn parse_json_spec(s: Seq<char>) -> Option<JsonModel> {
    if s.len() > MAX_DOC_LEN {
        None
    } else {
        let p0 = skip_ws(s, 0);
        match parse_value_spec(s, p0, (2 * s.len() + 2) as nat) {
            Some((v, p1)) => if skip_ws(s, p1) == s.len() {
                Some(v)
            } else {
                None
            },
            None => None,
        }
    }
}

proof fn lemma_pow10_monotone(a: nat, b: nat)
    requires
        a <= b,
    ensures
        1 <= pow10(a) <= pow10(b),
    decreases b,
{
    if a == b {
        if a == 0 {
        } else {
            lemma_pow10_monotone((a - 1) as nat, (a - 1) as nat);
        }
    } else {
        lemma_pow10_monotone(a, (b - 1) as nat);
    }
}

fn p_skip_ws(s: &str, pos: usize) -> (r: usize)
    requires
        pos <= s@.len(),
        s@.len() <= MAX_DOC_LEN,
    ensures
        r as int == skip_ws(s@, pos as int),
        pos <= r <= s@.len(),
    decreases s@.len() - pos,
{
    if pos < s.unicode_len() {
        let c = s.get_char(pos);
        if c == ' ' || c == '\t' || c == '\n' || c == '\r' {
            return p_skip_ws(s, pos + 1);
        }
    }
    pos
}

fn p_digit_run_end(s: &str, pos: usize) -> (r: usize)
    requires
        pos <= s@.len(),
        s@.len() <= MAX_DOC_LEN,
    ensures
        r as int == digit_run_end(s@, pos as int),
        pos <= r <= s@.len(),
        forall|t: int| pos <= t < r ==> is_digit(#[trigger] s@[t]),
    decreases s@.len() - pos,
{
    if pos < s.unicode_len() {
        let c = s.get_char(pos);
        if '0' <= c && c <= '9' {
            return p_digit_run_end(s, pos + 1);
        }
    }
    pos
}

fn p_digits_val(s: &str, start: usize, end: usize) -> (r: u64)
    requires
        start <= end,
        end as int <= s@.len(),
        s@.len() <= MAX_DOC_LEN,
        end - start <= 12,
        forall|t: int| start <= t < end ==> is_digit(#[trigger] s@[t]),
    ensures
        r as int == digits_val(s@, start as int, end as int),
        (r as int) < pow10((end - start) as nat),
        r < 1000000000000u64,
{
    proof {
        reveal_with_fuel(pow10, 13);
    }
    let mut acc: u64 = 0;
    let mut i: usize = start;
    while i < end
        invariant
            start <= i <= end,
            end as int <= s@.len(),
            end - start <= 12,
            forall|t: int| start <= t < end ==> is_digit(#[trigger] s@[t]),
            acc as int == digits_val(s@, start as int, i as int),
            (acc as int) < pow10((i - start) as nat),
        decreases end - i,
    {
        let c = s.get_char(i);
        proof {
            assert(is_digit(s@[i as int]));
            lemma_pow10_monotone((i - start) as nat, 11);
            reveal_with_fuel(pow10, 13);
        }
        let d = (c as u8) - 48;
        acc = acc * 10 + (d as u64);
        i += 1;
    }
    proof {
        lemma_pow10_monotone((end - start) as nat, 12);
        reveal_with_fuel(pow10, 13);
    }
    acc
}

fn p_pow10(k: usize) -> (r: u64)
    requires
        k <= 6,
    ensures
        r as int == pow10(k as nat),
{
    proof {
        reveal_with_fuel(pow10, 8);
    }
    match k {
        0 => 1,
        1 => 10,
        2 => 100,
        3 => 1000,
        4 => 10000,
        5 => 100000,
        _ => 1000000,
    }
}

fn p_num(s: &str, pos: usize) -> (r: Option<(i64, usize)>)
    requires
        pos <= s@.len(),
        s@.len() <= MAX_DOC_LEN,
    ensures
        match r {
            Some(p) => parse_num_spec(s@, pos as int) == Some((p.0 as int, p.1 as int)) && pos
                <= p.1 <= s@.len(),
            None => parse_num_spec(s@, pos as int) is None,
        },
{
    let n = s.unicode_len();
    let neg = pos < n && s.get_char(pos) == '-';
    let p0 = if neg {
        pos + 1
    } else {
        pos
    };
    let e1 = p_digit_run_end(s, p0);
    if e1 == p0 || e1 - p0 > 12 {
        return None;
    }
    let whole = p_digits_val(s, p0, e1);
    if e1 < n && s.get_char(e1) == '.' {
        let p2 = e1 + 1;
        let e2 = p_digit_run_end(s, p2);
        if e2 == p2 {
            return None;
        }
        let fd = if e2 - p2 > 6 {
            6
        } else {
            e2 - p2
        };
        let frac = p_digits_val(s, p2, p2 + fd);
        let scale = p_pow10(6 - fd);
        proof {
            lemma_pow10_monotone((6 - fd) as nat, 6);
            reveal_with_fuel(pow10, 8);
            assert(scale <= 1000000u64);
            assert((frac as int) * (scale as int) <= 999999999999int * 1000000int)
                by (nonlinear_arith)
                requires
                    0 <= (frac as int) <= 999999999999int,
                    0 <= (scale as int) <= 1000000int,
            ;
        }
        let prod = frac * scale;
        let micros = whole * 1000000 + prod;
        let m: i64 = if neg {
            -(micros as i64)
        } else {
            (micros as i64)
        };
        Some((m, e2))
    } else {
        let micros = whole * 1000000;
        let m: i64 = if neg {
            -(micros as i64)
        } else {
            (micros as i64)
        };
        Some((m, e1))
    }
}

fn p_str_body(s: &str, pos: usize) -> (r: Option<(String, usize)>)
    requires
        pos <= s@.len(),
        s@.len() <= MAX_DOC_LEN,
    ensures
        match r {
            Some(p) => parse_str_body_spec(s@, pos as int) == Some((p.0@, p.1 as int)) && pos
                <= p.1 <= s@.len(),
            None => parse_str_body_spec(s@, pos as int) is None,
        },
    decreases s@.len() - pos,
{
    let n = s.unicode_len();
    if pos >= n {
        return None;
    }
    let c = s.get_char(pos);
    if c == '"' {
        Some((String::new(), pos + 1))
    } else if c == '\\' {
        if pos + 1 < n {
            let e = s.get_char(pos + 1);
            let lit: &'static str = if e == '"' {
                "\""
            } else if e == '\\' {
                "\\"
            } else if e == '/' {
                "/"
            } else if e == 'n' {
                "\n"
            } else if e == 't' {
                "\t"
            } else if e == 'r' {
                "\r"
            } else {
                return None;
            };
            match p_str_body(s, pos + 2) {
                Some((t, q)) => {
                    let mut out = String::from_str(lit);
                    out.append(t.as_str());
                    proof {
                        reveal_strlit("\"");
                        reveal_strlit("\\");
                        reveal_strlit("/");
                        reveal_strlit("\n");
                        reveal_strlit("\t");
                        reveal_strlit("\r");
                        assert(out@ =~= seq![unescape(s@[pos + 1]).unwrap()] + t@);
                    }
                    Some((out, q))
                },
                None => None,
            }
        } else {
            None
        }
    } else if ' ' <= c && c <= '~' {
        match p_str_body(s, pos + 1) {
            Some((t, q)) => {
                let piece = s.substring_char(pos, pos + 1);
                let mut out = String::from_str(piece);
                out.append(t.as_str());
                proof {
                    assert(piece@ =~= seq![s@[pos as int]]);
                    assert(out@ =~= seq![s@[pos as int]] + t@);
                }
                Some((out, q))
            },
            None => None,
        }
    } else {
        None
    }
}

fn p_value(s: &str, pos: usize, fuel: u64) -> (r: Option<(JsonValue, usize)>)
    requires
        pos <= s@.len(),
        s@.len() <= MAX_DOC_LEN,
    ensures
        match r {
            Some(p) => parse_value_spec(s@, pos as int, fuel as nat) == Some(
                (json_view(p.0), p.1 as int),
            ) && pos <= p.1 <= s@.len(),
            None => parse_value_spec(s@, pos as int, fuel as nat) is None,
        },
    decreases fuel,
{
    let n = s.unicode_len();
    if fuel == 0 || pos >= n {
        return None;
    }
    let c = s.get_char(pos);
    if c == 'n' {
        if pos + 4 <= n && s.get_char(pos + 1) == 'u' && s.get_char(pos + 2) == 'l' && s.get_char(
            pos + 3,
        ) == 'l' {
            Some((JsonValue::Null, pos + 4))
        } else {
            None
        }
    } else if c == 't' {
        if pos + 4 <= n && s.get_char(pos + 1) == 'r' && s.get_char(pos + 2) == 'u' && s.get_char(
            pos + 3,
        ) == 'e' {
            Some((JsonValue::Bool(true), pos + 4))
        } else {
            None
        }
    } else if c == 'f' {
        if pos + 5 <= n && s.get_char(pos + 1) == 'a' && s.get_char(pos + 2) == 'l' && s.get_char(
            pos + 3,
        ) == 's' && s.get_char(pos + 4) == 'e' {
            Some((JsonValue::Bool(false), pos + 5))
        } else {
            None
        }
    } else if c == '"' {
        match p_str_body(s, pos + 1) {
            Some((t, q)) => Some((JsonValue::Str(t), q)),
            None => None,
        }
    } else if c == '-' || ('0' <= c && c <= '9') {
        match p_num(s, pos) {
            Some((m, q)) => Some((JsonValue::Num(m), q)),
            None => None,
        }
    } else if c == '[' {
        let p1 = p_skip_ws(s, pos + 1);
        if p1 < n && s.get_char(p1) == ']' {
            let es: Vec<JsonValue> = Vec::new();
            proof {
                assert(json_view_elems(es@) =~= Seq::<JsonModel>::empty());
            }
            Some((JsonValue::Arr(es), p1 + 1))
        } else {
            match p_elems(s, p1, fuel - 1) {
                Some((es, q)) => Some((JsonValue::Arr(es), q)),
                None => None,
            }
        }
    } else if c == '{' {
        let p1 = p_skip_ws(s, pos + 1);
        if p1 < n && s.get_char(p1) == '}' {
            let ms: Vec<(String, JsonValue)> = Vec::new();
            proof {
                assert(json_view_members(ms@) =~= Seq::<(Seq<char>, JsonModel)>::empty());
            }
            Some((JsonValue::Obj(ms), p1 + 1))
        } else {
            match p_members(s, p1, fuel - 1) {
                Some((ms, q)) => Some((JsonValue::Obj(ms), q)),
                None => None,
            }
        }
    } else {
        None
    }
}

fn p_elems(s: &str, pos: usize, fuel: u64) -> (r: Option<(Vec<JsonValue>, usize)>)
    requires
        pos <= s@.len(),
        s@.len() <= MAX_DOC_LEN,
    ensures
        match r {
            Some(p) => parse_elems_spec(s@, pos as int, fuel as nat) == Some(
                (json_view_elems(p.0@), p.1 as int),
            ) && pos <= p.1 <= s@.len(),
            None => parse_elems_spec(s@, pos as int, fuel as nat) is None,
        },
    decreases fuel,
{
    if fuel == 0 {
        return None;
    }
    let n = s.unicode_len();
    match p_value(s, pos, fuel - 1) {
        Some((v, p1)) => {
            let p2 = p_skip_ws(s, p1);
            if p2 < n && s.get_char(p2) == ',' {
                let p3 = p_skip_ws(s, p2 + 1);
                match p_elems(s, p3, fuel - 1) {
                    Some((es, q)) => {
                        let ghost tail = es@;
                        let mut es = es;
                        es.insert(0, v);
                        proof {
                            tail.insert_ensures(0, v);
                            assert(json_view_elems(es@) =~= seq![json_view(v)]
                                + json_view_elems(tail));
                        }
                        Some((es, q))
                    },
                    None => None,
                }
            } else if p2 < n && s.get_char(p2) == ']' {
                let mut es: Vec<JsonValue> = Vec::new();
                es.push(v);
                proof {
                    assert(json_view_elems(es@) =~= seq![json_view(v)]);
                }
                Some((es, p2 + 1))
            } else {
                None
            }
        },
        None => None,
    }
}

fn p_members(s: &str, pos: usize, fuel: u64) -> (r: Option<(Vec<(String, JsonValue)>, usize)>)
    requires
        pos <= s@.len(),
        s@.len() <= MAX_DOC_LEN,
    ensures
        match r {
            Some(p) => parse_members_spec(s@, pos as int, fuel as nat) == Some(
                (json_view_members(p.0@), p.1 as int),
            ) && pos <= p.1 <= s@.len(),
            None => parse_members_spec(s@, pos as int, fuel as nat) is None,
        },
    decreases fuel,
{
    if fuel == 0 {
        return None;
    }
    let n = s.unicode_len();
    if pos < n && s.get_char(pos) == '"' {
        match p_str_body(s, pos + 1) {
            Some((key, p1)) => {
                let p2 = p_skip_ws(s, p1);
                if p2 < n && s.get_char(p2) == ':' {
                    let p3 = p_skip_ws(s, p2 + 1);
                    match p_value(s, p3, fuel - 1) {
                        Some((v, p4)) => {
                            let p5 = p_skip_ws(s, p4);
                            if p5 < n && s.get_char(p5) == ',' {
                                let p6 = p_skip_ws(s, p5 + 1);
                                match p_members(s, p6, fuel - 1) {
                                    Some((ms, q)) => {
                                        let ghost tail = ms@;
                                        let ghost keyv = key@;
                                        let ghost vv = json_view(v);
                                        let mut ms = ms;
                                        ms.insert(0, (key, v));
                                        proof {
                                            tail.insert_ensures(0, (ms@[0].0, ms@[0].1));
                                            assert(json_view_members(ms@) =~= seq![(keyv, vv)]
                                                + json_view_members(tail));
                                        }
                                        Some((ms, q))
                                    },
                                    None => None,
                                }
                            } else if p5 < n && s.get_char(p5) == '}' {
                                let ghost keyv = key@;
                                let ghost vv = json_view(v);
                                let mut ms: Vec<(String, JsonValue)> = Vec::new();
                                ms.push((key, v));
                                proof {
                                    assert(json_view_members(ms@) =~= seq![(keyv, vv)]);
                                }
                                Some((ms, p5 + 1))
                            } else {
                                None
                            }
                        },
                        None => None,
                    }
                } else {
                    None
                }
            },
            None => None,
        }
    } else {
        None
    }
}

/// Parse a whole JSON document. Exactly the documents
/// [`parse_json_spec`] accepts come back as `Some`, and the result's model
/// is the one the grammar gives.
pub fn parse_json(s: &str) -> (r: Option<JsonValue>)
    ensures
        match r {
            Some(v) => parse_json_spec(s@) == Some(json_view(v)),
            None => parse_json_spec(s@) is None,
        },
{
    let n = s.unicode_len();
    if n > MAX_DOC_LEN {
        return None;
    }
    let p0 = p_skip_ws(s, 0);
    let fuel: u64 = 2 * (n as u64) + 2;
    match p_value(s, p0, fuel) {
        Some((v, p1)) => {
            if p_skip_ws(s, p1) == n {
                Some(v)
            } else {
                None
            }
        },
        None => None,
    }
}

} // verus!
