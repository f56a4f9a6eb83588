use vstd::prelude::*;

use crate::decode::decode_currency_overview;
use crate::decode::decode_currency_overview_spec;
use crate::decode::decode_item_overview;
use crate::decode::decode_item_overview_spec;
use crate::error::ApiError;
use crate::error::TransportError;
use crate::types::CurrencyOverviewModel;
use crate::types::CurrencyOverviewResponse;
use crate::types::ItemOverviewModel;
use crate::types::ItemOverviewResponse;

verus! {

/// Characters that percent-encoding leaves as they are: ASCII letters and
/// digits.
pub open spec fn is_unreserved(c: char) -> bool {
    ('a' <= c && c <= 'z') || ('A' <= c && c <= 'Z') || ('0' <= c && c <= '9')
}

/// The uppercase hexadecimal digit for a value below sixteen.
pub open spec fn hex_digit(n: int) -> char {
    if n < 10 {
        ((('0' as u8) + n) as char)
    } else {
        ((('A' as u8) + (n - 10)) as char)
    }
}

/// Percent-encoding of one character: letters and digits stand for
/// themselves, every other character becomes a percent sign followed by two
/// uppercase hexadecimal digits (a space becomes `%20`).
pub open spec fn pct_char(c: char) -> Seq<char> {
    if is_unreserved(c) {
        seq![c]
    } else {
        seq!['%', hex_digit(((c as u8) as int) / 16), hex_digit(((c as u8) as int) % 16)]
    }
}

/// Percent-encoding of a whole string, character by character.
pub open spec fn pct_encode(s: Seq<char>) -> Seq<char>
    decreases s.len(),
{
    if s.len() == 0 {
        Seq::empty()
    } else {
        pct_encode(s.drop_last()) + pct_char(s.last())
    }
}

fn hex_char_str(d: u8) -> (r: &'static str)
    requires
        d < 16,
    ensures
        r@ == seq![hex_digit(d as int)],
{
    let r = match d {
        0 => "0",
        1 => "1",
        2 => "2",
        3 => "3",
        4 => "4",
        5 => "5",
        6 => "6",
        7 => "7",
        8 => "8",
        9 => "9",
        10 => "A",
        11 => "B",
        12 => "C",
        13 => "D",
        14 => "E",
        _ => "F",
    };
    proof {
        reveal_strlit("0");
        reveal_strlit("1");
        reveal_strlit("2");
        reveal_strlit("3");
        reveal_strlit("4");
        reveal_strlit("5");
        reveal_strlit("6");
        reveal_strlit("7");
        reveal_strlit("8");
        reveal_strlit("9");
        reveal_strlit("A");
        reveal_strlit("B");
        reveal_strlit("C");
        reveal_strlit("D");
        reveal_strlit("E");
        reveal_strlit("F");
        assert(r@ =~= seq![hex_digit(d as int)]);
    }
    r
}

/// Percent-encode an ASCII string for use as a URL query parameter: letters
/// and digits pass through, every other character (the space in a league
/// name, for instance) becomes `%XX` with uppercase hexadecimal digits.
pub fn encode(input: &str) -> (r: String)
    requires
        input.is_ascii(),
    ensures
        r@ == pct_encode(input@),
{
    let n = input.unicode_len();
    let mut out = String::new();
    let mut i: usize = 0;
    while i < n
        invariant
            n == input@.len(),
            input.is_ascii(),
            i <= n,
            out@ == pct_encode(input@.subrange(0, i as int)),
        decreases n - i,
    {
        let c = input.get_char(i);
        if ('a' <= c && c <= 'z') || ('A' <= c && c <= 'Z') || ('0' <= c && c <= '9') {
            let piece = input.substring_ascii(i, i + 1);
            out.append(piece);
            proof {
                assert(piece@ =~= seq![input@[i as int]]);
            }
        } else {
            let b = c as u8;
            out.append("%");
            out.append(hex_char_str(b / 16));
            out.append(hex_char_str(b % 16));
            proof {
                reveal_strlit("%");
                assert(vstd::utf8::is_ascii_chars(input@));
                assert((input@[i as int] as u8) == b);
            }
        }
        proof {
            let pre = input@.subrange(0, i as int);
            let cur = input@.subrange(0, i + 1 as int);
            assert(cur.drop_last() =~= pre);
            assert(cur.last() == input@[i as int]);
            assert(out@ =~= pct_encode(cur));
        }
        i += 1;
    }
    proof {
        assert(input@.subrange(0, input@.len() as int) =~= input@);
    }
    out
}

/// The GET URL for a currency overview of one league and currency kind.
pub open spec fn currency_overview_url_spec(league: Seq<char>, currency_type: Seq<char>) -> Seq<
    char,
> {
    "https://poe.ninja/api/data/currencyoverview?league="@ + pct_encode(league) + "&type="@
        + currency_type
}

/// The GET URL for an item overview of one league and item kind.
pub open spec fn item_overview_url_spec(league: Seq<char>, item_type: Seq<char>) -> Seq<char> {
    "https://poe.ninja/api/data/itemoverview?league="@ + pct_encode(league) + "&type="@ + item_type
}

/// Build the currency overview request URL: the league is percent-encoded,
/// the currency kind is used as given.
pub fn currency_overview_url(league: &str, currency_type: &str) -> (r: String)
    requires
        league.is_ascii(),
    ensures
        r@ == currency_overview_url_spec(league@, currency_type@),
{
    let mut url = String::from_str("https://poe.ninja/api/data/currencyoverview?league=");
    let enc = encode(league);
    url.append(enc.as_str());
    url.append("&type=");
    url.append(currency_type);
    url
}

/// Build the item overview request URL: the league is percent-encoded, the
/// item kind is used as given.
pub fn item_overview_url(league: &str, item_type: &str) -> (r: String)
    requires
        league.is_ascii(),
    ensures
        r@ == item_overview_url_spec(league@, item_type@),
{
    let mut url = String::from_str("https://poe.ninja/api/data/itemoverview?league=");
    let enc = encode(league);
    url.append(enc.as_str());
    url.append("&type=");
    url.append(item_type);
    url
}

/// A success HTTP status.
pub open spec fn is_success_status(status: u16) -> bool {
    200 <= status < 300
}

/// What one currency overview response yields: any non-success status is a
/// transport failure carrying that status, and a success body is decoded.
pub open spec fn currency_response_spec(status: u16, body: Seq<char>) -> Result<
    CurrencyOverviewModel,
    ApiError,
> {
    if !is_success_status(status) {
        Err(ApiError::Transport(TransportError::Status(status)))
    } else {
        match decode_currency_overview_spec(body) {
            Ok(m) => Ok(m),
            Err(e) => Err(ApiError::Schema(e)),
        }
    }
}

/// Interpret one currency overview response. A non-success status — 500,
/// say — always surfaces as a transport error carrying that status, never
/// as a schema error; a success body is decoded or rejected exactly as the
/// schema model says.
pub fn currency_overview_from_response(status: u16, body: &str) -> (r: Result<
    CurrencyOverviewResponse,
    ApiError,
>)
    ensures
        match r {
            Ok(v) => currency_response_spec(status, body@) == Ok::<_, ApiError>(v.deep_view()),
            Err(e) => currency_response_spec(status, body@) == Err::<CurrencyOverviewModel, ApiError>(
                e,
            ),
        },
        !is_success_status(status) ==> r == Err::<CurrencyOverviewResponse, ApiError>(
            ApiError::Transport(TransportError::Status(status)),
        ),
{
    if status < 200 || status >= 300 {
        return Err(ApiError::Transport(TransportError::Status(status)));
    }
    match decode_currency_overview(body) {
        Ok(v) => Ok(v),
        Err(e) => Err(ApiError::Schema(e)),
    }
}

/// What one item overview response yields.
pub open spec fn item_response_spec(status: u16, body: Seq<char>) -> Result<
    ItemOverviewModel,
    ApiError,
> {
    if !is_success_status(status) {
        Err(ApiError::Transport(TransportError::Status(status)))
    } else {
        match decode_item_overview_spec(body) {
            Ok(m) => Ok(m),
            Err(e) => Err(ApiError::Schema(e)),
        }
    }
}

/// Interpret one item overview response, exactly as
/// [`currency_overview_from_response`] does for currencies.
pub fn item_overview_from_response(status: u16, body: &str) -> (r: Result<
    ItemOverviewResponse,
    ApiError,
>)
    ensures
        match r {
            Ok(v) => item_response_spec(status, body@) == Ok::<_, ApiError>(v.deep_view()),
            Err(e) => item_response_spec(status, body@) == Err::<ItemOverviewModel, ApiError>(e),
        },
        !is_success_status(status) ==> r == Err::<ItemOverviewResponse, ApiError>(
            ApiError::Transport(TransportError::Status(status)),
        ),
{
    if status < 200 || status >= 300 {
        return Err(ApiError::Transport(TransportError::Status(status)));
    }
    match decode_item_overview(body) {
        Ok(v) => Ok(v),
        Err(e) => Err(ApiError::Schema(e)),
    }
}

} // verus!
