//! The wire format: encoding of requests and responses to JSON text and
//! decoding of responses from it.
//!
//! The format is bit-exact: a request body is
//! `{"method": <string>, "params": [<value>, ...], "id": <value>}` and a
//! response body is
//! `{"result": <value-or-null>, "error": <error-object-or-null>, "id": <value>}`,
//! with the error object `{"code": <int32>, "message": <string>, "data":
//! <value-or-null>}`. The decoder accepts any JSON object with those
//! fields, in any order, with whitespace between tokens, ignoring unknown
//! fields.
//!
//! Two deliberate modelling bounds: numbers are 64-bit integers (no
//! fractions or exponents), and `\u` escapes are accepted for ASCII code
//! points only. The encoder never produces anything outside these bounds.

use crate::error::{Error, RpcError, RpcErrorView};
use crate::{Request, RequestView, Response, ResponseView, Value, ValueView};
use vstd::prelude::*;

verus! {

// ---------------------------------------------------------------------
// The encoded form, as a function of the model.
// ---------------------------------------------------------------------

/// The decimal digit character for `d` (0 through 9).
pub open spec fn digit_char(d: int) -> char {
    if d == 0 {
        '0'
    } else if d == 1 {
        '1'
    } else if d == 2 {
        '2'
    } else if d == 3 {
        '3'
    } else if d == 4 {
        '4'
    } else if d == 5 {
        '5'
    } else if d == 6 {
        '6'
    } else if d == 7 {
        '7'
    } else if d == 8 {
        '8'
    } else {
        '9'
    }
}

/// The lower-case hexadecimal digit character for `d` (0 through 15).
pub open spec fn hex_char(d: int) -> char {
    if d < 10 {
        digit_char(d)
    } else if d == 10 {
        'a'
    } else if d == 11 {
        'b'
    } else if d == 12 {
        'c'
    } else if d == 13 {
        'd'
    } else if d == 14 {
        'e'
    } else {
        'f'
    }
}

/// The decimal notation of `n`, most significant digit first.
pub open spec fn spec_digits(n: nat) -> Seq<char>
    decreases n,
{
    if n < 10 {
        seq![digit_char(n as int)]
    } else {
        spec_digits(n / 10).push(digit_char((n % 10) as int))
    }
}

/// The decimal notation of a signed number.
pub open spec fn spec_encode_num(n: int) -> Seq<char> {
    if n < 0 {
        seq!['-'] + spec_digits((-n) as nat)
    } else {
        spec_digits(n as nat)
    }
}

/// The escaped form of one string character.
pub open spec fn spec_escape_char(c: char) -> Seq<char> {
    if c == '"' {
        seq!['\\', '"']
    } else if c == '\\' {
        seq!['\\', '\\']
    } else if c == '\n' {
        seq!['\\', 'n']
    } else if c == '\r' {
        seq!['\\', 'r']
    } else if c == '\t' {
        seq!['\\', 't']
    } else if (c as int) < 0x20 {
        seq!['\\', 'u', '0', '0', hex_char((c as int) / 16), hex_char((c as int) % 16)]
    } else {
        seq![c]
    }
}

/// The escaped form of a string's characters.
pub open spec fn spec_escape(s: Seq<char>) -> Seq<char>
    decreases s.len(),
{
    if s.len() == 0 {
        Seq::empty()
    } else {
        spec_escape(s.drop_last()) + spec_escape_char(s.last())
    }
}

/// The encoded form of a JSON string: quoted and escaped.
pub open spec fn spec_encode_string(s: Seq<char>) -> Seq<char> {
    seq!['"'] + spec_escape(s) + seq!['"']
}

/// The encoded form of a JSON value.
pub open spec fn spec_encode_value(v: ValueView) -> Seq<char>
    decreases v, 1int,
{
    match v {
        ValueView::Null => seq!['n', 'u', 'l', 'l'],
        ValueView::Bool(b) => if b {
            seq!['t', 'r', 'u', 'e']
        } else {
            seq!['f', 'a', 'l', 's', 'e']
        },
        ValueView::Num(n) => spec_encode_num(n),
        ValueView::Str(s) => spec_encode_string(s),
        ValueView::Array(items) => seq!['['] + spec_encode_items(items) + seq![']'],
        ValueView::Object(ms) => seq!['{'] + spec_encode_members(ms) + seq!['}'],
    }
}

/// The encoded form of an array's items, comma separated.
pub open spec fn spec_encode_items(items: Seq<ValueView>) -> Seq<char>
    decreases items, 0int,
{
    if items.len() == 0 {
        Seq::empty()
    } else if items.len() == 1 {
        spec_encode_value(items[0])
    } else {
        spec_encode_items(items.drop_last()) + seq![','] + spec_encode_value(items.last())
    }
}

/// The encoded form of one object member.
pub open spec fn spec_encode_member(m: (Seq<char>, ValueView)) -> Seq<char>
    decreases m, 0int,
{
    spec_encode_string(m.0) + seq![':'] + spec_encode_value(m.1)
}

/// The encoded form of an object's members, comma separated.
pub open spec fn spec_encode_members(ms: Seq<(Seq<char>, ValueView)>) -> Seq<char>
    decreases ms, 0int,
{
    if ms.len() == 0 {
        Seq::empty()
    } else if ms.len() == 1 {
        spec_encode_member(ms[0])
    } else {
        spec_encode_members(ms.drop_last()) + seq![','] + spec_encode_member(ms.last())
    }
}

/// The encoded form of a request object.
pub open spec fn spec_encode_request(r: RequestView) -> Seq<char> {
    "{\"method\":"@ + spec_encode_string(r.method) + ",\"params\":["@ + spec_encode_items(r.params)
        + "],\"id\":"@ + spec_encode_value(r.id) + seq!['}']
}

/// The encoded form of an error object, with `data` null when absent.
pub open spec fn spec_encode_rpc_error(e: RpcErrorView) -> Seq<char> {
    "{\"code\":"@ + spec_encode_num(e.code) + ",\"message\":"@ + spec_encode_string(e.message)
        + ",\"data\":"@ + (match e.data {
        Some(d) => spec_encode_value(d),
        None => "null"@,
    }) + seq!['}']
}

/// The encoded form of a response object, with absent fields null.
pub open spec fn spec_encode_response(r: ResponseView) -> Seq<char> {
    "{\"result\":"@ + (match r.result {
        Some(v) => spec_encode_value(v),
        None => "null"@,
    }) + ",\"error\":"@ + (match r.error {
        Some(e) => spec_encode_rpc_error(e),
        None => "null"@,
    }) + ",\"id\":"@ + spec_encode_value(r.id) + seq!['}']
}

// ---------------------------------------------------------------------
// The decoded form: a recursive-descent grammar over character sequences.
// Each function takes a position and yields the parsed piece and the
// position just past it, or nothing when the text does not match.
// ---------------------------------------------------------------------

/// JSON insignificant whitespace.
pub open spec fn is_ws(c: char) -> bool {
    c == ' ' || c == '\n' || c == '\r' || c == '\t'
}

/// A decimal digit.
pub open spec fn is_digit(c: char) -> bool {
    48 <= c as int && c as int <= 57
}

/// The numeric value of a decimal digit character.
pub open spec fn digit_val(c: char) -> int {
    c as int - 48
}

/// A lower- or upper-case hexadecimal digit.
pub open spec fn is_hex(c: char) -> bool {
    is_digit(c) || (97 <= c as int && c as int <= 102) || (65 <= c as int && c as int <= 70)
}

/// The numeric value of a hexadecimal digit character.
pub open spec fn hex_val(c: char) -> int {
    if is_digit(c) {
        c as int - 48
    } else if 97 <= c as int && c as int <= 102 {
        c as int - 87
    } else {
        c as int - 55
    }
}

/// The first position at or after `i` holding no whitespace.
pub open spec fn spec_skip_ws(s: Seq<char>, i: int) -> int
    decreases s.len() - i,
{
    if 0 <= i < s.len() && is_ws(s[i]) {
        spec_skip_ws(s, i + 1)
    } else {
        i
    }
}

/// A run of one or more digits starting at `i`, accumulated onto `acc`;
/// yields the value and the position after the run. A value that would
/// not fit in 64 bits does not parse.
pub open spec fn spec_parse_digits(s: Seq<char>, i: int, acc: u64) -> Option<(u64, int)>
    decreases s.len() - i,
{
    if 0 <= i < s.len() && is_digit(s[i]) {
        if acc as int * 10 + digit_val(s[i]) <= u64::MAX as int {
            let acc2 = (acc as int * 10 + digit_val(s[i])) as u64;
            if i + 1 < s.len() && is_digit(s[i + 1]) {
                spec_parse_digits(s, i + 1, acc2)
            } else {
                Some((acc2, i + 1))
            }
        } else {
            None
        }
    } else {
        None
    }
}

/// True when a fraction or exponent follows: the number forms JSON
/// allows but this model's 64-bit integers cannot hold.
pub open spec fn has_number_tail(s: Seq<char>, j: int) -> bool {
    0 <= j < s.len() && (s[j] == '.' || s[j] == 'e' || s[j] == 'E')
}

/// True when the digit run starting at `i` has a superfluous leading
/// zero, which JSON forbids.
pub open spec fn has_leading_zero(s: Seq<char>, i: int) -> bool {
    0 <= i && i + 1 < s.len() && s[i] == '0' && is_digit(s[i + 1])
}

/// A JSON number starting at `i`: an optional minus sign and a digit
/// run, within the 64-bit signed range, with no fraction or exponent.
pub open spec fn spec_parse_number(s: Seq<char>, i: int) -> Option<(i64, int)>
    decreases s.len() - i, 1int,
{
    if 0 <= i < s.len() && s[i] == '-' {
        match spec_parse_digits(s, i + 1, 0) {
            Some((m, j)) => if has_number_tail(s, j) || has_leading_zero(s, i + 1) {
                None
            } else if m <= 0x8000_0000_0000_0000u64 {
                Some(((-(m as int)) as i64, j))
            } else {
                None
            },
            None => None,
        }
    } else {
        match spec_parse_digits(s, i, 0) {
            Some((m, j)) => if has_number_tail(s, j) || has_leading_zero(s, i) {
                None
            } else if m <= 0x7fff_ffff_ffff_ffffu64 {
                Some((m as i64, j))
            } else {
                None
            },
            None => None,
        }
    }
}

/// The numeric value of the four hexadecimal digits at `i`.
pub open spec fn hex4_val(s: Seq<char>, i: int) -> int {
    4096 * hex_val(s[i]) + 256 * hex_val(s[i + 1]) + 16 * hex_val(s[i + 2]) + hex_val(s[i + 3])
}

/// True when four hexadecimal digits stand at `i`.
pub open spec fn has_hex4(s: Seq<char>, i: int) -> bool {
    0 <= i && i + 4 <= s.len() && is_hex(s[i]) && is_hex(s[i + 1]) && is_hex(s[i + 2]) && is_hex(
        s[i + 3],
    )
}

/// The body of a JSON string after the opening quote: characters and
/// escapes up to the closing quote, appended onto `acc`. `\u` escapes
/// are accepted for ASCII code points only, and raw control characters
/// do not parse.
pub open spec fn spec_parse_string_body(s: Seq<char>, i: int, acc: Seq<char>) -> Option<
    (Seq<char>, int),
>
    decreases s.len() - i,
{
    if 0 <= i < s.len() {
        let c = s[i];
        if c == '"' {
            Some((acc, i + 1))
        } else if c == '\\' {
            if i + 1 < s.len() {
                let e = s[i + 1];
                if e == '"' || e == '\\' || e == '/' {
                    spec_parse_string_body(s, i + 2, acc.push(e))
                } else if e == 'n' {
                    spec_parse_string_body(s, i + 2, acc.push('\n'))
                } else if e == 'r' {
                    spec_parse_string_body(s, i + 2, acc.push('\r'))
                } else if e == 't' {
                    spec_parse_string_body(s, i + 2, acc.push('\t'))
                } else if e == 'b' {
                    spec_parse_string_body(s, i + 2, acc.push('\u{8}'))
                } else if e == 'f' {
                    spec_parse_string_body(s, i + 2, acc.push('\u{c}'))
                } else if e == 'u' && has_hex4(s, i + 2) && hex4_val(s, i + 2) < 0x80 {
                    spec_parse_string_body(s, i + 6, acc.push(((hex4_val(s, i + 2)) as u8) as char))
                } else {
                    None
                }
            } else {
                None
            }
        } else if (c as int) < 0x20 {
            None
        } else {
            spec_parse_string_body(s, i + 1, acc.push(c))
        }
    } else {
        None
    }
}

/// A JSON value starting at or after `i`, leading whitespace skipped.
pub open spec fn spec_parse_value(s: Seq<char>, i: int) -> Option<(ValueView, int)>
    decreases s.len() - i, 2int,
{
    if 0 <= i < s.len() {
        let c = s[i];
        if is_ws(c) {
            spec_parse_value(s, i + 1)
        } else if c == 'n' {
            if i + 4 <= s.len() && s[i + 1] == 'u' && s[i + 2] == 'l' && s[i + 3] == 'l' {
                Some((ValueView::Null, i + 4))
            } else {
                None
            }
        } else if c == 't' {
            if i + 4 <= s.len() && s[i + 1] == 'r' && s[i + 2] == 'u' && s[i + 3] == 'e' {
                Some((ValueView::Bool(true), i + 4))
            } else {
                None
            }
        } else if c == 'f' {
            if i + 5 <= s.len() && s[i + 1] == 'a' && s[i + 2] == 'l' && s[i + 3] == 's' && s[i + 4]
                == 'e' {
                Some((ValueView::Bool(false), i + 5))
            } else {
                None
            }
        } else if c == '"' {
            match spec_parse_string_body(s, i + 1, Seq::empty()) {
                Some((cs, j)) => Some((ValueView::Str(cs), j)),
                None => None,
            }
        } else if c == '-' || is_digit(c) {
            match spec_parse_number(s, i) {
                Some((n, j)) => Some((ValueView::Num(n as int), j)),
                None => None,
            }
        } else if c == '[' {
            match spec_parse_items(s, i + 1, Seq::empty(), true) {
                Some((items, j)) => Some((ValueView::Array(items), j)),
                None => None,
            }
        } else if c == '{' {
            match spec_parse_members(s, i + 1, Seq::empty(), true) {
                Some((ms, j)) => Some((ValueView::Object(ms), j)),
                None => None,
            }
        } else {
            None
        }
    } else {
        None
    }
}

/// Array items from `i` on: either the closing bracket (only before the
/// first item) or a value, then [`spec_parse_after_item`].
pub open spec fn spec_parse_items(s: Seq<char>, i: int, acc: Seq<ValueView>, first: bool) -> Option<
    (Seq<ValueView>, int),
>
    decreases s.len() - i, 3int,
{
    if 0 <= i < s.len() {
        if is_ws(s[i]) {
            spec_parse_items(s, i + 1, acc, first)
        } else if s[i] == ']' && first {
            Some((acc, i + 1))
        } else {
            match spec_parse_value(s, i) {
                Some((v, j)) => if i < j <= s.len() {
                    spec_parse_after_item(s, j, acc.push(v))
                } else {
                    None
                },
                None => None,
            }
        }
    } else {
        None
    }
}

/// After an array item: a comma and further items, or the closing
/// bracket.
pub open spec fn spec_parse_after_item(s: Seq<char>, i: int, acc: Seq<ValueView>) -> Option<
    (Seq<ValueView>, int),
>
    decreases s.len() - i, 3int,
{
    if 0 <= i < s.len() {
        if is_ws(s[i]) {
            spec_parse_after_item(s, i + 1, acc)
        } else if s[i] == ',' {
            spec_parse_items(s, i + 1, acc, false)
        } else if s[i] == ']' {
            Some((acc, i + 1))
        } else {
            None
        }
    } else {
        None
    }
}

/// Object members from `i` on: either the closing brace (only before
/// the first member) or a quoted key, then [`spec_parse_member_rest`].
pub open spec fn spec_parse_members(
    s: Seq<char>,
    i: int,
    acc: Seq<(Seq<char>, ValueView)>,
    first: bool,
) -> Option<(Seq<(Seq<char>, ValueView)>, int)>
    decreases s.len() - i, 3int,
{
    if 0 <= i < s.len() {
        if is_ws(s[i]) {
            spec_parse_members(s, i + 1, acc, first)
        } else if s[i] == '}' && first {
            Some((acc, i + 1))
        } else if s[i] == '"' {
            match spec_parse_string_body(s, i + 1, Seq::empty()) {
                Some((k, j)) => if i < j <= s.len() {
                    spec_parse_member_rest(s, j, acc, k)
                } else {
                    None
                },
                None => None,
            }
        } else {
            None
        }
    } else {
        None
    }
}

/// After a member's key: a colon and the member's value, then
/// [`spec_parse_after_member`].
pub open spec fn spec_parse_member_rest(
    s: Seq<char>,
    i: int,
    acc: Seq<(Seq<char>, ValueView)>,
    k: Seq<char>,
) -> Option<(Seq<(Seq<char>, ValueView)>, int)>
    decreases s.len() - i, 3int,
{
    if 0 <= i < s.len() {
        if is_ws(s[i]) {
            spec_parse_member_rest(s, i + 1, acc, k)
        } else if s[i] == ':' {
            match spec_parse_value(s, i + 1) {
                Some((v, j)) => if i + 1 < j <= s.len() {
                    spec_parse_after_member(s, j, acc.push((k, v)))
                } else {
                    None
                },
                None => None,
            }
        } else {
            None
        }
    } else {
        None
    }
}

/// After an object member: a comma and further members, or the closing
/// brace.
pub open spec fn spec_parse_after_member(
    s: Seq<char>,
    i: int,
    acc: Seq<(Seq<char>, ValueView)>,
) -> Option<(Seq<(Seq<char>, ValueView)>, int)>
    decreases s.len() - i, 3int,
{
    if 0 <= i < s.len() {
        if is_ws(s[i]) {
            spec_parse_after_member(s, i + 1, acc)
        } else if s[i] == ',' {
            spec_parse_members(s, i + 1, acc, false)
        } else if s[i] == '}' {
            Some((acc, i + 1))
        } else {
            None
        }
    } else {
        None
    }
}

// ---------------------------------------------------------------------
// Interpreting a parsed value as a response object.
// ---------------------------------------------------------------------

/// The value of the first member named `k`, if any.
pub open spec fn spec_lookup(ms: Seq<(Seq<char>, ValueView)>, k: Seq<char>) -> Option<ValueView>
    decreases ms.len(),
{
    if ms.len() == 0 {
        None
    } else if ms[0].0 == k {
        Some(ms[0].1)
    } else {
        spec_lookup(ms.drop_first(), k)
    }
}

/// An optional field: an absent or null member reads as absent.
pub open spec fn spec_opt_field(ms: Seq<(Seq<char>, ValueView)>, k: Seq<char>) -> Option<
    ValueView,
> {
    match spec_lookup(ms, k) {
        None => None,
        Some(v) => if v == ValueView::Null {
            None
        } else {
            Some(v)
        },
    }
}

/// The error object a value denotes: an object with an integer `code`
/// in 32-bit range, a string `message`, and optional `data`; anything
/// else is malformed.
pub open spec fn spec_rpc_error_of(v: ValueView) -> Option<RpcErrorView> {
    match v {
        ValueView::Object(ms) => match (spec_lookup(ms, "code"@), spec_lookup(ms, "message"@)) {
            (Some(ValueView::Num(c)), Some(ValueView::Str(m))) => if -0x8000_0000 <= c
                < 0x8000_0000 {
                Some(RpcErrorView { code: c, message: m, data: spec_opt_field(ms, "data"@) })
            } else {
                None
            },
            _ => None,
        },
        _ => None,
    }
}

/// The response a value denotes: an object with an `id` field, an
/// optional `result`, and an optional `error` that must be a well-formed
/// error object when present. `result` and `error` may both be absent;
/// that is for callers to handle, not a decode failure.
pub open spec fn spec_response_of(v: ValueView) -> Option<ResponseView> {
    match v {
        ValueView::Object(ms) => match spec_lookup(ms, "id"@) {
            Some(id) => match spec_opt_field(ms, "error"@) {
                None => Some(
                    ResponseView { result: spec_opt_field(ms, "result"@), error: None, id },
                ),
                Some(e) => match spec_rpc_error_of(e) {
                    Some(ev) => Some(
                        ResponseView {
                            result: spec_opt_field(ms, "result"@),
                            error: Some(ev),
                            id,
                        },
                    ),
                    None => None,
                },
            },
            None => None,
        },
        _ => None,
    }
}

/// What a response body decodes to: one JSON value spanning the whole
/// text up to trailing whitespace, read as a response object.
pub open spec fn spec_decode_response(s: Seq<char>) -> Option<ResponseView> {
    match spec_parse_value(s, 0) {
        Some((v, j)) => if spec_skip_ws(s, j) == s.len() {
            spec_response_of(v)
        } else {
            None
        },
        None => None,
    }
}

/// The request a value denotes: an object with a string `method`, an
/// array `params`, and an `id`, all required.
pub open spec fn spec_request_of(v: ValueView) -> Option<RequestView> {
    match v {
        ValueView::Object(ms) => match (
            spec_lookup(ms, "method"@),
            spec_lookup(ms, "params"@),
            spec_lookup(ms, "id"@),
        ) {
            (Some(ValueView::Str(m)), Some(ValueView::Array(ps)), Some(id)) => Some(
                RequestView { method: m, params: ps, id },
            ),
            _ => None,
        },
        _ => None,
    }
}

/// What a request body decodes to: one JSON value spanning the whole
/// text up to trailing whitespace, read as a request object.
pub open spec fn spec_decode_request(s: Seq<char>) -> Option<RequestView> {
    match spec_parse_value(s, 0) {
        Some((v, j)) => if spec_skip_ws(s, j) == s.len() {
            spec_request_of(v)
        } else {
            None
        },
        None => None,
    }
}

// ---------------------------------------------------------------------
// The executable decoder.
// ---------------------------------------------------------------------

/// Relies on String::push: appends exactly one character.
#[verifier::external_body]
fn push_char(s: &mut String, c: char)
    ensures
        final(s)@ == old(s)@.push(c),
{
    s.push(c);
}

/// The characters of a string slice, as a vector.
fn to_chars(s: &str) -> (v: Vec<char>)
    ensures
        v@ == s@,
{
    let n = s.unicode_len();
    let mut v: Vec<char> = Vec::new();
    let mut i: usize = 0;
    while i < n
        invariant
            n == s@.len(),
            0 <= i <= n,
            v@ == s@.subrange(0, i as int),
        decreases n - i,
    {
        v.push(s.get_char(i));
        proof {
            assert(v@ =~= s@.subrange(0, i + 1 as int));
        }
        i += 1;
    }
    proof {
        assert(v@ =~= s@);
    }
    v
}

fn skip_ws(s: &Vec<char>, i: usize) -> (r: usize)
    requires
        i <= s@.len(),
    ensures
        r as int == spec_skip_ws(s@, i as int),
        i <= r <= s@.len(),
    decreases s@.len() - i,
{
    if i < s.len() && (s[i] == ' ' || s[i] == '\n' || s[i] == '\r' || s[i] == '\t') {
        skip_ws(s, i + 1)
    } else {
        i
    }
}

fn parse_digits(s: &Vec<char>, i: usize, acc: u64) -> (r: Option<(u64, usize)>)
    ensures
        match (r, spec_parse_digits(s@, i as int, acc)) {
            (Some(p), Some(q)) => p.0 == q.0 && p.1 as int == q.1 && p.1 <= s@.len(),
            (None, None) => true,
            _ => false,
        },
    decreases s@.len() - i,
{
    if i < s.len() && '0' <= s[i] && s[i] <= '9' {
        let d: u64 = (s[i] as u32 as u64) - 48;
        let wide: u128 = (acc as u128) * 10 + (d as u128);
        if wide <= u64::MAX as u128 {
            let acc2: u64 = wide as u64;
            if i + 1 < s.len() && '0' <= s[i + 1] && s[i + 1] <= '9' {
                parse_digits(s, i + 1, acc2)
            } else {
                Some((acc2, i + 1))
            }
        } else {
            None
        }
    } else {
        None
    }
}

fn parse_number(s: &Vec<char>, i: usize) -> (r: Option<(i64, usize)>)
    ensures
        match (r, spec_parse_number(s@, i as int)) {
            (Some(p), Some(q)) => p.0 == q.0 && p.1 as int == q.1 && p.1 <= s@.len(),
            (None, None) => true,
            _ => false,
        },
{
    if i < s.len() && s[i] == '-' {
        match parse_digits(s, i + 1, 0) {
            Some((m, j)) => {
                let tail = j < s.len() && (s[j] == '.' || s[j] == 'e' || s[j] == 'E');
                let lead = i + 2 < s.len() && s[i + 1] == '0' && '0' <= s[i + 2] && s[i + 2]
                    <= '9';
                if tail || lead {
                    None
                } else if m <= 0x8000_0000_0000_0000u64 {
                    let n: i64 = if m == 0x8000_0000_0000_0000u64 {
                        i64::MIN
                    } else {
                        -(m as i64)
                    };
                    Some((n, j))
                } else {
                    None
                }
            },
            None => None,
        }
    } else {
        match parse_digits(s, i, 0) {
            Some((m, j)) => {
                let tail = j < s.len() && (s[j] == '.' || s[j] == 'e' || s[j] == 'E');
                let lead = i + 1 < s.len() && s[i] == '0' && '0' <= s[i + 1] && s[i + 1] <= '9';
                if tail || lead {
                    None
                } else if m <= 0x7fff_ffff_ffff_ffffu64 {
                    Some((m as i64, j))
                } else {
                    None
                }
            },
            None => None,
        }
    }
}

fn parse_string_body(s: &Vec<char>, i: usize, acc: String) -> (r: Option<(String, usize)>)
    ensures
        match (r, spec_parse_string_body(s@, i as int, acc@)) {
            (Some(p), Some(q)) => p.0@ == q.0 && p.1 as int == q.1 && p.1 <= s@.len(),
            (None, None) => true,
            _ => false,
        },
    decreases s@.len() - i,
{
    if i < s.len() {
        let c = s[i];
        if c == '"' {
            Some((acc, i + 1))
        } else if c == '\\' {
            if i + 1 < s.len() {
                let e = s[i + 1];
                if e == '"' || e == '\\' || e == '/' {
                    let mut acc2 = acc;
                    push_char(&mut acc2, e);
                    parse_string_body(s, i + 2, acc2)
                } else if e == 'n' {
                    let mut acc2 = acc;
                    push_char(&mut acc2, '\n');
                    parse_string_body(s, i + 2, acc2)
                } else if e == 'r' {
                    let mut acc2 = acc;
                    push_char(&mut acc2, '\r');
                    parse_string_body(s, i + 2, acc2)
                } else if e == 't' {
                    let mut acc2 = acc;
                    push_char(&mut acc2, '\t');
                    parse_string_body(s, i + 2, acc2)
                } else if e == 'b' {
                    let mut acc2 = acc;
                    push_char(&mut acc2, '\u{8}');
                    parse_string_body(s, i + 2, acc2)
                } else if e == 'f' {
                    let mut acc2 = acc;
                    push_char(&mut acc2, '\u{c}');
                    parse_string_body(s, i + 2, acc2)
                } else if e == 'u' && s.len() - i >= 6 && is_hex_exec(s[i + 2]) && is_hex_exec(
                    s[i + 3],
                ) && is_hex_exec(s[i + 4]) && is_hex_exec(s[i + 5]) {
                    let hv: u32 = 4096 * hex_val_exec(s[i + 2]) + 256 * hex_val_exec(s[i + 3]) + 16
                        * hex_val_exec(s[i + 4]) + hex_val_exec(s[i + 5]);
                    if hv < 0x80 {
                        let mut acc2 = acc;
                        push_char(&mut acc2, (hv as u8) as char);
                        parse_string_body(s, i + 6, acc2)
                    } else {
                        None
                    }
                } else {
                    None
                }
            } else {
                None
            }
        } else if '\u{20}' > c {
            None
        } else {
            let mut acc2 = acc;
            push_char(&mut acc2, c);
            parse_string_body(s, i + 1, acc2)
        }
    } else {
        proof {
            assert(spec_parse_string_body(s@, i as int, acc@) is None);
        }
        None
    }
}

fn is_hex_exec(c: char) -> (r: bool)
    ensures
        r == is_hex(c),
{
    ('0' <= c && c <= '9') || ('a' <= c && c <= 'f') || ('A' <= c && c <= 'F')
}

fn hex_val_exec(c: char) -> (r: u32)
    requires
        is_hex(c),
    ensures
        r as int == hex_val(c),
        r < 16,
{
    let u = c as u32;
    if u >= 97 {
        u - 87
    } else if u >= 65 {
        u - 55
    } else {
        u - 48
    }
}

proof fn lemma_views_of_push(s: Seq<crate::Value>, v: crate::Value)
    ensures
        crate::views_of(s.push(v)) == crate::views_of(s).push(v@),
{
    assert(s.push(v).drop_last() =~= s);
    assert(s.push(v).last() == v);
}

proof fn lemma_entry_views_of_push(s: Seq<(String, crate::Value)>, k: String, v: crate::Value)
    ensures
        crate::entry_views_of(s.push((k, v))) == crate::entry_views_of(s).push((k@, v@)),
{
    assert(s.push((k, v)).drop_last() =~= s);
    assert(s.push((k, v)).last() == (k, v));
}

fn parse_value(s: &Vec<char>, i: usize) -> (r: Option<(Value, usize)>)
    ensures
        match (r, spec_parse_value(s@, i as int)) {
            (Some(p), Some(q)) => p.0@ == q.0 && p.1 as int == q.1 && p.1 <= s@.len(),
            (None, None) => true,
            _ => false,
        },
    decreases s@.len() - i, 2int,
{
    if i < s.len() {
        let c = s[i];
        if c == ' ' || c == '\n' || c == '\r' || c == '\t' {
            parse_value(s, i + 1)
        } else if c == 'n' {
            if s.len() - i >= 4 && s[i + 1] == 'u' && s[i + 2] == 'l' && s[i + 3] == 'l' {
                Some((Value::Null, i + 4))
            } else {
                None
            }
        } else if c == 't' {
            if s.len() - i >= 4 && s[i + 1] == 'r' && s[i + 2] == 'u' && s[i + 3] == 'e' {
                Some((Value::Bool(true), i + 4))
            } else {
                None
            }
        } else if c == 'f' {
            if s.len() - i >= 5 && s[i + 1] == 'a' && s[i + 2] == 'l' && s[i + 3] == 's' && s[i + 4]
                == 'e' {
                Some((Value::Bool(false), i + 5))
            } else {
                None
            }
        } else if c == '"' {
            match parse_string_body(s, i + 1, String::new()) {
                Some((cs, j)) => Some((Value::Str(cs), j)),
                None => None,
            }
        } else if c == '-' || ('0' <= c && c <= '9') {
            match parse_number(s, i) {
                Some((n, j)) => Some((Value::Num(n), j)),
                None => None,
            }
        } else if c == '[' {
            match parse_items(s, i + 1, Vec::new(), true) {
                Some((items, j)) => Some((Value::Array(items), j)),
                None => None,
            }
        } else if c == '{' {
            match parse_members(s, i + 1, Vec::new(), true) {
                Some((ms, j)) => Some((Value::Object(ms), j)),
                None => None,
            }
        } else {
            None
        }
    } else {
        None
    }
}

fn parse_items(s: &Vec<char>, i: usize, acc: Vec<Value>, first: bool) -> (r: Option<
    (Vec<Value>, usize),
>)
    ensures
        match (r, spec_parse_items(s@, i as int, crate::views_of(acc@), first)) {
            (Some(p), Some(q)) => crate::views_of(p.0@) == q.0 && p.1 as int == q.1 && p.1
                <= s@.len(),
            (None, None) => true,
            _ => false,
        },
    decreases s@.len() - i, 3int,
{
    if i < s.len() {
        if s[i] == ' ' || s[i] == '\n' || s[i] == '\r' || s[i] == '\t' {
            parse_items(s, i + 1, acc, first)
        } else if s[i] == ']' && first {
            Some((acc, i + 1))
        } else {
            match parse_value(s, i) {
                Some((v, j)) => {
                    if i < j && j <= s.len() {
                        let ghost a0 = acc@;
                        let mut acc2 = acc;
                        acc2.push(v);
                        proof {
                            lemma_views_of_push(a0, v);
                        }
                        parse_after_item(s, j, acc2)
                    } else {
                        None
                    }
                },
                None => None,
            }
        }
    } else {
        None
    }
}

fn parse_after_item(s: &Vec<char>, i: usize, acc: Vec<Value>) -> (r: Option<(Vec<Value>, usize)>)
    ensures
        match (r, spec_parse_after_item(s@, i as int, crate::views_of(acc@))) {
            (Some(p), Some(q)) => crate::views_of(p.0@) == q.0 && p.1 as int == q.1 && p.1
                <= s@.len(),
            (None, None) => true,
            _ => false,
        },
    decreases s@.len() - i, 3int,
{
    if i < s.len() {
        if s[i] == ' ' || s[i] == '\n' || s[i] == '\r' || s[i] == '\t' {
            parse_after_item(s, i + 1, acc)
        } else if s[i] == ',' {
            parse_items(s, i + 1, acc, false)
        } else if s[i] == ']' {
            Some((acc, i + 1))
        } else {
            None
        }
    } else {
        None
    }
}

fn parse_members(s: &Vec<char>, i: usize, acc: Vec<(String, Value)>, first: bool) -> (r: Option<
    (Vec<(String, Value)>, usize),
>)
    ensures
        match (r, spec_parse_members(s@, i as int, crate::entry_views_of(acc@), first)) {
            (Some(p), Some(q)) => crate::entry_views_of(p.0@) == q.0 && p.1 as int == q.1 && p.1
                <= s@.len(),
            (None, None) => true,
            _ => false,
        },
    decreases s@.len() - i, 3int,
{
    if i < s.len() {
        if s[i] == ' ' || s[i] == '\n' || s[i] == '\r' || s[i] == '\t' {
            parse_members(s, i + 1, acc, first)
        } else if s[i] == '}' && first {
            Some((acc, i + 1))
        } else if s[i] == '"' {
            match parse_string_body(s, i + 1, String::new()) {
                Some((k, j)) => {
                    if i < j && j <= s.len() {
                        parse_member_rest(s, j, acc, k)
                    } else {
                        None
                    }
                },
                None => None,
            }
        } else {
            None
        }
    } else {
        None
    }
}

fn parse_member_rest(s: &Vec<char>, i: usize, acc: Vec<(String, Value)>, k: String) -> (r: Option<
    (Vec<(String, Value)>, usize),
>)
    ensures
        match (r, spec_parse_member_rest(s@, i as int, crate::entry_views_of(acc@), k@)) {
            (Some(p), Some(q)) => crate::entry_views_of(p.0@) == q.0 && p.1 as int == q.1 && p.1
                <= s@.len(),
            (None, None) => true,
            _ => false,
        },
    decreases s@.len() - i, 3int,
{
    if i < s.len() {
        if s[i] == ' ' || s[i] == '\n' || s[i] == '\r' || s[i] == '\t' {
            parse_member_rest(s, i + 1, acc, k)
        } else if s[i] == ':' {
            match parse_value(s, i + 1) {
                Some((v, j)) => {
                    if i + 1 < j && j <= s.len() {
                        let ghost a0 = acc@;
                        let ghost k0 = k@;
                        let ghost v0 = v@;
                        let mut acc2 = acc;
                        acc2.push((k, v));
                        proof {
                            lemma_entry_views_of_push(a0, acc2@.last().0, acc2@.last().1);
                            assert(acc2@ == a0.push(acc2@.last()));
                            assert(acc2@.last().0@ == k0 && acc2@.last().1@ == v0);
                        }
                        parse_after_member(s, j, acc2)
                    } else {
                        None
                    }
                },
                None => None,
            }
        } else {
            None
        }
    } else {
        None
    }
}

fn parse_after_member(s: &Vec<char>, i: usize, acc: Vec<(String, Value)>) -> (r: Option<
    (Vec<(String, Value)>, usize),
>)
    ensures
        match (r, spec_parse_after_member(s@, i as int, crate::entry_views_of(acc@))) {
            (Some(p), Some(q)) => crate::entry_views_of(p.0@) == q.0 && p.1 as int == q.1 && p.1
                <= s@.len(),
            (None, None) => true,
            _ => false,
        },
    decreases s@.len() - i, 3int,
{
    if i < s.len() {
        if s[i] == ' ' || s[i] == '\n' || s[i] == '\r' || s[i] == '\t' {
            parse_after_member(s, i + 1, acc)
        } else if s[i] == ',' {
            parse_members(s, i + 1, acc, false)
        } else if s[i] == '}' {
            Some((acc, i + 1))
        } else {
            None
        }
    } else {
        None
    }
}

// ---------------------------------------------------------------------
// Reading a parsed object as a response.
// ---------------------------------------------------------------------

/// The model of an optional value.
pub open spec fn opt_view(o: Option<Value>) -> Option<ValueView> {
    match o {
        Some(v) => Some(v@),
        None => None,
    }
}

proof fn lemma_entry_views_drop_first(s: Seq<(String, Value)>)
    requires
        s.len() > 0,
    ensures
        crate::entry_views_of(s).len() == s.len(),
        crate::entry_views_of(s)[0] == (s[0].0@, s[0].1@),
        crate::entry_views_of(s).drop_first() == crate::entry_views_of(s.drop_first()),
{
    crate::lemma_entry_views_of(s);
    crate::lemma_entry_views_of(s.drop_first());
    assert(crate::entry_views_of(s).drop_first() =~= crate::entry_views_of(s.drop_first()));
}

/// Pull the first occurrence of each of three distinct field names out
/// of an object's members, leaving the rest behind.
fn take_fields(ms: Vec<(String, Value)>, k0: &String, k1: &String, k2: &String) -> (r: (
    Option<Value>,
    Option<Value>,
    Option<Value>,
))
    requires
        k0@ != k1@,
        k0@ != k2@,
        k1@ != k2@,
    ensures
        opt_view(r.0) == spec_lookup(crate::entry_views_of(ms@), k0@),
        opt_view(r.1) == spec_lookup(crate::entry_views_of(ms@), k1@),
        opt_view(r.2) == spec_lookup(crate::entry_views_of(ms@), k2@),
{
    let ghost m0 = crate::entry_views_of(ms@);
    let mut rest = ms;
    let mut f0: Option<Value> = None;
    let mut f1: Option<Value> = None;
    let mut f2: Option<Value> = None;
    while rest.len() > 0
        invariant
            k0@ != k1@,
            k0@ != k2@,
            k1@ != k2@,
            match f0 {
                Some(v) => spec_lookup(m0, k0@) == Some(v@),
                None => spec_lookup(m0, k0@) == spec_lookup(crate::entry_views_of(rest@), k0@),
            },
            match f1 {
                Some(v) => spec_lookup(m0, k1@) == Some(v@),
                None => spec_lookup(m0, k1@) == spec_lookup(crate::entry_views_of(rest@), k1@),
            },
            match f2 {
                Some(v) => spec_lookup(m0, k2@) == Some(v@),
                None => spec_lookup(m0, k2@) == spec_lookup(crate::entry_views_of(rest@), k2@),
            },
        decreases rest@.len(),
    {
        proof {
            lemma_entry_views_drop_first(rest@);
        }
        let ghost r0 = rest@;
        let (k, v) = rest.remove(0);
        proof {
            assert(rest@ =~= r0.drop_first());
        }
        if f0.is_none() && k == *k0 {
            f0 = Some(v);
        } else if f1.is_none() && k == *k1 {
            f1 = Some(v);
        } else if f2.is_none() && k == *k2 {
            f2 = Some(v);
        }
    }
    (f0, f1, f2)
}

/// Read a parsed value as an error object, as [`spec_rpc_error_of`]
/// describes.
fn rpc_error_of(v: Value) -> (r: Option<RpcError>)
    ensures
        match (r, spec_rpc_error_of(v@)) {
            (Some(e), Some(q)) => e@ == q,
            (None, None) => true,
            _ => false,
        },
{
    match v {
        Value::Object(ms) => {
            proof {
                reveal_strlit("code");
                reveal_strlit("message");
                reveal_strlit("data");
                assert("code"@.len() == 4 && "message"@.len() == 7 && "data"@.len() == 4);
                assert("code"@[0] == 'c' && "data"@[0] == 'd');
            }
            let (code, message, data) = take_fields(
                ms,
                &String::from_str("code"),
                &String::from_str("message"),
                &String::from_str("data"),
            );
            match (code, message) {
                (Some(Value::Num(c)), Some(Value::Str(m))) => {
                    if -0x8000_0000i64 <= c && c < 0x8000_0000i64 {
                        let data2 = match data {
                            Some(Value::Null) => None,
                            d => d,
                        };
                        Some(RpcError { code: c as i32, message: m, data: data2 })
                    } else {
                        None
                    }
                },
                _ => None,
            }
        },
        _ => None,
    }
}

/// Read a parsed value as a response object, as [`spec_response_of`]
/// describes.
fn response_of(v: Value) -> (r: Option<Response>)
    ensures
        match (r, spec_response_of(v@)) {
            (Some(resp), Some(q)) => resp@ == q,
            (None, None) => true,
            _ => false,
        },
{
    match v {
        Value::Object(ms) => {
            proof {
                reveal_strlit("result");
                reveal_strlit("error");
                reveal_strlit("id");
                assert("result"@.len() == 6 && "error"@.len() == 5 && "id"@.len() == 2);
            }
            let (result, error, id) = take_fields(
                ms,
                &String::from_str("result"),
                &String::from_str("error"),
                &String::from_str("id"),
            );
            match id {
                Some(id) => {
                    let result2 = match result {
                        Some(Value::Null) => None,
                        d => d,
                    };
                    match error {
                        None => Some(Response { result: result2, error: None, id }),
                        Some(Value::Null) => Some(Response { result: result2, error: None, id }),
                        Some(e) => match rpc_error_of(e) {
                            Some(ev) => Some(
                                Response { result: result2, error: Some(ev), id },
                            ),
                            None => None,
                        },
                    }
                },
                None => None,
            }
        },
        _ => None,
    }
}

/// Decode a response body: one JSON value spanning the whole text up to
/// trailing whitespace, read as a response object. Exactly the bodies
/// [`spec_decode_response`] accepts decode; every other body yields
/// `Decode`.
pub fn decode_response(s: &str) -> (r: Result<Response, Error>)
    ensures
        match spec_decode_response(s@) {
            Some(rv) => r matches Ok(resp) && resp@ == rv,
            None => r == Err::<Response, Error>(Error::Decode),
        },
{
    let chars = to_chars(s);
    match parse_value(&chars, 0) {
        Some((v, j)) => {
            if skip_ws(&chars, j) == chars.len() {
                match response_of(v) {
                    Some(resp) => Ok(resp),
                    None => Err(Error::Decode),
                }
            } else {
                Err(Error::Decode)
            }
        },
        None => Err(Error::Decode),
    }
}

/// Read a parsed value as a request object, as [`spec_request_of`]
/// describes.
fn request_of(v: Value) -> (r: Option<Request>)
    ensures
        match (r, spec_request_of(v@)) {
            (Some(req), Some(q)) => req@ == q,
            (None, None) => true,
            _ => false,
        },
{
    match v {
        Value::Object(ms) => {
            proof {
                reveal_strlit("method");
                reveal_strlit("params");
                reveal_strlit("id");
                assert("method"@.len() == 6 && "params"@.len() == 6 && "id"@.len() == 2);
                assert("method"@[0] == 'm' && "params"@[0] == 'p');
            }
            let (method, params, id) = take_fields(
                ms,
                &String::from_str("method"),
                &String::from_str("params"),
                &String::from_str("id"),
            );
            match (method, params, id) {
                (Some(Value::Str(m)), Some(Value::Array(ps)), Some(id)) => {
                    let req = Request { method: m, params: ps, id };
                    proof {
                        crate::lemma_views_of(req.params@);
                        assert(req@.params =~= crate::views_of(req.params@));
                    }
                    Some(req)
                },
                _ => None,
            }
        },
        _ => None,
    }
}

/// Decode a request body: one JSON value spanning the whole text up to
/// trailing whitespace, read as a request object. Exactly the bodies
/// [`spec_decode_request`] accepts decode; every other body yields
/// `Decode`.
pub fn decode_request(s: &str) -> (r: Result<Request, Error>)
    ensures
        match spec_decode_request(s@) {
            Some(rv) => r matches Ok(req) && req@ == rv,
            None => r == Err::<Request, Error>(Error::Decode),
        },
{
    let chars = to_chars(s);
    match parse_value(&chars, 0) {
        Some((v, j)) => {
            if skip_ws(&chars, j) == chars.len() {
                match request_of(v) {
                    Some(req) => Ok(req),
                    None => Err(Error::Decode),
                }
            } else {
                Err(Error::Decode)
            }
        },
        None => Err(Error::Decode),
    }
}

// ---------------------------------------------------------------------
// The executable encoder.
// ---------------------------------------------------------------------

fn digit_to_char(d: u64) -> (c: char)
    requires
        d < 10,
    ensures
        c == digit_char(d as int),
{
    match d {
        0 => '0',
        1 => '1',
        2 => '2',
        3 => '3',
        4 => '4',
        5 => '5',
        6 => '6',
        7 => '7',
        8 => '8',
        _ => '9',
    }
}

fn hex_to_char(d: u32) -> (c: char)
    requires
        d < 16,
    ensures
        c == hex_char(d as int),
{
    match d {
        0 => '0',
        1 => '1',
        2 => '2',
        3 => '3',
        4 => '4',
        5 => '5',
        6 => '6',
        7 => '7',
        8 => '8',
        9 => '9',
        10 => 'a',
        11 => 'b',
        12 => 'c',
        13 => 'd',
        14 => 'e',
        _ => 'f',
    }
}

fn push_digits(n: u64, out: &mut String)
    ensures
        final(out)@ == old(out)@ + spec_digits(n as nat),
    decreases n,
{
    if n < 10 {
        push_char(out, digit_to_char(n));
        proof {
            assert(old(out)@.push(digit_char(n as int)) =~= old(out)@ + spec_digits(n as nat));
        }
    } else {
        push_digits(n / 10, out);
        let ghost mid = out@;
        push_char(out, digit_to_char(n % 10));
        proof {
            assert(mid.push(digit_char((n % 10) as int)) =~= old(out)@ + spec_digits(n as nat));
        }
    }
}

fn push_i64(n: i64, out: &mut String)
    ensures
        final(out)@ == old(out)@ + spec_encode_num(n as int),
{
    if n < 0 {
        let m: u64 = if n == i64::MIN {
            0x8000_0000_0000_0000u64
        } else {
            (-n) as u64
        };
        push_char(out, '-');
        let ghost mid = out@;
        push_digits(m, out);
        proof {
            assert(m as nat == (-(n as int)) as nat);
            assert(mid =~= old(out)@ + seq!['-']);
            assert(old(out)@ + seq!['-'] + spec_digits(m as nat) =~= old(out)@ + spec_encode_num(
                n as int,
            ));
        }
    } else {
        push_digits(n as u64, out);
        proof {
            assert(n as u64 as nat == n as nat);
        }
    }
}

fn push_escaped(s: &str, out: &mut String)
    ensures
        final(out)@ == old(out)@ + spec_escape(s@),
{
    let n = s.unicode_len();
    let mut i: usize = 0;
    proof {
        assert(s@.take(0) =~= Seq::<char>::empty());
    }
    while i < n
        invariant
            n == s@.len(),
            0 <= i <= n,
            out@ == old(out)@ + spec_escape(s@.take(i as int)),
        decreases n - i,
    {
        let c = s.get_char(i);
        let ghost pre = out@;
        if c == '"' {
            push_char(out, '\\');
            push_char(out, '"');
        } else if c == '\\' {
            push_char(out, '\\');
            push_char(out, '\\');
        } else if c == '\n' {
            push_char(out, '\\');
            push_char(out, 'n');
        } else if c == '\r' {
            push_char(out, '\\');
            push_char(out, 'r');
        } else if c == '\t' {
            push_char(out, '\\');
            push_char(out, 't');
        } else if '\u{20}' > c {
            proof {
                assert((c as int) < 0x20);
            }
            let u: u32 = c as u32;
            push_char(out, '\\');
            push_char(out, 'u');
            push_char(out, '0');
            push_char(out, '0');
            push_char(out, hex_to_char(u / 16));
            push_char(out, hex_to_char(u % 16));
        } else {
            push_char(out, c);
        }
        proof {
            assert(out@ =~= pre + spec_escape_char(c));
            assert(s@.take(i + 1 as int).drop_last() =~= s@.take(i as int));
            assert(s@.take(i + 1 as int).last() == c);
            assert(out@ =~= old(out)@ + spec_escape(s@.take(i + 1 as int)));
        }
        i += 1;
    }
    proof {
        assert(s@.take(n as int) =~= s@);
    }
}

fn push_string(s: &str, out: &mut String)
    ensures
        final(out)@ == old(out)@ + spec_encode_string(s@),
{
    push_char(out, '"');
    push_escaped(s, out);
    let ghost mid = out@;
    push_char(out, '"');
    proof {
        assert(mid.push('"') =~= old(out)@ + spec_encode_string(s@));
    }
}

/// Append the encoded form of a value.
fn encode_value_into(v: &Value, out: &mut String)
    ensures
        final(out)@ == old(out)@ + spec_encode_value(v@),
    decreases *v,
{
    match v {
        Value::Null => {
            out.append("null");
            proof {
                reveal_strlit("null");
                assert("null"@ =~= seq!['n', 'u', 'l', 'l']);
            }
        },
        Value::Bool(b) => {
            if *b {
                out.append("true");
                proof {
                    reveal_strlit("true");
                    assert("true"@ =~= seq!['t', 'r', 'u', 'e']);
                }
            } else {
                out.append("false");
                proof {
                    reveal_strlit("false");
                    assert("false"@ =~= seq!['f', 'a', 'l', 's', 'e']);
                }
            }
        },
        Value::Num(n) => {
            push_i64(*n, out);
        },
        Value::Str(s) => {
            push_string(s.as_str(), out);
        },
        Value::Array(x) => {
            push_char(out, '[');
            let ghost base = out@;
            let ghost vs = crate::views_of(x@);
            proof {
                crate::lemma_views_of(x@);
            }
            let mut i: usize = 0;
            while i < x.len()
                invariant
                    *v == Value::Array(*x),
                    vs == crate::views_of(x@),
                    vs.len() == x@.len(),
                    forall|j: int| 0 <= j < x@.len() ==> vs[j] == x@[j]@,
                    0 <= i <= x@.len(),
                    out@ == base + spec_encode_items(vs.take(i as int)),
                decreases x@.len() - i,
            {
                if i > 0 {
                    push_char(out, ',');
                }
                proof {
                    assert(decreases_to!(*v => v->Array_0));
                    assert(decreases_to!(v->Array_0 => x@));
                    assert(decreases_to!(x@ => x@[i as int]));
                }
                encode_value_into(&x[i], out);
                proof {
                    assert(vs.take(i + 1 as int).drop_last() =~= vs.take(i as int));
                    assert(vs.take(i + 1 as int).last() == vs[i as int]);
                    if i == 0 {
                        assert(out@ =~= base + spec_encode_items(vs.take(i + 1 as int)));
                    } else {
                        assert(out@ =~= base + spec_encode_items(vs.take(i as int)) + seq![',']
                            + spec_encode_value(vs[i as int]));
                        assert(out@ =~= base + spec_encode_items(vs.take(i + 1 as int)));
                    }
                }
                i += 1;
            }
            let ghost mid = out@;
            push_char(out, ']');
            proof {
                assert(vs.take(x@.len() as int) =~= vs);
                assert(mid.push(']') =~= old(out)@ + spec_encode_value(v@));
            }
        },
        Value::Object(x) => {
            push_char(out, '{');
            let ghost base = out@;
            let ghost vs = crate::entry_views_of(x@);
            proof {
                crate::lemma_entry_views_of(x@);
            }
            let mut i: usize = 0;
            while i < x.len()
                invariant
                    *v == Value::Object(*x),
                    vs == crate::entry_views_of(x@),
                    vs.len() == x@.len(),
                    forall|j: int| 0 <= j < x@.len() ==> vs[j] == ((#[trigger] x@[j]).0@, x@[j].1@),
                    0 <= i <= x@.len(),
                    out@ == base + spec_encode_members(vs.take(i as int)),
                decreases x@.len() - i,
            {
                if i > 0 {
                    push_char(out, ',');
                }
                push_string(x[i].0.as_str(), out);
                push_char(out, ':');
                proof {
                    assert(decreases_to!(*v => v->Object_0));
                    assert(decreases_to!(v->Object_0 => x@));
                    assert(decreases_to!(x@ => x@[i as int]));
                    assert(decreases_to!(x@[i as int] => x@[i as int].1));
                }
                encode_value_into(&x[i].1, out);
                proof {
                    assert(vs.take(i + 1 as int).drop_last() =~= vs.take(i as int));
                    assert(vs.take(i + 1 as int).last() == vs[i as int]);
                    assert(spec_encode_member(vs[i as int]) == spec_encode_string(x@[i as int].0@)
                        + seq![':'] + spec_encode_value(x@[i as int].1@));
                    if i == 0 {
                        assert(out@ =~= base + spec_encode_member(vs[0]));
                        assert(out@ =~= base + spec_encode_members(vs.take(i + 1 as int)));
                    } else {
                        assert(out@ =~= base + spec_encode_members(vs.take(i as int)) + seq![',']
                            + spec_encode_member(vs[i as int]));
                        assert(out@ =~= base + spec_encode_members(vs.take(i + 1 as int)));
                    }
                }
                i += 1;
            }
            let ghost mid = out@;
            push_char(out, '}');
            proof {
                assert(vs.take(x@.len() as int) =~= vs);
                assert(mid.push('}') =~= old(out)@ + spec_encode_value(v@));
            }
        },
    }
}

/// Encode a request to its wire form.
pub fn encode_request(r: &Request) -> (out: String)
    ensures
        out@ == spec_encode_request(r@),
{
    let mut out = String::new();
    out.append("{\"method\":");
    push_string(r.method.as_str(), &mut out);
    out.append(",\"params\":[");
    let ghost base = out@;
    let ghost vs = r@.params;
    let mut i: usize = 0;
    while i < r.params.len()
        invariant
            vs == r@.params,
            vs.len() == r.params@.len(),
            forall|j: int| 0 <= j < vs.len() ==> vs[j] == r.params@[j]@,
            0 <= i <= r.params@.len(),
            out@ == base + spec_encode_items(vs.take(i as int)),
        decreases r.params@.len() - i,
    {
        if i > 0 {
            push_char(&mut out, ',');
        }
        encode_value_into(&r.params[i], &mut out);
        proof {
            assert(vs.take(i + 1 as int).drop_last() =~= vs.take(i as int));
            assert(vs.take(i + 1 as int).last() == vs[i as int]);
            if i == 0 {
                assert(out@ =~= base + spec_encode_items(vs.take(i + 1 as int)));
            } else {
                assert(out@ =~= base + spec_encode_items(vs.take(i as int)) + seq![',']
                    + spec_encode_value(vs[i as int]));
                assert(out@ =~= base + spec_encode_items(vs.take(i + 1 as int)));
            }
        }
        i += 1;
    }
    proof {
        assert(vs.take(r.params@.len() as int) =~= vs);
    }
    out.append("],\"id\":");
    encode_value_into(&r.id, &mut out);
    let ghost mid = out@;
    push_char(&mut out, '}');
    proof {
        assert(mid.push('}') =~= spec_encode_request(r@));
    }
    out
}

/// Append the encoded form of an error object, `data` as null when
/// absent.
fn encode_rpc_error_into(e: &RpcError, out: &mut String)
    ensures
        final(out)@ == old(out)@ + spec_encode_rpc_error(e@),
{
    out.append("{\"code\":");
    let c: i64 = e.code as i64;
    proof {
        assert(c as int == e@.code);
    }
    push_i64(c, out);
    out.append(",\"message\":");
    push_string(e.message.as_str(), out);
    out.append(",\"data\":");
    match &e.data {
        Some(d) => encode_value_into(d, out),
        None => out.append("null"),
    }
    let ghost mid = out@;
    push_char(out, '}');
    proof {
        assert(mid.push('}') =~= old(out)@ + spec_encode_rpc_error(e@));
    }
}

/// Encode a response to its wire form, absent fields as null.
pub fn encode_response(r: &Response) -> (out: String)
    ensures
        out@ == spec_encode_response(r@),
{
    let mut out = String::new();
    out.append("{\"result\":");
    match &r.result {
        Some(v) => encode_value_into(v, &mut out),
        None => out.append("null"),
    }
    out.append(",\"error\":");
    match &r.error {
        Some(e) => encode_rpc_error_into(e, &mut out),
        None => out.append("null"),
    }
    out.append(",\"id\":");
    encode_value_into(&r.id, &mut out);
    let ghost mid = out@;
    push_char(&mut out, '}');
    proof {
        assert(mid.push('}') =~= spec_encode_response(r@));
    }
    out
}

} // verus!
