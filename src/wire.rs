//! Decimal numbers and URLs of the HTTP protocol between client and server.

use vstd::prelude::*;

verus! {

/// The decimal digit `d` (< 10).
pub open spec fn digit_char(d: int) -> char {
    seq!['0', '1', '2', '3', '4', '5', '6', '7', '8', '9'][d]
}

/// The value of a decimal digit character, if it is one.
pub open spec fn digit_value(c: char) -> Option<int> {
    if '0' <= c && c <= '9' { Some(c as int - '0' as int) } else { None }
}

/// The shortest decimal text of `n`.
pub open spec fn decimal(n: nat) -> Seq<char>
    decreases n,
{
    if n < 10 {
        seq![digit_char(n as int)]
    } else {
        decimal(n / 10).push(digit_char((n % 10) as int))
    }
}

/// The decimal text of a signed number, with `-` for a negative one.
pub open spec fn signed_decimal(i: int) -> Seq<char> {
    if i < 0 { seq!['-'] + decimal((-i) as nat) } else { decimal(i as nat) }
}

/// The decimal text of `n`.
pub fn decimal_string(n: u64) -> (r: String)
    ensures
        r@ == decimal(n as nat),
    decreases n,
{
    let digits = "0123456789";
    proof {
        reveal_strlit("0123456789");
    }
    let d = (n % 10) as usize;
    let last = digits.substring_char(d, d + 1);
    assert(last@ =~= seq![digit_char(d as int)]);
    if n < 10 {
        last.to_owned()
    } else {
        let mut s = decimal_string(n / 10);
        s.append(last);
        assert(s@ =~= decimal((n / 10) as nat).push(digit_char((n % 10) as int)));
        s
    }
}

/// The decimal text of a signed number.
pub fn signed_decimal_string(i: i64) -> (r: String)
    ensures
        r@ == signed_decimal(i as int),
{
    if i < 0 {
        let magnitude: u64 = ((-(i + 1)) as u64) + 1;
        let mut s = "-".to_owned();
        proof {
            reveal_strlit("-");
        }
        let digits = decimal_string(magnitude);
        s.append(digits.as_str());
        assert(s@ =~= seq!['-'] + decimal((-i) as nat));
        s
    } else {
        decimal_string(i as u64)
    }
}

/// The value of a non-empty run of decimal digits.
pub open spec fn digits_value(s: Seq<char>) -> Option<int>
    decreases s.len(),
{
    if s.len() == 0 {
        None
    } else {
        match digit_value(s.last()) {
            None => None,
            Some(d) => if s.len() == 1 {
                Some(d)
            } else {
                match digits_value(s.drop_last()) {
                    None => None,
                    Some(v) => Some(10 * v + d),
                }
            },
        }
    }
}

/// The text starts with a sign.
pub open spec fn has_sign(s: Seq<char>) -> bool {
    s.len() > 0 && (s[0] == '-' || s[0] == '+')
}

/// The text without its sign.
pub open spec fn unsigned_part(s: Seq<char>) -> Seq<char> {
    if has_sign(s) { s.skip(1) } else { s }
}

/// The number that `str::parse::<i64>` reads: an optional `+` or `-`, then
/// at least one decimal digit, with the value in range.
pub open spec fn parsed_i64(s: Seq<char>) -> Option<int> {
    match digits_value(unsigned_part(s)) {
        None => None,
        Some(v) => {
            let x = if s.len() > 0 && s[0] == '-' { -v } else { v };
            if i64::MIN <= x <= i64::MAX { Some(x) } else { None }
        },
    }
}

proof fn lemma_digits_value_grows(s: Seq<char>, k: int)
    requires
        1 <= k <= s.len(),
        digits_value(s) is Some,
    ensures
        digits_value(s.subrange(0, k)) is Some,
        digits_value(s.subrange(0, k))->0 <= digits_value(s)->0,
        digits_value(s)->0 >= 0,
    decreases s.len(),
{
    if k < s.len() {
        let t = s.drop_last();
        assert(s.len() > 1);
        lemma_digits_value_grows(t, k);
        assert(t.subrange(0, k) == s.subrange(0, k));
    } else {
        assert(s.subrange(0, k) == s);
        if s.len() > 1 {
            lemma_digits_value_grows(s.drop_last(), s.len() - 1);
        }
    }
}

/// Reads a signed decimal number as `str::parse::<i64>` does.
pub fn parse_i64(s: &str) -> (r: Option<i64>)
    ensures
        r matches Some(v) ==> parsed_i64(s@) == Some(v as int),
        r is None ==> parsed_i64(s@) is None,
{
    let n = s.unicode_len();
    let mut start: usize = 0;
    let mut neg = false;
    if n > 0 {
        let c = s.get_char(0);
        if c == '-' {
            neg = true;
            start = 1;
        } else if c == '+' {
            start = 1;
        }
    }
    let ghost body = s@.subrange(start as int, n as int);
    assert(body =~= unsigned_part(s@));
    assert(neg == (s@.len() > 0 && s@[0] == '-'));
    if start == n {
        assert(body.len() == 0);
        return None;
    }
    // 2^63, the largest magnitude in range.
    let bound: u64 = 9223372036854775808;
    let mut acc: u64 = 0;
    let mut i: usize = start;
    while i < n
        invariant
            start <= i <= n,
            n == s@.len(),
            start < n,
            body == s@.subrange(start as int, n as int),
            bound == 9223372036854775808u64,
            body == unsigned_part(s@),
            neg == (s@.len() > 0 && s@[0] == '-'),
            i == start ==> acc == 0,
            i > start ==> digits_value(body.subrange(0, i - start)) == Some(acc as int),
            acc <= bound,
        decreases n - i,
    {
        let c = s.get_char(i);
        if c < '0' || c > '9' {
            proof {
                assert(body.subrange(0, i - start + 1).last() == c);
                lemma_none_extends(body, i - start + 1);
            }
            return None;
        }
        let d = (c as u32 - '0' as u32) as u64;
        assert(d <= 9 && d as int == c as int - '0' as int);
        assert(body.subrange(0, i - start + 1).drop_last() =~= body.subrange(0, i - start));
        assert(body.subrange(0, i - start + 1).last() == c);
        assert(digit_value(c) == Some(d as int));
        if acc > (bound - d) / 10 {
            proof {
                assert(10 * (acc as int) + (d as int) > bound as int) by (nonlinear_arith)
                    requires acc > (bound - d) / 10, d <= 9, bound == 9223372036854775808u64;
                if i > start {
                    assert(digits_value(body.subrange(0, i - start + 1)) == Some(10 * (acc as int) + d as int));
                } else {
                    assert(acc == 0);
                }
                lemma_too_big(body, i - start + 1, bound as int);
            }
            return None;
        }
        assert(10 * (acc as int) + (d as int) <= bound as int) by (nonlinear_arith)
            requires acc <= (bound - d) / 10, d <= 9, bound == 9223372036854775808u64;
        acc = 10 * acc + d;
        i = i + 1;
    }
    assert(body.subrange(0, n - start) == body);
    if neg {
        if acc == bound {
            Some(i64::MIN)
        } else {
            Some(-(acc as i64))
        }
    } else if acc == bound {
        None
    } else {
        Some(acc as i64)
    }
}

proof fn lemma_none_extends(body: Seq<char>, k: int)
    requires
        1 <= k <= body.len(),
        digit_value(body.subrange(0, k).last()) is None,
    ensures
        digits_value(body) is None,
{
    if digits_value(body) is Some {
        lemma_digits_value_grows(body, k);
    }
}

proof fn lemma_too_big(body: Seq<char>, k: int, bound: int)
    requires
        1 <= k <= body.len(),
        digits_value(body.subrange(0, k)) matches Some(v) && v > bound,
    ensures
        digits_value(body) is None || digits_value(body)->0 > bound,
{
    if digits_value(body) is Some {
        lemma_digits_value_grows(body, k);
    }
}

/// The id that a response's `X-Clipboard-Id` header carries; 0 when it is
/// missing or not a number.
pub fn clipboard_id(header: Option<&str>) -> (r: i64)
    ensures
        header is None ==> r == 0,
        header matches Some(h) ==> r as int == (match parsed_i64(h@) { Some(v) => v, None => 0 }),
{
    match header {
        None => 0,
        Some(h) => match parse_i64(h) {
            Some(v) => v,
            None => 0,
        },
    }
}

/// The clipboard endpoint of a server.
pub open spec fn clipboard_url(host: Seq<char>, port: u16) -> Seq<char> {
    "http://"@ + host + ":"@ + decimal(port as nat) + "/SyncClipboard.json"@
}

/// `http://<host>:<port>/SyncClipboard.json`.
pub fn server_url(host: &str, port: u16) -> (r: String)
    ensures
        r@ == clipboard_url(host@, port),
{
    let mut s = "http://".to_owned();
    s.append(host);
    s.append(":");
    let p = decimal_string(port as u64);
    s.append(p.as_str());
    s.append("/SyncClipboard.json");
    s
}

/// `http://<host>:<port>/file/<name>`: where a content-addressed blob is stored.
pub fn file_url(host: &str, port: u16, name: &str) -> (r: String)
    ensures
        r@ == "http://"@ + host@ + ":"@ + decimal(port as nat) + "/file/"@ + name@,
{
    let mut s = "http://".to_owned();
    s.append(host);
    s.append(":");
    let p = decimal_string(port as u64);
    s.append(p.as_str());
    s.append("/file/");
    s.append(name);
    s
}

/// The long-poll request: `<url>?wait=<wait>&last_id=<last_id>`.
pub fn poll_url(url: &str, wait: u64, last_id: i64) -> (r: String)
    ensures
        r@ == url@ + "?wait="@ + decimal(wait as nat) + "&last_id="@ + signed_decimal(last_id as int),
{
    let mut s = url.to_owned();
    s.append("?wait=");
    let w = decimal_string(wait);
    s.append(w.as_str());
    s.append("&last_id=");
    let l = signed_decimal_string(last_id);
    s.append(l.as_str());
    s
}

/// The `Authorization` header value for a token.
pub fn bearer(token: &str) -> (r: String)
    ensures
        r@ == "Bearer "@ + token@,
{
    let mut s = "Bearer ".to_owned();
    s.append(token);
    s
}

} // verus!
