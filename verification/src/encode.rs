//! Construction of the textual pieces every protocol request is made of:
//! decimal rendering of byte counts, the `Content-Range` header value,
//! JSON string escaping for the name-exchange body, and the per-stage URLs.

use vstd::prelude::*;

verus! {

/// The decimal digit character for `d < 10`.
pub open spec fn dec_digit(d: nat) -> char {
    if d == 0 {
        '0'
    } else if d == 1 {
        '1'
    } else if d == 2 {
        '2'
    } else if d == 3 {
        '3'
    } else if d == 4 {
        '4'
    } else if d == 5 {
        '5'
    } else if d == 6 {
        '6'
    } else if d == 7 {
        '7'
    } else if d == 8 {
        '8'
    } else {
        '9'
    }
}

/// The ordinary decimal rendering of `n`, most significant digit first,
/// with no leading zeros (a single `'0'` for zero).
pub open spec fn dec_str(n: nat) -> Seq<char>
    decreases n,
{
    if n < 10 {
        seq![dec_digit(n)]
    } else {
        dec_str(n / 10) + seq![dec_digit(n % 10)]
    }
}

/// The one-character string literal for the decimal digit `d`.
fn digit_lit(d: u64) -> (r: &'static str)
    requires
        d < 10,
    ensures
        r@ =~= seq![dec_digit(d as nat)],
{
    proof {
        reveal_strlit("0");
        reveal_strlit("1");
        reveal_strlit("2");
        reveal_strlit("3");
        reveal_strlit("4");
        reveal_strlit("5");
        reveal_strlit("6");
        reveal_strlit("7");
        reveal_strlit("8");
        reveal_strlit("9");
    }
    if d == 0 {
        "0"
    } else if d == 1 {
        "1"
    } else if d == 2 {
        "2"
    } else if d == 3 {
        "3"
    } else if d == 4 {
        "4"
    } else if d == 5 {
        "5"
    } else if d == 6 {
        "6"
    } else if d == 7 {
        "7"
    } else if d == 8 {
        "8"
    } else {
        "9"
    }
}

/// Renders `n` in decimal.
pub fn u64_dec(n: u64) -> (r: String)
    ensures
        r@ == dec_str(n as nat),
    decreases n,
{
    if n < 10 {
        let r = String::from_str(digit_lit(n));
        proof {
            assert(r@ =~= dec_str(n as nat));
        }
        r
    } else {
        let mut r = u64_dec(n / 10);
        r.append(digit_lit(n % 10));
        proof {
            assert(r@ =~= dec_str(n as nat));
        }
        r
    }
}

/// The `Content-Range` value announcing a whole file of `n` bytes as a
/// single span: `bytes 0-<n-1>/<n>`, both numbers in plain decimal.
pub open spec fn content_range_of(n: nat) -> Seq<char>
    recommends
        n >= 1,
{
    "bytes 0-"@ + dec_str((n - 1) as nat) + "/"@ + dec_str(n)
}

/// Builds the `Content-Range` header value for a file of `n` bytes,
/// uploaded as one span starting at offset zero.
pub fn content_range_value(n: u64) -> (r: String)
    requires
        n >= 1,
    ensures
        r@ == content_range_of(n as nat),
{
    let mut r = String::from_str("bytes 0-");
    let first = u64_dec(n - 1);
    r.append(first.as_str());
    r.append("/");
    let total = u64_dec(n);
    r.append(total.as_str());
    proof {
        assert(r@ =~= content_range_of(n as nat));
    }
    r
}

/// The lower-case hexadecimal digit character for `d < 16`.
pub open spec fn hex_digit(d: nat) -> char {
    if d < 10 {
        dec_digit(d)
    } else if d == 10 {
        'a'
    } else if d == 11 {
        'b'
    } else if d == 12 {
        'c'
    } else if d == 13 {
        'd'
    } else if d == 14 {
        'e'
    } else {
        'f'
    }
}

/// The one-character string literal for the hexadecimal digit `d`.
fn hex_lit(d: u32) -> (r: &'static str)
    requires
        d < 16,
    ensures
        r@ =~= seq![hex_digit(d as nat)],
{
    proof {
        reveal_strlit("a");
        reveal_strlit("b");
        reveal_strlit("c");
        reveal_strlit("d");
        reveal_strlit("e");
        reveal_strlit("f");
    }
    if d < 10 {
        digit_lit(d as u64)
    } else if d == 10 {
        "a"
    } else if d == 11 {
        "b"
    } else if d == 12 {
        "c"
    } else if d == 13 {
        "d"
    } else if d == 14 {
        "e"
    } else {
        "f"
    }
}

/// How one character is written inside a JSON string: quote and backslash
/// get a backslash escape, the named control characters get their short
/// escapes, any other control character is written `\u00xx`, and everything
/// else stands for itself.
pub open spec fn json_escaped_char(c: char) -> Seq<char> {
    if c == '"' {
        seq!['\\', '"']
    } else if c == '\\' {
        seq!['\\', '\\']
    } else if c == '\n' {
        seq!['\\', 'n']
    } else if c == '\r' {
        seq!['\\', 'r']
    } else if c == '\t' {
        seq!['\\', 't']
    } else if c == '\u{8}' {
        seq!['\\', 'b']
    } else if c == '\u{c}' {
        seq!['\\', 'f']
    } else if (c as u32) < 32 {
        seq!['\\', 'u', '0', '0', hex_digit((c as u32 / 16) as nat), hex_digit((c as u32 % 16) as nat)]
    } else {
        seq![c]
    }
}

/// The JSON-escaped form of a whole string.
pub open spec fn json_escaped(s: Seq<char>) -> Seq<char>
    decreases s.len(),
{
    if s.len() == 0 {
        Seq::empty()
    } else {
        json_escaped(s.drop_last()) + json_escaped_char(s.last())
    }
}

/// Escapes `s` for inclusion inside a JSON string literal.
pub fn json_escape(s: &str) -> (r: String)
    ensures
        r@ == json_escaped(s@),
{
    let n = s.unicode_len();
    let mut r = String::new();
    let mut i: usize = 0;
    while i < n
        invariant
            n == s@.len(),
            i <= n,
            r@ == json_escaped(s@.subrange(0, i as int)),
        decreases n - i,
    {
        proof {
            reveal_strlit("\\\"");
            reveal_strlit("\\\\");
            reveal_strlit("\\n");
            reveal_strlit("\\r");
            reveal_strlit("\\t");
            reveal_strlit("\\b");
            reveal_strlit("\\f");
            reveal_strlit("\\u00");
        }
        let c = s.get_char(i);
        if c == '"' {
            r.append("\\\"");
        } else if c == '\\' {
            r.append("\\\\");
        } else if c == '\n' {
            r.append("\\n");
        } else if c == '\r' {
            r.append("\\r");
        } else if c == '\t' {
            r.append("\\t");
        } else if c == '\u{8}' {
            r.append("\\b");
        } else if c == '\u{c}' {
            r.append("\\f");
        } else if (c as u32) < 32 {
            r.append("\\u00");
            let cu = c as u32;
            r.append(hex_lit(cu / 16));
            r.append(hex_lit(cu % 16));
        } else {
            r.append(s.substring_char(i, i + 1));
        }
        proof {
            assert(s@.subrange(0, i + 1 as int).drop_last() =~= s@.subrange(0, i as int));
            assert(s@.subrange(0, i + 1 as int).last() == s@[i as int]);
            assert(r@ =~= json_escaped(s@.subrange(0, i + 1 as int)));
        }
        i = i + 1;
    }
    proof {
        assert(s@.subrange(0, n as int) =~= s@);
    }
    r
}

/// The JSON body of the token-exchange request, carrying the submitter's
/// given and family name.
pub open spec fn exchange_body_of(given: Seq<char>, family: Seq<char>) -> Seq<char> {
    "{\"givenName\":\""@ + json_escaped(given) + "\",\"familyName\":\""@ + json_escaped(family)
        + "\"}"@
}

/// Builds the token-exchange request body for the two name parts.
pub fn name_exchange_body(given: &str, family: &str) -> (r: String)
    ensures
        r@ == exchange_body_of(given@, family@),
{
    let mut r = String::from_str("{\"givenName\":\"");
    let g = json_escape(given);
    r.append(g.as_str());
    r.append("\",\"familyName\":\"");
    let f = json_escape(family);
    r.append(f.as_str());
    r.append("\"}");
    proof {
        assert(r@ =~= exchange_body_of(given@, family@));
    }
    r
}

/// The URL that redeems the share link's permission grant.
pub open spec fn permission_url_of(base: Seq<char>, id: Seq<char>) -> Seq<char> {
    base + "/_api/v2.0/shares/u!"@ + id + "/permission"@
}

/// Builds the permission-activation URL for a share.
pub fn permission_url(base: &str, id: &str) -> (r: String)
    ensures
        r@ == permission_url_of(base@, id@),
{
    let mut r = String::from_str(base);
    r.append("/_api/v2.0/shares/u!");
    r.append(id);
    r.append("/permission");
    proof {
        assert(r@ =~= permission_url_of(base@, id@));
    }
    r
}

/// The URL that opens an upload session for `filename` under a share.
pub open spec fn session_url_of(base: Seq<char>, id: Seq<char>, filename: Seq<char>) -> Seq<
    char,
> {
    base + "/_api/v2.1/shares/u!"@ + id + "/driveItem:/"@ + filename
        + ":/oneDrive.createUploadSession"@
}

/// Builds the upload-session-creation URL for a share and target filename.
pub fn session_url(base: &str, id: &str, filename: &str) -> (r: String)
    ensures
        r@ == session_url_of(base@, id@, filename@),
{
    let mut r = String::from_str(base);
    r.append("/_api/v2.1/shares/u!");
    r.append(id);
    r.append("/driveItem:/");
    r.append(filename);
    r.append(":/oneDrive.createUploadSession");
    proof {
        assert(r@ =~= session_url_of(base@, id@, filename@));
    }
    r
}

/// The service's non-standard authorization scheme prefixes tokens with
/// this word instead of `Bearer`.
pub fn auth_header_value(token: &str) -> (r: String)
    ensures
        r@ == "badger "@ + token@,
{
    let mut s = String::from_str("badger ");
    s.append(token);
    s
}

/// The fixed endpoint that issues anonymous single-use tokens.
pub fn token_endpoint() -> (r: String)
    ensures
        r@ == "https://api.badgerp.svc.ms/v1.0/token"@,
{
    String::from_str("https://api.badgerp.svc.ms/v1.0/token")
}

/// The fixed endpoint that upgrades an anonymous token with a name.
pub fn exchange_endpoint() -> (r: String)
    ensures
        r@ == "https://api.badgerp.svc.ms/v1.0/tokenexchange"@,
{
    String::from_str("https://api.badgerp.svc.ms/v1.0/tokenexchange")
}

/// The fixed body of the anonymous sign-in request.
pub fn anonymous_signin_body() -> (r: String)
    ensures
        r@ == "{\"appid\":\"FileRequestAnonymousUserSignInOnODB\"}"@,
{
    String::from_str("{\"appid\":\"FileRequestAnonymousUserSignInOnODB\"}")
}

/// The fixed body of the session-creation request, asking the service to
/// rename the file on a name conflict.
pub fn session_request_body() -> (r: String)
    ensures
        r@ == "{\"item\":{\"@name.conflictBehavior\":\"rename\"}}"@,
{
    String::from_str("{\"item\":{\"@name.conflictBehavior\":\"rename\"}}")
}

} // verus!
