//! Parsing of the token-issuance and token-exchange responses.
//!
//! Both endpoints answer with a JSON object whose values are strings; the
//! bearer token is the value of its `token` member. The parser accepts
//! exactly that shape — an object of string members, with the usual
//! whitespace and the short backslash escapes (`\uXXXX` escapes are not
//! accepted) — and rejects everything else as a malformed body. When a
//! member name repeats, the last occurrence counts.

use vstd::prelude::*;

verus! {

/// Why a token could not be obtained from an issuance or exchange call.
#[derive(Clone, Copy, PartialEq, Eq, Structural, Debug)]
pub enum TokenCause {
    /// The request could not be sent or produced no response.
    RequestFailed,
    /// The response body is not an object of string members.
    MalformedBody,
    /// The response parsed, but carries no `token` member.
    MissingTokenField,
}

/// JSON insignificant whitespace.
pub open spec fn json_ws(c: char) -> bool {
    c == ' ' || c == '\t' || c == '\n' || c == '\r'
}

/// The character denoted by a short backslash escape, or `None` when the
/// escape is not accepted.
pub open spec fn esc_of(c: char) -> Option<char> {
    if c == '"' {
        Some('"')
    } else if c == '\\' {
        Some('\\')
    } else if c == '/' {
        Some('/')
    } else if c == 'b' {
        Some('\u{8}')
    } else if c == 'f' {
        Some('\u{c}')
    } else if c == 'n' {
        Some('\n')
    } else if c == 'r' {
        Some('\r')
    } else if c == 't' {
        Some('\t')
    } else {
        None
    }
}

/// Where the scan over an object of string members stands.
#[derive(Clone, Copy, PartialEq, Eq, Structural, Debug)]
pub enum ScanMode {
    /// Before the opening brace.
    BeforeOpen,
    /// After the opening brace: a first member name or the closing brace
    /// may come.
    FirstEntry,
    /// After a comma: a member name must come.
    BeforeKey,
    /// Inside a member name.
    InKey,
    /// After a member name: the colon must come.
    AfterKey,
    /// After the colon: the value string must come.
    BeforeValue,
    /// Inside a member value.
    InValue,
    /// After a member: a comma or the closing brace may come.
    AfterEntry,
    /// After the closing brace: only whitespace may follow.
    Closed,
}

/// One pass over `s` from position `i` in mode `m`, with the member name
/// and value read so far and the members already collected. Yields the
/// members of the object, in order, or `None` when `s` is not an object
/// of string members.
pub open spec fn scan(
    s: Seq<char>,
    i: int,
    m: ScanMode,
    key: Seq<char>,
    val: Seq<char>,
    fields: Seq<(Seq<char>, Seq<char>)>,
) -> Option<Seq<(Seq<char>, Seq<char>)>>
    decreases s.len() - i,
{
    if i < 0 || i >= s.len() {
        if m is Closed {
            Some(fields)
        } else {
            None
        }
    } else {
        let c = s[i];
        match m {
            ScanMode::BeforeOpen => if json_ws(c) {
                scan(s, i + 1, ScanMode::BeforeOpen, key, val, fields)
            } else if c == '{' {
                scan(s, i + 1, ScanMode::FirstEntry, key, val, fields)
            } else {
                None
            },
            ScanMode::FirstEntry => if json_ws(c) {
                scan(s, i + 1, ScanMode::FirstEntry, key, val, fields)
            } else if c == '"' {
                scan(s, i + 1, ScanMode::InKey, Seq::empty(), val, fields)
            } else if c == '}' {
                scan(s, i + 1, ScanMode::Closed, key, val, fields)
            } else {
                None
            },
            ScanMode::BeforeKey => if json_ws(c) {
                scan(s, i + 1, ScanMode::BeforeKey, key, val, fields)
            } else if c == '"' {
                scan(s, i + 1, ScanMode::InKey, Seq::empty(), val, fields)
            } else {
                None
            },
            ScanMode::InKey => if c == '"' {
                scan(s, i + 1, ScanMode::AfterKey, key, val, fields)
            } else if c == '\\' {
                if i + 1 < s.len() {
                    match esc_of(s[i + 1]) {
                        Some(d) => scan(s, i + 2, ScanMode::InKey, key.push(d), val, fields),
                        None => None,
                    }
                } else {
                    None
                }
            } else if (c as u32) < 32 {
                None
            } else {
                scan(s, i + 1, ScanMode::InKey, key.push(c), val, fields)
            },
            ScanMode::AfterKey => if json_ws(c) {
                scan(s, i + 1, ScanMode::AfterKey, key, val, fields)
            } else if c == ':' {
                scan(s, i + 1, ScanMode::BeforeValue, key, val, fields)
            } else {
                None
            },
            ScanMode::BeforeValue => if json_ws(c) {
                scan(s, i + 1, ScanMode::BeforeValue, key, val, fields)
            } else if c == '"' {
                scan(s, i + 1, ScanMode::InValue, key, Seq::empty(), fields)
            } else {
                None
            },
            ScanMode::InValue => if c == '"' {
                scan(s, i + 1, ScanMode::AfterEntry, key, val, fields.push((key, val)))
            } else if c == '\\' {
                if i + 1 < s.len() {
                    match esc_of(s[i + 1]) {
                        Some(d) => scan(s, i + 2, ScanMode::InValue, key, val.push(d), fields),
                        None => None,
                    }
                } else {
                    None
                }
            } else if (c as u32) < 32 {
                None
            } else {
                scan(s, i + 1, ScanMode::InValue, key, val.push(c), fields)
            },
            ScanMode::AfterEntry => if json_ws(c) {
                scan(s, i + 1, ScanMode::AfterEntry, key, val, fields)
            } else if c == ',' {
                scan(s, i + 1, ScanMode::BeforeKey, key, val, fields)
            } else if c == '}' {
                scan(s, i + 1, ScanMode::Closed, key, val, fields)
            } else {
                None
            },
            ScanMode::Closed => if json_ws(c) {
                scan(s, i + 1, ScanMode::Closed, key, val, fields)
            } else {
                None
            },
        }
    }
}

/// The members of `body` when it is a JSON object of string members, in
/// the order they stand in it.
pub open spec fn json_fields(body: Seq<char>) -> Option<Seq<(Seq<char>, Seq<char>)>> {
    scan(body, 0, ScanMode::BeforeOpen, Seq::empty(), Seq::empty(), Seq::empty())
}

/// The value of the last member named `k`, if any member carries that
/// name.
pub open spec fn last_value_of(fields: Seq<(Seq<char>, Seq<char>)>, k: Seq<char>) -> Option<
    Seq<char>,
>
    decreases fields.len(),
{
    if fields.len() == 0 {
        None
    } else if fields.last().0 == k {
        Some(fields.last().1)
    } else {
        last_value_of(fields.drop_last(), k)
    }
}

/// What the token-parsing step yields for `body`: the value of its
/// `token` member, or the cause of the failure.
pub open spec fn token_of(body: Seq<char>) -> Result<Seq<char>, TokenCause> {
    match json_fields(body) {
        None => Err(TokenCause::MalformedBody),
        Some(f) => match last_value_of(f, "token"@) {
            None => Err(TokenCause::MissingTokenField),
            Some(v) => Ok(v),
        },
    }
}

/// The member views of the collected exec pairs.
pub open spec fn fields_view(v: Seq<(String, String)>) -> Seq<(Seq<char>, Seq<char>)> {
    Seq::new(v.len(), |i: int| (v[i].0@, v[i].1@))
}

/// Runtime test for JSON insignificant whitespace.
fn is_json_ws(c: char) -> (b: bool)
    ensures
        b == json_ws(c),
{
    c == ' ' || c == '\t' || c == '\n' || c == '\r'
}

/// Parses a token-issuance or token-exchange response body and returns
/// the bearer token it carries.
pub fn parse_token_body(body: &str) -> (r: Result<String, TokenCause>)
    ensures
        match r {
            Ok(t) => token_of(body@) == Ok::<Seq<char>, TokenCause>(t@),
            Err(c) => token_of(body@) == Err::<Seq<char>, TokenCause>(c) && c != (
            TokenCause::RequestFailed),
        },
{
    let n = body.unicode_len();
    let mut i: usize = 0;
    let mut mode = ScanMode::BeforeOpen;
    let mut key = String::new();
    let mut val = String::new();
    let mut fields: Vec<(String, String)> = Vec::new();
    proof {
        assert(fields_view(fields@) =~= Seq::<(Seq<char>, Seq<char>)>::empty());
    }
    while i < n
        invariant
            n == body@.len(),
            i <= n,
            json_fields(body@) == scan(body@, i as int, mode, key@, val@, fields_view(fields@)),
        decreases n - i,
    {
        let c = body.get_char(i);
        let ghost pre_key = key@;
        let ghost pre_val = val@;
        let ghost pre_fields = fields_view(fields@);
        match mode {
            ScanMode::BeforeOpen => {
                if is_json_ws(c) {
                } else if c == '{' {
                    mode = ScanMode::FirstEntry;
                } else {
                    return Err(TokenCause::MalformedBody);
                }
            },
            ScanMode::FirstEntry => {
                if is_json_ws(c) {
                } else if c == '"' {
                    mode = ScanMode::InKey;
                    key = String::new();
                } else if c == '}' {
                    mode = ScanMode::Closed;
                } else {
                    return Err(TokenCause::MalformedBody);
                }
            },
            ScanMode::BeforeKey => {
                if is_json_ws(c) {
                } else if c == '"' {
                    mode = ScanMode::InKey;
                    key = String::new();
                } else {
                    return Err(TokenCause::MalformedBody);
                }
            },
            ScanMode::InKey => {
                if c == '"' {
                    mode = ScanMode::AfterKey;
                } else if c == '\\' {
                    if i + 1 < n {
                        match append_escaped(&mut key, body.get_char(i + 1)) {
                            true => {
                                proof {
                                    assert(key@ == pre_key.push(esc_of(body@[i + 1]).unwrap()));
                                }
                                i = i + 2;
                                continue ;
                            },
                            false => {
                                return Err(TokenCause::MalformedBody);
                            },
                        }
                    } else {
                        return Err(TokenCause::MalformedBody);
                    }
                } else if (c as u32) < 32 {
                    return Err(TokenCause::MalformedBody);
                } else {
                    key.append(body.substring_char(i, i + 1));
                    proof {
                        assert(body@.subrange(i as int, i + 1) =~= seq![body@[i as int]]);
                        assert(key@ =~= pre_key.push(body@[i as int]));
                    }
                }
            },
            ScanMode::AfterKey => {
                if is_json_ws(c) {
                } else if c == ':' {
                    mode = ScanMode::BeforeValue;
                } else {
                    return Err(TokenCause::MalformedBody);
                }
            },
            ScanMode::BeforeValue => {
                if is_json_ws(c) {
                } else if c == '"' {
                    mode = ScanMode::InValue;
                    val = String::new();
                } else {
                    return Err(TokenCause::MalformedBody);
                }
            },
            ScanMode::InValue => {
                if c == '"' {
                    mode = ScanMode::AfterEntry;
                    let done_key = key;
                    let done_val = val;
                    key = String::new();
                    val = String::new();
                    fields.push((done_key, done_val));
                    proof {
                        assert(fields_view(fields@) =~= pre_fields.push((pre_key, pre_val)));
                        assert(scan(body@, i as int, ScanMode::InValue, pre_key, pre_val, pre_fields)
                            == scan(
                            body@,
                            i + 1,
                            ScanMode::AfterEntry,
                            pre_key,
                            pre_val,
                            pre_fields.push((pre_key, pre_val)),
                        ));
                        assert(scan(
                            body@,
                            i + 1,
                            ScanMode::AfterEntry,
                            pre_key,
                            pre_val,
                            fields_view(fields@),
                        ) == scan(
                            body@,
                            i + 1,
                            ScanMode::AfterEntry,
                            key@,
                            val@,
                            fields_view(fields@),
                        )) by {
                            lemma_scan_ignores_strings(
                                body@,
                                i + 1,
                                ScanMode::AfterEntry,
                                pre_key,
                                pre_val,
                                key@,
                                val@,
                                fields_view(fields@),
                            );
                        }
                    }
                } else if c == '\\' {
                    if i + 1 < n {
                        match append_escaped(&mut val, body.get_char(i + 1)) {
                            true => {
                                proof {
                                    assert(val@ == pre_val.push(esc_of(body@[i + 1]).unwrap()));
                                }
                                i = i + 2;
                                continue ;
                            },
                            false => {
                                return Err(TokenCause::MalformedBody);
                            },
                        }
                    } else {
                        return Err(TokenCause::MalformedBody);
                    }
                } else if (c as u32) < 32 {
                    return Err(TokenCause::MalformedBody);
                } else {
                    val.append(body.substring_char(i, i + 1));
                    proof {
                        assert(body@.subrange(i as int, i + 1) =~= seq![body@[i as int]]);
                        assert(val@ =~= pre_val.push(body@[i as int]));
                    }
                }
            },
            ScanMode::AfterEntry => {
                if is_json_ws(c) {
                } else if c == ',' {
                    mode = ScanMode::BeforeKey;
                } else if c == '}' {
                    mode = ScanMode::Closed;
                } else {
                    return Err(TokenCause::MalformedBody);
                }
            },
            ScanMode::Closed => {
                if is_json_ws(c) {
                } else {
                    return Err(TokenCause::MalformedBody);
                }
            },
        }
        i = i + 1;
    }
    match mode {
        ScanMode::Closed => {},
        _ => {
            return Err(TokenCause::MalformedBody);
        },
    }
    let ghost all = fields_view(fields@);
    assert(json_fields(body@) == Some(all));
    let tok = String::from_str("token");
    let mut j = fields.len();
    proof {
        assert(fields@.subrange(0, j as int) =~= fields@);
    }
    while j > 0
        invariant
            j <= fields.len(),
            tok@ == "token"@,
            all == fields_view(fields@),
            json_fields(body@) == Some(all),
            last_value_of(all, "token"@) == last_value_of(
                fields_view(fields@.subrange(0, j as int)),
                "token"@,
            ),
        decreases j,
    {
        j = j - 1;
        let hit = fields[j].0 == tok;
        proof {
            let prefix = fields_view(fields@.subrange(0, j + 1));
            assert(prefix.len() == j + 1);
            assert(prefix.last() == (fields@[j as int].0@, fields@[j as int].1@));
            assert(prefix.drop_last() =~= fields_view(fields@.subrange(0, j as int)));
        }
        if hit {
            let out = fields[j].1.clone();
            return Ok(out);
        }
    }
    proof {
        assert(fields_view(fields@.subrange(0, 0)).len() == 0);
    }
    Err(TokenCause::MissingTokenField)
}

/// Appends the character denoted by the short escape `e` to `out`;
/// reports whether the escape is one of the accepted ones.
fn append_escaped(out: &mut String, e: char) -> (ok: bool)
    ensures
        match esc_of(e) {
            Some(d) => ok && final(out)@ == old(out)@.push(d),
            None => !ok && final(out)@ == old(out)@,
        },
{
    let piece: &'static str = if e == '"' {
        "\""
    } else if e == '\\' {
        "\\"
    } else if e == '/' {
        "/"
    } else if e == 'b' {
        "\u{8}"
    } else if e == 'f' {
        "\u{c}"
    } else if e == 'n' {
        "\n"
    } else if e == 'r' {
        "\r"
    } else if e == 't' {
        "\t"
    } else {
        return false;
    };
    proof {
        reveal_strlit("\"");
        reveal_strlit("\\");
        reveal_strlit("/");
        reveal_strlit("\u{8}");
        reveal_strlit("\u{c}");
        reveal_strlit("\n");
        reveal_strlit("\r");
        reveal_strlit("\t");
    }
    let ghost pre = out@;
    out.append(piece);
    proof {
        assert(out@ =~= pre.push(esc_of(e).unwrap()));
    }
    true
}

/// Between members — before the object, between a member and the next,
/// and after the closing brace — the name and value accumulators are dead
/// state: the scan result does not depend on them.
proof fn lemma_scan_ignores_strings(
    s: Seq<char>,
    i: int,
    m: ScanMode,
    key1: Seq<char>,
    val1: Seq<char>,
    key2: Seq<char>,
    val2: Seq<char>,
    fields: Seq<(Seq<char>, Seq<char>)>,
)
    requires
        m is BeforeOpen || m is FirstEntry || m is BeforeKey || m is AfterEntry || m is Closed,
    ensures
        scan(s, i, m, key1, val1, fields) == scan(s, i, m, key2, val2, fields),
    decreases s.len() - i,
{
    if i < 0 || i >= s.len() {
    } else {
        let c = s[i];
        match m {
            ScanMode::BeforeOpen => {
                if json_ws(c) {
                    lemma_scan_ignores_strings(s, i + 1, m, key1, val1, key2, val2, fields);
                } else if c == '{' {
                    lemma_scan_ignores_strings(
                        s,
                        i + 1,
                        ScanMode::FirstEntry,
                        key1,
                        val1,
                        key2,
                        val2,
                        fields,
                    );
                }
            },
            ScanMode::FirstEntry => {
                if json_ws(c) {
                    lemma_scan_ignores_strings(s, i + 1, m, key1, val1, key2, val2, fields);
                } else if c == '"' {
                    lemma_scan_val_dead(
                        s,
                        i + 1,
                        ScanMode::InKey,
                        Seq::empty(),
                        val1,
                        val2,
                        fields,
                    );
                } else if c == '}' {
                    lemma_scan_ignores_strings(
                        s,
                        i + 1,
                        ScanMode::Closed,
                        key1,
                        val1,
                        key2,
                        val2,
                        fields,
                    );
                }
            },
            ScanMode::BeforeKey => {
                if json_ws(c) {
                    lemma_scan_ignores_strings(s, i + 1, m, key1, val1, key2, val2, fields);
                } else if c == '"' {
                    lemma_scan_val_dead(
                        s,
                        i + 1,
                        ScanMode::InKey,
                        Seq::empty(),
                        val1,
                        val2,
                        fields,
                    );
                }
            },
            ScanMode::AfterEntry => {
                if json_ws(c) {
                    lemma_scan_ignores_strings(s, i + 1, m, key1, val1, key2, val2, fields);
                } else if c == ',' {
                    lemma_scan_ignores_strings(
                        s,
                        i + 1,
                        ScanMode::BeforeKey,
                        key1,
                        val1,
                        key2,
                        val2,
                        fields,
                    );
                } else if c == '}' {
                    lemma_scan_ignores_strings(
                        s,
                        i + 1,
                        ScanMode::Closed,
                        key1,
                        val1,
                        key2,
                        val2,
                        fields,
                    );
                }
            },
            ScanMode::Closed => {
                if json_ws(c) {
                    lemma_scan_ignores_strings(s, i + 1, m, key1, val1, key2, val2, fields);
                }
            },
            _ => {},
        }
    }
}

/// While a member name is read and until its value string opens, the
/// value accumulator is dead state.
proof fn lemma_scan_val_dead(
    s: Seq<char>,
    i: int,
    m: ScanMode,
    key: Seq<char>,
    val1: Seq<char>,
    val2: Seq<char>,
    fields: Seq<(Seq<char>, Seq<char>)>,
)
    requires
        m is InKey || m is AfterKey || m is BeforeValue,
    ensures
        scan(s, i, m, key, val1, fields) == scan(s, i, m, key, val2, fields),
    decreases s.len() - i,
{
    if i < 0 || i >= s.len() {
    } else {
        let c = s[i];
        match m {
            ScanMode::InKey => {
                if c == '"' {
                    lemma_scan_val_dead(s, i + 1, ScanMode::AfterKey, key, val1, val2, fields);
                } else if c == '\\' {
                    if i + 1 < s.len() {
                        match esc_of(s[i + 1]) {
                            Some(d) => lemma_scan_val_dead(
                                s,
                                i + 2,
                                ScanMode::InKey,
                                key.push(d),
                                val1,
                                val2,
                                fields,
                            ),
                            None => {},
                        }
                    }
                } else if (c as u32) < 32 {
                } else {
                    lemma_scan_val_dead(
                        s,
                        i + 1,
                        ScanMode::InKey,
                        key.push(c),
                        val1,
                        val2,
                        fields,
                    );
                }
            },
            ScanMode::AfterKey => {
                if json_ws(c) {
                    lemma_scan_val_dead(s, i + 1, m, key, val1, val2, fields);
                } else if c == ':' {
                    lemma_scan_val_dead(s, i + 1, ScanMode::BeforeValue, key, val1, val2, fields);
                }
            },
            ScanMode::BeforeValue => {
                if json_ws(c) {
                    lemma_scan_val_dead(s, i + 1, m, key, val1, val2, fields);
                }
                // on `"` both sides continue as the same call, with the
                // value accumulator reset to empty
            },
            _ => {},
        }
    }
}

} // verus!
