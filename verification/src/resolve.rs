//! Turning the terminal URL of the share redirect into a share identifier
//! and a service base endpoint.
//!
//! The share identifier is the first run of word characters immediately
//! following the literal `s=` in the URL's query string. The service base
//! is the longest prefix of the URL that ends with a dot followed by a
//! nonempty run of word characters and stands immediately before a `/`.

use vstd::prelude::*;

verus! {

/// A word character: an ASCII letter, a digit, or an underscore.
pub open spec fn wordc(c: char) -> bool {
    ('a' as u32 <= c as u32 && c as u32 <= 'z' as u32) || ('A' as u32 <= c as u32 && c as u32
        <= 'Z' as u32) || ('0' as u32 <= c as u32 && c as u32 <= '9' as u32) || c == '_'
}

/// Runtime test for a word character.
pub fn is_word_char(c: char) -> (b: bool)
    ensures
        b == wordc(c),
{
    ('a' <= c && c <= 'z') || ('A' <= c && c <= 'Z') || ('0' <= c && c <= '9') || c == '_'
}

/// The first position at or after `i` where `c` stands in `s`.
pub open spec fn find_char_from(s: Seq<char>, c: char, i: int) -> Option<int>
    decreases s.len() - i,
{
    if i < 0 || i >= s.len() {
        None
    } else if s[i] == c {
        Some(i)
    } else {
        find_char_from(s, c, i + 1)
    }
}

proof fn lemma_find_char_skip(s: Seq<char>, c: char, from: int, to: int)
    requires
        0 <= from <= to,
        forall|j: int| from <= j < to ==> s[j] != c,
    ensures
        find_char_from(s, c, from) == find_char_from(s, c, to),
    decreases to - from,
{
    if from < to {
        if from >= s.len() {
            assert(to >= s.len());
        } else {
            lemma_find_char_skip(s, c, from + 1, to);
        }
    }
}

/// Finds the first `c` at or after `from` in `s`.
pub(crate) fn find_char(s: &str, c: char, from: usize) -> (r: Option<usize>)
    requires
        from <= s@.len(),
    ensures
        match r {
            Some(i) => find_char_from(s@, c, from as int) == Some(i as int) && from <= i
                < s@.len(),
            None => find_char_from(s@, c, from as int) is None,
        },
{
    let n = s.unicode_len();
    let mut i = from;
    while i < n
        invariant
            from <= i <= n,
            n == s@.len(),
            forall|j: int| from <= j < i ==> s@[j] != c,
        decreases n - i,
    {
        if s.get_char(i) == c {
            proof {
                lemma_find_char_skip(s@, c, from as int, i as int);
            }
            return Some(i);
        }
        i = i + 1;
    }
    proof {
        lemma_find_char_skip(s@, c, from as int, n as int);
    }
    None
}

/// The query string of a URL: everything after the first `?`, up to the
/// first `#` that follows it, if any.
pub open spec fn query_of(u: Seq<char>) -> Option<Seq<char>> {
    match find_char_from(u, '?', 0) {
        None => None,
        Some(q) => match find_char_from(u, '#', q + 1) {
            None => Some(u.subrange(q + 1, u.len() as int)),
            Some(h) => Some(u.subrange(q + 1, h)),
        },
    }
}

/// Extracts the query string of `u`, if it has one.
pub fn url_query(u: &str) -> (r: Option<String>)
    ensures
        match r {
            Some(q) => query_of(u@) == Some(q@),
            None => query_of(u@) is None,
        },
{
    let n = u.unicode_len();
    match find_char(u, '?', 0) {
        None => None,
        Some(q) => match find_char(u, '#', q + 1) {
            None => Some(String::from_str(u.substring_char(q + 1, n))),
            Some(h) => Some(String::from_str(u.substring_char(q + 1, h))),
        },
    }
}

/// Whether the literal `s=` followed by a word character stands at
/// position `i` of `q`.
pub open spec fn sid_match_at(q: Seq<char>, i: int) -> bool {
    0 <= i && i + 2 < q.len() && q[i] == 's' && q[i + 1] == '=' && wordc(q[i + 2])
}

/// The end of the run of word characters that starts at `j`.
pub open spec fn word_run_end(q: Seq<char>, j: int) -> int
    decreases q.len() - j,
{
    if 0 <= j < q.len() && wordc(q[j]) {
        word_run_end(q, j + 1)
    } else {
        j
    }
}

proof fn lemma_word_run_end_exact(q: Seq<char>, j: int, end: int)
    requires
        0 <= j <= end <= q.len(),
        forall|k: int| j <= k < end ==> wordc(q[k]),
        end == q.len() || !wordc(q[end]),
    ensures
        word_run_end(q, j) == end,
    decreases end - j,
{
    if j < end {
        lemma_word_run_end_exact(q, j + 1, end);
    }
}

/// The identifier delivered by the first `s=<word characters>` match at or
/// after position `i` of `q`.
pub open spec fn share_id_from(q: Seq<char>, i: int) -> Option<Seq<char>>
    decreases q.len() - i,
{
    if i < 0 || i + 2 >= q.len() {
        None
    } else if sid_match_at(q, i) {
        Some(q.subrange(i + 2, word_run_end(q, i + 2)))
    } else {
        share_id_from(q, i + 1)
    }
}

/// The share identifier carried by the query string `q`: the first run of
/// word characters immediately following the literal `s=`.
pub open spec fn share_id_of(q: Seq<char>) -> Option<Seq<char>> {
    share_id_from(q, 0)
}

proof fn lemma_share_id_skip(q: Seq<char>, from: int, to: int)
    requires
        0 <= from <= to,
        forall|j: int| from <= j < to ==> !sid_match_at(q, j),
    ensures
        share_id_from(q, from) == share_id_from(q, to),
    decreases to - from,
{
    if from < to {
        if from + 2 >= q.len() {
            assert(to + 2 >= q.len());
        } else {
            lemma_share_id_skip(q, from + 1, to);
        }
    }
}

/// Extracts the share identifier from the query string `q`, if one is
/// there.
pub fn find_share_id(q: &str) -> (r: Option<String>)
    ensures
        match r {
            Some(id) => share_id_of(q@) == Some(id@),
            None => share_id_of(q@) is None,
        },
{
    let n = q.unicode_len();
    if n < 3 {
        return None;
    }
    let mut i: usize = 0;
    while i + 2 < n
        invariant
            n == q@.len(),
            i + 2 <= n,
            forall|j: int| 0 <= j < i ==> !sid_match_at(q@, j),
        decreases n - i,
    {
        if q.get_char(i) == 's' && q.get_char(i + 1) == '=' && is_word_char(q.get_char(i + 2)) {
            let start = i + 2;
            let mut k = start;
            while k < n && is_word_char(q.get_char(k))
                invariant
                    n == q@.len(),
                    start <= k <= n,
                    forall|j: int| start <= j < k ==> wordc(q@[j]),
                decreases n - k,
            {
                k = k + 1;
            }
            proof {
                lemma_word_run_end_exact(q@, start as int, k as int);
                lemma_share_id_skip(q@, 0, i as int);
            }
            let id = String::from_str(q.substring_char(start, k));
            return Some(id);
        }
        i = i + 1;
    }
    proof {
        lemma_share_id_skip(q@, 0, i as int);
    }
    None
}

/// The start of the run of word characters that ends just before `e`.
pub open spec fn word_run_start(u: Seq<char>, e: int) -> int
    decreases e,
{
    if 1 <= e <= u.len() && wordc(u[e - 1]) {
        word_run_start(u, e - 1)
    } else {
        e
    }
}

proof fn lemma_word_run_start_exact(u: Seq<char>, s: int, e: int)
    requires
        0 <= s <= e <= u.len(),
        forall|k: int| s <= k < e ==> wordc(u[k]),
        s == 0 || !wordc(u[s - 1]),
    ensures
        word_run_start(u, e) == s,
    decreases e - s,
{
    if s < e {
        lemma_word_run_start_exact(u, s, e - 1);
    }
}

proof fn lemma_word_run_start_props(u: Seq<char>, e: int)
    requires
        0 <= e <= u.len(),
    ensures
        0 <= word_run_start(u, e) <= e,
        forall|k: int| word_run_start(u, e) <= k < e ==> wordc(u[k]),
        word_run_start(u, e) == 0 || !wordc(u[word_run_start(u, e) - 1]),
    decreases e,
{
    if 1 <= e && wordc(u[e - 1]) {
        lemma_word_run_start_props(u, e - 1);
    }
}

/// Whether `u[0 .. e]` is a prefix the service base extraction may return:
/// the character at `e` is a `/`, and the prefix before it ends with a dot
/// followed by a nonempty run of word characters, with at least one
/// character (and no line break) before that dot.
pub open spec fn base_end_at(u: Seq<char>, e: int) -> bool {
    &&& 0 <= e < u.len()
    &&& u[e] == '/'
    &&& {
        let w0 = word_run_start(u, e);
        &&& w0 < e
        &&& w0 >= 2
        &&& u[w0 - 1] == '.'
        &&& (forall|m: int| 0 <= m < w0 - 1 ==> u[m] != '\n')
    }
}

/// The largest position `<= e` at which a service base prefix ends.
pub open spec fn base_end_from(u: Seq<char>, e: int) -> Option<int>
    decreases e + 1,
{
    if e < 0 {
        None
    } else if base_end_at(u, e) {
        Some(e)
    } else {
        base_end_from(u, e - 1)
    }
}

/// The service base of the URL `u`: its longest prefix that ends with a
/// dot-word segment standing immediately before a `/`.
pub open spec fn service_base_of(u: Seq<char>) -> Option<Seq<char>> {
    match base_end_from(u, u.len() - 1) {
        Some(e) => Some(u.subrange(0, e)),
        None => None,
    }
}

proof fn lemma_base_end_skip(u: Seq<char>, hi: int, lo: int)
    requires
        lo <= hi,
        forall|e: int| lo < e <= hi ==> !base_end_at(u, e),
    ensures
        base_end_from(u, hi) == base_end_from(u, lo),
    decreases hi - lo,
{
    if lo < hi {
        lemma_base_end_skip(u, hi - 1, lo);
    }
}

/// Extracts the service base from the URL `u`, if one is there.
pub fn find_service_base(u: &str) -> (r: Option<String>)
    ensures
        match r {
            Some(b) => service_base_of(u@) == Some(b@),
            None => service_base_of(u@) is None,
        },
{
    let n = u.unicode_len();
    let mut e = n;
    while e > 0
        invariant
            e <= n,
            n == u@.len(),
            base_end_from(u@, n as int - 1) == base_end_from(u@, e as int - 1),
        decreases e,
    {
        e = e - 1;
        if u.get_char(e) == '/' {
            let mut k = e;
            while k > 0 && is_word_char(u.get_char(k - 1))
                invariant
                    k <= e,
                    e < n == u@.len(),
                    word_run_start(u@, e as int) == word_run_start(u@, k as int),
                decreases k,
            {
                k = k - 1;
            }
            proof {
                assert(word_run_start(u@, k as int) == k as int);
            }
            if k < e && k >= 2 && u.get_char(k - 1) == '.' {
                let mut m: usize = 0;
                let mut has_nl = false;
                while m < k - 1
                    invariant
                        m <= k - 1,
                        k - 1 < n == u@.len(),
                        has_nl == exists|j: int| 0 <= j < m && u@[j] == '\n',
                    decreases k - m,
                {
                    if u.get_char(m) == '\n' {
                        has_nl = true;
                    }
                    m = m + 1;
                }
                if !has_nl {
                    proof {
                        assert(base_end_at(u@, e as int));
                        assert(base_end_from(u@, e as int) == Some(e as int));
                    }
                    let b = String::from_str(u.substring_char(0, e));
                    return Some(b);
                }
            }
        }
        proof {
            assert(!base_end_at(u@, e as int));
        }
    }
    proof {
        assert(base_end_from(u@, -1) is None);
    }
    None
}

/// Why a terminal URL could not be resolved into a share context.
#[derive(Clone, Copy, PartialEq, Eq, Structural, Debug)]
pub enum ResolutionCause {
    /// The resolving request could not be sent or produced no response.
    RequestFailed,
    /// The terminal URL has no query string.
    NoQuery,
    /// The query string carries no `s=` identifier.
    NoShareId,
    /// No service base prefix could be extracted from the terminal URL.
    NoServiceBase,
}

/// What the redirect's terminal URL resolves to: the opaque share
/// identifier and the service base endpoint all later calls are addressed
/// to.
#[derive(Debug)]
pub struct ShareContext {
    /// The value of the `s` query parameter of the terminal URL.
    pub share_id: String,
    /// The terminal URL's longest prefix ending in a dot-word segment
    /// before a `/`.
    pub service_base: String,
}

/// What resolving the terminal URL `u` yields: the share identifier and
/// service base, or the first extraction that comes up empty — the query
/// string is looked at first, then the identifier, then the base.
pub open spec fn resolve_spec(u: Seq<char>) -> Result<(Seq<char>, Seq<char>), ResolutionCause> {
    match query_of(u) {
        None => Err(ResolutionCause::NoQuery),
        Some(q) => match share_id_of(q) {
            None => Err(ResolutionCause::NoShareId),
            Some(id) => match service_base_of(u) {
                None => Err(ResolutionCause::NoServiceBase),
                Some(b) => Ok((id, b)),
            },
        },
    }
}

/// Resolves the terminal URL of the share redirect into a share context.
pub fn resolve_share(final_url: &str) -> (r: Result<ShareContext, ResolutionCause>)
    ensures
        match r {
            Ok(ctx) => resolve_spec(final_url@) == Ok::<_, ResolutionCause>(
                (ctx.share_id@, ctx.service_base@),
            ),
            Err(c) => resolve_spec(final_url@) == Err::<(Seq<char>, Seq<char>), _>(c),
        },
{
    let q = match url_query(final_url) {
        Some(q) => q,
        None => {
            return Err(ResolutionCause::NoQuery);
        },
    };
    let id = match find_share_id(q.as_str()) {
        Some(id) => id,
        None => {
            return Err(ResolutionCause::NoShareId);
        },
    };
    let base = match find_service_base(final_url) {
        Some(b) => b,
        None => {
            return Err(ResolutionCause::NoServiceBase);
        },
    };
    Ok(ShareContext { share_id: id, service_base: base })
}

/// Law: when a query string spells `s=` followed by a run of word
/// characters, the extraction returns exactly that run, whatever other
/// parameters stand before or after it — provided no earlier position of
/// the query also matches `s=` followed by a word character.
pub proof fn lemma_share_id_extracts_param(
    q: Seq<char>,
    pre: Seq<char>,
    id: Seq<char>,
    post: Seq<char>,
)
    requires
        q == pre + seq!['s', '='] + id + post,
        id.len() > 0,
        forall|k: int| 0 <= k < id.len() ==> wordc(id[k]),
        post.len() > 0 ==> !wordc(post[0]),
        forall|j: int| 0 <= j < pre.len() ==> !sid_match_at(q, j),
    ensures
        share_id_of(q) == Some(id),
{
    let p = pre.len() as int;
    let end = p + 2 + id.len() as int;
    assert(q.len() == end + post.len());
    assert(q[p] == 's');
    assert(q[p + 1] == '=');
    assert(forall|k: int| 0 <= k < id.len() ==> q[p + 2 + k] == id[k]);
    assert(wordc(q[p + 2]));
    assert(sid_match_at(q, p));
    lemma_share_id_skip(q, 0, p);
    assert(forall|k: int| p + 2 <= k < end ==> wordc(q[k]));
    if post.len() > 0 {
        assert(q[end] == post[0]);
    }
    lemma_word_run_end_exact(q, p + 2, end);
    assert(q.subrange(p + 2, end) =~= id);
}

/// Law: a URL of the shape `<prefix>.<word>/<rest>` — a scheme and host
/// ending in a dot-word segment, then the rest of the path — has service
/// base exactly `<prefix>.<word>`, provided the prefix holds no line break
/// and no dot appears after that first `/`.
pub proof fn lemma_service_base_of_url(x: Seq<char>, w: Seq<char>, rest: Seq<char>)
    requires
        x.len() >= 1,
        forall|m: int| 0 <= m < x.len() ==> x[m] != '\n',
        w.len() >= 1,
        forall|k: int| 0 <= k < w.len() ==> wordc(w[k]),
        forall|k: int| 0 <= k < rest.len() ==> rest[k] != '.',
    ensures
        service_base_of(x + seq!['.'] + w + seq!['/'] + rest) == Some(x + seq!['.'] + w),
{
    let u = x + seq!['.'] + w + seq!['/'] + rest;
    let d = x.len() as int;
    let b = d + 1 + w.len() as int;
    assert(u.len() == b + 1 + rest.len());
    assert(u[d] == '.');
    assert(u[b] == '/');
    assert(forall|k: int| d + 1 <= k < b ==> u[k] == w[k - d - 1]);
    assert(forall|k: int| d + 1 <= k < b ==> wordc(u[k]));
    assert(!wordc('.')) by {
        assert('.' as u32 == 46);
    }
    lemma_word_run_start_exact(u, d + 1, b);
    assert(forall|m: int| 0 <= m < d ==> u[m] == x[m]);
    assert(base_end_at(u, b));
    assert(!wordc('/')) by {
        assert('/' as u32 == 47);
    }
    assert forall|e: int| b < e < u.len() implies !base_end_at(u, e) by {
        if base_end_at(u, e) {
            lemma_word_run_start_props(u, e);
            let w0 = word_run_start(u, e);
            if w0 <= b {
                assert(wordc(u[b]));
            } else if w0 - 1 == b {
                assert(u[w0 - 1] == '/');
            } else {
                assert(u[w0 - 1] == rest[w0 - 1 - b - 1]);
            }
        }
    }
    lemma_base_end_skip(u, u.len() - 1, b);
    assert(base_end_from(u, b) == Some(b));
    assert(u.subrange(0, b) =~= x + seq!['.'] + w);
}

} // verus!
