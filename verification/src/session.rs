//! Tolerant extraction of the upload endpoint from the session-creation
//! response.
//!
//! The service answers session creation with a body that is not reliably
//! well-formed JSON, so the endpoint is not parsed structurally: the
//! literal key `"uploadUrl":"` is located and the quoted value after it is
//! captured up to the next unescaped quote. This tolerance is deliberate;
//! a strict parser would reject real responses.

use vstd::prelude::*;

verus! {

/// The literal key, opening quote included, that announces the upload
/// endpoint inside the session-creation response.
pub open spec fn upload_url_key() -> Seq<char> {
    seq!['"', 'u', 'p', 'l', 'o', 'a', 'd', 'U', 'r', 'l', '"', ':', '"']
}

/// Whether the upload-endpoint key stands at position `i` of `s`.
pub open spec fn key_match_at(s: Seq<char>, i: int) -> bool {
    0 <= i && i + 13 <= s.len() && s.subrange(i, i + 13) == upload_url_key()
}

/// The first position at or after `i` where the upload-endpoint key
/// stands in `s`.
pub open spec fn find_key_from(s: Seq<char>, i: int) -> Option<int>
    decreases s.len() - i,
{
    if i < 0 || i + 13 > s.len() {
        None
    } else if key_match_at(s, i) {
        Some(i)
    } else {
        find_key_from(s, i + 1)
    }
}

/// The quoted value that starts at position `i` of `s`: the characters up
/// to the next unescaped quote, kept exactly as they stand (a backslash
/// shields the character after it and both are kept). `None` when the
/// closing quote never comes.
pub open spec fn capture_from(s: Seq<char>, i: int, acc: Seq<char>) -> Option<Seq<char>>
    decreases s.len() - i,
{
    if i < 0 || i >= s.len() {
        None
    } else if s[i] == '"' {
        Some(acc)
    } else if s[i] == '\\' {
        if i + 1 < s.len() {
            capture_from(s, i + 2, acc + seq![s[i], s[i + 1]])
        } else {
            None
        }
    } else {
        capture_from(s, i + 1, acc.push(s[i]))
    }
}

/// The upload endpoint carried by a session-creation body: the quoted
/// value following the first occurrence of the upload-endpoint key.
pub open spec fn upload_url_of(s: Seq<char>) -> Option<Seq<char>> {
    match find_key_from(s, 0) {
        None => None,
        Some(p) => capture_from(s, p + 13, Seq::empty()),
    }
}

proof fn lemma_find_key_skip(s: Seq<char>, from: int, to: int)
    requires
        0 <= from <= to,
        forall|j: int| from <= j < to ==> !key_match_at(s, j),
    ensures
        find_key_from(s, from) == find_key_from(s, to),
    decreases to - from,
{
    if from < to {
        if from + 13 > s.len() {
            assert(to + 13 > s.len());
        } else {
            lemma_find_key_skip(s, from + 1, to);
        }
    }
}

/// Extracts the upload endpoint from a session-creation body, if the key
/// and a properly closed value are there.
pub fn find_upload_url(body: &str) -> (r: Option<String>)
    ensures
        match r {
            Some(url) => upload_url_of(body@) == Some(url@),
            None => upload_url_of(body@) is None,
        },
{
    let key = "\"uploadUrl\":\"";
    proof {
        reveal_strlit("\"uploadUrl\":\"");
        assert(key@ =~= upload_url_key());
    }
    let n = body.unicode_len();
    if n < 13 {
        return None;
    }
    let mut i: usize = 0;
    while i <= n - 13
        invariant
            n == body@.len(),
            13 <= n,
            i + 13 <= n + 1,
            key@ == upload_url_key(),
            forall|j: int| 0 <= j < i ==> !key_match_at(body@, j),
        decreases n - i,
    {
        let mut j: usize = 0;
        let mut matches = true;
        while j < 13
            invariant
                n == body@.len(),
                i + 13 <= n,
                j <= 13,
                key@ == upload_url_key(),
                matches == forall|t: int| 0 <= t < j ==> body@[i + t] == upload_url_key()[t],
            decreases 13 - j,
        {
            if body.get_char(i + j) != key.get_char(j) {
                matches = false;
            }
            j = j + 1;
        }
        if matches {
            proof {
                assert(body@.subrange(i as int, i + 13) =~= upload_url_key());
                assert(key_match_at(body@, i as int));
                lemma_find_key_skip(body@, 0, i as int);
                assert(find_key_from(body@, 0) == Some(i as int));
            }
            let mut pos = i + 13;
            let mut acc = String::new();
            while pos < n
                invariant
                    n == body@.len(),
                    i + 13 <= pos <= n,
                    find_key_from(body@, 0) == Some(i as int),
                    capture_from(body@, i + 13, Seq::empty()) == capture_from(
                        body@,
                        pos as int,
                        acc@,
                    ),
                decreases n - pos,
            {
                let c = body.get_char(pos);
                if c == '"' {
                    return Some(acc);
                } else if c == '\\' {
                    if pos + 1 < n {
                        let ghost pre = acc@;
                        acc.append(body.substring_char(pos, pos + 2));
                        proof {
                            assert(body@.subrange(pos as int, pos + 2) =~= seq![
                                body@[pos as int],
                                body@[pos + 1],
                            ]);
                            assert(acc@ =~= pre + seq![body@[pos as int], body@[pos + 1]]);
                        }
                        pos = pos + 2;
                    } else {
                        return None;
                    }
                } else {
                    let ghost pre = acc@;
                    acc.append(body.substring_char(pos, pos + 1));
                    proof {
                        assert(body@.subrange(pos as int, pos + 1) =~= seq![body@[pos as int]]);
                        assert(acc@ =~= pre.push(body@[pos as int]));
                    }
                    pos = pos + 1;
                }
            }
            return None;
        }
        proof {
            assert(!key_match_at(body@, i as int)) by {
                if key_match_at(body@, i as int) {
                    assert(forall|t: int|
                        0 <= t < 13 ==> #[trigger] body@.subrange(i as int, i + 13)[t] == body@[i
                            + t]);
                }
            }
        }
        i = i + 1;
    }
    proof {
        lemma_find_key_skip(body@, 0, i as int);
    }
    None
}

} // verus!
