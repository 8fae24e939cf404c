use vstd::prelude::*;
use crate::text::{chars_of, range_eq, string_from_range};

verus! {

/// The whitespace that header values are trimmed of.
pub open spec fn is_ws(c: char) -> bool {
    c == ' ' || c == '\t' || c == '\r' || c == '\n'
}

pub open spec fn spec_trim_start(s: Seq<char>) -> Seq<char>
    decreases s.len(),
{
    if s.len() > 0 && is_ws(s[0]) {
        spec_trim_start(s.drop_first())
    } else {
        s
    }
}

pub open spec fn spec_trim_end(s: Seq<char>) -> Seq<char>
    decreases s.len(),
{
    if s.len() > 0 && is_ws(s.last()) {
        spec_trim_end(s.drop_last())
    } else {
        s
    }
}

/// `s` without leading and trailing whitespace.
pub open spec fn spec_trim(s: Seq<char>) -> Seq<char> {
    spec_trim_end(spec_trim_start(s))
}

/// The position of the first `=` in `s`, if any.
pub open spec fn spec_find_eq(s: Seq<char>) -> Option<int>
    decreases s.len(),
{
    if s.len() == 0 {
        None
    } else if s[0] == '=' {
        Some(0)
    } else {
        match spec_find_eq(s.drop_first()) {
            Some(i) => Some(i + 1),
            None => None,
        }
    }
}

/// The position of the first `"; "` cookie separator in `s`, if any.
pub open spec fn spec_find_sep(s: Seq<char>) -> Option<int>
    decreases s.len(),
{
    if s.len() < 2 {
        None
    } else if s[0] == ';' && s[1] == ' ' {
        Some(0)
    } else {
        match spec_find_sep(s.drop_first()) {
            Some(i) => Some(i + 1),
            None => None,
        }
    }
}

/// What one `name=value` cookie piece yields for `key`: the trimmed value
/// when the trimmed name equals the key, nothing otherwise (also nothing
/// when the piece carries no `=`).
pub open spec fn spec_piece_value(piece: Seq<char>, key: Seq<char>) -> Option<Seq<char>> {
    match spec_find_eq(piece) {
        Some(i) => if spec_trim(piece.take(i)) == key {
            Some(spec_trim(piece.skip(i + 1)))
        } else {
            None
        },
        None => None,
    }
}

/// A found separator always lies inside the sequence, with room for both
/// of its characters.
pub proof fn lemma_find_sep_range(s: Seq<char>)
    ensures
        spec_find_sep(s) matches Some(i) ==> 0 <= i && i + 1 < s.len(),
    decreases s.len(),
{
    if s.len() >= 2 && !(s[0] == ';' && s[1] == ' ') {
        lemma_find_sep_range(s.drop_first());
    }
}

/// What a `Cookie` header yields for `key`: the pieces are separated by
/// `"; "`, and the first piece whose name matches decides.
pub open spec fn spec_cookie_value(header: Seq<char>, key: Seq<char>) -> Option<Seq<char>>
    decreases header.len(),
    via spec_cookie_value_decreases
{
    match spec_find_sep(header) {
        Some(end) => match spec_piece_value(header.take(end), key) {
            Some(v) => Some(v),
            None => spec_cookie_value(header.skip(end + 2), key),
        },
        None => spec_piece_value(header, key),
    }
}

#[via_fn]
proof fn spec_cookie_value_decreases(header: Seq<char>, key: Seq<char>) {
    lemma_find_sep_range(header);
}

/// The token an `Authorization` header carries: whatever follows the
/// `"Bearer "` prefix.
pub open spec fn spec_bearer_token(auth: Seq<char>) -> Option<Seq<char>> {
    if auth.len() >= 7 && auth.take(7) == "Bearer "@ {
        Some(auth.skip(7))
    } else {
        None
    }
}

/// Where a request's token comes from: the bearer token of the
/// `Authorization` header when that is present and well-formed, else the
/// `token` cookie of the `Cookie` header.
pub open spec fn spec_extract_token(
    auth: Option<Seq<char>>,
    cookie: Option<Seq<char>>,
) -> Option<Seq<char>> {
    let from_cookie = match cookie {
        Some(c) => spec_cookie_value(c, "token"@),
        None => None,
    };
    match auth {
        Some(a) => match spec_bearer_token(a) {
            Some(t) => Some(t),
            None => from_cookie,
        },
        None => from_cookie,
    }
}

proof fn lemma_find_eq_at(s: Seq<char>, t: int)
    requires
        0 <= t < s.len(),
        s[t] == '=',
        forall|k: int| 0 <= k < t ==> s[k] != '=',
    ensures
        spec_find_eq(s) == Some(t),
    decreases s.len(),
{
    if t > 0 {
        assert forall|k: int| 0 <= k < t - 1 implies s.drop_first()[k] != '=' by {
            assert(s.drop_first()[k] == s[k + 1]);
        }
        assert(s.drop_first()[t - 1] == s[t]);
        lemma_find_eq_at(s.drop_first(), t - 1);
    }
}

proof fn lemma_find_eq_none(s: Seq<char>)
    requires
        forall|k: int| 0 <= k < s.len() ==> s[k] != '=',
    ensures
        spec_find_eq(s) is None,
    decreases s.len(),
{
    if s.len() > 0 {
        assert forall|k: int| 0 <= k < s.drop_first().len() implies s.drop_first()[k] != '=' by {
            assert(s.drop_first()[k] == s[k + 1]);
        }
        lemma_find_eq_none(s.drop_first());
    }
}

proof fn lemma_find_sep_at(s: Seq<char>, t: int)
    requires
        0 <= t,
        t + 1 < s.len(),
        s[t] == ';' && s[t + 1] == ' ',
        forall|k: int| 0 <= k < t ==> !((#[trigger] s[k]) == ';' && s[k + 1] == ' '),
    ensures
        spec_find_sep(s) == Some(t),
    decreases s.len(),
{
    if t > 0 {
        assert forall|k: int|
            0 <= k < t - 1 implies !((#[trigger] s.drop_first()[k]) == ';' && s.drop_first()[k
            + 1] == ' ') by {
            assert(s.drop_first()[k] == s[k + 1]);
            assert(s.drop_first()[k + 1] == s[k + 2]);
        }
        assert(s.drop_first()[t - 1] == s[t]);
        assert(s.drop_first()[t] == s[t + 1]);
        lemma_find_sep_at(s.drop_first(), t - 1);
    }
}

proof fn lemma_find_sep_none(s: Seq<char>)
    requires
        forall|k: int| 0 <= k < s.len() - 1 ==> !((#[trigger] s[k]) == ';' && s[k + 1] == ' '),
    ensures
        spec_find_sep(s) is None,
    decreases s.len(),
{
    if s.len() >= 2 {
        assert forall|k: int|
            0 <= k < s.drop_first().len() - 1 implies !((#[trigger] s.drop_first()[k]) == ';'
            && s.drop_first()[k + 1] == ' ') by {
            assert(s.drop_first()[k] == s[k + 1]);
            assert(s.drop_first()[k + 1] == s[k + 2]);
        }
        lemma_find_sep_none(s.drop_first());
    }
}

proof fn lemma_trim_start_at(s: Seq<char>, j: int)
    requires
        0 <= j <= s.len(),
        forall|k: int| 0 <= k < j ==> is_ws(s[k]),
        j < s.len() ==> !is_ws(s[j]),
    ensures
        spec_trim_start(s) == s.skip(j),
    decreases s.len(),
{
    if j == 0 {
        assert(s.skip(0) =~= s);
    } else {
        assert(is_ws(s[0]));
        assert forall|k: int| 0 <= k < j - 1 implies is_ws(s.drop_first()[k]) by {
            assert(s.drop_first()[k] == s[k + 1]);
        }
        if j - 1 < s.drop_first().len() {
            assert(s.drop_first()[j - 1] == s[j]);
        }
        lemma_trim_start_at(s.drop_first(), j - 1);
        assert(s.drop_first().skip(j - 1) =~= s.skip(j));
    }
}

proof fn lemma_trim_end_at(s: Seq<char>, j: int)
    requires
        0 <= j <= s.len(),
        forall|k: int| j <= k < s.len() ==> is_ws(s[k]),
        j > 0 ==> !is_ws(s[j - 1]),
    ensures
        spec_trim_end(s) == s.take(j),
    decreases s.len(),
{
    if j == s.len() {
        assert(s.take(j) =~= s);
    } else {
        assert(is_ws(s.last()));
        assert forall|k: int| j <= k < s.drop_last().len() implies is_ws(s.drop_last()[k]) by {
            assert(s.drop_last()[k] == s[k]);
        }
        if j > 0 {
            assert(s.drop_last()[j - 1] == s[j - 1]);
        }
        lemma_trim_end_at(s.drop_last(), j);
        assert(s.drop_last().take(j) =~= s.take(j));
    }
}

/// The first `=` in `v[start..end)`, if any.
fn find_eq_from(v: &Vec<char>, start: usize, end: usize) -> (r: Option<usize>)
    requires
        start <= end <= v@.len(),
    ensures
        match r {
            Some(j) => start <= j < end && spec_find_eq(v@.subrange(start as int, end as int))
                == Some(j - start),
            None => spec_find_eq(v@.subrange(start as int, end as int)) is None,
        },
{
    let ghost piece = v@.subrange(start as int, end as int);
    let mut i = start;
    while i < end
        invariant
            start <= i <= end <= v@.len(),
            piece == v@.subrange(start as int, end as int),
            forall|k: int| 0 <= k < i - start ==> v@.subrange(start as int, end as int)[k] != '=',
        decreases end - i,
    {
        if v[i] == '=' {
            proof {
                assert(piece[i - start] == v@[i as int]);
                lemma_find_eq_at(piece, i - start);
            }
            return Some(i);
        }
        proof {
            assert(piece[i - start] == v@[i as int]);
        }
        i = i + 1;
    }
    proof {
        lemma_find_eq_none(piece);
    }
    None
}

/// The first `"; "` in `v[start..end)`, if any.
fn find_sep_from(v: &Vec<char>, start: usize, end: usize) -> (r: Option<usize>)
    requires
        start <= end <= v@.len(),
    ensures
        match r {
            Some(j) => start <= j && j + 1 < end && spec_find_sep(
                v@.subrange(start as int, end as int),
            ) == Some(j - start),
            None => spec_find_sep(v@.subrange(start as int, end as int)) is None,
        },
{
    let ghost piece = v@.subrange(start as int, end as int);
    if end - start < 2 {
        proof {
            lemma_find_sep_none(piece);
        }
        return None;
    }
    let mut i = start;
    while i < end - 1
        invariant
            start + 2 <= end <= v@.len(),
            start <= i <= end,
            piece == v@.subrange(start as int, end as int),
            forall|k: int|
                0 <= k < i - start ==> !((#[trigger] v@.subrange(start as int, end as int)[k])
                    == ';' && v@.subrange(start as int, end as int)[k + 1] == ' '),
        decreases end - i,
    {
        if v[i] == ';' && v[i + 1] == ' ' {
            proof {
                assert(piece[i - start] == v@[i as int]);
                assert(piece[i - start + 1] == v@[i as int + 1]);
                lemma_find_sep_at(piece, i - start);
            }
            return Some(i);
        }
        proof {
            assert(piece[i - start] == v@[i as int]);
            assert(piece[i - start + 1] == v@[i as int + 1]);
        }
        i = i + 1;
    }
    proof {
        lemma_find_sep_none(piece);
    }
    None
}

/// The bounds of `v[start..end)` with surrounding whitespace dropped.
fn trim_range(v: &Vec<char>, start: usize, end: usize) -> (r: (usize, usize))
    requires
        start <= end <= v@.len(),
    ensures
        start <= r.0 <= r.1 <= end,
        v@.subrange(r.0 as int, r.1 as int) == spec_trim(v@.subrange(start as int, end as int)),
{
    let ghost piece = v@.subrange(start as int, end as int);
    let mut ts = start;
    while ts < end && is_ws_char(v[ts])
        invariant
            start <= ts <= end <= v@.len(),
            piece == v@.subrange(start as int, end as int),
            forall|k: int| 0 <= k < ts - start ==> is_ws(v@.subrange(start as int, end as int)[k]),
        decreases end - ts,
    {
        proof {
            assert(piece[ts - start] == v@[ts as int]);
        }
        ts = ts + 1;
    }
    proof {
        if ts < end {
            assert(piece[ts - start] == v@[ts as int]);
        }
        lemma_trim_start_at(piece, ts - start);
        assert(piece.skip(ts - start) =~= v@.subrange(ts as int, end as int));
    }
    let ghost trimmed_start = v@.subrange(ts as int, end as int);
    let mut te = end;
    while te > ts && is_ws_char(v[te - 1])
        invariant
            start <= ts <= te <= end <= v@.len(),
            trimmed_start == v@.subrange(ts as int, end as int),
            forall|k: int|
                te - ts <= k < end - ts ==> is_ws(v@.subrange(ts as int, end as int)[k]),
        decreases te,
    {
        proof {
            assert(trimmed_start[te - 1 - ts] == v@[te as int - 1]);
        }
        te = te - 1;
    }
    proof {
        if te > ts {
            assert(trimmed_start[te - 1 - ts] == v@[te as int - 1]);
        }
        lemma_trim_end_at(trimmed_start, te - ts);
        assert(trimmed_start.take(te - ts) =~= v@.subrange(ts as int, te as int));
    }
    (ts, te)
}

/// Whether a character counts as trimmable whitespace.
fn is_ws_char(c: char) -> (r: bool)
    ensures
        r == is_ws(c),
{
    c == ' ' || c == '\t' || c == '\r' || c == '\n'
}

/// What the piece `v[start..end)` yields for the key.
fn piece_value(v: &Vec<char>, start: usize, end: usize, key: &Vec<char>) -> (r: Option<String>)
    requires
        start <= end <= v@.len(),
    ensures
        match r {
            Some(s) => spec_piece_value(v@.subrange(start as int, end as int), key@) == Some(s@),
            None => spec_piece_value(v@.subrange(start as int, end as int), key@) is None,
        },
{
    let ghost piece = v@.subrange(start as int, end as int);
    match find_eq_from(v, start, end) {
        Some(e) => {
            proof {
                assert(piece.take(e - start) =~= v@.subrange(start as int, e as int));
                assert(piece.skip(e - start + 1) =~= v@.subrange(e as int + 1, end as int));
            }
            let (ts, te) = trim_range(v, start, e);
            if range_eq(v, ts, te, key) {
                let (vs, ve) = trim_range(v, e + 1, end);
                Some(string_from_range(v, vs, ve))
            } else {
                None
            }
        },
        None => None,
    }
}

/// Looks a cookie up by name in a `Cookie` header: the header is a list of
/// `name=value` pairs separated by `"; "`, names and values are trimmed,
/// and the first matching name decides.
pub fn get_cookie_value(cookie_header: &str, key: &str) -> (r: Option<String>)
    ensures
        match r {
            Some(v) => spec_cookie_value(cookie_header@, key@) == Some(v@),
            None => spec_cookie_value(cookie_header@, key@) is None,
        },
{
    let h = chars_of(cookie_header);
    let k = chars_of(key);
    let n = h.len();
    let mut pos: usize = 0;
    proof {
        assert(h@.skip(0) =~= h@);
    }
    loop
        invariant
            h@ == cookie_header@,
            k@ == key@,
            n == h@.len(),
            pos <= n,
            spec_cookie_value(h@.skip(pos as int), k@) == spec_cookie_value(h@, k@),
        decreases n - pos,
    {
        let ghost rest = h@.skip(pos as int);
        let sep = find_sep_from(&h, pos, n);
        proof {
            assert(rest =~= h@.subrange(pos as int, n as int));
        }
        let piece_end = match sep {
            Some(j) => j,
            None => n,
        };
        proof {
            assert(rest.take(piece_end - pos) =~= h@.subrange(pos as int, piece_end as int));
        }
        match piece_value(&h, pos, piece_end, &k) {
            Some(v) => {
                return Some(v);
            },
            None => {
                match sep {
                    Some(j) => {
                        proof {
                            assert(rest.skip(j - pos + 2) =~= h@.skip(j as int + 2));
                        }
                        pos = j + 2;
                    },
                    None => {
                        return None;
                    },
                }
            },
        }
    }
}

/// Extracts the caller's token from the request headers: the bearer token
/// of the `Authorization` header when it is present and well-formed, else
/// the `token` cookie.
pub fn extract_token(auth_header: Option<&str>, cookie_header: Option<&str>) -> (r: Option<
    String,
>)
    ensures
        match r {
            Some(t) => spec_extract_token(
                match auth_header {
                    Some(a) => Some(a@),
                    None => None,
                },
                match cookie_header {
                    Some(c) => Some(c@),
                    None => None,
                },
            ) == Some(t@),
            None => spec_extract_token(
                match auth_header {
                    Some(a) => Some(a@),
                    None => None,
                },
                match cookie_header {
                    Some(c) => Some(c@),
                    None => None,
                },
            ) is None,
        },
{
    if let Some(a) = auth_header {
        let chars = chars_of(a);
        let bearer = chars_of("Bearer ");
        if chars.len() >= 7 {
            proof {
                assert(chars@.subrange(0, 7) =~= a@.take(7));
            }
            if range_eq(&chars, 0, 7, &bearer) {
                proof {
                    assert(chars@.subrange(7, chars@.len() as int) =~= a@.skip(7));
                }
                return Some(string_from_range(&chars, 7, chars.len()));
            }
        }
    }
    match cookie_header {
        Some(c) => get_cookie_value(c, "token"),
        None => None,
    }
}

} // verus!
