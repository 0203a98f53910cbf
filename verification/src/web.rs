//! The local web server's routes: which handler a request reaches.
use vstd::prelude::*;
use crate::decimal::{
    decimal, is_digit, law_parse_decimal_roundtrip, lemma_decimal, parse_i32, signed_decimal,
    spec_parse_i32,
};

verus! {

/// ASCII `/`.
pub const SLASH: u8 = 47;

/// ASCII `?`.
pub const QUESTION_MARK: u8 = 63;

/// The handler a request reaches.
#[derive(Clone, Copy, Debug, PartialEq, Eq, Structural)]
pub enum Route {
    /// `GET /socket`: the websocket server's port, as text.
    Socket,
    /// `GET /rank/{score}`: the rank that a rank score reaches, as JSON.
    Rank(i32),
    /// `GET /rank_icon/{score}`: the icon of the rank that a score reaches.
    RankIcon(i32),
    /// Anything else: the static files of the page.
    Assets,
}

pub open spec fn get_method() -> Seq<u8> {
    seq![71, 69, 84]
}

pub open spec fn socket_path() -> Seq<u8> {
    seq![47, 115, 111, 99, 107, 101, 116]
}

pub open spec fn rank_prefix() -> Seq<u8> {
    seq![47, 114, 97, 110, 107, 47]
}

pub open spec fn rank_icon_prefix() -> Seq<u8> {
    seq![47, 114, 97, 110, 107, 95, 105, 99, 111, 110, 47]
}

/// The bytes of what `percent_decode(segment).decode_utf8_lossy()` gives:
/// `%` escapes decoded, then bytes that are not UTF-8 replaced.
pub uninterp spec fn percent_decoded(segment: Seq<u8>) -> Seq<u8>;

/// ASCII `%`.
pub const PERCENT: u8 = 37;

/// A segment that decoding leaves alone: ASCII with no `%` escape.
pub open spec fn plain_segment(segment: Seq<u8>) -> bool {
    forall|i: int| 0 <= i < segment.len() ==> #[trigger] segment[i] < 128 && segment[i] != PERCENT
}

/// `percent_encoding::percent_decode(segment).decode_utf8_lossy()`, as
/// rouille re-exports it, taken as bytes. Its result is named; what is
/// stated of it is only that a plain segment comes back unchanged: the
/// decoder rewrites `%` escapes alone, and ASCII is valid UTF-8.
#[verifier::external_body]
fn decode_path_segment(segment: &[u8]) -> (decoded: Vec<u8>)
    ensures
        decoded@ == percent_decoded(segment@),
        plain_segment(segment@) ==> decoded@ == segment@,
{
    rouille::percent_encoding::percent_decode(segment).decode_utf8_lossy().into_owned().into_bytes()
}

/// The index of the first `b` in `s`, or its length where there is none.
pub open spec fn first_index_of(s: Seq<u8>, b: u8) -> int
    decreases s.len(),
{
    if s.len() == 0 {
        0
    } else if s[0] == b {
        0
    } else {
        1 + first_index_of(s.drop_first(), b)
    }
}

/// A url without its query: what comes before the first `?`.
pub open spec fn path_of(url: Seq<u8>) -> Seq<u8> {
    url.take(first_index_of(url, QUESTION_MARK))
}

pub open spec fn has_prefix(s: Seq<u8>, prefix: Seq<u8>) -> bool {
    prefix.len() <= s.len() && s.take(prefix.len() as int) == prefix
}

pub open spec fn lacks(s: Seq<u8>, b: u8) -> bool {
    forall|i: int| 0 <= i < s.len() ==> s[i] != b
}

/// The `i32` that a path of the form `prefix` + one segment carries, where
/// the decoded segment parses.
pub open spec fn param_after(path: Seq<u8>, prefix: Seq<u8>) -> Option<i32> {
    let rest = path.skip(prefix.len() as int);
    if has_prefix(path, prefix) && lacks(rest, SLASH) {
        if plain_segment(rest) {
            spec_parse_i32(rest)
        } else {
            spec_parse_i32(percent_decoded(rest))
        }
    } else {
        None
    }
}

/// The route of a request, tried in order: `/socket`, `/rank/{i32}`,
/// `/rank_icon/{i32}`, each for `GET` only, then the static files.
pub open spec fn route_of(method: Seq<u8>, url: Seq<u8>) -> Route {
    let path = path_of(url);
    if method != get_method() {
        Route::Assets
    } else if path == socket_path() {
        Route::Socket
    } else if let Some(score) = param_after(path, rank_prefix()) {
        Route::Rank(score)
    } else if let Some(score) = param_after(path, rank_icon_prefix()) {
        Route::RankIcon(score)
    } else {
        Route::Assets
    }
}

fn first_index(s: &[u8], b: u8) -> (k: usize)
    ensures
        k == first_index_of(s@, b),
{
    let n = s.len();
    let mut i: usize = 0;
    assert(s@.skip(0) =~= s@);
    while i < n
        invariant
            i <= n,
            n == s@.len(),
            first_index_of(s@, b) == i + first_index_of(s@.skip(i as int), b),
        decreases n - i,
    {
        let ghost rest = s@.skip(i as int);
        assert(rest[0] == s@[i as int]);
        if s[i] == b {
            return i;
        }
        assert(rest.drop_first() =~= s@.skip(i + 1));
        i = i + 1;
    }
    assert(s@.skip(n as int).len() == 0);
    n
}

fn bytes_equal(a: &[u8], b: &[u8]) -> (r: bool)
    ensures
        r == (a@ == b@),
{
    if a.len() != b.len() {
        return false;
    }
    let n = a.len();
    for i in 0..n
        invariant
            n == a@.len(),
            n == b@.len(),
            forall|j: int| 0 <= j < i ==> a@[j] == b@[j],
    {
        if a[i] != b[i] {
            return false;
        }
    }
    assert(a@ =~= b@);
    true
}

fn starts_with(s: &[u8], prefix: &[u8]) -> (r: bool)
    ensures
        r == has_prefix(s@, prefix@),
{
    if prefix.len() > s.len() {
        return false;
    }
    let head = &s[0..prefix.len()];
    assert(head@ =~= s@.take(prefix@.len() as int));
    bytes_equal(head, prefix)
}

fn lacks_byte(s: &[u8], b: u8) -> (r: bool)
    ensures
        r == lacks(s@, b),
{
    let n = s.len();
    for i in 0..n
        invariant
            n == s@.len(),
            forall|j: int| 0 <= j < i ==> s@[j] != b,
    {
        if s[i] == b {
            return false;
        }
    }
    true
}

fn param_after_prefix(path: &[u8], prefix: &[u8]) -> (r: Option<i32>)
    ensures
        r == param_after(path@, prefix@),
{
    if !starts_with(path, prefix) {
        return None;
    }
    let rest = &path[prefix.len()..path.len()];
    assert(rest@ =~= path@.skip(prefix@.len() as int));
    if !lacks_byte(rest, SLASH) {
        return None;
    }
    let decoded = decode_path_segment(rest);
    parse_i32(decoded.as_slice())
}

/// The route that rouille's router gives a request with this method and
/// raw url (query included).
pub fn route(method: &[u8], raw_url: &[u8]) -> (r: Route)
    ensures
        r == route_of(method@, raw_url@),
{
    let get: Vec<u8> = vec![71, 69, 84];
    let socket: Vec<u8> = vec![47, 115, 111, 99, 107, 101, 116];
    let rank: Vec<u8> = vec![47, 114, 97, 110, 107, 47];
    let rank_icon: Vec<u8> = vec![47, 114, 97, 110, 107, 95, 105, 99, 111, 110, 47];
    assert(get@ =~= get_method());
    assert(socket@ =~= socket_path());
    assert(rank@ =~= rank_prefix());
    assert(rank_icon@ =~= rank_icon_prefix());
    if !bytes_equal(method, get.as_slice()) {
        return Route::Assets;
    }
    let end = first_index(raw_url, QUESTION_MARK);
    proof {
        assert(0 <= first_index_of(raw_url@, QUESTION_MARK) <= raw_url@.len()) by {
            lemma_first_index_bounds(raw_url@, QUESTION_MARK);
        }
    }
    let path = &raw_url[0..end];
    assert(path@ =~= path_of(raw_url@));
    if bytes_equal(path, socket.as_slice()) {
        return Route::Socket;
    }
    if let Some(score) = param_after_prefix(path, rank.as_slice()) {
        return Route::Rank(score);
    }
    if let Some(score) = param_after_prefix(path, rank_icon.as_slice()) {
        return Route::RankIcon(score);
    }
    Route::Assets
}

pub proof fn lemma_first_index_bounds(s: Seq<u8>, b: u8)
    ensures
        0 <= first_index_of(s, b) <= s.len(),
    decreases s.len(),
{
    if s.len() > 0 && s[0] != b {
        lemma_first_index_bounds(s.drop_first(), b);
    }
}

pub proof fn lemma_first_index_absent(s: Seq<u8>, b: u8)
    requires
        lacks(s, b),
    ensures
        first_index_of(s, b) == s.len(),
    decreases s.len(),
{
    if s.len() > 0 {
        assert(s[0] != b);
        let t = s.drop_first();
        assert forall|i: int| 0 <= i < t.len() implies t[i] != b by {
            assert(t[i] == s[i + 1]);
        }
        lemma_first_index_absent(t, b);
    }
}

proof fn lemma_decimal_text_is_plain(v: i32)
    ensures
        plain_segment(signed_decimal(v as int)),
        lacks(signed_decimal(v as int), SLASH),
        lacks(signed_decimal(v as int), QUESTION_MARK),
{
    let s = signed_decimal(v as int);
    if v < 0 {
        let m = (-v) as nat;
        lemma_decimal(m);
        assert forall|i: int| 0 <= i < s.len() implies #[trigger] s[i] == 45 || 48 <= s[i] <= 57 by {
            if i > 0 {
                assert(s[i] == decimal(m)[i - 1]);
                assert(is_digit(decimal(m)[i - 1]));
            }
        }
    } else {
        lemma_decimal(v as nat);
        assert forall|i: int| 0 <= i < s.len() implies #[trigger] s[i] == 45 || 48 <= s[i] <= 57 by {
            assert(is_digit(s[i]));
        }
    }
}

/// The page's requests for a rank score, written as `to_string` writes the
/// score, reach the rank and rank-icon handlers with that very score.
pub proof fn law_score_requests_route(score: i32)
    ensures
        route_of(get_method(), rank_prefix() + signed_decimal(score as int)) == Route::Rank(score),
        route_of(get_method(), rank_icon_prefix() + signed_decimal(score as int))
            == Route::RankIcon(score),
{
    let text = signed_decimal(score as int);
    lemma_decimal_text_is_plain(score);
    law_parse_decimal_roundtrip(score);
    let rank_url = rank_prefix() + text;
    let icon_url = rank_icon_prefix() + text;
    assert forall|i: int| 0 <= i < rank_url.len() implies rank_url[i] != QUESTION_MARK by {
        if i >= 6 {
            assert(rank_url[i] == text[i - 6]);
        }
    }
    assert forall|i: int| 0 <= i < icon_url.len() implies icon_url[i] != QUESTION_MARK by {
        if i >= 11 {
            assert(icon_url[i] == text[i - 11]);
        }
    }
    lemma_first_index_absent(rank_url, QUESTION_MARK);
    lemma_first_index_absent(icon_url, QUESTION_MARK);
    assert(path_of(rank_url) =~= rank_url);
    assert(path_of(icon_url) =~= icon_url);
    assert(rank_url[1] != socket_path()[1]);
    assert(icon_url[1] != socket_path()[1]);
    assert(rank_url.take(6) =~= rank_prefix());
    assert(rank_url.skip(6) =~= text);
    assert(icon_url.take(11) =~= rank_icon_prefix());
    assert(icon_url.skip(11) =~= text);
    assert(icon_url.take(6)[5] != rank_prefix()[5]);
}

/// Where a request goes, in terms of its method and the part `p` of its url
/// before the first `?` (all of it where there is none): only `GET` requests
/// reach a handler other than the static files; only a `GET` of exactly
/// `/socket` reaches the socket handler; a rank or rank-icon route comes
/// only from a path `/rank/` or `/rank_icon/` followed by one segment, with
/// no further `/`, that parses (after percent-decoding) to its score; and a
/// `GET` whose path is neither `/socket` nor begins with `/rank/` or
/// `/rank_icon/` reaches the static files.
pub proof fn law_route_shape(method: Seq<u8>, url: Seq<u8>, k: int)
    requires
        0 <= k <= url.len(),
        forall|i: int| 0 <= i < k ==> url[i] != 63,
        k < url.len() ==> url[k] == 63,
    ensures
        ({
            let p = url.take(k);
            let get = seq![71u8, 69, 84];
            let socket = seq![47u8, 115, 111, 99, 107, 101, 116];
            let rank = seq![47u8, 114, 97, 110, 107, 47];
            let icon = seq![47u8, 114, 97, 110, 107, 95, 105, 99, 111, 110, 47];
            &&& method != get ==> route_of(method, url) == Route::Assets
            &&& (route_of(method, url) == Route::Socket <==> (method == get && p == socket))
            &&& (route_of(method, url) matches Route::Rank(v) ==> method == get && rank.len()
                <= p.len() && p.take(6) == rank && lacks(p.skip(6), SLASH) && (plain_segment(
                p.skip(6),
            ) ==> spec_parse_i32(p.skip(6)) == Some(v)))
            &&& (route_of(method, url) matches Route::RankIcon(v) ==> method == get && icon.len()
                <= p.len() && p.take(11) == icon && lacks(p.skip(11), SLASH) && (plain_segment(
                p.skip(11),
            ) ==> spec_parse_i32(p.skip(11)) == Some(v)))
            &&& (method == get && p != socket && !(rank.len() <= p.len() && p.take(6) == rank)
                && !(icon.len() <= p.len() && p.take(11) == icon)) ==> route_of(method, url)
                == Route::Assets
        }),
{
    lemma_first_index_is(url, QUESTION_MARK, k);
    assert(get_method() =~= seq![71u8, 69, 84]);
    assert(socket_path() =~= seq![47u8, 115, 111, 99, 107, 101, 116]);
    assert(rank_prefix() =~= seq![47u8, 114, 97, 110, 107, 47]);
    assert(rank_icon_prefix() =~= seq![47u8, 114, 97, 110, 107, 95, 105, 99, 111, 110, 47]);
    let p = url.take(k);
    if has_prefix(p, rank_prefix()) {
        assert(p != socket_path()) by {
            assert(p[1] != socket_path()[1]);
        }
    }
    if has_prefix(p, rank_icon_prefix()) {
        assert(p != socket_path()) by {
            assert(p[1] != socket_path()[1]);
        }
    }
}

/// The first `b` of `s` is at `k` when none comes before `k` and `k` is
/// either the end or a `b`.
pub proof fn lemma_first_index_is(s: Seq<u8>, b: u8, k: int)
    requires
        0 <= k <= s.len(),
        forall|i: int| 0 <= i < k ==> s[i] != b,
        k < s.len() ==> s[k] == b,
    ensures
        first_index_of(s, b) == k,
    decreases s.len(),
{
    if s.len() > 0 && k > 0 {
        let t = s.drop_first();
        assert(s[0] != b);
        assert forall|i: int| 0 <= i < k - 1 implies t[i] != b by {
            assert(t[i] == s[i + 1]);
        }
        if k - 1 < t.len() {
            assert(t[k - 1] == s[k]);
        }
        lemma_first_index_is(t, b, k - 1);
    }
}

/// Starting the web server is left to the host program: here there is
/// nothing to do.
pub fn web_server_thread() {
}

} // verus!
