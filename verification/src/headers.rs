//! Header policies: which request headers a guest may not set, and how much of a response's
//! headers is kept.

use vstd::prelude::*;

use crate::outside;
use crate::table;
use crate::table::HeaderTable;
use crate::text;

verus! {

/// Maximum number of response headers to retain.
pub const MAX_RESPONSE_HEADER_COUNT: usize = 128;

/// Maximum total bytes across all response header names and values (1 MiB).
pub const MAX_RESPONSE_HEADER_BYTES: usize = 1024 * 1024;

/// Headers that sandbox guests must not set on outgoing requests.
///
/// This is the union of the headers that WASI HTTP forbids and of those that could be used for
/// header injection or smuggling.
pub const FORBIDDEN_REQUEST_HEADERS: [&'static str; 9] = [
    "connection",
    "host",
    "http2-settings",
    "keep-alive",
    "proxy-authenticate",
    "proxy-authorization",
    "proxy-connection",
    "transfer-encoding",
    "upgrade",
];

/// Whether `name`, in any mix of cases, is a header that guests must not set.
pub open spec fn is_forbidden(name: Seq<char>) -> bool {
    let lower = text::ascii_lower(name);
    ||| lower == "connection"@
    ||| lower == "host"@
    ||| lower == "http2-settings"@
    ||| lower == "keep-alive"@
    ||| lower == "proxy-authenticate"@
    ||| lower == "proxy-authorization"@
    ||| lower == "proxy-connection"@
    ||| lower == "transfer-encoding"@
    ||| lower == "upgrade"@
}

/// Returns `true` if `name` (case-insensitive) is a forbidden request header.
pub fn is_forbidden_request_header(name: &str) -> (forbidden: bool)
    ensures
        forbidden == is_forbidden(name@),
{
    let mut i: usize = 0;
    while i < 9
        invariant
            i <= 9,
            forall|j: int|
                0 <= j < i ==> text::ascii_lower(name@)
                    != #[trigger] FORBIDDEN_REQUEST_HEADERS@[j]@,
        decreases 9 - i,
    {
        if text::lowers_to(name, FORBIDDEN_REQUEST_HEADERS[i]) {
            return true;
        }
        i = i + 1;
    }
    assert(text::ascii_lower(name@) != FORBIDDEN_REQUEST_HEADERS@[0]@);
    assert(text::ascii_lower(name@) != FORBIDDEN_REQUEST_HEADERS@[1]@);
    assert(text::ascii_lower(name@) != FORBIDDEN_REQUEST_HEADERS@[2]@);
    assert(text::ascii_lower(name@) != FORBIDDEN_REQUEST_HEADERS@[3]@);
    assert(text::ascii_lower(name@) != FORBIDDEN_REQUEST_HEADERS@[4]@);
    assert(text::ascii_lower(name@) != FORBIDDEN_REQUEST_HEADERS@[5]@);
    assert(text::ascii_lower(name@) != FORBIDDEN_REQUEST_HEADERS@[6]@);
    assert(text::ascii_lower(name@) != FORBIDDEN_REQUEST_HEADERS@[7]@);
    assert(text::ascii_lower(name@) != FORBIDDEN_REQUEST_HEADERS@[8]@);
    false
}

/// Two names that differ in case only are forbidden together.
pub proof fn law_forbidden_ignores_case(a: Seq<char>, b: Seq<char>)
    requires
        text::ascii_lower(a) == text::ascii_lower(b),
    ensures
        is_forbidden(a) == is_forbidden(b),
{
}

/// A header as a response shows it: its name, and its value where that is visible text. Any other
/// value shows as the empty text.
pub open spec fn shown(entry: (Seq<char>, Seq<u8>)) -> (Seq<char>, Seq<char>) {
    (
        entry.0,
        if outside::is_visible(entry.1) {
            vstd::utf8::decode_utf8(entry.1)
        } else {
            Seq::empty()
        },
    )
}

/// The headers of a response as they show, in order.
pub open spec fn shown_headers(entries: Seq<(Seq<char>, Seq<u8>)>) -> Seq<(Seq<char>, Seq<char>)> {
    entries.map_values(|entry: (Seq<char>, Seq<u8>)| shown(entry))
}

/// The bytes that a header counts for.
pub open spec fn header_size(header: (Seq<char>, Seq<char>)) -> nat {
    vstd::utf8::encode_utf8(header.0).len() + vstd::utf8::encode_utf8(header.1).len()
}

/// The bytes that some headers count for together.
pub open spec fn total_size(headers: Seq<(Seq<char>, Seq<char>)>) -> nat
    decreases headers.len(),
{
    if headers.len() == 0 {
        0
    } else {
        total_size(headers.drop_last()) + header_size(headers.last())
    }
}

/// What each name has last among some headers.
pub open spec fn latest(headers: Seq<(Seq<char>, Seq<char>)>) -> Map<Seq<char>, Seq<char>>
    decreases headers.len(),
{
    if headers.len() == 0 {
        Map::empty()
    } else {
        latest(headers.drop_last()).insert(headers.last().0, headers.last().1)
    }
}

/// Whether the header at `k` is kept, given that all before it are: fewer names than the limit
/// have been kept so far, and the bytes up to and with it are within the limit.
pub open spec fn admits(headers: Seq<(Seq<char>, Seq<char>)>, k: int) -> bool {
    &&& latest(headers.take(k)).dom().len() < MAX_RESPONSE_HEADER_COUNT
    &&& total_size(headers.take(k + 1)) <= MAX_RESPONSE_HEADER_BYTES
}

/// Whether the first `n` headers are those that are kept: each of them is, and the next is not.
pub open spec fn is_kept_prefix(headers: Seq<(Seq<char>, Seq<char>)>, n: int) -> bool {
    &&& 0 <= n <= headers.len()
    &&& forall|k: int| 0 <= k < n ==> #[trigger] admits(headers, k)
    &&& n < headers.len() ==> !admits(headers, n)
}

/// Whether `kept` is what remains of some headers: what the kept prefix of them spells.
pub open spec fn is_capped(
    headers: Seq<(Seq<char>, Seq<char>)>,
    kept: Map<Seq<char>, Seq<char>>,
) -> bool {
    exists|n: int| #[trigger] is_kept_prefix(headers, n) && kept == latest(headers.take(n))
}

/// Extract response headers, enforcing count and byte-size limits.
pub fn cap_response_headers(raw: &http::HeaderMap) -> (headers: HeaderTable)
    ensures
        headers.wf(),
        is_capped(shown_headers(outside::header_entries(*raw)), table::texts_of(headers@)),
{
    let list = outside::list_headers(raw);
    let ghost all = shown_headers(outside::header_entries(*raw));
    let mut headers = HeaderTable::new();
    let mut total_bytes: usize = 0;
    let mut i: usize = 0;
    assert(all.take(0) =~= Seq::empty());
    assert(table::texts_of(headers@) =~= Map::empty());
    while i < list.len()
        invariant
            i <= list@.len(),
            list@.len() == all.len(),
            all == shown_headers(outside::header_entries(*raw)),
            forall|j: int|
                0 <= j < list@.len() ==> {
                    &&& (#[trigger] list@[j]).0@ == outside::header_entries(*raw)[j].0
                    &&& list@[j].1 is Some <==> outside::is_visible(
                        outside::header_entries(*raw)[j].1,
                    )
                    &&& list@[j].1 matches Some(text) ==> vstd::utf8::encode_utf8(text@)
                        == outside::header_entries(*raw)[j].1
                },
            headers.wf(),
            table::texts_of(headers@) == latest(all.take(i as int)),
            total_bytes == total_size(all.take(i as int)),
            total_bytes <= MAX_RESPONSE_HEADER_BYTES,
            forall|k: int| 0 <= k < i ==> #[trigger] admits(all, k),
        decreases list@.len() - i,
    {
        let ghost k = i as int;
        proof {
            assert(all[k] == shown(outside::header_entries(*raw)[k]));
            assert(all.take(k + 1).drop_last() =~= all.take(k));
            assert(all.take(k + 1).last() == all[k]);
            assert(table::texts_of(headers@).dom() =~= headers@.dom());
        }
        if headers.len() >= MAX_RESPONSE_HEADER_COUNT {
            assert(is_kept_prefix(all, k));
            return headers;
        }
        let name = list[i].0.clone();
        let value = match &list[i].1 {
            Some(text) => {
                proof {
                    vstd::utf8::encode_utf8_decode_utf8(text@);
                }
                text.clone()
            },
            None => String::new(),
        };
        assert(all[k] == (name@, value@));
        let entry_bytes = name.as_str().as_bytes().len().saturating_add(
            value.as_str().as_bytes().len(),
        );
        total_bytes = total_bytes.saturating_add(entry_bytes);
        if total_bytes > MAX_RESPONSE_HEADER_BYTES {
            assert(!admits(all, k));
            assert(is_kept_prefix(all, k));
            return headers;
        }
        assert(admits(all, k));
        let ghost before = headers@;
        headers.insert(name, value);
        assert(table::texts_of(headers@) =~= table::texts_of(before).insert(name@, value@));
        i = i + 1;
    }
    assert(is_kept_prefix(all, i as int));
    headers
}

/// The number of names does not fall from a prefix to a longer one, and rises by one at most.
proof fn lemma_latest_grows(headers: Seq<(Seq<char>, Seq<char>)>)
    ensures
        latest(headers).dom().finite(),
        latest(headers).dom().len() <= headers.len(),
        headers.len() > 0 ==> latest(headers.drop_last()).dom().len() <= latest(headers).dom().len()
            <= latest(headers.drop_last()).dom().len() + 1,
    decreases headers.len(),
{
    if headers.len() > 0 {
        lemma_latest_grows(headers.drop_last());
        assert(latest(headers).dom() =~= latest(headers.drop_last()).dom().insert(
            headers.last().0,
        ));
    }
}

/// Some headers are kept in one way only.
pub proof fn law_cap_is_a_function(
    headers: Seq<(Seq<char>, Seq<char>)>,
    a: Map<Seq<char>, Seq<char>>,
    b: Map<Seq<char>, Seq<char>>,
)
    requires
        is_capped(headers, a),
        is_capped(headers, b),
    ensures
        a == b,
{
    let m = choose|n: int| #[trigger] is_kept_prefix(headers, n) && a == latest(headers.take(n));
    let n = choose|n: int| #[trigger] is_kept_prefix(headers, n) && b == latest(headers.take(n));
    if m < n {
        assert(admits(headers, m));
    } else if n < m {
        assert(admits(headers, n));
    }
}

/// What is kept of a response's headers is within both limits: it has no more names than
/// [`MAX_RESPONSE_HEADER_COUNT`], and stems from headers of no more bytes together than
/// [`MAX_RESPONSE_HEADER_BYTES`].
pub proof fn law_kept_headers_within_limits(
    headers: Seq<(Seq<char>, Seq<char>)>,
    kept: Map<Seq<char>, Seq<char>>,
)
    requires
        is_capped(headers, kept),
    ensures
        kept.dom().len() <= MAX_RESPONSE_HEADER_COUNT,
        exists|n: int|
            0 <= n <= headers.len() && kept == latest(#[trigger] headers.take(n)) && total_size(
                headers.take(n),
            ) <= MAX_RESPONSE_HEADER_BYTES,
{
    let n = choose|n: int| #[trigger] is_kept_prefix(headers, n) && kept == latest(headers.take(n));
    if n > 0 {
        assert(admits(headers, n - 1));
        assert(headers.take(n).drop_last() =~= headers.take(n - 1));
        lemma_latest_grows(headers.take(n));
    } else {
        assert(headers.take(0) =~= Seq::empty());
    }
    assert(headers.take(n) == headers.take(n));
}

/// A prefix has no more bytes and no more names than the whole.
proof fn lemma_prefix_size(headers: Seq<(Seq<char>, Seq<char>)>, n: int)
    requires
        0 <= n <= headers.len(),
    ensures
        total_size(headers.take(n)) <= total_size(headers),
        latest(headers.take(n)).dom().len() <= latest(headers).dom().len(),
    decreases headers.len(),
{
    if n == headers.len() {
        assert(headers.take(n) =~= headers);
    } else {
        lemma_latest_grows(headers);
        lemma_prefix_size(headers.drop_last(), n);
        assert(headers.drop_last().take(n) =~= headers.take(n));
    }
}

/// Where the headers of a response before its last have fewer names than the limit, and all of
/// them no more bytes than the limit, all are kept. In particular all headers are kept of a
/// response of no more headers than [`MAX_RESPONSE_HEADER_COUNT`], however often names repeat, and
/// of one with fewer names than that, however many headers it has.
pub proof fn law_headers_within_limits_are_kept(
    headers: Seq<(Seq<char>, Seq<char>)>,
    kept: Map<Seq<char>, Seq<char>>,
)
    requires
        is_capped(headers, kept),
        headers.len() <= MAX_RESPONSE_HEADER_COUNT || latest(headers).dom().len()
            < MAX_RESPONSE_HEADER_COUNT || latest(headers.drop_last()).dom().len()
            < MAX_RESPONSE_HEADER_COUNT,
        total_size(headers) <= MAX_RESPONSE_HEADER_BYTES,
    ensures
        kept == latest(headers),
{
    let n = choose|n: int| #[trigger] is_kept_prefix(headers, n) && kept == latest(headers.take(n));
    if n < headers.len() {
        let shorter = headers.drop_last();
        lemma_latest_grows(headers);
        lemma_latest_grows(shorter);
        lemma_prefix_size(shorter, n);
        assert(shorter.take(n) =~= headers.take(n));
        lemma_prefix_size(headers, n + 1);
        assert(admits(headers, n));
    }
    assert(headers.take(n) =~= headers);
}

/// The names of a prefix are names of the whole.
proof fn lemma_prefix_names(headers: Seq<(Seq<char>, Seq<char>)>, n: int)
    requires
        0 <= n <= headers.len(),
    ensures
        latest(headers.take(n)).dom().subset_of(latest(headers).dom()),
    decreases headers.len(),
{
    if n == headers.len() {
        assert(headers.take(n) =~= headers);
    } else {
        lemma_prefix_names(headers.drop_last(), n);
        assert(headers.drop_last().take(n) =~= headers.take(n));
    }
}

/// Where a response has no more names and no more bytes than the limits, every name is kept,
/// however often names repeat.
pub proof fn law_names_within_limits_are_kept(
    headers: Seq<(Seq<char>, Seq<char>)>,
    kept: Map<Seq<char>, Seq<char>>,
)
    requires
        is_capped(headers, kept),
        latest(headers).dom().len() <= MAX_RESPONSE_HEADER_COUNT,
        total_size(headers) <= MAX_RESPONSE_HEADER_BYTES,
    ensures
        kept.dom() == latest(headers).dom(),
{
    let n = choose|n: int| #[trigger] is_kept_prefix(headers, n) && kept == latest(headers.take(n));
    lemma_latest_grows(headers);
    lemma_latest_grows(headers.take(n));
    lemma_prefix_names(headers, n);
    if n < headers.len() {
        lemma_prefix_size(headers, n);
        lemma_prefix_size(headers, n + 1);
        vstd::set_lib::lemma_subset_equality(kept.dom(), latest(headers).dom());
    } else {
        assert(headers.take(n) =~= headers);
    }
}

/// Whether a list holds entries of a map, no name twice.
pub open spec fn lists(
    list: Seq<(Seq<char>, Seq<char>)>,
    map: Map<Seq<char>, Seq<char>>,
) -> bool {
    &&& forall|i: int, j: int|
        0 <= i < j < list.len() ==> (#[trigger] list[i]).0 != (#[trigger] list[j]).0
    &&& forall|i: int|
        0 <= i < list.len() ==> map.contains_key((#[trigger] list[i]).0) && map[list[i].0]
            == list[i].1
}

/// The bytes of a list are those of one of its headers and of the others.
proof fn lemma_size_without(list: Seq<(Seq<char>, Seq<char>)>, i: int)
    requires
        0 <= i < list.len(),
    ensures
        total_size(list) == total_size(list.remove(i)) + header_size(list[i]),
    decreases list.len(),
{
    if i == list.len() - 1 {
        assert(list.remove(i) =~= list.drop_last());
    } else {
        lemma_size_without(list.drop_last(), i);
        assert(list.remove(i).drop_last() =~= list.drop_last().remove(i));
        assert(list.remove(i).last() == list.last());
    }
}

/// What each name has last takes no more bytes than all the headers.
proof fn lemma_latest_is_no_larger(
    headers: Seq<(Seq<char>, Seq<char>)>,
    list: Seq<(Seq<char>, Seq<char>)>,
)
    requires
        lists(list, latest(headers)),
    ensures
        total_size(list) <= total_size(headers),
    decreases headers.len(),
{
    if headers.len() == 0 {
        if list.len() > 0 {
            assert(latest(headers).contains_key(list[0].0));
        }
    } else {
        let last = headers.last();
        let before = headers.drop_last();
        if exists|i: int| 0 <= i < list.len() && (#[trigger] list[i]).0 == last.0 {
            let i = choose|i: int| 0 <= i < list.len() && (#[trigger] list[i]).0 == last.0;
            let rest = list.remove(i);
            assert forall|j: int| 0 <= j < rest.len() implies latest(before).contains_key(
                (#[trigger] rest[j]).0,
            ) && latest(before)[rest[j].0] == rest[j].1 by {
                let k = if j < i {
                    j
                } else {
                    j + 1
                };
                assert(rest[j] == list[k]);
                assert(list[k].0 != list[i].0);
            }
            assert forall|j: int, k: int| 0 <= j < k < rest.len() implies (#[trigger] rest[j]).0
                != (#[trigger] rest[k]).0 by {
                let a = if j < i {
                    j
                } else {
                    j + 1
                };
                let b = if k < i {
                    k
                } else {
                    k + 1
                };
                assert(rest[j] == list[a] && rest[k] == list[b]);
            }
            lemma_latest_is_no_larger(before, rest);
            lemma_size_without(list, i);
            assert(list[i] == last);
        } else {
            assert forall|j: int| 0 <= j < list.len() implies latest(before).contains_key(
                (#[trigger] list[j]).0,
            ) && latest(before)[list[j].0] == list[j].1 by {}
            lemma_latest_is_no_larger(before, list);
        }
    }
}

/// What is kept of a response's headers takes, name by name and value by value, no more bytes than
/// [`MAX_RESPONSE_HEADER_BYTES`].
pub proof fn law_kept_headers_within_byte_limit(
    headers: Seq<(Seq<char>, Seq<char>)>,
    kept: Map<Seq<char>, Seq<char>>,
    list: Seq<(Seq<char>, Seq<char>)>,
)
    requires
        is_capped(headers, kept),
        lists(list, kept),
    ensures
        total_size(list) <= MAX_RESPONSE_HEADER_BYTES,
{
    law_kept_headers_within_limits(headers, kept);
    let n = choose|n: int|
        0 <= n <= headers.len() && kept == latest(#[trigger] headers.take(n)) && total_size(
            headers.take(n),
        ) <= MAX_RESPONSE_HEADER_BYTES;
    lemma_latest_is_no_larger(headers.take(n), list);
}

/// The entries of a table as texts.
pub open spec fn table_texts(headers: HeaderTable) -> Seq<(Seq<char>, Seq<char>)> {
    headers.list().map_values(|entry: (String, String)| (entry.0@, entry.1@))
}

/// The table that is kept of a response's headers is itself within both limits.
pub proof fn law_kept_table_within_limits(
    headers: Seq<(Seq<char>, Seq<char>)>,
    kept: HeaderTable,
)
    requires
        kept.wf(),
        is_capped(headers, table::texts_of(kept@)),
    ensures
        kept.list().len() <= MAX_RESPONSE_HEADER_COUNT,
        total_size(table_texts(kept)) <= MAX_RESPONSE_HEADER_BYTES,
{
    kept.lemma_list();
    let map = table::texts_of(kept@);
    assert(map.dom() =~= kept@.dom());
    law_kept_headers_within_limits(headers, map);
    let list = table_texts(kept);
    let names = table::names_of(kept.list());
    assert forall|i: int, j: int| 0 <= i < j < list.len() implies (#[trigger] list[i]).0 != (
    #[trigger] list[j]).0 by {
        assert(names[i] != names[j]);
    }
    assert forall|i: int| 0 <= i < list.len() implies map.contains_key((#[trigger] list[i]).0)
        && map[list[i].0] == list[i].1 by {
        table::lemma_at(kept.list(), i);
    }
    law_kept_headers_within_byte_limit(headers, map, list);
}

/// Whether one text comes before another: at the first place where they differ it has the smaller
/// character, or it ends there.
pub open spec fn comes_before(a: Seq<char>, b: Seq<char>) -> bool {
    exists|k: int| #[trigger] differ_first_at(a, b, k)
}

/// Whether two texts are the same up to `k`, where `a` ends or has the smaller character.
pub open spec fn differ_first_at(a: Seq<char>, b: Seq<char>, k: int) -> bool {
    &&& 0 <= k <= a.len()
    &&& k < b.len()
    &&& forall|i: int| 0 <= i < k ==> #[trigger] a[i] == b[i]
    &&& k == a.len() || a[k] < b[k]
}

proof fn lemma_before_is_transitive(a: Seq<char>, b: Seq<char>, c: Seq<char>)
    requires
        comes_before(a, b),
        comes_before(b, c),
    ensures
        comes_before(a, c),
{
    let j = choose|k: int| #[trigger] differ_first_at(a, b, k);
    let k = choose|k: int| #[trigger] differ_first_at(b, c, k);
    let first = if j < k {
        j
    } else {
        k
    };
    assert forall|i: int| 0 <= i < first implies #[trigger] a[i] == c[i] by {
        assert(a[i] == b[i] && b[i] == c[i]);
    }
    if j < k {
        assert(b[j] == c[j]);
    } else if k < j {
        assert(a[k] == b[k]);
    }
    assert(differ_first_at(a, c, first));
}

/// Each forbidden name comes before the next.
proof fn lemma_forbidden_next(i: int)
    requires
        0 <= i < 8,
    ensures
        comes_before(FORBIDDEN_REQUEST_HEADERS@[i]@, FORBIDDEN_REQUEST_HEADERS@[i + 1]@),
{
    reveal_strlit("connection");
    reveal_strlit("host");
    reveal_strlit("http2-settings");
    reveal_strlit("keep-alive");
    reveal_strlit("proxy-authenticate");
    reveal_strlit("proxy-authorization");
    reveal_strlit("proxy-connection");
    reveal_strlit("transfer-encoding");
    reveal_strlit("upgrade");
    assert(differ_first_at("connection"@, "host"@, 0));
    assert(differ_first_at("host"@, "http2-settings"@, 1));
    assert(differ_first_at("http2-settings"@, "keep-alive"@, 0));
    assert(differ_first_at("keep-alive"@, "proxy-authenticate"@, 0));
    assert(differ_first_at("proxy-authenticate"@, "proxy-authorization"@, 10));
    assert(differ_first_at("proxy-authorization"@, "proxy-connection"@, 6));
    assert(differ_first_at("proxy-connection"@, "transfer-encoding"@, 0));
    assert(differ_first_at("transfer-encoding"@, "upgrade"@, 0));
}

/// The list of forbidden headers is sorted.
pub proof fn law_forbidden_headers_are_sorted(i: int, j: int)
    requires
        0 <= i < j < FORBIDDEN_REQUEST_HEADERS@.len(),
    ensures
        comes_before(FORBIDDEN_REQUEST_HEADERS@[i]@, FORBIDDEN_REQUEST_HEADERS@[j]@),
    decreases j - i,
{
    lemma_forbidden_next(i);
    if i + 1 < j {
        law_forbidden_headers_are_sorted(i + 1, j);
        lemma_before_is_transitive(
            FORBIDDEN_REQUEST_HEADERS@[i]@,
            FORBIDDEN_REQUEST_HEADERS@[i + 1]@,
            FORBIDDEN_REQUEST_HEADERS@[j]@,
        );
    }
}

} // verus!
