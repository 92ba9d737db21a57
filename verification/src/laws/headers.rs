//! Laws of the headers that a guest may not set, and of those of a response that are kept.

use vstd::prelude::*;

use crate::headers;
use crate::headers::{MAX_RESPONSE_HEADER_BYTES, MAX_RESPONSE_HEADER_COUNT};
use crate::laws::shared;
use crate::outside;
use crate::table;
use crate::table::{HeaderTable, Table};

verus! {

/// The names that a guest must not set, in any mix of cases.
pub open spec fn must_not_be_set(name: Seq<char>) -> bool {
    ||| shared::spells(name, "connection"@)
    ||| shared::spells(name, "host"@)
    ||| shared::spells(name, "http2-settings"@)
    ||| shared::spells(name, "keep-alive"@)
    ||| shared::spells(name, "proxy-authenticate"@)
    ||| shared::spells(name, "proxy-authorization"@)
    ||| shared::spells(name, "proxy-connection"@)
    ||| shared::spells(name, "transfer-encoding"@)
    ||| shared::spells(name, "upgrade"@)
}

/// The names that count as forbidden are those that a guest must not set.
pub proof fn law_forbidden_names(name: Seq<char>)
    ensures
        headers::is_forbidden(name) <==> must_not_be_set(name),
{
    shared::law_folded_text(name, "connection"@);
    shared::law_folded_text(name, "host"@);
    shared::law_folded_text(name, "http2-settings"@);
    shared::law_folded_text(name, "keep-alive"@);
    shared::law_folded_text(name, "proxy-authenticate"@);
    shared::law_folded_text(name, "proxy-authorization"@);
    shared::law_folded_text(name, "proxy-connection"@);
    shared::law_folded_text(name, "transfer-encoding"@);
    shared::law_folded_text(name, "upgrade"@);
}

/// A request header is forbidden exactly where a guest must not set it.
pub proof fn law_forbidden_request_header(name: &str, forbidden: bool)
    requires
        call_ensures(headers::is_forbidden_request_header, (name,), forbidden),
    ensures
        forbidden <==> must_not_be_set(name@),
{
    law_forbidden_names(name@);
}

/// Whether a text is what a response shows of a header's value: its very bytes where they are
/// visible text, and nothing where they are not.
pub open spec fn is_shown_as(bytes: Seq<u8>, value: Seq<char>) -> bool {
    if outside::is_visible(bytes) {
        vstd::utf8::encode_utf8(value) == bytes
    } else {
        value.len() == 0
    }
}

/// Visible bytes are UTF-8.
proof fn lemma_visible_is_utf8(bytes: Seq<u8>)
    requires
        outside::is_visible(bytes),
    ensures
        vstd::utf8::valid_utf8(bytes),
{
    if bytes.len() > 0 {
        assert forall|i: int| 0 <= i < bytes.len() implies 0 <= #[trigger] bytes[i] <= 127 by {}
        assert(bytes.subrange(0, bytes.len() as int) =~= bytes);
        vstd::utf8::partial_valid_utf8_extend_ascii_block(bytes, 0, bytes.len() as int);
    }
}

/// A header shows with its own name, and with its value byte for byte where that is visible text.
pub proof fn law_shown_header(entry: (Seq<char>, Seq<u8>))
    ensures
        headers::shown(entry).0 == entry.0,
        is_shown_as(entry.1, headers::shown(entry).1),
{
    if outside::is_visible(entry.1) {
        lemma_visible_is_utf8(entry.1);
        vstd::utf8::decode_utf8_encode_utf8(entry.1);
    }
}

/// The bytes of some headers: those of each name, and those of each value that is visible text.
pub open spec fn bytes_of(entries: Seq<(Seq<char>, Seq<u8>)>) -> nat
    decreases entries.len(),
{
    if entries.len() == 0 {
        0
    } else {
        bytes_of(entries.drop_first()) + vstd::utf8::encode_utf8(entries[0].0).len()
            + if outside::is_visible(entries[0].1) {
            entries[0].1.len()
        } else {
            0
        }
    }
}

/// The names of some headers.
pub open spec fn names_in(entries: Seq<(Seq<char>, Seq<u8>)>) -> Set<Seq<char>> {
    Set::new(|name: Seq<char>| exists|i: int| 0 <= i < entries.len() && (#[trigger] entries[i]).0 == name)
}

/// Whether no header after the one at `i`, up to `n`, has its name.
pub open spec fn is_last_of_its_name(
    entries: Seq<(Seq<char>, Seq<u8>)>,
    n: int,
    i: int,
) -> bool {
    &&& 0 <= i < n
    &&& forall|j: int| i < j < n ==> (#[trigger] entries[j]).0 != entries[i].0
}

/// Whether the headers are read up to `n`: as long as fewer names than the limit have come and the
/// bytes stay within the limit, and no further.
pub open spec fn is_read_up_to(entries: Seq<(Seq<char>, Seq<u8>)>, n: int) -> bool {
    &&& 0 <= n <= entries.len()
    &&& forall|k: int|
        0 <= k < n ==> {
            &&& names_in(#[trigger] entries.take(k)).len() < MAX_RESPONSE_HEADER_COUNT
            &&& bytes_of(entries.take(k + 1)) <= MAX_RESPONSE_HEADER_BYTES
        }
    &&& n < entries.len() ==> {
        ||| names_in(entries.take(n)).len() >= MAX_RESPONSE_HEADER_COUNT
        ||| bytes_of(entries.take(n + 1)) > MAX_RESPONSE_HEADER_BYTES
    }
}

proof fn lemma_bytes_of_push(entries: Seq<(Seq<char>, Seq<u8>)>)
    requires
        entries.len() > 0,
    ensures
        bytes_of(entries) == bytes_of(entries.drop_last()) + bytes_of(seq![entries.last()]),
    decreases entries.len(),
{
    reveal_with_fuel(bytes_of, 2);
    assert(seq![entries.last()].drop_first() =~= Seq::empty());
    if entries.len() == 1 {
        assert(entries.drop_last() =~= Seq::empty());
        assert(entries =~= seq![entries.last()]);
    } else {
        let rest = entries.drop_first();
        lemma_bytes_of_push(rest);
        assert(rest.drop_last() =~= entries.drop_last().drop_first());
        assert(rest.last() == entries.last());
    }
}

/// What the names and sizes of shown headers come to.
proof fn lemma_shown(entries: Seq<(Seq<char>, Seq<u8>)>)
    ensures
        headers::total_size(headers::shown_headers(entries)) == bytes_of(entries),
        headers::latest(headers::shown_headers(entries)).dom() == names_in(entries),
        forall|i: int|
            is_last_of_its_name(entries, entries.len() as int, i)
                ==> #[trigger] headers::latest(headers::shown_headers(entries))[entries[i].0]
                == headers::shown(entries[i]).1,
    decreases entries.len(),
{
    let shown = headers::shown_headers(entries);
    if entries.len() == 0 {
        assert(headers::latest(shown).dom() =~= names_in(entries));
    } else {
        let before = entries.drop_last();
        let last = entries.last();
        lemma_shown(before);
        assert(shown.drop_last() =~= headers::shown_headers(before));
        assert(shown.last() == headers::shown(last));
        law_shown_header(last);
        lemma_bytes_of_push(entries);
        reveal_with_fuel(bytes_of, 2);
        assert(seq![last].drop_first() =~= Seq::empty());
        assert(vstd::utf8::encode_utf8(Seq::<char>::empty()).len() == 0);
        if headers::shown(last).1.len() == 0 {
            assert(headers::shown(last).1 =~= Seq::empty());
        }
        assert forall|name: Seq<char>|
            names_in(entries).contains(name) <==> names_in(before).contains(name) || name
                == last.0 by {
            if names_in(before).contains(name) {
                let i = choose|i: int| 0 <= i < before.len() && (#[trigger] before[i]).0 == name;
                assert(entries[i].0 == name);
            }
            if name == last.0 {
                assert(entries[entries.len() - 1].0 == name);
            }
            if names_in(entries).contains(name) && name != last.0 {
                let i = choose|i: int| 0 <= i < entries.len() && (#[trigger] entries[i]).0 == name;
                assert(before[i].0 == name);
            }
        }
        assert(headers::latest(shown).dom() =~= names_in(entries));
        assert forall|i: int| is_last_of_its_name(entries, entries.len() as int, i) implies (
        #[trigger] headers::latest(shown)[entries[i].0]) == headers::shown(entries[i]).1 by {
            if i < before.len() {
                assert(entries[entries.len() - 1].0 != entries[i].0);
                assert(entries[i] == before[i]);
                assert forall|j: int| i < j < before.len() implies (#[trigger] before[j]).0
                    != before[i].0 by {
                    assert(entries[j].0 != entries[i].0);
                }
                assert(is_last_of_its_name(before, before.len() as int, i));
                assert(headers::latest(headers::shown_headers(before))[before[i].0]
                    == headers::shown(before[i]).1);
            }
        }
    }
}

proof fn lemma_shown_prefix(entries: Seq<(Seq<char>, Seq<u8>)>, n: int)
    requires
        0 <= n <= entries.len(),
    ensures
        headers::shown_headers(entries).take(n) == headers::shown_headers(entries.take(n)),
{
    assert(headers::shown_headers(entries).take(n) =~= headers::shown_headers(entries.take(n)));
}

/// What is kept of a response's headers: they are read in order up to a limit, and each name that
/// was read is kept with what its last value shows as. Nothing else is kept.
pub proof fn law_kept_headers(
    raw: &http::HeaderMap,
    kept: &HeaderTable,
    key: &str,
    got: Option<&String>,
    count: usize,
)
    requires
        call_ensures(headers::cap_response_headers, (raw,), *kept),
        call_ensures(Table::<String>::get, (kept, key), got),
        call_ensures(Table::<String>::len, (kept,), count),
    ensures
        exists|n: int|
            is_kept_up_to(outside::header_entries(*raw), count as nat, key@, view_of(got), n),
{
    lemma_kept(outside::header_entries(*raw), *kept, key@, view_of(got));
}

/// The text behind an optional reference.
pub open spec fn view_of(got: Option<&String>) -> Option<Seq<char>> {
    match got {
        Some(value) => Some(value@),
        None => None,
    }
}

/// Whether a name has, among headers that are read up to `n`, what its last value shows as, and
/// nothing where none of them has it.
pub open spec fn is_kept_up_to(
    entries: Seq<(Seq<char>, Seq<u8>)>,
    count: nat,
    key: Seq<char>,
    got: Option<Seq<char>>,
    n: int,
) -> bool {
    &&& is_read_up_to(entries, n)
    &&& count == names_in(entries.take(n)).len()
    &&& forall|i: int|
        is_last_of_its_name(entries, n, i) && (#[trigger] entries[i]).0 == key ==> got is Some
            && is_shown_as(entries[i].1, got->0)
    &&& got is Some ==> exists|i: int| 0 <= i < n && (#[trigger] entries[i]).0 == key
}

/// What the contract on the headers that are kept comes to.
pub proof fn lemma_kept(
    entries: Seq<(Seq<char>, Seq<u8>)>,
    kept: HeaderTable,
    key: Seq<char>,
    got: Option<Seq<char>>,
)
    requires
        headers::is_capped(headers::shown_headers(entries), table::texts_of(kept@)),
        got is Some <==> kept@.contains_key(key),
        got is Some ==> got->0 == kept@[key]@,
    ensures
        exists|n: int| is_kept_up_to(entries, kept@.dom().len(), key, got, n),
{
    let shown = headers::shown_headers(entries);
    let texts = table::texts_of(kept@);
    let n = choose|n: int|
        #[trigger] headers::is_kept_prefix(shown, n) && texts == headers::latest(shown.take(n));
    let first = entries.take(n);
    lemma_shown_prefix(entries, n);
    lemma_shown(first);
    assert(texts.dom() =~= kept@.dom());
    assert forall|k: int| 0 <= k < n implies {
        &&& names_in(#[trigger] entries.take(k)).len() < MAX_RESPONSE_HEADER_COUNT
        &&& bytes_of(entries.take(k + 1)) <= MAX_RESPONSE_HEADER_BYTES
    } by {
        assert(headers::admits(shown, k));
        lemma_shown_prefix(entries, k);
        lemma_shown_prefix(entries, k + 1);
        lemma_shown(entries.take(k));
        lemma_shown(entries.take(k + 1));
    }
    if n < entries.len() {
        lemma_shown_prefix(entries, n + 1);
        lemma_shown(entries.take(n + 1));
    }
    assert forall|i: int| is_last_of_its_name(entries, n, i) && (#[trigger] entries[i]).0
        == key implies got is Some && is_shown_as(entries[i].1, got->0) by {
        assert(first[i] == entries[i]);
        assert forall|j: int| i < j < first.len() implies (#[trigger] first[j]).0
            != first[i].0 by {
            assert(entries[j].0 != entries[i].0);
        }
        assert(is_last_of_its_name(first, first.len() as int, i));
        assert(names_in(first).contains(key));
        law_shown_header(entries[i]);
        assert(headers::latest(headers::shown_headers(first))[first[i].0] == headers::shown(
            first[i],
        ).1);
    }
    if got is Some {
        assert(names_in(first).contains(key));
        let i = choose|i: int| 0 <= i < first.len() && (#[trigger] first[i]).0 == key;
        assert(entries[i].0 == key);
    }
    assert(is_kept_up_to(entries, kept@.dom().len(), key, got, n));
}

/// The bytes of a prefix are no more than those of the whole.
proof fn lemma_prefix_bytes(entries: Seq<(Seq<char>, Seq<u8>)>, n: int)
    requires
        0 <= n <= entries.len(),
    ensures
        bytes_of(entries.take(n)) <= bytes_of(entries),
    decreases entries.len(),
{
    if n == entries.len() {
        assert(entries.take(n) =~= entries);
    } else {
        lemma_bytes_of_push(entries);
        lemma_prefix_bytes(entries.drop_last(), n);
        assert(entries.drop_last().take(n) =~= entries.take(n));
    }
}

proof fn lemma_names_finite(entries: Seq<(Seq<char>, Seq<u8>)>)
    ensures
        names_in(entries).finite(),
        names_in(entries).len() <= entries.len(),
{
    let names = entries.map_values(|entry: (Seq<char>, Seq<u8>)| entry.0);
    assert forall|name: Seq<char>| names_in(entries).contains(name) <==> names.to_set().contains(
        name,
    ) by {
        if names_in(entries).contains(name) {
            let i = choose|i: int| 0 <= i < entries.len() && (#[trigger] entries[i]).0 == name;
            assert(names[i] == name);
        }
        if names.contains(name) {
            let i = choose|i: int| 0 <= i < names.len() && names[i] == name;
            assert(entries[i].0 == name);
        }
    }
    assert(names_in(entries) =~= names.to_set());
    names.lemma_cardinality_of_set();
}

/// Of a response within the limits every header counts: a name is kept where some header has it,
/// with the very bytes of its last value where they are visible text, and empty where they are
/// not.
pub proof fn law_response_within_limits(
    raw: &http::HeaderMap,
    kept: &HeaderTable,
    key: &str,
    got: Option<&String>,
    i: int,
)
    requires
        call_ensures(headers::cap_response_headers, (raw,), *kept),
        call_ensures(Table::<String>::get, (kept, key), got),
        outside::header_entries(*raw).len() <= MAX_RESPONSE_HEADER_COUNT,
        bytes_of(outside::header_entries(*raw)) <= MAX_RESPONSE_HEADER_BYTES,
    ensures
        got is Some <==> names_in(outside::header_entries(*raw)).contains(key@),
        is_last_of_its_name(
            outside::header_entries(*raw),
            outside::header_entries(*raw).len() as int,
            i,
        ) && outside::header_entries(*raw)[i].0 == key@ ==> got is Some && is_shown_as(
            outside::header_entries(*raw)[i].1,
            got->0@,
        ),
{
    let entries = outside::header_entries(*raw);
    lemma_kept(entries, *kept, key@, view_of(got));
    let n = choose|n: int| is_kept_up_to(entries, kept@.dom().len(), key@, view_of(got), n);
    if n < entries.len() {
        lemma_names_finite(entries.take(n));
        lemma_prefix_bytes(entries, n + 1);
    }
    assert(n == entries.len());
    if names_in(entries).contains(key@) {
        lemma_last_exists(entries, entries.len() as int, key@);
    }
}

/// Some header is the last of its name.
proof fn lemma_last_exists(entries: Seq<(Seq<char>, Seq<u8>)>, n: int, name: Seq<char>)
    requires
        0 <= n <= entries.len(),
        exists|i: int| 0 <= i < n && (#[trigger] entries[i]).0 == name,
    ensures
        exists|i: int| is_last_of_its_name(entries, n, i) && (#[trigger] entries[i]).0 == name,
    decreases n,
{
    if entries[n - 1].0 == name {
        assert(is_last_of_its_name(entries, n, n - 1));
    } else {
        lemma_last_exists(entries, n - 1, name);
        let i = choose|i: int|
            is_last_of_its_name(entries, n - 1, i) && (#[trigger] entries[i]).0 == name;
        assert(is_last_of_its_name(entries, n, i));
    }
}

} // verus!
