//! Header maps: the `http` crate's `HeaderMap`, described by the ordered
//! entries it holds, and the header operations of the client built on it.

use vstd::prelude::*;

use http::header::{InvalidHeaderName, InvalidHeaderValue, ToStrError};
use http::{HeaderMap, HeaderName, HeaderValue};
use vstd::utf8::encode_utf8;

verus! {

#[verifier::external_type_specification]
#[verifier::external_body]
#[verifier::reject_recursive_types(T)]
pub struct ExHeaderMap<T>(HeaderMap<T>);

#[verifier::external_type_specification]
#[verifier::external_body]
pub struct ExHeaderName(HeaderName);

#[verifier::external_type_specification]
#[verifier::external_body]
pub struct ExHeaderValue(HeaderValue);

#[verifier::external_type_specification]
#[verifier::external_body]
pub struct ExInvalidHeaderName(InvalidHeaderName);

#[verifier::external_type_specification]
#[verifier::external_body]
pub struct ExInvalidHeaderValue(InvalidHeaderValue);

#[verifier::external_type_specification]
#[verifier::external_body]
pub struct ExToStrError(ToStrError);

/// The entries of a header map, in the order the map keeps them: each
/// distinct name (in its lower-case form) with the values stored under it,
/// oldest first.
pub uninterp spec fn header_map_entries(m: HeaderMap) -> Seq<(Seq<char>, Seq<Seq<u8>>)>;

/// The text of a header name.
pub uninterp spec fn header_name_chars(n: HeaderName) -> Seq<char>;

/// The bytes of a header value.
pub uninterp spec fn header_value_bytes(v: HeaderValue) -> Seq<u8>;

/// Number of distinct names below which inserting into a header map cannot
/// exceed the map's maximum size. A map whose probing turns long grows by
/// doubling as soon as it holds a fifth of its 32768 slots, and that
/// doubling is refused at full size: so from 6554 names on an insertion may
/// panic, while below that bound it never does.
pub const HEADER_MAP_SAFE_LEN: usize = 6554;

// ---------------------------------------------------------------------------
// Byte-level rules for names and values
// ---------------------------------------------------------------------------

/// The character a byte stands for in a header name, if it may occur there:
/// the token characters of RFC 9110, upper-case letters folded to lower case.
pub open spec fn name_char(b: u8) -> Option<char> {
    if 65 <= b <= 90 {
        Some(((b + 32) as u8) as char)
    } else if (97 <= b <= 122) || (48 <= b <= 57) || b == 33 || (35 <= b <= 39) || b == 42
        || b == 43 || b == 45 || b == 46 || (94 <= b <= 96) || b == 124 || b == 126 {
        Some(b as char)
    } else {
        None
    }
}

/// Whether the bytes form a valid header name.
pub open spec fn is_header_name(b: Seq<u8>) -> bool {
    &&& 1 <= b.len() <= 65535
    &&& forall|i: int| 0 <= i < b.len() ==> (#[trigger] name_char(b[i])) is Some
}

/// The lower-case text of a valid header name.
pub open spec fn canonical_name(b: Seq<u8>) -> Seq<char> {
    Seq::new(b.len(), |i: int| name_char(b[i]).unwrap())
}

/// Whether a byte may occur in a header value.
pub open spec fn is_value_byte(b: u8) -> bool {
    (b >= 32 && b != 127) || b == 9
}

/// Whether the bytes form a valid header value.
pub open spec fn is_header_value(b: Seq<u8>) -> bool {
    forall|i: int| 0 <= i < b.len() ==> is_value_byte(#[trigger] b[i])
}

/// Whether a byte is visible ASCII (or a tab).
pub open spec fn is_visible_byte(b: u8) -> bool {
    (32 <= b && b < 127) || b == 9
}

/// Whether a header value is visible ASCII text throughout.
pub open spec fn is_visible_text(b: Seq<u8>) -> bool {
    forall|i: int| 0 <= i < b.len() ==> is_visible_byte(#[trigger] b[i])
}

/// ASCII bytes read as characters.
pub open spec fn ascii_chars(b: Seq<u8>) -> Seq<char> {
    Seq::new(b.len(), |i: int| b[i] as char)
}

// ---------------------------------------------------------------------------
// The model of a header map
// ---------------------------------------------------------------------------

/// The first value stored under `n`, if any.
pub open spec fn entries_get(es: Seq<(Seq<char>, Seq<Seq<u8>>)>, n: Seq<char>) -> Option<Seq<u8>>
    decreases es.len(),
{
    if es.len() == 0 {
        None
    } else if es[0].0 == n && es[0].1.len() > 0 {
        Some(es[0].1[0])
    } else {
        entries_get(es.drop_first(), n)
    }
}

/// Inserting `v` under `n`: the first entry named `n` keeps its place and
/// holds `v` alone; without such an entry a new one is appended.
pub open spec fn map_insert(es: Seq<(Seq<char>, Seq<Seq<u8>>)>, n: Seq<char>, v: Seq<u8>) -> Seq<
    (Seq<char>, Seq<Seq<u8>>),
>
    decreases es.len(),
{
    if es.len() == 0 {
        seq![(n, seq![v])]
    } else if es[0].0 == n {
        es.update(0, (n, seq![v]))
    } else {
        seq![es[0]] + map_insert(es.drop_first(), n, v)
    }
}

/// Inserting each pair in turn, first to last.
pub open spec fn insert_all(
    es: Seq<(Seq<char>, Seq<Seq<u8>>)>,
    pairs: Seq<(Seq<char>, Seq<u8>)>,
) -> Seq<(Seq<char>, Seq<Seq<u8>>)>
    decreases pairs.len(),
{
    if pairs.len() == 0 {
        es
    } else {
        map_insert(insert_all(es, pairs.drop_last()), pairs.last().0, pairs.last().1)
    }
}

/// The value of the last pair named `n`, if any.
pub open spec fn last_value(pairs: Seq<(Seq<char>, Seq<u8>)>, n: Seq<char>) -> Option<Seq<u8>>
    decreases pairs.len(),
{
    if pairs.len() == 0 {
        None
    } else if pairs.last().0 == n {
        Some(pairs.last().1)
    } else {
        last_value(pairs.drop_last(), n)
    }
}

/// The (name, value) pairs of the entries, in the map's iteration order.
pub open spec fn flatten(es: Seq<(Seq<char>, Seq<Seq<u8>>)>) -> Seq<(Seq<char>, Seq<u8>)>
    decreases es.len(),
{
    if es.len() == 0 {
        seq![]
    } else {
        Seq::new(es[0].1.len(), |i: int| (es[0].0, es[0].1[i])) + flatten(es.drop_first())
    }
}

/// The pairs whose value is visible ASCII text, in order.
pub open spec fn visible_pairs(ps: Seq<(Seq<char>, Seq<u8>)>) -> Seq<(Seq<char>, Seq<u8>)>
    decreases ps.len(),
{
    if ps.len() == 0 {
        seq![]
    } else if is_visible_text(ps.last().1) {
        visible_pairs(ps.drop_last()).push(ps.last())
    } else {
        visible_pairs(ps.drop_last())
    }
}

/// Names are distinct and every name holds at least one value.
pub open spec fn entries_wf(es: Seq<(Seq<char>, Seq<Seq<u8>>)>) -> bool {
    &&& forall|i: int, j: int| 0 <= i < j < es.len() ==> #[trigger] es[i].0 != #[trigger] es[j].0
    &&& forall|i: int| 0 <= i < es.len() ==> (#[trigger] es[i]).1.len() > 0
}

/// Pairs built from raw (name, value) fields: names in their lower-case form.
pub open spec fn canonical_fields(fields: Seq<(Seq<char>, Seq<u8>)>) -> Seq<(Seq<char>, Seq<u8>)> {
    Seq::new(fields.len(), |i: int| (canonical_name(encode_utf8(fields[i].0)), fields[i].1))
}

/// Raw fields that are all valid header names and values.
pub open spec fn fields_valid(fields: Seq<(Seq<char>, Seq<u8>)>) -> bool {
    forall|i: int|
        0 <= i < fields.len() ==> is_header_name(encode_utf8((#[trigger] fields[i]).0))
            && is_header_value(fields[i].1)
}

// ---------------------------------------------------------------------------
// Laws of the model
// ---------------------------------------------------------------------------

/// After inserting `v` under `n`, `n` reads back `v` and every other name
/// reads what it read before.
pub proof fn lemma_get_after_insert(
    es: Seq<(Seq<char>, Seq<Seq<u8>>)>,
    n: Seq<char>,
    v: Seq<u8>,
    other: Seq<char>,
)
    ensures
        entries_get(map_insert(es, n, v), n) == Some(v),
        other != n ==> entries_get(map_insert(es, n, v), other) == entries_get(es, other),
    decreases es.len(),
{
    if es.len() == 0 {
        let r = map_insert(es, n, v);
        assert(r.drop_first() =~= Seq::<(Seq<char>, Seq<Seq<u8>>)>::empty());
        assert(entries_get(r.drop_first(), other) == None::<Seq<u8>>);
    } else if es[0].0 == n {
        let r = map_insert(es, n, v);
        assert(r.drop_first() =~= es.drop_first());
    } else {
        lemma_get_after_insert(es.drop_first(), n, v, other);
        let r = map_insert(es, n, v);
        assert(r.drop_first() =~= map_insert(es.drop_first(), n, v));
    }
}

/// Inserting adds at most one entry.
pub proof fn lemma_insert_len(es: Seq<(Seq<char>, Seq<Seq<u8>>)>, n: Seq<char>, v: Seq<u8>)
    ensures
        es.len() <= map_insert(es, n, v).len() <= es.len() + 1,
    decreases es.len(),
{
    if es.len() > 0 && es[0].0 != n {
        lemma_insert_len(es.drop_first(), n, v);
    }
}

/// The names after an insertion are the names before it and the inserted one.
pub proof fn lemma_insert_names(es: Seq<(Seq<char>, Seq<Seq<u8>>)>, n: Seq<char>, v: Seq<u8>)
    ensures
        forall|i: int|
            0 <= i < map_insert(es, n, v).len() ==> #[trigger] map_insert(es, n, v)[i].0 == n
                || exists|j: int| 0 <= j < es.len() && es[j].0 == map_insert(es, n, v)[i].0,
        forall|j: int|
            0 <= j < es.len() ==> exists|i: int|
                0 <= i < map_insert(es, n, v).len() && map_insert(es, n, v)[i].0 == (
                #[trigger] es[j]).0,
        exists|i: int| 0 <= i < map_insert(es, n, v).len() && map_insert(es, n, v)[i].0 == n,
    decreases es.len(),
{
    let r = map_insert(es, n, v);
    if es.len() == 0 {
        assert(r[0].0 == n);
    } else if es[0].0 == n {
        assert(r[0].0 == n);
        assert forall|i: int| 0 <= i < r.len() implies #[trigger] r[i].0 == n || exists|j: int|
            0 <= j < es.len() && es[j].0 == r[i].0 by {
            if i > 0 {
                assert(es[i].0 == r[i].0);
            }
        }
        assert forall|j: int| 0 <= j < es.len() implies exists|i: int|
            0 <= i < r.len() && r[i].0 == (#[trigger] es[j]).0 by {
            assert(r[j].0 == es[j].0);
        }
    } else {
        let t = es.drop_first();
        lemma_insert_names(t, n, v);
        let rt = map_insert(t, n, v);
        assert(r =~= seq![es[0]] + rt);
        assert forall|i: int| 0 <= i < r.len() implies #[trigger] r[i].0 == n || exists|j: int|
            0 <= j < es.len() && es[j].0 == r[i].0 by {
            if i == 0 {
                assert(es[0].0 == r[0].0);
            } else {
                assert(r[i] == rt[i - 1]);
                if rt[i - 1].0 != n {
                    let j = choose|j: int| 0 <= j < t.len() && t[j].0 == rt[i - 1].0;
                    assert(es[j + 1].0 == r[i].0);
                }
            }
        }
        assert forall|j: int| 0 <= j < es.len() implies exists|i: int|
            0 <= i < r.len() && r[i].0 == (#[trigger] es[j]).0 by {
            if j == 0 {
                assert(r[0].0 == es[0].0);
            } else {
                assert(t[j - 1] == es[j]);
                let i = choose|i: int| 0 <= i < rt.len() && rt[i].0 == (t[j - 1]).0;
                assert(r[i + 1] == rt[i]);
            }
        }
        let i = choose|i: int| 0 <= i < rt.len() && rt[i].0 == n;
        assert(r[i + 1] == rt[i]);
    }
}

/// Inserting keeps names distinct and every name with a value.
pub proof fn lemma_insert_wf(es: Seq<(Seq<char>, Seq<Seq<u8>>)>, n: Seq<char>, v: Seq<u8>)
    requires
        entries_wf(es),
    ensures
        entries_wf(map_insert(es, n, v)),
    decreases es.len(),
{
    let r = map_insert(es, n, v);
    if es.len() == 0 {
    } else if es[0].0 == n {
        assert forall|i: int, j: int| 0 <= i < j < r.len() implies #[trigger] r[i].0
            != #[trigger] r[j].0 by {
            assert(es[i].0 != es[j].0);
        }
        assert forall|i: int| 0 <= i < r.len() implies (#[trigger] r[i]).1.len() > 0 by {
            if i > 0 {
                assert(r[i] == es[i]);
            }
        }
    } else {
        let t = es.drop_first();
        assert(entries_wf(t)) by {
            assert forall|i: int, j: int| 0 <= i < j < t.len() implies #[trigger] t[i].0
                != #[trigger] t[j].0 by {
                assert(es[i + 1].0 != es[j + 1].0);
            }
            assert forall|i: int| 0 <= i < t.len() implies (#[trigger] t[i]).1.len() > 0 by {
                assert(t[i] == es[i + 1]);
            }
        }
        lemma_insert_wf(t, n, v);
        lemma_insert_names(t, n, v);
        let rt = map_insert(t, n, v);
        assert(r =~= seq![es[0]] + rt);
        assert forall|i: int, j: int| 0 <= i < j < r.len() implies #[trigger] r[i].0
            != #[trigger] r[j].0 by {
            if i == 0 {
                assert(r[j] == rt[j - 1]);
                if rt[j - 1].0 != n {
                    let k = choose|k: int| 0 <= k < t.len() && t[k].0 == rt[j - 1].0;
                    assert(es[0].0 != es[k + 1].0);
                }
            } else {
                assert(r[i] == rt[i - 1]);
                assert(r[j] == rt[j - 1]);
            }
        }
        assert forall|i: int| 0 <= i < r.len() implies (#[trigger] r[i]).1.len() > 0 by {
            if i > 0 {
                assert(r[i] == rt[i - 1]);
            }
        }
    }
}

/// After inserting all pairs, each name reads the value of the last pair
/// with that name, and names no pair carries read what they read before.
pub proof fn lemma_get_after_insert_all(
    es: Seq<(Seq<char>, Seq<Seq<u8>>)>,
    pairs: Seq<(Seq<char>, Seq<u8>)>,
    n: Seq<char>,
)
    ensures
        entries_get(insert_all(es, pairs), n) == match last_value(pairs, n) {
            Some(v) => Some(v),
            None => entries_get(es, n),
        },
    decreases pairs.len(),
{
    if pairs.len() > 0 {
        lemma_get_after_insert_all(es, pairs.drop_last(), n);
        lemma_get_after_insert(insert_all(es, pairs.drop_last()), pairs.last().0, pairs.last().1, n);
    }
}

/// Inserting all pairs adds at most one entry per pair.
pub proof fn lemma_insert_all_len(
    es: Seq<(Seq<char>, Seq<Seq<u8>>)>,
    pairs: Seq<(Seq<char>, Seq<u8>)>,
)
    ensures
        insert_all(es, pairs).len() <= es.len() + pairs.len(),
    decreases pairs.len(),
{
    if pairs.len() > 0 {
        lemma_insert_all_len(es, pairs.drop_last());
        lemma_insert_len(insert_all(es, pairs.drop_last()), pairs.last().0, pairs.last().1);
    }
}

/// Inserting pairs never removes a name: the map after a prefix of the
/// pairs has no more entries than the map after all of them.
pub proof fn lemma_insert_all_prefix_len(
    es: Seq<(Seq<char>, Seq<Seq<u8>>)>,
    pairs: Seq<(Seq<char>, Seq<u8>)>,
    i: int,
)
    requires
        0 <= i <= pairs.len(),
    ensures
        insert_all(es, pairs.take(i)).len() <= insert_all(es, pairs).len(),
    decreases pairs.len(),
{
    if i == pairs.len() {
        assert(pairs.take(i) =~= pairs);
    } else {
        let init = pairs.drop_last();
        assert(init.take(i) =~= pairs.take(i));
        lemma_insert_all_prefix_len(es, init, i);
        lemma_insert_len(insert_all(es, init), pairs.last().0, pairs.last().1);
    }
}

/// Inserting all pairs keeps names distinct and every name with a value.
pub proof fn lemma_insert_all_wf(
    es: Seq<(Seq<char>, Seq<Seq<u8>>)>,
    pairs: Seq<(Seq<char>, Seq<u8>)>,
)
    requires
        entries_wf(es),
    ensures
        entries_wf(insert_all(es, pairs)),
    decreases pairs.len(),
{
    if pairs.len() > 0 {
        lemma_insert_all_wf(es, pairs.drop_last());
        lemma_insert_wf(insert_all(es, pairs.drop_last()), pairs.last().0, pairs.last().1);
    }
}

/// Turning fields into a header map keeps, for each name, the value of the
/// last field with that name; names no field has are absent.
pub proof fn law_fields_last_value_wins(fields: Seq<(Seq<char>, Seq<u8>)>, n: Seq<char>)
    ensures
        entries_get(insert_all(Seq::empty(), canonical_fields(fields)), n) == last_value(
            canonical_fields(fields),
            n,
        ),
{
    lemma_get_after_insert_all(Seq::empty(), canonical_fields(fields), n);
}

/// Only pairs with visible values are kept, each one of the given pairs,
/// and every given pair with a visible value is kept.
pub proof fn law_visible_pairs(ps: Seq<(Seq<char>, Seq<u8>)>)
    ensures
        forall|i: int|
            0 <= i < visible_pairs(ps).len() ==> is_visible_text(
                (#[trigger] visible_pairs(ps)[i]).1,
            ) && ps.contains(visible_pairs(ps)[i]),
        forall|j: int|
            0 <= j < ps.len() && is_visible_text((#[trigger] ps[j]).1) ==> visible_pairs(
                ps,
            ).contains(ps[j]),
    decreases ps.len(),
{
    if ps.len() > 0 {
        let init = ps.drop_last();
        law_visible_pairs(init);
        let v = visible_pairs(ps);
        let vi = visible_pairs(init);
        assert forall|i: int| 0 <= i < v.len() implies is_visible_text((#[trigger] v[i]).1)
            && ps.contains(v[i]) by {
            if i < vi.len() {
                assert(v[i] == vi[i]);
                let k = choose|k: int| 0 <= k < init.len() && init[k] == vi[i];
                assert(ps[k] == init[k]);
            } else {
                assert(v[i] == ps.last());
                assert(ps[ps.len() - 1] == ps.last());
            }
        }
        assert forall|j: int| 0 <= j < ps.len() && is_visible_text((#[trigger] ps[j]).1)
            implies v.contains(ps[j]) by {
            if j < ps.len() - 1 {
                assert(init[j] == ps[j]);
                let k = choose|k: int| 0 <= k < vi.len() && vi[k] == init[j];
                assert(v[k] == vi[k]);
            } else {
                assert(v[v.len() - 1] == ps[j]);
            }
        }
    }
}

/// Keeping the visible pairs keeps their order: the visible pairs of two
/// runs of pairs one after the other are those of the first run followed by
/// those of the second; a run whose values are all visible is kept whole,
/// and one with none visible is dropped whole.
pub proof fn law_visible_pairs_order(ps: Seq<(Seq<char>, Seq<u8>)>, qs: Seq<(Seq<char>, Seq<u8>)>)
    ensures
        visible_pairs(ps + qs) == visible_pairs(ps) + visible_pairs(qs),
        (forall|i: int| 0 <= i < qs.len() ==> is_visible_text(#[trigger] qs[i].1))
            ==> visible_pairs(qs) == qs,
        (forall|i: int| 0 <= i < qs.len() ==> !is_visible_text(#[trigger] qs[i].1))
            ==> visible_pairs(qs).len() == 0,
    decreases qs.len(),
{
    if qs.len() == 0 {
        assert(ps + qs =~= ps);
        assert(visible_pairs(ps) + visible_pairs(qs) =~= visible_pairs(ps));
    } else {
        let init = qs.drop_last();
        law_visible_pairs_order(ps, init);
        assert((ps + qs).drop_last() =~= ps + init);
        assert((ps + qs).last() == qs.last());
        if is_visible_text(qs.last().1) {
            assert(visible_pairs(ps) + visible_pairs(init).push(qs.last()) =~= (visible_pairs(ps)
                + visible_pairs(init)).push(qs.last()));
        }
        if forall|i: int| 0 <= i < qs.len() ==> is_visible_text(#[trigger] qs[i].1) {
            assert forall|i: int| 0 <= i < init.len() implies is_visible_text(#[trigger] init[i].1) by {
                assert(init[i] == qs[i]);
            }
            assert(qs.last() == qs[qs.len() - 1]);
            assert(init.push(qs.last()) =~= qs);
        }
        if forall|i: int| 0 <= i < qs.len() ==> !is_visible_text(#[trigger] qs[i].1) {
            assert forall|i: int| 0 <= i < init.len() implies !is_visible_text(#[trigger] init[i].1) by {
                assert(init[i] == qs[i]);
            }
            assert(qs.last() == qs[qs.len() - 1]);
        }
    }
}

/// The last value of a name is the value of the last pair with that name:
/// such a pair exists and no later pair has the name; a name no pair has has
/// no last value.
pub proof fn law_last_value(pairs: Seq<(Seq<char>, Seq<u8>)>, n: Seq<char>)
    ensures
        last_value(pairs, n) matches Some(v) ==> exists|i: int|
            0 <= i < pairs.len() && #[trigger] pairs[i] == (n, v) && forall|j: int|
                i < j < pairs.len() ==> (#[trigger] pairs[j]).0 != n,
        last_value(pairs, n) is None ==> forall|i: int|
            0 <= i < pairs.len() ==> (#[trigger] pairs[i]).0 != n,
    decreases pairs.len(),
{
    if pairs.len() > 0 {
        let init = pairs.drop_last();
        law_last_value(init, n);
        let k = pairs.len() - 1;
        if pairs.last().0 == n {
            assert(pairs[k] == pairs.last());
            assert(pairs[k] == (n, pairs.last().1));
        } else {
            if let Some(v) = last_value(init, n) {
                let i = choose|i: int|
                    0 <= i < init.len() && #[trigger] init[i] == (n, v) && forall|j: int|
                        i < j < init.len() ==> (#[trigger] init[j]).0 != n;
                assert(pairs[i] == init[i]);
                assert forall|j: int| i < j < pairs.len() implies (#[trigger] pairs[j]).0 != n by {
                    if j < k {
                        assert(pairs[j] == init[j]);
                    }
                }
            } else {
                assert forall|i: int| 0 <= i < pairs.len() implies (#[trigger] pairs[i]).0 != n by {
                    if i < k {
                        assert(pairs[i] == init[i]);
                    }
                }
            }
        }
    }
}

proof fn lemma_insert_all_step(
    es: Seq<(Seq<char>, Seq<Seq<u8>>)>,
    pairs: Seq<(Seq<char>, Seq<u8>)>,
    i: int,
)
    requires
        0 <= i < pairs.len(),
    ensures
        insert_all(es, pairs.take(i + 1)) == map_insert(
            insert_all(es, pairs.take(i)),
            pairs[i].0,
            pairs[i].1,
        ),
{
    assert(pairs.take(i + 1).drop_last() =~= pairs.take(i));
}

proof fn lemma_visible_step(ps: Seq<(Seq<char>, Seq<u8>)>, i: int)
    requires
        0 <= i < ps.len(),
    ensures
        visible_pairs(ps.take(i + 1)) == if is_visible_text(ps[i].1) {
            visible_pairs(ps.take(i)).push(ps[i])
        } else {
            visible_pairs(ps.take(i))
        },
{
    assert(ps.take(i + 1).drop_last() =~= ps.take(i));
}

// ---------------------------------------------------------------------------
// Calls into the `http` crate, with the contracts they are taken to meet
// ---------------------------------------------------------------------------

/// `HeaderMap::new`: an empty map.
#[verifier::external_body]
pub(crate) fn header_map_new() -> (m: HeaderMap)
    ensures
        header_map_entries(m) == Seq::<(Seq<char>, Seq<Seq<u8>>)>::empty(),
{
    HeaderMap::new()
}

/// `HeaderMap::with_capacity`: an empty map; it panics above 24576 entries.
#[verifier::external_body]
pub(crate) fn header_map_with_capacity(capacity: usize) -> (m: HeaderMap)
    requires
        capacity <= 24576,
    ensures
        header_map_entries(m) == Seq::<(Seq<char>, Seq<Seq<u8>>)>::empty(),
{
    HeaderMap::with_capacity(capacity)
}

/// `HeaderMap::insert`: the first entry with the name keeps its place and
/// holds the value alone, or a new entry is appended. It panics when the map
/// outgrows its maximum size, which cannot happen below
/// `HEADER_MAP_SAFE_LEN` entries.
#[verifier::external_body]
pub(crate) fn header_map_insert(m: &mut HeaderMap, name: HeaderName, value: HeaderValue)
    requires
        header_map_entries(*old(m)).len() < HEADER_MAP_SAFE_LEN,
    ensures
        header_map_entries(*final(m)) == map_insert(
            header_map_entries(*old(m)),
            header_name_chars(name),
            header_value_bytes(value),
        ),
{
    m.insert(name, value);
}

/// `HeaderMap::get`: the first value stored under the name.
#[verifier::external_body]
pub(crate) fn header_map_get<'a>(m: &'a HeaderMap, name: &HeaderName) -> (r: Option<&'a HeaderValue>)
    ensures
        r is Some <==> entries_get(header_map_entries(*m), header_name_chars(*name)) is Some,
        r matches Some(v) ==> header_value_bytes(*v) == entries_get(
            header_map_entries(*m),
            header_name_chars(*name),
        ).unwrap(),
{
    m.get(name)
}

/// `HeaderMap::iter`: every (name, value) pair, entry by entry and, within
/// an entry, oldest value first; each handed out as an owned copy.
#[verifier::external_body]
pub(crate) fn header_map_pairs(m: &HeaderMap) -> (r: Vec<(HeaderName, HeaderValue)>)
    ensures
        r@.len() == flatten(header_map_entries(*m)).len(),
        forall|i: int|
            0 <= i < r@.len() ==> (header_name_chars((#[trigger] r@[i]).0), header_value_bytes(
                r@[i].1,
            )) == flatten(header_map_entries(*m))[i],
{
    m.iter().map(|(k, v)| (k.clone(), v.clone())).collect()
}

/// `HeaderMap::keys_len`: the number of distinct names in the map.
#[verifier::external_body]
pub(crate) fn header_map_keys_len(m: &HeaderMap) -> (r: usize)
    ensures
        r == header_map_entries(*m).len(),
{
    m.keys_len()
}

/// `HeaderMap::len`: the number of values in the map, over all names.
#[verifier::external_body]
pub(crate) fn header_map_len(m: &HeaderMap) -> (r: usize)
    ensures
        r == flatten(header_map_entries(*m)).len(),
{
    m.len()
}

/// `HeaderName::from_bytes`: accepts one to 65535 token characters and
/// folds upper-case letters to lower case.
#[verifier::external_body]
pub(crate) fn header_name_from_bytes(b: &[u8]) -> (r: Result<HeaderName, InvalidHeaderName>)
    ensures
        r is Ok <==> is_header_name(b@),
        r matches Ok(n) ==> header_name_chars(n) == canonical_name(b@),
{
    HeaderName::from_bytes(b)
}

/// `HeaderName::as_str`: the text of the name.
#[verifier::external_body]
pub(crate) fn header_name_as_str(n: &HeaderName) -> (r: &str)
    ensures
        r@ == header_name_chars(*n),
{
    n.as_str()
}

/// `HeaderValue::from_bytes`: accepts bytes that are all allowed in a value.
#[verifier::external_body]
pub(crate) fn header_value_from_bytes(b: &[u8]) -> (r: Result<HeaderValue, InvalidHeaderValue>)
    ensures
        r is Ok <==> is_header_value(b@),
        r matches Ok(v) ==> header_value_bytes(v) == b@,
{
    HeaderValue::from_bytes(b)
}

/// `HeaderValue::from_str`: accepts text whose UTF-8 bytes are all allowed in
/// a value.
#[verifier::external_body]
pub(crate) fn header_value_from_str(s: &str) -> (r: Result<HeaderValue, InvalidHeaderValue>)
    ensures
        r is Ok <==> is_header_value(encode_utf8(s@)),
        r matches Ok(v) ==> header_value_bytes(v) == encode_utf8(s@),
{
    HeaderValue::from_str(s)
}

/// `HeaderValue::from_static`: a value holding the bytes of the text, which
/// must be visible ASCII (it panics otherwise).
#[verifier::external_body]
pub(crate) fn header_value_from_static(s: &'static str) -> (v: HeaderValue)
    requires
        is_visible_text(encode_utf8(s@)),
    ensures
        header_value_bytes(v) == encode_utf8(s@),
{
    HeaderValue::from_static(s)
}

/// `HeaderValue::to_str`: the value as text when it is visible ASCII.
#[verifier::external_body]
pub(crate) fn header_value_to_str(v: &HeaderValue) -> (r: Result<&str, ToStrError>)
    ensures
        r is Ok <==> is_visible_text(header_value_bytes(*v)),
        r matches Ok(s) ==> s@ == ascii_chars(header_value_bytes(*v)),
{
    v.to_str()
}

/// `HeaderValue::as_bytes`: the bytes of the value.
#[verifier::external_body]
pub(crate) fn header_value_as_bytes(v: &HeaderValue) -> (r: &[u8])
    ensures
        r@ == header_value_bytes(*v),
{
    v.as_bytes()
}

/// `http::header::ACCEPT`.
#[verifier::external_body]
pub(crate) fn accept_name() -> (n: HeaderName)
    ensures
        header_name_chars(n) == "accept"@,
{
    http::header::ACCEPT
}

/// `http::header::USER_AGENT`.
#[verifier::external_body]
pub(crate) fn user_agent_name() -> (n: HeaderName)
    ensures
        header_name_chars(n) == "user-agent"@,
{
    http::header::USER_AGENT
}

/// `http::header::CONTENT_LENGTH`.
#[verifier::external_body]
pub(crate) fn content_length_name() -> (n: HeaderName)
    ensures
        header_name_chars(n) == "content-length"@,
{
    http::header::CONTENT_LENGTH
}

/// `http::header::CONTENT_TYPE`.
#[verifier::external_body]
pub(crate) fn content_type_name() -> (n: HeaderName)
    ensures
        header_name_chars(n) == "content-type"@,
{
    http::header::CONTENT_TYPE
}

// ---------------------------------------------------------------------------
// Verified header operations
// ---------------------------------------------------------------------------

/// Inserts every pair of `from` into `into`, in `from`'s iteration order: a
/// later pair for a name replaces what an earlier one, or `into`, held.
pub fn insert_every(into: &mut HeaderMap, from: &HeaderMap)
    requires
        insert_all(header_map_entries(*old(into)), flatten(header_map_entries(*from))).len()
            < HEADER_MAP_SAFE_LEN,
    ensures
        header_map_entries(*final(into)) == insert_all(
            header_map_entries(*old(into)),
            flatten(header_map_entries(*from)),
        ),
{
    let pairs = header_map_pairs(from);
    let ghost start = header_map_entries(*into);
    let ghost ps = flatten(header_map_entries(*from));
    let mut pairs = pairs;
    let mut rest: Vec<(HeaderName, HeaderValue)> = Vec::new();
    // Reverse so that popping yields the pairs first to last.
    let n = pairs.len();
    let ghost orig = pairs@;
    while pairs.len() > 0
        invariant
            orig.len() == n,
            n == ps.len(),
            pairs@.len() + rest@.len() == n,
            forall|k: int| 0 <= k < pairs@.len() ==> #[trigger] pairs@[k] == orig[k],
            forall|k: int|
                0 <= k < rest@.len() ==> #[trigger] rest@[k] == orig[n - 1 - k],
        decreases pairs.len(),
    {
        let p = pairs.pop().unwrap();
        rest.push(p);
    }
    let mut i: usize = 0;
    while rest.len() > 0
        invariant
            0 <= i <= n,
            rest@.len() + i == n,
            n == ps.len(),
            forall|k: int| 0 <= k < rest@.len() ==> #[trigger] rest@[k] == orig[n - 1 - k],
            forall|k: int|
                0 <= k < n ==> (header_name_chars((#[trigger] orig[k]).0), header_value_bytes(
                    orig[k].1,
                )) == ps[k],
            header_map_entries(*into) == insert_all(start, ps.take(i as int)),
            insert_all(start, ps).len() < HEADER_MAP_SAFE_LEN,
        decreases rest.len(),
    {
        let (name, value) = rest.pop().unwrap();
        proof {
            lemma_insert_all_prefix_len(start, ps, i as int);
            lemma_insert_all_step(start, ps, i as int);
        }
        header_map_insert(into, name, value);
        i = i + 1;
    }
    assert(ps.take(n as int) =~= ps);
}

/// The pairs of `m` whose value is visible ASCII text, as (name, bytes),
/// in `m`'s iteration order; other values are left out.
pub fn visible_header_pairs(m: &HeaderMap, out: &mut Vec<(String, Vec<u8>)>)
    ensures
        final(out).deep_view() == old(out).deep_view() + visible_pairs(
            flatten(header_map_entries(*m)),
        ),
{
    let pairs = header_map_pairs(m);
    let ghost ps = flatten(header_map_entries(*m));
    let ghost start = out.deep_view();
    let mut i: usize = 0;
    while i < pairs.len()
        invariant
            0 <= i <= pairs@.len(),
            pairs@.len() == ps.len(),
            forall|k: int|
                0 <= k < pairs@.len() ==> (header_name_chars((#[trigger] pairs@[k]).0),
                header_value_bytes(pairs@[k].1)) == ps[k],
            out.deep_view() == start + visible_pairs(ps.take(i as int)),
        decreases pairs.len() - i,
    {
        let (name, value) = &pairs[i];
        proof {
            lemma_visible_step(ps, i as int);
        }
        match header_value_to_str(value) {
            Ok(_) => {
                let n = header_name_as_str(name).to_owned();
                let v = vstd::slice::slice_to_vec(header_value_as_bytes(value));
                let ghost before = out.deep_view();
                assert(v.deep_view() =~= v@);
                out.push((n, v));
                assert(out.deep_view() =~= before.push((n@, v@)));
            },
            Err(_) => {},
        }
        i = i + 1;
    }
    assert(ps.take(pairs@.len() as int) =~= ps);
}

/// The number of values `m` holds, over all names: what `default_headers`
/// adds to a builder at most.
pub fn value_count(m: &HeaderMap) -> (r: usize)
    ensures
        r == flatten(header_map_entries(*m)).len(),
{
    header_map_len(m)
}

/// Builds a header map from valid raw (name, value) fields, inserting them
/// in order, so that a name given more than once keeps its last value;
/// `None` when the map would reach `HEADER_MAP_SAFE_LEN` distinct names.
pub fn fields_to_header_map(fields: &Vec<(String, Vec<u8>)>) -> (r: Option<HeaderMap>)
    requires
        fields_valid(fields.deep_view()),
    ensures
        r is Some <==> insert_all(Seq::empty(), canonical_fields(fields.deep_view())).len()
            < HEADER_MAP_SAFE_LEN,
        r matches Some(m) ==> header_map_entries(m) == insert_all(
            Seq::empty(),
            canonical_fields(fields.deep_view()),
        ) && entries_wf(header_map_entries(m)),
{
    let mut m = header_map_new();
    let ghost fs = fields.deep_view();
    let ghost cs = canonical_fields(fs);
    let ghost empty = Seq::<(Seq<char>, Seq<Seq<u8>>)>::empty();
    let mut i: usize = 0;
    while i < fields.len()
        invariant
            0 <= i <= fields@.len(),
            fs == fields.deep_view(),
            cs == canonical_fields(fs),
            fields_valid(fs),
            empty == Seq::<(Seq<char>, Seq<Seq<u8>>)>::empty(),
            header_map_entries(m) == insert_all(empty, cs.take(i as int)),
        decreases fields@.len() - i,
    {
        let (name, value) = &fields[i];
        assert(fs[i as int] == (name@, value@));
        assert(is_header_name(encode_utf8(fs[i as int].0)));
        proof {
            assert(fs.len() == fields@.len());
            lemma_insert_all_prefix_len(empty, cs, i as int);
        }
        if header_map_keys_len(&m) >= HEADER_MAP_SAFE_LEN {
            return None;
        }
        let n = match header_name_from_bytes(name.as_str().as_bytes()) {
            Ok(n) => n,
            Err(_) => {
                proof {
                    assert(false);
                }
                return None;
            },
        };
        let v = match header_value_from_bytes(value.as_slice()) {
            Ok(v) => v,
            Err(_) => {
                proof {
                    assert(false);
                }
                return None;
            },
        };
        proof {
            lemma_insert_all_step(empty, cs, i as int);
        }
        header_map_insert(&mut m, n, v);
        i = i + 1;
    }
    assert(cs.take(fields@.len() as int) =~= cs);
    if header_map_keys_len(&m) >= HEADER_MAP_SAFE_LEN {
        return None;
    }
    proof {
        lemma_insert_all_wf(empty, cs);
    }
    Some(m)
}

} // verus!
