//! Cache keys: a deterministic mapping from method, path, sorted query
//! parameters and an optional identity partition to one serialized string.
//!
//! Two requests with an equal derived key are cache-equivalent, and two
//! requests with different key data never share a key: the query pairs
//! are kept sorted by name, a later pair overwriting an earlier one with
//! the same name; the method, path and partition fields follow; and the
//! serializer percent-codes `%`, `=` and `;` inside every name and
//! value, so its separators are unambiguous and the encoding is
//! injective. Escaping is the identity on ordinary components, so the
//! key of an ordinary request path embeds that path verbatim, which is
//! what coarse substring invalidation matches against.

use vstd::prelude::*;

use crate::outside::parse_query_pairs;
use crate::outside::push_char;
use crate::outside::query_pairs_of;
use crate::store::view_opt_string;
use crate::text::contains_at;
use crate::text::contains_seq;
use crate::text::lemma_contains_concat_left;
use crate::text::lemma_contains_concat_right;
use crate::text::comma_join;
use crate::text::join_comma;
use crate::text::lex_lt;
use crate::text::str_eq;
use crate::text::str_lt;

verus! {

/// The views of a vector of string pairs.
pub open spec fn pairs_view(s: Seq<(String, String)>) -> Seq<(Seq<char>, Seq<char>)> {
    s.map_values(|p: (String, String)| (p.0@, p.1@))
}

/// `lex_lt` never relates a sequence to itself.
pub proof fn lemma_lex_irrefl(a: Seq<char>)
    ensures
        !lex_lt(a, a),
    decreases a.len(),
{
    if a.len() > 0 {
        lemma_lex_irrefl(a.skip(1));
    }
}

/// `lex_lt` is asymmetric.
pub proof fn lemma_lex_asym(a: Seq<char>, b: Seq<char>)
    requires
        lex_lt(a, b),
    ensures
        !lex_lt(b, a),
    decreases a.len(),
{
    if a.len() > 0 && b.len() > 0 && (a[0] as u32) == (b[0] as u32) {
        lemma_lex_asym(a.skip(1), b.skip(1));
    }
}

/// Two distinct sequences are ordered one way or the other.
pub proof fn lemma_lex_total(a: Seq<char>, b: Seq<char>)
    requires
        a != b,
    ensures
        lex_lt(a, b) || lex_lt(b, a),
    decreases a.len(),
{
    if a.len() == 0 {
        assert(b.len() > 0) by {
            if b.len() == 0 {
                assert(a =~= b);
            }
        }
    } else if b.len() == 0 {
    } else if (a[0] as u32) == (b[0] as u32) {
        vstd::utf8::char_u32_cast(a[0], a[0] as u32);
        vstd::utf8::char_u32_cast(b[0], b[0] as u32);
        assert(a[0] == b[0]);
        assert(a.skip(1) != b.skip(1)) by {
            if a.skip(1) == b.skip(1) {
                assert(a.skip(1).len() == a.len() - 1);
                assert(b.skip(1).len() == b.len() - 1);
                assert(a.len() == b.len());
                assert forall|i: int| 0 <= i < a.len() implies a[i] == b[i] by {
                    if i > 0 {
                        assert(a.skip(1)[i - 1] == a[i]);
                        assert(b.skip(1)[i - 1] == b[i]);
                    }
                }
                assert(a =~= b);
            }
        }
        lemma_lex_total(a.skip(1), b.skip(1));
    }
}

/// `lex_lt` is transitive.
pub proof fn lemma_lex_trans(a: Seq<char>, b: Seq<char>, c: Seq<char>)
    requires
        lex_lt(a, b),
        lex_lt(b, c),
    ensures
        lex_lt(a, c),
    decreases a.len(),
{
    if a.len() > 0 && b.len() > 0 && c.len() > 0 && (a[0] as u32) == (b[0] as u32) && (b[0]
        as u32) == (c[0] as u32) {
        lemma_lex_trans(a.skip(1), b.skip(1), c.skip(1));
    }
}

/// Pair names strictly increase along the list.
pub open spec fn strictly_sorted(s: Seq<(Seq<char>, Seq<char>)>) -> bool {
    forall|i: int, j: int| 0 <= i < j < s.len() ==> lex_lt(s[i].0, s[j].0)
}

/// Insertion into a name-sorted pair list: an existing pair with the same
/// name is overwritten in place, otherwise the new pair lands before the
/// first larger name.
pub open spec fn spec_insert_sorted(
    s: Seq<(Seq<char>, Seq<char>)>,
    k: Seq<char>,
    v: Seq<char>,
) -> Seq<(Seq<char>, Seq<char>)>
    decreases s.len(),
{
    if s.len() == 0 {
        seq![(k, v)]
    } else if s[0].0 == k {
        seq![(k, v)] + s.skip(1)
    } else if lex_lt(k, s[0].0) {
        seq![(k, v)] + s
    } else {
        seq![s[0]] + spec_insert_sorted(s.skip(1), k, v)
    }
}

/// The sorted, name-unique pair list obtained by inserting every pair in
/// order; a later duplicate name wins.
pub open spec fn spec_sorted_data(pairs: Seq<(Seq<char>, Seq<char>)>) -> Seq<
    (Seq<char>, Seq<char>),
>
    decreases pairs.len(),
{
    if pairs.len() == 0 {
        Seq::empty()
    } else {
        spec_insert_sorted(spec_sorted_data(pairs.drop_last()), pairs.last().0, pairs.last().1)
    }
}

/// The name of the field carrying the request method.
pub open spec fn method_field() -> Seq<char> {
    "method"@
}

/// The name of the field carrying the request path.
pub open spec fn path_field() -> Seq<char> {
    "path"@
}

/// The name of the field carrying the identity partition.
pub open spec fn user_field() -> Seq<char> {
    "x-user-role"@
}

/// The full key data: sorted query pairs, followed by the method, path and
/// optional identity-partition fields.
pub open spec fn spec_build_data(
    query: Seq<(Seq<char>, Seq<char>)>,
    method: Seq<char>,
    path: Seq<char>,
    user: Option<Seq<char>>,
) -> Seq<(Seq<char>, Seq<char>)> {
    let base = spec_sorted_data(query).push((method_field(), method)).push((path_field(), path));
    match user {
        Option::Some(u) => base.push((user_field(), u)),
        Option::None => base,
    }
}

/// One escaped character: `%`, `=` and `;` become three-character
/// percent codes; every other character stands for itself.
pub open spec fn esc_char(c: char) -> Seq<char> {
    if c == '%' {
        seq!['%', '2', '5']
    } else if c == '=' {
        seq!['%', '3', 'D']
    } else if c == ';' {
        seq!['%', '3', 'B']
    } else {
        seq![c]
    }
}

/// The escaped form of a component. The serializer's separators occur
/// nowhere inside an escaped component, which is what makes the key
/// encoding injective.
pub open spec fn esc(s: Seq<char>) -> Seq<char>
    decreases s.len(),
{
    if s.len() == 0 {
        Seq::empty()
    } else {
        esc_char(s[0]) + esc(s.skip(1))
    }
}

/// A component free of the characters the serializer escapes.
pub open spec fn unescaped(s: Seq<char>) -> bool {
    forall|i: int| 0 <= i < s.len() ==> s[i] != '%' && s[i] != '=' && s[i] != ';'
}

/// Escaping is the identity on an unescaped component.
pub proof fn lemma_esc_identity(s: Seq<char>)
    requires
        unescaped(s),
    ensures
        esc(s) == s,
    decreases s.len(),
{
    if s.len() > 0 {
        assert forall|i: int| 0 <= i < s.skip(1).len() implies s.skip(1)[i] != '%' && s.skip(
            1,
        )[i] != '=' && s.skip(1)[i] != ';' by {
            assert(s.skip(1)[i] == s[i + 1]);
        }
        lemma_esc_identity(s.skip(1));
        assert(esc_char(s[0]) =~= seq![s[0]]);
        assert(seq![s[0]] + s.skip(1) =~= s);
    }
}

/// An escaped component never contains the serializer's separators.
pub proof fn lemma_esc_no_separators(s: Seq<char>)
    ensures
        forall|i: int| 0 <= i < esc(s).len() ==> esc(s)[i] != '=' && esc(s)[i] != ';',
    decreases s.len(),
{
    if s.len() > 0 {
        lemma_esc_no_separators(s.skip(1));
        let head = esc_char(s[0]);
        assert forall|i: int| 0 <= i < esc(s).len() implies esc(s)[i] != '=' && esc(s)[i]
            != ';' by {
            if i < head.len() {
                assert(esc(s)[i] == head[i]);
            } else {
                assert(esc(s)[i] == esc(s.skip(1))[i - head.len()]);
            }
        }
    }
}

/// Escaping never shortens a component, and empties only the empty one.
pub proof fn lemma_esc_len(s: Seq<char>)
    ensures
        esc(s).len() >= s.len(),
        (esc(s).len() == 0) == (s.len() == 0),
    decreases s.len(),
{
    if s.len() > 0 {
        lemma_esc_len(s.skip(1));
    }
}

/// Escaping is injective: equal escaped forms come from equal components.
pub proof fn lemma_esc_injective(a: Seq<char>, b: Seq<char>)
    requires
        esc(a) == esc(b),
    ensures
        a == b,
    decreases a.len(),
{
    lemma_esc_len(a);
    lemma_esc_len(b);
    if a.len() == 0 {
        assert(b.len() == 0);
        assert(a =~= b);
    } else {
        assert(b.len() > 0);
        let ca = a[0];
        let cb = b[0];
        let ha = esc_char(ca);
        let hb = esc_char(cb);
        let special_a = ca == '%' || ca == '=' || ca == ';';
        let special_b = cb == '%' || cb == '=' || cb == ';';
        assert(esc(a)[0] == ha[0]);
        assert(esc(b)[0] == hb[0]);
        if special_a && special_b {
            assert(esc(a).subrange(0, 3) =~= ha);
            assert(esc(b).subrange(0, 3) =~= hb);
            assert(ha == hb);
            assert(ha[1] == hb[1] && ha[2] == hb[2]);
            assert(ca == cb);
            assert(esc(a).subrange(3, esc(a).len() as int) =~= esc(a.skip(1)));
            assert(esc(b).subrange(3, esc(b).len() as int) =~= esc(b.skip(1)));
            lemma_esc_injective(a.skip(1), b.skip(1));
        } else if !special_a && !special_b {
            assert(ca == cb);
            assert(esc(a).subrange(1, esc(a).len() as int) =~= esc(a.skip(1)));
            assert(esc(b).subrange(1, esc(b).len() as int) =~= esc(b.skip(1)));
            lemma_esc_injective(a.skip(1), b.skip(1));
        } else if special_a {
            assert(ha[0] == '%');
            assert(hb[0] == cb && cb != '%');
            assert(false);
        } else {
            assert(hb[0] == '%');
            assert(ha[0] == ca && ca != '%');
            assert(false);
        }
        assert(a =~= b) by {
            assert(a.len() == b.len());
            assert(forall|i: int| 1 <= i < a.len() ==> a[i] == a.skip(1)[i - 1] && b[i]
                == b.skip(1)[i - 1]);
        }
    }
}

/// One serialized pair: `name=value;`, with both components escaped.
pub open spec fn spec_chunk(k: Seq<char>, v: Seq<char>) -> Seq<char> {
    esc(k) + seq!['='] + esc(v) + seq![';']
}

/// The only `;` in a chunk is its final character, and the only `=` is
/// the separator after the escaped name.
proof fn lemma_chunk_shape(k: Seq<char>, v: Seq<char>)
    ensures
        spec_chunk(k, v).len() == esc(k).len() + esc(v).len() + 2,
        forall|i: int|
            0 <= i < spec_chunk(k, v).len() - 1 ==> #[trigger] spec_chunk(k, v)[i] != ';',
        spec_chunk(k, v).last() == ';',
        forall|i: int|
            0 <= i < spec_chunk(k, v).len() ==> ((#[trigger] spec_chunk(k, v)[i] == '=') == (i
                == esc(k).len())),
{
    lemma_esc_no_separators(k);
    lemma_esc_no_separators(v);
    let chunk = spec_chunk(k, v);
    let nk = esc(k).len() as int;
    let nv = esc(v).len() as int;
    assert forall|i: int| 0 <= i < chunk.len() - 1 implies #[trigger] chunk[i] != ';' by {
        if i < nk {
            assert(chunk[i] == esc(k)[i]);
        } else if i == nk {
            assert(chunk[i] == '=');
        } else {
            assert(chunk[i] == esc(v)[i - nk - 1]);
        }
    }
    assert forall|i: int| 0 <= i < chunk.len() implies ((#[trigger] chunk[i] == '=') == (i
        == nk)) by {
        if i < nk {
            assert(chunk[i] == esc(k)[i]);
        } else if i == nk {
            assert(chunk[i] == '=');
        } else if i < chunk.len() - 1 {
            assert(chunk[i] == esc(v)[i - nk - 1]);
        } else {
            assert(chunk[i] == ';');
        }
    }
}

/// Two chunk-terminated decompositions of one sequence split at the
/// same place: a chunk cannot be a proper suffix of another chunk when
/// what precedes the shorter one ends, as every serialization does,
/// with `;`.
proof fn lemma_chunk_lengths_match(
    a1: Seq<char>,
    k1: Seq<char>,
    v1: Seq<char>,
    a2: Seq<char>,
    k2: Seq<char>,
    v2: Seq<char>,
)
    requires
        a1 + spec_chunk(k1, v1) == a2 + spec_chunk(k2, v2),
        a1.len() > 0 ==> a1.last() == ';',
        a2.len() > 0 ==> a2.last() == ';',
    ensures
        spec_chunk(k1, v1).len() == spec_chunk(k2, v2).len(),
{
    lemma_chunk_shape(k1, v1);
    lemma_chunk_shape(k2, v2);
    let c1 = spec_chunk(k1, v1);
    let c2 = spec_chunk(k2, v2);
    assert((a1 + c1).len() == a1.len() + c1.len());
    assert((a2 + c2).len() == a2.len() + c2.len());
    assert(a1.len() + c1.len() == a2.len() + c2.len());
    if c1.len() < c2.len() {
        let joined = a1 + c1;
        assert(a1.len() > a2.len());
        assert(a1.len() >= 1);
        assert(joined[a1.len() - 1] == a1.last());
        assert(joined[a1.len() - 1] == c2[a1.len() - 1 - a2.len()]);
        assert(a1.len() - 1 - a2.len() == c2.len() - c1.len() - 1);
        assert(c1.len() >= 2);
        assert(c2[c2.len() - c1.len() - 1] != ';');
        assert(false);
    } else if c2.len() < c1.len() {
        let joined = a2 + c2;
        assert(a2.len() > a1.len());
        assert(a2.len() >= 1);
        assert(joined[a2.len() - 1] == a2.last());
        assert(joined[a2.len() - 1] == c1[a2.len() - 1 - a1.len()]);
        assert(a2.len() - 1 - a1.len() == c1.len() - c2.len() - 1);
        assert(c2.len() >= 2);
        assert(c1[c1.len() - c2.len() - 1] != ';');
        assert(false);
    }
}

/// Chunks are injective: an equal chunk means equal name and value.
proof fn lemma_chunk_injective(k1: Seq<char>, v1: Seq<char>, k2: Seq<char>, v2: Seq<char>)
    requires
        spec_chunk(k1, v1) == spec_chunk(k2, v2),
    ensures
        k1 == k2,
        v1 == v2,
{
    lemma_chunk_shape(k1, v1);
    lemma_chunk_shape(k2, v2);
    let c = spec_chunk(k1, v1);
    let nk1 = esc(k1).len() as int;
    let nk2 = esc(k2).len() as int;
    assert(c[nk1] == '=');
    assert(spec_chunk(k2, v2)[nk1] == '=');
    assert(nk1 == nk2);
    assert(esc(k1) =~= c.subrange(0, nk1));
    assert(esc(k2) =~= c.subrange(0, nk1));
    lemma_esc_injective(k1, k2);
    assert(esc(v1) =~= c.subrange(nk1 + 1, c.len() - 1));
    assert(esc(v2) =~= c.subrange(nk1 + 1, c.len() - 1));
    lemma_esc_injective(v1, v2);
}

/// A serialization of anything ends with `;` and is empty only for the
/// empty pair list.
proof fn lemma_serialize_shape(s: Seq<(Seq<char>, Seq<char>)>)
    ensures
        (spec_serialize(s).len() == 0) == (s.len() == 0),
        s.len() > 0 ==> spec_serialize(s).last() == ';',
{
    if s.len() > 0 {
        lemma_chunk_shape(s.last().0, s.last().1);
    }
}

/// The key encoding is injective: distinct key data never serialize to
/// one cache key, so two requests ever share a stored entry only when
/// their method, path, sorted query and identity partition agree.
pub proof fn lemma_serialize_injective(
    s1: Seq<(Seq<char>, Seq<char>)>,
    s2: Seq<(Seq<char>, Seq<char>)>,
)
    requires
        spec_serialize(s1) == spec_serialize(s2),
    ensures
        s1 == s2,
    decreases s1.len(),
{
    lemma_serialize_shape(s1);
    lemma_serialize_shape(s2);
    if s1.len() == 0 {
        assert(s2.len() == 0);
        assert(s1 =~= s2);
    } else {
        assert(s2.len() > 0);
        let a1 = spec_serialize(s1.drop_last());
        let c1 = spec_chunk(s1.last().0, s1.last().1);
        let a2 = spec_serialize(s2.drop_last());
        let c2 = spec_chunk(s2.last().0, s2.last().1);
        assert(a1 + c1 == a2 + c2);
        lemma_serialize_shape(s1.drop_last());
        lemma_serialize_shape(s2.drop_last());
        assert(a1.len() > 0 ==> a1.last() == ';');
        assert(a2.len() > 0 ==> a2.last() == ';');
        lemma_chunk_lengths_match(a1, s1.last().0, s1.last().1, a2, s2.last().0,
            s2.last().1);
        assert(c1.len() == c2.len());
        assert(a1.len() == a2.len());
        let joined = a1 + c1;
        assert(c1 =~= joined.subrange(a1.len() as int, joined.len() as int));
        assert(c2 =~= joined.subrange(a1.len() as int, joined.len() as int));
        lemma_chunk_injective(s1.last().0, s1.last().1, s2.last().0, s2.last().1);
        assert(a1 =~= joined.subrange(0, a1.len() as int));
        assert(a2 =~= joined.subrange(0, a1.len() as int));
        lemma_serialize_injective(s1.drop_last(), s2.drop_last());
        assert(s1 =~= s2) by {
            assert(s1.len() == s2.len());
            assert(forall|i: int|
                0 <= i < s1.len() - 1 ==> s1[i] == s1.drop_last()[i] && s2[i]
                    == s2.drop_last()[i]);
            assert(s1.last().0 == s2.last().0 && s1.last().1 == s2.last().1);
        }
    }
}

/// Escapes one component, proved against `esc`.
pub fn escape_component(s: &str) -> (r: String)
    ensures
        r@ == esc(s@),
{
    let n = s.unicode_len();
    let mut out = String::new();
    let mut i: usize = 0;
    proof {
        assert(s@.skip(0) =~= s@);
    }
    while i < n
        invariant
            n == s@.len(),
            0 <= i <= n,
            esc(s@) == out@ + esc(s@.skip(i as int)),
        decreases n - i,
    {
        let c = s.get_char(i);
        let ghost before = out@;
        proof {
            assert(s@.skip(i as int)[0] == s@[i as int]);
            assert(s@.skip(i as int).skip(1) =~= s@.skip(i + 1));
        }
        if c == '%' {
            out.append("%25");
            proof {
                reveal_strlit("%25");
                assert(out@ =~= before + esc_char(s@[i as int]));
            }
        } else if c == '=' {
            out.append("%3D");
            proof {
                reveal_strlit("%3D");
                assert(out@ =~= before + esc_char(s@[i as int]));
            }
        } else if c == ';' {
            out.append("%3B");
            proof {
                reveal_strlit("%3B");
                assert(out@ =~= before + esc_char(s@[i as int]));
            }
        } else {
            push_char(&mut out, c);
            proof {
                assert(out@ =~= before + esc_char(s@[i as int]));
            }
        }
        proof {
            assert(before + (esc_char(s@[i as int]) + esc(s@.skip(i + 1))) =~= out@ + esc(
                s@.skip(i + 1),
            ));
        }
        i += 1;
    }
    proof {
        assert(esc(s@.skip(n as int)) =~= Seq::<char>::empty());
        assert(out@ + esc(s@.skip(n as int)) =~= out@);
    }
    out
}

/// The serialized key data: the concatenation of its pairs' chunks.
pub open spec fn spec_serialize(s: Seq<(Seq<char>, Seq<char>)>) -> Seq<char>
    decreases s.len(),
{
    if s.len() == 0 {
        Seq::empty()
    } else {
        spec_serialize(s.drop_last()) + spec_chunk(s.last().0, s.last().1)
    }
}

/// The derived cache key of a request.
pub open spec fn spec_derive_key(
    method: Seq<char>,
    path: Seq<char>,
    raw_query: Seq<char>,
    user: Option<Seq<char>>,
) -> Seq<char> {
    spec_serialize(spec_build_data(query_pairs_of(raw_query), method, path, user))
}

/// Sorted insertion keeps the list strictly sorted by name, and brings in
/// no name other than the inserted one.
pub proof fn lemma_insert_sorted_stays_sorted(
    s: Seq<(Seq<char>, Seq<char>)>,
    k: Seq<char>,
    v: Seq<char>,
)
    requires
        strictly_sorted(s),
    ensures
        strictly_sorted(spec_insert_sorted(s, k, v)),
        forall|j: int|
            0 <= j < spec_insert_sorted(s, k, v).len() ==> (#[trigger] spec_insert_sorted(
                s,
                k,
                v,
            )[j].0 == k || exists|i: int| 0 <= i < s.len() && s[i].0 == spec_insert_sorted(
                s,
                k,
                v,
            )[j].0),
    decreases s.len(),
{
    let out = spec_insert_sorted(s, k, v);
    if s.len() == 0 {
        assert(out =~= seq![(k, v)]);
    } else if s[0].0 == k {
        assert(out == seq![(k, v)] + s.skip(1));
        assert forall|i: int, j: int| 0 <= i < j < out.len() implies lex_lt(
            out[i].0,
            out[j].0,
        ) by {
            if i == 0 {
                assert(out[j].0 == s[j].0);
                assert(lex_lt(s[0].0, s[j].0));
            } else {
                assert(out[i].0 == s[i].0 && out[j].0 == s[j].0);
            }
        }
        assert forall|j: int| 0 <= j < out.len() implies (out[j].0 == k || exists|i: int|
            0 <= i < s.len() && s[i].0 == out[j].0) by {
            if j > 0 {
                assert(s[j].0 == out[j].0);
            }
        }
    } else if lex_lt(k, s[0].0) {
        assert(out == seq![(k, v)] + s);
        assert forall|i: int, j: int| 0 <= i < j < out.len() implies lex_lt(
            out[i].0,
            out[j].0,
        ) by {
            if i == 0 {
                assert(out[j].0 == s[j - 1].0);
                if j > 1 {
                    assert(lex_lt(s[0].0, s[j - 1].0));
                    lemma_lex_trans(k, s[0].0, s[j - 1].0);
                }
            } else {
                assert(out[i].0 == s[i - 1].0 && out[j].0 == s[j - 1].0);
            }
        }
        assert forall|j: int| 0 <= j < out.len() implies (out[j].0 == k || exists|i: int|
            0 <= i < s.len() && s[i].0 == out[j].0) by {
            if j > 0 {
                assert(s[j - 1].0 == out[j].0);
            }
        }
    } else {
        assert(strictly_sorted(s.skip(1))) by {
            assert(forall|i: int, j: int|
                0 <= i < j < s.skip(1).len() ==> s.skip(1)[i].0 == s[i + 1].0 && s.skip(1)[j].0
                    == s[j + 1].0);
        }
        lemma_insert_sorted_stays_sorted(s.skip(1), k, v);
        let rest = spec_insert_sorted(s.skip(1), k, v);
        assert(out == seq![s[0]] + rest);
        lemma_lex_irrefl(k);
        assert(s[0].0 != k);
        lemma_lex_total(s[0].0, k);
        assert(lex_lt(s[0].0, k));
        assert forall|i: int, j: int| 0 <= i < j < out.len() implies lex_lt(
            out[i].0,
            out[j].0,
        ) by {
            if i == 0 {
                assert(out[j].0 == rest[j - 1].0);
                assert(rest[j - 1].0 == k || exists|w: int|
                    0 <= w < s.skip(1).len() && s.skip(1)[w].0 == rest[j - 1].0);
                if rest[j - 1].0 == k {
                } else {
                    let w = choose|w: int|
                        0 <= w < s.skip(1).len() && s.skip(1)[w].0 == rest[j - 1].0;
                    assert(s.skip(1)[w].0 == s[w + 1].0);
                    assert(lex_lt(s[0].0, s[w + 1].0));
                }
            } else {
                assert(out[i].0 == rest[i - 1].0 && out[j].0 == rest[j - 1].0);
            }
        }
        assert forall|j: int| 0 <= j < out.len() implies (out[j].0 == k || exists|i: int|
            0 <= i < s.len() && s[i].0 == out[j].0) by {
            if j == 0 {
                assert(s[0].0 == out[0].0);
            } else {
                assert(out[j].0 == rest[j - 1].0);
                if rest[j - 1].0 != k {
                    let w = choose|w: int|
                        0 <= w < s.skip(1).len() && s.skip(1)[w].0 == rest[j - 1].0;
                    assert(s[w + 1].0 == out[j].0);
                }
            }
        }
    }
}

/// The key data built from any run of query pairs is strictly sorted by
/// name: this is what makes the derived key insensitive to the order the
/// query string listed its pairs in.
pub proof fn lemma_sorted_data_is_sorted(pairs: Seq<(Seq<char>, Seq<char>)>)
    ensures
        strictly_sorted(spec_sorted_data(pairs)),
    decreases pairs.len(),
{
    if pairs.len() == 0 {
    } else {
        lemma_sorted_data_is_sorted(pairs.drop_last());
        lemma_insert_sorted_stays_sorted(
            spec_sorted_data(pairs.drop_last()),
            pairs.last().0,
            pairs.last().1,
        );
    }
}

/// Splitting `spec_insert_sorted` at a scanned-past prefix.
proof fn lemma_insert_sorted_split(
    s: Seq<(Seq<char>, Seq<char>)>,
    k: Seq<char>,
    v: Seq<char>,
    i: int,
)
    requires
        0 <= i <= s.len(),
        forall|j: int| 0 <= j < i ==> lex_lt(#[trigger] s[j].0, k),
    ensures
        spec_insert_sorted(s, k, v) == s.take(i) + spec_insert_sorted(s.skip(i), k, v),
    decreases i,
{
    if i == 0 {
        assert(s.take(0) =~= Seq::empty());
        assert(s.skip(0) =~= s);
        assert(s.take(0) + spec_insert_sorted(s, k, v) =~= spec_insert_sorted(s, k, v));
    } else {
        lemma_lex_asym(s[0].0, k);
        lemma_lex_irrefl(k);
        assert(s[0].0 != k) by {
            if s[0].0 == k {
                assert(lex_lt(k, k));
            }
        }
        lemma_insert_sorted_split(s.skip(1), k, v, i - 1);
        assert(forall|j: int| 0 <= j < i - 1 ==> lex_lt(#[trigger] s.skip(1)[j].0, k));
        assert(s.skip(1).take(i - 1) =~= s.take(i).skip(1));
        assert(s.skip(1).skip(i - 1) =~= s.skip(i));
        assert(seq![s[0]] + (s.take(i).skip(1) + spec_insert_sorted(s.skip(i), k, v)) =~= s.take(
            i,
        ) + spec_insert_sorted(s.skip(i), k, v));
    }
}

/// Inserts a pair into a name-sorted list, proved against
/// `spec_insert_sorted`.
pub fn insert_sorted(data: &mut Vec<(String, String)>, key: String, value: String)
    ensures
        pairs_view(final(data)@) == spec_insert_sorted(pairs_view(old(data)@), key@, value@),
{
    let ghost s = pairs_view(data@);
    let ghost kv = key@;
    let ghost vv = value@;
    let n = data.len();
    let mut i: usize = 0;
    while i < n && str_lt(data[i].0.as_str(), key.as_str())
        invariant
            n == data@.len(),
            s == pairs_view(data@),
            0 <= i <= n,
            forall|j: int| 0 <= j < i ==> lex_lt(#[trigger] s[j].0, key@),
        decreases n - i,
    {
        i += 1;
    }
    proof {
        lemma_insert_sorted_split(s, key@, value@, i as int);
    }
    if i == n {
        proof {
            assert(s.skip(n as int).len() == 0);
            assert(s.take(n as int) =~= s);
        }
        data.push((key, value));
        proof {
            assert(pairs_view(data@) =~= s + seq![(kv, vv)]);
        }
    } else if str_eq(data[i].0.as_str(), key.as_str()) {
        proof {
            assert(s.skip(i as int)[0] == s[i as int]);
            assert(spec_insert_sorted(s.skip(i as int), key@, value@) == seq![(key@, value@)]
                + s.skip(i as int).skip(1));
            assert(s.skip(i as int).skip(1) =~= s.skip(i + 1));
        }
        data.remove(i);
        data.insert(i, (key, value));
        proof {
            assert(pairs_view(data@) =~= s.take(i as int) + (seq![(kv, vv)] + s.skip(i + 1)));
        }
    } else {
        proof {
            assert(s.skip(i as int)[0] == s[i as int]);
            lemma_lex_total(s[i as int].0, key@);
            assert(lex_lt(key@, s[i as int].0));
            assert(spec_insert_sorted(s.skip(i as int), key@, value@) == seq![(key@, value@)]
                + s.skip(i as int));
        }
        data.insert(i, (key, value));
        proof {
            assert(pairs_view(data@) =~= s.take(i as int) + (seq![(kv, vv)] + s.skip(
                i as int,
            )));
        }
    }
}

/// The views of a vector of strings.
pub open spec fn names_view(s: Seq<String>) -> Seq<Seq<char>> {
    s.map_values(|x: String| x@)
}

/// Insertion into a sorted set of names: a name already present is kept
/// once, a new one lands before the first larger name.
pub open spec fn spec_insert_name(s: Seq<Seq<char>>, k: Seq<char>) -> Seq<Seq<char>>
    decreases s.len(),
{
    if s.len() == 0 {
        seq![k]
    } else if s[0] == k {
        s
    } else if lex_lt(k, s[0]) {
        seq![k] + s
    } else {
        seq![s[0]] + spec_insert_name(s.skip(1), k)
    }
}

/// The sorted, de-duplicated set of names, built by inserting each in
/// turn.
pub open spec fn spec_sorted_names(names: Seq<Seq<char>>) -> Seq<Seq<char>>
    decreases names.len(),
{
    if names.len() == 0 {
        Seq::empty()
    } else {
        spec_insert_name(spec_sorted_names(names.drop_last()), names.last())
    }
}

/// The identity partition derived from a set of global roles: the sorted,
/// de-duplicated roles joined with commas. A role-less user derives the
/// empty partition, which an anonymous user shares.
pub open spec fn spec_role_partition(roles: Seq<Seq<char>>) -> Seq<char> {
    join_comma(spec_sorted_names(roles))
}

/// Splitting `spec_insert_name` at a scanned-past prefix.
proof fn lemma_insert_name_split(s: Seq<Seq<char>>, k: Seq<char>, i: int)
    requires
        0 <= i <= s.len(),
        forall|j: int| 0 <= j < i ==> lex_lt(#[trigger] s[j], k),
    ensures
        spec_insert_name(s, k) == s.take(i) + spec_insert_name(s.skip(i), k),
    decreases i,
{
    if i == 0 {
        assert(s.take(0) =~= Seq::empty());
        assert(s.skip(0) =~= s);
        assert(s.take(0) + spec_insert_name(s, k) =~= spec_insert_name(s, k));
    } else {
        lemma_lex_asym(s[0], k);
        lemma_lex_irrefl(k);
        assert(s[0] != k) by {
            if s[0] == k {
                assert(lex_lt(k, k));
            }
        }
        lemma_insert_name_split(s.skip(1), k, i - 1);
        assert(forall|j: int| 0 <= j < i - 1 ==> lex_lt(#[trigger] s.skip(1)[j], k));
        assert(s.skip(1).take(i - 1) =~= s.take(i).skip(1));
        assert(s.skip(1).skip(i - 1) =~= s.skip(i));
        assert(seq![s[0]] + (s.take(i).skip(1) + spec_insert_name(s.skip(i), k)) =~= s.take(i)
            + spec_insert_name(s.skip(i), k));
    }
}

/// Inserts a name into a sorted set of names, proved against
/// `spec_insert_name`.
pub fn insert_name(names: &mut Vec<String>, name: String)
    ensures
        names_view(final(names)@) == spec_insert_name(names_view(old(names)@), name@),
{
    let ghost s = names_view(names@);
    let ghost kv = name@;
    let n = names.len();
    let mut i: usize = 0;
    while i < n && str_lt(names[i].as_str(), name.as_str())
        invariant
            n == names@.len(),
            s == names_view(names@),
            0 <= i <= n,
            forall|j: int| 0 <= j < i ==> lex_lt(#[trigger] s[j], name@),
        decreases n - i,
    {
        i += 1;
    }
    proof {
        lemma_insert_name_split(s, name@, i as int);
    }
    if i == n {
        proof {
            assert(s.skip(n as int).len() == 0);
            assert(s.take(n as int) =~= s);
        }
        names.push(name);
        proof {
            assert(names_view(names@) =~= s + seq![kv]);
        }
    } else if str_eq(names[i].as_str(), name.as_str()) {
        proof {
            assert(s.skip(i as int)[0] == s[i as int]);
            assert(spec_insert_name(s.skip(i as int), name@) == s.skip(i as int));
            assert(s.take(i as int) + s.skip(i as int) =~= s);
        }
    } else {
        proof {
            assert(s.skip(i as int)[0] == s[i as int]);
            lemma_lex_total(s[i as int], name@);
            assert(lex_lt(name@, s[i as int]));
            assert(spec_insert_name(s.skip(i as int), name@) == seq![name@] + s.skip(i as int));
        }
        names.insert(i, name);
        proof {
            assert(names_view(names@) =~= s.take(i as int) + (seq![kv] + s.skip(i as int)));
        }
    }
}

/// Derives the identity partition from a user's global roles, proved
/// against `spec_role_partition`: the roles are sorted and de-duplicated
/// before being comma-joined, so equal role sets always share one
/// partition, whatever order they arrived in.
pub fn role_partition(roles: &Vec<String>) -> (r: String)
    ensures
        r@ == spec_role_partition(names_view(roles@)),
{
    let ghost all = names_view(roles@);
    let mut names: Vec<String> = Vec::new();
    let mut i: usize = 0;
    proof {
        assert(all.take(0) =~= Seq::empty());
        assert(names_view(names@) =~= Seq::empty());
    }
    while i < roles.len()
        invariant
            all == names_view(roles@),
            0 <= i <= roles@.len(),
            names_view(names@) == spec_sorted_names(all.take(i as int)),
        decreases roles@.len() - i,
    {
        insert_name(&mut names, roles[i].clone());
        proof {
            assert(all.take(i + 1).drop_last() =~= all.take(i as int));
            assert(all.take(i + 1).last() == all[i as int]);
            assert(all[i as int] == roles@[i as int]@);
        }
        i += 1;
    }
    proof {
        assert(all.take(roles@.len() as int) =~= all);
    }
    let joined = comma_join(&names);
    proof {
        assert(names@.map_values(|p: String| p@) =~= names_view(names@));
    }
    joined
}

/// Builds the key data of a request, proved against `spec_build_data`.
pub fn build_cache_data(
    method: &str,
    path: &str,
    raw_query: &str,
    user_key: &Option<String>,
) -> (r: Vec<(String, String)>)
    ensures
        pairs_view(r@) == spec_build_data(
            query_pairs_of(raw_query@),
            method@,
            path@,
            view_opt_string(*user_key),
        ),
{
    let pairs = parse_query_pairs(raw_query);
    let ghost q = query_pairs_of(raw_query@);
    let mut data: Vec<(String, String)> = Vec::new();
    let mut i: usize = 0;
    proof {
        assert(q.take(0) =~= Seq::empty());
        assert(pairs_view(data@) =~= Seq::empty());
    }
    while i < pairs.len()
        invariant
            pairs@.len() == q.len(),
            forall|j: int|
                0 <= j < pairs@.len() ==> pairs@[j].0@ == q[j].0 && pairs@[j].1@ == q[j].1,
            0 <= i <= pairs@.len(),
            pairs_view(data@) == spec_sorted_data(q.take(i as int)),
        decreases pairs@.len() - i,
    {
        let (k, v) = (pairs[i].0.clone(), pairs[i].1.clone());
        insert_sorted(&mut data, k, v);
        proof {
            assert(q.take(i + 1).drop_last() =~= q.take(i as int));
            assert(q.take(i + 1).last() == q[i as int]);
        }
        i += 1;
    }
    proof {
        assert(q.take(pairs@.len() as int) =~= q);
    }
    let ghost sorted = pairs_view(data@);
    data.push(("method".to_owned(), method.to_owned()));
    proof {
        assert(pairs_view(data@) =~= sorted.push((method_field(), method@)));
    }
    let ghost with_method = pairs_view(data@);
    data.push(("path".to_owned(), path.to_owned()));
    proof {
        assert(pairs_view(data@) =~= with_method.push((path_field(), path@)));
    }
    let ghost with_path = pairs_view(data@);
    match user_key {
        Option::Some(u) => {
            data.push(("x-user-role".to_owned(), u.clone()));
            proof {
                assert(pairs_view(data@) =~= with_path.push((user_field(), u@)));
            }
        },
        Option::None => {},
    }
    data
}

/// Serializes key data, proved against `spec_serialize`.
pub fn serialize_cache_data(data: &Vec<(String, String)>) -> (r: String)
    ensures
        r@ == spec_serialize(pairs_view(data@)),
{
    let ghost s = pairs_view(data@);
    let mut out = String::new();
    let mut i: usize = 0;
    while i < data.len()
        invariant
            s == pairs_view(data@),
            0 <= i <= data@.len(),
            out@ == spec_serialize(s.take(i as int)),
        decreases data@.len() - i,
    {
        let escaped_name = escape_component(data[i].0.as_str());
        let escaped_value = escape_component(data[i].1.as_str());
        out.append(escaped_name.as_str());
        out.append("=");
        out.append(escaped_value.as_str());
        out.append(";");
        proof {
            reveal_strlit("=");
            reveal_strlit(";");
            assert(s.take(i + 1).drop_last() =~= s.take(i as int));
            assert(s.take(i + 1).last() == s[i as int]);
            assert(out@ =~= spec_serialize(s.take(i as int)) + spec_chunk(
                s[i as int].0,
                s[i as int].1,
            ));
        }
        i += 1;
    }
    proof {
        assert(s.take(data@.len() as int) =~= s);
    }
    out
}

/// Derives the cache key of a request in one step.
pub fn derive_key(method: &str, path: &str, raw_query: &str, user_key: &Option<String>) -> (r:
    String)
    ensures
        r@ == spec_derive_key(method@, path@, raw_query@, view_opt_string(*user_key)),
{
    let data = build_cache_data(method, path, raw_query, user_key);
    serialize_cache_data(&data)
}

/// A serialized chunk contains its escaped value.
proof fn lemma_chunk_contains_value(k: Seq<char>, v: Seq<char>)
    ensures
        contains_seq(spec_chunk(k, v), esc(v)),
{
    let chunk = spec_chunk(k, v);
    let start = esc(k).len() as int + 1;
    assert(chunk.subrange(start, start + esc(v).len() as int) =~= esc(v));
    assert(contains_at(chunk, start, esc(v)));
}

/// The derived key of a request whose path holds none of the escaped
/// characters embeds that path verbatim, so a coarse invalidation that
/// matches the path as a substring removes the request's entry.
pub proof fn lemma_key_contains_path(
    method: Seq<char>,
    path: Seq<char>,
    raw_query: Seq<char>,
    user: Option<Seq<char>>,
)
    requires
        unescaped(path),
    ensures
        contains_seq(spec_derive_key(method, path, raw_query, user), path),
{
    lemma_esc_identity(path);
    let base = spec_sorted_data(query_pairs_of(raw_query)).push((method_field(), method));
    let with_path = base.push((path_field(), path));
    assert(spec_serialize(with_path) == spec_serialize(base) + spec_chunk(path_field(), path))
        by {
        assert(with_path.drop_last() =~= base);
        assert(with_path.last() == (path_field(), path));
    }
    lemma_chunk_contains_value(path_field(), path);
    lemma_contains_concat_right(spec_serialize(base), spec_chunk(path_field(), path), path);
    match user {
        Option::Some(u) => {
            let full = with_path.push((user_field(), u));
            assert(spec_serialize(full) == spec_serialize(with_path) + spec_chunk(
                user_field(),
                u,
            )) by {
                assert(full.drop_last() =~= with_path);
                assert(full.last() == (user_field(), u));
            }
            lemma_contains_concat_left(
                spec_serialize(with_path),
                spec_chunk(user_field(), u),
                path,
            );
        },
        Option::None => {},
    }
}

} // verus!
