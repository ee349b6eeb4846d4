use vstd::prelude::*;

use crate::text::str_eq;

verus! {

/// A query-string pair read as text.
pub type PairText = (Seq<char>, Seq<char>);

/// The text of each (name, value) pair.
pub open spec fn pairs_text(v: Seq<(String, String)>) -> Seq<PairText> {
    v.map_values(|p: (String, String)| (p.0@, p.1@))
}

/// Whether some pair is named `k`.
pub open spec fn has_name(s: Seq<PairText>, k: Seq<char>) -> bool {
    exists|i: int| 0 <= i < s.len() && (#[trigger] s[i]).0 == k
}

/// No two pairs share a name.
pub open spec fn names_distinct(s: Seq<PairText>) -> bool {
    forall|i: int, j: int|
        0 <= i < s.len() && 0 <= j < s.len() && i != j ==> (#[trigger] s[i]).0 != (#[trigger] s[j]).0
}

/// The pairs read as a map, a later pair overriding an earlier one of the
/// same name (as when the pairs are inserted into a map one by one).
pub open spec fn last_wins(s: Seq<PairText>) -> Map<Seq<char>, Seq<char>>
    decreases s.len(),
{
    if s.len() == 0 {
        Map::empty()
    } else {
        last_wins(s.drop_last()).insert(s.last().0, s.last().1)
    }
}

/// `acc` with `kv` stored: replacing the pair of the same name in place, or
/// appended when there is none.
pub open spec fn upsert(acc: Seq<PairText>, kv: PairText) -> Seq<PairText> {
    if has_name(acc, kv.0) {
        acc.update(choose|i: int| 0 <= i < acc.len() && (#[trigger] acc[i]).0 == kv.0, kv)
    } else {
        acc.push(kv)
    }
}

/// The pairs with one pair per name: names in order of first appearance,
/// each with the value of its last appearance.
pub open spec fn collapsed(s: Seq<PairText>) -> Seq<PairText>
    decreases s.len(),
{
    if s.len() == 0 {
        Seq::empty()
    } else {
        upsert(collapsed(s.drop_last()), s.last())
    }
}

/// The name under which the conference room is passed in a query.
pub open spec fn room_key() -> Seq<char> {
    "room"@
}

/// Distinct pairs with the room added, unless a pair names one already.
pub open spec fn with_room(acc: Seq<PairText>, room: Seq<char>) -> Seq<PairText> {
    if has_name(acc, room_key()) {
        acc
    } else {
        acc.push((room_key(), room))
    }
}

/// The pairs of a query, one per name, with the conference room added
/// unless the query names one already.
pub open spec fn room_query(decoded: Seq<PairText>, room: Seq<char>) -> Seq<PairText> {
    with_room(collapsed(decoded), room)
}

proof fn lemma_last_wins_dom(s: Seq<PairText>, k: Seq<char>)
    ensures
        last_wins(s).dom().contains(k) == has_name(s, k),
    decreases s.len(),
{
    if s.len() > 0 {
        lemma_last_wins_dom(s.drop_last(), k);
        if has_name(s.drop_last(), k) {
            let i = choose|i: int| 0 <= i < s.drop_last().len() && (#[trigger] s.drop_last()[i]).0 == k;
            assert(s[i].0 == k);
        }
        if has_name(s, k) && s.last().0 != k {
            let i = choose|i: int| 0 <= i < s.len() && (#[trigger] s[i]).0 == k;
            assert(s.drop_last()[i].0 == k);
        }
    }
}

proof fn lemma_last_wins_update(acc: Seq<PairText>, i: int, kv: PairText)
    requires
        names_distinct(acc),
        0 <= i < acc.len(),
        acc[i].0 == kv.0,
    ensures
        last_wins(acc.update(i, kv)) == last_wins(acc).insert(kv.0, kv.1),
    decreases acc.len(),
{
    let post = acc.update(i, kv);
    if i == acc.len() - 1 {
        assert(post.drop_last() =~= acc.drop_last());
        assert(last_wins(post) =~= last_wins(acc).insert(kv.0, kv.1));
    } else {
        let init = acc.drop_last();
        assert(post.drop_last() =~= init.update(i, kv));
        assert(names_distinct(init));
        lemma_last_wins_update(init, i, kv);
        assert(acc.last().0 != kv.0);
        assert(post.last() == acc.last());
        assert(last_wins(post) =~= last_wins(acc).insert(kv.0, kv.1));
    }
}

proof fn lemma_upsert(acc: Seq<PairText>, kv: PairText)
    requires
        names_distinct(acc),
    ensures
        names_distinct(upsert(acc, kv)),
        last_wins(upsert(acc, kv)) == last_wins(acc).insert(kv.0, kv.1),
        forall|k: Seq<char>| has_name(upsert(acc, kv), k) == (has_name(acc, k) || k == kv.0),
{
    if has_name(acc, kv.0) {
        let i = choose|i: int| 0 <= i < acc.len() && (#[trigger] acc[i]).0 == kv.0;
        let post = acc.update(i, kv);
        lemma_last_wins_update(acc, i, kv);
        assert forall|k: Seq<char>| has_name(post, k) == (has_name(acc, k) || k == kv.0) by {
            if has_name(acc, k) {
                let j = choose|j: int| 0 <= j < acc.len() && (#[trigger] acc[j]).0 == k;
                assert(post[j].0 == k);
            }
            if has_name(post, k) {
                let j = choose|j: int| 0 <= j < post.len() && (#[trigger] post[j]).0 == k;
                if j != i {
                    assert(acc[j].0 == k);
                }
            }
            if k == kv.0 {
                assert(post[i].0 == k);
            }
        }
    } else {
        let post = acc.push(kv);
        assert(post.drop_last() =~= acc);
        assert forall|a: int, b: int|
            0 <= a < post.len() && 0 <= b < post.len() && a != b implies (#[trigger] post[a]).0 != (#[trigger] post[b]).0 by {
            if a == acc.len() {
                assert(!(acc[b].0 == kv.0));
            } else if b == acc.len() {
                assert(!(acc[a].0 == kv.0));
            }
        }
        assert forall|k: Seq<char>| has_name(post, k) == (has_name(acc, k) || k == kv.0) by {
            if has_name(acc, k) {
                let j = choose|j: int| 0 <= j < acc.len() && (#[trigger] acc[j]).0 == k;
                assert(post[j].0 == k);
            }
            if has_name(post, k) {
                let j = choose|j: int| 0 <= j < post.len() && (#[trigger] post[j]).0 == k;
                if j < acc.len() {
                    assert(acc[j].0 == k);
                }
            }
            if k == kv.0 {
                assert(post[acc.len() as int].0 == k);
            }
        }
    }
}

/// Collapsing keeps one pair per name, keeps every name, and reads as the
/// same map as the pairs it came from.
pub proof fn lemma_collapsed(s: Seq<PairText>)
    ensures
        names_distinct(collapsed(s)),
        last_wins(collapsed(s)) == last_wins(s),
        forall|k: Seq<char>| has_name(collapsed(s), k) == has_name(s, k),
    decreases s.len(),
{
    if s.len() > 0 {
        lemma_collapsed(s.drop_last());
        lemma_upsert(collapsed(s.drop_last()), s.last());
        assert forall|k: Seq<char>| has_name(collapsed(s), k) == has_name(s, k) by {
            lemma_last_wins_dom(s, k);
            lemma_last_wins_dom(s.drop_last(), k);
        }
    }
}

/// The room query holds one pair per name and reads as the query's own map
/// with the room added when the query names none: an existing room is kept.
pub proof fn lemma_room_query(decoded: Seq<PairText>, room: Seq<char>)
    ensures
        names_distinct(room_query(decoded, room)),
        has_name(room_query(decoded, room), room_key()),
        last_wins(room_query(decoded, room)) == (if last_wins(decoded).dom().contains(room_key()) {
            last_wins(decoded)
        } else {
            last_wins(decoded).insert(room_key(), room)
        }),
{
    lemma_collapsed(decoded);
    lemma_last_wins_dom(decoded, room_key());
    let c = collapsed(decoded);
    if !has_name(c, room_key()) {
        lemma_upsert(c, (room_key(), room));
        assert(!has_name(c, (room_key(), room).0));
        assert(upsert(c, (room_key(), room)) == c.push((room_key(), room)));
    }
}

/// The position of the pair named `k`, if any.
fn name_position(acc: &Vec<(String, String)>, k: &str) -> (p: Option<usize>)
    ensures
        match p {
            Some(i) => i < acc@.len() && pairs_text(acc@)[i as int].0 == k@,
            None => !has_name(pairs_text(acc@), k@),
        },
{
    let mut i: usize = 0;
    while i < acc.len()
        invariant
            i <= acc@.len(),
            forall|j: int| 0 <= j < i ==> (#[trigger] pairs_text(acc@)[j]).0 != k@,
        decreases acc@.len() - i,
    {
        if str_eq(acc[i].0.as_str(), k) {
            return Some(i);
        }
        i = i + 1;
    }
    None
}

/// The pairs with one pair per name: names in order of first appearance,
/// each with the value of its last appearance.
pub fn collapse_pairs(pairs: Vec<(String, String)>) -> (out: Vec<(String, String)>)
    ensures
        pairs_text(out@) == collapsed(pairs_text(pairs@)),
{
    let ghost all = pairs_text(pairs@);
    let mut out: Vec<(String, String)> = Vec::new();
    let mut i: usize = 0;
    assert(all.subrange(0, 0) =~= Seq::<PairText>::empty());
    while i < pairs.len()
        invariant
            all == pairs_text(pairs@),
            i <= pairs@.len(),
            pairs_text(out@) == collapsed(all.subrange(0, i as int)),
            names_distinct(pairs_text(out@)),
        decreases pairs@.len() - i,
    {
        let ghost acc = pairs_text(out@);
        let name = pairs[i].0.clone();
        let value = pairs[i].1.clone();
        let ghost kv = (name@, value@);
        proof {
            assert(all[i as int] == kv);
            let next = all.subrange(0, i + 1);
            assert(next.drop_last() =~= all.subrange(0, i as int));
            assert(next.last() == kv);
            assert(collapsed(next) == upsert(acc, kv));
            lemma_upsert(acc, kv);
        }
        match name_position(&out, name.as_str()) {
            Some(k) => {
                proof {
                    let j = choose|j: int| 0 <= j < acc.len() && (#[trigger] acc[j]).0 == kv.0;
                    assert(acc[k as int].0 == kv.0);
                    assert(j == k);
                }
                out.set(k, (name, value));
                assert(pairs_text(out@) =~= acc.update(k as int, kv));
            },
            None => {
                out.push((name, value));
                assert(pairs_text(out@) =~= acc.push(kv));
            },
        }
        i = i + 1;
    }
    assert(all.subrange(0, i as int) =~= all);
    out
}

/// The pairs of a decoded query, one per name, with the conference room
/// added unless the query names one already.
pub fn room_query_pairs(decoded: Vec<(String, String)>, room: &str) -> (out: Vec<(String, String)>)
    ensures
        pairs_text(out@) == room_query(pairs_text(decoded@), room@),
{
    let mut out = collapse_pairs(decoded);
    proof { lemma_collapsed(pairs_text(decoded@)); }
    match name_position(&out, "room") {
        Some(_) => {},
        None => {
            let ghost before = pairs_text(out@);
            out.push((String::from_str("room"), String::from_str(room)));
            assert(pairs_text(out@) =~= before.push((room_key(), room@)));
        },
    }
    out
}

} // verus!
