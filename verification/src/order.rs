//! The order in which the entries of a directory are offered: by name, the
//! names compared byte by byte in their UTF-8 encoding.
use vstd::prelude::*;
use vstd::utf8::encode_utf8;
use vstd::string::StringSliceAdditionalSpecFns;
use crate::fstream::common::{DirEntry, EntryView};
use crate::vecs::reversed;

verus! {

/// `a` comes no later than `b`, both taken from position `i` on, where they
/// agree before `i`.
pub open spec fn bytes_le_from(a: Seq<u8>, b: Seq<u8>, i: int) -> bool
    decreases a.len() - i,
{
    if i >= a.len() {
        true
    } else if i >= b.len() {
        false
    } else if a[i] != b[i] {
        a[i] < b[i]
    } else {
        bytes_le_from(a, b, i + 1)
    }
}

/// `a` comes no later than `b` in the lexicographic order of bytes.
pub open spec fn bytes_le(a: Seq<u8>, b: Seq<u8>) -> bool {
    bytes_le_from(a, b, 0)
}

/// The name `a` comes no later than the name `b`.
pub open spec fn name_le(a: Seq<char>, b: Seq<char>) -> bool {
    bytes_le(encode_utf8(a), encode_utf8(b))
}

/// The name `a` comes strictly before the name `b`.
pub open spec fn name_lt(a: Seq<char>, b: Seq<char>) -> bool {
    name_le(a, b) && !name_le(b, a)
}

/// `x` put into `s` behind the last entry that comes no later than it.
pub open spec fn insert(s: Seq<EntryView>, x: EntryView) -> Seq<EntryView>
    decreases s.len(),
{
    if s.len() == 0 {
        seq![x]
    } else if name_le(s.last().name, x.name) {
        s.push(x)
    } else {
        insert(s.drop_last(), x).push(s.last())
    }
}

/// The entries of `s` in the order of their names; entries of one name keep
/// the order they came in.
pub open spec fn sorted(s: Seq<EntryView>) -> Seq<EntryView>
    decreases s.len(),
{
    if s.len() == 0 {
        s
    } else {
        insert(sorted(s.drop_last()), s.last())
    }
}

/// Each entry of `s` comes no later than the one behind it.
pub open spec fn ordered(s: Seq<EntryView>) -> bool {
    forall|i: int| 0 <= i < s.len() - 1 ==> name_le(#[trigger] s[i].name, s[i + 1].name)
}

/// No two entries of `s` have one name.
pub open spec fn distinct(s: Seq<EntryView>) -> bool {
    forall|i: int, j: int| 0 <= i < j < s.len() ==> #[trigger] s[i].name != #[trigger] s[j].name
}

/// Each entry of `s` comes strictly before the one behind it.
pub open spec fn increasing(s: Seq<EntryView>) -> bool {
    forall|i: int| 0 <= i < s.len() - 1 ==> name_lt(#[trigger] s[i].name, s[i + 1].name)
}

/// What the contracts say of a list of entries.
pub open spec fn views(s: Seq<DirEntry>) -> Seq<EntryView> {
    s.map_values(|e: DirEntry| e@)
}

/// Of two byte strings one comes no later than the other.
pub proof fn lemma_bytes_le_total(a: Seq<u8>, b: Seq<u8>, i: int)
    requires
        0 <= i,
        !bytes_le_from(a, b, i),
    ensures
        bytes_le_from(b, a, i),
    decreases a.len() - i,
{
    if i < a.len() && i < b.len() && a[i] == b[i] {
        lemma_bytes_le_total(a, b, i + 1);
    }
}

/// Two byte strings that agree before `i`, each no later than the other from
/// there on, are one string.
pub proof fn lemma_bytes_le_antisymmetric(a: Seq<u8>, b: Seq<u8>, i: int)
    requires
        0 <= i <= a.len(),
        i <= b.len(),
        forall|j: int| 0 <= j < i ==> a[j] == b[j],
        bytes_le_from(a, b, i),
        bytes_le_from(b, a, i),
    ensures
        a == b,
    decreases a.len() - i,
{
    if i < a.len() && i < b.len() {
        lemma_bytes_le_antisymmetric(a, b, i + 1);
    } else {
        assert(a =~= b);
    }
}

/// Two names, each no later than the other, are one name.
pub proof fn lemma_name_le_antisymmetric(a: Seq<char>, b: Seq<char>)
    requires
        name_le(a, b),
        name_le(b, a),
    ensures
        a == b,
{
    lemma_bytes_le_antisymmetric(encode_utf8(a), encode_utf8(b), 0);
    vstd::utf8::encode_utf8_decode_utf8(a);
    vstd::utf8::encode_utf8_decode_utf8(b);
}

/// Putting an entry into a list adds it once and keeps the rest.
pub proof fn lemma_insert_permutes(s: Seq<EntryView>, x: EntryView)
    ensures
        insert(s, x).to_multiset() == s.to_multiset().insert(x),
        insert(s, x).len() == s.len() + 1,
    decreases s.len(),
{
    if s.len() == 0 {
        assert(seq![x] =~= s.push(x));
        vstd::seq_lib::to_multiset_build(s, x);
    } else if name_le(s.last().name, x.name) {
        vstd::seq_lib::to_multiset_build(s, x);
    } else {
        let t = s.drop_last();
        lemma_insert_permutes(t, x);
        assert(s =~= t.push(s.last()));
        vstd::seq_lib::to_multiset_build(t, s.last());
        vstd::seq_lib::to_multiset_build(insert(t, x), s.last());
        assert(insert(s, x).to_multiset() =~= s.to_multiset().insert(x));
    }
}

/// Sorting keeps each entry, as often as it occurs.
pub proof fn lemma_sorted_permutes(s: Seq<EntryView>)
    ensures
        sorted(s).to_multiset() == s.to_multiset(),
        sorted(s).len() == s.len(),
    decreases s.len(),
{
    if s.len() > 0 {
        lemma_sorted_permutes(s.drop_last());
        lemma_insert_permutes(sorted(s.drop_last()), s.last());
        assert(s =~= s.drop_last().push(s.last()));
        vstd::seq_lib::to_multiset_build(s.drop_last(), s.last());
    }
}

/// Putting an entry into an ordered list leaves it ordered.
pub proof fn lemma_insert_ordered(s: Seq<EntryView>, x: EntryView)
    requires
        ordered(s),
    ensures
        ordered(insert(s, x)),
        insert(s, x).len() == s.len() + 1,
        insert(s, x).last() == x || (s.len() > 0 && insert(s, x).last() == s.last()),
    decreases s.len(),
{
    if s.len() == 0 {
    } else if name_le(s.last().name, x.name) {
        let r = s.push(x);
        assert forall|i: int| 0 <= i < r.len() - 1 implies name_le(
            #[trigger] r[i].name,
            r[i + 1].name,
        ) by {
            if i < s.len() - 1 {
                assert(name_le(s[i].name, s[i + 1].name));
            }
        }
    } else {
        let t = s.drop_last();
        assert forall|i: int| 0 <= i < t.len() - 1 implies name_le(
            #[trigger] t[i].name,
            t[i + 1].name,
        ) by {
            assert(name_le(s[i].name, s[i + 1].name));
        }
        lemma_insert_ordered(t, x);
        let u = insert(t, x);
        let r = u.push(s.last());
        lemma_bytes_le_total(encode_utf8(s.last().name), encode_utf8(x.name), 0);
        assert forall|i: int| 0 <= i < r.len() - 1 implies name_le(
            #[trigger] r[i].name,
            r[i + 1].name,
        ) by {
            if i < u.len() - 1 {
                assert(name_le(u[i].name, u[i + 1].name));
            } else {
                if u.last() == x {
                } else {
                    assert(name_le(s[s.len() - 2].name, s[s.len() - 2 + 1].name));
                }
            }
        }
    }
}

/// A sorted list is ordered.
pub proof fn lemma_sorted_ordered(s: Seq<EntryView>)
    ensures
        ordered(sorted(s)),
    decreases s.len(),
{
    if s.len() > 0 {
        lemma_sorted_ordered(s.drop_last());
        lemma_insert_ordered(sorted(s.drop_last()), s.last());
    }
}

/// Putting a new name into a list without repeated names repeats none.
pub proof fn lemma_insert_distinct(s: Seq<EntryView>, x: EntryView)
    requires
        distinct(s),
        forall|j: int| 0 <= j < s.len() ==> (#[trigger] s[j]).name != x.name,
    ensures
        distinct(insert(s, x)),
        forall|j: int|
            0 <= j < insert(s, x).len() ==> #[trigger] insert(s, x)[j] == x || s.contains(
                insert(s, x)[j],
            ),
    decreases s.len(),
{
    if s.len() == 0 {
    } else if name_le(s.last().name, x.name) {
        let r = s.push(x);
        assert forall|j: int| 0 <= j < r.len() implies #[trigger] r[j] == x || s.contains(
            r[j],
        ) by {
            if j < s.len() {
                assert(s[j] == r[j]);
            }
        }
    } else {
        let t = s.drop_last();
        lemma_insert_distinct(t, x);
        let u = insert(t, x);
        let r = u.push(s.last());
        assert forall|j: int| 0 <= j < r.len() implies #[trigger] r[j] == x || s.contains(
            r[j],
        ) by {
            if j < u.len() {
                if u[j] != x {
                    assert(t.contains(u[j]));
                    let k = choose|k: int| 0 <= k < t.len() && t[k] == u[j];
                    assert(s[k] == u[j]);
                }
            } else {
                assert(s[s.len() - 1] == r[j]);
            }
        }
        assert forall|a: int, b: int| 0 <= a < b < r.len() implies #[trigger] r[a].name
            != #[trigger] r[b].name by {
            if b < u.len() {
                assert(u[a].name != u[b].name);
            } else {
                if u[a] == x {
                    assert(s[s.len() - 1].name != x.name);
                } else {
                    assert(t.contains(u[a]));
                    let k = choose|k: int| 0 <= k < t.len() && t[k] == u[a];
                    assert(s[k].name != s[s.len() - 1].name);
                }
            }
        }
    }
}

/// Sorting a list without repeated names repeats none, and brings in no
/// entry from elsewhere.
pub proof fn lemma_sorted_distinct(s: Seq<EntryView>)
    requires
        distinct(s),
    ensures
        distinct(sorted(s)),
        forall|j: int| 0 <= j < sorted(s).len() ==> s.contains(#[trigger] sorted(s)[j]),
    decreases s.len(),
{
    if s.len() > 0 {
        let t = s.drop_last();
        let x = s.last();
        lemma_sorted_distinct(t);
        let u = sorted(t);
        assert forall|j: int| 0 <= j < u.len() implies (#[trigger] u[j]).name != x.name by {
            assert(t.contains(u[j]));
            let k = choose|k: int| 0 <= k < t.len() && t[k] == u[j];
            assert(s[k].name != s[s.len() - 1].name);
        }
        lemma_insert_distinct(u, x);
        let r = insert(u, x);
        assert forall|j: int| 0 <= j < r.len() implies s.contains(#[trigger] r[j]) by {
            if r[j] == x {
                assert(s[s.len() - 1] == x);
            } else {
                assert(u.contains(r[j]));
                let i = choose|i: int| 0 <= i < u.len() && u[i] == r[j];
                assert(t.contains(u[i]));
                let k = choose|k: int| 0 <= k < t.len() && t[k] == u[i];
                assert(s[k] == r[j]);
            }
        }
    }
}

/// The entries of a directory are offered in strictly increasing order of
/// their names, whenever no two of them have one name.
pub proof fn lemma_sorted_increasing(s: Seq<EntryView>)
    requires
        distinct(s),
    ensures
        increasing(sorted(s)),
{
    lemma_sorted_distinct(s);
    lemma_sorted_ordered(s);
    let r = sorted(s);
    assert forall|i: int| 0 <= i < r.len() - 1 implies name_lt(
        #[trigger] r[i].name,
        r[i + 1].name,
    ) by {
        assert(name_le(r[i].name, r[i + 1].name));
        if name_le(r[i + 1].name, r[i].name) {
            lemma_name_le_antisymmetric(r[i].name, r[i + 1].name);
            assert(r[i].name != r[i + 1].name);
        }
    }
}

/// Compares two names byte by byte.
pub fn name_no_later(a: &String, b: &String) -> (r: bool)
    ensures
        r == name_le(a@, b@),
{
    let x = a.as_str().as_bytes();
    let y = b.as_str().as_bytes();
    let mut i: usize = 0;
    while i < x.len() && i < y.len()
        invariant
            i <= x.len(),
            i <= y.len(),
            x@ == encode_utf8(a@),
            y@ == encode_utf8(b@),
            bytes_le(x@, y@) == bytes_le_from(x@, y@, i as int),
        decreases x.len() - i,
    {
        if x[i] != y[i] {
            return x[i] < y[i];
        }
        i = i + 1;
    }
    i >= x.len()
}

/// Sorts the entries of a directory by name.
pub fn sort(entries: Vec<DirEntry>) -> (r: Vec<DirEntry>)
    ensures
        views(r@) == sorted(views(entries@)),
{
    let ghost all = entries@;
    let n = entries.len();
    let mut r: Vec<DirEntry> = Vec::new();
    let mut taken: usize = 0;
    // Each entry is taken in the order it came in, and put into the result
    // behind the last entry that comes no later than it.
    let mut rest = reversed(entries);
    while rest.len() > 0
        invariant
            taken + rest@.len() == all.len(),
            all.len() == n,
            forall|j: int|
                0 <= j < rest@.len() ==> rest@[j] == all[all.len() - 1 - j],
            views(r@) == sorted(views(all.subrange(0, taken as int))),
        decreases rest.len(),
    {
        let e = rest.pop().unwrap();
        proof {
            let before = all.subrange(0, taken as int);
            let after = all.subrange(0, taken + 1);
            assert(e == all[taken as int]);
            assert(views(after).drop_last() =~= views(before));
            assert(views(after).last() == e@);
        }
        let ghost old_r = r@;
        let mut p: usize = r.len();
        proof {
            assert(views(old_r).subrange(0, p as int) =~= views(old_r));
            assert(insert(views(old_r), e@) + views(old_r).subrange(p as int, old_r.len() as int)
                =~= insert(views(old_r), e@));
        }
        while p > 0 && !name_no_later(&r[p - 1].name, &e.name)
            invariant
                p <= r.len(),
                r@ == old_r,
                insert(views(old_r), e@) == insert(views(old_r).subrange(0, p as int), e@)
                    + views(old_r).subrange(p as int, old_r.len() as int),
            decreases p,
        {
            proof {
                let s = views(old_r).subrange(0, p as int);
                assert(s.last() == old_r[p - 1]@);
                assert(s.drop_last() =~= views(old_r).subrange(0, p - 1));
                assert(insert(s.drop_last(), e@).push(s.last()) + views(old_r).subrange(
                    p as int,
                    old_r.len() as int,
                ) =~= insert(s.drop_last(), e@) + views(old_r).subrange(
                    p - 1,
                    old_r.len() as int,
                ));
            }
            p = p - 1;
        }
        proof {
            let s = views(old_r).subrange(0, p as int);
            if p > 0 {
                assert(s.last() == old_r[p - 1]@);
            }
            assert(insert(s, e@) == s.push(e@));
            assert(views(old_r.insert(p as int, e)) =~= s.push(e@) + views(old_r).subrange(
                p as int,
                old_r.len() as int,
            ));
        }
        r.insert(p, e);
        taken = taken + 1;
    }
    proof {
        assert(all.subrange(0, taken as int) =~= all);
    }
    r
}

} // verus!
