//! Deterministic ordering of remap entries and descriptor files: a stable
//! insertion sort, specified exactly, with its order, permutation and
//! stability laws.

use vstd::prelude::*;
use vstd::string::*;
use vstd::seq_lib::*;
use crate::ext::lower_of;
use crate::ext::lowercase;
use crate::model::RemapEntry;
use crate::model::RemapEntryView;
use crate::model::entry_views;
use crate::strutil::seq_le;
use crate::strutil::seq_lt;
use crate::strutil::lemma_seq_lt_asymmetric;
use crate::strutil::lemma_seq_lt_transitive;
use crate::strutil::lemma_seq_lt_connected;

verus! {

/// The sort key of a remap entry: its key string, case-folded. Numeric
/// keys compare as their literal decimal spelling, not by value.
pub open spec fn entry_key(e: RemapEntry) -> Seq<char> {
    lower_of(e.key_text@)
}

/// The entry key as a function value, shared by specs and laws.
pub open spec fn entry_key_fn() -> spec_fn(RemapEntry) -> Seq<char> {
    |e: RemapEntry| entry_key(e)
}

/// The sort key of a descriptor file: its file name.
pub open spec fn file_key_fn() -> spec_fn((String, String)) -> Seq<char> {
    |p: (String, String)| p.0@
}

/// The entry key, over entry views.
pub open spec fn entry_key_v_fn() -> spec_fn(RemapEntryView) -> Seq<char> {
    |e: RemapEntryView| lower_of(e.key_text)
}

/// `x` placed into `s` after every element whose key is not greater than
/// `x`'s: the insertion step of a stable insertion sort.
pub open spec fn insert_by<T>(x: T, s: Seq<T>, key: spec_fn(T) -> Seq<char>) -> Seq<T>
    decreases s.len(),
{
    if s.len() == 0 {
        seq![x]
    } else if seq_le(key(s.last()), key(x)) {
        s.push(x)
    } else {
        insert_by(x, s.drop_last(), key).push(s.last())
    }
}

/// The stable sort of `s` by `key`: elements in ascending key order,
/// elements of equal key in their original relative order.
pub open spec fn sort_by<T>(s: Seq<T>, key: spec_fn(T) -> Seq<char>) -> Seq<T>
    decreases s.len(),
{
    if s.len() == 0 {
        Seq::empty()
    } else {
        insert_by(s.last(), sort_by(s.drop_last(), key), key)
    }
}

/// Whether `s` is in ascending key order.
pub open spec fn sorted_by<T>(s: Seq<T>, key: spec_fn(T) -> Seq<char>) -> bool {
    forall|i: int, j: int| 0 <= i < j < s.len() ==> seq_le(key(#[trigger] s[i]), key(#[trigger] s[j]))
}

/// The predicate selecting elements whose key is exactly `k`.
pub open spec fn key_is<T>(key: spec_fn(T) -> Seq<char>, k: Seq<char>) -> spec_fn(T) -> bool {
    |e: T| key(e) == k
}

/// The non-strict key order is transitive.
proof fn lemma_seq_le_transitive(a: Seq<char>, b: Seq<char>, c: Seq<char>)
    ensures
        seq_le(a, b) && seq_le(b, c) ==> seq_le(a, c),
{
    if seq_le(a, b) && seq_le(b, c) && seq_lt(c, a) {
        lemma_seq_lt_connected(b, a);
        lemma_seq_lt_connected(c, b);
        if !seq_lt(a, b) && !seq_lt(b, c) {
            assert(a =~= b);
            assert(b =~= c);
            lemma_seq_lt_asymmetric(c, a);
        } else if !seq_lt(a, b) {
            assert(a =~= b);
        } else if !seq_lt(b, c) {
            assert(b =~= c);
        } else {
            lemma_seq_lt_transitive(a, b, c);
            lemma_seq_lt_asymmetric(a, c);
        }
    }
}

/// Inserting at the position the exec scan finds is exactly `insert_by`.
proof fn lemma_insert_by_at<T>(x: T, s: Seq<T>, key: spec_fn(T) -> Seq<char>, j: int)
    requires
        0 <= j <= s.len(),
        forall|k: int| j <= k < s.len() ==> seq_lt(key(x), key(#[trigger] s[k])),
        j > 0 ==> seq_le(key(s[j - 1]), key(x)),
    ensures
        insert_by(x, s, key) == s.subrange(0, j).push(x) + s.subrange(j, s.len() as int),
    decreases s.len(),
{
    if s.len() == 0 {
        assert(insert_by(x, s, key) =~= s.subrange(0, 0).push(x) + s.subrange(0, 0));
    } else if j == s.len() {
        assert(seq_le(key(s.last()), key(x)));
        assert(s.subrange(0, j) =~= s);
        assert(insert_by(x, s, key) =~= s.subrange(0, j).push(x) + s.subrange(j, s.len() as int));
    } else {
        assert(seq_lt(key(x), key(s.last())));
        let dl = s.drop_last();
        assert(forall|k: int| j <= k < dl.len() ==> seq_lt(key(x), key(#[trigger] dl[k])));
        assert(j > 0 ==> dl[j - 1] == s[j - 1]);
        lemma_insert_by_at(x, dl, key, j);
        assert(dl.subrange(0, j) =~= s.subrange(0, j));
        assert(dl.subrange(j, dl.len() as int).push(s.last()) =~= s.subrange(j, s.len() as int));
        assert(insert_by(x, s, key) == insert_by(x, dl, key).push(s.last()));
        assert((dl.subrange(0, j).push(x) + dl.subrange(j, dl.len() as int)).push(s.last()) =~= s
            .subrange(0, j).push(x) + s.subrange(j, s.len() as int));
    }
}

/// One insertion keeps the sequence sorted and adds exactly `x` to its
/// contents.
proof fn lemma_insert_by_ordered<T>(x: T, s: Seq<T>, key: spec_fn(T) -> Seq<char>)
    requires
        sorted_by(s, key),
    ensures
        sorted_by(insert_by(x, s, key), key),
        insert_by(x, s, key).to_multiset() == s.to_multiset().insert(x),
        insert_by(x, s, key).len() == s.len() + 1,
    decreases s.len(),
{
    broadcast use vstd::seq_lib::group_to_multiset_ensures;

    let out = insert_by(x, s, key);
    if s.len() == 0 {
        assert(out =~= Seq::empty().push(x));
        assert(out.to_multiset() =~= s.to_multiset().insert(x));
    } else if seq_le(key(s.last()), key(x)) {
        assert(out == s.push(x));
        assert forall|i: int, j: int| 0 <= i < j < out.len() implies seq_le(
            key(#[trigger] out[i]),
            key(#[trigger] out[j]),
        ) by {
            if j == out.len() - 1 {
                if i < s.len() - 1 {
                    assert(seq_le(key(s[i]), key(s[s.len() - 1])));
                }
                lemma_seq_le_transitive(key(out[i]), key(s.last()), key(x));
            }
        }
    } else {
        let dl = s.drop_last();
        assert(sorted_by(dl, key)) by {
            assert(forall|i: int, j: int|
                0 <= i < j < dl.len() ==> seq_le(key(#[trigger] dl[i]), key(#[trigger] dl[j])));
        }
        lemma_insert_by_ordered(x, dl, key);
        let ins = insert_by(x, dl, key);
        assert(out == ins.push(s.last()));
        // every element of the inner insertion is x or one of dl's
        assert forall|i: int| 0 <= i < ins.len() implies seq_le(
            key(#[trigger] ins[i]),
            key(s.last()),
        ) by {
            assert(ins.contains(ins[i]));
            assert(ins.to_multiset().count(ins[i]) > 0);
            if ins[i] == x {
                lemma_seq_lt_asymmetric(key(x), key(s.last()));
            } else {
                assert(dl.to_multiset().count(ins[i]) > 0);
                assert(dl.contains(ins[i]));
                let w = choose|w: int| 0 <= w < dl.len() && dl[w] == ins[i];
                assert(seq_le(key(s[w]), key(s[s.len() - 1])));
            }
        }
        assert forall|i: int, j: int| 0 <= i < j < out.len() implies seq_le(
            key(#[trigger] out[i]),
            key(#[trigger] out[j]),
        ) by {
            if j < out.len() - 1 {
                assert(out[i] == ins[i] && out[j] == ins[j]);
            } else {
                assert(out[i] == ins[i]);
            }
        }
        assert(dl.push(s.last()) =~= s);
        assert(out.to_multiset() =~= s.to_multiset().insert(x));
    }
}

/// One insertion appends to the selection of `x`'s own key and leaves the
/// selection of every other key unchanged.
proof fn lemma_insert_by_filter<T>(x: T, s: Seq<T>, key: spec_fn(T) -> Seq<char>, k: Seq<char>)
    ensures
        insert_by(x, s, key).filter(key_is(key, k)) == if key(x) == k {
            s.filter(key_is(key, k)).push(x)
        } else {
            s.filter(key_is(key, k))
        },
    decreases s.len(),
{
    reveal(Seq::filter);
    let p = key_is(key, k);
    let out = insert_by(x, s, key);
    if s.len() == 0 {
        assert(out == seq![x]);
        assert(out.len() == 1 && out.last() == x);
        assert(out.drop_last() =~= Seq::<T>::empty());
        assert(out.drop_last().filter(p) == Seq::<T>::empty());
        assert(out.filter(p) == if p(x) {
            Seq::<T>::empty().push(x)
        } else {
            Seq::<T>::empty()
        });
        assert(s.filter(p) == Seq::<T>::empty());
    } else if seq_le(key(s.last()), key(x)) {
        assert(out == s.push(x));
        assert(out.drop_last() =~= s);
        assert(out.last() == x);
    } else {
        let dl = s.drop_last();
        lemma_insert_by_filter(x, dl, key, k);
        let ins = insert_by(x, dl, key);
        assert(out == ins.push(s.last()));
        assert(out.drop_last() =~= ins);
        assert(out.last() == s.last());
        if key(x) == k {
            // x's key equals s.last()'s key would contradict the branch
            assert(seq_lt(key(x), key(s.last())));
            if key(s.last()) == k {
                crate::strutil::lemma_seq_lt_irreflexive(k);
                assert(false);
            }
            assert(out.filter(p) == ins.filter(p));
            assert(s.filter(p) == dl.filter(p));
        } else {
            if p(s.last()) {
                assert(out.filter(p) == ins.filter(p).push(s.last()));
                assert(s.filter(p) == dl.filter(p).push(s.last()));
            } else {
                assert(out.filter(p) == ins.filter(p));
                assert(s.filter(p) == dl.filter(p));
            }
        }
    }
}

/// LAW: the sort puts the entries in ascending key order.
pub proof fn lemma_sort_by_sorted<T>(s: Seq<T>, key: spec_fn(T) -> Seq<char>)
    ensures
        sorted_by(sort_by(s, key), key),
        sort_by(s, key).len() == s.len(),
    decreases s.len(),
{
    if s.len() > 0 {
        lemma_sort_by_sorted(s.drop_last(), key);
        lemma_insert_by_ordered(s.last(), sort_by(s.drop_last(), key), key);
    }
}

/// LAW: the sort is a permutation: no entry appears or disappears.
pub proof fn lemma_sort_by_permutes<T>(s: Seq<T>, key: spec_fn(T) -> Seq<char>)
    ensures
        sort_by(s, key).to_multiset() == s.to_multiset(),
    decreases s.len(),
{
    broadcast use vstd::seq_lib::group_to_multiset_ensures;

    if s.len() == 0 {
        assert(sort_by(s, key) =~= s);
    } else {
        let dl = s.drop_last();
        lemma_sort_by_permutes(dl, key);
        lemma_sort_by_sorted(dl, key);
        lemma_insert_by_ordered(s.last(), sort_by(dl, key), key);
        assert(dl.push(s.last()) =~= s);
        assert(sort_by(s, key).to_multiset() =~= s.to_multiset());
    }
}

/// LAW: the sort is stable: for any key, the entries carrying exactly
/// that key keep their original relative order.
pub proof fn lemma_sort_by_stable<T>(s: Seq<T>, key: spec_fn(T) -> Seq<char>, k: Seq<char>)
    ensures
        sort_by(s, key).filter(key_is(key, k)) == s.filter(key_is(key, k)),
    decreases s.len(),
{
    reveal(Seq::filter);
    if s.len() == 0 {
        assert(sort_by(s, key).filter(key_is(key, k)) =~= s.filter(key_is(key, k)));
    } else {
        let dl = s.drop_last();
        lemma_sort_by_stable(dl, key, k);
        lemma_insert_by_filter(s.last(), sort_by(dl, key), key, k);
        let p = key_is(key, k);
        if p(s.last()) {
            assert(s.filter(p) == dl.filter(p).push(s.last()));
        } else {
            assert(s.filter(p) == dl.filter(p));
        }
    }
}

/// One insertion is the same seen through entry views.
proof fn lemma_insert_by_view(x: RemapEntry, s: Seq<RemapEntry>)
    ensures
        entry_views(insert_by(x, s, entry_key_fn())) == insert_by(
            x@,
            entry_views(s),
            entry_key_v_fn(),
        ),
    decreases s.len(),
{
    let k = entry_key_fn();
    let kv = entry_key_v_fn();
    let sv = entry_views(s);
    if s.len() == 0 {
        assert(entry_views(seq![x]) =~= seq![x@]);
        assert(sv.len() == 0);
    } else {
        assert(sv.last() == s.last()@);
        assert(kv(s.last()@) == k(s.last()));
        assert(kv(x@) == k(x));
        if seq_le(k(s.last()), k(x)) {
            assert(entry_views(s.push(x)) =~= sv.push(x@));
        } else {
            lemma_insert_by_view(x, s.drop_last());
            assert(entry_views(s.drop_last()) =~= sv.drop_last());
            assert(entry_views(insert_by(x, s.drop_last(), k).push(s.last())) =~= entry_views(
                insert_by(x, s.drop_last(), k),
            ).push(s.last()@));
        }
    }
}

/// The sort is the same seen through entry views.
pub proof fn lemma_sort_by_view(s: Seq<RemapEntry>)
    ensures
        entry_views(sort_by(s, entry_key_fn())) == sort_by(entry_views(s), entry_key_v_fn()),
    decreases s.len(),
{
    if s.len() == 0 {
        assert(entry_views(s).len() == 0);
        assert(entry_views(Seq::<RemapEntry>::empty()) =~= Seq::<RemapEntryView>::empty());
    } else {
        lemma_sort_by_view(s.drop_last());
        lemma_insert_by_view(s.last(), sort_by(s.drop_last(), entry_key_fn()));
        assert(entry_views(s).drop_last() =~= entry_views(s.drop_last()));
        assert(entry_views(s).last() == s.last()@);
    }
}

/// Sorts the remap entries of one record: ascending by case-folded key
/// string, stable for keys that fold to the same string.
pub fn sort_remap(entries: Vec<RemapEntry>) -> (r: Vec<RemapEntry>)
    ensures
        r@ == sort_by(entries@, entry_key_fn()),
{
    let ghost orig = entries@;
    let ghost key = entry_key_fn();
    let mut rem = entries;
    let mut out: Vec<RemapEntry> = Vec::new();
    let mut lows: Vec<String> = Vec::new();
    proof {
        assert(rem@ =~= orig.skip(0));
        assert(out@ == sort_by(orig.take(0), key)) by {
            assert(orig.take(0).len() == 0);
        }
    }
    while rem.len() > 0
        invariant
            key == entry_key_fn(),
            rem@ =~= orig.skip(orig.len() - rem@.len()),
            rem@.len() <= orig.len(),
            out@ == sort_by(orig.take(orig.len() - rem@.len()), key),
            lows@.len() == out@.len(),
            forall|w: int| 0 <= w < lows@.len() ==> lows@[w]@ == key(#[trigger] out@[w]),
        decreases rem@.len(),
    {
        let ghost i = orig.len() - rem@.len();
        let x = rem.remove(0);
        proof {
            assert(x == orig[i]);
            assert(rem@ =~= orig.skip(i + 1));
        }
        let xl = lowercase(x.key_text.as_str());
        let ghost out0 = out@;
        let mut j: usize = out.len();
        while j > 0 && crate::strutil::str_lt(xl.as_str(), lows[j - 1].as_str())
            invariant
                key == entry_key_fn(),
                xl@ == key(x),
                j <= out@.len(),
                lows@.len() == out@.len(),
                forall|w: int| 0 <= w < lows@.len() ==> lows@[w]@ == key(#[trigger] out@[w]),
                forall|w: int| j <= w < out@.len() ==> seq_lt(key(x), key(#[trigger] out@[w])),
            decreases j,
        {
            j -= 1;
        }
        proof {
            lemma_insert_by_at(x, out0, key, j as int);
        }
        let ghost lows0 = lows@;
        out.insert(j, x);
        lows.insert(j, xl);
        proof {
            assert(out@ =~= out0.subrange(0, j as int).push(x) + out0.subrange(
                j as int,
                out0.len() as int,
            ));
            assert(out@ == insert_by(x, out0, key));
            assert(orig.take(i + 1).drop_last() =~= orig.take(i));
            assert(orig.take(i + 1).last() == orig[i]);
            assert(out@ == sort_by(orig.take(i + 1), key));
            assert forall|w: int| 0 <= w < lows@.len() implies lows@[w]@ == key(
                #[trigger] out@[w],
            ) by {
                assert(out@ == out0.insert(j as int, x));
                assert(lows@[w] == if w < j {
                    lows0[w]
                } else if w == j {
                    xl
                } else {
                    lows0[w - 1]
                });
            }
        }
    }
    proof {
        assert(orig.take(orig.len() as int) =~= orig);
    }
    out
}

/// Sorts the descriptor files by file name, so that a compilation run
/// does not depend on the order a directory happens to list them in.
pub fn sort_file_list(files: Vec<(String, String)>) -> (r: Vec<(String, String)>)
    ensures
        r@ == sort_by(files@, file_key_fn()),
{
    let ghost orig = files@;
    let ghost key = file_key_fn();
    let mut rem = files;
    let mut out: Vec<(String, String)> = Vec::new();
    proof {
        assert(rem@ =~= orig.skip(0));
        assert(out@ == sort_by(orig.take(0), key)) by {
            assert(orig.take(0).len() == 0);
        }
    }
    while rem.len() > 0
        invariant
            key == file_key_fn(),
            rem@ =~= orig.skip(orig.len() - rem@.len()),
            rem@.len() <= orig.len(),
            out@ == sort_by(orig.take(orig.len() - rem@.len()), key),
        decreases rem@.len(),
    {
        let ghost i = orig.len() - rem@.len();
        let x = rem.remove(0);
        proof {
            assert(x == orig[i]);
            assert(rem@ =~= orig.skip(i + 1));
        }
        let ghost out0 = out@;
        let mut j: usize = out.len();
        while j > 0 && crate::strutil::str_lt(x.0.as_str(), out[j - 1].0.as_str())
            invariant
                key == file_key_fn(),
                j <= out@.len(),
                forall|w: int| j <= w < out@.len() ==> seq_lt(key(x), key(#[trigger] out@[w])),
            decreases j,
        {
            j -= 1;
        }
        proof {
            lemma_insert_by_at(x, out0, key, j as int);
        }
        out.insert(j, x);
        proof {
            assert(out@ =~= out0.subrange(0, j as int).push(x) + out0.subrange(
                j as int,
                out0.len() as int,
            ));
            assert(out@ == insert_by(x, out0, key));
            assert(orig.take(i + 1).drop_last() =~= orig.take(i));
            assert(orig.take(i + 1).last() == orig[i]);
            assert(out@ == sort_by(orig.take(i + 1), key));
        }
    }
    proof {
        assert(orig.take(orig.len() as int) =~= orig);
    }
    out
}

} // verus!
