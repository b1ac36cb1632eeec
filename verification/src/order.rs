//! The order of texts, and sorting by it.

use crate::text::texts;
use vstd::prelude::*;
use vstd::string::*;
use vstd::utf8::*;

verus! {

/// Lexicographic order of byte sequences.
pub open spec fn bytes_less(a: Seq<u8>, b: Seq<u8>) -> bool
    decreases a.len(),
{
    b.len() > 0 && (a.len() == 0 || a[0] < b[0] || (a[0] == b[0] && bytes_less(
        a.skip(1),
        b.skip(1),
    )))
}

/// The order of texts: lexicographic by their UTF-8 bytes.
pub open spec fn text_less(a: Seq<char>, b: Seq<char>) -> bool {
    bytes_less(encode_utf8(a), encode_utf8(b))
}

proof fn lemma_bytes_less_total(a: Seq<u8>, b: Seq<u8>)
    ensures
        a == b || bytes_less(a, b) || bytes_less(b, a),
        !(bytes_less(a, b) && bytes_less(b, a)),
        a == b ==> !bytes_less(a, b),
    decreases a.len(),
{
    if a.len() > 0 && b.len() > 0 {
        lemma_bytes_less_total(a.skip(1), b.skip(1));
        if a[0] == b[0] && a.skip(1) == b.skip(1) {
            assert(a == seq![a[0]] + a.skip(1));
            assert(b == seq![b[0]] + b.skip(1));
        }
    } else if a.len() == 0 && b.len() == 0 {
        assert(a == b);
    }
}

proof fn lemma_bytes_less_transitive(a: Seq<u8>, b: Seq<u8>, c: Seq<u8>)
    requires
        bytes_less(a, b),
        bytes_less(b, c),
    ensures
        bytes_less(a, c),
    decreases a.len(),
{
    if a.len() > 0 && a[0] == b[0] && b[0] == c[0] {
        lemma_bytes_less_transitive(a.skip(1), b.skip(1), c.skip(1));
    }
}

/// The order of texts is a strict total order.
pub proof fn lemma_text_order(a: Seq<char>, b: Seq<char>, c: Seq<char>)
    ensures
        !text_less(a, a),
        a == b || text_less(a, b) || text_less(b, a),
        !(text_less(a, b) && text_less(b, a)),
        text_less(a, b) && text_less(b, c) ==> text_less(a, c),
{
    lemma_bytes_less_total(encode_utf8(a), encode_utf8(b));
    lemma_bytes_less_total(encode_utf8(a), encode_utf8(a));
    encode_utf8_decode_utf8(a);
    encode_utf8_decode_utf8(b);
    if text_less(a, b) && text_less(b, c) {
        lemma_bytes_less_transitive(encode_utf8(a), encode_utf8(b), encode_utf8(c));
    }
}

/// Whether `a` comes before `b`.
pub fn less(a: &str, b: &str) -> (r: bool)
    ensures
        r == text_less(a@, b@),
{
    let x = a.as_bytes();
    let y = b.as_bytes();
    let mut i: usize = 0;
    assert(x@.skip(0) == x@);
    assert(y@.skip(0) == y@);
    while i < x.len() && i < y.len()
        invariant
            i <= x@.len(),
            i <= y@.len(),
            x@ == encode_utf8(a@),
            y@ == encode_utf8(b@),
            bytes_less(x@, y@) == bytes_less(x@.skip(i as int), y@.skip(i as int)),
        decreases x@.len() - i,
    {
        assert(x@.skip(i as int).skip(1) == x@.skip(i + 1));
        assert(y@.skip(i as int).skip(1) == y@.skip(i + 1));
        if x[i] < y[i] {
            return true;
        }
        if y[i] < x[i] {
            return false;
        }
        i = i + 1;
    }
    i < y.len()
}

/// In ascending order; equal neighbours are allowed.
pub open spec fn ascending(list: Seq<Seq<char>>) -> bool {
    forall|i: int, j: int|
        0 <= i < j < list.len() ==> !text_less(#[trigger] list[j], #[trigger] list[i])
}

/// In ascending order, nothing twice.
pub open spec fn strictly_ascending(list: Seq<Seq<char>>) -> bool {
    forall|i: int, j: int|
        0 <= i < j < list.len() ==> text_less(#[trigger] list[i], #[trigger] list[j])
}

/// `r` holds the texts of `list`, each as often as `list` does, in ascending order.
pub open spec fn is_sorted_copy(list: Seq<Seq<char>>, r: Seq<Seq<char>>) -> bool {
    ascending(r) && r.to_multiset() == list.to_multiset()
}

/// The list in ascending order. There is exactly one such list: see `law_sorted_copy_unique`.
pub open spec fn in_order(list: Seq<Seq<char>>) -> Seq<Seq<char>> {
    choose|r: Seq<Seq<char>>| is_sorted_copy(list, r)
}

/// The list in ascending order.
pub fn sort(list: &[String]) -> (r: Vec<String>)
    ensures
        is_sorted_copy(texts(list@), texts(r@)),
        texts(r@) == in_order(texts(list@)),
{
    let mut out: Vec<String> = Vec::new();
    let mut n: usize = 0;
    let ghost all = texts(list@);
    assert(all.take(0) == texts(out@));
    while n < list.len()
        invariant
            n <= list@.len(),
            all == texts(list@),
            ascending(texts(out@)),
            texts(out@).to_multiset() == all.take(n as int).to_multiset(),
        decreases list@.len() - n,
    {
        let item = list[n].clone();
        let ghost before = texts(out@);
        let mut at: usize = out.len();
        while at > 0 && less(item.as_str(), out[at - 1].as_str())
            invariant
                at <= out@.len(),
                before == texts(out@),
                forall|k: int| at <= k < before.len() ==> text_less(item@, #[trigger] before[k]),
            decreases at,
        {
            at = at - 1;
        }
        out.insert(at, item);
        proof {
            assert(texts(out@) == before.insert(at as int, item@));
            vstd::seq_lib::to_multiset_insert(before, at as int, item@);
            let upto = all.take(n + 1);
            assert(upto == all.take(n as int).push(item@));
            all.take(n as int).to_multiset_ensures();
            assert forall|i: int, j: int| 0 <= i < j < texts(out@).len() implies !text_less(
                #[trigger] texts(out@)[j],
                #[trigger] texts(out@)[i],
            ) by {
                if at > 0 {
                    if i < at - 1 && j == at {
                        lemma_text_order(item@, before[i], before[at - 1]);
                        lemma_text_order(before[at - 1], item@, before[i]);
                        lemma_text_order(before[i], before[at - 1], item@);
                    }
                }
                if i == at {
                    lemma_text_order(item@, before[j - 1], item@);
                }
            }
        }
        n = n + 1;
    }
    assert(all.take(n as int) == all);
    proof {
        law_sorted_copy_unique(all, texts(out@), in_order(all));
    }
    out
}

/// `r` holds the texts of `list`, each once, in ascending order.
pub open spec fn is_sorted_set(list: Seq<Seq<char>>, r: Seq<Seq<char>>) -> bool {
    strictly_ascending(r) && forall|t: Seq<char>| #[trigger] r.contains(t) == list.contains(t)
}

/// The texts of the list, each once, in ascending order.
pub fn sort_distinct(list: &[String]) -> (r: Vec<String>)
    ensures
        is_sorted_set(texts(list@), texts(r@)),
{
    let sorted = sort(list);
    let ghost all = texts(sorted@);
    let mut out: Vec<String> = Vec::new();
    let mut i: usize = 0;
    while i < sorted.len()
        invariant
            i <= sorted@.len(),
            all == texts(sorted@),
            ascending(all),
            strictly_ascending(texts(out@)),
            out@.len() <= i,
            i > 0 ==> out@.len() > 0 && texts(out@).last() == all[i - 1],
            forall|k: int| 0 <= k < i ==> texts(out@).contains(#[trigger] all[k]),
            forall|k: int| 0 <= k < out@.len() ==> all.contains(#[trigger] texts(out@)[k]),
        decreases sorted@.len() - i,
    {
        let n = out.len();
        let ghost before = texts(out@);
        assert(all[i as int] == sorted@[i as int]@);
        if n == 0 || !crate::text::same(out[n - 1].as_str(), sorted[i].as_str()) {
            let item = sorted[i].clone();
            out.push(item);
            proof {
                let after = texts(out@);
                assert(after == before.push(item@));
                if i > 0 {
                    assert(!text_less(all[i as int], all[i - 1]));
                    lemma_text_order(all[i - 1], all[i as int], all[i - 1]);
                }
                assert forall|a: int, b: int| 0 <= a < b < after.len() implies text_less(
                    #[trigger] after[a],
                    #[trigger] after[b],
                ) by {
                    if b == before.len() && a == before.len() - 1 {
                        assert(text_less(all[i - 1], all[i as int]));
                    } else if b == before.len() {
                        assert(text_less(before[a], before.last()));
                        lemma_text_order(before[a], before.last(), item@);
                    }
                }
                assert forall|k: int| 0 <= k < i + 1 implies after.contains(#[trigger] all[k]) by {
                    if k < i {
                        let j = choose|j: int| 0 <= j < before.len() && before[j] == all[k];
                        assert(after[j] == all[k]);
                    } else {
                        assert(after[before.len() as int] == all[k]);
                    }
                }
                assert forall|k: int| 0 <= k < after.len() implies all.contains(
                    #[trigger] after[k],
                ) by {
                    if k < before.len() {
                        assert(all.contains(before[k]));
                    } else {
                        assert(all[i as int] == after[k]);
                    }
                }
            }
        } else {
            assert(before[before.len() - 1] == all[i as int]);
        }
        i = i + 1;
    }
    proof {
        let r = texts(out@);
        assert forall|t: Seq<char>| #[trigger] r.contains(t) == texts(list@).contains(t) by {
            vstd::seq_lib::to_multiset_contains(all, t);
            vstd::seq_lib::to_multiset_contains(texts(list@), t);
            if r.contains(t) {
                let k = choose|k: int| 0 <= k < r.len() && r[k] == t;
                assert(all.contains(r[k]));
            }
            if all.contains(t) {
                let k = choose|k: int| 0 <= k < all.len() && all[k] == t;
                assert(r.contains(all[k]));
            }
        }
    }
    out
}

proof fn lemma_sorted_sets_agree(a: Seq<Seq<char>>, b: Seq<Seq<char>>, n: int)
    requires
        strictly_ascending(a),
        strictly_ascending(b),
        forall|t: Seq<char>| a.contains(t) == b.contains(t),
        0 <= n <= a.len(),
    ensures
        n <= b.len(),
        a.take(n) == b.take(n),
    decreases n,
{
    if n > 0 {
        lemma_sorted_sets_agree(a, b, n - 1);
        let x = a[n - 1];
        assert(a.contains(x));
        assert(b.contains(x));
        let j = choose|j: int| 0 <= j < b.len() && b[j] == x;
        if j < n - 1 {
            assert(a.take(n - 1)[j] == b.take(n - 1)[j]);
            assert(text_less(a[j], x));
            lemma_text_order(x, x, x);
        }
        assert(j >= n - 1);
        let y = b[n - 1];
        assert(b.contains(y));
        assert(a.contains(y));
        let k = choose|k: int| 0 <= k < a.len() && a[k] == y;
        if k < n - 1 {
            assert(a.take(n - 1)[k] == b.take(n - 1)[k]);
            assert(text_less(b[k], y));
            lemma_text_order(y, y, y);
        }
        if x != y {
            assert(j > n - 1);
            assert(k > n - 1);
            assert(text_less(b[n - 1], b[j]));
            assert(text_less(a[n - 1], a[k]));
            lemma_text_order(x, y, x);
        }
        assert(a.take(n) == a.take(n - 1).push(x));
        assert(b.take(n) == b.take(n - 1).push(y));
    }
}

/// There is one way to list the same texts, each once, in ascending order.
pub proof fn law_sorted_set_unique(list: Seq<Seq<char>>, a: Seq<Seq<char>>, b: Seq<Seq<char>>)
    requires
        is_sorted_set(list, a),
        is_sorted_set(list, b),
    ensures
        a == b,
{
    lemma_sorted_sets_agree(a, b, a.len() as int);
    lemma_sorted_sets_agree(b, a, b.len() as int);
    assert(a.take(a.len() as int) == a);
    assert(b.take(b.len() as int) == b);
}

proof fn lemma_ascending_tail(s: Seq<Seq<char>>)
    requires
        ascending(s),
        s.len() > 0,
    ensures
        ascending(s.skip(1)),
        forall|t: Seq<char>| s.contains(t) ==> !text_less(t, s[0]),
        s.to_multiset() == s.skip(1).to_multiset().insert(s[0]),
{
    assert forall|t: Seq<char>| s.contains(t) implies !text_less(t, s[0]) by {
        let k = choose|k: int| 0 <= k < s.len() && s[k] == t;
        if k == 0 {
            lemma_text_order(t, t, t);
        }
    }
    assert(s =~= seq![s[0]] + s.skip(1));
    assert(s.skip(1).insert(0, s[0]) =~= s);
    vstd::seq_lib::to_multiset_insert(s.skip(1), 0, s[0]);
}

/// There is one way to list the same texts, each as often, in ascending order.
pub proof fn law_sorted_copy_unique(list: Seq<Seq<char>>, a: Seq<Seq<char>>, b: Seq<Seq<char>>)
    requires
        is_sorted_copy(list, a),
        is_sorted_copy(list, b),
    ensures
        a == b,
    decreases a.len(),
{
    vstd::seq_lib::to_multiset_len(a);
    vstd::seq_lib::to_multiset_len(b);
    if a.len() > 0 {
        lemma_ascending_tail(a);
        lemma_ascending_tail(b);
        assert(a.contains(a[0]));
        assert(b.contains(b[0]));
        vstd::seq_lib::to_multiset_contains(a, a[0]);
        vstd::seq_lib::to_multiset_contains(b, a[0]);
        vstd::seq_lib::to_multiset_contains(a, b[0]);
        vstd::seq_lib::to_multiset_contains(b, b[0]);
        assert(b.contains(a[0]) && a.contains(b[0]));
        lemma_text_order(a[0], b[0], a[0]);
        assert(a[0] == b[0]);
        let rest = a.skip(1);
        assert(rest.to_multiset() =~= b.skip(1).to_multiset()) by {
            assert(rest.to_multiset() =~= a.to_multiset().remove(a[0]));
            assert(b.skip(1).to_multiset() =~= b.to_multiset().remove(b[0]));
        }
        law_sorted_copy_unique(rest, rest, b.skip(1));
        assert(a =~= seq![a[0]] + a.skip(1));
        assert(b =~= seq![b[0]] + b.skip(1));
    } else {
        assert(a =~= b);
    }
}

/// The order of bytes is that of a dictionary: the first byte that differs decides, and a beginning
/// comes before the whole.
pub proof fn law_first_difference_decides(
    front: Seq<u8>,
    x: u8,
    y: u8,
    a: Seq<u8>,
    b: Seq<u8>,
)
    ensures
        x < y ==> bytes_less(front + (seq![x] + a), front + (seq![y] + b)),
        bytes_less(front, front + (seq![x] + a)),
    decreases front.len(),
{
    let small = front + (seq![x] + a);
    let large = front + (seq![y] + b);
    if front.len() > 0 {
        law_first_difference_decides(front.skip(1), x, y, a, b);
        assert(small.skip(1) == front.skip(1) + (seq![x] + a));
        assert(large.skip(1) == front.skip(1) + (seq![y] + b));
    }
}

/// Every list has a sorted copy, so the list in order is one.
pub proof fn law_in_order_is_sorted(list: Seq<Seq<char>>)
    ensures
        ascending(in_order(list)),
        in_order(list).to_multiset() == list.to_multiset(),
        in_order(list).len() == list.len(),
        forall|t: Seq<char>| in_order(list).contains(t) == list.contains(t),
{
    lemma_sorted_copy_exists(list);
    let r = in_order(list);
    vstd::seq_lib::to_multiset_len(r);
    vstd::seq_lib::to_multiset_len(list);
    assert forall|t: Seq<char>| r.contains(t) == list.contains(t) by {
        vstd::seq_lib::to_multiset_contains(r, t);
        vstd::seq_lib::to_multiset_contains(list, t);
    }
}

proof fn lemma_sorted_copy_exists(list: Seq<Seq<char>>)
    ensures
        exists|r: Seq<Seq<char>>| is_sorted_copy(list, r),
    decreases list.len(),
{
    if list.len() == 0 {
        assert(is_sorted_copy(list, list));
    } else {
        let front = list.drop_last();
        lemma_sorted_copy_exists(front);
        let before = choose|r: Seq<Seq<char>>| is_sorted_copy(front, r);
        let item = list.last();
        let at = lemma_place(before, item, before.len() as int);
        let r = before.insert(at, item);
        vstd::seq_lib::to_multiset_insert(before, at, item);
        front.to_multiset_ensures();
        assert(list == front.push(item));
        assert forall|i: int, j: int| 0 <= i < j < r.len() implies !text_less(
            #[trigger] r[j],
            #[trigger] r[i],
        ) by {
            if j == at {
                assert(r[i] == before[i]);
            } else if i == at {
                lemma_text_order(item, before[j - 1], item);
            }
        }
        assert(is_sorted_copy(list, r));
    }
}

proof fn lemma_place(list: Seq<Seq<char>>, item: Seq<char>, n: int) -> (at: int)
    requires
        ascending(list),
        0 <= n <= list.len(),
        forall|k: int| n <= k < list.len() ==> text_less(item, #[trigger] list[k]),
    ensures
        0 <= at <= list.len(),
        forall|k: int| at <= k < list.len() ==> text_less(item, #[trigger] list[k]),
        forall|k: int| 0 <= k < at ==> !text_less(item, #[trigger] list[k]),
    decreases n,
{
    if n > 0 && text_less(item, list[n - 1]) {
        lemma_place(list, item, n - 1)
    } else {
        assert forall|k: int| 0 <= k < n implies !text_less(item, #[trigger] list[k]) by {
            if k < n - 1 {
                lemma_text_order(item, list[k], list[n - 1]);
                lemma_text_order(list[n - 1], item, list[k]);
                lemma_text_order(list[k], list[n - 1], item);
            }
        }
        n
    }
}

} // verus!
