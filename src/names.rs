//! Ordering of sampled player names, case-insensitively and stably.
use vstd::prelude::*;

verus! {

/// What `str::to_lowercase` returns for a string.
pub uninterp spec fn lower_of(s: Seq<char>) -> Seq<char>;

/// Relies on `str::to_lowercase`: the lower-case mapping of each character,
/// which depends on the characters alone.
#[verifier::external_body]
fn lowercase(s: &str) -> (r: String)
    ensures
        r@ == lower_of(s@),
{
    s.to_lowercase()
}

/// Strict lexicographic order of character sequences by code point, which is
/// the order of `String`s.
pub open spec fn text_lt(a: Seq<char>, b: Seq<char>) -> bool
    decreases a.len(),
{
    if a.len() == 0 {
        b.len() > 0
    } else if b.len() == 0 {
        false
    } else if a[0] != b[0] {
        (a[0] as int) < (b[0] as int)
    } else {
        text_lt(a.drop_first(), b.drop_first())
    }
}

/// The sort key of a name: its lower-case form.
pub open spec fn name_key(s: Seq<char>) -> Seq<char> {
    lower_of(s)
}

/// Inserts the entry `x`, a key and a name, into `sorted` after every entry
/// whose key is not greater than the key of `x`, searching from the back.
pub open spec fn insert_entry(
    sorted: Seq<(Seq<char>, Seq<char>)>,
    x: (Seq<char>, Seq<char>),
) -> Seq<(Seq<char>, Seq<char>)>
    decreases sorted.len(),
{
    if sorted.len() == 0 {
        seq![x]
    } else if text_lt(x.0, sorted.last().0) {
        insert_entry(sorted.drop_last(), x).push(sorted.last())
    } else {
        sorted.push(x)
    }
}

/// The entries ordered by key; entries with equal keys keep their relative
/// order.
pub open spec fn sort_entries(s: Seq<(Seq<char>, Seq<char>)>) -> Seq<(Seq<char>, Seq<char>)>
    decreases s.len(),
{
    if s.len() == 0 {
        Seq::empty()
    } else {
        insert_entry(sort_entries(s.drop_last()), s.last())
    }
}

/// Each name paired with the key at the same position.
pub open spec fn keyed(keys: Seq<Seq<char>>, names: Seq<Seq<char>>) -> Seq<(Seq<char>, Seq<char>)> {
    Seq::new(names.len(), |i: int| (keys[i], names[i]))
}

/// The names ordered stably by the keys given for them.
pub open spec fn sort_by_keys_spec(keys: Seq<Seq<char>>, names: Seq<Seq<char>>) -> Seq<Seq<char>> {
    sort_entries(keyed(keys, names)).map_values(|e: (Seq<char>, Seq<char>)| e.1)
}

/// Each name paired with its lower-case form.
pub open spec fn with_name_keys(names: Seq<Seq<char>>) -> Seq<(Seq<char>, Seq<char>)> {
    names.map_values(|n: Seq<char>| (name_key(n), n))
}

/// The names ordered by their lower-case form; names with equal keys keep
/// their relative order.
pub open spec fn sort_by_key(names: Seq<Seq<char>>) -> Seq<Seq<char>> {
    sort_entries(with_name_keys(names)).map_values(|e: (Seq<char>, Seq<char>)| e.1)
}

/// Compares two strings by code point.
fn str_lt(a: &str, b: &str) -> (r: bool)
    ensures
        r == text_lt(a@, b@),
{
    let la = a.unicode_len();
    let lb = b.unicode_len();
    let mut i: usize = 0;
    assert(a@.subrange(0, la as int) =~= a@);
    assert(b@.subrange(0, lb as int) =~= b@);
    while i < la && i < lb
        invariant
            la == a@.len(),
            lb == b@.len(),
            i <= la,
            i <= lb,
            text_lt(a@, b@) == text_lt(a@.subrange(i as int, la as int), b@.subrange(i as int, lb as int)),
        decreases la - i,
    {
        let ca = a.get_char(i);
        let cb = b.get_char(i);
        let ghost sa = a@.subrange(i as int, la as int);
        let ghost sb = b@.subrange(i as int, lb as int);
        assert(sa[0] == ca && sb[0] == cb);
        if ca != cb {
            return (ca as u32) < (cb as u32);
        }
        assert(sa.drop_first() =~= a@.subrange(i as int + 1, la as int));
        assert(sb.drop_first() =~= b@.subrange(i as int + 1, lb as int));
        i = i + 1;
    }
    i < lb
}

proof fn lemma_insert_at(sorted: Seq<(Seq<char>, Seq<char>)>, x: (Seq<char>, Seq<char>), pos: int)
    requires
        0 <= pos <= sorted.len(),
        forall|j: int| pos <= j < sorted.len() ==> text_lt(x.0, (#[trigger] sorted[j]).0),
        pos > 0 ==> !text_lt(x.0, sorted[pos - 1].0),
    ensures
        insert_entry(sorted, x) == sorted.insert(pos, x),
    decreases sorted.len(),
{
    if sorted.len() == 0 {
        assert(sorted.insert(pos, x) =~= seq![x]);
    } else if pos == sorted.len() {
        assert(sorted.insert(pos, x) =~= sorted.push(x));
    } else {
        let init = sorted.drop_last();
        assert(sorted.last() == sorted[sorted.len() - 1]);
        lemma_insert_at(init, x, pos);
        assert(init.insert(pos, x).push(sorted.last()) =~= sorted.insert(pos, x));
    }
}

/// Orders `names` stably by `keys`, the key of each name standing at the
/// name's position.
pub fn sort_by_keys(names: &Vec<String>, keys: &Vec<String>) -> (r: Vec<String>)
    requires
        names.len() == keys.len(),
    ensures
        r@.map_values(|s: String| s@) == sort_by_keys_spec(
            keys@.map_values(|s: String| s@),
            names@.map_values(|s: String| s@),
        ),
{
    let ghost input = keyed(keys@.map_values(|s: String| s@), names@.map_values(|s: String| s@));
    let ghost mut entries: Seq<(Seq<char>, Seq<char>)> = Seq::empty();
    let mut out: Vec<String> = Vec::new();
    let mut out_keys: Vec<String> = Vec::new();
    let mut i: usize = 0;
    while i < names.len()
        invariant
            i <= names.len(),
            names.len() == keys.len(),
            input == keyed(keys@.map_values(|s: String| s@), names@.map_values(|s: String| s@)),
            entries.len() == out@.len(),
            out_keys@.len() == out@.len(),
            forall|j: int| 0 <= j < out@.len() ==> (#[trigger] entries[j]) == (out_keys@[j]@, out@[j]@),
            entries == sort_entries(input.subrange(0, i as int)),
        decreases names.len() - i,
    {
        let key = keys[i].clone();
        let name = names[i].clone();
        let ghost x = (key@, name@);
        assert(input[i as int] == x);
        let mut pos: usize = out.len();
        while pos > 0 && str_lt(key.as_str(), out_keys[pos - 1].as_str())
            invariant
                pos <= out@.len(),
                entries.len() == out@.len(),
                out_keys@.len() == out@.len(),
                forall|j: int| 0 <= j < out@.len() ==> (#[trigger] entries[j]) == (out_keys@[j]@, out@[j]@),
                forall|j: int| pos <= j < entries.len() ==> text_lt(x.0, (#[trigger] entries[j]).0),
                key@ == x.0,
            decreases pos,
        {
            assert(entries[pos - 1] == (out_keys@[pos - 1]@, out@[pos - 1]@));
            pos = pos - 1;
        }
        proof {
            lemma_insert_at(entries, x, pos as int);
            let prefix = input.subrange(0, i as int + 1);
            assert(prefix.drop_last() =~= input.subrange(0, i as int));
            assert(prefix.last() == x);
            entries = entries.insert(pos as int, x);
        }
        out.insert(pos, name);
        out_keys.insert(pos, key);
        i = i + 1;
    }
    assert(input.subrange(0, i as int) =~= input);
    assert(out@.map_values(|s: String| s@) =~= entries.map_values(|e: (Seq<char>, Seq<char>)| e.1));
    out
}

/// Orders `names` by their lower-case form, keeping the input order of
/// names whose lower-case forms are equal.
pub fn sort_names(names: &Vec<String>) -> (r: Vec<String>)
    ensures
        r@.map_values(|s: String| s@) == sort_by_key(names@.map_values(|s: String| s@)),
{
    let mut keys: Vec<String> = Vec::new();
    let mut i: usize = 0;
    while i < names.len()
        invariant
            i <= names.len(),
            keys@.len() == i,
            forall|j: int| 0 <= j < i ==> (#[trigger] keys@[j])@ == name_key(names@[j]@),
        decreases names.len() - i,
    {
        keys.push(lowercase(names[i].as_str()));
        i = i + 1;
    }
    let r = sort_by_keys(names, &keys);
    assert(keyed(keys@.map_values(|s: String| s@), names@.map_values(|s: String| s@)) =~= with_name_keys(
        names@.map_values(|s: String| s@),
    ));
    r
}

/// Every entry's key is no smaller than the key of any entry before it.
pub open spec fn entries_ordered(s: Seq<(Seq<char>, Seq<char>)>) -> bool {
    forall|i: int, j: int| 0 <= i < j < s.len() ==> !text_lt(#[trigger] s[j].0, #[trigger] s[i].0)
}

spec fn neighbours_ordered(s: Seq<(Seq<char>, Seq<char>)>) -> bool {
    forall|i: int| 0 <= i < s.len() - 1 ==> !text_lt((#[trigger] s[i + 1]).0, s[i].0)
}

proof fn lemma_text_lt_asymmetric(a: Seq<char>, b: Seq<char>)
    ensures
        text_lt(a, b) ==> !text_lt(b, a),
    decreases a.len(),
{
    if a.len() > 0 && b.len() > 0 && a[0] == b[0] {
        lemma_text_lt_asymmetric(a.drop_first(), b.drop_first());
    }
}

proof fn lemma_text_lt_transitive(a: Seq<char>, b: Seq<char>, c: Seq<char>)
    ensures
        text_lt(a, b) && text_lt(b, c) ==> text_lt(a, c),
    decreases a.len(),
{
    if a.len() > 0 && b.len() > 0 && c.len() > 0 && a[0] == b[0] && b[0] == c[0] {
        lemma_text_lt_transitive(a.drop_first(), b.drop_first(), c.drop_first());
    }
}

proof fn lemma_text_lt_total(a: Seq<char>, b: Seq<char>)
    ensures
        a != b ==> text_lt(a, b) || text_lt(b, a),
    decreases a.len(),
{
    if a.len() == 0 && b.len() == 0 {
        assert(a =~= b);
    } else if a.len() > 0 && b.len() > 0 && a[0] == b[0] {
        lemma_text_lt_total(a.drop_first(), b.drop_first());
        if a.drop_first() == b.drop_first() {
            assert(a =~= seq![a[0]] + a.drop_first());
            assert(b =~= seq![b[0]] + b.drop_first());
        }
    }
}

proof fn lemma_not_lt_transitive(a: Seq<char>, b: Seq<char>, c: Seq<char>)
    ensures
        !text_lt(b, a) && !text_lt(c, b) ==> !text_lt(c, a),
{
    lemma_text_lt_total(a, b);
    lemma_text_lt_transitive(c, a, b);
}

proof fn lemma_insert_entry_facts(sorted: Seq<(Seq<char>, Seq<char>)>, x: (Seq<char>, Seq<char>))
    ensures
        insert_entry(sorted, x).len() == sorted.len() + 1,
        insert_entry(sorted, x).last() == x || (sorted.len() > 0 && insert_entry(sorted, x).last()
            == sorted.last()),
        insert_entry(sorted, x).to_multiset() == sorted.to_multiset().insert(x),
        neighbours_ordered(sorted) ==> neighbours_ordered(insert_entry(sorted, x)),
    decreases sorted.len(),
{
    broadcast use vstd::seq_lib::to_multiset_build;
    broadcast use vstd::multiset::group_multiset_axioms;
    if sorted.len() == 0 {
        assert(seq![x] =~= Seq::<(Seq<char>, Seq<char>)>::empty().push(x));
        assert(sorted =~= Seq::<(Seq<char>, Seq<char>)>::empty());
    } else {
        let init = sorted.drop_last();
        let last = sorted.last();
        assert(init.push(last) =~= sorted);
        if neighbours_ordered(sorted) {
            assert forall|i: int| 0 <= i < init.len() - 1 implies !text_lt((#[trigger] init[i + 1]).0, init[i].0) by {
                assert(init[i + 1] == sorted[i + 1]);
                assert(init[i] == sorted[i]);
            }
        }
        lemma_insert_entry_facts(init, x);
        if text_lt(x.0, last.0) {
            let r = insert_entry(init, x);
            lemma_text_lt_asymmetric(x.0, last.0);
            assert(r.push(last).to_multiset() =~= sorted.to_multiset().insert(x));
            if neighbours_ordered(sorted) {
                assert forall|i: int| 0 <= i < r.push(last).len() - 1 implies !text_lt(
                    (#[trigger] r.push(last)[i + 1]).0,
                    r.push(last)[i].0,
                ) by {
                    if i == r.len() - 1 {
                        assert(r.push(last)[i + 1] == last);
                        assert(r.push(last)[i] == r.last());
                        if r.last() != x {
                            assert(init.last() == sorted[sorted.len() - 2]);
                            assert(last == sorted[sorted.len() - 2 + 1]);
                        }
                    } else {
                        assert(r.push(last)[i + 1] == r[i + 1]);
                        assert(r.push(last)[i] == r[i]);
                    }
                }
            }
        }
    }
}

proof fn lemma_neighbours_chain(s: Seq<(Seq<char>, Seq<char>)>, i: int, j: int)
    requires
        neighbours_ordered(s),
        0 <= i < j < s.len(),
    ensures
        !text_lt(s[j].0, s[i].0),
    decreases j - i,
{
    if j > i + 1 {
        lemma_neighbours_chain(s, i, j - 1);
        assert(!text_lt(s[j - 1 + 1].0, s[j - 1].0));
        lemma_not_lt_transitive(s[i].0, s[j - 1].0, s[j].0);
    } else {
        assert(!text_lt(s[i + 1].0, s[i].0));
    }
}

/// Sorting entries orders them by key and keeps every entry, each as often
/// as it was given.
pub proof fn lemma_sort_entries_sorted_permutation(s: Seq<(Seq<char>, Seq<char>)>)
    ensures
        entries_ordered(sort_entries(s)),
        sort_entries(s).to_multiset() == s.to_multiset(),
    decreases s.len(),
{
    lemma_sort_entries_neighbours(s);
    let r = sort_entries(s);
    assert forall|i: int, j: int| 0 <= i < j < r.len() implies !text_lt(#[trigger] r[j].0, #[trigger] r[i].0) by {
        lemma_neighbours_chain(r, i, j);
    }
}

proof fn lemma_sort_entries_neighbours(s: Seq<(Seq<char>, Seq<char>)>)
    ensures
        neighbours_ordered(sort_entries(s)),
        sort_entries(s).to_multiset() == s.to_multiset(),
    decreases s.len(),
{
    broadcast use vstd::seq_lib::to_multiset_build;
    if s.len() == 0 {
        assert(s =~= Seq::<(Seq<char>, Seq<char>)>::empty());
    } else {
        lemma_sort_entries_neighbours(s.drop_last());
        lemma_insert_entry_facts(sort_entries(s.drop_last()), s.last());
        assert(s.drop_last().push(s.last()) =~= s);
    }
}

/// Two orderings by key of the same entries are equal where no two
/// different entries share a key.
proof fn lemma_sorted_unique(a: Seq<(Seq<char>, Seq<char>)>, b: Seq<(Seq<char>, Seq<char>)>)
    requires
        a.to_multiset() == b.to_multiset(),
        entries_ordered(a),
        entries_ordered(b),
        forall|x: (Seq<char>, Seq<char>), y: (Seq<char>, Seq<char>)|
            a.contains(x) && a.contains(y) && x.0 == y.0 ==> x == y,
    ensures
        a == b,
    decreases a.len(),
{
    broadcast use vstd::seq_lib::to_multiset_contains, vstd::seq_lib::to_multiset_remove, vstd::seq_lib::to_multiset_len;
    if a.len() == 0 {
        assert(a.to_multiset().len() == 0);
        assert(b.to_multiset().len() == b.len());
        assert(a =~= b);
    } else {
        assert(a.contains(a[0]));
        assert(b.to_multiset().count(a[0]) > 0);
        assert(b.len() > 0);
        assert(b.contains(b[0]));
        assert(a.to_multiset().count(b[0]) > 0);
        let i = choose|i: int| 0 <= i < a.len() && a[i] == b[0];
        let j = choose|j: int| 0 <= j < b.len() && b[j] == a[0];
        if i > 0 {
            assert(!text_lt(a[i].0, a[0].0));
        }
        if j > 0 {
            assert(!text_lt(b[j].0, b[0].0));
        }
        lemma_text_lt_total(a[0].0, b[0].0);
        assert(a[0] == b[0]);
        let a1 = a.drop_first();
        let b1 = b.drop_first();
        assert(a.remove(0) =~= a1);
        assert(b.remove(0) =~= b1);
        assert forall|x: (Seq<char>, Seq<char>)| a1.contains(x) implies a.contains(x) by {
            let k = choose|k: int| 0 <= k < a1.len() && a1[k] == x;
            assert(a[k + 1] == x);
        }
        assert forall|p: int, q: int| 0 <= p < q < a1.len() implies !text_lt(#[trigger] a1[q].0, #[trigger] a1[p].0) by {
            assert(a1[q] == a[q + 1] && a1[p] == a[p + 1]);
        }
        assert forall|p: int, q: int| 0 <= p < q < b1.len() implies !text_lt(#[trigger] b1[q].0, #[trigger] b1[p].0) by {
            assert(b1[q] == b[q + 1] && b1[p] == b[p + 1]);
        }
        lemma_sorted_unique(a1, b1);
        assert(a.len() == b.len());
        assert forall|k: int| 0 <= k < a.len() implies a[k] == b[k] by {
            if k > 0 {
                assert(a[k] == a1[k - 1]);
                assert(b[k] == b1[k - 1]);
            }
        }
        assert(a =~= b);
    }
}

proof fn lemma_map_values_multiset<A, B>(a: Seq<A>, b: Seq<A>, f: spec_fn(A) -> B)
    requires
        a.to_multiset() == b.to_multiset(),
    ensures
        a.map_values(f).to_multiset() == b.map_values(f).to_multiset(),
    decreases a.len(),
{
    broadcast use vstd::seq_lib::to_multiset_contains, vstd::seq_lib::to_multiset_remove,
        vstd::seq_lib::to_multiset_len, vstd::seq_lib::to_multiset_build;
    broadcast use vstd::multiset::group_multiset_axioms;
    if a.len() == 0 {
        assert(a.to_multiset().len() == 0);
        assert(b.to_multiset().len() == b.len());
        assert(a.map_values(f) =~= b.map_values(f));
    } else {
        let x = a.last();
        let a1 = a.drop_last();
        assert(a1.push(x) =~= a);
        assert(a.contains(x));
        assert(a.to_multiset().count(x) > 0);
        assert(b.to_multiset().count(x) > 0);
        assert(b.contains(x));
        let j = choose|j: int| 0 <= j < b.len() && b[j] == x;
        let b1 = b.remove(j);
        assert(a1.to_multiset() =~= b1.to_multiset());
        lemma_map_values_multiset(a1, b1, f);
        assert(a1.map_values(f).push(f(x)) =~= a.map_values(f));
        assert(b.map_values(f).remove(j) =~= b1.map_values(f));
        assert(b.map_values(f)[j] == f(x));
        assert(b.map_values(f).to_multiset() =~= b1.map_values(f).to_multiset().insert(f(x)));
    }
}

proof fn lemma_sorted_entries_keep_name_keys(s: Seq<Seq<char>>, k: int)
    requires
        0 <= k < sort_entries(with_name_keys(s)).len(),
    ensures
        sort_entries(with_name_keys(s))[k].0 == name_key(sort_entries(with_name_keys(s))[k].1),
        exists|i: int| 0 <= i < s.len() && s[i] == #[trigger] sort_entries(with_name_keys(s))[k].1,
{
    broadcast use vstd::seq_lib::to_multiset_contains;
    let e = with_name_keys(s);
    let r = sort_entries(e);
    lemma_sort_entries_sorted_permutation(e);
    assert(r.contains(r[k]));
    assert(e.to_multiset().count(r[k]) > 0);
    let i = choose|i: int| 0 <= i < e.len() && e[i] == r[k];
    assert(s[i] == r[k].1);
}

/// Sorting names case-insensitively orders every pair of them by their
/// lower-case forms and keeps every name, each as often as it was given.
pub proof fn lemma_sort_by_key_sorted_permutation(s: Seq<Seq<char>>)
    ensures
        forall|i: int, j: int|
            0 <= i < j < sort_by_key(s).len() ==> !text_lt(
                name_key(#[trigger] sort_by_key(s)[j]),
                name_key(#[trigger] sort_by_key(s)[i]),
            ),
        sort_by_key(s).to_multiset() == s.to_multiset(),
{
    let e = with_name_keys(s);
    let r = sort_entries(e);
    lemma_sort_entries_sorted_permutation(e);
    assert forall|i: int, j: int| 0 <= i < j < sort_by_key(s).len() implies !text_lt(
        name_key(#[trigger] sort_by_key(s)[j]),
        name_key(#[trigger] sort_by_key(s)[i]),
    ) by {
        lemma_sorted_entries_keep_name_keys(s, i);
        lemma_sorted_entries_keep_name_keys(s, j);
        assert(!text_lt(r[j].0, r[i].0));
    }
    let second = |x: (Seq<char>, Seq<char>)| x.1;
    lemma_map_values_multiset(r, e, second);
    assert(e.map_values(second) =~= s);
}

/// Where no two names share a lower-case form, the case-insensitive order
/// of the names does not depend on the order in which they were given.
pub proof fn lemma_sort_by_key_order_independent(s1: Seq<Seq<char>>, s2: Seq<Seq<char>>)
    requires
        s1.to_multiset() == s2.to_multiset(),
        forall|i: int, j: int| 0 <= i < j < s1.len() ==> name_key(#[trigger] s1[i]) != name_key(#[trigger] s1[j]),
    ensures
        sort_by_key(s1) == sort_by_key(s2),
{
    broadcast use vstd::seq_lib::to_multiset_contains;
    let e1 = with_name_keys(s1);
    let e2 = with_name_keys(s2);
    let pair = |n: Seq<char>| (name_key(n), n);
    lemma_map_values_multiset(s1, s2, pair);
    assert(s1.map_values(pair) =~= e1);
    assert(s2.map_values(pair) =~= e2);
    lemma_sort_entries_sorted_permutation(e1);
    lemma_sort_entries_sorted_permutation(e2);
    let r1 = sort_entries(e1);
    assert forall|x: (Seq<char>, Seq<char>), y: (Seq<char>, Seq<char>)|
        r1.contains(x) && r1.contains(y) && x.0 == y.0 implies x == y by {
        assert(e1.to_multiset().count(x) > 0);
        assert(e1.to_multiset().count(y) > 0);
        let p = choose|p: int| 0 <= p < e1.len() && e1[p] == x;
        let q = choose|q: int| 0 <= q < e1.len() && e1[q] == y;
        if p < q {
            assert(name_key(s1[p]) != name_key(s1[q]));
        } else if q < p {
            assert(name_key(s1[q]) != name_key(s1[p]));
        }
    }
    lemma_sorted_unique(r1, sort_entries(e2));
}

} // verus!
