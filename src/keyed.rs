use vstd::prelude::*;

verus! {

/// The value that a list of keyed entries holds under `k`: that of its first
/// entry with key `k`, if any.
pub open spec fn lookup<T>(s: Seq<(String, T)>, k: Seq<char>) -> Option<T>
    decreases s.len(),
{
    if s.len() == 0 {
        None
    } else if s[0].0@ == k {
        Some(s[0].1)
    } else {
        lookup(s.drop_first(), k)
    }
}

/// No two entries share a key.
pub open spec fn keys_unique<T>(s: Seq<(String, T)>) -> bool {
    forall|i: int, j: int| 0 <= i < j < s.len() ==> (#[trigger] s[i]).0@ != (#[trigger] s[j]).0@
}

/// `post` holds `v` under `k`, and what `pre` holds under every other key.
pub open spec fn stores<T>(pre: Seq<(String, T)>, k: Seq<char>, v: T, post: Seq<(String, T)>) -> bool {
    &&& lookup(post, k) == Some(v)
    &&& forall|k2: Seq<char>| k2 != k ==> #[trigger] lookup(post, k2) == lookup(pre, k2)
}

/// With distinct keys, each entry is what its key looks up.
pub proof fn lemma_lookup_index<T>(s: Seq<(String, T)>, i: int)
    requires
        keys_unique(s),
        0 <= i < s.len(),
    ensures
        lookup(s, s[i].0@) == Some(s[i].1),
    decreases s.len(),
{
    if i > 0 {
        assert(s[0].0@ != s[i].0@);
        assert(s.drop_first()[i - 1] == s[i]);
        lemma_lookup_index(s.drop_first(), i - 1);
    }
}

/// A key that no entry has looks up nothing.
pub proof fn lemma_lookup_absent<T>(s: Seq<(String, T)>, k: Seq<char>)
    requires
        forall|j: int| 0 <= j < s.len() ==> (#[trigger] s[j]).0@ != k,
    ensures
        lookup(s, k) is None,
    decreases s.len(),
{
    if s.len() > 0 {
        assert(s[0].0@ != k);
        assert forall|j: int| 0 <= j < s.drop_first().len() implies (#[trigger] s.drop_first()[j]).0@ != k by {
            assert(s.drop_first()[j] == s[j + 1]);
        }
        lemma_lookup_absent(s.drop_first(), k);
    }
}

/// With distinct keys, what a key looks up is given by the entry that has it.
pub proof fn lemma_lookup_unique<T>(s: Seq<(String, T)>, k: Seq<char>)
    requires
        keys_unique(s),
    ensures
        (exists|i: int| 0 <= i < s.len() && s[i].0@ == k) ==> exists|i: int|
            0 <= i < s.len() && s[i].0@ == k && lookup(s, k) == Some(s[i].1),
        !(exists|i: int| 0 <= i < s.len() && s[i].0@ == k) ==> lookup(s, k) is None,
{
    if exists|i: int| 0 <= i < s.len() && s[i].0@ == k {
        let i = choose|i: int| 0 <= i < s.len() && s[i].0@ == k;
        lemma_lookup_index(s, i);
    } else {
        lemma_lookup_absent(s, k);
    }
}

/// Where the entry with key `k` stands, if any.
pub fn find_key<T>(s: &Vec<(String, T)>, k: &String) -> (r: Option<usize>)
    ensures
        r matches Some(i) ==> i < s@.len() && s@[i as int].0@ == k@ && lookup(s@, k@) == Some(s@[i as int].1),
        r is None ==> lookup(s@, k@) is None && forall|j: int| 0 <= j < s@.len() ==> (#[trigger] s@[j]).0@ != k@,
{
    let mut i: usize = 0;
    proof {
        assert(s@.subrange(0, s@.len() as int) =~= s@);
    }
    while i < s.len()
        invariant
            i <= s@.len(),
            lookup(s@, k@) == lookup(s@.subrange(i as int, s@.len() as int), k@),
            forall|j: int| 0 <= j < i ==> (#[trigger] s@[j]).0@ != k@,
        decreases s@.len() - i,
    {
        let ghost rest = s@.subrange(i as int, s@.len() as int);
        proof {
            assert(rest.drop_first() =~= s@.subrange(i + 1, s@.len() as int));
            assert(rest[0] == s@[i as int]);
        }
        if s[i].0 == *k {
            return Some(i);
        }
        i = i + 1;
    }
    None
}

/// Writing `(k, v)` over the entry that has key `k` stores `v` under `k`.
pub proof fn lemma_stores_update<T>(pre: Seq<(String, T)>, i: int, k: String, v: T, post: Seq<(String, T)>)
    requires
        keys_unique(pre),
        0 <= i < pre.len(),
        pre[i].0@ == k@,
        post == pre.update(i, (k, v)),
    ensures
        keys_unique(post),
        stores(pre, k@, v, post),
{
    assert forall|a: int, b: int| 0 <= a < b < post.len() implies (#[trigger] post[a]).0@ != (
    #[trigger] post[b]).0@ by {
        assert(pre[a].0@ != pre[b].0@);
    }
    lemma_lookup_index(post, i);
    assert forall|k2: Seq<char>| k2 != k@ implies #[trigger] lookup(post, k2) == lookup(pre, k2) by {
        lemma_lookup_unique(post, k2);
        lemma_lookup_unique(pre, k2);
        if exists|j: int| 0 <= j < pre.len() && pre[j].0@ == k2 {
            let j = choose|j: int| 0 <= j < pre.len() && pre[j].0@ == k2;
            assert(post[j] == pre[j]);
        }
        if exists|j: int| 0 <= j < post.len() && post[j].0@ == k2 {
            let j = choose|j: int| 0 <= j < post.len() && post[j].0@ == k2;
            assert(post[j] == pre[j]);
        }
    }
}

/// Appending `(k, v)` where no entry has key `k` stores `v` under `k`.
pub proof fn lemma_stores_push<T>(pre: Seq<(String, T)>, k: String, v: T, post: Seq<(String, T)>)
    requires
        keys_unique(pre),
        forall|j: int| 0 <= j < pre.len() ==> (#[trigger] pre[j]).0@ != k@,
        post == pre.push((k, v)),
    ensures
        keys_unique(post),
        stores(pre, k@, v, post),
{
    assert forall|a: int, b: int| 0 <= a < b < post.len() implies (#[trigger] post[a]).0@ != (
    #[trigger] post[b]).0@ by {
        if b < pre.len() {
            assert(pre[a].0@ != pre[b].0@);
        } else {
            assert(post[a] == pre[a]);
        }
    }
    lemma_lookup_index(post, pre.len() as int);
    assert forall|k2: Seq<char>| k2 != k@ implies #[trigger] lookup(post, k2) == lookup(pre, k2) by {
        lemma_lookup_unique(post, k2);
        lemma_lookup_unique(pre, k2);
        if exists|j: int| 0 <= j < pre.len() && pre[j].0@ == k2 {
            let j = choose|j: int| 0 <= j < pre.len() && pre[j].0@ == k2;
            assert(post[j] == pre[j]);
        }
        if exists|j: int| 0 <= j < post.len() && post[j].0@ == k2 {
            let j = choose|j: int| 0 <= j < post.len() && post[j].0@ == k2;
            assert(post[j] == pre[j]);
        }
    }
}

/// Stores `v` under `k`: in place where `k` has an entry, else in a new entry
/// at the end.
pub fn store<T>(s: &mut Vec<(String, T)>, k: String, v: T)
    requires
        keys_unique(old(s)@),
    ensures
        keys_unique(final(s)@),
        stores(old(s)@, k@, v, final(s)@),
{
    let ghost pre = s@;
    match find_key(s, &k) {
        Some(i) => {
            let ghost kk = k;
            s.set(i, (k, v));
            proof {
                lemma_stores_update(pre, i as int, kk, v, s@);
            }
        },
        None => {
            let ghost kk = k;
            s.push((k, v));
            proof {
                lemma_stores_push(pre, kk, v, s@);
            }
        },
    }
}

} // verus!
