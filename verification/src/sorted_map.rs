//! Ordered maps from string keys, kept as vectors of entries whose keys
//! strictly increase in string order.
use vstd::prelude::*;
use vstd::utf8::*;
use crate::util::{Order, str_order_spec, str_order, str_eq, lemma_str_order_equal, lemma_str_order_flip, lemma_str_order_trans};

verus! {

// ---------------------------------------------------------------------
// Ordered maps from field names to values.
// ---------------------------------------------------------------------
/// The entry's key, as UTF-8 bytes, is `kb`.
pub open spec fn key_is<V>(e: (String, V), kb: Seq<u8>) -> bool {
    encode_utf8(e.0@) == kb
}

/// The value of the first entry whose key has the bytes `kb`.
pub open spec fn lookup<V>(fs: Seq<(String, V)>, kb: Seq<u8>) -> Option<V>
    decreases fs.len(),
{
    if fs.len() == 0 {
        None
    } else if key_is(fs[0], kb) {
        Some(fs[0].1)
    } else {
        lookup(fs.drop_first(), kb)
    }
}

/// The entry for the key `k`, if any.
pub open spec fn get_field<V>(fs: Seq<(String, V)>, k: Seq<char>) -> Option<V> {
    lookup(fs, encode_utf8(k))
}

/// Keys are strictly increasing in string order.
pub open spec fn keys_sorted<V>(fs: Seq<(String, V)>) -> bool {
    forall|i: int, j: int|
        0 <= i < j < fs.len() ==> str_order_spec(#[trigger] fs[i].0@, #[trigger] fs[j].0@)
            == Order::Less
}

/// A lookup finds the first entry whose key is the one looked up.
pub proof fn lemma_lookup_at<V>(fs: Seq<(String, V)>, kb: Seq<u8>, i: int)
    requires
        0 <= i < fs.len(),
        key_is(fs[i], kb),
        forall|j: int| 0 <= j < i ==> !key_is(#[trigger] fs[j], kb),
    ensures
        lookup(fs, kb) == Some(fs[i].1),
    decreases i,
{
    if i > 0 {
        assert(!key_is(fs[0], kb));
        assert forall|j: int| 0 <= j < i - 1 implies !key_is(#[trigger] fs.drop_first()[j], kb) by {
            assert(fs.drop_first()[j] == fs[j + 1]);
        }
        lemma_lookup_at(fs.drop_first(), kb, i - 1);
    }
}

/// A lookup finds nothing when no entry has the key.
pub proof fn lemma_lookup_none<V>(fs: Seq<(String, V)>, kb: Seq<u8>)
    requires
        forall|j: int| 0 <= j < fs.len() ==> !key_is(#[trigger] fs[j], kb),
    ensures
        lookup(fs, kb) is None,
    decreases fs.len(),
{
    if fs.len() > 0 {
        assert(!key_is(fs[0], kb));
        assert forall|j: int| 0 <= j < fs.len() - 1 implies !key_is(
            #[trigger] fs.drop_first()[j],
            kb,
        ) by {
            assert(fs.drop_first()[j] == fs[j + 1]);
        }
        lemma_lookup_none(fs.drop_first(), kb);
    }
}

/// In a map with sorted keys, a key occurs at most once.
pub proof fn lemma_sorted_unique<V>(fs: Seq<(String, V)>, i: int, j: int)
    requires
        keys_sorted(fs),
        0 <= i < fs.len(),
        0 <= j < fs.len(),
        fs[i].0@ == fs[j].0@,
    ensures
        i == j,
{
    lemma_str_order_equal(fs[i].0@, fs[j].0@);
    if i < j {
        assert(str_order_spec(fs[i].0@, fs[j].0@) == Order::Less);
    } else if j < i {
        assert(str_order_spec(fs[j].0@, fs[i].0@) == Order::Less);
    }
}

/// An entry has the UTF-8 key of a text exactly when its key is that text.
pub proof fn lemma_key_is_char_eq<V>(e: (String, V), k: Seq<char>)
    ensures
        key_is(e, encode_utf8(k)) <==> e.0@ == k,
{
    if key_is(e, encode_utf8(k)) {
        encode_utf8_decode_utf8(e.0@);
        encode_utf8_decode_utf8(k);
    }
}

/// Finds the index of the entry whose key bytes are `kb[start..end]`.
pub fn find_entry<V>(fs: &Vec<(String, V)>, kb: &[u8], start: usize, end: usize) -> (r: Option<
    usize,
>)
    requires
        start <= end <= kb.len(),
    ensures
        match r {
            Some(i) => i < fs.len() && key_is(fs@[i as int], kb@.subrange(start as int, end as int))
                && forall|j: int|
                0 <= j < i ==> !key_is(#[trigger] fs@[j], kb@.subrange(start as int, end as int)),
            None => forall|j: int|
                0 <= j < fs.len() ==> !key_is(#[trigger] fs@[j], kb@.subrange(start as int, end as int)),
        },
{
    let mut i: usize = 0;
    while i < fs.len()
        invariant
            start <= end <= kb.len(),
            i <= fs.len(),
            forall|j: int|
                0 <= j < i ==> !key_is(#[trigger] fs@[j], kb@.subrange(start as int, end as int)),
        decreases fs.len() - i,
    {
        let kbytes = fs[i].0.as_str().as_bytes();
        if kbytes.len() == end - start {
            let mut k: usize = 0;
            let mut same = true;
            while k < kbytes.len()
                invariant
                    start <= end <= kb.len(),
                    kbytes.len() == end - start,
                    k <= kbytes.len(),
                    same == forall|m: int| 0 <= m < k ==> kbytes@[m] == kb@[start + m],
                decreases kbytes.len() - k,
            {
                if kbytes[k] != kb[start + k] {
                    same = false;
                }
                k = k + 1;
            }
            if same {
                assert(kbytes@ =~= kb@.subrange(start as int, end as int));
                return Some(i);
            } else {
                assert(kbytes@ != kb@.subrange(start as int, end as int)) by {
                    if kbytes@ == kb@.subrange(start as int, end as int) {
                        assert(forall|m: int| 0 <= m < k ==> kbytes@[m] == kb@[start + m]);
                    }
                }
            }
        }
        i = i + 1;
    }
    None
}

/// Sets `key` to `value` in a map with sorted keys, replacing an earlier
/// value for the same key.
pub fn map_insert<V>(fs_vec: &mut Vec<(String, V)>, key: String, value: V)
    requires
        keys_sorted(old(fs_vec)@),
    ensures
        keys_sorted(final(fs_vec)@),
        get_field(final(fs_vec)@, key@) == Some(value),
        forall|k: Seq<char>|
            k != key@ ==> get_field(final(fs_vec)@, k) == get_field(old(fs_vec)@, k),
{
    let ghost old_fs = fs_vec@;
    let mut i: usize = 0;
    while i < fs_vec.len()
        invariant
            fs_vec@ == old_fs,
            keys_sorted(old_fs),
            i <= old_fs.len(),
            forall|j: int|
                0 <= j < i ==> str_order_spec(#[trigger] old_fs[j].0@, key@) == Order::Less,
        ensures
            fs_vec@ == old_fs,
            i <= old_fs.len(),
            i < old_fs.len() ==> str_order_spec(old_fs[i as int].0@, key@) != Order::Less,
            forall|j: int|
                0 <= j < i ==> str_order_spec(#[trigger] old_fs[j].0@, key@) == Order::Less,
        decreases fs_vec.len() - i,
    {
        let c = str_order(fs_vec[i].0.as_str(), key.as_str());
        if c != Order::Less {
            break;
        }
        i = i + 1;
    }
    let ghost kb = encode_utf8(key@);
    let found = i < fs_vec.len() && str_eq(fs_vec[i].0.as_str(), key.as_str());
    if found {
        fs_vec.set(i, (key, value));
    } else {
        fs_vec.insert(i, (key, value));
    }
    proof {
        let fs = fs_vec@;
        if !found && i < old_fs.len() {
            lemma_str_order_equal(old_fs[i as int].0@, key@);
            lemma_str_order_flip(old_fs[i as int].0@, key@);
        }
        // the new map is sorted
        assert forall|a: int, b: int| 0 <= a < b < fs.len() implies str_order_spec(
            #[trigger] fs[a].0@,
            #[trigger] fs[b].0@,
        ) == Order::Less by {
            if found {
                if a == i {
                    lemma_str_order_equal(old_fs[i as int].0@, key@);
                } else if b == i {
                    lemma_str_order_equal(old_fs[i as int].0@, key@);
                }
            } else {
                if a < i && b == i {
                } else if a == i && b > i {
                    if b > i + 1 {
                        lemma_str_order_trans(key@, old_fs[i as int].0@, old_fs[b - 1].0@);
                    }
                } else if a < i && b > i {
                } else if a > i {
                }
            }
        }
        // lookups
        assert(key_is(fs[i as int], kb));
        assert forall|j: int| 0 <= j < i implies !key_is(#[trigger] fs[j], kb) by {
            lemma_key_is_char_eq(fs[j], key@);
            lemma_str_order_equal(fs[j].0@, key@);
        }
        lemma_lookup_at(fs, kb, i as int);
        assert forall|k: Seq<char>| k != key@ implies get_field(fs, k) == get_field(old_fs, k) by {
            let kk = encode_utf8(k);
            lemma_key_is_char_eq(fs[i as int], k);
            if exists|j: int| 0 <= j < old_fs.len() && old_fs[j].0@ == k {
                let j = choose|j: int| 0 <= j < old_fs.len() && old_fs[j].0@ == k;
                lemma_key_is_char_eq(old_fs[j], k);
                assert forall|m: int| 0 <= m < j implies !key_is(#[trigger] old_fs[m], kk) by {
                    lemma_key_is_char_eq(old_fs[m], k);
                    if old_fs[m].0@ == k {
                        lemma_sorted_unique(old_fs, m, j);
                    }
                }
                lemma_lookup_at(old_fs, kk, j);
                let nj = if found || j < i { j } else { j + 1 };
                assert(fs[nj] == old_fs[j]);
                assert forall|m: int| 0 <= m < nj implies !key_is(#[trigger] fs[m], kk) by {
                    lemma_key_is_char_eq(fs[m], k);
                    if m != i || !found && m < i {
                        if m < i {
                            assert(fs[m] == old_fs[m]);
                        } else if !found && m > i {
                            assert(fs[m] == old_fs[m - 1]);
                        } else if found && m > i {
                            assert(fs[m] == old_fs[m]);
                        }
                        if fs[m].0@ == k && m != i {
                            let om = if !found && m > i { m - 1 } else { m };
                            lemma_sorted_unique(old_fs, om, j);
                        }
                    }
                }
                lemma_lookup_at(fs, kk, nj);
            } else {
                assert forall|m: int| 0 <= m < old_fs.len() implies !key_is(
                    #[trigger] old_fs[m],
                    kk,
                ) by {
                    lemma_key_is_char_eq(old_fs[m], k);
                }
                lemma_lookup_none(old_fs, kk);
                assert forall|m: int| 0 <= m < fs.len() implies !key_is(#[trigger] fs[m], kk) by {
                    lemma_key_is_char_eq(fs[m], k);
                    if m != i {
                        if m < i {
                            assert(fs[m] == old_fs[m]);
                        } else if !found {
                            assert(fs[m] == old_fs[m - 1]);
                        } else {
                            assert(fs[m] == old_fs[m]);
                        }
                    }
                }
                lemma_lookup_none(fs, kk);
            }
        }
    }
}

/// The value stored under `key`.
pub fn map_get<'a, V>(fs: &'a Vec<(String, V)>, key: &str) -> (r: Option<&'a V>)
    ensures
        match r {
            Some(v) => get_field(fs@, key@) == Some(*v),
            None => get_field(fs@, key@) is None,
        },
{
    let kb = key.as_bytes();
    match find_entry(fs, kb, 0, kb.len()) {
        Some(i) => {
            proof {
                assert(kb@.subrange(0, kb@.len() as int) =~= kb@);
                lemma_lookup_at(fs@, kb@, i as int);
            }
            Some(&fs[i].1)
        },
        None => {
            proof {
                assert(kb@.subrange(0, kb@.len() as int) =~= kb@);
                lemma_lookup_none(fs@, kb@);
            }
            None
        },
    }
}

} // verus!
