//! Lists of `(key, value)` pairs kept in key order, as a sorted map keeps
//! its entries, and the order of texts they are kept in.
//!
//! The maps here are keyed by text. vstd's specification of `BTreeMap` holds
//! only for keys whose `Ord` obeys its comparison laws, and vstd states that
//! of no `String`; so the order and the uniqueness of keys are kept as an
//! invariant of a plain list instead.

use vstd::prelude::*;
use crate::text::chars_of;

verus! {

/// `a` sorts no later than `b`, comparing character codes left to right
/// (the order of `String`, whose UTF-8 bytes order as the code points do).
pub open spec fn text_le(a: Seq<char>, b: Seq<char>) -> bool
    decreases a.len(),
{
    if a.len() == 0 {
        true
    } else if b.len() == 0 {
        false
    } else if a[0] != b[0] {
        a[0] < b[0]
    } else {
        text_le(a.drop_first(), b.drop_first())
    }
}

/// `a` sorts strictly before `b`.
pub open spec fn text_lt(a: Seq<char>, b: Seq<char>) -> bool {
    text_le(a, b) && a != b
}

pub(crate) proof fn lemma_text_le_total(a: Seq<char>, b: Seq<char>)
    ensures
        text_le(a, b) || text_le(b, a),
    decreases a.len(),
{
    if a.len() > 0 && b.len() > 0 {
        if a[0] == b[0] {
            lemma_text_le_total(a.drop_first(), b.drop_first());
        }
    }
}

pub(crate) proof fn lemma_text_le_antisym(a: Seq<char>, b: Seq<char>)
    requires
        text_le(a, b),
        text_le(b, a),
    ensures
        a == b,
    decreases a.len(),
{
    if a.len() > 0 && b.len() > 0 {
        lemma_text_le_antisym(a.drop_first(), b.drop_first());
        assert(a =~= seq![a[0]] + a.drop_first());
        assert(b =~= seq![b[0]] + b.drop_first());
    }
}

pub(crate) proof fn lemma_text_le_trans(a: Seq<char>, b: Seq<char>, c: Seq<char>)
    requires
        text_le(a, b),
        text_le(b, c),
    ensures
        text_le(a, c),
    decreases a.len(),
{
    if a.len() > 0 && b.len() > 0 && c.len() > 0 && a[0] == b[0] && b[0] == c[0] {
        lemma_text_le_trans(a.drop_first(), b.drop_first(), c.drop_first());
    }
}

/// Compares two texts in `String` order: `a <= b`.
pub(crate) fn text_le_exec(a: &[char], b: &[char]) -> (r: bool)
    ensures
        r == text_le(a@, b@),
{
    let mut i: usize = 0;
    assert(a@.skip(0) =~= a@);
    assert(b@.skip(0) =~= b@);
    while i < a.len() && i < b.len()
        invariant
            i <= a@.len(),
            i <= b@.len(),
            text_le(a@, b@) == text_le(a@.skip(i as int), b@.skip(i as int)),
        decreases a@.len() - i,
    {
        if a[i] != b[i] {
            proof {
                assert(a@.skip(i as int)[0] == a@[i as int]);
                assert(b@.skip(i as int)[0] == b@[i as int]);
            }
            return a[i] < b[i];
        }
        proof {
            assert(a@.skip(i as int).drop_first() =~= a@.skip(i + 1));
            assert(b@.skip(i as int).drop_first() =~= b@.skip(i + 1));
        }
        i += 1;
    }
    i == a.len()
}

/// Keys strictly increase along the table, as in a sorted map.
pub open spec fn keys_ascending<T>(s: Seq<(String, T)>) -> bool {
    forall|i: int, j: int|
        0 <= i < j < s.len() ==> text_lt(#[trigger] s[i].0@, #[trigger] s[j].0@)
}

proof fn lemma_lt_le_trans(a: Seq<char>, b: Seq<char>, c: Seq<char>)
    requires
        text_lt(a, b),
        text_le(b, c),
    ensures
        text_lt(a, c),
{
    lemma_text_le_trans(a, b, c);
    if a == c {
        lemma_text_le_antisym(a, b);
    }
}

/// Replacing the entry at an index whose key is `e`'s keeps the lookup of
/// every other key, in a list whose keys are distinct.
proof fn lemma_assoc_update<T>(s: Seq<(String, T)>, i: int, e: (String, T))
    requires
        0 <= i < s.len(),
        s[i].0@ == e.0@,
        forall|a: int, b: int| 0 <= a < b < s.len() ==> #[trigger] s[a].0@ != #[trigger] s[b].0@,
    ensures
        crate::text::assoc_get(s.update(i, e), e.0@) == Some(e.1),
        forall|k: Seq<char>|
            k != e.0@ ==> #[trigger] crate::text::assoc_get(s.update(i, e), k)
                == crate::text::assoc_get(s, k),
    decreases s.len(),
{
    let t = s.update(i, e);
    if i == 0 {
        assert(t.drop_first() =~= s.drop_first());
        assert forall|k: Seq<char>| k != e.0@ implies #[trigger] crate::text::assoc_get(t, k)
            == crate::text::assoc_get(s, k) by {
            assert(t[0].0@ != k);
        }
    } else {
        let s1 = s.drop_first();
        assert forall|a: int, b: int| 0 <= a < b < s1.len() implies #[trigger] s1[a].0@
            != #[trigger] s1[b].0@ by {
            assert(s[a + 1].0@ != s[b + 1].0@);
        }
        lemma_assoc_update(s1, i - 1, e);
        assert(t.drop_first() =~= s1.update(i - 1, e));
        assert(s[0].0@ != e.0@);
        assert forall|k: Seq<char>| k != e.0@ implies #[trigger] crate::text::assoc_get(t, k)
            == crate::text::assoc_get(s, k) by {
            assert(crate::text::assoc_get(s1.update(i - 1, e), k) == crate::text::assoc_get(s1, k));
        }
    }
}

/// Inserting an entry with a key not in the list makes it found and keeps
/// every other lookup.
proof fn lemma_assoc_insert<T>(s: Seq<(String, T)>, i: int, e: (String, T))
    requires
        0 <= i <= s.len(),
        forall|a: int| 0 <= a < s.len() ==> #[trigger] s[a].0@ != e.0@,
    ensures
        crate::text::assoc_get(s.insert(i, e), e.0@) == Some(e.1),
        forall|k: Seq<char>|
            k != e.0@ ==> #[trigger] crate::text::assoc_get(s.insert(i, e), k)
                == crate::text::assoc_get(s, k),
    decreases s.len(),
{
    let t = s.insert(i, e);
    if i == 0 {
        assert(t.drop_first() =~= s);
        assert forall|k: Seq<char>| k != e.0@ implies #[trigger] crate::text::assoc_get(t, k)
            == crate::text::assoc_get(s, k) by {
            assert(t[0].0@ != k);
        }
    } else {
        let s1 = s.drop_first();
        assert forall|a: int| 0 <= a < s1.len() implies #[trigger] s1[a].0@ != e.0@ by {
            assert(s[a + 1].0@ != e.0@);
        }
        lemma_assoc_insert(s1, i - 1, e);
        assert(t.drop_first() =~= s1.insert(i - 1, e));
        assert(t[0] == s[0]);
        assert(s[0].0@ != e.0@);
        assert forall|k: Seq<char>| k != e.0@ implies #[trigger] crate::text::assoc_get(t, k)
            == crate::text::assoc_get(s, k) by {
            assert(crate::text::assoc_get(s1.insert(i - 1, e), k) == crate::text::assoc_get(s1, k));
        }
    }
}

/// Sets a key in a key-ordered list, as `BTreeMap::insert` does in a map:
/// the entry of an existing key is replaced in place, a new key is inserted
/// where the order puts it.
pub fn sorted_insert<T>(table: &mut Vec<(String, T)>, key: String, value: T)
    requires
        keys_ascending(old(table)@),
    ensures
        keys_ascending(final(table)@),
        match crate::text::assoc_get(old(table)@, key@) {
            Some(_) => exists|i: int|
                0 <= i < old(table)@.len() && old(table)@[i].0@ == key@ && final(table)@ == old(table)@.update(
                    i,
                    (key, value),
                ),
            None => exists|i: int| 0 <= i <= old(table)@.len() && final(table)@ == old(table)@.insert(i, (key, value)),
        },
        crate::text::assoc_get(final(table)@, key@) == Some(value),
        forall|k: Seq<char>|
            k != key@ ==> #[trigger] crate::text::assoc_get(final(table)@, k)
                == crate::text::assoc_get(old(table)@, k),
{
    let ghost s = table@;
    let kc = chars_of(key.as_str());
    let mut i: usize = 0;
    let mut found = false;
    while i < table.len()
        invariant
            i <= table@.len(),
            table@ == s,
            kc@ == key@,
            keys_ascending(s),
            forall|j: int| 0 <= j < i ==> text_lt(#[trigger] s[j].0@, key@),
            found ==> i < s.len() && s[i as int].0@ == key@,
        ensures
            i <= s.len(),
            table@ == s,
            forall|j: int| 0 <= j < i ==> text_lt(#[trigger] s[j].0@, key@),
            found ==> i < s.len() && s[i as int].0@ == key@,
            !found ==> i == s.len() || text_lt(key@, s[i as int].0@),
        decreases table@.len() - i,
    {
        let c = chars_of(table[i].0.as_str());
        if crate::text::chars_eq(c.as_slice(), kc.as_slice()) {
            found = true;
            break;
        }
        if !text_le_exec(c.as_slice(), kc.as_slice()) {
            proof {
                lemma_text_le_total(c@, kc@);
            }
            break;
        }
        i += 1;
    }
    let entry = (key, value);
    proof {
        assert forall|a: int, b: int| 0 <= a < b < s.len() implies #[trigger] s[a].0@
            != #[trigger] s[b].0@ by {
            assert(text_lt(s[a].0@, s[b].0@));
        }
    }
    if found {
        table.set(i, entry);
        proof {
            assert forall|j: int| 0 <= j < i implies (#[trigger] s[j]).0@ != key@ by {
                assert(text_lt(s[j].0@, key@));
            }
            crate::text::lemma_assoc_get_index(s, key@, i as int);
            lemma_assoc_update(s, i as int, entry);
            assert forall|a: int, b: int| 0 <= a < b < table@.len() implies text_lt(
                #[trigger] table@[a].0@,
                #[trigger] table@[b].0@,
            ) by {
                assert(text_lt(s[a].0@, s[b].0@));
            }
        }
    } else {
        table.insert(i, entry);
        proof {
            assert forall|a: int| 0 <= a < s.len() implies #[trigger] s[a].0@ != entry.0@ by {
                if a < i {
                    assert(text_lt(s[a].0@, key@));
                } else {
                    if a > i {
                        assert(text_lt(s[i as int].0@, s[a].0@));
                        lemma_lt_le_trans(key@, s[i as int].0@, s[a].0@);
                    }
                }
            }
            crate::text::lemma_assoc_get_absent(s, key@);
            lemma_assoc_insert(s, i as int, entry);
            let t = table@;
            assert forall|a: int, b: int| 0 <= a < b < t.len() implies text_lt(
                #[trigger] t[a].0@,
                #[trigger] t[b].0@,
            ) by {
                if b < i {
                    assert(text_lt(s[a].0@, s[b].0@));
                } else if b == i {
                    assert(text_lt(s[a].0@, key@));
                } else if a < i {
                    assert(text_lt(s[a].0@, s[b - 1].0@));
                } else if a == i {
                    if b - 1 > i {
                        assert(text_lt(s[i as int].0@, s[b - 1].0@));
                        lemma_lt_le_trans(key@, s[i as int].0@, s[b - 1].0@);
                    }
                } else {
                    assert(text_lt(s[a - 1].0@, s[b - 1].0@));
                }
            }
        }
    }
}

/// Checks that the keys strictly increase along the list.
pub fn keys_in_order<T>(v: &Vec<(String, T)>) -> (r: bool)
    ensures
        r == keys_ascending(v@),
{
    let n = v.len();
    if n == 0 {
        return true;
    }
    let mut i: usize = 1;
    while i < n
        invariant
            1 <= i <= n,
            n == v@.len(),
            forall|a: int, b: int| 0 <= a < b < i ==> text_lt(#[trigger] v@[a].0@, #[trigger] v@[b].0@),
        decreases n - i,
    {
        let x = chars_of(v[i - 1].0.as_str());
        let y = chars_of(v[i].0.as_str());
        if !(text_le_exec(x.as_slice(), y.as_slice()) && !crate::text::chars_eq(x.as_slice(), y.as_slice())) {
            assert(!text_lt(v@[i - 1].0@, v@[i as int].0@));
            return false;
        }
        proof {
            assert forall|a: int, b: int| 0 <= a < b < i + 1 implies text_lt(#[trigger] v@[a].0@, #[trigger] v@[b].0@) by {
                if b == i && a < i - 1 {
                    assert(text_lt(v@[a].0@, v@[i - 1].0@));
                    lemma_lt_le_trans(v@[a].0@, v@[i - 1].0@, v@[b].0@);
                }
            }
        }
        i += 1;
    }
    true
}

} // verus!
