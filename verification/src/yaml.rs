//! A YAML document as plain values, and adding a link to the `links` section
//! of `dotman.yaml`.

use vstd::prelude::*;
use crate::text::{str_eq, str_views, join_with};

verus! {

/// A YAML value: mappings keep their entries in document order, with
/// distinct keys; a number is held as its text.
#[derive(Debug)]
pub enum YamlValue {
    Null,
    Bool(bool),
    Number(String),
    Str(String),
    Sequence(Vec<YamlValue>),
    Mapping(Vec<(YamlValue, YamlValue)>),
    Tagged(String, Box<YamlValue>),
}

/// A value is the string `s`.
pub open spec fn is_str(v: YamlValue, s: Seq<char>) -> bool {
    v matches YamlValue::Str(t) && t@ == s
}

/// Entry `i` is the first whose key is the string `k`.
pub open spec fn first_key(m: Seq<(YamlValue, YamlValue)>, k: Seq<char>, i: int) -> bool {
    0 <= i < m.len() && is_str(m[i].0, k) && forall|j: int| 0 <= j < i ==> !is_str(#[trigger] m[j].0, k)
}

/// No key of `m` is the string `k`.
pub open spec fn no_key(m: Seq<(YamlValue, YamlValue)>, k: Seq<char>) -> bool {
    forall|j: int| 0 <= j < m.len() ==> !is_str(#[trigger] m[j].0, k)
}

/// `m2` is `m` with the string key `k` set to the string `v`: the value of
/// its entry replaced in place, or a new entry at the end.
pub open spec fn sets_key(m: Seq<(YamlValue, YamlValue)>, k: Seq<char>, v: Seq<char>, m2: Seq<(YamlValue, YamlValue)>) -> bool {
    ||| exists|i: int|
        first_key(m, k, i) && m2.len() == m.len() && m2[i].0 == m[i].0 && is_str(m2[i].1, v)
            && forall|j: int| 0 <= j < m.len() && j != i ==> #[trigger] m2[j] == m[j]
    ||| no_key(m, k) && m2.len() == m.len() + 1 && m2.take(m.len() as int) == m && is_str(
        m2.last().0,
        k,
    ) && is_str(m2.last().1, v)
}

fn str_value(s: &str) -> (r: YamlValue)
    ensures
        is_str(r, s@),
{
    YamlValue::Str(String::from_str(s))
}

fn key_matches(v: &YamlValue, s: &str) -> (r: bool)
    ensures
        r == is_str(*v, s@),
{
    match v {
        YamlValue::Str(t) => str_eq(t.as_str(), s),
        _ => false,
    }
}

/// The index of the entry whose key is the string `k`, if any.
fn find_key(m: &Vec<(YamlValue, YamlValue)>, k: &str) -> (r: Option<usize>)
    ensures
        match r {
            Some(i) => first_key(m@, k@, i as int),
            None => no_key(m@, k@),
        },
{
    let mut i: usize = 0;
    while i < m.len()
        invariant
            i <= m@.len(),
            forall|j: int| 0 <= j < i ==> !is_str(#[trigger] m@[j].0, k@),
        decreases m@.len() - i,
    {
        if key_matches(&m[i].0, k) {
            return Some(i);
        }
        i += 1;
    }
    None
}

/// Sets the string key `k` to the string `v` in a mapping's entries.
fn set_key(m: &mut Vec<(YamlValue, YamlValue)>, k: &str, v: &str)
    ensures
        sets_key(old(m)@, k@, v@, final(m)@),
{
    match find_key(m, k) {
        Some(i) => {
            let ghost before = m@;
            let entry = m.remove(i);
            let (key, _) = entry;
            m.insert(i, (key, str_value(v)));
            proof {
                assert(m@.len() == before.len());
                assert forall|j: int| 0 <= j < before.len() && j != i implies #[trigger] m@[j]
                    == before[j] by {
                    if j < i {
                        assert(m@[j] == before.remove(i as int)[j]);
                    } else {
                        assert(m@[j] == before.remove(i as int)[j - 1]);
                    }
                }
            }
        },
        None => {
            let ghost before = m@;
            m.push((str_value(k), str_value(v)));
            assert(m@.take(before.len() as int) =~= before);
        },
    }
}

/// What a `links` list item contributes: its `target` and `source` strings,
/// or why it cannot be written as a map entry.
pub open spec fn item_link(item: YamlValue) -> Result<(Seq<char>, Seq<char>), Seq<char>> {
    match item {
        YamlValue::Mapping(m) => {
            let t = choose|i: int| first_key(m@, "target"@, i);
            let s = choose|i: int| first_key(m@, "source"@, i);
            if !(exists|i: int| first_key(m@, "target"@, i) && m@[i].1 is Str) {
                Err("links: list item missing 'target' field"@)
            } else if !(exists|i: int| first_key(m@, "source"@, i) && m@[i].1 is Str) {
                Err("links: list item missing 'source' field"@)
            } else if extra_keys(m@).len() > 0 {
                Err(
                    "links: list item '"@ + str_of(m@[t].1) + "' has extra fields ("@ + join_with(
                        extra_keys(m@),
                        ", "@,
                    )
                        + ") that cannot be preserved in map format; edit dotman.yaml manually to add this link"@,
                )
            } else {
                Ok((str_of(m@[t].1), str_of(m@[s].1)))
            }
        },
        _ => Err("links: list item is not a mapping; cannot convert to map form"@),
    }
}

/// The text of a string value.
pub open spec fn str_of(v: YamlValue) -> Seq<char> {
    match v {
        YamlValue::Str(s) => s@,
        _ => Seq::empty(),
    }
}

/// The string keys of a mapping other than `target` and `source`, in order.
pub open spec fn extra_keys(m: Seq<(YamlValue, YamlValue)>) -> Seq<Seq<char>>
    decreases m.len(),
{
    if m.len() == 0 {
        Seq::empty()
    } else {
        let rest = extra_keys(m.drop_last());
        match m.last().0 {
            YamlValue::Str(k) => if k@ != "target"@ && k@ != "source"@ {
                rest.push(k@)
            } else {
                rest
            },
            _ => rest,
        }
    }
}

/// The string text of a value, if it is a string.
fn as_str(v: &YamlValue) -> (r: Option<&str>)
    ensures
        match r {
            Some(s) => v matches YamlValue::Str(t) && t@ == s@,
            None => !(v is Str),
        },
{
    match v {
        YamlValue::Str(t) => Some(t.as_str()),
        _ => None,
    }
}

fn extra_keys_of(m: &Vec<(YamlValue, YamlValue)>) -> (r: Vec<String>)
    ensures
        str_views(r@) == extra_keys(m@),
{
    let mut r: Vec<String> = Vec::new();
    let mut i: usize = 0;
    while i < m.len()
        invariant
            i <= m@.len(),
            str_views(r@) == extra_keys(m@.take(i as int)),
        decreases m@.len() - i,
    {
        let ghost before = r@;
        proof {
            assert(m@.take(i + 1).drop_last() =~= m@.take(i as int));
            assert(m@.take(i + 1).last() == m@[i as int]);
        }
        match &m[i].0 {
            YamlValue::Str(k) => {
                if !str_eq(k.as_str(), "target") && !str_eq(k.as_str(), "source") {
                    r.push(k.clone());
                    assert(str_views(r@) =~= str_views(before).push(k@));
                }
            },
            _ => {},
        }
        i += 1;
    }
    assert(m@.take(m@.len() as int) =~= m@);
    r
}

fn join_strings(v: &Vec<String>, sep: &str) -> (r: String)
    ensures
        r@ == join_with(str_views(v@), sep@),
{
    let mut parts: Vec<Vec<char>> = Vec::new();
    let mut i: usize = 0;
    while i < v.len()
        invariant
            i <= v@.len(),
            parts@.len() == i,
            forall|j: int| 0 <= j < i ==> #[trigger] parts@[j]@ == v@[j]@,
        decreases v@.len() - i,
    {
        parts.push(crate::text::chars_of(v[i].as_str()));
        i += 1;
    }
    assert(crate::text::views(parts@) =~= str_views(v@));
    let joined = crate::text::join(&parts, crate::text::chars_of(sep).as_slice());
    crate::text::string_of(joined.as_slice())
}

/// Reads one `links` list item as a `(target, source)` pair.
fn read_item(item: &YamlValue) -> (r: Result<(String, String), String>)
    ensures
        match r {
            Ok((t, s)) => item_link(*item) == Ok::<(Seq<char>, Seq<char>), Seq<char>>((t@, s@)),
            Err(e) => item_link(*item) == Err::<(Seq<char>, Seq<char>), Seq<char>>(e@),
        },
{
    let m = match item {
        YamlValue::Mapping(m) => m,
        _ => {
            return Err(String::from_str("links: list item is not a mapping; cannot convert to map form"));
        },
    };
    let target = match find_key(m, "target") {
        Some(i) => match as_str(&m[i].1) {
            Some(t) => t,
            None => {
                return Err(String::from_str("links: list item missing 'target' field"));
            },
        },
        None => {
            return Err(String::from_str("links: list item missing 'target' field"));
        },
    };
    let source = match find_key(m, "source") {
        Some(i) => match as_str(&m[i].1) {
            Some(s) => s,
            None => {
                return Err(String::from_str("links: list item missing 'source' field"));
            },
        },
        None => {
            return Err(String::from_str("links: list item missing 'source' field"));
        },
    };
    let extra = extra_keys_of(m);
    if extra.len() > 0 {
        let mut e = String::from_str("links: list item '");
        e.append(target);
        e.append("' has extra fields (");
        e.append(join_strings(&extra, ", ").as_str());
        e.append(") that cannot be preserved in map format; edit dotman.yaml manually to add this link");
        return Err(e);
    }
    Ok((String::from_str(target), String::from_str(source)))
}

/// Every key and value of the mapping is a string.
pub open spec fn all_strings(m: Seq<(YamlValue, YamlValue)>) -> bool {
    forall|i: int|
        0 <= i < m.len() ==> (#[trigger] m[i]).0 is Str && m[i].1 is Str
}

/// The entries of a mapping as pairs of texts.
pub open spec fn pairs_of(m: Seq<(YamlValue, YamlValue)>) -> Seq<(Seq<char>, Seq<char>)> {
    Seq::new(m.len(), |i: int| (str_of(m[i].0), str_of(m[i].1)))
}

/// Pair `i` is the first with key `k`.
pub open spec fn first_pair(p: Seq<(Seq<char>, Seq<char>)>, k: Seq<char>, i: int) -> bool {
    0 <= i < p.len() && p[i].0 == k && forall|j: int| 0 <= j < i ==> (#[trigger] p[j]).0 != k
}

/// `p` with key `k` set to `v`: in place when present, else at the end.
pub open spec fn pairs_set(p: Seq<(Seq<char>, Seq<char>)>, k: Seq<char>, v: Seq<char>) -> Seq<(Seq<char>, Seq<char>)> {
    if exists|i: int| first_pair(p, k, i) {
        p.update(choose|i: int| first_pair(p, k, i), (k, v))
    } else {
        p.push((k, v))
    }
}

/// The `links` map a list of items converts to: each item's target set to
/// its source, in order; or the first item's problem.
pub open spec fn items_to_pairs(items: Seq<YamlValue>) -> Result<Seq<(Seq<char>, Seq<char>)>, Seq<char>>
    decreases items.len(),
{
    if items.len() == 0 {
        Ok(Seq::empty())
    } else {
        match items_to_pairs(items.drop_last()) {
            Err(e) => Err(e),
            Ok(p) => match item_link(items.last()) {
                Err(e) => Err(e),
                Ok((t, s)) => Ok(pairs_set(p, t, s)),
            },
        }
    }
}

proof fn lemma_first_pair_unique(p: Seq<(Seq<char>, Seq<char>)>, k: Seq<char>, i: int, j: int)
    requires
        first_pair(p, k, i),
        first_pair(p, k, j),
    ensures
        i == j,
{
    if i < j {
        assert(p[i].0 != k);
    }
    if j < i {
        assert(p[j].0 != k);
    }
}

/// Setting a key in an all-string mapping sets it in its pairs.
proof fn lemma_sets_key_pairs(m: Seq<(YamlValue, YamlValue)>, k: Seq<char>, v: Seq<char>, m2: Seq<(YamlValue, YamlValue)>)
    requires
        all_strings(m),
        sets_key(m, k, v, m2),
    ensures
        all_strings(m2),
        pairs_of(m2) == pairs_set(pairs_of(m), k, v),
{
    let p = pairs_of(m);
    if exists|i: int|
        first_key(m, k, i) && m2.len() == m.len() && m2[i].0 == m[i].0 && is_str(m2[i].1, v)
            && forall|j: int| 0 <= j < m.len() && j != i ==> #[trigger] m2[j] == m[j] {
        let i = choose|i: int|
            first_key(m, k, i) && m2.len() == m.len() && m2[i].0 == m[i].0 && is_str(m2[i].1, v)
                && forall|j: int| 0 <= j < m.len() && j != i ==> #[trigger] m2[j] == m[j];
        assert forall|j: int| 0 <= j < m2.len() implies (#[trigger] m2[j]).0 is Str
            && m2[j].1 is Str by {
            if j != i {
                assert(m2[j] == m[j]);
                assert(m[j].0 is Str);
            } else {
                assert(m[i].0 is Str);
            }
        }
        assert(first_pair(p, k, i)) by {
            assert forall|j: int| 0 <= j < i implies (#[trigger] p[j]).0 != k by {
                assert(!is_str(m[j].0, k));
                assert(m[j].0 is Str);
            }
        }
        let c = choose|c: int| first_pair(p, k, c);
        lemma_first_pair_unique(p, k, i, c);
        assert(pairs_of(m2) =~= p.update(i, (k, v))) by {
            assert forall|j: int| 0 <= j < m2.len() implies #[trigger] pairs_of(m2)[j] == p.update(i, (k, v))[j] by {
                if j != i {
                    assert(m2[j] == m[j]);
                }
            }
        }
    } else {
        assert(no_key(m, k) && m2.len() == m.len() + 1 && m2.take(m.len() as int) == m);
        assert forall|j: int| 0 <= j < m2.len() implies (#[trigger] m2[j]).0 is Str
            && m2[j].1 is Str by {
            if j < m.len() {
                assert(m2[j] == m2.take(m.len() as int)[j]);
                assert(m[j].0 is Str);
            }
        }
        assert(!exists|i: int| first_pair(p, k, i)) by {
            if exists|i: int| first_pair(p, k, i) {
                let i = choose|i: int| first_pair(p, k, i);
                assert(!is_str(m[i].0, k));
                assert(m[i].0 is Str);
            }
        }
        assert(pairs_of(m2) =~= p.push((k, v))) by {
            assert forall|j: int| 0 <= j < m2.len() implies #[trigger] pairs_of(m2)[j] == p.push((k, v))[j] by {
                if j < m.len() {
                    assert(m2[j] == m2.take(m.len() as int)[j]);
                }
            }
        }
    }
}

/// Converts a `links` list into map entries.
fn items_to_map(items: &Vec<YamlValue>) -> (r: Result<Vec<(YamlValue, YamlValue)>, String>)
    ensures
        match r {
            Ok(m) => all_strings(m@) && items_to_pairs(items@) == Ok::<Seq<(Seq<char>, Seq<char>)>, Seq<char>>(pairs_of(m@)),
            Err(e) => items_to_pairs(items@) == Err::<Seq<(Seq<char>, Seq<char>)>, Seq<char>>(e@),
        },
{
    let mut m: Vec<(YamlValue, YamlValue)> = Vec::new();
    let mut i: usize = 0;
    assert(pairs_of(m@) =~= Seq::<(Seq<char>, Seq<char>)>::empty());
    assert(items@.take(0) =~= Seq::<YamlValue>::empty());
    while i < items.len()
        invariant
            i <= items@.len(),
            all_strings(m@),
            items_to_pairs(items@.take(i as int)) == Ok::<Seq<(Seq<char>, Seq<char>)>, Seq<char>>(pairs_of(m@)),
        decreases items@.len() - i,
    {
        proof {
            assert(items@.take(i + 1).drop_last() =~= items@.take(i as int));
            assert(items@.take(i + 1).last() == items@[i as int]);
        }
        match read_item(&items[i]) {
            Ok((t, s)) => {
                let ghost before = m@;
                set_key(&mut m, t.as_str(), s.as_str());
                proof {
                    lemma_sets_key_pairs(before, t@, s@, m@);
                }
            },
            Err(e) => {
                proof {
                    lemma_items_error_stays(items@, i as int + 1);
                }
                return Err(e);
            },
        }
        i += 1;
    }
    assert(items@.take(items@.len() as int) =~= items@);
    Ok(m)
}

/// An error in a prefix of the items is the error of all of them.
proof fn lemma_items_error_stays(items: Seq<YamlValue>, n: int)
    requires
        0 <= n <= items.len(),
        items_to_pairs(items.take(n)) is Err,
    ensures
        items_to_pairs(items) == items_to_pairs(items.take(n)),
    decreases items.len() - n,
{
    if n < items.len() {
        assert(items.take(n + 1).drop_last() =~= items.take(n));
        lemma_items_error_stays(items, n + 1);
    } else {
        assert(items.take(n) =~= items);
    }
}

/// A mapping holding the one entry `k: v`.
fn single(k: &str, v: &str) -> (r: Vec<(YamlValue, YamlValue)>)
    ensures
        all_strings(r@),
        pairs_of(r@) == seq![(k@, v@)],
{
    let mut m: Vec<(YamlValue, YamlValue)> = Vec::new();
    m.push((str_value(k), str_value(v)));
    assert(pairs_of(m@) =~= seq![(k@, v@)]);
    m
}

/// `doc2` is the mapping `m` with entry `i`'s value replaced by a mapping
/// whose entries satisfy `p`.
pub open spec fn replaces_links(m: Seq<(YamlValue, YamlValue)>, i: int, doc2: YamlValue, links: spec_fn(Seq<(YamlValue, YamlValue)>) -> bool) -> bool {
    doc2 matches YamlValue::Mapping(m2) && m2@.len() == m.len() && m2@[i].0 == m[i].0 && (forall|j: int|
        0 <= j < m.len() && j != i ==> #[trigger] m2@[j] == m[j]) && (m2@[i].1 matches YamlValue::Mapping(l) && links(l@))
}

/// Adds the link `target: source` to the `links` section of a `dotman.yaml`
/// document: into its map; converting a list of `{target, source}` items to
/// a map first; creating the section when it is empty or missing.
pub fn insert_link_entry(doc: YamlValue, target: &str, source: &str) -> (r: Result<YamlValue, String>)
    ensures
        match doc {
            YamlValue::Mapping(m) => {
                if no_key(m@, "links"@) {
                    r matches Ok(YamlValue::Mapping(m2)) && m2@.len() == m@.len() + 1 && m2@.take(m@.len() as int) == m@
                        && is_str(m2@.last().0, "links"@) && (m2@.last().1 matches YamlValue::Mapping(l) && all_strings(l@)
                        && pairs_of(l@) == seq![(target@, source@)])
                } else {
                    let i = choose|i: int| first_key(m@, "links"@, i);
                    match m@[i].1 {
                        YamlValue::Null => r matches Ok(d) && replaces_links(m@, i, d, |l: Seq<(YamlValue, YamlValue)>| all_strings(l) && pairs_of(l) == seq![(target@, source@)]),
                        YamlValue::Mapping(links) => r matches Ok(d) && replaces_links(m@, i, d, |l: Seq<(YamlValue, YamlValue)>| sets_key(links@, target@, source@, l)),
                        YamlValue::Sequence(items) => match items_to_pairs(items@) {
                            Err(e) => r matches Err(x) && x@ == e,
                            Ok(p) => r matches Ok(d) && replaces_links(m@, i, d, |l: Seq<(YamlValue, YamlValue)>| all_strings(l) && pairs_of(l) == pairs_set(p, target@, source@)),
                        },
                        _ => r matches Err(x) && x@ == "links: section has unexpected format"@,
                    }
                }
            },
            _ => r matches Err(x) && x@ == "dotman.yaml is not a mapping"@,
        },
{
    let mut m = match doc {
        YamlValue::Mapping(m) => m,
        _ => {
            return Err(String::from_str("dotman.yaml is not a mapping"));
        },
    };
    match find_key(&m, "links") {
        None => {
            let ghost before = m@;
            m.push((str_value("links"), YamlValue::Mapping(single(target, source))));
            assert(m@.take(before.len() as int) =~= before);
            Ok(YamlValue::Mapping(m))
        },
        Some(i) => {
            let ghost before = m@;
            proof {
                let c = choose|c: int| first_key(before, "links"@, c);
                if c < i {
                    assert(!is_str(before[c].0, "links"@));
                }
                if i < c {
                    assert(!is_str(before[i as int].0, "links"@));
                }
            }
            let (key, section) = m.remove(i);
            let new_links: Vec<(YamlValue, YamlValue)> = match section {
                YamlValue::Null => single(target, source),
                YamlValue::Mapping(links) => {
                    let mut links = links;
                    set_key(&mut links, target, source);
                    links
                },
                YamlValue::Sequence(items) => {
                    match items_to_map(&items) {
                        Ok(l) => {
                            let mut l = l;
                            let ghost lb = l@;
                            set_key(&mut l, target, source);
                            proof {
                                lemma_sets_key_pairs(lb, target@, source@, l@);
                            }
                            l
                        },
                        Err(e) => {
                            return Err(e);
                        },
                    }
                },
                _ => {
                    return Err(String::from_str("links: section has unexpected format"));
                },
            };
            m.insert(i, (key, YamlValue::Mapping(new_links)));
            proof {
                assert forall|j: int| 0 <= j < before.len() && j != i implies #[trigger] m@[j] == before[j] by {
                    if j < i {
                        assert(m@[j] == before.remove(i as int)[j]);
                    } else {
                        assert(m@[j] == before.remove(i as int)[j - 1]);
                    }
                }
            }
            Ok(YamlValue::Mapping(m))
        },
    }
}

/// The value of the first pair with key `k`, if any.
pub open spec fn pairs_get(p: Seq<(Seq<char>, Seq<char>)>, k: Seq<char>) -> Option<Seq<char>>
    decreases p.len(),
{
    if p.len() == 0 {
        None
    } else if p[0].0 == k {
        Some(p[0].1)
    } else {
        pairs_get(p.drop_first(), k)
    }
}

proof fn lemma_pairs_get_first(p: Seq<(Seq<char>, Seq<char>)>, k: Seq<char>, i: int)
    requires
        first_pair(p, k, i),
    ensures
        pairs_get(p, k) == Some(p[i].1),
    decreases i,
{
    if i > 0 {
        assert(p[0].0 != k);
        assert(first_pair(p.drop_first(), k, i - 1)) by {
            assert forall|j: int| 0 <= j < i - 1 implies (#[trigger] p.drop_first()[j]).0 != k by {
                assert(p.drop_first()[j] == p[j + 1]);
            }
        }
        lemma_pairs_get_first(p.drop_first(), k, i - 1);
    }
}

proof fn lemma_pairs_get_none(p: Seq<(Seq<char>, Seq<char>)>, k: Seq<char>)
    requires
        !exists|i: int| first_pair(p, k, i),
    ensures
        pairs_get(p, k) is None,
        forall|j: int| 0 <= j < p.len() ==> (#[trigger] p[j]).0 != k,
    decreases p.len(),
{
    if p.len() > 0 {
        if p[0].0 == k {
            assert(first_pair(p, k, 0));
        }
        assert(!exists|i: int| first_pair(p.drop_first(), k, i)) by {
            if exists|i: int| first_pair(p.drop_first(), k, i) {
                let i = choose|i: int| first_pair(p.drop_first(), k, i);
                assert(first_pair(p, k, i + 1)) by {
                    assert forall|j: int| 0 <= j < i + 1 implies (#[trigger] p[j]).0 != k by {
                        if j > 0 {
                            assert(p[j] == p.drop_first()[j - 1]);
                        }
                    }
                }
            }
        }
        lemma_pairs_get_none(p.drop_first(), k);
        assert forall|j: int| 0 <= j < p.len() implies (#[trigger] p[j]).0 != k by {
            if j > 0 {
                assert(p[j] == p.drop_first()[j - 1]);
            }
        }
    }
}

proof fn lemma_pairs_get_unchanged(p: Seq<(Seq<char>, Seq<char>)>, q: Seq<(Seq<char>, Seq<char>)>, k2: Seq<char>)
    requires
        p.len() <= q.len(),
        forall|j: int| 0 <= j < p.len() ==> ((#[trigger] q[j]).0 == k2) == (p[j].0 == k2) && (q[j].0 == k2 ==> q[j].1 == p[j].1),
        forall|j: int| p.len() <= j < q.len() ==> (#[trigger] q[j]).0 != k2,
    ensures
        pairs_get(q, k2) == pairs_get(p, k2),
    decreases q.len(),
{
    if p.len() == 0 {
        if q.len() > 0 {
            assert(q[0].0 != k2);
            assert forall|j: int| 0 <= j < q.drop_first().len() implies (#[trigger] q.drop_first()[j]).0 != k2 by {
                assert(q.drop_first()[j] == q[j + 1]);
            }
            lemma_pairs_get_unchanged(p, q.drop_first(), k2);
        }
    } else {
        assert(q[0].0 == k2 <==> p[0].0 == k2);
        if p[0].0 != k2 {
            assert forall|j: int| 0 <= j < p.drop_first().len() implies ((#[trigger] q.drop_first()[j]).0 == k2) == (p.drop_first()[j].0 == k2) && (q.drop_first()[j].0 == k2 ==> q.drop_first()[j].1 == p.drop_first()[j].1) by {
                assert(q.drop_first()[j] == q[j + 1]);
                assert(p.drop_first()[j] == p[j + 1]);
            }
            assert forall|j: int| p.drop_first().len() <= j < q.drop_first().len() implies (#[trigger] q.drop_first()[j]).0 != k2 by {
                assert(q.drop_first()[j] == q[j + 1]);
            }
            lemma_pairs_get_unchanged(p.drop_first(), q.drop_first(), k2);
        }
    }
}

/// Reading the links map after setting a link gives the link's source for
/// its target, and leaves what every other target reads unchanged.
pub proof fn lemma_pairs_set_read(p: Seq<(Seq<char>, Seq<char>)>, k: Seq<char>, v: Seq<char>, k2: Seq<char>)
    ensures
        pairs_get(pairs_set(p, k, v), k2) == if k2 == k {
            Some(v)
        } else {
            pairs_get(p, k2)
        },
{
    let q = pairs_set(p, k, v);
    if exists|i: int| first_pair(p, k, i) {
        let i = choose|i: int| first_pair(p, k, i);
        assert(q == p.update(i, (k, v)));
        if k2 == k {
            assert(first_pair(q, k, i));
            lemma_pairs_get_first(q, k, i);
        } else {
            lemma_pairs_get_unchanged(p, q, k2);
        }
    } else {
        assert(q == p.push((k, v)));
        if k2 == k {
            lemma_pairs_get_none(p, k);
            assert(first_pair(q, k, p.len() as int)) by {
                assert forall|j: int| 0 <= j < p.len() implies (#[trigger] q[j]).0 != k by {
                    assert(q[j] == p[j]);
                }
            }
            lemma_pairs_get_first(q, k, p.len() as int);
        } else {
            lemma_pairs_get_unchanged(p, q, k2);
        }
    }
}

} // verus!
