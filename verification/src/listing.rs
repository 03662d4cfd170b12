//! Directory entries: their order and how `/list` shows them.
//!
//! Entries are ordered by the bytes of their file names, as `OsString`
//! orders them; among entries with equal names the earlier one stays first.

use vstd::prelude::*;

use crate::style::{cyan_bold, cyan_bold_code, green, green_code, styled};
use crate::text::concat2;

verus! {

/// One directory entry, as the directory reader reported it.
pub struct Entry {
    /// The file name, as text (invalid UTF-8 replaced).
    pub name: String,
    /// The file name's bytes: what entries are ordered by.
    pub key: Vec<u8>,
    /// Whether the entry is a directory.
    pub is_dir: bool,
    /// The permission bits, when the entry's metadata could be read.
    pub mode: Option<u32>,
}

/// `a` comes before `b` in byte-wise lexicographic order.
pub open spec fn key_lt(a: Seq<u8>, b: Seq<u8>) -> bool
    decreases a.len(),
{
    if b.len() == 0 {
        false
    } else if a.len() == 0 {
        true
    } else if a[0] != b[0] {
        a[0] < b[0]
    } else {
        key_lt(a.drop_first(), b.drop_first())
    }
}

/// `s` with `e` inserted after every entry whose key is not greater than its own.
pub open spec fn insert_sorted(s: Seq<Entry>, e: Entry) -> Seq<Entry>
    decreases s.len(),
{
    if s.len() == 0 {
        seq![e]
    } else if key_lt(e.key@, s[0].key@) {
        seq![e] + s
    } else {
        seq![s[0]] + insert_sorted(s.drop_first(), e)
    }
}

/// `s` sorted by key, stably (each entry inserted in turn).
pub open spec fn sorted_entries(s: Seq<Entry>) -> Seq<Entry>
    decreases s.len(),
{
    if s.len() == 0 {
        s
    } else {
        insert_sorted(sorted_entries(s.drop_last()), s.last())
    }
}

/// No entry of `s` has a smaller key than an entry before it.
pub open spec fn is_sorted(s: Seq<Entry>) -> bool {
    forall|i: int, j: int| 0 <= i < j < s.len() ==> !key_lt(#[trigger] s[j].key@, #[trigger] s[i].key@)
}

/// `key_lt` is irreflexive.
pub proof fn lemma_key_lt_irreflexive(a: Seq<u8>)
    ensures
        !key_lt(a, a),
    decreases a.len(),
{
    if a.len() > 0 {
        lemma_key_lt_irreflexive(a.drop_first());
    }
}

/// `key_lt` is asymmetric.
pub proof fn lemma_key_lt_asymmetric(a: Seq<u8>, b: Seq<u8>)
    ensures
        key_lt(a, b) ==> !key_lt(b, a),
    decreases a.len(),
{
    if a.len() > 0 && b.len() > 0 && a[0] == b[0] {
        lemma_key_lt_asymmetric(a.drop_first(), b.drop_first());
    }
}

/// `key_lt` is total on distinct keys.
pub proof fn lemma_key_lt_total(a: Seq<u8>, b: Seq<u8>)
    ensures
        a != b ==> key_lt(a, b) || key_lt(b, a),
    decreases a.len(),
{
    if a.len() > 0 && b.len() > 0 && a[0] == b[0] {
        lemma_key_lt_total(a.drop_first(), b.drop_first());
        if a.drop_first() == b.drop_first() {
            assert(a =~= seq![a[0]] + a.drop_first());
            assert(b =~= seq![b[0]] + b.drop_first());
        }
    } else if a.len() == 0 && b.len() == 0 {
        assert(a =~= b);
    }
}

/// `key_lt` is transitive.
pub proof fn lemma_key_lt_transitive(a: Seq<u8>, b: Seq<u8>, c: Seq<u8>)
    requires
        key_lt(a, b),
        key_lt(b, c),
    ensures
        key_lt(a, c),
    decreases a.len(),
{
    if a.len() > 0 && a[0] == b[0] && b[0] == c[0] {
        lemma_key_lt_transitive(a.drop_first(), b.drop_first(), c.drop_first());
    }
}

/// Whether key `a` comes before key `b`.
pub fn key_less(a: &Vec<u8>, b: &Vec<u8>) -> (r: bool)
    ensures
        r == key_lt(a@, b@),
{
    let mut i: usize = 0;
    assert(a@.skip(0) =~= a@);
    assert(b@.skip(0) =~= b@);
    loop
        invariant
            i <= a@.len(),
            i <= b@.len(),
            key_lt(a@.skip(i as int), b@.skip(i as int)) == key_lt(a@, b@),
        decreases a@.len() - i,
    {
        if i == b.len() {
            return false;
        }
        if i == a.len() {
            return true;
        }
        if a[i] != b[i] {
            return a[i] < b[i];
        }
        assert(a@.skip(i as int).drop_first() =~= a@.skip(i + 1));
        assert(b@.skip(i as int).drop_first() =~= b@.skip(i + 1));
        i += 1;
    }
}

/// Inserting at the first position whose key is greater is `insert_sorted`.
proof fn lemma_insert_at(s: Seq<Entry>, e: Entry, pos: int)
    requires
        0 <= pos <= s.len(),
        forall|j: int| 0 <= j < pos ==> !key_lt(e.key@, #[trigger] s[j].key@),
        pos < s.len() ==> key_lt(e.key@, s[pos].key@),
    ensures
        insert_sorted(s, e) == s.insert(pos, e),
    decreases pos,
{
    if pos == 0 {
        if s.len() == 0 {
            assert(s.insert(0, e) =~= seq![e]);
        } else {
            assert(s.insert(0, e) =~= seq![e] + s);
        }
    } else {
        let t = s.drop_first();
        assert forall|j: int| 0 <= j < pos - 1 implies !key_lt(e.key@, #[trigger] t[j].key@) by {
            assert(t[j] == s[j + 1]);
        }
        assert(!key_lt(e.key@, s[0].key@));
        lemma_insert_at(t, e, pos - 1);
        assert(s.insert(pos, e) =~= seq![s[0]] + t.insert(pos - 1, e));
    }
}

/// The entries, ordered by key; entries with equal keys keep their order.
pub fn sort_entries(entries: Vec<Entry>) -> (r: Vec<Entry>)
    ensures
        r@ == sorted_entries(entries@),
{
    let ghost orig = entries@;
    let mut rest = entries;
    let mut r: Vec<Entry> = Vec::new();
    let n = rest.len();
    let mut k: usize = 0;
    assert(orig.take(0) =~= Seq::<Entry>::empty());
    while k < n
        invariant
            k <= n,
            n == orig.len(),
            rest@ == orig.skip(k as int),
            r@ == sorted_entries(orig.take(k as int)),
        decreases n - k,
    {
        assert(rest@[0] == orig[k as int]);
        let e = rest.remove(0);
        assert(rest@ =~= orig.skip(k + 1));
        let len = r.len();
        let mut pos: usize = 0;
        while pos < len && !key_less(&e.key, &r[pos].key)
            invariant
                pos <= len,
                len == r@.len(),
                forall|j: int| 0 <= j < pos ==> !key_lt(e.key@, #[trigger] r@[j].key@),
            decreases len - pos,
        {
            pos += 1;
        }
        proof {
            lemma_insert_at(r@, e, pos as int);
            assert(orig.take(k + 1).drop_last() =~= orig.take(k as int));
            assert(orig.take(k + 1).last() == e);
        }
        r.insert(pos, e);
        k += 1;
    }
    assert(orig.take(n as int) =~= orig);
    r
}

/// What `insert_sorted` holds: `e` and the entries of `s`.
proof fn lemma_insert_sorted_multiset(s: Seq<Entry>, e: Entry)
    ensures
        insert_sorted(s, e).to_multiset() == s.to_multiset().insert(e),
        insert_sorted(s, e).len() == s.len() + 1,
    decreases s.len(),
{
    broadcast use vstd::seq_lib::group_to_multiset_ensures;
    broadcast use vstd::multiset::group_multiset_axioms;

    if s.len() == 0 {
        assert(seq![e] =~= Seq::<Entry>::empty().push(e));
    } else if key_lt(e.key@, s[0].key@) {
        assert(seq![e] + s =~= s.insert(0, e));
        vstd::seq_lib::to_multiset_insert(s, 0, e);
    } else {
        let t = s.drop_first();
        lemma_insert_sorted_multiset(t, e);
        let u = insert_sorted(t, e);
        assert(seq![s[0]] + u =~= u.insert(0, s[0]));
        vstd::seq_lib::to_multiset_insert(u, 0, s[0]);
        assert(s =~= t.insert(0, s[0]));
        vstd::seq_lib::to_multiset_insert(t, 0, s[0]);
        assert(u.to_multiset().insert(s[0]) =~= t.to_multiset().insert(s[0]).insert(e));
    }
}

/// Every entry of `insert_sorted(s, e)` is `e` or an entry of `s`.
proof fn lemma_insert_sorted_members(s: Seq<Entry>, e: Entry)
    ensures
        forall|i: int|
            0 <= i < insert_sorted(s, e).len() ==> #[trigger] insert_sorted(s, e)[i] == e
                || s.contains(insert_sorted(s, e)[i]),
    decreases s.len(),
{
    lemma_insert_sorted_multiset(s, e);
    if s.len() > 0 && !key_lt(e.key@, s[0].key@) {
        let t = s.drop_first();
        lemma_insert_sorted_members(t, e);
        assert forall|i: int|
            0 <= i < insert_sorted(s, e).len() implies #[trigger] insert_sorted(s, e)[i] == e
                || s.contains(insert_sorted(s, e)[i]) by {
            if i == 0 {
                assert(s[0] == insert_sorted(s, e)[0]);
            } else {
                let x = insert_sorted(t, e)[i - 1];
                assert(insert_sorted(s, e)[i] == x);
                if x != e {
                    let k = choose|k: int| 0 <= k < t.len() && t[k] == x;
                    assert(s[k + 1] == x);
                }
            }
        }
    } else if s.len() > 0 {
        assert forall|i: int|
            0 <= i < insert_sorted(s, e).len() implies #[trigger] insert_sorted(s, e)[i] == e
                || s.contains(insert_sorted(s, e)[i]) by {
            if i > 0 {
                assert(insert_sorted(s, e)[i] == s[i - 1]);
            }
        }
    }
}

/// `insert_sorted` keeps a sorted sequence sorted.
proof fn lemma_insert_sorted_sorted(s: Seq<Entry>, e: Entry)
    requires
        is_sorted(s),
    ensures
        is_sorted(insert_sorted(s, e)),
    decreases s.len(),
{
    if s.len() == 0 {
    } else if key_lt(e.key@, s[0].key@) {
        let r = seq![e] + s;
        assert forall|i: int, j: int| 0 <= i < j < r.len() implies !key_lt(
            #[trigger] r[j].key@,
            #[trigger] r[i].key@,
        ) by {
            if i == 0 {
                let x = s[j - 1].key@;
                assert(r[j] == s[j - 1]);
                if j - 1 > 0 {
                    assert(!key_lt(x, s[0].key@));
                    lemma_key_lt_total(x, s[0].key@);
                    if x != s[0].key@ {
                        lemma_key_lt_transitive(e.key@, s[0].key@, x);
                    }
                }
                lemma_key_lt_asymmetric(e.key@, x);
            } else {
                assert(r[i] == s[i - 1]);
                assert(r[j] == s[j - 1]);
            }
        }
    } else {
        let t = s.drop_first();
        assert(is_sorted(t)) by {
            assert forall|i: int, j: int| 0 <= i < j < t.len() implies !key_lt(
                #[trigger] t[j].key@,
                #[trigger] t[i].key@,
            ) by {
                assert(t[i] == s[i + 1]);
                assert(t[j] == s[j + 1]);
            }
        }
        lemma_insert_sorted_sorted(t, e);
        lemma_insert_sorted_members(t, e);
        let u = insert_sorted(t, e);
        let r = seq![s[0]] + u;
        assert forall|i: int, j: int| 0 <= i < j < r.len() implies !key_lt(
            #[trigger] r[j].key@,
            #[trigger] r[i].key@,
        ) by {
            if i == 0 {
                let x = u[j - 1];
                assert(r[j] == x);
                if x != e {
                    let k = choose|k: int| 0 <= k < t.len() && t[k] == x;
                    assert(s[k + 1] == x);
                }
            } else {
                assert(r[i] == u[i - 1]);
                assert(r[j] == u[j - 1]);
            }
        }
    }
}

/// Listing order is a sorting: `sorted_entries` holds exactly the entries
/// it was given, and no entry has a smaller key than one before it.
pub proof fn law_entries_sorted_permutation(s: Seq<Entry>)
    ensures
        is_sorted(sorted_entries(s)),
        sorted_entries(s).to_multiset() == s.to_multiset(),
    decreases s.len(),
{
    broadcast use vstd::seq_lib::group_to_multiset_ensures;

    if s.len() > 0 {
        law_entries_sorted_permutation(s.drop_last());
        lemma_insert_sorted_sorted(sorted_entries(s.drop_last()), s.last());
        lemma_insert_sorted_multiset(sorted_entries(s.drop_last()), s.last());
        assert(s =~= s.drop_last().push(s.last()));
    } else {
        assert(is_sorted(s));
    }
}

/// Whether the permission bits `mode` let someone execute the file.
pub open spec fn is_executable(mode: u32) -> bool {
    mode & 0o111 != 0
}

/// `l` is how `/list` shows an entry named `name`: a box and the name in bold
/// cyan for a directory, a sword and the name in green for an executable
/// file, a page and the plain name otherwise.
pub open spec fn listing_shape(name: Seq<char>, is_dir: bool, mode: u32, l: Seq<char>) -> bool {
    if is_dir {
        exists|c: Seq<char>| styled(name, cyan_bold_code(), c) && l == "  📦 "@ + c
    } else if is_executable(mode) {
        exists|c: Seq<char>| styled(name, green_code(), c) && l == "  ⚔️ "@ + c
    } else {
        l == "  📄 "@ + name
    }
}

/// How `/list` shows an entry; nothing for an entry whose metadata could not be read.
pub fn listing_line(e: &Entry) -> (r: Option<String>)
    ensures
        match (e.mode, r) {
            (None, None) => true,
            (Some(m), Some(l)) => listing_shape(e.name@, e.is_dir, m, l@),
            _ => false,
        },
{
    match e.mode {
        None => None,
        Some(m) => {
            let name = e.name.as_str();
            if e.is_dir {
                let c = cyan_bold(name);
                Some(concat2("  📦 ", c.as_str()))
            } else if m & 0o111 != 0 {
                let c = green(name);
                Some(concat2("  ⚔️ ", c.as_str()))
            } else {
                Some(concat2("  📄 ", name))
            }
        },
    }
}

} // verus!
