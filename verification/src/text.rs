//! Character-level text model: whitespace, trimming, splitting, searching.
//!
//! Every function here works on the characters of a string (its view,
//! a `Seq<char>`), the way `str` methods of the same name do.

use vstd::prelude::*;
use vstd::std_specs::iter::IteratorSpec;
use vstd::string::StringExecFns;
use vstd::utf8::{char_is_scalar, encode_scalar, encode_utf8, is_scalar};

verus! {

broadcast use vstd::string::group_string_axioms;

/// `String::push` appends one character.
pub assume_specification[ String::push ](s: &mut String, ch: char)
    ensures
        final(s)@ == old(s)@.push(ch),
;

/// The views of a sequence of strings.
pub open spec fn views(v: Seq<String>) -> Seq<Seq<char>> {
    v.map_values(|x: String| x@)
}

/// The view of an optional string.
pub open spec fn opt_view(o: Option<String>) -> Option<Seq<char>> {
    match o {
        Some(x) => Some(x@),
        None => None,
    }
}

/// The Unicode `White_Space` property, which `char::is_whitespace` tests.
pub open spec fn is_ws(c: char) -> bool {
    let u = c as u32;
    ||| 0x09 <= u <= 0x0d
    ||| u == 0x20
    ||| u == 0x85
    ||| u == 0xa0
    ||| u == 0x1680
    ||| 0x2000 <= u <= 0x200a
    ||| u == 0x2028
    ||| u == 0x2029
    ||| u == 0x202f
    ||| u == 0x205f
    ||| u == 0x3000
}

/// `s` without its leading whitespace.
pub open spec fn trim_start(s: Seq<char>) -> Seq<char>
    decreases s.len(),
{
    if s.len() > 0 && is_ws(s[0]) {
        trim_start(s.drop_first())
    } else {
        s
    }
}

/// `s` without its trailing whitespace.
pub open spec fn trim_end(s: Seq<char>) -> Seq<char>
    decreases s.len(),
{
    if s.len() > 0 && is_ws(s.last()) {
        trim_end(s.drop_last())
    } else {
        s
    }
}

/// `s` without leading and trailing whitespace (`str::trim`).
pub open spec fn trim(s: Seq<char>) -> Seq<char> {
    trim_end(trim_start(s))
}

/// The pieces of `s` between occurrences of `sep` (`str::split` on a char):
/// `k` separators give `k + 1` pieces, empty ones included.
pub open spec fn split_on(s: Seq<char>, sep: char) -> Seq<Seq<char>>
    decreases s.len(),
{
    if s.len() == 0 {
        seq![Seq::<char>::empty()]
    } else {
        let p = split_on(s.drop_last(), sep);
        if s.last() == sep {
            p.push(Seq::<char>::empty())
        } else {
            p.update(p.len() - 1, p.last().push(s.last()))
        }
    }
}

/// The maximal runs of non-whitespace characters of `s`, in order
/// (`str::split_whitespace`).
pub open spec fn words(s: Seq<char>) -> Seq<Seq<char>>
    decreases s.len(),
{
    if s.len() == 0 {
        Seq::<Seq<char>>::empty()
    } else {
        let p = words(s.drop_last());
        let c = s.last();
        if is_ws(c) {
            p
        } else if s.len() == 1 || is_ws(s[s.len() - 2]) {
            p.push(seq![c])
        } else {
            p.update(p.len() - 1, p.last().push(c))
        }
    }
}

/// The index of the first `c` in `s`, or -1 when there is none.
pub open spec fn first_index_of(s: Seq<char>, c: char) -> int
    decreases s.len(),
{
    if s.len() == 0 {
        -1
    } else if s[0] == c {
        0
    } else {
        let r = first_index_of(s.drop_first(), c);
        if r < 0 {
            -1
        } else {
            r + 1
        }
    }
}

/// What `s.splitn(2, c)` yields first: `s` up to its first `c`, or all of `s`.
pub open spec fn before_first(s: Seq<char>, c: char) -> Seq<char> {
    let i = first_index_of(s, c);
    if i < 0 {
        s
    } else {
        s.take(i)
    }
}

/// What `s.splitn(2, c)` yields second, if anything: `s` after its first `c`.
pub open spec fn after_first(s: Seq<char>, c: char) -> Option<Seq<char>> {
    let i = first_index_of(s, c);
    if i < 0 {
        None
    } else {
        Some(s.skip(i + 1))
    }
}

/// `t` occurs in `s` as a contiguous piece (`str::contains` with a `&str`).
pub open spec fn has_substring(s: Seq<char>, t: Seq<char>) -> bool {
    exists|i: int| 0 <= i && i + t.len() <= s.len() && #[trigger] s.subrange(i, i + t.len()) == t
}

/// The code of `c` with an ASCII upper-case letter turned into lower case.
pub open spec fn ascii_lower(c: char) -> int {
    if 'A' <= c <= 'Z' {
        (c as u32) + 32
    } else {
        c as u32 as int
    }
}

/// `a` and `b` are equal up to ASCII case (`str::eq_ignore_ascii_case`).
pub open spec fn eq_ignore_ascii_case(a: Seq<char>, b: Seq<char>) -> bool {
    &&& a.len() == b.len()
    &&& forall|i: int| 0 <= i < a.len() ==> ascii_lower(#[trigger] a[i]) == ascii_lower(b[i])
}

/// What `str::to_lowercase` returns for `s`: the Unicode lower-case mapping,
/// which std computes from its own tables.
pub uninterp spec fn lowercase(s: Seq<char>) -> Seq<char>;

/// `s` holds only ASCII characters, none of them an upper-case letter.
pub open spec fn is_ascii_lower(s: Seq<char>) -> bool {
    forall|i: int| 0 <= i < s.len() ==> (#[trigger] s[i] as u32) < 0x80 && !('A' <= s[i] <= 'Z')
}

/// The lower-case form of `s`: `s` itself when it is ASCII without an
/// upper-case letter, else what `str::to_lowercase` gives.
pub open spec fn lower_text(s: Seq<char>) -> Seq<char> {
    if is_ascii_lower(s) {
        s
    } else {
        lowercase(s)
    }
}

/// Calls `str::to_lowercase`.
/// Its result is given the name `lowercase`, a function of the characters of
/// `s` alone. Claimed besides, as std documents for `char::to_lowercase`: a
/// character without a lower-case mapping of its own (every ASCII character
/// but `A` to `Z`) maps to itself, so ASCII text without upper-case letters
/// comes back unchanged. Nothing more of the result is claimed.
#[verifier::external_body]
pub(crate) fn to_lowercase(s: &str) -> (r: String)
    ensures
        r@ == lowercase(s@),
        is_ascii_lower(s@) ==> r@ == s@,
{
    s.to_lowercase()
}

/// The characters of `s`, in order.
pub fn chars_of(s: &str) -> (r: Vec<char>)
    ensures
        r@ == s@,
{
    let mut r: Vec<char> = Vec::new();
    for c in it: s.chars()
        invariant
            r@ == it.seq().take(it.index() as int),
    {
        r.push(c);
    }
    r
}

/// The string made of `v[a..b]`.
pub fn string_of(v: &Vec<char>, a: usize, b: usize) -> (r: String)
    requires
        a <= b <= v@.len(),
    ensures
        r@ == v@.subrange(a as int, b as int),
{
    let mut r = String::new();
    let mut i = a;
    while i < b
        invariant
            a <= i <= b,
            b <= v@.len(),
            r@ == v@.subrange(a as int, i as int),
        decreases b - i,
    {
        r.push(v[i]);
        proof {
            assert(v@.subrange(a as int, i + 1) =~= v@.subrange(a as int, i as int).push(v@[i as int]));
        }
        i += 1;
    }
    r
}

/// `char::is_whitespace`.
pub fn is_whitespace(c: char) -> (r: bool)
    ensures
        r == is_ws(c),
{
    let u = c as u32;
    (0x09 <= u && u <= 0x0d) || u == 0x20 || u == 0x85 || u == 0xa0 || u == 0x1680 || (0x2000 <= u
        && u <= 0x200a) || u == 0x2028 || u == 0x2029 || u == 0x202f || u == 0x205f || u == 0x3000
}

/// `str::trim`: `s` without leading and trailing whitespace.
pub fn trim_str(s: &str) -> (r: String)
    ensures
        r@ == trim(s@),
{
    let v = chars_of(s);
    let n = v.len();
    let mut a: usize = 0;
    assert(v@.subrange(0, n as int) =~= v@);
    while a < n && is_whitespace(v[a])
        invariant
            a <= n,
            n == v@.len(),
            trim_start(v@.subrange(a as int, n as int)) == trim_start(v@),
        decreases n - a,
    {
        assert(v@.subrange(a as int, n as int).drop_first() =~= v@.subrange(a + 1, n as int));
        a += 1;
    }
    assert(a < n ==> v@.subrange(a as int, n as int)[0] == v@[a as int]);
    assert(trim_start(v@) =~= v@.subrange(a as int, n as int));
    let mut b: usize = n;
    while b > a && is_whitespace(v[b - 1])
        invariant
            a <= b <= n,
            n == v@.len(),
            trim_start(v@) =~= v@.subrange(a as int, n as int),
            trim_end(v@.subrange(a as int, b as int)) == trim(v@),
        decreases b - a,
    {
        assert(v@.subrange(a as int, b as int).drop_last() =~= v@.subrange(a as int, b - 1));
        b -= 1;
    }
    assert(b > a ==> v@.subrange(a as int, b as int).last() == v@[b - 1]);
    assert(trim_end(v@.subrange(a as int, b as int)) =~= v@.subrange(a as int, b as int));
    string_of(&v, a, b)
}

/// `split_on` never yields an empty list of pieces.
pub proof fn lemma_split_on_nonempty(s: Seq<char>, sep: char)
    ensures
        split_on(s, sep).len() >= 1,
    decreases s.len(),
{
    if s.len() > 0 {
        lemma_split_on_nonempty(s.drop_last(), sep);
    }
}

/// `s.split(sep)`, each piece as a `String`.
pub fn split_char(s: &str, sep: char) -> (r: Vec<String>)
    ensures
        views(r@) == split_on(s@, sep),
{
    let v = chars_of(s);
    let n = v.len();
    let mut done: Vec<String> = Vec::new();
    let mut cur = String::new();
    let mut i: usize = 0;
    assert(v@.take(0) =~= Seq::<char>::empty());
    assert(views(done@).push(cur@) =~= split_on(v@.take(0), sep));
    while i < n
        invariant
            i <= n,
            n == v@.len(),
            views(done@).push(cur@) == split_on(v@.take(i as int), sep),
        decreases n - i,
    {
        let c = v[i];
        proof {
            assert(v@.take(i + 1).drop_last() =~= v@.take(i as int));
            assert(v@.take(i + 1).last() == c);
        }
        if c == sep {
            done.push(cur);
            cur = String::new();
            assert(views(done@).push(cur@) =~= split_on(v@.take(i + 1), sep));
        } else {
            cur.push(c);
            assert(views(done@).push(cur@) =~= split_on(v@.take(i + 1), sep));
        }
        i += 1;
    }
    done.push(cur);
    assert(v@.take(n as int) =~= v@);
    assert(views(done@) =~= split_on(s@, sep));
    done
}

/// `words` of a sequence that ends in a non-whitespace character is not empty.
pub proof fn lemma_words_nonempty(s: Seq<char>)
    requires
        s.len() > 0,
        !is_ws(s.last()),
    ensures
        words(s).len() >= 1,
    decreases s.len(),
{
    if s.len() > 1 && !is_ws(s[s.len() - 2]) {
        lemma_words_nonempty(s.drop_last());
    }
}

/// `s.split_whitespace()`, each word as a `String`.
pub fn split_words(s: &str) -> (r: Vec<String>)
    ensures
        views(r@) == words(s@),
{
    let v = chars_of(s);
    let n = v.len();
    let mut done: Vec<String> = Vec::new();
    let mut cur = String::new();
    let mut i: usize = 0;
    assert(v@.take(0) =~= Seq::<char>::empty());
    while i < n
        invariant
            i <= n,
            n == v@.len(),
            (i > 0 && !is_ws(v@[i - 1])) == (cur@.len() > 0),
            cur@.len() > 0 ==> views(done@).push(cur@) == words(v@.take(i as int)),
            cur@.len() == 0 ==> views(done@) == words(v@.take(i as int)),
        decreases n - i,
    {
        let c = v[i];
        proof {
            assert(v@.take(i + 1).drop_last() =~= v@.take(i as int));
            assert(v@.take(i + 1).last() == c);
            if i > 0 {
                assert(v@.take(i + 1)[i - 1] == v@[i - 1]);
            }
        }
        if is_whitespace(c) {
            if !cur.as_str().is_empty() {
                done.push(cur);
                cur = String::new();
                assert(views(done@) =~= words(v@.take(i + 1)));
            }
        } else {
            if cur.as_str().is_empty() {
                cur.push(c);
                proof {
                    assert(cur@ =~= seq![c]);
                    assert(words(v@.take(i + 1)) == words(v@.take(i as int)).push(seq![c]));
                }
                assert(views(done@).push(cur@) =~= words(v@.take(i + 1)));
            } else {
                let ghost old_cur = cur@;
                proof {
                    lemma_words_nonempty(v@.take(i as int));
                    assert(v@.take(i as int).last() == v@[i - 1]);
                    assert(v@.take(i + 1)[i + 1 - 2] == v@[i - 1]);
                }
                cur.push(c);
                proof {
                    let p = words(v@.take(i as int));
                    assert(p == views(done@).push(old_cur));
                    assert(words(v@.take(i + 1)) == p.update(p.len() - 1, p.last().push(c)));
                    assert(views(done@).push(cur@) =~= p.update(p.len() - 1, p.last().push(c)));
                }
            }
        }
        i += 1;
    }
    if !cur.as_str().is_empty() {
        done.push(cur);
    }
    assert(v@.take(n as int) =~= v@);
    done
}

/// `first_index_of` finds the first occurrence: all characters before it differ.
pub proof fn lemma_first_index(s: Seq<char>, c: char, i: int)
    requires
        0 <= i <= s.len(),
        forall|j: int| 0 <= j < i ==> s[j] != c,
    ensures
        (i < s.len() && s[i] == c) ==> first_index_of(s, c) == i,
        i == s.len() ==> first_index_of(s, c) == -1,
    decreases i,
{
    if i > 0 {
        assert forall|j: int| 0 <= j < i - 1 implies s.drop_first()[j] != c by {
            assert(s.drop_first()[j] == s[j + 1]);
        }
        lemma_first_index(s.drop_first(), c, i - 1);
    }
}

/// What `first_index_of` returns: -1 when `c` does not occur, else an index
/// holding `c` with no `c` before it.
pub proof fn lemma_first_index_facts(s: Seq<char>, c: char)
    ensures
        -1 <= first_index_of(s, c) < s.len(),
        first_index_of(s, c) == -1 <==> !s.contains(c),
        first_index_of(s, c) >= 0 ==> s[first_index_of(s, c)] == c,
        forall|j: int| 0 <= j < first_index_of(s, c) ==> s[j] != c,
    decreases s.len(),
{
    if s.len() > 0 {
        lemma_first_index_facts(s.drop_first(), c);
        if s[0] != c {
            let r = first_index_of(s.drop_first(), c);
            if r >= 0 {
                assert(s[r + 1] == s.drop_first()[r]);
                assert forall|j: int| 0 <= j < r + 1 implies s[j] != c by {
                    if j > 0 {
                        assert(s[j] == s.drop_first()[j - 1]);
                    }
                }
            } else {
                if s.contains(c) {
                    let k = choose|k: int| 0 <= k < s.len() && s[k] == c;
                    assert(s.drop_first()[k - 1] == c);
                }
            }
        }
    }
}

/// `s.splitn(2, c)`: the part before the first `c` and, if `c` occurs,
/// the part after it.
pub fn split_once(s: &str, c: char) -> (r: (String, Option<String>))
    ensures
        r.0@ == before_first(s@, c),
        opt_view(r.1) == after_first(s@, c),
{
    let v = chars_of(s);
    let n = v.len();
    let mut i: usize = 0;
    while i < n
        invariant
            i <= n,
            n == v@.len(),
            v@ == s@,
            forall|j: int| 0 <= j < i ==> v@[j] != c,
        decreases n - i,
    {
        if v[i] == c {
            proof {
                lemma_first_index(v@, c, i as int);
            }
            let a = string_of(&v, 0, i);
            let b = string_of(&v, i + 1, n);
            assert(v@.subrange(0, i as int) =~= v@.take(i as int));
            assert(v@.subrange(i + 1, n as int) =~= v@.skip(i + 1));
            return (a, Some(b));
        }
        i += 1;
    }
    proof {
        lemma_first_index(v@, c, n as int);
    }
    let a = string_of(&v, 0, n);
    assert(v@.subrange(0, n as int) =~= v@);
    (a, None)
}

/// The index of the last `c` in `s`, or -1 when there is none.
pub open spec fn last_index_of(s: Seq<char>, c: char) -> int
    decreases s.len(),
{
    if s.len() == 0 {
        -1
    } else if s.last() == c {
        s.len() - 1
    } else {
        last_index_of(s.drop_last(), c)
    }
}

/// The position of the last `c` in `v`, if any.
pub fn find_last(v: &Vec<char>, c: char) -> (r: Option<usize>)
    ensures
        match r {
            Some(k) => k as int == last_index_of(v@, c) && k < v.len(),
            None => last_index_of(v@, c) == -1,
        },
{
    let mut i = v.len();
    assert(v@.take(i as int) =~= v@);
    while i > 0
        invariant
            i <= v@.len(),
            last_index_of(v@.take(i as int), c) == last_index_of(v@, c),
        decreases i,
    {
        assert(v@.take(i as int).last() == v@[i - 1]);
        if v[i - 1] == c {
            return Some(i - 1);
        }
        assert(v@.take(i as int).drop_last() =~= v@.take(i - 1));
        i -= 1;
    }
    None
}

/// `last_index_of` is -1 or the index of an occurrence.
pub proof fn lemma_last_index(s: Seq<char>, c: char)
    ensures
        -1 <= last_index_of(s, c) < s.len(),
        last_index_of(s, c) == -1 <==> !s.contains(c),
        last_index_of(s, c) >= 0 ==> s[last_index_of(s, c)] == c,
    decreases s.len(),
{
    if s.len() > 0 {
        lemma_last_index(s.drop_last(), c);
        if s.last() != c && s.contains(c) {
            let k = choose|k: int| 0 <= k < s.len() && s[k] == c;
            assert(s.drop_last()[k] == c);
        }
    }
}

/// The last component of a path: what follows its last `/`, or the whole
/// path when it has none.
pub open spec fn base_name(path: Seq<char>) -> Seq<char> {
    path.skip(last_index_of(path, '/') + 1)
}

/// The last component of `path`.
pub fn base_name_of(path: &str) -> (r: String)
    ensures
        r@ == base_name(path@),
{
    let v = chars_of(path);
    proof {
        lemma_last_index(v@, '/');
    }
    let start = match find_last(&v, '/') {
        Some(k) => k + 1,
        None => 0,
    };
    let r = string_of(&v, start, v.len());
    assert(r@ =~= path@.skip(last_index_of(path@, '/') + 1));
    r
}

/// UTF-8 encoding distributes over concatenation.
pub proof fn lemma_encode_concat(a: Seq<char>, b: Seq<char>)
    ensures
        encode_utf8(a + b) == encode_utf8(a) + encode_utf8(b),
    decreases a.len(),
{
    if a.len() > 0 {
        lemma_encode_concat(a.drop_first(), b);
        assert((a + b).drop_first() =~= a.drop_first() + b);
        assert((a + b)[0] == a[0]);
        assert(encode_utf8(a + b) =~= encode_utf8(a) + encode_utf8(b));
    } else {
        assert(a + b =~= b);
        assert(encode_utf8(a) + encode_utf8(b) =~= encode_utf8(b));
    }
}

/// The number of bytes of the UTF-8 encoding of `c`.
pub open spec fn utf8_width(c: char) -> int {
    if (c as u32) < 0x80 {
        1
    } else if (c as u32) < 0x800 {
        2
    } else if (c as u32) < 0x10000 {
        3
    } else {
        4
    }
}

/// Encoding one more character adds its width.
pub proof fn lemma_encode_push(s: Seq<char>, c: char)
    ensures
        encode_utf8(s.push(c)).len() == encode_utf8(s).len() + utf8_width(c),
{
    lemma_encode_concat(s, seq![c]);
    assert(s + seq![c] =~= s.push(c));
    assert(seq![c].drop_first() =~= Seq::<char>::empty());
    assert(encode_utf8(Seq::<char>::empty()).len() == 0);
    assert(seq![c][0] == c);
    assert(encode_utf8(seq![c]).len() == encode_scalar(c as u32).len());
    assert(is_scalar(c as u32)) by {
        char_is_scalar(c);
    }
}

/// Whether `pos` lies before the end of the UTF-8 encoding of `s` (its length
/// in bytes as `str::len` gives it), computed without the length itself.
pub fn before_end(s: &str, pos: usize) -> (r: bool)
    ensures
        r == (pos < encode_utf8(s@).len()),
{
    let v = chars_of(s);
    let n = v.len();
    let mut acc: usize = 0;
    let mut i: usize = 0;
    assert(v@.take(0) =~= Seq::<char>::empty());
    while i < n
        invariant
            i <= n,
            n == v@.len(),
            v@ == s@,
            acc <= pos,
            acc == encode_utf8(v@.take(i as int)).len(),
        decreases n - i,
    {
        let u = v[i] as u32;
        let w: usize = if u < 0x80 {
            1
        } else if u < 0x800 {
            2
        } else if u < 0x10000 {
            3
        } else {
            4
        };
        proof {
            assert(v@.take(i + 1) =~= v@.take(i as int).push(v@[i as int]));
            lemma_encode_push(v@.take(i as int), v@[i as int]);
            lemma_encode_concat(v@.take(i + 1), v@.skip(i + 1));
            assert(v@.take(i + 1) + v@.skip(i + 1) =~= v@);
        }
        if w > pos - acc {
            return true;
        }
        acc = acc + w;
        i += 1;
    }
    assert(v@.take(n as int) =~= v@);
    false
}

/// `s.contains(c)` for a character `c`.
pub fn contains_char(s: &str, c: char) -> (r: bool)
    ensures
        r == s@.contains(c),
{
    let v = chars_of(s);
    let n = v.len();
    let mut i: usize = 0;
    while i < n
        invariant
            i <= n,
            n == v@.len(),
            v@ == s@,
            forall|j: int| 0 <= j < i ==> v@[j] != c,
        decreases n - i,
    {
        if v[i] == c {
            return true;
        }
        i += 1;
    }
    false
}

/// Whether `t` occurs in `v` starting at index `i`.
fn occurs_at(v: &Vec<char>, t: &Vec<char>, i: usize) -> (r: bool)
    requires
        i + t@.len() <= v@.len(),
    ensures
        r == (v@.subrange(i as int, i + t@.len()) == t@),
{
    let m = t.len();
    let mut k: usize = 0;
    while k < m
        invariant
            k <= m,
            m == t@.len(),
            i + m <= v.len(),
            forall|j: int| 0 <= j < k ==> v@[i + j] == t@[j],
        decreases m - k,
    {
        if v[i + k] != t[k] {
            assert(v@.subrange(i as int, i + m)[k as int] != t@[k as int]);
            return false;
        }
        k += 1;
    }
    assert(v@.subrange(i as int, i + m) =~= t@);
    true
}

/// `s.starts_with(p)` for a string `p`.
pub fn starts_with_str(s: &str, p: &str) -> (r: bool)
    ensures
        r == p@.is_prefix_of(s@),
{
    let v = chars_of(s);
    let w = chars_of(p);
    if w.len() > v.len() {
        return false;
    }
    let r = occurs_at(&v, &w, 0);
    r
}

/// The code of `c.to_ascii_lowercase()`.
fn to_ascii_lower(c: char) -> (r: u32)
    ensures
        r == ascii_lower(c),
{
    if 'A' <= c && c <= 'Z' {
        (c as u32) + 32
    } else {
        c as u32
    }
}

/// `a.eq_ignore_ascii_case(b)`.
pub fn eq_ignore_case(a: &str, b: &str) -> (r: bool)
    ensures
        r == eq_ignore_ascii_case(a@, b@),
{
    let v = chars_of(a);
    let w = chars_of(b);
    if v.len() != w.len() {
        return false;
    }
    let n = v.len();
    let mut i: usize = 0;
    while i < n
        invariant
            i <= n,
            n == v@.len(),
            n == w@.len(),
            v@ == a@,
            w@ == b@,
            forall|j: int| 0 <= j < i ==> ascii_lower(v@[j]) == ascii_lower(w@[j]),
        decreases n - i,
    {
        if to_ascii_lower(v[i]) != to_ascii_lower(w[i]) {
            return false;
        }
        i += 1;
    }
    true
}

/// `a == b` for two strings.
pub fn text_eq(a: &str, b: &str) -> (r: bool)
    ensures
        r == (a@ == b@),
{
    let v = chars_of(a);
    let w = chars_of(b);
    if v.len() != w.len() {
        return false;
    }
    let n = v.len();
    let mut i: usize = 0;
    while i < n
        invariant
            i <= n,
            n == v@.len(),
            n == w@.len(),
            v@ == a@,
            w@ == b@,
            forall|j: int| 0 <= j < i ==> v@[j] == w@[j],
        decreases n - i,
    {
        if v[i] != w[i] {
            return false;
        }
        i += 1;
    }
    assert(v@ =~= w@);
    true
}

/// `a` followed by `b`, as a new string.
pub fn concat2(a: &str, b: &str) -> (r: String)
    ensures
        r@ == a@ + b@,
{
    let mut r = a.to_owned();
    r.append(b);
    r
}

/// `a`, `b` and `c` joined, as a new string.
pub fn concat3(a: &str, b: &str, c: &str) -> (r: String)
    ensures
        r@ == a@ + b@ + c@,
{
    let mut r = a.to_owned();
    r.append(b);
    r.append(c);
    r
}

/// `a`, `b`, `c` and `d` joined, as a new string.
pub fn concat4(a: &str, b: &str, c: &str, d: &str) -> (r: String)
    ensures
        r@ == a@ + b@ + c@ + d@,
{
    let mut r = a.to_owned();
    r.append(b);
    r.append(c);
    r.append(d);
    r
}

/// How many times `c` occurs in `s`.
pub open spec fn count_char(s: Seq<char>, c: char) -> nat
    decreases s.len(),
{
    if s.len() == 0 {
        0
    } else {
        count_char(s.drop_last(), c) + if s.last() == c {
            1nat
        } else {
            0nat
        }
    }
}

/// `k` separators give `k + 1` pieces, none of which holds the separator.
pub proof fn lemma_split_on_pieces(s: Seq<char>, sep: char)
    ensures
        split_on(s, sep).len() == count_char(s, sep) + 1,
        forall|i: int| 0 <= i < split_on(s, sep).len() ==> !(#[trigger] split_on(s, sep)[i]).contains(sep),
    decreases s.len(),
{
    if s.len() > 0 {
        lemma_split_on_pieces(s.drop_last(), sep);
        let p = split_on(s.drop_last(), sep);
        if s.last() != sep {
            let q = p.last().push(s.last());
            assert forall|k: int| 0 <= k < q.len() implies q[k] != sep by {
                if k < p.last().len() {
                    assert(q[k] == p[p.len() - 1][k]);
                }
            }
            assert forall|i: int| 0 <= i < split_on(s, sep).len() implies !(#[trigger] split_on(s, sep)[i]).contains(sep) by {
                if i < p.len() - 1 {
                    assert(split_on(s, sep)[i] == p[i]);
                } else {
                    assert(split_on(s, sep)[i] == q);
                }
            }
        } else {
            assert forall|i: int| 0 <= i < split_on(s, sep).len() implies !(#[trigger] split_on(s, sep)[i]).contains(sep) by {
                if i < p.len() {
                    assert(split_on(s, sep)[i] == p[i]);
                }
            }
        }
    }
}

/// `trim_start(s)` is a suffix of `s`.
pub proof fn lemma_trim_start_suffix(s: Seq<char>)
    ensures
        trim_start(s).len() <= s.len(),
        trim_start(s) == s.subrange(s.len() - trim_start(s).len(), s.len() as int),
    decreases s.len(),
{
    if s.len() > 0 && is_ws(s[0]) {
        lemma_trim_start_suffix(s.drop_first());
        assert(trim_start(s) =~= s.subrange(s.len() - trim_start(s).len(), s.len() as int));
    } else {
        assert(s =~= s.subrange(0, s.len() as int));
    }
}

/// `trim_end(s)` is a prefix of `s`.
pub proof fn lemma_trim_end_prefix(s: Seq<char>)
    ensures
        trim_end(s).len() <= s.len(),
        trim_end(s) == s.subrange(0, trim_end(s).len() as int),
    decreases s.len(),
{
    if s.len() > 0 && is_ws(s.last()) {
        lemma_trim_end_prefix(s.drop_last());
        assert(trim_end(s) =~= s.subrange(0, trim_end(s).len() as int));
    } else {
        assert(s =~= s.subrange(0, s.len() as int));
    }
}

/// Every character of `trim(s)` is a character of `s`.
pub proof fn lemma_trim_chars(s: Seq<char>)
    ensures
        forall|k: int| 0 <= k < trim(s).len() ==> s.contains(#[trigger] trim(s)[k]),
{
    let t = trim_start(s);
    lemma_trim_start_suffix(s);
    lemma_trim_end_prefix(t);
    assert forall|k: int| 0 <= k < trim(s).len() implies s.contains(#[trigger] trim(s)[k]) by {
        assert(trim(s)[k] == t[k]);
        assert(t[k] == s[s.len() - t.len() + k]);
    }
}

/// Every word is non-empty, holds no whitespace, and is made of characters of `s`.
pub proof fn lemma_words_chars(s: Seq<char>)
    ensures
        forall|i: int| 0 <= i < words(s).len() ==> (#[trigger] words(s)[i]).len() > 0,
        forall|i: int, k: int|
            0 <= i < words(s).len() && 0 <= k < words(s)[i].len() ==> !is_ws(
                #[trigger] words(s)[i][k],
            ) && s.contains(words(s)[i][k]),
    decreases s.len(),
{
    if s.len() > 0 {
        let t = s.drop_last();
        lemma_words_chars(t);
        let p = words(t);
        let c = s.last();
        assert(s[s.len() - 1] == c);
        assert forall|x: char| t.contains(x) implies s.contains(x) by {
            let k = choose|k: int| 0 <= k < t.len() && t[k] == x;
            assert(s[k] == x);
        }
        if is_ws(c) {
        } else if s.len() == 1 || is_ws(s[s.len() - 2]) {
            let w = words(s);
            assert forall|i: int| 0 <= i < w.len() implies (#[trigger] w[i]).len() > 0 by {
                if i < p.len() {
                    assert(w[i] == p[i]);
                }
            }
            assert forall|i: int, k: int| 0 <= i < w.len() && 0 <= k < w[i].len() implies !is_ws(
                #[trigger] w[i][k],
            ) && s.contains(w[i][k]) by {
                if i < p.len() {
                    assert(w[i] == p[i]);
                    assert(t.contains(p[i][k]));
                } else {
                    assert(w[i] == seq![c]);
                }
            }
        } else {
            lemma_words_nonempty(t);
            let w = words(s);
            let q = p.last().push(c);
            assert forall|i: int| 0 <= i < w.len() implies (#[trigger] w[i]).len() > 0 by {
                if i < p.len() - 1 {
                    assert(w[i] == p[i]);
                } else {
                    assert(w[i] == q);
                }
            }
            assert forall|i: int, k: int| 0 <= i < w.len() && 0 <= k < w[i].len() implies !is_ws(
                #[trigger] w[i][k],
            ) && s.contains(w[i][k]) by {
                if i < p.len() - 1 {
                    assert(w[i] == p[i]);
                    assert(t.contains(p[i][k]));
                } else {
                    assert(w[i] == q);
                    if k < p.last().len() {
                        assert(q[k] == p[p.len() - 1][k]);
                        assert(t.contains(p[p.len() - 1][k]));
                    }
                }
            }
        }
    }
}

/// Splitting at the first `c` loses nothing: when `c` occurs, `s` is the
/// part before it, `c`, and the part after it.
pub proof fn law_split_once_reassembles(s: Seq<char>, c: char)
    ensures
        after_first(s, c) is None ==> before_first(s, c) == s && !s.contains(c),
        after_first(s, c) matches Some(a) ==> s == before_first(s, c).push(c) + a
            && !before_first(s, c).contains(c),
{
    lemma_first_index_facts(s, c);
    let i = first_index_of(s, c);
    if i >= 0 {
        assert(s =~= s.take(i).push(c) + s.skip(i + 1));
        assert forall|j: int| 0 <= j < s.take(i).len() implies s.take(i)[j] != c by {
            assert(s.take(i)[j] == s[j]);
        }
    }
}

} // verus!
