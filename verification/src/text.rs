//! Character-level helpers shared by the parsers and the caches, and the
//! few std string functions the library relies on.
use vstd::prelude::*;

verus! {

/// Unicode case mapping of `str::to_uppercase` (tables of the Unicode
/// standard; not restated here).
pub uninterp spec fn uppercase(s: Seq<char>) -> Seq<char>;

/// Unicode case mapping of `str::to_lowercase`.
pub uninterp spec fn lowercase(s: Seq<char>) -> Seq<char>;

/// Every character of `s` is ASCII.
pub open spec fn is_ascii_text(s: Seq<char>) -> bool {
    forall|i: int| 0 <= i < s.len() ==> (#[trigger] s[i] as u32) < 128
}

/// ASCII upper case of a character: `a`..`z` become `A`..`Z`.
pub open spec fn ascii_upper_char(c: char) -> char {
    if 'a' <= c && c <= 'z' {
        ((c as u32) - 32) as char
    } else {
        c
    }
}

/// ASCII lower case of a character: `A`..`Z` become `a`..`z`.
pub open spec fn ascii_lower_char(c: char) -> char {
    if 'A' <= c && c <= 'Z' {
        ((c as u32) + 32) as char
    } else {
        c
    }
}

pub open spec fn ascii_upper(s: Seq<char>) -> Seq<char> {
    s.map_values(|c: char| ascii_upper_char(c))
}

pub open spec fn ascii_lower(s: Seq<char>) -> Seq<char> {
    s.map_values(|c: char| ascii_lower_char(c))
}

/// Upper case of a text: the ASCII mapping for ASCII text, the Unicode
/// mapping of `str::to_uppercase` otherwise.
pub open spec fn upper_text(s: Seq<char>) -> Seq<char> {
    if is_ascii_text(s) {
        ascii_upper(s)
    } else {
        uppercase(s)
    }
}

/// Lower case of a text: the ASCII mapping for ASCII text, the Unicode
/// mapping of `str::to_lowercase` otherwise.
pub open spec fn lower_text(s: Seq<char>) -> Seq<char> {
    if is_ascii_text(s) {
        ascii_lower(s)
    } else {
        lowercase(s)
    }
}

/// `str::to_uppercase`: the Unicode mapping is named, not restated; on
/// ASCII text it maps `a`..`z` to `A`..`Z` and keeps every other
/// character, as the documentation of `char::to_uppercase` gives.
#[verifier::external_body]
pub(crate) fn to_upper(s: &str) -> (r: String)
    ensures
        r@ == uppercase(s@),
        is_ascii_text(s@) ==> r@ == ascii_upper(s@),
        r@ == upper_text(s@),
{
    s.to_uppercase()
}

/// `str::to_lowercase`: the Unicode mapping is named, not restated; on
/// ASCII text it maps `A`..`Z` to `a`..`z` and keeps every other
/// character.
#[verifier::external_body]
pub(crate) fn to_lower(s: &str) -> (r: String)
    ensures
        r@ == lowercase(s@),
        is_ascii_text(s@) ==> r@ == ascii_lower(s@),
        r@ == lower_text(s@),
{
    s.to_lowercase()
}

/// The Unicode `White_Space` property, which `char::is_whitespace` and
/// therefore `str::trim` use.
pub open spec fn is_white_space(c: char) -> bool {
    let u = c as u32;
    ||| 0x9 <= u <= 0xd
    ||| u == 0x20
    ||| u == 0x85
    ||| u == 0xa0
    ||| u == 0x1680
    ||| 0x2000 <= u <= 0x200a
    ||| u == 0x2028
    ||| u == 0x2029
    ||| u == 0x202f
    ||| u == 0x205f
    ||| u == 0x3000
}

/// Number of white-space characters at the start of `s`.
pub open spec fn leading_white(s: Seq<char>) -> nat
    decreases s.len(),
{
    if s.len() > 0 && is_white_space(s[0]) {
        1 + leading_white(s.drop_first())
    } else {
        0
    }
}

/// Number of white-space characters at the end of `s`.
pub open spec fn trailing_white(s: Seq<char>) -> nat
    decreases s.len(),
{
    if s.len() > 0 && is_white_space(s.last()) {
        1 + trailing_white(s.drop_last())
    } else {
        0
    }
}

pub proof fn lemma_leading_white_bound(s: Seq<char>)
    ensures
        leading_white(s) <= s.len(),
    decreases s.len(),
{
    if s.len() > 0 && is_white_space(s[0]) {
        lemma_leading_white_bound(s.drop_first());
    }
}

pub proof fn lemma_trailing_white_bound(s: Seq<char>)
    ensures
        trailing_white(s) <= s.len(),
    decreases s.len(),
{
    if s.len() > 0 && is_white_space(s.last()) {
        lemma_trailing_white_bound(s.drop_last());
    }
}

/// `s` without its leading and trailing white space.
pub open spec fn trimmed(s: Seq<char>) -> Seq<char> {
    let rest = s.skip(leading_white(s) as int);
    rest.take(rest.len() - trailing_white(rest))
}

/// `str::trim`.
#[verifier::external_body]
pub(crate) fn trim(s: &str) -> (r: &str)
    ensures
        r@ == trimmed(s@),
{
    s.trim()
}

/// Equality of two string slices, character by character.
pub fn text_eq(a: &str, b: &str) -> (r: bool)
    ensures
        r == (a@ == b@),
{
    let x = a.to_owned();
    let y = b.to_owned();
    x == y
}

/// The characters of `s`, in order.
pub fn chars_of(s: &str) -> (r: Vec<char>)
    ensures
        r@ == s@,
{
    let mut out: Vec<char> = Vec::new();
    for c in it: s.chars()
        invariant
            out@ == it.seq().take(it.index() as int),
            it.seq() == s@,
    {
        out.push(c);
    }
    out
}

/// `s` ends with `suffix`.
pub open spec fn ends_with_spec(s: Seq<char>, suffix: Seq<char>) -> bool {
    suffix.len() <= s.len() && s.subrange(s.len() - suffix.len(), s.len() as int) == suffix
}

/// `s` starts with `prefix`.
pub open spec fn starts_with_spec(s: Seq<char>, prefix: Seq<char>) -> bool {
    prefix.len() <= s.len() && s.take(prefix.len() as int) == prefix
}

/// Whether `s` ends with `suffix`.
pub fn ends_with(s: &str, suffix: &str) -> (r: bool)
    ensures
        r == ends_with_spec(s@, suffix@),
{
    let a = chars_of(s);
    let b = chars_of(suffix);
    if b.len() > a.len() {
        return false;
    }
    let off = a.len() - b.len();
    let mut i: usize = 0;
    while i < b.len()
        invariant
            a@ == s@,
            b@ == suffix@,
            off == a@.len() - b@.len(),
            b@.len() <= a@.len(),
            a@.len() <= usize::MAX,
            i <= b@.len(),
            forall|k: int| 0 <= k < i ==> a@[off + k] == b@[k],
        decreases b@.len() - i,
    {
        if a[off + i] != b[i] {
            proof {
                assert(s@.subrange(off as int, s@.len() as int)[i as int] != suffix@[i as int]);
            }
            return false;
        }
        i = i + 1;
    }
    proof {
        assert(s@.subrange(off as int, s@.len() as int) =~= suffix@);
    }
    true
}

/// Whether `s` starts with `prefix`.
pub fn starts_with(s: &str, prefix: &str) -> (r: bool)
    ensures
        r == starts_with_spec(s@, prefix@),
{
    let a = chars_of(s);
    let b = chars_of(prefix);
    if b.len() > a.len() {
        return false;
    }
    let mut i: usize = 0;
    while i < b.len()
        invariant
            a@ == s@,
            b@ == prefix@,
            b@.len() <= a@.len(),
            i <= b@.len(),
            forall|k: int| 0 <= k < i ==> a@[k] == b@[k],
        decreases b@.len() - i,
    {
        if a[i] != b[i] {
            proof {
                assert(s@.take(prefix@.len() as int)[i as int] != prefix@[i as int]);
            }
            return false;
        }
        i = i + 1;
    }
    proof {
        assert(s@.take(prefix@.len() as int) =~= prefix@);
    }
    true
}

/// The characters of `s` from position `from` to position `to`.
pub fn substring(s: &str, from: usize, to: usize) -> (r: String)
    requires
        from <= to <= s@.len(),
    ensures
        r@ == s@.subrange(from as int, to as int),
{
    s.substring_char(from, to).to_owned()
}

/// `a` followed by `b`.
pub fn concat(a: &str, b: &str) -> (r: String)
    ensures
        r@ == a@ + b@,
{
    let mut r = a.to_owned();
    r.append(b);
    r
}

/// Position of the first `c` in `s`, if any.
pub open spec fn first_index_of(s: Seq<char>, c: char) -> Option<int> {
    if exists|i: int| 0 <= i < s.len() && s[i] == c {
        Some(choose|i: int| 0 <= i < s.len() && s[i] == c && forall|j: int| 0 <= j < i ==> s[j] != c)
    } else {
        None
    }
}

/// The part of `s` before its first `c` (all of `s` when it has none),
/// as `str::split(c).next()` gives it.
pub open spec fn before_first(s: Seq<char>, c: char) -> Seq<char> {
    match first_index_of(s, c) {
        Some(i) => s.take(i),
        None => s,
    }
}

/// The part of `s` after its last `c` (all of `s` when it has none), as
/// `str::rsplit(c).next()` gives it.
pub open spec fn after_last(s: Seq<char>, c: char) -> Seq<char> {
    if exists|i: int| 0 <= i < s.len() && s[i] == c {
        let i = choose|i: int| 0 <= i < s.len() && s[i] == c && forall|j: int| i < j < s.len() ==> s[j] != c;
        s.subrange(i + 1, s.len() as int)
    } else {
        s
    }
}

/// See [`before_first`].
pub fn split_first(s: &str, c: char) -> (r: String)
    ensures
        r@ == before_first(s@, c),
{
    let a = chars_of(s);
    let mut i: usize = 0;
    while i < a.len()
        invariant
            a@ == s@,
            i <= a@.len(),
            forall|j: int| 0 <= j < i ==> a@[j] != c,
        decreases a@.len() - i,
    {
        if a[i] == c {
            proof {
                let w = choose|w: int| 0 <= w < s@.len() && s@[w] == c && forall|j: int| 0 <= j < w ==> s@[j] != c;
                assert(w == i) by {
                    if w < i {
                    } else if w > i {
                    }
                }
            }
            return substring(s, 0, i);
        }
        i = i + 1;
    }
    proof {
        assert(!exists|w: int| 0 <= w < s@.len() && s@[w] == c);
    }
    substring(s, 0, a.len())
}

/// See [`after_last`].
pub fn split_last(s: &str, c: char) -> (r: String)
    ensures
        r@ == after_last(s@, c),
{
    let a = chars_of(s);
    let n = a.len();
    let mut i: usize = n;
    while i > 0
        invariant
            a@ == s@,
            n == a@.len(),
            i <= n,
            forall|j: int| i <= j < n ==> a@[j] != c,
        decreases i,
    {
        if a[i - 1] == c {
            proof {
                let w = choose|w: int| 0 <= w < s@.len() && s@[w] == c && forall|j: int| w < j < s@.len() ==> s@[j] != c;
                assert(w == i - 1) by {
                    if w < i - 1 {
                    } else if w > i - 1 {
                    }
                }
            }
            return substring(s, i, n);
        }
        i = i - 1;
    }
    proof {
        assert(!exists|w: int| 0 <= w < s@.len() && s@[w] == c);
        assert(s@.subrange(0, n as int) =~= s@);
    }
    substring(s, 0, n)
}

/// Whether `items` holds a string equal to `s`.
pub fn contains_text(items: &[String], s: &str) -> (r: bool)
    ensures
        r == exists|i: int| 0 <= i < items@.len() && #[trigger] items@[i]@ == s@,
{
    let target = s.to_owned();
    let mut i: usize = 0;
    while i < items.len()
        invariant
            target@ == s@,
            i <= items@.len(),
            forall|j: int| 0 <= j < i ==> #[trigger] items@[j]@ != s@,
        decreases items@.len() - i,
    {
        if items[i] == target {
            return true;
        }
        i = i + 1;
    }
    false
}

} // verus!
