//! Text primitives shared by the rest of the library.
//!
//! Everything here is stated over `Seq<char>`, the view of `str` and
//! `String`. The executable functions hand out slices of their argument, so
//! no text is rebuilt on the way.

use vstd::prelude::*;
use vstd::string::*;

verus! {

/// A set of characters that text is trimmed of or split at.
#[derive(Clone, Copy, Debug)]
pub enum CharClass {
    /// Every character with the Unicode `White_Space` property.
    WhiteSpace,
    /// One given character.
    Only(char),
    /// White space, and one given character.
    WhiteSpaceOr(char),
}

/// The Unicode `White_Space` property.
pub open spec fn is_white_space(c: char) -> bool {
    ||| '\u{9}' <= c <= '\u{d}'
    ||| c == ' '
    ||| c == '\u{85}'
    ||| c == '\u{a0}'
    ||| c == '\u{1680}'
    ||| '\u{2000}' <= c <= '\u{200a}'
    ||| c == '\u{2028}'
    ||| c == '\u{2029}'
    ||| c == '\u{202f}'
    ||| c == '\u{205f}'
    ||| c == '\u{3000}'
}

impl CharClass {
    /// Membership in the class.
    pub open spec fn has(self, c: char) -> bool {
        match self {
            CharClass::WhiteSpace => is_white_space(c),
            CharClass::Only(d) => c == d,
            CharClass::WhiteSpaceOr(d) => c == d || is_white_space(c),
        }
    }

    /// Is `c` a member of the class?
    pub fn contains(self, c: char) -> (r: bool)
        ensures
            r == self.has(c),
    {
        match self {
            CharClass::WhiteSpace => white_space(c),
            CharClass::Only(d) => c == d,
            CharClass::WhiteSpaceOr(d) => c == d || white_space(c),
        }
    }
}

/// Does `c` have the Unicode `White_Space` property?
pub fn white_space(c: char) -> (r: bool)
    ensures
        r == is_white_space(c),
{
    ('\u{9}' <= c && c <= '\u{d}') || c == ' ' || c == '\u{85}' || c == '\u{a0}' || c == '\u{1680}'
        || ('\u{2000}' <= c && c <= '\u{200a}') || c == '\u{2028}' || c == '\u{2029}'
        || c == '\u{202f}' || c == '\u{205f}' || c == '\u{3000}'
}

/// `c` with `A` to `Z` mapped to `a` to `z`.
pub open spec fn lower_char(c: char) -> char {
    if 'A' <= c <= 'Z' {
        ((c as u32) + 32) as char
    } else {
        c
    }
}

/// `s` with every `A` to `Z` mapped to `a` to `z`.
pub open spec fn ascii_lower(s: Seq<char>) -> Seq<char> {
    s.map_values(|c: char| lower_char(c))
}

/// The views of a sequence of strings.
pub open spec fn texts(v: Seq<String>) -> Seq<Seq<char>> {
    v.map_values(|t: String| t@)
}

/// The views of a sequence of string slices.
pub open spec fn slices(v: Seq<&str>) -> Seq<Seq<char>> {
    v.map_values(|t: &str| t@)
}

/// The view of an optional string.
pub open spec fn opt_text(v: Option<String>) -> Option<Seq<char>> {
    match v {
        Some(t) => Some(t@),
        None => None,
    }
}

/// The view of an optional string slice.
pub open spec fn opt_slice(v: Option<&str>) -> Option<Seq<char>> {
    match v {
        Some(t) => Some(t@),
        None => None,
    }
}

/// `s` without the members of `k` that it starts with.
pub open spec fn trim_start(s: Seq<char>, k: CharClass) -> Seq<char>
    decreases s.len(),
{
    if s.len() > 0 && k.has(s[0]) {
        trim_start(s.drop_first(), k)
    } else {
        s
    }
}

/// `s` without the members of `k` that it ends with.
pub open spec fn trim_end(s: Seq<char>, k: CharClass) -> Seq<char>
    decreases s.len(),
{
    if s.len() > 0 && k.has(s.last()) {
        trim_end(s.drop_last(), k)
    } else {
        s
    }
}

/// `s` without the members of `k` at either end.
pub open spec fn trim(s: Seq<char>, k: CharClass) -> Seq<char> {
    trim_end(trim_start(s, k), k)
}

/// The position of the first member of `k` in `s`; `s.len()` if there is none.
pub open spec fn first_of(s: Seq<char>, k: CharClass) -> int
    decreases s.len(),
{
    if s.len() == 0 || k.has(s[0]) {
        0
    } else {
        1 + first_of(s.drop_first(), k)
    }
}

/// The pieces of `s` between the members of `k`, empty ones included.
pub open spec fn split(s: Seq<char>, k: CharClass) -> Seq<Seq<char>>
    decreases s.len(),
{
    let i = first_of(s, k);
    if 0 <= i < s.len() {
        seq![s.take(i)] + split(s.skip(i + 1), k)
    } else {
        seq![s]
    }
}

/// The pieces of `s` between the members of `k`, empty ones left out.
pub open spec fn fields(s: Seq<char>, k: CharClass) -> Seq<Seq<char>> {
    non_empty(split(s, k))
}

/// The members of `v` that hold at least one character, in order.
pub open spec fn non_empty(v: Seq<Seq<char>>) -> Seq<Seq<char>>
    decreases v.len(),
{
    if v.len() == 0 {
        seq![]
    } else if v[0].len() > 0 {
        seq![v[0]] + non_empty(v.drop_first())
    } else {
        non_empty(v.drop_first())
    }
}

/// What stands before and after the first `c` of `s`.
pub open spec fn split_once(s: Seq<char>, c: char) -> Option<(Seq<char>, Seq<char>)> {
    let i = first_of(s, CharClass::Only(c));
    if i < s.len() {
        Some((s.take(i), s.skip(i + 1)))
    } else {
        None
    }
}

/// `s` without `prefix` in front, or `s` itself if it does not start so.
pub open spec fn strip(s: Seq<char>, prefix: Seq<char>) -> Seq<char> {
    if prefix.is_prefix_of(s) {
        s.skip(prefix.len() as int)
    } else {
        s
    }
}

/// `first_of` is the only position with members of `k` nowhere before it and
/// one at it, if it lies inside the text.
pub proof fn lemma_first_of(s: Seq<char>, k: CharClass, i: int)
    requires
        0 <= i <= s.len(),
        forall|j: int| 0 <= j < i ==> !k.has(#[trigger] s[j]),
        i < s.len() ==> k.has(s[i]),
    ensures
        first_of(s, k) == i,
    decreases s.len(),
{
    if s.len() > 0 && i > 0 {
        assert(!k.has(s[0]));
        let t = s.drop_first();
        assert forall|j: int| 0 <= j < i - 1 implies !k.has(#[trigger] t[j]) by {
            assert(t[j] == s[j + 1]);
        }
        if i < s.len() {
            assert(t[i - 1] == s[i]);
        }
        lemma_first_of(t, k, i - 1);
    }
}

/// No member of `k` stands before `first_of`, and one stands at it.
pub proof fn lemma_first_of_bounds(s: Seq<char>, k: CharClass)
    ensures
        0 <= first_of(s, k) <= s.len(),
        forall|j: int| 0 <= j < first_of(s, k) ==> !k.has(#[trigger] s[j]),
        first_of(s, k) < s.len() ==> k.has(s[first_of(s, k)]),
    decreases s.len(),
{
    if s.len() > 0 && !k.has(s[0]) {
        let t = s.drop_first();
        lemma_first_of_bounds(t, k);
        assert forall|j: int| 0 <= j < first_of(s, k) implies !k.has(#[trigger] s[j]) by {
            if j > 0 {
                assert(s[j] == t[j - 1]);
            }
        }
        if first_of(s, k) < s.len() {
            assert(s[first_of(s, k)] == t[first_of(t, k)]);
        }
    }
}

/// Splitting two texts joined by a member of `k` splits each of them.
pub proof fn lemma_split_joined(a: Seq<char>, c: char, b: Seq<char>, k: CharClass)
    requires
        k.has(c),
    ensures
        split(a.push(c) + b, k) == split(a, k) + split(b, k),
    decreases a.len(),
{
    let s = a.push(c) + b;
    let i = first_of(a, k);
    lemma_first_of_bounds(a, k);
    assert forall|j: int| 0 <= j < i implies !k.has(#[trigger] s[j]) by {
        assert(s[j] == a[j]);
    }
    if i < a.len() {
        assert(s[i] == a[i]);
        lemma_first_of(s, k, i);
        lemma_split_joined(a.skip(i + 1), c, b, k);
        assert(s.skip(i + 1) =~= a.skip(i + 1).push(c) + b);
        assert(s.take(i) =~= a.take(i));
        assert(split(s, k) =~= split(a, k) + split(b, k));
    } else {
        assert(s[i] == c);
        lemma_first_of(s, k, i);
        assert(s.take(i) =~= a);
        assert(s.skip(i + 1) =~= b);
        assert(split(s, k) =~= split(a, k) + split(b, k));
    }
}

/// Leaving empty pieces out works piece by piece.
pub proof fn lemma_non_empty_concat(a: Seq<Seq<char>>, b: Seq<Seq<char>>)
    ensures
        non_empty(a + b) == non_empty(a) + non_empty(b),
    decreases a.len(),
{
    if a.len() == 0 {
        assert(a + b =~= b);
        assert(non_empty(a + b) =~= non_empty(a) + non_empty(b));
    } else {
        assert((a + b).drop_first() =~= a.drop_first() + b);
        lemma_non_empty_concat(a.drop_first(), b);
        assert(non_empty(a + b) =~= non_empty(a) + non_empty(b));
    }
}

proof fn lemma_trim_start_at(s: Seq<char>, k: CharClass, i: int)
    requires
        0 <= i <= s.len(),
        forall|j: int| 0 <= j < i ==> k.has(#[trigger] s[j]),
        i < s.len() ==> !k.has(s[i]),
    ensures
        trim_start(s, k) == s.skip(i),
    decreases i,
{
    if i == 0 {
        assert(s.skip(0) =~= s);
    } else {
        assert(k.has(s[0]));
        let t = s.drop_first();
        assert forall|j: int| 0 <= j < i - 1 implies k.has(#[trigger] t[j]) by {
            assert(t[j] == s[j + 1]);
        }
        lemma_trim_start_at(t, k, i - 1);
        assert(t.skip(i - 1) =~= s.skip(i));
    }
}

proof fn lemma_trim_end_at(s: Seq<char>, k: CharClass, i: int)
    requires
        0 <= i <= s.len(),
        forall|j: int| i <= j < s.len() ==> k.has(#[trigger] s[j]),
        i > 0 ==> !k.has(s[i - 1]),
    ensures
        trim_end(s, k) == s.take(i),
    decreases s.len() - i,
{
    if i == s.len() {
        assert(s.take(i) =~= s);
    } else {
        assert(k.has(s.last()));
        let t = s.drop_last();
        assert forall|j: int| i <= j < t.len() implies k.has(#[trigger] t[j]) by {
            assert(t[j] == s[j]);
        }
        lemma_trim_end_at(t, k, i);
        assert(t.take(i) =~= s.take(i));
    }
}

/// Members of `k` around a text that neither starts nor ends with one are
/// what trimming takes away.
pub proof fn lemma_trim_around(
    before: Seq<char>,
    s: Seq<char>,
    after: Seq<char>,
    k: CharClass,
)
    requires
        s.len() > 0,
        !k.has(s[0]),
        !k.has(s.last()),
        forall|i: int| 0 <= i < before.len() ==> k.has(#[trigger] before[i]),
        forall|i: int| 0 <= i < after.len() ==> k.has(#[trigger] after[i]),
    ensures
        trim(before + s + after, k) == s,
{
    let all = before + s + after;
    assert forall|j: int| 0 <= j < before.len() implies k.has(#[trigger] all[j]) by {
        assert(all[j] == before[j]);
    }
    assert(all[before.len() as int] == s[0]);
    lemma_trim_start_at(all, k, before.len() as int);
    let rest = all.skip(before.len() as int);
    assert(rest =~= s + after);
    assert forall|j: int| s.len() <= j < rest.len() implies k.has(#[trigger] rest[j]) by {
        assert(rest[j] == after[j - s.len()]);
    }
    assert(rest[s.len() - 1] == s.last());
    lemma_trim_end_at(rest, k, s.len() as int);
    assert(rest.take(s.len() as int) =~= s);
}

/// The characters of `s`.
pub fn to_chars(s: &str) -> (v: Vec<char>)
    ensures
        v@ == s@,
{
    let mut v: Vec<char> = Vec::new();
    for c in it: s.chars()
        invariant
            it.seq() == s@,
            v@ == s@.take(it.index()),
    {
        v.push(c);
        assert(s@.take(it.index() + 1) == s@.take(it.index()).push(c));
    }
    assert(s@.take(s@.len() as int) == s@);
    v
}

/// Do `a` and `b` hold the same characters?
pub fn same_text(a: &str, b: &str) -> (r: bool)
    ensures
        r == (a@ == b@),
{
    let x: Vec<char> = to_chars(a);
    let y: Vec<char> = to_chars(b);
    if x.len() != y.len() {
        return false;
    }
    let mut i: usize = 0;
    while i < x.len()
        invariant
            x@ == a@,
            y@ == b@,
            i <= x.len(),
            x.len() == y.len(),
            forall|j: int| 0 <= j < i ==> x@[j] == y@[j],
        decreases x.len() - i,
    {
        if x[i] != y[i] {
            return false;
        }
        i += 1;
    }
    assert(x@ =~= y@);
    true
}

/// `c` with `A` to `Z` mapped to `a` to `z`.
pub fn lower(c: char) -> (r: char)
    ensures
        r == lower_char(c),
{
    if 'A' <= c && c <= 'Z' {
        ((c as u8) + 32u8) as char
    } else {
        c
    }
}

/// Does `a`, with `A` to `Z` mapped to `a` to `z`, read `b`?
pub fn lower_text_is(a: &str, b: &str) -> (r: bool)
    ensures
        r == (ascii_lower(a@) == b@),
{
    let x: Vec<char> = to_chars(a);
    let y: Vec<char> = to_chars(b);
    if x.len() != y.len() {
        assert(ascii_lower(a@).len() == a@.len());
        return false;
    }
    let mut i: usize = 0;
    while i < x.len()
        invariant
            x@ == a@,
            y@ == b@,
            i <= x.len(),
            x.len() == y.len(),
            forall|j: int| 0 <= j < i ==> lower_char(x@[j]) == y@[j],
        decreases x.len() - i,
    {
        if lower(x[i]) != y[i] {
            assert(ascii_lower(a@)[i as int] == lower_char(x@[i as int]));
            return false;
        }
        i += 1;
    }
    assert(ascii_lower(a@) =~= y@);
    true
}

/// `s` without the members of `k` that it starts with.
pub fn trimmed_start<'a>(s: &'a str, k: CharClass) -> (r: &'a str)
    ensures
        r@ == trim_start(s@, k),
{
    let v: Vec<char> = to_chars(s);
    let mut i: usize = 0;
    while i < v.len() && k.contains(v[i])
        invariant
            v@ == s@,
            i <= v.len(),
            forall|j: int| 0 <= j < i ==> k.has(#[trigger] v@[j]),
        decreases v.len() - i,
    {
        i += 1;
    }
    proof {
        lemma_trim_start_at(s@, k, i as int);
    }
    assert(s@.subrange(i as int, v@.len() as int) =~= s@.skip(i as int));
    s.substring_char(i, v.len())
}

/// `s` without the members of `k` that it ends with.
pub fn trimmed_end<'a>(s: &'a str, k: CharClass) -> (r: &'a str)
    ensures
        r@ == trim_end(s@, k),
{
    let v: Vec<char> = to_chars(s);
    let mut i: usize = v.len();
    while i > 0 && k.contains(v[i - 1])
        invariant
            v@ == s@,
            i <= v.len(),
            forall|j: int| i <= j < v.len() ==> k.has(#[trigger] v@[j]),
        decreases i,
    {
        i -= 1;
    }
    proof {
        lemma_trim_end_at(s@, k, i as int);
    }
    assert(s@.subrange(0, i as int) =~= s@.take(i as int));
    s.substring_char(0, i)
}

/// `s` without the members of `k` at either end.
pub fn trimmed<'a>(s: &'a str, k: CharClass) -> (r: &'a str)
    ensures
        r@ == trim(s@, k),
{
    trimmed_end(trimmed_start(s, k), k)
}

/// The pieces of `s` between the members of `k`, empty ones included.
pub fn split_at_each<'a>(s: &'a str, k: CharClass) -> (out: Vec<&'a str>)
    ensures
        slices(out@) == split(s@, k),
{
    let v: Vec<char> = to_chars(s);
    let mut out: Vec<&'a str> = Vec::new();
    let mut start: usize = 0;
    let mut i: usize = 0;
    assert(s@.skip(0) =~= s@);
    assert(slices(out@) + split(s@.skip(0), k) =~= split(s@, k));
    while i < v.len()
        invariant
            v@ == s@,
            start <= i <= v.len(),
            forall|j: int| start <= j < i ==> !k.has(#[trigger] v@[j]),
            slices(out@) + split(s@.skip(start as int), k) == split(s@, k),
        decreases v.len() - i,
    {
        if k.contains(v[i]) {
            let ghost rest = s@.skip(start as int);
            let piece: &'a str = s.substring_char(start, i);
            proof {
                assert forall|j: int| 0 <= j < i - start implies !k.has(#[trigger] rest[j]) by {
                    assert(rest[j] == v@[start + j]);
                }
                assert(rest[i - start] == v@[i as int]);
                lemma_first_of(rest, k, i - start);
                assert(rest.take(i - start) =~= piece@);
                assert(rest.skip(i - start + 1) =~= s@.skip(i + 1));
            }
            let ghost before = slices(out@);
            out.push(piece);
            assert(slices(out@) =~= before + seq![piece@]);
            start = i + 1;
            assert(slices(out@) + split(s@.skip(start as int), k) =~= before + split(rest, k));
        }
        i += 1;
    }
    let ghost rest = s@.skip(start as int);
    let piece: &'a str = s.substring_char(start, v.len());
    proof {
        assert forall|j: int| 0 <= j < rest.len() implies !k.has(#[trigger] rest[j]) by {
            assert(rest[j] == v@[start + j]);
        }
        lemma_first_of(rest, k, rest.len() as int);
        assert(piece@ =~= rest);
    }
    let ghost before = slices(out@);
    out.push(piece);
    assert(slices(out@) =~= before + split(rest, k));
    out
}

/// The pieces of `s` between the members of `k`, empty ones left out.
pub fn fields_of(s: &str, k: CharClass) -> (out: Vec<String>)
    ensures
        texts(out@) == fields(s@, k),
{
    let pieces: Vec<&str> = split_at_each(s, k);
    let mut out: Vec<String> = Vec::new();
    let mut i: usize = 0;
    let ghost all = slices(pieces@);
    assert(all.take(0) =~= seq![]);
    while i < pieces.len()
        invariant
            all == slices(pieces@),
            i <= pieces.len(),
            texts(out@) == non_empty(all.take(i as int)),
        decreases pieces.len() - i,
    {
        let ghost before = texts(out@);
        proof {
            assert(all.take(i + 1) =~= all.take(i as int) + seq![all[i as int]]);
            lemma_non_empty_concat(all.take(i as int), seq![all[i as int]]);
            reveal_with_fuel(non_empty, 2);
        }
        if !pieces[i].is_empty() {
            out.push(pieces[i].to_string());
            assert(texts(out@) =~= before + seq![all[i as int]]);
        } else {
            assert(before + Seq::<Seq<char>>::empty() =~= before);
        }
        i += 1;
    }
    assert(all.take(all.len() as int) =~= all);
    out
}

/// What stands before and after the first `c` of `s`.
pub fn split_at_first<'a>(s: &'a str, c: char) -> (r: Option<(&'a str, &'a str)>)
    ensures
        match r {
            Some(p) => split_once(s@, c) == Some((p.0@, p.1@)),
            None => split_once(s@, c) is None,
        },
{
    let v: Vec<char> = to_chars(s);
    let mut i: usize = 0;
    while i < v.len()
        invariant
            v@ == s@,
            i <= v.len(),
            forall|j: int| 0 <= j < i ==> !CharClass::Only(c).has(#[trigger] v@[j]),
        decreases v.len() - i,
    {
        if v[i] == c {
            proof {
                lemma_first_of(s@, CharClass::Only(c), i as int);
                assert(s@.subrange(0, i as int) =~= s@.take(i as int));
                assert(s@.subrange(i + 1, v@.len() as int) =~= s@.skip(i + 1));
            }
            return Some((s.substring_char(0, i), s.substring_char(i + 1, v.len())));
        }
        i += 1;
    }
    proof {
        lemma_first_of(s@, CharClass::Only(c), i as int);
    }
    None
}

/// Does `s` start with `prefix`?
pub fn starts_with(s: &str, prefix: &str) -> (r: bool)
    ensures
        r == prefix@.is_prefix_of(s@),
{
    let v: Vec<char> = to_chars(s);
    let p: Vec<char> = to_chars(prefix);
    if v.len() < p.len() {
        return false;
    }
    let mut i: usize = 0;
    while i < p.len()
        invariant
            v@ == s@,
            p@ == prefix@,
            i <= p.len() <= v.len(),
            forall|j: int| 0 <= j < i ==> p@[j] == v@[j],
        decreases p.len() - i,
    {
        if p[i] != v[i] {
            assert(s@.subrange(0, prefix@.len() as int)[i as int] == v@[i as int]);
            return false;
        }
        i += 1;
    }
    assert(prefix@ =~= s@.subrange(0, prefix@.len() as int));
    true
}

/// `s` without `prefix` in front, or `s` itself if it does not start so.
pub fn stripped<'a>(s: &'a str, prefix: &str) -> (r: &'a str)
    ensures
        r@ == strip(s@, prefix@),
{
    if starts_with(s, prefix) {
        assert(s@.subrange(prefix@.len() as int, s@.len() as int) =~= s@.skip(
            prefix@.len() as int,
        ));
        s.substring_char(prefix.unicode_len(), s.unicode_len())
    } else {
        s
    }
}

/// A copy of `v`.
pub fn copied(v: &Vec<String>) -> (out: Vec<String>)
    ensures
        texts(out@) == texts(v@),
{
    let mut out: Vec<String> = Vec::new();
    let mut i: usize = 0;
    while i < v.len()
        invariant
            i <= v.len(),
            texts(out@) == texts(v@).take(i as int),
        decreases v.len() - i,
    {
        let ghost before = texts(out@);
        out.push(v[i].clone());
        i += 1;
        assert(texts(out@) =~= before.push(texts(v@)[i - 1]));
        assert(texts(v@).take(i as int) =~= before.push(texts(v@)[i - 1]));
    }
    assert(texts(v@).take(i as int) =~= texts(v@));
    out
}

/// A copy of `v`.
pub fn copied_option(v: &Option<String>) -> (r: Option<String>)
    ensures
        opt_text(r) == opt_text(*v),
{
    match v {
        Some(s) => Some(s.clone()),
        None => None,
    }
}

// ---------------------------------------------------------------------------
// Order
// ---------------------------------------------------------------------------

/// Does `a` stand before `b` in the order of strings: by the first character
/// in which they differ, a proper prefix first?
pub open spec fn before(a: Seq<char>, b: Seq<char>) -> bool
    decreases b.len(),
{
    &&& b.len() > 0
    &&& {
        ||| a.len() == 0
        ||| a[0] < b[0]
        ||| a[0] == b[0] && before(a.drop_first(), b.drop_first())
    }
}

/// No text stands before itself.
pub proof fn lemma_before_irreflexive(a: Seq<char>)
    ensures
        !before(a, a),
    decreases a.len(),
{
    if a.len() > 0 {
        lemma_before_irreflexive(a.drop_first());
    }
}

/// The order of texts is transitive.
pub proof fn lemma_before_transitive(a: Seq<char>, b: Seq<char>, c: Seq<char>)
    requires
        before(a, b),
        before(b, c),
    ensures
        before(a, c),
    decreases c.len(),
{
    if a.len() > 0 && a[0] == b[0] && b[0] == c[0] {
        lemma_before_transitive(a.drop_first(), b.drop_first(), c.drop_first());
    }
}

/// Of two different texts, one stands before the other.
pub proof fn lemma_before_total(a: Seq<char>, b: Seq<char>)
    ensures
        a == b || before(a, b) || before(b, a),
    decreases a.len(),
{
    if a.len() == 0 || b.len() == 0 {
        if a.len() == 0 && b.len() == 0 {
            assert(a =~= b);
        }
    } else if a[0] == b[0] {
        lemma_before_total(a.drop_first(), b.drop_first());
        if a.drop_first() == b.drop_first() {
            assert(a =~= seq![a[0]] + a.drop_first());
            assert(b =~= seq![b[0]] + b.drop_first());
        }
    }
}

/// Does `a` stand before `b` in the order of strings?
pub fn stands_before(a: &str, b: &str) -> (r: bool)
    ensures
        r == before(a@, b@),
{
    let x: Vec<char> = to_chars(a);
    let y: Vec<char> = to_chars(b);
    let mut i: usize = 0;
    assert(a@.skip(0) =~= a@);
    assert(b@.skip(0) =~= b@);
    while i < x.len() && i < y.len()
        invariant
            x@ == a@,
            y@ == b@,
            i <= x.len(),
            i <= y.len(),
            before(a@, b@) == before(a@.skip(i as int), b@.skip(i as int)),
        decreases x.len() - i,
    {
        if x[i] < y[i] {
            return true;
        }
        if x[i] != y[i] {
            return false;
        }
        assert(a@.skip(i as int).drop_first() =~= a@.skip(i + 1));
        assert(b@.skip(i as int).drop_first() =~= b@.skip(i + 1));
        i += 1;
    }
    i < y.len()
}

// ---------------------------------------------------------------------------
// Laws
// ---------------------------------------------------------------------------

/// White space is what Unicode lists under `White_Space`, by code point.
pub proof fn law_white_space(c: char)
    ensures
        is_white_space(c) <==> {
            let n = c as u32;
            ||| 0x9 <= n <= 0xd
            ||| n == 0x20
            ||| n == 0x85
            ||| n == 0xa0
            ||| n == 0x1680
            ||| 0x2000 <= n <= 0x200a
            ||| n == 0x2028
            ||| n == 0x2029
            ||| n == 0x202f
            ||| n == 0x205f
            ||| n == 0x3000
        },
{
}

/// A class of one character holds that one; the mixed class holds white space
/// and one more.
pub proof fn law_char_classes(c: char, d: char)
    ensures
        CharClass::Only(d).has(c) <==> c == d,
        CharClass::WhiteSpace.has(c) <==> is_white_space(c),
        CharClass::WhiteSpaceOr(d).has(c) <==> c == d || is_white_space(c),
{
}

/// Lower-casing keeps the length and every character but the 26 capitals,
/// whose code points go up by 32.
pub proof fn law_lower_case(s: Seq<char>, i: int)
    requires
        0 <= i < s.len(),
    ensures
        ascii_lower(s).len() == s.len(),
        65 <= s[i] as u32 <= 90 ==> ascii_lower(s)[i] as u32 == s[i] as u32 + 32,
        !(65 <= s[i] as u32 <= 90) ==> ascii_lower(s)[i] == s[i],
{
}

/// Views of texts are taken one by one.
pub proof fn law_views_of_texts(v: Seq<String>, w: Seq<&str>, i: int, a: Option<String>, b: Option<&str>)
    ensures
        texts(v).len() == v.len(),
        0 <= i < v.len() ==> texts(v)[i] == v[i]@,
        slices(w).len() == w.len(),
        0 <= i < w.len() ==> slices(w)[i] == w[i]@,
        a is Some <==> opt_text(a) is Some,
        a is Some ==> opt_text(a)->0 == a->0@,
        b is Some <==> opt_slice(b) is Some,
        b is Some ==> opt_slice(b)->0 == b->0@,
{
}

/// Trimming takes away what stands in front of, or behind, a text that does
/// not start, or end, with a member of the class.
pub proof fn law_trimming_one_end(edge: Seq<char>, s: Seq<char>, k: CharClass)
    requires
        forall|i: int| 0 <= i < edge.len() ==> k.has(#[trigger] edge[i]),
    ensures
        s.len() == 0 || !k.has(s[0]) ==> trim_start(edge + s, k) == s,
        s.len() == 0 || !k.has(s.last()) ==> trim_end(s + edge, k) == s,
{
    if s.len() == 0 || !k.has(s[0]) {
        let all = edge + s;
        assert forall|j: int| 0 <= j < edge.len() implies k.has(#[trigger] all[j]) by {
            assert(all[j] == edge[j]);
        }
        lemma_trim_start_at(all, k, edge.len() as int);
        assert(all.skip(edge.len() as int) =~= s);
    }
    if s.len() == 0 || !k.has(s.last()) {
        let all = s + edge;
        assert forall|j: int| s.len() <= j < all.len() implies k.has(#[trigger] all[j]) by {
            assert(all[j] == edge[j - s.len()]);
        }
        lemma_trim_end_at(all, k, s.len() as int);
        assert(all.take(s.len() as int) =~= s);
    }
}

/// Nothing is left of a text that holds members of the class only.
pub proof fn law_trimming_all(s: Seq<char>, k: CharClass)
    requires
        forall|i: int| 0 <= i < s.len() ==> k.has(#[trigger] s[i]),
    ensures
        trim(s, k) == Seq::<char>::empty(),
        trim_start(s, k) == Seq::<char>::empty(),
        trim_end(s, k) == Seq::<char>::empty(),
{
    lemma_trim_start_at(s, k, s.len() as int);
    lemma_trim_end_at(s, k, 0);
    assert(s.skip(s.len() as int) =~= seq![]);
    assert(s.take(0) =~= seq![]);
    let none = Seq::<char>::empty();
    lemma_trim_end_at(none, k, 0);
    assert(none.take(0) =~= none);
}

proof fn lemma_trim_start_keeps(s: Seq<char>, k: CharClass, i: int)
    requires
        0 <= i < s.len(),
        !k.has(s[i]),
    ensures
        trim_start(s, k).contains(s[i]),
    decreases s.len(),
{
    if k.has(s[0]) {
        assert(s.drop_first()[i - 1] == s[i]);
        lemma_trim_start_keeps(s.drop_first(), k, i - 1);
    }
}

proof fn lemma_trim_end_keeps(s: Seq<char>, k: CharClass, i: int)
    requires
        0 <= i < s.len(),
        !k.has(s[i]),
    ensures
        trim_end(s, k).contains(s[i]),
    decreases s.len(),
{
    if k.has(s.last()) {
        assert(s.drop_last()[i] == s[i]);
        lemma_trim_end_keeps(s.drop_last(), k, i);
    }
}

/// Trimming takes away no character that is not a member of the class.
pub proof fn law_trim_keeps(s: Seq<char>, k: CharClass, i: int)
    requires
        0 <= i < s.len(),
        !k.has(s[i]),
    ensures
        trim(s, k).contains(s[i]),
{
    lemma_trim_start_keeps(s, k, i);
    let t = trim_start(s, k);
    let j = choose|j: int| 0 <= j < t.len() && t[j] == s[i];
    lemma_trim_end_keeps(t, k, j);
}

/// A text without a member of the class is one piece. With
/// [`lemma_split_joined`] this says what every text is split to.
pub proof fn law_split_of_one_piece(s: Seq<char>, k: CharClass)
    requires
        forall|i: int| 0 <= i < s.len() ==> !k.has(#[trigger] s[i]),
    ensures
        split(s, k) == seq![s],
{
    lemma_first_of(s, k, s.len() as int);
}

/// No piece holds a member of the class.
pub proof fn law_pieces_hold_no_separator(s: Seq<char>, k: CharClass, i: int, j: int)
    requires
        0 <= i < split(s, k).len(),
        0 <= j < split(s, k)[i].len(),
    ensures
        !k.has(split(s, k)[i][j]),
    decreases s.len(),
{
    lemma_first_of_bounds(s, k);
    let n = first_of(s, k);
    if n < s.len() && i > 0 {
        assert(split(s, k)[i] == split(s.skip(n + 1), k)[i - 1]);
        law_pieces_hold_no_separator(s.skip(n + 1), k, i - 1, j);
    }
}

/// The first occurrence of a character splits a text in two.
pub proof fn law_split_once(a: Seq<char>, c: char, b: Seq<char>)
    requires
        !a.contains(c),
    ensures
        split_once(a.push(c) + b, c) == Some((a, b)),
        split_once(a, c) is None,
{
    let k = CharClass::Only(c);
    let s = a.push(c) + b;
    assert forall|j: int| 0 <= j < a.len() implies !k.has(#[trigger] s[j]) by {
        assert(s[j] == a[j]);
    }
    assert(s[a.len() as int] == c);
    lemma_first_of(s, k, a.len() as int);
    assert(s.take(a.len() as int) =~= a);
    assert(s.skip(a.len() as int + 1) =~= b);
    lemma_first_of(a, k, a.len() as int);
}

/// A prefix is taken away where it stands in front, and nothing else is.
pub proof fn law_strip(prefix: Seq<char>, s: Seq<char>)
    ensures
        strip(prefix + s, prefix) == s,
        !prefix.is_prefix_of(s) ==> strip(s, prefix) == s,
{
    let all = prefix + s;
    assert(all.subrange(0, prefix.len() as int) =~= prefix);
    assert(all.skip(prefix.len() as int) =~= s);
}

/// The order of texts goes by the first character in which they differ, and
/// a proper prefix comes first.
pub proof fn law_order_of_texts(p: Seq<char>, a: char, x: Seq<char>, b: char, y: Seq<char>)
    ensures
        a != b ==> (before(p.push(a) + x, p.push(b) + y) <==> a < b),
        before(p, p.push(a) + x),
        !before(p.push(a) + x, p),
    decreases p.len(),
{
    let s = p.push(a) + x;
    let t = p.push(b) + y;
    if p.len() > 0 {
        let q = p.drop_first();
        law_order_of_texts(q, a, x, b, y);
        assert(s[0] == p[0] && t[0] == p[0]);
        assert(s.drop_first() =~= q.push(a) + x);
        assert(t.drop_first() =~= q.push(b) + y);
    } else {
        assert(s[0] == a && t[0] == b);
    }
}

/// Words with gaps around and between them; there is one gap more than there
/// are words.
pub open spec fn with_gaps(words: Seq<Seq<char>>, gaps: Seq<Seq<char>>) -> Seq<char>
    decreases words.len(),
{
    if words.len() == 0 {
        gaps[0]
    } else {
        gaps[0] + words[0] + with_gaps(words.drop_first(), gaps.drop_first())
    }
}

/// Are these words that hold at least one character and no member of `k`?
pub open spec fn are_words(words: Seq<Seq<char>>, k: CharClass) -> bool {
    forall|i: int| 0 <= i < words.len() ==> is_word(#[trigger] words[i], k)
}

/// Does this text hold at least one character, and no member of `k`?
pub open spec fn is_word(word: Seq<char>, k: CharClass) -> bool {
    word.len() > 0 && forall|j: int| 0 <= j < word.len() ==> !k.has(#[trigger] word[j])
}

/// Are these gaps made of members of `k`, none of them empty but perhaps the
/// first and the last?
pub open spec fn are_gaps(gaps: Seq<Seq<char>>, k: CharClass) -> bool {
    forall|i: int|
        0 <= i < gaps.len() ==> is_gap(#[trigger] gaps[i], k) && (0 < i < gaps.len() - 1
            ==> gaps[i].len() > 0)
}

/// Does this text hold members of `k` only?
pub open spec fn is_gap(gap: Seq<char>, k: CharClass) -> bool {
    forall|j: int| 0 <= j < gap.len() ==> k.has(#[trigger] gap[j])
}

proof fn lemma_fields_behind_gap(gap: Seq<char>, s: Seq<char>, k: CharClass)
    requires
        is_gap(gap, k),
    ensures
        fields(gap + s, k) == fields(s, k),
    decreases gap.len(),
{
    if gap.len() == 0 {
        assert(gap + s =~= s);
    } else {
        let rest = gap.drop_first();
        assert(is_gap(rest, k)) by {
            assert forall|j: int| 0 <= j < rest.len() implies k.has(#[trigger] rest[j]) by {
                assert(rest[j] == gap[j + 1]);
            }
        }
        lemma_fields_behind_gap(rest, s, k);
        let none = Seq::<char>::empty();
        assert(k.has(gap[0]));
        assert(gap + s =~= none.push(gap[0]) + (rest + s));
        lemma_split_joined(none, gap[0], rest + s, k);
        law_split_of_one_piece(none, k);
        lemma_non_empty_concat(seq![none], split(rest + s, k));
        reveal_with_fuel(non_empty, 2);
        assert(non_empty(seq![none]) =~= seq![]);
        assert(fields(gap + s, k) =~= fields(rest + s, k));
    }
}

/// The fields of words with gaps around and between them are those words, in
/// their order, whatever the gaps are.
pub proof fn law_fields_are_the_words(words: Seq<Seq<char>>, gaps: Seq<Seq<char>>, k: CharClass)
    requires
        gaps.len() == words.len() + 1,
        are_words(words, k),
        are_gaps(gaps, k),
    ensures
        fields(with_gaps(words, gaps), k) == words,
    decreases words.len(),
{
    let none = Seq::<char>::empty();
    assert(is_gap(gaps[0], k));
    law_split_of_one_piece(none, k);
    reveal_with_fuel(non_empty, 2);
    assert(non_empty(seq![none]) =~= seq![]);
    if words.len() == 0 {
        lemma_fields_behind_gap(gaps[0], none, k);
        assert(gaps[0] + none =~= gaps[0]);
        assert(fields(with_gaps(words, gaps), k) =~= words);
    } else {
        let word = words[0];
        let rest = with_gaps(words.drop_first(), gaps.drop_first());
        assert(is_word(word, k));
        lemma_fields_behind_gap(gaps[0], word + rest, k);
        assert(gaps[0] + word + rest =~= gaps[0] + (word + rest));
        law_split_of_one_piece(word, k);
        let w = words.drop_first();
        let g = gaps.drop_first();
        assert(are_words(w, k)) by {
            assert forall|i: int| 0 <= i < w.len() implies is_word(#[trigger] w[i], k) by {
                assert(w[i] == words[i + 1]);
            }
        }
        assert(are_gaps(g, k)) by {
            assert forall|i: int| 0 <= i < g.len() implies is_gap(#[trigger] g[i], k) && (0 < i
                < g.len() - 1 ==> g[i].len() > 0) by {
                assert(g[i] == gaps[i + 1]);
            }
        }
        law_fields_are_the_words(w, g, k);
        assert(seq![word] + w =~= words);
        assert(is_gap(gaps[1], k));
        assert(g[0] == gaps[1]);
        if rest.len() == 0 {
            assert(word + rest =~= word);
            if w.len() > 0 {
                assert(g[0] + w[0] + with_gaps(w.drop_first(), g.drop_first()) == rest);
                assert(is_word(w[0], k));
            }
            assert(non_empty(seq![word]) =~= seq![word]);
        } else {
            if w.len() > 0 {
                assert(gaps[1].len() > 0);
            }
            assert(g[0].len() > 0);
            assert(rest[0] == g[0][0]);
            let c = rest[0];
            let tail = rest.drop_first();
            assert(k.has(c));
            assert(word + rest =~= word.push(c) + tail);
            lemma_split_joined(word, c, tail, k);
            lemma_non_empty_concat(seq![word], split(tail, k));
            assert(non_empty(seq![word]) =~= seq![word]);
            assert(is_gap(seq![c], k));
            lemma_fields_behind_gap(seq![c], tail, k);
            assert(seq![c] + tail =~= rest);
            assert(fields(word + rest, k) =~= seq![word] + fields(rest, k));
        }
    }
}

/// Is this white space only?
pub open spec fn is_blank(s: Seq<char>) -> bool {
    forall|i: int| 0 <= i < s.len() ==> is_white_space(#[trigger] s[i])
}

/// Is this text without white space at either end?
pub open spec fn is_trimmed(s: Seq<char>) -> bool {
    s.len() > 0 ==> !is_white_space(s[0]) && !is_white_space(s.last())
}

/// White space around a trimmed text is what trimming takes away, also where
/// the text is empty.
pub proof fn lemma_trim_blank(a: Seq<char>, s: Seq<char>, b: Seq<char>)
    requires
        is_blank(a),
        is_blank(b),
        is_trimmed(s),
    ensures
        trim(a + s + b, CharClass::WhiteSpace) == s,
{
    let k = CharClass::WhiteSpace;
    if s.len() > 0 {
        lemma_trim_around(a, s, b, k);
    } else {
        let all = a + s + b;
        assert forall|i: int| 0 <= i < all.len() implies k.has(#[trigger] all[i]) by {
            if i < a.len() {
                assert(all[i] == a[i]);
            } else {
                assert(all[i] == b[i - a.len()]);
            }
        }
        law_trimming_all(all, k);
        assert(s =~= Seq::<char>::empty());
    }
}

} // verus!
