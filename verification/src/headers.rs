//! HTTP header parsing and `${ENV}` interpolation.
//!
//! Headers are given on the command line as `Name: value`. Values may hold
//! `${VAR}` placeholders that are filled in from the environment, so that a
//! secret need not stand among the arguments. The environment itself is
//! handed in: [`environment_names`] says which variables to look up, and
//! [`parse`] takes what was found.

use http::{HeaderName, HeaderValue};
use vstd::prelude::*;
use vstd::string::*;
use vstd::utf8::*;

use crate::text;
use crate::text::{same_text, split_at_first, stands_before, to_chars, trimmed, CharClass};

verus! {

// ---------------------------------------------------------------------------
// Names and values on the wire
// ---------------------------------------------------------------------------

/// May `c` stand in a header name?
pub open spec fn is_name_char(c: char) -> bool {
    ||| 'a' <= c <= 'z'
    ||| 'A' <= c <= 'Z'
    ||| '0' <= c <= '9'
    ||| c == '!' || c == '#' || c == '$' || c == '%' || c == '&' || c == '\'' || c == '*'
    ||| c == '+' || c == '-' || c == '.' || c == '^' || c == '_' || c == '`' || c == '|'
    ||| c == '~'
}

/// The most characters that a header name may have.
pub const MAX_NAME_LEN: usize = 65535;

/// Is `s` a header name?
pub open spec fn is_header_name(s: Seq<char>) -> bool {
    &&& 0 < s.len() <= MAX_NAME_LEN
    &&& forall|i: int| 0 <= i < s.len() ==> is_name_char(#[trigger] s[i])
}

/// May `b` stand in a header value?
pub open spec fn is_value_byte(b: u8) -> bool {
    b == 9 || (b >= 32 && b != 127)
}

/// Do the bytes `s` form a header value?
pub open spec fn is_header_value(s: Seq<u8>) -> bool {
    forall|i: int| 0 <= i < s.len() ==> is_value_byte(#[trigger] s[i])
}

/// Is this a header as it is kept: a name in lower case, and a value?
pub open spec fn is_header(entry: (Seq<char>, Seq<u8>)) -> bool {
    &&& is_header_name(entry.0)
    &&& text::ascii_lower(entry.0) == entry.0
    &&& is_header_value(entry.1)
}

/// The lower-case form of a name is a name in lower case.
proof fn lemma_lower_name(name: Seq<char>)
    requires
        is_header_name(name),
    ensures
        is_header_name(text::ascii_lower(name)),
        text::ascii_lower(text::ascii_lower(name)) == text::ascii_lower(name),
{
    let lower = text::ascii_lower(name);
    assert forall|i: int| 0 <= i < lower.len() implies is_name_char(#[trigger] lower[i]) by {
        assert(is_name_char(name[i]));
    }
    assert(text::ascii_lower(lower) =~= lower);
}

/// `http::HeaderName::try_from` on a string. Claims which strings are names,
/// that a name is kept in lower case, and what the error says.
#[verifier::external_body]
fn header_name(name: &str) -> (r: Result<String, String>)
    ensures
        match r {
            Ok(n) => is_header_name(name@) && n@ == text::ascii_lower(name@),
            Err(e) => !is_header_name(name@) && e@ == "invalid HTTP header name"@,
        },
{
    HeaderName::try_from(name).map(|n| n.as_str().to_string()).map_err(|e| e.to_string())
}

/// `http::HeaderValue::try_from` on a string. Claims which strings are
/// values, that a value is the bytes of the string, and what the error says.
#[verifier::external_body]
fn header_value(value: &str) -> (r: Result<Vec<u8>, String>)
    ensures
        match r {
            Ok(v) => is_header_value(encode_utf8(value@)) && v@ == encode_utf8(value@),
            Err(e) => !is_header_value(encode_utf8(value@)) && e@
                == "failed to parse header value"@,
        },
{
    HeaderValue::try_from(value).map(|v| v.as_bytes().to_vec()).map_err(|e| e.to_string())
}

// ---------------------------------------------------------------------------
// The header map
// ---------------------------------------------------------------------------

/// Are the names of `s` in ascending order, none of them twice?
pub open spec fn is_sorted(s: Seq<(Seq<char>, Seq<u8>)>) -> bool {
    forall|i: int, j: int| 0 <= i < j < s.len() ==> text::before(#[trigger] s[i].0, #[trigger] s[j].0)
}

/// The position of `name` among the entries `s`.
pub open spec fn position(s: Seq<(Seq<char>, Seq<u8>)>, name: Seq<char>) -> int {
    choose|i: int| 0 <= i < s.len() && (#[trigger] s[i]).0 == name
}

/// Is there an entry for `name` among `s`?
pub open spec fn has_name(s: Seq<(Seq<char>, Seq<u8>)>, name: Seq<char>) -> bool {
    exists|i: int| 0 <= i < s.len() && (#[trigger] s[i]).0 == name
}

/// The entries `s` as a map from name to value.
pub open spec fn map_of(s: Seq<(Seq<char>, Seq<u8>)>) -> Map<Seq<char>, Seq<u8>> {
    Map::new(|n: Seq<char>| has_name(s, n), |n: Seq<char>| s[position(s, n)].1)
}

/// One header: a name in lower case, and the bytes of its value.
#[derive(Debug, Clone, PartialEq, Eq)]
pub struct Header {
    pub name: String,
    pub value: Vec<u8>,
}

/// A set of headers, at most one for each name, kept in the order of names.
#[derive(Debug, PartialEq, Eq)]
pub struct Headers {
    entries: Vec<Header>,
}

impl View for Headers {
    type V = Seq<(Seq<char>, Seq<u8>)>;

    closed spec fn view(&self) -> Seq<(Seq<char>, Seq<u8>)> {
        self.entries@.map_values(|h: Header| (h.name@, h.value@))
    }
}

/// In ascending order the map has the value of each entry under its name.
pub proof fn lemma_map_of_entry(s: Seq<(Seq<char>, Seq<u8>)>, i: int)
    requires
        is_sorted(s),
        0 <= i < s.len(),
    ensures
        position(s, s[i].0) == i,
        map_of(s).contains_pair(s[i].0, s[i].1),
{
    let n = s[i].0;
    assert(has_name(s, n));
    let j = position(s, n);
    assert(0 <= j < s.len() && s[j].0 == n);
    text::lemma_before_irreflexive(n);
    if i < j {
        assert(text::before(s[i].0, s[j].0));
    } else if j < i {
        assert(text::before(s[j].0, s[i].0));
    }
}

/// The entries of `m` in ascending order of their names.
pub open spec fn sorted_entries(m: Map<Seq<char>, Seq<u8>>) -> Seq<(Seq<char>, Seq<u8>)> {
    choose|s: Seq<(Seq<char>, Seq<u8>)>| #[trigger] is_sorted(s) && map_of(s) == m
}

/// There is only one way to write a map in ascending order of its names.
pub proof fn lemma_sorted_is_canonical(
    a: Seq<(Seq<char>, Seq<u8>)>,
    b: Seq<(Seq<char>, Seq<u8>)>,
)
    requires
        is_sorted(a),
        is_sorted(b),
        map_of(a) == map_of(b),
    ensures
        a == b,
    decreases a.len(),
{
    if a.len() == 0 {
        if b.len() > 0 {
            lemma_map_of_entry(b, 0);
            assert(map_of(a).contains_key(b[0].0));
        }
        assert(a =~= b);
    } else {
        lemma_map_of_entry(a, 0);
        assert(map_of(b).contains_key(a[0].0));
        let j = position(b, a[0].0);
        assert(0 <= j < b.len() && b[j].0 == a[0].0);
        lemma_map_of_entry(b, 0);
        assert(map_of(a).contains_key(b[0].0));
        let k = position(a, b[0].0);
        assert(0 <= k < a.len() && a[k].0 == b[0].0);
        if j > 0 {
            assert(text::before(b[0].0, b[j].0));
            if k > 0 {
                assert(text::before(a[0].0, a[k].0));
                text::lemma_before_transitive(a[0].0, b[0].0, a[0].0);
            }
            text::lemma_before_irreflexive(a[0].0);
        }
        assert(a[0] == b[0]);
        let a1 = a.drop_first();
        let b1 = b.drop_first();
        lemma_map_without_first(a);
        lemma_map_without_first(b);
        lemma_sorted_is_canonical(a1, b1);
        assert(a =~= seq![a[0]] + a1);
        assert(b =~= seq![b[0]] + b1);
    }
}

proof fn lemma_map_without_first(s: Seq<(Seq<char>, Seq<u8>)>)
    requires
        is_sorted(s),
        s.len() > 0,
    ensures
        is_sorted(s.drop_first()),
        map_of(s.drop_first()) == map_of(s).remove(s[0].0),
{
    let t = s.drop_first();
    assert forall|i: int, j: int| 0 <= i < j < t.len() implies text::before(
        #[trigger] t[i].0,
        #[trigger] t[j].0,
    ) by {
        assert(text::before(s[i + 1].0, s[j + 1].0));
    }
    assert forall|n: Seq<char>|
        has_name(t, n) <==> has_name(s, n) && n != s[0].0 by {
        if has_name(t, n) {
            let i = position(t, n);
            assert(s[i + 1].0 == n);
            assert(text::before(s[0].0, s[i + 1].0));
            text::lemma_before_irreflexive(n);
        }
        if has_name(s, n) && n != s[0].0 {
            let i = position(s, n);
            assert(t[i - 1].0 == n);
        }
    }
    assert forall|n: Seq<char>| has_name(t, n) implies t[position(t, n)].1 == s[position(s, n)].1 by {
        let i = position(t, n);
        assert(s[i + 1].0 == n);
        lemma_map_of_entry(s, i + 1);
    }
    assert(map_of(t) =~= map_of(s).remove(s[0].0));
}

/// Sorted entries are the sorted entries of their map.
pub proof fn lemma_sorted_entries(s: Seq<(Seq<char>, Seq<u8>)>)
    requires
        is_sorted(s),
    ensures
        sorted_entries(map_of(s)) == s,
{
    let t = sorted_entries(map_of(s));
    assert(is_sorted(t) && map_of(t) == map_of(s));
    lemma_sorted_is_canonical(t, s);
}

proof fn lemma_replaced(s: Seq<(Seq<char>, Seq<u8>)>, i: int, v: Seq<u8>)
    requires
        is_sorted(s),
        0 <= i < s.len(),
    ensures
        is_sorted(s.update(i, (s[i].0, v))),
        map_of(s.update(i, (s[i].0, v))) == map_of(s).insert(s[i].0, v),
{
    let t = s.update(i, (s[i].0, v));
    let n = s[i].0;
    assert forall|a: int, b: int| 0 <= a < b < t.len() implies text::before(
        #[trigger] t[a].0,
        #[trigger] t[b].0,
    ) by {
        assert(text::before(s[a].0, s[b].0));
    }
    lemma_map_of_entry(t, i);
    assert forall|m: Seq<char>| has_name(t, m) <==> has_name(s, m) || m == n by {
        if has_name(t, m) {
            assert(s[position(t, m)].0 == m);
        }
        if has_name(s, m) {
            assert(t[position(s, m)].0 == m);
        }
    }
    assert forall|m: Seq<char>| has_name(t, m) && m != n implies t[position(t, m)].1
        == s[position(s, m)].1 by {
        let j = position(t, m);
        assert(s[j].0 == m);
        lemma_map_of_entry(s, j);
    }
    assert(map_of(t) =~= map_of(s).insert(n, v));
}

proof fn lemma_inserted(s: Seq<(Seq<char>, Seq<u8>)>, i: int, n: Seq<char>, v: Seq<u8>)
    requires
        is_sorted(s),
        0 <= i <= s.len(),
        forall|j: int| 0 <= j < i ==> text::before(#[trigger] s[j].0, n),
        i < s.len() ==> text::before(n, s[i].0),
    ensures
        is_sorted(s.insert(i, (n, v))),
        map_of(s.insert(i, (n, v))) == map_of(s).insert(n, v),
{
    let t = s.insert(i, (n, v));
    assert forall|j: int| i <= j < s.len() implies text::before(n, #[trigger] s[j].0) by {
        if j > i {
            assert(text::before(s[i].0, s[j].0));
            text::lemma_before_transitive(n, s[i].0, s[j].0);
        }
    }
    assert forall|a: int, b: int| 0 <= a < b < t.len() implies text::before(
        #[trigger] t[a].0,
        #[trigger] t[b].0,
    ) by {
        if b < i {
            assert(text::before(s[a].0, s[b].0));
        } else if b == i {
            assert(text::before(s[a].0, n));
        } else if a < i {
            assert(text::before(s[a].0, s[b - 1].0));
        } else if a == i {
            assert(text::before(n, s[b - 1].0));
        } else {
            assert(text::before(s[a - 1].0, s[b - 1].0));
        }
    }
    lemma_map_of_entry(t, i);
    assert(t[i] == (n, v));
    assert forall|m: Seq<char>| has_name(t, m) <==> has_name(s, m) || m == n by {
        if has_name(t, m) && m != n {
            let j = position(t, m);
            if j < i {
                assert(s[j].0 == m);
            } else {
                assert(s[j - 1].0 == m);
            }
        }
        if has_name(s, m) {
            let j = position(s, m);
            if j < i {
                assert(t[j].0 == m);
            } else {
                assert(t[j + 1].0 == m);
            }
        }
    }
    assert forall|m: Seq<char>| has_name(t, m) && m != n implies t[position(t, m)].1
        == s[position(s, m)].1 by {
        let j = position(t, m);
        let k = if j < i {
            j
        } else {
            j - 1
        };
        assert(s[k].0 == m);
        lemma_map_of_entry(s, k);
    }
    assert(map_of(t) =~= map_of(s).insert(n, v));
}

impl Headers {
    /// The entries are in ascending order of their names, none of them twice,
    /// and each is a valid header with its name in lower case.
    #[verifier::type_invariant]
    pub open spec fn well_formed(self) -> bool {
        &&& is_sorted(self@)
        &&& forall|i: int| 0 <= i < self@.len() ==> is_header(#[trigger] self@[i])
    }

    /// The headers as a map from name to value.
    pub open spec fn map(self) -> Map<Seq<char>, Seq<u8>> {
        map_of(self@)
    }

    /// No headers.
    pub fn new() -> (r: Headers)
        ensures
            r@ == Seq::<(Seq<char>, Seq<u8>)>::empty(),
            r.map() == Map::<Seq<char>, Seq<u8>>::empty(),
    {
        let r = Headers { entries: Vec::new() };
        assert(r@ =~= seq![]);
        assert(r.map() =~= Map::empty());
        r
    }

    /// The number of headers.
    pub fn len(&self) -> (r: usize)
        ensures
            r == self@.len(),
    {
        self.entries.len()
    }

    /// The header at a position in the order of names.
    pub fn at(&self, i: usize) -> (r: &Header)
        requires
            i < self@.len(),
        ensures
            (r.name@, r.value@) == self@[i as int],
    {
        &self.entries[i]
    }

    /// Puts `value` under `name`, in place of any value there.
    pub fn insert(&mut self, name: String, value: Vec<u8>)
        requires
            is_header((name@, value@)),
        ensures
            final(self).map() == old(self).map().insert(name@, value@),
    {
        proof {
            use_type_invariant(&*self);
        }
        let ghost s = self@;
        let ghost n = name@;
        let ghost v = value@;
        let mut i: usize = 0;
        while i < self.entries.len() && stands_before(
            self.entries[i].name.as_str(),
            name.as_str(),
        )
            invariant
                *self == *old(self),
                s == self@,
                n == name@,
                i <= self.entries.len(),
                forall|j: int| 0 <= j < i ==> text::before(#[trigger] s[j].0, n),
            decreases self.entries.len() - i,
        {
            assert(s[i as int].0 == self.entries@[i as int].name@);
            i += 1;
        }
        assert(i < s.len() ==> s[i as int].0 == self.entries@[i as int].name@);
        let mut entries: Vec<Header> = Vec::new();
        std::mem::swap(&mut entries, &mut self.entries);
        if i < entries.len() && same_text(entries[i].name.as_str(), name.as_str()) {
            entries.set(i, Header { name, value });
            proof {
                lemma_replaced(s, i as int, v);
                let t = s.update(i as int, (n, v));
                assert(entries@.map_values(|h: Header| (h.name@, h.value@)) =~= t);
                assert forall|j: int| 0 <= j < t.len() implies is_header(#[trigger] t[j]) by {
                    if j != i {
                        assert(t[j] == s[j]);
                    }
                }
            }
            self.entries = entries;
        } else {
            entries.insert(i, Header { name, value });
            proof {
                if i < s.len() {
                    text::lemma_before_total(s[i as int].0, n);
                }
                lemma_inserted(s, i as int, n, v);
                let t = s.insert(i as int, (n, v));
                assert(entries@.map_values(|h: Header| (h.name@, h.value@)) =~= t);
                assert forall|j: int| 0 <= j < t.len() implies is_header(#[trigger] t[j]) by {
                    if j < i {
                        assert(t[j] == s[j]);
                    } else if j > i {
                        assert(t[j] == s[j - 1]);
                    }
                }
            }
            self.entries = entries;
        }
    }

    /// The value under `name`.
    pub fn get(&self, name: &str) -> (r: Option<&Vec<u8>>)
        ensures
            match r {
                Some(v) => self.map().contains_pair(name@, v@),
                None => !self.map().contains_key(name@),
            },
    {
        proof {
            use_type_invariant(self);
        }
        let mut i: usize = 0;
        while i < self.entries.len()
            invariant
                is_sorted(self@),
                i <= self.entries.len(),
                forall|j: int| 0 <= j < i ==> (#[trigger] self@[j]).0 != name@,
            decreases self.entries.len() - i,
        {
            if same_text(self.entries[i].name.as_str(), name) {
                assert(self@[i as int].0 == name@);
                proof {
                    lemma_map_of_entry(self@, i as int);
                }
                return Some(&self.entries[i].value);
            }
            i += 1;
        }
        None
    }

    /// Is there a header under `name`?
    pub fn contains(&self, name: &str) -> (r: bool)
        ensures
            r == self.map().contains_key(name@),
    {
        self.get(name).is_some()
    }
}

// ---------------------------------------------------------------------------
// Environment interpolation
// ---------------------------------------------------------------------------

/// The bindings `vars` as a map; of two bindings of a name the later counts.
pub open spec fn env_of(vars: Seq<(String, String)>) -> Map<Seq<char>, Seq<char>>
    decreases vars.len(),
{
    if vars.len() == 0 {
        Map::empty()
    } else {
        env_of(vars.drop_last()).insert(vars.last().0@, vars.last().1@)
    }
}

/// The environment variables that are known to be set, with their values.
#[derive(Debug, Clone)]
pub struct Environment {
    vars: Vec<(String, String)>,
}

impl View for Environment {
    type V = Map<Seq<char>, Seq<char>>;

    closed spec fn view(&self) -> Map<Seq<char>, Seq<char>> {
        env_of(self.vars@)
    }
}

impl Environment {
    /// No variable is set.
    pub fn new() -> (r: Environment)
        ensures
            r@ == Map::<Seq<char>, Seq<char>>::empty(),
    {
        Environment { vars: Vec::new() }
    }

    /// Records that `name` is set to `value`.
    pub fn set(&mut self, name: String, value: String)
        ensures
            final(self)@ == old(self)@.insert(name@, value@),
    {
        let ghost vars = self.vars@;
        self.vars.push((name, value));
        assert(self.vars@.drop_last() =~= vars);
    }

    /// The value of `name`, if it is set.
    pub fn get(&self, name: &str) -> (r: Option<&str>)
        ensures
            match r {
                Some(v) => self@.contains_pair(name@, v@),
                None => !self@.contains_key(name@),
            },
    {
        let mut i: usize = self.vars.len();
        assert(self.vars@.take(i as int) =~= self.vars@);
        while i > 0
            invariant
                i <= self.vars.len(),
                self@ == env_of(self.vars@),
                self@.contains_key(name@) == env_of(self.vars@.take(i as int)).contains_key(name@),
                self@[name@] == env_of(self.vars@.take(i as int))[name@],
            decreases i,
        {
            i -= 1;
            assert(self.vars@.take(i + 1).drop_last() =~= self.vars@.take(i as int));
            if same_text(self.vars[i].0.as_str(), name) {
                return Some(self.vars[i].1.as_str());
            }
        }
        assert(self.vars@.take(0) =~= seq![]);
        None
    }
}

/// The position of the first `${` of `s`; `s.len()` if there is none.
pub open spec fn first_open(s: Seq<char>) -> int
    decreases s.len(),
{
    if s.len() < 2 {
        s.len() as int
    } else if s[0] == '$' && s[1] == '{' {
        0
    } else {
        1 + first_open(s.drop_first())
    }
}

/// The text after the first `${` of `s`.
pub open spec fn after_open(s: Seq<char>) -> Seq<char> {
    s.skip(first_open(s) + 2)
}

/// The position of the first `}` of `s`; `s.len()` if there is none.
pub open spec fn first_close(s: Seq<char>) -> int {
    text::first_of(s, CharClass::Only('}'))
}

/// Does `s` hold a `${` with a `}` somewhere after it?
pub open spec fn has_placeholder(s: Seq<char>) -> bool {
    first_open(s) < s.len() && first_close(after_open(s)) < after_open(s).len()
}

/// The name in the first placeholder of `s`.
pub open spec fn first_name(s: Seq<char>) -> Seq<char> {
    after_open(s).take(first_close(after_open(s)))
}

/// The text after the first placeholder of `s`.
pub open spec fn after_placeholder(s: Seq<char>) -> Seq<char> {
    after_open(s).skip(first_close(after_open(s)) + 1)
}

/// What the variable `name` expands to: its value, or nothing if it is not set.
pub open spec fn lookup(env: Map<Seq<char>, Seq<char>>, name: Seq<char>) -> Seq<char> {
    if env.contains_key(name) {
        env[name]
    } else {
        seq![]
    }
}

/// `s` with every placeholder replaced. What a variable expands to is not
/// searched for placeholders again; a `${` that is never closed stays.
pub open spec fn expand(s: Seq<char>, env: Map<Seq<char>, Seq<char>>) -> Seq<char>
    decreases s.len(),
{
    if has_placeholder(s) && after_placeholder(s).len() < s.len() {
        s.take(first_open(s)) + lookup(env, first_name(s)) + expand(after_placeholder(s), env)
    } else {
        s
    }
}

/// The names in the placeholders of `s`, in order.
pub open spec fn references(s: Seq<char>) -> Seq<Seq<char>>
    decreases s.len(),
{
    if has_placeholder(s) && after_placeholder(s).len() < s.len() {
        seq![first_name(s)] + references(after_placeholder(s))
    } else {
        seq![]
    }
}

proof fn lemma_first_open(s: Seq<char>, i: int)
    requires
        0 <= i <= s.len(),
        forall|j: int| 0 <= j < i && j + 1 < s.len() ==> !(#[trigger] s[j] == '$' && s[j + 1] == '{'),
        i < s.len() ==> i + 1 < s.len() && s[i] == '$' && s[i + 1] == '{',
    ensures
        first_open(s) == i,
    decreases s.len(),
{
    if s.len() >= 2 && i > 0 {
        assert(!(s[0int] == '$' && s[0int + 1] == '{'));
        let t = s.drop_first();
        assert forall|j: int| 0 <= j < i - 1 && j + 1 < t.len() implies !(#[trigger] t[j] == '$'
            && t[j + 1] == '{') by {
            assert(t[j] == s[j + 1]);
            assert(t[j + 1] == s[j + 2]);
        }
        lemma_first_open(t, i - 1);
    }
}

proof fn lemma_first_open_bounds(s: Seq<char>)
    ensures
        0 <= first_open(s) <= s.len(),
        first_open(s) < s.len() ==> first_open(s) + 1 < s.len() && s[first_open(s)] == '$'
            && s[first_open(s) + 1] == '{',
    decreases s.len(),
{
    if s.len() >= 2 {
        lemma_first_open_bounds(s.drop_first());
    }
}

proof fn lemma_placeholder_bounds(s: Seq<char>)
    ensures
        has_placeholder(s) ==> {
            &&& 0 <= first_open(s) < s.len() - 2
            &&& 0 <= first_close(after_open(s)) < after_open(s).len()
            &&& after_placeholder(s).len() < s.len()
        },
{
    lemma_first_open_bounds(s);
    text::lemma_first_of_bounds(after_open(s), CharClass::Only('}'));
}

/// The position of the first `${` of `v` at or after `from`; `v.len()` if
/// there is none.
fn find_open(v: &Vec<char>, from: usize) -> (r: usize)
    requires
        from <= v.len(),
    ensures
        r == from + first_open(v@.skip(from as int)),
        r <= v.len(),
        r < v.len() ==> r + 1 < v.len(),
{
    let ghost s = v@.skip(from as int);
    let mut i: usize = from;
    while i < v.len() && v.len() - i >= 2
        invariant
            from <= i <= v.len(),
            s == v@.skip(from as int),
            forall|j: int| 0 <= j < i - from && j + 1 < s.len() ==> !(#[trigger] s[j] == '$' && s[j + 1]
                == '{'),
        decreases v.len() - i,
    {
        assert(s[i - from] == v@[i as int]);
        assert(s[i - from + 1] == v@[i + 1]);
        if v[i] == '$' && v[i + 1] == '{' {
            proof {
                lemma_first_open(s, i - from);
            }
            return i;
        }
        i += 1;
    }
    proof {
        lemma_first_open(s, s.len() as int);
    }
    v.len()
}

/// The position of the first `}` of `v` at or after `from`; `v.len()` if
/// there is none.
fn find_close(v: &Vec<char>, from: usize) -> (r: usize)
    requires
        from <= v.len(),
    ensures
        r == from + first_close(v@.skip(from as int)),
        from <= r <= v.len(),
{
    let ghost s = v@.skip(from as int);
    let mut i: usize = from;
    while i < v.len()
        invariant
            from <= i <= v.len(),
            s == v@.skip(from as int),
            forall|j: int| 0 <= j < i - from ==> !CharClass::Only('}').has(#[trigger] s[j]),
        decreases v.len() - i,
    {
        assert(s[i - from] == v@[i as int]);
        if v[i] == '}' {
            proof {
                text::lemma_first_of(s, CharClass::Only('}'), i - from);
            }
            return i;
        }
        i += 1;
    }
    proof {
        text::lemma_first_of(s, CharClass::Only('}'), i - from);
    }
    i
}

/// Replaces every `${NAME}` in `s` with the value of `NAME`; a variable that
/// is not set expands to nothing.
pub fn expand_env_vars(s: &str, env: &Environment) -> (out: String)
    ensures
        out@ == expand(s@, env@),
{
    let v: Vec<char> = to_chars(s);
    let mut out: String = String::new();
    let mut at: usize = 0;
    assert(v@.skip(0) =~= v@);
    assert(out@ + expand(v@.skip(0), env@) =~= expand(s@, env@));
    loop
        invariant
            v@ == s@,
            at <= v.len(),
            out@ + expand(v@.skip(at as int), env@) == expand(s@, env@),
        decreases v.len() - at,
    {
        let ghost rest = v@.skip(at as int);
        let ghost done = out@;
        let open: usize = find_open(&v, at);
        proof {
            lemma_placeholder_bounds(rest);
            lemma_first_open_bounds(rest);
        }
        if open < v.len() {
            assert(after_open(rest) =~= v@.skip(open + 2));
            let close: usize = find_close(&v, open + 2);
            if close < v.len() {
                out.append(s.substring_char(at, open));
                let name: &str = s.substring_char(open + 2, close);
                assert(name@ =~= first_name(rest));
                assert(s@.subrange(at as int, open as int) =~= rest.take(first_open(rest)));
                match env.get(name) {
                    Some(value) => {
                        out.append(value);
                    },
                    None => {},
                }
                assert(out@ =~= done + rest.take(first_open(rest)) + lookup(env@, first_name(rest)));
                assert(after_placeholder(rest) =~= v@.skip(close + 1));
                assert(out@ + expand(v@.skip(close + 1), env@) =~= done + expand(rest, env@));
                at = close + 1;
                continue ;
            }
        }
        out.append(s.substring_char(at, v.len()));
        assert(s@.subrange(at as int, v@.len() as int) =~= rest);
        return out;
    }
}

/// The names in the placeholders of `s`, in order.
pub fn references_of(s: &str) -> (out: Vec<String>)
    ensures
        text::texts(out@) == references(s@),
{
    let v: Vec<char> = to_chars(s);
    let mut out: Vec<String> = Vec::new();
    let mut at: usize = 0;
    assert(v@.skip(0) =~= v@);
    assert(text::texts(out@) + references(v@.skip(0)) =~= references(s@));
    loop
        invariant
            v@ == s@,
            at <= v.len(),
            text::texts(out@) + references(v@.skip(at as int)) == references(s@),
        decreases v.len() - at,
    {
        let ghost rest = v@.skip(at as int);
        let ghost done = text::texts(out@);
        let open: usize = find_open(&v, at);
        proof {
            lemma_placeholder_bounds(rest);
            lemma_first_open_bounds(rest);
        }
        if open < v.len() {
            assert(after_open(rest) =~= v@.skip(open + 2));
            let close: usize = find_close(&v, open + 2);
            if close < v.len() {
                let name: &str = s.substring_char(open + 2, close);
                assert(name@ =~= first_name(rest));
                out.push(name.to_string());
                assert(text::texts(out@) =~= done + seq![first_name(rest)]);
                assert(after_placeholder(rest) =~= v@.skip(close + 1));
                assert(text::texts(out@) + references(v@.skip(close + 1)) =~= done + references(
                    rest,
                ));
                at = close + 1;
                continue ;
            }
        }
        assert(done + references(rest) =~= done);
        return out;
    }
}

// ---------------------------------------------------------------------------
// `Name: value`
// ---------------------------------------------------------------------------

/// Why a `--header` value was refused.
#[derive(Debug, Clone, PartialEq, Eq)]
pub enum HeaderError {
    /// There is no colon.
    MissingColon { entry: String },
    /// Nothing stands before the colon.
    EmptyName { entry: String },
    /// What stands before the colon is not a header name.
    InvalidName { name: String, cause: String },
    /// What stands after the colon does not expand to a header value.
    InvalidValue { name: String, cause: String },
}

/// The view of a [`HeaderError`].
pub enum HeaderErrorView {
    MissingColon { entry: Seq<char> },
    EmptyName { entry: Seq<char> },
    InvalidName { name: Seq<char>, cause: Seq<char> },
    InvalidValue { name: Seq<char>, cause: Seq<char> },
}

impl View for HeaderError {
    type V = HeaderErrorView;

    open spec fn view(&self) -> HeaderErrorView {
        match self {
            HeaderError::MissingColon { entry } => HeaderErrorView::MissingColon { entry: entry@ },
            HeaderError::EmptyName { entry } => HeaderErrorView::EmptyName { entry: entry@ },
            HeaderError::InvalidName { name, cause } => {
                HeaderErrorView::InvalidName { name: name@, cause: cause@ }
            },
            HeaderError::InvalidValue { name, cause } => {
                HeaderErrorView::InvalidValue { name: name@, cause: cause@ }
            },
        }
    }
}

impl HeaderErrorView {
    /// What the user is told.
    pub open spec fn message(self) -> Seq<char> {
        match self {
            HeaderErrorView::MissingColon { entry } => "invalid header '"@ + entry
                + "', expected 'Name: value'"@,
            HeaderErrorView::EmptyName { entry } => "invalid header '"@ + entry + "': empty name"@,
            HeaderErrorView::InvalidName { name, .. } => "invalid header name '"@ + name + "'"@,
            HeaderErrorView::InvalidValue { name, .. } => "invalid header value for '"@ + name + "'"@,
        }
    }

    /// What the user is told, followed by the cause where there is one.
    pub open spec fn full_message(self) -> Seq<char> {
        match self {
            HeaderErrorView::InvalidName { cause, .. } => self.message() + ": "@ + cause,
            HeaderErrorView::InvalidValue { cause, .. } => self.message() + ": "@ + cause,
            _ => self.message(),
        }
    }
}

impl HeaderError {
    /// What the user is told.
    pub fn message(&self) -> (r: String)
        ensures
            r@ == self@.message(),
    {
        let mut out: String = String::new();
        match self {
            HeaderError::MissingColon { entry } => {
                out.append("invalid header '");
                out.append(entry.as_str());
                out.append("', expected 'Name: value'");
            },
            HeaderError::EmptyName { entry } => {
                out.append("invalid header '");
                out.append(entry.as_str());
                out.append("': empty name");
            },
            HeaderError::InvalidName { name, .. } => {
                out.append("invalid header name '");
                out.append(name.as_str());
                out.append("'");
            },
            HeaderError::InvalidValue { name, .. } => {
                out.append("invalid header value for '");
                out.append(name.as_str());
                out.append("'");
            },
        }
        assert(out@ =~= self@.message());
        out
    }

    /// What the user is told, followed by the cause where there is one.
    pub fn full_message(&self) -> (r: String)
        ensures
            r@ == self@.full_message(),
    {
        let mut out: String = self.message();
        match self {
            HeaderError::InvalidName { cause, .. } | HeaderError::InvalidValue { cause, .. } => {
                out.append(": ");
                out.append(cause.as_str());
            },
            _ => {},
        }
        out
    }
}

/// What stands before and after the first colon of `entry`, without
/// surrounding white space.
pub open spec fn name_and_value(entry: Seq<char>) -> Option<(Seq<char>, Seq<char>)> {
    match text::split_once(entry, ':') {
        Some((n, v)) => Some(
            (text::trim(n, CharClass::WhiteSpace), text::trim(v, CharClass::WhiteSpace)),
        ),
        None => None,
    }
}

/// The header that one value of the flag stands for.
pub open spec fn parsed_entry(entry: Seq<char>, env: Map<Seq<char>, Seq<char>>) -> Result<
    (Seq<char>, Seq<u8>),
    HeaderErrorView,
> {
    match name_and_value(entry) {
        None => Err(HeaderErrorView::MissingColon { entry }),
        Some((name, value)) => if name.len() == 0 {
            Err(HeaderErrorView::EmptyName { entry })
        } else if !is_header_name(name) {
            Err(HeaderErrorView::InvalidName { name, cause: "invalid HTTP header name"@ })
        } else if !is_header_value(encode_utf8(expand(value, env))) {
            Err(HeaderErrorView::InvalidValue { name, cause: "failed to parse header value"@ })
        } else {
            Ok((text::ascii_lower(name), encode_utf8(expand(value, env))))
        },
    }
}

/// The headers that the values of the flag stand for: the error of the first
/// that is refused, or all of them, a later one in place of an earlier one of
/// the same name.
pub open spec fn parsed(raw: Seq<Seq<char>>, env: Map<Seq<char>, Seq<char>>) -> Result<
    Map<Seq<char>, Seq<u8>>,
    HeaderErrorView,
>
    decreases raw.len(),
{
    if raw.len() == 0 {
        Ok(Map::empty())
    } else {
        match parsed(raw.drop_last(), env) {
            Err(e) => Err(e),
            Ok(m) => match parsed_entry(raw.last(), env) {
                Err(e) => Err(e),
                Ok((n, v)) => Ok(m.insert(n, v)),
            },
        }
    }
}

/// The names that the values of the flag refer to.
pub open spec fn names_in(raw: Seq<Seq<char>>) -> Seq<Seq<char>>
    decreases raw.len(),
{
    if raw.len() == 0 {
        seq![]
    } else {
        names_in(raw.drop_last()) + match name_and_value(raw.last()) {
            Some((_, value)) => references(value),
            None => seq![],
        }
    }
}

/// The environment variables that parsing `raw` looks up, in order.
pub fn environment_names(raw: &[String]) -> (out: Vec<String>)
    ensures
        text::texts(out@) == names_in(text::texts(raw@)),
{
    let ghost all = text::texts(raw@);
    let mut out: Vec<String> = Vec::new();
    let mut i: usize = 0;
    assert(all.take(0) =~= seq![]);
    while i < raw.len()
        invariant
            all == text::texts(raw@),
            i <= raw.len(),
            text::texts(out@) == names_in(all.take(i as int)),
        decreases raw.len() - i,
    {
        let ghost before = text::texts(out@);
        assert(all.take(i + 1).drop_last() =~= all.take(i as int));
        assert(all.take(i + 1).last() == raw@[i as int]@);
        match split_at_first(raw[i].as_str(), ':') {
            Some((_, value)) => {
                let mut more: Vec<String> = references_of(trimmed(value, CharClass::WhiteSpace));
                let ghost added = text::texts(more@);
                out.append(&mut more);
                assert(text::texts(out@) =~= before + added);
            },
            None => {
                assert(before + Seq::<Seq<char>>::empty() =~= before);
            },
        }
        i += 1;
    }
    assert(all.take(all.len() as int) =~= all);
    out
}

/// Parses one `Name: value`.
pub fn parse_entry(entry: &str, env: &Environment) -> (r: Result<Header, HeaderError>)
    ensures
        match r {
            Ok(h) => parsed_entry(entry@, env@) == Ok::<_, HeaderErrorView>((h.name@, h.value@))
                && is_header((h.name@, h.value@)),
            Err(e) => parsed_entry(entry@, env@) == Err::<(Seq<char>, Seq<u8>), _>(e@),
        },
{
    match split_at_first(entry, ':') {
        None => Err(HeaderError::MissingColon { entry: entry.to_string() }),
        Some((n, v)) => {
            let name: &str = trimmed(n, CharClass::WhiteSpace);
            let value: &str = trimmed(v, CharClass::WhiteSpace);
            if name.is_empty() {
                return Err(HeaderError::EmptyName { entry: entry.to_string() });
            }
            let expanded: String = expand_env_vars(value, env);
            match header_name(name) {
                Err(cause) => Err(HeaderError::InvalidName { name: name.to_string(), cause }),
                Ok(lower) => match header_value(expanded.as_str()) {
                    Err(cause) => Err(
                        HeaderError::InvalidValue { name: name.to_string(), cause },
                    ),
                    Ok(bytes) => {
                        proof {
                            lemma_lower_name(name@);
                        }
                        Ok(Header { name: lower, value: bytes })
                    },
                },
            }
        },
    }
}

/// Parses the `Name: value` strings of the `--header` flag, with `${VAR}`
/// filled in from `env`.
pub fn parse(raw: &[String], env: &Environment) -> (r: Result<Headers, HeaderError>)
    ensures
        match r {
            Ok(h) => parsed(text::texts(raw@), env@) == Ok::<_, HeaderErrorView>(h.map()),
            Err(e) => parsed(text::texts(raw@), env@) == Err::<Map<Seq<char>, Seq<u8>>, _>(e@),
        },
{
    let ghost all = text::texts(raw@);
    let mut out: Headers = Headers::new();
    let mut i: usize = 0;
    assert(all.take(0) =~= seq![]);
    while i < raw.len()
        invariant
            all == text::texts(raw@),
            i <= raw.len(),
            parsed(all.take(i as int), env@) == Ok::<_, HeaderErrorView>(out.map()),
        decreases raw.len() - i,
    {
        proof {
            assert(all.take(i + 1).drop_last() =~= all.take(i as int));
            assert(all.take(i + 1).last() == raw@[i as int]@);
        }
        match parse_entry(raw[i].as_str(), env) {
            Ok(h) => {
                out.insert(h.name, h.value);
            },
            Err(e) => {
                proof {
                    lemma_error_stays(all, i + 1, env@);
                }
                return Err(e);
            },
        }
        i += 1;
    }
    assert(all.take(all.len() as int) =~= all);
    Ok(out)
}

proof fn lemma_error_stays(raw: Seq<Seq<char>>, i: int, env: Map<Seq<char>, Seq<char>>)
    requires
        0 <= i <= raw.len(),
        parsed(raw.take(i), env) is Err,
    ensures
        parsed(raw, env) == parsed(raw.take(i), env),
    decreases raw.len(),
{
    if i == raw.len() {
        assert(raw.take(i) =~= raw);
    } else {
        assert(raw.drop_last().take(i) =~= raw.take(i));
        lemma_error_stays(raw.drop_last(), i, env);
    }
}

// ---------------------------------------------------------------------------
// Laws
// ---------------------------------------------------------------------------

/// A header that was given is found under its name in lower case, however the
/// name was written.
pub proof fn law_given_headers_are_found(
    raw: Seq<Seq<char>>,
    env: Map<Seq<char>, Seq<char>>,
    i: int,
)
    requires
        parsed(raw, env) is Ok,
        0 <= i < raw.len(),
    ensures
        name_and_value(raw[i]) matches Some(p) && (parsed(raw, env)->Ok_0).contains_key(
            text::ascii_lower(p.0),
        ),
    decreases raw.len(),
{
    if i < raw.len() - 1 {
        law_given_headers_are_found(raw.drop_last(), env, i);
        assert(raw.drop_last()[i] == raw[i]);
    }
}

/// Every header that parsing gives has a valid name in lower case and a valid
/// value.
pub proof fn law_parsed_headers_are_valid(
    raw: Seq<Seq<char>>,
    env: Map<Seq<char>, Seq<char>>,
    name: Seq<char>,
)
    requires
        parsed(raw, env) is Ok,
        (parsed(raw, env)->Ok_0).contains_key(name),
    ensures
        is_header_name(name),
        text::ascii_lower(name) == name,
        is_header_value((parsed(raw, env)->Ok_0)[name]),
    decreases raw.len(),
{
    let (n, v) = parsed_entry(raw.last(), env)->Ok_0;
    if name == n {
        lemma_lower_name((name_and_value(raw.last())->0).0);
    } else {
        law_parsed_headers_are_valid(raw.drop_last(), env, name);
    }
}

/// Text without a closed placeholder is left as it is.
pub proof fn law_no_placeholder_no_change(s: Seq<char>, env: Map<Seq<char>, Seq<char>>)
    requires
        !has_placeholder(s),
    ensures
        expand(s, env) == s,
{
}

/// A placeholder is replaced in place: the text before its `${` stays, the
/// value comes next, and the text after its `}` is expanded on its own.
pub proof fn law_placeholder_is_replaced(
    before: Seq<char>,
    name: Seq<char>,
    after: Seq<char>,
    env: Map<Seq<char>, Seq<char>>,
)
    requires
        first_open(before) == before.len(),
        !name.contains('}'),
    ensures
        expand(before + seq!['$', '{'] + name + seq!['}'] + after, env) == before + lookup(
            env,
            name,
        ) + expand(after, env),
{
    let s = before + seq!['$', '{'] + name + seq!['}'] + after;
    assert forall|j: int| 0 <= j < before.len() && j + 1 < s.len() implies !(#[trigger] s[j] == '$'
        && s[j + 1] == '{') by {
        if j + 1 < before.len() {
            lemma_none_open(before, j);
            assert(s[j] == before[j]);
            assert(s[j + 1] == before[j + 1]);
        } else {
            assert(s[j + 1] == '$');
        }
    }
    lemma_first_open(s, before.len() as int);
    let rest = name + seq!['}'] + after;
    assert(after_open(s) =~= rest);
    assert forall|j: int| 0 <= j < name.len() implies !CharClass::Only('}').has(
        #[trigger] rest[j],
    ) by {
        assert(rest[j] == name[j]);
        assert(name.contains(name[j]));
    }
    text::lemma_first_of(rest, CharClass::Only('}'), name.len() as int);
    assert(first_name(s) =~= name);
    assert(after_placeholder(s) =~= after);
    assert(s.take(first_open(s)) =~= before);
}

proof fn lemma_none_open(s: Seq<char>, j: int)
    requires
        first_open(s) == s.len(),
        0 <= j,
        j + 1 < s.len(),
    ensures
        !(s[j] == '$' && s[j + 1] == '{'),
    decreases s.len(),
{
    if j > 0 {
        lemma_first_open_bounds(s.drop_first());
        lemma_none_open(s.drop_first(), j - 1);
    }
}

/// Expansion depends on the variables that the text refers to and no others.
pub proof fn law_expansion_reads_only_references(
    s: Seq<char>,
    env1: Map<Seq<char>, Seq<char>>,
    env2: Map<Seq<char>, Seq<char>>,
)
    requires
        forall|n: Seq<char>| references(s).contains(n) ==> #[trigger] lookup(env1, n) == lookup(env2, n),
    ensures
        expand(s, env1) == expand(s, env2),
    decreases s.len(),
{
    lemma_placeholder_bounds(s);
    if has_placeholder(s) {
        let t = after_placeholder(s);
        let refs = references(s);
        assert(refs[0] == first_name(s));
        assert forall|n: Seq<char>| references(t).contains(n) implies #[trigger] lookup(env1, n)
            == lookup(env2, n) by {
            let i = choose|i: int| 0 <= i < references(t).len() && references(t)[i] == n;
            assert(refs[i + 1] == n);
        }
        law_expansion_reads_only_references(t, env1, env2);
        assert(lookup(env1, first_name(s)) == lookup(env2, first_name(s)));
    }
}

/// Parsing depends on the variables that `environment_names` lists and no
/// others: two environments that agree on those give the same outcome.
pub proof fn law_parsing_reads_only_listed_names(
    raw: Seq<Seq<char>>,
    env1: Map<Seq<char>, Seq<char>>,
    env2: Map<Seq<char>, Seq<char>>,
)
    requires
        forall|n: Seq<char>| names_in(raw).contains(n) ==> #[trigger] lookup(env1, n) == lookup(env2, n),
    ensures
        parsed(raw, env1) == parsed(raw, env2),
    decreases raw.len(),
{
    if raw.len() > 0 {
        let init = names_in(raw.drop_last());
        let all = names_in(raw);
        assert forall|n: Seq<char>| init.contains(n) implies #[trigger] lookup(env1, n) == lookup(
            env2,
            n,
        ) by {
            let i = choose|i: int| 0 <= i < init.len() && init[i] == n;
            assert(all[i] == n);
        }
        law_parsing_reads_only_listed_names(raw.drop_last(), env1, env2);
        match name_and_value(raw.last()) {
            Some((_, value)) => {
                let refs = references(value);
                assert forall|n: Seq<char>| refs.contains(n) implies #[trigger] lookup(env1, n)
                    == lookup(env2, n) by {
                    let i = choose|i: int| 0 <= i < refs.len() && refs[i] == n;
                    assert(all[init.len() + i] == n);
                }
                law_expansion_reads_only_references(value, env1, env2);
            },
            None => {},
        }
    }
}

proof fn lemma_placeholder_parts(before: Seq<char>, name: Seq<char>, after: Seq<char>)
    requires
        forall|j: int|
            0 <= j && j + 1 < before.len() ==> !(#[trigger] before[j] == '$' && before[j + 1]
                == '{'),
        !name.contains('}'),
    ensures
        ({
            let s = before + seq!['$', '{'] + name + seq!['}'] + after;
            &&& has_placeholder(s)
            &&& first_name(s) == name
            &&& after_placeholder(s) == after
            &&& s.take(first_open(s)) == before
            &&& after.len() < s.len()
        }),
{
    let s = before + seq!['$', '{'] + name + seq!['}'] + after;
    assert forall|j: int| 0 <= j < before.len() && j + 1 < s.len() implies !(#[trigger] s[j] == '$'
        && s[j + 1] == '{') by {
        if j + 1 < before.len() {
            assert(s[j] == before[j]);
            assert(s[j + 1] == before[j + 1]);
        } else {
            assert(s[j + 1] == '$');
        }
    }
    lemma_first_open(s, before.len() as int);
    let rest = name + seq!['}'] + after;
    assert(after_open(s) =~= rest);
    assert forall|j: int| 0 <= j < name.len() implies !CharClass::Only('}').has(
        #[trigger] rest[j],
    ) by {
        assert(rest[j] == name[j]);
        assert(name.contains(name[j]));
    }
    text::lemma_first_of(rest, CharClass::Only('}'), name.len() as int);
    assert(first_name(s) =~= name);
    assert(after_placeholder(s) =~= after);
    assert(s.take(first_open(s)) =~= before);
}

/// A placeholder is filled in where it stands, with the value of its variable
/// or with nothing, and what follows is expanded on its own: a value is not
/// searched for placeholders again. The variable is among those looked up.
pub proof fn law_a_placeholder_is_filled_in(
    before: Seq<char>,
    name: Seq<char>,
    after: Seq<char>,
    env: Map<Seq<char>, Seq<char>>,
)
    requires
        forall|j: int|
            0 <= j && j + 1 < before.len() ==> !(#[trigger] before[j] == '$' && before[j + 1]
                == '{'),
        !name.contains('}'),
    ensures
        ({
            let s = before + seq!['$', '{'] + name + seq!['}'] + after;
            let filled = if env.contains_key(name) {
                env[name]
            } else {
                Seq::<char>::empty()
            };
            &&& expand(s, env) == before + filled + expand(after, env)
            &&& references(s) == seq![name] + references(after)
        }),
{
    lemma_placeholder_parts(before, name, after);
}

/// A text without `${`, and one whose first `${` is never closed, stay as they
/// are and refer to no variable.
pub proof fn law_other_text_is_kept(
    before: Seq<char>,
    rest: Seq<char>,
    env: Map<Seq<char>, Seq<char>>,
)
    requires
        forall|j: int|
            0 <= j && j + 1 < before.len() ==> !(#[trigger] before[j] == '$' && before[j + 1]
                == '{'),
        !rest.contains('}'),
    ensures
        expand(before, env) == before,
        references(before) == Seq::<Seq<char>>::empty(),
        expand(before + seq!['$', '{'] + rest, env) == before + seq!['$', '{'] + rest,
        references(before + seq!['$', '{'] + rest) == Seq::<Seq<char>>::empty(),
{
    lemma_first_open(before, before.len() as int);
    let s = before + seq!['$', '{'] + rest;
    assert forall|j: int| 0 <= j < before.len() && j + 1 < s.len() implies !(#[trigger] s[j] == '$'
        && s[j + 1] == '{') by {
        if j + 1 < before.len() {
            assert(s[j] == before[j]);
            assert(s[j + 1] == before[j + 1]);
        } else {
            assert(s[j + 1] == '$');
        }
    }
    lemma_first_open(s, before.len() as int);
    assert(after_open(s) =~= rest);
    assert forall|j: int| 0 <= j < rest.len() implies !CharClass::Only('}').has(
        #[trigger] rest[j],
    ) by {
        assert(rest.contains(rest[j]));
    }
    text::lemma_first_of(rest, CharClass::Only('}'), rest.len() as int);
}

/// A value of the flag: a name, a colon and a value, with white space around
/// the two.
pub open spec fn entry_with(
    a: Seq<char>,
    name: Seq<char>,
    b: Seq<char>,
    c: Seq<char>,
    value: Seq<char>,
    d: Seq<char>,
) -> Seq<char> {
    (a + name + b).push(':') + (c + value + d)
}

proof fn lemma_entry_parts(
    a: Seq<char>,
    name: Seq<char>,
    b: Seq<char>,
    c: Seq<char>,
    value: Seq<char>,
    d: Seq<char>,
)
    requires
        text::is_blank(a),
        text::is_blank(b),
        text::is_blank(c),
        text::is_blank(d),
        text::is_trimmed(name),
        text::is_trimmed(value),
        !name.contains(':'),
    ensures
        name_and_value(entry_with(a, name, b, c, value, d)) == Some((name, value)),
{
    let left = a + name + b;
    assert(!left.contains(':')) by {
        if left.contains(':') {
            let i = choose|i: int| 0 <= i < left.len() && left[i] == ':';
            if i < a.len() {
                assert(left[i] == a[i]);
            } else if i < a.len() + name.len() {
                assert(left[i] == name[i - a.len()]);
                assert(name.contains(':'));
            } else {
                assert(left[i] == b[i - a.len() - name.len()]);
            }
        }
    }
    text::law_split_once(left, ':', c + value + d);
    text::lemma_trim_blank(a, name, b);
    text::lemma_trim_blank(c, value, d);
}

/// Whatever the name of a header is, and however much white space stands
/// around name and value, the header has that name in lower case and that
/// value with its placeholders filled in; it is refused only where the
/// outcome is no header value.
pub proof fn law_every_header_is_read_and_expanded(
    a: Seq<char>,
    name: Seq<char>,
    b: Seq<char>,
    c: Seq<char>,
    value: Seq<char>,
    d: Seq<char>,
    env: Map<Seq<char>, Seq<char>>,
)
    requires
        text::is_blank(a),
        text::is_blank(b),
        text::is_blank(c),
        text::is_blank(d),
        is_header_name(name),
        text::is_trimmed(value),
    ensures
        ({
            let sent = encode_utf8(expand(value, env));
            let read = parsed_entry(entry_with(a, name, b, c, value, d), env);
            &&& is_header_value(sent) ==> read == Ok::<_, HeaderErrorView>(
                (text::ascii_lower(name), sent),
            )
            &&& !is_header_value(sent) ==> (read matches Err(HeaderErrorView::InvalidValue {
                name: n,
                cause,
            }) && n == name && cause == "failed to parse header value"@)
        }),
{
    assert(is_name_char(name[0]));
    assert(is_name_char(name.last()));
    assert(!name.contains(':')) by {
        if name.contains(':') {
            let i = choose|i: int| 0 <= i < name.len() && name[i] == ':';
            assert(is_name_char(name[i]));
        }
    }
    lemma_entry_parts(a, name, b, c, value, d);
}

/// What is refused, and with what error: a text without a colon, one with
/// nothing but white space before it, and one with something other than a
/// name before it.
pub proof fn law_malformed_headers_are_told_apart(
    bare: Seq<char>,
    a: Seq<char>,
    name: Seq<char>,
    b: Seq<char>,
    rest: Seq<char>,
    env: Map<Seq<char>, Seq<char>>,
)
    requires
        !bare.contains(':'),
        text::is_blank(a),
        text::is_blank(b),
        text::is_trimmed(name),
        name.len() > 0,
        !name.contains(':'),
        !is_header_name(name),
    ensures
        parsed_entry(bare, env) matches Err(HeaderErrorView::MissingColon { entry }) && entry
            == bare,
        parsed_entry(a.push(':') + rest, env) matches Err(HeaderErrorView::EmptyName { entry })
            && entry == a.push(':') + rest,
        parsed_entry((a + name + b).push(':') + rest, env) matches Err(
            HeaderErrorView::InvalidName { name: n, cause },
        ) && n == name && cause == "invalid HTTP header name"@,
{
    let none = Seq::<char>::empty();
    text::law_split_once(bare, ':', none);
    assert(!a.contains(':')) by {
        if a.contains(':') {
            let i = choose|i: int| 0 <= i < a.len() && a[i] == ':';
            assert(text::is_white_space(a[i]));
        }
    }
    text::law_split_once(a, ':', rest);
    text::law_trimming_all(a, CharClass::WhiteSpace);
    let left = a + name + b;
    assert(!left.contains(':')) by {
        if left.contains(':') {
            let i = choose|i: int| 0 <= i < left.len() && left[i] == ':';
            if i < a.len() {
                assert(left[i] == a[i]);
            } else if i < a.len() + name.len() {
                assert(left[i] == name[i - a.len()]);
                assert(name.contains(':'));
            } else {
                assert(left[i] == b[i - a.len() - name.len()]);
            }
        }
    }
    text::law_split_once(left, ':', rest);
    text::lemma_trim_blank(a, name, b);
}

/// Of several headers each is found under its name with its own value, unless
/// a later one has the same name; and nothing else is found.
pub proof fn law_each_header_counts_until_a_later_one(
    raw: Seq<Seq<char>>,
    env: Map<Seq<char>, Seq<char>>,
    i: int,
    name: Seq<char>,
)
    requires
        parsed(raw, env) is Ok,
        0 <= i < raw.len(),
        forall|j: int|
            i < j < raw.len() ==> (parsed_entry(#[trigger] raw[j], env)->Ok_0).0 != (parsed_entry(
                raw[i],
                env,
            )->Ok_0).0,
    ensures
        parsed_entry(raw[i], env) matches Ok((n, v)) && (parsed(raw, env)->Ok_0).contains_pair(n, v),
        (parsed(raw, env)->Ok_0).contains_key(name) ==> exists|j: int|
            0 <= j < raw.len() && (parsed_entry(#[trigger] raw[j], env) matches Ok((n, _)) && n
                == name),
    decreases raw.len(),
{
    let init = raw.drop_last();
    lemma_only_given_names(raw, env, name);
    if i < raw.len() - 1 {
        assert(init[i] == raw[i]);
        assert forall|j: int| i < j < init.len() implies (parsed_entry(
            #[trigger] init[j],
            env,
        )->Ok_0).0 != (parsed_entry(init[i], env)->Ok_0).0 by {
            assert(init[j] == raw[j]);
        }
        law_each_header_counts_until_a_later_one(init, env, i, name);
        assert(raw[raw.len() - 1] == raw.last());
    }
}

proof fn lemma_only_given_names(
    raw: Seq<Seq<char>>,
    env: Map<Seq<char>, Seq<char>>,
    name: Seq<char>,
)
    requires
        parsed(raw, env) is Ok,
    ensures
        (parsed(raw, env)->Ok_0).contains_key(name) ==> exists|j: int|
            0 <= j < raw.len() && (parsed_entry(#[trigger] raw[j], env) matches Ok((n, _)) && n
                == name),
    decreases raw.len(),
{
    if raw.len() > 0 && (parsed(raw, env)->Ok_0).contains_key(name) {
        let init = raw.drop_last();
        let (n, v) = parsed_entry(raw.last(), env)->Ok_0;
        if n == name {
            assert(raw[raw.len() - 1] == raw.last());
        } else {
            lemma_only_given_names(init, env, name);
            let j = choose|j: int|
                0 <= j < init.len() && (parsed_entry(#[trigger] init[j], env) matches Ok((n, _))
                    && n == name);
            assert(raw[j] == init[j]);
        }
    }
}

/// The value that is sent under a name is the expanded text behind the colon
/// of the last entry for that name, whatever the name is.
pub proof fn law_values_are_expanded_whatever_the_name(
    raw: Seq<Seq<char>>,
    env: Map<Seq<char>, Seq<char>>,
    i: int,
    n: Seq<char>,
    v: Seq<char>,
)
    requires
        parsed(raw, env) is Ok,
        0 <= i < raw.len(),
        !n.contains(':'),
        raw[i] == n.push(':') + v,
        forall|j: int|
            i < j < raw.len() ==> (parsed_entry(#[trigger] raw[j], env)->Ok_0).0 != (parsed_entry(
                raw[i],
                env,
            )->Ok_0).0,
    ensures
        (parsed(raw, env)->Ok_0).contains_pair(
            text::ascii_lower(text::trim(n, CharClass::WhiteSpace)),
            encode_utf8(expand(text::trim(v, CharClass::WhiteSpace), env)),
        ),
{
    law_each_header_counts_until_a_later_one(raw, env, i, n);
    text::law_split_once(n, ':', v);
}

/// The headers are refused with the error of the first that is refused, and
/// only where one is.
pub proof fn law_the_first_bad_header_is_reported(
    raw: Seq<Seq<char>>,
    env: Map<Seq<char>, Seq<char>>,
    i: int,
)
    requires
        0 <= i <= raw.len(),
        forall|j: int| 0 <= j < i ==> parsed_entry(#[trigger] raw[j], env) is Ok,
        i < raw.len() ==> parsed_entry(raw[i], env) is Err,
    ensures
        i == raw.len() ==> parsed(raw, env) is Ok,
        i < raw.len() ==> parsed(raw, env) is Err && parsed(raw, env)->Err_0 == parsed_entry(
            raw[i],
            env,
        )->Err_0,
    decreases raw.len(),
{
    if raw.len() > 0 {
        let init = raw.drop_last();
        let k = if i == raw.len() {
            i - 1
        } else {
            i
        };
        assert forall|j: int| 0 <= j < k implies parsed_entry(#[trigger] init[j], env) is Ok by {
            assert(init[j] == raw[j]);
        }
        if k < init.len() {
            assert(init[k] == raw[k]);
        }
        law_the_first_bad_header_is_reported(init, env, k);
        assert(raw[raw.len() - 1] == raw.last());
    }
}

/// The variables that are looked up are those of the values, in their order.
pub proof fn law_the_variables_of_each_value_are_listed(
    raw: Seq<Seq<char>>,
    bare: Seq<char>,
    a: Seq<char>,
    name: Seq<char>,
    b: Seq<char>,
    c: Seq<char>,
    value: Seq<char>,
    d: Seq<char>,
)
    requires
        !bare.contains(':'),
        text::is_blank(a),
        text::is_blank(b),
        text::is_blank(c),
        text::is_blank(d),
        text::is_trimmed(name),
        text::is_trimmed(value),
        !name.contains(':'),
    ensures
        names_in(Seq::empty()) == Seq::<Seq<char>>::empty(),
        names_in(raw.push(bare)) == names_in(raw),
        names_in(raw.push(entry_with(a, name, b, c, value, d))) == names_in(raw) + references(
            value,
        ),
{
    lemma_entry_parts(a, name, b, c, value, d);
    text::law_split_once(bare, ':', Seq::empty());
    assert(raw.push(bare).drop_last() =~= raw);
    assert(names_in(raw.push(bare)) =~= names_in(raw));
    assert(raw.push(entry_with(a, name, b, c, value, d)).drop_last() =~= raw);
}

/// What the user is told names the header and what is wrong with it.
pub proof fn law_header_errors_say_what_is_wrong(text: Seq<char>, cause: Seq<char>, error: HeaderError)
    ensures
        ({
            let colon = HeaderErrorView::MissingColon { entry: text };
            let empty = HeaderErrorView::EmptyName { entry: text };
            let name = HeaderErrorView::InvalidName { name: text, cause };
            let value = HeaderErrorView::InvalidValue { name: text, cause };
            &&& colon.message() == "invalid header '"@ + text + "', expected 'Name: value'"@
            &&& empty.message() == "invalid header '"@ + text + "': empty name"@
            &&& name.message() == "invalid header name '"@ + text + "'"@
            &&& value.message() == "invalid header value for '"@ + text + "'"@
            &&& colon.full_message() == colon.message()
            &&& empty.full_message() == empty.message()
            &&& name.full_message() == name.message() + ": "@ + cause
            &&& value.full_message() == value.message() + ": "@ + cause
        }),
        match error {
            HeaderError::MissingColon { entry } => error@ is MissingColon
                && error@->MissingColon_entry == entry@,
            HeaderError::EmptyName { entry } => error@ is EmptyName && error@->EmptyName_entry
                == entry@,
            HeaderError::InvalidName { name, cause } => error@ is InvalidName
                && error@->InvalidName_name == name@ && error@->InvalidName_cause == cause@,
            HeaderError::InvalidValue { name, cause } => error@ is InvalidValue
                && error@->InvalidValue_name == name@ && error@->InvalidValue_cause == cause@,
        },
{
}

/// The map of sorted headers holds each of them under its name, and nothing
/// else.
pub proof fn law_the_map_holds_the_headers(s: Seq<(Seq<char>, Seq<u8>)>, i: int, name: Seq<char>)
    requires
        is_sorted(s),
    ensures
        0 <= i < s.len() ==> map_of(s).contains_pair(s[i].0, s[i].1),
        map_of(s).contains_key(name) <==> exists|j: int|
            0 <= j < s.len() && (#[trigger] s[j]).0 == name,
{
    if 0 <= i < s.len() {
        lemma_map_of_entry(s, i);
    }
}

} // verus!
