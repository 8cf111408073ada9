//! The `WWW-Authenticate` header of a `401` response.
//!
//! A resource server that wants OAuth says so in this header (RFC 6750), and
//! may link its metadata document (RFC 9728) and name the scopes it expects.

use vstd::prelude::*;
use vstd::string::*;

use crate::text;
use crate::text::{
    lower_text_is, split_at_first, stripped, to_chars, trimmed, trimmed_start, CharClass,
};

verus! {

// ---------------------------------------------------------------------------
// Commas outside of quotes
// ---------------------------------------------------------------------------

/// The position of the first comma of `s` that no double quotes enclose;
/// `s.len()` if there is none. `quoted` says whether a quotation is open
/// where `s` starts.
pub open spec fn first_comma(s: Seq<char>, quoted: bool) -> int
    decreases s.len(),
{
    if s.len() == 0 || (s[0] == ',' && !quoted) {
        0
    } else {
        1 + first_comma(s.drop_first(), quoted != (s[0] == '"'))
    }
}

/// The pieces of `s` between the commas that no double quotes enclose.
pub open spec fn pieces(s: Seq<char>) -> Seq<Seq<char>>
    decreases s.len(),
{
    let i = first_comma(s, false);
    if 0 <= i < s.len() {
        seq![s.take(i)] + pieces(s.skip(i + 1))
    } else {
        seq![s]
    }
}

/// Is a quotation open behind the first `i` characters of `s`?
pub open spec fn quoted_at(s: Seq<char>, i: int, quoted: bool) -> bool
    decreases i,
{
    if i <= 0 {
        quoted
    } else {
        quoted_at(s, i - 1, quoted) != (s[i - 1] == '"')
    }
}

proof fn lemma_quoted_at_shift(s: Seq<char>, i: int, quoted: bool)
    requires
        0 < i <= s.len(),
    ensures
        quoted_at(s, i, quoted) == quoted_at(s.drop_first(), i - 1, quoted != (s[0] == '"')),
    decreases i,
{
    reveal_with_fuel(quoted_at, 2);
    if i > 1 {
        lemma_quoted_at_shift(s, i - 1, quoted);
        assert(s.drop_first()[i - 2] == s[i - 1]);
    }
}

/// `first_comma` is the only position without an unenclosed comma before it
/// and with one at it, if it lies inside the text.
pub proof fn lemma_first_comma(s: Seq<char>, quoted: bool, i: int)
    requires
        0 <= i <= s.len(),
        forall|j: int| 0 <= j < i ==> #[trigger] s[j] != ',' || quoted_at(s, j, quoted),
        i < s.len() ==> s[i] == ',' && !quoted_at(s, i, quoted),
    ensures
        first_comma(s, quoted) == i,
    decreases i,
{
    if i > 0 {
        let t = s.drop_first();
        let q = quoted != (s[0] == '"');
        assert(s[0] != ',' || quoted_at(s, 0, quoted));
        assert forall|j: int| 0 <= j < i - 1 implies #[trigger] t[j] != ',' || quoted_at(t, j, q) by {
            assert(t[j] == s[j + 1]);
            lemma_quoted_at_shift(s, j + 1, quoted);
        }
        if i < s.len() {
            assert(t[i - 1] == s[i]);
            lemma_quoted_at_shift(s, i, quoted);
        }
        lemma_first_comma(t, q, i - 1);
    }
}

/// `quoted_at` looks at nothing behind the position.
proof fn lemma_quoted_at_same(s: Seq<char>, t: Seq<char>, from: int, i: int)
    requires
        0 <= from,
        0 <= i,
        from + i <= s.len(),
        t == s.skip(from),
        !quoted_at(s, from, false),
    ensures
        quoted_at(s, from + i, false) == quoted_at(t, i, false),
    decreases i,
{
    reveal_with_fuel(quoted_at, 2);
    if i > 0 {
        lemma_quoted_at_same(s, t, from, i - 1);
        assert(t[i - 1] == s[from + i - 1]);
    }
}

/// Split on commas that are not inside double-quoted strings.
pub fn split_top_level<'a>(s: &'a str) -> (out: Vec<&'a str>)
    ensures
        text::slices(out@) == pieces(s@),
{
    let v: Vec<char> = to_chars(s);
    let mut out: Vec<&'a str> = Vec::new();
    let mut start: usize = 0;
    let mut i: usize = 0;
    let mut in_quotes: bool = false;
    assert(s@.skip(0) =~= s@);
    assert(text::slices(out@) + pieces(s@.skip(0)) =~= pieces(s@));
    while i < v.len()
        invariant
            v@ == s@,
            start <= i <= v.len(),
            in_quotes == quoted_at(s@, i as int, false),
            !quoted_at(s@, start as int, false),
            forall|j: int| start <= j < i ==> #[trigger] s@[j] != ',' || quoted_at(s@, j, false),
            text::slices(out@) + pieces(s@.skip(start as int)) == pieces(s@),
        decreases v.len() - i,
    {
        if v[i] == '"' {
            in_quotes = !in_quotes;
        } else if v[i] == ',' && !in_quotes {
            let ghost rest = s@.skip(start as int);
            let piece: &'a str = s.substring_char(start, i);
            proof {
                assert forall|j: int| 0 <= j < i - start implies #[trigger] rest[j] != ','
                    || quoted_at(rest, j, false) by {
                    assert(rest[j] == s@[start + j]);
                    lemma_quoted_at_same(s@, rest, start as int, j);
                }
                assert(rest[i - start] == s@[i as int]);
                lemma_quoted_at_same(s@, rest, start as int, i - start);
                lemma_first_comma(rest, false, i - start);
                assert(rest.take(i - start) =~= piece@);
                assert(rest.skip(i - start + 1) =~= s@.skip(i + 1));
            }
            let ghost before = text::slices(out@);
            out.push(piece);
            assert(text::slices(out@) =~= before + seq![piece@]);
            start = i + 1;
            assert(text::slices(out@) + pieces(s@.skip(start as int)) =~= before + pieces(rest));
        }
        i += 1;
    }
    let ghost rest = s@.skip(start as int);
    let piece: &'a str = s.substring_char(start, v.len());
    proof {
        assert forall|j: int| 0 <= j < rest.len() implies #[trigger] rest[j] != ',' || quoted_at(
            rest,
            j,
            false,
        ) by {
            assert(rest[j] == s@[start + j]);
            lemma_quoted_at_same(s@, rest, start as int, j);
        }
        lemma_first_comma(rest, false, rest.len() as int);
        assert(piece@ =~= rest);
    }
    let ghost before = text::slices(out@);
    out.push(piece);
    assert(text::slices(out@) =~= before + pieces(rest));
    out
}

// ---------------------------------------------------------------------------
// Parameters
// ---------------------------------------------------------------------------

/// The parameters of a challenge that the proxy uses.
#[derive(Debug, Clone, PartialEq, Eq)]
pub struct WwwAuthenticate {
    /// Where the metadata of the resource can be fetched.
    pub resource_metadata: Option<String>,
    /// The scopes that the resource expects, between white space.
    pub scope: Option<String>,
}

/// The view of a [`WwwAuthenticate`].
pub struct WwwAuthenticateView {
    pub resource_metadata: Option<Seq<char>>,
    pub scope: Option<Seq<char>>,
}

impl View for WwwAuthenticate {
    type V = WwwAuthenticateView;

    open spec fn view(&self) -> WwwAuthenticateView {
        WwwAuthenticateView {
            resource_metadata: text::opt_text(self.resource_metadata),
            scope: text::opt_text(self.scope),
        }
    }
}

/// The name and the value of one parameter: what stands before the first
/// equals sign, trimmed and in lower case, and what stands behind it, trimmed
/// and without the quotes around it.
pub open spec fn parameter(piece: Seq<char>) -> Option<(Seq<char>, Seq<char>)> {
    match text::split_once(piece, '=') {
        Some((k, v)) => Some(
            (
                text::ascii_lower(text::trim(k, CharClass::WhiteSpace)),
                text::trim(text::trim(v, CharClass::WhiteSpace), CharClass::Only('"')),
            ),
        ),
        None => None,
    }
}

/// The value of the last parameter of that name.
pub open spec fn last_value(parts: Seq<Seq<char>>, name: Seq<char>) -> Option<Seq<char>>
    decreases parts.len(),
{
    if parts.len() == 0 {
        None
    } else {
        match parameter(parts.last()) {
            Some((k, v)) => if k == name {
                Some(v)
            } else {
                last_value(parts.drop_last(), name)
            },
            None => last_value(parts.drop_last(), name),
        }
    }
}

/// A challenge without the `Bearer` in front.
pub open spec fn body(header: Seq<char>) -> Seq<char> {
    text::strip(
        text::strip(text::trim_start(header, CharClass::WhiteSpace), "Bearer "@),
        "bearer "@,
    )
}

/// What the proxy reads from a `WWW-Authenticate` header.
pub open spec fn parsed(header: Seq<char>) -> WwwAuthenticateView {
    WwwAuthenticateView {
        resource_metadata: last_value(pieces(body(header)), "resource_metadata"@),
        scope: last_value(pieces(body(header)), "scope"@),
    }
}

/// Parse a (Bearer) `WWW-Authenticate` header value. Parameters other than
/// `resource_metadata` and `scope`, and parts that are no parameter, are
/// passed over.
pub fn parse_www_authenticate(header: &str) -> (out: WwwAuthenticate)
    ensures
        out@ == parsed(header@),
{
    let mut resource_metadata: Option<String> = None;
    let mut scope: Option<String> = None;
    let rest: &str = trimmed_start(header, CharClass::WhiteSpace);
    let rest: &str = stripped(stripped(rest, "Bearer "), "bearer ");
    let parts: Vec<&str> = split_top_level(rest);
    let ghost all = text::slices(parts@);
    let mut i: usize = 0;
    while i < parts.len()
        invariant
            all == text::slices(parts@),
            i <= parts.len(),
            text::opt_text(resource_metadata) == last_value(
                all.take(i as int),
                "resource_metadata"@,
            ),
            text::opt_text(scope) == last_value(all.take(i as int), "scope"@),
        decreases parts.len() - i,
    {
        let ghost upto = all.take(i + 1);
        assert(upto.last() == parts@[i as int]@);
        assert(upto.drop_last() =~= all.take(i as int));
        proof {
            reveal_strlit("resource_metadata");
            reveal_strlit("scope");
            assert("resource_metadata"@.len() != "scope"@.len());
        }
        match split_at_first(parts[i], '=') {
            Some((k, v)) => {
                let key: &str = trimmed(k, CharClass::WhiteSpace);
                let value: &str = trimmed(trimmed(v, CharClass::WhiteSpace), CharClass::Only('"'));
                if lower_text_is(key, "resource_metadata") {
                    resource_metadata = Some(value.to_string());
                } else if lower_text_is(key, "scope") {
                    scope = Some(value.to_string());
                }
            },
            None => {},
        }
        i += 1;
    }
    assert(all.take(all.len() as int) =~= all);
    WwwAuthenticate { resource_metadata, scope }
}

// ---------------------------------------------------------------------------
// Laws
// ---------------------------------------------------------------------------

/// The texts of `parts` with a comma between any two neighbours.
pub open spec fn comma_joined(parts: Seq<Seq<char>>) -> Seq<char>
    decreases parts.len(),
{
    if parts.len() == 0 {
        seq![]
    } else if parts.len() == 1 {
        parts[0]
    } else {
        parts[0] + seq![','] + comma_joined(parts.drop_first())
    }
}

proof fn lemma_first_comma_bounds(s: Seq<char>, quoted: bool)
    ensures
        0 <= first_comma(s, quoted) <= s.len(),
        first_comma(s, quoted) < s.len() ==> s[first_comma(s, quoted)] == ',' && !quoted_at(
            s,
            first_comma(s, quoted),
            quoted,
        ),
    decreases s.len(),
{
    if s.len() > 0 && !(s[0] == ',' && !quoted) {
        let q = quoted != (s[0] == '"');
        lemma_first_comma_bounds(s.drop_first(), q);
        let i = first_comma(s, quoted);
        if i < s.len() {
            assert(s.drop_first()[i - 1] == s[i]);
            lemma_quoted_at_shift(s, i, quoted);
        }
    }
}

/// Nothing is lost in splitting: the pieces with commas between them are the
/// text again.
pub proof fn law_pieces_joined_are_the_text(s: Seq<char>)
    ensures
        comma_joined(pieces(s)) == s,
        pieces(s).len() > 0,
    decreases s.len(),
{
    lemma_first_comma_bounds(s, false);
    let i = first_comma(s, false);
    if i < s.len() {
        let rest = s.skip(i + 1);
        law_pieces_joined_are_the_text(rest);
        let parts = pieces(s);
        assert(parts.drop_first() =~= pieces(rest));
        assert(comma_joined(parts) == s.take(i) + seq![','] + rest);
        assert(s.take(i) + seq![','] + rest =~= s);
    }
}

proof fn lemma_first_comma_of_prefix(s: Seq<char>, quoted: bool)
    ensures
        first_comma(s.take(first_comma(s, quoted)), quoted) == first_comma(s, quoted),
    decreases s.len(),
{
    lemma_first_comma_bounds(s, quoted);
    if s.len() > 0 && !(s[0] == ',' && !quoted) {
        let q = quoted != (s[0] == '"');
        let t = s.drop_first();
        lemma_first_comma_bounds(t, q);
        lemma_first_comma_of_prefix(t, q);
        let p = s.take(first_comma(s, quoted));
        assert(p[0] == s[0]);
        assert(p.drop_first() =~= t.take(first_comma(t, q)));
    }
}

/// No piece holds a comma that no double quotes enclose.
pub proof fn law_pieces_hold_no_bare_comma(s: Seq<char>, i: int)
    requires
        0 <= i < pieces(s).len(),
    ensures
        first_comma(pieces(s)[i], false) == pieces(s)[i].len(),
    decreases s.len(),
{
    lemma_first_comma_bounds(s, false);
    let k = first_comma(s, false);
    if k < s.len() {
        let rest = s.skip(k + 1);
        if i == 0 {
            lemma_first_comma_of_prefix(s, false);
        } else {
            assert(pieces(s)[i] == pieces(rest)[i - 1]);
            law_pieces_hold_no_bare_comma(rest, i - 1);
        }
    }
}

/// A parameter as a server writes it: the name, an equals sign, and the value
/// in double quotes.
pub open spec fn written(name: Seq<char>, value: Seq<char>) -> Seq<char> {
    name + seq!['=', '"'] + value + seq!['"']
}

/// A written parameter reads back as it was written, as long as there are no
/// double quotes in the value.
pub proof fn law_written_parameters_read_back(name: Seq<char>, value: Seq<char>)
    requires
        !name.contains('='),
        !value.contains('"'),
    ensures
        parameter(written(name, value)) == Some(
            (text::ascii_lower(text::trim(name, CharClass::WhiteSpace)), value),
        ),
{
    let s = written(name, value);
    let equals = CharClass::Only('=');
    let quotes = CharClass::Only('"');
    assert forall|j: int| 0 <= j < name.len() implies !equals.has(#[trigger] s[j]) by {
        assert(s[j] == name[j]);
    }
    assert(s[name.len() as int] == '=');
    text::lemma_first_of(s, equals, name.len() as int);
    assert(s.take(name.len() as int) =~= name);
    let v = s.skip(name.len() as int + 1);
    let quote = seq!['"'];
    assert(v =~= quote + value + quote);
    let none = Seq::<char>::empty();
    text::lemma_trim_around(none, v, none, CharClass::WhiteSpace);
    assert(none + v + none =~= v);
    if value.len() > 0 {
        assert(value.contains(value[0]));
        assert(value.contains(value.last()));
        text::lemma_trim_around(quote, value, quote, quotes);
    } else {
        reveal_with_fuel(text::trim_start, 3);
        assert(text::trim_start(v, quotes) =~= none);
        assert(text::trim(v, quotes) =~= value);
    }
}

proof fn lemma_one_piece(name: Seq<char>, value: Seq<char>)
    requires
        !name.contains(','),
        !name.contains('"'),
        !value.contains('"'),
    ensures
        pieces(written(name, value)) == seq![written(name, value)],
{
    let s = written(name, value);
    let k = name.len() as int;
    let e = s.len() as int;
    assert(s.take(k + 1) =~= name + seq!['=']);
    assert(s.subrange(k + 2, e - 1) =~= value);
    assert forall|j: int| 0 <= j <= k + 1 implies !(#[trigger] quoted_at(s, j, false)) by {
        lemma_unquoted(s, k + 1, j, name);
    }
    assert forall|j: int| k + 2 <= j < e implies #[trigger] quoted_at(s, j, false) by {
        lemma_quoted(s, k + 1, j, value);
    }
    assert forall|j: int| 0 <= j < e implies #[trigger] s[j] != ',' || quoted_at(s, j, false) by {
        if j < k {
            assert(s[j] == name[j]);
        } else if j >= k + 2 {
            assert(quoted_at(s, j, false));
        }
    }
    lemma_first_comma(s, false, e);
}

proof fn lemma_unquoted(s: Seq<char>, open: int, j: int, name: Seq<char>)
    requires
        0 <= j <= open,
        open == name.len() + 1,
        open < s.len(),
        s.take(open) == name + seq!['='],
        !name.contains('"'),
    ensures
        !quoted_at(s, j, false),
    decreases j,
{
    if j > 0 {
        lemma_unquoted(s, open, j - 1, name);
        assert(s[j - 1] == s.take(open)[j - 1]);
        if j - 1 < name.len() {
            assert(s[j - 1] == name[j - 1]);
        }
    }
}

proof fn lemma_quoted(s: Seq<char>, open: int, j: int, value: Seq<char>)
    requires
        0 <= open < j < s.len(),
        s[open] == '"',
        !quoted_at(s, open, false),
        s.subrange(open + 1, s.len() - 1) == value,
        !value.contains('"'),
    ensures
        quoted_at(s, j, false),
    decreases j,
{
    if j > open + 1 {
        lemma_quoted(s, open, j - 1, value);
        assert(s[j - 1] == value[j - 1 - open - 1]);
    }
}

/// A challenge with one parameter gives that parameter, whatever the value
/// holds short of double quotes.
pub proof fn law_a_challenge_reads_back(name: Seq<char>, value: Seq<char>)
    requires
        name == "resource_metadata"@ || name == "scope"@,
        !value.contains('"'),
    ensures
        ({
            let header = "Bearer "@ + written(name, value);
            &&& name == "scope"@ ==> parsed(header).scope == Some(value)
            &&& name == "resource_metadata"@ ==> parsed(header).resource_metadata == Some(value)
        }),
{
    reveal_strlit("Bearer ");
    reveal_strlit("bearer ");
    reveal_strlit("resource_metadata");
    reveal_strlit("scope");
    let s = written(name, value);
    let header = "Bearer "@ + s;
    assert(header[0] == 'B');
    assert(text::trim_start(header, CharClass::WhiteSpace) == header);
    assert("Bearer "@.is_prefix_of(header)) by {
        assert(header.subrange(0, 7) =~= "Bearer "@);
    }
    assert(header.skip(7) =~= s);
    assert(s[0] == name[0]);
    assert(!"bearer "@.is_prefix_of(s)) by {
        if "bearer "@.is_prefix_of(s) {
            assert(s.subrange(0, 7)[0] == 'b');
        }
    }
    assert(body(header) == s);
    lemma_one_piece(name, value);
    law_written_parameters_read_back(name, value);
    let none = Seq::<char>::empty();
    text::lemma_trim_around(none, name, none, CharClass::WhiteSpace);
    assert(none + name + none =~= name);
    assert(text::ascii_lower(name) =~= name);
    assert(pieces(s).last() == s);
}

/// A parameter as a server may write it: a name, an equals sign and a value,
/// in double quotes or not, with white space around each of them.
pub struct WrittenParameter {
    pub before_name: Seq<char>,
    pub name: Seq<char>,
    pub after_name: Seq<char>,
    pub before_value: Seq<char>,
    pub quoted: bool,
    pub value: Seq<char>,
    pub after_value: Seq<char>,
}

impl WrittenParameter {
    /// The value as it is written.
    pub open spec fn written_value(self) -> Seq<char> {
        if self.quoted {
            seq!['"'] + self.value + seq!['"']
        } else {
            self.value
        }
    }

    /// The parameter as it is written.
    pub open spec fn text(self) -> Seq<char> {
        (self.before_name + self.name + self.after_name).push('=') + (self.before_value
            + self.written_value() + self.after_value)
    }

    /// Is it written by the rules? What stands in quotes may hold commas.
    pub open spec fn well_formed(self) -> bool {
        &&& text::is_blank(self.before_name) && text::is_blank(self.after_name)
        &&& text::is_blank(self.before_value) && text::is_blank(self.after_value)
        &&& text::is_trimmed(self.name)
        &&& !self.name.contains('=') && !self.name.contains(',') && !self.name.contains('"')
        &&& !self.value.contains('"')
        &&& !self.quoted ==> text::is_trimmed(self.value) && !self.value.contains(',')
    }
}

proof fn lemma_blank_holds_no(s: Seq<char>, c: char)
    requires
        text::is_blank(s),
        !text::is_white_space(c),
    ensures
        !s.contains(c),
{
    if s.contains(c) {
        let i = choose|i: int| 0 <= i < s.len() && s[i] == c;
        assert(text::is_white_space(s[i]));
    }
}

proof fn lemma_concat_holds_no(a: Seq<char>, b: Seq<char>, c: char)
    requires
        !a.contains(c),
        !b.contains(c),
    ensures
        !(a + b).contains(c),
{
    if (a + b).contains(c) {
        let i = choose|i: int| 0 <= i < (a + b).len() && (a + b)[i] == c;
        if i < a.len() {
            assert(a[i] == c);
        } else {
            assert(b[i - a.len()] == c);
        }
    }
}

/// A written parameter is read as its name in lower case and its value,
/// without the quotes and the white space.
pub proof fn law_a_parameter_reads_back(p: WrittenParameter)
    requires
        p.well_formed(),
    ensures
        parameter(p.text()) == Some((text::ascii_lower(p.name), p.value)),
{
    let quotes = CharClass::Only('"');
    let left = p.before_name + p.name + p.after_name;
    let right = p.before_value + p.written_value() + p.after_value;
    lemma_blank_holds_no(p.before_name, '=');
    lemma_blank_holds_no(p.after_name, '=');
    lemma_concat_holds_no(p.before_name, p.name, '=');
    lemma_concat_holds_no(p.before_name + p.name, p.after_name, '=');
    text::law_split_once(left, '=', right);
    text::lemma_trim_blank(p.before_name, p.name, p.after_name);
    text::lemma_trim_blank(p.before_value, p.written_value(), p.after_value);
    let none = Seq::<char>::empty();
    let quote = seq!['"'];
    if p.value.len() > 0 {
        assert(p.value.contains(p.value[0]));
        assert(p.value.contains(p.value.last()));
        text::lemma_trim_around(quote, p.value, quote, quotes);
        text::lemma_trim_around(none, p.value, none, quotes);
        assert(none + p.value + none =~= p.value);
    } else {
        text::law_trimming_all(p.written_value(), quotes);
        assert(p.value =~= none);
    }
}

proof fn lemma_quoted_at_concat(a: Seq<char>, b: Seq<char>, i: int, quoted: bool)
    requires
        0 <= i <= b.len(),
    ensures
        quoted_at(a + b, a.len() + i, quoted) == quoted_at(b, i, quoted_at(a, a.len() as int, quoted)),
    decreases i,
{
    if i == 0 {
        lemma_quoted_at_prefix(a, b, a.len() as int, quoted);
    } else {
        lemma_quoted_at_concat(a, b, i - 1, quoted);
        assert((a + b)[a.len() + i - 1] == b[i - 1]);
    }
}

proof fn lemma_quoted_at_prefix(a: Seq<char>, b: Seq<char>, i: int, quoted: bool)
    requires
        0 <= i <= a.len(),
    ensures
        quoted_at(a + b, i, quoted) == quoted_at(a, i, quoted),
    decreases i,
{
    if i > 0 {
        lemma_quoted_at_prefix(a, b, i - 1, quoted);
        assert((a + b)[i - 1] == a[i - 1]);
    }
}

proof fn lemma_no_quotes(s: Seq<char>, i: int, quoted: bool)
    requires
        0 <= i <= s.len(),
        !s.contains('"'),
    ensures
        quoted_at(s, i, quoted) == quoted,
    decreases i,
{
    if i > 0 {
        lemma_no_quotes(s, i - 1, quoted);
        assert(s.contains(s[i - 1]));
    }
}

/// Does the text hold no comma outside of quotes, and close what it opens?
spec fn is_closed(s: Seq<char>) -> bool {
    &&& forall|j: int| 0 <= j < s.len() ==> #[trigger] s[j] != ',' || quoted_at(s, j, false)
    &&& !quoted_at(s, s.len() as int, false)
}

proof fn lemma_plain_is_closed(s: Seq<char>)
    requires
        !s.contains('"'),
        !s.contains(','),
    ensures
        is_closed(s),
{
    lemma_no_quotes(s, s.len() as int, false);
    assert forall|j: int| 0 <= j < s.len() implies #[trigger] s[j] != ',' || quoted_at(
        s,
        j,
        false,
    ) by {
        assert(s.contains(s[j]));
    }
}

proof fn lemma_concat_is_closed(a: Seq<char>, b: Seq<char>)
    requires
        is_closed(a),
        is_closed(b),
    ensures
        is_closed(a + b),
{
    let s = a + b;
    lemma_quoted_at_concat(a, b, b.len() as int, false);
    assert forall|j: int| 0 <= j < s.len() implies #[trigger] s[j] != ',' || quoted_at(
        s,
        j,
        false,
    ) by {
        if j < a.len() {
            assert(s[j] == a[j]);
            lemma_quoted_at_prefix(a, b, j, false);
        } else {
            assert(s[j] == b[j - a.len()]);
            lemma_quoted_at_concat(a, b, j - a.len(), false);
        }
    }
}

proof fn lemma_quotation_is_closed(value: Seq<char>)
    requires
        !value.contains('"'),
    ensures
        is_closed(seq!['"'] + value + seq!['"']),
{
    let quote = seq!['"'];
    let open = quote + value;
    let s = open + quote;
    reveal_with_fuel(quoted_at, 2);
    assert(quoted_at(quote, 1, false));
    assert forall|i: int| 0 <= i <= value.len() implies #[trigger] quoted_at(s, i + 1, false) by {
        lemma_no_quotes(value, i, true);
        lemma_quoted_at_concat(quote, value, i, false);
        lemma_quoted_at_prefix(open, quote, i + 1, false);
    }
    assert(quoted_at(s, value.len() as int + 1, false));
    assert(s[s.len() - 1] == '"');
    assert(!quoted_at(s, s.len() as int, false));
    assert forall|j: int| 0 <= j < s.len() implies #[trigger] s[j] != ',' || quoted_at(
        s,
        j,
        false,
    ) by {
        if j > 0 {
            assert(quoted_at(s, (j - 1) + 1, false));
        }
    }
}

proof fn lemma_parameter_is_closed(p: WrittenParameter)
    requires
        p.well_formed(),
    ensures
        is_closed(p.text()),
{
    lemma_blank_holds_no(p.before_name, ',');
    lemma_blank_holds_no(p.before_name, '"');
    lemma_blank_holds_no(p.after_name, ',');
    lemma_blank_holds_no(p.after_name, '"');
    lemma_blank_holds_no(p.before_value, ',');
    lemma_blank_holds_no(p.before_value, '"');
    lemma_blank_holds_no(p.after_value, ',');
    lemma_blank_holds_no(p.after_value, '"');
    lemma_plain_is_closed(p.before_name);
    lemma_plain_is_closed(p.name);
    lemma_plain_is_closed(p.after_name);
    lemma_plain_is_closed(p.before_value);
    lemma_plain_is_closed(p.after_value);
    let equals = seq!['='];
    assert(equals[0] != '"' && equals[0] != ',');
    lemma_plain_is_closed(equals);
    if p.quoted {
        lemma_quotation_is_closed(p.value);
    } else {
        lemma_plain_is_closed(p.value);
    }
    let left = p.before_name + p.name + p.after_name;
    lemma_concat_is_closed(p.before_name, p.name);
    lemma_concat_is_closed(p.before_name + p.name, p.after_name);
    lemma_concat_is_closed(left, equals);
    assert(left + equals =~= left.push('='));
    lemma_concat_is_closed(p.before_value, p.written_value());
    lemma_concat_is_closed(p.before_value + p.written_value(), p.after_value);
    lemma_concat_is_closed(
        left.push('='),
        p.before_value + p.written_value() + p.after_value,
    );
}

proof fn lemma_pieces_of_joined(parts: Seq<Seq<char>>)
    requires
        parts.len() > 0,
        forall|i: int| 0 <= i < parts.len() ==> is_closed(#[trigger] parts[i]),
    ensures
        pieces(comma_joined(parts)) == parts,
    decreases parts.len(),
{
    let part = parts[0];
    assert(is_closed(part));
    if parts.len() == 1 {
        lemma_first_comma(part, false, part.len() as int);
        assert(pieces(part) =~= parts);
    } else {
        let others = parts.drop_first();
        assert forall|i: int| 0 <= i < others.len() implies is_closed(#[trigger] others[i]) by {
            assert(others[i] == parts[i + 1]);
        }
        lemma_pieces_of_joined(others);
        let rest = comma_joined(others);
        let s = part + seq![','] + rest;
        let n = part.len() as int;
        let tail = seq![','] + rest;
        assert(s =~= part + tail);
        assert forall|j: int| 0 <= j < n implies #[trigger] s[j] != ',' || quoted_at(s, j, false) by {
            assert(s[j] == part[j]);
            lemma_quoted_at_prefix(part, tail, j, false);
        }
        lemma_quoted_at_prefix(part, tail, n, false);
        assert(s[n] == ',');
        lemma_first_comma(s, false, n);
        assert(s.take(n) =~= part);
        assert(s.skip(n + 1) =~= rest);
        assert(pieces(s) =~= parts);
    }
}

/// The texts of written parameters.
pub open spec fn texts_of(params: Seq<WrittenParameter>) -> Seq<Seq<char>> {
    params.map_values(|p: WrittenParameter| p.text())
}

proof fn lemma_last_value(params: Seq<WrittenParameter>, wanted: Seq<char>, i: int)
    requires
        forall|j: int| 0 <= j < params.len() ==> (#[trigger] params[j]).well_formed(),
        -1 <= i < params.len(),
        i >= 0 ==> text::ascii_lower(params[i].name) == wanted,
        forall|j: int|
            i < j < params.len() ==> text::ascii_lower((#[trigger] params[j]).name) != wanted,
    ensures
        last_value(texts_of(params), wanted) == if i < 0 {
            None
        } else {
            Some(params[i].value)
        },
    decreases params.len(),
{
    if params.len() > 0 {
        let texts = texts_of(params);
        let init = params.drop_last();
        let n = params.len() - 1;
        assert(params[n].well_formed());
        law_a_parameter_reads_back(params[n]);
        assert(texts.last() == params[n].text());
        assert(texts.drop_last() =~= texts_of(init));
        if i < n {
            assert(text::ascii_lower(params[n].name) != wanted);
            assert forall|j: int| 0 <= j < init.len() implies (
            #[trigger] init[j]).well_formed() by {
                assert(init[j] == params[j]);
            }
            assert forall|j: int| i < j < init.len() implies text::ascii_lower(
                (#[trigger] init[j]).name,
            ) != wanted by {
                assert(init[j] == params[j]);
            }
            if i >= 0 {
                assert(init[i] == params[i]);
            }
            lemma_last_value(init, wanted, i);
        }
    }
}

/// A challenge with any number of parameters, in any order, with or without
/// quotes, gives the value of the last `scope` and of the last
/// `resource_metadata` among them, however these names are capitalized, and
/// nothing where there is none.
pub proof fn law_a_challenge_gives_scope_and_link(
    lead: Seq<char>,
    capital: bool,
    params: Seq<WrittenParameter>,
    scope: int,
    link: int,
)
    requires
        text::is_blank(lead),
        params.len() > 0,
        forall|j: int| 0 <= j < params.len() ==> (#[trigger] params[j]).well_formed(),
        !"bearer "@.is_prefix_of(comma_joined(texts_of(params))),
        -1 <= scope < params.len(),
        scope >= 0 ==> text::ascii_lower(params[scope].name) == "scope"@,
        forall|j: int|
            scope < j < params.len() ==> text::ascii_lower((#[trigger] params[j]).name)
                != "scope"@,
        -1 <= link < params.len(),
        link >= 0 ==> text::ascii_lower(params[link].name) == "resource_metadata"@,
        forall|j: int|
            link < j < params.len() ==> text::ascii_lower((#[trigger] params[j]).name)
                != "resource_metadata"@,
    ensures
        ({
            let scheme = if capital {
                "Bearer "@
            } else {
                "bearer "@
            };
            let read = parsed(lead + scheme + comma_joined(texts_of(params)));
            &&& read.scope == if scope < 0 {
                None
            } else {
                Some(params[scope].value)
            }
            &&& read.resource_metadata == if link < 0 {
                None
            } else {
                Some(params[link].value)
            }
        }),
{
    reveal_strlit("Bearer ");
    reveal_strlit("bearer ");
    let scheme = if capital {
        "Bearer "@
    } else {
        "bearer "@
    };
    let rest = comma_joined(texts_of(params));
    let header = lead + scheme + rest;
    let from = scheme + rest;
    assert(header =~= lead + from);
    assert(from[0] == scheme[0]);
    text::law_trimming_one_end(lead, from, CharClass::WhiteSpace);
    text::law_strip(scheme, rest);
    text::law_strip("bearer "@, rest);
    if !capital {
        assert(!"Bearer "@.is_prefix_of(from)) by {
            if "Bearer "@.is_prefix_of(from) {
                assert(from.subrange(0, 7)[0] == from[0]);
            }
        }
    }
    assert(body(header) == rest);
    let texts = texts_of(params);
    assert forall|i: int| 0 <= i < texts.len() implies is_closed(#[trigger] texts[i]) by {
        assert(params[i].well_formed());
        lemma_parameter_is_closed(params[i]);
    }
    lemma_pieces_of_joined(texts);
    lemma_last_value(params, "scope"@, scope);
    lemma_last_value(params, "resource_metadata"@, link);
}

/// What was read is seen whole.
pub proof fn law_challenges_are_seen_whole(www: WwwAuthenticate)
    ensures
        www@.resource_metadata is Some <==> www.resource_metadata is Some,
        www.resource_metadata is Some ==> www@.resource_metadata->0 == www.resource_metadata->0@,
        www@.scope is Some <==> www.scope is Some,
        www.scope is Some ==> www@.scope->0 == www.scope->0@,
{
}

/// A part without an equals sign is passed over.
pub proof fn law_other_parts_are_passed_over(parts: Seq<Seq<char>>, bare: Seq<char>, wanted: Seq<char>)
    requires
        !bare.contains('='),
    ensures
        last_value(parts.push(bare), wanted) == last_value(parts, wanted),
        last_value(Seq::empty(), wanted) is None,
{
    text::law_split_once(bare, '=', Seq::empty());
    assert(parts.push(bare).drop_last() =~= parts);
}

} // verus!
