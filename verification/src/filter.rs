//! Tool name filtering for the local-to-remote proxy.
//!
//! Some MCP servers publish a large catalog of tools, much of which is
//! irrelevant in any given client environment. Two repeatable flags,
//! `--allow-tool` and `--deny-tool`, let the user hide and refuse the rest.
//!
//! Filtering is purely subtractive. With no flags every tool passes. If any
//! `--allow-tool` pattern is given, only the tools that one of them matches
//! are eligible; then any `--deny-tool` match removes the tool. Deny beats
//! allow.
//!
//! Patterns are globs, matched against the whole tool name.

use globset::{Glob, GlobSet, GlobSetBuilder};
use vstd::prelude::*;
use vstd::string::*;

use crate::text;
use crate::text::{split_at_each, trimmed, CharClass};

verus! {

// ---------------------------------------------------------------------------
// The glob engine
// ---------------------------------------------------------------------------

/// One parsed glob of the `globset` crate.
#[verifier::external_type_specification]
#[verifier::external_body]
pub struct ExGlob(globset::Glob);

/// A growing list of globs of the `globset` crate.
#[verifier::external_type_specification]
#[verifier::external_body]
pub struct ExGlobSetBuilder(globset::GlobSetBuilder);

/// A compiled group of globs of the `globset` crate.
#[verifier::external_type_specification]
#[verifier::external_body]
pub struct ExGlobSet(globset::GlobSet);

/// The pattern text that a glob was parsed from.
pub uninterp spec fn glob_pattern(glob: Glob) -> Seq<char>;

/// The pattern texts that a builder holds, in the order they were added.
pub uninterp spec fn builder_patterns(builder: GlobSetBuilder) -> Seq<Seq<char>>;

/// The pattern texts that a compiled set holds, in the order they were added.
pub uninterp spec fn set_patterns(set: GlobSet) -> Seq<Seq<char>>;

/// The text of the error that `Glob::new` gives for `pattern`; `None` where
/// it parses.
pub uninterp spec fn glob_fault(pattern: Seq<char>) -> Option<Seq<char>>;

/// The text of the error that `GlobSetBuilder::build` gives for `patterns`;
/// `None` where they compile.
pub uninterp spec fn set_fault(patterns: Seq<Seq<char>>) -> Option<Seq<char>>;

/// Does the glob `pattern`, as a member of a compiled set, match `name`?
pub uninterp spec fn glob_matches(pattern: Seq<char>, name: Seq<char>) -> bool;

/// What `{:?}` prints for a string.
pub uninterp spec fn debug_text(s: Seq<char>) -> Seq<char>;

/// Does any of the globs `patterns` match `name`?
pub open spec fn any_matches(patterns: Seq<Seq<char>>, name: Seq<char>) -> bool {
    exists|i: int| 0 <= i < patterns.len() && glob_matches(#[trigger] patterns[i], name)
}

/// `globset::Glob::new`. Claims that the outcome depends on the pattern
/// alone, that a glob keeps the text it was parsed from, and that a refusal
/// carries the text of the error. How a backslash reads is fixed by the
/// platform that the crate is built for.
#[verifier::external_body]
fn parse_glob(pattern: &str) -> (r: Result<Glob, String>)
    ensures
        match r {
            Ok(glob) => glob_fault(pattern@) is None && glob_pattern(glob) == pattern@,
            Err(e) => glob_fault(pattern@) == Some(e@),
        },
{
    Glob::new(pattern).map_err(|e| e.to_string())
}

/// `globset::GlobSetBuilder::new`. Claims that a new builder holds nothing.
#[verifier::external_body]
fn new_builder() -> (r: GlobSetBuilder)
    ensures
        builder_patterns(r) == Seq::<Seq<char>>::empty(),
{
    GlobSetBuilder::new()
}

/// `globset::GlobSetBuilder::add`. Claims that the glob goes to the end of
/// what the builder holds.
#[verifier::external_body]
fn add_glob(builder: &mut GlobSetBuilder, glob: Glob)
    ensures
        builder_patterns(*final(builder)) == builder_patterns(*old(builder)).push(
            glob_pattern(glob),
        ),
{
    builder.add(glob);
}

/// `globset::GlobSetBuilder::build`. Claims that the outcome depends on the
/// patterns alone, that the set holds what the builder held, and that a
/// refusal carries the text of the error.
#[verifier::external_body]
fn build_globs(builder: &GlobSetBuilder) -> (r: Result<GlobSet, String>)
    ensures
        match r {
            Ok(set) => set_fault(builder_patterns(*builder)) is None && set_patterns(set)
                == builder_patterns(*builder),
            Err(e) => set_fault(builder_patterns(*builder)) == Some(e@),
        },
{
    builder.build().map_err(|e| e.to_string())
}

/// `globset::GlobSet::empty`. Claims that the set holds nothing.
#[verifier::external_body]
fn empty_set() -> (r: GlobSet)
    ensures
        set_patterns(r) == Seq::<Seq<char>>::empty(),
{
    GlobSet::empty()
}

/// `globset::GlobSet::is_empty`. Claims to tell whether the set holds nothing.
#[verifier::external_body]
fn set_is_empty(set: &GlobSet) -> (r: bool)
    ensures
        r == (set_patterns(*set).len() == 0),
{
    set.is_empty()
}

/// `globset::GlobSet::is_match`. Claims that a set matches a name exactly if
/// one of its globs does, and that whether a glob does depends on its
/// pattern and the name alone.
#[verifier::external_body]
fn set_is_match(set: &GlobSet, name: &str) -> (r: bool)
    ensures
        r == (exists|i: int|
            0 <= i < set_patterns(*set).len() && glob_matches(
                #[trigger] set_patterns(*set)[i],
                name@,
            )),
{
    set.is_match(name)
}

/// `globset::GlobSet::clone`. Claims that the copy holds what the set holds.
#[verifier::external_body]
fn copy_set(set: &GlobSet) -> (r: GlobSet)
    ensures
        set_patterns(r) == set_patterns(*set),
{
    set.clone()
}

/// The `Debug` form of a string slice. Claims only that it depends on the
/// string alone.
#[verifier::external_body]
fn quoted(s: &str) -> (r: String)
    ensures
        r@ == debug_text(s@),
{
    format!("{s:?}")
}

// ---------------------------------------------------------------------------
// Patterns on the command line
// ---------------------------------------------------------------------------

/// The patterns of one value of a flag: what stands between its commas,
/// without surrounding white space, blank ones left out.
pub open spec fn entry_patterns(entry: Seq<char>) -> Seq<Seq<char>> {
    text::non_empty(trimmed_pieces(entry))
}

/// What stands between the commas of `entry`, without surrounding white space.
pub open spec fn trimmed_pieces(entry: Seq<char>) -> Seq<Seq<char>> {
    text::split(entry, CharClass::Only(',')).map_values(
        |p: Seq<char>| text::trim(p, CharClass::WhiteSpace),
    )
}

/// The patterns of all values of a repeatable flag, in order.
pub open spec fn patterns(raw: Seq<Seq<char>>) -> Seq<Seq<char>>
    decreases raw.len(),
{
    if raw.len() == 0 {
        seq![]
    } else {
        patterns(raw.drop_last()) + entry_patterns(raw.last())
    }
}

/// The patterns of one value of a flag.
fn patterns_of_entry(entry: &str) -> (out: Vec<String>)
    ensures
        text::texts(out@) == entry_patterns(entry@),
{
    let pieces: Vec<&str> = split_at_each(entry, CharClass::Only(','));
    let ghost all = trimmed_pieces(entry@);
    let mut out: Vec<String> = Vec::new();
    let mut i: usize = 0;
    assert(all.take(0) =~= seq![]);
    while i < pieces.len()
        invariant
            all == trimmed_pieces(entry@),
            text::slices(pieces@) == text::split(entry@, CharClass::Only(',')),
            all.len() == pieces.len(),
            i <= pieces.len(),
            text::texts(out@) == text::non_empty(all.take(i as int)),
        decreases pieces.len() - i,
    {
        let pattern: &str = trimmed(pieces[i], CharClass::WhiteSpace);
        let ghost before = text::texts(out@);
        proof {
            assert(text::slices(pieces@)[i as int] == pieces@[i as int]@);
            assert(all[i as int] == pattern@);
            assert(all.take(i + 1) =~= all.take(i as int) + seq![pattern@]);
            text::lemma_non_empty_concat(all.take(i as int), seq![pattern@]);
            reveal_with_fuel(text::non_empty, 2);
        }
        if !pattern.is_empty() {
            out.push(pattern.to_string());
            assert(text::texts(out@) =~= before + seq![pattern@]);
        } else {
            assert(before + Seq::<Seq<char>>::empty() =~= before);
        }
        i += 1;
    }
    assert(all.take(all.len() as int) =~= all);
    out
}

/// The patterns of all values of a repeatable flag, in order.
pub fn patterns_of(raw: &[String]) -> (out: Vec<String>)
    ensures
        text::texts(out@) == patterns(text::texts(raw@)),
{
    let ghost all = text::texts(raw@);
    let mut out: Vec<String> = Vec::new();
    let mut i: usize = 0;
    assert(all.take(0) =~= seq![]);
    while i < raw.len()
        invariant
            all == text::texts(raw@),
            i <= raw.len(),
            text::texts(out@) == patterns(all.take(i as int)),
        decreases raw.len() - i,
    {
        let ghost before = text::texts(out@);
        let mut more: Vec<String> = patterns_of_entry(raw[i].as_str());
        let ghost added = text::texts(more@);
        out.append(&mut more);
        proof {
            assert(text::texts(out@) =~= before + added);
            assert(all.take(i + 1).drop_last() =~= all.take(i as int));
        }
        i += 1;
    }
    assert(all.take(all.len() as int) =~= all);
    out
}

// ---------------------------------------------------------------------------
// Errors
// ---------------------------------------------------------------------------

/// Why the tool filter flags could not be compiled.
#[derive(Debug, Clone, PartialEq, Eq)]
pub enum FilterError {
    /// A pattern is not a glob.
    InvalidPattern { flag: String, pattern: String, cause: String },
    /// The globs of one flag do not compile together.
    Uncompilable { flag: String, cause: String },
}

/// The view of a [`FilterError`].
pub enum FilterErrorView {
    InvalidPattern { flag: Seq<char>, pattern: Seq<char>, cause: Seq<char> },
    Uncompilable { flag: Seq<char>, cause: Seq<char> },
}

impl View for FilterError {
    type V = FilterErrorView;

    open spec fn view(&self) -> FilterErrorView {
        match self {
            FilterError::InvalidPattern { flag, pattern, cause } => {
                FilterErrorView::InvalidPattern { flag: flag@, pattern: pattern@, cause: cause@ }
            },
            FilterError::Uncompilable { flag, cause } => {
                FilterErrorView::Uncompilable { flag: flag@, cause: cause@ }
            },
        }
    }
}

impl FilterErrorView {
    /// What the user is told, without the cause.
    pub open spec fn message(self) -> Seq<char> {
        match self {
            FilterErrorView::InvalidPattern { flag, pattern, .. } => flag
                + ": invalid glob pattern "@ + debug_text(pattern),
            FilterErrorView::Uncompilable { flag, .. } => flag + ": failed to compile glob set"@,
        }
    }

    /// The cause, in the words of the glob engine.
    pub open spec fn cause(self) -> Seq<char> {
        match self {
            FilterErrorView::InvalidPattern { cause, .. } => cause,
            FilterErrorView::Uncompilable { cause, .. } => cause,
        }
    }
}

impl FilterError {
    /// What the user is told, without the cause.
    pub fn message(&self) -> (r: String)
        ensures
            r@ == self@.message(),
    {
        match self {
            FilterError::InvalidPattern { flag, pattern, .. } => {
                let mut out: String = flag.clone();
                out.append(": invalid glob pattern ");
                out.append(quoted(pattern.as_str()).as_str());
                out
            },
            FilterError::Uncompilable { flag, .. } => {
                let mut out: String = flag.clone();
                out.append(": failed to compile glob set");
                out
            },
        }
    }

    /// What the user is told, followed by the cause.
    pub fn full_message(&self) -> (r: String)
        ensures
            r@ == self@.message() + ": "@ + self@.cause(),
    {
        let mut out: String = self.message();
        out.append(": ");
        match self {
            FilterError::InvalidPattern { cause, .. } => out.append(cause.as_str()),
            FilterError::Uncompilable { cause, .. } => out.append(cause.as_str()),
        }
        out
    }
}

// ---------------------------------------------------------------------------
// The filter
// ---------------------------------------------------------------------------

/// The position of the first of `pats` that is not a glob; `pats.len()` if
/// all of them are.
pub open spec fn first_fault(pats: Seq<Seq<char>>) -> int
    decreases pats.len(),
{
    if pats.len() == 0 || glob_fault(pats[0]) is Some {
        0
    } else {
        1 + first_fault(pats.drop_first())
    }
}

/// What the patterns of one flag compile to: the error for the first that is
/// not a glob, or the error of compiling them together, or the patterns
/// themselves; `None` where there are none.
pub open spec fn compiled(flag: Seq<char>, pats: Seq<Seq<char>>) -> Result<
    Option<Seq<Seq<char>>>,
    FilterErrorView,
> {
    let i = first_fault(pats);
    if 0 <= i < pats.len() {
        Err(
            FilterErrorView::InvalidPattern {
                flag,
                pattern: pats[i],
                cause: glob_fault(pats[i])->0,
            },
        )
    } else if pats.len() == 0 {
        Ok(None)
    } else if set_fault(pats) is Some {
        Err(FilterErrorView::Uncompilable { flag, cause: set_fault(pats)->0 })
    } else {
        Ok(Some(pats))
    }
}

/// The patterns that a filter holds.
pub struct FilterView {
    /// The allow-list; `None` admits any name that is not denied.
    pub allow: Option<Seq<Seq<char>>>,
    /// The deny-list.
    pub deny: Seq<Seq<char>>,
}

impl FilterView {
    /// Does the filter let `name` through?
    pub open spec fn permits(self, name: Seq<char>) -> bool {
        &&& self.allow matches Some(pats) ==> any_matches(pats, name)
        &&& !any_matches(self.deny, name)
    }

    /// Is the filter without any pattern?
    pub open spec fn is_noop(self) -> bool {
        self.allow is None && self.deny.len() == 0
    }
}

/// The filter that the values of the two flags stand for.
pub open spec fn filter_of(allow: Seq<Seq<char>>, deny: Seq<Seq<char>>) -> Result<
    FilterView,
    FilterErrorView,
> {
    match compiled("--allow-tool"@, patterns(allow)) {
        Err(e) => Err(e),
        Ok(a) => match compiled("--deny-tool"@, patterns(deny)) {
            Err(e) => Err(e),
            Ok(d) => Ok(
                FilterView {
                    allow: a,
                    deny: match d {
                        Some(pats) => pats,
                        None => seq![],
                    },
                },
            ),
        },
    }
}

/// Compiled allow and deny patterns applied to tool names.
///
/// Build it once with [`ToolFilter::from_cli`], then ask
/// [`ToolFilter::permits`] for each tool name.
#[derive(Debug)]
pub struct ToolFilter {
    allow: Option<GlobSet>,
    deny: GlobSet,
    is_noop: bool,
}

impl View for ToolFilter {
    type V = FilterView;

    closed spec fn view(&self) -> FilterView {
        FilterView {
            allow: match self.allow {
                Some(set) => Some(set_patterns(set)),
                None => None,
            },
            deny: set_patterns(self.deny),
        }
    }
}

/// Decides on a tool from what the two lists say of its name: `allow` is
/// `None` where there is no allow-list.
pub fn decide(allow: Option<bool>, deny: bool) -> (r: bool)
    ensures
        r == (allow != Some(false) && !deny),
{
    let allowed: bool = match allow {
        Some(m) => m,
        None => true,
    };
    allowed && !deny
}

/// Compiles the values of one flag; `Ok(None)` where they hold no pattern.
fn build_set(raw: &[String], flag: &str) -> (r: Result<Option<GlobSet>, FilterError>)
    ensures
        match r {
            Ok(Some(set)) => compiled(flag@, patterns(text::texts(raw@))) == Ok::<
                _,
                FilterErrorView,
            >(Some(set_patterns(set))),
            Ok(None) => compiled(flag@, patterns(text::texts(raw@))) == Ok::<
                _,
                FilterErrorView,
            >(None::<Seq<Seq<char>>>),
            Err(e) => compiled(flag@, patterns(text::texts(raw@))) == Err::<
                Option<Seq<Seq<char>>>,
                _,
            >(e@),
        },
{
    let pats: Vec<String> = patterns_of(raw);
    let ghost all = text::texts(pats@);
    let mut builder: GlobSetBuilder = new_builder();
    let mut i: usize = 0;
    assert(all.take(0) =~= seq![]);
    while i < pats.len()
        invariant
            all == text::texts(pats@),
            all == patterns(text::texts(raw@)),
            i <= pats.len(),
            forall|j: int| 0 <= j < i ==> glob_fault(#[trigger] all[j]) is None,
            builder_patterns(builder) == all.take(i as int),
        decreases pats.len() - i,
    {
        match parse_glob(pats[i].as_str()) {
            Ok(glob) => {
                assert(glob_pattern(glob) == all[i as int]);
                add_glob(&mut builder, glob);
                assert(all.take(i + 1) =~= all.take(i as int).push(all[i as int]));
            },
            Err(e) => {
                assert(pats@[i as int]@ == all[i as int]);
                proof {
                    lemma_first_fault(all, i as int);
                }
                return Err(
                    FilterError::InvalidPattern {
                        flag: flag.to_string(),
                        pattern: pats[i].clone(),
                        cause: e,
                    },
                );
            },
        }
        i += 1;
    }
    proof {
        lemma_first_fault(all, all.len() as int);
        assert(all.take(all.len() as int) =~= all);
    }
    if pats.len() == 0 {
        return Ok(None);
    }
    match build_globs(&builder) {
        Ok(set) => Ok(Some(set)),
        Err(e) => Err(FilterError::Uncompilable { flag: flag.to_string(), cause: e }),
    }
}

proof fn lemma_first_fault(pats: Seq<Seq<char>>, i: int)
    requires
        0 <= i <= pats.len(),
        forall|j: int| 0 <= j < i ==> glob_fault(#[trigger] pats[j]) is None,
        i < pats.len() ==> glob_fault(pats[i]) is Some,
    ensures
        first_fault(pats) == i,
    decreases pats.len(),
{
    if pats.len() > 0 && i > 0 {
        assert(glob_fault(pats[0]) is None);
        let t = pats.drop_first();
        assert forall|j: int| 0 <= j < i - 1 implies glob_fault(#[trigger] t[j]) is None by {
            assert(t[j] == pats[j + 1]);
        }
        lemma_first_fault(t, i - 1);
    }
}

impl ToolFilter {
    #[verifier::type_invariant]
    spec fn well_formed(self) -> bool {
        self.is_noop == (self.allow is None && set_patterns(self.deny).len() == 0)
    }

    /// Builds a filter from the values of the two flags. Each value may hold
    /// several patterns separated by commas; blank ones are skipped.
    pub fn from_cli(allow: &[String], deny: &[String]) -> (r: Result<ToolFilter, FilterError>)
        ensures
            match r {
                Ok(f) => filter_of(text::texts(allow@), text::texts(deny@)) == Ok::<
                    _,
                    FilterErrorView,
                >(f@),
                Err(e) => filter_of(text::texts(allow@), text::texts(deny@)) == Err::<
                    FilterView,
                    _,
                >(e@),
            },
    {
        let allow_set: Option<GlobSet> = match build_set(allow, "--allow-tool") {
            Ok(set) => set,
            Err(e) => {
                return Err(e);
            },
        };
        let deny_set: GlobSet = match build_set(deny, "--deny-tool") {
            Ok(Some(set)) => set,
            Ok(None) => empty_set(),
            Err(e) => {
                return Err(e);
            },
        };
        let is_noop: bool = allow_set.is_none() && set_is_empty(&deny_set);
        Ok(ToolFilter { allow: allow_set, deny: deny_set, is_noop })
    }

    /// The filter that admits every tool.
    pub fn allow_all() -> (r: ToolFilter)
        ensures
            r@.is_noop(),
    {
        ToolFilter { allow: None, deny: empty_set(), is_noop: true }
    }

    /// Does this filter let `name` through?
    pub fn permits(&self, name: &str) -> (r: bool)
        ensures
            r == self@.permits(name@),
    {
        proof {
            use_type_invariant(self);
        }
        if self.is_noop {
            return true;
        }
        let allowed: Option<bool> = match &self.allow {
            Some(set) => Some(set_is_match(set, name)),
            None => None,
        };
        decide(allowed, set_is_match(&self.deny, name))
    }

    /// Is the filter without any pattern?
    pub fn is_noop(&self) -> (r: bool)
        ensures
            r == self@.is_noop(),
    {
        proof {
            use_type_invariant(self);
        }
        self.is_noop
    }
}

impl Clone for ToolFilter {
    fn clone(&self) -> (r: ToolFilter)
        ensures
            r@ == self@,
    {
        proof {
            use_type_invariant(self);
        }
        let allow: Option<GlobSet> = match &self.allow {
            Some(set) => Some(copy_set(set)),
            None => None,
        };
        ToolFilter { allow, deny: copy_set(&self.deny), is_noop: self.is_noop }
    }
}

impl Default for ToolFilter {
    fn default() -> (r: ToolFilter)
        ensures
            r@.is_noop(),
    {
        ToolFilter::allow_all()
    }
}

// ---------------------------------------------------------------------------
// Laws
// ---------------------------------------------------------------------------

/// Without patterns the flags always compile, and every name passes.
pub proof fn law_blank_flags_admit_everything(
    allow: Seq<Seq<char>>,
    deny: Seq<Seq<char>>,
    name: Seq<char>,
)
    requires
        patterns(allow).len() == 0,
        patterns(deny).len() == 0,
    ensures
        filter_of(allow, deny) matches Ok(f) && f.is_noop() && f.permits(name),
{
}

/// A filter without patterns lets every name through.
pub proof fn law_noop_permits(f: FilterView, name: Seq<char>)
    requires
        f.is_noop(),
    ensures
        f.permits(name),
{
}

/// A name that the deny-list matches is refused, whatever the allow-list says.
pub proof fn law_deny_beats_allow(f: FilterView, name: Seq<char>)
    requires
        any_matches(f.deny, name),
    ensures
        !f.permits(name),
{
}

/// With an allow-list, only the names that it matches can pass.
pub proof fn law_allow_list_is_exclusive(f: FilterView, pats: Seq<Seq<char>>, name: Seq<char>)
    requires
        f.allow == Some(pats),
        f.permits(name),
    ensures
        any_matches(pats, name),
{
}

/// Filtering is subtractive: more deny patterns never let more names through.
pub proof fn law_more_denied_never_admits_more(
    f: FilterView,
    more: Seq<Seq<char>>,
    name: Seq<char>,
)
    requires
        (FilterView { allow: f.allow, deny: f.deny + more }).permits(name),
    ensures
        f.permits(name),
{
    if any_matches(f.deny, name) {
        let i = choose|i: int|
            0 <= i < f.deny.len() && glob_matches(#[trigger] f.deny[i], name);
        assert((f.deny + more)[i] == f.deny[i]);
    }
}

/// Filtering is subtractive: an allow-list never lets through a name that
/// would not pass without it.
pub proof fn law_allow_list_never_admits_more(f: FilterView, name: Seq<char>)
    requires
        f.permits(name),
    ensures
        (FilterView { allow: None, deny: f.deny }).permits(name),
{
}

/// One value with a comma between two parts holds the patterns of the two
/// parts given as two values.
pub proof fn law_comma_is_a_repeated_flag(a: Seq<char>, b: Seq<char>)
    ensures
        patterns(seq![a.push(',') + b]) == patterns(seq![a, b]),
{
    let k = CharClass::Only(',');
    let f = |p: Seq<char>| text::trim(p, CharClass::WhiteSpace);
    text::lemma_split_joined(a, ',', b, k);
    let joined = a.push(',') + b;
    assert(trimmed_pieces(joined) =~= trimmed_pieces(a) + trimmed_pieces(b));
    text::lemma_non_empty_concat(trimmed_pieces(a), trimmed_pieces(b));
    reveal_with_fuel(patterns, 3);
    assert(seq![joined].drop_last() =~= seq![]);
    assert(seq![a, b].drop_last() =~= seq![a]);
    assert(seq![a].drop_last() =~= seq![]);
    assert(patterns(seq![joined]) =~= patterns(seq![a, b]));
}

/// Leaving out a value that holds no pattern changes nothing.
pub proof fn law_blank_values_are_ignored(
    before: Seq<Seq<char>>,
    blank: Seq<char>,
    after: Seq<Seq<char>>,
)
    requires
        entry_patterns(blank).len() == 0,
    ensures
        patterns(before.push(blank) + after) == patterns(before + after),
    decreases after.len(),
{
    let with = before.push(blank) + after;
    let without = before + after;
    if after.len() == 0 {
        assert(with =~= before.push(blank));
        assert(with.drop_last() =~= before);
        assert(without =~= before);
        assert(patterns(with) =~= patterns(before));
    } else {
        assert(with.drop_last() =~= before.push(blank) + after.drop_last());
        assert(without.drop_last() =~= before + after.drop_last());
        law_blank_values_are_ignored(before, blank, after.drop_last());
    }
}

/// Does `entry` hold the stretch from `i` to `j` between two commas, or
/// between a comma and one of its ends?
pub open spec fn is_stretch(entry: Seq<char>, i: int, j: int) -> bool {
    &&& 0 <= i <= j <= entry.len()
    &&& i == 0 || entry[i - 1] == ','
    &&& j == entry.len() || entry[j] == ','
    &&& forall|m: int| i <= m < j ==> #[trigger] entry[m] != ','
}

/// Is `p` one of the patterns that the value `entry` lists between commas?
pub open spec fn lists(entry: Seq<char>, p: Seq<char>) -> bool {
    p.len() > 0 && exists|i: int, j: int| #[trigger]
        is_stretch(entry, i, j) && p == text::trim(entry.subrange(i, j), CharClass::WhiteSpace)
}

/// Is `p` one of the patterns that some value of a flag lists?
pub open spec fn lists_any(raw: Seq<Seq<char>>, p: Seq<char>) -> bool {
    exists|i: int| 0 <= i < raw.len() && lists(#[trigger] raw[i], p)
}

/// Does some value of a flag list a pattern that matches `name`?
pub open spec fn names_it(raw: Seq<Seq<char>>, name: Seq<char>) -> bool {
    exists|p: Seq<char>| #[trigger] lists_any(raw, p) && glob_matches(p, name)
}

/// Does some value of a flag list a pattern at all?
pub open spec fn lists_something(raw: Seq<Seq<char>>) -> bool {
    exists|p: Seq<char>| lists_any(raw, p)
}

proof fn lemma_stretch_is_piece(entry: Seq<char>, i: int, j: int)
    requires
        is_stretch(entry, i, j),
    ensures
        text::split(entry, CharClass::Only(',')).contains(entry.subrange(i, j)),
{
    let k = CharClass::Only(',');
    let piece = entry.subrange(i, j);
    assert forall|m: int| 0 <= m < piece.len() implies !k.has(#[trigger] piece[m]) by {
        assert(piece[m] == entry[i + m]);
    }
    text::law_split_of_one_piece(piece, k);
    let tail = entry.skip(i);
    if j < entry.len() {
        let rest = entry.skip(j + 1);
        assert(tail =~= piece.push(',') + rest);
        text::lemma_split_joined(piece, ',', rest, k);
    } else {
        assert(tail =~= piece);
    }
    assert(text::split(tail, k)[0] == piece);
    if i > 0 {
        let head = entry.take(i - 1);
        assert(entry =~= head.push(',') + tail);
        text::lemma_split_joined(head, ',', tail, k);
        assert(text::split(entry, k)[text::split(head, k).len() as int] == piece);
    } else {
        assert(entry =~= tail);
    }
}

proof fn lemma_piece_is_stretch(entry: Seq<char>, m: int) -> (r: (int, int))
    requires
        0 <= m < text::split(entry, CharClass::Only(',')).len(),
    ensures
        is_stretch(entry, r.0, r.1),
        text::split(entry, CharClass::Only(','))[m] == entry.subrange(r.0, r.1),
    decreases entry.len(),
{
    let k = CharClass::Only(',');
    text::lemma_first_of_bounds(entry, k);
    let n = text::first_of(entry, k);
    if n < entry.len() && m > 0 {
        let rest = entry.skip(n + 1);
        assert(text::split(entry, k)[m] == text::split(rest, k)[m - 1]);
        let (i, j) = lemma_piece_is_stretch(rest, m - 1);
        let (x, y) = (i + n + 1, j + n + 1);
        assert(rest.subrange(i, j) =~= entry.subrange(x, y));
        if i > 0 {
            assert(rest[i - 1] == entry[x - 1]);
        }
        if j < rest.len() {
            assert(rest[j] == entry[y]);
        }
        assert forall|q: int| x <= q < y implies #[trigger] entry[q] != ',' by {
            assert(rest[q - n - 1] == entry[q]);
        }
        (x, y)
    } else {
        assert forall|q: int| 0 <= q < n implies #[trigger] entry[q] != ',' by {
            assert(!k.has(entry[q]));
        }
        if n < entry.len() {
            assert(entry.take(n) =~= entry.subrange(0, n));
        } else {
            assert(entry =~= entry.subrange(0, n));
        }
        (0, n)
    }
}

proof fn lemma_non_empty_contains(v: Seq<Seq<char>>, p: Seq<char>)
    ensures
        text::non_empty(v).contains(p) <==> v.contains(p) && p.len() > 0,
    decreases v.len(),
{
    if v.len() > 0 {
        let rest = v.drop_first();
        lemma_non_empty_contains(rest, p);
        let all = text::non_empty(v);
        let more = text::non_empty(rest);
        if v.contains(p) {
            let i = choose|i: int| 0 <= i < v.len() && v[i] == p;
            if i > 0 {
                assert(rest[i - 1] == p);
            }
        }
        if rest.contains(p) {
            let i = choose|i: int| 0 <= i < rest.len() && rest[i] == p;
            assert(v[i + 1] == p);
        }
        if v[0].len() > 0 {
            assert(all[0] == v[0]);
            if more.contains(p) {
                let i = choose|i: int| 0 <= i < more.len() && more[i] == p;
                assert(all[i + 1] == p);
            }
            if all.contains(p) {
                let i = choose|i: int| 0 <= i < all.len() && all[i] == p;
                if i > 0 {
                    assert(more[i - 1] == p);
                }
            }
        }
    }
}

/// The patterns of a value are what stands between its commas, trimmed, and
/// not empty.
pub proof fn law_patterns_stand_between_commas(entry: Seq<char>, p: Seq<char>)
    ensures
        entry_patterns(entry).contains(p) <==> lists(entry, p),
{
    let pieces = text::split(entry, CharClass::Only(','));
    let trimmed = trimmed_pieces(entry);
    lemma_non_empty_contains(trimmed, p);
    if trimmed.contains(p) && p.len() > 0 {
        let m = choose|m: int| 0 <= m < trimmed.len() && trimmed[m] == p;
        let (i, j) = lemma_piece_is_stretch(entry, m);
        assert(is_stretch(entry, i, j));
        assert(trimmed[m] == text::trim(pieces[m], CharClass::WhiteSpace));
    }
    if lists(entry, p) {
        let (i, j) = choose|i: int, j: int| #[trigger]
            is_stretch(entry, i, j) && p == text::trim(
                entry.subrange(i, j),
                CharClass::WhiteSpace,
            );
        lemma_stretch_is_piece(entry, i, j);
        let m = choose|m: int| 0 <= m < pieces.len() && pieces[m] == entry.subrange(i, j);
        assert(trimmed[m] == p);
    }
}

/// The patterns of a repeatable flag are those of all its values.
pub proof fn law_every_value_of_a_flag_counts(raw: Seq<Seq<char>>, p: Seq<char>)
    ensures
        patterns(raw).contains(p) <==> lists_any(raw, p),
    decreases raw.len(),
{
    if raw.len() > 0 {
        let init = raw.drop_last();
        let old = patterns(init);
        let new = entry_patterns(raw.last());
        law_every_value_of_a_flag_counts(init, p);
        law_patterns_stand_between_commas(raw.last(), p);
        assert(patterns(raw).contains(p) <==> old.contains(p) || new.contains(p)) by {
            let all = patterns(raw);
            if old.contains(p) {
                let i = choose|i: int| 0 <= i < old.len() && old[i] == p;
                assert(all[i] == p);
            }
            if new.contains(p) {
                let i = choose|i: int| 0 <= i < new.len() && new[i] == p;
                assert(all[old.len() + i] == p);
            }
            if all.contains(p) {
                let i = choose|i: int| 0 <= i < all.len() && all[i] == p;
                if i < old.len() {
                    assert(old[i] == p);
                } else {
                    assert(new[i - old.len()] == p);
                }
            }
        }
        if lists_any(init, p) {
            let i = choose|i: int| 0 <= i < init.len() && lists(#[trigger] init[i], p);
            assert(raw[i] == init[i]);
        }
        if lists_any(raw, p) {
            let i = choose|i: int| 0 <= i < raw.len() && lists(#[trigger] raw[i], p);
            if i < init.len() {
                assert(init[i] == raw[i]);
            }
        }
        if lists(raw.last(), p) {
            assert(raw[raw.len() - 1] == raw.last());
        }
    }
}

proof fn lemma_any_matches(raw: Seq<Seq<char>>, name: Seq<char>)
    ensures
        any_matches(patterns(raw), name) <==> names_it(raw, name),
        patterns(raw).len() > 0 <==> lists_something(raw),
{
    let pats = patterns(raw);
    if any_matches(pats, name) {
        let i = choose|i: int| 0 <= i < pats.len() && glob_matches(#[trigger] pats[i], name);
        assert(pats.contains(pats[i]));
        law_every_value_of_a_flag_counts(raw, pats[i]);
    }
    if names_it(raw, name) {
        let p = choose|p: Seq<char>| #[trigger] lists_any(raw, p) && glob_matches(p, name);
        law_every_value_of_a_flag_counts(raw, p);
        let i = choose|i: int| 0 <= i < pats.len() && pats[i] == p;
        assert(glob_matches(pats[i], name));
    }
    if pats.len() > 0 {
        assert(pats.contains(pats[0]));
        law_every_value_of_a_flag_counts(raw, pats[0]);
    }
    if lists_something(raw) {
        let p = choose|p: Seq<char>| lists_any(raw, p);
        law_every_value_of_a_flag_counts(raw, p);
    }
}

/// A tool passes if and only if no pattern of any `--deny-tool` matches its
/// name, and some pattern of some `--allow-tool` does, unless none was given.
pub proof fn law_what_the_flags_mean(
    allow: Seq<Seq<char>>,
    deny: Seq<Seq<char>>,
    f: FilterView,
    name: Seq<char>,
)
    requires
        filter_of(allow, deny) == Ok::<_, FilterErrorView>(f),
    ensures
        f.permits(name) <==> !names_it(deny, name) && (lists_something(allow) ==> names_it(
            allow,
            name,
        )),
        f.is_noop() <==> !lists_something(allow) && !lists_something(deny),
{
    lemma_any_matches(allow, name);
    lemma_any_matches(deny, name);
    if patterns(deny).len() == 0 {
        assert(patterns(deny) =~= seq![]);
    }
}

/// Every pattern of every `--deny-tool` takes away the tools that it matches,
/// however it stands among other patterns.
pub proof fn law_every_denied_pattern_is_enforced(
    allow: Seq<Seq<char>>,
    deny: Seq<Seq<char>>,
    f: FilterView,
    i: int,
    before: Seq<char>,
    a: Seq<char>,
    p: Seq<char>,
    b: Seq<char>,
    after: Seq<char>,
    name: Seq<char>,
)
    requires
        filter_of(allow, deny) == Ok::<_, FilterErrorView>(f),
        0 <= i < deny.len(),
        deny[i] == before + (a + p + b) + after,
        before.len() == 0 || before.last() == ',',
        after.len() == 0 || after[0] == ',',
        forall|j: int| 0 <= j < a.len() ==> text::is_white_space(#[trigger] a[j]),
        forall|j: int| 0 <= j < b.len() ==> text::is_white_space(#[trigger] b[j]),
        p.len() > 0,
        !p.contains(','),
        !text::is_white_space(p[0]),
        !text::is_white_space(p.last()),
        glob_matches(p, name),
    ensures
        !f.permits(name),
{
    let entry = deny[i];
    let inner = a + p + b;
    let x = before.len() as int;
    let y = x + inner.len();
    assert(entry.subrange(x, y) =~= inner);
    text::lemma_trim_around(a, p, b, CharClass::WhiteSpace);
    assert forall|m: int| x <= m < y implies #[trigger] entry[m] != ',' by {
        assert(entry[m] == inner[m - x]);
        if m - x < a.len() {
            assert(inner[m - x] == a[m - x]);
        } else if m - x < a.len() + p.len() {
            assert(inner[m - x] == p[m - x - a.len()]);
        } else {
            assert(inner[m - x] == b[m - x - a.len() - p.len()]);
        }
    }
    if x > 0 {
        assert(entry[x - 1] == before.last());
    }
    if y < entry.len() {
        assert(entry[y] == after[0]);
    }
    assert(is_stretch(entry, x, y));
    assert(lists(entry, p));
    assert(lists_any(deny, p));
    law_what_the_flags_mean(allow, deny, f, name);
}

/// The flags are refused if and only if one of their patterns is no glob or
/// the globs of one flag do not compile together; `--allow-tool` is looked at
/// first, and the error names the flag, the pattern and the cause.
pub proof fn law_bad_patterns_are_reported(allow: Seq<Seq<char>>, deny: Seq<Seq<char>>)
    ensures
        ({
            let good = |raw: Seq<Seq<char>>|
                {
                    &&& forall|p: Seq<char>| #[trigger]
                        lists_any(raw, p) ==> glob_fault(p) is None
                    &&& lists_something(raw) ==> set_fault(patterns(raw)) is None
                };
            &&& filter_of(allow, deny) is Ok <==> good(allow) && good(deny)
            &&& filter_of(allow, deny) matches Err(e) ==> {
                let raw = if good(allow) {
                    deny
                } else {
                    allow
                };
                let named = if good(allow) {
                    "--deny-tool"@
                } else {
                    "--allow-tool"@
                };
                match e {
                    FilterErrorView::InvalidPattern { flag, pattern, cause } => flag == named
                        && lists_any(raw, pattern) && glob_fault(pattern) == Some(cause),
                    FilterErrorView::Uncompilable { flag, cause } => flag == named && set_fault(
                        patterns(raw),
                    ) == Some(cause),
                }
            }
        }),
{
    lemma_compiled_or_not("--allow-tool"@, allow);
    lemma_compiled_or_not("--deny-tool"@, deny);
}

proof fn lemma_first_fault_bounds(pats: Seq<Seq<char>>)
    ensures
        0 <= first_fault(pats) <= pats.len(),
        forall|j: int| 0 <= j < first_fault(pats) ==> glob_fault(#[trigger] pats[j]) is None,
        first_fault(pats) < pats.len() ==> glob_fault(pats[first_fault(pats)]) is Some,
    decreases pats.len(),
{
    if pats.len() > 0 && glob_fault(pats[0]) is None {
        let t = pats.drop_first();
        lemma_first_fault_bounds(t);
        assert forall|j: int| 0 <= j < first_fault(pats) implies glob_fault(
            #[trigger] pats[j],
        ) is None by {
            if j > 0 {
                assert(t[j - 1] == pats[j]);
            }
        }
        if first_fault(pats) < pats.len() {
            assert(t[first_fault(t)] == pats[first_fault(pats)]);
        }
    }
}

proof fn lemma_compiled_or_not(flag: Seq<char>, raw: Seq<Seq<char>>)
    ensures
        compiled(flag, patterns(raw)) is Ok <==> {
            &&& forall|p: Seq<char>| #[trigger] lists_any(raw, p) ==> glob_fault(p) is None
            &&& lists_something(raw) ==> set_fault(patterns(raw)) is None
        },
        compiled(flag, patterns(raw)) matches Err(e) ==> match e {
            FilterErrorView::InvalidPattern { flag: f, pattern, cause } => f == flag && lists_any(
                raw,
                pattern,
            ) && glob_fault(pattern) == Some(cause),
            FilterErrorView::Uncompilable { flag: f, cause } => f == flag && set_fault(
                patterns(raw),
            ) == Some(cause),
        },
{
    let pats = patterns(raw);
    lemma_first_fault_bounds(pats);
    lemma_any_matches(raw, Seq::empty());
    let i = first_fault(pats);
    if i < pats.len() {
        assert(pats.contains(pats[i]));
        law_every_value_of_a_flag_counts(raw, pats[i]);
        assert(lists_any(raw, pats[i]));
    } else {
        assert forall|p: Seq<char>| #[trigger] lists_any(raw, p) implies glob_fault(p) is None by {
            law_every_value_of_a_flag_counts(raw, p);
            let j = choose|j: int| 0 <= j < pats.len() && pats[j] == p;
            assert(glob_fault(pats[j]) is None);
        }
    }
}

/// What the user is told names the flag and the pattern, then the cause.
pub proof fn law_filter_errors_say_what_is_wrong(
    flag: Seq<char>,
    pattern: Seq<char>,
    cause: Seq<char>,
    error: FilterError,
)
    ensures
        ({
            let invalid = FilterErrorView::InvalidPattern { flag, pattern, cause };
            let together = FilterErrorView::Uncompilable { flag, cause };
            &&& invalid.message() == flag + ": invalid glob pattern "@ + debug_text(pattern)
            &&& together.message() == flag + ": failed to compile glob set"@
            &&& invalid.cause() == cause
            &&& together.cause() == cause
        }),
        match error {
            FilterError::InvalidPattern { flag: f, pattern: p, cause: c } => error@
                is InvalidPattern && error@->InvalidPattern_flag == f@ && error@->pattern == p@
                && error@->InvalidPattern_cause == c@,
            FilterError::Uncompilable { flag: f, cause: c } => error@ is Uncompilable
                && error@->Uncompilable_flag == f@ && error@->Uncompilable_cause == c@,
        },
{
}

/// Patterns are taken in the order in which they were given, and it is the
/// first bad one that is reported.
pub proof fn law_patterns_keep_their_order(
    raw: Seq<Seq<char>>,
    entry: Seq<char>,
    flag: Seq<char>,
    i: int,
)
    requires
        0 <= i < patterns(raw).len(),
        forall|j: int| 0 <= j < i ==> glob_fault(#[trigger] patterns(raw)[j]) is None,
        glob_fault(patterns(raw)[i]) is Some,
    ensures
        patterns(raw.push(entry)) == patterns(raw) + entry_patterns(entry),
        compiled(flag, patterns(raw)) matches Err(FilterErrorView::InvalidPattern {
            flag: f,
            pattern,
            cause,
        }) && f == flag && pattern == patterns(raw)[i] && Some(cause) == glob_fault(pattern),
{
    assert(raw.push(entry).drop_last() =~= raw);
    lemma_first_fault(patterns(raw), i);
}

/// A value without a comma is one pattern, or none if it is blank.
pub proof fn law_a_value_without_comma_is_one_pattern(entry: Seq<char>)
    requires
        !entry.contains(','),
    ensures
        ({
            let p = text::trim(entry, CharClass::WhiteSpace);
            entry_patterns(entry) == if p.len() > 0 {
                seq![p]
            } else {
                Seq::<Seq<char>>::empty()
            }
        }),
{
    let k = CharClass::Only(',');
    assert forall|j: int| 0 <= j < entry.len() implies !k.has(#[trigger] entry[j]) by {
        assert(entry.contains(entry[j]));
    }
    text::law_split_of_one_piece(entry, k);
    let p = text::trim(entry, CharClass::WhiteSpace);
    assert(trimmed_pieces(entry) =~= seq![p]);
    reveal_with_fuel(text::non_empty, 2);
    assert(seq![p].drop_first() =~= seq![]);
    assert(entry_patterns(entry) =~= if p.len() > 0 {
        seq![p]
    } else {
        Seq::<Seq<char>>::empty()
    });
}

} // verus!
