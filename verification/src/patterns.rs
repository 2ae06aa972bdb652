//! Regular expression patterns and the cache of their compiled forms.
use regex::Regex;
use vstd::hash_map::StringHashMap;
use vstd::prelude::*;
use vstd::rwlock::{RwLock, RwLockPredicate};

verus! {

/// Declares `regex::Regex`, a compiled pattern.
#[verifier::external_type_specification]
#[verifier::external_body]
pub struct ExRegex(regex::Regex);

/// What `Regex::new` makes of `pattern`: a compiled regex, or nothing where it
/// reports an error.
pub uninterp spec fn compiled_regex(pattern: Seq<char>) -> Option<regex::Regex>;

/// What `Regex::is_match` answers for `text`.
pub uninterp spec fn regex_finds(regex: regex::Regex, text: Seq<char>) -> bool;

/// `pattern` is a valid regular expression that matches somewhere in `text`.
pub open spec fn pattern_matches(pattern: Seq<char>, text: Seq<char>) -> bool {
    compiled_matches(compiled_regex(pattern), text)
}

/// A compilation that succeeded and matches somewhere in `text`.
pub open spec fn compiled_matches(compiled: Option<Regex>, text: Seq<char>) -> bool {
    compiled matches Some(regex) && regex_finds(regex, text)
}

/// Calls `Regex::new` and drops its error. The outcome is a function of the
/// pattern; which patterns are valid and stay below the default size limit, which
/// counts the sizes of types on the target, is not stated. Believed, not proved.
#[verifier::external_body]
fn compile(pattern: &str) -> (compiled: Option<Regex>)
    ensures
        compiled == compiled_regex(pattern@),
{
    Regex::new(pattern).ok()
}

/// The specification of `Regex::is_match`: the answer is a function of the
/// compiled regex and the text; what it is for a given regex is not stated.
/// Believed, not proved.
pub assume_specification[ regex::Regex::is_match ](regex: &regex::Regex, haystack: &str) -> (found:
    bool)
    ensures
        found == regex_finds(*regex, haystack@),
;

/// Tests `text` against a compilation. One that failed matches nothing.
pub fn matches_compiled(compiled: &Option<Regex>, text: &str) -> (matched: bool)
    ensures
        matched == compiled_matches(*compiled, text@),
{
    match compiled {
        Some(regex) => regex.is_match(text),
        None => false,
    }
}

/// Maximum number of distinct patterns memoized before the cache is dropped and
/// rebuilt.
///
/// Patterns come from targeting rules, which a remote flag service may push, so
/// nothing in this process bounds how many there are. The cap turns memory that
/// grows forever into recompilation after a burst of novel patterns.
pub const REGEX_CACHE_CAPACITY: usize = 256;

/// Compiled regexes keyed by pattern, at most [`REGEX_CACHE_CAPACITY`] of them.
///
/// A pattern that failed to compile is memoized too, as `None`.
pub struct PatternTable {
    entries: StringHashMap<Option<Regex>>,
}

impl View for PatternTable {
    type V = Map<Seq<char>, Option<Regex>>;

    closed spec fn view(&self) -> Map<Seq<char>, Option<Regex>> {
        self.entries@
    }
}

/// The memo after `compiled` was stored for `pattern`: a full memo is emptied
/// before it takes up a new pattern.
pub open spec fn memo_after(
    memo: Map<Seq<char>, Option<Regex>>,
    pattern: Seq<char>,
    compiled: Option<Regex>,
) -> Map<Seq<char>, Option<Regex>> {
    if memo.len() >= REGEX_CACHE_CAPACITY && !memo.contains_key(pattern) {
        Map::<Seq<char>, Option<Regex>>::empty().insert(pattern, compiled)
    } else {
        memo.insert(pattern, compiled)
    }
}

/// The memo after the patterns were compiled and stored one after the other.
pub open spec fn memo_after_all(
    memo: Map<Seq<char>, Option<Regex>>,
    patterns: Seq<Seq<char>>,
) -> Map<Seq<char>, Option<Regex>>
    decreases patterns.len(),
{
    if patterns.len() == 0 {
        memo
    } else {
        memo_after(
            memo_after_all(memo, patterns.drop_last()),
            patterns.last(),
            compiled_regex(patterns.last()),
        )
    }
}

/// Every memoized compilation is what `Regex::new` makes of its pattern.
pub open spec fn faithful(memo: Map<Seq<char>, Option<Regex>>) -> bool {
    forall|pattern: Seq<char>| #[trigger]
        memo.contains_key(pattern) ==> memo[pattern] == compiled_regex(pattern)
}

/// A memo of no more than [`REGEX_CACHE_CAPACITY`] patterns.
pub open spec fn bounded(memo: Map<Seq<char>, Option<Regex>>) -> bool {
    memo.dom().finite() && memo.len() <= REGEX_CACHE_CAPACITY
}

impl PatternTable {
    /// The table never outgrows its capacity.
    #[verifier::type_invariant]
    spec fn well_formed(self) -> bool {
        bounded(self.entries@)
    }

    /// An empty table.
    pub fn new() -> (table: Self)
        ensures
            table@ == Map::<Seq<char>, Option<Regex>>::empty(),
            bounded(table@),
    {
        PatternTable { entries: StringHashMap::new() }
    }

    /// How many patterns the table holds.
    pub fn len(&self) -> (count: usize)
        ensures
            count == self@.len(),
            count <= REGEX_CACHE_CAPACITY,
    {
        proof {
            use_type_invariant(self);
        }
        self.entries.len()
    }

    /// Tests `text` against the memoized compilation of `pattern`. `None` means
    /// that the pattern was not memoized.
    pub fn lookup(&self, pattern: &str, text: &str) -> (matched: Option<bool>)
        ensures
            matched == if self@.contains_key(pattern@) {
                Some(compiled_matches(self@[pattern@], text@))
            } else {
                None
            },
    {
        match self.entries.get(pattern) {
            Some(compiled) => Some(matches_compiled(compiled, text)),
            None => None,
        }
    }

    /// Memoizes the compilation of `pattern`.
    pub fn store(&mut self, pattern: &str, compiled: Option<Regex>)
        ensures
            final(self)@ == memo_after(old(self)@, pattern@, compiled),
            bounded(final(self)@),
    {
        proof {
            use_type_invariant(&*self);
        }
        let mut entries: StringHashMap<Option<Regex>> = StringHashMap::new();
        std::mem::swap(&mut entries, &mut self.entries);
        if entries.len() >= REGEX_CACHE_CAPACITY && !entries.contains_key(pattern) {
            entries.clear();
        }
        entries.insert(pattern.to_string(), compiled);
        self.entries = entries;
    }
}

/// What the lock of a [`RegexCache`] guards: a table that came about from `start`
/// by compiling and storing patterns.
pub struct FaithfulTable {
    pub start: Ghost<Map<Seq<char>, Option<Regex>>>,
}

impl RwLockPredicate<PatternTable> for FaithfulTable {
    open spec fn inv(self, table: PatternTable) -> bool {
        exists|patterns: Seq<Seq<char>>| table@ == #[trigger] memo_after_all(self.start@, patterns)
    }
}

/// A shared cache of compiled regexes keyed by pattern.
///
/// Many evaluations may use one cache at the same time; its answers do not
/// depend on what it holds. What it holds changes behind shared references, so
/// its model is what it was made with: at any moment it holds what that became by
/// storing the patterns that were asked for since.
///
/// A cache is meant to outlive the evaluations that share it. Dropping it does
/// not free what it holds; [`RegexCache::into_table`] takes that out.
pub struct RegexCache {
    table: RwLock<PatternTable, FaithfulTable>,
}

impl RegexCache {
    /// What the cache was made with.
    pub closed spec fn start(self) -> Map<Seq<char>, Option<Regex>> {
        self.table.pred().start@
    }

    /// The cache was made with a bounded, faithful memo, so that whatever it holds
    /// is bounded and faithful.
    #[verifier::type_invariant]
    spec fn well_formed(self) -> bool {
        bounded(self.start()) && faithful(self.start())
    }

    /// An empty cache.
    pub fn new() -> (cache: Self)
        ensures
            cache.start() == Map::<Seq<char>, Option<Regex>>::empty(),
    {
        let table = PatternTable::new();
        let ghost guard = FaithfulTable { start: Ghost(table@) };
        assert(table@ == memo_after_all(guard.start@, Seq::empty()));
        let lock = RwLock::<PatternTable, FaithfulTable>::new(table, Ghost(guard));
        RegexCache { table: lock }
    }

    /// How many patterns the cache holds at the moment, at most
    /// [`REGEX_CACHE_CAPACITY`]: the size of what it was made with, after the
    /// patterns that were stored since. Other evaluations may change it right
    /// after.
    pub fn len(&self) -> (count: usize)
        ensures
            count <= REGEX_CACHE_CAPACITY,
            exists|patterns: Seq<Seq<char>>|
                count == (#[trigger] memo_after_all(self.start(), patterns)).len(),
    {
        proof {
            use_type_invariant(self);
        }
        let reader = self.table.acquire_read();
        let table = reader.borrow();
        proof {
            let patterns = choose|patterns: Seq<Seq<char>>|
                table@ == #[trigger] memo_after_all(self.start(), patterns);
            crate::laws::caching::law_cache_stays_bounded(self.start(), patterns);
        }
        let count: usize = table.len();
        reader.release_read();
        count
    }

    /// Tests `value` against `pattern`, compiling the regex once and reusing the
    /// cached compilation thereafter. Invalid patterns match nothing.
    ///
    /// The compilation is stored for the evaluations that follow. Others may replace
    /// what the cache holds at any moment, so that is no part of the contract.
    pub fn matches(&self, pattern: &str, value: &str) -> (matched: bool)
        ensures
            matched == pattern_matches(pattern@, value@),
    {
        proof {
            use_type_invariant(self);
        }
        let reader = self.table.acquire_read();
        let held = reader.borrow();
        proof {
            let patterns = choose|patterns: Seq<Seq<char>>|
                held@ == #[trigger] memo_after_all(self.start(), patterns);
            crate::laws::caching::law_cache_stays_bounded(self.start(), patterns);
        }
        let cached = held.lookup(pattern, value);
        reader.release_read();
        if let Some(matched) = cached {
            return matched;
        }
        // Compiled outside the lock: a pathological pattern must not stall every
        // other evaluation.
        let compiled = compile(pattern);
        let matched = matches_compiled(&compiled, value);
        let (mut table, writer) = self.table.acquire_write();
        let ghost stored = choose|patterns: Seq<Seq<char>>|
            table@ == #[trigger] memo_after_all(self.start(), patterns);
        proof {
            crate::laws::caching::law_cache_stays_bounded(self.start(), stored);
            assert(stored.push(pattern@).drop_last() =~= stored);
        }
        table.store(pattern, compiled);
        assert(table@ == memo_after_all(self.start(), stored.push(pattern@)));
        writer.release_write(table);
        matched
    }

    /// Takes out what the cache holds, to be dropped or used without a lock. The
    /// lock itself does not drop what it guards.
    pub fn into_table(self) -> (table: PatternTable)
        ensures
            bounded(table@),
            faithful(table@),
            exists|patterns: Seq<Seq<char>>|
                table@ == #[trigger] memo_after_all(self.start(), patterns),
    {
        proof {
            use_type_invariant(&self);
        }
        let RegexCache { table: lock } = self;
        let table = lock.into_inner();
        proof {
            let patterns = choose|patterns: Seq<Seq<char>>|
                table@ == #[trigger] memo_after_all(self.start(), patterns);
            crate::laws::caching::law_cache_stays_bounded(self.start(), patterns);
        }
        table
    }
}

/// The memo after `pattern` was tested through it: a pattern that it lacks is
/// compiled and stored.
pub open spec fn memo_with(memo: Map<Seq<char>, Option<Regex>>, pattern: Seq<char>) -> Map<
    Seq<char>,
    Option<Regex>,
> {
    if memo.contains_key(pattern) {
        memo
    } else {
        memo_after(memo, pattern, compiled_regex(pattern))
    }
}

/// Tests `value` against `pattern`, compiling the regex once and reusing the
/// memoized compilation thereafter. Invalid patterns match nothing.
pub fn regex_matches(table: &mut PatternTable, pattern: &str, value: &str) -> (matched: bool)
    requires
        faithful(old(table)@),
    ensures
        matched == pattern_matches(pattern@, value@),
        final(table)@ == memo_with(old(table)@, pattern@),
        bounded(final(table)@),
        faithful(final(table)@),
{
    proof {
        use_type_invariant(&*table);
    }
    if let Some(matched) = table.lookup(pattern, value) {
        return matched;
    }
    let compiled = compile(pattern);
    let matched = matches_compiled(&compiled, value);
    table.store(pattern, compiled);
    matched
}

/// Where an evaluation memoizes the patterns that it compiles: in a table of its
/// own, which is gone with it, or in a cache that it shares with others.
pub enum PatternMemo<'a> {
    Own(PatternTable),
    Shared(&'a RegexCache),
}

impl<'a> PatternMemo<'a> {
    /// A table of the evaluation's own is faithful, as a shared cache always is.
    pub open spec fn sound(self) -> bool {
        match self {
            PatternMemo::Own(table) => faithful(table@),
            PatternMemo::Shared(_) => true,
        }
    }

    /// Tests `value` against `pattern`, which is memoized.
    pub(crate) fn matches(&mut self, pattern: &str, value: &str) -> (matched: bool)
        requires
            old(self).sound(),
        ensures
            matched == pattern_matches(pattern@, value@),
            final(self).sound(),
            match (*old(self), *final(self)) {
                (PatternMemo::Own(before), PatternMemo::Own(after)) => after@ == memo_with(
                    before@,
                    pattern@,
                ),
                (PatternMemo::Shared(before), PatternMemo::Shared(after)) => before == after,
                _ => false,
            },
    {
        match self {
            PatternMemo::Own(table) => regex_matches(table, pattern, value),
            PatternMemo::Shared(cache) => cache.matches(pattern, value),
        }
    }
}

} // verus!
