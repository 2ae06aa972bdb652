//! Laws of the compiled-pattern cache.
use regex::Regex;
use vstd::prelude::*;

verus! {

/// A pattern matches where it compiles and its regex is found in the text.
pub proof fn law_pattern_matches_by_its_regex(pattern: Seq<char>, text: Seq<char>)
    ensures
        crate::patterns::pattern_matches(pattern, text) <==> (crate::patterns::compiled_regex(
            pattern,
        ) matches Some(regex) && crate::patterns::regex_finds(regex, text)),
{
}

/// A compilation answers by its regex; one that failed matches nothing.
pub proof fn law_compilation_answers_by_its_regex(regex: Regex, text: Seq<char>)
    ensures
        crate::patterns::compiled_matches(Some(regex), text) == crate::patterns::regex_finds(
            regex,
            text,
        ),
        !crate::patterns::compiled_matches(None, text),
{
}

/// While there is room, storing a pattern keeps every other one; a new pattern in
/// a memo of 256 is the only one that remains.
pub proof fn law_store_keeps_the_others(
    memo: Map<Seq<char>, Option<Regex>>,
    pattern: Seq<char>,
    compiled: Option<Regex>,
    other: Seq<char>,
)
    requires
        other != pattern,
    ensures
        ({
            let stored = crate::patterns::memo_after(memo, pattern, compiled);
            let room = memo.len() < 256 || memo.contains_key(pattern);
            &&& stored.contains_key(other) <==> room && memo.contains_key(other)
            &&& stored.contains_key(other) ==> stored[other] == memo[other]
        }),
{
}

/// Testing a pattern that is memoized changes nothing; testing another stores its
/// compilation.
pub proof fn law_test_stores_what_is_missing(
    memo: Map<Seq<char>, Option<Regex>>,
    pattern: Seq<char>,
)
    ensures
        memo.contains_key(pattern) ==> crate::patterns::memo_with(memo, pattern) == memo,
        !memo.contains_key(pattern) ==> crate::patterns::memo_with(memo, pattern)
            == crate::patterns::memo_after(
            memo,
            pattern,
            crate::patterns::compiled_regex(pattern),
        ),
{
}

/// A memo that was asked for nothing is unchanged; one more pattern is stored
/// after all the others.
pub proof fn law_patterns_are_stored_in_turn(
    memo: Map<Seq<char>, Option<Regex>>,
    patterns: Seq<Seq<char>>,
    pattern: Seq<char>,
)
    ensures
        crate::patterns::memo_after_all(memo, Seq::empty()) == memo,
        crate::patterns::memo_after_all(memo, patterns.push(pattern))
            == crate::patterns::memo_after(
            crate::patterns::memo_after_all(memo, patterns),
            pattern,
            crate::patterns::compiled_regex(pattern),
        ),
{
    assert(patterns.push(pattern).drop_last() =~= patterns);
}

/// A bounded memo holds at most 256 patterns.
pub proof fn law_bound_is_256(memo: Map<Seq<char>, Option<Regex>>)
    ensures
        crate::patterns::bounded(memo) <==> memo.dom().finite() && memo.len() <= 256,
{
}

/// What is stored is found again under its pattern.
pub proof fn law_stored_pattern_is_found(
    memo: Map<Seq<char>, Option<Regex>>,
    pattern: Seq<char>,
    compiled: Option<Regex>,
)
    ensures
        crate::patterns::memo_after(memo, pattern, compiled).contains_key(pattern),
        crate::patterns::memo_after(memo, pattern, compiled)[pattern] == compiled,
{
}

/// A faithful memo answers as if the pattern had been compiled anew: what the
/// cache holds has no bearing on the answer.
pub proof fn law_memo_is_transparent(
    memo: Map<Seq<char>, Option<Regex>>,
    pattern: Seq<char>,
    text: Seq<char>,
)
    requires
        crate::patterns::faithful(memo),
        memo.contains_key(pattern),
    ensures
        crate::patterns::compiled_matches(memo[pattern], text) == crate::patterns::pattern_matches(
            pattern,
            text,
        ),
{
}

/// However many patterns arrive, in whatever order, the memo never holds more
/// than the capacity and stays faithful.
pub proof fn law_cache_stays_bounded(
    memo: Map<Seq<char>, Option<Regex>>,
    patterns: Seq<Seq<char>>,
)
    requires
        crate::patterns::bounded(memo),
        crate::patterns::faithful(memo),
    ensures
        crate::patterns::bounded(crate::patterns::memo_after_all(memo, patterns)),
        crate::patterns::faithful(crate::patterns::memo_after_all(memo, patterns)),
    decreases patterns.len(),
{
    if patterns.len() > 0 {
        law_cache_stays_bounded(memo, patterns.drop_last());
    }
}

/// A pattern is compiled once: testing it leaves it memoized, testing it again
/// changes nothing, and the memo stays bounded and faithful.
pub proof fn law_pattern_is_compiled_once(
    memo: Map<Seq<char>, Option<Regex>>,
    pattern: Seq<char>,
)
    requires
        crate::patterns::bounded(memo),
        crate::patterns::faithful(memo),
    ensures
        ({
            let tested = crate::patterns::memo_with(memo, pattern);
            &&& tested.contains_key(pattern)
            &&& tested[pattern] == crate::patterns::compiled_regex(pattern)
            &&& crate::patterns::memo_with(tested, pattern) == tested
            &&& crate::patterns::bounded(tested)
            &&& crate::patterns::faithful(tested)
        }),
{
}

/// A pattern that does not compile matches nothing.
pub proof fn law_invalid_pattern_matches_nothing(pattern: Seq<char>, text: Seq<char>)
    requires
        crate::patterns::compiled_regex(pattern) is None,
    ensures
        !crate::patterns::pattern_matches(pattern, text),
{
}

} // verus!
