//! Fuzzy search over the lines of a selection list.

use vstd::prelude::*;

use fuzzy_matcher::skim::SkimMatcherV2;
use fuzzy_matcher::FuzzyMatcher;

use crate::text::{
    is_space, law_blank_has_no_words, law_one_word, law_words_concat, words, words_of,
};

verus! {

broadcast use vstd::string::group_string_axioms;

/// The score of matching `pattern` against `choice`, if it matches.
pub uninterp spec fn skim_score(choice: Seq<char>, pattern: Seq<char>) -> Option<i64>;

/// An ASCII capital as a small letter, every other character as itself.
pub open spec fn small(c: char) -> char {
    if 'A' <= c <= 'Z' {
        (c as u32 + 32) as char
    } else {
        c
    }
}

/// Whether the pattern asks for its letters to be matched in their own case: it
/// does if it has an ASCII capital.
pub open spec fn minds_case(pattern: Seq<char>) -> bool {
    exists|i: int| 0 <= i < pattern.len() && 'A' <= #[trigger] pattern[i] <= 'Z'
}

/// Whether all characters of `pattern` occur in `choice`, in their order and
/// with any others between them.
pub open spec fn occurs_in(pattern: Seq<char>, choice: Seq<char>, exact: bool) -> bool
    decreases choice.len(),
{
    if pattern.len() == 0 {
        true
    } else if choice.len() == 0 {
        false
    } else if choice[0] == pattern[0] || (!exact && small(choice[0]) == small(pattern[0])) {
        occurs_in(pattern.drop_first(), choice.drop_first(), exact)
    } else {
        occurs_in(pattern, choice.drop_first(), exact)
    }
}

/// Whether a term matches a line at all.
pub open spec fn term_matches(term: Seq<char>, line: Seq<char>) -> bool {
    occurs_in(term, line, minds_case(term))
}

/// Whether a pattern is short enough for its score to fit in 32 bits: every
/// character of it adds 32 at most.
pub open spec fn scorable(pattern: Seq<char>) -> bool {
    pattern.len() < 0x400_0000
}

/// `SkimMatcherV2::fuzzy_match` of fuzzy_matcher, with the default settings. The
/// score is a function of the two texts, whatever the matcher was used for
/// before, and a number of 32 bits. There is one if and only if the characters
/// of the pattern occur in the choice in their order, in any ASCII case unless
/// the pattern has a capital. How the score weighs gaps and word starts is left
/// unsaid.
#[verifier::external_body]
fn skim_match(choice: &str, pattern: &str) -> (res: Option<i64>)
    requires
        scorable(pattern@),
    ensures
        res == skim_score(choice@, pattern@),
        res is Some <==> term_matches(pattern@, choice@),
        res matches Some(score) ==> i32::MIN <= score <= i32::MAX,
{
    SkimMatcherV2::default().fuzzy_match(choice, pattern)
}

/// The sum of the scores, if there is one of each.
pub open spec fn sum_of(scores: Seq<Option<i64>>) -> Option<int>
    decreases scores.len(),
{
    if scores.len() == 0 {
        Some(0)
    } else {
        match (sum_of(scores.drop_last()), scores.last()) {
            (Some(sum), Some(score)) => Some(sum + score),
            _ => None,
        }
    }
}

/// The scores of the words of a query against a line, one by one.
pub open spec fn term_scores(input: Seq<char>, line: Seq<char>) -> Seq<Option<i64>> {
    Seq::new(words_of(input).len(), |i: int| skim_score(line, words_of(input)[i]))
}

/// What a query scores on a line: the sum of what its words score. A query that
/// has a word without a match does not score.
pub open spec fn query_score(input: Seq<char>, line: Seq<char>) -> Option<int> {
    sum_of(term_scores(input, line))
}

/// Whether a query is short enough for its score to fit in 64 bits.
pub open spec fn scorable_query(input: Seq<char>) -> bool {
    &&& words_of(input).len() <= 0x1_0000_0000
    &&& forall|i: int| 0 <= i < words_of(input).len() ==> scorable(#[trigger] words_of(input)[i])
}

/// A score as a number of any size.
pub open spec fn score_view(score: Option<i64>) -> Option<int> {
    match score {
        Some(value) => Some(value as int),
        None => None,
    }
}

/// Adds up the scores of the terms of a query; one that is missing makes the
/// whole query miss.
pub fn combine_scores(scores: &Vec<Option<i64>>) -> (res: Option<i64>)
    requires
        forall|k: int|
            0 <= k <= scores@.len() ==> (sum_of(#[trigger] scores@.take(k)) matches Some(sum)
                ==> i64::MIN <= sum <= i64::MAX),
    ensures
        score_view(res) == sum_of(scores@),
{
    let mut total: i64 = 0;
    let mut i: usize = 0;
    while i < scores.len()
        invariant
            i <= scores@.len(),
            sum_of(scores@.take(i as int)) == Some(total as int),
            forall|k: int|
                0 <= k <= scores@.len() ==> (sum_of(#[trigger] scores@.take(k)) matches Some(sum)
                    ==> i64::MIN <= sum <= i64::MAX),
        decreases scores@.len() - i,
    {
        proof {
            assert(scores@.take(i + 1).drop_last() == scores@.take(i as int));
        }
        match scores[i] {
            Some(score) => {
                proof {
                    assert(sum_of(scores@.take(i + 1)) == Some(total + score));
                }
                total = total + score;
            },
            None => {
                proof {
                    lemma_missing_score(scores@, i as int);
                }
                return None;
            },
        }
        i += 1;
    }
    proof {
        assert(scores@.take(i as int) == scores@);
    }
    Some(total)
}

proof fn lemma_missing_score(scores: Seq<Option<i64>>, at: int)
    requires
        0 <= at < scores.len(),
        scores[at] is None,
    ensures
        sum_of(scores) is None,
    decreases scores.len(),
{
    if at < scores.len() - 1 {
        lemma_missing_score(scores.drop_last(), at);
    }
}

proof fn lemma_sum_exists(scores: Seq<Option<i64>>)
    ensures
        sum_of(scores) is Some <==> forall|i: int| 0 <= i < scores.len() ==> #[trigger] scores[i] is Some,
    decreases scores.len(),
{
    if scores.len() > 0 {
        let rest = scores.drop_last();
        lemma_sum_exists(rest);
        if sum_of(scores) is Some {
            assert forall|i: int| 0 <= i < scores.len() implies #[trigger] scores[i] is Some by {
                if i < scores.len() - 1 {
                    assert(scores[i] == rest[i]);
                }
            }
        }
        if forall|i: int| 0 <= i < scores.len() ==> #[trigger] scores[i] is Some {
            assert forall|i: int| 0 <= i < rest.len() implies #[trigger] rest[i] is Some by {
                assert(rest[i] == scores[i]);
            }
            assert(scores[scores.len() - 1] is Some);
        }
    }
}

/// Sums of scores of 32 bits grow by one such score at a time.
proof fn lemma_sum_bounded(scores: Seq<Option<i64>>)
    requires
        forall|i: int|
            0 <= i < scores.len() ==> (#[trigger] scores[i] matches Some(score) ==> i32::MIN
                <= score <= i32::MAX),
    ensures
        sum_of(scores) matches Some(sum) ==> -0x8000_0000 * scores.len() <= sum <= 0x7fff_ffff
            * scores.len(),
    decreases scores.len(),
{
    if scores.len() > 0 {
        let rest = scores.drop_last();
        assert forall|i: int| 0 <= i < rest.len() implies (#[trigger] rest[i] matches Some(score)
            ==> i32::MIN <= score <= i32::MAX) by {
            assert(rest[i] == scores[i]);
        }
        lemma_sum_bounded(rest);
        assert(scores[scores.len() - 1] matches Some(score) ==> i32::MIN <= score <= i32::MAX);
    }
}

/// Scores a line of a selection list for what was typed: `None` leaves the line
/// out, the greater score comes first. All words that were typed must match.
pub fn fuzzy_scorer(input: &str, _option: &String, string_value: &str, _idx: usize) -> (res: Option<
    i64,
>)
    requires
        scorable_query(input@),
    ensures
        score_view(res) == query_score(input@, string_value@),
        res is Some <==> forall|i: int|
            0 <= i < words_of(input@).len() ==> term_matches(#[trigger] words_of(input@)[i], string_value@),
{
    let terms = words(input);
    let ghost wanted = words_of(input@);
    let mut scores: Vec<Option<i64>> = Vec::new();
    let mut i: usize = 0;
    proof {
        assert(terms.deep_view().len() == terms@.len());
    }
    while i < terms.len()
        invariant
            wanted == words_of(input@),
            wanted == terms.deep_view(),
            scorable_query(input@),
            i <= terms@.len(),
            scores@ == term_scores(input@, string_value@).take(i as int),
            forall|k: int|
                0 <= k < i ==> {
                    &&& #[trigger] scores@[k] is Some <==> term_matches(wanted[k], string_value@)
                    &&& scores@[k] matches Some(score) ==> i32::MIN <= score <= i32::MAX
                },
        decreases terms@.len() - i,
    {
        proof {
            assert(wanted[i as int] == terms@[i as int]@);
            assert(scorable(wanted[i as int]));
        }
        let score = skim_match(string_value, terms[i].as_str());
        scores.push(score);
        i += 1;
    }
    proof {
        assert(scores@ == term_scores(input@, string_value@));
        lemma_sum_exists(scores@);
        assert forall|k: int| 0 <= k <= scores@.len() implies (sum_of(#[trigger] scores@.take(k)) matches Some(
            sum,
        ) ==> i64::MIN <= sum <= i64::MAX) by {
            lemma_sum_bounded(scores@.take(k));
        }
        if forall|i: int|
            0 <= i < wanted.len() ==> term_matches(#[trigger] wanted[i], string_value@) {
            assert forall|k: int| 0 <= k < scores@.len() implies #[trigger] scores@[k] is Some by {
                assert(term_matches(wanted[k], string_value@));
            }
        }
        if forall|k: int| 0 <= k < scores@.len() ==> #[trigger] scores@[k] is Some {
            assert forall|i: int| 0 <= i < wanted.len() implies term_matches(
                #[trigger] wanted[i],
                string_value@,
            ) by {
                assert(scores@[i] is Some);
            }
        }
    }
    combine_scores(&scores)
}

/// What two queries score together: the sum of their scores, if both match.
pub open spec fn both_scores(first: Option<int>, second: Option<int>) -> Option<int> {
    match (first, second) {
        (Some(x), Some(y)) => Some(x + y),
        _ => None,
    }
}

proof fn lemma_sum_concat(first: Seq<Option<i64>>, second: Seq<Option<i64>>)
    ensures
        sum_of(first + second) == both_scores(sum_of(first), sum_of(second)),
    decreases second.len(),
{
    if second.len() == 0 {
        assert(first + second == first);
    } else {
        lemma_sum_concat(first, second.drop_last());
        assert((first + second).drop_last() == first + second.drop_last());
    }
}

/// A query of two parts with white space between them matches a line if and only
/// if both parts do, and then scores what they score together.
pub proof fn law_terms_add_up(a: Seq<char>, c: char, b: Seq<char>, line: Seq<char>)
    requires
        is_space(c),
    ensures
        query_score(a.push(c) + b, line) == both_scores(
            query_score(a, line),
            query_score(b, line),
        ),
{
    law_words_concat(a, c, b);
    assert(term_scores(a.push(c) + b, line) == term_scores(a, line) + term_scores(b, line));
    lemma_sum_concat(term_scores(a, line), term_scores(b, line));
}

/// A query without white space is one term: it matches a line if and only if all
/// of it does, and scores what the whole of it scores.
pub proof fn law_one_term(query: Seq<char>, line: Seq<char>)
    requires
        query.len() > 0,
        forall|i: int| 0 <= i < query.len() ==> !is_space(#[trigger] query[i]),
    ensures
        query_score(query, line) == (match skim_score(line, query) {
            Some(score) => Some(score as int),
            None => None,
        }),
{
    law_one_word(query);
    let scores = term_scores(query, line);
    assert(scores == seq![skim_score(line, query)]);
    assert(scores.drop_last() == Seq::<Option<i64>>::empty());
    reveal_with_fuel(sum_of, 2);
}

/// The order of the parts of a query does not matter.
pub proof fn law_term_order(a: Seq<char>, c: char, b: Seq<char>, line: Seq<char>)
    requires
        is_space(c),
    ensures
        query_score(a.push(c) + b, line) == query_score(b.push(c) + a, line),
{
    law_terms_add_up(a, c, b, line);
    law_terms_add_up(b, c, a, line);
}

/// A query without words, such as an empty one, matches every line, and none
/// better than another.
pub proof fn law_blank_query(input: Seq<char>, line: Seq<char>)
    requires
        forall|i: int| 0 <= i < input.len() ==> is_space(#[trigger] input[i]),
    ensures
        query_score(input, line) == Some(0int),
{
    law_blank_has_no_words(input);
    assert(term_scores(input, line).len() == 0);
}

/// Adding up two lists of scores is adding up what each of them adds up to. One
/// score is its own sum, and no scores add up to nothing.
pub proof fn law_sum_in_turn(first: Seq<Option<i64>>, second: Seq<Option<i64>>, score: Option<i64>)
    ensures
        sum_of(first + second) == (match (sum_of(first), sum_of(second)) {
            (Some(x), Some(y)) => Some(x + y),
            _ => None,
        }),
        sum_of(seq![score]) == (match score {
            Some(value) => Some(value as int),
            None => None,
        }),
        sum_of(seq![]) == Some(0int),
{
    lemma_sum_concat(first, second);
    assert(seq![score].drop_last() == Seq::<Option<i64>>::empty());
    reveal_with_fuel(sum_of, 2);
}

/// Whether a character of a line can stand for one of a pattern.
pub open spec fn stands_for(theirs: char, ours: char, exact: bool) -> bool {
    theirs == ours || (!exact && small(theirs) == small(ours))
}

/// Whether these are places in a line, from left to right, at which the characters of
/// a pattern stand one after the other.
pub open spec fn are_places(
    places: Seq<int>,
    pattern: Seq<char>,
    line: Seq<char>,
    exact: bool,
) -> bool {
    &&& places.len() == pattern.len()
    &&& forall|i: int|
        0 <= i < places.len() ==> 0 <= #[trigger] places[i] < line.len() && stands_for(
            line[places[i]],
            pattern[i],
            exact,
        )
    &&& forall|i: int, j: int|
        0 <= i < j < places.len() ==> #[trigger] places[i] < #[trigger] places[j]
}

/// A pattern occurs in a line if and only if there are places for its characters, from
/// left to right, with any others between them.
pub proof fn law_occurrence_has_places(pattern: Seq<char>, line: Seq<char>, exact: bool)
    ensures
        occurs_in(pattern, line, exact) <==> exists|places: Seq<int>|
            are_places(places, pattern, line, exact),
    decreases line.len(),
{
    if pattern.len() == 0 {
        assert(are_places(seq![], pattern, line, exact));
    } else if line.len() > 0 {
        let rest = line.drop_first();
        let takes = stands_for(line[0], pattern[0], exact);
        let ours = if takes {
            pattern.drop_first()
        } else {
            pattern
        };
        law_occurrence_has_places(ours, rest, exact);
        if occurs_in(pattern, line, exact) {
            let places = choose|places: Seq<int>| are_places(places, ours, rest, exact);
            let first = if takes {
                seq![0int]
            } else {
                Seq::<int>::empty()
            };
            let moved = first + Seq::new(places.len(), |i: int| places[i] + 1);
            let skipped: int = pattern.len() - ours.len();
            assert forall|i: int| 0 <= i < moved.len() implies 0 <= #[trigger] moved[i]
                < line.len() && stands_for(line[moved[i]], pattern[i], exact) by {
                if i >= skipped {
                    let place = places[i - skipped];
                    assert(line[place + 1] == rest[place]);
                    assert(pattern[i] == ours[i - skipped]);
                }
            }
            assert forall|i: int, j: int| 0 <= i < j < moved.len() implies #[trigger] moved[i]
                < #[trigger] moved[j] by {
                if i >= skipped {
                    assert(places[i - skipped] < places[j - skipped]);
                } else {
                    assert(places[j - skipped] >= 0);
                }
            }
            assert(are_places(moved, pattern, line, exact));
        }
        if exists|places: Seq<int>| are_places(places, pattern, line, exact) {
            let places = choose|places: Seq<int>| are_places(places, pattern, line, exact);
            let skipped: int = pattern.len() - ours.len();
            let moved = Seq::new(ours.len(), |i: int| places[i + skipped] - 1);
            assert forall|i: int| 0 <= i < moved.len() implies 0 <= #[trigger] moved[i]
                < rest.len() && stands_for(rest[moved[i]], ours[i], exact) by {
                let place = places[i + skipped];
                assert(ours[i] == pattern[i + skipped]);
                if i + skipped > 0 {
                    assert(places[0] < place);
                    assert(0 <= places[0]);
                }
                assert(rest[place - 1] == line[place]);
            }
            assert forall|i: int, j: int| 0 <= i < j < moved.len() implies #[trigger] moved[i]
                < #[trigger] moved[j] by {
                assert(places[i + skipped] < places[j + skipped]);
            }
            assert(are_places(moved, ours, rest, exact));
        }
    } else {
        assert forall|places: Seq<int>| !are_places(places, pattern, line, exact) by {
            if are_places(places, pattern, line, exact) {
                assert(0 <= places[0] < line.len());
            }
        }
    }
}

/// A term matches in any ASCII case unless it has a capital, and then in its own.
pub proof fn law_capitals_count(term: Seq<char>, line: Seq<char>, c: char)
    ensures
        (exists|i: int| 0 <= i < term.len() && 'A' <= #[trigger] term[i] <= 'Z') ==> (term_matches(
            term,
            line,
        ) <==> exists|places: Seq<int>| are_places(places, term, line, true)),
        (forall|i: int| 0 <= i < term.len() ==> !('A' <= #[trigger] term[i] <= 'Z')) ==> (
        term_matches(term, line) <==> exists|places: Seq<int>|
            are_places(places, term, line, false)),
        small(c) == (if 'A' <= c <= 'Z' {
            (c as int - 'A' as int + 'a' as int) as char
        } else {
            c
        }),
{
    law_occurrence_has_places(term, line, minds_case(term));
}

} // verus!
