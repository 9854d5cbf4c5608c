//! Facts about the tokens that `TokenParser::parse` produces.
use vstd::prelude::*;

use crate::text::{digit_from, first_digit_run, is_digit, run_end, upper_of};
use crate::token_parser::{
    best_of, line_tokens, names_identifier, parse_tokens, parser_model, shape_pattern, shape_table,
    token_of, tokens_of, PatternModel,
};

verus! {

broadcast use vstd::seq_lib::group_seq_properties;

/// `t` is `project`, a dash, and a non-empty run of decimal digits.
pub open spec fn is_canonical(project: Seq<char>, t: Seq<char>) -> bool {
    &&& t.len() > project.len() + 1
    &&& t.subrange(0, project.len() as int) == project
    &&& t[project.len() as int] == '-'
    &&& forall|j: int| project.len() + 1 <= j < t.len() ==> is_digit(#[trigger] t[j])
}

/// Every character of `s` is a decimal digit.
pub open spec fn all_digits(s: Seq<char>) -> bool {
    forall|j: int| 0 <= j < s.len() ==> is_digit(#[trigger] s[j])
}

proof fn lemma_digit_from(s: Seq<char>, i: int)
    requires
        0 <= i <= s.len(),
    ensures
        i <= digit_from(s, i) <= s.len(),
        digit_from(s, i) < s.len() ==> is_digit(s[digit_from(s, i)]),
        forall|j: int| i <= j < digit_from(s, i) ==> !is_digit(#[trigger] s[j]),
    decreases s.len() - i,
{
    if i < s.len() && !is_digit(s[i]) {
        lemma_digit_from(s, i + 1);
    }
}

proof fn lemma_run_end(s: Seq<char>, i: int)
    requires
        0 <= i <= s.len(),
    ensures
        i <= run_end(s, i) <= s.len(),
        forall|j: int| i <= j < run_end(s, i) ==> is_digit(#[trigger] s[j]),
    decreases s.len() - i,
{
    if i < s.len() && is_digit(s[i]) {
        lemma_run_end(s, i + 1);
    }
}

proof fn lemma_digit_run_digits(s: Seq<char>)
    ensures
        all_digits(first_digit_run(s)),
{
    lemma_digit_from(s, 0);
    lemma_run_end(s, digit_from(s, 0));
}

proof fn lemma_token_canonical(project: Seq<char>, segment: Seq<char>)
    requires
        names_identifier(segment),
    ensures
        is_canonical(project, token_of(project, segment)),
{
    let run = first_digit_run(segment);
    lemma_digit_run_digits(segment);
    let t = token_of(project, segment);
    assert(t.subrange(0, project.len() as int) =~= project);
    assert forall|j: int| project.len() + 1 <= j < t.len() implies is_digit(#[trigger] t[j]) by {
        assert(t[j] == run[j - project.len() - 1]);
    }
}

proof fn lemma_tokens_canonical(project: Seq<char>, segments: Seq<Seq<char>>)
    ensures
        forall|i: int|
            0 <= i < tokens_of(project, segments).len() ==> is_canonical(
                project,
                #[trigger] tokens_of(project, segments)[i],
            ),
{
    let pred = |s: Seq<char>| names_identifier(s);
    let kept = segments.filter(pred);
    assert forall|i: int|
        0 <= i < tokens_of(project, segments).len() implies is_canonical(
        project,
        #[trigger] tokens_of(project, segments)[i],
    ) by {
        segments.lemma_filter_pred(pred, i);
        lemma_token_canonical(project, kept[i]);
    }
}

proof fn lemma_best_canonical(project: Seq<char>, cands: Seq<Option<Seq<Seq<char>>>>)
    requires
        forall|k: int|
            0 <= k < cands.len() && #[trigger] cands[k] is Some ==> forall|i: int|
                0 <= i < cands[k]->0.len() ==> is_canonical(project, #[trigger] cands[k]->0[i]),
    ensures
        forall|i: int|
            0 <= i < best_of(cands).len() ==> is_canonical(project, #[trigger] best_of(cands)[i]),
    decreases cands.len(),
{
    if cands.len() > 0 {
        let rest = cands.drop_last();
        assert forall|k: int| 0 <= k < rest.len() && #[trigger] rest[k] is Some implies forall|
            i: int,
        | 0 <= i < rest[k]->0.len() ==> is_canonical(project, #[trigger] rest[k]->0[i]) by {
            assert(rest[k] == cands[k]);
        }
        lemma_best_canonical(project, rest);
        let last = cands.len() - 1;
        assert(cands.last() == cands[last]);
        let kept = best_of(rest);
        if cands[last] is Some && cands[last]->0.len() > kept.len() {
            assert(best_of(cands) == cands[last]->0);
            assert(forall|i: int|
                0 <= i < cands[last]->0.len() ==> is_canonical(project, #[trigger] cands[last]->0[i]));
        } else {
            assert(best_of(cands) == kept);
        }
    }
}

proof fn lemma_flatten_canonical(project: Seq<char>, groups: Seq<Seq<Seq<char>>>)
    requires
        forall|k: int|
            0 <= k < groups.len() ==> forall|i: int|
                0 <= i < #[trigger] groups[k].len() ==> is_canonical(project, #[trigger] groups[k][i]),
    ensures
        forall|i: int|
            0 <= i < groups.flatten().len() ==> is_canonical(project, #[trigger] groups.flatten()[i]),
    decreases groups.len(),
{
    if groups.len() > 0 {
        let rest = groups.drop_first();
        assert forall|k: int|
            0 <= k < rest.len() implies forall|i: int|
            0 <= i < #[trigger] rest[k].len() ==> is_canonical(project, #[trigger] rest[k][i]) by {
            assert(rest[k] == groups[k + 1]);
        }
        lemma_flatten_canonical(project, rest);
        let first = groups[0];
        assert forall|i: int| 0 <= i < groups.flatten().len() implies is_canonical(
            project,
            #[trigger] groups.flatten()[i],
        ) by {
            if i < first.len() {
                assert(groups.flatten()[i] == first[i]);
            } else {
                assert(groups.flatten()[i] == rest.flatten()[i - first.len()]);
            }
        }
    }
}

/// Every token that patterns of one project produce from any text is that project,
/// a dash and a non-empty run of decimal digits, whatever the case of the text.
pub proof fn lemma_parse_tokens_canonical(
    project: Seq<char>,
    patterns: Seq<PatternModel>,
    logs: Seq<char>,
)
    requires
        forall|k: int| 0 <= k < patterns.len() ==> (#[trigger] patterns[k]).project == project,
    ensures
        forall|i: int|
            0 <= i < parse_tokens(patterns, logs).len() ==> is_canonical(
                project,
                #[trigger] parse_tokens(patterns, logs)[i],
            ),
{
    let f = |line: Seq<char>| line_tokens(patterns, line);
    let groups = crate::text::lines_of(logs).map_values(f);
    assert forall|k: int|
        0 <= k < groups.len() implies forall|i: int|
        0 <= i < #[trigger] groups[k].len() ==> is_canonical(project, #[trigger] groups[k][i]) by {
        let line = crate::text::lines_of(logs)[k];
        let cands = patterns.map_values(|p: PatternModel| p.find(line));
        assert forall|c: int| 0 <= c < cands.len() && #[trigger] cands[c] is Some implies forall|
            i: int,
        | 0 <= i < cands[c]->0.len() ==> is_canonical(project, #[trigger] cands[c]->0[i]) by {
            lemma_tokens_canonical(
                project,
                crate::matcher::split_pieces(
                    patterns[c].splitter,
                    crate::matcher::group_capture(patterns[c].predicate, line, "inner"@)->0,
                ),
            );
        }
        lemma_best_canonical(project, cands);
    }
    lemma_flatten_canonical(project, groups);
}

/// Every token of a parser for `project_id` is the upper-cased `project_id`, a dash
/// and a non-empty run of decimal digits, whatever the case of the text it came from.
pub proof fn lemma_parser_tokens_canonical(project_id: Seq<char>, logs: Seq<char>)
    ensures
        forall|i: int|
            0 <= i < parse_tokens(parser_model(project_id), logs).len() ==> is_canonical(
                upper_of(project_id),
                #[trigger] parse_tokens(parser_model(project_id), logs)[i],
            ),
{
    lemma_parse_tokens_canonical(upper_of(project_id), parser_model(project_id), logs);
}

proof fn lemma_digit_from_skips(s: Seq<char>, i: int, m: int)
    requires
        0 <= i <= m < s.len(),
        is_digit(s[m]),
        forall|j: int| i <= j < m ==> !is_digit(#[trigger] s[j]),
    ensures
        digit_from(s, i) == m,
    decreases m - i,
{
    if i < m {
        lemma_digit_from_skips(s, i + 1, m);
    }
}

proof fn lemma_run_end_reaches(s: Seq<char>, i: int)
    requires
        0 <= i <= s.len(),
        forall|j: int| i <= j < s.len() ==> is_digit(#[trigger] s[j]),
    ensures
        run_end(s, i) == s.len(),
    decreases s.len() - i,
{
    if i < s.len() {
        lemma_run_end_reaches(s, i + 1);
    }
}

/// An identifier standing alone in a group, written as `written` (the project id in
/// any case, holding no digit), a dash and the digits `number`, gives the single
/// token `upper_of(project_id)`, a dash, `number`, whichever notation `k` found it.
pub proof fn lemma_lone_identifier_token(
    project_id: Seq<char>,
    k: int,
    written: Seq<char>,
    number: Seq<char>,
)
    requires
        0 <= k < shape_table().len(),
        forall|j: int| 0 <= j < written.len() ==> !is_digit(#[trigger] written[j]),
        number.len() > 0,
        all_digits(number),
    ensures
        tokens_of(shape_pattern(project_id, shape_table()[k]).project, seq![written + seq!['-'] + number])
            == seq![upper_of(project_id) + seq!['-'] + number],
{
    let s = written + seq!['-'] + number;
    let m: int = written.len() as int + 1;
    assert forall|j: int| 0 <= j < m implies !is_digit(#[trigger] s[j]) by {
        if j < written.len() {
            assert(s[j] == written[j]);
        }
    }
    assert(s[m] == number[0]);
    lemma_digit_from_skips(s, 0, m);
    assert forall|j: int| m <= j < s.len() implies is_digit(#[trigger] s[j]) by {
        assert(s[j] == number[j - m]);
    }
    lemma_run_end_reaches(s, m);
    assert(first_digit_run(s) =~= number);
    let pred = |x: Seq<char>| names_identifier(x);
    seq![s].lemma_filter_push(s, pred);
    assert(seq![s] =~= Seq::<Seq<char>>::empty().push(s));
    Seq::<Seq<char>>::empty().lemma_filter_push(s, pred);
    reveal(Seq::filter);
    assert(seq![s].filter(pred) =~= seq![s]);
    let upper = shape_pattern(project_id, shape_table()[k]).project;
    assert(tokens_of(upper, seq![s]) =~= seq![token_of(upper, s)]);
}

/// The result kept over the first `n` candidates is empty or one of them.
proof fn lemma_best_of_prefix(cands: Seq<Option<Seq<Seq<char>>>>, n: int)
    requires
        0 <= n <= cands.len(),
    ensures
        best_of(cands.take(n)) == Seq::<Seq<char>>::empty() || exists|j: int|
            0 <= j < n && #[trigger] cands[j] is Some && best_of(cands.take(n)) == cands[j]->0,
    decreases n,
{
    if n > 0 {
        assert(cands.take(n).drop_last() =~= cands.take(n - 1));
        lemma_best_of_prefix(cands, n - 1);
        if best_of(cands.take(n - 1)) != Seq::<Seq<char>>::empty() {
            let j = choose|j: int|
                0 <= j < n - 1 && #[trigger] cands[j] is Some && best_of(cands.take(n - 1))
                    == cands[j]->0;
            assert(0 <= j < n && cands[j] is Some);
        }
    }
}

/// When the first `k` candidates are all shorter than candidate `k` and none is
/// longer, the result kept over the first `n > k` candidates is candidate `k`.
proof fn lemma_best_of_first_longest(cands: Seq<Option<Seq<Seq<char>>>>, k: int, n: int)
    requires
        0 <= k < n <= cands.len(),
        cands[k] is Some,
        forall|j: int|
            0 <= j < k && #[trigger] cands[j] is Some ==> cands[j]->0.len() < cands[k]->0.len(),
        forall|j: int|
            0 <= j < cands.len() && #[trigger] cands[j] is Some ==> cands[j]->0.len()
                <= cands[k]->0.len(),
    ensures
        best_of(cands.take(n)) == cands[k]->0,
    decreases n,
{
    assert(cands.take(n).drop_last() =~= cands.take(n - 1));
    assert(cands.take(n).last() == cands[n - 1]);
    if n - 1 > k {
        lemma_best_of_first_longest(cands, k, n - 1);
    } else {
        lemma_best_of_prefix(cands, k);
        if cands[k]->0.len() == 0 {
            assert(cands[k]->0 =~= Seq::<Seq<char>>::empty());
        }
    }
}

/// When several patterns find the largest number of tokens on a line, the line
/// gets the tokens of the earliest of them: `k` is the first pattern to reach the
/// largest count, and no pattern exceeds it.
pub proof fn lemma_earliest_longest_wins(patterns: Seq<PatternModel>, line: Seq<char>, k: int)
    requires
        0 <= k < patterns.len(),
        patterns[k].find(line) is Some,
        forall|j: int|
            0 <= j < k && (#[trigger] patterns[j].find(line)) is Some ==> patterns[j].find(
                line,
            )->0.len() < patterns[k].find(line)->0.len(),
        forall|j: int|
            0 <= j < patterns.len() && (#[trigger] patterns[j].find(line)) is Some
                ==> patterns[j].find(line)->0.len() <= patterns[k].find(line)->0.len(),
    ensures
        line_tokens(patterns, line) == patterns[k].find(line)->0,
{
    let cands = patterns.map_values(|p: PatternModel| p.find(line));
    assert(cands.take(cands.len() as int) =~= cands);
    assert forall|j: int| 0 <= j < cands.len() implies #[trigger] cands[j] == patterns[j].find(
        line,
    ) by {}
    lemma_best_of_first_longest(cands, k, cands.len() as int);
}

/// A line on which no pattern finds a group gets no tokens.
pub proof fn lemma_no_group_no_tokens(patterns: Seq<PatternModel>, line: Seq<char>)
    requires
        forall|j: int| 0 <= j < patterns.len() ==> (#[trigger] patterns[j].find(line)) is None,
    ensures
        line_tokens(patterns, line) == Seq::<Seq<char>>::empty(),
{
    let cands = patterns.map_values(|p: PatternModel| p.find(line));
    assert(cands.take(cands.len() as int) =~= cands);
    lemma_best_of_prefix(cands, cands.len() as int);
}

} // verus!
