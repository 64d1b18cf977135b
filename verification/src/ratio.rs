//! Ratio expressions inside the value of a declaration.
//!
//! A ratio expression is a numerator and a denominator around one of the
//! delimiters `/`, `|` and `:`, with an optional quote on either side. The
//! expressions of a value are found by a regular expression; each one whose
//! percentage is known is replaced by that percentage.

use crate::text::text_eq;
use regex::Regex;
use vstd::prelude::*;
use vstd::string::StringExecFns;

verus! {

/// The regular expression of a ratio expression. Group 1 is the numerator,
/// group 2 the denominator; either may be empty.
pub const RATIO_PATTERN: &'static str =
    "['\"]?(?:((?:\\d*\\.?\\d*)?)(?:\\s*[/|:]\\s*)(\\d*\\.?\\d*))['\"]?";

/// What the regular expression `pattern` captures in `haystack`: `None`
/// where the engine rejects the pattern; else one entry for each match, in
/// the order of the matches, and in it the text of every group, group 0
/// being the whole match and a group that took no part `None`.
pub uninterp spec fn regex_captures(pattern: Seq<char>, haystack: Seq<char>) -> Option<
    Seq<Seq<Option<Seq<char>>>>,
>;

/// What is left of `haystack` between the matches of the regular expression
/// `pattern`, in order: `None` where the engine rejects the pattern.
pub uninterp spec fn regex_split(pattern: Seq<char>, haystack: Seq<char>) -> Option<
    Seq<Seq<char>>,
>;

/// `regex::Regex::new` on `pattern`, then `Regex::captures_iter` on
/// `haystack`, with the text of each group of each match copied out
/// (`Captures::iter`, `Match::as_str`). The result is a function of the two
/// texts alone, and the contract gives it its name.
#[verifier::external_body]
fn captures_iter(pattern: &str, haystack: &str) -> (found: Option<Vec<Vec<Option<String>>>>)
    ensures
        found.deep_view() == regex_captures(pattern@, haystack@),
{
    let regex = Regex::new(pattern).ok()?;
    Some(
        regex.captures_iter(haystack).map(
            |captures| captures.iter().map(|group| group.map(|m| m.as_str().to_owned())).collect(),
        ).collect(),
    )
}

/// `regex::Regex::new` on `pattern`, then `Regex::split` on `haystack`, with
/// each piece copied out. The result is a function of the two texts alone,
/// and the contract gives it its name.
#[verifier::external_body]
fn split(pattern: &str, haystack: &str) -> (pieces: Option<Vec<String>>)
    ensures
        pieces.deep_view() == regex_split(pattern@, haystack@),
{
    let regex = Regex::new(pattern).ok()?;
    Some(regex.split(haystack).map(|piece| piece.to_owned()).collect())
}

/// The two sides of one ratio expression, as they stand in the value.
#[derive(Debug, PartialEq, Eq)]
pub struct RatioOperands {
    pub numerator: String,
    pub denominator: String,
}

/// Model of `RatioOperands`.
pub struct RatioOperandsView {
    pub numerator: Seq<char>,
    pub denominator: Seq<char>,
}

impl View for RatioOperands {
    type V = RatioOperandsView;

    open spec fn view(&self) -> RatioOperandsView {
        RatioOperandsView { numerator: self.numerator@, denominator: self.denominator@ }
    }
}

impl DeepView for RatioOperands {
    type V = RatioOperandsView;

    open spec fn deep_view(&self) -> RatioOperandsView {
        self@
    }
}

/// The two sides of a ratio expression with what they come to:
/// `percentage` is the decimal text of denominator / numerator x 100 as a
/// single-precision number, without the `%` sign, and `None` where a side is
/// not a number.
#[derive(Debug, PartialEq, Eq)]
pub struct RatioEvaluation {
    pub numerator: String,
    pub denominator: String,
    pub percentage: Option<String>,
}

/// Model of `RatioEvaluation`.
pub struct RatioEvaluationView {
    pub numerator: Seq<char>,
    pub denominator: Seq<char>,
    pub percentage: Option<Seq<char>>,
}

impl View for RatioEvaluation {
    type V = RatioEvaluationView;

    open spec fn view(&self) -> RatioEvaluationView {
        RatioEvaluationView {
            numerator: self.numerator@,
            denominator: self.denominator@,
            percentage: self.percentage.deep_view(),
        }
    }
}

impl DeepView for RatioEvaluation {
    type V = RatioEvaluationView;

    open spec fn deep_view(&self) -> RatioEvaluationView {
        self@
    }
}

/// The text of group `index` of one match; empty where the match has no such
/// group or the group took no part in it.
pub open spec fn group_text(groups: Seq<Option<Seq<char>>>, index: int) -> Seq<char> {
    if 0 <= index < groups.len() {
        match groups[index] {
            Some(text) => text,
            None => Seq::empty(),
        }
    } else {
        Seq::empty()
    }
}

/// The operands of every match: group 1 is the numerator, group 2 the
/// denominator. A rejected pattern has no match.
pub open spec fn operands_from(found: Option<Seq<Seq<Option<Seq<char>>>>>) -> Seq<
    RatioOperandsView,
> {
    match found {
        Some(matches) => Seq::new(
            matches.len(),
            |i: int|
                RatioOperandsView {
                    numerator: group_text(matches[i], 1),
                    denominator: group_text(matches[i], 2),
                },
        ),
        None => Seq::empty(),
    }
}

/// The operands of the ratio expressions of `value`, in the order in which
/// they stand in it.
pub open spec fn ratio_operands(value: Seq<char>) -> Seq<RatioOperandsView> {
    operands_from(regex_captures(RATIO_PATTERN@, value))
}

/// What `evaluations` holds for `operands`: the percentage of the first
/// entry with the same numerator and the same denominator, and `None` where
/// there is no such entry.
pub open spec fn looked_up(
    evaluations: Seq<RatioEvaluationView>,
    operands: RatioOperandsView,
) -> Option<Seq<char>>
    decreases evaluations.len(),
{
    if evaluations.len() == 0 {
        None
    } else if evaluations[0].numerator == operands.numerator && evaluations[0].denominator
        == operands.denominator {
        evaluations[0].percentage
    } else {
        looked_up(evaluations.drop_first(), operands)
    }
}

/// The percentage of one ratio expression. An empty side is no number, so a
/// ratio with an empty side has no percentage, whatever `evaluations` holds;
/// any other has the one that it is given there.
pub open spec fn percentage_of(
    evaluations: Seq<RatioEvaluationView>,
    operands: RatioOperandsView,
) -> Option<Seq<char>> {
    if operands.numerator.len() == 0 || operands.denominator.len() == 0 {
        None
    } else {
        looked_up(evaluations, operands)
    }
}

/// Every one of `operands` has a percentage in `evaluations`.
pub open spec fn all_evaluated(
    operands: Seq<RatioOperandsView>,
    evaluations: Seq<RatioEvaluationView>,
) -> bool {
    forall|i: int|
        0 <= i < operands.len() ==> percentage_of(evaluations, #[trigger] operands[i]) is Some
}

/// The percentages of `operands`, in order.
pub open spec fn percentages(
    operands: Seq<RatioOperandsView>,
    evaluations: Seq<RatioEvaluationView>,
) -> Seq<Seq<char>> {
    Seq::new(operands.len(), |i: int| percentage_of(evaluations, operands[i]).unwrap())
}

/// The first `count + 1` of `gaps` with the first `count` of `fills` between
/// them, each fill followed by `%`.
pub open spec fn spliced(gaps: Seq<Seq<char>>, fills: Seq<Seq<char>>, count: nat) -> Seq<char>
    decreases count,
{
    if count == 0 {
        gaps[0]
    } else {
        spliced(gaps, fills, (count - 1) as nat) + fills[count - 1] + "%"@ + gaps[count as int]
    }
}

/// The value of a declaration after the rewrite, from what the regular
/// expression found in it: `operands` for each match and `gaps` around the
/// matches, one more than there are matches. Where there is a match and
/// every match has a percentage, each match gives way to its percentage and
/// a `%` sign. Otherwise the value stands as it was.
pub open spec fn rewritten_from(
    value: Seq<char>,
    operands: Seq<RatioOperandsView>,
    gaps: Option<Seq<Seq<char>>>,
    evaluations: Seq<RatioEvaluationView>,
) -> Seq<char> {
    if operands.len() > 0 && gaps is Some && gaps.unwrap().len() == operands.len() + 1
        && all_evaluated(operands, evaluations) {
        spliced(gaps.unwrap(), percentages(operands, evaluations), operands.len())
    } else {
        value
    }
}

/// The value of a declaration after the rewrite.
pub open spec fn rewritten_value(value: Seq<char>, evaluations: Seq<RatioEvaluationView>) -> Seq<
    char,
> {
    rewritten_from(
        value,
        ratio_operands(value),
        regex_split(RATIO_PATTERN@, value),
        evaluations,
    )
}

/// A copy of the text of group `index` of one match.
fn group_of(groups: &Vec<Option<String>>, index: usize) -> (text: String)
    ensures
        text@ == group_text(groups.deep_view(), index as int),
{
    if index < groups.len() {
        match &groups[index] {
            Some(group) => group.clone(),
            None => String::new(),
        }
    } else {
        String::new()
    }
}

/// Picks numerator and denominator out of what the regular expression
/// captured, match by match.
pub fn operands_from_captures(found: &Option<Vec<Vec<Option<String>>>>) -> (operands: Vec<
    RatioOperands,
>)
    ensures
        operands.deep_view() == operands_from(found.deep_view()),
{
    let mut operands: Vec<RatioOperands> = Vec::new();
    if let Some(matches) = found {
        let mut i: usize = 0;
        while i < matches.len()
            invariant
                i <= matches.len(),
                found == Some(*matches),
                operands.len() == i,
                forall|j: int|
                    0 <= j < i ==> (#[trigger] operands@[j])@ == operands_from(
                        found.deep_view(),
                    )[j],
            decreases matches.len() - i,
        {
            let numerator = group_of(&matches[i], 1);
            let denominator = group_of(&matches[i], 2);
            operands.push(RatioOperands { numerator, denominator });
            i += 1;
        }
    }
    operands
}

/// The operands of the ratio expressions of `value`, in order.
pub fn find_ratio_operands(value: &str) -> (operands: Vec<RatioOperands>)
    ensures
        operands.deep_view() == ratio_operands(value@),
{
    let found = captures_iter(RATIO_PATTERN, value);
    operands_from_captures(&found)
}

/// The percentage of one ratio expression: none where a side is empty, else
/// that of the first entry of `evaluations` with the same numerator and
/// denominator.
pub fn lookup_percentage<'a>(
    evaluations: &'a Vec<RatioEvaluation>,
    operands: &RatioOperands,
) -> (found: Option<&'a String>)
    ensures
        found.deep_view() == percentage_of(evaluations.deep_view(), operands@),
{
    if operands.numerator.as_str().is_empty() || operands.denominator.as_str().is_empty() {
        return None;
    }
    let mut i: usize = 0;
    assert(evaluations.deep_view().skip(0) =~= evaluations.deep_view());
    while i < evaluations.len()
        invariant
            i <= evaluations.len(),
            operands@.numerator.len() != 0,
            operands@.denominator.len() != 0,
            looked_up(evaluations.deep_view(), operands@) == looked_up(
                evaluations.deep_view().skip(i as int),
                operands@,
            ),
        decreases evaluations.len() - i,
    {
        let entry = &evaluations[i];
        assert(evaluations.deep_view().skip(i as int).drop_first() =~= evaluations.deep_view().skip(
            i + 1,
        ));
        if text_eq(entry.numerator.as_str(), operands.numerator.as_str()) && text_eq(
            entry.denominator.as_str(),
            operands.denominator.as_str(),
        ) {
            return match &entry.percentage {
                Some(percentage) => Some(percentage),
                None => None,
            };
        }
        i += 1;
    }
    None
}

/// Rewrites `value` from what the regular expression found in it: where
/// there is a match and every match has a percentage in `evaluations`, each
/// match gives way to its percentage and a `%` sign; otherwise the result
/// is `value` as it was.
pub fn splice_percentages(
    value: &str,
    operands: &Vec<RatioOperands>,
    gaps: &Option<Vec<String>>,
    evaluations: &Vec<RatioEvaluation>,
) -> (rewritten: String)
    ensures
        rewritten@ == rewritten_from(
            value@,
            operands.deep_view(),
            gaps.deep_view(),
            evaluations.deep_view(),
        ),
{
    let count = operands.len();
    if count == 0 {
        return value.to_owned();
    }
    let pieces = match gaps {
        Some(pieces) => pieces,
        None => {
            return value.to_owned();
        },
    };
    if pieces.len() == 0 || pieces.len() - 1 != count {
        return value.to_owned();
    }
    let mut rewritten = pieces[0].clone();
    let mut i: usize = 0;
    while i < count
        invariant
            i <= count,
            count == operands.len(),
            pieces.len() == count + 1,
            gaps == Some(*pieces),
            forall|j: int|
                0 <= j < i ==> percentage_of(
                    evaluations.deep_view(),
                    #[trigger] operands.deep_view()[j],
                ) is Some,
            rewritten@ == spliced(
                pieces.deep_view(),
                percentages(operands.deep_view(), evaluations.deep_view()),
                i as nat,
            ),
        decreases count - i,
    {
        match lookup_percentage(evaluations, &operands[i]) {
            Some(percentage) => {
                rewritten.append(percentage.as_str());
                rewritten.append("%");
                rewritten.append(pieces[i + 1].as_str());
            },
            None => {
                return value.to_owned();
            },
        }
        assert(operands.deep_view()[i as int] == operands@[i as int]@);
        i += 1;
    }
    rewritten
}

/// Rewrites the value of a declaration: every ratio expression in it gives
/// way to its percentage, or, where one of them has none, the value stays as
/// it was.
pub fn process_ratio_value(value: &str, evaluations: &Vec<RatioEvaluation>) -> (rewritten: String)
    ensures
        rewritten@ == rewritten_value(value@, evaluations.deep_view()),
{
    let operands = find_ratio_operands(value);
    if operands.len() == 0 {
        return value.to_owned();
    }
    let gaps = split(RATIO_PATTERN, value);
    splice_percentages(value, &operands, &gaps, evaluations)
}

} // verus!
