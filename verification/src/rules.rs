//! User-defined custom rules.
//!
//! Each configured rule is a named regex pattern, evaluated line by line
//! against the source text; every matching line yields one match record with
//! the rule's name, the 1-based line number, and the trimmed line as snippet.
//! A rule whose pattern does not compile is skipped; the other rules still
//! run.  The regex engine is an outside library: compilation and matching are
//! trusted at their stated contracts, everything around them is verified.

use vstd::prelude::*;

use crate::config::{CustomRule, CustomRuleV};
use crate::findings::{CustomRuleMatch, CustomRuleMatchV};

verus! {

#[verifier::external_type_specification]
#[verifier::external_body]
pub struct ExRegex(regex::Regex);

/// Whether `pattern` is a valid regular expression (what `regex::Regex::new`
/// accepts).
pub uninterp spec fn regex_valid(pattern: Seq<char>) -> bool;

/// The pattern a compiled regex was built from.
pub uninterp spec fn regex_pattern(re: regex::Regex) -> Seq<char>;

/// Whether `pattern` matches somewhere inside `text`.
pub uninterp spec fn regex_match(pattern: Seq<char>, text: Seq<char>) -> bool;

/// The result of trimming leading and trailing whitespace from `s`.
pub uninterp spec fn trimmed(s: Seq<char>) -> Seq<char>;

/// Relies on regex::Regex::new: it compiles exactly the valid patterns, and
/// the compiled value denotes the pattern it was built from.
#[verifier::external_body]
fn regex_compile(pattern: &str) -> (r: Option<regex::Regex>)
    ensures
        r is Some <==> regex_valid(pattern@),
        r matches Some(re) ==> regex_pattern(re) == pattern@,
{
    regex::Regex::new(pattern).ok()
}

/// Relies on regex::Regex::find: it finds a match in `line` exactly when the
/// compiled pattern matches somewhere in it.
#[verifier::external_body]
fn regex_find(re: &regex::Regex, line: &str) -> (r: bool)
    ensures
        r == regex_match(regex_pattern(*re), line@),
{
    re.find(line).is_some()
}

/// Relies on str::trim: the trimmed text depends on the characters alone.
#[verifier::external_body]
fn trim_str(s: &str) -> (r: String)
    ensures
        r@ == trimmed(s@),
{
    s.trim().to_owned()
}

/// The index of the first newline in `s`, or `s.len()` when there is none.
pub open spec fn find_nl(s: Seq<char>) -> int
    decreases s,
{
    if s.len() == 0 {
        0
    } else if s[0] == '\n' {
        0
    } else {
        1 + find_nl(s.drop_first())
    }
}

/// [`find_nl`] stays within `0 ..= s.len()`.
proof fn lemma_find_nl_bounds(s: Seq<char>)
    ensures
        0 <= find_nl(s) <= s.len(),
    decreases s,
{
    if s.len() > 0 && s[0] != '\n' {
        lemma_find_nl_bounds(s.drop_first());
    }
}

/// [`find_nl`] is determined by where the first newline actually sits.
proof fn lemma_find_nl_at(s: Seq<char>, i: int)
    requires
        0 <= i <= s.len(),
        forall|k: int| 0 <= k < i ==> s[k] != '\n',
        i == s.len() || s[i] == '\n',
    ensures
        find_nl(s) == i,
    decreases i,
{
    if i == 0 {
    } else {
        lemma_find_nl_at(s.drop_first(), i - 1);
    }
}

/// A carriage return directly before a line break is stripped from the line.
pub open spec fn strip_cr(l: Seq<char>) -> Seq<char> {
    if l.len() > 0 && l.last() == '\r' {
        l.drop_last()
    } else {
        l
    }
}

/// The lines of `s`: split at `\n` (a preceding `\r` stripped); the final
/// line ending is optional, and a lone trailing carriage return stays.
pub open spec fn lines_of(s: Seq<char>) -> Seq<Seq<char>>
    decreases s.len(),
    via lines_of_decreases
{
    if s.len() == 0 {
        Seq::empty()
    } else {
        let j = find_nl(s);
        if j == s.len() {
            seq![s]
        } else {
            seq![strip_cr(s.take(j))] + lines_of(s.skip(j + 1))
        }
    }
}

#[via_fn]
proof fn lines_of_decreases(s: Seq<char>) {
    lemma_find_nl_bounds(s);
}

/// Splits the source text into its lines.
pub fn split_lines(source: &str) -> (r: Vec<String>)
    ensures
        r.deep_view() == lines_of(source@),
{
    let n = source.unicode_len();
    let mut lines: Vec<String> = Vec::new();
    let mut start: usize = 0;
    proof {
        assert(lines.deep_view() =~= Seq::<Seq<char>>::empty());
        assert(source@.skip(0) =~= source@);
        assert(lines.deep_view() + lines_of(source@) =~~= lines_of(source@));
    }
    while start < n
        invariant
            n == source@.len(),
            start <= n,
            lines_of(source@) == lines.deep_view() + lines_of(source@.skip(start as int)),
        decreases n - start,
    {
        let ghost suffix = source@.skip(start as int);
        let mut j = start;
        while j < n && source.get_char(j) != '\n'
            invariant
                n == source@.len(),
                start <= j <= n,
                forall|k: int| start <= k < j ==> source@[k] != '\n',
            decreases n - j,
        {
            j = j + 1;
        }
        proof {
            assert forall|k: int| 0 <= k < j - start implies suffix[k] != '\n' by {
                assert(suffix[k] == source@[start + k]);
            }
            lemma_find_nl_at(suffix, j - start);
        }
        let line_end = if j < n && j > start && source.get_char(j - 1) == '\r' {
            j - 1
        } else {
            j
        };
        let line_slice = source.substring_char(start, line_end);
        let line = line_slice.to_owned();
        let ghost pre = lines.deep_view();
        lines.push(line);
        if j < n {
            proof {
                assert(line@ =~= strip_cr(suffix.take(j - start)));
                assert(suffix.skip(j - start + 1) =~= source@.skip(j + 1));
                assert(lines.deep_view() =~~= pre + seq![strip_cr(suffix.take(j - start))]);
                assert(lines_of(suffix) == seq![strip_cr(suffix.take(j - start))] + lines_of(
                    source@.skip(j + 1),
                ));
                assert(lines.deep_view() + lines_of(source@.skip(j + 1)) =~~= pre + lines_of(
                    suffix,
                ));
            }
            start = j + 1;
        } else {
            proof {
                assert(line@ =~= suffix);
                assert(lines_of(suffix) == seq![suffix]);
                assert(source@.skip(n as int) =~= Seq::<char>::empty());
                assert(lines.deep_view() + lines_of(source@.skip(n as int)) =~~= pre + lines_of(
                    suffix,
                ));
            }
            start = n;
        }
    }
    proof {
        assert(source@.skip(start as int) =~= Seq::<char>::empty());
        assert(lines.deep_view() =~~= lines_of(source@));
    }
    lines
}

/// The matches one valid rule produces over the lines, in line order; line
/// numbers are 1-based and the snippet is the trimmed line.
pub open spec fn matches_for_rule(rule: CustomRuleV, lines: Seq<Seq<char>>) -> Seq<
    CustomRuleMatchV,
>
    decreases lines,
{
    if lines.len() == 0 {
        Seq::empty()
    } else {
        matches_for_rule(rule, lines.drop_last()) + (if regex_match(rule.pattern, lines.last()) {
            seq![
                CustomRuleMatchV {
                    rule_name: rule.name,
                    line: lines.len() as usize,
                    snippet: trimmed(lines.last()),
                },
            ]
        } else {
            Seq::<CustomRuleMatchV>::empty()
        })
    }
}

/// The matches of a list of rules, rule by rule; a rule whose pattern is not
/// a valid regex contributes nothing.
pub open spec fn custom_rule_matches(rules: Seq<CustomRuleV>, lines: Seq<Seq<char>>) -> Seq<
    CustomRuleMatchV,
>
    decreases rules,
{
    if rules.len() == 0 {
        Seq::empty()
    } else {
        custom_rule_matches(rules.drop_last(), lines) + (if regex_valid(rules.last().pattern) {
            matches_for_rule(rules.last(), lines)
        } else {
            Seq::<CustomRuleMatchV>::empty()
        })
    }
}

/// Runs every configured rule against every line of `source`: each matching
/// line yields one record naming the rule, the 1-based line number, and the
/// trimmed line; invalid patterns are skipped.
pub fn analyze_custom_rules_in_source(source: &str, rules: &[CustomRule]) -> (r: Vec<
    CustomRuleMatch,
>)
    ensures
        r.deep_view() == custom_rule_matches(rules.deep_view(), lines_of(source@)),
{
    let lines = split_lines(source);
    let mut matches: Vec<CustomRuleMatch> = Vec::new();
    let nr = rules.len();
    proof {
        assert(matches.deep_view() =~= Seq::<CustomRuleMatchV>::empty());
    }
    for ri in 0..nr
        invariant
            nr == rules@.len(),
            lines.deep_view() == lines_of(source@),
            matches.deep_view() == custom_rule_matches(
                rules.deep_view().take(ri as int),
                lines_of(source@),
            ),
        decreases nr - ri,
    {
        let ghost pre = matches.deep_view();
        let compiled = regex_compile(rules[ri].pattern.as_str());
        match compiled {
            Some(re) => {
                let nl = lines.len();
                for li in 0..nl
                    invariant
                        nr == rules@.len(),
                        ri < nr,
                        nl == lines@.len(),
                        lines.deep_view() == lines_of(source@),
                        regex_pattern(re) == rules.deep_view()[ri as int].pattern,
                        matches.deep_view() == pre + matches_for_rule(
                            rules.deep_view()[ri as int],
                            lines.deep_view().take(li as int),
                        ),
                    decreases nl - li,
                {
                    let ghost mpre = matches.deep_view();
                    if regex_find(&re, lines[li].as_str()) {
                        let snippet = trim_str(lines[li].as_str());
                        matches.push(
                            CustomRuleMatch {
                                rule_name: rules[ri].name.clone(),
                                line: li + 1,
                                snippet,
                            },
                        );
                    }
                    proof {
                        let ghost rulev = rules.deep_view()[ri as int];
                        let ghost lv = lines.deep_view().take(li + 1);
                        assert(lv.drop_last() =~= lines.deep_view().take(li as int));
                        assert(lv.last() == lines.deep_view()[li as int]);
                        assert(lines.deep_view()[li as int] == lines@[li as int]@);
                        assert(matches_for_rule(rulev, lv) == matches_for_rule(
                            rulev,
                            lv.drop_last(),
                        ) + (if regex_match(rulev.pattern, lv.last()) {
                            seq![
                                CustomRuleMatchV {
                                    rule_name: rulev.name,
                                    line: lv.len() as usize,
                                    snippet: trimmed(lv.last()),
                                },
                            ]
                        } else {
                            Seq::<CustomRuleMatchV>::empty()
                        }));
                        assert(matches.deep_view() =~~= mpre + (if regex_match(
                            rulev.pattern,
                            lv.last(),
                        ) {
                            seq![
                                CustomRuleMatchV {
                                    rule_name: rulev.name,
                                    line: lv.len() as usize,
                                    snippet: trimmed(lv.last()),
                                },
                            ]
                        } else {
                            Seq::<CustomRuleMatchV>::empty()
                        }));
                        assert(matches.deep_view() =~~= pre + matches_for_rule(rulev, lv));
                    }
                }
                proof {
                    assert(lines.deep_view().take(nl as int) =~= lines.deep_view());
                }
            },
            None => {},
        }
        proof {
            assert(rules.deep_view().take(ri + 1).drop_last() =~= rules.deep_view().take(
                ri as int,
            ));
            assert(rules.deep_view().take(ri + 1).last() == rules.deep_view()[ri as int]);
            assert(matches.deep_view() =~~= custom_rule_matches(
                rules.deep_view().take(ri + 1),
                lines_of(source@),
            ));
        }
    }
    proof {
        assert(rules.deep_view().take(nr as int) =~= rules.deep_view());
    }
    matches
}

} // verus!
