//! Routing rules: a pattern with the browser it sends a URL to, and the
//! ordered list of them in which the first rule that matches wins.

use vstd::prelude::*;
use crate::pattern::{PatternModel, UrlModel, UrlParts, UrlPattern};
use crate::text::same_text;

verus! {

/// A pattern and the identifier of the browser that opens what it
/// matches. A rule whose text was no pattern has none, and matches
/// nothing.
#[derive(Debug, Eq)]
pub struct MatchRule {
    pub browser: String,
    pub pattern: Option<UrlPattern>,
}

/// What a `MatchRule` stands for.
pub struct RuleModel {
    pub browser: Seq<char>,
    pub pattern: Option<PatternModel>,
}

impl View for MatchRule {
    type V = RuleModel;

    open spec fn view(&self) -> RuleModel {
        RuleModel {
            browser: self.browser@,
            pattern: match self.pattern {
                Some(pattern) => Some(pattern@),
                None => None,
            },
        }
    }
}

/// Two rules are equal when they stand for the same.
impl PartialEq for MatchRule {
    fn eq(&self, other: &MatchRule) -> (same: bool) {
        same_text(self.browser.as_str(), other.browser.as_str()) && self.pattern == other.pattern
    }
}

impl vstd::std_specs::cmp::PartialEqSpecImpl for MatchRule {
    open spec fn obeys_eq_spec() -> bool {
        true
    }

    open spec fn eq_spec(&self, other: &MatchRule) -> bool {
        self@ == other@
    }
}

impl RuleModel {
    /// Whether the rule has a pattern and the URL meets it.
    pub open spec fn matches(self, url: UrlModel) -> bool {
        self.pattern matches Some(pattern) && pattern.matches(url)
    }

    /// The rule that a configuration entry stands for.
    pub open spec fn from_text(browser: Seq<char>, pattern: Seq<char>) -> RuleModel {
        RuleModel {
            browser,
            pattern: match PatternModel::parse(pattern) {
                Ok(p) => Some(p),
                Err(_) => None,
            },
        }
    }
}

/// What a list of rules stands for, rule by rule.
pub open spec fn rule_views(rules: Seq<MatchRule>) -> Seq<RuleModel> {
    rules.map_values(|rule: MatchRule| rule@)
}

/// Rule `i` matches the URL and no rule before it does.
pub open spec fn is_first_match(rules: Seq<RuleModel>, url: UrlModel, i: int) -> bool {
    &&& 0 <= i < rules.len()
    &&& rules[i].matches(url)
    &&& forall|j: int| 0 <= j < i ==> !(#[trigger] rules[j]).matches(url)
}

/// The place of the first rule that matches the URL.
pub open spec fn first_match(rules: Seq<RuleModel>, url: UrlModel) -> Option<int> {
    if exists|i: int| is_first_match(rules, url, i) {
        Some(choose|i: int| is_first_match(rules, url, i))
    } else {
        None
    }
}

/// The browser of the first rule that matches the URL.
pub open spec fn resolve_spec(rules: Seq<RuleModel>, url: UrlModel) -> Option<Seq<char>> {
    match first_match(rules, url) {
        Some(i) => Some(rules[i].browser),
        None => None,
    }
}

/// At most one rule is the first that matches.
pub proof fn lemma_first_match_unique(rules: Seq<RuleModel>, url: UrlModel, i: int, j: int)
    requires
        is_first_match(rules, url, i),
        is_first_match(rules, url, j),
    ensures
        i == j,
{
    if i < j {
        assert(!rules[i].matches(url));
    } else if j < i {
        assert(!rules[j].matches(url));
    }
}

/// Where some rule matches the URL, one of them is the first.
pub proof fn lemma_first_match_exists(rules: Seq<RuleModel>, url: UrlModel, i: int)
    requires
        0 <= i < rules.len(),
        rules[i].matches(url),
    ensures
        first_match(rules, url) matches Some(k) && k <= i && is_first_match(rules, url, k),
    decreases i,
{
    if exists|j: int| 0 <= j < i && (#[trigger] rules[j]).matches(url) {
        let j = choose|j: int| 0 <= j < i && (#[trigger] rules[j]).matches(url);
        lemma_first_match_exists(rules, url, j);
    } else {
        assert(is_first_match(rules, url, i));
        let k = choose|k: int| is_first_match(rules, url, k);
        lemma_first_match_unique(rules, url, i, k);
    }
}

/// First match wins: the URL goes to the browser of the rule that matches
/// it and has no matching rule before it, whatever comes after.
pub proof fn lemma_first_match_wins(rules: Seq<RuleModel>, url: UrlModel, i: int)
    requires
        is_first_match(rules, url, i),
    ensures
        resolve_spec(rules, url) == Some(rules[i].browser),
{
    let k = choose|k: int| is_first_match(rules, url, k);
    lemma_first_match_unique(rules, url, i, k);
}

/// Of two rules that both match the URL, the one that stands first gives
/// the browser.
pub proof fn lemma_first_of_two_wins(first: RuleModel, second: RuleModel, url: UrlModel)
    requires
        first.matches(url),
        second.matches(url),
    ensures
        resolve_spec(seq![first, second], url) == Some(first.browser),
{
    let rules = seq![first, second];
    assert(is_first_match(rules, url, 0));
    lemma_first_match_wins(rules, url, 0);
}

/// No match, no browser: the rules name a browser for the URL exactly
/// when one of them matches it.
pub proof fn lemma_no_match_no_browser(rules: Seq<RuleModel>, url: UrlModel)
    ensures
        resolve_spec(rules, url) is None <==> forall|i: int|
            0 <= i < rules.len() ==> !(#[trigger] rules[i]).matches(url),
{
    if exists|i: int| 0 <= i < rules.len() && (#[trigger] rules[i]).matches(url) {
        let i = choose|i: int| 0 <= i < rules.len() && (#[trigger] rules[i]).matches(url);
        lemma_first_match_exists(rules, url, i);
    }
}

/// A rule without a pattern changes nothing: the rules with it taken out
/// send every URL where the rules with it do.
pub proof fn lemma_disabled_rule(rules: Seq<RuleModel>, url: UrlModel, i: int)
    requires
        0 <= i < rules.len(),
        rules[i].pattern is None,
    ensures
        resolve_spec(rules.remove(i), url) == resolve_spec(rules, url),
{
    let rest = rules.remove(i);
    assert forall|j: int| 0 <= j < rest.len() implies #[trigger] rest[j] == rules[if j < i {
        j
    } else {
        j + 1
    }] by {}
    lemma_no_match_no_browser(rules, url);
    lemma_no_match_no_browser(rest, url);
    if let Some(k) = first_match(rules, url) {
        assert(is_first_match(rules, url, k));
        let k2 = if k < i {
            k
        } else {
            k - 1
        };
        assert(rest[k2] == rules[k]);
        assert(is_first_match(rest, url, k2)) by {
            assert forall|j: int| 0 <= j < k2 implies !(#[trigger] rest[j]).matches(url) by {
                let j2 = if j < i {
                    j
                } else {
                    j + 1
                };
                assert(rest[j] == rules[j2]);
                assert(!rules[j2].matches(url));
            }
        }
        lemma_first_match_wins(rest, url, k2);
    } else {
        assert forall|j: int| 0 <= j < rest.len() implies !(#[trigger] rest[j]).matches(url) by {
            let j2 = if j < i {
                j
            } else {
                j + 1
            };
            assert(rest[j] == rules[j2]);
            assert(!rules[j2].matches(url));
        }
    }
}

/// The text under which a rule's pattern is stored: the canonical text of
/// the pattern, and nothing for a rule without one.
pub fn serialize(pattern: &Option<UrlPattern>) -> (text: Option<String>)
    ensures
        match pattern {
            Some(p) => text matches Some(t) && t@ == p@.text(),
            None => text is None,
        },
{
    match pattern {
        Some(p) => Some(p.to_string()),
        None => None,
    }
}

/// The pattern that a stored text stands for. A text that is no pattern
/// gives a rule without one: the rule is switched off, and the rest of
/// the configuration stays in force.
pub fn deserialize(text: &str) -> (pattern: Option<UrlPattern>)
    ensures
        match PatternModel::parse(text@) {
            Ok(p) => pattern matches Some(found) && found@ == p,
            Err(_) => pattern is None,
        },
        pattern matches Some(found) ==> found@.wf(),
{
    UrlPattern::parse(text)
}

impl MatchRule {
    /// The rule of a configuration entry.
    pub fn from_text(browser: String, pattern: &str) -> (rule: MatchRule)
        ensures
            rule@ == RuleModel::from_text(browser@, pattern@),
    {
        MatchRule { browser, pattern: deserialize(pattern) }
    }

    /// Whether the rule has a pattern and the URL meets it.
    pub fn is_match(&self, url: &UrlParts) -> (b: bool)
        ensures
            b == self@.matches(url@),
    {
        match &self.pattern {
            Some(pattern) => pattern.is_match(url),
            None => false,
        }
    }
}

/// The place of the first rule, in the order of the list, that matches
/// the URL; `None` where no rule matches.
pub fn find_rule(rules: &[MatchRule], url: &UrlParts) -> (found: Option<usize>)
    ensures
        match found {
            Some(i) => is_first_match(rule_views(rules@), url@, i as int),
            None => forall|i: int|
                0 <= i < rules@.len() ==> !(#[trigger] rule_views(rules@)[i]).matches(url@),
        },
        found matches Some(i) ==> first_match(rule_views(rules@), url@) == Some(i as int),
        found is None ==> first_match(rule_views(rules@), url@) is None,
{
    let ghost views = rule_views(rules@);
    let mut i: usize = 0;
    while i < rules.len()
        invariant
            i <= rules@.len(),
            views == rule_views(rules@),
            forall|j: int| 0 <= j < i ==> !(#[trigger] views[j]).matches(url@),
        decreases rules@.len() - i,
    {
        if rules[i].is_match(url) {
            proof {
                assert(views[i as int] == rules@[i as int]@);
                assert(is_first_match(views, url@, i as int));
                let chosen = choose|k: int| is_first_match(views, url@, k);
                lemma_first_match_unique(views, url@, i as int, chosen);
            }
            return Some(i);
        }
        assert(views[i as int] == rules@[i as int]@);
        i += 1;
    }
    None
}

/// The browser that the rules send the URL to: that of the first rule
/// that matches. `None` where no rule matches, and the choice is left to
/// the user.
pub fn resolve<'a>(rules: &'a [MatchRule], url: &UrlParts) -> (browser: Option<&'a String>)
    ensures
        match resolve_spec(rule_views(rules@), url@) {
            Some(id) => browser matches Some(b) && b@ == id,
            None => browser is None,
        },
{
    match find_rule(rules, url) {
        Some(i) => {
            assert(rule_views(rules@)[i as int] == rules@[i as int]@);
            Some(&rules[i].browser)
        },
        None => None,
    }
}

/// The rules of a configuration, one for each entry of a browser
/// identifier and a pattern text, in the order of the entries.
pub fn parse_rule_set(entries: &[(String, String)]) -> (rules: Vec<MatchRule>)
    ensures
        rules@.len() == entries@.len(),
        forall|i: int|
            0 <= i < entries@.len() ==> (#[trigger] rules@[i])@ == RuleModel::from_text(
                entries@[i].0@,
                entries@[i].1@,
            ),
{
    let mut rules: Vec<MatchRule> = Vec::new();
    let mut i: usize = 0;
    while i < entries.len()
        invariant
            i <= entries@.len(),
            rules@.len() == i,
            forall|j: int|
                0 <= j < i ==> (#[trigger] rules@[j])@ == RuleModel::from_text(
                    entries@[j].0@,
                    entries@[j].1@,
                ),
        decreases entries@.len() - i,
    {
        let entry = &entries[i];
        rules.push(MatchRule::from_text(entry.0.clone(), entry.1.as_str()));
        i += 1;
    }
    rules
}

} // verus!
