use crate::pattern::PatternError;
use crate::rule::{filter_compiles, refuses, Rule, RuleSet};
use vstd::prelude::*;

verus! {

/// One rule as the configuration file states it.
pub struct RuleConfig {
    pub class: Option<String>,
    pub title: Option<String>,
    pub on_open: Vec<String>,
    pub on_close: Vec<String>,
    pub on_focus: Vec<String>,
    pub on_unfocus: Vec<String>,
}

/// The text of an optional pattern held as a `String`.
pub open spec fn owned_filter_text(pattern: Option<String>) -> Option<Seq<char>> {
    match pattern {
        Some(text) => Some(text@),
        None => None,
    }
}

/// Whether both patterns of a rule's configuration compile.
pub open spec fn config_compiles(config: RuleConfig) -> bool {
    filter_compiles(owned_filter_text(config.class)) && filter_compiles(
        owned_filter_text(config.title),
    )
}

/// The pattern that is reported when a rule's configuration does not compile:
/// the class pattern when it is refused, else the title pattern.
pub open spec fn refused_filter(config: RuleConfig) -> Option<Seq<char>> {
    if !filter_compiles(owned_filter_text(config.class)) {
        owned_filter_text(config.class)
    } else {
        owned_filter_text(config.title)
    }
}

/// `rule` has exactly the patterns and commands that `config` states.
pub open spec fn rule_follows(rule: Rule, config: RuleConfig) -> bool {
    &&& rule.class_filter() == owned_filter_text(config.class)
    &&& rule.title_filter() == owned_filter_text(config.title)
    &&& rule.open_command() == config.on_open@
    &&& rule.close_command() == config.on_close@
    &&& rule.focus_command() == config.on_focus@
    &&& rule.unfocus_command() == config.on_unfocus@
}

/// What compiling `config` gives: a rule that follows it, or the error for
/// the pattern it refuses.
pub open spec fn compiled_from(result: Result<Rule, PatternError>, config: RuleConfig) -> bool {
    &&& result is Ok <==> config_compiles(config)
    &&& result matches Ok(rule) ==> rule_follows(rule, config)
    &&& result matches Err(error) ==> refused_filter(config) == Some(error.pattern@) && refuses(error)
}

/// Borrows an optional owned pattern as text.
fn as_text(pattern: &Option<String>) -> (text: Option<&str>)
    ensures
        match text {
            Some(t) => owned_filter_text(*pattern) == Some(t@),
            None => pattern is None,
        },
{
    match pattern {
        Some(owned) => Some(owned.as_str()),
        None => None,
    }
}

/// The whole configuration: its rules, in file order.
pub struct Config {
    rule: Vec<RuleConfig>,
}

impl Default for Config {
    /// A configuration without rules.
    fn default() -> (config: Self)
        ensures
            config.rules().len() == 0,
    {
        Config { rule: Vec::new() }
    }
}

impl Config {
    /// The rules as configured, in file order.
    pub closed spec fn rules(&self) -> Seq<RuleConfig> {
        self.rule@
    }

    pub fn new(rule: Vec<RuleConfig>) -> (config: Self)
        ensures
            config.rules() == rule@,
    {
        Config { rule }
    }

    /// The configured rules, in file order.
    pub fn into_rule_configs(self) -> (rules: Vec<RuleConfig>)
        ensures
            rules@ == self.rules(),
    {
        self.rule
    }

    /// Compiles every configured rule, in order. Fails with the error of the
    /// first rule whose class or title pattern the regex crate refuses.
    pub fn into_rules(self) -> (result: Result<RuleSet, PatternError>)
        ensures
            result is Ok <==> forall|i: int|
                0 <= i < self.rules().len() ==> config_compiles(#[trigger] self.rules()[i]),
            result matches Ok(set) ==> {
                &&& set.rules().len() == self.rules().len()
                &&& forall|i: int|
                    0 <= i < self.rules().len() ==> rule_follows(
                        #[trigger] set.rules()[i],
                        self.rules()[i],
                    )
            },
            result matches Err(error) ==> exists|i: int|
                {
                    &&& 0 <= i < self.rules().len()
                    &&& !config_compiles(#[trigger] self.rules()[i])
                    &&& refused_filter(self.rules()[i]) == Some(error.pattern@)
                    &&& refuses(error)
                    &&& forall|j: int| 0 <= j < i ==> config_compiles(#[trigger] self.rules()[j])
                },
    {
        let ghost configs = self.rule@;
        let mut entries: Vec<Result<Rule, PatternError>> = Vec::new();
        for rule_config in iter: self.rule
            invariant
                iter.seq() == configs,
                entries@.len() == iter.index(),
                forall|j: int|
                    0 <= j < iter.index() ==> compiled_from(#[trigger] entries@[j], configs[j]),
        {
            let entry = Rule::new(
                as_text(&rule_config.class),
                as_text(&rule_config.title),
                rule_config.on_open,
                rule_config.on_close,
                rule_config.on_focus,
                rule_config.on_unfocus,
            );
            entries.push(entry);
        }
        let ghost built = entries@;
        assert(built.len() == configs.len());
        assert(configs == self.rules());
        let result = RuleSet::new(entries);
        proof {
            if result is Ok {
                assert forall|i: int|
                    0 <= i < configs.len() implies config_compiles(#[trigger] configs[i]) by {
                    assert(compiled_from(built[i], configs[i]));
                    assert(built[i] is Ok);
                }
                let set = result->Ok_0;
                assert forall|i: int| 0 <= i < configs.len() implies rule_follows(
                    #[trigger] set.rules()[i],
                    configs[i],
                ) by {
                    assert(built[i] == Ok::<Rule, PatternError>(set.rules()[i]));
                    assert(compiled_from(built[i], configs[i]));
                }
            } else {
                let error = result->Err_0;
                let i = choose|i: int|
                    0 <= i < built.len() && #[trigger] built[i] == Err::<Rule, PatternError>(error)
                        && crate::rule::all_compiled(built.take(i));
                assert(compiled_from(built[i], configs[i]));
                assert forall|j: int| 0 <= j < i implies config_compiles(#[trigger] configs[j]) by {
                    assert(built.take(i)[j] == built[j]);
                    assert(compiled_from(built[j], configs[j]));
                }
                assert(!config_compiles(configs[i]));
                assert(refused_filter(configs[i]) == Some(error.pattern@));
            }
        }
        result
    }
}

} // verus!
