use crate::compiled::{pattern_is_match, regex_accepts, regex_is_match, regex_refusal, Pattern};
use crate::pattern::PatternError;
use vstd::prelude::*;

verus! {

/// `error` holds a pattern together with the explanation the regex crate
/// gives for refusing it.
pub open spec fn refuses(error: PatternError) -> bool {
    regex_refusal(error.pattern@) == Some(error.message@)
}

/// The text of an optional pattern argument.
pub open spec fn filter_text(pattern: Option<&str>) -> Option<Seq<char>> {
    match pattern {
        Some(text) => Some(text@),
        None => None,
    }
}

/// An absent filter is always acceptable; a present one when the regex crate
/// accepts it.
pub open spec fn filter_compiles(filter: Option<Seq<char>>) -> bool {
    match filter {
        Some(pattern) => regex_accepts(pattern),
        None => true,
    }
}

/// An absent filter admits every text; a present one the texts in which its
/// regex finds a match.
pub open spec fn filter_admits(filter: Option<Seq<char>>, text: Seq<char>) -> bool {
    match filter {
        Some(pattern) => regex_is_match(pattern, text),
        None => true,
    }
}

/// Compiles an optional pattern.
fn compile_filter(pattern: Option<&str>) -> (result: Result<Option<Pattern>, PatternError>)
    ensures
        result is Ok <==> filter_compiles(filter_text(pattern)),
        result matches Ok(compiled) ==> match compiled {
            Some(p) => filter_text(pattern) == Some(p@),
            None => pattern is None,
        },
        result matches Err(error) ==> filter_text(pattern) == Some(error.pattern@) && refuses(error),
{
    match pattern {
        Some(text) => match Pattern::new(text) {
            Ok(compiled) => Ok(Some(compiled)),
            Err(error) => Err(error),
        },
        None => Ok(None),
    }
}

/// Whether an optional compiled pattern admits `text`.
fn admits(filter: &Option<Pattern>, text: &str) -> (admitted: bool)
    ensures
        admitted == filter_admits(compiled_text(filter), text@),
{
    match filter {
        Some(pattern) => pattern_is_match(pattern, text),
        None => true,
    }
}

/// The source text of an optional compiled pattern.
pub open spec fn compiled_text(filter: &Option<Pattern>) -> Option<Seq<char>> {
    match filter {
        Some(pattern) => Some(pattern@),
        None => None,
    }
}

/// The rules that match a window with this class and title, in order.
pub open spec fn selected(rules: Seq<Rule>, class: Seq<char>, title: Seq<char>) -> Seq<Rule> {
    rules.filter(|rule: Rule| rule.admits_window(class, title))
}

/// The positions of the rules that match a window with this class and
/// title, in increasing order.
pub open spec fn matching_positions(rules: Seq<Rule>, class: Seq<char>, title: Seq<char>) -> Seq<int>
    decreases rules.len(),
{
    if rules.len() == 0 {
        Seq::empty()
    } else {
        let earlier = matching_positions(rules.drop_last(), class, title);
        if rules.last().admits_window(class, title) {
            earlier.push(rules.len() - 1)
        } else {
            earlier
        }
    }
}

/// A window rule: optional class and title patterns, both of which must
/// match, and the command to run on each of the four window events.
pub struct Rule {
    class: Option<Pattern>,
    title: Option<Pattern>,
    on_open: Vec<String>,
    on_close: Vec<String>,
    on_focus: Vec<String>,
    on_unfocus: Vec<String>,
}

impl Rule {
    /// The class pattern's text, if the rule has one.
    pub closed spec fn class_filter(&self) -> Option<Seq<char>> {
        compiled_text(&self.class)
    }

    /// The title pattern's text, if the rule has one.
    pub closed spec fn title_filter(&self) -> Option<Seq<char>> {
        compiled_text(&self.title)
    }

    pub closed spec fn open_command(&self) -> Seq<String> {
        self.on_open@
    }

    pub closed spec fn close_command(&self) -> Seq<String> {
        self.on_close@
    }

    pub closed spec fn focus_command(&self) -> Seq<String> {
        self.on_focus@
    }

    pub closed spec fn unfocus_command(&self) -> Seq<String> {
        self.on_unfocus@
    }

    /// A window matches when each present filter finds a match in its field.
    pub open spec fn admits_window(&self, class: Seq<char>, title: Seq<char>) -> bool {
        filter_admits(self.class_filter(), class) && filter_admits(self.title_filter(), title)
    }

    /// Builds a rule. The class pattern is compiled first, so when both are
    /// refused the error names the class pattern.
    pub fn new(
        class: Option<&str>,
        title: Option<&str>,
        on_open: Vec<String>,
        on_close: Vec<String>,
        on_focus: Vec<String>,
        on_unfocus: Vec<String>,
    ) -> (result: Result<Rule, PatternError>)
        ensures
            result is Ok <==> filter_compiles(filter_text(class)) && filter_compiles(
                filter_text(title),
            ),
            result matches Ok(rule) ==> {
                &&& rule.class_filter() == filter_text(class)
                &&& rule.title_filter() == filter_text(title)
                &&& rule.open_command() == on_open@
                &&& rule.close_command() == on_close@
                &&& rule.focus_command() == on_focus@
                &&& rule.unfocus_command() == on_unfocus@
            },
            result matches Err(error) ==> Some(error.pattern@) == if !filter_compiles(
                filter_text(class),
            ) {
                filter_text(class)
            } else {
                filter_text(title)
            },
            result matches Err(error) ==> refuses(error),
    {
        let class = match compile_filter(class) {
            Ok(compiled) => compiled,
            Err(error) => return Err(error),
        };
        let title = match compile_filter(title) {
            Ok(compiled) => compiled,
            Err(error) => return Err(error),
        };
        Ok(Rule { class, title, on_open, on_close, on_focus, on_unfocus })
    }

    /// Whether the rule has neither a class nor a title filter, so that it
    /// matches every window.
    pub fn is_unfiltered(&self) -> (unfiltered: bool)
        ensures
            unfiltered == (self.class_filter() is None && self.title_filter() is None),
    {
        self.class.is_none() && self.title.is_none()
    }

    /// Whether a window with this class and title matches the rule.
    pub fn matches(&self, class: &str, title: &str) -> (matched: bool)
        ensures
            matched == self.admits_window(class@, title@),
    {
        admits(&self.class, class) && admits(&self.title, title)
    }

    /// The rules of `rules` that match the window, in their original order.
    pub fn matching<'a>(rules: &'a [Rule], class: &str, title: &str) -> (matched: Vec<&'a Rule>)
        ensures
            matched@.map_values(|rule: &Rule| *rule) == selected(rules@, class@, title@),
    {
        let ghost admitted = |rule: Rule| rule.admits_window(class@, title@);
        let mut matched: Vec<&'a Rule> = Vec::new();
        let mut index: usize = 0;
        while index < rules.len()
            invariant
                index <= rules@.len(),
                admitted == (|rule: Rule| rule.admits_window(class@, title@)),
                matched@.map_values(|rule: &Rule| *rule) == rules@.take(index as int).filter(admitted),
            decreases rules@.len() - index,
        {
            let rule = &rules[index];
            let ghost before = matched@;
            if rule.matches(class, title) {
                matched.push(rule);
            }
            proof {
                assert(rules@.take(index + 1) == rules@.take(index as int).push(*rule));
                rules@.take(index as int).lemma_filter_push(*rule, admitted);
                assert(matched@.map_values(|rule: &Rule| *rule) == if admitted(*rule) {
                    before.map_values(|rule: &Rule| *rule).push(*rule)
                } else {
                    before.map_values(|rule: &Rule| *rule)
                });
            }
            index = index + 1;
        }
        assert(rules@.take(rules@.len() as int) == rules@);
        matched
    }

    pub fn on_open(&self) -> (command: &[String])
        ensures
            command@ == self.open_command(),
    {
        self.on_open.as_slice()
    }

    pub fn on_close(&self) -> (command: &[String])
        ensures
            command@ == self.close_command(),
    {
        self.on_close.as_slice()
    }

    pub fn on_focus(&self) -> (command: &[String])
        ensures
            command@ == self.focus_command(),
    {
        self.on_focus.as_slice()
    }

    pub fn on_unfocus(&self) -> (command: &[String])
        ensures
            command@ == self.unfocus_command(),
    {
        self.on_unfocus.as_slice()
    }
}


/// Whether every entry of `entries` is a rule rather than an error.
pub open spec fn all_compiled(entries: Seq<Result<Rule, PatternError>>) -> bool {
    forall|i: int| 0 <= i < entries.len() ==> (#[trigger] entries[i]) is Ok
}

/// `error` is the error of the first entry that is not a rule.
pub open spec fn first_error(entries: Seq<Result<Rule, PatternError>>, error: PatternError) -> bool {
    exists|i: int|
        0 <= i < entries.len() && #[trigger] entries[i] == Err::<Rule, PatternError>(error)
            && all_compiled(entries.take(i))
}

/// An ordered collection of rules, checked as a whole when it is built.
pub struct RuleSet {
    rules: Vec<Rule>,
}

impl RuleSet {
    /// The rules, in the order they were given.
    pub closed spec fn rules(&self) -> Seq<Rule> {
        self.rules@
    }

    /// Collects compiled rules. Fails with the first error among the entries,
    /// and succeeds, keeping every rule in order, when there is none.
    pub fn new(entries: Vec<Result<Rule, PatternError>>) -> (result: Result<RuleSet, PatternError>)
        ensures
            result is Ok <==> all_compiled(entries@),
            result matches Ok(set) ==> {
                &&& set.rules().len() == entries@.len()
                &&& forall|i: int|
                    0 <= i < entries@.len() ==> #[trigger] entries@[i] == Ok::<Rule, PatternError>(
                        set.rules()[i],
                    )
            },
            result matches Err(error) ==> first_error(entries@, error),
    {
        let mut rules: Vec<Rule> = Vec::new();
        for entry in iter: entries
            invariant
                rules@.len() == iter.index(),
                iter.seq() == entries@,
                forall|i: int|
                    0 <= i < iter.index() ==> #[trigger] entries@[i] == Ok::<Rule, PatternError>(
                        rules@[i],
                    ),
        {
            match entry {
                Ok(rule) => rules.push(rule),
                Err(error) => {
                    assert(all_compiled(entries@.take(iter.index() as int)));
                    return Err(error);
                },
            }
        }
        Ok(RuleSet { rules })
    }

    /// The positions of the rules of the set that match the window, in
    /// increasing order.
    pub fn matching_indices(&self, class: &str, title: &str) -> (indices: Vec<usize>)
        ensures
            indices@.map_values(|i: usize| i as int) == matching_positions(
                self.rules(),
                class@,
                title@,
            ),
    {
        let mut indices: Vec<usize> = Vec::new();
        let mut index: usize = 0;
        while index < self.rules.len()
            invariant
                index <= self.rules@.len(),
                indices@.map_values(|i: usize| i as int) == matching_positions(
                    self.rules@.take(index as int),
                    class@,
                    title@,
                ),
            decreases self.rules@.len() - index,
        {
            let ghost before = indices@;
            let ghost prefix = self.rules@.take(index + 1);
            if self.rules[index].matches(class, title) {
                indices.push(index);
            }
            proof {
                assert(prefix.drop_last() == self.rules@.take(index as int));
                assert(prefix.last() == self.rules@[index as int]);
                if self.rules@[index as int].admits_window(class@, title@) {
                    assert(indices@.map_values(|i: usize| i as int) == before.map_values(
                        |i: usize| i as int,
                    ).push(index as int));
                } else {
                    assert(indices@.map_values(|i: usize| i as int) == before.map_values(
                        |i: usize| i as int,
                    ));
                }
            }
            index = index + 1;
        }
        assert(self.rules@.take(self.rules@.len() as int) == self.rules@);
        indices
    }

    /// The rules, in order.
    pub fn as_slice(&self) -> (rules: &[Rule])
        ensures
            rules@ == self.rules(),
    {
        self.rules.as_slice()
    }

    pub fn len(&self) -> (count: usize)
        ensures
            count == self.rules().len(),
    {
        self.rules.len()
    }

    pub fn is_empty(&self) -> (empty: bool)
        ensures
            empty == (self.rules().len() == 0),
    {
        self.rules.len() == 0
    }

    /// The rules of the set that match the window, in order.
    pub fn matching(&self, class: &str, title: &str) -> (matched: Vec<&Rule>)
        ensures
            matched@.map_values(|rule: &Rule| *rule) == selected(self.rules(), class@, title@),
    {
        Rule::matching(self.rules.as_slice(), class, title)
    }
}


/// A rule without class and title filters matches every window.
pub proof fn law_unfiltered_rule_matches_every_window(rule: Rule, class: Seq<char>, title: Seq<char>)
    requires
        rule.class_filter() is None,
        rule.title_filter() is None,
    ensures
        rule.admits_window(class, title),
{
}

/// The two filters of a rule are joined by "and": a window matches exactly
/// when it passes the class filter and it passes the title filter.
pub proof fn law_filters_are_anded(rule: Rule, class: Seq<char>, title: Seq<char>)
    ensures
        rule.admits_window(class, title) <==> filter_admits(rule.class_filter(), class)
            && filter_admits(rule.title_filter(), title),
        !filter_admits(rule.class_filter(), class) ==> !rule.admits_window(class, title),
        !filter_admits(rule.title_filter(), title) ==> !rule.admits_window(class, title),
{
}

/// A rule judges a window by the regexes of the very patterns it was given:
/// with only a class pattern, a window matches exactly when that pattern's
/// regex finds a match in the class, whatever the title; with only a title
/// pattern, likewise for the title.
pub proof fn law_rule_judges_by_its_own_patterns(
    rule: Rule,
    pattern: Seq<char>,
    class: Seq<char>,
    title: Seq<char>,
)
    ensures
        rule.class_filter() == Some(pattern) && rule.title_filter() is None ==> (rule.admits_window(
            class,
            title,
        ) <==> regex_is_match(pattern, class)),
        rule.title_filter() == Some(pattern) && rule.class_filter() is None ==> (rule.admits_window(
            class,
            title,
        ) <==> regex_is_match(pattern, title)),
{
}

/// The rules selected for a window are exactly the rules that match it: each
/// selected rule matches, each matching rule is selected, and no more rules
/// are selected than there are.
pub proof fn law_selected_are_exactly_the_matching(
    rules: Seq<Rule>,
    class: Seq<char>,
    title: Seq<char>,
)
    ensures
        forall|i: int|
            0 <= i < selected(rules, class, title).len() ==> (#[trigger] selected(
                rules,
                class,
                title,
            )[i]).admits_window(class, title),
        forall|i: int|
            0 <= i < rules.len() && (#[trigger] rules[i]).admits_window(class, title) ==> selected(
                rules,
                class,
                title,
            ).contains(rules[i]),
        selected(rules, class, title).len() <= rules.len(),
{
    broadcast use vstd::seq_lib::group_filter_ensures;

}

/// The matching positions are the positions of the matching rules: each lies
/// within the list and names a matching rule, every matching rule's position
/// is among them, and they increase strictly.
pub proof fn law_positions_are_the_matching_rules(
    rules: Seq<Rule>,
    class: Seq<char>,
    title: Seq<char>,
)
    ensures
        forall|k: int|
            0 <= k < matching_positions(rules, class, title).len() ==> {
                let p = #[trigger] matching_positions(rules, class, title)[k];
                0 <= p < rules.len() && rules[p].admits_window(class, title)
            },
        forall|i: int|
            0 <= i < rules.len() && (#[trigger] rules[i]).admits_window(class, title)
                ==> matching_positions(rules, class, title).contains(i),
        forall|k: int, l: int|
            0 <= k < l < matching_positions(rules, class, title).len() ==> #[trigger] matching_positions(
                rules,
                class,
                title,
            )[k] < #[trigger] matching_positions(rules, class, title)[l],
    decreases rules.len(),
{
    if rules.len() > 0 {
        let shorter = rules.drop_last();
        law_positions_are_the_matching_rules(shorter, class, title);
        let earlier = matching_positions(shorter, class, title);
        let n = rules.len() - 1;
        assert forall|i: int|
            0 <= i < rules.len() && (#[trigger] rules[i]).admits_window(class, title)
                implies matching_positions(rules, class, title).contains(i) by {
            if i < n {
                assert(shorter[i] == rules[i]);
                let k = choose|k: int| 0 <= k < earlier.len() && earlier[k] == i;
                assert(matching_positions(rules, class, title)[k] == i);
            } else {
                assert(matching_positions(rules, class, title).last() == n);
            }
        }
        assert forall|k: int|
            0 <= k < matching_positions(rules, class, title).len() implies {
                let p = #[trigger] matching_positions(rules, class, title)[k];
                0 <= p < rules.len() && rules[p].admits_window(class, title)
            } by {
            if k < earlier.len() {
                assert(shorter[earlier[k]] == rules[earlier[k]]);
            }
        }
    }
}

} // verus!
