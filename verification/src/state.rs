use crate::rule::{selected, Rule, RuleSet};
use vstd::prelude::*;

verus! {

/// The class and title of a window.
#[derive(Clone)]
pub struct WindowInfo {
    class: String,
    title: String,
}

impl View for WindowInfo {
    /// The class, then the title.
    type V = (Seq<char>, Seq<char>);

    closed spec fn view(&self) -> (Seq<char>, Seq<char>) {
        (self.class@, self.title@)
    }
}

impl Default for WindowInfo {
    /// A window with an empty class and an empty title.
    fn default() -> (info: Self)
        ensures
            info@ == (Seq::<char>::empty(), Seq::<char>::empty()),
    {
        WindowInfo { class: String::new(), title: String::new() }
    }
}

impl WindowInfo {
    pub fn new(class: String, title: String) -> (info: Self)
        ensures
            info@ == (class@, title@),
    {
        WindowInfo { class, title }
    }

    pub fn class(&self) -> (class: &str)
        ensures
            class@ == self@.0,
    {
        self.class.as_str()
    }

    pub fn title(&self) -> (title: &str)
        ensures
            title@ == self@.1,
    {
        self.title.as_str()
    }
}

/// The window recorded at `address`, if there is one.
pub open spec fn lookup(windows: Map<Seq<char>, WindowInfo>, address: Seq<char>) -> Option<
    WindowInfo,
> {
    if windows.dom().contains(address) {
        Some(windows[address])
    } else {
        None
    }
}

/// No two entries share an address.
pub open spec fn addresses_distinct(entries: Seq<(String, WindowInfo)>) -> bool {
    forall|i: int, j: int|
        0 <= i < entries.len() && 0 <= j < entries.len() && i != j ==> (#[trigger] entries[i]).0@
            != (#[trigger] entries[j]).0@
}

/// Whether some entry has this address.
pub open spec fn has_address(entries: Seq<(String, WindowInfo)>, address: Seq<char>) -> bool {
    exists|i: int| 0 <= i < entries.len() && (#[trigger] entries[i]).0@ == address
}

/// The map from address to window that a list of entries stands for.
pub open spec fn entries_map(entries: Seq<(String, WindowInfo)>) -> Map<Seq<char>, WindowInfo> {
    Map::new(
        |address: Seq<char>| has_address(entries, address),
        |address: Seq<char>|
            entries[choose|i: int| 0 <= i < entries.len() && (#[trigger] entries[i]).0@ == address].1,
    )
}

/// With distinct addresses, each entry is what the map holds at its address.
proof fn lemma_entry_in_map(entries: Seq<(String, WindowInfo)>, i: int)
    requires
        addresses_distinct(entries),
        0 <= i < entries.len(),
    ensures
        entries_map(entries).dom().contains(entries[i].0@),
        entries_map(entries)[entries[i].0@] == entries[i].1,
{
    let address = entries[i].0@;
    assert(has_address(entries, address));
    let j = choose|j: int| 0 <= j < entries.len() && (#[trigger] entries[j]).0@ == address;
    assert(j == i);
}

/// Writing `(address, info)` at position `p`, over the entry with that
/// address or past the end when there is none, keeps the addresses distinct
/// and records `info` at `address` in the map.
proof fn lemma_map_after_write(
    before: Seq<(String, WindowInfo)>,
    after: Seq<(String, WindowInfo)>,
    p: int,
    address: Seq<char>,
    info: WindowInfo,
)
    requires
        addresses_distinct(before),
        0 <= p <= before.len(),
        p < before.len() ==> before[p].0@ == address && after == before.update(p, (after[p].0, info)),
        p == before.len() ==> !has_address(before, address) && after == before.push((after[p].0, info)),
        after[p].0@ == address,
    ensures
        addresses_distinct(after),
        entries_map(after) == entries_map(before).insert(address, info),
{
    assert forall|k: Seq<char>|
        #[trigger] entries_map(after).dom().contains(k) == entries_map(before).insert(
            address,
            info,
        ).dom().contains(k) by {
        if k != address && has_address(before, k) {
            let j = choose|j: int| 0 <= j < before.len() && (#[trigger] before[j]).0@ == k;
            assert(after[j] == before[j]);
        }
        if k != address && has_address(after, k) {
            let j = choose|j: int| 0 <= j < after.len() && (#[trigger] after[j]).0@ == k;
            assert(after[j] == before[j]);
        }
        if k == address {
            assert(after[p].0@ == address);
        }
    }
    assert forall|k: Seq<char>| #[trigger]
        entries_map(after).dom().contains(k) implies entries_map(after)[k] == entries_map(
        before,
    ).insert(address, info)[k] by {
        let j = choose|j: int| 0 <= j < after.len() && (#[trigger] after[j]).0@ == k;
        lemma_entry_in_map(after, j);
        if j != p {
            assert(after[j] == before[j]);
            lemma_entry_in_map(before, j);
        }
    }
    assert(entries_map(after) =~= entries_map(before).insert(address, info));
}

/// Removing the entry at position `i` keeps the addresses distinct and takes
/// its address out of the map.
proof fn lemma_map_after_remove(before: Seq<(String, WindowInfo)>, i: int)
    requires
        addresses_distinct(before),
        0 <= i < before.len(),
    ensures
        addresses_distinct(before.remove(i)),
        entries_map(before.remove(i)) == entries_map(before).remove(before[i].0@),
{
    let after = before.remove(i);
    let address = before[i].0@;
    assert forall|k: Seq<char>|
        #[trigger] entries_map(after).dom().contains(k) == entries_map(before).remove(
            address,
        ).dom().contains(k) by {
        if has_address(before, k) && k != address {
            let j = choose|j: int| 0 <= j < before.len() && (#[trigger] before[j]).0@ == k;
            if j < i {
                assert(after[j] == before[j]);
            } else {
                assert(after[j - 1] == before[j]);
            }
        }
        if has_address(after, k) {
            let j = choose|j: int| 0 <= j < after.len() && (#[trigger] after[j]).0@ == k;
            if j < i {
                assert(after[j] == before[j]);
            } else {
                assert(after[j] == before[j + 1]);
            }
        }
    }
    assert forall|k: Seq<char>| #[trigger]
        entries_map(after).dom().contains(k) implies entries_map(after)[k] == entries_map(
        before,
    ).remove(address)[k] by {
        let j = choose|j: int| 0 <= j < after.len() && (#[trigger] after[j]).0@ == k;
        lemma_entry_in_map(after, j);
        if j < i {
            assert(after[j] == before[j]);
            lemma_entry_in_map(before, j);
        } else {
            assert(after[j] == before[j + 1]);
            lemma_entry_in_map(before, j + 1);
        }
    }
    assert(entries_map(after) =~= entries_map(before).remove(address));
}

/// The index of the entry with this address, if there is one.
fn position(entries: &Vec<(String, WindowInfo)>, address: &String) -> (index: Option<usize>)
    ensures
        match index {
            Some(i) => i < entries@.len() && entries@[i as int].0@ == address@,
            None => !has_address(entries@, address@),
        },
{
    let mut i: usize = 0;
    while i < entries.len()
        invariant
            i <= entries@.len(),
            forall|j: int| 0 <= j < i ==> (#[trigger] entries@[j]).0@ != address@,
        decreases entries@.len() - i,
    {
        if entries[i].0 == *address {
            return Some(i);
        }
        i = i + 1;
    }
    None
}

/// Open windows by address: a map whose keys are strings, kept as a list of
/// entries in which no address occurs twice. vstd specifies
/// `std::collections::HashMap` only for key types known to obey its key model,
/// which `String` is not, so a `HashMap<String, WindowInfo>` would leave
/// `insert` and `remove` without any provable effect.
pub struct WindowMap {
    entries: Vec<(String, WindowInfo)>,
}

impl WindowMap {
    #[verifier::type_invariant]
    spec fn addresses_are_distinct(&self) -> bool {
        addresses_distinct(self.entries@)
    }

    /// The windows by address.
    pub closed spec fn windows(&self) -> Map<Seq<char>, WindowInfo> {
        entries_map(self.entries@)
    }

    pub fn new() -> (map: Self)
        ensures
            map.windows() == Map::<Seq<char>, WindowInfo>::empty(),
    {
        let map = WindowMap { entries: Vec::new() };
        assert(map.windows() =~= Map::<Seq<char>, WindowInfo>::empty());
        map
    }

    /// Records `info` at `address`, replacing what was there.
    pub fn insert(&mut self, address: String, info: WindowInfo)
        ensures
            final(self).windows() == old(self).windows().insert(address@, info),
    {
        proof {
            use_type_invariant(&*self);
        }
        let mut entries: Vec<(String, WindowInfo)> = Vec::new();
        std::mem::swap(&mut entries, &mut self.entries);
        let ghost before = entries@;
        let ghost key = address@;
        match position(&entries, &address) {
            Some(i) => {
                entries.set(i, (address, info));
                proof {
                    lemma_map_after_write(before, entries@, i as int, key, info);
                }
            },
            None => {
                entries.push((address, info));
                proof {
                    lemma_map_after_write(before, entries@, before.len() as int, key, info);
                }
            },
        }
        self.entries = entries;
    }

    /// Takes the window recorded at `address` out of the map, if there is one.
    pub fn remove(&mut self, address: &str) -> (removed: Option<WindowInfo>)
        ensures
            removed == lookup(old(self).windows(), address@),
            final(self).windows() == old(self).windows().remove(address@),
    {
        proof {
            use_type_invariant(&*self);
        }
        let mut entries: Vec<(String, WindowInfo)> = Vec::new();
        std::mem::swap(&mut entries, &mut self.entries);
        let ghost before = entries@;
        let key = address.to_owned();
        match position(&entries, &key) {
            Some(i) => {
                proof {
                    lemma_entry_in_map(before, i as int);
                }
                let (_, info) = entries.remove(i);
                proof {
                    lemma_map_after_remove(before, i as int);
                }
                self.entries = entries;
                Some(info)
            },
            None => {
                assert(entries_map(before).remove(key@) =~= entries_map(before));
                self.entries = entries;
                None
            },
        }
    }
}


/// What the window bookkeeping holds: the open windows by address, and the
/// window that has the focus.
pub struct State {
    open: WindowMap,
    focused: WindowInfo,
}

impl State {
    /// The open windows, by address.
    pub closed spec fn open_windows(&self) -> Map<Seq<char>, WindowInfo> {
        self.open.windows()
    }

    /// The window that has the focus.
    pub closed spec fn focused(&self) -> WindowInfo {
        self.focused
    }

    pub fn new(open: WindowMap, focused: WindowInfo) -> (state: Self)
        ensures
            state.open_windows() == open.windows(),
            state.focused() == focused,
    {
        State { open, focused }
    }

    /// Records a window as open at `address`, replacing any window recorded there.
    pub fn insert_open(&mut self, address: String, info: WindowInfo)
        ensures
            final(self).open_windows() == old(self).open_windows().insert(address@, info),
            final(self).focused() == old(self).focused(),
    {
        self.open.insert(address, info);
    }

    /// Takes the window recorded at `address` out of the open windows, if there is one.
    pub fn remove_open(&mut self, address: &str) -> (removed: Option<WindowInfo>)
        ensures
            removed == lookup(old(self).open_windows(), address@),
            final(self).open_windows() == old(self).open_windows().remove(address@),
            final(self).focused() == old(self).focused(),
    {
        self.open.remove(address)
    }

    /// Gives the focus to `new` and returns the window that had it.
    pub fn update_focus(&mut self, new: WindowInfo) -> (previous: WindowInfo)
        ensures
            previous == old(self).focused(),
            final(self).focused() == new,
            final(self).open_windows() == old(self).open_windows(),
    {
        let mut previous = new;
        std::mem::swap(&mut previous, &mut self.focused);
        previous
    }
}


/// The four window events that a rule can attach a command to.
#[derive(Clone, Copy, Debug)]
pub enum HookEvent {
    Open,
    Close,
    Focus,
    Unfocus,
}

/// The command that `rule` attaches to `event`.
pub open spec fn command_for(rule: Rule, event: HookEvent) -> Seq<String> {
    match event {
        HookEvent::Open => rule.open_command(),
        HookEvent::Close => rule.close_command(),
        HookEvent::Focus => rule.focus_command(),
        HookEvent::Unfocus => rule.unfocus_command(),
    }
}

/// Whether `rule` matches `window` and, when there is an `other` window,
/// does not match that one.
pub open spec fn fires(
    rule: Rule,
    window: (Seq<char>, Seq<char>),
    other: Option<(Seq<char>, Seq<char>)>,
) -> bool {
    &&& rule.admits_window(window.0, window.1)
    &&& match other {
        Some(o) => !rule.admits_window(o.0, o.1),
        None => true,
    }
}

/// The commands attached to `event` by the rules that fire for `window`
/// against `other`, in rule order.
pub open spec fn hooks_of(
    rules: Seq<Rule>,
    window: (Seq<char>, Seq<char>),
    other: Option<(Seq<char>, Seq<char>)>,
    event: HookEvent,
) -> Seq<Seq<String>> {
    firing_rules(rules, window, other).map_values(|rule: Rule| command_for(rule, event))
}

/// The rules that fire for `window` against `other`, in order.
pub open spec fn firing_rules(
    rules: Seq<Rule>,
    window: (Seq<char>, Seq<char>),
    other: Option<(Seq<char>, Seq<char>)>,
) -> Seq<Rule> {
    rules.filter(fires_for(window, other))
}

/// `fires` for a fixed pair of windows, as a predicate on rules.
pub open spec fn fires_for(
    window: (Seq<char>, Seq<char>),
    other: Option<(Seq<char>, Seq<char>)>,
) -> spec_fn(Rule) -> bool {
    |rule: Rule| fires(rule, window, other)
}

/// The close commands owed when the window at `address` closes: those of the
/// rules that match the window recorded there; none when nothing is recorded.
pub open spec fn close_hooks(
    rules: Seq<Rule>,
    windows: Map<Seq<char>, WindowInfo>,
    address: Seq<char>,
) -> Seq<Seq<String>> {
    match lookup(windows, address) {
        Some(info) => hooks_of(rules, info@, None, HookEvent::Close),
        None => Seq::empty(),
    }
}

/// The command lines of a list of commands.
pub open spec fn command_lines(commands: Seq<Vec<String>>) -> Seq<Seq<String>> {
    commands.map_values(|argv: Vec<String>| argv@)
}

/// A copy of a command line.
fn copy_command(command: &[String]) -> (copy: Vec<String>)
    ensures
        copy@ == command@,
{
    let mut copy: Vec<String> = Vec::new();
    let mut index: usize = 0;
    while index < command.len()
        invariant
            index <= command@.len(),
            copy@ == command@.take(index as int),
        decreases command@.len() - index,
    {
        copy.push(command[index].clone());
        assert(command@.take(index + 1) == command@.take(index as int).push(command@[index as int]));
        index = index + 1;
    }
    assert(command@.take(command@.len() as int) == command@);
    copy
}

/// The command that `rule` attaches to `event`.
fn command_of(rule: &Rule, event: HookEvent) -> (command: &[String])
    ensures
        command@ == command_for(*rule, event),
{
    match event {
        HookEvent::Open => rule.on_open(),
        HookEvent::Close => rule.on_close(),
        HookEvent::Focus => rule.on_focus(),
        HookEvent::Unfocus => rule.on_unfocus(),
    }
}

/// The view of an optional window.
pub open spec fn window_view(window: Option<&WindowInfo>) -> Option<(Seq<char>, Seq<char>)> {
    match window {
        Some(w) => Some(w@),
        None => None,
    }
}

/// Collects the commands attached to `event` by the rules that fire for
/// `window` against `other`.
fn collect_hooks(
    rules: &RuleSet,
    window: &WindowInfo,
    other: Option<&WindowInfo>,
    event: HookEvent,
) -> (hooks: Vec<Vec<String>>)
    ensures
        command_lines(hooks@) == hooks_of(rules.rules(), window@, window_view(other), event),
{
    let all = rules.as_slice();
    let ghost firing = fires_for(window@, window_view(other));
    let ghost to_command = |rule: Rule| command_for(rule, event);
    let mut hooks: Vec<Vec<String>> = Vec::new();
    let mut index: usize = 0;
    while index < all.len()
        invariant
            index <= all@.len(),
            all@ == rules.rules(),
            firing == fires_for(window@, window_view(other)),
            to_command == (|rule: Rule| command_for(rule, event)),
            command_lines(hooks@) == all@.take(index as int).filter(firing).map_values(to_command),
        decreases all@.len() - index,
    {
        let rule = &all[index];
        let ghost before = hooks@;
        let fired = rule.matches(window.class(), window.title()) && match other {
            Some(o) => !rule.matches(o.class(), o.title()),
            None => true,
        };
        if fired {
            hooks.push(copy_command(command_of(rule, event)));
        }
        proof {
            let prefix = all@.take(index as int);
            assert(all@.take(index + 1) == prefix.push(*rule));
            prefix.lemma_filter_push(*rule, firing);
            assert(fired == firing(*rule));
            if fired {
                assert(prefix.filter(firing).push(*rule).map_values(to_command)
                    == prefix.filter(firing).map_values(to_command).push(to_command(*rule)));
                assert(command_lines(hooks@) == command_lines(before).push(command_for(*rule, event)));
            } else {
                assert(command_lines(hooks@) == command_lines(before));
            }
        }
        index = index + 1;
    }
    assert(all@.take(all@.len() as int) == all@);
    hooks
}

/// The commands attached to `event` by the rules that match `window`, in
/// rule order.
pub fn hooks_for(rules: &RuleSet, window: &WindowInfo, event: HookEvent) -> (hooks: Vec<Vec<String>>)
    ensures
        command_lines(hooks@) == hooks_of(rules.rules(), window@, None, event),
{
    collect_hooks(rules, window, None, event)
}

impl State {
    /// A window opened at `address`: records it, and returns the open
    /// commands of the rules that match it, in rule order.
    pub fn window_opened(&mut self, rules: &RuleSet, address: String, info: WindowInfo) -> (hooks:
        Vec<Vec<String>>)
        ensures
            command_lines(hooks@) == hooks_of(rules.rules(), info@, None, HookEvent::Open),
            final(self).open_windows() == old(self).open_windows().insert(address@, info),
            final(self).focused() == old(self).focused(),
    {
        let hooks = collect_hooks(rules, &info, None, HookEvent::Open);
        self.insert_open(address, info);
        hooks
    }

    /// The window at `address` closed: forgets it, and returns the close
    /// commands of the rules that match the window recorded there, in rule
    /// order; nothing when no window was recorded at `address`.
    pub fn window_closed(&mut self, rules: &RuleSet, address: &str) -> (hooks: Vec<Vec<String>>)
        ensures
            command_lines(hooks@) == close_hooks(rules.rules(), old(self).open_windows(), address@),
            final(self).open_windows() == old(self).open_windows().remove(address@),
            final(self).focused() == old(self).focused(),
    {
        match self.remove_open(address) {
            Some(info) => collect_hooks(rules, &info, None, HookEvent::Close),
            None => {
                let hooks: Vec<Vec<String>> = Vec::new();
                assert(command_lines(hooks@) =~= Seq::<Seq<String>>::empty());
                hooks
            },
        }
    }

    /// The focus moved to `info`: records it, and returns first the unfocus
    /// commands of the rules that matched the previously focused window but do
    /// not match `info`, then the focus commands of the rules that match
    /// `info` but did not match the previous window, each in rule order.
    pub fn focus_changed(&mut self, rules: &RuleSet, info: WindowInfo) -> (hooks: Vec<Vec<String>>)
        ensures
            command_lines(hooks@) == hooks_of(
                rules.rules(),
                old(self).focused()@,
                Some(info@),
                HookEvent::Unfocus,
            ) + hooks_of(rules.rules(), info@, Some(old(self).focused()@), HookEvent::Focus),
            final(self).focused() == info,
            final(self).open_windows() == old(self).open_windows(),
    {
        let mut hooks = collect_hooks(rules, &self.focused, Some(&info), HookEvent::Unfocus);
        let mut focus = collect_hooks(rules, &info, Some(&self.focused), HookEvent::Focus);
        let ghost unfocus_lines = hooks@;
        let ghost focus_lines = focus@;
        hooks.append(&mut focus);
        assert(command_lines(hooks@) =~= command_lines(unfocus_lines) + command_lines(focus_lines));
        self.update_focus(info);
        hooks
    }
}


/// A window recorded at an address is what a removal at that address gives
/// back, and that removal leaves the other windows as they were before the
/// window was recorded.
pub proof fn law_remove_returns_recorded(
    windows: Map<Seq<char>, WindowInfo>,
    address: Seq<char>,
    info: WindowInfo,
)
    ensures
        lookup(windows.insert(address, info), address) == Some(info),
        windows.insert(address, info).remove(address) == windows.remove(address),
{
    assert(windows.insert(address, info).remove(address) =~= windows.remove(address));
}

/// Removal is not repeatable: once an address is removed, a second removal
/// there gives nothing back. Nothing is recorded in an empty map either.
pub proof fn law_remove_is_not_repeatable(windows: Map<Seq<char>, WindowInfo>, address: Seq<char>)
    ensures
        lookup(windows.remove(address), address) == None::<WindowInfo>,
        lookup(Map::<Seq<char>, WindowInfo>::empty(), address) == None::<WindowInfo>,
{
}

/// Recording a window at one address leaves what is recorded at every other
/// address as it was.
pub proof fn law_addresses_are_independent(
    windows: Map<Seq<char>, WindowInfo>,
    address: Seq<char>,
    other: Seq<char>,
    info: WindowInfo,
)
    requires
        address != other,
    ensures
        lookup(windows.insert(address, info), other) == lookup(windows, other),
        lookup(windows.remove(address), other) == lookup(windows, other),
{
}

/// Closing a window fires the close commands of the rules that match the
/// window as it was recorded when it opened; closing it again fires nothing.
pub proof fn law_close_answers_open(
    rules: Seq<Rule>,
    windows: Map<Seq<char>, WindowInfo>,
    address: Seq<char>,
    info: WindowInfo,
)
    ensures
        close_hooks(rules, windows.insert(address, info), address) == hooks_of(
            rules,
            info@,
            None,
            HookEvent::Close,
        ),
        close_hooks(rules, windows.insert(address, info).remove(address), address)
            == Seq::<Seq<String>>::empty(),
{
    law_remove_returns_recorded(windows, address, info);
    law_remove_is_not_repeatable(windows.insert(address, info), address);
}

/// Giving the focus to the window that already has it fires no hook.
pub proof fn law_refocus_fires_nothing(rules: Seq<Rule>, window: (Seq<char>, Seq<char>))
    ensures
        hooks_of(rules, window, Some(window), HookEvent::Unfocus) + hooks_of(
            rules,
            window,
            Some(window),
            HookEvent::Focus,
        ) == Seq::<Seq<String>>::empty(),
{
    let firing = firing_rules(rules, window, Some(window));
    if firing.len() > 0 {
        rules.lemma_filter_pred(fires_for(window, Some(window)), 0);
    }
    assert(hooks_of(rules, window, Some(window), HookEvent::Unfocus) =~= Seq::<Seq<String>>::empty());
    assert(hooks_of(rules, window, Some(window), HookEvent::Focus) =~= Seq::<Seq<String>>::empty());
}

/// When the focus moves, a rule fires only if its verdict changes: its
/// unfocus command when it matched the previous window and does not match the
/// new one, its focus command in the opposite case. So a rule that matches
/// both windows, or neither, fires nothing, and no rule fires both commands.
pub proof fn law_focus_fires_on_change_only(
    rule: Rule,
    previous: (Seq<char>, Seq<char>),
    current: (Seq<char>, Seq<char>),
)
    ensures
        fires(rule, previous, Some(current)) <==> rule.admits_window(previous.0, previous.1)
            && !rule.admits_window(current.0, current.1),
        fires(rule, current, Some(previous)) <==> rule.admits_window(current.0, current.1)
            && !rule.admits_window(previous.0, previous.1),
        !(fires(rule, previous, Some(current)) && fires(rule, current, Some(previous))),
{
}

/// Moving the focus back undoes moving it: the rules whose unfocus commands
/// fire when the focus leaves `b` for `a` are, in the same order, the rules
/// whose focus commands fired when it came to `b` from `a`.
pub proof fn law_leaving_undoes_arriving(
    rules: Seq<Rule>,
    a: (Seq<char>, Seq<char>),
    b: (Seq<char>, Seq<char>),
)
    ensures
        hooks_of(rules, b, Some(a), HookEvent::Unfocus) == firing_rules(rules, b, Some(a)).map_values(
            |rule: Rule| rule.unfocus_command(),
        ),
        hooks_of(rules, b, Some(a), HookEvent::Focus) == firing_rules(rules, b, Some(a)).map_values(
            |rule: Rule| rule.focus_command(),
        ),
{
    assert(hooks_of(rules, b, Some(a), HookEvent::Unfocus) =~= firing_rules(rules, b, Some(a)).map_values(
        |rule: Rule| rule.unfocus_command(),
    ));
    assert(hooks_of(rules, b, Some(a), HookEvent::Focus) =~= firing_rules(rules, b, Some(a)).map_values(
        |rule: Rule| rule.focus_command(),
    ));
}


/// With no other window to compare against, the rules that fire for a window
/// are exactly the rules that match it, in order.
pub proof fn law_firing_alone_is_matching(rules: Seq<Rule>, window: (Seq<char>, Seq<char>))
    ensures
        firing_rules(rules, window, None) == selected(rules, window.0, window.1),
{
    assert(fires_for(window, None) =~= (|rule: Rule| rule.admits_window(window.0, window.1)));
}

/// A window opening fires the open command of each rule that matches it, in
/// rule order, whatever that command is, empty or not, and whether the rule
/// has filters or not.
pub proof fn law_open_fires_open_commands(rules: Seq<Rule>, window: (Seq<char>, Seq<char>))
    ensures
        hooks_of(rules, window, None, HookEvent::Open) == selected(rules, window.0, window.1).map_values(
            |rule: Rule| rule.open_command(),
        ),
        forall|i: int|
            0 <= i < hooks_of(rules, window, None, HookEvent::Open).len() ==> #[trigger] hooks_of(
                rules,
                window,
                None,
                HookEvent::Open,
            )[i] == selected(rules, window.0, window.1)[i].open_command(),
{
    law_firing_alone_is_matching(rules, window);
    assert(hooks_of(rules, window, None, HookEvent::Open) =~= selected(
        rules,
        window.0,
        window.1,
    ).map_values(|rule: Rule| rule.open_command()));
}

/// A window closing fires the close command of each rule that matches the
/// window as recorded, in rule order, whatever that command is.
pub proof fn law_close_fires_close_commands(rules: Seq<Rule>, window: (Seq<char>, Seq<char>))
    ensures
        hooks_of(rules, window, None, HookEvent::Close) == selected(rules, window.0, window.1).map_values(
            |rule: Rule| rule.close_command(),
        ),
        forall|i: int|
            0 <= i < hooks_of(rules, window, None, HookEvent::Close).len() ==> #[trigger] hooks_of(
                rules,
                window,
                None,
                HookEvent::Close,
            )[i] == selected(rules, window.0, window.1)[i].close_command(),
{
    law_firing_alone_is_matching(rules, window);
    assert(hooks_of(rules, window, None, HookEvent::Close) =~= selected(
        rules,
        window.0,
        window.1,
    ).map_values(|rule: Rule| rule.close_command()));
}

/// The focus hooks of a window, as given at start-up, are the focus command
/// of each rule that matches it, in rule order, for filtered and unfiltered
/// rules alike; on a focus change the focus hooks are the focus commands of
/// the rules that match the new window but not the previous one.
pub proof fn law_focus_fires_focus_commands(
    rules: Seq<Rule>,
    window: (Seq<char>, Seq<char>),
    previous: (Seq<char>, Seq<char>),
)
    ensures
        hooks_of(rules, window, None, HookEvent::Focus) == selected(rules, window.0, window.1).map_values(
            |rule: Rule| rule.focus_command(),
        ),
        hooks_of(rules, window, Some(previous), HookEvent::Focus) == firing_rules(
            rules,
            window,
            Some(previous),
        ).map_values(|rule: Rule| rule.focus_command()),
        forall|i: int|
            0 <= i < hooks_of(rules, window, None, HookEvent::Focus).len() ==> #[trigger] hooks_of(
                rules,
                window,
                None,
                HookEvent::Focus,
            )[i] == selected(rules, window.0, window.1)[i].focus_command(),
{
    law_firing_alone_is_matching(rules, window);
    assert(hooks_of(rules, window, None, HookEvent::Focus) =~= selected(
        rules,
        window.0,
        window.1,
    ).map_values(|rule: Rule| rule.focus_command()));
    assert(hooks_of(rules, window, Some(previous), HookEvent::Focus) =~= firing_rules(
        rules,
        window,
        Some(previous),
    ).map_values(|rule: Rule| rule.focus_command()));
}

/// On a focus change the unfocus hooks are the unfocus commands of the rules
/// that matched the previous window but do not match the new one, in order.
pub proof fn law_unfocus_fires_unfocus_commands(
    rules: Seq<Rule>,
    previous: (Seq<char>, Seq<char>),
    window: (Seq<char>, Seq<char>),
)
    ensures
        hooks_of(rules, previous, Some(window), HookEvent::Unfocus) == firing_rules(
            rules,
            previous,
            Some(window),
        ).map_values(|rule: Rule| rule.unfocus_command()),
{
    assert(hooks_of(rules, previous, Some(window), HookEvent::Unfocus) =~= firing_rules(
        rules,
        previous,
        Some(window),
    ).map_values(|rule: Rule| rule.unfocus_command()));
}

} // verus!
