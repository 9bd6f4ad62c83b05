//! The plugin's access-control lists: the list modes, the persisted
//! per-plugin lists (one white list and one black list each, kept apart so
//! that switching modes loses neither), and the plans that carry them back
//! into the bot.

use vstd::prelude::*;
use vstd::relations::{sorted_by, total_ordering};
use crate::assoc::{assoc_view, keys_unique, lemma_assoc_dom, lemma_assoc_index, lemma_assoc_push, lemma_assoc_update};
use crate::text::str_eq;

verus! {

broadcast use vstd::string::group_string_axioms;

/// How a plugin's list is read: as the only chats allowed, or as the
/// chats refused.
#[derive(Clone, Copy, Debug, PartialEq, Eq, Structural)]
pub enum ListMode {
    BlackList,
    WhiteList,
}

/// The name under which this plugin is loaded; it never manages itself.
pub open spec fn self_name() -> Seq<char> {
    "kovi-plugin-acl"@
}

/// Whether `name` is this plugin's own name.
pub fn is_self(name: &str) -> (r: bool)
    ensures
        r == (name@ == self_name()),
{
    str_eq(name, "kovi-plugin-acl")
}

/// The persisted name of a mode.
pub open spec fn mode_text(mode: ListMode) -> Seq<char> {
    match mode {
        ListMode::WhiteList => "whitelist"@,
        ListMode::BlackList => "blacklist"@,
    }
}

/// The persisted name of a mode: `whitelist` or `blacklist`.
pub fn mode_to_string(mode: ListMode) -> (s: String)
    ensures
        s@ == mode_text(mode),
{
    match mode {
        ListMode::WhiteList => "whitelist".to_string(),
        ListMode::BlackList => "blacklist".to_string(),
    }
}

/// The mode that a persisted name denotes.
pub open spec fn mode_of_text(s: Seq<char>) -> Option<ListMode> {
    if s == "whitelist"@ {
        Some(ListMode::WhiteList)
    } else if s == "blacklist"@ {
        Some(ListMode::BlackList)
    } else {
        None
    }
}

/// Reads a persisted mode name; anything but `whitelist` and `blacklist`
/// names no mode.
pub fn string_to_mode(s: &str) -> (r: Option<ListMode>)
    ensures
        r == mode_of_text(s@),
{
    if str_eq(s, "whitelist") {
        Some(ListMode::WhiteList)
    } else if str_eq(s, "blacklist") {
        Some(ListMode::BlackList)
    } else {
        None
    }
}

/// Reading a mode's persisted name gives the mode back.
pub proof fn lemma_mode_text_round_trip(mode: ListMode)
    ensures
        mode_of_text(mode_text(mode)) == Some(mode),
{
    reveal_strlit("whitelist");
    reveal_strlit("blacklist");
    if mode is BlackList {
        assert("blacklist"@[0] != "whitelist"@[0]);
    }
}

// ---------------------------------------------------------------------------
// Sorting id lists
// ---------------------------------------------------------------------------

/// The order ids are stored in.
pub open spec fn id_leq() -> spec_fn(i64, i64) -> bool {
    |a: i64, b: i64| a <= b
}

/// The ids of `ids` in ascending order.
pub open spec fn sorted_ids(ids: Seq<i64>) -> Seq<i64> {
    ids.sort_by(id_leq())
}

proof fn lemma_id_leq_total()
    ensures
        total_ordering(id_leq()),
{
    let r = id_leq();
    assert forall|x: i64| #[trigger] r(x, x) by {}
    assert forall|x: i64, y: i64| #[trigger] r(x, y) && #[trigger] r(y, x) implies x == y by {}
    assert forall|x: i64, y: i64, z: i64| #[trigger] r(x, y) && #[trigger] r(y, z) implies r(x, z) by {}
    assert forall|x: i64, y: i64| #[trigger] r(x, y) || #[trigger] r(y, x) by {}
}

/// The ids of `ids` in ascending order (duplicates kept).
pub fn sort_ids(ids: &Vec<i64>) -> (r: Vec<i64>)
    ensures
        r@ == sorted_ids(ids@),
{
    broadcast use vstd::multiset::group_multiset_axioms;
    broadcast use vstd::seq_lib::group_to_multiset_ensures;

    let mut r: Vec<i64> = Vec::new();
    let n = ids.len();
    let mut i: usize = 0;
    while i < n
        invariant
            n == ids@.len(),
            i <= n,
            sorted_by(r@, id_leq()),
            r@.to_multiset() == ids@.take(i as int).to_multiset(),
        decreases n - i,
    {
        let x = ids[i];
        let mut pos: usize = 0;
        while pos < r.len() && r[pos] <= x
            invariant
                pos <= r@.len(),
                forall|j: int| 0 <= j < pos ==> r@[j] <= x,
            decreases r@.len() - pos,
        {
            pos = pos + 1;
        }
        let ghost before = r@;
        r.insert(pos, x);
        proof {
            assert(forall|j: int| pos <= j < before.len() ==> x < before[j]) by {
                assert forall|j: int| pos <= j < before.len() implies x < before[j] by {
                    if pos < before.len() {
                        assert(x < before[pos as int]);
                        assert(id_leq()(before[pos as int], before[j]) || pos as int == j);
                    }
                }
            }
            assert forall|a: int, b: int| 0 <= a < b < r@.len() implies #[trigger] id_leq()(r@[a], r@[b]) by {
                if b < pos {
                    assert(r@[a] == before[a] && r@[b] == before[b]);
                    assert(id_leq()(before[a], before[b]));
                } else if b == pos {
                    assert(r@[a] == before[a]);
                } else if a == pos {
                    assert(r@[b] == before[b - 1]);
                } else if a < pos {
                    assert(r@[a] == before[a]);
                    assert(r@[b] == before[b - 1]);
                } else {
                    assert(r@[a] == before[a - 1] && r@[b] == before[b - 1]);
                    assert(id_leq()(before[a - 1], before[b - 1]));
                }
            }
            assert(r@.remove(pos as int) =~= before);
            r@.to_multiset_ensures();
            assert(r@.remove(pos as int).to_multiset() =~= r@.to_multiset().remove(r@[pos as int]));
            assert(r@.to_multiset().remove(x) =~= before.to_multiset());
            assert(r@.to_multiset().count(x) > 0) by {
                assert(r@[pos as int] == x);
                assert(r@.contains(x));
            }
            assert(ids@.take(i + 1) =~= ids@.take(i as int).push(x));
            ids@.take(i as int).to_multiset_ensures();
            assert(r@.to_multiset() =~= ids@.take(i + 1).to_multiset());
        }
        i = i + 1;
    }
    proof {
        assert(ids@.take(n as int) =~= ids@);
        lemma_id_leq_total();
        ids@.lemma_sort_by_ensures(id_leq());
        vstd::seq_lib::lemma_sorted_unique(r@, ids@.sort_by(id_leq()), id_leq());
    }
    r
}

// ---------------------------------------------------------------------------
// Persisted lists
// ---------------------------------------------------------------------------

/// The group and friend ids of one list.
pub struct IdList {
    pub groups: Vec<i64>,
    pub friends: Vec<i64>,
}

/// What an id list holds.
pub struct IdListView {
    pub groups: Seq<i64>,
    pub friends: Seq<i64>,
}

impl View for IdList {
    type V = IdListView;

    open spec fn view(&self) -> IdListView {
        IdListView { groups: self.groups@, friends: self.friends@ }
    }
}

fn copy_ids(v: &Vec<i64>) -> (r: Vec<i64>)
    ensures
        r@ == v@,
{
    let mut r: Vec<i64> = Vec::new();
    let mut i: usize = 0;
    while i < v.len()
        invariant
            i <= v@.len(),
            r@ == v@.take(i as int),
        decreases v@.len() - i,
    {
        r.push(v[i]);
        i = i + 1;
        assert(r@ =~= v@.take(i as int));
    }
    assert(v@.take(v@.len() as int) =~= v@);
    r
}

impl IdList {
    /// An empty list.
    pub fn new() -> (r: Self)
        ensures
            r@.groups == Seq::<i64>::empty(),
            r@.friends == Seq::<i64>::empty(),
    {
        IdList { groups: Vec::new(), friends: Vec::new() }
    }

    /// A copy of the list.
    pub fn copy(&self) -> (r: Self)
        ensures
            r@ == self@,
    {
        IdList { groups: copy_ids(&self.groups), friends: copy_ids(&self.friends) }
    }
}

/// What is persisted of one plugin: whether access control is on, the mode
/// it was last in, and both of its lists.
pub struct PluginAcl {
    pub access_control: bool,
    pub mode: String,
    pub whitelist: IdList,
    pub blacklist: IdList,
}

/// What a persisted plugin entry holds.
pub struct PluginAclView {
    pub access_control: bool,
    pub mode: Seq<char>,
    pub whitelist: IdListView,
    pub blacklist: IdListView,
}

impl View for PluginAcl {
    type V = PluginAclView;

    open spec fn view(&self) -> PluginAclView {
        PluginAclView {
            access_control: self.access_control,
            mode: self.mode@,
            whitelist: self.whitelist@,
            blacklist: self.blacklist@,
        }
    }
}

/// The entry of a plugin that has none yet: access control off, no mode,
/// empty lists.
pub open spec fn default_acl() -> PluginAclView {
    PluginAclView {
        access_control: false,
        mode: Seq::empty(),
        whitelist: IdListView { groups: Seq::empty(), friends: Seq::empty() },
        blacklist: IdListView { groups: Seq::empty(), friends: Seq::empty() },
    }
}

impl PluginAcl {
    /// The entry of a plugin that has none yet.
    pub fn new() -> (r: Self)
        ensures
            r@ == default_acl(),
    {
        PluginAcl { access_control: false, mode: String::new(), whitelist: IdList::new(), blacklist: IdList::new() }
    }

    /// A copy of the entry.
    pub fn copy(&self) -> (r: Self)
        ensures
            r@ == self@,
    {
        PluginAcl {
            access_control: self.access_control,
            mode: self.mode.clone(),
            whitelist: self.whitelist.copy(),
            blacklist: self.blacklist.copy(),
        }
    }
}

/// The entries with names and entries read as their views.
pub open spec fn acl_pairs(s: Seq<(String, PluginAcl)>) -> Seq<(Seq<char>, PluginAclView)> {
    s.map_values(|p: (String, PluginAcl)| (p.0@, p.1@))
}

/// The persisted lists of all plugins, one entry per plugin name.
pub struct AclConfig {
    plugins: Vec<(String, PluginAcl)>,
}

impl AclConfig {
    /// The entries by plugin name.
    pub closed spec fn view(&self) -> Map<Seq<char>, PluginAclView> {
        assoc_view(acl_pairs(self.plugins@))
    }

    /// The entries in their stored order.
    pub closed spec fn entry_seq(&self) -> Seq<(Seq<char>, PluginAclView)> {
        acl_pairs(self.plugins@)
    }

    #[verifier::type_invariant]
    spec fn names_unique(&self) -> bool {
        keys_unique(acl_pairs(self.plugins@))
    }

    /// No entries.
    pub fn new() -> (c: Self)
        ensures
            c@ == Map::<Seq<char>, PluginAclView>::empty(),
            c.entry_seq() == Seq::<(Seq<char>, PluginAclView)>::empty(),
    {
        let c = AclConfig { plugins: Vec::new() };
        assert(acl_pairs(c.plugins@) =~= Seq::empty());
        c
    }

    fn find(&self, name: &str) -> (r: Option<usize>)
        ensures
            match r {
                Some(i) => i < self.plugins@.len() && self.plugins@[i as int].0@ == name@,
                None => !self@.contains_key(name@),
            },
    {
        let ghost s = acl_pairs(self.plugins@);
        let mut i: usize = 0;
        while i < self.plugins.len()
            invariant
                s == acl_pairs(self.plugins@),
                i <= self.plugins@.len(),
                forall|j: int| 0 <= j < i ==> #[trigger] s[j].0 != name@,
            decreases self.plugins@.len() - i,
        {
            if str_eq(self.plugins[i].0.as_str(), name) {
                return Some(i);
            }
            assert(s[i as int].0 == self.plugins@[i as int].0@);
            i = i + 1;
        }
        proof {
            lemma_assoc_dom(s, name@);
        }
        None
    }

    /// The entry of plugin `name`, if it has one.
    pub fn get(&self, name: &str) -> (r: Option<&PluginAcl>)
        ensures
            match r {
                Some(a) => self@.contains_key(name@) && a@ == self@[name@],
                None => !self@.contains_key(name@),
            },
    {
        proof {
            use_type_invariant(self);
        }
        match self.find(name) {
            Some(i) => {
                proof {
                    lemma_assoc_index(acl_pairs(self.plugins@), i as int);
                }
                Some(&self.plugins[i].1)
            },
            None => None,
        }
    }

    /// Sets the entry of plugin `name`. A new name is added after the
    /// existing ones; an existing one keeps its place.
    pub fn insert(&mut self, name: String, acl: PluginAcl)
        ensures
            final(self)@ == old(self)@.insert(name@, acl@),
    {
        proof {
            use_type_invariant(&*self);
        }
        let ghost ps = acl_pairs(self.plugins@);
        let ghost key = name@;
        let ghost v = acl@;
        match self.find(name.as_str()) {
            Some(i) => {
                proof {
                    lemma_assoc_update(ps, i as int, v);
                }
                let mut plugins = Vec::new();
                std::mem::swap(&mut plugins, &mut self.plugins);
                plugins.set(i, (name, acl));
                proof {
                    assert(acl_pairs(plugins@) =~= ps.update(i as int, (ps[i as int].0, v)));
                }
                self.plugins = plugins;
            },
            None => {
                proof {
                    lemma_assoc_push(ps, key, v);
                }
                let mut plugins = Vec::new();
                std::mem::swap(&mut plugins, &mut self.plugins);
                plugins.push((name, acl));
                proof {
                    assert(acl_pairs(plugins@) =~= ps.push((key, v)));
                }
                self.plugins = plugins;
            },
        }
    }

    /// The entries, in their stored order; each name occurs once.
    pub fn entries(&self) -> (r: &Vec<(String, PluginAcl)>)
        ensures
            acl_pairs(r@) == self.entry_seq(),
            keys_unique(self.entry_seq()),
            assoc_view(self.entry_seq()) == self@,
    {
        proof {
            use_type_invariant(self);
        }
        &self.plugins
    }

    /// The configuration holding `entries`; of two entries with the same
    /// name the later one is kept.
    pub fn from_entries(entries: &Vec<(String, PluginAcl)>) -> (c: Self)
        ensures
            c@ == assoc_view(acl_pairs(entries@)),
    {
        let mut c = AclConfig::new();
        let mut i: usize = 0;
        while i < entries.len()
            invariant
                i <= entries@.len(),
                c@ == assoc_view(acl_pairs(entries@.take(i as int))),
            decreases entries@.len() - i,
        {
            let name = entries[i].0.clone();
            let acl = entries[i].1.copy();
            proof {
                assert(acl_pairs(entries@.take(i + 1)) =~= acl_pairs(entries@.take(i as int)).push((name@, acl@)));
                lemma_assoc_push(acl_pairs(entries@.take(i as int)), name@, acl@);
            }
            c.insert(name, acl);
            i = i + 1;
        }
        assert(entries@.take(entries@.len() as int) =~= entries@);
        c
    }
}

// ---------------------------------------------------------------------------
// The bot's plugins
// ---------------------------------------------------------------------------

/// What the bot reports of one loaded plugin.
pub struct PluginState {
    pub name: String,
    pub version: String,
    pub enabled: bool,
    pub access_control: bool,
    pub mode: ListMode,
    /// The group ids of its current list (each once, in no set order).
    pub groups: Vec<i64>,
    /// The friend ids of its current list (each once, in no set order).
    pub friends: Vec<i64>,
}

/// What the bot reports of one loaded plugin.
pub struct PluginStateView {
    pub name: Seq<char>,
    pub version: Seq<char>,
    pub enabled: bool,
    pub access_control: bool,
    pub mode: ListMode,
    pub groups: Seq<i64>,
    pub friends: Seq<i64>,
}

impl View for PluginState {
    type V = PluginStateView;

    open spec fn view(&self) -> PluginStateView {
        PluginStateView {
            name: self.name@,
            version: self.version@,
            enabled: self.enabled,
            access_control: self.access_control,
            mode: self.mode,
            groups: self.groups@,
            friends: self.friends@,
        }
    }
}

/// The reports of several plugins, in order.
pub open spec fn states_view(ps: Seq<PluginState>) -> Seq<PluginStateView> {
    ps.map_values(|p: PluginState| p@)
}

/// The entry of `name` in `m`, or the default entry.
pub open spec fn acl_or_default(m: Map<Seq<char>, PluginAclView>, name: Seq<char>) -> PluginAclView {
    if m.contains_key(name) {
        m[name]
    } else {
        default_acl()
    }
}

/// Entry `e` once plugin state `p` has been recorded in it: access control
/// and mode are taken over, and the plugin's current lists (sorted) replace
/// the list of its current mode; the list of the other mode is kept.
pub open spec fn recorded(e: PluginAclView, p: PluginStateView) -> PluginAclView {
    let ids = IdListView { groups: sorted_ids(p.groups), friends: sorted_ids(p.friends) };
    PluginAclView {
        access_control: p.access_control,
        mode: mode_text(p.mode),
        whitelist: if p.mode is WhiteList { ids } else { e.whitelist },
        blacklist: if p.mode is BlackList { ids } else { e.blacklist },
    }
}

/// The persisted entries after the states `ps` have been recorded in order
/// (this plugin's own state is never recorded).
pub open spec fn saved(m: Map<Seq<char>, PluginAclView>, ps: Seq<PluginStateView>) -> Map<Seq<char>, PluginAclView>
    decreases ps.len(),
{
    if ps.len() == 0 {
        m
    } else {
        let m1 = saved(m, ps.drop_last());
        let p = ps.last();
        if p.name == self_name() {
            m1
        } else {
            m1.insert(p.name, recorded(acl_or_default(m1, p.name), p))
        }
    }
}

/// Records the current state of every plugin but this one in `config`:
/// each plugin's current lists are stored, sorted, under its current mode,
/// while its list for the other mode is kept as it was.
pub fn save(config: &mut AclConfig, plugins: &Vec<PluginState>)
    ensures
        final(config)@ == saved(old(config)@, states_view(plugins@)),
{
    let mut i: usize = 0;
    while i < plugins.len()
        invariant
            i <= plugins@.len(),
            config@ == saved(old(config)@, states_view(plugins@).take(i as int)),
        decreases plugins@.len() - i,
    {
        let p = &plugins[i];
        let ghost prev = states_view(plugins@).take(i as int);
        proof {
            assert(states_view(plugins@).take(i + 1).drop_last() =~= prev);
            assert(states_view(plugins@).take(i + 1).last() == p@);
        }
        if !is_self(p.name.as_str()) {
            let ids = IdList { groups: sort_ids(&p.groups), friends: sort_ids(&p.friends) };
            let mut entry = match config.get(p.name.as_str()) {
                Some(e) => e.copy(),
                None => PluginAcl::new(),
            };
            entry.access_control = p.access_control;
            entry.mode = mode_to_string(p.mode);
            match p.mode {
                ListMode::WhiteList => {
                    entry.whitelist = ids;
                },
                ListMode::BlackList => {
                    entry.blacklist = ids;
                },
            }
            config.insert(p.name.clone(), entry);
        }
        i = i + 1;
    }
    assert(states_view(plugins@).take(plugins@.len() as int) =~= states_view(plugins@));
}

// ---------------------------------------------------------------------------
// Plans for the bot
// ---------------------------------------------------------------------------

/// A change to one of a plugin's lists.
pub enum ListChange {
    Add(i64),
    Adds(Vec<i64>),
    Remove(i64),
    Removes(Vec<i64>),
    /// Replace the list by these ids.
    Changes(Vec<i64>),
}

/// What a list change does.
pub enum ListChangeView {
    Add(i64),
    Adds(Seq<i64>),
    Remove(i64),
    Removes(Seq<i64>),
    Changes(Seq<i64>),
}

impl View for ListChange {
    type V = ListChangeView;

    open spec fn view(&self) -> ListChangeView {
        match self {
            ListChange::Add(x) => ListChangeView::Add(*x),
            ListChange::Adds(v) => ListChangeView::Adds(v@),
            ListChange::Remove(x) => ListChangeView::Remove(*x),
            ListChange::Removes(v) => ListChangeView::Removes(v@),
            ListChange::Changes(v) => ListChangeView::Changes(v@),
        }
    }
}

/// A change to the bot's access control of one plugin.
pub enum BotAction {
    SetMode { plugin: String, mode: ListMode },
    /// Change the group list (`is_group`) or the friend list.
    SetList { plugin: String, is_group: bool, change: ListChange },
    SetAccessControl { plugin: String, enabled: bool },
}

/// What a bot action does.
pub enum BotActionView {
    SetMode(Seq<char>, ListMode),
    SetList(Seq<char>, bool, ListChangeView),
    SetAccessControl(Seq<char>, bool),
}

impl View for BotAction {
    type V = BotActionView;

    open spec fn view(&self) -> BotActionView {
        match self {
            BotAction::SetMode { plugin, mode } => BotActionView::SetMode(plugin@, *mode),
            BotAction::SetList { plugin, is_group, change } => BotActionView::SetList(plugin@, *is_group, change@),
            BotAction::SetAccessControl { plugin, enabled } => BotActionView::SetAccessControl(plugin@, *enabled),
        }
    }
}

/// The actions of a plan.
pub open spec fn actions_view(v: Seq<BotAction>) -> Seq<BotActionView> {
    v.map_values(|a: BotAction| a@)
}

/// The actions that put plugin `name`'s persisted entry back into the bot:
/// none for this plugin or for an entry without a valid mode; else its
/// mode, the list of that mode (groups, then friends) and its access
/// control switch.
pub open spec fn restore_actions_of(name: Seq<char>, acl: PluginAclView) -> Seq<BotActionView> {
    if name == self_name() {
        Seq::empty()
    } else {
        match mode_of_text(acl.mode) {
            None => Seq::empty(),
            Some(m) => {
                let list = if m is WhiteList { acl.whitelist } else { acl.blacklist };
                seq![
                    BotActionView::SetMode(name, m),
                    BotActionView::SetList(name, true, ListChangeView::Changes(list.groups)),
                    BotActionView::SetList(name, false, ListChangeView::Changes(list.friends)),
                    BotActionView::SetAccessControl(name, acl.access_control),
                ]
            },
        }
    }
}

/// The actions that put the persisted entries `entries` back into the bot,
/// entry by entry.
pub open spec fn restore_plan(entries: Seq<(Seq<char>, PluginAclView)>) -> Seq<BotActionView>
    decreases entries.len(),
{
    if entries.len() == 0 {
        Seq::empty()
    } else {
        restore_plan(entries.drop_last()) + restore_actions_of(entries.last().0, entries.last().1)
    }
}

/// Plans the restoring of every persisted entry into the bot at start-up.
pub fn load_and_apply(config: &AclConfig) -> (plan: Vec<BotAction>)
    ensures
        actions_view(plan@) == restore_plan(config.entry_seq()),
{
    let entries = config.entries();
    let mut plan: Vec<BotAction> = Vec::new();
    let mut i: usize = 0;
    while i < entries.len()
        invariant
            i <= entries@.len(),
            acl_pairs(entries@) == config.entry_seq(),
            actions_view(plan@) == restore_plan(config.entry_seq().take(i as int)),
        decreases entries@.len() - i,
    {
        let name = &entries[i].0;
        let acl = &entries[i].1;
        let ghost prev = actions_view(plan@);
        proof {
            assert(config.entry_seq().take(i + 1).drop_last() =~= config.entry_seq().take(i as int));
            assert(config.entry_seq().take(i + 1).last() == (name@, acl@));
        }
        if !is_self(name.as_str()) {
            match string_to_mode(acl.mode.as_str()) {
                Some(m) => {
                    let list = match m {
                        ListMode::WhiteList => &acl.whitelist,
                        ListMode::BlackList => &acl.blacklist,
                    };
                    plan.push(BotAction::SetMode { plugin: name.clone(), mode: m });
                    plan.push(BotAction::SetList { plugin: name.clone(), is_group: true, change: ListChange::Changes(copy_ids(&list.groups)) });
                    plan.push(BotAction::SetList { plugin: name.clone(), is_group: false, change: ListChange::Changes(copy_ids(&list.friends)) });
                    plan.push(BotAction::SetAccessControl { plugin: name.clone(), enabled: acl.access_control });
                    proof {
                        assert(actions_view(plan@) =~= prev + restore_actions_of(name@, acl@));
                    }
                },
                None => {
                    assert(restore_actions_of(name@, acl@) =~= Seq::empty());
                    assert(actions_view(plan@) =~= prev + restore_actions_of(name@, acl@));
                },
            }
        } else {
            assert(actions_view(plan@) =~= prev + restore_actions_of(name@, acl@));
        }
        i = i + 1;
    }
    assert(config.entry_seq().take(entries@.len() as int) =~= config.entry_seq());
    plan
}

/// The actions that load plugin `name`'s persisted list for mode text
/// `mode` into the bot (groups, then friends): none when the plugin has no
/// entry or the text names no mode.
pub open spec fn mode_list_plan(m: Map<Seq<char>, PluginAclView>, name: Seq<char>, mode: Seq<char>) -> Seq<BotActionView> {
    if !m.contains_key(name) {
        Seq::empty()
    } else {
        match mode_of_text(mode) {
            None => Seq::empty(),
            Some(md) => {
                let list = if md is WhiteList { m[name].whitelist } else { m[name].blacklist };
                seq![
                    BotActionView::SetList(name, true, ListChangeView::Changes(list.groups)),
                    BotActionView::SetList(name, false, ListChangeView::Changes(list.friends)),
                ]
            },
        }
    }
}

/// Plans the loading of plugin `name`'s persisted list for the mode it has
/// just been switched to.
pub fn apply_mode_list(config: &AclConfig, name: &str, new_mode_str: &str) -> (plan: Vec<BotAction>)
    ensures
        actions_view(plan@) == mode_list_plan(config@, name@, new_mode_str@),
{
    let mut plan: Vec<BotAction> = Vec::new();
    match config.get(name) {
        None => {
            assert(actions_view(plan@) =~= Seq::empty());
        },
        Some(acl) => {
            match string_to_mode(new_mode_str) {
                None => {
                    assert(actions_view(plan@) =~= Seq::empty());
                },
                Some(m) => {
                    let list = match m {
                        ListMode::WhiteList => &acl.whitelist,
                        ListMode::BlackList => &acl.blacklist,
                    };
                    plan.push(BotAction::SetList { plugin: name.to_string(), is_group: true, change: ListChange::Changes(copy_ids(&list.groups)) });
                    plan.push(BotAction::SetList { plugin: name.to_string(), is_group: false, change: ListChange::Changes(copy_ids(&list.friends)) });
                    assert(actions_view(plan@) =~= mode_list_plan(config@, name@, new_mode_str@));
                },
            }
        },
    }
    plan
}

/// What switching plugin `name` to `mode` asks of the bot, once the bot's
/// current lists have been recorded: the switch, and, only when the bot
/// has made it, the loading of the lists persisted for the new mode.
pub struct ModeSwitch {
    pub switch: BotAction,
    pub load: Vec<BotAction>,
}

/// The mode command: records the bot's report `plugins` in `config` (so
/// that the lists of the current mode are kept), then plans the switch of
/// `name` to `mode` and the loading of that mode's persisted lists.
pub fn switch_mode(config: &mut AclConfig, plugins: &Vec<PluginState>, name: &str, mode: ListMode) -> (r: ModeSwitch)
    ensures
        final(config)@ == saved(old(config)@, states_view(plugins@)),
        r.switch@ == BotActionView::SetMode(name@, mode),
        actions_view(r.load@) == mode_list_plan(final(config)@, name@, mode_text(mode)),
{
    save(config, plugins);
    let mode_str = mode_to_string(mode);
    let load = apply_mode_list(config, name, mode_str.as_str());
    ModeSwitch { switch: BotAction::SetMode { plugin: name.to_string(), mode }, load }
}

// ---------------------------------------------------------------------------
// Laws
// ---------------------------------------------------------------------------

proof fn lemma_saved_one(m: Map<Seq<char>, PluginAclView>, p: PluginStateView)
    ensures
        saved(m, seq![p]) == (if p.name == self_name() {
            m
        } else {
            m.insert(p.name, recorded(acl_or_default(m, p.name), p))
        }),
{
    assert(seq![p].drop_last() =~= Seq::<PluginStateView>::empty());
    assert(saved(m, seq![p].drop_last()) == m);
    assert(seq![p].last() == p);
}

/// The two lists of a plugin are kept apart: when the plugin's state is
/// saved in one mode and then, after a switch, in the other, loading the
/// list of the first mode gives back exactly the lists that were saved in
/// it (sorted). So white list, black list, white list restores the
/// white list saved first, and the other way round.
pub proof fn lemma_mode_switch_round_trip(
    m: Map<Seq<char>, PluginAclView>,
    first: PluginStateView,
    second: PluginStateView,
)
    requires
        first.name == second.name,
        first.name != self_name(),
        first.mode != second.mode,
    ensures
        mode_list_plan(saved(saved(m, seq![first]), seq![second]), first.name, mode_text(first.mode))
            == seq![
            BotActionView::SetList(first.name, true, ListChangeView::Changes(sorted_ids(first.groups))),
            BotActionView::SetList(first.name, false, ListChangeView::Changes(sorted_ids(first.friends))),
        ],
{
    lemma_saved_one(m, first);
    lemma_saved_one(saved(m, seq![first]), second);
    lemma_mode_text_round_trip(first.mode);
}

/// Saving records what the bot reports: afterwards the plugin's entry has
/// its access-control switch, its mode, and its current lists (sorted)
/// under that mode.
pub proof fn lemma_save_records_state(m: Map<Seq<char>, PluginAclView>, p: PluginStateView)
    requires
        p.name != self_name(),
    ensures
        saved(m, seq![p]).contains_key(p.name),
        saved(m, seq![p])[p.name].access_control == p.access_control,
        mode_of_text(saved(m, seq![p])[p.name].mode) == Some(p.mode),
        (if p.mode is WhiteList {
            saved(m, seq![p])[p.name].whitelist
        } else {
            saved(m, seq![p])[p.name].blacklist
        }) == (IdListView { groups: sorted_ids(p.groups), friends: sorted_ids(p.friends) }),
{
    lemma_saved_one(m, p);
    lemma_mode_text_round_trip(p.mode);
}


/// The other mode.
pub open spec fn other_mode(mode: ListMode) -> ListMode {
    match mode {
        ListMode::WhiteList => ListMode::BlackList,
        ListMode::BlackList => ListMode::WhiteList,
    }
}

/// The sorted lists of a reported state, as they are recorded.
pub open spec fn ids_of(p: PluginStateView) -> IdListView {
    IdListView { groups: sorted_ids(p.groups), friends: sorted_ids(p.friends) }
}

/// The list an entry keeps for `mode`.
pub open spec fn list_in(e: PluginAclView, mode: ListMode) -> IdListView {
    if mode is WhiteList {
        e.whitelist
    } else {
        e.blacklist
    }
}

/// The last state reported for plugin `n` in `ps`.
pub open spec fn last_state(ps: Seq<PluginStateView>, n: Seq<char>) -> Option<PluginStateView>
    decreases ps.len(),
{
    if ps.len() == 0 {
        None
    } else if ps.last().name == n {
        Some(ps.last())
    } else {
        last_state(ps.drop_last(), n)
    }
}

/// The last state reported for plugin `n` in `ps` while it was in `mode`.
pub open spec fn last_in_mode(ps: Seq<PluginStateView>, n: Seq<char>, mode: ListMode) -> Option<PluginStateView>
    decreases ps.len(),
{
    if ps.len() == 0 {
        None
    } else if ps.last().name == n && ps.last().mode == mode {
        Some(ps.last())
    } else {
        last_in_mode(ps.drop_last(), n, mode)
    }
}

/// The list persisted for plugin `n` and `mode` once `ps` has been saved
/// over `m`: that of its last report in that mode, else the one `m` had.
pub open spec fn saved_list(m: Map<Seq<char>, PluginAclView>, ps: Seq<PluginStateView>, n: Seq<char>, mode: ListMode) -> IdListView {
    match last_in_mode(ps, n, mode) {
        Some(q) => ids_of(q),
        None => list_in(acl_or_default(m, n), mode),
    }
}

/// The actions that load list `l` of plugin `n` (groups, then friends).
pub open spec fn load_plan(n: Seq<char>, l: IdListView) -> Seq<BotActionView> {
    seq![
        BotActionView::SetList(n, true, ListChangeView::Changes(l.groups)),
        BotActionView::SetList(n, false, ListChangeView::Changes(l.friends)),
    ]
}

proof fn lemma_last_facts(ps: Seq<PluginStateView>, n: Seq<char>, md: ListMode)
    ensures
        last_state(ps, n) matches Some(p) ==> p.name == n && last_in_mode(ps, n, p.mode) == Some(p),
        last_state(ps, n) is None ==> last_in_mode(ps, n, md) is None,
        (forall|k: int| 0 <= k < ps.len() && #[trigger] ps[k].name == n ==> ps[k].mode != md) ==> {
            &&& last_in_mode(ps, n, md) is None
            &&& last_state(ps, n) matches Some(p) ==> p.mode != md
        },
    decreases ps.len(),
{
    if ps.len() > 0 {
        lemma_last_facts(ps.drop_last(), n, md);
        if forall|k: int| 0 <= k < ps.len() && #[trigger] ps[k].name == n ==> ps[k].mode != md {
            assert forall|k: int| 0 <= k < ps.drop_last().len() && #[trigger] ps.drop_last()[k].name == n implies ps.drop_last()[k].mode != md by {
                assert(ps.drop_last()[k] == ps[k]);
            }
            assert(ps.last() == ps[ps.len() - 1]);
        }
    }
}

/// What saving `ps` over `m` leaves for plugin `n`: its last report's switch
/// and mode, and for each mode the list of its last report in that mode (or
/// the list it had); nothing changes for a plugin not reported.
proof fn lemma_saved_entry(m: Map<Seq<char>, PluginAclView>, ps: Seq<PluginStateView>, n: Seq<char>)
    requires
        n != self_name(),
    ensures
        saved(m, ps).contains_key(n) == (m.contains_key(n) || last_state(ps, n) is Some),
        last_state(ps, n) is None ==> (m.contains_key(n) ==> saved(m, ps)[n] == m[n]),
        last_state(ps, n) matches Some(p) ==> saved(m, ps)[n] == (PluginAclView {
            access_control: p.access_control,
            mode: mode_text(p.mode),
            whitelist: saved_list(m, ps, n, ListMode::WhiteList),
            blacklist: saved_list(m, ps, n, ListMode::BlackList),
        }),
    decreases ps.len(),
{
    if ps.len() > 0 {
        let q = ps.drop_last();
        lemma_saved_entry(m, q, n);
        let p = ps.last();
        let m1 = saved(m, q);
        lemma_last_facts(q, n, ListMode::WhiteList);
        lemma_last_facts(q, n, ListMode::BlackList);
        if p.name == n {
            let e = acl_or_default(m1, n);
            assert(e.whitelist == saved_list(m, q, n, ListMode::WhiteList));
            assert(e.blacklist == saved_list(m, q, n, ListMode::BlackList));
        }
    }
}

/// The two lists of a plugin are kept apart through the mode command.
/// Plugin `first.name` is last reported as `first` in `ps1`; switching it to
/// the other mode saves `ps1` and loads the lists last saved for that
/// mode. Switching it back, with every report of it in `ps2` in the other
/// mode, saves `ps2` and loads exactly `first`'s lists (sorted).
pub proof fn lemma_mode_command_round_trip(
    m: Map<Seq<char>, PluginAclView>,
    ps1: Seq<PluginStateView>,
    ps2: Seq<PluginStateView>,
    first: PluginStateView,
)
    requires
        first.name != self_name(),
        last_state(ps1, first.name) == Some(first),
        forall|k: int| 0 <= k < ps2.len() && #[trigger] ps2[k].name == first.name ==> ps2[k].mode != first.mode,
    ensures
        mode_list_plan(saved(m, ps1), first.name, mode_text(other_mode(first.mode)))
            == load_plan(first.name, saved_list(m, ps1, first.name, other_mode(first.mode))),
        mode_list_plan(saved(saved(m, ps1), ps2), first.name, mode_text(first.mode)) == load_plan(first.name, ids_of(first)),
{
    let n = first.name;
    let m1 = saved(m, ps1);
    lemma_saved_entry(m, ps1, n);
    lemma_last_facts(ps1, n, first.mode);
    lemma_last_facts(ps2, n, first.mode);
    lemma_saved_entry(m1, ps2, n);
    lemma_mode_text_round_trip(first.mode);
    lemma_mode_text_round_trip(other_mode(first.mode));
    assert(list_in(m1[n], first.mode) == ids_of(first));
    assert(list_in(m1[n], other_mode(first.mode)) == saved_list(m, ps1, n, other_mode(first.mode)));
    let m2 = saved(m1, ps2);
    assert(list_in(m2[n], first.mode) == ids_of(first));
}

/// Saving the same report twice changes nothing the second time.
pub proof fn lemma_save_idempotent(m: Map<Seq<char>, PluginAclView>, ps: Seq<PluginStateView>)
    ensures
        saved(saved(m, ps), ps) == saved(m, ps),
{
    let m1 = saved(m, ps);
    let m2 = saved(m1, ps);
    lemma_save_skips_self(m, ps);
    lemma_save_skips_self(m1, ps);
    assert forall|n: Seq<char>| #[trigger] m2.contains_key(n) == m1.contains_key(n) && (m1.contains_key(n) ==> m2[n] == m1[n]) by {
        if n != self_name() {
            lemma_saved_entry(m, ps, n);
            lemma_saved_entry(m1, ps, n);
        }
    }
    assert(m2 =~= m1);
}


/// Restoring puts back what saving recorded: the plan for an entry in which
/// reported state `p` was recorded switches `p`'s plugin to `p`'s mode,
/// loads `p`'s own lists (sorted) into that mode, and sets `p`'s
/// access-control switch; whatever the entry held before, the lists of the
/// other mode are not loaded.
pub proof fn lemma_restore_after_save(e: PluginAclView, p: PluginStateView)
    requires
        p.name != self_name(),
    ensures
        restore_plan(seq![(p.name, recorded(e, p))]) == seq![
            BotActionView::SetMode(p.name, p.mode),
            BotActionView::SetList(p.name, true, ListChangeView::Changes(sorted_ids(p.groups))),
            BotActionView::SetList(p.name, false, ListChangeView::Changes(sorted_ids(p.friends))),
            BotActionView::SetAccessControl(p.name, p.access_control),
        ],
{
    lemma_mode_text_round_trip(p.mode);
    let s = seq![(p.name, recorded(e, p))];
    assert(s.drop_last() =~= Seq::<(Seq<char>, PluginAclView)>::empty());
    assert(restore_plan(s.drop_last()) =~= Seq::<BotActionView>::empty());
    assert(restore_plan(s) =~= restore_actions_of(p.name, recorded(e, p)));
}

/// Restoring an entry whose mode text names mode `m` loads the list the
/// entry keeps for `m`: the white list in white-list mode, the black list in
/// black-list mode.
pub proof fn lemma_restore_loads_mode_list(name: Seq<char>, e: PluginAclView, m: ListMode)
    requires
        name != self_name(),
        e.mode == mode_text(m),
    ensures
        restore_plan(seq![(name, e)]).len() == 4,
        restore_plan(seq![(name, e)])[0] == BotActionView::SetMode(name, m),
        restore_plan(seq![(name, e)])[1] == BotActionView::SetList(
            name,
            true,
            ListChangeView::Changes(if m is WhiteList { e.whitelist.groups } else { e.blacklist.groups }),
        ),
        restore_plan(seq![(name, e)])[2] == BotActionView::SetList(
            name,
            false,
            ListChangeView::Changes(if m is WhiteList { e.whitelist.friends } else { e.blacklist.friends }),
        ),
        restore_plan(seq![(name, e)])[3] == BotActionView::SetAccessControl(name, e.access_control),
{
    lemma_mode_text_round_trip(m);
    let s = seq![(name, e)];
    assert(s.drop_last() =~= Seq::<(Seq<char>, PluginAclView)>::empty());
    assert(restore_plan(s.drop_last()) =~= Seq::<BotActionView>::empty());
    assert(restore_plan(s) =~= restore_actions_of(name, e));
}

/// Restoring entries one after the other: the plan for more entries extends
/// the plan for the earlier ones by the plan of the last entry alone.
pub proof fn lemma_restore_plan_extends(entries: Seq<(Seq<char>, PluginAclView)>, name: Seq<char>, e: PluginAclView)
    ensures
        restore_plan(entries.push((name, e))) == restore_plan(entries) + restore_plan(seq![(name, e)]),
{
    let s = seq![(name, e)];
    assert(entries.push((name, e)).drop_last() =~= entries);
    assert(s.drop_last() =~= Seq::<(Seq<char>, PluginAclView)>::empty());
    assert(restore_plan(s.drop_last()) =~= Seq::<BotActionView>::empty());
    assert(restore_plan(s) =~= restore_actions_of(name, e));
}

/// This plugin's own entry is never touched by saving.
pub proof fn lemma_save_skips_self(m: Map<Seq<char>, PluginAclView>, ps: Seq<PluginStateView>)
    ensures
        saved(m, ps).contains_key(self_name()) == m.contains_key(self_name()),
        m.contains_key(self_name()) ==> saved(m, ps)[self_name()] == m[self_name()],
    decreases ps.len(),
{
    if ps.len() > 0 {
        lemma_save_skips_self(m, ps.drop_last());
    }
}

} // verus!
