//! The admin console's configuration model: hosts, panels and actions with
//! integer-keyed storage and a name-to-action lookup.  The console only
//! describes what the dashboard may run; executing an action is an outside
//! concern.

use vstd::prelude::*;

use core::marker::PhantomData;

use crate::errors::AppError;
use crate::strutil::str_eq;

verus! {

/// A key that is, up to conversion, a vector index.
pub trait IndexKey: Sized {
    /// The index this key stands for.
    spec fn key_index(&self) -> int;

    /// The index as a machine integer.
    fn to_index(&self) -> (r: usize)
        ensures
            r as int == self.key_index(),
    ;

    /// The key standing for `i`.
    fn from_index(i: usize) -> (r: Self)
        ensures
            r.key_index() == i as int,
    ;
}

/// A vector addressed by a typed index key.
pub struct IndexedVector<K, V> {
    data: Vec<V>,
    _key: PhantomData<K>,
}

impl<K, V> View for IndexedVector<K, V> {
    type V = Seq<V>;

    closed spec fn view(&self) -> Seq<V> {
        self.data@
    }
}

impl<K: IndexKey, V> IndexedVector<K, V> {
    /// An empty vector.
    pub fn new() -> (r: Self)
        ensures
            r@ == Seq::<V>::empty(),
    {
        let r = IndexedVector { data: Vec::new(), _key: PhantomData };
        proof {
            assert(r@ =~= Seq::<V>::empty());
        }
        r
    }

    /// How many values are stored.
    pub fn len(&self) -> (r: usize)
        ensures
            r == self@.len(),
    {
        self.data.len()
    }

    /// Whether nothing is stored.
    pub fn is_empty(&self) -> (r: bool)
        ensures
            r == (self@.len() == 0),
    {
        self.data.len() == 0
    }

    /// The value under `index`, if the index is in range.
    pub fn get(&self, index: &K) -> (r: Option<&V>)
        ensures
            match r {
                Some(v) => 0 <= index.key_index() < self@.len() && *v == self@[index.key_index()],
                None => !(0 <= index.key_index() < self@.len()),
            },
    {
        let i = index.to_index();
        if i < self.data.len() {
            Some(&self.data[i])
        } else {
            None
        }
    }

    /// Stores `value` under `index`: appended when the index is the current
    /// length, replacing (and returning) the old value when it is below.
    pub fn insert(&mut self, index: K, value: V) -> (r: Option<V>)
        requires
            0 <= index.key_index() <= old(self)@.len(),
        ensures
            index.key_index() == old(self)@.len() ==> r is None && final(self)@ == old(
                self,
            )@.push(value),
            index.key_index() < old(self)@.len() ==> r == Some(
                old(self)@[index.key_index()],
            ) && final(self)@ == old(self)@.update(index.key_index(), value),
    {
        let i = index.to_index();
        if i == self.data.len() {
            self.data.push(value);
            None
        } else {
            let old_value = self.data.remove(i);
            self.data.insert(i, value);
            proof {
                assert(final(self)@ =~= old(self)@.update(i as int, value));
            }
            Some(old_value)
        }
    }

    /// Removes and returns the value under `index`, shifting later values
    /// down; an out-of-range index leaves the vector unchanged.
    pub fn remove(&mut self, index: K) -> (r: Option<V>)
        ensures
            0 <= index.key_index() < old(self)@.len() ==> r == Some(
                old(self)@[index.key_index()],
            ) && final(self)@ == old(self)@.remove(index.key_index()),
            !(0 <= index.key_index() < old(self)@.len()) ==> r is None && final(self)@ == old(
                self,
            )@,
    {
        let i = index.to_index();
        if i < self.data.len() {
            Some(self.data.remove(i))
        } else {
            None
        }
    }

    /// The stored values paired with their keys, in index order.
    pub fn iter(&self) -> (r: Vec<(K, &V)>)
        ensures
            r@.len() == self@.len(),
            forall|i: int|
                0 <= i < r@.len() ==> (#[trigger] r@[i].0).key_index() == i && *r@[i].1
                    == self@[i],
    {
        let mut r: Vec<(K, &V)> = Vec::new();
        let mut i: usize = 0;
        while i < self.data.len()
            invariant
                i <= self.data@.len(),
                r@.len() == i,
                forall|h: int|
                    0 <= h < i ==> (#[trigger] r@[h].0).key_index() == h && *r@[h].1
                        == self.data@[h],
            decreases self.data.len() - i,
        {
            r.push((K::from_index(i), &self.data[i]));
            i += 1;
        }
        r
    }
}

/// Key of a stored panel.
#[derive(Clone, Copy, Debug)]
pub struct PanelId(usize);

/// Key of a stored action.
#[derive(Clone, Copy, Debug)]
pub struct ActionId(usize);

/// Key of a stored host.
#[derive(Clone, Copy, Debug)]
pub struct HostId(usize);

impl IndexKey for PanelId {
    closed spec fn key_index(&self) -> int {
        self.0 as int
    }

    fn to_index(&self) -> usize {
        self.0
    }

    fn from_index(i: usize) -> Self {
        PanelId(i)
    }
}

impl IndexKey for ActionId {
    closed spec fn key_index(&self) -> int {
        self.0 as int
    }

    fn to_index(&self) -> usize {
        self.0
    }

    fn from_index(i: usize) -> Self {
        ActionId(i)
    }
}

impl IndexKey for HostId {
    closed spec fn key_index(&self) -> int {
        self.0 as int
    }

    fn to_index(&self) -> usize {
        self.0
    }

    fn from_index(i: usize) -> Self {
        HostId(i)
    }
}

/// One dashboard panel: its display name and the actions it offers.
pub struct PanelInfo {
    pub pretty_name: String,
    pub actions: Vec<ActionId>,
}

/// One runnable action: its URL name, display name, command text, and the
/// host it runs on.
pub struct ActionInfo {
    pub url_name: String,
    pub pretty_name: String,
    pub command: String,
    pub host: HostId,
}

/// One reachable host.
pub struct HostInfo {
    pub address: String,
}

/// One configured command, as the configuration file spells it.
pub struct Command {
    pub name: String,
    pub host: String,
    pub panel: String,
    pub command: String,
}

/// First index whose key (the pair's first component) equals `key`.
pub open spec fn pair_index(v: Seq<(String, String)>, key: Seq<char>) -> Option<int>
    decreases v.len(),
{
    if v.len() == 0 {
        None
    } else if v.first().0@ == key {
        Some(0int)
    } else {
        match pair_index(v.drop_first(), key) {
            Some(i) => Some(i + 1),
            None => None,
        }
    }
}

proof fn lemma_pair_index_found(v: Seq<(String, String)>, key: Seq<char>, i: int)
    requires
        0 <= i < v.len(),
        v[i].0@ == key,
        forall|h: int| 0 <= h < i ==> (#[trigger] v[h].0@) != key,
    ensures
        pair_index(v, key) == Some(i),
    decreases v.len(),
{
    if i == 0 {
    } else {
        assert(v[0].0@ != key);
        assert forall|h: int| 0 <= h < i - 1 implies (#[trigger] v.drop_first()[h].0@) != key by {
            assert(v.drop_first()[h] == v[h + 1]);
        }
        assert(v.drop_first()[i - 1] == v[i]);
        lemma_pair_index_found(v.drop_first(), key, i - 1);
    }
}

proof fn lemma_pair_index_none(v: Seq<(String, String)>, key: Seq<char>)
    requires
        forall|h: int| 0 <= h < v.len() ==> (#[trigger] v[h].0@) != key,
    ensures
        pair_index(v, key) is None,
    decreases v.len(),
{
    if v.len() > 0 {
        assert forall|h: int| 0 <= h < v.len() - 1 implies (#[trigger] v.drop_first()[h].0@)
            != key by {
            assert(v.drop_first()[h] == v[h + 1]);
        }
        lemma_pair_index_none(v.drop_first(), key);
    }
}

/// First index of a `(String, ActionId)` pair keyed by `name`.
pub open spec fn lookup_action_id(lookup: Seq<(String, ActionId)>, name: Seq<char>) -> Option<
    ActionId,
>
    decreases lookup.len(),
{
    if lookup.len() == 0 {
        None
    } else if lookup.first().0@ == name {
        Some(lookup.first().1)
    } else {
        lookup_action_id(lookup.drop_first(), name)
    }
}

proof fn lemma_lookup_action_found(lookup: Seq<(String, ActionId)>, name: Seq<char>, i: int)
    requires
        0 <= i < lookup.len(),
        lookup[i].0@ == name,
        forall|h: int| 0 <= h < i ==> (#[trigger] lookup[h].0@) != name,
    ensures
        lookup_action_id(lookup, name) == Some(lookup[i].1),
    decreases lookup.len(),
{
    if i == 0 {
    } else {
        assert(lookup[0].0@ != name);
        assert forall|h: int| 0 <= h < i - 1 implies (#[trigger] lookup.drop_first()[h].0@)
            != name by {
            assert(lookup.drop_first()[h] == lookup[h + 1]);
        }
        assert(lookup.drop_first()[i - 1] == lookup[i]);
        lemma_lookup_action_found(lookup.drop_first(), name, i - 1);
    }
}

proof fn lemma_lookup_action_none(lookup: Seq<(String, ActionId)>, name: Seq<char>)
    requires
        forall|h: int| 0 <= h < lookup.len() ==> (#[trigger] lookup[h].0@) != name,
    ensures
        lookup_action_id(lookup, name) is None,
    decreases lookup.len(),
{
    if lookup.len() > 0 {
        assert forall|h: int| 0 <= h < lookup.len() - 1 implies (
        #[trigger] lookup.drop_first()[h].0@) != name by {
            assert(lookup.drop_first()[h] == lookup[h + 1]);
        }
        lemma_lookup_action_none(lookup.drop_first(), name);
    }
}

/// First index of a `(String, String)` pair keyed by `key`, if any.
#[verifier::spinoff_prover]
fn find_pair_index(v: &Vec<(String, String)>, key: &str) -> (r: Option<usize>)
    ensures
        match r {
            Some(i) => pair_index(v@, key@) == Some(i as int),
            None => pair_index(v@, key@) is None,
        },
{
    let mut i: usize = 0;
    while i < v.len()
        invariant
            i <= v@.len(),
            forall|h: int| 0 <= h < i ==> (#[trigger] v@[h].0@) != key@,
        decreases v.len() - i,
    {
        if str_eq(v[i].0.as_str(), key) {
            proof {
                lemma_pair_index_found(v@, key@, i as int);
            }
            return Some(i);
        }
        i += 1;
    }
    proof {
        lemma_pair_index_none(v@, key@);
    }
    None
}

/// The action indices of the first `upto` commands that belong to the
/// panel keyed `panel_key`, in command order.
pub open spec fn panel_action_indices(
    cmds: Seq<(String, Command)>,
    panel_key: Seq<char>,
    upto: int,
) -> Seq<int>
    decreases upto,
{
    if upto <= 0 {
        Seq::empty()
    } else {
        let prev = panel_action_indices(cmds, panel_key, upto - 1);
        if cmds[upto - 1].1.panel@ == panel_key {
            prev.push(upto - 1)
        } else {
            prev
        }
    }
}

/// The `(command key, display name)` pairs of the first `upto` commands
/// that belong to the panel keyed `panel_key`, in command order.
pub open spec fn panel_command_names(
    cmds: Seq<(String, Command)>,
    panel_key: Seq<char>,
    upto: int,
) -> Seq<(Seq<char>, Seq<char>)>
    decreases upto,
{
    if upto <= 0 {
        Seq::empty()
    } else {
        let prev = panel_command_names(cmds, panel_key, upto - 1);
        if cmds[upto - 1].1.panel@ == panel_key {
            prev.push((cmds[upto - 1].0@, cmds[upto - 1].1.name@))
        } else {
            prev
        }
    }
}

/// The admin console: hosts, panels and actions under integer keys, plus
/// the URL-name lookup into the actions.
pub struct AdminConsole {
    pub hosts: IndexedVector<HostId, HostInfo>,
    pub panels: IndexedVector<PanelId, PanelInfo>,
    pub actions: IndexedVector<ActionId, ActionInfo>,
    pub actions_lookup: Vec<(String, ActionId)>,
}

impl AdminConsole {
    /// An empty console.
    pub fn new() -> (r: Self)
        ensures
            r.hosts@.len() == 0,
            r.panels@.len() == 0,
            r.actions@.len() == 0,
            r.actions_lookup@.len() == 0,
    {
        AdminConsole {
            hosts: IndexedVector::new(),
            panels: IndexedVector::new(),
            actions: IndexedVector::new(),
            actions_lookup: Vec::new(),
        }
    }

    /// The action registered under `url_name`, if any.
    #[verifier::spinoff_prover]
    pub fn get_action_by_url(&self, url_name: &str) -> (r: Option<&ActionInfo>)
        ensures
            match r {
                Some(info) => lookup_action_id(self.actions_lookup@, url_name@) matches Some(id)
                    && 0 <= id.key_index() < self.actions@.len() && *info
                    == self.actions@[id.key_index()],
                None => match lookup_action_id(self.actions_lookup@, url_name@) {
                    None => true,
                    Some(id) => !(0 <= id.key_index() < self.actions@.len()),
                },
            },
    {
        let mut i: usize = 0;
        while i < self.actions_lookup.len()
            invariant
                i <= self.actions_lookup@.len(),
                forall|h: int| 0 <= h < i ==> (#[trigger] self.actions_lookup@[h].0@) != url_name@,
            decreases self.actions_lookup.len() - i,
        {
            if str_eq(self.actions_lookup[i].0.as_str(), url_name) {
                proof {
                    lemma_lookup_action_found(self.actions_lookup@, url_name@, i as int);
                }
                return self.actions.get(&self.actions_lookup[i].1);
            }
            i += 1;
        }
        proof {
            lemma_lookup_action_none(self.actions_lookup@, url_name@);
        }
        None
    }
}

impl AdminConsole {
    /// Builds the console from its configuration lists: hosts and panels in
    /// input order, every command resolved against them by first key match.
    /// A command naming an unknown host or panel is refused.
    #[verifier::spinoff_prover]
    #[verifier::rlimit(60)]
    pub fn build(
        hosts: Vec<(String, String)>,
        panels: Vec<(String, String)>,
        commands: Vec<(String, Command)>,
    ) -> (r: Result<AdminConsole, AppError>)
        ensures
            match r {
                Ok(c) => {
                    &&& c.hosts@.len() == hosts@.len()
                    &&& forall|i: int|
                        0 <= i < hosts@.len() ==> (#[trigger] c.hosts@[i]).address@
                            == hosts@[i].1@
                    &&& c.panels@.len() == panels@.len()
                    &&& forall|p: int|
                        0 <= p < panels@.len() ==> {
                            &&& (#[trigger] c.panels@[p]).pretty_name@ == panels@[p].1@
                            &&& c.panels@[p].actions@.map_values(|a: ActionId| a.key_index())
                                == panel_action_indices(
                                commands@,
                                panels@[p].0@,
                                commands@.len() as int,
                            )
                        }
                    &&& c.actions@.len() == commands@.len()
                    &&& forall|k: int|
                        0 <= k < commands@.len() ==> {
                            &&& (#[trigger] c.actions@[k]).url_name@ == commands@[k].0@
                            &&& c.actions@[k].pretty_name@ == commands@[k].1.name@
                            &&& c.actions@[k].command@ == commands@[k].1.command@
                            &&& pair_index(hosts@, commands@[k].1.host@) == Some(
                                c.actions@[k].host.key_index(),
                            )
                            &&& pair_index(panels@, commands@[k].1.panel@) is Some
                        }
                    &&& c.actions_lookup@.len() == commands@.len()
                    &&& forall|k: int|
                        0 <= k < commands@.len() ==> (#[trigger] c.actions_lookup@[k]).0@
                            == commands@[k].0@ && c.actions_lookup@[k].1.key_index() == k
                },
                Err(_) => exists|k: int|
                    0 <= k < commands@.len() && (pair_index(
                        hosts@,
                        (#[trigger] commands@[k]).1.host@,
                    ) is None || pair_index(panels@, commands@[k].1.panel@) is None),
            },
    {
        let mut hosts_data: Vec<HostInfo> = Vec::new();
        let mut i: usize = 0;
        while i < hosts.len()
            invariant
                i <= hosts@.len(),
                hosts_data@.len() == i,
                forall|h: int|
                    0 <= h < i ==> (#[trigger] hosts_data@[h]).address@ == hosts@[h].1@,
            decreases hosts.len() - i,
        {
            hosts_data.push(HostInfo { address: hosts[i].1.clone() });
            i += 1;
        }
        let mut panels_data: Vec<PanelInfo> = Vec::new();
        let mut p: usize = 0;
        while p < panels.len()
            invariant
                p <= panels@.len(),
                panels_data@.len() == p,
                forall|h: int|
                    0 <= h < p ==> {
                        &&& (#[trigger] panels_data@[h]).pretty_name@ == panels@[h].1@
                        &&& panels_data@[h].actions@.map_values(|a: ActionId| a.key_index())
                            == panel_action_indices(commands@, panels@[h].0@, commands@.len() as int)
                    },
            decreases panels.len() - p,
        {
            let mut acts: Vec<ActionId> = Vec::new();
            let mut k: usize = 0;
            proof {
                assert(acts@.map_values(|a: ActionId| a.key_index()) =~= panel_action_indices(
                    commands@,
                    panels@[p as int].0@,
                    0,
                ));
            }
            while k < commands.len()
                invariant
                    k <= commands@.len(),
                    p < panels@.len(),
                    acts@.map_values(|a: ActionId| a.key_index()) == panel_action_indices(
                        commands@,
                        panels@[p as int].0@,
                        k as int,
                    ),
                decreases commands.len() - k,
            {
                if str_eq(commands[k].1.panel.as_str(), panels[p].0.as_str()) {
                    acts.push(ActionId::from_index(k));
                }
                proof {
                    assert(acts@.map_values(|a: ActionId| a.key_index()) =~= panel_action_indices(
                        commands@,
                        panels@[p as int].0@,
                        k as int + 1,
                    ));
                }
                k += 1;
            }
            panels_data.push(PanelInfo { pretty_name: panels[p].1.clone(), actions: acts });
            p += 1;
        }
        let mut actions_data: Vec<ActionInfo> = Vec::new();
        let mut lookup: Vec<(String, ActionId)> = Vec::new();
        let mut k: usize = 0;
        while k < commands.len()
            invariant
                k <= commands@.len(),
                actions_data@.len() == k,
                lookup@.len() == k,
                forall|h: int|
                    0 <= h < k ==> {
                        &&& (#[trigger] actions_data@[h]).url_name@ == commands@[h].0@
                        &&& actions_data@[h].pretty_name@ == commands@[h].1.name@
                        &&& actions_data@[h].command@ == commands@[h].1.command@
                        &&& pair_index(hosts@, commands@[h].1.host@) == Some(
                            actions_data@[h].host.key_index(),
                        )
                        &&& pair_index(panels@, commands@[h].1.panel@) is Some
                    },
                forall|h: int|
                    0 <= h < k ==> (#[trigger] lookup@[h]).0@ == commands@[h].0@
                        && lookup@[h].1.key_index() == h,
            decreases commands.len() - k,
        {
            let hi = match find_pair_index(&hosts, commands[k].1.host.as_str()) {
                Some(hi) => hi,
                None => {
                    return Err(
                        AppError::ConfigurationError(
                            "a command names a host that is not configured".to_owned(),
                        ),
                    );
                },
            };
            if find_pair_index(&panels, commands[k].1.panel.as_str()).is_none() {
                return Err(
                    AppError::ConfigurationError(
                        "a command names a panel that is not configured".to_owned(),
                    ),
                );
            }
            actions_data.push(
                ActionInfo {
                    url_name: commands[k].0.clone(),
                    pretty_name: commands[k].1.name.clone(),
                    command: commands[k].1.command.clone(),
                    host: HostId::from_index(hi),
                },
            );
            lookup.push((commands[k].0.clone(), ActionId::from_index(k)));
            k += 1;
        }
        Ok(
            AdminConsole {
                hosts: IndexedVector { data: hosts_data, _key: PhantomData },
                panels: IndexedVector { data: panels_data, _key: PhantomData },
                actions: IndexedVector { data: actions_data, _key: PhantomData },
                actions_lookup: lookup,
            },
        )
    }
}

/// The admin command configuration in its flat form: named hosts, named
/// panels, and the commands tying them together.
pub struct AdminCommands {
    hosts: Vec<(String, String)>,
    panels: Vec<(String, String)>,
    commands: Vec<(String, Command)>,
}

impl AdminCommands {
    /// The stored hosts, for specification purposes.
    pub closed spec fn hosts_seq(&self) -> Seq<(String, String)> {
        self.hosts@
    }

    /// The stored panels, for specification purposes.
    pub closed spec fn panels_seq(&self) -> Seq<(String, String)> {
        self.panels@
    }

    /// The stored commands, for specification purposes.
    pub closed spec fn commands_seq(&self) -> Seq<(String, Command)> {
        self.commands@
    }

    /// Accepts the configuration as given once every command names a
    /// configured host and a configured panel; refuses it otherwise.
    #[verifier::spinoff_prover]
    pub fn build(
        hosts: Vec<(String, String)>,
        panels: Vec<(String, String)>,
        commands: Vec<(String, Command)>,
    ) -> (r: Result<AdminCommands, AppError>)
        ensures
            match r {
                Ok(c) => {
                    &&& c.hosts_seq() == hosts@
                    &&& c.panels_seq() == panels@
                    &&& c.commands_seq() == commands@
                    &&& forall|k: int|
                        0 <= k < commands@.len() ==> pair_index(
                            hosts@,
                            (#[trigger] commands@[k]).1.host@,
                        ) is Some && pair_index(panels@, commands@[k].1.panel@) is Some
                },
                Err(_) => exists|k: int|
                    0 <= k < commands@.len() && (pair_index(
                        hosts@,
                        (#[trigger] commands@[k]).1.host@,
                    ) is None || pair_index(panels@, commands@[k].1.panel@) is None),
            },
    {
        let mut k: usize = 0;
        while k < commands.len()
            invariant
                k <= commands@.len(),
                forall|h: int|
                    0 <= h < k ==> pair_index(hosts@, (#[trigger] commands@[h]).1.host@) is Some
                        && pair_index(panels@, commands@[h].1.panel@) is Some,
            decreases commands.len() - k,
        {
            if find_pair_index(&hosts, commands[k].1.host.as_str()).is_none() {
                return Err(
                    AppError::ConfigurationError(
                        "a command names a host that is not configured".to_owned(),
                    ),
                );
            }
            if find_pair_index(&panels, commands[k].1.panel.as_str()).is_none() {
                return Err(
                    AppError::ConfigurationError(
                        "a command names a panel that is not configured".to_owned(),
                    ),
                );
            }
            k += 1;
        }
        Ok(AdminCommands { hosts, panels, commands })
    }

    /// The configured panels, as `(key, display name)` pairs.
    pub fn get_panels(&self) -> (r: &Vec<(String, String)>)
        ensures
            r@ == self.panels_seq(),
    {
        &self.panels
    }

    /// The configured hosts, as `(key, address)` pairs.
    pub fn get_hosts(&self) -> (r: &Vec<(String, String)>)
        ensures
            r@ == self.hosts_seq(),
    {
        &self.hosts
    }

    /// The configured commands, keyed by their URL names.
    pub fn get_commands(&self) -> (r: &Vec<(String, Command)>)
        ensures
            r@ == self.commands_seq(),
    {
        &self.commands
    }

    /// Each panel's display name with the `(key, display name)` pairs of
    /// its commands, in configuration order.
    #[verifier::spinoff_prover]
    pub fn get_panels_with_commands(&self) -> (r: Vec<(String, Vec<(String, String)>)>)
        ensures
            r@.len() == self.panels_seq().len(),
            forall|p: int|
                0 <= p < r@.len() ==> {
                    &&& (#[trigger] r@[p]).0@ == self.panels_seq()[p].1@
                    &&& r@[p].1.deep_view() == panel_command_names(
                        self.commands_seq(),
                        self.panels_seq()[p].0@,
                        self.commands_seq().len() as int,
                    )
                },
    {
        let panels = &self.panels;
        let commands = &self.commands;
        let mut r: Vec<(String, Vec<(String, String)>)> = Vec::new();
        let mut p: usize = 0;
        while p < panels.len()
            invariant
                p <= panels@.len(),
                r@.len() == p,
                forall|h: int|
                    0 <= h < p ==> {
                        &&& (#[trigger] r@[h]).0@ == panels@[h].1@
                        &&& r@[h].1.deep_view() == panel_command_names(
                            commands@,
                            panels@[h].0@,
                            commands@.len() as int,
                        )
                    },
            decreases panels.len() - p,
        {
            let mut cmds: Vec<(String, String)> = Vec::new();
            let mut k: usize = 0;
            proof {
                assert(cmds.deep_view() =~= panel_command_names(commands@, panels@[p as int].0@, 0));
            }
            while k < commands.len()
                invariant
                    k <= commands@.len(),
                    p < panels@.len(),
                    cmds.deep_view() == panel_command_names(
                        commands@,
                        panels@[p as int].0@,
                        k as int,
                    ),
                decreases commands.len() - k,
            {
                if str_eq(commands[k].1.panel.as_str(), panels[p].0.as_str()) {
                    cmds.push((commands[k].0.clone(), commands[k].1.name.clone()));
                }
                proof {
                    assert(cmds.deep_view() =~= panel_command_names(
                        commands@,
                        panels@[p as int].0@,
                        k as int + 1,
                    ));
                }
                k += 1;
            }
            r.push((panels[p].1.clone(), cmds));
            p += 1;
        }
        r
    }
}

} // verus!
