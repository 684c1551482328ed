//! The target configuration store: for each target name, the URLs that a
//! deployment to that target uses, and the directory for Orion logs.
use vstd::prelude::*;
use crate::text::str_eq;

verus! {

/// Where Orion logs go when the configuration file names no directory.
pub const DEFAULT_LOG_DIR: &'static str = "/var/log/orion-scheduler";

/// Target environment configuration.
pub struct TargetConfig {
    /// Orion WebSocket server URL.
    pub server_ws: String,
    /// Scorpio base URL (replaces base_url in scorpio.toml).
    pub scorpio_base_url: String,
    /// Scorpio LFS URL (replaces lfs_url in scorpio.toml).
    pub scorpio_lfs_url: String,
}

/// The contents of a `TargetConfig`.
pub struct TargetConfigView {
    pub server_ws: Seq<char>,
    pub scorpio_base_url: Seq<char>,
    pub scorpio_lfs_url: Seq<char>,
}

impl View for TargetConfig {
    type V = TargetConfigView;

    open spec fn view(&self) -> TargetConfigView {
        TargetConfigView {
            server_ws: self.server_ws@,
            scorpio_base_url: self.scorpio_base_url@,
            scorpio_lfs_url: self.scorpio_lfs_url@,
        }
    }
}

/// The contents of a `Config`: the configuration of each target by name,
/// and the log directory.
pub struct ConfigView {
    pub targets: Map<Seq<char>, TargetConfigView>,
    pub log_dir: Seq<char>,
}

/// The map built by inserting `entries` in order: a later entry for a name
/// replaces an earlier one.
pub open spec fn entries_map(entries: Seq<(String, TargetConfig)>) -> Map<
    Seq<char>,
    TargetConfigView,
>
    decreases entries.len(),
{
    if entries.len() == 0 {
        Map::empty()
    } else {
        entries_map(entries.drop_last()).insert(entries.last().0@, entries.last().1@)
    }
}

/// No two entries carry the same name.
pub open spec fn names_unique(entries: Seq<(String, TargetConfig)>) -> bool {
    forall|i: int, j: int|
        0 <= i < entries.len() && 0 <= j < entries.len() && i != j ==> #[trigger] entries[i].0@
            != #[trigger] entries[j].0@
}

/// Target configuration store loaded from the configuration file.
pub struct Config {
    /// Each target's name with its configuration; no name twice.
    targets: Vec<(String, TargetConfig)>,
    /// Directory to save Orion logs.
    log_dir: String,
}

/// With unique names, a name is in the map exactly when some entry has it,
/// and maps to that entry's configuration.
pub proof fn lemma_entries_map_unique(entries: Seq<(String, TargetConfig)>)
    requires
        names_unique(entries),
    ensures
        forall|k: Seq<char>|
            #[trigger] entries_map(entries).contains_key(k) <==> exists|i: int|
                0 <= i < entries.len() && entries[i].0@ == k,
        forall|i: int|
            0 <= i < entries.len() ==> #[trigger] entries_map(entries)[entries[i].0@]
                == entries[i].1@,
    decreases entries.len(),
{
    if entries.len() > 0 {
        let init = entries.drop_last();
        assert(names_unique(init)) by {
            assert forall|i: int, j: int|
                0 <= i < init.len() && 0 <= j < init.len() && i != j implies #[trigger] init[i].0@
                != #[trigger] init[j].0@ by {
                assert(init[i] == entries[i]);
                assert(init[j] == entries[j]);
            }
        }
        lemma_entries_map_unique(init);
        let last = entries.len() - 1;
        assert forall|k: Seq<char>|
            #[trigger] entries_map(entries).contains_key(k) implies exists|i: int|
                0 <= i < entries.len() && entries[i].0@ == k by {
            if k != entries[last].0@ {
                assert(entries_map(init).contains_key(k));
                let i = choose|i: int| 0 <= i < init.len() && init[i].0@ == k;
                assert(entries[i] == init[i]);
            } else {
                assert(entries[last].0@ == k);
            }
        }
        assert forall|k: Seq<char>|
            (exists|i: int| 0 <= i < entries.len() && entries[i].0@ == k) implies #[trigger] entries_map(
                entries,
            ).contains_key(k) by {
            let i = choose|i: int| 0 <= i < entries.len() && entries[i].0@ == k;
            if i < last {
                assert(init[i] == entries[i]);
            }
        }
        assert forall|i: int| 0 <= i < entries.len() implies #[trigger] entries_map(
            entries,
        )[entries[i].0@] == entries[i].1@ by {
            if i < last {
                assert(init[i] == entries[i]);
                assert(entries[i].0@ != entries[last].0@);
            }
        }
    }
}

impl View for Config {
    type V = ConfigView;

    /// The targets by name, and the log directory.
    closed spec fn view(&self) -> ConfigView {
        ConfigView { targets: entries_map(self.targets@), log_dir: self.log_dir@ }
    }
}

impl Config {
    #[verifier::type_invariant]
    spec fn well_formed(self) -> bool {
        names_unique(self.targets@)
    }

    /// A configuration with the given log directory and no targets.
    pub fn new(log_dir: String) -> (c: Config)
        ensures
            c@.targets == Map::<Seq<char>, TargetConfigView>::empty(),
            c@.log_dir == log_dir@,
    {
        Config { targets: Vec::new(), log_dir }
    }

    /// The index of the entry named `name`, if any.
    fn position(&self, name: &str) -> (r: Option<usize>)
        ensures
            match r {
                Some(p) => p < self.targets@.len() && self.targets@[p as int].0@ == name@,
                None => forall|i: int|
                    0 <= i < self.targets@.len() ==> self.targets@[i].0@ != name@,
            },
    {
        let n = self.targets.len();
        for i in 0..n
            invariant
                n == self.targets@.len(),
                forall|j: int| 0 <= j < i ==> self.targets@[j].0@ != name@,
        {
            if str_eq(self.targets[i].0.as_str(), name) {
                return Some(i);
            }
        }
        None
    }

    /// Builds the configuration from what the configuration file holds: the
    /// targets in file order (a later entry for a name replaces an earlier
    /// one) and the log directory, `DEFAULT_LOG_DIR` when the file names none.
    pub fn from_parsed(entries: Vec<(String, TargetConfig)>, log_dir: Option<String>) -> (c: Config)
        ensures
            c@.targets == entries_map(entries@),
            c@.log_dir == match log_dir {
                Some(d) => d@,
                None => DEFAULT_LOG_DIR@,
            },
    {
        let ghost input = entries@;
        let mut targets: Vec<(String, TargetConfig)> = Vec::new();
        let mut probe = Config { targets: Vec::new(), log_dir: String::new() };
        for entry in it: entries
            invariant
                input == it.seq(),
                names_unique(probe.targets@),
                entries_map(probe.targets@) == entries_map(input.take(it.index() as int)),
        {
            proof {
                assert(input.take(it.index() + 1).drop_last() == input.take(it.index() as int));
                lemma_entries_map_unique(probe.targets@);
            }
            let (name, cfg) = entry;
            match probe.position(name.as_str()) {
                Some(p) => {
                    let ghost before = probe.targets@;
                    probe.set_entry(p, (name, cfg));
                    proof {
                        let after = probe.targets@;
                        lemma_entries_map_unique(after);
                        assert(entries_map(after) =~= entries_map(before).insert(
                            after[p as int].0@,
                            after[p as int].1@,
                        )) by {
                            assert forall|k: Seq<char>|
                                entries_map(after).contains_key(k) <==> entries_map(
                                    before,
                                ).insert(after[p as int].0@, after[p as int].1@).contains_key(k) by {
                                if entries_map(before).contains_key(k) {
                                    let i = choose|i: int|
                                        0 <= i < before.len() && before[i].0@ == k;
                                    assert(after[i].0@ == k);
                                }
                                if entries_map(after).contains_key(k) {
                                    let i = choose|i: int|
                                        0 <= i < after.len() && after[i].0@ == k;
                                    assert(before[i].0@ == k);
                                }
                            }
                            assert forall|k: Seq<char>| #[trigger]
                                entries_map(after).contains_key(k) implies entries_map(after)[k]
                                == entries_map(before).insert(
                                after[p as int].0@,
                                after[p as int].1@,
                            )[k] by {
                                let i = choose|i: int|
                                    0 <= i < after.len() && after[i].0@ == k;
                                assert(entries_map(after)[after[i].0@] == after[i].1@);
                                if i != p {
                                    assert(before[i] == after[i]);
                                    assert(entries_map(before)[before[i].0@] == before[i].1@);
                                }
                            }
                        }
                    }
                },
                None => {
                    let ghost before = probe.targets@;
                    probe.push_entry((name, cfg));
                    proof {
                        assert(probe.targets@.drop_last() == before);
                    }
                },
            }
        }
        proof {
            assert(input.take(input.len() as int) == input);
        }
        let dir = match log_dir {
            Some(d) => d,
            None => {
                let mut d = String::new();
                d.append(DEFAULT_LOG_DIR);
                d
            },
        };
        let Config { targets, log_dir: _ } = probe;
        Config { targets, log_dir: dir }
    }

    fn set_entry(&mut self, p: usize, e: (String, TargetConfig))
        requires
            p < old(self).targets@.len(),
            e.0@ == old(self).targets@[p as int].0@,
        ensures
            final(self).targets@ == old(self).targets@.update(p as int, e),
            final(self).log_dir == old(self).log_dir,
    {
        proof {
            use_type_invariant(&*self);
        }
        let mut targets: Vec<(String, TargetConfig)> = Vec::new();
        std::mem::swap(&mut targets, &mut self.targets);
        targets.set(p, e);
        proof {
            assert forall|i: int, j: int|
                0 <= i < targets@.len() && 0 <= j < targets@.len() && i != j implies #[trigger] targets@[i].0@
                != #[trigger] targets@[j].0@ by {
                assert(old(self).targets@[i].0@ == targets@[i].0@);
                assert(old(self).targets@[j].0@ == targets@[j].0@);
            }
        }
        self.targets = targets;
    }

    fn push_entry(&mut self, e: (String, TargetConfig))
        requires
            forall|i: int| 0 <= i < old(self).targets@.len() ==> old(self).targets@[i].0@ != e.0@,
        ensures
            final(self).targets@ == old(self).targets@.push(e),
            final(self).log_dir == old(self).log_dir,
    {
        proof {
            use_type_invariant(&*self);
        }
        let mut targets: Vec<(String, TargetConfig)> = Vec::new();
        std::mem::swap(&mut targets, &mut self.targets);
        targets.push(e);
        proof {
            assert forall|i: int, j: int|
                0 <= i < targets@.len() && 0 <= j < targets@.len() && i != j implies #[trigger] targets@[i].0@
                != #[trigger] targets@[j].0@ by {
                if i < targets@.len() - 1 {
                    assert(old(self).targets@[i] == targets@[i]);
                }
                if j < targets@.len() - 1 {
                    assert(old(self).targets@[j] == targets@[j]);
                }
            }
        }
        self.targets = targets;
    }

    /// The configuration of the target named `target`, if there is one.
    pub fn get(&self, target: &str) -> (r: Option<&TargetConfig>)
        ensures
            match r {
                Some(t) => self@.targets.contains_key(target@) && t@ == self@.targets[target@],
                None => !self@.targets.contains_key(target@),
            },
    {
        proof {
            use_type_invariant(self);
            lemma_entries_map_unique(self.targets@);
        }
        match self.position(target) {
            Some(p) => Some(&self.targets[p].1),
            None => None,
        }
    }

    /// The names of all targets, each once, in no particular order.
    pub fn target_names(&self) -> (names: Vec<&String>)
        ensures
            forall|k: Seq<char>|
                self@.targets.contains_key(k) <==> exists|i: int|
                    0 <= i < names@.len() && (#[trigger] names@[i])@ == k,
            forall|i: int, j: int|
                0 <= i < names@.len() && 0 <= j < names@.len() && i != j ==> (#[trigger] names@[i])@
                    != (#[trigger] names@[j])@,
    {
        proof {
            use_type_invariant(self);
            lemma_entries_map_unique(self.targets@);
        }
        let mut names: Vec<&String> = Vec::new();
        let n = self.targets.len();
        for i in 0..n
            invariant
                n == self.targets@.len(),
                names@.len() == i,
                forall|j: int| 0 <= j < i ==> (#[trigger] names@[j])@ == self.targets@[j].0@,
        {
            names.push(&self.targets[i].0);
        }
        proof {
            assert forall|k: Seq<char>|
                self@.targets.contains_key(k) implies exists|i: int|
                    0 <= i < names@.len() && (#[trigger] names@[i])@ == k by {
                let i = choose|i: int| 0 <= i < self.targets@.len() && self.targets@[i].0@ == k;
                assert(names@[i]@ == k);
            }
            assert forall|k: Seq<char>|
                (exists|i: int| 0 <= i < names@.len() && (#[trigger] names@[i])@ == k) implies self@.targets.contains_key(k) by {
                let i = choose|i: int| 0 <= i < names@.len() && (#[trigger] names@[i])@ == k;
                assert(self.targets@[i].0@ == k);
            }
            assert forall|i: int, j: int|
                0 <= i < names@.len() && 0 <= j < names@.len() && i != j implies (#[trigger] names@[i])@
                != (#[trigger] names@[j])@ by {
                assert(names@[i]@ == self.targets@[i].0@);
                assert(names@[j]@ == self.targets@[j].0@);
            }
        }
        names
    }

    /// The log directory.
    pub fn log_dir(&self) -> (d: &str)
        ensures
            d@ == self@.log_dir,
    {
        self.log_dir.as_str()
    }
}

/// A lookup in a configuration loaded from `entries` finds the last entry
/// that carries the name.
pub proof fn law_last_entry_wins(entries: Seq<(String, TargetConfig)>, i: int)
    requires
        0 <= i < entries.len(),
        forall|j: int| i < j < entries.len() ==> entries[j].0@ != entries[i].0@,
    ensures
        entries_map(entries).contains_key(entries[i].0@),
        entries_map(entries)[entries[i].0@] == entries[i].1@,
    decreases entries.len(),
{
    if i < entries.len() - 1 {
        let init = entries.drop_last();
        assert forall|j: int| i < j < init.len() implies init[j].0@ != init[i].0@ by {
            assert(init[j] == entries[j]);
        }
        law_last_entry_wins(init, i);
        assert(entries[entries.len() - 1].0@ != entries[i].0@);
    }
}

/// A configuration loaded from `entries` knows a name exactly when some
/// entry carries it.
pub proof fn law_known_iff_listed(entries: Seq<(String, TargetConfig)>, name: Seq<char>)
    ensures
        entries_map(entries).contains_key(name) <==> exists|i: int|
            0 <= i < entries.len() && entries[i].0@ == name,
    decreases entries.len(),
{
    if entries.len() > 0 {
        let init = entries.drop_last();
        law_known_iff_listed(init, name);
        if entries_map(init).contains_key(name) {
            let i = choose|i: int| 0 <= i < init.len() && init[i].0@ == name;
            assert(entries[i] == init[i]);
        }
        if exists|i: int| 0 <= i < entries.len() && entries[i].0@ == name {
            let i = choose|i: int| 0 <= i < entries.len() && entries[i].0@ == name;
            if i < entries.len() - 1 {
                assert(init[i] == entries[i]);
            }
        }
    }
}

} // verus!
