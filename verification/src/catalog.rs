//! The plugin registry: the set of known descriptions keyed by name,
//! the set of running instances keyed by identity, and the rules for
//! discovery, reloading and startup. Identities are minted only when
//! a plugin starts, so re-discovering the same manifest over and over
//! never consumes identifier space.
use vstd::prelude::*;
use vstd::pervasive::VecAdditionalExecFns;

use crate::id::{Counter, PluginId};
use crate::manifest::{DescriptionView, ManifestError, PluginDescription};

verus! {

/// Why one plugin failed to start. A failed start is logged and
/// skipped; the other plugins still start.
pub enum SandboxError {
    /// The module at `exec_path` did not compile against the engine.
    Compile,
    /// The virtual I/O context or the environment could not be built.
    Environment,
    /// The module did not instantiate against the combined imports.
    Instantiate,
    /// The initialization handshake failed.
    Handshake,
}

/// The description map a sequence of loaded manifests builds: each
/// loaded description is keyed by its name, a later manifest with the
/// same name replaces the earlier entry, and a rejected manifest
/// contributes nothing.
pub open spec fn overlay(
    m: Map<Seq<char>, DescriptionView>,
    loaded: Seq<Result<PluginDescription, ManifestError>>,
) -> Map<Seq<char>, DescriptionView>
    decreases loaded.len(),
{
    if loaded.len() == 0 {
        m
    } else {
        match loaded[0] {
            Ok(d) => overlay(m.insert(d@.name, d@), loaded.drop_first()),
            Err(_) => overlay(m, loaded.drop_first()),
        }
    }
}

/// The names of the descriptions a load would insert.
pub open spec fn ok_names(loaded: Seq<Result<PluginDescription, ManifestError>>) -> Set<Seq<char>>
    decreases loaded.len(),
{
    if loaded.len() == 0 {
        Set::empty()
    } else {
        match loaded[0] {
            Ok(d) => ok_names(loaded.drop_first()).insert(d@.name),
            Err(_) => ok_names(loaded.drop_first()),
        }
    }
}

/// The description map a list of descriptions denotes, later entries
/// replacing earlier ones of the same name.
pub open spec fn map_of(s: Seq<PluginDescription>) -> Map<Seq<char>, DescriptionView>
    decreases s.len(),
{
    if s.len() == 0 {
        Map::empty()
    } else {
        map_of(s.drop_last()).insert(s.last()@.name, s.last()@)
    }
}

/// The registry entries startup appends for a list of start
/// outcomes, minting one fresh identity per started plugin.
pub open spec fn started_entries(counter: usize, outcomes: Seq<Result<String, SandboxError>>) -> Seq<
    (usize, Seq<char>),
>
    decreases outcomes.len(),
{
    if outcomes.len() == 0 {
        Seq::empty()
    } else {
        match outcomes[0] {
            Ok(name) => seq![((counter + 1) as usize, name@)] + started_entries(
                (counter + 1) as usize,
                outcomes.drop_first(),
            ),
            Err(_) => started_entries(counter, outcomes.drop_first()),
        }
    }
}

/// How many outcomes in the list are successes.
pub open spec fn ok_count(outcomes: Seq<Result<String, SandboxError>>) -> int
    decreases outcomes.len(),
{
    if outcomes.len() == 0 {
        0int
    } else {
        (if outcomes[0] is Ok {
            1int
        } else {
            0int
        }) + ok_count(outcomes.drop_first())
    }
}

/// The plugin registry.
pub struct PluginCatalog {
    id_counter: Counter,
    items: Vec<PluginDescription>,
    plugins: Vec<(PluginId, String)>,
}

impl PluginCatalog {
    /// The known descriptions, keyed by name.
    pub closed spec fn descriptions(self) -> Map<Seq<char>, DescriptionView> {
        map_of(self.items@)
    }

    /// The running instances: each started plugin's identity and
    /// name, in start order.
    pub closed spec fn running(self) -> Seq<(usize, Seq<char>)> {
        self.plugins@.map_values(|p: (PluginId, String)| (p.0.0, p.1@))
    }

    /// How many identities have been minted so far.
    pub closed spec fn counter(self) -> usize {
        self.id_counter.count()
    }

    /// The registry's invariant: description names are distinct, and
    /// the running instances carry distinct, strictly increasing
    /// identities no larger than the counter.
    pub closed spec fn wf(self) -> bool {
        &&& forall|i: int, j: int|
            0 <= i < j < self.items@.len() ==> self.items@[i]@.name != self.items@[j]@.name
        &&& forall|i: int, j: int|
            0 <= i < j < self.plugins@.len() ==> self.plugins@[i].0.0 < self.plugins@[j].0.0
        &&& forall|i: int|
            0 <= i < self.plugins@.len() ==> #[trigger] self.plugins@[i].0.0
                <= self.id_counter.count()
    }

    /// An empty catalog: no descriptions, nothing running, no
    /// identity minted yet.
    pub fn new() -> (r: PluginCatalog)
        ensures
            r.wf(),
            r.descriptions() == Map::<Seq<char>, DescriptionView>::empty(),
            r.running() == Seq::<(usize, Seq<char>)>::empty(),
            r.counter() == 0,
    {
        let r = PluginCatalog { id_counter: Counter::new(), items: Vec::new(), plugins: Vec::new() };
        proof {
            assert(r.running() =~= Seq::<(usize, Seq<char>)>::empty());
        }
        r
    }

    /// Mints a fresh, previously unused identity.
    pub fn next_plugin_id(&mut self) -> (r: PluginId)
        requires
            old(self).wf(),
            old(self).counter() < usize::MAX,
        ensures
            final(self).wf(),
            r.0 == old(self).counter() + 1,
            final(self).counter() == r.0,
            final(self).descriptions() == old(self).descriptions(),
            final(self).running() == old(self).running(),
    {
        PluginId(self.id_counter.next())
    }

    /// Inserts one loaded description, replacing a description of the
    /// same name if one is already known.
    fn insert_item(&mut self, d: PluginDescription)
        requires
            old(self).wf(),
        ensures
            final(self).wf(),
            final(self).descriptions() == old(self).descriptions().insert(d@.name, d@),
            final(self).running() == old(self).running(),
            final(self).counter() == old(self).counter(),
    {
        let n = self.items.len();
        let mut i: usize = 0;
        while i < n
            invariant
                0 <= i <= n,
                n == self.items@.len(),
                forall|k: int| 0 <= k < i ==> self.items@[k]@.name != d@.name,
                *self == *old(self),
                self.wf(),
            decreases n - i,
        {
            if self.items[i].name == d.name {
                let ghost s = self.items@;
                proof {
                    lemma_map_of_update(s, i as int, d);
                }
                self.items.set(i, d);
                proof {
                    assert forall|p: int, q: int|
                        0 <= p < q < self.items@.len() implies self.items@[p]@.name
                        != self.items@[q]@.name by {
                        assert(s[p]@.name != s[q]@.name);
                        if p != i {
                            assert(self.items@[p] == s[p]);
                        }
                        if q != i {
                            assert(self.items@[q] == s[q]);
                        }
                    }
                }
                return ;
            }
            i = i + 1;
        }
        proof {
            assert(self.items@.push(d).drop_last() =~= self.items@);
        }
        self.items.push(d);
    }

    /// Takes the outcome of loading every discovered manifest and
    /// inserts each loaded description under its name, a later
    /// manifest replacing an earlier one of the same name. A rejected
    /// manifest contributes nothing and blocks nothing. Safe to call
    /// repeatedly. Running instances and the identity counter are
    /// untouched.
    pub fn load(&mut self, loaded: Vec<Result<PluginDescription, ManifestError>>)
        requires
            old(self).wf(),
        ensures
            final(self).wf(),
            final(self).descriptions() == overlay(old(self).descriptions(), loaded@),
            final(self).running() == old(self).running(),
            final(self).counter() == old(self).counter(),
    {
        let mut remaining = loaded;
        while remaining.len() > 0
            invariant
                self.wf(),
                overlay(old(self).descriptions(), loaded@) == overlay(
                    self.descriptions(),
                    remaining@,
                ),
                self.running() == old(self).running(),
                self.counter() == old(self).counter(),
            decreases remaining@.len(),
        {
            let ghost before = remaining@;
            let entry = remaining.remove(0);
            proof {
                assert(remaining@ =~= before.drop_first());
            }
            match entry {
                Ok(d) => self.insert_item(d),
                Err(_) => {},
            }
        }
    }

    /// Clears every description and drops every running instance,
    /// then loads the freshly discovered manifests. Identities are
    /// not reused: the counter keeps its value across a reload.
    pub fn reload(&mut self, loaded: Vec<Result<PluginDescription, ManifestError>>)
        requires
            old(self).wf(),
        ensures
            final(self).wf(),
            final(self).descriptions() == overlay(
                Map::<Seq<char>, DescriptionView>::empty(),
                loaded@,
            ),
            final(self).running() == Seq::<(usize, Seq<char>)>::empty(),
            final(self).counter() == old(self).counter(),
    {
        self.items.clear();
        self.plugins.clear();
        proof {
            assert(self.running() =~= Seq::<(usize, Seq<char>)>::empty());
        }
        self.load(loaded);
    }

    /// Records the outcome of attempting to start every current
    /// description, in attempt order: each started plugin is entered
    /// into the registry under a freshly minted identity, and a
    /// failed start is skipped without blocking the rest.
    pub fn start_all(&mut self, outcomes: Vec<Result<String, SandboxError>>)
        requires
            old(self).wf(),
            old(self).counter() + outcomes@.len() <= usize::MAX,
        ensures
            final(self).wf(),
            final(self).running() == old(self).running() + started_entries(
                old(self).counter(),
                outcomes@,
            ),
            final(self).counter() == old(self).counter() + ok_count(outcomes@),
            final(self).descriptions() == old(self).descriptions(),
    {
        let mut remaining = outcomes;
        while remaining.len() > 0
            invariant
                self.wf(),
                self.counter() + remaining@.len() <= usize::MAX,
                old(self).running() + started_entries(old(self).counter(), outcomes@)
                    == self.running() + started_entries(self.counter(), remaining@),
                old(self).counter() + ok_count(outcomes@) == self.counter() + ok_count(remaining@),
                self.descriptions() == old(self).descriptions(),
            decreases remaining@.len(),
        {
            let ghost before = remaining@;
            let ghost c = self.counter();
            let entry = remaining.remove(0);
            proof {
                assert(remaining@ =~= before.drop_first());
            }
            match entry {
                Ok(name) => {
                    let ghost nm = name@;
                    let id = PluginId(self.id_counter.next());
                    let ghost prev = self.plugins@;
                    self.plugins.push((id, name));
                    proof {
                        assert(self.plugins@.drop_last() =~= prev);
                        assert forall|x: int, y: int|
                            0 <= x < y < self.plugins@.len() implies self.plugins@[x].0.0
                            < self.plugins@[y].0.0 by {
                            if x < self.plugins@.len() - 1 {
                                assert(self.plugins@[x] == prev[x]);
                            }
                            if y < self.plugins@.len() - 1 {
                                assert(self.plugins@[y] == prev[y]);
                            }
                        }
                        assert forall|x: int|
                            0 <= x < self.plugins@.len() implies #[trigger] self.plugins@[x].0.0
                            <= self.id_counter.count() by {
                            if x < self.plugins@.len() - 1 {
                                assert(self.plugins@[x] == prev[x]);
                            }
                        }
                        assert(self.running() =~= prev.map_values(
                            |p: (PluginId, String)| (p.0.0, p.1@),
                        ).push(((c + 1) as usize, nm)));
                        assert(before[0] is Ok);
                        assert(old(self).running() + started_entries(old(self).counter(), outcomes@)
                            =~= self.running() + started_entries(self.counter(), remaining@));
                    }
                },
                Err(_) => {},
            }
        }
        proof {
            assert(started_entries(self.counter(), remaining@) =~= Seq::<(usize, Seq<char>)>::empty());
            assert(self.running() =~= old(self).running() + started_entries(
                old(self).counter(),
                outcomes@,
            ));
        }
    }

    /// The current descriptions as a list; its name-keyed reading is
    /// exactly `descriptions()`.
    pub fn items(&self) -> (r: &Vec<PluginDescription>)
        ensures
            map_of(r@) == self.descriptions(),
    {
        &self.items
    }

    /// The running instances as a list of identity and name, in
    /// start order.
    pub fn plugins(&self) -> (r: &Vec<(PluginId, String)>)
        ensures
            r@.len() == self.running().len(),
            forall|i: int|
                0 <= i < r@.len() ==> #[trigger] self.running()[i] == (r@[i].0.0, r@[i].1@),
    {
        &self.plugins
    }
}

/// Replacing the one list entry that carries a name with a new
/// description of the same name reads, name-keyed, as inserting that
/// description.
proof fn lemma_map_of_update(s: Seq<PluginDescription>, i: int, d: PluginDescription)
    requires
        0 <= i < s.len(),
        s[i]@.name == d@.name,
        forall|p: int, q: int| 0 <= p < q < s.len() ==> s[p]@.name != s[q]@.name,
    ensures
        map_of(s.update(i, d)) == map_of(s).insert(d@.name, d@),
    decreases s.len(),
{
    let t = s.update(i, d);
    if i == s.len() - 1 {
        assert(t.drop_last() =~= s.drop_last());
        assert(map_of(t) =~= map_of(s).insert(d@.name, d@));
    } else {
        assert(t.drop_last() =~= s.drop_last().update(i, d));
        lemma_map_of_update(s.drop_last(), i, d);
        assert(s.last()@.name != d@.name);
        assert(map_of(t) =~= map_of(s).insert(d@.name, d@));
    }
}

/// A load touches no key outside the names it inserts.
pub proof fn lemma_overlay_frame(
    m: Map<Seq<char>, DescriptionView>,
    loaded: Seq<Result<PluginDescription, ManifestError>>,
    k: Seq<char>,
)
    requires
        !ok_names(loaded).contains(k),
    ensures
        overlay(m, loaded).contains_key(k) == m.contains_key(k),
        m.contains_key(k) ==> overlay(m, loaded)[k] == m[k],
    decreases loaded.len(),
{
    if loaded.len() > 0 {
        match loaded[0] {
            Ok(d) => lemma_overlay_frame(m.insert(d@.name, d@), loaded.drop_first(), k),
            Err(_) => lemma_overlay_frame(m, loaded.drop_first(), k),
        }
    }
}

/// Whether two description maps agree on every key outside `s`: the
/// same keys are present, with the same descriptions.
pub open spec fn agree_outside(
    m1: Map<Seq<char>, DescriptionView>,
    m2: Map<Seq<char>, DescriptionView>,
    s: Set<Seq<char>>,
) -> bool {
    forall|k: Seq<char>|
        !s.contains(k) ==> (#[trigger] m1.contains_key(k) == m2.contains_key(k) && (
        m1.contains_key(k) ==> m1[k] == m2[k]))
}

/// Two starting maps that agree outside the loaded names are loaded
/// to the same map.
proof fn lemma_overlay_agree(
    m1: Map<Seq<char>, DescriptionView>,
    m2: Map<Seq<char>, DescriptionView>,
    loaded: Seq<Result<PluginDescription, ManifestError>>,
)
    requires
        agree_outside(m1, m2, ok_names(loaded)),
    ensures
        overlay(m1, loaded) == overlay(m2, loaded),
    decreases loaded.len(),
{
    if loaded.len() == 0 {
        assert forall|k: Seq<char>| m1.contains_key(k) implies m2.contains_key(k) && m1[k]
            == m2[k] by {
            assert(!ok_names(loaded).contains(k));
            assert(m1.contains_key(k) == m2.contains_key(k));
        }
        assert forall|k: Seq<char>| m2.contains_key(k) implies m1.contains_key(k) by {
            assert(!ok_names(loaded).contains(k));
            assert(m1.contains_key(k) == m2.contains_key(k));
        }
        assert(m1 =~= m2);
    } else {
        match loaded[0] {
            Ok(d) => {
                let m1i = m1.insert(d@.name, d@);
                let m2i = m2.insert(d@.name, d@);
                assert forall|k: Seq<char>|
                    !ok_names(loaded.drop_first()).contains(k) implies (#[trigger] m1i.contains_key(
                    k,
                ) == m2i.contains_key(k) && (m1i.contains_key(k) ==> m1i[k] == m2i[k])) by {
                    if k != d@.name {
                        assert(!ok_names(loaded).contains(k));
                        assert(m1.contains_key(k) == m2.contains_key(k));
                    }
                }
                lemma_overlay_agree(m1i, m2i, loaded.drop_first());
            },
            Err(_) => {
                assert forall|k: Seq<char>|
                    !ok_names(loaded.drop_first()).contains(k) implies (#[trigger] m1.contains_key(
                    k,
                ) == m2.contains_key(k) && (m1.contains_key(k) ==> m1[k] == m2[k])) by {
                    assert(!ok_names(loaded).contains(k));
                    assert(m1.contains_key(k) == m2.contains_key(k));
                }
                lemma_overlay_agree(m1, m2, loaded.drop_first());
            },
        }
    }
}

/// Loading the same discovered manifests a second time changes
/// nothing: after a reload, a further load of an unchanged plugin
/// directory leaves the description map as it was.
pub proof fn lemma_load_idempotent(
    m: Map<Seq<char>, DescriptionView>,
    loaded: Seq<Result<PluginDescription, ManifestError>>,
)
    ensures
        overlay(overlay(m, loaded), loaded) == overlay(m, loaded),
{
    let u = overlay(m, loaded);
    assert forall|k: Seq<char>|
        !ok_names(loaded).contains(k) implies (#[trigger] u.contains_key(k) == m.contains_key(k)
        && (u.contains_key(k) ==> u[k] == m[k])) by {
        lemma_overlay_frame(m, loaded, k);
    }
    lemma_overlay_agree(u, m, loaded);
}

/// Identities minted at startup are distinct and strictly
/// increasing, and every one is fresh: larger than the counter value
/// the startup began with.
pub proof fn lemma_started_ids_fresh(counter: usize, outcomes: Seq<Result<String, SandboxError>>)
    requires
        counter + outcomes.len() <= usize::MAX,
    ensures
        forall|i: int|
            0 <= i < started_entries(counter, outcomes).len() ==> counter < #[trigger] started_entries(
                counter,
                outcomes,
            )[i].0,
        forall|i: int, j: int|
            0 <= i < j < started_entries(counter, outcomes).len() ==> started_entries(
                counter,
                outcomes,
            )[i].0 < started_entries(counter, outcomes)[j].0,
    decreases outcomes.len(),
{
    if outcomes.len() > 0 {
        let s = started_entries(counter, outcomes);
        match outcomes[0] {
            Ok(_) => {
                let r = started_entries((counter + 1) as usize, outcomes.drop_first());
                lemma_started_ids_fresh((counter + 1) as usize, outcomes.drop_first());
                assert forall|i: int| 0 <= i < s.len() implies counter < #[trigger] s[i].0 by {
                    if i > 0 {
                        assert(s[i] == r[i - 1]);
                    }
                }
                assert forall|i: int, j: int| 0 <= i < j < s.len() implies s[i].0 < s[j].0 by {
                    assert(s[j] == r[j - 1]);
                    if i > 0 {
                        assert(s[i] == r[i - 1]);
                    }
                }
            },
            Err(_) => {
                let r = started_entries(counter, outcomes.drop_first());
                lemma_started_ids_fresh(counter, outcomes.drop_first());
                assert forall|i: int| 0 <= i < s.len() implies counter < #[trigger] s[i].0 by {
                    assert(s[i] == r[i]);
                }
                assert forall|i: int, j: int| 0 <= i < j < s.len() implies s[i].0 < s[j].0 by {
                    assert(s[i] == r[i] && s[j] == r[j]);
                }
            },
        }
    }
}

/// What a load of a fresh catalog knows: exactly the loaded names,
/// one description per loaded manifest, none for a rejected one.
pub proof fn lemma_overlay_domain(
    m: Map<Seq<char>, DescriptionView>,
    loaded: Seq<Result<PluginDescription, ManifestError>>,
)
    ensures
        overlay(m, loaded).dom() =~= m.dom() + ok_names(loaded),
    decreases loaded.len(),
{
    if loaded.len() == 0 {
    } else {
        match loaded[0] {
            Ok(d) => {
                lemma_overlay_domain(m.insert(d@.name, d@), loaded.drop_first());
                assert(overlay(m, loaded).dom() =~= m.dom() + ok_names(loaded));
            },
            Err(_) => {
                lemma_overlay_domain(m, loaded.drop_first());
                assert(overlay(m, loaded).dom() =~= m.dom() + ok_names(loaded));
            },
        }
    }
}

} // verus!
