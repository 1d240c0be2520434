//! The plugins of a run, registered by name.

use vstd::prelude::*;
use crate::model::TestHarnessError;
use crate::registry::Registry;

verus! {

/// Registered plugins by name.
pub struct PluginManager<T> {
    plugins: Registry<T>,
}

impl<T> View for PluginManager<T> {
    type V = Map<Seq<char>, T>;

    closed spec fn view(&self) -> Map<Seq<char>, T> {
        self.plugins@
    }
}

impl<T> PluginManager<T> {
    /// A manager with no plugins.
    pub fn new() -> (m: PluginManager<T>)
        ensures
            m@ == Map::<Seq<char>, T>::empty(),
    {
        PluginManager { plugins: Registry::new() }
    }

    /// Registers a plugin under a name no other plugin has; a taken name is
    /// a plugin error and leaves the manager unchanged.
    pub fn register_plugin(&mut self, name: String, plugin: T) -> (r: Result<(), TestHarnessError>)
        ensures
            old(self)@.contains_key(name@) ==> (r matches Err(TestHarnessError::PluginError(m)) && m@ == "Plugin with name '"@
                + name@ + "' already registered"@ && final(self)@ == old(self)@),
            !old(self)@.contains_key(name@) ==> (r is Ok && final(self)@ == old(self)@.insert(name@, plugin)),
    {
        if self.plugins.contains(name.as_str()) {
            let mut m = "Plugin with name '".to_owned();
            m.append(name.as_str());
            m.append("' already registered");
            Err(TestHarnessError::PluginError(m))
        } else {
            self.plugins.insert_new(name, plugin);
            Ok(())
        }
    }

    /// Removes the plugin of a name; an unknown name is a plugin error and
    /// leaves the manager unchanged.
    pub fn unregister_plugin(&mut self, name: &str) -> (r: Result<(), TestHarnessError>)
        ensures
            !old(self)@.contains_key(name@) ==> (r matches Err(TestHarnessError::PluginError(m)) && m@
                == "Plugin with name '"@ + name@ + "' not registered"@ && final(self)@ == old(self)@),
            old(self)@.contains_key(name@) ==> (r is Ok && final(self)@ == old(self)@.remove(name@)),
    {
        if self.plugins.contains(name) {
            self.plugins.remove(name);
            Ok(())
        } else {
            let mut m = "Plugin with name '".to_owned();
            m.append(name);
            m.append("' not registered");
            Err(TestHarnessError::PluginError(m))
        }
    }

    /// The plugin of a name, if registered.
    pub fn get_plugin(&self, name: &str) -> (r: Option<&T>)
        ensures
            match r {
                Some(p) => self@.contains_key(name@) && *p == self@[name@],
                None => !self@.contains_key(name@),
            },
    {
        self.plugins.get(name)
    }

    /// Every registered plugin, each once: the plugins of distinct names
    /// that are all the manager holds.
    pub fn get_all_plugins(&self) -> (r: Vec<&T>)
        ensures
            r.len() == self@.dom().len(),
            exists|names: Seq<Seq<char>>|
                #![trigger names.len()]
                names.len() == r.len() && (forall|i: int| 0 <= i < r.len() ==> self@.contains_key(#[trigger] names[i]) && self@[names[i]] == *r@[i])
                    && (forall|i: int, j: int| 0 <= i < j < r.len() ==> #[trigger] names[i] != #[trigger] names[j]),
    {
        let entries = self.plugins.entries();
        let mut r: Vec<&T> = Vec::new();
        let mut i: usize = 0;
        while i < entries.len()
            invariant
                i <= entries.len(),
                r.len() == i,
                forall|j: int| 0 <= j < i ==> *(#[trigger] r@[j]) == *entries@[j].1,
            decreases entries.len() - i,
        {
            r.push(entries[i].1);
            i += 1;
        }
        let ghost names = entries@.map_values(|e: (&String, &T)| e.0@);
        assert(names.len() == r.len() && (forall|a: int| 0 <= a < r.len() ==> self@.contains_key(#[trigger] names[a]) && self@[names[a]] == *r@[a]));
        assert(forall|a: int, b: int| 0 <= a < b < r.len() ==> #[trigger] names[a] != #[trigger] names[b]) by {
            assert forall|a: int, b: int| 0 <= a < b < r.len() implies #[trigger] names[a] != #[trigger] names[b] by {
                assert(entries@[a].0@ != entries@[b].0@);
            }
        }
        r
    }

    /// Number of registered plugins.
    pub fn len(&self) -> (n: usize)
        ensures
            n == self@.dom().len(),
    {
        self.plugins.len()
    }
}

} // verus!
