//! The configuration data the resolver consumes: named project shortcuts
//! and the vendor table. Loading, merging and persisting configuration
//! files is a collaborator's job; the library works on the loaded values.

use vstd::prelude::*;
use crate::actions::Action;
use crate::swap::Swap;
use crate::txt;

verus! {

/// A vendor override or custom prefix: a vendor kind and its base domain.
#[derive(Debug, Clone)]
pub struct CustomVendor {
    pub kind: String,
    pub base: String,
}

/// The vendor table: an optional replacement for the default vendor, and
/// named custom prefixes.
#[derive(Debug, Clone)]
pub struct VendorsConfig {
    pub vendors_default: Option<CustomVendor>,
    pub custom: Vec<(String, CustomVendor)>,
}

/// A configured project shortcut.
#[derive(Debug, Clone)]
pub struct Project {
    pub shortlink: String,
    pub is_git: Option<bool>,
    pub description: Option<String>,
    pub actions: Option<Vec<Action>>,
    pub swaps: Option<Vec<Swap>>,
    pub use_camp: Option<bool>,
}

/// The actions and swaps a project sets up around a deploy.
#[derive(Debug, Clone)]
pub struct ProjectSetupActions {
    pub actions: Option<Vec<Action>>,
    pub swaps: Option<Vec<Swap>>,
    pub use_camp: Option<bool>,
}

/// The loaded configuration: projects by name, and the vendor table.
#[derive(Debug, Clone)]
pub struct Config {
    pub projects: Vec<(String, Project)>,
    pub vendors: Option<VendorsConfig>,
}

/// First entry of a keyed list whose key is the given name.
pub open spec fn spec_keyed_find<T>(entries: Seq<(String, T)>, name: Seq<char>) -> Option<int>
    decreases entries.len(),
{
    if entries.len() == 0 {
        None
    } else if entries[0].0@ == name {
        Some(0)
    } else {
        match spec_keyed_find(entries.skip(1), name) {
            Some(i) => Some(i + 1),
            None => None,
        }
    }
}

pub proof fn lemma_keyed_find_in_range<T>(entries: Seq<(String, T)>, name: Seq<char>)
    requires
        spec_keyed_find(entries, name) is Some,
    ensures
        0 <= spec_keyed_find(entries, name)->Some_0 < entries.len(),
        entries[spec_keyed_find(entries, name)->Some_0].0@ == name,
    decreases entries.len(),
{
    if entries.len() > 0 && entries[0].0@ != name {
        lemma_keyed_find_in_range(entries.skip(1), name);
    }
}

impl Config {
    /// An empty configuration: no projects, no vendor overrides.
    pub fn new() -> (r: Config)
        ensures
            r.projects@.len() == 0,
            r.vendors is None,
    {
        Config { projects: Vec::new(), vendors: None }
    }

    /// The configured project under this shortcut name, if any.
    pub fn project(&self, shortlink: &String) -> (r: Option<&Project>)
        ensures
            match spec_keyed_find(self.projects@, shortlink@) {
                Some(i) => r matches Some(p) && *p == self.projects@[i].1,
                None => r is None,
            },
    {
        keyed_get(&self.projects, shortlink)
    }
}

/// First value stored under a name in a keyed list.
pub fn keyed_get<'a, T>(entries: &'a Vec<(String, T)>, name: &String) -> (r: Option<&'a T>)
    ensures
        match spec_keyed_find(entries@, name@) {
            Some(i) => r matches Some(p) && *p == entries@[i].1,
            None => r is None,
        },
    decreases entries@.len(),
{
    let mut j: usize = 0;
    proof {
        assert(entries@.skip(0) =~= entries@);
    }
    while j < entries.len()
        invariant
            j <= entries@.len(),
            match spec_keyed_find(entries@.skip(j as int), name@) {
                Some(i) => spec_keyed_find(entries@, name@) == Some(i + j),
                None => spec_keyed_find(entries@, name@) is None,
            },
        decreases entries@.len() - j,
    {
        proof {
            assert(entries@.skip(j as int)[0] == entries@[j as int]);
            assert(entries@.skip(j as int).skip(1) =~= entries@.skip(j + 1));
        }
        if txt::str_equal(entries[j].0.as_str(), name.as_str()) {
            proof {
                lemma_keyed_find_in_range(entries@, name@);
            }
            return Some(&entries[j].1);
        }
        j = j + 1;
    }
    proof {
        assert(entries@.skip(entries@.len() as int) =~= Seq::<(String, T)>::empty());
    }
    None
}

} // verus!
