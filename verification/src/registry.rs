//! The registry of built-in components, by host and path.

use crate::component::{Component, ComponentModel};
use crate::template::texts;
use vstd::prelude::*;

verus! {

/// An error of a component runtime.
#[derive(Debug)]
pub enum PluginError {
    /// The runtime has no component at this address.
    UnknownComponent(Component),
}

/// The first position at or after `from` where `host` and `path` stand
/// together.
pub open spec fn find_key(
    hosts: Seq<Seq<char>>,
    paths: Seq<Seq<char>>,
    host: Seq<char>,
    path: Seq<char>,
    from: int,
) -> Option<int>
    decreases hosts.len() - from,
{
    if from < 0 || from >= hosts.len() || from >= paths.len() {
        None
    } else if hosts[from] == host && paths[from] == path {
        Some(from)
    } else {
        find_key(hosts, paths, host, path, from + 1)
    }
}

/// What `find_key` returns is the first position of the key, and `None`
/// means that the key does not occur.
pub proof fn lemma_find_key(
    hosts: Seq<Seq<char>>,
    paths: Seq<Seq<char>>,
    host: Seq<char>,
    path: Seq<char>,
    from: int,
)
    requires
        0 <= from,
        hosts.len() == paths.len(),
    ensures
        match find_key(hosts, paths, host, path, from) {
            Some(i) => from <= i < hosts.len() && hosts[i] == host && paths[i] == path,
            None => forall|j: int|
                from <= j < hosts.len() ==> !(hosts[j] == host && paths[j] == path),
        },
    decreases hosts.len() - from,
{
    if from < hosts.len() && !(hosts[from] == host && paths[from] == path) {
        lemma_find_key(hosts, paths, host, path, from + 1);
    }
}

/// The position of the component behind the address `component`: the one
/// registered under its host and path. An address without a host names
/// none.
pub open spec fn lookup(hosts: Seq<Seq<char>>, paths: Seq<Seq<char>>, component: ComponentModel) -> Option<
    int,
> {
    if component.host.len() == 0 {
        None
    } else {
        find_key(hosts, paths, component.host, component.path, 0)
    }
}

/// The protocol of the built-in components.
pub open spec fn builtin_protocol() -> Seq<char> {
    "builtins"@
}

/// Components by host and path.
pub struct Registry<C> {
    hosts: Vec<String>,
    paths: Vec<String>,
    components: Vec<C>,
}

impl<C> Registry<C> {
    /// The hosts of the registered components, in the order of registration.
    pub closed spec fn hosts(&self) -> Seq<Seq<char>> {
        texts(self.hosts@)
    }

    /// The paths of the registered components.
    pub closed spec fn paths(&self) -> Seq<Seq<char>> {
        texts(self.paths@)
    }

    /// The registered components.
    pub closed spec fn components(&self) -> Seq<C> {
        self.components@
    }

    /// Each entry has a host, a path and a component, and no two entries
    /// have the same host and path.
    pub open spec fn wf(&self) -> bool {
        &&& self.hosts().len() == self.paths().len()
        &&& self.hosts().len() == self.components().len()
        &&& forall|a: int, b: int|
            0 <= a < b < self.hosts().len() ==> !(self.hosts()[a] == self.hosts()[b]
                && self.paths()[a] == self.paths()[b])
    }

    /// A registry without components.
    pub fn new() -> (r: Self)
        ensures
            r.wf(),
            r.hosts().len() == 0,
    {
        Registry { hosts: Vec::new(), paths: Vec::new(), components: Vec::new() }
    }

    /// Registers `component` under `host` and `path`; it takes the place of
    /// a component registered there before.
    pub fn register(&mut self, host: &str, path: &str, component: C)
        requires
            old(self).wf(),
        ensures
            final(self).wf(),
            match find_key(old(self).hosts(), old(self).paths(), host@, path@, 0) {
                Some(i) => {
                    &&& final(self).hosts() == old(self).hosts()
                    &&& final(self).paths() == old(self).paths()
                    &&& final(self).components() == old(self).components().update(i, component)
                },
                None => {
                    &&& final(self).hosts() == old(self).hosts().push(host@)
                    &&& final(self).paths() == old(self).paths().push(path@)
                    &&& final(self).components() == old(self).components().push(component)
                },
            },
    {
        proof {
            lemma_find_key(self.hosts(), self.paths(), host@, path@, 0);
        }
        match self.position(host, path) {
            Some(i) => {
                self.components.set(i, component);
            },
            None => {
                let ghost hosts = self.hosts();
                let ghost paths = self.paths();
                self.hosts.push(host.to_owned());
                self.paths.push(path.to_owned());
                self.components.push(component);
                proof {
                    assert(self.hosts() =~= hosts.push(host@));
                    assert(self.paths() =~= paths.push(path@));
                    assert forall|a: int, b: int| 0 <= a < b < self.hosts().len() implies !(
                    self.hosts()[a] == self.hosts()[b] && self.paths()[a] == self.paths()[b]) by {
                        if b < hosts.len() {
                            assert(!(hosts[a] == hosts[b] && paths[a] == paths[b]));
                        }
                    }
                }
            },
        }
    }

    /// The position of the entry for `host` and `path`.
    fn position(&self, host: &str, path: &str) -> (r: Option<usize>)
        requires
            self.wf(),
        ensures
            match r {
                Some(i) => find_key(self.hosts(), self.paths(), host@, path@, 0) == Some(i as int),
                None => find_key(self.hosts(), self.paths(), host@, path@, 0).is_none(),
            },
    {
        let wanted_host = host.to_owned();
        let wanted_path = path.to_owned();
        let mut i: usize = 0;
        while i < self.hosts.len()
            invariant
                i <= self.hosts.len(),
                self.wf(),
                wanted_host@ == host@,
                wanted_path@ == path@,
                find_key(self.hosts(), self.paths(), host@, path@, 0) == find_key(
                    self.hosts(),
                    self.paths(),
                    host@,
                    path@,
                    i as int,
                ),
            decreases self.hosts.len() - i,
        {
            if self.hosts[i] == wanted_host && self.paths[i] == wanted_path {
                return Some(i);
            }
            i += 1;
        }
        None
    }
}

/// The component that `registry` holds for the address `component`.
pub fn get_component<'a, C>(registry: &'a Registry<C>, component: &Component) -> (r: Result<
    &'a C,
    PluginError,
>)
    requires
        registry.wf(),
    ensures
        match r {
            Ok(found) => match lookup(registry.hosts(), registry.paths(), component@) {
                Some(i) => 0 <= i < registry.components().len() && *found
                    == registry.components()[i],
                None => false,
            },
            Err(PluginError::UnknownComponent(c)) => c@ == component@ && lookup(
                registry.hosts(),
                registry.paths(),
                component@,
            ).is_none(),
        },
{
    proof {
        lemma_find_key(registry.hosts(), registry.paths(), component@.host, component@.path, 0);
    }
    let found = match component.host() {
        Some(host) => registry.position(host, component.path()),
        None => None,
    };
    match found {
        Some(i) => Ok(&registry.components[i]),
        None => Err(PluginError::UnknownComponent(component.clone())),
    }
}

/// The addresses of the components that `registry` holds, in the order of
/// registration: protocol `builtins`, then each entry's host and path.
pub fn list_components<C>(registry: &Registry<C>) -> (r: Vec<Component>)
    requires
        registry.wf(),
    ensures
        r.len() == registry.hosts().len(),
        forall|i: int|
            0 <= i < r.len() ==> (#[trigger] r[i])@ == (ComponentModel {
                protocol: builtin_protocol(),
                host: registry.hosts()[i],
                path: registry.paths()[i],
            }),
{
    let mut out: Vec<Component> = Vec::new();
    let mut i: usize = 0;
    while i < registry.hosts.len()
        invariant
            i <= registry.hosts.len(),
            registry.wf(),
            out.len() == i,
            forall|k: int|
                0 <= k < i ==> (#[trigger] out[k])@ == (ComponentModel {
                    protocol: builtin_protocol(),
                    host: registry.hosts()[k],
                    path: registry.paths()[k],
                }),
        decreases registry.hosts.len() - i,
    {
        out.push(
            Component::new("builtins", registry.hosts[i].as_str(), registry.paths[i].as_str()),
        );
        i += 1;
    }
    out
}

} // verus!
