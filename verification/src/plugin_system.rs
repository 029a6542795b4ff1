//! Plugins: their descriptions, the manager's settings, and the bookkeeping
//! of registered plugins (which exist, in which order they run, what each
//! depends on).
use vstd::prelude::*;

use crate::models::copy_strings;
use crate::text::{push_str, str_eq};

verus! {

/// Description of a plugin.
#[derive(Debug, Clone)]
pub struct PluginInfo {
    /// Unique identifier.
    pub id: String,
    /// Name shown to the user.
    pub name: String,
    pub version: String,
    pub description: String,
    pub author: String,
    pub enabled: bool,
    /// Identifiers of the plugins this one needs.
    pub dependencies: Vec<String>,
}

impl PluginInfo {
    /// Two descriptions hold the same data.
    pub open spec fn same_as(self, other: Self) -> bool {
        &&& self.id == other.id
        &&& self.name == other.name
        &&& self.version == other.version
        &&& self.description == other.description
        &&& self.author == other.author
        &&& self.enabled == other.enabled
        &&& self.dependencies@ == other.dependencies@
    }

    /// A duplicate of the description.
    pub fn duplicate(&self) -> (r: Self)
        ensures
            r.same_as(*self),
    {
        PluginInfo {
            id: self.id.clone(),
            name: self.name.clone(),
            version: self.version.clone(),
            description: self.description.clone(),
            author: self.author.clone(),
            enabled: self.enabled,
            dependencies: copy_strings(&self.dependencies),
        }
    }
}

/// Logging service handed to plugins.
pub trait PluginLogger {
    fn info(&self, plugin_id: &str, message: &str);

    fn warn(&self, plugin_id: &str, message: &str);

    fn error(&self, plugin_id: &str, message: &str);

    fn debug(&self, plugin_id: &str, message: &str);
}

/// What the manager does when a plugin fails.
#[derive(Debug, Clone, Copy, PartialEq, Eq, Structural)]
pub enum ErrorHandling {
    /// Ignore the error and go on.
    Continue,
    /// Stop processing.
    Stop,
    /// Log the error and go on.
    LogAndContinue,
}

/// Settings of the plugin manager.
#[derive(Debug, Clone, Copy, PartialEq, Eq, Structural)]
pub struct PluginManagerConfig {
    /// Time limit of one plugin call, in milliseconds.
    pub execution_timeout_ms: u64,
    pub allow_parallel_execution: bool,
    pub error_handling: ErrorHandling,
    pub debug_mode: bool,
}

impl PluginManagerConfig {
    /// The default settings: five seconds per call, parallel runs allowed,
    /// errors logged and passed over, no debug mode.
    pub open spec fn default_spec() -> PluginManagerConfig {
        PluginManagerConfig {
            execution_timeout_ms: 5000,
            allow_parallel_execution: true,
            error_handling: ErrorHandling::LogAndContinue,
            debug_mode: false,
        }
    }
}

impl Default for PluginManagerConfig {
    fn default() -> (c: Self)
        ensures
            c == PluginManagerConfig::default_spec(),
    {
        PluginManagerConfig {
            execution_timeout_ms: 5000,
            allow_parallel_execution: true,
            error_handling: ErrorHandling::LogAndContinue,
            debug_mode: false,
        }
    }
}

/// Why the plugin registry refused a request.
#[derive(Debug, Clone, PartialEq)]
pub enum RegistryError {
    /// A plugin needs another that is not registered.
    DependencyNotFound { dependency: String, required_by: String },
    /// No plugin has this identifier.
    PluginNotFound(String),
}

impl RegistryError {
    /// The text of the error.
    pub open spec fn text(self) -> Seq<char> {
        match self {
            RegistryError::DependencyNotFound { dependency, required_by } => "Dependency not found: "@
                + dependency@ + " (required by "@ + required_by@ + ")"@,
            RegistryError::PluginNotFound(id) => "Plugin not found: "@ + id@,
        }
    }

    /// The text of the error.
    pub fn message(&self) -> (m: String)
        ensures
            m@ == self.text(),
    {
        match self {
            RegistryError::DependencyNotFound { dependency, required_by } => {
                let mut m = String::from_str("Dependency not found: ");
                push_str(&mut m, dependency.as_str());
                push_str(&mut m, " (required by ");
                push_str(&mut m, required_by.as_str());
                push_str(&mut m, ")");
                m
            },
            RegistryError::PluginNotFound(id) => {
                let mut m = String::from_str("Plugin not found: ");
                push_str(&mut m, id.as_str());
                m
            },
        }
    }
}

/// What a plugin gives back when an event is sent to all plugins.
#[derive(Debug, Clone, Copy, PartialEq, Eq, Structural)]
pub enum DispatchOutcome {
    /// The plugin is registered and took the event.
    Success,
    /// No plugin is registered under the identifier.
    Skipped,
}

/// Position of the first description with identifier `id`.
pub open spec fn info_index(infos: Seq<PluginInfo>, id: Seq<char>) -> Option<int> {
    if exists|i: int| 0 <= i < infos.len() && #[trigger] infos[i].id@ == id {
        Some(choose|i: int| 0 <= i < infos.len() && #[trigger] infos[i].id@ == id)
    } else {
        None
    }
}

/// A plugin `id` is registered.
pub open spec fn is_registered(infos: Seq<PluginInfo>, id: Seq<char>) -> bool {
    info_index(infos, id) is Some
}

/// The identifiers of a list of strings.
pub open spec fn views(v: Seq<String>) -> Seq<Seq<char>> {
    v.map_values(|s: String| s@)
}

/// No two entries of `s` are equal.
pub open spec fn distinct(s: Seq<Seq<char>>) -> bool {
    forall|i: int, j: int| 0 <= i < j < s.len() ==> s[i] != s[j]
}

/// No two descriptions share an identifier.
pub open spec fn distinct_infos(infos: Seq<PluginInfo>) -> bool {
    forall|i: int, j: int| 0 <= i < j < infos.len() ==> (#[trigger] infos[i]).id@ != (
    #[trigger] infos[j]).id@
}

proof fn lemma_distinct_filter(s: Seq<Seq<char>>, p: spec_fn(Seq<char>) -> bool)
    requires
        distinct(s),
    ensures
        distinct(s.filter(p)),
    decreases s.len(),
{
    reveal(Seq::filter);
    if s.len() > 0 {
        let rest = s.drop_last();
        assert(distinct(rest)) by {
            assert forall|i: int, j: int| 0 <= i < j < rest.len() implies rest[i] != rest[j] by {
                assert(rest[i] == s[i] && rest[j] == s[j]);
            }
        }
        lemma_distinct_filter(rest, p);
        if p(s.last()) {
            let f = rest.filter(p);
            assert forall|i: int, j: int| 0 <= i < j < f.len() + 1 implies f.push(s.last())[i]
                != f.push(s.last())[j] by {
                if j == f.len() {
                    assert(f.contains(f[i]));
                    rest.lemma_filter_contains_rev(p, f[i]);
                    let k = choose|k: int| 0 <= k < rest.len() && rest[k] == f[i];
                    assert(s[k] == rest[k]);
                    assert(s[k] != s[s.len() - 1]);
                } else {
                    assert(f.push(s.last())[i] == f[i] && f.push(s.last())[j] == f[j]);
                }
            }
        }
    }
}

/// The bookkeeping of registered plugins: their descriptions, the order
/// in which events reach them, and what each depends on. Starting and
/// stopping the plugins themselves happens around it.
pub struct PluginRegistry {
    plugins: Vec<PluginInfo>,
    execution_order: Vec<String>,
    dependencies: Vec<(String, Vec<String>)>,
    config: PluginManagerConfig,
}

impl PluginRegistry {
    /// Descriptions of the registered plugins, in the order of registration.
    pub closed spec fn registered(&self) -> Seq<PluginInfo> {
        self.plugins@
    }

    /// Identifiers in the order events reach the plugins.
    pub closed spec fn order(&self) -> Seq<Seq<char>> {
        views(self.execution_order@)
    }

    /// Identifiers with a recorded list of dependencies.
    pub closed spec fn dependency_keys(&self) -> Seq<Seq<char>> {
        self.dependencies@.map_values(|e: (String, Vec<String>)| e.0@)
    }

    /// The manager's settings.
    pub closed spec fn settings(&self) -> PluginManagerConfig {
        self.config
    }

    /// Registered plugins have distinct identifiers, each in the execution
    /// order, which names each plugin once.
    pub closed spec fn wf(&self) -> bool {
        &&& distinct_infos(self.plugins@)
        &&& distinct(self.order())
        &&& forall|i: int| 0 <= i < self.plugins@.len() ==> self.order().contains(
            #[trigger] self.plugins@[i].id@,
        )
    }

    /// An empty registry with the default settings.
    pub fn new() -> (r: Self)
        ensures
            r.wf(),
            r.registered().len() == 0,
            r.order().len() == 0,
            r.dependency_keys().len() == 0,
            r.settings() == PluginManagerConfig::default_spec(),
    {
        let r = PluginRegistry {
            plugins: Vec::new(),
            execution_order: Vec::new(),
            dependencies: Vec::new(),
            config: PluginManagerConfig::default(),
        };
        assert(r.order() =~= Seq::<Seq<char>>::empty());
        assert(r.dependency_keys() =~= Seq::<Seq<char>>::empty());
        r
    }

    /// Whether a plugin `id` is registered, and where.
    fn find(&self, id: &str) -> (r: Option<usize>)
        requires
            distinct_infos(self.registered()),
        ensures
            r == match info_index(self.registered(), id@) {
                Some(i) => Some(i as usize),
                None => None,
            },
            r matches Some(i) ==> i < self.registered().len() && self.registered()[i as int].id@
                == id@,
    {
        let mut i: usize = 0;
        while i < self.plugins.len()
            invariant
                i <= self.plugins@.len(),
                distinct_infos(self.plugins@),
                forall|j: int| 0 <= j < i ==> (#[trigger] self.plugins@[j]).id@ != id@,
            decreases self.plugins.len() - i,
        {
            if str_eq(self.plugins[i].id.as_str(), id) {
                proof {
                    let c = choose|c: int| 0 <= c < self.plugins@.len() && #[trigger] self.plugins@[c].id@ == id@;
                    if c != i {
                        if c < i {
                            assert(self.plugins@[c].id@ != self.plugins@[i as int].id@);
                        } else {
                            assert(self.plugins@[i as int].id@ != self.plugins@[c].id@);
                        }
                    }
                }
                return Some(i);
            }
            i += 1;
        }
        None
    }

    /// Checks that every dependency of `info` is registered; the first
    /// missing one is reported.
    pub fn validate_dependencies(&self, info: &PluginInfo) -> (r: Result<(), RegistryError>)
        requires
            self.wf(),
        ensures
            r is Ok <==> forall|d: int| 0 <= d < info.dependencies@.len() ==> is_registered(
                self.registered(),
                #[trigger] info.dependencies@[d]@,
            ),
            r matches Err(e) ==> exists|d: int|
                0 <= d < info.dependencies@.len() && !is_registered(
                    self.registered(),
                    #[trigger] info.dependencies@[d]@,
                ) && (forall|k: int| 0 <= k < d ==> is_registered(
                    self.registered(),
                    #[trigger] info.dependencies@[k]@,
                )) && e == (RegistryError::DependencyNotFound {
                    dependency: info.dependencies@[d],
                    required_by: info.id,
                }),
    {
        let mut d: usize = 0;
        while d < info.dependencies.len()
            invariant
                d <= info.dependencies@.len(),
                self.wf(),
                forall|k: int| 0 <= k < d ==> is_registered(
                    self.registered(),
                    #[trigger] info.dependencies@[k]@,
                ),
            decreases info.dependencies.len() - d,
        {
            if self.find(info.dependencies[d].as_str()).is_none() {
                return Err(
                    RegistryError::DependencyNotFound {
                        dependency: info.dependencies[d].clone(),
                        required_by: info.id.clone(),
                    },
                );
            }
            d += 1;
        }
        Ok(())
    }

    /// Records a plugin that started: its description replaces one under the
    /// same identifier, it joins the end of the execution order unless it is
    /// already there, and its dependencies are recorded.
    pub fn record_registration(&mut self, info: PluginInfo)
        requires
            old(self).wf(),
        ensures
            final(self).wf(),
            ({
                let o = old(self).registered();
                let k = match info_index(o, info.id@) {
                    Some(p) => p,
                    None => o.len() as int,
                };
                &&& final(self).registered().len() == (if info_index(o, info.id@) is Some {
                    o.len()
                } else {
                    o.len() + 1
                })
                &&& final(self).registered()[k] == info
                &&& forall|j: int| 0 <= j < o.len() && j != k ==> final(self).registered()[j] == o[j]
            }),
            final(self).order() == (if old(self).order().contains(info.id@) {
                old(self).order()
            } else {
                old(self).order().push(info.id@)
            }),
            final(self).dependency_keys().contains(info.id@),
            final(self).settings() == old(self).settings(),
    {
        let id = info.id.clone();
        let deps = copy_strings(&info.dependencies);
        let ghost o = self.plugins@;
        let ghost ord = self.order();
        match self.find(id.as_str()) {
            Some(i) => {
                self.plugins.set(i, info);
            },
            None => {
                self.plugins.push(info);
            },
        }
        proof {
            assert forall|a: int, b: int| 0 <= a < b < self.plugins@.len() implies (
            #[trigger] self.plugins@[a]).id@ != (#[trigger] self.plugins@[b]).id@ by {
                if b == o.len() {
                    assert(o[a].id@ != id@);
                } else if a != b {
                    if self.plugins@[a].id@ == id@ || self.plugins@[b].id@ == id@ {
                    } else {
                        assert(o[a].id@ != o[b].id@);
                    }
                }
            }
        }
        let mut present = false;
        let mut j: usize = 0;
        while j < self.execution_order.len()
            invariant
                j <= self.execution_order@.len(),
                views(self.execution_order@) == ord,
                present == exists|k: int| 0 <= k < j && ord[k] == id@,
            decreases self.execution_order.len() - j,
        {
            assert(ord[j as int] == self.execution_order@[j as int]@);
            if str_eq(self.execution_order[j].as_str(), id.as_str()) {
                present = true;
            }
            j += 1;
        }
        if !present {
            self.execution_order.push(id.clone());
            assert(self.order() =~= ord.push(id@));
        }
        proof {
            assert(present == ord.contains(id@));
            assert forall|i: int| 0 <= i < self.plugins@.len() implies self.order().contains(
                #[trigger] self.plugins@[i].id@,
            ) by {
                if self.plugins@[i].id@ == id@ {
                    if !present {
                        assert(self.order()[ord.len() as int] == id@);
                    }
                } else {
                    assert(o.contains(self.plugins@[i]));
                    let k = choose|k: int| 0 <= k < o.len() && o[k] == self.plugins@[i];
                    assert(ord.contains(o[k].id@));
                    if !present {
                        let m = choose|m: int| 0 <= m < ord.len() && ord[m] == o[k].id@;
                        assert(self.order()[m] == ord[m]);
                    }
                }
            }
        }
        self.set_dependencies(id, deps);
    }

    /// Records the dependencies of plugin `id`, replacing earlier ones.
    fn set_dependencies(&mut self, id: String, deps: Vec<String>)
        ensures
            final(self).dependency_keys().contains(id@),
            final(self).plugins == old(self).plugins,
            final(self).execution_order == old(self).execution_order,
            final(self).config == old(self).config,
    {
        let mut j: usize = 0;
        while j < self.dependencies.len()
            invariant
                j <= self.dependencies@.len(),
                self.plugins == old(self).plugins,
                self.execution_order == old(self).execution_order,
                self.config == old(self).config,
            decreases self.dependencies.len() - j,
        {
            if str_eq(self.dependencies[j].0.as_str(), id.as_str()) {
                let ghost idv = id@;
                self.dependencies.set(j, (id, deps));
                assert(self.dependency_keys()[j as int] == idv);
                return;
            }
            j += 1;
        }
        let ghost idv = id@;
        self.dependencies.push((id, deps));
        assert(self.dependency_keys()[self.dependency_keys().len() - 1] == idv);
    }

    /// Takes the description of plugin `plugin_id` out of the registry, so
    /// that the plugin can be stopped; `PluginNotFound` when it is not
    /// registered.
    pub fn take_plugin(&mut self, plugin_id: &str) -> (r: Result<PluginInfo, RegistryError>)
        requires
            old(self).wf(),
        ensures
            final(self).wf(),
            match info_index(old(self).registered(), plugin_id@) {
                Some(p) => r == Ok::<PluginInfo, RegistryError>(old(self).registered()[p])
                    && final(self).registered() == old(self).registered().remove(p),
                None => r matches Err(e) && e.text() == "Plugin not found: "@ + plugin_id@
                    && final(self).registered() == old(self).registered(),
            },
            final(self).order() == old(self).order(),
            final(self).dependency_keys() == old(self).dependency_keys(),
    {
        match self.find(plugin_id) {
            Some(i) => {
                let ghost o = self.plugins@;
                let info = self.plugins.remove(i);
                proof {
                    assert forall|a: int, b: int| 0 <= a < b < self.plugins@.len() implies (
                    #[trigger] self.plugins@[a]).id@ != (#[trigger] self.plugins@[b]).id@ by {
                        let a0 = if a < i { a } else { a + 1 };
                        let b0 = if b < i { b } else { b + 1 };
                        assert(self.plugins@[a] == o[a0] && self.plugins@[b] == o[b0]);
                    }
                    assert forall|k: int| 0 <= k < self.plugins@.len() implies self.order().contains(
                        #[trigger] self.plugins@[k].id@,
                    ) by {
                        let k0 = if k < i { k } else { k + 1 };
                        assert(self.plugins@[k] == o[k0]);
                    }
                }
                Ok(info)
            },
            None => Err(RegistryError::PluginNotFound(String::from_str(plugin_id))),
        }
    }

    /// After plugin `plugin_id` stopped: it leaves the execution order and
    /// its dependencies are forgotten.
    pub fn forget_plugin(&mut self, plugin_id: &str)
        requires
            old(self).wf(),
            !is_registered(old(self).registered(), plugin_id@),
        ensures
            final(self).wf(),
            final(self).registered() == old(self).registered(),
            final(self).order() == old(self).order().filter(|s: Seq<char>| s != plugin_id@),
            !final(self).dependency_keys().contains(plugin_id@),
    {
        let ghost ord = self.order();
        let mut kept: Vec<String> = Vec::new();
        let mut j: usize = 0;
        while j < self.execution_order.len()
            invariant
                j <= self.execution_order@.len(),
                views(self.execution_order@) == ord,
                views(kept@) == ord.take(j as int).filter(|s: Seq<char>| s != plugin_id@),
            decreases self.execution_order.len() - j,
        {
            proof {
                assert(ord.take(j + 1) =~= ord.take(j as int).push(ord[j as int]));
                ord.take(j as int).lemma_filter_push(ord[j as int], |s: Seq<char>| s != plugin_id@);
            }
            if !str_eq(self.execution_order[j].as_str(), plugin_id) {
                let ghost before = kept@;
                kept.push(self.execution_order[j].clone());
                assert(views(kept@) =~= views(before).push(ord[j as int]));
            }
            j += 1;
        }
        assert(ord.take(ord.len() as int) =~= ord);
        self.execution_order = kept;
        let mut deps: Vec<(String, Vec<String>)> = Vec::new();
        let mut k: usize = 0;
        while k < self.dependencies.len()
            invariant
                k <= self.dependencies@.len(),
                forall|m: int| 0 <= m < deps@.len() ==> (#[trigger] deps@[m]).0@ != plugin_id@,
            decreases self.dependencies.len() - k,
        {
            if !str_eq(self.dependencies[k].0.as_str(), plugin_id) {
                deps.push((self.dependencies[k].0.clone(), self.dependencies[k].1.clone()));
            }
            k += 1;
        }
        self.dependencies = deps;
        proof {
            broadcast use Seq::lemma_filter_contains_rev, Seq::lemma_filter_contains;

            assert(!self.dependency_keys().contains(plugin_id@)) by {
                if self.dependency_keys().contains(plugin_id@) {
                    let m = choose|m: int| 0 <= m < self.dependency_keys().len() && self.dependency_keys()[m] == plugin_id@;
                    assert(self.dependencies@[m].0@ == plugin_id@);
                }
            }
            lemma_distinct_filter(ord, |s: Seq<char>| s != plugin_id@);
            assert forall|i: int| 0 <= i < self.plugins@.len() implies self.order().contains(
                #[trigger] self.plugins@[i].id@,
            ) by {
                let x = self.plugins@[i].id@;
                assert(ord.contains(x));
                let m = choose|m: int| 0 <= m < ord.len() && ord[m] == x;
                assert(x != plugin_id@);
                ord.lemma_filter_contains(|s: Seq<char>| s != plugin_id@, m);
            }
        }
    }

    /// What each plugin in the execution order gives back for an event:
    /// success for a registered plugin, skipped for an identifier with none.
    pub fn dispatch_outcomes(&self) -> (r: Vec<DispatchOutcome>)
        requires
            self.wf(),
        ensures
            r@.len() == self.order().len(),
            forall|i: int| 0 <= i < r@.len() ==> (#[trigger] r@[i]) == if is_registered(
                self.registered(),
                self.order()[i],
            ) {
                DispatchOutcome::Success
            } else {
                DispatchOutcome::Skipped
            },
    {
        let mut r: Vec<DispatchOutcome> = Vec::new();
        let mut i: usize = 0;
        while i < self.execution_order.len()
            invariant
                i <= self.execution_order@.len(),
                self.wf(),
                r@.len() == i,
                forall|k: int| 0 <= k < i ==> (#[trigger] r@[k]) == if is_registered(
                    self.registered(),
                    self.order()[k],
                ) {
                    DispatchOutcome::Success
                } else {
                    DispatchOutcome::Skipped
                },
            decreases self.execution_order.len() - i,
        {
            let found = self.find(self.execution_order[i].as_str());
            r.push(if found.is_some() { DispatchOutcome::Success } else { DispatchOutcome::Skipped });
            i += 1;
        }
        r
    }

    /// Descriptions of the registered plugins, in the order of registration.
    pub fn list_plugins(&self) -> (r: Vec<PluginInfo>)
        ensures
            r@.len() == self.registered().len(),
            forall|i: int| 0 <= i < r@.len() ==> (#[trigger] r@[i]).same_as(self.registered()[i]),
    {
        let mut r: Vec<PluginInfo> = Vec::new();
        let mut i: usize = 0;
        while i < self.plugins.len()
            invariant
                i <= self.plugins@.len(),
                r@.len() == i,
                forall|k: int| 0 <= k < i ==> (#[trigger] r@[k]).same_as(self.plugins@[k]),
            decreases self.plugins.len() - i,
        {
            r.push(self.plugins[i].duplicate());
            i += 1;
        }
        r
    }

    /// The manager's settings.
    pub fn config(&self) -> (c: PluginManagerConfig)
        ensures
            c == self.settings(),
    {
        self.config
    }
}

} // verus!
