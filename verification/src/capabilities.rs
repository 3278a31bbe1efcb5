//! Declared platform capabilities: honest about unsupported features.

use vstd::prelude::*;

use crate::text::{str_eq, views};

verus! {

/// How far a platform supports a tunable feature.
#[derive(Debug, Clone, Copy, PartialEq, Eq, Structural)]
pub enum FeatureSupport {
    Supported,
    Partial,
    Unsupported,
    RequiresPrivilege,
}

impl FeatureSupport {
    pub open spec fn name(self) -> Seq<char> {
        match self {
            FeatureSupport::Supported => "supported"@,
            FeatureSupport::Partial => "partial"@,
            FeatureSupport::Unsupported => "unsupported"@,
            FeatureSupport::RequiresPrivilege => "requires_privilege"@,
        }
    }

    /// Supported and partially supported features may be used.
    pub open spec fn usable(self) -> bool {
        self is Supported || self is Partial
    }

    pub fn as_str(self) -> (s: &'static str)
        ensures
            s@ == self.name(),
    {
        match self {
            FeatureSupport::Supported => "supported",
            FeatureSupport::Partial => "partial",
            FeatureSupport::Unsupported => "unsupported",
            FeatureSupport::RequiresPrivilege => "requires_privilege",
        }
    }

    pub fn is_usable(self) -> (b: bool)
        ensures
            b == self.usable(),
    {
        match self {
            FeatureSupport::Supported | FeatureSupport::Partial => true,
            _ => false,
        }
    }
}

/// One declared capability.
#[derive(Debug, Clone)]
pub struct Capability {
    pub id: String,
    pub name: String,
    pub support: FeatureSupport,
    pub notes: String,
}

/// The capabilities a platform declares.
#[derive(Debug, Clone)]
pub struct Capabilities {
    pub features: Vec<Capability>,
}

/// Position of the first capability with the given id.
pub open spec fn first_with_id(f: Seq<Capability>, id: Seq<char>) -> Option<int>
    decreases f.len(),
{
    if f.len() == 0 {
        None
    } else {
        match first_with_id(f.drop_last(), id) {
            Some(i) => Some(i),
            None => if f.last().id@ == id {
                Some(f.len() - 1)
            } else {
                None
            },
        }
    }
}

/// The capabilities of the safe platform: (id, name, support, notes).
pub open spec fn milestone1_table() -> Seq<(Seq<char>, Seq<char>, FeatureSupport, Seq<char>)> {
    seq![
        ("bench.worker_threads"@, "Benchmark worker thread count"@, FeatureSupport::Supported, "Process-scoped; affects KraftBench parallel workloads only."@),
        ("bench.rayon_threads"@, "Rayon thread-pool size"@, FeatureSupport::Supported, "Process-scoped rayon pool for parallel benches."@),
        ("process.priority"@, "Process scheduling priority"@, FeatureSupport::Partial, "Best-effort; may require privileges on some platforms; always rolled back."@),
        ("process.affinity"@, "CPU affinity mask"@, FeatureSupport::Partial, "Safe subset only; restricted to currently online CPUs."@),
        ("gpu.clock"@, "GPU clock control"@, FeatureSupport::Unsupported, "Not implemented in Milestone 1."@),
        ("power.scheme"@, "OS power scheme / plan"@, FeatureSupport::RequiresPrivilege, "Requires kraftverk agent serve (elevated on Windows for powercfg / root on Linux for cpufreq)."@),
        ("storage.trim"@, "Storage TRIM / optimize"@, FeatureSupport::Unsupported, "Out of scope; Kraftverk is not a disk cleaner."@),
        ("registry.tweaks"@, "Windows registry performance tweaks"@, FeatureSupport::Unsupported, "Placebo-prone; not in Milestone 1."@),
    ]
}

/// Parameter keys that the safe search may explore.
pub open spec fn is_safe_param_key(id: Seq<char>) -> bool {
    ||| id == "bench.worker_threads"@
    ||| id == "bench.rayon_threads"@
    ||| id == "process.priority"@
    ||| id == "process.affinity"@
}

/// Ids of the usable capabilities among the safe parameter keys, in order.
pub open spec fn safe_keys(f: Seq<Capability>) -> Seq<Seq<char>>
    decreases f.len(),
{
    if f.len() == 0 {
        Seq::empty()
    } else if f.last().support.usable() && is_safe_param_key(f.last().id@) {
        safe_keys(f.drop_last()).push(f.last().id@)
    } else {
        safe_keys(f.drop_last())
    }
}

impl Capabilities {
    /// The first capability with the given id.
    pub fn get(&self, id: &str) -> (r: Option<&Capability>)
        ensures
            first_with_id(self.features@, id@) matches Some(i) ==> r == Some(&self.features@[i]),
            first_with_id(self.features@, id@) is None ==> r is None,
    {
        let n = self.features.len();
        for i in 0..n
            invariant
                n == self.features@.len(),
                first_with_id(self.features@.take(i as int), id@) is None,
        {
            proof {
                let t = self.features@.take(i + 1);
                assert(t.drop_last() =~= self.features@.take(i as int));
            }
            if str_eq(self.features[i].id.as_str(), id) {
                proof {
                    lemma_first_with_id_prefix(self.features@, id@, i + 1, i as int);
                }
                return Some(&self.features[i]);
            }
        }
        assert(self.features@.take(n as int) =~= self.features@);
        None
    }

    /// The capability exists and is usable.
    pub fn is_supported(&self, id: &str) -> (b: bool)
        ensures
            b == (match first_with_id(self.features@, id@) {
                Some(i) => self.features@[i].support.usable(),
                None => false,
            }),
    {
        match self.get(id) {
            Some(c) => c.support.is_usable(),
            None => false,
        }
    }

    /// The safe, process-scoped capability set.
    pub fn milestone1_safe() -> (c: Capabilities)
        ensures
            c.features@.len() == milestone1_table().len(),
            forall|i: int|
                0 <= i < c.features@.len() ==> {
                    let e = #[trigger] milestone1_table()[i];
                    &&& c.features@[i].id@ == e.0
                    &&& c.features@[i].name@ == e.1
                    &&& c.features@[i].support == e.2
                    &&& c.features@[i].notes@ == e.3
                },
    {
        let mut feats: Vec<Capability> = Vec::new();
    feats.push(Capability {
        id: String::from_str("bench.worker_threads"),
        name: String::from_str("Benchmark worker thread count"),
        support: FeatureSupport::Supported,
        notes: String::from_str("Process-scoped; affects KraftBench parallel workloads only."),
    });
    feats.push(Capability {
        id: String::from_str("bench.rayon_threads"),
        name: String::from_str("Rayon thread-pool size"),
        support: FeatureSupport::Supported,
        notes: String::from_str("Process-scoped rayon pool for parallel benches."),
    });
    feats.push(Capability {
        id: String::from_str("process.priority"),
        name: String::from_str("Process scheduling priority"),
        support: FeatureSupport::Partial,
        notes: String::from_str("Best-effort; may require privileges on some platforms; always rolled back."),
    });
    feats.push(Capability {
        id: String::from_str("process.affinity"),
        name: String::from_str("CPU affinity mask"),
        support: FeatureSupport::Partial,
        notes: String::from_str("Safe subset only; restricted to currently online CPUs."),
    });
    feats.push(Capability {
        id: String::from_str("gpu.clock"),
        name: String::from_str("GPU clock control"),
        support: FeatureSupport::Unsupported,
        notes: String::from_str("Not implemented in Milestone 1."),
    });
    feats.push(Capability {
        id: String::from_str("power.scheme"),
        name: String::from_str("OS power scheme / plan"),
        support: FeatureSupport::RequiresPrivilege,
        notes: String::from_str("Requires kraftverk agent serve (elevated on Windows for powercfg / root on Linux for cpufreq)."),
    });
    feats.push(Capability {
        id: String::from_str("storage.trim"),
        name: String::from_str("Storage TRIM / optimize"),
        support: FeatureSupport::Unsupported,
        notes: String::from_str("Out of scope; Kraftverk is not a disk cleaner."),
    });
    feats.push(Capability {
        id: String::from_str("registry.tweaks"),
        name: String::from_str("Windows registry performance tweaks"),
        support: FeatureSupport::Unsupported,
        notes: String::from_str("Placebo-prone; not in Milestone 1."),
    });
        Capabilities { features: feats }
    }

    /// Usable capabilities among the keys a safe search may explore.
    pub fn safe_param_keys(&self) -> (v: Vec<String>)
        ensures
            views(v@) == safe_keys(self.features@),
    {
        let mut out: Vec<String> = Vec::new();
        let n = self.features.len();
        for i in 0..n
            invariant
                n == self.features@.len(),
                views(out@) == safe_keys(self.features@.take(i as int)),
        {
            let f = &self.features[i];
            let ghost t = self.features@.take(i + 1);
            assert(t.drop_last() =~= self.features@.take(i as int));
            let key = f.id.as_str();
            let safe = str_eq(key, "bench.worker_threads") || str_eq(key, "bench.rayon_threads")
                || str_eq(key, "process.priority") || str_eq(key, "process.affinity");
            if f.support.is_usable() && safe {
                let ghost old = out@;
                out.push(f.id.clone());
                assert(views(out@) =~= views(old).push(f.id@));
            }
        }
        assert(self.features@.take(n as int) =~= self.features@);
        out
    }
}

proof fn lemma_first_with_id_prefix(f: Seq<Capability>, id: Seq<char>, k: int, j: int)
    requires
        0 <= k <= f.len(),
        first_with_id(f.take(k), id) == Some(j),
    ensures
        first_with_id(f, id) == Some(j),
    decreases f.len() - k,
{
    if k == f.len() {
        assert(f.take(k) =~= f);
    } else {
        assert(f.take(k + 1).drop_last() =~= f.take(k));
        lemma_first_with_id_prefix(f, id, k + 1, j);
    }
}

} // verus!
