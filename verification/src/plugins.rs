//! Named search strategy plugins (in-process registry; no dynamic loading).

use vstd::prelude::*;

use crate::error::Error;
use crate::text::{join, join_strings, str_eq, views};

verus! {

/// Built-in plugin identifiers.
pub const PLUGIN_HILL_CLIMB: &'static str = "hill-climb";

pub const PLUGIN_SAFE_HILL_CLIMB: &'static str = "safe-hill-climb";

pub const PLUGIN_EPSILON_GREEDY: &'static str = "epsilon-greedy";

pub const PLUGIN_BAYESIAN: &'static str = "bayesian";

/// A registered search plugin.
#[derive(Debug, Clone)]
pub struct SearchPluginInfo {
    pub id: String,
    pub name: String,
    pub available: bool,
    pub notes: String,
}

/// The search algorithm a plugin id selects.
#[derive(Debug, Clone, Copy, PartialEq, Eq, Structural)]
pub enum SearchAlgorithm {
    HillClimb,
    EpsilonGreedy,
    Bayesian,
}

impl SearchAlgorithm {
    /// The name the strategy built for this algorithm reports.
    pub fn strategy_name(self) -> (s: &'static str)
        ensures
            s@ == match self {
                SearchAlgorithm::HillClimb => "hill_climb"@,
                SearchAlgorithm::EpsilonGreedy => "epsilon_greedy"@,
                SearchAlgorithm::Bayesian => "bayesian"@,
            },
    {
        match self {
            SearchAlgorithm::HillClimb => "hill_climb",
            SearchAlgorithm::EpsilonGreedy => "epsilon_greedy",
            SearchAlgorithm::Bayesian => "bayesian",
        }
    }
}

/// The registry: (id, name, notes); every plugin is available.
pub open spec fn plugin_table() -> Seq<(Seq<char>, Seq<char>, Seq<char>)> {
    seq![
        ("hill-climb"@, "Deterministic hill-climb"@, "Discrete neighborhood search over reversible knobs; seedable."@),
        ("safe-hill-climb"@, "Safe hill-climb (alias)"@, "Same as hill-climb; default for Safe mode."@),
        ("epsilon-greedy"@, "\u{3b5}-greedy"@, "Multi-armed bandit over discrete arms; configurable decaying \u{3b5}."@),
        ("bayesian"@, "Bayesian optimization"@, "GP surrogate + Expected Improvement over numeric thread params."@),
    ]
}

/// List registered search plugins.
pub fn list_search_plugins() -> (v: Vec<SearchPluginInfo>)
    ensures
        v@.len() == plugin_table().len(),
        forall|i: int|
            0 <= i < v@.len() ==> {
                let e = #[trigger] plugin_table()[i];
                &&& v@[i].id@ == e.0
                &&& v@[i].name@ == e.1
                &&& v@[i].available
                &&& v@[i].notes@ == e.2
            },
{
    let mut v: Vec<SearchPluginInfo> = Vec::new();
    v.push(SearchPluginInfo {
        id: String::from_str("hill-climb"),
        name: String::from_str("Deterministic hill-climb"),
        available: true,
        notes: String::from_str("Discrete neighborhood search over reversible knobs; seedable."),
    });
    v.push(SearchPluginInfo {
        id: String::from_str("safe-hill-climb"),
        name: String::from_str("Safe hill-climb (alias)"),
        available: true,
        notes: String::from_str("Same as hill-climb; default for Safe mode."),
    });
    v.push(SearchPluginInfo {
        id: String::from_str("epsilon-greedy"),
        name: String::from_str("\u{3b5}-greedy"),
        available: true,
        notes: String::from_str("Multi-armed bandit over discrete arms; configurable decaying \u{3b5}."),
    });
    v.push(SearchPluginInfo {
        id: String::from_str("bayesian"),
        name: String::from_str("Bayesian optimization"),
        available: true,
        notes: String::from_str("GP surrogate + Expected Improvement over numeric thread params."),
    });
    v
}

/// The algorithm an id or alias names, if any.
pub open spec fn algorithm_named(id: Seq<char>) -> Option<SearchAlgorithm> {
    if id == "hill-climb"@ || id == "safe-hill-climb"@ || id == "default"@ {
        Some(SearchAlgorithm::HillClimb)
    } else if id == "epsilon-greedy"@ || id == "epsilon_greedy"@ || id == "egreedy"@ {
        Some(SearchAlgorithm::EpsilonGreedy)
    } else if id == "bayesian"@ || id == "bo"@ {
        Some(SearchAlgorithm::Bayesian)
    } else {
        None
    }
}

/// The message for an unknown plugin id, listing the available ones.
pub open spec fn unknown_plugin_message(id: Seq<char>) -> Seq<char> {
    "search plugin '"@ + id + "' is unavailable; try: "@ + join(
        plugin_table().map_values(|e: (Seq<char>, Seq<char>, Seq<char>)| e.0),
        ", "@,
    )
}

/// Resolve a plugin id (or alias) to the algorithm it constructs.
pub fn resolve_search_plugin(id: &str) -> (r: Result<SearchAlgorithm, Error>)
    ensures
        algorithm_named(id@) matches Some(a) ==> r == Ok::<SearchAlgorithm, Error>(a),
        algorithm_named(id@) is None ==> (r matches Err(Error::InvalidConfig(m)) && m@
            == unknown_plugin_message(id@)),
{
    if str_eq(id, PLUGIN_HILL_CLIMB) || str_eq(id, PLUGIN_SAFE_HILL_CLIMB) || str_eq(id, "default") {
        Ok(SearchAlgorithm::HillClimb)
    } else if str_eq(id, PLUGIN_EPSILON_GREEDY) || str_eq(id, "epsilon_greedy") || str_eq(
        id,
        "egreedy",
    ) {
        Ok(SearchAlgorithm::EpsilonGreedy)
    } else if str_eq(id, PLUGIN_BAYESIAN) || str_eq(id, "bo") {
        Ok(SearchAlgorithm::Bayesian)
    } else {
        let plugins = list_search_plugins();
        let mut ids: Vec<String> = Vec::new();
        let n = plugins.len();
        for i in 0..n
            invariant
                n == plugins@.len(),
                n == plugin_table().len(),
                forall|k: int|
                    0 <= k < plugins@.len() ==> {
                        let e = #[trigger] plugin_table()[k];
                        &&& plugins@[k].id@ == e.0
                        &&& plugins@[k].available
                    },
                views(ids@) == plugin_table().take(i as int).map_values(
                    |e: (Seq<char>, Seq<char>, Seq<char>)| e.0,
                ),
        {
            if plugins[i].available {
                let ghost old = ids@;
                ids.push(plugins[i].id.clone());
                assert(views(ids@) =~= views(old).push(plugins@[i as int].id@));
            }
            assert(plugin_table().take(i + 1).map_values(|e: (Seq<char>, Seq<char>, Seq<char>)| e.0)
                =~= plugin_table().take(i as int).map_values(
                |e: (Seq<char>, Seq<char>, Seq<char>)| e.0,
            ).push(plugin_table()[i as int].0));
        }
        assert(plugin_table().take(n as int) =~= plugin_table());
        let joined = join_strings(&ids, ", ");
        let mut m = String::from_str("search plugin '");
        m.append(id);
        m.append("' is unavailable; try: ");
        m.append(joined.as_str());
        Err(Error::InvalidConfig(m))
    }
}

/// Default plugin for an optimize mode string.
pub fn default_plugin_for_mode(mode: &str) -> (p: &'static str)
    ensures
        (mode@ == "safe"@ || mode@ == "balanced"@ || mode@ == "aggressive"@) ==> p@
            == "safe-hill-climb"@,
        !(mode@ == "safe"@ || mode@ == "balanced"@ || mode@ == "aggressive"@) ==> p@
            == "hill-climb"@,
{
    if str_eq(mode, "safe") || str_eq(mode, "balanced") || str_eq(mode, "aggressive") {
        PLUGIN_SAFE_HILL_CLIMB
    } else {
        PLUGIN_HILL_CLIMB
    }
}

} // verus!
