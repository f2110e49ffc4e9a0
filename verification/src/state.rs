//! Model-state bookkeeping: the named state files an agent can start from.

use vstd::prelude::*;
use crate::strutil;

verus! {

/// One named state file.
#[derive(Debug, Clone, PartialEq)]
pub struct StateConfig {
    /// Where the state file lives.
    pub path: String,
    /// The state's name, when it has one.
    pub name: Option<String>,
    /// Whether this is the state used when none is named.
    pub default: bool,
}

/// Grammar-constrained sampling settings.
#[derive(Debug, Clone, PartialEq)]
pub struct BnfConfig {
    /// Whether byte-level caching is on.
    pub enable_bytes_cache: Option<bool>,
    /// The grammar's start symbol.
    pub start_nonterminal: Option<String>,
}

/// The catalog of state files.
#[derive(Debug, Clone, PartialEq)]
pub struct StateManager {
    /// The states, in configuration order.
    pub states: Vec<StateConfig>,
}

/// Index of the first state named `name`, when one exists.
pub open spec fn spec_state_index(states: Seq<StateConfig>, name: Seq<char>) -> Option<int> {
    if exists|i: int|
        0 <= i < states.len() && (#[trigger] states[i]).name is Some && states[i].name.unwrap()@
            == name {
        Some(
            choose|i: int|
                0 <= i < states.len() && (#[trigger] states[i]).name is Some
                    && states[i].name.unwrap()@ == name,
        )
    } else {
        None
    }
}

impl StateManager {
    /// A manager over the given states.
    pub fn new(states: Vec<StateConfig>) -> (r: StateManager)
        ensures
            r.states == states,
    {
        StateManager { states }
    }

    /// The path of a state named `name`, when one exists.
    pub fn get_state_path_by_name(&self, name: &str) -> (r: Option<String>)
        ensures
            r is Some <==> spec_state_index(self.states@, name@) is Some,
            r is Some ==> exists|i: int|
                0 <= i < self.states@.len() && (#[trigger] self.states@[i]).name is Some
                    && self.states@[i].name.unwrap()@ == name@ && r.unwrap()@
                    == self.states@[i].path@,
    {
        let n = self.states.len();
        let mut i: usize = 0;
        while i < n
            invariant
                n == self.states@.len(),
                i <= n,
                forall|k: int|
                    0 <= k < i ==> !((#[trigger] self.states@[k]).name is Some
                        && self.states@[k].name.unwrap()@ == name@),
            decreases n - i,
        {
            let hit = match &self.states[i].name {
                Some(s) => strutil::str_eq(s.as_str(), name),
                None => false,
            };
            if hit {
                return Some(self.states[i].path.clone());
            }
            i += 1;
        }
        None
    }

    /// The path of the state marked default, when one exists.
    pub fn get_default_state_path(&self) -> (r: Option<String>)
        ensures
            r is Some <==> exists|i: int|
                0 <= i < self.states@.len() && (#[trigger] self.states@[i]).default,
            r is Some ==> exists|i: int|
                0 <= i < self.states@.len() && (#[trigger] self.states@[i]).default && r.unwrap()@
                    == self.states@[i].path@,
    {
        let n = self.states.len();
        let mut i: usize = 0;
        while i < n
            invariant
                n == self.states@.len(),
                i <= n,
                forall|k: int| 0 <= k < i ==> !(#[trigger] self.states@[k]).default,
            decreases n - i,
        {
            if self.states[i].default {
                return Some(self.states[i].path.clone());
            }
            i += 1;
        }
        None
    }
}

} // verus!
