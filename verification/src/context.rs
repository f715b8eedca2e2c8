//! The state of a run: the variables, the output, and the loop limit.

use vstd::prelude::*;
use vstd::hash_map::StringHashMap;
use crate::error::EvalError;
use crate::expression::Value;
use crate::semantics::{Computed, State};
use crate::term::SpecValue;

verus! {

/// What a program runs against. It is made once, handed to every node that
/// is evaluated, and holds the output when the run is over.
pub struct Context {
    /// The value of every name assigned so far: one flat mapping.
    pub variables: StringHashMap<Value>,
    /// The fragments printed so far, oldest first.
    pub output: Vec<String>,
    /// How often one activation of a loop may run its body before the
    /// evaluation fails with [`EvalError::LoopLimit`].
    pub loop_limit: u64,
}

/// The model of a stored value.
pub open spec fn value_model(v: Value) -> SpecValue {
    v@
}

/// The model of a printed fragment.
pub open spec fn fragment_model(s: String) -> Seq<char> {
    s@
}

/// The model of what an evaluation returns.
pub open spec fn computed(r: Result<Option<Value>, EvalError>) -> Computed {
    match r {
        Ok(Some(v)) => Ok(Some(v@)),
        Ok(None) => Ok(None),
        Err(e) => Err(e),
    }
}

impl View for Context {
    type V = State;

    open spec fn view(&self) -> State {
        State {
            variables: self.variables@.map_values(|v: Value| value_model(v)),
            output: self.output@.map_values(|s: String| fragment_model(s)),
            loop_limit: self.loop_limit as nat,
        }
    }
}

impl Default for Context {
    /// A context with no variable and no output, whose loops may run
    /// `u64::MAX` rounds.
    fn default() -> (ctx: Self)
        ensures
            ctx@ == State::initial(u64::MAX as nat),
    {
        Context::with_loop_limit(u64::MAX)
    }
}

impl Context {
    /// A context with no variable and no output, whose loops may run
    /// `loop_limit` rounds each.
    pub fn with_loop_limit(loop_limit: u64) -> (ctx: Self)
        ensures
            ctx@ == State::initial(loop_limit as nat),
    {
        let ctx = Context { variables: StringHashMap::new(), output: Vec::new(), loop_limit };
        assert(ctx@.variables =~= Map::empty());
        assert(ctx@.output =~= Seq::empty());
        ctx
    }

    /// The value of `name`, if it has one.
    pub fn get(&self, name: &str) -> (r: Option<&Value>)
        ensures
            match r {
                Some(v) => self@.lookup(name@) == Ok::<_, EvalError>(Some(v@)),
                None => !self@.variables.contains_key(name@),
            },
    {
        self.variables.get(name)
    }

    /// Stores `value` under `name`, whether the name is new or not.
    pub fn assign(&mut self, name: String, value: Value)
        ensures
            final(self)@ == old(self)@.assign(name@, value@),
    {
        self.variables.insert(name, value);
        assert(self@.variables =~= old(self)@.variables.insert(name@, value@));
    }

    /// Appends one fragment to the output.
    pub fn emit(&mut self, fragment: String)
        ensures
            final(self)@ == old(self)@.emit(fragment@),
    {
        self.output.push(fragment);
        assert(self@.output =~= old(self)@.output.push(fragment@));
    }
}

} // verus!
