//! The environment variables that a host hands over.
use vstd::prelude::*;

use crate::table::Table;
use crate::text::owned;

verus! {

/// Environment variables with their values.
#[derive(Debug)]
pub struct Environment {
    vars: Table<String>,
}

impl View for Environment {
    type V = Map<Seq<char>, Seq<char>>;

    closed spec fn view(&self) -> Map<Seq<char>, Seq<char>> {
        self.vars@.map_values(|v: String| v@)
    }
}

/// The value of a variable that is set to more than nothing.
pub open spec fn set_var(env: Map<Seq<char>, Seq<char>>, name: Seq<char>) -> Option<Seq<char>> {
    if env.dom().contains(name) && env[name].len() > 0 {
        Some(env[name])
    } else {
        None
    }
}

impl Environment {
    /// An environment in which nothing is set.
    pub fn new() -> (r: Environment)
        ensures
            r@ == Map::<Seq<char>, Seq<char>>::empty(),
    {
        let r = Environment { vars: Table::new() };
        assert(r@ =~= Map::<Seq<char>, Seq<char>>::empty());
        r
    }

    /// Sets a variable.
    pub fn set(&mut self, name: &str, value: &str)
        ensures
            final(self)@ == old(self)@.insert(name@, value@),
    {
        let ghost was = self@;
        self.vars.insert(name, owned(value));
        assert(self@ =~= was.insert(name@, value@));
    }

    /// The value of a variable, if it is set.
    pub fn get(&self, name: &str) -> (r: Option<&String>)
        ensures
            match r {
                Some(v) => self@.dom().contains(name@) && self@[name@] == v@,
                None => !self@.dom().contains(name@),
            },
    {
        self.vars.get(name)
    }

    /// The value of a variable, if it is set to more than nothing.
    pub fn get_set(&self, name: &str) -> (r: Option<&String>)
        ensures
            match r {
                Some(v) => set_var(self@, name@) == Some(v@),
                None => set_var(self@, name@) is None,
            },
    {
        match self.get(name) {
            Some(v) => if v.as_str().is_empty() {
                None
            } else {
                Some(v)
            },
            None => None,
        }
    }
}

} // verus!
