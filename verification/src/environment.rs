//! The shell's own variables.
use vstd::prelude::*;
use vstd::hash_map::StringHashMap;

verus! {

/// Local environment.
///
/// Used only for string interpolation. These variables are not exported, so
/// they are not in the environment of the commands that the shell starts.
pub struct Env(StringHashMap<String>);

impl View for Env {
    type V = Map<Seq<char>, Seq<char>>;

    /// The variables by name, each with its value.
    closed spec fn view(&self) -> Map<Seq<char>, Seq<char>> {
        self.0@.map_values(|v: String| v@)
    }
}

impl Env {
    /// An environment without variables.
    pub fn new() -> (r: Env)
        ensures
            r@ == Map::<Seq<char>, Seq<char>>::empty(),
    {
        let r = Env(StringHashMap::new());
        assert(r@ =~= Map::<Seq<char>, Seq<char>>::empty());
        r
    }

    /// Add a new variable with given `name` and `value`. A variable of that
    /// name that is there already gets the new value.
    pub fn add(&mut self, name: String, value: String)
        ensures
            final(self)@ == old(self)@.insert(name@, value@),
    {
        self.0.insert(name, value);
        assert(self@ =~= old(self)@.insert(name@, value@));
    }

    /// Get variable with given `name`.
    pub fn get(&self, name: &String) -> (r: Option<String>)
        ensures
            match r {
                Some(v) => self@.contains_key(name@) && self@[name@] == v@,
                None => !self@.contains_key(name@),
            },
    {
        match self.0.get(name.as_str()) {
            Some(v) => Some(v.clone()),
            None => None,
        }
    }
}

} // verus!
