//! The variable environment: a mapping from variable name to a numeric
//! value, carried as the value's exact decimal spelling.  The evaluator only
//! reads it; populating it is the driving caller's business.

use vstd::prelude::*;

use crate::lexer::token::{chars_eq, clone_chars};

verus! {

/// The name/value pairs a vector of character-vector pairs spells.
pub open spec fn pairs_model(s: Seq<(Vec<char>, Vec<char>)>) -> Seq<(Seq<char>, Seq<char>)> {
    s.map(|i: int, p: (Vec<char>, Vec<char>)| (p.0@, p.1@))
}

/// The mapping that a sequence of name/value pairs denotes: later pairs
/// override earlier ones.
pub open spec fn map_of(s: Seq<(Seq<char>, Seq<char>)>) -> Map<Seq<char>, Seq<char>>
    decreases s.len(),
{
    if s.len() == 0 {
        Map::empty()
    } else {
        map_of(s.drop_last()).insert(s.last().0, s.last().1)
    }
}

/// If position `k` holds the last pair with its name, the denoted mapping
/// sends that name to the pair's value.
proof fn lemma_map_of_last_match(s: Seq<(Seq<char>, Seq<char>)>, k: int)
    requires
        0 <= k < s.len(),
        forall|j: int| k < j < s.len() ==> s[j].0 != s[k].0,
    ensures
        map_of(s).contains_key(s[k].0),
        map_of(s)[s[k].0] == s[k].1,
    decreases s.len(),
{
    if k < s.len() - 1 {
        lemma_map_of_last_match(s.drop_last(), k);
    }
}

/// A name no pair carries is absent from the denoted mapping.
proof fn lemma_map_of_no_match(s: Seq<(Seq<char>, Seq<char>)>, name: Seq<char>)
    requires
        forall|j: int| 0 <= j < s.len() ==> s[j].0 != name,
    ensures
        !map_of(s).contains_key(name),
    decreases s.len(),
{
    if s.len() > 0 {
        lemma_map_of_no_match(s.drop_last(), name);
    }
}

/// The variable environment.
#[derive(Debug, Clone)]
pub struct Environment {
    values: Vec<(Vec<char>, Vec<char>)>,
}

impl View for Environment {
    type V = Map<Seq<char>, Seq<char>>;

    closed spec fn view(&self) -> Map<Seq<char>, Seq<char>> {
        map_of(pairs_model(self.values@))
    }
}

impl Environment {
    /// Create an empty environment.
    pub fn new() -> (env: Environment)
        ensures
            env@ == Map::<Seq<char>, Seq<char>>::empty(),
    {
        let env = Environment { values: Vec::new() };
        proof {
            assert(pairs_model(env.values@) =~= Seq::<(Seq<char>, Seq<char>)>::empty());
        }
        env
    }

    /// Bind `name` to `value` (the decimal spelling of a number),
    /// overriding any earlier binding of the same name.
    pub fn define(&mut self, name: Vec<char>, value: Vec<char>)
        ensures
            final(self)@ == old(self)@.insert(name@, value@),
    {
        let ghost before = pairs_model(self.values@);
        self.values.push((name, value));
        proof {
            assert(pairs_model(self.values@) =~= before.push((name@, value@)));
            assert(pairs_model(self.values@).drop_last() =~= before);
        }
    }

    /// Look the name up: its bound value, or nothing.  Absence is a normal
    /// result at this layer; the evaluator decides that it is an error.
    #[verifier::loop_isolation(false)]
    pub fn get(&self, name: &Vec<char>) -> (r: Option<Vec<char>>)
        ensures
            match r {
                Some(value) => self@.contains_key(name@) && value@ == self@[name@],
                None => !self@.contains_key(name@),
            },
    {
        let ghost s = pairs_model(self.values@);
        let mut k: usize = self.values.len();
        while k > 0
            invariant
                k <= s.len(),
                forall|j: int| k <= j < s.len() ==> s[j].0 != name@,
            decreases k,
        {
            k -= 1;
            if chars_eq(&self.values[k].0, name) {
                proof {
                    lemma_map_of_last_match(s, k as int);
                }
                return Some(clone_chars(&self.values[k].1));
            }
        }
        proof {
            lemma_map_of_no_match(s, name@);
        }
        None
    }
}

} // verus!
