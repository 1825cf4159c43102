//! Environment variables: a map from names to values.

use crate::text::same_text;
use vstd::prelude::*;

verus! {

/// The map that a list of name/value pairs stands for.
pub open spec fn pairs_map(pairs: Seq<(String, String)>) -> Map<Seq<char>, Seq<char>>
    decreases pairs.len(),
{
    if pairs.len() == 0 {
        Map::empty()
    } else {
        pairs_map(pairs.drop_last()).insert(pairs.last().0@, pairs.last().1@)
    }
}

/// No name occurs twice.
pub open spec fn names_distinct(pairs: Seq<(String, String)>) -> bool {
    forall|i: int, j: int|
        #![trigger pairs[i], pairs[j]]
        0 <= i < j < pairs.len() ==> pairs[i].0@ != pairs[j].0@
}

/// A set of environment variables. Each name has one value.
pub struct EnvMap {
    pairs: Vec<(String, String)>,
}

impl View for EnvMap {
    type V = Map<Seq<char>, Seq<char>>;

    closed spec fn view(&self) -> Map<Seq<char>, Seq<char>> {
        pairs_map(self.pairs@)
    }
}

/// With distinct names the map holds exactly the listed pairs.
proof fn lemma_pairs_map(pairs: Seq<(String, String)>)
    requires
        names_distinct(pairs),
    ensures
        forall|i: int|
            #![trigger pairs[i]]
            0 <= i < pairs.len() ==> pairs_map(pairs).contains_key(pairs[i].0@) && pairs_map(
                pairs,
            )[pairs[i].0@] == pairs[i].1@,
        forall|name: Seq<char>| #[trigger]
            pairs_map(pairs).contains_key(name) ==> exists|i: int|
                0 <= i < pairs.len() && (#[trigger] pairs[i]).0@ == name,
    decreases pairs.len(),
{
    if pairs.len() > 0 {
        let init = pairs.drop_last();
        assert forall|i: int, j: int|
            #![trigger init[i], init[j]]
            0 <= i < j < init.len() implies init[i].0@ != init[j].0@ by {
            assert(init[i] == pairs[i] && init[j] == pairs[j]);
        }
        lemma_pairs_map(init);
        assert forall|i: int| #![trigger pairs[i]] 0 <= i < pairs.len() implies pairs_map(
            pairs,
        ).contains_key(pairs[i].0@) && pairs_map(pairs)[pairs[i].0@] == pairs[i].1@ by {
            if i < pairs.len() - 1 {
                assert(init[i] == pairs[i]);
            }
        }
        assert forall|name: Seq<char>| #[trigger]
            pairs_map(pairs).contains_key(name) implies exists|i: int|
            0 <= i < pairs.len() && (#[trigger] pairs[i]).0@ == name by {
            if name == pairs.last().0@ {
                assert(pairs[pairs.len() - 1].0@ == name);
            } else {
                assert(pairs_map(init).contains_key(name));
                let i = choose|i: int| 0 <= i < init.len() && (#[trigger] init[i]).0@ == name;
                assert(pairs[i] == init[i]);
            }
        }
    }
}

impl EnvMap {
    /// No name occurs twice.
    #[verifier::type_invariant]
    spec fn well_formed(&self) -> bool {
        names_distinct(self.pairs@)
    }

    /// No variables.
    pub fn new() -> (env: EnvMap)
        ensures
            env@ == Map::<Seq<char>, Seq<char>>::empty(),
    {
        EnvMap { pairs: Vec::new() }
    }

    /// Where `name` stands in the list.
    fn position(&self, name: &str) -> (at: Option<usize>)
        ensures
            match at {
                Some(i) => i < self.pairs@.len() && self.pairs@[i as int].0@ == name@,
                None => !self@.contains_key(name@),
            },
    {
        proof {
            use_type_invariant(&*self);
            lemma_pairs_map(self.pairs@);
        }
        let mut i: usize = 0;
        while i < self.pairs.len()
            invariant
                i <= self.pairs@.len(),
                forall|k: int|
                    #![trigger self.pairs@[k]]
                    0 <= k < i ==> self.pairs@[k].0@ != name@,
            decreases self.pairs@.len() - i,
        {
            if same_text(self.pairs[i].0.as_str(), name) {
                return Some(i);
            }
            i += 1;
        }
        None
    }

    /// The value of `name`.
    pub fn get(&self, name: &str) -> (value: Option<&String>)
        ensures
            match value {
                Some(text) => self@.contains_key(name@) && self@[name@] == text@,
                None => !self@.contains_key(name@),
            },
    {
        let found = self.position(name);
        proof {
            use_type_invariant(&*self);
            lemma_pairs_map(self.pairs@);
        }
        match found {
            Some(i) => Some(&self.pairs[i].1),
            None => None,
        }
    }

    /// Gives `name` the value `value`.
    pub fn insert(&mut self, name: String, value: String)
        ensures
            final(self)@ == old(self)@.insert(name@, value@),
    {
        let found = self.position(name.as_str());
        proof {
            use_type_invariant(&*self);
            lemma_pairs_map(self.pairs@);
        }
        let mut pairs: Vec<(String, String)> = Vec::new();
        std::mem::swap(&mut pairs, &mut self.pairs);
        let ghost before = pairs@;
        match found {
            Some(i) => {
                let ghost key = name@;
                let ghost text = value@;
                pairs.set(i, (name, value));
                proof {
                    let after = pairs@;
                    assert forall|j: int, k: int|
                        #![trigger after[j], after[k]]
                        0 <= j < k < after.len() implies after[j].0@ != after[k].0@ by {
                        assert(before[j].0@ == after[j].0@);
                        assert(before[k].0@ == after[k].0@);
                    }
                    lemma_pairs_map(after);
                    let goal = pairs_map(before).insert(key, text);
                    assert forall|n: Seq<char>| pairs_map(after).contains_key(n)
                        == goal.contains_key(n) by {
                        if pairs_map(after).contains_key(n) {
                            let j = choose|j: int|
                                0 <= j < after.len() && (#[trigger] after[j]).0@ == n;
                            assert(before[j].0@ == n);
                        }
                        if goal.contains_key(n) {
                            if n == key {
                                assert(after[i as int].0@ == n);
                            } else {
                                let j = choose|j: int|
                                    0 <= j < before.len() && (#[trigger] before[j]).0@ == n;
                                assert(after[j].0@ == n);
                            }
                        }
                    }
                    assert forall|n: Seq<char>| pairs_map(after).contains_key(n) implies pairs_map(
                        after,
                    )[n] == goal[n] by {
                        let j = choose|j: int| 0 <= j < after.len() && (#[trigger] after[j]).0@ == n;
                        if j == i {
                            assert(after[j].1@ == text);
                        } else {
                            assert(before[j] == after[j]);
                            assert(before[i as int].0@ != n);
                        }
                    }
                    assert(pairs_map(after) =~= goal);
                }
            },
            None => {
                pairs.push((name, value));
                proof {
                    let after = pairs@;
                    assert(after.drop_last() =~= before);
                    assert forall|j: int, k: int|
                        #![trigger after[j], after[k]]
                        0 <= j < k < after.len() implies after[j].0@ != after[k].0@ by {
                        assert(before[j] == after[j]);
                        if k < before.len() {
                            assert(before[k] == after[k]);
                        }
                    }
                }
            },
        }
        self.pairs = pairs;
    }

    /// Adds every variable of `other`, whose values take precedence.
    pub fn extend(&mut self, other: &EnvMap)
        ensures
            final(self)@ == old(self)@.union_prefer_right(other@),
    {
        let ghost base = self@;
        proof {
            assert(other.pairs@.take(0) =~= Seq::empty());
            assert(base.union_prefer_right(pairs_map(Seq::empty())) =~= base);
        }
        let mut i: usize = 0;
        while i < other.pairs.len()
            invariant
                i <= other.pairs@.len(),
                self@ == base.union_prefer_right(pairs_map(other.pairs@.take(i as int))),
            decreases other.pairs@.len() - i,
        {
            let ghost done = other.pairs@.take(i as int);
            self.insert(other.pairs[i].0.clone(), other.pairs[i].1.clone());
            proof {
                assert(other.pairs@.take(i + 1).drop_last() =~= done);
                assert(self@ =~= base.union_prefer_right(pairs_map(other.pairs@.take(i + 1))));
            }
            i += 1;
        }
        assert(other.pairs@.take(i as int) =~= other.pairs@);
    }

    /// The variables whose value differs from the one in `base`, or that
    /// `base` does not have.
    pub fn differing_from(&self, base: &EnvMap) -> (kept: EnvMap)
        ensures
            kept@ == differing(self@, base@),
    {
        proof {
            use_type_invariant(&*self);
            lemma_pairs_map(self.pairs@);
        }
        let mut kept = EnvMap::new();
        let mut i: usize = 0;
        proof {
            assert(self.pairs@.take(0) =~= Seq::empty());
            assert(differing(pairs_map(Seq::empty()), base@) =~= Map::empty());
        }
        while i < self.pairs.len()
            invariant
                i <= self.pairs@.len(),
                names_distinct(self.pairs@),
                kept@ == differing(pairs_map(self.pairs@.take(i as int)), base@),
            decreases self.pairs@.len() - i,
        {
            let ghost done = self.pairs@.take(i as int);
            let ghost name = self.pairs@[i as int].0@;
            proof {
                assert(self.pairs@.take(i + 1).drop_last() =~= done);
                assert(names_distinct(done)) by {
                    assert forall|j: int, k: int|
                        #![trigger done[j], done[k]]
                        0 <= j < k < done.len() implies done[j].0@ != done[k].0@ by {
                        assert(done[j] == self.pairs@[j] && done[k] == self.pairs@[k]);
                    }
                }
                lemma_pairs_map(done);
                if pairs_map(done).contains_key(name) {
                    let j = choose|j: int| 0 <= j < done.len() && (#[trigger] done[j]).0@ == name;
                    assert(self.pairs@[j].0@ == name);
                    assert(false);
                }
            }
            let same = match base.get(self.pairs[i].0.as_str()) {
                Some(value) => same_text(value.as_str(), self.pairs[i].1.as_str()),
                None => false,
            };
            if !same {
                kept.insert(self.pairs[i].0.clone(), self.pairs[i].1.clone());
            }
            assert(kept@ =~= differing(pairs_map(self.pairs@.take(i + 1)), base@));
            i += 1;
        }
        assert(self.pairs@.take(i as int) =~= self.pairs@);
        kept
    }

    /// The variables as a list of name/value pairs.
    pub fn pairs(&self) -> (pairs: &Vec<(String, String)>)
        ensures
            names_distinct(pairs@),
            pairs_map(pairs@) == self@,
    {
        proof {
            use_type_invariant(&*self);
        }
        &self.pairs
    }
}

impl Clone for EnvMap {
    fn clone(&self) -> (copy: EnvMap)
        ensures
            copy@ == self@,
    {
        let mut copy = EnvMap::new();
        copy.extend(self);
        assert(Map::<Seq<char>, Seq<char>>::empty().union_prefer_right(self@) =~= self@);
        copy
    }
}

/// The variables of `env` whose value differs from the one in `base`, or that
/// `base` does not have.
pub open spec fn differing(
    env: Map<Seq<char>, Seq<char>>,
    base: Map<Seq<char>, Seq<char>>,
) -> Map<Seq<char>, Seq<char>> {
    env.remove_keys(
        Set::new(|name: Seq<char>| base.contains_key(name) && base[name] == env[name]),
    )
}

/// Laying the differing variables over `base` gives back every variable of
/// `env` with its value.
pub proof fn law_differing_restores(
    env: Map<Seq<char>, Seq<char>>,
    base: Map<Seq<char>, Seq<char>>,
)
    ensures
        env.submap_of(base.union_prefer_right(differing(env, base))),
        differing(env, base).submap_of(env),
        forall|name: Seq<char>| #[trigger]
            differing(env, base).contains_key(name) ==> !(base.contains_key(name) && base[name]
                == env[name]),
{
}

/// Of an environment that was made by laying `added` over `base`, only variables
/// of `added` differ from `base`.
pub proof fn law_only_added_variables_differ(
    base: Map<Seq<char>, Seq<char>>,
    added: Map<Seq<char>, Seq<char>>,
)
    ensures
        differing(base.union_prefer_right(added), base).submap_of(added),
{
}

/// The list of variables holds each name once, with its value, and no other name.
pub proof fn law_variables_are_listed_once(
    env: EnvMap,
    pairs: Vec<(String, String)>,
    name: Seq<char>,
)
    requires
        call_ensures(EnvMap::pairs, (&env,), &pairs),
    ensures
        forall|i: int, j: int|
            #![trigger pairs@[i], pairs@[j]]
            0 <= i < j < pairs@.len() ==> pairs@[i].0@ != pairs@[j].0@,
        env@.contains_key(name) <==> exists|i: int|
            0 <= i < pairs@.len() && (#[trigger] pairs@[i]).0@ == name,
        forall|i: int|
            #![trigger pairs@[i]]
            0 <= i < pairs@.len() ==> env@.contains_key(pairs@[i].0@) && env@[pairs@[i].0@]
                == pairs@[i].1@,
{
    lemma_pairs_map(pairs@);
}

/// A variable that was set reads back as it was set, and every other one as it did
/// before.
pub proof fn law_set_variable_reads_back(
    before: EnvMap,
    name: String,
    value: String,
    after: EnvMap,
    asked: &str,
    found: Option<&String>,
)
    requires
        exists|env: &mut EnvMap|
            *env == before && *final(env) == after && #[trigger] call_ensures(
                EnvMap::insert,
                (env, name, value),
                (),
            ),
        call_ensures(EnvMap::get, (&after, asked), found),
    ensures
        asked@ == name@ ==> found is Some && found->0@ == value@,
        asked@ != name@ ==> (found is Some <==> before@.contains_key(asked@)),
        asked@ != name@ && found is Some ==> found->0@ == before@[asked@],
{
}

/// After the variables of another environment were laid over it, an environment has
/// the other's value of a variable that the other has, and its own of any further
/// one.
pub proof fn law_laid_over_variables_win(
    before: EnvMap,
    other: EnvMap,
    after: EnvMap,
    name: Seq<char>,
)
    requires
        exists|env: &mut EnvMap|
            *env == before && *final(env) == after && #[trigger] call_ensures(
                EnvMap::extend,
                (env, &other),
                (),
            ),
    ensures
        after@.contains_key(name) <==> other@.contains_key(name) || before@.contains_key(name),
        other@.contains_key(name) ==> after@[name] == other@[name],
        before@.contains_key(name) && !other@.contains_key(name) ==> after@[name] == before@[name],
{
}

/// A variable differs from a base exactly if the base does not have it or has
/// another value of it. It is kept with its own value.
pub proof fn law_differing_variables_are_kept(
    env: EnvMap,
    base: EnvMap,
    kept: EnvMap,
    name: Seq<char>,
)
    requires
        call_ensures(EnvMap::differing_from, (&env, &base), kept),
    ensures
        kept@.contains_key(name) <==> env@.contains_key(name) && (!base@.contains_key(name)
            || base@[name] != env@[name]),
        kept@.contains_key(name) ==> kept@[name] == env@[name],
{
}

/// A copy of an environment has the same variables with the same values, and a new
/// one has none.
pub proof fn law_copied_environment_is_the_same(
    env: EnvMap,
    copy: EnvMap,
    fresh: EnvMap,
    name: Seq<char>,
)
    requires
        call_ensures(EnvMap::clone, (&env,), copy),
        call_ensures(EnvMap::new, (), fresh),
    ensures
        copy@.contains_key(name) <==> env@.contains_key(name),
        env@.contains_key(name) ==> copy@[name] == env@[name],
        !fresh@.contains_key(name),
{
}

} // verus!
