//! The environment of a function: variable names mapped to their values.

use vstd::prelude::*;
use vstd::set_lib::lemma_subset_equality;
use vstd::std_specs::cmp::PartialEqSpecImpl;

verus! {

/// A variable name or value as the contracts see it.
pub type Text = Seq<char>;

/// An environment as the contracts see it.
pub type Variables = Map<Seq<char>, Seq<char>>;

/// The names and values of a sequence of owned pairs.
pub open spec fn pair_views(pairs: Seq<(String, String)>) -> Seq<(Text, Text)> {
    pairs.map_values(|pair: (String, String)| (pair.0@, pair.1@))
}

/// The views of a sequence of owned strings.
pub open spec fn text_views(texts: Seq<String>) -> Seq<Text> {
    texts.map_values(|text: String| text@)
}

/// `base` after each pair of `pairs` has been written into it, first to last.
/// A pair overwrites the value of a name that is already there, so of two
/// pairs with one name the later one stays.
pub open spec fn assigned(base: Variables, pairs: Seq<(Text, Text)>) -> Variables
    decreases pairs.len(),
{
    if pairs.len() == 0 {
        base
    } else {
        assigned(base, pairs.drop_last()).insert(pairs.last().0, pairs.last().1)
    }
}

/// `base` without the names listed in `names`.
pub open spec fn removed(base: Variables, names: Seq<Text>) -> Variables {
    base.remove_keys(names.to_set())
}

/// Whether `name` is the name of one of `pairs`.
pub open spec fn names(pairs: Seq<(Text, Text)>, name: Text) -> bool {
    exists|i: int| 0 <= i < pairs.len() && (#[trigger] pairs[i]).0 == name
}

/// Whether the pair at `i` is the last one in `pairs` with its name.
pub open spec fn is_last_with_name(pairs: Seq<(Text, Text)>, i: int) -> bool {
    &&& 0 <= i < pairs.len()
    &&& forall|j: int| i < j < pairs.len() ==> (#[trigger] pairs[j]).0 != pairs[i].0
}

/// Whether no name occurs twice in `pairs`.
pub open spec fn distinct_names(pairs: Seq<(Text, Text)>) -> bool {
    forall|i: int, j: int|
        0 <= i < j < pairs.len() ==> (#[trigger] pairs[i]).0 != (#[trigger] pairs[j]).0
}

/// Assignment writes exactly the listed names: a name is present afterwards
/// if and only if it was present before or is the name of a pair.
pub proof fn lemma_assigned_names(base: Variables, pairs: Seq<(Text, Text)>, name: Text)
    ensures
        assigned(base, pairs).contains_key(name) <==> base.contains_key(name) || names(
            pairs,
            name,
        ),
    decreases pairs.len(),
{
    if pairs.len() > 0 {
        let front = pairs.drop_last();
        lemma_assigned_names(base, front, name);
        if names(pairs, name) {
            let i = choose|i: int| 0 <= i < pairs.len() && (#[trigger] pairs[i]).0 == name;
            if i < pairs.len() - 1 {
                assert(front[i].0 == name);
            }
        }
        if names(front, name) {
            let i = choose|i: int| 0 <= i < front.len() && (#[trigger] front[i]).0 == name;
            assert(pairs[i].0 == name);
        }
        if pairs.last().0 == name {
            assert(pairs[pairs.len() - 1].0 == name);
        }
    }
}

/// Of several pairs with one name the last one decides the value.
pub proof fn lemma_assigned_last_wins(base: Variables, pairs: Seq<(Text, Text)>, i: int)
    requires
        is_last_with_name(pairs, i),
    ensures
        assigned(base, pairs).contains_key(pairs[i].0),
        assigned(base, pairs)[pairs[i].0] == pairs[i].1,
    decreases pairs.len(),
{
    if i < pairs.len() - 1 {
        let front = pairs.drop_last();
        assert(pairs[pairs.len() - 1].0 != pairs[i].0);
        assert forall|j: int| i < j < front.len() implies (#[trigger] front[j]).0
            != front[i].0 by {
            assert(pairs[j].0 != pairs[i].0);
        }
        lemma_assigned_last_wins(base, front, i);
    }
}

/// Assignment leaves every name alone that no pair mentions.
pub proof fn lemma_assigned_untouched(base: Variables, pairs: Seq<(Text, Text)>, name: Text)
    requires
        !names(pairs, name),
    ensures
        assigned(base, pairs).contains_key(name) == base.contains_key(name),
        assigned(base, pairs)[name] == base[name],
    decreases pairs.len(),
{
    if pairs.len() > 0 {
        let front = pairs.drop_last();
        assert(pairs[pairs.len() - 1].0 != name);
        assert(!names(front, name)) by {
            if names(front, name) {
                let i = choose|i: int| 0 <= i < front.len() && (#[trigger] front[i]).0 == name;
                assert(pairs[i].0 == name);
            }
        }
        lemma_assigned_untouched(base, front, name);
    }
}

/// Writing one more pair at the end is one more insertion.
pub proof fn lemma_assigned_push(base: Variables, pairs: Seq<(Text, Text)>, pair: (Text, Text))
    ensures
        assigned(base, pairs.push(pair)) == assigned(base, pairs).insert(pair.0, pair.1),
{
    assert(pairs.push(pair).drop_last() =~= pairs);
}

/// What a sequence of pairs with distinct names holds when it is read as an
/// environment: its names, each with the value beside it.
proof fn lemma_distinct_holds(pairs: Seq<(Text, Text)>)
    requires
        distinct_names(pairs),
    ensures
        forall|i: int|
            0 <= i < pairs.len() ==> assigned(Map::empty(), pairs).contains_key(
                (#[trigger] pairs[i]).0,
            ) && assigned(Map::empty(), pairs)[pairs[i].0] == pairs[i].1,
        forall|name: Text| #[trigger]
            assigned(Map::empty(), pairs).contains_key(name) <==> names(pairs, name),
        assigned(Map::empty(), pairs).dom().finite(),
        assigned(Map::empty(), pairs).dom().len() == pairs.len(),
    decreases pairs.len(),
{
    let held = assigned(Map::empty(), pairs);
    assert forall|i: int| 0 <= i < pairs.len() implies held.contains_key(
        (#[trigger] pairs[i]).0,
    ) && held[pairs[i].0] == pairs[i].1 by {
        lemma_assigned_last_wins(Map::empty(), pairs, i);
    }
    assert forall|name: Text| #[trigger] held.contains_key(name) <==> names(pairs, name) by {
        lemma_assigned_names(Map::empty(), pairs, name);
    }
    if pairs.len() > 0 {
        let front = pairs.drop_last();
        assert forall|i: int, j: int| 0 <= i < j < front.len() implies (#[trigger] front[i]).0
            != (#[trigger] front[j]).0 by {
            assert(pairs[i].0 != pairs[j].0);
        }
        lemma_distinct_holds(front);
        let before = assigned(Map::empty(), front);
        if before.contains_key(pairs.last().0) {
            let i = choose|i: int|
                0 <= i < front.len() && (#[trigger] front[i]).0 == pairs.last().0;
            assert(pairs[i].0 != pairs[pairs.len() - 1].0);
        }
        assert(held.dom() =~= before.dom().insert(pairs.last().0));
    }
}

/// Replacing the value of one pair changes that name's value and nothing else.
proof fn lemma_same_names_one_value(before: Seq<(Text, Text)>, after: Seq<(Text, Text)>, i: int)
    requires
        distinct_names(before),
        0 <= i < before.len(),
        after.len() == before.len(),
        after[i].0 == before[i].0,
        forall|j: int| 0 <= j < before.len() && j != i ==> after[j] == before[j],
    ensures
        assigned(Map::empty(), after) == assigned(Map::empty(), before).insert(
            after[i].0,
            after[i].1,
        ),
{
    let old_map = assigned(Map::empty(), before);
    let new_map = assigned(Map::empty(), after);
    assert forall|a: int, b: int| 0 <= a < b < after.len() implies after[a].0
        != after[b].0 by {
        assert(before[a].0 != before[b].0);
    }
    lemma_distinct_holds(before);
    lemma_distinct_holds(after);
    let expected = old_map.insert(after[i].0, after[i].1);
    assert forall|name: Text| new_map.contains_key(name) <==> expected.contains_key(name) by {
        if names(after, name) {
            let j = choose|j: int| 0 <= j < after.len() && (#[trigger] after[j]).0 == name;
            assert(before[j].0 == name);
        }
        if names(before, name) {
            let j = choose|j: int| 0 <= j < before.len() && (#[trigger] before[j]).0 == name;
            assert(after[j].0 == name);
        }
    }
    assert forall|name: Text| new_map.contains_key(name) implies new_map[name]
        == expected[name] by {
        let j = choose|j: int| 0 <= j < after.len() && (#[trigger] after[j]).0 == name;
        assert(before[j].0 == name);
        if j != i {
            assert(before[j].0 != before[i].0);
        }
    }
    assert(new_map =~= expected);
}

/// Taking one pair out removes that pair's name and nothing else.
proof fn lemma_without_one_name(before: Seq<(Text, Text)>, i: int)
    requires
        distinct_names(before),
        0 <= i < before.len(),
    ensures
        distinct_names(before.remove(i)),
        assigned(Map::empty(), before.remove(i)) == assigned(Map::empty(), before).remove(
            before[i].0,
        ),
{
    let after = before.remove(i);
    let old_map = assigned(Map::empty(), before);
    let new_map = assigned(Map::empty(), after);
    assert forall|a: int, b: int| 0 <= a < b < after.len() implies after[a].0
        != after[b].0 by {
        let a0 = if a < i { a } else { a + 1 };
        let b0 = if b < i { b } else { b + 1 };
        assert(before[a0].0 != before[b0].0);
    }
    lemma_distinct_holds(before);
    lemma_distinct_holds(after);
    let expected = old_map.remove(before[i].0);
    assert forall|name: Text| new_map.contains_key(name) <==> expected.contains_key(name) by {
        if names(after, name) {
            let j = choose|j: int| 0 <= j < after.len() && (#[trigger] after[j]).0 == name;
            let j0 = if j < i { j } else { j + 1 };
            assert(before[j0].0 == name);
            assert(before[j0].0 != before[i].0);
        }
        if names(before, name) && name != before[i].0 {
            let j = choose|j: int| 0 <= j < before.len() && (#[trigger] before[j]).0 == name;
            let j1 = if j < i { j } else { j - 1 };
            assert(after[j1].0 == name);
        }
    }
    assert forall|name: Text| new_map.contains_key(name) implies new_map[name]
        == expected[name] by {
        let j = choose|j: int| 0 <= j < after.len() && (#[trigger] after[j]).0 == name;
        let j0 = if j < i { j } else { j + 1 };
        assert(before[j0].0 == name);
        assert(before[j0].1 == after[j].1);
    }
    assert(new_map =~= expected);
}

/// The environment variables of a function.
///
/// The view is a finite map from names to values. No name is held twice, and
/// the order in which the pairs are kept says nothing.
#[derive(Debug)]
pub struct Env {
    entries: Vec<(String, String)>,
}

impl View for Env {
    type V = Map<Seq<char>, Seq<char>>;

    closed spec fn view(&self) -> Map<Seq<char>, Seq<char>> {
        assigned(Map::empty(), pair_views(self.entries@))
    }
}

/// The place of `name` among `entries`, if it is there.
fn position(entries: &Vec<(String, String)>, name: &String) -> (found: Option<usize>)
    ensures
        match found {
            Some(i) => i < entries.len() && entries[i as int].0@ == name@,
            None => !names(pair_views(entries@), name@),
        },
{
    let mut i: usize = 0;
    while i < entries.len()
        invariant
            i <= entries.len(),
            forall|j: int| 0 <= j < i ==> entries[j].0@ != name@,
        decreases entries.len() - i,
    {
        if entries[i].0 == *name {
            return Some(i);
        }
        i += 1;
    }
    None
}

impl Env {
    #[verifier::type_invariant]
    spec fn well_formed(self) -> bool {
        distinct_names(pair_views(self.entries@))
    }

    /// The empty environment.
    pub fn new() -> (env: Env)
        ensures
            env@ == Map::<Seq<char>, Seq<char>>::empty(),
    {
        Env { entries: Vec::new() }
    }

    /// How many variables are set.
    pub fn len(&self) -> (count: usize)
        ensures
            self@.dom().finite(),
            count == self@.len(),
    {
        proof {
            use_type_invariant(self);
            lemma_distinct_holds(pair_views(self.entries@));
        }
        self.entries.len()
    }

    /// Whether no variable is set.
    pub fn is_empty(&self) -> (empty: bool)
        ensures
            empty <==> self@ == Map::<Seq<char>, Seq<char>>::empty(),
    {
        proof {
            use_type_invariant(self);
            lemma_distinct_holds(pair_views(self.entries@));
            if self.entries@.len() == 0 {
                assert(self@ =~= Map::<Seq<char>, Seq<char>>::empty());
            } else {
                assert(self@.contains_key(pair_views(self.entries@)[0].0));
            }
        }
        self.entries.len() == 0
    }

    /// The value of `name`, if it is set.
    pub fn get(&self, name: &str) -> (value: Option<&String>)
        ensures
            match value {
                Some(text) => self@.contains_key(name@) && self@[name@] == text@,
                None => !self@.contains_key(name@),
            },
    {
        proof {
            use_type_invariant(self);
            lemma_distinct_holds(pair_views(self.entries@));
        }
        let owned = name.to_owned();
        match position(&self.entries, &owned) {
            Some(i) => {
                assert(pair_views(self.entries@)[i as int].0 == name@);
                Some(&self.entries[i].1)
            },
            None => None,
        }
    }

    /// Whether `name` is set.
    pub fn contains_key(&self, name: &str) -> (present: bool)
        ensures
            present == self@.contains_key(name@),
    {
        self.get(name).is_some()
    }

    /// Sets `name` to `value`, whether or not it was set before, and hands
    /// back the value it had.
    pub fn insert(&mut self, name: String, value: String) -> (previous: Option<String>)
        ensures
            final(self)@ == old(self)@.insert(name@, value@),
            match previous {
                Some(text) => old(self)@.contains_key(name@) && old(self)@[name@] == text@,
                None => !old(self)@.contains_key(name@),
            },
    {
        proof {
            use_type_invariant(&*self);
            lemma_distinct_holds(pair_views(self.entries@));
        }
        let mut entries: Vec<(String, String)> = Vec::new();
        std::mem::swap(&mut entries, &mut self.entries);
        let ghost before = pair_views(entries@);
        let found = position(&entries, &name);
        let previous = match found {
            Some(i) => {
                let text = entries[i].1.clone();
                entries[i] = (name, value);
                proof {
                    let after = pair_views(entries@);
                    assert(before[i as int].0 == name@);
                    assert(after =~= before.update(i as int, (name@, value@)));
                    assert forall|a: int, b: int| 0 <= a < b < after.len() implies after[a].0
                        != after[b].0 by {
                        assert(before[a].0 != before[b].0);
                    }
                    lemma_same_names_one_value(before, after, i as int);
                }
                Some(text)
            },
            None => {
                entries.push((name, value));
                proof {
                    let after = pair_views(entries@);
                    assert(after =~= before.push((name@, value@)));
                    lemma_assigned_push(Map::empty(), before, (name@, value@));
                    assert forall|a: int, b: int| 0 <= a < b < after.len() implies after[a].0
                        != after[b].0 by {
                        if b < before.len() {
                            assert(before[a].0 != before[b].0);
                        } else {
                            assert(before[a].0 != name@);
                        }
                    }
                }
                None
            },
        };
        self.entries = entries;
        previous
    }

    /// Unsets `name` and hands back the value it had. A name that was not set
    /// leaves the environment as it was.
    pub fn remove(&mut self, name: &str) -> (previous: Option<String>)
        ensures
            final(self)@ == old(self)@.remove(name@),
            match previous {
                Some(text) => old(self)@.contains_key(name@) && old(self)@[name@] == text@,
                None => !old(self)@.contains_key(name@),
            },
    {
        proof {
            use_type_invariant(&*self);
            lemma_distinct_holds(pair_views(self.entries@));
        }
        let mut entries: Vec<(String, String)> = Vec::new();
        std::mem::swap(&mut entries, &mut self.entries);
        let ghost before = pair_views(entries@);
        let owned = name.to_owned();
        let found = position(&entries, &owned);
        let previous = match found {
            Some(i) => {
                let pair = entries.remove(i);
                proof {
                    let after = pair_views(entries@);
                    assert(before[i as int].0 == name@);
                    assert(after =~= before.remove(i as int));
                    lemma_without_one_name(before, i as int);
                }
                Some(pair.1)
            },
            None => {
                proof {
                    assert(assigned(Map::empty(), before) =~= assigned(
                        Map::empty(),
                        before,
                    ).remove(name@));
                }
                None
            },
        };
        self.entries = entries;
        previous
    }

    /// The names and values in the order in which they are kept. The order
    /// carries no meaning; it is what [`Env::pairs`] hands out.
    pub closed spec fn listing(&self) -> Seq<(Text, Text)> {
        pair_views(self.entries@)
    }

    /// The variables as pairs of name and value, each name once.
    pub fn pairs(&self) -> (pairs: &Vec<(String, String)>)
        ensures
            pair_views(pairs@) == self.listing(),
            distinct_names(pair_views(pairs@)),
            self@ == assigned(Map::empty(), pair_views(pairs@)),
            self@.dom().finite(),
            pairs.len() == self@.len(),
            forall|i: int|
                0 <= i < pairs.len() ==> self@.contains_key((#[trigger] pairs[i]).0@)
                    && self@[pairs[i].0@] == pairs[i].1@,
            forall|name: Seq<char>| #[trigger]
                self@.contains_key(name) <==> names(pair_views(pairs@), name),
    {
        proof {
            use_type_invariant(self);
            lemma_distinct_holds(pair_views(self.entries@));
            assert forall|i: int| 0 <= i < self.entries.len() implies self@.contains_key(
                (#[trigger] self.entries[i]).0@,
            ) && self@[self.entries[i].0@] == self.entries[i].1@ by {
                assert(pair_views(self.entries@)[i].0 == self.entries[i].0@);
            }
        }
        &self.entries
    }
}

impl Clone for Env {
    /// A copy that sets the same names to the same values.
    fn clone(&self) -> (copy: Env)
        ensures
            copy@ == self@,
    {
        proof {
            use_type_invariant(self);
        }
        let mut entries: Vec<(String, String)> = Vec::new();
        let mut i: usize = 0;
        while i < self.entries.len()
            invariant
                i <= self.entries.len(),
                entries@ == self.entries@.take(i as int),
            decreases self.entries.len() - i,
        {
            entries.push((self.entries[i].0.clone(), self.entries[i].1.clone()));
            assert(entries@ =~= self.entries@.take(i + 1));
            i += 1;
        }
        assert(entries@ =~= self.entries@);
        Env { entries }
    }
}

impl Default for Env {
    /// The empty environment.
    fn default() -> (env: Env)
        ensures
            env@ == Map::<Seq<char>, Seq<char>>::empty(),
    {
        Env::new()
    }
}

impl PartialEq for Env {
    /// Two environments are equal when they set the same names to the same
    /// values, in whatever order they hold them.
    fn eq(&self, other: &Env) -> (equal: bool) {
        let mine = self.pairs();
        if mine.len() != other.len() {
            return false;
        }
        let mut i: usize = 0;
        while i < mine.len()
            invariant
                i <= mine.len(),
                mine.len() == self@.len(),
                self@.dom().finite(),
                other@.dom().finite(),
                self@.len() == other@.len(),
                forall|k: int|
                    0 <= k < mine.len() ==> self@.contains_key((#[trigger] mine[k]).0@)
                        && self@[mine[k].0@] == mine[k].1@,
                forall|name: Seq<char>| #[trigger]
                    self@.contains_key(name) <==> names(pair_views(mine@), name),
                forall|k: int|
                    0 <= k < i ==> other@.contains_key((#[trigger] mine[k]).0@)
                        && other@[mine[k].0@] == mine[k].1@,
            decreases mine.len() - i,
        {
            match other.get(mine[i].0.as_str()) {
                Some(value) => {
                    if *value != mine[i].1 {
                        assert(self@[mine[i as int].0@] != other@[mine[i as int].0@]);
                        return false;
                    }
                },
                None => {
                    assert(self@.contains_key(mine[i as int].0@));
                    return false;
                },
            }
            i += 1;
        }
        proof {
            assert forall|name: Seq<char>| self@.contains_key(name) implies other@.contains_key(
                name,
            ) && other@[name] == self@[name] by {
                let k = choose|k: int|
                    0 <= k < mine.len() && (#[trigger] pair_views(mine@)[k]).0 == name;
                assert(mine[k].0@ == name);
            }
            lemma_subset_equality(self@.dom(), other@.dom());
            assert(self@ =~= other@);
        }
        true
    }
}

impl PartialEqSpecImpl for Env {
    open spec fn obeys_eq_spec() -> bool {
        true
    }

    open spec fn eq_spec(&self, other: &Env) -> bool {
        self@ == other@
    }
}

} // verus!
