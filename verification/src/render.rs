//! An environment as lines of text.

use crate::mapping::{assigned, distinct_names, pair_views, Env, Text};
use vstd::prelude::*;

verus! {

/// The line that shows one variable: its name, `=`, its value.
pub open spec fn line(name: Text, value: Text) -> Text {
    name + "="@ + value
}

/// One `NAME=VALUE` line for each variable of `env`, in the order of its
/// listing. Every name of the environment has exactly one line, since the
/// listing holds each name once and makes up the environment.
pub fn render(env: &Env) -> (lines: Vec<String>)
    ensures
        lines.len() == env.listing().len(),
        forall|i: int|
            0 <= i < lines.len() ==> (#[trigger] lines[i])@ == line(
                env.listing()[i].0,
                env.listing()[i].1,
            ),
        distinct_names(env.listing()),
        env@ == assigned(Map::empty(), env.listing()),
{
    let pairs = env.pairs();
    let mut lines: Vec<String> = Vec::new();
    let mut i: usize = 0;
    while i < pairs.len()
        invariant
            i <= pairs.len(),
            lines.len() == i,
            pair_views(pairs@) == env.listing(),
            forall|k: int|
                0 <= k < i ==> (#[trigger] lines[k])@ == line(
                    env.listing()[k].0,
                    env.listing()[k].1,
                ),
        decreases pairs.len() - i,
    {
        let text = pairs[i].0.clone().concat("=").concat(pairs[i].1.as_str());
        assert(pair_views(pairs@)[i as int] == (pairs[i as int].0@, pairs[i as int].1@));
        lines.push(text);
        i += 1;
    }
    lines
}

} // verus!
