//! A client at the socket sees what a caller in the manager's process sees.

use vstd::prelude::*;

use crate::control::{known_state, pair_state, pair_states, states_in};
use crate::ipc::run::{answered, first_missing, is_active_reply, state_pair, Answered, Facts};
use crate::ipc::Asked;
use crate::json::{strings_in, strings_in_text_array};
use crate::manager::ops::dependency_list;
use crate::manager::state::Unit;
use crate::names::normalized;
use crate::text::Text;

verus! {

proof fn none_missing(units: Map<Text, Unit>, names: Seq<Text>)
    requires
        forall|i: int| 0 <= i < names.len() ==> units.contains_key(#[trigger] names[i]),
    ensures
        first_missing(units, names) is None,
    decreases names.len(),
{
    if names.len() > 0 {
        let rest = names.skip(1);
        assert forall|i: int| 0 <= i < rest.len() implies units.contains_key(#[trigger] rest[i]) by {
            assert(rest[i] == names[i + 1]);
        }
        none_missing(units, rest);
    }
}

proof fn states_of_pairs(units: Map<Text, Unit>, names: Seq<Text>)
    requires
        forall|i: int| 0 <= i < names.len() ==> units.contains_key(#[trigger] names[i]),
    ensures
        pair_states(Seq::new(names.len(), |i: int| state_pair(names[i], units[names[i]])))
            == Seq::new(names.len(), |i: int| known_state(units, names[i])),
    decreases names.len(),
{
    let pairs = Seq::new(names.len(), |i: int| state_pair(names[i], units[names[i]]));
    let states = Seq::new(names.len(), |i: int| known_state(units, names[i]));
    if names.len() > 0 {
        let front = names.drop_last();
        assert forall|i: int| 0 <= i < front.len() implies units.contains_key(
            #[trigger] front[i],
        ) by {
            assert(front[i] == names[i]);
        }
        states_of_pairs(units, front);
        assert(pairs.drop_last() =~= Seq::new(
            front.len(),
            |i: int| state_pair(front[i], units[front[i]]),
        ));
        assert(units.contains_key(names[names.len() - 1]));
        assert(pair_state(pairs.last()) == Some(states.last()));
        assert(states =~= Seq::new(front.len(), |i: int| known_state(units, front[i])).push(
            states.last(),
        ));
    } else {
        assert(pair_states(pairs) =~= states);
    }
}

/// The states that a client reads from the reply to `is_active` are those that
/// the manager itself gives, where all names are those of units.
pub proof fn remote_states_are_the_local_ones(units: Map<Text, Unit>, names: Seq<Text>)
    requires
        forall|i: int| 0 <= i < names.len() ==> units.contains_key(#[trigger] names[i]),
    ensures
        is_active_reply(units, names) is Ok,
        states_in(is_active_reply(units, names)->Ok_0) == Seq::new(
            names.len(),
            |i: int| known_state(units, names[i]),
        ),
{
    none_missing(units, names);
    states_of_pairs(units, names);
    reveal_strlit("states");
    reveal_strlit("exit");
    assert("states"@.len() == 6 && "exit"@.len() == 4);
}

/// The names that a client reads from the reply to `list_dependencies` are
/// those that the manager itself lists.
pub proof fn remote_dependencies_are_the_local_ones(
    units: Map<Text, Unit>,
    roots: Seq<Text>,
    name: Text,
    reverse: bool,
    f: Facts,
)
    ensures
        match answered(units, roots, Asked::ListDependencies(name, reverse), f) {
            Answered::Reply(Ok(j)) => strings_in(j) == Some(
                dependency_list(units, f.dirs@, normalized(name), reverse),
            ),
            _ => false,
        },
{
    strings_in_text_array(dependency_list(units, f.dirs@, normalized(name), reverse));
}

} // verus!
