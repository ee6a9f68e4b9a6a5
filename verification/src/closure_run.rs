//! What the resolver has recorded when it is done, if every lookup of a
//! name answers as one fixed world of libraries does.

use crate::closure::ClosureText;
use crate::closure::LookupText;
use crate::closure::first_pending;
use crate::closure::lemma_first_pending_is_pending;
use crate::closure::names_with;
use crate::closure::resolved;
use vstd::prelude::*;

verus! {

/// In `world`, the library `name` exists and needs the library `other`.
pub open spec fn needs(
    world: spec_fn(Seq<char>) -> LookupText,
    name: Seq<char>,
    other: Seq<char>,
) -> bool {
    match world(name) {
        Some(library) => library.1.contains(other),
        None => false,
    }
}

/// The libraries that `world` has for the names from position `from` up
/// to, not including, `to`: each with its name and its path, in the order
/// of the names.
pub open spec fn found_among(
    names: Seq<Seq<char>>,
    world: spec_fn(Seq<char>) -> LookupText,
    from: int,
    to: int,
) -> Seq<(Seq<char>, Seq<char>)>
    decreases to - from,
{
    if to <= from {
        seq![]
    } else {
        found_among(names, world, from, to - 1) + match world(names[to - 1]) {
            Some(library) => seq![(names[to - 1], library.0)],
            None => seq![],
        }
    }
}

/// The name at position `i` is there for a reason: the built library needs
/// it, or a library that was found before it needs it.
pub open spec fn supported(
    state: ClosureText,
    platform: int,
    first_needed: Seq<Seq<char>>,
    world: spec_fn(Seq<char>) -> LookupText,
    i: int,
) -> bool {
    first_needed.contains(state.names[i]) || exists|j: int|
        platform <= j < i && j < first_pending(state.processed) && #[trigger] needs(
            world,
            state.names[j],
            state.names[i],
        )
}

/// The state of a resolver that started with `platform` names of the
/// platform image and the names `first_needed`, and whose lookups answered
/// as `world` does: the processed names are those at the front; the
/// libraries found are those that `world` has for the processed names
/// behind the platform's; whatever such a library needs has been seen; and
/// every name behind the platform's is there for a reason.
pub open spec fn settled(
    state: ClosureText,
    platform: int,
    first_needed: Seq<Seq<char>>,
    world: spec_fn(Seq<char>) -> LookupText,
) -> bool {
    let done = first_pending(state.processed);
    &&& 0 <= platform <= done <= state.names.len()
    &&& state.names.len() == state.processed.len()
    &&& forall|i: int|
        0 <= i < state.processed.len() ==> (#[trigger] state.processed[i] <==> i < done)
    &&& state.found == found_among(state.names, world, platform, done)
    &&& forall|i: int, other: Seq<char>|
        platform <= i < done && #[trigger] needs(world, state.names[i], other)
            ==> state.names.contains(other)
    &&& forall|i: int|
        platform <= i < state.names.len() ==> #[trigger] supported(
            state,
            platform,
            first_needed,
            world,
            i,
        )
    &&& forall|k: int|
        0 <= k < first_needed.len() ==> state.names.contains(#[trigger] first_needed[k])
}

/// The state after `steps` lookups that answer as `world` does, or after
/// fewer if no name is left before.
pub open spec fn run(
    state: ClosureText,
    world: spec_fn(Seq<char>) -> LookupText,
    steps: nat,
) -> ClosureText
    decreases steps,
{
    let at = first_pending(state.processed);
    if steps == 0 || !(0 <= at < state.names.len()) {
        state
    } else {
        run(resolved(state, world(state.names[at])), world, (steps - 1) as nat)
    }
}

/// Flags that are set exactly at the front have their first pending
/// position behind that front.
pub proof fn lemma_pending_behind_front(flags: Seq<bool>, done: int)
    requires
        0 <= done <= flags.len(),
        forall|i: int| 0 <= i < flags.len() ==> (#[trigger] flags[i] <==> i < done),
    ensures
        first_pending(flags) == done,
{
    lemma_first_pending_is_pending(flags);
    let first = first_pending(flags);
    if first < done {
        assert(flags[first]);
    } else if first > done {
        assert(flags[done]);
    }
}

/// Noting needed names keeps the names seen where they are, adds every
/// needed name, and adds nothing else.
pub proof fn lemma_names_with(names: Seq<Seq<char>>, needed: Seq<Seq<char>>)
    ensures
        names_with(names, needed).len() >= names.len(),
        forall|i: int| 0 <= i < names.len() ==> #[trigger] names_with(names, needed)[i] == names[i],
        forall|name: Seq<char>|
            names.contains(name) ==> #[trigger] names_with(names, needed).contains(name),
        forall|k: int|
            0 <= k < needed.len() ==> names_with(names, needed).contains(#[trigger] needed[k]),
        forall|i: int|
            names.len() <= i < names_with(names, needed).len() ==> needed.contains(
                #[trigger] names_with(names, needed)[i],
            ),
    decreases needed.len(),
{
    let all = names_with(names, needed);
    if needed.len() == 0 {
        assert forall|name: Seq<char>| names.contains(name) implies all.contains(name) by {}
    } else {
        let front = needed.drop_last();
        let before = names_with(names, front);
        lemma_names_with(names, front);
        assert forall|i: int| 0 <= i < before.len() implies all[i] == before[i] by {}
        assert forall|name: Seq<char>| before.contains(name) implies all.contains(name) by {
            let i = choose|i: int| 0 <= i < before.len() && before[i] == name;
            assert(all[i] == name);
        }
        assert forall|name: Seq<char>| names.contains(name) implies #[trigger] all.contains(
            name,
        ) by {
            assert(before.contains(name));
        }
        assert(all.contains(needed.last())) by {
            if !before.contains(needed.last()) {
                assert(all[before.len() as int] == needed.last());
            }
        }
        assert forall|k: int| 0 <= k < needed.len() implies all.contains(#[trigger] needed[k]) by {
            if k < front.len() {
                assert(front[k] == needed[k]);
                assert(before.contains(front[k]));
            }
        }
        assert forall|i: int| names.len() <= i < all.len() implies needed.contains(
            #[trigger] all[i],
        ) by {
            if i < before.len() {
                assert(front.contains(before[i]));
                let k = choose|k: int| 0 <= k < front.len() && front[k] == before[i];
                assert(needed[k] == all[i]);
            } else {
                assert(needed[needed.len() - 1] == all[i]);
            }
        }
    }
}

/// The libraries found among names do not change when names are added
/// behind them.
pub proof fn lemma_found_among_front(
    names: Seq<Seq<char>>,
    longer: Seq<Seq<char>>,
    world: spec_fn(Seq<char>) -> LookupText,
    from: int,
    to: int,
)
    requires
        0 <= from,
        to <= names.len() <= longer.len(),
        forall|i: int| 0 <= i < names.len() ==> longer[i] == names[i],
    ensures
        found_among(longer, world, from, to) == found_among(names, world, from, to),
    decreases to - from,
{
    if to > from {
        lemma_found_among_front(names, longer, world, from, to - 1);
    }
}

/// A resolver is settled when it starts: after the names of the platform
/// image, all marked, come the names that the built library needs, none of
/// them marked, and nothing has been found.
pub proof fn lemma_start_is_settled(
    state: ClosureText,
    platform_names: Seq<Seq<char>>,
    first_needed: Seq<Seq<char>>,
    world: spec_fn(Seq<char>) -> LookupText,
)
    requires
        state.names == names_with(platform_names, first_needed),
        state.processed.len() == state.names.len(),
        forall|i: int|
            0 <= i < state.processed.len() ==> (#[trigger] state.processed[i] <==> i
                < platform_names.len()),
        state.found.len() == 0,
    ensures
        settled(state, platform_names.len() as int, first_needed, world),
{
    let platform = platform_names.len() as int;
    lemma_names_with(platform_names, first_needed);
    lemma_pending_behind_front(state.processed, platform);
    assert(state.found =~= found_among(state.names, world, platform, platform));
    assert forall|i: int| platform <= i < state.names.len() implies #[trigger] supported(
        state,
        platform,
        first_needed,
        world,
        i,
    ) by {
        assert(first_needed.contains(state.names[i]));
    }
}

/// A settled resolver stays settled when the lookup of its next name
/// answers as `world` does.
pub proof fn lemma_resolve_keeps_settled(
    state: ClosureText,
    platform: int,
    first_needed: Seq<Seq<char>>,
    world: spec_fn(Seq<char>) -> LookupText,
)
    requires
        settled(state, platform, first_needed, world),
        first_pending(state.processed) < state.names.len(),
    ensures
        settled(
            resolved(state, world(state.names[first_pending(state.processed)])),
            platform,
            first_needed,
            world,
        ),
{
    let at = first_pending(state.processed);
    let name = state.names[at];
    let next = resolved(state, world(name));
    let marks = state.processed.update(at, true);
    match world(name) {
        Some(library) => {
            let needed = library.1;
            lemma_names_with(state.names, needed);
            assert(next.names == names_with(state.names, needed));
            assert forall|i: int| 0 <= i < next.processed.len() implies (
            #[trigger] next.processed[i] <==> i < at + 1) by {
                if i < state.processed.len() {
                    assert(next.processed[i] == marks[i]);
                    if i != at {
                        assert(state.processed[i] <==> i < at);
                    }
                }
            }
            lemma_pending_behind_front(next.processed, at + 1);
            lemma_found_among_front(state.names, next.names, world, platform, at);
            assert(next.names[at] == name);
            assert(next.found =~= found_among(next.names, world, platform, at + 1));
            assert forall|i: int, other: Seq<char>|
                platform <= i < at + 1 && #[trigger] needs(
                    world,
                    next.names[i],
                    other,
                ) implies next.names.contains(other) by {
                assert(next.names[i] == state.names[i]);
                if i < at {
                    assert(needs(world, state.names[i], other));
                    assert(state.names.contains(other));
                } else {
                    let k = choose|k: int| 0 <= k < needed.len() && needed[k] == other;
                    assert(next.names.contains(needed[k]));
                }
            }
            assert forall|i: int| platform <= i < next.names.len() implies #[trigger] supported(
                next,
                platform,
                first_needed,
                world,
                i,
            ) by {
                if i < state.names.len() {
                    assert(next.names[i] == state.names[i]);
                    assert(supported(state, platform, first_needed, world, i));
                    if !first_needed.contains(state.names[i]) {
                        let j = choose|j: int|
                            platform <= j < i && j < at && #[trigger] needs(
                                world,
                                state.names[j],
                                state.names[i],
                            );
                        assert(next.names[j] == state.names[j]);
                        assert(needs(world, next.names[j], next.names[i]));
                    }
                } else {
                    assert(needed.contains(next.names[i]));
                    assert(needs(world, next.names[at], next.names[i]));
                }
            }
            assert forall|k: int| 0 <= k < first_needed.len() implies next.names.contains(
                #[trigger] first_needed[k],
            ) by {
                assert(state.names.contains(first_needed[k]));
            }
        },
        None => {
            assert forall|i: int| 0 <= i < next.processed.len() implies (
            #[trigger] next.processed[i] <==> i < at + 1) by {
                if i != at {
                    assert(state.processed[i] <==> i < at);
                }
            }
            lemma_pending_behind_front(next.processed, at + 1);
            assert(next.found =~= found_among(next.names, world, platform, at + 1));
            assert forall|i: int, other: Seq<char>|
                platform <= i < at + 1 && #[trigger] needs(
                    world,
                    next.names[i],
                    other,
                ) implies next.names.contains(other) by {
                if i < at {
                    assert(needs(world, state.names[i], other));
                }
            }
            assert forall|i: int| platform <= i < next.names.len() implies #[trigger] supported(
                next,
                platform,
                first_needed,
                world,
                i,
            ) by {
                assert(supported(state, platform, first_needed, world, i));
                if !first_needed.contains(state.names[i]) {
                    let j = choose|j: int|
                        platform <= j < i && j < at && #[trigger] needs(
                            world,
                            state.names[j],
                            state.names[i],
                        );
                    assert(needs(world, next.names[j], next.names[i]));
                }
            }
        },
    }
}

/// A settled resolver stays settled over any number of lookups.
pub proof fn lemma_run_keeps_settled(
    state: ClosureText,
    platform: int,
    first_needed: Seq<Seq<char>>,
    world: spec_fn(Seq<char>) -> LookupText,
    steps: nat,
)
    requires
        settled(state, platform, first_needed, world),
    ensures
        settled(run(state, world, steps), platform, first_needed, world),
    decreases steps,
{
    let at = first_pending(state.processed);
    if steps > 0 && 0 <= at < state.names.len() {
        lemma_resolve_keeps_settled(state, platform, first_needed, world);
        lemma_run_keeps_settled(
            resolved(state, world(state.names[at])),
            platform,
            first_needed,
            world,
            (steps - 1) as nat,
        );
    }
}

/// What a resolver has recorded when no name is left to look up: the
/// libraries that exist for the names behind the platform's, each once and
/// in the order of the names; every library that one of them needs has been
/// seen; and nothing has been seen that neither the built library nor a
/// library found needs.
pub proof fn lemma_finished_closure_is_complete(
    state: ClosureText,
    platform: int,
    first_needed: Seq<Seq<char>>,
    world: spec_fn(Seq<char>) -> LookupText,
)
    requires
        settled(state, platform, first_needed, world),
        first_pending(state.processed) == state.names.len(),
    ensures
        state.found == found_among(state.names, world, platform, state.names.len() as int),
        forall|k: int|
            0 <= k < first_needed.len() ==> state.names.contains(#[trigger] first_needed[k]),
        forall|i: int, other: Seq<char>|
            platform <= i < state.names.len() && #[trigger] needs(world, state.names[i], other)
                ==> state.names.contains(other),
        forall|i: int|
            platform <= i < state.names.len() ==> first_needed.contains(
                #[trigger] state.names[i],
            ) || exists|j: int|
                platform <= j < i && #[trigger] needs(world, state.names[j], state.names[i]),
{
    assert forall|i: int| platform <= i < state.names.len() implies first_needed.contains(
        #[trigger] state.names[i],
    ) || exists|j: int|
        platform <= j < i && #[trigger] needs(world, state.names[j], state.names[i]) by {
        assert(supported(state, platform, first_needed, world, i));
    }
}

} // verus!
