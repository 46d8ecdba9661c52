//! What holds of every run of the engine.

use vstd::prelude::*;
use crate::lexer::generic::{
    Char, Matcher, Skip, State, Stream, ambiguous_message, cleared_slots, next_token, read_char,
    skipped, tally,
};
use crate::lexer::generic::matcher::{GroupMatcher, GroupState, group_tally};

verus! {

/// At the end of the input there is no token.
pub proof fn no_token_at_the_end<T: View, M: Matcher<T>, K: Skip>(stream: Stream<M::V, K>)
    requires
        stream.rest.len() == 0,
        stream.prev is None,
    ensures
        next_token::<T, M, K>(stream).1 is None,
{
}

/// Once the input has ended it stays ended: asking again gives no token
/// either.
pub proof fn the_end_stays<T: View, M: Matcher<T>, K: Skip>(stream: Stream<M::V, K>)
    requires
        stream.rest.len() == 0,
        stream.prev is None,
    ensures
        next_token::<T, M, K>(next_token::<T, M, K>(stream).0).1 is None,
{
}

/// A character that the skip drops, standing before a token, changes
/// nothing of the token that is read nor of what is left behind it.
pub proof fn skipped_character_is_dropped<T: View, M: Matcher<T>, K: Skip>(
    stream: Stream<M::V, K>,
    skip: K,
    c: char,
)
    requires
        stream.skip == Some(skip),
        stream.prev is None,
        skip.skips(c),
    ensures
        next_token::<T, M, K>(
            Stream { rest: Seq::<Option<char>>::empty().push(Some(c)) + stream.rest, ..stream },
        ) == next_token::<T, M, K>(stream),
{
    let longer = Seq::<Option<char>>::empty().push(Some(c)) + stream.rest;
    assert(longer.skip(1) =~= stream.rest);
    assert(longer[0] == Some(c));
    assert(skipped(skip, None, longer) == skipped(skip, None, stream.rest));
}

/// Without matchers nothing is a token: what is not the end of the input
/// is an error.
pub proof fn no_rules_no_tokens<T: View, M: Matcher<T>, K: Skip>(stream: Stream<M::V, K>)
    requires
        stream.matchers.len() == 0,
    ensures
        !(next_token::<T, M, K>(stream).1 matches Some(Ok(_))),
{
}

/// What the matcher of a slot of a group answers to a character: nothing
/// but a rejection once it is out of play.
pub open spec fn answer<T: View, M: Matcher<T>>(slots: Seq<(M::V, State<T::V>)>, c: Char, k: int) -> State<
    T::V,
> {
    if slots[k].1 is Rejected {
        State::Rejected
    } else {
        M::step(slots[k].0, c).1
    }
}

/// What the tally of a group has found stays found when more matchers
/// are counted.
pub proof fn group_tally_grows<T: View, M: Matcher<T>>(
    slots: Seq<(M::V, State<T::V>)>,
    c: Char,
    n: nat,
    m: nat,
)
    requires
        n <= m <= slots.len(),
    ensures
        group_tally::<T, M>(slots, c, n).conflict ==> group_tally::<T, M>(slots, c, m).conflict,
        group_tally::<T, M>(slots, c, n).matching ==> group_tally::<T, M>(slots, c, m).matching,
        group_tally::<T, M>(slots, c, n).first is Some ==> group_tally::<T, M>(slots, c, m).first
            == group_tally::<T, M>(slots, c, n).first,
    decreases m,
{
    if n < m {
        group_tally_grows::<T, M>(slots, c, n, (m - 1) as nat);
    }
}

/// The tally of a group in which no matcher but the one at `k` has an
/// answer other than a rejection or a wish for more.
pub proof fn group_tally_of_one<T: View, M: Matcher<T>>(
    slots: Seq<(M::V, State<T::V>)>,
    c: Char,
    k: int,
    n: nat,
)
    requires
        n <= slots.len(),
        forall|i: int|
            0 <= i < slots.len() && i != k ==> #[trigger] answer::<T, M>(slots, c, i) is Rejected || answer::<
                T,
                M,
            >(slots, c, i) is Matching,
        0 <= k < slots.len() ==> answer::<T, M>(slots, c, k) is Matched,
    ensures
        !group_tally::<T, M>(slots, c, n).conflict,
        group_tally::<T, M>(slots, c, n).first == if 0 <= k < n {
            Some(answer::<T, M>(slots, c, k)->Matched_0)
        } else {
            None
        },
        group_tally::<T, M>(slots, c, n).matching == exists|i: int|
            0 <= i < n && #[trigger] answer::<T, M>(slots, c, i) is Matching,
    decreases n,
{
    if n > 0 {
        group_tally_of_one::<T, M>(slots, c, k, (n - 1) as nat);
        let last = answer::<T, M>(slots, c, n - 1);
        if n - 1 != k {
            assert(last is Rejected || last is Matching);
        }
        if group_tally::<T, M>(slots, c, n).matching {
            if last is Matching {
            } else {
                let i = choose|i: int| 0 <= i < n - 1 && #[trigger] answer::<T, M>(slots, c, i) is Matching;
                assert(0 <= i < n && answer::<T, M>(slots, c, i) is Matching);
            }
        }
    }
}

/// A group in which two matchers match on one character is at odds with
/// itself.
pub proof fn group_at_odds<T: View, M: Matcher<T>>(state: GroupState<M::V, T::V>, c: Char, i: int, j: int)
    requires
        !state.cooked,
        0 <= i < j < state.slots.len(),
        answer::<T, M>(state.slots, c, i) is Matched,
        answer::<T, M>(state.slots, c, j) is Matched,
    ensures
        GroupMatcher::<T, M>::step(state, c).1 is Broken,
{
    let slots = state.slots;
    assert(group_tally::<T, M>(slots, c, (i + 1) as nat).first is Some || group_tally::<T, M>(
        slots,
        c,
        (i + 1) as nat,
    ).conflict);
    group_tally_grows::<T, M>(slots, c, (i + 1) as nat, j as nat);
    assert(group_tally::<T, M>(slots, c, (j + 1) as nat).conflict);
    group_tally_grows::<T, M>(slots, c, (j + 1) as nat, slots.len());
}

/// A group in which a matcher is at odds with itself is at odds with
/// itself.
pub proof fn group_with_one_at_odds<T: View, M: Matcher<T>>(state: GroupState<M::V, T::V>, c: Char, i: int)
    requires
        !state.cooked,
        0 <= i < state.slots.len(),
        answer::<T, M>(state.slots, c, i) is Broken,
    ensures
        GroupMatcher::<T, M>::step(state, c).1 is Broken,
{
    assert(group_tally::<T, M>(state.slots, c, (i + 1) as nat).conflict);
    group_tally_grows::<T, M>(state.slots, c, (i + 1) as nat, state.slots.len());
}

/// A group in which one matcher matches, and no other matches or is at
/// odds with itself, matches with the token of that matcher.
pub proof fn group_matches_with_one<T: View, M: Matcher<T>>(state: GroupState<M::V, T::V>, c: Char, k: int)
    requires
        !state.cooked,
        0 <= k < state.slots.len(),
        answer::<T, M>(state.slots, c, k) is Matched,
        forall|i: int|
            0 <= i < state.slots.len() && i != k ==> #[trigger] answer::<T, M>(state.slots, c, i) is Rejected
                || answer::<T, M>(state.slots, c, i) is Matching,
    ensures
        GroupMatcher::<T, M>::step(state, c).1 == answer::<T, M>(state.slots, c, k),
{
    group_tally_of_one::<T, M>(state.slots, c, k, state.slots.len());
}

/// A group in which no matcher matches or is at odds with itself needs
/// more characters if one of its matchers does, and rejects if none does.
pub proof fn group_goes_on<T: View, M: Matcher<T>>(state: GroupState<M::V, T::V>, c: Char)
    requires
        !state.cooked,
        forall|i: int|
            0 <= i < state.slots.len() ==> #[trigger] answer::<T, M>(state.slots, c, i) is Rejected || answer::<
                T,
                M,
            >(state.slots, c, i) is Matching,
    ensures
        GroupMatcher::<T, M>::step(state, c).1 == if exists|i: int|
            0 <= i < state.slots.len() && #[trigger] answer::<T, M>(state.slots, c, i) is Matching {
            State::<T::V>::Matching
        } else {
            State::<T::V>::Rejected
        },
{
    group_tally_of_one::<T, M>(state.slots, c, -1, state.slots.len());
}

/// Once a matcher has answered that it is at odds with itself, the tally
/// of a round stays ambiguous.
pub proof fn tally_stays_ambiguous<T: View, M: Matcher<T>>(
    slots: Seq<(M::V, State<T::V>)>,
    c: Char,
    n: nat,
    m: nat,
)
    requires
        n <= m <= slots.len(),
        tally::<T, M>(slots, c, n).ambiguous,
    ensures
        tally::<T, M>(slots, c, m).ambiguous,
    decreases m,
{
    if n < m {
        tally_stays_ambiguous::<T, M>(slots, c, n, (m - 1) as nat);
    }
}

/// Where a matcher is at odds with itself on the first character of a
/// token, the grammar is broken, whatever the other matchers answer.
pub proof fn matcher_at_odds_breaks_the_grammar<T: View, M: Matcher<T>, K: Skip>(
    stream: Stream<M::V, K>,
    c: char,
    k: int,
)
    requires
        read_char(stream.prev, stream.rest) == Some(Char::Char(c)),
        match stream.skip {
            Some(skip) => !skip.skips(c),
            None => true,
        },
        0 <= k < stream.matchers.len(),
        M::step(M::cleared(stream.matchers[k]), Char::Char(c)).1 is Broken,
    ensures
        next_token::<T, M, K>(stream).1 == Some(
            Err::<T::V, crate::lexer::Fault>(crate::lexer::Fault::BrokenGrammar(Some(ambiguous_message()))),
        ),
{
    let slots = cleared_slots::<T, M>(stream.matchers);
    assert(slots[k].1 is Matching);
    assert(tally::<T, M>(slots, Char::Char(c), (k + 1) as nat).ambiguous);
    tally_stays_ambiguous::<T, M>(slots, Char::Char(c), (k + 1) as nat, slots.len());
}

} // verus!
