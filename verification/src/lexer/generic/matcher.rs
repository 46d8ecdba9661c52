//! The matchers that the engine ships: for a fixed run of characters, for
//! a run of allowed characters, for integers, and for groups and
//! sequences of matchers.

use vstd::prelude::*;
use crate::chars::{char_lowercase, lowercase};
use crate::lexer::generic::{Char, Matcher, MatcherState, State, offered};
use crate::text::{push_char, same_text};

verus! {

/// A test on characters and on the end of the input.
pub trait CharClass: Sized {
    /// Whether the character is of the class.
    spec fn holds(&self, c: Char) -> bool;

    fn test(&self, c: Char) -> (held: bool)
        ensures
            held == self.holds(c),
    ;
}

/// A maker of the token of a fixed run of characters.
pub trait Maker<T: View>: Sized {
    /// The token made.
    spec fn made(&self) -> T::V;

    fn make(&self) -> (token: T)
        ensures
            token@ == self.made(),
    ;
}

/// A maker of tokens from the characters matched.
pub trait TextMaker<T: View>: Sized {
    /// The token made of the characters.
    spec fn made(&self, text: Seq<char>) -> T::V;

    fn make(&self, text: &str) -> (token: T)
        ensures
            token@ == self.made(text@),
    ;
}

/// A maker of tokens from the number matched.
pub trait NumberMaker<T: View>: Sized {
    /// The token made of the number.
    spec fn made(&self, n: i64) -> T::V;

    fn make(&self, n: i64) -> (token: T)
        ensures
            token@ == self.made(n),
    ;
}

/// Matches a fixed run of characters that no character of a given class
/// follows.
pub struct CharSequenceMatcher<FG, FA> {
    pub chars: Vec<char>,
    pub last: usize,
    pub resf: FG,
    pub allowed: FA,
    pub cooked: bool,
}

/// The state of a [`CharSequenceMatcher`].
pub struct CharSequenceState<FG, FA> {
    pub chars: Seq<char>,
    pub last: nat,
    pub resf: FG,
    pub allowed: FA,
    pub cooked: bool,
}

impl<FG, FA> View for CharSequenceMatcher<FG, FA> {
    type V = CharSequenceState<FG, FA>;

    open spec fn view(&self) -> CharSequenceState<FG, FA> {
        CharSequenceState {
            chars: self.chars@,
            last: self.last as nat,
            resf: self.resf,
            allowed: self.allowed,
            cooked: self.cooked,
        }
    }
}

impl<FG, FA> CharSequenceMatcher<FG, FA> {
    pub fn new(value: &str, resf: FG, allowed: FA) -> (matcher: Self)
        ensures
            matcher@ == (CharSequenceState { chars: value@, last: 0, resf, allowed, cooked: false }),
    {
        let n = value.unicode_len();
        let mut chars: Vec<char> = Vec::new();
        let mut i: usize = 0;
        while i < n
            invariant
                n == value@.len(),
                i <= n,
                chars@ == value@.subrange(0, i as int),
            decreases n - i,
        {
            chars.push(value.get_char(i));
            assert(chars@ =~= value@.subrange(0, i + 1));
            i = i + 1;
        }
        assert(chars@ =~= value@);
        CharSequenceMatcher { chars, last: 0, resf, allowed, cooked: false }
    }
}

impl<T: View, FG: Maker<T>, FA: CharClass> Matcher<T> for CharSequenceMatcher<FG, FA> {
    open spec fn wf(&self) -> bool {
        self.last <= self.chars@.len()
    }

    /// While characters of the run are left, the next one must come, and
    /// anything else is rejected; behind the run, a character of the class
    /// is rejected and any other, or the end of the input, matches.
    open spec fn step(state: CharSequenceState<FG, FA>, c: Char) -> (
        CharSequenceState<FG, FA>,
        State<T::V>,
    ) {
        if state.cooked {
            (state, State::Rejected)
        } else if state.last < state.chars.len() {
            match c {
                Char::EOF => (CharSequenceState { cooked: true, ..state }, State::Rejected),
                Char::Char(c) => if c == state.chars[state.last as int] {
                    (CharSequenceState { last: state.last + 1, ..state }, State::Matching)
                } else {
                    (
                        CharSequenceState { last: state.last + 1, cooked: true, ..state },
                        State::Rejected,
                    )
                },
            }
        } else if !state.allowed.holds(c) {
            (CharSequenceState { cooked: true, ..state }, State::Matched(state.resf.made()))
        } else {
            (CharSequenceState { cooked: true, ..state }, State::Rejected)
        }
    }

    open spec fn cleared(state: CharSequenceState<FG, FA>) -> CharSequenceState<FG, FA> {
        CharSequenceState { last: 0, cooked: false, ..state }
    }

    fn check(&mut self, c: Char) -> (answer: State<T>) {
        if self.cooked {
            return State::Rejected;
        }
        let res = if self.last < self.chars.len() {
            match c {
                Char::EOF => State::Rejected,
                Char::Char(c) => {
                    let target = self.chars[self.last];
                    self.last = self.last + 1;
                    if c == target {
                        State::Matching
                    } else {
                        State::Rejected
                    }
                },
            }
        } else if !self.allowed.test(c) {
            State::Matched(self.resf.make())
        } else {
            State::Rejected
        };
        match res {
            State::Matching => {},
            _ => {
                self.cooked = true;
            },
        }
        res
    }

    fn reset(&mut self) {
        self.last = 0;
        self.cooked = false;
    }
}

/// Matches the longest run of characters of a class.
pub struct AllowedCharMatcher<FG, FA> {
    pub result: String,
    pub resf: FG,
    pub allowed: FA,
    pub cooked: bool,
}

/// The state of an [`AllowedCharMatcher`].
pub struct AllowedCharState<FG, FA> {
    pub result: Seq<char>,
    pub resf: FG,
    pub allowed: FA,
    pub cooked: bool,
}

impl<FG, FA> View for AllowedCharMatcher<FG, FA> {
    type V = AllowedCharState<FG, FA>;

    open spec fn view(&self) -> AllowedCharState<FG, FA> {
        AllowedCharState {
            result: self.result@,
            resf: self.resf,
            allowed: self.allowed,
            cooked: self.cooked,
        }
    }
}

impl<FG, FA> AllowedCharMatcher<FG, FA> {
    pub fn new(resf: FG, allowed: FA) -> (matcher: Self)
        ensures
            matcher@ == (AllowedCharState { result: Seq::empty(), resf, allowed, cooked: false }),
    {
        AllowedCharMatcher { result: String::new(), resf, allowed, cooked: false }
    }
}

impl<T: View, FG: TextMaker<T>, FA: CharClass> Matcher<T> for AllowedCharMatcher<FG, FA> {
    open spec fn wf(&self) -> bool {
        true
    }

    /// A character of the class is taken; what is not of the class ends
    /// the run, which matches unless it is empty. The end of the input
    /// taken for a character of the class is rejected.
    open spec fn step(state: AllowedCharState<FG, FA>, c: Char) -> (AllowedCharState<FG, FA>, State<T::V>) {
        if state.cooked {
            (state, State::Rejected)
        } else if !state.allowed.holds(c) {
            if state.result.len() == 0 {
                (AllowedCharState { cooked: true, ..state }, State::Rejected)
            } else {
                (
                    AllowedCharState { cooked: true, ..state },
                    State::Matched(state.resf.made(state.result)),
                )
            }
        } else {
            match c {
                Char::Char(c) => (
                    AllowedCharState { result: state.result.push(c), ..state },
                    State::Matching,
                ),
                Char::EOF => (AllowedCharState { cooked: true, ..state }, State::Rejected),
            }
        }
    }

    open spec fn cleared(state: AllowedCharState<FG, FA>) -> AllowedCharState<FG, FA> {
        AllowedCharState { result: Seq::empty(), cooked: false, ..state }
    }

    fn check(&mut self, c: Char) -> (answer: State<T>) {
        if self.cooked {
            return State::Rejected;
        }
        let res = if !self.allowed.test(c) {
            if self.result.as_str().unicode_len() == 0 {
                State::Rejected
            } else {
                State::Matched(self.resf.make(self.result.as_str()))
            }
        } else {
            match c {
                Char::Char(c) => {
                    push_char(&mut self.result, c);
                    State::Matching
                },
                Char::EOF => State::Rejected,
            }
        };
        match res {
            State::Matching => {},
            _ => {
                self.cooked = true;
            },
        }
        res
    }

    fn reset(&mut self) {
        self.result = String::new();
        self.cooked = false;
    }
}

/// The digit that a character stands for in a radix of at most 36: the
/// decimal digits stand for themselves, the letters of either case for
/// ten and what follows.
pub open spec fn digit_in(c: char, radix: u32) -> Option<u32> {
    let code = c as u32;
    let digit: u32 = if 48 <= code <= 57 {
        (code - 48) as u32
    } else if 97 <= code <= 122 {
        (code - 97 + 10) as u32
    } else if 65 <= code <= 90 {
        (code - 65 + 10) as u32
    } else {
        36
    };
    if digit < radix {
        Some(digit)
    } else {
        None
    }
}

/// The digit that a character stands for in a radix.
pub fn to_digit(c: char, radix: u32) -> (digit: Option<u32>)
    requires
        radix <= 36,
    ensures
        digit == digit_in(c, radix),
{
    let code = c as u32;
    let digit: u32 = if 48 <= code && code <= 57 {
        code - 48
    } else if 97 <= code && code <= 122 {
        code - 97 + 10
    } else if 65 <= code && code <= 90 {
        code - 65 + 10
    } else {
        36
    };
    if digit < radix {
        Some(digit)
    } else {
        None
    }
}

/// What an integer matcher knows of the radix.
#[derive(Clone, Copy, PartialEq, Eq, Structural)]
pub enum RadixState {
    /// Decimal, no prefix seen.
    Decimal,
    /// A leading zero seen: a prefix may follow.
    Pending,
    /// The radix that a prefix set.
    Fixed(u8),
}

impl RadixState {
    /// The radix in force: ten unless a prefix set another.
    pub open spec fn radix(self) -> u32 {
        match self {
            RadixState::Fixed(r) => r as u32,
            _ => 10,
        }
    }

    pub fn get(&self) -> (radix: u32)
        ensures
            radix == self.radix(),
    {
        match self {
            RadixState::Decimal => 10,
            RadixState::Pending => 10,
            RadixState::Fixed(r) => *r as u32,
        }
    }
}

/// Matches an integer: an optional minus sign, an optional prefix `0b`,
/// `0o` or `0x` in either case, and digits of the radix.
pub struct IntegerMatcher<F> {
    pub radix: RadixState,
    pub cooked: bool,
    pub any: bool,
    pub number: i64,
    pub resf: F,
    pub sign: i64,
}

impl<F> View for IntegerMatcher<F> {
    type V = IntegerMatcher<F>;

    open spec fn view(&self) -> IntegerMatcher<F> {
        *self
    }
}

impl<F> IntegerMatcher<F> {
    pub fn new(resf: F) -> (matcher: Self)
        ensures
            matcher == (IntegerMatcher {
                radix: RadixState::Decimal,
                cooked: false,
                any: false,
                number: 0,
                resf,
                sign: 1,
            }),
    {
        IntegerMatcher { radix: RadixState::Decimal, cooked: false, any: false, number: 0, resf, sign: 1 }
    }

    /// The state of a fresh matcher.
    pub open spec fn new_spec(resf: F) -> Self {
        IntegerMatcher {
            radix: RadixState::Decimal,
            cooked: false,
            any: false,
            number: 0,
            resf,
            sign: 1,
        }
    }

    /// The sequence of one character.
    pub open spec fn single(c: char) -> Seq<char> {
        Seq::<char>::empty().push(c)
    }
}

fn signed(number: i64, sign: i64) -> (n: i64)
    requires
        0 <= number,
        sign == 1 || sign == -1,
    ensures
        n == number * sign,
{
    if sign < 0 {
        -number
    } else {
        number
    }
}

/// The state of an integer matcher that has given its answer.
pub open spec fn integer_done<F>(state: IntegerMatcher<F>) -> IntegerMatcher<F> {
    IntegerMatcher { cooked: true, ..state }
}

impl<T: View, F: NumberMaker<T>> Matcher<T> for IntegerMatcher<F> {
    open spec fn wf(&self) -> bool {
        &&& 0 <= self.number
        &&& self.sign == 1 || self.sign == -1
        &&& self.radix.radix() <= 36
    }

    /// Before any digit a minus sign may come, once; a leading zero lets a
    /// radix prefix follow, and gives 0 if neither a prefix nor a decimal
    /// digit does; digits of the radix are gathered until a character
    /// that is none, or the end of the input, ends the number. A number
    /// that does not fit 64 bits is rejected.
    open spec fn step(state: IntegerMatcher<F>, c: Char) -> (IntegerMatcher<F>, State<T::V>) {
        let r = state.radix.radix();
        if state.cooked {
            (state, State::Rejected)
        } else {
            match c {
                Char::EOF => if state.any {
                    (integer_done(state), State::Matched(state.resf.made((state.number * state.sign) as i64)))
                } else {
                    (integer_done(state), State::Rejected)
                },
                Char::Char(c) => if state.radix == RadixState::Pending {
                    if lowercase(c) == Self::single('b') {
                        (IntegerMatcher { radix: RadixState::Fixed(2), ..state }, State::Matching)
                    } else if lowercase(c) == Self::single('o') {
                        (IntegerMatcher { radix: RadixState::Fixed(8), ..state }, State::Matching)
                    } else if lowercase(c) == Self::single('x') {
                        (IntegerMatcher { radix: RadixState::Fixed(16), ..state }, State::Matching)
                    } else {
                        match digit_in(c, r) {
                            Some(n) => (
                                IntegerMatcher { radix: RadixState::Decimal, number: n as i64, ..state },
                                State::Matching,
                            ),
                            None => (integer_done(state), State::Matched(state.resf.made(0))),
                        }
                    }
                } else if !state.any {
                    if c == '-' {
                        if state.sign < 0 {
                            (integer_done(state), State::Rejected)
                        } else {
                            (IntegerMatcher { sign: -1i64, ..state }, State::Matching)
                        }
                    } else if c == '0' {
                        (
                            IntegerMatcher { any: true, radix: RadixState::Pending, ..state },
                            State::Matching,
                        )
                    } else {
                        match digit_in(c, r) {
                            Some(n) => (
                                IntegerMatcher { any: true, number: n as i64, ..state },
                                State::Matching,
                            ),
                            None => (integer_done(state), State::Rejected),
                        }
                    }
                } else {
                    match digit_in(c, r) {
                        Some(n) => if state.number * r + n <= i64::MAX {
                            (
                                IntegerMatcher { number: (state.number * r + n) as i64, ..state },
                                State::Matching,
                            )
                        } else {
                            (integer_done(state), State::Rejected)
                        },
                        None => (
                            integer_done(state),
                            State::Matched(state.resf.made((state.number * state.sign) as i64)),
                        ),
                    }
                },
            }
        }
    }

    open spec fn cleared(state: IntegerMatcher<F>) -> IntegerMatcher<F> {
        IntegerMatcher {
            radix: RadixState::Decimal,
            cooked: false,
            any: false,
            number: 0,
            sign: 1,
            ..state
        }
    }

    fn check(&mut self, c: Char) -> (answer: State<T>) {
        if self.cooked {
            return State::Rejected;
        }
        let r = self.radix.get();
        let res = match c {
            Char::EOF => {
                if self.any {
                    State::Matched(self.resf.make(signed(self.number, self.sign)))
                } else {
                    State::Rejected
                }
            },
            Char::Char(c) => {
                let pending = match self.radix {
                    RadixState::Pending => true,
                    _ => false,
                };
                if pending {
                    let lower = char_lowercase(c);
                    proof {
                        reveal_strlit("b");
                        reveal_strlit("o");
                        reveal_strlit("x");
                        assert("b"@ =~= Self::single('b'));
                        assert("o"@ =~= Self::single('o'));
                        assert("x"@ =~= Self::single('x'));
                    }
                    if same_text(lower.as_str(), "b") {
                        self.radix = RadixState::Fixed(2);
                        State::Matching
                    } else if same_text(lower.as_str(), "o") {
                        self.radix = RadixState::Fixed(8);
                        State::Matching
                    } else if same_text(lower.as_str(), "x") {
                        self.radix = RadixState::Fixed(16);
                        State::Matching
                    } else {
                        match to_digit(c, r) {
                            Some(n) => {
                                self.radix = RadixState::Decimal;
                                self.number = n as i64;
                                State::Matching
                            },
                            None => State::Matched(self.resf.make(0)),
                        }
                    }
                } else if !self.any {
                    if c == '-' {
                        if self.sign < 0 {
                            State::Rejected
                        } else {
                            self.sign = -1;
                            State::Matching
                        }
                    } else if c == '0' {
                        self.any = true;
                        self.radix = RadixState::Pending;
                        State::Matching
                    } else {
                        match to_digit(c, r) {
                            Some(n) => {
                                self.any = true;
                                self.number = n as i64;
                                State::Matching
                            },
                            None => State::Rejected,
                        }
                    }
                } else {
                    match to_digit(c, r) {
                        Some(n) => {
                            assert(self.number * r <= 9223372036854775807 * 36) by (nonlinear_arith)
                                requires
                                    0 <= self.number <= 9223372036854775807,
                                    0 <= r <= 36,
                            ;
                            assert(0 <= self.number * r) by (nonlinear_arith)
                                requires
                                    0 <= self.number,
                                    0 <= r,
                            ;
                            let wide: i128 = (self.number as i128) * (r as i128) + (n as i128);
                            if wide <= 9223372036854775807i128 {
                                self.number = wide as i64;
                                State::Matching
                            } else {
                                State::Rejected
                            }
                        },
                        None => State::Matched(self.resf.make(signed(self.number, self.sign))),
                    }
                }
            },
        };
        match res {
            State::Matching => {},
            _ => {
                self.cooked = true;
            },
        }
        res
    }

    fn reset(&mut self) {
        self.radix = RadixState::Decimal;
        self.cooked = false;
        self.any = false;
        self.number = 0;
        self.sign = 1;
    }
}

/// Several matchers tried side by side, of which at most one may match.
pub struct GroupMatcher<T, M> {
    pub matchers: Vec<MatcherState<T, M>>,
    pub cooked: bool,
}

/// The state of a [`GroupMatcher`]: its matchers, each with whether it is
/// still in play, and whether the group has given its answer.
pub struct GroupState<MV, TV> {
    pub slots: Seq<(MV, State<TV>)>,
    pub cooked: bool,
}

impl<T: View, M: Matcher<T>> View for GroupMatcher<T, M> {
    type V = GroupState<M::V, T::V>;

    open spec fn view(&self) -> GroupState<M::V, T::V> {
        GroupState {
            slots: Seq::new(self.matchers@.len(), |i: int| self.matchers@[i]@),
            cooked: self.cooked,
        }
    }
}

/// What the answers of the matchers of a group come to.
pub struct GroupTally<TV> {
    /// The token of the first matcher that matched.
    pub first: Option<TV>,
    /// Some matcher needs more characters.
    pub matching: bool,
    /// A second matcher matched, or one is at odds with itself.
    pub conflict: bool,
}

/// The slots of a group after the first `n` of them were offered the
/// character: a matcher that is out of play is passed over, any other
/// takes a step and stays in play only if it needs more characters.
pub open spec fn group_offered<T: View, M: Matcher<T>>(
    slots: Seq<(M::V, State<T::V>)>,
    c: Char,
    n: nat,
) -> Seq<(M::V, State<T::V>)>
    decreases n,
{
    if n == 0 || n > slots.len() {
        slots
    } else {
        let before = group_offered::<T, M>(slots, c, (n - 1) as nat);
        if before[n - 1].1 is Rejected {
            before
        } else {
            before.update(
                n - 1,
                (
                    M::step(before[n - 1].0, c).0,
                    match M::step(before[n - 1].0, c).1 {
                        State::Matching => State::Matching,
                        _ => State::Rejected,
                    },
                ),
            )
        }
    }
}

/// The tally of the answers of the first `n` matchers of a group.
pub open spec fn group_tally<T: View, M: Matcher<T>>(
    slots: Seq<(M::V, State<T::V>)>,
    c: Char,
    n: nat,
) -> GroupTally<T::V>
    decreases n,
{
    if n == 0 || n > slots.len() {
        GroupTally { first: None, matching: false, conflict: false }
    } else {
        let t = group_tally::<T, M>(slots, c, (n - 1) as nat);
        if slots[n - 1].1 is Rejected {
            t
        } else {
            match M::step(slots[n - 1].0, c).1 {
                State::Rejected => t,
                State::Broken => GroupTally { conflict: true, ..t },
                State::Matching => GroupTally { matching: true, ..t },
                State::Matched(token) => if t.first is Some {
                    GroupTally { conflict: true, ..t }
                } else {
                    GroupTally { first: Some(token), ..t }
                },
            }
        }
    }
}

impl<T: View, M: Matcher<T>> GroupMatcher<T, M> {
    pub fn new() -> (group: Self)
        ensures
            group.matchers@.len() == 0,
            !group.cooked,
            group.wf(),
    {
        GroupMatcher { matchers: Vec::new(), cooked: false }
    }

    /// A group of the matchers, in their order.
    pub fn new_matchers(matchers: Vec<M>) -> (group: Self)
        requires
            forall|i: int| 0 <= i < matchers@.len() ==> (#[trigger] matchers@[i]).wf(),
        ensures
            group.wf(),
            !group.cooked,
            group.matchers@.len() == matchers@.len(),
            forall|i: int|
                0 <= i < matchers@.len() ==> (#[trigger] group.matchers@[i]).matcher == matchers@[i]
                    && group.matchers@[i].last == State::<T>::Matching,
    {
        let ghost all = matchers@;
        let mut rest = crate::vectors::reversed(matchers);
        let mut slots: Vec<MatcherState<T, M>> = Vec::new();
        while rest.len() > 0
            invariant
                slots@.len() + rest@.len() == all.len(),
                forall|i: int| 0 <= i < rest@.len() ==> rest@[i] == all[all.len() - 1 - i],
                forall|i: int|
                    0 <= i < slots@.len() ==> (#[trigger] slots@[i]).matcher == all[i] && slots@[i].last
                        == State::<T>::Matching,
            decreases rest@.len(),
        {
            let matcher = rest.pop().unwrap();
            slots.push(MatcherState::new(matcher));
        }
        GroupMatcher { matchers: slots, cooked: false }
    }

    /// Adds a matcher behind the others.
    pub fn add(&mut self, matcher: M)
        requires
            old(self).wf(),
            matcher.wf(),
        ensures
            final(self).wf(),
            final(self).matchers@ == old(self).matchers@.push(
                MatcherState { matcher, last: State::Matching },
            ),
            final(self).cooked == old(self).cooked,
    {
        self.matchers.push(MatcherState::new(matcher));
    }
}

impl<T: View, M: Matcher<T>> Matcher<T> for GroupMatcher<T, M> {
    open spec fn wf(&self) -> bool {
        forall|i: int| 0 <= i < self.matchers@.len() ==> (#[trigger] self.matchers@[i]).matcher.wf()
    }

    /// Every matcher in play takes the character. If exactly one matches,
    /// the group matches with its token; if two do, or one is at odds
    /// with itself, the group is at odds with itself; else the group
    /// needs more characters as long as one of them does.
    open spec fn step(state: GroupState<M::V, T::V>, c: Char) -> (GroupState<M::V, T::V>, State<T::V>) {
        if state.cooked {
            (state, State::Rejected)
        } else {
            let slots = group_offered::<T, M>(state.slots, c, state.slots.len());
            let t = group_tally::<T, M>(state.slots, c, state.slots.len());
            if t.conflict {
                (GroupState { slots, cooked: true }, State::Broken)
            } else {
                match t.first {
                    Some(token) => (GroupState { slots, cooked: true }, State::Matched(token)),
                    None => if t.matching {
                        (GroupState { slots, cooked: false }, State::Matching)
                    } else {
                        (GroupState { slots, cooked: true }, State::Rejected)
                    },
                }
            }
        }
    }

    open spec fn cleared(state: GroupState<M::V, T::V>) -> GroupState<M::V, T::V> {
        GroupState {
            slots: Seq::new(
                state.slots.len(),
                |i: int| (M::cleared(state.slots[i].0), State::<T::V>::Matching),
            ),
            cooked: false,
        }
    }

    fn check(&mut self, c: Char) -> (answer: State<T>) {
        if self.cooked {
            return State::Rejected;
        }
        let n = self.matchers.len();
        let mut first: Option<T> = None;
        let mut matching = false;
        let mut conflict = false;
        let mut i: usize = 0;
        while i < n
            invariant
                n == self.matchers@.len(),
                n == old(self).matchers@.len(),
                i <= n,
                self.wf(),
                !self.cooked,
                self@.slots == group_offered::<T, M>(old(self)@.slots, c, i as nat),
                (GroupTally {
                    first: match first {
                        Some(token) => Some(token@),
                        None => None,
                    },
                    matching,
                    conflict,
                }) == group_tally::<T, M>(old(self)@.slots, c, i as nat),
                forall|j: int| i <= j < n ==> self.matchers@[j] == old(self).matchers@[j],
                c is EOF ==> !matching,
            decreases n - i,
        {
            let ghost before = self@.slots;
            let rejected = match self.matchers[i].last {
                State::Rejected => true,
                _ => false,
            };
            if !rejected {
                let answer = self.matchers[i].matcher.check(c);
                match answer {
                    State::Rejected => {
                        self.matchers[i].last = State::Rejected;
                    },
                    State::Broken => {
                        self.matchers[i].last = State::Rejected;
                        conflict = true;
                    },
                    State::Matching => {
                        self.matchers[i].last = State::Matching;
                        matching = true;
                    },
                    State::Matched(token) => {
                        self.matchers[i].last = State::Rejected;
                        if first.is_some() {
                            conflict = true;
                        } else {
                            first = Some(token);
                        }
                    },
                }
                assert(self@.slots =~= before.update(
                    i as int,
                    (
                        M::step(before[i as int].0, c).0,
                        match M::step(before[i as int].0, c).1 {
                            State::Matching => State::Matching,
                            _ => State::Rejected,
                        },
                    ),
                ));
            } else {
                assert(self@.slots =~= before);
            }
            assert(before[i as int] == old(self)@.slots[i as int]);
            i = i + 1;
        }
        if conflict {
            self.cooked = true;
            State::Broken
        } else {
            match first {
                Some(token) => {
                    self.cooked = true;
                    State::Matched(token)
                },
                None => {
                    if matching {
                        State::Matching
                    } else {
                        self.cooked = true;
                        State::Rejected
                    }
                },
            }
        }
    }

    fn reset(&mut self) {
        self.cooked = false;
        let n = self.matchers.len();
        let mut i: usize = 0;
        while i < n
            invariant
                n == self.matchers@.len(),
                n == old(self).matchers@.len(),
                i <= n,
                self.wf(),
                !self.cooked,
                forall|j: int|
                    0 <= j < i ==> (#[trigger] self.matchers@[j])@ == (
                        M::cleared(old(self).matchers@[j].matcher@),
                        State::<T::V>::Matching,
                    ),
                forall|j: int| i <= j < n ==> self.matchers@[j] == old(self).matchers@[j],
            decreases n - i,
        {
            self.matchers[i].reset();
            i = i + 1;
        }
        assert(self@.slots =~= Self::cleared(old(self)@).slots);
    }
}

/// The kind of an answer.
#[derive(Clone, Copy, PartialEq, Eq, Structural)]
pub enum Answer {
    Rejected,
    Matching,
    Matched,
}

/// Matchers tried one after the other: each token attempt goes to the
/// matcher whose turn it is, and a match passes the turn on.
pub struct SequenceMatcher<M> {
    pub matchers: Vec<M>,
    pub last: usize,
    pub status: Option<Answer>,
    pub cooked: bool,
}

/// The state of a [`SequenceMatcher`].
pub struct SequenceState<MV> {
    pub matchers: Seq<MV>,
    pub last: nat,
    pub status: Option<Answer>,
    pub cooked: bool,
}

impl<M: View> View for SequenceMatcher<M> {
    type V = SequenceState<M::V>;

    open spec fn view(&self) -> SequenceState<M::V> {
        SequenceState {
            matchers: Seq::new(self.matchers@.len(), |i: int| self.matchers@[i]@),
            last: self.last as nat,
            status: self.status,
            cooked: self.cooked,
        }
    }
}

impl<M: View> SequenceMatcher<M> {
    /// Every matcher is well formed, in the sense of a token type.
    pub open spec fn all_wf<T: View>(&self) -> bool where M: Matcher<T> {
        forall|i: int| 0 <= i < self.matchers@.len() ==> (#[trigger] self.matchers@[i]).wf()
    }

    pub fn new() -> (sequence: Self)
        ensures
            sequence.matchers@.len() == 0,
            sequence.last == 0,
            sequence.status is None,
            !sequence.cooked,
    {
        SequenceMatcher { matchers: Vec::new(), last: 0, status: None, cooked: false }
    }

    pub fn new_matchers(matchers: Vec<M>) -> (sequence: Self)
        ensures
            sequence.matchers == matchers,
            sequence.last == 0,
            sequence.status is None,
            !sequence.cooked,
    {
        SequenceMatcher { matchers, last: 0, status: None, cooked: false }
    }

    /// Adds a matcher behind the others.
    pub fn add(&mut self, matcher: M)
        ensures
            final(self).matchers@ == old(self).matchers@.push(matcher),
            final(self).last == old(self).last,
            final(self).status == old(self).status,
            final(self).cooked == old(self).cooked,
    {
        self.matchers.push(matcher);
    }
}

/// The state of a sequence that starts over: the turn goes back to the
/// first matcher and every matcher is cleared.
pub open spec fn sequence_restarted<T: View, M: Matcher<T>>(state: SequenceState<M::V>) -> SequenceState<
    M::V,
> {
    SequenceState {
        matchers: Seq::new(state.matchers.len(), |i: int| M::cleared(state.matchers[i])),
        last: 0,
        status: None,
        cooked: false,
    }
}

impl<M: View> SequenceMatcher<M> {
    fn clear<T: View>(&mut self) where M: Matcher<T>
        requires
            old(self).all_wf::<T>(),
        ensures
            final(self).all_wf::<T>(),
            final(self)@ == sequence_restarted::<T, M>(old(self)@),
    {
        self.last = 0;
        self.cooked = false;
        self.status = None;
        let n = self.matchers.len();
        let mut i: usize = 0;
        while i < n
            invariant
                n == self.matchers@.len(),
                n == old(self).matchers@.len(),
                i <= n,
                self.all_wf::<T>(),
                self.last == 0,
                !self.cooked,
                self.status is None,
                forall|j: int| 0 <= j < i ==> (#[trigger] self.matchers@[j])@ == M::cleared(old(self).matchers@[j]@),
                forall|j: int| i <= j < n ==> self.matchers@[j] == old(self).matchers@[j],
            decreases n - i,
        {
            self.matchers[i].reset();
            i = i + 1;
        }
        assert(self@.matchers =~= sequence_restarted::<T, M>(old(self)@).matchers);
    }
}

impl<T: View, M: Matcher<T>> Matcher<T> for SequenceMatcher<M> {
    open spec fn wf(&self) -> bool {
        self.all_wf::<T>()
    }

    /// The matcher whose turn it is takes the character and its answer is
    /// the answer of the sequence: a match passes the turn on, any other
    /// answer but a wish for more ends the sequence. A sequence that is ended, or out of matchers,
    /// rejects.
    open spec fn step(state: SequenceState<M::V>, c: Char) -> (SequenceState<M::V>, State<T::V>) {
        if state.cooked {
            (SequenceState { status: Some(Answer::Rejected), ..state }, State::Rejected)
        } else if state.last >= state.matchers.len() {
            (
                SequenceState { cooked: true, status: Some(Answer::Rejected), ..state },
                State::Rejected,
            )
        } else {
            let next = M::step(state.matchers[state.last as int], c);
            let matchers = state.matchers.update(state.last as int, next.0);
            match next.1 {
                State::Matched(_) => (
                    SequenceState {
                        matchers,
                        last: state.last + 1,
                        status: Some(Answer::Matched),
                        ..state
                    },
                    next.1,
                ),
                State::Rejected | State::Broken => (
                    SequenceState { matchers, cooked: true, status: Some(Answer::Rejected), ..state },
                    next.1,
                ),
                State::Matching => (
                    SequenceState { matchers, status: Some(Answer::Matching), ..state },
                    next.1,
                ),
            }
        }
    }

    /// A sequence that is ended, out of matchers or in the middle of a
    /// token starts over; one whose last answer was a match goes on with
    /// the next matcher.
    open spec fn cleared(state: SequenceState<M::V>) -> SequenceState<M::V> {
        if state.cooked || state.last >= state.matchers.len() || state.status == Some(
            Answer::Matching,
        ) {
            sequence_restarted::<T, M>(state)
        } else {
            state
        }
    }

    fn check(&mut self, c: Char) -> (answer: State<T>) {
        if self.cooked {
            self.status = Some(Answer::Rejected);
            State::Rejected
        } else if self.last >= self.matchers.len() {
            self.cooked = true;
            self.status = Some(Answer::Rejected);
            State::Rejected
        } else {
            let ghost before = self@.matchers;
            let state = self.matchers[self.last].check(c);
            assert(self@.matchers =~= before.update(
                self.last as int,
                M::step(before[self.last as int], c).0,
            ));
            match state {
                State::Matched(_) => {
                    self.last = self.last + 1;
                    self.status = Some(Answer::Matched);
                },
                State::Rejected | State::Broken => {
                    self.cooked = true;
                    self.status = Some(Answer::Rejected);
                },
                State::Matching => {
                    self.status = Some(Answer::Matching);
                },
            }
            state
        }
    }

    fn reset(&mut self) {
        if self.cooked || self.last >= self.matchers.len() {
            self.clear::<T>();
        } else {
            let matching = match self.status {
                Some(Answer::Matching) => true,
                _ => false,
            };
            if matching {
                self.clear::<T>();
            }
        }
    }
}

} // verus!
