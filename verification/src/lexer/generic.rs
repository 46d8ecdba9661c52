//! The engine: matchers react to characters, rules make matchers, and the
//! token iterator runs them for the longest match.

use vstd::prelude::*;

pub mod matcher;
use crate::vectors::reversed;
use vstd::string::StringSliceAdditionalSpecFns;

verus! {

/// What a matcher answers to a character.
pub enum State<T> {
    /// No further character can bring a match.
    Rejected,
    /// More characters are needed.
    Matching,
    /// The characters before this one make a token.
    Matched(T),
    /// The matcher is at odds with itself: the characters before this one
    /// make more than one token.
    Broken,
}

impl<T: View> View for State<T> {
    type V = State<T::V>;

    open spec fn view(&self) -> State<T::V> {
        match self {
            State::Rejected => State::Rejected,
            State::Matching => State::Matching,
            State::Matched(t) => State::Matched(t@),
            State::Broken => State::Broken,
        }
    }
}

/// A character of the input, or its end.
#[derive(Copy, Clone)]
pub enum Char {
    Char(char),
    EOF,
}

/// A state machine over characters that recognises one kind of token.
pub trait Matcher<T: View>: View + Sized {
    /// What holds of a matcher between calls.
    spec fn wf(&self) -> bool;

    /// The state after a character and the answer to it.
    spec fn step(state: Self::V, c: Char) -> (Self::V, State<T::V>);

    /// The state after a reset.
    spec fn cleared(state: Self::V) -> Self::V;

    /// Reacts to a character. The end of the input is never answered with
    /// `Matching`.
    fn check(&mut self, c: Char) -> (answer: State<T>)
        requires
            old(self).wf(),
        ensures
            final(self).wf(),
            final(self)@ == Self::step(old(self)@, c).0,
            answer@ == Self::step(old(self)@, c).1,
            c is EOF ==> !(answer is Matching),
    ;

    /// Makes the matcher ready for the next token.
    fn reset(&mut self)
        requires
            old(self).wf(),
        ensures
            final(self).wf(),
            final(self)@ == Self::cleared(old(self)@),
    ;
}

/// A matcher with its last answer.
pub struct MatcherState<T, M> {
    pub matcher: M,
    pub last: State<T>,
}

impl<T: View, M: Matcher<T>> View for MatcherState<T, M> {
    type V = (M::V, State<T::V>);

    open spec fn view(&self) -> (M::V, State<T::V>) {
        (self.matcher@, self.last@)
    }
}

impl<T: View, M: Matcher<T>> MatcherState<T, M> {
    pub fn new(matcher: M) -> (state: Self)
        ensures
            state.matcher == matcher,
            state.last == State::<T>::Matching,
    {
        MatcherState { matcher, last: State::Matching }
    }

    pub fn check(&mut self, c: Char)
        requires
            old(self).matcher.wf(),
        ensures
            final(self).matcher.wf(),
            final(self)@ == M::step(old(self).matcher@, c),
            c is EOF ==> !(final(self).last is Matching),
    {
        self.last = self.matcher.check(c);
    }

    pub fn reset(&mut self)
        requires
            old(self).matcher.wf(),
        ensures
            final(self).matcher.wf(),
            final(self)@ == (M::cleared(old(self).matcher@), State::<T::V>::Matching),
    {
        self.last = State::Matching;
        self.matcher.reset();
    }
}

/// A maker of matchers: each token attempt may ask it for a fresh one.
pub trait MatchRule<T: View>: Sized {
    type Output: Matcher<T>;

    /// The state of the matchers that the rule makes.
    spec fn fresh(&self) -> <Self::Output as View>::V;

    fn get(&mut self) -> (matcher: Self::Output)
        ensures
            matcher.wf(),
            matcher@ == old(self).fresh(),
            final(self).fresh() == old(self).fresh(),
    ;
}

/// A test on characters that are dropped before a token.
pub trait Skip: Sized {
    /// Whether the character is dropped.
    spec fn skips(&self, c: char) -> bool;

    fn is_skipping(&mut self, c: char) -> (skipping: bool)
        ensures
            skipping == old(self).skips(c),
            *final(self) == *old(self),
    ;
}

/// A maker of skips.
pub trait SkipRule: Sized {
    type Output: Skip;

    /// Whether the skips that the rule makes drop the character.
    spec fn skips(&self, c: char) -> bool;

    fn get(&mut self) -> (skip: Self::Output)
        ensures
            forall|c: char| skip.skips(c) == old(self).skips(c),
            forall|c: char| final(self).skips(c) == old(self).skips(c),
    ;
}

/// An ordered list of rules and what to skip between tokens.
pub struct Lexer<T, R, S> {
    pub rules: Vec<R>,
    pub skip: Option<S>,
    pub token: core::marker::PhantomData<T>,
}

impl<T: View, R: MatchRule<T>, S: SkipRule> Lexer<T, R, S> {
    pub fn new() -> (lexer: Self)
        ensures
            lexer.rules@.len() == 0,
            lexer.skip is None,
    {
        Lexer { rules: Vec::new(), skip: None, token: core::marker::PhantomData }
    }

    pub fn new_filled(rules: Vec<R>, skip: S) -> (lexer: Self)
        ensures
            lexer.rules == rules,
            lexer.skip == Some(skip),
    {
        Lexer { rules, skip: Some(skip), token: core::marker::PhantomData }
    }

    pub fn with_skip(&mut self, rule: S)
        ensures
            final(self).rules == old(self).rules,
            final(self).skip == Some(rule),
    {
        self.skip = Some(rule);
    }

    pub fn push_front(&mut self, rule: R)
        ensures
            final(self).rules@ == old(self).rules@.insert(0, rule),
            final(self).skip == old(self).skip,
    {
        self.rules.insert(0, rule);
    }

    pub fn push_back(&mut self, rule: R)
        ensures
            final(self).rules@ == old(self).rules@.push(rule),
            final(self).skip == old(self).skip,
    {
        self.rules.push(rule);
    }
}

/// What reading one item of the input gave: a character, or nothing where
/// the reader failed.
pub open spec fn read_view(item: std::result::Result<char, std::io::Error>) -> Option<char> {
    match item {
        Ok(c) => Some(c),
        Err(_) => None,
    }
}

/// The input that a stack of items still holds, the top first.
pub open spec fn pending_view(pending: Seq<std::result::Result<char, std::io::Error>>) -> Seq<Option<char>> {
    Seq::new(pending.len(), |i: int| read_view(pending[pending.len() - 1 - i]))
}

/// What one reading finds: the character pushed back, else the next item
/// of the input, else the end. `None` stands for a failure of the reader.
pub open spec fn read_char(prev: Option<Char>, rest: Seq<Option<char>>) -> Option<Char> {
    match prev {
        Some(c) => Some(c),
        None => if rest.len() == 0 {
            Some(Char::EOF)
        } else {
            match rest[0] {
                Some(c) => Some(Char::Char(c)),
                None => None,
            }
        },
    }
}

/// The input that one reading leaves.
pub open spec fn read_rest(prev: Option<Char>, rest: Seq<Option<char>>) -> Seq<Option<char>> {
    if prev is Some || rest.len() == 0 {
        rest
    } else {
        rest.skip(1)
    }
}

/// The slots after a reset: every matcher cleared and waiting.
pub open spec fn cleared_slots<T: View, M: Matcher<T>>(matchers: Seq<M::V>) -> Seq<(M::V, State<T::V>)> {
    Seq::new(matchers.len(), |i: int| (M::cleared(matchers[i]), State::<T::V>::Matching))
}

/// The slots after the first `n` of them were offered the character: a
/// matcher that had rejected is passed over, any other takes a step.
pub open spec fn offered<T: View, M: Matcher<T>>(
    slots: Seq<(M::V, State<T::V>)>,
    c: Char,
    n: nat,
) -> Seq<(M::V, State<T::V>)>
    decreases n,
{
    if n == 0 || n > slots.len() {
        slots
    } else {
        let before = offered::<T, M>(slots, c, (n - 1) as nat);
        if before[n - 1].1 is Rejected {
            before
        } else {
            before.update(n - 1, M::step(before[n - 1].0, c))
        }
    }
}

/// What the answers to one character come to.
pub struct Tally {
    /// Some matcher still needs characters.
    pub active: bool,
    /// Some matcher has matched, and counts.
    pub matched: bool,
    /// A matcher matched behind one in rule order that still needs
    /// characters: the rules are at odds.
    pub broken: bool,
    /// A matcher answered that it is at odds with itself.
    pub ambiguous: bool,
}

/// The tally of the answers of the first `n` slots to the character. The
/// first answer other than a rejection decides: if it asks for more, a
/// later match breaks the grammar; if it is a match, later matches count
/// too. A matcher that is at odds with itself makes the tally ambiguous.
pub open spec fn tally<T: View, M: Matcher<T>>(slots: Seq<(M::V, State<T::V>)>, c: Char, n: nat) -> Tally
    decreases n,
{
    if n == 0 || n > slots.len() {
        Tally { active: false, matched: false, broken: false, ambiguous: false }
    } else {
        let t = tally::<T, M>(slots, c, (n - 1) as nat);
        if slots[n - 1].1 is Rejected {
            t
        } else {
            match M::step(slots[n - 1].0, c).1 {
                State::Rejected => t,
                State::Broken => Tally { ambiguous: true, ..t },
                State::Matching => Tally { active: true, ..t },
                State::Matched(_) => if t.active && !t.matched {
                    Tally { broken: true, ..t }
                } else {
                    Tally { matched: true, ..t }
                },
            }
        }
    }
}

/// How the rounds of one token attempt end.
pub enum Verdict {
    /// Reading failed.
    Failed,
    /// The rules are at odds.
    Broken,
    /// A matcher is at odds with itself.
    Ambiguous,
    /// A matcher matched.
    Matched,
    /// Every matcher gave up.
    Exhausted,
}

/// A token attempt after its rounds.
pub struct Rounds<S> {
    pub slots: S,
    pub rest: Seq<Option<char>>,
    pub last: Char,
    pub verdict: Verdict,
}

/// The rounds of one token attempt: each reads a character and offers it
/// to every matcher, until reading fails, a matcher or the rules are at
/// odds, some matcher matches, or none needs more characters. The end of the input
/// ends the rounds.
pub open spec fn rounds<T: View, M: Matcher<T>>(
    slots: Seq<(M::V, State<T::V>)>,
    prev: Option<Char>,
    rest: Seq<Option<char>>,
) -> Rounds<Seq<(M::V, State<T::V>)>>
    decreases rest.len(), (if prev is Some { 1nat } else { 0nat }),
{
    match read_char(prev, rest) {
        None => Rounds { slots, rest: read_rest(prev, rest), last: Char::EOF, verdict: Verdict::Failed },
        Some(c) => {
            let t = tally::<T, M>(slots, c, slots.len());
            let after = offered::<T, M>(slots, c, slots.len());
            let left = read_rest(prev, rest);
            if t.ambiguous {
                Rounds { slots: after, rest: left, last: c, verdict: Verdict::Ambiguous }
            } else if t.broken {
                Rounds { slots: after, rest: left, last: c, verdict: Verdict::Broken }
            } else if t.matched {
                Rounds { slots: after, rest: left, last: c, verdict: Verdict::Matched }
            } else if t.active && !(c is EOF) {
                rounds::<T, M>(after, None, left)
            } else {
                Rounds { slots: after, rest: left, last: c, verdict: Verdict::Exhausted }
            }
        },
    }
}

/// The first character that the skip lets pass, or the end of the input,
/// with the input behind it; no character where reading failed.
pub open spec fn skipped<K: Skip>(skip: K, prev: Option<Char>, rest: Seq<Option<char>>) -> (
    Option<Char>,
    Seq<Option<char>>,
)
    decreases rest.len(), (if prev is Some { 1nat } else { 0nat }),
{
    match read_char(prev, rest) {
        None => (None, read_rest(prev, rest)),
        Some(Char::EOF) => (Some(Char::EOF), read_rest(prev, rest)),
        Some(Char::Char(c)) => if skip.skips(c) {
            skipped(skip, None, read_rest(prev, rest))
        } else {
            (Some(Char::Char(c)), read_rest(prev, rest))
        },
    }
}

/// The token of the first slot that has matched.
pub open spec fn first_match<MV, TV>(slots: Seq<(MV, State<TV>)>, from: int) -> Option<TV>
    decreases slots.len() - from,
{
    if from < 0 || from >= slots.len() {
        None
    } else {
        match slots[from].1 {
            State::Matched(token) => Some(token),
            _ => first_match(slots, from + 1),
        }
    }
}

/// The states of the matchers of some slots.
pub open spec fn models<MV, TV>(slots: Seq<(MV, State<TV>)>) -> Seq<MV> {
    Seq::new(slots.len(), |i: int| slots[i].0)
}

/// What a token iterator holds between tokens.
pub struct Stream<MV, K> {
    /// The states of the matchers, in rule order.
    pub matchers: Seq<MV>,
    /// What is skipped between tokens.
    pub skip: Option<K>,
    /// The input not read yet; `None` stands for a failure of the reader.
    pub rest: Seq<Option<char>>,
    /// The character pushed back.
    pub prev: Option<Char>,
}

/// The message of the error for rules that are at odds.
pub open spec fn broken_message() -> Seq<char> {
    "Unreacheable higher order rule found"@
}

/// The message of the error for a matcher that is at odds with itself.
pub open spec fn ambiguous_message() -> Seq<char> {
    "Matchers of one group compete"@
}

/// The error for an attempt in which every matcher gave up.
pub open spec fn exhausted(last: Char) -> crate::lexer::Fault {
    match last {
        Char::EOF => crate::lexer::Fault::UnexpectedEOF,
        _ => crate::lexer::Fault::UnknownToken(None),
    }
}

/// One token attempt: the matchers are reset; what the skip drops is
/// read over; at the end of the input the stream ends; else the rounds
/// run, and the first matcher in rule order that matched gives the token,
/// the character that ended the match being pushed back. A matcher that
/// is at odds with itself, and rules that are at odds, make the attempt
/// fail as a broken grammar.
pub open spec fn next_token<T: View, M: Matcher<T>, K: Skip>(stream: Stream<M::V, K>) -> (
    Stream<M::V, K>,
    Option<std::result::Result<T::V, crate::lexer::Fault>>,
) {
    let slots = cleared_slots::<T, M>(stream.matchers);
    let start = match stream.skip {
        Some(k) => skipped(k, stream.prev, stream.rest),
        None => (Some(Char::EOF), stream.rest),
    };
    let prev = match stream.skip {
        Some(_) => start.0,
        None => stream.prev,
    };
    if start.0 is None {
        (
            Stream { matchers: models(slots), rest: start.1, prev: None, ..stream },
            Some(Err(crate::lexer::Fault::IO)),
        )
    } else {
        match read_char(prev, start.1) {
            None => (
                Stream { matchers: models(slots), rest: read_rest(prev, start.1), prev: None, ..stream },
                Some(Err(crate::lexer::Fault::IO)),
            ),
            Some(Char::EOF) => (
                Stream {
                    matchers: models(slots),
                    rest: read_rest(prev, start.1),
                    prev: Some(Char::EOF),
                    ..stream
                },
                None,
            ),
            Some(c) => if slots.len() == 0 {
                (
                    Stream {
                        matchers: models(slots),
                        rest: read_rest(prev, start.1),
                        prev: Some(c),
                        ..stream
                    },
                    Some(Err(exhausted(start.0->Some_0))),
                )
            } else {
                let end = rounds::<T, M>(slots, Some(c), read_rest(prev, start.1));
                match end.verdict {
                    Verdict::Failed => (
                        Stream { matchers: models(end.slots), rest: end.rest, prev: None, ..stream },
                        Some(Err(crate::lexer::Fault::IO)),
                    ),
                    Verdict::Broken => (
                        Stream { matchers: models(end.slots), rest: end.rest, prev: None, ..stream },
                        Some(Err(crate::lexer::Fault::BrokenGrammar(Some(broken_message())))),
                    ),
                    Verdict::Ambiguous => (
                        Stream { matchers: models(end.slots), rest: end.rest, prev: None, ..stream },
                        Some(Err(crate::lexer::Fault::BrokenGrammar(Some(ambiguous_message())))),
                    ),
                    Verdict::Exhausted => (
                        Stream { matchers: models(end.slots), rest: end.rest, prev: None, ..stream },
                        Some(Err(exhausted(end.last))),
                    ),
                    Verdict::Matched => (
                        Stream {
                            matchers: models(end.slots),
                            rest: end.rest,
                            prev: Some(end.last),
                            ..stream
                        },
                        match first_match(end.slots, 0) {
                            Some(token) => Some(Ok(token)),
                            None => None,
                        },
                    ),
                }
            },
        }
    }
}

/// The tokens of an input, one asked for after the other.
pub struct TokenIterator<T, M, K> {
    pub matchers: Vec<MatcherState<T, M>>,
    pub skip: Option<K>,
    /// The input not read yet, the next item last.
    pub pending: Vec<std::result::Result<char, std::io::Error>>,
    pub prev: Option<Char>,
}

impl<T: View, M: Matcher<T>, K: Skip> View for TokenIterator<T, M, K> {
    type V = Stream<M::V, K>;

    open spec fn view(&self) -> Stream<M::V, K> {
        Stream {
            matchers: models(self.slots()),
            skip: self.skip,
            rest: pending_view(self.pending@),
            prev: self.prev,
        }
    }
}

/// The view of a result of reading.
pub open spec fn char_view(read: std::result::Result<Char, std::io::Error>) -> Option<Char> {
    match read {
        Ok(c) => Some(c),
        Err(_) => None,
    }
}

impl<T: View, M: Matcher<T>, K: Skip> TokenIterator<T, M, K> {
    /// The matchers with their last answers.
    pub open spec fn slots(&self) -> Seq<(M::V, State<T::V>)> {
        Seq::new(self.matchers@.len(), |i: int| self.matchers@[i]@)
    }

    /// Every matcher is well formed.
    pub open spec fn wf(&self) -> bool {
        forall|i: int| 0 <= i < self.matchers@.len() ==> (#[trigger] self.matchers@[i]).matcher.wf()
    }

    pub fn next_char(&mut self) -> (read: std::result::Result<Char, std::io::Error>)
        ensures
            char_view(read) == read_char(old(self).prev, old(self)@.rest),
            final(self)@.rest == read_rest(old(self).prev, old(self)@.rest),
            final(self).prev is None,
            final(self).matchers == old(self).matchers,
            final(self).skip == old(self).skip,
    {
        let prev = self.prev.take();
        match prev {
            Some(c) => Ok(c),
            None => {
                let ghost before = self.pending@;
                match self.pending.pop() {
                    Some(item) => {
                        assert(pending_view(self.pending@) =~= pending_view(before).skip(1));
                        match item {
                            Ok(c) => Ok(Char::Char(c)),
                            Err(err) => Err(err),
                        }
                    },
                    None => Ok(Char::EOF),
                }
            },
        }
    }

    pub fn reset(&mut self)
        requires
            old(self).wf(),
        ensures
            final(self).wf(),
            final(self).slots() == cleared_slots::<T, M>(old(self)@.matchers),
            final(self).skip == old(self).skip,
            final(self).pending == old(self).pending,
            final(self).prev == old(self).prev,
    {
        let n = self.matchers.len();
        let mut i: usize = 0;
        while i < n
            invariant
                n == self.matchers@.len(),
                n == old(self).matchers@.len(),
                i <= n,
                self.wf(),
                self.skip == old(self).skip,
                self.pending == old(self).pending,
                self.prev == old(self).prev,
                forall|j: int|
                    0 <= j < i ==> (#[trigger] self.matchers@[j])@ == (
                        M::cleared(old(self).matchers@[j].matcher@),
                        State::<T::V>::Matching,
                    ),
                forall|j: int| i <= j < n ==> self.matchers@[j] == old(self).matchers@[j],
            decreases n - i,
        {
            self.matchers[i].reset();
            i = i + 1;
        }
        assert(self.slots() =~= cleared_slots::<T, M>(old(self)@.matchers));
    }

    /// Offers a character to every matcher that has not rejected, and
    /// tallies the answers.
    fn round(&mut self, c: Char) -> (t: Tally)
        requires
            old(self).wf(),
        ensures
            final(self).wf(),
            final(self).slots() == offered::<T, M>(old(self).slots(), c, old(self).slots().len()),
            t == tally::<T, M>(old(self).slots(), c, old(self).slots().len()),
            c is EOF ==> !t.active,
            final(self).skip == old(self).skip,
            final(self).pending == old(self).pending,
            final(self).prev == old(self).prev,
    {
        let n = self.matchers.len();
        let mut t = Tally { active: false, matched: false, broken: false, ambiguous: false };
        let mut i: usize = 0;
        while i < n
            invariant
                n == self.matchers@.len(),
                n == old(self).matchers@.len(),
                i <= n,
                self.wf(),
                self.skip == old(self).skip,
                self.pending == old(self).pending,
                self.prev == old(self).prev,
                self.slots() == offered::<T, M>(old(self).slots(), c, i as nat),
                t == tally::<T, M>(old(self).slots(), c, i as nat),
                forall|j: int| i <= j < n ==> self.matchers@[j] == old(self).matchers@[j],
                c is EOF ==> !t.active,
            decreases n - i,
        {
            let ghost before = self.slots();
            let rejected = match self.matchers[i].last {
                State::Rejected => true,
                _ => false,
            };
            if !rejected {
                self.matchers[i].check(c);
                match self.matchers[i].last {
                    State::Rejected => {},
                    State::Broken => {
                        t.ambiguous = true;
                    },
                    State::Matching => {
                        t.active = true;
                    },
                    State::Matched(_) => {
                        if t.active && !t.matched {
                            t.broken = true;
                        } else {
                            t.matched = true;
                        }
                    },
                }
                assert(self.slots() =~= before.update(i as int, M::step(before[i as int].0, c)));
            } else {
                assert(self.slots() =~= before);
            }
            assert(before[i as int] == old(self).slots()[i as int]);
            i = i + 1;
        }
        t
    }
}

/// The view of what asking for a token gave.
pub open spec fn token_view<T: View>(token: Option<std::result::Result<T, crate::lexer::Error>>) -> Option<
    std::result::Result<T::V, crate::lexer::Fault>,
> {
    match token {
        Some(Ok(t)) => Some(Ok(t@)),
        Some(Err(e)) => Some(Err(e@)),
        None => None,
    }
}

impl<T: View, M: Matcher<T>, K: Skip> TokenIterator<T, M, K> {
    /// Takes the token out of the first matcher that has matched.
    fn take_match(&mut self) -> (token: Option<T>)
        requires
            old(self).wf(),
        ensures
            final(self).wf(),
            match token {
                Some(t) => first_match(old(self).slots(), 0) == Some(t@),
                None => first_match(old(self).slots(), 0) is None,
            },
            final(self)@ == old(self)@,
    {
        let n = self.matchers.len();
        let mut i: usize = 0;
        while i < n
            invariant
                n == self.matchers@.len(),
                i <= n,
                self.wf(),
                *self == *old(self),
                first_match(self.slots(), 0) == first_match(self.slots(), i as int),
            decreases n - i,
        {
            let matched = match self.matchers[i].last {
                State::Matched(_) => true,
                _ => false,
            };
            if matched {
                let ghost before = self.slots();
                let slot = self.matchers.remove(i);
                match slot.last {
                    State::Matched(token) => {
                        self.matchers.insert(i, MatcherState { matcher: slot.matcher, last: State::Matching });
                        assert(models(self.slots()) =~= models(before));
                        assert(before[i as int].1 == State::Matched(token@));
                        return Some(token);
                    },
                    _ => {
                        self.matchers.insert(i, MatcherState { matcher: slot.matcher, last: State::Matching });
                        assert(models(self.slots()) =~= models(before));
                        return None;
                    },
                }
            }
            i = i + 1;
        }
        None
    }

    /// Reads over what the skip drops. The first character that passes,
    /// or the end of the input, is handed back; a failure of the reader
    /// too.
    fn skip_chars(&mut self, skip: &mut K) -> (first: std::result::Result<Char, std::io::Error>)
        ensures
            (char_view(first), final(self)@.rest) == skipped(*old(skip), old(self).prev, old(self)@.rest),
            final(self).prev is None,
            final(self).matchers == old(self).matchers,
            final(self).skip == old(self).skip,
            *final(skip) == *old(skip),
    {
        let mut found: Option<std::result::Result<Char, std::io::Error>> = None;
        while found.is_none()
            invariant
                *skip == *old(skip),
                self.matchers == old(self).matchers,
                self.skip == old(self).skip,
                match found {
                    None => skipped(*skip, self.prev, self@.rest) == skipped(
                        *old(skip),
                        old(self).prev,
                        old(self)@.rest,
                    ),
                    Some(first) => (char_view(first), self@.rest) == skipped(
                        *old(skip),
                        old(self).prev,
                        old(self)@.rest,
                    ) && self.prev is None,
                },
            decreases
                    self@.rest.len(),
                    (if self.prev is Some {
                        1nat
                    } else {
                        0nat
                    }),
                    (if found is None {
                        1nat
                    } else {
                        0nat
                    }),
        {
            match self.next_char() {
                Err(err) => {
                    found = Some(Err(err));
                },
                Ok(c) => match c {
                    Char::EOF => {
                        found = Some(Ok(c));
                    },
                    Char::Char(ch) => {
                        if !skip.is_skipping(ch) {
                            found = Some(Ok(c));
                        }
                    },
                },
            }
        }
        match found {
            Some(first) => first,
            None => Ok(Char::EOF),
        }
    }

    /// Runs the rounds of one token attempt.
    fn run_rounds(&mut self) -> (end: (Verdict, Char, Option<std::io::Error>))
        requires
            old(self).wf(),
        ensures
            final(self).wf(),
            rounds::<T, M>(old(self).slots(), old(self).prev, old(self)@.rest) == (Rounds {
                slots: final(self).slots(),
                rest: final(self)@.rest,
                last: end.1,
                verdict: end.0,
            }),
            end.0 is Failed <==> end.2 is Some,
            final(self).prev is None,
            final(self).skip == old(self).skip,
    {
        let mut verdict: Option<Verdict> = None;
        let mut last = Char::EOF;
        let mut failed: Option<std::io::Error> = None;
        while verdict.is_none()
            invariant
                self.wf(),
                self.skip == old(self).skip,
                failed is Some <==> verdict == Some(Verdict::Failed),
                match verdict {
                    None => rounds::<T, M>(self.slots(), self.prev, self@.rest) == rounds::<T, M>(
                        old(self).slots(),
                        old(self).prev,
                        old(self)@.rest,
                    ),
                    Some(v) => rounds::<T, M>(old(self).slots(), old(self).prev, old(self)@.rest) == (Rounds {
                        slots: self.slots(),
                        rest: self@.rest,
                        last,
                        verdict: v,
                    }) && self.prev is None,
                },
            decreases
                    self@.rest.len(),
                    (if self.prev is Some {
                        1nat
                    } else {
                        0nat
                    }),
                    (if verdict is None {
                        1nat
                    } else {
                        0nat
                    }),
        {
            match self.next_char() {
                Err(err) => {
                    failed = Some(err);
                    last = Char::EOF;
                    verdict = Some(Verdict::Failed);
                },
                Ok(c) => {
                    last = c;
                    let t = self.round(c);
                    if t.ambiguous {
                        verdict = Some(Verdict::Ambiguous);
                    } else if t.broken {
                        verdict = Some(Verdict::Broken);
                    } else if t.matched {
                        verdict = Some(Verdict::Matched);
                    } else if !t.active {
                        verdict = Some(Verdict::Exhausted);
                    }
                },
            }
        }
        match verdict {
            Some(v) => (v, last, failed),
            None => (Verdict::Exhausted, last, failed),
        }
    }

    /// The next token of the input, an error where no rule matches, or
    /// nothing at the end of the input.
    pub fn next(&mut self) -> (token: Option<std::result::Result<T, crate::lexer::Error>>)
        requires
            old(self).wf(),
        ensures
            final(self).wf(),
            (final(self)@, token_view(token)) == next_token::<T, M, K>(old(self)@),
    {
        self.reset();
        let mut last = Char::EOF;
        let skip = self.skip.take();
        match skip {
            Some(mut k) => {
                let first = self.skip_chars(&mut k);
                self.skip = Some(k);
                match first {
                    Err(err) => {
                        return Some(Err(crate::lexer::Error::io(err)));
                    },
                    Ok(c) => {
                        last = c;
                        self.prev = Some(c);
                    },
                }
            },
            None => {},
        }
        match self.next_char() {
            Err(err) => {
                return Some(Err(crate::lexer::Error::io(err)));
            },
            Ok(c) => {
                self.prev = Some(c);
                match c {
                    Char::EOF => {
                        return None;
                    },
                    _ => {},
                }
            },
        }
        if self.matchers.len() == 0 {
            return Some(
                Err(
                    match last {
                        Char::EOF => crate::lexer::Error::unexpected_eof(),
                        _ => crate::lexer::Error::unknown_token(),
                    },
                ),
            );
        }
        let end = self.run_rounds();
        match end.0 {
            Verdict::Failed => match end.2 {
                Some(err) => Some(Err(crate::lexer::Error::io(err))),
                None => None,
            },
            Verdict::Broken => Some(
                Err(crate::lexer::Error::broken_grammar_msg("Unreacheable higher order rule found")),
            ),
            Verdict::Ambiguous => Some(
                Err(crate::lexer::Error::broken_grammar_msg("Matchers of one group compete")),
            ),
            Verdict::Exhausted => Some(
                Err(
                    match end.1 {
                        Char::EOF => crate::lexer::Error::unexpected_eof(),
                        _ => crate::lexer::Error::unknown_token(),
                    },
                ),
            ),
            Verdict::Matched => {
                self.prev = Some(end.1);
                match self.take_match() {
                    Some(token) => Some(Ok(token)),
                    None => None,
                }
            },
        }
    }
}

/// The characters that the bytes hold as UTF-8, in order; `None` stands
/// where bytes could not be read as a character.
pub uninterp spec fn code_points(bytes: Seq<u8>) -> Seq<Option<char>>;

/// The view of the items that decoding gave.
pub open spec fn reads_view(items: Seq<std::result::Result<char, std::io::Error>>) -> Seq<Option<char>> {
    Seq::new(items.len(), |i: int| read_view(items[i]))
}

/// `unicode_reader::CodePoints` over a slice of bytes, its items
/// collected: the characters of the bytes in order, with an error in the
/// place of each run of bytes that is no UTF-8.
#[verifier::external_body]
pub(crate) fn decode(input: &[u8]) -> (items: Vec<std::result::Result<char, std::io::Error>>)
    ensures
        reads_view(items@) == code_points(input@),
{
    unicode_reader::CodePoints::from(input).collect()
}

/// Whether a skip drops what a rule says it drops.
pub open spec fn made_by<S: SkipRule>(skip: Option<S::Output>, rule: Option<S>) -> bool {
    match (skip, rule) {
        (Some(k), Some(r)) => forall|c: char| k.skips(c) == r.skips(c),
        (None, None) => true,
        _ => false,
    }
}

/// The states of the matchers that some rules make.
pub open spec fn fresh_models<T: View, R: MatchRule<T>>(rules: Seq<R>) -> Seq<<R::Output as View>::V> {
    Seq::new(rules.len(), |i: int| rules[i].fresh())
}

impl<T: View, M: Matcher<T>, K: Skip> TokenIterator<T, M, K> {
    /// An iterator over the tokens of the input: a matcher from each rule,
    /// in order, and a skip from the skip rule if there is one.
    pub fn new<R: MatchRule<T, Output = M>, S: SkipRule<Output = K>>(
        rules: &mut Vec<R>,
        skip: &mut Option<S>,
        input: Vec<std::result::Result<char, std::io::Error>>,
    ) -> (tokens: Self)
        ensures
            tokens.wf(),
            tokens@.matchers == fresh_models::<T, R>(old(rules)@),
            tokens@.rest == reads_view(input@),
            tokens@.prev is None,
            made_by::<S>(tokens.skip, *old(skip)),
            made_by::<S>(tokens.skip, *final(skip)),
            fresh_models::<T, R>(final(rules)@) == fresh_models::<T, R>(old(rules)@),
    {
        let n = rules.len();
        let mut matchers: Vec<MatcherState<T, M>> = Vec::new();
        let mut i: usize = 0;
        while i < n
            invariant
                n == rules@.len(),
                n == old(rules)@.len(),
                i <= n,
                matchers@.len() == i,
                forall|j: int| 0 <= j < i ==> (#[trigger] matchers@[j]).matcher.wf(),
                forall|j: int| 0 <= j < i ==> (#[trigger] matchers@[j]).matcher@ == old(rules)@[j].fresh(),
                forall|j: int| 0 <= j < n ==> (#[trigger] rules@[j]).fresh() == old(rules)@[j].fresh(),
            decreases n - i,
        {
            let matcher = rules[i].get();
            matchers.push(MatcherState::new(matcher));
            i = i + 1;
        }
        let made = match skip {
            Some(rule) => Some(rule.get()),
            None => None,
        };
        let pending = reversed(input);
        let tokens = TokenIterator { matchers, skip: made, pending, prev: None };
        assert(tokens@.matchers =~= fresh_models::<T, R>(old(rules)@));
        assert(tokens@.rest =~= reads_view(input@));
        assert(fresh_models::<T, R>(rules@) =~= fresh_models::<T, R>(old(rules)@));
        tokens
    }
}

impl<T: View, R: MatchRule<T>, S: SkipRule> Lexer<T, R, S> {
    /// The tokens of what the bytes hold as UTF-8.
    pub fn parse(&mut self, input: &[u8]) -> (tokens: TokenIterator<T, R::Output, S::Output>)
        ensures
            tokens.wf(),
            tokens@.matchers == fresh_models::<T, R>(old(self).rules@),
            tokens@.rest == code_points(input@),
            tokens@.prev is None,
            made_by::<S>(tokens.skip, old(self).skip),
            made_by::<S>(tokens.skip, final(self).skip),
            fresh_models::<T, R>(final(self).rules@) == fresh_models::<T, R>(old(self).rules@),
    {
        let items = decode(input);
        TokenIterator::new(&mut self.rules, &mut self.skip, items)
    }

    /// The tokens of a string.
    pub fn parse_str(&mut self, string: &str) -> (tokens: TokenIterator<T, R::Output, S::Output>)
        ensures
            tokens.wf(),
            tokens@.matchers == fresh_models::<T, R>(old(self).rules@),
            tokens@.rest == code_points(string.spec_bytes()),
            tokens@.prev is None,
            made_by::<S>(tokens.skip, old(self).skip),
            made_by::<S>(tokens.skip, final(self).skip),
            fresh_models::<T, R>(final(self).rules@) == fresh_models::<T, R>(old(self).rules@),
    {
        self.parse(string.as_bytes())
    }
}

} // verus!
