//! What holds of the matchers of the language: each reads back the text
//! of its tokens.

use vstd::prelude::*;
use crate::chars::is_alphanumeric;
use crate::lexer::generic::matcher::{CharSequenceState, IntegerMatcher, RadixState, digit_in};
use crate::lexer::generic::{Char, Matcher, State};
use crate::rpc::token::{Literal, Token, TokenView};
use crate::rpc_lexer::matcher::{
    Fixed, Follow, IdentifierMatcher, IdentifierState, Number, WordMatcher, is_word, word,
};
use crate::text::{digit_char, digits};

verus! {

/// The state of the matcher of a fixed word after the first `n`
/// characters of a text.
pub open spec fn word_after(
    state: CharSequenceState<Fixed, Follow>,
    text: Seq<char>,
    n: nat,
) -> CharSequenceState<Fixed, Follow>
    decreases n,
{
    if n == 0 || n > text.len() {
        state
    } else {
        <WordMatcher as Matcher<Token>>::step(word_after(state, text, (n - 1) as nat), Char::Char(text[n - 1])).0
    }
}

/// The matcher of a fixed word takes every character of its word and
/// asks for more.
pub proof fn word_takes_its_text(text: Seq<char>, token: Token, follow: Follow, n: nat)
    requires
        n <= text.len(),
    ensures
        word_after(word(text, token, follow), text, n) == (CharSequenceState {
            last: n,
            ..word(text, token, follow)
        }),
        n > 0 ==> <WordMatcher as Matcher<Token>>::step(
            word_after(word(text, token, follow), text, (n - 1) as nat),
            Char::Char(text[n - 1]),
        ).1 == State::<TokenView>::Matching,
    decreases n,
{
    if n > 0 {
        word_takes_its_text(text, token, follow, (n - 1) as nat);
    }
}

/// At the end of the input, the matcher of a fixed word that has read its
/// word gives the token of the word: a bracket, a separator, an operator,
/// a keyword or the word of a type, alone, is read back as itself.
pub proof fn word_reads_itself(text: Seq<char>, token: Token, follow: Follow)
    ensures
        <WordMatcher as Matcher<Token>>::step(
            word_after(word(text, token, follow), text, text.len()),
            Char::EOF,
        ).1 == State::Matched(token@),
{
    word_takes_its_text(text, token, follow, text.len());
}

/// Before a character that no word goes on with, the matcher of a fixed
/// word that has read its word gives the token of the word.
pub proof fn word_ends_before(text: Seq<char>, token: Token, follow: Follow, next: char)
    requires
        !is_word(Char::Char(next)),
    ensures
        <WordMatcher as Matcher<Token>>::step(
            word_after(word(text, token, follow), text, text.len()),
            Char::Char(next),
        ).1 == State::Matched(token@),
{
    word_takes_its_text(text, token, follow, text.len());
}

/// A word that goes on is not the fixed word: a keyword or the word of a
/// type with a character of a word behind it is rejected.
pub proof fn word_that_goes_on(text: Seq<char>, token: Token, next: char)
    requires
        is_word(Char::Char(next)),
    ensures
        <WordMatcher as Matcher<Token>>::step(
            word_after(word(text, token, Follow::NoWord), text, text.len()),
            Char::Char(next),
        ).1 == State::<TokenView>::Rejected,
{
    word_takes_its_text(text, token, Follow::NoWord, text.len());
}

/// The state of the matcher of identifiers after the first `n` characters
/// of a text.
pub open spec fn identifier_after(state: IdentifierState, text: Seq<char>, n: nat) -> IdentifierState
    decreases n,
{
    if n == 0 || n > text.len() {
        state
    } else {
        <IdentifierMatcher as Matcher<Token>>::step(
            identifier_after(state, text, (n - 1) as nat),
            Char::Char(text[n - 1]),
        ).0
    }
}

/// Whether a text is written as an identifier: a letter or a digit, and
/// then characters of a word.
pub open spec fn identifier_text(text: Seq<char>) -> bool {
    &&& text.len() > 0
    &&& is_alphanumeric(text[0])
    &&& forall|i: int| 0 < i < text.len() ==> is_word(Char::Char(#[trigger] text[i]))
}

/// The matcher of identifiers gathers the characters of an identifier.
pub proof fn identifier_takes_its_text(text: Seq<char>, n: nat)
    requires
        identifier_text(text),
        n <= text.len(),
    ensures
        identifier_after(IdentifierState { current: Seq::empty(), cooked: false }, text, n) == (
        IdentifierState { current: text.subrange(0, n as int), cooked: false }),
    decreases n,
{
    let start = IdentifierState { current: Seq::empty(), cooked: false };
    if n == 0 {
        assert(text.subrange(0, 0) =~= Seq::<char>::empty());
    } else {
        identifier_takes_its_text(text, (n - 1) as nat);
        assert(text.subrange(0, n as int) =~= text.subrange(0, n - 1).push(text[n - 1]));
    }
}

/// At the end of the input, the matcher of identifiers that has read an
/// identifier gives it back.
pub proof fn identifier_reads_itself(text: Seq<char>)
    requires
        identifier_text(text),
    ensures
        <IdentifierMatcher as Matcher<Token>>::step(
            identifier_after(IdentifierState { current: Seq::empty(), cooked: false }, text, text.len()),
            Char::EOF,
        ).1 == State::Matched(TokenView::Identifier(text)),
{
    identifier_takes_its_text(text, text.len());
    assert(text.subrange(0, text.len() as int) =~= text);
}

/// The state of the matcher of integers after the first `n` characters of
/// a text.
pub open spec fn integer_after(state: IntegerMatcher<Number>, text: Seq<char>, n: nat) -> IntegerMatcher<Number>
    decreases n,
{
    if n == 0 || n > text.len() {
        state
    } else {
        <IntegerMatcher<Number> as Matcher<Token>>::step(
            integer_after(state, text, (n - 1) as nat),
            Char::Char(text[n - 1]),
        ).0
    }
}

/// A decimal digit is read back as its value.
pub proof fn digit_read_back(d: nat)
    requires
        d < 10,
    ensures
        digit_in(digit_char(d), 10) == Some(d as u32),
        digit_char(d) != '-',
        digit_char(d) == '0' <==> d == 0,
{
}

/// The decimal digits of a number begin with a zero only if the number is
/// zero, and then they are the zero alone.
pub proof fn digits_lead(n: nat)
    ensures
        digits(n).len() > 0,
        digits(n)[0] == '0' <==> n == 0,
        n == 0 ==> digits(n).len() == 1,
        n < 10 ==> digits(n) == Seq::<char>::empty().push(digit_char(n)),
    decreases n,
{
    if n >= 10 {
        digits_lead(n / 10);
        digit_read_back(n % 10);
    } else {
        digit_read_back(n);
    }
}

/// The matcher of integers gathers the decimal digits of a positive
/// number that fits 64 bits.
pub proof fn integer_takes_digits(start: IntegerMatcher<Number>, n: nat)
    requires
        0 < n <= i64::MAX,
        !start.cooked,
        !start.any,
        start.radix == RadixState::Decimal,
    ensures
        integer_after(start, digits(n), digits(n).len()) == (IntegerMatcher {
            any: true,
            number: n as i64,
            ..start
        }),
    decreases n,
{
    let text = digits(n);
    digits_lead(n);
    if n < 10 {
        digit_read_back(n);
        assert(integer_after(start, text, 0) == start);
    } else {
        let front = digits(n / 10);
        integer_takes_digits(start, n / 10);
        digits_lead(n / 10);
        digit_read_back(n % 10);
        assert(text.len() == front.len() + 1);
        integer_after_prefix(start, front, text, front.len());
        assert(text[text.len() - 1] == digit_char(n % 10));
    }
}

/// The state after characters depends on those characters alone.
pub proof fn integer_after_prefix(start: IntegerMatcher<Number>, front: Seq<char>, text: Seq<char>, n: nat)
    requires
        n <= front.len() <= text.len(),
        forall|i: int| 0 <= i < front.len() ==> front[i] == text[i],
    ensures
        integer_after(start, text, n) == integer_after(start, front, n),
    decreases n,
{
    if n > 0 {
        integer_after_prefix(start, front, text, (n - 1) as nat);
    }
}

/// At the end of the input, the matcher of integers that has read the
/// decimal form of a number that is not negative gives the number back.
pub proof fn integer_reads_itself(n: nat)
    requires
        n <= i64::MAX,
    ensures
        <IntegerMatcher<Number> as Matcher<Token>>::step(
            integer_after(IntegerMatcher::new_spec(Number), digits(n), digits(n).len()),
            Char::EOF,
        ).1 == State::Matched(TokenView::Literal(Literal::Integer(n as i64))),
{
    let start = IntegerMatcher::new_spec(Number);
    let text = digits(n);
    if n == 0 {
        digits_lead(0);
        digit_read_back(0);
        assert(integer_after(start, text, 0) == start);
        assert(text[0] == '0');
        assert(integer_after(start, text, 1) == (IntegerMatcher {
            any: true,
            radix: RadixState::Pending,
            ..start
        }));
    } else {
        integer_takes_digits(start, n);
    }
    let end = integer_after(start, text, text.len());
    assert(end.number * end.sign == n) by (nonlinear_arith)
        requires
            end.number == n,
            end.sign == 1,
    ;
}

/// The state after a character and a text is the state after the text,
/// begun from the state after the character.
pub proof fn integer_after_first(start: IntegerMatcher<Number>, first: char, rest: Seq<char>, n: nat)
    requires
        n <= rest.len(),
    ensures
        integer_after(start, Seq::<char>::empty().push(first) + rest, n + 1) == integer_after(
            <IntegerMatcher<Number> as Matcher<Token>>::step(start, Char::Char(first)).0,
            rest,
            n,
        ),
    decreases n,
{
    let text = Seq::<char>::empty().push(first) + rest;
    if n == 0 {
        assert(integer_after(start, text, 0) == start);
        assert(text[0] == first);
    } else {
        integer_after_first(start, first, rest, (n - 1) as nat);
        assert(text[n as int] == rest[n - 1]);
    }
}

/// At the end of the input, the matcher of integers that has read a minus
/// sign and the decimal form of a positive number gives the negative
/// number back.
pub proof fn negative_integer_reads_itself(n: nat)
    requires
        0 < n <= i64::MAX,
    ensures
        <IntegerMatcher<Number> as Matcher<Token>>::step(
            integer_after(
                IntegerMatcher::new_spec(Number),
                Seq::<char>::empty().push('-') + digits(n),
                digits(n).len() + 1,
            ),
            Char::EOF,
        ).1 == State::Matched(TokenView::Literal(Literal::Integer((-n) as i64))),
{
    let start = IntegerMatcher::new_spec(Number);
    let signed = IntegerMatcher { sign: -1i64, ..start };
    integer_after_first(start, '-', digits(n), digits(n).len());
    integer_takes_digits(signed, n);
    let end = integer_after(signed, digits(n), digits(n).len());
    assert(end.number * end.sign == -n) by (nonlinear_arith)
        requires
            end.number == n,
            end.sign == -1,
    ;
}

} // verus!
