//! Parser combinators over spanned tokens.
//!
//! A parser may be any closure from a token slice to a `ParseResult`, or one
//! of the combinator types below. Each parser states, through `ready` and
//! `outcome`, where it may run and what it may give back; the combinators
//! state theirs in terms of the parsers they are built from.
use vstd::prelude::*;

use std::marker::PhantomData;

use crate::position::Spanned;

verus! {

/// What a parser gives back: the rest of the input and a value, or the input
/// at which it failed.
pub type ParseResult<'a, Input, Output> = Result<(&'a [Spanned<Input>], Output), &'a [Spanned<Input>]>;

/// One item of the input stream.
pub type InputStream<T> = Spanned<T>;

/// A parser of a slice of spanned tokens.
///
/// `ready` says on which inputs `parse` may be called, `outcome` which
/// results it may give there.
pub trait Parser<'a, Input: 'a, Output> where Input: Clone + PartialEq {
    spec fn ready(&self, input: &'a [Spanned<Input>]) -> bool;

    spec fn outcome(&self, input: &'a [Spanned<Input>], result: ParseResult<'a, Input, Output>) -> bool;

    fn parse(&self, input: &'a [Spanned<Input>]) -> (r: ParseResult<'a, Input, Output>)
        requires
            self.ready(input),
        ensures
            self.outcome(input, r),
    ;

    /// This parser with `map_fn` applied to what it gives back.
    fn map<F, NewOutput>(self, map_fn: F) -> (r: BoxedParser<Mapped<Self, F, Output>>) where
        Self: Sized,
        F: Fn(Output) -> NewOutput,

        ensures
            r.parser.parser == self,
            r.parser.map_fn == map_fn,
    {
        BoxedParser::new(Mapped { parser: self, map_fn, marker: PhantomData })
    }

    /// This parser, failing where `pred_fn` rejects what it gives back.
    fn pred<F>(self, pred_fn: F) -> (r: BoxedParser<Pred<Self, F>>) where
        Self: Sized,
        F: Fn(&Output) -> bool,

        ensures
            r.parser.parser == self,
            r.parser.predicate == pred_fn,
    {
        BoxedParser::new(Pred { parser: self, predicate: pred_fn })
    }

    /// This parser, then the parser that `f` makes of what it gave back.
    fn and_then<F, NextParser>(self, f: F) -> (r: BoxedParser<AndThen<Self, F, Output, NextParser>>) where
        Self: Sized,
        F: Fn(Output) -> NextParser,

        ensures
            r.parser.parser == self,
            r.parser.f == f,
    {
        BoxedParser::new(AndThen { parser: self, f, marker: PhantomData })
    }
}

impl<'a, F, Input: 'a, Output> Parser<'a, Input, Output> for F where
    Input: Clone + PartialEq,
    F: Fn(&'a [Spanned<Input>]) -> ParseResult<'a, Input, Output>,
 {
    open spec fn ready(&self, input: &'a [Spanned<Input>]) -> bool {
        call_requires(*self, (input,))
    }

    open spec fn outcome(&self, input: &'a [Spanned<Input>], result: ParseResult<'a, Input, Output>) -> bool {
        call_ensures(*self, (input,), result)
    }

    fn parse(&self, input: &'a [Spanned<Input>]) -> (r: ParseResult<'a, Input, Output>) {
        self(input)
    }
}

/// A parser held in a box.
pub struct BoxedParser<P> {
    pub parser: Box<P>,
}

impl<P> BoxedParser<P> {
    pub fn new(parser: P) -> (r: Self)
        ensures
            r.parser == parser,
    {
        BoxedParser { parser: Box::new(parser) }
    }
}

impl<'a, Input: 'a, Output, P> Parser<'a, Input, Output> for BoxedParser<P> where
    Input: Clone + PartialEq,
    P: Parser<'a, Input, Output>,
 {
    open spec fn ready(&self, input: &'a [Spanned<Input>]) -> bool {
        self.parser.ready(input)
    }

    open spec fn outcome(&self, input: &'a [Spanned<Input>], result: ParseResult<'a, Input, Output>) -> bool {
        self.parser.outcome(input, result)
    }

    fn parse(&self, input: &'a [Spanned<Input>]) -> (r: ParseResult<'a, Input, Output>) {
        self.parser.parse(input)
    }
}

/// Runs two parsers one after the other and keeps both values.
pub struct Pair<P1, P2> {
    pub first: P1,
    pub second: P2,
}

impl<'a, Input: 'a, P1, P2, R1, R2> Parser<'a, Input, (R1, R2)> for Pair<P1, P2> where
    Input: Clone + PartialEq,
    P1: Parser<'a, Input, R1>,
    P2: Parser<'a, Input, R2>,
 {
    open spec fn ready(&self, input: &'a [Spanned<Input>]) -> bool {
        &&& self.first.ready(input)
        &&& forall|rest: &'a [Spanned<Input>], v: R1| #[trigger]
            self.first.outcome(input, Ok((rest, v))) ==> self.second.ready(rest)
    }

    open spec fn outcome(&self, input: &'a [Spanned<Input>], result: ParseResult<'a, Input, (R1, R2)>) -> bool {
        match result {
            Ok((rest, (v1, v2))) => exists|mid: &'a [Spanned<Input>]| #[trigger]
                self.first.outcome(input, Ok((mid, v1))) && self.second.outcome(mid, Ok((rest, v2))),
            Err(at) => self.first.outcome(input, Err(at)) || exists|
                mid: &'a [Spanned<Input>],
                v1: R1,
            | #[trigger] self.first.outcome(input, Ok((mid, v1))) && self.second.outcome(mid, Err(at)),
        }
    }

    fn parse(&self, input: &'a [Spanned<Input>]) -> (r: ParseResult<'a, Input, (R1, R2)>) {
        match self.first.parse(input) {
            Ok((next_input, result1)) => {
                let ghost v1 = result1;
                match self.second.parse(next_input) {
                    Ok((last_input, result2)) => {
                        let r: ParseResult<'a, Input, (R1, R2)> = Ok((last_input, (result1, result2)));
                        assert(r->Ok_0.0 == last_input);
                        assert(r->Ok_0.1.0 == v1);
                        assert(self.outcome(input, r));
                        r
                    },
                    Err(at) => {
                        assert(exists|mid: &'a [Spanned<Input>], w: R1| #[trigger]
                            self.first.outcome(input, Ok((mid, w))) && self.second.outcome(mid, Err(at)));
                        Err(at)
                    },
                }
            },
            Err(at) => Err(at),
        }
    }
}

/// A parser that runs `parser1`, then `parser2` on what is left, and keeps
/// both values.
pub fn pair<'a, Input: 'a, P1, P2, R1, R2>(parser1: P1, parser2: P2) -> (r: Pair<P1, P2>) where
    Input: Clone + PartialEq,
    P1: Parser<'a, Input, R1>,
    P2: Parser<'a, Input, R2>,

    ensures
        r.first == parser1,
        r.second == parser2,
{
    Pair { first: parser1, second: parser2 }
}

/// A parser whose value goes through a function.
pub struct Mapped<P, F, A> {
    pub parser: P,
    pub map_fn: F,
    pub marker: PhantomData<A>,
}

impl<'a, Input: 'a, P, F, A, B> Parser<'a, Input, B> for Mapped<P, F, A> where
    Input: Clone + PartialEq,
    P: Parser<'a, Input, A>,
    F: Fn(A) -> B,
 {
    open spec fn ready(&self, input: &'a [Spanned<Input>]) -> bool {
        &&& self.parser.ready(input)
        &&& forall|rest: &'a [Spanned<Input>], v: A| #[trigger]
            self.parser.outcome(input, Ok((rest, v))) ==> call_requires(self.map_fn, (v,))
    }

    open spec fn outcome(&self, input: &'a [Spanned<Input>], result: ParseResult<'a, Input, B>) -> bool {
        match result {
            Ok((rest, w)) => exists|v: A| #[trigger]
                self.parser.outcome(input, Ok((rest, v))) && call_ensures(self.map_fn, (v,), w),
            Err(at) => self.parser.outcome(input, Err(at)),
        }
    }

    fn parse(&self, input: &'a [Spanned<Input>]) -> (r: ParseResult<'a, Input, B>) {
        match self.parser.parse(input) {
            Ok((next_input, result)) => {
                let ghost v = result;
                let w = (self.map_fn)(result);
                let r: ParseResult<'a, Input, B> = Ok((next_input, w));
                assert(r->Ok_0.0 == next_input);
                assert(r->Ok_0.1 == w);
                assert(self.parser.outcome(input, Ok((next_input, v))) && call_ensures(self.map_fn, (v,), w));
                assert(self.outcome(input, r));
                r
            },
            Err(at) => Err(at),
        }
    }
}

/// A parser that gives back `map_fn` applied to the value of `parser`.
pub fn map<'a, Input: 'a, P, F, A, B>(parser: P, map_fn: F) -> (r: Mapped<P, F, A>) where
    Input: Clone + PartialEq,
    P: Parser<'a, Input, A>,
    F: Fn(A) -> B,

    ensures
        r.parser == parser,
        r.map_fn == map_fn,
{
    Mapped { parser, map_fn, marker: PhantomData }
}

/// Runs two parsers one after the other and keeps the first value.
pub struct Left<P1, P2, R2> {
    pub both: Pair<P1, P2>,
    pub marker: PhantomData<R2>,
}

impl<'a, Input: 'a, P1, P2, R1, R2> Parser<'a, Input, R1> for Left<P1, P2, R2> where
    Input: Clone + PartialEq,
    P1: Parser<'a, Input, R1>,
    P2: Parser<'a, Input, R2>,
 {
    open spec fn ready(&self, input: &'a [Spanned<Input>]) -> bool {
        self.both.ready(input)
    }

    open spec fn outcome(&self, input: &'a [Spanned<Input>], result: ParseResult<'a, Input, R1>) -> bool {
        match result {
            Ok((rest, v1)) => exists|v2: R2| #[trigger] self.both.outcome(input, Ok((rest, (v1, v2)))),
            Err(at) => self.both.outcome(input, Err(at)),
        }
    }

    fn parse(&self, input: &'a [Spanned<Input>]) -> (r: ParseResult<'a, Input, R1>) {
        match self.both.parse(input) {
            Ok((rest, (v1, v2))) => {
                let ghost g2 = v2;
                let ghost g1 = v1;
                let r: ParseResult<'a, Input, R1> = Ok((rest, v1));
                assert(r->Ok_0.0 == rest);
                assert(r->Ok_0.1 == g1);
                assert(self.both.outcome(input, Ok((rest, (g1, g2)))));
                assert(self.outcome(input, r));
                r
            },
            Err(at) => Err(at),
        }
    }
}

/// A parser that runs `parser1`, then `parser2`, and keeps the value of
/// `parser1`.
pub fn left<'a, Input: 'a, P1, P2, R1, R2>(parser1: P1, parser2: P2) -> (r: Left<P1, P2, R2>) where
    Input: Clone + PartialEq,
    P1: Parser<'a, Input, R1>,
    P2: Parser<'a, Input, R2>,

    ensures
        r.both.first == parser1,
        r.both.second == parser2,
{
    Left { both: pair(parser1, parser2), marker: PhantomData }
}

/// Runs two parsers one after the other and keeps the second value.
pub struct Right<P1, P2, R1> {
    pub both: Pair<P1, P2>,
    pub marker: PhantomData<R1>,
}

impl<'a, Input: 'a, P1, P2, R1, R2> Parser<'a, Input, R2> for Right<P1, P2, R1> where
    Input: Clone + PartialEq,
    P1: Parser<'a, Input, R1>,
    P2: Parser<'a, Input, R2>,
 {
    open spec fn ready(&self, input: &'a [Spanned<Input>]) -> bool {
        self.both.ready(input)
    }

    open spec fn outcome(&self, input: &'a [Spanned<Input>], result: ParseResult<'a, Input, R2>) -> bool {
        match result {
            Ok((rest, v2)) => exists|v1: R1| #[trigger] self.both.outcome(input, Ok((rest, (v1, v2)))),
            Err(at) => self.both.outcome(input, Err(at)),
        }
    }

    fn parse(&self, input: &'a [Spanned<Input>]) -> (r: ParseResult<'a, Input, R2>) {
        match self.both.parse(input) {
            Ok((rest, (v1, v2))) => {
                let ghost g1 = v1;
                let ghost g2 = v2;
                let r: ParseResult<'a, Input, R2> = Ok((rest, v2));
                assert(r->Ok_0.0 == rest);
                assert(r->Ok_0.1 == g2);
                assert(self.both.outcome(input, Ok((rest, (g1, g2)))));
                assert(self.outcome(input, r));
                r
            },
            Err(at) => Err(at),
        }
    }
}

/// A parser that runs `parser1`, then `parser2`, and keeps the value of
/// `parser2`.
pub fn right<'a, Input: 'a, P1, P2, R1, R2>(parser1: P1, parser2: P2) -> (r: Right<P1, P2, R1>) where
    Input: Clone + PartialEq,
    P1: Parser<'a, Input, R1>,
    P2: Parser<'a, Input, R2>,

    ensures
        r.both.first == parser1,
        r.both.second == parser2,
{
    Right { both: pair(parser1, parser2), marker: PhantomData }
}

/// A parser that fails where a predicate rejects its value.
pub struct Pred<P, F> {
    pub parser: P,
    pub predicate: F,
}

impl<'a, Input: 'a, P, A, F> Parser<'a, Input, A> for Pred<P, F> where
    Input: Clone + PartialEq,
    P: Parser<'a, Input, A>,
    F: Fn(&A) -> bool,
 {
    open spec fn ready(&self, input: &'a [Spanned<Input>]) -> bool {
        &&& self.parser.ready(input)
        &&& forall|rest: &'a [Spanned<Input>], v: A| #[trigger]
            self.parser.outcome(input, Ok((rest, v))) ==> call_requires(self.predicate, (&v,))
    }

    open spec fn outcome(&self, input: &'a [Spanned<Input>], result: ParseResult<'a, Input, A>) -> bool {
        match result {
            Ok((rest, v)) => self.parser.outcome(input, Ok((rest, v))) && call_ensures(
                self.predicate,
                (&v,),
                true,
            ),
            Err(at) => at == input && ((exists|e: &'a [Spanned<Input>]| #[trigger]
                self.parser.outcome(input, Err(e))) || (exists|rest: &'a [Spanned<Input>], v: A|
                #[trigger] self.parser.outcome(input, Ok((rest, v))) && call_ensures(
                    self.predicate,
                    (&v,),
                    false,
                ))),
        }
    }

    fn parse(&self, input: &'a [Spanned<Input>]) -> (r: ParseResult<'a, Input, A>) {
        match self.parser.parse(input) {
            Ok((next_input, value)) => {
                if (self.predicate)(&value) {
                    Ok((next_input, value))
                } else {
                    assert(self.parser.outcome(input, Ok((next_input, value))));
                    Err(input)
                }
            },
            Err(e) => {
                assert(self.parser.outcome(input, Err(e)));
                Err(input)
            },
        }
    }
}

/// A parser that gives back the value of `parser` where `predicate` accepts
/// it, and fails at the start of the input otherwise.
pub fn pred<'a, Input: 'a, P, A, F>(parser: P, predicate: F) -> (r: Pred<P, F>) where
    Input: Clone + PartialEq,
    P: Parser<'a, Input, A>,
    F: Fn(&A) -> bool,

    ensures
        r.parser == parser,
        r.predicate == predicate,
{
    Pred { parser, predicate }
}

/// Tries one parser and, where it fails, another on the same input.
pub struct Either<P1, P2> {
    pub first: P1,
    pub second: P2,
}

impl<'a, Input: 'a, P1, P2, A> Parser<'a, Input, A> for Either<P1, P2> where
    Input: Clone + PartialEq,
    P1: Parser<'a, Input, A>,
    P2: Parser<'a, Input, A>,
 {
    open spec fn ready(&self, input: &'a [Spanned<Input>]) -> bool {
        &&& self.first.ready(input)
        &&& (exists|e: &'a [Spanned<Input>]| #[trigger] self.first.outcome(input, Err(e)))
            ==> self.second.ready(input)
    }

    open spec fn outcome(&self, input: &'a [Spanned<Input>], result: ParseResult<'a, Input, A>) -> bool {
        ||| result is Ok && self.first.outcome(input, result)
        ||| (exists|e: &'a [Spanned<Input>]| #[trigger] self.first.outcome(input, Err(e)))
            && self.second.outcome(input, result)
    }

    fn parse(&self, input: &'a [Spanned<Input>]) -> (r: ParseResult<'a, Input, A>) {
        match self.first.parse(input) {
            Ok(ok) => Ok(ok),
            Err(e) => {
                assert(self.first.outcome(input, Err(e)));
                self.second.parse(input)
            },
        }
    }
}

/// A parser that gives back what `parser1` gives where it succeeds, and what
/// `parser2` gives on the same input where it fails.
pub fn either<'a, Input: 'a, P1, P2, A>(parser1: P1, parser2: P2) -> (r: Either<P1, P2>) where
    Input: Clone + PartialEq,
    P1: Parser<'a, Input, A>,
    P2: Parser<'a, Input, A>,

    ensures
        r.first == parser1,
        r.second == parser2,
{
    Either { first: parser1, second: parser2 }
}

/// Runs a parser, then the parser that a function makes of its value.
pub struct AndThen<P, F, A, NextP> {
    pub parser: P,
    pub f: F,
    pub marker: PhantomData<(A, NextP)>,
}

impl<'a, Input: 'a, P, F, A, B, NextP> Parser<'a, Input, B> for AndThen<P, F, A, NextP> where
    Input: Clone + PartialEq,
    P: Parser<'a, Input, A>,
    NextP: Parser<'a, Input, B>,
    F: Fn(A) -> NextP,
 {
    open spec fn ready(&self, input: &'a [Spanned<Input>]) -> bool {
        &&& self.parser.ready(input)
        &&& forall|rest: &'a [Spanned<Input>], v: A| #[trigger]
            self.parser.outcome(input, Ok((rest, v))) ==> {
                &&& call_requires(self.f, (v,))
                &&& forall|next: NextP| #[trigger] call_ensures(self.f, (v,), next) ==> next.ready(rest)
            }
    }

    open spec fn outcome(&self, input: &'a [Spanned<Input>], result: ParseResult<'a, Input, B>) -> bool {
        ||| (exists|rest: &'a [Spanned<Input>], v: A, next: NextP| #[trigger]
            self.parser.outcome(input, Ok((rest, v))) && #[trigger] call_ensures(self.f, (v,), next)
                && next.outcome(rest, result))
        ||| (result matches Err(at) && self.parser.outcome(input, Err(at)))
    }

    fn parse(&self, input: &'a [Spanned<Input>]) -> (r: ParseResult<'a, Input, B>) {
        match self.parser.parse(input) {
            Ok((next_input, result)) => {
                let ghost v = result;
                assert(self.parser.outcome(input, Ok((next_input, v))));
                let next = (self.f)(result);
                let r = next.parse(next_input);
                assert(call_ensures(self.f, (v,), next));
                r
            },
            Err(err) => Err(err),
        }
    }
}

/// A parser that runs `parser`, makes the next parser of its value with `f`,
/// and runs that on what is left.
pub fn and_then<'a, Input: 'a, P, F, A, B, NextP>(parser: P, f: F) -> (r: AndThen<P, F, A, NextP>) where
    Input: Clone + PartialEq,
    P: Parser<'a, Input, A>,
    NextP: Parser<'a, Input, B>,
    F: Fn(A) -> NextP,

    ensures
        r.parser == parser,
        r.f == f,
{
    AndThen { parser, f, marker: PhantomData }
}

/// `items` are the values of running `p` on `input` again and again, each run
/// on what the one before left, and `rest` is what the last one left.
pub open spec fn repeats<'a, Input: 'a, A, P: Parser<'a, Input, A>>(
    p: P,
    input: &'a [Spanned<Input>],
    items: Seq<A>,
    rest: &'a [Spanned<Input>],
) -> bool where Input: Clone + PartialEq
    decreases items.len(),
{
    if items.len() == 0 {
        rest == input
    } else {
        exists|mid: &'a [Spanned<Input>]|
            repeats(p, input, items.drop_last(), mid) && #[trigger] p.outcome(mid, Ok((rest, items.last())))
    }
}

/// One more successful run extends a chain of runs.
pub proof fn lemma_repeats_push<'a, Input: 'a, A, P: Parser<'a, Input, A>>(
    p: P,
    input: &'a [Spanned<Input>],
    items: Seq<A>,
    mid: &'a [Spanned<Input>],
    rest: &'a [Spanned<Input>],
    v: A,
) where Input: Clone + PartialEq
    requires
        repeats(p, input, items, mid),
        p.outcome(mid, Ok((rest, v))),
    ensures
        repeats(p, input, items.push(v), rest),
{
    let next = items.push(v);
    assert(next.drop_last() =~= items);
    assert(next.last() == v);
    assert(repeats(p, input, next.drop_last(), mid) && p.outcome(mid, Ok((rest, next.last()))));
    assert(repeats(p, input, next, rest));
}

/// `p` may run on every input, and where it succeeds it leaves less than it
/// was given.
pub open spec fn consumes<'a, Input: 'a, A, P: Parser<'a, Input, A>>(p: P) -> bool where
    Input: Clone + PartialEq,
 {
    &&& forall|i: &'a [Spanned<Input>]| #[trigger] p.ready(i)
    &&& forall|i: &'a [Spanned<Input>], rest: &'a [Spanned<Input>], v: A| #[trigger]
        p.outcome(i, Ok((rest, v))) ==> rest@.len() < i@.len()
}

/// Runs a parser as often as it succeeds, and at least once.
pub struct OneOrMore<P> {
    pub parser: P,
}

impl<'a, Input: 'a, P, A> Parser<'a, Input, Vec<A>> for OneOrMore<P> where
    Input: Clone + PartialEq,
    P: Parser<'a, Input, A>,
 {
    open spec fn ready(&self, input: &'a [Spanned<Input>]) -> bool {
        consumes(self.parser)
    }

    open spec fn outcome(&self, input: &'a [Spanned<Input>], result: ParseResult<'a, Input, Vec<A>>) -> bool {
        match result {
            Ok((rest, items)) => {
                &&& items@.len() > 0
                &&& repeats(self.parser, input, items@, rest)
                &&& exists|e: &'a [Spanned<Input>]| #[trigger] self.parser.outcome(rest, Err(e))
            },
            Err(at) => at == input && exists|e: &'a [Spanned<Input>]| #[trigger]
                self.parser.outcome(input, Err(e)),
        }
    }

    fn parse(&self, input: &'a [Spanned<Input>]) -> (r: ParseResult<'a, Input, Vec<A>>) {
        let mut cur = input;
        let mut result = Vec::new();
        match self.parser.parse(cur) {
            Ok((next_input, first_item)) => {
                proof {
                    assert(repeats(self.parser, input, result@, input));
                    lemma_repeats_push(self.parser, input, result@, input, next_input, first_item);
                }
                cur = next_input;
                result.push(first_item);
            },
            Err(e) => {
                assert(self.parser.outcome(input, Err(e)));
                return Err(input);
            },
        }
        loop
            invariant
                consumes(self.parser),
                result@.len() > 0,
                repeats(self.parser, input, result@, cur),
            decreases cur@.len(),
        {
            match self.parser.parse(cur) {
                Ok((next_input, next_item)) => {
                    proof {
                        lemma_repeats_push(self.parser, input, result@, cur, next_input, next_item);
                    }
                    cur = next_input;
                    result.push(next_item);
                },
                Err(e) => {
                    let ghost items = result@;
                    let r: ParseResult<'a, Input, Vec<A>> = Ok((cur, result));
                    assert(r->Ok_0.0 == cur);
                    assert(r->Ok_0.1@ == items);
                    assert(exists|at: &'a [Spanned<Input>]| #[trigger] self.parser.outcome(cur, Err(at)));
                    assert(self.outcome(input, r));
                    return r;
                },
            }
        }
    }
}

/// A parser that runs `parser` as often as it succeeds, at least once, and
/// gives back the values in order.
pub fn one_or_more<'a, Input: 'a, P, A>(parser: P) -> (r: OneOrMore<P>) where
    Input: Clone + PartialEq,
    P: Parser<'a, Input, A>,

    ensures
        r.parser == parser,
{
    OneOrMore { parser }
}

/// Runs a parser as often as it succeeds.
pub struct ZeroOrMore<P> {
    pub parser: P,
}

impl<'a, Input: 'a, P, A> Parser<'a, Input, Vec<A>> for ZeroOrMore<P> where
    Input: Clone + PartialEq,
    P: Parser<'a, Input, A>,
 {
    open spec fn ready(&self, input: &'a [Spanned<Input>]) -> bool {
        consumes(self.parser)
    }

    open spec fn outcome(&self, input: &'a [Spanned<Input>], result: ParseResult<'a, Input, Vec<A>>) -> bool {
        match result {
            Ok((rest, items)) => {
                &&& repeats(self.parser, input, items@, rest)
                &&& exists|e: &'a [Spanned<Input>]| #[trigger] self.parser.outcome(rest, Err(e))
            },
            Err(_) => false,
        }
    }

    fn parse(&self, input: &'a [Spanned<Input>]) -> (r: ParseResult<'a, Input, Vec<A>>) {
        let mut cur = input;
        let mut result = Vec::new();
        assert(repeats(self.parser, input, result@, cur));
        loop
            invariant
                consumes(self.parser),
                repeats(self.parser, input, result@, cur),
            decreases cur@.len(),
        {
            match self.parser.parse(cur) {
                Ok((next_input, next_item)) => {
                    proof {
                        lemma_repeats_push(self.parser, input, result@, cur, next_input, next_item);
                    }
                    cur = next_input;
                    result.push(next_item);
                },
                Err(e) => {
                    let ghost items = result@;
                    let r: ParseResult<'a, Input, Vec<A>> = Ok((cur, result));
                    assert(r->Ok_0.0 == cur);
                    assert(r->Ok_0.1@ == items);
                    assert(exists|at: &'a [Spanned<Input>]| #[trigger] self.parser.outcome(cur, Err(at)));
                    assert(self.outcome(input, r));
                    return r;
                },
            }
        }
    }
}

/// A parser that runs `parser` as often as it succeeds and gives back the
/// values in order; it never fails.
pub fn zero_or_more<'a, Input: 'a, P, A>(parser: P) -> (r: ZeroOrMore<P>) where
    Input: Clone + PartialEq,
    P: Parser<'a, Input, A>,

    ensures
        r.parser == parser,
{
    ZeroOrMore { parser }
}

} // verus!
