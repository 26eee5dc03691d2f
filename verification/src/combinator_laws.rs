//! What the combinators give when the parsers they are built from are
//! deterministic: one outcome for each input.
use vstd::prelude::*;

use crate::combinators::{AndThen, Either, OneOrMore, Pair, ParseResult, Parser, Pred, ZeroOrMore, consumes, repeats};
use crate::position::Spanned;

verus! {

/// Whether `p` has at most one outcome on `input`.
pub open spec fn determined<'a, Input: 'a, A, P: Parser<'a, Input, A>>(
    p: P,
    input: &'a [Spanned<Input>],
) -> bool where Input: Clone + PartialEq {
    forall|x: ParseResult<'a, Input, A>, y: ParseResult<'a, Input, A>|
        #![trigger p.outcome(input, x), p.outcome(input, y)]
        p.outcome(input, x) && p.outcome(input, y) ==> x == y
}

/// Whether `p` has at most one outcome on every input.
pub open spec fn deterministic<'a, Input: 'a, A, P: Parser<'a, Input, A>>(p: P) -> bool where
    Input: Clone + PartialEq,
 {
    forall|i: &'a [Spanned<Input>]| #[trigger] determined(p, i)
}

/// `either`: where the first parser succeeds, its result; where it fails,
/// whatever the second parser gives on the same input.
pub proof fn law_either<'a, Input: 'a, P1, P2, A>(
    e: Either<P1, P2>,
    input: &'a [Spanned<Input>],
    r1: ParseResult<'a, Input, A>,
    r: ParseResult<'a, Input, A>,
) where Input: Clone + PartialEq, P1: Parser<'a, Input, A>, P2: Parser<'a, Input, A>
    requires
        e.first.outcome(input, r1),
        determined(e.first, input),
    ensures
        e.outcome(input, r) <==> if r1 is Ok {
            r == r1
        } else {
            e.second.outcome(input, r)
        },
{
    if r1 is Ok {
        if e.outcome(input, r) {
            if r is Ok && e.first.outcome(input, r) {
                assert(e.first.outcome(input, r) && e.first.outcome(input, r1));
            } else {
                let x = choose|x: &'a [Spanned<Input>]| #[trigger] e.first.outcome(input, Err(x));
                assert(e.first.outcome(input, Err(x)) && e.first.outcome(input, r1));
            }
        }
    } else {
        let at = r1->Err_0;
        assert(e.first.outcome(input, Err(at)));
        if e.outcome(input, r) && r is Ok && e.first.outcome(input, r) {
            assert(e.first.outcome(input, r) && e.first.outcome(input, r1));
        }
    }
}

/// What running two parsers one after the other gives, from what each gave.
pub open spec fn paired<'a, Input, R1, R2>(
    r1: ParseResult<'a, Input, R1>,
    r2: ParseResult<'a, Input, R2>,
) -> ParseResult<'a, Input, (R1, R2)> {
    match r1 {
        Err(at) => Err(at),
        Ok((_, v1)) => match r2 {
            Ok((rest, v2)) => Ok((rest, (v1, v2))),
            Err(at) => Err(at),
        },
    }
}

/// `pair`: the first parser's failure; else, on what it left, the second
/// parser's failure, or both values and what the second parser left.
pub proof fn law_pair<'a, Input: 'a, P1, P2, R1, R2>(
    p: Pair<P1, P2>,
    input: &'a [Spanned<Input>],
    r1: ParseResult<'a, Input, R1>,
    r2: ParseResult<'a, Input, R2>,
    r: ParseResult<'a, Input, (R1, R2)>,
) where Input: Clone + PartialEq, P1: Parser<'a, Input, R1>, P2: Parser<'a, Input, R2>
    requires
        p.first.outcome(input, r1),
        determined(p.first, input),
        r1 matches Ok((mid, _)) ==> p.second.outcome(mid, r2) && determined(p.second, mid),
    ensures
        p.outcome(input, r) <==> r == paired(r1, r2),
{
    match r1 {
        Err(at) => {
            assert(p.first.outcome(input, Err(at)));
            if p.outcome(input, r) {
                match r {
                    Ok((rest, (v1, v2))) => {
                        let mid = choose|mid: &'a [Spanned<Input>]| #[trigger]
                            p.first.outcome(input, Ok((mid, v1))) && p.second.outcome(mid, Ok((rest, v2)));
                        assert(p.first.outcome(input, Ok((mid, v1))) && p.first.outcome(input, r1));
                    },
                    Err(e) => {
                        if !p.first.outcome(input, Err(e)) {
                            let (mid, w) = choose|mid: &'a [Spanned<Input>], w: R1| #[trigger]
                                p.first.outcome(input, Ok((mid, w))) && p.second.outcome(mid, Err(e));
                            assert(p.first.outcome(input, Ok((mid, w))) && p.first.outcome(input, r1));
                        } else {
                            assert(p.first.outcome(input, Err(e)) && p.first.outcome(input, r1));
                        }
                    },
                }
                assert(r == Err::<(&'a [Spanned<Input>], (R1, R2)), &'a [Spanned<Input>]>(at));
            }
            if r == Err::<(&'a [Spanned<Input>], (R1, R2)), &'a [Spanned<Input>]>(at) {
                assert(p.outcome(input, r));
            }
        },
        Ok((mid, v1)) => {
            match r2 {
                Ok((rest, v2)) => {
                    if p.outcome(input, r) {
                        match r {
                            Ok((rest2, (w1, w2))) => {
                                let m = choose|m: &'a [Spanned<Input>]| #[trigger]
                                    p.first.outcome(input, Ok((m, w1))) && p.second.outcome(m, Ok((rest2, w2)));
                                assert(p.first.outcome(input, Ok((m, w1))) && p.first.outcome(input, r1));
                                assert(p.second.outcome(mid, Ok((rest2, w2))) && p.second.outcome(mid, r2));
                            },
                            Err(e) => {
                                if p.first.outcome(input, Err(e)) {
                                    assert(p.first.outcome(input, Err(e)) && p.first.outcome(input, r1));
                                } else {
                                    let (m, w) = choose|m: &'a [Spanned<Input>], w: R1| #[trigger]
                                        p.first.outcome(input, Ok((m, w))) && p.second.outcome(m, Err(e));
                                    assert(p.first.outcome(input, Ok((m, w))) && p.first.outcome(input, r1));
                                    assert(p.second.outcome(mid, Err(e)) && p.second.outcome(mid, r2));
                                }
                            },
                        }
                    }
                    if r == Ok::<(&'a [Spanned<Input>], (R1, R2)), &'a [Spanned<Input>]>((rest, (v1, v2))) {
                        assert(r->Ok_0.0 == rest);
                        assert(r->Ok_0.1.0 == v1);
                        assert(r->Ok_0.1.1 == v2);
                        assert(p.first.outcome(input, Ok((mid, v1))) && p.second.outcome(mid, Ok((rest, v2))));
                        assert(p.outcome(input, r));
                    }
                },
                Err(at) => {
                    if p.outcome(input, r) {
                        match r {
                            Ok((rest2, (w1, w2))) => {
                                let m = choose|m: &'a [Spanned<Input>]| #[trigger]
                                    p.first.outcome(input, Ok((m, w1))) && p.second.outcome(m, Ok((rest2, w2)));
                                assert(p.first.outcome(input, Ok((m, w1))) && p.first.outcome(input, r1));
                                assert(p.second.outcome(mid, Ok((rest2, w2))) && p.second.outcome(mid, r2));
                            },
                            Err(e) => {
                                if p.first.outcome(input, Err(e)) {
                                    assert(p.first.outcome(input, Err(e)) && p.first.outcome(input, r1));
                                } else {
                                    let (m, w) = choose|m: &'a [Spanned<Input>], w: R1| #[trigger]
                                        p.first.outcome(input, Ok((m, w))) && p.second.outcome(m, Err(e));
                                    assert(p.first.outcome(input, Ok((m, w))) && p.first.outcome(input, r1));
                                    assert(p.second.outcome(mid, Err(e)) && p.second.outcome(mid, r2));
                                }
                            },
                        }
                    }
                    if r == Err::<(&'a [Spanned<Input>], (R1, R2)), &'a [Spanned<Input>]>(at) {
                        assert(p.first.outcome(input, Ok((mid, v1))) && p.second.outcome(mid, Err(at)));
                    }
                },
            }
        },
    }
}

/// What a predicate leaves of a parser's result: the result where the
/// predicate accepts the value, a failure at the start of the input otherwise.
pub open spec fn filtered<'a, Input, A>(
    input: &'a [Spanned<Input>],
    r1: ParseResult<'a, Input, A>,
    accepted: bool,
) -> ParseResult<'a, Input, A> {
    match r1 {
        Ok(_) => if accepted {
            r1
        } else {
            Err(input)
        },
        Err(_) => Err(input),
    }
}

/// `pred`: the parser's result where the predicate accepts its value (the
/// predicate judging each value one way), and a failure at the start of the
/// input where the predicate rejects it or the parser fails.
pub proof fn law_pred<'a, Input: 'a, P, A, F>(
    p: Pred<P, F>,
    input: &'a [Spanned<Input>],
    r1: ParseResult<'a, Input, A>,
    accepted: bool,
    r: ParseResult<'a, Input, A>,
) where Input: Clone + PartialEq, P: Parser<'a, Input, A>, F: Fn(&A) -> bool
    requires
        p.parser.outcome(input, r1),
        determined(p.parser, input),
        r1 matches Ok((_, v)) ==> call_ensures(p.predicate, (&v,), accepted) && !call_ensures(
            p.predicate,
            (&v,),
            !accepted,
        ),
    ensures
        p.outcome(input, r) <==> r == filtered(input, r1, accepted),
{
    match r1 {
        Err(e0) => {
            assert(p.parser.outcome(input, Err(e0)));
            if p.outcome(input, r) {
                if let Ok((rest, v)) = r {
                    assert(p.parser.outcome(input, Ok((rest, v))) && p.parser.outcome(input, r1));
                } else {
                    if !(exists|e: &'a [Spanned<Input>]| #[trigger] p.parser.outcome(input, Err(e))) {
                        let (rest, v) = choose|rest: &'a [Spanned<Input>], v: A| #[trigger]
                            p.parser.outcome(input, Ok((rest, v))) && call_ensures(p.predicate, (&v,), false);
                        assert(p.parser.outcome(input, Ok((rest, v))) && p.parser.outcome(input, r1));
                    }
                }
            }
        },
        Ok((rest0, v0)) => {
            assert(p.parser.outcome(input, Ok((rest0, v0))));
            if p.outcome(input, r) {
                match r {
                    Ok((rest, v)) => {
                        assert(p.parser.outcome(input, Ok((rest, v))) && p.parser.outcome(input, r1));
                    },
                    Err(at) => {
                        if exists|e: &'a [Spanned<Input>]| #[trigger] p.parser.outcome(input, Err(e)) {
                            let e = choose|e: &'a [Spanned<Input>]| #[trigger] p.parser.outcome(input, Err(e));
                            assert(p.parser.outcome(input, Err(e)) && p.parser.outcome(input, r1));
                        } else {
                            let (rest, v) = choose|rest: &'a [Spanned<Input>], v: A| #[trigger]
                                p.parser.outcome(input, Ok((rest, v))) && call_ensures(p.predicate, (&v,), false);
                            assert(p.parser.outcome(input, Ok((rest, v))) && p.parser.outcome(input, r1));
                        }
                    },
                }
            }
            if r == filtered(input, r1, accepted) {
                if !accepted {
                    assert(p.parser.outcome(input, Ok((rest0, v0))) && call_ensures(p.predicate, (&v0,), false));
                }
            }
        },
    }
}

/// `and_then`: the parser's failure; else what the next parser, made of the
/// value (one for each value), gives on what was left.
pub proof fn law_and_then<'a, Input: 'a, P, F, A, B, NextP>(
    p: AndThen<P, F, A, NextP>,
    input: &'a [Spanned<Input>],
    r1: ParseResult<'a, Input, A>,
    next: NextP,
    r2: ParseResult<'a, Input, B>,
    r: ParseResult<'a, Input, B>,
) where Input: Clone + PartialEq, P: Parser<'a, Input, A>, NextP: Parser<'a, Input, B>, F: Fn(A) -> NextP
    requires
        p.parser.outcome(input, r1),
        determined(p.parser, input),
        r1 matches Ok((rest, v)) ==> {
            &&& call_ensures(p.f, (v,), next)
            &&& forall|n: NextP| #[trigger] call_ensures(p.f, (v,), n) ==> n == next
            &&& next.outcome(rest, r2)
            &&& determined(next, rest)
        },
    ensures
        p.outcome(input, r) <==> r == match r1 {
            Ok(_) => r2,
            Err(at) => Err(at),
        },
{
    match r1 {
        Err(at) => {
            if p.outcome(input, r) {
                if exists|rest: &'a [Spanned<Input>], v: A, n: NextP| #[trigger]
                    p.parser.outcome(input, Ok((rest, v))) && #[trigger] call_ensures(p.f, (v,), n)
                        && n.outcome(rest, r) {
                    let (rest, v, n) = choose|rest: &'a [Spanned<Input>], v: A, n: NextP| #[trigger]
                        p.parser.outcome(input, Ok((rest, v))) && #[trigger] call_ensures(p.f, (v,), n)
                            && n.outcome(rest, r);
                    assert(p.parser.outcome(input, Ok((rest, v))) && p.parser.outcome(input, r1));
                } else {
                    let e = r->Err_0;
                    assert(p.parser.outcome(input, Err(e)) && p.parser.outcome(input, r1));
                }
            }
        },
        Ok((rest0, v0)) => {
            if p.outcome(input, r) {
                if exists|rest: &'a [Spanned<Input>], v: A, n: NextP| #[trigger]
                    p.parser.outcome(input, Ok((rest, v))) && #[trigger] call_ensures(p.f, (v,), n)
                        && n.outcome(rest, r) {
                    let (rest, v, n) = choose|rest: &'a [Spanned<Input>], v: A, n: NextP| #[trigger]
                        p.parser.outcome(input, Ok((rest, v))) && #[trigger] call_ensures(p.f, (v,), n)
                            && n.outcome(rest, r);
                    assert(p.parser.outcome(input, Ok((rest, v))) && p.parser.outcome(input, r1));
                    assert(n == next);
                    assert(next.outcome(rest0, r) && next.outcome(rest0, r2));
                } else {
                    let e = r->Err_0;
                    assert(p.parser.outcome(input, Err(e)) && p.parser.outcome(input, r1));
                }
            }
            if r == r2 {
                assert(p.parser.outcome(input, Ok((rest0, v0))) && call_ensures(p.f, (v0,), next)
                    && next.outcome(rest0, r));
            }
        },
    }
}

/// In a chain of runs, each run starts where the runs before it left off.
proof fn lemma_repeats_step<'a, Input: 'a, A, P: Parser<'a, Input, A>>(
    p: P,
    input: &'a [Spanned<Input>],
    items: Seq<A>,
    rest: &'a [Spanned<Input>],
    k: int,
) -> (r: (&'a [Spanned<Input>], &'a [Spanned<Input>])) where Input: Clone + PartialEq
    requires
        repeats(p, input, items, rest),
        0 <= k < items.len(),
    ensures
        repeats(p, input, items.subrange(0, k), r.0),
        p.outcome(r.0, Ok((r.1, items[k]))),
    decreases items.len(),
{
    let mid = choose|mid: &'a [Spanned<Input>]|
        repeats(p, input, items.drop_last(), mid) && #[trigger] p.outcome(mid, Ok((rest, items.last())));
    if k == items.len() - 1 {
        assert(items.subrange(0, k) =~= items.drop_last());
        (mid, rest)
    } else {
        let r = lemma_repeats_step(p, input, items.drop_last(), mid, k);
        assert(items.drop_last().subrange(0, k) =~= items.subrange(0, k));
        r
    }
}

/// Two chains of runs of one length, of a deterministic parser from one
/// input, are the same chain.
proof fn lemma_repeats_same<'a, Input: 'a, A, P: Parser<'a, Input, A>>(
    p: P,
    input: &'a [Spanned<Input>],
    a: Seq<A>,
    ra: &'a [Spanned<Input>],
    b: Seq<A>,
    rb: &'a [Spanned<Input>],
) where Input: Clone + PartialEq
    requires
        deterministic(p),
        repeats(p, input, a, ra),
        repeats(p, input, b, rb),
        a.len() == b.len(),
    ensures
        a == b,
        ra == rb,
    decreases a.len(),
{
    if a.len() > 0 {
        let ma = choose|mid: &'a [Spanned<Input>]|
            repeats(p, input, a.drop_last(), mid) && #[trigger] p.outcome(mid, Ok((ra, a.last())));
        let mb = choose|mid: &'a [Spanned<Input>]|
            repeats(p, input, b.drop_last(), mid) && #[trigger] p.outcome(mid, Ok((rb, b.last())));
        lemma_repeats_same(p, input, a.drop_last(), ma, b.drop_last(), mb);
        assert(determined(p, ma));
        assert(p.outcome(ma, Ok((ra, a.last()))) && p.outcome(ma, Ok((rb, b.last()))));
        assert(a =~= a.drop_last().push(a.last()));
        assert(b =~= b.drop_last().push(b.last()));
    }
}

/// A chain of runs of a deterministic parser that ends where the parser
/// fails is the only such chain from its input.
pub proof fn lemma_repeats_unique<'a, Input: 'a, A, P: Parser<'a, Input, A>>(
    p: P,
    input: &'a [Spanned<Input>],
    a: Seq<A>,
    ra: &'a [Spanned<Input>],
    ea: &'a [Spanned<Input>],
    b: Seq<A>,
    rb: &'a [Spanned<Input>],
    eb: &'a [Spanned<Input>],
) where Input: Clone + PartialEq
    requires
        deterministic(p),
        repeats(p, input, a, ra),
        p.outcome(ra, Err(ea)),
        repeats(p, input, b, rb),
        p.outcome(rb, Err(eb)),
    ensures
        a == b,
        ra == rb,
{
    if a.len() < b.len() {
        let (m, m2) = lemma_repeats_step(p, input, b, rb, a.len() as int);
        lemma_repeats_same(p, input, a, ra, b.subrange(0, a.len() as int), m);
        assert(determined(p, ra));
        assert(p.outcome(ra, Err(ea)) && p.outcome(ra, Ok((m2, b[a.len() as int]))));
    } else if b.len() < a.len() {
        let (m, m2) = lemma_repeats_step(p, input, a, ra, b.len() as int);
        lemma_repeats_same(p, input, b, rb, a.subrange(0, b.len() as int), m);
        assert(determined(p, rb));
        assert(p.outcome(rb, Err(eb)) && p.outcome(rb, Ok((m2, a[b.len() as int]))));
    } else {
        lemma_repeats_same(p, input, a, ra, b, rb);
    }
}

/// `zero_or_more` of a deterministic parser: one result, the values of
/// running the parser again and again until it fails and what was left
/// then; no values at all exactly where the parser fails on the input.
pub proof fn law_zero_or_more<'a, Input: 'a, P, A>(
    z: ZeroOrMore<P>,
    input: &'a [Spanned<Input>],
    r: ParseResult<'a, Input, Vec<A>>,
    s: ParseResult<'a, Input, Vec<A>>,
) where Input: Clone + PartialEq, P: Parser<'a, Input, A>
    requires
        deterministic(z.parser),
        z.outcome(input, r),
        z.outcome(input, s),
    ensures
        r matches Ok((rest, items)) && s matches Ok((rest2, items2)) && rest == rest2 && items@ == items2@,
        r matches Ok((rest, items)) && (items@.len() == 0 <==> exists|e: &'a [Spanned<Input>]| #[trigger]
            z.parser.outcome(input, Err(e))),
{
    let (rest, items) = r->Ok_0;
    let (rest2, items2) = s->Ok_0;
    let e = choose|e: &'a [Spanned<Input>]| #[trigger] z.parser.outcome(rest, Err(e));
    let e2 = choose|e: &'a [Spanned<Input>]| #[trigger] z.parser.outcome(rest2, Err(e));
    lemma_repeats_unique(z.parser, input, items@, rest, e, items2@, rest2, e2);
    if items@.len() > 0 {
        let (m, m2) = lemma_repeats_step(z.parser, input, items@, rest, 0);
        assert(items@.subrange(0, 0).len() == 0);
        assert(m == input);
        if exists|e: &'a [Spanned<Input>]| #[trigger] z.parser.outcome(input, Err(e)) {
            let x = choose|e: &'a [Spanned<Input>]| #[trigger] z.parser.outcome(input, Err(e));
            assert(determined(z.parser, input));
            assert(z.parser.outcome(input, Err(x)) && z.parser.outcome(input, Ok((m2, items@[0]))));
        }
    } else {
        assert(rest == input);
    }
}

/// `one_or_more` of a deterministic parser: a failure at the start of the
/// input exactly where the parser fails there; else one result, as for
/// `zero_or_more`.
pub proof fn law_one_or_more<'a, Input: 'a, P, A>(
    o: OneOrMore<P>,
    input: &'a [Spanned<Input>],
    r: ParseResult<'a, Input, Vec<A>>,
    s: ParseResult<'a, Input, Vec<A>>,
) where Input: Clone + PartialEq, P: Parser<'a, Input, A>
    requires
        deterministic(o.parser),
        o.outcome(input, r),
        o.outcome(input, s),
    ensures
        r is Err <==> exists|e: &'a [Spanned<Input>]| #[trigger] o.parser.outcome(input, Err(e)),
        r matches Err(at) ==> at == input,
        r matches Ok((rest, items)) ==> s matches Ok((rest2, items2)) && rest == rest2 && items@ == items2@,
{
    assert(determined(o.parser, input));
    if let Ok((rest, items)) = r {
        let e = choose|e: &'a [Spanned<Input>]| #[trigger] o.parser.outcome(rest, Err(e));
        let (m, m2) = lemma_repeats_step(o.parser, input, items@, rest, 0);
        assert(items@.subrange(0, 0).len() == 0);
        assert(m == input);
        if exists|e: &'a [Spanned<Input>]| #[trigger] o.parser.outcome(input, Err(e)) {
            let x = choose|e: &'a [Spanned<Input>]| #[trigger] o.parser.outcome(input, Err(e));
            assert(o.parser.outcome(input, Err(x)) && o.parser.outcome(input, Ok((m2, items@[0]))));
        }
        match s {
            Ok((rest2, items2)) => {
                let e2 = choose|e: &'a [Spanned<Input>]| #[trigger] o.parser.outcome(rest2, Err(e));
                lemma_repeats_unique(o.parser, input, items@, rest, e, items2@, rest2, e2);
            },
            Err(_) => {},
        }
    }
}

} // verus!
