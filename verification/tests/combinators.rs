use snow::combinators::{
    and_then, either, left, one_or_more, pair, pred, right, zero_or_more, ParseResult, Parser,
};
use snow::position::{Span, Spanned};

fn stream(nodes: &[u32]) -> Vec<Spanned<u32>> {
    nodes.iter().map(|n| Spanned::new(*n, Span::default())).collect()
}

fn one(input: &[Spanned<u32>]) -> ParseResult<'_, u32, u32> {
    match input.first() {
        Some(t) if t.node == 1 => Ok((&input[1..], 1)),
        _ => Err(input),
    }
}

fn two(input: &[Spanned<u32>]) -> ParseResult<'_, u32, u32> {
    match input.first() {
        Some(t) if t.node == 2 => Ok((&input[1..], 2)),
        _ => Err(input),
    }
}

fn any(input: &[Spanned<u32>]) -> ParseResult<'_, u32, u32> {
    match input.first() {
        Some(t) => Ok((&input[1..], t.node)),
        None => Err(input),
    }
}

fn rest_nodes(rest: &[Spanned<u32>]) -> Vec<u32> {
    rest.iter().map(|t| t.node).collect()
}

#[test]
fn pair_keeps_both_values() {
    let input = stream(&[1, 2, 3]);
    let p = pair(one, two);
    match p.parse(&input) {
        Ok((rest, v)) => {
            assert_eq!(v, (1, 2));
            assert_eq!(rest_nodes(rest), vec![3]);
        }
        Err(_) => panic!("pair failed"),
    }
    let bad = stream(&[1, 3]);
    match p.parse(&bad) {
        Err(at) => assert_eq!(rest_nodes(at), vec![3]),
        Ok(_) => panic!("pair accepted"),
    }
}

#[test]
fn left_and_right_keep_one_value() {
    let input = stream(&[1, 2]);
    assert_eq!(left(one, two).parse(&input).map(|(_, v)| v), Ok(1));
    assert_eq!(right(one, two).parse(&input).map(|(_, v)| v), Ok(2));
}

#[test]
fn map_applies_function() {
    let input = stream(&[1, 5]);
    let p = snow::combinators::map(one, |v: u32| v * 10);
    assert_eq!(p.parse(&input).map(|(r, v)| (rest_nodes(r), v)), Ok((vec![5], 10)));
    let q = one.map(|v: u32| v + 1);
    assert_eq!(q.parse(&input).map(|(_, v)| v), Ok(2));
}

#[test]
fn pred_rejects_at_start() {
    let input = stream(&[7, 1]);
    let even = pred(any, |v: &u32| *v % 2 == 0);
    match even.parse(&input) {
        Err(at) => assert_eq!(rest_nodes(at), vec![7, 1]),
        Ok(_) => panic!("pred accepted an odd value"),
    }
    let odd = any.pred(|v: &u32| *v % 2 == 1);
    assert_eq!(odd.parse(&input).map(|(_, v)| v), Ok(7));
}

#[test]
fn either_tries_second_on_same_input() {
    let input = stream(&[2, 1]);
    let p = either(one, two);
    assert_eq!(p.parse(&input).map(|(r, v)| (rest_nodes(r), v)), Ok((vec![1], 2)));
    let none = stream(&[3]);
    assert!(p.parse(&none).is_err());
}

#[test]
fn and_then_chooses_next_parser() {
    let input = stream(&[1, 2, 9]);
    let p = and_then(one, |_v: u32| two);
    assert_eq!(p.parse(&input).map(|(r, v)| (rest_nodes(r), v)), Ok((vec![9], 2)));
    let q = one.and_then(|_v: u32| one);
    assert!(q.parse(&input).is_err());
}

#[test]
fn repetition() {
    let input = stream(&[1, 1, 1, 2]);
    assert_eq!(
        zero_or_more(one).parse(&input).map(|(r, v)| (rest_nodes(r), v)),
        Ok((vec![2], vec![1, 1, 1]))
    );
    assert_eq!(
        one_or_more(one).parse(&input).map(|(r, v)| (rest_nodes(r), v)),
        Ok((vec![2], vec![1, 1, 1]))
    );
    let empty = stream(&[2]);
    assert_eq!(
        zero_or_more(one).parse(&empty).map(|(r, v)| (rest_nodes(r), v)),
        Ok((vec![2], vec![]))
    );
    match one_or_more(one).parse(&empty) {
        Err(at) => assert_eq!(rest_nodes(at), vec![2]),
        Ok(_) => panic!("one_or_more accepted no item"),
    }
}
