use numpipe::pipeline::{
    collect_range, count_in_range, count_matching, filter_range, filter_vec, map_vec, max_in_range,
    max_vec, product_in_range, product_vec, step_by_vec, sum_in_range, sum_vec, take_vec,
    take_while_vec,
};
use std::collections::{HashMap, HashSet};

use numpipe::predicate::{
    AcceptAll, AddConst, AllOf, AnyOf, AtLeast, DivisibleBy, IsEven, IsOdd, LessThan, Quotient,
    ScaleBy, Square,
};

#[test]
fn simple_test1() {
    let sum = sum_in_range(1, 100, &AcceptAll);
    assert_eq!(sum, 5050);

    let product = product_in_range(1, 10, &AcceptAll);
    assert_eq!(product, Some(3628800));

    let sum = sum_in_range(1, 100, &IsEven);
    assert_eq!(sum, 2550);

    let by_three_or_five = AnyOf(DivisibleBy(3), DivisibleBy(5));
    let sum = sum_in_range(1, 100, &by_three_or_five);
    assert_eq!(sum, 2418);

    let count = count_in_range(1, 100, &by_three_or_five);
    assert_eq!(count, 47);
}

#[test]
fn simple_test2() {
    let v: Vec<u64> = vec![1, 2, 3, 4, 5, 6, 7, 8, 9, 10];

    let count = count_matching(&v, &IsEven);
    assert_eq!(count, 5);

    let sum = sum_vec(&v);
    assert_eq!(sum, 55);

    let product = product_vec(&v);
    assert_eq!(product, Some(3628800));

    let product = product_vec(&filter_vec(&v, &LessThan(4)));
    assert_eq!(product, Some(6));

    let product = product_vec(&take_vec(&v, 3));
    assert_eq!(product, Some(6));

    let product = product_vec(&take_while_vec(&v, &LessThan(5)));
    assert_eq!(product, Some(24));

    let sum = sum_vec(&step_by_vec(&v, 4));
    assert_eq!(sum, 15);

    let max = max_vec(&filter_vec(&v, &DivisibleBy(3))).unwrap();
    assert_eq!(max, 9);
}

#[test]
fn filter_test1() {
    let v: Vec<u64> = vec![1, 2, 3, 4, 5];
    let v1 = filter_vec(&v, &IsEven);
    assert_eq!(v1, vec![2, 4]);

    let v = vec![1, 2, 3, 4, 5];
    let v1 = filter_vec(&v, &IsEven);
    assert_eq!(v1, vec![2, 4]);
    assert_eq!(v, vec![1, 2, 3, 4, 5]);
}

#[test]
fn filter_test() {
    let v: Vec<u64> = vec![1, 2, 3, 4, 5];
    let v1 = filter_vec(&v, &IsEven);
    assert_eq!(v1, vec![2, 4]);

    let v: Vec<u64> = vec![1, 2, 3, 4, 5, 10, 11, 12, 27];
    let v1 = filter_vec(&v, &AllOf(AtLeast(10), IsOdd));
    assert_eq!(v1, vec![11, 27]);

    let v1 = filter_vec(&v, &AllOf(AtLeast(10), IsOdd));
    assert_eq!(v1, vec![11, 27]);
}

#[test]
fn map_test1() {
    let v: Vec<u64> = vec![1, 2, 3, 4, 5];
    let v1 = map_vec(&v, &AddConst(1));
    assert_eq!(v1, vec![2, 3, 4, 5, 6]);
    assert_eq!(v, vec![1, 2, 3, 4, 5]);
}

#[test]
fn map_test2() {
    let v: Vec<u64> = vec![1, 2, 3, 4, 5];
    let v1 = map_vec(&v, &AddConst(1));
    assert_eq!(v1, vec![2, 3, 4, 5, 6]);
}

#[test]
fn map_test3() {
    let range = collect_range(1, 100);
    let ans = map_vec(&range, &Square);
    assert_eq!(ans.len(), 100);
    assert_eq!(ans[0], 1);
    assert_eq!(ans[1], 4);
    assert_eq!(ans[99], 10000);
}

#[test]
fn map_test() {
    let v: Vec<u64> = vec![1, 2, 3, 4, 5];
    let v1 = map_vec(&v, &AddConst(1));
    assert_eq!(v1, vec![2, 3, 4, 5, 6]);

    let v2 = map_vec(&v, &ScaleBy(2));
    assert_eq!(v2, vec![2, 4, 6, 8, 10]);

    let words: Vec<&str> = vec!["hello", "Good Morning", "Hi"];
    let low_words: Vec<String> = words.iter().map(|w| w.to_lowercase()).collect();
    assert_eq!(low_words, vec!["hello", "good morning", "hi"]);

    let s = "abc aaa bb c";
    let map: HashMap<char, usize> = "abc"
        .chars()
        .map(|c| (c, s.matches(c).count()))
        .collect::<HashMap<char, usize>>();
    assert_eq!(map[&'a'], 4);
    assert_eq!(map[&'b'], 3);
    assert_eq!(map[&'c'], 2);

    let set = s
        .chars()
        .filter(|c| c.is_alphabetic())
        .collect::<HashSet<_>>();
    let expected: HashSet<char> = vec!['a', 'b', 'c'].into_iter().collect();
    assert_eq!(set, expected);
}

#[test]
fn middle_example1() {
    let tens = filter_range(1, 100, &DivisibleBy(10));
    let sum = sum_vec(&map_vec(&tens, &Quotient(10)));
    assert_eq!(sum, 55);

    let range = collect_range(1, 100);
    let below_ten = take_while_vec(&range, &LessThan(10));
    let sum = sum_vec(&filter_vec(&below_ten, &DivisibleBy(3)));
    assert_eq!(sum, 18);
}

#[test]
fn test6() {
    let mut v: Vec<(i32, i32)> = Vec::new();
    for i in 2..=10 {
        if i >= 4 {
            break;
        }
        for j in 2..=10 {
            if j >= 5 {
                break;
            }
            v.push((i, j));
        }
    }
    assert_eq!(v, vec![(2, 2), (2, 3), (2, 4), (3, 2), (3, 3), (3, 4)]);
}

#[test]
fn test7() {
    let mut v: Vec<(i32, i32)> = Vec::new();
    let mut stop = false;
    for i in 2..=10 {
        if stop {
            break;
        }
        for j in 2..=10 {
            if j >= 5 {
                stop = true;
                break;
            }
            v.push((i, j));
        }
    }
    assert_eq!(v, vec![(2, 2), (2, 3), (2, 4)]);
}

#[test]
fn take_while_stops_where_filter_does_not() {
    let v: Vec<u64> = vec![1, 3, 5, 6, 7, 8, 9, 10];
    let prefix = take_while_vec(&v, &IsOdd);
    let all_odd = filter_vec(&v, &IsOdd);
    assert_eq!(prefix, vec![1, 3, 5]);
    assert_eq!(all_odd, vec![1, 3, 5, 7, 9]);
    assert_ne!(prefix, all_odd);
}

#[test]
fn refilter_with_identity_is_roundtrip() {
    let collected = filter_range(1, 100, &DivisibleBy(7));
    let refiltered = filter_vec(&collected, &AcceptAll);
    assert_eq!(refiltered, collected);
    assert_eq!(collected, vec![7, 14, 21, 28, 35, 42, 49, 56, 63, 70, 77, 84, 91, 98]);
}

#[test]
fn empty_range_yields_empty_aggregates() {
    assert_eq!(collect_range(5, 4), Vec::<u64>::new());
    assert_eq!(filter_range(5, 4, &AcceptAll), Vec::<u64>::new());
    assert_eq!(sum_in_range(5, 4, &AcceptAll), 0);
    assert_eq!(count_in_range(5, 4, &AcceptAll), 0);
    assert_eq!(product_in_range(5, 4, &AcceptAll), Some(1));
    assert_eq!(max_in_range(5, 4, &AcceptAll), None);
}

#[test]
fn max_of_empty_selection_is_refused() {
    assert_eq!(max_vec(&Vec::new()), None);
    assert_eq!(max_in_range(1, 100, &DivisibleBy(0)), None);
}

#[test]
fn product_overflow_is_reported() {
    let v: Vec<u64> = vec![u64::MAX, 2];
    assert_eq!(product_vec(&v), None);

    let with_zero: Vec<u64> = vec![u64::MAX, 2, 0];
    assert_eq!(product_vec(&with_zero), Some(0));
}

#[test]
fn take_and_step_edges() {
    let v: Vec<u64> = vec![10, 20, 30];
    assert_eq!(take_vec(&v, 0), Vec::<u64>::new());
    assert_eq!(take_vec(&v, 5), vec![10, 20, 30]);
    assert_eq!(step_by_vec(&v, 1), vec![10, 20, 30]);
    assert_eq!(step_by_vec(&v, 2), vec![10, 30]);
    assert_eq!(step_by_vec(&v, 7), vec![10]);
}

#[test]
fn count_multiples_up_to_ten_thousand() {
    let by_three_or_five = AnyOf(DivisibleBy(3), DivisibleBy(5));
    assert_eq!(count_in_range(1, 10000, &by_three_or_five), 4667);
}
