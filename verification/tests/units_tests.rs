use numpipe::arith::{add, add_one, add_sub, divide, divmod, divmod_result, get_val, is_even1,
    is_even2, min, min_generic};
use numpipe::config::ArgsConfigs;
use numpipe::counter::Counter;
use numpipe::customers::{get_add_info_customer, get_customer, Gender, GenderAddInfo};
use numpipe::graph::{distance, distance_generic, Edge, MyGraph, Node};
use numpipe::moving::{find_runner, run, run_trait_bound, who_moved_there, Dog, Human, Moving,
    Runner};
use numpipe::pipeline::map_vec;
use numpipe::point::{Point, PointGeneric};
use numpipe::predicate::AddConst;

#[test]
fn iter_test() {
    let v: Vec<i32> = vec![1, 2, 3, 4, 5];
    let mut seen: Vec<i32> = Vec::new();
    for val in v.iter() {
        seen.push(*val);
    }
    assert_eq!(seen, v);

    let mut seen2: Vec<i32> = Vec::new();
    for val in &v {
        seen2.push(*val);
    }
    assert_eq!(seen2, v);
}

#[test]
fn into_iter_test() {
    let v: Vec<i32> = vec![1, 2, 3, 4, 5];
    let mut seen: Vec<i32> = Vec::new();
    for val in v.into_iter() {
        seen.push(val);
    }
    assert_eq!(seen, vec![1, 2, 3, 4, 5]);
}

#[test]
fn iter_mut_test() {
    let mut v: Vec<i32> = vec![1, 2, 3, 4, 5];
    for val in v.iter_mut() {
        *val += 1;
    }
    assert_eq!(v, vec![2, 3, 4, 5, 6]);

    let v: Vec<u64> = vec![1, 2, 3, 4, 5];
    let bumped = map_vec(&v, &AddConst(1));
    assert_eq!(bumped, vec![2, 3, 4, 5, 6]);
}

#[test]
fn iter_mut_for_each_test() {
    let mut v: Vec<i32> = vec![1, 2, 3, 4, 5];
    v.iter_mut().for_each(|val| *val += 1);
    assert_eq!(v, vec![2, 3, 4, 5, 6]);

    let v: Vec<u64> = vec![1, 2, 3, 4, 5];
    let bumped = map_vec(&v, &AddConst(1));
    assert_eq!(bumped, vec![2, 3, 4, 5, 6]);
}

#[test]
fn basic_arithmetic_helpers() {
    assert_eq!(add_one(5), 6);
    assert_eq!(add(3, 5), 8);
    assert!(!is_even1(3));
    assert!(is_even2(4));
    assert_eq!(min(2, 3), 2);
    assert_eq!(min_generic(2.5f32, 3.5f32), 2.5);
    assert_eq!(min_generic(3, 2), 2);
    assert_eq!(add_sub(2, 3), (5, -1));
    assert_eq!(add_sub(2.5f32, 3.5f32), (6.0, -1.0));
}

#[test]
fn division_helpers() {
    assert_eq!(divmod(10, 3), (3, 1));
    assert_eq!(divmod(-7, 2), (-3, -1));
    assert_eq!(divmod(7, -2), (-3, 1));
    assert_eq!(divmod(-7, -2), (3, -1));
    assert_eq!((-7) / 2, -3);
    assert_eq!((-7) % 2, -1);

    assert_eq!(divmod_result(10, 3), Ok((3, 1)));
    assert_eq!(divmod_result(10, 0), Err("division by zero".to_string()));

    assert_eq!(divide(26, 5), Some(5));
    assert_eq!(divide(26, 0), None);
}

#[test]
fn get_val_falls_back() {
    let v = vec![1, 2, 3];
    assert_eq!(1, get_val(&v, 3));
    assert_eq!(3, get_val(&v, 2));

    let v: Vec<i32> = Vec::new();
    assert_eq!(0, get_val(&v, 1));
}

#[test]
fn args_config_build() {
    let args: Vec<String> = vec![
        "prog".to_string(),
        "\"C:/src_dir\"".to_string(),
        "D:/tgt_dir".to_string(),
    ];
    let config = ArgsConfigs::build(&args).unwrap();
    assert_eq!(config.src_dir, "C:/src_dir");
    assert_eq!(config.dst_dir, "D:/tgt_dir");

    let short: Vec<String> = vec!["prog".to_string()];
    assert_eq!(ArgsConfigs::build(&short).err(), Some("not enough arguments"));
}

#[test]
fn counter_stops_after_one_hundred() {
    let mut counter = Counter { count: 12 };
    assert_eq!(counter.next(), Some(13));
    assert_eq!(counter.next(), Some(14));

    let mut counter = Counter { count: 100 };
    assert_eq!(counter.next(), Some(101));
    assert_eq!(counter.next(), None);
    assert_eq!(counter.next(), None);
}

#[test]
fn points_and_sums() {
    let p = Point::new(3, 4);
    assert_eq!(p.x, 3);
    assert_eq!(p.y, 4);

    let p2 = PointGeneric { x: 2, y: 3 };
    let p4 = PointGeneric { x: 3, y: 4 };
    let p5 = p2.add(&p4);
    assert_eq!((p5.x, p5.y), (5, 7));
    let p6 = p2.add2(&p4);
    assert_eq!((p6.x, p6.y), (5, 7));

    let q1 = PointGeneric { x: 2.5f64, y: 3.5f64 };
    let q2 = PointGeneric { x: 0.5f64, y: 0.5f64 };
    let q3 = q1.add(&q2);
    assert_eq!((q3.x, q3.y), (3.0, 4.0));
}

#[test]
fn movers_announce_themselves() {
    assert_eq!(run(Human), "This Human is moving!");
    assert_eq!(run(Dog), "This dog is moving!");
    assert_eq!(run_trait_bound(Human), "This Human is moving!");
    assert_eq!(who_moved_there().run(), "This Human is moving!");

    let x = find_runner(true);
    assert!(matches!(x, Runner::Person(_)));
    assert_eq!(x.run(), "This Human is moving!");
    let x = find_runner(false);
    assert!(matches!(x, Runner::Hound(_)));
    assert_eq!(x.run(), "This dog is moving!");
}

#[test]
fn customers_by_parity() {
    assert!(matches!(get_customer(10), Gender::Male));
    assert!(matches!(get_customer(7), Gender::Female));
    assert!(matches!(get_customer(-4), Gender::Male));

    match get_add_info_customer(10) {
        GenderAddInfo::Male { name, is_military } => {
            assert_eq!(name, "Jaff");
            assert!(is_military);
        }
        GenderAddInfo::Female { .. } => panic!("expected a male customer"),
    }
    match get_add_info_customer(3) {
        GenderAddInfo::Female { name } => assert_eq!(name, "Alice"),
        GenderAddInfo::Male { .. } => panic!("expected a female customer"),
    }
}

#[test]
fn graph_distance() {
    let g = MyGraph {};
    let s = Node { id: 1, name: "start".to_string(), value: 3 };
    let e = Node { id: 2, name: "end".to_string(), value: 10 };
    assert_eq!(distance(&g, &s, &e), 7);
    assert_eq!(distance_generic::<Node, Edge, MyGraph>(&g, &s, &e), 7);
}
