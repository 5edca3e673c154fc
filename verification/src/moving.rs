//! A small trait of things that can move, with two implementors and
//! the dispatching helpers around them.

use vstd::prelude::*;
use vstd::string::StringExecFns;

verus! {

/// Something that can run and announce itself while doing so.
pub trait Moving {
    /// The announcement the runner makes.
    spec fn message(&self) -> Seq<char>;

    /// Runs, producing the announcement.
    fn run(&self) -> (r: String)
        ensures
            r@ == self.message(),
    ;
}

/// A dog.
pub struct Dog;

/// A human.
pub struct Human;

impl Moving for Dog {
    open spec fn message(&self) -> Seq<char> {
        "This dog is moving!"@
    }

    fn run(&self) -> (r: String) {
        String::from_str("This dog is moving!")
    }
}

impl Moving for Human {
    open spec fn message(&self) -> Seq<char> {
        "This Human is moving!"@
    }

    fn run(&self) -> (r: String) {
        String::from_str("This Human is moving!")
    }
}

/// Lets anything that can move run, and reports its announcement.
pub fn run<M: Moving>(x: M) -> (r: String)
    ensures
        r@ == x.message(),
{
    x.run()
}

/// The same dispatch written with an explicit trait bound.
pub fn run_trait_bound<T: Moving>(x: T) -> (r: String)
    ensures
        r@ == x.message(),
{
    x.run()
}

/// The one mover that showed up: always a human.
pub fn who_moved_there() -> (r: Human) {
    let jeff = Human;
    jeff
}

/// One of the two kinds of runner, picked at run time.
pub enum Runner {
    Person(Human),
    Hound(Dog),
}

impl Moving for Runner {
    open spec fn message(&self) -> Seq<char> {
        match self {
            Runner::Person(h) => h.message(),
            Runner::Hound(d) => d.message(),
        }
    }

    fn run(&self) -> (r: String) {
        match self {
            Runner::Person(h) => h.run(),
            Runner::Hound(d) => d.run(),
        }
    }
}

/// Picks a runner: a human when asked for one, a dog otherwise.
pub fn find_runner(is_human: bool) -> (r: Runner)
    ensures
        is_human ==> r is Person,
        !is_human ==> r is Hound,
{
    if is_human {
        Runner::Person(Human)
    } else {
        Runner::Hound(Dog)
    }
}

} // verus!
