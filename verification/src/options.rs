//! Small verified exercises around options, boxes, closures and slices: an
//! `Option` look-alike with a lazy default, a `Box` look-alike, closures
//! that clone a borrowed string, a counted pointer to a string, and a few
//! slice and vector helpers.

use vstd::prelude::*;
use vstd::string::StringExecFns;
use std::rc::Rc;

verus! {

/// An `Option` look-alike, here to carry [`MyOption::unwrap_or_else`].
pub struct MyOption<T>(pub Option<T>);

impl<T> MyOption<T> {
    /// The held value if there is one, else whatever calling `f` yields.
    pub fn unwrap_or_else<F: FnOnce() -> T>(self, f: F) -> (r: T)
        requires
            self.0 is None ==> call_requires(f, ()),
        ensures
            (self.0 matches Some(x) ==> r == x),
            self.0 is None ==> call_ensures(f, (), r),
    {
        match self {
            MyOption(Some(x)) => x,
            MyOption(None) => f(),
        }
    }
}

/// A `Box` look-alike that stores its value inline.
pub struct MyBox<T>(pub T);

impl<T> MyBox<T> {
    /// Wraps `x`.
    pub fn new(x: T) -> (r: MyBox<T>)
        ensures
            r.0 == x,
    {
        MyBox(x)
    }
}

/// The successor of the held number, if any.
pub fn plus_one(x: Option<i32>) -> (r: Option<i32>)
    requires
        (x matches Some(i) ==> i < i32::MAX),
    ensures
        (x matches Some(i) ==> (r matches Some(j) && j == i + 1)),
        x is None ==> r is None,
{
    match x {
        None => None,
        Some(i) => Some(i + 1),
    }
}

/// A reference to the first string of a non-empty vector.
pub fn first(strings: &Vec<String>) -> (r: &String)
    requires
        strings@.len() > 0,
    ensures
        r == strings@[0],
{
    let s_ref = &strings[0];
    s_ref
}

/// A reference to the largest number of a non-empty slice: no element
/// exceeds it, and it occurs in the slice.
pub fn largest(list: &[i32]) -> (r: &i32)
    requires
        list@.len() > 0,
    ensures
        forall|k: int| 0 <= k < list@.len() ==> list@[k] <= *r,
        exists|k: int| 0 <= k < list@.len() && list@[k] == *r,
{
    let mut largest = &list[0];
    let mut i: usize = 1;
    while i < list.len()
        invariant
            1 <= i <= list@.len(),
            forall|k: int| 0 <= k < i ==> list@[k] <= *largest,
            exists|k: int| 0 <= k < i && list@[k] == *largest,
        decreases list@.len() - i,
    {
        let item = &list[i];
        if *item > *largest {
            largest = item;
        }
        i += 1;
    }
    largest
}

/// Boxes `a` and pushes it onto `v`.
pub fn f1<T>(v: &mut Vec<Box<T>>, a: T)
    ensures
        final(v)@.len() == old(v)@.len() + 1,
        forall|k: int| 0 <= k < old(v)@.len() ==> final(v)@[k] == old(v)@[k],
        *final(v)@.last() == a,
{
    v.push(Box::new(a));
}

/// Holds of a number other than zero.
pub open spec fn is_nonzero() -> spec_fn(i32) -> bool {
    |x: i32| x != 0
}

/// Removes every zero from `v`, keeping the other elements in order.
pub fn remove_zeroes_inplace(v: &mut Vec<i32>)
    ensures
        final(v)@ == old(v)@.filter(is_nonzero()),
{
    let ghost all = old(v)@;
    let ghost pred = is_nonzero();
    let mut kept: Vec<i32> = Vec::new();
    let mut i: usize = 0;
    proof {
        assert(all.take(0).filter(pred) =~= kept@);
    }
    while i < v.len()
        invariant
            v@ == all,
            pred == is_nonzero(),
            i <= all.len(),
            kept@ == all.take(i as int).filter(pred),
        decreases all.len() - i,
    {
        let x = v[i];
        if x != 0 {
            kept.push(x);
        }
        proof {
            all.lemma_take_succ_push(i as int);
            all.take(i as int).lemma_filter_push(all[i as int], pred);
        }
        i += 1;
    }
    proof {
        assert(all.take(all.len() as int) =~= all);
    }
    *v = kept;
}

/// Relies on `Rc::clone`: the new handle points at the same string.
#[verifier::external_body]
fn rc_clone_string(v: &Rc<String>) -> (res: Rc<String>)
    ensures
        res@ == (*v)@,
{
    Rc::clone(v)
}

/// A second handle to a counted `"hello"`; only the pointer is copied.
pub fn rc1() -> (r: Rc<String>)
    ensures
        r@ == "hello"@,
{
    let s = Rc::new(String::from_str("hello"));
    rc_clone_string(&s)
}

/// A closure that clones the borrowed string on every call.
pub fn make_a_cloner_v1<'a>(s_ref: &'a str) -> (f: impl Fn() -> String + 'a)
    ensures
        forall|r: String| #[trigger] f.ensures((), r) ==> r@ == s_ref@,
        call_requires(f, ()),
{
    (move || -> (r: String)
        ensures
            r@ == s_ref@,
        { s_ref.to_owned() })
}

/// The same cloner, with the borrow's lifetime left to elision.
pub fn make_a_cloner_v2(s_ref: &str) -> (f: impl Fn() -> String + '_)
    ensures
        forall|r: String| #[trigger] f.ensures((), r) ==> r@ == s_ref@,
        call_requires(f, ()),
{
    (move || -> (r: String)
        ensures
            r@ == s_ref@,
        { s_ref.to_owned() })
}

} // verus!
