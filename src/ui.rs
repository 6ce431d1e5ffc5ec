//! The temporary changes that button actions make to a value: a stack per
//! value, and the stacks of all the targets of one kind of action.

use std::collections::HashMap;
use vstd::prelude::*;
use vstd::std_specs::cmp::PartialEqSpec;

verus! {

/// `i` is the index of the first element of `s` equal to `v`.
pub open spec fn is_first_match<T: PartialEq>(s: Seq<T>, v: T, i: int) -> bool {
    &&& 0 <= i < s.len()
    &&& s[i].eq_spec(&v)
    &&& forall|j: int| 0 <= j < i ==> !#[trigger] s[j].eq_spec(&v)
}

/// `after` is `before` with the oldest change equal to `change` taken off,
/// or `before` itself when no change is equal to it.
pub open spec fn removed_from<T: PartialEq>(before: Seq<T>, change: T, after: Seq<T>) -> bool {
    ||| exists|i: int| is_first_match(before, change, i) && after == before.remove(i)
    ||| (forall|j: int| 0 <= j < before.len() ==> !#[trigger] before[j].eq_spec(&change)) && after == before
}

/// The value in force over `initial` with the changes `stack`.
pub open spec fn value_in_force<T>(initial: T, stack: Seq<T>) -> T {
    if stack.len() == 0 {
        initial
    } else {
        stack.last()
    }
}

/// A value with a stack of changes laid over it: the newest change that has
/// not been removed is in force, the initial value when none is left.
pub struct ActionChangeStack<T: Clone + PartialEq> {
    initial_value: T,
    stack: Vec<T>,
}

impl<T: Clone + PartialEq> View for ActionChangeStack<T> {
    type V = (T, Seq<T>);

    closed spec fn view(&self) -> (T, Seq<T>) {
        (self.initial_value, self.stack@)
    }
}

impl<T: Clone + PartialEq> ActionChangeStack<T> {
    /// The value in force.
    pub open spec fn spec_current(self) -> T {
        value_in_force(self@.0, self@.1)
    }

    /// A stack with no changes over `initial_value`.
    pub fn new(initial_value: T) -> (r: Self)
        ensures
            r@ == (initial_value, Seq::<T>::empty()),
    {
        ActionChangeStack { initial_value, stack: Vec::new() }
    }

    /// Lays `change` over the others.
    pub fn add(&mut self, change: T)
        ensures
            final(self)@ == (old(self)@.0, old(self)@.1.push(change)),
    {
        self.stack.push(change);
    }

    /// Takes the oldest change equal to `change` off the stack and returns
    /// it; `None`, changing nothing, when no change is equal to it.
    pub fn remove(&mut self, change: &T) -> (r: Option<T>)
        ensures
            final(self)@.0 == old(self)@.0,
            r is None ==> final(self)@ == old(self)@,
            r is Some ==> final(self)@.1.len() == old(self)@.1.len() - 1,
            T::obeys_eq_spec() && r is Some ==> exists|i: int|
                is_first_match(old(self)@.1, *change, i) && r == Some(old(self)@.1[i]) && final(self)@.1
                    == old(self)@.1.remove(i),
            T::obeys_eq_spec() && r is None ==> forall|j: int|
                0 <= j < old(self)@.1.len() ==> !#[trigger] old(self)@.1[j].eq_spec(change),
    {
        let mut i: usize = 0;
        while i < self.stack.len()
            invariant
                i <= self.stack@.len(),
                self.stack@ == old(self).stack@,
                self.initial_value == old(self).initial_value,
                T::obeys_eq_spec() ==> forall|j: int| 0 <= j < i ==> !#[trigger] self.stack@[j].eq_spec(change),
            decreases self.stack@.len() - i,
        {
            if self.stack[i] == *change {
                proof {
                    if T::obeys_eq_spec() {
                        assert(is_first_match(old(self)@.1, *change, i as int));
                    }
                }
                return Some(self.stack.remove(i));
            }
            i += 1;
        }
        None
    }

    /// Whether no change is left.
    pub fn is_empty(&self) -> (r: bool)
        ensures
            r == (self@.1.len() == 0),
    {
        self.stack.is_empty()
    }

    /// A clone of the value in force.
    pub fn current(&self) -> (r: T)
        ensures
            cloned(self.spec_current(), r),
    {
        if self.stack.is_empty() {
            self.initial_value.clone()
        } else {
            self.stack[self.stack.len() - 1].clone()
        }
    }
}

/// The change stacks of every target of one kind of button action, by the
/// index of the target entity. A target has a stack only while some change
/// is laid over its value.
pub struct ButtonChanges<T: Clone + PartialEq> {
    stacks: HashMap<usize, ActionChangeStack<T>>,
}

impl<T: Clone + PartialEq> View for ButtonChanges<T> {
    type V = Map<usize, (T, Seq<T>)>;

    closed spec fn view(&self) -> Map<usize, (T, Seq<T>)> {
        self.stacks@.map_values(|s: ActionChangeStack<T>| s@)
    }
}

impl<T: Clone + PartialEq> ButtonChanges<T> {
    /// No target has a change.
    pub fn new() -> (r: Self)
        ensures
            r@ == Map::<usize, (T, Seq<T>)>::empty(),
    {
        broadcast use vstd::std_specs::hash::group_hash_axioms;

        let r = ButtonChanges { stacks: HashMap::new() };
        proof {
            assert(r@ =~= Map::<usize, (T, Seq<T>)>::empty());
        }
        r
    }

    /// Lays `change` over the value of `target`, whose value is `current`.
    /// The first change of a target records `current` as the value to go
    /// back to; later ones keep the value first recorded.
    pub fn set(&mut self, target: usize, current: T, change: T)
        ensures
            final(self)@ == old(self)@.insert(
                target,
                if old(self)@.contains_key(target) {
                    (old(self)@[target].0, old(self)@[target].1.push(change))
                } else {
                    (current, seq![change])
                },
            ),
    {
        broadcast use vstd::std_specs::hash::group_hash_axioms;

        let mut stack = match self.stacks.remove(&target) {
            Some(s) => s,
            None => ActionChangeStack::new(current),
        };
        stack.add(change);
        self.stacks.insert(target, stack);
        proof {
            assert(final(self)@ =~= old(self)@.insert(
                target,
                if old(self)@.contains_key(target) {
                    (old(self)@[target].0, old(self)@[target].1.push(change))
                } else {
                    (current, seq![change])
                },
            ));
        }
    }

    /// Takes `change` off the stack of `target` and returns a clone of the
    /// value then in force; the stack goes once it is empty. `None`,
    /// changing nothing, when `target` has no stack.
    pub fn unset(&mut self, target: usize, change: &T) -> (r: Option<T>)
        ensures
            !old(self)@.contains_key(target) ==> r is None && final(self)@ == old(self)@,
            old(self)@.contains_key(target) ==> {
                let (initial, before) = old(self)@[target];
                &&& r is Some
                &&& forall|k: usize| k != target ==> #[trigger] final(self)@.contains_key(k)
                    == old(self)@.contains_key(k) && (old(self)@.contains_key(k) ==> final(self)@[k]
                    == old(self)@[k])
                &&& final(self)@.contains_key(target) ==> {
                    &&& final(self)@[target].0 == initial
                    &&& final(self)@[target].1.len() > 0
                    &&& T::obeys_eq_spec() ==> removed_from(before, *change, final(self)@[target].1)
                    &&& cloned(final(self)@[target].1.last(), r.unwrap())
                }
                &&& !final(self)@.contains_key(target) ==> {
                    &&& T::obeys_eq_spec() ==> removed_from(before, *change, Seq::<T>::empty())
                    &&& cloned(initial, r.unwrap())
                }
            },
    {
        broadcast use vstd::std_specs::hash::group_hash_axioms;

        match self.stacks.remove(&target) {
            None => {
                proof {
                    assert(final(self)@ =~= old(self)@);
                }
                None
            },
            Some(mut stack) => {
                let ghost s0 = stack@;
                let _removed = stack.remove(change);
                proof {
                    if T::obeys_eq_spec() {
                        assert(removed_from(s0.1, *change, stack@.1));
                    }
                    if stack@.1.len() == 0 {
                        assert(stack@.1 =~= Seq::<T>::empty());
                    }
                }
                let current = stack.current();
                if !stack.is_empty() {
                    self.stacks.insert(target, stack);
                }
                Some(current)
            },
        }
    }

    /// Whether `target` has a change laid over its value.
    pub fn contains(&self, target: usize) -> (r: bool)
        ensures
            r == self@.contains_key(target),
    {
        broadcast use vstd::std_specs::hash::group_hash_axioms;

        self.stacks.contains_key(&target)
    }
}

/// The state that the button system keeps between frames: the changes that
/// button actions have laid over the images of targets and over the text
/// colours of their children.
pub struct UiButtonSystem<Tex: Clone + PartialEq, Color: Clone + PartialEq> {
    pub set_textures: ButtonChanges<Tex>,
    pub set_text_colors: ButtonChanges<Color>,
}

impl<Tex: Clone + PartialEq, Color: Clone + PartialEq> UiButtonSystem<Tex, Color> {
    /// Creates a new instance of this structure
    pub fn new() -> (r: Self)
        ensures
            r.set_textures@ == Map::<usize, (Tex, Seq<Tex>)>::empty(),
            r.set_text_colors@ == Map::<usize, (Color, Seq<Color>)>::empty(),
    {
        UiButtonSystem { set_textures: ButtonChanges::new(), set_text_colors: ButtonChanges::new() }
    }
}

} // verus!
