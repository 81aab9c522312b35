//! A persistent singly linked list: the container behind every register of the machine.
use vstd::prelude::*;

verus! {

/// Why a list operation could not be carried out.
#[derive(Debug, Clone, Copy, PartialEq, Eq, Structural)]
pub enum ListError {
    /// The list holds no item.
    Empty,
    /// The index is not less than the list's length.
    IndexOutOfRange,
}

/// An immutable list: either empty, or an item in front of a shorter list.
#[derive(Debug, PartialEq)]
pub enum List<T> {
    Cons(T, Box<List<T>>),
    Nil,
}

impl<T> List<T> {
    /// The items of the list, head first.
    pub open spec fn items(self) -> Seq<T>
        decreases self,
    {
        match self {
            List::Cons(h, t) => seq![h] + (*t).items(),
            List::Nil => Seq::empty(),
        }
    }

    /// The list with no item.
    pub fn empty() -> (r: List<T>)
        ensures
            r@ == Seq::<T>::empty(),
    {
        List::Nil
    }

    /// The list with `item` in front of `self`.
    pub fn push(self, item: T) -> (r: List<T>)
        ensures
            r@ == seq![item] + self@,
    {
        List::Cons(item, Box::new(self))
    }

    /// The head and the tail of the list, or `Empty` where there is no head.
    pub fn pop(self) -> (r: Result<(T, List<T>), ListError>)
        ensures
            match r {
                Ok((h, t)) => self@.len() > 0 && h == self@[0] && t@ == self@.drop_first(),
                Err(e) => self@.len() == 0 && e == ListError::Empty,
            },
    {
        match self {
            List::Cons(h, t) => {
                proof {
                    assert(self@.drop_first() =~= (*t)@);
                }
                Ok((h, *t))
            },
            List::Nil => Err(ListError::Empty),
        }
    }

    /// The head of the list, where there is one.
    pub fn peek(&self) -> (r: Option<&T>)
        ensures
            match r {
                Some(h) => self@.len() > 0 && *h == self@[0],
                None => self@.len() == 0,
            },
    {
        match self {
            List::Cons(h, _) => Some(h),
            List::Nil => None,
        }
    }

    /// Whether the list holds no item.
    pub fn is_empty(&self) -> (r: bool)
        ensures
            r == (self@.len() == 0),
    {
        match self {
            List::Cons(_, _) => false,
            List::Nil => true,
        }
    }

    /// The item `n` places from the head.
    pub fn index(&self, n: u64) -> (r: Result<&T, ListError>)
        ensures
            match r {
                Ok(x) => n < self@.len() && *x == self@[n as int],
                Err(e) => n >= self@.len() && e == ListError::IndexOutOfRange,
            },
    {
        let mut cur: &List<T> = self;
        let mut i: u64 = 0;
        while i < n
            invariant
                i <= n,
                i <= self@.len(),
                cur@ == self@.subrange(i as int, self@.len() as int),
            decreases n - i,
        {
            match cur {
                List::Cons(_, t) => {
                    proof {
                        assert(cur@.drop_first() =~= (**t)@);
                    }
                    cur = &**t;
                    i = i + 1;
                },
                List::Nil => {
                    return Err(ListError::IndexOutOfRange);
                },
            }
        }
        match cur {
            List::Cons(h, _) => {
                proof {
                    assert(cur@[0] == self@.subrange(n as int, self@.len() as int)[0]);
                }
                Ok(h)
            },
            List::Nil => Err(ListError::IndexOutOfRange),
        }
    }

    /// The number of items, counted by walking the list.
    pub fn length(&self) -> (r: usize)
        requires
            self@.len() <= usize::MAX,
        ensures
            r == self@.len(),
    {
        let mut cur: &List<T> = self;
        let mut n: usize = 0;
        loop
            invariant
                n + cur@.len() == self@.len(),
                self@.len() <= usize::MAX,
            decreases cur@.len(),
        {
            match cur {
                List::Cons(_, t) => {
                    proof {
                        assert(cur@.drop_first() =~= (**t)@);
                    }
                    cur = &**t;
                    n = n + 1;
                },
                List::Nil => {
                    return n;
                },
            }
        }
    }
}

impl<T> List<T> {
    /// The list of the vector's items, in the same order.
    pub fn from_vec(v: Vec<T>) -> (r: List<T>)
        ensures
            r@ == v@,
    {
        let mut v = v;
        let ghost all = v@;
        let mut l: List<T> = List::Nil;
        while v.len() > 0
            invariant
                all.len() == v@.len() + l@.len(),
                v@ == all.subrange(0, v@.len() as int),
                l@ == all.subrange(v@.len() as int, all.len() as int),
            decreases v@.len(),
        {
            let x = v.pop().unwrap();
            proof {
                assert(seq![x] + l@ =~= all.subrange(v@.len() as int, all.len() as int));
                assert(v@ =~= all.subrange(0, v@.len() as int));
            }
            l = l.push(x);
        }
        proof {
            assert(l@ =~= all);
        }
        l
    }
}

impl<T> View for List<T> {
    type V = Seq<T>;

    open spec fn view(&self) -> Seq<T> {
        self.items()
    }
}

} // verus!
