//! The table of device paths held open, which keeps every handle exclusive.
use vstd::prelude::*;
use crate::error::TransportError;
use crate::uart_list::views;

verus! {

/// The device paths that are held open, in the order in which they were opened.
#[derive(Debug)]
pub struct DeviceRegistry {
    open: Vec<String>,
}

/// The result of opening `p` when `reg` is held: busy if `p` is held already, else
/// `p` is added last.
pub open spec fn open_spec(reg: Seq<Seq<char>>, p: Seq<char>) -> Option<Seq<Seq<char>>> {
    if reg.contains(p) {
        None
    } else {
        Some(reg.push(p))
    }
}

/// Opening a path that the first opening has just made held fails: a device path is
/// never held twice.
pub proof fn lemma_open_twice_busy(reg: Seq<Seq<char>>, p: Seq<char>)
    requires
        open_spec(reg, p) is Some,
    ensures
        open_spec(open_spec(reg, p)->0, p) is None,
{
    let next = reg.push(p);
    assert(next[reg.len() as int] == p);
}

impl DeviceRegistry {
    /// The paths held open, in the order of opening.
    pub closed spec fn view(&self) -> Seq<Seq<char>> {
        views(self.open@)
    }

    /// No path is held twice.
    #[verifier::type_invariant]
    spec fn inv(self) -> bool {
        self@.no_duplicates()
    }

    /// A registry that holds nothing.
    pub fn new() -> (r: DeviceRegistry)
        ensures
            r@ == Seq::<Seq<char>>::empty(),
    {
        let r = DeviceRegistry { open: Vec::new() };
        assert(r@ =~= Seq::<Seq<char>>::empty());
        r
    }

    /// The number of paths held open.
    pub fn len(&self) -> (r: usize)
        ensures
            r == self@.len(),
    {
        self.open.len()
    }

    /// Whether `path` is held open.
    pub fn is_open(&self, path: &String) -> (r: bool)
        ensures
            r == self@.contains(path@),
    {
        let n = self.open.len();
        let mut i: usize = 0;
        while i < n
            invariant
                n == self@.len(),
                i <= n,
                forall|k: int| 0 <= k < i ==> self@[k] != path@,
            decreases n - i,
        {
            assert(self@[i as int] == self.open@[i as int]@);
            if self.open[i] == *path {
                return true;
            }
            i = i + 1;
        }
        false
    }

    /// Holds `path` open; `DeviceBusy` with the path, and nothing changed, if it is
    /// held already.
    pub fn open(&mut self, path: &String) -> (r: Result<(), TransportError>)
        ensures
            match open_spec(old(self)@, path@) {
                Some(next) => r is Ok && final(self)@ == next,
                None => final(self)@ == old(self)@ && (r matches Err(
                    TransportError::DeviceBusy(p),
                ) && p@ == path@),
            },
    {
        if self.is_open(path) {
            Err(TransportError::DeviceBusy(path.clone()))
        } else {
            proof {
                use_type_invariant(&*self);
            }
            let mut held: Vec<String> = Vec::new();
            assert(views(held@) =~= Seq::<Seq<char>>::empty());
            std::mem::swap(&mut held, &mut self.open);
            held.push(path.clone());
            assert(views(held@) =~= old(self)@.push(path@));
            std::mem::swap(&mut held, &mut self.open);
            assert(self@ =~= old(self)@.push(path@));
            Ok(())
        }
    }

    /// Releases `path`; nothing changes if it is not held.
    pub fn close(&mut self, path: &String)
        ensures
            old(self)@.no_duplicates(),
            final(self)@.no_duplicates(),
            !old(self)@.contains(path@) ==> final(self)@ == old(self)@,
            forall|q: Seq<char>| #[trigger]
                final(self)@.contains(q) <==> old(self)@.contains(q) && q != path@,
            old(self)@.contains(path@) ==> exists|k: int|
                0 <= k < old(self)@.len() && old(self)@[k] == path@ && final(self)@ == old(
                    self,
                )@.remove(k),
    {
        proof {
            use_type_invariant(&*self);
        }
        let n = self.open.len();
        let mut i: usize = 0;
        while i < n
            invariant
                n == self@.len(),
                self == old(self),
                old(self)@.no_duplicates(),
                i <= n,
                forall|k: int| 0 <= k < i ==> self@[k] != path@,
            decreases n - i,
        {
            assert(self@[i as int] == self.open@[i as int]@);
            if self.open[i] == *path {
                let ghost before = self@;
                let mut held: Vec<String> = Vec::new();
                assert(views(held@) =~= Seq::<Seq<char>>::empty());
                std::mem::swap(&mut held, &mut self.open);
                held.remove(i);
                let ghost after = views(held@);
                assert(after =~= before.remove(i as int));
                proof {
                    assert(before.no_duplicates());
                    assert forall|a: int, b: int|
                        0 <= a < after.len() && 0 <= b < after.len() && a != b implies after[a]
                        != after[b] by {
                        let a2 = if a < i { a } else { a + 1 };
                        let b2 = if b < i { b } else { b + 1 };
                        assert(after[a] == before[a2] && after[b] == before[b2]);
                        assert(a2 != b2 && a2 < before.len() && b2 < before.len());
                    }
                    assert forall|q: Seq<char>| #[trigger]
                        after.contains(q) <==> before.contains(q) && q != path@ by {
                        if after.contains(q) {
                            let a = choose|a: int| 0 <= a < after.len() && after[a] == q;
                            let a2 = if a < i { a } else { a + 1 };
                            assert(before[a2] == q);
                            assert(a2 != i);
                        }
                        if before.contains(q) && q != path@ {
                            let a = choose|a: int| 0 <= a < before.len() && before[a] == q;
                            assert(a != i);
                            let a1 = if a < i { a } else { a - 1 };
                            assert(after[a1] == q);
                        }
                    }
                }
                std::mem::swap(&mut held, &mut self.open);
                return;
            }
            i = i + 1;
        }
    }
}

} // verus!
