//! The set of function names at which execution pauses.

use vstd::prelude::*;

verus! {

/// Holds function names; membership is exact, case-sensitive string match.
pub struct BreakpointManager {
    names: Vec<String>,
}

impl View for BreakpointManager {
    type V = Set<Seq<char>>;

    closed spec fn view(&self) -> Set<Seq<char>> {
        Set::new(|n: Seq<char>| exists|i: int| 0 <= i < self.names@.len() && self.names@[i]@ == n)
    }
}

impl BreakpointManager {
    /// No name is stored twice.
    #[verifier::type_invariant]
    spec fn wf(&self) -> bool {
        forall|i: int, j: int|
            0 <= i < j < self.names@.len() ==> (#[trigger] self.names@[i])@ != (#[trigger] self.names@[j])@
    }

    /// A manager with no breakpoint.
    pub fn new() -> (r: BreakpointManager)
        ensures
            r@ == Set::<Seq<char>>::empty(),
    {
        let r = BreakpointManager { names: Vec::new() };
        assert(r@ =~= Set::<Seq<char>>::empty());
        r
    }

    fn position(&self, name: &str) -> (r: Option<usize>)
        ensures
            match r {
                Some(i) => i < self.names@.len() && self.names@[i as int]@ == name@,
                None => forall|i: int| 0 <= i < self.names@.len() ==> (#[trigger] self.names@[i])@ != name@,
            },
    {
        let target = name.to_owned();
        let mut i: usize = 0;
        while i < self.names.len()
            invariant
                target@ == name@,
                i <= self.names@.len(),
                forall|x: int| 0 <= x < i ==> (#[trigger] self.names@[x])@ != name@,
            decreases self.names.len() - i,
        {
            if self.names[i] == target {
                return Some(i);
            }
            i = i + 1;
        }
        None
    }

    /// Registers `name`; nothing changes when it is already registered.
    pub fn add(&mut self, name: &str)
        ensures
            final(self)@ == old(self)@.insert(name@),
    {
        match self.position(name) {
            Some(_) => {
                assert(self@ =~= self@.insert(name@));
            },
            None => {
                proof {
                    use_type_invariant(&*self);
                }
                let ghost o = self.names@;
                let mut names: Vec<String> = Vec::new();
                std::mem::swap(&mut names, &mut self.names);
                names.push(name.to_owned());
                proof {
                    assert forall|i: int, j: int| 0 <= i < j < names@.len() implies (#[trigger] names@[i])@
                        != (#[trigger] names@[j])@ by {
                        if j < o.len() {
                            assert(names@[i] == o[i] && names@[j] == o[j]);
                        } else {
                            assert(names@[i] == o[i]);
                        }
                    }
                }
                self.names = names;
                assert(self.names@[o.len() as int]@ == name@);
                assert(self@ =~= Set::new(
                    |n: Seq<char>| exists|i: int| 0 <= i < o.len() && o[i]@ == n,
                ).insert(name@)) by {
                    assert forall|n: Seq<char>| #[trigger] self@.contains(n) implies n == name@ || exists|
                        i: int,
                    | 0 <= i < o.len() && o[i]@ == n by {
                        let i = choose|i: int| 0 <= i < self.names@.len() && self.names@[i]@ == n;
                        if i < o.len() {
                            assert(o[i] == self.names@[i]);
                        }
                    }
                    assert forall|n: Seq<char>| (exists|i: int| 0 <= i < o.len() && o[i]@ == n) implies #[trigger] self@.contains(n) by {
                        let i = choose|i: int| 0 <= i < o.len() && o[i]@ == n;
                        assert(self.names@[i] == o[i]);
                    }
                }
            },
        }
    }

    /// Unregisters `name`; nothing changes when it is not registered.
    pub fn remove(&mut self, name: &str)
        ensures
            final(self)@ == old(self)@.remove(name@),
    {
        match self.position(name) {
            Some(p) => {
                proof {
                    use_type_invariant(&*self);
                }
                let ghost o = self.names@;
                let ghost oset = self@;
                let mut names: Vec<String> = Vec::new();
                std::mem::swap(&mut names, &mut self.names);
                names.remove(p);
                let ghost n = names@;
                assert(n =~= o.remove(p as int));
                assert forall|x: int| 0 <= x < n.len() implies (#[trigger] n[x])@ != name@ by {
                    if x < p {
                        assert(n[x] == o[x]);
                    } else {
                        assert(n[x] == o[x + 1]);
                    }
                }
                assert forall|i: int, j: int| 0 <= i < j < n.len() implies (#[trigger] n[i])@
                    != (#[trigger] n[j])@ by {
                    let oi = if i < p { i } else { i + 1 };
                    let oj = if j < p { j } else { j + 1 };
                    assert(n[i] == o[oi] && n[j] == o[oj]);
                }
                self.names = names;
                assert(self@ =~= oset.remove(name@)) by {
                    assert forall|m: Seq<char>| #[trigger] self@.contains(m) implies oset.contains(m) by {
                        let i = choose|i: int| 0 <= i < n.len() && n[i]@ == m;
                        if i < p {
                            assert(o[i] == n[i]);
                        } else {
                            assert(o[i + 1] == n[i]);
                        }
                    }
                    assert forall|m: Seq<char>| oset.contains(m) && m != name@ implies #[trigger] self@.contains(m) by {
                        let i = choose|i: int| 0 <= i < o.len() && o[i]@ == m;
                        if i < p {
                            assert(n[i] == o[i]);
                        } else {
                            assert(i != p);
                            assert(n[i - 1] == o[i]);
                        }
                    }
                }
            },
            None => {
                assert(self@ =~= self@.remove(name@));
            },
        }
    }

    /// Whether `name` is registered.
    pub fn should_break(&self, name: &str) -> (r: bool)
        ensures
            r == self@.contains(name@),
    {
        match self.position(name) {
            Some(_) => true,
            None => false,
        }
    }
}

/// A registered name breaks, an unregistered one does not, and a name breaks
/// no more once removed.
pub proof fn breakpoint_membership(registered: Set<Seq<char>>, name: Seq<char>, other: Seq<char>)
    ensures
        registered.insert(name).contains(name),
        !registered.remove(name).contains(name),
        !Set::<Seq<char>>::empty().contains(name),
        other != name ==> (registered.insert(name).contains(other) == registered.contains(other)),
        other != name ==> (registered.remove(name).contains(other) == registered.contains(other)),
{
}

} // verus!
