use vstd::prelude::*;

verus! {

/// The tokens of `entries`, in order, without `exclude`.
pub open spec fn tokens_except<T>(entries: Seq<(u64, T)>, exclude: Option<u64>) -> Seq<u64>
    decreases entries.len(),
{
    if entries.len() == 0 {
        Seq::empty()
    } else {
        let rest = tokens_except(entries.drop_last(), exclude);
        if exclude == Some(entries.last().0) {
            rest
        } else {
            rest.push(entries.last().0)
        }
    }
}

/// The connections eligible for broadcasts, each under the random token that
/// identifies it, with a handle to reach it.
pub struct Registry<T> {
    entries: Vec<(u64, T)>,
}

impl<T> View for Registry<T> {
    type V = Seq<(u64, T)>;

    closed spec fn view(&self) -> Seq<(u64, T)> {
        self.entries@
    }
}

/// No token appears twice.
pub open spec fn unique_tokens<T>(s: Seq<(u64, T)>) -> bool {
    forall|i: int, j: int| 0 <= i < s.len() && 0 <= j < s.len() && i != j ==> s[i].0 != s[j].0
}

/// Position of `token` in `s`.
pub open spec fn holds_at<T>(s: Seq<(u64, T)>, token: u64, i: int) -> bool {
    0 <= i < s.len() && s[i].0 == token
}

impl<T> Registry<T> {
    pub open spec fn wf(&self) -> bool {
        unique_tokens(self@)
    }

    /// The tokens of the members.
    pub open spec fn members(&self) -> Set<u64> {
        Set::new(|t: u64| exists|i: int| holds_at(self@, t, i))
    }

    pub fn new() -> (r: Self)
        ensures
            r@ == Seq::<(u64, T)>::empty(),
            r.wf(),
    {
        Registry { entries: Vec::new() }
    }

    pub fn len(&self) -> (r: usize)
        ensures
            r == self@.len(),
    {
        self.entries.len()
    }

    /// Where `token` stands, if it is a member.
    fn position(&self, token: u64) -> (r: Option<usize>)
        ensures
            match r {
                Some(i) => holds_at(self@, token, i as int),
                None => forall|i: int| !holds_at(self@, token, i),
            },
    {
        let mut i: usize = 0;
        while i < self.entries.len()
            invariant
                i <= self@.len(),
                forall|j: int| 0 <= j < i ==> !holds_at(self@, token, j),
            decreases self@.len() - i,
        {
            if self.entries[i].0 == token {
                return Some(i);
            }
            i = i + 1;
        }
        None
    }

    pub fn contains(&self, token: u64) -> (r: bool)
        ensures
            r == self.members().contains(token),
    {
        self.position(token).is_some()
    }

    /// The handle of member `token`.
    pub fn get(&self, token: u64) -> (r: Option<&T>)
        ensures
            match r {
                Some(h) => exists|i: int| holds_at(self@, token, i) && self@[i].1 == *h,
                None => !self.members().contains(token),
            },
    {
        match self.position(token) {
            Some(i) => Some(&self.entries[i].1),
            None => None,
        }
    }

    /// Adds `handle` under `token`; a token that is already a member keeps
    /// its handle, and the result is then `false`.
    pub fn insert(&mut self, token: u64, handle: T) -> (r: bool)
        requires
            old(self).wf(),
        ensures
            final(self).wf(),
            r == !old(self).members().contains(token),
            r ==> final(self)@ == old(self)@.push((token, handle)),
            !r ==> final(self)@ == old(self)@,
            final(self).members() == old(self).members().insert(token),
    {
        if self.position(token).is_some() {
            assert(self.members() =~= self.members().insert(token));
            return false;
        }
        let ghost before = self@;
        self.entries.push((token, handle));
        assert forall|i: int, j: int|
            0 <= i < self@.len() && 0 <= j < self@.len() && i != j implies self@[i].0 != self@[j].0 by {
            if i < before.len() && j < before.len() {
                assert(self@[i] == before[i] && self@[j] == before[j]);
            } else if i < before.len() {
                assert(!holds_at(before, token, i));
            } else {
                assert(!holds_at(before, token, j));
            }
        }
        assert(self.members() =~= old(self).members().insert(token)) by {
            assert forall|t: u64| #[trigger] self.members().contains(t) implies old(
                self,
            ).members().insert(token).contains(t) by {
                let i = choose|i: int| holds_at(self@, t, i);
                if i < old(self)@.len() {
                    assert(holds_at(old(self)@, t, i));
                }
            }
            assert forall|t: u64| #[trigger] old(self).members().insert(token).contains(t) implies self.members().contains(t) by {
                if t == token {
                    assert(holds_at(self@, t, old(self)@.len() as int));
                } else {
                    let i = choose|i: int| holds_at(old(self)@, t, i);
                    assert(holds_at(self@, t, i));
                }
            }
        }
        true
    }

    /// Removes member `token` and gives back its handle.
    pub fn remove(&mut self, token: u64) -> (r: Option<T>)
        requires
            old(self).wf(),
        ensures
            final(self).wf(),
            final(self).members() == old(self).members().remove(token),
            match r {
                Some(h) => exists|i: int| holds_at(old(self)@, token, i) && old(self)@[i].1 == h
                    && final(self)@ == old(self)@.remove(i),
                None => !old(self).members().contains(token) && final(self)@ == old(self)@,
            },
    {
        match self.position(token) {
            None => {
                assert(self.members() =~= self.members().remove(token));
                None
            },
            Some(i) => {
                let ghost old_entries = self@;
                let (_, h) = self.entries.remove(i);
                assert(self@ == old_entries.remove(i as int));
                assert(self.members() =~= old(self).members().remove(token)) by {
                    assert forall|t: u64| #[trigger] self.members().contains(t) implies old(
                        self,
                    ).members().remove(token).contains(t) by {
                        let j = choose|j: int| holds_at(self@, t, j);
                        if j < i {
                            assert(holds_at(old_entries, t, j));
                        } else {
                            assert(holds_at(old_entries, t, j + 1));
                        }
                    }
                    assert forall|t: u64| #[trigger] old(self).members().remove(token).contains(
                        t,
                    ) implies self.members().contains(t) by {
                        let j = choose|j: int| holds_at(old_entries, t, j);
                        if j < i {
                            assert(holds_at(self@, t, j));
                        } else {
                            assert(j != i);
                            assert(holds_at(self@, t, j - 1));
                        }
                    }
                }
                Some(h)
            },
        }
    }

    /// A snapshot of the members' tokens, in order, without `exclude`: the
    /// members that a broadcast reaches.
    pub fn broadcast_targets(&self, exclude: Option<u64>) -> (r: Vec<u64>)
        ensures
            r@ == tokens_except(self@, exclude),
    {
        let mut out: Vec<u64> = Vec::new();
        let mut i: usize = 0;
        while i < self.entries.len()
            invariant
                i <= self@.len(),
                out@ == tokens_except(self@.subrange(0, i as int), exclude),
            decreases self@.len() - i,
        {
            let t = self.entries[i].0;
            let ghost prefix = self@.subrange(0, i + 1);
            assert(prefix.drop_last() =~= self@.subrange(0, i as int));
            let skip = match exclude {
                Some(e) => e == t,
                None => false,
            };
            if !skip {
                out.push(t);
            }
            i = i + 1;
        }
        assert(self@.subrange(0, i as int) =~= self@);
        out
    }

    /// Removes each of `tokens` (those that a broadcast could not reach).
    pub fn remove_all(&mut self, tokens: &Vec<u64>)
        requires
            old(self).wf(),
        ensures
            final(self).wf(),
            final(self).members() == old(self).members().difference(tokens@.to_set()),
    {
        let mut i: usize = 0;
        while i < tokens.len()
            invariant
                i <= tokens@.len(),
                self.wf(),
                self.members() == old(self).members().difference(
                    tokens@.subrange(0, i as int).to_set(),
                ),
            decreases tokens@.len() - i,
        {
            let _ = self.remove(tokens[i]);
            assert(tokens@.subrange(0, i + 1).to_set() =~= tokens@.subrange(0, i as int).to_set().insert(
                tokens@[i as int],
            )) by {
                assert(tokens@.subrange(0, i + 1) =~= tokens@.subrange(0, i as int).push(tokens@[i as int]));
                tokens@.subrange(0, i as int).lemma_push_to_set_commute(tokens@[i as int]);
            }
            assert(self.members() =~= old(self).members().difference(
                tokens@.subrange(0, i + 1).to_set(),
            ));
            i = i + 1;
        }
        assert(tokens@.subrange(0, i as int) =~= tokens@);
    }
}

} // verus!
