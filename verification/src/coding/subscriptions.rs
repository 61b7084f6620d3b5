//! Who waits for which block.

use vstd::prelude::*;

use crate::types::Digest;

verus! {

/// The responders that wait for a block, by the commitment of the block.
pub struct Subscriptions<R> {
    entries: Vec<(Digest, Vec<R>)>,
}

/// Those who wait for `commitment`, in the order in which they came.
pub open spec fn waiting<R>(m: Map<Seq<u8>, Seq<R>>, commitment: Seq<u8>) -> Seq<R> {
    if m.dom().contains(commitment) {
        m[commitment]
    } else {
        Seq::empty()
    }
}

/// One more responder waits for `commitment`, behind those who wait already.
pub open spec fn joined<R>(m: Map<Seq<u8>, Seq<R>>, commitment: Seq<u8>, responder: R) -> Map<
    Seq<u8>,
    Seq<R>,
> {
    m.insert(commitment, waiting(m, commitment).push(responder))
}

/// The responders of the entry for `commitment`.
spec fn entry_for<R>(entries: Seq<(Digest, Vec<R>)>, commitment: Seq<u8>) -> Seq<R> {
    entries[choose|i: int| 0 <= i < entries.len() && (#[trigger] entries[i]).0@ == commitment].1@
}

/// Whether there is an entry for `commitment`.
spec fn has_entry<R>(entries: Seq<(Digest, Vec<R>)>, commitment: Seq<u8>) -> bool {
    exists|i: int| 0 <= i < entries.len() && (#[trigger] entries[i]).0@ == commitment
}

/// Whether no commitment has two entries.
spec fn distinct<R>(entries: Seq<(Digest, Vec<R>)>) -> bool {
    forall|i: int, j: int|
        0 <= i < j < entries.len() ==> (#[trigger] entries[i]).0@ != (#[trigger] entries[j]).0@
}

impl<R> View for Subscriptions<R> {
    type V = Map<Seq<u8>, Seq<R>>;

    closed spec fn view(&self) -> Map<Seq<u8>, Seq<R>> {
        Map::new(
            |c: Seq<u8>| has_entry(self.entries@, c),
            |c: Seq<u8>| entry_for(self.entries@, c),
        )
    }
}

impl<R> Subscriptions<R> {
    /// Every commitment has at most one entry, and every entry someone who waits.
    pub closed spec fn wf(&self) -> bool {
        &&& distinct(self.entries@)
        &&& forall|i: int|
            0 <= i < self.entries@.len() ==> (#[trigger] self.entries@[i]).1@.len() > 0
    }

    /// No one waits.
    pub fn new() -> (r: Self)
        ensures
            r.wf(),
            r@ == Map::<Seq<u8>, Seq<R>>::empty(),
    {
        let r = Subscriptions { entries: Vec::new() };
        assert(r@ =~= Map::<Seq<u8>, Seq<R>>::empty());
        r
    }

    /// The entry for `commitment`, if there is one.
    fn position(&self, commitment: &Digest) -> (r: Option<usize>)
        ensures
            match r {
                Some(i) => i < self.entries@.len() && self.entries@[i as int].0@ == commitment@,
                None => !has_entry(self.entries@, commitment@),
            },
    {
        let mut i: usize = 0;
        while i < self.entries.len()
            invariant
                i <= self.entries@.len(),
                forall|j: int| 0 <= j < i ==> (#[trigger] self.entries@[j]).0@ != commitment@,
            decreases self.entries@.len() - i,
        {
            if self.entries[i].0 == *commitment {
                return Some(i);
            }
            i += 1;
        }
        None
    }

    /// Takes out everyone who waits for `commitment`.
    pub fn take(&mut self, commitment: &Digest) -> (r: Vec<R>)
        requires
            old(self).wf(),
        ensures
            final(self).wf(),
            r@ == waiting(old(self)@, commitment@),
            final(self)@ == old(self)@.remove(commitment@),
    {
        match self.position(commitment) {
            Some(i) => {
                let ghost before = self.entries@;
                let entry = self.entries.remove(i);
                proof {
                    let after = self.entries@;
                    assert(has_entry(before, commitment@));
                    assert forall|a: int| 0 <= a < after.len() implies #[trigger] after[a]
                        == before[if a < i { a } else { a + 1 }] by {}
                    assert(distinct(after));
                    assert forall|a: int, b: int|
                        0 <= a < before.len() && 0 <= b < before.len()
                            && (#[trigger] before[a]).0@ == (#[trigger] before[b]).0@ implies a
                        == b by {}
                    assert(entry_for(before, commitment@) == before[i as int].1@);
                    assert forall|c: Seq<u8>| has_entry(after, c) <==> has_entry(before, c) && c
                        != commitment@ by {
                        if has_entry(before, c) && c != commitment@ {
                            let a = choose|a: int|
                                0 <= a < before.len() && (#[trigger] before[a]).0@ == c;
                            assert(after[if a < i { a } else { a - 1 }] == before[a]);
                        }
                    }
                    assert forall|c: Seq<u8>| has_entry(after, c) implies entry_for(after, c)
                        == entry_for(before, c) by {
                        let a = choose|a: int|
                            0 <= a < after.len() && (#[trigger] after[a]).0@ == c;
                        let b = choose|b: int|
                            0 <= b < before.len() && (#[trigger] before[b]).0@ == c;
                        assert(before[if a < i { a } else { a + 1 }].0@ == c);
                    }
                    assert(self@ =~= old(self)@.remove(commitment@));
                }
                entry.1
            },
            None => {
                assert(self@ =~= old(self)@.remove(commitment@));
                Vec::new()
            },
        }
    }

    /// Lets one more responder wait for `commitment`.
    pub fn join(&mut self, commitment: Digest, responder: R)
        requires
            old(self).wf(),
        ensures
            final(self).wf(),
            final(self)@ == joined(old(self)@, commitment@, responder),
    {
        let mut responders = self.take(&commitment);
        responders.push(responder);
        let ghost before = self.entries@;
        let ghost rest = self@;
        self.entries.push((commitment, responders));
        proof {
            let after = self.entries@;
            let n = before.len() as int;
            assert(after[n].0@ == commitment@);
            assert(!rest.dom().contains(commitment@));
            assert(!has_entry(before, commitment@));
            assert(forall|a: int| 0 <= a < n ==> #[trigger] after[a] == before[a]);
            assert(distinct(after));
            assert forall|c: Seq<u8>| has_entry(after, c) <==> has_entry(before, c) || c
                == commitment@ by {
                if has_entry(before, c) {
                    let a = choose|a: int| 0 <= a < before.len() && (#[trigger] before[a]).0@ == c;
                    assert(after[a].0@ == c);
                }
            }
            assert forall|c: Seq<u8>| has_entry(before, c) implies entry_for(after, c) == entry_for(
                before,
                c,
            ) by {
                let a = choose|a: int| 0 <= a < before.len() && (#[trigger] before[a]).0@ == c;
                let b = choose|b: int| 0 <= b < after.len() && (#[trigger] after[b]).0@ == c;
                assert(after[a].0@ == c);
            }
            assert(entry_for(after, commitment@) == after[n].1@) by {
                let b = choose|b: int|
                    0 <= b < after.len() && (#[trigger] after[b]).0@ == commitment@;
                assert(b == n);
            }
            assert(forall|c: Seq<u8>| rest.dom().contains(c) <==> has_entry(before, c));
            assert(self@ =~= rest.insert(commitment@, after[n].1@));
            assert(self@ =~= joined(old(self)@, commitment@, responder));
        }
    }
}

} // verus!
