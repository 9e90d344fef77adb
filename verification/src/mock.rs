//! An in-memory transport: each register holds its own bytes, zeroed at
//! construction. It stands in for a board in tests and is the one transport
//! whose behaviour is itself verified against the trait's model.

use vstd::prelude::*;

use crate::encoding::{append_bytes, bytes_eq, clone_bytes, subvec};
use crate::transport::{splice, Error, Register, RegisterMap, Transport, WriteEvent};

verus! {

/// The map an entry list denotes: every name bound to its contents, later
/// entries shadowing earlier ones (names are unique here, so none do).
pub open spec fn entries_mem(regs: Seq<(Vec<u8>, Register)>, store: Seq<Vec<u8>>, i: int) -> Map<
    Seq<u8>,
    Seq<u8>,
>
    decreases i,
{
    if i <= 0 {
        Map::empty()
    } else {
        entries_mem(regs, store, i - 1).insert(regs[i - 1].0@, store[i - 1]@)
    }
}

/// A memory-backed transport for one mocked board.
pub struct Mock {
    registers: Vec<(Vec<u8>, Register)>,
    store: Vec<Vec<u8>>,
    trace: Ghost<Seq<WriteEvent>>,
}

impl Mock {
    /// The registers, their backing bytes, and their names line up.
    #[verifier::type_invariant]
    pub closed spec fn wf(&self) -> bool {
        &&& self.registers@.len() == self.store@.len()
        &&& forall|i: int, j: int|
            0 <= i < j < self.registers@.len() ==> (#[trigger] self.registers@[i]).0@ != (
            #[trigger] self.registers@[j]).0@
        &&& forall|i: int|
            0 <= i < self.store@.len() ==> (#[trigger] self.store@[i])@.len()
                == self.registers@[i].1.length
    }

    /// Every name is bound, to its own slot's bytes.
    proof fn lemma_mem_entries(regs: Seq<(Vec<u8>, Register)>, store: Seq<Vec<u8>>, i: int, k: int)
        requires
            0 <= k < i <= regs.len(),
            regs.len() == store.len(),
            forall|a: int, b: int|
                0 <= a < b < regs.len() ==> (#[trigger] regs[a]).0@ != (#[trigger] regs[b]).0@,
        ensures
            entries_mem(regs, store, i).dom().contains(regs[k].0@),
            entries_mem(regs, store, i)[regs[k].0@] == store[k]@,
        decreases i,
    {
        if k < i - 1 {
            Self::lemma_mem_entries(regs, store, i - 1, k);
            assert(regs[i - 1].0@ != regs[k].0@);
        }
    }

    /// A name bound in the map names one of the entries.
    proof fn lemma_mem_dom(regs: Seq<(Vec<u8>, Register)>, store: Seq<Vec<u8>>, i: int, name: Seq<u8>)
        requires
            0 <= i <= regs.len(),
            regs.len() == store.len(),
            entries_mem(regs, store, i).dom().contains(name),
        ensures
            exists|k: int| 0 <= k < i && (#[trigger] regs[k]).0@ == name,
        decreases i,
    {
        if i > 0 && regs[i - 1].0@ != name {
            Self::lemma_mem_dom(regs, store, i - 1, name);
        }
    }

    /// The model with one slot's bytes replaced.
    proof fn lemma_mem_update(
        regs: Seq<(Vec<u8>, Register)>,
        store: Seq<Vec<u8>>,
        store2: Seq<Vec<u8>>,
        i: int,
        k: int,
    )
        requires
            0 <= k < regs.len(),
            0 <= i <= regs.len(),
            regs.len() == store.len(),
            store2.len() == store.len(),
            forall|j: int| 0 <= j < store.len() && j != k ==> (#[trigger] store2[j])@ == store[j]@,
            forall|a: int, b: int|
                0 <= a < b < regs.len() ==> (#[trigger] regs[a]).0@ != (#[trigger] regs[b]).0@,
        ensures
            i <= k ==> entries_mem(regs, store2, i) == entries_mem(regs, store, i),
            i > k ==> entries_mem(regs, store2, i) == entries_mem(regs, store, i).insert(
                regs[k].0@,
                store2[k]@,
            ),
        decreases i,
    {
        if i > 0 {
            Self::lemma_mem_update(regs, store, store2, i - 1, k);
            if i - 1 == k {
            } else if i - 1 > k {
                assert(regs[i - 1].0@ != regs[k].0@);
                assert(entries_mem(regs, store, i - 1).insert(regs[k].0@, store2[k]@).insert(
                    regs[i - 1].0@,
                    store[i - 1]@,
                ) =~= entries_mem(regs, store, i - 1).insert(regs[i - 1].0@, store[i - 1]@).insert(
                    regs[k].0@,
                    store2[k]@,
                ));
            }
        }
    }

    /// Builds a mock board from a device map; every register starts zeroed.
    ///
    /// The names must be pairwise distinct, as keys of the directory they
    /// come from are.
    pub fn new(registers: RegisterMap) -> (r: Mock)
        requires
            forall|i: int, j: int|
                0 <= i < j < registers@.len() ==> (#[trigger] registers@[i]).0@ != (
                #[trigger] registers@[j]).0@,
        ensures
            r.writes() == Seq::<WriteEvent>::empty(),
            forall|i: int|
                0 <= i < registers@.len() ==> r.mem().dom().contains(
                    (#[trigger] registers@[i]).0@,
                ) && r.mem()[registers@[i].0@] == Seq::new(
                    registers@[i].1.length as nat,
                    |j: int| 0u8,
                ),
    {
        let mut store: Vec<Vec<u8>> = Vec::new();
        let mut i: usize = 0;
        while i < registers.len()
            invariant
                0 <= i <= registers@.len(),
                store@.len() == i,
                forall|k: int|
                    0 <= k < i ==> (#[trigger] store@[k])@ == Seq::new(
                        registers@[k].1.length as nat,
                        |j: int| 0u8,
                    ),
            decreases registers@.len() - i,
        {
            let len = registers[i].1.length;
            let mut content: Vec<u8> = Vec::new();
            let mut j: usize = 0;
            while j < len
                invariant
                    0 <= j <= len,
                    content@ == Seq::new(j as nat, |k: int| 0u8),
                decreases len - j,
            {
                content.push(0);
                assert(content@ =~= Seq::new((j + 1) as nat, |k: int| 0u8));
                j += 1;
            }
            store.push(content);
            i += 1;
        }
        let r = Mock { registers, store, trace: Ghost(Seq::empty()) };
        proof {
            assert forall|k: int| 0 <= k < r.registers@.len() implies r.mem().dom().contains(
                (#[trigger] r.registers@[k]).0@,
            ) && r.mem()[r.registers@[k].0@] == Seq::new(
                r.registers@[k].1.length as nat,
                |j: int| 0u8,
            ) by {
                Self::lemma_mem_entries(r.registers@, r.store@, r.registers@.len() as int, k);
            };
        }
        r
    }

    /// Finds the slot holding `device`.
    fn find(&self, device: &Vec<u8>) -> (r: Option<usize>)
        ensures
            r matches Some(i) ==> i < self.registers@.len() && self.registers@[i as int].0@
                == device@,
            r is None ==> forall|i: int|
                0 <= i < self.registers@.len() ==> (#[trigger] self.registers@[i]).0@ != device@,
    {
        let mut i: usize = 0;
        while i < self.registers.len()
            invariant
                0 <= i <= self.registers@.len(),
                forall|j: int| 0 <= j < i ==> (#[trigger] self.registers@[j]).0@ != device@,
            decreases self.registers@.len() - i,
        {
            if bytes_eq(&self.registers[i].0, device) {
                return Some(i);
            }
            i += 1;
        }
        None
    }
}

impl Transport for Mock {
    closed spec fn mem(&self) -> Map<Seq<u8>, Seq<u8>> {
        entries_mem(self.registers@, self.store@, self.registers@.len() as int)
    }

    closed spec fn writes(&self) -> Seq<WriteEvent> {
        self.trace@
    }

    /// A mocked board is always running.
    fn is_running(&mut self) -> (r: Result<bool, Error>) {
        Ok(true)
    }

    fn read_n_bytes(&mut self, device: &Vec<u8>, offset: usize, n: usize) -> (r: Result<
        Vec<u8>,
        Error,
    >) {
        proof {
            use_type_invariant(&*self);
        }
        let idx = match self.find(device) {
            Some(i) => i,
            None => {
                proof {
                    if self.mem().dom().contains(device@) {
                        Self::lemma_mem_dom(
                            self.registers@,
                            self.store@,
                            self.registers@.len() as int,
                            device@,
                        );
                    }
                }
                return Err(Error::DeviceNotFound(clone_bytes(device)));
            },
        };
        proof {
            Self::lemma_mem_entries(
                self.registers@,
                self.store@,
                self.registers@.len() as int,
                idx as int,
            );
        }
        let content = &self.store[idx];
        if n > content.len() || offset > content.len() - n {
            return Err(Error::OutOfBounds);
        }
        Ok(subvec(content, offset, offset + n))
    }

    fn write_bytes(&mut self, device: &Vec<u8>, offset: usize, data: &Vec<u8>) -> (r: Result<
        (),
        Error,
    >) {
        proof {
            use_type_invariant(&*self);
        }
        let ghost mem0 = self.mem();
        let idx = match self.find(device) {
            Some(i) => i,
            None => {
                proof {
                    if self.mem().dom().contains(device@) {
                        Self::lemma_mem_dom(
                            self.registers@,
                            self.store@,
                            self.registers@.len() as int,
                            device@,
                        );
                    }
                }
                return Err(Error::DeviceNotFound(clone_bytes(device)));
            },
        };
        proof {
            Self::lemma_mem_entries(
                self.registers@,
                self.store@,
                self.registers@.len() as int,
                idx as int,
            );
        }
        let content_len = self.store[idx].len();
        if data.len() > content_len || offset > content_len - data.len() {
            return Err(Error::OutOfBounds);
        }
        let ghost old_store = self.store@;
        let mut new_content = subvec(&self.store[idx], 0, offset);
        append_bytes(&mut new_content, data);
        let tail = subvec(&self.store[idx], offset + data.len(), content_len);
        append_bytes(&mut new_content, &tail);
        assert(new_content@ =~= splice(old_store[idx as int]@, offset as int, data@));
        let mut new_store: Vec<Vec<u8>> = Vec::new();
        let mut j: usize = 0;
        while j < self.store.len()
            invariant
                0 <= j <= self.store@.len(),
                idx < self.store@.len(),
                self.store@ == old_store,
                new_content@ == splice(old_store[idx as int]@, offset as int, data@),
                new_store@.len() == j,
                forall|k: int|
                    0 <= k < j && k != idx ==> (#[trigger] new_store@[k])@ == old_store[k]@,
                j > idx ==> new_store@[idx as int]@ == new_content@,
            decreases self.store@.len() - j,
        {
            if j == idx {
                new_store.push(clone_bytes(&new_content));
            } else {
                new_store.push(clone_bytes(&self.store[j]));
            }
            j += 1;
        }
        self.store = new_store;
        proof {
            self.trace@ = self.trace@.push(
                WriteEvent { device: device@, offset: offset as int, data: data@ },
            );
            Self::lemma_mem_update(
                self.registers@,
                old_store,
                self.store@,
                self.registers@.len() as int,
                idx as int,
            );
        }
        Ok(())
    }

    fn listdev(&mut self) -> (r: Result<RegisterMap, Error>) {
        proof {
            use_type_invariant(&*self);
        }
        let mut out: RegisterMap = Vec::new();
        let mut i: usize = 0;
        while i < self.registers.len()
            invariant
                0 <= i <= self.registers@.len(),
                out@.len() == i,
                forall|j: int|
                    0 <= j < i ==> (#[trigger] out@[j]).0@ == self.registers@[j].0@ && out@[j].1
                        == self.registers@[j].1,
            decreases self.registers@.len() - i,
        {
            let name = clone_bytes(&self.registers[i].0);
            let reg = self.registers[i].1;
            out.push((name, reg));
            i += 1;
        }
        proof {
            assert forall|j: int| 0 <= j < out@.len() implies self.mem().dom().contains(
                (#[trigger] out@[j]).0@,
            ) && out@[j].1.length == self.mem()[out@[j].0@].len() by {
                Self::lemma_mem_entries(
                    self.registers@,
                    self.store@,
                    self.registers@.len() as int,
                    j,
                );
            };
        }
        Ok(out)
    }
}

} // verus!
