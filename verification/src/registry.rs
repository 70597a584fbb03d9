use vstd::prelude::*;
use crate::address::{derive_state_address, derive_topic_address, spec_state_address, spec_topic_address};
use crate::codec::{
    decode_state, decode_topic, encode_state, encode_topic, spec_decode_topic, spec_encode_state,
    spec_topic_encoded_len, StateAccount, TopicAccount, TopicView, ID_LEN, TAG_LEN, TOPIC_CAPACITY,
};
use crate::errors::RegistryError;

verus! {

/// The storage-layer tag marking a registry-state buffer.
pub open spec fn spec_state_tag() -> Seq<u8> {
    seq![114u8, 101u8, 103u8, 115u8, 116u8, 97u8, 116u8, 101u8]
}

/// The storage-layer tag marking a topic-record buffer.
pub open spec fn spec_topic_tag() -> Seq<u8> {
    seq![116u8, 111u8, 112u8, 105u8, 99u8, 114u8, 101u8, 99u8]
}

/// The tag bytes of a registry-state buffer: the bytes of "regstate".
pub fn state_tag() -> (r: Vec<u8>)
    ensures
        r@ == spec_state_tag(),
        r@.len() == TAG_LEN,
{
    let mut r: Vec<u8> = Vec::new();
    r.push(114u8);
    r.push(101u8);
    r.push(103u8);
    r.push(115u8);
    r.push(116u8);
    r.push(97u8);
    r.push(116u8);
    r.push(101u8);
    proof {
        assert(r@ =~= spec_state_tag());
    }
    r
}

/// The tag bytes of a topic-record buffer: the bytes of "topicrec".
pub fn topic_tag() -> (r: Vec<u8>)
    ensures
        r@ == spec_topic_tag(),
        r@.len() == TAG_LEN,
{
    let mut r: Vec<u8> = Vec::new();
    r.push(116u8);
    r.push(111u8);
    r.push(112u8);
    r.push(105u8);
    r.push(99u8);
    r.push(114u8);
    r.push(101u8);
    r.push(99u8);
    proof {
        assert(r@ =~= spec_topic_tag());
    }
    r
}

/// True when the byte strings are equal.
pub fn bytes_eq(a: &Vec<u8>, b: &Vec<u8>) -> (r: bool)
    ensures
        r == (a@ == b@),
{
    if a.len() != b.len() {
        return false;
    }
    let mut i: usize = 0;
    while i < a.len()
        invariant
            a@.len() == b@.len(),
            i <= a@.len(),
            forall|j: int| 0 <= j < i ==> a@[j] == b@[j],
        decreases a@.len() - i,
    {
        if a[i] != b[i] {
            return false;
        }
        i = i + 1;
    }
    proof {
        assert(a@ =~= b@);
    }
    true
}

/// A fresh copy of a byte string.
pub fn copy_bytes(src: &Vec<u8>) -> (r: Vec<u8>)
    ensures
        r@ == src@,
{
    let mut r: Vec<u8> = Vec::new();
    crate::codec::push_all(&mut r, src);
    proof {
        assert(r@ =~= src@);
    }
    r
}

/// One namespace of the durable keyed store, as the host serializes it: the
/// singleton registry-state account and one account per topic record, each
/// held under its derived address.
pub struct Registry {
    pub(crate) program_id: Vec<u8>,
    pub(crate) state: Option<(Vec<u8>, Vec<u8>)>,
    pub(crate) topics: Vec<(Vec<u8>, Vec<u8>)>,
}

impl Registry {
    /// The namespace this registry belongs to.
    pub closed spec fn spec_pid(self) -> Seq<u8> {
        self.program_id@
    }

    /// Whether the one-time initialization has happened.
    pub closed spec fn is_initialized(self) -> bool {
        self.state is Some
    }

    /// How many topics were ever created; also the next index to assign.
    pub closed spec fn spec_topic_count(self) -> nat {
        self.topics@.len()
    }

    /// The address under which the topic record of position `i` is stored.
    pub closed spec fn topic_key_at(self, i: int) -> Seq<u8> {
        self.topics@[i].0@
    }

    /// The record stored at position `i`, read back from its bytes.
    pub closed spec fn topic_view_at(self, i: int) -> TopicView {
        spec_decode_topic(self.topics@[i].1@).unwrap()
    }

    /// Whether some account occupies the address `k`.
    pub closed spec fn spec_occupied(self, k: Seq<u8>) -> bool {
        ||| (match self.state {
            Some(st) => st.0@ == k,
            None => false,
        })
        ||| (exists|i: int|
            0 <= i < self.topics@.len() && (#[trigger] self.topics@[i]).0@ == k)
    }

    /// The buffer stored at the occupied address `k`.
    pub closed spec fn spec_store_at(self, k: Seq<u8>) -> Seq<u8>
        recommends
            self.spec_occupied(k),
    {
        if (match self.state {
            Some(st) => st.0@ == k,
            None => false,
        }) {
            self.state.unwrap().1@
        } else {
            self.topics@[choose|i: int|
                0 <= i < self.topics@.len() && (#[trigger] self.topics@[i]).0@ == k].1@
        }
    }

    /// The topic account at position `i` sits at the address derived from `i`
    /// and decodes to a record that carries `i` as its index.
    spec fn wf_topic(self, i: int) -> bool {
        &&& (match spec_topic_address(self.program_id@, i as u64) {
            Some(p) => self.topics@[i].0@ == p.0,
            None => false,
        })
        &&& (match spec_decode_topic(self.topics@[i].1@) {
            Some(t) => t.index == i as u64,
            None => false,
        })
    }

    /// Well-formedness: the stored counter always equals the number of topic
    /// records; indices are dense; every account sits at its derived address;
    /// no two accounts share an address.
    #[verifier::type_invariant]
    pub closed spec fn wf(self) -> bool {
        &&& self.program_id@.len() == ID_LEN
        &&& self.topics@.len() <= u64::MAX
        &&& (match self.state {
            Some(st) => {
                &&& (match spec_state_address(self.program_id@) {
                    Some(p) => st.0@ == p.0,
                    None => false,
                })
                &&& st.1@ == spec_encode_state(
                    spec_state_tag(),
                    StateAccount { topic_count: self.topics@.len() as u64 },
                )
                &&& (forall|i: int|
                    0 <= i < self.topics@.len() ==> (#[trigger] self.topics@[i]).0@ != st.0@)
            },
            None => self.topics@.len() == 0,
        })
        &&& (forall|i: int| 0 <= i < self.topics@.len() ==> #[trigger] self.wf_topic(i))
        &&& (forall|i: int, j: int|
            0 <= i < j < self.topics@.len() ==> (#[trigger] self.topics@[i]).0@ != (
            #[trigger] self.topics@[j]).0@)
    }

    /// A fresh, uninitialized registry for the namespace `program_id`; refused
    /// when the given identity is not address-sized.
    pub fn new(program_id: Vec<u8>) -> (r: Option<Registry>)
        ensures
            r is Some <==> program_id@.len() == ID_LEN,
            (match r {
                Some(reg) => !reg.is_initialized() && reg.spec_topic_count() == 0 && reg.spec_pid()
                    == program_id@,
                None => true,
            }),
    {
        if program_id.len() != ID_LEN {
            return None;
        }
        Some(Registry { program_id, state: None, topics: Vec::new() })
    }

    /// Whether the one-time initialization has happened.
    pub fn initialized(&self) -> (r: bool)
        ensures
            r == self.is_initialized(),
    {
        self.state.is_some()
    }

    /// Reads the counter back out of the stored registry-state bytes: the
    /// number of topics ever created, or nothing before initialization.
    pub fn topic_count(&self) -> (r: Option<u64>)
        ensures
            (match r {
                Some(c) => self.is_initialized() && c == self.spec_topic_count(),
                None => !self.is_initialized(),
            }),
    {
        proof {
            use_type_invariant(&*self);
        }
        match &self.state {
            None => None,
            Some(st) => {
                proof {
                    crate::codec::lemma_state_round_trip(
                        spec_state_tag(),
                        StateAccount { topic_count: self.topics@.len() as u64 },
                    );
                }
                let decoded = decode_state(&st.1);
                Some(decoded.unwrap().topic_count)
            },
        }
    }

    /// Derives the address and bump of the registry state of this namespace.
    pub fn state_address(&self) -> (r: Option<(Vec<u8>, u8)>)
        ensures
            (match r {
                Some(p) => spec_state_address(self.spec_pid()) == Some((p.0@, p.1)) && p.0@.len()
                    == ID_LEN,
                None => spec_state_address(self.spec_pid()) is None,
            }),
    {
        proof {
            use_type_invariant(&*self);
        }
        derive_state_address(&self.program_id)
    }

    /// Derives the address and bump of the topic record with the given index,
    /// whether or not that record exists yet.
    pub fn topic_address(&self, index: u64) -> (r: Option<(Vec<u8>, u8)>)
        ensures
            (match r {
                Some(p) => spec_topic_address(self.spec_pid(), index) == Some((p.0@, p.1))
                    && p.0@.len() == ID_LEN,
                None => spec_topic_address(self.spec_pid(), index) is None,
            }),
    {
        proof {
            use_type_invariant(&*self);
        }
        derive_topic_address(&self.program_id, index)
    }

    /// The one-time initialization: brings the registry state into existence
    /// with a counter of zero. A second initialization of the same namespace
    /// fails with `AlreadyExists` and changes nothing.
    pub fn create_state(&mut self) -> (r: Result<(), RegistryError>)
        ensures
            r is Ok <==> !old(self).is_initialized() && spec_state_address(old(self).spec_pid())
                is Some,
            old(self).is_initialized() ==> r == Err::<(), RegistryError>(
                RegistryError::AlreadyExists,
            ) && *final(self) == *old(self),
            (!old(self).is_initialized() && spec_state_address(old(self).spec_pid()) is None)
                ==> r == Err::<(), RegistryError>(RegistryError::DerivationFailure) && *final(self)
                == *old(self),
            r is Ok ==> final(self).is_initialized() && final(self).spec_topic_count() == 0
                && final(self).spec_pid() == old(self).spec_pid(),
    {
        proof {
            use_type_invariant(&*self);
        }
        match &self.state {
            Some(_) => {
                return Err(RegistryError::AlreadyExists);
            },
            None => {},
        }
        let derived = derive_state_address(&self.program_id);
        let p = match derived {
            Some(p) => p,
            None => {
                return Err(RegistryError::DerivationFailure);
            },
        };
        let buf = encode_state(&state_tag(), &StateAccount { topic_count: 0 });
        self.state = Some((p.0, buf));
        Ok(())
    }

    /// Which way a topic-creation request must end, judged on the registry as
    /// the request finds it: the first failing step of the allocation
    /// protocol decides the error, and a request fails exactly when some step
    /// fails.
    pub open spec fn spec_create_topic_result(
        self,
        owner: Seq<u8>,
        name: Seq<u8>,
        description: Seq<u8>,
    ) -> Result<(), RegistryError> {
        if owner.len() != ID_LEN {
            Err(RegistryError::Unauthenticated)
        } else if self.spec_topic_count() >= u64::MAX {
            Err(RegistryError::ResourceExhaustion)
        } else {
            let idx = self.spec_topic_count() as u64;
            match spec_topic_address(self.spec_pid(), idx) {
                None => Err(RegistryError::DerivationFailure),
                Some(p) => if self.spec_occupied(p.0) {
                    Err(RegistryError::AlreadyExists)
                } else if spec_topic_encoded_len(
                    TopicView { owner, name, description, index: idx },
                ) > TOPIC_CAPACITY {
                    Err(RegistryError::CapacityExceeded)
                } else {
                    Ok(())
                },
            }
        }
    }

    /// The allocation protocol, one atomic unit of work: read the counter,
    /// derive the address for that index, reserve it if it is free, write the
    /// record, and advance the counter by exactly one. Either every step
    /// lands, or the registry is left byte-for-byte as it was.
    pub fn create_topic(&mut self, owner: &Vec<u8>, name: Vec<u8>, description: Vec<u8>) -> (r:
        Result<(), RegistryError>)
        requires
            old(self).is_initialized(),
        ensures
            r == old(self).spec_create_topic_result(owner@, name@, description@),
            r is Err ==> *final(self) == *old(self),
            r is Ok ==> {
                &&& final(self).spec_pid() == old(self).spec_pid()
                &&& final(self).is_initialized()
                &&& final(self).spec_topic_count() == old(self).spec_topic_count() + 1
                &&& (forall|i: int|
                    0 <= i < old(self).spec_topic_count() ==> final(self).topic_key_at(i) == old(
                        self,
                    ).topic_key_at(i) && final(self).topic_view_at(i) == old(self).topic_view_at(i))
                &&& final(self).topic_view_at(old(self).spec_topic_count() as int) == (TopicView {
                    owner: owner@,
                    name: name@,
                    description: description@,
                    index: old(self).spec_topic_count() as u64,
                })
                &&& final(self).topic_key_at(old(self).spec_topic_count() as int)
                    == spec_topic_address(
                    old(self).spec_pid(),
                    old(self).spec_topic_count() as u64,
                ).unwrap().0
            },
    {
        proof {
            use_type_invariant(&*self);
        }
        if owner.len() != ID_LEN {
            return Err(RegistryError::Unauthenticated);
        }
        let count = self.topics.len();
        let idx: u64 = count as u64;
        if idx == u64::MAX {
            return Err(RegistryError::ResourceExhaustion);
        }
        let derived = derive_topic_address(&self.program_id, idx);
        let p = match derived {
            Some(p) => p,
            None => {
                return Err(RegistryError::DerivationFailure);
            },
        };
        let addr = p.0;
        if self.occupied(&addr) {
            return Err(RegistryError::AlreadyExists);
        }
        let record = TopicAccount { owner: copy_bytes(owner), name, description, index: idx };
        let buf = match encode_topic(&topic_tag(), &record) {
            Ok(b) => b,
            Err(e) => {
                return Err(e);
            },
        };
        let state_buf = encode_state(&state_tag(), &StateAccount { topic_count: idx + 1 });
        let state_key = match &self.state {
            Some(st) => copy_bytes(&st.0),
            None => unreached(),
        };
        proof {
            crate::codec::lemma_topic_round_trip(spec_topic_tag(), record@);
        }
        let mut work = Registry {
            program_id: copy_bytes(&self.program_id),
            state: None,
            topics: Vec::new(),
        };
        core::mem::swap(self, &mut work);
        let Registry { program_id, state: _, topics: mut topics } = work;
        topics.push((addr, buf));
        proof {
            let ghost oldr = *old(self);
            let ghost new_len = topics@.len() as int;
            assert(forall|i: int|
                0 <= i < new_len - 1 ==> topics@[i] == oldr.topics@[i]);
            assert(forall|i: int|
                0 <= i < new_len - 1 ==> (#[trigger] oldr.topics@[i]).0@ != addr@);
            assert forall|i: int| 0 <= i < new_len implies {
                &&& (match spec_topic_address(program_id@, i as u64) {
                    Some(q) => (#[trigger] topics@[i]).0@ == q.0,
                    None => false,
                })
                &&& (match spec_decode_topic(topics@[i].1@) {
                    Some(t) => t.index == i as u64,
                    None => false,
                })
            } by {
                if i < new_len - 1 {
                    assert(oldr.wf_topic(i));
                }
            }
        }
        *self = Registry { program_id, state: Some((state_key, state_buf)), topics };
        Ok(())
    }

    /// Retrieves a topic record the only way the design allows: re-derive the
    /// address of the given index, look that address up, and decode what is
    /// stored there. For every index below the counter this returns exactly
    /// the record that was created under that index.
    pub fn get_topic(&self, index: u64) -> (r: Option<TopicAccount>)
        ensures
            (match spec_topic_address(self.spec_pid(), index) {
                None => r is None,
                Some(p) => if !self.spec_occupied(p.0) {
                    r is None
                } else {
                    match spec_decode_topic(self.spec_store_at(p.0)) {
                        Some(tv) => (match r {
                            Some(t) => t@ == tv,
                            None => false,
                        }),
                        None => r is None,
                    }
                },
            }),
            self.is_initialized() && index < self.spec_topic_count() ==> (match r {
                Some(t) => t@ == self.topic_view_at(index as int),
                None => false,
            }),
    {
        proof {
            use_type_invariant(&*self);
            if self.is_initialized() && index < self.spec_topic_count() {
                lemma_monotonic_density(*self, index);
            }
        }
        let derived = derive_topic_address(&self.program_id, index);
        let p = match derived {
            Some(p) => p,
            None => {
                return None;
            },
        };
        let addr = p.0;
        match &self.state {
            Some(st) => {
                if bytes_eq(&st.0, &addr) {
                    proof {
                        if self.is_initialized() && index < self.spec_topic_count() {
                            assert(self.wf_topic(index as int));
                            assert(false);
                        }
                    }
                    return decode_topic(&st.1);
                }
            },
            None => {},
        }
        let mut i: usize = 0;
        while i < self.topics.len()
            invariant
                i <= self.topics@.len(),
                forall|j: int| 0 <= j < i ==> (#[trigger] self.topics@[j]).0@ != addr@,
                (match self.state {
                    Some(st) => st.0@ != addr@,
                    None => true,
                }),
                self.wf(),
                (match spec_topic_address(self.spec_pid(), index) {
                    Some(q) => q.0 == addr@,
                    None => false,
                }),
            decreases self.topics@.len() - i,
        {
            if bytes_eq(&self.topics[i].0, &addr) {
                proof {
                    assert(self.spec_occupied(addr@));
                    let j = choose|j: int|
                        0 <= j < self.topics@.len() && (#[trigger] self.topics@[j]).0@ == addr@;
                    assert(j == i);
                    assert(self.spec_store_at(addr@) == self.topics@[i as int].1@);
                    if self.is_initialized() && index < self.spec_topic_count() {
                        assert(self.wf_topic(index as int));
                        assert(i == index);
                    }
                }
                return decode_topic(&self.topics[i].1);
            }
            i = i + 1;
        }
        proof {
            assert(!self.spec_occupied(addr@));
            if self.is_initialized() && index < self.spec_topic_count() {
                assert(self.wf_topic(index as int));
                assert(false);
            }
        }
        None
    }

    /// Whether some account already occupies the address `key`.
    fn occupied(&self, key: &Vec<u8>) -> (r: bool)
        ensures
            r == self.spec_occupied(key@),
    {
        match &self.state {
            Some(st) => {
                if bytes_eq(&st.0, key) {
                    return true;
                }
            },
            None => {},
        }
        let mut i: usize = 0;
        while i < self.topics.len()
            invariant
                i <= self.topics@.len(),
                forall|j: int| 0 <= j < i ==> (#[trigger] self.topics@[j]).0@ != key@,
                (match self.state {
                    Some(st) => st.0@ != key@,
                    None => true,
                }),
            decreases self.topics@.len() - i,
        {
            if bytes_eq(&self.topics[i].0, key) {
                return true;
            }
            i = i + 1;
        }
        false
    }
}

/// Monotonic density: in every well-formed registry the counter equals the
/// number of records ever created, and every index below it is occupied by a
/// record that carries exactly that index, stored under the address derived
/// from it.
pub proof fn lemma_monotonic_density(r: Registry, i: u64)
    requires
        r.wf(),
        r.is_initialized(),
        i < r.spec_topic_count(),
    ensures
        spec_topic_address(r.spec_pid(), i) is Some,
        r.topic_key_at(i as int) == spec_topic_address(r.spec_pid(), i).unwrap().0,
        r.spec_occupied(spec_topic_address(r.spec_pid(), i).unwrap().0),
        r.topic_view_at(i as int).index == i,
{
    assert(r.wf_topic(i as int));
    assert((r.topics@[i as int]).0@ == r.topic_key_at(i as int));
}

/// No duplicate index: two distinct created indices always occupy two
/// distinct derived addresses.
pub proof fn lemma_no_duplicate_index(r: Registry, i: u64, j: u64)
    requires
        r.wf(),
        r.is_initialized(),
        i < r.spec_topic_count(),
        j < r.spec_topic_count(),
        i != j,
    ensures
        spec_topic_address(r.spec_pid(), i) is Some,
        spec_topic_address(r.spec_pid(), j) is Some,
        spec_topic_address(r.spec_pid(), i).unwrap().0 != spec_topic_address(
            r.spec_pid(),
            j,
        ).unwrap().0,
{
    assert(r.wf_topic(i as int));
    assert(r.wf_topic(j as int));
    if i < j {
        assert((r.topics@[i as int]).0@ != (r.topics@[j as int]).0@);
    } else {
        assert((r.topics@[j as int]).0@ != (r.topics@[i as int]).0@);
    }
}

} // verus!
