use vstd::prelude::*;
use crate::builtins::hash::{hash_of_elems, sha256, sha256_of, HashVar};
use crate::builtins::str::clone_bytes;
use crate::bvar::{AllocVar, BVar, StoredVar};
use crate::constraint_system::{ConstraintSystem, ElemV, Element};
use crate::errors::Error;

verus! {

/// The seed of every commitment chain: the digest of the store's three
/// name bytes.
pub open spec fn ldm_seed() -> Seq<u8> {
    sha256_of(seq![108u8, 100u8, 109u8])
}

/// The commitment left after folding the logged accesses from position
/// `i` on into `h`: each step hashes the accessed entry's digest followed
/// by the running commitment.
pub open spec fn ldm_fold(h: Seq<u8>, hashes: Seq<Seq<u8>>, log: Seq<usize>, i: int) -> Seq<u8>
    decreases log.len() - i when 0 <= i <= log.len()
{
    if i >= log.len() {
        h
    } else {
        ldm_fold(sha256_of(hashes[log[i] as int] + h), hashes, log, i + 1)
    }
}

/// The index the store resolves a name to: the latest entry under that
/// name whose index points into the stored values.
pub open spec fn lookup(entries: Seq<(String, usize)>, key: Seq<char>, bound: nat) -> Option<usize>
    decreases entries.len()
{
    if entries.len() == 0 {
        None
    } else {
        if entries.last().0@ == key && entries.last().1 < bound {
            Some(entries.last().1)
        } else {
            lookup(entries.drop_last(), key, bound)
        }
    }
}

/// A resolved name always points into the stored values.
proof fn lemma_lookup_in_bound(entries: Seq<(String, usize)>, key: Seq<char>, bound: nat)
    ensures
        lookup(entries, key, bound) matches Some(i) ==> i < bound,
    decreases entries.len(),
{
    if entries.len() > 0 {
        lemma_lookup_in_bound(entries.drop_last(), key, bound);
    }
}

/// The plain values one stored row holds.
pub open spec fn row_elems(row: Vec<Element>) -> Seq<ElemV> {
    row@.map_values(|x: Element| x@)
}

/// The log-data memory: a key-addressed store of typed values that
/// chains every write and read into a running hash commitment, so a
/// trace can be split across cooperating programs.
pub struct LDM {
    pub name_to_id: Vec<(String, usize)>,
    pub value_map: Vec<Vec<Element>>,
    pub hash_map: Vec<Vec<u8>>,
    pub hash_var: Option<HashVar>,
    pub log: Vec<usize>,
}

impl LDM {
    /// The tables line up: stored rows and their digests are paired,
    /// every logged index points at a stored entry, and every stored
    /// digest is 32 bytes.
    pub open spec fn maps_wf(&self) -> bool {
        &&& self.value_map@.len() == self.hash_map@.len()
        &&& (forall|k: int|
            0 <= k < self.log@.len() ==> #[trigger] self.log@[k] < self.value_map@.len())
        &&& (forall|k: int|
            0 <= k < self.hash_map@.len() ==> (#[trigger] self.hash_map@[k])@.len() == 32)
    }

    /// The store is coherent inside one system: the tables line up and
    /// the commitment variable is bound to the system.
    pub open spec fn wf_in(&self, cs: &ConstraintSystem) -> bool {
        &&& self.maps_wf()
        &&& (self.hash_var matches Some(h) ==> h.wf_in(cs))
    }

    /// An empty store, not yet bound to a system.
    pub fn new() -> (r: LDM)
        ensures
            r.hash_var is None,
            r.value_map@.len() == 0,
            r.hash_map@.len() == 0,
            r.log@.len() == 0,
            r.name_to_id@.len() == 0,
            r.maps_wf(),
    {
        LDM {
            name_to_id: Vec::new(),
            value_map: Vec::new(),
            hash_map: Vec::new(),
            hash_var: None,
            log: Vec::new(),
        }
    }

    /// Binds the store to a system: the first time with the fixed seed
    /// commitment as a constant, later with the carried-over commitment
    /// as a program input of the new program.
    pub fn init(&mut self, cs: &mut ConstraintSystem) -> (r: Result<(), Error>)
        requires
            old(self).maps_wf(),
            old(self).hash_var matches Some(h) ==> h.value@.len() == 32,
            old(cs).wf(),
        ensures
            r is Ok <==> !old(cs).finalized && (old(self).hash_var is Some ==> old(
                cs,
            ).num_inputs is None),
            r is Err ==> *final(self) == *old(self) && *final(cs) == *old(cs),
            r is Ok ==> {
                &&& final(self).wf_in(&*final(cs))
                &&& final(cs).wf()
                &&& !final(cs).finalized
                &&& (final(self).hash_var matches Some(h2) && (match old(self).hash_var {
                    Some(h1) => h2.value@ == h1.value@,
                    None => h2.value@ == ldm_seed(),
                }))
                &&& final(self).value_map@ == old(self).value_map@
                &&& final(self).hash_map@ == old(self).hash_map@
                &&& final(self).log@ == old(self).log@
                &&& final(self).name_to_id@ == old(self).name_to_id@
            },
    {
        match &self.hash_var {
            Some(h) => {
                let carried = clone_bytes(&h.value);
                let nv = HashVar::new_program_input(cs, carried)?;
                self.hash_var = Some(nv);
            },
            None => {
                let mut seed: Vec<u8> = Vec::new();
                seed.push(108u8);
                seed.push(100u8);
                seed.push(109u8);
                proof {
                    assert(seed@ =~= seq![108u8, 100u8, 109u8]);
                }
                let digest = sha256(&seed);
                let nv = HashVar::new_constant(cs, digest)?;
                self.hash_var = Some(nv);
            },
        }
        Ok(())
    }

    /// Writes a variable's value under a name: the entry keeps the
    /// variable's plain elements at the next free index, its fold digest
    /// is chained into the running commitment, and the access is logged.
    pub fn write<T: StoredVar>(&mut self, cs: &mut ConstraintSystem, name: &str, v: &T) -> (r:
        Result<(), Error>)
        requires
            old(self).wf_in(old(cs)),
            old(self).hash_var is Some,
            old(cs).wf(),
            v.wf_in(old(cs)),
        ensures
            r is Ok <==> !old(cs).finalized,
            r is Err ==> *final(self) == *old(self) && *final(cs) == *old(cs),
            r is Ok ==> {
                &&& final(self).wf_in(&*final(cs))
                &&& final(cs).wf()
                &&& !final(cs).finalized
                &&& final(self).value_map@.len() == old(self).value_map@.len() + 1
                &&& row_elems(final(self).value_map@.last()) == T::elems_of(v.native())
                &&& final(self).hash_map@.len() == old(self).hash_map@.len() + 1
                &&& final(self).hash_map@.last()@ == hash_of_elems(T::elems_of(v.native()))
                &&& final(self).hash_map@.last()@.len() == 32
                &&& (forall|k: int|
                    0 <= k < old(self).value_map@.len() ==> #[trigger] final(self).value_map@[k]
                        == old(self).value_map@[k])
                &&& (forall|k: int|
                    0 <= k < old(self).hash_map@.len() ==> #[trigger] final(self).hash_map@[k]
                        == old(self).hash_map@[k])
                &&& final(self).log@ == old(self).log@.push(
                    old(self).value_map@.len() as usize,
                )
                &&& final(self).name_to_id@.len() == old(self).name_to_id@.len() + 1
                &&& final(self).name_to_id@.last().0@ == name@
                &&& final(self).name_to_id@.last().1 == old(self).value_map@.len()
                &&& (forall|k: int|
                    0 <= k < old(self).name_to_id@.len() ==> #[trigger] final(self).name_to_id@[k]
                        == old(self).name_to_id@[k])
                &&& (final(self).hash_var matches Some(h2) && old(self).hash_var matches Some(h1)
                    && h2.value@ == sha256_of(hash_of_elems(T::elems_of(v.native())) + h1.value@))
            },
    {
        proof {
            v.ids_in_range(cs);
            v.wf_elems(cs);
        }
        let ids = v.variables();
        let mut row: Vec<Element> = Vec::new();
        let mut i: usize = 0;
        while i < ids.len()
            invariant
                0 <= i <= ids@.len(),
                ids@ == v.ids(),
                forall|k: int| 0 <= k < ids@.len() ==> #[trigger] ids@[k] < cs.memory@.len(),
                row@.map_values(|x: Element| x@) == v.ids().map_values(
                    |id: usize| cs.memory@[id as int]@,
                ).subrange(0, i as int),
                *cs == *old(cs),
            decreases ids@.len() - i,
        {
            let e = match cs.get_element(ids[i]) {
                Ok(e) => e,
                Err(_) => {
                    proof {
                        assert(false);
                    }
                    return Err(Error::MemoryCorruption);
                },
            };
            let d = e.duplicate();
            proof {
                assert(d@ == cs.memory@[ids@[i as int] as int]@);
            }
            let ghost pre_map = row@.map_values(|x: Element| x@);
            row.push(d);
            proof {
                let full = v.ids().map_values(|id: usize| cs.memory@[id as int]@);
                assert(row@.map_values(|x: Element| x@) =~~= pre_map.push(d@));
                assert(full[i as int] == d@);
                assert(full.subrange(0, i + 1) =~~= full.subrange(0, i as int).push(d@));
                assert(row@.map_values(|x: Element| x@) =~~= full.subrange(0, i + 1));
            }
            i = i + 1;
        }
        proof {
            assert(v.ids().map_values(|id: usize| cs.memory@[id as int]@).subrange(
                0,
                v.ids().len() as int,
            ) =~= v.ids().map_values(|id: usize| cs.memory@[id as int]@));
        }
        let idx = self.value_map.len();
        let h = HashVar::from_var(cs, v)?;
        let running = match &self.hash_var {
            Some(r) => clone_hash(r),
            None => {
                proof {
                    assert(false);
                }
                return Err(Error::EncodingAmbiguous);
            },
        };
        let combined = match running.combine(cs, &h) {
            Ok(c) => c,
            Err(e) => {
                proof {
                    assert(false);
                }
                return Err(e);
            },
        };
        self.name_to_id.push((name.to_owned(), idx));
        self.value_map.push(row);
        self.hash_map.push(h.value());
        self.hash_var = Some(combined);
        self.log.push(idx);
        Ok(())
    }

    /// Reads the entry last written under a name back as a variable of
    /// the requested kind: the stored row comes back as a hint of that
    /// kind, and the access is chained into the running commitment and
    /// logged with the original write index.
    pub fn read<T: StoredVar>(&mut self, cs: &mut ConstraintSystem, name: &str) -> (r: Result<
        T,
        Error,
    >)
        requires
            old(self).wf_in(old(cs)),
            old(self).hash_var is Some,
            old(cs).wf(),
        ensures
            r is Ok <==> !old(cs).finalized && (lookup(
                old(self).name_to_id@,
                name@,
                old(self).value_map@.len() as nat,
            ) matches Some(idx) && T::elems_ok(row_elems(old(self).value_map@[idx as int]))),
            r is Err ==> *final(self) == *old(self) && *final(cs) == *old(cs),
            r matches Ok(v) ==> (lookup(
                old(self).name_to_id@,
                name@,
                old(self).value_map@.len() as nat,
            ) matches Some(idx) && {
                &&& T::elems_of(v.native()) == row_elems(old(self).value_map@[idx as int])
                &&& v.wf_in(&*final(cs))
                &&& final(self).wf_in(&*final(cs))
                &&& final(cs).wf()
                &&& !final(cs).finalized
                &&& final(self).value_map@ == old(self).value_map@
                &&& final(self).hash_map@ == old(self).hash_map@
                &&& final(self).name_to_id@ == old(self).name_to_id@
                &&& final(self).log@ == old(self).log@.push(idx)
                &&& (final(self).hash_var matches Some(h2) && old(self).hash_var matches Some(h1)
                    && h2.value@ == sha256_of(
                    hash_of_elems(T::elems_of(v.native())) + h1.value@,
                ))
            }),
    {
        let ghost bound = self.value_map@.len() as nat;
        let mut found: Option<usize> = None;
        let key: String = name.to_owned();
        let mut i: usize = 0;
        while i < self.name_to_id.len()
            invariant
                0 <= i <= self.name_to_id@.len(),
                key@ == name@,
                found == lookup(self.name_to_id@.take(i as int), name@, bound),
                bound == self.value_map@.len(),
                *self == *old(self),
            decreases self.name_to_id@.len() - i,
        {
            let ghost pre = self.name_to_id@.take(i as int);
            if self.name_to_id[i].0.eq(&key) {
                let idx = self.name_to_id[i].1;
                if idx < self.value_map.len() {
                    found = Some(idx);
                }
            }
            proof {
                let cur = self.name_to_id@.take(i + 1);
                assert(cur.drop_last() =~= pre);
                assert(cur.last() == self.name_to_id@[i as int]);
            }
            i = i + 1;
        }
        proof {
            assert(self.name_to_id@.take(self.name_to_id@.len() as int) =~= self.name_to_id@);
            lemma_lookup_in_bound(self.name_to_id@, name@, bound);
        }
        let idx = match found {
            Some(idx) => idx,
            None => {
                return Err(Error::OptionMissing);
            },
        };
        let val = match T::from_elems(&self.value_map[idx]) {
            Some(val) => val,
            None => {
                return Err(Error::TypeMismatch);
            },
        };
        let v = match T::new_hint(cs, val) {
            Ok(v) => v,
            Err(e) => {
                return Err(e);
            },
        };
        proof {
            v.wf_elems(cs);
            T::elems_of_matches(v.native(), val);
        }
        let ghost pre_fold = *cs;
        let ghost pre_self = *self;
        let h = match HashVar::from_var(cs, &v) {
            Ok(h) => h,
            Err(e) => {
                proof {
                    assert(false);
                }
                return Err(e);
            },
        };
        let running = match &self.hash_var {
            Some(r) => clone_hash(r),
            None => {
                proof {
                    assert(false);
                }
                return Err(Error::EncodingAmbiguous);
            },
        };
        let combined = match running.combine(cs, &h) {
            Ok(c) => c,
            Err(e) => {
                proof {
                    assert(false);
                }
                return Err(e);
            },
        };
        self.hash_var = Some(combined);
        self.log.push(idx);
        proof {
            v.wf_monotone(&pre_fold, cs);
        }
        Ok(v)
    }

    /// Marks the running commitment as a program output.
    pub fn save(&self, cs: &mut ConstraintSystem) -> (r: Result<(), Error>)
        requires
            self.wf_in(old(cs)),
            self.hash_var is Some,
            old(cs).wf(),
        ensures
            r is Ok <==> !old(cs).finalized,
            r is Err ==> *final(cs) == *old(cs),
            r is Ok ==> {
                &&& final(cs).wf()
                &&& final(cs).memory@ == old(cs).memory@
                &&& (self.hash_var matches Some(h) && final(cs).trace@ == old(cs).trace@ + seq![
                    crate::constraint_system::TraceEntry::SystemOutput(h.variable),
                ])
            },
    {
        match &self.hash_var {
            Some(h) => {
                let ids = h.variables();
                cs.set_program_output_ids(&ids)?;
                proof {
                    assert(ids@.map_values(
                        |idx: usize| crate::constraint_system::TraceEntry::SystemOutput(idx),
                    ) =~= seq![crate::constraint_system::TraceEntry::SystemOutput(h.variable)]);
                }
                Ok(())
            },
            None => {
                proof {
                    assert(false);
                }
                Err(Error::EncodingAmbiguous)
            },
        }
    }

    /// Replays the store inside a second program: the stored digests are
    /// loaded as hints in write order, the logged accesses are folded in
    /// the recorded order, and the recomputed commitment must equal the
    /// carried one, binding the two programs together.  A store whose
    /// replayed digests were tampered with folds to a different
    /// commitment and is refused.
    pub fn check(&self, cs: &mut ConstraintSystem) -> (r: Result<(), Error>)
        requires
            self.wf_in(old(cs)),
            self.hash_var is Some,
            old(cs).wf(),
        ensures
            r is Ok <==> !old(cs).finalized && (self.hash_var matches Some(h) && ldm_fold(
                ldm_seed(),
                self.hash_map@.map_values(|b: Vec<u8>| b@),
                self.log@,
                0,
            ) == h.value@),
            r is Ok ==> final(cs).wf() && !final(cs).finalized,
    {
        let ghost hashes = self.hash_map@.map_values(|b: Vec<u8>| b@);
        let running0 = match &self.hash_var {
            Some(h) => clone_hash(h),
            None => {
                proof {
                    assert(false);
                }
                return Err(Error::EncodingAmbiguous);
            },
        };
        let mut seed: Vec<u8> = Vec::new();
        seed.push(108u8);
        seed.push(100u8);
        seed.push(109u8);
        proof {
            assert(seed@ =~= seq![108u8, 100u8, 109u8]);
        }
        let digest = sha256(&seed);
        let mut recomputed = HashVar::new_constant(cs, digest)?;
        let mut map: Vec<HashVar> = Vec::new();
        let mut next_index_to_load: usize = 0;
        let mut log_pos: usize = 0;
        while next_index_to_load < self.value_map.len()
            invariant
                0 <= next_index_to_load <= self.value_map@.len(),
                0 <= log_pos <= self.log@.len(),
                map@.len() == next_index_to_load,
                cs.wf(),
                !cs.finalized,
                recomputed.wf_in(&*cs),
                forall|k: int| 0 <= k < map@.len() ==> (#[trigger] map@[k]).wf_in(&*cs),
                forall|k: int|
                    0 <= k < map@.len() ==> (#[trigger] map@[k]).value@ == hashes[k],
                hashes == self.hash_map@.map_values(|b: Vec<u8>| b@),
                log_pos == self.log@.len() || self.log@[log_pos as int] >= next_index_to_load,
                ldm_fold(recomputed.value@, hashes, self.log@, log_pos as int) == ldm_fold(
                    ldm_seed(),
                    hashes,
                    self.log@,
                    0,
                ),
                self.wf_in(&*cs),
                self.hash_var is Some,
            decreases self.value_map@.len() - next_index_to_load,
        {
            let stored = clone_bytes(&self.hash_map[next_index_to_load]);
            let new_hash_var = match HashVar::new_hint(cs, stored) {
                Ok(v) => v,
                Err(e) => {
                    proof {
                        assert(false);
                    }
                    return Err(e);
                },
            };
            next_index_to_load = next_index_to_load + 1;
            map.push(new_hash_var);
            while log_pos < self.log.len() && self.log[log_pos] < next_index_to_load
                invariant
                    0 <= log_pos <= self.log@.len(),
                    0 < next_index_to_load <= self.value_map@.len(),
                    map@.len() == next_index_to_load,
                    cs.wf(),
                    !cs.finalized,
                    recomputed.wf_in(&*cs),
                    forall|k: int| 0 <= k < map@.len() ==> (#[trigger] map@[k]).wf_in(&*cs),
                    forall|k: int|
                        0 <= k < map@.len() ==> (#[trigger] map@[k]).value@ == hashes[k],
                    hashes == self.hash_map@.map_values(|b: Vec<u8>| b@),
                    ldm_fold(recomputed.value@, hashes, self.log@, log_pos as int) == ldm_fold(
                        ldm_seed(),
                        hashes,
                        self.log@,
                        0,
                    ),
                    self.wf_in(&*cs),
                    self.hash_var is Some,
                decreases self.log@.len() - log_pos,
            {
                let id = self.log[log_pos];
                log_pos = log_pos + 1;
                let entry = &map[id];
                recomputed = match recomputed.combine(cs, entry) {
                    Ok(c) => c,
                    Err(e) => {
                        proof {
                            assert(false);
                        }
                        return Err(e);
                    },
                };
            }
        }
        proof {
            if log_pos < self.log@.len() {
                assert(self.log@[log_pos as int] < self.value_map@.len());
                assert(false);
            }
        }
        if !crate::builtins::channel::bytes_eq(&running0.value, &recomputed.value) {
            return Err(Error::EncodingAmbiguous);
        }
        let carried = match &self.hash_var {
            Some(h) => clone_hash(h),
            None => {
                proof {
                    assert(false);
                }
                return Err(Error::EncodingAmbiguous);
            },
        };
        match carried.equalverify(cs, &recomputed) {
            Ok(_) => Ok(()),
            Err(e) => {
                proof {
                    assert(false);
                }
                Err(e)
            },
        }
    }
}

/// A value-preserving copy of a digest variable handle.
fn clone_hash(h: &HashVar) -> (r: HashVar)
    ensures
        r.variable == h.variable,
        r.value@ == h.value@,
{
    HashVar { variable: h.variable, value: clone_bytes(&h.value) }
}

} // verus!
