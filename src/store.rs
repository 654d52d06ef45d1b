//! The record store: the authoritative mapping from public names to records,
//! mutated by version-checked compare-and-swap.

use vstd::prelude::*;
use crate::assoc::{assoc_map, keys_unique, lemma_assoc_absent, lemma_assoc_value,
    lemma_assoc_push, lemma_unique_push, lemma_assoc_remove};
use crate::directory_key::DirectoryKey;
use crate::error::DnsError;
use crate::record::{DnsRecord, RecordView};

verus! {

/// The (name, record view) pairs of a list of records.
pub open spec fn record_pairs(s: Seq<DnsRecord>) -> Seq<(Seq<char>, RecordView)> {
    s.map_values(|r: DnsRecord| (r.long_name@, r@))
}

/// What resolving `service` under `name` yields in the store `m`.
pub open spec fn resolution(
    m: Map<Seq<char>, RecordView>,
    name: Seq<char>,
    service: Seq<char>,
) -> Result<DirectoryKey, DnsError> {
    if !m.contains_key(name) {
        Err(DnsError::RecordNotFound)
    } else if !m[name].services.contains_key(service) {
        Err(DnsError::ServiceNotFound)
    } else {
        Ok(m[name].services[service])
    }
}

/// Why registering `name` with an initial `service` fails, if it does.
pub open spec fn register_error(
    m: Map<Seq<char>, RecordView>,
    name: Seq<char>,
    service: Seq<char>,
) -> Option<DnsError> {
    if m.contains_key(name) {
        Some(DnsError::AlreadyExists)
    } else {
        None
    }
}

/// The store after `name` was registered with one service.
pub open spec fn after_register(
    m: Map<Seq<char>, RecordView>,
    name: Seq<char>,
    service: Seq<char>,
    key: DirectoryKey,
) -> Map<Seq<char>, RecordView> {
    m.insert(name, RecordView { services: map![service => key], version: 0 })
}

/// Why a compare-and-swap of the record of `name`, expecting `expected`, fails,
/// if it does.
pub open spec fn commit_error(
    m: Map<Seq<char>, RecordView>,
    name: Seq<char>,
    expected: nat,
) -> Option<DnsError> {
    if !m.contains_key(name) {
        Some(DnsError::RecordNotFound)
    } else if m[name].version != expected {
        Some(DnsError::Conflict)
    } else if expected >= u64::MAX {
        Some(DnsError::VersionExhausted)
    } else {
        None
    }
}

/// The store after a successful compare-and-swap: the new service table at
/// the next version.
pub open spec fn after_commit(
    m: Map<Seq<char>, RecordView>,
    name: Seq<char>,
    expected: nat,
    services: Map<Seq<char>, DirectoryKey>,
) -> Map<Seq<char>, RecordView> {
    m.insert(name, RecordView { services, version: expected + 1 })
}

/// Why a read-modify-write of the services under `name` fails, if it does.
pub open spec fn mutation_error(
    m: Map<Seq<char>, RecordView>,
    name: Seq<char>,
    service: Seq<char>,
) -> Option<DnsError> {
    if !m.contains_key(name) {
        Some(DnsError::RecordNotFound)
    } else {
        commit_error(m, name, m[name].version)
    }
}

/// The store after `service` under `name` was set to `key`.
pub open spec fn after_add(
    m: Map<Seq<char>, RecordView>,
    name: Seq<char>,
    service: Seq<char>,
    key: DirectoryKey,
) -> Map<Seq<char>, RecordView> {
    after_commit(m, name, m[name].version, m[name].services.insert(service, key))
}

/// Why adding `service` under `name` in create-only fashion fails, if it does.
pub open spec fn add_new_error(
    m: Map<Seq<char>, RecordView>,
    name: Seq<char>,
    service: Seq<char>,
) -> Option<DnsError> {
    if m.contains_key(name) && m[name].services.contains_key(service) {
        Some(DnsError::AlreadyExists)
    } else {
        mutation_error(m, name, service)
    }
}

/// Why removing `service` under `name` fails, if it does.
pub open spec fn remove_error(
    m: Map<Seq<char>, RecordView>,
    name: Seq<char>,
    service: Seq<char>,
) -> Option<DnsError> {
    if m.contains_key(name) && !m[name].services.contains_key(service) {
        Some(DnsError::ServiceNotFound)
    } else {
        mutation_error(m, name, service)
    }
}

/// The store after `service` under `name` was removed.
pub open spec fn after_remove(
    m: Map<Seq<char>, RecordView>,
    name: Seq<char>,
    service: Seq<char>,
) -> Map<Seq<char>, RecordView> {
    after_commit(m, name, m[name].version, m[name].services.remove(service))
}

/// The in-process record store.
#[derive(Debug)]
pub struct DnsStore {
    records: Vec<DnsRecord>,
}

impl View for DnsStore {
    type V = Map<Seq<char>, RecordView>;

    closed spec fn view(&self) -> Map<Seq<char>, RecordView> {
        assoc_map(record_pairs(self.records@))
    }
}

impl DnsStore {
    /// At most one record per name, and every record well formed.
    pub closed spec fn wf(&self) -> bool {
        &&& keys_unique(record_pairs(self.records@))
        &&& forall|i: int| 0 <= i < self.records@.len() ==> (#[trigger] self.records@[i]).wf()
    }

    /// An empty store.
    pub fn new() -> (r: DnsStore)
        ensures
            r.wf(),
            r@ == Map::<Seq<char>, RecordView>::empty(),
    {
        let r = DnsStore { records: Vec::new() };
        assert(record_pairs(r.records@) =~= Seq::<(Seq<char>, RecordView)>::empty());
        r
    }

    fn find_record(&self, long_name: &String) -> (r: Option<usize>)
        requires
            self.wf(),
        ensures
            match r {
                Some(i) => i < self.records@.len() && self.records@[i as int].long_name@
                    == long_name@ && self@.contains_key(long_name@) && self@[long_name@]
                    == self.records@[i as int]@,
                None => !self@.contains_key(long_name@),
            },
    {
        let ghost p = record_pairs(self.records@);
        let mut i: usize = 0;
        while i < self.records.len()
            invariant
                self.wf(),
                p == record_pairs(self.records@),
                i <= self.records@.len(),
                forall|j: int| 0 <= j < i ==> self.records@[j].long_name@ != long_name@,
            decreases self.records@.len() - i,
        {
            if self.records[i].long_name == *long_name {
                proof { lemma_assoc_value(p, i as int); }
                return Some(i);
            }
            i = i + 1;
        }
        proof {
            assert forall|j: int| 0 <= j < p.len() implies p[j].0 != long_name@ by {
                assert(p[j].0 == self.records@[j].long_name@);
            }
            lemma_assoc_absent(p, long_name@);
        }
        None
    }

    /// Takes the record at `i` out of the store.
    fn take(&mut self, i: usize) -> (r: DnsRecord)
        requires
            old(self).wf(),
            i < old(self).records@.len(),
        ensures
            final(self).wf(),
            r.wf(),
            r == old(self).records@[i as int],
            final(self)@ == old(self)@.remove(r.long_name@),
    {
        let ghost p = record_pairs(self.records@);
        proof {
            lemma_assoc_remove(p, i as int);
            assert(record_pairs(self.records@.remove(i as int)) =~= p.remove(i as int));
        }
        let r = self.records.remove(i);
        proof {
            assert forall|j: int| 0 <= j < self.records@.len() implies (#[trigger] self.records@[j]).wf() by {
                let k = if j < i { j } else { j + 1 };
                assert(self.records@[j] == old(self).records@[k]);
            }
        }
        r
    }

    /// Puts a record whose name is absent into the store.
    fn put(&mut self, rec: DnsRecord)
        requires
            old(self).wf(),
            rec.wf(),
            !old(self)@.contains_key(rec.long_name@),
        ensures
            final(self).wf(),
            final(self)@ == old(self)@.insert(rec.long_name@, rec@),
    {
        let ghost p = record_pairs(self.records@);
        let ghost pair = (rec.long_name@, rec@);
        self.records.push(rec);
        proof {
            assert(record_pairs(self.records@) =~= p.push(pair));
            lemma_assoc_push(p, pair);
            lemma_unique_push(p, pair);
            assert forall|j: int| 0 <= j < self.records@.len() implies (#[trigger] self.records@[j]).wf() by {
                if j < old(self).records@.len() {
                    assert(self.records@[j] == old(self).records@[j]);
                }
            }
        }
    }

    /// Registers `long_name` with one initial service at version 0.
    pub fn register(&mut self, long_name: String, service_name: String, key: DirectoryKey) -> (r:
        Result<(), DnsError>)
        requires
            old(self).wf(),
        ensures
            final(self).wf(),
            match r {
                Ok(()) => register_error(old(self)@, long_name@, service_name@) is None
                    && final(self)@ == after_register(old(self)@, long_name@, service_name@, key),
                Err(e) => register_error(old(self)@, long_name@, service_name@) == Some(e)
                    && final(self)@ == old(self)@,
            },
    {
        if self.find_record(&long_name).is_some() {
            return Err(DnsError::AlreadyExists);
        }
        let rec = DnsRecord::new(long_name, service_name, key);
        self.put(rec);
        Ok(())
    }

    /// A copy of the record registered under `long_name`.
    pub fn get_record(&self, long_name: &String) -> (r: Result<DnsRecord, DnsError>)
        requires
            self.wf(),
        ensures
            match r {
                Ok(rec) => self@.contains_key(long_name@) && rec.wf() && rec.long_name@
                    == long_name@ && rec@ == self@[long_name@],
                Err(e) => e == DnsError::RecordNotFound && !self@.contains_key(long_name@),
            },
    {
        match self.find_record(long_name) {
            Some(i) => {
                let rec = self.records[i].copy();
                assert(rec@ == self.records@[i as int]@);
                Ok(rec)
            },
            None => Err(DnsError::RecordNotFound),
        }
    }

    /// Writes `rec` as the record of its name if the stored version is
    /// `expected_version`; the written record gets the next version.
    pub fn compare_and_swap(&mut self, rec: DnsRecord, expected_version: u64) -> (r: Result<
        u64,
        DnsError,
    >)
        requires
            old(self).wf(),
            rec.wf(),
        ensures
            final(self).wf(),
            match r {
                Ok(v) => commit_error(old(self)@, rec.long_name@, expected_version as nat) is None
                    && v == expected_version + 1 && final(self)@ == after_commit(
                    old(self)@,
                    rec.long_name@,
                    expected_version as nat,
                    rec@.services,
                ),
                Err(e) => commit_error(old(self)@, rec.long_name@, expected_version as nat)
                    == Some(e) && final(self)@ == old(self)@,
            },
    {
        let i = match self.find_record(&rec.long_name) {
            Some(i) => i,
            None => return Err(DnsError::RecordNotFound),
        };
        if self.records[i].version != expected_version {
            return Err(DnsError::Conflict);
        }
        if expected_version == u64::MAX {
            return Err(DnsError::VersionExhausted);
        }
        let _ = self.take(i);
        let mut rec = rec;
        rec.version = expected_version + 1;
        self.put(rec);
        proof {
            assert(final(self)@ =~= after_commit(old(self)@, rec.long_name@, expected_version as nat, rec@.services));
        }
        Ok(expected_version + 1)
    }

    /// Resolves `service_name` under `long_name` to its directory key.
    pub fn resolve(&self, long_name: &String, service_name: &String) -> (r: Result<
        DirectoryKey,
        DnsError,
    >)
        requires
            self.wf(),
        ensures
            r == resolution(self@, long_name@, service_name@),
    {
        match self.find_record(long_name) {
            Some(i) => self.records[i].resolve(service_name),
            None => Err(DnsError::RecordNotFound),
        }
    }

    /// Sets `service_name` under `long_name` to `key`, adding the service or
    /// overwriting its key: read the record, change it, commit it at the next
    /// version.
    pub fn add_service(&mut self, long_name: &String, service_name: String, key: DirectoryKey) -> (r:
        Result<(), DnsError>)
        requires
            old(self).wf(),
        ensures
            final(self).wf(),
            match r {
                Ok(()) => mutation_error(old(self)@, long_name@, service_name@) is None
                    && final(self)@ == after_add(old(self)@, long_name@, service_name@, key),
                Err(e) => mutation_error(old(self)@, long_name@, service_name@) == Some(e)
                    && final(self)@ == old(self)@,
            },
    {
        let mut rec = self.get_record(long_name)?;
        let version = rec.version;
        rec.set_service(service_name, key);
        let r = self.compare_and_swap(rec, version);
        match r {
            Ok(_) => Ok(()),
            Err(e) => Err(e),
        }
    }

    /// Adds `service_name` under `long_name` only where the record does not
    /// hold that service yet.
    pub fn add_new_service(&mut self, long_name: &String, service_name: String, key: DirectoryKey) -> (r:
        Result<(), DnsError>)
        requires
            old(self).wf(),
        ensures
            final(self).wf(),
            match r {
                Ok(()) => add_new_error(old(self)@, long_name@, service_name@) is None
                    && final(self)@ == after_add(old(self)@, long_name@, service_name@, key),
                Err(e) => add_new_error(old(self)@, long_name@, service_name@) == Some(e)
                    && final(self)@ == old(self)@,
            },
    {
        let mut rec = self.get_record(long_name)?;
        if rec.resolve(&service_name).is_ok() {
            return Err(DnsError::AlreadyExists);
        }
        let version = rec.version;
        rec.set_service(service_name, key);
        let r = self.compare_and_swap(rec, version);
        match r {
            Ok(_) => Ok(()),
            Err(e) => Err(e),
        }
    }

    /// Removes `service_name` from the record of `long_name`.
    pub fn remove_service(&mut self, long_name: &String, service_name: &String) -> (r: Result<
        (),
        DnsError,
    >)
        requires
            old(self).wf(),
        ensures
            final(self).wf(),
            match r {
                Ok(()) => remove_error(old(self)@, long_name@, service_name@) is None
                    && final(self)@ == after_remove(old(self)@, long_name@, service_name@),
                Err(e) => remove_error(old(self)@, long_name@, service_name@) == Some(e)
                    && final(self)@ == old(self)@,
            },
    {
        let mut rec = self.get_record(long_name)?;
        let version = rec.version;
        rec.remove_service(service_name)?;
        let r = self.compare_and_swap(rec, version);
        match r {
            Ok(_) => Ok(()),
            Err(e) => Err(e),
        }
    }
}

} // verus!
