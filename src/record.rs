//! DNS records: the versioned table of services published under one name.

use vstd::prelude::*;
use crate::assoc::{assoc_map, keys_unique, lemma_assoc_absent, lemma_assoc_value,
    lemma_assoc_push, lemma_unique_push, lemma_assoc_remove};
use crate::directory_key::DirectoryKey;
use crate::error::DnsError;

verus! {

/// One published service: a label and the directory it points to.
#[derive(Debug)]
pub struct ServiceEntry {
    pub service_name: String,
    pub key: DirectoryKey,
}

/// The authoritative object for a public name.
#[derive(Debug)]
pub struct DnsRecord {
    pub long_name: String,
    pub services: Vec<ServiceEntry>,
    pub version: u64,
}

/// What a record means: its service table and its version.
pub struct RecordView {
    pub services: Map<Seq<char>, DirectoryKey>,
    pub version: nat,
}

/// The (label, key) pairs of a list of service entries.
pub open spec fn service_pairs(s: Seq<ServiceEntry>) -> Seq<(Seq<char>, DirectoryKey)> {
    s.map_values(|e: ServiceEntry| (e.service_name@, e.key))
}

impl View for DnsRecord {
    type V = RecordView;

    open spec fn view(&self) -> RecordView {
        RecordView { services: assoc_map(service_pairs(self.services@)), version: self.version as nat }
    }
}

impl DnsRecord {
    /// No service label occurs twice.
    pub open spec fn wf(&self) -> bool {
        keys_unique(service_pairs(self.services@))
    }

    /// A fresh record at version 0 holding one service.
    pub fn new(long_name: String, service_name: String, key: DirectoryKey) -> (r: DnsRecord)
        ensures
            r.wf(),
            r.long_name@ == long_name@,
            r@.services == map![service_name@ => key],
            r@.version == 0,
    {
        let ghost name = service_name@;
        let mut services: Vec<ServiceEntry> = Vec::new();
        services.push(ServiceEntry { service_name, key });
        let r = DnsRecord { long_name, services, version: 0 };
        proof {
            let p = service_pairs(r.services@);
            assert(p.drop_last() =~= Seq::<(Seq<char>, DirectoryKey)>::empty());
            assert(p.last() == (name, key));
            assert(assoc_map(p.drop_last()) == Map::<Seq<char>, DirectoryKey>::empty());
            assert(r@.services =~= map![name => key]);
        }
        r
    }

    /// A copy of the record.
    pub fn copy(&self) -> (r: DnsRecord)
        ensures
            r.long_name@ == self.long_name@,
            r.services@ == self.services@,
            r.version == self.version,
    {
        let mut services: Vec<ServiceEntry> = Vec::new();
        let mut i: usize = 0;
        while i < self.services.len()
            invariant
                i <= self.services@.len(),
                services@ == self.services@.subrange(0, i as int),
            decreases self.services@.len() - i,
        {
            let e = &self.services[i];
            services.push(ServiceEntry { service_name: e.service_name.clone(), key: e.key });
            i = i + 1;
            assert(services@ =~= self.services@.subrange(0, i as int));
        }
        assert(services@ =~= self.services@);
        DnsRecord { long_name: self.long_name.clone(), services, version: self.version }
    }

    /// Index of the entry labelled `service_name`, if any.
    fn find_service(&self, service_name: &String) -> (r: Option<usize>)
        ensures
            match r {
                Some(i) => i < self.services@.len() && self.services@[i as int].service_name@
                    == service_name@,
                None => forall|i: int|
                    0 <= i < self.services@.len() ==> self.services@[i].service_name@
                        != service_name@,
            },
    {
        let mut i: usize = 0;
        while i < self.services.len()
            invariant
                i <= self.services@.len(),
                forall|j: int| 0 <= j < i ==> self.services@[j].service_name@ != service_name@,
            decreases self.services@.len() - i,
        {
            if self.services[i].service_name == *service_name {
                return Some(i);
            }
            i = i + 1;
        }
        None
    }

    proof fn lemma_find(&self, i: int)
        requires
            self.wf(),
            0 <= i < self.services@.len(),
        ensures
            self@.services.contains_key(self.services@[i].service_name@),
            self@.services[self.services@[i].service_name@] == self.services@[i].key,
    {
        lemma_assoc_value(service_pairs(self.services@), i);
    }

    proof fn lemma_absent(&self, name: Seq<char>)
        requires
            forall|i: int| 0 <= i < self.services@.len() ==> self.services@[i].service_name@ != name,
        ensures
            !self@.services.contains_key(name),
    {
        let p = service_pairs(self.services@);
        assert forall|i: int| 0 <= i < p.len() implies p[i].0 != name by {
            assert(p[i].0 == self.services@[i].service_name@);
        }
        lemma_assoc_absent(p, name);
    }

    /// Looks a service up in the record's table.
    pub fn resolve(&self, service_name: &String) -> (r: Result<DirectoryKey, DnsError>)
        requires
            self.wf(),
        ensures
            match r {
                Ok(k) => self@.services.contains_key(service_name@) && k == self@.services[service_name@],
                Err(e) => e == DnsError::ServiceNotFound && !self@.services.contains_key(service_name@),
            },
    {
        match self.find_service(service_name) {
            Some(i) => {
                proof { self.lemma_find(i as int); }
                Ok(self.services[i].key)
            },
            None => {
                proof { self.lemma_absent(service_name@); }
                Err(DnsError::ServiceNotFound)
            },
        }
    }

    /// Sets the key of a service, adding the service or overwriting its key.
    pub fn set_service(&mut self, service_name: String, key: DirectoryKey)
        requires
            old(self).wf(),
        ensures
            final(self).wf(),
            final(self).long_name == old(self).long_name,
            final(self)@.version == old(self)@.version,
            final(self)@.services == old(self)@.services.insert(service_name@, key),
    {
        let ghost name = service_name@;
        let ghost before = self@.services;
        match self.find_service(&service_name) {
            Some(i) => {
                proof {
                    lemma_assoc_remove(service_pairs(self.services@), i as int);
                    assert(service_pairs(self.services@.remove(i as int))
                        =~= service_pairs(self.services@).remove(i as int));
                }
                self.services.remove(i);
            },
            None => {
                proof { self.lemma_absent(name); }
            },
        }
        proof {
            assert(!self@.services.contains_key(name));
            assert(self@.services == before.remove(name));
        }
        let ghost pairs = service_pairs(self.services@);
        self.services.push(ServiceEntry { service_name, key });
        proof {
            assert(service_pairs(self.services@) =~= pairs.push((name, key)));
            lemma_assoc_push(pairs, (name, key));
            lemma_unique_push(pairs, (name, key));
            assert(self@.services =~= before.insert(name, key));
        }
    }

    /// Removes a service from the record.
    pub fn remove_service(&mut self, service_name: &String) -> (r: Result<(), DnsError>)
        requires
            old(self).wf(),
        ensures
            final(self).wf(),
            final(self).long_name == old(self).long_name,
            final(self)@.version == old(self)@.version,
            match r {
                Ok(()) => old(self)@.services.contains_key(service_name@)
                    && final(self)@.services == old(self)@.services.remove(service_name@),
                Err(e) => e == DnsError::ServiceNotFound
                    && !old(self)@.services.contains_key(service_name@)
                    && *final(self) == *old(self),
            },
    {
        match self.find_service(service_name) {
            Some(i) => {
                proof {
                    self.lemma_find(i as int);
                    lemma_assoc_remove(service_pairs(self.services@), i as int);
                    assert(service_pairs(self.services@.remove(i as int))
                        =~= service_pairs(self.services@).remove(i as int));
                }
                self.services.remove(i);
                Ok(())
            },
            None => {
                proof { self.lemma_absent(service_name@); }
                Err(DnsError::ServiceNotFound)
            },
        }
    }
}

} // verus!
