//! The service-directory request: resolve a (name, service) pair to the
//! directory that holds the service, and encode that directory's listing as
//! the JSON response payload.

use vstd::prelude::*;
use crate::directory_key::DirectoryKey;
use crate::error::DnsError;
use crate::store::{DnsStore, resolution};

verus! {

#[verifier::external_type_specification]
#[verifier::external_body]
pub struct ExEncoderError(rustc_serialize::json::EncoderError);

/// The JSON text that rustc-serialize writes for a list of strings.
pub uninterp spec fn json_of_strings(entries: Seq<Seq<char>>) -> Seq<char>;

/// Relies on rustc_serialize::json::encode on a `Vec<String>`: a JSON array
/// of the escaped strings in order, `[]` for an empty list. It cannot fail
/// here: it writes into a `String`, which never refuses a write, and the
/// encoder's other error is raised only for hash-map keys.
#[verifier::external_body]
fn encode_strings(entries: &Vec<String>) -> (r: Result<String, rustc_serialize::json::EncoderError>)
    ensures
        r is Ok,
        r matches Ok(s) ==> s@ == json_of_strings(entries.deep_view()) && (entries@.len() == 0
            ==> s@ == seq!['[', ']']),
{
    rustc_serialize::json::encode(entries)
}

/// A request for the directory published under a public name's service.
#[derive(Debug)]
pub struct GetServiceDirectory {
    pub long_name: String,
    pub service_name: String,
}

impl GetServiceDirectory {
    pub fn new(long_name: String, service_name: String) -> (r: GetServiceDirectory)
        ensures
            r.long_name == long_name,
            r.service_name == service_name,
    {
        GetServiceDirectory { long_name, service_name }
    }

    /// The key of the directory that the requested service points to.
    pub fn directory_key(&self, store: &DnsStore) -> (r: Result<DirectoryKey, DnsError>)
        requires
            store.wf(),
        ensures
            r == resolution(store@, self.long_name@, self.service_name@),
    {
        store.resolve(&self.long_name, &self.service_name)
    }

    /// The response payload for a fetched listing, given by its entry names:
    /// their JSON encoding.
    pub fn response(entries: &Vec<String>) -> (r: Result<Option<String>, DnsError>)
        ensures
            r matches Ok(Some(s)) && s@ == json_of_strings(entries.deep_view()) && (entries@.len()
                == 0 ==> s@ == seq!['[', ']']),
    {
        match encode_strings(entries) {
            Ok(s) => Ok(Some(s)),
            Err(_) => Err(DnsError::SerializationFailure),
        }
    }
}

} // verus!
