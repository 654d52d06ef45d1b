//! Properties of the naming protocol, stated over the store's model.

use vstd::prelude::*;
use crate::directory_key::DirectoryKey;
use crate::error::DnsError;
use crate::record::RecordView;
use crate::retry::{CommitStep, commit_step};
use crate::store::{resolution, register_error, after_register, commit_error, after_commit,
    mutation_error, add_new_error, after_add};

verus! {

/// Registering a name that is not registered succeeds, and the name then
/// resolves its initial service to the given key.
pub proof fn lemma_register_fresh_name(
    m: Map<Seq<char>, RecordView>,
    name: Seq<char>,
    service: Seq<char>,
    key: DirectoryKey,
)
    requires
        !m.contains_key(name),
    ensures
        register_error(m, name, service) is None,
        resolution(after_register(m, name, service, key), name, service) == Ok::<
            DirectoryKey,
            DnsError,
        >(key),
{
}

/// Once a name is registered, registering it again fails with
/// `AlreadyExists`, whatever its initial service.
pub proof fn lemma_register_twice(
    m: Map<Seq<char>, RecordView>,
    name: Seq<char>,
    first: Seq<char>,
    key: DirectoryKey,
    second: Seq<char>,
)
    requires
        register_error(m, name, first) is None,
    ensures
        register_error(after_register(m, name, first, key), name, second) == Some(
            DnsError::AlreadyExists,
        ),
{
}

/// Adding a service under a name that was never registered fails with
/// `RecordNotFound`, in overwriting and in create-only fashion.
pub proof fn lemma_add_to_unregistered(
    m: Map<Seq<char>, RecordView>,
    name: Seq<char>,
    service: Seq<char>,
)
    requires
        !m.contains_key(name),
    ensures
        mutation_error(m, name, service) == Some(DnsError::RecordNotFound),
        add_new_error(m, name, service) == Some(DnsError::RecordNotFound),
{
}

/// After a successful addition the pair resolves to the key just written,
/// and every other (name, service) pair resolves as before; so each pair
/// resolves to the key last written for it.
pub proof fn lemma_add_then_resolve(
    m: Map<Seq<char>, RecordView>,
    name: Seq<char>,
    service: Seq<char>,
    key: DirectoryKey,
    other_name: Seq<char>,
    other_service: Seq<char>,
)
    requires
        mutation_error(m, name, service) is None,
        other_name != name || other_service != service,
    ensures
        resolution(after_add(m, name, service, key), name, service) == Ok::<
            DirectoryKey,
            DnsError,
        >(key),
        resolution(after_add(m, name, service, key), other_name, other_service) == resolution(
            m,
            other_name,
            other_service,
        ),
{
}

/// A service never added under a registered name fails with
/// `ServiceNotFound`, not `RecordNotFound`, also after other services were
/// added.
pub proof fn lemma_service_never_added(
    m: Map<Seq<char>, RecordView>,
    name: Seq<char>,
    service: Seq<char>,
    other: Seq<char>,
    key: DirectoryKey,
)
    requires
        m.contains_key(name),
        !m[name].services.contains_key(service),
        mutation_error(m, name, other) is None,
        other != service,
    ensures
        resolution(m, name, service) == Err::<DirectoryKey, DnsError>(DnsError::ServiceNotFound),
        resolution(after_add(m, name, other, key), name, service) == Err::<DirectoryKey, DnsError>(
            DnsError::ServiceNotFound,
        ),
{
}

/// Two writers read the record of `name` at one version and each add a
/// different service. The first commit wins; the second, made against the
/// version it read, fails with `Conflict`, which the retry policy answers by
/// a retry; re-read and re-applied it succeeds, and both services are in the
/// final record.
pub proof fn lemma_concurrent_additions_keep_both(
    m: Map<Seq<char>, RecordView>,
    name: Seq<char>,
    first: Seq<char>,
    first_key: DirectoryKey,
    second: Seq<char>,
    second_key: DirectoryKey,
)
    requires
        m.contains_key(name),
        m[name].version + 2 <= u64::MAX,
        first != second,
    ensures
        ({
            let read = m[name];
            let m1 = after_commit(m, name, read.version, read.services.insert(first, first_key));
            let reread = m1[name];
            let m2 = after_commit(
                m1,
                name,
                reread.version,
                reread.services.insert(second, second_key),
            );
            &&& commit_error(m, name, read.version) is None
            &&& commit_error(m1, name, read.version) == Some(DnsError::Conflict)
            &&& commit_step(1, Err(DnsError::Conflict)) == CommitStep::Retry
            &&& commit_error(m1, name, reread.version) is None
            &&& m2[name].services.contains_key(first)
            &&& m2[name].services[first] == first_key
            &&& m2[name].services.contains_key(second)
            &&& m2[name].services[second] == second_key
            &&& m2[name].version == read.version + 2
        }),
{
}

/// Whatever other writers committed to `name` after a writer read it, the
/// writer's commit against the stale version fails with `Conflict` and changes
/// nothing; re-read and re-applied, its commit keeps every service that is
/// now in the record and adds its own. No committed write is lost.
pub proof fn lemma_reapplied_commit_loses_nothing(
    current: Map<Seq<char>, RecordView>,
    name: Seq<char>,
    stale_version: nat,
    service: Seq<char>,
    key: DirectoryKey,
)
    requires
        current.contains_key(name),
        current[name].version != stale_version,
        current[name].version < u64::MAX,
    ensures
        commit_error(current, name, stale_version) == Some(DnsError::Conflict),
        ({
            let reread = current[name];
            let after = after_commit(current, name, reread.version, reread.services.insert(service, key));
            &&& commit_error(current, name, reread.version) is None
            &&& after[name].services.contains_key(service)
            &&& after[name].services[service] == key
            &&& forall|other: Seq<char>|
                other != service && reread.services.contains_key(other) ==> #[trigger] after[name].services.contains_key(other)
                    && after[name].services[other] == reread.services[other]
        }),
{
}

} // verus!
