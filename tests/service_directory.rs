use dns_service::directory_key::DirectoryKey;
use dns_service::error::DnsError;
use dns_service::request::GetServiceDirectory;
use dns_service::retry::{next_commit_step, CommitStep, MAX_COMMIT_ATTEMPTS};
use dns_service::store::DnsStore;

const TEST_DIR_NAME: &str = "test_dir";

fn s(text: &str) -> String {
    text.to_string()
}

fn key(id: u64) -> DirectoryKey {
    DirectoryKey::new(id, 7, false, false)
}

#[test]
fn add_dns_service() {
    let mut store = DnsStore::new();
    let dir_path = format!("/{}", TEST_DIR_NAME);
    assert_eq!(dir_path, "/test_dir");
    let test_dir = key(1);
    let public_name = s("q7xk2m9pza");
    assert_eq!(public_name.len(), 10);

    assert!(store.register(public_name.clone(), s("www"), test_dir).is_ok());
    assert!(store.add_service(&public_name, s("blog"), test_dir).is_ok());

    let request = GetServiceDirectory::new(public_name, s("www"));
    let directory_key = request.directory_key(&store);
    assert!(directory_key.is_ok());
    assert_eq!(directory_key.unwrap(), test_dir);
    let listing: Vec<String> = Vec::new();
    let response = GetServiceDirectory::response(&listing);
    assert!(response.is_ok());
    let response_json = response.unwrap();
    assert!(response_json.is_some());
    assert_eq!(response_json.unwrap(), "[]");
}

#[test]
fn end_to_end_scenario() {
    let mut store = DnsStore::new();
    let (dir_a, dir_b) = (key(10), key(20));
    assert_eq!(store.register(s("alice"), s("www"), dir_a), Ok(()));
    assert_eq!(store.add_service(&s("alice"), s("blog"), dir_b), Ok(()));
    assert_eq!(store.resolve(&s("alice"), &s("www")), Ok(dir_a));
    assert_eq!(store.resolve(&s("alice"), &s("blog")), Ok(dir_b));
    assert_eq!(store.resolve(&s("alice"), &s("shop")), Err(DnsError::ServiceNotFound));
    assert_eq!(store.resolve(&s("bob"), &s("www")), Err(DnsError::RecordNotFound));
    let www = GetServiceDirectory::new(s("alice"), s("www"));
    assert_eq!(www.directory_key(&store), Ok(dir_a));
    let blog = GetServiceDirectory::new(s("alice"), s("blog"));
    assert_eq!(blog.directory_key(&store), Ok(dir_b));
}

#[test]
fn register_fresh_name_resolves() {
    let mut store = DnsStore::new();
    assert_eq!(store.register(s("carol"), s("www"), key(3)), Ok(()));
    assert_eq!(store.resolve(&s("carol"), &s("www")), Ok(key(3)));
    let rec = store.get_record(&s("carol")).unwrap();
    assert_eq!(rec.version, 0);
    assert_eq!(rec.services.len(), 1);
}

#[test]
fn register_twice_leaves_record_unchanged() {
    let mut store = DnsStore::new();
    assert_eq!(store.register(s("dave"), s("www"), key(4)), Ok(()));
    assert_eq!(store.register(s("dave"), s("mail"), key(5)), Err(DnsError::AlreadyExists));
    assert_eq!(store.register(s("dave"), s("www"), key(6)), Err(DnsError::AlreadyExists));
    assert_eq!(store.resolve(&s("dave"), &s("www")), Ok(key(4)));
    assert_eq!(store.resolve(&s("dave"), &s("mail")), Err(DnsError::ServiceNotFound));
    assert_eq!(store.get_record(&s("dave")).unwrap().version, 0);
}

#[test]
fn add_to_unregistered_name_creates_nothing() {
    let mut store = DnsStore::new();
    assert_eq!(store.add_service(&s("erin"), s("www"), key(1)), Err(DnsError::RecordNotFound));
    assert_eq!(store.add_new_service(&s("erin"), s("www"), key(1)), Err(DnsError::RecordNotFound));
    assert_eq!(store.get_record(&s("erin")).unwrap_err(), DnsError::RecordNotFound);
    assert_eq!(store.resolve(&s("erin"), &s("www")), Err(DnsError::RecordNotFound));
}

#[test]
fn resolution_returns_last_written_key() {
    let mut store = DnsStore::new();
    assert_eq!(store.register(s("frank"), s("www"), key(1)), Ok(()));
    assert_eq!(store.add_service(&s("frank"), s("blog"), key(2)), Ok(()));
    assert_eq!(store.add_service(&s("frank"), s("blog"), key(3)), Ok(()));
    assert_eq!(store.add_service(&s("frank"), s("www"), key(4)), Ok(()));
    assert_eq!(store.resolve(&s("frank"), &s("blog")), Ok(key(3)));
    assert_eq!(store.resolve(&s("frank"), &s("www")), Ok(key(4)));
    assert_eq!(store.get_record(&s("frank")).unwrap().version, 3);
}

#[test]
fn unknown_service_is_not_record_not_found() {
    let mut store = DnsStore::new();
    assert_eq!(store.register(s("gina"), s("www"), key(1)), Ok(()));
    assert_eq!(store.add_service(&s("gina"), s("blog"), key(2)), Ok(()));
    assert_eq!(store.resolve(&s("gina"), &s("ftp")), Err(DnsError::ServiceNotFound));
}

#[test]
fn stale_commit_conflicts_then_reapplied_keeps_both() {
    let mut store = DnsStore::new();
    assert_eq!(store.register(s("hank"), s("www"), key(1)), Ok(()));
    let mut first = store.get_record(&s("hank")).unwrap();
    let mut second = store.get_record(&s("hank")).unwrap();
    assert_eq!(first.version, 0);
    first.set_service(s("blog"), key(2));
    second.set_service(s("shop"), key(3));
    assert_eq!(store.compare_and_swap(first, 0), Ok(1));
    assert_eq!(store.compare_and_swap(second, 0), Err(DnsError::Conflict));
    assert_eq!(store.resolve(&s("hank"), &s("shop")), Err(DnsError::ServiceNotFound));
    let mut again = store.get_record(&s("hank")).unwrap();
    again.set_service(s("shop"), key(3));
    assert_eq!(store.compare_and_swap(again, 1), Ok(2));
    assert_eq!(store.resolve(&s("hank"), &s("www")), Ok(key(1)));
    assert_eq!(store.resolve(&s("hank"), &s("blog")), Ok(key(2)));
    assert_eq!(store.resolve(&s("hank"), &s("shop")), Ok(key(3)));
}

#[test]
fn commit_to_unregistered_name_fails() {
    let mut store = DnsStore::new();
    assert_eq!(store.register(s("ivy"), s("www"), key(1)), Ok(()));
    let mut rec = store.get_record(&s("ivy")).unwrap();
    rec.long_name = s("jack");
    assert_eq!(store.compare_and_swap(rec, 0), Err(DnsError::RecordNotFound));
    assert_eq!(store.resolve(&s("jack"), &s("www")), Err(DnsError::RecordNotFound));
}

#[test]
fn empty_strings_are_ordinary_labels() {
    let mut store = DnsStore::new();
    assert_eq!(store.register(s(""), s("www"), key(1)), Ok(()));
    assert_eq!(store.register(s("kate"), s(""), key(2)), Ok(()));
    assert_eq!(store.resolve(&s(""), &s("www")), Ok(key(1)));
    assert_eq!(store.resolve(&s("kate"), &s("")), Ok(key(2)));
    assert_eq!(store.add_service(&s("kate"), s("www"), key(3)), Ok(()));
    assert_eq!(store.remove_service(&s("kate"), &s("")), Ok(()));
    assert_eq!(store.resolve(&s("kate"), &s("")), Err(DnsError::ServiceNotFound));
    assert_eq!(store.get_record(&s("kate")).unwrap().version, 2);
}

#[test]
fn create_only_addition_refuses_existing_service() {
    let mut store = DnsStore::new();
    assert_eq!(store.register(s("liam"), s("www"), key(1)), Ok(()));
    assert_eq!(store.add_new_service(&s("liam"), s("www"), key(2)), Err(DnsError::AlreadyExists));
    assert_eq!(store.resolve(&s("liam"), &s("www")), Ok(key(1)));
    assert_eq!(store.add_new_service(&s("liam"), s("blog"), key(2)), Ok(()));
    assert_eq!(store.resolve(&s("liam"), &s("blog")), Ok(key(2)));
}

#[test]
fn remove_service_then_resolve_fails() {
    let mut store = DnsStore::new();
    assert_eq!(store.register(s("mia"), s("www"), key(1)), Ok(()));
    assert_eq!(store.add_service(&s("mia"), s("blog"), key(2)), Ok(()));
    assert_eq!(store.remove_service(&s("mia"), &s("www")), Ok(()));
    assert_eq!(store.resolve(&s("mia"), &s("www")), Err(DnsError::ServiceNotFound));
    assert_eq!(store.resolve(&s("mia"), &s("blog")), Ok(key(2)));
    assert_eq!(store.remove_service(&s("mia"), &s("www")), Err(DnsError::ServiceNotFound));
    assert_eq!(store.remove_service(&s("nora"), &s("www")), Err(DnsError::RecordNotFound));
    assert_eq!(store.get_record(&s("mia")).unwrap().version, 2);
}

#[test]
fn response_encodes_listing_as_json() {
    let entries = vec![s("index.html"), s("a\"b")];
    let response = GetServiceDirectory::response(&entries).unwrap().unwrap();
    assert_eq!(response, "[\"index.html\",\"a\\\"b\"]");
    let escaped = GetServiceDirectory::response(&vec![s("tab\there"), s("line\n")]);
    assert_eq!(escaped, Ok(Some(s("[\"tab\\there\",\"line\\n\"]"))));
}

#[test]
fn record_remove_and_copy() {
    let mut rec = dns_service::record::DnsRecord::new(s("olga"), s("www"), key(1));
    rec.set_service(s("blog"), key(2));
    let copy = rec.copy();
    assert_eq!(copy.resolve(&s("blog")), Ok(key(2)));
    assert_eq!(rec.remove_service(&s("blog")), Ok(()));
    assert_eq!(rec.resolve(&s("blog")), Err(DnsError::ServiceNotFound));
    assert_eq!(rec.remove_service(&s("blog")), Err(DnsError::ServiceNotFound));
    assert_eq!(rec.resolve(&s("www")), Ok(key(1)));
    assert_eq!(copy.services.len(), 2);
}

#[test]
fn retry_policy_bounds_conflicts() {
    assert_eq!(MAX_COMMIT_ATTEMPTS, 3);
    assert_eq!(next_commit_step(1, Ok(5)), CommitStep::Done(5));
    assert_eq!(next_commit_step(1, Err(DnsError::Conflict)), CommitStep::Retry);
    assert_eq!(next_commit_step(2, Err(DnsError::Conflict)), CommitStep::Retry);
    assert_eq!(
        next_commit_step(3, Err(DnsError::Conflict)),
        CommitStep::Fail(DnsError::ConcurrentModification)
    );
    assert_eq!(
        next_commit_step(1, Err(DnsError::RecordNotFound)),
        CommitStep::Fail(DnsError::RecordNotFound)
    );
}

#[test]
fn concurrent_writers_with_retry_keep_both_services() {
    let mut store = DnsStore::new();
    assert_eq!(store.register(s("pia"), s("www"), key(1)), Ok(()));
    let mut writer_a = store.get_record(&s("pia")).unwrap();
    let mut writer_b = store.get_record(&s("pia")).unwrap();
    writer_a.set_service(s("blog"), key(2));
    writer_b.set_service(s("shop"), key(3));
    assert_eq!(next_commit_step(1, store.compare_and_swap(writer_a, 0)), CommitStep::Done(1));
    let version_b = writer_b.version;
    assert_eq!(next_commit_step(1, store.compare_and_swap(writer_b, version_b)), CommitStep::Retry);
    let mut again = store.get_record(&s("pia")).unwrap();
    again.set_service(s("shop"), key(3));
    let version = again.version;
    assert_eq!(next_commit_step(2, store.compare_and_swap(again, version)), CommitStep::Done(2));
    assert_eq!(store.resolve(&s("pia"), &s("blog")), Ok(key(2)));
    assert_eq!(store.resolve(&s("pia"), &s("shop")), Ok(key(3)));
}
