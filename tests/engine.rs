use cellar_migrate::config::{
    chunk_size_bytes, check_counts, prefixed_name, resolve_destinations, ConfigError,
};
use cellar_migrate::listing::ListingCollector;
use cellar_migrate::multipart::plan_parts;
use cellar_migrate::object::{checksum_is_composite, ObjectDescriptor};
use cellar_migrate::plan::{compute_plan, PlanError};
use cellar_migrate::provision::{
    creation_outcome, destination_listing_needed, provision_action, CreateBucketResult,
    ProvisionAction,
};
use cellar_migrate::report::{
    throughput, total_size, total_synchronization_size, BucketFailure, BucketOutcome,
};
use cellar_migrate::stats::{deletion_step, tally, ObjectOutcome};
use cellar_migrate::transfer::{ObjectTransfer, Phase, TransferEvent, TransferStep};

const KB: u64 = 1024;
const MB: u64 = 1024 * 1024;

fn obj(key: &str, size: u64, checksum: &str) -> ObjectDescriptor {
    ObjectDescriptor {
        key: key.to_string(),
        size,
        checksum: checksum.to_string(),
        last_modified: "2024-01-01T00:00:00.000Z".to_string(),
    }
}

fn keys(v: &[ObjectDescriptor]) -> Vec<String> {
    v.iter().map(|o| o.key.clone()).collect()
}

fn run_transfer(size: u64, chunk: u64, dry_run: bool, fail_part: Option<u64>) -> (Vec<String>, bool) {
    let mut t = ObjectTransfer::new(size, chunk, dry_run);
    let mut log = Vec::new();
    loop {
        match t.step() {
            TransferStep::Fetch => {
                log.push("fetch".to_string());
                t.apply(TransferEvent::Completed);
            }
            TransferStep::Put => {
                log.push("put".to_string());
                t.apply(TransferEvent::Completed);
            }
            TransferStep::Initiate => {
                log.push("initiate".to_string());
                t.apply(TransferEvent::Completed);
            }
            TransferStep::UploadPart(p) => {
                log.push(format!("part {} {} {}", p.number, p.offset, p.length));
                if Some(p.number) == fail_part {
                    t.apply(TransferEvent::Failed);
                } else {
                    t.apply(TransferEvent::PartStored(format!("e{}", p.number)));
                }
            }
            TransferStep::Complete(m) => {
                let parts: Vec<String> =
                    m.iter().map(|c| format!("{}:{}", c.number, c.etag)).collect();
                log.push(format!("complete {}", parts.join(",")));
                t.apply(TransferEvent::Completed);
            }
            TransferStep::Abort => {
                log.push("abort".to_string());
                t.apply(TransferEvent::Completed);
            }
            TransferStep::Finished(ok) => return (log, ok),
        }
    }
}

#[test]
fn example_bucket_migration() {
    let src = vec![obj("a", 10 * KB, "\"new\""), obj("b", 200 * MB, "\"bb\"")];
    let dst = vec![obj("a", 10 * KB, "\"old\""), obj("c", 50 * KB, "\"cc\"")];
    let plan = compute_plan(&src, &dst, true).unwrap();
    assert_eq!(keys(&plan.to_sync), vec!["a", "b"]);
    assert_eq!(keys(&plan.to_delete), vec!["c"]);

    let chunk = chunk_size_bytes(100).unwrap();
    assert_eq!(plan_parts(200 * MB, chunk).len(), 2);
    let (log, ok) = run_transfer(200 * MB, chunk, false, None);
    assert!(ok);
    assert_eq!(
        log,
        vec![
            "fetch".to_string(),
            "initiate".to_string(),
            format!("part 1 0 {}", 100 * MB),
            format!("part 2 {} {}", 100 * MB, 100 * MB),
            "complete 1:e1,2:e2".to_string(),
        ]
    );
    let (log, ok) = run_transfer(10 * KB, chunk, false, None);
    assert!(ok);
    assert_eq!(log, vec!["fetch".to_string(), "put".to_string()]);

    // After the run the destination holds the source's objects.
    let after = vec![obj("a", 10 * KB, "\"new\""), obj("b", 200 * MB, "\"bb\"")];
    let again = compute_plan(&src, &after, true).unwrap();
    assert!(again.to_sync.is_empty());
    assert!(again.to_delete.is_empty());
}

#[test]
fn disjoint_listings_sync_everything_and_delete_nothing() {
    let src = vec![obj("x", 1, "\"1\""), obj("y", 2, "\"2\""), obj("z", 3, "\"3\"")];
    let dst = vec![obj("p", 1, "\"1\""), obj("q", 5, "\"5\"")];
    let plan = compute_plan(&src, &dst, false).unwrap();
    assert_eq!(keys(&plan.to_sync), vec!["x", "y", "z"]);
    assert!(plan.to_delete.is_empty());
    let plan = compute_plan(&src, &dst, true).unwrap();
    assert_eq!(keys(&plan.to_delete), vec!["p", "q"]);
}

#[test]
fn equal_objects_are_skipped() {
    let src = vec![obj("a", 5, "\"h1\""), obj("b", 6, "\"h2\""), obj("c", 7, "\"h3\"")];
    let dst = vec![obj("c", 7, "\"h3\""), obj("a", 5, "\"h1\""), obj("b", 6, "\"other\"")];
    let plan = compute_plan(&src, &dst, true).unwrap();
    assert_eq!(keys(&plan.to_sync), vec!["b"]);
    assert!(plan.to_delete.is_empty());
    let same = compute_plan(&src, &src, true).unwrap();
    assert!(same.to_sync.is_empty());
    assert!(same.to_delete.is_empty());
}

#[test]
fn size_difference_forces_sync() {
    let src = vec![obj("a", 5, "\"h\"")];
    let dst = vec![obj("a", 6, "\"h\"")];
    assert_eq!(keys(&compute_plan(&src, &dst, false).unwrap().to_sync), vec!["a"]);
}

#[test]
fn multipart_checksums_fall_back_to_size() {
    assert!(checksum_is_composite("\"abc-3\""));
    assert!(!checksum_is_composite("\"abc\""));
    assert!(!checksum_is_composite(""));
    let src = vec![obj("a", 5, "\"abc-2\""), obj("b", 5, "\"x-2\"")];
    let dst = vec![obj("a", 5, "\"def\""), obj("b", 6, "\"x-2\"")];
    let plan = compute_plan(&src, &dst, false).unwrap();
    assert_eq!(keys(&plan.to_sync), vec!["b"]);
    assert_eq!(keys(&plan.size_only), vec!["a"]);
    let same = compute_plan(&vec![obj("c", 5, "\"h\"")], &vec![obj("c", 5, "\"h\"")], false).unwrap();
    assert!(same.size_only.is_empty());
}

#[test]
fn empty_listings_plan_nothing() {
    let plan = compute_plan(&vec![], &vec![], true).unwrap();
    assert!(plan.to_sync.is_empty());
    assert!(plan.to_delete.is_empty());
}

#[test]
fn duplicate_keys_are_refused() {
    let dup = vec![obj("a", 1, "\"1\""), obj("a", 2, "\"2\"")];
    let one = vec![obj("a", 1, "\"1\"")];
    assert_eq!(compute_plan(&dup, &one, false).err(), Some(PlanError::DuplicateSourceKey));
    assert_eq!(compute_plan(&one, &dup, false).err(), Some(PlanError::DuplicateDestinationKey));
    assert_eq!(compute_plan(&dup, &dup, false).err(), Some(PlanError::DuplicateSourceKey));
}

#[test]
fn parts_cover_object_within_chunk_size() {
    let parts = plan_parts(250, 100);
    let v: Vec<(u64, u64, u64)> = parts.iter().map(|p| (p.number, p.offset, p.length)).collect();
    assert_eq!(v, vec![(1, 0, 100), (2, 100, 100), (3, 200, 50)]);
    let exact = plan_parts(300, 100);
    assert_eq!(exact.len(), 3);
    assert_eq!(exact[2].length, 100);
    assert_eq!(plan_parts(0, 100).len(), 0);
    let big = plan_parts(u64::MAX, u64::MAX / 2);
    assert_eq!(big.len(), 3);
    assert_eq!(big.iter().map(|p| p.length).sum::<u64>(), u64::MAX);
}

#[test]
fn object_at_chunk_size_goes_in_one_request() {
    let (log, ok) = run_transfer(100, 100, false, None);
    assert!(ok);
    assert_eq!(log, vec!["fetch".to_string(), "put".to_string()]);
}

#[test]
fn dry_run_takes_no_step() {
    let (log, ok) = run_transfer(300 * MB, 100 * MB, true, None);
    assert!(ok);
    assert!(log.is_empty());
    let mut t = ObjectTransfer::new(5, 10, true);
    t.apply(TransferEvent::Failed);
    assert_eq!(t.phase(), Phase::Succeeded);
    assert_eq!(provision_action(false, true), ProvisionAction::ReportOnly);
    assert_eq!(provision_action(true, true), ProvisionAction::Keep);
    assert_eq!(provision_action(false, false), ProvisionAction::Create);
}

#[test]
fn dry_run_stats_match_successful_execute() {
    let to_sync = vec![obj("a", 10, "\"1\""), obj("b", 20, "\"2\"")];
    let to_delete = vec![obj("c", 5, "\"3\"")];
    let outcomes: Vec<ObjectOutcome> = to_sync
        .iter()
        .map(|o| if run_transfer(o.size, 15, true, None).1 { ObjectOutcome::Done } else { ObjectOutcome::Failed(String::new()) })
        .collect();
    let dry_deletions: Vec<ObjectOutcome> =
        to_delete.iter().map(|_| deletion_step(true).unwrap()).collect();
    let dry = tally("bkt".to_string(), &to_sync, &outcomes, &to_delete, &dry_deletions).ok().unwrap();
    let outcomes: Vec<ObjectOutcome> = to_sync
        .iter()
        .map(|o| if run_transfer(o.size, 15, false, None).1 { ObjectOutcome::Done } else { ObjectOutcome::Failed(String::new()) })
        .collect();
    let exec = tally("bkt".to_string(), &to_sync, &outcomes, &to_delete, &vec![ObjectOutcome::Done]).ok().unwrap();
    assert_eq!(keys(&dry.objects), keys(&exec.objects));
    assert_eq!(keys(&dry.objects_to_delete), keys(&exec.objects_to_delete));
    assert_eq!(dry.synchronization_size, 30);
    assert_eq!(exec.synchronization_size, 30);
}

#[test]
fn failed_part_aborts_session() {
    let (log, ok) = run_transfer(250, 100, false, Some(2));
    assert!(!ok);
    assert_eq!(
        log,
        vec![
            "fetch".to_string(),
            "initiate".to_string(),
            "part 1 0 100".to_string(),
            "part 2 100 100".to_string(),
            "abort".to_string(),
        ]
    );
}

#[test]
fn failed_completion_aborts_session() {
    let mut t = ObjectTransfer::new(150, 100, false);
    t.apply(TransferEvent::Completed);
    t.apply(TransferEvent::Completed);
    t.apply(TransferEvent::PartStored("e1".to_string()));
    t.apply(TransferEvent::PartStored("e2".to_string()));
    assert_eq!(t.phase(), Phase::Completing);
    t.apply(TransferEvent::Failed);
    assert!(matches!(t.step(), TransferStep::Abort));
    t.apply(TransferEvent::Completed);
    assert_eq!(t.phase(), Phase::Failed);
}

#[test]
fn failed_fetch_opens_no_session() {
    let mut t = ObjectTransfer::new(500, 100, false);
    t.apply(TransferEvent::Failed);
    assert!(matches!(t.step(), TransferStep::Finished(false)));
}

#[test]
fn single_failure_is_isolated() {
    let to_sync = vec![obj("a", 1, "\"1\""), obj("b", 2, "\"2\""), obj("c", 4, "\"3\"")];
    let outcomes = vec![
        ObjectOutcome::Done,
        ObjectOutcome::Failed("get failed".to_string()),
        ObjectOutcome::Done,
    ];
    let err = tally("bkt".to_string(), &to_sync, &outcomes, &vec![], &vec![]).err().unwrap();
    assert_eq!(keys(&err.stats.objects), vec!["a", "c"]);
    assert_eq!(err.stats.synchronization_size, 5);
    assert_eq!(err.errors.len(), 1);
    assert_eq!(err.errors[0].key, "b");
    assert_eq!(err.errors[0].detail, "get failed");
}

#[test]
fn failed_delete_is_reported() {
    let to_delete = vec![obj("x", 1, "\"1\""), obj("y", 1, "\"1\"")];
    let deletions = vec![ObjectOutcome::Failed("denied".to_string()), ObjectOutcome::Done];
    let err = tally("bkt".to_string(), &vec![], &vec![], &to_delete, &deletions).err().unwrap();
    assert_eq!(keys(&err.stats.objects_to_delete), vec!["y"]);
    assert_eq!(err.errors[0].key, "x");
    assert_eq!(err.stats.bucket, "bkt");
}

#[test]
fn chunk_size_conversion() {
    assert_eq!(chunk_size_bytes(100), Ok(104857600));
    assert_eq!(chunk_size_bytes(0), Err(ConfigError::InvalidChunkSize));
    assert_eq!(chunk_size_bytes(u64::MAX / 1024), Err(ConfigError::InvalidChunkSize));
    assert_eq!(check_counts(4, 1000), Ok(()));
    assert_eq!(check_counts(0, 1000), Err(ConfigError::ZeroCount));
    assert_eq!(check_counts(4, 0), Err(ConfigError::ZeroCount));
}

#[test]
fn destination_names() {
    assert_eq!(prefixed_name(&Some("pre".to_string()), &"bkt".to_string()), "pre-bkt");
    assert_eq!(prefixed_name(&None, &"bkt".to_string()), "bkt");
    let all = vec!["one".to_string(), "two".to_string()];
    assert_eq!(
        resolve_destinations(&None, &None, &Some("p".to_string()), &all),
        Ok(vec!["p-one".to_string(), "p-two".to_string()])
    );
    let single = vec!["src".to_string()];
    assert_eq!(
        resolve_destinations(&Some("src".to_string()), &Some("dst".to_string()), &None, &single),
        Ok(vec!["dst".to_string()])
    );
    assert_eq!(
        resolve_destinations(&Some("src".to_string()), &None, &None, &single),
        Ok(vec!["src".to_string()])
    );
    assert_eq!(
        resolve_destinations(&None, &Some("dst".to_string()), &None, &all),
        Err(ConfigError::DestinationWithoutSource)
    );
    assert_eq!(
        resolve_destinations(&Some("src".to_string()), &None, &None, &all),
        Err(ConfigError::SourceWithSeveralBuckets)
    );
}

#[test]
fn provisioning_answers() {
    let b = "bkt".to_string();
    assert!(creation_outcome(&b, CreateBucketResult::Created).is_ok());
    assert!(creation_outcome(&b, CreateBucketResult::AlreadyExists).is_ok());
    let e = creation_outcome(&b, CreateBucketResult::Rejected("quota".to_string())).err().unwrap();
    assert_eq!(e.bucket, "bkt");
    assert_eq!(e.detail, "quota");
}

#[test]
fn listing_gathers_pages() {
    let mut l = ListingCollector::new(2);
    let first = l.next_request().unwrap();
    assert!(first.continuation.is_none());
    assert_eq!(first.max_keys, 2);
    l.accept_page(vec![obj("a", 1, "\"1\""), obj("b", 1, "\"1\"")], Some("b".to_string()));
    let second = l.next_request().unwrap();
    assert_eq!(second.continuation, Some("b".to_string()));
    l.accept_page(vec![obj("c", 1, "\"1\"")], None);
    assert!(l.next_request().is_none());
    assert_eq!(keys(&l.into_objects()), vec!["a", "b", "c"]);
}

#[test]
fn totals_and_throughput() {
    let ok = tally("a".to_string(), &vec![obj("x", 7, "\"1\"")], &vec![ObjectOutcome::Done], &vec![], &vec![]).ok().unwrap();
    let partial = tally(
        "b".to_string(),
        &vec![obj("y", 3, "\"1\""), obj("z", 9, "\"1\"")],
        &vec![ObjectOutcome::Done, ObjectOutcome::Failed("x".to_string())],
        &vec![],
        &vec![],
    )
    .err()
    .unwrap();
    let outcomes: Vec<BucketOutcome> = vec![
        Ok(ok),
        Err(BucketFailure::Objects(partial)),
        Err(BucketFailure::Fatal("listing".to_string())),
    ];
    assert_eq!(total_synchronization_size(&outcomes), 10);
    assert_eq!(total_size(&vec![obj("a", u64::MAX, ""), obj("b", 1, "")]), u64::MAX);
    assert_eq!(total_size(&vec![obj("a", 2, ""), obj("b", 3, "")]), 5);
    assert_eq!(throughput(5000, 2000), Some(2500));
    assert_eq!(throughput(5000, 0), None);
    assert_eq!(throughput(u64::MAX, 1), Some(u64::MAX));
}

#[test]
fn completed_run_with_delete_mirrors_source_keys() {
    let src = vec![obj("a", 1, "\"1\""), obj("b", 2, "\"2\""), obj("d", 4, "\"4\"")];
    let dst = vec![obj("b", 9, "\"9\""), obj("c", 3, "\"3\""), obj("d", 4, "\"4\"")];
    let plan = compute_plan(&src, &dst, true).unwrap();
    let mut after: std::collections::BTreeMap<String, u64> =
        dst.iter().map(|o| (o.key.clone(), o.size)).collect();
    for o in &plan.to_delete {
        after.remove(&o.key);
    }
    for o in &plan.to_sync {
        after.insert(o.key.clone(), o.size);
    }
    let expected: std::collections::BTreeMap<String, u64> =
        src.iter().map(|o| (o.key.clone(), o.size)).collect();
    assert_eq!(after, expected);
    assert_eq!(keys(&plan.to_sync), vec!["a", "b"]);
    assert_eq!(keys(&plan.to_delete), vec!["c"]);
}

#[test]
fn deletions_and_listing_in_dry_run() {
    assert!(matches!(deletion_step(true), Some(ObjectOutcome::Done)));
    assert!(deletion_step(false).is_none());
    assert!(!destination_listing_needed(false, true));
    assert!(destination_listing_needed(true, true));
    assert!(destination_listing_needed(false, false));
    assert!(destination_listing_needed(true, false));
}

#[test]
fn failure_details_are_kept() {
    let to_sync = vec![obj("a", 1, "\"1\""), obj("b", 2, "\"2\"")];
    let outcomes = vec![
        ObjectOutcome::Failed("timeout".to_string()),
        ObjectOutcome::Failed("denied".to_string()),
    ];
    let err = tally("bkt".to_string(), &to_sync, &outcomes, &vec![], &vec![]).err().unwrap();
    let pairs: Vec<(String, String)> =
        err.errors.iter().map(|e| (e.key.clone(), e.detail.clone())).collect();
    let expected = vec![
        ("a".to_string(), "timeout".to_string()),
        ("b".to_string(), "denied".to_string()),
    ];
    assert_eq!(pairs, expected);
    let inner: Vec<(String, String)> =
        err.stats.errors.iter().map(|e| (e.key.clone(), e.detail.clone())).collect();
    assert_eq!(inner, expected);
}
