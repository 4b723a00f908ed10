use orchestrator::errors::JobError;
use orchestrator::metadata::Metadata;
use orchestrator::store::{conditional_write_outcome, JobStore, JobUpdate};
use orchestrator::types::{ExternalId, JobItem, JobStatus, JobType};

fn job(id: u128, job_type: JobType, status: JobStatus, internal_id: &str) -> JobItem {
    JobItem {
        id,
        internal_id: internal_id.to_string(),
        job_type,
        status,
        external_id: ExternalId::Number(0),
        metadata: Metadata::new(),
        version: 0,
    }
}

fn ids(jobs: &Vec<JobItem>) -> Vec<u128> {
    jobs.iter().map(|j| j.id).collect()
}

#[test]
fn new_store_is_empty() {
    let store = JobStore::new();
    assert_eq!(store.len(), 0);
    assert_eq!(store.get_job_by_id(1), None);
}

#[test]
fn create_job_stores_and_returns_the_job() {
    let mut store = JobStore::new();
    let j = job(1, JobType::SnosRun, JobStatus::Created, "1");
    let returned = store.create_job(j.clone()).unwrap();
    assert_eq!(returned, j);
    assert_eq!(store.len(), 1);
    assert_eq!(store.get_job_by_id(1), Some(j));
}

/// No two records share type and internal id.
#[test]
fn create_job_refuses_same_type_and_internal_id() {
    let mut store = JobStore::new();
    store.create_job(job(1, JobType::SnosRun, JobStatus::Created, "1")).unwrap();
    let result = store.create_job(job(2, JobType::SnosRun, JobStatus::Completed, "1"));
    assert_eq!(result, Err(JobError::Duplicate));
    assert_eq!(store.len(), 1);
    assert_eq!(store.get_job_by_id(2), None);
}

/// No two records share an identifier.
#[test]
fn create_job_refuses_same_identifier() {
    let mut store = JobStore::new();
    store.create_job(job(1, JobType::SnosRun, JobStatus::Created, "1")).unwrap();
    let result = store.create_job(job(1, JobType::ProofCreation, JobStatus::Created, "2"));
    assert_eq!(result, Err(JobError::Duplicate));
    assert_eq!(store.len(), 1);
}

#[test]
fn create_job_admits_same_internal_id_of_other_type() {
    let mut store = JobStore::new();
    store.create_job(job(1, JobType::SnosRun, JobStatus::Created, "1")).unwrap();
    assert!(store.create_job(job(2, JobType::ProofCreation, JobStatus::Created, "1")).is_ok());
    assert_eq!(store.len(), 2);
}

#[test]
fn get_job_by_internal_id_and_type_finds_the_one() {
    let mut store = JobStore::new();
    store.create_job(job(1, JobType::SnosRun, JobStatus::Created, "1")).unwrap();
    store.create_job(job(2, JobType::ProofCreation, JobStatus::Created, "1")).unwrap();
    store.create_job(job(3, JobType::SnosRun, JobStatus::Created, "2")).unwrap();
    assert_eq!(
        store.get_job_by_internal_id_and_type("1", &JobType::ProofCreation).unwrap().id,
        2
    );
    assert_eq!(store.get_job_by_internal_id_and_type("2", &JobType::SnosRun).unwrap().id, 3);
    assert_eq!(store.get_job_by_internal_id_and_type("2", &JobType::ProofCreation), None);
    assert_eq!(store.get_job_by_internal_id_and_type("01", &JobType::SnosRun), None);
}

#[test]
fn update_job_status_raises_version_by_one() {
    let mut store = JobStore::new();
    let j = job(1, JobType::SnosRun, JobStatus::Created, "1");
    store.create_job(j.clone()).unwrap();

    assert_eq!(store.update_job_status(&j, JobStatus::LockedForProcessing), Ok(()));
    let stored = store.get_job_by_id(1).unwrap();
    assert_eq!(stored.status, JobStatus::LockedForProcessing);
    assert_eq!(stored.version, 1);
    assert_eq!(stored.internal_id, "1");
    assert_eq!(stored.external_id, ExternalId::Number(0));

    assert_eq!(store.update_job_status(&stored, JobStatus::PendingVerification), Ok(()));
    assert_eq!(store.get_job_by_id(1).unwrap().version, 2);
}

/// An update made for a version that is no longer stored is refused and
/// changes nothing.
#[test]
fn update_with_stale_version_is_refused() {
    let mut store = JobStore::new();
    let j = job(1, JobType::SnosRun, JobStatus::Created, "1");
    store.create_job(j.clone()).unwrap();
    store.update_job_status(&j, JobStatus::LockedForProcessing).unwrap();
    let after_first = store.get_job_by_id(1).unwrap();

    assert_eq!(
        store.update_job_status(&j, JobStatus::LockedForProcessing),
        Err(JobError::StaleVersion)
    );
    assert_eq!(store.get_job_by_id(1).unwrap(), after_first);

    let mut ahead = after_first.clone();
    ahead.version = 5;
    assert_eq!(store.update_job_status(&ahead, JobStatus::Failed), Err(JobError::StaleVersion));
    assert_eq!(store.get_job_by_id(1).unwrap(), after_first);
}

/// There are no upserts: an update of a job that is not stored is refused.
#[test]
fn update_of_unknown_job_is_refused() {
    let mut store = JobStore::new();
    let j = job(1, JobType::SnosRun, JobStatus::Created, "1");
    assert_eq!(store.update_job_status(&j, JobStatus::Failed), Err(JobError::StaleVersion));
    assert_eq!(store.len(), 0);
}

#[test]
fn update_at_highest_version_is_refused() {
    let mut store = JobStore::new();
    let mut j = job(1, JobType::SnosRun, JobStatus::Created, "1");
    j.version = i32::MAX;
    store.create_job(j.clone()).unwrap();
    assert_eq!(store.update_job_status(&j, JobStatus::Failed), Err(JobError::VersionOverflow));
    assert_eq!(store.get_job_by_id(1).unwrap(), j);

    let mut below = job(2, JobType::SnosRun, JobStatus::Created, "2");
    below.version = i32::MAX - 1;
    store.create_job(below.clone()).unwrap();
    assert_eq!(store.update_job_status(&below, JobStatus::Failed), Ok(()));
    assert_eq!(store.get_job_by_id(2).unwrap().version, i32::MAX);
}

#[test]
fn update_metadata_sets_metadata_alone() {
    let mut store = JobStore::new();
    let j = job(1, JobType::SnosRun, JobStatus::PendingVerification, "1");
    store.create_job(j.clone()).unwrap();
    let mut metadata = Metadata::new();
    metadata.insert("verification_attempt".to_string(), "1".to_string());

    assert_eq!(store.update_metadata(&j, metadata.clone()), Ok(()));
    let stored = store.get_job_by_id(1).unwrap();
    assert_eq!(stored.metadata, metadata);
    assert_eq!(stored.status, JobStatus::PendingVerification);
    assert_eq!(stored.version, 1);
}

#[test]
fn update_external_id_and_status_and_metadata_sets_all_three() {
    let mut store = JobStore::new();
    let j = job(1, JobType::SnosRun, JobStatus::LockedForProcessing, "1");
    store.create_job(j.clone()).unwrap();
    let mut metadata = Metadata::new();
    metadata.insert("process_attempt".to_string(), "1".to_string());

    let result = store.update_external_id_and_status_and_metadata(
        &j,
        "0xbeef".to_string(),
        JobStatus::PendingVerification,
        metadata.clone(),
    );
    assert_eq!(result, Ok(()));
    let stored = store.get_job_by_id(1).unwrap();
    assert_eq!(stored.external_id, ExternalId::String("0xbeef".to_string()));
    assert_eq!(stored.status, JobStatus::PendingVerification);
    assert_eq!(stored.metadata, metadata);
    assert_eq!(stored.version, 1);
}

/// `update_job` stores status, external id and metadata of the job given,
/// and keeps who the job is.
#[test]
fn update_job_stores_the_changeable_fields() {
    let mut store = JobStore::new();
    let j = job(1, JobType::SnosRun, JobStatus::Created, "1");
    store.create_job(j.clone()).unwrap();
    let mut changed = j.clone();
    changed.status = JobStatus::Failed;
    changed.external_id = ExternalId::Number(9);
    changed.metadata.insert("last_job_status".to_string(), "Created".to_string());
    changed.internal_id = "77".to_string();
    changed.job_type = JobType::StateTransition;

    assert_eq!(store.update_job(&changed), Ok(()));
    let stored = store.get_job_by_id(1).unwrap();
    assert_eq!(stored.status, JobStatus::Failed);
    assert_eq!(stored.external_id, ExternalId::Number(9));
    assert_eq!(stored.metadata.get("last_job_status").unwrap(), "Created");
    assert_eq!(stored.internal_id, "1");
    assert_eq!(stored.job_type, JobType::SnosRun);
    assert_eq!(stored.version, 1);
}

#[test]
fn update_with_empty_patch_only_raises_the_version() {
    let mut store = JobStore::new();
    let j = job(1, JobType::SnosRun, JobStatus::Created, "1");
    store.create_job(j.clone()).unwrap();
    let patch = JobUpdate { status: None, external_id: None, metadata: None };
    assert_eq!(store.update(&j, patch), Ok(()));
    let mut expected = j.clone();
    expected.version = 1;
    assert_eq!(store.get_job_by_id(1).unwrap(), expected);
}

#[test]
fn update_leaves_other_jobs_alone() {
    let mut store = JobStore::new();
    let a = job(1, JobType::SnosRun, JobStatus::Created, "1");
    let b = job(2, JobType::SnosRun, JobStatus::Created, "2");
    store.create_job(a.clone()).unwrap();
    store.create_job(b.clone()).unwrap();
    store.update_job_status(&a, JobStatus::Failed).unwrap();
    assert_eq!(store.get_job_by_id(2).unwrap(), b);
    assert_eq!(store.len(), 2);
}

/// The latest job is the one with the highest number, not the last text.
#[test]
fn latest_job_by_type_orders_by_number() {
    let mut store = JobStore::new();
    store.create_job(job(1, JobType::SnosRun, JobStatus::Created, "9")).unwrap();
    store.create_job(job(2, JobType::SnosRun, JobStatus::Created, "10")).unwrap();
    store.create_job(job(3, JobType::SnosRun, JobStatus::Created, "2")).unwrap();
    store.create_job(job(4, JobType::ProofCreation, JobStatus::Created, "50")).unwrap();
    assert_eq!(store.get_latest_job_by_type(JobType::SnosRun).unwrap().id, 2);
    assert_eq!(store.get_latest_job_by_type(JobType::ProofCreation).unwrap().id, 4);
    assert_eq!(store.get_latest_job_by_type(JobType::StateTransition), None);
}

/// An internal id that is no number ranks below every number; of two with
/// the same rank the one stored first is the latest.
#[test]
fn latest_job_by_type_with_ids_that_are_no_numbers() {
    let mut store = JobStore::new();
    store.create_job(job(1, JobType::SnosRun, JobStatus::Created, "genesis")).unwrap();
    store.create_job(job(2, JobType::SnosRun, JobStatus::Created, "other")).unwrap();
    assert_eq!(store.get_latest_job_by_type(JobType::SnosRun).unwrap().id, 1);
    store.create_job(job(3, JobType::SnosRun, JobStatus::Created, "0")).unwrap();
    assert_eq!(store.get_latest_job_by_type(JobType::SnosRun).unwrap().id, 3);
    store.create_job(job(4, JobType::SnosRun, JobStatus::Created, "00")).unwrap();
    assert_eq!(store.get_latest_job_by_type(JobType::SnosRun).unwrap().id, 3);
}

#[test]
fn latest_job_by_type_and_status_looks_at_the_status() {
    let mut store = JobStore::new();
    store.create_job(job(1, JobType::StateTransition, JobStatus::Completed, "3")).unwrap();
    store.create_job(job(2, JobType::StateTransition, JobStatus::Created, "8")).unwrap();
    store.create_job(job(3, JobType::StateTransition, JobStatus::Completed, "5")).unwrap();
    store.create_job(job(4, JobType::SnosRun, JobStatus::Completed, "9")).unwrap();
    assert_eq!(
        store
            .get_latest_job_by_type_and_status(JobType::StateTransition, JobStatus::Completed)
            .unwrap()
            .id,
        3
    );
    assert_eq!(
        store
            .get_latest_job_by_type_and_status(JobType::StateTransition, JobStatus::Created)
            .unwrap()
            .id,
        2
    );
    assert_eq!(
        store.get_latest_job_by_type_and_status(JobType::StateTransition, JobStatus::Failed),
        None
    );
}

#[test]
fn jobs_after_internal_id_are_ascending_by_number() {
    let mut store = JobStore::new();
    store.create_job(job(1, JobType::ProofCreation, JobStatus::Completed, "12")).unwrap();
    store.create_job(job(2, JobType::ProofCreation, JobStatus::Completed, "5")).unwrap();
    store.create_job(job(3, JobType::ProofCreation, JobStatus::Created, "100")).unwrap();
    store.create_job(job(4, JobType::ProofCreation, JobStatus::Completed, "6")).unwrap();
    store.create_job(job(5, JobType::SnosRun, JobStatus::Completed, "7")).unwrap();
    store.create_job(job(6, JobType::ProofCreation, JobStatus::Completed, "9")).unwrap();

    let after =
        store.get_jobs_after_internal_id_by_job_type(JobType::ProofCreation, "5".to_string());
    assert_eq!(ids(&after), vec![4, 6, 1, 3]);
    let internal: Vec<&str> = after.iter().map(|j| j.internal_id.as_str()).collect();
    assert_eq!(internal, vec!["6", "9", "12", "100"]);

    let none =
        store.get_jobs_after_internal_id_by_job_type(JobType::ProofCreation, "100".to_string());
    assert_eq!(ids(&none), Vec::<u128>::new());

    let all = store.get_jobs_after_internal_id_by_job_type(JobType::ProofCreation, "x".to_string());
    assert_eq!(ids(&all), vec![2, 4, 6, 1, 3]);
}

/// Records of one rank come in the order in which they were stored.
#[test]
fn jobs_after_internal_id_keep_stored_order_among_equals() {
    let mut store = JobStore::new();
    store.create_job(job(1, JobType::SnosRun, JobStatus::Created, "07")).unwrap();
    store.create_job(job(2, JobType::SnosRun, JobStatus::Created, "7")).unwrap();
    store.create_job(job(3, JobType::SnosRun, JobStatus::Created, "3")).unwrap();
    store.create_job(job(4, JobType::SnosRun, JobStatus::Created, "+7")).unwrap();
    let after = store.get_jobs_after_internal_id_by_job_type(JobType::SnosRun, "1".to_string());
    assert_eq!(ids(&after), vec![3, 1, 2, 4]);
}

#[test]
fn jobs_by_statuses_filters_and_limits() {
    let mut store = JobStore::new();
    store.create_job(job(1, JobType::SnosRun, JobStatus::Created, "1")).unwrap();
    store.create_job(job(2, JobType::SnosRun, JobStatus::VerificationFailed, "2")).unwrap();
    store.create_job(job(3, JobType::SnosRun, JobStatus::Completed, "3")).unwrap();
    store.create_job(job(4, JobType::ProofCreation, JobStatus::VerificationFailed, "1")).unwrap();
    store.create_job(job(5, JobType::ProofCreation, JobStatus::Created, "2")).unwrap();

    let failed = store.get_jobs_by_statuses(vec![JobStatus::VerificationFailed], None);
    assert_eq!(ids(&failed), vec![2, 4]);
    let one = store.get_jobs_by_statuses(vec![JobStatus::VerificationFailed], Some(1));
    assert_eq!(ids(&one), vec![2]);
    let two = store.get_jobs_by_statuses(vec![JobStatus::VerificationFailed], Some(2));
    assert_eq!(ids(&two), vec![2, 4]);
    let many = store.get_jobs_by_statuses(vec![JobStatus::VerificationFailed], Some(10));
    assert_eq!(ids(&many), vec![2, 4]);
    let zero = store.get_jobs_by_statuses(vec![JobStatus::VerificationFailed], Some(0));
    assert_eq!(ids(&zero), Vec::<u128>::new());
    let either =
        store.get_jobs_by_statuses(vec![JobStatus::Completed, JobStatus::Created], Some(2));
    assert_eq!(ids(&either), vec![1, 3]);
    let either = store.get_jobs_by_statuses(vec![JobStatus::Completed, JobStatus::Created], None);
    assert_eq!(ids(&either), vec![1, 3, 5]);
    let nothing = store.get_jobs_by_statuses(vec![], None);
    assert_eq!(ids(&nothing), Vec::<u128>::new());
}

#[test]
fn jobs_without_successor_is_an_anti_join() {
    let mut store = JobStore::new();
    store.create_job(job(1, JobType::SnosRun, JobStatus::Completed, "1")).unwrap();
    store.create_job(job(2, JobType::SnosRun, JobStatus::Completed, "2")).unwrap();
    store.create_job(job(3, JobType::SnosRun, JobStatus::Created, "3")).unwrap();
    store.create_job(job(4, JobType::SnosRun, JobStatus::Completed, "4")).unwrap();
    store.create_job(job(5, JobType::ProofCreation, JobStatus::Created, "2")).unwrap();
    store.create_job(job(6, JobType::DataSubmission, JobStatus::Created, "1")).unwrap();
    store.create_job(job(7, JobType::ProofCreation, JobStatus::Failed, "3")).unwrap();

    let missing = store.get_jobs_without_successor(
        JobType::SnosRun,
        JobStatus::Completed,
        JobType::ProofCreation,
    );
    assert_eq!(ids(&missing), vec![1, 4]);

    let missing = store.get_jobs_without_successor(
        JobType::SnosRun,
        JobStatus::Completed,
        JobType::DataSubmission,
    );
    assert_eq!(ids(&missing), vec![2, 4]);

    let missing = store.get_jobs_without_successor(
        JobType::ProofCreation,
        JobStatus::Completed,
        JobType::DataSubmission,
    );
    assert_eq!(ids(&missing), Vec::<u128>::new());
}

#[test]
fn store_clone_holds_the_same_records() {
    let mut store = JobStore::new();
    store.create_job(job(1, JobType::SnosRun, JobStatus::Completed, "1")).unwrap();
    store.create_job(job(2, JobType::SnosRun, JobStatus::Completed, "2")).unwrap();
    let copy = store.clone();
    assert_eq!(copy.len(), 2);
    assert_eq!(copy.get_job_by_id(1), store.get_job_by_id(1));
    assert_eq!(copy.get_job_by_id(2), store.get_job_by_id(2));
}

#[test]
fn conditional_write_that_changed_nothing_is_stale() {
    assert_eq!(conditional_write_outcome(0), Err(JobError::StaleVersion));
    assert_eq!(conditional_write_outcome(1), Ok(()));
    assert_eq!(conditional_write_outcome(2), Ok(()));
}

/// A store made of a list keeps the order and leaves out what doubles an
/// earlier record.
#[test]
fn from_jobs_leaves_out_doubles() {
    let store = JobStore::from_jobs(vec![
        job(1, JobType::SnosRun, JobStatus::Created, "1"),
        job(2, JobType::SnosRun, JobStatus::Created, "2"),
        job(1, JobType::ProofCreation, JobStatus::Created, "9"),
        job(3, JobType::SnosRun, JobStatus::Completed, "2"),
        job(4, JobType::ProofCreation, JobStatus::Created, "2"),
    ]);
    assert_eq!(store.len(), 3);
    assert_eq!(ids(&store.get_jobs_by_statuses(vec![JobStatus::Created], None)), vec![1, 2, 4]);
    assert_eq!(store.get_job_by_id(1).unwrap().job_type, JobType::SnosRun);
    assert_eq!(store.get_job_by_id(3), None);
    assert_eq!(JobStore::from_jobs(vec![]).len(), 0);
}
