use orchestrator::decimal::{format_u64, parse_u64};
use orchestrator::errors::JobError;
use orchestrator::metadata::{
    get_u64_from_metadata, increment_key_in_metadata, CounterError, Metadata,
    JOB_LAST_STATUS_METADATA_KEY, JOB_PROCESS_ATTEMPT_METADATA_KEY,
    JOB_VERIFICATION_ATTEMPT_METADATA_KEY,
};
use orchestrator::text::str_eq;
use orchestrator::types::{ExternalId, JobItem, JobStatus, JobType, JobVerificationStatus, VerificationKind};

#[test]
fn parse_u64_reads_plain_numbers() {
    assert_eq!(parse_u64("0"), Some(0));
    assert_eq!(parse_u64("7"), Some(7));
    assert_eq!(parse_u64("42"), Some(42));
    assert_eq!(parse_u64("640641"), Some(640641));
}

#[test]
fn parse_u64_accepts_leading_zeros_and_plus() {
    assert_eq!(parse_u64("007"), Some(7));
    assert_eq!(parse_u64("+5"), Some(5));
    assert_eq!(parse_u64("+0"), Some(0));
}

#[test]
fn parse_u64_refuses_what_is_no_number() {
    assert_eq!(parse_u64(""), None);
    assert_eq!(parse_u64("+"), None);
    assert_eq!(parse_u64("-1"), None);
    assert_eq!(parse_u64("1a"), None);
    assert_eq!(parse_u64(" 1"), None);
    assert_eq!(parse_u64("1 "), None);
    assert_eq!(parse_u64("++1"), None);
    assert_eq!(parse_u64("1+"), None);
    assert_eq!(parse_u64("0x10"), None);
    assert_eq!(parse_u64("١٢"), None);
    assert_eq!(parse_u64("1é"), None);
}

#[test]
fn parse_u64_at_the_limit() {
    assert_eq!(parse_u64("18446744073709551615"), Some(u64::MAX));
    assert_eq!(parse_u64("18446744073709551616"), None);
    assert_eq!(parse_u64("18446744073709551620"), None);
    assert_eq!(parse_u64("99999999999999999999"), None);
    assert_eq!(parse_u64("000018446744073709551615"), Some(u64::MAX));
}

#[test]
fn parse_u64_agrees_with_std() {
    let samples = [
        "0", "1", "10", "+10", "010", "", "+", "-", "-0", "a", "1_000", "18446744073709551615",
        "18446744073709551616", "1.0", "٣",
    ];
    for s in samples {
        assert_eq!(parse_u64(s), s.parse::<u64>().ok(), "on {:?}", s);
    }
}

#[test]
fn format_u64_writes_shortest_decimal() {
    assert_eq!(format_u64(0), "0");
    assert_eq!(format_u64(9), "9");
    assert_eq!(format_u64(10), "10");
    assert_eq!(format_u64(1200), "1200");
    assert_eq!(format_u64(131072), "131072");
    assert_eq!(format_u64(u64::MAX), "18446744073709551615");
}

#[test]
fn format_then_parse_gives_the_number_back() {
    let samples = [0u64, 1, 9, 10, 99, 100, 12345, u64::MAX - 1, u64::MAX];
    for n in samples {
        assert_eq!(parse_u64(&format_u64(n)), Some(n));
        assert_eq!(format_u64(n), n.to_string());
    }
}

#[test]
fn str_eq_compares_characters() {
    assert!(str_eq("", ""));
    assert!(str_eq("abc", "abc"));
    assert!(!str_eq("abc", "abd"));
    assert!(!str_eq("abc", "ab"));
    assert!(!str_eq("", "a"));
    assert!(str_eq("héllo", "héllo"));
    assert!(!str_eq("héllo", "hello"));
}

#[test]
fn reserved_keys_have_their_names() {
    assert_eq!(JOB_PROCESS_ATTEMPT_METADATA_KEY, "process_attempt");
    assert_eq!(JOB_VERIFICATION_ATTEMPT_METADATA_KEY, "verification_attempt");
    assert_eq!(JOB_LAST_STATUS_METADATA_KEY, "last_job_status");
}

#[test]
fn metadata_new_is_empty() {
    let m = Metadata::new();
    assert_eq!(m.to_pairs().len(), 0);
    assert_eq!(m.get("anything"), None);
    assert!(!m.contains_key("anything"));
}

#[test]
fn metadata_insert_then_get() {
    let mut m = Metadata::new();
    m.insert("a".to_string(), "1".to_string());
    m.insert("b".to_string(), "2".to_string());
    assert_eq!(m.get("a").unwrap(), "1");
    assert_eq!(m.get("b").unwrap(), "2");
    assert_eq!(m.get("c"), None);
    assert!(m.contains_key("a"));
    assert_eq!(m.to_pairs().len(), 2);
}

#[test]
fn metadata_insert_replaces_the_value() {
    let mut m = Metadata::new();
    m.insert("a".to_string(), "1".to_string());
    m.insert("b".to_string(), "2".to_string());
    m.insert("a".to_string(), "3".to_string());
    assert_eq!(m.get("a").unwrap(), "3");
    assert_eq!(m.get("b").unwrap(), "2");
    assert_eq!(m.to_pairs().len(), 2);
}

#[test]
fn metadata_equality_ignores_order() {
    let mut m = Metadata::new();
    m.insert("a".to_string(), "1".to_string());
    m.insert("b".to_string(), "2".to_string());
    let mut n = Metadata::new();
    n.insert("b".to_string(), "2".to_string());
    n.insert("a".to_string(), "1".to_string());
    assert!(m.same_as(&n));
    assert_eq!(m, n);

    n.insert("a".to_string(), "9".to_string());
    assert!(!m.same_as(&n));
    assert_ne!(m, n);

    let mut longer = m.clone();
    longer.insert("c".to_string(), "3".to_string());
    assert_ne!(m, longer);
    assert_ne!(longer, m);
}

#[test]
fn metadata_pairs_round_trip() {
    let mut m = Metadata::new();
    m.insert("a".to_string(), "1".to_string());
    m.insert("b".to_string(), "2".to_string());
    let pairs = m.to_pairs();
    assert_eq!(
        pairs,
        vec![("a".to_string(), "1".to_string()), ("b".to_string(), "2".to_string())]
    );
    assert_eq!(Metadata::from_pairs(pairs), m);
}

/// Of two pairs with one key the later one counts.
#[test]
fn metadata_from_pairs_later_pair_counts() {
    let m = Metadata::from_pairs(vec![
        ("k".to_string(), "old".to_string()),
        ("other".to_string(), "x".to_string()),
        ("k".to_string(), "new".to_string()),
    ]);
    assert_eq!(m.get("k").unwrap(), "new");
    let mut expected = Metadata::new();
    expected.insert("k".to_string(), "new".to_string());
    expected.insert("other".to_string(), "x".to_string());
    assert_eq!(m, expected);
}

#[test]
fn metadata_clone_is_equal_and_independent() {
    let mut m = Metadata::new();
    m.insert("a".to_string(), "1".to_string());
    let mut copy = m.clone();
    assert_eq!(copy, m);
    copy.insert("a".to_string(), "2".to_string());
    assert_eq!(m.get("a").unwrap(), "1");
}

#[test]
fn absent_counter_reads_as_zero() {
    let m = Metadata::new();
    assert_eq!(get_u64_from_metadata(&m, JOB_PROCESS_ATTEMPT_METADATA_KEY), Ok(0));
}

#[test]
fn counter_is_read_from_its_decimal_text() {
    let mut m = Metadata::new();
    m.insert("process_attempt".to_string(), "17".to_string());
    assert_eq!(get_u64_from_metadata(&m, "process_attempt"), Ok(17));
    m.insert("process_attempt".to_string(), "seventeen".to_string());
    assert_eq!(get_u64_from_metadata(&m, "process_attempt"), Err(CounterError::NotANumber));
}

/// Incrementing is defined on every metadata: an absent key becomes "1".
#[test]
fn increment_absent_key_becomes_one() {
    let m = Metadata::new();
    let out = increment_key_in_metadata(&m, "process_attempt").unwrap();
    assert_eq!(out.get("process_attempt").unwrap(), "1");
    assert_eq!(out.to_pairs().len(), 1);
    // The argument is left as it is.
    assert_eq!(m.to_pairs().len(), 0);
}

#[test]
fn increment_adds_one_and_keeps_other_keys() {
    let mut m = Metadata::new();
    m.insert("process_attempt".to_string(), "41".to_string());
    m.insert("blob".to_string(), "0xabc".to_string());
    let out = increment_key_in_metadata(&m, "process_attempt").unwrap();
    assert_eq!(out.get("process_attempt").unwrap(), "42");
    assert_eq!(out.get("blob").unwrap(), "0xabc");
    assert_eq!(m.get("process_attempt").unwrap(), "41");

    let mut nine = Metadata::new();
    nine.insert("n".to_string(), "9".to_string());
    assert_eq!(increment_key_in_metadata(&nine, "n").unwrap().get("n").unwrap(), "10");
    nine.insert("n".to_string(), "0099".to_string());
    assert_eq!(increment_key_in_metadata(&nine, "n").unwrap().get("n").unwrap(), "100");
}

#[test]
fn increment_refuses_what_is_no_number() {
    let mut m = Metadata::new();
    m.insert("process_attempt".to_string(), "".to_string());
    assert_eq!(
        increment_key_in_metadata(&m, "process_attempt").err(),
        Some(CounterError::NotANumber)
    );
    m.insert("process_attempt".to_string(), "1.5".to_string());
    assert_eq!(
        increment_key_in_metadata(&m, "process_attempt").err(),
        Some(CounterError::NotANumber)
    );
}

#[test]
fn increment_refuses_to_overflow() {
    let mut m = Metadata::new();
    m.insert("n".to_string(), "18446744073709551615".to_string());
    assert_eq!(increment_key_in_metadata(&m, "n").err(), Some(CounterError::Overflow));
    m.insert("n".to_string(), "18446744073709551614".to_string());
    assert_eq!(
        increment_key_in_metadata(&m, "n").unwrap().get("n").unwrap(),
        "18446744073709551615"
    );
}

#[test]
fn job_status_names_round_trip() {
    let all = [
        (JobStatus::Created, "Created"),
        (JobStatus::LockedForProcessing, "LockedForProcessing"),
        (JobStatus::PendingVerification, "PendingVerification"),
        (JobStatus::Completed, "Completed"),
        (JobStatus::VerificationTimeout, "VerificationTimeout"),
        (JobStatus::VerificationFailed, "VerificationFailed"),
        (JobStatus::Failed, "Failed"),
    ];
    for (status, name) in all {
        assert_eq!(status.as_str(), name);
        assert_eq!(status.to_string(), name);
        assert_eq!(JobStatus::from_name(name), Some(status));
    }
    assert_eq!(JobStatus::from_name("created"), None);
    assert_eq!(JobStatus::from_name(""), None);
    assert_eq!(JobStatus::from_name("VerificationFailed(reason)"), None);
}

#[test]
fn job_type_names_round_trip() {
    let all = [
        (JobType::SnosRun, "SnosRun"),
        (JobType::DataSubmission, "DataSubmission"),
        (JobType::ProofCreation, "ProofCreation"),
        (JobType::ProofRegistration, "ProofRegistration"),
        (JobType::StateTransition, "StateTransition"),
    ];
    for (job_type, name) in all {
        assert_eq!(job_type.as_str(), name);
        assert_eq!(job_type.to_string(), name);
        assert_eq!(JobType::from_name(name), Some(job_type));
    }
    assert_eq!(JobType::from_name("Snos"), None);
}

#[test]
fn only_created_and_verification_failed_are_processable() {
    assert!(JobStatus::Created.is_processable());
    assert!(JobStatus::VerificationFailed.is_processable());
    assert!(!JobStatus::LockedForProcessing.is_processable());
    assert!(!JobStatus::PendingVerification.is_processable());
    assert!(!JobStatus::Completed.is_processable());
    assert!(!JobStatus::VerificationTimeout.is_processable());
    assert!(!JobStatus::Failed.is_processable());
}

#[test]
fn external_id_equality() {
    assert_eq!(ExternalId::String("0xbeef".to_string()), ExternalId::String("0xbeef".to_string()));
    assert_ne!(ExternalId::String("0xbeef".to_string()), ExternalId::String("0xbee".to_string()));
    assert_ne!(ExternalId::String("0".to_string()), ExternalId::Number(0));
    assert_eq!(ExternalId::Number(3), ExternalId::Number(3));
    assert_ne!(ExternalId::Number(3), ExternalId::Number(4));
    assert_eq!(ExternalId::Number(3).clone(), ExternalId::Number(3));
}

#[test]
fn verification_kind_drops_the_reason() {
    assert_eq!(JobVerificationStatus::Pending.get_kind(), VerificationKind::Pending);
    assert_eq!(JobVerificationStatus::Verified.get_kind(), VerificationKind::Verified);
    assert_eq!(
        JobVerificationStatus::Rejected("why".to_string()).get_kind(),
        VerificationKind::Rejected
    );
}

#[test]
fn job_item_equality_looks_at_every_field() {
    let base = JobItem {
        id: 1,
        internal_id: "1".to_string(),
        job_type: JobType::SnosRun,
        status: JobStatus::Created,
        external_id: ExternalId::Number(0),
        metadata: Metadata::new(),
        version: 0,
    };
    assert_eq!(base.clone(), base);
    let mut other = base.clone();
    other.id = 2;
    assert_ne!(other, base);
    let mut other = base.clone();
    other.internal_id = "2".to_string();
    assert_ne!(other, base);
    let mut other = base.clone();
    other.job_type = JobType::ProofCreation;
    assert_ne!(other, base);
    let mut other = base.clone();
    other.status = JobStatus::Failed;
    assert_ne!(other, base);
    let mut other = base.clone();
    other.external_id = ExternalId::Number(1);
    assert_ne!(other, base);
    let mut other = base.clone();
    other.metadata.insert("k".to_string(), "v".to_string());
    assert_ne!(other, base);
    let mut other = base.clone();
    other.version = 1;
    assert_ne!(other, base);
}

#[test]
fn error_messages() {
    assert_eq!(
        JobError::InvalidStateOnDeadLetter(JobStatus::Completed).message(),
        "Invalid state exists on DL queue: Completed"
    );
    assert_eq!(
        JobError::HandlerNotFound(JobType::SnosRun).message(),
        "Job type not implemented yet."
    );
    assert_eq!(
        JobError::StaleVersion.message(),
        "Failed to update job. Job version is likely outdated"
    );
    assert_eq!(
        JobError::HandlerError("boom".to_string()).message(),
        "Job handler failed: boom"
    );
    assert_eq!(
        JobError::InvalidState(JobStatus::Created).message(),
        "Invalid status for this operation: Created"
    );
    assert_eq!(JobError::HandlerError("a".to_string()), JobError::HandlerError("a".to_string()));
    assert_ne!(JobError::HandlerError("a".to_string()), JobError::HandlerError("b".to_string()));
    assert_ne!(JobError::NotFound, JobError::Duplicate);
    assert_eq!(JobError::BackendUnavailable.clone(), JobError::BackendUnavailable);
}
