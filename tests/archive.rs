use straindb::archive::{
    archive_entry_name, fasta_file_path, ArchiveError, ArchiveEvent, ArchiveJob, ArchivePhase, ArchiveStep,
};
use straindb::model::StrainRequest;

fn request(ids: &[&str]) -> StrainRequest {
    StrainRequest { list: ids.iter().map(|s| s.to_string()).collect() }
}

#[test]
fn paths_of_a_record() {
    let id = "BTDB_2022-0001042.1".to_string();
    assert_eq!(fasta_file_path(&id), "fna/BTDB_2022-0001042.1.fna");
    assert_eq!(archive_entry_name(&id), "fastq/BTDB_2022-0001042.1.fasta");
}

#[test]
fn traversal_id_stays_in_store() {
    let p = fasta_file_path(&"../../etc/passwd".to_string());
    assert_eq!(p, "fna/....etcpasswd.fna");
    assert_eq!(p.matches('/').count(), 1);
    let p = fasta_file_path(&"..".to_string());
    assert_eq!(p, "fna/...fna");
}

#[test]
fn empty_request_is_refused() {
    assert!(matches!(ArchiveJob::new(&request(&[])), Err(ArchiveError::NoRecords)));
}

#[test]
fn second_file_missing_aborts() {
    let mut job = ArchiveJob::new(&request(&["A", "B"])).unwrap();
    assert_eq!(job.next_step(), ArchiveStep::Append("fna/A.fna".to_string(), "fastq/A.fasta".to_string()));
    job.on_event(ArchiveEvent::Appended);
    assert_eq!(job.next_step(), ArchiveStep::Append("fna/B.fna".to_string(), "fastq/B.fasta".to_string()));
    job.on_event(ArchiveEvent::Failed);
    assert_eq!(job.phase(), ArchivePhase::Aborted);
    assert_eq!(job.appended(), 1);
    assert_eq!(job.next_step(), ArchiveStep::Stop);
    job.on_event(ArchiveEvent::Appended);
    job.on_event(ArchiveEvent::Finalized);
    assert_eq!(job.phase(), ArchivePhase::Aborted);
    assert_eq!(job.next_step(), ArchiveStep::Stop);
}

#[test]
fn all_files_present_completes() {
    let mut job = ArchiveJob::new(&request(&["A", "B"])).unwrap();
    job.on_event(ArchiveEvent::Appended);
    job.on_event(ArchiveEvent::Appended);
    assert_eq!(job.phase(), ArchivePhase::Finalizing);
    assert_eq!(job.next_step(), ArchiveStep::Finalize);
    job.on_event(ArchiveEvent::Finalized);
    assert_eq!(job.phase(), ArchivePhase::Completed);
    assert_eq!(job.appended(), 2);
    assert_eq!(job.next_step(), ArchiveStep::Stop);
}

#[test]
fn trailer_failure_aborts() {
    let mut job = ArchiveJob::new(&request(&["A"])).unwrap();
    job.on_event(ArchiveEvent::Appended);
    job.on_event(ArchiveEvent::Failed);
    assert_eq!(job.phase(), ArchivePhase::Aborted);
}

#[test]
fn out_of_phase_event_changes_nothing() {
    let mut job = ArchiveJob::new(&request(&["A", "B"])).unwrap();
    job.on_event(ArchiveEvent::Finalized);
    assert_eq!(job.phase(), ArchivePhase::Streaming);
    assert_eq!(job.appended(), 0);
}
