use lounasbot::schedule::{DataJob, ScheduleError, ScheduleRegistry, StoredJob};
use lounasbot::store::{decode_stored_jobs, encode_stored_jobs, load_jobs, restore, restore_with_ids, save_text};

const WEEKDAYS_AT_SEVEN: &str = "0 0 7 * * mon,tue,wed,thu,fri";

fn stored(cron: &str, channel_id: u64) -> StoredJob {
    StoredJob { cron: cron.to_string(), channel_id }
}

fn pairs(v: &[StoredJob]) -> Vec<(String, u64)> {
    v.iter().map(|j| (j.cron.clone(), j.channel_id)).collect()
}

#[test]
fn add_rejects_bad_cron_and_changes_nothing() {
    let mut reg = ScheduleRegistry::new();
    assert_eq!(reg.add("not a cron".to_string(), 1).unwrap_err(), ScheduleError::InvalidCron);
    assert_eq!(reg.add("0 7 * * *".to_string(), 1).unwrap_err(), ScheduleError::InvalidCron);
    assert_eq!(reg.len(), 0);
    let job = reg.add(WEEKDAYS_AT_SEVEN.to_string(), 42).unwrap();
    assert_eq!(job.cron, WEEKDAYS_AT_SEVEN);
    assert_eq!(job.channel_id, 42);
    assert!(reg.contains(job.uuid));
    assert_eq!(reg.len(), 1);
}

#[test]
fn add_requires_exactly_six_fields() {
    let mut reg = ScheduleRegistry::new();
    assert_eq!(reg.add("0 0 7 * * * 2030".to_string(), 1).unwrap_err(), ScheduleError::InvalidCron);
    assert_eq!(reg.add("@daily".to_string(), 1).unwrap_err(), ScheduleError::InvalidCron);
    assert_eq!(reg.add("0 0 7 * * 8".to_string(), 1).unwrap_err(), ScheduleError::InvalidCron);
    assert!(reg.add(" 0  0 7 * * mon ".to_string(), 1).is_ok());
    assert_eq!(reg.len(), 1);
}

#[test]
fn restore_skips_a_record_whose_identifier_is_taken() {
    let persisted = vec![stored("0 0 7 * * *", 1), stored("0 0 8 * * *", 2), stored("0 0 9 * * *", 3)];
    let reg = restore_with_ids(&persisted, &vec![5, 5, 6]);
    let all = reg.list(None);
    assert_eq!(all.iter().map(|j| (j.uuid, j.channel_id)).collect::<Vec<_>>(), vec![(5, 1), (6, 3)]);
}

#[test]
fn restore_with_random_ids_keeps_every_valid_record() {
    let persisted = vec![stored("bad", 1), stored("0 0 8 * * *", 2)];
    let reg = restore(&persisted);
    assert_eq!(reg.len(), 1);
    assert_eq!(reg.list(None)[0].channel_id, 2);
}

#[test]
fn add_with_id_refuses_an_identifier_in_use() {
    let mut reg = ScheduleRegistry::new();
    reg.add_with_id(WEEKDAYS_AT_SEVEN.to_string(), 1, 7).unwrap();
    assert_eq!(reg.add_with_id("0 0 8 * * *".to_string(), 2, 7).unwrap_err(), ScheduleError::IdTaken);
    assert_eq!(reg.len(), 1);
}

#[test]
fn fresh_ids_are_distinct() {
    let mut reg = ScheduleRegistry::new();
    let a = reg.add(WEEKDAYS_AT_SEVEN.to_string(), 1).unwrap();
    let b = reg.add(WEEKDAYS_AT_SEVEN.to_string(), 1).unwrap();
    assert_ne!(a.uuid, b.uuid);
}

#[test]
fn list_filters_by_channel_in_insertion_order() {
    let mut reg = ScheduleRegistry::new();
    reg.add_with_id("0 0 7 * * *".to_string(), 1, 10).unwrap();
    reg.add_with_id("0 0 8 * * *".to_string(), 2, 11).unwrap();
    reg.add_with_id("0 0 9 * * *".to_string(), 1, 12).unwrap();
    let ids = |v: Vec<DataJob>| v.iter().map(|j| j.uuid).collect::<Vec<u128>>();
    assert_eq!(ids(reg.list(Some(1))), vec![10, 12]);
    assert_eq!(ids(reg.list(Some(2))), vec![11]);
    assert_eq!(ids(reg.list(Some(3))), Vec::<u128>::new());
    assert_eq!(ids(reg.list(None)), vec![10, 11, 12]);
}

#[test]
fn remove_unknown_id_is_not_found() {
    let mut reg = ScheduleRegistry::new();
    reg.add_with_id(WEEKDAYS_AT_SEVEN.to_string(), 1, 10).unwrap();
    assert_eq!(reg.remove(99), Err(ScheduleError::NotFound));
    assert_eq!(reg.len(), 1);
    assert_eq!(reg.remove(10), Ok(()));
    assert_eq!(reg.len(), 0);
    assert_eq!(reg.remove(10), Err(ScheduleError::NotFound));
}

#[test]
fn restore_keeps_valid_records_with_distinct_ids() {
    let persisted = vec![stored("0 0 7 * * *", 1), stored("0 30 11 * * mon-fri", 2), stored(WEEKDAYS_AT_SEVEN, 3)];
    let reg = restore_with_ids(&persisted, &vec![5, 6, 7]);
    assert_eq!(reg.len(), 3);
    let all = reg.list(None);
    assert_eq!(all.iter().map(|j| j.uuid).collect::<Vec<_>>(), vec![5, 6, 7]);
    let reg = restore(&persisted);
    assert_eq!(reg.len(), 3);
    let mut ids: Vec<u128> = reg.list(None).iter().map(|j| j.uuid).collect();
    ids.sort();
    ids.dedup();
    assert_eq!(ids.len(), 3);
}

#[test]
fn restore_drops_a_record_with_invalid_cron() {
    let persisted = vec![stored("0 0 7 * * *", 1), stored("every tuesday-ish", 2), stored(WEEKDAYS_AT_SEVEN, 3)];
    let reg = restore_with_ids(&persisted, &vec![5, 6, 7]);
    assert_eq!(reg.len(), 2);
    let all = reg.list(None);
    assert_eq!(all.iter().map(|j| (j.uuid, j.channel_id)).collect::<Vec<_>>(), vec![(5, 1), (7, 3)]);
    assert_eq!(restore(&persisted).len(), 2);
}

#[test]
fn add_save_load_remove_round_trip() {
    let mut reg = ScheduleRegistry::new();
    reg.add_with_id("0 0 8 * * *".to_string(), 5, 1).unwrap();
    let job = reg.add(WEEKDAYS_AT_SEVEN.to_string(), 123456789012345678).unwrap();
    let text = save_text(&reg.stored());
    let loaded = load_jobs(Some(text.as_bytes()));
    assert_eq!(pairs(&loaded), vec![("0 0 8 * * *".to_string(), 5), (WEEKDAYS_AT_SEVEN.to_string(), 123456789012345678)]);
    reg.remove(job.uuid).unwrap();
    let text = save_text(&reg.stored());
    let loaded = load_jobs(Some(text.as_bytes()));
    assert_eq!(pairs(&loaded), vec![("0 0 8 * * *".to_string(), 5)]);
}

#[test]
fn saved_text_is_a_json_array_of_records() {
    let text = save_text(&vec![stored(WEEKDAYS_AT_SEVEN, 123456789012345678)]);
    let v: serde_json::Value = serde_json::from_str(&text).unwrap();
    assert_eq!(v[0]["cron"], WEEKDAYS_AT_SEVEN);
    assert_eq!(v[0]["channel_id"].as_u64(), Some(123456789012345678));
    assert_eq!(save_text(&vec![]), "[]");
}

#[test]
fn load_tolerates_missing_or_bad_files() {
    assert!(load_jobs(None).is_empty());
    assert!(load_jobs(Some(b"garbage")).is_empty());
    assert!(load_jobs(Some(b"{}")).is_empty());
    assert!(load_jobs(Some(br#"[{"cron":"x","channel_id":-1}]"#)).is_empty());
    let ok = load_jobs(Some(br#"[ { "cron": "0 0 7 * * mon,tue,wed,thu,fri", "channel_id": 123456789012345678 } ]"#));
    assert_eq!(pairs(&ok), vec![(WEEKDAYS_AT_SEVEN.to_string(), 123456789012345678)]);
}

#[test]
fn encoded_records_decode_to_themselves() {
    let jobs = vec![stored("a", 0), stored("b", u64::MAX)];
    let back = decode_stored_jobs(&encode_stored_jobs(&jobs)).unwrap();
    assert_eq!(pairs(&back), pairs(&jobs));
}

#[test]
fn stored_records_match_live_job_count() {
    let mut reg = ScheduleRegistry::new();
    for i in 0..5u128 {
        reg.add_with_id(WEEKDAYS_AT_SEVEN.to_string(), i as u64, i).unwrap();
    }
    reg.remove(1).unwrap();
    reg.remove(3).unwrap();
    assert_eq!(reg.stored().len(), reg.len());
    assert_eq!(reg.len(), 3);
    let from = StoredJob::from(&reg.list(None)[0]);
    assert_eq!((from.cron.as_str(), from.channel_id), (WEEKDAYS_AT_SEVEN, 0));
}
