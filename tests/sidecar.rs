use chrono::{DateTime, Utc};
use mdp::snapshot::{FileTime, Snapshot};

fn to_record(s: &Snapshot) -> Vec<(String, DateTime<Utc>)> {
    s.entries()
        .iter()
        .map(|(p, t)| (p.clone(), DateTime::<Utc>::from_timestamp(t.secs, t.nanos).unwrap()))
        .collect()
}

fn from_record(r: Vec<(String, DateTime<Utc>)>) -> Snapshot {
    Snapshot::from_entries(
        r.into_iter()
            .map(|(p, t)| (p, FileTime { secs: t.timestamp(), nanos: t.timestamp_subsec_nanos() }))
            .collect(),
    )
}

#[test]
fn snapshot_survives_serialization() {
    let s = Snapshot::from_entries(vec![
        (String::from("src/b.md"), FileTime { secs: 1_600_000_000, nanos: 123_456_789 }),
        (String::from("src/a.md"), FileTime { secs: 1_500_000_000, nanos: 0 }),
    ]);
    let text = serde_json::to_string_pretty(&to_record(&s)).unwrap();
    assert!(text.contains("2017-07-14T02:40:00Z"));
    assert!(text.find("src/a.md").unwrap() < text.find("src/b.md").unwrap());
    let back: Vec<(String, DateTime<Utc>)> = serde_json::from_str(&text).unwrap();
    assert!(from_record(back) == s);
}
