use snaprepl::machine::{Action, Event};
use snaprepl::metadata::RemoteMetadata;
use snaprepl::session::{plan_init_archive, plan_remote_repl};
use snaprepl::stamp::Timestamp;

fn stored(record: &RemoteMetadata) -> String {
    let mut fields = serde_json::Map::new();
    fields.insert(
        "precursor_snapshot".to_string(),
        serde_json::Value::String(record.precursor()),
    );
    serde_json::to_string(&serde_json::Value::Object(fields)).unwrap()
}

fn loaded(text: &str) -> RemoteMetadata {
    let value: serde_json::Value = serde_json::from_str(text).unwrap();
    RemoteMetadata::new(value["precursor_snapshot"].as_str().unwrap().to_string())
}

#[test]
fn record_survives_being_stored() {
    let record = RemoteMetadata::new("tank/home@remote_2022_05_22_12_11_24".to_string());
    let text = stored(&record);
    assert_eq!(text, r#"{"precursor_snapshot":"tank/home@remote_2022_05_22_12_11_24"}"#);
    let back = loaded(&text);
    assert_eq!(back.precursor(), "tank/home@remote_2022_05_22_12_11_24");
    assert_eq!(back.pool(), "tank/home");
}

#[test]
fn archived_base_is_the_next_precursor() {
    let first = Timestamp::new(2022, 5, 22, 12, 11, 24).unwrap();
    let mut archive = plan_init_archive("tank", "/tmp/tank.img", &Vec::new(), &first, false);
    for event in [
        Event::Begin,
        Event::SnapshotDone { ok: true },
        Event::ProducerStarted { ok: true },
        Event::ConsumerStarted { ok: true },
        Event::CopyDone { ok: true },
    ] {
        archive.step(event);
    }
    assert_eq!(archive.step(Event::ProducerExited { ok: true }), Action::Prune);
    let base = archive.base().unwrap();
    assert_eq!(base, "tank@remote_2022_05_22_12_11_24");

    let record = loaded(&stored(&RemoteMetadata::new(base.clone())));
    let later = Timestamp::new(2022, 5, 23, 12, 11, 24).unwrap();
    let local = vec![base.clone()];
    let next = plan_remote_repl(&record, &local, "backup@host", &later, false).unwrap();
    assert_eq!(next.precursor(), Some(base));
    assert_eq!(next.base(), Some("tank@remote_2022_05_23_12_11_24".to_string()));
}
