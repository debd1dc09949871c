use lobby_sync::errors::VMErrors;
use lobby_sync::json::lobby_snapshot_json;
use lobby_sync::lobby::Lobby;
use lobby_sync::messages::{Output, render_output};
use lobby_sync::registry::{DbOperation, Server};
use lobby_sync::types::{Cube, CollectionData, Document, DocumentChanges};
use tokio::sync::mpsc::{UnboundedReceiver, unbounded_channel};

fn cube_doc(x: &str, y: &str, z: &str) -> Document {
    Document {
        id: 0,
        creator: "alice".to_string(),
        request_id: None,
        data: CollectionData::Cube(Cube {
            x: x.to_string(),
            y: y.to_string(),
            z: z.to_string(),
            color: "red".to_string(),
            rot_x: "0".to_string(),
            rot_y: "0".to_string(),
            rot_z: "0".to_string(),
        }),
    }
}

fn changes_x(v: &str) -> DocumentChanges {
    DocumentChanges { x: Some(v.to_string()), ..Default::default() }
}

fn new_server() -> (Server, UnboundedReceiver<DbOperation>) {
    let (tx, rx) = unbounded_channel::<DbOperation>();
    (Server::new(tx), rx)
}

fn drain(rx: &mut UnboundedReceiver<String>) -> Vec<String> {
    let mut out = Vec::new();
    while let Ok(m) = rx.try_recv() {
        out.push(m);
    }
    out
}

#[test]
fn create_lobby_once_then_not_again() {
    let (mut server, mut db_rx) = new_server();
    assert_eq!(server.create_lobby("p1").unwrap(), true);
    assert_eq!(server.create_lobby("p1").unwrap(), false);
    // exactly one snapshot write was scheduled, for the new empty session
    let DbOperation::SaveProcessState { process_id, full_state, is_hot } =
        db_rx.try_recv().unwrap();
    assert_eq!(process_id, "p1");
    assert!(is_hot);
    let v: serde_json::Value = serde_json::from_str(&full_state).unwrap();
    assert_eq!(v["process_id"], "p1");
    assert_eq!(v["hot"], false);
    assert!(v["collections"].as_object().unwrap().is_empty());
    assert!(db_rx.try_recv().is_err());
}

#[test]
fn operations_on_cold_session_are_process_not_found() {
    let (mut server, _db_rx) = new_server();
    assert!(matches!(
        server.create_document("ghost", "cubes", cube_doc("1", "2", "3")),
        Err(VMErrors::ProcessNotFound(_))
    ));
    assert!(matches!(
        server.update_document("ghost", "cubes", "1", changes_x("9")),
        Err(VMErrors::ProcessNotFound(_))
    ));
    assert!(matches!(
        server.delete_document("ghost", "cubes", "1"),
        Err(VMErrors::ProcessNotFound(_))
    ));
    assert!(matches!(server.full_sync_message("ghost"), Err(VMErrors::ProcessNotFound(_))));
}

#[test]
fn broadcast_reaches_every_subscriber_byte_identical() {
    let (mut server, _db_rx) = new_server();
    server.create_lobby("p1").unwrap();
    let (tx1, mut rx1) = unbounded_channel::<String>();
    let (tx2, mut rx2) = unbounded_channel::<String>();
    let (tx3, mut rx3) = unbounded_channel::<String>();
    server.add_subscriber("p1", tx1);
    server.add_subscriber("p1", tx2);
    server.add_subscriber("p1", tx3);

    let id = server.create_document("p1", "cubes", cube_doc("1", "2", "3")).unwrap();
    assert_eq!(id, "1");

    let m1 = drain(&mut rx1);
    let m2 = drain(&mut rx2);
    let m3 = drain(&mut rx3);
    assert_eq!(m1.len(), 1);
    assert_eq!(m1, m2);
    assert_eq!(m1, m3);
    let v: serde_json::Value = serde_json::from_str(&m1[0]).unwrap();
    assert_eq!(v["DocumentCreated"]["process_id"], "p1");
    assert_eq!(v["DocumentCreated"]["collection_name"], "cubes");
    assert_eq!(v["DocumentCreated"]["doc_id"], "1");
    assert_eq!(v["DocumentCreated"]["document"]["_id"], 1);
    assert_eq!(v["DocumentCreated"]["document"]["type"], "cubes");
    assert_eq!(v["DocumentCreated"]["document"]["x"], "1");
}

#[test]
fn a_closed_sink_does_not_abort_delivery_to_the_rest() {
    let (mut server, _db_rx) = new_server();
    server.create_lobby("p1").unwrap();
    let (tx_dead, rx_dead) = unbounded_channel::<String>();
    let (tx_live, mut rx_live) = unbounded_channel::<String>();
    server.add_subscriber("p1", tx_dead);
    server.add_subscriber("p1", tx_live);
    drop(rx_dead);

    server.create_document("p1", "cubes", cube_doc("1", "2", "3")).unwrap();
    assert_eq!(drain(&mut rx_live).len(), 1);
}

#[test]
fn delete_broadcasts_once_and_only_when_something_was_removed() {
    let (mut server, _db_rx) = new_server();
    server.create_lobby("p1").unwrap();
    let (tx, mut rx) = unbounded_channel::<String>();
    server.add_subscriber("p1", tx);

    server.create_document("p1", "cubes", cube_doc("1", "2", "3")).unwrap();
    assert!(server.delete_document("p1", "cubes", "1").is_ok());
    let second = server.delete_document("p1", "cubes", "1");
    assert!(matches!(second, Err(VMErrors::DocumentNotFound(_))));

    let msgs = drain(&mut rx);
    // one Created, one Deleted, and nothing for the failed second delete
    assert_eq!(msgs.len(), 2);
    let v: serde_json::Value = serde_json::from_str(&msgs[1]).unwrap();
    assert_eq!(v["DocumentDeleted"]["doc_id"], "1");
}

#[test]
fn failed_update_broadcasts_nothing() {
    let (mut server, _db_rx) = new_server();
    server.create_lobby("p1").unwrap();
    let (tx, mut rx) = unbounded_channel::<String>();
    server.add_subscriber("p1", tx);
    assert!(server.update_document("p1", "cubes", "1", changes_x("9")).is_err());
    assert!(drain(&mut rx).is_empty());
}

#[test]
fn update_broadcasts_only_the_changes() {
    let (mut server, _db_rx) = new_server();
    server.create_lobby("p1").unwrap();
    server.create_document("p1", "cubes", cube_doc("1", "2", "3")).unwrap();
    let (tx, mut rx) = unbounded_channel::<String>();
    server.add_subscriber("p1", tx);
    server.update_document("p1", "cubes", "1", changes_x("9")).unwrap();
    let msgs = drain(&mut rx);
    assert_eq!(msgs.len(), 1);
    let v: serde_json::Value = serde_json::from_str(&msgs[0]).unwrap();
    assert_eq!(v["DocumentUpdated"]["changes"]["x"], "9");
    assert_eq!(v["DocumentUpdated"]["changes"]["y"], serde_json::Value::Null);
}

#[test]
fn mutations_keep_sessions_isolated() {
    let (mut server, _db_rx) = new_server();
    server.create_lobby("p1").unwrap();
    server.create_lobby("p2").unwrap();
    let (tx2, mut rx2) = unbounded_channel::<String>();
    server.add_subscriber("p2", tx2);
    server.create_document("p1", "cubes", cube_doc("1", "2", "3")).unwrap();
    // a mutation in p1 is not broadcast to p2's subscribers
    assert!(drain(&mut rx2).is_empty());
    // and p2's id space is untouched
    assert_eq!(server.create_document("p2", "cubes", cube_doc("9", "9", "9")).unwrap(), "1");
}

#[test]
fn full_sync_matches_current_state_after_mutations() {
    let (mut server, _db_rx) = new_server();
    server.create_lobby("p1").unwrap();
    server.create_document("p1", "cubes", cube_doc("1", "2", "3")).unwrap();
    server.create_document("p1", "cubes", cube_doc("4", "5", "6")).unwrap();
    server.update_document("p1", "cubes", "1", changes_x("9")).unwrap();
    server.delete_document("p1", "cubes", "2").unwrap();

    let msg = server.full_sync_message("p1").unwrap();
    let v: serde_json::Value = serde_json::from_str(&msg).unwrap();
    let cubes = v["FullSync"]["collections"]["cubes"].as_object().unwrap();
    assert_eq!(cubes.len(), 1);
    assert_eq!(cubes["1"]["x"], "9");
    assert_eq!(cubes["1"]["y"], "2");
    assert_eq!(v["FullSync"]["process_id"], "p1");
}

#[test]
fn every_mutation_schedules_a_snapshot_write() {
    let (mut server, mut db_rx) = new_server();
    server.create_lobby("p1").unwrap();
    let _ = db_rx.try_recv().unwrap();
    server.create_document("p1", "cubes", cube_doc("1", "2", "3")).unwrap();
    server.update_document("p1", "cubes", "1", changes_x("9")).unwrap();
    server.delete_document("p1", "cubes", "1").unwrap();
    let mut snaps = Vec::new();
    while let Ok(op) = db_rx.try_recv() {
        snaps.push(op);
    }
    assert_eq!(snaps.len(), 3);
    let DbOperation::SaveProcessState { full_state, .. } = &snaps[2];
    let v: serde_json::Value = serde_json::from_str(full_state).unwrap();
    // the deleted document is gone from the snapshot, the id high-water mark
    // is kept so the id is never reassigned
    assert!(v["collections"]["cubes"]["docs"].as_object().unwrap().is_empty());
    assert_eq!(v["collections"]["cubes"]["last_id"], 1);
    assert_eq!(v["hot"], true);
}

#[test]
fn install_lobby_makes_a_session_hot_once() {
    let (mut server, _db_rx) = new_server();
    let mut lobby = Lobby::new("p9");
    lobby.create_document("cubes", cube_doc("1", "2", "3")).unwrap();
    assert!(!server.has_lobby("p9"));
    assert!(server.install_lobby(lobby));
    assert!(server.has_lobby("p9"));
    let again = Lobby::new("p9");
    assert!(!server.install_lobby(again));
    // the installed state, not the late one, is what the session holds
    let l = server.get_lobby("p9").unwrap();
    assert_eq!(l.collections.entries.len(), 1);
}

#[test]
fn snapshot_and_event_encodings_escape_strings() {
    let mut lobby = Lobby::new("p\"quote\\and\nnewline");
    lobby
        .create_document(
            "cu\"bes",
            Document {
                id: 0,
                creator: "a\tb\u{1}".to_string(),
                request_id: Some("r\\1".to_string()),
                data: CollectionData::Cube(Cube {
                    x: "x\"v".to_string(),
                    y: String::new(),
                    z: "ζ—unicode".to_string(),
                    color: "red".to_string(),
                    rot_x: "0".to_string(),
                    rot_y: "0".to_string(),
                    rot_z: "0".to_string(),
                }),
            },
        )
        .unwrap();
    let snap = lobby_snapshot_json(&lobby);
    let v: serde_json::Value = serde_json::from_str(&snap).unwrap();
    assert_eq!(v["process_id"], "p\"quote\\and\nnewline");
    let doc = &v["collections"]["cu\"bes"]["docs"]["1"];
    assert_eq!(doc["_creator"], "a\tb\u{1}");
    assert_eq!(doc["request_id"], "r\\1");
    assert_eq!(doc["x"], "x\"v");
    assert_eq!(doc["y"], "");
    assert_eq!(doc["z"], "ζ—unicode");

    let event = Output::Error { message: "boom\r\n\"quoted\"".to_string() };
    let rendered = render_output(&event);
    let ev: serde_json::Value = serde_json::from_str(&rendered).unwrap();
    assert_eq!(ev["Error"]["message"], "boom\r\n\"quoted\"");
}

#[test]
fn rendering_an_event_is_deterministic() {
    let event = Output::DocumentDeleted {
        process_id: "p1".to_string(),
        collection_name: "cubes".to_string(),
        doc_id: "1".to_string(),
    };
    let again = Output::DocumentDeleted {
        process_id: "p1".to_string(),
        collection_name: "cubes".to_string(),
        doc_id: "1".to_string(),
    };
    assert_eq!(render_output(&event), render_output(&again));
    assert_eq!(
        render_output(&event),
        "{\"DocumentDeleted\":{\"process_id\":\"p1\",\"collection_name\":\"cubes\",\"doc_id\":\"1\"}}"
    );
}
