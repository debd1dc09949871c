use lobby_sync::errors::VMErrors;
use lobby_sync::ids::{parse_u64, u64_to_dec};
use lobby_sync::lobby::{Collection, Collections, Lobby};
use lobby_sync::types::{Cube, CollectionData, Document, DocumentChanges, Splash, Vertex};

fn cube_doc(creator: &str) -> Document {
    Document {
        id: 0,
        creator: creator.to_string(),
        request_id: None,
        data: CollectionData::Cube(Cube {
            x: "1".to_string(),
            y: "2".to_string(),
            z: "3".to_string(),
            color: "red".to_string(),
            rot_x: "0".to_string(),
            rot_y: "0".to_string(),
            rot_z: "0".to_string(),
        }),
    }
}

fn splash_doc() -> Document {
    Document {
        id: 0,
        creator: "s".to_string(),
        request_id: Some("req-1".to_string()),
        data: CollectionData::Splash(Splash {
            x: "5".to_string(),
            y: "6".to_string(),
            seed: "42".to_string(),
        }),
    }
}

fn changes_x(v: &str) -> DocumentChanges {
    DocumentChanges { x: Some(v.to_string()), ..Default::default() }
}

fn get_doc<'a>(lobby: &'a Lobby, coll: &str, id: &str) -> &'a Document {
    let c = lobby
        .collections
        .entries
        .iter()
        .find(|(n, _)| n == coll)
        .map(|(_, c)| c)
        .expect("collection");
    &c.docs.iter().find(|(k, _)| k == id).expect("doc").1
}

#[test]
fn example_scenario() {
    // create into a fresh session -> id "1"; update x -> only x changes;
    // delete -> true; delete again -> false
    let mut lobby = Lobby::new("p1");
    let id = lobby.create_document("cubes", cube_doc("alice")).unwrap();
    assert_eq!(id, "1");

    lobby.update_document("cubes", "1", changes_x("9")).unwrap();
    let d = get_doc(&lobby, "cubes", "1");
    match &d.data {
        CollectionData::Cube(c) => {
            assert_eq!(c.x, "9");
            assert_eq!(c.y, "2");
            assert_eq!(c.z, "3");
            assert_eq!(c.color, "red");
        }
        _ => panic!("variant changed"),
    }

    assert_eq!(lobby.delete_document("cubes", "1").unwrap(), true);
    assert_eq!(lobby.delete_document("cubes", "1").unwrap(), false);
}

#[test]
fn sequential_ids_are_one_to_n() {
    let mut lobby = Lobby::new("p1");
    for n in 1..=5u64 {
        // payload content varies and must not matter
        let doc = if n % 2 == 0 { cube_doc(&format!("u{n}")) } else { splash_doc() };
        let id = lobby.create_document("things", doc).unwrap();
        assert_eq!(id, n.to_string());
    }
}

#[test]
fn ids_are_never_reused_after_delete() {
    let mut lobby = Lobby::new("p1");
    assert_eq!(lobby.create_document("cubes", cube_doc("a")).unwrap(), "1");
    assert_eq!(lobby.delete_document("cubes", "1").unwrap(), true);
    let second = lobby.create_document("cubes", cube_doc("b")).unwrap();
    assert_eq!(second, "2");
}

#[test]
fn create_assigns_id_onto_document() {
    let mut lobby = Lobby::new("p1");
    lobby.create_document("cubes", cube_doc("a")).unwrap();
    assert_eq!(get_doc(&lobby, "cubes", "1").id, 1);
    assert_eq!(get_doc(&lobby, "cubes", "1").creator, "a");
}

#[test]
fn create_marks_lobby_hot() {
    let mut lobby = Lobby::new("p1");
    assert!(!lobby.hot);
    lobby.create_document("cubes", cube_doc("a")).unwrap();
    assert!(lobby.hot);
}

#[test]
fn update_same_patch_twice_is_once() {
    let mut lobby = Lobby::new("p1");
    lobby.create_document("cubes", cube_doc("a")).unwrap();
    lobby.update_document("cubes", "1", changes_x("9")).unwrap();
    let after_once = format!("{:?}", get_doc(&lobby, "cubes", "1"));
    lobby.update_document("cubes", "1", changes_x("9")).unwrap();
    let after_twice = format!("{:?}", get_doc(&lobby, "cubes", "1"));
    assert_eq!(after_once, after_twice);
}

#[test]
fn update_ignores_irrelevant_fields() {
    // a vertex-only field sent against a cube is silently ignored
    let mut lobby = Lobby::new("p1");
    lobby.create_document("cubes", cube_doc("a")).unwrap();
    let ch = DocumentChanges {
        line_color: Some("blue".to_string()),
        seed: Some("7".to_string()),
        ..Default::default()
    };
    assert!(lobby.update_document("cubes", "1", ch).is_ok());
    match &get_doc(&lobby, "cubes", "1").data {
        CollectionData::Cube(c) => {
            assert_eq!(c.x, "1");
            assert_eq!(c.color, "red");
        }
        _ => panic!("variant changed"),
    }
}

#[test]
fn update_patches_vertex_fields() {
    let mut lobby = Lobby::new("p1");
    let doc = Document {
        id: 0,
        creator: "v".to_string(),
        request_id: None,
        data: CollectionData::Vertex(Vertex {
            x: "0".to_string(),
            y: "0".to_string(),
            z: "0".to_string(),
            line_color: "black".to_string(),
            vertex_color: "white".to_string(),
            camera_x: "10".to_string(),
            camera_y: "11".to_string(),
            camera_z: "12".to_string(),
        }),
    };
    lobby.create_document("vertices", doc).unwrap();
    let ch = DocumentChanges { camera_y: Some("99".to_string()), ..Default::default() };
    lobby.update_document("vertices", "1", ch).unwrap();
    match &get_doc(&lobby, "vertices", "1").data {
        CollectionData::Vertex(v) => {
            assert_eq!(v.camera_y, "99");
            assert_eq!(v.camera_x, "10");
            assert_eq!(v.camera_z, "12");
            assert_eq!(v.line_color, "black");
        }
        _ => panic!("variant changed"),
    }
}

#[test]
fn update_missing_collection_is_collection_not_found() {
    let mut lobby = Lobby::new("p1");
    let r = lobby.update_document("nope", "1", changes_x("9"));
    assert!(matches!(r, Err(VMErrors::CollectionNotFound(_))));
}

#[test]
fn update_missing_document_is_document_not_found() {
    let mut lobby = Lobby::new("p1");
    lobby.create_document("cubes", cube_doc("a")).unwrap();
    let r = lobby.update_document("cubes", "7", changes_x("9"));
    assert!(matches!(r, Err(VMErrors::DocumentNotFound(_))));
}

#[test]
fn delete_missing_collection_is_collection_not_found() {
    let mut lobby = Lobby::new("p1");
    let r = lobby.delete_document("nope", "1");
    assert!(matches!(r, Err(VMErrors::CollectionNotFound(_))));
}

#[test]
fn get_collection_missing_is_collection_not_found() {
    let lobby = Lobby::new("p1");
    assert!(matches!(lobby.get_collection("nope"), Err(VMErrors::CollectionNotFound(_))));
}

#[test]
fn get_full_state_is_a_deep_copy() {
    let mut lobby = Lobby::new("p1");
    lobby.create_document("cubes", cube_doc("a")).unwrap();
    let copy = lobby.get_full_state().unwrap();
    lobby.update_document("cubes", "1", changes_x("mutated")).unwrap();
    let copied_doc = &copy.entries[0].1.docs[0].1;
    match &copied_doc.data {
        CollectionData::Cube(c) => assert_eq!(c.x, "1"),
        _ => panic!("variant changed"),
    }
}

#[test]
fn create_tolerates_foreign_keys() {
    // keys that do not parse as integers weigh nothing; numeric ones set the
    // pace even when they were not assigned by us
    let mut lobby = Lobby::new("p1");
    lobby.collections = Collections {
        entries: vec![(
            "cubes".to_string(),
            Collection {
                last_id: 0,
                docs: vec![
                    ("zebra".to_string(), cube_doc("x")),
                    ("41".to_string(), cube_doc("y")),
                ],
            },
        )],
    };
    let id = lobby.create_document("cubes", cube_doc("z")).unwrap();
    assert_eq!(id, "42");
}

#[test]
fn create_spent_id_space_is_collection_update_error() {
    let mut lobby = Lobby::new("p1");
    lobby.collections = Collections {
        entries: vec![(
            "cubes".to_string(),
            Collection { last_id: u64::MAX, docs: vec![] },
        )],
    };
    let r = lobby.create_document("cubes", cube_doc("a"));
    assert!(matches!(r, Err(VMErrors::CollectionUpdateError(_))));
}

#[test]
fn parse_u64_accepts_decimals() {
    assert_eq!(parse_u64("0"), Some(0));
    assert_eq!(parse_u64("42"), Some(42));
    assert_eq!(parse_u64("007"), Some(7));
    assert_eq!(parse_u64("+5"), Some(5));
    assert_eq!(parse_u64("18446744073709551615"), Some(u64::MAX));
}

#[test]
fn parse_u64_rejects_junk_and_overflow() {
    assert_eq!(parse_u64(""), None);
    assert_eq!(parse_u64("+"), None);
    assert_eq!(parse_u64("abc"), None);
    assert_eq!(parse_u64("12a"), None);
    assert_eq!(parse_u64("-1"), None);
    assert_eq!(parse_u64("1 "), None);
    assert_eq!(parse_u64("18446744073709551616"), None);
}

#[test]
fn u64_to_dec_renders_decimals() {
    assert_eq!(u64_to_dec(0), "0");
    assert_eq!(u64_to_dec(7), "7");
    assert_eq!(u64_to_dec(1234567890), "1234567890");
    assert_eq!(u64_to_dec(u64::MAX), "18446744073709551615");
}

#[test]
fn error_kinds_name_every_variant() {
    assert_eq!(VMErrors::ProcessNotFound(String::new()).kind(), "process not found");
    assert_eq!(VMErrors::DocumentNotFound(String::new()).kind(), "document not found");
    assert_eq!(VMErrors::SerializationError(String::new()).kind(), "serialization error");
    assert_eq!(VMErrors::WebSocketError(String::new()).kind(), "websocket error");
    assert_eq!(VMErrors::CollectionUpdateError(String::new()).kind(), "collection update error");
    assert_eq!(VMErrors::InvalidDocumentNonce(String::new()).kind(), "invalid document nonce");
    assert_eq!(VMErrors::DuplicateRequest.kind(), "duplicate request");
    assert_eq!(VMErrors::CollectionNotFound(String::new()).kind(), "collection not found");
}
