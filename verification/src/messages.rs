//! The wire protocol: inbound requests, outbound events, and the exact
//! serialized form of every outbound event. The registry serializes each
//! event once; the gateway only forwards the bytes.
use vstd::prelude::*;

use crate::ids::chars_to_string;
use crate::json::{
    json_changes, json_collections_sync, json_document, json_string, push_changes,
    push_collections_sync, push_document, push_json_str, push_raw,
};
use crate::lobby::{CollectionV, Collections};
use crate::types::{Document, DocumentChanges, DocumentChangesV, DocumentV};

verus! {

/// What a client can ask for.
pub enum Input {
    JoinProcess { process_id: String },
    CreateDocument { collection_name: String, document: Document },
    UpdateDocument { collection_name: String, doc_id: String, changes: DocumentChanges },
    DeleteDocument { collection_name: String, doc_id: String },
}

/// What the server tells its clients.
pub enum Output {
    FullSync { process_id: String, collections: Collections },
    DocumentCreated {
        process_id: String,
        collection_name: String,
        doc_id: String,
        document: Document,
    },
    DocumentUpdated {
        process_id: String,
        collection_name: String,
        doc_id: String,
        changes: DocumentChanges,
    },
    DocumentDeleted { process_id: String, collection_name: String, doc_id: String },
    Error { message: String },
}

/// The view of an `Output`.
#[verifier::ext_equal]
pub enum OutputV {
    FullSync { process_id: Seq<char>, collections: Seq<(Seq<char>, CollectionV)> },
    DocumentCreated {
        process_id: Seq<char>,
        collection_name: Seq<char>,
        doc_id: Seq<char>,
        document: DocumentV,
    },
    DocumentUpdated {
        process_id: Seq<char>,
        collection_name: Seq<char>,
        doc_id: Seq<char>,
        changes: DocumentChangesV,
    },
    DocumentDeleted { process_id: Seq<char>, collection_name: Seq<char>, doc_id: Seq<char> },
    Error { message: Seq<char> },
}

impl View for Output {
    type V = OutputV;

    open spec fn view(&self) -> OutputV {
        match self {
            Output::FullSync { process_id, collections } => OutputV::FullSync {
                process_id: process_id@,
                collections: collections@,
            },
            Output::DocumentCreated { process_id, collection_name, doc_id, document } => {
                OutputV::DocumentCreated {
                    process_id: process_id@,
                    collection_name: collection_name@,
                    doc_id: doc_id@,
                    document: document@,
                }
            },
            Output::DocumentUpdated { process_id, collection_name, doc_id, changes } => {
                OutputV::DocumentUpdated {
                    process_id: process_id@,
                    collection_name: collection_name@,
                    doc_id: doc_id@,
                    changes: changes@,
                }
            },
            Output::DocumentDeleted { process_id, collection_name, doc_id } => {
                OutputV::DocumentDeleted {
                    process_id: process_id@,
                    collection_name: collection_name@,
                    doc_id: doc_id@,
                }
            },
            Output::Error { message } => OutputV::Error { message: message@ },
        }
    }
}

/// The serialized form of an outbound event: an object with the variant's
/// name as its single key.
pub open spec fn json_output(o: OutputV) -> Seq<char> {
    match o {
        OutputV::FullSync { process_id, collections } => "{\"FullSync\":{\"process_id\":"@
            + json_string(process_id) + ",\"collections\":"@ + json_collections_sync(collections)
            + "}}"@,
        OutputV::DocumentCreated { process_id, collection_name, doc_id, document } => {
            "{\"DocumentCreated\":{\"process_id\":"@ + json_string(process_id)
                + ",\"collection_name\":"@ + json_string(collection_name) + ",\"doc_id\":"@
                + json_string(doc_id) + ",\"document\":"@ + json_document(document) + "}}"@
        },
        OutputV::DocumentUpdated { process_id, collection_name, doc_id, changes } => {
            "{\"DocumentUpdated\":{\"process_id\":"@ + json_string(process_id)
                + ",\"collection_name\":"@ + json_string(collection_name) + ",\"doc_id\":"@
                + json_string(doc_id) + ",\"changes\":"@ + json_changes(changes) + "}}"@
        },
        OutputV::DocumentDeleted { process_id, collection_name, doc_id } => {
            "{\"DocumentDeleted\":{\"process_id\":"@ + json_string(process_id)
                + ",\"collection_name\":"@ + json_string(collection_name) + ",\"doc_id\":"@
                + json_string(doc_id) + "}}"@
        },
        OutputV::Error { message } => "{\"Error\":{\"message\":"@ + json_string(message) + "}}"@,
    }
}

/// Serializes an outbound event, per `json_output`. Equal events always
/// yield the same characters: the encoding is a function of the event alone.
#[verifier::rlimit(100)]
pub fn render_output(o: &Output) -> (r: String)
    ensures
        r@ == json_output(o@),
{
    let mut out: Vec<char> = Vec::new();
    match o {
        Output::FullSync { process_id, collections } => {
            push_raw(&mut out, "{\"FullSync\":{\"process_id\":");
            push_json_str(&mut out, process_id.as_str());
            push_raw(&mut out, ",\"collections\":");
            push_collections_sync(&mut out, collections);
            push_raw(&mut out, "}}");
        },
        Output::DocumentCreated { process_id, collection_name, doc_id, document } => {
            push_raw(&mut out, "{\"DocumentCreated\":{\"process_id\":");
            push_json_str(&mut out, process_id.as_str());
            push_raw(&mut out, ",\"collection_name\":");
            push_json_str(&mut out, collection_name.as_str());
            push_raw(&mut out, ",\"doc_id\":");
            push_json_str(&mut out, doc_id.as_str());
            push_raw(&mut out, ",\"document\":");
            push_document(&mut out, document);
            push_raw(&mut out, "}}");
        },
        Output::DocumentUpdated { process_id, collection_name, doc_id, changes } => {
            push_raw(&mut out, "{\"DocumentUpdated\":{\"process_id\":");
            push_json_str(&mut out, process_id.as_str());
            push_raw(&mut out, ",\"collection_name\":");
            push_json_str(&mut out, collection_name.as_str());
            push_raw(&mut out, ",\"doc_id\":");
            push_json_str(&mut out, doc_id.as_str());
            push_raw(&mut out, ",\"changes\":");
            push_changes(&mut out, changes);
            push_raw(&mut out, "}}");
        },
        Output::DocumentDeleted { process_id, collection_name, doc_id } => {
            push_raw(&mut out, "{\"DocumentDeleted\":{\"process_id\":");
            push_json_str(&mut out, process_id.as_str());
            push_raw(&mut out, ",\"collection_name\":");
            push_json_str(&mut out, collection_name.as_str());
            push_raw(&mut out, ",\"doc_id\":");
            push_json_str(&mut out, doc_id.as_str());
            push_raw(&mut out, "}}");
        },
        Output::Error { message } => {
            push_raw(&mut out, "{\"Error\":{\"message\":");
            push_json_str(&mut out, message.as_str());
            push_raw(&mut out, "}}");
        },
    }
    proof {
        assert(out@ =~= json_output(o@));
    }
    chars_to_string(&out)
}

} // verus!
