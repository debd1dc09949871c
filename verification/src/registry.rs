//! The session registry: owns the hot session cache and the subscriber
//! lists, orchestrates document operations, serializes and fans out events,
//! and enqueues a full snapshot to the write-behind persistence queue after
//! every mutation. All entry points run under one exclusive borrow, so no
//! two transitions interleave. The cold path (loading a snapshot from the
//! store) is the caller's: a missing session is reported as an error here
//! and installed through `install_lobby` or `create_lobby`.
use vstd::prelude::*;

use crate::assoc::{assoc_find, has_key, key_at, lemma_key_at_unique, uniq_keys, val_at};
use crate::errors::VMErrors;
use crate::ids::{dec_str, lemma_key_u64_of_dec_str, parse_u64};
use crate::json::lobby_snapshot_json;
use crate::lobby::{
    CollectionV, Lobby, LobbyV, next_base, set_collection, target_collection,
};
use crate::messages::{Output, OutputV, render_output};
use crate::types::{Document, DocumentChanges, DocumentV};
use tokio::sync::mpsc::UnboundedSender;
use tokio::sync::mpsc::error::SendError;

verus! {

/// The error tokio's unbounded send returns when the receive half is gone.
#[verifier::external_type_specification]
#[verifier::external_body]
#[verifier::reject_recursive_types(T)]
pub struct ExSendError<T>(SendError<T>);

/// A subscriber's sink: the sending half of that client's private outbound
/// channel; the gateway forwards what arrives on it to the client's socket.
#[verifier::external_type_specification]
#[verifier::external_body]
#[verifier::reject_recursive_types(T)]
pub struct ExUnboundedSender<T>(UnboundedSender<T>);

/// Relies on tokio's `UnboundedSender::send`: it never blocks, and it fails
/// exactly when the receive half of the channel is closed, handing the
/// message back. Nothing can be promised about the receiver's state, so no
/// more is stated.
pub assume_specification<T>[ UnboundedSender::<T>::send ](
    s: &UnboundedSender<T>,
    message: T,
) -> Result<(), SendError<T>>;

/// A subscriber of one session.
pub type Subscriber = UnboundedSender<String>;

/// A write request for the persistence worker: the whole serialized session,
/// keyed by its id, with the hot flag.
pub enum DbOperation {
    SaveProcessState { process_id: String, full_state: String, is_hot: bool },
}

/// The view of the subscriber lists: the sinks registered per session, in
/// registration order.
pub open spec fn subs_view(v: Seq<(String, Vec<Subscriber>)>) -> Seq<(Seq<char>, Seq<Subscriber>)> {
    Seq::new(v.len(), |i: int| (v[i].0@, v[i].1@))
}

/// The view of the session cache.
pub open spec fn lobbies_view(v: Seq<(String, Lobby)>) -> Seq<(Seq<char>, LobbyV)> {
    Seq::new(v.len(), |i: int| (v[i].0@, v[i].1@))
}

/// The registry: the hot session cache, the per-session subscriber lists,
/// and the sending half of the persistence queue.
pub struct Server {
    pub lobbies: Vec<(String, Lobby)>,
    pub subscribers: Vec<(String, Vec<Subscriber>)>,
    pub db_sender: UnboundedSender<DbOperation>,
}

/// The view of a `Server`.
#[verifier::ext_equal]
pub struct ServerV {
    pub lobbies: Seq<(Seq<char>, LobbyV)>,
    pub subscribers: Seq<(Seq<char>, Seq<Subscriber>)>,
}

impl View for Server {
    type V = ServerV;

    open spec fn view(&self) -> ServerV {
        ServerV { lobbies: lobbies_view(self.lobbies@), subscribers: subs_view(self.subscribers@) }
    }
}

impl Server {
    /// Session ids are unique on both lists, every cached session is well
    /// formed, and each is cached under its own id.
    pub open spec fn wf(&self) -> bool {
        &&& uniq_keys(self@.lobbies)
        &&& uniq_keys(self@.subscribers)
        &&& forall|i: int| 0 <= i < self.lobbies@.len() ==> (#[trigger] self.lobbies@[i]).1.wf()
        &&& forall|i: int|
            0 <= i < self.lobbies@.len() ==> (#[trigger] self.lobbies@[i]).1.process_id@
                == self.lobbies@[i].0@
    }

    /// A fresh registry around the sending half of a persistence queue.
    pub fn new(db_sender: UnboundedSender<DbOperation>) -> (r: Server)
        ensures
            r.wf(),
            r@.lobbies == Seq::<(Seq<char>, LobbyV)>::empty(),
            r@.subscribers == Seq::<(Seq<char>, Seq<Subscriber>)>::empty(),
    {
        let r = Server { lobbies: Vec::new(), subscribers: Vec::new(), db_sender };
        proof {
            assert(r@.lobbies =~= Seq::<(Seq<char>, LobbyV)>::empty());
            assert(r@.subscribers =~= Seq::<(Seq<char>, Seq<Subscriber>)>::empty());
        }
        r
    }

    /// Appends a sink to the session's fanout list. The list is unbounded;
    /// removal on disconnect is the gateway's responsibility, never inferred
    /// here.
    pub fn add_subscriber(&mut self, pid: &str, sub: Subscriber)
        requires
            old(self).wf(),
        ensures
            final(self).wf(),
            final(self)@.lobbies == old(self)@.lobbies,
            ({
                let olds = old(self)@.subscribers;
                if has_key(olds, pid@) {
                    final(self)@.subscribers == olds.update(
                        key_at(olds, pid@),
                        (pid@, olds[key_at(olds, pid@)].1.push(sub)),
                    )
                } else {
                    final(self)@.subscribers == olds.push((pid@, seq![sub]))
                }
            }),
    {
        let name = pid.to_owned();
        let ghost olds = self@.subscribers;
        match assoc_find(&self.subscribers, &name) {
            Some(i) => {
                proof {
                    lemma_key_at_unique(olds, pid@, i as int);
                }
                self.subscribers[i].1.push(sub);
                proof {
                    assert(self@.subscribers =~~= olds.update(
                        i as int,
                        (pid@, olds[i as int].1.push(sub)),
                    ));
                    assert(self@.lobbies =~= old(self)@.lobbies);
                }
            },
            None => {
                proof {
                    assert(forall|j: int|
                        0 <= j < olds.len() ==> (#[trigger] olds[j]).0 != pid@);
                }
                let mut sinks: Vec<Subscriber> = Vec::new();
                sinks.push(sub);
                self.subscribers.push((name, sinks));
                proof {
                    assert(self@.subscribers =~~= olds.push((pid@, seq![sub])));
                    assert(self@.lobbies =~= old(self)@.lobbies);
                }
            },
        }
    }

    /// The cached session, when it is hot; `ProcessNotFound` when it is not
    /// in memory (the caller then loads or creates it).
    pub fn get_lobby(&self, pid: &str) -> (r: Result<&Lobby, VMErrors>)
        requires
            self.wf(),
        ensures
            has_key(self@.lobbies, pid@) ==> (r matches Ok(l) && l@ == val_at(
                self@.lobbies,
                pid@,
            )),
            !has_key(self@.lobbies, pid@) ==> (r matches Err(VMErrors::ProcessNotFound(_))),
    {
        let name = pid.to_owned();
        match assoc_find(&self.lobbies, &name) {
            Some(i) => {
                proof {
                    lemma_key_at_unique(self@.lobbies, pid@, i as int);
                }
                Ok(&self.lobbies[i].1)
            },
            None => {
                proof {
                    assert(forall|j: int|
                        0 <= j < self@.lobbies.len() ==> (#[trigger] self@.lobbies[j]).0 != pid@);
                }
                Err(VMErrors::ProcessNotFound(name))
            },
        }
    }

    /// Whether the session is hot.
    pub fn has_lobby(&self, pid: &str) -> (r: bool)
        ensures
            r == has_key(self@.lobbies, pid@),
    {
        let name = pid.to_owned();
        match assoc_find(&self.lobbies, &name) {
            Some(i) => {
                proof {
                    assert(self@.lobbies[i as int].0 == pid@);
                    assert(has_key(self@.lobbies, pid@));
                }
                true
            },
            None => {
                proof {
                    assert(forall|j: int|
                        0 <= j < self@.lobbies.len() ==> (#[trigger] self@.lobbies[j]).0 != pid@);
                }
                false
            },
        }
    }

    /// Installs a session deserialized from a persisted snapshot, making it
    /// hot. Nothing changes when the id is already cached.
    pub fn install_lobby(&mut self, lobby: Lobby) -> (r: bool)
        requires
            old(self).wf(),
            lobby.wf(),
        ensures
            final(self).wf(),
            final(self)@.subscribers == old(self)@.subscribers,
            ({
                if has_key(old(self)@.lobbies, lobby.process_id@) {
                    &&& r == false
                    &&& *final(self) == *old(self)
                } else {
                    &&& r == true
                    &&& final(self)@.lobbies == old(self)@.lobbies.push(
                        (lobby.process_id@, lobby@),
                    )
                }
            }),
    {
        let ghost oldl = self@.lobbies;
        match assoc_find(&self.lobbies, &lobby.process_id) {
            Some(i) => {
                proof {
                    lemma_key_at_unique(oldl, lobby.process_id@, i as int);
                }
                false
            },
            None => {
                proof {
                    assert(forall|j: int|
                        0 <= j < oldl.len() ==> (#[trigger] oldl[j]).0 != lobby.process_id@);
                }
                let key = lobby.process_id.clone();
                self.lobbies.push((key, lobby));
                proof {
                    assert(self@.lobbies =~= oldl.push((lobby.process_id@, lobby@)));
                    assert(self@.subscribers =~= old(self)@.subscribers);
                }
                true
            },
        }
    }

    /// Creates an empty session when the id is unseen and schedules its
    /// first snapshot write; answers whether a session was created.
    pub fn create_lobby(&mut self, pid: &str) -> (r: Result<bool, VMErrors>)
        requires
            old(self).wf(),
        ensures
            final(self).wf(),
            final(self)@.subscribers == old(self)@.subscribers,
            ({
                if has_key(old(self)@.lobbies, pid@) {
                    &&& r matches Ok(b) && b == false
                    &&& *final(self) == *old(self)
                } else {
                    &&& r matches Ok(b) && b == true
                    &&& final(self)@.lobbies == old(self)@.lobbies.push(
                        (
                            pid@,
                            LobbyV {
                                process_id: pid@,
                                collections: Seq::empty(),
                                processed_txs: Seq::empty(),
                                hot: false,
                            },
                        ),
                    )
                }
            }),
    {
        let ghost oldl = self@.lobbies;
        let name = pid.to_owned();
        match assoc_find(&self.lobbies, &name) {
            Some(i) => {
                proof {
                    lemma_key_at_unique(oldl, pid@, i as int);
                }
                Ok(false)
            },
            None => {
                proof {
                    assert(forall|j: int|
                        0 <= j < oldl.len() ==> (#[trigger] oldl[j]).0 != pid@);
                }
                let lobby = Lobby::new(pid);
                let snapshot = lobby_snapshot_json(&lobby);
                self.lobbies.push((name, lobby));
                let _ = self.db_sender.send(
                    DbOperation::SaveProcessState {
                        process_id: pid.to_owned(),
                        full_state: snapshot,
                        is_hot: true,
                    },
                );
                proof {
                    assert(self@.lobbies =~= oldl.push(
                        (
                            pid@,
                            LobbyV {
                                process_id: pid@,
                                collections: Seq::empty(),
                                processed_txs: Seq::empty(),
                                hot: false,
                            },
                        ),
                    ));
                    assert(self@.subscribers =~= old(self)@.subscribers);
                }
                Ok(true)
            },
        }
    }

    /// Serializes the event once and hands the same characters to every
    /// subscriber of the session. A failed send (a closed sink) is skipped,
    /// never aborting delivery to the rest and never removing the sink.
    pub fn broadcast_to_lobby(&self, pid: &str, message: &Output) -> (r: Result<(), VMErrors>)
        ensures
            r matches Ok(u) && u == (),
    {
        let name = pid.to_owned();
        match assoc_find(&self.subscribers, &name) {
            Some(i) => {
                let msg = render_output(message);
                let sinks = &self.subscribers[i].1;
                let mut j: usize = 0;
                while j < sinks.len()
                    decreases sinks@.len() - j,
                {
                    let _ = sinks[j].send(msg.clone());
                    j += 1;
                }
            },
            None => {},
        }
        Ok(())
    }

    /// The full-sync event for a newly joined client: the session's current
    /// collections, serialized; its first message, reflecting every prior
    /// mutation. `ProcessNotFound` when the session is not hot.
    pub fn full_sync_message(&self, pid: &str) -> (r: Result<String, VMErrors>)
        requires
            self.wf(),
        ensures
            has_key(self@.lobbies, pid@) ==> (r matches Ok(m) && m@ == crate::messages::json_output(
                OutputV::FullSync {
                    process_id: pid@,
                    collections: val_at(self@.lobbies, pid@).collections,
                },
            )),
            !has_key(self@.lobbies, pid@) ==> (r matches Err(VMErrors::ProcessNotFound(_))),
    {
        let name = pid.to_owned();
        match assoc_find(&self.lobbies, &name) {
            Some(i) => {
                proof {
                    lemma_key_at_unique(self@.lobbies, pid@, i as int);
                }
                let collections = match self.lobbies[i].1.get_full_state() {
                    Ok(c) => c,
                    Err(e) => {
                        return Err(e);
                    },
                };
                let event = Output::FullSync { process_id: pid.to_owned(), collections };
                Ok(render_output(&event))
            },
            None => {
                proof {
                    assert(forall|j: int|
                        0 <= j < self@.lobbies.len() ==> (#[trigger] self@.lobbies[j]).0 != pid@);
                }
                Err(VMErrors::ProcessNotFound(name))
            },
        }
    }

    /// Enqueues a snapshot write for the hot session at `i`: fire and
    /// forget, the request path never waits for durability.
    fn enqueue_snapshot(&self, i: usize)
        requires
            i < self.lobbies@.len(),
    {
        let snapshot = lobby_snapshot_json(&self.lobbies[i].1);
        let _ = self.db_sender.send(
            DbOperation::SaveProcessState {
                process_id: self.lobbies[i].0.clone(),
                full_state: snapshot,
                is_hot: true,
            },
        );
    }

    /// Creates a document in the hot session: assigns the id, broadcasts a
    /// `DocumentCreated` event carrying the stored document, enqueues a
    /// snapshot write, and returns the assigned id.
    pub fn create_document(
        &mut self,
        pid: &str,
        collection_name: &str,
        document: Document,
    ) -> (r: Result<String, VMErrors>)
        requires
            old(self).wf(),
        ensures
            final(self).wf(),
            ({
                let oldl = old(self)@.lobbies;
                if !has_key(oldl, pid@) {
                    &&& r matches Err(VMErrors::ProcessNotFound(_))
                    &&& *final(self) == *old(self)
                } else {
                    let lv = val_at(oldl, pid@);
                    let cv = target_collection(lv.collections, collection_name@);
                    let nb = next_base(cv);
                    if nb >= u64::MAX as int {
                        &&& r matches Err(VMErrors::CollectionUpdateError(_))
                        &&& final(self)@ == old(self)@
                    } else {
                        let id = (nb + 1) as u64;
                        &&& r matches Ok(s) && s@ == dec_str(id as int)
                        &&& final(self)@.lobbies == oldl.update(
                            key_at(oldl, pid@),
                            (
                                pid@,
                                LobbyV {
                                    collections: set_collection(
                                        lv.collections,
                                        collection_name@,
                                        CollectionV {
                                            last_id: id,
                                            docs: cv.docs.push(
                                                (
                                                    dec_str(id as int),
                                                    DocumentV { id: id, ..document@ },
                                                ),
                                            ),
                                        },
                                    ),
                                    hot: true,
                                    ..lv
                                },
                            ),
                        )
                        &&& final(self)@.subscribers == old(self)@.subscribers
                    }
                }
            }),
    {
        let ghost oldl = self@.lobbies;
        let name = pid.to_owned();
        let i = match assoc_find(&self.lobbies, &name) {
            Some(i) => i,
            None => {
                proof {
                    assert(forall|j: int|
                        0 <= j < oldl.len() ==> (#[trigger] oldl[j]).0 != pid@);
                }
                return Err(VMErrors::ProcessNotFound(name));
            },
        };
        proof {
            lemma_key_at_unique(oldl, pid@, i as int);
        }
        let event_doc = document.duplicate();
        let key = match self.lobbies[i].1.create_document(collection_name, document) {
            Ok(k) => k,
            Err(e) => {
                proof {
                    assert(self.lobbies@[i as int] == old(self).lobbies@[i as int]);
                    assert(self.lobbies@ =~= old(self).lobbies@);
                    assert(self@ =~~= old(self)@);
                }
                return Err(e);
            },
        };
        proof {
            let lv = val_at(oldl, pid@);
            let cv = target_collection(lv.collections, collection_name@);
            let id = (next_base(cv) + 1) as u64;
            lemma_key_u64_of_dec_str(id);
            assert(self@.lobbies =~~= oldl.update(
                i as int,
                (
                    pid@,
                    LobbyV {
                        collections: set_collection(
                            lv.collections,
                            collection_name@,
                            CollectionV {
                                last_id: id,
                                docs: cv.docs.push(
                                    (dec_str(id as int), DocumentV { id: id, ..event_doc@ }),
                                ),
                            },
                        ),
                        hot: true,
                        ..lv
                    },
                ),
            ));
            assert(self@.subscribers =~= old(self)@.subscribers);
        }
        let mut event_doc = event_doc;
        event_doc.id = match parse_u64(key.as_str()) {
            Some(v) => v,
            None => 0,
        };
        let event = Output::DocumentCreated {
            process_id: pid.to_owned(),
            collection_name: collection_name.to_owned(),
            doc_id: key.clone(),
            document: event_doc,
        };
        let _ = self.broadcast_to_lobby(pid, &event);
        self.enqueue_snapshot(i);
        Ok(key)
    }

    /// Applies a partial update in the hot session, broadcasts a
    /// `DocumentUpdated` event carrying only the applied changes, and
    /// enqueues a snapshot write. On failure nothing is broadcast and the
    /// state is untouched.
    pub fn update_document(
        &mut self,
        pid: &str,
        collection_name: &str,
        doc_id: &str,
        changes: DocumentChanges,
    ) -> (r: Result<(), VMErrors>)
        requires
            old(self).wf(),
        ensures
            final(self).wf(),
            ({
                let oldl = old(self)@.lobbies;
                if !has_key(oldl, pid@) {
                    &&& r matches Err(VMErrors::ProcessNotFound(_))
                    &&& *final(self) == *old(self)
                } else {
                    let lv = val_at(oldl, pid@);
                    if !has_key(lv.collections, collection_name@) {
                        &&& r matches Err(VMErrors::CollectionNotFound(_))
                        &&& final(self)@ == old(self)@
                    } else if !has_key(
                        val_at(lv.collections, collection_name@).docs,
                        doc_id@,
                    ) {
                        &&& r matches Err(VMErrors::DocumentNotFound(_))
                        &&& final(self)@ == old(self)@
                    } else {
                        let cv = val_at(lv.collections, collection_name@);
                        let d = val_at(cv.docs, doc_id@);
                        &&& r matches Ok(u) && u == ()
                        &&& final(self)@.lobbies == oldl.update(
                            key_at(oldl, pid@),
                            (
                                pid@,
                                LobbyV {
                                    collections: set_collection(
                                        lv.collections,
                                        collection_name@,
                                        CollectionV {
                                            last_id: cv.last_id,
                                            docs: cv.docs.update(
                                                key_at(cv.docs, doc_id@),
                                                (
                                                    doc_id@,
                                                    crate::lobby::patch_doc(d, changes@),
                                                ),
                                            ),
                                        },
                                    ),
                                    hot: true,
                                    ..lv
                                },
                            ),
                        )
                        &&& final(self)@.subscribers == old(self)@.subscribers
                    }
                }
            }),
    {
        let ghost oldl = self@.lobbies;
        let name = pid.to_owned();
        let i = match assoc_find(&self.lobbies, &name) {
            Some(i) => i,
            None => {
                proof {
                    assert(forall|j: int|
                        0 <= j < oldl.len() ==> (#[trigger] oldl[j]).0 != pid@);
                }
                return Err(VMErrors::ProcessNotFound(name));
            },
        };
        proof {
            lemma_key_at_unique(oldl, pid@, i as int);
        }
        let applied = match self.lobbies[i].1.update_document(collection_name, doc_id, changes) {
            Ok(ch) => ch,
            Err(e) => {
                proof {
                    assert(self.lobbies@[i as int] == old(self).lobbies@[i as int]);
                    assert(self.lobbies@ =~= old(self).lobbies@);
                    assert(self@ =~~= old(self)@);
                }
                return Err(e);
            },
        };
        proof {
            let lv = val_at(oldl, pid@);
            let cv = val_at(lv.collections, collection_name@);
            let d = val_at(cv.docs, doc_id@);
            assert(self@.lobbies =~~= oldl.update(
                i as int,
                (
                    pid@,
                    LobbyV {
                        collections: set_collection(
                            lv.collections,
                            collection_name@,
                            CollectionV {
                                last_id: cv.last_id,
                                docs: cv.docs.update(
                                    key_at(cv.docs, doc_id@),
                                    (doc_id@, crate::lobby::patch_doc(d, applied@)),
                                ),
                            },
                        ),
                        hot: true,
                        ..lv
                    },
                ),
            ));
            assert(self@.subscribers =~= old(self)@.subscribers);
        }
        let event = Output::DocumentUpdated {
            process_id: pid.to_owned(),
            collection_name: collection_name.to_owned(),
            doc_id: doc_id.to_owned(),
            changes: applied,
        };
        let _ = self.broadcast_to_lobby(pid, &event);
        self.enqueue_snapshot(i);
        Ok(())
    }

    /// Removes a document from the hot session; broadcasts `DocumentDeleted`
    /// and enqueues a snapshot write only when something was actually
    /// removed. A document already absent is `DocumentNotFound`, with no
    /// broadcast and no state change.
    pub fn delete_document(&mut self, pid: &str, collection_name: &str, doc_id: &str) -> (r: Result<
        (),
        VMErrors,
    >)
        requires
            old(self).wf(),
        ensures
            final(self).wf(),
            ({
                let oldl = old(self)@.lobbies;
                if !has_key(oldl, pid@) {
                    &&& r matches Err(VMErrors::ProcessNotFound(_))
                    &&& *final(self) == *old(self)
                } else {
                    let lv = val_at(oldl, pid@);
                    if !has_key(lv.collections, collection_name@) {
                        &&& r matches Err(VMErrors::CollectionNotFound(_))
                        &&& final(self)@ == old(self)@
                    } else if !has_key(
                        val_at(lv.collections, collection_name@).docs,
                        doc_id@,
                    ) {
                        &&& r matches Err(VMErrors::DocumentNotFound(_))
                        &&& final(self)@ == old(self)@
                    } else {
                        let cv = val_at(lv.collections, collection_name@);
                        &&& r matches Ok(u) && u == ()
                        &&& final(self)@.lobbies == oldl.update(
                            key_at(oldl, pid@),
                            (
                                pid@,
                                LobbyV {
                                    collections: set_collection(
                                        lv.collections,
                                        collection_name@,
                                        CollectionV {
                                            last_id: cv.last_id,
                                            docs: cv.docs.remove(key_at(cv.docs, doc_id@)),
                                        },
                                    ),
                                    hot: true,
                                    ..lv
                                },
                            ),
                        )
                        &&& final(self)@.subscribers == old(self)@.subscribers
                    }
                }
            }),
    {
        let ghost oldl = self@.lobbies;
        let name = pid.to_owned();
        let i = match assoc_find(&self.lobbies, &name) {
            Some(i) => i,
            None => {
                proof {
                    assert(forall|j: int|
                        0 <= j < oldl.len() ==> (#[trigger] oldl[j]).0 != pid@);
                }
                return Err(VMErrors::ProcessNotFound(name));
            },
        };
        proof {
            lemma_key_at_unique(oldl, pid@, i as int);
        }
        let removed = match self.lobbies[i].1.delete_document(collection_name, doc_id) {
            Ok(b) => b,
            Err(e) => {
                proof {
                    assert(self.lobbies@[i as int] == old(self).lobbies@[i as int]);
                    assert(self.lobbies@ =~= old(self).lobbies@);
                    assert(self@ =~~= old(self)@);
                }
                return Err(e);
            },
        };
        if !removed {
            proof {
                assert(self.lobbies@[i as int] == old(self).lobbies@[i as int]);
                assert(self.lobbies@ =~= old(self).lobbies@);
                assert(self@ =~~= old(self)@);
            }
            return Err(VMErrors::DocumentNotFound(doc_id.to_owned()));
        }
        proof {
            let lv = val_at(oldl, pid@);
            let cv = val_at(lv.collections, collection_name@);
            assert(self@.lobbies =~~= oldl.update(
                i as int,
                (
                    pid@,
                    LobbyV {
                        collections: set_collection(
                            lv.collections,
                            collection_name@,
                            CollectionV {
                                last_id: cv.last_id,
                                docs: cv.docs.remove(key_at(cv.docs, doc_id@)),
                            },
                        ),
                        hot: true,
                        ..lv
                    },
                ),
            ));
            assert(self@.subscribers =~= old(self)@.subscribers);
        }
        let event = Output::DocumentDeleted {
            process_id: pid.to_owned(),
            collection_name: collection_name.to_owned(),
            doc_id: doc_id.to_owned(),
        };
        let _ = self.broadcast_to_lobby(pid, &event);
        self.enqueue_snapshot(i);
        Ok(())
    }
}

} // verus!
