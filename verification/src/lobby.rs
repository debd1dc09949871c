//! The in-memory authoritative state of one session: named collections of
//! documents, server-side id assignment, last-write-wins patch application,
//! and idempotent deletion. Ids are assigned monotonically and never reused
//! after deletion: each collection keeps the last id it handed out and a new
//! id is one past the larger of that and the largest numeric key alive.
use vstd::prelude::*;

use crate::assoc::{assoc_find, has_key, key_at, lemma_key_at_unique, uniq_keys, val_at};
use crate::errors::VMErrors;
use crate::ids::{dec_str, key_u64, lemma_key_u64_of_dec_str, parse_u64, u64_to_dec};
use crate::types::{
    CollectionData, CollectionDataV, Cube, CubeV, Document, DocumentChanges, DocumentChangesV,
    DocumentV, Splash, SplashV, Vertex, VertexV, opt_view,
};

verus! {

/// A named table of documents of one variant kind, ordered by insertion.
/// `last_id` is the last id this collection assigned; it only grows.
#[derive(Debug, Clone)]
pub struct Collection {
    pub last_id: u64,
    pub docs: Vec<(String, Document)>,
}

/// The view of a `Collection`.
#[verifier::ext_equal]
pub struct CollectionV {
    pub last_id: u64,
    pub docs: Seq<(Seq<char>, DocumentV)>,
}

/// The view of a document table: keys and documents as character sequences.
pub open spec fn docs_view(v: Seq<(String, Document)>) -> Seq<(Seq<char>, DocumentV)> {
    Seq::new(v.len(), |i: int| (v[i].0@, v[i].1@))
}

impl View for Collection {
    type V = CollectionV;

    open spec fn view(&self) -> CollectionV {
        CollectionV { last_id: self.last_id, docs: docs_view(self.docs@) }
    }
}

impl Collection {
    /// Document keys are unique within the collection.
    pub open spec fn wf(&self) -> bool {
        uniq_keys(self@.docs)
    }

    /// An exact copy of the collection.
    pub fn duplicate(&self) -> (r: Collection)
        ensures
            r@ == self@,
    {
        let mut docs: Vec<(String, Document)> = Vec::new();
        let mut j: usize = 0;
        while j < self.docs.len()
            invariant
                j <= self.docs@.len(),
                docs@.len() == j,
                forall|t: int|
                    0 <= t < j ==> (#[trigger] docs@[t]).0@ == self.docs@[t].0@ && docs@[t].1@
                        == self.docs@[t].1@,
            decreases self.docs@.len() - j,
        {
            docs.push((self.docs[j].0.clone(), self.docs[j].1.duplicate()));
            j += 1;
        }
        let r = Collection { last_id: self.last_id, docs };
        proof {
            assert(r@.docs =~~= self@.docs);
        }
        r
    }
}

/// The named collections of one session, ordered by first use.
#[derive(Debug, Clone)]
pub struct Collections {
    pub entries: Vec<(String, Collection)>,
}

/// The view of a set of named collections.
pub open spec fn colls_view(v: Seq<(String, Collection)>) -> Seq<(Seq<char>, CollectionV)> {
    Seq::new(v.len(), |i: int| (v[i].0@, v[i].1@))
}

impl View for Collections {
    type V = Seq<(Seq<char>, CollectionV)>;

    open spec fn view(&self) -> Seq<(Seq<char>, CollectionV)> {
        colls_view(self.entries@)
    }
}

impl Collections {
    /// Collection names are unique and every collection is well formed.
    pub open spec fn wf(&self) -> bool {
        &&& uniq_keys(self@)
        &&& forall|i: int| 0 <= i < self.entries@.len() ==> (#[trigger] self.entries@[i]).1.wf()
    }

    /// An exact copy of all collections.
    pub fn duplicate(&self) -> (r: Collections)
        ensures
            r@ == self@,
    {
        let mut entries: Vec<(String, Collection)> = Vec::new();
        let mut j: usize = 0;
        while j < self.entries.len()
            invariant
                j <= self.entries@.len(),
                entries@.len() == j,
                forall|t: int|
                    0 <= t < j ==> (#[trigger] entries@[t]).0@ == self.entries@[t].0@
                        && entries@[t].1@ == self.entries@[t].1@,
            decreases self.entries@.len() - j,
        {
            entries.push((self.entries[j].0.clone(), self.entries[j].1.duplicate()));
            j += 1;
        }
        let r = Collections { entries };
        proof {
            assert(r@ =~~= self@);
        }
        r
    }
}

/// The in-memory authoritative state of one session.
#[derive(Debug, Clone)]
pub struct Lobby {
    pub process_id: String,
    pub collections: Collections,
    pub processed_txs: Vec<String>,
    pub hot: bool,
}

/// The view of a `Lobby`.
#[verifier::ext_equal]
pub struct LobbyV {
    pub process_id: Seq<char>,
    pub collections: Seq<(Seq<char>, CollectionV)>,
    pub processed_txs: Seq<Seq<char>>,
    pub hot: bool,
}

impl View for Lobby {
    type V = LobbyV;

    open spec fn view(&self) -> LobbyV {
        LobbyV {
            process_id: self.process_id@,
            collections: self.collections@,
            processed_txs: self.processed_txs@.map_values(|s: String| s@),
            hot: self.hot,
        }
    }
}

/// The numeric weight of a key for id assignment: its value when it parses
/// as an unsigned 64-bit decimal, zero otherwise.
pub open spec fn key_num(k: Seq<char>) -> int {
    match key_u64(k) {
        Some(v) => v as int,
        None => 0,
    }
}

/// The largest numeric key alive in a document table (zero when empty).
pub open spec fn live_max(docs: Seq<(Seq<char>, DocumentV)>) -> int
    decreases docs.len(),
{
    if docs.len() == 0 {
        0
    } else {
        let rest = live_max(docs.drop_last());
        let kn = key_num(docs.last().0);
        if kn > rest {
            kn
        } else {
            rest
        }
    }
}

/// The base the next id is built from: the larger of the last assigned id
/// and the largest numeric key alive.
pub open spec fn next_base(c: CollectionV) -> int {
    if c.last_id as int > live_max(c.docs) {
        c.last_id as int
    } else {
        live_max(c.docs)
    }
}

/// The collection a mutation works on: the stored one, or a fresh empty one
/// when the name is unseen.
pub open spec fn empty_collection() -> CollectionV {
    CollectionV { last_id: 0, docs: Seq::empty() }
}

/// See `empty_collection`.
pub open spec fn target_collection(
    s: Seq<(Seq<char>, CollectionV)>,
    k: Seq<char>,
) -> CollectionV {
    if has_key(s, k) {
        val_at(s, k)
    } else {
        empty_collection()
    }
}

/// The collections after storing `v` under `k`: in place when the name
/// exists, appended otherwise.
pub open spec fn set_collection(
    s: Seq<(Seq<char>, CollectionV)>,
    k: Seq<char>,
    v: CollectionV,
) -> Seq<(Seq<char>, CollectionV)> {
    if has_key(s, k) {
        s.update(key_at(s, k), (k, v))
    } else {
        s.push((k, v))
    }
}

/// The field value a patch leaves: the patch's when present, the old one
/// otherwise.
pub open spec fn pick(o: Option<Seq<char>>, d: Seq<char>) -> Seq<char> {
    match o {
        Some(v) => v,
        None => d,
    }
}

/// The payload after a partial update: each field present in the patch
/// overwrites the matching field of the document's own variant; fields of
/// other variants are ignored.
pub open spec fn patch_data(data: CollectionDataV, ch: DocumentChangesV) -> CollectionDataV {
    match data {
        CollectionDataV::Cube(c) => CollectionDataV::Cube(
            CubeV {
                x: pick(ch.x, c.x),
                y: pick(ch.y, c.y),
                z: pick(ch.z, c.z),
                color: pick(ch.color, c.color),
                rot_x: pick(ch.rot_x, c.rot_x),
                rot_y: pick(ch.rot_y, c.rot_y),
                rot_z: pick(ch.rot_z, c.rot_z),
            },
        ),
        CollectionDataV::Vertex(v) => CollectionDataV::Vertex(
            VertexV {
                x: pick(ch.x, v.x),
                y: pick(ch.y, v.y),
                z: pick(ch.z, v.z),
                line_color: pick(ch.line_color, v.line_color),
                vertex_color: pick(ch.vertex_color, v.vertex_color),
                camera_x: pick(ch.camera_x, v.camera_x),
                camera_y: pick(ch.camera_y, v.camera_y),
                camera_z: pick(ch.camera_z, v.camera_z),
            },
        ),
        CollectionDataV::Splash(s) => CollectionDataV::Splash(
            SplashV { x: pick(ch.x, s.x), y: pick(ch.y, s.y), seed: pick(ch.seed, s.seed) },
        ),
    }
}

/// The document after a partial update: identity fields kept, payload
/// patched.
pub open spec fn patch_doc(d: DocumentV, ch: DocumentChangesV) -> DocumentV {
    DocumentV { data: patch_data(d.data, ch), ..d }
}

/// Every key's numeric weight is bounded by the live maximum.
pub proof fn lemma_live_max_ge(docs: Seq<(Seq<char>, DocumentV)>, j: int)
    requires
        0 <= j < docs.len(),
    ensures
        key_num(docs[j].0) <= live_max(docs),
    decreases docs.len(),
{
    if j == docs.len() - 1 {
        assert(docs.last() == docs[j]);
    } else {
        lemma_live_max_ge(docs.drop_last(), j);
        assert(docs.drop_last()[j] == docs[j]);
    }
}

/// The live maximum is a number a `u64` can hold.
pub proof fn lemma_live_max_bounds(docs: Seq<(Seq<char>, DocumentV)>)
    ensures
        0 <= live_max(docs) <= u64::MAX,
    decreases docs.len(),
{
    if docs.len() > 0 {
        lemma_live_max_bounds(docs.drop_last());
    }
}

/// The largest numeric key alive in `docs`, zero when there is none.
fn collection_live_max(docs: &Vec<(String, Document)>) -> (m: u64)
    ensures
        m as int == live_max(docs_view(docs@)),
{
    let ghost dv = docs_view(docs@);
    let mut m: u64 = 0;
    let mut j: usize = 0;
    while j < docs.len()
        invariant
            j <= docs@.len(),
            dv == docs_view(docs@),
            m as int == live_max(dv.take(j as int)),
        decreases docs@.len() - j,
    {
        proof {
            assert(dv.take(j + 1).drop_last() =~= dv.take(j as int));
            assert(dv.take(j + 1).last() == dv[j as int]);
            assert(dv[j as int].0 == docs@[j as int].0@);
            lemma_live_max_bounds(dv.take(j + 1));
        }
        let v: u64 = match parse_u64(docs[j].0.as_str()) {
            Some(v) => v,
            None => 0,
        };
        if v > m {
            m = v;
        }
        j += 1;
    }
    proof {
        assert(dv.take(docs@.len() as int) =~= dv);
    }
    m
}

/// The patch's value when present, the document's own otherwise.
fn pick_str(o: &Option<String>, d: &String) -> (r: String)
    ensures
        r@ == pick(opt_view(*o), d@),
{
    match o {
        Some(v) => v.clone(),
        None => d.clone(),
    }
}

/// The document after applying `changes`, per `patch_doc`.
fn patched_document(d: &Document, changes: &DocumentChanges) -> (r: Document)
    ensures
        r@ == patch_doc(d@, changes@),
{
    let data = match &d.data {
        CollectionData::Cube(c) => CollectionData::Cube(
            Cube {
                x: pick_str(&changes.x, &c.x),
                y: pick_str(&changes.y, &c.y),
                z: pick_str(&changes.z, &c.z),
                color: pick_str(&changes.color, &c.color),
                rot_x: pick_str(&changes.rot_x, &c.rot_x),
                rot_y: pick_str(&changes.rot_y, &c.rot_y),
                rot_z: pick_str(&changes.rot_z, &c.rot_z),
            },
        ),
        CollectionData::Vertex(v) => CollectionData::Vertex(
            Vertex {
                x: pick_str(&changes.x, &v.x),
                y: pick_str(&changes.y, &v.y),
                z: pick_str(&changes.z, &v.z),
                line_color: pick_str(&changes.line_color, &v.line_color),
                vertex_color: pick_str(&changes.vertex_color, &v.vertex_color),
                camera_x: pick_str(&changes.camera_x, &v.camera_x),
                camera_y: pick_str(&changes.camera_y, &v.camera_y),
                camera_z: pick_str(&changes.camera_z, &v.camera_z),
            },
        ),
        CollectionData::Splash(s) => CollectionData::Splash(
            Splash {
                x: pick_str(&changes.x, &s.x),
                y: pick_str(&changes.y, &s.y),
                seed: pick_str(&changes.seed, &s.seed),
            },
        ),
    };
    let r = Document {
        id: d.id,
        creator: d.creator.clone(),
        request_id: match &d.request_id {
            Some(s) => Some(s.clone()),
            None => None,
        },
        data,
    };
    proof {
        assert(r@ =~~= patch_doc(d@, changes@));
    }
    r
}

impl Lobby {
    /// Collection names are unique and every collection is well formed.
    pub open spec fn wf(&self) -> bool {
        self.collections.wf()
    }

    /// A fresh, empty, cold session.
    pub fn new(pid: &str) -> (r: Self)
        ensures
            r.wf(),
            r@.process_id == pid@,
            r@.collections == Seq::<(Seq<char>, CollectionV)>::empty(),
            r@.processed_txs == Seq::<Seq<char>>::empty(),
            !r@.hot,
    {
        let r = Lobby {
            process_id: pid.to_owned(),
            collections: Collections { entries: Vec::new() },
            processed_txs: Vec::new(),
            hot: false,
        };
        proof {
            assert(r@.collections =~= Seq::<(Seq<char>, CollectionV)>::empty());
            assert(r@.processed_txs =~= Seq::<Seq<char>>::empty());
        }
        r
    }

    /// A deep copy of all collections, for snapshots and full syncs.
    pub fn get_full_state(&self) -> (r: Result<Collections, VMErrors>)
        ensures
            r matches Ok(c) && c@ == self@.collections,
    {
        Ok(self.collections.duplicate())
    }

    /// A deep copy of one collection; `CollectionNotFound` when the name is
    /// unseen.
    pub fn get_collection(&self, collection_name: &str) -> (r: Result<Collection, VMErrors>)
        requires
            self.wf(),
        ensures
            has_key(self@.collections, collection_name@) ==> (r matches Ok(c) && c@ == val_at(
                self@.collections,
                collection_name@,
            )),
            !has_key(self@.collections, collection_name@) ==> (r matches Err(
                VMErrors::CollectionNotFound(_),
            )),
    {
        let name = collection_name.to_owned();
        match assoc_find(&self.collections.entries, &name) {
            Some(i) => {
                proof {
                    lemma_key_at_unique(self@.collections, collection_name@, i as int);
                }
                Ok(self.collections.entries[i].1.duplicate())
            },
            None => {
                proof {
                    assert(forall|j: int|
                        0 <= j < self@.collections.len() ==> (#[trigger] self@.collections[j]).0
                            != collection_name@);
                }
                Err(VMErrors::CollectionNotFound(String::new()))
            },
        }
    }

    /// Inserts a document. The collection is created on first use; the id is
    /// assigned server-side as one past the larger of the collection's last
    /// assigned id and its largest live numeric key, so an id is never reused
    /// after a deletion. Fails only when that id space is spent.
    pub fn create_document(&mut self, collection_name: &str, document: Document) -> (r: Result<
        String,
        VMErrors,
    >)
        requires
            old(self).wf(),
        ensures
            final(self).wf(),
            ({
                let cv = target_collection(old(self)@.collections, collection_name@);
                let nb = next_base(cv);
                if nb >= u64::MAX as int {
                    &&& r matches Err(VMErrors::CollectionUpdateError(_))
                    &&& *final(self) == *old(self)
                } else {
                    let id = (nb + 1) as u64;
                    &&& r matches Ok(s) && s@ == dec_str(id as int)
                    &&& final(self)@.collections == set_collection(
                        old(self)@.collections,
                        collection_name@,
                        CollectionV {
                            last_id: id,
                            docs: cv.docs.push(
                                (dec_str(id as int), DocumentV { id: id, ..document@ }),
                            ),
                        },
                    )
                    &&& final(self)@.hot
                    &&& final(self)@.process_id == old(self)@.process_id
                    &&& final(self)@.processed_txs == old(self)@.processed_txs
                }
            }),
    {
        let name = collection_name.to_owned();
        let idx = assoc_find(&self.collections.entries, &name);
        let ghost oldc = self@.collections;
        let ghost cv = target_collection(oldc, collection_name@);
        let base: u64 = match idx {
            Some(i) => {
                proof {
                    lemma_key_at_unique(oldc, collection_name@, i as int);
                    assert(cv == self.collections.entries@[i as int].1@);
                }
                let c = &self.collections.entries[i].1;
                let live = collection_live_max(&c.docs);
                if c.last_id > live {
                    c.last_id
                } else {
                    live
                }
            },
            None => {
                proof {
                    assert(forall|j: int|
                        0 <= j < oldc.len() ==> (#[trigger] oldc[j]).0 != collection_name@);
                    assert(!has_key(oldc, collection_name@));
                }
                0
            },
        };
        proof {
            assert(base as int == next_base(cv));
        }
        if base == u64::MAX {
            proof {
                lemma_live_max_bounds(cv.docs);
            }
            return Err(VMErrors::CollectionUpdateError(name));
        }
        let id = base + 1;
        let key = u64_to_dec(id);
        let key_ret = key.clone();
        let mut doc = document;
        doc.id = id;
        proof {
            assert(doc@ =~= DocumentV { id: id, ..document@ });
            // the fresh key cannot be a live key: its numeric value is past
            // the live maximum
            lemma_key_u64_of_dec_str(id);
            assert forall|j: int| 0 <= j < cv.docs.len() implies (#[trigger] cv.docs[j]).0
                != dec_str(id as int) by {
                if cv.docs[j].0 == dec_str(id as int) {
                    lemma_live_max_ge(cv.docs, j);
                    assert(key_num(cv.docs[j].0) == id as int);
                }
            }
        }
        match idx {
            Some(i) => {
                self.collections.entries[i].1.docs.push((key, doc));
                self.collections.entries[i].1.last_id = id;
                proof {
                    let newcv = CollectionV {
                        last_id: id,
                        docs: cv.docs.push((dec_str(id as int), DocumentV { id: id, ..document@ })),
                    };
                    assert(self.collections.entries@[i as int].1@.docs =~~= newcv.docs);
                    assert(self.collections.entries@[i as int].1@ =~~= newcv);
                    assert(self@.collections =~~= set_collection(oldc, collection_name@, newcv));
                    assert(uniq_keys(self@.collections));
                    assert(forall|t: int|
                        0 <= t < self.collections.entries@.len() ==> (
                        #[trigger] self.collections.entries@[t]).1.wf());
                }
            },
            None => {
                let mut docs: Vec<(String, Document)> = Vec::new();
                docs.push((key, doc));
                self.collections.entries.push((name, Collection { last_id: id, docs }));
                proof {
                    let newcv = CollectionV {
                        last_id: id,
                        docs: cv.docs.push((dec_str(id as int), DocumentV { id: id, ..document@ })),
                    };
                    let n = self.collections.entries@.len() - 1;
                    assert(self.collections.entries@[n].1@.docs =~~= newcv.docs);
                    assert(self.collections.entries@[n].1@ =~~= newcv);
                    assert(self@.collections =~~= set_collection(oldc, collection_name@, newcv));
                    assert(uniq_keys(self@.collections));
                    assert(forall|t: int|
                        0 <= t < self.collections.entries@.len() ==> (
                        #[trigger] self.collections.entries@[t]).1.wf());
                }
            },
        }
        self.hot = true;
        Ok(key_ret)
    }

    /// Applies a partial, last-write-wins update to one document: each field
    /// present in `changes` overwrites the matching field of the document's
    /// variant, omitted fields are untouched, fields irrelevant to the
    /// variant are silently ignored. Returns the applied changes.
    pub fn update_document(
        &mut self,
        collection_name: &str,
        doc_id: &str,
        changes: DocumentChanges,
    ) -> (r: Result<DocumentChanges, VMErrors>)
        requires
            old(self).wf(),
        ensures
            final(self).wf(),
            ({
                let oldc = old(self)@.collections;
                let n = collection_name@;
                let did = doc_id@;
                if !has_key(oldc, n) {
                    &&& r matches Err(VMErrors::CollectionNotFound(_))
                    &&& *final(self) == *old(self)
                } else if !has_key(val_at(oldc, n).docs, did) {
                    &&& r matches Err(VMErrors::DocumentNotFound(_))
                    &&& *final(self) == *old(self)
                } else {
                    let cv = val_at(oldc, n);
                    let d = val_at(cv.docs, did);
                    &&& r matches Ok(ch) && ch@ == changes@
                    &&& final(self)@.collections == set_collection(
                        oldc,
                        n,
                        CollectionV {
                            last_id: cv.last_id,
                            docs: cv.docs.update(
                                key_at(cv.docs, did),
                                (did, patch_doc(d, changes@)),
                            ),
                        },
                    )
                    &&& final(self)@.hot
                    &&& final(self)@.process_id == old(self)@.process_id
                    &&& final(self)@.processed_txs == old(self)@.processed_txs
                }
            }),
    {
        let name = collection_name.to_owned();
        let ghost oldc = self@.collections;
        let i = match assoc_find(&self.collections.entries, &name) {
            Some(i) => i,
            None => {
                proof {
                    assert(forall|j: int|
                        0 <= j < oldc.len() ==> (#[trigger] oldc[j]).0 != collection_name@);
                }
                return Err(VMErrors::CollectionNotFound(name));
            },
        };
        proof {
            lemma_key_at_unique(oldc, collection_name@, i as int);
        }
        let ghost cv = val_at(oldc, collection_name@);
        let key = doc_id.to_owned();
        let j = match assoc_find(&self.collections.entries[i].1.docs, &key) {
            Some(j) => j,
            None => {
                proof {
                    assert(forall|t: int|
                        0 <= t < cv.docs.len() ==> (#[trigger] cv.docs[t]).0 != doc_id@);
                }
                return Err(VMErrors::DocumentNotFound(key));
            },
        };
        proof {
            lemma_key_at_unique(cv.docs, doc_id@, j as int);
        }
        let patched = patched_document(&self.collections.entries[i].1.docs[j].1, &changes);
        self.collections.entries[i].1.docs[j].1 = patched;
        self.hot = true;
        proof {
            let d = val_at(cv.docs, doc_id@);
            let newcv = CollectionV {
                last_id: cv.last_id,
                docs: cv.docs.update(key_at(cv.docs, doc_id@), (doc_id@, patch_doc(d, changes@))),
            };
            assert(self.collections.entries@[i as int].1@.docs =~~= newcv.docs);
            assert(self.collections.entries@[i as int].1@ =~~= newcv);
            assert(self@.collections =~~= set_collection(oldc, collection_name@, newcv));
            assert(uniq_keys(self@.collections));
            assert(forall|t: int|
                0 <= t < self.collections.entries@.len() ==> (
                #[trigger] self.collections.entries@[t]).1.wf());
        }
        Ok(changes)
    }

    /// Removes a document and says whether something was actually removed:
    /// deletes are idempotent, a second delete of the same id returns
    /// `false`. A missing collection is still an error.
    pub fn delete_document(&mut self, collection_name: &str, document_id: &str) -> (r: Result<
        bool,
        VMErrors,
    >)
        requires
            old(self).wf(),
        ensures
            final(self).wf(),
            ({
                let oldc = old(self)@.collections;
                let n = collection_name@;
                let did = document_id@;
                if !has_key(oldc, n) {
                    &&& r matches Err(VMErrors::CollectionNotFound(_))
                    &&& *final(self) == *old(self)
                } else if !has_key(val_at(oldc, n).docs, did) {
                    &&& r matches Ok(b) && b == false
                    &&& *final(self) == *old(self)
                } else {
                    let cv = val_at(oldc, n);
                    &&& r matches Ok(b) && b == true
                    &&& final(self)@.collections == set_collection(
                        oldc,
                        n,
                        CollectionV {
                            last_id: cv.last_id,
                            docs: cv.docs.remove(key_at(cv.docs, did)),
                        },
                    )
                    &&& final(self)@.hot
                    &&& final(self)@.process_id == old(self)@.process_id
                    &&& final(self)@.processed_txs == old(self)@.processed_txs
                }
            }),
    {
        let name = collection_name.to_owned();
        let ghost oldc = self@.collections;
        let i = match assoc_find(&self.collections.entries, &name) {
            Some(i) => i,
            None => {
                proof {
                    assert(forall|j: int|
                        0 <= j < oldc.len() ==> (#[trigger] oldc[j]).0 != collection_name@);
                }
                return Err(VMErrors::CollectionNotFound(name));
            },
        };
        proof {
            lemma_key_at_unique(oldc, collection_name@, i as int);
        }
        let ghost cv = val_at(oldc, collection_name@);
        let key = document_id.to_owned();
        let j = match assoc_find(&self.collections.entries[i].1.docs, &key) {
            Some(j) => j,
            None => {
                proof {
                    assert(forall|t: int|
                        0 <= t < cv.docs.len() ==> (#[trigger] cv.docs[t]).0 != document_id@);
                }
                return Ok(false);
            },
        };
        proof {
            lemma_key_at_unique(cv.docs, document_id@, j as int);
        }
        let _removed = self.collections.entries[i].1.docs.remove(j);
        self.hot = true;
        proof {
            let newcv = CollectionV {
                last_id: cv.last_id,
                docs: cv.docs.remove(key_at(cv.docs, document_id@)),
            };
            assert(self.collections.entries@[i as int].1@.docs =~~= newcv.docs);
            assert(self.collections.entries@[i as int].1@ =~~= newcv);
            assert(self@.collections =~~= set_collection(oldc, collection_name@, newcv));
            assert(uniq_keys(self@.collections));
            assert(forall|t: int|
                0 <= t < self.collections.entries@.len() ==> (
                #[trigger] self.collections.entries@[t]).1.wf());
        }
        Ok(true)
    }
}

} // verus!
