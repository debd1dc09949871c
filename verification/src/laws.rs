//! The general laws of the session machine, stated over the spec-level
//! transitions that the executable contracts are written in: delete
//! idempotence, deterministic sequential id assignment, non-reuse of ids
//! after deletion, and the algebra of partial updates.
use vstd::prelude::*;

use crate::assoc::{has_key, key_at, uniq_keys};
use crate::ids::{dec_str, lemma_key_u64_of_dec_str};
use crate::lobby::{CollectionV, empty_collection, key_num, live_max, next_base, patch_doc};
use crate::types::{CollectionDataV, DocumentChangesV, DocumentV};

verus! {

/// Deleting is idempotent: once the document with key `did` is removed,
/// no entry with that key remains, so a second delete of the same key
/// removes nothing, reports `false`, and nothing is broadcast for it.
pub proof fn lemma_delete_idempotent(docs: Seq<(Seq<char>, DocumentV)>, did: Seq<char>)
    requires
        uniq_keys(docs),
        has_key(docs, did),
    ensures
        !has_key(docs.remove(key_at(docs, did)), did),
{
    let k = key_at(docs, did);
    assert(0 <= k < docs.len() && docs[k].0 == did);
    let rest = docs.remove(k);
    assert forall|i: int| 0 <= i < rest.len() implies (#[trigger] rest[i]).0 != did by {
        if i < k {
            assert(rest[i] == docs[i]);
        } else {
            assert(rest[i] == docs[i + 1]);
        }
    }
}

/// The collection after one create: the assigned id is one past the base,
/// the high-water mark becomes that id, and the document is stored under the
/// id's decimal key with the id written onto it.
pub open spec fn after_create(cv: CollectionV, d: DocumentV) -> CollectionV {
    let id = (next_base(cv) + 1) as u64;
    CollectionV {
        last_id: id,
        docs: cv.docs.push((dec_str(id as int), DocumentV { id: id, ..d })),
    }
}

/// One create advances the id base by exactly one, whatever the document
/// holds.
pub proof fn lemma_create_advances(cv: CollectionV, d: DocumentV)
    requires
        next_base(cv) < u64::MAX,
    ensures
        next_base(after_create(cv, d)) == next_base(cv) + 1,
        after_create(cv, d).last_id as int == next_base(cv) + 1,
{
    let id = (next_base(cv) + 1) as u64;
    let docs2 = after_create(cv, d).docs;
    assert(docs2.drop_last() =~= cv.docs);
    assert(docs2.last() == (dec_str(id as int), DocumentV { id: id, ..d }));
    lemma_key_u64_of_dec_str(id);
    assert(key_num(dec_str(id as int)) == id as int);
    assert(live_max(docs2) == id as int);
}

/// The collection after a sequence of creates, in call order.
pub open spec fn after_creates(cv: CollectionV, ds: Seq<DocumentV>) -> CollectionV
    decreases ds.len(),
{
    if ds.len() == 0 {
        cv
    } else {
        after_create(after_creates(cv, ds.drop_last()), ds.last())
    }
}

/// Determinism of id assignment: `i` sequential creates into an empty
/// collection leave the high-water mark at exactly `i`, independent of the
/// payloads, so the ids assigned in call order are exactly 1, 2, ..., n.
pub proof fn lemma_sequential_ids(ds: Seq<DocumentV>, i: int)
    requires
        0 <= i <= ds.len(),
        ds.len() <= u64::MAX,
    ensures
        next_base(after_creates(empty_collection(), ds.take(i))) == i,
        after_creates(empty_collection(), ds.take(i)).last_id as int == i,
    decreases i,
{
    if i == 0 {
        assert(ds.take(0) =~= Seq::<DocumentV>::empty());
        assert(next_base(empty_collection()) == 0);
    } else {
        lemma_sequential_ids(ds, i - 1);
        assert(ds.take(i).drop_last() =~= ds.take(i - 1));
        let prev = after_creates(empty_collection(), ds.take(i - 1));
        lemma_create_advances(prev, ds.take(i).last());
        assert(after_creates(empty_collection(), ds.take(i)) == after_create(
            prev,
            ds.take(i).last(),
        ));
    }
}

/// Non-reuse, in general: whatever was deleted meanwhile, the next create in
/// a collection assigns an id strictly past the high-water mark, and the
/// mark never moves back (updates and deletes keep it, a create raises it).
pub proof fn lemma_ids_never_reused(c: CollectionV)
    ensures
        next_base(c) + 1 > c.last_id as int,
{
}

/// Non-reuse, concretely: create into an empty collection (id 1), delete
/// that document, create again: the second id is 2, never 1 again.
pub proof fn lemma_second_create_after_delete(d1: DocumentV, d2: DocumentV)
    ensures
        ({
            let c1 = after_create(empty_collection(), d1);
            let c2 = CollectionV { last_id: c1.last_id, docs: c1.docs.remove(0) };
            &&& c1.last_id == 1
            &&& after_create(c2, d2).last_id == 2
        }),
{
    assert(next_base(empty_collection()) == 0);
    let c1 = after_create(empty_collection(), d1);
    let c2 = CollectionV { last_id: c1.last_id, docs: c1.docs.remove(0) };
    assert(c2.docs =~= Seq::<(Seq<char>, DocumentV)>::empty());
    assert(next_base(c2) == 1);
}

/// A partial update touches nothing it does not name: the identity fields,
/// the variant, and every field the patch omits are unchanged.
pub proof fn lemma_patch_preserves_omitted(d: DocumentV, ch: DocumentChangesV)
    ensures
        patch_doc(d, ch).id == d.id,
        patch_doc(d, ch).creator == d.creator,
        patch_doc(d, ch).request_id == d.request_id,
        d.data matches CollectionDataV::Cube(c) ==> (patch_doc(d, ch).data matches
            CollectionDataV::Cube(pc) && (ch.x is None ==> pc.x == c.x) && (ch.y is None ==> pc.y
            == c.y) && (ch.z is None ==> pc.z == c.z) && (ch.color is None ==> pc.color == c.color)
            && (ch.rot_x is None ==> pc.rot_x == c.rot_x) && (ch.rot_y is None ==> pc.rot_y
            == c.rot_y) && (ch.rot_z is None ==> pc.rot_z == c.rot_z)),
        d.data matches CollectionDataV::Vertex(v) ==> (patch_doc(d, ch).data matches
            CollectionDataV::Vertex(pv) && (ch.x is None ==> pv.x == v.x) && (ch.y is None ==> pv.y
            == v.y) && (ch.z is None ==> pv.z == v.z) && (ch.line_color is None ==> pv.line_color
            == v.line_color) && (ch.vertex_color is None ==> pv.vertex_color == v.vertex_color) && (
        ch.camera_x is None ==> pv.camera_x == v.camera_x) && (ch.camera_y is None ==> pv.camera_y
            == v.camera_y) && (ch.camera_z is None ==> pv.camera_z == v.camera_z)),
        d.data matches CollectionDataV::Splash(s) ==> (patch_doc(d, ch).data matches
            CollectionDataV::Splash(ps) && (ch.x is None ==> ps.x == s.x) && (ch.y is None ==> ps.y
            == s.y) && (ch.seed is None ==> ps.seed == s.seed)),
{
}

/// Applying the same patch twice is the same as applying it once.
pub proof fn lemma_patch_idempotent(d: DocumentV, ch: DocumentChangesV)
    ensures
        patch_doc(patch_doc(d, ch), ch) == patch_doc(d, ch),
{
    match d.data {
        CollectionDataV::Cube(_) => {
            assert(patch_doc(patch_doc(d, ch), ch) =~~= patch_doc(d, ch));
        },
        CollectionDataV::Vertex(_) => {
            assert(patch_doc(patch_doc(d, ch), ch) =~~= patch_doc(d, ch));
        },
        CollectionDataV::Splash(_) => {
            assert(patch_doc(patch_doc(d, ch), ch) =~~= patch_doc(d, ch));
        },
    }
}

/// A created document's fresh key is live afterwards: the one the create
/// stored is there under the id's decimal key.
pub proof fn lemma_created_key_present(cv: CollectionV, d: DocumentV)
    ensures
        ({
            let id = (next_base(cv) + 1) as u64;
            let c2 = after_create(cv, d);
            &&& has_key(c2.docs, dec_str(id as int))
        }),
{
    let id = (next_base(cv) + 1) as u64;
    let c2 = after_create(cv, d);
    assert(c2.docs[c2.docs.len() - 1].0 == dec_str(id as int));
}

} // verus!
