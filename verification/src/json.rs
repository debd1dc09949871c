//! The JSON encoding of documents, collections, snapshots and events. The
//! registry serializes every outbound event and every persistence snapshot
//! itself, so the encoding is stated here exactly: each builder appends
//! precisely the character sequence its spec function names. Strings escape
//! the quote, the backslash and control characters; everything else is kept.
use vstd::prelude::*;

use crate::ids::{chars_to_string, dec_str, push_dec};
use crate::lobby::{Collection, CollectionV, Collections, Lobby, LobbyV, docs_view};
use crate::types::{
    CollectionData, CollectionDataV, Document, DocumentChanges, DocumentChangesV, DocumentV,
    opt_view,
};

verus! {

/// The character of a hexadecimal digit value (meaningful for 0..15).
pub open spec fn hex_digit_char(d: int) -> char {
    if d == 0 { '0' }
    else if d == 1 { '1' }
    else if d == 2 { '2' }
    else if d == 3 { '3' }
    else if d == 4 { '4' }
    else if d == 5 { '5' }
    else if d == 6 { '6' }
    else if d == 7 { '7' }
    else if d == 8 { '8' }
    else if d == 9 { '9' }
    else if d == 10 { 'a' }
    else if d == 11 { 'b' }
    else if d == 12 { 'c' }
    else if d == 13 { 'd' }
    else if d == 14 { 'e' }
    else { 'f' }
}

/// What one character contributes to an encoded string.
pub open spec fn escape_char(c: char) -> Seq<char> {
    if c == '"' {
        seq!['\\', '"']
    } else if c == '\\' {
        seq!['\\', '\\']
    } else if c == '\n' {
        seq!['\\', 'n']
    } else if c == '\r' {
        seq!['\\', 'r']
    } else if c == '\t' {
        seq!['\\', 't']
    } else if (c as int) < 32 {
        seq!['\\', 'u', '0', '0', hex_digit_char(c as int / 16), hex_digit_char(c as int % 16)]
    } else {
        seq![c]
    }
}

/// The body of an encoded string: each character escaped in order.
pub open spec fn escape_str(s: Seq<char>) -> Seq<char>
    decreases s.len(),
{
    if s.len() == 0 {
        Seq::empty()
    } else {
        escape_str(s.drop_last()) + escape_char(s.last())
    }
}

/// An encoded string: quote, escaped body, quote.
pub open spec fn json_string(s: Seq<char>) -> Seq<char> {
    seq!['"'] + escape_str(s) + seq!['"']
}

/// An optional string: `null` when absent.
pub open spec fn json_opt_string(o: Option<Seq<char>>) -> Seq<char> {
    match o {
        Some(s) => json_string(s),
        None => "null"@,
    }
}

/// A subsequent string field of an object: comma, name, colon, value.
pub open spec fn json_field(name: Seq<char>, v: Seq<char>) -> Seq<char> {
    seq![','] + json_string(name) + seq![':'] + json_string(v)
}

/// A subsequent optional string field of an object.
pub open spec fn json_opt_field(name: Seq<char>, o: Option<Seq<char>>) -> Seq<char> {
    seq![','] + json_string(name) + seq![':'] + json_opt_string(o)
}

/// The variant tag and the variant's own fields of a document.
pub open spec fn json_data(data: CollectionDataV) -> Seq<char> {
    match data {
        CollectionDataV::Cube(c) => ",\"type\":\"cubes\""@ + json_field("x"@, c.x) + json_field(
            "y"@,
            c.y,
        ) + json_field("z"@, c.z) + json_field("color"@, c.color) + json_field("rotX"@, c.rot_x)
            + json_field("rotY"@, c.rot_y) + json_field("rotZ"@, c.rot_z),
        CollectionDataV::Vertex(v) => ",\"type\":\"vertices\""@ + json_field("x"@, v.x)
            + json_field("y"@, v.y) + json_field("z"@, v.z) + json_field("lineColor"@, v.line_color)
            + json_field("vertexColor"@, v.vertex_color) + json_field("cameraX"@, v.camera_x)
            + json_field("cameraY"@, v.camera_y) + json_field("cameraZ"@, v.camera_z),
        CollectionDataV::Splash(s) => ",\"type\":\"splashes\""@ + json_field("x"@, s.x)
            + json_field("y"@, s.y) + json_field("seed"@, s.seed),
    }
}

/// A whole document: identity fields, then the variant payload.
pub open spec fn json_document(d: DocumentV) -> Seq<char> {
    "{\"_id\":"@ + dec_str(d.id as int) + ",\"_creator\":"@ + json_string(d.creator)
        + ",\"request_id\":"@ + json_opt_string(d.request_id) + json_data(d.data) + "}"@
}

/// The rotation, color-detail and splash fields of a partial update.
pub open spec fn json_changes_tail(ch: DocumentChangesV) -> Seq<char> {
    json_opt_field("rotX"@, ch.rot_x) + json_opt_field("rotY"@, ch.rot_y) + json_opt_field(
        "rotZ"@,
        ch.rot_z,
    ) + json_opt_field("lineColor"@, ch.line_color) + json_opt_field(
        "vertexColor"@,
        ch.vertex_color,
    ) + json_opt_field("cameraX"@, ch.camera_x) + json_opt_field("cameraY"@, ch.camera_y)
        + json_opt_field("cameraZ"@, ch.camera_z) + json_opt_field("seed"@, ch.seed)
}

/// A partial update: every field of every variant, absent ones as `null`.
pub open spec fn json_changes(ch: DocumentChangesV) -> Seq<char> {
    "{\"x\":"@ + json_opt_string(ch.x) + json_opt_field("y"@, ch.y) + json_opt_field("z"@, ch.z)
        + json_opt_field("color"@, ch.color) + json_changes_tail(ch) + "}"@
}

/// One keyed document inside a collection object.
pub open spec fn doc_entry(p: (Seq<char>, DocumentV)) -> Seq<char> {
    json_string(p.0) + seq![':'] + json_document(p.1)
}

/// The comma-joined entries of a collection object.
pub open spec fn docs_body(docs: Seq<(Seq<char>, DocumentV)>) -> Seq<char>
    decreases docs.len(),
{
    if docs.len() == 0 {
        Seq::empty()
    } else if docs.len() == 1 {
        doc_entry(docs[0])
    } else {
        docs_body(docs.drop_last()) + seq![','] + doc_entry(docs.last())
    }
}

/// A collection as the clients see it: a plain object of its documents.
pub open spec fn json_collection_docs(docs: Seq<(Seq<char>, DocumentV)>) -> Seq<char> {
    seq!['{'] + docs_body(docs) + seq!['}']
}

/// One named collection inside a full-sync object.
pub open spec fn sync_entry(p: (Seq<char>, CollectionV)) -> Seq<char> {
    json_string(p.0) + seq![':'] + json_collection_docs(p.1.docs)
}

/// The comma-joined entries of a full-sync object.
pub open spec fn sync_body(colls: Seq<(Seq<char>, CollectionV)>) -> Seq<char>
    decreases colls.len(),
{
    if colls.len() == 0 {
        Seq::empty()
    } else if colls.len() == 1 {
        sync_entry(colls[0])
    } else {
        sync_body(colls.drop_last()) + seq![','] + sync_entry(colls.last())
    }
}

/// All collections as the clients see them.
pub open spec fn json_collections_sync(colls: Seq<(Seq<char>, CollectionV)>) -> Seq<char> {
    seq!['{'] + sync_body(colls) + seq!['}']
}

/// A collection inside a snapshot: its id high-water mark and its documents.
pub open spec fn json_collection_snap(c: CollectionV) -> Seq<char> {
    "{\"last_id\":"@ + dec_str(c.last_id as int) + ",\"docs\":"@ + json_collection_docs(c.docs)
        + "}"@
}

/// One named collection inside a snapshot object.
pub open spec fn snap_entry(p: (Seq<char>, CollectionV)) -> Seq<char> {
    json_string(p.0) + seq![':'] + json_collection_snap(p.1)
}

/// The comma-joined entries of a snapshot's collections object.
pub open spec fn snap_body(colls: Seq<(Seq<char>, CollectionV)>) -> Seq<char>
    decreases colls.len(),
{
    if colls.len() == 0 {
        Seq::empty()
    } else if colls.len() == 1 {
        snap_entry(colls[0])
    } else {
        snap_body(colls.drop_last()) + seq![','] + snap_entry(colls.last())
    }
}

/// All collections as the snapshot stores them.
pub open spec fn json_collections_snap(colls: Seq<(Seq<char>, CollectionV)>) -> Seq<char> {
    seq!['{'] + snap_body(colls) + seq!['}']
}

/// The comma-joined request ids of a snapshot.
pub open spec fn txs_body(txs: Seq<Seq<char>>) -> Seq<char>
    decreases txs.len(),
{
    if txs.len() == 0 {
        Seq::empty()
    } else if txs.len() == 1 {
        json_string(txs[0])
    } else {
        txs_body(txs.drop_last()) + seq![','] + json_string(txs.last())
    }
}

/// The request ids of a snapshot, as an array.
pub open spec fn json_txs(txs: Seq<Seq<char>>) -> Seq<char> {
    seq!['['] + txs_body(txs) + seq![']']
}

/// A whole session snapshot, as the persistence queue carries it.
pub open spec fn json_lobby_snapshot(l: LobbyV) -> Seq<char> {
    "{\"process_id\":"@ + json_string(l.process_id) + ",\"collections\":"@ + json_collections_snap(
        l.collections,
    ) + ",\"processed_txs\":"@ + json_txs(l.processed_txs) + ",\"hot\":"@ + (if l.hot {
        "true"@
    } else {
        "false"@
    }) + "}"@
}

/// Appends the characters of `s` unchanged.
pub fn push_raw(out: &mut Vec<char>, s: &str)
    ensures
        final(out)@ == old(out)@ + s@,
{
    let n = s.unicode_len();
    let mut i: usize = 0;
    while i < n
        invariant
            i <= n,
            n == s@.len(),
            out@ == old(out)@ + s@.take(i as int),
        decreases n - i,
    {
        out.push(s.get_char(i));
        proof {
            assert(s@.take(i + 1) =~= s@.take(i as int).push(s@[i as int]));
            assert(out@ =~= old(out)@ + s@.take(i + 1));
        }
        i += 1;
    }
    proof {
        assert(s@.take(n as int) =~= s@);
    }
}

/// The character of a hexadecimal digit value.
fn hex_to_char(d: u32) -> (c: char)
    requires
        d < 16,
    ensures
        c == hex_digit_char(d as int),
{
    match d {
        0 => '0',
        1 => '1',
        2 => '2',
        3 => '3',
        4 => '4',
        5 => '5',
        6 => '6',
        7 => '7',
        8 => '8',
        9 => '9',
        10 => 'a',
        11 => 'b',
        12 => 'c',
        13 => 'd',
        14 => 'e',
        _ => 'f',
    }
}

/// Appends `s` as an encoded string, per `json_string`.
pub fn push_json_str(out: &mut Vec<char>, s: &str)
    ensures
        final(out)@ == old(out)@ + json_string(s@),
{
    out.push('"');
    let ghost base = out@;
    let n = s.unicode_len();
    let mut i: usize = 0;
    while i < n
        invariant
            i <= n,
            n == s@.len(),
            base == old(out)@.push('"'),
            out@ == base + escape_str(s@.take(i as int)),
        decreases n - i,
    {
        proof {
            assert(s@.take(i + 1).drop_last() =~= s@.take(i as int));
            assert(s@.take(i + 1).last() == s@[i as int]);
        }
        let c = s.get_char(i);
        if c == '"' {
            out.push('\\');
            out.push('"');
        } else if c == '\\' {
            out.push('\\');
            out.push('\\');
        } else if c == '\n' {
            out.push('\\');
            out.push('n');
        } else if c == '\r' {
            out.push('\\');
            out.push('r');
        } else if c == '\t' {
            out.push('\\');
            out.push('t');
        } else if (c as u32) < 32 {
            let u = c as u32;
            out.push('\\');
            out.push('u');
            out.push('0');
            out.push('0');
            out.push(hex_to_char(u / 16));
            out.push(hex_to_char(u % 16));
        } else {
            out.push(c);
        }
        proof {
            assert(out@ =~= base + escape_str(s@.take(i + 1)));
        }
        i += 1;
    }
    out.push('"');
    proof {
        assert(s@.take(n as int) =~= s@);
        assert(out@ =~= old(out)@ + json_string(s@));
    }
}

/// Appends an optional string, per `json_opt_string`.
pub fn push_json_opt(out: &mut Vec<char>, o: &Option<String>)
    ensures
        final(out)@ == old(out)@ + json_opt_string(opt_view(*o)),
{
    match o {
        Some(s) => push_json_str(out, s.as_str()),
        None => push_raw(out, "null"),
    }
}

/// Appends a subsequent string field, per `json_field`.
fn push_field(out: &mut Vec<char>, name: &str, v: &String)
    ensures
        final(out)@ == old(out)@ + json_field(name@, v@),
{
    out.push(',');
    push_json_str(out, name);
    out.push(':');
    push_json_str(out, v.as_str());
    proof {
        assert(out@ =~= old(out)@ + json_field(name@, v@));
    }
}

/// Appends a subsequent optional string field, per `json_opt_field`.
fn push_opt_field(out: &mut Vec<char>, name: &str, o: &Option<String>)
    ensures
        final(out)@ == old(out)@ + json_opt_field(name@, opt_view(*o)),
{
    out.push(',');
    push_json_str(out, name);
    out.push(':');
    push_json_opt(out, o);
    proof {
        assert(out@ =~= old(out)@ + json_opt_field(name@, opt_view(*o)));
    }
}

/// Appends the variant tag and the variant's fields, per `json_data`.
#[verifier::rlimit(100)]
fn push_data(out: &mut Vec<char>, data: &CollectionData)
    ensures
        final(out)@ == old(out)@ + json_data(data@),
{
    match data {
        CollectionData::Cube(c) => {
            push_raw(out, ",\"type\":\"cubes\"");
            push_field(out, "x", &c.x);
            push_field(out, "y", &c.y);
            push_field(out, "z", &c.z);
            push_field(out, "color", &c.color);
            push_field(out, "rotX", &c.rot_x);
            push_field(out, "rotY", &c.rot_y);
            push_field(out, "rotZ", &c.rot_z);
            proof {
                assert(out@ =~= old(out)@ + json_data(data@));
            }
        },
        CollectionData::Vertex(v) => {
            push_raw(out, ",\"type\":\"vertices\"");
            push_field(out, "x", &v.x);
            push_field(out, "y", &v.y);
            push_field(out, "z", &v.z);
            push_field(out, "lineColor", &v.line_color);
            push_field(out, "vertexColor", &v.vertex_color);
            push_field(out, "cameraX", &v.camera_x);
            push_field(out, "cameraY", &v.camera_y);
            push_field(out, "cameraZ", &v.camera_z);
            proof {
                assert(out@ =~= old(out)@ + json_data(data@));
            }
        },
        CollectionData::Splash(sp) => {
            push_raw(out, ",\"type\":\"splashes\"");
            push_field(out, "x", &sp.x);
            push_field(out, "y", &sp.y);
            push_field(out, "seed", &sp.seed);
            proof {
                assert(out@ =~= old(out)@ + json_data(data@));
            }
        },
    }
}

/// Appends a whole document, per `json_document`.
#[verifier::rlimit(100)]
pub fn push_document(out: &mut Vec<char>, d: &Document)
    ensures
        final(out)@ == old(out)@ + json_document(d@),
{
    push_raw(out, "{\"_id\":");
    push_dec(out, d.id);
    push_raw(out, ",\"_creator\":");
    push_json_str(out, d.creator.as_str());
    push_raw(out, ",\"request_id\":");
    push_json_opt(out, &d.request_id);
    push_data(out, &d.data);
    push_raw(out, "}");
    proof {
        assert(out@ =~= old(out)@ + json_document(d@));
    }
}

/// Appends the tail fields of a partial update, per `json_changes_tail`.
#[verifier::rlimit(100)]
fn push_changes_tail(out: &mut Vec<char>, ch: &DocumentChanges)
    ensures
        final(out)@ == old(out)@ + json_changes_tail(ch@),
{
    push_opt_field(out, "rotX", &ch.rot_x);
    push_opt_field(out, "rotY", &ch.rot_y);
    push_opt_field(out, "rotZ", &ch.rot_z);
    push_opt_field(out, "lineColor", &ch.line_color);
    push_opt_field(out, "vertexColor", &ch.vertex_color);
    push_opt_field(out, "cameraX", &ch.camera_x);
    push_opt_field(out, "cameraY", &ch.camera_y);
    push_opt_field(out, "cameraZ", &ch.camera_z);
    push_opt_field(out, "seed", &ch.seed);
    proof {
        assert(out@ =~= old(out)@ + json_changes_tail(ch@));
    }
}

/// Appends a partial update, per `json_changes`.
#[verifier::rlimit(100)]
pub fn push_changes(out: &mut Vec<char>, ch: &DocumentChanges)
    ensures
        final(out)@ == old(out)@ + json_changes(ch@),
{
    push_raw(out, "{\"x\":");
    push_json_opt(out, &ch.x);
    push_opt_field(out, "y", &ch.y);
    push_opt_field(out, "z", &ch.z);
    push_opt_field(out, "color", &ch.color);
    push_changes_tail(out, ch);
    push_raw(out, "}");
    proof {
        assert(out@ =~= old(out)@ + json_changes(ch@));
    }
}

/// Appends a collection's documents object, per `json_collection_docs`.
#[verifier::rlimit(100)]
pub fn push_collection_docs(out: &mut Vec<char>, docs: &Vec<(String, Document)>)
    ensures
        final(out)@ == old(out)@ + json_collection_docs(docs_view(docs@)),
{
    out.push('{');
    let ghost base = out@;
    let ghost dv = docs_view(docs@);
    let mut i: usize = 0;
    while i < docs.len()
        invariant
            i <= docs@.len(),
            dv == docs_view(docs@),
            base == old(out)@.push('{'),
            out@ == base + docs_body(dv.take(i as int)),
        decreases docs@.len() - i,
    {
        proof {
            assert(dv.take(i + 1).drop_last() =~= dv.take(i as int));
            assert(dv.take(i + 1).last() == dv[i as int]);
        }
        if i > 0 {
            out.push(',');
        }
        push_json_str(out, docs[i].0.as_str());
        out.push(':');
        push_document(out, &docs[i].1);
        proof {
            assert(out@ =~= base + docs_body(dv.take(i + 1)));
        }
        i += 1;
    }
    out.push('}');
    proof {
        assert(dv.take(docs@.len() as int) =~= dv);
        assert(out@ =~= old(out)@ + json_collection_docs(dv));
    }
}

/// Appends all collections as the clients see them, per
/// `json_collections_sync`.
#[verifier::rlimit(100)]
pub fn push_collections_sync(out: &mut Vec<char>, c: &Collections)
    ensures
        final(out)@ == old(out)@ + json_collections_sync(c@),
{
    out.push('{');
    let ghost base = out@;
    let ghost cvs = c@;
    let mut i: usize = 0;
    while i < c.entries.len()
        invariant
            i <= c.entries@.len(),
            cvs == c@,
            base == old(out)@.push('{'),
            out@ == base + sync_body(cvs.take(i as int)),
        decreases c.entries@.len() - i,
    {
        proof {
            assert(cvs.take(i + 1).drop_last() =~= cvs.take(i as int));
            assert(cvs.take(i + 1).last() == cvs[i as int]);
        }
        if i > 0 {
            out.push(',');
        }
        push_json_str(out, c.entries[i].0.as_str());
        out.push(':');
        push_collection_docs(out, &c.entries[i].1.docs);
        proof {
            assert(out@ =~= base + sync_body(cvs.take(i + 1)));
        }
        i += 1;
    }
    out.push('}');
    proof {
        assert(cvs.take(c.entries@.len() as int) =~= cvs);
        assert(out@ =~= old(out)@ + json_collections_sync(cvs));
    }
}

/// Appends one collection as the snapshot stores it, per
/// `json_collection_snap`.
fn push_collection_snap(out: &mut Vec<char>, c: &Collection)
    ensures
        final(out)@ == old(out)@ + json_collection_snap(c@),
{
    push_raw(out, "{\"last_id\":");
    push_dec(out, c.last_id);
    push_raw(out, ",\"docs\":");
    push_collection_docs(out, &c.docs);
    push_raw(out, "}");
    proof {
        assert(out@ =~= old(out)@ + json_collection_snap(c@));
    }
}

/// Appends all collections as the snapshot stores them, per
/// `json_collections_snap`.
#[verifier::rlimit(100)]
fn push_collections_snap(out: &mut Vec<char>, c: &Collections)
    ensures
        final(out)@ == old(out)@ + json_collections_snap(c@),
{
    out.push('{');
    let ghost base = out@;
    let ghost cvs = c@;
    let mut i: usize = 0;
    while i < c.entries.len()
        invariant
            i <= c.entries@.len(),
            cvs == c@,
            base == old(out)@.push('{'),
            out@ == base + snap_body(cvs.take(i as int)),
        decreases c.entries@.len() - i,
    {
        proof {
            assert(cvs.take(i + 1).drop_last() =~= cvs.take(i as int));
            assert(cvs.take(i + 1).last() == cvs[i as int]);
        }
        if i > 0 {
            out.push(',');
        }
        push_json_str(out, c.entries[i].0.as_str());
        out.push(':');
        push_collection_snap(out, &c.entries[i].1);
        proof {
            assert(out@ =~= base + snap_body(cvs.take(i + 1)));
        }
        i += 1;
    }
    out.push('}');
    proof {
        assert(cvs.take(c.entries@.len() as int) =~= cvs);
        assert(out@ =~= old(out)@ + json_collections_snap(cvs));
    }
}

/// Appends the request-id array of a snapshot, per `json_txs`.
fn push_txs(out: &mut Vec<char>, txs: &Vec<String>)
    ensures
        final(out)@ == old(out)@ + json_txs(txs@.map_values(|s: String| s@)),
{
    out.push('[');
    let ghost base = out@;
    let ghost tv = txs@.map_values(|s: String| s@);
    let mut i: usize = 0;
    while i < txs.len()
        invariant
            i <= txs@.len(),
            tv == txs@.map_values(|s: String| s@),
            base == old(out)@.push('['),
            out@ == base + txs_body(tv.take(i as int)),
        decreases txs@.len() - i,
    {
        proof {
            assert(tv.take(i + 1).drop_last() =~= tv.take(i as int));
            assert(tv.take(i + 1).last() == tv[i as int]);
        }
        if i > 0 {
            out.push(',');
        }
        push_json_str(out, txs[i].as_str());
        proof {
            assert(out@ =~= base + txs_body(tv.take(i + 1)));
        }
        i += 1;
    }
    out.push(']');
    proof {
        assert(tv.take(txs@.len() as int) =~= tv);
        assert(out@ =~= old(out)@ + json_txs(tv));
    }
}

/// The serialized snapshot of a whole session, per `json_lobby_snapshot`.
pub fn lobby_snapshot_json(l: &Lobby) -> (r: String)
    ensures
        r@ == json_lobby_snapshot(l@),
{
    let mut out: Vec<char> = Vec::new();
    push_raw(&mut out, "{\"process_id\":");
    push_json_str(&mut out, l.process_id.as_str());
    push_raw(&mut out, ",\"collections\":");
    push_collections_snap(&mut out, &l.collections);
    push_raw(&mut out, ",\"processed_txs\":");
    push_txs(&mut out, &l.processed_txs);
    push_raw(&mut out, ",\"hot\":");
    if l.hot {
        push_raw(&mut out, "true");
    } else {
        push_raw(&mut out, "false");
    }
    push_raw(&mut out, "}");
    proof {
        assert(out@ =~= json_lobby_snapshot(l@));
    }
    chars_to_string(&out)
}

} // verus!
