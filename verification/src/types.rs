//! The document model: three document variants, the document record itself,
//! and the partial-update record. Each executable type has a view over
//! character sequences so that contracts can speak of its contents.
use vstd::prelude::*;

verus! {

/// A vertex document's payload.
#[derive(Debug, Clone)]
pub struct Vertex {
    pub x: String,
    pub y: String,
    pub z: String,
    pub line_color: String,
    pub vertex_color: String,
    pub camera_x: String,
    pub camera_y: String,
    pub camera_z: String,
}

/// The view of a `Vertex`.
#[verifier::ext_equal]
pub struct VertexV {
    pub x: Seq<char>,
    pub y: Seq<char>,
    pub z: Seq<char>,
    pub line_color: Seq<char>,
    pub vertex_color: Seq<char>,
    pub camera_x: Seq<char>,
    pub camera_y: Seq<char>,
    pub camera_z: Seq<char>,
}

impl View for Vertex {
    type V = VertexV;

    open spec fn view(&self) -> VertexV {
        VertexV {
            x: self.x@,
            y: self.y@,
            z: self.z@,
            line_color: self.line_color@,
            vertex_color: self.vertex_color@,
            camera_x: self.camera_x@,
            camera_y: self.camera_y@,
            camera_z: self.camera_z@,
        }
    }
}

/// A cube document's payload.
#[derive(Debug, Clone)]
pub struct Cube {
    pub x: String,
    pub y: String,
    pub z: String,
    pub color: String,
    pub rot_x: String,
    pub rot_y: String,
    pub rot_z: String,
}

/// The view of a `Cube`.
#[verifier::ext_equal]
pub struct CubeV {
    pub x: Seq<char>,
    pub y: Seq<char>,
    pub z: Seq<char>,
    pub color: Seq<char>,
    pub rot_x: Seq<char>,
    pub rot_y: Seq<char>,
    pub rot_z: Seq<char>,
}

impl View for Cube {
    type V = CubeV;

    open spec fn view(&self) -> CubeV {
        CubeV {
            x: self.x@,
            y: self.y@,
            z: self.z@,
            color: self.color@,
            rot_x: self.rot_x@,
            rot_y: self.rot_y@,
            rot_z: self.rot_z@,
        }
    }
}

/// A splash document's payload.
#[derive(Debug, Clone)]
pub struct Splash {
    pub x: String,
    pub y: String,
    pub seed: String,
}

/// The view of a `Splash`.
#[verifier::ext_equal]
pub struct SplashV {
    pub x: Seq<char>,
    pub y: Seq<char>,
    pub seed: Seq<char>,
}

impl View for Splash {
    type V = SplashV;

    open spec fn view(&self) -> SplashV {
        SplashV { x: self.x@, y: self.y@, seed: self.seed@ }
    }
}

/// The variant payload of a document: one collection holds documents of one
/// kind.
#[derive(Debug, Clone)]
pub enum CollectionData {
    Cube(Cube),
    Vertex(Vertex),
    Splash(Splash),
}

/// The view of a `CollectionData`.
#[verifier::ext_equal]
pub enum CollectionDataV {
    Cube(CubeV),
    Vertex(VertexV),
    Splash(SplashV),
}

impl View for CollectionData {
    type V = CollectionDataV;

    open spec fn view(&self) -> CollectionDataV {
        match self {
            CollectionData::Cube(c) => CollectionDataV::Cube(c@),
            CollectionData::Vertex(v) => CollectionDataV::Vertex(v@),
            CollectionData::Splash(s) => CollectionDataV::Splash(s@),
        }
    }
}

/// A single addressable record in a collection.
#[derive(Debug, Clone)]
pub struct Document {
    pub id: u64,
    pub creator: String,
    pub request_id: Option<String>,
    pub data: CollectionData,
}

/// The view of a `Document`.
#[verifier::ext_equal]
pub struct DocumentV {
    pub id: u64,
    pub creator: Seq<char>,
    pub request_id: Option<Seq<char>>,
    pub data: CollectionDataV,
}

impl View for Document {
    type V = DocumentV;

    open spec fn view(&self) -> DocumentV {
        DocumentV {
            id: self.id,
            creator: self.creator@,
            request_id: match self.request_id {
                Some(ref r) => Some(r@),
                None => None,
            },
            data: self.data@,
        }
    }
}

/// A partial update: a value for each field present, spanning every variant's
/// field set; fields irrelevant to a document's variant are ignored.
#[derive(Debug, Clone)]
pub struct DocumentChanges {
    pub x: Option<String>,
    pub y: Option<String>,
    pub z: Option<String>,
    pub color: Option<String>,
    pub rot_x: Option<String>,
    pub rot_y: Option<String>,
    pub rot_z: Option<String>,
    pub line_color: Option<String>,
    pub vertex_color: Option<String>,
    pub camera_x: Option<String>,
    pub camera_y: Option<String>,
    pub camera_z: Option<String>,
    pub seed: Option<String>,
}

/// The view of a `DocumentChanges`.
#[verifier::ext_equal]
pub struct DocumentChangesV {
    pub x: Option<Seq<char>>,
    pub y: Option<Seq<char>>,
    pub z: Option<Seq<char>>,
    pub color: Option<Seq<char>>,
    pub rot_x: Option<Seq<char>>,
    pub rot_y: Option<Seq<char>>,
    pub rot_z: Option<Seq<char>>,
    pub line_color: Option<Seq<char>>,
    pub vertex_color: Option<Seq<char>>,
    pub camera_x: Option<Seq<char>>,
    pub camera_y: Option<Seq<char>>,
    pub camera_z: Option<Seq<char>>,
    pub seed: Option<Seq<char>>,
}

/// The view of an optional owned string.
pub open spec fn opt_view(o: Option<String>) -> Option<Seq<char>> {
    match o {
        Some(s) => Some(s@),
        None => None,
    }
}

impl View for DocumentChanges {
    type V = DocumentChangesV;

    open spec fn view(&self) -> DocumentChangesV {
        DocumentChangesV {
            x: opt_view(self.x),
            y: opt_view(self.y),
            z: opt_view(self.z),
            color: opt_view(self.color),
            rot_x: opt_view(self.rot_x),
            rot_y: opt_view(self.rot_y),
            rot_z: opt_view(self.rot_z),
            line_color: opt_view(self.line_color),
            vertex_color: opt_view(self.vertex_color),
            camera_x: opt_view(self.camera_x),
            camera_y: opt_view(self.camera_y),
            camera_z: opt_view(self.camera_z),
            seed: opt_view(self.seed),
        }
    }
}

impl Default for Vertex {
    /// A vertex with every field empty.
    fn default() -> (r: Self)
        ensures
            r@.x == Seq::<char>::empty(),
            r@.y == Seq::<char>::empty(),
            r@.z == Seq::<char>::empty(),
            r@.line_color == Seq::<char>::empty(),
            r@.vertex_color == Seq::<char>::empty(),
            r@.camera_x == Seq::<char>::empty(),
            r@.camera_y == Seq::<char>::empty(),
            r@.camera_z == Seq::<char>::empty(),
    {
        Vertex {
            x: String::new(),
            y: String::new(),
            z: String::new(),
            line_color: String::new(),
            vertex_color: String::new(),
            camera_x: String::new(),
            camera_y: String::new(),
            camera_z: String::new(),
        }
    }
}

impl Default for Cube {
    /// A cube with every field empty.
    fn default() -> (r: Self)
        ensures
            r@.x == Seq::<char>::empty(),
            r@.y == Seq::<char>::empty(),
            r@.z == Seq::<char>::empty(),
            r@.color == Seq::<char>::empty(),
            r@.rot_x == Seq::<char>::empty(),
            r@.rot_y == Seq::<char>::empty(),
            r@.rot_z == Seq::<char>::empty(),
    {
        Cube {
            x: String::new(),
            y: String::new(),
            z: String::new(),
            color: String::new(),
            rot_x: String::new(),
            rot_y: String::new(),
            rot_z: String::new(),
        }
    }
}

impl Default for Splash {
    /// A splash with every field empty.
    fn default() -> (r: Self)
        ensures
            r@.x == Seq::<char>::empty(),
            r@.y == Seq::<char>::empty(),
            r@.seed == Seq::<char>::empty(),
    {
        Splash { x: String::new(), y: String::new(), seed: String::new() }
    }
}

impl Default for DocumentChanges {
    /// A patch with no field present.
    fn default() -> (r: Self)
        ensures
            r@ == (DocumentChangesV {
                x: None,
                y: None,
                z: None,
                color: None,
                rot_x: None,
                rot_y: None,
                rot_z: None,
                line_color: None,
                vertex_color: None,
                camera_x: None,
                camera_y: None,
                camera_z: None,
                seed: None,
            }),
    {
        DocumentChanges {
            x: None,
            y: None,
            z: None,
            color: None,
            rot_x: None,
            rot_y: None,
            rot_z: None,
            line_color: None,
            vertex_color: None,
            camera_x: None,
            camera_y: None,
            camera_z: None,
            seed: None,
        }
    }
}

impl Document {
    /// An exact copy of the document.
    pub fn duplicate(&self) -> (r: Document)
        ensures
            r@ == self@,
    {
        let r = Document {
            id: self.id,
            creator: self.creator.clone(),
            request_id: match &self.request_id {
                Some(s) => Some(s.clone()),
                None => None,
            },
            data: match &self.data {
                CollectionData::Cube(c) => CollectionData::Cube(Cube {
                    x: c.x.clone(),
                    y: c.y.clone(),
                    z: c.z.clone(),
                    color: c.color.clone(),
                    rot_x: c.rot_x.clone(),
                    rot_y: c.rot_y.clone(),
                    rot_z: c.rot_z.clone(),
                }),
                CollectionData::Vertex(v) => CollectionData::Vertex(Vertex {
                    x: v.x.clone(),
                    y: v.y.clone(),
                    z: v.z.clone(),
                    line_color: v.line_color.clone(),
                    vertex_color: v.vertex_color.clone(),
                    camera_x: v.camera_x.clone(),
                    camera_y: v.camera_y.clone(),
                    camera_z: v.camera_z.clone(),
                }),
                CollectionData::Splash(s) => CollectionData::Splash(Splash {
                    x: s.x.clone(),
                    y: s.y.clone(),
                    seed: s.seed.clone(),
                }),
            },
        };
        proof {
            assert(r@ =~= self@);
        }
        r
    }
}

} // verus!
