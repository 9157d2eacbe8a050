//! The data carried into and out of every command.
//!
//! Names and paths are byte strings: the project file format stores them
//! as raw bytes, and all name arithmetic (stem derivation, file-name
//! building) is defined on bytes.  The host layer converts to and from
//! platform strings at the boundary.

use vstd::prelude::*;

verus! {

/// One still image to export: a raw RGBA8 buffer with its dimensions and
/// a suggested file name.
pub struct ImageMessage {
    pub width: u32,
    pub height: u32,
    pub name: Vec<u8>,
    pub data: Vec<u8>,
}

/// A batch of images of shared dimensions to export one file each.
pub struct ImagesMessage {
    pub width: u32,
    pub height: u32,
    pub name: Vec<u8>,
    pub data: Vec<Vec<u8>>,
}

/// A batch of frames of shared dimensions to export as one animated GIF,
/// played at `fps` frames per second.
pub struct ImagesMessageGif {
    pub width: u32,
    pub height: u32,
    pub name: Vec<u8>,
    pub data: Vec<Vec<u8>>,
    pub fps: u32,
}

/// The target dimensions for an image import.
pub struct ImageSize {
    pub width: u32,
    pub height: u32,
}

/// One named raster plane of a frame.
pub struct LayerMessage {
    pub name: Vec<u8>,
    pub data: Vec<u8>,
}

/// One step of the animation: its layers in compositing order.
pub struct FrameMessage {
    pub layers: Vec<LayerMessage>,
}

/// The whole editable document: display name, shared raster dimensions,
/// frames in playback order, palettes, and the backing file path (empty
/// until the first save).
pub struct ProjectMessage {
    pub name: Vec<u8>,
    pub width: u32,
    pub height: u32,
    pub frames: Vec<FrameMessage>,
    pub colors: Vec<Vec<u32>>,
    pub path: Vec<u8>,
}

/// Mathematical value of a `LayerMessage`.
#[verifier::ext_equal]
pub struct LayerView {
    pub name: Seq<u8>,
    pub data: Seq<u8>,
}

/// Mathematical value of a `FrameMessage`.
#[verifier::ext_equal]
pub struct FrameView {
    pub layers: Seq<LayerView>,
}

/// Mathematical value of a `ProjectMessage`.
#[verifier::ext_equal]
pub struct ProjectView {
    pub name: Seq<u8>,
    pub width: u32,
    pub height: u32,
    pub frames: Seq<FrameView>,
    pub colors: Seq<Seq<u32>>,
    pub path: Seq<u8>,
}

impl View for LayerMessage {
    type V = LayerView;

    open spec fn view(&self) -> LayerView {
        LayerView { name: self.name@, data: self.data@ }
    }
}

impl View for FrameMessage {
    type V = FrameView;

    open spec fn view(&self) -> FrameView {
        FrameView { layers: self.layers@.map_values(|l: LayerMessage| l@) }
    }
}

impl View for ProjectMessage {
    type V = ProjectView;

    open spec fn view(&self) -> ProjectView {
        ProjectView {
            name: self.name@,
            width: self.width,
            height: self.height,
            frames: self.frames@.map_values(|f: FrameMessage| f@),
            colors: self.colors@.map_values(|c: Vec<u32>| c@),
            path: self.path@,
        }
    }
}

} // verus!
