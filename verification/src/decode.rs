//! Parsing the `.quad` project encoding.
//!
//! `parse_project` is the specification-level parser: a total function
//! from a byte sequence to the project it encodes, or `None` when the
//! bytes do not match the structure.  `decode_project` is the executable
//! decoder, proved to return exactly what `parse_project` says.

use vstd::bytes::*;
use vstd::prelude::*;
use vstd::slice::{slice_subrange, slice_to_vec};

use crate::errors::CommandError;
use crate::messages::{
    FrameMessage, FrameView, LayerMessage, LayerView, ProjectMessage, ProjectView,
};

verus! {

/// Reads a little-endian 64-bit integer.
pub open spec fn sp_u64(s: Seq<u8>, i: int) -> Option<(u64, int)> {
    if 0 <= i && i + 8 <= s.len() {
        Some((spec_u64_from_le_bytes(s.subrange(i, i + 8)), i + 8))
    } else {
        None
    }
}

/// Reads a little-endian 32-bit integer.
pub open spec fn sp_u32(s: Seq<u8>, i: int) -> Option<(u32, int)> {
    if 0 <= i && i + 4 <= s.len() {
        Some((spec_u32_from_le_bytes(s.subrange(i, i + 4)), i + 4))
    } else {
        None
    }
}

/// Reads `n` raw bytes.
pub open spec fn sp_raw(s: Seq<u8>, i: int, n: int) -> Option<(Seq<u8>, int)> {
    if 0 <= i && 0 <= n && i + n <= s.len() {
        Some((s.subrange(i, i + n), i + n))
    } else {
        None
    }
}

/// Reads a length-prefixed byte string.
pub open spec fn sp_lp(s: Seq<u8>, i: int) -> Option<(Seq<u8>, int)> {
    match sp_u64(s, i) {
        None => None,
        Some((n, j)) => sp_raw(s, j, n as int),
    }
}

/// Reads one layer: its name, then its pixel data.
pub open spec fn sp_layer(s: Seq<u8>, i: int) -> Option<(LayerView, int)> {
    match sp_lp(s, i) {
        None => None,
        Some((name, j)) => match sp_lp(s, j) {
            None => None,
            Some((data, k)) => Some((LayerView { name, data }, k)),
        },
    }
}

/// Reads `n` layers in order.
pub open spec fn sp_layers(s: Seq<u8>, i: int, n: nat) -> Option<(Seq<LayerView>, int)>
    decreases n,
{
    if n == 0 {
        Some((Seq::empty(), i))
    } else {
        match sp_layer(s, i) {
            None => None,
            Some((l, j)) => match sp_layers(s, j, (n - 1) as nat) {
                None => None,
                Some((ls, k)) => Some((seq![l] + ls, k)),
            },
        }
    }
}

/// Reads one frame: its layer count, then its layers.
pub open spec fn sp_frame(s: Seq<u8>, i: int) -> Option<(FrameView, int)> {
    match sp_u64(s, i) {
        None => None,
        Some((n, j)) => match sp_layers(s, j, n as nat) {
            None => None,
            Some((ls, k)) => Some((FrameView { layers: ls }, k)),
        },
    }
}

/// Reads `n` frames in order.
pub open spec fn sp_frames(s: Seq<u8>, i: int, n: nat) -> Option<(Seq<FrameView>, int)>
    decreases n,
{
    if n == 0 {
        Some((Seq::empty(), i))
    } else {
        match sp_frame(s, i) {
            None => None,
            Some((f, j)) => match sp_frames(s, j, (n - 1) as nat) {
                None => None,
                Some((fs, k)) => Some((seq![f] + fs, k)),
            },
        }
    }
}

/// Reads `n` packed colors in order.
pub open spec fn sp_colors_run(s: Seq<u8>, i: int, n: nat) -> Option<(Seq<u32>, int)>
    decreases n,
{
    if n == 0 {
        Some((Seq::empty(), i))
    } else {
        match sp_u32(s, i) {
            None => None,
            Some((x, j)) => match sp_colors_run(s, j, (n - 1) as nat) {
                None => None,
                Some((c, k)) => Some((seq![x] + c, k)),
            },
        }
    }
}

/// Reads one palette: its color count, then its colors.
pub open spec fn sp_palette(s: Seq<u8>, i: int) -> Option<(Seq<u32>, int)> {
    match sp_u64(s, i) {
        None => None,
        Some((n, j)) => sp_colors_run(s, j, n as nat),
    }
}

/// Reads `n` palettes in order.
pub open spec fn sp_palettes(s: Seq<u8>, i: int, n: nat) -> Option<(Seq<Seq<u32>>, int)>
    decreases n,
{
    if n == 0 {
        Some((Seq::empty(), i))
    } else {
        match sp_palette(s, i) {
            None => None,
            Some((c, j)) => match sp_palettes(s, j, (n - 1) as nat) {
                None => None,
                Some((cs, k)) => Some((seq![c] + cs, k)),
            },
        }
    }
}

/// Reads a whole project record, field by field.
pub open spec fn sp_project(s: Seq<u8>, i: int) -> Option<(ProjectView, int)> {
    match sp_lp(s, i) {
        None => None,
        Some((name, i1)) => match sp_u32(s, i1) {
            None => None,
            Some((width, i2)) => match sp_u32(s, i2) {
                None => None,
                Some((height, i3)) => match sp_u64(s, i3) {
                    None => None,
                    Some((nf, i4)) => match sp_frames(s, i4, nf as nat) {
                        None => None,
                        Some((frames, i5)) => match sp_u64(s, i5) {
                            None => None,
                            Some((nc, i6)) => match sp_palettes(s, i6, nc as nat) {
                                None => None,
                                Some((colors, i7)) => match sp_lp(s, i7) {
                                    None => None,
                                    Some((path, i8)) => Some(
                                        (
                                            ProjectView {
                                                name,
                                                width,
                                                height,
                                                frames,
                                                colors,
                                                path,
                                            },
                                            i8,
                                        ),
                                    ),
                                },
                            },
                        },
                    },
                },
            },
        },
    }
}

/// The project a byte sequence encodes, if it encodes one and nothing
/// more: the record must consume every byte.
pub open spec fn parse_project(s: Seq<u8>) -> Option<ProjectView> {
    match sp_project(s, 0) {
        None => None,
        Some((p, j)) => if j == s.len() {
            Some(p)
        } else {
            None
        },
    }
}

fn p_u64(s: &Vec<u8>, i: usize) -> (r: Option<(u64, usize)>)
    requires
        i <= s.len(),
    ensures
        match r {
            Some((x, j)) => sp_u64(s@, i as int) == Some((x, j as int)) && j <= s.len(),
            None => sp_u64(s@, i as int) is None,
        },
{
    if s.len() - i >= 8 {
        let sub = slice_subrange(s.as_slice(), i, i + 8);
        Some((u64_from_le_bytes(sub), i + 8))
    } else {
        None
    }
}

fn p_u32(s: &Vec<u8>, i: usize) -> (r: Option<(u32, usize)>)
    requires
        i <= s.len(),
    ensures
        match r {
            Some((x, j)) => sp_u32(s@, i as int) == Some((x, j as int)) && j <= s.len(),
            None => sp_u32(s@, i as int) is None,
        },
{
    if s.len() - i >= 4 {
        let sub = slice_subrange(s.as_slice(), i, i + 4);
        Some((u32_from_le_bytes(sub), i + 4))
    } else {
        None
    }
}

fn p_lp(s: &Vec<u8>, i: usize) -> (r: Option<(Vec<u8>, usize)>)
    requires
        i <= s.len(),
    ensures
        match r {
            Some((b, j)) => sp_lp(s@, i as int) == Some((b@, j as int)) && j <= s.len(),
            None => sp_lp(s@, i as int) is None,
        },
{
    match p_u64(s, i) {
        None => None,
        Some((n, j)) => {
            if n <= (s.len() - j) as u64 {
                let m = n as usize;
                let sub = slice_subrange(s.as_slice(), j, j + m);
                Some((slice_to_vec(sub), j + m))
            } else {
                None
            }
        },
    }
}

fn p_layer(s: &Vec<u8>, i: usize) -> (r: Option<(LayerMessage, usize)>)
    requires
        i <= s.len(),
    ensures
        match r {
            Some((l, j)) => sp_layer(s@, i as int) == Some((l@, j as int)) && j <= s.len(),
            None => sp_layer(s@, i as int) is None,
        },
{
    match p_lp(s, i) {
        None => None,
        Some((name, j)) => match p_lp(s, j) {
            None => None,
            Some((data, k)) => Some((LayerMessage { name, data }, k)),
        },
    }
}

fn p_layers(s: &Vec<u8>, i: usize, n: u64) -> (r: Option<(Vec<LayerMessage>, usize)>)
    requires
        i <= s.len(),
    ensures
        match r {
            Some((ls, j)) => sp_layers(s@, i as int, n as nat) == Some(
                (ls@.map_values(|l: LayerMessage| l@), j as int),
            ) && j <= s.len(),
            None => sp_layers(s@, i as int, n as nat) is None,
        },
{
    let mut acc: Vec<LayerMessage> = Vec::new();
    let mut pos: usize = i;
    let mut k: u64 = 0;
    assert(acc@.map_values(|l: LayerMessage| l@) =~= Seq::<LayerView>::empty());
    while k < n
        invariant
            pos <= s.len(),
            k <= n,
            match sp_layers(s@, pos as int, (n - k) as nat) {
                Some((rest, j)) => sp_layers(s@, i as int, n as nat) == Some(
                    (acc@.map_values(|l: LayerMessage| l@) + rest, j),
                ),
                None => sp_layers(s@, i as int, n as nat) is None,
            },
        decreases n - k,
    {
        match p_layer(s, pos) {
            None => {
                return None;
            },
            Some((l, j)) => {
                proof {
                    let m = (n - k) as nat;
                    let tail = sp_layers(s@, j as int, (m - 1) as nat);
                    if tail is Some {
                        let (rest, e) = tail.unwrap();
                        assert(sp_layers(s@, pos as int, m) == Some((seq![l@] + rest, e)));
                        assert(acc@.map_values(|q: LayerMessage| q@) + (seq![l@] + rest) =~= acc@.push(
                            l,
                        ).map_values(|q: LayerMessage| q@) + rest);
                    }
                }
                acc.push(l);
                pos = j;
                k = k + 1;
            },
        }
    }
    proof {
        assert(acc@.map_values(|l: LayerMessage| l@) + Seq::<LayerView>::empty() =~= acc@.map_values(
            |l: LayerMessage| l@,
        ));
    }
    Some((acc, pos))
}

fn p_frame(s: &Vec<u8>, i: usize) -> (r: Option<(FrameMessage, usize)>)
    requires
        i <= s.len(),
    ensures
        match r {
            Some((f, j)) => sp_frame(s@, i as int) == Some((f@, j as int)) && j <= s.len(),
            None => sp_frame(s@, i as int) is None,
        },
{
    match p_u64(s, i) {
        None => None,
        Some((n, j)) => match p_layers(s, j, n) {
            None => None,
            Some((layers, k)) => Some((FrameMessage { layers }, k)),
        },
    }
}

fn p_frames(s: &Vec<u8>, i: usize, n: u64) -> (r: Option<(Vec<FrameMessage>, usize)>)
    requires
        i <= s.len(),
    ensures
        match r {
            Some((fs, j)) => sp_frames(s@, i as int, n as nat) == Some(
                (fs@.map_values(|f: FrameMessage| f@), j as int),
            ) && j <= s.len(),
            None => sp_frames(s@, i as int, n as nat) is None,
        },
{
    let mut acc: Vec<FrameMessage> = Vec::new();
    let mut pos: usize = i;
    let mut k: u64 = 0;
    assert(acc@.map_values(|f: FrameMessage| f@) =~= Seq::<FrameView>::empty());
    while k < n
        invariant
            pos <= s.len(),
            k <= n,
            match sp_frames(s@, pos as int, (n - k) as nat) {
                Some((rest, j)) => sp_frames(s@, i as int, n as nat) == Some(
                    (acc@.map_values(|f: FrameMessage| f@) + rest, j),
                ),
                None => sp_frames(s@, i as int, n as nat) is None,
            },
        decreases n - k,
    {
        match p_frame(s, pos) {
            None => {
                return None;
            },
            Some((f, j)) => {
                proof {
                    let m = (n - k) as nat;
                    let tail = sp_frames(s@, j as int, (m - 1) as nat);
                    if tail is Some {
                        let (rest, e) = tail.unwrap();
                        assert(sp_frames(s@, pos as int, m) == Some((seq![f@] + rest, e)));
                        assert(acc@.map_values(|q: FrameMessage| q@) + (seq![f@] + rest) =~= acc@.push(
                            f,
                        ).map_values(|q: FrameMessage| q@) + rest);
                    }
                }
                acc.push(f);
                pos = j;
                k = k + 1;
            },
        }
    }
    proof {
        assert(acc@.map_values(|f: FrameMessage| f@) + Seq::<FrameView>::empty() =~= acc@.map_values(
            |f: FrameMessage| f@,
        ));
    }
    Some((acc, pos))
}

fn p_colors_run(s: &Vec<u8>, i: usize, n: u64) -> (r: Option<(Vec<u32>, usize)>)
    requires
        i <= s.len(),
    ensures
        match r {
            Some((c, j)) => sp_colors_run(s@, i as int, n as nat) == Some((c@, j as int)) && j
                <= s.len(),
            None => sp_colors_run(s@, i as int, n as nat) is None,
        },
{
    let mut acc: Vec<u32> = Vec::new();
    let mut pos: usize = i;
    let mut k: u64 = 0;
    while k < n
        invariant
            pos <= s.len(),
            k <= n,
            match sp_colors_run(s@, pos as int, (n - k) as nat) {
                Some((rest, j)) => sp_colors_run(s@, i as int, n as nat) == Some((acc@ + rest, j)),
                None => sp_colors_run(s@, i as int, n as nat) is None,
            },
        decreases n - k,
    {
        match p_u32(s, pos) {
            None => {
                return None;
            },
            Some((x, j)) => {
                proof {
                    let m = (n - k) as nat;
                    let tail = sp_colors_run(s@, j as int, (m - 1) as nat);
                    if tail is Some {
                        let (rest, e) = tail.unwrap();
                        assert(sp_colors_run(s@, pos as int, m) == Some((seq![x] + rest, e)));
                        assert(acc@ + (seq![x] + rest) =~= acc@.push(x) + rest);
                    }
                }
                acc.push(x);
                pos = j;
                k = k + 1;
            },
        }
    }
    proof {
        assert(acc@ + Seq::<u32>::empty() =~= acc@);
    }
    Some((acc, pos))
}

fn p_palette(s: &Vec<u8>, i: usize) -> (r: Option<(Vec<u32>, usize)>)
    requires
        i <= s.len(),
    ensures
        match r {
            Some((c, j)) => sp_palette(s@, i as int) == Some((c@, j as int)) && j <= s.len(),
            None => sp_palette(s@, i as int) is None,
        },
{
    match p_u64(s, i) {
        None => None,
        Some((n, j)) => p_colors_run(s, j, n),
    }
}

fn p_palettes(s: &Vec<u8>, i: usize, n: u64) -> (r: Option<(Vec<Vec<u32>>, usize)>)
    requires
        i <= s.len(),
    ensures
        match r {
            Some((cs, j)) => sp_palettes(s@, i as int, n as nat) == Some(
                (cs@.map_values(|c: Vec<u32>| c@), j as int),
            ) && j <= s.len(),
            None => sp_palettes(s@, i as int, n as nat) is None,
        },
{
    let mut acc: Vec<Vec<u32>> = Vec::new();
    let mut pos: usize = i;
    let mut k: u64 = 0;
    assert(acc@.map_values(|c: Vec<u32>| c@) =~= Seq::<Seq<u32>>::empty());
    while k < n
        invariant
            pos <= s.len(),
            k <= n,
            match sp_palettes(s@, pos as int, (n - k) as nat) {
                Some((rest, j)) => sp_palettes(s@, i as int, n as nat) == Some(
                    (acc@.map_values(|c: Vec<u32>| c@) + rest, j),
                ),
                None => sp_palettes(s@, i as int, n as nat) is None,
            },
        decreases n - k,
    {
        match p_palette(s, pos) {
            None => {
                return None;
            },
            Some((c, j)) => {
                proof {
                    let m = (n - k) as nat;
                    let tail = sp_palettes(s@, j as int, (m - 1) as nat);
                    if tail is Some {
                        let (rest, e) = tail.unwrap();
                        assert(sp_palettes(s@, pos as int, m) == Some((seq![c@] + rest, e)));
                        assert(acc@.map_values(|q: Vec<u32>| q@) + (seq![c@] + rest) =~= acc@.push(
                            c,
                        ).map_values(|q: Vec<u32>| q@) + rest);
                    }
                }
                acc.push(c);
                pos = j;
                k = k + 1;
            },
        }
    }
    proof {
        assert(acc@.map_values(|c: Vec<u32>| c@) + Seq::<Seq<u32>>::empty() =~= acc@.map_values(
            |c: Vec<u32>| c@,
        ));
    }
    Some((acc, pos))
}

fn p_project(s: &Vec<u8>) -> (r: Option<(ProjectMessage, usize)>)
    ensures
        match r {
            Some((p, j)) => sp_project(s@, 0) == Some((p@, j as int)) && j <= s.len(),
            None => sp_project(s@, 0) is None,
        },
{
    let name = match p_lp(s, 0) {
        None => {
            return None;
        },
        Some(t) => t,
    };
    let width = match p_u32(s, name.1) {
        None => {
            return None;
        },
        Some(t) => t,
    };
    let height = match p_u32(s, width.1) {
        None => {
            return None;
        },
        Some(t) => t,
    };
    let nf = match p_u64(s, height.1) {
        None => {
            return None;
        },
        Some(t) => t,
    };
    let frames = match p_frames(s, nf.1, nf.0) {
        None => {
            return None;
        },
        Some(t) => t,
    };
    let nc = match p_u64(s, frames.1) {
        None => {
            return None;
        },
        Some(t) => t,
    };
    let colors = match p_palettes(s, nc.1, nc.0) {
        None => {
            return None;
        },
        Some(t) => t,
    };
    let path = match p_lp(s, colors.1) {
        None => {
            return None;
        },
        Some(t) => t,
    };
    let p = ProjectMessage {
        name: name.0,
        width: width.0,
        height: height.0,
        frames: frames.0,
        colors: colors.0,
        path: path.0,
    };
    assert(sp_project(s@, 0) == Some((p@, path.1 as int)));
    Some((p, path.1))
}

/// Deserializes a project from the fixed binary project encoding,
/// failing exactly when the bytes do not encode one project record.
pub fn decode_project(bytes: &Vec<u8>) -> (r: Result<ProjectMessage, CommandError>)
    ensures
        match r {
            Ok(p) => parse_project(bytes@) == Some(p@),
            Err(e) => e is DecodeFailure && parse_project(bytes@) is None,
        },
{
    match p_project(bytes) {
        Some((p, j)) => {
            if j == bytes.len() {
                Ok(p)
            } else {
                Err(
                    CommandError::DecodeFailure(
                        "the file holds bytes beyond the project record".to_owned(),
                    ),
                )
            }
        },
        None => Err(
            CommandError::DecodeFailure(
                "the bytes do not match the expected project structure".to_owned(),
            ),
        ),
    }
}

} // verus!
