//! The `.quad` project file format: a fixed, non-chunked, unversioned
//! structural binary encoding of the project aggregate.
//!
//! Integers are little endian; every byte string and every sequence is
//! prefixed by its length as a 64-bit integer.  `project_bytes` is the
//! defining specification of the format; the executable encoder produces
//! exactly those bytes.

use vstd::bytes::*;
use vstd::prelude::*;

use crate::messages::{FrameView, LayerView, ProjectMessage, ProjectView};
use vstd::std_specs::vec::spec_vec_len;

verus! {

/// A length-prefixed byte string: its length as eight little-endian
/// bytes, then the bytes themselves.
pub open spec fn lp_bytes(b: Seq<u8>) -> Seq<u8> {
    spec_u64_to_le_bytes(b.len() as u64) + b
}

/// Encoding of one layer: its name, then its pixel data.
pub open spec fn layer_bytes(l: LayerView) -> Seq<u8> {
    lp_bytes(l.name) + lp_bytes(l.data)
}

/// Concatenated encodings of a run of layers.
pub open spec fn layers_bytes(ls: Seq<LayerView>) -> Seq<u8>
    decreases ls.len(),
{
    if ls.len() == 0 {
        Seq::empty()
    } else {
        layer_bytes(ls[0]) + layers_bytes(ls.skip(1))
    }
}

/// Encoding of one frame: its layer count, then its layers.
pub open spec fn frame_bytes(f: FrameView) -> Seq<u8> {
    spec_u64_to_le_bytes(f.layers.len() as u64) + layers_bytes(f.layers)
}

/// Concatenated encodings of a run of frames.
pub open spec fn frames_bytes(fs: Seq<FrameView>) -> Seq<u8>
    decreases fs.len(),
{
    if fs.len() == 0 {
        Seq::empty()
    } else {
        frame_bytes(fs[0]) + frames_bytes(fs.skip(1))
    }
}

/// Concatenated little-endian encodings of a run of packed colors.
pub open spec fn colors_run_bytes(c: Seq<u32>) -> Seq<u8>
    decreases c.len(),
{
    if c.len() == 0 {
        Seq::empty()
    } else {
        spec_u32_to_le_bytes(c[0]) + colors_run_bytes(c.skip(1))
    }
}

/// Encoding of one palette: its color count, then its colors.
pub open spec fn palette_bytes(c: Seq<u32>) -> Seq<u8> {
    spec_u64_to_le_bytes(c.len() as u64) + colors_run_bytes(c)
}

/// Concatenated encodings of a run of palettes.
pub open spec fn palettes_bytes(cs: Seq<Seq<u32>>) -> Seq<u8>
    decreases cs.len(),
{
    if cs.len() == 0 {
        Seq::empty()
    } else {
        palette_bytes(cs[0]) + palettes_bytes(cs.skip(1))
    }
}

/// The whole project file: name, dimensions, frames, palettes, and the
/// (stale, never trusted on load) backing path, in field order.
pub open spec fn project_bytes(p: ProjectView) -> Seq<u8> {
    lp_bytes(p.name) + spec_u32_to_le_bytes(p.width) + spec_u32_to_le_bytes(p.height)
        + spec_u64_to_le_bytes(p.frames.len() as u64) + frames_bytes(p.frames)
        + spec_u64_to_le_bytes(p.colors.len() as u64) + palettes_bytes(p.colors) + lp_bytes(p.path)
}

/// A sequence length representable in the 64-bit prefix.
pub open spec fn len64(n: nat) -> bool {
    n <= u64::MAX
}

/// A layer whose lengths fit the 64-bit prefixes.
pub open spec fn layer_encodable(l: LayerView) -> bool {
    len64(l.name.len()) && len64(l.data.len())
}

/// A frame whose layer count and layers fit their prefixes.
pub open spec fn frame_encodable(f: FrameView) -> bool {
    &&& len64(f.layers.len())
    &&& forall|i: int| 0 <= i < f.layers.len() ==> layer_encodable(#[trigger] f.layers[i])
}

/// A project whose every length fits its 64-bit prefix.  Every project
/// held in memory satisfies this: each length is a machine length.
pub open spec fn project_encodable(p: ProjectView) -> bool {
    &&& len64(p.name.len())
    &&& len64(p.path.len())
    &&& len64(p.frames.len())
    &&& len64(p.colors.len())
    &&& forall|i: int| 0 <= i < p.frames.len() ==> frame_encodable(#[trigger] p.frames[i])
    &&& forall|i: int| 0 <= i < p.colors.len() ==> len64(#[trigger] p.colors[i].len())
}

/// Every project held in memory is encodable: each of its sequences is
/// backed by a machine-sized vector, so each length fits its prefix.
pub proof fn lemma_message_encodable(p: &ProjectMessage)
    ensures
        project_encodable(p@),
{
    broadcast use vstd::std_specs::vec::axiom_spec_len;

    assert(spec_vec_len(&p.name) == p.name@.len());
    assert(spec_vec_len(&p.path) == p.path@.len());
    assert(spec_vec_len(&p.frames) == p.frames@.len());
    assert(spec_vec_len(&p.colors) == p.colors@.len());
    assert forall|i: int| 0 <= i < p@.frames.len() implies frame_encodable(
        #[trigger] p@.frames[i],
    ) by {
        let f = p.frames@[i];
        assert(p@.frames[i] == f@);
        assert(spec_vec_len(&f.layers) == f.layers@.len());
        assert forall|k: int| 0 <= k < f@.layers.len() implies layer_encodable(
            #[trigger] f@.layers[k],
        ) by {
            let l = f.layers@[k];
            assert(f@.layers[k] == l@);
            assert(spec_vec_len(&l.name) == l.name@.len());
            assert(spec_vec_len(&l.data) == l.data@.len());
        };
    };
    assert forall|i: int| 0 <= i < p@.colors.len() implies len64(
        (#[trigger] p@.colors[i]).len(),
    ) by {
        let c = p.colors@[i];
        assert(p@.colors[i] == c@);
        assert(spec_vec_len(&c) == c@.len());
    };
}

/// Appending one layer to a run appends its encoding.
pub proof fn lemma_layers_bytes_push(ls: Seq<LayerView>, l: LayerView)
    ensures
        layers_bytes(ls.push(l)) == layers_bytes(ls) + layer_bytes(l),
    decreases ls.len(),
{
    if ls.len() == 0 {
        assert(ls.push(l)[0] == l);
        assert(ls.push(l).skip(1) =~= Seq::<LayerView>::empty());
        assert(layers_bytes(ls.push(l)) == layer_bytes(l) + layers_bytes(
            Seq::<LayerView>::empty(),
        ));
        assert(layers_bytes(Seq::<LayerView>::empty()) == Seq::<u8>::empty());
        assert(layers_bytes(ls) == Seq::<u8>::empty());
        assert(layers_bytes(ls.push(l)) =~= layers_bytes(ls) + layer_bytes(l));
    } else {
        assert(ls.push(l).skip(1) =~= ls.skip(1).push(l));
        lemma_layers_bytes_push(ls.skip(1), l);
        assert(ls.push(l)[0] == ls[0]);
        assert(layers_bytes(ls.push(l)) == layer_bytes(ls[0]) + layers_bytes(ls.skip(1).push(l)));
        assert(layers_bytes(ls) == layer_bytes(ls[0]) + layers_bytes(ls.skip(1)));
        assert(layers_bytes(ls.push(l)) =~= layers_bytes(ls) + layer_bytes(l));
    }
}

/// Appending one frame to a run appends its encoding.
pub proof fn lemma_frames_bytes_push(fs: Seq<FrameView>, f: FrameView)
    ensures
        frames_bytes(fs.push(f)) == frames_bytes(fs) + frame_bytes(f),
    decreases fs.len(),
{
    if fs.len() == 0 {
        assert(fs.push(f)[0] == f);
        assert(fs.push(f).skip(1) =~= Seq::<FrameView>::empty());
        assert(frames_bytes(fs.push(f)) == frame_bytes(f) + frames_bytes(
            Seq::<FrameView>::empty(),
        ));
        assert(frames_bytes(Seq::<FrameView>::empty()) == Seq::<u8>::empty());
        assert(frames_bytes(fs) == Seq::<u8>::empty());
        assert(frames_bytes(fs.push(f)) =~= frames_bytes(fs) + frame_bytes(f));
    } else {
        assert(fs.push(f).skip(1) =~= fs.skip(1).push(f));
        lemma_frames_bytes_push(fs.skip(1), f);
        assert(fs.push(f)[0] == fs[0]);
        assert(frames_bytes(fs.push(f)) == frame_bytes(fs[0]) + frames_bytes(fs.skip(1).push(f)));
        assert(frames_bytes(fs) == frame_bytes(fs[0]) + frames_bytes(fs.skip(1)));
        assert(frames_bytes(fs.push(f)) =~= frames_bytes(fs) + frame_bytes(f));
    }
}

/// Appending one color to a run appends its encoding.
pub proof fn lemma_colors_run_bytes_push(c: Seq<u32>, x: u32)
    ensures
        colors_run_bytes(c.push(x)) == colors_run_bytes(c) + spec_u32_to_le_bytes(x),
    decreases c.len(),
{
    if c.len() == 0 {
        assert(c.push(x)[0] == x);
        assert(c.push(x).skip(1) =~= Seq::<u32>::empty());
        assert(colors_run_bytes(c.push(x)) == spec_u32_to_le_bytes(x) + colors_run_bytes(
            Seq::<u32>::empty(),
        ));
        assert(colors_run_bytes(Seq::<u32>::empty()) == Seq::<u8>::empty());
        assert(colors_run_bytes(c) == Seq::<u8>::empty());
        assert(colors_run_bytes(c.push(x)) =~= colors_run_bytes(c) + spec_u32_to_le_bytes(x));
    } else {
        assert(c.push(x).skip(1) =~= c.skip(1).push(x));
        lemma_colors_run_bytes_push(c.skip(1), x);
        assert(c.push(x)[0] == c[0]);
        assert(colors_run_bytes(c.push(x)) == spec_u32_to_le_bytes(c[0]) + colors_run_bytes(
            c.skip(1).push(x),
        ));
        assert(colors_run_bytes(c) == spec_u32_to_le_bytes(c[0]) + colors_run_bytes(c.skip(1)));
        assert(colors_run_bytes(c.push(x)) =~= colors_run_bytes(c) + spec_u32_to_le_bytes(x));
    }
}

/// Appending one palette to a run appends its encoding.
pub proof fn lemma_palettes_bytes_push(cs: Seq<Seq<u32>>, c: Seq<u32>)
    ensures
        palettes_bytes(cs.push(c)) == palettes_bytes(cs) + palette_bytes(c),
    decreases cs.len(),
{
    if cs.len() == 0 {
        assert(cs.push(c)[0] == c);
        assert(cs.push(c).skip(1) =~= Seq::<Seq<u32>>::empty());
        assert(palettes_bytes(cs.push(c)) == palette_bytes(c) + palettes_bytes(
            Seq::<Seq<u32>>::empty(),
        ));
        assert(palettes_bytes(Seq::<Seq<u32>>::empty()) == Seq::<u8>::empty());
        assert(palettes_bytes(cs) == Seq::<u8>::empty());
        assert(palettes_bytes(cs.push(c)) =~= palettes_bytes(cs) + palette_bytes(c));
    } else {
        assert(cs.push(c).skip(1) =~= cs.skip(1).push(c));
        lemma_palettes_bytes_push(cs.skip(1), c);
        assert(cs.push(c)[0] == cs[0]);
        assert(palettes_bytes(cs.push(c)) == palette_bytes(cs[0]) + palettes_bytes(
            cs.skip(1).push(c),
        ));
        assert(palettes_bytes(cs) == palette_bytes(cs[0]) + palettes_bytes(cs.skip(1)));
        assert(palettes_bytes(cs.push(c)) =~= palettes_bytes(cs) + palette_bytes(c));
    }
}

pub(crate) fn push_all(out: &mut Vec<u8>, b: &Vec<u8>)
    ensures
        final(out)@ == old(out)@ + b@,
{
    let mut i: usize = 0;
    while i < b.len()
        invariant
            0 <= i <= b.len(),
            out@ == old(out)@ + b@.subrange(0, i as int),
        decreases b.len() - i,
    {
        out.push(b[i]);
        assert(old(out)@ + b@.subrange(0, i + 1) =~= (old(out)@ + b@.subrange(0, i as int)).push(
            b@[i as int],
        ));
        i += 1;
    }
    assert(b@.subrange(0, b.len() as int) =~= b@);
}

fn push_u64(out: &mut Vec<u8>, x: u64)
    ensures
        final(out)@ == old(out)@ + spec_u64_to_le_bytes(x),
{
    let b = u64_to_le_bytes(x);
    push_all(out, &b);
}

fn push_u32(out: &mut Vec<u8>, x: u32)
    ensures
        final(out)@ == old(out)@ + spec_u32_to_le_bytes(x),
{
    let b = u32_to_le_bytes(x);
    push_all(out, &b);
}

fn push_lp(out: &mut Vec<u8>, b: &Vec<u8>)
    ensures
        final(out)@ == old(out)@ + lp_bytes(b@),
{
    push_u64(out, b.len() as u64);
    push_all(out, b);
    assert(final(out)@ =~= old(out)@ + lp_bytes(b@));
}

/// Serializes a whole project to the fixed binary project encoding.
pub fn encode_project(p: &ProjectMessage) -> (r: Vec<u8>)
    ensures
        r@ == project_bytes(p@),
{
    let mut out: Vec<u8> = Vec::new();
    push_lp(&mut out, &p.name);
    push_u32(&mut out, p.width);
    push_u32(&mut out, p.height);

    push_u64(&mut out, p.frames.len() as u64);
    let ghost frame_views = p@.frames;
    let ghost before_frames = out@;
    let mut i: usize = 0;
    while i < p.frames.len()
        invariant
            0 <= i <= p.frames.len(),
            frame_views == p@.frames,
            frame_views.len() == p.frames.len(),
            out@ == before_frames + frames_bytes(frame_views.subrange(0, i as int)),
        decreases p.frames.len() - i,
    {
        let f = &p.frames[i];
        push_u64(&mut out, f.layers.len() as u64);
        let ghost layer_views = f@.layers;
        let ghost before_layers = out@;
        let mut j: usize = 0;
        while j < f.layers.len()
            invariant
                0 <= j <= f.layers.len(),
                layer_views == f@.layers,
                layer_views.len() == f.layers.len(),
                out@ == before_layers + layers_bytes(layer_views.subrange(0, j as int)),
            decreases f.layers.len() - j,
        {
            let l = &f.layers[j];
            push_lp(&mut out, &l.name);
            push_lp(&mut out, &l.data);
            proof {
                assert(layer_views[j as int] == l@);
                lemma_layers_bytes_push(layer_views.subrange(0, j as int), l@);
                assert(layer_views.subrange(0, j + 1) =~= layer_views.subrange(0, j as int).push(
                    layer_views[j as int],
                ));
                assert(out@ =~= before_layers + layers_bytes(layer_views.subrange(0, j + 1)));
            }
            j += 1;
        }
        proof {
            assert(layer_views.subrange(0, f.layers.len() as int) =~= layer_views);
            assert(frame_views[i as int] == f@);
            assert(out@ =~= before_frames + frames_bytes(frame_views.subrange(0, i as int))
                + frame_bytes(frame_views[i as int]));
            lemma_frames_bytes_push(frame_views.subrange(0, i as int), frame_views[i as int]);
            assert(frame_views.subrange(0, i + 1) =~= frame_views.subrange(0, i as int).push(
                frame_views[i as int],
            ));
            assert(out@ =~= before_frames + frames_bytes(frame_views.subrange(0, i + 1)));
        }
        i += 1;
    }
    proof {
        assert(frame_views.subrange(0, p.frames.len() as int) =~= frame_views);
    }

    push_u64(&mut out, p.colors.len() as u64);
    let ghost palette_views = p@.colors;
    let ghost before_palettes = out@;
    let mut i: usize = 0;
    while i < p.colors.len()
        invariant
            0 <= i <= p.colors.len(),
            palette_views == p@.colors,
            palette_views.len() == p.colors.len(),
            out@ == before_palettes + palettes_bytes(palette_views.subrange(0, i as int)),
        decreases p.colors.len() - i,
    {
        let c = &p.colors[i];
        push_u64(&mut out, c.len() as u64);
        let ghost color_views = c@;
        let ghost before_colors = out@;
        let mut j: usize = 0;
        while j < c.len()
            invariant
                0 <= j <= c.len(),
                color_views == c@,
                out@ == before_colors + colors_run_bytes(color_views.subrange(0, j as int)),
            decreases c.len() - j,
        {
            push_u32(&mut out, c[j]);
            proof {
                lemma_colors_run_bytes_push(color_views.subrange(0, j as int), color_views[j as int]);
                assert(color_views.subrange(0, j + 1) =~= color_views.subrange(0, j as int).push(
                    color_views[j as int],
                ));
                assert(out@ =~= before_colors + colors_run_bytes(color_views.subrange(0, j + 1)));
            }
            j += 1;
        }
        proof {
            assert(color_views.subrange(0, c.len() as int) =~= color_views);
            assert(palette_views[i as int] == c@);
            assert(out@ =~= before_palettes + palettes_bytes(palette_views.subrange(0, i as int))
                + palette_bytes(palette_views[i as int]));
            lemma_palettes_bytes_push(
                palette_views.subrange(0, i as int),
                palette_views[i as int],
            );
            assert(palette_views.subrange(0, i + 1) =~= palette_views.subrange(0, i as int).push(
                palette_views[i as int],
            ));
            assert(out@ =~= before_palettes + palettes_bytes(palette_views.subrange(0, i + 1)));
        }
        i += 1;
    }
    proof {
        assert(palette_views.subrange(0, p.colors.len() as int) =~= palette_views);
    }

    push_lp(&mut out, &p.path);
    proof {
        assert(out@ =~= project_bytes(p@));
    }
    out
}

} // verus!
