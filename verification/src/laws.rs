//! The persistence laws of the project format: a byte sequence produced
//! by the encoder parses back to the very project it came from, and a
//! byte sequence the parser rejects is the encoding of no project.

use vstd::bytes::*;
use vstd::prelude::*;

use crate::codec::{
    colors_run_bytes, frame_bytes, frame_encodable, frames_bytes, layer_bytes, layer_encodable,
    layers_bytes, len64, lp_bytes, palette_bytes, palettes_bytes, project_bytes,
    project_encodable,
};
use crate::decode::{
    parse_project, sp_colors_run, sp_frame, sp_frames, sp_layer, sp_layers, sp_lp, sp_palette,
    sp_palettes, sp_project, sp_raw, sp_u32, sp_u64,
};
use crate::codec::lemma_message_encodable;
use crate::messages::{FrameView, LayerView, ProjectMessage, ProjectView};

verus! {

proof fn lemma_tail_split(s: Seq<u8>, i: int, a: Seq<u8>, rest: Seq<u8>)
    requires
        0 <= i <= s.len(),
        s.subrange(i, s.len() as int) == a + rest,
    ensures
        i + a.len() + rest.len() == s.len(),
        s.subrange(i, i + a.len() as int) == a,
        s.subrange(i + a.len(), s.len() as int) == rest,
{
    assert(s.subrange(i, s.len() as int).len() == s.len() - i);
    assert forall|k: int| 0 <= k < a.len() implies s.subrange(i, i + a.len() as int)[k]
        == a[k] by {
        assert(s.subrange(i, s.len() as int)[k] == (a + rest)[k]);
    };
    assert(s.subrange(i, i + a.len() as int) =~= a);
    assert forall|k: int| 0 <= k < rest.len() implies s.subrange(
        i + a.len(),
        s.len() as int,
    )[k] == rest[k] by {
        assert(0 <= a.len() + k < s.subrange(i, s.len() as int).len());
        assert(s.subrange(i, s.len() as int)[a.len() + k] == s[i + a.len() + k]);
        assert((a + rest)[a.len() + k] == rest[k]);
        assert(s.subrange(i + a.len(), s.len() as int).len() == rest.len());
        assert(s.subrange(i + a.len(), s.len() as int)[k] == s[i + a.len() + k]);
    };
    assert(s.subrange(i + a.len(), s.len() as int) =~= rest);
}

proof fn lemma_sp_u64_prefix(s: Seq<u8>, i: int, x: u64, rest: Seq<u8>)
    requires
        0 <= i <= s.len(),
        s.subrange(i, s.len() as int) == spec_u64_to_le_bytes(x) + rest,
    ensures
        sp_u64(s, i) == Some((x, i + 8)),
        i + 8 <= s.len(),
        s.subrange(i + 8, s.len() as int) == rest,
{
    lemma_auto_spec_u64_to_from_le_bytes();
    lemma_tail_split(s, i, spec_u64_to_le_bytes(x), rest);
    assert(s.subrange(i, i + 8) == spec_u64_to_le_bytes(x));
}

proof fn lemma_sp_u32_prefix(s: Seq<u8>, i: int, x: u32, rest: Seq<u8>)
    requires
        0 <= i <= s.len(),
        s.subrange(i, s.len() as int) == spec_u32_to_le_bytes(x) + rest,
    ensures
        sp_u32(s, i) == Some((x, i + 4)),
        i + 4 <= s.len(),
        s.subrange(i + 4, s.len() as int) == rest,
{
    lemma_auto_spec_u32_to_from_le_bytes();
    lemma_tail_split(s, i, spec_u32_to_le_bytes(x), rest);
    assert(s.subrange(i, i + 4) == spec_u32_to_le_bytes(x));
}

proof fn lemma_sp_lp_prefix(s: Seq<u8>, i: int, b: Seq<u8>, rest: Seq<u8>)
    requires
        len64(b.len()),
        0 <= i <= s.len(),
        s.subrange(i, s.len() as int) == lp_bytes(b) + rest,
    ensures
        sp_lp(s, i) == Some((b, i + lp_bytes(b).len())),
        lp_bytes(b).len() == 8 + b.len(),
        i + lp_bytes(b).len() <= s.len(),
        s.subrange(i + lp_bytes(b).len(), s.len() as int) == rest,
{
    lemma_auto_spec_u64_to_from_le_bytes();
    assert(lp_bytes(b) + rest =~= spec_u64_to_le_bytes(b.len() as u64) + (b + rest));
    lemma_sp_u64_prefix(s, i, b.len() as u64, b + rest);
    lemma_tail_split(s, i + 8, b, rest);
    assert((b.len() as u64) as int == b.len());
    assert(sp_raw(s, i + 8, b.len() as int) == Some((s.subrange(i + 8, i + 8 + b.len()), i + 8
        + b.len())));
}

proof fn lemma_sp_layer_prefix(s: Seq<u8>, i: int, l: LayerView, rest: Seq<u8>)
    requires
        layer_encodable(l),
        0 <= i <= s.len(),
        s.subrange(i, s.len() as int) == layer_bytes(l) + rest,
    ensures
        sp_layer(s, i) == Some((l, i + layer_bytes(l).len())),
        i + layer_bytes(l).len() <= s.len(),
        s.subrange(i + layer_bytes(l).len(), s.len() as int) == rest,
{
    assert(layer_bytes(l) + rest =~= lp_bytes(l.name) + (lp_bytes(l.data) + rest));
    lemma_sp_lp_prefix(s, i, l.name, lp_bytes(l.data) + rest);
    lemma_sp_lp_prefix(s, i + lp_bytes(l.name).len(), l.data, rest);
    assert(LayerView { name: l.name, data: l.data } == l);
}

proof fn lemma_sp_layers_prefix(s: Seq<u8>, i: int, ls: Seq<LayerView>, rest: Seq<u8>)
    requires
        forall|k: int| 0 <= k < ls.len() ==> layer_encodable(#[trigger] ls[k]),
        0 <= i <= s.len(),
        s.subrange(i, s.len() as int) == layers_bytes(ls) + rest,
    ensures
        sp_layers(s, i, ls.len()) == Some((ls, i + layers_bytes(ls).len())),
        i + layers_bytes(ls).len() <= s.len(),
        s.subrange(i + layers_bytes(ls).len(), s.len() as int) == rest,
    decreases ls.len(),
{
    if ls.len() == 0 {
        assert(layers_bytes(ls) == Seq::<u8>::empty());
        assert(Seq::<u8>::empty() + rest =~= rest);
        assert(ls =~= Seq::<LayerView>::empty());
        assert(sp_layers(s, i, 0) == Some((Seq::<LayerView>::empty(), i)));
    } else {
        let head = ls[0];
        let tail = ls.skip(1);
        assert(layers_bytes(ls) == layer_bytes(head) + layers_bytes(tail));
        assert((layer_bytes(head) + layers_bytes(tail)) + rest =~= layer_bytes(head) + (
        layers_bytes(tail) + rest));
        lemma_sp_layer_prefix(s, i, head, layers_bytes(tail) + rest);
        let j = i + layer_bytes(head).len();
        assert(forall|k: int| 0 <= k < tail.len() ==> layer_encodable(#[trigger] tail[k]));
        lemma_sp_layers_prefix(s, j, tail, rest);
        assert((ls.len() - 1) as nat == tail.len());
        assert(seq![head] + tail =~= ls);
        assert(sp_layers(s, i, ls.len()) == Some((ls, j + layers_bytes(tail).len())));
    }
}

proof fn lemma_sp_frame_prefix(s: Seq<u8>, i: int, f: FrameView, rest: Seq<u8>)
    requires
        frame_encodable(f),
        0 <= i <= s.len(),
        s.subrange(i, s.len() as int) == frame_bytes(f) + rest,
    ensures
        sp_frame(s, i) == Some((f, i + frame_bytes(f).len())),
        i + frame_bytes(f).len() <= s.len(),
        s.subrange(i + frame_bytes(f).len(), s.len() as int) == rest,
{
    lemma_auto_spec_u64_to_from_le_bytes();
    assert(frame_bytes(f) + rest =~= spec_u64_to_le_bytes(f.layers.len() as u64) + (layers_bytes(
        f.layers,
    ) + rest));
    lemma_sp_u64_prefix(s, i, f.layers.len() as u64, layers_bytes(f.layers) + rest);
    lemma_sp_layers_prefix(s, i + 8, f.layers, rest);
    assert((f.layers.len() as u64) as nat == f.layers.len());
    assert(FrameView { layers: f.layers } == f);
}

proof fn lemma_sp_frames_prefix(s: Seq<u8>, i: int, fs: Seq<FrameView>, rest: Seq<u8>)
    requires
        forall|k: int| 0 <= k < fs.len() ==> frame_encodable(#[trigger] fs[k]),
        0 <= i <= s.len(),
        s.subrange(i, s.len() as int) == frames_bytes(fs) + rest,
    ensures
        sp_frames(s, i, fs.len()) == Some((fs, i + frames_bytes(fs).len())),
        i + frames_bytes(fs).len() <= s.len(),
        s.subrange(i + frames_bytes(fs).len(), s.len() as int) == rest,
    decreases fs.len(),
{
    if fs.len() == 0 {
        assert(frames_bytes(fs) == Seq::<u8>::empty());
        assert(Seq::<u8>::empty() + rest =~= rest);
        assert(fs =~= Seq::<FrameView>::empty());
        assert(sp_frames(s, i, 0) == Some((Seq::<FrameView>::empty(), i)));
    } else {
        let head = fs[0];
        let tail = fs.skip(1);
        assert(frames_bytes(fs) == frame_bytes(head) + frames_bytes(tail));
        assert((frame_bytes(head) + frames_bytes(tail)) + rest =~= frame_bytes(head) + (
        frames_bytes(tail) + rest));
        lemma_sp_frame_prefix(s, i, head, frames_bytes(tail) + rest);
        let j = i + frame_bytes(head).len();
        assert(forall|k: int| 0 <= k < tail.len() ==> frame_encodable(#[trigger] tail[k]));
        lemma_sp_frames_prefix(s, j, tail, rest);
        assert((fs.len() - 1) as nat == tail.len());
        assert(seq![head] + tail =~= fs);
        assert(sp_frames(s, i, fs.len()) == Some((fs, j + frames_bytes(tail).len())));
    }
}

proof fn lemma_sp_colors_run_prefix(s: Seq<u8>, i: int, c: Seq<u32>, rest: Seq<u8>)
    requires
        0 <= i <= s.len(),
        s.subrange(i, s.len() as int) == colors_run_bytes(c) + rest,
    ensures
        sp_colors_run(s, i, c.len()) == Some((c, i + colors_run_bytes(c).len())),
        i + colors_run_bytes(c).len() <= s.len(),
        s.subrange(i + colors_run_bytes(c).len(), s.len() as int) == rest,
    decreases c.len(),
{
    if c.len() == 0 {
        assert(colors_run_bytes(c) == Seq::<u8>::empty());
        assert(Seq::<u8>::empty() + rest =~= rest);
        assert(c =~= Seq::<u32>::empty());
        assert(sp_colors_run(s, i, 0) == Some((Seq::<u32>::empty(), i)));
    } else {
        let head = c[0];
        let tail = c.skip(1);
        assert(colors_run_bytes(c) == spec_u32_to_le_bytes(head) + colors_run_bytes(tail));
        assert((spec_u32_to_le_bytes(head) + colors_run_bytes(tail)) + rest
            =~= spec_u32_to_le_bytes(head) + (colors_run_bytes(tail) + rest));
        lemma_sp_u32_prefix(s, i, head, colors_run_bytes(tail) + rest);
        lemma_sp_colors_run_prefix(s, i + 4, tail, rest);
        assert((c.len() - 1) as nat == tail.len());
        assert(seq![head] + tail =~= c);
        assert(sp_colors_run(s, i, c.len()) == Some((c, i + 4 + colors_run_bytes(tail).len())));
    }
}

proof fn lemma_sp_palette_prefix(s: Seq<u8>, i: int, c: Seq<u32>, rest: Seq<u8>)
    requires
        len64(c.len()),
        0 <= i <= s.len(),
        s.subrange(i, s.len() as int) == palette_bytes(c) + rest,
    ensures
        sp_palette(s, i) == Some((c, i + palette_bytes(c).len())),
        i + palette_bytes(c).len() <= s.len(),
        s.subrange(i + palette_bytes(c).len(), s.len() as int) == rest,
{
    lemma_auto_spec_u64_to_from_le_bytes();
    assert(palette_bytes(c) + rest =~= spec_u64_to_le_bytes(c.len() as u64) + (colors_run_bytes(c)
        + rest));
    lemma_sp_u64_prefix(s, i, c.len() as u64, colors_run_bytes(c) + rest);
    lemma_sp_colors_run_prefix(s, i + 8, c, rest);
    assert((c.len() as u64) as nat == c.len());
}

proof fn lemma_sp_palettes_prefix(s: Seq<u8>, i: int, cs: Seq<Seq<u32>>, rest: Seq<u8>)
    requires
        forall|k: int| 0 <= k < cs.len() ==> len64(#[trigger] cs[k].len()),
        0 <= i <= s.len(),
        s.subrange(i, s.len() as int) == palettes_bytes(cs) + rest,
    ensures
        sp_palettes(s, i, cs.len()) == Some((cs, i + palettes_bytes(cs).len())),
        i + palettes_bytes(cs).len() <= s.len(),
        s.subrange(i + palettes_bytes(cs).len(), s.len() as int) == rest,
    decreases cs.len(),
{
    if cs.len() == 0 {
        assert(palettes_bytes(cs) == Seq::<u8>::empty());
        assert(Seq::<u8>::empty() + rest =~= rest);
        assert(cs =~= Seq::<Seq<u32>>::empty());
        assert(sp_palettes(s, i, 0) == Some((Seq::<Seq<u32>>::empty(), i)));
    } else {
        let head = cs[0];
        let tail = cs.skip(1);
        assert(palettes_bytes(cs) == palette_bytes(head) + palettes_bytes(tail));
        assert((palette_bytes(head) + palettes_bytes(tail)) + rest =~= palette_bytes(head) + (
        palettes_bytes(tail) + rest));
        lemma_sp_palette_prefix(s, i, head, palettes_bytes(tail) + rest);
        let j = i + palette_bytes(head).len();
        assert(forall|k: int| 0 <= k < tail.len() ==> len64(#[trigger] tail[k].len()));
        lemma_sp_palettes_prefix(s, j, tail, rest);
        assert((cs.len() - 1) as nat == tail.len());
        assert(seq![head] + tail =~= cs);
        assert(sp_palettes(s, i, cs.len()) == Some((cs, j + palettes_bytes(tail).len())));
    }
}

proof fn lemma_sp_project_prefix(s: Seq<u8>, i: int, p: ProjectView, rest: Seq<u8>)
    requires
        project_encodable(p),
        0 <= i <= s.len(),
        s.subrange(i, s.len() as int) == project_bytes(p) + rest,
    ensures
        sp_project(s, i) == Some((p, i + project_bytes(p).len())),
        i + project_bytes(p).len() <= s.len(),
        s.subrange(i + project_bytes(p).len(), s.len() as int) == rest,
{
    lemma_auto_spec_u64_to_from_le_bytes();
    lemma_auto_spec_u32_to_from_le_bytes();
    let a1 = lp_bytes(p.name);
    let a2 = spec_u32_to_le_bytes(p.width);
    let a3 = spec_u32_to_le_bytes(p.height);
    let a4 = spec_u64_to_le_bytes(p.frames.len() as u64);
    let a5 = frames_bytes(p.frames);
    let a6 = spec_u64_to_le_bytes(p.colors.len() as u64);
    let a7 = palettes_bytes(p.colors);
    let a8 = lp_bytes(p.path);
    assert(project_bytes(p) + rest =~= a1 + (a2 + (a3 + (a4 + (a5 + (a6 + (a7 + (a8 + rest))))))));
    lemma_sp_lp_prefix(s, i, p.name, a2 + (a3 + (a4 + (a5 + (a6 + (a7 + (a8 + rest)))))));
    let i1 = i + a1.len();
    lemma_sp_u32_prefix(s, i1, p.width, a3 + (a4 + (a5 + (a6 + (a7 + (a8 + rest))))));
    let i2 = i1 + 4;
    lemma_sp_u32_prefix(s, i2, p.height, a4 + (a5 + (a6 + (a7 + (a8 + rest)))));
    let i3 = i2 + 4;
    lemma_sp_u64_prefix(s, i3, p.frames.len() as u64, a5 + (a6 + (a7 + (a8 + rest))));
    let i4 = i3 + 8;
    lemma_sp_frames_prefix(s, i4, p.frames, a6 + (a7 + (a8 + rest)));
    assert((p.frames.len() as u64) as nat == p.frames.len());
    let i5 = i4 + a5.len();
    lemma_sp_u64_prefix(s, i5, p.colors.len() as u64, a7 + (a8 + rest));
    let i6 = i5 + 8;
    lemma_sp_palettes_prefix(s, i6, p.colors, a8 + rest);
    assert((p.colors.len() as u64) as nat == p.colors.len());
    let i7 = i6 + a7.len();
    lemma_sp_lp_prefix(s, i7, p.path, rest);
    let i8 = i7 + a8.len();
    assert(ProjectView {
        name: p.name,
        width: p.width,
        height: p.height,
        frames: p.frames,
        colors: p.colors,
        path: p.path,
    } == p);
    assert(sp_project(s, i) == Some((p, i8)));
    assert(i8 == i + project_bytes(p).len());
}

/// Round trip of persistence: the encoding of any project, of whichever
/// lengths a machine can hold, parses back to exactly that project —
/// every field of it.  A loader overwrites only the `path` field after
/// decoding, so a save followed by a load reproduces every other field.
pub proof fn lemma_parse_of_encoding(p: ProjectView)
    requires
        project_encodable(p),
    ensures
        parse_project(project_bytes(p)) == Some(p),
{
    let s = project_bytes(p);
    assert(s.subrange(0, s.len() as int) =~= s);
    assert(s =~= project_bytes(p) + Seq::<u8>::empty());
    lemma_sp_project_prefix(s, 0, p, Seq::<u8>::empty());
}

/// The round trip for every project a machine can actually hold: the
/// bytes the encoder writes for it parse back to its exact value.
pub proof fn lemma_save_load_round_trip(p: &ProjectMessage)
    ensures
        parse_project(project_bytes(p@)) == Some(p@),
{
    lemma_message_encodable(p);
    lemma_parse_of_encoding(p@);
}

/// Rejection is honest: bytes on which the parser fails are the encoding
/// of no project at all, so a decode failure never hides a readable file.
pub proof fn lemma_rejection_excludes_encodings(s: Seq<u8>, p: ProjectView)
    requires
        project_encodable(p),
        parse_project(s) is None,
    ensures
        project_bytes(p) != s,
{
    if project_bytes(p) == s {
        lemma_parse_of_encoding(p);
    }
}

} // verus!
