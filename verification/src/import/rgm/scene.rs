//! The models a scene shows once its model files are looked up: which
//! names to look up, and, given the names that were found, each shown
//! model's source, frame, name and texture. Lights are as in `placement`.
use super::placement::{append_chars, light_views, numbered, section_lights, LightPlan};
use super::positioning::{
    mpob_model_choice, mprp_anchors, mpsf_count, mpsf_record_at, parse_mpsf_records, parse_mprp_records,
    parse_rahd_raan_index, parse_rahd_texture_overrides, rahd_raan_index, rahd_texture_overrides,
    resolve_mpob_model_name, rope_anchor, RopeAnchor,
};
use super::parser::{spec_i24, spec_u24};
use super::{MpobRecord, MprpRecord, MpsRecord, MpslRecord, RgmFile, RgmSection};
use crate::assoc::{assoc_get, assoc_map, keys_unique};
use crate::bytes::{read_u32_be, spec_u16_le, spec_u32_be};
use crate::import::registry::has_text;
use crate::text::{chars_of, dec_nat, dec_pad, push_dec, push_dec_pad, push_str_chars, string_from_chars, trim_nul, utf8_lossy};
use vstd::prelude::*;

verus! {

/// Payload bounds of the first section tagged `tag` from offset `c` on:
/// sections are read as a 4-byte tag and a big-endian length until an
/// `END ` tag, a header or payload that runs past the data, or a match.
pub open spec fn first_payload_from(d: Seq<u8>, c: int, tag: Seq<u8>) -> Option<(int, int)>
    decreases d.len() - c,
{
    if c < 0 || c + 8 > d.len() {
        None
    } else {
        let s = c + 8;
        let e = s + spec_u32_be(d, c + 4);
        if d.subrange(c, c + 4) == seq![0x45u8, 0x4Eu8, 0x44u8, 0x20u8] {
            None
        } else if e > d.len() {
            None
        } else if d.subrange(c, c + 4) == tag {
            Some((s, e))
        } else {
            first_payload_from(d, e, tag)
        }
    }
}

/// The payload of the first section tagged `tag` of a scene file, found by
/// reading its raw sections.
pub open spec fn first_payload(d: Seq<u8>, tag: Seq<u8>) -> Option<Seq<u8>> {
    match first_payload_from(d, 0, tag) {
        Some((s, e)) => Some(d.subrange(s, e)),
        None => None,
    }
}

/// Finds the payload of the first section tagged `target`.
pub fn first_section_payload(input: &[u8], target: [u8; 4]) -> (r: Option<&[u8]>)
    ensures
        match r {
            Some(p) => first_payload(input@, target@) == Some(p@),
            None => first_payload(input@, target@) is None,
        },
{
    let n: usize = input.len();
    let mut cursor: usize = 0;
    loop
        invariant
            n == input@.len(),
            first_payload_from(input@, 0, target@) == first_payload_from(input@, cursor as int, target@),
        decreases n - cursor,
    {
        if cursor > n || n - cursor < 8 {
            return None;
        }
        let length = read_u32_be(input, cursor + 4) as usize;
        let start: usize = cursor + 8;
        let is_end = input[cursor] == 0x45 && input[cursor + 1] == 0x4E && input[cursor + 2] == 0x44
            && input[cursor + 3] == 0x20;
        proof {
            let tag = input@.subrange(cursor as int, cursor + 4);
            assert(is_end == (tag =~= seq![0x45u8, 0x4Eu8, 0x44u8, 0x20u8]));
            assert((tag =~= target@) == (input@[cursor as int] == target@[0] && input@[cursor + 1] == target@[1]
                && input@[cursor + 2] == target@[2] && input@[cursor + 3] == target@[3]));
        }
        if is_end {
            return None;
        }
        if length > n - start {
            return None;
        }
        let end: usize = start + length;
        if input[cursor] == target[0] && input[cursor + 1] == target[1] && input[cursor + 2] == target[2]
            && input[cursor + 3] == target[3] {
            return Some(vstd::slice::slice_subrange(input, start, end));
        }
        cursor = end;
    }
}

/// Where a shown model's geometry comes from.
#[derive(Debug, Clone)]
pub enum SceneSource {
    /// The model file found under this name.
    Named(String),
    /// A flat sprite showing a texture.
    Flat { texture_id: u16, image_id: u8 },
    /// No geometry: a scripted object whose model was not found.
    Empty,
}

/// Where a shown model's transform comes from.
#[derive(Debug, Clone, Copy)]
pub enum SceneFrame {
    /// Rotation and position of a static model record.
    Static(MpsRecord),
    /// Angles and position of a scripted object record.
    Object(MpobRecord),
    /// A scene position lowered by `drops` rope links.
    Dropped { pos_x: i32, pos_y: i32, pos_z: u32, drops: usize },
}

/// A model shown in the scene.
#[derive(Debug, Clone)]
pub struct SceneModel {
    pub source: SceneSource,
    pub frame: SceneFrame,
    pub model_name: String,
    pub source_id: Option<String>,
    /// Texture that replaces the model's textures.
    pub texture_override: Option<u16>,
}

/// A geometry source as values.
pub enum SourceView {
    Named(Seq<char>),
    Flat(int, int),
    Empty,
}

/// A transform source as values.
pub enum SceneFrameView {
    Static(MpsRecord),
    Object(MpobRecord),
    Dropped(int, int, int, int),
}

/// A shown model as values.
pub struct SceneView {
    pub source: SourceView,
    pub frame: SceneFrameView,
    pub model_name: Seq<char>,
    pub source_id: Option<Seq<char>>,
    pub texture_override: Option<u16>,
}

/// The shown model as values.
pub open spec fn scene_view(m: SceneModel) -> SceneView {
    SceneView {
        source: match m.source {
            SceneSource::Named(n) => SourceView::Named(n@),
            SceneSource::Flat { texture_id, image_id } => SourceView::Flat(texture_id as int, image_id as int),
            SceneSource::Empty => SourceView::Empty,
        },
        frame: match m.frame {
            SceneFrame::Static(r) => SceneFrameView::Static(r),
            SceneFrame::Object(r) => SceneFrameView::Object(r),
            SceneFrame::Dropped { pos_x, pos_y, pos_z, drops } => SceneFrameView::Dropped(
                pos_x as int,
                pos_y as int,
                pos_z as int,
                drops as int,
            ),
        },
        model_name: m.model_name@,
        source_id: match m.source_id {
            Some(s) => Some(s@),
            None => None,
        },
        texture_override: m.texture_override,
    }
}

/// Shown models as values.
pub open spec fn scene_views(v: Seq<SceneModel>) -> Seq<SceneView> {
    v.map_values(|m: SceneModel| scene_view(m))
}

/// What the scene's scripted objects are resolved with: the `RAAN` payload
/// and, from the first `RAHD` section, the actors' animation files and
/// texture replacements.
pub struct ActorTables {
    pub raan: Option<Seq<u8>>,
    pub anims: Map<Seq<char>, (usize, usize)>,
    pub textures: Map<Seq<char>, u16>,
}

/// The actor tables of a scene file.
pub open spec fn actor_tables(d: Seq<u8>) -> ActorTables {
    let rahd = match first_payload(d, seq![0x52u8, 0x41u8, 0x48u8, 0x44u8]) {
        Some(p) => p,
        None => Seq::empty(),
    };
    ActorTables {
        raan: first_payload(d, seq![0x52u8, 0x41u8, 0x41u8, 0x4Eu8]),
        anims: rahd_raan_index(rahd),
        textures: rahd_texture_overrides(rahd),
    }
}

/// The model a scripted object asks for.
pub open spec fn object_model(r: MpobRecord, t: ActorTables) -> Seq<char> {
    mpob_model_choice(utf8_lossy(trim_nul(r.model_name@)), utf8_lossy(trim_nul(r.script_name@)), t.raan, t.anims)
}

/// Static models from record `i` on: each named model that was found is
/// shown as `S<i>_<name>`.
pub open spec fn mps_models(recs: Seq<MpsRecord>, i: int, avail: Seq<String>) -> Seq<SceneView>
    decreases recs.len() - i,
{
    if i < 0 || i >= recs.len() {
        Seq::empty()
    } else {
        let name = utf8_lossy(trim_nul(recs[i].model_name@));
        let here = if name.len() > 0 && has_text(avail, name) {
            seq![
                SceneView {
                    source: SourceView::Named(name),
                    frame: SceneFrameView::Static(recs[i]),
                    model_name: seq!['S'] + dec_pad(i as nat, 3) + seq!['_'] + name,
                    source_id: Some(name),
                    texture_override: None,
                },
            ]
        } else {
            Seq::empty()
        };
        here + mps_models(recs, i + 1, avail)
    }
}

/// Scripted object `i`, shown as `B_<i>_<script>`: its model when found,
/// with the actor's texture replacement (noted as `:tex<id>` in its source
/// identifier), else nothing but its frame; objects that ask for no model
/// are left out.
pub open spec fn mpob_model_one(r: MpobRecord, i: int, t: ActorTables, avail: Seq<String>) -> Seq<SceneView> {
    let script = utf8_lossy(trim_nul(r.script_name@));
    let resolved = object_model(r, t);
    let name = seq!['B', '_'] + dec_pad(i as nat, 3) + seq!['_'] + script;
    if resolved.len() == 0 {
        Seq::empty()
    } else if has_text(avail, resolved) {
        let tex = if t.textures.contains_key(script) {
            Some(t.textures[script])
        } else {
            None
        };
        seq![
            SceneView {
                source: SourceView::Named(resolved),
                frame: SceneFrameView::Object(r),
                model_name: name,
                source_id: Some(
                    match tex {
                        Some(id) => resolved + ":tex"@ + dec_nat(id as nat),
                        None => resolved,
                    },
                ),
                texture_override: tex,
            },
        ]
    } else {
        seq![
            SceneView {
                source: SourceView::Empty,
                frame: SceneFrameView::Object(r),
                model_name: name,
                source_id: None,
                texture_override: None,
            },
        ]
    }
}

/// Scripted objects from record `i` on.
pub open spec fn mpob_models(recs: Seq<MpobRecord>, i: int, t: ActorTables, avail: Seq<String>) -> Seq<SceneView>
    decreases recs.len() - i,
{
    if i < 0 || i >= recs.len() {
        Seq::empty()
    } else {
        mpob_model_one(recs[i], i, t, avail) + mpob_models(recs, i + 1, t, avail)
    }
}

/// Link `j` of rope `i`.
pub open spec fn rope_link_model(a: RopeAnchor, i: int, j: int) -> SceneView {
    SceneView {
        source: SourceView::Named(a.rope_model),
        frame: SceneFrameView::Dropped(a.pos_x, a.pos_y, a.pos_z, j + 1),
        model_name: seq!['R'] + dec_pad(i as nat, 3) + seq!['_'] + dec_pad(j as nat, 3) + seq!['_'] + a.rope_model,
        source_id: Some(a.rope_model),
        texture_override: None,
    }
}

/// Rope `i`: when its link model was found, one link per unit of length,
/// each one step lower (`R<i>_<j>_<model>`); then, when its end model was
/// found, that model one step below the last link shown.
pub open spec fn rope_models_one(a: RopeAnchor, i: int, avail: Seq<String>) -> Seq<SceneView> {
    let links: int = if a.length < 0 { 0 } else { a.length };
    let rope_ok = a.rope_model.len() > 0 && has_text(avail, a.rope_model);
    let link_part = if rope_ok {
        Seq::new(links as nat, |j: int| rope_link_model(a, i, j))
    } else {
        Seq::empty()
    };
    let dropped: int = if rope_ok { links } else { 0 };
    let end_part = if a.static_model.len() > 0 && has_text(avail, a.static_model) {
        seq![
            SceneView {
                source: SourceView::Named(a.static_model),
                frame: SceneFrameView::Dropped(a.pos_x, a.pos_y, a.pos_z, dropped + 1),
                model_name: seq!['R'] + dec_pad(i as nat, 3) + seq!['_'] + dec_pad(links as nat, 3) + seq!['_']
                    + a.static_model,
                source_id: Some(a.static_model),
                texture_override: None,
            },
        ]
    } else {
        Seq::empty()
    };
    link_part + end_part
}

/// Ropes from `i` on.
pub open spec fn rope_models(anchors: Seq<RopeAnchor>, i: int, avail: Seq<String>) -> Seq<SceneView>
    decreases anchors.len() - i,
{
    if i < 0 || i >= anchors.len() {
        Seq::empty()
    } else {
        rope_models_one(anchors[i], i, avail) + rope_models(anchors, i + 1, avail)
    }
}

/// Flat sprite `i` of an `MPSF` payload, shown as `F<i>_<texture>/<image>`.
pub open spec fn flat_model(d: Seq<u8>, i: int) -> SceneView {
    let p = 4 + 24 * i;
    let tex = spec_u16_le(d, p + 20) / 128;
    let img = spec_u16_le(d, p + 20) % 128;
    SceneView {
        source: SourceView::Flat(tex, img),
        frame: SceneFrameView::Dropped(spec_i24(d, p + 8), spec_i24(d, p + 12), spec_u24(d, p + 16), 0),
        model_name: seq!['F'] + dec_pad(i as nat, 3) + seq!['_'] + dec_nat(tex as nat) + seq!['/'] + dec_nat(img as nat),
        source_id: None,
        texture_override: None,
    }
}

/// The models one section shows.
pub open spec fn section_models(s: RgmSection, t: ActorTables, avail: Seq<String>) -> Seq<SceneView> {
    match s {
        RgmSection::Mps(_, recs) => mps_models(recs@, 0, avail),
        RgmSection::MpobParsed(_, recs) => mpob_models(recs@, 0, t, avail),
        RgmSection::MprpParsed(_, recs) => rope_models(recs@.map_values(|r: MprpRecord| rope_anchor(r)), 0, avail),
        RgmSection::Mprp(_, d) => rope_models(mprp_anchors(d@), 0, avail),
        RgmSection::Mpf(_, d) => Seq::new(mpsf_count(d@) as nat, |i: int| flat_model(d@, i)),
        _ => Seq::empty(),
    }
}

/// The models the sections from `i` on show, in order.
pub open spec fn models_from(ss: Seq<RgmSection>, i: int, t: ActorTables, avail: Seq<String>) -> Seq<SceneView>
    decreases ss.len() - i,
{
    if i < 0 || i >= ss.len() {
        Seq::empty()
    } else {
        section_models(ss[i], t, avail) + models_from(ss, i + 1, t, avail)
    }
}

} // verus!

verus! {

proof fn lemma_scene_push(v: Seq<SceneModel>, m: SceneModel)
    ensures
        scene_views(v.push(m)) == scene_views(v).push(scene_view(m)),
{
    assert(scene_views(v.push(m)) =~= scene_views(v).push(scene_view(m)));
}

/// Whether some text of `v` is `s`.
fn contains_name(v: &Vec<String>, s: &String) -> (r: bool)
    ensures
        r == has_text(v@, s@),
{
    let mut i: usize = 0;
    while i < v.len()
        invariant
            i <= v@.len(),
            forall|k: int| 0 <= k < i ==> #[trigger] v@[k]@ != s@,
        decreases v@.len() - i,
    {
        if v[i].eq(s) {
            return true;
        }
        i += 1;
    }
    false
}

fn push_mps_models(out: &mut Vec<SceneModel>, recs: &Vec<MpsRecord>, avail: &Vec<String>)
    ensures
        scene_views(final(out)@) == scene_views(old(out)@) + mps_models(recs@, 0, avail@),
{
    let ghost start = scene_views(out@);
    let mut i: usize = 0;
    while i < recs.len()
        invariant
            i <= recs@.len(),
            start + mps_models(recs@, 0, avail@) == scene_views(out@) + mps_models(recs@, i as int, avail@),
        decreases recs@.len() - i,
    {
        let record = recs[i];
        let name = record.model_name();
        let ghost rest = mps_models(recs@, i + 1, avail@);
        if !name.as_str().is_empty() && contains_name(avail, &name) {
            let mut id = numbered('S', i);
            id.push('_');
            let nc = chars_of(name.as_str());
            append_chars(&mut id, &nc);
            assert(id@ =~= seq!['S'] + dec_pad(i as nat, 3) + seq!['_'] + name@);
            let m = SceneModel {
                source: SceneSource::Named(name.clone()),
                frame: SceneFrame::Static(record),
                model_name: string_from_chars(id.as_slice()),
                source_id: Some(name),
                texture_override: None,
            };
            proof {
                lemma_scene_push(out@, m);
                assert(mps_models(recs@, i as int, avail@) =~= seq![scene_view(m)] + rest);
                assert(scene_views(out@).push(scene_view(m)) + rest =~= scene_views(out@) + (seq![scene_view(m)]
                    + rest));
            }
            out.push(m);
        } else {
            assert(mps_models(recs@, i as int, avail@) =~= rest);
        }
        i += 1;
    }
}

/// The tables read from the scene file, as values.
pub open spec fn tables_of(
    raan: Option<&[u8]>,
    anims: Seq<(String, (usize, usize))>,
    textures: Seq<(String, u16)>,
) -> ActorTables {
    ActorTables {
        raan: match raan {
            Some(d) => Some(d@),
            None => None,
        },
        anims: assoc_map(anims),
        textures: assoc_map(textures),
    }
}

fn push_mpob_models(
    out: &mut Vec<SceneModel>,
    recs: &Vec<MpobRecord>,
    raan: Option<&[u8]>,
    anims: &Vec<(String, (usize, usize))>,
    textures: &Vec<(String, u16)>,
    avail: &Vec<String>,
)
    requires
        keys_unique(anims@),
        keys_unique(textures@),
    ensures
        scene_views(final(out)@) == scene_views(old(out)@) + mpob_models(
            recs@,
            0,
            tables_of(raan, anims@, textures@),
            avail@,
        ),
{
    let ghost t = tables_of(raan, anims@, textures@);
    let ghost start = scene_views(out@);
    let mut i: usize = 0;
    while i < recs.len()
        invariant
            i <= recs@.len(),
            keys_unique(anims@),
            keys_unique(textures@),
            t == tables_of(raan, anims@, textures@),
            start + mpob_models(recs@, 0, t, avail@) == scene_views(out@) + mpob_models(recs@, i as int, t, avail@),
        decreases recs@.len() - i,
    {
        let record = recs[i];
        let script = record.script_name();
        let resolved = resolve_mpob_model_name(&record, script.as_str(), raan, anims);
        let ghost before = scene_views(out@);
        let mut name_chars: Vec<char> = Vec::new();
        name_chars.push('B');
        name_chars.push('_');
        push_dec_pad(&mut name_chars, i as u64, 3);
        name_chars.push('_');
        let sc = chars_of(script.as_str());
        append_chars(&mut name_chars, &sc);
        assert(name_chars@ =~= seq!['B', '_'] + dec_pad(i as nat, 3) + seq!['_'] + script@);
        if resolved.as_str().is_empty() {
            assert(mpob_model_one(record, i as int, t, avail@) =~= Seq::<SceneView>::empty());
        } else if contains_name(avail, &resolved) {
            let tex: Option<u16> = match assoc_get(textures, &script) {
                Some(id) => Some(*id),
                None => None,
            };
            let source_id = match tex {
                Some(id) => {
                    let mut cs = chars_of(resolved.as_str());
                    push_str_chars(&mut cs, ":tex");
                    push_dec(&mut cs, id as u64);
                    string_from_chars(cs.as_slice())
                },
                None => resolved.clone(),
            };
            let m = SceneModel {
                source: SceneSource::Named(resolved),
                frame: SceneFrame::Object(record),
                model_name: string_from_chars(name_chars.as_slice()),
                source_id: Some(source_id),
                texture_override: tex,
            };
            proof {
                lemma_scene_push(out@, m);
                assert(mpob_model_one(record, i as int, t, avail@) =~= seq![scene_view(m)]);
            }
            out.push(m);
        } else {
            let m = SceneModel {
                source: SceneSource::Empty,
                frame: SceneFrame::Object(record),
                model_name: string_from_chars(name_chars.as_slice()),
                source_id: None,
                texture_override: None,
            };
            proof {
                lemma_scene_push(out@, m);
                assert(mpob_model_one(record, i as int, t, avail@) =~= seq![scene_view(m)]);
            }
            out.push(m);
        }
        proof {
            assert(recs@[i as int] == record);
            assert(before + (mpob_model_one(record, i as int, t, avail@) + mpob_models(recs@, i + 1, t, avail@)) =~= (
            before + mpob_model_one(record, i as int, t, avail@)) + mpob_models(recs@, i + 1, t, avail@));
        }
        i += 1;
    }
}

fn push_rope_model_one(out: &mut Vec<SceneModel>, r: &MprpRecord, i: usize, avail: &Vec<String>)
    ensures
        scene_views(final(out)@) == scene_views(old(out)@) + rope_models_one(rope_anchor(*r), i as int, avail@),
{
    let ghost a = rope_anchor(*r);
    let ghost start = scene_views(out@);
    let links: usize = if r.length < 0 { 0 } else { r.length as usize };
    let rope_ok = !r.rope_model.as_str().is_empty() && contains_name(avail, &r.rope_model);
    let ghost link_part = if rope_ok {
        Seq::new(links as nat, |j: int| rope_link_model(a, i as int, j))
    } else {
        Seq::empty()
    };
    if rope_ok {
        let rc = chars_of(r.rope_model.as_str());
        let mut j: usize = 0;
        while j < links
            invariant
                j <= links,
                links == (if a.length < 0 { 0 } else { a.length }),
                rope_ok,
                a == rope_anchor(*r),
                rc@ == r.rope_model@,
                link_part == Seq::new(links as nat, |j: int| rope_link_model(a, i as int, j)),
                scene_views(out@) == start + link_part.take(j as int),
            decreases links - j,
        {
            let mut id = numbered('R', i);
            id.push('_');
            push_dec_pad(&mut id, j as u64, 3);
            id.push('_');
            append_chars(&mut id, &rc);
            assert(id@ =~= seq!['R'] + dec_pad(i as nat, 3) + seq!['_'] + dec_pad(j as nat, 3) + seq!['_']
                + r.rope_model@);
            let m = SceneModel {
                source: SceneSource::Named(r.rope_model.clone()),
                frame: SceneFrame::Dropped { pos_x: r.pos_x, pos_y: r.pos_y, pos_z: r.pos_z, drops: j + 1 },
                model_name: string_from_chars(id.as_slice()),
                source_id: Some(r.rope_model.clone()),
                texture_override: None,
            };
            proof {
                lemma_scene_push(out@, m);
                assert(scene_view(m) == link_part[j as int]);
                assert(link_part.take(j + 1) =~= link_part.take(j as int).push(link_part[j as int]));
            }
            out.push(m);
            j += 1;
        }
        assert(link_part.take(links as int) =~= link_part);
    } else {
        assert(scene_views(out@) =~= start + link_part);
    }
    let dropped: usize = if rope_ok { links } else { 0 };
    if !r.static_model.as_str().is_empty() && contains_name(avail, &r.static_model) {
        let mut id = numbered('R', i);
        id.push('_');
        push_dec_pad(&mut id, links as u64, 3);
        id.push('_');
        let sc = chars_of(r.static_model.as_str());
        append_chars(&mut id, &sc);
        assert(id@ =~= seq!['R'] + dec_pad(i as nat, 3) + seq!['_'] + dec_pad(links as nat, 3) + seq!['_']
            + r.static_model@);
        let m = SceneModel {
            source: SceneSource::Named(r.static_model.clone()),
            frame: SceneFrame::Dropped { pos_x: r.pos_x, pos_y: r.pos_y, pos_z: r.pos_z, drops: dropped + 1 },
            model_name: string_from_chars(id.as_slice()),
            source_id: Some(r.static_model.clone()),
            texture_override: None,
        };
        proof {
            lemma_scene_push(out@, m);
        }
        out.push(m);
        assert(scene_views(out@) =~= start + rope_models_one(a, i as int, avail@));
    } else {
        assert(scene_views(out@) =~= start + rope_models_one(a, i as int, avail@));
    }
}

fn push_rope_models(out: &mut Vec<SceneModel>, recs: &Vec<MprpRecord>, avail: &Vec<String>)
    ensures
        scene_views(final(out)@) == scene_views(old(out)@) + rope_models(
            recs@.map_values(|x: MprpRecord| rope_anchor(x)),
            0,
            avail@,
        ),
{
    let ghost anchors = recs@.map_values(|x: MprpRecord| rope_anchor(x));
    let ghost start = scene_views(out@);
    let mut i: usize = 0;
    while i < recs.len()
        invariant
            i <= recs@.len(),
            anchors == recs@.map_values(|x: MprpRecord| rope_anchor(x)),
            start + rope_models(anchors, 0, avail@) == scene_views(out@) + rope_models(anchors, i as int, avail@),
        decreases recs@.len() - i,
    {
        let ghost before = scene_views(out@);
        push_rope_model_one(out, &recs[i], i, avail);
        proof {
            assert(anchors[i as int] == rope_anchor(recs@[i as int]));
            assert(before + (rope_models_one(anchors[i as int], i as int, avail@) + rope_models(anchors, i + 1, avail@))
                =~= (before + rope_models_one(anchors[i as int], i as int, avail@)) + rope_models(
                anchors,
                i + 1,
                avail@,
            ));
        }
        i += 1;
    }
    assert(rope_models(anchors, i as int, avail@) =~= Seq::<SceneView>::empty());
}

fn push_flat_models(out: &mut Vec<SceneModel>, d: &[u8])
    ensures
        scene_views(final(out)@) == scene_views(old(out)@) + Seq::new(mpsf_count(d@) as nat, |i: int| flat_model(d@, i)),
{
    let ghost want = Seq::new(mpsf_count(d@) as nat, |i: int| flat_model(d@, i));
    let recs = parse_mpsf_records(d);
    let ghost start = scene_views(out@);
    let mut i: usize = 0;
    while i < recs.len()
        invariant
            i <= recs@.len() == mpsf_count(d@),
            want == Seq::new(mpsf_count(d@) as nat, |i: int| flat_model(d@, i)),
            forall|k: int| 0 <= k < recs@.len() ==> mpsf_record_at(#[trigger] recs@[k], d@, 4 + 24 * k),
            scene_views(out@) == start + want.take(i as int),
        decreases recs@.len() - i,
    {
        let rec = recs[i];
        let mut id = numbered('F', i);
        id.push('_');
        push_dec(&mut id, rec.texture_id as u64);
        id.push('/');
        push_dec(&mut id, rec.image_id as u64);
        let m = SceneModel {
            source: SceneSource::Flat { texture_id: rec.texture_id, image_id: rec.image_id },
            frame: SceneFrame::Dropped { pos_x: rec.pos_x, pos_y: rec.pos_y, pos_z: rec.pos_z, drops: 0 },
            model_name: string_from_chars(id.as_slice()),
            source_id: None,
            texture_override: None,
        };
        proof {
            assert(mpsf_record_at(recs@[i as int], d@, 4 + 24 * i));
            assert(id@ =~= seq!['F'] + dec_pad(i as nat, 3) + seq!['_'] + dec_nat(rec.texture_id as nat) + seq!['/']
                + dec_nat(rec.image_id as nat));
            lemma_scene_push(out@, m);
            assert(scene_view(m) == flat_model(d@, i as int));
            assert(want.take(i + 1) =~= want.take(i as int).push(want[i as int]));
        }
        out.push(m);
        i += 1;
    }
    assert(want.take(i as int) =~= want);
}

fn push_light_models(out: &mut Vec<LightPlan>, recs: &Vec<MpslRecord>)
    ensures
        light_views(final(out)@) == light_views(old(out)@) + Seq::new(
            recs@.len(),
            |i: int| (recs@[i], seq!['L'] + dec_pad(i as nat, 3)),
        ),
{
    let ghost want = Seq::new(recs@.len(), |i: int| (recs@[i], seq!['L'] + dec_pad(i as nat, 3)));
    let ghost start = light_views(out@);
    let mut i: usize = 0;
    while i < recs.len()
        invariant
            i <= recs@.len(),
            want == Seq::new(recs@.len(), |i: int| (recs@[i], seq!['L'] + dec_pad(i as nat, 3))),
            light_views(out@) == start + want.take(i as int),
        decreases recs@.len() - i,
    {
        let id = numbered('L', i);
        let light = LightPlan { record: recs[i], name: string_from_chars(id.as_slice()) };
        proof {
            assert(light_views(out@.push(light)) =~= light_views(out@).push((light.record, light.name@)));
            assert(want.take(i + 1) =~= want.take(i as int).push(want[i as int]));
        }
        out.push(light);
        i += 1;
    }
    assert(want.take(i as int) =~= want);
}

/// The models and lights a scene shows, section by section in file order,
/// given the names under which a model file was found (`available`);
/// scripted objects are resolved through the scene's actor tables.
pub fn plan_scene_models(input: &[u8], rgm: &RgmFile, available: &Vec<String>) -> (r: (Vec<SceneModel>, Vec<LightPlan>))
    ensures
        scene_views(r.0@) == models_from(rgm.sections@, 0, actor_tables(input@), available@),
        light_views(r.1@) == super::placement::lights_from(rgm.sections@, 0),
{
    let rahd = first_section_payload(input, [0x52, 0x41, 0x48, 0x44]);
    let raan = first_section_payload(input, [0x52, 0x41, 0x41, 0x4E]);
    let rahd_bytes: &[u8] = match rahd {
        Some(p) => p,
        None => &[],
    };
    let anims = parse_rahd_raan_index(rahd_bytes);
    let textures = parse_rahd_texture_overrides(rahd_bytes);
    proof {
        assert([0x52u8, 0x41u8, 0x48u8, 0x44u8]@ =~= seq![0x52u8, 0x41u8, 0x48u8, 0x44u8]);
        assert([0x52u8, 0x41u8, 0x41u8, 0x4Eu8]@ =~= seq![0x52u8, 0x41u8, 0x41u8, 0x4Eu8]);
        assert(rahd is None ==> rahd_bytes@ =~= Seq::<u8>::empty());
    }
    let ghost t = tables_of(raan, anims@, textures@);
    assert(t == actor_tables(input@));
    let mut models: Vec<SceneModel> = Vec::new();
    let mut lights: Vec<LightPlan> = Vec::new();
    let ghost ss = rgm.sections@;
    assert(scene_views(models@) =~= Seq::<SceneView>::empty());
    assert(light_views(lights@) =~= Seq::<(MpslRecord, Seq<char>)>::empty());
    let mut i: usize = 0;
    while i < rgm.sections.len()
        invariant
            i <= ss.len(),
            ss == rgm.sections@,
            keys_unique(anims@),
            keys_unique(textures@),
            t == tables_of(raan, anims@, textures@),
            models_from(ss, 0, t, available@) == scene_views(models@) + models_from(ss, i as int, t, available@),
            super::placement::lights_from(ss, 0) == light_views(lights@) + super::placement::lights_from(ss, i as int),
        decreases ss.len() - i,
    {
        let ghost m0 = scene_views(models@);
        let ghost l0 = light_views(lights@);
        match &rgm.sections[i] {
            RgmSection::Mps(_, recs) => push_mps_models(&mut models, recs, available),
            RgmSection::MpobParsed(_, recs) => push_mpob_models(&mut models, recs, raan, &anims, &textures, available),
            RgmSection::MprpParsed(_, recs) => push_rope_models(&mut models, recs, available),
            RgmSection::Mprp(_, d) => {
                let recs = parse_mprp_records(d.as_slice());
                push_rope_models(&mut models, &recs, available);
            },
            RgmSection::Mpf(_, d) => push_flat_models(&mut models, d.as_slice()),
            RgmSection::MplParsed(_, recs) => push_light_models(&mut lights, recs),
            _ => {},
        }
        proof {
            assert(scene_views(models@) =~= m0 + section_models(ss[i as int], t, available@));
            assert(light_views(lights@) =~= l0 + section_lights(ss[i as int]));
            assert(m0 + (section_models(ss[i as int], t, available@) + models_from(ss, i + 1, t, available@)) =~= (m0
                + section_models(ss[i as int], t, available@)) + models_from(ss, i + 1, t, available@));
            assert(l0 + (section_lights(ss[i as int]) + super::placement::lights_from(ss, i + 1)) =~= (l0
                + section_lights(ss[i as int])) + super::placement::lights_from(ss, i + 1));
        }
        i += 1;
    }
    assert(models_from(ss, i as int, t, available@) =~= Seq::<SceneView>::empty());
    assert(super::placement::lights_from(ss, i as int) =~= Seq::<(MpslRecord, Seq<char>)>::empty());
    assert(scene_views(models@) + Seq::<SceneView>::empty() =~= scene_views(models@));
    assert(light_views(lights@) + Seq::<(MpslRecord, Seq<char>)>::empty() =~= light_views(lights@));
    (models, lights)
}

} // verus!

verus! {

/// The names one section asks a model file for: static models, the models
/// of scripted objects, and the link and end models of ropes, when named.
pub open spec fn section_requests(s: RgmSection, t: ActorTables) -> Seq<Seq<char>> {
    match s {
        RgmSection::Mps(_, recs) => recs@.map_values(|r: MpsRecord| utf8_lossy(trim_nul(r.model_name@))).filter(
            |n: Seq<char>| n.len() > 0,
        ),
        RgmSection::MpobParsed(_, recs) => recs@.map_values(|r: MpobRecord| object_model(r, t)).filter(
            |n: Seq<char>| n.len() > 0,
        ),
        RgmSection::MprpParsed(_, recs) => rope_requests(recs@.map_values(|r: MprpRecord| rope_anchor(r))),
        RgmSection::Mprp(_, d) => rope_requests(mprp_anchors(d@)),
        _ => Seq::empty(),
    }
}

/// The link and end model names of ropes, when named.
pub open spec fn rope_requests(anchors: Seq<RopeAnchor>) -> Seq<Seq<char>>
    decreases anchors.len(),
{
    if anchors.len() == 0 {
        Seq::empty()
    } else {
        let a = anchors.last();
        let here = seq![a.rope_model, a.static_model].filter(|n: Seq<char>| n.len() > 0);
        rope_requests(anchors.drop_last()) + here
    }
}

/// The names the sections from `i` on ask a model file for, in order.
pub open spec fn requests_from(ss: Seq<RgmSection>, i: int, t: ActorTables) -> Seq<Seq<char>>
    decreases ss.len() - i,
{
    if i < 0 || i >= ss.len() {
        Seq::empty()
    } else {
        section_requests(ss[i], t) + requests_from(ss, i + 1, t)
    }
}

proof fn lemma_filter_push<A>(s: Seq<A>, p: spec_fn(A) -> bool, x: A)
    ensures
        s.push(x).filter(p) == (if p(x) {
            s.filter(p).push(x)
        } else {
            s.filter(p)
        }),
{
    reveal(Seq::filter);
    assert(s.push(x).drop_last() =~= s);
}

fn push_name(out: &mut Vec<String>, n: String)
    ensures
        final(out)@.map_values(|s: String| s@) == old(out)@.map_values(|s: String| s@) + (if n@.len() > 0 {
            seq![n@]
        } else {
            Seq::empty()
        }),
{
    let ghost before = out@;
    if !n.as_str().is_empty() {
        out.push(n);
        assert(out@.map_values(|s: String| s@) =~= before.map_values(|s: String| s@) + seq![out@.last()@]);
    } else {
        assert(before.map_values(|s: String| s@) + Seq::<Seq<char>>::empty() =~= before.map_values(|s: String| s@));
    }
}

/// The names under which a scene looks for model files, in the order the
/// scene shows them (repeats kept).
pub fn scene_model_names(input: &[u8], rgm: &RgmFile) -> (r: Vec<String>)
    ensures
        r@.map_values(|s: String| s@) == requests_from(rgm.sections@, 0, actor_tables(input@)),
{
    let rahd = first_section_payload(input, [0x52, 0x41, 0x48, 0x44]);
    let raan = first_section_payload(input, [0x52, 0x41, 0x41, 0x4E]);
    let rahd_bytes: &[u8] = match rahd {
        Some(p) => p,
        None => &[],
    };
    let anims = parse_rahd_raan_index(rahd_bytes);
    let textures = parse_rahd_texture_overrides(rahd_bytes);
    proof {
        assert([0x52u8, 0x41u8, 0x48u8, 0x44u8]@ =~= seq![0x52u8, 0x41u8, 0x48u8, 0x44u8]);
        assert([0x52u8, 0x41u8, 0x41u8, 0x4Eu8]@ =~= seq![0x52u8, 0x41u8, 0x41u8, 0x4Eu8]);
        assert(rahd is None ==> rahd_bytes@ =~= Seq::<u8>::empty());
    }
    let ghost t = tables_of(raan, anims@, textures@);
    assert(t == actor_tables(input@));
    let ghost ss = rgm.sections@;
    let mut out: Vec<String> = Vec::new();
    assert(out@.map_values(|s: String| s@) =~= Seq::<Seq<char>>::empty());
    let mut i: usize = 0;
    while i < rgm.sections.len()
        invariant
            i <= ss.len(),
            ss == rgm.sections@,
            keys_unique(anims@),
            t == tables_of(raan, anims@, textures@),
            requests_from(ss, 0, t) == out@.map_values(|s: String| s@) + requests_from(ss, i as int, t),
        decreases ss.len() - i,
    {
        let ghost o0 = out@.map_values(|s: String| s@);
        match &rgm.sections[i] {
            RgmSection::Mps(_, recs) => {
                let ghost names = recs@.map_values(|r: MpsRecord| utf8_lossy(trim_nul(r.model_name@)));
                let mut k: usize = 0;
                while k < recs.len()
                    invariant
                        k <= recs@.len(),
                        names == recs@.map_values(|r: MpsRecord| utf8_lossy(trim_nul(r.model_name@))),
                        out@.map_values(|s: String| s@) == o0 + names.take(k as int).filter(|n: Seq<char>| n.len() > 0),
                    decreases recs@.len() - k,
                {
                    let n = recs[k].model_name();
                    proof {
                        assert(names.take(k + 1).drop_last() =~= names.take(k as int));
                        lemma_filter_push(names.take(k as int), |n: Seq<char>| n.len() > 0, names[k as int]);
                        assert(names.take(k + 1) =~= names.take(k as int).push(names[k as int]));
                    }
                    push_name(&mut out, n);
                    k += 1;
                }
                assert(names.take(k as int) =~= names);
            },
            RgmSection::MpobParsed(_, recs) => {
                let ghost names = recs@.map_values(|r: MpobRecord| object_model(r, t));
                let mut k: usize = 0;
                while k < recs.len()
                    invariant
                        k <= recs@.len(),
                        keys_unique(anims@),
                        t == tables_of(raan, anims@, textures@),
                        names == recs@.map_values(|r: MpobRecord| object_model(r, t)),
                        out@.map_values(|s: String| s@) == o0 + names.take(k as int).filter(|n: Seq<char>| n.len() > 0),
                    decreases recs@.len() - k,
                {
                    let record = recs[k];
                    let script = record.script_name();
                    let n = resolve_mpob_model_name(&record, script.as_str(), raan, &anims);
                    proof {
                        assert(n@ == names[k as int]);
                        lemma_filter_push(names.take(k as int), |n: Seq<char>| n.len() > 0, names[k as int]);
                        assert(names.take(k + 1) =~= names.take(k as int).push(names[k as int]));
                    }
                    push_name(&mut out, n);
                    k += 1;
                }
                assert(names.take(k as int) =~= names);
            },
            RgmSection::MprpParsed(_, recs) => push_rope_names(&mut out, recs),
            RgmSection::Mprp(_, d) => {
                let recs = parse_mprp_records(d.as_slice());
                push_rope_names(&mut out, &recs);
            },
            _ => {},
        }
        proof {
            assert(out@.map_values(|s: String| s@) =~= o0 + section_requests(ss[i as int], t));
            assert(o0 + (section_requests(ss[i as int], t) + requests_from(ss, i + 1, t)) =~= (o0 + section_requests(
                ss[i as int],
                t,
            )) + requests_from(ss, i + 1, t));
        }
        i += 1;
    }
    assert(requests_from(ss, i as int, t) =~= Seq::<Seq<char>>::empty());
    assert(out@.map_values(|s: String| s@) + Seq::<Seq<char>>::empty() =~= out@.map_values(|s: String| s@));
    out
}

fn push_rope_names(out: &mut Vec<String>, recs: &Vec<MprpRecord>)
    ensures
        final(out)@.map_values(|s: String| s@) == old(out)@.map_values(|s: String| s@) + rope_requests(
            recs@.map_values(|r: MprpRecord| rope_anchor(r)),
        ),
{
    let ghost anchors = recs@.map_values(|r: MprpRecord| rope_anchor(r));
    let ghost o0 = out@.map_values(|s: String| s@);
    let mut k: usize = 0;
    while k < recs.len()
        invariant
            k <= recs@.len(),
            anchors == recs@.map_values(|r: MprpRecord| rope_anchor(r)),
            out@.map_values(|s: String| s@) == o0 + rope_requests(anchors.take(k as int)),
        decreases recs@.len() - k,
    {
        let ghost a = anchors[k as int];
        let ghost o1 = out@.map_values(|s: String| s@);
        push_name(out, recs[k].rope_model.clone());
        push_name(out, recs[k].static_model.clone());
        proof {
            assert(anchors.take(k + 1).drop_last() =~= anchors.take(k as int));
            assert(anchors.take(k + 1).last() == a);
            let here = seq![a.rope_model, a.static_model].filter(|n: Seq<char>| n.len() > 0);
            lemma_filter_push(seq![a.rope_model], |n: Seq<char>| n.len() > 0, a.static_model);
            lemma_filter_push(Seq::<Seq<char>>::empty(), |n: Seq<char>| n.len() > 0, a.rope_model);
            assert(seq![a.rope_model] =~= Seq::<Seq<char>>::empty().push(a.rope_model));
            assert(seq![a.rope_model, a.static_model] =~= seq![a.rope_model].push(a.static_model));
            assert(Seq::<Seq<char>>::empty().filter(|n: Seq<char>| n.len() > 0) =~= Seq::<Seq<char>>::empty()) by {
                reveal(Seq::filter);
            }
            assert(out@.map_values(|s: String| s@) =~= o1 + here);
        }
        k += 1;
    }
    assert(anchors.take(k as int) =~= anchors);
}

} // verus!

verus! {

/// Every model of `v` shown by name has a name found among `avail`.
pub open spec fn shows_found_names(v: Seq<SceneView>, avail: Seq<String>) -> bool {
    forall|k: int| 0 <= k < v.len() ==> ((#[trigger] v[k]).source matches SourceView::Named(n) ==> has_text(avail, n))
}

proof fn lemma_found_concat(a: Seq<SceneView>, b: Seq<SceneView>, avail: Seq<String>)
    requires
        shows_found_names(a, avail),
        shows_found_names(b, avail),
    ensures
        shows_found_names(a + b, avail),
{
    assert forall|k: int| 0 <= k < (a + b).len() implies ((#[trigger] (a + b)[k]).source matches SourceView::Named(n)
        ==> has_text(avail, n)) by {
        if k >= a.len() {
            assert((a + b)[k] == b[k - a.len()]);
        }
    }
}

proof fn lemma_mps_found(recs: Seq<MpsRecord>, i: int, avail: Seq<String>)
    ensures
        shows_found_names(mps_models(recs, i, avail), avail),
    decreases recs.len() - i,
{
    if 0 <= i < recs.len() {
        lemma_mps_found(recs, i + 1, avail);
        let name = utf8_lossy(trim_nul(recs[i].model_name@));
        let here = if name.len() > 0 && has_text(avail, name) {
            seq![
                SceneView {
                    source: SourceView::Named(name),
                    frame: SceneFrameView::Static(recs[i]),
                    model_name: seq!['S'] + dec_pad(i as nat, 3) + seq!['_'] + name,
                    source_id: Some(name),
                    texture_override: None,
                },
            ]
        } else {
            Seq::empty()
        };
        lemma_found_concat(here, mps_models(recs, i + 1, avail), avail);
    }
}

proof fn lemma_mpob_found(recs: Seq<MpobRecord>, i: int, t: ActorTables, avail: Seq<String>)
    ensures
        shows_found_names(mpob_models(recs, i, t, avail), avail),
    decreases recs.len() - i,
{
    if 0 <= i < recs.len() {
        lemma_mpob_found(recs, i + 1, t, avail);
        lemma_found_concat(mpob_model_one(recs[i], i, t, avail), mpob_models(recs, i + 1, t, avail), avail);
    }
}

proof fn lemma_ropes_found(anchors: Seq<RopeAnchor>, i: int, avail: Seq<String>)
    ensures
        shows_found_names(rope_models(anchors, i, avail), avail),
    decreases anchors.len() - i,
{
    if 0 <= i < anchors.len() {
        lemma_ropes_found(anchors, i + 1, avail);
        let one = rope_models_one(anchors[i], i, avail);
        assert(shows_found_names(one, avail)) by {
            let a = anchors[i];
            let links: int = if a.length < 0 { 0 } else { a.length };
            let rope_ok = a.rope_model.len() > 0 && has_text(avail, a.rope_model);
            let link_part = if rope_ok {
                Seq::new(links as nat, |j: int| rope_link_model(a, i, j))
            } else {
                Seq::empty()
            };
            let end_part = one.subrange(link_part.len() as int, one.len() as int);
            assert(one == link_part + end_part);
            lemma_found_concat(link_part, end_part, avail);
        }
        lemma_found_concat(one, rope_models(anchors, i + 1, avail), avail);
    }
}

proof fn lemma_section_found(s: RgmSection, t: ActorTables, avail: Seq<String>)
    ensures
        shows_found_names(section_models(s, t, avail), avail),
{
    match s {
        RgmSection::Mps(_, recs) => lemma_mps_found(recs@, 0, avail),
        RgmSection::MpobParsed(_, recs) => lemma_mpob_found(recs@, 0, t, avail),
        RgmSection::MprpParsed(_, recs) => lemma_ropes_found(recs@.map_values(|r: MprpRecord| rope_anchor(r)), 0, avail),
        RgmSection::Mprp(_, d) => lemma_ropes_found(mprp_anchors(d@), 0, avail),
        _ => {},
    }
}

proof fn lemma_models_found(ss: Seq<RgmSection>, i: int, t: ActorTables, avail: Seq<String>)
    ensures
        shows_found_names(models_from(ss, i, t, avail), avail),
    decreases ss.len() - i,
{
    if 0 <= i < ss.len() {
        lemma_models_found(ss, i + 1, t, avail);
        lemma_section_found(ss[i], t, avail);
        lemma_found_concat(section_models(ss[i], t, avail), models_from(ss, i + 1, t, avail), avail);
    }
}

/// A scene shows by name only models whose names were found: whatever the
/// scene file and the names found, each model `plan_scene_models` gives a
/// named source carries one of those names.
pub proof fn law_scene_shows_only_found_models(input: Seq<u8>, rgm: RgmFile, available: Seq<String>)
    ensures
        shows_found_names(models_from(rgm.sections@, 0, actor_tables(input), available), available),
{
    lemma_models_found(rgm.sections@, 0, actor_tables(input), available);
}

} // verus!
