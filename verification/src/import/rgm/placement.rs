//! The objects a scene places, as names, record references and integer
//! positions: static models, rope links and their end models, flat sprites
//! and lights. Turning positions into transforms is left to the caller.
use super::positioning::{
    mprp_anchors, mpsf_count, mpsf_record_at, parse_mpsf_records, parse_mprp_records, rope_anchor, RopeAnchor,
};
use super::parser::{spec_i24, spec_u24};
use super::{MprpRecord, MpsRecord, MpslRecord, RgmFile, RgmSection};
use crate::bytes::spec_u16_le;
use crate::text::{chars_of, dec_pad, first_index, first_index_from, push_dec_pad, string_from_chars, trim_nul, utf8_lossy};
use vstd::prelude::*;

verus! {

/// Kind of a placed object.
#[derive(Debug, Clone, Copy, PartialEq, Eq, Structural)]
pub enum PlacementType {
    Mesh,
    FlatSprite,
    RopeLink,
}

/// Where a placement's transform comes from.
#[derive(Debug, Clone, Copy)]
pub enum PlacementFrame {
    /// The rotation and position of a static model record.
    Static(MpsRecord),
    /// A scene position lowered by `drops` rope links.
    Dropped { pos_x: i32, pos_y: i32, pos_z: u32, drops: usize },
}

/// A placed object: the model shown, an identifier, its frame, its kind
/// and, for a flat sprite, the texture shown.
#[derive(Debug, Clone)]
pub struct PlacementPlan {
    pub model_name: String,
    pub source_id: String,
    pub frame: PlacementFrame,
    pub object_type: PlacementType,
    pub texture_id: u16,
    pub image_id: u8,
}

/// A light record with its name.
#[derive(Debug, Clone)]
pub struct LightPlan {
    pub record: MpslRecord,
    pub name: String,
}

/// A frame as values.
pub enum FrameView {
    Static(MpsRecord),
    Dropped(int, int, int, int),
}

/// A placement as values.
pub struct PlanView {
    pub model_name: Seq<char>,
    pub source_id: Seq<char>,
    pub frame: FrameView,
    pub object_type: PlacementType,
    pub texture_id: int,
    pub image_id: int,
}

/// The frame as values.
pub open spec fn frame_view(f: PlacementFrame) -> FrameView {
    match f {
        PlacementFrame::Static(r) => FrameView::Static(r),
        PlacementFrame::Dropped { pos_x, pos_y, pos_z, drops } => FrameView::Dropped(
            pos_x as int,
            pos_y as int,
            pos_z as int,
            drops as int,
        ),
    }
}

/// The placement as values.
pub open spec fn plan_view(p: PlacementPlan) -> PlanView {
    PlanView {
        model_name: p.model_name@,
        source_id: p.source_id@,
        frame: frame_view(p.frame),
        object_type: p.object_type,
        texture_id: p.texture_id as int,
        image_id: p.image_id as int,
    }
}

/// Placements as values.
pub open spec fn plan_views(v: Seq<PlacementPlan>) -> Seq<PlanView> {
    v.map_values(|p: PlacementPlan| plan_view(p))
}

/// Lights as values.
pub open spec fn light_views(v: Seq<LightPlan>) -> Seq<(MpslRecord, Seq<char>)> {
    v.map_values(|l: LightPlan| (l.record, l.name@))
}

/// `s` up to its first dot.
pub open spec fn strip_ext(s: Seq<char>) -> Seq<char> {
    s.take(first_index_from(s, 0, '.'))
}

/// The placements of the static model records from `i` on: each record
/// with a model name places that model (without extension) as `S<i>_<stem>`,
/// `i` written with at least three digits.
pub open spec fn mps_plans(recs: Seq<MpsRecord>, i: int) -> Seq<PlanView>
    decreases recs.len() - i,
{
    if i < 0 || i >= recs.len() {
        Seq::empty()
    } else {
        let name = utf8_lossy(trim_nul(recs[i].model_name@));
        let stem = strip_ext(name);
        let here = if name.len() == 0 {
            Seq::empty()
        } else {
            seq![
                PlanView {
                    model_name: stem,
                    source_id: seq!['S'] + dec_pad(i as nat, 3) + seq!['_'] + stem,
                    frame: FrameView::Static(recs[i]),
                    object_type: PlacementType::Mesh,
                    texture_id: 0,
                    image_id: 0,
                },
            ]
        };
        here + mps_plans(recs, i + 1)
    }
}

/// Link `j` of rope `i`, showing `rope`, `j + 1` steps below the anchor.
pub open spec fn rope_link(a: RopeAnchor, rope: Seq<char>, i: int, j: int) -> PlanView {
    PlanView {
        model_name: rope,
        source_id: seq!['R'] + dec_pad(i as nat, 3) + seq!['_'] + dec_pad(j as nat, 3) + seq!['_'] + rope,
        frame: FrameView::Dropped(a.pos_x, a.pos_y, a.pos_z, j + 1),
        object_type: PlacementType::RopeLink,
        texture_id: 0,
        image_id: 0,
    }
}

/// The placements of rope `i`: when it names a link model, one link per
/// unit of its length, each one step lower (`R<i>_<j>_<stem>`); then, when
/// it names an end model, that model one step below the last link
/// (`R<i>_<length>_<stem>`).
pub open spec fn rope_plans_one(a: RopeAnchor, i: int) -> Seq<PlanView> {
    let links: int = if a.length < 0 { 0 } else { a.length };
    let rope = strip_ext(a.rope_model);
    let end_model = strip_ext(a.static_model);
    let link_part = if rope.len() > 0 {
        Seq::new(links as nat, |j: int| rope_link(a, rope, i, j))
    } else {
        Seq::empty()
    };
    let dropped: int = if rope.len() > 0 { links } else { 0 };
    let end_part = if end_model.len() > 0 {
        seq![
            PlanView {
                model_name: end_model,
                source_id: seq!['R'] + dec_pad(i as nat, 3) + seq!['_'] + dec_pad(links as nat, 3) + seq!['_']
                    + end_model,
                frame: FrameView::Dropped(a.pos_x, a.pos_y, a.pos_z, dropped + 1),
                object_type: PlacementType::Mesh,
                texture_id: 0,
                image_id: 0,
            },
        ]
    } else {
        Seq::empty()
    };
    link_part + end_part
}

/// The placements of the ropes from `i` on.
pub open spec fn rope_plans(anchors: Seq<RopeAnchor>, i: int) -> Seq<PlanView>
    decreases anchors.len() - i,
{
    if i < 0 || i >= anchors.len() {
        Seq::empty()
    } else {
        rope_plans_one(anchors[i], i) + rope_plans(anchors, i + 1)
    }
}

/// The flat sprite at record `i` of an `MPSF` payload, named `F<i>`.
pub open spec fn flat_plan(d: Seq<u8>, i: int) -> PlanView {
    let p = 4 + 24 * i;
    PlanView {
        model_name: Seq::empty(),
        source_id: seq!['F'] + dec_pad(i as nat, 3),
        frame: FrameView::Dropped(spec_i24(d, p + 8), spec_i24(d, p + 12), spec_u24(d, p + 16), 0),
        object_type: PlacementType::FlatSprite,
        texture_id: spec_u16_le(d, p + 20) / 128,
        image_id: spec_u16_le(d, p + 20) % 128,
    }
}

/// The flat sprites of an `MPSF` payload.
pub open spec fn flat_plans(d: Seq<u8>) -> Seq<PlanView> {
    Seq::new(mpsf_count(d) as nat, |i: int| flat_plan(d, i))
}

/// The placements of one section: static models, ropes (decoded or raw)
/// and flat sprites; other sections place nothing.
pub open spec fn section_placements(s: RgmSection) -> Seq<PlanView> {
    match s {
        RgmSection::Mps(_, recs) => mps_plans(recs@, 0),
        RgmSection::MprpParsed(_, recs) => rope_plans(recs@.map_values(|r: MprpRecord| rope_anchor(r)), 0),
        RgmSection::Mprp(_, d) => rope_plans(mprp_anchors(d@), 0),
        RgmSection::Mpf(_, d) => flat_plans(d@),
        _ => Seq::empty(),
    }
}

/// The lights of a decoded light section, named `L<i>`.
pub open spec fn section_lights(s: RgmSection) -> Seq<(MpslRecord, Seq<char>)> {
    match s {
        RgmSection::MplParsed(_, recs) => Seq::new(
            recs@.len(),
            |i: int| (recs@[i], seq!['L'] + dec_pad(i as nat, 3)),
        ),
        _ => Seq::empty(),
    }
}

/// The placements of the sections from `i` on, in order.
pub open spec fn placements_from(ss: Seq<RgmSection>, i: int) -> Seq<PlanView>
    decreases ss.len() - i,
{
    if i < 0 || i >= ss.len() {
        Seq::empty()
    } else {
        section_placements(ss[i]) + placements_from(ss, i + 1)
    }
}

/// The lights of the sections from `i` on, in order.
pub open spec fn lights_from(ss: Seq<RgmSection>, i: int) -> Seq<(MpslRecord, Seq<char>)>
    decreases ss.len() - i,
{
    if i < 0 || i >= ss.len() {
        Seq::empty()
    } else {
        section_lights(ss[i]) + lights_from(ss, i + 1)
    }
}

/// The text `prefix`, `n` with at least three digits.
pub(crate) fn numbered(prefix: char, n: usize) -> (r: Vec<char>)
    ensures
        r@ == seq![prefix] + dec_pad(n as nat, 3),
{
    let mut out: Vec<char> = Vec::new();
    out.push(prefix);
    push_dec_pad(&mut out, n as u64, 3);
    out
}

/// `name` up to its first dot.
fn stem_of(name: &str) -> (r: Vec<char>)
    ensures
        r@ == strip_ext(name@),
{
    let cs = chars_of(name);
    let dot: usize = first_index(cs.as_slice(), 0, '.');
    let mut out: Vec<char> = Vec::new();
    let mut k: usize = 0;
    while k < dot
        invariant
            dot <= cs@.len(),
            k <= dot,
            out@ == cs@.take(k as int),
        decreases dot - k,
    {
        out.push(cs[k]);
        assert(cs@.take(k + 1) =~= cs@.take(k as int).push(cs@[k as int]));
        k += 1;
    }
    assert(cs@ == name@);
    out
}

pub(crate) fn append_chars(out: &mut Vec<char>, s: &Vec<char>)
    ensures
        final(out)@ == old(out)@ + s@,
{
    let mut k: usize = 0;
    let ghost start = out@;
    while k < s.len()
        invariant
            k <= s@.len(),
            out@ == start + s@.take(k as int),
        decreases s@.len() - k,
    {
        out.push(s[k]);
        assert(s@.take(k + 1) =~= s@.take(k as int).push(s@[k as int]));
        k += 1;
    }
    assert(s@.take(k as int) =~= s@);
}

proof fn lemma_views_push(v: Seq<PlacementPlan>, p: PlacementPlan)
    ensures
        plan_views(v.push(p)) == plan_views(v).push(plan_view(p)),
{
    assert(plan_views(v.push(p)) =~= plan_views(v).push(plan_view(p)));
}

fn push_mps_plans(out: &mut Vec<PlacementPlan>, recs: &Vec<MpsRecord>)
    ensures
        plan_views(final(out)@) == plan_views(old(out)@) + mps_plans(recs@, 0),
{
    let ghost start = plan_views(out@);
    let mut i: usize = 0;
    assert(start + mps_plans(recs@, 0) == start + mps_plans(recs@, 0));
    while i < recs.len()
        invariant
            i <= recs@.len(),
            start + mps_plans(recs@, 0) == plan_views(out@) + mps_plans(recs@, i as int),
        decreases recs@.len() - i,
    {
        let record = recs[i];
        let name = record.model_name();
        let ghost rest = mps_plans(recs@, i + 1);
        if name.as_str().is_empty() {
            assert(mps_plans(recs@, i as int) =~= rest);
        } else {
            let stem = stem_of(name.as_str());
            let mut id = numbered('S', i);
            id.push('_');
            append_chars(&mut id, &stem);
            assert(id@ =~= seq!['S'] + dec_pad(i as nat, 3) + seq!['_'] + stem@);
            let plan = PlacementPlan {
                model_name: string_from_chars(stem.as_slice()),
                source_id: string_from_chars(id.as_slice()),
                frame: PlacementFrame::Static(record),
                object_type: PlacementType::Mesh,
                texture_id: 0,
                image_id: 0,
            };
            proof {
                lemma_views_push(out@, plan);
                assert(plan_view(plan) == mps_plans(recs@, i as int)[0]);
                assert(mps_plans(recs@, i as int) =~= seq![plan_view(plan)] + rest);
                assert(plan_views(out@).push(plan_view(plan)) + rest =~= plan_views(out@) + (seq![plan_view(plan)]
                    + rest));
            }
            out.push(plan);
        }
        i += 1;
    }
}

/// Appends the placements of one rope.
fn push_rope_one(out: &mut Vec<PlacementPlan>, r: &MprpRecord, i: usize)
    ensures
        plan_views(final(out)@) == plan_views(old(out)@) + rope_plans_one(rope_anchor(*r), i as int),
{
    let ghost a = rope_anchor(*r);
    let ghost start = plan_views(out@);
    let links: usize = if r.length < 0 { 0 } else { r.length as usize };
    let rope = stem_of(r.rope_model.as_str());
    let end_model = stem_of(r.static_model.as_str());
    let ghost link_part = if rope@.len() > 0 {
        Seq::new(links as nat, |j: int| rope_link(a, rope@, i as int, j))
    } else {
        Seq::empty()
    };
    if rope.len() > 0 {
        let mut j: usize = 0;
        while j < links
            invariant
                j <= links,
                links == (if a.length < 0 { 0 } else { a.length }),
                rope@.len() > 0,
                a == rope_anchor(*r),
                plan_views(out@) == start + link_part.take(j as int),
                link_part.len() == links,
                forall|k: int| 0 <= k < links ==> #[trigger] link_part[k] == rope_link(a, rope@, i as int, k),
            decreases links - j,
        {
            let mut id = numbered('R', i);
            id.push('_');
            push_dec_pad(&mut id, j as u64, 3);
            id.push('_');
            append_chars(&mut id, &rope);
            assert(id@ =~= seq!['R'] + dec_pad(i as nat, 3) + seq!['_'] + dec_pad(j as nat, 3) + seq!['_'] + rope@);
            let plan = PlacementPlan {
                model_name: string_from_chars(rope.as_slice()),
                source_id: string_from_chars(id.as_slice()),
                frame: PlacementFrame::Dropped { pos_x: r.pos_x, pos_y: r.pos_y, pos_z: r.pos_z, drops: j + 1 },
                object_type: PlacementType::RopeLink,
                texture_id: 0,
                image_id: 0,
            };
            proof {
                lemma_views_push(out@, plan);
                assert(plan_view(plan) == link_part[j as int]);
                assert(link_part.take(j + 1) =~= link_part.take(j as int).push(link_part[j as int]));
            }
            out.push(plan);
            j += 1;
        }
        assert(link_part.take(links as int) =~= link_part);
    } else {
        assert(plan_views(out@) =~= start + link_part);
    }
    let ghost mid = plan_views(out@);
    let dropped: usize = if rope.len() > 0 { links } else { 0 };
    if end_model.len() > 0 {
        let mut id = numbered('R', i);
        id.push('_');
        push_dec_pad(&mut id, links as u64, 3);
        id.push('_');
        append_chars(&mut id, &end_model);
        assert(id@ =~= seq!['R'] + dec_pad(i as nat, 3) + seq!['_'] + dec_pad(links as nat, 3) + seq!['_']
            + end_model@);
        let plan = PlacementPlan {
            model_name: string_from_chars(end_model.as_slice()),
            source_id: string_from_chars(id.as_slice()),
            frame: PlacementFrame::Dropped { pos_x: r.pos_x, pos_y: r.pos_y, pos_z: r.pos_z, drops: dropped + 1 },
            object_type: PlacementType::Mesh,
            texture_id: 0,
            image_id: 0,
        };
        proof {
            lemma_views_push(out@, plan);
        }
        out.push(plan);
        assert(plan_views(out@) =~= start + rope_plans_one(a, i as int));
    } else {
        assert(plan_views(out@) =~= start + rope_plans_one(a, i as int));
    }
}

fn push_rope_plans(out: &mut Vec<PlacementPlan>, recs: &Vec<MprpRecord>)
    ensures
        plan_views(final(out)@) == plan_views(old(out)@) + rope_plans(
            recs@.map_values(|x: MprpRecord| rope_anchor(x)),
            0,
        ),
{
    let ghost anchors = recs@.map_values(|x: MprpRecord| rope_anchor(x));
    let ghost start = plan_views(out@);
    let mut i: usize = 0;
    while i < recs.len()
        invariant
            i <= recs@.len(),
            anchors == recs@.map_values(|x: MprpRecord| rope_anchor(x)),
            start + rope_plans(anchors, 0) == plan_views(out@) + rope_plans(anchors, i as int),
        decreases recs@.len() - i,
    {
        let ghost before = plan_views(out@);
        push_rope_one(out, &recs[i], i);
        proof {
            assert(anchors[i as int] == rope_anchor(recs@[i as int]));
            assert(rope_plans(anchors, i as int) == rope_plans_one(anchors[i as int], i as int) + rope_plans(
                anchors,
                i + 1,
            ));
            assert(before + (rope_plans_one(anchors[i as int], i as int) + rope_plans(anchors, i + 1)) =~= (before
                + rope_plans_one(anchors[i as int], i as int)) + rope_plans(anchors, i + 1));
        }
        i += 1;
    }
    assert(rope_plans(anchors, i as int) =~= Seq::<PlanView>::empty());
}

fn push_flat_plans(out: &mut Vec<PlacementPlan>, d: &[u8])
    ensures
        plan_views(final(out)@) == plan_views(old(out)@) + flat_plans(d@),
{
    let recs = parse_mpsf_records(d);
    let ghost start = plan_views(out@);
    let mut i: usize = 0;
    while i < recs.len()
        invariant
            i <= recs@.len() == mpsf_count(d@),
            forall|k: int| 0 <= k < recs@.len() ==> mpsf_record_at(#[trigger] recs@[k], d@, 4 + 24 * k),
            plan_views(out@) == start + flat_plans(d@).take(i as int),
        decreases recs@.len() - i,
    {
        let rec = recs[i];
        let id = numbered('F', i);
        let plan = PlacementPlan {
            model_name: String::new(),
            source_id: string_from_chars(id.as_slice()),
            frame: PlacementFrame::Dropped { pos_x: rec.pos_x, pos_y: rec.pos_y, pos_z: rec.pos_z, drops: 0 },
            object_type: PlacementType::FlatSprite,
            texture_id: rec.texture_id,
            image_id: rec.image_id,
        };
        proof {
            assert(mpsf_record_at(recs@[i as int], d@, 4 + 24 * i));
            lemma_views_push(out@, plan);
            assert(plan_view(plan) == flat_plan(d@, i as int));
            assert(flat_plans(d@).take(i + 1) =~= flat_plans(d@).take(i as int).push(flat_plan(d@, i as int)));
        }
        out.push(plan);
        i += 1;
    }
    assert(flat_plans(d@).take(i as int) =~= flat_plans(d@));
}

fn push_light_plans(out: &mut Vec<LightPlan>, recs: &Vec<MpslRecord>)
    ensures
        light_views(final(out)@) == light_views(old(out)@) + Seq::new(
            recs@.len(),
            |i: int| (recs@[i], seq!['L'] + dec_pad(i as nat, 3)),
        ),
{
    let ghost want = Seq::new(recs@.len(), |i: int| (recs@[i], seq!['L'] + dec_pad(i as nat, 3)));
    let ghost start = light_views(out@);
    let mut i: usize = 0;
    while i < recs.len()
        invariant
            i <= recs@.len(),
            want == Seq::new(recs@.len(), |i: int| (recs@[i], seq!['L'] + dec_pad(i as nat, 3))),
            light_views(out@) == start + want.take(i as int),
        decreases recs@.len() - i,
    {
        let id = numbered('L', i);
        let light = LightPlan { record: recs[i], name: string_from_chars(id.as_slice()) };
        proof {
            assert(light_views(out@.push(light)) =~= light_views(out@).push((light.record, light.name@)));
            assert(want.take(i + 1) =~= want.take(i as int).push(want[i as int]));
        }
        out.push(light);
        i += 1;
    }
    assert(want.take(i as int) =~= want);
}

/// The objects and lights a scene places, section by section in file order.
pub fn plan_placements(rgm: &RgmFile) -> (r: (Vec<PlacementPlan>, Vec<LightPlan>))
    ensures
        plan_views(r.0@) == placements_from(rgm.sections@, 0),
        light_views(r.1@) == lights_from(rgm.sections@, 0),
{
    let mut placements: Vec<PlacementPlan> = Vec::new();
    let mut lights: Vec<LightPlan> = Vec::new();
    let ghost ss = rgm.sections@;
    assert(plan_views(placements@) =~= Seq::<PlanView>::empty());
    assert(light_views(lights@) =~= Seq::<(MpslRecord, Seq<char>)>::empty());
    let mut i: usize = 0;
    while i < rgm.sections.len()
        invariant
            i <= ss.len(),
            ss == rgm.sections@,
            placements_from(ss, 0) == plan_views(placements@) + placements_from(ss, i as int),
            lights_from(ss, 0) == light_views(lights@) + lights_from(ss, i as int),
        decreases ss.len() - i,
    {
        let ghost p0 = plan_views(placements@);
        let ghost l0 = light_views(lights@);
        match &rgm.sections[i] {
            RgmSection::Mps(_, recs) => push_mps_plans(&mut placements, recs),
            RgmSection::MprpParsed(_, recs) => push_rope_plans(&mut placements, recs),
            RgmSection::Mprp(_, d) => {
                let recs = parse_mprp_records(d.as_slice());
                push_rope_plans(&mut placements, &recs);
            },
            RgmSection::Mpf(_, d) => push_flat_plans(&mut placements, d.as_slice()),
            RgmSection::MplParsed(_, recs) => push_light_plans(&mut lights, recs),
            _ => {},
        }
        proof {
            assert(plan_views(placements@) == p0 + section_placements(ss[i as int]));
            assert(light_views(lights@) =~= l0 + section_lights(ss[i as int]));
            assert(p0 + (section_placements(ss[i as int]) + placements_from(ss, i + 1)) =~= (p0 + section_placements(
                ss[i as int],
            )) + placements_from(ss, i + 1));
            assert(l0 + (section_lights(ss[i as int]) + lights_from(ss, i + 1)) =~= (l0 + section_lights(
                ss[i as int],
            )) + lights_from(ss, i + 1));
        }
        i += 1;
    }
    assert(placements_from(ss, i as int) =~= Seq::<PlanView>::empty());
    assert(lights_from(ss, i as int) =~= Seq::<(MpslRecord, Seq<char>)>::empty());
    assert(plan_views(placements@) + Seq::<PlanView>::empty() =~= plan_views(placements@));
    assert(light_views(lights@) + Seq::<(MpslRecord, Seq<char>)>::empty() =~= light_views(lights@));
    (placements, lights)
}

} // verus!
