//! The script compiler's definition file: the engine functions that scripts
//! call, the flags and object references they name, and the attribute and
//! animation-group names listed under `[equates]`.
use crate::import::lower_chars;
use crate::text::{
    chars_eq_str, chars_of, first_index, first_index_from, lemma_first_index_bounds, lower_vec, parse_u32_chars,
    parse_u32_text, split_words, string_from_chars, trim_bounds, trim_ws, words,
};
use vstd::prelude::*;

verus! {

/// The definitions read from the file.
#[derive(Debug, Clone)]
pub struct SoupDef {
    /// Engine functions by id; id 0 is `NullFunction`.
    pub functions: Vec<SoupFunction>,
    pub flags: Vec<SoupFlag>,
    pub references: Vec<String>,
    pub attributes: Vec<String>,
    pub anim_groups: Vec<String>,
}

/// An engine function and its declared parameter count.
#[derive(Debug, Clone)]
pub struct SoupFunction {
    pub name: String,
    pub param_count: u8,
}

/// A global flag and its declared type.
#[derive(Debug, Clone)]
pub struct SoupFlag {
    pub name: String,
    pub flag_type: String,
}

/// The section of the file a line belongs to.
#[derive(Debug, Clone, Copy, PartialEq, Eq)]
pub enum SoupSection {
    Preamble,
    Functions,
    Refs,
    Equates,
    Flags,
}

/// The definitions as values.
pub struct SoupModel {
    pub functions: Seq<(Seq<char>, u8)>,
    /// `(name, type)` pairs.
    pub flags: Seq<(Seq<char>, Seq<char>)>,
    pub references: Seq<Seq<char>>,
    pub attributes: Seq<Seq<char>>,
    pub anim_groups: Seq<Seq<char>>,
}

/// The texts of a list of strings.
pub open spec fn texts(v: Seq<String>) -> Seq<Seq<char>> {
    v.map_values(|s: String| s@)
}

/// The definitions that `d` holds.
pub open spec fn soup_view(d: SoupDef) -> SoupModel {
    SoupModel {
        functions: d.functions@.map_values(|f: SoupFunction| (f.name@, f.param_count)),
        flags: d.flags@.map_values(|f: SoupFlag| (f.name@, f.flag_type@)),
        references: texts(d.references@),
        attributes: texts(d.attributes@),
        anim_groups: texts(d.anim_groups@),
    }
}

/// Where the reading stands between two lines.
pub struct SoupState {
    pub def: SoupModel,
    pub section: SoupSection,
    pub in_auto: bool,
    pub attributes_done: bool,
    pub anim_groups_done: bool,
}

/// Before the first line: only `NullFunction`, with no parameters.
pub open spec fn soup_initial() -> SoupState {
    SoupState {
        def: SoupModel {
            functions: seq![("NullFunction"@, 0u8)],
            flags: Seq::empty(),
            references: Seq::empty(),
            attributes: Seq::empty(),
            anim_groups: Seq::empty(),
        },
        section: SoupSection::Preamble,
        in_auto: false,
        attributes_done: false,
        anim_groups_done: false,
    }
}

/// A line without its comment (from the first `;`) and surrounding white space.
pub open spec fn clean_line(line: Seq<char>) -> Seq<char> {
    trim_ws(line.subrange(0, first_index_from(line, 0, ';')))
}

/// Decimal text read as a `u8`, as `str::parse::<u8>` does.
pub open spec fn parse_u8_text(s: Seq<char>) -> Option<u8> {
    match parse_u32_text(s) {
        Some(v) => if v <= 255 { Some(v as u8) } else { None },
        None => None,
    }
}

/// `l` contains no `=`.
pub open spec fn no_equals(l: Seq<char>) -> bool {
    first_index_from(l, 0, '=') >= l.len()
}

/// The state after one line. Section headers (compared case-insensitively)
/// switch the section. Under `[functions]`, a line whose third word is
/// `parms` declares the function named by its second word, with the fourth
/// word as parameter count (0 when it is not a number); under `[refs]`
/// each line is a reference; under `[flags]`, the first two words are a
/// flag's type and name. Under `[equates]`, the names of the first
/// `auto`..`endauto` block that holds any are attributes, those of the
/// next such block animation groups; lines with `=` define values and are
/// not names.
pub open spec fn soup_step(line: Seq<char>, st: SoupState) -> SoupState {
    let l = clean_line(line);
    let lower = lower_chars(l);
    let d = st.def;
    if l.len() == 0 {
        st
    } else if lower == "[functions]"@ {
        SoupState { section: SoupSection::Functions, ..st }
    } else if lower == "[refs]"@ {
        SoupState { section: SoupSection::Refs, ..st }
    } else if lower == "[equates]"@ {
        SoupState { section: SoupSection::Equates, ..st }
    } else if lower == "[flags]"@ {
        SoupState { section: SoupSection::Flags, ..st }
    } else {
        match st.section {
            SoupSection::Functions => {
                let w = words(l);
                if w.len() >= 4 && lower_chars(w[2]) == "parms"@ {
                    let count = match parse_u8_text(w[3]) {
                        Some(c) => c,
                        None => 0u8,
                    };
                    SoupState { def: SoupModel { functions: d.functions.push((w[1], count)), ..d }, ..st }
                } else {
                    st
                }
            },
            SoupSection::Refs => SoupState { def: SoupModel { references: d.references.push(l), ..d }, ..st },
            SoupSection::Equates => {
                if lower == "auto"@ {
                    SoupState { in_auto: true, ..st }
                } else if lower == "endauto"@ {
                    if st.in_auto && d.attributes.len() > 0 {
                        SoupState {
                            in_auto: false,
                            attributes_done: true,
                            anim_groups_done: st.anim_groups_done || st.attributes_done,
                            ..st
                        }
                    } else {
                        SoupState { in_auto: false, ..st }
                    }
                } else if st.in_auto && !st.attributes_done && no_equals(l) {
                    SoupState { def: SoupModel { attributes: d.attributes.push(l), ..d }, ..st }
                } else if st.in_auto && st.attributes_done && !st.anim_groups_done && no_equals(l) {
                    SoupState { def: SoupModel { anim_groups: d.anim_groups.push(l), ..d }, ..st }
                } else {
                    st
                }
            },
            SoupSection::Flags => {
                let w = words(l);
                if w.len() >= 2 {
                    SoupState { def: SoupModel { flags: d.flags.push((w[1], w[0])), ..d }, ..st }
                } else {
                    st
                }
            },
            SoupSection::Preamble => st,
        }
    }
}

/// The state after the lines of `s` from `p` on (lines end at `\n`).
pub open spec fn soup_from(s: Seq<char>, p: int, st: SoupState) -> SoupState
    decreases s.len() - p,
{
    if p < 0 || p > s.len() {
        st
    } else {
        let k = first_index_from(s, p, '\n');
        let st2 = soup_step(s.subrange(p, k), st);
        if k >= s.len() {
            st2
        } else {
            proof {
                lemma_first_index_bounds(s, p, '\n');
            }
            soup_from(s, k + 1, st2)
        }
    }
}

struct SoupReader {
    def: SoupDef,
    section: SoupSection,
    in_auto: bool,
    attributes_done: bool,
    anim_groups_done: bool,
}

spec fn reader_state(r: SoupReader) -> SoupState {
    SoupState {
        def: soup_view(r.def),
        section: r.section,
        in_auto: r.in_auto,
        attributes_done: r.attributes_done,
        anim_groups_done: r.anim_groups_done,
    }
}

fn push_text(v: &mut Vec<String>, cs: &[char])
    ensures
        texts(final(v)@) == texts(old(v)@).push(cs@),
{
    let s = string_from_chars(cs);
    v.push(s);
    assert(texts(v@) =~= texts(old(v)@).push(cs@));
}

impl SoupReader {
    fn step(&mut self, line: &[char])
        ensures
            reader_state(*final(self)) == soup_step(line@, reader_state(*old(self))),
    {
        let semi = first_index(line, 0, ';');
        let before = vstd::slice::slice_subrange(line, 0, semi);
        let (a, b) = trim_bounds(before);
        let l = vstd::slice::slice_subrange(before, a, b);
        assert(l@ == clean_line(line@));
        if l.len() == 0 {
            return;
        }
        let lower = lower_vec(l);
        if chars_eq_str(lower.as_slice(), "[functions]") {
            self.section = SoupSection::Functions;
            return;
        }
        if chars_eq_str(lower.as_slice(), "[refs]") {
            self.section = SoupSection::Refs;
            return;
        }
        if chars_eq_str(lower.as_slice(), "[equates]") {
            self.section = SoupSection::Equates;
            return;
        }
        if chars_eq_str(lower.as_slice(), "[flags]") {
            self.section = SoupSection::Flags;
            return;
        }
        match self.section {
            SoupSection::Functions => {
                let w = split_words(l);
                if w.len() >= 4 {
                    let w2 = lower_vec(w[2].as_slice());
                    if chars_eq_str(w2.as_slice(), "parms") {
                        let count: u8 = match parse_u32_chars(w[3].as_slice()) {
                            Some(v) => if v <= 255 { v as u8 } else { 0 },
                            None => 0,
                        };
                        let f = SoupFunction { name: string_from_chars(w[1].as_slice()), param_count: count };
                        let ghost old_fns = self.def.functions@;
                        self.def.functions.push(f);
                        assert(self.def.functions@.map_values(|f: SoupFunction| (f.name@, f.param_count))
                            =~= old_fns.map_values(|f: SoupFunction| (f.name@, f.param_count)).push(
                            (w@[1]@, count),
                        ));
                    }
                }
            },
            SoupSection::Refs => {
                push_text(&mut self.def.references, l);
            },
            SoupSection::Equates => {
                if chars_eq_str(lower.as_slice(), "auto") {
                    self.in_auto = true;
                } else if chars_eq_str(lower.as_slice(), "endauto") {
                    if self.in_auto && self.def.attributes.len() > 0 {
                        if self.attributes_done {
                            self.anim_groups_done = true;
                        }
                        self.attributes_done = true;
                    }
                    self.in_auto = false;
                } else {
                    let eq = first_index(l, 0, '=');
                    if self.in_auto && !self.attributes_done && eq >= l.len() {
                        push_text(&mut self.def.attributes, l);
                    } else if self.in_auto && self.attributes_done && !self.anim_groups_done && eq >= l.len() {
                        push_text(&mut self.def.anim_groups, l);
                    }
                }
            },
            SoupSection::Flags => {
                let w = split_words(l);
                if w.len() >= 2 {
                    let f = SoupFlag {
                        name: string_from_chars(w[1].as_slice()),
                        flag_type: string_from_chars(w[0].as_slice()),
                    };
                    let ghost old_flags = self.def.flags@;
                    self.def.flags.push(f);
                    assert(self.def.flags@.map_values(|f: SoupFlag| (f.name@, f.flag_type@)) =~= old_flags.map_values(
                        |f: SoupFlag| (f.name@, f.flag_type@),
                    ).push((w@[1]@, w@[0]@)));
                }
            },
            SoupSection::Preamble => {},
        }
    }
}

/// Reads the definition file. Unknown lines are skipped; this never fails.
pub fn parse_soup_def(content: &str) -> (r: SoupDef)
    ensures
        soup_view(r) == soup_from(content@, 0, soup_initial()).def,
{
    let null_name = string_from_chars(chars_of("NullFunction").as_slice());
    let mut functions: Vec<SoupFunction> = Vec::new();
    functions.push(SoupFunction { name: null_name, param_count: 0 });
    let mut reader = SoupReader {
        def: SoupDef {
            functions,
            flags: Vec::new(),
            references: Vec::new(),
            attributes: Vec::new(),
            anim_groups: Vec::new(),
        },
        section: SoupSection::Preamble,
        in_auto: false,
        attributes_done: false,
        anim_groups_done: false,
    };
    proof {
        let st = reader_state(reader);
        assert(st.def.functions =~= soup_initial().def.functions);
        assert(st.def.flags =~= soup_initial().def.flags);
        assert(st.def.references =~= soup_initial().def.references);
        assert(st.def.attributes =~= soup_initial().def.attributes);
        assert(st.def.anim_groups =~= soup_initial().def.anim_groups);
    }
    let cs = chars_of(content);
    let n: usize = cs.len();
    let mut p: usize = 0;
    let mut done: bool = false;
    while !done
        invariant
            n == cs@.len(),
            cs@ == content@,
            p <= n,
            !done ==> soup_from(content@, 0, soup_initial()) == soup_from(content@, p as int, reader_state(reader)),
            done ==> soup_from(content@, 0, soup_initial()) == reader_state(reader),
        decreases n - p + (if done { 0int } else { 1int }),
    {
        let k = first_index(cs.as_slice(), p, '\n');
        reader.step(vstd::slice::slice_subrange(cs.as_slice(), p, k));
        if k >= n {
            done = true;
        } else {
            p = k + 1;
        }
    }
    reader.def
}

/// Function id 0 stays `NullFunction`: reading more lines only adds
/// functions after those already defined.
pub proof fn law_functions_only_grow(s: Seq<char>, p: int, st: SoupState)
    ensures
        soup_from(s, p, st).def.functions.len() >= st.def.functions.len(),
        forall|i: int|
            0 <= i < st.def.functions.len() ==> #[trigger] soup_from(s, p, st).def.functions[i]
                == st.def.functions[i],
    decreases s.len() - p,
{
    if 0 <= p <= s.len() {
        let k = first_index_from(s, p, '\n');
        let st2 = soup_step(s.subrange(p, k), st);
        assert(st2.def.functions.len() >= st.def.functions.len());
        assert(forall|i: int| 0 <= i < st.def.functions.len() ==> #[trigger] st2.def.functions[i] == st.def.functions[i]);
        if k < s.len() {
            lemma_first_index_bounds(s, p, '\n');
            law_functions_only_grow(s, k + 1, st2);
        }
    }
}

/// The parsed definitions always start with `NullFunction`, with no parameters.
pub proof fn law_null_function_first(content: Seq<char>)
    ensures
        soup_from(content, 0, soup_initial()).def.functions.len() >= 1,
        soup_from(content, 0, soup_initial()).def.functions[0] == ("NullFunction"@, 0u8),
{
    law_functions_only_grow(content, 0, soup_initial());
}

} // verus!
