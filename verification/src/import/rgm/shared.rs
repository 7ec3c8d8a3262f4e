//! Accessors shared by the scene records.
use super::{MpobRecord, MpsRecord, RgmSection, RgmSectionHeader};
use crate::text::{lossy_string, nul_trimmed_string, trim_nul, utf8_lossy};
use vstd::prelude::*;

verus! {

impl RgmSectionHeader {
    /// The section name decoded as text.
    pub fn name(&self) -> (r: String)
        ensures
            r@ == utf8_lossy(self.name@),
    {
        lossy_string(self.name.as_slice())
    }
}

impl MpsRecord {
    /// The model name without zero padding.
    pub fn model_name(&self) -> (r: String)
        ensures
            r@ == utf8_lossy(trim_nul(self.model_name@)),
    {
        nul_trimmed_string(self.model_name.as_slice())
    }
}

impl MpobRecord {
    /// The model name without zero padding.
    pub fn model_name(&self) -> (r: String)
        ensures
            r@ == utf8_lossy(trim_nul(self.model_name@)),
    {
        nul_trimmed_string(self.model_name.as_slice())
    }

    /// The script name without zero padding.
    pub fn script_name(&self) -> (r: String)
        ensures
            r@ == utf8_lossy(trim_nul(self.script_name@)),
    {
        nul_trimmed_string(self.script_name.as_slice())
    }
}

/// Header of a section.
pub open spec fn section_header(s: RgmSection) -> RgmSectionHeader {
    match s {
        RgmSection::Rahd(h, _) => h,
        RgmSection::Rafs(h, _) => h,
        RgmSection::Rast(h, _) => h,
        RgmSection::Rasb(h, _) => h,
        RgmSection::Rava(h, _) => h,
        RgmSection::Rasc(h, _) => h,
        RgmSection::Rahk(h, _) => h,
        RgmSection::Ralc(h, _) => h,
        RgmSection::Raex(h, _) => h,
        RgmSection::RaexParsed(h, _) => h,
        RgmSection::Raat(h, _) => h,
        RgmSection::Raan(h, _) => h,
        RgmSection::Ragr(h, _) => h,
        RgmSection::Ranm(h, _) => h,
        RgmSection::Ravc(h, _) => h,
        RgmSection::RavcParsed(h, _) => h,
        RgmSection::Mpob(h, _) => h,
        RgmSection::MpobParsed(h, _) => h,
        RgmSection::Mprp(h, _) => h,
        RgmSection::MprpParsed(h, _) => h,
        RgmSection::Mps(h, _) => h,
        RgmSection::Mpl(h, _) => h,
        RgmSection::MplParsed(h, _) => h,
        RgmSection::Mpf(h, _) => h,
        RgmSection::Mpm(h, _) => h,
        RgmSection::Mpsz(h, _) => h,
        RgmSection::Wdnm(h, _) => h,
        RgmSection::Flat(h, _) => h,
        RgmSection::End(h) => h,
    }
}

impl RgmSection {
    /// The header of this section.
    pub fn header(&self) -> (r: &RgmSectionHeader)
        ensures
            *r == section_header(*self),
    {
        match self {
            RgmSection::Rahd(h, _) => h,
            RgmSection::Rafs(h, _) => h,
            RgmSection::Rast(h, _) => h,
            RgmSection::Rasb(h, _) => h,
            RgmSection::Rava(h, _) => h,
            RgmSection::Rasc(h, _) => h,
            RgmSection::Rahk(h, _) => h,
            RgmSection::Ralc(h, _) => h,
            RgmSection::Raex(h, _) => h,
            RgmSection::RaexParsed(h, _) => h,
            RgmSection::Raat(h, _) => h,
            RgmSection::Raan(h, _) => h,
            RgmSection::Ragr(h, _) => h,
            RgmSection::Ranm(h, _) => h,
            RgmSection::Ravc(h, _) => h,
            RgmSection::RavcParsed(h, _) => h,
            RgmSection::Mpob(h, _) => h,
            RgmSection::MpobParsed(h, _) => h,
            RgmSection::Mprp(h, _) => h,
            RgmSection::MprpParsed(h, _) => h,
            RgmSection::Mps(h, _) => h,
            RgmSection::Mpl(h, _) => h,
            RgmSection::MplParsed(h, _) => h,
            RgmSection::Mpf(h, _) => h,
            RgmSection::Mpm(h, _) => h,
            RgmSection::Mpsz(h, _) => h,
            RgmSection::Wdnm(h, _) => h,
            RgmSection::Flat(h, _) => h,
            RgmSection::End(h) => h,
        }
    }
}

} // verus!
