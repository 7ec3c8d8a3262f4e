//! Parser for cheat persistence files.
//!
//! The file is a raw 256-byte dump of the engine's cheat state array:
//! 64 little-endian `u32` values. The first 13 entries belong to the
//! built-in cheat codes; the remaining 51 slots are unused (always zero).
use crate::bytes::{read_u32_le, spec_u32_le};
use crate::error::{parse_error, Error, Result};
use vstd::prelude::*;

verus! {

/// Total file size in bytes (64 × 4).
pub const CHT_FILE_SIZE: usize = 256;

/// Number of u32 slots in the cheat state array.
pub const CHT_SLOT_COUNT: usize = 64;

/// Number of named cheats recognised by the engine.
pub const CHT_CHEAT_COUNT: usize = 13;

/// Cheat names in index order, matching the engine's decoded name table.
pub const CHEAT_NAMES: [&'static str; 13] = [
    "oracle",
    "nodemarker",
    "moonraker",
    "task",
    "animation",
    "magiccarpet",
    "savecheats",
    "drevil",
    "drno",
    "goldfinger",
    "neversaydie",
    "oddjob",
    "yeahbaby",
];

/// A single cheat entry with its index, name, and raw state value.
#[derive(Debug, Clone)]
pub struct CheatEntry {
    /// Slot index (0–12 for named cheats, 13–63 for unused slots).
    pub index: usize,
    /// Cheat name, or `None` for unnamed slots beyond the first 13.
    pub name: Option<&'static str>,
    /// Raw state value. 0 = off, 1 = on (the engine also accepts other values).
    pub value: u32,
}

impl CheatEntry {
    /// Returns `true` when this cheat is active (nonzero value).
    pub fn is_on(&self) -> (r: bool)
        ensures
            r == (self.value != 0),
    {
        self.value != 0
    }
}

/// Parsed cheat file.
#[derive(Debug, Clone)]
pub struct ChtFile {
    /// All 64 cheat state entries.
    pub entries: Vec<CheatEntry>,
}

/// The entry that slot `i` of `data` decodes to.
pub open spec fn spec_cheat_entry(data: Seq<u8>, i: int) -> CheatEntry {
    CheatEntry {
        index: i as usize,
        name: if i < 13 { Some(CHEAT_NAMES@[i]) } else { None },
        value: spec_u32_le(data, 4 * i) as u32,
    }
}

impl ChtFile {
    /// Returns only the 13 named cheat entries.
    pub fn named_cheats(&self) -> (r: &[CheatEntry])
        requires
            self.entries@.len() >= CHT_CHEAT_COUNT,
        ensures
            r@ == self.entries@.subrange(0, 13),
    {
        vstd::slice::slice_subrange(self.entries.as_slice(), 0, CHT_CHEAT_COUNT)
    }

    /// Returns the entries of unused slots that hold nonzero values (unexpected).
    pub fn nonzero_unnamed(&self) -> (r: Vec<&CheatEntry>)
        requires
            self.entries@.len() >= CHT_CHEAT_COUNT,
        ensures
            r@.map_values(|e: &CheatEntry| *e) == self.entries@.subrange(
                13,
                self.entries@.len() as int,
            ).filter(|e: CheatEntry| e.value != 0),
    {
        let mut r: Vec<&CheatEntry> = Vec::new();
        let n = self.entries.len();
        let ghost tail = self.entries@.subrange(13, n as int);
        let mut i = CHT_CHEAT_COUNT;
        while i < n
            invariant
                13 <= i <= n == self.entries@.len(),
                tail == self.entries@.subrange(13, n as int),
                r@.map_values(|e: &CheatEntry| *e) == tail.take(i - 13).filter(
                    |e: CheatEntry| e.value != 0,
                ),
            decreases n - i,
        {
            proof {
                reveal_with_fuel(Seq::<_>::filter, 1);
                assert(tail.take(i - 12).drop_last() =~= tail.take(i - 13));
            }
            let e = &self.entries[i];
            if e.value != 0 {
                r.push(e);
            }
            assert(r@.map_values(|e: &CheatEntry| *e) =~= tail.take(i - 12).filter(
                |e: CheatEntry| e.value != 0,
            ));
            i += 1;
        }
        assert(tail.take(n - 13) =~= tail);
        r
    }
}

/// Parses a cheat file from raw bytes.
///
/// Succeeds exactly when the input is 256 bytes long.
pub fn parse_cht_file(data: &[u8]) -> (r: Result<ChtFile>)
    ensures
        r is Ok <==> data@.len() == CHT_FILE_SIZE,
        r is Err ==> r->Err_0 is Parse,
        r matches Ok(f) ==> f.entries@.len() == CHT_SLOT_COUNT && forall|i: int|
            0 <= i < CHT_SLOT_COUNT ==> #[trigger] f.entries@[i] == spec_cheat_entry(data@, i),
{
    if data.len() != CHT_FILE_SIZE {
        return Err(parse_error("CHT file must be exactly 256 bytes"));
    }
    let mut entries: Vec<CheatEntry> = Vec::with_capacity(CHT_SLOT_COUNT);
    let mut i: usize = 0;
    while i < CHT_SLOT_COUNT
        invariant
            i <= CHT_SLOT_COUNT,
            data@.len() == CHT_FILE_SIZE,
            entries@.len() == i,
            forall|k: int| 0 <= k < i ==> #[trigger] entries@[k] == spec_cheat_entry(data@, k),
        decreases CHT_SLOT_COUNT - i,
    {
        let value = read_u32_le(data, i * 4);
        let name = if i < CHT_CHEAT_COUNT {
            Some(CHEAT_NAMES[i])
        } else {
            None
        };
        entries.push(CheatEntry { index: i, name, value });
        i += 1;
    }
    Ok(ChtFile { entries })
}

} // verus!
