//! Finding an exported function in a module loaded in another process, by
//! walking its PE export table one memory read at a time.
//!
//! The lookup is a sequence of steps: each step takes what the last read
//! gave and says what to read next, or where the function is, or that it
//! is not there. The reads themselves are made by the caller. Addresses
//! are computed as `usize` arithmetic that wraps around.

use vstd::prelude::*;

verus! {

/// `a + b`, wrapping around.
pub open spec fn wadd(a: usize, b: usize) -> usize {
    vstd::wrapping::usize_specs::wrapping_add(a, b)
}

/// `a * b`, wrapping around.
pub open spec fn wmul(a: usize, b: usize) -> usize {
    vstd::wrapping::usize_specs::wrapping_mul(a, b)
}

/// The export table's arrays, as found in its directory.
#[derive(Debug, Clone, Copy, PartialEq, Eq, Structural)]
pub struct ExportTable {
    /// How many functions are exported by name.
    pub num_names: usize,
    /// Where the array of name offsets (4 bytes each) starts.
    pub names_addr: usize,
    /// Where the array of ordinals (2 bytes each) starts.
    pub ordinals_addr: usize,
    /// Where the array of function offsets (4 bytes each) starts.
    pub functions_addr: usize,
}

/// What the last read of the lookup was for.
#[derive(Debug, Clone, Copy, PartialEq, Eq, Structural)]
pub enum ExportPhase {
    /// The offset of the PE header (`e_lfanew`, at offset 0x3C).
    Lfanew,
    /// The optional header's magic number (PE32 or PE32+).
    Magic { optional_header: usize },
    /// The offset of the export directory (first data directory entry).
    ExportRva,
    /// The number of names in the export directory.
    NumNames { export_dir: usize },
    /// The offset of the array of names.
    NamesRva { export_dir: usize, num_names: usize },
    /// The offset of the array of ordinals.
    OrdinalsRva { export_dir: usize, num_names: usize, names_addr: usize },
    /// The offset of the array of functions.
    FunctionsRva { num_names: usize, names_addr: usize, ordinals_addr: usize },
    /// The offset of the name at `index`.
    NameOffset { index: usize, table: ExportTable },
    /// The bytes of the name at `index`.
    NameBytes { index: usize, table: ExportTable },
    /// The ordinal of the matching name.
    Ordinal { functions_addr: usize },
    /// The offset of the function.
    FunctionRva,
    /// The lookup is over.
    Finished,
}

/// What a read gave.
#[derive(Debug)]
pub enum ExportRead {
    /// A little-endian 4-byte value.
    Dword(u32),
    /// A run of bytes.
    Bytes(Vec<u8>),
}

/// What the lookup asks for next.
#[derive(Debug, Clone, Copy, PartialEq, Eq, Structural)]
pub enum ExportAction {
    /// Read 4 bytes at this address.
    ReadDword(usize),
    /// Read this many bytes at this address.
    ReadBytes(usize, usize),
    /// The function is at this address.
    Found(usize),
    /// The module has no export directory.
    NoExportDirectory,
    /// No exported name matches.
    NotFound,
}

/// A lookup in the module loaded at `base`.
#[derive(Debug, Clone, Copy)]
pub struct ExportLookup {
    pub base: usize,
    pub phase: ExportPhase,
}

/// The text that `String::from_utf8_lossy` gives for `bytes`: the bytes
/// decoded as UTF-8, each invalid sequence replaced by U+FFFD.
pub uninterp spec fn utf8_lossy(bytes: Seq<u8>) -> Seq<char>;

/// `String::from_utf8_lossy`. Claimed: the text is `utf8_lossy` of the
/// bytes, a function of them alone; bytes that are all ASCII (below 0x80)
/// give the characters with those codes. The decoding of other bytes is
/// not stated.
#[verifier::external_body]
fn lossy_text(bytes: &[u8]) -> (r: String)
    ensures
        r@ == utf8_lossy(bytes@),
        (forall|i: int| 0 <= i < bytes@.len() ==> #[trigger] bytes@[i] < 128) ==> r@ == bytes@.map_values(|b: u8| b as char),
{
    String::from_utf8_lossy(bytes).into_owned()
}

/// `k` is the position of the first zero byte of `bytes`.
pub open spec fn first_zero_at(bytes: Seq<u8>, k: int) -> bool {
    0 <= k < bytes.len() && bytes[k] == 0 && forall|j: int| 0 <= j < k ==> bytes[j] != 0
}

/// The name a run of bytes holds, read as a C string: the bytes before the
/// first zero byte, decoded as UTF-8 with invalid sequences replaced; the
/// empty name when there is no zero byte.
pub open spec fn held_name(bytes: Seq<u8>) -> Seq<char> {
    if exists|k: int| #[trigger] first_zero_at(bytes, k) {
        utf8_lossy(bytes.take(choose|k: int| #[trigger] first_zero_at(bytes, k)))
    } else {
        Seq::empty()
    }
}

/// The bytes name `want`.
pub open spec fn name_matches(bytes: Seq<u8>, want: Seq<char>) -> bool {
    held_name(bytes) == want
}

/// The step to the name at `index`, or the end when there is none.
pub open spec fn next_name(table: ExportTable, index: usize) -> (ExportPhase, ExportAction) {
    if index < table.num_names {
        (
            ExportPhase::NameOffset { index, table },
            ExportAction::ReadDword(wadd(table.names_addr, wmul(index, 4))),
        )
    } else {
        (ExportPhase::Finished, ExportAction::NotFound)
    }
}

/// Whether `read` is of the kind the phase waits for: bytes for a name,
/// a 4-byte value otherwise, and nothing once the lookup is over.
pub open spec fn read_fits(phase: ExportPhase, read: ExportRead) -> bool {
    match phase {
        ExportPhase::Finished => false,
        ExportPhase::NameBytes { .. } => read is Bytes,
        _ => read is Dword,
    }
}

/// One step of the lookup of `name` in the module at `base`, from the
/// phase and what its read gave.
pub open spec fn export_step(base: usize, phase: ExportPhase, name: Seq<char>, read: ExportRead) -> (ExportPhase, ExportAction) {
    match (phase, read) {
        (ExportPhase::Lfanew, ExportRead::Dword(v)) => {
            let optional_header = wadd(wadd(base, v as usize), 0x18);
            (ExportPhase::Magic { optional_header }, ExportAction::ReadDword(optional_header))
        },
        (ExportPhase::Magic { optional_header }, ExportRead::Dword(v)) => {
            let directory = wadd(optional_header, if v & 0xFFFF == 0x10B { 0x60 } else { 0x70 });
            (ExportPhase::ExportRva, ExportAction::ReadDword(directory))
        },
        (ExportPhase::ExportRva, ExportRead::Dword(v)) => {
            if v == 0 {
                (ExportPhase::Finished, ExportAction::NoExportDirectory)
            } else {
                let export_dir = wadd(base, v as usize);
                (ExportPhase::NumNames { export_dir }, ExportAction::ReadDword(wadd(export_dir, 0x18)))
            }
        },
        (ExportPhase::NumNames { export_dir }, ExportRead::Dword(v)) => (
            ExportPhase::NamesRva { export_dir, num_names: v as usize },
            ExportAction::ReadDword(wadd(export_dir, 0x20)),
        ),
        (ExportPhase::NamesRva { export_dir, num_names }, ExportRead::Dword(v)) => (
            ExportPhase::OrdinalsRva { export_dir, num_names, names_addr: wadd(base, v as usize) },
            ExportAction::ReadDword(wadd(export_dir, 0x24)),
        ),
        (ExportPhase::OrdinalsRva { export_dir, num_names, names_addr }, ExportRead::Dword(v)) => (
            ExportPhase::FunctionsRva { num_names, names_addr, ordinals_addr: wadd(base, v as usize) },
            ExportAction::ReadDword(wadd(export_dir, 0x1C)),
        ),
        (ExportPhase::FunctionsRva { num_names, names_addr, ordinals_addr }, ExportRead::Dword(v)) => next_name(
            ExportTable { num_names, names_addr, ordinals_addr, functions_addr: wadd(base, v as usize) },
            0,
        ),
        (ExportPhase::NameOffset { index, table }, ExportRead::Dword(v)) => (
            ExportPhase::NameBytes { index, table },
            ExportAction::ReadBytes(wadd(base, v as usize), 32),
        ),
        (ExportPhase::NameBytes { index, table }, ExportRead::Bytes(b)) => {
            if name_matches(b@, name) {
                (
                    ExportPhase::Ordinal { functions_addr: table.functions_addr },
                    ExportAction::ReadDword(wadd(table.ordinals_addr, wmul(index, 2))),
                )
            } else {
                next_name(table, (index + 1) as usize)
            }
        },
        (ExportPhase::Ordinal { functions_addr }, ExportRead::Dword(v)) => (
            ExportPhase::FunctionRva,
            ExportAction::ReadDword(wadd(functions_addr, wmul((v & 0xFFFF) as usize, 4))),
        ),
        (ExportPhase::FunctionRva, ExportRead::Dword(v)) => (ExportPhase::Finished, ExportAction::Found(wadd(base, v as usize))),
        _ => (ExportPhase::Finished, ExportAction::NotFound),
    }
}

/// In the magic phase only the 16-bit magic field (the low half of the
/// 4 bytes read) counts: a PE32 module (magic 0x10B) has its data
/// directories 0x60 bytes into the optional header, any other (PE32+,
/// 0x20B) 0x70 bytes; the linker version that follows the field changes
/// nothing.
pub proof fn lemma_magic_selects_directory(base: usize, optional_header: usize, name: Seq<char>, v: u32)
    ensures
        export_step(base, ExportPhase::Magic { optional_header }, name, ExportRead::Dword(v))
            == export_step(base, ExportPhase::Magic { optional_header }, name, ExportRead::Dword(v & 0xFFFF)),
        v & 0xFFFF == 0x10B ==> export_step(base, ExportPhase::Magic { optional_header }, name, ExportRead::Dword(v)).1
            == ExportAction::ReadDword(wadd(optional_header, 0x60)),
        v & 0xFFFF != 0x10B ==> export_step(base, ExportPhase::Magic { optional_header }, name, ExportRead::Dword(v)).1
            == ExportAction::ReadDword(wadd(optional_header, 0x70)),
        export_step(base, ExportPhase::Magic { optional_header }, name, ExportRead::Dword(v)).0 == ExportPhase::ExportRva,
{
    assert((v & 0xFFFF) & 0xFFFF == v & 0xFFFF) by (bit_vector);
}

fn name_matches_exec(bytes: &Vec<u8>, want: &str) -> (r: bool)
    ensures
        r == name_matches(bytes@, want@),
{
    let n = bytes.len();
    let mut prefix: Vec<u8> = Vec::new();
    for k in 0..n
        invariant
            n == bytes@.len(),
            forall|j: int| 0 <= j < k ==> bytes@[j] != 0,
            prefix@ == bytes@.take(k as int),
    {
        if bytes[k] == 0 {
            proof {
                assert(first_zero_at(bytes@, k as int));
                assert forall|k2: int| #[trigger] first_zero_at(bytes@, k2) implies k2 == k by {
                    if k2 > k {
                        assert(bytes@[k as int] != 0);
                    }
                }
            }
            let text = lossy_text(prefix.as_slice());
            return crate::text::str_eq(text.as_str(), want);
        }
        prefix.push(bytes[k]);
        proof {
            assert(bytes@.take(k + 1) == bytes@.take(k as int).push(bytes@[k as int]));
        }
    }
    proof {
        assert forall|k2: int| !#[trigger] first_zero_at(bytes@, k2) by {}
        assert(held_name(bytes@) == Seq::<char>::empty());
        if want@.len() == 0 {
            assert(want@ =~= Seq::<char>::empty());
        }
    }
    want.is_empty()
}

fn next_name_exec(table: ExportTable, index: usize) -> (r: (ExportPhase, ExportAction))
    ensures
        r == next_name(table, index),
{
    if index < table.num_names {
        (
            ExportPhase::NameOffset { index, table },
            ExportAction::ReadDword(table.names_addr.wrapping_add(index.wrapping_mul(4))),
        )
    } else {
        (ExportPhase::Finished, ExportAction::NotFound)
    }
}

/// The name in a fixed wide-character buffer: the units before the first
/// zero unit, or the whole buffer when it has none.
pub open spec fn wide_name(units: Seq<u16>) -> Seq<u16> {
    if exists|k: int| 0 <= k < units.len() && #[trigger] units[k] == 0 && forall|j: int| 0 <= j < k ==> units[j] != 0 {
        units.take(choose|k: int| 0 <= k < units.len() && #[trigger] units[k] == 0 && forall|j: int| 0 <= j < k ==> units[j] != 0)
    } else {
        units
    }
}

/// Whether the module name held in the buffer `entry` is exactly `wanted`
/// (compared unit by unit, so letter case counts).
pub fn module_name_is(entry: &[u16], wanted: &[u16]) -> (r: bool)
    ensures
        r == (wide_name(entry@) == wanted@),
{
    let n = entry.len();
    let mut k: usize = 0;
    while k < n && entry[k] != 0
        invariant
            n == entry@.len(),
            k <= n,
            forall|j: int| 0 <= j < k ==> entry@[j] != 0,
        decreases n - k,
    {
        k = k + 1;
    }
    let len = k;
    proof {
        if len < n {
            assert(entry@[len as int] == 0);
            assert forall|k2: int|
                0 <= k2 < entry@.len() && #[trigger] entry@[k2] == 0 && (forall|j: int| 0 <= j < k2 ==> entry@[j] != 0)
                implies k2 == len by {
                if k2 > len {
                    assert(entry@[len as int] != 0);
                }
            }
            assert(wide_name(entry@) == entry@.take(len as int));
        } else {
            assert(wide_name(entry@) == entry@);
            assert(entry@.take(len as int) =~= entry@);
        }
    }
    if len != wanted.len() {
        return false;
    }
    for m in 0..len
        invariant
            len == wanted@.len(),
            len <= entry@.len(),
            forall|j: int| 0 <= j < m ==> entry@[j] == wanted@[j],
    {
        if entry[m] != wanted[m] {
            assert(entry@.take(len as int)[m as int] != wanted@[m as int]);
            return false;
        }
    }
    assert(entry@.take(len as int) =~= wanted@);
    true
}

impl ExportLookup {
    /// The lookup is walking the names only while names are left.
    pub open spec fn wf(&self) -> bool {
        match self.phase {
            ExportPhase::NameOffset { index, table } => index < table.num_names,
            ExportPhase::NameBytes { index, table } => index < table.num_names,
            _ => true,
        }
    }

    /// A lookup in the module loaded at `base`, and its first read: the
    /// offset of the PE header, at `base + 0x3C`.
    pub fn start(base: usize) -> (r: (ExportLookup, ExportAction))
        ensures
            r.0.wf(),
            r.0.base == base,
            r.0.phase == ExportPhase::Lfanew,
            r.1 == ExportAction::ReadDword(wadd(base, 0x3C)),
    {
        (ExportLookup { base, phase: ExportPhase::Lfanew }, ExportAction::ReadDword(base.wrapping_add(0x3C)))
    }

    /// Whether the next read is to be a run of bytes (a name) rather than
    /// a 4-byte value.
    pub fn wants_bytes(&self) -> (r: bool)
        ensures
            r == (self.phase is NameBytes),
    {
        match self.phase {
            ExportPhase::NameBytes { .. } => true,
            _ => false,
        }
    }

    /// The next step of the lookup of the exported `name`, from what the
    /// last read gave: the lookup after it, and what it asks for next.
    pub fn step(&self, name: &str, read: &ExportRead) -> (r: (ExportLookup, ExportAction))
        requires
            self.wf(),
            read_fits(self.phase, *read),
        ensures
            r.0.wf(),
            r.0.base == self.base,
            (r.0.phase, r.1) == export_step(self.base, self.phase, name@, *read),
    {
        let base = self.base;
        let (phase, action) = match (self.phase, read) {
            (ExportPhase::Lfanew, ExportRead::Dword(v)) => {
                let optional_header = base.wrapping_add(*v as usize).wrapping_add(0x18);
                (ExportPhase::Magic { optional_header }, ExportAction::ReadDword(optional_header))
            },
            (ExportPhase::Magic { optional_header }, ExportRead::Dword(v)) => {
                let offset: usize = if *v & 0xFFFF == 0x10B { 0x60 } else { 0x70 };
                let directory = optional_header.wrapping_add(offset);
                (ExportPhase::ExportRva, ExportAction::ReadDword(directory))
            },
            (ExportPhase::ExportRva, ExportRead::Dword(v)) => {
                if *v == 0 {
                    (ExportPhase::Finished, ExportAction::NoExportDirectory)
                } else {
                    let export_dir = base.wrapping_add(*v as usize);
                    (ExportPhase::NumNames { export_dir }, ExportAction::ReadDword(export_dir.wrapping_add(0x18)))
                }
            },
            (ExportPhase::NumNames { export_dir }, ExportRead::Dword(v)) => (
                ExportPhase::NamesRva { export_dir, num_names: *v as usize },
                ExportAction::ReadDword(export_dir.wrapping_add(0x20)),
            ),
            (ExportPhase::NamesRva { export_dir, num_names }, ExportRead::Dword(v)) => (
                ExportPhase::OrdinalsRva { export_dir, num_names, names_addr: base.wrapping_add(*v as usize) },
                ExportAction::ReadDword(export_dir.wrapping_add(0x24)),
            ),
            (ExportPhase::OrdinalsRva { export_dir, num_names, names_addr }, ExportRead::Dword(v)) => (
                ExportPhase::FunctionsRva { num_names, names_addr, ordinals_addr: base.wrapping_add(*v as usize) },
                ExportAction::ReadDword(export_dir.wrapping_add(0x1C)),
            ),
            (ExportPhase::FunctionsRva { num_names, names_addr, ordinals_addr }, ExportRead::Dword(v)) => next_name_exec(
                ExportTable { num_names, names_addr, ordinals_addr, functions_addr: base.wrapping_add(*v as usize) },
                0,
            ),
            (ExportPhase::NameOffset { index, table }, ExportRead::Dword(v)) => (
                ExportPhase::NameBytes { index, table },
                ExportAction::ReadBytes(base.wrapping_add(*v as usize), 32),
            ),
            (ExportPhase::NameBytes { index, table }, ExportRead::Bytes(b)) => {
                if name_matches_exec(b, name) {
                    (
                        ExportPhase::Ordinal { functions_addr: table.functions_addr },
                        ExportAction::ReadDword(table.ordinals_addr.wrapping_add(index.wrapping_mul(2))),
                    )
                } else {
                    next_name_exec(table, index + 1)
                }
            },
            (ExportPhase::Ordinal { functions_addr }, ExportRead::Dword(v)) => {
                let ordinal = (*v & 0xFFFF) as usize;
                (ExportPhase::FunctionRva, ExportAction::ReadDword(functions_addr.wrapping_add(ordinal.wrapping_mul(4))))
            },
            (ExportPhase::FunctionRva, ExportRead::Dword(v)) => (
                ExportPhase::Finished,
                ExportAction::Found(base.wrapping_add(*v as usize)),
            ),
            _ => (ExportPhase::Finished, ExportAction::NotFound),
        };
        (ExportLookup { base, phase }, action)
    }
}

} // verus!
