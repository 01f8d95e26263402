use vstd::prelude::*;
use vstd::utf8::encode_utf8;

use crate::error::{Error, IoKind};

verus! {

// ---------------------------------------------------------------------------
// Multi-byte values at an offset
// ---------------------------------------------------------------------------

/// The 16-bit value stored at `off`, little endian when `le`, else big endian.
pub open spec fn read_u16(d: Seq<u8>, off: int, le: bool) -> int {
    if le {
        d[off] + d[off + 1] * 0x100
    } else {
        d[off] * 0x100 + d[off + 1]
    }
}

/// The 32-bit value stored at `off`, little endian when `le`, else big endian.
pub open spec fn read_u32(d: Seq<u8>, off: int, le: bool) -> int {
    if le {
        d[off] + d[off + 1] * 0x100 + d[off + 2] * 0x1_0000 + d[off + 3] * 0x100_0000
    } else {
        d[off] * 0x100_0000 + d[off + 1] * 0x1_0000 + d[off + 2] * 0x100 + d[off + 3]
    }
}

/// The 64-bit value stored at `off`, little endian when `le`, else big endian.
pub open spec fn read_u64(d: Seq<u8>, off: int, le: bool) -> int {
    if le {
        read_u32(d, off, true) + read_u32(d, off + 4, true) * 0x1_0000_0000
    } else {
        read_u32(d, off, false) * 0x1_0000_0000 + read_u32(d, off + 4, false)
    }
}

fn r16(data: &[u8], off: usize, le: bool) -> (v: u16)
    requires
        off + 2 <= data@.len(),
    ensures
        v == read_u16(data@, off as int, le),
{
    let b0 = data[off] as u16;
    let b1 = data[off + 1] as u16;
    if le {
        b0 + b1 * 0x100
    } else {
        b0 * 0x100 + b1
    }
}

fn r32(data: &[u8], off: usize, le: bool) -> (v: u32)
    requires
        off + 4 <= data@.len(),
    ensures
        v == read_u32(data@, off as int, le),
{
    let b0 = data[off] as u32;
    let b1 = data[off + 1] as u32;
    let b2 = data[off + 2] as u32;
    let b3 = data[off + 3] as u32;
    if le {
        b0 + b1 * 0x100 + b2 * 0x1_0000 + b3 * 0x100_0000
    } else {
        b0 * 0x100_0000 + b1 * 0x1_0000 + b2 * 0x100 + b3
    }
}

fn r64(data: &[u8], off: usize, le: bool) -> (v: u64)
    requires
        off + 8 <= data@.len(),
    ensures
        v == read_u64(data@, off as int, le),
{
    proof {
        assert(data@.len() == data.len());
    }
    let lo = r32(data, off, le) as u64;
    let hi = r32(data, off + 4, le) as u64;
    if le {
        lo + hi * 0x1_0000_0000
    } else {
        lo * 0x1_0000_0000 + hi
    }
}

// ---------------------------------------------------------------------------
// The ELF header
// ---------------------------------------------------------------------------

/// What the ELF header says about the section header table.
pub struct ElfInfo {
    pub is_64bit: bool,
    pub is_le: bool,
    pub sh_off: u64,
    pub sh_entsize: u64,
    pub sh_num: u64,
    pub sh_strndx: u64,
}

/// `d` starts with the ELF magic bytes `\x7fELF`.
pub open spec fn has_elf_magic(d: Seq<u8>) -> bool {
    &&& d.len() >= 4
    &&& d[0] == 0x7f
    &&& d[1] == 0x45
    &&& d[2] == 0x4c
    &&& d[3] == 0x46
}

/// The header of `d`, when `d` is at least 64 bytes long, starts with the
/// ELF magic and names a non-empty section header table with a non-zero
/// offset and entry size.
pub open spec fn spec_elf_info(d: Seq<u8>) -> Option<ElfInfo> {
    if d.len() < 64 || !has_elf_magic(d) {
        None
    } else {
        let is_64bit = d[4] == 2;
        let le = d[5] == 1;
        let sh_off = if is_64bit { read_u64(d, 40, le) } else { read_u32(d, 32, le) };
        let sh_entsize = if is_64bit { read_u16(d, 58, le) } else { read_u16(d, 46, le) };
        let sh_num = if is_64bit { read_u16(d, 60, le) } else { read_u16(d, 48, le) };
        let sh_strndx = if is_64bit { read_u16(d, 62, le) } else { read_u16(d, 50, le) };
        if sh_off == 0 || sh_entsize == 0 || sh_num == 0 {
            None
        } else {
            Some(
                ElfInfo {
                    is_64bit,
                    is_le: le,
                    sh_off: sh_off as u64,
                    sh_entsize: sh_entsize as u64,
                    sh_num: sh_num as u64,
                    sh_strndx: sh_strndx as u64,
                },
            )
        }
    }
}

impl ElfInfo {
    /// Parse the ELF header of `data`.
    pub fn parse(data: &[u8]) -> (res: Option<ElfInfo>)
        ensures
            res == spec_elf_info(data@),
    {
        if data.len() < 64 || data[0] != 0x7f || data[1] != 0x45 || data[2] != 0x4c || data[3]
            != 0x46 {
            return None;
        }
        let is_64bit = data[4] == 2;
        let is_le = data[5] == 1;
        let (sh_off, sh_entsize, sh_num, sh_strndx) = if is_64bit {
            (r64(data, 40, is_le), r16(data, 58, is_le) as u64, r16(data, 60, is_le) as u64, r16(data, 62, is_le) as u64)
        } else {
            (r32(data, 32, is_le) as u64, r16(data, 46, is_le) as u64, r16(data, 48, is_le) as u64, r16(data, 50, is_le) as u64)
        };
        if sh_off == 0 || sh_entsize == 0 || sh_num == 0 {
            return None;
        }
        Some(ElfInfo { is_64bit, is_le, sh_off, sh_entsize, sh_num, sh_strndx })
    }
}


// ---------------------------------------------------------------------------
// The section header table
// ---------------------------------------------------------------------------

/// A lookup that, read as written, would index outside the data: an offset
/// computation overflows, or a header or name lies past the end.
#[derive(Debug, Clone, Copy, PartialEq, Eq)]
pub struct OutOfRange;

/// How many bytes of a section header the lookup reads: up to the end of
/// the size field.
pub open spec fn entry_span(info: ElfInfo) -> int {
    if info.is_64bit {
        40
    } else {
        24
    }
}

/// Where the section header with index `i` starts, as computed in `u64`.
pub open spec fn header_offset(info: ElfInfo, i: int) -> int {
    info.sh_off + i * info.sh_entsize
}

/// The (offset, size) fields of the section header starting at `h`.
pub open spec fn entry_location(d: Seq<u8>, info: ElfInfo, h: int) -> (int, int) {
    if info.is_64bit {
        (
            (read_u64(d, h + 24, info.is_le) as usize) as int,
            (read_u64(d, h + 32, info.is_le) as usize) as int,
        )
    } else {
        (
            (read_u32(d, h + 16, info.is_le) as usize) as int,
            (read_u32(d, h + 20, info.is_le) as usize) as int,
        )
    }
}

/// The (offset, size) fields of the section header at `h`, or `OutOfRange`
/// when `h` overflows a `u64` or the fields lie past the end of `d`.
pub open spec fn spec_location_at(d: Seq<u8>, info: ElfInfo, h: int) -> Result<(int, int), OutOfRange> {
    if h > u64::MAX {
        Err(OutOfRange)
    } else {
        let hu = (h as usize) as int;
        if hu + entry_span(info) > d.len() {
            Err(OutOfRange)
        } else {
            Ok(entry_location(d, info, hu))
        }
    }
}

/// The section name string table: `None` when its range ends past the data.
pub open spec fn spec_strtab(d: Seq<u8>, info: ElfInfo) -> Result<Option<Seq<u8>>, OutOfRange> {
    match spec_location_at(d, info, header_offset(info, info.sh_strndx as int)) {
        Err(e) => Err(e),
        Ok((off, size)) => {
            if off + size > usize::MAX {
                Err(OutOfRange)
            } else if off + size > d.len() {
                Ok(None)
            } else {
                Ok(Some(d.subrange(off, off + size)))
            }
        },
    }
}

/// Where the NUL-terminated string starting at `start` ends: the first zero
/// byte at or after `start`, or the end of `st`.
pub open spec fn c_str_end(st: Seq<u8>, start: int) -> int
    decreases st.len() - start,
{
    if start >= st.len() {
        st.len() as int
    } else if st[start] == 0 {
        start
    } else {
        c_str_end(st, start + 1)
    }
}

/// The index of the first section header, from `i` on, whose name in the
/// string table `st` is `name`; `OutOfRange` when a header, or a name offset
/// into `st`, that is reached before it lies out of range.
pub open spec fn scan_entries(d: Seq<u8>, info: ElfInfo, st: Seq<u8>, name: Seq<u8>, i: int) -> Result<Option<u64>, OutOfRange>
    decreases info.sh_num - i,
{
    if i < 0 || i >= info.sh_num {
        Ok(None)
    } else {
        let h = header_offset(info, i);
        if h > u64::MAX {
            Err(OutOfRange)
        } else {
            let hu = (h as usize) as int;
            if hu + 4 > d.len() {
                Err(OutOfRange)
            } else {
                let start = read_u32(d, hu, info.is_le);
                if start > st.len() {
                    Err(OutOfRange)
                } else if st.subrange(start, c_str_end(st, start)) == name {
                    Ok(Some(i as u64))
                } else {
                    scan_entries(d, info, st, name, i + 1)
                }
            }
        }
    }
}

/// The index of the section called `name`, as the section table of `d` gives it.
pub open spec fn spec_find_section_idx(d: Seq<u8>, info: ElfInfo, name: Seq<u8>) -> Result<Option<u64>, OutOfRange> {
    match spec_strtab(d, info) {
        Err(e) => Err(e),
        Ok(None) => Ok(None),
        Ok(Some(st)) => scan_entries(d, info, st, name, 0),
    }
}

proof fn lemma_small_product(a: int, b: int)
    requires
        0 <= a <= 0xffff,
        0 <= b <= 0xffff,
    ensures
        0 <= a * b <= 0xffff * 0xffff,
{
    assert(0 <= a * b <= 0xffff * 0xffff) by (nonlinear_arith)
        requires
            0 <= a <= 0xffff,
            0 <= b <= 0xffff,
    ;
}

/// `a` and `b` hold the same bytes.
fn bytes_eq(a: &[u8], b: &[u8]) -> (res: bool)
    ensures
        res == (a@ == b@),
{
    if a.len() != b.len() {
        return false;
    }
    let n = a.len();
    for i in 0..n
        invariant
            n == a@.len(),
            n == b@.len(),
            forall|k: int| 0 <= k < i ==> a@[k] == b@[k],
    {
        if a[i] != b[i] {
            return false;
        }
    }
    assert(a@ =~= b@);
    true
}

impl ElfInfo {
    /// The (offset, size) fields of the section header at `h`.
    fn location_at(&self, data: &[u8], h: u64) -> (res: Result<(usize, usize), OutOfRange>)
        ensures
            match res {
                Ok((off, size)) => spec_location_at(data@, *self, h as int) == Ok::<(int, int), OutOfRange>((off as int, size as int)),
                Err(e) => spec_location_at(data@, *self, h as int) == Err::<(int, int), OutOfRange>(e),
            },
    {
        let hu = h as usize;
        let n = data.len();
        if self.is_64bit {
            if hu > n || n - hu < 40 {
                return Err(OutOfRange);
            }
            Ok((r64(data, hu + 24, self.is_le) as usize, r64(data, hu + 32, self.is_le) as usize))
        } else {
            if hu > n || n - hu < 24 {
                return Err(OutOfRange);
            }
            Ok((r32(data, hu + 16, self.is_le) as usize, r32(data, hu + 20, self.is_le) as usize))
        }
    }

    /// The section name string table.
    fn strtab<'a>(&self, data: &'a [u8]) -> (res: Result<Option<&'a [u8]>, OutOfRange>)
        requires
            spec_elf_info(data@) == Some(*self),
        ensures
            match res {
                Ok(Some(st)) => spec_strtab(data@, *self) == Ok::<Option<Seq<u8>>, OutOfRange>(Some(st@)),
                Ok(None) => spec_strtab(data@, *self) == Ok::<Option<Seq<u8>>, OutOfRange>(None),
                Err(e) => spec_strtab(data@, *self) == Err::<Option<Seq<u8>>, OutOfRange>(e),
            },
    {
        proof {
            lemma_small_product(self.sh_strndx as int, self.sh_entsize as int);
        }
        let h = match self.sh_off.checked_add(self.sh_strndx * self.sh_entsize) {
            Some(h) => h,
            None => return Err(OutOfRange),
        };
        let (off, size) = match self.location_at(data, h) {
            Ok(loc) => loc,
            Err(e) => return Err(e),
        };
        let end = match off.checked_add(size) {
            Some(end) => end,
            None => return Err(OutOfRange),
        };
        if end > data.len() {
            Ok(None)
        } else {
            Ok(Some(&data[off..end]))
        }
    }

    /// The index of the section header whose name is `name`.
    fn find_section_idx(&self, data: &[u8], name: &[u8]) -> (res: Result<Option<u64>, OutOfRange>)
        requires
            spec_elf_info(data@) == Some(*self),
        ensures
            res == spec_find_section_idx(data@, *self, name@),
    {
        let strtab = match self.strtab(data) {
            Ok(Some(st)) => st,
            Ok(None) => return Ok(None),
            Err(e) => return Err(e),
        };
        let ghost d = data@;
        let ghost st = strtab@;
        let mut i: u64 = 0;
        while i < self.sh_num
            invariant
                spec_elf_info(d) == Some(*self),
                d == data@,
                st == strtab@,
                spec_strtab(d, *self) == Ok::<Option<Seq<u8>>, OutOfRange>(Some(st)),
                i <= self.sh_num,
                scan_entries(d, *self, st, name@, 0) == scan_entries(d, *self, st, name@, i as int),
            decreases self.sh_num - i,
        {
            proof {
                lemma_small_product(i as int, self.sh_entsize as int);
            }
            let h = match self.sh_off.checked_add(i * self.sh_entsize) {
                Some(h) => h,
                None => return Err(OutOfRange),
            };
            let hu = h as usize;
            if hu > data.len() || data.len() - hu < 4 {
                return Err(OutOfRange);
            }
            let start = r32(data, hu, self.is_le) as usize;
            if start > strtab.len() {
                return Err(OutOfRange);
            }
            let mut end = start;
            while end < strtab.len() && strtab[end] != 0
                invariant
                    start <= end <= st.len(),
                    st == strtab@,
                    c_str_end(st, start as int) == c_str_end(st, end as int),
                decreases st.len() - end,
            {
                end = end + 1;
            }
            if bytes_eq(&strtab[start..end], name) {
                return Ok(Some(i));
            }
            i = i + 1;
        }
        Ok(None)
    }

    /// The (offset, size) of the section with index `idx`.
    fn section_offset_size(&self, data: &[u8], idx: u64) -> (res: Result<(usize, usize), OutOfRange>)
        requires
            spec_elf_info(data@) == Some(*self),
            idx < self.sh_num,
        ensures
            match res {
                Ok((off, size)) => spec_location_at(data@, *self, header_offset(*self, idx as int)) == Ok::<(int, int), OutOfRange>((off as int, size as int)),
                Err(e) => spec_location_at(data@, *self, header_offset(*self, idx as int)) == Err::<(int, int), OutOfRange>(e),
            },
    {
        proof {
            lemma_small_product(idx as int, self.sh_entsize as int);
        }
        let h = match self.sh_off.checked_add(idx * self.sh_entsize) {
            Some(h) => h,
            None => return Err(OutOfRange),
        };
        self.location_at(data, h)
    }
}


// ---------------------------------------------------------------------------
// Looking a section up by name
// ---------------------------------------------------------------------------

/// What looking a section up by name in an ELF binary finds.
#[derive(Debug, Clone, Copy, PartialEq, Eq)]
pub enum SectionLookup {
    /// The data is not an ELF binary with a section header table.
    NotElf,
    /// No section of that name (or no readable section name table).
    NotFound,
    /// The section with header `index` spans `size` bytes from `offset`.
    Found { index: u64, offset: usize, size: usize },
    /// The section table, read as written, points outside the data.
    OutOfRange,
}

/// What looking the section `name` up in `d` finds.
pub open spec fn spec_locate_section(d: Seq<u8>, name: Seq<char>) -> SectionLookup {
    match spec_elf_info(d) {
        None => SectionLookup::NotElf,
        Some(info) => match spec_find_section_idx(d, info, encode_utf8(name)) {
            Err(_) => SectionLookup::OutOfRange,
            Ok(None) => SectionLookup::NotFound,
            Ok(Some(idx)) => match spec_location_at(d, info, header_offset(info, idx as int)) {
                Err(_) => SectionLookup::OutOfRange,
                Ok((off, size)) => SectionLookup::Found {
                    index: idx,
                    offset: off as usize,
                    size: size as usize,
                },
            },
        },
    }
}

/// Look the section `name` up in the ELF binary `data`.
///
/// A section table that points outside the data is reported as `OutOfRange`.
pub fn locate_section(data: &[u8], name: &str) -> (res: SectionLookup)
    ensures
        res == spec_locate_section(data@, name@),
{
    let info = match ElfInfo::parse(data) {
        Some(info) => info,
        None => return SectionLookup::NotElf,
    };
    let idx = match info.find_section_idx(data, name.as_bytes()) {
        Ok(Some(idx)) => idx,
        Ok(None) => return SectionLookup::NotFound,
        Err(_) => return SectionLookup::OutOfRange,
    };
    proof {
        lemma_found_index_in_table(data@, info, encode_utf8(name@));
    }
    match info.section_offset_size(data, idx) {
        Ok((offset, size)) => SectionLookup::Found { index: idx, offset, size },
        Err(_) => SectionLookup::OutOfRange,
    }
}

proof fn lemma_scan_index_in_table(d: Seq<u8>, info: ElfInfo, st: Seq<u8>, name: Seq<u8>, i: int)
    requires
        0 <= i,
    ensures
        scan_entries(d, info, st, name, i) matches Ok(Some(idx)) ==> i <= idx < info.sh_num,
    decreases info.sh_num - i,
{
    if i < info.sh_num {
        lemma_scan_index_in_table(d, info, st, name, i + 1);
    }
}

proof fn lemma_found_index_in_table(d: Seq<u8>, info: ElfInfo, name: Seq<u8>)
    ensures
        spec_find_section_idx(d, info, name) matches Ok(Some(idx)) ==> idx < info.sh_num,
{
    if let Ok(Some(st)) = spec_strtab(d, info) {
        lemma_scan_index_in_table(d, info, st, name, 0);
    }
}

/// The (offset, size) that the section table of `d` gives for `name`.
pub open spec fn spec_find_section(d: Seq<u8>, name: Seq<char>) -> Option<(usize, usize)> {
    match spec_locate_section(d, name) {
        SectionLookup::Found { offset, size, .. } => Some((offset, size)),
        _ => None,
    }
}

/// Find the offset and size of an ELF section by name: `None` when `data`
/// is not an ELF binary, has no such section, or its section table points
/// outside `data`.
pub fn find_section(data: &[u8], name: &str) -> (res: Option<(usize, usize)>)
    ensures
        res == spec_find_section(data@, name@),
{
    match locate_section(data, name) {
        SectionLookup::Found { offset, size, .. } => Some((offset, size)),
        _ => None,
    }
}

/// The section `name` is found in `d` and its bytes lie inside `d`.
pub open spec fn section_in_data(d: Seq<u8>, name: Seq<char>) -> bool {
    spec_find_section(d, name) matches Some((off, size)) && off + size <= d.len()
}

/// The section table of `d` is corrupt as far as `name` is concerned: reading
/// it points outside `d`, or the section it gives for `name` ends past `d`.
pub open spec fn section_table_corrupt(d: Seq<u8>, name: Seq<char>) -> bool {
    ||| spec_locate_section(d, name) is OutOfRange
    ||| (spec_find_section(d, name) matches Some((off, size)) && off + size > d.len())
}

/// The bytes of the section `name` of `d`: `None` when there is no such
/// section or its range ends past `d`.
pub open spec fn spec_read_section(d: Seq<u8>, name: Seq<char>) -> Option<Seq<u8>> {
    match spec_find_section(d, name) {
        Some((off, size)) => if off + size <= d.len() {
            Some(d.subrange(off as int, off + size))
        } else {
            None
        },
        None => None,
    }
}

/// Read the value of an ELF section by name from a binary.
pub fn read_section<'a>(data: &'a [u8], name: &str) -> (res: Option<&'a [u8]>)
    ensures
        match res {
            Some(sec) => spec_read_section(data@, name@) == Some(sec@),
            None => spec_read_section(data@, name@) is None,
        },
{
    match find_section(data, name) {
        Some((off, size)) => {
            if off <= data.len() && size <= data.len() - off {
                Some(&data[off..off + size])
            } else {
                None
            }
        },
        None => None,
    }
}


// ---------------------------------------------------------------------------
// Writing into a section
// ---------------------------------------------------------------------------

/// `d` with the `size` bytes from `off` overwritten by `value` and then
/// zeros: byte `k` of that range becomes byte `k` of `value`, or zero
/// where `value` has ended.
pub open spec fn fill_section(d: Seq<u8>, off: int, size: int, value: Seq<u8>) -> Seq<u8> {
    Seq::new(
        d.len(),
        |k: int|
            if off <= k < off + size {
                if k - off < value.len() {
                    value[k - off]
                } else {
                    0u8
                }
            } else {
                d[k]
            },
    )
}

/// Writing `value` into the section `name` of `d` succeeds: the section
/// exists, the value fits in it, and the section lies inside `d`.
pub open spec fn write_succeeds(d: Seq<u8>, name: Seq<char>, value: Seq<u8>) -> bool {
    spec_find_section(d, name) matches Some((off, size)) && value.len() <= size && off + size
        <= d.len()
}

/// `d` after writing `value` into the section `name`, zero-padded to the
/// section's size; `d` itself when the write does not succeed.
pub open spec fn spec_write_section(d: Seq<u8>, name: Seq<char>, value: Seq<u8>) -> Seq<u8> {
    if write_succeeds(d, name, value) {
        let (off, size) = spec_find_section(d, name)->0;
        fill_section(d, off as int, size as int, value)
    } else {
        d
    }
}

/// `e` is the error that writing `value` into the section `name` of `d` reports.
pub open spec fn write_error(e: Error, d: Seq<u8>, name: Seq<char>, value: Seq<u8>) -> bool {
    match spec_locate_section(d, name) {
        SectionLookup::NotElf => e matches Error::Io { kind: IoKind::InvalidData, message: msg }
            && msg@ == "not a valid ELF file"@,
        SectionLookup::NotFound => e matches Error::SectionNotFound(n) && n@ == name,
        SectionLookup::OutOfRange => e matches Error::MalformedElf,
        SectionLookup::Found { size, .. } => if value.len() > size {
            e matches Error::SectionOverflow { name: n, size: s, capacity: c } && n@ == name && s
                == value.len() && c == size
        } else {
            e matches Error::MalformedElf
        },
    }
}

/// Write data into an ELF section by name. The data is null-padded to fill the section.
pub fn write_section(data: &mut [u8], name: &str, value: &[u8]) -> (res: Result<(), Error>)
    ensures
        final(data)@ == spec_write_section(old(data)@, name@, value@),
        res is Ok <==> write_succeeds(old(data)@, name@, value@),
        res matches Err(e) ==> write_error(e, old(data)@, name@, value@),
{
    let (offset, size) = match locate_section(data, name) {
        SectionLookup::Found { offset, size, .. } => (offset, size),
        SectionLookup::NotElf => return Err(
            Error::Io { kind: IoKind::InvalidData, message: "not a valid ELF file".to_owned() },
        ),
        SectionLookup::NotFound => return Err(Error::SectionNotFound(name.to_owned())),
        SectionLookup::OutOfRange => return Err(Error::MalformedElf),
    };
    if value.len() > size {
        return Err(Error::SectionOverflow { name: name.to_owned(), size: value.len(), capacity: size });
    }
    if offset > data.len() || size > data.len() - offset {
        return Err(Error::MalformedElf);
    }
    let ghost d0 = data@;
    let vlen = value.len();
    for i in 0..size
        invariant
            data@.len() == d0.len(),
            d0.len() <= usize::MAX,
            offset + size <= d0.len(),
            vlen == value@.len(),
            forall|k: int|
                0 <= k < d0.len() ==> #[trigger] data@[k] == if offset <= k < offset + i {
                    if k - offset < vlen {
                        value@[k - offset]
                    } else {
                        0u8
                    }
                } else {
                    d0[k]
                },
    {
        if i < vlen {
            data[offset + i] = value[i];
        } else {
            data[offset + i] = 0;
        }
    }
    assert(data@ =~= fill_section(d0, offset as int, size as int, value@));
    Ok(())
}

// ---------------------------------------------------------------------------
// Patching a string inside a section
// ---------------------------------------------------------------------------

/// The first position, from `p` on, at which `pat` occurs in `hay`.
pub open spec fn find_from(hay: Seq<u8>, pat: Seq<u8>, p: int) -> Option<int>
    decreases hay.len() + 1 - p,
{
    if p < 0 || p + pat.len() > hay.len() {
        None
    } else if hay.subrange(p, p + pat.len()) == pat {
        Some(p)
    } else {
        find_from(hay, pat, p + 1)
    }
}

/// The first position at which `pat` occurs in `hay`.
pub open spec fn first_occurrence(hay: Seq<u8>, pat: Seq<u8>) -> Option<int> {
    find_from(hay, pat, 0)
}

/// The first position at which `pat` occurs in `hay`.
fn find_bytes(hay: &[u8], pat: &[u8]) -> (res: Option<usize>)
    ensures
        match res {
            Some(p) => first_occurrence(hay@, pat@) == Some(p as int),
            None => first_occurrence(hay@, pat@) is None,
        },
{
    let n = hay.len();
    let m = pat.len();
    if m > n {
        return None;
    }
    let last = n - m;
    let mut p: usize = 0;
    loop
        invariant
            n == hay@.len(),
            m == pat@.len(),
            last == n - m,
            p <= last,
            find_from(hay@, pat@, 0) == find_from(hay@, pat@, p as int),
        decreases last - p,
    {
        if bytes_eq(&hay[p..p + m], pat) {
            return Some(p);
        }
        if p == last {
            return None;
        }
        p = p + 1;
    }
}

/// Where in `d` the first occurrence of `pattern` inside the section `name` starts.
#[verifier::opaque]
pub open spec fn spec_patch_position(d: Seq<u8>, name: Seq<char>, pattern: Seq<char>) -> Option<int> {
    if section_in_data(d, name) {
        let (off, size) = spec_find_section(d, name)->0;
        match first_occurrence(d.subrange(off as int, off + size), encode_utf8(pattern)) {
            Some(p) => Some(off + p),
            None => None,
        }
    } else {
        None
    }
}

/// The data after replacing `pattern` by `replacement` in the section `name`
/// of `d`: the first occurrence is overwritten by as much of `replacement`
/// as fits in it, and the rest of it by zeros.
#[verifier::opaque]
pub open spec fn spec_patch_section(d: Seq<u8>, name: Seq<char>, pattern: Seq<char>, replacement: Seq<char>) -> Seq<u8> {
    match spec_patch_position(d, name, pattern) {
        Some(pos) => fill_section(d, pos, encode_utf8(pattern).len() as int, encode_utf8(replacement)),
        None => d,
    }
}

/// Replace a string pattern inside an ELF section (for patching runtime config).
///
/// The first occurrence of the pattern's bytes inside the section is
/// overwritten by the replacement, cut to the pattern's length and padded
/// with zeros. Returns whether the pattern was found. A section table that
/// points outside `data` is reported as `MalformedElf`, a missing section as
/// `SectionNotFound`; either way `data` is left as it is.
pub fn patch_section_string(
    data: &mut [u8],
    section_name: &str,
    pattern: &str,
    replacement: &str,
) -> (res: Result<bool, Error>)
    ensures
        final(data)@ == spec_patch_section(old(data)@, section_name@, pattern@, replacement@),
        match res {
            Ok(found) => section_in_data(old(data)@, section_name@) && found == (spec_patch_position(
                old(data)@,
                section_name@,
                pattern@,
            ) is Some),
            Err(e) => !section_in_data(old(data)@, section_name@) && if section_table_corrupt(
                old(data)@,
                section_name@,
            ) {
                e matches Error::MalformedElf
            } else {
                e matches Error::SectionNotFound(n) && n@ == section_name@
            },
        },
{
    reveal(spec_patch_position);
    reveal(spec_patch_section);
    let (offset, size) = match locate_section(data, section_name) {
        SectionLookup::Found { offset, size, .. } => (offset, size),
        SectionLookup::OutOfRange => return Err(Error::MalformedElf),
        _ => return Err(Error::SectionNotFound(section_name.to_owned())),
    };
    if offset > data.len() || size > data.len() - offset {
        return Err(Error::MalformedElf);
    }
    let pat = pattern.as_bytes();
    let rep = replacement.as_bytes();
    let pos = match find_bytes(&data[offset..offset + size], pat) {
        Some(p) => p,
        None => return Ok(false),
    };
    proof {
        lemma_find_from_fits(data@.subrange(offset as int, offset + size), pat@, 0);
    }
    let ghost d0 = data@;
    let byte_pos = offset + pos;
    let pat_len = pat.len();
    let rep_len = if rep.len() < pat_len { rep.len() } else { pat_len };
    for i in 0..rep_len
        invariant
            data@.len() == d0.len(),
            d0.len() <= usize::MAX,
            byte_pos + pat_len <= d0.len(),
            rep_len <= pat_len,
            rep_len <= rep@.len(),
            forall|k: int|
                0 <= k < d0.len() ==> #[trigger] data@[k] == if byte_pos <= k < byte_pos + i {
                    rep@[k - byte_pos]
                } else {
                    d0[k]
                },
    {
        data[byte_pos + i] = rep[i];
    }
    for i in rep_len..pat_len
        invariant
            data@.len() == d0.len(),
            d0.len() <= usize::MAX,
            byte_pos + pat_len <= d0.len(),
            rep_len <= pat_len,
            rep_len <= rep@.len(),
            rep_len == rep@.len() || rep_len == pat_len,
            forall|k: int|
                0 <= k < d0.len() ==> #[trigger] data@[k] == if byte_pos <= k < byte_pos + rep_len {
                    rep@[k - byte_pos]
                } else if byte_pos + rep_len <= k < byte_pos + i {
                    0u8
                } else {
                    d0[k]
                },
    {
        data[byte_pos + i] = 0;
    }
    assert(data@ =~= fill_section(d0, byte_pos as int, pat_len as int, rep@));
    Ok(true)
}

proof fn lemma_find_from_fits(hay: Seq<u8>, pat: Seq<u8>, p: int)
    requires
        0 <= p,
    ensures
        find_from(hay, pat, p) matches Some(q) ==> p <= q && q + pat.len() <= hay.len(),
    decreases hay.len() + 1 - p,
{
    if p + pat.len() <= hay.len() && hay.subrange(p, p + pat.len()) != pat {
        lemma_find_from_fits(hay, pat, p + 1);
    }
}


// ---------------------------------------------------------------------------
// Laws
// ---------------------------------------------------------------------------

/// The ranges `[a1, b1)` and `[a2, b2)` share no position.
pub open spec fn ranges_disjoint(a1: int, b1: int, a2: int, b2: int) -> bool {
    b1 <= a2 || b2 <= a1
}

/// `d1` and `d2` have the same length and the same bytes outside `[a, b)`.
pub open spec fn agree_outside(d1: Seq<u8>, d2: Seq<u8>, a: int, b: int) -> bool {
    &&& d1.len() == d2.len()
    &&& forall|k: int| 0 <= k < d1.len() && !(a <= k < b) ==> #[trigger] d1[k] == d2[k]
}

/// Where the section header with index `i` starts, as a `usize`.
pub open spec fn header_start(info: ElfInfo, i: int) -> int {
    (header_offset(info, i) as usize) as int
}

/// The range `[a, b)` avoids every byte that a lookup in `d` may read: the
/// ELF header (its first 64 bytes for a 64-bit file or for data that is no
/// ELF binary, its first 52 for a 32-bit file), the part of each section header up to its size field (the
/// first 40 bytes of a 64-bit header, the first 24 of a 32-bit one) for the
/// string table's header and every section's, and the string table itself.
pub open spec fn clear_of_table(d: Seq<u8>, a: int, b: int) -> bool {
    match spec_elf_info(d) {
        None => ranges_disjoint(a, b, 0, 64),
        Some(info) => {
            &&& ranges_disjoint(a, b, 0, elf_header_size(info))
            &&& forall|i: int|
                (0 <= i < info.sh_num || i == info.sh_strndx) && header_offset(info, i) <= u64::MAX
                    ==> ranges_disjoint(a, b, #[trigger] header_start(info, i), header_start(info, i) + entry_span(info))
            &&& (spec_location_at(d, info, header_offset(info, info.sh_strndx as int)) matches Ok(
                (so, ssz),
            ) ==> ranges_disjoint(a, b, so, so + ssz))
        },
    }
}

/// The section `name` of `d` exists and lies clear of the section table.
pub open spec fn section_clear_of_table(d: Seq<u8>, name: Seq<char>) -> bool {
    match spec_find_section(d, name) {
        Some((off, size)) => clear_of_table(d, off as int, off + size),
        None => false,
    }
}

/// How many bytes of the ELF header the header reader looks at: 64 for a
/// 64-bit file, 52 for a 32-bit one.
pub open spec fn elf_header_size(info: ElfInfo) -> int {
    if info.is_64bit {
        64
    } else {
        52
    }
}

proof fn lemma_elf_info_frame(d1: Seq<u8>, d2: Seq<u8>, a: int, b: int)
    requires
        agree_outside(d1, d2, a, b),
        match spec_elf_info(d1) {
            None => ranges_disjoint(a, b, 0, 64),
            Some(info) => ranges_disjoint(a, b, 0, elf_header_size(info)),
        },
    ensures
        spec_elf_info(d1) == spec_elf_info(d2),
{
    match spec_elf_info(d1) {
        None => {
            if d1.len() >= 64 {
                assert forall|k: int| 0 <= k < 64 implies d1[k] == d2[k] by {}
            }
        },
        Some(info) => {
            assert forall|k: int| 0 <= k < elf_header_size(info) implies d1[k] == d2[k] by {}
        },
    }
}

proof fn lemma_location_frame(d1: Seq<u8>, d2: Seq<u8>, a: int, b: int, info: ElfInfo, h: int)
    requires
        agree_outside(d1, d2, a, b),
        h <= u64::MAX ==> ranges_disjoint(a, b, (h as usize) as int, (h as usize) as int + entry_span(info)),
    ensures
        spec_location_at(d1, info, h) == spec_location_at(d2, info, h),
{
    if h <= u64::MAX {
        let hu = (h as usize) as int;
        if hu + entry_span(info) <= d1.len() {
            assert forall|k: int| hu <= k < hu + entry_span(info) implies d1[k] == d2[k] by {}
        }
    }
}

proof fn lemma_scan_frame(
    d1: Seq<u8>,
    d2: Seq<u8>,
    a: int,
    b: int,
    info: ElfInfo,
    st: Seq<u8>,
    name: Seq<u8>,
    i: int,
)
    requires
        agree_outside(d1, d2, a, b),
        0 <= i,
        forall|j: int|
            0 <= j < info.sh_num && header_offset(info, j) <= u64::MAX ==> ranges_disjoint(
                a,
                b,
                #[trigger] header_start(info, j),
                header_start(info, j) + entry_span(info),
            ),
    ensures
        scan_entries(d1, info, st, name, i) == scan_entries(d2, info, st, name, i),
    decreases info.sh_num - i,
{
    if i < info.sh_num {
        let h = header_offset(info, i);
        if h <= u64::MAX {
            let hu = header_start(info, i);
            assert(ranges_disjoint(a, b, hu, hu + entry_span(info)));
            if hu + 4 <= d1.len() {
                assert forall|k: int| hu <= k < hu + 4 implies d1[k] == d2[k] by {}
            }
        }
        lemma_scan_frame(d1, d2, a, b, info, st, name, i + 1);
    }
}

/// Two binaries that differ only in a range clear of the section table
/// give the same answer to every lookup.
pub proof fn lemma_lookup_frame(d1: Seq<u8>, d2: Seq<u8>, a: int, b: int, name: Seq<char>)
    requires
        agree_outside(d1, d2, a, b),
        clear_of_table(d1, a, b),
    ensures
        spec_locate_section(d1, name) == spec_locate_section(d2, name),
{
    lemma_elf_info_frame(d1, d2, a, b);
    if let Some(info) = spec_elf_info(d1) {
        let hs = header_offset(info, info.sh_strndx as int);
        if hs <= u64::MAX {
            assert(ranges_disjoint(a, b, header_start(info, info.sh_strndx as int), header_start(info, info.sh_strndx as int) + entry_span(info)));
        }
        lemma_location_frame(d1, d2, a, b, info, hs);
        if let Ok((so, ssz)) = spec_location_at(d1, info, hs) {
            if so + ssz <= d1.len() && 0 <= so {
                assert(d1.subrange(so, so + ssz) =~= d2.subrange(so, so + ssz));
            }
        }
        assert(spec_strtab(d1, info) == spec_strtab(d2, info));
        if let Ok(Some(st)) = spec_strtab(d1, info) {
            lemma_scan_frame(d1, d2, a, b, info, st, encode_utf8(name), 0);
            lemma_found_index_in_table(d1, info, encode_utf8(name));
            if let Ok(Some(idx)) = scan_entries(d1, info, st, encode_utf8(name), 0) {
                let h = header_offset(info, idx as int);
                if h <= u64::MAX {
                    assert(ranges_disjoint(a, b, header_start(info, idx as int), header_start(info, idx as int) + entry_span(info)));
                }
                lemma_location_frame(d1, d2, a, b, info, h);
            }
        }
    }
}

/// Writing into a section changes no byte outside that section.
pub proof fn lemma_write_stays_in_section(d: Seq<u8>, name: Seq<char>, value: Seq<u8>)
    requires
        spec_find_section(d, name) is Some,
    ensures
        ({
            let (off, size) = spec_find_section(d, name)->0;
            agree_outside(d, spec_write_section(d, name, value), off as int, off + size)
        }),
{
}

/// Reading a section back after writing a value into it gives the value,
/// padded with zeros to the size of the section, provided the section lies
/// clear of the section table.
pub proof fn lemma_read_after_write(d: Seq<u8>, name: Seq<char>, value: Seq<u8>)
    requires
        write_succeeds(d, name, value),
        section_clear_of_table(d, name),
    ensures
        ({
            let (off, size) = spec_find_section(d, name)->0;
            let d2 = spec_write_section(d, name, value);
            &&& spec_read_section(d2, name) == Some(
                value + Seq::new((size - value.len()) as nat, |_i: int| 0u8),
            )
        }),
{
    let (off, size) = spec_find_section(d, name)->0;
    let d2 = spec_write_section(d, name, value);
    assert(d2 == fill_section(d, off as int, size as int, value));
    lemma_write_stays_in_section(d, name, value);
    lemma_lookup_frame(d, d2, off as int, off + size, name);
    assert(spec_find_section(d2, name) == Some((off, size)));
    let padded = value + Seq::new((size - value.len()) as nat, |_i: int| 0u8);
    assert(d2.subrange(off as int, off + size) =~= padded);
}

/// Patching a string changes no byte outside the section it was found in.
pub proof fn lemma_patch_stays_in_section(d: Seq<u8>, name: Seq<char>, pattern: Seq<char>, replacement: Seq<char>)
    requires
        section_in_data(d, name),
    ensures
        ({
            let (off, size) = spec_find_section(d, name)->0;
            agree_outside(d, spec_patch_section(d, name, pattern, replacement), off as int, off + size)
        }),
{
    reveal(spec_patch_position);
    reveal(spec_patch_section);
    let (off, size) = spec_find_section(d, name)->0;
    lemma_find_from_fits(d.subrange(off as int, off + size), encode_utf8(pattern), 0);
}

proof fn lemma_find_from_least(hay: Seq<u8>, pat: Seq<u8>, p: int)
    requires
        0 <= p,
    ensures
        match find_from(hay, pat, p) {
            Some(q) => {
                &&& p <= q
                &&& q + pat.len() <= hay.len()
                &&& hay.subrange(q, q + pat.len()) == pat
                &&& forall|r: int| p <= r < q ==> #[trigger] hay.subrange(r, r + pat.len()) != pat
            },
            None => forall|r: int|
                p <= r && r + pat.len() <= hay.len() ==> #[trigger] hay.subrange(r, r + pat.len()) != pat,
        },
    decreases hay.len() + 1 - p,
{
    if p + pat.len() <= hay.len() && hay.subrange(p, p + pat.len()) != pat {
        lemma_find_from_least(hay, pat, p + 1);
    }
}

/// Patching replaces the first occurrence of the pattern inside the
/// section and nothing else: the bytes patched match the pattern, no
/// occurrence starts earlier in the section, the pattern's bytes are
/// overwritten by the replacement (cut to the pattern's length) and then
/// zeros, and every other byte stays. When the pattern does not occur in
/// the section, the data is unchanged.
pub proof fn lemma_patch_first_occurrence(d: Seq<u8>, name: Seq<char>, pattern: Seq<char>, replacement: Seq<char>)
    requires
        section_in_data(d, name),
    ensures
        ({
            let (off, size) = spec_find_section(d, name)->0;
            let pat = encode_utf8(pattern);
            let rep = encode_utf8(replacement);
            let out = spec_patch_section(d, name, pattern, replacement);
            match spec_patch_position(d, name, pattern) {
                Some(pos) => {
                    &&& off <= pos
                    &&& pos + pat.len() <= off + size
                    &&& d.subrange(pos, pos + pat.len()) == pat
                    &&& forall|q: int| off <= q < pos ==> #[trigger] d.subrange(q, q + pat.len()) != pat
                    &&& out.len() == d.len()
                    &&& forall|k: int|
                        0 <= k < d.len() ==> #[trigger] out[k] == if pos <= k < pos + pat.len() {
                            if k - pos < rep.len() {
                                rep[k - pos]
                            } else {
                                0u8
                            }
                        } else {
                            d[k]
                        }
                },
                None => {
                    &&& forall|q: int|
                        off <= q && q + pat.len() <= off + size ==> #[trigger] d.subrange(q, q + pat.len())
                            != pat
                    &&& out == d
                },
            }
        }),
{
    reveal(spec_patch_position);
    reveal(spec_patch_section);
    let (off, size) = spec_find_section(d, name)->0;
    let pat = encode_utf8(pattern);
    let sec = d.subrange(off as int, off + size);
    lemma_find_from_least(sec, pat, 0);
    assert forall|q: int| off <= q && q + pat.len() <= off + size implies #[trigger] d.subrange(q, q + pat.len())
        == sec.subrange(q - off, q - off + pat.len()) by {
        assert(d.subrange(q, q + pat.len()) =~= sec.subrange(q - off, q - off + pat.len()));
    }
    match find_from(sec, pat, 0) {
        Some(p) => {
            let pos = off + p;
            assert(d.subrange(pos, pos + pat.len()) == sec.subrange(p, p + pat.len()));
            assert forall|q: int| off <= q < pos implies #[trigger] d.subrange(q, q + pat.len()) != pat by {
                assert(sec.subrange(q - off, q - off + pat.len()) != pat);
            }
        },
        None => {
            assert forall|q: int| off <= q && q + pat.len() <= off + size implies #[trigger] d.subrange(
                q,
                q + pat.len(),
            ) != pat by {
                assert(sec.subrange(q - off, q - off + pat.len()) != pat);
            }
        },
    }
}

} // verus!
