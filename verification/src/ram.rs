use vstd::prelude::*;

verus! {

use crate::ErrorKind;

/// Total number of addressable bytes.
pub const MEM_SIZE: usize = 4096;

/// First address that programs may write; everything below it is reserved
/// for the interpreter (font data lives there).
pub const ROM_BASE: usize = 0x200;

/// Address at which the font table is pre-loaded.
pub const FONT_BASE: usize = 0x50;

/// Size of the font table: 16 sprites of 5 bytes each.
pub const FONT_BYTES: usize = 80;

/// The 16 five-byte sprites for the hexadecimal digits 0 through F, in the
/// standard CHIP-8 glyph encoding, digit 0 first.
pub open spec fn font_table() -> Seq<u8> {
    seq![
        0xF0u8, 0x90, 0x90, 0x90, 0xF0,
        0x20, 0x60, 0x20, 0x20, 0x70,
        0xF0, 0x10, 0xF0, 0x80, 0xF0,
        0xF0, 0x10, 0xF0, 0x10, 0xF0,
        0x90, 0x90, 0xF0, 0x10, 0x10,
        0xF0, 0x80, 0xF0, 0x10, 0xF0,
        0xF0, 0x80, 0xF0, 0x90, 0xF0,
        0xF0, 0x10, 0x20, 0x40, 0x40,
        0xF0, 0x90, 0xF0, 0x90, 0xF0,
        0xF0, 0x90, 0xF0, 0x10, 0xF0,
        0xF0, 0x90, 0xF0, 0x90, 0x90,
        0xE0, 0x90, 0xE0, 0x90, 0xE0,
        0xF0, 0x80, 0x80, 0x80, 0xF0,
        0xE0, 0x90, 0x90, 0x90, 0xE0,
        0xF0, 0x80, 0xF0, 0x80, 0xF0,
        0xF0, 0x80, 0xF0, 0x80, 0x80,
    ]
}

/// Memory contents at power-on: all zero except the font table at
/// `FONT_BASE`.
pub open spec fn initial_mem() -> Seq<u8> {
    Seq::new(4096, |i: int| if 0x50 <= i < 0xA0 { font_table()[i - 0x50] } else { 0u8 })
}

/// The flat 4096-byte memory of the machine, with the region below
/// `ROM_BASE` protected against writes.
pub struct RAM {
    mem: Vec<u8>,
}

impl View for RAM {
    type V = Seq<u8>;

    closed spec fn view(&self) -> Seq<u8> {
        self.mem@
    }
}

/// The standard font glyphs as an executable byte vector.
fn make_font() -> (v: Vec<u8>)
    ensures
        v@ == font_table(),
{
    let mut v: Vec<u8> = Vec::new();
    v.push(0xF0); v.push(0x90); v.push(0x90); v.push(0x90); v.push(0xF0);
    v.push(0x20); v.push(0x60); v.push(0x20); v.push(0x20); v.push(0x70);
    v.push(0xF0); v.push(0x10); v.push(0xF0); v.push(0x80); v.push(0xF0);
    v.push(0xF0); v.push(0x10); v.push(0xF0); v.push(0x10); v.push(0xF0);
    v.push(0x90); v.push(0x90); v.push(0xF0); v.push(0x10); v.push(0x10);
    v.push(0xF0); v.push(0x80); v.push(0xF0); v.push(0x10); v.push(0xF0);
    v.push(0xF0); v.push(0x80); v.push(0xF0); v.push(0x90); v.push(0xF0);
    v.push(0xF0); v.push(0x10); v.push(0x20); v.push(0x40); v.push(0x40);
    v.push(0xF0); v.push(0x90); v.push(0xF0); v.push(0x90); v.push(0xF0);
    v.push(0xF0); v.push(0x90); v.push(0xF0); v.push(0x10); v.push(0xF0);
    v.push(0xF0); v.push(0x90); v.push(0xF0); v.push(0x90); v.push(0x90);
    v.push(0xE0); v.push(0x90); v.push(0xE0); v.push(0x90); v.push(0xE0);
    v.push(0xF0); v.push(0x80); v.push(0x80); v.push(0x80); v.push(0xF0);
    v.push(0xE0); v.push(0x90); v.push(0x90); v.push(0x90); v.push(0xE0);
    v.push(0xF0); v.push(0x80); v.push(0xF0); v.push(0x80); v.push(0xF0);
    v.push(0xF0); v.push(0x80); v.push(0xF0); v.push(0x80); v.push(0x80);
    proof {
        assert(v@ =~= font_table());
    }
    v
}

impl RAM {
    /// A memory image is well-formed when it spans exactly 4096 bytes.
    pub open spec fn wf(&self) -> bool {
        self@.len() == 4096
    }

    /// Create the power-on memory image: zeroed, with the font table
    /// pre-loaded at `FONT_BASE`.
    pub fn new() -> (r: RAM)
        ensures
            r.wf(),
            r@ == initial_mem(),
    {
        let mut mem: Vec<u8> = Vec::new();
        let mut i: usize = 0;
        while i < MEM_SIZE
            invariant
                i <= 4096,
                mem@.len() == i,
                forall|k: int| 0 <= k < i ==> mem@[k] == 0u8,
            decreases 4096 - i,
        {
            mem.push(0);
            i += 1;
        }
        let font = make_font();
        let mut j: usize = 0;
        while j < FONT_BYTES
            invariant
                j <= 80,
                font@ == font_table(),
                mem@.len() == 4096,
                forall|k: int| 0 <= k < j ==> mem@[0x50 + k] == font_table()[k],
                forall|k: int| 0 <= k < 4096 && !(0x50 <= k < 0x50 + j) ==> mem@[k] == 0u8,
            decreases 80 - j,
        {
            let b = font[j];
            mem.set(FONT_BASE + j, b);
            j += 1;
        }
        let r = RAM { mem };
        proof {
            assert(r@ =~= initial_mem());
        }
        r
    }

    /// Read the byte at `addr`, knowing statically that it is in range.
    pub fn byte_at(&self, addr: usize) -> (r: u8)
        requires
            self.wf(),
            addr < 4096,
        ensures
            r == self@[addr as int],
    {
        self.mem[addr]
    }

    /// Read a single byte from memory.  Fails with `OutOfBounds` when `addr`
    /// lies outside the 4096-byte address space.
    pub fn read(&self, addr: usize) -> (r: Result<u8, ErrorKind>)
        requires
            self.wf(),
        ensures
            r == if addr < 4096 {
                Ok::<u8, ErrorKind>(self@[addr as int])
            } else {
                Err::<u8, ErrorKind>(ErrorKind::OutOfBounds)
            },
    {
        if addr < MEM_SIZE {
            Ok(self.mem[addr])
        } else {
            Err(ErrorKind::OutOfBounds)
        }
    }

    /// Store `value` at `addr`, knowing statically that the address is
    /// writable.
    pub fn put_byte(&mut self, addr: usize, value: u8)
        requires
            old(self).wf(),
            0x200 <= addr < 4096,
        ensures
            final(self).wf(),
            final(self)@ == old(self)@.update(addr as int, value),
    {
        self.mem.set(addr, value);
    }

    /// Write a single byte to memory.  Fails with `ProtectedRegionViolation`
    /// for addresses below `ROM_BASE`, else with `OutOfBounds` for addresses
    /// outside the address space; on failure memory is unchanged.
    pub fn write(&mut self, addr: usize, value: u8) -> (r: Result<(), ErrorKind>)
        requires
            old(self).wf(),
        ensures
            final(self).wf(),
            addr < 0x200 ==> r == Err::<(), ErrorKind>(ErrorKind::ProtectedRegionViolation)
                && final(self)@ == old(self)@,
            0x200 <= addr < 4096 ==> r == Ok::<(), ErrorKind>(())
                && final(self)@ == old(self)@.update(addr as int, value),
            addr >= 4096 ==> r == Err::<(), ErrorKind>(ErrorKind::OutOfBounds)
                && final(self)@ == old(self)@,
    {
        if addr < ROM_BASE {
            Err(ErrorKind::ProtectedRegionViolation)
        } else if addr >= MEM_SIZE {
            Err(ErrorKind::OutOfBounds)
        } else {
            self.mem.set(addr, value);
            Ok(())
        }
    }

    /// Copy a ROM image into memory starting at `ROM_BASE`.  Fails with
    /// `RomTooLarge`, leaving memory unchanged, when the image would extend
    /// past the end of memory.
    pub fn load_rom(&mut self, rom: &Vec<u8>) -> (r: Result<(), ErrorKind>)
        requires
            old(self).wf(),
        ensures
            final(self).wf(),
            rom@.len() > 3584 ==> r == Err::<(), ErrorKind>(ErrorKind::RomTooLarge)
                && final(self)@ == old(self)@,
            rom@.len() <= 3584 ==> r == Ok::<(), ErrorKind>(())
                && final(self)@.len() == 4096
                && (forall|k: int| 0 <= k < rom@.len() ==> final(self)@[0x200 + k] == rom@[k])
                && (forall|k: int| 0 <= k < 4096 && !(0x200 <= k < 0x200 + rom@.len())
                    ==> final(self)@[k] == old(self)@[k]),
    {
        if rom.len() > MEM_SIZE - ROM_BASE {
            return Err(ErrorKind::RomTooLarge);
        }
        let mut j: usize = 0;
        while j < rom.len()
            invariant
                j <= rom@.len(),
                rom@.len() <= 3584,
                self.wf(),
                forall|k: int| 0 <= k < j ==> self@[0x200 + k] == rom@[k],
                forall|k: int| 0 <= k < 4096 && !(0x200 <= k < 0x200 + j)
                    ==> self@[k] == old(self)@[k],
            decreases rom@.len() - j,
        {
            let b = rom[j];
            self.mem.set(ROM_BASE + j, b);
            j += 1;
        }
        Ok(())
    }
}

} // verus!
