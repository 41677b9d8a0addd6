//! Sections of a binary loaded into owned buffers, and the patching of the
//! relocations that point into them.

use vstd::prelude::*;

verus! {

broadcast use vstd::std_specs::vec::group_vec_axioms, vstd::seq::group_seq_axioms;

/// The bytes of one section and the virtual address they were linked at.
#[derive(Debug)]
pub struct LoadedSection {
    pub vm_start: u64,
    pub data: Vec<u8>,
}

/// Which of the two loaded sections an address falls in.
#[derive(Debug, Clone, Copy, PartialEq, Eq, Structural)]
pub enum SectionRef {
    Data,
    Bindgen,
}

/// The descriptor-table section and the data section it points into.
#[derive(Debug)]
pub struct LoadedSections {
    pub data_section: LoadedSection,
    pub bindgen_section: LoadedSection,
}

/// A relocation: the address to patch, the symbol whose address goes there,
/// and an optional addend.
#[derive(Debug, Clone, Copy)]
pub struct Relocation {
    pub r_offset: u64,
    pub r_sym: usize,
    pub r_addend: Option<i64>,
}

#[derive(Debug, Clone, Copy, PartialEq, Eq, Structural)]
pub enum RelocationError {
    /// The relocation names a symbol that the symbol table lacks.
    MissingSymbol,
    /// The relocated address lies outside both loaded sections.
    SymbolOutsideSections,
    /// The patched address does not fit before the end of its section.
    TargetTooShort,
}

pub open spec fn in_range(start: u64, len: nat, addr: u64) -> bool {
    start <= addr && addr - start < len
}

/// Where an address lies: the descriptor table first, then the data.
pub open spec fn map_spec(b_start: u64, b_len: nat, d_start: u64, d_len: nat, addr: u64) -> Option<
    (SectionRef, int),
> {
    if in_range(b_start, b_len, addr) {
        Some((SectionRef::Bindgen, addr - b_start))
    } else if in_range(d_start, d_len, addr) {
        Some((SectionRef::Data, addr - d_start))
    } else {
        None
    }
}

/// The little-endian bytes of a value.
pub open spec fn le_bytes(x: u64, n: nat) -> Seq<u8>
    decreases n,
{
    if n == 0 {
        Seq::empty()
    } else {
        seq![(x % 256) as u8] + le_bytes(x / 256, (n - 1) as nat)
    }
}

/// The address a relocation resolves to: the symbol's value plus the
/// addend, modulo 2^64.
pub open spec fn resolved(value: u64, addend: Option<i64>) -> u64 {
    match addend {
        Some(a) => ((value as int + (a as u64) as int) % 0x1_0000_0000_0000_0000) as u64,
        None => value,
    }
}

/// One relocation applied to the two buffers.
pub open spec fn reloc_step(
    b_start: u64,
    d_start: u64,
    b: Seq<u8>,
    d: Seq<u8>,
    r: Relocation,
    syms: Seq<u64>,
) -> Result<(Seq<u8>, Seq<u8>), RelocationError> {
    match map_spec(b_start, b.len(), d_start, d.len(), r.r_offset) {
        None => Ok((b, d)),
        Some((which, off)) => if r.r_sym >= syms.len() {
            Err(RelocationError::MissingSymbol)
        } else {
            let addr = resolved(syms[r.r_sym as int], r.r_addend);
            if map_spec(b_start, b.len(), d_start, d.len(), addr) is None {
                Err(RelocationError::SymbolOutsideSections)
            } else {
                let target = if which == SectionRef::Bindgen { b } else { d };
                if off + 8 > target.len() {
                    Err(RelocationError::TargetTooShort)
                } else {
                    let patched = target.take(off) + le_bytes(addr, 8) + target.skip(off + 8);
                    if which == SectionRef::Bindgen {
                        Ok((patched, d))
                    } else {
                        Ok((b, patched))
                    }
                }
            }
        },
    }
}

/// The relocations applied in order; the first failure stops them.
pub open spec fn relocs_spec(
    b_start: u64,
    d_start: u64,
    b: Seq<u8>,
    d: Seq<u8>,
    rs: Seq<Relocation>,
    syms: Seq<u64>,
) -> Result<(Seq<u8>, Seq<u8>), RelocationError>
    decreases rs.len(),
{
    if rs.len() == 0 {
        Ok((b, d))
    } else {
        match reloc_step(b_start, d_start, b, d, rs[0], syms) {
            Err(e) => Err(e),
            Ok((b2, d2)) => relocs_spec(b_start, d_start, b2, d2, rs.drop_first(), syms),
        }
    }
}

proof fn lemma_le_bytes_len(x: u64, n: nat)
    ensures
        le_bytes(x, n).len() == n,
    decreases n,
{
    if n > 0 {
        lemma_le_bytes_len(x / 256, (n - 1) as nat);
    }
}

fn write_le(data: &mut Vec<u8>, off: usize, x: u64)
    requires
        off + 8 <= old(data)@.len(),
    ensures
        final(data)@ == old(data)@.take(off as int) + le_bytes(x, 8) + old(data)@.skip(off + 8),
{
    let ghost full = le_bytes(x, 8);
    let mut cur = x;
    let mut k: usize = 0;
    let n = data.len();
    while k < 8
        invariant
            k <= 8,
            n == data@.len(),
            off + 8 <= n,
            data@.len() == old(data)@.len(),
            le_bytes(x, 8).skip(k as int) == le_bytes(cur, (8 - k) as nat),
            forall|j: int| 0 <= j < off ==> data@[j] == old(data)@[j],
            forall|j: int| off + 8 <= j < data@.len() ==> data@[j] == old(data)@[j],
            forall|j: int| 0 <= j < k ==> data@[off + j] == le_bytes(x, 8)[j],
        decreases 8 - k,
    {
        let ghost rest = le_bytes(cur, (8 - k) as nat);
        proof {
            lemma_le_bytes_len(x, 8);
            lemma_le_bytes_len(cur, (8 - k) as nat);
        }
        assert(rest[0] == (cur % 256) as u8);
        assert(rest.skip(1) =~= le_bytes(cur / 256, (8 - k - 1) as nat));
        assert(le_bytes(x, 8).skip(k + 1) =~= le_bytes(x, 8).skip(k as int).skip(1));
        assert(le_bytes(x, 8)[k as int] == le_bytes(x, 8).skip(k as int)[0]);
        data.set(off + k, (cur % 256) as u8);
        cur = cur / 256;
        k = k + 1;
    }
    proof {
        lemma_le_bytes_len(x, 8);
    }
    assert(data@ =~= old(data)@.take(off as int) + le_bytes(x, 8) + old(data)@.skip(off + 8));
}


fn resolve_address(value: u64, addend: Option<i64>) -> (r: u64)
    ensures
        r == resolved(value, addend),
{
    match addend {
        Some(a) => {
            let sum: u128 = value as u128 + (a as u64) as u128;
            (sum % 0x1_0000_0000_0000_0000u128) as u64
        },
        None => value,
    }
}

fn section_offset(start: u64, data: &Vec<u8>, addr: u64) -> (r: Option<usize>)
    ensures
        match r {
            Some(o) => in_range(start, data@.len(), addr) && o == addr - start,
            None => !in_range(start, data@.len(), addr),
        },
{
    if addr >= start && ((addr - start) as u128) < (data.len() as u128) {
        Some((addr - start) as usize)
    } else {
        None
    }
}

impl LoadedSections {
    /// Where an address of the binary lies in the loaded buffers.
    pub fn map_addr(&self, addr: u64) -> (r: Option<(SectionRef, usize)>)
        ensures
            match map_spec(
                self.bindgen_section.vm_start,
                self.bindgen_section.data@.len(),
                self.data_section.vm_start,
                self.data_section.data@.len(),
                addr,
            ) {
                Some((w, o)) => r == Some((w, o as usize)),
                None => r is None,
            },
    {
        match section_offset(self.bindgen_section.vm_start, &self.bindgen_section.data, addr) {
            Some(o) => Some((SectionRef::Bindgen, o)),
            None => match section_offset(self.data_section.vm_start, &self.data_section.data, addr) {
                Some(o) => Some((SectionRef::Data, o)),
                None => None,
            },
        }
    }

    /// Patches every relocation whose target lies in a loaded section with
    /// the address it resolves to, which must itself lie in a loaded
    /// section.
    pub fn perform_relocs(&mut self, relocs: &Vec<Relocation>, symbols: &Vec<u64>) -> (r: Result<
        (),
        RelocationError,
    >)
        ensures
            final(self).bindgen_section.vm_start == old(self).bindgen_section.vm_start,
            final(self).data_section.vm_start == old(self).data_section.vm_start,
            match relocs_spec(
                old(self).bindgen_section.vm_start,
                old(self).data_section.vm_start,
                old(self).bindgen_section.data@,
                old(self).data_section.data@,
                relocs@,
                symbols@,
            ) {
                Ok((b, d)) => r is Ok && final(self).bindgen_section.data@ == b
                    && final(self).data_section.data@ == d,
                Err(e) => r == Err::<(), RelocationError>(e),
            },
    {
        let ghost bs = self.bindgen_section.vm_start;
        let ghost ds = self.data_section.vm_start;
        let ghost whole = relocs_spec(
            bs,
            ds,
            self.bindgen_section.data@,
            self.data_section.data@,
            relocs@,
            symbols@,
        );
        let mut i: usize = 0;
        assert(relocs@.skip(0) =~= relocs@);
        while i < relocs.len()
            invariant
                i <= relocs@.len(),
                bs == old(self).bindgen_section.vm_start,
                ds == old(self).data_section.vm_start,
                whole == relocs_spec(
                    bs,
                    ds,
                    old(self).bindgen_section.data@,
                    old(self).data_section.data@,
                    relocs@,
                    symbols@,
                ),
                self.bindgen_section.vm_start == bs,
                self.data_section.vm_start == ds,
                whole == relocs_spec(
                    bs,
                    ds,
                    self.bindgen_section.data@,
                    self.data_section.data@,
                    relocs@.skip(i as int),
                    symbols@,
                ),
            decreases relocs.len() - i,
        {
            let r = relocs[i];
            assert(relocs@.skip(i as int)[0] == r);
            assert(relocs@.skip(i as int).drop_first() =~= relocs@.skip(i + 1));
            let ghost b0 = self.bindgen_section.data@;
            let ghost d0 = self.data_section.data@;
            match self.map_addr(r.r_offset) {
                None => {},
                Some((which, off)) => {
                    if r.r_sym >= symbols.len() {
                        {
                            assert(reloc_step(bs, ds, b0, d0, r, symbols@) == Err::<(Seq<u8>, Seq<u8>), RelocationError>(
                                RelocationError::MissingSymbol,
                            ));
                            assert(relocs_spec(bs, ds, b0, d0, relocs@.skip(i as int), symbols@)
                                == Err::<(Seq<u8>, Seq<u8>), RelocationError>(RelocationError::MissingSymbol));
                            return Err(RelocationError::MissingSymbol);
                        }
                    }
                    let addr = resolve_address(symbols[r.r_sym], r.r_addend);
                    if self.map_addr(addr).is_none() {
                        {
                            assert(reloc_step(bs, ds, b0, d0, r, symbols@) == Err::<(Seq<u8>, Seq<u8>), RelocationError>(
                                RelocationError::SymbolOutsideSections,
                            ));
                            assert(relocs_spec(bs, ds, b0, d0, relocs@.skip(i as int), symbols@)
                                == Err::<(Seq<u8>, Seq<u8>), RelocationError>(RelocationError::SymbolOutsideSections));
                            return Err(RelocationError::SymbolOutsideSections);
                        }
                    }
                    match which {
                        SectionRef::Bindgen => {
                            if off > self.bindgen_section.data.len() || self.bindgen_section.data.len() - off < 8 {
                                {
                            assert(reloc_step(bs, ds, b0, d0, r, symbols@) == Err::<(Seq<u8>, Seq<u8>), RelocationError>(
                                RelocationError::TargetTooShort,
                            ));
                            assert(relocs_spec(bs, ds, b0, d0, relocs@.skip(i as int), symbols@)
                                == Err::<(Seq<u8>, Seq<u8>), RelocationError>(RelocationError::TargetTooShort));
                            return Err(RelocationError::TargetTooShort);
                        }
                            }
                            write_le(&mut self.bindgen_section.data, off, addr);
                        },
                        SectionRef::Data => {
                            if off > self.data_section.data.len() || self.data_section.data.len() - off < 8 {
                                {
                            assert(reloc_step(bs, ds, b0, d0, r, symbols@) == Err::<(Seq<u8>, Seq<u8>), RelocationError>(
                                RelocationError::TargetTooShort,
                            ));
                            assert(relocs_spec(bs, ds, b0, d0, relocs@.skip(i as int), symbols@)
                                == Err::<(Seq<u8>, Seq<u8>), RelocationError>(RelocationError::TargetTooShort));
                            return Err(RelocationError::TargetTooShort);
                        }
                            }
                            write_le(&mut self.data_section.data, off, addr);
                        },
                    }
                },
            }
            assert(reloc_step(bs, ds, b0, d0, r, symbols@) == Ok::<(Seq<u8>, Seq<u8>), RelocationError>(
                (self.bindgen_section.data@, self.data_section.data@),
            ));
            i = i + 1;
        }
        assert(relocs@.skip(i as int) =~= Seq::<Relocation>::empty());
        Ok(())
    }
}

} // verus!
