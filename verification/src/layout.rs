//! Where a code signature goes in a binary and how large it is.

use vstd::prelude::*;

verus! {

/// The layout of a binary with its signature appended.
pub struct MachOLayoutInfo {
    pub binary_size: usize,
    pub signature_offset: usize,
    pub signature_size: usize,
    pub total_size: usize,
}

/// The `LC_CODE_SIGNATURE` load command of a layout.
pub struct LCCodeSignatureA4 {
    pub cmd: String,
    pub data_offset: usize,
    pub data_size: usize,
}

/// The layout planner.
pub struct MachOLayoutA4;

/// The estimated signature size for a binary of `size` bytes: a tenth of it
/// plus one page.
pub open spec fn signature_size_for(size: nat) -> nat {
    size / 10 + 4096
}

/// A binary of `size` bytes can be laid out without the total overflowing.
pub open spec fn layout_fits(size: nat) -> bool {
    size + signature_size_for(size) <= usize::MAX
}

/// `l` is the layout of a binary of `size` bytes: the signature starts where
/// the binary ends and the total is the sum of both.
pub open spec fn is_layout_of(l: MachOLayoutInfo, size: nat) -> bool {
    &&& l.binary_size == size
    &&& l.signature_offset == size
    &&& l.signature_size == signature_size_for(size)
    &&& l.total_size == size + signature_size_for(size)
}

impl MachOLayoutA4 {
    pub fn build_layout(binary_size: usize) -> (out: MachOLayoutInfo)
        requires
            layout_fits(binary_size as nat),
        ensures
            is_layout_of(out, binary_size as nat),
    {
        let signature_offset = binary_size;
        let signature_size = Self::estimate_signature_size(binary_size);
        MachOLayoutInfo {
            binary_size,
            signature_offset,
            signature_size,
            total_size: binary_size + signature_size,
        }
    }

    fn estimate_signature_size(size: usize) -> (out: usize)
        requires
            layout_fits(size as nat),
        ensures
            out == signature_size_for(size as nat),
    {
        (size / 10) + 4096
    }

    /// The load command that points at the layout's signature.
    pub fn generate_lc_code_signature(&self, layout: &MachOLayoutInfo) -> (out: LCCodeSignatureA4)
        ensures
            out.cmd@ == "LC_CODE_SIGNATURE"@,
            out.data_offset == layout.signature_offset,
            out.data_size == layout.signature_size,
    {
        LCCodeSignatureA4 {
            cmd: String::from_str("LC_CODE_SIGNATURE"),
            data_offset: layout.signature_offset,
            data_size: layout.signature_size,
        }
    }
}

/// The signature a layout plans lies right after the binary and ends at the
/// total size.
pub proof fn lemma_signature_ends_at_total(l: MachOLayoutInfo, size: nat)
    requires
        is_layout_of(l, size),
    ensures
        l.signature_offset + l.signature_size == l.total_size,
        l.total_size > l.binary_size,
{
}

} // verus!
