//! The byte layout of a vault file:
//!
//! ```text
//! [4 bytes, little-endian: header_length]
//! [header_length bytes: serialized header]
//! [remaining bytes: encrypted blob]
//! ```

use vstd::bytes::{
    lemma_auto_spec_u32_to_from_le_bytes, spec_u32_from_le_bytes, spec_u32_to_le_bytes,
    u32_from_le_bytes, u32_to_le_bytes,
};
use vstd::prelude::*;
use vstd::slice::slice_subrange;

verus! {

/// Length in bytes of the length prefix of a vault file.
pub const PREFIX_LEN: usize = 4;

/// Why a byte sequence is not laid out as a vault file, or cannot be.
#[derive(Clone, Copy, Debug, PartialEq, Eq, Structural)]
pub enum LayoutError {
    /// The file ends inside the length prefix or inside the header.
    Truncated,
    /// The header is longer than the length prefix can say.
    HeaderTooLarge,
}

/// The file made of a serialized header and an encrypted blob.
pub open spec fn spec_file_image(header: Seq<u8>, blob: Seq<u8>) -> Result<Seq<u8>, LayoutError> {
    if header.len() > u32::MAX {
        Err(LayoutError::HeaderTooLarge)
    } else {
        Ok(spec_u32_to_le_bytes(header.len() as u32) + header + blob)
    }
}

/// The serialized header and the encrypted blob that a file holds.
pub open spec fn spec_file_parts(file: Seq<u8>) -> Result<(Seq<u8>, Seq<u8>), LayoutError> {
    if file.len() < PREFIX_LEN {
        Err(LayoutError::Truncated)
    } else {
        let header_len = spec_u32_from_le_bytes(file.take(PREFIX_LEN as int));
        if file.len() - PREFIX_LEN < header_len {
            Err(LayoutError::Truncated)
        } else {
            Ok(
                (
                    file.subrange(PREFIX_LEN as int, PREFIX_LEN + header_len),
                    file.skip(PREFIX_LEN + header_len),
                ),
            )
        }
    }
}

/// Lays out a vault file from a serialized header and an encrypted blob.
pub fn frame_file(header: &[u8], blob: &[u8]) -> (r: Result<Vec<u8>, LayoutError>)
    ensures
        match r {
            Ok(file) => spec_file_image(header@, blob@) == Ok::<Seq<u8>, LayoutError>(file@),
            Err(e) => spec_file_image(header@, blob@) == Err::<Seq<u8>, LayoutError>(e),
        },
{
    if header.len() > u32::MAX as usize {
        return Err(LayoutError::HeaderTooLarge);
    }
    let mut file = u32_to_le_bytes(header.len() as u32);
    file.extend_from_slice(header);
    file.extend_from_slice(blob);
    assert(file@ =~= spec_u32_to_le_bytes(header@.len() as u32) + header@ + blob@);
    Ok(file)
}

/// Takes a vault file apart into its serialized header and its encrypted
/// blob. Neither is interpreted.
pub fn split_file(file: &[u8]) -> (r: Result<(&[u8], &[u8]), LayoutError>)
    ensures
        match r {
            Ok(parts) => spec_file_parts(file@) == Ok::<(Seq<u8>, Seq<u8>), LayoutError>(
                (parts.0@, parts.1@),
            ),
            Err(e) => spec_file_parts(file@) == Err::<(Seq<u8>, Seq<u8>), LayoutError>(e),
        },
{
    if file.len() < PREFIX_LEN {
        return Err(LayoutError::Truncated);
    }
    let prefix = slice_subrange(file, 0, PREFIX_LEN);
    assert(prefix@ =~= file@.take(PREFIX_LEN as int));
    let header_len = u32_from_le_bytes(prefix);
    if ((file.len() - PREFIX_LEN) as u64) < header_len as u64 {
        return Err(LayoutError::Truncated);
    }
    let header_end = PREFIX_LEN + header_len as usize;
    let header = slice_subrange(file, PREFIX_LEN, header_end);
    let blob = slice_subrange(file, header_end, file.len());
    assert(blob@ =~= file@.skip(PREFIX_LEN + header_len));
    Ok((header, blob))
}

/// A file that was laid out from a header and a blob holds exactly these
/// two.
pub proof fn lemma_parts_of_image(header: Seq<u8>, blob: Seq<u8>)
    requires
        header.len() <= u32::MAX,
    ensures
        spec_file_image(header, blob) is Ok,
        spec_file_parts(spec_file_image(header, blob)->Ok_0) == Ok::<
            (Seq<u8>, Seq<u8>),
            LayoutError,
        >((header, blob)),
{
    lemma_auto_spec_u32_to_from_le_bytes();
    let prefix = spec_u32_to_le_bytes(header.len() as u32);
    let file = prefix + header + blob;
    assert(file.take(PREFIX_LEN as int) =~= prefix);
    assert(file.subrange(PREFIX_LEN as int, PREFIX_LEN + header.len()) =~= header);
    assert(file.skip(PREFIX_LEN + header.len()) =~= blob);
}

/// A file that can be taken apart is the layout of its two parts.
pub proof fn lemma_image_of_parts(file: Seq<u8>)
    requires
        spec_file_parts(file) is Ok,
    ensures
        spec_file_image(spec_file_parts(file)->Ok_0.0, spec_file_parts(file)->Ok_0.1) == Ok::<
            Seq<u8>,
            LayoutError,
        >(file),
{
    lemma_auto_spec_u32_to_from_le_bytes();
    let parts = spec_file_parts(file)->Ok_0;
    let prefix = file.take(PREFIX_LEN as int);
    assert(spec_u32_to_le_bytes(spec_u32_from_le_bytes(prefix)) == prefix);
    assert(prefix + parts.0 + parts.1 =~= file);
}

} // verus!
