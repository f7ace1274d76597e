//! The framing of a side-controller image into chunks.
//!
//! A chunk tells where it belongs and carries its own checksum, so the
//! chunks of an image can be sent and checked in any order.

use crate::error::FlashError;
use crate::firmware_downloader::FirmwareNode;
use vstd::prelude::*;

verus! {

/// The number of image bytes in a chunk; the last chunk may hold fewer.
pub const CHUNK_DATA_SIZE: usize = 256;

/// The CRC-32 checksum (IEEE) of a run of bytes.
pub uninterp spec fn crc32(data: Seq<u8>) -> u32;

/// `crc32fast::hash` computes the CRC-32 checksum of the bytes. The result
/// is that of a fresh `Hasher` that is fed the bytes and finalized.
pub assume_specification[ crc32fast::hash ](buf: &[u8]) -> (sum: u32)
    ensures
        sum == crc32(buf@),
;

/// A slice of an image, ready to be sent.
#[derive(Debug, Clone, PartialEq, Eq)]
pub struct Chunk {
    /// The position of the slice in the image.
    pub offset: u32,
    /// The number of bytes in the slice.
    pub length: u32,
    /// The bytes of the slice.
    pub data: Vec<u8>,
    /// The checksum of the bytes of the slice.
    pub crc32: u32,
}

/// The four bytes of a number, the least significant first.
pub open spec fn le_bytes(n: u32) -> Seq<u8> {
    seq![
        (n % 256) as u8,
        (n / 0x100 % 256) as u8,
        (n / 0x1_0000 % 256) as u8,
        (n / 0x100_0000) as u8,
    ]
}

/// The bytes of a chunk on the wire: offset, length, data, checksum; the
/// numbers as four bytes each, the least significant first.
pub open spec fn chunk_frame(offset: u32, data: Seq<u8>, checksum: u32) -> Seq<u8> {
    le_bytes(offset) + le_bytes(data.len() as u32) + data + le_bytes(checksum)
}

/// The number of chunks that an image of `len` bytes is split into.
pub open spec fn chunk_count(len: nat) -> nat {
    (len + CHUNK_DATA_SIZE - 1) as nat / (CHUNK_DATA_SIZE as nat)
}

/// The slice of an image that chunk number `index` carries.
pub open spec fn chunk_slice(bytes: Seq<u8>, index: int) -> Seq<u8> {
    bytes.subrange(
        index * CHUNK_DATA_SIZE,
        if (index + 1) * CHUNK_DATA_SIZE <= bytes.len() {
            (index + 1) * CHUNK_DATA_SIZE
        } else {
            bytes.len() as int
        },
    )
}

/// The chunks of an image leave no byte out and take none twice: the byte
/// at position `at` of the image is the byte at position `at % 256` of the
/// slice of chunk number `at / 256`, and every slice but the last is full.
pub proof fn lemma_chunks_partition(bytes: Seq<u8>, at: int)
    requires
        0 <= at < bytes.len(),
    ensures
        at / (CHUNK_DATA_SIZE as int) < chunk_count(bytes.len()),
        at % (CHUNK_DATA_SIZE as int) < chunk_slice(bytes, at / (CHUNK_DATA_SIZE as int)).len(),
        chunk_slice(bytes, at / (CHUNK_DATA_SIZE as int))[at % (CHUNK_DATA_SIZE as int)]
            == bytes[at],
        forall|i: int|
            0 <= i < chunk_count(bytes.len()) - 1 ==> (#[trigger] chunk_slice(bytes, i)).len()
                == CHUNK_DATA_SIZE,
        0 < chunk_slice(bytes, chunk_count(bytes.len()) - 1).len() <= CHUNK_DATA_SIZE,
{
}

/// Appends the four bytes of `n` to `out`, the least significant first.
fn push_le(out: &mut Vec<u8>, n: u32)
    ensures
        final(out)@ == old(out)@ + le_bytes(n),
{
    let ghost before = out@;
    out.push((n % 256) as u8);
    out.push((n / 0x100 % 256) as u8);
    out.push((n / 0x1_0000 % 256) as u8);
    out.push((n / 0x100_0000) as u8);
    assert(out@ == before + le_bytes(n));
}

impl Chunk {
    /// A chunk is well formed where its length is that of its data.
    pub open spec fn well_formed(&self) -> bool {
        self.length == self.data.len()
    }

    /// The chunk for the slice `data` at `offset` with the checksum
    /// `checksum`.
    pub fn new(offset: u32, data: &[u8], checksum: u32) -> (chunk: Chunk)
        requires
            data.len() <= u32::MAX,
        ensures
            chunk.offset == offset,
            chunk.length == data.len(),
            chunk.data@ == data@,
            chunk.crc32 == checksum,
            chunk.well_formed(),
    {
        let mut copy: Vec<u8> = Vec::new();
        let mut i: usize = 0;
        while i < data.len()
            invariant
                0 <= i <= data.len(),
                copy@ == data@.take(i as int),
            decreases data.len() - i,
        {
            copy.push(data[i]);
            i += 1;
        }
        assert(data@.take(data.len() as int) == data@);
        Chunk { offset, length: data.len() as u32, data: copy, crc32: checksum }
    }

    /// The bytes of the chunk on the wire.
    pub fn to_bytes(&self) -> (frame: Vec<u8>)
        requires
            self.well_formed(),
        ensures
            frame@ == chunk_frame(self.offset, self.data@, self.crc32),
            frame.len() == self.data.len() + 12,
    {
        let mut frame: Vec<u8> = Vec::new();
        push_le(&mut frame, self.offset);
        push_le(&mut frame, self.length);
        let ghost head = frame@;
        let mut i: usize = 0;
        while i < self.data.len()
            invariant
                0 <= i <= self.data.len(),
                frame@ == head + self.data@.take(i as int),
            decreases self.data.len() - i,
        {
            frame.push(self.data[i]);
            assert(self.data@.take(i + 1) == self.data@.take(i as int).push(self.data@[i as int]));
            i += 1;
        }
        assert(self.data@.take(self.data.len() as int) == self.data@);
        push_le(&mut frame, self.crc32);
        frame
    }
}

/// The flasher of the side controllers.
pub struct SideFlasher {}

impl SideFlasher {
    /// Splits the image into chunks of `CHUNK_DATA_SIZE` bytes, the last one
    /// shorter where the image does not fill it, and frames each: its offset
    /// in the image, its length, its bytes, and the CRC-32 checksum of its
    /// bytes alone.
    ///
    /// An image that is longer than a 32-bit offset can say is refused.
    pub fn prepare_chunks(firmware: &FirmwareNode) -> (chunks: Result<Vec<Vec<u8>>, FlashError>)
        ensures
            match chunks {
                Ok(frames) => {
                    &&& firmware.bytes.len() <= u32::MAX
                    &&& frames.len() == chunk_count(firmware.bytes@.len())
                    &&& forall|i: int|
                        0 <= i < frames.len() ==> (#[trigger] frames[i])@ == chunk_frame(
                            (i * CHUNK_DATA_SIZE) as u32,
                            chunk_slice(firmware.bytes@, i),
                            crc32(chunk_slice(firmware.bytes@, i)),
                        )
                },
                Err(e) => firmware.bytes.len() > u32::MAX && e == FlashError::ImageTooLarge,
            },
    {
        let bytes = &firmware.bytes;
        if bytes.len() > u32::MAX as usize {
            return Err(FlashError::ImageTooLarge);
        }
        let mut frames: Vec<Vec<u8>> = Vec::new();
        let mut at: usize = 0;
        while at < bytes.len()
            invariant
                0 <= at <= bytes.len() <= u32::MAX,
                bytes == &firmware.bytes,
                at % CHUNK_DATA_SIZE == 0 || at == bytes.len(),
                at == bytes.len() ==> frames.len() == chunk_count(bytes@.len()),
                at < bytes.len() ==> frames.len() * CHUNK_DATA_SIZE == at,
                forall|i: int|
                    0 <= i < frames.len() ==> (#[trigger] frames[i])@ == chunk_frame(
                        (i * CHUNK_DATA_SIZE) as u32,
                        chunk_slice(bytes@, i),
                        crc32(chunk_slice(bytes@, i)),
                    ),
            decreases bytes.len() - at,
        {
            let end: usize = if bytes.len() - at <= CHUNK_DATA_SIZE {
                bytes.len()
            } else {
                at + CHUNK_DATA_SIZE
            };
            let data = vstd::slice::slice_subrange(bytes.as_slice(), at, end);
            let ghost index = frames.len() as int;
            assert(data@ == chunk_slice(bytes@, index));
            let checksum = crc32fast::hash(data);
            let chunk = Chunk::new(at as u32, data, checksum);
            frames.push(chunk.to_bytes());
            at = end;
        }
        Ok(frames)
    }
}

} // verus!
