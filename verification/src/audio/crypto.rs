//! The encryption of audio payloads.

use vstd::prelude::*;

use crate::bytes::be_bytes;

verus! {

/// An AES-128 key.
#[derive(Debug, Clone, Copy)]
pub struct AesKey(pub [u8; 16]);

/// The number that the initialisation vectors of a stream are counted from.
#[derive(Debug, Clone, Copy, PartialEq, Eq, Structural)]
pub struct AesIv(pub u32);

/// How the payloads of a stream are encrypted.
#[derive(Debug, Clone, Copy)]
pub struct SunshineEncryption {
    pub aes_key: AesKey,
    pub aes_iv: AesIv,
}

/// Why a backend could not decrypt.
#[derive(Debug, Clone, Copy, PartialEq, Eq, Structural)]
pub enum CryptoError {
    /// The backend does not do cryptography.
    Disabled,
    /// The ciphertext or its padding is malformed.
    InvalidCiphertext,
    /// The plaintext does not fit in the buffer it was to be written to.
    BufferTooSmall,
}

/// The cryptography that a stream relies on; each user of the library brings
/// its own.
pub trait CryptoBackend {
    /// What the backend answers when it is asked to decrypt `ciphertext` into a
    /// buffer of `room` bytes; a backend need not say.
    closed spec fn cbc_plaintext(
        &self,
        key: AesKey,
        iv: Seq<u8>,
        ciphertext: Seq<u8>,
        room: nat,
    ) -> Result<Seq<u8>, CryptoError> {
        let answer: spec_fn(&Self, AesKey, Seq<u8>, Seq<u8>, nat) -> Result<
            Seq<u8>,
            CryptoError,
        > = arbitrary();
        answer(self, key, iv, ciphertext, room)
    }

    /// Decrypts AES-128-CBC with PKCS#7 padding into `plaintext` and returns
    /// the number of bytes written.
    fn decrypt_aes_cbc(
        &self,
        key: &AesKey,
        iv: &[u8; 16],
        ciphertext: &[u8],
        plaintext: &mut [u8],
    ) -> (written: Result<usize, CryptoError>)
        ensures
            final(plaintext)@.len() == old(plaintext)@.len(),
            self.cbc_plaintext(*key, iv@, ciphertext@, old(plaintext)@.len()) == written_plaintext(
                written,
                final(plaintext)@,
            ),
    ;
}

/// What a backend that reports `written` has put into `buffer`: the first bytes
/// of it, or its error.
pub open spec fn written_plaintext(
    written: Result<usize, CryptoError>,
    buffer: Seq<u8>,
) -> Result<Seq<u8>, CryptoError> {
    match written {
        Ok(len) => Ok(
            if len <= buffer.len() {
                buffer.take(len as int)
            } else {
                buffer
            },
        ),
        Err(error) => Err(error),
    }
}

/// The length of a buffer that can hold the plaintext of `len` bytes of
/// ciphertext: the next multiple of the block size.
pub open spec fn pkcs7_safe_len(len: int) -> int {
    let rounded = if len + 15 <= usize::MAX {
        len + 15
    } else {
        usize::MAX as int
    };
    rounded / 16 * 16
}

/// Rounds `len` up to a multiple of the block size.
pub fn round_to_pkcs7_safe_len(len: usize) -> (safe: usize)
    ensures
        safe == pkcs7_safe_len(len as int),
        len <= usize::MAX - 15 ==> len <= safe < len + 16,
{
    len.saturating_add(15) / 16 * 16
}

/// The initialisation vector of the packet with the given sequence number: the
/// stream's number plus the sequence number, big endian, then zeroes.
pub open spec fn packet_iv(iv: AesIv, sequence_number: u16) -> Seq<u8> {
    be_bytes(((iv.0 + sequence_number) % 0x1_0000_0000) as u32) + Seq::new(12, |i: int| 0u8)
}

/// Computes the initialisation vector of one packet.
pub fn iv_of_packet(iv: AesIv, sequence_number: u16) -> (bytes: [u8; 16])
    ensures
        bytes@ == packet_iv(iv, sequence_number),
{
    let counter: u32 = iv.0.wrapping_add(sequence_number as u32);
    let bytes: [u8; 16] = [
        (counter / 0x100_0000) as u8,
        (counter / 0x1_0000 % 0x100) as u8,
        (counter / 0x100 % 0x100) as u8,
        (counter % 0x100) as u8,
        0,
        0,
        0,
        0,
        0,
        0,
        0,
        0,
        0,
        0,
        0,
        0,
    ];
    assert(bytes@ =~= packet_iv(iv, sequence_number));
    bytes
}

} // verus!
