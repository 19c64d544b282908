//! The Reed-Solomon code that protects blocks of audio packets.

use fec_rs::{Error, ReedSolomon};
use vstd::prelude::*;

use crate::audio::galois::{is_codeword, is_part_of, leaves_data_open};
use crate::audio::packet::{RTP_AUDIO_DATA_SHARDS, RTP_AUDIO_FEC_SHARDS};

verus! {

/// Why shards could not be reconstructed.
#[derive(Debug, Clone, Copy, PartialEq, Eq, Structural)]
pub enum FecError {
    TooFewShards,
    TooManyShards,
    TooFewDataShards,
    TooManyDataShards,
    TooFewParityShards,
    TooManyParityShards,
    TooFewBufferShards,
    TooManyBufferShards,
    IncorrectShardSize,
    TooFewShardsPresent,
    EmptyShard,
    InvalidIndex,
    InvalidParityMatrix,
    SingularMatrix,
}

/// What a code is made of: how many shards of each kind it has, and the rows of
/// its matrix that turn data into parity.
#[verifier::ext_equal]
pub struct CodeParams {
    pub data_shards: nat,
    pub parity_shards: nat,
    pub parity_rows: Seq<u8>,
}

/// The outside codec.
#[verifier::external_type_specification]
#[verifier::external_body]
pub struct ExReedSolomon(ReedSolomon);

/// What the matrix of a codec holds, and its shape.
pub uninterp spec fn code_params(codec: ReedSolomon) -> CodeParams;

/// What `ReedSolomon::reconstruct_data` makes of `shards` under a code.
pub uninterp spec fn reconstructed(code: CodeParams, shards: Seq<Option<Seq<u8>>>) -> Result<
    Seq<Option<Seq<u8>>>,
    FecError,
>;

/// The bytes of each shard that is there.
pub open spec fn shard_bytes(shards: Seq<Option<Vec<u8>>>) -> Seq<Option<Seq<u8>>> {
    Seq::new(
        shards.len(),
        |i: int|
            match shards[i] {
                Some(bytes) => Some(bytes@),
                None => None,
            },
    )
}

/// How many of the first `n` shards are there.
pub open spec fn present(shards: Seq<Option<Seq<u8>>>, n: nat) -> nat
    decreases n,
{
    if n == 0 {
        0
    } else {
        present(shards, (n - 1) as nat) + if shards[n - 1] is Some {
            1nat
        } else {
            0nat
        }
    }
}

/// The first thing wrong with the sizes of the shards from index `i` on, where
/// `size` is the size of the shards before: a shard that is there must not be
/// empty and must have the size of the others.
pub open spec fn size_fault(shards: Seq<Option<Seq<u8>>>, i: nat, size: Option<nat>) -> Option<
    FecError,
>
    decreases shards.len() - i,
{
    if i >= shards.len() {
        None
    } else {
        match shards[i as int] {
            None => size_fault(shards, i + 1, size),
            Some(bytes) => if bytes.len() == 0 {
                Some(FecError::EmptyShard)
            } else if size is Some && size != Some(bytes.len()) {
                Some(FecError::IncorrectShardSize)
            } else {
                size_fault(shards, i + 1, Some(bytes.len()))
            },
        }
    }
}

/// Why a code refuses the shards, whatever its matrix: their sizes differ, or
/// fewer are there than there are data shards.
pub open spec fn shard_fault(code: CodeParams, shards: Seq<Option<Seq<u8>>>) -> Option<FecError> {
    match size_fault(shards, 0, None) {
        Some(error) => Some(error),
        None => if present(shards, shards.len()) < code.data_shards {
            Some(FecError::TooFewShardsPresent)
        } else {
            None
        },
    }
}

/// Calls `fec_rs::ReedSolomon::new`. Claims that the codec has the shape asked
/// for; the precondition is what the outside function returns no error for.
#[verifier::external_body]
fn new_codec(data_shards: usize, parity_shards: usize) -> (codec: ReedSolomon)
    requires
        0 < data_shards,
        0 < parity_shards,
        data_shards + parity_shards <= 256,
    ensures
        code_params(codec).data_shards == data_shards,
        code_params(codec).parity_shards == parity_shards,
{
    ReedSolomon::new(data_shards, parity_shards).unwrap()
}

/// Calls `fec_rs::ReedSolomon::set_parity_matrix`. Claims that the rows become
/// those given and that the shape stays; the precondition is what the outside
/// function returns no error for.
#[verifier::external_body]
fn set_parity_rows(codec: &mut ReedSolomon, rows: &[u8])
    requires
        rows@.len() == code_params(*old(codec)).data_shards * code_params(
            *old(codec),
        ).parity_shards,
    ensures
        code_params(*final(codec)) == (CodeParams {
            parity_rows: rows@,
            ..code_params(*old(codec))
        }),
{
    codec.set_parity_matrix(rows).unwrap()
}

/// Calls `fec_rs::ReedSolomon::reconstruct_data` on as many shards as the code
/// has. Claims that the result is a function of the code and the shards; that
/// shards of unequal sizes and too few shards are refused; that otherwise it
/// fails only if the shards that it uses, the first ones that are there, leave
/// the data open; and that where it succeeds, every data shard is there
/// afterwards, the shards that were there before are unchanged, and the data is
/// that of any codeword that the shards are a part of.
#[verifier::external_body]
pub(crate) fn reconstruct_data(codec: &ReedSolomon, shards: Vec<Option<Vec<u8>>>) -> (result: Result<
    Vec<Option<Vec<u8>>>,
    FecError,
>)
    requires
        shards@.len() == code_params(*codec).data_shards + code_params(*codec).parity_shards,
    ensures
        match result {
            Ok(out) => reconstructed(code_params(*codec), shard_bytes(shards@)) == Ok::<
                Seq<Option<Seq<u8>>>,
                FecError,
            >(shard_bytes(out@)),
            Err(error) => reconstructed(code_params(*codec), shard_bytes(shards@)) == Err::<
                Seq<Option<Seq<u8>>>,
                FecError,
            >(error),
        },
        match shard_fault(code_params(*codec), shard_bytes(shards@)) {
            Some(fault) => result == Err::<Vec<Option<Vec<u8>>>, FecError>(fault),
            None => result matches Err(error) ==> error is SingularMatrix && leaves_data_open(
                code_params(*codec),
                shard_bytes(shards@),
            ),
        },
        result matches Ok(out) ==> {
            &&& out@.len() == shards@.len()
            &&& forall|i: int|
                0 <= i < out@.len() && shards@[i] is Some ==> shard_bytes(out@)[i] == shard_bytes(
                    shards@,
                )[i]
            &&& forall|i: int| 0 <= i < code_params(*codec).data_shards ==> out@[i] is Some
            &&& forall|whole: Seq<Seq<u8>>, i: int|
                #![trigger is_codeword(code_params(*codec), whole), out@[i]]
                is_codeword(code_params(*codec), whole) && is_part_of(shard_bytes(shards@), whole)
                    && 0 <= i < code_params(*codec).data_shards ==> shard_bytes(out@)[i] == Some(
                    whole[i],
                )
        },
{
    let mut shards = shards;
    match codec.reconstruct_data(&mut shards) {
        Ok(()) => Ok(shards),
        Err(e) => Err(match e {
            Error::TooFewShards => FecError::TooFewShards, Error::TooManyShards => FecError::TooManyShards,
            Error::TooFewDataShards => FecError::TooFewDataShards, Error::TooManyDataShards => FecError::TooManyDataShards,
            Error::TooFewParityShards => FecError::TooFewParityShards, Error::TooManyParityShards => FecError::TooManyParityShards,
            Error::TooFewBufferShards => FecError::TooFewBufferShards, Error::TooManyBufferShards => FecError::TooManyBufferShards,
            Error::IncorrectShardSize => FecError::IncorrectShardSize, Error::TooFewShardsPresent => FecError::TooFewShardsPresent,
            Error::EmptyShard => FecError::EmptyShard, Error::InvalidIndex => FecError::InvalidIndex,
            Error::InvalidParityMatrix => FecError::InvalidParityMatrix, Error::SingularMatrix => FecError::SingularMatrix,
        }),
    }
}

/// The code that every audio stream uses.
pub open spec fn audio_code() -> CodeParams {
    CodeParams {
        data_shards: RTP_AUDIO_DATA_SHARDS as nat,
        parity_shards: RTP_AUDIO_FEC_SHARDS as nat,
        parity_rows: seq![0x77, 0x40, 0x38, 0x0e, 0xc7, 0xa7, 0x0d, 0x6c],
    }
}

/// Makes the codec for audio blocks. Its parity rows are not the usual ones of
/// a code of this shape: they are fixed by the hosts.
pub(crate) fn create_audio_reed_solomon() -> (codec: ReedSolomon)
    ensures
        code_params(codec) == audio_code(),
{
    let mut codec = new_codec(RTP_AUDIO_DATA_SHARDS, RTP_AUDIO_FEC_SHARDS);
    let rows: [u8; 8] = [0x77, 0x40, 0x38, 0x0e, 0xc7, 0xa7, 0x0d, 0x6c];
    set_parity_rows(&mut codec, &rows);
    assert(code_params(codec) =~= audio_code());
    codec
}

} // verus!
