use fec_rs::ReedSolomon;
use moonlight_stream::audio::crypto::{
    iv_of_packet, round_to_pkcs7_safe_len, AesIv, AesKey, CryptoBackend, CryptoError,
    SunshineEncryption,
};
use moonlight_stream::audio::depayloader::{
    decrypted_frame, AudioDepayloader, AudioDepayloaderConfig, AudioFrame, DataPacket,
};
use moonlight_stream::audio::fec::FecError;
use moonlight_stream::audio::model::AudioDepayloaderError;

/// Does no cryptography.
struct DisabledCryptoBackend;

impl CryptoBackend for DisabledCryptoBackend {
    fn decrypt_aes_cbc(
        &self,
        _key: &AesKey,
        _iv: &[u8; 16],
        _ciphertext: &[u8],
        _plaintext: &mut [u8],
    ) -> Result<usize, CryptoError> {
        Err(CryptoError::Disabled)
    }
}

/// Flips every byte with the first byte of the key and the fourth byte of the
/// initialisation vector; the last byte of a block says how many are padding.
struct FlipBackend;

impl CryptoBackend for FlipBackend {
    fn decrypt_aes_cbc(
        &self,
        key: &AesKey,
        iv: &[u8; 16],
        ciphertext: &[u8],
        plaintext: &mut [u8],
    ) -> Result<usize, CryptoError> {
        if ciphertext.is_empty() || ciphertext.len() % 16 != 0 {
            return Err(CryptoError::InvalidCiphertext);
        }
        if plaintext.len() < ciphertext.len() {
            return Err(CryptoError::BufferTooSmall);
        }
        for (out, byte) in plaintext.iter_mut().zip(ciphertext) {
            *out = byte ^ key.0[0] ^ iv[3];
        }
        let padding = plaintext[ciphertext.len() - 1] as usize;
        Ok(ciphertext.len() - padding)
    }
}

fn encrypt(key: u8, iv: u8, plaintext: &[u8]) -> Vec<u8> {
    let padding = 16 - plaintext.len() % 16;
    let mut bytes = plaintext.to_vec();
    bytes.resize(plaintext.len() + padding, padding as u8);
    for byte in bytes.iter_mut() {
        *byte ^= key ^ iv;
    }
    bytes
}

fn data_packet(sequence_number: u16, timestamp: u32, payload: &[u8]) -> Vec<u8> {
    let mut packet = vec![0x80, 97];
    packet.extend(sequence_number.to_be_bytes());
    packet.extend(timestamp.to_be_bytes());
    packet.extend([0, 0, 0, 0]);
    packet.extend(payload);
    packet
}

fn fec_packet(base: u16, base_timestamp: u32, index: u8, payload: &[u8]) -> Vec<u8> {
    let mut packet = vec![0x80, 127];
    packet.extend([0, 0]);
    packet.extend([0, 0, 0, 0]);
    packet.extend([0, 0, 0, 0]);
    packet.extend([index, 97]);
    packet.extend(base.to_be_bytes());
    packet.extend(base_timestamp.to_be_bytes());
    packet.extend([0, 0, 0, 0]);
    packet.extend(payload);
    packet
}

fn parity(shards: &[Vec<u8>; 4]) -> [Vec<u8>; 2] {
    let mut codec = ReedSolomon::new(4, 2).unwrap();
    codec
        .set_parity_matrix(&[0x77, 0x40, 0x38, 0x0e, 0xc7, 0xa7, 0x0d, 0x6c])
        .unwrap();
    let mut all: Vec<Vec<u8>> = shards.to_vec();
    all.push(vec![0; shards[0].len()]);
    all.push(vec![0; shards[0].len()]);
    codec.encode(&mut all).unwrap();
    [all[4].clone(), all[5].clone()]
}

fn depayloader(fec: bool) -> AudioDepayloader<DisabledCryptoBackend> {
    AudioDepayloader::new(
        AudioDepayloaderConfig {
            fec,
            encryption: None,
        },
        DisabledCryptoBackend,
    )
}

fn poll(depayloader: &mut AudioDepayloader<DisabledCryptoBackend>) -> Option<(u64, Vec<u8>)> {
    depayloader
        .poll_frame()
        .unwrap()
        .map(|frame| (frame.timestamp, frame.buffer))
}

#[test]
fn a_packet_comes_out_as_it_went_in() {
    let mut depayloader = depayloader(false);
    assert_eq!(poll(&mut depayloader), None);
    depayloader
        .handle_packet(&data_packet(0, 5, &[1, 2, 3]))
        .unwrap();
    assert_eq!(poll(&mut depayloader), Some((5_000_000, vec![1, 2, 3])));
    assert_eq!(poll(&mut depayloader), None);
}

#[test]
fn packets_come_out_in_order_and_once() {
    let mut depayloader = depayloader(false);
    depayloader.handle_packet(&data_packet(2, 10, &[2])).unwrap();
    depayloader.handle_packet(&data_packet(1, 5, &[1])).unwrap();
    assert_eq!(poll(&mut depayloader), None);
    depayloader.handle_packet(&data_packet(0, 0, &[0])).unwrap();
    assert_eq!(poll(&mut depayloader), Some((0, vec![0])));
    // A packet that was given out is not taken in again
    depayloader.handle_packet(&data_packet(0, 0, &[9])).unwrap();
    assert_eq!(poll(&mut depayloader), Some((5_000_000, vec![1])));
    assert_eq!(poll(&mut depayloader), Some((10_000_000, vec![2])));
    assert_eq!(poll(&mut depayloader), None);
}

#[test]
fn a_newer_copy_of_a_waiting_packet_replaces_it() {
    let mut depayloader = depayloader(false);
    depayloader.handle_packet(&data_packet(1, 5, &[1])).unwrap();
    depayloader.handle_packet(&data_packet(1, 6, &[2])).unwrap();
    depayloader.handle_packet(&data_packet(0, 0, &[0])).unwrap();
    assert_eq!(poll(&mut depayloader), Some((0, vec![0])));
    assert_eq!(poll(&mut depayloader), Some((6_000_000, vec![2])));
}

#[test]
fn sequence_numbers_wrap_around() {
    let mut depayloader = depayloader(false);
    depayloader
        .handle_packet(&data_packet(0x7FFF, 1, &[1]))
        .unwrap();
    depayloader.try_skip_samples().unwrap();
    assert_eq!(poll(&mut depayloader), Some((1_000_000, vec![1])));
    depayloader
        .handle_packet(&data_packet(0xFFFF, 2, &[2]))
        .unwrap();
    depayloader.try_skip_samples().unwrap();
    assert_eq!(poll(&mut depayloader), Some((2_000_000, vec![2])));
    depayloader.handle_packet(&data_packet(0, 3, &[3])).unwrap();
    assert_eq!(poll(&mut depayloader), Some((3_000_000, vec![3])));
}

#[test]
fn a_poll_drops_what_lies_behind_or_too_far_ahead() {
    let mut depayloader = depayloader(false);
    // four behind the turn is where the window starts, and half of all numbers fit
    depayloader
        .handle_packet(&data_packet(0x7FFB, 1, &[1]))
        .unwrap();
    depayloader
        .handle_packet(&data_packet(0x7FFC, 2, &[2]))
        .unwrap();
    assert_eq!(poll(&mut depayloader), None);
    depayloader.try_skip_samples().unwrap();
    assert_eq!(poll(&mut depayloader), Some((1_000_000, vec![1])));
    assert_eq!(poll(&mut depayloader), None);
    depayloader.try_skip_samples().unwrap();
    assert_eq!(poll(&mut depayloader), None);
}

#[test]
fn short_and_foreign_datagrams() {
    let mut depayloader = depayloader(true);
    assert!(matches!(
        depayloader.handle_packet(&[0x80, 97, 0, 0, 0, 0, 0, 0, 0, 0, 0]),
        Err(AudioDepayloaderError::BufferTooSmall)
    ));
    // the packet type of no packet, an unknown one, and parity that is cut off
    depayloader
        .handle_packet(&[0x80, 0, 0, 0, 0, 0, 0, 0, 0, 0, 0, 0, 1])
        .unwrap();
    depayloader
        .handle_packet(&[0x80, 33, 0, 0, 0, 0, 0, 0, 0, 0, 0, 0, 1])
        .unwrap();
    depayloader
        .handle_packet(&[0x80, 127, 0, 0, 0, 0, 0, 0, 0, 0, 0, 0, 1])
        .unwrap();
    assert_eq!(poll(&mut depayloader), None);
    // a datagram that ends with its header is an empty packet
    depayloader
        .handle_packet(&[0x80, 97, 0, 0, 0, 0, 0, 0, 0, 0, 0, 0])
        .unwrap();
    assert_eq!(poll(&mut depayloader), Some((0, vec![])));
}

#[test]
fn skipping_goes_to_the_nearest_packet_ahead() {
    let mut depayloader = depayloader(false);
    depayloader.handle_packet(&data_packet(7, 7, &[7])).unwrap();
    depayloader.handle_packet(&data_packet(5, 5, &[5])).unwrap();
    assert_eq!(poll(&mut depayloader), None);
    depayloader.try_skip_samples().unwrap();
    assert_eq!(poll(&mut depayloader), Some((5_000_000, vec![5])));
    assert_eq!(poll(&mut depayloader), None);
    depayloader.try_skip_samples().unwrap();
    assert_eq!(poll(&mut depayloader), Some((7_000_000, vec![7])));
    // there is nothing to skip to
    depayloader.try_skip_samples().unwrap();
    assert_eq!(poll(&mut depayloader), None);
    depayloader.handle_packet(&data_packet(8, 8, &[8])).unwrap();
    assert_eq!(poll(&mut depayloader), Some((8_000_000, vec![8])));
}

#[test]
fn any_four_shards_complete_a_block() {
    let shards = [
        vec![1, 2, 3],
        vec![4, 5, 6],
        vec![7, 8, 9],
        vec![250, 251, 252],
    ];
    let [first, second] = parity(&shards);
    for lost_a in 0..6 {
        for lost_b in lost_a + 1..6 {
            let mut depayloader = depayloader(true);
            for i in 0..6 {
                if i == lost_a || i == lost_b {
                    continue;
                }
                let packet = match i {
                    4 => fec_packet(0, 100, 0, &first),
                    5 => fec_packet(0, 100, 1, &second),
                    i => data_packet(i as u16, 100 + 5 * i as u32, &shards[i]),
                };
                depayloader.handle_packet(&packet).unwrap();
            }
            for (i, shard) in shards.iter().enumerate() {
                assert_eq!(
                    poll(&mut depayloader),
                    Some(((100 + 5 * i as u64) * 1_000_000, shard.clone())),
                    "lost {lost_a} and {lost_b}"
                );
            }
        }
    }
}

#[test]
fn any_four_shards_in_any_order_give_four_frames() {
    let shards = [vec![9, 2], vec![8, 3], vec![7, 4], vec![6, 5]];
    let [first, second] = parity(&shards);
    let packets: Vec<Vec<u8>> = vec![
        data_packet(0, 40, &shards[0]),
        data_packet(1, 47, &shards[1]),
        data_packet(2, 54, &shards[2]),
        data_packet(3, 61, &shards[3]),
        fec_packet(0, 40, 0, &first),
        fec_packet(0, 40, 1, &second),
    ];
    let expected: Vec<(u64, Vec<u8>)> = (0..4)
        .map(|i| ((40 + 7 * i as u64) * 1_000_000, shards[i].clone()))
        .collect();
    for number in 0..6usize.pow(4) {
        let order = [
            number % 6,
            number / 6 % 6,
            number / 36 % 6,
            number / 216,
        ];
        if (0..4).any(|i| order[..i].contains(&order[i])) {
            continue;
        }
        for poll_between in [false, true] {
            let mut depayloader = depayloader(true);
            let mut frames = Vec::new();
            for index in order {
                depayloader.handle_packet(&packets[index]).unwrap();
                if poll_between {
                    frames.extend(poll(&mut depayloader));
                }
            }
            while let Some(frame) = poll(&mut depayloader) {
                frames.push(frame);
            }
            assert_eq!(frames, expected, "{order:?}");
        }
    }
}

/// Gives each choice of four of the six shards of the block at `base` to the
/// depayloader that `reached` brings to it, and asks for frames in between.
fn four_of_six_give_the_block(
    base: u16,
    reached: impl Fn() -> AudioDepayloader<DisabledCryptoBackend>,
) {
    let shards = [vec![11, 1], vec![22, 2], vec![33, 3], vec![44, 4]];
    let [first, second] = parity(&shards);
    let expected: Vec<(u64, Vec<u8>)> = (0..4)
        .map(|i| ((900 + 5 * i as u64) * 1_000_000, shards[i].clone()))
        .collect();
    for lost_a in 0..6 {
        for lost_b in lost_a + 1..6 {
            let mut depayloader = reached();
            let mut frames = Vec::new();
            for i in (0..6).rev() {
                if i == lost_a || i == lost_b {
                    continue;
                }
                let packet = match i {
                    4 => fec_packet(base, 900, 0, &first),
                    5 => fec_packet(base, 900, 1, &second),
                    i => data_packet(base + i as u16, 900 + 5 * i as u32, &shards[i]),
                };
                depayloader.handle_packet(&packet).unwrap();
                frames.extend(poll(&mut depayloader));
            }
            while let Some(frame) = poll(&mut depayloader) {
                frames.push(frame);
            }
            assert_eq!(frames, expected, "lost {lost_a} and {lost_b}");
        }
    }
}

#[test]
fn a_later_block_is_recovered_among_the_packets_of_others() {
    four_of_six_give_the_block(8, || {
        let mut depayloader = depayloader(true);
        for number in 0..8 {
            depayloader
                .handle_packet(&data_packet(number, 5 * number as u32, &[number as u8]))
                .unwrap();
        }
        for index in 0..2 {
            depayloader
                .handle_packet(&fec_packet(4, 20, index, &[77]))
                .unwrap();
            depayloader
                .handle_packet(&fec_packet(12, 60, index, &[88, 99, 100]))
                .unwrap();
        }
        depayloader
            .handle_packet(&data_packet(14, 70, &[1, 2, 3]))
            .unwrap();
        for number in 0..8 {
            assert_eq!(
                poll(&mut depayloader),
                Some((number * 5_000_000, vec![number as u8]))
            );
        }
        depayloader
    });
}

#[test]
fn the_last_block_before_the_wrap_is_recovered() {
    four_of_six_give_the_block(65532, || {
        let mut depayloader = depayloader(true);
        for number in [0x7FFF, 65531] {
            depayloader
                .handle_packet(&data_packet(number, 0, &[5]))
                .unwrap();
            depayloader.try_skip_samples().unwrap();
            assert_eq!(poll(&mut depayloader), Some((0, vec![5])));
        }
        depayloader
    });
}

#[test]
fn a_packet_after_the_block_follows_its_frames() {
    let shards = [vec![1], vec![2], vec![3], vec![4]];
    let [first, _] = parity(&shards);
    let mut depayloader = depayloader(true);
    depayloader
        .handle_packet(&data_packet(4, 20, &[5]))
        .unwrap();
    for i in [0, 1, 3] {
        depayloader
            .handle_packet(&data_packet(i, 5 * i as u32, &shards[i as usize]))
            .unwrap();
    }
    depayloader
        .handle_packet(&fec_packet(0, 0, 0, &first))
        .unwrap();
    for i in 0..5u8 {
        assert_eq!(
            poll(&mut depayloader),
            Some((i as u64 * 5_000_000, vec![i + 1]))
        );
    }
    assert_eq!(poll(&mut depayloader), None);
}

#[test]
fn empty_packets_that_all_arrive_need_no_recovery() {
    let mut depayloader = depayloader(true);
    for i in [3, 1, 0, 2] {
        depayloader
            .handle_packet(&data_packet(i, i as u32, &[]))
            .unwrap();
    }
    for index in 0..2 {
        depayloader
            .handle_packet(&fec_packet(0, 0, index, &[]))
            .unwrap();
    }
    for i in 0..4 {
        assert_eq!(poll(&mut depayloader), Some((i * 1_000_000, vec![])));
    }
    assert_eq!(poll(&mut depayloader), None);
}

#[test]
fn data_that_arrives_after_its_parity_completes_a_block() {
    let shards = [vec![1, 9], vec![2, 8], vec![3, 7], vec![4, 6]];
    let [first, second] = parity(&shards);
    let mut depayloader = depayloader(true);
    depayloader
        .handle_packet(&fec_packet(0, 0, 1, &second))
        .unwrap();
    depayloader
        .handle_packet(&fec_packet(0, 0, 0, &first))
        .unwrap();
    depayloader
        .handle_packet(&data_packet(3, 15, &shards[3]))
        .unwrap();
    assert_eq!(poll(&mut depayloader), None);
    depayloader
        .handle_packet(&data_packet(2, 10, &shards[2]))
        .unwrap();
    assert_eq!(poll(&mut depayloader), Some((0, vec![1, 9])));
    assert_eq!(poll(&mut depayloader), Some((5_000_000, vec![2, 8])));
    assert_eq!(poll(&mut depayloader), Some((10_000_000, vec![3, 7])));
    assert_eq!(poll(&mut depayloader), Some((15_000_000, vec![4, 6])));
}

#[test]
fn the_parity_rows_are_those_of_the_hosts() {
    // with the other data zero, parity is the coefficient of the lost shard
    for (i, coefficient) in [0x77, 0x40, 0x38, 0x0e].into_iter().enumerate() {
        let mut depayloader = depayloader(true);
        for j in 0..4 {
            if j != i {
                depayloader
                    .handle_packet(&data_packet(j as u16, j as u32, &[0]))
                    .unwrap();
            }
        }
        depayloader
            .handle_packet(&fec_packet(0, 0, 0, &[coefficient]))
            .unwrap();
        for j in 0..4 {
            let byte = if j == i { 1 } else { 0 };
            assert_eq!(
                poll(&mut depayloader),
                Some((j as u64 * 1_000_000, vec![byte]))
            );
        }
    }
}

#[test]
fn recovered_timestamps_never_step_back() {
    // the packet that is there is earlier than the block
    let shards = [vec![1], vec![2], vec![3], vec![4]];
    let [first, second] = parity(&shards);
    let mut depayloader = depayloader(true);
    depayloader.handle_packet(&data_packet(1, 1, &[2])).unwrap();
    depayloader.handle_packet(&data_packet(2, 2, &[3])).unwrap();
    depayloader
        .handle_packet(&fec_packet(0, 50, 0, &first))
        .unwrap();
    depayloader
        .handle_packet(&fec_packet(0, 50, 1, &second))
        .unwrap();
    assert_eq!(poll(&mut depayloader), Some((50_000_000, vec![1])));
    assert_eq!(poll(&mut depayloader), Some((1_000_000, vec![2])));
    assert_eq!(poll(&mut depayloader), Some((2_000_000, vec![3])));
    assert_eq!(poll(&mut depayloader), Some((50_000_000, vec![4])));
}

#[test]
fn shards_of_different_lengths_are_refused() {
    let mut depayloader = depayloader(true);
    for i in 0..3 {
        depayloader
            .handle_packet(&data_packet(i, i as u32, &[1, 2]))
            .unwrap();
    }
    assert!(matches!(
        depayloader.handle_packet(&fec_packet(0, 0, 0, &[1, 2, 3])),
        Err(AudioDepayloaderError::ReedSolomon(
            FecError::IncorrectShardSize
        ))
    ));
    // what was received is still there
    assert_eq!(poll(&mut depayloader), Some((0, vec![1, 2])));
}

#[test]
fn empty_shards_are_refused() {
    let mut depayloader = depayloader(true);
    for i in 0..3 {
        depayloader
            .handle_packet(&data_packet(i, i as u32, &[]))
            .unwrap();
    }
    assert!(matches!(
        depayloader.handle_packet(&fec_packet(0, 0, 0, &[])),
        Err(AudioDepayloaderError::ReedSolomon(FecError::EmptyShard))
    ));
}

#[test]
fn blocks_off_the_boundary_turn_error_correction_off() {
    let shards = [vec![1], vec![2], vec![3], vec![4]];
    let [first, _] = parity(&shards);
    let mut depayloader = depayloader(true);
    depayloader
        .handle_packet(&fec_packet(2, 0, 0, &first))
        .unwrap();
    for i in 0..3 {
        depayloader
            .handle_packet(&data_packet(i, i as u32, &shards[i as usize]))
            .unwrap();
    }
    depayloader
        .handle_packet(&fec_packet(0, 0, 0, &first))
        .unwrap();
    for i in 0..3 {
        assert_eq!(
            poll(&mut depayloader),
            Some((i * 1_000_000, shards[i as usize].clone()))
        );
    }
    assert_eq!(poll(&mut depayloader), None);
}

#[test]
fn parity_is_ignored_when_error_correction_is_off() {
    let shards = [vec![1], vec![2], vec![3], vec![4]];
    let [first, second] = parity(&shards);
    let mut depayloader = depayloader(false);
    depayloader
        .handle_packet(&fec_packet(0, 0, 0, &first))
        .unwrap();
    depayloader
        .handle_packet(&fec_packet(0, 0, 1, &second))
        .unwrap();
    depayloader.handle_packet(&data_packet(0, 0, &[1])).unwrap();
    depayloader.handle_packet(&data_packet(1, 5, &[2])).unwrap();
    assert_eq!(poll(&mut depayloader), Some((0, vec![1])));
    assert_eq!(poll(&mut depayloader), Some((5_000_000, vec![2])));
    assert_eq!(poll(&mut depayloader), None);
}

#[test]
fn parity_of_a_block_that_has_passed_is_dropped() {
    let shards = [vec![1], vec![2], vec![3], vec![4]];
    let [first, _] = parity(&shards);
    let mut depayloader = depayloader(true);
    for i in 0..8 {
        depayloader
            .handle_packet(&data_packet(i, i as u32, &[i as u8]))
            .unwrap();
        assert!(poll(&mut depayloader).is_some());
    }
    depayloader
        .handle_packet(&fec_packet(0, 0, 0, &first))
        .unwrap();
    assert_eq!(poll(&mut depayloader), None);
}

#[test]
fn a_lost_packet_can_be_recovered_after_others_of_its_block_were_given_out() {
    let shards = [vec![1], vec![2], vec![3], vec![4]];
    let [first, _] = parity(&shards);
    let mut depayloader = depayloader(true);
    for i in [0u16, 1, 2] {
        depayloader
            .handle_packet(&data_packet(i, 5 * i as u32, &shards[i as usize]))
            .unwrap();
        assert!(poll(&mut depayloader).is_some());
    }
    depayloader
        .handle_packet(&fec_packet(0, 0, 0, &first))
        .unwrap();
    assert_eq!(poll(&mut depayloader), Some((15_000_000, vec![4])));
}

fn encrypted() -> AudioDepayloader<FlipBackend> {
    AudioDepayloader::new(
        AudioDepayloaderConfig {
            fec: false,
            encryption: Some(SunshineEncryption {
                aes_key: AesKey([0x42; 16]),
                aes_iv: AesIv(123),
            }),
        },
        FlipBackend,
    )
}

#[test]
fn payloads_are_decrypted_with_the_vector_of_their_packet() {
    let mut depayloader = encrypted();
    depayloader
        .handle_packet(&data_packet(0, 0, &encrypt(0x42, 123, &[1, 2, 3])))
        .unwrap();
    depayloader
        .handle_packet(&data_packet(1, 5, &encrypt(0x42, 124, &[4, 5, 6])))
        .unwrap();
    let frame = depayloader.poll_frame().unwrap().unwrap();
    assert_eq!(frame.buffer, vec![1, 2, 3]);
    let frame = depayloader.poll_frame().unwrap().unwrap();
    assert_eq!((frame.timestamp, frame.buffer), (5_000_000, vec![4, 5, 6]));
}

#[test]
fn a_packet_that_cannot_be_decrypted_does_not_hold_up_the_next() {
    let mut depayloader = encrypted();
    let mut bad = data_packet(0, 0, &encrypt(0x42, 123, &[1, 2, 3]));
    bad.pop();
    depayloader.handle_packet(&bad).unwrap();
    depayloader
        .handle_packet(&data_packet(1, 5, &encrypt(0x42, 124, &[4, 5, 6])))
        .unwrap();
    assert!(matches!(
        depayloader.poll_frame(),
        Err(AudioDepayloaderError::Crypto(
            CryptoError::InvalidCiphertext
        ))
    ));
    let frame = depayloader.poll_frame().unwrap().unwrap();
    assert_eq!(frame.buffer, vec![4, 5, 6]);
    assert!(depayloader.poll_frame().unwrap().is_none());
}

#[test]
fn a_backend_without_cryptography_reports_so() {
    let mut depayloader = AudioDepayloader::new(
        AudioDepayloaderConfig {
            fec: false,
            encryption: Some(SunshineEncryption {
                aes_key: AesKey([0; 16]),
                aes_iv: AesIv(0),
            }),
        },
        DisabledCryptoBackend,
    );
    depayloader.handle_packet(&data_packet(0, 0, &[1])).unwrap();
    assert!(matches!(
        depayloader.poll_frame(),
        Err(AudioDepayloaderError::Crypto(CryptoError::Disabled))
    ));
}

#[test]
fn vectors_and_buffer_lengths() {
    let iv = iv_of_packet(AesIv(0x0102_0304), 0x0506);
    assert_eq!(iv, [1, 2, 8, 10, 0, 0, 0, 0, 0, 0, 0, 0, 0, 0, 0, 0]);
    let iv = iv_of_packet(AesIv(u32::MAX), 1);
    assert_eq!(iv, [0; 16]);
    assert_eq!(round_to_pkcs7_safe_len(0), 0);
    assert_eq!(round_to_pkcs7_safe_len(1), 16);
    assert_eq!(round_to_pkcs7_safe_len(16), 16);
    assert_eq!(round_to_pkcs7_safe_len(17), 32);
}

#[test]
fn what_a_backend_wrote_replaces_the_payload() {
    let frame = AudioFrame {
        timestamp: 7,
        buffer: vec![1, 2, 3],
    };
    let (frame, old) = decrypted_frame(frame, Ok(2), vec![9, 8, 7]).unwrap();
    assert_eq!((frame.timestamp, frame.buffer), (7, vec![9, 8]));
    assert_eq!(old, vec![1, 2, 3]);
    let frame = AudioFrame {
        timestamp: 7,
        buffer: vec![1, 2, 3],
    };
    assert!(matches!(
        decrypted_frame(frame, Err(CryptoError::BufferTooSmall), vec![]),
        Err(AudioDepayloaderError::Crypto(CryptoError::BufferTooSmall))
    ));
}

#[test]
fn timestamps_count_milliseconds() {
    let packet = DataPacket {
        timestamp: u32::MAX,
        payload: vec![1],
    };
    assert_eq!(packet.to_frame().timestamp, 4_294_967_295_000_000);
}
