use foundry_local_sdk::pcm::{pcm_chunks, pcm_from_samples};

#[test]
fn samples_are_packed_with_the_low_byte_first() {
    assert_eq!(
        pcm_from_samples(&[0, 1, -1, 0x1234, i16::MIN, i16::MAX]),
        vec![0, 0, 1, 0, 0xFF, 0xFF, 0x34, 0x12, 0x00, 0x80, 0xFF, 0x7F]
    );
    for sample in [-32768i16, -257, -256, -2, 255, 256, 16383] {
        assert_eq!(pcm_from_samples(&[sample]), sample.to_le_bytes().to_vec());
    }
}

#[test]
fn audio_is_cut_into_chunks() {
    let data: Vec<u8> = (0..7).collect();
    assert_eq!(pcm_chunks(&data, 3), vec![vec![0, 1, 2], vec![3, 4, 5], vec![6]]);
    assert_eq!(pcm_chunks(&data, 7), vec![data.clone()]);
    assert_eq!(pcm_chunks(&data, 100), vec![data.clone()]);
    assert_eq!(pcm_chunks(&[], 3), Vec::<Vec<u8>>::new());
    assert_eq!(pcm_chunks(&data[..6], 3).len(), 2);
    assert_eq!(pcm_chunks(&data, 2).concat(), data);
}
