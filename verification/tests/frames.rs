use mpc_prover::keys::{
    has_proving_key_frame, has_verifying_key_frame, read_alpha_g1, read_beta_g2,
    read_first_a_query, read_first_b_g2_query,
};

fn vector(count: u64, item: usize) -> Vec<u8> {
    let mut bytes = count.to_le_bytes().to_vec();
    bytes.extend(std::iter::repeat(7u8).take(count as usize * item));
    bytes
}

fn verifying_key(points: u64) -> Vec<u8> {
    let mut bytes = vec![1u8; 32 + 3 * 64];
    bytes.extend(vector(points, 32));
    bytes
}

fn proving_key(sizes: [u64; 5]) -> Vec<u8> {
    let mut bytes = verifying_key(2);
    bytes.extend([2u8; 64]);
    bytes.extend(vector(sizes[0], 32));
    bytes.extend(vector(sizes[1], 32));
    bytes.extend(vector(sizes[2], 64));
    bytes.extend(vector(sizes[3], 32));
    bytes.extend(vector(sizes[4], 32));
    bytes
}

#[test]
fn verifying_key_frame_is_points_and_one_vector() {
    assert!(has_verifying_key_frame(&verifying_key(0)));
    assert!(has_verifying_key_frame(&verifying_key(3)));
    let mut longer = verifying_key(3);
    longer.push(0);
    assert!(has_verifying_key_frame(&longer));
}

#[test]
fn verifying_key_that_ends_early_has_no_frame() {
    assert!(!has_verifying_key_frame(&vec![]));
    assert!(!has_verifying_key_frame(&vec![0u8; 231]));
    let key = verifying_key(3);
    assert!(!has_verifying_key_frame(&key[..key.len() - 1].to_vec()));
}

#[test]
fn length_that_does_not_fit_has_no_frame() {
    for count in [4u64, 1 << 32, 1 << 61, u64::MAX] {
        let mut key = verifying_key(3);
        key[224..232].copy_from_slice(&count.to_le_bytes());
        assert!(!has_verifying_key_frame(&key), "{}", count);
    }
}

#[test]
fn length_is_read_least_significant_byte_first() {
    let mut key = vec![1u8; 224];
    key.extend([0, 1, 0, 0, 0, 0, 0, 0]);
    key.extend(vec![0u8; 256 * 32]);
    assert!(has_verifying_key_frame(&key));
    assert!(!has_verifying_key_frame(&key[..key.len() - 1].to_vec()));
}

#[test]
fn proving_key_frame_is_a_verifying_key_two_points_and_five_vectors() {
    assert!(has_proving_key_frame(&proving_key([0, 0, 0, 0, 0])));
    assert!(has_proving_key_frame(&proving_key([4, 4, 4, 3, 2])));
}

#[test]
fn proving_key_with_a_vector_cut_short_has_no_frame() {
    let key = proving_key([4, 4, 4, 3, 2]);
    assert!(!has_proving_key_frame(&key[..key.len() - 1].to_vec()));
    assert!(!has_proving_key_frame(&verifying_key(2)));
    // the third vector holds points of the second group
    let mut narrow = verifying_key(2);
    narrow.extend([2u8; 64]);
    narrow.extend(vector(1, 32));
    narrow.extend(vector(1, 32));
    narrow.extend(vector(1, 32));
    narrow.extend(vector(0, 32));
    narrow.extend(vector(0, 32));
    assert!(!has_proving_key_frame(&narrow));
}

#[test]
fn proving_key_with_an_absurd_length_has_no_frame() {
    let key = proving_key([4, 4, 4, 3, 2]);
    let at = 224 + 8 + 2 * 32 + 64;
    for count in [1u64 << 61, u64::MAX, 1000] {
        let mut changed = key.clone();
        changed[at..at + 8].copy_from_slice(&count.to_le_bytes());
        assert!(!has_proving_key_frame(&changed), "{}", count);
    }
}

#[test]
fn offsets_are_cut_out_of_the_keys() {
    let key = proving_key([2, 1, 2, 0, 0]);
    let a_at = 224 + 8 + 2 * 32 + 64 + 8;
    let b2_at = a_at + 2 * 32 + 8 + 32 + 8;
    let mut marked = key.clone();
    for k in 0..32 {
        marked[a_at + k] = 100 + k as u8;
    }
    for k in 0..64 {
        marked[b2_at + k] = 150 + k as u8;
    }
    assert_eq!(read_first_a_query(&marked).unwrap(), (100u8..132).collect::<Vec<u8>>());
    assert_eq!(read_first_b_g2_query(&marked).unwrap(), (150u8..214).collect::<Vec<u8>>());
    let mut vk: Vec<u8> = (0u8..224).collect();
    vk.extend(0u64.to_le_bytes());
    assert_eq!(read_alpha_g1(&vk).unwrap(), (0u8..32).collect::<Vec<u8>>());
    assert_eq!(read_beta_g2(&vk).unwrap(), (32u8..96).collect::<Vec<u8>>());
}

#[test]
fn empty_query_has_no_first_element() {
    assert!(read_first_a_query(&proving_key([0, 1, 1, 0, 0])).is_none());
    assert!(read_first_b_g2_query(&proving_key([1, 1, 0, 0, 0])).is_none());
    assert!(read_first_a_query(&vec![1, 2, 3]).is_none());
    assert!(read_alpha_g1(&vec![0u8; 100]).is_none());
    assert!(read_beta_g2(&vec![0u8; 231]).is_none());
}
