use phoenix_forge::imaging::{
    hash_device_readonly, hash_device_readonly_with_progress, make_chunk_plan,
    write_image_to_device, HashProgress, ProgressObserver,
};
use sha2::{Digest, Sha256};

fn hex(bytes: &[u8]) -> String {
    let mut out = String::new();
    for b in bytes {
        out.push_str(&format!("{:02x}", b));
    }
    out
}

#[test]
fn chunk_plan_example() {
    let plan = make_chunk_plan(10, 3);
    let got: Vec<(u64, u64, u64)> = plan
        .chunks
        .iter()
        .map(|c| (c.index, c.offset, c.size))
        .collect();
    assert_eq!(got, vec![(0, 0, 3), (1, 3, 3), (2, 6, 3), (3, 9, 1)]);
}

#[test]
fn chunk_plan_covers_total() {
    for (total, chunk) in [(0u64, 4u64), (1, 4), (4, 4), (5, 4), (1024, 100), (7, 1)] {
        let plan = make_chunk_plan(total, chunk);
        let sum: u64 = plan.chunks.iter().map(|c| c.size).sum();
        assert_eq!(sum, total, "total {} chunk {}", total, chunk);
        let expected_len = ((total + chunk - 1) / chunk) as usize;
        assert_eq!(plan.chunks.len(), expected_len);
        let mut offset = 0u64;
        for (i, c) in plan.chunks.iter().enumerate() {
            assert_eq!(c.index, i as u64);
            assert_eq!(c.offset, offset);
            offset += c.size;
        }
    }
}

#[test]
fn chunk_plan_zero_chunk_size_is_empty() {
    let plan = make_chunk_plan(100, 0);
    assert!(plan.chunks.is_empty());
}

#[test]
fn chunk_hashes_match_reference_sha256() {
    let data: Vec<u8> = (0..100u32).map(|i| (i % 251) as u8).collect();
    let hashes = hash_device_readonly(&data, 100, 32, None).unwrap();
    assert_eq!(hashes.len(), 4);
    for (i, (index, hash)) in hashes.iter().enumerate() {
        assert_eq!(*index, i as u64);
        let start = i * 32;
        let end = (start + 32).min(100);
        let expected = hex(&Sha256::digest(&data[start..end]));
        assert_eq!(*hash, expected, "chunk {}", i);
    }
}

#[test]
fn chunk_hash_respects_max_chunks() {
    let data = vec![7u8; 64];
    let hashes = hash_device_readonly(&data, 64, 16, Some(2)).unwrap();
    assert_eq!(hashes.len(), 2);
}

#[test]
fn zero_chunk_size_is_rejected() {
    let data = vec![1u8; 8];
    let err = hash_device_readonly(&data, 8, 0, None).unwrap_err();
    assert_eq!(err.message(), "chunk_size must be greater than zero");
}

struct CancelAfter {
    left: u32,
}

impl ProgressObserver for CancelAfter {
    fn on_progress(&mut self, _progress: HashProgress) -> bool {
        if self.left == 0 {
            return false;
        }
        self.left -= 1;
        true
    }
}

#[test]
fn observer_can_cancel_hashing() {
    let data = vec![0u8; 64];
    let mut observer = CancelAfter { left: 1 };
    let r = hash_device_readonly_with_progress(&data, 64, 16, None, &mut observer);
    assert!(r.is_err());
}

#[test]
fn write_image_roundtrip_verifies() {
    let image: Vec<u8> = (0..200u32).map(|i| (i * 7 % 256) as u8).collect();
    let mut device: Vec<u8> = vec![0xFF; 50];
    let result = write_image_to_device(&image, &mut device, 64, true).unwrap();
    assert_eq!(result.bytes_written, 200);
    assert_eq!(result.total_bytes, 200);
    assert_eq!(device, image);
    assert_eq!(result.sha256, hex(&Sha256::digest(&image)));
    assert_eq!(result.verify_ok, Some(true));
}

#[test]
fn write_image_keeps_device_tail() {
    let image = vec![1u8, 2, 3];
    let mut device = vec![9u8; 6];
    let result = write_image_to_device(&image, &mut device, 2, false).unwrap();
    assert_eq!(device, vec![1, 2, 3, 9, 9, 9]);
    assert_eq!(result.verify_ok, None);
}
