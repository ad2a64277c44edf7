//! Chunking, reassembly and the limits on inbound transfers.

use offline_protocol::file_transfer::chunk::MAX_STRING_FIELD_LEN;
use offline_protocol::file_transfer::manager::MANUAL_SENDER;
use offline_protocol::file_transfer::{
    ChunkDecodeError, ChunkRejection, FileChunk, FileProgress, FileTransferConfig,
    FileTransferManager, StaleTransfer,
};
use sha2::{Digest, Sha256};
use std::time::Duration;

fn sample_chunk() -> FileChunk {
    FileChunk {
        file_id: "file1".to_string(),
        file_name: "test.txt".to_string(),
        file_size: 13,
        total_chunks: 1,
        chunk_index: 0,
        chunk_data: b"Hello, World!".to_vec(),
        file_checksum: "abc123".to_string(),
    }
}

#[test]
fn test_from_bytes_truncated_payload_is_unexpected_eof() {
    let bytes = sample_chunk().to_bytes();
    // Truncate mid-header: the first u32 (file_id_len) can't be read.
    let err = FileChunk::from_bytes(&bytes[..2]).unwrap_err();
    assert!(matches!(
        err,
        ChunkDecodeError::UnexpectedEof { what: "u32" }
    ));
    // Truncate mid-header: both string fields parse but the file_size
    // u64 read hits EOF.
    let after_strings = 4 + "file1".len() + 4 + "test.txt".len();
    let err = FileChunk::from_bytes(&bytes[..after_strings + 4]).unwrap_err();
    assert!(matches!(
        err,
        ChunkDecodeError::UnexpectedEof { what: "u64" }
    ));
    // Truncate mid-body: length prefixes parse but the data falls short.
    let err = FileChunk::from_bytes(&bytes[..bytes.len() - 1]).unwrap_err();
    assert!(matches!(
        err,
        ChunkDecodeError::UnexpectedEof { what: "bytes" }
    ));
}

#[test]
fn test_from_bytes_oversized_length_prefix_is_field_too_long() {
    let mut bytes = sample_chunk().to_bytes();
    // Claim a file_id longer than the wire-format cap.
    let huge = (MAX_STRING_FIELD_LEN as u32 + 1).to_le_bytes();
    bytes[..4].copy_from_slice(&huge);
    let err = FileChunk::from_bytes(&bytes).unwrap_err();
    assert!(matches!(
        err,
        ChunkDecodeError::FieldTooLong {
            field: "file_id_len",
            ..
        }
    ));
}

#[test]
fn test_from_bytes_invalid_utf8_names_the_field() {
    let mut bytes = sample_chunk().to_bytes();
    // file_id content starts right after its 4-byte length prefix.
    bytes[4] = 0xFF;
    let err = FileChunk::from_bytes(&bytes).unwrap_err();
    assert!(matches!(
        err,
        ChunkDecodeError::InvalidUtf8 {
            field: "file_id",
            ..
        }
    ));
}

#[test]
fn test_chunk_small_file() {
    let manager = FileTransferManager::new();
    let file_data = b"Hello, World!".to_vec();

    let chunks = manager
        .chunk_file(
            "file1".to_string(),
            "test.txt".to_string(),
            file_data.clone(),
            None,
        )
        .unwrap();

    assert_eq!(chunks.len(), 1); // Small file = 1 chunk
    assert_eq!(chunks[0].chunk_index, 0);
    assert_eq!(chunks[0].total_chunks, 1);
    assert_eq!(chunks[0].file_size, file_data.len() as u64);
    assert_eq!(chunks[0].chunk_data, file_data);
}

#[test]
fn test_chunk_large_file() {
    let config = FileTransferConfig {
        chunk_size: 100, // Small chunk for testing
        max_file_size: 1024 * 1024,
        ..FileTransferConfig::default()
    };
    let manager = FileTransferManager::with_config(config);

    let file_data = vec![0u8; 350]; // 350 bytes

    let chunks = manager
        .chunk_file("file1".to_string(), "test.bin".to_string(), file_data, None)
        .unwrap();

    assert_eq!(chunks.len(), 4); // 350 bytes / 100 = 4 chunks
    assert_eq!(chunks[0].chunk_data.len(), 100);
    assert_eq!(chunks[1].chunk_data.len(), 100);
    assert_eq!(chunks[2].chunk_data.len(), 100);
    assert_eq!(chunks[3].chunk_data.len(), 50);
}

#[test]
fn test_file_too_large() {
    let config = FileTransferConfig {
        chunk_size: 1024,
        max_file_size: 1000,
        ..FileTransferConfig::default()
    };
    let manager = FileTransferManager::with_config(config);

    let file_data = vec![0u8; 2000]; // Exceeds max

    let result = manager.chunk_file(
        "file1".to_string(),
        "large.bin".to_string(),
        file_data,
        None,
    );
    assert!(result.is_err());
}

#[test]
fn test_empty_file() {
    let manager = FileTransferManager::new();
    let result = manager.chunk_file("file1".to_string(), "empty.txt".to_string(), vec![], None);
    assert!(result.is_err());
}

#[test]
fn test_zero_chunk_size_override_rejected() {
    let manager = FileTransferManager::new();
    let result = manager.chunk_file(
        "file1".to_string(),
        "test.txt".to_string(),
        b"hello".to_vec(),
        Some(0),
    );
    assert!(result.is_err());
}

#[test]
fn test_reassemble_file() {
    let config = FileTransferConfig {
        chunk_size: 10,
        max_file_size: 1024,
        ..FileTransferConfig::default()
    };
    let mut manager = FileTransferManager::with_config(config);

    let original_data = b"Hello, World!".to_vec();
    let chunks = manager
        .chunk_file(
            "file1".to_string(),
            "test.txt".to_string(),
            original_data.clone(),
            None,
        )
        .unwrap();

    // Process all chunks
    for chunk in chunks {
        manager.process_chunk("peer", chunk).unwrap();
    }

    assert!(manager.is_complete("file1"));

    let reassembled = manager.finalize_file("file1").unwrap();
    assert_eq!(reassembled, original_data);
}

#[test]
fn test_reassemble_out_of_order() {
    let config = FileTransferConfig {
        chunk_size: 10,
        max_file_size: 1024,
        ..FileTransferConfig::default()
    };
    let mut manager = FileTransferManager::with_config(config);

    let original_data = b"ABCDEFGHIJKLMNOPQRSTUVWXYZ".to_vec();
    let mut chunks = manager
        .chunk_file(
            "file1".to_string(),
            "alphabet.txt".to_string(),
            original_data.clone(),
            None,
        )
        .unwrap();

    // Reverse order
    chunks.reverse();

    // Process all chunks
    for chunk in chunks {
        manager.process_chunk("peer", chunk).unwrap();
    }

    assert!(manager.is_complete("file1"));

    let reassembled = manager.finalize_file("file1").unwrap();
    assert_eq!(reassembled, original_data);
}

#[test]
fn test_progress_tracking() {
    let config = FileTransferConfig {
        chunk_size: 100,
        max_file_size: 1024,
        ..FileTransferConfig::default()
    };
    let mut manager = FileTransferManager::with_config(config);

    let file_data = vec![0u8; 250]; // 3 chunks
    let chunks = manager
        .chunk_file("file1".to_string(), "test.bin".to_string(), file_data, None)
        .unwrap();

    assert_eq!(chunks.len(), 3);

    // Process first chunk
    let progress = manager.process_chunk("peer", chunks[0].clone()).unwrap();
    assert_eq!(progress.chunks_completed, 1);
    assert_eq!(progress.total_chunks, 3);
    assert_eq!(progress.percentage, 33); // 1/3 ≈ 33%

    // Process second chunk
    let progress = manager.process_chunk("peer", chunks[1].clone()).unwrap();
    assert_eq!(progress.chunks_completed, 2);
    assert_eq!(progress.percentage, 66); // 2/3 ≈ 66%

    // Process third chunk
    let progress = manager.process_chunk("peer", chunks[2].clone()).unwrap();
    assert_eq!(progress.chunks_completed, 3);
    assert_eq!(progress.percentage, 100); // 3/3 = 100%

    assert!(manager.is_complete("file1"));
}

#[test]
fn test_duplicate_chunk() {
    let mut manager = FileTransferManager::new();

    let file_data = b"Test data".to_vec();
    let chunks = manager
        .chunk_file("file1".to_string(), "test.txt".to_string(), file_data, None)
        .unwrap();

    // Process same chunk twice
    manager.process_chunk("peer", chunks[0].clone()).unwrap();
    manager.process_chunk("peer", chunks[0].clone()).unwrap();

    // Should still show only 1 chunk
    let progress = manager.get_progress("file1").unwrap();
    assert_eq!(progress.chunks_completed, 1);
}

#[test]
fn test_multiple_files() {
    let config = FileTransferConfig {
        chunk_size: 10,
        max_file_size: 1024,
        ..FileTransferConfig::default()
    };
    let mut manager = FileTransferManager::with_config(config);

    let data1 = b"File 1 data".to_vec();
    let data2 = b"File 2 data".to_vec();

    let chunks1 = manager
        .chunk_file(
            "file1".to_string(),
            "file1.txt".to_string(),
            data1.clone(),
            None,
        )
        .unwrap();
    let chunks2 = manager
        .chunk_file(
            "file2".to_string(),
            "file2.txt".to_string(),
            data2.clone(),
            None,
        )
        .unwrap();

    // Process both files
    for chunk in chunks1 {
        manager.process_chunk("peer", chunk).unwrap();
    }
    for chunk in chunks2 {
        manager.process_chunk("peer", chunk).unwrap();
    }

    assert_eq!(manager.active_transfer_count(), 2);
    assert!(manager.is_complete("file1"));
    assert!(manager.is_complete("file2"));
}

#[test]
fn test_cancel_transfer() {
    let mut manager = FileTransferManager::new();

    let file_data = b"Test data".to_vec();
    let chunks = manager
        .chunk_file("file1".to_string(), "test.txt".to_string(), file_data, None)
        .unwrap();

    manager.process_chunk("peer", chunks[0].clone()).unwrap();
    assert_eq!(manager.active_transfer_count(), 1);

    assert!(manager.cancel_transfer("file1"));
    assert_eq!(manager.active_transfer_count(), 0);
    assert!(!manager.is_complete("file1"));
}

#[test]
fn test_get_progress() {
    let mut manager = FileTransferManager::new();

    let file_data = b"Test data".to_vec();
    let chunks = manager
        .chunk_file("file1".to_string(), "test.txt".to_string(), file_data, None)
        .unwrap();

    manager.process_chunk("peer", chunks[0].clone()).unwrap();

    let progress = manager.get_progress("file1").unwrap();
    assert_eq!(progress.file_id, "file1");
    assert_eq!(progress.file_name, "test.txt");
    assert!(progress.percentage > 0);
}

#[test]
fn test_progress_nonexistent_file() {
    let manager = FileTransferManager::new();
    assert!(manager.get_progress("nonexistent").is_none());
}

#[test]
fn test_calculate_percentage() {
    assert_eq!(FileProgress::calculate_percentage(0, 10), 0);
    assert_eq!(FileProgress::calculate_percentage(5, 10), 50);
    assert_eq!(FileProgress::calculate_percentage(10, 10), 100);
    assert_eq!(FileProgress::calculate_percentage(1, 3), 33);
}

#[test]
fn test_invalid_chunk_index_rejected() {
    let mut manager = FileTransferManager::new();
    let chunks = manager
        .chunk_file(
            "file1".to_string(),
            "test.txt".to_string(),
            b"hello world".to_vec(),
            None,
        )
        .unwrap();

    let mut invalid_chunk = chunks[0].clone();
    invalid_chunk.chunk_index = invalid_chunk.total_chunks;

    assert!(manager.process_chunk("peer", invalid_chunk).is_err());
    assert!(manager.get_progress("file1").is_none());
}

fn attack_chunk(
    file_id: &str,
    file_size: u64,
    total_chunks: u32,
    chunk_index: u32,
    data: Vec<u8>,
) -> FileChunk {
    FileChunk {
        file_id: file_id.to_string(),
        file_name: "attack.bin".to_string(),
        file_size,
        total_chunks,
        chunk_index,
        chunk_data: data,
        file_checksum: "0000".to_string(),
    }
}

#[test]
fn test_huge_file_size_claim_rejected() {
    // A single chunk claiming u64::MAX bytes must never
    // reach an allocation of that size.
    let mut manager = FileTransferManager::new();
    let chunk = attack_chunk("evil", u64::MAX, 1, 0, vec![0u8; 16]);
    assert!(manager.process_chunk("peer", chunk).is_err());
    assert_eq!(manager.active_transfer_count(), 0);
    assert!(!manager.is_complete("evil"));
    assert!(manager.finalize_file("evil").is_none());
}

#[test]
fn test_file_size_over_configured_max_rejected() {
    let config = FileTransferConfig {
        chunk_size: 1024,
        max_file_size: 1000,
        ..FileTransferConfig::default()
    };
    let mut manager = FileTransferManager::with_config(config);
    let chunk = attack_chunk("f", 2000, 2, 0, vec![0u8; 100]);
    assert!(manager.process_chunk("peer", chunk).is_err());
    assert_eq!(manager.active_transfer_count(), 0);
}

#[test]
fn test_zero_file_size_rejected() {
    let mut manager = FileTransferManager::new();
    let chunk = attack_chunk("f", 0, 1, 0, vec![0u8; 8]);
    assert!(manager.process_chunk("peer", chunk).is_err());
}

#[test]
fn test_total_chunks_exceeding_file_size_rejected() {
    // More chunks than bytes is inherently bogus (chunks are non-empty).
    let mut manager = FileTransferManager::new();
    let chunk = attack_chunk("f", 10_000, 20_000, 0, vec![0u8; 8]);
    assert!(manager.process_chunk("peer", chunk).is_err());
}

#[test]
fn test_total_chunks_exceeding_derived_cap_rejected() {
    // Default config: 100 MB / 1 KiB payload floor ≈ 102_400 max chunks.
    let mut manager = FileTransferManager::new();
    let chunk = attack_chunk("f", 100 * 1024 * 1024, 200_000, 0, vec![0u8; 8]);
    assert!(manager.process_chunk("peer", chunk).is_err());
}

#[test]
fn test_empty_chunk_data_rejected() {
    let mut manager = FileTransferManager::new();
    let chunk = attack_chunk("f", 100, 2, 0, vec![]);
    assert!(manager.process_chunk("peer", chunk).is_err());
}

#[test]
fn test_chunk_data_larger_than_file_size_rejected() {
    let mut manager = FileTransferManager::new();
    let chunk = attack_chunk("f", 10, 1, 0, vec![0u8; 64]);
    assert!(manager.process_chunk("peer", chunk).is_err());
}

#[test]
fn test_cumulative_bytes_exceeding_claim_rejected() {
    let mut manager = FileTransferManager::new();
    // Claim 2048 bytes in 2 chunks, then send two 1500-byte chunks.
    let first = attack_chunk("f", 2048, 2, 0, vec![0u8; 1500]);
    assert!(manager.process_chunk("peer", first).is_ok());
    let second = attack_chunk("f", 2048, 2, 1, vec![0u8; 1500]);
    assert!(manager.process_chunk("peer", second).is_err());
    // The first chunk's state survives; only the offending chunk drops.
    let progress = manager.get_progress("f").unwrap();
    assert_eq!(progress.chunks_completed, 1);
}

#[test]
fn test_duplicate_chunk_does_not_double_count_bytes() {
    let mut manager = FileTransferManager::new();
    // 1500 + 548 = 2048 claimed bytes; resending chunk 0 must replace
    // (not add), so the transfer still completes.
    let data0 = vec![7u8; 1500];
    let data1 = vec![9u8; 548];
    let mut whole = data0.clone();
    whole.extend_from_slice(&data1);
    let checksum = format!("{:x}", Sha256::digest(&whole));

    let make = |index: u32, data: Vec<u8>| FileChunk {
        file_id: "f".to_string(),
        file_name: "file.bin".to_string(),
        file_size: 2048,
        total_chunks: 2,
        chunk_index: index,
        chunk_data: data,
        file_checksum: checksum.clone(),
    };

    assert!(manager
        .process_chunk("peer", make(0, data0.clone()))
        .is_ok());
    assert!(manager.process_chunk("peer", make(0, data0)).is_ok());
    assert!(manager.process_chunk("peer", make(1, data1)).is_ok());
    assert!(manager.is_complete("f"));
    assert_eq!(manager.finalize_file("f").unwrap(), whole);
}

#[test]
fn test_concurrent_assembly_cap_enforced() {
    let config = FileTransferConfig {
        max_concurrent_assemblies: 2,
        ..FileTransferConfig::default()
    };
    let mut manager = FileTransferManager::with_config(config);

    assert!(manager
        .process_chunk("peer", attack_chunk("f1", 100, 2, 0, vec![0u8; 10]))
        .is_ok());
    assert!(manager
        .process_chunk("peer", attack_chunk("f2", 100, 2, 0, vec![0u8; 10]))
        .is_ok());
    // Third simultaneous transfer is rejected...
    assert_eq!(
        manager
            .process_chunk("peer", attack_chunk("f3", 100, 2, 0, vec![0u8; 10]))
            .unwrap_err(),
        ChunkRejection::TooManyTransfers
    );
    // ...but chunks for existing assemblies still flow.
    assert!(manager
        .process_chunk("peer", attack_chunk("f1", 100, 2, 1, vec![0u8; 10]))
        .is_ok());
    // Freeing a slot re-admits new transfers — but not the failed id:
    // f3's rejected chunk was ACKed and lost, so the transfer could
    // never complete. A retry must use a fresh file id.
    assert!(manager.cancel_transfer("f2"));
    assert_eq!(
        manager
            .process_chunk("peer", attack_chunk("f3", 100, 2, 0, vec![0u8; 10]))
            .unwrap_err(),
        ChunkRejection::PreviouslyFailed
    );
    assert!(manager
        .process_chunk("peer", attack_chunk("f4", 100, 2, 0, vec![0u8; 10]))
        .is_ok());
}

#[test]
fn test_sender_quota_enforced() {
    let config = FileTransferConfig {
        max_concurrent_assemblies: 4,
        max_assemblies_per_sender: 1,
        ..FileTransferConfig::default()
    };
    let mut manager = FileTransferManager::with_config(config);

    assert!(manager
        .process_chunk("alice", attack_chunk("f1", 100, 2, 0, vec![0u8; 10]))
        .is_ok());
    // A second transfer from the same sender exceeds the quota...
    assert_eq!(
        manager
            .process_chunk("alice", attack_chunk("f2", 100, 2, 0, vec![0u8; 10]))
            .unwrap_err(),
        ChunkRejection::SenderQuotaExceeded
    );
    // ...but other senders are unaffected.
    assert!(manager
        .process_chunk("bob", attack_chunk("f3", 100, 2, 0, vec![0u8; 10]))
        .is_ok());
}

#[test]
fn test_sender_mismatch_rejected() {
    let mut manager = FileTransferManager::new();
    assert!(manager
        .process_chunk("alice", attack_chunk("f", 100, 2, 0, vec![0u8; 10]))
        .is_ok());
    // Same file_id and metadata from a different sender must not be able
    // to poison the assembly.
    assert_eq!(
        manager
            .process_chunk("mallory", attack_chunk("f", 100, 2, 1, vec![0u8; 10]))
            .unwrap_err(),
        ChunkRejection::SenderMismatch
    );
    // The original assembly is untouched.
    assert_eq!(manager.get_progress("f").unwrap().chunks_completed, 1);
}

#[test]
fn test_buffer_budget_rejects_new_transfer() {
    // 1_065_536 is exactly the minimum viable budget for a 1 MB
    // max_file_size, so with_config leaves it unclamped.
    let config = FileTransferConfig {
        max_file_size: 1_000_000,
        max_total_buffered_bytes: 1_065_536,
        ..FileTransferConfig::default()
    };
    let mut manager = FileTransferManager::with_config(config);

    assert!(manager
        .process_chunk(
            "alice",
            attack_chunk("f1", 1_000_000, 2, 0, vec![0u8; 600_000])
        )
        .is_ok());
    // 600_064 + 500_064 charged would exceed the budget; the new
    // transfer is rejected before any of its state is created.
    assert_eq!(
        manager
            .process_chunk(
                "bob",
                attack_chunk("f2", 1_000_000, 2, 0, vec![0u8; 500_000])
            )
            .unwrap_err(),
        ChunkRejection::BufferBudgetExhausted
    );
    assert_eq!(manager.active_transfer_count(), 1);
    assert!(manager.get_progress("f2").is_none());
    // The pre-existing transfer is untouched.
    assert_eq!(manager.get_progress("f1").unwrap().chunks_completed, 1);
}

#[test]
fn test_buffer_budget_drops_existing_assembly() {
    let config = FileTransferConfig {
        max_file_size: 1_000_000,
        max_total_buffered_bytes: 1_065_536,
        ..FileTransferConfig::default()
    };
    let mut manager = FileTransferManager::with_config(config);

    assert!(manager
        .process_chunk(
            "alice",
            attack_chunk("f1", 1_000_000, 3, 0, vec![0u8; 600_000])
        )
        .is_ok());
    assert!(manager
        .process_chunk("bob", attack_chunk("f2", 400_000, 2, 0, vec![0u8; 300_000]))
        .is_ok());
    // f1's next chunk busts the budget. The dropped chunk is never
    // retransmitted, so f1 can no longer complete — its partial buffer
    // is freed immediately rather than squatting the budget until the
    // stale sweep.
    assert_eq!(
        manager
            .process_chunk(
                "alice",
                attack_chunk("f1", 1_000_000, 3, 1, vec![0u8; 300_000])
            )
            .unwrap_err(),
        ChunkRejection::BufferBudgetExhausted
    );
    assert!(manager.get_progress("f1").is_none());
    assert_eq!(manager.active_transfer_count(), 1);
    // The freed budget re-admits other traffic.
    assert!(manager
        .process_chunk("bob", attack_chunk("f2", 400_000, 2, 1, vec![0u8; 100_000]))
        .is_ok());
}

#[test]
fn test_budget_charges_per_chunk_overhead() {
    // A flood of 1-byte chunks must be stopped by its bookkeeping
    // charge, not its (negligible) payload sum. Budget 0 is clamped up
    // to the minimum viable value: 10_000 + 1024 * 64 = 75_536.
    let config = FileTransferConfig {
        max_file_size: 10_000,
        max_total_buffered_bytes: 0,
        ..FileTransferConfig::default()
    };
    let mut manager = FileTransferManager::with_config(config);

    // 1024 chunks is the derived cap for this config; f1 fills it.
    for i in 0..1024u32 {
        manager
            .process_chunk("alice", attack_chunk("f1", 10_000, 1024, i, vec![0u8; 1]))
            .unwrap();
    }

    // f2's identical flood must hit the budget long before its payload
    // (a few hundred bytes) comes anywhere near 75_536.
    let mut rejected = None;
    for i in 0..1024u32 {
        if let Err(e) =
            manager.process_chunk("bob", attack_chunk("f2", 10_000, 1024, i, vec![0u8; 1]))
        {
            rejected = Some((i, e));
            break;
        }
    }
    let (index, err) = rejected.expect("tiny-chunk flood must exhaust the budget");
    assert_eq!(err, ChunkRejection::BufferBudgetExhausted);
    let total_payload = 1024 + u64::from(index);
    assert!(
        total_payload < 2_000,
        "rejection must be overhead-driven, but {} payload bytes were buffered",
        total_payload
    );
    // The busting transfer is dropped with its chunk.
    assert!(manager.get_progress("f2").is_none());
}

#[test]
fn manual_sender_holds_a_character_that_no_wire_user_id_has() {
    assert_eq!(MANUAL_SENDER, "manual:ffi");
    assert!(MANUAL_SENDER.contains(':'));
}

#[test]
fn test_resource_rejected_transfer_is_tombstoned() {
    // Once a transfer is refused for a resource reason, its remaining
    // in-flight chunks are dropped as previously_failed — no repeated
    // resource rejections (which would re-emit FileReceiveFailed
    // upstream) and no ghost assembly, even after capacity frees up.
    let config = FileTransferConfig {
        max_concurrent_assemblies: 1,
        ..FileTransferConfig::default()
    };
    let mut manager = FileTransferManager::with_config(config);

    assert!(manager
        .process_chunk("alice", attack_chunk("f1", 100, 2, 0, vec![0u8; 10]))
        .is_ok());
    assert_eq!(
        manager
            .process_chunk("bob", attack_chunk("f2", 1000, 10, 0, vec![0u8; 100]))
            .unwrap_err(),
        ChunkRejection::TooManyTransfers
    );
    for index in 1..10u32 {
        assert_eq!(
            manager
                .process_chunk("bob", attack_chunk("f2", 1000, 10, index, vec![0u8; 100]))
                .unwrap_err(),
            ChunkRejection::PreviouslyFailed
        );
    }
    // Even with the slot freed, the failed id stays dead: its first
    // chunk was ACKed and lost, so the transfer could never complete.
    assert!(manager.cancel_transfer("f1"));
    assert_eq!(
        manager
            .process_chunk("bob", attack_chunk("f2", 1000, 10, 5, vec![0u8; 100]))
            .unwrap_err(),
        ChunkRejection::PreviouslyFailed
    );
    assert_eq!(manager.active_transfer_count(), 0);
}

#[test]
fn test_budget_dropped_transfer_cannot_resurrect() {
    let config = FileTransferConfig {
        max_file_size: 1_000_000,
        max_total_buffered_bytes: 1_065_536,
        ..FileTransferConfig::default()
    };
    let mut manager = FileTransferManager::with_config(config);

    assert!(manager
        .process_chunk(
            "alice",
            attack_chunk("f1", 1_000_000, 3, 0, vec![0u8; 600_000])
        )
        .is_ok());
    assert!(manager
        .process_chunk("bob", attack_chunk("f2", 400_000, 2, 0, vec![0u8; 300_000]))
        .is_ok());
    assert_eq!(
        manager
            .process_chunk(
                "alice",
                attack_chunk("f1", 1_000_000, 3, 1, vec![0u8; 300_000])
            )
            .unwrap_err(),
        ChunkRejection::BufferBudgetExhausted
    );
    // f1's remaining in-flight chunk must not start a fresh assembly —
    // it would miss the dropped chunk forever, squatting a slot and the
    // budget until the stale sweep and then failing a second time.
    assert_eq!(
        manager
            .process_chunk(
                "alice",
                attack_chunk("f1", 1_000_000, 3, 2, vec![0u8; 100_000])
            )
            .unwrap_err(),
        ChunkRejection::PreviouslyFailed
    );
    assert!(manager.get_progress("f1").is_none());
    assert_eq!(manager.active_transfer_count(), 1);
}

#[test]
fn test_finalize_integrity_failure_tombstones_id() {
    let mut manager = FileTransferManager::new();

    // Checksum matches the bytes but the claimed file_size does not, so
    // finalize fails its size check and drops the transfer.
    let data = vec![3u8; 100];
    let checksum = format!("{:x}", Sha256::digest(&data));
    let chunk = FileChunk {
        file_id: "f".to_string(),
        file_name: "bad.bin".to_string(),
        file_size: 2048,
        total_chunks: 1,
        chunk_index: 0,
        chunk_data: data,
        file_checksum: checksum,
    };
    assert!(manager.process_chunk("peer", chunk.clone()).is_ok());
    assert!(manager.is_complete("f"));
    assert!(manager.finalize_file("f").is_none());

    // The failed id cannot be restarted by resending its chunks.
    assert_eq!(
        manager.process_chunk("peer", chunk).unwrap_err(),
        ChunkRejection::PreviouslyFailed
    );
    assert_eq!(manager.active_transfer_count(), 0);
}

#[test]
fn test_stale_swept_transfer_is_tombstoned() {
    let mut manager = FileTransferManager::new();

    assert!(manager
        .process_chunk("peer", attack_chunk("f", 200, 2, 0, vec![0u8; 100]))
        .is_ok());
    manager.backdate_transfers(Duration::from_secs(2));
    let swept = manager.cleanup_stale_transfers(Duration::from_secs(1));
    assert_eq!(swept.len(), 1);

    // A straggler chunk must not resurrect the swept transfer — the
    // caller already emitted its stale_timeout failure.
    assert_eq!(
        manager
            .process_chunk("peer", attack_chunk("f", 200, 2, 1, vec![0u8; 100]))
            .unwrap_err(),
        ChunkRejection::PreviouslyFailed
    );
    assert_eq!(manager.active_transfer_count(), 0);
}

#[test]
fn test_tombstone_expires_after_max_age() {
    let config = FileTransferConfig {
        max_concurrent_assemblies: 1,
        ..FileTransferConfig::default()
    };
    let mut manager = FileTransferManager::with_config(config);

    assert!(manager
        .process_chunk("alice", attack_chunk("f1", 100, 2, 0, vec![0u8; 10]))
        .is_ok());
    assert_eq!(
        manager
            .process_chunk("bob", attack_chunk("f2", 100, 2, 0, vec![0u8; 10]))
            .unwrap_err(),
        ChunkRejection::TooManyTransfers
    );
    assert!(manager.cancel_transfer("f1"));

    // Once no chunk for the failed id has been seen for max_age, the
    // stale sweep releases it and the id may be reused (the manual FFI
    // path retries with app-chosen ids).
    manager.backdate_transfers(Duration::from_secs(2));
    manager.cleanup_stale_transfers(Duration::from_secs(1));
    assert!(manager
        .process_chunk("bob", attack_chunk("f2", 100, 2, 0, vec![0u8; 10]))
        .is_ok());
}

#[test]
fn test_cancel_does_not_tombstone() {
    // Cancellation is an app decision, not a failure — the id may be
    // restarted immediately (nothing was lost that a full resend
    // cannot supply).
    let mut manager = FileTransferManager::new();
    assert!(manager
        .process_chunk("peer", attack_chunk("f", 100, 2, 0, vec![0u8; 10]))
        .is_ok());
    assert!(manager.cancel_transfer("f"));
    assert!(manager
        .process_chunk("peer", attack_chunk("f", 100, 2, 0, vec![0u8; 10]))
        .is_ok());
    assert_eq!(manager.active_transfer_count(), 1);
}

#[test]
fn test_duplicate_chunk_resent_with_different_size_replaces() {
    // A duplicate whose payload differs in size must fully replace the
    // earlier copy in both bytes and budget accounting, so the transfer
    // still completes and delivers exactly the claimed size.
    let mut manager = FileTransferManager::new();
    let data0 = vec![7u8; 1500];
    let data1 = vec![9u8; 548];
    let mut whole = data0.clone();
    whole.extend_from_slice(&data1);
    let checksum = format!("{:x}", Sha256::digest(&whole));

    let make = |index: u32, data: Vec<u8>| FileChunk {
        file_id: "f".to_string(),
        file_name: "file.bin".to_string(),
        file_size: 2048,
        total_chunks: 2,
        chunk_index: index,
        chunk_data: data,
        file_checksum: checksum.clone(),
    };

    // Undersized garbage first, then the real 1500-byte chunk 0.
    assert!(manager
        .process_chunk("peer", make(0, vec![0u8; 1400]))
        .is_ok());
    assert!(manager.process_chunk("peer", make(0, data0)).is_ok());
    assert!(manager.process_chunk("peer", make(1, data1)).is_ok());
    assert!(manager.is_complete("f"));
    // finalize checks reassembled length against the claimed file_size,
    // so this also proves the replacement byte accounting is exact.
    assert_eq!(manager.finalize_file("f").unwrap(), whole);
}

#[test]
fn test_single_chunk_at_exactly_file_size_completes() {
    let mut manager = FileTransferManager::new();
    let data = vec![4u8; 512];
    let checksum = format!("{:x}", Sha256::digest(&data));
    let chunk = FileChunk {
        file_id: "f".to_string(),
        file_name: "exact.bin".to_string(),
        file_size: 512,
        total_chunks: 1,
        chunk_index: 0,
        chunk_data: data.clone(),
        file_checksum: checksum,
    };
    assert!(manager.process_chunk("peer", chunk).is_ok());
    assert!(manager.is_complete("f"));
    assert_eq!(manager.finalize_file("f").unwrap(), data);
}

#[test]
fn test_file_at_exactly_max_file_size_completes() {
    // The configured budget equals max_file_size, which cannot cover
    // the per-chunk overhead — with_config clamps it up so a
    // maximum-size file still completes.
    let config = FileTransferConfig {
        chunk_size: 512,
        max_file_size: 1000,
        max_total_buffered_bytes: 1000,
        ..FileTransferConfig::default()
    };
    let mut manager = FileTransferManager::with_config(config);

    let file_data = vec![5u8; 1000];
    let chunks = manager
        .chunk_file(
            "f".to_string(),
            "max.bin".to_string(),
            file_data.clone(),
            None,
        )
        .unwrap();
    for chunk in chunks {
        manager.process_chunk("peer", chunk).unwrap();
    }
    assert_eq!(manager.finalize_file("f").unwrap(), file_data);
}

#[test]
fn test_chunk_file_rejects_chunking_finer_than_receive_cap() {
    // A 1 MiB max_file_size derives a receive-side cap of 1025 chunks;
    // chunking a full-size file at 512 bytes would need 2048. Every
    // chunk of such a transfer would be ACKed then dropped by the
    // receiver, so the send side must refuse to produce it.
    let config = FileTransferConfig {
        chunk_size: 512,
        max_file_size: 1024 * 1024,
        ..FileTransferConfig::default()
    };
    let manager = FileTransferManager::with_config(config);
    let result = manager.chunk_file(
        "f".to_string(),
        "big.bin".to_string(),
        vec![0u8; 1024 * 1024],
        None,
    );
    assert!(result.is_err());
}

#[test]
fn test_chunk_file_small_chunk_size_round_trips_within_cap() {
    // Small chunk sizes stay valid while the chunk count fits the
    // receive-side cap: 400 KiB at 512 bytes is 800 chunks (cap 1025),
    // and a same-config receiver accepts the whole transfer.
    let config = FileTransferConfig {
        chunk_size: 512,
        max_file_size: 1024 * 1024,
        ..FileTransferConfig::default()
    };
    let mut manager = FileTransferManager::with_config(config);
    let file_data: Vec<u8> = (0..400 * 1024).map(|i| (i % 251) as u8).collect();
    let chunks = manager
        .chunk_file(
            "f".to_string(),
            "ok.bin".to_string(),
            file_data.clone(),
            None,
        )
        .unwrap();
    assert_eq!(chunks.len(), 800);
    for chunk in chunks {
        manager.process_chunk("peer", chunk).unwrap();
    }
    assert_eq!(manager.finalize_file("f").unwrap(), file_data);
}

#[test]
fn test_total_chunks_at_derived_cap_accepted() {
    // max_file_size 1 MiB → cap = 1 MiB / 1 KiB + 1 = 1025.
    let config = FileTransferConfig {
        max_file_size: 1024 * 1024,
        ..FileTransferConfig::default()
    };
    let mut manager = FileTransferManager::with_config(config);
    assert!(manager
        .process_chunk(
            "peer",
            attack_chunk("f1", 1024 * 1024, 1025, 0, vec![0u8; 8])
        )
        .is_ok());
    assert_eq!(
        manager
            .process_chunk(
                "peer",
                attack_chunk("f2", 1024 * 1024, 1026, 0, vec![0u8; 8])
            )
            .unwrap_err(),
        ChunkRejection::Invalid
    );
}

#[test]
fn test_duplicate_chunk_replaces_data() {
    let mut manager = FileTransferManager::new();
    // A resent chunk 0 with different bytes replaces the first copy; the
    // final file must contain the replacement.
    let stale = vec![1u8; 100];
    let fresh = vec![2u8; 100];
    let tail = vec![3u8; 50];
    let mut whole = fresh.clone();
    whole.extend_from_slice(&tail);
    let checksum = format!("{:x}", Sha256::digest(&whole));

    let make = |index: u32, data: Vec<u8>| FileChunk {
        file_id: "f".to_string(),
        file_name: "file.bin".to_string(),
        file_size: 150,
        total_chunks: 2,
        chunk_index: index,
        chunk_data: data,
        file_checksum: checksum.clone(),
    };

    manager.process_chunk("peer", make(0, stale)).unwrap();
    manager.process_chunk("peer", make(0, fresh)).unwrap();
    manager.process_chunk("peer", make(1, tail)).unwrap();
    assert_eq!(manager.finalize_file("f").unwrap(), whole);
}

#[test]
fn test_finalize_rejects_size_mismatch() {
    let mut manager = FileTransferManager::new();
    // Single 100-byte chunk with a valid checksum of those bytes, but a
    // claimed file_size of 2048.
    let data = vec![3u8; 100];
    let checksum = format!("{:x}", Sha256::digest(&data));
    let chunk = FileChunk {
        file_id: "f".to_string(),
        file_name: "file.bin".to_string(),
        file_size: 2048,
        total_chunks: 1,
        chunk_index: 0,
        chunk_data: data,
        file_checksum: checksum,
    };
    assert!(manager.process_chunk("peer", chunk).is_ok());
    assert!(manager.is_complete("f"));
    assert!(manager.finalize_file("f").is_none());
    // The failed transfer is discarded.
    assert_eq!(manager.active_transfer_count(), 0);
}

#[test]
fn test_cleanup_stale_transfers() {
    let mut manager = FileTransferManager::new();
    let chunks = manager
        .chunk_file(
            "file1".to_string(),
            "test.txt".to_string(),
            vec![1u8; 64 * 1024],
            None,
        )
        .unwrap();

    manager.process_chunk("peer", chunks[0].clone()).unwrap();
    manager.backdate_transfers(Duration::from_millis(3));

    let removed = manager.cleanup_stale_transfers(Duration::from_millis(1));
    assert_eq!(
        removed,
        vec![StaleTransfer {
            file_id: "file1".to_string(),
            file_name: "test.txt".to_string(),
            sender: "peer".to_string(),
        }]
    );
    assert!(manager.get_progress("file1").is_none());
}

#[test]
fn failed_ids_are_forgotten_first_in_first_out() {
    let mut manager = FileTransferManager::new();
    for i in 0..1025 {
        manager.refuse_transfer(&format!("f{}", i));
    }
    for i in 1..1025 {
        assert_eq!(
            manager
                .process_chunk("peer", attack_chunk(&format!("f{}", i), 100, 2, 0, vec![0u8; 10]))
                .unwrap_err(),
            ChunkRejection::PreviouslyFailed
        );
    }
    assert!(manager
        .process_chunk("peer", attack_chunk("f0", 100, 2, 0, vec![0u8; 10]))
        .is_ok());
}

#[test]
fn a_lost_transfer_outlasts_other_failures() {
    let config = FileTransferConfig {
        max_concurrent_assemblies: 1,
        ..FileTransferConfig::default()
    };
    let mut manager = FileTransferManager::with_config(config);
    assert!(manager
        .process_chunk("alice", attack_chunk("f1", 100, 2, 0, vec![0u8; 10]))
        .is_ok());
    assert_eq!(
        manager
            .process_chunk("bob", attack_chunk("f2", 100, 2, 0, vec![0u8; 10]))
            .unwrap_err(),
        ChunkRejection::TooManyTransfers
    );
    assert!(manager.cancel_transfer("f1"));
    for i in 0..1023 {
        manager.refuse_transfer(&format!("other{}", i));
    }
    assert_eq!(
        manager
            .process_chunk("carol", attack_chunk("f2", 100, 2, 0, vec![0u8; 10]))
            .unwrap_err(),
        ChunkRejection::PreviouslyFailed
    );
    assert!(manager.get_progress("f2").is_none());
    assert_eq!(manager.active_transfer_count(), 0);
}

#[test]
fn a_sweep_that_drops_transfers_ages_tombstones_too() {
    let mut manager = FileTransferManager::new();
    manager.refuse_transfer_at("old", 100);
    manager.refuse_transfer_at("young", 150);
    assert!(manager
        .process_chunk_at("peer", attack_chunk("stale", 100, 2, 0, vec![0u8; 10]), 90)
        .is_ok());
    let dropped = manager.cleanup_stale_transfers_at(50, 200);
    assert_eq!(dropped.len(), 1);
    for (id, failed) in [("old", false), ("young", true), ("stale", true)] {
        let answer =
            manager.process_chunk_at("peer", attack_chunk(id, 100, 2, 0, vec![0u8; 10]), 201);
        assert_eq!(answer.is_err(), failed);
    }
    manager.refuse_transfer_at("late", 100);
    let _ = manager.cleanup_stale_transfers_at(50, 151);
    assert!(manager
        .process_chunk_at("peer", attack_chunk("late", 100, 2, 0, vec![0u8; 10]), 152)
        .is_ok());
}

#[test]
fn a_payload_cut_anywhere_ends_early() {
    let bytes = sample_chunk().to_bytes();
    for k in 0..bytes.len() {
        assert!(matches!(
            FileChunk::from_bytes(&bytes[..k]).unwrap_err(),
            ChunkDecodeError::UnexpectedEof { .. }
        ));
    }
}

#[test]
fn what_is_decoded_encodes_to_what_was_read() {
    let mut bytes = sample_chunk().to_bytes();
    let n = bytes.len();
    assert_eq!(n, 32 + "file1".len() + "test.txt".len() + 13 + "abc123".len());
    bytes.extend_from_slice(b"trailing");
    let chunk = FileChunk::from_bytes(&bytes).unwrap();
    assert_eq!(chunk.to_bytes(), bytes[..n].to_vec());
}

#[test]
fn a_new_manager_puts_together_what_it_cut() {
    let config = FileTransferConfig {
        max_file_size: 2000,
        max_concurrent_assemblies: 1,
        max_assemblies_per_sender: 1,
        max_total_buffered_bytes: 0,
        ..FileTransferConfig::default()
    };
    let mut manager = FileTransferManager::with_config(config);
    let data: Vec<u8> = (0..2000u32).map(|i| i as u8).collect();
    let chunks = manager
        .chunk_file("f".to_string(), "f.bin".to_string(), data.clone(), Some(7))
        .unwrap();
    for chunk in chunks.iter().rev().chain(chunks.iter()) {
        assert!(manager.process_chunk("peer", chunk.clone()).is_ok());
    }
    assert!(manager.is_complete("f"));
    assert_eq!(manager.finalize_file("f"), Some(data));
    assert!(manager.get_progress("f").is_none());
    assert_eq!(manager.active_transfer_count(), 0);
}

#[test]
fn a_mark_is_renewed_by_every_refused_chunk() {
    let mut manager = FileTransferManager::new();
    manager.refuse_transfer_at("f", 100);
    let chunk = || attack_chunk("f", 100, 2, 0, vec![0u8; 10]);
    assert!(manager.process_chunk_at("peer", chunk(), 140).is_err());
    let _ = manager.cleanup_stale_transfers_at(50, 190);
    assert_eq!(
        manager.process_chunk_at("peer", chunk(), 191).unwrap_err(),
        ChunkRejection::PreviouslyFailed
    );
    let _ = manager.cleanup_stale_transfers_at(50, 242);
    assert!(manager.process_chunk_at("peer", chunk(), 243).is_ok());
}
