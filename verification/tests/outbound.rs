//! Sending: the window of an outbound transfer, and what chunking refuses.

use offline_protocol::error::Error;
use offline_protocol::file_transfer::{
    ChunkRejection, FileChunk, FileProgress, FileTransferConfig, FileTransferManager,
    OutboundTransferState,
};

fn chunks(n: u32) -> Vec<FileChunk> {
    (0..n)
        .map(|i| FileChunk {
            file_id: "f".to_string(),
            file_name: "f.bin".to_string(),
            file_size: n as u64,
            total_chunks: n,
            chunk_index: i,
            chunk_data: vec![i as u8],
            file_checksum: String::new(),
        })
        .collect()
}

fn indices(sent: &[FileChunk]) -> Vec<u32> {
    sent.iter().map(|c| c.chunk_index).collect()
}

#[test]
fn the_window_limits_what_is_in_flight() {
    let mut state = OutboundTransferState::new(chunks(5), 2);
    assert_eq!(indices(&state.next_chunks_to_send()), vec![0, 1]);
    assert_eq!(indices(&state.next_chunks_to_send()), Vec::<u32>::new());
    assert!(!state.has_capacity());
    assert!(state.on_chunk_ack(1));
    assert!(!state.on_chunk_ack(1));
    assert!(state.has_capacity());
    assert_eq!(indices(&state.next_chunks_to_send()), vec![2]);
    assert_eq!(state.acked_count(), 1);
    assert_eq!(state.total_chunks(), 5);
}

#[test]
fn a_failed_chunk_frees_its_place() {
    let mut state = OutboundTransferState::new(chunks(3), 1);
    assert_eq!(indices(&state.next_chunks_to_send()), vec![0]);
    state.on_chunk_failed(0);
    assert_eq!(indices(&state.next_chunks_to_send()), vec![1]);
    assert_eq!(state.acked_count(), 0);
}

#[test]
fn a_transfer_is_over_once_every_chunk_is_acknowledged() {
    let mut state = OutboundTransferState::new(chunks(2), 9);
    assert!(!state.all_sent());
    let _ = state.next_chunks_to_send();
    assert!(state.all_sent());
    assert!(!state.is_fully_acked());
    let _ = state.on_chunk_ack(0);
    let _ = state.on_chunk_ack(1);
    assert!(state.is_fully_acked());
}

fn refusal(config: FileTransferConfig, len: usize, size: Option<usize>) -> String {
    let manager = FileTransferManager::with_config(config);
    match manager.chunk_file("f".to_string(), "f".to_string(), vec![0; len], size) {
        Err(Error::InvalidArgument(text)) => text,
        _ => panic!("accepted"),
    }
}

#[test]
fn chunking_says_why_it_refuses() {
    let small = FileTransferConfig { max_file_size: 1000, ..FileTransferConfig::default() };
    assert_eq!(refusal(small.clone(), 2000, None), "File size 2000 exceeds maximum 1000");
    assert_eq!(refusal(small.clone(), 0, None), "File is empty");
    assert_eq!(refusal(small, 5, Some(0)), "Chunk size must be greater than zero");
}

#[test]
fn a_chunk_names_the_digest_of_its_file() {
    let manager = FileTransferManager::new();
    let sent = manager.chunk_file("f".to_string(), "f".to_string(), b"abc".to_vec(), None).unwrap();
    assert_eq!(
        sent[0].file_checksum,
        "ba7816bf8f01cfea414140de5dae2223b00361a396177a9cb410ff61f20015ad"
    );
}

#[test]
fn a_percentage_is_rounded_as_single_precision_rounds() {
    assert_eq!(FileProgress::calculate_percentage(354, 600), 58);
    assert_eq!(FileProgress::calculate_percentage(2, 3), 66);
    assert_eq!(FileProgress::calculate_percentage(7, 7), 100);
}

#[test]
fn a_refused_transfer_is_not_rebuilt() {
    let mut manager = FileTransferManager::new();
    let sent = manager
        .chunk_file("f".to_string(), "f".to_string(), vec![7; 20], Some(10))
        .unwrap();
    assert!(manager.process_chunk("peer", sent[0].clone()).is_ok());
    manager.refuse_transfer("f");
    assert_eq!(manager.active_transfer_count(), 0);
    assert_eq!(
        manager.process_chunk("peer", sent[1].clone()).unwrap_err(),
        ChunkRejection::PreviouslyFailed
    );
}

#[test]
fn rejections_name_themselves() {
    assert_eq!(ChunkRejection::Invalid.as_str(), "invalid_chunk");
    assert_eq!(ChunkRejection::MetadataMismatch.as_str(), "metadata_mismatch");
    assert_eq!(ChunkRejection::SenderMismatch.as_str(), "sender_mismatch");
    assert_eq!(ChunkRejection::TooManyTransfers.as_str(), "too_many_transfers");
    assert_eq!(ChunkRejection::SenderQuotaExceeded.as_str(), "sender_quota_exceeded");
    assert_eq!(ChunkRejection::BufferBudgetExhausted.as_str(), "buffer_budget_exhausted");
    assert_eq!(ChunkRejection::PreviouslyFailed.as_str(), "previously_failed");
    assert!(ChunkRejection::TooManyTransfers.is_resource_exhaustion());
    assert!(ChunkRejection::SenderQuotaExceeded.is_resource_exhaustion());
    assert!(ChunkRejection::BufferBudgetExhausted.is_resource_exhaustion());
    assert!(!ChunkRejection::Invalid.is_resource_exhaustion());
    assert!(!ChunkRejection::PreviouslyFailed.is_resource_exhaustion());
}

#[test]
fn a_foreign_acknowledgement_counts_for_no_chunk() {
    let mut state = OutboundTransferState::new(chunks(1), 1);
    let _ = state.next_chunks_to_send();
    assert!(!state.on_chunk_ack(7));
    assert!(!state.is_fully_acked());
    assert_eq!(state.acked_count(), 0);
    assert!(state.on_chunk_ack(0));
    assert!(state.is_fully_acked());
    assert_eq!(state.acked_count(), 1);
}

#[test]
fn a_percentage_is_full_only_with_the_last_chunk() {
    assert_eq!(FileProgress::calculate_percentage(0, 16_777_216), 0);
    assert_eq!(FileProgress::calculate_percentage(16_777_215, 16_777_216), 99);
    assert_eq!(FileProgress::calculate_percentage(16_777_216, 16_777_216), 100);
    let mut last = 0;
    for completed in 0..=3000 {
        let percentage = FileProgress::calculate_percentage(completed, 3000);
        assert!(last <= percentage);
        assert_eq!(percentage == 100, completed == 3000);
        last = percentage;
    }
}

#[test]
fn a_batch_is_the_largest_that_fits() {
    let mut state = OutboundTransferState::new(chunks(10), 4);
    let mut out: Vec<u32> = Vec::new();
    out.extend(indices(&state.next_chunks_to_send()));
    assert_eq!(out, vec![0, 1, 2, 3]);
    let _ = state.on_chunk_ack(2);
    state.on_chunk_failed(0);
    let _ = state.on_chunk_ack(99);
    out.extend(indices(&state.next_chunks_to_send()));
    assert_eq!(out, vec![0, 1, 2, 3, 4, 5]);
    for i in [1, 3, 4, 5] {
        let _ = state.on_chunk_ack(i);
    }
    let acked = state.acked_count();
    out.extend(indices(&state.next_chunks_to_send()));
    assert_eq!(out, (0..10).collect::<Vec<u32>>());
    assert_eq!(state.acked_count(), acked);
    assert!(state.all_sent());
    assert!(!state.has_capacity());
}
