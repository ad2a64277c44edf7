use offline_protocol::assoc::StrMap;
use offline_protocol::config::ProtocolConfig;
use offline_protocol::group_mesh::buffer::{enforce_global_buffer_bound, GlobalBufferCaps};
use offline_protocol::group_mesh::dated::SECOND;
use offline_protocol::group_mesh::effect::{Effect, Effects};
use offline_protocol::group_mesh::limits::MAX_GROUP_MESSAGE_DEDUP_ENTRIES;
use offline_protocol::group_mesh::state::OfflineProtocol;
use offline_protocol::group_mesh::types::{PendingCommit, PendingGroupMessage};

fn node() -> OfflineProtocol {
    OfflineProtocol::new("ann", &ProtocolConfig::new("app", "ann"), true)
}

fn commit(id: &str, bytes: usize, at: u128) -> PendingCommit {
    PendingCommit {
        sender: "bob".to_string(),
        message_id: id.to_string(),
        data: "d".repeat(bytes),
        buffered_at: at,
        retry_count: 0,
    }
}

fn ids(entries: &[PendingCommit]) -> Vec<String> {
    entries.iter().map(|e| e.message_id.clone()).collect()
}

fn buffers(groups: Vec<(&str, Vec<PendingCommit>)>) -> StrMap<Vec<PendingCommit>> {
    let mut map = StrMap::new();
    for (group, queue) in groups {
        let _ = map.insert(group.to_string(), queue);
    }
    map
}

#[test]
fn nothing_makes_way_below_the_caps() {
    let mut map = buffers(vec![("a", vec![commit("a1", 1, 0)])]);
    let caps = GlobalBufferCaps { max_groups: 2, max_entries: 3, max_bytes: 10 };
    assert_eq!(enforce_global_buffer_bound(&mut map, "b", &caps, 9), Some(Vec::new()));
    assert_eq!(map.len(), 1);
}

#[test]
fn an_entry_that_can_never_fit_evicts_nothing() {
    let mut map = buffers(vec![("a", vec![commit("a1", 10, 0)])]);
    let caps = GlobalBufferCaps { max_groups: 2, max_entries: 3, max_bytes: 10 };
    assert_eq!(enforce_global_buffer_bound(&mut map, "a", &caps, 11), None);
    assert_eq!(map.len(), 1);
}

#[test]
fn a_new_group_displaces_the_fullest_group() {
    let mut map = buffers(vec![
        ("a", vec![commit("a1", 1, 0)]),
        ("b", vec![commit("b1", 1, 5), commit("b2", 1, 6)]),
    ]);
    let caps = GlobalBufferCaps { max_groups: 2, max_entries: 10, max_bytes: 10 };
    let evicted = enforce_global_buffer_bound(&mut map, "c", &caps, 1).unwrap();
    assert_eq!(ids(&evicted), vec!["b1", "b2"]);
    assert!(map.contains_key("a"));
    assert_eq!(enforce_global_buffer_bound(&mut map, "a", &caps, 1), Some(Vec::new()));
}

#[test]
fn among_equals_the_oldest_front_yields() {
    let mut map = buffers(vec![
        ("a", vec![commit("a1", 4, 7)]),
        ("b", vec![commit("b1", 4, 3)]),
    ]);
    let caps = GlobalBufferCaps { max_groups: 9, max_entries: 9, max_bytes: 10 };
    let evicted = enforce_global_buffer_bound(&mut map, "a", &caps, 4).unwrap();
    assert_eq!(ids(&evicted), vec!["b1"]);
    assert!(!map.contains_key("b"));
}

#[test]
fn entries_leave_from_the_front_until_there_is_room() {
    let mut map = buffers(vec![(
        "a",
        vec![commit("a1", 3, 0), commit("a2", 3, 1), commit("a3", 3, 2)],
    )]);
    let caps = GlobalBufferCaps { max_groups: 9, max_entries: 9, max_bytes: 10 };
    let evicted = enforce_global_buffer_bound(&mut map, "a", &caps, 5).unwrap();
    assert_eq!(ids(&evicted), vec!["a1", "a2"]);
    let few = GlobalBufferCaps { max_groups: 9, max_entries: 1, max_bytes: 10 };
    assert_eq!(ids(&enforce_global_buffer_bound(&mut map, "a", &few, 0).unwrap()), vec!["a3"]);
    assert_eq!(map.len(), 0);
}

#[test]
fn a_full_group_displaces_its_oldest_commit() {
    let mut ann = node();
    let mut effects = Effects::new();
    for i in 0..9u128 {
        let id = format!("m{}", i);
        ann.group_mesh.mark_seen(&id, i);
        ann.group_mesh.buffer_pending_commit("g", &id, "bob", "data", i, &mut effects);
    }
    assert_eq!(effects.list, vec![Effect::UnmarkSeen { message_id: "m0".to_string() }]);
    assert!(!ann.group_mesh.was_seen("m0"));
    assert!(ann.group_mesh.was_seen("m1"));
    let queue = ann.group_mesh.pending_commits.get("g").unwrap();
    assert_eq!(queue.len(), 8);
    assert_eq!(queue[0].message_id, "m1");
}

#[test]
fn commits_of_many_groups_stay_within_the_caps() {
    let mut ann = node();
    let mut effects = Effects::new();
    for i in 0..20u128 {
        let group = format!("g{}", i);
        ann.group_mesh.buffer_pending_commit(&group, &group, "bob", "data", i, &mut effects);
    }
    assert_eq!(ann.group_mesh.pending_commits.len(), 16);
    assert_eq!(effects.list.len(), 4);
    assert!(!ann.group_mesh.pending_commits.contains_key("g3"));
    assert!(ann.group_mesh.pending_commits.contains_key("g4"));
}

#[test]
fn an_oversized_message_is_not_buffered() {
    let mut ann = node();
    let mut effects = Effects::new();
    let entry = PendingGroupMessage {
        sender: "bob".to_string(),
        message_id: "m".to_string(),
        logical_id: None,
        ciphertext_b64: "A".repeat(8_388_609),
        timestamp: None,
        reply_to: None,
        forward_info: None,
        buffered_at: 0,
        received_via: None,
    };
    ann.group_mesh.buffer_pending_group_message("g", entry.clone(), &mut effects);
    assert_eq!(ann.group_mesh.pending_group_messages.len(), 0);
    let mut fits = entry;
    fits.ciphertext_b64 = "A".to_string();
    for i in 0..17u128 {
        fits.message_id = format!("m{}", i);
        ann.group_mesh.buffer_pending_group_message("g", fits.clone(), &mut effects);
    }
    assert_eq!(ann.group_mesh.pending_group_messages.get("g").unwrap().len(), 16);
    assert_eq!(effects.list, vec![Effect::UnmarkSeen { message_id: "m0".to_string() }]);
}

#[test]
fn seen_ids_age_and_stay_within_their_cap() {
    let mut ann = node();
    let mut effects = Effects::new();
    ann.group_mesh.mark_seen("aged", 0);
    ann.group_mesh.mark_seen("fresh", SECOND);
    ann.group_mesh.cleanup_group_message_dedup(300 * SECOND, &mut effects);
    assert!(!ann.group_mesh.was_seen("aged"));
    assert!(ann.group_mesh.was_seen("fresh"));
    assert_eq!(effects.list, Vec::new());
}

#[test]
fn a_cleanup_releases_what_it_drops_and_hints_at_forks() {
    let mut ann = node();
    let mut effects = Effects::new();
    let mut tried = commit("m1", 1, 0);
    tried.retry_count = 1;
    let _ = ann.group_mesh.pending_commits.insert("g".to_string(), vec![tried, commit("m2", 1, 5)]);
    ann.group_mesh.mark_seen("m1", 10 * SECOND);
    ann.group_mesh.cleanup_group_message_dedup(300 * SECOND, &mut effects);
    assert_eq!(
        effects.list,
        vec![
            Effect::InspectFork { group_id: "g".to_string() },
            Effect::UnmarkSeen { message_id: "m1".to_string() },
        ]
    );
    assert!(!ann.group_mesh.was_seen("m1"));
    assert_eq!(ids(ann.group_mesh.pending_commits.get("g").unwrap()), vec!["m2"]);
}

#[test]
fn a_fresh_id_is_remembered_beyond_the_cap() {
    let mut ann = node();
    let mut effects = Effects::new();
    for i in 0..MAX_GROUP_MESSAGE_DEDUP_ENTRIES {
        ann.group_mesh.mark_seen(&format!("{}m", i), i as u128);
    }
    assert!(ann.group_mesh.take_in("new", 20_000, &mut effects));
    assert!(!ann.group_mesh.take_in("new", 20_000, &mut effects));
    assert_eq!(ann.group_mesh.message_dedup.len(), MAX_GROUP_MESSAGE_DEDUP_ENTRIES);
    assert!(!ann.group_mesh.was_seen("0m"));
    assert!(ann.group_mesh.was_seen("1m"));
}

#[test]
fn the_largest_byte_cap_is_a_cap_like_any_other() {
    let mut map = buffers(vec![("a", vec![commit("a1", 1, 0), commit("a2", 1, 1)])]);
    let caps = GlobalBufferCaps { max_groups: 2, max_entries: 9, max_bytes: usize::MAX };
    let evicted = enforce_global_buffer_bound(&mut map, "a", &caps, usize::MAX - 1).unwrap();
    assert_eq!(ids(&evicted), vec!["a1"]);
    let evicted = enforce_global_buffer_bound(&mut map, "a", &caps, usize::MAX).unwrap();
    assert_eq!(ids(&evicted), vec!["a2"]);
    assert_eq!(map.len(), 0);
}
