//! The peer table and its eviction order.

use sonde::modem::peer_table::{PeerTable, MAX_PEERS};

#[test]
fn insert_and_find() {
    let mut table = PeerTable::new();
    let mac = [1, 2, 3, 4, 5, 6];
    assert_eq!(table.ensure_peer(&mac), None);
    assert!(table.contains(&mac));
    assert_eq!(table.len(), 1);
}

#[test]
fn duplicate_insert_no_eviction() {
    let mut table = PeerTable::new();
    let mac = [1, 2, 3, 4, 5, 6];
    table.ensure_peer(&mac);
    table.ensure_peer(&mac);
    assert_eq!(table.len(), 1);
}

#[test]
fn lru_eviction() {
    let mut table = PeerTable::new();

    // Fill the table.
    for i in 0..MAX_PEERS {
        let mac = [i as u8, 0, 0, 0, 0, 0];
        assert_eq!(table.ensure_peer(&mac), None);
    }
    assert_eq!(table.len(), MAX_PEERS);

    // One more evicts the first.
    let new_mac = [0xFF, 0, 0, 0, 0, 0];
    let evicted = table.ensure_peer(&new_mac);
    assert_eq!(evicted, Some([0, 0, 0, 0, 0, 0]));
    assert!(table.contains(&new_mac));
    assert!(!table.contains(&[0, 0, 0, 0, 0, 0]));
    assert_eq!(table.len(), MAX_PEERS);
}

#[test]
fn lru_respects_access_order() {
    let mut table = PeerTable::new();

    // Fill the table.
    for i in 0..MAX_PEERS {
        let mac = [i as u8, 0, 0, 0, 0, 0];
        table.ensure_peer(&mac);
    }

    // Touch the first entry to make it recently used.
    table.ensure_peer(&[0, 0, 0, 0, 0, 0]);

    // A new peer evicts the second entry.
    let new_mac = [0xFE, 0, 0, 0, 0, 0];
    let evicted = table.ensure_peer(&new_mac);
    assert_eq!(evicted, Some([1, 0, 0, 0, 0, 0]));
    assert!(table.contains(&[0, 0, 0, 0, 0, 0]));
}

#[test]
fn clear_empties_table() {
    let mut table = PeerTable::new();
    for i in 0..5 {
        table.ensure_peer(&[i, 0, 0, 0, 0, 0]);
    }
    table.clear();
    assert!(table.is_empty());
    assert_eq!(table.len(), 0);
}

#[test]
fn evicted_peer_can_be_readded() {
    let mut table = PeerTable::new();
    for i in 0..MAX_PEERS {
        table.ensure_peer(&[i as u8, 0, 0, 0, 0, 0]);
    }

    // Evict peer 0 by adding a new one.
    table.ensure_peer(&[0xFF, 0, 0, 0, 0, 0]);
    assert!(!table.contains(&[0, 0, 0, 0, 0, 0]));

    // Adding peer 0 again evicts peer 1.
    let evicted = table.ensure_peer(&[0, 0, 0, 0, 0, 0]);
    assert_eq!(evicted, Some([1, 0, 0, 0, 0, 0]));
    assert!(table.contains(&[0, 0, 0, 0, 0, 0]));
}

#[test]
fn all_macs_lists_peers_in_slot_order() {
    let mut table = PeerTable::default();
    assert!(table.all_macs().is_empty());
    table.ensure_peer(&[9, 0, 0, 0, 0, 0]);
    table.ensure_peer(&[3, 0, 0, 0, 0, 0]);
    table.ensure_peer(&[9, 0, 0, 0, 0, 0]);
    assert_eq!(
        table.all_macs(),
        vec![[9, 0, 0, 0, 0, 0], [3, 0, 0, 0, 0, 0]]
    );
}

#[test]
fn other_peers_stay_after_eviction() {
    let mut table = PeerTable::new();
    for i in 0..MAX_PEERS {
        table.ensure_peer(&[i as u8, 0, 0, 0, 0, 0]);
    }
    table.ensure_peer(&[0xFF, 0, 0, 0, 0, 0]);
    for i in 1..MAX_PEERS {
        assert!(table.contains(&[i as u8, 0, 0, 0, 0, 0]));
    }
}
