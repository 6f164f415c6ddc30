use ibc_host_store::api::Tendermintclient;
use ibc_host_store::context::{
    timestamp_from_unix_nanos, ClientType, ConsensusStatePath, ContextError, Ctx,
};
use ibc_host_store::height::{Height, HeightError};
use ibc_host_store::storage::{Direction, Storage};

struct TestClient;

impl ClientType for TestClient {
    type ClientState = String;
    type ConsensusState = u64;
}

fn h(revision_height: u64) -> Height {
    Height { revision_number: 0, revision_height }
}

fn key(height: u64) -> String {
    format!("consensusStates/0-{}", height)
}

fn store_with(heights: &[u64]) -> Storage<TestClient> {
    let mut s: Storage<TestClient> = Storage::new();
    for &x in heights {
        s.put_consensus_state(h(x), key(x), x * 100);
    }
    s
}

fn path(height: u64) -> ConsensusStatePath {
    ConsensusStatePath { client_id: "07-tendermint-0".to_string(), height: h(height), key: key(height) }
}

#[test]
fn adjacent_of_stored_height_is_itself() {
    let s = store_with(&[3, 1, 2]);
    assert_eq!(s.get_adjacent_height(&h(2), Direction::Prev), Some(&200));
    assert_eq!(s.get_adjacent_height(&h(2), Direction::Next), Some(&200));
}

#[test]
fn empty_store_has_no_neighbours() {
    let s: Storage<TestClient> = Storage::new();
    for x in [0u64, 1, 7, u64::MAX] {
        assert_eq!(s.get_adjacent_height(&h(x), Direction::Next), None);
        assert_eq!(s.get_adjacent_height(&h(x), Direction::Prev), None);
    }
}

#[test]
fn put_then_get_finds_state_and_height() {
    let mut s: Storage<TestClient> = Storage::new();
    s.put_consensus_state(h(4), key(4), 44);
    assert_eq!(s.get_consensus_state(&key(4)), Some(&44));
    assert!(s.get_heights().contains(&h(4)));
}

#[test]
fn delete_removes_from_both_views() {
    let mut s = store_with(&[5, 10, 15]);
    s.delete_consensus_state(&h(10), &key(10));
    assert_eq!(s.get_consensus_state(&key(10)), None);
    assert_eq!(s.get_heights(), vec![h(5), h(15)]);
    assert_eq!(s.get_adjacent_height(&h(10), Direction::Next), Some(&1500));
    assert_eq!(s.get_adjacent_height(&h(10), Direction::Prev), Some(&500));
}

#[test]
fn next_over_five_ten_fifteen() {
    let s = store_with(&[5, 10, 15]);
    assert_eq!(s.get_adjacent_height(&h(7), Direction::Next), Some(&1000));
    assert_eq!(s.get_adjacent_height(&h(15), Direction::Next), Some(&1500));
    assert_eq!(s.get_adjacent_height(&h(16), Direction::Next), None);
}

#[test]
fn prev_over_five_ten_fifteen() {
    let s = store_with(&[5, 10, 15]);
    assert_eq!(s.get_adjacent_height(&h(12), Direction::Prev), Some(&1000));
    assert_eq!(s.get_adjacent_height(&h(4), Direction::Prev), None);
    assert_eq!(s.get_adjacent_height(&h(100), Direction::Prev), Some(&1500));
}

#[test]
fn deleting_absent_entry_twice_changes_nothing() {
    let mut s = store_with(&[5, 10]);
    s.put_update_meta(h(5), 1, h(1));
    for _ in 0..2 {
        s.delete_consensus_state(&h(7), &key(7));
        s.delete_update_meta(&h(7));
    }
    assert_eq!(s.get_heights(), vec![h(5), h(10)]);
    assert_eq!(s.get_consensus_state(&key(5)), Some(&500));
    assert_eq!(s.get_consensus_state(&key(10)), Some(&1000));
    assert_eq!(s.get_update_meta(&h(5)), Some((1, h(1))));
}

#[test]
fn client_state_is_overwritten() {
    let mut ctx: Ctx<TestClient> = Ctx::new();
    let id = "07-tendermint-0".to_string();
    assert_eq!(ctx.store_client_state(&id, "first".to_string()), Ok(()));
    assert_eq!(ctx.store_client_state(&id, "second".to_string()), Ok(()));
    assert_eq!(ctx.client_state(&id), Ok(&"second".to_string()));
    assert_eq!(ctx.client_state_mut(&id), Ok(&"second".to_string()));
}

#[test]
fn update_meta_round_trip() {
    let mut ctx: Ctx<TestClient> = Ctx::new();
    let id = "07-tendermint-0".to_string();
    assert_eq!(ctx.store_update_meta(&id, h(9), 1_700_000_000, h(42)), Ok(()));
    assert_eq!(ctx.client_update_meta(&id, &h(9)), Ok((1_700_000_000, h(42))));
    assert_eq!(ctx.store_update_meta(&id, h(9), 5, h(43)), Ok(()));
    assert_eq!(ctx.client_update_meta(&id, &h(9)), Ok((5, h(43))));
    assert_eq!(ctx.delete_update_meta(&id, h(9)), Ok(()));
    assert_eq!(
        ctx.client_update_meta(&id, &h(9)),
        Err(ContextError::UpdateMetaDataNotFound { client_id: id.clone(), height: h(9) })
    );
}

#[test]
fn missing_client_state_is_an_error() {
    let ctx: Ctx<TestClient> = Ctx::default();
    let id = "07-tendermint-3".to_string();
    assert_eq!(ctx.client_state(&id), Err(ContextError::ClientStateNotFound { client_id: id.clone() }));
}

#[test]
fn missing_consensus_state_reports_requested_path() {
    let mut ctx: Ctx<TestClient> = Ctx::new();
    assert_eq!(ctx.store_consensus_state(path(3), 33), Ok(()));
    assert_eq!(ctx.consensus_state(&path(3)), Ok(&33));
    let wanted = path(4);
    assert_eq!(
        ctx.consensus_state(&wanted),
        Err(ContextError::ConsensusStateNotFound { client_id: wanted.client_id.clone(), height: h(4) })
    );
    assert_eq!(ctx.delete_consensus_state(path(3)), Ok(()));
    assert!(ctx.consensus_state(&path(3)).is_err());
    assert_eq!(ctx.consensus_state_heights(&wanted.client_id), Ok(vec![]));
}

#[test]
fn context_adjacent_queries_delegate() {
    let mut ctx: Ctx<TestClient> = Ctx::new();
    for x in [15u64, 5, 10] {
        assert_eq!(ctx.store_consensus_state(path(x), x), Ok(()));
    }
    let id = "07-tendermint-0".to_string();
    assert_eq!(ctx.consensus_state_heights(&id), Ok(vec![h(5), h(10), h(15)]));
    assert_eq!(ctx.next_consensus_state(&id, &h(11)), Ok(Some(&15)));
    assert_eq!(ctx.prev_consensus_state(&id, &h(11)), Ok(Some(&10)));
    assert_eq!(ctx.prev_consensus_state(&id, &h(1)), Ok(None));
}

#[test]
fn heights_order_by_revision_first() {
    let mut s: Storage<TestClient> = Storage::new();
    let a = Height { revision_number: 1, revision_height: 1 };
    let b = Height { revision_number: 0, revision_height: 9 };
    s.put_consensus_state(a, "a".to_string(), 1);
    s.put_consensus_state(b, "b".to_string(), 2);
    assert_eq!(s.get_heights(), vec![b, a]);
    assert_eq!(s.get_adjacent_height(&Height { revision_number: 0, revision_height: 10 }, Direction::Next), Some(&1));
    assert_eq!(s.get_adjacent_height(&Height { revision_number: 0, revision_height: 10 }, Direction::Prev), Some(&2));
}

#[test]
fn put_replaces_entry_with_same_key_or_height() {
    let mut s = store_with(&[5, 10]);
    s.put_consensus_state(h(10), key(10), 7);
    assert_eq!(s.get_consensus_state(&key(10)), Some(&7));
    s.put_consensus_state(h(12), key(5), 8);
    assert_eq!(s.get_heights(), vec![h(10), h(12)]);
    assert_eq!(s.get_consensus_state(&key(5)), Some(&8));
    assert_eq!(s.get_adjacent_height(&h(5), Direction::Prev), None);
}

#[test]
fn client_state_absent_then_present_in_store() {
    let mut s: Storage<TestClient> = Storage::default();
    assert_eq!(s.get_client_state(), None);
    s.set_client_state("c".to_string());
    assert_eq!(s.get_client_state(), Some(&"c".to_string()));
}

#[test]
fn height_new_refuses_zero() {
    assert_eq!(Height::new(3, 0), Err(HeightError::ZeroHeight));
    assert_eq!(Height::new(3, 4), Ok(Height { revision_number: 3, revision_height: 4 }));
    assert!(h(1).is_before(&h(2)));
    assert!(!h(2).is_before(&h(2)));
    assert!(h(2).is_at_or_before(&h(2)));
}

#[test]
fn host_answers() {
    let ctx: Ctx<TestClient> = Ctx::new();
    assert_eq!(ctx.host_height(), Ok(Height { revision_number: 0, revision_height: 1 }));
    let t = ctx.host_timestamp().unwrap();
    assert!(t > 1_600_000_000_000_000_000);
}

#[test]
fn unix_nanos_are_clamped() {
    assert_eq!(timestamp_from_unix_nanos(-5), 0);
    assert_eq!(timestamp_from_unix_nanos(0), 0);
    assert_eq!(timestamp_from_unix_nanos(1_234), 1_234);
    assert_eq!(timestamp_from_unix_nanos(u64::MAX as i128 + 1), u64::MAX);
}

#[test]
fn tendermint_client_context_starts_empty() {
    let ctx: Ctx<Tendermintclient> = Ctx::new();
    let id = "07-tendermint-0".to_string();
    assert!(ctx.client_state(&id).is_err());
    assert_eq!(ctx.consensus_state_heights(&id), Ok(vec![]));
}
