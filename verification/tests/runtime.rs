use nl_kdapp::episode::EPISODE_TTL_SECONDS;
use nl_kdapp::fanout::EpisodeEvent as HubEvent;
use nl_kdapp::registry::EpisodeEvent;
use nl_kdapp::storage::EpisodeStorage as _;
use nl_kdapp::{
    ApiError, EphemeralStorage, EpisodeManager, EpisodeMetadata, EventHub, Manager,
    PersistentStorage, SessionToken,
};

#[test]
fn test_metadata_expiry() {
    let meta = EpisodeMetadata::new(
        "ep1".to_string(),
        "tictactoe".to_string(),
        "sess".to_string(),
        1_000,
    );
    assert_eq!(meta.created_at, 1_000);
    assert_eq!(meta.expires_at, 1_000 + EPISODE_TTL_SECONDS);
    assert_eq!(meta.participant_count, 0);
    assert!(meta.is_ephemeral);
    assert!(!meta.is_expired(1_000));
    assert!(!meta.is_expired(1_000 + EPISODE_TTL_SECONDS - 1));
    assert!(meta.is_expired(1_000 + EPISODE_TTL_SECONDS + 1));
    assert_eq!(meta.remaining_seconds(1_000), EPISODE_TTL_SECONDS as i64);
    assert_eq!(
        meta.remaining_seconds(2_000 + EPISODE_TTL_SECONDS),
        -1_000
    );
}

#[test]
fn test_storage_round_trip() {
    let mut storage = EphemeralStorage::new();
    storage.save_state("a", &[1, 2, 3]).unwrap();
    storage.save_state("b", &[4]).unwrap();
    assert_eq!(storage.load_state("a").unwrap(), Some(vec![1, 2, 3]));
    storage.save_state("a", &[9]).unwrap();
    assert_eq!(storage.load_state("a").unwrap(), Some(vec![9]));
    let mut ids = storage.list_episodes().unwrap();
    ids.sort();
    assert_eq!(ids, vec!["a".to_string(), "b".to_string()]);
    storage.delete_state("a").unwrap();
    assert_eq!(storage.load_state("a").unwrap(), None);
    // deleting an absent id is no error
    storage.delete_state("a").unwrap();
    let _ = PersistentStorage::new("/tmp/episodes");
}

#[test]
fn test_registry_create_and_duplicate() {
    let mut manager = EpisodeManager::with_storage(EphemeralStorage::new());
    let meta = manager
        .create_episode("tictactoe", "e1".to_string(), "sess".to_string(), 500)
        .unwrap();
    assert_eq!(meta.id, "e1");
    assert_eq!(meta.episode_type, "tictactoe");
    assert_eq!(meta.creator_session, "sess");
    // two creates never collide on an id
    assert_eq!(
        manager
            .create_episode("tictactoe", "e1".to_string(), "other".to_string(), 600)
            .err(),
        Some(ApiError::CreationDenied)
    );
    assert!(manager.get_episode("e1").unwrap().is_some());
    assert!(manager.get_episode("ghost").unwrap().is_none());
    assert_eq!(manager.list_episodes().unwrap().len(), 1);
}

#[test]
fn test_command_appends_state_and_persists() {
    let mut manager = EpisodeManager::with_storage(EphemeralStorage::new());
    manager
        .create_episode("tictactoe", "e1".to_string(), "sess".to_string(), 500)
        .unwrap();
    manager.execute_command("e1", vec![7, 8], 600).unwrap();
    manager.execute_command("e1", vec![9], 700).unwrap();
    let events = manager.take_events();
    assert_eq!(events.len(), 2);
    match &events[1] {
        EpisodeEvent::StateUpdate { episode_id, state } => {
            assert_eq!(episode_id, "e1");
            assert_eq!(state, &vec![7, 8, 9]);
        }
        _ => panic!("expected a state update"),
    }
    assert!(manager.take_events().is_empty());
}

#[test]
fn test_command_rejection_leaves_state_untouched() {
    let mut manager = EpisodeManager::with_storage(EphemeralStorage::new());
    manager
        .create_episode("tictactoe", "e1".to_string(), "sess".to_string(), 500)
        .unwrap();
    manager.execute_command("e1", vec![1], 600).unwrap();
    // the inner execution capability rejects a command
    assert_eq!(
        manager.apply_execution_outcome("e1", Err(ApiError::ExecutionFailed)),
        Err(ApiError::ExecutionFailed)
    );
    // the prior state is still reported
    manager.execute_command("e1", vec![2], 700).unwrap();
    let events = manager.take_events();
    match events.last().unwrap() {
        EpisodeEvent::StateUpdate { state, .. } => assert_eq!(state, &vec![1, 2]),
        _ => panic!("expected a state update"),
    }
}

#[test]
fn test_commands_on_unknown_and_expired_episodes() {
    let mut manager = EpisodeManager::with_storage(EphemeralStorage::new());
    manager
        .create_episode("tictactoe", "e1".to_string(), "sess".to_string(), 500)
        .unwrap();
    assert_eq!(
        manager.execute_command("ghost", vec![1], 600),
        Err(ApiError::NotFound)
    );
    assert_eq!(
        manager.execute_command("e1", vec![1], 501 + EPISODE_TTL_SECONDS),
        Err(ApiError::Expired)
    );
}

#[test]
fn test_sweep_removes_exactly_the_expired() {
    let mut manager = EpisodeManager::with_storage(EphemeralStorage::new());
    manager
        .create_episode("tictactoe", "old".to_string(), "sess".to_string(), 0)
        .unwrap();
    manager
        .create_episode("tictactoe", "young".to_string(), "sess".to_string(), 10_000)
        .unwrap();
    // at this instant only "old" is past its lifetime
    let removed = manager.cleanup_expired(EPISODE_TTL_SECONDS + 5_000).unwrap();
    assert_eq!(removed, 1);
    assert!(manager.get_episode("old").unwrap().is_none());
    assert!(manager.get_episode("young").unwrap().is_some());
    // sweeping again removes nothing
    assert_eq!(manager.cleanup_expired(EPISODE_TTL_SECONDS + 5_000).unwrap(), 0);
}

#[test]
fn test_fanout_isolation() {
    let mut hub = EventHub::new(8);
    let a = hub.subscribe();
    let b = hub.subscribe();
    hub.publish_state("e1", vec![1]);
    // both independent subscribers observe the publish
    for h in [a, b] {
        match hub.recv(h) {
            Some(HubEvent::StateUpdate { episode_id, state }) => {
                assert_eq!(episode_id, "e1");
                assert_eq!(state, vec![1]);
            }
            _ => panic!("expected a state update"),
        }
    }
    // closing one channel does not affect delivery to the other
    hub.unsubscribe(a);
    hub.publish_state("e1", vec![2]);
    assert!(matches!(
        hub.recv(b),
        Some(HubEvent::StateUpdate { .. })
    ));
    assert!(hub.recv(b).is_none());
    // a publish with zero subscribers is not an error
    hub.unsubscribe(b);
    hub.publish_state("e1", vec![3]);
    // the side cache serves the latest state to late subscribers
    assert_eq!(hub.get_episode_state("e1"), Some(vec![3]));
    assert_eq!(hub.get_episode_state("ghost"), None);
}

#[test]
fn test_fanout_drops_oldest_when_full() {
    let mut hub = EventHub::new(2);
    let a = hub.subscribe();
    hub.publish_state("e", vec![1]);
    hub.publish_state("e", vec![2]);
    hub.publish_state("e", vec![3]);
    // the queue held two; the oldest was displaced, never the publisher blocked
    match hub.recv(a) {
        Some(HubEvent::StateUpdate { state, .. }) => assert_eq!(state, vec![2]),
        _ => panic!("expected a state update"),
    }
    match hub.recv(a) {
        Some(HubEvent::StateUpdate { state, .. }) => assert_eq!(state, vec![3]),
        _ => panic!("expected a state update"),
    }
    assert!(hub.recv(a).is_none());
}

#[test]
fn test_end_to_end_scenario() {
    let now = 1_000;
    let mut manager = EpisodeManager::with_storage(EphemeralStorage::new());
    let mut hub = EventHub::new(16);

    // create episode "tictactoe-1"
    let meta = manager
        .create_episode(
            "tictactoe",
            "tictactoe-1".to_string(),
            "sess".to_string(),
            now,
        )
        .unwrap();
    assert_eq!(meta.participant_count, 0);
    assert_eq!(meta.expires_at, meta.created_at + 259_200);

    // a subscriber connects before the submission
    let sub = hub.subscribe();

    // submit a valid move command
    manager.execute_command("tictactoe-1", vec![4], now + 10).unwrap();

    // the registry persisted the new state and emitted one update, which the
    // fan-out delivers to the subscriber
    let events = manager.take_events();
    assert_eq!(events.len(), 1);
    match &events[0] {
        EpisodeEvent::StateUpdate { episode_id, state } => {
            hub.publish_state(episode_id.as_str(), state.clone());
        }
        _ => panic!("expected a state update"),
    }
    match hub.recv(sub) {
        Some(HubEvent::StateUpdate { episode_id, state }) => {
            assert_eq!(episode_id, "tictactoe-1");
            assert_eq!(state, vec![4]);
        }
        _ => panic!("expected a state update"),
    }
    assert!(hub.recv(sub).is_none());

    // a command against a non-existent id reports NotFound
    assert_eq!(
        manager.execute_command("ghost", vec![1], now + 20),
        Err(ApiError::NotFound)
    );
}

#[test]
fn test_sessions() {
    let mut sessions = Manager::new();
    let token: SessionToken = sessions.create_session(1_000).unwrap();
    let _ = token;
    assert!(sessions.get_session("missing").is_none());
    assert_eq!(
        sessions.add_episode_to_session("missing", "e1".to_string()),
        Err(ApiError::NotFound)
    );
    // sessions expire after a day
    sessions.cleanup_expired(1_000 + 86_400);
    let _ = SessionToken::create("any", 2_000).unwrap();
}
