use potato_stream::join_map::JoinMap;
use tokio::runtime::Runtime;
use tokio::task::{AbortHandle, Id};

fn spawn_pending(rt: &Runtime) -> (Id, AbortHandle) {
    let handle = rt.spawn(std::future::pending::<()>());
    (handle.id(), handle.abort_handle())
}

#[test]
fn join_gives_back_the_spawn_name() {
    let rt = Runtime::new().unwrap();
    let mut map = JoinMap::new();
    assert!(map.is_empty());
    let (id_a, h_a) = spawn_pending(&rt);
    let (id_b, h_b) = spawn_pending(&rt);
    let (old_name, old_handle) = map.record_spawn(id_a, "video_capture", h_a);
    assert!(old_name.is_none() && old_handle.is_none());
    let (old_name, old_handle) = map.record_spawn(id_b, "video_server", h_b);
    assert!(old_name.is_none() && old_handle.is_none());
    assert_eq!(map.len(), 2);
    assert_eq!(map.record_join(&id_b), Some("video_server".to_string()));
    assert_eq!(map.len(), 1);
    assert_eq!(map.record_join(&id_b), None);
    assert_eq!(map.record_join(&id_a), Some("video_capture".to_string()));
    assert!(map.is_empty());
}

#[test]
fn respawning_a_name_displaces_its_handle() {
    let rt = Runtime::new().unwrap();
    let mut map = JoinMap::new();
    let (id_a, h_a) = spawn_pending(&rt);
    let (id_b, h_b) = spawn_pending(&rt);
    map.record_spawn(id_a, "video_display", h_a);
    let (old_name, old_handle) = map.record_spawn(id_b, "video_display", h_b);
    assert!(old_name.is_none());
    assert_eq!(old_handle.map(|h| h.id()), Some(id_a));
    assert_eq!(map.len(), 2);
    assert_eq!(map.record_join(&id_a), Some("video_display".to_string()));
    assert_eq!(map.record_join(&id_b), Some("video_display".to_string()));
    assert!(map.is_empty());
}

#[test]
fn same_id_twice_displaces_its_name() {
    let rt = Runtime::new().unwrap();
    let mut map = JoinMap::new();
    let (id_a, h_a) = spawn_pending(&rt);
    let h_again = h_a.clone();
    map.record_spawn(id_a, "first", h_a);
    let (old_name, old_handle) = map.record_spawn(id_a, "second", h_again);
    assert_eq!(old_name, Some("first".to_string()));
    assert!(old_handle.is_none());
    assert_eq!(map.len(), 1);
    assert_eq!(map.record_join(&id_a), Some("second".to_string()));
}

#[test]
fn counts_follow_spawns_and_joins() {
    let rt = Runtime::new().unwrap();
    let mut map = JoinMap::new();
    let mut ids = Vec::new();
    for n in ["a", "b", "a", "c"] {
        let (id, h) = spawn_pending(&rt);
        map.record_spawn(id, n, h);
        ids.push(id);
        assert_eq!(map.len(), ids.len());
    }
    let mut left = ids.len();
    for id in ids.iter().rev() {
        assert!(map.record_join(id).is_some());
        left -= 1;
        assert_eq!(map.len(), left);
    }
    assert!(map.is_empty());
}
