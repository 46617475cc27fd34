use ecodex::json_serde::serialize_json;
use ecodex::monitor_registry::{handle_kill, handle_list, MonitorEntry, MonitorRegistry};

fn entry(handle: u32, pattern: &str) -> MonitorEntry<u32> {
    MonitorEntry {
        handle,
        command: vec!["tail".to_string(), "-f".to_string(), "log".to_string()],
        pattern: pattern.to_string(),
        persistent: false,
    }
}

#[test]
fn kill_removes_once_and_hands_back_the_handle() {
    let mut r: MonitorRegistry<u32> = MonitorRegistry::new();
    assert_eq!(r.len(), 0);
    assert!(r.insert("m1".to_string(), entry(7, "ERROR")).is_none());
    assert!(r.insert("m2".to_string(), entry(8, "WARN")).is_none());
    assert_eq!(r.len(), 2);
    assert!(r.contains("m1"));
    assert_eq!(r.kill("m1"), Some(7));
    assert_eq!(r.kill("m1"), None);
    assert!(!r.contains("m1"));
    assert!(r.contains("m2"));
    assert_eq!(r.len(), 1);
}

#[test]
fn insert_under_an_armed_id_replaces_it() {
    let mut r: MonitorRegistry<u32> = MonitorRegistry::new();
    r.insert("m".to_string(), entry(1, "a"));
    assert_eq!(r.insert("m".to_string(), entry(2, "b")), Some(1));
    assert_eq!(r.len(), 1);
    let infos = r.infos();
    assert_eq!(infos.len(), 1);
    assert_eq!(infos[0].monitor_id, "m");
    assert_eq!(infos[0].pattern, "b");
    assert_eq!(infos[0].command, vec!["tail", "-f", "log"]);
    assert_eq!(r.kill("m"), Some(2));
}

#[test]
fn drain_hands_back_every_handle() {
    let mut r: MonitorRegistry<u32> = MonitorRegistry::new();
    r.insert("a".to_string(), entry(1, "x"));
    r.insert("b".to_string(), entry(2, "y"));
    r.insert("c".to_string(), entry(3, "z"));
    let mut handles = r.drain();
    handles.sort();
    assert_eq!(handles, vec![1, 2, 3]);
    assert_eq!(r.len(), 0);
    assert!(r.infos().is_empty());
}

#[test]
fn kill_and_list_actions_answer_in_json() {
    let mut r: MonitorRegistry<u32> = MonitorRegistry::new();
    r.insert("m1".to_string(), entry(5, "ERROR"));
    let listed = serialize_json(&handle_list(&r)).unwrap();
    assert_eq!(
        listed,
        r#"{"count":1,"monitors":[{"command":["tail","-f","log"],"monitor_id":"m1","pattern":"ERROR","persistent":false}],"ok":true}"#
    );
    let (reply, handle) = handle_kill(&mut r, "m1");
    assert_eq!(handle, Some(5));
    assert_eq!(serialize_json(&reply).unwrap(), r#"{"killed":true,"monitor_id":"m1","ok":true}"#);
    let (reply, handle) = handle_kill(&mut r, "m1");
    assert_eq!(handle, None);
    assert_eq!(serialize_json(&reply).unwrap(), r#"{"killed":false,"monitor_id":"m1","ok":true}"#);
    assert_eq!(serialize_json(&handle_list(&r)).unwrap(), r#"{"count":0,"monitors":[],"ok":true}"#);
}
