use potato_stream::stream::advertise_stream::{advertise_stream, MetaValue, PeerMetadata};
use potato_stream::stream::find_stream::{advertises_stream, find_stream, PeerAdvert};

fn peer(key: &str, metadata: PeerMetadata) -> PeerAdvert {
    PeerAdvert { peer_key_string: key.to_string(), metadata }
}

#[test]
fn advertised_stream_is_found_by_its_name() {
    let m = advertise_stream("kitchen".to_string());
    assert_eq!(m.server_flag, MetaValue::Bool(true));
    assert_eq!(m.stream_name, MetaValue::Str("kitchen".to_string()));
    assert!(advertises_stream(&m, &"kitchen".to_string()));
    assert!(!advertises_stream(&m, &"garden".to_string()));
}

#[test]
fn flag_must_be_the_boolean_true() {
    let name = MetaValue::Str("s".to_string());
    for flag in [
        MetaValue::Absent,
        MetaValue::Bool(false),
        MetaValue::Str("true".to_string()),
        MetaValue::Other,
    ] {
        let m = PeerMetadata { server_flag: flag, stream_name: name.clone() };
        assert!(!advertises_stream(&m, &"s".to_string()));
    }
}

#[test]
fn missing_name_reads_as_empty() {
    let m = PeerMetadata { server_flag: MetaValue::Bool(true), stream_name: MetaValue::Absent };
    assert!(advertises_stream(&m, &String::new()));
    assert!(!advertises_stream(&m, &"x".to_string()));
    let n = PeerMetadata { server_flag: MetaValue::Bool(true), stream_name: MetaValue::Other };
    assert!(!advertises_stream(&n, &String::new()));
}

#[test]
fn search_settles_on_the_last_match() {
    let peers = vec![
        peer("a", advertise_stream("cam".to_string())),
        peer("b", advertise_stream("other".to_string())),
        peer("c", advertise_stream("cam".to_string())),
        peer("d", PeerMetadata { server_flag: MetaValue::Absent, stream_name: MetaValue::Absent }),
    ];
    assert_eq!(find_stream(&peers, &"cam".to_string()), Some(2));
    assert_eq!(find_stream(&peers, &"other".to_string()), Some(1));
    assert_eq!(find_stream(&peers, &"none".to_string()), None);
    assert_eq!(find_stream(&Vec::new(), &"cam".to_string()), None);
}
