use potato_stream::utils::{
    needs_mesh_shaping, shape_mesh, MeshError, ParsedSocketAddr, SocketAddrText,
};

fn good(text: &str, ip: &str, port: u16) -> SocketAddrText {
    SocketAddrText {
        text: text.to_string(),
        parsed: Some(ParsedSocketAddr { ip: ip.to_string(), port }),
    }
}

fn bad(text: &str) -> SocketAddrText {
    SocketAddrText { text: text.to_string(), parsed: None }
}

#[test]
fn mesh_is_shaped_only_when_an_address_is_given() {
    assert!(!needs_mesh_shaping(0, false));
    assert!(needs_mesh_shaping(1, false));
    assert!(needs_mesh_shaping(0, true));
}

#[test]
fn mesh_config_from_valid_addresses() {
    let connect = vec![
        good("10.0.0.1:4040", "10.0.0.1", 4040),
        good("10.0.0.2:4040", "10.0.0.2", 4040),
        good("10.0.0.1:4040", "10.0.0.1", 4040),
    ];
    let listen = Some(good("0.0.0.0:4041", "0.0.0.0", 4041));
    let cfg = shape_mesh(&connect, &listen).unwrap();
    assert!(cfg.lan_enabled);
    assert!(!cfg.mdns_enabled);
    assert!(!cfg.multicast_enabled);
    assert_eq!(cfg.tcp_servers, vec!["10.0.0.1:4040".to_string(), "10.0.0.2:4040".to_string()]);
    assert_eq!(
        cfg.listen_tcp,
        Some(ParsedSocketAddr { ip: "0.0.0.0".to_string(), port: 4041 })
    );
}

#[test]
fn mesh_config_without_listen() {
    let cfg = shape_mesh(&vec![good("[::1]:80", "::1", 80)], &None).unwrap();
    assert_eq!(cfg.tcp_servers, vec!["[::1]:80".to_string()]);
    assert_eq!(cfg.listen_tcp, None);
}

#[test]
fn first_bad_connect_address_is_reported() {
    let connect = vec![good("1.2.3.4:5", "1.2.3.4", 5), bad("nope"), bad("also-bad")];
    let listen = Some(bad("bad-listen"));
    assert_eq!(shape_mesh(&connect, &listen), Err(MeshError::InvalidConnectAddr(1)));
}

#[test]
fn bad_listen_address_is_reported() {
    let connect = vec![good("1.2.3.4:5", "1.2.3.4", 5)];
    assert_eq!(shape_mesh(&connect, &Some(bad("localhost"))), Err(MeshError::InvalidListenAddr));
}
