use cf_tunnel::edge::{edge_addrs, srv_name, EdgeAddr, EdgeDiscovery, EdgeIp, SrvTarget};
use cf_tunnel::error::TunnelError;

#[test]
fn srv_names() {
    assert_eq!(srv_name(None), "_v2-origintunneld._tcp.argotunnel.com.");
    assert_eq!(srv_name(Some("us".to_string())), "_us-v2-origintunneld._tcp.argotunnel.com.");
}

#[test]
fn addresses_take_their_target_port() {
    let ts = vec![
        SrvTarget { port: 7844, ips: vec![EdgeIp::V4(1), EdgeIp::V4(2)] },
        SrvTarget { port: 443, ips: vec![] },
        SrvTarget { port: 8443, ips: vec![EdgeIp::V6(3)] },
    ];
    assert_eq!(
        edge_addrs(&ts),
        vec![
            EdgeAddr { ip: EdgeIp::V4(1), port: 7844 },
            EdgeAddr { ip: EdgeIp::V4(2), port: 7844 },
            EdgeAddr { ip: EdgeIp::V6(3), port: 8443 },
        ]
    );
}

#[test]
fn discovery_needs_an_address() {
    assert!(matches!(EdgeDiscovery::from_addrs(vec![]), Err(TunnelError::EdgeDiscoveryFailed)));
    let empty = vec![SrvTarget { port: 1, ips: vec![] }];
    assert!(matches!(EdgeDiscovery::from_targets(&empty), Err(TunnelError::EdgeDiscoveryFailed)));
}

#[test]
fn picks_a_known_address() {
    let addrs = vec![EdgeAddr { ip: EdgeIp::V4(10), port: 1 }, EdgeAddr { ip: EdgeIp::V4(11), port: 2 }];
    let d = EdgeDiscovery::from_addrs(addrs.clone()).unwrap();
    for _ in 0..20 {
        assert!(addrs.contains(&d.pick()));
    }
    assert_eq!(d.addrs(), &addrs);
}
