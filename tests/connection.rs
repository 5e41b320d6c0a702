use laminar::address::SocketAddress;
use laminar::config::SocketConfig;
use laminar::net::connection::ActiveConnections;

fn address() -> SocketAddress {
    SocketAddress::v4(127, 0, 0, 1, 12345)
}

#[test]
fn connection_timed_out() {
    let mut connections = ActiveConnections::new();
    let config = SocketConfig::default();

    // add 10 clients at time zero
    for i in 0..10 {
        connections.get_or_insert_connection(SocketAddress::v4(127, 0, 0, 1, 1230 + i), &config, 0);
    }

    assert_eq!(connections.count(), 10);

    // 400 ms later, with a limit of 200 ms
    let timed_out_connections = connections.idle_connections(200, 400);

    assert_eq!(timed_out_connections.len(), 10);
}

#[test]
fn insert_connection() {
    let mut connections = ActiveConnections::new();
    let config = SocketConfig::default();

    connections.get_or_insert_connection(address(), &config, 0);
    assert!(connections.contains_connection(address()));
}

#[test]
fn insert_existing_connection() {
    let mut connections = ActiveConnections::new();
    let config = SocketConfig::default();

    connections.get_or_insert_connection(address(), &config, 0);
    assert!(connections.contains_connection(address()));
    connections.get_or_insert_connection(address(), &config, 0);
    assert!(connections.contains_connection(address()));
    assert_eq!(connections.count(), 1);
}

#[test]
fn remove_connection() {
    let mut connections = ActiveConnections::new();
    let config = SocketConfig::default();

    connections.get_or_insert_connection(address(), &config, 0);
    assert!(connections.contains_connection(address()));
    connections.remove_connection(address());
    assert!(!connections.contains_connection(address()));
}

#[test]
fn remove_non_existing_connection() {
    let mut connections = ActiveConnections::new();

    assert!(connections.remove_connection(address()).is_none());
    assert!(!connections.contains_connection(address()));
}

#[test]
fn idle_peers_time_out_once() {
    let mut connections = ActiveConnections::new();
    let config = SocketConfig::default();
    let peer = SocketAddress::v4(127, 0, 0, 1, 20000);
    let busy = SocketAddress::v4(127, 0, 0, 1, 20001);
    connections.get_or_insert_connection(peer, &config, 0);
    connections.get_or_insert_connection(busy, &config, 4000);

    assert!(connections.take_idle_connections(config.idle_connection_timeout(), 4999).is_empty());
    assert_eq!(connections.take_idle_connections(config.idle_connection_timeout(), 5000), vec![peer]);
    assert!(connections.take_idle_connections(config.idle_connection_timeout(), 5001).is_empty());
    assert!(connections.contains_connection(busy));
    assert!(!connections.contains_connection(peer));
}
