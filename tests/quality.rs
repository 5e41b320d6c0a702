use laminar::address::SocketAddress;
use laminar::config::SocketConfig;
use laminar::net::quality::RttMeasurer;
use laminar::net::virtual_connection::VirtualConnection;
use laminar::sequence_buffer::CongestionData;
use std::time::Duration;

#[test]
fn test_create_connection() {
    let addr = SocketAddress::v4(127, 0, 0, 1, 20000);
    let new_conn = VirtualConnection::new(addr, &SocketConfig::default(), 0);
    assert_eq!(new_conn.remote_address(), addr);
}

#[test]
fn convert_duration_to_milliseconds_test() {
    let network_quality = RttMeasurer::new(&SocketConfig::default());
    let d1 = Duration::from_secs(1);
    let d2 = Duration::from_millis(1500);
    let d3 = Duration::from_millis(1671);
    let milliseconds1 = network_quality.as_milliseconds(d1.as_secs(), d1.subsec_nanos());
    let milliseconds2 = network_quality.as_milliseconds(d2.as_secs(), d2.subsec_nanos());
    let milliseconds3 = network_quality.as_milliseconds(d3.as_secs(), d3.subsec_nanos());

    assert_eq!(milliseconds1, 1000);
    assert_eq!(milliseconds2, 1500);
    assert_eq!(milliseconds3, 1671);
}

#[test]
fn smooth_out_rtt() {
    let config = SocketConfig::default();

    let network_quality = RttMeasurer::new(&config);
    // in hundredths of a millisecond
    let smoothed_rtt = network_quality.smooth_out_rtt(300) as f64 / 100.0;

    // 300ms has exceeded 50ms over the max allowed rtt. So we check if or smoothing factor is now 10% from 50.
    assert_eq!(smoothed_rtt, 5.0);
}

#[test]
fn rtt_of_a_sample_and_of_none() {
    let measurer = RttMeasurer::new(&SocketConfig::default());
    assert_eq!(measurer.get_rtt(None, 1000), 0);
    let sample = CongestionData::new(4, 1000);
    // 100 ms round trip, 150 ms under the limit, weighted by 10 percent
    assert_eq!(measurer.get_rtt(Some(sample), 1100), -1500);
}
