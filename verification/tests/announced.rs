use vhost_user_net::abi::{
    classify_tap_read, features, offload_flags, protocol_features, readable_events, vnet_hdr_len,
    TapRead,
};

#[test]
fn features_are_the_offered_bits() {
    let bits = [0u64, 1, 7, 10, 11, 14, 30, 32];
    let mut word: u64 = 0;
    for b in bits {
        word |= 1u64 << b;
    }
    assert_eq!(features(), word);
    assert_eq!(features(), 0x1_4000_4c83);
}

#[test]
fn ipv6_segmentation_and_event_index_are_not_offered() {
    assert_eq!(features() & (1u64 << 8), 0);
    assert_eq!(features() & (1u64 << 12), 0);
    assert_eq!(features() & (1u64 << 29), 0);
}

#[test]
fn protocol_features_are_the_seventeen_declared() {
    assert_eq!(protocol_features(), 0x1_ffff);
}

#[test]
fn offloads_cover_checksums_udp_and_tcp_over_ipv4() {
    assert_eq!(offload_flags(), 0x13);
}

#[test]
fn offloads_match_the_features() {
    let pairs = [(0u32, 1u64), (1, 7), (2, 8), (3, 9), (4, 10)];
    for (flag, bit) in pairs {
        assert_eq!((offload_flags() >> flag) & 1 == 1, (features() >> bit) & 1 == 1);
    }
}

#[test]
fn header_and_event_set() {
    assert_eq!(vnet_hdr_len(), 12);
    assert_eq!(readable_events(), 1);
}

#[test]
fn tap_reads_are_told_apart() {
    assert_eq!(classify_tap_read(Ok(60)), TapRead::Frame(60));
    assert_eq!(classify_tap_read(Ok(0)), TapRead::Frame(0));
    assert_eq!(classify_tap_read(Err(Some(11))), TapRead::Empty);
    assert_eq!(classify_tap_read(Err(Some(5))), TapRead::Failed);
    assert_eq!(classify_tap_read(Err(None)), TapRead::Failed);
}
