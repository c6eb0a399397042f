use sacn_viewer::net::{universe_to_multicast, IpAddress};

#[test]
fn multicast_group_of_universe_one() {
    assert_eq!(universe_to_multicast(1), IpAddress::V4(239, 255, 0, 1));
}

#[test]
fn multicast_group_of_universe_three_hundred() {
    assert_eq!(universe_to_multicast(300), IpAddress::V4(239, 255, 1, 44));
}
