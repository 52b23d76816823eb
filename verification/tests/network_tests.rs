use heaven::network::{
    ipv4_string, is_private_ipv4, local_url_line, network_url_lines, InterfaceAddr, SERVER_PORT,
};

#[test]
fn private_ranges() {
    assert!(is_private_ipv4(10, 0, 0, 1));
    assert!(is_private_ipv4(10, 255, 255, 255));
    assert!(is_private_ipv4(172, 16, 0, 1));
    assert!(is_private_ipv4(172, 31, 255, 255));
    assert!(!is_private_ipv4(172, 32, 0, 1));
    assert!(!is_private_ipv4(172, 15, 0, 1));
    assert!(is_private_ipv4(192, 168, 1, 1));
    assert!(!is_private_ipv4(192, 169, 1, 1));
    assert!(!is_private_ipv4(8, 8, 8, 8));
    assert!(!is_private_ipv4(127, 0, 0, 1));
}

#[test]
fn dotted_decimal() {
    assert_eq!(ipv4_string(192, 168, 0, 12), "192.168.0.12");
    assert_eq!(ipv4_string(0, 0, 0, 0), "0.0.0.0");
    assert_eq!(ipv4_string(255, 10, 1, 100), "255.10.1.100");
    assert_eq!(ipv4_string(172, 20, 3, 9), "172.20.3.9");
}

#[test]
fn local_line() {
    assert_eq!(SERVER_PORT, 4000);
    assert_eq!(local_url_line(SERVER_PORT), "  > Local:    http://127.0.0.1:4000/");
}

#[test]
fn network_lines_for_private_v4_only() {
    let addrs = vec![
        InterfaceAddr::V4(127, 0, 0, 1),
        InterfaceAddr::V4(192, 168, 1, 20),
        InterfaceAddr::V6,
        InterfaceAddr::V4(8, 8, 8, 8),
        InterfaceAddr::V4(10, 0, 0, 5),
    ];
    assert_eq!(
        network_url_lines(&addrs, 4000),
        vec![
            "  > Network:  http://192.168.1.20:4000/".to_string(),
            "  > Network:  http://10.0.0.5:4000/".to_string(),
        ]
    );
    assert_eq!(network_url_lines(&Vec::new(), 4000), Vec::<String>::new());
}
