use traceroute::{IpAddress, Sockaddr, SockaddrIn, SockaddrIn6, SockaddrInx};

const IPV4_BIG_ENDIAN: u32 = 16_777_343;
const IPV6_BIG_ENDIAN: [u8; 16] = [0, 0, 0, 0, 0, 0, 0, 0, 0, 0, 0, 0, 0, 0, 0, 1];

const IPV4_ADDR: [u8; 4] = [127, 0, 0, 1];
const IPV6_ADDR: [u8; 16] = [0, 0, 0, 0, 0, 0, 0, 0, 0, 0, 0, 0, 0, 0, 0, 1];

#[test]
fn from_to_ipv4_addr() {
    assert_eq!(
        SockaddrInx::from_ip_addr(IpAddress::V4(IPV4_ADDR)).to_ip_addr(),
        IpAddress::V4(IPV4_ADDR),
    );
}

#[test]
fn from_to_ipv6_addr() {
    assert_eq!(
        SockaddrInx::from_ip_addr(IpAddress::V6(IPV6_ADDR)).to_ip_addr(),
        IpAddress::V6(IPV6_ADDR),
    );
}

#[test]
fn from_ipv4_addr() {
    match SockaddrInx::from_ip_addr(IpAddress::V4(IPV4_ADDR)) {
        SockaddrInx::V6(_) => panic!(),
        SockaddrInx::V4(sockaddr_in) => {
            assert_eq!(sockaddr_in.sin_family, libc::AF_INET as libc::sa_family_t);
            assert_eq!(sockaddr_in.sin_port, 0);
            assert_eq!(sockaddr_in.s_addr, IPV4_BIG_ENDIAN);
            assert_eq!(sockaddr_in.sin_zero, [0; 8]);
        }
    }
}

#[test]
fn from_ipv6_addr() {
    match SockaddrInx::from_ip_addr(IpAddress::V6(IPV6_ADDR)) {
        SockaddrInx::V4(_) => panic!(),
        SockaddrInx::V6(sockaddr_in6) => {
            assert_eq!(sockaddr_in6.sin6_family, libc::AF_INET6 as libc::sa_family_t);
            assert_eq!(sockaddr_in6.sin6_port, 0);
            assert_eq!(sockaddr_in6.sin6_flowinfo, 0);
            assert_eq!(sockaddr_in6.s6_addr, IPV6_ADDR);
            assert_eq!(sockaddr_in6.sin6_scope_id, 0);
        }
    }
}

#[test]
fn to_ipv4_addr() {
    let sockaddr_inx = SockaddrInx::V4(SockaddrIn {
        sin_family: libc::AF_INET as libc::sa_family_t,
        sin_port: 0,
        s_addr: IPV4_BIG_ENDIAN,
        sin_zero: [0; 8],
    });

    match sockaddr_inx.to_ip_addr() {
        IpAddress::V6(_) => panic!(),
        IpAddress::V4(ipv4_addr) => assert_eq!(ipv4_addr, IPV4_ADDR),
    }
}

#[test]
fn to_ipv6_addr() {
    let sockaddr_inx = SockaddrInx::V6(SockaddrIn6 {
        sin6_family: libc::AF_INET6 as libc::sa_family_t,
        sin6_port: 0,
        sin6_flowinfo: 0,
        s6_addr: IPV6_BIG_ENDIAN,
        sin6_scope_id: 0,
    });

    match sockaddr_inx.to_ip_addr() {
        IpAddress::V4(_) => panic!(),
        IpAddress::V6(ipv6_addr) => assert_eq!(ipv6_addr, IPV6_ADDR),
    }
}

#[test]
fn address_round_trips() {
    let v4s = [[0u8, 0, 0, 0], [255, 255, 255, 255], [10, 1, 2, 3], [192, 168, 0, 254]];
    for octets in v4s {
        let ip = IpAddress::V4(octets);
        let native = SockaddrInx::from_ip_addr(ip);
        assert_eq!(native.to_ip_addr(), ip);
        assert_eq!(SockaddrInx::from_ip_addr(native.to_ip_addr()), native);
    }
    let mut v6 = [0u8; 16];
    for (i, b) in v6.iter_mut().enumerate() {
        *b = (i as u8).wrapping_mul(37).wrapping_add(200);
    }
    for octets in [[0u8; 16], [0xFF; 16], v6] {
        let ip = IpAddress::V6(octets);
        let native = SockaddrInx::from_ip_addr(ip);
        assert_eq!(native.to_ip_addr(), ip);
        assert_eq!(SockaddrInx::from_ip_addr(native.to_ip_addr()), native);
    }
}

#[test]
fn ipv4_address_field_has_network_order_bytes() {
    let native = SockaddrInx::from_ip_addr(IpAddress::V4([192, 168, 1, 2]));
    match native {
        SockaddrInx::V4(s) => assert_eq!(s.s_addr.to_le_bytes(), [192, 168, 1, 2]),
        SockaddrInx::V6(_) => panic!(),
    }
}

#[test]
fn from_sockaddr_reads_ipv4() {
    let sockaddr = Sockaddr {
        sa_family: libc::AF_INET as u16,
        sa_data: vec![0x12, 0x34, 10, 20, 30, 40, 0, 0, 0, 0, 0, 0, 0, 0],
    };
    let native = SockaddrInx::from_sockaddr(&sockaddr).unwrap();
    assert_eq!(
        native,
        SockaddrInx::V4(SockaddrIn {
            sin_family: libc::AF_INET as u16,
            sin_port: 0x3412,
            s_addr: u32::from_le_bytes([10, 20, 30, 40]),
            sin_zero: [0; 8],
        })
    );
    assert_eq!(native.to_ip_addr(), IpAddress::V4([10, 20, 30, 40]));
}

#[test]
fn from_sockaddr_reads_ipv6() {
    let mut data = vec![0u8; 26];
    data[2..6].copy_from_slice(&[1, 0, 0, 0]);
    data[6..22].copy_from_slice(&[0x20, 0x01, 0x0d, 0xb8, 0, 0, 0, 0, 0, 0, 0, 0, 0, 0, 0, 9]);
    data[22..26].copy_from_slice(&[3, 0, 0, 0]);
    let sockaddr = Sockaddr { sa_family: libc::AF_INET6 as u16, sa_data: data };
    let native = SockaddrInx::from_sockaddr(&sockaddr).unwrap();
    assert_eq!(
        native,
        SockaddrInx::V6(SockaddrIn6 {
            sin6_family: libc::AF_INET6 as u16,
            sin6_port: 0,
            sin6_flowinfo: 1,
            s6_addr: [0x20, 0x01, 0x0d, 0xb8, 0, 0, 0, 0, 0, 0, 0, 0, 0, 0, 0, 9],
            sin6_scope_id: 3,
        })
    );
}

#[test]
fn from_sockaddr_rejects_other_families_and_short_data() {
    let unix = Sockaddr { sa_family: libc::AF_UNIX as u16, sa_data: vec![0; 26] };
    assert!(SockaddrInx::from_sockaddr(&unix).is_none());
    let short4 = Sockaddr { sa_family: libc::AF_INET as u16, sa_data: vec![0; 13] };
    assert!(SockaddrInx::from_sockaddr(&short4).is_none());
    let short6 = Sockaddr { sa_family: libc::AF_INET6 as u16, sa_data: vec![0; 25] };
    assert!(SockaddrInx::from_sockaddr(&short6).is_none());
}

#[test]
fn bare_native_round_trips_through_sockaddr_bytes() {
    let native = SockaddrInx::from_ip_addr(IpAddress::V4([8, 8, 4, 4]));
    let sockaddr = Sockaddr {
        sa_family: libc::AF_INET as u16,
        sa_data: vec![0, 0, 8, 8, 4, 4, 0, 0, 0, 0, 0, 0, 0, 0],
    };
    assert_eq!(SockaddrInx::from_sockaddr(&sockaddr), Some(native));
}

#[test]
fn socklen_is_the_kernel_struct_size() {
    let v4 = SockaddrInx::from_ip_addr(IpAddress::V4(IPV4_ADDR));
    let v6 = SockaddrInx::from_ip_addr(IpAddress::V6(IPV6_ADDR));
    assert_eq!(v4.socklen(), 16);
    assert_eq!(v6.socklen(), 28);
    assert_eq!(v4.socklen() as usize, std::mem::size_of::<libc::sockaddr_in>());
    assert_eq!(v6.socklen() as usize, std::mem::size_of::<libc::sockaddr_in6>());
}
