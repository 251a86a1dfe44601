use netcapture::directory::{
    find_device, list_interfaces, AddressInfo, ConnectionStatus, DeviceFlags, DirectoryError,
    InterfaceDescriptor,
};

fn descriptor(name: &str) -> InterfaceDescriptor {
    InterfaceDescriptor {
        name: name.to_string(),
        description: Some("test interface".to_string()),
        addresses: vec![AddressInfo {
            address: Some("10.0.0.1".to_string()),
            netmask: None,
            broadcast: Some("10.0.0.255".to_string()),
            point_to_point_dest: None,
        }],
        flags: DeviceFlags {
            loopback: false,
            up: true,
            running: false,
            wireless: true,
            connected: ConnectionStatus::Unknown,
        },
    }
}

#[test]
fn empty_query_is_an_empty_listing_not_an_error() {
    let r = list_interfaces(Ok(Vec::new()));
    assert!(r.unwrap().is_empty());
}

#[test]
fn successful_query_passes_the_list_through() {
    let r = list_interfaces(Ok(vec![descriptor("eth0"), descriptor("lo")]));
    let v = r.unwrap();
    assert_eq!(v.len(), 2);
    assert_eq!(v[0].name, "eth0");
    assert_eq!(v[1].name, "lo");
}

#[test]
fn failed_query_reports_the_reason() {
    let r = list_interfaces(Err("permission denied".to_string()));
    let DirectoryError::QueryFailed(reason) = r.unwrap_err();
    assert_eq!(reason, "permission denied");
}

#[test]
fn find_device_locates_by_name() {
    let devs = vec![descriptor("eth0"), descriptor("wlan0")];
    assert_eq!(find_device(&devs, &"wlan0".to_string()), Some(1));
    assert_eq!(find_device(&devs, &"eth0".to_string()), Some(0));
    assert_eq!(find_device(&devs, &"eth-missing".to_string()), None);
    assert_eq!(find_device(&Vec::new(), &"eth0".to_string()), None);
}
