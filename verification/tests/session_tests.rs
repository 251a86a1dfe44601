use netcapture::directory::{AddressInfo, ConnectionStatus, DeviceFlags, InterfaceDescriptor};
use netcapture::session::{CaptureSession, SessionError};

fn descriptor(name: &str) -> InterfaceDescriptor {
    InterfaceDescriptor {
        name: name.to_string(),
        description: None,
        addresses: vec![AddressInfo {
            address: Some("192.168.1.2".to_string()),
            netmask: Some("255.255.255.0".to_string()),
            broadcast: None,
            point_to_point_dest: None,
        }],
        flags: DeviceFlags {
            loopback: false,
            up: true,
            running: true,
            wireless: false,
            connected: ConnectionStatus::Connected,
        },
    }
}

fn listing() -> Vec<InterfaceDescriptor> {
    vec![descriptor("eth0"), descriptor("wlan0"), descriptor("lo")]
}

#[test]
fn select_missing_device_fails() {
    let mut s = CaptureSession::new();
    let r = s.select_device("eth-missing".to_string(), &listing());
    assert_eq!(r.unwrap_err(), SessionError::DeviceNotFound);
    let r = s.prepare_start(&listing());
    assert_eq!(r.unwrap_err(), SessionError::NoDeviceSelected);
}

#[test]
fn select_listed_device_succeeds() {
    let mut s = CaptureSession::new();
    assert!(s.select_device("wlan0".to_string(), &listing()).is_ok());
    assert_eq!(s.selected, "wlan0");
    assert!(!s.active);
}

#[test]
fn stop_while_idle_or_ready_fails_without_fault() {
    let mut s = CaptureSession::new();
    assert_eq!(s.stop_capture().unwrap_err(), SessionError::NotCapturing);
    assert!(s.select_device("eth0".to_string(), &listing()).is_ok());
    assert_eq!(s.stop_capture().unwrap_err(), SessionError::NotCapturing);
    assert_eq!(s.selected, "eth0");
}

#[test]
fn start_while_capturing_fails_and_keeps_worker() {
    let mut s = CaptureSession::new();
    assert!(s.select_device("eth0".to_string(), &listing()).is_ok());
    let i = s.prepare_start(&listing()).unwrap();
    assert_eq!(listing()[i].name, "eth0");
    s.mark_started();
    let r = s.prepare_start(&listing());
    assert_eq!(r.unwrap_err(), SessionError::AlreadyCapturing);
    assert!(s.active);
    assert_eq!(s.selected, "eth0");
}

#[test]
fn start_without_selection_fails() {
    let s = CaptureSession::new();
    assert_eq!(s.prepare_start(&listing()).unwrap_err(), SessionError::NoDeviceSelected);
}

#[test]
fn start_after_device_disappeared_fails() {
    let mut s = CaptureSession::new();
    assert!(s.select_device("wlan0".to_string(), &listing()).is_ok());
    let shrunk = vec![descriptor("eth0"), descriptor("lo")];
    assert_eq!(s.prepare_start(&shrunk).unwrap_err(), SessionError::DeviceNotFound);
}

#[test]
fn full_lifecycle_and_repeated_stop() {
    let mut s = CaptureSession::new();
    assert!(s.select_device("eth0".to_string(), &listing()).is_ok());
    let i = s.prepare_start(&listing()).unwrap();
    assert_eq!(i, 0);
    s.mark_started();
    assert!(s.active);
    assert!(s.stop_capture().is_ok());
    assert!(!s.active);
    assert_eq!(s.selected, "eth0");
    assert_eq!(s.stop_capture().unwrap_err(), SessionError::NotCapturing);
    assert_eq!(s.stop_capture().unwrap_err(), SessionError::NotCapturing);
}

#[test]
fn select_while_capturing_changes_future_start_only() {
    let mut s = CaptureSession::new();
    assert!(s.select_device("eth0".to_string(), &listing()).is_ok());
    s.prepare_start(&listing()).unwrap();
    s.mark_started();
    assert!(s.select_device("wlan0".to_string(), &listing()).is_ok());
    assert!(s.active);
    assert_eq!(s.selected, "wlan0");
    assert!(s.stop_capture().is_ok());
    let i = s.prepare_start(&listing()).unwrap();
    assert_eq!(listing()[i].name, "wlan0");
}

#[test]
fn worker_fatal_end_clears_session() {
    let mut s = CaptureSession::new();
    assert!(s.select_device("lo".to_string(), &listing()).is_ok());
    s.prepare_start(&listing()).unwrap();
    s.mark_started();
    s.mark_worker_ended();
    assert!(!s.active);
    assert_eq!(s.stop_capture().unwrap_err(), SessionError::NotCapturing);
}
