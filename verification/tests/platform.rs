use rystemd::manager::socket::{
    bind_listen_datagram, bind_listen_netlink, bind_listen_sequential_packet, bind_listen_stream,
    netlink_family, Listen,
};
use rystemd::platform::mount::{split_options, MountFlag};
use rystemd::platform::udev::{
    device_from_sysfs_dir, parse_key_values, parse_uevent, Device, UEventAction,
};

// ---- devices --------------------------------------------------------------------

fn dev(devpath: &str, subsystem: &str, devname: &str) -> Device {
    Device {
        devpath: devpath.to_string(),
        subsystem: subsystem.to_string(),
        devname: devname.to_string(),
        devtype: String::new(),
    }
}

#[test]
fn sysfs_unit_name_maps_path_to_dashes() {
    let d = dev("devices/virtual/net/lo", "net", "lo");
    assert_eq!(d.sysfs_unit_name(), "sys-devices-virtual-net-lo.device");
}

#[test]
fn subsystem_unit_name_uses_devname_when_present() {
    let d = dev("devices/pci0000:00/block/sda", "block", "sda");
    assert_eq!(d.subsystem_unit_name(), "sys-block-sda.device");
}

#[test]
fn subsystem_unit_name_falls_back_to_sysname() {
    // Network interfaces have no /dev node: DEVNAME is empty.
    let d = dev("devices/virtual/net/lo", "net", "");
    assert_eq!(d.subsystem_unit_name(), "sys-net-lo.device");
}

#[test]
fn parse_uevent_decodes_add_and_remove() {
    let add = b"add@/devices/virtual/net/lo\0ACTION=add\0DEVPATH=/devices/virtual/net/lo\0SUBSYSTEM=net\0INTERFACE=lo\0".to_vec();
    let (action, device) = parse_uevent(&add).unwrap();
    assert_eq!(action, UEventAction::Add);
    assert_eq!(device.devpath, "devices/virtual/net/lo");
    assert_eq!(device.subsystem, "net");

    let rm = b"remove@/devices/virtual/net/lo\0ACTION=remove\0SUBSYSTEM=net\0INTERFACE=lo\0".to_vec();
    let (action, _) = parse_uevent(&rm).unwrap();
    assert_eq!(action, UEventAction::Remove);
}

#[test]
fn parse_uevent_rejects_subsystemless_message() {
    let m = b"add@/devices/system/cpu/cpu0\0ACTION=add\0".to_vec();
    assert!(parse_uevent(&m).is_none());
}

#[test]
fn messages_that_are_no_text_are_read_as_far_as_they_are() {
    let mut m = b"bind@//devices/x\0SUBSYSTEM=usb\0DEVTYPE=".to_vec();
    m.push(0xff);
    let (action, device) = parse_uevent(&m).unwrap();
    assert_eq!(action, UEventAction::Other);
    assert_eq!(device.devpath, "devices/x");
    assert_eq!(device.devtype, "\u{fffd}");
    assert!(parse_uevent(&b"no header".to_vec()).is_none());
}

#[test]
fn the_last_value_of_a_key_counts() {
    let t = parse_key_values("A=1\nB=x=y\nno pair\nA=2\n");
    assert_eq!(t.get("A").map(String::as_str), Some("2"));
    assert_eq!(t.get("B").map(String::as_str), Some("x=y"));
    assert_eq!(t.len(), 2);
}

#[test]
fn devices_come_from_sysfs() {
    let uevent = Some("DEVNAME=sda\nDEVTYPE=disk\nSUBSYSTEM=other\n".to_string());
    let link = Some("../../../class/block".to_string());
    let d = device_from_sysfs_dir("/sys/devices/pci0/block/sda", &uevent, &link).unwrap();
    assert_eq!(d.devpath, "devices/pci0/block/sda");
    assert_eq!(d.subsystem, "block");
    assert_eq!(d.devname, "sda");
    assert_eq!(d.devtype, "disk");
    assert_eq!(d.sysname(), "sda");
    assert_eq!(
        d.unit_names(),
        ["sys-devices-pci0-block-sda.device", "sys-block-sda.device"]
    );
    let d = device_from_sysfs_dir("/sys/devices/x", &uevent, &None).unwrap();
    assert_eq!(d.subsystem, "other");
    assert!(device_from_sysfs_dir("/sys/devices/x", &Some("A=b\n".into()), &None).is_none());
    assert!(device_from_sysfs_dir("/sys/devices/x", &None, &link).is_none());
}

// ---- mounts ---------------------------------------------------------------------

#[test]
fn splits_flags_from_data() {
    let (flags, data) = split_options(Some("ro,nosuid,size=64m,mode=1777"));
    assert!(flags.contains(MountFlag::ReadOnly));
    assert!(flags.contains(MountFlag::NoSuid));
    assert!(!flags.contains(MountFlag::NoExec));
    assert_eq!(data.as_deref(), Some("size=64m,mode=1777"));
}

#[test]
fn empty_and_plain_options() {
    let (flags, data) = split_options(None);
    assert!(flags.is_empty());
    assert!(data.is_none());

    // A non-flag token passes through untouched.
    let (flags, data) = split_options(Some("size=1m"));
    assert!(flags.is_empty());
    assert_eq!(data.as_deref(), Some("size=1m"));
}

#[test]
fn default_options_are_neither_flags_nor_data() {
    let (flags, data) = split_options(Some(" rw , relatime,, noatime "));
    assert!(flags.contains(MountFlag::NoAtime));
    assert!(!flags.contains(MountFlag::ReadOnly));
    assert_eq!(data, None);
    let (flags, data) = split_options(Some("sync,nodev,noexec,nodiratime,x"));
    for f in [
        MountFlag::Synchronous,
        MountFlag::NoDev,
        MountFlag::NoExec,
        MountFlag::NoDirAtime,
    ] {
        assert!(flags.contains(f));
    }
    assert_eq!(data.as_deref(), Some("x"));
}

// ---- sockets --------------------------------------------------------------------

#[test]
fn datagram_rejects_udp_spec() {
    let err = bind_listen_datagram("127.0.0.1:8123").unwrap_err();
    assert!(err.contains("only unix"), "unexpected error: {err}");
}

#[test]
fn netlink_rejects_unknown_family() {
    let err = bind_listen_netlink("does-not-exist").unwrap_err();
    assert!(
        err.contains("unknown netlink family"),
        "unexpected error: {err}"
    );
}

#[test]
fn listeners_are_told_apart() {
    assert_eq!(bind_listen_stream("unix:/run/a"), Ok(Listen::Unix("/run/a".into())));
    assert_eq!(bind_listen_stream("/run/a"), Ok(Listen::Unix("/run/a".into())));
    assert_eq!(bind_listen_stream("8080"), Ok(Listen::Port(8080)));
    assert_eq!(
        bind_listen_stream("[::1]:80"),
        Ok(Listen::Address("[::1]:80".into()))
    );
    assert_eq!(
        bind_listen_stream("65536"),
        Ok(Listen::Address("65536".into()))
    );
    assert_eq!(
        bind_listen_stream("@abstract"),
        Err("abstract unix sockets not supported: @abstract".into())
    );
    assert_eq!(bind_listen_datagram("/d"), Ok(Listen::Unix("/d".into())));
    assert_eq!(
        bind_listen_sequential_packet("x"),
        Err("only unix: sequential-packet sockets are supported: x".into())
    );
    assert_eq!(bind_listen_netlink("kobject-uevent"), Ok(Listen::Netlink(15)));
    assert_eq!(netlink_family("route"), Some(0));
    assert_eq!(netlink_family("ROUTE"), None);
}
