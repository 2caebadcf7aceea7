use dotman::platform::{distro_from_os_release, distro_supported, host_from, Arch, Host, Platform};

#[test]
fn host_from_maps_known_names() {
    let h = host_from("linux", "x86_64", Some("ubuntu".into())).unwrap();
    assert_eq!(h.platform, Platform::Linux);
    assert_eq!(h.arch, Arch::X86_64);
    assert_eq!(h.distro.as_deref(), Some("ubuntu"));

    let h = host_from("linux", "aarch64", None).unwrap();
    assert_eq!(h.arch, Arch::Arm64);
    assert_eq!(h.distro.as_deref(), Some("unknown"));

    let h = host_from("macos", "aarch64", Some("ignored".into())).unwrap();
    assert_eq!(h.platform, Platform::Mac);
    assert_eq!(h.distro, None);
    assert_eq!(h.platform.key(), "mac");
    assert_eq!(h.arch.key(), "arm64");
}

#[test]
fn host_from_rejects_unknown_os_then_arch() {
    assert_eq!(host_from("windows", "sparc", None).unwrap_err(), "unsupported operating system: windows");
    assert_eq!(host_from("linux", "sparc", None).unwrap_err(), "unsupported architecture: sparc");
}

#[test]
fn distro_supported_accepts_mac_ubuntu_debian() {
    let host = |platform, distro: Option<&str>| Host { platform, arch: Arch::X86_64, distro: distro.map(String::from) };
    assert!(distro_supported(&host(Platform::Mac, None)));
    assert!(distro_supported(&host(Platform::Linux, Some("ubuntu"))));
    assert!(distro_supported(&host(Platform::Linux, Some("debian"))));
    assert!(!distro_supported(&host(Platform::Linux, Some("fedora"))));
    assert!(!distro_supported(&host(Platform::Linux, None)));
}

#[test]
fn distro_is_read_from_the_first_id_line() {
    let text = "NAME=\"Ubuntu\"\nVERSION_ID=\"24.04\"\nID=\"Ubuntu\"\nID=debian\n";
    assert_eq!(distro_from_os_release(text).as_deref(), Some("ubuntu"));
    assert_eq!(distro_from_os_release("ID_LIKE=debian\n"), None);
    assert_eq!(distro_from_os_release(""), None);
}
