use dotman::config::PackageManagerConfig;
use dotman::package_managers::{detect_os, resolve_pkg_mgr_name, Os};

#[test]
fn detect_os_is_mac_or_linux() {
    let os = detect_os("linux");
    assert!(os == Os::Mac || os == Os::Linux);
    assert_eq!(detect_os("macos"), Os::Mac);
    assert_eq!(detect_os("linux"), Os::Linux);
}

#[test]
fn resolve_pkg_mgr_name_returns_macos_config() {
    let cfg = PackageManagerConfig { macos: Some("brew".into()), ..Default::default() };
    let result = resolve_pkg_mgr_name(&cfg, Os::Mac, None);
    assert_eq!(result, Some("brew".into()));
}

#[test]
fn os_debug_roundtrip() {
    assert_eq!(format!("{:?}", Os::Mac), "Mac");
    assert_eq!(format!("{:?}", Os::Linux), "Linux");
    assert_eq!(format!("{:?}", Os::Unknown), "Unknown");
}

#[test]
fn linux_package_manager_follows_the_distro_id() {
    let cfg = PackageManagerConfig { ubuntu: Some("apt".into()), ..Default::default() };
    assert_eq!(
        resolve_pkg_mgr_name(&cfg, Os::Linux, Some("NAME=Ubuntu\nID=\"ubuntu\"\n")),
        Some("apt".into())
    );
    assert_eq!(resolve_pkg_mgr_name(&cfg, Os::Linux, Some("ID=arch\n")), None);
    assert_eq!(resolve_pkg_mgr_name(&cfg, Os::Linux, None), None);
    assert_eq!(resolve_pkg_mgr_name(&cfg, Os::Unknown, None), None);
}
