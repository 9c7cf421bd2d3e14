use fingerprint_kernel::chromium::FingerprintConfig;
use fingerprint_kernel::config::{FingerprintProfile, InstalledKernel, TargetOs};
use fingerprint_kernel::pool::{BrowserInstancePool, BrowserInstanceStatus};
use fingerprint_kernel::store::KernelStore;
use fingerprint_kernel::version::KernelVersion;

#[test]
fn test_fingerprint_config_to_cli_args() {
    let config = FingerprintConfig {
        seed: 1000,
        os_platform: "macos".to_string(),
        platform_version: Some("15.2.0".to_string()),
        brand: "Edge".to_string(),
        brand_version: Some("131.0".to_string()),
        hardware_concurrency: Some(8),
        disable_spoofing: vec!["gpu".to_string(), "font".to_string()],
    };

    let args = config.to_cli_args();
    assert!(args.contains(&"--fingerprint=1000".to_string()));
    assert!(args.contains(&"--fingerprint-platform=macos".to_string()));
    assert!(args.contains(&"--fingerprint-brand=Edge".to_string()));
    assert!(args.contains(&"--disable-spoofing=gpu,font".to_string()));
}

#[test]
fn test_kernel_version_parse() {
    let version = KernelVersion::from_string("148.0.7778").unwrap();
    assert_eq!(version.major, 148);
    assert_eq!(version.minor, 0);
    assert_eq!(version.patch, 7778);
}

#[test]
fn test_fingerprint_profile_cli_args() {
    let mut profile = FingerprintProfile::new(
        "测试指纹".to_string(),
        1000,
        "windows".to_string(),
        "Edge".to_string(),
    );
    profile.timezone = Some("America/New_York".to_string());
    profile.disable_spoofing = vec!["gpu".to_string()];

    let args = profile.to_cli_args();
    assert!(args.contains(&"--fingerprint=1000".to_string()));
    assert!(args.contains(&"--disable-spoofing=gpu".to_string()));
}

#[test]
fn test_instance_pool() {
    let mut pool = BrowserInstancePool::new();

    let instance_id = pool
        .create_instance(
            "inst-1".to_string(),
            "env-uuid-1".to_string(),
            "profile-1".to_string(),
            "/tmp/browser-1".to_string(),
        )
        .unwrap();

    let instance = pool.get_instance(&instance_id).unwrap();
    assert!(instance.is_some());
    assert_eq!(instance.unwrap().env_uuid, "env-uuid-1");

    pool.update_instance_status(&instance_id, BrowserInstanceStatus::Running)
        .unwrap();

    let running_count = pool.count_running().unwrap();
    assert_eq!(running_count, 1);
}

#[test]
fn test_kernel_store_basic() {
    let store = KernelStore::new("/tmp/kernel-store-basic".to_string());

    let kernels: Vec<InstalledKernel> = Vec::new();

    let kernel = InstalledKernel::new(
        KernelVersion::new(148, 0, 7778),
        "/tmp/kernel-store-basic/148.0.7778".to_string(),
        true,
        TargetOs::Linux,
    );
    let kernels = store.add_kernel(kernels, kernel.clone());

    assert_eq!(kernels.len(), 1);
    assert_eq!(kernels[0].version, KernelVersion::new(148, 0, 7778));
}

#[test]
fn test_fingerprint_profile_store() {
    let store = KernelStore::new("/tmp/kernel-store-profiles".to_string());

    let profile = FingerprintProfile::new(
        "测试配置".to_string(),
        1000,
        "windows".to_string(),
        "Edge".to_string(),
    );
    let profile_id = profile.id.clone();

    let profiles = store.add_profile(Vec::new(), profile);

    let loaded = store.get_profile(profiles, &profile_id);
    assert!(loaded.is_some());
    assert_eq!(loaded.unwrap().name, "测试配置");
}
