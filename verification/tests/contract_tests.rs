use fingerprint_kernel::chromium::{FingerprintChromiumKernel, FingerprintConfig};
use fingerprint_kernel::config::{FingerprintProfile, InstalledKernel, KernelRelease, TargetOs};
use fingerprint_kernel::manager::KernelManager;
use fingerprint_kernel::pool::{
    begin_stop_browser_instance, begin_stop_browser_instance_at, start_browser_instance,
    start_browser_instance_with, stop_browser_instance, BrowserInstance, BrowserInstancePool,
    BrowserInstanceStatus,
};
use fingerprint_kernel::presets::{create_profile_from_preset, list_fingerprint_presets};
use fingerprint_kernel::store::KernelStore;
use fingerprint_kernel::version::{KernelVersion, ParseIntErrorKind};
use std::collections::HashMap;

fn strings(v: &[&str]) -> Vec<String> {
    v.iter().map(|s| s.to_string()).collect()
}

fn kernel(major: u32, path: &str, is_default: bool) -> InstalledKernel {
    InstalledKernel::with_install_time(
        KernelVersion::new(major, 0, 1),
        path.to_string(),
        is_default,
        TargetOs::Linux,
        "2024-01-01T00:00:00+00:00".to_string(),
    )
}

fn profile(id: &str, name: &str) -> FingerprintProfile {
    FingerprintProfile::with_identity(
        id.to_string(),
        "2024-01-01T00:00:00+00:00".to_string(),
        name.to_string(),
        7,
        "linux".to_string(),
        "Chrome".to_string(),
    )
}

// ---------- versions ----------

#[test]
fn version_to_string_is_dotted_decimal() {
    assert_eq!(KernelVersion::new(148, 0, 7778).to_string(), "148.0.7778");
    assert_eq!(KernelVersion::new(0, 0, 0).to_string(), "0.0.0");
    assert_eq!(
        KernelVersion::new(u32::MAX, 10, 9).to_string(),
        "4294967295.10.9"
    );
}

#[test]
fn version_text_round_trip() {
    for v in [
        KernelVersion::new(0, 0, 0),
        KernelVersion::new(148, 0, 7778),
        KernelVersion::new(u32::MAX, u32::MAX, u32::MAX),
        KernelVersion::new(10, 100, 1000),
    ] {
        assert_eq!(KernelVersion::from_string(&v.to_string()), Ok(v));
    }
}

#[test]
fn version_errors() {
    assert_eq!(
        KernelVersion::from_string("1.2"),
        Err("Invalid version format: 1.2".to_string())
    );
    assert_eq!(
        KernelVersion::from_string("1.2.3.4"),
        Err("Invalid version format: 1.2.3.4".to_string())
    );
    assert_eq!(
        KernelVersion::from_string("a.0.0"),
        Err("Invalid major version: invalid digit found in string".to_string())
    );
    assert_eq!(
        KernelVersion::from_string("1..3"),
        Err("Invalid minor version: cannot parse integer from empty string".to_string())
    );
    assert_eq!(
        KernelVersion::from_string("1.2.4294967296"),
        Err("Invalid patch version: number too large to fit in target type".to_string())
    );
    assert_eq!(KernelVersion::from_string("+1.02.3"), Ok(KernelVersion::new(1, 2, 3)));
    assert!(KernelVersion::from_string("-1.0.0").is_err());
    assert!(KernelVersion::from_string("+.0.0").is_err());
}

#[test]
fn number_parsing_agrees_with_std() {
    let inputs = [
        "", "+", "-", "0", "+7", "-7", "007", "4294967295", "4294967296", "99999999999x",
        "12a", " 1", "٣", "+-1",
    ];
    for s in inputs {
        let chars: Vec<char> = s.chars().collect();
        let mine = fingerprint_kernel::version::parse_u32(&chars);
        let theirs = s.parse::<u32>();
        match (mine, theirs) {
            (Ok(a), Ok(b)) => assert_eq!(a, b, "input {:?}", s),
            (Err(k), Err(e)) => assert_eq!(k.message(), e.to_string(), "input {:?}", s),
            (m, t) => panic!("input {:?}: {:?} vs {:?}", s, m, t),
        }
    }
    assert_eq!(
        ParseIntErrorKind::Empty.message(),
        "cannot parse integer from empty string"
    );
}

// ---------- command lines ----------

#[test]
fn config_args_in_order() {
    let config = FingerprintConfig {
        seed: 1000,
        os_platform: "macos".to_string(),
        platform_version: Some("15.2.0".to_string()),
        brand: "Edge".to_string(),
        brand_version: Some("131.0".to_string()),
        hardware_concurrency: Some(8),
        disable_spoofing: strings(&["gpu", "font"]),
    };
    assert_eq!(
        config.to_cli_args(),
        strings(&[
            "--fingerprint=1000",
            "--fingerprint-platform=macos",
            "--fingerprint-brand=Edge",
            "--fingerprint-platform-version=15.2.0",
            "--fingerprint-brand-version=131.0",
            "--fingerprint-hardware-concurrency=8",
            "--disable-spoofing=gpu,font",
        ])
    );
}

#[test]
fn config_args_minimal() {
    let config = FingerprintConfig {
        seed: 0,
        os_platform: "linux".to_string(),
        platform_version: None,
        brand: "Chrome".to_string(),
        brand_version: None,
        hardware_concurrency: None,
        disable_spoofing: vec![],
    };
    assert_eq!(
        config.to_cli_args(),
        strings(&["--fingerprint=0", "--fingerprint-platform=linux", "--fingerprint-brand=Chrome"])
    );
}

#[test]
fn profile_args_in_order() {
    let mut p = profile("p1", "one");
    p.platform_version = Some("10.0".to_string());
    p.brand_version = Some("131.0".to_string());
    p.hardware_concurrency = Some(16);
    p.language = Some("en-US".to_string());
    p.accept_languages = Some("en-US,en".to_string());
    p.timezone = Some("UTC".to_string());
    p.proxy_server = Some("socks5://127.0.0.1:1080".to_string());
    p.disable_spoofing = strings(&["audio"]);
    assert_eq!(
        p.to_cli_args(),
        strings(&[
            "--fingerprint=7",
            "--fingerprint-platform=linux",
            "--fingerprint-brand=Chrome",
            "--fingerprint-platform-version=10.0",
            "--fingerprint-brand-version=131.0",
            "--fingerprint-hardware-concurrency=16",
            "--lang=en-US",
            "--accept-lang=en-US,en",
            "--timezone=UTC",
            "--proxy-server=socks5://127.0.0.1:1080",
            "--disable-spoofing=audio",
        ])
    );
}

#[test]
fn launch_args_end_with_user_data_dir() {
    let config = FingerprintConfig {
        seed: 5,
        os_platform: "windows".to_string(),
        platform_version: None,
        brand: "Edge".to_string(),
        brand_version: None,
        hardware_concurrency: None,
        disable_spoofing: vec![],
    };
    let k = FingerprintChromiumKernel::new("/opt/k/chrome".to_string(), "/tmp/ud".to_string(), config);
    assert_eq!(k.binary_path(), "/opt/k/chrome");
    assert_eq!(
        k.launch_args(),
        strings(&[
            "--fingerprint=5",
            "--fingerprint-platform=windows",
            "--fingerprint-brand=Edge",
            "--user-data-dir=/tmp/ud",
        ])
    );
}

// ---------- kernels and releases ----------

#[test]
fn release_platforms() {
    let r = KernelRelease {
        version: KernelVersion::new(1, 2, 3),
        release_date: "2024-01-01".to_string(),
        platforms: strings(&["windows-x64", "linux-x64"]),
        checksums: HashMap::new(),
    };
    assert!(r.supports_platform("linux-x64"));
    assert!(!r.supports_platform("macos-arm64"));
    assert!(!r.supports_platform("linux"));
}

#[test]
fn binary_paths_per_os() {
    let v = KernelVersion::new(1, 0, 0);
    let k = InstalledKernel::new(v, "/opt/k".to_string(), false, TargetOs::Linux);
    assert_eq!(k.binary_path, "/opt/k/chrome");
    assert!(!k.installed_at.is_empty());
    let k = InstalledKernel::new(v, "/opt/k/".to_string(), false, TargetOs::Linux);
    assert_eq!(k.binary_path, "/opt/k/chrome");
    let k = InstalledKernel::new(v, "/Apps/k".to_string(), false, TargetOs::Macos);
    assert_eq!(k.binary_path, "/Apps/k/Chromium.app/Contents/MacOS/Chromium");
    let k = InstalledKernel::new(v, "C:\\k".to_string(), false, TargetOs::Windows);
    assert_eq!(k.binary_path, "C:\\k\\chrome.exe");
    let k = InstalledKernel::new(v, "".to_string(), false, TargetOs::Linux);
    assert_eq!(k.binary_path, "chrome");
    let k = InstalledKernel::new(v, "C:".to_string(), false, TargetOs::Windows);
    assert_eq!(k.binary_path, "C:chrome.exe");
    let k = InstalledKernel::new(v, "D:\\k/".to_string(), false, TargetOs::Windows);
    assert_eq!(k.binary_path, "D:\\k/chrome.exe");
}

#[test]
fn binary_path_agrees_with_std_join_here() {
    let v = KernelVersion::new(1, 0, 0);
    for base in ["/opt/k", "/opt/k/", "", "rel/dir", "a//"] {
        let k = InstalledKernel::new(v, base.to_string(), false, TargetOs::Linux);
        let std_join = std::path::PathBuf::from(base).join("chrome");
        assert_eq!(k.binary_path, std_join.to_string_lossy(), "base {:?}", base);
    }
}

#[test]
fn default_kernel_after_set_default() {
    let store = KernelStore::new("/d".to_string());
    let kernels = vec![kernel(1, "/a", true), kernel(2, "/b", false), kernel(2, "/c", false)];
    let first = store.get_default_kernel(kernels.clone()).unwrap();
    assert_eq!(first.install_path, "/a");
    let kernels = store.set_default_kernel(kernels, &KernelVersion::new(2, 0, 1));
    assert_eq!(
        kernels.iter().map(|k| k.is_default).collect::<Vec<_>>(),
        vec![false, true, true]
    );
    let d = store.get_default_kernel(kernels.clone()).unwrap();
    assert_eq!(d.install_path, "/b");
    let none = store.set_default_kernel(kernels, &KernelVersion::new(9, 9, 9));
    assert!(store.get_default_kernel(none).is_none());
}

#[test]
fn remove_kernel_keeps_other_versions_in_order() {
    let store = KernelStore::new("/d".to_string());
    let kernels = vec![kernel(1, "/a", false), kernel(2, "/b", false), kernel(3, "/c", false), kernel(2, "/d", true)];
    let rest = store.remove_kernel(kernels, &KernelVersion::new(2, 0, 1));
    assert_eq!(
        rest.iter().map(|k| k.install_path.clone()).collect::<Vec<_>>(),
        strings(&["/a", "/c"])
    );
}

// ---------- profiles ----------

#[test]
fn update_profile_replaces_or_fails() {
    let store = KernelStore::new("/d".to_string());
    let profiles = vec![profile("a", "one"), profile("b", "two")];
    let updated = store.update_profile(profiles, profile("b", "changed")).unwrap();
    assert_eq!(updated.len(), 2);
    assert_eq!(updated[1].name, "changed");
    assert_eq!(
        store.get_profile(updated.clone(), "b").unwrap().name,
        "changed"
    );
    let err = store.update_profile(updated, profile("zz", "x")).unwrap_err();
    assert_eq!(err, "Profile zz not found");
}

#[test]
fn remove_profile_then_get_finds_nothing() {
    let store = KernelStore::new("/d".to_string());
    let profiles = vec![profile("a", "one"), profile("b", "two"), profile("a", "three")];
    let rest = store.remove_profile(profiles, "a");
    assert_eq!(rest.len(), 1);
    assert_eq!(rest[0].id, "b");
    assert!(store.get_profile(rest, "a").is_none());
}

#[test]
fn get_profile_takes_first_match() {
    let store = KernelStore::new("/d".to_string());
    let profiles = vec![profile("a", "one"), profile("a", "two")];
    assert_eq!(store.get_profile(profiles, "a").unwrap().name, "one");
}

#[test]
fn fresh_profiles_have_distinct_ids_and_times() {
    let a = FingerprintProfile::new("a".to_string(), 1, "linux".to_string(), "Chrome".to_string());
    let b = FingerprintProfile::new("b".to_string(), 1, "linux".to_string(), "Chrome".to_string());
    assert_ne!(a.id, b.id);
    assert!(!a.id.is_empty());
    assert!(!a.created_at.is_empty());
    assert_eq!(a.created_at, a.updated_at);
}

#[test]
fn manager_clone_profile() {
    let m = KernelManager::new("/d".to_string());
    let mut src = profile("src", "original");
    src.timezone = Some("UTC".to_string());
    src.disable_spoofing = strings(&["gpu"]);
    let (profiles, new_id) = m
        .clone_profile_with(vec![src], "src", "copy".to_string(), "new".to_string(), "T".to_string())
        .unwrap();
    assert_eq!(new_id, "new");
    assert_eq!(profiles.len(), 2);
    let c = &profiles[1];
    assert_eq!(c.id, "new");
    assert_eq!(c.name, "copy");
    assert_eq!(c.created_at, "T");
    assert_eq!(c.timezone, Some("UTC".to_string()));
    assert_eq!(c.disable_spoofing, strings(&["gpu"]));
    let err = m.clone_profile(profiles, "missing", "x".to_string()).unwrap_err();
    assert_eq!(err, "Profile missing not found");
}

#[test]
fn manager_register_and_uninstall() {
    let m = KernelManager::new("/d".to_string());
    let kernels = m.register_kernel(Vec::new(), KernelVersion::new(3, 1, 4), "/k/3".to_string(), TargetOs::Linux);
    assert_eq!(kernels.len(), 1);
    assert!(!kernels[0].is_default);
    assert_eq!(kernels[0].binary_path, "/k/3/chrome");
    let (path, rest) = m.uninstall_kernel(kernels, &KernelVersion::new(3, 1, 4));
    assert_eq!(path, Some("/k/3".to_string()));
    assert!(rest.is_empty());
    let (path, rest) = m.uninstall_kernel(rest, &KernelVersion::new(3, 1, 4));
    assert_eq!(path, None);
    assert!(rest.is_empty());
    let (profiles, id) = m.create_profile(Vec::new(), "n".to_string(), 3, "linux".to_string(), "Chrome".to_string());
    assert_eq!(profiles[0].id, id);
}

// ---------- presets ----------

#[test]
fn presets_table() {
    let presets = list_fingerprint_presets().unwrap();
    assert_eq!(
        presets.iter().map(|p| p.id.clone()).collect::<Vec<_>>(),
        strings(&["preset_us_visitor", "preset_sg_residential", "preset_macos_premium", "preset_linux_dev"])
    );
    assert_eq!(presets[1].disable_spoofing, strings(&["gpu"]));
    assert_eq!(presets[3].platform_version, None);
    assert_eq!(presets[2].hardware_concurrency, Some(16));
}

#[test]
fn profile_from_preset() {
    let (profiles, id) = create_profile_from_preset(Vec::new(), "preset_sg_residential", "sg".to_string()).unwrap();
    assert_eq!(profiles.len(), 1);
    let p = &profiles[0];
    assert_eq!(p.id, id);
    assert_eq!(p.name, "sg");
    assert_eq!(p.seed, 1688);
    assert_eq!(p.brand, "Edge");
    assert_eq!(p.language, Some("en-SG".to_string()));
    assert_eq!(p.timezone, Some("Asia/Singapore".to_string()));
    assert_eq!(p.disable_spoofing, strings(&["gpu"]));
    let err = create_profile_from_preset(Vec::new(), "nope", "x".to_string()).unwrap_err();
    assert_eq!(err, "Preset nope not found");
}

// ---------- instance pool ----------

#[test]
fn pool_status_times_and_errors() {
    let mut pool = BrowserInstancePool::new();
    pool.create_instance_at("i1".to_string(), "e".to_string(), "p".to_string(), "/u".to_string(), "T0".to_string())
        .unwrap();
    pool.update_instance_status_at("i1", BrowserInstanceStatus::Running, "T1".to_string()).unwrap();
    let i = pool.get_instance("i1").unwrap().unwrap();
    assert_eq!(i.status, BrowserInstanceStatus::Running);
    assert_eq!(i.started_at, Some("T1".to_string()));
    assert_eq!(i.stopped_at, None);
    assert_eq!(i.created_at, "T0");
    let err = pool
        .update_instance_status_at("nope", BrowserInstanceStatus::Stopped, "T2".to_string())
        .unwrap_err();
    assert_eq!(err, "Instance nope not found");
    assert_eq!(pool.set_instance_pid("nope", 3).unwrap_err(), "Instance nope not found");
    pool.set_instance_pid("i1", 42).unwrap();
    assert_eq!(pool.get_instance("i1").unwrap().unwrap().pid, Some(42));
}

#[test]
fn pool_create_replaces_same_id() {
    let mut pool = BrowserInstancePool::default();
    pool.create_instance("x".to_string(), "e1".to_string(), "p".to_string(), "/a".to_string()).unwrap();
    pool.create_instance("y".to_string(), "e1".to_string(), "p".to_string(), "/b".to_string()).unwrap();
    pool.create_instance("x".to_string(), "e2".to_string(), "p".to_string(), "/c".to_string()).unwrap();
    let e1 = pool.get_env_instances("e1").unwrap();
    assert_eq!(e1.len(), 1);
    assert_eq!(e1[0].instance_id, "y");
    let x = pool.get_instance("x").unwrap().unwrap();
    assert_eq!(x.user_data_dir, "/c");
    pool.remove_instance("x").unwrap();
    assert!(pool.get_instance("x").unwrap().is_none());
    assert!(pool.get_instance("y").unwrap().is_some());
}

#[test]
fn pool_running_lists_and_counts() {
    let mut pool = BrowserInstancePool::new();
    for id in ["a", "b", "c"] {
        pool.create_instance(id.to_string(), "e".to_string(), "p".to_string(), "/u".to_string()).unwrap();
    }
    assert_eq!(pool.count_running().unwrap(), 0);
    pool.update_instance_status("a", BrowserInstanceStatus::Running).unwrap();
    pool.update_instance_status("c", BrowserInstanceStatus::Running).unwrap();
    pool.update_instance_status("c", BrowserInstanceStatus::Error("boom".to_string())).unwrap();
    let running = pool.get_running_instances().unwrap();
    assert_eq!(running.len(), 1);
    assert_eq!(running[0].instance_id, "a");
    assert_eq!(pool.count_running().unwrap(), 1);
}

#[test]
fn start_and_stop_instances() {
    let mut pool = BrowserInstancePool::new();
    let id = start_browser_instance_with(
        &mut pool,
        "env".to_string(),
        "prof".to_string(),
        None,
        "u1".to_string(),
        "u2".to_string(),
        "T".to_string(),
    )
    .unwrap();
    assert_eq!(id, "inst-u1");
    let i = pool.get_instance(&id).unwrap().unwrap();
    assert_eq!(i.user_data_dir, "/tmp/simprint/browser/u2");
    assert_eq!(i.status, BrowserInstanceStatus::Created);

    let id2 = start_browser_instance(&mut pool, "env".to_string(), "prof".to_string(), Some("/x".to_string())).unwrap();
    assert!(id2.starts_with("inst-"));
    assert!(id2.len() > "inst-".len());
    assert_eq!(pool.get_instance(&id2).unwrap().unwrap().user_data_dir, "/x");
    let id3 = start_browser_instance(&mut pool, "env".to_string(), "prof".to_string(), None).unwrap();
    let dir3 = pool.get_instance(&id3).unwrap().unwrap().user_data_dir;
    assert!(dir3.starts_with("/tmp/simprint/browser/"));
    assert!(dir3.len() > "/tmp/simprint/browser/".len());

    stop_browser_instance(&mut pool, &id).unwrap();
    let i = pool.get_instance(&id).unwrap().unwrap();
    assert_eq!(i.status, BrowserInstanceStatus::Stopped);
    assert!(i.stopped_at.is_some());
    assert!(i.started_at.is_none());
    assert_eq!(stop_browser_instance(&mut pool, "nope").unwrap_err(), "Instance nope not found");
}

// ---------- files, metadata, identifiers ----------

fn is_uuid_v4_text(s: &str) -> bool {
    let c: Vec<char> = s.chars().collect();
    c.len() == 36
        && (0..36).all(|i| {
            if i == 8 || i == 13 || i == 18 || i == 23 {
                c[i] == '-'
            } else {
                c[i].is_ascii_digit() || ('a'..='f').contains(&c[i])
            }
        })
        && c[14] == '4'
        && "89ab".contains(c[19])
}

#[test]
fn fresh_ids_are_uuid_v4_text() {
    let p = FingerprintProfile::new("a".to_string(), 1, "linux".to_string(), "Chrome".to_string());
    assert!(is_uuid_v4_text(&p.id), "{}", p.id);
    let mut pool = BrowserInstancePool::new();
    let id = start_browser_instance(&mut pool, "e".to_string(), "p".to_string(), None).unwrap();
    assert!(is_uuid_v4_text(&id["inst-".len()..]));
}

#[test]
fn store_file_locations() {
    let store = KernelStore::new("/data/k".to_string());
    assert_eq!(store.get_kernels_file(TargetOs::Linux), "/data/k/installed_kernels.json");
    assert_eq!(store.get_profiles_file(TargetOs::Linux), "/data/k/fingerprint_profiles.json");
    assert_eq!(store.get_metadata_file(TargetOs::Linux), "/data/k/kernel_metadata.json");
    let store = KernelStore::new("C:\\data".to_string());
    assert_eq!(store.get_kernels_file(TargetOs::Windows), "C:\\data\\installed_kernels.json");
}

#[test]
fn verbatim_base_goes_to_std_join() {
    let v = KernelVersion::new(1, 0, 0);
    let base = "\\\\?\\C:\\k/";
    let k = InstalledKernel::new(v, base.to_string(), false, TargetOs::Windows);
    let std_join = std::path::PathBuf::from(base).join("chrome.exe");
    assert_eq!(k.binary_path, std_join.to_string_lossy());
}

#[test]
fn metadata_load_and_save() {
    let store = KernelStore::new("/d".to_string());
    let empty = store.load_metadata(None).unwrap();
    assert_eq!(empty, serde_json::Value::Object(serde_json::Map::new()));
    let v = store.load_metadata(Some("{\"versions\": [\"1.2.3\"], \"n\": 2}".to_string())).unwrap();
    assert_eq!(v.get("n").and_then(|n| n.as_u64()), Some(2));
    assert_eq!(v["versions"][0].as_str(), Some("1.2.3"));
    let err = store.load_metadata(Some("{not json".to_string())).unwrap_err();
    assert!(err.starts_with("Failed to parse metadata JSON: "), "{}", err);
    assert!(err.len() > "Failed to parse metadata JSON: ".len());
    let text = store.save_metadata(v.clone()).unwrap();
    assert_eq!(store.load_metadata(Some(text)).unwrap(), v);
}

#[test]
fn metadata_matches_serde_json() {
    let store = KernelStore::new("/d".to_string());
    let bad = "[1, 2";
    let serde_err = serde_json::from_str::<serde_json::Value>(bad).unwrap_err().to_string();
    assert_eq!(
        store.load_metadata(Some(bad.to_string())).unwrap_err(),
        format!("Failed to parse metadata JSON: {}", serde_err)
    );
    let good = "{\"a\": {\"b\": [true, null, 1.5]}}";
    let expected: serde_json::Value = serde_json::from_str(good).unwrap();
    assert_eq!(store.load_metadata(Some(good.to_string())).unwrap(), expected);
    assert_eq!(store.load_metadata(None).unwrap(), serde_json::from_str::<serde_json::Value>("{}").unwrap());
    assert_eq!(store.save_metadata(expected.clone()).unwrap(), serde_json::to_string_pretty(&expected).unwrap());
    assert_eq!(store.save_metadata(serde_json::Value::Object(serde_json::Map::new())).unwrap(), "{}");
}

fn two(c: &[char], i: usize) -> u32 {
    c[i].to_digit(10).unwrap() * 10 + c[i + 1].to_digit(10).unwrap()
}

/// Whether `t` has the shape that `to_rfc3339` writes.
fn is_rfc3339_text(t: &str) -> bool {
    let c: Vec<char> = t.chars().collect();
    let year_len = if c.first().map_or(false, |&x| x == '+' || x == '-') {
        1 + c[1..].iter().take_while(|x| x.is_ascii_digit()).count()
    } else {
        c.iter().take_while(|x| x.is_ascii_digit()).count()
    };
    if !(year_len == 4 && c[0].is_ascii_digit() || year_len >= 5 && !c[0].is_ascii_digit()) {
        return false;
    }
    let d = &c[year_len..];
    if d.len() < 21 {
        return false;
    }
    let digits_at = |is: &[usize]| is.iter().all(|&i| d[i].is_ascii_digit());
    let date_ok = d[0] == '-' && d[3] == '-' && d[6] == 'T' && d[9] == ':' && d[12] == ':'
        && digits_at(&[1, 2, 4, 5, 7, 8, 10, 11, 13, 14])
        && (1..=12).contains(&two(d, 1))
        && (1..=31).contains(&two(d, 4))
        && two(d, 7) < 24
        && two(d, 10) < 60
        && two(d, 13) <= 60;
    let rest = &d[15..];
    let frac = rest.len() - 6;
    let frac_ok = frac == 0
        || ([4, 7, 10].contains(&frac) && rest[0] == '.' && rest[1..frac].iter().all(|x| x.is_ascii_digit()));
    let o = &rest[frac..];
    let offset_ok = (o[0] == '+' || o[0] == '-')
        && o[1].is_ascii_digit()
        && o[2].is_ascii_digit()
        && o[3] == ':'
        && o[4].is_ascii_digit()
        && o[5].is_ascii_digit()
        && two(o, 4) < 60;
    date_ok && frac_ok && offset_ok
}

#[test]
fn timestamps_are_rfc3339_text() {
    assert!(is_rfc3339_text("2024-01-01T00:00:00+00:00"));
    assert!(is_rfc3339_text("2024-02-29T23:59:60.123456-07:30"));
    assert!(!is_rfc3339_text("2024-13-01T00:00:00+00:00"));
    assert!(!is_rfc3339_text("2024-01-01T00:00:00Z0000"));
    let p = FingerprintProfile::new("a".to_string(), 1, "linux".to_string(), "Chrome".to_string());
    assert!(is_rfc3339_text(&p.created_at), "{}", p.created_at);
    let k = InstalledKernel::new(KernelVersion::new(1, 2, 3), "/k".to_string(), false, TargetOs::Linux);
    assert!(is_rfc3339_text(&k.installed_at), "{}", k.installed_at);
    let mut pool = BrowserInstancePool::new();
    let id = start_browser_instance(&mut pool, "e".to_string(), "p".to_string(), None).unwrap();
    assert!(is_rfc3339_text(&pool.get_instance(&id).unwrap().unwrap().created_at));
    stop_browser_instance(&mut pool, &id).unwrap();
    let stopped_at = pool.get_instance(&id).unwrap().unwrap().stopped_at.unwrap();
    assert!(is_rfc3339_text(&stopped_at), "{}", stopped_at);
}

#[test]
fn begin_stop_hands_back_the_stopping_instance() {
    let mut pool = BrowserInstancePool::new();
    pool.create_instance_at("a".to_string(), "e".to_string(), "p".to_string(), "/u".to_string(), "T0".to_string())
        .unwrap();
    pool.set_instance_pid("a", 77).unwrap();
    let b = begin_stop_browser_instance_at(&mut pool, "a", "T1".to_string()).unwrap();
    assert_eq!(b.instance_id, "a");
    assert_eq!(b.pid, Some(77));
    assert_eq!(b.status, BrowserInstanceStatus::Stopping);
    assert_eq!(b.stopped_at, None);
    assert_eq!(pool.get_instance("a").unwrap().unwrap().status, BrowserInstanceStatus::Stopping);
    assert_eq!(
        begin_stop_browser_instance(&mut pool, "zz").unwrap_err(),
        "Instance zz not found"
    );
    let b = begin_stop_browser_instance(&mut pool, "a").unwrap();
    assert_eq!(b.status, BrowserInstanceStatus::Stopping);
    assert_eq!(pool.get_running_instances().unwrap().len(), 0);
}

fn instance_in(status: BrowserInstanceStatus) -> BrowserInstance {
    let mut pool = BrowserInstancePool::new();
    pool.create_instance_at("i".to_string(), "e".to_string(), "p".to_string(), "/u".to_string(), "T0".to_string())
        .unwrap();
    pool.update_instance_status_at("i", status, "T1".to_string()).unwrap();
    pool.get_instance("i").unwrap().unwrap()
}

#[test]
fn summaries_write_status_as_debug() {
    for st in [
        BrowserInstanceStatus::Created,
        BrowserInstanceStatus::Starting,
        BrowserInstanceStatus::Running,
        BrowserInstanceStatus::Stopping,
        BrowserInstanceStatus::Stopped,
        BrowserInstanceStatus::Error("bad \"quote\"\n\u{7f}".to_string()),
    ] {
        assert_eq!(st.status_string(), format!("{:?}", st));
    }
    assert_eq!(BrowserInstanceStatus::Error("x".to_string()).status_string(), "Error(\"x\")");
    let inst = instance_in(BrowserInstanceStatus::Running);
    let s = inst.summary();
    assert_eq!(s.instance_id, "i");
    assert_eq!(s.env_uuid, "e");
    assert_eq!(s.profile_id, "p");
    assert_eq!(s.pid, None);
    assert_eq!(s.status, "Running");
    assert_eq!(s.created_at, "T0");
    assert_eq!(s.started_at.as_deref(), Some("T1"));
    assert_eq!(s.stopped_at, None);
    let s = instance_in(BrowserInstanceStatus::Stopped).summary();
    assert_eq!(s.status, "Stopped");
    assert_eq!(s.stopped_at.as_deref(), Some("T1"));
}

#[test]
fn register_kernel_at_records_time() {
    let m = KernelManager::new("/d".to_string());
    let kernels = m.register_kernel_at(Vec::new(), KernelVersion::new(1, 2, 3), "/k".to_string(), TargetOs::Linux, "T".to_string());
    assert_eq!(kernels[0].installed_at, "T");
    assert_eq!(kernels[0].binary_path, "/k/chrome");
}
