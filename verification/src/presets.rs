//! Preset fingerprint profiles and profiles made from them.

use vstd::prelude::*;
use crate::config::{FingerprintProfile, copy_opt_text, copy_texts, opt_text};
use crate::search::{first_index, first_index_from, first_match};
use crate::stamp::{is_rfc3339_text, is_uuid_v4_text, new_uuid, now_rfc3339};
use crate::text::{push_text, same_text};

verus! {

/// A ready-made fingerprint profile template.
#[derive(Debug)]
pub struct FingerprintPreset {
    pub id: String,
    pub name: String,
    pub description: String,
    pub seed: u32,
    pub platform: String,
    pub platform_version: Option<String>,
    pub brand: String,
    pub brand_version: Option<String>,
    pub hardware_concurrency: Option<u32>,
    pub language: Option<String>,
    pub timezone: Option<String>,
    pub disable_spoofing: Vec<String>,
}

/// A preset's content, every text taken by its characters.
pub struct PresetView {
    pub id: Seq<char>,
    pub name: Seq<char>,
    pub description: Seq<char>,
    pub seed: u32,
    pub platform: Seq<char>,
    pub platform_version: Option<Seq<char>>,
    pub brand: Seq<char>,
    pub brand_version: Option<Seq<char>>,
    pub hardware_concurrency: Option<u32>,
    pub language: Option<Seq<char>>,
    pub timezone: Option<Seq<char>>,
    pub disable_spoofing: Seq<Seq<char>>,
}

impl View for FingerprintPreset {
    type V = PresetView;

    open spec fn view(&self) -> PresetView {
        PresetView {
            id: self.id@,
            name: self.name@,
            description: self.description@,
            seed: self.seed,
            platform: self.platform@,
            platform_version: opt_text(self.platform_version),
            brand: self.brand@,
            brand_version: opt_text(self.brand_version),
            hardware_concurrency: self.hardware_concurrency,
            language: opt_text(self.language),
            timezone: opt_text(self.timezone),
            disable_spoofing: self.disable_spoofing.deep_view(),
        }
    }
}

impl Clone for FingerprintPreset {
    fn clone(&self) -> (r: Self)
        ensures
            r@ == self@,
    {
        FingerprintPreset {
            id: self.id.clone(),
            name: self.name.clone(),
            description: self.description.clone(),
            seed: self.seed,
            platform: self.platform.clone(),
            platform_version: copy_opt_text(&self.platform_version),
            brand: self.brand.clone(),
            brand_version: copy_opt_text(&self.brand_version),
            hardware_concurrency: self.hardware_concurrency,
            language: copy_opt_text(&self.language),
            timezone: copy_opt_text(&self.timezone),
            disable_spoofing: copy_texts(&self.disable_spoofing),
        }
    }
}

/// The presets, in the order they are listed.
pub open spec fn preset_table() -> Seq<PresetView> {
    seq![
        PresetView {
            id: "preset_us_visitor"@,
            name: "美国游客"@,
            description: "模拟美国 Chrome 浏览器环境"@,
            seed: 2024,
            platform: "windows"@,
            platform_version: Some("10.0"@),
            brand: "Chrome"@,
            brand_version: Some("131.0"@),
            hardware_concurrency: Some(8u32),
            language: Some("en-US"@),
            timezone: Some("America/New_York"@),
            disable_spoofing: Seq::<Seq<char>>::empty(),
        },
        PresetView {
            id: "preset_sg_residential"@,
            name: "新加坡住宅"@,
            description: "模拟新加坡住宅 IP Edge 浏览器"@,
            seed: 1688,
            platform: "windows"@,
            platform_version: Some("11.0"@),
            brand: "Edge"@,
            brand_version: Some("131.0"@),
            hardware_concurrency: Some(4u32),
            language: Some("en-SG"@),
            timezone: Some("Asia/Singapore"@),
            disable_spoofing: seq!["gpu"@],
        },
        PresetView {
            id: "preset_macos_premium"@,
            name: "macOS 高端用户"@,
            description: "模拟 macOS Safari 高端用户"@,
            seed: 3333,
            platform: "macos"@,
            platform_version: Some("14.2"@),
            brand: "Safari"@,
            brand_version: Some("17.2"@),
            hardware_concurrency: Some(16u32),
            language: Some("en-US"@),
            timezone: Some("America/Los_Angeles"@),
            disable_spoofing: Seq::<Seq<char>>::empty(),
        },
        PresetView {
            id: "preset_linux_dev"@,
            name: "Linux 开发者"@,
            description: "模拟 Linux Chromium 开发者环境"@,
            seed: 5555,
            platform: "linux"@,
            platform_version: None,
            brand: "Chromium"@,
            brand_version: None,
            hardware_concurrency: Some(32u32),
            language: Some("en-US"@),
            timezone: Some("UTC"@),
            disable_spoofing: Seq::<Seq<char>>::empty(),
        },
    ]
}

fn text(s: &str) -> (r: String)
    ensures
        r@ == s@,
{
    String::from_str(s)
}

fn some_text(s: &str) -> (r: Option<String>)
    ensures
        opt_text(r) == Some(s@),
{
    Some(String::from_str(s))
}

/// All presets, in the order of `preset_table`.
pub fn list_fingerprint_presets() -> (r: Result<Vec<FingerprintPreset>, String>)
    ensures
        r matches Ok(v) && v@.len() == preset_table().len() && forall|i: int|
            0 <= i < v@.len() ==> (#[trigger] v@[i])@ == preset_table()[i],
{
    let mut gpu: Vec<String> = Vec::new();
    push_text(&mut gpu, text("gpu"));
    let v = vec![
        FingerprintPreset {
            id: text("preset_us_visitor"),
            name: text("美国游客"),
            description: text("模拟美国 Chrome 浏览器环境"),
            seed: 2024,
            platform: text("windows"),
            platform_version: some_text("10.0"),
            brand: text("Chrome"),
            brand_version: some_text("131.0"),
            hardware_concurrency: Some(8),
            language: some_text("en-US"),
            timezone: some_text("America/New_York"),
            disable_spoofing: Vec::new(),
        },
        FingerprintPreset {
            id: text("preset_sg_residential"),
            name: text("新加坡住宅"),
            description: text("模拟新加坡住宅 IP Edge 浏览器"),
            seed: 1688,
            platform: text("windows"),
            platform_version: some_text("11.0"),
            brand: text("Edge"),
            brand_version: some_text("131.0"),
            hardware_concurrency: Some(4),
            language: some_text("en-SG"),
            timezone: some_text("Asia/Singapore"),
            disable_spoofing: gpu,
        },
        FingerprintPreset {
            id: text("preset_macos_premium"),
            name: text("macOS 高端用户"),
            description: text("模拟 macOS Safari 高端用户"),
            seed: 3333,
            platform: text("macos"),
            platform_version: some_text("14.2"),
            brand: text("Safari"),
            brand_version: some_text("17.2"),
            hardware_concurrency: Some(16),
            language: some_text("en-US"),
            timezone: some_text("America/Los_Angeles"),
            disable_spoofing: Vec::new(),
        },
        FingerprintPreset {
            id: text("preset_linux_dev"),
            name: text("Linux 开发者"),
            description: text("模拟 Linux Chromium 开发者环境"),
            seed: 5555,
            platform: text("linux"),
            platform_version: None,
            brand: text("Chromium"),
            brand_version: None,
            hardware_concurrency: Some(32),
            language: some_text("en-US"),
            timezone: some_text("UTC"),
            disable_spoofing: Vec::new(),
        },
    ];
    assert(v@[0]@.disable_spoofing =~= Seq::<Seq<char>>::empty());
    assert(v@[1]@.disable_spoofing =~= seq!["gpu"@]);
    assert(v@[2]@.disable_spoofing =~= Seq::<Seq<char>>::empty());
    assert(v@[3]@.disable_spoofing =~= Seq::<Seq<char>>::empty());
    Ok(v)
}

/// Whether a preset has the identifier `id`.
pub open spec fn has_preset_id(id: Seq<char>) -> spec_fn(PresetView) -> bool {
    |p: PresetView| p.id == id
}

/// The message for a preset that does not exist.
pub open spec fn preset_not_found(id: Seq<char>) -> Seq<char> {
    "Preset "@ + id + " not found"@
}

/// Whether the profile `p` was made from the preset `preset` under the name
/// `name`: the preset's settings, accept-languages, proxy and description
/// unset.
pub open spec fn made_from_preset(p: FingerprintProfile, preset: PresetView, name: Seq<char>) -> bool {
    &&& p.name@ == name
    &&& p.seed == preset.seed
    &&& p.platform@ == preset.platform
    &&& opt_text(p.platform_version) == preset.platform_version
    &&& p.brand@ == preset.brand
    &&& opt_text(p.brand_version) == preset.brand_version
    &&& p.hardware_concurrency == preset.hardware_concurrency
    &&& opt_text(p.language) == preset.language
    &&& p.accept_languages is None
    &&& opt_text(p.timezone) == preset.timezone
    &&& p.proxy_server is None
    &&& p.disable_spoofing.deep_view() == preset.disable_spoofing
    &&& p.description is None
}

/// A profile made from `preset` under the name `name`, the identifier `id`
/// and the creation time `now`.
pub fn profile_from_preset(preset: &FingerprintPreset, name: String, id: String, now: String) -> (p: FingerprintProfile)
    ensures
        made_from_preset(p, preset@, name@),
        p.id == id,
        p.created_at == now,
        p.updated_at == now,
{
    let mut p = FingerprintProfile::with_identity(id, now, name, preset.seed, preset.platform.clone(), preset.brand.clone());
    p.platform_version = copy_opt_text(&preset.platform_version);
    p.brand_version = copy_opt_text(&preset.brand_version);
    p.hardware_concurrency = preset.hardware_concurrency;
    p.language = copy_opt_text(&preset.language);
    p.timezone = copy_opt_text(&preset.timezone);
    p.disable_spoofing = copy_texts(&preset.disable_spoofing);
    p
}

fn find_preset_index(presets: &Vec<FingerprintPreset>, preset_id: &str) -> (r: Option<usize>)
    ensures
        r matches Some(i) ==> i < presets@.len(),
        match r {
            Some(i) => first_index(presets@.map_values(|p: FingerprintPreset| p@), has_preset_id(preset_id@)) == Some(i as int),
            None => first_index(presets@.map_values(|p: FingerprintPreset| p@), has_preset_id(preset_id@)) == None::<int>,
        },
{
    let ghost views = presets@.map_values(|p: FingerprintPreset| p@);
    let n = presets.len();
    let mut i: usize = 0;
    while i < n
        invariant
            n == presets@.len(),
            views == presets@.map_values(|p: FingerprintPreset| p@),
            i <= n,
            first_index(views, has_preset_id(preset_id@)) == first_index_from(views, has_preset_id(preset_id@), i as int),
        decreases n - i,
    {
        assert(views[i as int] == presets@[i as int]@);
        if same_text(presets[i].id.as_str(), preset_id) {
            return Some(i);
        }
        i = i + 1;
    }
    None
}

/// The profiles with a new profile, made from the preset `preset_id` under
/// the name `name`, the identifier `id` and the creation time `now`, added
/// at the end; and that identifier. An error when there is no such preset.
pub fn create_profile_from_preset_with(
    profiles: Vec<FingerprintProfile>,
    preset_id: &str,
    name: String,
    id: String,
    now: String,
) -> (r: Result<(Vec<FingerprintProfile>, String), String>)
    ensures
        match first_match(preset_table(), has_preset_id(preset_id@)) {
            Some(preset) => r matches Ok(res) && {
                &&& res.0@.len() == profiles@.len() + 1
                &&& res.0@.take(profiles@.len() as int) == profiles@
                &&& made_from_preset(res.0@.last(), preset, name@)
                &&& res.0@.last().id == id
                &&& res.0@.last().created_at == now
                &&& res.0@.last().updated_at == now
                &&& res.1 == id
            },
            None => r matches Err(e) && e@ == preset_not_found(preset_id@),
        },
{
    let presets = match list_fingerprint_presets() {
        Ok(v) => v,
        Err(e) => return Err(e),
    };
    assert(presets@.map_values(|p: FingerprintPreset| p@) =~= preset_table());
    match find_preset_index(&presets, preset_id) {
        Some(i) => {
            let p = profile_from_preset(&presets[i], name, id.clone(), now);
            let mut profiles = profiles;
            let ghost before = profiles@;
            profiles.push(p);
            assert(profiles@.take(before.len() as int) =~= before);
            Ok((profiles, id))
        },
        None => {
            let mut e = String::from_str("Preset ");
            e.append(preset_id);
            e.append(" not found");
            Err(e)
        },
    }
}

/// The profiles with a new profile, made from the preset `preset_id` under
/// the name `name` with a fresh identifier and created now, added at the
/// end; and that identifier. An error when there is no such preset.
pub fn create_profile_from_preset(
    profiles: Vec<FingerprintProfile>,
    preset_id: &str,
    name: String,
) -> (r: Result<(Vec<FingerprintProfile>, String), String>)
    ensures
        match first_match(preset_table(), has_preset_id(preset_id@)) {
            Some(preset) => r matches Ok(res) && {
                &&& res.0@.len() == profiles@.len() + 1
                &&& res.0@.take(profiles@.len() as int) == profiles@
                &&& made_from_preset(res.0@.last(), preset, name@)
                &&& res.0@.last().id == res.1
                &&& is_uuid_v4_text(res.1@)
                &&& res.0@.last().created_at == res.0@.last().updated_at
                &&& is_rfc3339_text(res.0@.last().created_at@)
            },
            None => r matches Err(e) && e@ == preset_not_found(preset_id@),
        },
{
    let id = new_uuid();
    let now = now_rfc3339();
    create_profile_from_preset_with(profiles, preset_id, name, id, now)
}

/// A profile made from a preset carries each of the preset's settings, and
/// the options a preset does not have are unset.
pub proof fn law_preset_profile_settings(p: FingerprintProfile, preset: PresetView, name: Seq<char>)
    requires
        made_from_preset(p, preset, name),
    ensures
        p.name@ == name,
        p.seed == preset.seed,
        p.platform@ == preset.platform,
        preset.platform_version matches Some(x) ==> p.platform_version matches Some(y) && y@ == x,
        preset.platform_version is None ==> p.platform_version is None,
        p.brand@ == preset.brand,
        preset.brand_version matches Some(x) ==> p.brand_version matches Some(y) && y@ == x,
        preset.brand_version is None ==> p.brand_version is None,
        p.hardware_concurrency == preset.hardware_concurrency,
        preset.language matches Some(x) ==> p.language matches Some(y) && y@ == x,
        preset.language is None ==> p.language is None,
        preset.timezone matches Some(x) ==> p.timezone matches Some(y) && y@ == x,
        preset.timezone is None ==> p.timezone is None,
        p.disable_spoofing.deep_view() == preset.disable_spoofing,
        p.accept_languages is None,
        p.proxy_server is None,
        p.description is None,
{
}

} // verus!
