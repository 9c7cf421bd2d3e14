//! Kernel releases, installed kernels and fingerprint profiles.

use std::collections::HashMap;
use vstd::prelude::*;
use crate::stamp::{is_rfc3339_text, is_uuid_v4_text, new_uuid, now_rfc3339};
use crate::text::{
    concat_text, decimal, join_strings, join_with, push_text, same_text,
    text_with_number,
};
use crate::version::KernelVersion;

verus! {

/// The operating system a kernel binary is laid out for.
#[derive(Debug, Clone, Copy, PartialEq, Eq, Structural)]
pub enum TargetOs {
    Windows,
    Macos,
    Linux,
}

/// A published kernel release.
#[derive(Debug, Clone)]
pub struct KernelRelease {
    pub version: KernelVersion,
    pub release_date: String,
    /// Platforms such as "windows-x64", "linux-x64", "macos-x64", "macos-arm64".
    pub platforms: Vec<String>,
    pub checksums: HashMap<String, String>,
}

impl KernelRelease {
    /// Whether `platform` is one of the release's platforms.
    pub fn supports_platform(&self, platform: &str) -> (r: bool)
        ensures
            r == exists|i: int| 0 <= i < self.platforms@.len() && (#[trigger] self.platforms@[i])@ == platform@,
    {
        let n = self.platforms.len();
        let mut i: usize = 0;
        while i < n
            invariant
                n == self.platforms@.len(),
                i <= n,
                forall|k: int| 0 <= k < i ==> (#[trigger] self.platforms@[k])@ != platform@,
            decreases n - i,
        {
            if same_text(self.platforms[i].as_str(), platform) {
                return true;
            }
            i = i + 1;
        }
        false
    }
}

/// Whether `c` separates path components on `os`.
pub open spec fn is_separator(os: TargetOs, c: char) -> bool {
    c == '/' || (os == TargetOs::Windows && c == '\\')
}

/// The separator that `os` writes between path components.
pub open spec fn main_separator(os: TargetOs) -> char {
    if os == TargetOs::Windows { '\\' } else { '/' }
}

/// Whether `base` is a bare Windows drive such as `C:`, to which a relative
/// path is appended without a separator.
pub open spec fn is_bare_drive(os: TargetOs, base: Seq<char>) -> bool {
    &&& os == TargetOs::Windows
    &&& base.len() == 2
    &&& base[1] == ':'
    &&& (65 <= (base[0] as u32) <= 90 || 97 <= (base[0] as u32) <= 122)
}

/// `rel`, a relative path, appended to `base` as a further component.
pub open spec fn join_path(os: TargetOs, base: Seq<char>, rel: Seq<char>) -> Seq<char> {
    if base.len() == 0 || is_separator(os, base.last()) || is_bare_drive(os, base) {
        base + rel
    } else {
        base.push(main_separator(os)) + rel
    }
}

/// Where the browser binary lies inside a kernel's install directory.
pub open spec fn binary_in_install(os: TargetOs) -> Seq<char> {
    match os {
        TargetOs::Windows => "chrome.exe"@,
        TargetOs::Macos => "Chromium.app/Contents/MacOS/Chromium"@,
        TargetOs::Linux => "chrome"@,
    }
}

/// Whether `base` may carry a Windows verbatim prefix (`\\?\`, with either
/// separator): there std rebuilds the joined path from its components.
pub open spec fn verbatim_like(os: TargetOs, base: Seq<char>) -> bool {
    &&& os == TargetOs::Windows
    &&& base.len() >= 4
    &&& is_separator(os, base[0])
    &&& is_separator(os, base[1])
    &&& base[2] == '?'
    &&& is_separator(os, base[3])
}

/// `rel` joined onto `base` by std's `Path::join` on the platform the
/// library is built for. That depends on the build target, so nothing is
/// stated of the result.
#[verifier::external_body]
fn std_path_join(base: &str, rel: &str) -> (p: String) {
    std::path::Path::new(base).join(rel).to_string_lossy().into_owned()
}

fn is_separator_exec(os: TargetOs, c: char) -> (r: bool)
    ensures
        r == is_separator(os, c),
{
    c == '/' || (os == TargetOs::Windows && c == '\\')
}

/// `rel`, a relative path, joined onto `base` as a further component. A
/// verbatim Windows base is left to std's `Path::join`.
pub fn join_path_text(os: TargetOs, base: &str, rel: &str) -> (p: String)
    ensures
        !verbatim_like(os, base@) ==> p@ == join_path(os, base@, rel@),
{
    let n = base.unicode_len();
    if os == TargetOs::Windows && n >= 4 && is_separator_exec(os, base.get_char(0))
        && is_separator_exec(os, base.get_char(1)) && base.get_char(2) == '?'
        && is_separator_exec(os, base.get_char(3)) {
        return std_path_join(base, rel);
    }
    let mut p = String::from_str(base);
    if n > 0 {
        let last = base.get_char(n - 1);
        assert(base@.last() == last);
        let is_sep = is_separator_exec(os, last);
        let bare_drive = if os == TargetOs::Windows && n == 2 {
            let first = base.get_char(0) as u32;
            last == ':' && ((65 <= first && first <= 90) || (97 <= first && first <= 122))
        } else {
            false
        };
        if !is_sep && !bare_drive {
            if os == TargetOs::Windows {
                proof { reveal_strlit("\\"); }
                p.append("\\");
            } else {
                proof { reveal_strlit("/"); }
                p.append("/");
            }
        }
    }
    p.append(rel);
    p
}

/// A kernel installed on this machine.
#[derive(Debug)]
pub struct InstalledKernel {
    pub version: KernelVersion,
    pub install_path: String,
    pub binary_path: String,
    pub installed_at: String,
    pub is_default: bool,
}

impl Clone for InstalledKernel {
    fn clone(&self) -> (r: Self)
        ensures
            r == *self,
    {
        InstalledKernel {
            version: self.version,
            install_path: self.install_path.clone(),
            binary_path: self.binary_path.clone(),
            installed_at: self.installed_at.clone(),
            is_default: self.is_default,
        }
    }
}

impl InstalledKernel {
    /// A kernel installed under `install_path` at the time `installed_at`;
    /// its binary lies where `os` places it.
    pub fn with_install_time(
        version: KernelVersion,
        install_path: String,
        is_default: bool,
        os: TargetOs,
        installed_at: String,
    ) -> (k: Self)
        ensures
            k.version == version,
            k.install_path == install_path,
            !verbatim_like(os, install_path@) ==> k.binary_path@ == join_path(os, install_path@, binary_in_install(os)),
            k.installed_at == installed_at,
            k.is_default == is_default,
    {
        let binary_path = Self::get_binary_path(&install_path, os);
        InstalledKernel { version, install_path, binary_path, installed_at, is_default }
    }

    /// A kernel installed under `install_path` now.
    pub fn new(version: KernelVersion, install_path: String, is_default: bool, os: TargetOs) -> (k: Self)
        ensures
            k.version == version,
            k.install_path == install_path,
            !verbatim_like(os, install_path@) ==> k.binary_path@ == join_path(os, install_path@, binary_in_install(os)),
            k.is_default == is_default,
            is_rfc3339_text(k.installed_at@),
    {
        let installed_at = now_rfc3339();
        Self::with_install_time(version, install_path, is_default, os, installed_at)
    }

    fn get_binary_path(install_path: &String, os: TargetOs) -> (p: String)
        ensures
            !verbatim_like(os, install_path@) ==> p@ == join_path(os, install_path@, binary_in_install(os)),
    {
        match os {
            TargetOs::Windows => join_path_text(os, install_path.as_str(), "chrome.exe"),
            TargetOs::Macos => join_path_text(os, install_path.as_str(), "Chromium.app/Contents/MacOS/Chromium"),
            TargetOs::Linux => join_path_text(os, install_path.as_str(), "chrome"),
        }
    }
}


/// A fingerprint profile: the seed and the identity that a browser presents.
#[derive(Debug)]
pub struct FingerprintProfile {
    pub id: String,
    pub name: String,
    pub seed: u32,
    /// "windows", "linux" or "macos".
    pub platform: String,
    pub platform_version: Option<String>,
    /// "Chrome", "Edge", "Opera", "Vivaldi" or "Chromium".
    pub brand: String,
    pub brand_version: Option<String>,
    pub hardware_concurrency: Option<u32>,
    pub language: Option<String>,
    pub accept_languages: Option<String>,
    pub timezone: Option<String>,
    pub proxy_server: Option<String>,
    /// Spoofing features to switch off: "font", "audio", "canvas", "clientrects", "gpu".
    pub disable_spoofing: Vec<String>,
    pub created_at: String,
    pub updated_at: String,
    pub description: Option<String>,
}

/// A profile's content, every text taken by its characters.
pub struct ProfileView {
    pub id: Seq<char>,
    pub name: Seq<char>,
    pub seed: u32,
    pub platform: Seq<char>,
    pub platform_version: Option<Seq<char>>,
    pub brand: Seq<char>,
    pub brand_version: Option<Seq<char>>,
    pub hardware_concurrency: Option<u32>,
    pub language: Option<Seq<char>>,
    pub accept_languages: Option<Seq<char>>,
    pub timezone: Option<Seq<char>>,
    pub proxy_server: Option<Seq<char>>,
    pub disable_spoofing: Seq<Seq<char>>,
    pub created_at: Seq<char>,
    pub updated_at: Seq<char>,
    pub description: Option<Seq<char>>,
}

/// An optional text taken by its characters.
pub open spec fn opt_text(o: Option<String>) -> Option<Seq<char>> {
    match o {
        Some(s) => Some(s@),
        None => None,
    }
}

impl View for FingerprintProfile {
    type V = ProfileView;

    open spec fn view(&self) -> ProfileView {
        ProfileView {
            id: self.id@,
            name: self.name@,
            seed: self.seed,
            platform: self.platform@,
            platform_version: opt_text(self.platform_version),
            brand: self.brand@,
            brand_version: opt_text(self.brand_version),
            hardware_concurrency: self.hardware_concurrency,
            language: opt_text(self.language),
            accept_languages: opt_text(self.accept_languages),
            timezone: opt_text(self.timezone),
            proxy_server: opt_text(self.proxy_server),
            disable_spoofing: self.disable_spoofing.deep_view(),
            created_at: self.created_at@,
            updated_at: self.updated_at@,
            description: opt_text(self.description),
        }
    }
}

/// A copy of an optional text.
pub fn copy_opt_text(o: &Option<String>) -> (r: Option<String>)
    ensures
        r == *o,
{
    match o {
        Some(s) => Some(s.clone()),
        None => None,
    }
}

/// A copy of a list of texts.
pub fn copy_texts(v: &Vec<String>) -> (r: Vec<String>)
    ensures
        r.deep_view() == v.deep_view(),
{
    let mut r: Vec<String> = Vec::new();
    let n = v.len();
    let mut i: usize = 0;
    while i < n
        invariant
            n == v@.len(),
            i <= n,
            r.deep_view() == v.deep_view().take(i as int),
        decreases n - i,
    {
        push_text(&mut r, v[i].clone());
        assert(v.deep_view().take(i + 1) =~= v.deep_view().take(i as int).push(v@[i as int]@));
        i = i + 1;
    }
    assert(v.deep_view().take(n as int) =~= v.deep_view());
    r
}

impl Clone for FingerprintProfile {
    fn clone(&self) -> (r: Self)
        ensures
            r@ == self@,
    {
        FingerprintProfile {
            id: self.id.clone(),
            name: self.name.clone(),
            seed: self.seed,
            platform: self.platform.clone(),
            platform_version: copy_opt_text(&self.platform_version),
            brand: self.brand.clone(),
            brand_version: copy_opt_text(&self.brand_version),
            hardware_concurrency: self.hardware_concurrency,
            language: copy_opt_text(&self.language),
            accept_languages: copy_opt_text(&self.accept_languages),
            timezone: copy_opt_text(&self.timezone),
            proxy_server: copy_opt_text(&self.proxy_server),
            disable_spoofing: copy_texts(&self.disable_spoofing),
            created_at: self.created_at.clone(),
            updated_at: self.updated_at.clone(),
            description: copy_opt_text(&self.description),
        }
    }
}

/// `args`, followed by `prefix` and the value when there is one.
pub open spec fn push_if_some(args: Seq<Seq<char>>, prefix: Seq<char>, value: Option<String>) -> Seq<Seq<char>> {
    match value {
        Some(v) => args.push(prefix + v@),
        None => args,
    }
}

/// The argument that switches off the listed spoofing features, if any are listed.
pub open spec fn push_disable_spoofing(args: Seq<Seq<char>>, features: Seq<Seq<char>>) -> Seq<Seq<char>> {
    if features.len() == 0 {
        args
    } else {
        args.push("--disable-spoofing="@ + join_with(features, ","@))
    }
}

/// The arguments every fingerprint launch starts with.
pub open spec fn base_fingerprint_args(seed: u32, platform: Seq<char>, brand: Seq<char>) -> Seq<Seq<char>> {
    seq![
        "--fingerprint="@ + decimal(seed as nat),
        "--fingerprint-platform="@ + platform,
        "--fingerprint-brand="@ + brand,
    ]
}

/// `args`, followed by the hardware concurrency argument when it is set.
pub open spec fn push_concurrency(args: Seq<Seq<char>>, n: Option<u32>) -> Seq<Seq<char>> {
    match n {
        Some(c) => args.push("--fingerprint-hardware-concurrency="@ + decimal(c as nat)),
        None => args,
    }
}

/// The command line arguments of a profile, in order.
pub open spec fn profile_cli_args(p: FingerprintProfile) -> Seq<Seq<char>> {
    let a0 = base_fingerprint_args(p.seed, p.platform@, p.brand@);
    let a1 = push_if_some(a0, "--fingerprint-platform-version="@, p.platform_version);
    let a2 = push_if_some(a1, "--fingerprint-brand-version="@, p.brand_version);
    let a3 = push_concurrency(a2, p.hardware_concurrency);
    let a4 = push_if_some(a3, "--lang="@, p.language);
    let a5 = push_if_some(a4, "--accept-lang="@, p.accept_languages);
    let a6 = push_if_some(a5, "--timezone="@, p.timezone);
    let a7 = push_if_some(a6, "--proxy-server="@, p.proxy_server);
    push_disable_spoofing(a7, p.disable_spoofing.deep_view())
}

/// Appends `prefix` and the value to `args` when there is a value.
pub fn push_opt_arg(args: &mut Vec<String>, prefix: &str, value: &Option<String>)
    ensures
        final(args).deep_view() == push_if_some(old(args).deep_view(), prefix@, *value),
{
    if let Some(v) = value {
        push_text(args, concat_text(prefix, v.as_str()));
    }
}

/// Appends the hardware concurrency argument to `args` when it is set.
pub fn push_concurrency_arg(args: &mut Vec<String>, n: Option<u32>)
    ensures
        final(args).deep_view() == push_concurrency(old(args).deep_view(), n),
{
    if let Some(c) = n {
        push_text(args, text_with_number("--fingerprint-hardware-concurrency=", c));
    }
}

/// Appends the argument that switches off `features` when any are listed.
pub fn push_disable_spoofing_arg(args: &mut Vec<String>, features: &Vec<String>)
    ensures
        final(args).deep_view() == push_disable_spoofing(old(args).deep_view(), features.deep_view()),
{
    if features.len() > 0 {
        let joined = join_strings(features, ",");
        push_text(args, concat_text("--disable-spoofing=", joined.as_str()));
    }
}

/// The three arguments every fingerprint launch starts with.
pub fn base_fingerprint_arg_list(seed: u32, platform: &str, brand: &str) -> (args: Vec<String>)
    ensures
        args.deep_view() == base_fingerprint_args(seed, platform@, brand@),
{
    let mut args: Vec<String> = Vec::new();
    push_text(&mut args, text_with_number("--fingerprint=", seed));
    push_text(&mut args, concat_text("--fingerprint-platform=", platform));
    push_text(&mut args, concat_text("--fingerprint-brand=", brand));
    assert(args.deep_view() =~= base_fingerprint_args(seed, platform@, brand@));
    args
}

impl FingerprintProfile {
    /// A profile with the given identifier and creation time; every optional
    /// setting is unset and no spoofing feature is switched off.
    pub fn with_identity(id: String, now: String, name: String, seed: u32, platform: String, brand: String) -> (p: Self)
        ensures
            p.id == id,
            p.name == name,
            p.seed == seed,
            p.platform == platform,
            p.brand == brand,
            p.platform_version is None,
            p.brand_version is None,
            p.hardware_concurrency is None,
            p.language is None,
            p.accept_languages is None,
            p.timezone is None,
            p.proxy_server is None,
            p.disable_spoofing@.len() == 0,
            p.created_at == now,
            p.updated_at == now,
            p.description is None,
    {
        FingerprintProfile {
            id,
            name,
            seed,
            platform,
            platform_version: None,
            brand,
            brand_version: None,
            hardware_concurrency: None,
            language: None,
            accept_languages: None,
            timezone: None,
            proxy_server: None,
            disable_spoofing: Vec::new(),
            created_at: now.clone(),
            updated_at: now,
            description: None,
        }
    }

    /// A profile with a fresh random identifier, created now.
    pub fn new(name: String, seed: u32, platform: String, brand: String) -> (p: Self)
        ensures
            is_uuid_v4_text(p.id@),
            p.name == name,
            p.seed == seed,
            p.platform == platform,
            p.brand == brand,
            p.platform_version is None,
            p.brand_version is None,
            p.hardware_concurrency is None,
            p.language is None,
            p.accept_languages is None,
            p.timezone is None,
            p.proxy_server is None,
            p.disable_spoofing@.len() == 0,
            p.created_at == p.updated_at,
            is_rfc3339_text(p.created_at@),
            p.description is None,
    {
        let now = now_rfc3339();
        let id = new_uuid();
        Self::with_identity(id, now, name, seed, platform, brand)
    }

    /// The browser's command line arguments for this profile.
    pub fn to_cli_args(&self) -> (args: Vec<String>)
        ensures
            args.deep_view() == profile_cli_args(*self),
    {
        let mut args = base_fingerprint_arg_list(self.seed, self.platform.as_str(), self.brand.as_str());
        push_opt_arg(&mut args, "--fingerprint-platform-version=", &self.platform_version);
        push_opt_arg(&mut args, "--fingerprint-brand-version=", &self.brand_version);
        push_concurrency_arg(&mut args, self.hardware_concurrency);
        push_opt_arg(&mut args, "--lang=", &self.language);
        push_opt_arg(&mut args, "--accept-lang=", &self.accept_languages);
        push_opt_arg(&mut args, "--timezone=", &self.timezone);
        push_opt_arg(&mut args, "--proxy-server=", &self.proxy_server);
        push_disable_spoofing_arg(&mut args, &self.disable_spoofing);
        args
    }
}

/// Whether `b` starts with all of `a`.
pub open spec fn extends(a: Seq<Seq<char>>, b: Seq<Seq<char>>) -> bool {
    a.len() <= b.len() && forall|i: int| 0 <= i < a.len() ==> #[trigger] b[i] == a[i]
}

/// Starting with a list is passed on through a longer one.
pub proof fn lemma_extends_trans(a: Seq<Seq<char>>, b: Seq<Seq<char>>, c: Seq<Seq<char>>)
    requires
        extends(a, b),
        extends(b, c),
    ensures
        extends(a, c),
{
    assert forall|i: int| 0 <= i < a.len() implies #[trigger] c[i] == a[i] by {
        assert(c[i] == b[i]);
    }
}

/// A profile's command line starts with its seed, platform and brand, and
/// ends with the spoofing features it switches off, when there are any.
pub proof fn law_profile_args_frame(p: FingerprintProfile)
    ensures
        profile_cli_args(p).len() >= 3,
        profile_cli_args(p)[0] == "--fingerprint="@ + decimal(p.seed as nat),
        profile_cli_args(p)[1] == "--fingerprint-platform="@ + p.platform@,
        profile_cli_args(p)[2] == "--fingerprint-brand="@ + p.brand@,
        p.disable_spoofing@.len() > 0 ==> profile_cli_args(p).last() == "--disable-spoofing="@ + join_with(
            p.disable_spoofing.deep_view(),
            ","@,
        ),
{
    let a0 = base_fingerprint_args(p.seed, p.platform@, p.brand@);
    let a1 = push_if_some(a0, "--fingerprint-platform-version="@, p.platform_version);
    let a2 = push_if_some(a1, "--fingerprint-brand-version="@, p.brand_version);
    let a3 = push_concurrency(a2, p.hardware_concurrency);
    let a4 = push_if_some(a3, "--lang="@, p.language);
    let a5 = push_if_some(a4, "--accept-lang="@, p.accept_languages);
    let a6 = push_if_some(a5, "--timezone="@, p.timezone);
    let a7 = push_if_some(a6, "--proxy-server="@, p.proxy_server);
    let a8 = push_disable_spoofing(a7, p.disable_spoofing.deep_view());
    assert(extends(a0, a1));
    assert(extends(a1, a2));
    assert(extends(a2, a3));
    assert(extends(a3, a4));
    assert(extends(a4, a5));
    assert(extends(a5, a6));
    assert(extends(a6, a7));
    assert(extends(a7, a8));
    lemma_extends_trans(a0, a1, a2);
    lemma_extends_trans(a0, a2, a3);
    lemma_extends_trans(a0, a3, a4);
    lemma_extends_trans(a0, a4, a5);
    lemma_extends_trans(a0, a5, a6);
    lemma_extends_trans(a0, a6, a7);
    lemma_extends_trans(a0, a7, a8);
    assert(a8[0] == a0[0] && a8[1] == a0[1] && a8[2] == a0[2]);
}

/// How many of `p`'s options are set; each set option adds one argument,
/// and a non-empty list of spoofing features to switch off adds one.
pub open spec fn set_option_count(p: FingerprintProfile) -> nat {
    (if p.platform_version is Some { 1nat } else { 0nat })
        + (if p.brand_version is Some { 1nat } else { 0nat })
        + (if p.hardware_concurrency is Some { 1nat } else { 0nat })
        + (if p.language is Some { 1nat } else { 0nat })
        + (if p.accept_languages is Some { 1nat } else { 0nat })
        + (if p.timezone is Some { 1nat } else { 0nat })
        + (if p.proxy_server is Some { 1nat } else { 0nat })
        + (if p.disable_spoofing@.len() > 0 { 1nat } else { 0nat })
}

/// The argument `x` stands among `args` at `k`.
proof fn lemma_arg_at(args: Seq<Seq<char>>, k: int, x: Seq<char>)
    requires
        0 <= k < args.len(),
        args[k] == x,
    ensures
        args.contains(x),
{
}

/// Each option of a profile that is set gives its own argument, whatever
/// the other options are, and nothing else is added: the command line holds
/// the three fingerprint arguments and one argument per set option.
pub proof fn law_profile_args_options(p: FingerprintProfile)
    ensures
        profile_cli_args(p).len() == 3 + set_option_count(p),
        p.platform_version matches Some(x) ==> profile_cli_args(p).contains("--fingerprint-platform-version="@ + x@),
        p.brand_version matches Some(x) ==> profile_cli_args(p).contains("--fingerprint-brand-version="@ + x@),
        p.hardware_concurrency matches Some(c) ==> profile_cli_args(p).contains(
            "--fingerprint-hardware-concurrency="@ + decimal(c as nat),
        ),
        p.language matches Some(x) ==> profile_cli_args(p).contains("--lang="@ + x@),
        p.accept_languages matches Some(x) ==> profile_cli_args(p).contains("--accept-lang="@ + x@),
        p.timezone matches Some(x) ==> profile_cli_args(p).contains("--timezone="@ + x@),
        p.proxy_server matches Some(x) ==> profile_cli_args(p).contains("--proxy-server="@ + x@),
        p.disable_spoofing@.len() > 0 ==> profile_cli_args(p).contains(
            "--disable-spoofing="@ + join_with(p.disable_spoofing.deep_view(), ","@),
        ),
{
    let a0 = base_fingerprint_args(p.seed, p.platform@, p.brand@);
    let a1 = push_if_some(a0, "--fingerprint-platform-version="@, p.platform_version);
    let a2 = push_if_some(a1, "--fingerprint-brand-version="@, p.brand_version);
    let a3 = push_concurrency(a2, p.hardware_concurrency);
    let a4 = push_if_some(a3, "--lang="@, p.language);
    let a5 = push_if_some(a4, "--accept-lang="@, p.accept_languages);
    let a6 = push_if_some(a5, "--timezone="@, p.timezone);
    let a7 = push_if_some(a6, "--proxy-server="@, p.proxy_server);
    let a8 = push_disable_spoofing(a7, p.disable_spoofing.deep_view());
    assert(a8 == profile_cli_args(p));
    assert(p.disable_spoofing.deep_view().len() == p.disable_spoofing@.len());
    assert(extends(a1, a2));
    assert(extends(a2, a3));
    assert(extends(a3, a4));
    assert(extends(a4, a5));
    assert(extends(a5, a6));
    assert(extends(a6, a7));
    assert(extends(a7, a8));
    lemma_extends_trans(a6, a7, a8);
    lemma_extends_trans(a5, a6, a8);
    lemma_extends_trans(a4, a5, a8);
    lemma_extends_trans(a3, a4, a8);
    lemma_extends_trans(a2, a3, a8);
    lemma_extends_trans(a1, a2, a8);
    if let Some(x) = p.platform_version {
        lemma_arg_at(a8, a0.len() as int, "--fingerprint-platform-version="@ + x@);
    }
    if let Some(x) = p.brand_version {
        lemma_arg_at(a8, a1.len() as int, "--fingerprint-brand-version="@ + x@);
    }
    if let Some(c) = p.hardware_concurrency {
        lemma_arg_at(a8, a2.len() as int, "--fingerprint-hardware-concurrency="@ + decimal(c as nat));
    }
    if let Some(x) = p.language {
        lemma_arg_at(a8, a3.len() as int, "--lang="@ + x@);
    }
    if let Some(x) = p.accept_languages {
        lemma_arg_at(a8, a4.len() as int, "--accept-lang="@ + x@);
    }
    if let Some(x) = p.timezone {
        lemma_arg_at(a8, a5.len() as int, "--timezone="@ + x@);
    }
    if let Some(x) = p.proxy_server {
        lemma_arg_at(a8, a6.len() as int, "--proxy-server="@ + x@);
    }
    if p.disable_spoofing@.len() > 0 {
        lemma_arg_at(a8, a7.len() as int, "--disable-spoofing="@ + join_with(p.disable_spoofing.deep_view(), ","@));
    }
}

/// Joining keeps the base and the relative path whole and puts at most one
/// separator between them: none when the base is empty, ends in a separator
/// or is a bare drive, and otherwise the platform's separator.
pub proof fn law_join_path_shape(os: TargetOs, base: Seq<char>, rel: Seq<char>)
    ensures
        join_path(os, base, rel).subrange(0, base.len() as int) == base,
        join_path(os, base, rel).skip(join_path(os, base, rel).len() - rel.len()) == rel,
        (base.len() == 0 || is_separator(os, base.last()) || is_bare_drive(os, base)) ==> join_path(os, base, rel).len()
            == base.len() + rel.len(),
        !(base.len() == 0 || is_separator(os, base.last()) || is_bare_drive(os, base)) ==> {
            &&& join_path(os, base, rel).len() == base.len() + 1 + rel.len()
            &&& join_path(os, base, rel)[base.len() as int] == main_separator(os)
        },
        os != TargetOs::Windows ==> main_separator(os) == '/',
        os == TargetOs::Windows ==> main_separator(os) == '\\',
{
    let j = join_path(os, base, rel);
    if base.len() == 0 || is_separator(os, base.last()) || is_bare_drive(os, base) {
        assert(j.subrange(0, base.len() as int) =~= base);
        assert(j.skip(j.len() - rel.len()) =~= rel);
    } else {
        assert(j.subrange(0, base.len() as int) =~= base);
        assert(j.skip(j.len() - rel.len()) =~= rel);
    }
}

} // verus!
