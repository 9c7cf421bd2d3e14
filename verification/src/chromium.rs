//! Launch settings of a fingerprint-chromium browser process.

use vstd::prelude::*;
use crate::config::{
    base_fingerprint_arg_list, base_fingerprint_args, copy_opt_text, copy_texts, extends,
    lemma_extends_trans, push_concurrency, push_concurrency_arg, push_disable_spoofing,
    push_disable_spoofing_arg, push_if_some, push_opt_arg,
};
use crate::text::{concat_text, decimal, join_with, push_text};

verus! {

/// The fingerprint settings handed to the browser on its command line.
#[derive(Debug)]
pub struct FingerprintConfig {
    pub seed: u32,
    /// "windows", "linux" or "macos".
    pub os_platform: String,
    pub platform_version: Option<String>,
    /// "Chrome", "Edge", "Opera" or "Vivaldi".
    pub brand: String,
    pub brand_version: Option<String>,
    pub hardware_concurrency: Option<u32>,
    /// Spoofing features to switch off: "font", "audio", "canvas", "clientrects", "gpu".
    pub disable_spoofing: Vec<String>,
}

/// The command line arguments of a configuration, in order.
pub open spec fn config_cli_args(c: FingerprintConfig) -> Seq<Seq<char>> {
    let a0 = base_fingerprint_args(c.seed, c.os_platform@, c.brand@);
    let a1 = push_if_some(a0, "--fingerprint-platform-version="@, c.platform_version);
    let a2 = push_if_some(a1, "--fingerprint-brand-version="@, c.brand_version);
    let a3 = push_concurrency(a2, c.hardware_concurrency);
    push_disable_spoofing(a3, c.disable_spoofing.deep_view())
}

impl Clone for FingerprintConfig {
    fn clone(&self) -> (r: Self)
        ensures
            r.seed == self.seed,
            r.os_platform == self.os_platform,
            r.platform_version == self.platform_version,
            r.brand == self.brand,
            r.brand_version == self.brand_version,
            r.hardware_concurrency == self.hardware_concurrency,
            r.disable_spoofing.deep_view() == self.disable_spoofing.deep_view(),
    {
        FingerprintConfig {
            seed: self.seed,
            os_platform: self.os_platform.clone(),
            platform_version: copy_opt_text(&self.platform_version),
            brand: self.brand.clone(),
            brand_version: copy_opt_text(&self.brand_version),
            hardware_concurrency: self.hardware_concurrency,
            disable_spoofing: copy_texts(&self.disable_spoofing),
        }
    }
}

impl FingerprintConfig {
    /// The browser's command line arguments for this configuration.
    pub fn to_cli_args(&self) -> (args: Vec<String>)
        ensures
            args.deep_view() == config_cli_args(*self),
    {
        let mut args = base_fingerprint_arg_list(self.seed, self.os_platform.as_str(), self.brand.as_str());
        push_opt_arg(&mut args, "--fingerprint-platform-version=", &self.platform_version);
        push_opt_arg(&mut args, "--fingerprint-brand-version=", &self.brand_version);
        push_concurrency_arg(&mut args, self.hardware_concurrency);
        push_disable_spoofing_arg(&mut args, &self.disable_spoofing);
        args
    }
}

/// A fingerprint-chromium kernel to launch: its binary, its user data
/// directory and its fingerprint settings.
pub struct FingerprintChromiumKernel {
    config: FingerprintConfig,
    binary_path: String,
    user_data_dir: String,
}

/// The arguments a kernel is launched with: the configuration's, then the
/// user data directory.
pub open spec fn launch_args(config: FingerprintConfig, user_data_dir: Seq<char>) -> Seq<Seq<char>> {
    config_cli_args(config).push("--user-data-dir="@ + user_data_dir)
}

impl FingerprintChromiumKernel {
    pub fn new(binary_path: String, user_data_dir: String, config: FingerprintConfig) -> (k: Self)
        ensures
            k.config() == config,
            k.binary_path_spec() == binary_path,
            k.user_data_dir_spec() == user_data_dir,
    {
        FingerprintChromiumKernel { config, binary_path, user_data_dir }
    }

    pub closed spec fn config(&self) -> FingerprintConfig {
        self.config
    }

    pub closed spec fn binary_path_spec(&self) -> String {
        self.binary_path
    }

    pub closed spec fn user_data_dir_spec(&self) -> String {
        self.user_data_dir
    }

    /// The arguments to start the browser with.
    pub fn launch_args(&self) -> (args: Vec<String>)
        ensures
            args.deep_view() == launch_args(self.config(), self.user_data_dir_spec()@),
    {
        let mut args = self.config.to_cli_args();
        push_text(&mut args, concat_text("--user-data-dir=", self.user_data_dir.as_str()));
        args
    }

    /// The browser binary to run.
    pub fn binary_path(&self) -> (p: &str)
        ensures
            p@ == self.binary_path_spec()@,
    {
        self.binary_path.as_str()
    }
}

/// How many of a configuration's options are set; each adds one argument,
/// and a non-empty list of spoofing features to switch off adds one.
pub open spec fn config_option_count(c: FingerprintConfig) -> nat {
    (if c.platform_version is Some { 1nat } else { 0nat })
        + (if c.brand_version is Some { 1nat } else { 0nat })
        + (if c.hardware_concurrency is Some { 1nat } else { 0nat })
        + (if c.disable_spoofing@.len() > 0 { 1nat } else { 0nat })
}

/// A configuration's command line starts with its seed, platform and brand,
/// has one argument for each set option, whatever the others, and nothing
/// more; a launch adds the user data directory at the end.
pub proof fn law_config_args_options(c: FingerprintConfig, user_data_dir: Seq<char>)
    ensures
        config_cli_args(c).len() == 3 + config_option_count(c),
        config_cli_args(c)[0] == "--fingerprint="@ + decimal(c.seed as nat),
        config_cli_args(c)[1] == "--fingerprint-platform="@ + c.os_platform@,
        config_cli_args(c)[2] == "--fingerprint-brand="@ + c.brand@,
        c.platform_version matches Some(x) ==> config_cli_args(c).contains("--fingerprint-platform-version="@ + x@),
        c.brand_version matches Some(x) ==> config_cli_args(c).contains("--fingerprint-brand-version="@ + x@),
        c.hardware_concurrency matches Some(n) ==> config_cli_args(c).contains(
            "--fingerprint-hardware-concurrency="@ + decimal(n as nat),
        ),
        c.disable_spoofing@.len() > 0 ==> config_cli_args(c).contains(
            "--disable-spoofing="@ + join_with(c.disable_spoofing.deep_view(), ","@),
        ),
        launch_args(c, user_data_dir).len() == config_cli_args(c).len() + 1,
        launch_args(c, user_data_dir).last() == "--user-data-dir="@ + user_data_dir,
        launch_args(c, user_data_dir).take(config_cli_args(c).len() as int) == config_cli_args(c),
{
    let a0 = base_fingerprint_args(c.seed, c.os_platform@, c.brand@);
    let a1 = push_if_some(a0, "--fingerprint-platform-version="@, c.platform_version);
    let a2 = push_if_some(a1, "--fingerprint-brand-version="@, c.brand_version);
    let a3 = push_concurrency(a2, c.hardware_concurrency);
    let a4 = push_disable_spoofing(a3, c.disable_spoofing.deep_view());
    assert(a4 == config_cli_args(c));
    assert(c.disable_spoofing.deep_view().len() == c.disable_spoofing@.len());
    assert(extends(a0, a1));
    assert(extends(a1, a2));
    assert(extends(a2, a3));
    assert(extends(a3, a4));
    lemma_extends_trans(a2, a3, a4);
    lemma_extends_trans(a1, a2, a4);
    lemma_extends_trans(a0, a1, a4);
    assert(a4[0] == a0[0] && a4[1] == a0[1] && a4[2] == a0[2]);
    if let Some(x) = c.platform_version {
        assert(a4[a0.len() as int] == "--fingerprint-platform-version="@ + x@);
    }
    if let Some(x) = c.brand_version {
        assert(a4[a1.len() as int] == "--fingerprint-brand-version="@ + x@);
    }
    if let Some(n) = c.hardware_concurrency {
        assert(a4[a2.len() as int] == "--fingerprint-hardware-concurrency="@ + decimal(n as nat));
    }
    if c.disable_spoofing@.len() > 0 {
        assert(a4[a3.len() as int] == "--disable-spoofing="@ + join_with(c.disable_spoofing.deep_view(), ","@));
    }
    assert(launch_args(c, user_data_dir).take(a4.len() as int) =~= a4);
}

} // verus!
