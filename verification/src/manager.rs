//! The kernel manager's decisions: registering and uninstalling kernels,
//! creating and cloning profiles. The manager reads and writes the store's
//! lists; these functions take the list as it was read and give back the list
//! to write.

use vstd::prelude::*;
use crate::config::{
    FingerprintProfile, InstalledKernel, ProfileView, TargetOs, binary_in_install, join_path, opt_text,
    profile_cli_args, push_if_some, verbatim_like,
};
use crate::search::{first_index, first_match, lemma_first_index};
use crate::stamp::{is_rfc3339_text, is_uuid_v4_text, new_uuid, now_rfc3339};
use crate::store::{KernelStore, has_profile_id, of_version, other_version, profile_not_found, profile_not_found_message, find_profile_index, find_version_index};
use crate::version::KernelVersion;

verus! {

/// Whether two profiles agree on every setting: all but identifier, name
/// and timestamps.
pub open spec fn same_settings(a: ProfileView, b: ProfileView) -> bool {
    &&& a.seed == b.seed
    &&& a.platform == b.platform
    &&& a.platform_version == b.platform_version
    &&& a.brand == b.brand
    &&& a.brand_version == b.brand_version
    &&& a.hardware_concurrency == b.hardware_concurrency
    &&& a.language == b.language
    &&& a.accept_languages == b.accept_languages
    &&& a.timezone == b.timezone
    &&& a.proxy_server == b.proxy_server
    &&& a.disable_spoofing == b.disable_spoofing
    &&& a.description == b.description
}

/// A copy of `profile` under the identifier `new_id` and the name
/// `new_name`, created at the time `now`.
pub fn cloned_profile(profile: &FingerprintProfile, new_id: String, new_name: String, now: String) -> (c: FingerprintProfile)
    ensures
        c.id == new_id,
        c.name == new_name,
        c.created_at == now,
        c.updated_at == now,
        same_settings(c@, profile@),
{
    let mut c = profile.clone();
    c.id = new_id;
    c.name = new_name;
    c.created_at = now.clone();
    c.updated_at = now;
    c
}

/// The location of the first kernel of version `v`, if there is one.
pub open spec fn install_path_of(kernels: Seq<InstalledKernel>, v: KernelVersion) -> Option<String> {
    match first_match(kernels, of_version(v)) {
        Some(k) => Some(k.install_path),
        None => None,
    }
}

/// Manages kernel versions and fingerprint profiles under a data directory.
pub struct KernelManager {
    store: KernelStore,
    data_dir: String,
}

impl KernelManager {
    pub fn new(data_dir: String) -> (m: Self)
        ensures
            m.data_dir_spec() == data_dir,
            m.store_spec().data_dir_spec() == data_dir,
    {
        let store = KernelStore::new(data_dir.clone());
        KernelManager { store, data_dir }
    }

    pub closed spec fn data_dir_spec(&self) -> String {
        self.data_dir
    }

    pub closed spec fn store_spec(&self) -> KernelStore {
        self.store
    }

    /// The store the manager keeps its lists in.
    pub fn store(&self) -> (s: &KernelStore)
        ensures
            *s == self.store_spec(),
    {
        &self.store
    }

    /// The kernels with a new, non-default kernel of `version`, installed
    /// under `install_path` at the time `installed_at`, added at the end.
    pub fn register_kernel_at(
        &self,
        kernels: Vec<InstalledKernel>,
        version: KernelVersion,
        install_path: String,
        os: TargetOs,
        installed_at: String,
    ) -> (r: Vec<InstalledKernel>)
        ensures
            r@.len() == kernels@.len() + 1,
            r@.take(kernels@.len() as int) == kernels@,
            r@.last().version == version,
            r@.last().install_path == install_path,
            !verbatim_like(os, install_path@) ==> r@.last().binary_path@ == join_path(os, install_path@, binary_in_install(os)),
            r@.last().installed_at == installed_at,
            !r@.last().is_default,
    {
        let kernel = InstalledKernel::with_install_time(version, install_path, false, os, installed_at);
        let r = self.store.add_kernel(kernels, kernel);
        assert(r@.take(kernels@.len() as int) =~= kernels@);
        r
    }

    /// The kernels with a new, non-default kernel of `version`, installed
    /// under `install_path` now, added at the end.
    pub fn register_kernel(
        &self,
        kernels: Vec<InstalledKernel>,
        version: KernelVersion,
        install_path: String,
        os: TargetOs,
    ) -> (r: Vec<InstalledKernel>)
        ensures
            r@.len() == kernels@.len() + 1,
            r@.take(kernels@.len() as int) == kernels@,
            r@.last().version == version,
            r@.last().install_path == install_path,
            !verbatim_like(os, install_path@) ==> r@.last().binary_path@ == join_path(os, install_path@, binary_in_install(os)),
            !r@.last().is_default,
            is_rfc3339_text(r@.last().installed_at@),
    {
        let installed_at = now_rfc3339();
        self.register_kernel_at(kernels, version, install_path, os, installed_at)
    }

    /// Uninstalling `version`: the location of the first kernel of that
    /// version, whose files are to go, and the kernels without those of
    /// that version.
    pub fn uninstall_kernel(&self, kernels: Vec<InstalledKernel>, version: &KernelVersion) -> (r: (Option<String>, Vec<InstalledKernel>))
        ensures
            r.0 == install_path_of(kernels@, *version),
            r.1@ == kernels@.filter(other_version(*version)),
    {
        let path = match find_version_index(&kernels, version) {
            Some(i) => Some(kernels[i].install_path.clone()),
            None => None,
        };
        let rest = self.store.remove_kernel(kernels, version);
        (path, rest)
    }

    /// The profiles with a new profile, created now under a fresh
    /// identifier, added at the end; and that identifier.
    pub fn create_profile(
        &self,
        profiles: Vec<FingerprintProfile>,
        name: String,
        seed: u32,
        platform: String,
        brand: String,
    ) -> (r: (Vec<FingerprintProfile>, String))
        ensures
            r.0@.len() == profiles@.len() + 1,
            r.0@.take(profiles@.len() as int) == profiles@,
            r.0@.last().id == r.1,
            is_uuid_v4_text(r.1@),
            r.0@.last().name == name,
            r.0@.last().seed == seed,
            r.0@.last().platform == platform,
            r.0@.last().brand == brand,
            r.0@.last().platform_version is None,
            r.0@.last().brand_version is None,
            r.0@.last().hardware_concurrency is None,
            r.0@.last().language is None,
            r.0@.last().accept_languages is None,
            r.0@.last().timezone is None,
            r.0@.last().proxy_server is None,
            r.0@.last().disable_spoofing@.len() == 0,
            r.0@.last().created_at == r.0@.last().updated_at,
            is_rfc3339_text(r.0@.last().created_at@),
            r.0@.last().description is None,
    {
        let profile = FingerprintProfile::new(name, seed, platform, brand);
        let id = profile.id.clone();
        let r = self.store.add_profile(profiles, profile);
        assert(r@.take(profiles@.len() as int) =~= profiles@);
        (r, id)
    }

    /// The profiles with a copy of the first profile of identifier
    /// `profile_id` added at the end, under the identifier `new_id` and the
    /// name `new_name`, created at the time `now`; and that identifier. An
    /// error when no profile has the identifier `profile_id`.
    pub fn clone_profile_with(
        &self,
        profiles: Vec<FingerprintProfile>,
        profile_id: &str,
        new_name: String,
        new_id: String,
        now: String,
    ) -> (r: Result<(Vec<FingerprintProfile>, String), String>)
        ensures
            match first_index(profiles@, has_profile_id(profile_id@)) {
                Some(i) => r matches Ok(res) && {
                    &&& res.0@.len() == profiles@.len() + 1
                    &&& res.0@.take(profiles@.len() as int) == profiles@
                    &&& res.1 == new_id
                    &&& res.0@.last().id == new_id
                    &&& res.0@.last().name == new_name
                    &&& res.0@.last().created_at == now
                    &&& res.0@.last().updated_at == now
                    &&& same_settings(res.0@.last()@, profiles@[i]@)
                },
                None => r matches Err(e) && e@ == profile_not_found(profile_id@),
            },
    {
        match find_profile_index(&profiles, profile_id) {
            Some(i) => {
                let c = cloned_profile(&profiles[i], new_id.clone(), new_name, now);
                let r = self.store.add_profile(profiles, c);
                assert(r@.take(profiles@.len() as int) =~= profiles@);
                Ok((r, new_id))
            },
            None => Err(profile_not_found_message(profile_id)),
        }
    }

    /// The profiles with a copy of the first profile of identifier
    /// `profile_id` added at the end, under a fresh identifier and the name
    /// `new_name`, created now; and that identifier. An error when no profile
    /// has the identifier `profile_id`.
    pub fn clone_profile(
        &self,
        profiles: Vec<FingerprintProfile>,
        profile_id: &str,
        new_name: String,
    ) -> (r: Result<(Vec<FingerprintProfile>, String), String>)
        ensures
            match first_index(profiles@, has_profile_id(profile_id@)) {
                Some(i) => r matches Ok(res) && {
                    &&& res.0@.len() == profiles@.len() + 1
                    &&& res.0@.take(profiles@.len() as int) == profiles@
                    &&& res.0@.last().id == res.1
                    &&& is_uuid_v4_text(res.1@)
                    &&& res.0@.last().name == new_name
                    &&& res.0@.last().created_at == res.0@.last().updated_at
                    &&& is_rfc3339_text(res.0@.last().created_at@)
                    &&& same_settings(res.0@.last()@, profiles@[i]@)
                },
                None => r matches Err(e) && e@ == profile_not_found(profile_id@),
            },
    {
        match find_profile_index(&profiles, profile_id) {
            Some(_) => {
                let new_id = new_uuid();
                let now = now_rfc3339();
                self.clone_profile_with(profiles, profile_id, new_name, new_id, now)
            },
            None => Err(profile_not_found_message(profile_id)),
        }
    }
}

/// Two optional texts with the same characters give the same argument.
proof fn lemma_same_optional_arg(args: Seq<Seq<char>>, prefix: Seq<char>, x: Option<String>, y: Option<String>)
    requires
        opt_text(x) == opt_text(y),
    ensures
        push_if_some(args, prefix, x) == push_if_some(args, prefix, y),
{
}

/// Profiles that agree on every setting launch the browser with the same
/// command line, whatever their identifiers, names and times; in
/// particular a cloned profile launches as the profile it was cloned from.
pub proof fn law_same_settings_same_args(a: FingerprintProfile, b: FingerprintProfile)
    requires
        same_settings(a@, b@),
    ensures
        profile_cli_args(a) == profile_cli_args(b),
{
    let s0 = crate::config::base_fingerprint_args(a.seed, a.platform@, a.brand@);
    assert(s0 == crate::config::base_fingerprint_args(b.seed, b.platform@, b.brand@));
    lemma_same_optional_arg(s0, "--fingerprint-platform-version="@, a.platform_version, b.platform_version);
    let s1 = push_if_some(s0, "--fingerprint-platform-version="@, a.platform_version);
    lemma_same_optional_arg(s1, "--fingerprint-brand-version="@, a.brand_version, b.brand_version);
    let s2 = push_if_some(s1, "--fingerprint-brand-version="@, a.brand_version);
    let s3 = crate::config::push_concurrency(s2, a.hardware_concurrency);
    lemma_same_optional_arg(s3, "--lang="@, a.language, b.language);
    let s4 = push_if_some(s3, "--lang="@, a.language);
    lemma_same_optional_arg(s4, "--accept-lang="@, a.accept_languages, b.accept_languages);
    let s5 = push_if_some(s4, "--accept-lang="@, a.accept_languages);
    lemma_same_optional_arg(s5, "--timezone="@, a.timezone, b.timezone);
    let s6 = push_if_some(s5, "--timezone="@, a.timezone);
    lemma_same_optional_arg(s6, "--proxy-server="@, a.proxy_server, b.proxy_server);
}

/// Profiles with the same settings agree on each setting one by one.
pub proof fn law_same_settings_fields(a: FingerprintProfile, b: FingerprintProfile)
    requires
        same_settings(a@, b@),
    ensures
        a.seed == b.seed,
        a.platform@ == b.platform@,
        opt_text(a.platform_version) == opt_text(b.platform_version),
        a.brand@ == b.brand@,
        opt_text(a.brand_version) == opt_text(b.brand_version),
        a.hardware_concurrency == b.hardware_concurrency,
        opt_text(a.language) == opt_text(b.language),
        opt_text(a.accept_languages) == opt_text(b.accept_languages),
        opt_text(a.timezone) == opt_text(b.timezone),
        opt_text(a.proxy_server) == opt_text(b.proxy_server),
        a.disable_spoofing.deep_view() == b.disable_spoofing.deep_view(),
        opt_text(a.description) == opt_text(b.description),
{
}

/// Uninstalling finds the location of the earliest kernel of the version,
/// and no location exactly when no kernel has that version.
pub proof fn law_uninstall_location(kernels: Seq<InstalledKernel>, v: KernelVersion)
    ensures
        install_path_of(kernels, v) matches Some(p) ==> exists|i: int|
            0 <= i < kernels.len() && (#[trigger] kernels[i]).version == v && kernels[i].install_path == p
                && forall|j: int| 0 <= j < i ==> (#[trigger] kernels[j]).version != v,
        install_path_of(kernels, v) is None <==> forall|j: int|
            0 <= j < kernels.len() ==> (#[trigger] kernels[j]).version != v,
{
    lemma_first_index(kernels, of_version(v));
    match first_index(kernels, of_version(v)) {
        Some(k) => {
            assert(kernels[k].version == v);
            assert(!(forall|j: int| 0 <= j < kernels.len() ==> (#[trigger] kernels[j]).version != v));
        },
        None => {
            assert forall|j: int| 0 <= j < kernels.len() implies (#[trigger] kernels[j]).version != v by {
                assert(!of_version(v)(kernels[j]));
            }
        },
    }
}

} // verus!
