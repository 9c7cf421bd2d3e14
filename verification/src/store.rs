//! The kernel store's operations on its two lists: installed kernels and
//! fingerprint profiles. The store keeps both lists in files; these functions
//! take the list as it was read and give back the list to write.

use vstd::prelude::*;
use crate::config::{FingerprintProfile, InstalledKernel, TargetOs, join_path, join_path_text, verbatim_like};
use crate::search::{
    first_index, first_index_from, first_match, lemma_first_index, lemma_first_index_none,
    lemma_first_index_unique, lemma_first_match_filtered, lemma_first_match_push,
    lemma_first_match_update,
};
use crate::text::{concat_text, same_text};
use crate::version::KernelVersion;

verus! {

broadcast use vstd::seq_lib::group_filter_ensures;

/// Whether a kernel is the default one.
pub open spec fn is_default_kernel() -> spec_fn(InstalledKernel) -> bool {
    |k: InstalledKernel| k.is_default
}

/// Whether a kernel is of a version other than `v`.
pub open spec fn other_version(v: KernelVersion) -> spec_fn(InstalledKernel) -> bool {
    |k: InstalledKernel| k.version != v
}

/// Whether a kernel is of the version `v`.
pub open spec fn of_version(v: KernelVersion) -> spec_fn(InstalledKernel) -> bool {
    |k: InstalledKernel| k.version == v
}

/// Whether a profile has the identifier `id`.
pub open spec fn has_profile_id(id: Seq<char>) -> spec_fn(FingerprintProfile) -> bool {
    |p: FingerprintProfile| p.id@ == id
}

/// Whether a profile has an identifier other than `id`.
pub open spec fn other_profile_id(id: Seq<char>) -> spec_fn(FingerprintProfile) -> bool {
    |p: FingerprintProfile| p.id@ != id
}

/// `k` with its default flag set to `b`.
pub open spec fn with_default(k: InstalledKernel, b: bool) -> InstalledKernel {
    InstalledKernel {
        version: k.version,
        install_path: k.install_path,
        binary_path: k.binary_path,
        installed_at: k.installed_at,
        is_default: b,
    }
}

/// The kernels with exactly those of version `v` marked default.
pub open spec fn defaults_set(s: Seq<InstalledKernel>, v: KernelVersion) -> Seq<InstalledKernel> {
    s.map_values(|k: InstalledKernel| with_default(k, k.version == v))
}

/// The message for a profile that is not in the store.
pub open spec fn profile_not_found(id: Seq<char>) -> Seq<char> {
    "Profile "@ + id + " not found"@
}

/// The message for a profile that is not in the store.
pub fn profile_not_found_message(id: &str) -> (m: String)
    ensures
        m@ == profile_not_found(id@),
{
    let mut m = String::from_str("Profile ");
    m.append(id);
    m.append(" not found");
    m
}

fn find_default_index(kernels: &Vec<InstalledKernel>) -> (r: Option<usize>)
    ensures
        r matches Some(i) ==> i < kernels@.len(),
        match r {
            Some(i) => first_index(kernels@, is_default_kernel()) == Some(i as int),
            None => first_index(kernels@, is_default_kernel()) == None::<int>,
        },
{
    let n = kernels.len();
    let mut i: usize = 0;
    while i < n
        invariant
            n == kernels@.len(),
            i <= n,
            first_index(kernels@, is_default_kernel()) == first_index_from(kernels@, is_default_kernel(), i as int),
        decreases n - i,
    {
        if kernels[i].is_default {
            return Some(i);
        }
        i = i + 1;
    }
    None
}

/// The position of the first kernel of version `v`.
pub fn find_version_index(kernels: &Vec<InstalledKernel>, v: &KernelVersion) -> (r: Option<usize>)
    ensures
        r matches Some(i) ==> i < kernels@.len(),
        match r {
            Some(i) => first_index(kernels@, of_version(*v)) == Some(i as int),
            None => first_index(kernels@, of_version(*v)) == None::<int>,
        },
{
    let n = kernels.len();
    let mut i: usize = 0;
    while i < n
        invariant
            n == kernels@.len(),
            i <= n,
            first_index(kernels@, of_version(*v)) == first_index_from(kernels@, of_version(*v), i as int),
        decreases n - i,
    {
        if kernels[i].version == *v {
            return Some(i);
        }
        i = i + 1;
    }
    None
}

/// The position of the first profile with identifier `id`.
pub fn find_profile_index(profiles: &Vec<FingerprintProfile>, id: &str) -> (r: Option<usize>)
    ensures
        r matches Some(i) ==> i < profiles@.len(),
        match r {
            Some(i) => first_index(profiles@, has_profile_id(id@)) == Some(i as int),
            None => first_index(profiles@, has_profile_id(id@)) == None::<int>,
        },
{
    let n = profiles.len();
    let mut i: usize = 0;
    while i < n
        invariant
            n == profiles@.len(),
            i <= n,
            first_index(profiles@, has_profile_id(id@)) == first_index_from(profiles@, has_profile_id(id@), i as int),
        decreases n - i,
    {
        if same_text(profiles[i].id.as_str(), id) {
            return Some(i);
        }
        i = i + 1;
    }
    None
}

/// A JSON value, as `serde_json` holds it.
#[verifier::external_type_specification]
#[verifier::external_body]
pub struct ExJsonValue(serde_json::Value);

/// What `serde_json::from_str` makes of `text` read as a JSON value: the
/// value, or the text of serde_json's error, which names what went wrong and
/// where. Both depend on the text alone.
pub uninterp spec fn json_reading(text: Seq<char>) -> Result<serde_json::Value, Seq<char>>;

/// The text that `serde_json::to_string_pretty` writes for `v`.
pub uninterp spec fn pretty_json(v: serde_json::Value) -> Seq<char>;

/// `serde_json::from_str` reading `content` as a JSON value; an error is
/// handed back as the text that serde_json's error displays.
#[verifier::external_body]
fn parse_metadata(content: &str) -> (r: Result<serde_json::Value, String>)
    ensures
        match json_reading(content@) {
            Ok(v) => r == Ok::<serde_json::Value, String>(v),
            Err(d) => r matches Err(e) && e@ == d,
        },
{
    match serde_json::from_str(content) {
        Ok(v) => Ok(v),
        Err(e) => Err(e.to_string()),
    }
}

/// Whether serde_json reads `text` as the value `v`.
pub open spec fn reads_as(text: Seq<char>, v: serde_json::Value) -> bool {
    json_reading(text) == Ok::<serde_json::Value, Seq<char>>(v)
}

/// The text of an empty JSON object.
pub open spec fn empty_object_text() -> Seq<char> {
    seq!['{', '}']
}

/// An empty JSON object: `serde_json::Value::Object` of a new `Map`, which
/// is also what `serde_json::from_str` reads from the text `{}`.
#[verifier::external_body]
fn empty_metadata() -> (v: serde_json::Value)
    ensures
        reads_as(empty_object_text(), v),
{
    serde_json::Value::Object(serde_json::Map::new())
}

/// `serde_json::to_string_pretty` of a JSON value. It does not fail on a
/// `Value`: its object keys are strings and its `Serialize` impl reports no
/// error of its own. An error would be handed back as serde_json's text.
#[verifier::external_body]
fn render_metadata(metadata: &serde_json::Value) -> (r: Result<String, String>)
    ensures
        r is Ok,
        r matches Ok(t) ==> t@ == pretty_json(*metadata),
{
    match serde_json::to_string_pretty(metadata) {
        Ok(text) => Ok(text),
        Err(e) => Err(e.to_string()),
    }
}

/// The file-backed store of kernels and profiles under a data directory.
pub struct KernelStore {
    data_dir: String,
}

impl KernelStore {
    pub fn new(data_dir: String) -> (s: Self)
        ensures
            s.data_dir_spec() == data_dir,
    {
        KernelStore { data_dir }
    }

    pub closed spec fn data_dir_spec(&self) -> String {
        self.data_dir
    }

    /// The directory the store keeps its files in.
    pub fn data_dir(&self) -> (d: &str)
        ensures
            d@ == self.data_dir_spec()@,
    {
        self.data_dir.as_str()
    }

    /// The file that holds the installed kernels.
    pub fn get_kernels_file(&self, os: TargetOs) -> (p: String)
        ensures
            !verbatim_like(os, self.data_dir_spec()@) ==> p@ == join_path(
                os,
                self.data_dir_spec()@,
                "installed_kernels.json"@,
            ),
    {
        join_path_text(os, self.data_dir.as_str(), "installed_kernels.json")
    }

    /// The file that holds the fingerprint profiles.
    pub fn get_profiles_file(&self, os: TargetOs) -> (p: String)
        ensures
            !verbatim_like(os, self.data_dir_spec()@) ==> p@ == join_path(
                os,
                self.data_dir_spec()@,
                "fingerprint_profiles.json"@,
            ),
    {
        join_path_text(os, self.data_dir.as_str(), "fingerprint_profiles.json")
    }

    /// The file that holds the kernel metadata.
    pub fn get_metadata_file(&self, os: TargetOs) -> (p: String)
        ensures
            !verbatim_like(os, self.data_dir_spec()@) ==> p@ == join_path(
                os,
                self.data_dir_spec()@,
                "kernel_metadata.json"@,
            ),
    {
        join_path_text(os, self.data_dir.as_str(), "kernel_metadata.json")
    }

    // ==================== metadata ====================

    /// The metadata held in the metadata file's `content`: what serde_json
    /// reads from it, or an empty object when there is no file. When the
    /// content is no JSON, the error is serde_json's description after
    /// `Failed to parse metadata JSON: `.
    pub fn load_metadata(&self, content: Option<String>) -> (r: Result<serde_json::Value, String>)
        ensures
            content is None ==> (r matches Ok(v) && reads_as(empty_object_text(), v)),
            content matches Some(c) ==> match json_reading(c@) {
                Ok(v) => r == Ok::<serde_json::Value, String>(v),
                Err(d) => r matches Err(e) && e@ == "Failed to parse metadata JSON: "@ + d,
            },
    {
        match content {
            None => Ok(empty_metadata()),
            Some(c) => match parse_metadata(c.as_str()) {
                Ok(v) => Ok(v),
                Err(d) => Err(concat_text("Failed to parse metadata JSON: ", d.as_str())),
            },
        }
    }

    /// The text to write to the metadata file for `metadata`: serde_json's
    /// pretty rendering of it.
    pub fn save_metadata(&self, metadata: serde_json::Value) -> (r: Result<String, String>)
        ensures
            r is Ok,
            r matches Ok(t) ==> t@ == pretty_json(metadata),
    {
        match render_metadata(&metadata) {
            Ok(t) => Ok(t),
            Err(d) => Err(concat_text("Failed to serialize metadata: ", d.as_str())),
        }
    }

    // ==================== kernels ====================

    /// The kernels with `kernel` added at the end.
    pub fn add_kernel(&self, kernels: Vec<InstalledKernel>, kernel: InstalledKernel) -> (r: Vec<InstalledKernel>)
        ensures
            r@ == kernels@.push(kernel),
    {
        let mut kernels = kernels;
        kernels.push(kernel);
        kernels
    }

    /// The first kernel marked default, if any is.
    pub fn get_default_kernel(&self, kernels: Vec<InstalledKernel>) -> (r: Option<InstalledKernel>)
        ensures
            r == first_match(kernels@, is_default_kernel()),
    {
        let mut kernels = kernels;
        match find_default_index(&kernels) {
            Some(i) => Some(kernels.remove(i)),
            None => None,
        }
    }

    /// The kernels with exactly those of `version` marked default.
    pub fn set_default_kernel(&self, kernels: Vec<InstalledKernel>, version: &KernelVersion) -> (r: Vec<InstalledKernel>)
        ensures
            r@ == defaults_set(kernels@, *version),
    {
        let mut kernels = kernels;
        let ghost orig = kernels@;
        let n = kernels.len();
        let mut i: usize = 0;
        while i < n
            invariant
                n == kernels@.len(),
                n == orig.len(),
                i <= n,
                forall|j: int| 0 <= j < i ==> kernels@[j] == with_default(orig[j], orig[j].version == *version),
                forall|j: int| i <= j < n ==> kernels@[j] == orig[j],
            decreases n - i,
        {
            let b = kernels[i].version == *version;
            kernels[i].is_default = b;
            i = i + 1;
        }
        assert(kernels@ =~= defaults_set(orig, *version));
        kernels
    }

    /// The kernels without those of `version`, the others in their order.
    pub fn remove_kernel(&self, kernels: Vec<InstalledKernel>, version: &KernelVersion) -> (r: Vec<InstalledKernel>)
        ensures
            r@ == kernels@.filter(other_version(*version)),
    {
        let mut rest = kernels;
        let ghost orig = rest@;
        let mut kept: Vec<InstalledKernel> = Vec::new();
        let ghost mut i: int = 0;
        while rest.len() > 0
            invariant
                0 <= i <= orig.len(),
                rest@ == orig.skip(i),
                kept@ == orig.take(i).filter(other_version(*version)),
            decreases rest@.len(),
        {
            let k = rest.remove(0);
            proof {
                assert(orig.take(i + 1) =~= orig.take(i).push(k));
                orig.take(i).lemma_filter_push(k, other_version(*version));
            }
            if k.version != *version {
                kept.push(k);
            }
            proof {
                assert(rest@ =~= orig.skip(i + 1));
                i = i + 1;
            }
        }
        assert(orig.take(i) =~= orig);
        kept
    }

    // ==================== profiles ====================

    /// The profiles with `profile` added at the end.
    pub fn add_profile(&self, profiles: Vec<FingerprintProfile>, profile: FingerprintProfile) -> (r: Vec<FingerprintProfile>)
        ensures
            r@ == profiles@.push(profile),
    {
        let mut profiles = profiles;
        profiles.push(profile);
        profiles
    }

    /// The profiles with the first one of `profile`'s identifier replaced by
    /// `profile`; an error when no profile has that identifier.
    pub fn update_profile(&self, profiles: Vec<FingerprintProfile>, profile: FingerprintProfile) -> (r: Result<Vec<FingerprintProfile>, String>)
        ensures
            match first_index(profiles@, has_profile_id(profile.id@)) {
                Some(i) => r matches Ok(v) && v@ == profiles@.update(i, profile),
                None => r matches Err(e) && e@ == profile_not_found(profile.id@),
            },
    {
        let mut profiles = profiles;
        match find_profile_index(&profiles, profile.id.as_str()) {
            Some(i) => {
                profiles[i] = profile;
                Ok(profiles)
            },
            None => Err(profile_not_found_message(profile.id.as_str())),
        }
    }

    /// The profiles without those of identifier `profile_id`, the others in
    /// their order.
    pub fn remove_profile(&self, profiles: Vec<FingerprintProfile>, profile_id: &str) -> (r: Vec<FingerprintProfile>)
        ensures
            r@ == profiles@.filter(other_profile_id(profile_id@)),
    {
        let mut rest = profiles;
        let ghost orig = rest@;
        let mut kept: Vec<FingerprintProfile> = Vec::new();
        let ghost mut i: int = 0;
        while rest.len() > 0
            invariant
                0 <= i <= orig.len(),
                rest@ == orig.skip(i),
                kept@ == orig.take(i).filter(other_profile_id(profile_id@)),
            decreases rest@.len(),
        {
            let p = rest.remove(0);
            proof {
                assert(orig.take(i + 1) =~= orig.take(i).push(p));
                orig.take(i).lemma_filter_push(p, other_profile_id(profile_id@));
            }
            if !same_text(p.id.as_str(), profile_id) {
                kept.push(p);
            }
            proof {
                assert(rest@ =~= orig.skip(i + 1));
                i = i + 1;
            }
        }
        assert(orig.take(i) =~= orig);
        kept
    }

    /// The first profile with identifier `profile_id`, if any.
    pub fn get_profile(&self, profiles: Vec<FingerprintProfile>, profile_id: &str) -> (r: Option<FingerprintProfile>)
        ensures
            r == first_match(profiles@, has_profile_id(profile_id@)),
    {
        let mut profiles = profiles;
        match find_profile_index(&profiles, profile_id) {
            Some(i) => Some(profiles.remove(i)),
            None => None,
        }
    }
}

/// A profile added to the store is what its identifier then finds, unless
/// an earlier profile has that identifier.
pub proof fn law_get_profile_after_add(profiles: Seq<FingerprintProfile>, profile: FingerprintProfile)
    ensures
        first_match(profiles.push(profile), has_profile_id(profile.id@)) == (match first_match(
            profiles,
            has_profile_id(profile.id@),
        ) {
            Some(earlier) => Some(earlier),
            None => Some(profile),
        }),
{
    lemma_first_match_push(profiles, profile, has_profile_id(profile.id@));
}

/// After a successful update, the profile's identifier finds the updated
/// profile.
pub proof fn law_get_profile_after_update(profiles: Seq<FingerprintProfile>, profile: FingerprintProfile, i: int)
    requires
        first_index(profiles, has_profile_id(profile.id@)) == Some(i),
    ensures
        first_match(profiles.update(i, profile), has_profile_id(profile.id@)) == Some(profile),
{
    lemma_first_match_update(profiles, i, profile, has_profile_id(profile.id@));
}

/// After a profile is removed, its identifier finds nothing.
pub proof fn law_get_profile_after_remove(profiles: Seq<FingerprintProfile>, profile_id: Seq<char>)
    ensures
        first_match(profiles.filter(other_profile_id(profile_id)), has_profile_id(profile_id)) == None::<FingerprintProfile>,
{
    assert forall|p: FingerprintProfile| #[trigger] has_profile_id(profile_id)(p) implies !other_profile_id(profile_id)(p) by {}
    lemma_first_match_filtered(profiles, other_profile_id(profile_id), has_profile_id(profile_id));
}

/// After a kernel version is removed, no kernel of that version is left.
pub proof fn law_no_kernel_after_remove(kernels: Seq<InstalledKernel>, v: KernelVersion)
    ensures
        first_match(kernels.filter(other_version(v)), of_version(v)) == None::<InstalledKernel>,
        forall|i: int| 0 <= i < kernels.filter(other_version(v)).len()
            ==> (#[trigger] kernels.filter(other_version(v))[i]).version != v,
{
    broadcast use vstd::seq_lib::group_filter_ensures;
    assert forall|k: InstalledKernel| #[trigger] of_version(v)(k) implies !other_version(v)(k) by {}
    lemma_first_match_filtered(kernels, other_version(v), of_version(v));
    assert forall|i: int| 0 <= i < kernels.filter(other_version(v)).len()
        implies (#[trigger] kernels.filter(other_version(v))[i]).version != v by {
        assert(other_version(v)(kernels.filter(other_version(v))[i]));
    }
}

/// After a version is made the default, the default kernel is the first
/// kernel of that version, if there is one.
pub proof fn law_default_after_set(kernels: Seq<InstalledKernel>, v: KernelVersion)
    ensures
        first_match(defaults_set(kernels, v), is_default_kernel()) == (match first_match(kernels, of_version(v)) {
            Some(k) => Some(with_default(k, true)),
            None => None::<InstalledKernel>,
        }),
{
    let t = defaults_set(kernels, v);
    lemma_first_index(kernels, of_version(v));
    match first_index(kernels, of_version(v)) {
        Some(k) => {
            assert(t[k] == with_default(kernels[k], true));
            assert forall|j: int| 0 <= j < k implies !is_default_kernel()(#[trigger] t[j]) by {
                assert(!of_version(v)(kernels[j]));
            }
            lemma_first_index_unique(t, is_default_kernel(), k);
        },
        None => {
            assert forall|j: int| 0 <= j < t.len() implies !is_default_kernel()(#[trigger] t[j]) by {
                assert(!of_version(v)(kernels[j]));
            }
            lemma_first_index_none(t, is_default_kernel());
        },
    }
}

/// Removing a version keeps exactly the kernels of other versions: each
/// kernel whose version differs from `v` stays, and what stays was there
/// and has a version other than `v`.
pub proof fn law_remove_kernel_keeps_other_versions(kernels: Seq<InstalledKernel>, v: KernelVersion)
    ensures
        forall|i: int|
            #![trigger kernels[i]]
            0 <= i < kernels.len() && kernels[i].version != v ==> kernels.filter(other_version(v)).contains(
                kernels[i],
            ),
        forall|k: InstalledKernel|
            #[trigger] kernels.filter(other_version(v)).contains(k) ==> kernels.contains(k) && k.version != v,
{
    assert forall|i: int|
        #![trigger kernels[i]]
        0 <= i < kernels.len() && kernels[i].version != v implies kernels.filter(other_version(v)).contains(
            kernels[i],
        ) by {
        kernels.lemma_filter_contains(other_version(v), i);
    }
    assert forall|k: InstalledKernel| #[trigger] kernels.filter(other_version(v)).contains(k) implies kernels.contains(k)
        && k.version != v by {
        kernels.lemma_filter_contains_rev(other_version(v), k);
        let j = choose|j: int| 0 <= j < kernels.filter(other_version(v)).len() && kernels.filter(other_version(v))[j] == k;
        kernels.lemma_filter_pred(other_version(v), j);
    }
}

/// Removing a profile keeps exactly the profiles of other identifiers.
pub proof fn law_remove_profile_keeps_others(profiles: Seq<FingerprintProfile>, id: Seq<char>)
    ensures
        forall|i: int|
            #![trigger profiles[i]]
            0 <= i < profiles.len() && profiles[i].id@ != id ==> profiles.filter(other_profile_id(id)).contains(
                profiles[i],
            ),
        forall|p: FingerprintProfile|
            #[trigger] profiles.filter(other_profile_id(id)).contains(p) ==> profiles.contains(p) && p.id@ != id,
{
    assert forall|i: int|
        #![trigger profiles[i]]
        0 <= i < profiles.len() && profiles[i].id@ != id implies profiles.filter(other_profile_id(id)).contains(
            profiles[i],
        ) by {
        profiles.lemma_filter_contains(other_profile_id(id), i);
    }
    assert forall|p: FingerprintProfile| #[trigger] profiles.filter(other_profile_id(id)).contains(p) implies profiles.contains(p)
        && p.id@ != id by {
        profiles.lemma_filter_contains_rev(other_profile_id(id), p);
        let j = choose|j: int| 0 <= j < profiles.filter(other_profile_id(id)).len() && profiles.filter(other_profile_id(id))[j] == p;
        profiles.lemma_filter_pred(other_profile_id(id), j);
    }
}

/// Setting the default version keeps every kernel in its place and all its
/// fields but the flag, which is set exactly on the kernels of that version.
pub proof fn law_set_default_marks_exactly_that_version(kernels: Seq<InstalledKernel>, v: KernelVersion)
    ensures
        defaults_set(kernels, v).len() == kernels.len(),
        forall|i: int|
            #![trigger defaults_set(kernels, v)[i]]
            0 <= i < kernels.len() ==> {
                let k = defaults_set(kernels, v)[i];
                &&& k.is_default == (kernels[i].version == v)
                &&& k.version == kernels[i].version
                &&& k.install_path == kernels[i].install_path
                &&& k.binary_path == kernels[i].binary_path
                &&& k.installed_at == kernels[i].installed_at
            },
{
}

/// Looking a profile up by `id` finds the earliest profile with that
/// identifier, and finds nothing exactly when no profile has it.
pub proof fn law_get_profile_finds_first_with_id(profiles: Seq<FingerprintProfile>, id: Seq<char>)
    ensures
        first_match(profiles, has_profile_id(id)) matches Some(p) ==> exists|i: int|
            0 <= i < profiles.len() && #[trigger] profiles[i] == p && p.id@ == id && forall|j: int|
                0 <= j < i ==> (#[trigger] profiles[j]).id@ != id,
        first_match(profiles, has_profile_id(id)) is None <==> forall|j: int|
            0 <= j < profiles.len() ==> (#[trigger] profiles[j]).id@ != id,
{
    lemma_first_index(profiles, has_profile_id(id));
    match first_index(profiles, has_profile_id(id)) {
        Some(k) => {
            assert(profiles[k].id@ == id);
            assert(!(forall|j: int| 0 <= j < profiles.len() ==> (#[trigger] profiles[j]).id@ != id));
        },
        None => {
            assert forall|j: int| 0 <= j < profiles.len() implies (#[trigger] profiles[j]).id@ != id by {
                assert(!has_profile_id(id)(profiles[j]));
            }
        },
    }
}

/// The default kernel is the earliest kernel marked default, and there is
/// none exactly when no kernel is marked default.
pub proof fn law_default_kernel_is_first_marked(kernels: Seq<InstalledKernel>)
    ensures
        first_match(kernels, is_default_kernel()) matches Some(k) ==> exists|i: int|
            0 <= i < kernels.len() && #[trigger] kernels[i] == k && k.is_default && forall|j: int|
                0 <= j < i ==> !(#[trigger] kernels[j]).is_default,
        first_match(kernels, is_default_kernel()) is None <==> forall|j: int|
            0 <= j < kernels.len() ==> !(#[trigger] kernels[j]).is_default,
{
    lemma_first_index(kernels, is_default_kernel());
    match first_index(kernels, is_default_kernel()) {
        Some(k) => {
            assert(kernels[k].is_default);
            assert(!(forall|j: int| 0 <= j < kernels.len() ==> !(#[trigger] kernels[j]).is_default));
        },
        None => {
            assert forall|j: int| 0 <= j < kernels.len() implies !(#[trigger] kernels[j]).is_default by {
                assert(!is_default_kernel()(kernels[j]));
            }
        },
    }
}

} // verus!
