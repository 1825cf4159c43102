//! Permission profiles, sandbox requests and approval policies.

use crate::text::same_text;
use vstd::prelude::*;

verus! {

/// What a command asks of the sandbox.
#[derive(Clone, Copy, Debug, PartialEq, Eq, Structural)]
pub enum SandboxPermissions {
    /// Run with the sandbox that the turn is configured with.
    UseDefault,
    /// Run outside the sandbox.
    RequireEscalated,
    /// Run inside the sandbox, widened by additional permissions.
    WithAdditionalPermissions,
}

impl Default for SandboxPermissions {
    fn default() -> (permissions: SandboxPermissions)
        ensures
            permissions == SandboxPermissions::UseDefault,
    {
        SandboxPermissions::UseDefault
    }
}

impl SandboxPermissions {
    /// Whether anything beyond the default is asked for.
    pub fn requests_sandbox_override(self) -> (yes: bool)
        ensures
            yes == (self != SandboxPermissions::UseDefault),
    {
        !matches!(self, SandboxPermissions::UseDefault)
    }

    /// Whether the sandbox is to be widened by additional permissions.
    pub fn uses_additional_permissions(self) -> (yes: bool)
        ensures
            yes == (self == SandboxPermissions::WithAdditionalPermissions),
    {
        matches!(self, SandboxPermissions::WithAdditionalPermissions)
    }
}

/// Which kinds of approval are asked for under a granular policy.
#[derive(Clone, Copy, Debug, PartialEq, Eq, Structural)]
pub struct GranularApprovalConfig {
    pub sandbox_approval: bool,
    pub rules: bool,
    pub skill_approval: bool,
    pub request_permissions: bool,
    pub mcp_elicitations: bool,
}

/// When the user is asked to approve a command.
#[derive(Clone, Copy, Debug, PartialEq, Eq, Structural)]
pub enum AskForApproval {
    UnlessTrusted,
    OnFailure,
    OnRequest,
    Granular(GranularApprovalConfig),
    Never,
}

/// The word for a truth value.
pub open spec fn bool_word(value: bool) -> Seq<char> {
    if value {
        "true"@
    } else {
        "false"@
    }
}

fn bool_text(value: bool) -> (text: &'static str)
    ensures
        text@ == bool_word(value),
{
    if value {
        "true"
    } else {
        "false"
    }
}

/// The name of a policy, with the settings of a granular one.
pub open spec fn policy_name(policy: AskForApproval) -> Seq<char> {
    match policy {
        AskForApproval::UnlessTrusted => "UnlessTrusted"@,
        AskForApproval::OnFailure => "OnFailure"@,
        AskForApproval::OnRequest => "OnRequest"@,
        AskForApproval::Granular(config) => "Granular(GranularApprovalConfig { sandbox_approval: "@
            + bool_word(config.sandbox_approval) + ", rules: "@ + bool_word(config.rules)
            + ", skill_approval: "@ + bool_word(config.skill_approval) + ", request_permissions: "@
            + bool_word(config.request_permissions) + ", mcp_elicitations: "@ + bool_word(
            config.mcp_elicitations,
        ) + " })"@,
        AskForApproval::Never => "Never"@,
    }
}

impl AskForApproval {
    /// The name of the policy, as messages show it.
    pub fn name(&self) -> (text: String)
        ensures
            text@ == policy_name(*self),
    {
        match self {
            AskForApproval::UnlessTrusted => "UnlessTrusted".to_owned(),
            AskForApproval::OnFailure => "OnFailure".to_owned(),
            AskForApproval::OnRequest => "OnRequest".to_owned(),
            AskForApproval::Granular(config) => {
                let mut text = "Granular(GranularApprovalConfig { sandbox_approval: ".to_owned();
                text.append(bool_text(config.sandbox_approval));
                text.append(", rules: ");
                text.append(bool_text(config.rules));
                text.append(", skill_approval: ");
                text.append(bool_text(config.skill_approval));
                text.append(", request_permissions: ");
                text.append(bool_text(config.request_permissions));
                text.append(", mcp_elicitations: ");
                text.append(bool_text(config.mcp_elicitations));
                text.append(" })");
                text
            },
            AskForApproval::Never => "Never".to_owned(),
        }
    }
}

/// What a sandbox entry lets a command do with its paths.
#[derive(Clone, Copy, Debug, PartialEq, Eq, Structural)]
pub enum FileSystemAccessMode {
    Read,
    Write,
    NoAccess,
}

/// A place that is named by its role, such as the roots of the project, or a
/// place below it.
#[derive(Debug, PartialEq, Eq)]
pub struct FileSystemSpecialPath {
    pub role: String,
    pub subpath: Option<String>,
}

/// The paths that a sandbox entry speaks of.
#[derive(Debug, PartialEq, Eq)]
pub enum FileSystemPath {
    Path { path: String },
    GlobPattern { pattern: String },
    Special { value: FileSystemSpecialPath },
}

/// One rule of a file-system permission.
#[derive(Debug, PartialEq, Eq)]
pub struct FileSystemSandboxEntry {
    pub path: FileSystemPath,
    pub access: FileSystemAccessMode,
}

/// Additional access to the file system.
#[derive(Debug, PartialEq, Eq)]
pub struct FileSystemPermissions {
    pub entries: Vec<FileSystemSandboxEntry>,
    pub glob_scan_max_depth: Option<usize>,
}

/// Additional access to the network.
#[derive(Clone, Copy, Debug, PartialEq, Eq, Structural)]
pub struct NetworkPermissions {
    pub enabled: Option<bool>,
}

/// Permissions beyond those of the sandbox.
#[derive(Debug, PartialEq, Eq)]
pub struct AdditionalPermissionProfile {
    pub network: Option<NetworkPermissions>,
    pub file_system: Option<FileSystemPermissions>,
}

/// The paths that a sandbox entry speaks of.
pub enum PathView {
    Path(Seq<char>),
    GlobPattern(Seq<char>),
    Special(Seq<char>, Option<Seq<char>>),
}

/// What a profile says.
pub struct ProfileView {
    pub network: Option<NetworkPermissions>,
    pub file_system: Option<(Seq<(PathView, FileSystemAccessMode)>, Option<usize>)>,
}

/// The text in an optional string.
pub open spec fn text_view(text: Option<String>) -> Option<Seq<char>> {
    match text {
        Some(t) => Some(t@),
        None => None,
    }
}

impl View for FileSystemPath {
    type V = PathView;

    open spec fn view(&self) -> PathView {
        match self {
            FileSystemPath::Path { path } => PathView::Path(path@),
            FileSystemPath::GlobPattern { pattern } => PathView::GlobPattern(pattern@),
            FileSystemPath::Special { value } => PathView::Special(
                value.role@,
                text_view(value.subpath),
            ),
        }
    }
}

impl View for FileSystemSandboxEntry {
    type V = (PathView, FileSystemAccessMode);

    open spec fn view(&self) -> (PathView, FileSystemAccessMode) {
        (self.path@, self.access)
    }
}

/// What the given rules say, in order.
pub open spec fn entry_views(entries: Seq<FileSystemSandboxEntry>) -> Seq<
    (PathView, FileSystemAccessMode),
> {
    entries.map_values(|entry: FileSystemSandboxEntry| entry@)
}

impl View for FileSystemPermissions {
    type V = (Seq<(PathView, FileSystemAccessMode)>, Option<usize>);

    open spec fn view(&self) -> (Seq<(PathView, FileSystemAccessMode)>, Option<usize>) {
        (entry_views(self.entries@), self.glob_scan_max_depth)
    }
}

impl View for AdditionalPermissionProfile {
    type V = ProfileView;

    open spec fn view(&self) -> ProfileView {
        ProfileView {
            network: self.network,
            file_system: match self.file_system {
                Some(permissions) => Some(permissions@),
                None => None,
            },
        }
    }
}

/// What an optional profile says.
pub open spec fn profile_view(profile: Option<AdditionalPermissionProfile>) -> Option<ProfileView> {
    match profile {
        Some(p) => Some(p@),
        None => None,
    }
}

/// The profile asks for nothing.
pub open spec fn profile_is_empty(profile: ProfileView) -> bool {
    profile.network is None && profile.file_system is None
}

fn same_optional_text(a: &Option<String>, b: &Option<String>) -> (same: bool)
    ensures
        same == (text_view(*a) == text_view(*b)),
{
    match (a, b) {
        (Some(x), Some(y)) => same_text(x.as_str(), y.as_str()),
        (None, None) => true,
        _ => false,
    }
}

impl FileSystemPath {
    fn same(&self, other: &FileSystemPath) -> (same: bool)
        ensures
            same == (self@ == other@),
    {
        match (self, other) {
            (FileSystemPath::Path { path: a }, FileSystemPath::Path { path: b }) => same_text(
                a.as_str(),
                b.as_str(),
            ),
            (
                FileSystemPath::GlobPattern { pattern: a },
                FileSystemPath::GlobPattern { pattern: b },
            ) => same_text(a.as_str(), b.as_str()),
            (FileSystemPath::Special { value: a }, FileSystemPath::Special { value: b }) => {
                same_text(a.role.as_str(), b.role.as_str()) && same_optional_text(
                    &a.subpath,
                    &b.subpath,
                )
            },
            _ => false,
        }
    }
}

impl FileSystemPermissions {
    fn same(&self, other: &FileSystemPermissions) -> (same: bool)
        ensures
            same == (self@ == other@),
    {
        let ghost a = entry_views(self.entries@);
        let ghost b = entry_views(other.entries@);
        if self.entries.len() != other.entries.len() {
            assert(a.len() != b.len());
            return false;
        }
        if self.glob_scan_max_depth != other.glob_scan_max_depth {
            return false;
        }
        let mut i: usize = 0;
        while i < self.entries.len()
            invariant
                a == entry_views(self.entries@),
                b == entry_views(other.entries@),
                a.len() == b.len(),
                i <= a.len(),
                forall|k: int| 0 <= k < i ==> a[k] == b[k],
            decreases a.len() - i,
        {
            let same_path = self.entries[i].path.same(&other.entries[i].path);
            if !same_path || self.entries[i].access != other.entries[i].access {
                assert(a[i as int] != b[i as int]);
                return false;
            }
            assert(a[i as int] == b[i as int]);
            i += 1;
        }
        assert(a =~= b);
        true
    }
}

impl AdditionalPermissionProfile {
    /// Whether the two profiles say the same.
    pub fn same(&self, other: &AdditionalPermissionProfile) -> (same: bool)
        ensures
            same == (self@ == other@),
    {
        let same_file_system = match (&self.file_system, &other.file_system) {
            (Some(a), Some(b)) => a.same(b),
            (None, None) => true,
            _ => false,
        };
        same_file_system && self.network == other.network
    }

    /// Whether the profile asks for nothing.
    pub fn is_empty(&self) -> (empty: bool)
        ensures
            empty == profile_is_empty(self@),
    {
        self.network.is_none() && self.file_system.is_none()
    }
}

impl Clone for FileSystemSpecialPath {
    fn clone(&self) -> (copy: FileSystemSpecialPath)
        ensures
            copy == *self,
    {
        FileSystemSpecialPath { role: self.role.clone(), subpath: self.subpath.clone() }
    }
}

impl Clone for FileSystemPath {
    fn clone(&self) -> (copy: FileSystemPath)
        ensures
            copy == *self,
    {
        match self {
            FileSystemPath::Path { path } => FileSystemPath::Path { path: path.clone() },
            FileSystemPath::GlobPattern { pattern } => FileSystemPath::GlobPattern {
                pattern: pattern.clone(),
            },
            FileSystemPath::Special { value } => FileSystemPath::Special { value: value.clone() },
        }
    }
}

impl Clone for FileSystemSandboxEntry {
    fn clone(&self) -> (copy: FileSystemSandboxEntry)
        ensures
            copy == *self,
    {
        FileSystemSandboxEntry { path: self.path.clone(), access: self.access }
    }
}

impl Clone for FileSystemPermissions {
    fn clone(&self) -> (copy: FileSystemPermissions)
        ensures
            copy@ == self@,
    {
        let entries = self.entries.clone();
        assert(entry_views(entries@) =~= entry_views(self.entries@));
        FileSystemPermissions { entries, glob_scan_max_depth: self.glob_scan_max_depth }
    }
}

impl Clone for AdditionalPermissionProfile {
    fn clone(&self) -> (copy: AdditionalPermissionProfile)
        ensures
            copy@ == self@,
    {
        AdditionalPermissionProfile {
            network: self.network,
            file_system: match &self.file_system {
                Some(permissions) => Some(permissions.clone()),
                None => None,
            },
        }
    }
}

/// A copy of an optional profile.
pub fn clone_profile(profile: &Option<AdditionalPermissionProfile>) -> (copy: Option<
    AdditionalPermissionProfile,
>)
    ensures
        profile_view(copy) == profile_view(*profile),
{
    match profile {
        Some(p) => Some(p.clone()),
        None => None,
    }
}

/// Both rules speak of the same paths: of one path, of one pattern, or of one place
/// below the same role.
pub open spec fn same_place(a: FileSystemPath, b: FileSystemPath) -> bool {
    match (a, b) {
        (FileSystemPath::Path { path: x }, FileSystemPath::Path { path: y }) => x@ == y@,
        (
            FileSystemPath::GlobPattern { pattern: x },
            FileSystemPath::GlobPattern { pattern: y },
        ) => x@ == y@,
        (FileSystemPath::Special { value: x }, FileSystemPath::Special { value: y }) => {
            x.role@ == y.role@ && match (x.subpath, y.subpath) {
                (Some(below), Some(beneath)) => below@ == beneath@,
                (None, None) => true,
                _ => false,
            }
        },
        _ => false,
    }
}

/// Both profiles give the same access to the network, and to the file system by the
/// same rules in the same order, searched to the same depth.
pub open spec fn give_the_same(
    a: AdditionalPermissionProfile,
    b: AdditionalPermissionProfile,
) -> bool {
    &&& a.network == b.network
    &&& match (a.file_system, b.file_system) {
        (Some(x), Some(y)) => {
            &&& x.glob_scan_max_depth == y.glob_scan_max_depth
            &&& x.entries@.len() == y.entries@.len()
            &&& forall|i: int|
                #![trigger x.entries@[i]]
                #![trigger y.entries@[i]]
                0 <= i < x.entries@.len() ==> x.entries@[i].access == y.entries@[i].access
                    && same_place(x.entries@[i].path, y.entries@[i].path)
        },
        (None, None) => true,
        _ => false,
    }
}

/// Two profiles say the same exactly if nothing in them differs.
pub proof fn law_profiles_differ_where_a_part_does(
    a: AdditionalPermissionProfile,
    b: AdditionalPermissionProfile,
)
    ensures
        a@ == b@ <==> give_the_same(a, b),
{
    match (a.file_system, b.file_system) {
        (Some(x), Some(y)) => {
            let u = entry_views(x.entries@);
            let v = entry_views(y.entries@);
            assert forall|i: int|
                #![trigger x.entries@[i]]
                0 <= i < x.entries@.len() implies u[i] == x.entries@[i]@ by {}
            assert forall|i: int|
                #![trigger y.entries@[i]]
                0 <= i < y.entries@.len() implies v[i] == y.entries@[i]@ by {}
            if a@ == b@ {
                assert(u == v);
                assert(x.entries@.len() == u.len());
                assert(y.entries@.len() == v.len());
                assert forall|i: int|
                    #![trigger x.entries@[i]]
                    #![trigger y.entries@[i]]
                    0 <= i < x.entries@.len() implies x.entries@[i].access == y.entries@[i].access
                    && same_place(x.entries@[i].path, y.entries@[i].path) by {
                    assert(u[i] == x.entries@[i]@);
                    assert(v[i] == y.entries@[i]@);
                }
            }
            if give_the_same(a, b) {
                assert forall|i: int| 0 <= i < u.len() implies u[i] == v[i] by {
                    assert(u[i] == x.entries@[i]@);
                    assert(v[i] == y.entries@[i]@);
                }
                assert(u =~= v);
            }
        },
        _ => {},
    }
}

/// Profiles are compared by every part of them.
pub proof fn law_same_profiles_give_the_same(
    a: AdditionalPermissionProfile,
    b: AdditionalPermissionProfile,
    same: bool,
)
    requires
        call_ensures(AdditionalPermissionProfile::same, (&a, &b), same),
    ensures
        same <==> give_the_same(a, b),
{
    law_profiles_differ_where_a_part_does(a, b);
}

/// A copy of a profile gives what the profile gives.
pub proof fn law_copied_profile_gives_the_same(
    profile: Option<AdditionalPermissionProfile>,
    copy: Option<AdditionalPermissionProfile>,
)
    requires
        call_ensures(clone_profile, (&profile,), copy),
    ensures
        match (profile, copy) {
            (Some(p), Some(c)) => give_the_same(p, c),
            (None, None) => true,
            _ => false,
        },
{
    if let (Some(p), Some(c)) = (profile, copy) {
        law_profiles_differ_where_a_part_does(p, c);
    }
}

/// A profile asks for nothing exactly if it names neither the network nor the file
/// system. One that names either asks for something, whatever it says of it.
pub proof fn law_empty_profile_names_nothing(profile: AdditionalPermissionProfile, empty: bool)
    requires
        call_ensures(AdditionalPermissionProfile::is_empty, (&profile,), empty),
    ensures
        empty <==> profile.network is None && profile.file_system is None,
{
}

/// Only a command that asks for the default asks for nothing more of the sandbox,
/// and only one that asks for additional permissions uses them.
pub proof fn law_override_is_anything_but_the_default(
    permissions: SandboxPermissions,
    overrides: bool,
    uses: bool,
)
    requires
        call_ensures(SandboxPermissions::requests_sandbox_override, (permissions,), overrides),
        call_ensures(SandboxPermissions::uses_additional_permissions, (permissions,), uses),
    ensures
        overrides <==> !(permissions is UseDefault),
        uses <==> permissions is WithAdditionalPermissions,
        uses ==> overrides,
{
}

/// A policy is shown by the name of its variant, a granular one with the value of
/// each of its settings behind the setting's name.
pub proof fn law_policy_is_shown_by_its_name(policy: AskForApproval, text: String)
    requires
        call_ensures(AskForApproval::name, (&policy,), text),
    ensures
        match policy {
            AskForApproval::UnlessTrusted => text@ == "UnlessTrusted"@,
            AskForApproval::OnFailure => text@ == "OnFailure"@,
            AskForApproval::OnRequest => text@ == "OnRequest"@,
            AskForApproval::Never => text@ == "Never"@,
            AskForApproval::Granular(config) => {
                let word = |on: bool| if on { "true"@ } else { "false"@ };
                text@ == "Granular(GranularApprovalConfig { sandbox_approval: "@ + word(
                    config.sandbox_approval,
                ) + ", rules: "@ + word(config.rules) + ", skill_approval: "@ + word(
                    config.skill_approval,
                ) + ", request_permissions: "@ + word(config.request_permissions)
                    + ", mcp_elicitations: "@ + word(config.mcp_elicitations) + " })"@
            },
        },
        text@ == policy_name(policy),
{
}

/// A command that says nothing asks for the default of the sandbox.
pub proof fn law_default_asks_for_nothing(permissions: SandboxPermissions)
    requires
        call_ensures(SandboxPermissions::default, (), permissions),
    ensures
        permissions is UseDefault,
{
}

} // verus!
