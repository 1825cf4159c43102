//! Additional permissions of a command: what was granted before, what is asked
//! for now, and whether it may be asked for.

use crate::profile::{
    clone_profile, give_the_same, law_profiles_differ_where_a_part_does, policy_name,
    profile_is_empty, profile_view, AdditionalPermissionProfile, AskForApproval,
    SandboxPermissions,
};
use vstd::prelude::*;

verus! {

/// The permissions that a command runs with, after what was granted before has
/// been added.
pub struct EffectiveAdditionalPermissions {
    pub sandbox_permissions: SandboxPermissions,
    pub additional_permissions: Option<AdditionalPermissionProfile>,
    /// Everything asked for was granted before.
    pub permissions_preapproved: bool,
}

/// The message where additional permissions are switched off.
pub open spec fn disabled_message() -> Seq<char> {
    "additional permissions are disabled; enable `features.exec_permission_approvals` before using `with_additional_permissions`"@
}

/// The message where the approval policy does not let permissions be asked for.
pub open spec fn policy_message(policy: AskForApproval) -> Seq<char> {
    "approval policy is "@ + policy_name(policy)
        + "; reject command — you cannot request additional permissions unless the approval policy is OnRequest"@
}

/// The message where no permissions came with the request for them.
pub open spec fn missing_message() -> Seq<char> {
    "missing `additional_permissions`; provide at least one of `network` or `file_system` when using `with_additional_permissions`"@
}

/// The message where the permissions ask for nothing.
pub open spec fn empty_message() -> Seq<char> {
    "`additional_permissions` must include at least one requested permission in `network` or `file_system`"@
}

/// The message where permissions came without a request for them.
pub open spec fn unrequested_message() -> Seq<char> {
    "`additional_permissions` requires `sandbox_permissions` set to `with_additional_permissions`"@
}

/// Why a request for additional permissions is refused before its paths are
/// looked at, if it is.
pub open spec fn request_fault(
    allowed: bool,
    policy: AskForApproval,
    sandbox_permissions: SandboxPermissions,
    has_permissions: bool,
    preapproved: bool,
) -> Option<Seq<char>> {
    let uses = sandbox_permissions == SandboxPermissions::WithAdditionalPermissions;
    if !preapproved && !allowed && (uses || has_permissions) {
        Some(disabled_message())
    } else if uses {
        if !preapproved && policy != AskForApproval::OnRequest {
            Some(policy_message(policy))
        } else if !has_permissions {
            Some(missing_message())
        } else {
            None
        }
    } else if has_permissions {
        Some(unrequested_message())
    } else {
        None
    }
}

/// Checks a request for additional permissions against the features and the
/// approval policy. What passes is the permissions whose paths are still to be
/// normalized; there are none where none are asked for.
pub fn validate_additional_permissions(
    additional_permissions_allowed: bool,
    approval_policy: AskForApproval,
    sandbox_permissions: SandboxPermissions,
    additional_permissions: Option<AdditionalPermissionProfile>,
    permissions_preapproved: bool,
) -> (checked: Result<Option<AdditionalPermissionProfile>, String>)
    ensures
        ({
            let fault = request_fault(
                additional_permissions_allowed,
                approval_policy,
                sandbox_permissions,
                additional_permissions is Some,
                permissions_preapproved,
            );
            match checked {
                Ok(passed) => fault is None && passed == additional_permissions,
                Err(message) => fault == Some(message@),
            }
        }),
{
    let uses = sandbox_permissions.uses_additional_permissions();
    if !permissions_preapproved && !additional_permissions_allowed && (uses
        || additional_permissions.is_some()) {
        return Err(
            "additional permissions are disabled; enable `features.exec_permission_approvals` before using `with_additional_permissions`".to_owned(),
        );
    }
    if uses {
        if !permissions_preapproved && !matches!(approval_policy, AskForApproval::OnRequest) {
            let mut message = "approval policy is ".to_owned();
            message.append(approval_policy.name().as_str());
            message.append(
                "; reject command — you cannot request additional permissions unless the approval policy is OnRequest",
            );
            return Err(message);
        }
        if additional_permissions.is_none() {
            return Err(
                "missing `additional_permissions`; provide at least one of `network` or `file_system` when using `with_additional_permissions`".to_owned(),
            );
        }
        return Ok(additional_permissions);
    }
    if additional_permissions.is_some() {
        Err(
            "`additional_permissions` requires `sandbox_permissions` set to `with_additional_permissions`".to_owned(),
        )
    } else {
        Ok(None)
    }
}

/// What becomes of normalized permissions: those that ask for nothing are
/// refused, and so are those that could not be normalized.
pub open spec fn accepts(
    normalized: Result<AdditionalPermissionProfile, String>,
    accepted: Result<Option<AdditionalPermissionProfile>, String>,
) -> bool {
    match (normalized, accepted) {
        (Err(reason), Err(message)) => message == reason,
        (Err(_), Ok(_)) => false,
        (Ok(profile), Ok(kept)) => !profile_is_empty(profile@) && kept == Some(profile),
        (Ok(profile), Err(message)) => profile_is_empty(profile@) && message@ == empty_message(),
    }
}

/// Takes the permissions with their paths normalized, or the reason why they
/// could not be. Permissions that ask for nothing are refused.
pub fn accept_normalized_permissions(
    normalized: Result<AdditionalPermissionProfile, String>,
) -> (accepted: Result<Option<AdditionalPermissionProfile>, String>)
    ensures
        accepts(normalized, accepted),
{
    match normalized {
        Err(reason) => Err(reason),
        Ok(profile) => {
            if profile.is_empty() {
                Err(
                    "`additional_permissions` must include at least one requested permission in `network` or `file_system`".to_owned(),
                )
            } else {
                Ok(Some(profile))
            }
        },
    }
}

/// The result is that of checking a request for additional permissions and
/// normalizing the paths in it. `normalize` normalizes one profile.
pub open spec fn checks_request<
    N: FnOnce(AdditionalPermissionProfile) -> Result<AdditionalPermissionProfile, String>,
>(
    allowed: bool,
    policy: AskForApproval,
    sandbox_permissions: SandboxPermissions,
    additional_permissions: Option<AdditionalPermissionProfile>,
    preapproved: bool,
    normalize: N,
    result: Result<Option<AdditionalPermissionProfile>, String>,
) -> bool {
    match request_fault(
        allowed,
        policy,
        sandbox_permissions,
        additional_permissions is Some,
        preapproved,
    ) {
        Some(message) => result is Err && result->Err_0@ == message,
        None => match additional_permissions {
            None => result is Ok && result->Ok_0 is None,
            Some(profile) => exists|normalized: Result<AdditionalPermissionProfile, String>|
                #[trigger]
                call_ensures(normalize, (profile,), normalized) && accepts(normalized, result),
        },
    }
}

/// Checks a request for additional permissions and normalizes the paths in it.
/// `normalize` normalizes one profile.
pub fn normalize_and_validate_additional_permissions<
    N: FnOnce(AdditionalPermissionProfile) -> Result<AdditionalPermissionProfile, String>,
>(
    additional_permissions_allowed: bool,
    approval_policy: AskForApproval,
    sandbox_permissions: SandboxPermissions,
    additional_permissions: Option<AdditionalPermissionProfile>,
    permissions_preapproved: bool,
    normalize: N,
) -> (result: Result<Option<AdditionalPermissionProfile>, String>)
    requires
        forall|profile: AdditionalPermissionProfile| call_requires(normalize, (profile,)),
    ensures
        checks_request(
            additional_permissions_allowed,
            approval_policy,
            sandbox_permissions,
            additional_permissions,
            permissions_preapproved,
            normalize,
            result,
        ),
{
    match validate_additional_permissions(
        additional_permissions_allowed,
        approval_policy,
        sandbox_permissions,
        additional_permissions,
        permissions_preapproved,
    ) {
        Err(message) => Err(message),
        Ok(None) => Ok(None),
        Ok(Some(profile)) => accept_normalized_permissions(normalize(profile)),
    }
}

/// The permissions that were granted before and apply to a command that asks
/// for nothing itself.
pub fn implicit_granted_permissions(
    sandbox_permissions: SandboxPermissions,
    additional_permissions: Option<&AdditionalPermissionProfile>,
    effective_additional_permissions: &EffectiveAdditionalPermissions,
) -> (granted: Option<AdditionalPermissionProfile>)
    ensures
        profile_view(granted) == if sandbox_permissions == SandboxPermissions::UseDefault
            && additional_permissions is None {
            profile_view(effective_additional_permissions.additional_permissions)
        } else {
            None
        },
{
    if !sandbox_permissions.uses_additional_permissions() && !matches!(
        sandbox_permissions,
        SandboxPermissions::RequireEscalated
    ) && additional_permissions.is_none() {
        clone_profile(&effective_additional_permissions.additional_permissions)
    } else {
        None
    }
}

/// `kept` says whether cutting `effective` down to `granted` leaves as much as cutting
/// it down to itself. `intersect` cuts one profile down to another, with paths
/// relative to `cwd`.
pub open spec fn keeps_everything<
    I: Fn(&AdditionalPermissionProfile, &AdditionalPermissionProfile, &str) -> AdditionalPermissionProfile,
>(
    intersect: I,
    effective: AdditionalPermissionProfile,
    granted: AdditionalPermissionProfile,
    cwd: &str,
    kept: bool,
) -> bool {
    exists|to_itself: AdditionalPermissionProfile, to_granted: AdditionalPermissionProfile|
        {
            &&& #[trigger] call_ensures(intersect, (&effective, &effective, cwd), to_itself)
            &&& #[trigger] call_ensures(intersect, (&effective, &granted, cwd), to_granted)
            &&& kept == (to_granted@ == to_itself@)
        }
}

/// `preapproved` says whether everything in `effective` was granted: it is what was
/// granted, or cutting it down to what was granted leaves as much as cutting it down
/// to itself.
pub open spec fn decides_preapproval<
    I: Fn(&AdditionalPermissionProfile, &AdditionalPermissionProfile, &str) -> AdditionalPermissionProfile,
>(
    intersect: I,
    effective: AdditionalPermissionProfile,
    granted: AdditionalPermissionProfile,
    cwd: &str,
    preapproved: bool,
) -> bool {
    if effective@ == granted@ {
        preapproved
    } else {
        keeps_everything(intersect, effective, granted, cwd, preapproved)
    }
}

/// Whether everything in `effective_permissions` was granted before.
pub fn permissions_are_preapproved<
    I: Fn(&AdditionalPermissionProfile, &AdditionalPermissionProfile, &str) -> AdditionalPermissionProfile,
>(
    effective_permissions: &AdditionalPermissionProfile,
    granted_permissions: &AdditionalPermissionProfile,
    cwd: &str,
    intersect: I,
) -> (preapproved: bool)
    requires
        forall|a: &AdditionalPermissionProfile, b: &AdditionalPermissionProfile, dir: &str|
            call_requires(intersect, (a, b, dir)),
    ensures
        decides_preapproval(
            intersect,
            *effective_permissions,
            *granted_permissions,
            cwd,
            preapproved,
        ),
{
    if effective_permissions.same(granted_permissions) {
        // Both cuts would be the same one.
        return true;
    }
    let to_itself = intersect(effective_permissions, effective_permissions, cwd);
    let to_granted = intersect(effective_permissions, granted_permissions, cwd);
    let kept = to_granted.same(&to_itself);
    assert(keeps_everything(intersect, *effective_permissions, *granted_permissions, cwd, kept));
    kept
}

/// What a command asks of the sandbox once granted permissions are added: with
/// any permissions at all, it asks for the widened sandbox.
pub open spec fn widened(
    sandbox_permissions: SandboxPermissions,
    has_permissions: bool,
) -> SandboxPermissions {
    if has_permissions {
        SandboxPermissions::WithAdditionalPermissions
    } else {
        sandbox_permissions
    }
}

/// Whether what was granted before matters to the command. A command that runs
/// outside the sandbox needs none of it.
pub fn consults_grants(sandbox_permissions: SandboxPermissions) -> (yes: bool)
    ensures
        yes == (sandbox_permissions != SandboxPermissions::RequireEscalated),
{
    !matches!(sandbox_permissions, SandboxPermissions::RequireEscalated)
}

/// The effective permissions are those of `effective`, which is what the command
/// asks for together with `granted`.
pub open spec fn effective_are<
    I: Fn(&AdditionalPermissionProfile, &AdditionalPermissionProfile, &str) -> AdditionalPermissionProfile,
>(
    result: EffectiveAdditionalPermissions,
    sandbox_permissions: SandboxPermissions,
    granted: Option<AdditionalPermissionProfile>,
    effective: Option<AdditionalPermissionProfile>,
    cwd: &str,
    intersect: I,
) -> bool {
    &&& result.additional_permissions == effective
    &&& result.sandbox_permissions == widened(sandbox_permissions, effective is Some)
    &&& match (effective, granted) {
        (Some(e), Some(g)) => decides_preapproval(
            intersect,
            e,
            g,
            cwd,
            result.permissions_preapproved,
        ),
        _ => !result.permissions_preapproved,
    }
}

/// A reference to what is in the option.
pub open spec fn optional_ref(
    profile: Option<AdditionalPermissionProfile>,
) -> Option<&'static AdditionalPermissionProfile> {
    match profile {
        Some(p) => Some(&p),
        None => None,
    }
}

/// The result joins what the command asks for with what the session and the turn
/// were granted.
pub open spec fn adds_grants<
    M: Fn(
        Option<&AdditionalPermissionProfile>,
        Option<&AdditionalPermissionProfile>,
    ) -> Option<AdditionalPermissionProfile>,
    I: Fn(&AdditionalPermissionProfile, &AdditionalPermissionProfile, &str) -> AdditionalPermissionProfile,
>(
    result: EffectiveAdditionalPermissions,
    session: Option<&AdditionalPermissionProfile>,
    turn: Option<&AdditionalPermissionProfile>,
    cwd: &str,
    sandbox_permissions: SandboxPermissions,
    additional_permissions: Option<AdditionalPermissionProfile>,
    merge: M,
    intersect: I,
) -> bool {
    exists|
        granted: Option<AdditionalPermissionProfile>,
        effective: Option<AdditionalPermissionProfile>,
    |
        {
            &&& #[trigger] call_ensures(merge, (session, turn), granted)
            &&& #[trigger] call_ensures(
                merge,
                (optional_ref(additional_permissions), optional_ref(granted)),
                effective,
            )
            &&& effective_are(result, sandbox_permissions, granted, effective, cwd, intersect)
        }
}

/// The result is what the command asks for with what was granted before added to
/// it. A command that runs outside the sandbox is left as it is, and nothing of
/// it counts as granted.
pub open spec fn grants_applied<
    M: Fn(
        Option<&AdditionalPermissionProfile>,
        Option<&AdditionalPermissionProfile>,
    ) -> Option<AdditionalPermissionProfile>,
    I: Fn(&AdditionalPermissionProfile, &AdditionalPermissionProfile, &str) -> AdditionalPermissionProfile,
>(
    result: EffectiveAdditionalPermissions,
    session: Option<&AdditionalPermissionProfile>,
    turn: Option<&AdditionalPermissionProfile>,
    cwd: &str,
    sandbox_permissions: SandboxPermissions,
    additional_permissions: Option<AdditionalPermissionProfile>,
    merge: M,
    intersect: I,
) -> bool {
    if sandbox_permissions == SandboxPermissions::RequireEscalated {
        &&& result.sandbox_permissions == sandbox_permissions
        &&& result.additional_permissions == additional_permissions
        &&& !result.permissions_preapproved
    } else {
        adds_grants(
            result,
            session,
            turn,
            cwd,
            sandbox_permissions,
            additional_permissions,
            merge,
            intersect,
        )
    }
}

/// Adds what the session and the turn were granted before to what a command asks
/// for. A command that runs outside the sandbox is left as it is, and nothing of
/// it counts as granted. `merge` joins two profiles.
pub fn apply_granted_turn_permissions<
    M: Fn(
        Option<&AdditionalPermissionProfile>,
        Option<&AdditionalPermissionProfile>,
    ) -> Option<AdditionalPermissionProfile>,
    I: Fn(&AdditionalPermissionProfile, &AdditionalPermissionProfile, &str) -> AdditionalPermissionProfile,
>(
    granted_session_permissions: Option<&AdditionalPermissionProfile>,
    granted_turn_permissions: Option<&AdditionalPermissionProfile>,
    cwd: &str,
    sandbox_permissions: SandboxPermissions,
    additional_permissions: Option<AdditionalPermissionProfile>,
    merge: M,
    intersect: I,
) -> (result: EffectiveAdditionalPermissions)
    requires
        forall|
            a: Option<&AdditionalPermissionProfile>,
            b: Option<&AdditionalPermissionProfile>,
        | call_requires(merge, (a, b)),
        forall|a: &AdditionalPermissionProfile, b: &AdditionalPermissionProfile, dir: &str|
            call_requires(intersect, (a, b, dir)),
    ensures
        grants_applied(
            result,
            granted_session_permissions,
            granted_turn_permissions,
            cwd,
            sandbox_permissions,
            additional_permissions,
            merge,
            intersect,
        ),
{
    if matches!(sandbox_permissions, SandboxPermissions::RequireEscalated) {
        return EffectiveAdditionalPermissions {
            sandbox_permissions,
            additional_permissions,
            permissions_preapproved: false,
        };
    }
    let granted = merge(granted_session_permissions, granted_turn_permissions);
    let effective = merge(additional_permissions.as_ref(), granted.as_ref());
    let permissions_preapproved = match (&effective, &granted) {
        (Some(e), Some(g)) => permissions_are_preapproved(e, g, cwd, intersect),
        _ => false,
    };
    let asked = if effective.is_some() && !sandbox_permissions.uses_additional_permissions() {
        SandboxPermissions::WithAdditionalPermissions
    } else {
        sandbox_permissions
    };
    let result = EffectiveAdditionalPermissions {
        sandbox_permissions: asked,
        additional_permissions: effective,
        permissions_preapproved,
    };
    assert(effective_are(result, sandbox_permissions, granted, effective, cwd, intersect));
    assert(call_ensures(
        merge,
        (optional_ref(additional_permissions), optional_ref(granted)),
        effective,
    ));
    result
}

/// What was granted counts as granted, whatever the directory.
pub proof fn law_grant_covers_itself<
    I: Fn(&AdditionalPermissionProfile, &AdditionalPermissionProfile, &str) -> AdditionalPermissionProfile,
>(
    intersect: I,
    asked: AdditionalPermissionProfile,
    granted: AdditionalPermissionProfile,
    cwd: &str,
    preapproved: bool,
)
    requires
        asked@ == granted@,
        decides_preapproval(intersect, asked, granted, cwd, preapproved),
    ensures
        preapproved,
{
}

/// Where `intersect` makes one profile of what it is given, permissions count as granted
/// exactly if cutting them down to what was granted leaves as much as cutting them down
/// to themselves.
pub proof fn law_preapproved_permissions_lose_nothing<
    I: Fn(&AdditionalPermissionProfile, &AdditionalPermissionProfile, &str) -> AdditionalPermissionProfile,
>(
    intersect: I,
    asked: AdditionalPermissionProfile,
    granted: AdditionalPermissionProfile,
    cwd: &str,
    preapproved: bool,
    to_itself: AdditionalPermissionProfile,
    to_granted: AdditionalPermissionProfile,
)
    requires
        forall|
            a: &AdditionalPermissionProfile,
            b: &AdditionalPermissionProfile,
            c: &AdditionalPermissionProfile,
            x: AdditionalPermissionProfile,
            y: AdditionalPermissionProfile,
        |
            #![trigger call_ensures(intersect, (a, b, cwd), x), call_ensures(
                intersect,
                (a, c, cwd),
                y,
            )]
            b@ == c@ && call_ensures(intersect, (a, b, cwd), x) && call_ensures(
                intersect,
                (a, c, cwd),
                y,
            ) ==> x@ == y@,
        decides_preapproval(intersect, asked, granted, cwd, preapproved),
        call_ensures(intersect, (&asked, &asked, cwd), to_itself),
        call_ensures(intersect, (&asked, &granted, cwd), to_granted),
    ensures
        preapproved == (to_granted@ == to_itself@),
{
}

/// Fresh permissions are refused where the feature is off, whatever the approval
/// policy says, and permissions that were granted before are not refused for it.
pub proof fn law_only_fresh_permissions_need_the_feature(
    policy: AskForApproval,
    sandbox_permissions: SandboxPermissions,
)
    ensures
        request_fault(false, policy, sandbox_permissions, true, false) == Some(disabled_message()),
        request_fault(
            false,
            policy,
            SandboxPermissions::WithAdditionalPermissions,
            true,
            true,
        ) is None,
{
}

/// A request for additional permissions is passed on as it is, or refused for the
/// first of these reasons that holds. Permissions come that are switched off and
/// were not granted before. The widened sandbox is asked for under a policy that
/// does not let it be, and was not granted before. The widened sandbox is asked for
/// without permissions. Permissions come without it.
pub proof fn law_request_is_refused_for_the_first_fault(
    allowed: bool,
    policy: AskForApproval,
    sandbox_permissions: SandboxPermissions,
    permissions: Option<AdditionalPermissionProfile>,
    preapproved: bool,
    checked: Result<Option<AdditionalPermissionProfile>, String>,
)
    requires
        call_ensures(
            validate_additional_permissions,
            (allowed, policy, sandbox_permissions, permissions, preapproved),
            checked,
        ),
    ensures
        checked is Ok ==> checked->Ok_0 == permissions,
        checked is Ok <==> {
            ||| sandbox_permissions is WithAdditionalPermissions && permissions is Some && (
            preapproved || (allowed && policy is OnRequest))
            ||| !(sandbox_permissions is WithAdditionalPermissions) && permissions is None
        },
        !preapproved && !allowed && (sandbox_permissions is WithAdditionalPermissions
            || permissions is Some) ==> checked is Err && checked->Err_0@
            == "additional permissions are disabled; enable `features.exec_permission_approvals` before using `with_additional_permissions`"@,
        sandbox_permissions is WithAdditionalPermissions && !preapproved && allowed && !(
        policy is OnRequest) ==> checked is Err && checked->Err_0@ == "approval policy is "@
            + policy_name(policy)
            + "; reject command — you cannot request additional permissions unless the approval policy is OnRequest"@,
        sandbox_permissions is WithAdditionalPermissions && permissions is None && (preapproved || (
        allowed && policy is OnRequest)) ==> checked is Err && checked->Err_0@
            == "missing `additional_permissions`; provide at least one of `network` or `file_system` when using `with_additional_permissions`"@,
        !(sandbox_permissions is WithAdditionalPermissions) && permissions is Some && (preapproved
            || allowed) ==> checked is Err && checked->Err_0@
            == "`additional_permissions` requires `sandbox_permissions` set to `with_additional_permissions`"@,
{
}

/// Normalized permissions are kept as they are, unless they name neither the
/// network nor the file system. The reason why permissions could not be normalized
/// is handed on.
pub proof fn law_only_empty_permissions_are_turned_down(
    normalized: Result<AdditionalPermissionProfile, String>,
    accepted: Result<Option<AdditionalPermissionProfile>, String>,
)
    requires
        call_ensures(accept_normalized_permissions, (normalized,), accepted),
    ensures
        match normalized {
            Err(reason) => accepted is Err && accepted->Err_0@ == reason@,
            Ok(profile) => if profile.network is None && profile.file_system is None {
                accepted is Err && accepted->Err_0@
                    == "`additional_permissions` must include at least one requested permission in `network` or `file_system`"@
            } else {
                accepted is Ok && accepted->Ok_0 == Some(profile)
            },
        },
{
}

/// A request that is in order comes out as `normalize` makes it, and one that is
/// not is refused before `normalize` is asked. What `normalize` makes of a request
/// without permissions does not matter.
pub proof fn law_checked_request_comes_out_normalized<
    N: FnOnce(AdditionalPermissionProfile) -> Result<AdditionalPermissionProfile, String>,
>(
    allowed: bool,
    policy: AskForApproval,
    sandbox_permissions: SandboxPermissions,
    permissions: Option<AdditionalPermissionProfile>,
    preapproved: bool,
    normalize: N,
    result: Result<Option<AdditionalPermissionProfile>, String>,
)
    requires
        call_ensures(
            normalize_and_validate_additional_permissions::<N>,
            (allowed, policy, sandbox_permissions, permissions, preapproved, normalize),
            result,
        ),
    ensures
        !(sandbox_permissions is WithAdditionalPermissions) && permissions is None ==> result
            == Ok::<Option<AdditionalPermissionProfile>, String>(None),
        result is Ok && permissions is None ==> !(
        sandbox_permissions is WithAdditionalPermissions),
        sandbox_permissions is WithAdditionalPermissions && permissions is Some && (preapproved || (
        allowed && policy is OnRequest)) ==> exists|
            normalized: Result<AdditionalPermissionProfile, String>,
        | #[trigger]
            call_ensures(normalize, (permissions->0,), normalized) && match normalized {
                Err(reason) => result == Err::<Option<AdditionalPermissionProfile>, String>(reason),
                Ok(profile) => if profile.network is None && profile.file_system is None {
                    result is Err
                } else {
                    result == Ok::<Option<AdditionalPermissionProfile>, String>(Some(profile))
                },
            },
        permissions is Some && !(sandbox_permissions is WithAdditionalPermissions) ==> result is Err,
        sandbox_permissions is WithAdditionalPermissions && !preapproved && !(allowed
            && policy is OnRequest) ==> result is Err,
{
}

/// Only a command that asks for the default and brings no permissions takes over
/// what was granted before.
pub proof fn law_only_a_plain_command_takes_over_grants(
    sandbox_permissions: SandboxPermissions,
    permissions: Option<&AdditionalPermissionProfile>,
    effective: EffectiveAdditionalPermissions,
    granted: Option<AdditionalPermissionProfile>,
)
    requires
        call_ensures(
            implicit_granted_permissions,
            (sandbox_permissions, permissions, &effective),
            granted,
        ),
    ensures
        granted is Some <==> sandbox_permissions is UseDefault && permissions is None
            && effective.additional_permissions is Some,
        granted is Some ==> give_the_same(granted->0, effective.additional_permissions->0),
{
    if let (Some(g), Some(e)) = (granted, effective.additional_permissions) {
        if g@ == e@ {
            law_profiles_differ_where_a_part_does(g, e);
        }
    }
}

/// Grants matter to every command but one that is to run outside the sandbox.
pub proof fn law_grants_matter_inside_the_sandbox(
    sandbox_permissions: SandboxPermissions,
    consulted: bool,
)
    requires
        call_ensures(consults_grants, (sandbox_permissions,), consulted),
    ensures
        sandbox_permissions is RequireEscalated ==> !consulted,
        sandbox_permissions is UseDefault ==> consulted,
        sandbox_permissions is WithAdditionalPermissions ==> consulted,
{
}

/// Where cutting the permissions down always leaves `to_itself` of them against
/// themselves, and `to_granted` against what was granted, they count as granted if
/// they are what was granted, or if both cuts leave the same.
pub proof fn law_granted_permissions_lose_nothing<
    I: Fn(&AdditionalPermissionProfile, &AdditionalPermissionProfile, &str) -> AdditionalPermissionProfile,
>(
    asked: AdditionalPermissionProfile,
    granted: AdditionalPermissionProfile,
    cwd: &str,
    intersect: I,
    preapproved: bool,
    to_itself: AdditionalPermissionProfile,
    to_granted: AdditionalPermissionProfile,
)
    requires
        call_ensures(
            permissions_are_preapproved::<I>,
            (&asked, &granted, cwd, intersect),
            preapproved,
        ),
        forall|left: AdditionalPermissionProfile| #[trigger]
            call_ensures(intersect, (&asked, &asked, cwd), left) ==> left == to_itself,
        forall|left: AdditionalPermissionProfile| #[trigger]
            call_ensures(intersect, (&asked, &granted, cwd), left) ==> left == to_granted,
    ensures
        preapproved <==> give_the_same(asked, granted) || give_the_same(to_granted, to_itself),
{
    law_profiles_differ_where_a_part_does(asked, granted);
    law_profiles_differ_where_a_part_does(to_granted, to_itself);
}

/// A command that is to run outside the sandbox keeps what it asks for, and nothing
/// of it counts as granted, whatever the session and the turn were granted.
pub proof fn law_escalated_command_is_left_as_it_is<
    M: Fn(
        Option<&AdditionalPermissionProfile>,
        Option<&AdditionalPermissionProfile>,
    ) -> Option<AdditionalPermissionProfile>,
    I: Fn(&AdditionalPermissionProfile, &AdditionalPermissionProfile, &str) -> AdditionalPermissionProfile,
>(
    session: Option<&AdditionalPermissionProfile>,
    turn: Option<&AdditionalPermissionProfile>,
    cwd: &str,
    permissions: Option<AdditionalPermissionProfile>,
    merge: M,
    intersect: I,
    result: EffectiveAdditionalPermissions,
)
    requires
        call_ensures(
            apply_granted_turn_permissions::<M, I>,
            (
                session,
                turn,
                cwd,
                SandboxPermissions::RequireEscalated,
                permissions,
                merge,
                intersect,
            ),
            result,
        ),
    ensures
        result.sandbox_permissions is RequireEscalated,
        result.additional_permissions == permissions,
        !result.permissions_preapproved,
{
}

/// A command that stays in the sandbox gets what it asks for joined with what the
/// session and the turn were granted, in this order. With any permissions at all it
/// asks for the widened sandbox, and without any it asks for what it asked for.
/// Nothing counts as granted where nothing was, and what is no more than what was
/// granted counts as granted.
pub proof fn law_grants_are_added_to_the_request<
    M: Fn(
        Option<&AdditionalPermissionProfile>,
        Option<&AdditionalPermissionProfile>,
    ) -> Option<AdditionalPermissionProfile>,
    I: Fn(&AdditionalPermissionProfile, &AdditionalPermissionProfile, &str) -> AdditionalPermissionProfile,
>(
    session: Option<&AdditionalPermissionProfile>,
    turn: Option<&AdditionalPermissionProfile>,
    cwd: &str,
    sandbox_permissions: SandboxPermissions,
    permissions: Option<AdditionalPermissionProfile>,
    merge: M,
    intersect: I,
    result: EffectiveAdditionalPermissions,
    granted: Option<AdditionalPermissionProfile>,
    joined: Option<AdditionalPermissionProfile>,
    asked_ref: Option<&AdditionalPermissionProfile>,
    granted_ref: Option<&AdditionalPermissionProfile>,
)
    requires
        !(sandbox_permissions is RequireEscalated),
        call_ensures(
            apply_granted_turn_permissions::<M, I>,
            (session, turn, cwd, sandbox_permissions, permissions, merge, intersect),
            result,
        ),
        forall|made: Option<AdditionalPermissionProfile>| #[trigger]
            call_ensures(merge, (session, turn), made) ==> made == granted,
        forall|made: Option<AdditionalPermissionProfile>| #[trigger]
            call_ensures(merge, (asked_ref, granted_ref), made) ==> made == joined,
        asked_ref is Some <==> permissions is Some,
        permissions is Some ==> *asked_ref->0 == permissions->0,
        granted_ref is Some <==> granted is Some,
        granted is Some ==> *granted_ref->0 == granted->0,
    ensures
        result.additional_permissions == joined,
        joined is Some ==> result.sandbox_permissions is WithAdditionalPermissions,
        joined is None ==> result.sandbox_permissions == sandbox_permissions,
        joined is None || granted is None ==> !result.permissions_preapproved,
        joined is Some && granted is Some && give_the_same(joined->0, granted->0)
            ==> result.permissions_preapproved,
        joined is Some && granted is Some && !give_the_same(joined->0, granted->0) ==> exists|
            to_itself: AdditionalPermissionProfile,
            to_granted: AdditionalPermissionProfile,
        |
            {
                &&& #[trigger] call_ensures(intersect, (&joined->0, &joined->0, cwd), to_itself)
                &&& #[trigger] call_ensures(intersect, (&joined->0, &granted->0, cwd), to_granted)
                &&& result.permissions_preapproved <==> give_the_same(to_granted, to_itself)
            },
{
    assert(optional_ref(permissions) == asked_ref);
    assert(optional_ref(granted) == granted_ref);
    if joined is Some && granted is Some {
        let e = joined->0;
        let g = granted->0;
        law_profiles_differ_where_a_part_does(e, g);
        if e@ != g@ {
            let (to_itself, to_granted) = choose|
                to_itself: AdditionalPermissionProfile,
                to_granted: AdditionalPermissionProfile,
            |
                {
                    &&& #[trigger] call_ensures(intersect, (&e, &e, cwd), to_itself)
                    &&& #[trigger] call_ensures(intersect, (&e, &g, cwd), to_granted)
                    &&& result.permissions_preapproved == (to_granted@ == to_itself@)
                };
            law_profiles_differ_where_a_part_does(to_granted, to_itself);
            assert(call_ensures(intersect, (&joined->0, &joined->0, cwd), to_itself));
        }
    }
}

} // verus!
