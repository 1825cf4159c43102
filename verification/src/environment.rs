//! Choosing the environment and the working directory of a tool call.

use crate::error::{arguments_error, responds, FunctionCallError};
use crate::json::{
    json_error_message, json_error_text, json_member, json_members, json_parsed, json_text,
    parse_json,
};
use crate::paths::joins_to;
use crate::profile::text_view;
use crate::text::same_text;
use vstd::prelude::*;

verus! {

/// An environment that a turn can run tools in.
pub struct TurnEnvironment {
    pub environment_id: String,
    pub cwd: String,
    pub shell: String,
    pub is_remote: bool,
}

/// The arguments by which a tool call chooses where it runs. The working
/// directory stays as it was given: a relative one is resolved against the
/// directory of the chosen environment.
pub struct ToolEnvironmentArgs {
    pub environment_id: Option<String>,
    pub workdir: Option<String>,
}

/// A directory: `base`, or `workdir` resolved against `base` where there is
/// one.
pub struct ResolvedCwd {
    pub base: String,
    pub workdir: Option<String>,
}

/// Where a tool call runs: the place of the environment in the turn's list,
/// and the working directory.
pub struct ResolvedToolEnvironment {
    pub environment: usize,
    pub cwd: ResolvedCwd,
}

/// A text that is there and not empty.
pub open spec fn nonempty(text: Option<Seq<char>>) -> Option<Seq<char>> {
    match text {
        Some(t) => if t.len() == 0 { None } else { Some(t) },
        None => None,
    }
}

/// The directory is `base`, or the given working directory against it, where
/// that one is not empty.
pub open spec fn resolves_against(
    cwd: ResolvedCwd,
    base: Seq<char>,
    workdir: Option<Seq<char>>,
) -> bool {
    cwd.base@ == base && text_view(cwd.workdir) == nonempty(workdir)
}

/// `made` is the directory that was resolved. `join` joins a path to an absolute one.
pub open spec fn is_directory<K: Fn(&str, &str) -> String>(
    cwd: ResolvedCwd,
    join: K,
    made: String,
) -> bool {
    match cwd.workdir {
        Some(workdir) => joins_to(join, cwd.base@, workdir@, made),
        None => made@ == cwd.base@,
    }
}

impl ResolvedCwd {
    /// The directory that was resolved. `join` joins a path to an absolute one.
    pub fn directory<K: Fn(&str, &str) -> String>(&self, join: &K) -> (made: String)
        requires
            forall|base: &str, path: &str| call_requires(*join, (base, path)),
        ensures
            is_directory(*self, *join, made),
    {
        match &self.workdir {
            Some(workdir) => {
                let made = (*join)(self.base.as_str(), workdir.as_str());
                assert(joins_to(*join, self.base@, workdir@, made));
                made
            },
            None => self.base.clone(),
        }
    }
}

/// The first environment with the given id stands at `at`.
pub open spec fn is_first_with_id(
    environments: Seq<TurnEnvironment>,
    id: Seq<char>,
    at: int,
) -> bool {
    &&& 0 <= at < environments.len()
    &&& environments[at].environment_id@ == id
    &&& forall|k: int| 0 <= k < at ==> (#[trigger] environments[k]).environment_id@ != id
}

/// No environment has the given id.
pub open spec fn is_unknown_id(environments: Seq<TurnEnvironment>, id: Seq<char>) -> bool {
    forall|k: int|
        0 <= k < environments.len() ==> (#[trigger] environments[k]).environment_id@ != id
}

/// The message for an id that no environment has.
pub open spec fn unknown_id_message(id: Seq<char>) -> Seq<char> {
    "unknown turn environment id `"@ + id + "`"@
}

/// The environment to run in: the one with the given id, or the turn's first
/// where no id is given.
pub fn select_environment(
    environments: &Vec<TurnEnvironment>,
    environment_id: &Option<String>,
) -> (selected: Result<Option<usize>, FunctionCallError>)
    ensures
        match text_view(*environment_id) {
            None => match selected {
                Ok(Some(at)) => environments@.len() > 0 && at == 0,
                Ok(None) => environments@.len() == 0,
                Err(_) => false,
            },
            Some(id) => match selected {
                Ok(Some(at)) => is_first_with_id(environments@, id, at as int),
                Ok(None) => false,
                Err(error) => is_unknown_id(environments@, id) && responds(
                    error,
                    unknown_id_message(id),
                ),
            },
        },
{
    match environment_id {
        None => {
            if environments.len() > 0 {
                Ok(Some(0))
            } else {
                Ok(None)
            }
        },
        Some(id) => {
            let mut i: usize = 0;
            while i < environments.len()
                invariant
                    text_view(*environment_id) == Some(id@),
                    i <= environments@.len(),
                    forall|k: int|
                        0 <= k < i ==> (#[trigger] environments@[k]).environment_id@ != id@,
                decreases environments@.len() - i,
            {
                if same_text(environments[i].environment_id.as_str(), id.as_str()) {
                    return Ok(Some(i));
                }
                i += 1;
            }
            let mut message = "unknown turn environment id `".to_owned();
            message.append(id.as_str());
            message.append("`");
            Err(FunctionCallError::RespondToModel(message))
        },
    }
}

/// The working directory for a call that starts in `base`.
pub fn resolve_cwd(base: &str, workdir: Option<&str>) -> (cwd: ResolvedCwd)
    ensures
        resolves_against(
            cwd,
            base@,
            match workdir {
                Some(w) => Some(w@),
                None => None,
            },
        ),
{
    let workdir = match workdir {
        Some(w) => if w.is_empty() { None } else { Some(w.to_owned()) },
        None => None,
    };
    ResolvedCwd { base: base.to_owned(), workdir }
}

/// Chooses the environment and then the working directory within it. Without
/// an id and without environments there is none.
pub fn resolve_tool_environment(
    environments: &Vec<TurnEnvironment>,
    args: &ToolEnvironmentArgs,
) -> (resolved: Result<Option<ResolvedToolEnvironment>, FunctionCallError>)
    ensures
        match resolved {
            Ok(Some(place)) => {
                &&& place.environment < environments@.len()
                &&& match text_view(args.environment_id) {
                    Some(id) => is_first_with_id(environments@, id, place.environment as int),
                    None => place.environment == 0,
                }
                &&& resolves_against(
                    place.cwd,
                    environments@[place.environment as int].cwd@,
                    text_view(args.workdir),
                )
            },
            Ok(None) => args.environment_id is None && environments@.len() == 0,
            Err(error) => args.environment_id is Some && is_unknown_id(
                environments@,
                args.environment_id->0@,
            ) && responds(error, unknown_id_message(args.environment_id->0@)),
        },
{
    match select_environment(environments, &args.environment_id) {
        Err(error) => Err(error),
        Ok(None) => Ok(None),
        Ok(Some(at)) => {
            let workdir = match &args.workdir {
                Some(w) => Some(w.as_str()),
                None => None,
            };
            let cwd = resolve_cwd(environments[at].cwd.as_str(), workdir);
            Ok(Some(ResolvedToolEnvironment { environment: at, cwd }))
        },
    }
}

/// The text of the member `workdir` of a JSON value.
pub open spec fn workdir_of(value: serde_json::Value) -> Option<Seq<char>> {
    if json_members(value).contains_key("workdir"@) {
        json_text(json_members(value)["workdir"@])
    } else {
        None
    }
}

/// The directory that the paths in `arguments` are relative to: the working
/// directory that the arguments name, against `default_cwd`.
pub fn resolve_workdir_base_path(arguments: &str, default_cwd: &str) -> (base: Result<
    ResolvedCwd,
    FunctionCallError,
>)
    ensures
        match (json_parsed(arguments@), base) {
            (Ok(value), Ok(cwd)) => resolves_against(cwd, default_cwd@, workdir_of(value)),
            (Err(reason), Err(error)) => responds(
                error,
                "failed to parse function arguments: "@ + json_error_text(reason),
            ),
            _ => false,
        },
{
    match parse_json(arguments) {
        Ok(value) => {
            let workdir = match json_member(&value, "workdir") {
                Some(member) => member.as_str(),
                None => None,
            };
            Ok(resolve_cwd(default_cwd, workdir))
        },
        Err(reason) => Err(arguments_error(json_error_message(&reason).as_str())),
    }
}

/// Without an id the turn's first environment is chosen, and none only where there
/// are none. With an id the first environment of that id is chosen, and it is an
/// error exactly where there is none of that id.
pub proof fn law_environment_is_chosen_by_its_id(
    environments: Vec<TurnEnvironment>,
    environment_id: Option<String>,
    selected: Result<Option<usize>, FunctionCallError>,
)
    requires
        call_ensures(select_environment, (&environments, &environment_id), selected),
    ensures
        environment_id is None && environments@.len() > 0 ==> selected == Ok::<
            Option<usize>,
            FunctionCallError,
        >(Some(0)),
        environment_id is None && environments@.len() == 0 ==> selected == Ok::<
            Option<usize>,
            FunctionCallError,
        >(None),
        environment_id is Some ==> {
            let id = environment_id->0@;
            &&& selected is Ok <==> exists|k: int|
                0 <= k < environments@.len() && (#[trigger] environments@[k]).environment_id@ == id
            &&& match selected {
                Ok(at) => {
                    &&& at is Some
                    &&& at->0 < environments@.len()
                    &&& environments@[at->0 as int].environment_id@ == id
                    &&& forall|k: int|
                        0 <= k < environments@.len() && (#[trigger] environments@[k]).environment_id@
                            == id ==> at->0 <= k
                },
                Err(FunctionCallError::RespondToModel(message)) => message@
                    == "unknown turn environment id `"@ + id + "`"@,
            }
        },
{
    if environment_id is Some && selected is Ok {
        let at = selected->Ok_0->0 as int;
        assert(environments@[at].environment_id@ == environment_id->0@);
    }
}

/// A working directory that is given and not empty stands against the base, as it
/// was given. An empty one counts as none.
pub proof fn law_empty_working_directory_is_none(
    base: &str,
    workdir: Option<&str>,
    cwd: ResolvedCwd,
)
    requires
        call_ensures(resolve_cwd, (base, workdir), cwd),
    ensures
        cwd.base@ == base@,
        cwd.workdir is Some <==> workdir is Some && workdir->0@.len() > 0,
        cwd.workdir is Some ==> cwd.workdir->0@ == workdir->0@,
{
}

/// The directory is the base where no working directory is given, and else the
/// working directory joined to the base.
pub proof fn law_working_directory_stands_against_the_base<K: Fn(&str, &str) -> String>(
    cwd: ResolvedCwd,
    join: K,
    made: String,
)
    requires
        call_ensures(ResolvedCwd::directory::<K>, (&cwd, &join), made),
    ensures
        cwd.workdir is None ==> made@ == cwd.base@,
        cwd.workdir is Some ==> exists|base: &str, path: &str|
            base@ == cwd.base@ && path@ == cwd.workdir->0@ && #[trigger] call_ensures(
                join,
                (base, path),
                made,
            ),
{
}

/// A call is resolved to the chosen environment and to its working directory
/// against that environment's own directory. Nothing is chosen only where nothing
/// is asked for and there is nothing, and only an unknown id is an error.
pub proof fn law_call_is_resolved_in_its_environment(
    environments: Vec<TurnEnvironment>,
    args: ToolEnvironmentArgs,
    resolved: Result<Option<ResolvedToolEnvironment>, FunctionCallError>,
)
    requires
        call_ensures(resolve_tool_environment, (&environments, &args), resolved),
    ensures
        resolved is Err <==> args.environment_id is Some && forall|k: int|
            0 <= k < environments@.len() ==> (#[trigger] environments@[k]).environment_id@
                != args.environment_id->0@,
        resolved is Err ==> responds(
            resolved->Err_0,
            "unknown turn environment id `"@ + args.environment_id->0@ + "`"@,
        ),
        resolved == Ok::<Option<ResolvedToolEnvironment>, FunctionCallError>(None)
            <==> args.environment_id is None && environments@.len() == 0,
        resolved is Ok && resolved->Ok_0 is Some ==> {
            let place = resolved->Ok_0->0;
            let at = place.environment as int;
            &&& at < environments@.len()
            &&& args.environment_id is None ==> at == 0
            &&& args.environment_id is Some ==> environments@[at].environment_id@
                == args.environment_id->0@ && forall|k: int|
                0 <= k < at ==> (#[trigger] environments@[k]).environment_id@
                    != args.environment_id->0@
            &&& place.cwd.base@ == environments@[at].cwd@
            &&& place.cwd.workdir is Some <==> args.workdir is Some && args.workdir->0@.len() > 0
            &&& place.cwd.workdir is Some ==> place.cwd.workdir->0@ == args.workdir->0@
        },
{
    if args.environment_id is Some && resolved is Ok && resolved->Ok_0 is Some {
        let at = resolved->Ok_0->0.environment as int;
        assert(environments@[at].environment_id@ == args.environment_id->0@);
    }
}

/// Paths in arguments stand against the working directory that the arguments name
/// as text under `workdir`, where it is not empty, and that one against the default
/// directory. They stand against the default directory where nothing is named. Text
/// that is no JSON is an error with the reason.
pub proof fn law_paths_stand_against_the_named_directory(
    arguments: &str,
    default_cwd: &str,
    base: Result<ResolvedCwd, FunctionCallError>,
)
    requires
        call_ensures(resolve_workdir_base_path, (arguments, default_cwd), base),
    ensures
        base is Ok <==> json_parsed(arguments@) is Ok,
        base is Err ==> responds(
            base->Err_0,
            "failed to parse function arguments: "@ + json_error_text(
                json_parsed(arguments@)->Err_0,
            ),
        ),
        base is Ok ==> {
            let members = json_members(json_parsed(arguments@)->Ok_0);
            let named = members.contains_key("workdir"@) && json_text(members["workdir"@]) is Some
                && json_text(members["workdir"@])->0.len() > 0;
            &&& base->Ok_0.base@ == default_cwd@
            &&& base->Ok_0.workdir is Some <==> named
            &&& named ==> Some(base->Ok_0.workdir->0@) == json_text(members["workdir"@])
        },
{
}

/// The directory that was resolved: the base, or the working directory joined to it.
pub open spec fn is_made_of<K: Fn(&str, &str) -> String>(
    cwd: ResolvedCwd,
    join: K,
    made: Seq<char>,
) -> bool {
    match cwd.workdir {
        None => made == cwd.base@,
        Some(workdir) => exists|base: &str, path: &str, joined: String|
            base@ == cwd.base@ && path@ == workdir@ && joined@ == made && #[trigger] call_ensures(
                join,
                (base, path),
                joined,
            ),
    }
}

/// A directory that was resolved is made of its parts.
pub proof fn lemma_made_of<K: Fn(&str, &str) -> String>(cwd: ResolvedCwd, join: K, made: String)
    requires
        is_directory(cwd, join, made),
    ensures
        is_made_of(cwd, join, made@),
{
    if let Some(workdir) = cwd.workdir {
        let (base, path) = choose|b: &str, p: &str|
            b@ == cwd.base@ && p@ == workdir@ && #[trigger] call_ensures(join, (b, p), made);
        assert(call_ensures(join, (base, path), made));
    }
}

} // verus!
