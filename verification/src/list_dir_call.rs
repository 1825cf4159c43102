//! One call of the `list_dir` tool, stage by stage. Each stage is handed the way to
//! find out what it needs, or takes the answer, and gives the next stage.

use crate::dir_walk::{
    finds_alike, law_equal_walks_list_the_same, sorts_listing, walk_after, DirWalk, FoundEntry,
    PendingDir,
};
use crate::environment::{
    is_directory, is_first_with_id, is_made_of, is_unknown_id, lemma_made_of,
    resolve_tool_environment, resolves_against, unknown_id_message, ResolvedToolEnvironment,
    ToolEnvironmentArgs, TurnEnvironment,
};
use crate::error::{arguments_error, respond, responds, FunctionCallError};
use crate::list_dir::{
    default_depth, default_limit, default_offset, entry_views, is_page_of,
    law_pages_are_repeatable, lemma_page_is_shown, list_dir_slice, shows_page, DirEntry,
};
use crate::profile::text_view;
use crate::text::{join_lines, joined_lines, lemma_joined_lines_by_text, texts};
use crate::tool::{reads, FunctionToolOutput, ToolKind, ToolPayload};
use vstd::prelude::*;

verus! {

/// The arguments of the tool.
pub struct ListDirArgs {
    pub dir_path: String,
    /// The number of the first entry shown, counted from one.
    pub offset: usize,
    /// The most entries shown.
    pub limit: usize,
    /// How many levels are listed.
    pub depth: usize,
}

/// The tool that lists a directory.
pub struct ListDirHandler;

/// The call's arguments are to be read.
pub struct ParseStage {
    pub arguments: String,
}

/// Arguments that nothing is wrong with.
pub struct CheckedArgs {
    args: ListDirArgs,
}

impl View for CheckedArgs {
    type V = ListDirArgs;

    closed spec fn view(&self) -> ListDirArgs {
        self.args
    }
}

impl CheckedArgs {
    /// Nothing is wrong with the arguments.
    #[verifier::type_invariant]
    spec fn well_formed(&self) -> bool {
        args_fault(self.args) is None
    }

    /// The arguments.
    pub fn get(&self) -> (args: &ListDirArgs)
        ensures
            *args == self@,
            args_fault(*args) is None,
    {
        proof {
            use_type_invariant(&*self);
        }
        &self.args
    }
}

/// The directory's path is to be made absolute.
pub struct LocateStage {
    pub arguments: String,
    pub args: CheckedArgs,
}

/// The environment is to be chosen.
pub struct RouteStage {
    pub arguments: String,
    pub args: CheckedArgs,
    pub path: String,
}

/// The read policy is to be asked about the directory.
pub struct GuardStage {
    pub args: CheckedArgs,
    pub path: String,
    pub place: ResolvedToolEnvironment,
    /// The file system is read under the turn's sandbox.
    pub sandboxed: bool,
}

/// The directory is being walked.
pub struct WalkStage {
    pub args: CheckedArgs,
    pub path: String,
    pub place: ResolvedToolEnvironment,
    /// The file system is read under the turn's sandbox.
    pub sandboxed: bool,
    /// The directory that the sandbox and the read policy stand against.
    pub cwd: String,
    pub walk: DirWalk,
}

/// The walk has read all its directories.
pub struct FinishedStage {
    pub args: CheckedArgs,
    pub path: String,
    pub entries: Vec<DirEntry>,
}

/// What comes next in a walk.
pub enum WalkStep {
    /// The directory is to be read.
    Read { dir: PendingDir, stage: WalkStage },
    /// There is no directory left.
    Done(FinishedStage),
}

/// The number that is given, or the one that stands for it.
pub open spec fn given_or(given: Option<usize>, default: usize) -> usize {
    match given {
        Some(number) => number,
        None => default,
    }
}

impl ListDirArgs {
    /// The arguments of a call. What is left out stands for the first entry, 25
    /// entries and two levels.
    pub fn with_defaults(
        dir_path: String,
        offset: Option<usize>,
        limit: Option<usize>,
        depth: Option<usize>,
    ) -> (args: ListDirArgs)
        ensures
            args == (ListDirArgs {
                dir_path,
                offset: given_or(offset, 1),
                limit: given_or(limit, 25),
                depth: given_or(depth, 2),
            }),
    {
        let offset: usize = match offset {
            Some(number) => number,
            None => default_offset(),
        };
        let limit: usize = match limit {
            Some(number) => number,
            None => default_limit(),
        };
        let depth: usize = match depth {
            Some(number) => number,
            None => default_depth(),
        };
        ListDirArgs { dir_path, offset, limit, depth }
    }
}

impl ListDirHandler {
    /// The tool is called as a function.
    pub fn kind(&self) -> (kind: ToolKind)
        ensures
            kind == ToolKind::Function,
    {
        ToolKind::Function
    }

    /// Starts a call. Only a function call is accepted.
    pub fn begin(&self, payload: ToolPayload) -> (stage: Result<ParseStage, FunctionCallError>)
        ensures
            match (payload, stage) {
                (ToolPayload::Function { arguments }, Ok(next)) => next.arguments == arguments,
                (ToolPayload::Function { .. }, Err(_)) => false,
                (_, Ok(_)) => false,
                (_, Err(error)) => responds(
                    error,
                    "list_dir handler received unsupported payload"@,
                ),
            },
    {
        match payload {
            ToolPayload::Function { arguments } => Ok(ParseStage { arguments }),
            _ => Err(respond("list_dir handler received unsupported payload")),
        }
    }
}

/// What is wrong with the arguments, if anything; the offset comes first, then
/// the limit, then the depth.
pub open spec fn args_fault(args: ListDirArgs) -> Option<Seq<char>> {
    if args.offset == 0 {
        Some("offset must be a 1-indexed entry number"@)
    } else if args.limit == 0 {
        Some("limit must be greater than zero"@)
    } else if args.depth == 0 {
        Some("depth must be greater than zero"@)
    } else {
        None
    }
}

/// What comes of reading the arguments.
pub open spec fn accepts_args(
    arguments: String,
    parsed: Result<ListDirArgs, String>,
    stage: Result<LocateStage, FunctionCallError>,
) -> bool {
    match (parsed, stage) {
        (Err(reason), Err(error)) => responds(
            error,
            "failed to parse function arguments: "@ + reason@,
        ),
        (Err(_), Ok(_)) => false,
        (Ok(args), Ok(next)) => args_fault(args) is None && next.args@ == args && next.arguments
            == arguments,
        (Ok(args), Err(error)) => args_fault(args) is Some && responds(error, args_fault(args)->0),
    }
}

/// The stage is what comes of reading the arguments with `parse`.
pub open spec fn are_args_read<P: FnOnce(&str) -> Result<ListDirArgs, String>>(
    arguments: String,
    parse: P,
    stage: Result<LocateStage, FunctionCallError>,
) -> bool {
    exists|parsed: Result<ListDirArgs, String>| #[trigger]
        reads(parse, arguments@, parsed) && accepts_args(arguments, parsed, stage)
}

impl ParseStage {
    /// Reads the arguments with `parse`.
    pub fn parsed<P: FnOnce(&str) -> Result<ListDirArgs, String>>(self, parse: P) -> (stage: Result<
        LocateStage,
        FunctionCallError,
    >)
        requires
            forall|arguments: &str| call_requires(parse, (arguments,)),
        ensures
            are_args_read(self.arguments, parse, stage),
    {
        let parsed = parse(self.arguments.as_str());
        assert(reads(parse, self.arguments@, parsed));
        self.accepted(parsed)
    }

    /// Takes the arguments, or the reason why they could not be read.
    pub fn accepted(self, parsed: Result<ListDirArgs, String>) -> (stage: Result<
        LocateStage,
        FunctionCallError,
    >)
        ensures
            accepts_args(self.arguments, parsed, stage),
    {
        match parsed {
            Err(reason) => Err(arguments_error(reason.as_str())),
            Ok(args) => {
                if args.offset == 0 {
                    return Err(respond("offset must be a 1-indexed entry number"));
                }
                if args.limit == 0 {
                    return Err(respond("limit must be greater than zero"));
                }
                if args.depth == 0 {
                    return Err(respond("depth must be greater than zero"));
                }
                Ok(LocateStage { arguments: self.arguments, args: CheckedArgs { args } })
            },
        }
    }
}

/// `made` is what `absolute` makes of the path.
pub open spec fn is_made_absolute<A: FnOnce(&str) -> Option<String>>(
    absolute: A,
    path: Seq<char>,
    made: Option<String>,
) -> bool {
    exists|p: &str| p@ == path && #[trigger] call_ensures(absolute, (p,), made)
}

impl LocateStage {
    /// Makes the directory's path absolute: `absolute` gives the absolute form of a
    /// path, and none where the path is not absolute.
    pub fn located<A: FnOnce(&str) -> Option<String>>(self, absolute: A) -> (stage: Result<
        RouteStage,
        FunctionCallError,
    >)
        requires
            forall|path: &str| call_requires(absolute, (path,)),
        ensures
            match stage {
                Ok(next) => {
                    &&& is_made_absolute(absolute, self.args@.dir_path@, Some(next.path))
                    &&& next.args == self.args
                    &&& next.arguments == self.arguments
                },
                Err(error) => is_made_absolute(absolute, self.args@.dir_path@, None) && responds(
                    error,
                    "dir_path must be an absolute path"@,
                ),
            },
    {
        let made = absolute(self.args.get().dir_path.as_str());
        assert(is_made_absolute(absolute, self.args@.dir_path@, made));
        match made {
            Some(path) => Ok(RouteStage { arguments: self.arguments, args: self.args, path }),
            None => Err(respond("dir_path must be an absolute path")),
        }
    }
}

/// The message for a call that has no environment to run in.
pub open spec fn unavailable_message() -> Seq<char> {
    "list_dir is unavailable in this session"@
}

/// What comes of reading the arguments that choose the environment.
pub open spec fn routes(
    from: RouteStage,
    environments: Seq<TurnEnvironment>,
    parsed: Result<ToolEnvironmentArgs, String>,
    stage: Result<GuardStage, FunctionCallError>,
) -> bool {
    match (parsed, stage) {
        (Err(reason), Err(error)) => responds(
            error,
            "failed to parse function arguments: "@ + reason@,
        ),
        (Err(_), Ok(_)) => false,
        (Ok(choice), Ok(next)) => {
            let at = next.place.environment as int;
            &&& next.args == from.args
            &&& next.path == from.path
            &&& at < environments.len()
            &&& next.sandboxed == environments[at].is_remote
            &&& match text_view(choice.environment_id) {
                Some(id) => is_first_with_id(environments, id, at),
                None => at == 0,
            }
            &&& resolves_against(
                next.place.cwd,
                environments[at].cwd@,
                text_view(choice.workdir),
            )
        },
        (Ok(choice), Err(error)) => match text_view(choice.environment_id) {
            Some(id) => is_unknown_id(environments, id) && responds(error, unknown_id_message(id)),
            None => environments.len() == 0 && responds(error, unavailable_message()),
        },
    }
}

/// The stage is what comes of reading the arguments that choose the environment with
/// `parse`.
pub open spec fn is_routed<P: FnOnce(&str) -> Result<ToolEnvironmentArgs, String>>(
    from: RouteStage,
    environments: Seq<TurnEnvironment>,
    parse: P,
    stage: Result<GuardStage, FunctionCallError>,
) -> bool {
    exists|parsed: Result<ToolEnvironmentArgs, String>| #[trigger]
        reads(parse, from.arguments@, parsed) && routes(from, environments, parsed, stage)
}

impl RouteStage {
    /// Reads the arguments that choose the environment with `parse`, and chooses among
    /// the turn's environments. The file system of a remote one is read under the
    /// turn's sandbox.
    pub fn routed<P: FnOnce(&str) -> Result<ToolEnvironmentArgs, String>>(
        self,
        environments: &Vec<TurnEnvironment>,
        parse: P,
    ) -> (stage: Result<GuardStage, FunctionCallError>)
        requires
            forall|arguments: &str| call_requires(parse, (arguments,)),
        ensures
            is_routed(self, environments@, parse, stage),
    {
        let parsed = parse(self.arguments.as_str());
        assert(reads(parse, self.arguments@, parsed));
        self.chosen(environments, parsed)
    }

    /// Takes the arguments that choose the environment, or the reason why they could
    /// not be read, and chooses among the turn's environments.
    pub fn chosen(
        self,
        environments: &Vec<TurnEnvironment>,
        parsed: Result<ToolEnvironmentArgs, String>,
    ) -> (stage: Result<GuardStage, FunctionCallError>)
        ensures
            routes(self, environments@, parsed, stage),
    {
        match parsed {
            Err(reason) => Err(arguments_error(reason.as_str())),
            Ok(choice) => match resolve_tool_environment(environments, &choice) {
                Err(error) => Err(error),
                Ok(None) => Err(respond("list_dir is unavailable in this session")),
                Ok(Some(place)) => {
                    let sandboxed = environments[place.environment].is_remote;
                    Ok(GuardStage { args: self.args, path: self.path, place, sandboxed })
                },
            },
        }
    }
}

/// The message for a directory that the policy forbids to read.
pub open spec fn denied_message(path: Seq<char>) -> Seq<char> {
    "access denied: reading this path is blocked by filesystem deny_read policy"@ + ": `"@ + path
        + "`"@
}

/// `denied` is what `is_denied` says of the path under a policy that stands against the
/// directory `cwd`.
pub open spec fn policy_denies<D: FnOnce(&str, &str) -> bool>(
    is_denied: D,
    cwd: Seq<char>,
    path: Seq<char>,
    denied: bool,
) -> bool {
    exists|c: &str, p: &str|
        c@ == cwd && p@ == path && #[trigger] call_ensures(is_denied, (c, p), denied)
}

/// What comes of the read policy's answer for the directory.
pub open spec fn starts_walk(
    from: GuardStage,
    cwd: String,
    denied: bool,
    stage: Result<WalkStage, FunctionCallError>,
) -> bool {
    match stage {
        Ok(next) => {
            &&& !denied
            &&& next.args == from.args
            &&& next.path == from.path
            &&& next.place == from.place
            &&& next.sandboxed == from.sandboxed
            &&& next.cwd == cwd
            &&& next.walk.entries@.len() == 0
            &&& next.walk.queue@.len() == 1
            &&& next.walk.queue@[0].path@ == from.path@
            &&& next.walk.queue@[0].prefix@.len() == 0
            &&& next.walk.queue@[0].remaining_depth == from.args@.depth
        },
        Err(error) => denied && responds(error, denied_message(from.path@)),
    }
}

/// The stage is what comes of asking the read policy about the directory.
pub open spec fn is_guarded<K: Fn(&str, &str) -> String, D: FnOnce(&str, &str) -> bool>(
    from: GuardStage,
    join: K,
    is_denied: D,
    stage: Result<WalkStage, FunctionCallError>,
) -> bool {
    exists|cwd: String, denied: bool|
        {
            &&& #[trigger] is_directory(from.place.cwd, join, cwd)
            &&& #[trigger] policy_denies(is_denied, cwd@, from.path@, denied)
            &&& starts_walk(from, cwd, denied, stage)
        }
}

impl GuardStage {
    /// Asks the read policy about the directory, and starts the walk. `join` joins a
    /// path to an absolute one, and `is_denied` says whether a path may not be read
    /// under a policy that stands against a directory.
    pub fn guarded<K: Fn(&str, &str) -> String, D: FnOnce(&str, &str) -> bool>(
        self,
        join: &K,
        is_denied: D,
    ) -> (stage: Result<WalkStage, FunctionCallError>)
        requires
            forall|base: &str, path: &str| call_requires(*join, (base, path)),
            forall|cwd: &str, path: &str| call_requires(is_denied, (cwd, path)),
        ensures
            is_guarded(self, *join, is_denied, stage),
    {
        let cwd = self.place.cwd.directory(join);
        let denied = is_denied(cwd.as_str(), self.path.as_str());
        assert(policy_denies(is_denied, cwd@, self.path@, denied));
        let ghost made = cwd;
        assert(is_directory(self.place.cwd, *join, made));
        let ghost from = self;
        let stage = if denied {
            let mut message =
                "access denied: reading this path is blocked by filesystem deny_read policy".to_owned();
            message.append(": `");
            message.append(self.path.as_str());
            message.append("`");
            Err(FunctionCallError::RespondToModel(message))
        } else {
            let walk = DirWalk::new(self.path.clone(), self.args.get().depth);
            Ok(
                WalkStage {
                    args: self.args,
                    path: self.path,
                    place: self.place,
                    sandboxed: self.sandboxed,
                    cwd,
                    walk,
                },
            )
        };
        assert(starts_walk(from, made, denied, stage));
        stage
    }
}

/// The reply: a first line that names the directory, and then the given lines.
pub open spec fn is_reply(text: Seq<char>, path: Seq<char>, lines: Seq<String>) -> bool {
    exists|all: Seq<String>|
        {
            &&& all.len() == lines.len() + 1
            &&& all[0]@ == "Absolute path: "@ + path
            &&& all.drop_first() == lines
            &&& text == #[trigger] joined_lines(all)
        }
}

/// The lines of the asked page; none where nothing was listed.
pub open spec fn shows(
    lines: Seq<String>,
    entries: Seq<DirEntry>,
    offset: nat,
    limit: nat,
) -> bool {
    if entries.len() == 0 {
        lines.len() == 0
    } else {
        offset <= entries.len() && is_page_of(lines, entries, offset, limit)
    }
}

/// The reply that shows the asked page of what was listed in the directory.
pub open spec fn is_listing(
    text: Seq<char>,
    path: Seq<char>,
    entries: Seq<DirEntry>,
    offset: nat,
    limit: nat,
) -> bool {
    exists|lines: Seq<String>| #[trigger]
        is_reply(text, path, lines) && shows(lines, entries, offset, limit)
}

impl WalkStage {
    /// What comes next: the first directory on the walk is read, and the call ends
    /// where there is none.
    pub fn next(self) -> (step: WalkStep)
        ensures
            match step {
                WalkStep::Read { dir, stage } => {
                    &&& self.walk.queue@.len() > 0
                    &&& dir == self.walk.queue@[0]
                    &&& stage.walk.queue@ == self.walk.queue@.drop_first()
                    &&& stage.walk.entries == self.walk.entries
                    &&& stage.args == self.args
                    &&& stage.path == self.path
                    &&& stage.place == self.place
                    &&& stage.sandboxed == self.sandboxed
                    &&& stage.cwd == self.cwd
                },
                WalkStep::Done(finished) => {
                    &&& self.walk.queue@.len() == 0
                    &&& finished.entries == self.walk.entries
                    &&& finished.args == self.args
                    &&& finished.path == self.path
                },
            },
    {
        let mut stage = self;
        match stage.walk.next_dir() {
            Some(dir) => WalkStep::Read { dir, stage },
            None => WalkStep::Done(
                FinishedStage {
                    args: stage.args,
                    path: stage.path,
                    entries: stage.walk.entries,
                },
            ),
        }
    }
}

/// How a call ends that has listed the given entries: with the asked page of them, or
/// with an error where the page starts behind the last entry.
pub open spec fn ends_with(
    path: Seq<char>,
    entries: Seq<DirEntry>,
    offset: nat,
    limit: nat,
    output: Result<FunctionToolOutput, FunctionCallError>,
) -> bool {
    match output {
        Ok(reply) => {
            &&& reply.success == Some(true)
            &&& reply.post_tool_use_response is None
            &&& is_listing(reply.text@, path, entries, offset, limit)
        },
        Err(error) => 0 < entries.len() < offset && responds(
            error,
            "offset exceeds directory entry count"@,
        ),
    }
}

impl FinishedStage {
    /// Ends the call: the asked page of what was listed.
    pub fn finish(self) -> (output: Result<FunctionToolOutput, FunctionCallError>)
        ensures
            ends_with(
                self.path@,
                self.entries@,
                self.args@.offset as nat,
                self.args@.limit as nat,
                output,
            ),
    {
        let FinishedStage { args, path, entries } = self;
        let offset: usize = args.get().offset;
        let limit: usize = args.get().limit;
        let ghost listed = entries@;
        let mut page = match list_dir_slice(entries, offset, limit) {
            Ok(page) => page,
            Err(error) => return Err(error),
        };
        let ghost lines = page@;
        let mut all: Vec<String> = Vec::new();
        all.push("Absolute path: ".to_owned().concat(path.as_str()));
        all.append(&mut page);
        let text = join_lines(&all);
        assert(all@.drop_first() =~= lines);
        assert(is_reply(text@, path@, lines));
        assert(shows(lines, listed, offset as nat, limit as nat));
        assert(is_listing(text@, path@, listed, offset as nat, limit as nat));
        Ok(FunctionToolOutput { text, success: Some(true), post_tool_use_response: None })
    }
}

proof fn lemma_listings_alike(
    text_a: Seq<char>,
    text_b: Seq<char>,
    path: Seq<char>,
    entries_a: Seq<DirEntry>,
    entries_b: Seq<DirEntry>,
    offset: nat,
    limit: nat,
)
    requires
        offset >= 1,
        is_listing(text_a, path, entries_a, offset, limit),
        is_listing(text_b, path, entries_b, offset, limit),
        entry_views(entries_a) == entry_views(entries_b),
    ensures
        text_a == text_b,
{
    let lines_a = choose|lines: Seq<String>| #[trigger]
        is_reply(text_a, path, lines) && shows(lines, entries_a, offset, limit);
    let lines_b = choose|lines: Seq<String>| #[trigger]
        is_reply(text_b, path, lines) && shows(lines, entries_b, offset, limit);
    let all_a = choose|all: Seq<String>|
        {
            &&& all.len() == lines_a.len() + 1
            &&& all[0]@ == "Absolute path: "@ + path
            &&& all.drop_first() == lines_a
            &&& text_a == #[trigger] joined_lines(all)
        };
    let all_b = choose|all: Seq<String>|
        {
            &&& all.len() == lines_b.len() + 1
            &&& all[0]@ == "Absolute path: "@ + path
            &&& all.drop_first() == lines_b
            &&& text_b == #[trigger] joined_lines(all)
        };
    assert(entry_views(entries_a).len() == entries_a.len());
    assert(entry_views(entries_b).len() == entries_b.len());
    if entries_a.len() == 0 {
        assert(texts(lines_a) =~= texts(lines_b));
    } else {
        law_pages_are_repeatable(lines_a, lines_b, entries_a, entries_b, offset, limit);
    }
    assert(texts(lines_a).len() == lines_a.len() && texts(lines_b).len() == lines_b.len());
    assert(texts(all_a) =~= texts(all_b)) by {
        assert forall|i: int| 0 <= i < all_a.len() implies texts(all_a)[i] == texts(all_b)[i] by {
            if i > 0 {
                assert(all_a[i] == lines_a[i - 1] && all_b[i] == lines_b[i - 1]);
                assert(texts(lines_a)[i - 1] == texts(lines_b)[i - 1]);
            }
        }
    }
    lemma_joined_lines_by_text(all_a, all_b);
}

/// The two calls end in the same way: with the same reply, or with the same error.
pub open spec fn same_output(
    a: Result<FunctionToolOutput, FunctionCallError>,
    b: Result<FunctionToolOutput, FunctionCallError>,
) -> bool {
    match (a, b) {
        (Ok(x), Ok(y)) => {
            &&& x.text@ == y.text@
            &&& x.success == y.success
            &&& x.post_tool_use_response == y.post_tool_use_response
        },
        (Err(FunctionCallError::RespondToModel(x)), Err(FunctionCallError::RespondToModel(y))) => {
            x@ == y@
        },
        _ => false,
    }
}

/// Calls for the same page of the same entries end in the same way.
pub proof fn law_equal_calls_end_alike(
    path: Seq<char>,
    entries_a: Seq<DirEntry>,
    entries_b: Seq<DirEntry>,
    offset: nat,
    limit: nat,
    output_a: Result<FunctionToolOutput, FunctionCallError>,
    output_b: Result<FunctionToolOutput, FunctionCallError>,
)
    requires
        offset >= 1,
        ends_with(path, entries_a, offset, limit, output_a),
        ends_with(path, entries_b, offset, limit, output_b),
        entry_views(entries_a) == entry_views(entries_b),
    ensures
        same_output(output_a, output_b),
{
    assert(entry_views(entries_a).len() == entries_a.len());
    assert(entry_views(entries_b).len() == entries_b.len());
    if let (Ok(a), Ok(b)) = (output_a, output_b) {
        lemma_listings_alike(a.text@, b.text@, path, entries_a, entries_b, offset, limit);
    }
}

/// A call that leaves out its offset, limit and depth ends as one does that asks for the
/// first entry, 25 entries and two levels, where the same is found for both in each
/// directory: `list_a` and `list_b` give what is found, and `read_a` and `read_b` give it
/// sorted.
pub proof fn law_defaults_may_be_written_out(
    list_a: spec_fn(PendingDir) -> Seq<FoundEntry>,
    list_b: spec_fn(PendingDir) -> Seq<FoundEntry>,
    read_a: spec_fn(PendingDir) -> Seq<FoundEntry>,
    read_b: spec_fn(PendingDir) -> Seq<FoundEntry>,
    root_a: PendingDir,
    root_b: PendingDir,
    steps_a: nat,
    steps_b: nat,
    path: Seq<char>,
    output_a: Result<FunctionToolOutput, FunctionCallError>,
    output_b: Result<FunctionToolOutput, FunctionCallError>,
)
    requires
        finds_alike(list_a, list_b),
        sorts_listing(read_a, list_a),
        sorts_listing(read_b, list_b),
        root_a.path@ == root_b.path@,
        root_a.prefix@ == root_b.prefix@,
        root_a.remaining_depth == given_or(None, 2),
        root_b.remaining_depth == given_or(Some(2), 2),
        ({
            let (queue, entries) = walk_after(read_a, seq![root_a], Seq::empty(), steps_a);
            &&& queue.len() == 0
            &&& ends_with(
                path,
                entries,
                given_or(None, 1) as nat,
                given_or(None, 25) as nat,
                output_a,
            )
        }),
        ({
            let (queue, entries) = walk_after(read_b, seq![root_b], Seq::empty(), steps_b);
            &&& queue.len() == 0
            &&& ends_with(
                path,
                entries,
                given_or(Some(1), 1) as nat,
                given_or(Some(25), 25) as nat,
                output_b,
            )
        }),
    ensures
        same_output(output_a, output_b),
{
    let entries_a = walk_after(read_a, seq![root_a], Seq::empty(), steps_a).1;
    let entries_b = walk_after(read_b, seq![root_b], Seq::empty(), steps_b).1;
    law_equal_walks_list_the_same(
        list_a,
        list_b,
        read_a,
        read_b,
        root_a,
        root_b,
        steps_a,
        steps_b,
    );
    law_equal_calls_end_alike(path, entries_a, entries_b, 1, 25, output_a, output_b);
}

/// What a call leaves out stands for the first entry, 25 entries and two levels;
/// what it gives is kept.
pub proof fn law_only_what_is_left_out_is_filled_in(
    dir_path: String,
    offset: Option<usize>,
    limit: Option<usize>,
    depth: Option<usize>,
    args: ListDirArgs,
)
    requires
        call_ensures(ListDirArgs::with_defaults, (dir_path, offset, limit, depth), args),
    ensures
        args.dir_path@ == dir_path@,
        offset is Some ==> args.offset == offset->0,
        offset is None ==> args.offset == 1,
        limit is Some ==> args.limit == limit->0,
        limit is None ==> args.limit == 25,
        depth is Some ==> args.depth == depth->0,
        depth is None ==> args.depth == 2,
{
}

/// Only a function call is taken up, with its arguments.
pub proof fn law_only_a_function_call_lists(
    handler: ListDirHandler,
    payload: ToolPayload,
    stage: Result<ParseStage, FunctionCallError>,
)
    requires
        call_ensures(ListDirHandler::begin, (&handler, payload), stage),
    ensures
        stage is Ok <==> payload is Function,
        stage is Ok ==> payload == (ToolPayload::Function { arguments: stage->Ok_0.arguments }),
        stage is Err ==> responds(
            stage->Err_0,
            "list_dir handler received unsupported payload"@,
        ),
{
}

/// Arguments are accepted exactly where they could be read and neither the offset,
/// the limit nor the depth is zero, however large they are. They are refused for
/// the first of these that is.
pub proof fn law_only_zeros_are_refused(
    stage: ParseStage,
    parsed: Result<ListDirArgs, String>,
    located: Result<LocateStage, FunctionCallError>,
)
    requires
        call_ensures(ParseStage::accepted, (stage, parsed), located),
    ensures
        located is Ok <==> parsed is Ok && parsed->Ok_0.offset >= 1 && parsed->Ok_0.limit >= 1
            && parsed->Ok_0.depth >= 1,
        located is Ok ==> located->Ok_0.args@ == parsed->Ok_0 && located->Ok_0.arguments@
            == stage.arguments@,
        located is Err ==> responds(
            located->Err_0,
            if parsed is Err {
                "failed to parse function arguments: "@ + parsed->Err_0@
            } else if parsed->Ok_0.offset == 0 {
                "offset must be a 1-indexed entry number"@
            } else if parsed->Ok_0.limit == 0 {
                "limit must be greater than zero"@
            } else {
                "depth must be greater than zero"@
            },
        ),
{
}

/// The arguments are read once, in the text of the call, and the call goes on by
/// what they read as.
pub proof fn law_arguments_are_read_in_the_call<P: FnOnce(&str) -> Result<ListDirArgs, String>>(
    stage: ParseStage,
    parse: P,
    located: Result<LocateStage, FunctionCallError>,
)
    requires
        call_ensures(ParseStage::parsed::<P>, (stage, parse), located),
    ensures
        exists|a: &str, parsed: Result<ListDirArgs, String>|
            {
                &&& a@ == stage.arguments@
                &&& #[trigger] call_ensures(parse, (a,), parsed)
                &&& located is Ok <==> parsed is Ok && parsed->Ok_0.offset >= 1
                    && parsed->Ok_0.limit >= 1 && parsed->Ok_0.depth >= 1
                &&& located is Ok ==> located->Ok_0.args@ == parsed->Ok_0
                    && located->Ok_0.arguments@ == stage.arguments@
            },
{
    let parsed = choose|parsed: Result<ListDirArgs, String>| #[trigger]
        reads(parse, stage.arguments@, parsed) && accepts_args(stage.arguments, parsed, located);
    let a = choose|a: &str| a@ == stage.arguments@ && #[trigger] call_ensures(
        parse,
        (a,),
        parsed,
    );
    assert(call_ensures(parse, (a,), parsed));
}

/// A path is refused exactly where it cannot be made absolute. Else its absolute
/// form is listed, with the arguments as they were.
pub proof fn law_only_absolute_paths_are_listed<A: FnOnce(&str) -> Option<String>>(
    stage: LocateStage,
    absolute: A,
    routed: Result<RouteStage, FunctionCallError>,
)
    requires
        call_ensures(LocateStage::located::<A>, (stage, absolute), routed),
    ensures
        exists|p: &str, made: Option<String>|
            {
                &&& p@ == stage.args@.dir_path@
                &&& #[trigger] call_ensures(absolute, (p,), made)
                &&& routed is Ok <==> made is Some
                &&& routed is Ok ==> {
                    &&& routed->Ok_0.path@ == made->0@
                    &&& routed->Ok_0.args == stage.args
                    &&& routed->Ok_0.arguments@ == stage.arguments@
                }
                &&& routed is Err ==> responds(
                    routed->Err_0,
                    "dir_path must be an absolute path"@,
                )
            },
{
    let path = stage.args@.dir_path@;
    match routed {
        Ok(next) => {
            let p = choose|p: &str| p@ == path && #[trigger] call_ensures(
                absolute,
                (p,),
                Some(next.path),
            );
            assert(call_ensures(absolute, (p,), Some(next.path)));
        },
        Err(_) => {
            let p = choose|p: &str| p@ == path && #[trigger] call_ensures(absolute, (p,), None);
            assert(call_ensures(absolute, (p,), None::<String>));
        },
    }
}

/// A listing is made in the environment that the call names, or in the turn's first
/// where it names none. It is made under the sandbox exactly where that one is
/// remote. It is refused exactly where the arguments could not be read, the call
/// names an id that no environment has, or there is no environment at all.
pub proof fn law_listing_is_made_in_the_named_environment(
    stage: RouteStage,
    environments: Vec<TurnEnvironment>,
    parsed: Result<ToolEnvironmentArgs, String>,
    guard: Result<GuardStage, FunctionCallError>,
)
    requires
        call_ensures(RouteStage::chosen, (stage, &environments, parsed), guard),
    ensures
        parsed is Err ==> guard is Err && responds(
            guard->Err_0,
            "failed to parse function arguments: "@ + parsed->Err_0@,
        ),
        parsed is Ok ==> {
            let id = parsed->Ok_0.environment_id;
            let workdir = parsed->Ok_0.workdir;
            &&& id is None ==> (guard is Err <==> environments@.len() == 0)
            &&& id is Some ==> (guard is Ok <==> exists|k: int|
                0 <= k < environments@.len() && (#[trigger] environments@[k]).environment_id@
                    == id->0@)
            &&& guard is Err ==> responds(
                guard->Err_0,
                if id is Some {
                    "unknown turn environment id `"@ + id->0@ + "`"@
                } else {
                    "list_dir is unavailable in this session"@
                },
            )
            &&& guard is Ok ==> {
                let at = guard->Ok_0.place.environment as int;
                let cwd = guard->Ok_0.place.cwd;
                &&& at < environments@.len()
                &&& id is None ==> at == 0
                &&& id is Some ==> environments@[at].environment_id@ == id->0@ && forall|k: int|
                    0 <= k < at ==> (#[trigger] environments@[k]).environment_id@ != id->0@
                &&& guard->Ok_0.args == stage.args
                &&& guard->Ok_0.path@ == stage.path@
                &&& guard->Ok_0.sandboxed == environments@[at].is_remote
                &&& cwd.base@ == environments@[at].cwd@
                &&& cwd.workdir is Some <==> workdir is Some && workdir->0@.len() > 0
                &&& cwd.workdir is Some ==> cwd.workdir->0@ == workdir->0@
            }
        },
{
    if parsed is Ok && parsed->Ok_0.environment_id is Some && guard is Ok {
        let at = guard->Ok_0.place.environment as int;
        assert(environments@[at].environment_id@ == parsed->Ok_0.environment_id->0@);
    }
}

/// The arguments that choose the environment are read once, in the text of the
/// call, and it is chosen by what they read as.
pub proof fn law_environment_is_chosen_by_the_arguments<
    P: FnOnce(&str) -> Result<ToolEnvironmentArgs, String>,
>(
    stage: RouteStage,
    environments: Vec<TurnEnvironment>,
    parse: P,
    guard: Result<GuardStage, FunctionCallError>,
)
    requires
        call_ensures(RouteStage::routed::<P>, (stage, &environments, parse), guard),
    ensures
        exists|a: &str, parsed: Result<ToolEnvironmentArgs, String>|
            {
                &&& a@ == stage.arguments@
                &&& #[trigger] call_ensures(parse, (a,), parsed)
                &&& routes(stage, environments@, parsed, guard)
            },
{
    let parsed = choose|parsed: Result<ToolEnvironmentArgs, String>| #[trigger]
        reads(parse, stage.arguments@, parsed) && routes(stage, environments@, parsed, guard);
    let a = choose|a: &str| a@ == stage.arguments@ && #[trigger] call_ensures(
        parse,
        (a,),
        parsed,
    );
    assert(call_ensures(parse, (a,), parsed));
}

/// A directory is refused exactly where the read policy denies its path, the policy
/// standing against the working directory of the call. Else the walk starts there,
/// with nothing listed and as many levels to list as were asked for.
pub proof fn law_denied_directories_are_not_walked<
    K: Fn(&str, &str) -> String,
    D: FnOnce(&str, &str) -> bool,
>(guard: GuardStage, join: K, is_denied: D, stage: Result<WalkStage, FunctionCallError>)
    requires
        call_ensures(GuardStage::guarded::<K, D>, (guard, &join, is_denied), stage),
    ensures
        exists|c: &str, p: &str, denied: bool|
            {
                &&& p@ == guard.path@
                &&& is_made_of(guard.place.cwd, join, c@)
                &&& #[trigger] call_ensures(is_denied, (c, p), denied)
                &&& stage is Err <==> denied
                &&& stage is Err ==> responds(
                    stage->Err_0,
                    "access denied: reading this path is blocked by filesystem deny_read policy"@
                        + ": `"@ + guard.path@ + "`"@,
                )
                &&& stage is Ok ==> {
                    let walk = stage->Ok_0.walk;
                    &&& stage->Ok_0.cwd@ == c@
                    &&& stage->Ok_0.args == guard.args
                    &&& stage->Ok_0.path@ == guard.path@
                    &&& stage->Ok_0.place == guard.place
                    &&& stage->Ok_0.sandboxed == guard.sandboxed
                    &&& walk.entries@.len() == 0
                    &&& walk.queue@.len() == 1
                    &&& walk.queue@[0].path@ == guard.path@
                    &&& walk.queue@[0].prefix@.len() == 0
                    &&& walk.queue@[0].remaining_depth == guard.args@.depth
                }
            },
{
    let (cwd, denied) = choose|cwd: String, denied: bool|
        {
            &&& #[trigger] is_directory(guard.place.cwd, join, cwd)
            &&& #[trigger] policy_denies(is_denied, cwd@, guard.path@, denied)
            &&& starts_walk(guard, cwd, denied, stage)
        };
    lemma_made_of(guard.place.cwd, join, cwd);
    let (c, p) = choose|c: &str, p: &str|
        c@ == cwd@ && p@ == guard.path@ && #[trigger] call_ensures(is_denied, (c, p), denied);
    assert(call_ensures(is_denied, (c, p), denied));
}

/// The walk goes on with the directory that has waited longest and ends exactly
/// where none waits, with all that was listed. Nothing else of the call changes.
pub proof fn law_walk_ends_where_no_directory_waits(stage: WalkStage, step: WalkStep)
    requires
        call_ensures(WalkStage::next, (stage,), step),
    ensures
        step is Done <==> stage.walk.queue@.len() == 0,
        match step {
            WalkStep::Read { dir, stage: on } => {
                &&& stage.walk.queue@ == seq![dir] + on.walk.queue@
                &&& on.walk.entries@ == stage.walk.entries@
                &&& on.args == stage.args
                &&& on.path@ == stage.path@
                &&& on.place == stage.place
                &&& on.sandboxed == stage.sandboxed
                &&& on.cwd@ == stage.cwd@
            },
            WalkStep::Done(finished) => {
                &&& finished.entries@ == stage.walk.entries@
                &&& finished.args == stage.args
                &&& finished.path@ == stage.path@
            },
        },
{
    if let WalkStep::Read { dir, stage: on } = step {
        assert(stage.walk.queue@ =~= seq![dir] + on.walk.queue@);
    }
}

/// The lines, each behind a newline.
pub open spec fn each_on_a_new_line(lines: Seq<String>) -> Seq<char>
    decreases lines.len(),
{
    if lines.len() == 0 {
        Seq::empty()
    } else {
        each_on_a_new_line(lines.drop_last()) + seq!['\n'] + lines.last()@
    }
}

proof fn lemma_lines_behind_the_first(all: Seq<String>)
    requires
        all.len() > 0,
    ensures
        joined_lines(all) == all[0]@ + each_on_a_new_line(all.drop_first()),
    decreases all.len(),
{
    if all.len() == 1 {
        assert(all.drop_first() =~= Seq::empty());
        assert(all[0]@ + Seq::empty() =~= all[0]@);
    } else {
        let init = all.drop_last();
        lemma_lines_behind_the_first(init);
        assert(all.drop_first().drop_last() =~= init.drop_first());
        assert(all.drop_first().last() == all.last());
        assert(init[0] == all[0]);
        assert(joined_lines(all) =~= all[0]@ + each_on_a_new_line(all.drop_first()));
    }
}

/// A finished call fails exactly where entries were listed but none has the number
/// that the page is to start with. Else it succeeds with the directory's path on
/// the first line and the page below it, and hooks are told nothing.
pub proof fn law_reply_names_the_directory_and_shows_the_page(
    stage: FinishedStage,
    output: Result<FunctionToolOutput, FunctionCallError>,
)
    requires
        call_ensures(FinishedStage::finish, (stage,), output),
        stage.args@.offset >= 1,
    ensures
        output is Err <==> 0 < stage.entries@.len() < stage.args@.offset,
        output is Err ==> responds(output->Err_0, "offset exceeds directory entry count"@),
        output is Ok ==> output->Ok_0.success == Some(true)
            && output->Ok_0.post_tool_use_response is None,
        output is Ok ==> exists|lines: Seq<String>|
            {
                &&& output->Ok_0.text@ == "Absolute path: "@ + stage.path@
                    + #[trigger] each_on_a_new_line(lines)
                &&& stage.entries@.len() == 0 ==> lines.len() == 0
                &&& stage.entries@.len() > 0 ==> shows_page(
                    lines,
                    stage.entries@,
                    stage.args@.offset as int,
                    stage.args@.limit as int,
                )
            },
{
    if output is Ok {
        let text = output->Ok_0.text@;
        let offset = stage.args@.offset as nat;
        let limit = stage.args@.limit as nat;
        let lines = choose|lines: Seq<String>| #[trigger]
            is_reply(text, stage.path@, lines) && shows(lines, stage.entries@, offset, limit);
        let all = choose|all: Seq<String>|
            {
                &&& all.len() == lines.len() + 1
                &&& all[0]@ == "Absolute path: "@ + stage.path@
                &&& all.drop_first() == lines
                &&& text == #[trigger] joined_lines(all)
            };
        lemma_lines_behind_the_first(all);
        if stage.entries@.len() > 0 {
            lemma_page_is_shown(lines, stage.entries@, offset, limit);
        }
        assert(text == "Absolute path: "@ + stage.path@ + each_on_a_new_line(lines));
    }
}

/// Nothing is wrong with the arguments that a call goes on with: none of their
/// numbers is zero.
pub proof fn law_checked_arguments_hold_no_zero(checked: CheckedArgs, args: ListDirArgs)
    requires
        call_ensures(CheckedArgs::get, (&checked,), &args),
    ensures
        args == checked@,
        args.offset >= 1,
        args.limit >= 1,
        args.depth >= 1,
{
}

/// The tool is called as a function.
pub proof fn law_listing_is_called_as_a_function(handler: ListDirHandler, kind: ToolKind)
    requires
        call_ensures(ListDirHandler::kind, (&handler,), kind),
    ensures
        kind is Function,
{
}

} // verus!
