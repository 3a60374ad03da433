//! Running commands: what may run, how it is started, and what is kept of what
//! it prints.
use vstd::prelude::*;

use crate::bytes::{lossy, lossy_text};
use crate::definition::copy_text;
use crate::json::{
    field, law_the_first_member_of_a_name_counts, no_fields, opt_view, Data, Json, Members,
};
use crate::number::{decimal, to_decimal};
use crate::order::Names;
use crate::schema::{argument, arguments, object_schema, one, Schema, ToolSchema};
use crate::text::{cat3, chars_of, is_space, owned, space, views};

verus! {

pub const DEFAULT_MAX_OUTPUT_BYTES: u64 = 1_000_000;

pub const DEFAULT_TIMEOUT_S: u64 = 300;

/// A full shell, or a runner of the listed commands, as the operator chose.
#[derive(Debug)]
pub struct Shell {
    full_access: bool,
    shell: String,
    allow_commands: Names,
    cwd: Option<String>,
    max_output_bytes: u64,
    timeout_s: u64,
}

/// What a [`Shell`] denotes.
pub struct ShellScope {
    pub full_access: bool,
    pub shell: Seq<char>,
    pub allowed: Set<Seq<char>>,
    pub cwd: Option<Seq<char>>,
    pub max_output_bytes: int,
    pub timeout_s: int,
}

impl View for Shell {
    type V = ShellScope;

    closed spec fn view(&self) -> ShellScope {
        ShellScope {
            full_access: self.full_access,
            shell: self.shell@,
            allowed: self.allow_commands.seq().to_set(),
            cwd: opt_view(self.cwd),
            max_output_bytes: self.max_output_bytes as int,
            timeout_s: self.timeout_s as int,
        }
    }
}

/// The scope that a configuration grants, or why it grants none.
pub open spec fn shell_scope(config: Json) -> Result<ShellScope, Seq<char>> {
    let full_access = config.get_bool("full_access"@) == Some(true);
    let listed = config.get_strings("allow_commands"@);
    if !full_access && listed.len() == 0 {
        Err("set `full_access = true` or a non-empty `allow_commands` array"@)
    } else if full_access && listed.len() > 0 {
        Err("`full_access` and `allow_commands` are mutually exclusive"@)
    } else {
        Ok(
            ShellScope {
                full_access,
                shell: match config.get_str("shell"@) {
                    Some(s) => s,
                    None => "/bin/sh"@,
                },
                allowed: listed.to_set(),
                cwd: config.get_str("cwd"@),
                max_output_bytes: match config.get_u64("max_output_bytes"@) {
                    Some(n) => n,
                    None => DEFAULT_MAX_OUTPUT_BYTES as int,
                },
                timeout_s: match config.get_u64("timeout_s"@) {
                    Some(n) => if n > 0 {
                        n
                    } else {
                        DEFAULT_TIMEOUT_S as int
                    },
                    None => DEFAULT_TIMEOUT_S as int,
                },
            },
        )
    }
}

/// How a command is started.
#[derive(Debug)]
pub struct ShellCommand {
    pub program: String,
    pub args: Vec<String>,
    pub cwd: Option<String>,
}

/// What a [`ShellCommand`] denotes.
pub struct Start {
    pub program: Seq<char>,
    pub args: Seq<Seq<char>>,
    pub cwd: Option<Seq<char>>,
}

impl View for ShellCommand {
    type V = Start;

    open spec fn view(&self) -> Start {
        Start { program: self.program@, args: views(self.args@), cwd: opt_view(self.cwd) }
    }
}

/// Every item is a string.
pub open spec fn all_strings(items: Seq<Json>) -> bool {
    forall|i: int| 0 <= i < items.len() ==> (#[trigger] items[i]).str() is Some
}

/// How the command that the arguments ask for is started, or why it is not.
pub open spec fn start_of(s: ShellScope, args: Json) -> Result<Start, Seq<char>> {
    match args.get_str("command"@) {
        None => Err("shell requires string `command`"@),
        Some(command) => if s.full_access {
            Ok(
                Start {
                    program: s.shell,
                    args: Seq::empty().push("-lc"@).push(command),
                    cwd: s.cwd,
                },
            )
        } else if !s.allowed.contains(command) {
            Err("command `"@ + command + "` is not allowlisted"@)
        } else if exists|i: int| 0 <= i < command.len() && is_space(#[trigger] command[i]) {
            Err("restricted command must be one executable name without whitespace"@)
        } else {
            match args.get("args"@) {
                Some(Json::Array(items)) => if all_strings(items) {
                    Ok(
                        Start {
                            program: command,
                            args: items.map_values(|j: Json| j->Str_0),
                            cwd: s.cwd,
                        },
                    )
                } else {
                    Err("every restricted command argument must be a string"@)
                },
                _ => Ok(Start { program: command, args: Seq::empty(), cwd: s.cwd }),
            }
        },
    }
}

fn has_space(s: &str) -> (r: bool)
    ensures
        r == exists|i: int| 0 <= i < s@.len() && is_space(#[trigger] s@[i]),
{
    let v = chars_of(s);
    let mut i: usize = 0;
    while i < v.len()
        invariant
            i <= v@.len(),
            v@ == s@,
            forall|k: int| 0 <= k < i ==> !is_space(#[trigger] s@[k]),
        decreases v.len() - i,
    {
        if space(v[i]) {
            return true;
        }
        i = i + 1;
    }
    false
}

fn string_args(items: &Vec<Data>) -> (r: Option<Vec<String>>)
    ensures
        match r {
            Some(list) => {
                &&& all_strings(crate::json::items_view(items@))
                &&& views(list@) == crate::json::items_view(items@).map_values(
                    |j: Json| j->Str_0,
                )
            },
            None => !all_strings(crate::json::items_view(items@)),
        },
{
    let ghost all = crate::json::items_view(items@);
    let mut list: Vec<String> = Vec::new();
    let mut i: usize = 0;
    while i < items.len()
        invariant
            i <= items@.len(),
            all == crate::json::items_view(items@),
            list@.len() == i,
            forall|k: int|
                0 <= k < i ==> (#[trigger] all[k]) == Json::Str(list@[k]@),
        decreases items.len() - i,
    {
        assert(all[i as int] == items@[i as int]@);
        match items[i].as_str() {
            Some(t) => {
                list.push(owned(t));
            },
            None => {
                return None;
            },
        }
        i = i + 1;
    }
    assert(views(list@) =~= all.map_values(|j: Json| j->Str_0));
    Some(list)
}

impl Shell {
    /// The shell that one grant configures.
    pub fn from_config(config: &Data) -> (r: Result<Shell, String>)
        ensures
            match r {
                Ok(s) => shell_scope(config@) == Ok::<ShellScope, Seq<char>>(s@),
                Err(e) => shell_scope(config@) == Err::<ShellScope, Seq<char>>(e@),
            },
    {
        let full_access = match config.get_bool("full_access") {
            Some(b) => b,
            None => false,
        };
        let listed = config.get_strings("allow_commands");
        let ghost names_of = views(listed@);
        if !full_access && listed.len() == 0 {
            return Err(owned("set `full_access = true` or a non-empty `allow_commands` array"));
        }
        if full_access && listed.len() > 0 {
            return Err(owned("`full_access` and `allow_commands` are mutually exclusive"));
        }
        let mut allow_commands = Names::new();
        let mut i: usize = 0;
        while i < listed.len()
            invariant
                i <= listed@.len(),
                names_of == views(listed@),
                forall|k: Seq<char>| #[trigger]
                    allow_commands.seq().contains(k) <==> names_of.take(i as int).contains(k),
            decreases listed.len() - i,
        {
            let ghost was = allow_commands.seq();
            allow_commands.insert(listed[i].as_str());
            proof {
                let then = names_of.take(i as int);
                let now = names_of.take(i + 1);
                let key = names_of[i as int];
                assert(key == listed@[i as int]@);
                assert(now =~= then.push(key));
                assert forall|k: Seq<char>| #[trigger]
                    allow_commands.seq().contains(k) <==> now.contains(k) by {
                    assert(was.contains(k) <==> then.contains(k));
                    if then.contains(k) {
                        let j = then.index_of(k);
                        assert(now[j] == k);
                    }
                    assert(now[i as int] == key);
                    if now.contains(k) && k != key {
                        let j = now.index_of(k);
                        assert(then[j] == k);
                    }
                }
            }
            i = i + 1;
        }
        assert(names_of.take(i as int) =~= names_of);
        assert(allow_commands.seq().to_set() =~= names_of.to_set());
        let shell = match config.get_str("shell") {
            Some(s) => owned(s),
            None => owned("/bin/sh"),
        };
        let cwd = match config.get_str("cwd") {
            Some(s) => Some(owned(s)),
            None => None,
        };
        let max_output_bytes: u64 = match config.get_u64("max_output_bytes") {
            Some(n) => n,
            None => DEFAULT_MAX_OUTPUT_BYTES,
        };
        let timeout_s: u64 = match config.get_u64("timeout_s") {
            Some(n) => if n > 0 {
                n
            } else {
                DEFAULT_TIMEOUT_S
            },
            None => DEFAULT_TIMEOUT_S,
        };
        Ok(Shell { full_access, shell, allow_commands, cwd, max_output_bytes, timeout_s })
    }

    /// How the command that the arguments ask for is started, or why it is not.
    pub fn plan(&self, args: &Data) -> (r: Result<ShellCommand, String>)
        ensures
            match r {
                Ok(c) => start_of(self@, args@) == Ok::<Start, Seq<char>>(c@),
                Err(e) => start_of(self@, args@) == Err::<Start, Seq<char>>(e@),
            },
    {
        let command = match args.get_str("command") {
            Some(c) => c,
            None => {
                return Err(owned("shell requires string `command`"));
            },
        };
        if self.full_access {
            let mut list: Vec<String> = Vec::new();
            list.push(owned("-lc"));
            list.push(owned(command));
            assert(views(list@) =~= Seq::<Seq<char>>::empty().push("-lc"@).push(command@));
            return Ok(
                ShellCommand { program: self.shell.clone(), args: list, cwd: copy_text(&self.cwd) },
            );
        }
        if !self.allow_commands.has(command) {
            return Err(cat3("command `", command, "` is not allowlisted"));
        }
        if has_space(command) {
            return Err(
                owned("restricted command must be one executable name without whitespace"),
            );
        }
        let mut list: Vec<String> = Vec::new();
        assert(views(list@) =~= Seq::<Seq<char>>::empty());
        if let Some(v) = args.get("args") {
            if let Some(items) = v.as_array() {
                match string_args(items) {
                    Some(l) => {
                        list = l;
                    },
                    None => {
                        return Err(owned("every restricted command argument must be a string"));
                    },
                }
            }
        }
        Ok(ShellCommand { program: owned(command), args: list, cwd: copy_text(&self.cwd) })
    }

    /// How many bytes of each output are kept.
    pub fn output_limit(&self) -> (r: u64)
        ensures
            r == self@.max_output_bytes,
    {
        self.max_output_bytes
    }

    /// How many seconds a command may run.
    pub fn timeout_s(&self) -> (r: u64)
        ensures
            r == self@.timeout_s,
    {
        self.timeout_s
    }

    /// What a command that ran too long is answered with.
    pub fn timed_out(&self, command: &str) -> (r: String)
        ensures
            r@ == "command `"@ + command@ + "` timed out after "@ + decimal(
                self@.timeout_s as nat,
            ) + "s (process killed)"@,
    {
        crate::text::cat5(
            "command `",
            command,
            "` timed out after ",
            to_decimal(self.timeout_s).as_str(),
            "s (process killed)",
        )
    }

    /// How the tool is advertised.
    pub fn schema(&self) -> (r: ToolSchema)
        ensures
            r@ == shell_schema(self@.full_access),
    {
        let description = if self.full_access {
            "Run a command through the operator-granted full shell."
        } else {
            "Run one operator-allowlisted executable directly. Shell syntax, chaining, pipes, redirection, expansion, and globbing are unavailable."
        };
        let items = Members::new().with("type", Data::string("string")).object();
        let list = Members::new().with("type", Data::string("array")).with("items", items).with(
            "description",
            Data::string("Arguments for restricted mode; ignored in full mode."),
        ).object();
        let properties = Members::new().with(
            "command",
            Members::new().with("type", Data::string("string")).object(),
        ).with("args", list);
        ToolSchema::new("shell", description, object_schema(properties, &one("command")))
    }
}

/// How the shell tool is advertised.
pub open spec fn shell_schema(full_access: bool) -> Schema {
    Schema {
        name: "shell"@,
        description: if full_access {
            "Run a command through the operator-granted full shell."@
        } else {
            "Run one operator-allowlisted executable directly. Shell syntax, chaining, pipes, redirection, expansion, and globbing are unavailable."@
        },
        parameters: arguments(
            no_fields().push(
                field(
                    "command"@,
                    Json::Object(no_fields().push(field("type"@, Json::Str("string"@)))),
                ),
            ).push(
                field(
                    "args"@,
                    Json::Object(
                        no_fields().push(field("type"@, Json::Str("array"@))).push(
                            field(
                                "items"@,
                                Json::Object(
                                    no_fields().push(field("type"@, Json::Str("string"@))),
                                ),
                            ),
                        ).push(
                            field(
                                "description"@,
                                Json::Str(
                                    "Arguments for restricted mode; ignored in full mode."@,
                                ),
                            ),
                        ),
                    ),
                ),
            ),
            seq!["command"@],
        ),
    }
}

/// Without full access nothing runs but a listed command, by itself: it is the
/// program that is started, its name holds no white space, and nothing is
/// handed to a shell.
pub proof fn law_restricted_commands_are_listed(s: ShellScope, args: Json)
    requires
        !s.full_access,
    ensures
        start_of(s, args) matches Ok(start) ==> {
            &&& s.allowed.contains(start.program)
            &&& args.get_str("command"@) == Some(start.program)
            &&& forall|i: int|
                0 <= i < start.program.len() ==> !is_space(#[trigger] start.program[i])
        },
{
}

/// A grant is either full access or a list of commands, never both and never
/// neither; and a command always has time to run.
pub proof fn law_grants_are_full_or_listed(config: Json)
    ensures
        shell_scope(config) matches Ok(s) ==> {
            &&& s.full_access <==> s.allowed == Set::<Seq<char>>::empty()
            &&& s.timeout_s > 0
        },
{
    if let Ok(s) = shell_scope(config) {
        let listed = config.get_strings("allow_commands"@);
        if listed.len() > 0 {
            assert(listed.contains(listed[0]));
            assert(s.allowed.contains(listed[0]));
        } else {
            assert(listed.to_set() =~= Set::<Seq<char>>::empty());
        }
        if let Some(n) = config.get_u64("timeout_s"@) {
        }
    }
}

// ----- what is kept of the output -----
/// What was kept of an output so far.
pub struct Kept {
    pub bytes: Seq<u8>,
    pub truncated: bool,
}

/// What is kept of an output when all of it has come.
pub open spec fn kept_of(output: Seq<u8>, limit: nat) -> Kept {
    if output.len() <= limit {
        Kept { bytes: output, truncated: false }
    } else {
        Kept { bytes: output.take(limit as int), truncated: true }
    }
}

/// An output being read: at most `limit` bytes of it are kept, and the rest is
/// drained.
#[derive(Debug)]
pub struct Capture {
    captured: Vec<u8>,
    truncated: bool,
    limit: u64,
}

impl Capture {
    #[verifier::type_invariant]
    spec fn bounded(self) -> bool {
        &&& self.captured@.len() <= self.limit
        &&& self.truncated ==> self.captured@.len() == self.limit
    }

    pub closed spec fn limit(&self) -> nat {
        self.limit as nat
    }

    pub closed spec fn kept(&self) -> Kept {
        Kept { bytes: self.captured@, truncated: self.truncated }
    }

    pub fn new(limit: u64) -> (r: Capture)
        ensures
            r.limit() == limit,
            r.kept() == kept_of(Seq::empty(), limit as nat),
    {
        Capture { captured: Vec::new(), truncated: false, limit }
    }

    /// Takes in the next bytes: whatever came before, what is kept is what is
    /// kept of all of it and these.
    pub fn take(&mut self, chunk: &Vec<u8>)
        ensures
            final(self).limit() == old(self).limit(),
            forall|before: Seq<u8>|
                old(self).kept() == kept_of(before, old(self).limit()) ==> final(self).kept()
                    == #[trigger] kept_of(before + chunk@, old(self).limit()),
    {
        proof {
            use_type_invariant(&*self);
        }
        let remaining: u64 = self.limit - self.captured.len() as u64;
        let ghost was = *self;
        let mut whole = Capture { captured: Vec::new(), truncated: false, limit: self.limit };
        std::mem::swap(&mut whole, self);
        let Capture { captured: mut kept, truncated: already, limit } = whole;
        let ghost held = kept@;
        let n: usize = if chunk.len() as u64 > remaining {
            remaining as usize
        } else {
            chunk.len()
        };
        let mut i: usize = 0;
        while i < n
            invariant
                i <= n <= chunk@.len(),
                kept@ == held + chunk@.take(i as int),
            decreases n - i,
        {
            kept.push(chunk[i]);
            i = i + 1;
            assert(kept@ =~= held + chunk@.take(i as int));
        }
        let truncated = already || chunk.len() as u64 > remaining;
        *self = Capture { captured: kept, truncated, limit };
        proof {
            let limit = was.limit();
            assert(was.kept() == (Kept { bytes: held, truncated: already }));
            assert forall|before: Seq<u8>| was.kept() == kept_of(before, limit) implies self.kept()
                == #[trigger] kept_of(before + chunk@, limit) by {
                let all = before + chunk@;
                if all.len() <= limit {
                    assert(before.len() <= limit);
                    assert(chunk@.take(chunk@.len() as int) =~= chunk@);
                    assert(self.captured@ =~= all);
                } else {
                    assert(self.captured@ =~= all.take(limit as int));
                }
            }
        }
    }

    /// The bytes that were kept.
    pub fn bytes(&self) -> (r: &Vec<u8>)
        ensures
            r@ == self.kept().bytes,
    {
        &self.captured
    }

    /// Whether any were not.
    pub fn is_truncated(&self) -> (r: bool)
        ensures
            r == self.kept().truncated,
    {
        self.truncated
    }
}

/// What is kept of an output is a prefix of it, never longer than the limit; it
/// is all of it unless it is marked as truncated.
pub proof fn law_kept_is_a_bounded_prefix(output: Seq<u8>, limit: nat)
    ensures
        kept_of(output, limit).bytes.is_prefix_of(output),
        kept_of(output, limit).bytes.len() <= limit,
        kept_of(output, limit).truncated <==> kept_of(output, limit).bytes != output,
{
    if output.len() > limit {
        assert(kept_of(output, limit).bytes.len() != output.len());
    }
}

// ----- the answer -----
/// How a command ended.
#[derive(Clone, Copy, Debug)]
pub struct ExitStatus {
    pub success: bool,
    pub code: Option<i32>,
}

/// The answer of the shell tool.
pub open spec fn ran(success: bool, code: Option<i32>, stdout: Kept, stderr: Kept) -> Json {
    Json::Object(
        no_fields().push(field("success"@, Json::Bool(success))).push(
            field(
                "exit_code"@,
                match code {
                    Some(n) => Json::Int(n as int),
                    None => Json::Null,
                },
            ),
        ).push(field("stdout"@, Json::Str(lossy_text(stdout.bytes)))).push(
            field("stderr"@, Json::Str(lossy_text(stderr.bytes))),
        ).push(field("truncated"@, Json::Bool(stdout.truncated || stderr.truncated))),
    )
}

/// The answer of the shell tool once a command has ended.
pub fn shell_report(status: ExitStatus, stdout: &Capture, stderr: &Capture) -> (r: Data)
    ensures
        r@ == ran(status.success, status.code, stdout.kept(), stderr.kept()),
{
    let code = match status.code {
        Some(n) => Data::Int(n as i128),
        None => Data::Null,
    };
    Members::new().with("success", Data::boolean(status.success)).with("exit_code", code).with(
        "stdout",
        Data::Str(lossy(stdout.bytes())),
    ).with("stderr", Data::Str(lossy(stderr.bytes()))).with(
        "truncated",
        Data::boolean(stdout.is_truncated() || stderr.is_truncated()),
    ).object()
}

/// How running a command came to an end.
#[derive(Debug)]
pub enum ShellEnd {
    NotStarted,
    TimedOut,
    /// Its output or its status could not be had.
    Lost(String),
    Exited { status: ExitStatus, stdout: Capture, stderr: Capture },
}

/// What the tool gives back for the end of a command.
pub open spec fn end_result(s: ShellScope, command: Seq<char>, end: ShellEnd) -> Result<
    Json,
    Seq<char>,
> {
    match end {
        ShellEnd::NotStarted => Err("executing `"@ + command + "`"@),
        ShellEnd::TimedOut => Err(
            "command `"@ + command + "` timed out after "@ + decimal(s.timeout_s as nat)
                + "s (process killed)"@,
        ),
        ShellEnd::Lost(e) => Err(e@),
        ShellEnd::Exited { status, stdout, stderr } => Ok(
            ran(status.success, status.code, stdout.kept(), stderr.kept()),
        ),
    }
}

impl Shell {
    /// What the tool gives back for the end of a command. One that fails is
    /// reported and is no error of the tool.
    pub fn finish(&self, command: &str, end: ShellEnd) -> (r: Result<Data, String>)
        ensures
            match r {
                Ok(d) => end_result(self@, command@, end) == Ok::<Json, Seq<char>>(d@),
                Err(e) => end_result(self@, command@, end) == Err::<Json, Seq<char>>(e@),
            },
    {
        match end {
            ShellEnd::NotStarted => Err(cat3("executing `", command, "`")),
            ShellEnd::TimedOut => Err(self.timed_out(command)),
            ShellEnd::Lost(e) => Err(e),
            ShellEnd::Exited { status, stdout, stderr } => Ok(
                shell_report(status, &stdout, &stderr),
            ),
        }
    }
}

/// The report of a command that ended tells whether it succeeded and its exit
/// code; what was kept of its standard output as `stdout` and of its standard
/// error as `stderr`, each by itself; and whether anything of either was left
/// out.
pub proof fn law_reports_keep_the_outputs_apart(
    success: bool,
    code: Option<i32>,
    stdout: Kept,
    stderr: Kept,
)
    ensures
        ({
            let r = ran(success, code, stdout, stderr);
            &&& r.get_bool("success"@) == Some(success)
            &&& code is Some ==> r.get("exit_code"@) == Some(Json::Int(code->0 as int))
            &&& code is None ==> r.get("exit_code"@) == Some(Json::Null)
            &&& r.get_str("stdout"@) == Some(lossy_text(stdout.bytes))
            &&& r.get_str("stderr"@) == Some(lossy_text(stderr.bytes))
            &&& r.get_bool("truncated"@) == Some(stdout.truncated || stderr.truncated)
        }),
{
    reveal_strlit("success");
    reveal_strlit("exit_code");
    reveal_strlit("stdout");
    reveal_strlit("stderr");
    reveal_strlit("truncated");
    assert("success"@.len() == 7);
    assert("exit_code"@.len() == 9);
    assert("stdout"@.len() == 6);
    assert("stderr"@.len() == 6);
    assert("truncated"@.len() == 9);
    assert("exit_code"@[0] != "truncated"@[0]);
    assert("stdout"@[3] != "stderr"@[3]);
    let fs = ran(success, code, stdout, stderr)->Object_0;
    assert(fs[0].key == "success"@);
    assert(fs[1].key == "exit_code"@);
    assert(fs[2].key == "stdout"@);
    assert(fs[3].key == "stderr"@);
    assert(fs[4].key == "truncated"@);
    law_the_first_member_of_a_name_counts(fs, 0);
    law_the_first_member_of_a_name_counts(fs, 1);
    law_the_first_member_of_a_name_counts(fs, 2);
    law_the_first_member_of_a_name_counts(fs, 3);
    law_the_first_member_of_a_name_counts(fs, 4);
}

/// What the tool gives back for a command is the report of its end, where it
/// ended by itself, whether it succeeded or not; one that could not be started,
/// that was stopped, or that was lost is an error that says so.
pub proof fn law_ends_are_reported(s: ShellScope, command: Seq<char>, end: ShellEnd)
    ensures
        match end {
            ShellEnd::Exited { status, stdout, stderr } => end_result(s, command, end) matches Ok(
                r,
            ) && {
                &&& r.get_bool("success"@) == Some(status.success)
                &&& status.code is Some ==> r.get("exit_code"@) == Some(
                    Json::Int(status.code->0 as int),
                )
                &&& r.get_str("stdout"@) == Some(lossy_text(stdout.kept().bytes))
                &&& r.get_str("stderr"@) == Some(lossy_text(stderr.kept().bytes))
                &&& r.get_bool("truncated"@) == Some(
                    stdout.kept().truncated || stderr.kept().truncated,
                )
            },
            ShellEnd::NotStarted => end_result(s, command, end) == Err::<Json, Seq<char>>(
                "executing `"@ + command + "`"@,
            ),
            ShellEnd::TimedOut => end_result(s, command, end) is Err,
            ShellEnd::Lost(why) => end_result(s, command, end) == Err::<Json, Seq<char>>(why@),
        },
{
    if let ShellEnd::Exited { status, stdout, stderr } = end {
        law_reports_keep_the_outputs_apart(
            status.success,
            status.code,
            stdout.kept(),
            stderr.kept(),
        );
    }
}

/// A command is started as it was asked for: with full access, the granted shell
/// is handed the whole command and nothing else; without it, the command itself
/// is the program, with the arguments that were given, in their order and
/// unchanged. Either way it runs in the granted directory.
pub proof fn law_commands_are_started_as_asked(s: ShellScope, args: Json)
    ensures
        start_of(s, args) matches Ok(start) ==> {
            &&& start.cwd == s.cwd
            &&& s.full_access ==> {
                &&& start.program == s.shell
                &&& start.args.len() == 2
                &&& start.args[0] == "-lc"@
                &&& args.get_str("command"@) == Some(start.args[1])
            }
            &&& !s.full_access ==> {
                &&& args.get_str("command"@) == Some(start.program)
                &&& args.get("args"@) matches Some(Json::Array(items)) ==> {
                    &&& start.args.len() == items.len()
                    &&& forall|i: int|
                        0 <= i < items.len() ==> #[trigger] items[i] == Json::Str(start.args[i])
                }
                &&& !(args.get("args"@) matches Some(Json::Array(_))) ==> start.args.len() == 0
            }
        },
        s.full_access && args.get_str("command"@) is Some ==> start_of(s, args) is Ok,
        args.get_str("command"@) is None ==> start_of(s, args) is Err,
{
    if let Ok(start) = start_of(s, args) {
        if !s.full_access {
            if let Some(Json::Array(items)) = args.get("args"@) {
                assert forall|i: int| 0 <= i < items.len() implies #[trigger] items[i] == Json::Str(
                    start.args[i],
                ) by {
                    assert(items[i].str() is Some);
                }
            }
        }
    }
}

/// A listed command without white space in its name runs with any arguments that
/// are texts, or with none.
pub proof fn law_listed_commands_run(s: ShellScope, args: Json, command: Seq<char>)
    requires
        args.get_str("command"@) == Some(command),
        s.allowed.contains(command),
        forall|i: int| 0 <= i < command.len() ==> !is_space(#[trigger] command[i]),
        args.get("args"@) matches Some(Json::Array(items)) ==> forall|i: int|
            0 <= i < items.len() ==> (#[trigger] items[i]) is Str,
    ensures
        start_of(s, args) is Ok,
{
    if let Some(Json::Array(items)) = args.get("args"@) {
        assert(all_strings(items));
    }
}

/// A grant holds what its configuration says: full access where that is set, the
/// commands that are listed and no others, the directory, the shell, the output
/// that is kept and the time that is given; each as configured, or the default
/// where nothing is said of it.
pub proof fn law_shells_are_as_configured(config: Json, command: Seq<char>)
    ensures
        shell_scope(config) matches Ok(s) ==> {
            &&& s.full_access <==> config.get_bool("full_access"@) == Some(true)
            &&& s.allowed.contains(command) <==> config.get_strings("allow_commands"@).contains(
                command,
            )
            &&& s.cwd == config.get_str("cwd"@)
            &&& config.get_str("shell"@) is Some ==> s.shell == config.get_str("shell"@)->0
            &&& config.get_str("shell"@) is None ==> s.shell == "/bin/sh"@
            &&& config.get_u64("max_output_bytes"@) is Some ==> s.max_output_bytes
                == config.get_u64("max_output_bytes"@)->0
            &&& config.get_u64("max_output_bytes"@) is None ==> s.max_output_bytes == 1_000_000
            &&& (config.get_u64("timeout_s"@) matches Some(n) && n > 0) ==> s.timeout_s
                == config.get_u64("timeout_s"@)->0
            &&& !(config.get_u64("timeout_s"@) matches Some(n) && n > 0) ==> s.timeout_s == 300
        },
        shell_scope(config) is Ok <==> (config.get_bool("full_access"@) == Some(true)) != (
        config.get_strings("allow_commands"@).len() > 0),
{
}

/// What is kept of an output that fits is all of it, and of one that does not is
/// as much of its beginning as may be kept.
pub proof fn law_as_much_is_kept_as_may_be(output: Seq<u8>, limit: nat)
    ensures
        output.len() <= limit ==> kept_of(output, limit).bytes == output && !kept_of(
            output,
            limit,
        ).truncated,
        output.len() > limit ==> kept_of(output, limit).bytes.len() == limit && kept_of(
            output,
            limit,
        ).truncated && kept_of(output, limit).bytes.is_prefix_of(output),
{
}

} // verus!
