//! The runtime adapter: builds the command lines for the OCI runtime binary,
//! rewrites the generated runtime spec, and reads the runtime's state
//! output. The surrounding program spawns the processes and hands back what
//! they produced.

use vstd::prelude::*;
use vstd::string::StringExecFns;

use crate::container::{spec_status_of_runc, RuncStatus, Status, ID};
use crate::text::{append_str, chars_of_str, string_from_chars, string_of};

verus! {

/// The subcommands of the runtime binary.
#[derive(Clone, Copy, Debug, PartialEq, Eq, Structural)]
pub enum RuncMethod {
    Spec,
    Create,
    Start,
    Kill,
    Delete,
    State,
}

/// The subcommand word each method stands for.
pub open spec fn spec_method_word(m: RuncMethod) -> Seq<char> {
    match m {
        RuncMethod::Spec => "spec"@,
        RuncMethod::Create => "create"@,
        RuncMethod::Start => "start"@,
        RuncMethod::Kill => "kill"@,
        RuncMethod::Delete => "delete"@,
        RuncMethod::State => "state"@,
    }
}

impl RuncMethod {
    /// The subcommand word, as an owned string.
    pub fn to_string(&self) -> (r: String)
        ensures
            r@ == spec_method_word(*self),
    {
        match self {
            RuncMethod::Spec => string_of("spec"),
            RuncMethod::Create => string_of("create"),
            RuncMethod::Start => string_of("start"),
            RuncMethod::Kill => string_of("kill"),
            RuncMethod::Delete => string_of("delete"),
            RuncMethod::State => string_of("state"),
        }
    }
}

/// What the runtime spec generation needs.
#[derive(Debug)]
pub struct RuntimeSpecOptions {
    pub bundle_path: String,
    pub command: String,
    pub args: Vec<String>,
}

impl RuntimeSpecOptions {
    pub fn new(bundle_path: String, command: String, args: Vec<String>) -> (r: RuntimeSpecOptions)
        ensures
            r.bundle_path@ == bundle_path@,
            r.command@ == command@,
            r.args.deep_view() == args.deep_view(),
    {
        RuntimeSpecOptions { bundle_path, command, args }
    }
}

/// What the runtime create invocation needs.
#[derive(Debug)]
pub struct RuntimeCreateOptions {
    pub bundle_path: String,
    pub container_pidfile: String,
    pub container_id: String,
}

impl RuntimeCreateOptions {
    pub fn new(bundle_path: String, container_pidfile: String, container_id: String) -> (r:
        RuntimeCreateOptions)
        ensures
            r.bundle_path@ == bundle_path@,
            r.container_pidfile@ == container_pidfile@,
            r.container_id@ == container_id@,
    {
        RuntimeCreateOptions { bundle_path, container_pidfile, container_id }
    }
}

/// Errors of the runtime adapter.
#[derive(Debug)]
pub enum ContainerRuntimeError {
    /// The runtime binary could not be spawned or its output not collected.
    RuncError { method: RuncMethod, container_id: ID, message: String },
    /// The state output was not valid text.
    ConvertContainerStatusError { container_id: ID },
    /// The state output was not a JSON object with a string `status` member.
    ParseContainerStatusError { container_id: ID },
    /// The runtime does not know the container.
    ContainerNotFoundError { container_id: ID },
}

impl ContainerRuntimeError {
    /// The human-readable message for this error.
    pub open spec fn spec_describe(&self) -> Seq<char> {
        match self {
            ContainerRuntimeError::RuncError { method, container_id, .. } => {
                if method == RuncMethod::Spec || method == RuncMethod::Create {
                    "failed to execute runc "@ + spec_method_word(*method)
                } else {
                    "failed to execute runc "@ + spec_method_word(*method)
                        + " for container_id "@ + container_id@
                }
            },
            ContainerRuntimeError::ConvertContainerStatusError { container_id } => {
                "container status was not valid text for container_id "@ + container_id@
            },
            ContainerRuntimeError::ParseContainerStatusError { container_id } => {
                "failed to parse container status for container_id "@ + container_id@
            },
            ContainerRuntimeError::ContainerNotFoundError { container_id } => {
                "container with container_id "@ + container_id@ + " not found"@
            },
        }
    }

    /// Renders the human-readable message.
    pub fn describe(&self) -> (r: String)
        ensures
            r@ == self.spec_describe(),
    {
        match self {
            ContainerRuntimeError::RuncError { method, container_id, .. } => {
                let mut r = string_of("failed to execute runc ");
                let word = method.to_string();
                r.append(word.as_str());
                if !(*method == RuncMethod::Spec || *method == RuncMethod::Create) {
                    r.append(" for container_id ");
                    r.append(container_id.as_str());
                }
                r
            },
            ContainerRuntimeError::ConvertContainerStatusError { container_id } => {
                let mut r = string_of("container status was not valid text for container_id ");
                r.append(container_id.as_str());
                r
            },
            ContainerRuntimeError::ParseContainerStatusError { container_id } => {
                let mut r = string_of("failed to parse container status for container_id ");
                r.append(container_id.as_str());
                r
            },
            ContainerRuntimeError::ContainerNotFoundError { container_id } => {
                let mut r = string_of("container with container_id ");
                r.append(container_id.as_str());
                r.append(" not found");
                r
            },
        }
    }
}

/// What came back from running the runtime's state query: its standard
/// output decoded as text, a marker that the output was not valid text, or
/// the reason the process could not be run.
pub enum RuntimeStateOutcome {
    Output(String),
    InvalidUtf8,
    SpawnFailed(String),
}

/// The `status` member of a JSON document: present exactly when the document
/// is valid JSON carrying a string member named `status`. A function of the
/// text alone.
pub uninterp spec fn json_status_field(s: Seq<char>) -> Option<Seq<char>>;

/// Relies on `serde_json::from_str::<Value>`, `Value::get` and
/// `Value::as_str`: returns the string `status` member of the JSON document,
/// or nothing when the document does not parse, has no such member, or the
/// member is not a string. All three are deterministic in the text alone.
#[verifier::external_body]
fn extract_status_field(s: &str) -> (r: Option<String>)
    ensures
        r is Some <==> json_status_field(s@) is Some,
        r matches Some(t) ==> json_status_field(s@) == Some(t@),
{
    match serde_json::from_str::<serde_json::Value>(s) {
        Ok(doc) => match doc.get("status") {
            Some(member) => member.as_str().map(|st| st.to_owned()),
            None => None,
        },
        Err(_) => None,
    }
}

// ---------------------------------------------------------------------------
// Textual substitution in the generated runtime spec
// ---------------------------------------------------------------------------
/// The first position at or after `k` where `pat` occurs in `s`.
pub open spec fn find_from(s: Seq<char>, pat: Seq<char>, k: int) -> Option<int>
    decreases s.len() - k,
{
    if k < 0 || k + pat.len() > s.len() {
        None
    } else if s.subrange(k, k + pat.len()) == pat {
        Some(k)
    } else {
        proof {
            if pat.len() == 0 {
                assert(s.subrange(k, k + pat.len()) =~= pat);
            }
        }
        find_from(s, pat, k + 1)
    }
}

/// `s` with the first occurrence of `pat` replaced by `rep`; `s` itself when
/// `pat` does not occur.
pub open spec fn replace_first(s: Seq<char>, pat: Seq<char>, rep: Seq<char>) -> Seq<char> {
    match find_from(s, pat, 0) {
        Some(k) => s.take(k) + rep + s.skip(k + pat.len()),
        None => s,
    }
}

/// Finds the first occurrence of `pat` at or after `k`, mirroring `find_from`.
fn find_from_exec(s: &Vec<char>, pat: &str, k: usize) -> (r: Option<usize>)
    requires
        k <= s@.len(),
        pat@.len() >= 1,
    ensures
        match find_from(s@, pat@, k as int) {
            Some(j) => r matches Some(m) && m == j && j + pat@.len() <= s@.len() && k <= j,
            None => r is None,
        },
{
    let mut m: usize = k;
    loop
        invariant
            k <= m <= s@.len(),
            pat@.len() >= 1,
            find_from(s@, pat@, k as int) == find_from(s@, pat@, m as int),
        decreases s@.len() - m,
    {
        match crate::codec::parse_lit_exec(s, m, pat) {
            Some(_) => {
                proof {
                    assert(s@.subrange(m as int, m as int + pat@.len()) == pat@);
                }
                return Some(m);
            },
            None => {
                proof {
                    if m as int + pat@.len() <= s@.len() {
                        assert(s@.subrange(m as int, m as int + pat@.len()) != pat@);
                    }
                }
            },
        }
        if m >= s.len() {
            proof {
                assert(m == s@.len());
                assert(m as int + pat@.len() > s@.len());
                assert(find_from(s@, pat@, m as int) is None);
            }
            return None;
        }
        m += 1;
    }
}

/// Replaces the first occurrence of `pat` by `rep`, mirroring `replace_first`.
fn replace_first_exec(s: &Vec<char>, pat: &str, rep: &Vec<char>) -> (r: Vec<char>)
    requires
        pat@.len() >= 1,
    ensures
        r@ == replace_first(s@, pat@, rep@),
{
    match find_from_exec(s, pat, 0) {
        Some(k) => {
            let mut out: Vec<char> = Vec::new();
            let mut i: usize = 0;
            while i < k
                invariant
                    i <= k <= s@.len(),
                    out@ == s@.take(i as int),
                decreases k - i,
            {
                out.push(s[i]);
                proof {
                    assert(out@ =~= s@.take(i as int + 1));
                }
                i += 1;
            }
            let mut j: usize = 0;
            while j < rep.len()
                invariant
                    j <= rep@.len(),
                    out@ == s@.take(k as int) + rep@.take(j as int),
                decreases rep@.len() - j,
            {
                out.push(rep[j]);
                proof {
                    assert(out@ =~= s@.take(k as int) + rep@.take(j as int + 1));
                }
                j += 1;
            }
            let pat_len = chars_of_str(pat).len();
            let n = s.len();
            proof {
                assert(k + pat_len <= n);
            }
            let mut m: usize = k + pat_len;
            proof {
                assert(rep@.take(rep@.len() as int) =~= rep@);
                assert(out@ + s@.skip(k as int + pat@.len()).take(0) =~= out@);
            }
            let ghost base = out@;
            let ghost m0 = m;
            while m < s.len()
                invariant
                    m0 <= m <= s@.len(),
                    m0 == k + pat@.len(),
                    out@ == base + s@.skip(m0 as int).take(m - m0),
                    base == s@.take(k as int) + rep@,
                decreases s@.len() - m,
            {
                out.push(s[m]);
                proof {
                    assert(out@ =~= base + s@.skip(m0 as int).take(m - m0 + 1));
                }
                m += 1;
            }
            proof {
                assert(s@.skip(m0 as int).take(s@.len() - m0 as int) =~= s@.skip(m0 as int));
                assert(out@ =~= s@.take(k as int) + rep@ + s@.skip(k as int + pat@.len()));
            }
            out
        },
        None => {
            let mut out: Vec<char> = Vec::new();
            let mut i: usize = 0;
            while i < s.len()
                invariant
                    i <= s@.len(),
                    out@ == s@.take(i as int),
                decreases s@.len() - i,
            {
                out.push(s[i]);
                proof {
                    assert(out@ =~= s@.take(i as int + 1));
                }
                i += 1;
            }
            proof {
                assert(s@.take(s@.len() as int) =~= s@);
            }
            out
        },
    }
}

/// The quoted list that replaces the generated spec's default command:
/// `"command"` followed by `, "arg"` for each argument.
pub open spec fn args_snippet_rest(args: Seq<Seq<char>>) -> Seq<char>
    decreases args.len(),
{
    if args.len() == 0 {
        Seq::empty()
    } else {
        ", \""@ + args[0] + "\""@ + args_snippet_rest(args.skip(1))
    }
}

/// The full replacement list for the default command token.
pub open spec fn args_snippet(command: Seq<char>, args: Seq<Seq<char>>) -> Seq<char> {
    "\""@ + command + "\""@ + args_snippet_rest(args)
}

/// The generated spec text after both rewrites: the default `"sh"` command
/// replaced by the caller's command and arguments, and the terminal setting
/// turned off.
pub open spec fn spec_rewritten_config(
    config: Seq<char>,
    command: Seq<char>,
    args: Seq<Seq<char>>,
) -> Seq<char> {
    replace_first(
        replace_first(config, "\"sh\""@, args_snippet(command, args)),
        "\"terminal\": true"@,
        "\"terminal\": false"@,
    )
}

/// Builds the replacement list for the default command token.
fn args_snippet_exec(command: &str, args: &Vec<String>) -> (r: Vec<char>)
    ensures
        r@ == args_snippet(command@, args.deep_view()),
{
    let mut out: Vec<char> = Vec::new();
    append_str(&mut out, "\"");
    append_str(&mut out, command);
    append_str(&mut out, "\"");
    let mut i: usize = 0;
    proof {
        assert(args.deep_view().skip(0) =~= args.deep_view());
        assert(out@ + args_snippet_rest(args.deep_view().skip(0)) =~= args_snippet(
            command@,
            args.deep_view(),
        ) ==> out@ + args_snippet_rest(args.deep_view().skip(0)) == args_snippet(
            command@,
            args.deep_view(),
        ));
        assert(out@ =~= "\""@ + command@ + "\""@);
    }
    while i < args.len()
        invariant
            i <= args@.len(),
            out@ + args_snippet_rest(args.deep_view().skip(i as int)) == args_snippet(
                command@,
                args.deep_view(),
            ),
        decreases args@.len() - i,
    {
        let ghost pre = out@;
        let ghost a = args.deep_view().skip(i as int);
        proof {
            assert(a[0] == args.deep_view()[i as int]);
            assert(args.deep_view()[i as int] == args@[i as int]@);
            assert(a.skip(1) =~= args.deep_view().skip(i as int + 1));
        }
        append_str(&mut out, ", \"");
        append_str(&mut out, args[i].as_str());
        append_str(&mut out, "\"");
        proof {
            assert(out@ =~= pre + (", \""@ + a[0] + "\""@));
            assert(args_snippet_rest(a) == ", \""@ + a[0] + "\""@ + args_snippet_rest(a.skip(1)));
            assert(out@ + args_snippet_rest(args.deep_view().skip(i as int + 1)) =~= pre
                + args_snippet_rest(a));
        }
        i += 1;
    }
    proof {
        assert(args.deep_view().skip(args@.len() as int) =~= Seq::<Seq<char>>::empty());
        assert(args_snippet_rest(Seq::<Seq<char>>::empty()) =~= Seq::<char>::empty());
        assert(out@ + args_snippet_rest(args.deep_view().skip(args@.len() as int)) =~= out@);
    }
    out
}

/// The two command-line words and the config path that the spec generation
/// step needs.
#[derive(Debug)]
pub struct RuntimeSpecRequest {
    pub spec_argv: Vec<String>,
    pub config_path: String,
}

/// The adapter for the runtime binary, configured with its path.
#[derive(Debug)]
pub struct ContainerRuntime {
    runtime_path: String,
}

impl ContainerRuntime {
    /// The configured path of the runtime binary.
    pub closed spec fn spec_path(&self) -> Seq<char> {
        self.runtime_path@
    }

    pub fn new(runtime_path: String) -> (r: ContainerRuntime)
        ensures
            r.spec_path() == runtime_path@,
    {
        ContainerRuntime { runtime_path }
    }

    /// The command line that generates a default runtime spec in the bundle,
    /// and the path of the config file it writes.
    pub fn new_runtime_spec(&self, opts: &RuntimeSpecOptions) -> (r: RuntimeSpecRequest)
        ensures
            r.spec_argv.deep_view() == seq![
                self.spec_path(),
                "spec"@,
                "--bundle"@,
                opts.bundle_path@,
            ],
            r.config_path@ == opts.bundle_path@ + "/config.json"@,
    {
        let mut argv: Vec<String> = Vec::new();
        argv.push(self.runtime_path.clone());
        argv.push(RuncMethod::Spec.to_string());
        argv.push(string_of("--bundle"));
        argv.push(opts.bundle_path.clone());
        let config_path = opts.bundle_path.clone().concat("/config.json");
        proof {
            assert(argv.deep_view() =~= seq![
                self.spec_path(),
                "spec"@,
                "--bundle"@,
                opts.bundle_path@,
            ]);
        }
        RuntimeSpecRequest { spec_argv: argv, config_path }
    }

    /// The generated config rewritten for the caller's command and arguments,
    /// with the terminal setting turned off. The rewrites are textual, against
    /// the literal tokens the default spec contains.
    pub fn rewrite_spec_config(opts: &RuntimeSpecOptions, config: &str) -> (r: String)
        ensures
            r@ == spec_rewritten_config(config@, opts.command@, opts.args.deep_view()),
    {
        proof {
            reveal_strlit("\"sh\"");
            reveal_strlit("\"terminal\": true");
        }
        let cv = chars_of_str(config);
        let snippet = args_snippet_exec(opts.command.as_str(), &opts.args);
        let pass1 = replace_first_exec(&cv, "\"sh\"", &snippet);
        let terminal_off = chars_of_str("\"terminal\": false");
        let pass2 = replace_first_exec(&pass1, "\"terminal\": true", &terminal_off);
        string_from_chars(&pass2)
    }

    /// The command line that creates the container from its bundle; the
    /// caller spawns it without waiting.
    pub fn create_container(&self, opts: &RuntimeCreateOptions) -> (r: Vec<String>)
        ensures
            r.deep_view() == seq![
                self.spec_path(),
                "create"@,
                "--bundle"@,
                opts.bundle_path@,
                "--pid-file"@,
                opts.bundle_path@ + "/"@ + opts.container_pidfile@,
                opts.container_id@,
            ],
    {
        let mut pidfile = opts.bundle_path.clone();
        pidfile.append("/");
        pidfile.append(opts.container_pidfile.as_str());
        let mut argv: Vec<String> = Vec::new();
        argv.push(self.runtime_path.clone());
        argv.push(RuncMethod::Create.to_string());
        argv.push(string_of("--bundle"));
        argv.push(opts.bundle_path.clone());
        argv.push(string_of("--pid-file"));
        argv.push(pidfile);
        argv.push(opts.container_id.clone());
        proof {
            assert(argv.deep_view() =~= seq![
                self.spec_path(),
                "create"@,
                "--bundle"@,
                opts.bundle_path@,
                "--pid-file"@,
                opts.bundle_path@ + "/"@ + opts.container_pidfile@,
                opts.container_id@,
            ]);
        }
        argv
    }

    /// The command line that starts the container; spawned without waiting.
    pub fn start_container(&self, container_id: &ID) -> (r: Vec<String>)
        ensures
            r.deep_view() == seq![self.spec_path(), "start"@, container_id@],
    {
        let mut argv: Vec<String> = Vec::new();
        argv.push(self.runtime_path.clone());
        argv.push(RuncMethod::Start.to_string());
        argv.push(container_id.clone());
        proof {
            assert(argv.deep_view() =~= seq![self.spec_path(), "start"@, container_id@]);
        }
        argv
    }

    /// The command line that kills the container with SIGKILL; waited on.
    pub fn kill_container(&self, container_id: &ID) -> (r: Vec<String>)
        ensures
            r.deep_view() == seq![self.spec_path(), "kill"@, container_id@, "9"@],
    {
        let mut argv: Vec<String> = Vec::new();
        argv.push(self.runtime_path.clone());
        argv.push(RuncMethod::Kill.to_string());
        argv.push(container_id.clone());
        argv.push(string_of("9"));
        proof {
            assert(argv.deep_view() =~= seq![self.spec_path(), "kill"@, container_id@, "9"@]);
        }
        argv
    }

    /// The command line that deletes the container in the runtime; waited on.
    pub fn delete_container(&self, container_id: &ID) -> (r: Vec<String>)
        ensures
            r.deep_view() == seq![self.spec_path(), "delete"@, container_id@],
    {
        let mut argv: Vec<String> = Vec::new();
        argv.push(self.runtime_path.clone());
        argv.push(RuncMethod::Delete.to_string());
        argv.push(container_id.clone());
        proof {
            assert(argv.deep_view() =~= seq![self.spec_path(), "delete"@, container_id@]);
        }
        argv
    }

    /// The command line that queries the container's state; its collected
    /// standard output goes back into `get_container_status`.
    pub fn state_query(&self, container_id: &ID) -> (r: Vec<String>)
        ensures
            r.deep_view() == seq![self.spec_path(), "state"@, container_id@],
    {
        let mut argv: Vec<String> = Vec::new();
        argv.push(self.runtime_path.clone());
        argv.push(RuncMethod::State.to_string());
        argv.push(container_id.clone());
        proof {
            assert(argv.deep_view() =~= seq![self.spec_path(), "state"@, container_id@]);
        }
        argv
    }

    /// Reads what the state query produced: empty output means the
    /// runtime does not know the container; otherwise the output must be a
    /// JSON object with a string `status` member, which is mapped by the
    /// fixed table.
    pub fn get_container_status(&self, container_id: &ID, out: &RuntimeStateOutcome) -> (r: Result<
        Status,
        ContainerRuntimeError,
    >)
        ensures
            match out {
                RuntimeStateOutcome::SpawnFailed(m) => r matches Err(
                    ContainerRuntimeError::RuncError { method, container_id: cid, message },
                ) && method == RuncMethod::State && cid@ == container_id@ && message@ == m@,
                RuntimeStateOutcome::InvalidUtf8 => r matches Err(
                    ContainerRuntimeError::ConvertContainerStatusError { container_id: cid },
                ) && cid@ == container_id@,
                RuntimeStateOutcome::Output(s) => {
                    if s@.len() == 0 {
                        r matches Err(
                            ContainerRuntimeError::ContainerNotFoundError { container_id: cid },
                        ) && cid@ == container_id@
                    } else {
                        match json_status_field(s@) {
                            Some(st) => r matches Ok(status) && status == spec_status_of_runc(st),
                            None => r matches Err(
                                ContainerRuntimeError::ParseContainerStatusError {
                                    container_id: cid,
                                },
                            ) && cid@ == container_id@,
                        }
                    }
                },
            },
    {
        match out {
            RuntimeStateOutcome::SpawnFailed(m) => Err(ContainerRuntimeError::RuncError {
                method: RuncMethod::State,
                container_id: container_id.clone(),
                message: m.clone(),
            }),
            RuntimeStateOutcome::InvalidUtf8 => Err(
                ContainerRuntimeError::ConvertContainerStatusError {
                    container_id: container_id.clone(),
                },
            ),
            RuntimeStateOutcome::Output(s) => {
                if s.as_str().is_empty() {
                    return Err(ContainerRuntimeError::ContainerNotFoundError {
                        container_id: container_id.clone(),
                    });
                }
                match extract_status_field(s.as_str()) {
                    Some(st) => {
                        let runc_status = RuncStatus { status: st };
                        Ok(Status::from_runc_status(&runc_status))
                    },
                    None => Err(ContainerRuntimeError::ParseContainerStatusError {
                        container_id: container_id.clone(),
                    }),
                }
            },
        }
    }
}

} // verus!
