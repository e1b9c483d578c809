//! Container sandboxes: naming, the command lines that create and enter
//! them, and reading the runtime's reports about them.

use crate::environment::{find_char, first_index_of, joined};
use crate::text::{chars_eq, chars_of, extend_chars, is_prefix, lines, split_lines, starts_with, string_of, trim, trim_spec, views};
use vstd::prelude::*;

verus! {

/// The container runtime a configuration names.
#[derive(PartialEq, Eq, Structural, Clone, Copy, Debug)]
pub enum ContainerRuntimeName {
    AppleContainer,
    Docker,
}

/// A host directory mounted into a container.
pub struct VolumeMount {
    pub host_path: String,
    pub container_path: String,
    pub read_only: bool,
}

/// What a new container is created with.
pub struct ContainerConfig {
    pub working_dir: String,
    pub volumes: Vec<VolumeMount>,
    pub anonymous_volumes: Vec<String>,
    pub environment: Vec<(String, String)>,
    pub cpu_limit: Option<String>,
    pub memory_limit: Option<String>,
    pub port_mappings: Vec<String>,
}

/// The Docker command-line runtime (`docker`).
pub struct Docker {}

/// Apple's `container` command-line runtime.
pub struct AppleContainer {}

/// One of the supported container runtimes.
pub enum ContainerRuntime {
    AppleContainer(AppleContainer),
    Docker(Docker),
}

impl ContainerRuntime {
    /// Which runtime this is.
    pub open spec fn kind(&self) -> ContainerRuntimeName {
        match self {
            ContainerRuntime::AppleContainer(_) => ContainerRuntimeName::AppleContainer,
            ContainerRuntime::Docker(_) => ContainerRuntimeName::Docker,
        }
    }
}

/// The runtime a configuration selects; Docker when no configuration
/// could be read (`None`).
pub open spec fn selected_runtime(configured: Option<ContainerRuntimeName>) -> ContainerRuntimeName {
    match configured {
        Some(n) => n,
        None => ContainerRuntimeName::Docker,
    }
}

/// The command-line binary of a runtime.
pub open spec fn binary_of(kind: ContainerRuntimeName) -> Seq<char> {
    match kind {
        ContainerRuntimeName::AppleContainer => "container"@,
        ContainerRuntimeName::Docker => "docker"@,
    }
}

/// The CLI binary of the configured runtime (`configured` is what the
/// configuration names, `None` when it could not be loaded).
pub fn runtime_binary(configured: Option<ContainerRuntimeName>) -> (r: &'static str)
    ensures
        r@ == binary_of(selected_runtime(configured)),
{
    match configured {
        Some(ContainerRuntimeName::AppleContainer) => "container",
        Some(ContainerRuntimeName::Docker) => "docker",
        None => "docker",
    }
}

/// The runtime the configuration selects (Docker when it names none).
pub fn get_container_runtime(configured: Option<ContainerRuntimeName>) -> (r: ContainerRuntime)
    ensures
        r.kind() == selected_runtime(configured),
{
    match configured {
        Some(ContainerRuntimeName::AppleContainer) => ContainerRuntime::AppleContainer(
            AppleContainer {  },
        ),
        _ => ContainerRuntime::Docker(Docker {  }),
    }
}

/// The container name prefix every sandbox shares.
pub open spec fn sandbox_prefix() -> Seq<char> {
    "aoe-sandbox-"@
}

/// At most the first `n` characters of `id`.
pub open spec fn truncated_id(id: Seq<char>, n: nat) -> Seq<char> {
    if id.len() > n {
        id.take(n as int)
    } else {
        id
    }
}

/// Shortens an identifier to at most `n` characters.
pub fn truncate_id(id: &str, n: usize) -> (r: String)
    ensures
        r@ == truncated_id(id@, n as nat),
{
    let cs = chars_of(id);
    if cs.len() <= n {
        return id.to_string();
    }
    let mut out: Vec<char> = Vec::new();
    let mut i: usize = 0;
    while i < n
        invariant
            i <= n < cs.len(),
            out@ == cs@.take(i as int),
        decreases n - i,
    {
        out.push(cs[i]);
        i += 1;
        assert(out@ =~= cs@.take(i as int));
    }
    string_of(&out)
}

/// The name of a session's sandbox container.
pub open spec fn sandbox_name(session_id: Seq<char>) -> Seq<char> {
    sandbox_prefix() + truncated_id(session_id, 8)
}

/// The `(name, value)` argument pairs a `run` command line is built from,
/// flattened: `run -d --name NAME -w DIR`, then `-v` for each mount
/// (`host:container`, `:ro` appended when read-only), `-v` for each
/// anonymous volume, `-p` for each port mapping, `-e KEY=VALUE` for each
/// environment pair, `--cpus` and `-m` for the limits given, and finally
/// the image followed by `sleep infinity`.
pub open spec fn create_args(
    name: Seq<char>,
    image: Seq<char>,
    working_dir: Seq<char>,
    mounts: Seq<Seq<char>>,
    anonymous: Seq<Seq<char>>,
    ports: Seq<Seq<char>>,
    env: Seq<Seq<char>>,
    cpu: Option<Seq<char>>,
    memory: Option<Seq<char>>,
) -> Seq<Seq<char>> {
    seq!["run"@, "-d"@, "--name"@, name, "-w"@, working_dir] + flag_each("-v"@, mounts) + flag_each(
        "-v"@,
        anonymous,
    ) + flag_each("-p"@, ports) + flag_each("-e"@, env) + match cpu {
        Some(c) => seq!["--cpus"@, c],
        None => Seq::empty(),
    } + match memory {
        Some(m) => seq!["-m"@, m],
        None => Seq::empty(),
    } + seq![image, "sleep"@, "infinity"@]
}

/// `flag v1 flag v2 ...`.
pub open spec fn flag_each(flag: Seq<char>, values: Seq<Seq<char>>) -> Seq<Seq<char>>
    decreases values.len(),
{
    if values.len() == 0 {
        Seq::empty()
    } else {
        flag_each(flag, values.drop_last()) + seq![flag, values.last()]
    }
}

/// The mount argument of a volume.
pub open spec fn mount_arg(v: VolumeMount) -> Seq<char> {
    v.host_path@ + seq![':'] + v.container_path@ + if v.read_only {
        ":ro"@
    } else {
        Seq::empty()
    }
}

/// The `run` arguments for a container with `name`, `image` and `config`.
pub open spec fn config_create_args(name: Seq<char>, image: Seq<char>, config: ContainerConfig) -> Seq<
    Seq<char>,
> {
    create_args(
        name,
        image,
        config.working_dir@,
        config.volumes@.map_values(|v: VolumeMount| mount_arg(v)),
        config.anonymous_volumes@.map_values(|s: String| s@),
        config.port_mappings@.map_values(|s: String| s@),
        config.environment@.map_values(|p: (String, String)| p.0@ + seq!['='] + p.1@),
        match config.cpu_limit {
            Some(c) => Some(c@),
            None => None,
        },
        match config.memory_limit {
            Some(m) => Some(m@),
            None => None,
        },
    )
}

/// The views of a list of strings.
pub open spec fn string_list_views(v: Seq<String>) -> Seq<Seq<char>> {
    v.map_values(|s: String| s@)
}

fn push_flag(args: &mut Vec<String>, flag: &str, value: String)
    ensures
        string_list_views(final(args)@) == string_list_views(old(args)@) + seq![flag@, value@],
{
    let ghost before = string_list_views(args@);
    args.push(flag.to_string());
    args.push(value);
    assert(string_list_views(args@) =~= before + seq![flag@, value@]);
}

/// Builds the `run` arguments that create a sandbox container.
pub fn build_create_args(name: &str, image: &str, config: &ContainerConfig) -> (r: Vec<String>)
    ensures
        string_list_views(r@) == config_create_args(name@, image@, *config),
{
    proof {
        reveal_strlit(":ro");
    }
    let mut args: Vec<String> = Vec::new();
    args.push("run".to_string());
    args.push("-d".to_string());
    push_flag(&mut args, "--name", name.to_string());
    push_flag(&mut args, "-w", config.working_dir.clone());
    assert(string_list_views(args@) =~= seq!["run"@, "-d"@, "--name"@, name@, "-w"@, config.working_dir@]);
    let ghost head = string_list_views(args@);
    let ghost mounts = config.volumes@.map_values(|v: VolumeMount| mount_arg(v));
    let mut i: usize = 0;
    while i < config.volumes.len()
        invariant
            i <= config.volumes.len(),
            mounts == config.volumes@.map_values(|v: VolumeMount| mount_arg(v)),
            string_list_views(args@) == head + flag_each("-v"@, mounts.take(i as int)),
        decreases config.volumes.len() - i,
    {
        let v = &config.volumes[i];
        let mut m = chars_of(v.host_path.as_str());
        m.push(':');
        extend_chars(&mut m, &chars_of(v.container_path.as_str()));
        if v.read_only {
            extend_chars(&mut m, &chars_of(":ro"));
        }
        assert(m@ =~= mount_arg(config.volumes@[i as int]));
        push_flag(&mut args, "-v", string_of(&m));
        assert(mounts.take(i + 1).drop_last() =~= mounts.take(i as int));
        i += 1;
    }
    assert(mounts.take(config.volumes.len() as int) =~= mounts);
    let ghost h2 = string_list_views(args@);
    let ghost anon = config.anonymous_volumes@.map_values(|s: String| s@);
    let mut i: usize = 0;
    while i < config.anonymous_volumes.len()
        invariant
            i <= config.anonymous_volumes.len(),
            anon == config.anonymous_volumes@.map_values(|s: String| s@),
            string_list_views(args@) == h2 + flag_each("-v"@, anon.take(i as int)),
        decreases config.anonymous_volumes.len() - i,
    {
        push_flag(&mut args, "-v", config.anonymous_volumes[i].clone());
        assert(anon.take(i + 1).drop_last() =~= anon.take(i as int));
        i += 1;
    }
    assert(anon.take(config.anonymous_volumes.len() as int) =~= anon);
    let ghost h3 = string_list_views(args@);
    let ghost ports = config.port_mappings@.map_values(|s: String| s@);
    let mut i: usize = 0;
    while i < config.port_mappings.len()
        invariant
            i <= config.port_mappings.len(),
            ports == config.port_mappings@.map_values(|s: String| s@),
            string_list_views(args@) == h3 + flag_each("-p"@, ports.take(i as int)),
        decreases config.port_mappings.len() - i,
    {
        push_flag(&mut args, "-p", config.port_mappings[i].clone());
        assert(ports.take(i + 1).drop_last() =~= ports.take(i as int));
        i += 1;
    }
    assert(ports.take(config.port_mappings.len() as int) =~= ports);
    let ghost h4 = string_list_views(args@);
    let ghost env = config.environment@.map_values(|p: (String, String)| p.0@ + seq!['='] + p.1@);
    let mut i: usize = 0;
    while i < config.environment.len()
        invariant
            i <= config.environment.len(),
            env == config.environment@.map_values(|p: (String, String)| p.0@ + seq!['='] + p.1@),
            string_list_views(args@) == h4 + flag_each("-e"@, env.take(i as int)),
        decreases config.environment.len() - i,
    {
        let mut kv = chars_of(config.environment[i].0.as_str());
        kv.push('=');
        extend_chars(&mut kv, &chars_of(config.environment[i].1.as_str()));
        assert(kv@ =~= env[i as int]);
        push_flag(&mut args, "-e", string_of(&kv));
        assert(env.take(i + 1).drop_last() =~= env.take(i as int));
        i += 1;
    }
    assert(env.take(config.environment.len() as int) =~= env);
    let ghost h5 = string_list_views(args@);
    match &config.cpu_limit {
        Some(c) => push_flag(&mut args, "--cpus", c.clone()),
        None => {},
    }
    let ghost h6 = string_list_views(args@);
    match &config.memory_limit {
        Some(m) => push_flag(&mut args, "-m", m.clone()),
        None => {},
    }
    let ghost h7 = string_list_views(args@);
    args.push(image.to_string());
    args.push("sleep".to_string());
    args.push("infinity".to_string());
    assert(string_list_views(args@) =~= h7 + seq![image@, "sleep"@, "infinity"@]);
    assert(string_list_views(args@) =~= config_create_args(name@, image@, *config));
    args
}

/// `cmd` in single quotes, each embedded `'` written as `'\''`.
pub open spec fn single_quoted(cmd: Seq<char>) -> Seq<char> {
    seq!['\''] + crate::text::replace_spec(cmd, seq!['\''], seq!['\'', '\\', '\'', '\'']) + seq!['\'']
}

/// The words of the command line that runs `cmd` inside container
/// `name`: Docker appends the command as is; Apple's runtime runs it
/// through `sh -c` in single quotes.
pub open spec fn exec_words(
    kind: ContainerRuntimeName,
    name: Seq<char>,
    options: Option<Seq<char>>,
    cmd: Seq<char>,
) -> Seq<Seq<char>> {
    let opts = match options {
        Some(o) => seq![o],
        None => Seq::empty(),
    };
    match kind {
        ContainerRuntimeName::Docker => seq!["docker"@, "exec"@, "-it"@] + opts + seq![name, cmd],
        ContainerRuntimeName::AppleContainer => seq!["container"@, "exec"@, "-it"@] + opts + seq![
            name,
            "sh"@,
            "-c"@,
            single_quoted(cmd),
        ],
    }
}

fn join_words(words: &Vec<String>) -> (r: String)
    ensures
        r@ == joined(string_list_views(words@), seq![' ']),
{
    let ghost ws = string_list_views(words@);
    let mut out: Vec<char> = Vec::new();
    let mut i: usize = 0;
    while i < words.len()
        invariant
            i <= words.len(),
            ws == string_list_views(words@),
            out@ == joined(ws.take(i as int), seq![' ']),
        decreases words.len() - i,
    {
        if i > 0 {
            out.push(' ');
        }
        extend_chars(&mut out, &chars_of(words[i].as_str()));
        assert(ws.take(i + 1).drop_last() =~= ws.take(i as int));
        if i == 0 {
            assert(ws.take(1) =~= seq![ws[0]]);
        }
        i += 1;
    }
    assert(ws.take(words.len() as int) =~= ws);
    string_of(&out)
}

impl ContainerRuntime {
    /// The `run` arguments that create a container.
    pub fn build_create_args(&self, name: &str, image: &str, config: &ContainerConfig) -> (r: Vec<
        String,
    >)
        ensures
            string_list_views(r@) == config_create_args(name@, image@, *config),
    {
        build_create_args(name, image, config)
    }

    /// The shell command line that runs `cmd` in container `name`, with
    /// optional extra `exec` options.
    pub fn exec_command(&self, name: &str, options: Option<&str>, cmd: &str) -> (r: String)
        ensures
            r@ == joined(
                exec_words(
                    self.kind(),
                    name@,
                    match options {
                        Some(o) => Some(o@),
                        None => None,
                    },
                    cmd@,
                ),
                seq![' '],
            ),
    {
        let mut words: Vec<String> = Vec::new();
        match self {
            ContainerRuntime::Docker(_) => words.push("docker".to_string()),
            ContainerRuntime::AppleContainer(_) => words.push("container".to_string()),
        }
        words.push("exec".to_string());
        words.push("-it".to_string());
        match options {
            Some(o) => words.push(o.to_string()),
            None => {},
        }
        words.push(name.to_string());
        let ghost opts = match options {
            Some(o) => seq![o@],
            None => Seq::<Seq<char>>::empty(),
        };
        match self {
            ContainerRuntime::Docker(_) => {
                words.push(cmd.to_string());
                assert(string_list_views(words@) =~= seq!["docker"@, "exec"@, "-it"@] + opts + seq![
                    name@,
                    cmd@,
                ]);
            },
            ContainerRuntime::AppleContainer(_) => {
                let mut quote: Vec<char> = Vec::new();
                quote.push('\'');
                let mut replacement: Vec<char> = Vec::new();
                replacement.push('\'');
                replacement.push('\\');
                replacement.push('\'');
                replacement.push('\'');
                assert(quote@ =~= seq!['\'']);
                assert(replacement@ =~= seq!['\'', '\\', '\'', '\'']);
                let escaped = crate::text::replace_all(&chars_of(cmd), &quote, &replacement);
                let mut q: Vec<char> = Vec::new();
                q.push('\'');
                extend_chars(&mut q, &escaped);
                q.push('\'');
                assert(q@ =~= single_quoted(cmd@));
                words.push("sh".to_string());
                words.push("-c".to_string());
                words.push(string_of(&q));
                assert(string_list_views(words@) =~= seq!["container"@, "exec"@, "-it"@] + opts
                    + seq![name@, "sh"@, "-c"@, single_quoted(cmd@)]);
            },
        }
        join_words(&words)
    }
}

/// Failures of container operations.
pub enum DockerError {
    /// A container of this name already exists.
    ContainerAlreadyExists(String),
    /// A runtime command failed, or its output could not be read.
    CommandFailed(String),
}

/// What `serde_json` finds in `bytes` at the JSON pointer `pointer`:
/// `Err` with the parser's message where the bytes are not JSON,
/// `Ok(None)` where nothing stands at the pointer, `Ok(Some(Some(s)))`
/// where the string `s` stands there and `Ok(Some(None))` where another
/// kind of value does.
pub uninterp spec fn json_string_at(bytes: Seq<u8>, pointer: Seq<char>) -> Result<Option<Option<Seq<char>>>, Seq<char>>;

/// Parses `bytes` with `serde_json::from_slice` into a `Value`, looks up
/// `pointer` with `Value::pointer` and hands back the string found there,
/// if it is one.  The contract only names the result.
#[verifier::external_body]
fn json_string_at_pointer(bytes: &[u8], pointer: &str) -> (r: Result<Option<Option<String>>, String>)
    ensures
        match (r, json_string_at(bytes@, pointer@)) {
            (Ok(None), Ok(None)) => true,
            (Ok(Some(None)), Ok(Some(None))) => true,
            (Ok(Some(Some(a))), Ok(Some(Some(b)))) => a@ == b,
            (Err(e), Err(m)) => e@ == m,
            _ => false,
        },
{
    match serde_json::from_slice::<serde_json::Value>(bytes) {
        Err(e) => Err(e.to_string()),
        Ok(v) => match v.pointer(pointer) {
            None => Ok(None),
            Some(serde_json::Value::String(t)) => Ok(Some(Some(t.clone()))),
            Some(_) => Ok(Some(None)),
        },
    }
}

/// Whether Apple's runtime reports a running container in the JSON of
/// `inspect`: the status of the first container is the string `running`;
/// a missing status means not running; unreadable JSON is an error with
/// the parser's message.
pub open spec fn apple_running(bytes: Seq<u8>) -> Result<bool, Seq<char>> {
    match json_string_at(bytes, "/0/status"@) {
        Err(m) => Err(m),
        Ok(Some(Some(s))) => Ok(s == "running"@),
        Ok(_) => Ok(false),
    }
}

/// Reads the running state out of the JSON that Apple's runtime prints
/// for `inspect`.
pub fn apple_inspect_running(stdout: &[u8]) -> (r: Result<bool, String>)
    ensures
        match (r, apple_running(stdout@)) {
            (Ok(a), Ok(b)) => a == b,
            (Err(e), Err(m)) => e@ == m,
            _ => false,
        },
{
    match json_string_at_pointer(stdout, "/0/status") {
        Err(e) => Err(e),
        Ok(Some(Some(s))) => {
            proof {
                reveal_strlit("running");
            }
            Ok(chars_eq(&chars_of(s.as_str()), &chars_of("running")))
        },
        Ok(_) => Ok(false),
    }
}

/// The arguments of the runtime command whose success tells whether a
/// container named `name` exists: `container inspect NAME` for Docker;
/// `logs NAME` for Apple's runtime, whose `inspect` also succeeds for
/// missing containers.
pub open spec fn exists_query_args(kind: ContainerRuntimeName, name: Seq<char>) -> Seq<Seq<char>> {
    match kind {
        ContainerRuntimeName::Docker => seq!["container"@, "inspect"@, name],
        ContainerRuntimeName::AppleContainer => seq!["logs"@, name],
    }
}

/// The arguments of the runtime command that reports whether a container
/// runs: `container inspect -f {{.State.Running}} NAME` for Docker,
/// `inspect NAME` (JSON) for Apple's runtime.
pub open spec fn running_query_args(kind: ContainerRuntimeName, name: Seq<char>) -> Seq<Seq<char>> {
    match kind {
        ContainerRuntimeName::Docker => seq!["container"@, "inspect"@, "-f"@, "{{.State.Running}}"@, name],
        ContainerRuntimeName::AppleContainer => seq!["inspect"@, name],
    }
}

/// The arguments of the Docker listing of all containers whose name
/// contains `prefix`, one `NAME<tab>STATE` line each.
pub open spec fn batch_query_args(prefix: Seq<char>) -> Seq<Seq<char>> {
    seq!["ps"@, "-a"@, "--filter"@, "name="@ + prefix, "--format"@, "{{.Names}}\t{{.State}}"@]
}

fn strings_from(words: Vec<&str>) -> (r: Vec<String>)
    ensures
        string_list_views(r@) == words@.map_values(|w: &str| w@),
{
    let mut out: Vec<String> = Vec::new();
    let mut i: usize = 0;
    while i < words.len()
        invariant
            i <= words@.len(),
            string_list_views(out@) == words@.map_values(|w: &str| w@).take(i as int),
        decreases words@.len() - i,
    {
        let ghost before = out@;
        out.push(words[i].to_string());
        assert(string_list_views(out@) =~= string_list_views(before).push(words@[i as int]@));
        assert(string_list_views(out@) =~= words@.map_values(|w: &str| w@).take(i + 1));
        i += 1;
    }
    assert(words@.map_values(|w: &str| w@).take(words@.len() as int) =~= words@.map_values(|w: &str| w@));
    out
}

/// The arguments of the listing that reports the running state of every
/// sandbox: only Docker can list them in one call.
pub fn batch_health_args(runtime: &ContainerRuntime) -> (r: Option<Vec<String>>)
    ensures
        match runtime.kind() {
            ContainerRuntimeName::Docker => r matches Some(a) && string_list_views(a@) == batch_query_args(
                sandbox_prefix(),
            ),
            ContainerRuntimeName::AppleContainer => r is None,
        },
{
    proof {
        reveal_strlit("ps");
        reveal_strlit("-a");
        reveal_strlit("--filter");
        reveal_strlit("name=aoe-sandbox-");
        reveal_strlit("name=");
        reveal_strlit("aoe-sandbox-");
        reveal_strlit("--format");
        reveal_strlit("{{.Names}}\t{{.State}}");
    }
    match runtime {
        ContainerRuntime::Docker(_) => {
            let r = strings_from(vec!["ps", "-a", "--filter", "name=aoe-sandbox-", "--format", "{{.Names}}\t{{.State}}"]);
            assert("name="@ + "aoe-sandbox-"@ =~= "name=aoe-sandbox-"@);
            assert(string_list_views(r@) =~= batch_query_args(sandbox_prefix()));
            Some(r)
        },
        ContainerRuntime::AppleContainer(_) => None,
    }
}

/// The running state of every sandbox, from the output of the listing
/// (`None` where it failed): for Docker the reports of the listing's
/// lines; Apple's runtime reports nothing.
pub fn batch_container_health(runtime: &ContainerRuntime, listing: Option<&str>) -> (r: Vec<(String, bool)>)
    ensures
        match (runtime.kind(), listing) {
            (ContainerRuntimeName::Docker, Some(out)) => state_views(r@) == running_states(
                lines(out@),
                sandbox_prefix(),
            ),
            _ => r@.len() == 0,
        },
{
    proof {
        reveal_strlit("aoe-sandbox-");
    }
    match (runtime, listing) {
        (ContainerRuntime::Docker(_), Some(out)) => parse_batch_running_states(out, "aoe-sandbox-"),
        _ => Vec::new(),
    }
}

/// A session's sandbox container.
pub struct DockerContainer {
    pub name: String,
    pub image: String,
    pub runtime: ContainerRuntime,
}

impl DockerContainer {
    /// The container name for a session: `aoe-sandbox-` and the first
    /// eight characters of the session id.
    pub fn generate_name(session_id: &str) -> (r: String)
        ensures
            r@ == sandbox_name(session_id@),
    {
        let mut r = "aoe-sandbox-".to_string();
        let id = truncate_id(session_id, 8);
        r.append(id.as_str());
        r
    }

    /// The sandbox of a session, for `image`, on the configured runtime
    /// (`configured` as in [`get_container_runtime`]).
    pub fn new(session_id: &str, image: &str, configured: Option<ContainerRuntimeName>) -> (r: Self)
        ensures
            r.name@ == sandbox_name(session_id@),
            r.image@ == image@,
            r.runtime.kind() == selected_runtime(configured),
    {
        DockerContainer {
            name: Self::generate_name(session_id),
            image: image.to_string(),
            runtime: get_container_runtime(configured),
        }
    }

    /// The sandbox of an existing session, image unknown (empty).
    pub fn from_session_id(session_id: &str, configured: Option<ContainerRuntimeName>) -> (r: Self)
        ensures
            r.name@ == sandbox_name(session_id@),
            r.image@.len() == 0,
            r.runtime.kind() == selected_runtime(configured),
    {
        DockerContainer {
            name: Self::generate_name(session_id),
            image: String::new(),
            runtime: get_container_runtime(configured),
        }
    }

    /// The arguments of the runtime command whose success tells whether
    /// this container exists.
    pub fn exists_args(&self) -> (r: Vec<String>)
        ensures
            string_list_views(r@) == exists_query_args(self.runtime.kind(), self.name@),
    {
        proof {
            reveal_strlit("container");
            reveal_strlit("inspect");
            reveal_strlit("logs");
        }
        let r = match &self.runtime {
            ContainerRuntime::Docker(_) => strings_from(vec!["container", "inspect", self.name.as_str()]),
            ContainerRuntime::AppleContainer(_) => strings_from(vec!["logs", self.name.as_str()]),
        };
        assert(string_list_views(r@) =~= exists_query_args(self.runtime.kind(), self.name@));
        r
    }

    /// The arguments of the runtime command that reports whether this
    /// container runs.
    pub fn is_running_args(&self) -> (r: Vec<String>)
        ensures
            string_list_views(r@) == running_query_args(self.runtime.kind(), self.name@),
    {
        proof {
            reveal_strlit("container");
            reveal_strlit("inspect");
            reveal_strlit("-f");
            reveal_strlit("{{.State.Running}}");
        }
        let r = match &self.runtime {
            ContainerRuntime::Docker(_) => strings_from(
                vec!["container", "inspect", "-f", "{{.State.Running}}", self.name.as_str()],
            ),
            ContainerRuntime::AppleContainer(_) => strings_from(vec!["inspect", self.name.as_str()]),
        };
        assert(string_list_views(r@) =~= running_query_args(self.runtime.kind(), self.name@));
        r
    }

    /// Whether this container runs, from the outcome of the command of
    /// `is_running_args`: not where the command failed; for Docker where
    /// it printed `true`; for Apple's runtime where the first container's
    /// JSON status is `running` (an unreadable report is an error).
    pub fn is_running(&self, success: bool, stdout: &[u8], stdout_text: &str) -> (r: Result<bool, DockerError>)
        ensures
            !success ==> r == Ok::<bool, DockerError>(false),
            success && self.runtime.kind() == ContainerRuntimeName::Docker ==> r == Ok::<bool, DockerError>(
                trim_spec(stdout_text@) == "true"@,
            ),
            success && self.runtime.kind() == ContainerRuntimeName::AppleContainer ==> match apple_running(stdout@) {
                Err(m) => r matches Err(DockerError::CommandFailed(e)) && e@ == m,
                Ok(b) => r == Ok::<bool, DockerError>(b),
            },
    {
        if !success {
            return Ok(false);
        }
        match &self.runtime {
            ContainerRuntime::Docker(_) => Ok(docker_inspect_running(true, stdout_text)),
            ContainerRuntime::AppleContainer(_) => match apple_inspect_running(stdout) {
                Err(e) => Err(DockerError::CommandFailed(e)),
                Ok(b) => Ok(b),
            },
        }
    }

    /// Creating this container: refused where it already exists, else the
    /// `run` arguments that create it.
    pub fn create(&self, config: &ContainerConfig, already_exists: bool) -> (r: Result<Vec<String>, DockerError>)
        ensures
            already_exists ==> (r matches Err(DockerError::ContainerAlreadyExists(n)) && n@ == self.name@),
            !already_exists ==> (r matches Ok(a) && string_list_views(a@) == config_create_args(
                self.name@,
                self.image@,
                *config,
            )),
    {
        if already_exists {
            return Err(DockerError::ContainerAlreadyExists(self.name.clone()));
        }
        Ok(self.build_create_args(config))
    }

    /// The `run` arguments that create this container.
    pub fn build_create_args(&self, config: &ContainerConfig) -> (r: Vec<String>)
        ensures
            string_list_views(r@) == config_create_args(self.name@, self.image@, *config),
    {
        self.runtime.build_create_args(self.name.as_str(), self.image.as_str(), config)
    }

    /// The shell command line that runs `cmd` in this container.
    pub fn exec_command(&self, options: Option<&str>, cmd: &str) -> (r: String)
        ensures
            r@ == joined(
                exec_words(
                    self.runtime.kind(),
                    self.name@,
                    match options {
                        Some(o) => Some(o@),
                        None => None,
                    },
                    cmd@,
                ),
                seq![' '],
            ),
    {
        self.runtime.exec_command(self.name.as_str(), options, cmd)
    }
}

// ----------------------------------------------------------------------
// Reading the runtime's reports
// ----------------------------------------------------------------------

/// What one line of `ps -a --format '{{.Names}}\t{{.State}}'` reports:
/// the trimmed text before the first tab is the name, the trimmed text
/// after it the state.  Lines without a tab, with an empty name, or whose
/// name does not start with `prefix` (the runtime's name filter matches
/// substrings) report nothing.
pub open spec fn state_line(line: Seq<char>, prefix: Seq<char>) -> Option<(Seq<char>, bool)> {
    match first_index_of(line, '\t') {
        None => None,
        Some(i) => {
            let name = trim_spec(line.take(i));
            let state = trim_spec(line.skip(i + 1));
            if name.len() == 0 || !is_prefix(prefix, name) {
                None
            } else {
                Some((name, state == "running"@))
            }
        },
    }
}

/// The (name, is running) reports of all lines, in order.
pub open spec fn running_states(ls: Seq<Seq<char>>, prefix: Seq<char>) -> Seq<(Seq<char>, bool)>
    decreases ls.len(),
{
    if ls.len() == 0 {
        Seq::empty()
    } else {
        let rest = running_states(ls.drop_last(), prefix);
        match state_line(ls.last(), prefix) {
            Some(r) => rest.push(r),
            None => rest,
        }
    }
}

/// The views of (name, flag) pairs.
pub open spec fn state_views(v: Seq<(String, bool)>) -> Seq<(Seq<char>, bool)> {
    v.map_values(|p: (String, bool)| (p.0@, p.1))
}

/// Reads the running state of every sandbox container from the output of
/// the runtime's container listing, in listing order (a later line for
/// the same name supersedes an earlier one when collected into a map).
pub fn parse_batch_running_states(stdout: &str, prefix: &str) -> (r: Vec<(String, bool)>)
    ensures
        state_views(r@) == running_states(lines(stdout@), prefix@),
{
    proof {
        reveal_strlit("running");
    }
    let pre = chars_of(prefix);
    let running = chars_of("running");
    let ls = split_lines(&chars_of(stdout));
    let mut out: Vec<(String, bool)> = Vec::new();
    let mut i: usize = 0;
    while i < ls.len()
        invariant
            i <= ls.len(),
            pre@ == prefix@,
            running@ == "running"@,
            views(ls@) == lines(stdout@),
            state_views(out@) == running_states(views(ls@).take(i as int), prefix@),
        decreases ls.len() - i,
    {
        let ghost before = out@;
        let line = &ls[i];
        assert(views(ls@).take(i + 1).drop_last() =~= views(ls@).take(i as int));
        assert(views(ls@).take(i + 1).last() == line@);
        match find_char(line, '\t') {
            None => {},
            Some(t) => {
                let mut head: Vec<char> = Vec::new();
                let mut k: usize = 0;
                while k < t
                    invariant
                        k <= t < line.len(),
                        head@ == line@.take(k as int),
                    decreases t - k,
                {
                    head.push(line[k]);
                    k += 1;
                    assert(head@ =~= line@.take(k as int));
                }
                let mut tail: Vec<char> = Vec::new();
                let mut k: usize = t + 1;
                while k < line.len()
                    invariant
                        t + 1 <= k <= line.len(),
                        tail@ == line@.subrange(t + 1, k as int),
                    decreases line.len() - k,
                {
                    tail.push(line[k]);
                    k += 1;
                    assert(tail@ =~= line@.subrange(t + 1, k as int));
                }
                assert(tail@ =~= line@.skip(t + 1));
                let name = trim(&head);
                let state = trim(&tail);
                if name.len() > 0 && starts_with(&name, &pre) {
                    let is_running = chars_eq(&state, &running);
                    out.push((string_of(&name), is_running));
                    assert(state_views(out@) =~= state_views(before).push((name@, is_running)));
                }
            },
        }
        i += 1;
    }
    assert(views(ls@).take(ls.len() as int) =~= views(ls@));
    out
}

/// Whether `docker container inspect -f '{{.State.Running}}'` reports a
/// running container: it succeeded and printed `true` (surrounding
/// whitespace ignored).
pub fn docker_inspect_running(success: bool, stdout: &str) -> (r: bool)
    ensures
        r == (success && trim_spec(stdout@) == "true"@),
{
    if !success {
        return false;
    }
    let t = trim(&chars_of(stdout));
    chars_eq(&t, &chars_of("true"))
}

} // verus!
