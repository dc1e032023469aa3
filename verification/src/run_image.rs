//! Running an application in a container: its arguments and its environment
//! resolved, with the ports to publish and the files to mount, and the command
//! line that starts the container.
use crate::assoc::{put, viewed, with_entry};
use crate::config_image::{
    values_view, Application, ApplicationView, Argument, ArgumentValues, ArgumentValuesView,
    ArgumentView, ConfigImageIndex,
};
use crate::run_config::{lines, resolve_argument_local, resolved_local, RunError, RunErrorView};
use crate::text::{concat2, has_prefix, owned, starts_with};
use vstd::prelude::*;

verus! {

/// What a container is started with. The environment is in increasing order of
/// the variables' names; a mount is a path on the host and the path in the
/// container.
#[derive(Debug, Clone)]
pub struct ContainerConfig {
    pub args: Vec<String>,
    pub env: Vec<(String, String)>,
    pub mounts: Vec<(String, String)>,
    pub ports: Vec<String>,
}

/// The mathematical value of a `ContainerConfig`.
pub struct ContainerConfigView {
    pub args: Seq<Seq<char>>,
    pub env: Seq<(Seq<char>, Seq<char>)>,
    pub mounts: Seq<(Seq<char>, Seq<char>)>,
    pub ports: Seq<Seq<char>>,
}

impl View for ContainerConfig {
    type V = ContainerConfigView;

    open spec fn view(&self) -> ContainerConfigView {
        ContainerConfigView {
            args: lines(self.args@),
            env: viewed(self.env@),
            mounts: viewed(self.mounts@),
            ports: lines(self.ports@),
        }
    }
}

/// An argument as a container takes it.
#[derive(Debug, Clone)]
pub enum ResolvedArgument {
    Port(String),
    String(String),
    VolumeMount { host_path: String, container_path: String },
}

/// The mathematical value of a `ResolvedArgument`.
pub enum ResolvedArgumentView {
    Port(Seq<char>),
    String(Seq<char>),
    VolumeMount { host_path: Seq<char>, container_path: Seq<char> },
}

impl View for ResolvedArgument {
    type V = ResolvedArgumentView;

    open spec fn view(&self) -> ResolvedArgumentView {
        match self {
            ResolvedArgument::Port(text) => ResolvedArgumentView::Port(text@),
            ResolvedArgument::String(text) => ResolvedArgumentView::String(text@),
            ResolvedArgument::VolumeMount { host_path, container_path } => {
                ResolvedArgumentView::VolumeMount {
                    host_path: host_path@,
                    container_path: container_path@,
                }
            },
        }
    }
}

/// An argument as a container takes it: a file variable is a mount of the
/// file that the variable names on the host at the path of the argument; a
/// port is its number; anything else is its text.
pub open spec fn resolved_container(
    values: ArgumentValuesView,
    environment: Seq<char>,
    variables: Seq<(Seq<char>, Seq<char>)>,
) -> Result<Option<ResolvedArgumentView>, RunErrorView> {
    match resolved_local(values, environment, variables) {
        Err(e) => Err(e),
        Ok(None) => Ok(None),
        Ok(Some((argument, text))) => Ok(
            Some(
                match argument {
                    ArgumentView::FileVariable { path, .. } => ResolvedArgumentView::VolumeMount {
                        host_path: text,
                        container_path: path,
                    },
                    ArgumentView::Port { .. } => ResolvedArgumentView::Port(text),
                    _ => ResolvedArgumentView::String(text),
                },
            ),
        ),
    }
}

/// Resolves one argument for a run in a container.
pub fn resolve_argument_container(
    arg: &ArgumentValues,
    environment: &str,
    variables: &Vec<(String, String)>,
) -> (r: Result<Option<ResolvedArgument>, RunError>)
    ensures
        match resolved_container(arg@, environment@, viewed(variables@)) {
            Ok(Some(resolved)) => r matches Ok(Some(found)) && found@ == resolved,
            Ok(None) => r matches Ok(None),
            Err(e) => r matches Err(error) && error@ == e,
        },
{
    match resolve_argument_local(arg, environment, variables) {
        Err(e) => Err(e),
        Ok(None) => Ok(None),
        Ok(Some((argument, value))) => Ok(
            Some(
                match argument {
                    Argument::FileVariable(v) => ResolvedArgument::VolumeMount {
                        host_path: value,
                        container_path: v.path.clone(),
                    },
                    Argument::Port(_) => ResolvedArgument::Port(value),
                    _ => ResolvedArgument::String(value),
                },
            ),
        ),
    }
}

/// The configuration after one resolved argument of the command line: its
/// text at the end of the arguments, and a port or a mount noted.
pub open spec fn with_argument(config: ContainerConfigView, resolved: ResolvedArgumentView) -> ContainerConfigView {
    match resolved {
        ResolvedArgumentView::Port(text) => ContainerConfigView {
            args: config.args.push(text),
            ports: config.ports.push(text),
            ..config
        },
        ResolvedArgumentView::String(text) => ContainerConfigView {
            args: config.args.push(text),
            ..config
        },
        ResolvedArgumentView::VolumeMount { host_path, container_path } => ContainerConfigView {
            args: config.args.push(container_path),
            mounts: config.mounts.push((host_path, container_path)),
            ..config
        },
    }
}

/// The configuration after one resolved entry of the environment: its text
/// bound to the variable, and a port or a mount noted.
pub open spec fn with_variable(
    config: ContainerConfigView,
    name: Seq<char>,
    resolved: ResolvedArgumentView,
) -> ContainerConfigView {
    match resolved {
        ResolvedArgumentView::Port(text) => ContainerConfigView {
            env: with_entry(config.env, name, text),
            ports: config.ports.push(text),
            ..config
        },
        ResolvedArgumentView::String(text) => ContainerConfigView {
            env: with_entry(config.env, name, text),
            ..config
        },
        ResolvedArgumentView::VolumeMount { host_path, container_path } => ContainerConfigView {
            env: with_entry(config.env, name, container_path),
            mounts: config.mounts.push((host_path, container_path)),
            ..config
        },
    }
}

/// The configuration after the arguments from `at` on.
pub open spec fn container_args_from(
    args: Seq<ArgumentValuesView>,
    at: int,
    environment: Seq<char>,
    variables: Seq<(Seq<char>, Seq<char>)>,
    config: ContainerConfigView,
) -> Result<ContainerConfigView, RunErrorView>
    decreases args.len() - at,
{
    if at < 0 || at >= args.len() {
        Ok(config)
    } else {
        match resolved_container(args[at], environment, variables) {
            Err(e) => Err(e),
            Ok(None) => container_args_from(args, at + 1, environment, variables, config),
            Ok(Some(resolved)) => container_args_from(
                args,
                at + 1,
                environment,
                variables,
                with_argument(config, resolved),
            ),
        }
    }
}

/// The configuration after the environment entries from `at` on.
pub open spec fn container_env_from(
    env: Seq<(Seq<char>, ArgumentValuesView)>,
    at: int,
    environment: Seq<char>,
    variables: Seq<(Seq<char>, Seq<char>)>,
    config: ContainerConfigView,
) -> Result<ContainerConfigView, RunErrorView>
    decreases env.len() - at,
{
    if at < 0 || at >= env.len() {
        Ok(config)
    } else {
        match resolved_container(env[at].1, environment, variables) {
            Err(e) => Err(e),
            Ok(None) => container_env_from(env, at + 1, environment, variables, config),
            Ok(Some(resolved)) => container_env_from(
                env,
                at + 1,
                environment,
                variables,
                with_variable(config, env[at].0, resolved),
            ),
        }
    }
}

/// A configuration with nothing in it.
pub open spec fn empty_config() -> ContainerConfigView {
    ContainerConfigView {
        args: Seq::empty(),
        env: Seq::empty(),
        mounts: Seq::empty(),
        ports: Seq::empty(),
    }
}

/// What a container is started with for an application in an environment.
pub open spec fn container_config(
    app: ApplicationView,
    environment: Seq<char>,
    variables: Seq<(Seq<char>, Seq<char>)>,
) -> Result<ContainerConfigView, RunErrorView> {
    match container_args_from(app.args, 0, environment, variables, empty_config()) {
        Err(e) => Err(e),
        Ok(config) => container_env_from(app.env, 0, environment, variables, config),
    }
}

/// Puts a text at the end of a vector of texts.
fn push_line(v: &mut Vec<String>, text: String)
    ensures
        lines(final(v)@) == lines(old(v)@).push(text@),
{
    v.push(text);
    proof {
        assert(lines(v@) =~= lines(old(v)@).push(text@));
    }
}

/// Puts a pair of texts at the end of a vector of pairs.
fn push_pair(v: &mut Vec<(String, String)>, first: String, second: String)
    ensures
        viewed(final(v)@) == viewed(old(v)@).push((first@, second@)),
{
    v.push((first, second));
    proof {
        assert(viewed(v@) =~= viewed(old(v)@).push((first@, second@)));
    }
}

/// Builds what a container is started with. An argument that varies and has
/// no value for the environment is left out.
pub fn build_config_container(
    app: &Application,
    environment: &str,
    variables: &Vec<(String, String)>,
) -> (r: Result<ContainerConfig, RunError>)
    ensures
        match container_config(app@, environment@, viewed(variables@)) {
            Ok(config) => r matches Ok(made) && made@ == config,
            Err(e) => r matches Err(error) && error@ == e,
        },
{
    let ghost wanted_args = values_view(app.args@);
    let ghost wanted_env = viewed(app.env@);
    let ghost known = viewed(variables@);
    let mut config = ContainerConfig {
        args: Vec::new(),
        env: Vec::new(),
        mounts: Vec::new(),
        ports: Vec::new(),
    };
    proof {
        assert(config@.args =~= Seq::empty());
        assert(config@.env =~= Seq::empty());
        assert(config@.mounts =~= Seq::empty());
        assert(config@.ports =~= Seq::empty());
    }
    let mut i: usize = 0;
    while i < app.args.len()
        invariant
            0 <= i <= app.args@.len(),
            wanted_args == values_view(app.args@),
            wanted_args == app@.args,
            known == viewed(variables@),
            container_args_from(wanted_args, 0, environment@, known, empty_config())
                == container_args_from(wanted_args, i as int, environment@, known, config@),
        decreases app.args@.len() - i,
    {
        proof {
            assert(wanted_args[i as int] == app.args@[i as int]@);
        }
        match resolve_argument_container(&app.args[i], environment, variables) {
            Err(e) => {
                return Err(e);
            },
            Ok(None) => {},
            Ok(Some(resolved)) => {
                match resolved {
                    ResolvedArgument::Port(text) => {
                        push_line(&mut config.args, text.clone());
                        push_line(&mut config.ports, text);
                    },
                    ResolvedArgument::String(text) => {
                        push_line(&mut config.args, text);
                    },
                    ResolvedArgument::VolumeMount { host_path, container_path } => {
                        push_line(&mut config.args, container_path.clone());
                        push_pair(&mut config.mounts, host_path, container_path);
                    },
                }
            },
        }
        i += 1;
    }
    let ghost after_args = config@;
    let mut j: usize = 0;
    while j < app.env.len()
        invariant
            0 <= j <= app.env@.len(),
            wanted_env == viewed(app.env@),
            wanted_env == app@.env,
            wanted_args == app@.args,
            known == viewed(variables@),
            container_args_from(wanted_args, 0, environment@, known, empty_config()) == Ok::<
                ContainerConfigView,
                RunErrorView,
            >(after_args),
            container_env_from(wanted_env, 0, environment@, known, after_args)
                == container_env_from(wanted_env, j as int, environment@, known, config@),
        decreases app.env@.len() - j,
    {
        proof {
            assert(wanted_env[j as int] == (app.env@[j as int].0@, app.env@[j as int].1@));
        }
        match resolve_argument_container(&app.env[j].1, environment, variables) {
            Err(e) => {
                return Err(e);
            },
            Ok(None) => {},
            Ok(Some(resolved)) => {
                let name = app.env[j].0.clone();
                match resolved {
                    ResolvedArgument::Port(text) => {
                        put(&mut config.env, name, text.clone());
                        push_line(&mut config.ports, text);
                    },
                    ResolvedArgument::String(text) => {
                        put(&mut config.env, name, text);
                    },
                    ResolvedArgument::VolumeMount { host_path, container_path } => {
                        put(&mut config.env, name, container_path.clone());
                        push_pair(&mut config.mounts, host_path, container_path);
                    },
                }
            },
        }
        j += 1;
    }
    Ok(config)
}

/// The image that holds the application's binary: the repository, `@`, and
/// the digest.
pub fn binary_image(index: &ConfigImageIndex) -> (r: String)
    ensures
        r@ == index.binary_repository@ + "@"@ + index.binary_digest@,
{
    let mut out = concat2(index.binary_repository.as_str(), "@");
    out.append(index.binary_digest.as_str());
    out
}

/// The `--env` options for the variables from `at` on.
pub open spec fn env_options(env: Seq<(Seq<char>, Seq<char>)>, at: int) -> Seq<Seq<char>>
    decreases env.len() - at,
{
    if at < 0 || at >= env.len() {
        Seq::empty()
    } else {
        seq!["--env"@, env[at].0 + "="@ + env[at].1] + env_options(env, at + 1)
    }
}

/// The `--mount` options for the mounts from `at` on.
pub open spec fn mount_options(mounts: Seq<(Seq<char>, Seq<char>)>, at: int) -> Seq<Seq<char>>
    decreases mounts.len() - at,
{
    if at < 0 || at >= mounts.len() {
        Seq::empty()
    } else {
        seq![
            "--mount"@,
            "type=bind,src="@ + mounts[at].0 + ",dst="@ + mounts[at].1 + ",readonly"@,
        ] + mount_options(mounts, at + 1)
    }
}

/// The `--publish` options for the ports from `at` on.
pub open spec fn publish_options(ports: Seq<Seq<char>>, at: int) -> Seq<Seq<char>>
    decreases ports.len() - at,
{
    if at < 0 || at >= ports.len() {
        Seq::empty()
    } else {
        seq!["--publish"@, ports[at] + ":"@ + ports[at]] + publish_options(ports, at + 1)
    }
}

/// The arguments of the `podman` command that runs the image: `run --rm`,
/// without TLS verification for an image reached over plain HTTP, then the
/// environment, the mounts and the ports, the image and its arguments.
pub open spec fn podman_command(image: Seq<char>, config: ContainerConfigView) -> Seq<Seq<char>> {
    let security = if has_prefix(image, "http://"@) {
        seq!["--tls-verify=false"@]
    } else {
        Seq::empty()
    };
    seq!["run"@, "--rm"@] + security + env_options(config.env, 0) + mount_options(
        config.mounts,
        0,
    ) + publish_options(config.ports, 0) + seq![image] + config.args
}

/// Builds the arguments of the `podman` command that runs the image.
pub fn podman_arguments(image: &str, config: &ContainerConfig) -> (r: Vec<String>)
    ensures
        lines(r@) == podman_command(image@, config@),
{
    let mut out: Vec<String> = Vec::new();
    proof {
        assert(lines(out@) =~= Seq::empty());
    }
    push_line(&mut out, owned("run"));
    push_line(&mut out, owned("--rm"));
    if starts_with(image, "http://") {
        push_line(&mut out, owned("--tls-verify=false"));
    }
    let ghost head = lines(out@);
    proof {
        assert(head =~= seq!["run"@, "--rm"@] + if has_prefix(image@, "http://"@) {
            seq!["--tls-verify=false"@]
        } else {
            Seq::empty()
        });
    }
    let ghost env = viewed(config.env@);
    let mut i: usize = 0;
    while i < config.env.len()
        invariant
            0 <= i <= config.env@.len(),
            env == viewed(config.env@),
            lines(out@) + env_options(env, i as int) == head + env_options(env, 0),
        decreases config.env@.len() - i,
    {
        let ghost before = lines(out@);
        let mut option = concat2(config.env[i].0.as_str(), "=");
        option.append(config.env[i].1.as_str());
        push_line(&mut out, owned("--env"));
        push_line(&mut out, option);
        proof {
            assert(env[i as int] == (config.env@[i as int].0@, config.env@[i as int].1@));
            assert(lines(out@) + env_options(env, i as int + 1) =~= before + env_options(
                env,
                i as int,
            ));
        }
        i += 1;
    }
    let ghost with_env = lines(out@);
    proof {
        assert(with_env =~= head + env_options(env, 0));
    }
    let ghost mounts = viewed(config.mounts@);
    let mut j: usize = 0;
    while j < config.mounts.len()
        invariant
            0 <= j <= config.mounts@.len(),
            mounts == viewed(config.mounts@),
            lines(out@) + mount_options(mounts, j as int) == with_env + mount_options(mounts, 0),
        decreases config.mounts@.len() - j,
    {
        let ghost before = lines(out@);
        let mut option = concat2("type=bind,src=", config.mounts[j].0.as_str());
        option.append(",dst=");
        option.append(config.mounts[j].1.as_str());
        option.append(",readonly");
        push_line(&mut out, owned("--mount"));
        push_line(&mut out, option);
        proof {
            assert(mounts[j as int] == (config.mounts@[j as int].0@, config.mounts@[j as int].1@));
            assert(lines(out@) + mount_options(mounts, j as int + 1) =~= before + mount_options(
                mounts,
                j as int,
            ));
        }
        j += 1;
    }
    let ghost with_mounts = lines(out@);
    proof {
        assert(with_mounts =~= with_env + mount_options(mounts, 0));
    }
    let ghost ports = lines(config.ports@);
    let mut k: usize = 0;
    while k < config.ports.len()
        invariant
            0 <= k <= config.ports@.len(),
            ports == lines(config.ports@),
            lines(out@) + publish_options(ports, k as int) == with_mounts + publish_options(
                ports,
                0,
            ),
        decreases config.ports@.len() - k,
    {
        let ghost before = lines(out@);
        let mut option = concat2(config.ports[k].as_str(), ":");
        option.append(config.ports[k].as_str());
        push_line(&mut out, owned("--publish"));
        push_line(&mut out, option);
        proof {
            assert(ports[k as int] == config.ports@[k as int]@);
            assert(lines(out@) + publish_options(ports, k as int + 1) =~= before
                + publish_options(ports, k as int));
        }
        k += 1;
    }
    let ghost with_ports = lines(out@);
    proof {
        assert(with_ports =~= with_mounts + publish_options(ports, 0));
    }
    push_line(&mut out, owned(image));
    let ghost with_image = lines(out@);
    let ghost args = lines(config.args@);
    let mut n: usize = 0;
    while n < config.args.len()
        invariant
            0 <= n <= config.args@.len(),
            args == lines(config.args@),
            lines(out@) == with_image + args.subrange(0, n as int),
        decreases config.args@.len() - n,
    {
        let ghost before = lines(out@);
        push_line(&mut out, config.args[n].clone());
        proof {
            assert(args[n as int] == config.args@[n as int]@);
            assert(before.push(args[n as int]) =~= with_image + args.subrange(0, n as int + 1));
        }
        n += 1;
    }
    proof {
        assert(args.subrange(0, args.len() as int) =~= args);
        assert(with_image =~= with_ports.push(image@));
        assert(lines(out@) =~= podman_command(image@, config@));
    }
    out
}

} // verus!
