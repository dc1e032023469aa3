//! Running an application on this machine: its arguments and its environment
//! resolved against the variables that the machine's environment holds.
use crate::assoc::{lookup, put, value_of, viewed, with_entry};
use crate::config_image::{
    values_view, Application, ApplicationView, Argument, ArgumentValues, ArgumentValuesView,
    ArgumentView,
};
use crate::text::{concat2, decimal, port_text, replace, replaced, to_uppercase, uppercased};
use vstd::prelude::*;

verus! {

/// Why an argument could not be resolved.
#[derive(Debug, Clone)]
pub enum RunError {
    /// The environment does not hold the variable of a file variable.
    FileVariableNotSet(String),
    /// The environment does not hold the variable of a string variable.
    StringVariableNotSet(String),
}

/// The mathematical value of a `RunError`.
pub enum RunErrorView {
    FileVariableNotSet(Seq<char>),
    StringVariableNotSet(Seq<char>),
}

impl View for RunError {
    type V = RunErrorView;

    open spec fn view(&self) -> RunErrorView {
        match self {
            RunError::FileVariableNotSet(key) => RunErrorView::FileVariableNotSet(key@),
            RunError::StringVariableNotSet(key) => RunErrorView::StringVariableNotSet(key@),
        }
    }
}

impl RunError {
    /// The error as a sentence.
    pub fn message(&self) -> (r: String)
        ensures
            r@ == match self@ {
                RunErrorView::FileVariableNotSet(key) => "Environment file variable "@ + key
                    + " not set"@,
                RunErrorView::StringVariableNotSet(key) => "Environment string variable "@ + key
                    + " not set"@,
            },
    {
        match self {
            RunError::FileVariableNotSet(key) => {
                let mut out = concat2("Environment file variable ", key.as_str());
                out.append(" not set");
                out
            },
            RunError::StringVariableNotSet(key) => {
                let mut out = concat2("Environment string variable ", key.as_str());
                out.append(" not set");
                out
            },
        }
    }
}

/// The name of the environment variable for a name of the configuration: in
/// upper case, with `_` for each `-`.
pub open spec fn env_key(name: Seq<char>) -> Seq<char> {
    replaced(uppercased(name), '-', "_"@)
}

/// The name of the environment variable for a name of the configuration.
pub fn as_env_key(v: &str) -> (r: String)
    ensures
        r@ == env_key(v@),
{
    let upper = to_uppercase(v);
    replace(upper.as_str(), '-', "_")
}

/// The argument that holds in the environment `environment`: the uniform one,
/// or the one that varies under that name.
pub open spec fn chosen(values: ArgumentValuesView, environment: Seq<char>) -> Option<
    ArgumentView,
> {
    match values {
        ArgumentValuesView::Uniform(argument) => Some(argument),
        ArgumentValuesView::Varying(by_environment) => value_of(by_environment, environment),
    }
}

/// The text of an argument on this machine, given the variables of the
/// machine's environment: a text is itself; a file variable and a string
/// variable are the value of their environment variable, which must be set;
/// a port is the value of `PORT_` and its key, or else its number.
pub open spec fn local_text(argument: ArgumentView, variables: Seq<(Seq<char>, Seq<char>)>) -> Result<
    Seq<char>,
    RunErrorView,
> {
    match argument {
        ArgumentView::String(text) => Ok(text),
        ArgumentView::FileVariable { name, .. } => match value_of(variables, env_key(name)) {
            Some(value) => Ok(value),
            None => Err(RunErrorView::FileVariableNotSet(env_key(name))),
        },
        ArgumentView::Port { name, number, .. } => match value_of(
            variables,
            "PORT_"@ + env_key(name),
        ) {
            Some(value) => Ok(value),
            None => Ok(decimal(number as nat)),
        },
        ArgumentView::StringVariable { name } => match value_of(variables, env_key(name)) {
            Some(value) => Ok(value),
            None => Err(RunErrorView::StringVariableNotSet(env_key(name))),
        },
    }
}

/// The argument that holds in the environment and its text on this machine,
/// or nothing where the argument varies and has no value for the environment.
pub open spec fn resolved_local(
    values: ArgumentValuesView,
    environment: Seq<char>,
    variables: Seq<(Seq<char>, Seq<char>)>,
) -> Result<Option<(ArgumentView, Seq<char>)>, RunErrorView> {
    match chosen(values, environment) {
        None => Ok(None),
        Some(argument) => match local_text(argument, variables) {
            Err(e) => Err(e),
            Ok(text) => Ok(Some((argument, text))),
        },
    }
}

/// The argument that holds in the environment `environment`.
pub fn choose_argument<'a>(values: &'a ArgumentValues, environment: &str) -> (r: Option<
    &'a Argument,
>)
    ensures
        match chosen(values@, environment@) {
            Some(argument) => r matches Some(found) && found@ == argument,
            None => r is None,
        },
{
    match values {
        ArgumentValues::Uniform(argument) => Some(argument),
        ArgumentValues::Varying(by_environment) => lookup(by_environment, environment),
    }
}

/// Resolves one argument for a run on this machine. `variables` are the
/// variables of the machine's environment, by name.
pub fn resolve_argument_local<'a>(
    arg: &'a ArgumentValues,
    environment: &str,
    variables: &Vec<(String, String)>,
) -> (r: Result<Option<(&'a Argument, String)>, RunError>)
    ensures
        match resolved_local(arg@, environment@, viewed(variables@)) {
            Ok(Some((argument, text))) => r matches Ok(Some(found)) && found.0@ == argument
                && found.1@ == text,
            Ok(None) => r matches Ok(None),
            Err(e) => r matches Err(error) && error@ == e,
        },
{
    let single = match choose_argument(arg, environment) {
        None => {
            return Ok(None);
        },
        Some(argument) => argument,
    };
    let text = match single {
        Argument::String(s) => s.clone(),
        Argument::FileVariable(v) => {
            let key = as_env_key(v.name.as_str());
            match lookup(variables, key.as_str()) {
                Some(value) => value.clone(),
                None => {
                    return Err(RunError::FileVariableNotSet(key));
                },
            }
        },
        Argument::Port(p) => {
            let key = concat2("PORT_", as_env_key(p.name.as_str()).as_str());
            match lookup(variables, key.as_str()) {
                Some(value) => value.clone(),
                None => port_text(p.number),
            }
        },
        Argument::StringVariable(v) => {
            let key = as_env_key(v.name.as_str());
            match lookup(variables, key.as_str()) {
                Some(value) => value.clone(),
                None => {
                    return Err(RunError::StringVariableNotSet(key));
                },
            }
        },
    };
    Ok(Some((single, text)))
}

/// The texts of the arguments from `at` on that hold in the environment, in
/// order, after `so_far`.
pub open spec fn local_args_from(
    args: Seq<ArgumentValuesView>,
    at: int,
    environment: Seq<char>,
    variables: Seq<(Seq<char>, Seq<char>)>,
    so_far: Seq<Seq<char>>,
) -> Result<Seq<Seq<char>>, RunErrorView>
    decreases args.len() - at,
{
    if at < 0 || at >= args.len() {
        Ok(so_far)
    } else {
        match resolved_local(args[at], environment, variables) {
            Err(e) => Err(e),
            Ok(None) => local_args_from(args, at + 1, environment, variables, so_far),
            Ok(Some((_, text))) => local_args_from(
                args,
                at + 1,
                environment,
                variables,
                so_far.push(text),
            ),
        }
    }
}

/// The texts of the environment entries from `at` on that hold in the
/// environment, bound in `so_far` by name.
pub open spec fn local_env_from(
    env: Seq<(Seq<char>, ArgumentValuesView)>,
    at: int,
    environment: Seq<char>,
    variables: Seq<(Seq<char>, Seq<char>)>,
    so_far: Seq<(Seq<char>, Seq<char>)>,
) -> Result<Seq<(Seq<char>, Seq<char>)>, RunErrorView>
    decreases env.len() - at,
{
    if at < 0 || at >= env.len() {
        Ok(so_far)
    } else {
        match resolved_local(env[at].1, environment, variables) {
            Err(e) => Err(e),
            Ok(None) => local_env_from(env, at + 1, environment, variables, so_far),
            Ok(Some((_, text))) => local_env_from(
                env,
                at + 1,
                environment,
                variables,
                with_entry(so_far, env[at].0, text),
            ),
        }
    }
}

/// The command line and the environment of a run on this machine.
pub open spec fn local_config(
    app: ApplicationView,
    environment: Seq<char>,
    variables: Seq<(Seq<char>, Seq<char>)>,
) -> Result<(Seq<Seq<char>>, Seq<(Seq<char>, Seq<char>)>), RunErrorView> {
    match local_args_from(app.args, 0, environment, variables, Seq::empty()) {
        Err(e) => Err(e),
        Ok(args) => match local_env_from(app.env, 0, environment, variables, Seq::empty()) {
            Err(e) => Err(e),
            Ok(env) => Ok((args, env)),
        },
    }
}

/// The views of a vector of strings.
pub open spec fn lines(v: Seq<String>) -> Seq<Seq<char>> {
    Seq::new(v.len(), |i: int| v[i]@)
}

/// Builds the command line and the environment of a run on this machine. An
/// argument that varies and has no value for the environment is left out.
pub fn build_config_local(app: &Application, environment: &str, variables: &Vec<(String, String)>) -> (r:
    Result<(Vec<String>, Vec<(String, String)>), RunError>)
    ensures
        match local_config(app@, environment@, viewed(variables@)) {
            Ok((args, env)) => r matches Ok(made) && lines(made.0@) == args && viewed(made.1@)
                == env,
            Err(e) => r matches Err(error) && error@ == e,
        },
{
    let ghost wanted_args = values_view(app.args@);
    let ghost wanted_env = viewed(app.env@);
    let ghost known = viewed(variables@);
    let mut args: Vec<String> = Vec::new();
    let mut i: usize = 0;
    proof {
        assert(lines(args@) =~= Seq::empty());
    }
    while i < app.args.len()
        invariant
            0 <= i <= app.args@.len(),
            wanted_args == values_view(app.args@),
            wanted_args == app@.args,
            known == viewed(variables@),
            local_args_from(wanted_args, 0, environment@, known, Seq::empty()) == local_args_from(
                wanted_args,
                i as int,
                environment@,
                known,
                lines(args@),
            ),
        decreases app.args@.len() - i,
    {
        proof {
            assert(wanted_args[i as int] == app.args@[i as int]@);
        }
        let ghost before = lines(args@);
        match resolve_argument_local(&app.args[i], environment, variables) {
            Err(e) => {
                return Err(e);
            },
            Ok(None) => {},
            Ok(Some((_, text))) => {
                let ghost one = text@;
                args.push(text);
                proof {
                    assert(lines(args@) =~= before.push(one));
                }
            },
        }
        i += 1;
    }
    let mut env: Vec<(String, String)> = Vec::new();
    let mut j: usize = 0;
    proof {
        assert(viewed(env@) =~= Seq::empty());
    }
    while j < app.env.len()
        invariant
            0 <= j <= app.env@.len(),
            wanted_env == viewed(app.env@),
            wanted_env == app@.env,
            wanted_args == app@.args,
            known == viewed(variables@),
            local_args_from(wanted_args, 0, environment@, known, Seq::empty()) == Ok::<
                Seq<Seq<char>>,
                RunErrorView,
            >(lines(args@)),
            local_env_from(wanted_env, 0, environment@, known, Seq::empty()) == local_env_from(
                wanted_env,
                j as int,
                environment@,
                known,
                viewed(env@),
            ),
        decreases app.env@.len() - j,
    {
        proof {
            assert(wanted_env[j as int] == (app.env@[j as int].0@, app.env@[j as int].1@));
        }
        match resolve_argument_local(&app.env[j].1, environment, variables) {
            Err(e) => {
                return Err(e);
            },
            Ok(None) => {},
            Ok(Some((_, text))) => {
                put(&mut env, app.env[j].0.clone(), text);
            },
        }
        j += 1;
    }
    Ok((args, env))
}

} // verus!
