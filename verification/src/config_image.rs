//! What a configuration image describes: an application with its arguments,
//! its environment and its resource needs; and the constructors through which
//! a configuration program builds that description.
use crate::assoc::{lemma_without_other, put, take, value_of, viewed, with_entry};
use crate::text::{concat2, decimal, int_text, owned, port_text, signed_decimal, text_eq};
use vstd::prelude::*;

verus! {

/// The manifest at the root of an unpacked configuration image.
#[derive(Debug, Clone)]
pub struct ConfigImageIndex {
    pub binary_digest: String,
    pub binary_repository: String,
    pub config_entrypoint: String,
}

/// The transport protocol of a port.
#[derive(Debug, Clone, Copy, PartialEq, Eq, Structural)]
pub enum Protocol {
    TCP,
    UDP,
}

impl Protocol {
    /// The protocol's name.
    pub fn to_text(&self) -> (r: String)
        ensures
            r@ == protocol_name(*self),
    {
        match self {
            Protocol::TCP => owned("TCP"),
            Protocol::UDP => owned("UDP"),
        }
    }
}

/// The name of a protocol.
pub open spec fn protocol_name(protocol: Protocol) -> Seq<char> {
    match protocol {
        Protocol::TCP => "TCP"@,
        Protocol::UDP => "UDP"@,
    }
}

/// A port that the application listens on.
#[derive(Debug, Clone)]
pub struct Port {
    pub name: String,
    pub number: u16,
    pub protocol: Protocol,
}

/// A file whose content comes from a variable.
#[derive(Debug, Clone)]
pub struct FileVariable {
    pub name: String,
    pub path: String,
}

/// A text that comes from a variable.
#[derive(Debug, Clone)]
pub struct StringVariable {
    pub name: String,
}

/// One argument of the application.
#[derive(Debug, Clone)]
pub enum Argument {
    FileVariable(FileVariable),
    Port(Port),
    String(String),
    StringVariable(StringVariable),
}

/// The mathematical value of an `Argument`.
pub enum ArgumentView {
    FileVariable { name: Seq<char>, path: Seq<char> },
    Port { name: Seq<char>, number: int, protocol: Protocol },
    String(Seq<char>),
    StringVariable { name: Seq<char> },
}

impl View for Port {
    type V = ArgumentView;

    open spec fn view(&self) -> ArgumentView {
        ArgumentView::Port { name: self.name@, number: self.number as int, protocol: self.protocol }
    }
}

impl View for FileVariable {
    type V = ArgumentView;

    open spec fn view(&self) -> ArgumentView {
        ArgumentView::FileVariable { name: self.name@, path: self.path@ }
    }
}

impl View for StringVariable {
    type V = ArgumentView;

    open spec fn view(&self) -> ArgumentView {
        ArgumentView::StringVariable { name: self.name@ }
    }
}

impl View for Argument {
    type V = ArgumentView;

    open spec fn view(&self) -> ArgumentView {
        match self {
            Argument::FileVariable(v) => v@,
            Argument::Port(p) => p@,
            Argument::String(s) => ArgumentView::String(s@),
            Argument::StringVariable(v) => v@,
        }
    }
}

/// An argument that is the same in every environment, or one for each
/// environment that has it, in increasing order of the environments' names.
#[derive(Debug, Clone)]
pub enum ArgumentValues {
    Uniform(Argument),
    Varying(Vec<(String, Argument)>),
}

/// The mathematical value of an `ArgumentValues`.
pub enum ArgumentValuesView {
    Uniform(ArgumentView),
    Varying(Seq<(Seq<char>, ArgumentView)>),
}

impl View for ArgumentValues {
    type V = ArgumentValuesView;

    open spec fn view(&self) -> ArgumentValuesView {
        match self {
            ArgumentValues::Uniform(a) => ArgumentValuesView::Uniform(a@),
            ArgumentValues::Varying(entries) => ArgumentValuesView::Varying(viewed(entries@)),
        }
    }
}

/// The views of a vector of argument values.
pub open spec fn values_view(values: Seq<ArgumentValues>) -> Seq<ArgumentValuesView> {
    Seq::new(values.len(), |i: int| values[i]@)
}

/// What the application asks of the cluster, each map in increasing key order.
#[derive(Debug, Clone)]
pub struct Resources {
    pub requests: Vec<(String, ArgumentValues)>,
    pub limits: Vec<(String, ArgumentValues)>,
}

/// The mathematical value of a `Resources`.
pub struct ResourceNeeds {
    pub requests: Seq<(Seq<char>, ArgumentValuesView)>,
    pub limits: Seq<(Seq<char>, ArgumentValuesView)>,
}

impl View for Resources {
    type V = ResourceNeeds;

    open spec fn view(&self) -> ResourceNeeds {
        ResourceNeeds { requests: viewed(self.requests@), limits: viewed(self.limits@) }
    }
}

impl Default for Resources {
    fn default() -> (r: Resources)
        ensures
            r@ == no_needs(),
    {
        let r = Resources { requests: Vec::new(), limits: Vec::new() };
        proof {
            assert(r@.requests =~= Seq::empty());
            assert(r@.limits =~= Seq::empty());
        }
        r
    }
}

/// No requests and no limits.
pub open spec fn no_needs() -> ResourceNeeds {
    ResourceNeeds { requests: Seq::empty(), limits: Seq::empty() }
}

/// What a configuration program returns: the arguments in order, the
/// environment in increasing order of the variables' names, and the resources.
#[derive(Debug, Clone)]
pub struct Application {
    pub args: Vec<ArgumentValues>,
    pub env: Vec<(String, ArgumentValues)>,
    pub resources: Resources,
}

/// The mathematical value of an `Application`.
pub struct ApplicationView {
    pub args: Seq<ArgumentValuesView>,
    pub env: Seq<(Seq<char>, ArgumentValuesView)>,
    pub resources: ResourceNeeds,
}

impl View for Application {
    type V = ApplicationView;

    open spec fn view(&self) -> ApplicationView {
        ApplicationView {
            args: values_view(self.args@),
            env: viewed(self.env@),
            resources: self.resources@,
        }
    }
}

/// A value of the configuration language, as far as the constructors look at
/// it. A list stands for a list or a tuple; a dictionary has its entries in
/// the order of the program, and has text keys; an integer fits in 32 bits; a
/// float is held by its text. Every other value is `Other`.
#[derive(Debug)]
pub enum StarValue {
    NoneValue,
    Bool(bool),
    Int(i32),
    Float(String),
    Str(String),
    Port(Port),
    FileVariable(FileVariable),
    StringVariable(StringVariable),
    Resources(Resources),
    Application(Application),
    List(Vec<StarValue>),
    Dict(Vec<(String, StarValue)>),
    Other,
}

/// The mathematical value of a `StarValue`.
pub enum StarView {
    NoneValue,
    Bool(bool),
    Int(int),
    Float(Seq<char>),
    Str(Seq<char>),
    Argument(ArgumentView),
    Resources(ResourceNeeds),
    Application(ApplicationView),
    List(Seq<StarView>),
    Dict(Seq<(Seq<char>, StarView)>),
    Other,
}

/// The keys of the entries of a dictionary.
pub open spec fn entry_keys(entries: Seq<(String, StarValue)>) -> Seq<Seq<char>> {
    Seq::new(entries.len(), |i: int| entries[i].0@)
}

/// Keys and values put together, pair by pair.
pub open spec fn entries_of(keys: Seq<Seq<char>>, values: Seq<StarView>) -> Seq<
    (Seq<char>, StarView),
> {
    Seq::new(keys.len(), |i: int| (keys[i], values[i]))
}

impl View for StarValue {
    type V = StarView;

    open spec fn view(&self) -> StarView
        decreases self,
    {
        match self {
            StarValue::NoneValue => StarView::NoneValue,
            StarValue::Bool(b) => StarView::Bool(*b),
            StarValue::Int(i) => StarView::Int(*i as int),
            StarValue::Float(text) => StarView::Float(text@),
            StarValue::Str(text) => StarView::Str(text@),
            StarValue::Port(p) => StarView::Argument(p@),
            StarValue::FileVariable(v) => StarView::Argument(v@),
            StarValue::StringVariable(v) => StarView::Argument(v@),
            StarValue::Resources(r) => StarView::Resources(r@),
            StarValue::Application(a) => StarView::Application(a@),
            StarValue::List(items) => StarView::List(
                Seq::new(
                    items@.len(),
                    |i: int|
                        if 0 <= i < items@.len() {
                            items@[i].view()
                        } else {
                            StarView::NoneValue
                        },
                ),
            ),
            StarValue::Dict(entries) => StarView::Dict(
                entries_of(
                    entry_keys(entries@),
                    Seq::new(
                        entries@.len(),
                        |i: int|
                            if 0 <= i < entries@.len() {
                                entries@[i].1.view()
                            } else {
                                StarView::NoneValue
                            },
                    ),
                ),
            ),
            StarValue::Other => StarView::Other,
        }
    }
}

/// The views of the items of a list.
pub open spec fn list_view(items: Seq<StarValue>) -> Seq<StarView> {
    Seq::new(items.len(), |i: int| items[i]@)
}

/// The views of the entries of a dictionary.
pub open spec fn dict_view(entries: Seq<(String, StarValue)>) -> Seq<(Seq<char>, StarView)> {
    Seq::new(entries.len(), |i: int| (entries[i].0@, entries[i].1@))
}

/// The view of a list or a dictionary is the view of its items or entries.
pub proof fn lemma_star_children(value: StarValue)
    ensures
        value matches StarValue::List(items) ==> value@ == StarView::List(list_view(items@)),
        value matches StarValue::Dict(entries) ==> value@ == StarView::Dict(dict_view(entries@)),
{
    match value {
        StarValue::List(items) => {
            assert(value@ is List);
            assert(value@->List_0.len() == items@.len());
            assert forall|i: int| 0 <= i < items@.len() implies value@->List_0[i] == items@[i]@ by {}
            assert(value@->List_0 =~= list_view(items@));
        },
        StarValue::Dict(entries) => {
            assert(value@->Dict_0 =~= dict_view(entries@));
        },
        _ => {},
    }
}

/// The views of the entries after the first are the views after the first.
pub proof fn lemma_dict_tail(entries: Seq<(String, StarValue)>)
    requires
        entries.len() > 0,
    ensures
        dict_view(entries.remove(0)) == dict_view(entries).drop_first(),
        dict_view(entries)[0] == (entries[0].0@, entries[0].1@),
{
    assert(dict_view(entries.remove(0)) =~= dict_view(entries).drop_first());
}

/// The views of the items after the first are the views after the first.
pub proof fn lemma_list_tail(items: Seq<StarValue>)
    requires
        items.len() > 0,
    ensures
        list_view(items.remove(0)) == list_view(items).drop_first(),
        list_view(items)[0] == items[0]@,
{
    assert(list_view(items.remove(0)) =~= list_view(items).drop_first());
}

/// An error of a constructor, with the sentence that the program's author sees.
#[derive(Debug, Clone)]
pub struct ConfigError {
    pub message: String,
}

/// What a constructor gives: a value, or the sentence of its error.
pub type Built<T> = Result<T, Seq<char>>;

/// The caller gets the value or the error that the spec function gives.
pub open spec fn built_is<T: View>(r: Result<T, ConfigError>, expected: Built<T::V>) -> bool {
    match expected {
        Ok(value) => r matches Ok(made) && made@ == value,
        Err(message) => r matches Err(e) && e.message@ == message,
    }
}

/// The error with this sentence.
pub fn function_error(message: &str) -> (r: ConfigError)
    ensures
        r.message@ == message@,
{
    ConfigError { message: owned(message) }
}

/// The argument that a value stands for: a port, a file variable or a string
/// variable is itself; a boolean, a float, an integer or a text gives that
/// text; anything else is no argument.
pub open spec fn argument_of(value: StarView) -> Built<ArgumentView> {
    match value {
        StarView::Argument(a) => Ok(a),
        StarView::Bool(b) => Ok(
            ArgumentView::String(
                if b {
                    "true"@
                } else {
                    "false"@
                },
            ),
        ),
        StarView::Float(text) => Ok(ArgumentView::String(text)),
        StarView::Int(i) => Ok(ArgumentView::String(signed_decimal(i))),
        StarView::Str(text) => Ok(ArgumentView::String(text)),
        _ => Err("invalid argument"@),
    }
}

/// The arguments of the entries of a dictionary from `at` on, bound in `so_far`
/// by environment. An entry whose value is `None` is left out; the first entry
/// that is no argument gives its error.
pub open spec fn varying_from(
    entries: Seq<(Seq<char>, StarView)>,
    at: int,
    so_far: Seq<(Seq<char>, ArgumentView)>,
) -> Built<Seq<(Seq<char>, ArgumentView)>>
    decreases entries.len() - at,
{
    if at < 0 || at >= entries.len() {
        Ok(so_far)
    } else if entries[at].1 is NoneValue {
        varying_from(entries, at + 1, so_far)
    } else {
        match argument_of(entries[at].1) {
            Err(e) => Err(e),
            Ok(argument) => varying_from(
                entries,
                at + 1,
                with_entry(so_far, entries[at].0, argument),
            ),
        }
    }
}

/// The argument values that a value stands for: a dictionary gives one
/// argument for each environment, anything else the same argument for all.
pub open spec fn argument_values_of(value: StarView) -> Built<ArgumentValuesView> {
    match value {
        StarView::Dict(entries) => match varying_from(entries, 0, Seq::empty()) {
            Err(e) => Err(e),
            Ok(by_environment) => Ok(ArgumentValuesView::Varying(by_environment)),
        },
        _ => match argument_of(value) {
            Err(e) => Err(e),
            Ok(argument) => Ok(ArgumentValuesView::Uniform(argument)),
        },
    }
}

impl Argument {
    /// Reads one argument from a value of the configuration language.
    pub fn unpack_value(value: StarValue) -> (r: Result<Argument, ConfigError>)
        ensures
            built_is(r, argument_of(value@)),
    {
        match value {
            StarValue::Port(p) => Ok(Argument::Port(p)),
            StarValue::FileVariable(v) => Ok(Argument::FileVariable(v)),
            StarValue::StringVariable(v) => Ok(Argument::StringVariable(v)),
            StarValue::Bool(b) => Ok(
                Argument::String(
                    if b {
                        owned("true")
                    } else {
                        owned("false")
                    },
                ),
            ),
            StarValue::Float(text) => Ok(Argument::String(text)),
            StarValue::Int(i) => Ok(Argument::String(int_text(i))),
            StarValue::Str(text) => Ok(Argument::String(text)),
            _ => Err(function_error("invalid argument")),
        }
    }
}

impl ArgumentValues {
    /// Reads argument values from a value of the configuration language.
    pub fn unpack_value(value: StarValue) -> (r: Result<ArgumentValues, ConfigError>)
        ensures
            built_is(r, argument_values_of(value@)),
    {
        proof {
            lemma_star_children(value);
        }
        match value {
            StarValue::Dict(entries) => {
                let ghost all = dict_view(entries@);
                let mut entries = entries;
                let mut by_environment: Vec<(String, Argument)> = Vec::new();
                let ghost mut at: int = 0;
                proof {
                    assert(viewed(by_environment@) =~= Seq::empty());
                }
                while entries.len() > 0
                    invariant
                        0 <= at <= all.len(),
                        dict_view(entries@) == all.subrange(at, all.len() as int),
                        value@ == StarView::Dict(all),
                        varying_from(all, 0, Seq::empty()) == varying_from(
                            all,
                            at,
                            viewed(by_environment@),
                        ),
                    decreases entries@.len(),
                {
                    proof {
                        assert(dict_view(entries@).len() == entries@.len());
                        assert(dict_view(entries@)[0] == all[at]);
                    }
                    let ghost before = entries@;
                    let (key, item) = entries.remove(0);
                    proof {
                        lemma_dict_tail(before);
                        assert(all.subrange(at, all.len() as int).drop_first() =~= all.subrange(
                            at + 1,
                            all.len() as int,
                        ));
                    }
                    match item {
                        StarValue::NoneValue => {},
                        other => {
                            match Argument::unpack_value(other) {
                                Err(e) => {
                                    return Err(e);
                                },
                                Ok(argument) => {
                                    put(&mut by_environment, key, argument);
                                },
                            }
                        },
                    }
                    proof {
                        at = at + 1;
                    }
                }
                proof {
                    assert(at == all.len());
                }
                Ok(ArgumentValues::Varying(by_environment))
            },
            other => match Argument::unpack_value(other) {
                Err(e) => Err(e),
                Ok(argument) => Ok(ArgumentValues::Uniform(argument)),
            },
        }
    }
}

/// The argument values of a list's items from `at` on, in order, after `so_far`.
pub open spec fn values_from(items: Seq<StarView>, at: int, so_far: Seq<ArgumentValuesView>) -> Built<
    Seq<ArgumentValuesView>,
>
    decreases items.len() - at,
{
    if at < 0 || at >= items.len() {
        Ok(so_far)
    } else {
        match argument_values_of(items[at]) {
            Err(e) => Err(e),
            Ok(values) => values_from(items, at + 1, so_far.push(values)),
        }
    }
}

/// The argument values of a list or tuple, in order.
pub open spec fn unpacked_vec(name: Seq<char>, source: StarView) -> Built<Seq<ArgumentValuesView>> {
    match source {
        StarView::List(items) => values_from(items, 0, Seq::empty()),
        _ => Err(name + " must be a list or tuple"@),
    }
}

/// The argument values of a dictionary's entries from `at` on, bound in
/// `so_far` by key.
pub open spec fn named_values_from(
    entries: Seq<(Seq<char>, StarView)>,
    at: int,
    so_far: Seq<(Seq<char>, ArgumentValuesView)>,
) -> Built<Seq<(Seq<char>, ArgumentValuesView)>>
    decreases entries.len() - at,
{
    if at < 0 || at >= entries.len() {
        Ok(so_far)
    } else {
        match argument_values_of(entries[at].1) {
            Err(e) => Err(e),
            Ok(values) => named_values_from(
                entries,
                at + 1,
                with_entry(so_far, entries[at].0, values),
            ),
        }
    }
}

/// The argument values of a dictionary, by key.
pub open spec fn unpacked_map(name: Seq<char>, source: StarView) -> Built<
    Seq<(Seq<char>, ArgumentValuesView)>,
> {
    match source {
        StarView::Dict(entries) => named_values_from(entries, 0, Seq::empty()),
        _ => Err(name + " must be a list or tuple"@),
    }
}

/// The caller gets the sequence or the error that the spec function gives.
pub open spec fn values_are(
    r: Result<Vec<ArgumentValues>, ConfigError>,
    expected: Built<Seq<ArgumentValuesView>>,
) -> bool {
    match expected {
        Ok(values) => r matches Ok(made) && values_view(made@) == values,
        Err(message) => r matches Err(e) && e.message@ == message,
    }
}

/// The caller gets the map or the error that the spec function gives.
pub open spec fn named_values_are(
    r: Result<Vec<(String, ArgumentValues)>, ConfigError>,
    expected: Built<Seq<(Seq<char>, ArgumentValuesView)>>,
) -> bool {
    match expected {
        Ok(values) => r matches Ok(made) && viewed(made@) == values,
        Err(message) => r matches Err(e) && e.message@ == message,
    }
}

/// Reads the argument values of a dictionary. `name` is what the dictionary is
/// called in the error for a value that is none.
pub fn unpack_map(name: &str, source: StarValue) -> (r: Result<
    Vec<(String, ArgumentValues)>,
    ConfigError,
>)
    ensures
        named_values_are(r, unpacked_map(name@, source@)),
{
    proof {
        lemma_star_children(source);
    }
    match source {
        StarValue::Dict(entries) => {
            let ghost all = dict_view(entries@);
            let mut entries = entries;
            let mut values: Vec<(String, ArgumentValues)> = Vec::new();
            let ghost mut at: int = 0;
            proof {
                assert(viewed(values@) =~= Seq::empty());
            }
            while entries.len() > 0
                invariant
                    0 <= at <= all.len(),
                    dict_view(entries@) == all.subrange(at, all.len() as int),
                    source@ == StarView::Dict(all),
                    named_values_from(all, 0, Seq::empty()) == named_values_from(
                        all,
                        at,
                        viewed(values@),
                    ),
                decreases entries@.len(),
            {
                proof {
                    assert(dict_view(entries@).len() == entries@.len());
                    assert(dict_view(entries@)[0] == all[at]);
                }
                let ghost before = entries@;
                let (key, item) = entries.remove(0);
                proof {
                    lemma_dict_tail(before);
                    assert(all.subrange(at, all.len() as int).drop_first() =~= all.subrange(
                        at + 1,
                        all.len() as int,
                    ));
                }
                match ArgumentValues::unpack_value(item) {
                    Err(e) => {
                        return Err(e);
                    },
                    Ok(unpacked) => {
                        put(&mut values, key, unpacked);
                    },
                }
                proof {
                    at = at + 1;
                }
            }
            Ok(values)
        },
        _ => Err(function_error(concat2(name, " must be a list or tuple").as_str())),
    }
}

/// Reads the argument values of a list or a tuple. `name` is what the list is
/// called in the error for a value that is none.
pub fn unpack_vec(name: &str, source: StarValue) -> (r: Result<Vec<ArgumentValues>, ConfigError>)
    ensures
        values_are(r, unpacked_vec(name@, source@)),
{
    proof {
        lemma_star_children(source);
    }
    match source {
        StarValue::List(items) => {
            let ghost all = list_view(items@);
            let mut items = items;
            let mut values: Vec<ArgumentValues> = Vec::new();
            let ghost mut at: int = 0;
            proof {
                assert(values_view(values@) =~= Seq::empty());
            }
            while items.len() > 0
                invariant
                    0 <= at <= all.len(),
                    list_view(items@) == all.subrange(at, all.len() as int),
                    source@ == StarView::List(all),
                    values_from(all, 0, Seq::empty()) == values_from(all, at, values_view(values@)),
                decreases items@.len(),
            {
                proof {
                    assert(list_view(items@).len() == items@.len());
                    assert(list_view(items@)[0] == all[at]);
                }
                let ghost before = items@;
                let ghost values_before = values_view(values@);
                let item = items.remove(0);
                proof {
                    lemma_list_tail(before);
                    assert(all.subrange(at, all.len() as int).drop_first() =~= all.subrange(
                        at + 1,
                        all.len() as int,
                    ));
                }
                match ArgumentValues::unpack_value(item) {
                    Err(e) => {
                        return Err(e);
                    },
                    Ok(unpacked) => {
                        let ghost one = unpacked@;
                        values.push(unpacked);
                        proof {
                            assert(values_view(values@) =~= values_before.push(one));
                        }
                    },
                }
                proof {
                    at = at + 1;
                }
            }
            Ok(values)
        },
        _ => Err(function_error(concat2(name, " must be a list or tuple").as_str())),
    }
}

/// The text that a value holds, or the complaint where it is no text.
pub open spec fn text_of(value: StarView, complaint: Seq<char>) -> Built<Seq<char>> {
    match value {
        StarView::Str(text) => Ok(text),
        _ => Err(complaint),
    }
}

/// Reads a text from a value.
fn unpack_text(value: StarValue, complaint: &str) -> (r: Result<String, ConfigError>)
    ensures
        built_is(r, text_of(value@, complaint@)),
{
    match value {
        StarValue::Str(text) => Ok(text),
        _ => Err(function_error(complaint)),
    }
}

/// What `FileVariable(name=.., path=..)` gives: both must be texts.
pub open spec fn file_variable_from(name: StarView, path: StarView) -> Built<ArgumentView> {
    match text_of(name, "name must be a str"@) {
        Err(e) => Err(e),
        Ok(name_text) => match text_of(path, "path must be a str"@) {
            Err(e) => Err(e),
            Ok(path_text) => Ok(ArgumentView::FileVariable { name: name_text, path: path_text }),
        },
    }
}

/// What `StringVariable(name)` gives: the name must be a text.
pub open spec fn string_variable_from(name: StarView) -> Built<ArgumentView> {
    match text_of(name, "name must be a str"@) {
        Err(e) => Err(e),
        Ok(name_text) => Ok(ArgumentView::StringVariable { name: name_text }),
    }
}

/// The protocol that a value names: TCP where none is given.
pub open spec fn protocol_from(protocol: Option<StarView>) -> Built<Protocol> {
    match protocol {
        None => Ok(Protocol::TCP),
        Some(StarView::Str(text)) => if text == "TCP"@ {
            Ok(Protocol::TCP)
        } else if text == "UDP"@ {
            Ok(Protocol::UDP)
        } else {
            Err("protocol must be either TCP or UDP or None"@)
        },
        Some(_) => Err("protocol must be a str"@),
    }
}

/// What `Port(name=.., number=.., protocol=..)` gives: the name must be a
/// text, the number an integer from 0 to 65535, the protocol `TCP` or `UDP`
/// where it is given.
pub open spec fn port_from(name: StarView, number: StarView, protocol: Option<StarView>) -> Built<
    ArgumentView,
> {
    match text_of(name, "name must be a str"@) {
        Err(e) => Err(e),
        Ok(name_text) => match number {
            StarView::Int(i) => if 0 <= i <= 65535 {
                match protocol_from(protocol) {
                    Err(e) => Err(e),
                    Ok(p) => Ok(ArgumentView::Port { name: name_text, number: i, protocol: p }),
                }
            } else {
                Err("number must be a u16"@)
            },
            _ => Err("number must be an integer"@),
        },
    }
}

/// The map that an optional dictionary gives: empty where none is given.
pub open spec fn optional_map(name: Seq<char>, source: Option<StarView>) -> Built<
    Seq<(Seq<char>, ArgumentValuesView)>,
> {
    match source {
        Some(value) => unpacked_map(name, value),
        None => Ok(Seq::empty()),
    }
}

/// What `Resources(requests=.., limits=..)` gives.
pub open spec fn resources_from(requests: Option<StarView>, limits: Option<StarView>) -> Built<
    ResourceNeeds,
> {
    match optional_map("requests"@, requests) {
        Err(e) => Err(e),
        Ok(requested) => match optional_map("limits"@, limits) {
            Err(e) => Err(e),
            Ok(limited) => Ok(ResourceNeeds { requests: requested, limits: limited }),
        },
    }
}

/// What `Application(args=.., env=.., resources=..)` gives: no arguments, an
/// empty environment and no needs where they are not given.
pub open spec fn application_from(
    args: Option<StarView>,
    env: Option<StarView>,
    resources: Option<StarView>,
) -> Built<ApplicationView> {
    let listed = match args {
        Some(value) => unpacked_vec("args"@, value),
        None => Ok(Seq::empty()),
    };
    match listed {
        Err(e) => Err(e),
        Ok(arguments) => match optional_map("env"@, env) {
            Err(e) => Err(e),
            Ok(environment) => match resources {
                None => Ok(
                    ApplicationView { args: arguments, env: environment, resources: no_needs() },
                ),
                Some(StarView::Resources(needs)) => Ok(
                    ApplicationView { args: arguments, env: environment, resources: needs },
                ),
                Some(_) => Err("resources must be a Resources object"@),
            },
        },
    }
}

/// Reads an optional dictionary of argument values.
fn unpack_optional_map(name: &str, source: Option<StarValue>) -> (r: Result<
    Vec<(String, ArgumentValues)>,
    ConfigError,
>)
    ensures
        named_values_are(r, optional_map(name@, optional_star(source))),
{
    match source {
        Some(value) => unpack_map(name, value),
        None => {
            let empty: Vec<(String, ArgumentValues)> = Vec::new();
            proof {
                assert(viewed(empty@) =~= Seq::empty());
            }
            Ok(empty)
        },
    }
}

/// The view of an optional value.
pub open spec fn optional_star(value: Option<StarValue>) -> Option<StarView> {
    match value {
        Some(v) => Some(v@),
        None => None,
    }
}

impl FileVariable {
    /// Builds a file variable from the values given to its constructor.
    pub fn from_values(name: StarValue, path: StarValue) -> (r: Result<FileVariable, ConfigError>)
        ensures
            built_is(r, file_variable_from(name@, path@)),
    {
        let name_text = match unpack_text(name, "name must be a str") {
            Err(e) => {
                return Err(e);
            },
            Ok(text) => text,
        };
        let path_text = match unpack_text(path, "path must be a str") {
            Err(e) => {
                return Err(e);
            },
            Ok(text) => text,
        };
        Ok(FileVariable { name: name_text, path: path_text })
    }
}

impl StringVariable {
    /// Builds a string variable from the value given to its constructor.
    pub fn from_values(name: StarValue) -> (r: Result<StringVariable, ConfigError>)
        ensures
            built_is(r, string_variable_from(name@)),
    {
        match unpack_text(name, "name must be a str") {
            Err(e) => Err(e),
            Ok(text) => Ok(StringVariable { name: text }),
        }
    }
}

impl Port {
    /// Builds a port from the values given to its constructor.
    pub fn from_values(name: StarValue, number: StarValue, protocol: Option<StarValue>) -> (r:
        Result<Port, ConfigError>)
        ensures
            built_is(r, port_from(name@, number@, optional_star(protocol))),
    {
        let name_text = match unpack_text(name, "name must be a str") {
            Err(e) => {
                return Err(e);
            },
            Ok(text) => text,
        };
        let wide = match number {
            StarValue::Int(i) => i,
            _ => {
                return Err(function_error("number must be an integer"));
            },
        };
        if wide < 0 || wide > 65535 {
            return Err(function_error("number must be a u16"));
        }
        let protocol = match protocol {
            None => Protocol::TCP,
            Some(StarValue::Str(text)) => {
                if text_eq(text.as_str(), "TCP") {
                    Protocol::TCP
                } else if text_eq(text.as_str(), "UDP") {
                    Protocol::UDP
                } else {
                    return Err(function_error("protocol must be either TCP or UDP or None"));
                }
            },
            Some(_) => {
                return Err(function_error("protocol must be a str"));
            },
        };
        Ok(Port { name: name_text, number: wide as u16, protocol })
    }
}

impl Resources {
    /// Builds the resource needs from the values given to the constructor.
    pub fn from_values(requests: Option<StarValue>, limits: Option<StarValue>) -> (r: Result<
        Resources,
        ConfigError,
    >)
        ensures
            built_is(r, resources_from(optional_star(requests), optional_star(limits))),
    {
        let requested = match unpack_optional_map("requests", requests) {
            Err(e) => {
                return Err(e);
            },
            Ok(values) => values,
        };
        let limited = match unpack_optional_map("limits", limits) {
            Err(e) => {
                return Err(e);
            },
            Ok(values) => values,
        };
        Ok(Resources { requests: requested, limits: limited })
    }
}

impl Application {
    /// Builds the application from the values given to the constructor.
    pub fn from_values(
        args: Option<StarValue>,
        env: Option<StarValue>,
        resources: Option<StarValue>,
    ) -> (r: Result<Application, ConfigError>)
        ensures
            built_is(
                r,
                application_from(
                    optional_star(args),
                    optional_star(env),
                    optional_star(resources),
                ),
            ),
    {
        let arguments = match args {
            Some(value) => match unpack_vec("args", value) {
                Err(e) => {
                    return Err(e);
                },
                Ok(values) => values,
            },
            None => {
                let empty: Vec<ArgumentValues> = Vec::new();
                proof {
                    assert(values_view(empty@) =~= Seq::empty());
                }
                empty
            },
        };
        let environment = match unpack_optional_map("env", env) {
            Err(e) => {
                return Err(e);
            },
            Ok(values) => values,
        };
        let needs = match resources {
            None => Resources::default(),
            Some(StarValue::Resources(r)) => r,
            Some(_) => {
                return Err(function_error("resources must be a Resources object"));
            },
        };
        Ok(Application { args: arguments, env: environment, resources: needs })
    }
}

/// The value under `name` among the named arguments, or the complaint that it
/// is missing.
pub open spec fn required(arguments: Seq<(Seq<char>, StarView)>, name: Seq<char>) -> Built<
    StarView,
> {
    match value_of(arguments, name) {
        Some(value) => Ok(value),
        None => Err("missing argument "@ + name),
    }
}

/// What the constructor `constructor` gives for the named arguments: the
/// configuration language knows `Application`, `FileVariable`, `Port`,
/// `Resources` and `StringVariable`.
pub open spec fn constructed(constructor: Seq<char>, arguments: Seq<(Seq<char>, StarView)>) -> Built<
    StarView,
> {
    if constructor == "Application"@ {
        match application_from(
            value_of(arguments, "args"@),
            value_of(arguments, "env"@),
            value_of(arguments, "resources"@),
        ) {
            Err(e) => Err(e),
            Ok(application) => Ok(StarView::Application(application)),
        }
    } else if constructor == "FileVariable"@ {
        match required(arguments, "name"@) {
            Err(e) => Err(e),
            Ok(name) => match required(arguments, "path"@) {
                Err(e) => Err(e),
                Ok(path) => match file_variable_from(name, path) {
                    Err(e) => Err(e),
                    Ok(variable) => Ok(StarView::Argument(variable)),
                },
            },
        }
    } else if constructor == "Port"@ {
        match required(arguments, "name"@) {
            Err(e) => Err(e),
            Ok(name) => match required(arguments, "number"@) {
                Err(e) => Err(e),
                Ok(number) => match port_from(name, number, value_of(arguments, "protocol"@)) {
                    Err(e) => Err(e),
                    Ok(port) => Ok(StarView::Argument(port)),
                },
            },
        }
    } else if constructor == "Resources"@ {
        match resources_from(value_of(arguments, "requests"@), value_of(arguments, "limits"@)) {
            Err(e) => Err(e),
            Ok(needs) => Ok(StarView::Resources(needs)),
        }
    } else if constructor == "StringVariable"@ {
        match required(arguments, "name"@) {
            Err(e) => Err(e),
            Ok(name) => match string_variable_from(name) {
                Err(e) => Err(e),
                Ok(variable) => Ok(StarView::Argument(variable)),
            },
        }
    } else {
        Err("unknown constructor "@ + constructor)
    }
}

/// Takes a named argument that must be there.
fn take_required(arguments: &mut Vec<(String, StarValue)>, name: &str) -> (r: Result<
    StarValue,
    ConfigError,
>)
    ensures
        built_is(r, required(viewed(old(arguments)@), name@)),
        viewed(final(arguments)@) == crate::assoc::without_key(viewed(old(arguments)@), name@),
{
    match take(arguments, name) {
        Some(value) => Ok(value),
        None => Err(function_error(concat2("missing argument ", name).as_str())),
    }
}

/// Takes a named argument that may be missing.
fn take_optional(arguments: &mut Vec<(String, StarValue)>, name: &str) -> (r: Option<StarValue>)
    ensures
        optional_star(r) == value_of(viewed(old(arguments)@), name@),
        viewed(final(arguments)@) == crate::assoc::without_key(viewed(old(arguments)@), name@),
{
    take(arguments, name)
}

/// The names of the constructors' arguments are different texts.
proof fn lemma_argument_names()
    ensures
        "args"@ != "env"@,
        "args"@ != "resources"@,
        "env"@ != "resources"@,
        "name"@ != "path"@,
        "name"@ != "number"@,
        "name"@ != "protocol"@,
        "number"@ != "protocol"@,
        "requests"@ != "limits"@,
{
    reveal_strlit("args");
    reveal_strlit("env");
    reveal_strlit("resources");
    reveal_strlit("name");
    reveal_strlit("path");
    reveal_strlit("number");
    reveal_strlit("protocol");
    reveal_strlit("requests");
    reveal_strlit("limits");
    assert("args"@[0] != "env"@[0]);
    assert("args"@[0] != "resources"@[0]);
    assert("env"@[0] != "resources"@[0]);
    assert("name"@[0] != "path"@[0]);
    assert("name"@[1] != "number"@[1]);
    assert("name"@[0] != "protocol"@[0]);
    assert("number"@[0] != "protocol"@[0]);
    assert("requests"@[0] != "limits"@[0]);
}

/// The constructors that a configuration program can call, as one function
/// from the constructor's name and its named arguments to the value that the
/// call gives.
pub fn starlark_types(constructor: &str, arguments: Vec<(String, StarValue)>) -> (r: Result<
    StarValue,
    ConfigError,
>)
    ensures
        built_is(r, constructed(constructor@, viewed(arguments@))),
{
    let ghost given = viewed(arguments@);
    let mut arguments = arguments;
    proof {
        lemma_argument_names();
    }
    if text_eq(constructor, "Application") {
        let args = take_optional(&mut arguments, "args");
        let ghost after_args = viewed(arguments@);
        let env = take_optional(&mut arguments, "env");
        let ghost after_env = viewed(arguments@);
        let resources = take_optional(&mut arguments, "resources");
        proof {
            lemma_without_other(given, "args"@, "env"@);
            lemma_without_other(given, "args"@, "resources"@);
            lemma_without_other(after_args, "env"@, "resources"@);
        }
        match Application::from_values(args, env, resources) {
            Err(e) => Err(e),
            Ok(application) => Ok(StarValue::Application(application)),
        }
    } else if text_eq(constructor, "FileVariable") {
        let name = match take_required(&mut arguments, "name") {
            Err(e) => {
                return Err(e);
            },
            Ok(value) => value,
        };
        proof {
            lemma_without_other(given, "name"@, "path"@);
        }
        let path = match take_required(&mut arguments, "path") {
            Err(e) => {
                return Err(e);
            },
            Ok(value) => value,
        };
        match FileVariable::from_values(name, path) {
            Err(e) => Err(e),
            Ok(variable) => Ok(StarValue::FileVariable(variable)),
        }
    } else if text_eq(constructor, "Port") {
        let name = match take_required(&mut arguments, "name") {
            Err(e) => {
                return Err(e);
            },
            Ok(value) => value,
        };
        let ghost after_name = viewed(arguments@);
        proof {
            lemma_without_other(given, "name"@, "number"@);
            lemma_without_other(given, "name"@, "protocol"@);
        }
        let number = match take_required(&mut arguments, "number") {
            Err(e) => {
                return Err(e);
            },
            Ok(value) => value,
        };
        proof {
            lemma_without_other(after_name, "number"@, "protocol"@);
        }
        let protocol = take_optional(&mut arguments, "protocol");
        match Port::from_values(name, number, protocol) {
            Err(e) => Err(e),
            Ok(port) => Ok(StarValue::Port(port)),
        }
    } else if text_eq(constructor, "Resources") {
        let requests = take_optional(&mut arguments, "requests");
        proof {
            lemma_without_other(given, "requests"@, "limits"@);
        }
        let limits = take_optional(&mut arguments, "limits");
        match Resources::from_values(requests, limits) {
            Err(e) => Err(e),
            Ok(needs) => Ok(StarValue::Resources(needs)),
        }
    } else if text_eq(constructor, "StringVariable") {
        let name = match take_required(&mut arguments, "name") {
            Err(e) => {
                return Err(e);
            },
            Ok(value) => value,
        };
        match StringVariable::from_values(name) {
            Err(e) => Err(e),
            Ok(variable) => Ok(StarValue::StringVariable(variable)),
        }
    } else {
        Err(function_error(concat2("unknown constructor ", constructor).as_str()))
    }
}

/// What a configuration program must return: an application.
pub open spec fn returned_application(result: StarView) -> Built<ApplicationView> {
    match result {
        StarView::Application(application) => Ok(application),
        _ => Err("Config didn't return an Application"@),
    }
}

/// Takes the application out of what a configuration program returned.
pub fn get_config(result: StarValue) -> (r: Result<Application, ConfigError>)
    ensures
        built_is(r, returned_application(result@)),
{
    match result {
        StarValue::Application(application) => Ok(application),
        _ => Err(function_error("Config didn't return an Application")),
    }
}

impl Port {
    /// The port as it is shown: its name, its number and its protocol.
    pub fn to_text(&self) -> (r: String)
        ensures
            r@ == "Port(name="@ + self.name@ + ", number="@ + decimal(self.number as nat)
                + ", protocol="@ + protocol_name(self.protocol) + ")"@,
    {
        let mut out = concat2("Port(name=", self.name.as_str());
        out.append(", number=");
        out.append(port_text(self.number).as_str());
        out.append(", protocol=");
        out.append(self.protocol.to_text().as_str());
        out.append(")");
        out
    }
}

impl FileVariable {
    /// The file variable as it is shown: its name and its path.
    pub fn to_text(&self) -> (r: String)
        ensures
            r@ == "FileVariable(name="@ + self.name@ + ", path="@ + self.path@ + ")"@,
    {
        let mut out = concat2("FileVariable(name=", self.name.as_str());
        out.append(", path=");
        out.append(self.path.as_str());
        out.append(")");
        out
    }
}

impl StringVariable {
    /// The string variable as it is shown: its name.
    pub fn to_text(&self) -> (r: String)
        ensures
            r@ == "StringVariable(name="@ + self.name@ + ")"@,
    {
        let mut out = concat2("StringVariable(name=", self.name.as_str());
        out.append(")");
        out
    }
}

} // verus!
