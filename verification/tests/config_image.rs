use sisyphus::config_image::{
    get_config, starlark_types, Application, Argument, ArgumentValues, FileVariable, Port,
    Protocol, Resources, StarValue, StringVariable,
};

fn text(s: &str) -> StarValue {
    StarValue::Str(s.to_string())
}

fn named(entries: Vec<(&str, StarValue)>) -> Vec<(String, StarValue)> {
    entries.into_iter().map(|(k, v)| (k.to_string(), v)).collect()
}

fn dict(entries: Vec<(&str, StarValue)>) -> StarValue {
    StarValue::Dict(named(entries))
}

fn port_of(value: StarValue) -> Port {
    match value {
        StarValue::Port(port) => port,
        other => panic!("Expected a Port, got {:?}", other),
    }
}

fn file_variable_of(value: StarValue) -> FileVariable {
    match value {
        StarValue::FileVariable(variable) => variable,
        other => panic!("Expected a FileVariable, got {:?}", other),
    }
}

fn string_variable_of(value: StarValue) -> StringVariable {
    match value {
        StarValue::StringVariable(variable) => variable,
        other => panic!("Expected a StringVariable, got {:?}", other),
    }
}

fn resources_of(value: StarValue) -> Resources {
    match value {
        StarValue::Resources(resources) => resources,
        other => panic!("Expected a Resources, got {:?}", other),
    }
}

fn application_of(value: StarValue) -> Application {
    get_config(value).unwrap()
}

// Test the constructors of the configuration language
#[test]
fn test_starlark_port_creation() {
    let result = starlark_types(
        "Port",
        named(vec![("name", text("http")), ("number", StarValue::Int(8080)), ("protocol", text("TCP"))]),
    )
    .unwrap();

    let port = port_of(result);
    assert_eq!(port.name, "http");
    assert_eq!(port.number, 8080);
    assert!(matches!(port.protocol, Protocol::TCP));
}

#[test]
fn test_starlark_port_default_protocol() {
    let result =
        starlark_types("Port", named(vec![("name", text("http")), ("number", StarValue::Int(8080))]))
            .unwrap();

    let port = port_of(result);
    assert!(matches!(port.protocol, Protocol::TCP));
}

#[test]
fn test_starlark_port_udp_protocol() {
    let result = starlark_types(
        "Port",
        named(vec![("name", text("dns")), ("number", StarValue::Int(53)), ("protocol", text("UDP"))]),
    )
    .unwrap();

    let port = port_of(result);
    assert!(matches!(port.protocol, Protocol::UDP));
}

#[test]
fn test_starlark_file_variable_creation() {
    let result = starlark_types(
        "FileVariable",
        named(vec![("name", text("config")), ("path", text("/etc/config.yaml"))]),
    )
    .unwrap();

    let fv = file_variable_of(result);
    assert_eq!(fv.name, "config");
    assert_eq!(fv.path, "/etc/config.yaml");
}

#[test]
fn test_starlark_string_variable_creation() {
    let result = starlark_types("StringVariable", named(vec![("name", text("my_var"))])).unwrap();

    let sv = string_variable_of(result);
    assert_eq!(sv.name, "my_var");
}

#[test]
fn test_starlark_resources_creation() {
    let result = starlark_types(
        "Resources",
        named(vec![
            ("requests", dict(vec![("cpu", text("100m")), ("memory", text("128Mi"))])),
            ("limits", dict(vec![("cpu", text("200m"))])),
        ]),
    )
    .unwrap();

    let resources = resources_of(result);
    assert_eq!(resources.requests.len(), 2);
    assert_eq!(resources.limits.len(), 1);
}

#[test]
fn test_starlark_application_creation() {
    let resources =
        starlark_types("Resources", named(vec![("requests", dict(vec![("cpu", text("100m"))]))]))
            .unwrap();
    let result = starlark_types(
        "Application",
        named(vec![
            ("args", StarValue::List(vec![text("arg1"), text("arg2")])),
            ("env", dict(vec![("KEY", text("value"))])),
            ("resources", resources),
        ]),
    )
    .unwrap();

    let app = application_of(result);
    assert_eq!(app.args.len(), 2);
    assert_eq!(app.env.len(), 1);
}

#[test]
fn test_starlark_application_with_port() {
    let port =
        starlark_types("Port", named(vec![("name", text("http")), ("number", StarValue::Int(8080))]))
            .unwrap();
    let result =
        starlark_types("Application", named(vec![("args", StarValue::List(vec![port]))])).unwrap();

    let app = application_of(result);
    assert_eq!(app.args.len(), 1);
}

#[test]
fn test_starlark_application_with_varying_args() {
    let result = starlark_types(
        "Application",
        named(vec![(
            "args",
            StarValue::List(vec![dict(vec![("prod", text("value1")), ("dev", text("value2"))])]),
        )]),
    )
    .unwrap();

    let app = application_of(result);
    assert_eq!(app.args.len(), 1);
    match &app.args[0] {
        ArgumentValues::Varying(map) => {
            assert_eq!(map.len(), 2);
            assert!(map.iter().any(|(k, _)| k == "prod"));
            assert!(map.iter().any(|(k, _)| k == "dev"));
        }
        _ => panic!("Expected Varying argument"),
    }
}

#[test]
fn test_starlark_application_with_none_values_filtered() {
    let result = starlark_types(
        "Application",
        named(vec![(
            "args",
            StarValue::List(vec![dict(vec![("prod", text("value1")), ("dev", StarValue::NoneValue)])]),
        )]),
    )
    .unwrap();

    let app = application_of(result);
    assert_eq!(app.args.len(), 1);
    match &app.args[0] {
        ArgumentValues::Varying(map) => {
            // None values should be filtered out
            assert_eq!(map.len(), 1);
            assert!(map.iter().any(|(k, _)| k == "prod"));
            assert!(!map.iter().any(|(k, _)| k == "dev"));
        }
        _ => panic!("Expected Varying argument"),
    }
}

#[test]
fn varying_arguments_are_in_key_order() {
    let values = ArgumentValues::unpack_value(dict(vec![
        ("prod", text("value1")),
        ("dev", text("value2")),
    ]))
    .unwrap();
    match values {
        ArgumentValues::Varying(map) => {
            let keys: Vec<&str> = map.iter().map(|(k, _)| k.as_str()).collect();
            assert_eq!(keys, vec!["dev", "prod"]);
        }
        _ => panic!("Expected Varying argument"),
    }
}

#[test]
fn primitive_arguments_become_texts() {
    let cases = vec![
        (StarValue::Bool(true), "true"),
        (StarValue::Bool(false), "false"),
        (StarValue::Int(-42), "-42"),
        (StarValue::Int(0), "0"),
        (StarValue::Float("1.5".to_string()), "1.5"),
        (text("plain"), "plain"),
    ];
    for (value, expected) in cases {
        match Argument::unpack_value(value).unwrap() {
            Argument::String(made) => assert_eq!(made, expected),
            other => panic!("Expected a text, got {:?}", other),
        }
    }
}

#[test]
fn other_values_are_no_arguments() {
    for value in
        vec![StarValue::NoneValue, StarValue::Other, StarValue::List(Vec::new()), dict(Vec::new())]
    {
        let error = Argument::unpack_value(value).unwrap_err();
        assert_eq!(error.message, "invalid argument");
    }
}

#[test]
fn constructors_reject_what_they_cannot_take() {
    let message = |constructor: &str, arguments: Vec<(&str, StarValue)>| {
        starlark_types(constructor, named(arguments)).unwrap_err().message
    };
    assert_eq!(
        message("Port", vec![("name", StarValue::Int(1)), ("number", StarValue::Int(80))]),
        "name must be a str"
    );
    assert_eq!(
        message("Port", vec![("name", text("http")), ("number", text("80"))]),
        "number must be an integer"
    );
    assert_eq!(
        message("Port", vec![("name", text("http")), ("number", StarValue::Int(65536))]),
        "number must be a u16"
    );
    assert_eq!(
        message("Port", vec![("name", text("http")), ("number", StarValue::Int(-1))]),
        "number must be a u16"
    );
    assert_eq!(
        message(
            "Port",
            vec![("name", text("http")), ("number", StarValue::Int(80)), ("protocol", StarValue::Int(6))]
        ),
        "protocol must be a str"
    );
    assert_eq!(
        message(
            "Port",
            vec![("name", text("http")), ("number", StarValue::Int(80)), ("protocol", text("SCTP"))]
        ),
        "protocol must be either TCP or UDP or None"
    );
    assert_eq!(
        message("FileVariable", vec![("name", text("config")), ("path", StarValue::Int(1))]),
        "path must be a str"
    );
    assert_eq!(message("FileVariable", vec![("name", text("config"))]), "missing argument path");
    assert_eq!(message("Application", vec![("args", text("x"))]), "args must be a list or tuple");
    assert_eq!(message("Application", vec![("env", text("x"))]), "env must be a list or tuple");
    assert_eq!(
        message("Application", vec![("resources", text("x"))]),
        "resources must be a Resources object"
    );
    assert_eq!(message("Service", vec![]), "unknown constructor Service");
}

#[test]
fn port_limits_are_accepted() {
    for number in [0, 65535] {
        let port = port_of(
            starlark_types(
                "Port",
                named(vec![("name", text("edge")), ("number", StarValue::Int(number))]),
            )
            .unwrap(),
        );
        assert_eq!(port.number as i32, number);
    }
}

#[test]
fn a_program_must_return_an_application() {
    let error = get_config(text("not it")).unwrap_err();
    assert_eq!(error.message, "Config didn't return an Application");
}

#[test]
fn values_are_shown_by_their_fields() {
    let port = Port { name: "http".to_string(), number: 8080, protocol: Protocol::UDP };
    assert_eq!(port.to_text(), "Port(name=http, number=8080, protocol=UDP)");
    assert_eq!(Protocol::TCP.to_text(), "TCP");
    let file = FileVariable { name: "tls".to_string(), path: "/etc/tls".to_string() };
    assert_eq!(file.to_text(), "FileVariable(name=tls, path=/etc/tls)");
    let variable = StringVariable { name: "token".to_string() };
    assert_eq!(variable.to_text(), "StringVariable(name=token)");
}
