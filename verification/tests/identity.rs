use puniyu_plugin::plugin::frame_path;
use puniyu_plugin::{Error, Plugin, PluginBuilder, PluginId, PluginInstance, PluginType};
use std::path::PathBuf;

struct Nothing;

impl PluginBuilder for Nothing {
    fn build(&self) -> Option<Box<dyn PluginInstance>> {
        None
    }
}

#[test]
fn number_converts_to_index() {
    assert!(matches!(PluginId::from(7u64), PluginId::Index(7)));
    assert!(matches!(PluginId::from(0u64), PluginId::Index(0)));
    assert!(matches!(PluginId::from(u64::MAX), PluginId::Index(u64::MAX)));
}

#[test]
fn string_converts_to_name() {
    match PluginId::from(String::from("echo")) {
        PluginId::Name(n) => assert_eq!(n, "echo"),
        other => panic!("unexpected {:?}", other),
    }
    match PluginId::from("echo") {
        PluginId::Name(n) => assert_eq!(n, "echo"),
        other => panic!("unexpected {:?}", other),
    }
    match PluginId::named("7") {
        PluginId::Name(n) => assert_eq!(n, "7"),
        other => panic!("unexpected {:?}", other),
    }
}

#[test]
fn path_converts_to_path_source() {
    let source = PluginType::from(PathBuf::from("/plugins/libecho.so"));
    assert!(source.is_dynamic());
    match &source {
        PluginType::Path(p) => assert_eq!(p, &PathBuf::from("/plugins/libecho.so")),
        PluginType::Builder(_) => panic!("unexpected builder"),
    }
    let copy = source.clone();
    assert!(matches!(copy, PluginType::Path(_)));
}

#[test]
fn builder_converts_to_builder_source() {
    let b: &'static dyn PluginBuilder = &Nothing;
    let source = PluginType::from(b);
    assert!(!source.is_dynamic());
    assert!(matches!(source, PluginType::Builder(_)));
}

#[test]
fn default_metadata_is_empty() {
    let m = Plugin::default();
    assert_eq!(m.name, "");
    assert_eq!(m.version, "");
    assert_eq!(m.author, "");
}

#[test]
fn cloned_metadata_is_equal() {
    let m = Plugin { name: "echo", version: "1.0.0", author: "alice" };
    let c = m.clone();
    assert_eq!(c.name, "echo");
    assert_eq!(c.version, "1.0.0");
    assert_eq!(c.author, "alice");
}

#[test]
fn each_error_has_its_message() {
    assert_eq!(Error::LoadError.message(), "library could not be loaded");
    assert_eq!(Error::SymbolNotFound.message(), "constructor symbol not found");
    assert_eq!(Error::VersionMismatch.message(), "plugin targets another host version");
    assert_eq!(Error::ConstructionFailed.message(), "plugin construction failed");
    assert_eq!(Error::DuplicateName.message(), "plugin name already registered");
    assert_eq!(Error::NotFound.message(), "plugin not found");
}

#[test]
fn sources_describe_themselves() {
    let path = PluginType::from(PathBuf::from("/plugins/libecho.so"));
    assert_eq!(path.describe(), "Path { path: \"/plugins/libecho.so\" }");
    let b: &'static dyn PluginBuilder = &Nothing;
    assert_eq!(PluginType::from(b).describe(), "Builder");
}

#[test]
fn framed_path_wraps_the_shown_text() {
    assert_eq!(frame_path("\"a/b\""), "Path { path: \"a/b\" }");
    assert_eq!(frame_path(""), "Path { path:  }");
}

#[test]
fn cloned_identifier_is_equal() {
    assert!(matches!(PluginId::Index(5).clone(), PluginId::Index(5)));
    match PluginId::named("echo").clone() {
        PluginId::Name(n) => assert_eq!(n, "echo"),
        other => panic!("unexpected {:?}", other),
    }
}

#[test]
fn numeric_text_converts_to_name() {
    match PluginId::from("0") {
        PluginId::Name(n) => assert_eq!(n, "0"),
        other => panic!("unexpected {:?}", other),
    }
    match PluginId::from(String::from("42")) {
        PluginId::Name(n) => assert_eq!(n, "42"),
        other => panic!("unexpected {:?}", other),
    }
    match PluginId::from("") {
        PluginId::Name(n) => assert_eq!(n, ""),
        other => panic!("unexpected {:?}", other),
    }
}
