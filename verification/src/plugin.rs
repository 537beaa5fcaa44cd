//! Plugin metadata, sources and identifiers.
use std::path::PathBuf;
use vstd::prelude::*;
use vstd::string::StringExecFns;

verus! {

/// Descriptive metadata carried by every plugin. It never changes once the
/// plugin is constructed.
#[derive(Debug)]
pub struct Plugin {
    pub name: &'static str,
    pub version: &'static str,
    pub author: &'static str,
}

impl Clone for Plugin {
    fn clone(&self) -> (r: Self)
        ensures
            r == *self,
    {
        Plugin { name: self.name, version: self.version, author: self.author }
    }
}

impl Default for Plugin {
    fn default() -> (r: Self)
        ensures
            r.name@ == ""@,
            r.version@ == ""@,
            r.author@ == ""@,
    {
        Plugin { name: "", version: "", author: "" }
    }
}

/// `std::path::PathBuf`, carried through the library without being inspected.
#[verifier::external_type_specification]
#[verifier::external_body]
pub struct ExPathBuf(std::path::PathBuf);

/// `PathBuf::clone`: the copy is a path like any other; nothing is claimed of it.
pub assume_specification[ <std::path::PathBuf as Clone>::clone ](
    p: &std::path::PathBuf,
) -> std::path::PathBuf;

/// A running plugin. What it does is its own business; the host only asks
/// for its metadata.
pub trait PluginInstance: Send + Sync {
    /// The metadata this plugin declares.
    fn metadata(&self) -> Plugin;
}

/// A factory for a plugin that is compiled into the host. It lives as long as
/// the process and is only ever read.
pub trait PluginBuilder: Send + Sync {
    /// Constructs the plugin, or returns `None` if it cannot be constructed.
    fn build(&self) -> Option<Box<dyn PluginInstance>>;
}

/// Where a plugin's code comes from.
#[derive(Clone)]
pub enum PluginType {
    /// A shared library at this path, loaded when the plugin is registered.
    Path(PathBuf),
    /// A builder linked into the host.
    Builder(&'static dyn PluginBuilder),
}

/// The text of a path source around the path as shown.
pub open spec fn framed_path(shown: Seq<char>) -> Seq<char> {
    "Path { path: "@ + shown + " }"@
}

/// Frames a path, already rendered as text, as a path source.
pub fn frame_path(shown: &str) -> (r: String)
    ensures
        r@ == framed_path(shown@),
{
    "Path { path: ".to_owned().concat(shown).concat(" }")
}

/// The text that `{:?}` shows for a path.
pub uninterp spec fn path_shown(path: PathBuf) -> Seq<char>;

/// `<PathBuf as Debug>::fmt`, through `format!`: the path as `{:?}` shows
/// it. The text depends on the path alone, so it is `path_shown` of the
/// path; what the text is, is not claimed.
#[verifier::external_body]
fn path_text(path: &PathBuf) -> (r: String)
    ensures
        r@ == path_shown(*path),
{
    format!("{:?}", path)
}

impl PluginType {
    /// The source as text for logs: `Builder` for a builder, and for a
    /// library its path as `{:?}` shows it, framed as `Path { path: .. }`.
    pub fn describe(&self) -> (r: String)
        ensures
            self is Builder ==> r@ == "Builder"@,
            self matches PluginType::Path(p) ==> r@ == framed_path(path_shown(*p)),
    {
        match self {
            PluginType::Path(path) => {
                let shown = path_text(path);
                frame_path(shown.as_str())
            },
            PluginType::Builder(_) => "Builder".to_owned(),
        }
    }

    /// Whether the plugin's code is loaded from a shared library.
    pub fn is_dynamic(&self) -> (r: bool)
        ensures
            r == (self is Path),
    {
        match self {
            PluginType::Path(_) => true,
            PluginType::Builder(_) => false,
        }
    }
}

impl From<PathBuf> for PluginType {
    fn from(path: PathBuf) -> Self {
        PluginType::Path(path)
    }
}

impl vstd::std_specs::convert::FromSpecImpl<PathBuf> for PluginType {
    open spec fn obeys_from_spec() -> bool {
        true
    }

    open spec fn from_spec(path: PathBuf) -> Self {
        PluginType::Path(path)
    }
}

impl From<&'static dyn PluginBuilder> for PluginType {
    fn from(builder: &'static dyn PluginBuilder) -> Self {
        PluginType::Builder(builder)
    }
}

impl vstd::std_specs::convert::FromSpecImpl<&'static dyn PluginBuilder> for PluginType {
    open spec fn obeys_from_spec() -> bool {
        true
    }

    open spec fn from_spec(builder: &'static dyn PluginBuilder) -> Self {
        PluginType::Builder(builder)
    }
}

/// The key by which a plugin is addressed, as a mathematical value.
pub ghost enum Key {
    Index(u64),
    Name(Seq<char>),
}

/// Addresses a registered plugin: by the number the registry gave it, or by
/// its name.
#[derive(Debug)]
pub enum PluginId {
    Index(u64),
    Name(String),
}

impl Clone for PluginId {
    fn clone(&self) -> (r: Self)
        ensures
            r == *self,
    {
        match self {
            PluginId::Index(i) => PluginId::Index(*i),
            PluginId::Name(n) => PluginId::Name(n.clone()),
        }
    }
}

impl View for PluginId {
    type V = Key;

    open spec fn view(&self) -> Key {
        match self {
            PluginId::Index(i) => Key::Index(*i),
            PluginId::Name(n) => Key::Name(n@),
        }
    }
}

impl PluginId {
    /// The identifier that addresses a plugin by `name`.
    pub fn named(name: &str) -> (r: PluginId)
        ensures
            r@ == Key::Name(name@),
    {
        PluginId::Name(name.to_owned())
    }
}

impl From<u64> for PluginId {
    fn from(value: u64) -> Self {
        PluginId::Index(value)
    }
}

impl vstd::std_specs::convert::FromSpecImpl<u64> for PluginId {
    open spec fn obeys_from_spec() -> bool {
        true
    }

    open spec fn from_spec(value: u64) -> Self {
        PluginId::Index(value)
    }
}

impl From<String> for PluginId {
    fn from(value: String) -> Self {
        PluginId::Name(value)
    }
}

impl vstd::std_specs::convert::FromSpecImpl<String> for PluginId {
    open spec fn obeys_from_spec() -> bool {
        true
    }

    open spec fn from_spec(value: String) -> Self {
        PluginId::Name(value)
    }
}

impl From<&str> for PluginId {
    fn from(value: &str) -> (r: Self)
        ensures
            r@ == Key::Name(value@),
    {
        PluginId::named(value)
    }
}

impl vstd::std_specs::convert::FromSpecImpl<&str> for PluginId {
    open spec fn obeys_from_spec() -> bool {
        false
    }

    open spec fn from_spec(value: &str) -> Self {
        arbitrary()
    }
}

} // verus!
