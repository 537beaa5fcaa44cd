//! Turning a plugin source into a constructed plugin.
use crate::error::Error;
use crate::plugin::{Plugin, PluginBuilder, PluginInstance, PluginType};
use crate::version::{is_compatible, VERSION};
use std::path::PathBuf;
use vstd::prelude::*;

verus! {

/// `libloading::Library`, an opened shared library. The library is closed
/// when the value is dropped; nothing inside it is visible here.
#[verifier::external_type_specification]
#[verifier::external_body]
pub struct ExLibrary(libloading::Library);

/// The owner of a running plugin.
struct Holder<T: ?Sized> {
    boxed: Box<T>,
}

/// A constructed plugin together with what must stay alive for it: one unit,
/// owned by whoever holds it.
pub struct Resolved {
    source: PluginType,
    metadata: Plugin,
    // Fields are dropped in this order: the instance goes before the library
    // its code lives in.
    instance: Holder<dyn PluginInstance>,
    library: Option<libloading::Library>,
}

impl Resolved {
    /// The metadata recorded for the plugin.
    pub closed spec fn declared(&self) -> Plugin {
        self.metadata
    }

    /// The source the plugin was resolved from.
    pub closed spec fn origin(&self) -> PluginType {
        self.source
    }

    /// The box that holds the running plugin.
    pub closed spec fn held(&self) -> &Box<dyn PluginInstance> {
        &self.instance.boxed
    }

    /// The running plugin this unit owns.
    pub open spec fn running(&self) -> &dyn PluginInstance {
        &**self.held()
    }

    /// Whether the plugin's code lives in a shared library.
    pub open spec fn dynamic(&self) -> bool {
        self.origin() is Path
    }

    /// A library handle is held exactly when the source is a path.
    pub closed spec fn wf(&self) -> bool {
        self.library is Some <==> self.source is Path
    }

    /// A plugin made by a builder linked into the host; `metadata` is what
    /// the instance declared.
    pub fn from_builder(
        builder: &'static dyn PluginBuilder,
        instance: Box<dyn PluginInstance>,
        metadata: Plugin,
    ) -> (r: Self)
        ensures
            r.wf(),
            r.declared() == metadata,
            r.origin() == PluginType::Builder(builder),
            *r.held() == instance,
    {
        let owner = Holder { boxed: instance };
        Resolved { source: PluginType::Builder(builder), metadata, instance: owner, library: None }
    }

    /// A plugin constructed from the shared library at `path`; the unit takes
    /// the opened library with it.
    pub fn from_library(
        path: PathBuf,
        library: libloading::Library,
        instance: Box<dyn PluginInstance>,
        metadata: Plugin,
    ) -> (r: Self)
        ensures
            r.wf(),
            r.declared() == metadata,
            r.origin() == PluginType::Path(path),
            *r.held() == instance,
    {
        let owner = Holder { boxed: instance };
        Resolved {
            source: PluginType::Path(path),
            metadata,
            instance: owner,
            library: Some(library),
        }
    }

    /// The metadata recorded for the plugin.
    pub fn metadata(&self) -> (r: &Plugin)
        ensures
            *r == self.declared(),
    {
        &self.metadata
    }

    /// Where the plugin came from.
    pub fn source(&self) -> (r: &PluginType)
        ensures
            *r == self.origin(),
    {
        &self.source
    }

    /// The running plugin.
    pub fn instance(&self) -> (r: &dyn PluginInstance)
        ensures
            r == self.running(),
    {
        let held: &dyn PluginInstance = &**self.holder();
        return held;
    }

    /// The box that holds the running plugin.
    pub(crate) fn holder(&self) -> (r: &Box<dyn PluginInstance>)
        ensures
            r == self.held(),
    {
        &self.instance.boxed
    }
}

/// Resolves a builder source: on a constructed instance, the unit comes from
/// `builder` and holds that instance, the given metadata and no library; on
/// none, construction has failed.
pub fn finish_builder(
    builder: &'static dyn PluginBuilder,
    built: Option<(Box<dyn PluginInstance>, Plugin)>,
) -> (r: Result<Resolved, Error>)
    ensures
        match built {
            Some(pair) => r matches Ok(unit) && unit.wf() && unit.origin() == PluginType::Builder(
                builder,
            ) && unit.declared() == pair.1 && *unit.held() == pair.0,
            None => r matches Err(e) && e == Error::ConstructionFailed,
        },
{
    finish(PluginType::Builder(builder), built)
}

// What a builder's outcome resolves to, for the source the builder stands in.
fn finish(source: PluginType, built: Option<(Box<dyn PluginInstance>, Plugin)>) -> (r: Result<
    Resolved,
    Error,
>)
    requires
        source is Builder,
    ensures
        match built {
            Some(pair) => r matches Ok(unit) && unit.wf() && unit.origin() == source
                && unit.declared() == pair.1 && *unit.held() == pair.0,
            None => r matches Err(e) && e == Error::ConstructionFailed,
        },
{
    match built {
        Some(pair) => {
            let owner = Holder { boxed: pair.0 };
            Ok(Resolved { source, metadata: pair.1, instance: owner, library: None })
        },
        None => Err(Error::ConstructionFailed),
    }
}

/// Runs the builder and resolves its outcome. The builder decides whether an
/// instance comes out and what it declares; whatever it does, a success is a
/// well-formed unit whose source is `builder`, and the only failure is
/// `ConstructionFailed`.
pub fn resolve_builder(builder: &'static dyn PluginBuilder) -> (r: Result<Resolved, Error>)
    ensures
        match r {
            Ok(unit) => unit.wf() && unit.origin() == PluginType::Builder(builder),
            Err(e) => e == Error::ConstructionFailed,
        },
{
    let built = match builder.build() {
        Some(instance) => {
            let metadata = instance.metadata();
            Some((instance, metadata))
        },
        None => None,
    };
    finish(PluginType::Builder(builder), built)
}

/// Where the loading of a shared library stands.
#[derive(Debug, Clone, Copy, PartialEq, Eq, Structural)]
pub enum LoadState {
    /// The library is being opened.
    Opening,
    /// The library is open and its exports are being read.
    Inspecting,
    /// The constructor is running.
    Constructing,
    /// The plugin is constructed and ready to be registered.
    Loaded,
    /// Loading has ended with this error.
    Failed(Error),
}

/// What the host reports after it has carried out a step.
#[derive(Debug, Clone)]
pub enum LoadEvent {
    /// The file is missing, unreadable or not a loadable module.
    OpenFailed,
    /// The library is open.
    Opened,
    /// The library does not export the constructor.
    SymbolMissing,
    /// The library exports the constructor and declares this host version.
    SymbolFound(String),
    /// The constructor panicked or returned nothing.
    Faulted,
    /// The constructor returned an instance.
    Constructed,
    /// The time the caller allowed for loading is over.
    TimedOut,
}

/// What the host does next.
#[derive(Debug, Clone, Copy, PartialEq, Eq, Structural)]
pub enum LoadAction {
    /// Read the declared version and look for the constructor.
    Inspect,
    /// Call the constructor.
    Construct,
    /// Hand the plugin and its library to the registry.
    Enroll,
    /// Close the library if it is open and report this error.
    Abandon(Error),
    /// The event does not belong here; do nothing.
    Ignore,
}

/// The state after an event, and what to do then. A library is inspected
/// once it is open, its constructor is called only if the version it
/// declares is the host's, and the plugin is registered only once the
/// constructor has returned it. A timeout while loading is under way ends it
/// with `LoadError`. An event out of turn changes nothing.
pub open spec fn step(state: LoadState, event: LoadEvent) -> (LoadState, LoadAction) {
    match (state, event) {
        (LoadState::Opening, LoadEvent::OpenFailed) => fail(Error::LoadError),
        (LoadState::Opening, LoadEvent::Opened) => (LoadState::Inspecting, LoadAction::Inspect),
        (LoadState::Inspecting, LoadEvent::SymbolMissing) => fail(Error::SymbolNotFound),
        (LoadState::Inspecting, LoadEvent::SymbolFound(declared)) => if declared@ == VERSION@ {
            (LoadState::Constructing, LoadAction::Construct)
        } else {
            fail(Error::VersionMismatch)
        },
        (LoadState::Constructing, LoadEvent::Faulted) => fail(Error::ConstructionFailed),
        (LoadState::Constructing, LoadEvent::Constructed) => (
            LoadState::Loaded,
            LoadAction::Enroll,
        ),
        (LoadState::Opening, LoadEvent::TimedOut) => fail(Error::LoadError),
        (LoadState::Inspecting, LoadEvent::TimedOut) => fail(Error::LoadError),
        (LoadState::Constructing, LoadEvent::TimedOut) => fail(Error::LoadError),
        _ => (state, LoadAction::Ignore),
    }
}

/// Loading ends with `error`.
pub open spec fn fail(error: Error) -> (LoadState, LoadAction) {
    (LoadState::Failed(error), LoadAction::Abandon(error))
}

/// The state in which loading begins.
pub fn begin() -> (r: LoadState)
    ensures
        r == LoadState::Opening,
{
    LoadState::Opening
}

/// Moves the loading of a library on by one event.
pub fn advance(state: LoadState, event: &LoadEvent) -> (r: (LoadState, LoadAction))
    ensures
        r == step(state, *event),
{
    match state {
        LoadState::Opening => match event {
            LoadEvent::OpenFailed => abandon(Error::LoadError),
            LoadEvent::Opened => (LoadState::Inspecting, LoadAction::Inspect),
            LoadEvent::TimedOut => abandon(Error::LoadError),
            _ => (state, LoadAction::Ignore),
        },
        LoadState::Inspecting => match event {
            LoadEvent::SymbolMissing => abandon(Error::SymbolNotFound),
            LoadEvent::SymbolFound(declared) => {
                if is_compatible(declared.as_str()) {
                    (LoadState::Constructing, LoadAction::Construct)
                } else {
                    abandon(Error::VersionMismatch)
                }
            },
            LoadEvent::TimedOut => abandon(Error::LoadError),
            _ => (state, LoadAction::Ignore),
        },
        LoadState::Constructing => match event {
            LoadEvent::Faulted => abandon(Error::ConstructionFailed),
            LoadEvent::Constructed => (LoadState::Loaded, LoadAction::Enroll),
            LoadEvent::TimedOut => abandon(Error::LoadError),
            _ => (state, LoadAction::Ignore),
        },
        _ => (state, LoadAction::Ignore),
    }
}

fn abandon(error: Error) -> (r: (LoadState, LoadAction))
    ensures
        r == fail(error),
{
    (LoadState::Failed(error), LoadAction::Abandon(error))
}

/// The constructor of a library is called only after the library has been
/// inspected and found to declare the host's version.
pub proof fn law_construct_only_when_compatible(state: LoadState, event: LoadEvent)
    requires
        step(state, event).1 == LoadAction::Construct,
    ensures
        state == LoadState::Inspecting,
        event matches LoadEvent::SymbolFound(declared) && declared@ == VERSION@,
{
}

/// A plugin is handed to the registry only when its constructor has just
/// returned it.
pub proof fn law_enroll_only_when_constructed(state: LoadState, event: LoadEvent)
    requires
        step(state, event).1 == LoadAction::Enroll,
    ensures
        state == LoadState::Constructing,
        event is Constructed,
        step(state, event).0 == LoadState::Loaded,
{
}

/// Once loading has ended, in success or in failure, no event moves it.
pub proof fn law_ended_loading_stays(state: LoadState, event: LoadEvent)
    requires
        state == LoadState::Loaded || state is Failed,
    ensures
        step(state, event) == (state, LoadAction::Ignore),
{
}

} // verus!
