//! The initialization handle: one optional layer per initialization level,
//! driven by the host's per-level callbacks.

use vstd::prelude::*;

verus! {

/// Host value of the `Core` initialization level.
pub const INITIALIZATION_CORE: u32 = 0;

/// Host value of the `Servers` initialization level.
pub const INITIALIZATION_SERVERS: u32 = 1;

/// Host value of the `Scene` initialization level.
pub const INITIALIZATION_SCENE: u32 = 2;

/// Host value of the `Editor` initialization level.
pub const INITIALIZATION_EDITOR: u32 = 3;

/// An ordered phase of the host's startup and shutdown, lowest first.
#[derive(Clone, Copy, PartialEq, Eq, Structural, PartialOrd, Ord, Hash, Debug)]
pub enum InitLevel {
    Core,
    Servers,
    Scene,
    Editor,
}

/// Position of a level in the startup order.
pub open spec fn rank(level: InitLevel) -> nat {
    match level {
        InitLevel::Core => 0,
        InitLevel::Servers => 1,
        InitLevel::Scene => 2,
        InitLevel::Editor => 3,
    }
}

/// The level that a host value names; unknown values fall back to `Scene`.
pub open spec fn level_of_sys(v: u32) -> InitLevel {
    if v == INITIALIZATION_CORE {
        InitLevel::Core
    } else if v == INITIALIZATION_SERVERS {
        InitLevel::Servers
    } else if v == INITIALIZATION_SCENE {
        InitLevel::Scene
    } else if v == INITIALIZATION_EDITOR {
        InitLevel::Editor
    } else {
        InitLevel::Scene
    }
}

impl InitLevel {
    /// Reads a level handed over by the host; an unknown value means `Scene`.
    pub fn from_sys(level: u32) -> (r: InitLevel)
        ensures
            r == level_of_sys(level),
            level < 4 ==> rank(r) == level,
    {
        if level == INITIALIZATION_CORE {
            InitLevel::Core
        } else if level == INITIALIZATION_SERVERS {
            InitLevel::Servers
        } else if level == INITIALIZATION_SCENE {
            InitLevel::Scene
        } else if level == INITIALIZATION_EDITOR {
            InitLevel::Editor
        } else {
            InitLevel::Scene
        }
    }

    /// The host's value for this level.
    pub fn to_sys(self) -> (r: u32)
        ensures
            r == rank(self),
            level_of_sys(r) == self,
    {
        match self {
            InitLevel::Core => INITIALIZATION_CORE,
            InitLevel::Servers => INITIALIZATION_SERVERS,
            InitLevel::Scene => INITIALIZATION_SCENE,
            InitLevel::Editor => INITIALIZATION_EDITOR,
        }
    }
}

/// A unit of setup and teardown logic bound to one initialization level.
pub trait ExtensionLayer {
    fn initialize(&mut self);

    fn deinitialize(&mut self);
}

/// One call that the handle made on a registered layer.
#[derive(Clone, Copy, PartialEq, Eq, Structural, Debug)]
pub enum LayerEvent {
    Initialized(InitLevel),
    Deinitialized(InitLevel),
}

/// What the handle holds, seen abstractly: the levels with a layer, and the
/// calls made on layers so far, oldest first.
pub struct InitView {
    pub registered: Set<InitLevel>,
    pub events: Seq<LayerEvent>,
}

impl InitView {
    /// The lowest level with a layer, or `Scene` where none is registered.
    pub open spec fn lowest(self) -> InitLevel {
        if self.registered.contains(InitLevel::Core) {
            InitLevel::Core
        } else if self.registered.contains(InitLevel::Servers) {
            InitLevel::Servers
        } else if self.registered.contains(InitLevel::Scene) {
            InitLevel::Scene
        } else if self.registered.contains(InitLevel::Editor) {
            InitLevel::Editor
        } else {
            InitLevel::Scene
        }
    }

    /// The view after a layer is stored at `level`.
    pub open spec fn after_register(self, level: InitLevel) -> InitView {
        InitView { registered: self.registered.insert(level), events: self.events }
    }

    /// The view after the host's initialize callback for `level`.
    pub open spec fn after_init(self, level: InitLevel) -> InitView {
        if self.registered.contains(level) {
            InitView { registered: self.registered, events: self.events.push(LayerEvent::Initialized(level)) }
        } else {
            self
        }
    }

    /// The view after the host's deinitialize callback for `level`.
    pub open spec fn after_deinit(self, level: InitLevel) -> InitView {
        if self.registered.contains(level) {
            InitView { registered: self.registered, events: self.events.push(LayerEvent::Deinitialized(level)) }
        } else {
            self
        }
    }
}

/// With layers at `Scene` and `Core` only, the plugin asks to start at
/// `Core`, and the initialize callbacks for `Core` then `Scene` call each
/// layer's `initialize` exactly once, `Core`'s first.
pub proof fn lemma_layers_run_in_order(v: InitView)
    requires
        v.registered == set![InitLevel::Scene, InitLevel::Core],
    ensures
        v.lowest() == InitLevel::Core,
        v.after_init(InitLevel::Core).after_init(InitLevel::Scene).events == v.events + seq![
            LayerEvent::Initialized(InitLevel::Core),
            LayerEvent::Initialized(InitLevel::Scene),
        ],
{
    let w = v.after_init(InitLevel::Core);
    assert(w.registered.contains(InitLevel::Scene));
    assert(w.after_init(InitLevel::Scene).events =~= v.events + seq![
        LayerEvent::Initialized(InitLevel::Core),
        LayerEvent::Initialized(InitLevel::Scene),
    ]);
}

/// The registry of layers, at most one per level.
pub struct InitHandle<L> {
    core: Option<L>,
    servers: Option<L>,
    scene: Option<L>,
    editor: Option<L>,
    events: Ghost<Seq<LayerEvent>>,
}

impl<L> InitHandle<L> {
    /// The layer stored at `level`, if any.
    pub closed spec fn layer(&self, level: InitLevel) -> Option<L> {
        match level {
            InitLevel::Core => self.core,
            InitLevel::Servers => self.servers,
            InitLevel::Scene => self.scene,
            InitLevel::Editor => self.editor,
        }
    }

    pub closed spec fn view(&self) -> InitView {
        InitView {
            registered: Set::new(|l: InitLevel| self.layer(l) is Some),
            events: self.events@,
        }
    }

    /// An empty registry: no layer, no call made.
    pub fn new() -> (r: Self)
        ensures
            r.view().registered == Set::<InitLevel>::empty(),
            r.view().events == Seq::<LayerEvent>::empty(),
    {
        let r = InitHandle { core: None, servers: None, scene: None, editor: None, events: Ghost(Seq::empty()) };
        assert(r.view().registered =~= Set::<InitLevel>::empty());
        r
    }

    /// Stores `layer` at `level`, replacing the layer that was there.
    pub fn register_layer(&mut self, level: InitLevel, layer: L)
        ensures
            final(self).view() == old(self).view().after_register(level),
            final(self).layer(level) == Some(layer),
            forall|l: InitLevel| l != level ==> final(self).layer(l) == old(self).layer(l),
    {
        match level {
            InitLevel::Core => { self.core = Some(layer); },
            InitLevel::Servers => { self.servers = Some(layer); },
            InitLevel::Scene => { self.scene = Some(layer); },
            InitLevel::Editor => { self.editor = Some(layer); },
        }
        assert(self.view().registered =~= old(self).view().registered.insert(level));
    }

    /// The earliest level at which the host should call into the plugin.
    pub fn lowest_init_level(&self) -> (r: InitLevel)
        ensures
            r == self.view().lowest(),
    {
        if self.core.is_some() {
            InitLevel::Core
        } else if self.servers.is_some() {
            InitLevel::Servers
        } else if self.scene.is_some() {
            InitLevel::Scene
        } else if self.editor.is_some() {
            InitLevel::Editor
        } else {
            InitLevel::Scene
        }
    }
}

impl<L> Default for InitHandle<L> {
    fn default() -> (r: Self)
        ensures
            r.view().registered == Set::<InitLevel>::empty(),
            r.view().events == Seq::<LayerEvent>::empty(),
    {
        Self::new()
    }
}

impl<L: ExtensionLayer> InitHandle<L> {
    /// Runs the `initialize` of the layer at `level`; a level without a layer
    /// is left alone.
    pub fn run_init_function(&mut self, level: InitLevel)
        ensures
            final(self).view() == old(self).view().after_init(level),
            forall|l: InitLevel| l != level ==> final(self).layer(l) == old(self).layer(l),
    {
        let ghost before = self.view();
        let ran = match level {
            InitLevel::Core => match &mut self.core {
                Some(layer) => { layer.initialize(); true },
                None => false,
            },
            InitLevel::Servers => match &mut self.servers {
                Some(layer) => { layer.initialize(); true },
                None => false,
            },
            InitLevel::Scene => match &mut self.scene {
                Some(layer) => { layer.initialize(); true },
                None => false,
            },
            InitLevel::Editor => match &mut self.editor {
                Some(layer) => { layer.initialize(); true },
                None => false,
            },
        };
        if ran {
            self.events = Ghost(self.events@.push(LayerEvent::Initialized(level)));
        }
        assert(self.view().registered =~= before.registered);
    }

    /// Runs the `deinitialize` of the layer at `level`; a level without a layer
    /// is left alone.
    pub fn run_deinit_function(&mut self, level: InitLevel)
        ensures
            final(self).view() == old(self).view().after_deinit(level),
            forall|l: InitLevel| l != level ==> final(self).layer(l) == old(self).layer(l),
    {
        let ghost before = self.view();
        let ran = match level {
            InitLevel::Core => match &mut self.core {
                Some(layer) => { layer.deinitialize(); true },
                None => false,
            },
            InitLevel::Servers => match &mut self.servers {
                Some(layer) => { layer.deinitialize(); true },
                None => false,
            },
            InitLevel::Scene => match &mut self.scene {
                Some(layer) => { layer.deinitialize(); true },
                None => false,
            },
            InitLevel::Editor => match &mut self.editor {
                Some(layer) => { layer.deinitialize(); true },
                None => false,
            },
        };
        if ran {
            self.events = Ghost(self.events@.push(LayerEvent::Deinitialized(level)));
        }
        assert(self.view().registered =~= before.registered);
    }
}

/// The layer registered when the guest does not override registration. Guest
/// classes are registered by the host's class table; this layer has no state
/// of its own to set up or tear down.
pub struct DefaultLayer;

impl ExtensionLayer for DefaultLayer {
    fn initialize(&mut self) {
    }

    fn deinitialize(&mut self) {
    }
}

/// Registers the default layer at `Scene`.
pub fn default_init(handle: &mut InitHandle<DefaultLayer>)
    ensures
        final(handle).view() == old(handle).view().after_register(InitLevel::Scene),
{
    handle.register_layer(InitLevel::Scene, DefaultLayer);
}

/// A guest library: fills the registry when the host loads the plugin, and
/// says whether loading succeeded.
pub trait ExtensionLibrary {
    type Layer: ExtensionLayer;

    fn load_library(handle: &mut InitHandle<Self::Layer>) -> bool;
}

/// What the plugin's entry point reports back to the host.
#[derive(Clone, Copy, PartialEq, Eq, Structural, Debug)]
pub struct InitParams {
    /// Host value of the earliest level at which to call the plugin.
    pub minimum_initialization_level: u32,
    /// `1` where the library loaded, else `0`.
    pub success: u8,
}

/// What to report to the host for a filled registry and the library's own
/// verdict on loading.
pub fn init_params<L>(handle: &InitHandle<L>, success: bool) -> (r: InitParams)
    ensures
        r.minimum_initialization_level == rank(handle.view().lowest()),
        r.success == (if success { 1u8 } else { 0u8 }),
{
    let level = handle.lowest_init_level();
    InitParams { minimum_initialization_level: level.to_sys(), success: if success { 1 } else { 0 } }
}

/// The part of the plugin's entry point that decides: builds the registry
/// through the library's `load_library`, and what to report to the host.
pub fn load_library<E: ExtensionLibrary>() -> (r: (InitHandle<E::Layer>, InitParams))
    ensures
        r.1.minimum_initialization_level == rank(r.0.view().lowest()),
        r.1.success == 0 || r.1.success == 1,
{
    let mut handle = InitHandle::new();
    let success = E::load_library(&mut handle);
    let params = init_params(&handle, success);
    (handle, params)
}

} // verus!
