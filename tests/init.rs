use std::cell::RefCell;
use std::rc::Rc;

use gdext::init::{
    default_init, init_params, load_library, DefaultLayer, ExtensionLayer, ExtensionLibrary, InitHandle, InitLevel,
    InitParams,
};

struct Recorder {
    name: &'static str,
    log: Rc<RefCell<Vec<String>>>,
}

impl ExtensionLayer for Recorder {
    fn initialize(&mut self) {
        self.log.borrow_mut().push(format!("init {}", self.name));
    }

    fn deinitialize(&mut self) {
        self.log.borrow_mut().push(format!("deinit {}", self.name));
    }
}

fn recorder(name: &'static str, log: &Rc<RefCell<Vec<String>>>) -> Recorder {
    Recorder { name, log: Rc::clone(log) }
}

#[test]
fn init_layers_run_in_order() {
    let log = Rc::new(RefCell::new(Vec::new()));
    let mut handle = InitHandle::new();
    handle.register_layer(InitLevel::Scene, recorder("scene", &log));
    handle.register_layer(InitLevel::Core, recorder("core", &log));

    assert_eq!(handle.lowest_init_level(), InitLevel::Core);

    handle.run_init_function(InitLevel::Core);
    handle.run_init_function(InitLevel::Scene);
    assert_eq!(*log.borrow(), vec!["init core".to_string(), "init scene".to_string()]);

    handle.run_deinit_function(InitLevel::Scene);
    handle.run_deinit_function(InitLevel::Core);
    assert_eq!(
        *log.borrow(),
        vec![
            "init core".to_string(),
            "init scene".to_string(),
            "deinit scene".to_string(),
            "deinit core".to_string()
        ]
    );
}

#[test]
fn init_unregistered_level_is_noop() {
    let log = Rc::new(RefCell::new(Vec::new()));
    let mut handle = InitHandle::new();
    handle.register_layer(InitLevel::Editor, recorder("editor", &log));
    handle.run_init_function(InitLevel::Servers);
    handle.run_deinit_function(InitLevel::Core);
    assert!(log.borrow().is_empty());
    assert_eq!(handle.lowest_init_level(), InitLevel::Editor);
}

#[test]
fn init_lowest_level_defaults_to_scene() {
    let handle: InitHandle<DefaultLayer> = InitHandle::new();
    assert_eq!(handle.lowest_init_level(), InitLevel::Scene);
}

#[test]
fn init_lowest_level_servers() {
    let log = Rc::new(RefCell::new(Vec::new()));
    let mut handle = InitHandle::new();
    handle.register_layer(InitLevel::Editor, recorder("editor", &log));
    handle.register_layer(InitLevel::Servers, recorder("servers", &log));
    assert_eq!(handle.lowest_init_level(), InitLevel::Servers);
}

#[test]
fn init_register_replaces_layer() {
    let log = Rc::new(RefCell::new(Vec::new()));
    let mut handle = InitHandle::new();
    handle.register_layer(InitLevel::Scene, recorder("first", &log));
    handle.register_layer(InitLevel::Scene, recorder("second", &log));
    handle.run_init_function(InitLevel::Scene);
    assert_eq!(*log.borrow(), vec!["init second".to_string()]);
}

#[test]
fn init_level_sys_values() {
    assert_eq!(InitLevel::Core.to_sys(), 0);
    assert_eq!(InitLevel::Servers.to_sys(), 1);
    assert_eq!(InitLevel::Scene.to_sys(), 2);
    assert_eq!(InitLevel::Editor.to_sys(), 3);
    assert_eq!(InitLevel::from_sys(0), InitLevel::Core);
    assert_eq!(InitLevel::from_sys(1), InitLevel::Servers);
    assert_eq!(InitLevel::from_sys(2), InitLevel::Scene);
    assert_eq!(InitLevel::from_sys(3), InitLevel::Editor);
    assert_eq!(InitLevel::from_sys(17), InitLevel::Scene);
}

#[test]
fn init_levels_are_ordered() {
    assert!(InitLevel::Core < InitLevel::Servers);
    assert!(InitLevel::Servers < InitLevel::Scene);
    assert!(InitLevel::Scene < InitLevel::Editor);
}

#[test]
fn init_default_registers_scene() {
    let mut handle = InitHandle::new();
    default_init(&mut handle);
    assert_eq!(handle.lowest_init_level(), InitLevel::Scene);
    handle.run_init_function(InitLevel::Scene);
    handle.run_deinit_function(InitLevel::Scene);
}

struct CoreLibrary;

impl ExtensionLibrary for CoreLibrary {
    type Layer = DefaultLayer;

    fn load_library(handle: &mut InitHandle<DefaultLayer>) -> bool {
        handle.register_layer(InitLevel::Core, DefaultLayer);
        true
    }
}

struct FailingLibrary;

impl ExtensionLibrary for FailingLibrary {
    type Layer = DefaultLayer;

    fn load_library(handle: &mut InitHandle<DefaultLayer>) -> bool {
        default_init(handle);
        false
    }
}

#[test]
fn init_load_library_reports_params() {
    let (handle, params) = load_library::<CoreLibrary>();
    assert_eq!(params, InitParams { minimum_initialization_level: 0, success: 1 });
    assert_eq!(handle.lowest_init_level(), InitLevel::Core);

    let (_, params) = load_library::<FailingLibrary>();
    assert_eq!(params, InitParams { minimum_initialization_level: 2, success: 0 });
}

#[test]
fn init_params_report_lowest_level_and_verdict() {
    let mut handle = InitHandle::default();
    handle.register_layer(InitLevel::Servers, DefaultLayer);
    assert_eq!(init_params(&handle, true), InitParams { minimum_initialization_level: 1, success: 1 });
    assert_eq!(init_params(&handle, false), InitParams { minimum_initialization_level: 1, success: 0 });
}
