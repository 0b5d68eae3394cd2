use stahl_core::registry::{builtin_modules, BuiltinModule};

#[test]
fn sandboxed_engine_has_no_network_modules() {
    let sandboxed = builtin_modules(true);
    assert!(!sandboxed.contains(&BuiltinModule::Tcp));
    assert!(!sandboxed.contains(&BuiltinModule::Http));
    assert!(!sandboxed.contains(&BuiltinModule::Polling));
    assert!(sandboxed.contains(&BuiltinModule::SandboxedFs));
    assert!(sandboxed.contains(&BuiltinModule::PortsWithoutFs));
    assert!(sandboxed.contains(&BuiltinModule::SandboxedPrelude));
}

#[test]
fn open_engine_has_network_modules_and_no_sandboxed_ones() {
    let open = builtin_modules(false);
    assert!(open.contains(&BuiltinModule::Tcp));
    assert!(open.contains(&BuiltinModule::Http));
    assert!(open.contains(&BuiltinModule::Polling));
    assert!(!open.contains(&BuiltinModule::SandboxedFs));
    assert_eq!(open.len(), 35);
    assert_eq!(open[0], BuiltinModule::HashMaps);
    assert_eq!(open[open.len() - 1], BuiltinModule::ImmutableVectors);
}
