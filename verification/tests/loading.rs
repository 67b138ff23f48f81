use std::rc::Rc;

use plugin_core::declaration::{HostVersions, PluginDeclaration};
use plugin_core::errors::LoadError;
use plugin_core::interfaces::{PluginFactory, PluginLoader, PluginWorker};
use plugin_core::registry::ExternalPlugins;
use plugin_core::stats::{register, Loader};

fn host() -> HostVersions {
    HostVersions {
        rustc_version: String::from("rustc 1.70.0"),
        core_version: String::from("0.1.0"),
    }
}

fn decl(rustc_version: &str, core_version: &str) -> PluginDeclaration {
    PluginDeclaration {
        rustc_version: String::from(rustc_version),
        core_version: String::from(core_version),
    }
}

fn image() -> Rc<u64> {
    Rc::new(0u64)
}

#[test]
fn mismatched_rustc_version_fails_before_entry_point() {
    let plugins: ExternalPlugins<Loader, u64> = ExternalPlugins::new(host());
    let r = plugins.begin_load(Ok((decl("rustc 1.69.0", "0.1.0"), image())));
    assert!(matches!(r, Err(LoadError::VersionError(_))));
    // The entry point was never reached: nothing got registered.
    assert!(plugins.lookup("loader").is_none());
    assert!(plugins.registered_names().is_empty());
}

#[test]
fn mismatched_core_version_fails_before_entry_point() {
    let plugins: ExternalPlugins<Loader, u64> = ExternalPlugins::new(host());
    let r = plugins.begin_load(Ok((decl("rustc 1.70.0", "0.2.0"), image())));
    assert!(matches!(r, Err(LoadError::VersionError(_))));
    assert!(plugins.lookup("loader").is_none());
}

#[test]
fn both_versions_mismatched_fails() {
    let plugins: ExternalPlugins<Loader, u64> = ExternalPlugins::new(host());
    let r = plugins.begin_load(Ok((decl("rustc 1.69.0", "0.2.0"), image())));
    assert!(matches!(r, Err(LoadError::VersionError(_))));
}

#[test]
fn version_error_message_names_the_tags() {
    let plugins: ExternalPlugins<Loader, u64> = ExternalPlugins::new(host());
    let r = plugins.begin_load(Ok((decl("rustc 1.69.0", "0.1.0"), image())));
    match r {
        Err(e) => assert_eq!(
            e.message(),
            "incompatible rustc version: got rustc 1.69.0, expected rustc 1.70.0"
        ),
        Ok(_) => panic!("load must fail"),
    }
}

#[test]
fn open_failure_is_open_error_and_leaves_registry_unchanged() {
    let plugins: ExternalPlugins<Loader, u64> = ExternalPlugins::new(host());
    let r = plugins.begin_load(Err(String::from("no such file")));
    match r {
        Err(LoadError::OpenError(m)) => assert_eq!(m, "no such file"),
        _ => panic!("load must fail with OpenError"),
    }
    assert!(plugins.lookup("loader").is_none());
    assert!(plugins.registered_names().is_empty());
}

#[test]
fn well_formed_module_registers_one_loader() {
    let mut plugins: ExternalPlugins<Loader, u64> = ExternalPlugins::new(host());
    let mut registrar = plugins
        .begin_load(Ok((decl("rustc 1.70.0", "0.1.0"), image())))
        .expect("a compatible declaration is accepted");
    register(&mut registrar);
    plugins
        .finish_load(registrar)
        .expect("fresh name must be accepted");
    assert!(plugins.lookup("loader").is_some());
    assert!(plugins.lookup("other").is_none());
    assert!(plugins.lookup("load").is_none());
    assert_eq!(plugins.registered_names(), vec![String::from("loader")]);
}

#[test]
fn looked_up_loader_is_usable() {
    let mut plugins: ExternalPlugins<Loader, u64> = ExternalPlugins::new(host());
    let mut registrar = plugins
        .begin_load(Ok((decl("rustc 1.70.0", "0.1.0"), image())))
        .unwrap();
    register(&mut registrar);
    plugins.finish_load(registrar).unwrap();

    let bytes = vec![0u8; 32];
    let proxy = plugins.lookup("loader").unwrap();
    let factory = proxy.load_factory_from_bytes(&bytes);
    let mut worker = factory.new_worker();
    worker
        .consume_inputs(plugin_core::interfaces::DataBuffer { data: 3 })
        .unwrap();
    assert_eq!(worker.render(), "(3, 0)");
}

#[test]
fn duplicate_name_within_one_load_is_rejected_atomically() {
    let mut plugins: ExternalPlugins<Loader, u64> = ExternalPlugins::new(host());
    let mut registrar = plugins
        .begin_load(Ok((decl("rustc 1.70.0", "0.1.0"), image())))
        .unwrap();
    register(&mut registrar);
    register(&mut registrar);
    let r = plugins.finish_load(registrar);
    assert!(matches!(r, Err(LoadError::RegistrationError(_))));
    // All or nothing: the registry holds neither registration.
    assert!(plugins.lookup("loader").is_none());
    assert!(plugins.registered_names().is_empty());
}

#[test]
fn duplicate_name_across_loads_is_rejected_atomically() {
    let mut plugins: ExternalPlugins<Loader, u64> = ExternalPlugins::new(host());
    let mut registrar = plugins
        .begin_load(Ok((decl("rustc 1.70.0", "0.1.0"), image())))
        .unwrap();
    register(&mut registrar);
    plugins.finish_load(registrar).unwrap();

    let mut second = plugins
        .begin_load(Ok((decl("rustc 1.70.0", "0.1.0"), image())))
        .unwrap();
    register(&mut second);
    let r = plugins.finish_load(second);
    assert!(matches!(r, Err(LoadError::RegistrationError(_))));
    // The first registration is untouched.
    assert!(plugins.lookup("loader").is_some());
    assert_eq!(plugins.registered_names().len(), 1);
}

#[test]
fn worker_outlives_registry_and_factory() {
    let bytes = vec![0u8; 32];
    let mut worker;
    {
        let mut plugins: ExternalPlugins<Loader, u64> = ExternalPlugins::new(host());
        let mut registrar = plugins
            .begin_load(Ok((decl("rustc 1.70.0", "0.1.0"), image())))
            .unwrap();
        register(&mut registrar);
        plugins.finish_load(registrar).unwrap();
        let proxy = plugins.lookup("loader").unwrap();
        let factory = proxy.load_factory_from_bytes(&bytes);
        worker = factory.new_worker();
    }
    // The registry and the factory are gone; the worker keeps working.
    for v in 0..10 {
        worker
            .consume_inputs(plugin_core::interfaces::DataBuffer { data: v })
            .unwrap();
    }
    assert_eq!(worker.render(), "(4.5, 8.25)");
}
