use tinychain_local::bridge::initialize;
use tinychain_local::container::AttrValue;
use tinychain_local::container::ModuleContainer;
use tinychain_local::diagnostic::Diagnostic;

fn populate_sample(mut container: ModuleContainer) -> (ModuleContainer, Result<(), Diagnostic>) {
    container.set("run".to_string(), AttrValue::Function(7));
    container.set("VERSION".to_string(), AttrValue::Text("1.0".to_string()));
    (container, Ok(()))
}

#[test]
fn successful_registration_scenario() {
    let container = ModuleContainer::new();
    let (container, status) = initialize(container, populate_sample);
    assert!(status.is_ok());
    assert_eq!(container.len(), 2);
    assert_eq!(
        container.get(&"run".to_string()),
        Some(&AttrValue::Function(7))
    );
    assert_eq!(
        container.get(&"VERSION".to_string()),
        Some(&AttrValue::Text("1.0".to_string()))
    );
}

#[test]
fn failed_registration_scenario() {
    let container = ModuleContainer::new();
    let (_container, status) = initialize(container, |c: ModuleContainer| {
        (
            c,
            Err(Diagnostic::new(
                "native init failed: missing config".to_string(),
            )),
        )
    });
    let diagnostic = status.expect_err("registration should have failed");
    assert_eq!(diagnostic.message(), "native init failed: missing config");
}

#[test]
fn pass_through_success_iff_provider_succeeds() {
    let (_, ok_status) = initialize(ModuleContainer::new(), |c: ModuleContainer| (c, Ok(())));
    assert!(ok_status.is_ok());

    let (_, err_status) = initialize(ModuleContainer::new(), |c: ModuleContainer| {
        (c, Err(Diagnostic::new("refused".to_string())))
    });
    assert!(err_status.is_err());
}

#[test]
fn no_extraneous_mutation() {
    // A provider that writes nothing leaves the container exactly empty:
    // the bridge adds nothing of its own.
    let (untouched, status) = initialize(ModuleContainer::new(), |c: ModuleContainer| (c, Ok(())));
    assert!(status.is_ok());
    assert_eq!(untouched.len(), 0);

    // The bridge's outcome equals a direct invocation of the provider.
    let (through_bridge, _) = initialize(ModuleContainer::new(), populate_sample);
    let (direct, _) = populate_sample(ModuleContainer::new());
    assert_eq!(through_bridge.len(), direct.len());
    for name in ["run", "VERSION"] {
        assert_eq!(
            through_bridge.get(&name.to_string()),
            direct.get(&name.to_string())
        );
    }
}

#[test]
fn independent_sequential_runs() {
    let (first, first_status) = initialize(ModuleContainer::new(), populate_sample);
    let (second, second_status) = initialize(ModuleContainer::new(), populate_sample);
    assert!(first_status.is_ok());
    assert!(second_status.is_ok());
    assert_eq!(first.len(), second.len());
    for name in ["run", "VERSION"] {
        assert_eq!(first.get(&name.to_string()), second.get(&name.to_string()));
    }
}

#[test]
fn diagnostic_passthrough_verbatim() {
    let (_, status) = initialize(ModuleContainer::new(), |c: ModuleContainer| {
        (c, Err(Diagnostic::new("X".to_string())))
    });
    let diagnostic = status.expect_err("provider stub always fails");
    assert_eq!(diagnostic.message(), "X");
}

#[test]
fn failure_may_leave_partial_bindings() {
    // A provider is not required to fail atomically; the bridge performs no
    // rollback, so whatever the provider wrote before failing remains.
    let (container, status) = initialize(ModuleContainer::new(), |mut c: ModuleContainer| {
        c.set("run".to_string(), AttrValue::Function(7));
        (c, Err(Diagnostic::new("halted midway".to_string())))
    });
    assert!(status.is_err());
    assert_eq!(container.len(), 1);
    assert_eq!(
        container.get(&"run".to_string()),
        Some(&AttrValue::Function(7))
    );
}
