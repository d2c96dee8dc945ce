use foundry_local_sdk::core_interop::CoreInterop;
use foundry_local_sdk::error::FoundryLocalError;
use foundry_local_sdk::native_library::{
    bootstrap_setting, dependency_outcome, library_name, resolve_library_path, search_order,
    windows_dependencies, LibrarySource, LoadAttempt, Platform,
};

fn reason<T>(result: Result<T, FoundryLocalError>) -> String {
    match result {
        Err(FoundryLocalError::LibraryLoad { reason }) => reason,
        _ => panic!("a library load error is expected"),
    }
}

#[test]
fn the_library_is_named_after_the_platform() {
    assert_eq!(library_name(Platform::Windows), "Microsoft.AI.Foundry.Local.Core.dll");
    assert_eq!(library_name(Platform::MacOs), "Microsoft.AI.Foundry.Local.Core.dylib");
    assert_eq!(library_name(Platform::Linux), "Microsoft.AI.Foundry.Local.Core.so");
}

#[test]
fn the_configured_path_comes_first() {
    assert_eq!(
        search_order(true, true, true),
        vec![
            LibrarySource::ConfiguredDirectory,
            LibrarySource::ConfiguredFile,
            LibrarySource::ExecutableDirectory,
            LibrarySource::BuildDirectory,
        ]
    );
    assert_eq!(search_order(false, true, false), vec![LibrarySource::ExecutableDirectory]);
    assert_eq!(search_order(false, false, false), Vec::<LibrarySource>::new());
}

#[test]
fn the_first_place_that_holds_the_library_is_picked() {
    let places = search_order(true, true, false);
    let picked = resolve_library_path("core.so", &places, &vec![false, true, true]);
    assert_eq!(picked.unwrap(), LibrarySource::ConfiguredFile);
    let picked = resolve_library_path("core.so", &places, &vec![false, false, true]);
    assert_eq!(picked.unwrap(), LibrarySource::ExecutableDirectory);
}

#[test]
fn the_directory_of_the_executable_comes_before_that_of_the_build() {
    let places = search_order(false, true, true);
    let picked = resolve_library_path("core.so", &places, &vec![true, true]);
    assert_eq!(picked.unwrap(), LibrarySource::ExecutableDirectory);
    let picked = resolve_library_path("core.so", &places, &vec![false, true]);
    assert_eq!(picked.unwrap(), LibrarySource::BuildDirectory);

    let places = search_order(true, true, true);
    let found = vec![false, false, true, true];
    let picked = resolve_library_path("core.so", &places, &found);
    assert_eq!(picked.unwrap(), LibrarySource::ExecutableDirectory);
}

#[test]
fn the_whole_search_follows_the_discovery_order() {
    let order = [
        LibrarySource::ConfiguredDirectory,
        LibrarySource::ConfiguredFile,
        LibrarySource::ExecutableDirectory,
        LibrarySource::BuildDirectory,
    ];
    for known in 0..8u8 {
        let places = search_order(known & 1 != 0, known & 2 != 0, known & 4 != 0);
        for there in 0..16u8 {
            let holds = |place: &LibrarySource| {
                let i = order.iter().position(|p| p == place).unwrap();
                there & (1 << i) != 0
            };
            let found: Vec<bool> = places.iter().map(holds).collect();
            let expected = order.iter().find(|p| places.contains(p) && holds(p)).copied();
            assert_eq!(resolve_library_path("core.so", &places, &found).ok(), expected);
        }
    }
}

#[test]
fn a_library_that_is_nowhere_is_an_error() {
    let places = search_order(true, false, false);
    assert_eq!(
        reason(resolve_library_path("core.so", &places, &vec![false, false])),
        "Could not locate native library 'core.so'. Set the FoundryLocalCorePath config option."
    );
}

#[test]
fn a_loaded_core_tells_whether_it_carries_bytes() {
    let attempt = |binary| LoadAttempt::Loaded {
        execute_command: Ok(()),
        execute_command_with_callback: Ok(()),
        execute_command_with_binary: binary,
    };
    assert!(CoreInterop::new("p", attempt(true)).unwrap().supports_binary);
    assert!(!CoreInterop::new("p", attempt(false)).unwrap().supports_binary);
}

#[test]
fn a_failed_load_names_the_path_and_the_cause() {
    let attempt = LoadAttempt::NotLoaded("no such file".to_string());
    assert_eq!(
        reason(CoreInterop::new("/x/core.so", attempt)),
        "Failed to load native library at /x/core.so: no such file"
    );
}

#[test]
fn a_missing_symbol_is_an_error() {
    let attempt = LoadAttempt::Loaded {
        execute_command: Err("gone".to_string()),
        execute_command_with_callback: Err("gone too".to_string()),
        execute_command_with_binary: true,
    };
    assert_eq!(
        reason(CoreInterop::new("p", attempt)),
        "Symbol 'execute_command' not found: gone"
    );
    let attempt = LoadAttempt::Loaded {
        execute_command: Ok(()),
        execute_command_with_callback: Err("gone too".to_string()),
        execute_command_with_binary: true,
    };
    assert_eq!(
        reason(CoreInterop::new("p", attempt)),
        "Symbol 'execute_command_with_callback' not found: gone too"
    );
}

#[test]
fn the_bootstrapper_runs_unless_configured() {
    assert_eq!(bootstrap_setting(false, true), Some(("Bootstrap", "true")));
    assert_eq!(bootstrap_setting(true, true), None);
    assert_eq!(bootstrap_setting(false, false), None);
}

#[test]
fn only_a_required_dependency_has_to_load() {
    let dependencies = windows_dependencies();
    assert_eq!(dependencies.len(), 3);
    assert_eq!(dependencies[0].file, "Microsoft.WindowsAppRuntime.Bootstrap.dll");
    assert_eq!(dependencies[1].file, "onnxruntime.dll");
    assert_eq!(dependencies[2].file, "onnxruntime-genai.dll");
    assert!(!dependency_outcome(&dependencies[0], Err("bad".to_string())).unwrap());
    assert!(dependency_outcome(&dependencies[0], Ok(())).unwrap());
    assert!(dependency_outcome(&dependencies[1], Ok(())).unwrap());
    assert_eq!(
        reason(dependency_outcome(&dependencies[2], Err("bad".to_string()))),
        "Failed to load dependency onnxruntime-genai.dll: bad"
    );
}
