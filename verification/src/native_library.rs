//! Where the native core library is looked for, and what its loading amounts to.
//!
//! Looking at the disk and loading a library are left to the caller, who reports
//! what was found.
use crate::core_interop::CoreInterop;
use crate::error;
use crate::error::{ErrorView, FoundryLocalError};
use vstd::prelude::*;

verus! {

/// The platforms that the native core is built for.
#[derive(Clone, Copy, PartialEq, Eq, Structural, Debug)]
pub enum Platform {
    Windows,
    MacOs,
    Linux,
}

/// The file extension of a shared library on a platform.
pub open spec fn library_extension(platform: Platform) -> Seq<char> {
    match platform {
        Platform::Windows => "dll"@,
        Platform::MacOs => "dylib"@,
        Platform::Linux => "so"@,
    }
}

/// The file name of the native core library on a platform.
pub fn library_name(platform: Platform) -> (res: String)
    ensures
        res@ == "Microsoft.AI.Foundry.Local.Core."@ + library_extension(platform),
{
    let mut name = "Microsoft.AI.Foundry.Local.Core.".to_owned();
    match platform {
        Platform::Windows => name.append("dll"),
        Platform::MacOs => name.append("dylib"),
        Platform::Linux => name.append("so"),
    }
    name
}

/// A place where the native core library may be.
#[derive(Clone, Copy, PartialEq, Eq, Structural, Debug)]
pub enum LibrarySource {
    /// The library's file name inside the configured directory.
    ConfiguredDirectory,
    /// The configured path itself, if it is a file.
    ConfiguredFile,
    /// The library's file name next to the running executable.
    ExecutableDirectory,
    /// The library's file name inside the directory known at compile time.
    BuildDirectory,
}

/// The places to look at, in order: the configured path, then the directory of the
/// executable, and at last the directory known at compile time. Each argument tells
/// whether the path that the place is made from is known.
pub open spec fn search_places(
    configured: bool,
    executable_directory: bool,
    build_directory: bool,
) -> Seq<LibrarySource> {
    let first = if configured {
        seq![LibrarySource::ConfiguredDirectory, LibrarySource::ConfiguredFile]
    } else {
        seq![]
    };
    let second = if executable_directory {
        seq![LibrarySource::ExecutableDirectory]
    } else {
        seq![]
    };
    let third = if build_directory {
        seq![LibrarySource::BuildDirectory]
    } else {
        seq![]
    };
    first + second + third
}

/// Lists the places to look at, in order.
pub fn search_order(configured: bool, executable_directory: bool, build_directory: bool) -> (res:
    Vec<LibrarySource>)
    ensures
        res@ == search_places(configured, executable_directory, build_directory),
{
    let mut res: Vec<LibrarySource> = Vec::new();
    if configured {
        res.push(LibrarySource::ConfiguredDirectory);
        res.push(LibrarySource::ConfiguredFile);
    }
    if executable_directory {
        res.push(LibrarySource::ExecutableDirectory);
    }
    if build_directory {
        res.push(LibrarySource::BuildDirectory);
    }
    assert(res@ =~= search_places(configured, executable_directory, build_directory));
    res
}

/// The first place that holds the library, if any does. `found` tells for each
/// place whether the library is there.
pub open spec fn first_found(places: Seq<LibrarySource>, found: Seq<bool>) -> Option<LibrarySource>
    decreases places.len(),
{
    if places.len() == 0 {
        None
    } else if found[0] {
        Some(places[0])
    } else {
        first_found(places.drop_first(), found.drop_first())
    }
}

/// The discovery order: a place is picked exactly when it holds the library and no
/// place before it does. If `i` is the number of places, none holds it.
pub proof fn law_first_place_wins(places: Seq<LibrarySource>, found: Seq<bool>, i: int)
    requires
        places.len() == found.len(),
        0 <= i <= places.len(),
        forall|j: int| 0 <= j < i ==> !#[trigger] found[j],
        i < places.len() ==> found[i],
    ensures
        first_found(places, found) == (if i < places.len() {
            Some(places[i])
        } else {
            None
        }),
    decreases places.len(),
{
    if i > 0 {
        let rest = found.drop_first();
        assert(!found[0]);
        assert forall|j: int| 0 <= j < i - 1 implies !#[trigger] rest[j] by {
            assert(!found[j + 1]);
        }
        law_first_place_wins(places.drop_first(), rest, i - 1);
    }
}

/// Whether the library was found at the given place.
pub open spec fn found_at(
    places: Seq<LibrarySource>,
    found: Seq<bool>,
    place: LibrarySource,
) -> bool {
    exists|i: int| 0 <= i < places.len() && #[trigger] places[i] == place && found[i]
}

/// The whole search: the configured path wins, be it the directory or the library
/// itself, then the directory of the executable, and at last the directory known at
/// compile time. A place whose path is not known is never picked.
pub proof fn law_discovery_order(
    configured: bool,
    executable_directory: bool,
    build_directory: bool,
    found: Seq<bool>,
)
    requires
        found.len() == search_places(configured, executable_directory, build_directory).len(),
    ensures
        ({
            let places = search_places(configured, executable_directory, build_directory);
            &&& first_found(places, found) == (if found_at(
                places,
                found,
                LibrarySource::ConfiguredDirectory,
            ) {
                Some(LibrarySource::ConfiguredDirectory)
            } else if found_at(places, found, LibrarySource::ConfiguredFile) {
                Some(LibrarySource::ConfiguredFile)
            } else if found_at(places, found, LibrarySource::ExecutableDirectory) {
                Some(LibrarySource::ExecutableDirectory)
            } else if found_at(places, found, LibrarySource::BuildDirectory) {
                Some(LibrarySource::BuildDirectory)
            } else {
                None
            })
            &&& places.contains(LibrarySource::ConfiguredDirectory) <==> configured
            &&& places.contains(LibrarySource::ConfiguredFile) <==> configured
            &&& places.contains(LibrarySource::ExecutableDirectory) <==> executable_directory
            &&& places.contains(LibrarySource::BuildDirectory) <==> build_directory
        }),
{
    let places = search_places(configured, executable_directory, build_directory);
    let n = places.len() as int;
    let i = if n > 0 && found[0] {
        0
    } else if n > 1 && found[1] {
        1
    } else if n > 2 && found[2] {
        2
    } else if n > 3 && found[3] {
        3
    } else {
        n
    };
    law_first_place_wins(places, found, i);
    assert(n > 0 ==> places.contains(places[0]));
    assert(n > 1 ==> places.contains(places[1]));
    assert(n > 2 ==> places.contains(places[2]));
    assert(n > 3 ==> places.contains(places[3]));
    assert(i < n ==> found_at(places, found, places[i]));
}

/// The reason given when the library is at none of the places.
pub open spec fn not_found_reason(library_name: Seq<char>) -> Seq<char> {
    "Could not locate native library '"@ + library_name
        + "'. Set the FoundryLocalCorePath config option."@
}

/// Picks the place to load the native core library from.
pub fn resolve_library_path(
    library_name: &str,
    places: &Vec<LibrarySource>,
    found: &Vec<bool>,
) -> (res: Result<LibrarySource, FoundryLocalError>)
    requires
        places@.len() == found@.len(),
    ensures
        match first_found(places@, found@) {
            Some(place) => res == Ok::<LibrarySource, FoundryLocalError>(place),
            None => res matches Err(e) && e@ == ErrorView::LibraryLoad(
                not_found_reason(library_name@),
            ),
        },
{
    let mut i: usize = 0;
    proof {
        assert(places@.skip(0) =~= places@);
        assert(found@.skip(0) =~= found@);
    }
    while i < places.len()
        invariant
            places@.len() == found@.len(),
            i <= places@.len(),
            first_found(places@.skip(i as int), found@.skip(i as int)) == first_found(
                places@,
                found@,
            ),
        decreases places@.len() - i,
    {
        proof {
            assert(places@.skip(i as int).drop_first() =~= places@.skip(i + 1));
            assert(found@.skip(i as int).drop_first() =~= found@.skip(i + 1));
        }
        if found[i] {
            return Ok(places[i]);
        }
        i = i + 1;
    }
    let mut what = "Could not locate native library '".to_owned();
    what.append(library_name);
    Err(error::library_load(what.as_str(), "'. Set the FoundryLocalCorePath config option."))
}

/// What came of loading the native core library. An error holds the text of its
/// cause.
#[derive(Debug)]
pub enum LoadAttempt {
    /// The library itself could not be loaded.
    NotLoaded(String),
    /// The library was loaded and its symbols were looked up.
    Loaded {
        execute_command: Result<(), String>,
        execute_command_with_callback: Result<(), String>,
        execute_command_with_binary: bool,
    },
}

/// The reason given when a symbol is missing.
pub open spec fn symbol_reason(symbol: Seq<char>, cause: Seq<char>) -> Seq<char> {
    "Symbol '"@ + symbol + "' not found: "@ + cause
}

/// What an attempt to load the library at `path` amounts to: whether the core
/// carries raw bytes, or the first thing that went wrong.
pub open spec fn load_outcome(path: Seq<char>, attempt: LoadAttempt) -> Result<bool, ErrorView> {
    match attempt {
        LoadAttempt::NotLoaded(cause) => Err(
            ErrorView::LibraryLoad("Failed to load native library at "@ + path + ": "@ + cause@),
        ),
        LoadAttempt::Loaded {
            execute_command,
            execute_command_with_callback,
            execute_command_with_binary,
        } => match (execute_command, execute_command_with_callback) {
            (Err(cause), _) => Err(
                ErrorView::LibraryLoad(symbol_reason("execute_command"@, cause@)),
            ),
            (Ok(_), Err(cause)) => Err(
                ErrorView::LibraryLoad(symbol_reason("execute_command_with_callback"@, cause@)),
            ),
            (Ok(_), Ok(_)) => Ok(execute_command_with_binary),
        },
    }
}

fn symbol_missing(symbol: &str, cause: &str) -> (res: FoundryLocalError)
    ensures
        res@ == ErrorView::LibraryLoad(symbol_reason(symbol@, cause@)),
{
    let mut what = "Symbol '".to_owned();
    what.append(symbol);
    what.append("' not found: ");
    error::library_load(what.as_str(), cause)
}

impl CoreInterop {
    /// The native core that an attempt to load it gave. The call that carries
    /// raw bytes may be missing, the others may not.
    pub fn new(path: &str, attempt: LoadAttempt) -> (res: Result<Self, FoundryLocalError>)
        ensures
            match load_outcome(path@, attempt) {
                Ok(supports_binary) => res matches Ok(core) && core.supports_binary
                    == supports_binary,
                Err(failure) => res matches Err(e) && e@ == failure,
            },
    {
        match attempt {
            LoadAttempt::NotLoaded(cause) => {
                let mut what = "Failed to load native library at ".to_owned();
                what.append(path);
                what.append(": ");
                Err(error::library_load(what.as_str(), cause.as_str()))
            },
            LoadAttempt::Loaded {
                execute_command,
                execute_command_with_callback,
                execute_command_with_binary,
            } => {
                if let Err(cause) = execute_command {
                    return Err(symbol_missing("execute_command", cause.as_str()));
                }
                if let Err(cause) = execute_command_with_callback {
                    return Err(symbol_missing("execute_command_with_callback", cause.as_str()));
                }
                Ok(CoreInterop { supports_binary: execute_command_with_binary })
            },
        }
    }
}

/// The setting to add so that the core runs the bootstrapper during its
/// initialization: when the bootstrap library lies next to the core and the
/// configuration does not decide itself.
pub fn bootstrap_setting(configured: bool, library_present: bool) -> (res: Option<
    (&'static str, &'static str),
>)
    ensures
        (!configured && library_present) ==> (res matches Some(entry) && entry.0@ == "Bootstrap"@
            && entry.1@ == "true"@),
        (configured || !library_present) ==> res is None,
{
    if !configured && library_present {
        Some(("Bootstrap", "true"))
    } else {
        None
    }
}

/// A library to load before the core, if it lies next to it.
#[derive(Debug)]
pub struct Dependency {
    pub file: String,
    /// Whether a failure to load it is an error.
    pub required: bool,
}

/// The view of a [`Dependency`]: its file name, and whether it is required.
pub open spec fn dependency_views(dependencies: Seq<Dependency>) -> Seq<(Seq<char>, bool)> {
    dependencies.map_values(|d: Dependency| (d.file@, d.required))
}

/// The libraries to load before the core on Windows, in order.
pub fn windows_dependencies() -> (res: Vec<Dependency>)
    ensures
        dependency_views(res@) == seq![
            ("Microsoft.WindowsAppRuntime.Bootstrap.dll"@, false),
            ("onnxruntime.dll"@, true),
            ("onnxruntime-genai.dll"@, true),
        ],
{
    let mut res: Vec<Dependency> = Vec::new();
    res.push(
        Dependency {
            file: "Microsoft.WindowsAppRuntime.Bootstrap.dll".to_owned(),
            required: false,
        },
    );
    res.push(Dependency { file: "onnxruntime.dll".to_owned(), required: true });
    res.push(Dependency { file: "onnxruntime-genai.dll".to_owned(), required: true });
    assert(dependency_views(res@) =~= seq![
        ("Microsoft.WindowsAppRuntime.Bootstrap.dll"@, false),
        ("onnxruntime.dll"@, true),
        ("onnxruntime-genai.dll"@, true),
    ]);
    res
}

/// Whether a dependency is to be kept loaded. A failure to load it is an error
/// if it is required, and ignored if it is not.
pub fn dependency_outcome(dependency: &Dependency, loaded: Result<(), String>) -> (res: Result<
    bool,
    FoundryLocalError,
>)
    ensures
        match loaded {
            Ok(_) => res == Ok::<bool, FoundryLocalError>(true),
            Err(cause) => if dependency.required {
                res matches Err(e) && e@ == ErrorView::LibraryLoad(
                    "Failed to load dependency "@ + dependency.file@ + ": "@ + cause@,
                )
            } else {
                res == Ok::<bool, FoundryLocalError>(false)
            },
        },
{
    match loaded {
        Ok(_) => Ok(true),
        Err(cause) => if dependency.required {
            let mut what = "Failed to load dependency ".to_owned();
            what.append(dependency.file.as_str());
            what.append(": ");
            Err(error::library_load(what.as_str(), cause.as_str()))
        } else {
            Ok(false)
        },
    }
}

/// A load succeeds exactly when the library was loaded and exports both calls that every core
/// has. Whether it exports the third one is taken over as it is. What failed first is
/// reported, with its whole cause.
pub proof fn law_load_reports_the_first_failure(
    path: Seq<char>,
    execute_command: Result<(), String>,
    execute_command_with_callback: Result<(), String>,
    execute_command_with_binary: bool,
    cause: String,
)
    ensures
        load_outcome(path, LoadAttempt::NotLoaded(cause)) == Err::<bool, ErrorView>(
            ErrorView::LibraryLoad("Failed to load native library at "@ + path + ": "@ + cause@),
        ),
        ({
            let outcome = load_outcome(
                path,
                LoadAttempt::Loaded {
                    execute_command,
                    execute_command_with_callback,
                    execute_command_with_binary,
                },
            );
            &&& execute_command is Ok && execute_command_with_callback is Ok ==> outcome == Ok::<
                bool,
                ErrorView,
            >(execute_command_with_binary)
            &&& execute_command matches Err(missing) ==> outcome == Err::<bool, ErrorView>(
                ErrorView::LibraryLoad("Symbol 'execute_command' not found: "@ + missing@),
            )
            &&& execute_command is Ok ==> (execute_command_with_callback matches Err(missing)
                ==> outcome == Err::<bool, ErrorView>(
                ErrorView::LibraryLoad(
                    "Symbol 'execute_command_with_callback' not found: "@ + missing@,
                ),
            ))
        }),
{
    reveal_strlit("Symbol '");
    reveal_strlit("' not found: ");
    reveal_strlit("execute_command");
    reveal_strlit("execute_command_with_callback");
    reveal_strlit("Symbol 'execute_command' not found: ");
    reveal_strlit("Symbol 'execute_command_with_callback' not found: ");
    assert("Symbol '"@ + "execute_command"@ + "' not found: "@
        =~= "Symbol 'execute_command' not found: "@);
    assert("Symbol '"@ + "execute_command_with_callback"@ + "' not found: "@
        =~= "Symbol 'execute_command_with_callback' not found: "@);
}

/// The library is named after the platform, a search without success names the library that
/// was looked for, and a dependency shows its whole name and whether it is required.
pub proof fn law_names_are_whole(library_name: Seq<char>, dependencies: Seq<Dependency>)
    ensures
        library_extension(Platform::Windows) == "dll"@,
        library_extension(Platform::MacOs) == "dylib"@,
        library_extension(Platform::Linux) == "so"@,
        not_found_reason(library_name) == "Could not locate native library '"@ + library_name
            + "'. Set the FoundryLocalCorePath config option."@,
        dependency_views(dependencies).len() == dependencies.len(),
        forall|i: int|
            0 <= i < dependencies.len() ==> #[trigger] dependency_views(dependencies)[i] == (
                dependencies[i].file@,
                dependencies[i].required,
            ),
{
}

} // verus!
