use launch_core::arguments::build_arguments;
use launch_core::classify::{classify, contains_substring};
use launch_core::descriptor::{
    resolve, ArgumentValue, JsonAdvanceArgument, JsonArgument, JsonArguments, JsonAssetsIndex,
    JsonDownload, JsonDownloads, JsonExtract, JsonLibrary, JsonVersion, MergeError,
};
use launch_core::extraction::{plan_entry, ExtractStep};
use launch_core::game_version::{java_command, GameVersion, LaunchConfig, LaunchError, LauncherCore};
use launch_core::identity::{
    account_kind, credentials, uuid_from_bytes, uuid_from_name, DeveloperUserType,
    IdentityError, UserResult, UserType,
};
use launch_core::paths::{lib_name_to_path, native_archive_path, split_coordinate, ResolveError};
use launch_core::rules::{applies, evaluate_rules, JsonOperatingSystem, JsonRule, Platform, RuleAction};
use launch_core::substitution::replace_variables;
use launch_core::system::arch;

fn platform(os: &str, arch: &str) -> Platform {
    Platform { os_name: os.to_string(), os_version: "10".to_string(), arch: arch.to_string() }
}

fn os_rule(action: RuleAction, name: &str) -> JsonRule {
    JsonRule {
        action,
        os: Some(JsonOperatingSystem { name: Some(name.to_string()), version: None, arch: None }),
    }
}

fn allow_all() -> JsonRule {
    JsonRule { action: RuleAction::Allow, os: None }
}

fn library(name: &str) -> JsonLibrary {
    JsonLibrary {
        name: name.to_string(),
        url: None,
        natives: None,
        rules: None,
        extract: None,
        checksums: None,
        downloads: None,
        is_client_requirement: false,
    }
}

fn download(path: &str) -> JsonDownload {
    JsonDownload { url: None, sha1: None, size: None, path: Some(path.to_string()) }
}

fn version(id: &str, parent: Option<&str>) -> JsonVersion {
    JsonVersion {
        id: id.to_string(),
        time: 0,
        release_time: 0,
        type_: None,
        arguments_old: None,
        arguments: JsonArguments { jvm: vec![], game: vec![] },
        minimum_launcher_version: None,
        libraries: vec![],
        asset_index: None,
        override_: parent.map(|p| p.to_string()),
        jar: None,
        assets: None,
        main_class: String::new(),
        downloads: vec![],
    }
}

fn vars(pairs: &[(&str, &str)]) -> Vec<(String, String)> {
    pairs.iter().map(|(k, v)| (k.to_string(), v.to_string())).collect()
}

fn names(libs: &[JsonLibrary]) -> Vec<String> {
    libs.iter().map(|l| l.name.clone()).collect()
}

#[test]
fn empty_rule_list_excludes_everything() {
    assert!(!applies(&vec![], &platform("linux", "x64")));
    assert!(!evaluate_rules(&vec![], &platform("windows", "x86"), false));
}

#[test]
fn deny_revokes_default_allow_only_on_that_platform() {
    let rules = vec![allow_all(), os_rule(RuleAction::Deny, "osx")];
    assert!(!applies(&rules, &platform("osx", "x64")));
    assert!(applies(&rules, &platform("linux", "x64")));
    assert!(applies(&rules, &platform("windows", "x64")));
}

#[test]
fn allow_for_other_platform_excludes_current() {
    let rules = vec![os_rule(RuleAction::Allow, "windows")];
    assert!(!applies(&rules, &platform("linux", "x64")));
    assert!(applies(&rules, &platform("windows", "x64")));
}

#[test]
fn os_names_compare_without_case() {
    let rules = vec![os_rule(RuleAction::Allow, "Linux")];
    assert!(applies(&rules, &platform("linux", "x64")));
}

#[test]
fn version_predicates_never_match() {
    let rule = JsonRule {
        action: RuleAction::Allow,
        os: Some(JsonOperatingSystem {
            name: Some("linux".to_string()),
            version: Some("^10\\.".to_string()),
            arch: None,
        }),
    };
    assert!(!applies(&vec![rule], &platform("linux", "x64")));
}

#[test]
fn architecture_is_compared_exactly_when_checked() {
    let rule = JsonRule {
        action: RuleAction::Allow,
        os: Some(JsonOperatingSystem { name: None, version: None, arch: Some("x86".to_string()) }),
    };
    let rules = vec![rule];
    assert!(!evaluate_rules(&rules, &platform("linux", "x64"), true));
    assert!(evaluate_rules(&rules, &platform("linux", "x86"), true));
    assert!(evaluate_rules(&rules, &platform("linux", "x64"), false));
}

fn chain_link(id: &str, parent: Option<&str>, lib: &str, key: &str, path: &str) -> JsonVersion {
    let mut v = version(id, parent);
    v.libraries = vec![library(lib)];
    v.downloads = vec![(key.to_string(), download(path))];
    v
}

fn three_chain() -> Vec<JsonVersion> {
    vec![
        chain_link("a", Some("b"), "x:a:1", "client", "a.jar"),
        chain_link("b", Some("c"), "x:b:1", "server", "b.jar"),
        chain_link("c", None, "x:c:1", "client", "c.jar"),
    ]
}

fn download_path(v: &JsonVersion, key: &str) -> Option<String> {
    v.downloads.iter().find(|(k, _)| k == key).and_then(|(_, d)| d.path.clone())
}

#[test]
fn merge_concatenates_libraries_root_first() {
    let merged = resolve(three_chain()).ok().unwrap();
    assert_eq!(merged.id, "a");
    assert!(merged.override_.is_none());
    assert_eq!(names(&merged.libraries), vec!["x:c:1", "x:b:1", "x:a:1"]);
    assert_eq!(download_path(&merged, "client"), Some("a.jar".to_string()));
    assert_eq!(download_path(&merged, "server"), Some("b.jar".to_string()));
}

#[test]
fn merge_is_associative_over_three_links() {
    let direct = resolve(three_chain()).ok().unwrap();
    let mut chain = three_chain();
    let c = chain.pop().unwrap();
    let b = chain.pop().unwrap();
    let a = chain.pop().unwrap();
    let m = resolve(vec![b, c]).ok().unwrap();
    let staged = resolve(vec![a, m]).ok().unwrap();
    assert_eq!(names(&direct.libraries), names(&staged.libraries));
    for key in ["client", "server", "other"] {
        assert_eq!(download_path(&direct, key), download_path(&staged, key));
    }
}

#[test]
fn merge_scalars_leaf_wins_else_ancestor() {
    let mut leaf = version("leaf", Some("root"));
    leaf.type_ = Some("release".to_string());
    let mut root = version("root", None);
    root.type_ = Some("old".to_string());
    root.assets = Some("1.18".to_string());
    root.main_class = "net.minecraft.client.main.Main".to_string();
    let merged = resolve(vec![leaf, root]).ok().unwrap();
    assert_eq!(merged.type_, Some("release".to_string()));
    assert_eq!(merged.assets, Some("1.18".to_string()));
    assert_eq!(merged.main_class, "");
}

#[test]
fn merge_reports_missing_ancestor() {
    let chain = vec![version("a", Some("b")), version("c", None)];
    assert!(matches!(resolve(chain), Err(MergeError::MissingAncestor(p)) if p == "b"));
    let chain = vec![version("a", Some("b"))];
    assert!(matches!(resolve(chain), Err(MergeError::MissingAncestor(p)) if p == "b"));
    assert!(matches!(resolve(vec![]), Err(MergeError::EmptyChain)));
    let chain = vec![version("a", None), version("b", None)];
    assert!(matches!(resolve(chain), Err(MergeError::UnlinkedAncestor(p)) if p == "b"));
}

#[test]
fn set_to_json_merges_child_into_parent() {
    let child = chain_link("a", Some("b"), "x:a:1", "client", "a.jar");
    let mut parent = chain_link("b", None, "x:b:1", "client", "b.jar");
    child.set_to_json(&mut parent);
    assert_eq!(parent.id, "a");
    assert_eq!(names(&parent.libraries), vec!["x:b:1", "x:a:1"]);
    assert_eq!(download_path(&parent, "client"), Some("a.jar".to_string()));
}

#[test]
fn coordinate_with_classifier_resolves_to_path() {
    let p = lib_name_to_path("org.lwjgl:lwjgl:3.3.1:natives-windows".to_string());
    assert_eq!(p.ok().unwrap(), "org/lwjgl/lwjgl/3.3.1/lwjgl-3.3.1-natives-windows.jar");
}

#[test]
fn coordinate_without_classifier_resolves_to_path() {
    let p = lib_name_to_path("com.mojang:brigadier:1.0.18".to_string());
    assert_eq!(p.ok().unwrap(), "com/mojang/brigadier/1.0.18/brigadier-1.0.18.jar");
}

#[test]
fn short_coordinate_is_malformed() {
    let p = lib_name_to_path("org.lwjgl:lwjgl".to_string());
    assert!(matches!(p, Err(ResolveError::MalformedCoordinate(n)) if n == "org.lwjgl:lwjgl"));
}

#[test]
fn split_keeps_empty_segments() {
    assert_eq!(split_coordinate("a::b"), vec!["a", "", "b"]);
    assert_eq!(split_coordinate(""), vec![""]);
}

fn classified_native() -> JsonLibrary {
    let mut lib = library("org.lwjgl:lwjgl-platform:2.9.4");
    lib.natives = Some(vec![
        ("linux".to_string(), "natives-linux".to_string()),
        ("windows".to_string(), "natives-windows".to_string()),
    ]);
    lib.downloads = Some(JsonDownloads {
        artifact: download("org/lwjgl/lwjgl-platform.jar"),
        classifiers: Some(vec![(
            "natives-linux".to_string(),
            download("org/lwjgl/lwjgl-platform-natives-linux.jar"),
        )]),
    });
    lib
}

#[test]
fn native_archive_goes_through_classifier_maps() {
    let lib = classified_native();
    assert_eq!(
        native_archive_path(&lib, "linux").ok().unwrap(),
        "org/lwjgl/lwjgl-platform-natives-linux.jar"
    );
    assert!(matches!(
        native_archive_path(&lib, "windows"),
        Err(ResolveError::UnsupportedPlatform(c, k))
            if c == "org.lwjgl:lwjgl-platform:2.9.4" && k == "windows"
    ));
    assert!(matches!(
        native_archive_path(&lib, "osx"),
        Err(ResolveError::UnsupportedPlatform(c, k))
            if c == "org.lwjgl:lwjgl-platform:2.9.4" && k == "osx"
    ));
}

#[test]
fn native_archive_without_classifier_map_uses_coordinate() {
    let lib = library("org.lwjgl:lwjgl:3.3.1:natives-linux");
    assert_eq!(
        native_archive_path(&lib, "linux").ok().unwrap(),
        "org/lwjgl/lwjgl/3.3.1/lwjgl-3.3.1-natives-linux.jar"
    );
}

#[test]
fn plain_dependency_is_library_whatever_its_rules() {
    let mut lib = library("com.google.guava:guava:31.0.1-jre");
    lib.rules = Some(vec![os_rule(RuleAction::Deny, "linux")]);
    let out = classify(vec![lib], &platform("linux", "x64"));
    assert_eq!(names(&out.libs), vec!["com.google.guava:guava:31.0.1-jre"]);
    assert!(out.natives.is_empty());
}

#[test]
fn native_candidates_follow_their_rules() {
    let mut excluded = library("org.lwjgl:lwjgl:3.3.1:natives-macos");
    excluded.rules = Some(vec![os_rule(RuleAction::Allow, "osx")]);
    let mut included = library("org.lwjgl:lwjgl:3.3.1:natives-linux");
    included.rules = Some(vec![os_rule(RuleAction::Allow, "linux")]);
    let unconditional = classified_native();
    let plain = library("a:b:1");
    let out = classify(vec![excluded, plain, included, unconditional], &platform("linux", "x64"));
    assert_eq!(names(&out.libs), vec!["a:b:1"]);
    assert_eq!(
        names(&out.natives),
        vec!["org.lwjgl:lwjgl:3.3.1:natives-linux", "org.lwjgl:lwjgl-platform:2.9.4"]
    );
}

#[test]
fn substring_search() {
    assert!(contains_substring("lwjgl:natives-linux", "natives"));
    assert!(!contains_substring("nativ", "natives"));
    assert!(contains_substring("abc", ""));
}

#[test]
fn substitution_leaves_plain_text_alone() {
    let v = vars(&[("a", "1")]);
    let s = "--width 100 $ { }";
    let once = replace_variables(s, &v);
    assert_eq!(once, s);
    assert_eq!(replace_variables(&once, &v), once);
}

#[test]
fn substitution_keeps_unknown_and_replaces_repeats() {
    let v = vars(&[("name", "Steve"), ("dir", "/games")]);
    let s = "${name} ${unknown_var} ${name}:${dir}/${dir}";
    assert_eq!(replace_variables(s, &v), "Steve ${unknown_var} Steve:/games//games");
}

#[test]
fn substitution_does_not_rescan_values() {
    let v = vars(&[("a", "${b}"), ("b", "x")]);
    assert_eq!(replace_variables("${a}", &v), "${b}");
    assert_eq!(replace_variables("${a", &v), "${a");
}

#[test]
fn legacy_blob_yields_one_substituted_argument() {
    let mut v = version("1.18.2", None);
    v.arguments_old = Some("--username ${auth_player_name} --version ${version_name}".to_string());
    v.main_class = "Main".to_string();
    let args = build_arguments(&v, &platform("linux", "x64"));
    assert_eq!(args.len(), 1);
    let table = vars(&[("auth_player_name", "Steve"), ("version_name", "1.18.2")]);
    assert_eq!(replace_variables(&args[0], &table), "--username Steve --version 1.18.2");
}

#[test]
fn guarded_jvm_argument_is_dropped_elsewhere() {
    let mut v = version("1.18.2", None);
    v.main_class = "Main".to_string();
    v.arguments.jvm = vec![JsonArgument::Advanced(JsonAdvanceArgument {
        rules: vec![os_rule(RuleAction::Allow, "linux")],
        value: ArgumentValue::Single("-Xss1M".to_string()),
    })];
    assert_eq!(build_arguments(&v, &platform("windows", "x64")), vec!["Main"]);
    assert_eq!(build_arguments(&v, &platform("linux", "x64")), vec!["-Xss1M", "Main"]);
}

#[test]
fn arguments_order_jvm_main_game() {
    let mut v = version("1.18.2", None);
    v.main_class = "Main".to_string();
    v.arguments.jvm = vec![
        JsonArgument::Plain("-cp".to_string()),
        JsonArgument::Advanced(JsonAdvanceArgument {
            rules: vec![allow_all()],
            value: ArgumentValue::List(vec!["-Da=1".to_string(), "-Db=2".to_string()]),
        }),
    ];
    v.arguments.game = vec![
        JsonArgument::Plain("--demo".to_string()),
        JsonArgument::Advanced(JsonAdvanceArgument {
            rules: vec![JsonRule {
                action: RuleAction::Allow,
                os: Some(JsonOperatingSystem { name: None, version: None, arch: Some("x86".to_string()) }),
            }],
            value: ArgumentValue::Single("--x86".to_string()),
        }),
    ];
    assert_eq!(
        build_arguments(&v, &platform("linux", "x64")),
        vec!["-cp", "-Da=1", "-Db=2", "Main", "--demo", "--x86"]
    );
}

#[test]
fn empty_legacy_blob_falls_back_to_lists() {
    let mut v = version("1.18.2", None);
    v.arguments_old = Some(String::new());
    v.main_class = "Main".to_string();
    assert_eq!(build_arguments(&v, &platform("linux", "x64")), vec!["Main"]);
}

#[test]
fn offline_uuid_of_name() {
    let id = uuid_from_name("test".to_string());
    assert_eq!(id, "cd6b8f09-2146-7333-8ade-4e832627b4f6");
    assert_eq!(id.len(), 36);
    let bytes = uuid_from_bytes("test".as_bytes());
    assert_eq!(bytes.len(), 16);
    assert_eq!(bytes[6] & 0xf0, 0x70);
}

#[test]
fn developer_login_and_credentials() {
    let user = DeveloperUserType::login("Steve");
    match &user {
        UserResult::Developer { username, uuid } => {
            assert_eq!(username, "Steve");
            assert_eq!(uuid, "b7a1b881-6870-6e30-9c81-90825253066f");
        }
        _ => panic!("expected a developer login"),
    }
    let c = credentials(&user).ok().unwrap();
    assert_eq!(c.player_name, "Steve");
    assert_eq!(c.access_token, "");
    assert_eq!(account_kind(&user), "Legacy");
    assert!(matches!(credentials(&UserResult::Microsoft), Err(IdentityError::NotImplemented)));
    assert_eq!(account_kind(&UserResult::Microsoft), "msa");
    assert_eq!(account_kind(&UserResult::CustomAuth), "Mojang");
}

#[test]
fn user_type_name() {
    let t = UserType { kind_name: "developer".to_string() };
    assert_eq!(t.name(), "developer");
}

#[test]
fn architecture_name() {
    let expected = if std::mem::size_of::<usize>() == 8 { "x64" } else { "x86" };
    assert_eq!(arch(), expected);
}

#[test]
fn launcher_core_paths() {
    let mut core = LauncherCore::new("/mc".to_string());
    assert_eq!(core.base_path, "/mc");
    assert_eq!(core.assets_path, "/mc");
    core.set_assets_path("/shared".to_string());
    assert_eq!(core.assets_path, "/shared");
    assert_eq!(core.base_path, "/mc");
}

#[test]
fn java_command_by_os() {
    assert_eq!(java_command("linux"), "java");
    assert_eq!(java_command("macos"), "/usr/bin/java");
    assert_eq!(java_command("windows"), "java.exe");
    assert_eq!(java_command("plan9"), "");
}

#[test]
fn extraction_steps() {
    let exclude = vec!["META-INF/".to_string()];
    assert!(matches!(plan_entry("META-INF/MANIFEST.MF", &exclude, "/n"), ExtractStep::Skip));
    assert!(matches!(plan_entry("lib/", &exclude, "/n"), ExtractStep::MakeDir(p) if p == "/n/lib/"));
    assert!(matches!(plan_entry("lib/a.so", &exclude, "/n"), ExtractStep::WriteFile(p) if p == "/n/lib/a.so"));
}

fn launch_version() -> GameVersion {
    let mut core = LauncherCore::new("/mc".to_string());
    core.set_assets_path("/shared".to_string());
    let mut v = version("1.18.2", None);
    v.main_class = "Main".to_string();
    v.asset_index = Some(JsonAssetsIndex {
        id: "1.18".to_string(),
        sha1: String::new(),
        size: 0,
        total_size: 0,
        url: String::new(),
        known: false,
    });
    let mut plain = library("a:b:1");
    plain.downloads = Some(JsonDownloads { artifact: download("a/b/1/b-1.jar"), classifiers: None });
    v.libraries = vec![plain, library("org.lwjgl:lwjgl:3.3.1:natives-linux")];
    v.arguments.jvm = vec![JsonArgument::Plain("-cp".to_string()), JsonArgument::Plain("${classpath}".to_string())];
    v.arguments.game = vec![
        JsonArgument::Plain("--username".to_string()),
        JsonArgument::Plain("${auth_player_name}".to_string()),
        JsonArgument::Plain("--assetIndex".to_string()),
        JsonArgument::Plain("${assets_index_name}".to_string()),
    ];
    GameVersion::new(core, "1.18.2".to_string(), v)
}

fn config() -> LaunchConfig {
    LaunchConfig {
        launcher_name: "BakaXL".to_string(),
        launcher_version: "4.0".to_string(),
        resolution_width: "1000".to_string(),
        resolution_height: "900".to_string(),
        classpath_separator: ";".to_string(),
    }
}

#[test]
fn launch_plan_end_to_end() {
    let game = launch_version();
    assert_eq!(game.path, "/mc/versions/1.18.2");
    let user = DeveloperUserType::login("Steve");
    let plan = game.launch(&user, &platform("linux", "x64"), &config()).ok().unwrap();
    assert_eq!(plan.program, "java");
    let kind = plan.variables.iter().find(|(k, _)| k == "user_type").map(|(_, v)| v.clone());
    assert_eq!(kind, Some("Legacy".to_string()));
    assert_eq!(plan.working_dir, "/mc/versions/1.18.2");
    assert_eq!(plan.natives_dir, "/mc/versions/1.18.2/natives-linux");
    assert_eq!(
        plan.native_archives,
        vec!["/shared/libraries/org/lwjgl/lwjgl/3.3.1/lwjgl-3.3.1-natives-linux.jar"]
    );
    assert_eq!(
        plan.arguments,
        vec![
            "-Dminecraft.client.jar=/mc/versions/1.18.2/1.18.2.jar",
            "-cp",
            "/shared/libraries/a/b/1/b-1.jar;/mc/versions/1.18.2/1.18.2.jar",
            "Main",
            "--username",
            "Steve",
            "--assetIndex",
            "1.18",
        ]
    );
}

#[test]
fn launch_binds_empty_identity_for_other_accounts() {
    let game = launch_version();
    let plan = game.launch(&UserResult::Microsoft, &platform("linux", "x64"), &config()).ok().unwrap();
    assert_eq!(plan.arguments[5], "");
    let kind = plan.variables.iter().find(|(k, _)| k == "user_type").map(|(_, v)| v.clone());
    assert_eq!(kind, Some("msa".to_string()));
    let token = plan.variables.iter().find(|(k, _)| k == "auth_access_token").map(|(_, v)| v.clone());
    assert_eq!(token, Some(String::new()));
}

#[test]
fn launch_names_the_unsupported_native() {
    let mut game = launch_version();
    game.version_json.libraries.push(classified_native());
    let r = game.launch(&DeveloperUserType::login("Steve"), &platform("osx", "x64"), &config());
    assert!(matches!(
        r,
        Err(LaunchError::Resolve(ResolveError::UnsupportedPlatform(c, k)))
            if c == "org.lwjgl:lwjgl-platform:2.9.4" && k == "osx"
    ));
}

#[test]
fn launch_fails_for_unresolvable_native() {
    let mut game = launch_version();
    game.version_json.libraries.push(library("broken-natives"));
    let r = game.launch(&DeveloperUserType::login("Steve"), &platform("linux", "x64"), &config());
    assert!(matches!(
        r,
        Err(LaunchError::Resolve(ResolveError::MalformedCoordinate(n))) if n == "broken-natives"
    ));
}

#[test]
fn classification_through_game_version() {
    let game = launch_version();
    let libs = game.get_libraries_and_natives(&platform("linux", "x64"));
    assert_eq!(names(&libs.libs), vec!["a:b:1"]);
    assert_eq!(names(&libs.natives), vec!["org.lwjgl:lwjgl:3.3.1:natives-linux"]);
}

#[test]
fn plain_library_without_artifact_uses_coordinate() {
    let mut game = launch_version();
    game.version_json.libraries.push(library("com.mojang:brigadier:1.0.18"));
    let plan = game.launch(&DeveloperUserType::login("Steve"), &platform("linux", "x64"), &config()).ok().unwrap();
    assert_eq!(
        plan.arguments[2],
        "/shared/libraries/a/b/1/b-1.jar;/shared/libraries/com/mojang/brigadier/1.0.18/brigadier-1.0.18.jar;/mc/versions/1.18.2/1.18.2.jar"
    );
}

#[test]
fn plain_library_without_any_path_fails_the_launch() {
    let mut game = launch_version();
    game.version_json.libraries.push(library("just-a-name"));
    let r = game.launch(&DeveloperUserType::login("Steve"), &platform("linux", "x64"), &config());
    assert!(matches!(
        r,
        Err(LaunchError::Resolve(ResolveError::MalformedCoordinate(n))) if n == "just-a-name"
    ));
}

#[test]
fn launch_plan_pairs_archives_with_exclusions() {
    let mut game = launch_version();
    let mut native = library("org.lwjgl:lwjgl-glfw:3.3.1:natives-linux");
    native.extract = Some(JsonExtract { exclude: vec!["META-INF/".to_string()] });
    game.version_json.libraries.push(native);
    let plan = game.launch(&DeveloperUserType::login("Steve"), &platform("linux", "x64"), &config()).ok().unwrap();
    assert_eq!(plan.native_archives.len(), 2);
    assert_eq!(plan.native_excludes, vec![vec![], vec!["META-INF/".to_string()]]);
}
