use rmcll::parsing::{ParameterStrategy, VariableMap};
use rmcll::versions::{
    DownloadInfo, DownloadStrategy, Error, Library, MinecraftVersion, NativeCollection,
    VersionManager,
};

fn plain_version(id: &str) -> MinecraftVersion {
    MinecraftVersion {
        id: id.to_string(),
        version_type: "release".to_string(),
        publish_time: "2017-01-01T00:00:00+00:00".to_string(),
        release_time: "2017-01-01T00:00:00+00:00".to_string(),
        minecraft_arguments: None,
        main_class: None,
        version_jar: None,
        assets_id: None,
        asset_index: None,
        libraries: vec![],
        downloads: vec![],
        inherits_from: None,
    }
}

fn default_lib(name: &str) -> Library {
    Library {
        name: name.to_string(),
        is_native: false,
        downloads: DownloadStrategy {
            with_classifier: vec![],
            default: Some(DownloadInfo::Raw { url: format!("https://host/{}", name) }),
            rules: vec![],
        },
        extract_ignored: vec![],
    }
}

fn manager() -> VersionManager {
    VersionManager::new("vroot", "64", "linux")
}

fn lib_names(libs: &[Library]) -> Vec<String> {
    libs.iter().map(|l| l.name.clone()).collect()
}

#[test]
fn ancestor_libraries_come_first_with_duplicates_kept() {
    let mut m = manager();
    let mut parent = plain_version("base");
    parent.libraries = vec![default_lib("g:p:1")];
    let mut child = plain_version("mod");
    child.inherits_from = Some("base".to_string());
    child.libraries = vec![default_lib("g:c:1"), default_lib("g:p:1")];
    m.add_version(parent);
    m.add_version(child);
    let resolved = m.version_of("mod").unwrap().libraries(&m).unwrap();
    assert_eq!(lib_names(&resolved), vec!["g:p:1", "g:c:1", "g:p:1"]);
}

#[test]
fn child_scalar_overrides_parent() {
    let mut m = manager();
    let mut parent = plain_version("base");
    parent.main_class = Some("base.Main".to_string());
    let mut child = plain_version("mod");
    child.inherits_from = Some("base".to_string());
    child.main_class = Some("mod.Main".to_string());
    m.add_version(parent);
    m.add_version(child);
    let mc = m.version_of("mod").unwrap().main_class(&m).unwrap();
    assert_eq!(mc, Some("mod.Main".to_string()));
}

#[test]
fn undefined_scalar_falls_back_to_parent() {
    let mut m = manager();
    let mut parent = plain_version("base");
    parent.main_class = Some("base.Main".to_string());
    let mut child = plain_version("mod");
    child.inherits_from = Some("base".to_string());
    m.add_version(parent);
    m.add_version(child);
    let mc = m.version_of("mod").unwrap().main_class(&m).unwrap();
    assert_eq!(mc, Some("base.Main".to_string()));
}

#[test]
fn scalar_undefined_in_whole_chain_is_none() {
    let mut m = manager();
    m.add_version(plain_version("solo"));
    assert_eq!(m.version_of("solo").unwrap().main_class(&m).unwrap(), None);
}

#[test]
fn no_legacy_arguments_anywhere_appends_nothing() {
    let mut m = manager();
    let parent = plain_version("base");
    let mut child = plain_version("mod");
    child.inherits_from = Some("base".to_string());
    m.add_version(parent);
    m.add_version(child);
    let mut opts = Vec::new();
    let s = ParameterStrategy::map(VariableMap::new());
    let r = m.version_of("mod").unwrap().collect_game_arguments(&m, &mut opts, &s);
    assert!(r.is_ok());
    assert!(opts.is_empty());
}

#[test]
fn width_and_height_are_appended_last() {
    let mut m = manager();
    let mut v = plain_version("1.0");
    v.minecraft_arguments = Some("--demo --user ${name}".to_string());
    m.add_version(v);
    let mut vm = VariableMap::new();
    vm.insert("name".to_string(), "alice".to_string());
    vm.insert("resolution_width".to_string(), "854".to_string());
    vm.insert("resolution_height".to_string(), "480".to_string());
    let s = ParameterStrategy::map(vm);
    let mut opts = Vec::new();
    m.version_of("1.0").unwrap().collect_game_arguments(&m, &mut opts, &s).unwrap();
    assert_eq!(opts.len(), 4);
    assert_eq!(opts[0].0, "--demo");
    assert_eq!(opts[0].1, None);
    assert_eq!(opts[1].0, "--user");
    assert_eq!(opts[1].1, Some("alice".to_string()));
    assert_eq!(opts[2].0, "--width");
    assert_eq!(opts[2].1, Some("854".to_string()));
    assert_eq!(opts[3].0, "--height");
    assert_eq!(opts[3].1, Some("480".to_string()));
}

#[test]
fn malformed_legacy_arguments_fail_collection() {
    let mut m = manager();
    let mut v = plain_version("1.0");
    v.minecraft_arguments = Some("'unterminated".to_string());
    m.add_version(v);
    let mut opts = Vec::new();
    let s = ParameterStrategy::map(VariableMap::new());
    let r = m.version_of("1.0").unwrap().collect_game_arguments(&m, &mut opts, &s);
    assert!(matches!(r, Err(Error::TemplateParseFailure)));
    assert!(opts.is_empty());
}

#[test]
fn bad_coordinate_contributes_nothing_without_error() {
    let mut m = manager();
    let mut v = plain_version("1.0");
    v.libraries = vec![default_lib("badname")];
    m.add_version(v);
    let cp = m.version_of("1.0").unwrap().classpath("root", &m).unwrap();
    assert_eq!(cp, "vroot/1.0/1.0.jar");
}

#[test]
fn classpath_joins_entries_then_primary_jar() {
    let mut m = manager();
    let mut v = plain_version("1.0");
    v.libraries = vec![default_lib("g:a:1"), default_lib("g:b:2")];
    m.add_version(v);
    let cp = m.version_of("1.0").unwrap().classpath("root", &m).unwrap();
    assert_eq!(cp, "root/g/a/1/a-1.jar:root/g/b/2/b-2.jar:vroot/1.0/1.0.jar");
}

#[test]
fn inheritance_cycle_is_reported() {
    let mut m = manager();
    let mut a = plain_version("a");
    a.inherits_from = Some("b".to_string());
    let mut b = plain_version("b");
    b.inherits_from = Some("a".to_string());
    m.add_version(a);
    m.add_version(b);
    let r = m.version_of("a").unwrap().libraries(&m);
    assert!(matches!(r, Err(Error::InheritanceCycle(_))));
}

#[test]
fn missing_parent_reports_descriptor_path() {
    let mut m = manager();
    let mut child = plain_version("mod");
    child.inherits_from = Some("nope".to_string());
    m.add_version(child);
    match m.version_of("mod").unwrap().libraries(&m) {
        Err(Error::FileUnavailableError(p)) => assert_eq!(p, "vroot/nope/nope.json"),
        other => panic!("expected a missing-descriptor failure, got {:?}", other.is_ok()),
    }
}

#[test]
fn missing_ancestor_beats_cycle_reporting() {
    // the store holds the whole chain except the last ancestor, so
    // fuel runs out exactly where the absent descriptor is named: the
    // missing-descriptor failure must win over the cycle report
    let mut m = manager();
    let mut a = plain_version("A");
    a.inherits_from = Some("B".to_string());
    m.add_version(a);
    let mut leaf = plain_version("leaf");
    leaf.inherits_from = Some("A".to_string());
    match leaf.libraries(&m) {
        Err(Error::FileUnavailableError(p)) => assert_eq!(p, "vroot/B/B.json"),
        _ => panic!("expected the missing-descriptor failure"),
    }
    match leaf.main_class(&m) {
        Err(Error::FileUnavailableError(p)) => assert_eq!(p, "vroot/B/B.json"),
        _ => panic!("expected the missing-descriptor failure"),
    }
}

#[test]
fn missing_version_reports_descriptor_path() {
    let m = manager();
    match m.version_of("ghost") {
        Err(Error::FileUnavailableError(p)) => assert_eq!(p, "vroot/ghost/ghost.json"),
        _ => panic!("expected a missing-descriptor failure"),
    }
}

#[test]
fn jar_name_uses_override_then_parent_then_own_id() {
    let mut m = manager();
    let mut parent = plain_version("base");
    parent.version_jar = Some("custom".to_string());
    let mut child = plain_version("mod");
    child.inherits_from = Some("base".to_string());
    m.add_version(parent);
    m.add_version(child);
    assert_eq!(m.version_of("mod").unwrap().version_jar(&m).unwrap(), "custom");
    let mut m2 = manager();
    m2.add_version(plain_version("solo"));
    assert_eq!(m2.version_of("solo").unwrap().version_jar(&m2).unwrap(), "solo");
}

#[test]
fn asset_index_synthesized_from_bare_assets_id() {
    let mut m = manager();
    let mut v = plain_version("1.0");
    v.assets_id = Some("legacy".to_string());
    m.add_version(v);
    let a = m.version_of("1.0").unwrap().asset_index(&m).unwrap().unwrap();
    assert_eq!(a.id(), "legacy");
    assert_eq!(a.url, None);
    assert!(!a.size_and_hash_known);
}

#[test]
fn asset_index_falls_back_to_parent() {
    let mut m = manager();
    let mut parent = plain_version("base");
    parent.assets_id = Some("1.12".to_string());
    let mut child = plain_version("mod");
    child.inherits_from = Some("base".to_string());
    m.add_version(parent);
    m.add_version(child);
    let a = m.version_of("mod").unwrap().asset_index(&m).unwrap().unwrap();
    assert_eq!(a.id(), "1.12");
}

#[test]
fn last_recognized_rule_decides() {
    let allow_then_disallow_osx = DownloadStrategy {
        with_classifier: vec![],
        default: Some(DownloadInfo::Raw { url: "u".to_string() }),
        rules: vec![
            ("allow".to_string(), String::new()),
            ("disallow".to_string(), "osx".to_string()),
        ],
    };
    assert!(allow_then_disallow_osx.get("64bit linux", "linux").is_some());
    assert!(allow_then_disallow_osx.get("64bit osx", "osx").is_none());
}

#[test]
fn allow_for_another_platform_disallows_here() {
    let only_osx = DownloadStrategy {
        with_classifier: vec![],
        default: Some(DownloadInfo::Raw { url: "u".to_string() }),
        rules: vec![("allow".to_string(), "osx".to_string())],
    };
    assert!(only_osx.get("64bit linux", "linux").is_none());
    assert!(only_osx.get("64bit osx", "osx").is_some());
}

#[test]
fn unknown_actions_are_ignored() {
    let strange = DownloadStrategy {
        with_classifier: vec![],
        default: Some(DownloadInfo::Raw { url: "u".to_string() }),
        rules: vec![("frobnicate".to_string(), "linux".to_string())],
    };
    // a non-empty rule list with no recognized rule does not allow
    assert!(strange.get("64bit linux", "linux").is_none());
    let empty = DownloadStrategy {
        with_classifier: vec![],
        default: Some(DownloadInfo::Raw { url: "u".to_string() }),
        rules: vec![],
    };
    assert!(empty.get("64bit linux", "linux").is_some());
}

#[test]
fn classifier_entry_wins_over_default() {
    let s = DownloadStrategy {
        with_classifier: vec![(
            "64bit linux".to_string(),
            ("natives-linux-64".to_string(), DownloadInfo::Raw { url: "cls".to_string() }),
        )],
        default: Some(DownloadInfo::Raw { url: "def".to_string() }),
        rules: vec![],
    };
    let (classifier, info) = s.get("64bit linux", "linux").unwrap();
    assert_eq!(classifier, "natives-linux-64");
    assert_eq!(info.url(), "cls");
    let (classifier2, info2) = s.get("32bit linux", "linux").unwrap();
    assert_eq!(classifier2, "");
    assert_eq!(info2.url(), "def");
}

#[test]
fn url_suffix_formula() {
    assert_eq!(
        Library::get_url_suffix("com.example:lib:1.0", "", false),
        Some("com/example/lib/1.0/lib-1.0.jar".to_string()),
    );
    assert_eq!(
        Library::get_url_suffix("com.example:lib:1.0", "natives-linux", false),
        Some("com/example/lib/1.0/lib-1.0-natives-linux.jar".to_string()),
    );
    assert_eq!(
        Library::get_url_suffix("g:a:2", "", true),
        Some("g/a/2/a-2.jar.pack.xz".to_string()),
    );
    assert_eq!(Library::get_url_suffix("badname", "", false), None);
    assert_eq!(Library::get_url_suffix("only:one", "", false), None);
}

#[test]
fn from_raw_plain_library_uses_standard_prefix() {
    let lib = Library::from_raw(
        "g:a:1".to_string(),
        String::new(),
        false,
        vec![],
        vec![],
        vec![],
        vec![],
        None,
        false,
    )
    .unwrap();
    assert!(!lib.is_native());
    let (_, info) = lib.downloads.get("64bit linux", "linux").unwrap();
    assert_eq!(info.url(), "https://libraries.minecraft.net/g/a/1/a-1.jar");
}

#[test]
fn from_raw_native_library_fills_arch_classifiers() {
    let lib = Library::from_raw(
        "g:a:1".to_string(),
        "https://host/".to_string(),
        false,
        vec![("linux".to_string(), "natives-linux-${arch}".to_string())],
        vec![],
        vec![],
        vec![],
        None,
        false,
    )
    .unwrap();
    assert!(lib.is_native());
    let (classifier, info) = lib.downloads.get("64bit linux", "linux").unwrap();
    assert_eq!(classifier, "natives-linux-64");
    assert_eq!(info.url(), "https://host/g/a/1/a-1-natives-linux-64.jar");
    assert!(lib.downloads.get("64bit windows", "windows").is_none());
}

#[test]
fn from_raw_download_table_mode_uses_listed_classifiers() {
    let lib = Library::from_raw(
        "g:a:1".to_string(),
        String::new(),
        false,
        vec![("linux".to_string(), "natives-linux-${arch}".to_string())],
        vec![],
        vec![],
        vec![(
            "natives-linux-64".to_string(),
            DownloadInfo::Raw { url: "from-table".to_string() },
        )],
        Some(DownloadInfo::Raw { url: "table-default".to_string() }),
        true,
    )
    .unwrap();
    let (classifier, info) = lib.downloads.get("64bit linux", "linux").unwrap();
    assert_eq!(classifier, "natives-linux-64");
    assert_eq!(info.url(), "from-table");
    // the 32-bit classifier is not in the table, so the key falls to the default
    let (classifier32, info32) = lib.downloads.get("32bit linux", "linux").unwrap();
    assert_eq!(classifier32, "");
    assert_eq!(info32.url(), "table-default");
}

#[test]
fn from_raw_without_name_yields_nothing() {
    let r = Library::from_raw(
        String::new(),
        String::new(),
        false,
        vec![],
        vec![],
        vec![],
        vec![],
        None,
        false,
    );
    assert!(r.is_none());
}

#[test]
fn native_collection_pairs_paths_with_exclusions() {
    let mut m = manager();
    let mut native = default_lib("g:n:1");
    native.is_native = true;
    native.extract_ignored = vec!["META-INF".to_string()];
    let mut v = plain_version("1.0");
    v.libraries = vec![default_lib("g:a:1"), native];
    m.add_version(v);
    let c = m.version_of("1.0").unwrap().to_native_collection(&m, "root").unwrap();
    assert_eq!(c.libraries.len(), 1);
    assert_eq!(c.libraries[0].0, "root/g/n/1/n-1.jar");
    assert_eq!(c.libraries[0].1, vec!["META-INF".to_string()]);
}

#[test]
fn file_inclusion_honors_prefixes() {
    let c = NativeCollection { libraries: vec![] };
    let excluded = vec!["META-INF".to_string()];
    assert!(c.is_file_included(&excluded, "lib.so"));
    assert!(!c.is_file_included(&excluded, "META-INF/x"));
    assert!(c.is_file_included(&vec![], "META-INF/x"));
}

#[test]
fn manager_paths() {
    let m = manager();
    assert_eq!(m.get_primary_jar_path("1.0"), "vroot/1.0/1.0.jar");
    assert_eq!(m.get_natives_path("1.0"), "vroot/1.0/1.0-natives-linux-64/");
}

#[test]
fn legacy_arguments_resolve_over_the_chain() {
    let mut m = manager();
    let mut parent = plain_version("base");
    parent.minecraft_arguments = Some("--gameDir ${game_directory}".to_string());
    let mut child = plain_version("mod");
    child.inherits_from = Some("base".to_string());
    m.add_version(parent);
    m.add_version(child);
    let a = m.version_of("mod").unwrap().legacy_arguments(&m).unwrap();
    assert_eq!(a, Some("--gameDir ${game_directory}".to_string()));
    let mut m2 = manager();
    m2.add_version(plain_version("solo"));
    assert_eq!(m2.version_of("solo").unwrap().legacy_arguments(&m2).unwrap(), None);
}

#[test]
fn download_info_selection_per_platform() {
    let lib = Library {
        name: "g:n:1".to_string(),
        is_native: true,
        downloads: DownloadStrategy {
            with_classifier: vec![(
                "64bit linux".to_string(),
                ("natives-linux-64".to_string(), DownloadInfo::Raw { url: "lin".to_string() }),
            )],
            default: None,
            rules: vec![],
        },
        extract_ignored: vec![],
    };
    assert_eq!(lib.download_info_of("64", "linux").unwrap().url(), "lin");
    assert!(lib.download_info_of("64", "windows").is_none());
    let m = manager();
    assert_eq!(lib.download_info_default(&m).unwrap().url(), "lin");
}

#[test]
fn classpath_entry_of_one_library() {
    let lib = default_lib("com.example:thing:2.1");
    assert_eq!(
        lib.classpath_of("root", "64", "linux"),
        Some("root/com/example/thing/2.1/thing-2.1.jar".to_string()),
    );
    let m = manager();
    assert_eq!(
        lib.classpath_default("root", &m),
        Some("root/com/example/thing/2.1/thing-2.1.jar".to_string()),
    );
}

#[test]
fn disallowed_library_contributes_no_classpath_entry() {
    let mut m = manager();
    let mut blocked = default_lib("g:a:1");
    blocked.downloads.rules = vec![("allow".to_string(), "osx".to_string())];
    let mut v = plain_version("1.0");
    v.libraries = vec![blocked, default_lib("g:b:2")];
    m.add_version(v);
    let cp = m.version_of("1.0").unwrap().classpath("root", &m).unwrap();
    assert_eq!(cp, "root/g/b/2/b-2.jar:vroot/1.0/1.0.jar");
}

#[test]
fn version_getters_echo_the_descriptor() {
    let v = plain_version("1.7.10");
    assert_eq!(v.id(), "1.7.10");
    assert_eq!(v.version_type(), "release");
    assert_eq!(v.publish_time(), "2017-01-01T00:00:00+00:00");
    assert_eq!(v.release_time(), "2017-01-01T00:00:00+00:00");
}

#[test]
fn asset_index_to_artifact_reference() {
    let full = rmcll::versions::AssetDownloadInfo {
        size: Some(100),
        url: Some("https://host/idx.json".to_string()),
        sha1: Some("abc".to_string()),
        asset_index_id: "1.12".to_string(),
        total_size: Some(1000),
        size_and_hash_known: true,
    };
    match DownloadInfo::from_asset_index(full) {
        DownloadInfo::PreHashed { size, url, sha1 } => {
            assert_eq!(size, 100);
            assert_eq!(url, "https://host/idx.json");
            assert_eq!(sha1, "abc");
        }
        _ => panic!("expected a hashed reference"),
    }
    let unknown_hash = rmcll::versions::AssetDownloadInfo {
        size: Some(100),
        url: Some("https://host/idx.json".to_string()),
        sha1: Some("abc".to_string()),
        asset_index_id: "1.12".to_string(),
        total_size: None,
        size_and_hash_known: false,
    };
    match DownloadInfo::from_asset_index(unknown_hash) {
        DownloadInfo::Raw { url } => assert_eq!(url, "https://host/idx.json"),
        _ => panic!("expected a raw reference"),
    }
    let bare = rmcll::versions::AssetDownloadInfo::new("legacy".to_string());
    match DownloadInfo::from_asset_index(bare) {
        DownloadInfo::Raw { url } => {
            assert_eq!(url, "https://s3.amazonaws.com/Minecraft.Download/indexes/legacy.json");
        }
        _ => panic!("expected a raw reference"),
    }
}
