use rmcll::launcher::{builder, create, GameOption, JvmOption};
use rmcll::versions::{Error, MinecraftVersion};
use rmcll::yggdrasil::{offline, AuthInfo, Profile};

fn auth_for(name: &str) -> AuthInfo {
    offline(name).auth().unwrap()
}

fn plain_version(id: &str) -> MinecraftVersion {
    MinecraftVersion {
        id: id.to_string(),
        version_type: "release".to_string(),
        publish_time: "2017-01-01T00:00:00+00:00".to_string(),
        release_time: "2017-01-01T00:00:00+00:00".to_string(),
        minecraft_arguments: None,
        main_class: None,
        version_jar: None,
        assets_id: None,
        asset_index: None,
        libraries: vec![],
        downloads: vec![],
        inherits_from: None,
    }
}

#[test]
fn offline_identity_is_stable_and_well_formed() {
    let a1 = auth_for("zzzz");
    let a2 = auth_for("zzzz");
    assert_eq!(a1.user_profile().name(), "zzzz");
    assert_eq!(a1.user_profile().uuid(), a2.user_profile().uuid());
    assert_eq!(a1.user_profile().uuid().len(), 32);
    assert_eq!(a1.access_token().len(), 32);
    let other = auth_for("aaaa");
    assert_ne!(a1.user_profile().uuid(), other.user_profile().uuid());
    assert!(a1.user_profile().properties().is_empty());
}

#[test]
fn profile_and_auth_accessors_round_trip() {
    let p = Profile::new("0123".to_string(), "alice".to_string(), vec![]);
    assert_eq!(p.uuid(), "0123");
    assert_eq!(p.name(), "alice");
    let a = AuthInfo::new("tok".to_string(), p);
    assert_eq!(a.access_token(), "tok");
    assert_eq!(a.user_profile().name(), "alice");
}

#[test]
fn option_constructors_carry_their_parts() {
    let j = JvmOption::new("-Xmx2048m".to_string());
    assert_eq!(j.0, "-Xmx2048m");
    let pair = GameOption::new_pair("--user".to_string(), "alice".to_string());
    assert_eq!(pair.0, "--user");
    assert_eq!(pair.1, Some("alice".to_string()));
    let single = GameOption::new_single("--demo".to_string());
    assert_eq!(single.0, "--demo");
    assert_eq!(single.1, None);
}

#[test]
fn builder_fills_directory_defaults() {
    let l = builder()
        .root_dir("mc")
        .jre("/usr/bin/java")
        .platform("64", "linux")
        .auth(auth_for("zzzz"))
        .build();
    assert_eq!(l.game_root_dir, "mc");
    assert_eq!(l.assets_dir, "mc/assets/");
    assert_eq!(l.libraries_dir, "mc/libraries/");
    assert_eq!(l.manager.versions_path, "mc/versions/");
    assert_eq!(l.launcher_name_version.0, "RMCLL");
    assert_eq!(l.launcher_name_version.1, "0.1.0");
    assert_eq!(l.window_resolution, (854, 480));
}

#[test]
fn builder_overrides_stick() {
    let l = builder()
        .root_dir("mc")
        .assets_dir("elsewhere/assets")
        .libraries_dir("elsewhere/libs")
        .jre("java")
        .platform("32", "windows")
        .launcher("Custom", "9.9")
        .resolution(1920, 1080)
        .auth(auth_for("zzzz"))
        .build();
    assert_eq!(l.assets_dir, "elsewhere/assets");
    assert_eq!(l.libraries_dir, "elsewhere/libs");
    assert_eq!(l.manager.os_arch, "32");
    assert_eq!(l.manager.os_platform, "windows");
    assert_eq!(l.launcher_name_version.0, "Custom");
    assert_eq!(l.window_resolution, (1920, 1080));
}

#[test]
fn argument_map_holds_session_and_layout_values() {
    let mut l = create("mc", auth_for("zzzz"), "java", "64", "linux");
    let mut v = plain_version("1.0");
    v.version_type = "snapshot".to_string();
    l.manager.add_version(v);
    let stored = l.manager.version_of("1.0").unwrap();
    let map = l.generate_argument_map(stored);
    assert_eq!(map.resolve("auth_player_name"), "zzzz");
    assert_eq!(map.resolve("profile_name"), "zzzz");
    assert_eq!(map.resolve("user_type"), "legacy");
    assert_eq!(map.resolve("version_name"), "1.0");
    assert_eq!(map.resolve("version_type"), "snapshot");
    assert_eq!(map.resolve("game_directory"), "mc");
    assert_eq!(map.resolve("assets_root"), "mc/assets/");
    assert_eq!(map.resolve("resolution_width"), "854");
    assert_eq!(map.resolve("resolution_height"), "480");
    assert_eq!(map.resolve("language"), "en-us");
    assert_eq!(map.resolve("launcher_name"), "RMCLL");
    assert_eq!(map.resolve("launcher_version"), "0.1.0");
    assert_eq!(map.resolve("natives_directory"), "mc/versions/1.0/1.0-natives-linux-64/");
    assert_eq!(map.resolve("primary_jar"), "mc/versions/1.0/1.0.jar");
    assert_eq!(map.resolve("classpath"), "mc/versions/1.0/1.0.jar");
    assert_eq!(map.resolve("classpath_separator"), ":");
    assert_eq!(map.resolve("assets_index_name"), "");
    let uuid = l.auth_info.user_profile.uuid.clone();
    let token = l.auth_info.access_token.clone();
    assert_eq!(map.resolve("auth_uuid"), uuid);
    assert_eq!(map.resolve("auth_access_token"), token);
    assert_eq!(map.resolve("auth_session"), format!("token:{}:{}", token, uuid));
    assert_eq!(map.resolve("no_such_key"), "");
}

#[test]
fn to_arguments_composes_the_launch_record() {
    let mut l = create("mc", auth_for("zzzz"), "/usr/bin/java", "64", "linux");
    let mut v = plain_version("1.0");
    v.main_class = Some("net.example.Main".to_string());
    v.minecraft_arguments = Some("--username ${auth_player_name}".to_string());
    l.manager.add_version(v);
    let args = l.to_arguments("1.0").unwrap();
    assert_eq!(args.program(), "/usr/bin/java");
    let flat = args.args();
    // seven baseline options, six templated ones off windows
    assert_eq!(flat[0], "-Xmn128m");
    assert_eq!(flat[1], "-Xmx2048m");
    assert_eq!(flat[6], "-Dfml.ignorePatchDiscrepancies=true");
    assert_eq!(flat[7], "-Djava.library.path=mc/versions/1.0/1.0-natives-linux-64/");
    assert_eq!(flat[8], "-Dminecraft.arguments.brand=");
    assert_eq!(flat[9], "-Dminecraft.arguments.version=");
    assert_eq!(flat[10], "-Dminecraft.client.jar=mc/versions/1.0/1.0.jar");
    assert_eq!(flat[11], "-cp");
    assert_eq!(flat[12], "mc/versions/1.0/1.0.jar");
    assert_eq!(flat[13], "net.example.Main");
    assert_eq!(flat[14], "--username");
    assert_eq!(flat[15], "zzzz");
    assert_eq!(flat[16], "--width");
    assert_eq!(flat[17], "854");
    assert_eq!(flat[18], "--height");
    assert_eq!(flat[19], "480");
    assert_eq!(flat.len(), 20);
}

#[test]
fn to_arguments_for_unknown_version_fails() {
    let l = create("mc", auth_for("zzzz"), "java", "64", "linux");
    let r = l.to_arguments("ghost");
    assert!(matches!(r, Err(Error::FileUnavailableError(_))));
}

#[test]
fn windows_gets_the_heap_dump_flag() {
    let mut l = create("mc", auth_for("zzzz"), "java", "64", "windows");
    let mut v = plain_version("1.0");
    v.main_class = Some("net.example.Main".to_string());
    l.manager.add_version(v);
    let flat = l.to_arguments("1.0").unwrap().args();
    assert_eq!(
        flat[7],
        "-XX:HeapDumpPath=MojangTricksIntelDriversForPerformance_javaw.exe_minecraft.exe.heapdump",
    );
}
