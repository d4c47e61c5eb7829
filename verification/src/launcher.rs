//! Launcher state and launch-argument synthesis: the builder, the
//! variable map the template engine substitutes from, and the final
//! immutable launch-argument record.

use vstd::prelude::*;

use crate::parsing::{ParameterStrategy, StrategyV, VariableMap, spec_lookup};
use crate::strutil::{spec_join_path, spec_u32_string, join_path, u32_to_string};
use crate::versions::{
    Error, ErrorV, MinecraftVersion, MinecraftVersionV, NativeCollection, VersionManager,
    spec_find_version, spec_json_path, spec_resolve_main_class, spec_resolve_asset_index,
    spec_resolve_jar_name, spec_classpath, spec_to_native_collection, spec_collect_game,
    spec_collect_jvm,
};
use crate::yggdrasil::AuthInfo;

verus! {

/// One JVM command-line option.
#[derive(Debug)]
pub struct JvmOption(pub String);

/// One game command-line option: a standalone flag, or a flag with a
/// value.
#[derive(Debug)]
pub struct GameOption(pub String, pub Option<String>);

impl DeepView for JvmOption {
    type V = Seq<char>;

    open spec fn deep_view(&self) -> Seq<char> {
        self.0@
    }
}

impl DeepView for GameOption {
    type V = (Seq<char>, Option<Seq<char>>);

    open spec fn deep_view(&self) -> (Seq<char>, Option<Seq<char>>) {
        (self.0@, self.1.deep_view())
    }
}

impl JvmOption {
    /// Wrap an option string.
    pub fn new(arg: String) -> (r: JvmOption)
        ensures
            r.deep_view() == arg@,
    {
        JvmOption(arg)
    }
}

impl GameOption {
    /// A flag with a value.
    pub fn new_pair(name: String, arg: String) -> (r: GameOption)
        ensures
            r.deep_view() == (name@, Option::Some(arg@)),
    {
        GameOption(name, Option::Some(arg))
    }

    /// A standalone flag.
    pub fn new_single(name: String) -> (r: GameOption)
        ensures
            r.deep_view() == (name@, Option::<Seq<char>>::None),
    {
        GameOption(name, Option::None)
    }
}

/// Accumulates launcher configuration; unset fields fall back to
/// their defaults when the launcher is built.
pub struct MinecraftLauncherBuilder {
    pub program_path: Option<String>,
    pub game_root_dir: Option<String>,
    pub assets_dir: Option<String>,
    pub libraries_dir: Option<String>,
    pub launcher_name_version: Option<(String, String)>,
    pub auth_info: Option<AuthInfo>,
    pub window_resolution: Option<(u32, u32)>,
    pub os_arch: Option<String>,
    pub os_platform: Option<String>,
}

/// A configured launcher: the directories, the descriptor store, the
/// session, and the window resolution launch arguments are built
/// from.
pub struct MinecraftLauncher {
    pub program_path: String,
    pub game_root_dir: String,
    pub assets_dir: String,
    pub libraries_dir: String,
    pub manager: VersionManager,
    pub launcher_name_version: (String, String),
    pub auth_info: AuthInfo,
    pub window_resolution: (u32, u32),
}

/// An empty launcher configuration.
pub fn builder() -> (r: MinecraftLauncherBuilder)
    ensures
        r.program_path is None,
        r.game_root_dir is None,
        r.assets_dir is None,
        r.libraries_dir is None,
        r.launcher_name_version is None,
        r.auth_info is None,
        r.window_resolution is None,
        r.os_arch is None,
        r.os_platform is None,
{
    MinecraftLauncherBuilder {
        program_path: Option::None,
        game_root_dir: Option::None,
        assets_dir: Option::None,
        libraries_dir: Option::None,
        launcher_name_version: Option::None,
        auth_info: Option::None,
        window_resolution: Option::None,
        os_arch: Option::None,
        os_platform: Option::None,
    }
}

impl MinecraftLauncherBuilder {
    /// Set the game root directory.
    pub fn root_dir(self, dir: &str) -> (r: Self)
        ensures
            r.game_root_dir.deep_view() == Option::Some(dir@),
            r.program_path == self.program_path,
            r.assets_dir == self.assets_dir,
            r.libraries_dir == self.libraries_dir,
            r.launcher_name_version == self.launcher_name_version,
            r.auth_info == self.auth_info,
            r.window_resolution == self.window_resolution,
            r.os_arch == self.os_arch,
            r.os_platform == self.os_platform,
    {
        MinecraftLauncherBuilder { game_root_dir: Option::Some(String::from_str(dir)), ..self }
    }

    /// Set the assets directory.
    pub fn assets_dir(self, dir: &str) -> (r: Self)
        ensures
            r.assets_dir.deep_view() == Option::Some(dir@),
            r.program_path == self.program_path,
            r.game_root_dir == self.game_root_dir,
            r.libraries_dir == self.libraries_dir,
            r.launcher_name_version == self.launcher_name_version,
            r.auth_info == self.auth_info,
            r.window_resolution == self.window_resolution,
            r.os_arch == self.os_arch,
            r.os_platform == self.os_platform,
    {
        MinecraftLauncherBuilder { assets_dir: Option::Some(String::from_str(dir)), ..self }
    }

    /// Set the libraries directory.
    pub fn libraries_dir(self, dir: &str) -> (r: Self)
        ensures
            r.libraries_dir.deep_view() == Option::Some(dir@),
            r.program_path == self.program_path,
            r.game_root_dir == self.game_root_dir,
            r.assets_dir == self.assets_dir,
            r.launcher_name_version == self.launcher_name_version,
            r.auth_info == self.auth_info,
            r.window_resolution == self.window_resolution,
            r.os_arch == self.os_arch,
            r.os_platform == self.os_platform,
    {
        MinecraftLauncherBuilder { libraries_dir: Option::Some(String::from_str(dir)), ..self }
    }

    /// Set the Java runtime to launch with.
    pub fn jre(self, path: &str) -> (r: Self)
        ensures
            r.program_path.deep_view() == Option::Some(path@),
            r.game_root_dir == self.game_root_dir,
            r.assets_dir == self.assets_dir,
            r.libraries_dir == self.libraries_dir,
            r.launcher_name_version == self.launcher_name_version,
            r.auth_info == self.auth_info,
            r.window_resolution == self.window_resolution,
            r.os_arch == self.os_arch,
            r.os_platform == self.os_platform,
    {
        MinecraftLauncherBuilder { program_path: Option::Some(String::from_str(path)), ..self }
    }

    /// Set the authenticated session.
    pub fn auth(self, auth: AuthInfo) -> (r: Self)
        ensures
            r.auth_info == Option::Some(auth),
            r.program_path == self.program_path,
            r.game_root_dir == self.game_root_dir,
            r.assets_dir == self.assets_dir,
            r.libraries_dir == self.libraries_dir,
            r.launcher_name_version == self.launcher_name_version,
            r.window_resolution == self.window_resolution,
            r.os_arch == self.os_arch,
            r.os_platform == self.os_platform,
    {
        MinecraftLauncherBuilder { auth_info: Option::Some(auth), ..self }
    }

    /// Set the launcher brand name and version.
    pub fn launcher(self, name: &str, version: &str) -> (r: Self)
        ensures
            r.launcher_name_version.deep_view() == Option::Some((name@, version@)),
            r.program_path == self.program_path,
            r.game_root_dir == self.game_root_dir,
            r.assets_dir == self.assets_dir,
            r.libraries_dir == self.libraries_dir,
            r.auth_info == self.auth_info,
            r.window_resolution == self.window_resolution,
            r.os_arch == self.os_arch,
            r.os_platform == self.os_platform,
    {
        MinecraftLauncherBuilder {
            launcher_name_version: Option::Some(
                (String::from_str(name), String::from_str(version)),
            ),
            ..self
        }
    }

    /// Set the window resolution.
    pub fn resolution(self, width: u32, height: u32) -> (r: Self)
        ensures
            r.window_resolution == Option::Some((width, height)),
            r.program_path == self.program_path,
            r.game_root_dir == self.game_root_dir,
            r.assets_dir == self.assets_dir,
            r.libraries_dir == self.libraries_dir,
            r.launcher_name_version == self.launcher_name_version,
            r.auth_info == self.auth_info,
            r.os_arch == self.os_arch,
            r.os_platform == self.os_platform,
    {
        MinecraftLauncherBuilder { window_resolution: Option::Some((width, height)), ..self }
    }

    /// Set the running platform: address width in bits and the
    /// operating-system name.
    pub fn platform(self, arch: &str, os: &str) -> (r: Self)
        ensures
            r.os_arch.deep_view() == Option::Some(arch@),
            r.os_platform.deep_view() == Option::Some(os@),
            r.program_path == self.program_path,
            r.game_root_dir == self.game_root_dir,
            r.assets_dir == self.assets_dir,
            r.libraries_dir == self.libraries_dir,
            r.launcher_name_version == self.launcher_name_version,
            r.auth_info == self.auth_info,
            r.window_resolution == self.window_resolution,
    {
        MinecraftLauncherBuilder {
            os_arch: Option::Some(String::from_str(arch)),
            os_platform: Option::Some(String::from_str(os)),
            ..self
        }
    }

    /// Assemble the launcher.  The root directory, the session, the
    /// Java runtime and the platform must have been set; the other
    /// fields fall back to their defaults.
    pub fn build(self) -> (r: MinecraftLauncher)
        requires
            self.program_path is Some,
            self.game_root_dir is Some,
            self.auth_info is Some,
            self.os_arch is Some,
            self.os_platform is Some,
        ensures
            r.program_path@ == self.program_path->0@,
            r.game_root_dir@ == self.game_root_dir->0@,
            r.assets_dir@ == (match self.assets_dir {
                Option::Some(a) => a@,
                Option::None => spec_join_path(self.game_root_dir->0@, "assets/"@),
            }),
            r.libraries_dir@ == (match self.libraries_dir {
                Option::Some(a) => a@,
                Option::None => spec_join_path(self.game_root_dir->0@, "libraries/"@),
            }),
            r.manager.versions_path@ == spec_join_path(self.game_root_dir->0@, "versions/"@),
            r.manager.os_arch@ == self.os_arch->0@,
            r.manager.os_platform@ == self.os_platform->0@,
            r.manager.versions.deep_view() == Seq::<MinecraftVersionV>::empty(),
            r.launcher_name_version.deep_view() == (match self.launcher_name_version {
                Option::Some(nv) => (nv.0@, nv.1@),
                Option::None => ("RMCLL"@, "0.1.0"@),
            }),
            r.auth_info == self.auth_info->0,
            r.window_resolution == (match self.window_resolution {
                Option::Some(wh) => wh,
                Option::None => (854u32, 480u32),
            }),
    {
        let root_dir = match self.game_root_dir {
            Option::Some(d) => d,
            Option::None => String::new(),
        };
        let program_path = match self.program_path {
            Option::Some(p) => p,
            Option::None => String::new(),
        };
        let auth_info = match self.auth_info {
            Option::Some(a) => a,
            Option::None => AuthInfo {
                access_token: String::new(),
                user_profile: crate::yggdrasil::Profile {
                    uuid: String::new(),
                    name: String::new(),
                    properties: Vec::new(),
                },
            },
        };
        let os_arch = match self.os_arch {
            Option::Some(a) => a,
            Option::None => String::new(),
        };
        let os_platform = match self.os_platform {
            Option::Some(p) => p,
            Option::None => String::new(),
        };
        let assets_dir = match self.assets_dir {
            Option::Some(a) => a,
            Option::None => join_path(root_dir.as_str(), "assets/"),
        };
        let libraries_dir = match self.libraries_dir {
            Option::Some(a) => a,
            Option::None => join_path(root_dir.as_str(), "libraries/"),
        };
        let versions_dir = join_path(root_dir.as_str(), "versions/");
        let manager = VersionManager::new(
            versions_dir.as_str(),
            os_arch.as_str(),
            os_platform.as_str(),
        );
        let launcher_name_version = match self.launcher_name_version {
            Option::Some(nv) => nv,
            Option::None => (String::from_str("RMCLL"), String::from_str("0.1.0")),
        };
        let window_resolution = match self.window_resolution {
            Option::Some(wh) => wh,
            Option::None => (854u32, 480u32),
        };
        MinecraftLauncher {
            program_path,
            game_root_dir: root_dir,
            assets_dir,
            libraries_dir,
            manager,
            launcher_name_version,
            auth_info,
            window_resolution,
        }
    }
}

/// A launcher for a game directory and session, with the Java
/// runtime and platform given explicitly and every other field at
/// its default.
pub fn create(game_dir: &str, game_auth_info: AuthInfo, jre_path: &str, arch: &str, os: &str) -> (r:
    MinecraftLauncher)
    ensures
        r.game_root_dir@ == game_dir@,
        r.program_path@ == jre_path@,
        r.auth_info == game_auth_info,
        r.assets_dir@ == spec_join_path(game_dir@, "assets/"@),
        r.libraries_dir@ == spec_join_path(game_dir@, "libraries/"@),
        r.manager.versions_path@ == spec_join_path(game_dir@, "versions/"@),
        r.manager.os_arch@ == arch@,
        r.manager.os_platform@ == os@,
        r.manager.versions.deep_view() == Seq::<MinecraftVersionV>::empty(),
        r.launcher_name_version.deep_view() == ("RMCLL"@, "0.1.0"@),
        r.window_resolution == (854u32, 480u32),
{
    builder().root_dir(game_dir).jre(jre_path).platform(arch, os).auth(game_auth_info).build()
}

/// The variable table launch-argument synthesis substitutes from:
/// session identity, directories, the resolved asset-index name,
/// window resolution, launcher brand, natives directory, primary
/// archive path and classpath; resolution failures yield empty
/// values.
pub open spec fn spec_argument_map(l: &MinecraftLauncher, v: MinecraftVersionV) -> Seq<
    (Seq<char>, Seq<char>),
> {
    let vs = l.manager.versions.deep_view();
    let root = l.manager.versions_path@;
    let fuel = l.manager.versions@.len() as nat;
    let token = l.auth_info.access_token@;
    let uuid = l.auth_info.user_profile.uuid@;
    let name = l.auth_info.user_profile.name@;
    let assets_index_name = match spec_resolve_asset_index(vs, v, root, fuel) {
        Result::Ok(Option::Some(a)) => a.asset_index_id,
        Result::Ok(Option::None) => Seq::<char>::empty(),
        Result::Err(_) => Seq::<char>::empty(),
    };
    let primary_jar = match spec_resolve_jar_name(vs, v, root, fuel) {
        Result::Ok(j) => spec_join_path(spec_join_path(root, j), j + ".jar"@),
        Result::Err(_) => Seq::<char>::empty(),
    };
    let classpath = match spec_classpath(
        vs,
        v,
        root,
        fuel,
        l.libraries_dir@,
        ":"@,
        l.manager.os_arch@,
        l.manager.os_platform@,
    ) {
        Result::Ok(c) => c,
        Result::Err(_) => Seq::<char>::empty(),
    };
    seq![
        ("auth_access_token"@, token),
        ("user_properties"@, "{}"@),
        ("user_property_map"@, "{}"@),
        ("auth_session"@, "token:"@ + token + ":"@ + uuid),
        ("auth_player_name"@, name),
        ("auth_uuid"@, uuid),
        ("user_type"@, "legacy"@),
        ("profile_name"@, name),
        ("version_name"@, v.id),
        ("game_directory"@, l.game_root_dir@),
        ("assets_root"@, l.assets_dir@),
        ("assets_index_name"@, assets_index_name),
        ("version_type"@, v.version_type),
        ("resolution_width"@, spec_u32_string(l.window_resolution.0 as nat)),
        ("resolution_height"@, spec_u32_string(l.window_resolution.1 as nat)),
        ("language"@, "en-us"@),
        ("launcher_name"@, l.launcher_name_version.0@),
        ("launcher_version"@, l.launcher_name_version.1@),
        (
            "natives_directory"@,
            spec_join_path(
                spec_join_path(root, v.id),
                v.id + "-natives-"@ + l.manager.os_platform@ + "-"@ + l.manager.os_arch@ + "/"@,
            ),
        ),
        ("primary_jar"@, primary_jar),
        ("classpath"@, classpath),
        ("classpath_separator"@, ":"@),
    ]
}

impl MinecraftLauncher {
    /// Build the variable table for a version.
    pub fn generate_argument_map(&self, version: &MinecraftVersion) -> (r: VariableMap)
        ensures
            r@ == spec_argument_map(self, version.deep_view()),
    {
        let mut map = VariableMap::new();
        let token = &self.auth_info.access_token;
        let uuid = &self.auth_info.user_profile.uuid;
        let name = &self.auth_info.user_profile.name;
        map.insert(String::from_str("auth_access_token"), token.clone());
        map.insert(String::from_str("user_properties"), String::from_str("{}"));
        map.insert(String::from_str("user_property_map"), String::from_str("{}"));
        map.insert(
            String::from_str("auth_session"),
            String::from_str("token:").concat(token.as_str()).concat(":").concat(uuid.as_str()),
        );
        map.insert(String::from_str("auth_player_name"), name.clone());
        map.insert(String::from_str("auth_uuid"), uuid.clone());
        map.insert(String::from_str("user_type"), String::from_str("legacy"));
        map.insert(String::from_str("profile_name"), name.clone());
        map.insert(String::from_str("version_name"), version.id.clone());
        map.insert(String::from_str("game_directory"), self.game_root_dir.clone());
        map.insert(String::from_str("assets_root"), self.assets_dir.clone());
        let assets_index_name = match version.asset_index(&self.manager) {
            Result::Ok(Option::Some(a)) => a.asset_index_id,
            Result::Ok(Option::None) => String::new(),
            Result::Err(_) => String::new(),
        };
        map.insert(String::from_str("assets_index_name"), assets_index_name);
        map.insert(String::from_str("version_type"), version.version_type.clone());
        map.insert(
            String::from_str("resolution_width"),
            u32_to_string(self.window_resolution.0),
        );
        map.insert(
            String::from_str("resolution_height"),
            u32_to_string(self.window_resolution.1),
        );
        map.insert(String::from_str("language"), String::from_str("en-us"));
        map.insert(String::from_str("launcher_name"), self.launcher_name_version.0.clone());
        map.insert(String::from_str("launcher_version"), self.launcher_name_version.1.clone());
        map.insert(
            String::from_str("natives_directory"),
            self.manager.get_natives_path(version.id.as_str()),
        );
        let primary_jar = match version.version_jar(&self.manager) {
            Result::Ok(j) => self.manager.get_primary_jar_path(j.as_str()),
            Result::Err(_) => String::new(),
        };
        map.insert(String::from_str("primary_jar"), primary_jar);
        let classpath = match version.classpath(self.libraries_dir.as_str(), &self.manager) {
            Result::Ok(c) => c,
            Result::Err(_) => String::new(),
        };
        map.insert(String::from_str("classpath"), classpath);
        map.insert(String::from_str("classpath_separator"), String::from_str(":"));
        proof {
            assert(map@ =~= spec_argument_map(self, version.deep_view()));
        }
        map
    }
}


/// The final launch record: runtime path, main class, ordered JVM and
/// game options, the natives target directory, and the native
/// archives to extract there.
#[derive(Debug)]
pub struct LaunchArguments {
    pub java_main_class: String,
    pub java_program_path: String,
    pub jvm_options: Vec<JvmOption>,
    pub game_options: Vec<GameOption>,
    pub game_native_path: String,
    pub game_natives: NativeCollection,
}

/// Abstract value of a `LaunchArguments`.
pub struct LaunchArgumentsV {
    pub java_main_class: Seq<char>,
    pub java_program_path: Seq<char>,
    pub jvm_options: Seq<Seq<char>>,
    pub game_options: Seq<(Seq<char>, Option<Seq<char>>)>,
    pub game_native_path: Seq<char>,
    pub game_natives: Seq<(Seq<char>, Seq<Seq<char>>)>,
}

impl DeepView for LaunchArguments {
    type V = LaunchArgumentsV;

    open spec fn deep_view(&self) -> LaunchArgumentsV {
        LaunchArgumentsV {
            java_main_class: self.java_main_class@,
            java_program_path: self.java_program_path@,
            jvm_options: self.jvm_options.deep_view(),
            game_options: self.game_options.deep_view(),
            game_native_path: self.game_native_path@,
            game_natives: self.game_natives.deep_view(),
        }
    }
}

/// The fixed baseline JVM options: heap sizing, garbage-collector
/// selection, and mod-loader compatibility flags.
pub open spec fn spec_baseline_jvm() -> Seq<Seq<char>> {
    seq![
        "-Xmn128m"@,
        "-Xmx2048m"@,
        "-XX:+UseG1GC"@,
        "-XX:-UseAdaptiveSizePolicy"@,
        "-XX:-OmitStackTraceInFastThrow"@,
        "-Dfml.ignoreInvalidMinecraftCertificates=true"@,
        "-Dfml.ignorePatchDiscrepancies=true"@,
    ]
}

/// The launch record synthesis builds for a version identifier, or
/// the first resolution failure: the chain-resolved main class (empty
/// when undefined), the native collection, and the game and JVM
/// options templated through the version's variable table.
pub open spec fn spec_to_arguments(l: &MinecraftLauncher, version_id: Seq<char>) -> Result<
    LaunchArgumentsV,
    ErrorV,
> {
    let vs = l.manager.versions.deep_view();
    let root = l.manager.versions_path@;
    let fuel = l.manager.versions@.len() as nat;
    match spec_find_version(vs, version_id) {
        Option::None => Result::Err(ErrorV::FileUnavailableError(spec_json_path(root, version_id))),
        Option::Some(v) => match spec_resolve_main_class(vs, v, root, fuel) {
            Result::Err(e) => Result::Err(e),
            Result::Ok(mc_opt) => match spec_to_native_collection(
                vs,
                v,
                root,
                fuel,
                l.libraries_dir@,
                l.manager.os_arch@,
                l.manager.os_platform@,
            ) {
                Result::Err(e) => Result::Err(e),
                Result::Ok(natives) => {
                    let sv = StrategyV::Mapped(spec_argument_map(l, v));
                    match spec_collect_game(vs, v, root, fuel, sv) {
                        Result::Err(e) => Result::Err(e),
                        Result::Ok(game) => Result::Ok(
                            LaunchArgumentsV {
                                java_main_class: match mc_opt {
                                    Option::Some(c) => c,
                                    Option::None => Seq::<char>::empty(),
                                },
                                java_program_path: l.program_path@,
                                jvm_options: spec_baseline_jvm() + spec_collect_jvm(
                                    l.manager.os_platform@,
                                    sv,
                                ),
                                game_options: game,
                                game_native_path: spec_lookup(
                                    spec_argument_map(l, v),
                                    "natives_directory"@,
                                ),
                                game_natives: natives,
                            },
                        ),
                    }
                },
            },
        },
    }
}

impl MinecraftLauncher {
    /// Synthesize the launch record for a version identifier.
    pub fn to_arguments(&self, version_id: &str) -> (r: Result<LaunchArguments, Error>)
        ensures
            ({
                match (r, spec_to_arguments(self, version_id@)) {
                    (Result::Ok(a), Result::Ok(av)) => a.deep_view() == av,
                    (Result::Err(e), Result::Err(ev)) => e.deep_view() == ev,
                    _ => false,
                }
            }),
    {
        let java_program_path = self.program_path.clone();
        let minecraft_version = match self.manager.version_of(version_id) {
            Result::Err(e) => {
                return Result::Err(e);
            },
            Result::Ok(v) => v,
        };
        let java_main_class = match minecraft_version.main_class(&self.manager) {
            Result::Err(e) => {
                return Result::Err(e);
            },
            Result::Ok(Option::Some(c)) => c,
            Result::Ok(Option::None) => String::new(),
        };
        let game_natives = match minecraft_version.to_native_collection(
            &self.manager,
            self.libraries_dir.as_str(),
        ) {
            Result::Err(e) => {
                return Result::Err(e);
            },
            Result::Ok(n) => n,
        };
        let mut jvm_options: Vec<JvmOption> = Vec::new();
        jvm_options.push(JvmOption::new(String::from_str("-Xmn128m")));
        jvm_options.push(JvmOption::new(String::from_str("-Xmx2048m")));
        jvm_options.push(JvmOption::new(String::from_str("-XX:+UseG1GC")));
        jvm_options.push(JvmOption::new(String::from_str("-XX:-UseAdaptiveSizePolicy")));
        jvm_options.push(JvmOption::new(String::from_str("-XX:-OmitStackTraceInFastThrow")));
        jvm_options.push(
            JvmOption::new(String::from_str("-Dfml.ignoreInvalidMinecraftCertificates=true")),
        );
        jvm_options.push(JvmOption::new(String::from_str("-Dfml.ignorePatchDiscrepancies=true")));
        proof {
            assert(jvm_options.deep_view() =~= spec_baseline_jvm());
        }
        let mut game_options: Vec<GameOption> = Vec::new();
        let map = self.generate_argument_map(minecraft_version);
        let game_native_path = map.resolve("natives_directory");
        let strategy = ParameterStrategy::map(map);
        match minecraft_version.collect_game_arguments(&self.manager, &mut game_options, &strategy)
        {
            Result::Err(e) => {
                return Result::Err(e);
            },
            Result::Ok(_) => {},
        }
        match minecraft_version.collect_jvm_arguments(&self.manager, &mut jvm_options, &strategy) {
            Result::Err(e) => {
                return Result::Err(e);
            },
            Result::Ok(_) => {},
        }
        proof {
            assert(game_options.deep_view() =~= Seq::<
                (Seq<char>, Option<Seq<char>>),
            >::empty() + game_options.deep_view());
        }
        Result::Ok(
            LaunchArguments {
                game_natives,
                game_native_path,
                game_options,
                jvm_options,
                java_main_class,
                java_program_path,
            },
        )
    }
}

/// The flat argument vector of paired game options: each flag, then
/// its value when it has one, in order.
pub open spec fn spec_flatten_game(game: Seq<(Seq<char>, Option<Seq<char>>)>) -> Seq<Seq<char>>
    decreases game.len(),
{
    if game.len() == 0 {
        Seq::empty()
    } else {
        let head: Seq<Seq<char>> = match game[0].1 {
            Option::Some(v) => seq![game[0].0, v],
            Option::None => seq![game[0].0],
        };
        head + spec_flatten_game(game.drop_first())
    }
}

impl LaunchArguments {
    /// The Java runtime to launch.
    pub fn program(&self) -> (r: String)
        ensures
            r@ == self.java_program_path@,
    {
        self.java_program_path.clone()
    }

    /// The full flat argument vector: the JVM options, the main
    /// class, then the flattened game options.
    pub fn args(&self) -> (r: Vec<String>)
        ensures
            r.deep_view() == self.jvm_options.deep_view() + seq![self.java_main_class@]
                + spec_flatten_game(self.game_options.deep_view()),
    {
        let ghost jvmv = self.jvm_options.deep_view();
        let ghost gamev = self.game_options.deep_view();
        let mut result: Vec<String> = Vec::new();
        let n = self.jvm_options.len();
        let mut i: usize = 0;
        while i < n
            invariant
                n == self.jvm_options@.len(),
                i <= n,
                jvmv == self.jvm_options.deep_view(),
                result.deep_view() == jvmv.subrange(0, i as int),
            decreases n - i,
        {
            let ghost prev = result.deep_view();
            result.push(self.jvm_options[i].0.clone());
            i = i + 1;
            proof {
                assert(result.deep_view() =~= prev.push(jvmv[i - 1]));
                assert(result.deep_view() =~= jvmv.subrange(0, i as int));
            }
        }
        proof {
            assert(jvmv.subrange(0, n as int) =~= jvmv);
        }
        let ghost prevm = result.deep_view();
        result.push(self.java_main_class.clone());
        proof {
            assert(result.deep_view() =~= prevm.push(self.java_main_class@));
            assert(result.deep_view() =~= jvmv + seq![self.java_main_class@]);
            assert(result.deep_view() + spec_flatten_game(gamev) =~= jvmv + seq![
                self.java_main_class@,
            ] + spec_flatten_game(gamev));
        }
        let ghost base = result.deep_view();
        let m = self.game_options.len();
        let mut k: usize = 0;
        proof {
            assert(gamev.skip(0) =~= gamev);
        }
        while k < m
            invariant
                m == self.game_options@.len(),
                k <= m,
                gamev == self.game_options.deep_view(),
                base + spec_flatten_game(gamev) == result.deep_view() + spec_flatten_game(
                    gamev.skip(k as int),
                ),
            decreases m - k,
        {
            proof {
                assert(gamev.skip(k as int)[0] == gamev[k as int]);
                assert(gamev[k as int] == self.game_options@[k as int].deep_view());
            }
            let opt = &self.game_options[k];
            let ghost prev = result.deep_view();
            result.push(opt.0.clone());
            proof {
                assert(result.deep_view() =~= prev.push(gamev[k as int].0));
            }
            match &opt.1 {
                Option::Some(v) => {
                    let ghost prev2 = result.deep_view();
                    result.push(v.clone());
                    proof {
                        assert(result.deep_view() =~= prev2.push(gamev[k as int].1->0));
                    }
                },
                Option::None => {},
            }
            k = k + 1;
            proof {
                assert(gamev.skip(k - 1).drop_first() =~= gamev.skip(k as int));
                assert(base + spec_flatten_game(gamev) =~= result.deep_view() + spec_flatten_game(
                    gamev.skip(k as int),
                ));
            }
        }
        proof {
            assert(gamev.skip(m as int) =~= Seq::<(Seq<char>, Option<Seq<char>>)>::empty());
            assert(result.deep_view() =~= base + spec_flatten_game(gamev));
            assert(result.deep_view() =~= jvmv + seq![self.java_main_class@] + spec_flatten_game(
                gamev,
            ));
        }
        result
    }
}

} // verus!
