//! A loaded game version and the plan of its launch: classpath, native
//! archives to extract, variables, and the substituted argument vector.

use crate::arguments::{build_arguments, launch_arguments};
use crate::classify::{classify, is_native, native_bundles, is_native_candidate, native_candidate, native_on, Libraries};
use crate::descriptor::{JsonLibrary, JsonVersion};
use crate::identity::{
    account_kind, account_kind_text, credentials, player_name_text, player_uuid_text, Credentials,
    UserResult,
};
use crate::paths::{
    classifier_archive, coordinate_path, lib_name_to_path, native_archive_path, split_on,
    ResolveError,
};
use crate::rules::Platform;
use crate::substitution::{replace_variables, substitute};
use vstd::prelude::*;
use vstd::string::StringExecFns;

verus! {

/// Where games and their shared resources live.
pub struct LauncherCore {
    pub base_path: String,
    pub assets_path: String,
}

impl LauncherCore {
    /// A core whose resources live under the base path itself.
    pub fn new(path: String) -> (r: Self)
        ensures
            r.base_path == path,
            r.assets_path == path,
    {
        Self { base_path: path.clone(), assets_path: path }
    }

    /// Moves the shared resources (libraries and assets) elsewhere, so that
    /// several installations can share them.
    pub fn set_assets_path(&mut self, path: String)
        ensures
            final(self).assets_path == path,
            final(self).base_path == old(self).base_path,
    {
        self.assets_path = path;
    }
}

/// The launcher's own settings that reach the game as variables.
pub struct LaunchConfig {
    pub launcher_name: String,
    pub launcher_version: String,
    pub resolution_width: String,
    pub resolution_height: String,
    pub classpath_separator: String,
}

/// A game version: its identifier, its directory and its resolved
/// descriptor.
pub struct GameVersion {
    pub id: String,
    pub path: String,
    pub version_json: JsonVersion,
    pub launcher_core: LauncherCore,
}

/// What a launch needs done: the native archives to extract into the
/// natives directory (each with the entry prefixes it leaves out, at the
/// same position), then the program to run with its arguments in the
/// working directory.
pub struct LaunchPlan {
    pub program: String,
    pub working_dir: String,
    pub arguments: Vec<String>,
    pub variables: Vec<(String, String)>,
    pub natives_dir: String,
    pub native_archives: Vec<String>,
    pub native_excludes: Vec<Vec<String>>,
}

/// Why a launch cannot be planned.
#[derive(Clone, Debug)]
pub enum LaunchError {
    /// A native bundle does not resolve to an archive.
    Resolve(ResolveError),
}

/// The path of a plain library relative to the shared libraries: its
/// artifact path where it declares one, else the path of its coordinate.
pub open spec fn library_path(d: JsonLibrary) -> Option<Seq<char>> {
    let by_coordinate = if split_on(d.name@, ':').len() >= 3 {
        Some(coordinate_path(split_on(d.name@, ':')))
    } else {
        None
    };
    match d.downloads {
        Some(dl) => match dl.artifact.path {
            Some(p) => Some(p@),
            None => by_coordinate,
        },
        None => by_coordinate,
    }
}

/// The classpath entries of the plain libraries, each followed by the
/// separator (native candidates contribute nothing); or the first plain
/// library that has no path.
pub open spec fn classpath_entries(libs: Seq<JsonLibrary>, assets: Seq<char>, sep: Seq<char>) -> Result<
    Seq<char>,
    JsonLibrary,
>
    decreases libs.len(),
{
    if libs.len() == 0 {
        Ok(Seq::empty())
    } else {
        match classpath_entries(libs.drop_last(), assets, sep) {
            Err(d) => Err(d),
            Ok(init) => if is_native_candidate(libs.last()) {
                Ok(init)
            } else {
                match library_path(libs.last()) {
                    Some(p) => Ok(init + assets + "/libraries/"@ + p + sep),
                    None => Err(libs.last()),
                }
            },
        }
    }
}

proof fn lemma_classpath_fails_on(libs: Seq<JsonLibrary>, assets: Seq<char>, sep: Seq<char>, i: int)
    requires
        0 <= i <= libs.len(),
        classpath_entries(libs.take(i), assets, sep) is Err,
    ensures
        classpath_entries(libs, assets, sep) == classpath_entries(libs.take(i), assets, sep),
    decreases libs.len() - i,
{
    if i < libs.len() {
        assert(libs.take(i + 1).drop_last() =~= libs.take(i));
        lemma_classpath_fails_on(libs, assets, sep, i + 1);
    } else {
        assert(libs.take(i) =~= libs);
    }
}

/// The archive of a native bundle for a platform key, relative to the
/// shared libraries: by coordinate without a classifier map, else through
/// it.
pub open spec fn archive_of(d: JsonLibrary, key: Seq<char>) -> Option<Seq<char>> {
    match d.natives {
        None => if split_on(d.name@, ':').len() >= 3 {
            Some(coordinate_path(split_on(d.name@, ':')))
        } else {
            None
        },
        Some(_) => match classifier_archive(d, key) {
            Some(p) => Some(p@),
            None => None,
        },
    }
}

/// The full archive paths of the native bundles among the dependencies,
/// in order; or the first native bundle that does not resolve.
pub open spec fn archive_list(deps: Seq<JsonLibrary>, p: Platform, assets: Seq<char>) -> Result<
    Seq<Seq<char>>,
    JsonLibrary,
>
    decreases deps.len(),
{
    if deps.len() == 0 {
        Ok(Seq::empty())
    } else {
        match archive_list(deps.drop_last(), p, assets) {
            Err(d) => Err(d),
            Ok(init) => if is_native(deps.last(), p) {
                match archive_of(deps.last(), p.os_name@) {
                    Some(rel) => Ok(init.push(assets + "/libraries/"@ + rel)),
                    None => Err(deps.last()),
                }
            } else {
                Ok(init)
            },
        }
    }
}

/// Whether `e` is the error that reports native bundle `d` as unresolvable
/// for a platform key: a malformed coordinate without a classifier map, an
/// unsupported platform with one.
pub open spec fn reports_unresolved(d: JsonLibrary, key: Seq<char>, e: ResolveError) -> bool {
    match d.natives {
        None => e == ResolveError::MalformedCoordinate(d.name),
        Some(_) => e matches ResolveError::UnsupportedPlatform(c, k) && c == d.name && k@ == key,
    }
}

proof fn lemma_archive_list_fails_on(deps: Seq<JsonLibrary>, p: Platform, assets: Seq<char>, i: int)
    requires
        0 <= i <= deps.len(),
        archive_list(deps.take(i), p, assets) is Err,
    ensures
        archive_list(deps, p, assets) == archive_list(deps.take(i), p, assets),
    decreases deps.len() - i,
{
    if i < deps.len() {
        assert(deps.take(i + 1).drop_last() =~= deps.take(i));
        lemma_archive_list_fails_on(deps, p, assets, i + 1);
    } else {
        assert(deps.take(i) =~= deps);
    }
}

/// The program that runs the game on an operating system.
pub open spec fn java_program(os_name: Seq<char>) -> Seq<char> {
    if os_name == "linux"@ {
        "java"@
    } else if os_name == "macos"@ {
        "/usr/bin/java"@
    } else if os_name == "windows"@ {
        "java.exe"@
    } else {
        Seq::empty()
    }
}

/// The program that runs the game on an operating system.
pub fn java_command(os_name: &str) -> (r: String)
    ensures
        r@ == java_program(os_name@),
{
    proof {
        reveal_strlit("linux");
        reveal_strlit("macos");
        reveal_strlit("windows");
        assert("macos"@[0] != "linux"@[0]);
        assert("windows"@.len() != "linux"@.len());
        assert("windows"@.len() != "macos"@.len());
    }
    let os = String::from_str(os_name);
    if os == String::from_str("linux") {
        String::from_str("java")
    } else if os == String::from_str("macos") {
        String::from_str("/usr/bin/java")
    } else if os == String::from_str("windows") {
        String::from_str("java.exe")
    } else {
        let r = String::new();
        proof {
            assert(r@ =~= Seq::<char>::empty());
        }
        r
    }
}

/// The classpath: the entries of the plain libraries among the
/// dependencies, then the game's own jar. Fails on the first plain library
/// that has neither an artifact path nor a well-formed coordinate.
pub fn build_classpath(libs: &Vec<JsonLibrary>, assets: &String, sep: &String, game_jar: &String) -> (r: Result<String, ResolveError>)
    ensures
        r is Ok <==> classpath_entries(libs@, assets@, sep@) is Ok,
        r matches Ok(cp) ==> cp@ == classpath_entries(libs@, assets@, sep@)->Ok_0 + game_jar@,
        r matches Err(e) ==> e == ResolveError::MalformedCoordinate(
            classpath_entries(libs@, assets@, sep@)->Err_0.name,
        ),
{
    let mut out = String::new();
    let mut i: usize = 0;
    proof {
        assert(libs@.take(0) =~= Seq::<JsonLibrary>::empty());
        assert(out@ =~= Seq::<char>::empty());
    }
    while i < libs.len()
        invariant
            i <= libs@.len(),
            classpath_entries(libs@.take(i as int), assets@, sep@) == Ok::<Seq<char>, JsonLibrary>(out@),
        decreases libs@.len() - i,
    {
        proof {
            assert(libs@.take(i + 1).drop_last() =~= libs@.take(i as int));
            assert(libs@.take(i + 1).last() == libs@[i as int]);
        }
        if !native_candidate(&libs[i]) {
            let declared = match &libs[i].downloads {
                Some(d) => match &d.artifact.path {
                    Some(p) => Some(p.clone()),
                    None => None,
                },
                None => None,
            };
            let rel = match declared {
                Some(p) => p,
                None => match lib_name_to_path(libs[i].name.clone()) {
                    Ok(p) => p,
                    Err(e) => {
                        proof {
                            assert(classpath_entries(libs@.take(i + 1), assets@, sep@) == Err::<Seq<char>, JsonLibrary>(libs@[i as int]));
                            lemma_classpath_fails_on(libs@, assets@, sep@, i + 1);
                        }
                        return Err(e);
                    },
                },
            };
            proof {
                assert(library_path(libs@[i as int]) == Some(rel@));
            }
            out.append(assets.as_str());
            out.append("/libraries/");
            out.append(rel.as_str());
            out.append(sep.as_str());
        }
        proof {
            assert(classpath_entries(libs@.take(i + 1), assets@, sep@) =~= Ok::<Seq<char>, JsonLibrary>(out@));
        }
        i = i + 1;
    }
    proof {
        assert(libs@.take(i as int) =~= libs@);
    }
    out.append(game_jar.as_str());
    Ok(out)
}

/// The full archive path of each native bundle among the dependencies,
/// keyed by the platform's operating-system name; fails on the first bundle
/// that does not resolve.
pub fn native_archives(deps: &Vec<JsonLibrary>, platform: &Platform, assets: &String) -> (r: Result<Vec<String>, ResolveError>)
    ensures
        r is Ok <==> archive_list(deps@, *platform, assets@) is Ok,
        r matches Ok(paths) ==> paths@.map_values(|x: String| x@) == archive_list(deps@, *platform, assets@)->Ok_0,
        r matches Err(e) ==> reports_unresolved(archive_list(deps@, *platform, assets@)->Err_0, platform.os_name@, e),
{
    let mut out: Vec<String> = Vec::new();
    let mut i: usize = 0;
    proof {
        assert(deps@.take(0) =~= Seq::<JsonLibrary>::empty());
        assert(out@.map_values(|x: String| x@) =~= Seq::<Seq<char>>::empty());
    }
    while i < deps.len()
        invariant
            i <= deps@.len(),
            archive_list(deps@.take(i as int), *platform, assets@) == Ok::<Seq<Seq<char>>, JsonLibrary>(out@.map_values(|x: String| x@)),
        decreases deps@.len() - i,
    {
        proof {
            assert(deps@.take(i + 1).drop_last() =~= deps@.take(i as int));
            assert(deps@.take(i + 1).last() == deps@[i as int]);
        }
        if native_on(&deps[i], platform) {
            match native_archive_path(&deps[i], platform.os_name.as_str()) {
                Ok(rel) => {
                    let mut full = assets.clone();
                    full.append("/libraries/");
                    full.append(rel.as_str());
                    let ghost prev = out@;
                    out.push(full);
                    proof {
                        assert(archive_of(deps@[i as int], platform.os_name@) == Some(rel@));
                        assert(out@.map_values(|x: String| x@) =~= prev.map_values(|x: String| x@).push(full@));
                    }
                },
                Err(e) => {
                    proof {
                        assert(archive_list(deps@.take(i + 1), *platform, assets@) == Err::<Seq<Seq<char>>, JsonLibrary>(deps@[i as int]));
                        lemma_archive_list_fails_on(deps@, *platform, assets@, i + 1);
                    }
                    return Err(e);
                },
            }
        }
        i = i + 1;
    }
    proof {
        assert(deps@.take(i as int) =~= deps@);
    }
    Ok(out)
}

/// The entry prefixes that extraction leaves out of a native bundle.
pub open spec fn excludes_of(d: JsonLibrary) -> Seq<String> {
    match d.extract {
        Some(x) => x.exclude@,
        None => Seq::empty(),
    }
}

proof fn lemma_archive_count(deps: Seq<JsonLibrary>, p: Platform, assets: Seq<char>)
    ensures
        archive_list(deps, p, assets) matches Ok(s) ==> s.len() == native_bundles(deps, p).len(),
    decreases deps.len(),
{
    if deps.len() > 0 {
        lemma_archive_count(deps.drop_last(), p, assets);
    }
}

fn copy_strings(v: &Vec<String>) -> (r: Vec<String>)
    ensures
        r@ == v@,
{
    let mut r: Vec<String> = Vec::new();
    let mut i: usize = 0;
    while i < v.len()
        invariant
            i <= v@.len(),
            r@ == v@.take(i as int),
        decreases v@.len() - i,
    {
        r.push(v[i].clone());
        proof {
            assert(v@.take(i + 1) =~= v@.take(i as int).push(v@[i as int]));
        }
        i = i + 1;
    }
    proof {
        assert(v@.take(i as int) =~= v@);
    }
    r
}

/// The exclusion prefixes of each native bundle among the dependencies, in
/// the order of the bundles.
pub fn native_excludes(deps: &Vec<JsonLibrary>, platform: &Platform) -> (r: Vec<Vec<String>>)
    ensures
        r@.map_values(|v: Vec<String>| v@) == native_bundles(deps@, *platform).map_values(
            |d: JsonLibrary| excludes_of(d),
        ),
{
    let mut out: Vec<Vec<String>> = Vec::new();
    let mut i: usize = 0;
    proof {
        assert(deps@.take(0) =~= Seq::<JsonLibrary>::empty());
        assert(out@.map_values(|v: Vec<String>| v@) =~= native_bundles(deps@.take(0), *platform).map_values(
            |d: JsonLibrary| excludes_of(d),
        ));
    }
    while i < deps.len()
        invariant
            i <= deps@.len(),
            out@.map_values(|v: Vec<String>| v@) == native_bundles(deps@.take(i as int), *platform).map_values(
                |d: JsonLibrary| excludes_of(d),
            ),
        decreases deps@.len() - i,
    {
        proof {
            assert(deps@.take(i + 1).drop_last() =~= deps@.take(i as int));
            assert(deps@.take(i + 1).last() == deps@[i as int]);
        }
        let ghost prev = out@;
        if native_on(&deps[i], platform) {
            let ex = match &deps[i].extract {
                Some(x) => copy_strings(&x.exclude),
                None => Vec::new(),
            };
            out.push(ex);
            proof {
                assert(ex@ =~= excludes_of(deps@[i as int]));
                assert(out@.map_values(|v: Vec<String>| v@) =~= prev.map_values(|v: Vec<String>| v@).push(ex@));
            }
        }
        proof {
            assert(out@.map_values(|v: Vec<String>| v@) =~= native_bundles(deps@.take(i + 1), *platform).map_values(
                |d: JsonLibrary| excludes_of(d),
            ));
        }
        i = i + 1;
    }
    proof {
        assert(deps@.take(i as int) =~= deps@);
    }
    out
}

/// Substitutes the variables into every argument.
pub fn substitute_all(args: &Vec<String>, vars: &Vec<(String, String)>) -> (r: Vec<String>)
    ensures
        r@.len() == args@.len(),
        forall|i: int| 0 <= i < args@.len() ==> #[trigger] r@[i]@ == substitute(args@[i]@, vars@),
{
    let mut out: Vec<String> = Vec::new();
    let mut i: usize = 0;
    while i < args.len()
        invariant
            i <= args@.len(),
            out@.len() == i,
            forall|j: int| 0 <= j < i ==> #[trigger] out@[j]@ == substitute(args@[j]@, vars@),
        decreases args@.len() - i,
    {
        out.push(replace_variables(args[i].as_str(), vars));
        i = i + 1;
    }
    out
}

/// The names and values of the launch variables, as text.
pub open spec fn entries_view(vars: Seq<(String, String)>) -> Seq<(Seq<char>, Seq<char>)> {
    vars.map_values(|e: (String, String)| (e.0@, e.1@))
}

fn push_entry(vars: &mut Vec<(String, String)>, name: &str, value: String)
    ensures
        entries_view(final(vars)@) == entries_view(old(vars)@).push((name@, value@)),
{
    let ghost prev = vars@;
    vars.push((String::from_str(name), value));
    proof {
        assert(entries_view(vars@) =~= entries_view(prev).push((name@, value@)));
    }
}

/// The text of an optional string, empty where it is absent.
pub open spec fn text_or_empty(s: Option<String>) -> Seq<char> {
    match s {
        Some(t) => t@,
        None => Seq::empty(),
    }
}

/// The launch variables, as text, in their fixed order.
pub open spec fn variable_table(
    g: GameVersion,
    classpath: Seq<char>,
    natives_dir: Seq<char>,
    player: Seq<char>,
    uuid: Seq<char>,
    token: Seq<char>,
    xuid: Seq<char>,
    user_type: Seq<char>,
    config: LaunchConfig,
) -> Seq<(Seq<char>, Seq<char>)> {
    seq![
        ("classpath"@, classpath),
        ("natives_directory"@, natives_dir),
        ("launcher_name"@, config.launcher_name@),
        ("launcher_version"@, config.launcher_version@),
        ("version_name"@, g.id@),
        ("game_directory"@, g.launcher_core.base_path@),
        ("assets_root"@, g.launcher_core.assets_path@ + "/assets"@),
        ("assets_index_name"@, match g.version_json.asset_index {
            Some(a) => a.id@,
            None => Seq::empty(),
        }),
        ("resolution_width"@, config.resolution_width@),
        ("resolution_height"@, config.resolution_height@),
        ("auth_player_name"@, player),
        ("auth_uuid"@, uuid),
        ("auth_access_token"@, token),
        ("auth_xuid"@, xuid),
        ("user_type"@, user_type),
    ]
}

impl GameVersion {
    /// A game version of a launcher core: its directory is
    /// `<base>/versions/<version>`.
    pub fn new(core: LauncherCore, version: String, version_json: JsonVersion) -> (r: Self)
        ensures
            r.id == version,
            r.path@ == core.base_path@ + "/versions/"@ + version@,
            r.version_json == version_json,
            r.launcher_core == core,
    {
        let mut path = core.base_path.clone();
        path.append("/versions/");
        path.append(version.as_str());
        GameVersion { id: version, path, version_json, launcher_core: core }
    }

    /// The path of the game's own jar: `<version dir>/<id>.jar`.
    pub fn game_jar(&self) -> (r: String)
        ensures
            r@ == self.path@ + "/"@ + self.id@ + ".jar"@,
    {
        let mut jar = self.path.clone();
        jar.append("/");
        jar.append(self.id.as_str());
        jar.append(".jar");
        jar
    }

    /// The directory that native bundles are extracted into:
    /// `<version dir>/natives-<os name>`.
    pub fn natives_dir(&self, platform: &Platform) -> (r: String)
        ensures
            r@ == self.path@ + "/natives-"@ + platform.os_name@,
    {
        let mut dir = self.path.clone();
        dir.append("/natives-");
        dir.append(platform.os_name.as_str());
        dir
    }

    /// Splits the version's dependencies into plain libraries and the
    /// native bundles of the platform. The version is consumed: its
    /// dependencies move into the result.
    pub fn get_libraries_and_natives(self, platform: &Platform) -> (r: Libraries)
        ensures
            r.libs@ == crate::classify::plain_libraries(self.version_json.libraries@),
            r.natives@ == crate::classify::native_bundles(self.version_json.libraries@, *platform),
    {
        classify(self.version_json.libraries, platform)
    }

    /// The unsubstituted launch arguments of the version on a platform.
    pub fn get_arguments(&self, platform: &Platform) -> (r: Vec<String>)
        ensures
            r@ == launch_arguments(self.version_json, *platform),
    {
        build_arguments(&self.version_json, platform)
    }

    /// The variables of a launch, in a fixed order.
    pub fn launch_variables(
        &self,
        classpath: String,
        natives_dir: String,
        creds: Credentials,
        user_type: String,
        config: &LaunchConfig,
    ) -> (r: Vec<(String, String)>)
        ensures
            entries_view(r@) == variable_table(
                *self,
                classpath@,
                natives_dir@,
                creds.player_name@,
                creds.uuid@,
                creds.access_token@,
                creds.xuid@,
                user_type@,
                *config,
            ),
    {
        let mut vars: Vec<(String, String)> = Vec::new();
        proof {
            assert(entries_view(vars@) =~= Seq::<(Seq<char>, Seq<char>)>::empty());
        }
        push_entry(&mut vars, "classpath", classpath);
        push_entry(&mut vars, "natives_directory", natives_dir);
        push_entry(&mut vars, "launcher_name", config.launcher_name.clone());
        push_entry(&mut vars, "launcher_version", config.launcher_version.clone());
        push_entry(&mut vars, "version_name", self.id.clone());
        push_entry(&mut vars, "game_directory", self.launcher_core.base_path.clone());
        let mut assets_root = self.launcher_core.assets_path.clone();
        assets_root.append("/assets");
        push_entry(&mut vars, "assets_root", assets_root);
        let index_name = match &self.version_json.asset_index {
            Some(a) => a.id.clone(),
            None => String::new(),
        };
        push_entry(&mut vars, "assets_index_name", index_name);
        push_entry(&mut vars, "resolution_width", config.resolution_width.clone());
        push_entry(&mut vars, "resolution_height", config.resolution_height.clone());
        push_entry(&mut vars, "auth_player_name", creds.player_name);
        push_entry(&mut vars, "auth_uuid", creds.uuid);
        push_entry(&mut vars, "auth_access_token", creds.access_token);
        push_entry(&mut vars, "auth_xuid", creds.xuid);
        push_entry(&mut vars, "user_type", user_type);
        proof {
            assert(entries_view(vars@) =~= variable_table(
                *self,
                classpath@,
                natives_dir@,
                creds.player_name@,
                creds.uuid@,
                creds.access_token@,
                creds.xuid@,
                user_type@,
                *config,
            ));
        }
        vars
    }

    /// Plans the launch of the version for a user on a platform. Succeeds
    /// exactly when every native bundle resolves to an archive and every
    /// plain library to a path; otherwise the error names the first native
    /// bundle, else the first plain library, that does not. Identity values that
    /// are not resolved here for the user's account kind are empty. The
    /// arguments are the client-jar
    /// property followed by the built arguments with the launch variables
    /// substituted.
    pub fn launch(&self, user: &UserResult, platform: &Platform, config: &LaunchConfig) -> (r: Result<LaunchPlan, LaunchError>)
        ensures
            r is Ok <==> (archive_list(self.version_json.libraries@, *platform, self.launcher_core.assets_path@) is Ok && classpath_entries(
                self.version_json.libraries@,
                self.launcher_core.assets_path@,
                config.classpath_separator@,
            ) is Ok),
            r matches Err(LaunchError::Resolve(e)) ==> (archive_list(self.version_json.libraries@, *platform, self.launcher_core.assets_path@) is Err ==> reports_unresolved(
                archive_list(self.version_json.libraries@, *platform, self.launcher_core.assets_path@)->Err_0,
                platform.os_name@,
                e,
            )),
            r matches Err(LaunchError::Resolve(e)) ==> (archive_list(self.version_json.libraries@, *platform, self.launcher_core.assets_path@) is Ok ==> e
                == ResolveError::MalformedCoordinate(classpath_entries(
                self.version_json.libraries@,
                self.launcher_core.assets_path@,
                config.classpath_separator@,
            )->Err_0.name)),
            r matches Ok(plan) ==> {
                &&& plan.native_archives@.map_values(|x: String| x@) == archive_list(
                    self.version_json.libraries@,
                    *platform,
                    self.launcher_core.assets_path@,
                )->Ok_0
                &&& plan.native_excludes@.map_values(|v: Vec<String>| v@) == native_bundles(
                    self.version_json.libraries@,
                    *platform,
                ).map_values(|d: JsonLibrary| excludes_of(d))
                &&& plan.native_archives@.len() == plan.native_excludes@.len()
                &&& plan.program@ == java_program(platform.os_name@)
                &&& plan.natives_dir@ == self.path@ + "/natives-"@ + platform.os_name@
                &&& plan.working_dir == self.path
                &&& entries_view(plan.variables@) == variable_table(
                    *self,
                    classpath_entries(
                        self.version_json.libraries@,
                        self.launcher_core.assets_path@,
                        config.classpath_separator@,
                    )->Ok_0 + self.path@ + "/"@ + self.id@ + ".jar"@,
                    self.path@ + "/natives-"@ + platform.os_name@,
                    player_name_text(*user),
                    player_uuid_text(*user),
                    Seq::empty(),
                    Seq::empty(),
                    account_kind_text(*user),
                    *config,
                )
                &&& plan.arguments@.len() == launch_arguments(self.version_json, *platform).len() + 1
                &&& plan.arguments@[0]@ == "-Dminecraft.client.jar="@ + self.path@ + "/"@ + self.id@ + ".jar"@
                &&& forall|i: int|
                    0 <= i < launch_arguments(self.version_json, *platform).len() ==> #[trigger] plan.arguments@[i
                        + 1]@ == substitute(launch_arguments(self.version_json, *platform)[i]@, plan.variables@)
            },
    {
        let natives_dir = self.natives_dir(platform);
        let assets = &self.launcher_core.assets_path;
        let archives = match native_archives(&self.version_json.libraries, platform, assets) {
            Ok(a) => a,
            Err(e) => {
                return Err(LaunchError::Resolve(e));
            },
        };
        let creds = match credentials(user) {
            Ok(c) => c,
            Err(_) => Credentials {
                player_name: String::new(),
                uuid: String::new(),
                access_token: String::new(),
                xuid: String::new(),
            },
        };
        proof {
            assert(creds.access_token@ =~= Seq::<char>::empty());
            assert(creds.xuid@ =~= Seq::<char>::empty());
        }
        let jar = self.game_jar();
        let classpath = match build_classpath(
            &self.version_json.libraries,
            assets,
            &config.classpath_separator,
            &jar,
        ) {
            Ok(cp) => cp,
            Err(e) => {
                return Err(LaunchError::Resolve(e));
            },
        };
        let excludes = native_excludes(&self.version_json.libraries, platform);
        proof {
            lemma_archive_count(self.version_json.libraries@, *platform, assets@);
        }
        let variables = self.launch_variables(
            classpath,
            natives_dir.clone(),
            creds,
            account_kind(user),
            config,
        );
        proof {
            assert(creds.player_name@ =~= player_name_text(*user));
            assert(creds.uuid@ =~= player_uuid_text(*user));
            assert(classpath@ == classpath_entries(
                self.version_json.libraries@,
                self.launcher_core.assets_path@,
                config.classpath_separator@,
            )->Ok_0 + self.path@ + "/"@ + self.id@ + ".jar"@);
        }
        let built = self.get_arguments(platform);
        let substituted = substitute_all(&built, &variables);
        let mut arguments: Vec<String> = Vec::new();
        let mut property = String::from_str("-Dminecraft.client.jar=");
        property.append(jar.as_str());
        arguments.push(property);
        let mut i: usize = 0;
        while i < substituted.len()
            invariant
                i <= substituted@.len(),
                arguments@.len() == i + 1,
                arguments@[0] == property,
                forall|j: int| 0 <= j < i ==> #[trigger] arguments@[j + 1] == substituted@[j],
            decreases substituted@.len() - i,
        {
            arguments.push(substituted[i].clone());
            i = i + 1;
        }
        Ok(
            LaunchPlan {
                program: java_command(platform.os_name.as_str()),
                working_dir: self.path.clone(),
                arguments,
                variables,
                natives_dir,
                native_archives: archives,
                native_excludes: excludes,
            },
        )
    }
}

} // verus!
