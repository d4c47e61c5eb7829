//! Version descriptors and their resolution: walking inheritance
//! chains, deciding per platform which library artifact applies,
//! building classpaths and native-extraction collections, and
//! synthesizing game and JVM argument lists.

use vstd::prelude::*;

use crate::strutil::{
    spec_join_path, spec_replace_char, spec_find_char, spec_starts_with, spec_replace_all,
    join_path, replace_char, find_char, str_eq, str_to_chars, chars_range_to_string,
    str_starts_with, replace_all,
};
use crate::parsing::{
    ParameterStrategy, StrategyV, spec_parse_token, spec_token_stream, strings_view, parse,
    tokenize,
};
use crate::launcher::{GameOption, JvmOption};

verus! {

/// An artifact reference: hashed-and-sized, packed (needs unpacking),
/// or raw.  Only the URL matters to the core; size and hash are
/// pass-through data for the download layer.
#[derive(Debug)]
pub enum DownloadInfo {
    PreHashed { size: i32, url: String, sha1: String },
    RawXzip { url: String },
    Raw { url: String },
}

/// Abstract value of a `DownloadInfo`.
pub enum DownloadInfoV {
    PreHashed { size: i32, url: Seq<char>, sha1: Seq<char> },
    RawXzip { url: Seq<char> },
    Raw { url: Seq<char> },
}

impl DeepView for DownloadInfo {
    type V = DownloadInfoV;

    open spec fn deep_view(&self) -> DownloadInfoV {
        match self {
            DownloadInfo::PreHashed { size, url, sha1 } => DownloadInfoV::PreHashed {
                size: *size,
                url: url@,
                sha1: sha1@,
            },
            DownloadInfo::RawXzip { url } => DownloadInfoV::RawXzip { url: url@ },
            DownloadInfo::Raw { url } => DownloadInfoV::Raw { url: url@ },
        }
    }
}

impl DownloadInfo {
    /// An equal-valued copy.
    pub fn duplicate(&self) -> (r: DownloadInfo)
        ensures
            r.deep_view() == self.deep_view(),
    {
        match self {
            DownloadInfo::PreHashed { size, url, sha1 } => DownloadInfo::PreHashed {
                size: *size,
                url: url.clone(),
                sha1: sha1.clone(),
            },
            DownloadInfo::RawXzip { url } => DownloadInfo::RawXzip { url: url.clone() },
            DownloadInfo::Raw { url } => DownloadInfo::Raw { url: url.clone() },
        }
    }

    /// The artifact's URL.
    pub fn url(&self) -> (r: &String)
        ensures
            r@ == self.spec_url(),
    {
        match self {
            DownloadInfo::PreHashed { url, .. } => url,
            DownloadInfo::RawXzip { url } => url,
            DownloadInfo::Raw { url } => url,
        }
    }

    /// The URL a reference carries, whatever its form.
    pub open spec fn spec_url(&self) -> Seq<char> {
        match self {
            DownloadInfo::PreHashed { url, .. } => url@,
            DownloadInfo::RawXzip { url } => url@,
            DownloadInfo::Raw { url } => url@,
        }
    }
}

/// Per-platform artifact selection for one library: a map from a
/// platform key (`{bits}bit {os}`) to a classifier and its artifact, a
/// default artifact used when no key matches, and the ordered
/// applicability rules.
#[derive(Debug)]
pub struct DownloadStrategy {
    pub with_classifier: Vec<(String, (String, DownloadInfo))>,
    pub default: Option<DownloadInfo>,
    pub rules: Vec<(String, String)>,
}

/// Abstract value of a `DownloadStrategy`.
pub struct DownloadStrategyV {
    pub with_classifier: Seq<(Seq<char>, (Seq<char>, DownloadInfoV))>,
    pub default: Option<DownloadInfoV>,
    pub rules: Seq<(Seq<char>, Seq<char>)>,
}

impl DeepView for DownloadStrategy {
    type V = DownloadStrategyV;

    open spec fn deep_view(&self) -> DownloadStrategyV {
        DownloadStrategyV {
            with_classifier: self.with_classifier.deep_view(),
            default: self.default.deep_view(),
            rules: self.rules.deep_view(),
        }
    }
}

impl DownloadStrategy {
    /// An equal-valued copy.
    pub fn duplicate(&self) -> (r: DownloadStrategy)
        ensures
            r.deep_view() == self.deep_view(),
    {
        let mut with_classifier: Vec<(String, (String, DownloadInfo))> = Vec::new();
        let mut i: usize = 0;
        while i < self.with_classifier.len()
            invariant
                i <= self.with_classifier@.len(),
                with_classifier@.len() == i,
                forall|j: int|
                    0 <= j < i ==> #[trigger] with_classifier.deep_view()[j]
                        == self.with_classifier.deep_view()[j],
            decreases self.with_classifier@.len() - i,
        {
            let entry = &self.with_classifier[i];
            let ghost prev = with_classifier.deep_view();
            with_classifier.push((entry.0.clone(), (entry.1.0.clone(), entry.1.1.duplicate())));
            i = i + 1;
            proof {
                assert forall|j: int|
                    0 <= j < i implies #[trigger] with_classifier.deep_view()[j]
                    == self.with_classifier.deep_view()[j] by {
                    assert(with_classifier.deep_view()[j] == with_classifier@[j].deep_view());
                    assert(self.with_classifier.deep_view()[j]
                        == self.with_classifier@[j].deep_view());
                    if j < i - 1 {
                        assert(prev[j] == self.with_classifier.deep_view()[j]);
                        assert(prev[j] == with_classifier@[j].deep_view());
                    }
                }
            }
        }
        let default = match &self.default {
            Option::Some(d) => Option::Some(d.duplicate()),
            Option::None => Option::None,
        };
        let mut rules: Vec<(String, String)> = Vec::new();
        let mut j: usize = 0;
        while j < self.rules.len()
            invariant
                j <= self.rules@.len(),
                rules@.len() == j,
                forall|k: int|
                    0 <= k < j ==> #[trigger] rules.deep_view()[k] == self.rules.deep_view()[k],
            decreases self.rules@.len() - j,
        {
            let rule = &self.rules[j];
            let ghost prev = rules.deep_view();
            rules.push((rule.0.clone(), rule.1.clone()));
            j = j + 1;
            proof {
                assert forall|k: int|
                    0 <= k < j implies #[trigger] rules.deep_view()[k]
                    == self.rules.deep_view()[k] by {
                    assert(rules.deep_view()[k] == rules@[k].deep_view());
                    assert(self.rules.deep_view()[k] == self.rules@[k].deep_view());
                    if k < j - 1 {
                        assert(prev[k] == self.rules.deep_view()[k]);
                        assert(prev[k] == rules@[k].deep_view());
                    }
                }
            }
        }
        let r = DownloadStrategy { with_classifier, default, rules };
        proof {
            assert(r.with_classifier.deep_view() =~= self.with_classifier.deep_view());
            assert(r.rules.deep_view() =~= self.rules.deep_view());
        }
        r
    }
}

/// One library entry: its maven-style coordinate, whether its artifact
/// is a platform-native archive, its per-platform selection strategy,
/// and the path prefixes excluded from native extraction.
#[derive(Debug)]
pub struct Library {
    pub name: String,
    pub is_native: bool,
    pub downloads: DownloadStrategy,
    pub extract_ignored: Vec<String>,
}

/// Abstract value of a `Library`.
pub struct LibraryV {
    pub name: Seq<char>,
    pub is_native: bool,
    pub downloads: DownloadStrategyV,
    pub extract_ignored: Seq<Seq<char>>,
}

impl DeepView for Library {
    type V = LibraryV;

    open spec fn deep_view(&self) -> LibraryV {
        LibraryV {
            name: self.name@,
            is_native: self.is_native,
            downloads: self.downloads.deep_view(),
            extract_ignored: self.extract_ignored.deep_view(),
        }
    }
}

/// An equal-valued copy of a vector of strings.
pub fn duplicate_strings(v: &Vec<String>) -> (r: Vec<String>)
    ensures
        r.deep_view() == v.deep_view(),
{
    let mut r: Vec<String> = Vec::new();
    let mut i: usize = 0;
    while i < v.len()
        invariant
            i <= v@.len(),
            r@.len() == i,
            forall|j: int| 0 <= j < i ==> #[trigger] r.deep_view()[j] == v.deep_view()[j],
        decreases v@.len() - i,
    {
        let ghost prev = r.deep_view();
        r.push(v[i].clone());
        i = i + 1;
        proof {
            assert forall|j: int| 0 <= j < i implies #[trigger] r.deep_view()[j]
                == v.deep_view()[j] by {
                assert(r.deep_view()[j] == r@[j].deep_view());
                assert(v.deep_view()[j] == v@[j].deep_view());
                if j < i - 1 {
                    assert(prev[j] == v.deep_view()[j]);
                    assert(prev[j] == r@[j].deep_view());
                }
            }
        }
    }
    proof {
        assert(r.deep_view() =~= v.deep_view());
    }
    r
}

impl Library {
    /// An equal-valued copy.
    pub fn duplicate(&self) -> (r: Library)
        ensures
            r.deep_view() == self.deep_view(),
    {
        Library {
            name: self.name.clone(),
            is_native: self.is_native,
            downloads: self.downloads.duplicate(),
            extract_ignored: duplicate_strings(&self.extract_ignored),
        }
    }
}

/// A structured asset-index reference, or one synthesized from a bare
/// legacy assets identifier (all optional fields absent).
#[derive(Debug)]
pub struct AssetDownloadInfo {
    pub size: Option<i32>,
    pub url: Option<String>,
    pub sha1: Option<String>,
    pub asset_index_id: String,
    pub total_size: Option<i64>,
    pub size_and_hash_known: bool,
}

/// Abstract value of an `AssetDownloadInfo`.
pub struct AssetDownloadInfoV {
    pub size: Option<i32>,
    pub url: Option<Seq<char>>,
    pub sha1: Option<Seq<char>>,
    pub asset_index_id: Seq<char>,
    pub total_size: Option<i64>,
    pub size_and_hash_known: bool,
}

impl DeepView for AssetDownloadInfo {
    type V = AssetDownloadInfoV;

    open spec fn deep_view(&self) -> AssetDownloadInfoV {
        AssetDownloadInfoV {
            size: self.size,
            url: self.url.deep_view(),
            sha1: self.sha1.deep_view(),
            asset_index_id: self.asset_index_id@,
            total_size: self.total_size,
            size_and_hash_known: self.size_and_hash_known,
        }
    }
}

impl AssetDownloadInfo {
    /// The reference synthesized from a bare assets identifier.
    pub open spec fn spec_from_id(id: Seq<char>) -> AssetDownloadInfoV {
        AssetDownloadInfoV {
            size: Option::None,
            url: Option::None,
            sha1: Option::None,
            asset_index_id: id,
            total_size: Option::None,
            size_and_hash_known: false,
        }
    }

    /// Synthesize a reference from a bare assets identifier.
    pub fn new(id: String) -> (r: AssetDownloadInfo)
        ensures
            r.deep_view() == Self::spec_from_id(id@),
    {
        AssetDownloadInfo {
            size: Option::None,
            url: Option::None,
            sha1: Option::None,
            asset_index_id: id,
            total_size: Option::None,
            size_and_hash_known: false,
        }
    }

    /// The asset-index identifier.
    pub fn id(&self) -> (r: &str)
        ensures
            r@ == self.asset_index_id@,
    {
        self.asset_index_id.as_str()
    }

    /// An equal-valued copy.
    pub fn duplicate(&self) -> (r: AssetDownloadInfo)
        ensures
            r.deep_view() == self.deep_view(),
    {
        AssetDownloadInfo {
            size: self.size,
            url: match &self.url {
                Option::Some(u) => Option::Some(u.clone()),
                Option::None => Option::None,
            },
            sha1: match &self.sha1 {
                Option::Some(s) => Option::Some(s.clone()),
                Option::None => Option::None,
            },
            asset_index_id: self.asset_index_id.clone(),
            total_size: self.total_size,
            size_and_hash_known: self.size_and_hash_known,
        }
    }
}

/// The artifact reference an asset index stands for: hashed and
/// sized when size, URL and hash are all present and marked known;
/// raw under its own URL when one is present; otherwise raw under
/// the standard index location for its identifier.
pub open spec fn spec_from_asset_index(info: AssetDownloadInfoV) -> DownloadInfoV {
    if info.size is Some && info.url is Some && info.sha1 is Some && info.size_and_hash_known {
        DownloadInfoV::PreHashed { size: info.size->0, url: info.url->0, sha1: info.sha1->0 }
    } else if info.url is Some {
        DownloadInfoV::Raw { url: info.url->0 }
    } else {
        DownloadInfoV::Raw {
            url: "https://s3.amazonaws.com/Minecraft.Download/indexes/"@ + info.asset_index_id
                + ".json"@,
        }
    }
}

impl DownloadInfo {
    /// Turn an asset-index reference into an artifact reference.
    pub fn from_asset_index(info: AssetDownloadInfo) -> (r: DownloadInfo)
        ensures
            r.deep_view() == spec_from_asset_index(info.deep_view()),
    {
        match (info.size, info.url, info.sha1, info.size_and_hash_known) {
            (Option::Some(size), Option::Some(url), Option::Some(sha1), true) => {
                DownloadInfo::PreHashed { size, url, sha1 }
            },
            (_, Option::Some(url), _, _) => DownloadInfo::Raw { url },
            _ => DownloadInfo::Raw {
                url: String::from_str("https://s3.amazonaws.com/Minecraft.Download/indexes/").concat(
                    info.asset_index_id.as_str(),
                ).concat(".json"),
            },
        }
    }
}

/// Why a resolution or synthesis call failed.
#[derive(Debug)]
pub enum Error {
    /// The identified version has no descriptor in the store; carries
    /// the descriptor path that was looked for.
    FileUnavailableError(String),
    /// Following `inherits_from` links revisited descriptors without
    /// reaching a root; carries the identifier whose chain is cyclic.
    InheritanceCycle(String),
    /// The legacy argument string (or a template) is malformed: an
    /// unterminated quote or brace, or a trailing bare escape.
    TemplateParseFailure,
    /// A native archive could not be read; carries the reader's report.
    ArchiveReadError(String),
}

/// Abstract value of an `Error`.
pub enum ErrorV {
    FileUnavailableError(Seq<char>),
    InheritanceCycle(Seq<char>),
    TemplateParseFailure,
    ArchiveReadError(Seq<char>),
}

impl DeepView for Error {
    type V = ErrorV;

    open spec fn deep_view(&self) -> ErrorV {
        match self {
            Error::FileUnavailableError(p) => ErrorV::FileUnavailableError(p@),
            Error::InheritanceCycle(id) => ErrorV::InheritanceCycle(id@),
            Error::TemplateParseFailure => ErrorV::TemplateParseFailure,
            Error::ArchiveReadError(m) => ErrorV::ArchiveReadError(m@),
        }
    }
}

/// The first value bound to `k`, scanning left to right.
pub open spec fn spec_assoc<T>(m: Seq<(Seq<char>, T)>, k: Seq<char>) -> Option<T>
    decreases m.len(),
{
    if m.len() == 0 {
        Option::None
    } else if m[0].0 == k {
        Option::Some(m[0].1)
    } else {
        spec_assoc(m.drop_first(), k)
    }
}

/// The verdict of the last applicability rule that is recognized
/// (`allow` means: allowed exactly on the named platform, or
/// everywhere when none is named; `disallow` the complement), if any.
pub open spec fn spec_last_verdict(rules: Seq<(Seq<char>, Seq<char>)>, platform: Seq<char>) -> Option<
    bool,
>
    decreases rules.len(),
{
    if rules.len() == 0 {
        Option::None
    } else {
        let act = rules.last().0;
        let os = rules.last().1;
        if act == "allow"@ {
            Option::Some(os.len() == 0 || os == platform)
        } else if act == "disallow"@ {
            Option::Some(os.len() != 0 && os != platform)
        } else {
            spec_last_verdict(rules.drop_last(), platform)
        }
    }
}

/// Whether the rule list allows the platform: the last recognized
/// rule decides; with no recognized rule, an empty list allows and a
/// non-empty one does not.
pub open spec fn spec_rules_allow(rules: Seq<(Seq<char>, Seq<char>)>, platform: Seq<char>) -> bool {
    match spec_last_verdict(rules, platform) {
        Option::Some(b) => b,
        Option::None => rules.len() == 0,
    }
}

/// What `DownloadStrategy::get` yields: nothing if the rules reject
/// the platform; else the keyed classifier entry, or the default
/// artifact under an empty classifier.
pub open spec fn spec_strategy_get(
    s: DownloadStrategyV,
    key: Seq<char>,
    platform: Seq<char>,
) -> Option<(Seq<char>, DownloadInfoV)> {
    if !spec_rules_allow(s.rules, platform) {
        Option::None
    } else {
        match spec_assoc(s.with_classifier, key) {
            Option::Some(ci) => Option::Some(ci),
            Option::None => match s.default {
                Option::Some(d) => Option::Some((Seq::empty(), d)),
                Option::None => Option::None,
            },
        }
    }
}

impl DownloadStrategy {
    /// Select the artifact for a platform key, honoring the rules.
    pub fn get<'a>(&'a self, arg: &str, platform: &str) -> (r: Option<(&'a str, &'a DownloadInfo)>)
        ensures
            ({
                match (r, spec_strategy_get(self.deep_view(), arg@, platform@)) {
                    (Option::Some(p), Option::Some(ci)) => p.0@ == ci.0 && p.1.deep_view() == ci.1,
                    (Option::None, Option::None) => true,
                    _ => false,
                }
            }),
    {
        let ghost rulesv = self.rules.deep_view();
        let n = self.rules.len();
        let mut allowed = n == 0;
        let mut i: usize = 0;
        proof {
            assert(rulesv.subrange(0, 0) =~= Seq::<(Seq<char>, Seq<char>)>::empty());
        }
        while i < n
            invariant
                n == self.rules@.len(),
                i <= n,
                rulesv == self.rules.deep_view(),
                ({
                    let pre = rulesv.subrange(0, i as int);
                    match spec_last_verdict(pre, platform@) {
                        Option::Some(b) => allowed == b,
                        Option::None => allowed == (n == 0),
                    }
                }),
            decreases n - i,
        {
            let act = &self.rules[i].0;
            let os = &self.rules[i].1;
            let ghost pre = rulesv.subrange(0, i as int);
            if str_eq(act.as_str(), "allow") {
                allowed = os.as_str().unicode_len() == 0 || str_eq(os.as_str(), platform);
            } else if str_eq(act.as_str(), "disallow") {
                allowed = os.as_str().unicode_len() != 0 && !str_eq(os.as_str(), platform);
            }
            i = i + 1;
            proof {
                let pre2 = rulesv.subrange(0, i as int);
                assert(pre2.last() == rulesv[i - 1]);
                assert(rulesv[i - 1] == (act@, os@));
                assert(pre2.drop_last() =~= pre);
            }
        }
        proof {
            assert(rulesv.subrange(0, n as int) =~= rulesv);
        }
        if allowed {
            proof {
                assert(rulesv.len() == n);
                assert(spec_rules_allow(self.deep_view().rules, platform@));
            }
            let ghost mapv = self.with_classifier.deep_view();
            let m = self.with_classifier.len();
            let mut k: usize = 0;
            proof {
                assert(mapv.skip(0) =~= mapv);
            }
            while k < m
                invariant
                    m == self.with_classifier@.len(),
                    k <= m,
                    mapv == self.with_classifier.deep_view(),
                    spec_rules_allow(self.deep_view().rules, platform@),
                    spec_assoc(mapv, arg@) == spec_assoc(mapv.skip(k as int), arg@),
                decreases m - k,
            {
                let entry = &self.with_classifier[k];
                proof {
                    assert(mapv.skip(k as int)[0] == mapv[k as int]);
                    assert(mapv[k as int] == self.with_classifier@[k as int].deep_view());
                    assert(mapv[k as int] == (entry.0@, (entry.1.0@, entry.1.1.deep_view())));
                }
                if str_eq(entry.0.as_str(), arg) {
                    proof {
                        assert(self.deep_view().with_classifier == mapv);
                        assert(mapv.skip(k as int).len() > 0);
                        assert(mapv.skip(k as int)[0].0 == arg@);
                        assert(spec_assoc(mapv.skip(k as int), arg@) == Option::Some(
                            mapv[k as int].1,
                        ));
                    }
                    return Option::Some((entry.1.0.as_str(), &entry.1.1));
                }
                k = k + 1;
                proof {
                    assert(mapv.skip((k - 1) as int).drop_first() =~= mapv.skip(k as int));
                }
            }
            proof {
                assert(mapv.skip(m as int) =~= Seq::<
                    (Seq<char>, (Seq<char>, DownloadInfoV)),
                >::empty());
            }
            match &self.default {
                Option::Some(d) => {
                    let empty_classifier: &str = "";
                    proof {
                        reveal_strlit("");
                        assert(empty_classifier@ =~= Seq::<char>::empty());
                    }
                    Option::Some((empty_classifier, d))
                },
                Option::None => Option::None,
            }
        } else {
            Option::None
        }
    }
}

/// The platform key a library strategy is indexed by.
pub open spec fn spec_platform_key(arch: Seq<char>, platform: Seq<char>) -> Seq<char> {
    arch + "bit "@ + platform
}

/// Build the platform key `{arch}bit {platform}`.
pub fn platform_key(arch: &str, platform: &str) -> (r: String)
    ensures
        r@ == spec_platform_key(arch@, platform@),
{
    String::from_str(arch).concat("bit ").concat(platform)
}

/// The repository-relative path of a coordinate's artifact, if the
/// coordinate splits into exactly three `:`-separated parts:
/// `group-with-dots-as-slashes/artifact/version/artifact-version`
/// `[-classifier].jar[.pack.xz]`.
pub open spec fn spec_url_suffix(name: Seq<char>, classifier: Seq<char>, is_xz: bool) -> Option<
    Seq<char>,
> {
    let i1 = spec_find_char(name, 0, ':');
    if i1 >= name.len() {
        Option::None
    } else {
        let i2 = spec_find_char(name, i1 + 1, ':');
        if i2 >= name.len() {
            Option::None
        } else {
            let group = name.subrange(0, i1);
            let artifact = name.subrange(i1 + 1, i2);
            let version = name.subrange(i2 + 1, name.len() as int);
            let stem = spec_replace_char(group, '.', '/') + seq!['/'] + artifact + seq!['/']
                + version + seq!['/'] + artifact + seq!['-'] + version;
            let decorated = if classifier.len() == 0 {
                stem
            } else {
                stem + seq!['-'] + classifier
            };
            if is_xz {
                Option::Some(decorated + ".jar.pack.xz"@)
            } else {
                Option::Some(decorated + ".jar"@)
            }
        }
    }
}

impl Library {
    /// Whether the artifact is a platform-native archive.
    pub fn is_native(&self) -> (r: bool)
        ensures
            r == self.is_native,
    {
        self.is_native
    }

    /// The repository-relative artifact path for a coordinate.
    pub fn get_url_suffix(name: &str, classifier: &str, is_xz: bool) -> (r: Option<String>)
        ensures
            ({
                match (r, spec_url_suffix(name@, classifier@, is_xz)) {
                    (Option::Some(s), Option::Some(v)) => s@ == v,
                    (Option::None, Option::None) => true,
                    _ => false,
                }
            }),
    {
        let chars = str_to_chars(name);
        let i1 = find_char(&chars, 0, ':');
        if i1 == chars.len() {
            return Option::None;
        }
        let i2 = find_char(&chars, i1 + 1, ':');
        if i2 == chars.len() {
            return Option::None;
        }
        let group = chars_range_to_string(&chars, 0, i1);
        let artifact = chars_range_to_string(&chars, i1 + 1, i2);
        let version = chars_range_to_string(&chars, i2 + 1, chars.len());
        let stem = replace_char(group.as_str(), '.', '/').concat("/").concat(
            artifact.as_str(),
        ).concat("/").concat(version.as_str()).concat("/").concat(artifact.as_str()).concat(
            "-",
        ).concat(version.as_str());
        proof {
            reveal_strlit("/");
            reveal_strlit("-");
            assert("/"@ =~= seq!['/']);
            assert("-"@ =~= seq!['-']);
        }
        let decorated = if classifier.unicode_len() == 0 {
            stem
        } else {
            stem.concat("-").concat(classifier)
        };
        if is_xz {
            Option::Some(decorated.concat(".jar.pack.xz"))
        } else {
            Option::Some(decorated.concat(".jar"))
        }
    }
}


/// One version descriptor: identity and timestamps, the optional
/// inheritable fields, the declared libraries, and named artifact
/// references passed through to the download layer.
#[derive(Debug)]
pub struct MinecraftVersion {
    pub id: String,
    pub version_type: String,
    pub publish_time: String,
    pub release_time: String,
    pub minecraft_arguments: Option<String>,
    pub main_class: Option<String>,
    pub version_jar: Option<String>,
    pub assets_id: Option<String>,
    pub asset_index: Option<AssetDownloadInfo>,
    pub libraries: Vec<Library>,
    pub downloads: Vec<(String, DownloadInfo)>,
    pub inherits_from: Option<String>,
}

/// Abstract value of a `MinecraftVersion`.
pub struct MinecraftVersionV {
    pub id: Seq<char>,
    pub version_type: Seq<char>,
    pub publish_time: Seq<char>,
    pub release_time: Seq<char>,
    pub minecraft_arguments: Option<Seq<char>>,
    pub main_class: Option<Seq<char>>,
    pub version_jar: Option<Seq<char>>,
    pub assets_id: Option<Seq<char>>,
    pub asset_index: Option<AssetDownloadInfoV>,
    pub libraries: Seq<LibraryV>,
    pub downloads: Seq<(Seq<char>, DownloadInfoV)>,
    pub inherits_from: Option<Seq<char>>,
}

impl DeepView for MinecraftVersion {
    type V = MinecraftVersionV;

    open spec fn deep_view(&self) -> MinecraftVersionV {
        MinecraftVersionV {
            id: self.id@,
            version_type: self.version_type@,
            publish_time: self.publish_time@,
            release_time: self.release_time@,
            minecraft_arguments: self.minecraft_arguments.deep_view(),
            main_class: self.main_class.deep_view(),
            version_jar: self.version_jar.deep_view(),
            assets_id: self.assets_id.deep_view(),
            asset_index: self.asset_index.deep_view(),
            libraries: self.libraries.deep_view(),
            downloads: self.downloads.deep_view(),
            inherits_from: self.inherits_from.deep_view(),
        }
    }
}

/// The store of locally known version descriptors, together with the
/// directory they model and the running platform.
pub struct VersionManager {
    pub versions_path: String,
    pub os_arch: String,
    pub os_platform: String,
    pub versions: Vec<MinecraftVersion>,
}

/// The descriptor file path a version identifier stands for:
/// `{versions_root}/{id}/{id}.json`.
pub open spec fn spec_json_path(root: Seq<char>, id: Seq<char>) -> Seq<char> {
    spec_join_path(spec_join_path(root, id), id + ".json"@)
}

/// The first stored descriptor carrying the identifier.
pub open spec fn spec_find_version(vs: Seq<MinecraftVersionV>, id: Seq<char>) -> Option<
    MinecraftVersionV,
>
    decreases vs.len(),
{
    if vs.len() == 0 {
        Option::None
    } else if vs[0].id == id {
        Option::Some(vs[0])
    } else {
        spec_find_version(vs.drop_first(), id)
    }
}

impl VersionManager {
    /// A store over the given versions directory for the given
    /// platform, initially holding no descriptors.
    pub fn new(path: &str, os_arch: &str, os_platform: &str) -> (r: VersionManager)
        ensures
            r.versions_path@ == path@,
            r.os_arch@ == os_arch@,
            r.os_platform@ == os_platform@,
            r.versions.deep_view() == Seq::<MinecraftVersionV>::empty(),
    {
        let r = VersionManager {
            versions_path: String::from_str(path),
            os_arch: String::from_str(os_arch),
            os_platform: String::from_str(os_platform),
            versions: Vec::new(),
        };
        proof {
            assert(r.versions.deep_view() =~= Seq::<MinecraftVersionV>::empty());
        }
        r
    }

    /// Put a descriptor into the store.
    pub fn add_version(&mut self, v: MinecraftVersion)
        ensures
            final(self).versions.deep_view() == old(self).versions.deep_view().push(v.deep_view()),
            final(self).versions_path == old(self).versions_path,
            final(self).os_arch == old(self).os_arch,
            final(self).os_platform == old(self).os_platform,
    {
        let ghost vv = v.deep_view();
        self.versions.push(v);
        proof {
            assert(final(self).versions.deep_view() =~= old(self).versions.deep_view().push(vv));
        }
    }

    /// The primary archive path of an identifier:
    /// `{versions_root}/{id}/{id}.jar`.
    pub fn get_primary_jar_path(&self, id: &str) -> (r: String)
        ensures
            r@ == spec_join_path(spec_join_path(self.versions_path@, id@), id@ + ".jar"@),
    {
        let file = String::from_str(id).concat(".jar");
        join_path(join_path(self.versions_path.as_str(), id).as_str(), file.as_str())
    }

    /// The native-extraction target directory of an identifier:
    /// `{versions_root}/{id}/{id}-natives-{platform}-{arch}/`.
    pub fn get_natives_path(&self, id: &str) -> (r: String)
        ensures
            r@ == spec_join_path(
                spec_join_path(self.versions_path@, id@),
                id@ + "-natives-"@ + self.os_platform@ + "-"@ + self.os_arch@ + "/"@,
            ),
    {
        let dir = String::from_str(id).concat("-natives-").concat(self.os_platform.as_str()).concat(
            "-",
        ).concat(self.os_arch.as_str()).concat("/");
        join_path(join_path(self.versions_path.as_str(), id).as_str(), dir.as_str())
    }

    /// Look a descriptor up by identifier; an identifier the store
    /// does not hold fails with the descriptor path that was looked
    /// for.
    pub fn version_of<'a>(&'a self, id: &str) -> (r: Result<&'a MinecraftVersion, Error>)
        ensures
            ({
                match (r, spec_find_version(self.versions.deep_view(), id@)) {
                    (Result::Ok(v), Option::Some(sv)) => v.deep_view() == sv,
                    (Result::Err(e), Option::None) => e.deep_view() == ErrorV::FileUnavailableError(
                        spec_json_path(self.versions_path@, id@),
                    ),
                    _ => false,
                }
            }),
    {
        let ghost vsv = self.versions.deep_view();
        let n = self.versions.len();
        let mut k: usize = 0;
        proof {
            assert(vsv.skip(0) =~= vsv);
        }
        while k < n
            invariant
                n == self.versions@.len(),
                k <= n,
                vsv == self.versions.deep_view(),
                spec_find_version(vsv, id@) == spec_find_version(vsv.skip(k as int), id@),
            decreases n - k,
        {
            proof {
                assert(vsv.skip(k as int)[0] == vsv[k as int]);
                assert(vsv[k as int] == self.versions@[k as int].deep_view());
            }
            if str_eq(self.versions[k].id.as_str(), id) {
                return Result::Ok(&self.versions[k]);
            }
            k = k + 1;
            proof {
                assert(vsv.skip((k - 1) as int).drop_first() =~= vsv.skip(k as int));
            }
        }
        proof {
            assert(vsv.skip(n as int) =~= Seq::<MinecraftVersionV>::empty());
        }
        let file = String::from_str(id).concat(".json");
        let path = join_path(join_path(self.versions_path.as_str(), id).as_str(), file.as_str());
        Result::Err(Error::FileUnavailableError(path))
    }
}

/// Effective main class of a version: its own when defined, else the
/// chain's, walked with bounded fuel; undefined at a chain's root
/// resolves to nothing.
pub open spec fn spec_resolve_main_class(
    vs: Seq<MinecraftVersionV>,
    v: MinecraftVersionV,
    root: Seq<char>,
    fuel: nat,
) -> Result<Option<Seq<char>>, ErrorV>
    decreases fuel,
{
    if v.main_class is Some {
        Result::Ok(v.main_class)
    } else {
        match v.inherits_from {
            Option::None => Result::Ok(Option::None),
            Option::Some(pid) => match spec_find_version(vs, pid) {
                Option::None => Result::Err(
                    ErrorV::FileUnavailableError(spec_json_path(root, pid)),
                ),
                Option::Some(p) => if fuel == 0 {
                    Result::Err(ErrorV::InheritanceCycle(pid))
                } else {
                    spec_resolve_main_class(vs, p, root, (fuel - 1) as nat)
                },
            },
        }
    }
}

/// Effective legacy argument string of a version, resolved as a
/// scalar field over the chain.
pub open spec fn spec_resolve_arguments(
    vs: Seq<MinecraftVersionV>,
    v: MinecraftVersionV,
    root: Seq<char>,
    fuel: nat,
) -> Result<Option<Seq<char>>, ErrorV>
    decreases fuel,
{
    if v.minecraft_arguments is Some {
        Result::Ok(v.minecraft_arguments)
    } else {
        match v.inherits_from {
            Option::None => Result::Ok(Option::None),
            Option::Some(pid) => match spec_find_version(vs, pid) {
                Option::None => Result::Err(
                    ErrorV::FileUnavailableError(spec_json_path(root, pid)),
                ),
                Option::Some(p) => if fuel == 0 {
                    Result::Err(ErrorV::InheritanceCycle(pid))
                } else {
                    spec_resolve_arguments(vs, p, root, (fuel - 1) as nat)
                },
            },
        }
    }
}

/// Effective primary-archive name of a version: its own override when
/// defined, else the chain's; a root without one names itself.
pub open spec fn spec_resolve_jar_name(
    vs: Seq<MinecraftVersionV>,
    v: MinecraftVersionV,
    root: Seq<char>,
    fuel: nat,
) -> Result<Seq<char>, ErrorV>
    decreases fuel,
{
    match v.version_jar {
        Option::Some(j) => Result::Ok(j),
        Option::None => match v.inherits_from {
            Option::None => Result::Ok(v.id),
            Option::Some(pid) => match spec_find_version(vs, pid) {
                Option::None => Result::Err(
                    ErrorV::FileUnavailableError(spec_json_path(root, pid)),
                ),
                Option::Some(p) => if fuel == 0 {
                    Result::Err(ErrorV::InheritanceCycle(pid))
                } else {
                    spec_resolve_jar_name(vs, p, root, (fuel - 1) as nat)
                },
            },
        },
    }
}

/// Effective asset index of a version: its structured reference when
/// defined; else one synthesized from a bare assets identifier; else
/// the chain's.
pub open spec fn spec_resolve_asset_index(
    vs: Seq<MinecraftVersionV>,
    v: MinecraftVersionV,
    root: Seq<char>,
    fuel: nat,
) -> Result<Option<AssetDownloadInfoV>, ErrorV>
    decreases fuel,
{
    if v.asset_index is Some {
        Result::Ok(v.asset_index)
    } else if v.assets_id is Some {
        Result::Ok(Option::Some(AssetDownloadInfo::spec_from_id(v.assets_id->Some_0)))
    } else {
        match v.inherits_from {
            Option::None => Result::Ok(Option::None),
            Option::Some(pid) => match spec_find_version(vs, pid) {
                Option::None => Result::Err(
                    ErrorV::FileUnavailableError(spec_json_path(root, pid)),
                ),
                Option::Some(p) => if fuel == 0 {
                    Result::Err(ErrorV::InheritanceCycle(pid))
                } else {
                    spec_resolve_asset_index(vs, p, root, (fuel - 1) as nat)
                },
            },
        }
    }
}

/// Effective library list of a version: ancestors' lists first, own
/// libraries appended, chain walked root to leaf, duplicates kept.
pub open spec fn spec_resolve_libraries(
    vs: Seq<MinecraftVersionV>,
    v: MinecraftVersionV,
    root: Seq<char>,
    fuel: nat,
) -> Result<Seq<LibraryV>, ErrorV>
    decreases fuel,
{
    match v.inherits_from {
        Option::None => Result::Ok(v.libraries),
        Option::Some(pid) => match spec_find_version(vs, pid) {
            Option::None => Result::Err(
                ErrorV::FileUnavailableError(spec_json_path(root, pid)),
            ),
            Option::Some(p) => if fuel == 0 {
                Result::Err(ErrorV::InheritanceCycle(pid))
            } else {
                match spec_resolve_libraries(vs, p, root, (fuel - 1) as nat) {
                    Result::Ok(pl) => Result::Ok(pl + v.libraries),
                    Result::Err(e) => Result::Err(e),
                }
            },
        },
    }
}

/// Ancestor libraries stand strictly before the requesting version's
/// own, each level in its declaration order, duplicates retained: a
/// resolved list is exactly the parent's resolved list followed by
/// the version's own declarations (and, at a chain's root, the own
/// declarations alone).
pub proof fn lemma_libraries_ancestors_first(
    vs: Seq<MinecraftVersionV>,
    v: MinecraftVersionV,
    root: Seq<char>,
    fuel: nat,
)
    ensures
        v.inherits_from is None ==> spec_resolve_libraries(vs, v, root, fuel) == Result::<
            Seq<LibraryV>,
            ErrorV,
        >::Ok(v.libraries),
        ({
            &&& v.inherits_from matches Option::Some(pid)
            &&& fuel > 0
            &&& spec_find_version(vs, pid) matches Option::Some(p)
            &&& spec_resolve_libraries(vs, p, root, (fuel - 1) as nat) matches Result::Ok(pl)
        }) ==> spec_resolve_libraries(vs, v, root, fuel) == Result::<Seq<LibraryV>, ErrorV>::Ok(
            spec_resolve_libraries(
                vs,
                spec_find_version(vs, v.inherits_from->Some_0)->Some_0,
                root,
                (fuel - 1) as nat,
            )->Ok_0 + v.libraries,
        ),
{
}

/// A scalar field a descriptor defines is never overridden from the
/// chain: resolution answers with the descriptor's own value, whatever
/// the ancestors hold.
pub proof fn lemma_scalar_override(
    vs: Seq<MinecraftVersionV>,
    v: MinecraftVersionV,
    root: Seq<char>,
    fuel: nat,
)
    ensures
        v.main_class is Some ==> spec_resolve_main_class(vs, v, root, fuel) == Result::<
            Option<Seq<char>>,
            ErrorV,
        >::Ok(v.main_class),
        v.minecraft_arguments is Some ==> spec_resolve_arguments(vs, v, root, fuel) == Result::<
            Option<Seq<char>>,
            ErrorV,
        >::Ok(v.minecraft_arguments),
        v.version_jar is Some ==> spec_resolve_jar_name(vs, v, root, fuel) == Result::<
            Seq<char>,
            ErrorV,
        >::Ok(v.version_jar->Some_0),
        v.asset_index is Some ==> spec_resolve_asset_index(vs, v, root, fuel) == Result::<
            Option<AssetDownloadInfoV>,
            ErrorV,
        >::Ok(v.asset_index),
{
}

/// An equal-valued copy of a vector of libraries.
pub fn duplicate_libraries(v: &Vec<Library>) -> (r: Vec<Library>)
    ensures
        r.deep_view() == v.deep_view(),
{
    let mut r: Vec<Library> = Vec::new();
    let mut i: usize = 0;
    while i < v.len()
        invariant
            i <= v@.len(),
            r@.len() == i,
            forall|j: int| 0 <= j < i ==> #[trigger] r.deep_view()[j] == v.deep_view()[j],
        decreases v@.len() - i,
    {
        let ghost prev = r.deep_view();
        r.push(v[i].duplicate());
        i = i + 1;
        proof {
            assert forall|j: int| 0 <= j < i implies #[trigger] r.deep_view()[j]
                == v.deep_view()[j] by {
                assert(r.deep_view()[j] == r@[j].deep_view());
                assert(v.deep_view()[j] == v@[j].deep_view());
                if j < i - 1 {
                    assert(prev[j] == v.deep_view()[j]);
                    assert(prev[j] == r@[j].deep_view());
                }
            }
        }
    }
    proof {
        assert(r.deep_view() =~= v.deep_view());
    }
    r
}

/// Append equal-valued copies of `src`'s libraries to `dst`.
pub fn extend_libraries(dst: &mut Vec<Library>, src: &Vec<Library>)
    ensures
        final(dst).deep_view() == old(dst).deep_view() + src.deep_view(),
{
    let ghost base = old(dst).deep_view();
    let mut i: usize = 0;
    proof {
        assert(dst.deep_view() =~= base + src.deep_view().subrange(0, 0));
    }
    while i < src.len()
        invariant
            i <= src@.len(),
            after_borrow(dst).deep_view() == base + src.deep_view().subrange(0, i as int),
        decreases src@.len() - i,
    {
        let ghost prev = dst.deep_view();
        dst.push(src[i].duplicate());
        i = i + 1;
        proof {
            assert(dst.deep_view() =~= prev.push(src@[i - 1].deep_view()));
            assert(dst.deep_view() =~= base + src.deep_view().subrange(0, i as int));
        }
    }
    proof {
        assert(src.deep_view().subrange(0, src@.len() as int) =~= src.deep_view());
    }
}


/// An `Option<String>`-carrying result matches its abstract value.
pub open spec fn rs_opt_str(r: Result<Option<String>, Error>, s: Result<Option<Seq<char>>, ErrorV>) -> bool {
    match (r, s) {
        (Result::Ok(a), Result::Ok(b)) => a.deep_view() == b,
        (Result::Err(a), Result::Err(b)) => a.deep_view() == b,
        _ => false,
    }
}

/// A `String`-carrying result matches its abstract value.
pub open spec fn rs_str(r: Result<String, Error>, s: Result<Seq<char>, ErrorV>) -> bool {
    match (r, s) {
        (Result::Ok(a), Result::Ok(b)) => a@ == b,
        (Result::Err(a), Result::Err(b)) => a.deep_view() == b,
        _ => false,
    }
}

/// An asset-reference-carrying result matches its abstract value.
pub open spec fn rs_asset(
    r: Result<Option<AssetDownloadInfo>, Error>,
    s: Result<Option<AssetDownloadInfoV>, ErrorV>,
) -> bool {
    match (r, s) {
        (Result::Ok(a), Result::Ok(b)) => a.deep_view() == b,
        (Result::Err(a), Result::Err(b)) => a.deep_view() == b,
        _ => false,
    }
}

/// A library-list-carrying result matches its abstract value.
pub open spec fn rs_libs(r: Result<Vec<Library>, Error>, s: Result<Seq<LibraryV>, ErrorV>) -> bool {
    match (r, s) {
        (Result::Ok(a), Result::Ok(b)) => a.deep_view() == b,
        (Result::Err(a), Result::Err(b)) => a.deep_view() == b,
        _ => false,
    }
}

impl MinecraftVersion {
    /// The version's identifier.
    pub fn id(&self) -> (r: &str)
        ensures
            r@ == self.id@,
    {
        self.id.as_str()
    }

    /// The version's type tag.
    pub fn version_type(&self) -> (r: &str)
        ensures
            r@ == self.version_type@,
    {
        self.version_type.as_str()
    }

    /// The version's publish timestamp.
    pub fn publish_time(&self) -> (r: &str)
        ensures
            r@ == self.publish_time@,
    {
        self.publish_time.as_str()
    }

    /// The version's release timestamp.
    pub fn release_time(&self) -> (r: &str)
        ensures
            r@ == self.release_time@,
    {
        self.release_time.as_str()
    }

    fn main_class_fuel(&self, manager: &VersionManager, fuel: usize) -> (r: Result<
        Option<String>,
        Error,
    >)
        ensures
            rs_opt_str(
                r,
                spec_resolve_main_class(
                    manager.versions.deep_view(),
                    self.deep_view(),
                    manager.versions_path@,
                    fuel as nat,
                ),
            ),
        decreases fuel,
    {
        match &self.main_class {
            Option::Some(c) => Result::Ok(Option::Some(c.clone())),
            Option::None => match &self.inherits_from {
                Option::None => Result::Ok(Option::None),
                Option::Some(pid) => match manager.version_of(pid.as_str()) {
                    Result::Err(e) => Result::Err(e),
                    Result::Ok(p) => if fuel == 0 {
                        Result::Err(Error::InheritanceCycle(pid.clone()))
                    } else {
                        p.main_class_fuel(manager, fuel - 1)
                    },
                },
            },
        }
    }

    /// Resolve the effective main class over the inheritance chain.
    pub fn main_class(&self, manager: &VersionManager) -> (r: Result<Option<String>, Error>)
        ensures
            rs_opt_str(
                r,
                spec_resolve_main_class(
                    manager.versions.deep_view(),
                    self.deep_view(),
                    manager.versions_path@,
                    manager.versions@.len() as nat,
                ),
            ),
    {
        self.main_class_fuel(manager, manager.versions.len())
    }

    fn arguments_fuel(&self, manager: &VersionManager, fuel: usize) -> (r: Result<
        Option<String>,
        Error,
    >)
        ensures
            rs_opt_str(
                r,
                spec_resolve_arguments(
                    manager.versions.deep_view(),
                    self.deep_view(),
                    manager.versions_path@,
                    fuel as nat,
                ),
            ),
        decreases fuel,
    {
        match &self.minecraft_arguments {
            Option::Some(c) => Result::Ok(Option::Some(c.clone())),
            Option::None => match &self.inherits_from {
                Option::None => Result::Ok(Option::None),
                Option::Some(pid) => match manager.version_of(pid.as_str()) {
                    Result::Err(e) => Result::Err(e),
                    Result::Ok(p) => if fuel == 0 {
                        Result::Err(Error::InheritanceCycle(pid.clone()))
                    } else {
                        p.arguments_fuel(manager, fuel - 1)
                    },
                },
            },
        }
    }

    /// Resolve the effective legacy argument string over the chain.
    pub fn legacy_arguments(&self, manager: &VersionManager) -> (r: Result<Option<String>, Error>)
        ensures
            rs_opt_str(
                r,
                spec_resolve_arguments(
                    manager.versions.deep_view(),
                    self.deep_view(),
                    manager.versions_path@,
                    manager.versions@.len() as nat,
                ),
            ),
    {
        self.arguments_fuel(manager, manager.versions.len())
    }

    fn version_jar_fuel(&self, manager: &VersionManager, fuel: usize) -> (r: Result<String, Error>)
        ensures
            rs_str(
                r,
                spec_resolve_jar_name(
                    manager.versions.deep_view(),
                    self.deep_view(),
                    manager.versions_path@,
                    fuel as nat,
                ),
            ),
        decreases fuel,
    {
        match &self.version_jar {
            Option::Some(j) => Result::Ok(j.clone()),
            Option::None => match &self.inherits_from {
                Option::None => Result::Ok(self.id.clone()),
                Option::Some(pid) => match manager.version_of(pid.as_str()) {
                    Result::Err(e) => Result::Err(e),
                    Result::Ok(p) => if fuel == 0 {
                        Result::Err(Error::InheritanceCycle(pid.clone()))
                    } else {
                        p.version_jar_fuel(manager, fuel - 1)
                    },
                },
            },
        }
    }

    /// Resolve the effective primary-archive name over the chain.
    pub fn version_jar(&self, manager: &VersionManager) -> (r: Result<String, Error>)
        ensures
            rs_str(
                r,
                spec_resolve_jar_name(
                    manager.versions.deep_view(),
                    self.deep_view(),
                    manager.versions_path@,
                    manager.versions@.len() as nat,
                ),
            ),
    {
        self.version_jar_fuel(manager, manager.versions.len())
    }

    fn asset_index_fuel(&self, manager: &VersionManager, fuel: usize) -> (r: Result<
        Option<AssetDownloadInfo>,
        Error,
    >)
        ensures
            rs_asset(
                r,
                spec_resolve_asset_index(
                    manager.versions.deep_view(),
                    self.deep_view(),
                    manager.versions_path@,
                    fuel as nat,
                ),
            ),
        decreases fuel,
    {
        match &self.asset_index {
            Option::Some(a) => Result::Ok(Option::Some(a.duplicate())),
            Option::None => match &self.assets_id {
                Option::Some(aid) => Result::Ok(Option::Some(AssetDownloadInfo::new(aid.clone()))),
                Option::None => match &self.inherits_from {
                    Option::None => Result::Ok(Option::None),
                    Option::Some(pid) => match manager.version_of(pid.as_str()) {
                        Result::Err(e) => Result::Err(e),
                        Result::Ok(p) => if fuel == 0 {
                            Result::Err(Error::InheritanceCycle(pid.clone()))
                        } else {
                            p.asset_index_fuel(manager, fuel - 1)
                        },
                    },
                },
            },
        }
    }

    /// Resolve the effective asset index over the chain, synthesizing
    /// one from a bare assets identifier where needed.
    pub fn asset_index(&self, manager: &VersionManager) -> (r: Result<
        Option<AssetDownloadInfo>,
        Error,
    >)
        ensures
            rs_asset(
                r,
                spec_resolve_asset_index(
                    manager.versions.deep_view(),
                    self.deep_view(),
                    manager.versions_path@,
                    manager.versions@.len() as nat,
                ),
            ),
    {
        self.asset_index_fuel(manager, manager.versions.len())
    }

    fn libraries_fuel(&self, manager: &VersionManager, fuel: usize) -> (r: Result<
        Vec<Library>,
        Error,
    >)
        ensures
            rs_libs(
                r,
                spec_resolve_libraries(
                    manager.versions.deep_view(),
                    self.deep_view(),
                    manager.versions_path@,
                    fuel as nat,
                ),
            ),
        decreases fuel,
    {
        match &self.inherits_from {
            Option::None => Result::Ok(duplicate_libraries(&self.libraries)),
            Option::Some(pid) => match manager.version_of(pid.as_str()) {
                Result::Err(e) => Result::Err(e),
                Result::Ok(p) => if fuel == 0 {
                    Result::Err(Error::InheritanceCycle(pid.clone()))
                } else {
                    match p.libraries_fuel(manager, fuel - 1) {
                        Result::Err(e) => Result::Err(e),
                        Result::Ok(mut pl) => {
                            extend_libraries(&mut pl, &self.libraries);
                            Result::Ok(pl)
                        },
                    }
                },
            },
        }
    }

    /// Resolve the effective library list over the chain: ancestor
    /// libraries first, own libraries appended, duplicates kept.
    pub fn libraries(&self, manager: &VersionManager) -> (r: Result<Vec<Library>, Error>)
        ensures
            rs_libs(
                r,
                spec_resolve_libraries(
                    manager.versions.deep_view(),
                    self.deep_view(),
                    manager.versions_path@,
                    manager.versions@.len() as nat,
                ),
            ),
    {
        self.libraries_fuel(manager, manager.versions.len())
    }
}


/// The artifact the strategy selects for a platform, if any.
pub open spec fn spec_download_info_of(l: LibraryV, arch: Seq<char>, platform: Seq<char>) -> Option<
    DownloadInfoV,
> {
    match spec_strategy_get(l.downloads, spec_platform_key(arch, platform), platform) {
        Option::Some(ci) => Option::Some(ci.1),
        Option::None => Option::None,
    }
}

/// The local classpath entry a library yields on a platform, if any:
/// the library directory joined with the artifact path of its
/// coordinate under the selected classifier.
pub open spec fn spec_classpath_of(
    l: LibraryV,
    path: Seq<char>,
    arch: Seq<char>,
    platform: Seq<char>,
) -> Option<Seq<char>> {
    match spec_strategy_get(l.downloads, spec_platform_key(arch, platform), platform) {
        Option::Some(ci) => match spec_url_suffix(l.name, ci.0, false) {
            Option::Some(sfx) => Option::Some(spec_join_path(path, sfx)),
            Option::None => Option::None,
        },
        Option::None => Option::None,
    }
}

impl Library {
    /// The artifact selected for an explicit platform.
    pub fn download_info_of<'a>(&'a self, arch: &str, platform: &str) -> (r: Option<
        &'a DownloadInfo,
    >)
        ensures
            ({
                match (r, spec_download_info_of(self.deep_view(), arch@, platform@)) {
                    (Option::Some(d), Option::Some(dv)) => d.deep_view() == dv,
                    (Option::None, Option::None) => true,
                    _ => false,
                }
            }),
    {
        let key = platform_key(arch, platform);
        match self.downloads.get(key.as_str(), platform) {
            Option::Some(ci) => Option::Some(ci.1),
            Option::None => Option::None,
        }
    }

    /// The artifact selected for the store's platform.
    pub fn download_info_default<'a>(&'a self, manager: &VersionManager) -> (r: Option<
        &'a DownloadInfo,
    >)
        ensures
            ({
                match (r, spec_download_info_of(
                    self.deep_view(),
                    manager.os_arch@,
                    manager.os_platform@,
                )) {
                    (Option::Some(d), Option::Some(dv)) => d.deep_view() == dv,
                    (Option::None, Option::None) => true,
                    _ => false,
                }
            }),
    {
        self.download_info_of(manager.os_arch.as_str(), manager.os_platform.as_str())
    }

    /// The classpath entry for an explicit platform.
    pub fn classpath_of(&self, path: &str, arch: &str, platform: &str) -> (r: Option<String>)
        ensures
            ({
                match (r, spec_classpath_of(self.deep_view(), path@, arch@, platform@)) {
                    (Option::Some(p), Option::Some(pv)) => p@ == pv,
                    (Option::None, Option::None) => true,
                    _ => false,
                }
            }),
    {
        let key = platform_key(arch, platform);
        match self.downloads.get(key.as_str(), platform) {
            Option::Some(ci) => match Library::get_url_suffix(self.name.as_str(), ci.0, false) {
                Option::Some(suffix) => Option::Some(join_path(path, suffix.as_str())),
                Option::None => Option::None,
            },
            Option::None => Option::None,
        }
    }

    /// The classpath entry for the store's platform.
    pub fn classpath_default(&self, path: &str, manager: &VersionManager) -> (r: Option<String>)
        ensures
            ({
                match (r, spec_classpath_of(
                    self.deep_view(),
                    path@,
                    manager.os_arch@,
                    manager.os_platform@,
                )) {
                    (Option::Some(p), Option::Some(pv)) => p@ == pv,
                    (Option::None, Option::None) => true,
                    _ => false,
                }
            }),
    {
        self.classpath_of(path, manager.os_arch.as_str(), manager.os_platform.as_str())
    }
}

/// The joined classpath text a resolved library list contributes: for
/// each non-native library with a determinable entry, the entry
/// followed by the separator; others are skipped silently.
pub open spec fn spec_classpath_entries(
    libs: Seq<LibraryV>,
    path: Seq<char>,
    sep: Seq<char>,
    arch: Seq<char>,
    platform: Seq<char>,
) -> Seq<char>
    decreases libs.len(),
{
    if libs.len() == 0 {
        Seq::empty()
    } else {
        let head = if !libs[0].is_native {
            match spec_classpath_of(libs[0], path, arch, platform) {
                Option::Some(p) => p + sep,
                Option::None => Seq::empty(),
            }
        } else {
            Seq::empty()
        };
        head + spec_classpath_entries(libs.drop_first(), path, sep, arch, platform)
    }
}

/// The whole classpath of a version: its resolved libraries' entries,
/// each followed by the separator, with the primary archive path
/// last and no trailing separator.
pub open spec fn spec_classpath(
    vs: Seq<MinecraftVersionV>,
    v: MinecraftVersionV,
    root: Seq<char>,
    fuel: nat,
    path: Seq<char>,
    sep: Seq<char>,
    arch: Seq<char>,
    platform: Seq<char>,
) -> Result<Seq<char>, ErrorV> {
    match spec_resolve_libraries(vs, v, root, fuel) {
        Result::Err(e) => Result::Err(e),
        Result::Ok(libs) => Result::Ok(
            spec_classpath_entries(libs, path, sep, arch, platform) + spec_join_path(
                spec_join_path(root, v.id),
                v.id + ".jar"@,
            ),
        ),
    }
}

/// The native-extraction pairs a resolved library list contributes:
/// each native library with a determinable path, paired with its
/// exclusion prefixes, in list order.
pub open spec fn spec_native_entries(
    libs: Seq<LibraryV>,
    path: Seq<char>,
    arch: Seq<char>,
    platform: Seq<char>,
) -> Seq<(Seq<char>, Seq<Seq<char>>)>
    decreases libs.len(),
{
    if libs.len() == 0 {
        Seq::empty()
    } else {
        let head: Seq<(Seq<char>, Seq<Seq<char>>)> = if libs[0].is_native {
            match spec_classpath_of(libs[0], path, arch, platform) {
                Option::Some(p) => seq![(p, libs[0].extract_ignored)],
                Option::None => Seq::empty(),
            }
        } else {
            Seq::empty()
        };
        head + spec_native_entries(libs.drop_first(), path, arch, platform)
    }
}

/// The native-flagged entries of a version's resolved libraries,
/// each with its local archive path and exclusion prefixes.
#[derive(Debug)]
pub struct NativeCollection {
    pub libraries: Vec<(String, Vec<String>)>,
}

impl DeepView for NativeCollection {
    type V = Seq<(Seq<char>, Seq<Seq<char>>)>;

    open spec fn deep_view(&self) -> Seq<(Seq<char>, Seq<Seq<char>>)> {
        self.libraries.deep_view()
    }
}

/// The name matches none of the exclusion prefixes.
pub open spec fn spec_file_included(name: Seq<char>, excluded: Seq<Seq<char>>) -> bool {
    forall|i: int| 0 <= i < excluded.len() ==> !spec_starts_with(name, #[trigger] excluded[i])
}

/// Whether an archive entry escapes every exclusion prefix.
pub(crate) fn entry_included(extract_ignored: &Vec<String>, file_name: &str) -> (r: bool)
    ensures
        r == spec_file_included(file_name@, extract_ignored.deep_view()),
{
    let n = extract_ignored.len();
    let mut i: usize = 0;
    while i < n
        invariant
            n == extract_ignored@.len(),
            i <= n,
            forall|j: int|
                0 <= j < i ==> !spec_starts_with(
                    file_name@,
                    #[trigger] extract_ignored.deep_view()[j],
                ),
        decreases n - i,
    {
        if str_starts_with(file_name, extract_ignored[i].as_str()) {
            proof {
                assert(extract_ignored.deep_view()[i as int] == extract_ignored@[i as int]@);
            }
            return false;
        }
        i = i + 1;
    }
    true
}

impl NativeCollection {
    /// Whether an archive entry escapes every exclusion prefix.
    pub fn is_file_included(&self, extract_ignored: &Vec<String>, file_name: &str) -> (r: bool)
        ensures
            r == spec_file_included(file_name@, extract_ignored.deep_view()),
    {
        entry_included(extract_ignored, file_name)
    }
}


fn starts_with_dash(t: &str) -> (r: bool)
    ensures
        r == (t@.len() > 0 && t@[0] == '-'),
{
    if t.unicode_len() > 0 {
        t.get_char(0) == '-'
    } else {
        false
    }
}

/// The first token of a template, or the template itself when it is
/// malformed.
pub open spec fn spec_parse_token_or_self(t: Seq<char>, s: StrategyV) -> Seq<char> {
    let (e, r) = spec_parse_token(t, 0, s);
    match r {
        Option::Some(tok) => tok,
        Option::None => t,
    }
}

/// The game options a token sequence pairs into, given a possibly
/// pending option name: a `-`-prefixed token opens (or replaces,
/// flushing) the pending name; another token is its value, or a
/// standalone option; at the end a pending name is flushed standalone.
pub open spec fn spec_pair_tokens(tokens: Seq<Seq<char>>, pending: Option<Seq<char>>) -> Seq<
    (Seq<char>, Option<Seq<char>>),
>
    decreases tokens.len(),
{
    if tokens.len() == 0 {
        match pending {
            Option::Some(n) => seq![(n, Option::<Seq<char>>::None)],
            Option::None => Seq::empty(),
        }
    } else {
        let t = tokens[0];
        let dash = t.len() > 0 && t[0] == '-';
        match pending {
            Option::None => if dash {
                spec_pair_tokens(tokens.drop_first(), Option::Some(t))
            } else {
                seq![(t, Option::<Seq<char>>::None)] + spec_pair_tokens(
                    tokens.drop_first(),
                    Option::None,
                )
            },
            Option::Some(n) => if dash {
                seq![(n, Option::<Seq<char>>::None)] + spec_pair_tokens(
                    tokens.drop_first(),
                    Option::Some(t),
                )
            } else {
                seq![(n, Option::Some(t))] + spec_pair_tokens(tokens.drop_first(), Option::None)
            },
        }
    }
}

/// The `--width` option appended after the template's game options.
pub open spec fn spec_width_option(s: StrategyV) -> (Seq<char>, Option<Seq<char>>) {
    ("--width"@, Option::Some(spec_parse_token_or_self("${resolution_width}"@, s)))
}

/// The `--height` option appended after the template's game options.
pub open spec fn spec_height_option(s: StrategyV) -> (Seq<char>, Option<Seq<char>>) {
    ("--height"@, Option::Some(spec_parse_token_or_self("${resolution_height}"@, s)))
}

/// The game options a version contributes: none when no descriptor in
/// its chain defines a legacy argument string; else the string's
/// tokens paired into options, with the width and height options
/// appended last.  A malformed string fails the collection.
pub open spec fn spec_collect_game(
    vs: Seq<MinecraftVersionV>,
    v: MinecraftVersionV,
    root: Seq<char>,
    fuel: nat,
    s: StrategyV,
) -> Result<Seq<(Seq<char>, Option<Seq<char>>)>, ErrorV> {
    match spec_resolve_arguments(vs, v, root, fuel) {
        Result::Err(e) => Result::Err(e),
        Result::Ok(Option::None) => Result::Ok(Seq::empty()),
        Result::Ok(Option::Some(args)) => match spec_token_stream(args, 0, s) {
            Option::None => Result::Err(ErrorV::TemplateParseFailure),
            Option::Some(tokens) => Result::Ok(
                spec_pair_tokens(tokens, Option::None) + seq![
                    spec_width_option(s),
                    spec_height_option(s),
                ],
            ),
        },
    }
}

/// Chains that never define a legacy argument string contribute no
/// game options: collection succeeds and appends nothing.
pub proof fn lemma_no_arguments_no_options(
    vs: Seq<MinecraftVersionV>,
    v: MinecraftVersionV,
    root: Seq<char>,
    fuel: nat,
    s: StrategyV,
)
    requires
        spec_resolve_arguments(vs, v, root, fuel) == Result::<Option<Seq<char>>, ErrorV>::Ok(
            Option::None,
        ),
    ensures
        spec_collect_game(vs, v, root, fuel, s) == Result::<
            Seq<(Seq<char>, Option<Seq<char>>)>,
            ErrorV,
        >::Ok(Seq::empty()),
{
}

/// When the chain defines a legacy argument string and it tokenizes,
/// the width and height options stand last, whatever the string
/// holds.
pub proof fn lemma_width_height_last(
    vs: Seq<MinecraftVersionV>,
    v: MinecraftVersionV,
    root: Seq<char>,
    fuel: nat,
    s: StrategyV,
)
    requires
        spec_resolve_arguments(vs, v, root, fuel) matches Result::Ok(a) && a is Some,
        spec_token_stream(
            spec_resolve_arguments(vs, v, root, fuel)->Ok_0->Some_0,
            0,
            s,
        ) is Some,
    ensures
        spec_collect_game(vs, v, root, fuel, s) is Ok,
        ({
            let opts = spec_collect_game(vs, v, root, fuel, s)->Ok_0;
            &&& opts.len() >= 2
            &&& opts[opts.len() - 2] == spec_width_option(s)
            &&& opts[opts.len() - 1] == spec_height_option(s)
        }),
{
    let args = spec_resolve_arguments(vs, v, root, fuel)->Ok_0->Some_0;
    let tokens = spec_token_stream(args, 0, s)->Some_0;
    let paired = spec_pair_tokens(tokens, Option::None);
    let opts = spec_collect_game(vs, v, root, fuel, s)->Ok_0;
    assert(opts == paired + seq![spec_width_option(s), spec_height_option(s)]);
    assert(opts[opts.len() - 2] == spec_width_option(s));
    assert(opts[opts.len() - 1] == spec_height_option(s));
}

/// The native collection of a version: its resolved libraries'
/// native entries, or the resolution's failure.
pub open spec fn spec_to_native_collection(
    vs: Seq<MinecraftVersionV>,
    v: MinecraftVersionV,
    root: Seq<char>,
    fuel: nat,
    path: Seq<char>,
    arch: Seq<char>,
    platform: Seq<char>,
) -> Result<Seq<(Seq<char>, Seq<Seq<char>>)>, ErrorV> {
    match spec_resolve_libraries(vs, v, root, fuel) {
        Result::Err(e) => Result::Err(e),
        Result::Ok(libs) => Result::Ok(spec_native_entries(libs, path, arch, platform)),
    }
}

impl MinecraftVersion {
    fn parse_token(&self, token: &str, s: &ParameterStrategy) -> (r: String)
        ensures
            r@ == spec_parse_token_or_self(token@, s@),
    {
        let mut it = parse(token, s);
        match it.next() {
            Option::Some(t) => t,
            Option::None => String::from_str(token),
        }
    }

    /// Append the version's game options to `parameters`: the
    /// chain-resolved legacy argument string tokenized and paired,
    /// with width and height appended last; nothing when no chain
    /// descriptor defines the string.  On failure `parameters` is
    /// left unchanged.
    pub fn collect_game_arguments(
        &self,
        manager: &VersionManager,
        parameters: &mut Vec<GameOption>,
        s: &ParameterStrategy,
    ) -> (r: Result<(), Error>)
        ensures
            ({
                let sc = spec_collect_game(
                    manager.versions.deep_view(),
                    self.deep_view(),
                    manager.versions_path@,
                    manager.versions@.len() as nat,
                    s@,
                );
                match sc {
                    Result::Ok(opts) => r is Ok && final(parameters).deep_view() == old(
                        parameters,
                    ).deep_view() + opts,
                    Result::Err(e) => (match r {
                        Result::Err(e2) => e2.deep_view() == e,
                        Result::Ok(_) => false,
                    }) && final(parameters).deep_view() == old(parameters).deep_view(),
                }
            }),
    {
        let args_opt = match self.arguments_fuel(manager, manager.versions.len()) {
            Result::Err(e) => {
                return Result::Err(e);
            },
            Result::Ok(a) => a,
        };
        let args = match args_opt {
            Option::None => {
                proof {
                    assert(old(parameters).deep_view() + Seq::<
                        (Seq<char>, Option<Seq<char>>),
                    >::empty() =~= old(parameters).deep_view());
                }
                return Result::Ok(());
            },
            Option::Some(a) => a,
        };
        let tokens = match tokenize(args.as_str(), s) {
            Option::None => {
                return Result::Err(Error::TemplateParseFailure);
            },
            Option::Some(t) => t,
        };
        let ghost toksv = strings_view(tokens@);
        let ghost base = old(parameters).deep_view();
        let mut pending: Option<String> = Option::None;
        let ghost mut produced: Seq<(Seq<char>, Option<Seq<char>>)> = Seq::empty();
        let n = tokens.len();
        let mut i: usize = 0;
        proof {
            assert(toksv.skip(0) =~= toksv);
            assert(produced + spec_pair_tokens(toksv, Option::None) =~= spec_pair_tokens(
                toksv,
                Option::None,
            ));
            assert(base + produced =~= base);
        }
        while i < n
            invariant
                n == tokens@.len(),
                i <= n,
                toksv == strings_view(tokens@),
                base == old(parameters).deep_view(),
                after_borrow(parameters).deep_view() == base + produced,
                spec_pair_tokens(toksv, Option::None) == produced + spec_pair_tokens(
                    toksv.skip(i as int),
                    pending.deep_view(),
                ),
            decreases n - i,
        {
            proof {
                assert(toksv.skip(i as int)[0] == toksv[i as int]);
                assert(toksv[i as int] == tokens@[i as int]@);
            }
            let tok = tokens[i].clone();
            let ghost tokv = tok@;
            let dash = starts_with_dash(tok.as_str());
            let p = pending;
            pending = Option::None;
            match p {
                Option::None => {
                    if dash {
                        pending = Option::Some(tok);
                    } else {
                        let ghost prev = parameters.deep_view();
                        parameters.push(GameOption::new_single(tok));
                        proof {
                            produced = produced.push((tokv, Option::<Seq<char>>::None));
                            assert(parameters.deep_view() =~= prev.push(
                                (tokv, Option::<Seq<char>>::None),
                            ));
                            assert(parameters.deep_view() =~= base + produced);
                        }
                    }
                },
                Option::Some(name) => {
                    let ghost namev = name@;
                    if dash {
                        let ghost prev = parameters.deep_view();
                        parameters.push(GameOption::new_single(name));
                        pending = Option::Some(tok);
                        proof {
                            produced = produced.push((namev, Option::<Seq<char>>::None));
                            assert(parameters.deep_view() =~= prev.push(
                                (namev, Option::<Seq<char>>::None),
                            ));
                            assert(parameters.deep_view() =~= base + produced);
                        }
                    } else {
                        let ghost prev = parameters.deep_view();
                        parameters.push(GameOption::new_pair(name, tok));
                        proof {
                            produced = produced.push((namev, Option::Some(tokv)));
                            assert(parameters.deep_view() =~= prev.push(
                                (namev, Option::Some(tokv)),
                            ));
                            assert(parameters.deep_view() =~= base + produced);
                        }
                    }
                },
            }
            i = i + 1;
            proof {
                assert(toksv.skip(i - 1).drop_first() =~= toksv.skip(i as int));
                assert(spec_pair_tokens(toksv, Option::None) =~= produced + spec_pair_tokens(
                    toksv.skip(i as int),
                    pending.deep_view(),
                ));
            }
        }
        proof {
            assert(toksv.skip(n as int) =~= Seq::<Seq<char>>::empty());
        }
        match pending {
            Option::Some(name) => {
                let ghost namev = name@;
                let ghost prev = parameters.deep_view();
                parameters.push(GameOption::new_single(name));
                proof {
                    produced = produced.push((namev, Option::<Seq<char>>::None));
                    assert(parameters.deep_view() =~= prev.push((namev, Option::<Seq<char>>::None)));
                    assert(parameters.deep_view() =~= base + produced);
                    assert(produced =~= spec_pair_tokens(toksv, Option::None));
                }
            },
            Option::None => {
                proof {
                    assert(produced =~= spec_pair_tokens(toksv, Option::None));
                }
            },
        }
        let wv = self.parse_token("${resolution_width}", s);
        let ghost prev1 = parameters.deep_view();
        parameters.push(GameOption::new_pair(String::from_str("--width"), wv));
        proof {
            assert(parameters.deep_view() =~= prev1.push(spec_width_option(s@)));
        }
        let hv = self.parse_token("${resolution_height}", s);
        let ghost prev2 = parameters.deep_view();
        parameters.push(GameOption::new_pair(String::from_str("--height"), hv));
        proof {
            assert(parameters.deep_view() =~= prev2.push(spec_height_option(s@)));
            assert(parameters.deep_view() =~= base + (spec_pair_tokens(toksv, Option::None)
                + seq![spec_width_option(s@), spec_height_option(s@)]));
        }
        Result::Ok(())
    }

    /// The JVM options a version contributes, appended to
    /// `parameters`: one platform-conditional heap-dump flag, the
    /// templated library-path, brand, version and client-archive
    /// options, and the `-cp`/classpath pair.
    pub fn collect_jvm_arguments(
        &self,
        manager: &VersionManager,
        parameters: &mut Vec<JvmOption>,
        s: &ParameterStrategy,
    ) -> (r: Result<(), Error>)
        ensures
            r is Ok,
            final(parameters).deep_view() == old(parameters).deep_view() + spec_collect_jvm(
                manager.os_platform@,
                s@,
            ),
    {
        let ghost base = old(parameters).deep_view();
        if str_eq(manager.os_platform.as_str(), "windows") {
            parameters.push(
                JvmOption::new(
                    String::from_str(
                        "-XX:HeapDumpPath=MojangTricksIntelDriversForPerformance_javaw.exe_minecraft.exe.heapdump",
                    ),
                ),
            );
        }
        let t1 = self.parse_token("-Djava.library.path=${natives_directory}", s);
        parameters.push(JvmOption::new(t1));
        let t2 = self.parse_token("-Dminecraft.arguments.brand=${arguments_name}", s);
        parameters.push(JvmOption::new(t2));
        let t3 = self.parse_token("-Dminecraft.arguments.version=${arguments_version}", s);
        parameters.push(JvmOption::new(t3));
        let t4 = self.parse_token("-Dminecraft.client.jar=${primary_jar}", s);
        parameters.push(JvmOption::new(t4));
        parameters.push(JvmOption::new(String::from_str("-cp")));
        let t5 = self.parse_token("${classpath}", s);
        parameters.push(JvmOption::new(t5));
        proof {
            assert(parameters.deep_view() =~= base + spec_collect_jvm(manager.os_platform@, s@));
        }
        Result::Ok(())
    }

    /// Build the classpath text with an explicit separator: each
    /// applicable non-native library's entry followed by the
    /// separator, the primary archive path last.  Entries are joined
    /// exactly as the directories were given; a caller wanting
    /// canonical filesystem paths canonicalizes the directories it
    /// passes in.
    pub fn classpath_with_separator(
        &self,
        library_path: &str,
        classpath_separator: &str,
        manager: &VersionManager,
    ) -> (r: Result<String, Error>)
        ensures
            rs_str(
                r,
                spec_classpath(
                    manager.versions.deep_view(),
                    self.deep_view(),
                    manager.versions_path@,
                    manager.versions@.len() as nat,
                    library_path@,
                    classpath_separator@,
                    manager.os_arch@,
                    manager.os_platform@,
                ),
            ),
    {
        let libs = match self.libraries(manager) {
            Result::Err(e) => {
                return Result::Err(e);
            },
            Result::Ok(l) => l,
        };
        let ghost libsv = libs.deep_view();
        let ghost pathv = library_path@;
        let ghost sepv = classpath_separator@;
        let ghost archv = manager.os_arch@;
        let ghost platv = manager.os_platform@;
        let mut result = String::new();
        let n = libs.len();
        let mut i: usize = 0;
        proof {
            assert(libsv.skip(0) =~= libsv);
            assert(result@ + spec_classpath_entries(libsv, pathv, sepv, archv, platv)
                =~= spec_classpath_entries(libsv, pathv, sepv, archv, platv));
        }
        while i < n
            invariant
                n == libs@.len(),
                i <= n,
                libsv == libs.deep_view(),
                pathv == library_path@,
                sepv == classpath_separator@,
                archv == manager.os_arch@,
                platv == manager.os_platform@,
                spec_classpath_entries(libsv, pathv, sepv, archv, platv) == result@
                    + spec_classpath_entries(libsv.skip(i as int), pathv, sepv, archv, platv),
            decreases n - i,
        {
            proof {
                assert(libsv.skip(i as int)[0] == libsv[i as int]);
                assert(libsv[i as int] == libs@[i as int].deep_view());
            }
            let ghost before = result@;
            let lib = &libs[i];
            if !lib.is_native() {
                match lib.classpath_default(library_path, manager) {
                    Option::Some(p) => {
                        result.append(p.as_str());
                        result.append(classpath_separator);
                    },
                    Option::None => {},
                }
            }
            i = i + 1;
            proof {
                assert(libsv.skip(i - 1).drop_first() =~= libsv.skip(i as int));
                assert(spec_classpath_entries(libsv, pathv, sepv, archv, platv) =~= result@
                    + spec_classpath_entries(libsv.skip(i as int), pathv, sepv, archv, platv));
            }
        }
        proof {
            assert(libsv.skip(n as int) =~= Seq::<LibraryV>::empty());
        }
        let primary = manager.get_primary_jar_path(self.id.as_str());
        result.append(primary.as_str());
        Result::Ok(result)
    }

    /// Build the classpath with the platform separator `:`.
    pub fn classpath(&self, library_path: &str, manager: &VersionManager) -> (r: Result<
        String,
        Error,
    >)
        ensures
            rs_str(
                r,
                spec_classpath(
                    manager.versions.deep_view(),
                    self.deep_view(),
                    manager.versions_path@,
                    manager.versions@.len() as nat,
                    library_path@,
                    ":"@,
                    manager.os_arch@,
                    manager.os_platform@,
                ),
            ),
    {
        self.classpath_with_separator(library_path, ":", manager)
    }

    /// Collect the native-flagged libraries' archive paths and
    /// exclusion prefixes.
    pub fn to_native_collection(&self, manager: &VersionManager, library_path: &str) -> (r: Result<
        NativeCollection,
        Error,
    >)
        ensures
            ({
                match (r, spec_to_native_collection(
                    manager.versions.deep_view(),
                    self.deep_view(),
                    manager.versions_path@,
                    manager.versions@.len() as nat,
                    library_path@,
                    manager.os_arch@,
                    manager.os_platform@,
                )) {
                    (Result::Ok(c), Result::Ok(entries)) => c.deep_view() == entries,
                    (Result::Err(e), Result::Err(ev)) => e.deep_view() == ev,
                    _ => false,
                }
            }),
    {
        let libs = match self.libraries(manager) {
            Result::Err(e) => {
                return Result::Err(e);
            },
            Result::Ok(l) => l,
        };
        let ghost libsv = libs.deep_view();
        let ghost pathv = library_path@;
        let ghost archv = manager.os_arch@;
        let ghost platv = manager.os_platform@;
        let mut collection: Vec<(String, Vec<String>)> = Vec::new();
        let n = libs.len();
        let mut i: usize = 0;
        proof {
            assert(libsv.skip(0) =~= libsv);
            assert(collection.deep_view() + spec_native_entries(libsv, pathv, archv, platv)
                =~= spec_native_entries(libsv, pathv, archv, platv));
        }
        while i < n
            invariant
                n == libs@.len(),
                i <= n,
                libsv == libs.deep_view(),
                pathv == library_path@,
                archv == manager.os_arch@,
                platv == manager.os_platform@,
                spec_native_entries(libsv, pathv, archv, platv) == collection.deep_view()
                    + spec_native_entries(libsv.skip(i as int), pathv, archv, platv),
            decreases n - i,
        {
            proof {
                assert(libsv.skip(i as int)[0] == libsv[i as int]);
                assert(libsv[i as int] == libs@[i as int].deep_view());
            }
            let lib = &libs[i];
            if lib.is_native() {
                match lib.classpath_default(library_path, manager) {
                    Option::Some(p) => {
                        let ghost prev = collection.deep_view();
                        let ghost pv = p@;
                        collection.push((p, duplicate_strings(&lib.extract_ignored)));
                        proof {
                            assert(collection.deep_view() =~= prev.push(
                                (pv, libs@[i as int].deep_view().extract_ignored),
                            ));
                        }
                    },
                    Option::None => {},
                }
            }
            i = i + 1;
            proof {
                assert(libsv.skip(i - 1).drop_first() =~= libsv.skip(i as int));
                assert(spec_native_entries(libsv, pathv, archv, platv) =~= collection.deep_view()
                    + spec_native_entries(libsv.skip(i as int), pathv, archv, platv));
            }
        }
        proof {
            assert(libsv.skip(n as int) =~= Seq::<LibraryV>::empty());
            assert(collection.deep_view() =~= spec_native_entries(libsv, pathv, archv, platv));
        }
        Result::Ok(NativeCollection { libraries: collection })
    }
}

/// The JVM options a version contributes on a platform: the
/// platform-conditional heap-dump flag, four templated options, and
/// the `-cp`/classpath pair, in order.
pub open spec fn spec_collect_jvm(platform: Seq<char>, s: StrategyV) -> Seq<Seq<char>> {
    let base: Seq<Seq<char>> = if platform == "windows"@ {
        seq![
            "-XX:HeapDumpPath=MojangTricksIntelDriversForPerformance_javaw.exe_minecraft.exe.heapdump"@,
        ]
    } else {
        Seq::empty()
    };
    base + seq![
        spec_parse_token_or_self("-Djava.library.path=${natives_directory}"@, s),
        spec_parse_token_or_self("-Dminecraft.arguments.brand=${arguments_name}"@, s),
        spec_parse_token_or_self("-Dminecraft.arguments.version=${arguments_version}"@, s),
        spec_parse_token_or_self("-Dminecraft.client.jar=${primary_jar}"@, s),
        "-cp"@,
        spec_parse_token_or_self("${classpath}"@, s),
    ]
}


/// The artifact reference for a URL: packed when the library's
/// checksums mark it so, raw otherwise.
pub open spec fn spec_mk_download(url: Seq<char>, is_xz: bool) -> DownloadInfoV {
    if is_xz {
        DownloadInfoV::RawXzip { url }
    } else {
        DownloadInfoV::Raw { url }
    }
}

fn mk_download(url: String, is_xz: bool) -> (r: DownloadInfo)
    ensures
        r.deep_view() == spec_mk_download(url@, is_xz),
{
    if is_xz {
        DownloadInfo::RawXzip { url }
    } else {
        DownloadInfo::Raw { url }
    }
}

/// A native classifier template with `${arch}` filled in for one
/// address width.
pub open spec fn spec_arch_classifier(template: Seq<char>, arch: Seq<char>) -> Seq<char> {
    spec_replace_all(template, "${arch}"@, arch)
}

/// The classifier-keyed entries a natives table contributes when the
/// descriptor carries a classifier map: for each named platform and
/// each address width, the filled-in classifier's artifact, when the
/// map holds it.
pub open spec fn spec_classifier_entries(
    natives: Seq<(Seq<char>, Seq<char>)>,
    classifiers: Seq<(Seq<char>, DownloadInfoV)>,
) -> Seq<(Seq<char>, (Seq<char>, DownloadInfoV))>
    decreases natives.len(),
{
    if natives.len() == 0 {
        Seq::empty()
    } else {
        let os = natives[0].0;
        let c32 = spec_arch_classifier(natives[0].1, "32"@);
        let c64 = spec_arch_classifier(natives[0].1, "64"@);
        let e32: Seq<(Seq<char>, (Seq<char>, DownloadInfoV))> = match spec_assoc(classifiers, c32) {
            Option::Some(d) => seq![("32bit "@ + os, (c32, d))],
            Option::None => Seq::empty(),
        };
        let e64: Seq<(Seq<char>, (Seq<char>, DownloadInfoV))> = match spec_assoc(classifiers, c64) {
            Option::Some(d) => seq![("64bit "@ + os, (c64, d))],
            Option::None => Seq::empty(),
        };
        e32 + e64 + spec_classifier_entries(natives.drop_first(), classifiers)
    }
}

/// The classifier-keyed entries a natives table contributes when the
/// artifacts live under a URL prefix: for each named platform and
/// each address width, the filled-in classifier's repository URL,
/// when the coordinate is well-formed.
pub open spec fn spec_url_entries(
    natives: Seq<(Seq<char>, Seq<char>)>,
    name: Seq<char>,
    prefix: Seq<char>,
    is_xz: bool,
) -> Seq<(Seq<char>, (Seq<char>, DownloadInfoV))>
    decreases natives.len(),
{
    if natives.len() == 0 {
        Seq::empty()
    } else {
        let os = natives[0].0;
        let c32 = spec_arch_classifier(natives[0].1, "32"@);
        let c64 = spec_arch_classifier(natives[0].1, "64"@);
        let e32: Seq<(Seq<char>, (Seq<char>, DownloadInfoV))> = match spec_url_suffix(
            name,
            c32,
            is_xz,
        ) {
            Option::Some(sfx) => seq![("32bit "@ + os, (c32, spec_mk_download(prefix + sfx, is_xz)))],
            Option::None => Seq::empty(),
        };
        let e64: Seq<(Seq<char>, (Seq<char>, DownloadInfoV))> = match spec_url_suffix(
            name,
            c64,
            is_xz,
        ) {
            Option::Some(sfx) => seq![("64bit "@ + os, (c64, spec_mk_download(prefix + sfx, is_xz)))],
            Option::None => Seq::empty(),
        };
        e32 + e64 + spec_url_entries(natives.drop_first(), name, prefix, is_xz)
    }
}

/// The library a descriptor's raw fields assemble into, or nothing
/// when the name is missing.  With no URL override and an explicit
/// download table, artifacts come from that table; otherwise from
/// the repository under the override or the standard prefix.
pub open spec fn spec_library_from_raw(
    name: Seq<char>,
    url_prefix: Seq<char>,
    is_xz: bool,
    natives: Seq<(Seq<char>, Seq<char>)>,
    rules: Seq<(Seq<char>, Seq<char>)>,
    extract_ignored: Seq<Seq<char>>,
    classifiers: Seq<(Seq<char>, DownloadInfoV)>,
    artifact: Option<DownloadInfoV>,
    has_downloads: bool,
) -> Option<LibraryV> {
    if name.len() == 0 {
        Option::None
    } else if url_prefix.len() == 0 && has_downloads {
        Option::Some(
            LibraryV {
                name,
                is_native: natives.len() > 0,
                downloads: DownloadStrategyV {
                    with_classifier: spec_classifier_entries(natives, classifiers),
                    default: artifact,
                    rules,
                },
                extract_ignored,
            },
        )
    } else {
        let prefix = if url_prefix.len() == 0 {
            "https://libraries.minecraft.net/"@
        } else {
            url_prefix
        };
        let with_classifier = if natives.len() == 0 {
            Seq::<(Seq<char>, (Seq<char>, DownloadInfoV))>::empty()
        } else {
            spec_url_entries(natives, name, prefix, is_xz)
        };
        let default = if natives.len() == 0 {
            match spec_url_suffix(name, Seq::empty(), is_xz) {
                Option::Some(sfx) => Option::Some(spec_mk_download(prefix + sfx, is_xz)),
                Option::None => Option::None,
            }
        } else {
            Option::None
        };
        Option::Some(
            LibraryV {
                name,
                is_native: natives.len() > 0,
                downloads: DownloadStrategyV { with_classifier, default, rules },
                extract_ignored,
            },
        )
    }
}

impl Library {
    /// Assemble a library from a descriptor's raw fields: coordinate
    /// name, optional repository URL prefix, whether checksums mark a
    /// packed artifact, the natives table, the applicability rules,
    /// the extraction exclusions, and — when the descriptor carries
    /// an explicit download table — its classifier map and default
    /// artifact.  A missing name yields nothing.
    pub fn from_raw(
        name: String,
        url_prefix: String,
        is_xz: bool,
        natives: Vec<(String, String)>,
        rules: Vec<(String, String)>,
        extract_ignored: Vec<String>,
        classifiers: Vec<(String, DownloadInfo)>,
        artifact: Option<DownloadInfo>,
        has_downloads: bool,
    ) -> (r: Option<Library>)
        ensures
            ({
                match (r, spec_library_from_raw(
                    name@,
                    url_prefix@,
                    is_xz,
                    natives.deep_view(),
                    rules.deep_view(),
                    extract_ignored.deep_view(),
                    classifiers.deep_view(),
                    artifact.deep_view(),
                    has_downloads,
                )) {
                    (Option::Some(l), Option::Some(lv)) => l.deep_view() == lv,
                    (Option::None, Option::None) => true,
                    _ => false,
                }
            }),
    {
        let ghost nativesv = natives.deep_view();
        let ghost classifiersv = classifiers.deep_view();
        if name.as_str().unicode_len() == 0 {
            return Option::None;
        }
        let is_native = natives.len() > 0;
        if url_prefix.as_str().unicode_len() == 0 && has_downloads {
            let mut with_classifier: Vec<(String, (String, DownloadInfo))> = Vec::new();
            let n = natives.len();
            let mut i: usize = 0;
            proof {
                assert(nativesv.skip(0) =~= nativesv);
                assert(with_classifier.deep_view() + spec_classifier_entries(
                    nativesv,
                    classifiersv,
                ) =~= spec_classifier_entries(nativesv, classifiersv));
            }
            while i < n
                invariant
                    n == natives@.len(),
                    i <= n,
                    nativesv == natives.deep_view(),
                    classifiersv == classifiers.deep_view(),
                    spec_classifier_entries(nativesv, classifiersv) == with_classifier.deep_view()
                        + spec_classifier_entries(nativesv.skip(i as int), classifiersv),
                decreases n - i,
            {
                proof {
                    assert(nativesv.skip(i as int)[0] == nativesv[i as int]);
                    assert(nativesv[i as int] == natives@[i as int].deep_view());
                }
                let os = &natives[i].0;
                let template = &natives[i].1;
                proof {
                    reveal_strlit("${arch}");
                }
                let c32 = replace_all(template.as_str(), "${arch}", "32");
                let c64 = replace_all(template.as_str(), "${arch}", "64");
                match assoc_download(&classifiers, c32.as_str()) {
                    Option::Some(d) => {
                        let key = String::from_str("32bit ").concat(os.as_str());
                        let ghost prev = with_classifier.deep_view();
                        let ghost entry = (key@, (c32@, d.deep_view()));
                        with_classifier.push((key, (c32, d.duplicate())));
                        proof {
                            assert(with_classifier.deep_view() =~= prev.push(entry));
                        }
                    },
                    Option::None => {},
                }
                match assoc_download(&classifiers, c64.as_str()) {
                    Option::Some(d) => {
                        let key = String::from_str("64bit ").concat(os.as_str());
                        let ghost prev = with_classifier.deep_view();
                        let ghost entry = (key@, (c64@, d.deep_view()));
                        with_classifier.push((key, (c64, d.duplicate())));
                        proof {
                            assert(with_classifier.deep_view() =~= prev.push(entry));
                        }
                    },
                    Option::None => {},
                }
                i = i + 1;
                proof {
                    assert(nativesv.skip(i - 1).drop_first() =~= nativesv.skip(i as int));
                    assert(spec_classifier_entries(nativesv, classifiersv)
                        =~= with_classifier.deep_view() + spec_classifier_entries(
                        nativesv.skip(i as int),
                        classifiersv,
                    ));
                }
            }
            proof {
                assert(nativesv.skip(n as int) =~= Seq::<(Seq<char>, Seq<char>)>::empty());
            }
            return Option::Some(
                Library {
                    name,
                    is_native,
                    downloads: DownloadStrategy { with_classifier, default: artifact, rules },
                    extract_ignored,
                },
            );
        }
        let prefix = if url_prefix.as_str().unicode_len() == 0 {
            String::from_str("https://libraries.minecraft.net/")
        } else {
            url_prefix
        };
        if natives.len() == 0 {
            let default = match Library::get_url_suffix(name.as_str(), "", is_xz) {
                Option::Some(sfx) => {
                    proof {
                        reveal_strlit("");
                        assert(""@ =~= Seq::<char>::empty());
                    }
                    Option::Some(mk_download(prefix.concat(sfx.as_str()), is_xz))
                },
                Option::None => Option::None,
            };
            let with_classifier: Vec<(String, (String, DownloadInfo))> = Vec::new();
            proof {
                assert(with_classifier.deep_view() =~= Seq::<
                    (Seq<char>, (Seq<char>, DownloadInfoV)),
                >::empty());
            }
            return Option::Some(
                Library { name, is_native, downloads: DownloadStrategy { with_classifier, default, rules }, extract_ignored },
            );
        }
        let ghost prefixv = prefix@;
        let mut with_classifier: Vec<(String, (String, DownloadInfo))> = Vec::new();
        let n = natives.len();
        let mut i: usize = 0;
        proof {
            assert(nativesv.skip(0) =~= nativesv);
            assert(with_classifier.deep_view() + spec_url_entries(nativesv, name@, prefixv, is_xz)
                =~= spec_url_entries(nativesv, name@, prefixv, is_xz));
        }
        while i < n
            invariant
                n == natives@.len(),
                i <= n,
                nativesv == natives.deep_view(),
                prefixv == prefix@,
                spec_url_entries(nativesv, name@, prefixv, is_xz) == with_classifier.deep_view()
                    + spec_url_entries(nativesv.skip(i as int), name@, prefixv, is_xz),
            decreases n - i,
        {
            proof {
                assert(nativesv.skip(i as int)[0] == nativesv[i as int]);
                assert(nativesv[i as int] == natives@[i as int].deep_view());
            }
            let os = &natives[i].0;
            let template = &natives[i].1;
            proof {
                reveal_strlit("${arch}");
            }
            let c32 = replace_all(template.as_str(), "${arch}", "32");
            let c64 = replace_all(template.as_str(), "${arch}", "64");
            match Library::get_url_suffix(name.as_str(), c32.as_str(), is_xz) {
                Option::Some(sfx) => {
                    let key = String::from_str("32bit ").concat(os.as_str());
                    let info = mk_download(prefix.clone().concat(sfx.as_str()), is_xz);
                    let ghost prev = with_classifier.deep_view();
                    let ghost entry = (key@, (c32@, info.deep_view()));
                    with_classifier.push((key, (c32, info)));
                    proof {
                        assert(with_classifier.deep_view() =~= prev.push(entry));
                    }
                },
                Option::None => {},
            }
            match Library::get_url_suffix(name.as_str(), c64.as_str(), is_xz) {
                Option::Some(sfx) => {
                    let key = String::from_str("64bit ").concat(os.as_str());
                    let info = mk_download(prefix.clone().concat(sfx.as_str()), is_xz);
                    let ghost prev = with_classifier.deep_view();
                    let ghost entry = (key@, (c64@, info.deep_view()));
                    with_classifier.push((key, (c64, info)));
                    proof {
                        assert(with_classifier.deep_view() =~= prev.push(entry));
                    }
                },
                Option::None => {},
            }
            i = i + 1;
            proof {
                assert(nativesv.skip(i - 1).drop_first() =~= nativesv.skip(i as int));
                assert(spec_url_entries(nativesv, name@, prefixv, is_xz)
                    =~= with_classifier.deep_view() + spec_url_entries(
                    nativesv.skip(i as int),
                    name@,
                    prefixv,
                    is_xz,
                ));
            }
        }
        proof {
            assert(nativesv.skip(n as int) =~= Seq::<(Seq<char>, Seq<char>)>::empty());
        }
        Option::Some(
            Library {
                name,
                is_native,
                downloads: DownloadStrategy { with_classifier, default: Option::None, rules },
                extract_ignored,
            },
        )
    }
}

fn assoc_download<'a>(m: &'a Vec<(String, DownloadInfo)>, k: &str) -> (r: Option<
    &'a DownloadInfo,
>)
    ensures
        ({
            match (r, spec_assoc(m.deep_view(), k@)) {
                (Option::Some(d), Option::Some(dv)) => d.deep_view() == dv,
                (Option::None, Option::None) => true,
                _ => false,
            }
        }),
{
    let ghost mv = m.deep_view();
    let n = m.len();
    let mut i: usize = 0;
    proof {
        assert(mv.skip(0) =~= mv);
    }
    while i < n
        invariant
            n == m@.len(),
            i <= n,
            mv == m.deep_view(),
            spec_assoc(mv, k@) == spec_assoc(mv.skip(i as int), k@),
        decreases n - i,
    {
        proof {
            assert(mv.skip(i as int)[0] == mv[i as int]);
            assert(mv[i as int] == m@[i as int].deep_view());
        }
        if str_eq(m[i].0.as_str(), k) {
            return Option::Some(&m[i].1);
        }
        i = i + 1;
        proof {
            assert(mv.skip(i - 1).drop_first() =~= mv.skip(i as int));
        }
    }
    proof {
        assert(mv.skip(n as int) =~= Seq::<(Seq<char>, DownloadInfoV)>::empty());
    }
    Option::None
}

} // verus!
