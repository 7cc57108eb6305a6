//! Configuration: providers, input sensitivities and cache policy, with the
//! rules a loaded document has to meet.

use crate::paths;
use crate::paths::{Environment, FsPath};
use crate::text;
use vstd::prelude::*;
#[allow(unused_imports)]
use vstd::utf8::*;

verus! {

/// A double-precision number, carried by its IEEE 754 bit pattern. Nothing
/// here computes with it.
#[derive(Debug, Clone, Copy, PartialEq, Eq, Structural)]
pub struct Real {
    pub bits: u64,
}

/// The bit pattern of one.
pub const ONE_BITS: u64 = 0x3ff0_0000_0000_0000;

/// The bit pattern of the double nearest to one tenth.
pub const TENTH_BITS: u64 = 0x3fb9_9999_9999_999a;

/// Where a provider's API key comes from. At most one source is active at a
/// time.
#[derive(Debug)]
pub enum ApiKeySource {
    /// Typed directly into the configuration.
    Literal(String),
    /// The contents of a file, trimmed, read each time the key is resolved.
    File(String),
    /// The trimmed output of a shell command.
    Command(String),
}

/// The value of an [`ApiKeySource`].
pub enum KeySourceModel {
    Literal(Seq<char>),
    File(Seq<char>),
    Command(Seq<char>),
}

impl View for ApiKeySource {
    type V = KeySourceModel;

    open spec fn view(&self) -> KeySourceModel {
        match self {
            ApiKeySource::Literal(s) => KeySourceModel::Literal(s@),
            ApiKeySource::File(s) => KeySourceModel::File(s@),
            ApiKeySource::Command(s) => KeySourceModel::Command(s@),
        }
    }
}

impl Clone for ApiKeySource {
    fn clone(&self) -> (r: Self)
        ensures
            r@ == self@,
    {
        match self {
            ApiKeySource::Literal(s) => ApiKeySource::Literal(s.clone()),
            ApiKeySource::File(s) => ApiKeySource::File(s.clone()),
            ApiKeySource::Command(s) => ApiKeySource::Command(s.clone()),
        }
    }
}

/// A custom HTTP header sent with a provider's tile requests.
#[derive(Debug, PartialEq, Eq)]
pub struct Header {
    pub name: String,
    pub value: String,
}

/// The value of a [`Header`].
pub struct HeaderModel {
    pub name: Seq<char>,
    pub value: Seq<char>,
}

impl View for Header {
    type V = HeaderModel;

    open spec fn view(&self) -> HeaderModel {
        HeaderModel { name: self.name@, value: self.value@ }
    }
}

impl Clone for Header {
    fn clone(&self) -> (r: Self)
        ensures
            r@ == self@,
    {
        Header { name: self.name.clone(), value: self.value.clone() }
    }
}

/// A tile provider and its URL template.
#[derive(Debug)]
pub struct Provider {
    pub name: String,
    /// URL template using `{z}`/`{x}`/`{y}`/`{api_key}` placeholders.
    pub url: String,
    /// When true, the Y axis is flipped (TMS) instead of XYZ.
    pub tms: bool,
    pub max_zoom: u8,
    /// Where to obtain the value of `{api_key}`, if the template uses it.
    pub api_key_source: Option<ApiKeySource>,
    /// Extra HTTP headers sent with every tile request for this provider.
    pub headers: Vec<Header>,
}

/// The value of a [`Provider`].
pub struct ProviderModel {
    pub name: Seq<char>,
    pub url: Seq<char>,
    pub tms: bool,
    pub max_zoom: u8,
    pub api_key_source: Option<KeySourceModel>,
    pub headers: Seq<HeaderModel>,
}

/// What an optional source holds, if it is there.
pub open spec fn source_view(s: Option<ApiKeySource>) -> Option<KeySourceModel> {
    match s {
        Some(source) => Some(source@),
        None => None,
    }
}

/// The values of a row of headers.
pub open spec fn header_views(s: Seq<Header>) -> Seq<HeaderModel> {
    s.map_values(|h: Header| h@)
}

/// The values of a row of providers.
pub open spec fn provider_views(s: Seq<Provider>) -> Seq<ProviderModel> {
    s.map_values(|p: Provider| p@)
}

impl View for Provider {
    type V = ProviderModel;

    open spec fn view(&self) -> ProviderModel {
        ProviderModel {
            name: self.name@,
            url: self.url@,
            tms: self.tms,
            max_zoom: self.max_zoom,
            api_key_source: source_view(self.api_key_source),
            headers: header_views(self.headers@),
        }
    }
}

/// Copies a row of headers.
fn copy_headers(headers: &Vec<Header>) -> (r: Vec<Header>)
    ensures
        header_views(r@) == header_views(headers@),
{
    let mut r: Vec<Header> = Vec::new();
    let mut i: usize = 0;
    while i < headers.len()
        invariant
            i <= headers@.len(),
            r@.len() == i,
            forall|k: int| 0 <= k < i ==> (#[trigger] r@[k])@ == headers@[k]@,
        decreases headers@.len() - i,
    {
        r.push(headers[i].clone());
        i += 1;
    }
    proof {
        assert(header_views(r@) =~= header_views(headers@));
    }
    r
}

impl Clone for Provider {
    fn clone(&self) -> (r: Self)
        ensures
            r@ == self@,
    {
        Provider {
            name: self.name.clone(),
            url: self.url.clone(),
            tms: self.tms,
            max_zoom: self.max_zoom,
            api_key_source: match &self.api_key_source {
                Some(source) => Some(source.clone()),
                None => None,
            },
            headers: copy_headers(&self.headers),
        }
    }
}

/// Copies a row of providers.
pub fn copy_providers(providers: &Vec<Provider>) -> (r: Vec<Provider>)
    ensures
        provider_views(r@) == provider_views(providers@),
{
    let mut r: Vec<Provider> = Vec::new();
    let mut i: usize = 0;
    while i < providers.len()
        invariant
            i <= providers@.len(),
            r@.len() == i,
            forall|k: int| 0 <= k < i ==> (#[trigger] r@[k])@ == providers@[k]@,
        decreases providers@.len() - i,
    {
        r.push(providers[i].clone());
        i += 1;
    }
    proof {
        assert(provider_views(r@) =~= provider_views(providers@));
    }
    r
}

/// The zoom limit of a provider that does not give one.
pub const DEFAULT_MAX_ZOOM: u8 = 19;

/// The zoom limit of a provider that does not give one.
pub fn default_max_zoom() -> (r: u8)
    ensures
        r == DEFAULT_MAX_ZOOM,
{
    DEFAULT_MAX_ZOOM
}

/// A provider with nothing filled in but its default zoom limit.
pub open spec fn blank_provider() -> ProviderModel {
    ProviderModel {
        name: Seq::empty(),
        url: Seq::empty(),
        tms: false,
        max_zoom: DEFAULT_MAX_ZOOM,
        api_key_source: None,
        headers: Seq::empty(),
    }
}

impl Default for Provider {
    fn default() -> (r: Self)
        ensures
            r@ == blank_provider(),
    {
        let r = Provider {
            name: String::new(),
            url: String::new(),
            tms: false,
            max_zoom: default_max_zoom(),
            api_key_source: None,
            headers: Vec::new(),
        };
        proof {
            assert(header_views(r.headers@) =~= Seq::empty());
        }
        r
    }
}

/// Input settings.
#[derive(Debug, Clone, Copy, PartialEq, Eq, Structural)]
pub struct General {
    /// Scroll deltas are scaled by this before they accumulate toward a zoom
    /// step of one level.
    pub scroll_sensitivity: Real,
    /// Whether trackpad pinch-to-zoom is active at all.
    pub pinch_zoom_enabled: bool,
    /// The scale of a pinch gesture, in zoom levels, is scaled by this.
    pub pinch_zoom_sensitivity: Real,
}

/// The scroll sensitivity of a document that does not give one: one tenth.
pub fn default_scroll_sensitivity() -> (r: Real)
    ensures
        r == (Real { bits: TENTH_BITS }),
{
    Real { bits: TENTH_BITS }
}

/// Pinch-to-zoom is on unless a document says otherwise.
pub fn default_pinch_zoom_enabled() -> (r: bool)
    ensures
        r,
{
    true
}

/// The pinch sensitivity of a document that does not give one: one.
pub fn default_pinch_zoom_sensitivity() -> (r: Real)
    ensures
        r == (Real { bits: ONE_BITS }),
{
    Real { bits: ONE_BITS }
}

/// Limits of the on-disk cache.
#[derive(Debug)]
pub struct CachePolicy {
    /// Cache directory; the XDG cache directory is used when this is absent.
    pub directory: Option<String>,
    /// Size limit; zero means no limit.
    pub max_size_mb: u64,
    /// Age limit; zero means that tiles never expire.
    pub max_age_days: u64,
}

/// The value of a [`CachePolicy`].
pub struct PolicyModel {
    pub directory: Option<Seq<char>>,
    pub max_size_mb: u64,
    pub max_age_days: u64,
}

/// What an optional string holds, if it is there.
pub open spec fn text_view(s: Option<String>) -> Option<Seq<char>> {
    match s {
        Some(text) => Some(text@),
        None => None,
    }
}

impl View for CachePolicy {
    type V = PolicyModel;

    open spec fn view(&self) -> PolicyModel {
        PolicyModel {
            directory: text_view(self.directory),
            max_size_mb: self.max_size_mb,
            max_age_days: self.max_age_days,
        }
    }
}

impl Clone for CachePolicy {
    fn clone(&self) -> (r: Self)
        ensures
            r@ == self@,
    {
        CachePolicy {
            directory: match &self.directory {
                Some(d) => Some(d.clone()),
                None => None,
            },
            max_size_mb: self.max_size_mb,
            max_age_days: self.max_age_days,
        }
    }
}

/// The size limit of a document that does not give one.
pub fn default_max_size_mb() -> (r: u64)
    ensures
        r == 500,
{
    500
}

/// The age limit of a document that does not give one.
pub fn default_max_age_days() -> (r: u64)
    ensures
        r == 30,
{
    30
}

/// The policy of a document that does not give one.
pub open spec fn default_policy() -> PolicyModel {
    PolicyModel { directory: None, max_size_mb: 500, max_age_days: 30 }
}

impl Default for CachePolicy {
    fn default() -> (r: Self)
        ensures
            r@ == default_policy(),
    {
        CachePolicy { directory: None, max_size_mb: 500, max_age_days: 30 }
    }
}

/// The full configuration document.
#[derive(Debug)]
pub struct Config {
    pub general: General,
    pub providers: Vec<Provider>,
    pub cache: CachePolicy,
}

/// The value of a [`Config`].
pub struct ConfigModel {
    pub general: General,
    pub providers: Seq<ProviderModel>,
    pub cache: PolicyModel,
}

impl View for Config {
    type V = ConfigModel;

    open spec fn view(&self) -> ConfigModel {
        ConfigModel {
            general: self.general,
            providers: provider_views(self.providers@),
            cache: self.cache@,
        }
    }
}

impl Clone for Config {
    fn clone(&self) -> (r: Self)
        ensures
            r@ == self@,
    {
        Config {
            general: self.general,
            providers: copy_providers(&self.providers),
            cache: self.cache.clone(),
        }
    }
}

/// A provider with a name, a template and a zoom limit, and nothing else.
pub open spec fn plain_provider(name: Seq<char>, url: Seq<char>, max_zoom: u8) -> ProviderModel {
    ProviderModel { name, url, max_zoom, ..blank_provider() }
}

/// The document that stands in for a missing one.
pub open spec fn default_config() -> ConfigModel {
    ConfigModel {
        general: General {
            scroll_sensitivity: Real { bits: ONE_BITS },
            pinch_zoom_enabled: true,
            pinch_zoom_sensitivity: Real { bits: ONE_BITS },
        },
        providers: seq![
            plain_provider(
                "OpenStreetMap"@,
                "https://tile.openstreetmap.org/{z}/{x}/{y}.png"@,
                19,
            ),
            plain_provider(
                "OpenTopoMap"@,
                "https://a.tile.opentopomap.org/{z}/{x}/{y}.png"@,
                17,
            ),
        ],
        cache: default_policy(),
    }
}

impl Default for Config {
    fn default() -> (r: Self)
        ensures
            r@ == default_config(),
    {
        let mut osm = Provider::default();
        osm.name = "OpenStreetMap".to_owned();
        osm.url = "https://tile.openstreetmap.org/{z}/{x}/{y}.png".to_owned();
        osm.max_zoom = 19;
        let mut topo = Provider::default();
        topo.name = "OpenTopoMap".to_owned();
        topo.url = "https://a.tile.opentopomap.org/{z}/{x}/{y}.png".to_owned();
        topo.max_zoom = 17;
        let mut providers: Vec<Provider> = Vec::new();
        providers.push(osm);
        providers.push(topo);
        let r = Config {
            general: General {
                scroll_sensitivity: Real { bits: ONE_BITS },
                pinch_zoom_enabled: default_pinch_zoom_enabled(),
                pinch_zoom_sensitivity: default_pinch_zoom_sensitivity(),
            },
            providers,
            cache: CachePolicy::default(),
        };
        proof {
            assert(r@.providers =~= default_config().providers);
        }
        r
    }
}

/// Whether a key source has nothing to read a key from. A literal and a
/// command count as blank when they hold only white space.
pub open spec fn blank_source(s: KeySourceModel) -> bool {
    match s {
        KeySourceModel::Literal(t) => text::trim(t).len() == 0,
        KeySourceModel::File(t) => t.len() == 0,
        KeySourceModel::Command(t) => text::trim(t).len() == 0,
    }
}

/// Whether a provider names a key source that is blank.
pub open spec fn lacks_key(p: ProviderModel) -> bool {
    p.api_key_source is Some && blank_source(p.api_key_source->0)
}

/// Whether `i` is the first provider that names a blank key source.
pub open spec fn first_lacking(ps: Seq<ProviderModel>, i: int) -> bool {
    &&& 0 <= i < ps.len()
    &&& lacks_key(ps[i])
    &&& forall|j: int| 0 <= j < i ==> !lacks_key(#[trigger] ps[j])
}

/// Whether a loaded document is acceptable: it has a provider, and no
/// provider names a blank key source.
pub open spec fn acceptable(c: ConfigModel) -> bool {
    &&& c.providers.len() > 0
    &&& forall|i: int| 0 <= i < c.providers.len() ==> !lacks_key(#[trigger] c.providers[i])
}

/// Why a loaded document is refused.
#[derive(Debug)]
pub enum ConfigError {
    /// It has no providers.
    NoProviders,
    /// The provider with this name has a blank key source.
    EmptyKeySource(String),
}

impl ConfigError {
    /// The error in words.
    pub fn message(&self) -> (r: String)
        ensures
            match self {
                ConfigError::NoProviders => r@ == "config has no providers"@,
                ConfigError::EmptyKeySource(name) => r@ == "provider '"@ + name@
                    + "' has an empty api_key_source value"@,
            },
    {
        match self {
            ConfigError::NoProviders => "config has no providers".to_owned(),
            ConfigError::EmptyKeySource(name) => {
                let mut r = "provider '".to_owned();
                r.append(name.as_str());
                r.append("' has an empty api_key_source value");
                r
            },
        }
    }
}

/// Whether a key source has nothing to read a key from.
fn is_blank_source(s: &ApiKeySource) -> (r: bool)
    ensures
        r == blank_source(s@),
{
    match s {
        ApiKeySource::Literal(t) => text::trimmed(t.as_str()).as_str().is_empty(),
        ApiKeySource::File(t) => t.as_str().is_empty(),
        ApiKeySource::Command(t) => text::trimmed(t.as_str()).as_str().is_empty(),
    }
}

/// The index of the first provider called `name`, or zero if there is none.
pub open spec fn named_index(ps: Seq<ProviderModel>, name: Seq<char>, i: int) -> bool {
    ||| {
        &&& 0 <= i < ps.len()
        &&& ps[i].name == name
        &&& forall|j: int| 0 <= j < i ==> (#[trigger] ps[j]).name != name
    }
    ||| {
        &&& i == 0
        &&& forall|j: int| 0 <= j < ps.len() ==> (#[trigger] ps[j]).name != name
    }
}

impl Config {
    /// Default path of the document: `waltzgps/config.toml` in the user's
    /// configuration directory.
    pub fn default_path(env: &Environment) -> (r: FsPath)
        ensures
            r@ == paths::joined(
                paths::joined(config_home_path(*env), encode_utf8("waltzgps"@)),
                encode_utf8("config.toml"@),
            ),
    {
        config_home(env).join("waltzgps").join("config.toml")
    }

    /// Decides what a start-up works with: the document found at the
    /// configured path if it is acceptable, or the default one, which the
    /// caller writes there, if there is none.
    pub fn load(existing: Option<Config>) -> (r: Result<Config, ConfigError>)
        ensures
            match existing {
                None => r is Ok && r->Ok_0@ == default_config(),
                Some(cfg) => {
                    &&& r is Ok <==> acceptable(cfg@)
                    &&& r is Ok ==> r->Ok_0 == cfg
                    &&& r == Err::<Config, ConfigError>(ConfigError::NoProviders) <==> cfg@.providers.len() == 0
                    &&& r matches Err(ConfigError::EmptyKeySource(name)) ==> exists|i: int|
                        first_lacking(cfg@.providers, i) && name@ == cfg@.providers[i].name
                },
            },
    {
        match existing {
            None => Ok(Config::default()),
            Some(cfg) => {
                if cfg.providers.len() == 0 {
                    return Err(ConfigError::NoProviders);
                }
                let mut i: usize = 0;
                while i < cfg.providers.len()
                    invariant
                        i <= cfg.providers@.len(),
                        existing == Some(cfg),
                        cfg@.providers.len() > 0,
                        forall|j: int| 0 <= j < i ==> !lacks_key(#[trigger] cfg@.providers[j]),
                    decreases cfg.providers@.len() - i,
                {
                    proof {
                        assert(cfg@.providers[i as int] == cfg.providers@[i as int]@);
                    }
                    if let Some(source) = &cfg.providers[i].api_key_source {
                        if is_blank_source(source) {
                            proof {
                                assert(first_lacking(cfg@.providers, i as int));
                            }
                            return Err(ConfigError::EmptyKeySource(cfg.providers[i].name.clone()));
                        }
                    }
                    i += 1;
                }
                Ok(cfg)
            },
        }
    }

    /// Index of the first provider called `provider`, or zero.
    pub fn provider_index(&self, provider: String) -> (r: usize)
        ensures
            named_index(self@.providers, provider@, r as int),
    {
        let mut i: usize = 0;
        while i < self.providers.len()
            invariant
                i <= self.providers@.len(),
                forall|j: int| 0 <= j < i ==> (#[trigger] self@.providers[j]).name != provider@,
            decreases self.providers@.len() - i,
        {
            proof {
                assert(self@.providers[i as int] == self.providers@[i as int]@);
            }
            if self.providers[i].name == provider {
                return i;
            }
            i += 1;
        }
        0
    }
}

/// What [`config_home`] stands for.
pub open spec fn config_home_path(env: Environment) -> Seq<u8> {
    paths::base_directory(paths::path_view(env.xdg_config_home), paths::path_view(env.home), encode_utf8(".config"@))
}

/// What [`cache_home`] stands for.
pub open spec fn cache_home_path(env: Environment) -> Seq<u8> {
    paths::base_directory(paths::path_view(env.xdg_cache_home), paths::path_view(env.home), encode_utf8(".cache"@))
}

/// What [`state_home`] stands for.
pub open spec fn state_home_path(env: Environment) -> Seq<u8> {
    paths::base_directory(paths::path_view(env.xdg_state_home), paths::path_view(env.home), encode_utf8(".local/state"@))
}

/// `$XDG_CONFIG_HOME` or `~/.config`.
pub fn config_home(env: &Environment) -> (r: FsPath)
    ensures
        r@ == config_home_path(*env),
{
    paths::base_dir(&env.xdg_config_home, &env.home, ".config")
}

/// `$XDG_CACHE_HOME` or `~/.cache`.
pub fn cache_home(env: &Environment) -> (r: FsPath)
    ensures
        r@ == cache_home_path(*env),
{
    paths::base_dir(&env.xdg_cache_home, &env.home, ".cache")
}

/// `$XDG_STATE_HOME` or `~/.local/state`, for transient state like the last
/// view.
pub fn state_home(env: &Environment) -> (r: FsPath)
    ensures
        r@ == state_home_path(*env),
{
    paths::base_dir(&env.xdg_state_home, &env.home, ".local/state")
}

/// The default document is acceptable, so that what the first run writes is
/// what the second run loads.
pub proof fn law_default_config_is_acceptable()
    ensures
        acceptable(default_config()),
{
}

/// The index of a provider by name is unique, and one of the list unless the
/// list is empty.
pub proof fn law_named_index_is_one_provider(
    ps: Seq<ProviderModel>,
    name: Seq<char>,
    i: int,
    j: int,
)
    requires
        named_index(ps, name, i),
        named_index(ps, name, j),
    ensures
        i == j,
        ps.len() > 0 ==> 0 <= i < ps.len(),
{
    if i < j {
        assert(ps[i].name == name || ps[j].name == name);
    }
    if j < i {
        assert(ps[i].name == name || ps[j].name == name);
    }
}

/// A document is refused for a reason that can be named: it has no providers,
/// or there is one first provider with a blank key source.
pub proof fn law_refusal_has_a_reason(c: ConfigModel)
    requires
        !acceptable(c),
        c.providers.len() > 0,
    ensures
        exists|i: int| first_lacking(c.providers, i),
        forall|i: int, j: int|
            #![trigger first_lacking(c.providers, i), first_lacking(c.providers, j)]
            first_lacking(c.providers, i) && first_lacking(c.providers, j) ==> i == j,
{
    let k = choose|k: int| 0 <= k < c.providers.len() && lacks_key(#[trigger] c.providers[k]);
    lemma_first_lacking(c.providers, k);
    assert forall|i: int, j: int|
        #![trigger first_lacking(c.providers, i), first_lacking(c.providers, j)]
        first_lacking(c.providers, i) && first_lacking(c.providers, j) implies i == j by {
        assert(lacks_key(c.providers[i]) && lacks_key(c.providers[j]));
    }
}

/// Where one provider lacks a key, a first one does.
proof fn lemma_first_lacking(ps: Seq<ProviderModel>, k: int)
    requires
        0 <= k < ps.len(),
        lacks_key(ps[k]),
    ensures
        exists|i: int| first_lacking(ps, i),
    decreases k,
{
    if exists|j: int| 0 <= j < k && lacks_key(#[trigger] ps[j]) {
        let j = choose|j: int| 0 <= j < k && lacks_key(#[trigger] ps[j]);
        lemma_first_lacking(ps, j);
    } else {
        assert(first_lacking(ps, k));
    }
}

/// Whether a key source has something to read a key from: characters other
/// than white space in a literal or a command, any characters at all in the
/// name of a file.
pub open spec fn names_a_key(s: KeySourceModel) -> bool {
    match s {
        KeySourceModel::Literal(t) => exists|i: int|
            0 <= i < t.len() && !text::white_space(#[trigger] t[i]),
        KeySourceModel::File(t) => t != Seq::<char>::empty(),
        KeySourceModel::Command(t) => exists|i: int|
            0 <= i < t.len() && !text::white_space(#[trigger] t[i]),
    }
}

/// A text is blank if no character other than white space stands in it.
proof fn lemma_blank(t: Seq<char>)
    ensures
        text::trim(t).len() == 0 <==> !(exists|i: int|
            0 <= i < t.len() && !text::white_space(#[trigger] t[i])),
{
    let (a, k, b) = text::law_every_text_has_a_core(t);
    text::law_trim_removes_white_space_only(a, k, b);
    if text::is_core(k) {
        let i = a.len() as int;
        assert((a + k + b)[i] == k[0]);
        assert(!text::white_space(t[i]));
    } else {
        assert(a + k + b =~= a + b);
        assert forall|i: int| 0 <= i < t.len() implies text::white_space(#[trigger] t[i]) by {
            if i < a.len() {
                assert((a + b)[i] == a[i]);
            } else {
                assert((a + b)[i] == b[i - a.len()]);
            }
        }
    }
}

/// A provider is refused exactly if it names a key source that has nothing to
/// read a key from.
pub proof fn law_which_providers_lack_a_key(p: ProviderModel)
    ensures
        p.api_key_source is None ==> !lacks_key(p),
        p.api_key_source matches Some(s) ==> (lacks_key(p) <==> !names_a_key(s)),
{
    match p.api_key_source {
        None => {},
        Some(KeySourceModel::Literal(t)) => lemma_blank(t),
        Some(KeySourceModel::Command(t)) => lemma_blank(t),
        Some(KeySourceModel::File(t)) => {
            assert(t.len() == 0 ==> t =~= Seq::<char>::empty());
        },
    }
}

/// A document is accepted exactly if it has a provider and every key source
/// that is named has something to read a key from. If it is refused for a key
/// source, that is the first one that has not.
pub proof fn law_which_documents_are_accepted(c: ConfigModel, k: int)
    ensures
        acceptable(c) <==> c.providers.len() > 0 && forall|i: int|
            0 <= i < c.providers.len() ==> ((
            #[trigger] c.providers[i]).api_key_source matches Some(s) ==> names_a_key(s)),
        first_lacking(c.providers, k) ==> {
            &&& 0 <= k < c.providers.len()
            &&& c.providers[k].api_key_source matches Some(s) && !names_a_key(s)
            &&& forall|j: int|
                0 <= j < k ==> ((#[trigger] c.providers[j]).api_key_source matches Some(s)
                    ==> names_a_key(s))
        },
{
    assert forall|i: int| 0 <= i < c.providers.len() implies (lacks_key(
        #[trigger] c.providers[i],
    ) <==> c.providers[i].api_key_source is Some && !names_a_key(
        c.providers[i].api_key_source->0,
    )) by {
        law_which_providers_lack_a_key(c.providers[i]);
    }
}

/// The provider that a name stands for is the first one called so, and the
/// first one of all where none is.
pub proof fn law_which_provider_a_name_stands_for(
    ps: Seq<ProviderModel>,
    name: Seq<char>,
    first: int,
    found: int,
)
    ensures
        0 <= first < ps.len() && ps[first].name == name && (forall|j: int|
            0 <= j < first ==> (#[trigger] ps[j]).name != name) ==> (named_index(ps, name, found)
            <==> found == first),
        (forall|j: int| 0 <= j < ps.len() ==> (#[trigger] ps[j]).name != name) ==> (named_index(
            ps,
            name,
            found,
        ) <==> found == 0),
{
}

/// What a first run starts with: two providers, no key, half a gigabyte of
/// tiles for thirty days, and both sensitivities at one.
pub proof fn law_first_run()
    ensures
        ({
            let c = default_config();
            &&& c.providers.len() == 2
            &&& c.providers[0].name == "OpenStreetMap"@
            &&& c.providers[0].url == "https://tile.openstreetmap.org/{z}/{x}/{y}.png"@
            &&& c.providers[0].max_zoom == 19
            &&& c.providers[1].name == "OpenTopoMap"@
            &&& c.providers[1].url == "https://a.tile.opentopomap.org/{z}/{x}/{y}.png"@
            &&& c.providers[1].max_zoom == 17
            &&& forall|i: int|
                0 <= i < 2 ==> !(#[trigger] c.providers[i]).tms && c.providers[i].api_key_source
                    is None && c.providers[i].headers.len() == 0
            &&& c.cache.directory is None
            &&& c.cache.max_size_mb == 500
            &&& c.cache.max_age_days == 30
            &&& c.general.scroll_sensitivity.bits == 0x3ff0_0000_0000_0000
            &&& c.general.pinch_zoom_sensitivity.bits == 0x3ff0_0000_0000_0000
            &&& c.general.pinch_zoom_enabled
        }),
{
}

/// A provider with a name, a template and a zoom limit has nothing else; one
/// with nothing filled in has a zoom limit of nineteen.
pub proof fn law_plain_providers(name: Seq<char>, url: Seq<char>, max_zoom: u8)
    ensures
        ({
            let p = plain_provider(name, url, max_zoom);
            &&& p.name == name
            &&& p.url == url
            &&& p.max_zoom == max_zoom
            &&& !p.tms
            &&& p.api_key_source is None
            &&& p.headers.len() == 0
        }),
        ({
            let p = blank_provider();
            &&& p.name.len() == 0
            &&& p.url.len() == 0
            &&& p.max_zoom == 19
            &&& !p.tms
            &&& p.api_key_source is None
            &&& p.headers.len() == 0
        }),
{
}

/// An XDG directory is the one that its variable names or, where that is
/// missing or empty, one below the home directory: `.config`, `.cache` and
/// `.local/state`. The document lies in the first one.
pub proof fn law_where_the_user_keeps_things(env: Environment, base: Seq<u8>)
    requires
        paths::is_plain(base),
    ensures
        ({
            let home = paths::path_view(env.home);
            let xdg_config = paths::path_view(env.xdg_config_home);
            let xdg_cache = paths::path_view(env.xdg_cache_home);
            let xdg_state = paths::path_view(env.xdg_state_home);
            let nothing = Some(Seq::<u8>::empty());
            let slash = seq![47u8];
            let document = paths::joined(
                paths::joined(config_home_path(env), encode_utf8("waltzgps"@)),
                encode_utf8("config.toml"@),
            );
            &&& xdg_config == Some(base) ==> config_home_path(env) == base
            &&& xdg_cache == Some(base) ==> cache_home_path(env) == base
            &&& xdg_state == Some(base) ==> state_home_path(env) == base
            &&& home == Some(base) && (xdg_config is None || xdg_config == nothing)
                ==> config_home_path(env) == base + slash + encode_utf8(".config"@)
            &&& home == Some(base) && (xdg_cache is None || xdg_cache == nothing)
                ==> cache_home_path(env) == base + slash + encode_utf8(".cache"@)
            &&& home == Some(base) && (xdg_state is None || xdg_state == nothing)
                ==> state_home_path(env) == base + slash + encode_utf8(".local/state"@)
            &&& home is None && (xdg_config is None || xdg_config == nothing)
                ==> config_home_path(env) == encode_utf8("./.config"@)
            &&& home is None && (xdg_cache is None || xdg_cache == nothing)
                ==> cache_home_path(env) == encode_utf8("./.cache"@)
            &&& home is None && (xdg_state is None || xdg_state == nothing)
                ==> state_home_path(env) == encode_utf8("./.local/state"@)
            &&& xdg_config == Some(base) ==> document == base + slash + encode_utf8(
                "waltzgps/config.toml"@,
            )
        }),
{
    reveal_strlit(".config");
    reveal_strlit(".cache");
    reveal_strlit(".local/state");
    reveal_strlit("./.config");
    reveal_strlit("./.cache");
    reveal_strlit("./.local/state");
    reveal_strlit("waltzgps");
    reveal_strlit("config.toml");
    reveal_strlit("waltzgps/config.toml");
    is_ascii_chars_encode_utf8(".config"@);
    is_ascii_chars_encode_utf8(".cache"@);
    is_ascii_chars_encode_utf8(".local/state"@);
    is_ascii_chars_encode_utf8("./.config"@);
    is_ascii_chars_encode_utf8("./.cache"@);
    is_ascii_chars_encode_utf8("./.local/state"@);
    is_ascii_chars_encode_utf8("waltzgps"@);
    is_ascii_chars_encode_utf8("config.toml"@);
    is_ascii_chars_encode_utf8("waltzgps/config.toml"@);
    let home = paths::path_view(env.home);
    let dot = seq![46u8, 47u8];
    paths::law_base_directory(base, home, base, encode_utf8(".config"@));
    paths::law_base_directory(base, home, base, encode_utf8(".cache"@));
    paths::law_base_directory(base, home, base, encode_utf8(".local/state"@));
    assert(encode_utf8("./.config"@) =~= dot + encode_utf8(".config"@));
    assert(encode_utf8("./.cache"@) =~= dot + encode_utf8(".cache"@));
    assert(encode_utf8("./.local/state"@) =~= dot + encode_utf8(".local/state"@));
    let slash = seq![47u8];
    let name = encode_utf8("waltzgps"@);
    let file = encode_utf8("config.toml"@);
    let inner = base + slash + name;
    assert(inner[inner.len() - 1] == name[name.len() - 1]);
    paths::law_join_puts_one_slash_between(base, name);
    paths::law_join_puts_one_slash_between(inner, file);
    assert(encode_utf8("waltzgps/config.toml"@) =~= name + slash + file);
    assert(inner + slash + file =~= base + slash + (name + slash + file));
}

/// The value of a provider is what its fields hold, the headers in their
/// order.
pub proof fn law_value_of_a_provider(p: Provider, i: int)
    ensures
        p@.name == p.name@,
        p@.url == p.url@,
        p@.tms == p.tms,
        p@.max_zoom == p.max_zoom,
        p.api_key_source is None <==> p@.api_key_source is None,
        p.api_key_source matches Some(ApiKeySource::Literal(s)) ==> p@.api_key_source == Some(
            KeySourceModel::Literal(s@),
        ),
        p.api_key_source matches Some(ApiKeySource::File(s)) ==> p@.api_key_source == Some(
            KeySourceModel::File(s@),
        ),
        p.api_key_source matches Some(ApiKeySource::Command(s)) ==> p@.api_key_source == Some(
            KeySourceModel::Command(s@),
        ),
        p@.headers.len() == p.headers@.len(),
        0 <= i < p.headers@.len() ==> p@.headers[i].name == p.headers@[i].name@
            && p@.headers[i].value == p.headers@[i].value@,
{
}

/// The value of a configuration is what its fields hold, the providers in
/// their order.
pub proof fn law_value_of_a_configuration(c: Config, i: int)
    ensures
        c@.general == c.general,
        c@.providers.len() == c.providers@.len(),
        0 <= i < c.providers@.len() ==> c@.providers[i] == c.providers@[i]@,
        c.cache.directory is None <==> c@.cache.directory is None,
        c.cache.directory matches Some(d) ==> c@.cache.directory == Some(d@),
        c@.cache.max_size_mb == c.cache.max_size_mb,
        c@.cache.max_age_days == c.cache.max_age_days,
{
}

/// However the directories of the user are written, each is the one that its
/// own variable stands for.
pub proof fn law_each_directory_has_its_variable(env: Environment)
    ensures
        ({
            let home = paths::path_view(env.home);
            &&& config_home_path(env) == paths::base_directory(
                paths::path_view(env.xdg_config_home),
                home,
                encode_utf8(".config"@),
            )
            &&& cache_home_path(env) == paths::base_directory(
                paths::path_view(env.xdg_cache_home),
                home,
                encode_utf8(".cache"@),
            )
            &&& state_home_path(env) == paths::base_directory(
                paths::path_view(env.xdg_state_home),
                home,
                encode_utf8(".local/state"@),
            )
        }),
{
}

} // verus!
