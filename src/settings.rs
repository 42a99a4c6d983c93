use vstd::prelude::*;

use crate::text::push_char;

verus! {

/// Settings of the inlay hints.
#[derive(Debug, PartialEq, Eq)]
pub struct IdeSettingsHints {
    pub show_inferred_types: bool,
}

/// The settings that shape each compiler invocation.
#[derive(Debug, PartialEq, Eq)]
pub struct IdeSettings {
    pub hints: IdeSettingsHints,
    /// Directories searched for sourced files, in order.
    pub include_dirs: Vec<String>,
    /// Bound handed to the compiler on the number of problems it reports.
    pub max_number_of_problems: u32,
    /// How long one compiler invocation may take, in milliseconds.
    pub max_nushell_invocation_time_ms: u64,
    /// The compiler executable: a path, or a bare name looked up on `PATH`.
    pub nushell_executable_path: String,
}

/// The settings as values.
pub struct SettingsView {
    pub show_inferred_types: bool,
    pub include_dirs: Seq<Seq<char>>,
    pub max_number_of_problems: u32,
    pub max_nushell_invocation_time_ms: u64,
    pub nushell_executable_path: Seq<char>,
}

impl View for IdeSettings {
    type V = SettingsView;

    open spec fn view(&self) -> SettingsView {
        SettingsView {
            show_inferred_types: self.hints.show_inferred_types,
            include_dirs: self.include_dirs@.map_values(|d: String| d@),
            max_number_of_problems: self.max_number_of_problems,
            max_nushell_invocation_time_ms: self.max_nushell_invocation_time_ms,
            nushell_executable_path: self.nushell_executable_path@,
        }
    }
}

/// The settings in force where nothing else is configured: inferred types
/// shown, no include directories, at most 1000 problems, ten seconds per
/// invocation, and the executable `nu`.
pub open spec fn default_settings() -> SettingsView {
    SettingsView {
        show_inferred_types: true,
        include_dirs: Seq::empty(),
        max_number_of_problems: 1000,
        max_nushell_invocation_time_ms: 10_000,
        nushell_executable_path: seq!['n', 'u'],
    }
}

impl Clone for IdeSettingsHints {
    fn clone(&self) -> (r: Self)
        ensures
            r == *self,
    {
        IdeSettingsHints { show_inferred_types: self.show_inferred_types }
    }
}

impl Default for IdeSettingsHints {
    fn default() -> (r: Self)
        ensures
            r.show_inferred_types,
    {
        IdeSettingsHints { show_inferred_types: true }
    }
}

pub(crate) fn clone_strings(v: &Vec<String>) -> (r: Vec<String>)
    ensures
        r@.map_values(|d: String| d@) == v@.map_values(|d: String| d@),
{
    let mut r: Vec<String> = Vec::new();
    let n = v.len();
    let mut i: usize = 0;
    while i < n
        invariant
            n == v@.len(),
            i <= n,
            r@.len() == i,
            forall|j: int| 0 <= j < i ==> r@[j]@ == v@[j]@,
        decreases n - i,
    {
        r.push(v[i].clone());
        i = i + 1;
    }
    proof {
        assert(r@.map_values(|d: String| d@) =~= v@.map_values(|d: String| d@));
    }
    r
}

impl Clone for IdeSettings {
    fn clone(&self) -> (r: Self)
        ensures
            r@ == self@,
    {
        IdeSettings {
            hints: self.hints.clone(),
            include_dirs: clone_strings(&self.include_dirs),
            max_number_of_problems: self.max_number_of_problems,
            max_nushell_invocation_time_ms: self.max_nushell_invocation_time_ms,
            nushell_executable_path: self.nushell_executable_path.clone(),
        }
    }
}

impl Default for IdeSettings {
    fn default() -> (r: Self)
        ensures
            r@ == default_settings(),
    {
        let mut path = String::new();
        push_char(&mut path, 'n');
        push_char(&mut path, 'u');
        let r = IdeSettings {
            hints: IdeSettingsHints::default(),
            include_dirs: Vec::new(),
            max_number_of_problems: 1000,
            max_nushell_invocation_time_ms: 10_000,
            nushell_executable_path: path,
        };
        proof {
            assert(r@.include_dirs =~= Seq::<Seq<char>>::empty());
            assert(r@.nushell_executable_path =~= seq!['n', 'u']);
        }
        r
    }
}

/// What the client's answer to a configuration pull held.
pub enum FetchedSettings {
    /// The answer held no value.
    Nothing,
    /// The answer held a value that does not read as settings.
    Unparsable,
    /// The answer held these settings.
    Parsed(IdeSettings),
}

/// The outcome of a settings lookup.
pub enum SettingsLookup {
    /// The settings are known.
    Ready(IdeSettings),
    /// The settings must be pulled from the client, scoped to the document.
    Fetch,
}

/// The cached settings for `uri`, the latest entry first.
pub open spec fn cached(cache: Seq<(Seq<char>, SettingsView)>, uri: Seq<char>) -> Option<
    SettingsView,
>
    decreases cache.len(),
{
    if cache.len() == 0 {
        None
    } else if cache.last().0 == uri {
        Some(cache.last().1)
    } else {
        cached(cache.drop_last(), uri)
    }
}

/// The settings store as values: the global settings and the per-document cache.
pub struct SettingsStoreView {
    pub global: SettingsView,
    pub cache: Seq<(Seq<char>, SettingsView)>,
}

/// What a lookup for `uri` gives: the settings, or none where they must be
/// pulled from the client.
pub open spec fn settings_lookup(
    v: SettingsStoreView,
    lookup_supported: bool,
    uri: Seq<char>,
) -> Option<SettingsView> {
    if lookup_supported {
        cached(v.cache, uri)
    } else {
        Some(v.global)
    }
}

/// The store after a configuration-change notification that pushed
/// `pushed` (none where it could not be read).
pub open spec fn after_configuration_change(
    v: SettingsStoreView,
    lookup_supported: bool,
    pushed: Option<SettingsView>,
) -> SettingsStoreView {
    if lookup_supported {
        SettingsStoreView { global: v.global, cache: Seq::empty() }
    } else {
        SettingsStoreView {
            global: match pushed {
                Some(s) => s,
                None => default_settings(),
            },
            cache: v.cache,
        }
    }
}

/// Global settings, and settings cached per document.
pub struct SettingsStore {
    global: IdeSettings,
    cache: Vec<(String, IdeSettings)>,
}

impl View for SettingsStore {
    type V = SettingsStoreView;

    closed spec fn view(&self) -> SettingsStoreView {
        SettingsStoreView {
            global: self.global@,
            cache: self.cache@.map_values(|e: (String, IdeSettings)| (e.0@, e.1@)),
        }
    }
}

impl SettingsStore {
    /// Default global settings and an empty cache.
    pub fn new() -> (r: SettingsStore)
        ensures
            r@.global == default_settings(),
            r@.cache == Seq::<(Seq<char>, SettingsView)>::empty(),
    {
        let r = SettingsStore { global: IdeSettings::default(), cache: Vec::new() };
        proof {
            assert(r@.cache =~= Seq::<(Seq<char>, SettingsView)>::empty());
        }
        r
    }

    /// The settings for the document at `uri`. Without the client's support
    /// for per-document lookup these are the global settings; with it, those
    /// cached for the document, or a request to pull them.
    pub fn get_settings(&self, lookup_supported: bool, uri: &String) -> (r: SettingsLookup)
        ensures
            match settings_lookup(self@, lookup_supported, uri@) {
                Some(v) => r matches SettingsLookup::Ready(s) && s@ == v,
                None => r is Fetch,
            },
    {
        if !lookup_supported {
            return SettingsLookup::Ready(self.global.clone());
        }
        let mut i = self.cache.len();
        proof {
            assert(self@.cache.take(i as int) =~= self@.cache);
        }
        while i > 0
            invariant
                lookup_supported,
                i <= self.cache@.len(),
                self@.cache.len() == self.cache@.len(),
                cached(self@.cache, uri@) == cached(self@.cache.take(i as int), uri@),
            decreases i,
        {
            let ghost c = self@.cache.take(i as int);
            proof {
                assert(c.last() == self@.cache[i - 1]);
                assert(self@.cache[i - 1] == (self.cache@[i - 1].0@, self.cache@[i - 1].1@));
                assert(c.drop_last() =~= self@.cache.take(i - 1));
            }
            if self.cache[i - 1].0.eq(uri) {
                return SettingsLookup::Ready(self.cache[i - 1].1.clone());
            }
            i = i - 1;
        }
        SettingsLookup::Fetch
    }

    /// Takes what a pull for `uri` brought and returns the settings that
    /// hold for it: those pulled, the defaults where they do not read as
    /// settings (both then cached), or the defaults, uncached, where the pull
    /// brought nothing.
    pub fn settings_fetched(&mut self, uri: &String, fetched: FetchedSettings) -> (r: IdeSettings)
        ensures
            final(self)@.global == old(self)@.global,
            match fetched {
                FetchedSettings::Nothing => r@ == default_settings() && final(self)@.cache == old(
                    self,
                )@.cache,
                FetchedSettings::Unparsable => r@ == default_settings() && final(self)@.cache
                    == old(self)@.cache.push((uri@, r@)),
                FetchedSettings::Parsed(s) => r@ == s@ && final(self)@.cache == old(
                    self,
                )@.cache.push((uri@, r@)),
            },
    {
        let s = match fetched {
            FetchedSettings::Nothing => {
                return IdeSettings::default();
            },
            FetchedSettings::Unparsable => IdeSettings::default(),
            FetchedSettings::Parsed(s) => s,
        };
        self.cache.push((uri.clone(), s.clone()));
        proof {
            assert(self@.cache =~= old(self)@.cache.push((uri@, s@)));
        }
        s
    }

    /// Takes a configuration-change notification. With per-document lookup
    /// the cache is emptied; without it the pushed settings, or the defaults
    /// where none could be read, become the global settings.
    pub fn configuration_changed(&mut self, lookup_supported: bool, pushed: Option<IdeSettings>)
        ensures
            final(self)@ == after_configuration_change(
                old(self)@,
                lookup_supported,
                match pushed {
                    Some(s) => Some(s@),
                    None => None,
                },
            ),
    {
        if lookup_supported {
            self.cache = Vec::new();
            proof {
                assert(self@.cache =~= Seq::<(Seq<char>, SettingsView)>::empty());
                assert(self@.global == old(self)@.global);
            }
        } else {
            self.global = match pushed {
                Some(s) => s,
                None => IdeSettings::default(),
            };
        }
    }
}

/// Without per-document lookup, every document gets the global settings,
/// whatever the cache holds.
pub proof fn lemma_global_settings_without_lookup(
    a: SettingsStoreView,
    b: SettingsStoreView,
    uri: Seq<char>,
)
    requires
        a.global == b.global,
    ensures
        settings_lookup(a, false, uri) == Some(a.global),
        settings_lookup(a, false, uri) == settings_lookup(b, false, uri),
{
}

/// With per-document lookup, a configuration change drops every cached
/// entry: the next lookup for any document pulls again.
pub proof fn lemma_configuration_change_clears_cache(
    v: SettingsStoreView,
    pushed: Option<SettingsView>,
    uri: Seq<char>,
)
    ensures
        settings_lookup(after_configuration_change(v, true, pushed), true, uri) is None,
{
}

/// Settings pulled for a document are what later lookups for it give, until
/// a configuration change.
pub proof fn lemma_fetched_settings_cached(
    v: SettingsStoreView,
    uri: Seq<char>,
    s: SettingsView,
)
    ensures
        settings_lookup(
            SettingsStoreView { global: v.global, cache: v.cache.push((uri, s)) },
            true,
            uri,
        ) == Some(s),
{
}

} // verus!
