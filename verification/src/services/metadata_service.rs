//! Metadata lookups: the search term and year in a file name, and which
//! provider answers.

use vstd::prelude::*;
use crate::error::AppError;
use crate::models::db::provider_configs::ProviderConfig;
use crate::number::{int_str, push_i64};
use crate::text::{append_str, string_views};
use crate::pattern::{group, regex_captures, regex_captures_of};
use crate::text::{chars_of, string_from_chars, trim_chars, trimmed};

verus! {

/// The pattern of a title followed by a four-digit year, optionally in
/// parentheses.
pub open spec fn title_year_pattern() -> Seq<char> {
    "^(.*?)\\s*\\(?(\\d{4})\\)?\\s*$"@
}

/// The title and year of a search query such as `Heat (1995)`: when the
/// query ends in a four-digit year and leaves a non-blank title, the
/// trimmed title and the year; otherwise the query itself and no year.
pub open spec fn title_and_year(query: Seq<char>) -> (Seq<char>, Option<Seq<char>>) {
    let caps = regex_captures_of(title_year_pattern(), query);
    let name = trimmed(
        match group(caps, 1) {
            Some(g) => g,
            None => Seq::empty(),
        },
    );
    if caps is Some && name.len() > 0 {
        (name, group(caps, 2))
    } else {
        (query, None)
    }
}

/// Splits a search query into a title and a trailing year.
pub fn extract_year(query: &str) -> (r: (String, Option<String>))
    ensures
        (r.0@, match r.1 {
            Some(y) => Some(y@),
            None => None,
        }) == title_and_year(query@),
{
    let pattern = "^(.*?)\\s*\\(?(\\d{4})\\)?\\s*$";
    assert(pattern@ == title_year_pattern());
    if let Some(groups) = regex_captures(pattern, query) {
        let ghost caps = crate::pattern::groups_view(Some(groups));
        let name_chars = if groups.len() > 1 {
            match &groups[1] {
                Some(g) => chars_of(g.as_str()),
                None => Vec::new(),
            }
        } else {
            Vec::new()
        };
        assert(name_chars@ == match group(caps, 1) {
            Some(g) => g,
            None => Seq::empty(),
        });
        let name = trim_chars(name_chars.as_slice());
        if name.len() > 0 {
            let year = if groups.len() > 2 {
                match &groups[2] {
                    Some(y) => Some(y.clone()),
                    None => None,
                }
            } else {
                None
            };
            assert(match year {
                Some(y) => Some(y@),
                None => None,
            } == group(caps, 2));
            return (string_from_chars(name.as_slice()), year);
        }
    }
    (String::from_str(query), None)
}

/// The default provider: the highest-priority enabled configured one, else
/// the legacy setting, else TMDB.
pub open spec fn default_provider_of(configured: Option<Seq<char>>, legacy: Option<Seq<char>>) -> Seq<
    char,
> {
    match configured {
        Some(p) => p,
        None => match legacy {
            Some(l) => l,
            None => "tmdb"@,
        },
    }
}

/// Picks the default provider from the configured one and the legacy
/// setting.
pub fn choose_default_provider(configured: Option<String>, legacy: Option<String>) -> (r: String)
    ensures
        r@ == default_provider_of(
            match configured {
                Some(p) => Some(p@),
                None => None,
            },
            match legacy {
                Some(l) => Some(l@),
                None => None,
            },
        ),
{
    match configured {
        Some(p) => p,
        None => match legacy {
            Some(l) => l,
            None => String::from_str("tmdb"),
        },
    }
}

/// Whether a lookup names its provider (a non-empty name); otherwise the
/// default provider answers.
pub fn names_provider(provider_name: Option<&str>) -> (r: bool)
    ensures
        r == match provider_name {
            Some(n) => n@.len() > 0,
            None => false,
        },
{
    match provider_name {
        Some(n) => {
            let c = chars_of(n);
            c.len() > 0
        },
        None => false,
    }
}

/// A library's provider overrides as provider configs: each (provider,
/// priority, enabled) with the provider's stored config JSON, or `{}`.
pub open spec fn override_configs_of(overrides: Seq<(String, i32, bool, Option<String>)>) -> Seq<
    (Seq<char>, bool, i32, Seq<char>),
> {
    overrides.map_values(
        |o: (String, i32, bool, Option<String>)|
            (
                o.0@,
                o.2,
                o.1,
                match o.3 {
                    Some(j) => j@,
                    None => "{}"@,
                },
            ),
    )
}

/// The view of provider configs.
pub open spec fn configs_view(v: Seq<ProviderConfig>) -> Seq<(Seq<char>, bool, i32, Seq<char>)> {
    v.map_values(|c: ProviderConfig| (c.provider_id@, c.enabled, c.priority, c.config_json@))
}

/// The provider configs of a library's overrides, in order.
pub fn override_configs(overrides: Vec<(String, i32, bool, Option<String>)>) -> (r: Vec<
    ProviderConfig,
>)
    ensures
        configs_view(r@) == override_configs_of(overrides@),
{
    let ghost all = overrides@;
    let mut out: Vec<ProviderConfig> = Vec::new();
    for o in it: overrides.into_iter()
        invariant
            it.seq() == all,
            configs_view(out@) == override_configs_of(all.take(it.index() as int)),
    {
        let ghost i = it.index() as int;
        let (provider_id, priority, enabled, json) = o;
        let config_json = match json {
            Some(j) => j,
            None => String::from_str("{}"),
        };
        let ghost before = configs_view(out@);
        out.push(ProviderConfig { provider_id, enabled, priority, config_json });
        assert(configs_view(out@) =~= before.push(configs_view(out@).last()));
        assert(configs_view(out@) =~= override_configs_of(all.take(i + 1)));
    }
    assert(all.take(all.len() as int) =~= all);
    out
}

/// Whether a provider config takes part in a lookup for `media_type`: it is
/// enabled, its provider is known (`media_types`: the media types the
/// provider serves, `None` for an unknown provider), and it serves the
/// requested media type, if any.
pub open spec fn in_chain(
    config: ProviderConfig,
    media_types: Option<Vec<String>>,
    media_type: Option<Seq<char>>,
) -> bool {
    &&& config.enabled
    &&& media_types is Some
    &&& match media_type {
        Some(mt) => string_views(media_types->0@).contains(mt),
        None => true,
    }
}

/// The positions of the configs that take part in a lookup, in priority
/// order (the order of `configs`).
pub open spec fn chain_positions(
    configs: Seq<ProviderConfig>,
    media_types: Seq<Option<Vec<String>>>,
    media_type: Option<Seq<char>>,
) -> Seq<int>
    decreases configs.len(),
{
    if configs.len() == 0 {
        Seq::empty()
    } else {
        let n = configs.len() - 1;
        let rest = chain_positions(configs.drop_last(), media_types, media_type);
        if in_chain(configs[n], media_types[n], media_type) {
            rest.push(n)
        } else {
            rest
        }
    }
}

/// Whether `s` is one of the strings `list`.
fn contains_string(list: &Vec<String>, s: &str) -> (r: bool)
    ensures
        r == string_views(list@).contains(s@),
{
    let mut i: usize = 0;
    while i < list.len()
        invariant
            0 <= i <= list@.len(),
            forall|k: int| 0 <= k < i ==> list@[k]@ != s@,
        decreases list@.len() - i,
    {
        let cs = chars_of(list[i].as_str());
        if crate::text::chars_eq_str(cs.as_slice(), s) {
            assert(string_views(list@)[i as int] == s@);
            return true;
        }
        i = i + 1;
    }
    assert forall|k: int| 0 <= k < string_views(list@).len() implies string_views(list@)[k] != s@ by {
        assert(string_views(list@)[k] == list@[k]@);
    }
    false
}

/// The configs (by position) from which a lookup builds its providers,
/// given the media types each provider serves (`None`: not a known
/// provider).
pub fn chain_candidates(
    configs: &Vec<ProviderConfig>,
    media_types: &Vec<Option<Vec<String>>>,
    media_type: Option<&str>,
) -> (r: Vec<usize>)
    requires
        media_types@.len() == configs@.len(),
    ensures
        r@.map_values(|i: usize| i as int) == chain_positions(
            configs@,
            media_types@,
            match media_type {
                Some(t) => Some(t@),
                None => None,
            },
        ),
{
    let ghost mt = match media_type {
        Some(t) => Some(t@),
        None => None,
    };
    let mut out: Vec<usize> = Vec::new();
    let mut i: usize = 0;
    while i < configs.len()
        invariant
            0 <= i <= configs@.len(),
            media_types@.len() == configs@.len(),
            mt == match media_type {
                Some(t) => Some(t@),
                None => None,
            },
            out@.map_values(|i: usize| i as int) == chain_positions(configs@.take(i as int), media_types@, mt),
        decreases configs@.len() - i,
    {
        assert(configs@.take(i + 1).drop_last() =~= configs@.take(i as int));
        assert(configs@.take(i + 1)[i as int] == configs@[i as int]);
        let keep = configs[i].enabled && match &media_types[i] {
            Some(types) => match media_type {
                Some(t) => contains_string(types, t),
                None => true,
            },
            None => false,
        };
        if keep {
            let ghost before = out@.map_values(|i: usize| i as int);
            out.push(i);
            assert(out@.map_values(|i: usize| i as int) =~= before.push(i as int));
        }
        i = i + 1;
    }
    assert(configs@.take(configs@.len() as int) =~= configs@);
    out
}

/// The position of the first provider answer with results (`None` in
/// `outcomes` for a provider that failed).
pub open spec fn first_hit<T>(outcomes: Seq<Option<Vec<T>>>) -> Option<int>
    decreases outcomes.len(),
{
    if outcomes.len() == 0 {
        None
    } else {
        match first_hit(outcomes.drop_last()) {
            Some(k) => Some(k),
            None => if outcomes.last() matches Some(v) && v@.len() > 0 {
                Some(outcomes.len() - 1)
            } else {
                None
            },
        }
    }
}

/// The answer of a search over a provider chain of `chain_len` providers,
/// from the answers of the providers asked in order (a search stops at the
/// first with results): refused without providers, the first results
/// found, or not found.
pub fn chain_search_result<T>(chain_len: usize, outcomes: Vec<Option<Vec<T>>>) -> (r: Result<
    Vec<T>,
    AppError,
>)
    ensures
        chain_len == 0 ==> (r matches Err(AppError::BadRequest(m)) && m@
            == "No metadata providers are configured and enabled"@),
        chain_len > 0 ==> match first_hit(outcomes@) {
            Some(k) => r matches Ok(v) && outcomes@[k] == Some(v),
            None => r matches Err(AppError::NotFound(m)) && m@ == "No results found from any provider"@,
        },
{
    if chain_len == 0 {
        return Err(AppError::BadRequest(String::from_str("No metadata providers are configured and enabled")));
    }
    let ghost all = outcomes@;
    for o in it: outcomes.into_iter()
        invariant
            it.seq() == all,
            chain_len > 0,
            first_hit(all.take(it.index() as int)) is None,
    {
        let ghost i = it.index() as int;
        assert(all.take(i + 1).drop_last() =~= all.take(i));
        match o {
            Some(v) => {
                if v.len() > 0 {
                    proof {
                        lemma_first_hit_prefix(all, i + 1);
                    }
                    return Ok(v);
                }
            },
            None => {},
        }
    }
    assert(all.take(all.len() as int) =~= all);
    Err(AppError::NotFound(String::from_str("No results found from any provider")))
}

proof fn lemma_first_hit_prefix<T>(s: Seq<Option<Vec<T>>>, n: int)
    requires
        0 < n <= s.len(),
        first_hit(s.take(n)) is Some,
    ensures
        first_hit(s) == first_hit(s.take(n)),
    decreases s.len() - n,
{
    if n < s.len() {
        assert(s.take(n + 1).drop_last() =~= s.take(n));
        lemma_first_hit_prefix(s, n + 1);
    } else {
        assert(s.take(n) =~= s);
    }
}

/// Where a named provider comes from.
#[derive(Debug, Clone, Copy, PartialEq, Eq, Structural)]
pub enum ProviderSource {
    /// Built by its registry factory from the stored config.
    Configured,
    /// TMDB built from the API key in the settings.
    LegacyTmdb,
}

/// The message for a provider that is neither configured nor TMDB.
pub open spec fn unknown_provider_message(provider: Seq<char>) -> Seq<char> {
    "Unknown provider: "@ + provider
}

/// How the provider named `provider` is built: from its stored config when
/// it has one and the registry knows it, else TMDB from the legacy
/// settings, else it is unknown.
pub fn provider_source(has_config: bool, in_registry: bool, provider: &str) -> (r: Result<
    ProviderSource,
    AppError,
>)
    ensures
        has_config && in_registry ==> r == Ok::<ProviderSource, AppError>(ProviderSource::Configured),
        !(has_config && in_registry) && provider@ == "tmdb"@ ==> r == Ok::<ProviderSource, AppError>(
            ProviderSource::LegacyTmdb,
        ),
        !(has_config && in_registry) && provider@ != "tmdb"@ ==> (r matches Err(
            AppError::BadRequest(m),
        ) && m@ == unknown_provider_message(provider@)),
{
    if has_config && in_registry {
        return Ok(ProviderSource::Configured);
    }
    let cs = chars_of(provider);
    if crate::text::chars_eq_str(cs.as_slice(), "tmdb") {
        return Ok(ProviderSource::LegacyTmdb);
    }
    let mut out: Vec<char> = Vec::new();
    append_str(&mut out, "Unknown provider: ");
    crate::text::append_chars(&mut out, cs.as_slice());
    assert(out@ =~= unknown_provider_message(provider@));
    Err(AppError::BadRequest(string_from_chars(out.as_slice())))
}

/// The id a provider gave a search result, as text: a number in decimal,
/// else the text itself (`None`: neither).
pub fn provider_id_text(number: Option<i64>, text: Option<&str>) -> (r: Option<String>)
    ensures
        match number {
            Some(n) => r matches Some(s) && s@ == int_str(n as int),
            None => match text {
                Some(t) => r matches Some(s) && s@ == t@,
                None => r is None,
            },
        },
{
    match number {
        Some(n) => {
            let mut out: Vec<char> = Vec::new();
            push_i64(&mut out, n);
            assert(out@ =~= int_str(n as int));
            Some(string_from_chars(out.as_slice()))
        },
        None => match text {
            Some(t) => Some(string_from_chars(chars_of(t).as_slice())),
            None => None,
        },
    }
}

/// What building the provider chain falls back to at one of its two stages.
#[derive(Debug, Clone, Copy, PartialEq, Eq, Structural)]
pub enum ChainFallback {
    /// The stage gave something: go on with it.
    Keep,
    /// The library has no overrides: use the global provider configs.
    GlobalConfigs,
    /// No configured provider could be built: build every registered
    /// provider with an empty config (those needing keys fail quietly).
    RegistryDefaults,
}

/// The chain's fallback after a stage that produced `found` items: the
/// library's override configs (`after_build` false) or the providers built
/// from the configs (`after_build` true). A stage with something keeps it.
pub fn chain_fallback(after_build: bool, found: usize) -> (r: ChainFallback)
    ensures
        found > 0 ==> r == ChainFallback::Keep,
        found == 0 && !after_build ==> r == ChainFallback::GlobalConfigs,
        found == 0 && after_build ==> r == ChainFallback::RegistryDefaults,
{
    if found > 0 {
        ChainFallback::Keep
    } else if after_build {
        ChainFallback::RegistryDefaults
    } else {
        ChainFallback::GlobalConfigs
    }
}

} // verus!
