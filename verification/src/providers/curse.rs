//! The CurseForge catalog: what to ask of it, and what its entries mean.
//!
//! The catalog answers a lookup with one entry and a search with a list of
//! entries. An entry lists files; the add-on that an entry stands for, for a
//! given game version, is named after the entry and has the version and the
//! address of the most recent file that the entry lists for that game
//! version.

use crate::number::{decimal_digits, push_decimal};
use crate::providers::{
    outcome_view, result_view, results_view, Outcome, Provider, ProviderError, ProviderErrorView,
    ProviderView,
};
use crate::text::{chars_of, copy_of_text, extend_with, spells, string_from};
use crate::{addon_views, Addon, AddonView, Flavor};
use vstd::prelude::*;

verus! {

/// The address below which the catalog answers.
pub const API_URL_BASE: &'static str = "https://api.curseforge.com/v1";

/// The addresses that an entry links to.
#[derive(Clone, Debug, PartialEq)]
pub struct CurseAddonUrls {
    pub website_url: Option<String>,
    pub wiki_url: Option<String>,
    pub issues_url: Option<String>,
    pub source_url: Option<String>,
}

/// An author of an add-on.
#[derive(Clone, Debug, PartialEq)]
pub struct CurseAddonAuthor {
    pub id: Option<usize>,
    pub name: Option<String>,
    pub url: Option<String>,
}

/// A category that an add-on is filed under.
#[derive(Clone, Debug, PartialEq)]
pub struct CurseAddonCategory {
    pub id: Option<usize>,
    pub name: Option<String>,
    pub url: Option<String>,
}

/// A module inside a file of an add-on, with its fingerprint.
#[derive(Clone, Debug, PartialEq)]
pub struct CurseAddonModule {
    pub name: Option<String>,
    pub fingerprint: Option<usize>,
}

/// A file of an add-on.
#[derive(Clone, Debug, PartialEq)]
pub struct CurseAddonFile {
    /// The file's identifier. The catalog numbers its files in the order in
    /// which they were uploaded.
    pub id: Option<usize>,
    /// The version that the file is shown under.
    pub display_name: Option<String>,
    pub file_name: Option<String>,
    pub release_type: Option<usize>,
    /// When the file was uploaded, as the catalog writes it.
    pub file_date: Option<String>,
    /// Where the file can be had from.
    pub download_url: Option<String>,
    /// The game versions that the file is made for.
    pub game_versions: Option<Vec<String>>,
    pub modules: Option<Vec<CurseAddonModule>>,
}

/// An entry of the catalog. The catalog may leave out anything but the
/// identifier. A date is held in seconds since 1970-01-01T00:00:00Z.
#[derive(Clone, Debug, PartialEq)]
pub struct CurseAddon {
    pub id: usize,
    pub name: Option<String>,
    pub links: Option<CurseAddonUrls>,
    pub summary: Option<String>,
    pub status: Option<usize>,
    pub download_count: Option<usize>,
    pub is_featured: Option<bool>,
    pub categories: Option<Vec<CurseAddonCategory>>,
    pub authors: Option<Vec<CurseAddonAuthor>>,
    pub latest_files: Option<Vec<CurseAddonFile>>,
    pub date_created: Option<i64>,
    pub date_modified: Option<i64>,
    pub date_released: Option<i64>,
    pub thumbs_up_count: Option<usize>,
    pub rating: Option<usize>,
}

/// The catalog's answer to a search.
#[derive(Clone, Debug, PartialEq)]
pub struct CurseSearchResponse {
    /// The entries that were found; absent when there are none.
    pub data: Option<Vec<CurseAddon>>,
}

/// The catalog's answer to a lookup.
#[derive(Clone, Debug, PartialEq)]
pub struct CurseGetResponse {
    /// The entry; absent when the catalog has none.
    pub data: Option<CurseAddon>,
}

// ---------------------------------------------------------------------------
// What to ask
// ---------------------------------------------------------------------------

/// The number by which the catalog knows a flavor.
pub open spec fn game_version_type(flavor: Flavor) -> usize {
    match flavor {
        Flavor::Retail => 517,
        Flavor::Classic => 67408,
        Flavor::ClassicBC => 73246,
        Flavor::ClassicWOTLK => 73713,
        Flavor::ClassicCata => 77522,
    }
}

/// The number by which the catalog knows a flavor.
pub fn flavor_id(flavor: Flavor) -> (r: usize)
    ensures
        r == game_version_type(flavor),
{
    match flavor {
        Flavor::Retail => 517,
        Flavor::Classic => 67408,
        Flavor::ClassicBC => 73246,
        Flavor::ClassicWOTLK => 73713,
        Flavor::ClassicCata => 77522,
    }
}

/// The headers that every request to the catalog carries, each a name with
/// its value.
pub fn headers() -> (r: Vec<(String, String)>)
    ensures
        r.deep_view() == seq![
            ("content-type"@, "application/json"@),
            ("accept"@, "application/json"@),
            ("user-agent"@, "wau/v0.1.0"@),
        ],
{
    let mut r: Vec<(String, String)> = Vec::new();
    r.push(("content-type".to_owned(), "application/json".to_owned()));
    r.push(("accept".to_owned(), "application/json".to_owned()));
    r.push(("user-agent".to_owned(), "wau/v0.1.0".to_owned()));
    assert(r.deep_view() == seq![
        ("content-type"@, "application/json"@),
        ("accept"@, "application/json"@),
        ("user-agent"@, "wau/v0.1.0"@),
    ]);
    r
}

/// The address that answers a search.
pub fn search_url() -> (r: String)
    ensures
        r@ == API_URL_BASE@ + "/mods/search"@,
{
    let mut out: Vec<char> = Vec::new();
    extend_with(&mut out, API_URL_BASE);
    extend_with(&mut out, "/mods/search");
    string_from(&out)
}

/// The address that answers the lookup of the add-on `id`.
pub fn mod_url(id: usize) -> (r: String)
    ensures
        r@ == API_URL_BASE@ + "/mods/"@ + decimal_digits(id as int),
{
    let mut out: Vec<char> = Vec::new();
    extend_with(&mut out, API_URL_BASE);
    extend_with(&mut out, "/mods/");
    push_decimal(&mut out, id);
    string_from(&out)
}

/// The form that a search for `query` among the add-ons of `flavor` sends,
/// each a field with its value: the game, the flavor, the query and the
/// number of entries asked for.
pub fn search_form(query: &str, flavor: Flavor) -> (r: Vec<(String, String)>)
    ensures
        r.deep_view() == seq![
            ("gameId"@, "1"@),
            ("gameVersionTypeId"@, decimal_digits(game_version_type(flavor) as int)),
            ("searchFilter"@, query@),
            ("pageSize"@, "10"@),
        ],
{
    let mut number: Vec<char> = Vec::new();
    push_decimal(&mut number, flavor_id(flavor));
    let mut r: Vec<(String, String)> = Vec::new();
    r.push(("gameId".to_owned(), "1".to_owned()));
    r.push(("gameVersionTypeId".to_owned(), string_from(&number)));
    r.push(("searchFilter".to_owned(), query.to_owned()));
    r.push(("pageSize".to_owned(), "10".to_owned()));
    assert(r.deep_view() == seq![
        ("gameId"@, "1"@),
        ("gameVersionTypeId"@, decimal_digits(game_version_type(flavor) as int)),
        ("searchFilter"@, query@),
        ("pageSize"@, "10"@),
    ]);
    r
}

// ---------------------------------------------------------------------------
// What an entry means
// ---------------------------------------------------------------------------

/// The game versions that `file` is made for.
pub open spec fn versions_of(file: CurseAddonFile) -> Seq<Seq<char>> {
    match file.game_versions {
        Some(versions) => versions.deep_view(),
        None => Seq::empty(),
    }
}

/// Whether `file` is made for `game_version`.
pub open spec fn lists(file: CurseAddonFile, game_version: Seq<char>) -> bool {
    versions_of(file).contains(game_version)
}

/// How recent `file` is: its identifier, with a file without identifier
/// before all others.
pub open spec fn rank(file: CurseAddonFile) -> int {
    match file.id {
        Some(id) => id as int,
        None => -1,
    }
}

/// Whether `files[i]` is, among the first `n` of `files`, the most recent
/// that is made for `game_version`; of several that are equally recent, the
/// first.
pub open spec fn is_latest_among(
    files: Seq<CurseAddonFile>,
    game_version: Seq<char>,
    n: int,
    i: int,
) -> bool {
    &&& 0 <= i < n <= files.len()
    &&& lists(files[i], game_version)
    &&& forall|j: int|
        0 <= j < n && lists(#[trigger] files[j], game_version) ==> rank(files[j]) <= rank(files[i])
    &&& forall|j: int|
        0 <= j < i && lists(#[trigger] files[j], game_version) ==> rank(files[j]) < rank(files[i])
}

/// Whether `files[i]` is the most recent of `files` that is made for
/// `game_version`.
pub open spec fn is_latest_matching(
    files: Seq<CurseAddonFile>,
    game_version: Seq<char>,
    i: int,
) -> bool {
    is_latest_among(files, game_version, files.len() as int, i)
}

/// There is at most one most recent file.
pub proof fn lemma_latest_matching_is_unique(
    files: Seq<CurseAddonFile>,
    game_version: Seq<char>,
    i: int,
    j: int,
)
    requires
        is_latest_matching(files, game_version, i),
        is_latest_matching(files, game_version, j),
    ensures
        i == j,
{
}

/// The files that an entry lists.
pub open spec fn files_of(entry: CurseAddon) -> Seq<CurseAddonFile> {
    match entry.latest_files {
        Some(files) => files@,
        None => Seq::empty(),
    }
}

/// The add-on that `entry` stands for when `file` is its most recent file:
/// it has the entry's identifier and name, without a name if the entry has
/// none, and the file's version and address.
pub open spec fn addon_with_file(
    entry: CurseAddon,
    file: CurseAddonFile,
    provider: ProviderView,
) -> AddonView {
    AddonView {
        name: match entry.name {
            Some(name) => name@,
            None => Seq::empty(),
        },
        id: entry.id,
        dirs: None,
        url: file.download_url.deep_view(),
        version: file.display_name.deep_view(),
        provider,
    }
}

/// The add-on that `entry` stands for, for `game_version`; an error when the
/// entry lists no file for that game version.
pub open spec fn normalized(
    entry: CurseAddon,
    game_version: Seq<char>,
    provider: ProviderView,
) -> Result<AddonView, ProviderErrorView> {
    let files = files_of(entry);
    if exists|i: int| is_latest_matching(files, game_version, i) {
        let i = choose|i: int| is_latest_matching(files, game_version, i);
        Ok(addon_with_file(entry, files[i], provider))
    } else {
        Err(ProviderErrorView::NoMatchingFile { id: entry.id, game_version })
    }
}

/// Whether `file` is made for the game version `wanted`.
fn is_made_for(file: &CurseAddonFile, wanted: &Vec<char>) -> (r: bool)
    ensures
        r == lists(*file, wanted@),
{
    match &file.game_versions {
        Some(versions) => {
            let n = versions.len();
            let mut k: usize = 0;
            while k < n
                invariant
                    k <= n == versions.len(),
                    versions_of(*file) == versions.deep_view(),
                    wanted@.subrange(0, wanted@.len() as int) == wanted@,
                    forall|j: int| 0 <= j < k ==> versions_of(*file)[j] != wanted@,
                decreases n - k,
            {
                if spells(wanted, 0, wanted.len(), versions[k].as_str()) {
                    assert(versions_of(*file)[k as int] == wanted@);
                    return true;
                }
                k += 1;
            }
            false
        },
        None => false,
    }
}

/// Whether `a` is more recent than `b`.
fn is_newer(a: &CurseAddonFile, b: &CurseAddonFile) -> (r: bool)
    ensures
        r == (rank(*a) > rank(*b)),
{
    match (a.id, b.id) {
        (Some(x), Some(y)) => x > y,
        (Some(_), None) => true,
        (None, _) => false,
    }
}

/// Where in `files` the most recent file for `game_version` stands, if one
/// of them is made for that game version.
pub fn latest_matching(files: &Vec<CurseAddonFile>, game_version: &str) -> (r: Option<usize>)
    ensures
        match r {
            Some(i) => is_latest_matching(files@, game_version@, i as int),
            None => forall|j: int|
                0 <= j < files@.len() ==> !lists(#[trigger] files@[j], game_version@),
        },
{
    let wanted = chars_of(game_version);
    let n = files.len();
    let mut best: Option<usize> = None;
    let mut i: usize = 0;
    while i < n
        invariant
            i <= n == files.len(),
            wanted@ == game_version@,
            match best {
                Some(b) => is_latest_among(files@, game_version@, i as int, b as int),
                None => forall|j: int|
                    0 <= j < i ==> !lists(#[trigger] files@[j], game_version@),
            },
        decreases n - i,
    {
        if is_made_for(&files[i], &wanted) {
            match best {
                Some(b) => {
                    if is_newer(&files[i], &files[b]) {
                        best = Some(i);
                    }
                },
                None => {
                    best = Some(i);
                },
            }
        }
        i += 1;
    }
    best
}

impl CurseAddon {
    /// The add-on that this entry stands for, for `game_version`.
    ///
    /// Fails with `NoMatchingFile` when the entry lists no file for that
    /// game version, and only then.
    pub fn to_addon(&self, game_version: &str, provider: &Provider) -> (r: Result<
        Addon,
        ProviderError,
    >)
        ensures
            result_view(r) == normalized(*self, game_version@, provider@),
    {
        let found = match &self.latest_files {
            Some(files) => match latest_matching(files, game_version) {
                Some(i) => Some(&files[i]),
                None => None,
            },
            None => None,
        };
        match found {
            Some(file) => {
                proof {
                    let files = files_of(*self);
                    let i = choose|i: int| is_latest_matching(files, game_version@, i);
                    assert(files[i] == *file) by {
                        let k = choose|k: int|
                            is_latest_matching(files, game_version@, k) && files[k] == *file;
                        lemma_latest_matching_is_unique(files, game_version@, i, k);
                    }
                }
                Ok(
                    Addon {
                        name: match &self.name {
                            Some(name) => name.clone(),
                            None => String::new(),
                        },
                        id: self.id,
                        dirs: None,
                        url: copy_of_text(&file.download_url),
                        version: copy_of_text(&file.display_name),
                        provider: provider.duplicate(),
                    },
                )
            },
            None => Err(
                ProviderError::NoMatchingFile {
                    id: self.id,
                    game_version: game_version.to_owned(),
                },
            ),
        }
    }
}

/// The add-ons that `entries` stand for, for `game_version`, in their
/// order; the error of the first entry that lists no file for that game
/// version, if there is such an entry.
pub open spec fn normalized_all(
    entries: Seq<CurseAddon>,
    game_version: Seq<char>,
    provider: ProviderView,
) -> Result<Seq<AddonView>, ProviderErrorView>
    decreases entries.len(),
{
    if entries.len() == 0 {
        Ok(Seq::empty())
    } else {
        match normalized_all(entries.drop_last(), game_version, provider) {
            Ok(front) => match normalized(entries.last(), game_version, provider) {
                Ok(addon) => Ok(front.push(addon)),
                Err(e) => Err(e),
            },
            Err(e) => Err(e),
        }
    }
}

/// The entries that an answer to a search holds: none when it holds no
/// data.
pub open spec fn entries_of(response: CurseSearchResponse) -> Seq<CurseAddon> {
    match response.data {
        Some(entries) => entries@,
        None => Seq::empty(),
    }
}

impl CurseSearchResponse {
    /// The add-ons that the answer holds, for `game_version`, in the order
    /// of the answer. An answer without data holds none.
    ///
    /// Fails when an entry lists no file for that game version, with the
    /// error of the first such entry.
    pub fn to_addons(&self, game_version: &str, provider: &Provider) -> (r: Result<
        Vec<Addon>,
        ProviderError,
    >)
        ensures
            results_view(r) == normalized_all(entries_of(*self), game_version@, provider@),
    {
        let mut addons: Vec<Addon> = Vec::new();
        match &self.data {
            Some(entries) => {
                let n = entries.len();
                let mut i: usize = 0;
                assert(addon_views(addons@) == Seq::<AddonView>::empty());
                while i < n
                    invariant
                        i <= n == entries.len(),
                        entries_of(*self) == entries@,
                        normalized_all(entries@.take(i as int), game_version@, provider@) == Ok::<
                            Seq<AddonView>,
                            ProviderErrorView,
                        >(addon_views(addons@)),
                    decreases n - i,
                {
                    let ghost before = addon_views(addons@);
                    proof {
                        assert(entries@.take(i + 1).drop_last() == entries@.take(i as int));
                    }
                    match entries[i].to_addon(game_version, provider) {
                        Ok(addon) => {
                            addons.push(addon);
                            assert(addon_views(addons@) == before.push(addon@));
                        },
                        Err(e) => {
                            proof {
                                lemma_normalized_all_fails(
                                    entries@,
                                    game_version@,
                                    provider@,
                                    i + 1,
                                );
                            }
                            return Err(e);
                        },
                    }
                    i += 1;
                }
                assert(entries@.take(n as int) == entries@);
            },
            None => {
                assert(addon_views(addons@) == Seq::<AddonView>::empty());
            },
        }
        Ok(addons)
    }
}

/// Once the first `k` entries have failed, all of them fail in the same
/// way.
pub proof fn lemma_normalized_all_fails(
    entries: Seq<CurseAddon>,
    game_version: Seq<char>,
    provider: ProviderView,
    k: int,
)
    requires
        0 <= k <= entries.len(),
        normalized_all(entries.take(k), game_version, provider) is Err,
    ensures
        normalized_all(entries, game_version, provider) == normalized_all(
            entries.take(k),
            game_version,
            provider,
        ),
    decreases entries.len() - k,
{
    if k < entries.len() {
        assert(entries.take(k + 1).drop_last() == entries.take(k));
        lemma_normalized_all_fails(entries, game_version, provider, k + 1);
    } else {
        assert(entries.take(k) == entries);
    }
}

/// What an answer to a lookup brings, for `game_version`: nothing when the
/// answer holds no data, else what its entry stands for.
pub open spec fn looked_up(
    response: CurseGetResponse,
    game_version: Seq<char>,
    provider: ProviderView,
) -> Option<Result<AddonView, ProviderErrorView>> {
    match response.data {
        Some(entry) => Some(normalized(entry, game_version, provider)),
        None => None,
    }
}

impl CurseGetResponse {
    /// The add-on that the answer holds, for `game_version`: none when the
    /// answer holds no data, else what its entry stands for.
    pub fn to_addon(&self, game_version: &str, provider: &Provider) -> (r: Outcome)
        ensures
            outcome_view(r) == looked_up(*self, game_version@, provider@),
    {
        match &self.data {
            Some(entry) => Some(entry.to_addon(game_version, provider)),
            None => None,
        }
    }
}

} // verus!
