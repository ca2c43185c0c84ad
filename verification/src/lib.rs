//! Core of an add-on manager for a game client: the metadata-file parser,
//! the catalog model and the update resolver.
//!
//! The library computes; it reads no file and sends no request. A caller
//! hands it the text of metadata files and the answers of a catalog, and
//! gets back what they mean.

use crate::providers::{catalog_id, Provider, ProviderView};
use crate::text::copy_of_text;
use crate::toc::{Toc, TocView};
use vstd::prelude::*;

pub mod config;
pub mod dict;
pub mod game_version;
pub mod manifest;
pub mod markup;
pub mod number;
pub mod providers;
pub mod resolver;
pub mod text;
pub mod toc;

verus! {

/// Where an installation keeps its add-ons, below its own directory.
pub const ADDONS_DIRECTORY: &'static str = "Interface/AddOns";

/// A line of the game, each with add-ons of its own.
#[derive(Clone, Copy, Debug, PartialEq, Eq)]
pub enum Flavor {
    Retail,
    Classic,
    ClassicBC,
    ClassicWOTLK,
    ClassicCata,
}

impl Flavor {
    /// The flavor of the installation in the directory `name`. Every
    /// installation is taken for a retail one.
    pub fn from_dir_name(name: &str) -> (r: Flavor)
        ensures
            r == Flavor::Retail,
    {
        Flavor::Retail
    }
}

/// An add-on, as found on disk or in a catalog.
#[derive(Clone, Debug, PartialEq)]
pub struct Addon {
    /// The add-on's name.
    pub name: String,
    /// The identifier under which the provider knows the add-on.
    pub id: usize,
    /// The directories of the add-on on disk, if it was found there.
    pub dirs: Option<Vec<String>>,
    /// Where the add-on can be had from, if that is known.
    pub url: Option<String>,
    /// The add-on's version, if that is known.
    pub version: Option<String>,
    /// The provider whose catalog lists the add-on.
    pub provider: Provider,
}

/// An `Addon` with every text as a sequence of characters.
pub struct AddonView {
    pub name: Seq<char>,
    pub id: usize,
    pub dirs: Option<Seq<Seq<char>>>,
    pub url: Option<Seq<char>>,
    pub version: Option<Seq<char>>,
    pub provider: ProviderView,
}

impl View for Addon {
    type V = AddonView;

    open spec fn view(&self) -> AddonView {
        AddonView {
            name: self.name@,
            id: self.id,
            dirs: self.dirs.deep_view(),
            url: self.url.deep_view(),
            version: self.version.deep_view(),
            provider: self.provider@,
        }
    }
}

/// An add-on that may be absent, with every text as a sequence of
/// characters.
pub open spec fn optional_view(addon: Option<Addon>) -> Option<AddonView> {
    match addon {
        Some(a) => Some(a@),
        None => None,
    }
}

/// The views of a list of add-ons.
pub open spec fn addon_views(addons: Seq<Addon>) -> Seq<AddonView> {
    addons.map_values(|addon: Addon| addon@)
}

/// The record of the add-on that was found in the directory `dir` with the
/// metadata `toc`: it is known by the identifier that the metadata gives
/// for the provider, and named after its directory. There is none when the
/// metadata gives no such identifier.
pub open spec fn local_addon(dir: Seq<char>, toc: TocView, provider: ProviderView) -> Option<
    AddonView,
> {
    match catalog_id(provider, toc) {
        Some(id) => Some(
            AddonView {
                name: dir,
                id,
                dirs: Some(seq![dir]),
                url: None,
                version: toc.version,
                provider,
            },
        ),
        None => None,
    }
}

/// The records of the add-ons `found`, each a directory with its metadata,
/// in the order in which they were found. What has no record is left out.
pub open spec fn local_addons(found: Seq<(String, Toc)>, provider: ProviderView) -> Seq<AddonView>
    decreases found.len(),
{
    if found.len() == 0 {
        Seq::empty()
    } else {
        local_addons(found.drop_last(), provider) + match local_addon(
            found.last().0@,
            found.last().1@,
            provider,
        ) {
            Some(addon) => seq![addon],
            None => Seq::empty(),
        }
    }
}

impl Addon {
    /// An add-on of which only name, identifier and provider are known.
    pub fn new(name: &str, id: usize, provider: Provider) -> (r: Addon)
        ensures
            r@ == (AddonView {
                name: name@,
                id,
                dirs: None,
                url: None,
                version: None,
                provider: provider@,
            }),
    {
        Addon { name: name.to_owned(), id, dirs: None, url: None, version: None, provider }
    }

    /// The record of the add-on that was found in the directory `dir` with
    /// the metadata `toc`, if the metadata gives an identifier for the
    /// provider.
    pub fn determine_addon(dir: &str, toc: &Toc, provider: &Provider) -> (r: Option<Addon>)
        ensures
            optional_view(r) == local_addon(dir@, toc@, provider@),
    {
        match provider.lookup_id(toc) {
            Some(id) => {
                let mut dirs: Vec<String> = Vec::new();
                dirs.push(dir.to_owned());
                assert(dirs.deep_view() == seq![dir@]);
                Some(
                    Addon {
                        name: dir.to_owned(),
                        id,
                        dirs: Some(dirs),
                        url: None,
                        version: copy_of_text(&toc.version),
                        provider: provider.duplicate(),
                    },
                )
            },
            None => None,
        }
    }
}

/// An installation of the game.
#[derive(Clone, Debug, PartialEq)]
pub struct Wow {
    /// The directory of the installation.
    pub path: String,
    /// The flavor of the installation.
    pub flavor: Flavor,
    /// The add-ons of the installation, once they were looked for.
    pub addons: Option<Vec<Addon>>,
}

impl Wow {
    /// The installation in `path`, with the add-ons `found` in its add-on
    /// directory.
    pub fn new(
        path: String,
        flavor: Flavor,
        found: &Vec<(String, Toc)>,
        provider: &Provider,
    ) -> (r: Wow)
        ensures
            r.path == path,
            r.flavor == flavor,
            r.addons matches Some(addons) && addon_views(addons@) == local_addons(
                found@,
                provider@,
            ),
    {
        let addons = Wow::get_installed_addons(found, provider);
        Wow { path, flavor, addons }
    }

    /// The records of the add-ons `found` in an add-on directory, each a
    /// directory with its metadata, in the order in which they were found.
    /// An add-on whose metadata gives no identifier for the provider has
    /// no record.
    pub fn get_installed_addons(found: &Vec<(String, Toc)>, provider: &Provider) -> (r: Option<
        Vec<Addon>,
    >)
        ensures
            r matches Some(addons) && addon_views(addons@) == local_addons(found@, provider@),
    {
        let mut addons: Vec<Addon> = Vec::new();
        let n = found.len();
        let mut i: usize = 0;
        while i < n
            invariant
                i <= n == found.len(),
                addon_views(addons@) == local_addons(found@.take(i as int), provider@),
            decreases n - i,
        {
            assert(found@.take(i + 1).drop_last() == found@.take(i as int));
            match Addon::determine_addon(found[i].0.as_str(), &found[i].1, provider) {
                Some(addon) => {
                    addons.push(addon);
                },
                None => {},
            }
            i += 1;
        }
        assert(found@.take(n as int) == found@);
        Some(addons)
    }
}

} // verus!
