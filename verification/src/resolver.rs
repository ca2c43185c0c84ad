//! Which of the installed add-ons have an update.
//!
//! The resolver holds what a catalog says of each add-on that was found on
//! disk against what the manifest records of it. The add-ons are taken in
//! the order in which they were found, and the plan lists them in that
//! order.

use crate::manifest::{Addon as Installed, Manifest};
use crate::number::{decimal_chars, decimal_digits};
use crate::providers::{
    catalog_id, Outcome, Provider, ProviderError, ProviderErrorView, ProviderView,
};
use crate::text::{copy_of_text, spells, string_from};
use crate::toc::{Toc, TocView};
use crate::Addon;
use vstd::prelude::*;

verus! {

/// What the plan says of one add-on.
#[derive(Clone, Debug, PartialEq)]
pub enum PlanEntry {
    /// The catalog has another version than the one that was installed.
    Update {
        /// The add-on's identifier.
        addon_id: usize,
        /// The version that the manifest records.
        installed_version: String,
        /// The version that the catalog has.
        available_version: String,
        /// Where that version can be had from, if the catalog says so.
        download_location: Option<String>,
    },
    /// The catalog could not be asked about the add-on.
    Failed {
        /// The add-on's identifier.
        addon_id: usize,
        /// The version that the manifest records.
        installed_version: String,
        /// What went wrong.
        error: ProviderError,
    },
}

/// A `PlanEntry` with every text as a sequence of characters.
pub enum PlanEntryView {
    Update {
        addon_id: usize,
        installed_version: Seq<char>,
        available_version: Seq<char>,
        download_location: Option<Seq<char>>,
    },
    Failed { addon_id: usize, installed_version: Seq<char>, error: ProviderErrorView },
}

impl View for PlanEntry {
    type V = PlanEntryView;

    open spec fn view(&self) -> PlanEntryView {
        match self {
            PlanEntry::Update {
                addon_id,
                installed_version,
                available_version,
                download_location,
            } => PlanEntryView::Update {
                addon_id: *addon_id,
                installed_version: installed_version@,
                available_version: available_version@,
                download_location: download_location.deep_view(),
            },
            PlanEntry::Failed { addon_id, installed_version, error } => PlanEntryView::Failed {
                addon_id: *addon_id,
                installed_version: installed_version@,
                error: error@,
            },
        }
    }
}

/// The add-ons that have an update or could not be asked about, in the
/// order in which the add-ons were found.
#[derive(Clone, Debug, PartialEq)]
pub struct UpdatePlan {
    pub entries: Vec<PlanEntry>,
}

impl View for UpdatePlan {
    type V = Seq<PlanEntryView>;

    open spec fn view(&self) -> Seq<PlanEntryView> {
        self.entries@.map_values(|entry: PlanEntry| entry@)
    }
}

/// The key under which the manifest records the add-on `id`: the
/// identifier, written in base ten.
pub open spec fn manifest_key(id: usize) -> Seq<char> {
    decimal_digits(id as int)
}

/// What the plan says of the add-on `id`, of which `installed` was
/// installed and the catalog has the version `available` at `location`: an
/// update when the catalog names a version and that version differs from
/// the installed one, else nothing.
pub open spec fn update_of(
    id: usize,
    installed: Seq<char>,
    available: Option<Seq<char>>,
    location: Option<Seq<char>>,
) -> Option<PlanEntryView> {
    match available {
        Some(version) => if version != installed {
            Some(
                PlanEntryView::Update {
                    addon_id: id,
                    installed_version: installed,
                    available_version: version,
                    download_location: location,
                },
            )
        } else {
            None
        },
        None => None,
    }
}

/// A plan entry that may be absent, with every text as a sequence of
/// characters.
pub open spec fn entry_view(entry: Option<PlanEntry>) -> Option<PlanEntryView> {
    match entry {
        Some(e) => Some(e@),
        None => None,
    }
}

/// What the plan says of the add-on with the metadata `toc`.
///
/// Nothing, when the metadata gives no identifier for the provider, when
/// the manifest records nothing under that identifier, or when no lookup
/// brought anything. The failure, when the lookup failed. Else what
/// `update_of` says.
pub open spec fn entry_for(
    provider: ProviderView,
    manifest: Map<Seq<char>, Installed>,
    toc: TocView,
    outcome: Outcome,
) -> Option<PlanEntryView> {
    match catalog_id(provider, toc) {
        Some(id) => if manifest.contains_key(manifest_key(id)) {
            let installed = manifest[manifest_key(id)].version@;
            match outcome {
                Some(Ok(addon)) => update_of(id, installed, addon@.version, addon@.url),
                Some(Err(error)) => Some(
                    PlanEntryView::Failed {
                        addon_id: id,
                        installed_version: installed,
                        error: error@,
                    },
                ),
                None => None,
            }
        } else {
            None
        },
        None => None,
    }
}

/// The identifier to look up for the add-on with the metadata `toc`: the
/// one that the metadata gives for the provider, if the manifest records
/// the add-on. Of any other add-on the plan says nothing, so there is
/// nothing to look up.
pub open spec fn target_of(
    provider: ProviderView,
    manifest: Map<Seq<char>, Installed>,
    toc: TocView,
) -> Option<usize> {
    match catalog_id(provider, toc) {
        Some(id) => if manifest.contains_key(manifest_key(id)) {
            Some(id)
        } else {
            None
        },
        None => None,
    }
}

/// Of an add-on without identifier to look up, the plan says nothing,
/// whatever a lookup brought.
pub proof fn lemma_no_target_no_entry(
    provider: ProviderView,
    manifest: Map<Seq<char>, Installed>,
    toc: TocView,
    outcome: Outcome,
)
    requires
        target_of(provider, manifest, toc) is None,
    ensures
        entry_for(provider, manifest, toc, outcome) is None,
{
}

/// The outcome that belongs to the `i`-th add-on: the `i`-th of `outcomes`,
/// nothing where `outcomes` ends before.
pub open spec fn outcome_at(outcomes: Seq<Outcome>, i: int) -> Outcome {
    if 0 <= i < outcomes.len() {
        outcomes[i]
    } else {
        None
    }
}

/// The plan for the add-ons `found`: what `entry_for` says of each, in
/// their order.
pub open spec fn plan_of(
    provider: ProviderView,
    manifest: Map<Seq<char>, Installed>,
    found: Seq<Toc>,
    outcomes: Seq<Outcome>,
) -> Seq<PlanEntryView>
    decreases found.len(),
{
    if found.len() == 0 {
        Seq::empty()
    } else {
        plan_of(provider, manifest, found.drop_last(), outcomes) + match entry_for(
            provider,
            manifest,
            found.last()@,
            outcome_at(outcomes, found.len() - 1),
        ) {
            Some(entry) => seq![entry],
            None => Seq::empty(),
        }
    }
}

/// A plan lists at most one entry for each add-on that was found.
pub proof fn lemma_plan_is_no_longer_than_found(
    provider: ProviderView,
    manifest: Map<Seq<char>, Installed>,
    found: Seq<Toc>,
    outcomes: Seq<Outcome>,
)
    ensures
        plan_of(provider, manifest, found, outcomes).len() <= found.len(),
    decreases found.len(),
{
    if found.len() > 0 {
        lemma_plan_is_no_longer_than_found(provider, manifest, found.drop_last(), outcomes);
    }
}

/// The plan for add-ons found one after the other is the plan for the
/// first of them, followed by what the later ones add: an add-on never
/// changes what the plan says of those found before it.
pub proof fn lemma_plan_grows_in_order(
    provider: ProviderView,
    manifest: Map<Seq<char>, Installed>,
    found: Seq<Toc>,
    outcomes: Seq<Outcome>,
    k: int,
)
    requires
        0 <= k <= found.len(),
    ensures
        plan_of(provider, manifest, found.take(k), outcomes).is_prefix_of(
            plan_of(provider, manifest, found, outcomes),
        ),
    decreases found.len() - k,
{
    if k < found.len() {
        assert(found.take(k + 1).drop_last() == found.take(k));
        lemma_plan_grows_in_order(provider, manifest, found, outcomes, k + 1);
    } else {
        assert(found.take(k) == found);
    }
}

/// What the plan says of the add-on `id`, of which `installed` was
/// installed and for which the catalog has `version` at `url`.
fn update_entry(
    id: usize,
    installed: &String,
    version: &Option<String>,
    url: &Option<String>,
) -> (r: Option<PlanEntry>)
    ensures
        entry_view(r) == update_of(id, installed@, version.deep_view(), url.deep_view()),
{
    match version {
        Some(available) => {
            if *available == *installed {
                None
            } else {
                Some(
                    PlanEntry::Update {
                        addon_id: id,
                        installed_version: installed.clone(),
                        available_version: available.clone(),
                        download_location: copy_of_text(url),
                    },
                )
            }
        },
        None => None,
    }
}

impl Addon {
    /// Holds this add-on, as a catalog has it, against what was installed
    /// of it: an update when the catalog names a version and that version
    /// differs from the installed one, else nothing.
    pub fn update(&self, installed: &Installed) -> (r: Option<PlanEntry>)
        ensures
            entry_view(r) == update_of(self.id, installed.version@, self@.version, self@.url),
    {
        update_entry(self.id, &installed.version, &self.version, &self.url)
    }
}

/// The identifier to look up for the add-on with the metadata `toc`, if the
/// plan can say anything of the add-on.
pub fn lookup_target(provider: &Provider, manifest: &Manifest, toc: &Toc) -> (r: Option<usize>)
    ensures
        r == target_of(provider@, manifest@, toc@),
{
    match provider.lookup_id(toc) {
        Some(id) => {
            let key = string_from(&decimal_chars(id));
            if manifest.installed(key.as_str()).is_some() {
                Some(id)
            } else {
                None
            }
        },
        None => None,
    }
}

/// What the plan says of one add-on that was found with the metadata
/// `toc`, given what the lookup brought.
pub fn resolve_one(provider: &Provider, manifest: &Manifest, toc: &Toc, outcome: &Outcome) -> (r:
    Option<PlanEntry>)
    ensures
        entry_view(r) == entry_for(provider@, manifest@, toc@, *outcome),
{
    let id = match provider.lookup_id(toc) {
        Some(id) => id,
        None => {
            return None;
        },
    };
    let key = string_from(&decimal_chars(id));
    let installed = match manifest.installed(key.as_str()) {
        Some(installed) => installed,
        None => {
            return None;
        },
    };
    match outcome {
        Some(Ok(addon)) => update_entry(id, &installed.version, &addon.version, &addon.url),
        Some(Err(error)) => Some(
            PlanEntry::Failed {
                addon_id: id,
                installed_version: installed.version.clone(),
                error: error.duplicate(),
            },
        ),
        None => None,
    }
}

/// The plan for the add-ons that were found.
///
/// `found` holds the metadata of each add-on, in the order in which the
/// add-ons were found, and `outcomes[i]` what the lookup of `found[i]`
/// brought. The plan has an entry for each add-on that the manifest
/// records and whose lookup failed or brought another version than the
/// recorded one. A failed lookup does not keep the other add-ons out of the
/// plan.
pub fn resolve(
    provider: &Provider,
    manifest: &Manifest,
    found: &Vec<Toc>,
    outcomes: &Vec<Outcome>,
) -> (plan: UpdatePlan)
    ensures
        plan@ == plan_of(provider@, manifest@, found@, outcomes@),
{
    let mut entries: Vec<PlanEntry> = Vec::new();
    let none: Outcome = None;
    let n = found.len();
    let mut i: usize = 0;
    while i < n
        invariant
            i <= n == found.len(),
            none is None,
            entries@.map_values(|entry: PlanEntry| entry@) == plan_of(
                provider@,
                manifest@,
                found@.take(i as int),
                outcomes@,
            ),
        decreases n - i,
    {
        let outcome = if i < outcomes.len() {
            &outcomes[i]
        } else {
            &none
        };
        assert(found@.take(i + 1).drop_last() == found@.take(i as int));
        match resolve_one(provider, manifest, &found[i], outcome) {
            Some(entry) => {
                entries.push(entry);
            },
            None => {},
        }
        i += 1;
    }
    assert(found@.take(n as int) == found@);
    UpdatePlan { entries }
}

/// Whether one of the add-ons `found` is the one that the manifest records
/// under `key`.
pub open spec fn is_found(provider: ProviderView, found: Seq<Toc>, key: Seq<char>) -> bool {
    exists|i: int| 0 <= i < found.len() && records(provider, #[trigger] found[i], key)
}

/// Whether the manifest records the add-on with the metadata `toc` under
/// `key`.
pub open spec fn records(provider: ProviderView, toc: Toc, key: Seq<char>) -> bool {
    match catalog_id(provider, toc@) {
        Some(id) => manifest_key(id) == key,
        None => false,
    }
}

/// The keys of those of `entries` whose add-on is none of the add-ons
/// `found`, in the order of the entries.
pub open spec fn orphans_of(
    provider: ProviderView,
    entries: Seq<(String, Installed)>,
    found: Seq<Toc>,
) -> Seq<Seq<char>>
    decreases entries.len(),
{
    if entries.len() == 0 {
        Seq::empty()
    } else {
        orphans_of(provider, entries.drop_last(), found) + if is_found(
            provider,
            found,
            entries.last().0@,
        ) {
            Seq::<Seq<char>>::empty()
        } else {
            seq![entries.last().0@]
        }
    }
}

/// The add-on that a plan entry speaks of.
pub open spec fn addon_of(entry: PlanEntryView) -> usize {
    match entry {
        PlanEntryView::Update { addon_id, .. } => addon_id,
        PlanEntryView::Failed { addon_id, .. } => addon_id,
    }
}

/// Every entry of a plan speaks of an add-on that was found: nothing is
/// planned for what the manifest records and the disk holds no more.
pub proof fn lemma_plan_speaks_of_found(
    provider: ProviderView,
    manifest: Map<Seq<char>, Installed>,
    found: Seq<Toc>,
    outcomes: Seq<Outcome>,
    k: int,
)
    requires
        0 <= k < plan_of(provider, manifest, found, outcomes).len(),
    ensures
        is_found(
            provider,
            found,
            manifest_key(addon_of(plan_of(provider, manifest, found, outcomes)[k])),
        ),
    decreases found.len(),
{
    let front = found.drop_last();
    let before = plan_of(provider, manifest, front, outcomes);
    let key = manifest_key(addon_of(plan_of(provider, manifest, found, outcomes)[k]));
    if k < before.len() {
        // The entry speaks of one of the add-ons found earlier.
        lemma_plan_speaks_of_found(provider, manifest, front, outcomes, k);
        let i = choose|i: int| 0 <= i < front.len() && records(provider, #[trigger] front[i], key);
        assert(records(provider, found[i], key));
    } else {
        // The entry speaks of the add-on found last.
        assert(records(provider, found.last(), key));
    }
}

/// Whether one of the add-ons `found` is the one that the manifest records
/// under `key`.
fn was_found(provider: &Provider, found: &Vec<Toc>, key: &str) -> (r: bool)
    ensures
        r == is_found(provider@, found@, key@),
{
    let n = found.len();
    let mut i: usize = 0;
    while i < n
        invariant
            i <= n == found.len(),
            forall|j: int| 0 <= j < i ==> !records(provider@, #[trigger] found@[j], key@),
        decreases n - i,
    {
        match provider.lookup_id(&found[i]) {
            Some(id) => {
                let written = decimal_chars(id);
                assert(written@.subrange(0, written@.len() as int) == written@);
                if spells(&written, 0, written.len(), key) {
                    return true;
                }
            },
            None => {},
        }
        i += 1;
    }
    false
}

/// The keys under which the manifest records add-ons that were not found:
/// what was installed once and is on disk no more. The resolver plans
/// nothing for them; they are listed so that a caller can tell the user.
pub fn orphans(provider: &Provider, manifest: &Manifest, found: &Vec<Toc>) -> (r: Vec<String>)
    ensures
        r.deep_view() == orphans_of(provider@, manifest.addons.entries@, found@),
{
    let mut out: Vec<String> = Vec::new();
    let n = manifest.addons.entries.len();
    let mut i: usize = 0;
    while i < n
        invariant
            i <= n == manifest.addons.entries.len(),
            out.deep_view() == orphans_of(
                provider@,
                manifest.addons.entries@.take(i as int),
                found@,
            ),
        decreases n - i,
    {
        let ghost entries = manifest.addons.entries@;
        assert(entries.take(i + 1).drop_last() == entries.take(i as int));
        let key = &manifest.addons.entries[i].0;
        if !was_found(provider, found, key.as_str()) {
            out.push(key.clone());
        }
        i += 1;
    }
    assert(manifest.addons.entries@.take(n as int) == manifest.addons.entries@);
    out
}

} // verus!
