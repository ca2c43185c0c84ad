//! The catalogs that add-ons come from.
//!
//! A provider is a hosting service with a catalog of add-ons. The library
//! says what to ask of a provider and what to make of the answer; asking is
//! left to the caller.

use crate::number::{decimal_chars, decimal_digits, push_decimal};
use crate::text::{extend_with, string_from};
use crate::toc::{Toc, TocView};
use crate::{addon_views, Addon, AddonView};
use vstd::prelude::*;

pub mod curse;

verus! {

/// A hosting service, with what its catalog asks of a client.
#[derive(Clone, Debug, PartialEq, Eq)]
pub enum Provider {
    /// CurseForge, with the client's access token.
    Curse(String),
}

/// A `Provider` with its text as a sequence of characters.
pub enum ProviderView {
    Curse(Seq<char>),
}

impl View for Provider {
    type V = ProviderView;

    open spec fn view(&self) -> ProviderView {
        match self {
            Provider::Curse(token) => ProviderView::Curse(token@),
        }
    }
}

/// The identifier under which `provider` knows the add-on that `toc`
/// describes, if the metadata gives one.
pub open spec fn catalog_id(provider: ProviderView, toc: TocView) -> Option<usize> {
    match provider {
        ProviderView::Curse(_) => toc.curse_id,
    }
}

impl Provider {
    /// A provider equal to this one.
    pub fn duplicate(&self) -> (r: Provider)
        ensures
            r@ == self@,
    {
        match self {
            Provider::Curse(token) => Provider::Curse(token.clone()),
        }
    }

    /// The identifier under which this provider knows the add-on that `toc`
    /// describes, if the metadata gives one.
    pub fn lookup_id(&self, toc: &Toc) -> (r: Option<usize>)
        ensures
            r == catalog_id(self@, toc@),
    {
        match self {
            Provider::Curse(_) => toc.curse_id,
        }
    }
}

/// What was asked of a provider.
#[derive(Clone, Copy, Debug, PartialEq, Eq)]
pub enum Operation {
    /// An add-on, by its identifier.
    Lookup,
    /// The add-ons that match a query.
    Search,
}

/// Why a provider gave no add-on.
#[derive(Clone, Debug, PartialEq, Eq)]
pub enum ProviderError {
    /// The request failed: it could not be sent, the service answered with
    /// an error status, or the answer had another shape than expected.
    Request {
        /// What was asked.
        operation: Operation,
        /// The identifier or the query that was asked for.
        subject: String,
        /// What went wrong, in words.
        reason: String,
    },
    /// The catalog lists no file of the add-on for the game version.
    NoMatchingFile {
        /// The add-on's identifier.
        id: usize,
        /// The game version that a file was wanted for.
        game_version: String,
    },
}

/// A `ProviderError` with every text as a sequence of characters.
pub enum ProviderErrorView {
    Request { operation: Operation, subject: Seq<char>, reason: Seq<char> },
    NoMatchingFile { id: usize, game_version: Seq<char> },
}

impl View for ProviderError {
    type V = ProviderErrorView;

    open spec fn view(&self) -> ProviderErrorView {
        match self {
            ProviderError::Request { operation, subject, reason } => ProviderErrorView::Request {
                operation: *operation,
                subject: subject@,
                reason: reason@,
            },
            ProviderError::NoMatchingFile { id, game_version } => {
                ProviderErrorView::NoMatchingFile { id: *id, game_version: game_version@ }
            },
        }
    }
}

/// What a lookup brought: nothing where no lookup was made or the catalog
/// has no such add-on, else the add-on or the error.
pub type Outcome = Option<Result<Addon, ProviderError>>;

/// An add-on or an error, with every text as a sequence of characters.
pub open spec fn result_view(r: Result<Addon, ProviderError>) -> Result<
    AddonView,
    ProviderErrorView,
> {
    match r {
        Ok(addon) => Ok(addon@),
        Err(e) => Err(e@),
    }
}

/// What a lookup brought, with every text as a sequence of characters.
pub open spec fn outcome_view(outcome: Outcome) -> Option<Result<AddonView, ProviderErrorView>> {
    match outcome {
        Some(r) => Some(result_view(r)),
        None => None,
    }
}

/// A list of add-ons or an error, with every text as a sequence of
/// characters.
pub open spec fn results_view(r: Result<Vec<Addon>, ProviderError>) -> Result<
    Seq<AddonView>,
    ProviderErrorView,
> {
    match r {
        Ok(addons) => Ok(addon_views(addons@)),
        Err(e) => Err(e@),
    }
}

impl ProviderError {
    /// An error equal to this one.
    pub fn duplicate(&self) -> (r: ProviderError)
        ensures
            r@ == self@,
    {
        match self {
            ProviderError::Request { operation, subject, reason } => ProviderError::Request {
                operation: *operation,
                subject: subject.clone(),
                reason: reason.clone(),
            },
            ProviderError::NoMatchingFile { id, game_version } => ProviderError::NoMatchingFile {
                id: *id,
                game_version: game_version.clone(),
            },
        }
    }

    /// The error in words.
    pub fn message(&self) -> (r: String)
        ensures
            match self@ {
                ProviderErrorView::Request { operation: Operation::Lookup, subject, reason } => r@
                    == "lookup of "@ + subject + " failed: "@ + reason,
                ProviderErrorView::Request { operation: Operation::Search, subject, reason } => r@
                    == "search for "@ + subject + " failed: "@ + reason,
                ProviderErrorView::NoMatchingFile { id, game_version } => r@ == "add-on "@
                    + decimal_digits(id as int) + " has no file for game version "@ + game_version,
            },
    {
        let mut out: Vec<char> = Vec::new();
        match self {
            ProviderError::Request { operation, subject, reason } => {
                match operation {
                    Operation::Lookup => extend_with(&mut out, "lookup of "),
                    Operation::Search => extend_with(&mut out, "search for "),
                }
                extend_with(&mut out, subject.as_str());
                extend_with(&mut out, " failed: ");
                extend_with(&mut out, reason.as_str());
            },
            ProviderError::NoMatchingFile { id, game_version } => {
                extend_with(&mut out, "add-on ");
                push_decimal(&mut out, *id);
                extend_with(&mut out, " has no file for game version ");
                extend_with(&mut out, game_version.as_str());
            },
        }
        string_from(&out)
    }

    /// The error of a lookup that failed: its subject is the identifier,
    /// written in base ten.
    pub fn lookup_failed(id: usize, reason: String) -> (r: ProviderError)
        ensures
            r@ == (ProviderErrorView::Request {
                operation: Operation::Lookup,
                subject: decimal_digits(id as int),
                reason: reason@,
            }),
    {
        ProviderError::Request {
            operation: Operation::Lookup,
            subject: string_from(&decimal_chars(id)),
            reason,
        }
    }

    /// The error of a search that failed: its subject is the query.
    pub fn search_failed(query: &str, reason: String) -> (r: ProviderError)
        ensures
            r@ == (ProviderErrorView::Request {
                operation: Operation::Search,
                subject: query@,
                reason: reason@,
            }),
    {
        ProviderError::Request { operation: Operation::Search, subject: query.to_owned(), reason }
    }
}

} // verus!
