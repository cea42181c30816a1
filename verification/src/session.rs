//! The decisions of the serving loop: which workspace roots are scanned at
//! startup, and what each incoming message leads to.
//!
//! The loop itself, the transport and the scan of a root belong to the
//! program around the library. It classifies each message as an
//! [`Incoming`], asks [`serve`] what to do and acts on the [`Reaction`].

use crate::dispatch::{answer, definition, Indexer, Location, LocationView, ReferenceQuery};
use crate::index::{plan, settle, FileOutcome, LookupView};
use vstd::prelude::*;

verus! {

/// A message from the client, as far as the server tells messages apart.
#[derive(Debug)]
pub enum Incoming {
    /// The request to shut down.
    Shutdown,
    /// A definition query, with the reference that the extractor for the
    /// document's file type found at the position asked for, if it found one.
    Definition(Option<ReferenceQuery>),
    /// Any other request.
    OtherRequest,
    /// A response to something the server asked.
    Response,
    /// A notification.
    Notification,
}

/// What the serving loop does about a message.
#[derive(Debug)]
pub enum Reaction {
    /// Leave the loop.
    Stop,
    /// Send these locations as the result of the request. An empty list
    /// says that no definition was found.
    Reply(Vec<Location>),
    /// Nothing; go on with the next message.
    Ignore,
}

/// The roots to scan for modules: the initial root, if the client named one,
/// then each workspace folder in the order given.
pub open spec fn roots_in_order(root: Option<Seq<char>>, folders: Option<Seq<Seq<char>>>) -> Seq<
    Seq<char>,
> {
    let first = match root {
        Some(root) => seq![root],
        None => Seq::empty(),
    };
    let rest = match folders {
        Some(folders) => folders,
        None => Seq::empty(),
    };
    first + rest
}

/// The roots to scan for modules, each to be scanned once.
pub fn scan_roots(root: Option<String>, folders: Option<Vec<String>>) -> (roots: Vec<String>)
    ensures
        roots.deep_view() == roots_in_order(root.deep_view(), folders.deep_view()),
{
    let ghost expected = roots_in_order(root.deep_view(), folders.deep_view());
    let mut roots: Vec<String> = Vec::new();
    let ghost none = roots.deep_view();
    match root {
        Some(root) => {
            roots.push(root);
            assert(roots.deep_view() =~= none.push(root@));
        },
        None => {},
    }
    let ghost first = roots.deep_view();
    match folders {
        Some(folders) => {
            let mut i: usize = 0;
            while i < folders.len()
                invariant
                    i <= folders.len(),
                    roots.deep_view() =~= first + folders.deep_view().take(i as int),
                decreases folders.len() - i,
            {
                let ghost before = roots.deep_view();
                roots.push(folders[i].clone());
                assert(roots.deep_view() =~= before.push(folders[i as int]@));
                i = i + 1;
            }
            assert(folders.deep_view().take(i as int) =~= folders.deep_view());
        },
        None => {
            assert(roots.deep_view() =~= first + Seq::<Seq<char>>::empty());
        },
    }
    assert(roots.deep_view() =~= expected);
    roots
}

/// Decides what one message leads to. Only a definition query touches the
/// indexer: it is answered as [`Indexer::resolve_definition`] says, and the
/// answer is sent even where it is empty. The shutdown request ends the
/// loop. Everything else is passed over.
pub fn serve<F: FnOnce(&str) -> FileOutcome>(
    indexer: &mut Indexer,
    incoming: Incoming,
    probe: F,
) -> (reaction: Reaction)
    requires
        incoming matches Incoming::Definition(Some(q)) ==> (plan(
            old(indexer)@.classes,
            old(indexer)@.modules,
            q@.class(),
        ) matches LookupView::Probe(expected) ==> forall|path: &str|
            path@ == expected ==> call_requires(probe, (path,))),
    ensures
        final(indexer)@.modules == old(indexer)@.modules,
        match incoming {
            Incoming::Shutdown => {
                &&& reaction is Stop
                &&& final(indexer)@.classes == old(indexer)@.classes
            },
            Incoming::Definition(None) => {
                &&& final(indexer)@.classes == old(indexer)@.classes
                &&& reaction matches Reaction::Reply(locations)
                &&& locations.deep_view() == Seq::<LocationView>::empty()
            },
            Incoming::Definition(Some(q)) => {
                &&& reaction matches Reaction::Reply(locations)
                &&& match plan(
                    old(indexer)@.classes,
                    old(indexer)@.modules,
                    q@.class(),
                ) {
                    LookupView::Cached(table) => {
                        &&& final(indexer)@.classes == old(indexer)@.classes
                        &&& locations.deep_view() == seq![definition(table, q@)]
                    },
                    LookupView::Miss => {
                        &&& final(indexer)@.classes == old(indexer)@.classes
                        &&& locations.deep_view() == Seq::<LocationView>::empty()
                    },
                    LookupView::Probe(expected) => exists|path: &str, outcome: FileOutcome|
                        {
                            &&& path@ == expected
                            &&& call_ensures(probe, (path,), outcome)
                            &&& final(indexer)@.classes == settle(
                                old(indexer)@.classes,
                                q@.class(),
                                outcome@,
                            ).0
                            &&& locations.deep_view() == answer(
                                Some(q@),
                                settle(old(indexer)@.classes, q@.class(), outcome@).1,
                            )
                        },
                }
            },
            _ => {
                &&& reaction is Ignore
                &&& final(indexer)@.classes == old(indexer)@.classes
            },
        },
{
    match incoming {
        Incoming::Shutdown => Reaction::Stop,
        Incoming::Definition(query) => {
            let locations = match &query {
                Some(q) => indexer.resolve_definition(Some(q), probe),
                None => indexer.resolve_definition(None, probe),
            };
            Reaction::Reply(locations)
        },
        Incoming::OtherRequest => Reaction::Ignore,
        Incoming::Response => Reaction::Ignore,
        Incoming::Notification => Reaction::Ignore,
    }
}

} // verus!
