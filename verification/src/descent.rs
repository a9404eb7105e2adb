//! The tree walk against the tree it walks. A walk is driven one answer at
//! a time; what it is meant to do is a descent: list a prefix, then take
//! its keys in order, descending into each container before going on to
//! the key after it, and stop at the first failure. This module states the
//! descent and proves that a walk, driven against a store that answers
//! every request in one way, fetches what the descent fetches and ends as
//! it ends.

use crate::s3_download::{
    advance, escape_error, fetch_error, is_container, leaves_root, list_failure, listed_keys,
    local_path, next_page, stopped, walk_start, walk_step, FetchOutcomeView, PendingView,
    S3ErrView, WalkActionView, WalkEventView, WalkView,
};
use vstd::prelude::*;

verus! {

/// A store and a disk that answer each request in one way: a listing of a
/// prefix (with the token of a page, or without one) gives keys and maybe
/// the token of the next page, or the cause of its failure; a fetch of a
/// key to a path gives its outcome.
pub struct World {
    pub listing: spec_fn(Seq<char>, Option<Seq<char>>) -> Result<
        (Seq<Option<Seq<char>>>, Option<Seq<char>>),
        Seq<char>,
    >,
    pub fetching: spec_fn(Seq<char>, Seq<char>) -> FetchOutcomeView,
}

/// The world's answer to an action; none to the end of a walk.
pub open spec fn answer(world: World, action: WalkActionView) -> Option<WalkEventView> {
    match action {
        WalkActionView::List { prefix, token } => Some(
            match (world.listing)(prefix, token) {
                Ok((keys, next_token)) => WalkEventView::Listed { keys, next_token },
                Err(cause) => WalkEventView::ListFailed { cause },
            },
        ),
        WalkActionView::Fetch { key, path } => Some(
            WalkEventView::Fetched { outcome: (world.fetching)(key, path) },
        ),
        _ => None,
    }
}

/// The key that an action asks to fetch, if it asks for one.
pub open spec fn asked(action: WalkActionView) -> Seq<Seq<char>> {
    match action {
        WalkActionView::Fetch { key, path } => seq![key],
        _ => Seq::empty(),
    }
}

/// Where a driven walk arrived, and the keys it asked to fetch on the way.
pub struct Driven {
    pub walk: WalkView,
    pub fetched: Seq<Seq<char>>,
}

/// Drives a walk against a world: up to `steps` times, the world answers
/// the walk's action and the walk takes its step. A walk at its end stays
/// there.
pub open spec fn drive(world: World, walk: WalkView, steps: nat) -> Driven
    decreases steps,
{
    if steps == 0 {
        Driven { walk, fetched: Seq::empty() }
    } else {
        match answer(world, walk.current) {
            None => Driven { walk, fetched: Seq::empty() },
            Some(event) => {
                let rest = drive(world, walk_step(walk, event), (steps - 1) as nat);
                Driven { walk: rest.walk, fetched: asked(walk.current) + rest.fetched }
            },
        }
    }
}

/// What a descent came to: the keys it fetched, in order, the last of them
/// the one that failed if a fetch failed; the error it stopped at, if it
/// stopped; the number of requests it made.
pub struct Descent {
    pub fetched: Seq<Seq<char>>,
    pub error: Option<S3ErrView>,
    pub steps: nat,
}

/// The descent into one listing: its keys, then the page that follows it,
/// are taken in order. No more than `depth` listings are nested; `None`
/// where the tree goes deeper than that.
pub open spec fn descend_prefix(
    world: World,
    root_prefix: Seq<char>,
    prefix: Seq<char>,
    token: Option<Seq<char>>,
    depth: nat,
) -> Option<Descent>
    decreases depth, 0nat,
{
    if depth == 0 {
        None
    } else {
        match (world.listing)(prefix, token) {
            Err(cause) => Some(
                Descent {
                    fetched: Seq::empty(),
                    error: Some(S3ErrView { key: prefix, message: list_failure(cause) }),
                    steps: 1,
                },
            ),
            Ok((keys, next_token)) => match descend_items(
                world,
                root_prefix,
                listed_keys(keys) + next_page(prefix, next_token),
                (depth - 1) as nat,
            ) {
                None => None,
                Some(below) => Some(Descent { steps: below.steps + 1, ..below }),
            },
        }
    }
}

/// The descent through a series of keys and pages: a leaf is fetched, a
/// container and a page are descended into, and the first failure ends
/// it all.
pub open spec fn descend_items(
    world: World,
    root_prefix: Seq<char>,
    items: Seq<PendingView>,
    depth: nat,
) -> Option<Descent>
    decreases depth, 2 + items.len(),
{
    if items.len() == 0 {
        Some(Descent { fetched: Seq::empty(), error: None, steps: 0 })
    } else {
        match descend_item(world, root_prefix, items[0], depth) {
            None => None,
            Some(first) => if first.error is Some {
                Some(first)
            } else {
                match descend_items(
                    world,
                    root_prefix,
                    items.subrange(1, items.len() as int),
                    depth,
                ) {
                    None => None,
                    Some(rest) => Some(
                        Descent {
                            fetched: first.fetched + rest.fetched,
                            error: rest.error,
                            steps: first.steps + rest.steps,
                        },
                    ),
                }
            },
        }
    }
}

/// The descent at one key or page. A leaf that would be written outside
/// the local root is not fetched: the descent stops at it.
pub open spec fn descend_item(
    world: World,
    root_prefix: Seq<char>,
    item: PendingView,
    depth: nat,
) -> Option<Descent>
    decreases depth, 1nat,
{
    match item {
        PendingView::Key { key } => if is_container(key) {
            descend_prefix(world, root_prefix, key, None, depth)
        } else if leaves_root(root_prefix, key) {
            Some(
                Descent {
                    fetched: Seq::empty(),
                    error: Some(escape_error(root_prefix, key)),
                    steps: 0,
                },
            )
        } else {
            let path = local_path(root_prefix, key);
            Some(
                Descent {
                    fetched: seq![key],
                    error: fetch_error(root_prefix, key, (world.fetching)(key, path)),
                    steps: 1,
                },
            )
        },
        PendingView::Page { prefix, token } => descend_prefix(
            world,
            root_prefix,
            prefix,
            Some(token),
            depth,
        ),
    }
}

/// Where a walk stands after a descent that began with `rest` pending:
/// at the first of `rest` if the descent went through, at its error if
/// it stopped.
pub open spec fn after_descent(
    root_prefix: Seq<char>,
    descent: Descent,
    rest: Seq<PendingView>,
) -> WalkView {
    match descent.error {
        None => advance(root_prefix, rest),
        Some(error) => stopped(root_prefix, error.key, error.message),
    }
}

/// Driving in two stretches is driving through.
pub proof fn lemma_drive_on(world: World, walk: WalkView, first: nat, second: nat)
    ensures
        drive(world, walk, first + second).walk == drive(
            world,
            drive(world, walk, first).walk,
            second,
        ).walk,
        drive(world, walk, first + second).fetched == drive(world, walk, first).fetched + drive(
            world,
            drive(world, walk, first).walk,
            second,
        ).fetched,
    decreases first,
{
    if first > 0 {
        match answer(world, walk.current) {
            None => {
                lemma_drive_ended(world, walk, second);
            },
            Some(event) => {
                lemma_drive_on(world, walk_step(walk, event), (first - 1) as nat, second);
            },
        }
    }
}

/// A walk at its end is not driven any further.
pub proof fn lemma_drive_ended(world: World, walk: WalkView, steps: nat)
    requires
        answer(world, walk.current) is None,
    ensures
        drive(world, walk, steps) == (Driven { walk, fetched: Seq::empty() }),
{
}

/// A walk that awaits a listing, driven for as many steps as the descent
/// into that listing takes, has fetched what the descent fetches and
/// stands where the descent leaves it.
pub proof fn lemma_listing_descends(
    world: World,
    root_prefix: Seq<char>,
    prefix: Seq<char>,
    token: Option<Seq<char>>,
    rest: Seq<PendingView>,
    depth: nat,
)
    requires
        descend_prefix(world, root_prefix, prefix, token, depth) is Some,
    ensures
        ({
            let descent = descend_prefix(world, root_prefix, prefix, token, depth)->0;
            let walk = WalkView {
                root_prefix,
                pending: rest,
                current: WalkActionView::List { prefix, token },
            };
            drive(world, walk, descent.steps) == (Driven {
                walk: after_descent(root_prefix, descent, rest),
                fetched: descent.fetched,
            })
        }),
    decreases depth, 0nat,
{
    match (world.listing)(prefix, token) {
        Err(cause) => {
            reveal_with_fuel(drive, 2);
        },
        Ok((keys, next_token)) => {
            let items = listed_keys(keys) + next_page(prefix, next_token);
            lemma_items_descend(world, root_prefix, items, rest, (depth - 1) as nat);
        },
    }
}

/// A walk that takes up a series of keys and pages, driven for as many
/// steps as the descent through them takes, has fetched what the descent
/// fetches and stands where the descent leaves it.
pub proof fn lemma_items_descend(
    world: World,
    root_prefix: Seq<char>,
    items: Seq<PendingView>,
    rest: Seq<PendingView>,
    depth: nat,
)
    requires
        descend_items(world, root_prefix, items, depth) is Some,
    ensures
        ({
            let descent = descend_items(world, root_prefix, items, depth)->0;
            drive(world, advance(root_prefix, items + rest), descent.steps) == (Driven {
                walk: after_descent(root_prefix, descent, rest),
                fetched: descent.fetched,
            })
        }),
    decreases depth, 1 + items.len(),
{
    let walk = advance(root_prefix, items + rest);
    if items.len() > 0 {
        let later = items.subrange(1, items.len() as int);
        let waiting = later + rest;
        assert((items + rest).subrange(1, (items + rest).len() as int) =~= waiting);
        let first = descend_item(world, root_prefix, items[0], depth)->0;
        // The first item alone leaves the walk at the items after it.
        assert(drive(world, walk, first.steps) == (Driven {
            walk: after_descent(root_prefix, first, waiting),
            fetched: first.fetched,
        })) by {
            match items[0] {
                PendingView::Key { key } => {
                    if is_container(key) {
                        lemma_listing_descends(world, root_prefix, key, None, waiting, depth);
                    } else {
                        reveal_with_fuel(drive, 2);
                    }
                },
                PendingView::Page { prefix, token } => {
                    lemma_listing_descends(world, root_prefix, prefix, Some(token), waiting, depth);
                },
            }
        }
        if first.error is None {
            let after = descend_items(world, root_prefix, later, depth)->0;
            lemma_items_descend(world, root_prefix, later, rest, depth);
            lemma_drive_on(world, walk, first.steps, after.steps);
        }
    }
}

/// The walk does what the descent does: where the descent from the
/// starting prefix comes to an end within `depth` nested listings, the
/// walk that a download begins with, driven against the same world, asks
/// for the same fetches in the same order, and ends finished if the
/// descent went through, and failed with the descent's error if it
/// stopped.
pub proof fn lemma_walk_descends(
    world: World,
    root_prefix: Seq<char>,
    prefix: Seq<char>,
    depth: nat,
)
    requires
        descend_prefix(world, root_prefix, prefix, None, depth) is Some,
    ensures
        ({
            let descent = descend_prefix(world, root_prefix, prefix, None, depth)->0;
            let driven = drive(world, walk_start(root_prefix, prefix), descent.steps);
            &&& driven.fetched == descent.fetched
            &&& driven.walk.pending.len() == 0
            &&& driven.walk.current == (match descent.error {
                None => WalkActionView::Finished,
                Some(error) => WalkActionView::Failed { error },
            })
        }),
{
    lemma_listing_descends(world, root_prefix, prefix, None, Seq::empty(), depth);
}

/// A descent fetches leaves only, and none that would be written outside
/// the local root.
pub proof fn lemma_descent_fetches_leaves(
    world: World,
    root_prefix: Seq<char>,
    items: Seq<PendingView>,
    depth: nat,
    at: int,
)
    requires
        descend_items(world, root_prefix, items, depth) is Some,
        0 <= at < descend_items(world, root_prefix, items, depth)->0.fetched.len(),
    ensures
        !is_container(descend_items(world, root_prefix, items, depth)->0.fetched[at]),
        !leaves_root(root_prefix, descend_items(world, root_prefix, items, depth)->0.fetched[at]),
    decreases depth, 1 + items.len(),
{
    let first = descend_item(world, root_prefix, items[0], depth)->0;
    if at < first.fetched.len() {
        match items[0] {
            PendingView::Key { key } => {
                if is_container(key) {
                    lemma_listed_fetches_leaves(world, root_prefix, key, None, depth, at);
                }
            },
            PendingView::Page { prefix, token } => {
                lemma_listed_fetches_leaves(world, root_prefix, prefix, Some(token), depth, at);
            },
        }
    } else {
        lemma_descent_fetches_leaves(
            world,
            root_prefix,
            items.subrange(1, items.len() as int),
            depth,
            at - first.fetched.len(),
        );
    }
}

/// The same, for the descent into a listing.
pub proof fn lemma_listed_fetches_leaves(
    world: World,
    root_prefix: Seq<char>,
    prefix: Seq<char>,
    token: Option<Seq<char>>,
    depth: nat,
    at: int,
)
    requires
        descend_prefix(world, root_prefix, prefix, token, depth) is Some,
        0 <= at < descend_prefix(world, root_prefix, prefix, token, depth)->0.fetched.len(),
    ensures
        !is_container(descend_prefix(world, root_prefix, prefix, token, depth)->0.fetched[at]),
        !leaves_root(
            root_prefix,
            descend_prefix(world, root_prefix, prefix, token, depth)->0.fetched[at],
        ),
    decreases depth, 0nat,
{
    match (world.listing)(prefix, token) {
        Err(cause) => {},
        Ok((keys, next_token)) => {
            lemma_descent_fetches_leaves(
                world,
                root_prefix,
                listed_keys(keys) + next_page(prefix, next_token),
                (depth - 1) as nat,
                at,
            );
        },
    }
}

/// A descent that comes to an end within a bound comes to the same end
/// within any larger bound: the bound says how deep a tree may be, not
/// what is found in it.
pub proof fn lemma_deeper_bound_same_descent(
    world: World,
    root_prefix: Seq<char>,
    prefix: Seq<char>,
    token: Option<Seq<char>>,
    depth: nat,
    deeper: nat,
)
    requires
        depth <= deeper,
        descend_prefix(world, root_prefix, prefix, token, depth) is Some,
    ensures
        descend_prefix(world, root_prefix, prefix, token, deeper) == descend_prefix(
            world,
            root_prefix,
            prefix,
            token,
            depth,
        ),
    decreases depth, 0nat,
{
    match (world.listing)(prefix, token) {
        Err(cause) => {},
        Ok((keys, next_token)) => {
            lemma_deeper_bound_same_items(
                world,
                root_prefix,
                listed_keys(keys) + next_page(prefix, next_token),
                (depth - 1) as nat,
                (deeper - 1) as nat,
            );
        },
    }
}

/// The same, for the descent through a series of keys and pages.
pub proof fn lemma_deeper_bound_same_items(
    world: World,
    root_prefix: Seq<char>,
    items: Seq<PendingView>,
    depth: nat,
    deeper: nat,
)
    requires
        depth <= deeper,
        descend_items(world, root_prefix, items, depth) is Some,
    ensures
        descend_items(world, root_prefix, items, deeper) == descend_items(
            world,
            root_prefix,
            items,
            depth,
        ),
    decreases depth, 2 + items.len(),
{
    if items.len() > 0 {
        let first = descend_item(world, root_prefix, items[0], depth)->0;
        match items[0] {
            PendingView::Key { key } => {
                if is_container(key) {
                    lemma_deeper_bound_same_descent(world, root_prefix, key, None, depth, deeper);
                }
            },
            PendingView::Page { prefix, token } => {
                lemma_deeper_bound_same_descent(
                    world,
                    root_prefix,
                    prefix,
                    Some(token),
                    depth,
                    deeper,
                );
            },
        }
        assert(descend_item(world, root_prefix, items[0], deeper) == Some(first));
        if first.error is None {
            lemma_deeper_bound_same_items(
                world,
                root_prefix,
                items.subrange(1, items.len() as int),
                depth,
                deeper,
            );
        }
    }
}

} // verus!
