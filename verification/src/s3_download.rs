//! Download of an object tree: which prefix to list next, which object to
//! fetch next and where to write it, and when to stop. The store and the
//! disk are driven from outside; every answer they give is handed to
//! [`TreeWalk::step`], which decides what happens next. No object is
//! written outside the local root: a key that would lead there ends the
//! walk with an error before it is fetched.

use crate::text::{
    chars_of, ends_with_char, has_last, has_prefix, join2, strip_prefix, without_prefix,
};
use vstd::prelude::*;
use vstd::string::*;

verus! {

/// Directory under which the objects are written.
pub const LOCAL_ROOT: &'static str = "/tmp/";

/// Separator of the store's keys: a key that ends in it is a container.
pub const SEPARATOR: char = '/';

/// A failed listing or fetch: the prefix or key it was about, and the cause.
#[derive(Debug, PartialEq, Eq)]
pub struct S3Err {
    pub key: String,
    pub message: String,
}

/// What a [`S3Err`] holds, as contracts speak of it.
pub struct S3ErrView {
    pub key: Seq<char>,
    pub message: Seq<char>,
}

impl View for S3Err {
    type V = S3ErrView;

    open spec fn view(&self) -> S3ErrView {
        S3ErrView { key: self.key@, message: self.message@ }
    }
}

/// What came of fetching one object and writing it to its local path, in
/// the order in which the stages run.
#[derive(Debug, PartialEq, Eq)]
pub enum FetchOutcome {
    /// The whole body is in the file.
    Stored,
    /// The store refused the object.
    GetFailed { cause: String },
    /// The local path has no parent directory.
    NoParent,
    /// The parent directories could not be created.
    DirFailed { cause: String },
    /// The file could not be created.
    CreateFailed { cause: String },
    /// The body broke off before its end.
    BodyFailed { cause: String },
    /// The body could not be written.
    WriteFailed { cause: String },
}

/// What a [`FetchOutcome`] holds, as contracts speak of it.
pub enum FetchOutcomeView {
    Stored,
    GetFailed { cause: Seq<char> },
    NoParent,
    DirFailed { cause: Seq<char> },
    CreateFailed { cause: Seq<char> },
    BodyFailed { cause: Seq<char> },
    WriteFailed { cause: Seq<char> },
}

impl View for FetchOutcome {
    type V = FetchOutcomeView;

    open spec fn view(&self) -> FetchOutcomeView {
        match self {
            FetchOutcome::Stored => FetchOutcomeView::Stored,
            FetchOutcome::GetFailed { cause } => FetchOutcomeView::GetFailed { cause: cause@ },
            FetchOutcome::NoParent => FetchOutcomeView::NoParent,
            FetchOutcome::DirFailed { cause } => FetchOutcomeView::DirFailed { cause: cause@ },
            FetchOutcome::CreateFailed { cause } => FetchOutcomeView::CreateFailed {
                cause: cause@,
            },
            FetchOutcome::BodyFailed { cause } => FetchOutcomeView::BodyFailed { cause: cause@ },
            FetchOutcome::WriteFailed { cause } => FetchOutcomeView::WriteFailed { cause: cause@ },
        }
    }
}

/// A key that ends in the separator names a container, any other a leaf.
pub open spec fn is_container(key: Seq<char>) -> bool {
    has_last(key, SEPARATOR)
}

/// Where the object `key` is written: the local root, then the key without
/// the root prefix in front of it.
pub open spec fn local_path(root_prefix: Seq<char>, key: Seq<char>) -> Seq<char> {
    LOCAL_ROOT@ + without_prefix(key, root_prefix)
}

/// `text` has the component `..` at `at`: two dots between separators, or
/// between a separator and an end of the text, or making up the text.
pub open spec fn parent_component_at(text: Seq<char>, at: int) -> bool {
    &&& 0 <= at && at + 2 <= text.len()
    &&& text[at] == '.' && text[at + 1] == '.'
    &&& (at == 0 || text[at - 1] == SEPARATOR)
    &&& (at + 2 == text.len() || text[at + 2] == SEPARATOR)
}

/// One of the components of `text` is `..`, which names the directory
/// above.
pub open spec fn has_parent_component(text: Seq<char>) -> bool {
    exists|at: int| parent_component_at(text, at)
}

/// The object `key` would be written outside the local root: what is left
/// of the key without the root prefix climbs to a directory above.
pub open spec fn leaves_root(root_prefix: Seq<char>, key: Seq<char>) -> bool {
    has_parent_component(without_prefix(key, root_prefix))
}

/// The message of a fetch that did not store its object; `None` for one
/// that did.
pub open spec fn fetch_failure(path: Seq<char>, outcome: FetchOutcomeView) -> Option<Seq<char>> {
    match outcome {
        FetchOutcomeView::Stored => None,
        FetchOutcomeView::GetFailed { cause } => Some("Error getting object: "@ + cause),
        FetchOutcomeView::NoParent => Some("Error getting parent path: "@ + path),
        FetchOutcomeView::DirFailed { cause } => Some("Error creating parent path: "@ + cause),
        FetchOutcomeView::CreateFailed { cause } => Some("Error creating file: "@ + cause),
        FetchOutcomeView::BodyFailed { cause } => Some("Error collecting body: "@ + cause),
        FetchOutcomeView::WriteFailed { cause } => Some("Error writing file: "@ + cause),
    }
}

/// The message of a listing that failed.
pub open spec fn list_failure(cause: Seq<char>) -> Seq<char> {
    "Error listing objects: "@ + cause
}

/// The error for a key whose object would be written outside the local
/// root.
pub open spec fn escape_error(root_prefix: Seq<char>, key: Seq<char>) -> S3ErrView {
    S3ErrView { key, message: "Error leaving local root: "@ + local_path(root_prefix, key) }
}

/// The error of fetching the object `key`, from what the stages of the
/// fetch reported; `None` where the object is stored. A key that would be
/// written outside the local root is an error whatever was reported.
pub open spec fn fetch_error(
    root_prefix: Seq<char>,
    key: Seq<char>,
    outcome: FetchOutcomeView,
) -> Option<S3ErrView> {
    if leaves_root(root_prefix, key) {
        Some(escape_error(root_prefix, key))
    } else {
        match fetch_failure(local_path(root_prefix, key), outcome) {
            None => None,
            Some(message) => Some(S3ErrView { key, message }),
        }
    }
}

/// A path under the local root has no `..` component unless what follows
/// the root has one: the path begins with the root and stays below it.
pub proof fn lemma_local_path_stays_inside(root_prefix: Seq<char>, key: Seq<char>)
    requires
        !leaves_root(root_prefix, key),
    ensures
        has_prefix(local_path(root_prefix, key), LOCAL_ROOT@),
        !has_parent_component(local_path(root_prefix, key)),
{
    reveal_strlit("/tmp/");
    let rest = without_prefix(key, root_prefix);
    let path = local_path(root_prefix, key);
    assert(path.subrange(0, LOCAL_ROOT@.len() as int) =~= LOCAL_ROOT@);
    assert forall|at: int| !parent_component_at(path, at) by {
        if parent_component_at(path, at) {
            if at >= 5 {
                assert(path[at] == rest[at - 5] && path[at + 1] == rest[at - 4]);
                if at > 5 {
                    assert(path[at - 1] == rest[at - 6]);
                }
                if at + 2 < path.len() {
                    assert(path[at + 2] == rest[at - 3]);
                }
                assert(parent_component_at(rest, at - 5));
            } else {
                assert(path[at] == LOCAL_ROOT@[at]);
            }
        }
    }
}

/// Whether one of the components of `text` is `..`.
pub fn holds_parent_component(text: &str) -> (r: bool)
    ensures
        r == has_parent_component(text@),
{
    let chars = chars_of(text);
    let n = chars.len();
    if n < 2 {
        return false;
    }
    let mut i: usize = 0;
    while i <= n - 2
        invariant
            chars@ == text@,
            n == chars@.len(),
            n >= 2,
            forall|at: int| 0 <= at < i ==> !parent_component_at(text@, at),
        decreases n - i,
    {
        if chars[i] == '.' && chars[i + 1] == '.' && (i == 0 || chars[i - 1] == SEPARATOR) && (i
            + 2 == n || chars[i + 2] == SEPARATOR) {
            assert(parent_component_at(text@, i as int));
            return true;
        }
        i = i + 1;
    }
    false
}

/// The local path of the object `key` under the root prefix `root_prefix`:
/// the local root, then the key without the root prefix. A key that would
/// be written outside the local root has no local path; it is an error
/// that names the key.
pub fn derive_local_path(root_prefix: &str, key: &str) -> (r: Result<String, S3Err>)
    ensures
        match r {
            Ok(path) => !leaves_root(root_prefix@, key@) && path@ == local_path(
                root_prefix@,
                key@,
            ) && has_prefix(path@, LOCAL_ROOT@) && !has_parent_component(path@),
            Err(e) => leaves_root(root_prefix@, key@) && e@ == escape_error(root_prefix@, key@),
        },
{
    let rest = strip_prefix(key, root_prefix);
    let path = join2(LOCAL_ROOT, rest.as_str());
    if holds_parent_component(rest.as_str()) {
        Err(
            S3Err {
                key: String::from_str(key),
                message: join2("Error leaving local root: ", path.as_str()),
            },
        )
    } else {
        proof {
            lemma_local_path_stays_inside(root_prefix@, key@);
        }
        Ok(path)
    }
}

/// The result of fetching the object `key`, from what the stages of the
/// fetch reported: `Ok` where the body was stored under the local root,
/// else the error that names the key and the stage that failed. A key
/// that would be written outside the local root is an error whatever was
/// reported.
pub fn download_file(root_prefix: &str, key: &str, outcome: &FetchOutcome) -> (r: Result<
    (),
    S3Err,
>)
    ensures
        match r {
            Ok(_) => fetch_error(root_prefix@, key@, outcome@) is None,
            Err(e) => fetch_error(root_prefix@, key@, outcome@) == Some(e@),
        },
{
    let path = match derive_local_path(root_prefix, key) {
        Ok(path) => path,
        Err(e) => {
            return Err(e);
        },
    };
    let message = match outcome {
        FetchOutcome::Stored => {
            return Ok(());
        },
        FetchOutcome::GetFailed { cause } => join2("Error getting object: ", cause.as_str()),
        FetchOutcome::NoParent => join2("Error getting parent path: ", path.as_str()),
        FetchOutcome::DirFailed { cause } => join2("Error creating parent path: ", cause.as_str()),
        FetchOutcome::CreateFailed { cause } => join2("Error creating file: ", cause.as_str()),
        FetchOutcome::BodyFailed { cause } => join2("Error collecting body: ", cause.as_str()),
        FetchOutcome::WriteFailed { cause } => join2("Error writing file: ", cause.as_str()),
    };
    Err(S3Err { key: String::from_str(key), message })
}

/// Work that waits its turn: a listed key, or the rest of a listing that the
/// store cut short.
#[derive(Debug, PartialEq, Eq)]
pub enum Pending {
    Key { key: String },
    Page { prefix: String, token: String },
}

/// What a [`Pending`] holds, as contracts speak of it.
pub enum PendingView {
    Key { key: Seq<char> },
    Page { prefix: Seq<char>, token: Seq<char> },
}

impl View for Pending {
    type V = PendingView;

    open spec fn view(&self) -> PendingView {
        match self {
            Pending::Key { key } => PendingView::Key { key: key@ },
            Pending::Page { prefix, token } => PendingView::Page { prefix: prefix@, token: token@ },
        }
    }
}

/// What the walk asks for next, or how it ended.
#[derive(Debug, PartialEq, Eq)]
pub enum WalkAction {
    /// List the keys that begin with `prefix`; with a token, the page of
    /// that listing which the token stands for.
    List { prefix: String, token: Option<String> },
    /// Fetch the object `key` and write its body to `path`.
    Fetch { key: String, path: String },
    /// Every object is stored.
    Finished,
    /// A listing or a fetch failed, and the walk stopped there.
    Failed { error: S3Err },
}

/// What a [`WalkAction`] holds, as contracts speak of it.
pub enum WalkActionView {
    List { prefix: Seq<char>, token: Option<Seq<char>> },
    Fetch { key: Seq<char>, path: Seq<char> },
    Finished,
    Failed { error: S3ErrView },
}

impl View for WalkAction {
    type V = WalkActionView;

    open spec fn view(&self) -> WalkActionView {
        match self {
            WalkAction::List { prefix, token } => WalkActionView::List {
                prefix: prefix@,
                token: token.deep_view(),
            },
            WalkAction::Fetch { key, path } => WalkActionView::Fetch { key: key@, path: path@ },
            WalkAction::Finished => WalkActionView::Finished,
            WalkAction::Failed { error } => WalkActionView::Failed { error: error@ },
        }
    }
}

/// What the store or the disk answered to the last action.
#[derive(Debug, PartialEq, Eq)]
pub enum WalkEvent {
    /// One page of a listing: the keys in the store's order (an entry may
    /// come without a key), and the token of the next page if there is one.
    Listed { keys: Vec<Option<String>>, next_token: Option<String> },
    /// The listing failed.
    ListFailed { cause: String },
    /// The fetch ended as `outcome` says.
    Fetched { outcome: FetchOutcome },
}

/// What a [`WalkEvent`] holds, as contracts speak of it.
pub enum WalkEventView {
    Listed { keys: Seq<Option<Seq<char>>>, next_token: Option<Seq<char>> },
    ListFailed { cause: Seq<char> },
    Fetched { outcome: FetchOutcomeView },
}

impl View for WalkEvent {
    type V = WalkEventView;

    open spec fn view(&self) -> WalkEventView {
        match self {
            WalkEvent::Listed { keys, next_token } => WalkEventView::Listed {
                keys: keys.deep_view(),
                next_token: next_token.deep_view(),
            },
            WalkEvent::ListFailed { cause } => WalkEventView::ListFailed { cause: cause@ },
            WalkEvent::Fetched { outcome } => WalkEventView::Fetched { outcome: outcome@ },
        }
    }
}

/// A walk at one moment: the work that waits, next first, and the action
/// whose answer is awaited (or the end that was reached).
pub struct WalkView {
    pub root_prefix: Seq<char>,
    pub pending: Seq<PendingView>,
    pub current: WalkActionView,
}

/// The keys of a listing as pending work, in the listing's order; entries
/// without a key are left out.
pub open spec fn listed_keys(keys: Seq<Option<Seq<char>>>) -> Seq<PendingView>
    decreases keys.len(),
{
    if keys.len() == 0 {
        Seq::empty()
    } else {
        let rest = listed_keys(keys.subrange(1, keys.len() as int));
        match keys[0] {
            Some(key) => seq![PendingView::Key { key }] + rest,
            None => rest,
        }
    }
}

/// The page that follows a listing of `prefix`, if the store named one.
pub open spec fn next_page(prefix: Seq<char>, next_token: Option<Seq<char>>) -> Seq<PendingView> {
    match next_token {
        Some(token) => seq![PendingView::Page { prefix, token }],
        None => Seq::empty(),
    }
}

/// The action that a piece of pending work turns into: a container is
/// listed, a leaf is fetched, a page is listed with its token. A leaf that
/// would be written outside the local root is not fetched: it is the
/// failure of the walk.
pub open spec fn action_for(root_prefix: Seq<char>, item: PendingView) -> WalkActionView {
    match item {
        PendingView::Key { key } => if is_container(key) {
            WalkActionView::List { prefix: key, token: None }
        } else if leaves_root(root_prefix, key) {
            WalkActionView::Failed { error: escape_error(root_prefix, key) }
        } else {
            WalkActionView::Fetch { key, path: local_path(root_prefix, key) }
        },
        PendingView::Page { prefix, token } => WalkActionView::List { prefix, token: Some(token) },
    }
}

/// Takes up the first piece of pending work, or finishes where none is
/// left. Where the first piece is the failure of the walk, nothing stays
/// pending.
pub open spec fn advance(root_prefix: Seq<char>, pending: Seq<PendingView>) -> WalkView {
    if pending.len() == 0 {
        WalkView { root_prefix, pending, current: WalkActionView::Finished }
    } else {
        let current = action_for(root_prefix, pending[0]);
        WalkView {
            root_prefix,
            pending: if current is Failed {
                Seq::empty()
            } else {
                pending.subrange(1, pending.len() as int)
            },
            current,
        }
    }
}

/// The walk stopped by a failure: nothing is pending any more.
pub open spec fn stopped(root_prefix: Seq<char>, key: Seq<char>, message: Seq<char>) -> WalkView {
    WalkView {
        root_prefix,
        pending: Seq::empty(),
        current: WalkActionView::Failed { error: S3ErrView { key, message } },
    }
}

/// The walk's beginning: the listing of `prefix` is awaited, nothing else waits.
pub open spec fn walk_start(root_prefix: Seq<char>, prefix: Seq<char>) -> WalkView {
    WalkView {
        root_prefix,
        pending: Seq::empty(),
        current: WalkActionView::List { prefix, token: None },
    }
}

/// One step of the walk.
///
/// - A page of the awaited listing puts its keys, then the page that
///   follows it, in front of the pending work, and the walk takes up the
///   first of them: the keys of a container come before the later
///   siblings of that container.
/// - A stored object lets the walk take up the next pending work.
/// - A failed listing or fetch stops the walk with its error, and so does
///   a leaf that would be written outside the local root, before it is
///   fetched.
/// - An answer that was not awaited, and any answer after the end,
///   changes nothing.
pub open spec fn walk_step(walk: WalkView, event: WalkEventView) -> WalkView {
    match (walk.current, event) {
        (WalkActionView::List { prefix, token }, WalkEventView::Listed { keys, next_token }) => {
            advance(
                walk.root_prefix,
                listed_keys(keys) + next_page(prefix, next_token) + walk.pending,
            )
        },
        (WalkActionView::List { prefix, token }, WalkEventView::ListFailed { cause }) => {
            stopped(walk.root_prefix, prefix, list_failure(cause))
        },
        (WalkActionView::Fetch { key, path }, WalkEventView::Fetched { outcome }) => {
            match fetch_error(walk.root_prefix, key, outcome) {
                None => advance(walk.root_prefix, walk.pending),
                Some(error) => stopped(walk.root_prefix, error.key, error.message),
            }
        },
        _ => walk,
    }
}

/// The walk after a series of answers.
pub open spec fn walk_run(walk: WalkView, events: Seq<WalkEventView>) -> WalkView
    decreases events.len(),
{
    if events.len() == 0 {
        walk
    } else {
        walk_step(walk_run(walk, events.drop_last()), events.last())
    }
}

/// What holds of every walk: an object that is being fetched is a leaf,
/// and it is written to the local path of its key, which lies under the
/// local root and has no `..` component.
pub open spec fn well_formed(walk: WalkView) -> bool {
    walk.current matches WalkActionView::Fetch { key, path } ==> {
        &&& !is_container(key)
        &&& !leaves_root(walk.root_prefix, key)
        &&& path == local_path(walk.root_prefix, key)
        &&& has_prefix(path, LOCAL_ROOT@)
        &&& !has_parent_component(path)
    }
}

/// A walk begins well-formed.
pub proof fn lemma_start_well_formed(root_prefix: Seq<char>, prefix: Seq<char>)
    ensures
        well_formed(walk_start(root_prefix, prefix)),
{
}

/// A step keeps a walk well-formed: whatever the store lists, a key
/// that ends in the separator is listed, never fetched, and no object is
/// fetched to a path outside the local root.
pub proof fn lemma_step_well_formed(walk: WalkView, event: WalkEventView)
    requires
        well_formed(walk),
    ensures
        well_formed(walk_step(walk, event)),
{
    let next = walk_step(walk, event);
    if next.current is Fetch && !leaves_root(next.root_prefix, next.current->key) {
        lemma_local_path_stays_inside(next.root_prefix, next.current->key);
    }
}

/// A leaf that would be written outside the local root ends the walk when
/// its turn comes: it is not fetched, the error names it, and nothing
/// stays pending.
pub proof fn lemma_escaping_key_stops(
    root_prefix: Seq<char>,
    key: Seq<char>,
    later: Seq<PendingView>,
)
    requires
        !is_container(key),
        leaves_root(root_prefix, key),
    ensures
        advance(root_prefix, seq![PendingView::Key { key }] + later) == stopped(
            root_prefix,
            key,
            escape_error(root_prefix, key).message,
        ),
{
}

/// No series of answers leads a walk to fetch a container, or to fetch
/// to a path outside the local root.
pub proof fn lemma_run_well_formed(walk: WalkView, events: Seq<WalkEventView>)
    requires
        well_formed(walk),
    ensures
        well_formed(walk_run(walk, events)),
    decreases events.len(),
{
    if events.len() > 0 {
        lemma_run_well_formed(walk, events.drop_last());
        lemma_step_well_formed(walk_run(walk, events.drop_last()), events.last());
    }
}

/// A fetch that does not store its object ends the walk: the error names
/// the object and the stage that failed, nothing is pending any more, and
/// no later answer brings another fetch.
pub proof fn lemma_failed_fetch_stops(
    walk: WalkView,
    outcome: FetchOutcomeView,
    later: Seq<WalkEventView>,
)
    requires
        walk.current is Fetch,
        !(outcome is Stored),
    ensures
        walk_run(walk_step(walk, WalkEventView::Fetched { outcome }), later) == stopped(
            walk.root_prefix,
            walk.current->key,
            fetch_error(walk.root_prefix, walk.current->key, outcome)->0.message,
        ),
{
    lemma_stopped_is_final(walk_step(walk, WalkEventView::Fetched { outcome }), later);
}

/// A listing that fails ends the walk in the same way, with its prefix.
pub proof fn lemma_failed_listing_stops(
    walk: WalkView,
    cause: Seq<char>,
    later: Seq<WalkEventView>,
)
    requires
        walk.current is List,
    ensures
        walk_run(walk_step(walk, WalkEventView::ListFailed { cause }), later) == stopped(
            walk.root_prefix,
            walk.current->prefix,
            list_failure(cause),
        ),
{
    lemma_stopped_is_final(walk_step(walk, WalkEventView::ListFailed { cause }), later);
}

/// After a failure nothing more happens: whatever answers still arrive, the
/// walk stays as the failure left it, with its error and no pending work.
pub proof fn lemma_stopped_is_final(walk: WalkView, events: Seq<WalkEventView>)
    requires
        walk.current is Failed,
    ensures
        walk_run(walk, events) == walk,
    decreases events.len(),
{
    if events.len() > 0 {
        lemma_stopped_is_final(walk, events.drop_last());
    }
}

/// A finished walk stays finished.
pub proof fn lemma_finished_is_final(walk: WalkView, events: Seq<WalkEventView>)
    requires
        walk.current is Finished,
    ensures
        walk_run(walk, events) == walk,
    decreases events.len(),
{
    if events.len() > 0 {
        lemma_finished_is_final(walk, events.drop_last());
    }
}

/// `prefix` with the separator at its end, added where it was missing.
pub open spec fn with_separator(prefix: Seq<char>) -> Seq<char> {
    if has_last(prefix, SEPARATOR) {
        prefix
    } else {
        prefix + seq![SEPARATOR]
    }
}

/// What is downloaded and with which credentials: the objects of `bucket`
/// whose keys begin with the root prefix followed by the sub-prefix.
#[derive(Debug, PartialEq, Eq)]
pub struct S3Downloader {
    access_key: String,
    secret_key: String,
    region: String,
    bucket: String,
    root_prefix: String,
    sub_prefix: String,
}

/// What a [`S3Downloader`] holds, as contracts speak of it.
pub struct S3DownloaderView {
    pub access_key: Seq<char>,
    pub secret_key: Seq<char>,
    pub region: Seq<char>,
    pub bucket: Seq<char>,
    pub root_prefix: Seq<char>,
    pub sub_prefix: Seq<char>,
}

impl View for S3Downloader {
    type V = S3DownloaderView;

    closed spec fn view(&self) -> S3DownloaderView {
        S3DownloaderView {
            access_key: self.access_key@,
            secret_key: self.secret_key@,
            region: self.region@,
            bucket: self.bucket@,
            root_prefix: self.root_prefix@,
            sub_prefix: self.sub_prefix@,
        }
    }
}

impl S3Downloader {
    /// A downloader for the given bucket and prefixes. The root prefix is
    /// kept with the separator at its end.
    pub fn new(
        access_key: String,
        secret_key: String,
        region: String,
        bucket: String,
        root_prefix: String,
        sub_prefix: String,
    ) -> (r: Self)
        ensures
            r@ == (S3DownloaderView {
                access_key: access_key@,
                secret_key: secret_key@,
                region: region@,
                bucket: bucket@,
                root_prefix: with_separator(root_prefix@),
                sub_prefix: sub_prefix@,
            }),
    {
        let root_prefix = if ends_with_char(root_prefix.as_str(), SEPARATOR) {
            root_prefix
        } else {
            proof {
                reveal_strlit("/");
            }
            assert("/"@ =~= seq![SEPARATOR]);
            join2(root_prefix.as_str(), "/")
        };
        S3Downloader { access_key, secret_key, region, bucket, root_prefix, sub_prefix }
    }

    pub fn access_key(&self) -> (r: &str)
        ensures
            r@ == self@.access_key,
    {
        self.access_key.as_str()
    }

    pub fn secret_key(&self) -> (r: &str)
        ensures
            r@ == self@.secret_key,
    {
        self.secret_key.as_str()
    }

    pub fn region(&self) -> (r: &str)
        ensures
            r@ == self@.region,
    {
        self.region.as_str()
    }

    pub fn bucket(&self) -> (r: &str)
        ensures
            r@ == self@.bucket,
    {
        self.bucket.as_str()
    }

    pub fn root_prefix(&self) -> (r: &str)
        ensures
            r@ == self@.root_prefix,
    {
        self.root_prefix.as_str()
    }

    pub fn sub_prefix(&self) -> (r: &str)
        ensures
            r@ == self@.sub_prefix,
    {
        self.sub_prefix.as_str()
    }

    /// Begins the download: a walk that awaits the listing of the root
    /// prefix followed by the sub-prefix.
    pub fn download(&self) -> (walk: TreeWalk)
        ensures
            walk@ == walk_start(self@.root_prefix, self@.root_prefix + self@.sub_prefix),
    {
        let prefix = join2(self.root_prefix.as_str(), self.sub_prefix.as_str());
        let stack: Vec<Pending> = Vec::new();
        assert(stack_view(stack@) =~= Seq::empty());
        TreeWalk {
            root_prefix: self.root_prefix.clone(),
            stack,
            current: WalkAction::List { prefix, token: None },
        }
    }
}

/// The pending work that a stack holds, next first: the stack's top is its
/// last item.
pub open spec fn stack_view(stack: Seq<Pending>) -> Seq<PendingView> {
    Seq::new(stack.len(), |i: int| stack[stack.len() - 1 - i]@)
}

/// A stack with one more item holds that item as its next work.
proof fn lemma_stack_push(stack: Seq<Pending>, item: Pending)
    ensures
        stack_view(stack.push(item)) == seq![item@] + stack_view(stack),
{
}

/// A stack without its top holds the work after the next.
proof fn lemma_stack_pop(stack: Seq<Pending>)
    requires
        stack.len() > 0,
    ensures
        stack_view(stack.drop_last()) == stack_view(stack).subrange(
            1,
            stack_view(stack).len() as int,
        ),
        stack_view(stack)[0] == stack.last()@,
{
}

/// The keys of a listing from one entry on: that entry's key, if it has
/// one, then the keys from the entry after it on.
proof fn lemma_listed_keys_from(listing: Seq<Option<Seq<char>>>, from: int)
    requires
        0 <= from < listing.len(),
    ensures
        listed_keys(listing.subrange(from, listing.len() as int)) == (match listing[from] {
            Some(key) => seq![PendingView::Key { key }],
            None => Seq::empty(),
        }) + listed_keys(listing.subrange(from + 1, listing.len() as int)),
{
    let tail = listing.subrange(from, listing.len() as int);
    assert(tail.subrange(1, tail.len() as int) =~= listing.subrange(
        from + 1,
        listing.len() as int,
    ));
}

fn copy_error(error: &S3Err) -> (r: S3Err)
    ensures
        r@ == error@,
{
    S3Err { key: error.key.clone(), message: error.message.clone() }
}

fn copy_token(token: &Option<String>) -> (r: Option<String>)
    ensures
        r.deep_view() == token.deep_view(),
{
    match token {
        Some(t) => Some(t.clone()),
        None => None,
    }
}

fn copy_action(action: &WalkAction) -> (r: WalkAction)
    ensures
        r@ == action@,
{
    match action {
        WalkAction::List { prefix, token } => WalkAction::List {
            prefix: prefix.clone(),
            token: copy_token(token),
        },
        WalkAction::Fetch { key, path } => WalkAction::Fetch {
            key: key.clone(),
            path: path.clone(),
        },
        WalkAction::Finished => WalkAction::Finished,
        WalkAction::Failed { error } => WalkAction::Failed { error: copy_error(error) },
    }
}

/// Puts one page of a listing on the stack: the page that follows it
/// first, then its keys from the last to the first, so that the first key
/// is on top.
fn push_listing(
    stack: &mut Vec<Pending>,
    keys: Vec<Option<String>>,
    prefix: String,
    next_token: Option<String>,
)
    ensures
        stack_view(final(stack)@) == listed_keys(keys.deep_view()) + next_page(
            prefix@,
            next_token.deep_view(),
        ) + stack_view(old(stack)@),
{
    let ghost before = stack_view(stack@);
    let ghost listing = keys.deep_view();
    let ghost page = next_page(prefix@, next_token.deep_view());
    if let Some(token) = next_token {
        proof {
            lemma_stack_push(stack@, Pending::Page { prefix, token });
        }
        stack.push(Pending::Page { prefix, token });
    }
    let mut keys = keys;
    while keys.len() > 0
        invariant
            keys.len() <= listing.len(),
            keys.deep_view() =~= listing.subrange(0, keys.len() as int),
            stack_view(stack@) == listed_keys(
                listing.subrange(keys.len() as int, listing.len() as int),
            ) + (page + before),
        decreases keys.len(),
    {
        let ghost at = keys.len() - 1;
        let ghost held = keys.deep_view();
        proof {
            lemma_listed_keys_from(listing, at);
            assert(held[at] == listing[at]);
        }
        let item = keys.pop().unwrap();
        if let Some(key) = item {
            proof {
                lemma_stack_push(stack@, Pending::Key { key });
            }
            stack.push(Pending::Key { key });
        }
    }
    assert(listing.subrange(0, listing.len() as int) =~= listing);
}

/// A download under way.
#[derive(Debug)]
pub struct TreeWalk {
    root_prefix: String,
    stack: Vec<Pending>,
    current: WalkAction,
}

impl View for TreeWalk {
    type V = WalkView;

    closed spec fn view(&self) -> WalkView {
        WalkView {
            root_prefix: self.root_prefix@,
            pending: stack_view(self.stack@),
            current: self.current@,
        }
    }
}

impl TreeWalk {
    #[verifier::type_invariant]
    spec fn sound(&self) -> bool {
        well_formed(self@)
    }

    /// The action whose answer the walk awaits, or the end it has reached.
    /// A key that it asks to fetch is a leaf, and the path is that key's
    /// local path, under the local root and without a `..` component.
    pub fn action(&self) -> (action: WalkAction)
        ensures
            action@ == self@.current,
            well_formed(self@),
    {
        proof {
            use_type_invariant(self);
        }
        copy_action(&self.current)
    }

    /// Takes up the work on top of the stack.
    fn take_up(root_prefix: String, stack: Vec<Pending>) -> (next: TreeWalk)
        ensures
            next@ == advance(root_prefix@, stack_view(stack@)),
    {
        let mut stack = stack;
        let ghost before = stack@;
        match stack.pop() {
            None => TreeWalk { root_prefix, stack, current: WalkAction::Finished },
            Some(item) => {
                proof {
                    lemma_stack_pop(before);
                }
                let current = match item {
                    Pending::Key { key } => {
                        if ends_with_char(key.as_str(), SEPARATOR) {
                            WalkAction::List { prefix: key, token: None }
                        } else {
                            match derive_local_path(root_prefix.as_str(), key.as_str()) {
                                Ok(path) => WalkAction::Fetch { key, path },
                                Err(error) => {
                                    let stack: Vec<Pending> = Vec::new();
                                    assert(stack_view(stack@) =~= Seq::empty());
                                    return TreeWalk {
                                        root_prefix,
                                        stack,
                                        current: WalkAction::Failed { error },
                                    };
                                },
                            }
                        }
                    },
                    Pending::Page { prefix, token } => WalkAction::List {
                        prefix,
                        token: Some(token),
                    },
                };
                TreeWalk { root_prefix, stack, current }
            },
        }
    }

    /// Hands the walk the answer to its action and returns the walk that
    /// follows: see [`walk_step`].
    pub fn step(self, event: WalkEvent) -> (next: TreeWalk)
        ensures
            next@ == walk_step(self@, event@),
    {
        proof {
            use_type_invariant(&self);
        }
        let TreeWalk { root_prefix, stack, current } = self;
        match (current, event) {
            (WalkAction::List { prefix, token }, WalkEvent::Listed { keys, next_token }) => {
                let mut stack = stack;
                push_listing(&mut stack, keys, prefix, next_token);
                TreeWalk::take_up(root_prefix, stack)
            },
            (WalkAction::List { prefix, token }, WalkEvent::ListFailed { cause }) => {
                let message = join2("Error listing objects: ", cause.as_str());
                let stack: Vec<Pending> = Vec::new();
                assert(stack_view(stack@) =~= Seq::empty());
                TreeWalk {
                    root_prefix,
                    stack,
                    current: WalkAction::Failed { error: S3Err { key: prefix, message } },
                }
            },
            (WalkAction::Fetch { key, path }, WalkEvent::Fetched { outcome }) => {
                match download_file(root_prefix.as_str(), key.as_str(), &outcome) {
                    Ok(_) => TreeWalk::take_up(root_prefix, stack),
                    Err(error) => {
                        let stack: Vec<Pending> = Vec::new();
                        assert(stack_view(stack@) =~= Seq::empty());
                        TreeWalk { root_prefix, stack, current: WalkAction::Failed { error } }
                    },
                }
            },
            (current, _) => TreeWalk { root_prefix, stack, current },
        }
    }
}

} // verus!
