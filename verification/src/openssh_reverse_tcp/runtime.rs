//! The private runtime directory that holds the control sockets.

use crate::failure::Failure;
use crate::paths::{
    copy_bytes, is_absolute, join_path, joined, path_is_absolute, paths_are_same, same_path,
};
use crate::step::Next;
use crate::text::{ascii_bytes, ascii_bytes_are_utf8};
use vstd::prelude::*;
use vstd::utf8::encode_utf8;

verus! {

/// What kind of entry a path names, without following symbolic links.
#[derive(Clone, Copy, PartialEq, Eq, Structural, Debug)]
pub enum EntryKind {
    Directory,
    Socket,
    Other,
}

/// An entry of the file system: its kind, owner, mode bits, and canonical path if that
/// could be determined.
pub struct Entry {
    pub kind: EntryKind,
    pub uid: u32,
    pub mode: u32,
    pub canonical: Option<Vec<u8>>,
}

/// What became of looking at a path.
pub enum EntryReply {
    Missing,
    Unreadable,
    Present(Entry),
}

/// The user and directory of the control sockets.
pub struct Runtime {
    pub uid: u32,
    pub directory: Vec<u8>,
}

/// The mathematical model of a runtime.
pub struct RuntimeModel {
    pub uid: u32,
    pub directory: Seq<u8>,
}

impl View for Runtime {
    type V = RuntimeModel;

    open spec fn view(&self) -> RuntimeModel {
        RuntimeModel { uid: self.uid, directory: self.directory@ }
    }
}

/// A directory of the user alone, reached without symbolic links.
pub open spec fn is_private_directory(entry: Entry, path: Seq<u8>, uid: u32) -> bool {
    &&& entry.kind == EntryKind::Directory
    &&& entry.uid == uid
    &&& entry.mode & 0o7777 == 0o700
    &&& entry.canonical matches Some(canonical) && same_path(canonical@, path)
}

/// Whether looking at a path found a private directory.
pub open spec fn private_directory(reply: EntryReply, path: Seq<u8>, uid: u32) -> Result<
    (),
    Failure,
> {
    match reply {
        EntryReply::Present(entry) => if is_private_directory(entry, path, uid) {
            Ok(())
        } else {
            Err(Failure::RuntimeDirectoryUnsafe)
        },
        _ => Err(Failure::RuntimeDirectoryUnsafe),
    }
}

/// Checks that looking at a path found a private directory.
pub fn validate_private_directory(reply: &EntryReply, path: &[u8], current_uid: u32) -> (result:
    Result<(), Failure>)
    ensures
        result == private_directory(*reply, path@, current_uid),
{
    match reply {
        EntryReply::Present(entry) => {
            if entry.kind != EntryKind::Directory || entry.uid != current_uid || entry.mode & 0o7777
                != 0o700 {
                return Err(Failure::RuntimeDirectoryUnsafe);
            }
            match &entry.canonical {
                Some(canonical) => if paths_are_same(canonical, path) {
                    Ok(())
                } else {
                    Err(Failure::RuntimeDirectoryUnsafe)
                },
                None => Err(Failure::RuntimeDirectoryUnsafe),
            }
        },
        _ => Err(Failure::RuntimeDirectoryUnsafe),
    }
}

/// A socket of the user alone.
pub open spec fn is_private_socket(entry: Entry, uid: u32) -> bool {
    entry.kind == EntryKind::Socket && entry.uid == uid && entry.mode & 0o077 == 0
}

/// Checks that an entry is a private socket.
pub fn validate_control_socket(entry: &Entry, current_uid: u32) -> (result: Result<(), Failure>)
    ensures
        result == (if is_private_socket(*entry, current_uid) {
            Ok::<(), Failure>(())
        } else {
            Err(Failure::ControlSocketUnsafe)
        }),
{
    if entry.kind != EntryKind::Socket || entry.uid != current_uid || entry.mode & 0o077 != 0 {
        return Err(Failure::ControlSocketUnsafe);
    }
    Ok(())
}

/// What is known while a private directory is being ensured.
pub struct DirectoryFacts {
    /// What was found at first.
    pub found: Option<EntryReply>,
    /// Whether the directory could be created, with mode 0700.
    pub created: Option<bool>,
    /// What was found after it was created.
    pub found_after: Option<EntryReply>,
}

impl DirectoryFacts {
    /// Nothing is known.
    pub open spec fn unknown() -> DirectoryFacts {
        DirectoryFacts {
            found: None,
            created: None,
            found_after: None,
        }
    }

    /// Nothing is known yet.
    pub fn new() -> (facts: DirectoryFacts)
        ensures
            facts == Self::unknown(),
    {
        DirectoryFacts {
            found: None,
            created: None,
            found_after: None,
        }
    }
}

/// What to do to ensure a private directory.
#[derive(Clone, Copy, PartialEq, Eq, Structural, Debug)]
pub enum DirectoryAction {
    Inspect,
    Create,
    InspectAgain,
}

/// What to do next to ensure a private directory.
pub type DirectoryStep = Next<DirectoryAction, Result<(), Failure>>;

/// What to do next to ensure that a path is a private directory.
pub open spec fn directory_step(facts: DirectoryFacts, path: Seq<u8>, uid: u32) -> DirectoryStep {
    match facts.found {
        None => Next::Act(DirectoryAction::Inspect),
        Some(EntryReply::Missing) => match (facts.created, facts.found_after) {
            (None, _) => Next::Act(DirectoryAction::Create),
            (Some(false), _) => Next::Done(Err(Failure::RuntimeDirectoryUnsafe)),
            (Some(true), None) => Next::Act(DirectoryAction::InspectAgain),
            (Some(true), Some(reply)) => Next::Done(
                private_directory(reply, path, uid),
            ),
        },
        Some(reply) => Next::Done(private_directory(reply, path, uid)),
    }
}

/// Decides what to do next to ensure that a path is a private directory. An entry that
/// is there already is only checked, never changed.
pub fn ensure_private_directory(facts: &DirectoryFacts, path: &[u8], current_uid: u32) -> (next:
    DirectoryStep)
    ensures
        next == directory_step(*facts, path@, current_uid),
{
    match &facts.found {
        None => Next::Act(DirectoryAction::Inspect),
        Some(EntryReply::Missing) => match (&facts.created, &facts.found_after) {
            (None, _) => Next::Act(DirectoryAction::Create),
            (Some(false), _) => Next::Done(Err(Failure::RuntimeDirectoryUnsafe)),
            (Some(true), None) => Next::Act(DirectoryAction::InspectAgain),
            (Some(true), Some(reply)) => Next::Done(
                validate_private_directory(reply, path, current_uid),
            ),
        },
        Some(reply) => Next::Done(
            validate_private_directory(reply, path, current_uid),
        ),
    }
}

/// The directories on the way to the control sockets.
#[derive(Clone, Copy, PartialEq, Eq, Structural, Debug)]
pub enum Place {
    /// The user's runtime directory.
    Root,
    /// The directory of this program in it.
    Application,
    /// The directory of this publisher in that one.
    Provider,
}

/// What is known while the runtime directory is being prepared or inspected.
pub struct RuntimeFacts {
    /// The current user, if that could be determined.
    pub user: Option<Option<u32>>,
    /// The value of `XDG_RUNTIME_DIR`, if it is set.
    pub root: Option<Option<Vec<u8>>>,
    /// What was found at the user's runtime directory.
    pub root_entry: Option<EntryReply>,
    /// What is known of the directory of this program.
    pub application: DirectoryFacts,
    /// What is known of the directory of this publisher.
    pub provider: DirectoryFacts,
}

impl RuntimeFacts {
    /// Nothing is known.
    pub open spec fn unknown() -> RuntimeFacts {
        RuntimeFacts {
            user: None,
            root: None,
            root_entry: None,
            application: DirectoryFacts::unknown(),
            provider: DirectoryFacts::unknown(),
        }
    }

    /// Nothing is known yet.
    pub fn new() -> (facts: RuntimeFacts)
        ensures
            facts == Self::unknown(),
    {
        RuntimeFacts {
            user: None,
            root: None,
            root_entry: None,
            application: DirectoryFacts::new(),
            provider: DirectoryFacts::new(),
        }
    }
}

/// What to do with the runtime directory.
pub enum RuntimeAction {
    /// Determine the current user.
    QueryUser,
    /// Read `XDG_RUNTIME_DIR`.
    QueryRoot,
    /// Look at a directory.
    Inspect(Place, Vec<u8>),
    /// Create a directory with mode 0700.
    Create(Place, Vec<u8>),
    /// Look at a directory that was just created.
    InspectAgain(Place, Vec<u8>),
}

/// The mathematical model of an action.
pub enum RuntimeActionModel {
    QueryUser,
    QueryRoot,
    Inspect(Place, Seq<u8>),
    Create(Place, Seq<u8>),
    InspectAgain(Place, Seq<u8>),
}

impl View for RuntimeAction {
    type V = RuntimeActionModel;

    open spec fn view(&self) -> RuntimeActionModel {
        match self {
            RuntimeAction::QueryUser => RuntimeActionModel::QueryUser,
            RuntimeAction::QueryRoot => RuntimeActionModel::QueryRoot,
            RuntimeAction::Inspect(place, path) => RuntimeActionModel::Inspect(*place, path@),
            RuntimeAction::Create(place, path) => RuntimeActionModel::Create(*place, path@),
            RuntimeAction::InspectAgain(place, path) => RuntimeActionModel::InspectAgain(
                *place,
                path@,
            ),
        }
    }
}

/// The mathematical model of what to do next.
pub type RuntimeStep = Next<RuntimeActionModel, Result<RuntimeModel, Failure>>;

/// The mathematical model of a result.
pub open spec fn runtime_result(result: Result<Runtime, Failure>) -> Result<RuntimeModel, Failure> {
    match result {
        Ok(runtime) => Ok(runtime@),
        Err(failure) => Err(failure),
    }
}

/// The mathematical model of what is decided next.
pub open spec fn runtime_model(next: Next<RuntimeAction, Result<Runtime, Failure>>) -> RuntimeStep {
    match next {
        Next::Act(action) => Next::Act(action@),
        Next::Done(result) => Next::Done(runtime_result(result)),
    }
}

/// The directory of this program below the user's runtime directory.
pub open spec fn application_path(root: Seq<u8>) -> Seq<u8> {
    joined(root, ascii_bytes("aequimuta"@))
}

/// The directory of this publisher below the user's runtime directory.
pub open spec fn provider_path(root: Seq<u8>) -> Seq<u8> {
    joined(application_path(root), ascii_bytes("openssh-reverse-tcp"@))
}

/// What to do next about the user and the user's runtime directory, while something is
/// unknown or wrong about them.
pub open spec fn root_step(facts: RuntimeFacts) -> Option<RuntimeStep> {
    match facts.user {
        None => Some(Next::Act(RuntimeActionModel::QueryUser)),
        Some(None) => Some(Next::Done(Err(Failure::RuntimeDirectoryUnsafe))),
        Some(Some(uid)) => match facts.root {
            None => Some(Next::Act(RuntimeActionModel::QueryRoot)),
            Some(None) => Some(Next::Done(Err(Failure::RuntimeDirectoryUnsafe))),
            Some(Some(root)) => if !is_absolute(root@) {
                Some(Next::Done(Err(Failure::RuntimeDirectoryUnsafe)))
            } else {
                match facts.root_entry {
                    None => Some(Next::Act(RuntimeActionModel::Inspect(Place::Root, root@))),
                    Some(reply) => match private_directory(reply, root@, uid) {
                        Ok(_) => None,
                        Err(failure) => Some(Next::Done(Err(failure))),
                    },
                }
            },
        },
    }
}

/// The known user.
pub open spec fn known_uid(facts: RuntimeFacts) -> u32 {
    facts.user->0->0
}

/// The known runtime directory of the user.
pub open spec fn known_root(facts: RuntimeFacts) -> Seq<u8> {
    facts.root->0->0@
}

/// The runtime of the known user.
pub open spec fn known_runtime(facts: RuntimeFacts) -> RuntimeModel {
    RuntimeModel { uid: known_uid(facts), directory: provider_path(known_root(facts)) }
}

/// Decides what to do next about the user and the user's runtime directory.
fn check_root(facts: &RuntimeFacts) -> (root: Result<
    (u32, &Vec<u8>),
    Next<RuntimeAction, Result<Runtime, Failure>>,
>)
    ensures
        match root {
            Ok((uid, root)) => root_step(*facts) is None && facts.user == Some(Some(uid))
                && facts.root == Some(Some(*root)),
            Err(next) => root_step(*facts) == Some(runtime_model(next)),
        },
{
    let uid: u32 = match &facts.user {
        None => {
            return Err(Next::Act(RuntimeAction::QueryUser));
        },
        Some(None) => {
            return Err(Next::Done(Err(Failure::RuntimeDirectoryUnsafe)));
        },
        Some(Some(uid)) => *uid,
    };
    let root = match &facts.root {
        None => {
            return Err(Next::Act(RuntimeAction::QueryRoot));
        },
        Some(None) => {
            return Err(Next::Done(Err(Failure::RuntimeDirectoryUnsafe)));
        },
        Some(Some(root)) => root,
    };
    if !path_is_absolute(root) {
        return Err(Next::Done(Err(Failure::RuntimeDirectoryUnsafe)));
    }
    match &facts.root_entry {
        None => Err(Next::Act(RuntimeAction::Inspect(Place::Root, copy_bytes(root)))),
        Some(reply) => match validate_private_directory(reply, root, uid) {
            Ok(_) => Ok((uid, root)),
            Err(failure) => Err(Next::Done(Err(failure))),
        },
    }
}

fn application_directory(root: &[u8]) -> (path: Vec<u8>)
    ensures
        path@ == application_path(root@),
{
    let name: [u8; 9] = [97, 101, 113, 117, 105, 109, 117, 116, 97];
    proof {
        reveal_strlit("aequimuta");
        assert(name@ =~= ascii_bytes("aequimuta"@));
    }
    join_path(root, name.as_slice())
}

fn provider_directory(root: &[u8]) -> (path: Vec<u8>)
    ensures
        path@ == provider_path(root@),
{
    let name: [u8; 19] = [
        111, 112, 101, 110, 115, 115, 104, 45, 114, 101, 118, 101, 114, 115, 101, 45, 116, 99, 112,
    ];
    proof {
        reveal_strlit("openssh-reverse-tcp");
        assert(name@ =~= ascii_bytes("openssh-reverse-tcp"@));
    }
    let application = application_directory(root);
    join_path(&application, name.as_slice())
}

/// The step that an action on a directory is, and `next` when the directory is fine.
pub open spec fn after_directory(
    action: DirectoryStep,
    place: Place,
    path: Seq<u8>,
    next: RuntimeStep,
) -> RuntimeStep {
    match action {
        Next::Act(DirectoryAction::Inspect) => Next::Act(RuntimeActionModel::Inspect(place, path)),
        Next::Act(DirectoryAction::Create) => Next::Act(RuntimeActionModel::Create(place, path)),
        Next::Act(DirectoryAction::InspectAgain) => Next::Act(
            RuntimeActionModel::InspectAgain(place, path),
        ),
        Next::Done(Ok(_)) => next,
        Next::Done(Err(failure)) => Next::Done(Err(failure)),
    }
}

/// What to do next to prepare the runtime directory.
pub open spec fn prepare_step(facts: RuntimeFacts) -> RuntimeStep {
    match root_step(facts) {
        Some(step) => step,
        None => {
            let uid = known_uid(facts);
            let application = application_path(known_root(facts));
            let provider = provider_path(known_root(facts));
            after_directory(
                directory_step(facts.application, application, uid),
                Place::Application,
                application,
                after_directory(
                    directory_step(facts.provider, provider, uid),
                    Place::Provider,
                    provider,
                    Next::Done(Ok(known_runtime(facts))),
                ),
            )
        },
    }
}

fn directory_blocks(action: DirectoryStep, place: Place, path: &Vec<u8>) -> (blocked: Option<
    Next<RuntimeAction, Result<Runtime, Failure>>,
>)
    ensures
        match blocked {
            Some(blocked) => forall|next: RuntimeStep| #[trigger]
                after_directory(action, place, path@, next) == runtime_model(blocked),
            None => action is Done && action->Done_0 is Ok,
        },
{
    match action {
        Next::Act(DirectoryAction::Inspect) => Some(
            Next::Act(RuntimeAction::Inspect(place, copy_bytes(path))),
        ),
        Next::Act(DirectoryAction::Create) => Some(
            Next::Act(RuntimeAction::Create(place, copy_bytes(path))),
        ),
        Next::Act(DirectoryAction::InspectAgain) => Some(
            Next::Act(RuntimeAction::InspectAgain(place, copy_bytes(path))),
        ),
        Next::Done(Ok(_)) => None,
        Next::Done(Err(failure)) => Some(Next::Done(Err(failure))),
    }
}

/// Decides what to do next to prepare the runtime directory: the user's must be there,
/// the two below it are created when they are missing.
pub fn prepare_runtime_directory(facts: &RuntimeFacts) -> (next: Next<
    RuntimeAction,
    Result<Runtime, Failure>,
>)
    ensures
        runtime_model(next) == prepare_step(*facts),
{
    let (uid, root) = match check_root(facts) {
        Ok(known) => known,
        Err(action) => {
            return action;
        },
    };
    let application = application_directory(root);
    let provider = provider_directory(root);
    if let Some(blocked) = directory_blocks(
        ensure_private_directory(&facts.application, &application, uid),
        Place::Application,
        &application,
    ) {
        return blocked;
    }
    if let Some(blocked) = directory_blocks(
        ensure_private_directory(&facts.provider, &provider, uid),
        Place::Provider,
        &provider,
    ) {
        return blocked;
    }
    Next::Done(Ok(Runtime { uid, directory: provider }))
}

/// What to do next to inspect the runtime directory.
pub open spec fn inspect_step(facts: RuntimeFacts) -> RuntimeStep {
    match root_step(facts) {
        Some(step) => step,
        None => {
            let uid = known_uid(facts);
            let application = application_path(known_root(facts));
            let provider = provider_path(known_root(facts));
            match facts.application.found {
                None => Next::Act(RuntimeActionModel::Inspect(Place::Application, application)),
                Some(EntryReply::Missing) => Next::Done(Ok(known_runtime(facts))),
                Some(reply) => match private_directory(reply, application, uid) {
                    Err(failure) => Next::Done(Err(failure)),
                    Ok(_) => match facts.provider.found {
                        None => Next::Act(RuntimeActionModel::Inspect(Place::Provider, provider)),
                        Some(EntryReply::Missing) => Next::Done(Ok(known_runtime(facts))),
                        Some(reply) => match private_directory(reply, provider, uid) {
                            Err(failure) => Next::Done(Err(failure)),
                            Ok(_) => Next::Done(Ok(known_runtime(facts))),
                        },
                    },
                },
            }
        },
    }
}

/// Decides what to do next to inspect the runtime directory: the user's must be there,
/// the two below it may be missing. Nothing is created.
pub fn inspect_runtime(facts: &RuntimeFacts) -> (next: Next<
    RuntimeAction,
    Result<Runtime, Failure>,
>)
    ensures
        runtime_model(next) == inspect_step(*facts),
{
    let (uid, root) = match check_root(facts) {
        Ok(known) => known,
        Err(action) => {
            return action;
        },
    };
    let application = application_directory(root);
    let provider = provider_directory(root);
    match &facts.application.found {
        None => Next::Act(RuntimeAction::Inspect(Place::Application, application)),
        Some(EntryReply::Missing) => Next::Done(
            Ok(Runtime { uid, directory: provider }),
        ),
        Some(reply) => match validate_private_directory(reply, &application, uid) {
            Err(failure) => Next::Done(Err(failure)),
            Ok(_) => match &facts.provider.found {
                None => Next::Act(RuntimeAction::Inspect(Place::Provider, provider)),
                Some(EntryReply::Missing) => Next::Done(
                    Ok(Runtime { uid, directory: provider }),
                ),
                Some(reply) => match validate_private_directory(reply, &provider, uid) {
                    Err(failure) => Next::Done(Err(failure)),
                    Ok(_) => Next::Done(Ok(Runtime { uid, directory: provider })),
                },
            },
        },
    }
}

/// Inspecting the runtime directory never creates anything.
pub proof fn inspection_creates_nothing(facts: RuntimeFacts)
    ensures
        !(inspect_step(facts) matches Next::Act(action) && action is Create),
{
}

/// A directory is created only where nothing was found, and whatever was found is
/// never replaced.
pub proof fn preparation_creates_only_what_is_missing(
    facts: RuntimeFacts,
    place: Place,
    path: Seq<u8>,
)
    requires
        prepare_step(facts) == RuntimeStep::Act(RuntimeActionModel::Create(place, path)),
    ensures
        place != Place::Root,
        root_step(facts) is None,
        place == Place::Application ==> path == application_path(known_root(facts))
            && facts.application.found == Some(EntryReply::Missing),
        place == Place::Provider ==> path == provider_path(known_root(facts))
            && facts.provider.found == Some(EntryReply::Missing),
{
}

/// A prepared runtime directory was found private, and so was every directory above it
/// up to the user's.
pub proof fn prepared_directories_are_private(facts: RuntimeFacts, runtime: RuntimeModel)
    requires
        prepare_step(facts) == RuntimeStep::Done(Ok(runtime)),
    ensures
        runtime == known_runtime(facts),
        is_absolute(known_root(facts)),
        facts.root_entry matches Some(EntryReply::Present(entry)) && is_private_directory(
            entry,
            known_root(facts),
            runtime.uid,
        ),
        directory_step(facts.application, application_path(known_root(facts)), runtime.uid)
            == DirectoryStep::Done(Ok::<(), Failure>(())),
        directory_step(facts.provider, runtime.directory, runtime.uid) == DirectoryStep::Done(
            Ok::<(), Failure>(()),
        ),
{
}

/// A directory is found fine only when what was seen of it last is private.
pub proof fn fine_directories_are_private(facts: DirectoryFacts, path: Seq<u8>, uid: u32)
    requires
        directory_step(facts, path, uid) == DirectoryStep::Done(Ok::<(), Failure>(())),
    ensures
        match facts.found {
            Some(EntryReply::Present(entry)) => is_private_directory(entry, path, uid),
            Some(EntryReply::Missing) => facts.created == Some(true) && (
            facts.found_after matches Some(EntryReply::Present(entry)) && is_private_directory(
                entry,
                path,
                uid,
            )),
            _ => false,
        },
{
}

/// Every action asks for something that is not known yet, so preparing and inspecting the
/// runtime directory take none twice.
pub proof fn runtime_steps_make_progress(facts: RuntimeFacts)
    ensures
        asks_unknown(facts, prepare_step(facts)),
        asks_unknown(facts, inspect_step(facts)),
{
}

/// Whether a step asks for something that is not known yet, or finishes.
pub open spec fn asks_unknown(facts: RuntimeFacts, step: RuntimeStep) -> bool {
    match step {
        Next::Act(RuntimeActionModel::QueryUser) => facts.user is None,
        Next::Act(RuntimeActionModel::QueryRoot) => facts.root is None,
        Next::Act(RuntimeActionModel::Inspect(place, _)) => match place {
            Place::Root => facts.root_entry is None,
            Place::Application => facts.application.found is None,
            Place::Provider => facts.provider.found is None,
        },
        Next::Act(RuntimeActionModel::Create(place, _)) => match place {
            Place::Root => false,
            Place::Application => facts.application.created is None,
            Place::Provider => facts.provider.created is None,
        },
        Next::Act(RuntimeActionModel::InspectAgain(place, _)) => match place {
            Place::Root => false,
            Place::Application => facts.application.found_after is None,
            Place::Provider => facts.provider.found_after is None,
        },
        Next::Done(_) => true,
    }
}

/// What was seen last of a directory.
pub open spec fn seen_last(facts: DirectoryFacts) -> Option<EntryReply> {
    if facts.found == Some(EntryReply::Missing) {
        facts.found_after
    } else {
        facts.found
    }
}

/// Whether all that is known in a later run of the runtime directory is as it was seen
/// last before.
pub open spec fn runtime_unchanged(first: RuntimeFacts, again: RuntimeFacts) -> bool {
    &&& again.user is Some ==> again.user == first.user
    &&& again.root is Some ==> again.root == first.root
    &&& again.root_entry is Some ==> again.root_entry == first.root_entry
    &&& again.application.found is Some ==> again.application.found == seen_last(first.application)
    &&& again.provider.found is Some ==> again.provider.found == seen_last(first.provider)
}

/// A runtime directory that was prepared is found prepared and safe as long as it does not
/// change, and nothing is created for it again.
pub proof fn prepared_directories_are_found_again(
    first: RuntimeFacts,
    again: RuntimeFacts,
    runtime: RuntimeModel,
)
    requires
        prepare_step(first) == RuntimeStep::Done(Ok(runtime)),
        runtime_unchanged(first, again),
    ensures
        match prepare_step(again) {
            Next::Act(action) => !(action is Create),
            Next::Done(result) => result == Ok::<RuntimeModel, Failure>(runtime),
        },
        match inspect_step(again) {
            Next::Act(action) => !(action is Create),
            Next::Done(result) => result == Ok::<RuntimeModel, Failure>(runtime),
        },
{
    prepared_directories_are_private(first, runtime);
    fine_directories_are_private(
        first.application,
        application_path(known_root(first)),
        runtime.uid,
    );
    fine_directories_are_private(first.provider, runtime.directory, runtime.uid);
}

/// A directory is private exactly when it is one, belongs to the user, has mode 0700 and no
/// special bit, and is its own canonical path. A socket is private exactly when it is one,
/// belongs to the user, and gives nothing to group or others.
pub proof fn private_entries_belong_to_the_user(entry: Entry, path: Seq<u8>, uid: u32)
    ensures
        private_directory(EntryReply::Present(entry), path, uid) is Ok <==> {
            &&& entry.kind == EntryKind::Directory
            &&& entry.uid == uid
            &&& entry.mode & 4095 == 448
            &&& entry.canonical matches Some(canonical)
            &&& same_path(canonical@, path)
        },
        private_directory(EntryReply::Missing, path, uid) is Err,
        private_directory(EntryReply::Unreadable, path, uid) is Err,
        private_directory(EntryReply::Present(entry), path, uid) matches Err(failure) ==> failure
            == Failure::RuntimeDirectoryUnsafe,
        is_private_socket(entry, uid) <==> entry.kind == EntryKind::Socket && entry.uid == uid
            && entry.mode & 63 == 0,
{
}

/// The directory of the control sockets is `aequimuta/openssh-reverse-tcp` below the user's
/// runtime directory.
pub proof fn runtime_directories_have_fixed_names(root: Seq<u8>)
    ensures
        application_path(root) == joined(root, encode_utf8("aequimuta"@)),
        provider_path(root) == joined(
            joined(root, encode_utf8("aequimuta"@)),
            encode_utf8("openssh-reverse-tcp"@),
        ),
        root.len() > 0 && root.last() != 47 ==> provider_path(root) == root + encode_utf8(
            "/aequimuta/openssh-reverse-tcp"@,
        ),
{
    reveal_strlit("aequimuta");
    reveal_strlit("openssh-reverse-tcp");
    reveal_strlit("/aequimuta/openssh-reverse-tcp");
    ascii_bytes_are_utf8("aequimuta"@);
    ascii_bytes_are_utf8("openssh-reverse-tcp"@);
    ascii_bytes_are_utf8("/aequimuta/openssh-reverse-tcp"@);
    if root.len() > 0 && root.last() != 47 {
        assert(provider_path(root) =~= root + ascii_bytes("/aequimuta/openssh-reverse-tcp"@));
    }
}

/// Whether something that is known makes the runtime directory unsafe: no user, no absolute
/// runtime directory of the user, one that is not private, or an entry that is not private
/// where one of the two below it belongs.
pub open spec fn something_is_unsafe(facts: RuntimeFacts, inspecting: bool) -> bool {
    ||| facts.user == Some(None::<u32>)
    ||| facts.user is Some && facts.root matches Some(None)
    ||| facts.user is Some && (facts.root matches Some(Some(root)) && !is_absolute(root@))
    ||| facts.user is Some && facts.root is Some && (facts.root_entry matches Some(reply)
        && private_directory(reply, known_root(facts), known_uid(facts)) is Err)
    ||| directory_is_unsafe(
        facts.application,
        application_path(known_root(facts)),
        known_uid(facts),
        inspecting,
    )
    ||| directory_is_unsafe(
        facts.provider,
        provider_path(known_root(facts)),
        known_uid(facts),
        inspecting,
    )
}

/// Whether something that is known makes a directory unsafe: what was found there is not
/// private, or nothing was found and it could not be made private.
pub open spec fn directory_is_unsafe(
    facts: DirectoryFacts,
    path: Seq<u8>,
    uid: u32,
    inspecting: bool,
) -> bool {
    ||| facts.found matches Some(reply) && reply != EntryReply::Missing && private_directory(
        reply,
        path,
        uid,
    ) is Err
    ||| !inspecting && facts.found == Some(EntryReply::Missing) && (facts.created == Some(false) || (
    facts.found_after matches Some(reply) && private_directory(reply, path, uid) is Err))
}

/// Preparing and inspecting the runtime directory fail only because something is unsafe, and
/// always as that.
pub proof fn runtime_failures_are_unsafe_directories(facts: RuntimeFacts)
    ensures
        prepare_step(facts) matches Next::Done(Err(failure)) ==> failure
            == Failure::RuntimeDirectoryUnsafe && something_is_unsafe(facts, false),
        inspect_step(facts) matches Next::Done(Err(failure)) ==> failure
            == Failure::RuntimeDirectoryUnsafe && something_is_unsafe(facts, true),
        facts.user == Some(None::<u32>) ==> prepare_step(facts) is Done && inspect_step(
            facts,
        ) is Done,
{
}

/// When the user's runtime directory is absolute and private and both directories below it
/// are private, they are found prepared and safe, with nothing left to be done.
pub proof fn private_directories_are_accepted(facts: RuntimeFacts, uid: u32, root: Vec<u8>)
    requires
        facts.user == Some(Some(uid)),
        facts.root == Some(Some(root)),
        is_absolute(root@),
        facts.root_entry matches Some(reply) && private_directory(reply, root@, uid) is Ok,
        facts.application.found matches Some(reply) && private_directory(
            reply,
            application_path(root@),
            uid,
        ) is Ok,
        facts.provider.found matches Some(reply) && private_directory(
            reply,
            provider_path(root@),
            uid,
        ) is Ok,
    ensures
        prepare_step(facts) == RuntimeStep::Done(
            Ok(RuntimeModel { uid, directory: provider_path(root@) }),
        ),
        inspect_step(facts) == RuntimeStep::Done(
            Ok(RuntimeModel { uid, directory: provider_path(root@) }),
        ),
{
}

/// A missing directory below the user's does not fail an inspection, and is made, private, and
/// looked at again by a preparation.
pub proof fn missing_directories_are_made(facts: RuntimeFacts, uid: u32, root: Vec<u8>)
    requires
        facts.user == Some(Some(uid)),
        facts.root == Some(Some(root)),
        is_absolute(root@),
        facts.root_entry matches Some(reply) && private_directory(reply, root@, uid) is Ok,
        facts.application.found == Some(EntryReply::Missing),
    ensures
        inspect_step(facts) == RuntimeStep::Done(
            Ok(RuntimeModel { uid, directory: provider_path(root@) }),
        ),
        facts.application.created is None ==> prepare_step(facts) == RuntimeStep::Act(
            RuntimeActionModel::Create(Place::Application, application_path(root@)),
        ),
        facts.application.created == Some(true) && facts.application.found_after is None
            ==> prepare_step(facts) == RuntimeStep::Act(
            RuntimeActionModel::InspectAgain(Place::Application, application_path(root@)),
        ),
        facts.application.created == Some(false) ==> prepare_step(facts) == RuntimeStep::Done(
            Err(Failure::RuntimeDirectoryUnsafe),
        ),
{
}

/// Every place is looked at and made at its own path.
pub proof fn places_have_their_paths(facts: RuntimeFacts)
    ensures
        match prepare_step(facts) {
            Next::Act(RuntimeActionModel::Inspect(place, path)) => path == path_of(facts, place),
            Next::Act(RuntimeActionModel::Create(place, path)) => path == path_of(facts, place),
            Next::Act(RuntimeActionModel::InspectAgain(place, path)) => path == path_of(
                facts,
                place,
            ),
            _ => true,
        },
        match inspect_step(facts) {
            Next::Act(RuntimeActionModel::Inspect(place, path)) => path == path_of(facts, place),
            Next::Act(RuntimeActionModel::Create(_, _)) => false,
            Next::Act(RuntimeActionModel::InspectAgain(_, _)) => false,
            _ => true,
        },
{
}

/// The path of a place.
pub open spec fn path_of(facts: RuntimeFacts, place: Place) -> Seq<u8> {
    match place {
        Place::Root => known_root(facts),
        Place::Application => joined(known_root(facts), ascii_bytes("aequimuta"@)),
        Place::Provider => joined(
            joined(known_root(facts), ascii_bytes("aequimuta"@)),
            ascii_bytes("openssh-reverse-tcp"@),
        ),
    }
}

/// The user is determined first, then the user's runtime directory, which is then looked at.
pub proof fn users_come_before_directories(facts: RuntimeFacts, uid: u32, root: Vec<u8>)
    ensures
        facts.user is None ==> prepare_step(facts) == RuntimeStep::Act(
            RuntimeActionModel::QueryUser,
        ) && inspect_step(facts) == RuntimeStep::Act(RuntimeActionModel::QueryUser),
        facts.user == Some(Some(uid)) && facts.root is None ==> prepare_step(facts)
            == RuntimeStep::Act(RuntimeActionModel::QueryRoot) && inspect_step(facts)
            == RuntimeStep::Act(RuntimeActionModel::QueryRoot),
        facts.user == Some(Some(uid)) && facts.root == Some(Some(root)) && is_absolute(root@)
            && facts.root_entry is None ==> prepare_step(facts) == RuntimeStep::Act(
            RuntimeActionModel::Inspect(Place::Root, root@),
        ) && inspect_step(facts) == RuntimeStep::Act(
            RuntimeActionModel::Inspect(Place::Root, root@),
        ),
        known_runtime(facts).uid == facts.user->0->0,
        known_runtime(facts).directory == provider_path(facts.root->0->0@),
{
}

/// The model of what is decided is what is asked for, with its place and path, or the user and
/// the directory.
pub proof fn runtimes_are_shown_as_they_are(
    runtime: Runtime,
    place: Place,
    path: Vec<u8>,
    action: RuntimeAction,
    failure: Failure,
)
    ensures
        runtime@.uid == runtime.uid,
        runtime@.directory == runtime.directory@,
        RuntimeAction::QueryUser@ == RuntimeActionModel::QueryUser,
        RuntimeAction::QueryRoot@ == RuntimeActionModel::QueryRoot,
        RuntimeAction::Inspect(place, path)@ == RuntimeActionModel::Inspect(place, path@),
        RuntimeAction::Create(place, path)@ == RuntimeActionModel::Create(place, path@),
        RuntimeAction::InspectAgain(place, path)@ == RuntimeActionModel::InspectAgain(place, path@),
        runtime_model(Next::Act(action)) == RuntimeStep::Act(action@),
        runtime_model(Next::Done(Ok(runtime))) == RuntimeStep::Done(Ok(runtime@)),
        runtime_model(Next::Done(Err(failure))) == RuntimeStep::Done(Err(failure)),
{
}

/// Once the directory of the program is private, that of the publisher below it is treated
/// alike: it is looked at, and where it is missing it is made by a preparation and left alone
/// by an inspection.
pub proof fn publisher_directories_are_made_below(facts: RuntimeFacts, uid: u32, root: Vec<u8>)
    requires
        facts.user == Some(Some(uid)),
        facts.root == Some(Some(root)),
        is_absolute(root@),
        facts.root_entry matches Some(reply) && private_directory(reply, root@, uid) is Ok,
    ensures
        facts.application.found is None ==> prepare_step(facts) == RuntimeStep::Act(
            RuntimeActionModel::Inspect(Place::Application, application_path(root@)),
        ) && inspect_step(facts) == RuntimeStep::Act(
            RuntimeActionModel::Inspect(Place::Application, application_path(root@)),
        ),
        (facts.application.found matches Some(reply) && private_directory(
            reply,
            application_path(root@),
            uid,
        ) is Ok) ==> {
            &&& facts.provider.found is None ==> prepare_step(facts) == RuntimeStep::Act(
                RuntimeActionModel::Inspect(Place::Provider, provider_path(root@)),
            ) && inspect_step(facts) == RuntimeStep::Act(
                RuntimeActionModel::Inspect(Place::Provider, provider_path(root@)),
            )
            &&& facts.provider.found == Some(EntryReply::Missing) ==> inspect_step(facts)
                == RuntimeStep::Done(
                Ok(RuntimeModel { uid, directory: provider_path(root@) }),
            ) && (facts.provider.created is None ==> prepare_step(facts) == RuntimeStep::Act(
                RuntimeActionModel::Create(Place::Provider, provider_path(root@)),
            )) && (facts.provider.created == Some(true) && facts.provider.found_after is None
                ==> prepare_step(facts) == RuntimeStep::Act(
                RuntimeActionModel::InspectAgain(Place::Provider, provider_path(root@)),
            ))
        },
{
}

} // verus!
