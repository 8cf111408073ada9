//! Persistent storage of OAuth credentials.
//!
//! Credentials live in the secret store of the operating system, the keyring.
//! Where no keyring is available they live in a file that only the user can
//! read. This module says where things are kept, which of the two places is
//! asked in which order, what text is stored and what is told about failures;
//! reaching the two places is left to the caller.

use rmcp::transport::auth::StoredCredentials;
use vstd::prelude::*;
use vstd::string::*;

use crate::auth::credentials;
use crate::auth::credentials::{from_json, to_json, CredentialsView};
use crate::session::CredentialKey;
use crate::text;

verus! {

/// Service identifier used in the OS keyring. Another value would orphan all
/// tokens stored so far.
pub const KEYRING_SERVICE: &'static str = "io.github.hyper-mcp-rs.hyper-mcp-remote";

/// The directory, under the data directory of the user, that holds the files.
pub const CREDENTIALS_DIR: &'static str = "credentials";

/// The places where the credentials of one server and resource are kept.
#[derive(Debug)]
pub struct SecureCredentialStore {
    /// The keyring account. It is stable across launches as long as server
    /// and resource stay the same; request headers do not matter.
    pub account: String,
    /// The name of the file that takes the place of the keyring.
    pub file_name: String,
    /// The name of the file that is written before it replaces the other.
    pub temporary_name: String,
}

impl SecureCredentialStore {
    /// The places that belong to `key`.
    pub fn new(key: &CredentialKey) -> (r: SecureCredentialStore)
        ensures
            r.account@ == key@,
            r.file_name@ == key@ + ".json"@,
            r.temporary_name@ == key@ + ".tmp"@,
    {
        let mut file_name: String = key.as_str().to_string();
        file_name.append(".json");
        let mut temporary_name: String = key.as_str().to_string();
        temporary_name.append(".tmp");
        SecureCredentialStore { account: key.as_str().to_string(), file_name, temporary_name }
    }
}

// ---------------------------------------------------------------------------
// Errors
// ---------------------------------------------------------------------------

/// Why the store could not do its work.
#[derive(Debug, PartialEq, Eq)]
pub enum StoreError {
    /// The file could not be read.
    Unreadable { cause: String },
    /// The file could not be written.
    Unwritable { cause: String },
    /// The file could not be removed.
    Unremovable { cause: String },
    /// What is stored is no credentials.
    Corrupt { cause: String },
    /// The credentials could not be encoded.
    Unencodable { cause: String },
}

/// The view of a [`StoreError`].
pub enum StoreErrorView {
    Unreadable { cause: Seq<char> },
    Unwritable { cause: Seq<char> },
    Unremovable { cause: Seq<char> },
    Corrupt { cause: Seq<char> },
    Unencodable { cause: Seq<char> },
}

impl View for StoreError {
    type V = StoreErrorView;

    open spec fn view(&self) -> StoreErrorView {
        match self {
            StoreError::Unreadable { cause } => StoreErrorView::Unreadable { cause: cause@ },
            StoreError::Unwritable { cause } => StoreErrorView::Unwritable { cause: cause@ },
            StoreError::Unremovable { cause } => StoreErrorView::Unremovable { cause: cause@ },
            StoreError::Corrupt { cause } => StoreErrorView::Corrupt { cause: cause@ },
            StoreError::Unencodable { cause } => StoreErrorView::Unencodable { cause: cause@ },
        }
    }
}

impl StoreErrorView {
    /// What the user is told.
    pub open spec fn message(self) -> Seq<char> {
        match self {
            StoreErrorView::Unreadable { cause } => "failed to read credentials file: "@ + cause,
            StoreErrorView::Unwritable { cause } => "file fallback write failed: "@ + cause,
            StoreErrorView::Unremovable { cause } => "failed to remove credentials file: "@ + cause,
            StoreErrorView::Corrupt { cause } => "failed to deserialize stored credentials: "@
                + cause,
            StoreErrorView::Unencodable { cause } => "failed to serialize credentials: "@ + cause,
        }
    }
}

impl StoreError {
    /// What the user is told.
    pub fn message(&self) -> (r: String)
        ensures
            r@ == self@.message(),
    {
        let mut out: String = String::new();
        match self {
            StoreError::Unreadable { cause } => {
                out.append("failed to read credentials file: ");
                out.append(cause.as_str());
            },
            StoreError::Unwritable { cause } => {
                out.append("file fallback write failed: ");
                out.append(cause.as_str());
            },
            StoreError::Unremovable { cause } => {
                out.append("failed to remove credentials file: ");
                out.append(cause.as_str());
            },
            StoreError::Corrupt { cause } => {
                out.append("failed to deserialize stored credentials: ");
                out.append(cause.as_str());
            },
            StoreError::Unencodable { cause } => {
                out.append("failed to serialize credentials: ");
                out.append(cause.as_str());
            },
        }
        assert(out@ =~= self@.message());
        out
    }
}

// ---------------------------------------------------------------------------
// Tasks
// ---------------------------------------------------------------------------

/// What is next to be done in one of the two places.
#[derive(Debug)]
pub enum Task {
    /// Read the keyring entry.
    ReadEntry,
    /// Read the file.
    ReadFile,
    /// Set the keyring entry.
    WriteEntry { data: String },
    /// Write the file.
    WriteFile { data: String },
    /// Remove the file, so that there are no two sources of truth.
    DropFile,
    /// Delete the keyring entry.
    DeleteEntry,
    /// Remove the file.
    RemoveFile,
    /// Nothing: this is what came of it.
    Finished(Outcome),
}

/// What came of reading, writing or clearing.
#[derive(Debug, PartialEq, Eq)]
pub enum Outcome {
    /// What is stored, if anything.
    Value(Option<String>),
    /// The data is stored.
    Stored,
    /// The store is cleared, as far as it can be told.
    Cleared,
    /// The work could not be done.
    Failed(StoreError),
}

/// What came of one task.
#[derive(Debug)]
pub enum Reply {
    /// This was read.
    Found(String),
    /// There is nothing to read or to remove.
    Missing,
    /// It was written, deleted or removed.
    Done,
    /// It did not work, for this reason.
    Failed { cause: String },
}

/// The view of a [`Task`].
pub enum TaskView {
    ReadEntry,
    ReadFile,
    WriteEntry { data: Seq<char> },
    WriteFile { data: Seq<char> },
    DropFile,
    DeleteEntry,
    RemoveFile,
    Finished(OutcomeView),
}

/// The view of an [`Outcome`].
pub enum OutcomeView {
    Value(Option<Seq<char>>),
    Stored,
    Cleared,
    Failed(StoreErrorView),
}

/// The view of a [`Reply`].
pub enum ReplyView {
    Found(Seq<char>),
    Missing,
    Done,
    Failed { cause: Seq<char> },
}

impl View for Outcome {
    type V = OutcomeView;

    open spec fn view(&self) -> OutcomeView {
        match self {
            Outcome::Value(v) => OutcomeView::Value(text::opt_text(*v)),
            Outcome::Stored => OutcomeView::Stored,
            Outcome::Cleared => OutcomeView::Cleared,
            Outcome::Failed(e) => OutcomeView::Failed(e@),
        }
    }
}

impl View for Task {
    type V = TaskView;

    open spec fn view(&self) -> TaskView {
        match self {
            Task::ReadEntry => TaskView::ReadEntry,
            Task::ReadFile => TaskView::ReadFile,
            Task::WriteEntry { data } => TaskView::WriteEntry { data: data@ },
            Task::WriteFile { data } => TaskView::WriteFile { data: data@ },
            Task::DropFile => TaskView::DropFile,
            Task::DeleteEntry => TaskView::DeleteEntry,
            Task::RemoveFile => TaskView::RemoveFile,
            Task::Finished(o) => TaskView::Finished(o@),
        }
    }
}

impl View for Reply {
    type V = ReplyView;

    open spec fn view(&self) -> ReplyView {
        match self {
            Reply::Found(s) => ReplyView::Found(s@),
            Reply::Missing => ReplyView::Missing,
            Reply::Done => ReplyView::Done,
            Reply::Failed { cause } => ReplyView::Failed { cause: cause@ },
        }
    }
}

impl TaskView {
    /// Is `reply` one that this step of the work can end in?
    pub open spec fn answered_by(self, reply: ReplyView) -> bool {
        match self {
            TaskView::ReadEntry => !(reply is Done),
            TaskView::ReadFile => !(reply is Done),
            TaskView::WriteEntry { .. } => reply is Done || reply is Failed,
            TaskView::WriteFile { .. } => reply is Done || reply is Failed,
            TaskView::DropFile => !(reply is Found),
            TaskView::DeleteEntry => !(reply is Found),
            TaskView::RemoveFile => !(reply is Found),
            TaskView::Finished(_) => false,
        }
    }

    /// What comes next. The file takes the place of a keyring that has no
    /// entry or does not work, and what becomes of the keyring entry or of a
    /// superseded file never fails the whole.
    pub open spec fn after(self, reply: ReplyView) -> TaskView {
        match self {
            TaskView::ReadEntry => match reply {
                ReplyView::Found(s) => TaskView::Finished(OutcomeView::Value(Some(s))),
                _ => TaskView::ReadFile,
            },
            TaskView::ReadFile => TaskView::Finished(
                match reply {
                    ReplyView::Found(s) => OutcomeView::Value(Some(s)),
                    ReplyView::Failed { cause } => OutcomeView::Failed(
                        StoreErrorView::Unreadable { cause },
                    ),
                    _ => OutcomeView::Value(None),
                },
            ),
            TaskView::WriteEntry { data } => if reply is Done {
                TaskView::DropFile
            } else {
                TaskView::WriteFile { data }
            },
            TaskView::WriteFile { .. } => TaskView::Finished(
                match reply {
                    ReplyView::Failed { cause } => OutcomeView::Failed(
                        StoreErrorView::Unwritable { cause },
                    ),
                    _ => OutcomeView::Stored,
                },
            ),
            TaskView::DropFile => TaskView::Finished(OutcomeView::Stored),
            TaskView::DeleteEntry => TaskView::RemoveFile,
            TaskView::RemoveFile => TaskView::Finished(
                match reply {
                    ReplyView::Failed { cause } => OutcomeView::Failed(
                        StoreErrorView::Unremovable { cause },
                    ),
                    _ => OutcomeView::Cleared,
                },
            ),
            TaskView::Finished(_) => self,
        }
    }
}

impl SecureCredentialStore {
    /// Starts to read what is stored.
    pub fn read_raw(&self) -> (r: Task)
        ensures
            r@ == TaskView::ReadEntry,
    {
        Task::ReadEntry
    }

    /// Starts to store `data`.
    pub fn write_raw(&self, data: &str) -> (r: Task)
        ensures
            r@ == (TaskView::WriteEntry { data: data@ }),
    {
        Task::WriteEntry { data: data.to_string() }
    }

    /// Starts to wipe what is stored, from both places.
    pub fn clear_sync(&self) -> (r: Task)
        ensures
            r@ == TaskView::DeleteEntry,
    {
        Task::DeleteEntry
    }
}

impl Task {
    /// Is `reply` one that this step of the work can end in?
    pub fn accepts(&self, reply: &Reply) -> (r: bool)
        ensures
            r == self@.answered_by(reply@),
    {
        match self {
            Task::ReadEntry | Task::ReadFile => !matches!(reply, Reply::Done),
            Task::WriteEntry { .. } | Task::WriteFile { .. } => {
                matches!(reply, Reply::Done | Reply::Failed { .. })
            },
            Task::DropFile | Task::DeleteEntry | Task::RemoveFile => {
                !matches!(reply, Reply::Found(_))
            },
            Task::Finished(_) => false,
        }
    }

    /// Takes note of what came of the task, and says what comes next.
    pub fn advance(self, reply: Reply) -> (r: Task)
        requires
            self@.answered_by(reply@),
        ensures
            r@ == self@.after(reply@),
    {
        match self {
            Task::ReadEntry => match reply {
                Reply::Found(s) => Task::Finished(Outcome::Value(Some(s))),
                _ => Task::ReadFile,
            },
            Task::ReadFile => Task::Finished(
                match reply {
                    Reply::Found(s) => Outcome::Value(Some(s)),
                    Reply::Failed { cause } => Outcome::Failed(StoreError::Unreadable { cause }),
                    _ => Outcome::Value(None),
                },
            ),
            Task::WriteEntry { data } => match reply {
                Reply::Done => Task::DropFile,
                _ => Task::WriteFile { data },
            },
            Task::WriteFile { .. } => Task::Finished(
                match reply {
                    Reply::Failed { cause } => Outcome::Failed(StoreError::Unwritable { cause }),
                    _ => Outcome::Stored,
                },
            ),
            Task::DropFile => Task::Finished(Outcome::Stored),
            Task::DeleteEntry => Task::RemoveFile,
            Task::RemoveFile => Task::Finished(
                match reply {
                    Reply::Failed { cause } => Outcome::Failed(StoreError::Unremovable { cause }),
                    _ => Outcome::Cleared,
                },
            ),
            Task::Finished(o) => Task::Finished(o),
        }
    }
}

// ---------------------------------------------------------------------------
// Credentials
// ---------------------------------------------------------------------------

/// Credentials that were decoded from what is stored, or the error that they
/// could not be. `C` is a credential record.
pub fn decoded<C>(result: Result<C, String>) -> (r: Result<C, StoreError>)
    ensures
        match result {
            Ok(c) => r == Ok::<C, StoreError>(c),
            Err(cause) => r == Err::<C, StoreError>(StoreError::Corrupt { cause }),
        },
{
    match result {
        Ok(c) => Ok(c),
        Err(cause) => Err(StoreError::Corrupt { cause }),
    }
}

/// Credentials that were encoded to be stored, or the error that they could
/// not be.
pub fn encoded(result: Result<String, String>) -> (r: Result<String, StoreError>)
    ensures
        match result {
            Ok(s) => r == Ok::<String, StoreError>(s),
            Err(cause) => r == Err::<String, StoreError>(StoreError::Unencodable { cause }),
        },
{
    match result {
        Ok(s) => Ok(s),
        Err(cause) => Err(StoreError::Unencodable { cause }),
    }
}

/// The credentials that a stored text stands for.
pub open spec fn decoded_text(raw: Seq<char>) -> Result<CredentialsView, StoreErrorView> {
    match credentials::credentials_in(raw) {
        Ok(c) => Ok(c),
        Err(cause) => Err(StoreErrorView::Corrupt { cause }),
    }
}

/// The credentials that a stored text stands for, or the error that it is no
/// credentials.
pub fn decode(raw: &str) -> (r: Result<StoredCredentials, StoreError>)
    ensures
        match r {
            Ok(record) => decoded_text(raw@) == Ok::<_, StoreErrorView>(credentials::credentials_of(record)),
            Err(e) => decoded_text(raw@) == Err::<CredentialsView, _>(e@),
        },
{
    decoded(from_json(raw))
}

/// A text that stands for the credentials, to be stored.
pub fn encode(record: &StoredCredentials) -> (r: Result<String, StoreError>)
    ensures
        credentials::survives(credentials::credentials_of(*record)) ==> r is Ok,
        match r {
            Ok(raw) => credentials::stands_for(raw@, credentials::credentials_of(*record)),
            Err(e) => e@ is Unencodable,
        },
{
    encoded(to_json(record))
}

impl OutcomeView {
    /// The credentials that were read, if there are any.
    pub open spec fn credentials(self) -> Result<Option<CredentialsView>, StoreErrorView> {
        match self {
            OutcomeView::Value(Some(raw)) => match decoded_text(raw) {
                Ok(c) => Ok(Some(c)),
                Err(e) => Err(e),
            },
            OutcomeView::Failed(e) => Err(e),
            _ => Ok(None),
        }
    }
}

impl SecureCredentialStore {
    /// The credentials that are stored, if there are any. `outcome` is what
    /// came of [`Self::read_raw`].
    pub fn load(&self, outcome: Outcome) -> (r: Result<Option<StoredCredentials>, StoreError>)
        ensures
            match r {
                Ok(Some(record)) => outcome@.credentials() == Ok::<_, StoreErrorView>(
                    Some(credentials::credentials_of(record)),
                ),
                Ok(None) => outcome@.credentials() == Ok::<Option<CredentialsView>, StoreErrorView>(
                    None,
                ),
                Err(e) => outcome@.credentials() == Err::<Option<CredentialsView>, _>(e@),
            },
    {
        match outcome {
            Outcome::Value(Some(raw)) => match decode(raw.as_str()) {
                Ok(record) => Ok(Some(record)),
                Err(e) => Err(e),
            },
            Outcome::Failed(e) => Err(e),
            _ => Ok(None),
        }
    }

    /// Starts to store the credentials.
    pub fn save(&self, record: &StoredCredentials) -> (r: Result<Task, StoreError>)
        ensures
            credentials::survives(credentials::credentials_of(*record)) ==> r is Ok,
            match r {
                Ok(task) => task@ matches TaskView::WriteEntry { data } && credentials::stands_for(
                    data,
                    credentials::credentials_of(*record),
                ),
                Err(e) => e@ is Unencodable,
            },
    {
        match encode(record) {
            Ok(raw) => Ok(self.write_raw(raw.as_str())),
            Err(e) => Err(e),
        }
    }

    /// Were the credentials stored? `outcome` is what came of [`Self::save`].
    pub fn saved(&self, outcome: Outcome) -> (r: Result<(), StoreError>)
        ensures
            match outcome@ {
                OutcomeView::Failed(e) => r matches Err(error) && error@ == e,
                _ => r is Ok,
            },
    {
        match outcome {
            Outcome::Failed(e) => Err(e),
            _ => Ok(()),
        }
    }

    /// Was the store cleared? `outcome` is what came of
    /// [`Self::clear_sync`]; the error is for the user to read.
    pub fn clear(&self, outcome: Outcome) -> (r: Result<(), String>)
        ensures
            match outcome@ {
                OutcomeView::Failed(e) => r matches Err(message) && message@ == "clear failed: "@
                    + e.message(),
                _ => r is Ok,
            },
    {
        match outcome {
            Outcome::Failed(e) => {
                let mut message: String = "clear failed: ".to_string();
                message.append(e.message().as_str());
                Err(message)
            },
            _ => Ok(()),
        }
    }
}

// ---------------------------------------------------------------------------
// The two places
// ---------------------------------------------------------------------------

/// What the two places hold, and what works there.
pub struct Places {
    /// The keyring entry.
    pub entry: Option<Seq<char>>,
    /// The text of the file.
    pub file: Option<Seq<char>>,
    /// Can the entry be read?
    pub entry_readable: bool,
    /// Can the entry be set?
    pub entry_writable: bool,
    /// Can the entry be deleted?
    pub entry_deletable: bool,
    /// Can the file be read, written and removed?
    pub file_usable: bool,
    /// What is said where something does not work.
    pub cause: Seq<char>,
}

impl Places {
    /// Nothing works in a way that a later read would miss `data` once it was
    /// written: a keyring that can be set can be read, and one that cannot be
    /// set does not hold another entry that can be read.
    pub open spec fn nothing_shadows(self, data: Seq<char>) -> bool {
        if self.entry_writable {
            self.entry_readable
        } else {
            !self.entry_readable || self.entry is None || self.entry == Some(data)
        }
    }

    /// The reply to a task, and the places afterwards.
    pub open spec fn served(self, task: TaskView) -> (Places, ReplyView) {
        let failed = ReplyView::Failed { cause: self.cause };
        match task {
            TaskView::ReadEntry => (
                self,
                if !self.entry_readable {
                    failed
                } else {
                    match self.entry {
                        Some(s) => ReplyView::Found(s),
                        None => ReplyView::Missing,
                    }
                },
            ),
            TaskView::ReadFile => (
                self,
                if !self.file_usable {
                    failed
                } else {
                    match self.file {
                        Some(s) => ReplyView::Found(s),
                        None => ReplyView::Missing,
                    }
                },
            ),
            TaskView::WriteEntry { data } => if self.entry_writable {
                (Places { entry: Some(data), ..self }, ReplyView::Done)
            } else {
                (self, failed)
            },
            TaskView::WriteFile { data } => if self.file_usable {
                (Places { file: Some(data), ..self }, ReplyView::Done)
            } else {
                (self, failed)
            },
            TaskView::DeleteEntry => if !self.entry_deletable {
                (self, failed)
            } else if self.entry is Some {
                (Places { entry: None, ..self }, ReplyView::Done)
            } else {
                (self, ReplyView::Missing)
            },
            TaskView::DropFile | TaskView::RemoveFile => if self.file is None {
                (self, ReplyView::Missing)
            } else if self.file_usable {
                (Places { file: None, ..self }, ReplyView::Done)
            } else {
                (self, failed)
            },
            TaskView::Finished(_) => (self, ReplyView::Done),
        }
    }

    /// The places and the outcome once a task and all that follows are done.
    pub open spec fn finished(self, task: TaskView) -> (Places, OutcomeView)
        decreases tasks_ahead(task),
    {
        match task {
            TaskView::Finished(outcome) => (self, outcome),
            _ => {
                let (places, reply) = self.served(task);
                places.finished(task.after(reply))
            },
        }
    }
}

/// How many tasks lie ahead at most.
pub open spec fn tasks_ahead(task: TaskView) -> nat {
    match task {
        TaskView::ReadEntry => 2,
        TaskView::WriteEntry { .. } => 2,
        TaskView::DeleteEntry => 2,
        TaskView::Finished(_) => 0,
        _ => 1,
    }
}

// ---------------------------------------------------------------------------
// Laws
// ---------------------------------------------------------------------------

/// What was stored is what is read, unless another keyring entry shadows it.
pub proof fn law_read_gives_what_was_written(places: Places, data: Seq<char>)
    requires
        places.nothing_shadows(data),
        places.finished(TaskView::WriteEntry { data }).1 is Stored,
    ensures
        places.finished(TaskView::WriteEntry { data }).0.finished(TaskView::ReadEntry).1
            == OutcomeView::Value(Some(data)),
{
    reveal_with_fuel(Places::finished, 4);
}

/// Credentials that were stored are loaded without a loss, as long as they
/// survive as a text.
pub proof fn law_stored_credentials_are_loaded(places: Places, data: Seq<char>, c: CredentialsView)
    requires
        credentials::stands_for(data, c),
        credentials::survives(c),
        places.nothing_shadows(data),
        places.finished(TaskView::WriteEntry { data }).1 is Stored,
    ensures
        places.finished(TaskView::WriteEntry { data }).0.finished(
            TaskView::ReadEntry,
        ).1.credentials() == Ok::<_, StoreErrorView>(Some(c)),
{
    law_read_gives_what_was_written(places, data);
}

/// After clearing, no credentials are loaded, unless a keyring entry could be
/// read but not deleted.
pub proof fn law_no_credentials_after_clearing(places: Places)
    requires
        places.entry_deletable || !places.entry_readable || places.entry is None,
        places.file_usable,
    ensures
        places.finished(TaskView::DeleteEntry).0.finished(TaskView::ReadEntry).1.credentials()
            == Ok::<Option<CredentialsView>, StoreErrorView>(None),
{
    law_nothing_is_read_after_clearing(places);
}

/// Storing succeeds as long as one of the two places works.
pub proof fn law_one_place_is_enough(places: Places, data: Seq<char>)
    ensures
        places.finished(TaskView::WriteEntry { data }).1 is Stored <==> places.entry_writable
            || places.file_usable,
{
    reveal_with_fuel(Places::finished, 4);
}

/// After a write to the keyring no older copy is left in the file.
pub proof fn law_one_source_of_truth(places: Places, data: Seq<char>)
    requires
        places.entry_writable,
        places.file_usable,
    ensures
        places.finished(TaskView::WriteEntry { data }).0.entry == Some(data),
        places.finished(TaskView::WriteEntry { data }).0.file is None,
{
    reveal_with_fuel(Places::finished, 4);
}

/// After clearing, nothing is read, unless a keyring entry could be read but
/// not deleted.
pub proof fn law_nothing_is_read_after_clearing(places: Places)
    requires
        places.entry_deletable || !places.entry_readable || places.entry is None,
        places.file_usable,
    ensures
        places.finished(TaskView::DeleteEntry).1 is Cleared,
        places.finished(TaskView::DeleteEntry).0.finished(TaskView::ReadEntry).1
            == OutcomeView::Value(None),
{
    reveal_with_fuel(Places::finished, 4);
}

/// A failing keyring does not keep the file alive.
pub proof fn law_clearing_reaches_the_file(places: Places)
    requires
        places.file_usable,
    ensures
        places.finished(TaskView::DeleteEntry).0.file is None,
{
    reveal_with_fuel(Places::finished, 4);
}

/// Clearing an empty store succeeds, also twice in a row.
pub proof fn law_clearing_is_idempotent(places: Places)
    requires
        places.entry is None,
        places.file is None,
    ensures
        places.finished(TaskView::DeleteEntry) == (places, OutcomeView::Cleared),
        places.finished(TaskView::DeleteEntry).0.finished(TaskView::DeleteEntry) == (
            places,
            OutcomeView::Cleared,
        ),
{
    reveal_with_fuel(Places::finished, 4);
}

/// Reading changes nothing, and an empty store reads as empty.
pub proof fn law_reading_changes_nothing(places: Places)
    ensures
        places.finished(TaskView::ReadEntry).0 == places,
        places.entry is None && places.file is None && places.file_usable ==> places.finished(
            TaskView::ReadEntry,
        ).1 == OutcomeView::Value(None),
{
    reveal_with_fuel(Places::finished, 4);
}

/// Every reply of the two places is one that the task can end in.
pub proof fn law_the_places_answer(places: Places, task: TaskView)
    requires
        !(task is Finished),
    ensures
        task.answered_by(places.served(task).1),
{
}

/// What is read: the keyring entry where there is one, else the file where
/// there is one, else nothing. That the keyring fails does not matter; that
/// the file cannot be read is reported.
pub proof fn law_the_keyring_goes_before_the_file(first: ReplyView, second: ReplyView)
    requires
        !(first is Done),
        !(second is Done),
    ensures
        ({
            let next = TaskView::ReadEntry.after(first);
            let end = TaskView::ReadFile.after(second);
            &&& first matches ReplyView::Found(s) ==> next == TaskView::Finished(
                OutcomeView::Value(Some(s)),
            )
            &&& !(first is Found) ==> next is ReadFile
            &&& second matches ReplyView::Found(s) ==> end == TaskView::Finished(
                OutcomeView::Value(Some(s)),
            )
            &&& second is Missing ==> end == TaskView::Finished(OutcomeView::Value(None))
            &&& second matches ReplyView::Failed { cause } ==> end == TaskView::Finished(
                OutcomeView::Failed(StoreErrorView::Unreadable { cause }),
            )
        }),
{
}

/// What is written: the keyring entry, after which the file goes; or, where
/// that does not work, the same data in the file. Only that neither works is
/// reported.
pub proof fn law_the_file_takes_what_the_keyring_refuses(
    data: Seq<char>,
    reply: ReplyView,
    cause: Seq<char>,
)
    ensures
        ({
            let write = TaskView::WriteEntry { data };
            let fallback = TaskView::WriteFile { data };
            let broken = ReplyView::Failed { cause };
            &&& write.after(ReplyView::Done) is DropFile
            &&& write.after(broken) == fallback
            &&& TaskView::DropFile.after(reply) == TaskView::Finished(OutcomeView::Stored)
            &&& fallback.after(ReplyView::Done) == TaskView::Finished(OutcomeView::Stored)
            &&& fallback.after(broken) == TaskView::Finished(
                OutcomeView::Failed(StoreErrorView::Unwritable { cause }),
            )
        }),
{
}

/// What is cleared: the keyring entry and then the file, whatever became of
/// the entry. Only that the file stays is reported.
pub proof fn law_both_places_are_cleared(reply: ReplyView, cause: Seq<char>)
    ensures
        ({
            let broken = ReplyView::Failed { cause };
            &&& TaskView::DeleteEntry.after(reply) is RemoveFile
            &&& TaskView::RemoveFile.after(ReplyView::Done) == TaskView::Finished(
                OutcomeView::Cleared,
            )
            &&& TaskView::RemoveFile.after(ReplyView::Missing) == TaskView::Finished(
                OutcomeView::Cleared,
            )
            &&& TaskView::RemoveFile.after(broken) == TaskView::Finished(
                OutcomeView::Failed(StoreErrorView::Unremovable { cause }),
            )
        }),
{
}

/// Which replies a task can end in.
pub proof fn law_which_replies_fit(task: TaskView, text: Seq<char>)
    ensures
        ({
            let reads = task is ReadEntry || task is ReadFile;
            let writes = task is WriteEntry || task is WriteFile;
            let removes = task is DropFile || task is DeleteEntry || task is RemoveFile;
            &&& task.answered_by(ReplyView::Found(text)) <==> reads
            &&& task.answered_by(ReplyView::Missing) <==> reads || removes
            &&& task.answered_by(ReplyView::Done) <==> writes || removes
            &&& task.answered_by(ReplyView::Failed { cause: text }) <==> !(task is Finished)
        }),
{
}

/// What is loaded is what the text that was read stands for, or nothing where
/// nothing was read; a text that is no credentials, and a failure to read,
/// are reported with their cause.
pub proof fn law_what_is_loaded(raw: Seq<char>, error: StoreErrorView)
    ensures
        credentials::credentials_in(raw) matches Ok(c) ==> OutcomeView::Value(
            Some(raw),
        ).credentials() == Ok::<_, StoreErrorView>(Some(c)),
        credentials::credentials_in(raw) matches Err(cause) ==> OutcomeView::Value(
            Some(raw),
        ).credentials() == Err::<Option<CredentialsView>, _>(StoreErrorView::Corrupt { cause }),
        OutcomeView::Value(None).credentials() == Ok::<Option<CredentialsView>, StoreErrorView>(
            None,
        ),
        OutcomeView::Failed(error).credentials() == Err::<Option<CredentialsView>, _>(error),
        credentials::credentials_in(raw) matches Ok(c) ==> decoded_text(raw) == Ok::<
            _,
            StoreErrorView,
        >(c),
        credentials::credentials_in(raw) matches Err(cause) ==> decoded_text(raw) == Err::<
            CredentialsView,
            _,
        >(StoreErrorView::Corrupt { cause }),
{
}

/// What the user is told says what did not work, and why.
pub proof fn law_store_errors_say_what_is_wrong(cause: Seq<char>)
    ensures
        ({
            let unreadable = StoreErrorView::Unreadable { cause };
            let unwritable = StoreErrorView::Unwritable { cause };
            let unremovable = StoreErrorView::Unremovable { cause };
            let corrupt = StoreErrorView::Corrupt { cause };
            let unencodable = StoreErrorView::Unencodable { cause };
            &&& unreadable.message() == "failed to read credentials file: "@ + cause
            &&& unwritable.message() == "file fallback write failed: "@ + cause
            &&& unremovable.message() == "failed to remove credentials file: "@ + cause
            &&& corrupt.message() == "failed to deserialize stored credentials: "@ + cause
            &&& unencodable.message() == "failed to serialize credentials: "@ + cause
        }),
{
}

/// Tasks, replies, outcomes and errors are seen with all that they hold.
pub proof fn law_tasks_are_seen_whole(
    task: Task,
    reply: Reply,
    outcome: Outcome,
    error: StoreError,
)
    ensures
        match task {
            Task::ReadEntry => task@ is ReadEntry,
            Task::ReadFile => task@ is ReadFile,
            Task::WriteEntry { data } => task@ is WriteEntry && task@->WriteEntry_data == data@,
            Task::WriteFile { data } => task@ is WriteFile && task@->WriteFile_data == data@,
            Task::DropFile => task@ is DropFile,
            Task::DeleteEntry => task@ is DeleteEntry,
            Task::RemoveFile => task@ is RemoveFile,
            Task::Finished(o) => task@ is Finished && task@->0 == o@,
        },
        match reply {
            Reply::Found(s) => reply@ is Found && reply@->0 == s@,
            Reply::Missing => reply@ is Missing,
            Reply::Done => reply@ is Done,
            Reply::Failed { cause } => reply@ is Failed && reply@->cause == cause@,
        },
        match outcome {
            Outcome::Value(Some(s)) => outcome@ is Value && outcome@->Value_0 == Some(s@),
            Outcome::Value(None) => outcome@ is Value && outcome@->Value_0 is None,
            Outcome::Stored => outcome@ is Stored,
            Outcome::Cleared => outcome@ is Cleared,
            Outcome::Failed(e) => outcome@ is Failed && outcome@->Failed_0 == e@,
        },
        match error {
            StoreError::Unreadable { cause } => error@ is Unreadable && error@->Unreadable_cause
                == cause@,
            StoreError::Unwritable { cause } => error@ is Unwritable && error@->Unwritable_cause
                == cause@,
            StoreError::Unremovable { cause } => error@ is Unremovable
                && error@->Unremovable_cause == cause@,
            StoreError::Corrupt { cause } => error@ is Corrupt && error@->Corrupt_cause == cause@,
            StoreError::Unencodable { cause } => error@ is Unencodable
                && error@->Unencodable_cause == cause@,
        },
{
}

} // verus!
