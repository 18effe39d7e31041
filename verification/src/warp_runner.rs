use vstd::prelude::*;
use std::collections::HashMap;

verus! {

broadcast use vstd::std_specs::hash::group_hash_axioms;

/// Starts the task that manages Warp: it may be started once only.
pub struct WarpRunner {
    ran_once: bool,
}

impl WarpRunner {
    pub closed spec fn has_run(&self) -> bool {
        self.ran_once
    }

    /// A runner that has not been started.
    pub fn new() -> (r: Self)
        ensures
            !r.has_run(),
    {
        WarpRunner { ran_once: false }
    }

    /// Marks the runner as started; starting it twice is a programming error
    /// that aborts the program, so it is excluded by the precondition. The
    /// caller then spawns the task.
    pub fn run(&mut self)
        requires
            !old(self).has_run(),
        ensures
            final(self).has_run(),
    {
        self.ran_once = true;
    }
}

/// Why unlocking the key store failed.
#[derive(Clone, Copy, Debug, PartialEq, Eq, Structural)]
pub enum UnlockError {
    /// The passphrase is wrong.
    Decryption,
    /// Any other failure, which may pass.
    Other,
}

/// What to do after an attempt to unlock the key store.
#[derive(Clone, Copy, Debug, PartialEq, Eq, Structural)]
pub enum UnlockStep {
    /// The store is unlocked.
    Unlocked,
    /// Fail at once with the error.
    Fail,
    /// Wait a second, then try again.
    SleepThenRetry,
    /// Wait a second, then fail with the error: the attempts are used up.
    SleepThenFail,
}

/// The number of attempts that unlocking, and enabling autosave, are given.
pub const LOGIN_ATTEMPTS: u8 = 5;

/// The step after an attempt, from the number of attempts left.
pub open spec fn unlock_step(counter: u8, result: Result<(), UnlockError>) -> (u8, UnlockStep) {
    match result {
        Ok(_) => (counter, UnlockStep::Unlocked),
        Err(UnlockError::Decryption) => (counter, UnlockStep::Fail),
        Err(UnlockError::Other) => {
            let c: u8 = if counter > 0 {
                (counter - 1) as u8
            } else {
                0
            };
            (c, if c == 0 {
                UnlockStep::SleepThenFail
            } else {
                UnlockStep::SleepThenRetry
            })
        },
    }
}

/// Counts the attempts to unlock the key store with a passphrase.
pub struct UnlockRetry {
    pub counter: u8,
}

impl UnlockRetry {
    /// A fresh count: five attempts.
    pub fn new() -> (r: Self)
        ensures
            r.counter == LOGIN_ATTEMPTS,
    {
        UnlockRetry { counter: LOGIN_ATTEMPTS }
    }

    /// Decides what follows an attempt: a wrong passphrase fails at once,
    /// another error is retried after a second until the attempts run out.
    pub fn on_result(&mut self, result: Result<(), UnlockError>) -> (step: UnlockStep)
        ensures
            (final(self).counter, step) == unlock_step(old(self).counter, result),
            result is Ok ==> step == UnlockStep::Unlocked && final(self).counter == old(
                self,
            ).counter,
            result == Err::<(), UnlockError>(UnlockError::Decryption) ==> step == UnlockStep::Fail
                && final(self).counter == old(self).counter,
            result == Err::<(), UnlockError>(UnlockError::Other) ==> ({
                &&& final(self).counter == (if old(self).counter > 0 {
                    old(self).counter - 1
                } else {
                    0
                })
                &&& (step == UnlockStep::SleepThenFail) == (final(self).counter == 0)
                &&& (step == UnlockStep::SleepThenRetry) == (final(self).counter != 0)
            }),
    {
        match result {
            Ok(_) => UnlockStep::Unlocked,
            Err(UnlockError::Decryption) => UnlockStep::Fail,
            Err(UnlockError::Other) => {
                self.counter = self.counter.saturating_sub(1);
                if self.counter == 0 {
                    UnlockStep::SleepThenFail
                } else {
                    UnlockStep::SleepThenRetry
                }
            },
        }
    }
}

/// Each retry uses up an attempt: the store is tried at most as many times
/// as there are attempts left, and a fresh count allows five attempts.
pub proof fn lemma_unlock_attempts_bounded(counter: u8, result: Result<(), UnlockError>)
    ensures
        unlock_step(counter, result).1 == UnlockStep::SleepThenRetry ==> unlock_step(
            counter,
            result,
        ).0 < counter && unlock_step(counter, result).0 >= 1,
        counter <= 1 && result == Err::<(), UnlockError>(UnlockError::Other) ==> unlock_step(
            counter,
            result,
        ).1 == UnlockStep::SleepThenFail,
{
}

/// A successful unlock always unlocks, whatever number of attempts is left
/// after the failures before it, and a wrong passphrase always fails at once.
pub proof fn lemma_success_unlocks_after_any_retries(counter: u8)
    ensures
        unlock_step(counter, Ok(())) == (counter, UnlockStep::Unlocked),
        unlock_step(counter, Err(UnlockError::Decryption)) == (counter, UnlockStep::Fail),
{
}

/// Five failures in a row that may pass end the login: the fifth one fails.
pub proof fn lemma_fifth_failure_ends_unlock()
    ensures
        ({
            let e = Err::<(), UnlockError>(UnlockError::Other);
            let (c1, s1) = unlock_step(LOGIN_ATTEMPTS, e);
            let (c2, s2) = unlock_step(c1, e);
            let (c3, s3) = unlock_step(c2, e);
            let (c4, s4) = unlock_step(c3, e);
            let (c5, s5) = unlock_step(c4, e);
            &&& s1 == UnlockStep::SleepThenRetry
            &&& s2 == UnlockStep::SleepThenRetry
            &&& s3 == UnlockStep::SleepThenRetry
            &&& s4 == UnlockStep::SleepThenRetry
            &&& s5 == UnlockStep::SleepThenFail
        }),
{
}

/// What to do after checking whether autosave of the key store is enabled.
#[derive(Clone, Copy, Debug, PartialEq, Eq, Structural)]
pub enum AutosaveStep {
    /// Autosave is on.
    Done,
    /// Ask for autosave again, wait, and check again.
    Retry,
    /// Ask for autosave again, wait, and fail: the store cannot be saved.
    RetryThenFail,
}

/// Counts the checks of autosave.
pub struct AutosaveRetry {
    pub counter: u8,
}

impl AutosaveRetry {
    /// A fresh count: five checks.
    pub fn new() -> (r: Self)
        ensures
            r.counter == LOGIN_ATTEMPTS,
    {
        AutosaveRetry { counter: LOGIN_ATTEMPTS }
    }

    /// Decides what follows a check of autosave.
    pub fn on_check(&mut self, enabled: bool) -> (step: AutosaveStep)
        ensures
            enabled ==> step == AutosaveStep::Done && final(self).counter == old(self).counter,
            !enabled ==> final(self).counter == (if old(self).counter > 0 {
                old(self).counter - 1
            } else {
                0
            }),
            !enabled ==> (step == AutosaveStep::RetryThenFail <==> final(self).counter == 0),
            !enabled ==> (step == AutosaveStep::Retry <==> final(self).counter != 0),
    {
        if enabled {
            AutosaveStep::Done
        } else {
            self.counter = self.counter.saturating_sub(1);
            if self.counter == 0 {
                AutosaveStep::RetryThenFail
            } else {
                AutosaveStep::Retry
            }
        }
    }
}

/// Why logging in failed once the key store is unlocked.
#[derive(Clone, Copy, Debug, PartialEq, Eq, Structural)]
pub enum LoginFailure {
    /// The key store could not be given its file, or autosave stayed off.
    CannotSaveTesseract,
}

/// The key store must have a file once it was given one.
pub fn check_tesseract_file(has_file: bool) -> (r: Result<(), LoginFailure>)
    ensures
        has_file ==> r is Ok,
        !has_file ==> r == Err::<(), LoginFailure>(LoginFailure::CannotSaveTesseract),
{
    if has_file {
        Ok(())
    } else {
        Err(LoginFailure::CannotSaveTesseract)
    }
}

/// A command that reaches the runner before the user has logged in.
pub enum LoginCommand {
    CreateIdentity { username: String, passphrase: String },
    TryLogIn { passphrase: String },
    KeyExists { key: String },
    /// Any other command, which is of no use before login.
    Other,
}

/// The first thing the runner does for a command before login.
pub enum LoginPlan {
    /// Log in with the passphrase, clearing the key store first when an
    /// identity is created; then go on with `after_login`.
    LogIn { passphrase: String, clear_tesseract: bool, create_username: Option<String> },
    /// Answer whether the key store holds the key.
    CheckKey { key: String },
    /// Ignore the command.
    Ignore,
}

/// Decides how a command is handled before login.
pub fn plan_login_command(cmd: LoginCommand) -> (r: LoginPlan)
    ensures
        match cmd {
            LoginCommand::CreateIdentity { username, passphrase } => r == LoginPlan::LogIn {
                passphrase,
                clear_tesseract: true,
                create_username: Some(username),
            },
            LoginCommand::TryLogIn { passphrase } => r == LoginPlan::LogIn {
                passphrase,
                clear_tesseract: false,
                create_username: None,
            },
            LoginCommand::KeyExists { key } => r == LoginPlan::CheckKey { key },
            LoginCommand::Other => r is Ignore,
        },
{
    match cmd {
        LoginCommand::CreateIdentity { username, passphrase } => LoginPlan::LogIn {
            passphrase,
            clear_tesseract: true,
            create_username: Some(username),
        },
        LoginCommand::TryLogIn { passphrase } => LoginPlan::LogIn {
            passphrase,
            clear_tesseract: false,
            create_username: None,
        },
        LoginCommand::KeyExists { key } => LoginPlan::CheckKey { key },
        LoginCommand::Other => LoginPlan::Ignore,
    }
}

/// What follows a login attempt.
pub enum AfterLogin {
    /// Answer the command with the error and wait for the next command.
    ReplyErrorAndWait,
    /// Logged in: stop waiting, without an answer.
    Finish,
    /// Create the identity with this username, then go on with
    /// `after_create_identity`.
    CreateIdentity(String),
}

/// Decides what follows a login attempt for a command: a failure is answered
/// and the runner keeps waiting; a plain login ends the wait; creating an
/// identity continues with its creation.
pub fn after_login(create_username: Option<String>, login_ok: bool) -> (r: AfterLogin)
    ensures
        !login_ok ==> r == AfterLogin::ReplyErrorAndWait,
        login_ok ==> match create_username {
            Some(u) => r == AfterLogin::CreateIdentity(u),
            None => r == AfterLogin::Finish,
        },
{
    if !login_ok {
        AfterLogin::ReplyErrorAndWait
    } else {
        match create_username {
            Some(u) => AfterLogin::CreateIdentity(u),
            None => AfterLogin::Finish,
        }
    }
}

/// What follows the creation of an identity.
#[derive(Clone, Copy, Debug, PartialEq, Eq, Structural)]
pub enum AfterCreate {
    /// Save the key store, answer success and stop waiting.
    SaveReplyOkAndFinish,
    /// Answer the error and wait for the next command.
    ReplyErrorAndWait,
}

/// Decides what follows the creation of an identity.
pub fn after_create_identity(created: bool) -> (r: AfterCreate)
    ensures
        created ==> r == AfterCreate::SaveReplyOkAndFinish,
        !created ==> r == AfterCreate::ReplyErrorAndWait,
{
    if created {
        AfterCreate::SaveReplyOkAndFinish
    } else {
        AfterCreate::ReplyErrorAndWait
    }
}

/// The conversation streams that are being listened to, by conversation id,
/// each with the handle of its task.
pub struct Manager<H> {
    handles: HashMap<u128, H>,
}

impl<H> Manager<H> {
    /// The handles, by conversation id.
    pub closed spec fn streams(&self) -> Map<u128, H> {
        self.handles@
    }

    /// No stream is listened to.
    pub fn new() -> (r: Self)
        ensures
            r.streams() == Map::<u128, H>::empty(),
    {
        Manager { handles: HashMap::new() }
    }

    /// Records the task listening to a conversation. A task that listened to
    /// the same conversation before is returned, for the caller to abort.
    pub fn add_stream(&mut self, conv_id: u128, handle: H) -> (replaced: Option<H>)
        ensures
            final(self).streams() == old(self).streams().insert(conv_id, handle),
            match replaced {
                Some(h) => old(self).streams().contains_key(conv_id) && h == old(
                    self,
                ).streams()[conv_id],
                None => !old(self).streams().contains_key(conv_id),
            },
    {
        self.handles.insert(conv_id, handle)
    }

    /// Stops listening to a conversation: its task is returned, for the
    /// caller to abort.
    pub fn remove_stream(&mut self, conv_id: u128) -> (removed: Option<H>)
        ensures
            final(self).streams() == old(self).streams().remove(conv_id),
            match removed {
                Some(h) => old(self).streams().contains_key(conv_id) && h == old(
                    self,
                ).streams()[conv_id],
                None => !old(self).streams().contains_key(conv_id),
            },
    {
        self.handles.remove(&conv_id)
    }

    /// Stops listening to every conversation: all tasks are returned, for the
    /// caller to abort.
    pub fn take_all(&mut self) -> (all: HashMap<u128, H>)
        ensures
            all@ == old(self).streams(),
            final(self).streams() == Map::<u128, H>::empty(),
    {
        let mut empty: HashMap<u128, H> = HashMap::new();
        std::mem::swap(&mut empty, &mut self.handles);
        empty
    }
}

/// A stream that was added is found again, and removing it leaves the other
/// streams as they were.
pub proof fn lemma_add_then_remove<H>(streams: Map<u128, H>, conv_id: u128, handle: H)
    requires
        !streams.contains_key(conv_id),
    ensures
        streams.insert(conv_id, handle)[conv_id] == handle,
        streams.insert(conv_id, handle).remove(conv_id) == streams,
{
    assert(streams.insert(conv_id, handle).remove(conv_id) =~= streams);
}

/// A change to the streams that are listened to.
pub enum StreamOp<H> {
    Add(u128, H),
    Remove(u128),
}

/// The streams after applying `ops` in order to no stream, as `add_stream`
/// and `remove_stream` change them.
pub open spec fn streams_after<H>(ops: Seq<StreamOp<H>>) -> Map<u128, H>
    decreases ops.len(),
{
    if ops.len() == 0 {
        Map::empty()
    } else {
        let before = streams_after(ops.drop_last());
        match ops.last() {
            StreamOp::Add(c, h) => before.insert(c, h),
            StreamOp::Remove(c) => before.remove(c),
        }
    }
}

/// The conversation that an operation is about.
pub open spec fn op_conv<H>(op: StreamOp<H>) -> u128 {
    match op {
        StreamOp::Add(c, _) => c,
        StreamOp::Remove(c) => c,
    }
}

/// The position of the last operation on conversation `c`, if any.
pub open spec fn last_op_on<H>(ops: Seq<StreamOp<H>>, c: u128) -> Option<int>
    decreases ops.len(),
{
    if ops.len() == 0 {
        None
    } else if op_conv(ops.last()) == c {
        Some(ops.len() - 1)
    } else {
        last_op_on(ops.drop_last(), c)
    }
}

/// After any sequence of adds and removes, a conversation is listened to
/// exactly when its last operation was an add, and then with the task of
/// that add: every task that a later add replaced or a remove took out is
/// no longer kept (the methods hand it back for the caller to abort).
pub proof fn lemma_streams_follow_last_op<H>(ops: Seq<StreamOp<H>>, c: u128)
    ensures
        streams_after(ops).contains_key(c) <==> (last_op_on(ops, c) matches Some(i)
            && ops[i] is Add),
        last_op_on(ops, c) matches Some(i) ==> (ops[i] matches StreamOp::Add(_, h)
            ==> streams_after(ops)[c] == h),
    decreases ops.len(),
{
    if ops.len() > 0 {
        lemma_streams_follow_last_op(ops.drop_last(), c);
        if op_conv(ops.last()) != c {
            if let Some(i) = last_op_on(ops.drop_last(), c) {
                lemma_last_op_in_range(ops.drop_last(), c);
                assert(ops[i] == ops.drop_last()[i]);
            }
        }
    }
}

proof fn lemma_last_op_in_range<H>(ops: Seq<StreamOp<H>>, c: u128)
    ensures
        last_op_on(ops, c) matches Some(i) ==> 0 <= i < ops.len(),
    decreases ops.len(),
{
    if ops.len() > 0 && op_conv(ops.last()) != c {
        lemma_last_op_in_range(ops.drop_last(), c);
    }
}

/// An event that the runner hands to the interface.
pub enum WarpEvent<R, M, P> {
    RayGun(R),
    Message(M),
    MultiPass(P),
}

/// A command that the interface hands to the runner.
pub enum WarpCmd<T, M, R, C> {
    Tesseract(T),
    MultiPass(M),
    RayGun(R),
    Constellation(C),
}

impl<T, M, R, C> WarpCmd<T, M, R, C> {
    /// The text of the command, given the text of its inner command: the
    /// kind and the inner command in braces, except for storage commands,
    /// which are shown as they are.
    pub fn display_with(&self, inner: &str) -> (r: String)
        ensures
            self is Tesseract ==> r@ == seq!['T', 'e', 's', 's', 'e', 'r', 'a', 'c', 't', ' ', '{', ' ']
                + inner@ + seq![' ', '}', ' '],
            self is MultiPass ==> r@ == seq!['M', 'u', 'l', 't', 'i', 'P', 'a', 's', 's', ' ', '{', ' ']
                + inner@ + seq![' ', '}', ' '],
            self is RayGun ==> r@ == seq!['R', 'a', 'y', 'G', 'u', 'n', ' ', '{', ' '] + inner@
                + seq![' ', '}', ' '],
            self is Constellation ==> r@ == inner@,
    {
        let prefix: Vec<char> = match self {
            WarpCmd::Tesseract(_) => vec!['T', 'e', 's', 's', 'e', 'r', 'a', 'c', 't', ' ', '{', ' '],
            WarpCmd::MultiPass(_) => vec!['M', 'u', 'l', 't', 'i', 'P', 'a', 's', 's', ' ', '{', ' '],
            WarpCmd::RayGun(_) => vec!['R', 'a', 'y', 'G', 'u', 'n', ' ', '{', ' '],
            WarpCmd::Constellation(_) => {
                return String::from_str(inner);
            },
        };
        let mut r = crate::text::string_from_chars(prefix.as_slice());
        r.append(inner);
        let suffix: Vec<char> = vec![' ', '}', ' '];
        crate::text::push_chars(&mut r, suffix.as_slice());
        r
    }
}

} // verus!
