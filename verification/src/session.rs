//! The decisions taken on one client connection, as a state machine: the caller
//! performs each action (reading, answering, consulting the password store,
//! relaying) and hands back what came of it.

use vstd::prelude::*;
use vstd::string::StringSliceAdditionalSpecFns;
use vstd::utf8::{decode_utf8, valid_utf8};
use crate::headers::{
    auth_request_line, body_read_end, examine_headers, header_lines_cut_ok, headers_outcome, is_auth_request,
    json_text, strip_nuls_end, strip_trailing_nuls, HeaderOutcome,
};
use crate::login::{credentials_of, forwarded_body, login_body, read_login, LoginBody, LoginBodyModel};
use crate::responses::{byte_len, Rejection};
use crate::scan::{lemma_str_bytes, utf8_text};
use crate::text::{
    decimal, decimal_parses_back, decimal_string, lowercase, parse_usize_spec, unicode_lowercase,
};

verus! {

broadcast use vstd::string::group_string_axioms, vstd::slice::group_slice_axioms;

/// What the password store holds for an account.
#[derive(PartialEq, Eq, Structural, Clone, Copy, Debug)]
pub enum StoredPassword {
    /// No account has this name: the username is free.
    NoAccount,
    /// The account's password.
    Password(u64),
    /// The account exists, but its password could not be read as a `u64`.
    Unreadable,
}

/// Where a connection stands.
pub enum Stage {
    /// Waiting for the first bytes of the connection, peeked without consuming them.
    AwaitPeek,
    /// A login request: waiting for its header block.
    AwaitHeaders,
    /// Waiting for the rest of the body; `head` is the part of it already read.
    AwaitBody { head: Vec<u8> },
    /// Waiting for the stored password of `username`.
    AwaitPassword { username: String, secret: u64, forwarded: String },
    /// Waiting for the password of the new account `username` to be stored.
    AwaitStore { username: String, forwarded: String },
    /// Nothing more is decided on this connection.
    Finished,
}

/// What came of the last action.
pub enum Event {
    /// The first bytes of the connection (as many as the login request line has).
    Peeked { bytes: Vec<u8> },
    /// The header buffer, of which `length` bytes were read.
    HeadersRead { buf: Vec<u8>, length: usize },
    /// The rest of the body.
    BodyRead { bytes: Vec<u8> },
    /// What the password store holds for the account.
    PasswordLooked { stored: StoredPassword },
    /// The new account's password was stored.
    PasswordStored,
}

/// What the caller does next.
pub enum Action {
    /// Relay bytes between client and game server, both ways, untouched.
    Relay,
    /// Read the header block.
    ReadHeaders,
    /// Read the next `length` bytes of the connection: the rest of the body.
    ReadBody { length: usize },
    /// Look up the password stored under `account`.
    LookUpPassword { account: String },
    /// Store `secret` as the password of the new account `account`.
    StorePassword { account: String, secret: u64 },
    /// Answer the client with the refusal and close; `user` is the login's
    /// username where the body had one.
    Reject { rejection: Rejection, user: Option<String> },
    /// Send `request` to the game server in the client's place, then relay.
    Forward { request: String, username: String },
    /// Close the connection without an answer.
    Drop,
}

/// `Stage` with its text as characters and its bytes as a sequence.
pub enum StageModel {
    AwaitPeek,
    AwaitHeaders,
    AwaitBody { head: Seq<u8> },
    AwaitPassword { username: Seq<char>, secret: u64, forwarded: Seq<char> },
    AwaitStore { username: Seq<char>, forwarded: Seq<char> },
    Finished,
}

/// `Event` with its bytes as sequences.
pub enum EventModel {
    Peeked { bytes: Seq<u8> },
    HeadersRead { buf: Seq<u8>, length: usize },
    BodyRead { bytes: Seq<u8> },
    PasswordLooked { stored: StoredPassword },
    PasswordStored,
}

/// `Action` with its text as characters.
pub enum ActionModel {
    Relay,
    ReadHeaders,
    ReadBody { length: usize },
    LookUpPassword { account: Seq<char> },
    StorePassword { account: Seq<char>, secret: u64 },
    Reject { rejection: Rejection, user: Option<Seq<char>> },
    Forward { request: Seq<char>, username: Seq<char> },
    Drop,
}

impl View for Stage {
    type V = StageModel;

    open spec fn view(&self) -> StageModel {
        match self {
            Stage::AwaitPeek => StageModel::AwaitPeek,
            Stage::AwaitHeaders => StageModel::AwaitHeaders,
            Stage::AwaitBody { head } => StageModel::AwaitBody { head: head@ },
            Stage::AwaitPassword { username, secret, forwarded } => StageModel::AwaitPassword {
                username: username@,
                secret: *secret,
                forwarded: forwarded@,
            },
            Stage::AwaitStore { username, forwarded } => StageModel::AwaitStore {
                username: username@,
                forwarded: forwarded@,
            },
            Stage::Finished => StageModel::Finished,
        }
    }
}

impl View for Event {
    type V = EventModel;

    open spec fn view(&self) -> EventModel {
        match self {
            Event::Peeked { bytes } => EventModel::Peeked { bytes: bytes@ },
            Event::HeadersRead { buf, length } => EventModel::HeadersRead { buf: buf@, length: *length },
            Event::BodyRead { bytes } => EventModel::BodyRead { bytes: bytes@ },
            Event::PasswordLooked { stored } => EventModel::PasswordLooked { stored: *stored },
            Event::PasswordStored => EventModel::PasswordStored,
        }
    }
}

impl View for Action {
    type V = ActionModel;

    open spec fn view(&self) -> ActionModel {
        match self {
            Action::Relay => ActionModel::Relay,
            Action::ReadHeaders => ActionModel::ReadHeaders,
            Action::ReadBody { length } => ActionModel::ReadBody { length: *length },
            Action::LookUpPassword { account } => ActionModel::LookUpPassword { account: account@ },
            Action::StorePassword { account, secret } => ActionModel::StorePassword {
                account: account@,
                secret: *secret,
            },
            Action::Reject { rejection, user } => ActionModel::Reject {
                rejection: *rejection,
                user: match user {
                    Some(u) => Some(u@),
                    None => None,
                },
            },
            Action::Forward { request, username } => ActionModel::Forward {
                request: request@,
                username: username@,
            },
            Action::Drop => ActionModel::Drop,
        }
    }
}

/// The request sent to the game server in the client's place: the login
/// request line, fixed `Host` and `Content-Type` headers, a `Content-Length`
/// equal to the body's length in bytes, and the body.
pub open spec fn forwarded_request(body: Seq<char>) -> Seq<char> {
    "POST /api/auth HTTP/1.1\r\nHost: localhost\r\nContent-Type: application/json\r\nContent-Length: "@
        + decimal(byte_len(body) as nat) + "\r\n\r\n"@ + body
}

/// The account under which a username's password is kept: the username lower-cased.
pub open spec fn account_of(username: Seq<char>) -> Seq<char> {
    unicode_lowercase(username)
}

/// What a login body calls for: without JSON, without a string username or
/// without a `u64` secret the client is refused; otherwise the username's
/// stored password is looked up.
pub open spec fn after_login_body(body: LoginBodyModel) -> (StageModel, ActionModel) {
    match body {
        LoginBodyModel::NotJson => (
            StageModel::Finished,
            ActionModel::Reject { rejection: Rejection::BadlyFormattedJson, user: None },
        ),
        LoginBodyModel::NoUsername => (
            StageModel::Finished,
            ActionModel::Reject { rejection: Rejection::NoUsernameSpecified, user: None },
        ),
        LoginBodyModel::NoSecret { username } => (
            StageModel::Finished,
            ActionModel::Reject { rejection: Rejection::NoPasswordSpecified, user: Some(username) },
        ),
        LoginBodyModel::Complete { username, secret, forwarded } => (
            StageModel::AwaitPassword { username, secret, forwarded },
            ActionModel::LookUpPassword { account: account_of(username) },
        ),
    }
}

/// What the store's answer for `username` calls for: a password equal to the
/// secret forwards the login; any other password, or one that cannot be read,
/// refuses it; with no account, the account is created when `create` holds and
/// the login refused otherwise.
pub open spec fn after_lookup(
    username: Seq<char>,
    secret: u64,
    forwarded: Seq<char>,
    stored: StoredPassword,
    create: bool,
) -> (StageModel, ActionModel) {
    let refuse = |r: Rejection| (StageModel::Finished, ActionModel::Reject { rejection: r, user: Some(username) });
    match stored {
        StoredPassword::Password(password) => if password == secret {
            (
                StageModel::Finished,
                ActionModel::Forward { request: forwarded_request(forwarded), username },
            )
        } else {
            refuse(Rejection::IncorrectPassword)
        },
        StoredPassword::Unreadable => refuse(Rejection::IncorrectPassword),
        StoredPassword::NoAccount => if create {
            (
                StageModel::AwaitStore { username, forwarded },
                ActionModel::StorePassword { account: account_of(username), secret },
            )
        } else {
            refuse(Rejection::UsernameNotRegistered)
        },
    }
}

/// What the header block calls for. A body that reaches past the bytes read
/// is completed by one more read of exactly the missing bytes.
pub open spec fn after_headers(buf: Seq<u8>, length: usize) -> (StageModel, ActionModel) {
    let finish = |r: Rejection| (StageModel::Finished, ActionModel::Reject { rejection: r, user: None });
    match headers_outcome(buf, length) {
        HeaderOutcome::Unreadable => (StageModel::Finished, ActionModel::Drop),
        HeaderOutcome::TooLarge => finish(Rejection::HeadersTooLarge),
        HeaderOutcome::Malformed => finish(Rejection::BadlyFormattedHtml),
        HeaderOutcome::UnknownLength => finish(Rejection::UnknownLength),
        HeaderOutcome::PayloadTooLarge => finish(Rejection::PayloadTooLarge),
        HeaderOutcome::Json { start, end, missing } => if missing == 0 {
            after_login_body(login_body(decode_utf8(buf.subrange(start as int, end as int))))
        } else {
            (
                StageModel::AwaitBody {
                    head: buf.subrange(
                        start as int,
                        body_read_end(buf.len() as int, length as int, start as int),
                    ),
                },
                ActionModel::ReadBody { length: missing },
            )
        },
    }
}

/// What the whole body, `head` followed by `rest`, calls for: its text without
/// trailing zero bytes is the login body; if that is not UTF-8 the connection
/// is dropped.
pub open spec fn after_body(head: Seq<u8>, rest: Seq<u8>) -> (StageModel, ActionModel) {
    let body = strip_trailing_nuls(head + rest);
    if valid_utf8(body) {
        after_login_body(login_body(decode_utf8(body)))
    } else {
        (StageModel::Finished, ActionModel::Drop)
    }
}

/// The next stage and action of a connection at `stage` on `event`; `create`
/// tells whether unknown usernames get an account. An event that the stage
/// does not wait for ends the connection without an answer.
pub open spec fn transition(stage: StageModel, event: EventModel, create: bool) -> (StageModel, ActionModel) {
    match (stage, event) {
        (StageModel::AwaitPeek, EventModel::Peeked { bytes }) => if bytes == auth_request_line() {
            (StageModel::AwaitHeaders, ActionModel::ReadHeaders)
        } else {
            (StageModel::Finished, ActionModel::Relay)
        },
        (StageModel::AwaitHeaders, EventModel::HeadersRead { buf, length }) => after_headers(buf, length),
        (StageModel::AwaitBody { head }, EventModel::BodyRead { bytes }) => after_body(head, bytes),
        (
            StageModel::AwaitPassword { username, secret, forwarded },
            EventModel::PasswordLooked { stored },
        ) => after_lookup(username, secret, forwarded, stored, create),
        (StageModel::AwaitStore { username, forwarded }, EventModel::PasswordStored) => (
            StageModel::Finished,
            ActionModel::Forward { request: forwarded_request(forwarded), username },
        ),
        _ => (StageModel::Finished, ActionModel::Drop),
    }
}

/// Writes the request sent to the game server in the client's place.
pub fn forward_request(body: &str) -> (r: String)
    ensures
        r@ == forwarded_request(body@),
{
    let mut r = String::from_str(
        "POST /api/auth HTTP/1.1\r\nHost: localhost\r\nContent-Type: application/json\r\nContent-Length: ",
    );
    let len = decimal_string(body.len() as u64);
    r.append(len.as_str());
    r.append("\r\n\r\n");
    r.append(body);
    r
}

/// The account under which the password of `username` is kept.
pub fn account_key(username: &str) -> (r: String)
    ensures
        r@ == account_of(username@),
{
    lowercase(username)
}

fn finished(action: Action) -> (r: (Stage, Action))
    ensures
        r.0@ == StageModel::Finished,
        r.1@ == action@,
{
    (Stage::Finished, action)
}

/// What the login body `body` calls for.
pub fn after_reading_login(body: LoginBody) -> (r: (Stage, Action))
    ensures
        (r.0@, r.1@) == after_login_body(body@),
{
    match body {
        LoginBody::NotJson => finished(
            Action::Reject { rejection: Rejection::BadlyFormattedJson, user: None },
        ),
        LoginBody::NoUsername => finished(
            Action::Reject { rejection: Rejection::NoUsernameSpecified, user: None },
        ),
        LoginBody::NoSecret { username } => finished(
            Action::Reject { rejection: Rejection::NoPasswordSpecified, user: Some(username) },
        ),
        LoginBody::Complete { username, secret, forwarded } => {
            let account = account_key(username.as_str());
            (
                Stage::AwaitPassword { username, secret, forwarded },
                Action::LookUpPassword { account },
            )
        },
    }
}

/// What the store's answer `stored` for `username` calls for.
pub fn after_password_lookup(
    username: String,
    secret: u64,
    forwarded: String,
    stored: StoredPassword,
    create: bool,
) -> (r: (Stage, Action))
    ensures
        (r.0@, r.1@) == after_lookup(username@, secret, forwarded@, stored, create),
{
    match stored {
        StoredPassword::Password(password) => {
            if password == secret {
                let request = forward_request(forwarded.as_str());
                finished(Action::Forward { request, username })
            } else {
                finished(
                    Action::Reject { rejection: Rejection::IncorrectPassword, user: Some(username) },
                )
            }
        },
        StoredPassword::Unreadable => finished(
            Action::Reject { rejection: Rejection::IncorrectPassword, user: Some(username) },
        ),
        StoredPassword::NoAccount => {
            if create {
                let account = account_key(username.as_str());
                (Stage::AwaitStore { username, forwarded }, Action::StorePassword { account, secret })
            } else {
                finished(
                    Action::Reject {
                        rejection: Rejection::UsernameNotRegistered,
                        user: Some(username),
                    },
                )
            }
        },
    }
}

/// What the header buffer `buf`, of which `length` bytes were read, calls for.
pub fn after_header_block(buf: &[u8], length: usize) -> (r: (Stage, Action))
    requires
        header_lines_cut_ok(buf@),
    ensures
        (r.0@, r.1@) == after_headers(buf@, length),
{
    let reject = |rejection: Rejection| -> (r: (Stage, Action))
        ensures
            r.0@ == StageModel::Finished,
            r.1@ == (ActionModel::Reject { rejection, user: None }),
        { (Stage::Finished, Action::Reject { rejection, user: None }) };
    match examine_headers(buf, length) {
        HeaderOutcome::Unreadable => finished(Action::Drop),
        HeaderOutcome::TooLarge => reject(Rejection::HeadersTooLarge),
        HeaderOutcome::Malformed => reject(Rejection::BadlyFormattedHtml),
        HeaderOutcome::UnknownLength => reject(Rejection::UnknownLength),
        HeaderOutcome::PayloadTooLarge => reject(Rejection::PayloadTooLarge),
        HeaderOutcome::Json { start, end, missing } => {
            if missing == 0 {
                let json = json_text(buf, length, start, end, missing);
                after_reading_login(read_login(json.as_str()))
            } else {
                let buf_len = buf.len();
                let read = if length < buf_len {
                    length
                } else {
                    buf_len
                };
                let read_end = if read < start {
                    start
                } else {
                    read
                };
                let head = vstd::slice::slice_to_vec(&buf[start..read_end]);
                assert(head@ =~= buf@.subrange(start as int, read_end as int));
                (Stage::AwaitBody { head }, Action::ReadBody { length: missing })
            }
        },
    }
}

/// What the whole body, `head` followed by `rest`, calls for.
pub fn after_whole_body(head: Vec<u8>, rest: Vec<u8>) -> (r: (Stage, Action))
    ensures
        (r.0@, r.1@) == after_body(head@, rest@),
{
    let mut all = head;
    let mut extra = rest;
    let ghost joined = all@ + extra@;
    all.append(&mut extra);
    assert(all@ =~= joined);
    let end = strip_nuls_end(all.as_slice(), 0);
    let body = &all[0..end];
    assert(body@ =~= strip_trailing_nuls(joined)) by {
        assert(joined.subrange(0, joined.len() as int) =~= joined);
        assert(strip_trailing_nuls(joined) =~= joined.subrange(0, end as int)) by {
            crate::headers::lemma_strip_trailing_nuls(joined);
        }
    }
    match utf8_text(body) {
        None => finished(Action::Drop),
        Some(text) => {
            proof {
                lemma_str_bytes(text);
            }
            after_reading_login(read_login(text))
        },
    }
}

/// The next stage and action of a connection at `stage` on `event`; `create`
/// tells whether unknown usernames get an account.
pub fn step(stage: Stage, event: Event, create: bool) -> (r: (Stage, Action))
    requires
        event@ matches EventModel::HeadersRead { buf, .. } ==> header_lines_cut_ok(buf),
    ensures
        (r.0@, r.1@) == transition(stage@, event@, create),
{
    match (stage, event) {
        (Stage::AwaitPeek, Event::Peeked { bytes }) => {
            if is_auth_request(bytes.as_slice()) {
                (Stage::AwaitHeaders, Action::ReadHeaders)
            } else {
                finished(Action::Relay)
            }
        },
        (Stage::AwaitHeaders, Event::HeadersRead { buf, length }) => after_header_block(
            buf.as_slice(),
            length,
        ),
        (Stage::AwaitBody { head }, Event::BodyRead { bytes }) => after_whole_body(head, bytes),
        (
            Stage::AwaitPassword { username, secret, forwarded },
            Event::PasswordLooked { stored },
        ) => after_password_lookup(username, secret, forwarded, stored, create),
        (Stage::AwaitStore { username, forwarded }, Event::PasswordStored) => {
            let request = forward_request(forwarded.as_str());
            finished(Action::Forward { request, username })
        },
        _ => finished(Action::Drop),
    }
}


/// How far a connection has come; every step moves it further.
pub open spec fn progress(stage: StageModel) -> int {
    match stage {
        StageModel::AwaitPeek => 0,
        StageModel::AwaitHeaders => 1,
        StageModel::AwaitBody { .. } => 2,
        StageModel::AwaitPassword { .. } => 3,
        StageModel::AwaitStore { .. } => 4,
        StageModel::Finished => 5,
    }
}

/// Every step moves a connection forward, and an answer, a relay or a close
/// ends it: nothing more is decided on a connection once it has been refused,
/// dropped, relayed or forwarded.
pub proof fn steps_move_forward(stage: StageModel, event: EventModel, create: bool)
    ensures
        ({
            let (next, action) = transition(stage, event, create);
            &&& progress(stage) < progress(next) || next == StageModel::Finished
            &&& (action is Reject || action is Drop || action is Relay || action is Forward)
                ==> next == StageModel::Finished
        }),
{
}

/// A connection that does not open with the login request line is relayed
/// untouched, and one that does has its header block read.
pub proof fn only_login_requests_are_examined(bytes: Seq<u8>, create: bool)
    ensures
        transition(StageModel::AwaitPeek, EventModel::Peeked { bytes }, create) == if bytes
            == auth_request_line() {
            (StageModel::AwaitHeaders, ActionModel::ReadHeaders)
        } else {
            (StageModel::Finished, ActionModel::Relay)
        },
{
}

/// The secret acts as the user's password: a login is forwarded to the game
/// server only when the stored password equals the secret it carries, or
/// when its account has just been stored with that secret.
pub proof fn forwarded_only_with_the_password(stage: StageModel, event: EventModel, create: bool)
    ensures
        transition(stage, event, create).1 is Forward ==> ({
            ||| (stage matches StageModel::AwaitPassword { secret, .. } && event
                == (EventModel::PasswordLooked { stored: StoredPassword::Password(secret) }))
            ||| (stage is AwaitStore && event == EventModel::PasswordStored)
        }),
{
}

/// A username that has an account is taken: a login whose stored password
/// differs from its secret, or cannot be read, is refused as an incorrect
/// password and stores nothing, whether or not accounts are created.
pub proof fn taken_usernames_need_their_password(
    username: Seq<char>,
    secret: u64,
    forwarded: Seq<char>,
    stored: StoredPassword,
    create: bool,
)
    requires
        stored != StoredPassword::NoAccount,
        stored != StoredPassword::Password(secret),
    ensures
        transition(
            StageModel::AwaitPassword { username, secret, forwarded },
            EventModel::PasswordLooked { stored },
            create,
        ) == (StageModel::Finished, ActionModel::Reject {
            rejection: Rejection::IncorrectPassword,
            user: Some(username),
        }),
{
}

/// An unknown username gets an account with the secret it logged in with,
/// stored under the same account that was looked up, when accounts are
/// created; otherwise the login is refused as not registered.
pub proof fn unknown_users_get_their_secret(
    username: Seq<char>,
    secret: u64,
    forwarded: Seq<char>,
    create: bool,
)
    ensures
        ({
            let (stage, lookup) = after_login_body(
                LoginBodyModel::Complete { username, secret, forwarded },
            );
            let (next, action) = transition(
                stage,
                EventModel::PasswordLooked { stored: StoredPassword::NoAccount },
                create,
            );
            &&& lookup == (ActionModel::LookUpPassword { account: account_of(username) })
            &&& create ==> action == (ActionModel::StorePassword {
                account: account_of(username),
                secret,
            }) && next == (StageModel::AwaitStore { username, forwarded })
            &&& !create ==> action == (ActionModel::Reject {
                rejection: Rejection::UsernameNotRegistered,
                user: Some(username),
            })
        }),
{
}

/// What reaches the game server is the login body written again without
/// `credentials.secret` (see `forwarded_body_has_no_secret`), under a
/// `Content-Length` header that reads back as that body's length in bytes.
pub proof fn forwarded_body_is_rewritten(json: Seq<char>, stored: StoredPassword, create: bool)
    ensures
        ({
            let (stage, _) = after_login_body(login_body(json));
            let (next, action) = transition(stage, EventModel::PasswordLooked { stored }, create);
            action matches ActionModel::Forward { request, .. } ==> credentials_of(json) matches Some(
                (top, cred),
            ) && request == forwarded_request(forwarded_body(top, cred))
        }),
{
}

/// A body that reaches past the bytes read is read to its declared end and
/// decoded whole: the missing bytes are asked for, and the login body is the
/// part already read followed by them.
pub proof fn long_bodies_are_read_whole(buf: Seq<u8>, length: usize, rest: Seq<u8>, create: bool)
    requires
        headers_outcome(buf, length) matches HeaderOutcome::Json { missing, .. } && missing > 0,
    ensures
        ({
            let start = headers_outcome(buf, length)->Json_start;
            let missing = headers_outcome(buf, length)->Json_missing;
            let (stage, action) = transition(
                StageModel::AwaitHeaders,
                EventModel::HeadersRead { buf, length },
                create,
            );
            &&& action == (ActionModel::ReadBody { length: missing })
            &&& transition(stage, EventModel::BodyRead { bytes: rest }, create) == after_body(
                buf.subrange(start as int, body_read_end(buf.len() as int, length as int, start as int)),
                rest,
            )
        }),
{
}

/// The `Content-Length` that a forwarded request declares is the byte length
/// of the body that follows it, written so that it reads back as that number.
pub proof fn forwarded_length_reads_back(body: Seq<char>)
    ensures
        ({
            let prefix = "POST /api/auth HTTP/1.1\r\nHost: localhost\r\nContent-Type: application/json\r\nContent-Length: "@;
            let digits = decimal(byte_len(body) as nat);
            &&& forwarded_request(body) == prefix + digits + "\r\n\r\n"@ + body
            &&& parse_usize_spec(digits) == Some(byte_len(body))
        }),
{
    decimal_parses_back(byte_len(body));
}


/// A stored password equal to the login's secret lets the login through: the
/// login body, without its secret, is forwarded under the login's username,
/// for every secret and whether or not accounts are created.
pub proof fn matching_password_forwards_the_login(
    username: Seq<char>,
    secret: u64,
    forwarded: Seq<char>,
    create: bool,
)
    ensures
        transition(
            StageModel::AwaitPassword { username, secret, forwarded },
            EventModel::PasswordLooked { stored: StoredPassword::Password(secret) },
            create,
        ) == (StageModel::Finished, ActionModel::Forward {
            request: forwarded_request(forwarded),
            username,
        }),
{
}

/// A new account lets its login through: once the secret is stored, the
/// request forwarded is the one a matching stored password would forward,
/// the login body without its secret under the login's username.
pub proof fn new_account_forwards_the_login(
    username: Seq<char>,
    secret: u64,
    forwarded: Seq<char>,
    create: bool,
)
    ensures
        ({
            let waiting = StageModel::AwaitPassword { username, secret, forwarded };
            let (stored, store) = transition(
                waiting,
                EventModel::PasswordLooked { stored: StoredPassword::NoAccount },
                true,
            );
            &&& store == (ActionModel::StorePassword { account: account_of(username), secret })
            &&& transition(stored, EventModel::PasswordStored, create) == (
                StageModel::Finished,
                ActionModel::Forward { request: forwarded_request(forwarded), username },
            )
            &&& transition(stored, EventModel::PasswordStored, create) == transition(
                waiting,
                EventModel::PasswordLooked { stored: StoredPassword::Password(secret) },
                create,
            )
        }),
{
}

/// Whatever the step, a forwarded login is the body and username that the
/// connection holds: the request is `forwarded_request` of the stored
/// forwarded body, and nothing else is ever forwarded.
pub proof fn forwards_carry_the_login(stage: StageModel, event: EventModel, create: bool)
    ensures
        transition(stage, event, create).1 matches ActionModel::Forward { request, username } ==> (
        stage matches StageModel::AwaitPassword { username: u, forwarded: f, .. } && username == u
            && request == forwarded_request(f)) || (stage matches StageModel::AwaitStore {
            username: u,
            forwarded: f,
        } && username == u && request == forwarded_request(f)),
{
}

/// After a login body is read, a new account's login forwards exactly what a
/// matching password forwards: the body rewritten without its secret.
pub proof fn every_accepted_login_forwards_the_rewritten_body(json: Seq<char>, create: bool)
    requires
        login_body(json) is Complete,
    ensures
        ({
            let (waiting, _) = after_login_body(login_body(json));
            let secret = login_body(json)->Complete_secret;
            let (stored, _) = transition(
                waiting,
                EventModel::PasswordLooked { stored: StoredPassword::NoAccount },
                true,
            );
            let expected = ActionModel::Forward {
                request: forwarded_request(forwarded_body(
                    (credentials_of(json)->0).0,
                    (credentials_of(json)->0).1,
                )),
                username: login_body(json)->Complete_username,
            };
            &&& transition(stored, EventModel::PasswordStored, create).1 == expected
            &&& transition(
                waiting,
                EventModel::PasswordLooked { stored: StoredPassword::Password(secret) },
                create,
            ).1 == expected
        }),
{
}

/// Accounts ignore letter case: the account of a username is its Unicode
/// lower-casing, so usernames with the same lower-casing share one account.
pub proof fn accounts_ignore_letter_case(u: Seq<char>, v: Seq<char>)
    ensures
        account_of(u) == unicode_lowercase(u),
        unicode_lowercase(u) == unicode_lowercase(v) ==> account_of(u) == account_of(v),
{
}


/// How a login body is answered: a body that is not JSON, that has no string
/// username or no `u64` secret is refused with the matching 400 (the username
/// is kept for the log where there is one); a complete login waits for the
/// stored password of its lower-cased username.
pub proof fn login_bodies_are_answered(body: LoginBodyModel)
    ensures
        ({
            let (stage, action) = after_login_body(body);
            &&& body is NotJson ==> stage == StageModel::Finished && action == (ActionModel::Reject {
                rejection: Rejection::BadlyFormattedJson,
                user: None,
            })
            &&& body is NoUsername ==> stage == StageModel::Finished && action == (ActionModel::Reject {
                rejection: Rejection::NoUsernameSpecified,
                user: None,
            })
            &&& body matches LoginBodyModel::NoSecret { username } ==> stage == StageModel::Finished
                && action == (ActionModel::Reject {
                rejection: Rejection::NoPasswordSpecified,
                user: Some(username),
            })
            &&& body matches LoginBodyModel::Complete { username, secret, forwarded } ==> stage == (
            StageModel::AwaitPassword { username, secret, forwarded }) && action == (
            ActionModel::LookUpPassword { account: unicode_lowercase(username) })
        }),
{
}

/// How a header block is answered: an unreadable block closes the connection,
/// a block that never ends is 431 when it fills the buffer and 400 otherwise, a
/// block with a bad line is 400, one without `content-length` is 411, and a
/// declared body above the limit is 413; only a block whose body is within the
/// limit goes on to the body.
pub proof fn header_blocks_are_answered(buf: Seq<u8>, length: usize)
    ensures
        ({
            let (stage, action) = after_headers(buf, length);
            let o = headers_outcome(buf, length);
            &&& o is Unreadable ==> stage == StageModel::Finished && action == ActionModel::Drop
            &&& o is TooLarge ==> stage == StageModel::Finished && action == (ActionModel::Reject {
                rejection: Rejection::HeadersTooLarge,
                user: None,
            })
            &&& o is Malformed ==> stage == StageModel::Finished && action == (ActionModel::Reject {
                rejection: Rejection::BadlyFormattedHtml,
                user: None,
            })
            &&& o is UnknownLength ==> stage == StageModel::Finished && action == (
            ActionModel::Reject { rejection: Rejection::UnknownLength, user: None })
            &&& o is PayloadTooLarge ==> stage == StageModel::Finished && action == (
            ActionModel::Reject { rejection: Rejection::PayloadTooLarge, user: None })
            &&& o is Json ==> (action is ReadBody || action is LookUpPassword || action is Reject)
        }),
{
}

} // verus!
