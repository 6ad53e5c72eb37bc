//! The e-mail types and calls of the `lettre` crate that alerting uses.
//! Verus does not see inside these types; each function below states what
//! `lettre` promises of the call it makes.

use vstd::prelude::*;
use lettre::address::AddressError;
use lettre::message::Mailbox;
use lettre::transport::smtp::authentication::Credentials;
use lettre::transport::smtp::{Error as SmtpError, SmtpTransportBuilder};
use lettre::{Message, SmtpTransport};

verus! {

#[verifier::external_type_specification]
#[verifier::external_body]
pub struct ExMailbox(Mailbox);

#[verifier::external_type_specification]
#[verifier::external_body]
pub struct ExAddressError(AddressError);

#[verifier::external_type_specification]
#[verifier::external_body]
pub struct ExMessage(Message);

#[verifier::external_type_specification]
#[verifier::external_body]
pub struct ExEmailError(lettre::error::Error);

#[verifier::external_type_specification]
#[verifier::external_body]
pub struct ExSmtpTransportBuilder(SmtpTransportBuilder);

#[verifier::external_type_specification]
#[verifier::external_body]
pub struct ExSmtpTransport(SmtpTransport);

#[verifier::external_type_specification]
#[verifier::external_body]
pub struct ExSmtpError(SmtpError);

#[verifier::external_type_specification]
#[verifier::external_body]
pub struct ExCredentials(Credentials);

/// Whether `lettre` reads `text` as a mailbox (`Name <user@domain>` or a
/// bare address): its `Mailbox::from_str` succeeds.
pub uninterp spec fn mailbox_parses(text: Seq<char>) -> bool;

/// A mailbox `lettre` parsed, with the text it was parsed from. Only the
/// functions of this file make one, so the text is always the parsed one.
pub struct ParsedMailbox {
    mailbox: Mailbox,
    text: Ghost<Seq<char>>,
}

impl ParsedMailbox {
    /// The text the mailbox was parsed from.
    pub closed spec fn text(&self) -> Seq<char> {
        self.text@
    }
}

/// A message `lettre` built, with what its headers and body were set to.
/// Only the functions of this file make one.
pub struct Letter {
    message: Message,
    from: Ghost<Seq<char>>,
    to: Ghost<Seq<char>>,
    subject: Ghost<Seq<char>>,
    body: Ghost<Seq<char>>,
}

impl Letter {
    /// The text of the `From` mailbox.
    pub closed spec fn from(&self) -> Seq<char> {
        self.from@
    }

    /// The text of the `To` mailbox.
    pub closed spec fn to(&self) -> Seq<char> {
        self.to@
    }

    /// The subject.
    pub closed spec fn subject(&self) -> Seq<char> {
        self.subject@
    }

    /// The plain-text body.
    pub closed spec fn body(&self) -> Seq<char> {
        self.body@
    }

    /// The `lettre` message.
    pub fn message(&self) -> &Message {
        &self.message
    }
}

/// An SMTP transport `lettre` is setting up or set up, with the relay host,
/// port and login it was given. Only the functions of this file make one.
pub struct Mailer<B> {
    inner: B,
    relay: Ghost<Seq<char>>,
    port: Ghost<u16>,
    login: Ghost<Option<(Seq<char>, Seq<char>)>>,
}

impl<B> Mailer<B> {
    /// The relay host.
    pub closed spec fn relay(&self) -> Seq<char> {
        self.relay@
    }

    /// The port.
    pub closed spec fn port(&self) -> u16 {
        self.port@
    }

    /// The login (user name and password), if any.
    pub closed spec fn login(&self) -> Option<(Seq<char>, Seq<char>)> {
        self.login@
    }
}

impl Mailer<SmtpTransport> {
    /// The `lettre` transport.
    pub fn transport(&self) -> &SmtpTransport {
        &self.inner
    }
}

/// An SMTP login `lettre` holds, with its user name and password. Only the
/// functions of this file make one.
pub struct Login {
    credentials: Credentials,
    user: Ghost<Seq<char>>,
    pass: Ghost<Seq<char>>,
}

impl Login {
    /// The user name.
    pub closed spec fn user(&self) -> Seq<char> {
        self.user@
    }

    /// The password.
    pub closed spec fn password(&self) -> Seq<char> {
        self.pass@
    }
}

/// Calls `<Mailbox as FromStr>::from_str`: succeeds exactly when `text`
/// parses as a mailbox, and keeps the text.
#[verifier::external_body]
pub(crate) fn parse_mailbox(text: &str) -> (r: Result<ParsedMailbox, AddressError>)
    ensures
        r is Ok <==> mailbox_parses(text@),
        r matches Ok(m) ==> m.text() == text@,
{
    match text.parse::<Mailbox>() {
        Ok(mailbox) => Ok(ParsedMailbox { mailbox, text: Ghost(text@) }),
        Err(e) => Err(e),
    }
}

/// Calls `AddressError`'s `Display`; nothing is stated of the text.
#[verifier::external_body]
pub(crate) fn address_error_text(error: &AddressError) -> String {
    format!("{}", error)
}

/// Calls `lettre`'s message builder: `Message::builder()`, then `from`,
/// `to`, `subject` and a plain-text `body`. The build fails only on a
/// missing or repeated `From` or a missing `To`; with one of each set here
/// it always succeeds, with the headers and body it was given (it also
/// stamps the current date, which is not stated).
#[verifier::external_body]
pub(crate) fn build_message(
    from: ParsedMailbox,
    to: ParsedMailbox,
    subject: &str,
    body: String,
) -> (r: Result<Letter, lettre::error::Error>)
    ensures
        r is Ok,
        r matches Ok(l) ==> (l.from() == from.text() && l.to() == to.text() && l.subject()
            == subject@ && l.body() == body@),
{
    let (from_text, to_text, body_text) = (Ghost(from.text@), Ghost(to.text@), Ghost(body@));
    match Message::builder().from(from.mailbox).to(to.mailbox).subject(subject).body(body) {
        Ok(message) => Ok(
            Letter { message, from: from_text, to: to_text, subject: Ghost(subject@), body: body_text },
        ),
        Err(e) => Err(e),
    }
}

/// Calls `lettre::error::Error`'s `Display`; nothing is stated of the text.
#[verifier::external_body]
pub(crate) fn email_error_text(error: &lettre::error::Error) -> String {
    format!("{}", error)
}

/// Calls `SmtpTransport::relay`. The name itself is not inspected; whether
/// the TLS parameters can be built depends on the process-wide `rustls`
/// crypto provider, so nothing is stated of whether it succeeds. On success
/// the builder is for host `server` on the SMTPS port 465, with no login.
#[verifier::external_body]
pub(crate) fn smtp_relay(server: &str) -> (r: Result<Mailer<SmtpTransportBuilder>, SmtpError>)
    ensures
        r matches Ok(b) ==> b.relay() == server@ && b.port() == 465 && b.login() is None,
{
    match SmtpTransport::relay(server) {
        Ok(inner) => Ok(
            Mailer { inner, relay: Ghost(server@), port: Ghost(465u16), login: Ghost(None) },
        ),
        Err(e) => Err(e),
    }
}

/// Calls the SMTP error's `Display`; nothing is stated of the text.
#[verifier::external_body]
pub(crate) fn smtp_error_text(error: &SmtpError) -> String {
    format!("{}", error)
}

/// Calls `SmtpTransportBuilder::port`, which sets the port and nothing else.
#[verifier::external_body]
pub(crate) fn transport_port(builder: Mailer<SmtpTransportBuilder>, port: u16) -> (r: Mailer<
    SmtpTransportBuilder,
>)
    ensures
        r.relay() == builder.relay() && r.port() == port && r.login() == builder.login(),
{
    Mailer { inner: builder.inner.port(port), relay: builder.relay, port: Ghost(port), login: builder.login }
}

/// Calls `Credentials::new`, which keeps the user name and password.
#[verifier::external_body]
pub(crate) fn new_credentials(username: String, password: String) -> (r: Login)
    ensures
        r.user() == username@ && r.password() == password@,
{
    let (user, pass) = (Ghost(username@), Ghost(password@));
    Login { credentials: Credentials::new(username, password), user, pass }
}

/// Calls `SmtpTransportBuilder::credentials`, which sets the login and
/// nothing else.
#[verifier::external_body]
pub(crate) fn transport_credentials(builder: Mailer<SmtpTransportBuilder>, login: Login) -> (r:
    Mailer<SmtpTransportBuilder>)
    ensures
        r.relay() == builder.relay() && r.port() == builder.port() && r.login() == Some(
            (login.user(), login.password()),
        ),
{
    let l = Ghost(Some((login.user@, login.pass@)));
    Mailer {
        inner: builder.inner.credentials(login.credentials),
        relay: builder.relay,
        port: builder.port,
        login: l,
    }
}

/// Calls `SmtpTransportBuilder::build`, which keeps the host, port and
/// login the builder was given.
#[verifier::external_body]
pub(crate) fn transport_build(builder: Mailer<SmtpTransportBuilder>) -> (r: Mailer<SmtpTransport>)
    ensures
        r.relay() == builder.relay() && r.port() == builder.port() && r.login() == builder.login(),
{
    Mailer { inner: builder.inner.build(), relay: builder.relay, port: builder.port, login: builder.login }
}

} // verus!
