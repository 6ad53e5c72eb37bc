//! Alert e-mails: what a HARD state change sends, and to which gateway.

use vstd::prelude::*;
use crate::config::{AppConfig, EmailView, RawEmailConfig};
use crate::mail::{
    address_error_text, build_message, email_error_text, mailbox_parses, new_credentials,
    parse_mailbox, smtp_error_text, smtp_relay, transport_build, transport_credentials,
    transport_port, Letter, Mailer,
};
use crate::text::{clone_opt_string, starts_with};
use lettre::transport::smtp::{Error as SmtpError, SmtpTransportBuilder};
use lettre::SmtpTransport;

verus! {

/// An e-mail ready to hand to the SMTP gateway.
pub struct AlertEmail {
    pub to: String,
    pub subject: String,
    pub body: String,
}

/// `** HARD ALERT ** - <check> is <state>`.
pub open spec fn alert_subject(check_name: Seq<char>, state: Seq<char>) -> Seq<char> {
    "** HARD ALERT ** - "@ + check_name + " is "@ + state
}

/// The body of a HARD alert: type, service, state, host, then the message.
pub open spec fn alert_body(
    check_name: Seq<char>,
    state: Seq<char>,
    hostname: Seq<char>,
    message: Seq<char>,
) -> Seq<char> {
    "Notification Type: HARD ALERT\nService: "@ + check_name + "\nState: "@ + state + "\nHost: "@
        + hostname + "\n\nInfo:\n"@ + message
}

/// Everything an e-mail delivery is made of, as plain values: sender,
/// recipient, subject, plain-text body, relay host, port and SMTP login.
pub struct MailPlan {
    pub from: String,
    pub to: String,
    pub subject: String,
    pub body: String,
    pub relay: String,
    pub port: u16,
    pub login: Option<(String, String)>,
}

/// The SMTP login of the e-mail settings: both parts, or none.
pub open spec fn login_of(email: EmailView) -> Option<(Seq<char>, Seq<char>)> {
    match (email.smtp_username, email.smtp_password) {
        (Some(user), Some(pass)) => Some((user, pass)),
        _ => None,
    }
}

/// Whether `plan` sends `subject` and `body` from the configured sender to
/// `to`, through the configured relay, port and login.
pub open spec fn plan_for(
    plan: MailPlan,
    email: EmailView,
    to: Seq<char>,
    subject: Seq<char>,
    body: Seq<char>,
) -> bool {
    &&& plan.from@ == email.sender_email
    &&& plan.to@ == to
    &&& plan.subject@ == subject
    &&& plan.body@ == body
    &&& plan.relay@ == email.smtp_server
    &&& plan.port == email.smtp_port
    &&& match (plan.login, login_of(email)) {
        (Some(l), Some(w)) => l.0@ == w.0 && l.1@ == w.1,
        (None, None) => true,
        _ => false,
    }
}

/// A planned e-mail, the message built from it and the transport that is to
/// deliver it.
pub struct Delivery {
    pub plan: MailPlan,
    pub letter: Letter,
    pub mailer: Mailer<SmtpTransport>,
}

/// Finishes a delivery of `letter` from the relay that `lettre` set up for
/// `plan.relay`: on success the transport keeps the relay host and gets the
/// plan's port and, where the plan has one, its login; on failure the error
/// names the relay step.
pub fn finish_delivery(
    plan: MailPlan,
    letter: Letter,
    relay: Result<Mailer<SmtpTransportBuilder>, SmtpError>,
) -> (r: Result<Delivery, String>)
    ensures
        relay is Ok <==> r is Ok,
        r matches Ok(d) ==> d.plan == plan && d.letter == letter,
        r matches Ok(d) ==> d.mailer.relay() == relay->Ok_0.relay(),
        r matches Ok(d) ==> d.mailer.port() == plan.port,
        r matches Ok(d) ==> d.mailer.login() == if plan.login is Some {
            plan.login.deep_view()
        } else {
            relay->Ok_0.login()
        },
        r matches Err(e) ==> starts_with(e@, "Invalid SMTP relay server path: "@),
{
    let relay = match relay {
        Ok(b) => b,
        Err(e) => {
            return Err(prefixed("Invalid SMTP relay server path: ", smtp_error_text(&e).as_str()));
        },
    };
    let mut builder = transport_port(relay, plan.port);
    match &plan.login {
        Some((user, pass)) => {
            builder = transport_credentials(builder, new_credentials(user.clone(), pass.clone()));
            assert(plan.login.deep_view() == Some((user@, pass@)));
        },
        None => {},
    }
    Ok(Delivery { plan, letter, mailer: transport_build(builder) })
}

/// The sender side of alerting: the SMTP settings and the host name that
/// alerts report.
pub struct AlertSystem {
    pub email: RawEmailConfig,
    pub hostname: String,
}

impl AlertSystem {
    /// An alert system with the configuration's SMTP settings and host name.
    pub fn new(config: &AppConfig) -> (r: Self)
        ensures
            r.email@ == config.email@,
            r.hostname@ == config.system.hostname@,
    {
        AlertSystem {
            email: RawEmailConfig {
                smtp_server: config.email.smtp_server.clone(),
                smtp_port: config.email.smtp_port,
                sender_email: config.email.sender_email.clone(),
                smtp_username: clone_opt_string(&config.email.smtp_username),
                smtp_password: clone_opt_string(&config.email.smtp_password),
            },
            hostname: config.system.hostname.clone(),
        }
    }

    /// The HARD alert about `check_name` entering `state_str`, addressed to
    /// `contact_email`.
    pub fn nagios_hard_alert(
        &self,
        check_name: &str,
        contact_email: &str,
        state_str: &str,
        message: &str,
    ) -> (r: AlertEmail)
        ensures
            r.to@ == contact_email@,
            r.subject@ == alert_subject(check_name@, state_str@),
            r.body@ == alert_body(check_name@, state_str@, self.hostname@, message@),
    {
        let mut subject = "** HARD ALERT ** - ".to_owned();
        subject.append(check_name);
        subject.append(" is ");
        subject.append(state_str);
        let mut body = "Notification Type: HARD ALERT\nService: ".to_owned();
        body.append(check_name);
        body.append("\nState: ");
        body.append(state_str);
        body.append("\nHost: ");
        body.append(self.hostname.as_str());
        body.append("\n\nInfo:\n");
        body.append(message);
        AlertEmail { to: contact_email.to_owned(), subject, body }
    }

    /// The SMTP login, used only when both a user name and a password are
    /// configured.
    pub fn smtp_credentials(&self) -> (r: Option<(String, String)>)
        ensures
            match (r, login_of(self.email@)) {
                (Some(l), Some(w)) => l.0@ == w.0 && l.1@ == w.1,
                (None, None) => true,
                _ => false,
            },
    {
        match (&self.email.smtp_username, &self.email.smtp_password) {
            (Some(user), Some(pass)) => Some((user.clone(), pass.clone())),
            _ => None,
        }
    }

    /// The plan of an e-mail from the configured sender to `to_email`
    /// through the configured relay.
    pub fn mail_plan(&self, to_email: &str, subject: &str, body: &str) -> (r: MailPlan)
        ensures
            plan_for(r, self.email@, to_email@, subject@, body@),
    {
        MailPlan {
            from: self.email.sender_email.clone(),
            to: to_email.to_owned(),
            subject: subject.to_owned(),
            body: body.to_owned(),
            relay: self.email.smtp_server.clone(),
            port: self.email.smtp_port,
            login: self.smtp_credentials(),
        }
    }

    /// Builds the plain-text e-mail from the configured sender to `to_email`
    /// and the SMTPS transport to the configured relay (port and, where both
    /// are configured, login included). Fails, with a message that names the
    /// step, when the sender or the recipient is no mailbox, or when `lettre`
    /// cannot set up the relay.
    pub fn prepare_email(&self, to_email: &str, subject: &str, body: &str) -> (r: Result<
        Delivery,
        String,
    >)
        ensures
            !mailbox_parses(self.email@.sender_email) ==> (r matches Err(e) && starts_with(
                e@,
                "Invalid sender: "@,
            )),
            mailbox_parses(self.email@.sender_email) && !mailbox_parses(to_email@) ==> (r matches Err(
                e,
            ) && starts_with(e@, "Invalid receiver: "@)),
            mailbox_parses(self.email@.sender_email) && mailbox_parses(to_email@) ==> (r is Ok || (
            r matches Err(e) && starts_with(e@, "Invalid SMTP relay server path: "@))),
            r matches Ok(d) ==> {
                &&& plan_for(d.plan, self.email@, to_email@, subject@, body@)
                &&& d.letter.from() == self.email@.sender_email
                &&& d.letter.to() == to_email@
                &&& d.letter.subject() == subject@
                &&& d.letter.body() == body@
                &&& d.mailer.relay() == self.email@.smtp_server
                &&& d.mailer.port() == self.email@.smtp_port
                &&& d.mailer.login() == login_of(self.email@)
            },
    {
        let plan = self.mail_plan(to_email, subject, body);
        let sender = match parse_mailbox(plan.from.as_str()) {
            Ok(m) => m,
            Err(e) => {
                return Err(prefixed("Invalid sender: ", address_error_text(&e).as_str()));
            },
        };
        let receiver = match parse_mailbox(plan.to.as_str()) {
            Ok(m) => m,
            Err(e) => {
                return Err(prefixed("Invalid receiver: ", address_error_text(&e).as_str()));
            },
        };
        let letter = match build_message(sender, receiver, plan.subject.as_str(), plan.body.clone()) {
            Ok(m) => m,
            Err(e) => {
                return Err(prefixed("Message building failed: ", email_error_text(&e).as_str()));
            },
        };
        let relay = smtp_relay(plan.relay.as_str());
        finish_delivery(plan, letter, relay)
    }
}

/// `head` followed by `tail`.
fn prefixed(head: &str, tail: &str) -> (r: String)
    ensures
        r@ == head@ + tail@,
        starts_with(r@, head@),
{
    let mut r = head.to_owned();
    r.append(tail);
    proof {
        assert(r@.take(head@.len() as int) =~= head@);
    }
    r
}

} // verus!
