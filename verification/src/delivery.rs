//! The delivery channel abstraction: provider-aware SMTP transport
//! selection, carrier resolution for the email-to-SMS gateway, message
//! composition, and the desktop notifier.
//!
//! The wire-level work (SMTP, the OS notifier) is done by outside
//! crates behind small trusted wrappers; everything that decides or
//! composes is verified here.

use vstd::prelude::*;

use crate::task::TaskPriority;
use crate::text::{contains_sub, digits_of, lower};

verus! {

/// The SMTP transport families the hostname classification picks from.
#[derive(Debug, Clone, Copy, PartialEq, Eq, Structural)]
pub enum MailProvider {
    /// STARTTLS with the PLAIN mechanism forced.
    Gmail,
    /// STARTTLS.
    Outlook,
    /// Implicit TLS relay.
    Yahoo,
    /// Implicit TLS relay.
    Generic,
}

/// Classifies an SMTP host name by well-known substrings; anything
/// unrecognised uses the generic implicit-TLS relay.
pub open spec fn classify_provider(server: Seq<char>) -> MailProvider {
    if contains_sub(server, "gmail"@) {
        MailProvider::Gmail
    } else if contains_sub(server, "outlook"@) || contains_sub(server, "hotmail"@) {
        MailProvider::Outlook
    } else if contains_sub(server, "yahoo"@) {
        MailProvider::Yahoo
    } else {
        MailProvider::Generic
    }
}

/// Picks the transport family for an SMTP host name, as
/// [`classify_provider`] describes.
pub fn provider_of(server: &str) -> (p: MailProvider)
    ensures
        p == classify_provider(server@),
{
    if crate::text::str_contains(server, "gmail") {
        MailProvider::Gmail
    } else if crate::text::str_contains(server, "outlook") || crate::text::str_contains(
        server,
        "hotmail",
    ) {
        MailProvider::Outlook
    } else if crate::text::str_contains(server, "yahoo") {
        MailProvider::Yahoo
    } else {
        MailProvider::Generic
    }
}

/// The gateway domain suffix for a carrier name (compared in lower
/// case); an unknown carrier has none.
pub open spec fn carrier_gateway_suffix(carrier: Seq<char>) -> Option<Seq<char>> {
    let c = lower(carrier);
    if c == "att"@ || c == "at&t"@ {
        Some("@txt.att.net"@)
    } else if c == "verizon"@ {
        Some("@vtext.com"@)
    } else if c == "tmobile"@ || c == "t-mobile"@ {
        Some("@tmomail.net"@)
    } else if c == "sprint"@ {
        Some("@messaging.sprintpcs.com"@)
    } else if c == "boost"@ {
        Some("@myboostmobile.com"@)
    } else if c == "cricket"@ {
        Some("@sms.cricketwireless.net"@)
    } else if c == "metropcs"@ {
        Some("@mymetropcs.com"@)
    } else if c == "virgin"@ {
        Some("@vmobl.com"@)
    } else if c == "uscellular"@ {
        Some("@email.uscc.net"@)
    } else {
        None
    }
}

/// The email-to-SMS gateway address for a phone number and carrier: the
/// digits of the number followed by the carrier's gateway domain, or
/// nothing when the carrier is unknown.
pub open spec fn gateway_email(phone: Seq<char>, carrier: Seq<char>) -> Option<Seq<char>> {
    match carrier_gateway_suffix(carrier) {
        Some(sfx) => Some(digits_of(phone) + sfx),
        None => None,
    }
}

/// Resolves the email-to-SMS gateway address, as [`gateway_email`]
/// describes.
pub fn gateway_address(phone_number: &str, carrier: &str) -> (r: Option<String>)
    ensures
        r is Some <==> gateway_email(phone_number@, carrier@) is Some,
        r matches Some(g) ==> gateway_email(phone_number@, carrier@) == Some(g@),
{
    let lc = crate::text::to_lowercase(carrier);
    let c = lc.as_str();
    let suffix: Option<&str> = if crate::text::str_eq(c, "att") || crate::text::str_eq(c, "at&t") {
        Some("@txt.att.net")
    } else if crate::text::str_eq(c, "verizon") {
        Some("@vtext.com")
    } else if crate::text::str_eq(c, "tmobile") || crate::text::str_eq(c, "t-mobile") {
        Some("@tmomail.net")
    } else if crate::text::str_eq(c, "sprint") {
        Some("@messaging.sprintpcs.com")
    } else if crate::text::str_eq(c, "boost") {
        Some("@myboostmobile.com")
    } else if crate::text::str_eq(c, "cricket") {
        Some("@sms.cricketwireless.net")
    } else if crate::text::str_eq(c, "metropcs") {
        Some("@mymetropcs.com")
    } else if crate::text::str_eq(c, "virgin") {
        Some("@vmobl.com")
    } else if crate::text::str_eq(c, "uscellular") {
        Some("@email.uscc.net")
    } else {
        None
    };
    match suffix {
        Some(sfx) => {
            assert(carrier_gateway_suffix(carrier@) == Some(sfx@));
            let digits = crate::text::filter_digits(phone_number);
            Some(digits.concat(sfx))
        },
        None => {
            assert(carrier_gateway_suffix(carrier@) is None);
            None
        },
    }
}

/// The display name of a priority, as it appears in reminder emails.
pub open spec fn priority_name(p: TaskPriority) -> Seq<char> {
    match p {
        TaskPriority::Low => "Low"@,
        TaskPriority::Medium => "Medium"@,
        TaskPriority::High => "High"@,
        TaskPriority::Urgent => "Urgent"@,
    }
}

/// Renders a priority's display name, as [`priority_name`] describes.
pub fn priority_label(p: TaskPriority) -> (r: &'static str)
    ensures
        r@ == priority_name(p),
{
    match p {
        TaskPriority::Low => "Low",
        TaskPriority::Medium => "Medium",
        TaskPriority::High => "High",
        TaskPriority::Urgent => "Urgent",
    }
}

/// The body of a reminder email: the task's title, description,
/// rendered due date, and priority, under fixed headings.
pub open spec fn reminder_body_text(
    title: Seq<char>,
    description: Seq<char>,
    due_text: Seq<char>,
    p: TaskPriority,
) -> Seq<char> {
    "This is a reminder for your task: "@ + title + "\n\nDescription: "@ + description
        + "\n\nDue: "@ + due_text + "\n\nPriority: "@ + priority_name(p)
}

/// Composes the subject and body of a reminder email from the task's
/// title, description, rendered due date, and priority.
pub fn compose_reminder_email(
    title: &str,
    description: &str,
    due_text: &str,
    priority: TaskPriority,
) -> (r: (String, String))
    ensures
        r.0@ == "Reminder: "@ + title@,
        r.1@ == reminder_body_text(title@, description@, due_text@, priority),
{
    let subject = "Reminder: ".to_owned().concat(title);
    let body = "This is a reminder for your task: ".to_owned().concat(title).concat(
        "\n\nDescription: ",
    ).concat(description).concat("\n\nDue: ").concat(due_text).concat("\n\nPriority: ").concat(
        priority_label(priority),
    );
    (subject, body)
}

/// The plain values of one SMTP delivery. Preparing them happens under
/// the store lock; the network call itself,
/// [`send_outbound_email`], can then run with no lock held.
#[derive(Debug)]
pub struct OutboundEmail {
    pub from: String,
    pub to: String,
    pub subject: String,
    pub body: String,
    pub smtp_server: String,
    pub smtp_port: u16,
    pub username: String,
    pub password: String,
}

/// Attempts one delivery of a prepared message through the transport
/// family its server name selects; the outcome depends on the network,
/// so nothing is assumed beyond the result's shape.
pub fn send_outbound_email(mail: OutboundEmail) -> Result<(), String> {
    let OutboundEmail { from, to, subject, body, smtp_server, smtp_port, username, password } =
        mail;
    send_via_provider(
        from.as_str(),
        to.as_str(),
        subject.as_str(),
        body,
        smtp_server.as_str(),
        smtp_port,
        username,
        password,
    )
}

/// Composes the sender header `name <address>`.
pub fn compose_sender(name: &str, address: &str) -> (r: String)
    ensures
        r@ == name@ + " <"@ + address@ + ">"@,
{
    name.to_owned().concat(" <").concat(address).concat(">")
}

/// Attempts one delivery through the transport family the server's name
/// selects; the outcome depends on the network, so nothing is assumed
/// beyond the result's shape.
pub(crate) fn send_via_provider(
    from: &str,
    to: &str,
    subject: &str,
    body: String,
    server: &str,
    port: u16,
    username: String,
    password: String,
) -> Result<(), String> {
    let msg = match compose_message(from, to, subject, body) {
        Ok(m) => m,
        Err(e) => {
            return Err(e);
        },
    };
    match provider_of(server) {
        MailProvider::Gmail => send_message_starttls_plain(&msg, server, port, username, password, 30),
        MailProvider::Outlook => send_message_starttls(&msg, server, port, username, password, 30),
        MailProvider::Yahoo => send_message_relay(&msg, server, port, username, password, 30),
        MailProvider::Generic => send_message_relay(&msg, server, port, username, password, 30),
    }
}

/// lettre's composed message type, opaque here: a value of it is only
/// carried from the composing wrapper to a sending wrapper.
#[verifier::external_type_specification]
#[verifier::external_body]
pub struct ExMessage(lettre::Message);

/// Relies on lettre's Message builder (Mailbox parsing included):
/// composes a single-part message from the given sender, recipient,
/// subject, and body, or reports why it could not.
#[verifier::external_body]
fn compose_message(from: &str, to: &str, subject: &str, body: String) -> Result<
    lettre::Message,
    String,
> {
    let from = from.parse().map_err(|e| format!("Invalid sender email: {}", e))?;
    let to = to.parse().map_err(|e| format!("Invalid recipient email: {}", e))?;
    lettre::Message::builder().from(from).to(to).subject(subject).body(body).map_err(
        |e| format!("Failed to create email: {}", e),
    )
}

/// Relies on lettre's SmtpTransport::relay (implicit TLS) and
/// Transport::send: attempts one SMTP delivery of the message with the
/// given credentials, port, and timeout. The outcome depends on the
/// network, so nothing is assumed about it.
#[verifier::external_body]
fn send_message_relay(
    msg: &lettre::Message,
    server: &str,
    port: u16,
    username: String,
    password: String,
    timeout_secs: u64,
) -> Result<(), String> {
    let creds = lettre::transport::smtp::authentication::Credentials::new(username, password);
    let mailer = lettre::SmtpTransport::relay(server).map_err(
        |e| format!("Failed to create mailer: {}", e),
    )?.credentials(creds).port(port).timeout(
        Some(std::time::Duration::from_secs(timeout_secs)),
    ).build();
    lettre::Transport::send(&mailer, msg).map(|_| ()).map_err(
        |e| format!("Failed to send email: {}", e),
    )
}

/// Relies on lettre's SmtpTransport::starttls_relay and
/// Transport::send: like the relay wrapper, but upgrades the connection
/// with STARTTLS. The outcome depends on the network, so nothing is
/// assumed about it.
#[verifier::external_body]
fn send_message_starttls(
    msg: &lettre::Message,
    server: &str,
    port: u16,
    username: String,
    password: String,
    timeout_secs: u64,
) -> Result<(), String> {
    let creds = lettre::transport::smtp::authentication::Credentials::new(username, password);
    let mailer = lettre::SmtpTransport::starttls_relay(server).map_err(
        |e| format!("Failed to create mailer: {}", e),
    )?.credentials(creds).port(port).timeout(
        Some(std::time::Duration::from_secs(timeout_secs)),
    ).build();
    lettre::Transport::send(&mailer, msg).map(|_| ()).map_err(
        |e| format!("Failed to send email: {}", e),
    )
}

/// Relies on lettre's SmtpTransport::starttls_relay with the PLAIN
/// authentication mechanism forced, and Transport::send, as some
/// providers require. The outcome depends on the network, so nothing is
/// assumed about it.
#[verifier::external_body]
fn send_message_starttls_plain(
    msg: &lettre::Message,
    server: &str,
    port: u16,
    username: String,
    password: String,
    timeout_secs: u64,
) -> Result<(), String> {
    let creds = lettre::transport::smtp::authentication::Credentials::new(username, password);
    let mailer = lettre::SmtpTransport::starttls_relay(server).map_err(
        |e| format!("Failed to create mailer: {}", e),
    )?.credentials(creds).port(port).authentication(
        vec![lettre::transport::smtp::authentication::Mechanism::Plain],
    ).timeout(Some(std::time::Duration::from_secs(timeout_secs))).build();
    lettre::Transport::send(&mailer, msg).map(|_| ()).map_err(
        |e| format!("Failed to send email: {}", e),
    )
}

/// Relies on notify_rust::Notification::show: displays a desktop
/// notification with a fixed icon and a five-second timeout,
/// fire-and-forget. The outcome depends on the desktop environment, so
/// nothing is assumed about it.
#[verifier::external_body]
pub(crate) fn show_desktop_notification(summary: &str, body: &str) -> Result<(), ()> {
    match notify_rust::Notification::new().summary(summary).body(body).icon("calendar").timeout(
        notify_rust::Timeout::Milliseconds(5000),
    ).show() {
        Ok(_) => Ok(()),
        Err(_) => Err(()),
    }
}

} // verus!
