//! How the session with a printer is set up.

use vstd::prelude::*;
use vstd::string::StringExecFns;
use crate::clock::random_token;
use crate::command::{report_topic, report_topic_of, request_topic, request_topic_of};
use crate::model::{PrinterConfig, PrinterConfigView};

verus! {

/// The port of the broker on a printer.
pub const BROKER_PORT: u16 = 8883;

/// The seconds between keep-alive messages.
pub const KEEP_ALIVE_SECS: u64 = 60;

/// The number of requests that may wait in a session.
pub const REQUEST_CAPACITY: usize = 10;

/// The seconds to wait after a transport error before the next attempt.
pub const RETRY_DELAY_SECS: u64 = 5;

/// The settings of a session with a printer.
#[derive(Debug, PartialEq, Eq)]
pub struct ConnectionPlan {
    pub client_id: String,
    pub host: String,
    pub port: u16,
    pub username: String,
    pub password: String,
    pub keep_alive_secs: u64,
    /// Whether the server's certificate is validated. Printers sign their
    /// own certificates, so it is not.
    pub verify_certificate: bool,
    pub request_capacity: usize,
    pub report_topic: String,
    pub request_topic: String,
    pub retry_delay_secs: u64,
}

/// The model of a `ConnectionPlan`.
pub struct ConnectionPlanView {
    pub client_id: Seq<char>,
    pub host: Seq<char>,
    pub port: u16,
    pub username: Seq<char>,
    pub password: Seq<char>,
    pub keep_alive_secs: u64,
    pub verify_certificate: bool,
    pub request_capacity: usize,
    pub report_topic: Seq<char>,
    pub request_topic: Seq<char>,
    pub retry_delay_secs: u64,
}

impl View for ConnectionPlan {
    type V = ConnectionPlanView;

    open spec fn view(&self) -> ConnectionPlanView {
        ConnectionPlanView {
            client_id: self.client_id@,
            host: self.host@,
            port: self.port,
            username: self.username@,
            password: self.password@,
            keep_alive_secs: self.keep_alive_secs,
            verify_certificate: self.verify_certificate,
            request_capacity: self.request_capacity,
            report_topic: self.report_topic@,
            request_topic: self.request_topic@,
            retry_delay_secs: self.retry_delay_secs,
        }
    }
}

/// The client id of a session: a fixed prefix, the printer's id and a token.
pub open spec fn client_id_of(id: Seq<char>, token: Seq<char>) -> Seq<char> {
    "pulseprint_desktop_"@ + id + "_"@ + token
}

/// The settings of a session with the printer of `config`, under a client
/// id that ends in `token`: TLS on the broker's port without validation of
/// the certificate, the fixed user name, and the access code as password.
pub open spec fn connection_plan_of(config: PrinterConfigView, token: Seq<char>) -> ConnectionPlanView {
    ConnectionPlanView {
        client_id: client_id_of(config.id, token),
        host: config.ip,
        port: BROKER_PORT,
        username: "bblp"@,
        password: config.access_code,
        keep_alive_secs: KEEP_ALIVE_SECS,
        verify_certificate: false,
        request_capacity: REQUEST_CAPACITY,
        report_topic: report_topic_of(config.serial),
        request_topic: request_topic_of(config.serial),
        retry_delay_secs: RETRY_DELAY_SECS,
    }
}

/// The settings of a session with the printer of `config`, under a client
/// id that ends in `token`.
pub fn connection_plan_with(config: &PrinterConfig, token: &str) -> (r: ConnectionPlan)
    ensures
        r@ == connection_plan_of(config@, token@),
{
    let mut client_id = String::from_str("pulseprint_desktop_");
    client_id.append(config.id.as_str());
    client_id.append("_");
    client_id.append(token);
    ConnectionPlan {
        client_id: client_id,
        host: config.ip.clone(),
        port: BROKER_PORT,
        username: String::from_str("bblp"),
        password: config.access_code.clone(),
        keep_alive_secs: KEEP_ALIVE_SECS,
        verify_certificate: false,
        request_capacity: REQUEST_CAPACITY,
        report_topic: report_topic(config.serial.as_str()),
        request_topic: request_topic(config.serial.as_str()),
        retry_delay_secs: RETRY_DELAY_SECS,
    }
}

/// The settings of a session with the printer of `config`, under a client
/// id that ends in a random token.
pub fn connection_plan(config: &PrinterConfig) -> (r: ConnectionPlan)
    ensures
        exists|token: Seq<char>| r@ == #[trigger] connection_plan_of(config@, token),
{
    let token = random_token();
    let r = connection_plan_with(config, token.as_str());
    assert(r@ == connection_plan_of(config@, token@));
    r
}

} // verus!
