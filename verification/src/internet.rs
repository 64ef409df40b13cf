//! Messages of the category "Internetverbindung": what happened to the
//! connection, with the addresses or the line rates that the message reports.

use crate::log_msg::FromLogMsg;
use crate::pattern::{find_pair, find_value, spec_find_pair, spec_find_value, CharClass};
use crate::text::{
    all_digits, begins_with, copy_range, decimal_value, parse_number, parse_u32_in,
    spec_parse_u32, spec_split, split, starts_with, to_chars,
};
use vstd::prelude::*;

verus! {

/// The addresses that the device got when it connected, each as its four bytes.
#[derive(Debug, PartialEq, Eq, Clone, Copy, Hash)]
pub struct ConnectedDetails {
    /// The device's public address.
    pub ip: [u8; 4],
    /// The two name servers.
    pub dns: [[u8; 4]; 2],
    pub gateway: [u8; 4],
}

/// Why a message does not report a connection.
#[derive(Debug, PartialEq, Eq, Structural, Clone, Copy, Hash)]
pub enum ParseConnectedDetailsError {
    /// The message does not begin as a report of a connection does.
    Prefix,
    /// The public address is missing or is no address.
    PublicIp,
    /// The name servers are missing or are no addresses.
    Dns,
    /// The gateway is missing or is no address.
    Gateway,
}

/// The rates of the line, in kbit/s.
#[derive(Debug, PartialEq, Eq, Structural, Clone, Copy, Hash)]
pub struct DslReadyDeatils {
    pub up: u32,
    pub down: u32,
}

/// Why a message does not report a line that is ready.
#[derive(Debug, PartialEq, Eq, Structural, Clone, Copy, Hash)]
pub enum ParseDslReadyDetailsError {
    /// The message does not begin as a report of a ready line does.
    Prefix,
    /// The rates are missing or are no numbers.
    Rate,
}

/// What a message of the category says.
#[derive(Debug, PartialEq, Eq, Clone, Copy, Hash)]
pub enum InternetMsg {
    /// The connection was cut.
    Disconnected,
    /// The connection was made.
    Connected(ConnectedDetails),
    /// The PPP negotiation timed out.
    PppTimeout,
    /// PPPoE failed for a reason unknown.
    PppUnknown,
    /// The line begins to synchronise.
    DslSyncBegin,
    /// The line does not answer.
    DslNoAnswer,
    /// The line is ready.
    DslReady(DslReadyDeatils),
    /// The provider refused the login.
    SignInFailed,
    /// None of these.
    Unknown,
}

/// `s` is one of the four numbers of an address: one to three digits, no zero in
/// front of another digit, 255 at most.
pub open spec fn is_octet(s: Seq<char>) -> bool {
    &&& 1 <= s.len() <= 3
    &&& all_digits(s)
    &&& s.len() > 1 ==> s[0] != '0'
    &&& decimal_value(s) <= 255
}

/// The four bytes of the address that `s` spells: four numbers with dots between
/// them.
pub open spec fn spec_parse_ipv4(s: Seq<char>) -> Option<Seq<u8>> {
    let fields = spec_split(s, '.');
    if fields.len() == 4 && is_octet(fields[0]) && is_octet(fields[1]) && is_octet(fields[2])
        && is_octet(fields[3]) {
        Some(
            seq![
                decimal_value(fields[0]) as u8,
                decimal_value(fields[1]) as u8,
                decimal_value(fields[2]) as u8,
                decimal_value(fields[3]) as u8,
            ],
        )
    } else {
        None
    }
}

/// The address that holds the four bytes `bytes`.
pub open spec fn address_of(bytes: Seq<u8>) -> [u8; 4] {
    choose|address: [u8; 4]| address@ == bytes
}

/// The pair of the addresses `first` and `second`.
pub open spec fn pair_of(first: [u8; 4], second: [u8; 4]) -> [[u8; 4]; 2] {
    choose|pair: [[u8; 4]; 2]| #[trigger] pair@[0] == first && pair@[1] == second
}

/// How a report of a connection begins.
pub open spec fn connected_prefix() -> Seq<char> {
    "Internetverbindung wurde erfolgreich hergestellt."@
}

/// How a report of a ready line begins.
pub open spec fn dsl_ready_prefix() -> Seq<char> {
    "DSL ist verfügbar"@
}

/// The details of a report of a connection: the public address behind
/// `IP-Adresse: `, the two name servers behind `DNS-Server: ` with ` und ` between
/// them, the gateway behind `Gateway: `. All three are looked for before any is
/// read; the first fault decides.
pub open spec fn spec_connected_details(s: Seq<char>) -> Result<
    ConnectedDetails,
    ParseConnectedDetailsError,
> {
    let ip = spec_find_value(s, "IP-Adresse: "@, CharClass::DigitsAndDots);
    let dns = spec_find_pair(s, "DNS-Server: "@, " und "@, ""@, CharClass::DigitsAndDots);
    let gateway = spec_find_value(s, "Gateway: "@, CharClass::DigitsAndDots);
    if !begins_with(s, connected_prefix()) {
        Err(ParseConnectedDetailsError::Prefix)
    } else if ip is None {
        Err(ParseConnectedDetailsError::PublicIp)
    } else if dns is None {
        Err(ParseConnectedDetailsError::Dns)
    } else if gateway is None {
        Err(ParseConnectedDetailsError::Gateway)
    } else {
        let ip = spec_parse_ipv4(s.subrange(ip->Some_0.from, ip->Some_0.to));
        let dns_1 = spec_parse_ipv4(s.subrange(dns->Some_0.0.from, dns->Some_0.0.to));
        let dns_2 = spec_parse_ipv4(s.subrange(dns->Some_0.1.from, dns->Some_0.1.to));
        let gateway = spec_parse_ipv4(s.subrange(gateway->Some_0.from, gateway->Some_0.to));
        if ip is None {
            Err(ParseConnectedDetailsError::PublicIp)
        } else if dns_1 is None || dns_2 is None {
            Err(ParseConnectedDetailsError::Dns)
        } else if gateway is None {
            Err(ParseConnectedDetailsError::Gateway)
        } else {
            Ok(
                ConnectedDetails {
                    ip: address_of(ip->Some_0),
                    dns: pair_of(address_of(dns_1->Some_0), address_of(dns_2->Some_0)),
                    gateway: address_of(gateway->Some_0),
                },
            )
        }
    }
}

/// The details of a report of a ready line: the two rates behind
/// `DSL-Synchronisierung besteht mit `, with `/` between them and ` kbit/s`
/// behind them.
pub open spec fn spec_dsl_ready_details(s: Seq<char>) -> Result<
    DslReadyDeatils,
    ParseDslReadyDetailsError,
> {
    let rates = spec_find_pair(
        s,
        "DSL-Synchronisierung besteht mit "@,
        "/"@,
        " kbit/s"@,
        CharClass::Digits,
    );
    if !begins_with(s, dsl_ready_prefix()) {
        Err(ParseDslReadyDetailsError::Prefix)
    } else if rates is None {
        Err(ParseDslReadyDetailsError::Rate)
    } else {
        let up = spec_parse_u32(s.subrange(rates->Some_0.0.from, rates->Some_0.0.to));
        let down = spec_parse_u32(s.subrange(rates->Some_0.1.from, rates->Some_0.1.to));
        if up is None || down is None {
            Err(ParseDslReadyDetailsError::Rate)
        } else {
            Ok(DslReadyDeatils { up: up->Some_0, down: down->Some_0 })
        }
    }
}

/// What a message says that has no white space around it. The beginnings are
/// tried in a fixed order. A report of a connection or of a ready line whose
/// details cannot be read says nothing.
pub open spec fn spec_internet_msg(s: Seq<char>) -> Result<InternetMsg, ()> {
    if begins_with(s, "Internetverbindung wurde getrennt."@) || begins_with(
        s,
        "Verbindung getrennt"@,
    ) {
        Ok(InternetMsg::Disconnected)
    } else if begins_with(s, connected_prefix()) {
        match spec_connected_details(s) {
            Ok(details) => Ok(InternetMsg::Connected(details)),
            Err(_) => Err(()),
        }
    } else if begins_with(s, "Zeitüberschreitung bei der PPP-Aushandlung"@) || begins_with(
        s,
        "PPPoE-Fehler: Zeitüberschreitung."@,
    ) {
        Ok(InternetMsg::PppTimeout)
    } else if begins_with(s, "PPPoE-Fehler: Unbekannter Fehler."@) {
        Ok(InternetMsg::PppUnknown)
    } else if begins_with(s, "DSL-Synchronisierung beginnt (Training)."@) {
        Ok(InternetMsg::DslSyncBegin)
    } else if begins_with(s, "DSL antwortet nicht (Keine DSL-Synchronisierung)."@) {
        Ok(InternetMsg::DslNoAnswer)
    } else if begins_with(s, dsl_ready_prefix()) {
        match spec_dsl_ready_details(s) {
            Ok(details) => Ok(InternetMsg::DslReady(details)),
            Err(_) => Err(()),
        }
    } else if begins_with(s, "Anmeldung beim Internetanbieter ist fehlgeschlagen."@) {
        Ok(InternetMsg::SignInFailed)
    } else {
        Ok(InternetMsg::Unknown)
    }
}

/// An address is the one that holds its bytes.
proof fn lemma_address_of(address: [u8; 4])
    ensures
        address_of(address@) == address,
{
    let chosen = address_of(address@);
    assert(chosen@ == address@);
    vstd::array::axiom_array_ext_equal(chosen, address);
    assert(chosen =~= address);
}

/// A pair of addresses is the one that holds the two.
proof fn lemma_pair_of(pair: [[u8; 4]; 2])
    ensures
        pair_of(pair@[0], pair@[1]) == pair,
{
    let chosen = pair_of(pair@[0], pair@[1]);
    assert(pair@[0] == pair@[0] && pair@[1] == pair@[1]);
    assert(chosen@[0] == pair@[0] && chosen@[1] == pair@[1]);
    assert(chosen@ =~= pair@);
    vstd::array::axiom_array_ext_equal(chosen, pair);
    assert(chosen =~= pair);
}

/// One of the four numbers of an address.
fn parse_octet(s: &[char], from: usize, to: usize) -> (octet: Option<u8>)
    requires
        from <= to <= s.len(),
    ensures
        octet == if is_octet(s@.subrange(from as int, to as int)) {
            Some(decimal_value(s@.subrange(from as int, to as int)) as u8)
        } else {
            None
        },
{
    let ghost text = s@.subrange(from as int, to as int);
    if to - from < 1 || to - from > 3 {
        return None;
    }
    assert(text[0] == s@[from as int]);
    if to - from > 1 && s[from] == '0' {
        return None;
    }
    match parse_number(s, from, to, 255) {
        Some(value) => Some(value as u8),
        None => None,
    }
}

/// Reads an address: four numbers with dots between them, each of one to three
/// digits without a zero in front, and 255 at most.
pub fn parse_ipv4(s: &[char]) -> (address: Option<[u8; 4]>)
    ensures
        match spec_parse_ipv4(s@) {
            Some(bytes) => address matches Some(found) && found@ == bytes,
            None => address.is_none(),
        },
{
    let fields = split(s, '.');
    if fields.len() != 4 {
        return None;
    }
    let a = match parse_octet(s, fields[0].0, fields[0].1) {
        Some(octet) => octet,
        None => {
            return None;
        },
    };
    let b = match parse_octet(s, fields[1].0, fields[1].1) {
        Some(octet) => octet,
        None => {
            return None;
        },
    };
    let c = match parse_octet(s, fields[2].0, fields[2].1) {
        Some(octet) => octet,
        None => {
            return None;
        },
    };
    let d = match parse_octet(s, fields[3].0, fields[3].1) {
        Some(octet) => octet,
        None => {
            return None;
        },
    };
    let address = [a, b, c, d];
    assert(address@ =~= seq![a, b, c, d]);
    Some(address)
}

/// Reads the address in `s[span.0..span.1]`.
fn parse_ipv4_in(s: &[char], span: (usize, usize)) -> (address: Option<[u8; 4]>)
    requires
        span.0 <= span.1 <= s.len(),
    ensures
        match spec_parse_ipv4(s@.subrange(span.0 as int, span.1 as int)) {
            Some(bytes) => address == Some(address_of(bytes)),
            None => address.is_none(),
        },
{
    let part = copy_range(s, span.0, span.1);
    match parse_ipv4(part.as_slice()) {
        Some(address) => {
            proof {
                lemma_address_of(address);
            }
            Some(address)
        },
        None => None,
    }
}

impl ConnectedDetails {
    /// Reads the details of a report of a connection.
    pub fn from_str(s: &str) -> (details: Result<ConnectedDetails, ParseConnectedDetailsError>)
        ensures
            details == spec_connected_details(s@),
    {
        let chars = to_chars(s);
        let text = chars.as_slice();
        let prefix = to_chars("Internetverbindung wurde erfolgreich hergestellt.");
        if !starts_with(text, prefix.as_slice()) {
            return Err(ParseConnectedDetailsError::Prefix);
        }
        let class = CharClass::DigitsAndDots;
        let ip = match find_value(text, to_chars("IP-Adresse: ").as_slice(), class) {
            Some(span) => span,
            None => {
                return Err(ParseConnectedDetailsError::PublicIp);
            },
        };
        let (dns_1, dns_2) = match find_pair(
            text,
            to_chars("DNS-Server: ").as_slice(),
            to_chars(" und ").as_slice(),
            to_chars("").as_slice(),
            class,
        ) {
            Some(spans) => spans,
            None => {
                return Err(ParseConnectedDetailsError::Dns);
            },
        };
        let gateway = match find_value(text, to_chars("Gateway: ").as_slice(), class) {
            Some(span) => span,
            None => {
                return Err(ParseConnectedDetailsError::Gateway);
            },
        };
        let ip = match parse_ipv4_in(text, ip) {
            Some(address) => address,
            None => {
                return Err(ParseConnectedDetailsError::PublicIp);
            },
        };
        let dns_1 = match parse_ipv4_in(text, dns_1) {
            Some(address) => address,
            None => {
                return Err(ParseConnectedDetailsError::Dns);
            },
        };
        let dns_2 = match parse_ipv4_in(text, dns_2) {
            Some(address) => address,
            None => {
                return Err(ParseConnectedDetailsError::Dns);
            },
        };
        let gateway = match parse_ipv4_in(text, gateway) {
            Some(address) => address,
            None => {
                return Err(ParseConnectedDetailsError::Gateway);
            },
        };
        let dns = [dns_1, dns_2];
        proof {
            lemma_pair_of(dns);
        }
        Ok(ConnectedDetails { ip, dns, gateway })
    }
}

impl DslReadyDeatils {
    /// Reads the details of a report of a ready line.
    pub fn from_str(s: &str) -> (details: Result<DslReadyDeatils, ParseDslReadyDetailsError>)
        ensures
            details == spec_dsl_ready_details(s@),
    {
        let chars = to_chars(s);
        let text = chars.as_slice();
        if !starts_with(text, to_chars("DSL ist verfügbar").as_slice()) {
            return Err(ParseDslReadyDetailsError::Prefix);
        }
        let (up, down) = match find_pair(
            text,
            to_chars("DSL-Synchronisierung besteht mit ").as_slice(),
            to_chars("/").as_slice(),
            to_chars(" kbit/s").as_slice(),
            CharClass::Digits,
        ) {
            Some(spans) => spans,
            None => {
                return Err(ParseDslReadyDetailsError::Rate);
            },
        };
        let up = match parse_u32_in(text, up.0, up.1) {
            Some(rate) => rate,
            None => {
                return Err(ParseDslReadyDetailsError::Rate);
            },
        };
        let down = match parse_u32_in(text, down.0, down.1) {
            Some(rate) => rate,
            None => {
                return Err(ParseDslReadyDetailsError::Rate);
            },
        };
        Ok(DslReadyDeatils { up, down })
    }
}

/// The text `s` without the white space at its two ends, as `str::trim` of the
/// standard library gives it.
pub uninterp spec fn spec_trim(s: Seq<char>) -> Seq<char>;

/// Calls `str::trim`, which returns the string without its leading and trailing
/// white space, white space being what Unicode calls so. The result is a
/// function of the string alone; the contract gives it its name and claims no
/// more.
#[verifier::external_body]
fn trim(s: &str) -> (trimmed: &str)
    ensures
        trimmed@ == spec_trim(s@),
{
    s.trim()
}

/// Whether `s` begins with `prefix`.
fn begins(s: &[char], prefix: &str) -> (starts: bool)
    ensures
        starts == begins_with(s@, prefix@),
{
    starts_with(s, to_chars(prefix).as_slice())
}

impl FromLogMsg for InternetMsg {
    type Err = ();

    /// What a message of the category says, whatever white space stands around
    /// it.
    fn from_log_msg(msg: &str) -> (parsed: Result<InternetMsg, ()>)
        ensures
            parsed == spec_internet_msg(spec_trim(msg@)),
    {
        InternetMsg::classify(trim(msg))
    }
}

impl InternetMsg {
    /// What a message says that has no white space around it.
    pub fn classify(s: &str) -> (msg: Result<InternetMsg, ()>)
        ensures
            msg == spec_internet_msg(s@),
    {
        let chars = to_chars(s);
        let text = chars.as_slice();
        if begins(text, "Internetverbindung wurde getrennt.") || begins(
            text,
            "Verbindung getrennt",
        ) {
            Ok(InternetMsg::Disconnected)
        } else if begins(text, "Internetverbindung wurde erfolgreich hergestellt.") {
            match ConnectedDetails::from_str(s) {
                Ok(details) => Ok(InternetMsg::Connected(details)),
                Err(_) => Err(()),
            }
        } else if begins(text, "Zeitüberschreitung bei der PPP-Aushandlung") || begins(
            text,
            "PPPoE-Fehler: Zeitüberschreitung.",
        ) {
            Ok(InternetMsg::PppTimeout)
        } else if begins(text, "PPPoE-Fehler: Unbekannter Fehler.") {
            Ok(InternetMsg::PppUnknown)
        } else if begins(text, "DSL-Synchronisierung beginnt (Training).") {
            Ok(InternetMsg::DslSyncBegin)
        } else if begins(text, "DSL antwortet nicht (Keine DSL-Synchronisierung).") {
            Ok(InternetMsg::DslNoAnswer)
        } else if begins(text, "DSL ist verfügbar") {
            match DslReadyDeatils::from_str(s) {
                Ok(details) => Ok(InternetMsg::DslReady(details)),
                Err(_) => Err(()),
            }
        } else if begins(text, "Anmeldung beim Internetanbieter ist fehlgeschlagen.") {
            Ok(InternetMsg::SignInFailed)
        } else {
            Ok(InternetMsg::Unknown)
        }
    }
}

} // verus!
