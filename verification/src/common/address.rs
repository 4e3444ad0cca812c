//! Validation of the addresses that the client and the server exchange:
//! `udp://<host>:<port>` stream targets and TCP server addresses.

use vstd::prelude::*;

use crate::common::error::CommonError;
use crate::text::starts_with;

verus! {

/// The parts of a parsed URL that the validation reads.
pub struct UrlParts {
    pub scheme: String,
    pub host: Option<String>,
    pub port: Option<u16>,
}

/// The components (scheme, host as displayed, explicit port) that
/// `url::Url::parse` finds in `input`, or `None` when it rejects `input`.
pub uninterp spec fn url_components(input: Seq<char>) -> Option<(Seq<char>, Option<Seq<char>>, Option<u16>)>;

/// The view of an optional string.
pub open spec fn opt_view(s: Option<String>) -> Option<Seq<char>> {
    match s {
        Some(v) => Some(v@),
        None => None,
    }
}

impl UrlParts {
    /// The components as plain values.
    pub open spec fn components(&self) -> (Seq<char>, Option<Seq<char>>, Option<u16>) {
        (self.scheme@, opt_view(self.host), self.port)
    }
}

/// The components of an optional parse result.
pub open spec fn parsed_components(p: Option<UrlParts>) -> Option<(Seq<char>, Option<Seq<char>>, Option<u16>)> {
    match p {
        Some(parts) => Some(parts.components()),
        None => None,
    }
}

/// Parses `input` with `url::Url::parse` and reads back `scheme()`,
/// `host()` (as its `to_string()`) and `port()`. The contract only ties the
/// result to `url_components(input)`: what the URL parser accepts and how
/// it normalises the parts is not stated.
#[verifier::external_body]
pub(crate) fn parse_url(input: &str) -> (parsed: Option<UrlParts>)
    ensures
        parsed_components(parsed) == url_components(input@),
{
    match url::Url::parse(input) {
        Ok(url) => Some(
            UrlParts {
                scheme: url.scheme().to_string(),
                host: match url.host() {
                    Some(h) => Some(h.to_string()),
                    None => None,
                },
                port: url.port(),
            },
        ),
        Err(_) => None,
    }
}

/// Why a UDP stream address was refused.
#[derive(Debug, Clone, Copy, PartialEq, Eq)]
pub enum UdpAddressError {
    MissingPrefix,
    WrongScheme,
    MissingHost,
    MissingPort,
    Unparsable,
}

impl UdpAddressError {
    /// The text reported for this refusal.
    pub open spec fn spec_message(self) -> Seq<char> {
        match self {
            UdpAddressError::MissingPrefix => "Invalid UDP address format. Expected: udp://<host>:<port>"@,
            UdpAddressError::WrongScheme => "Invalid UDP address format. Scheme must be udp"@,
            UdpAddressError::MissingHost => "Invalid UDP address format. Host is missing"@,
            UdpAddressError::MissingPort => "Invalid UDP address format. Port is missing"@,
            UdpAddressError::Unparsable => "Invalid UDP address format. Cannot parse URL"@,
        }
    }

    /// The text reported for this refusal.
    pub fn message(&self) -> (m: String)
        ensures
            m@ == self.spec_message(),
    {
        match self {
            UdpAddressError::MissingPrefix => String::from_str(
                "Invalid UDP address format. Expected: udp://<host>:<port>",
            ),
            UdpAddressError::WrongScheme => String::from_str(
                "Invalid UDP address format. Scheme must be udp",
            ),
            UdpAddressError::MissingHost => String::from_str(
                "Invalid UDP address format. Host is missing",
            ),
            UdpAddressError::MissingPort => String::from_str(
                "Invalid UDP address format. Port is missing",
            ),
            UdpAddressError::Unparsable => String::from_str(
                "Invalid UDP address format. Cannot parse URL",
            ),
        }
    }
}

/// The stream endpoint that URL components describe: the host and port of a
/// `udp` URL that has both.
pub open spec fn spec_udp_endpoint(
    parsed: Option<(Seq<char>, Option<Seq<char>>, Option<u16>)>,
) -> Result<(Seq<char>, u16), UdpAddressError> {
    match parsed {
        None => Err(UdpAddressError::Unparsable),
        Some((scheme, host, port)) => if scheme != "udp"@ {
            Err(UdpAddressError::WrongScheme)
        } else {
            match host {
                None => Err(UdpAddressError::MissingHost),
                Some(h) => match port {
                    None => Err(UdpAddressError::MissingPort),
                    Some(p) => Ok((h, p)),
                },
            }
        },
    }
}

/// The outcome of validating `address` as a `udp://<host>:<port>` target.
pub open spec fn spec_parse_udp_address(address: Seq<char>) -> Result<(Seq<char>, u16), UdpAddressError> {
    if !"udp://"@.is_prefix_of(address) {
        Err(UdpAddressError::MissingPrefix)
    } else {
        spec_udp_endpoint(url_components(address))
    }
}

/// The view of an endpoint result.
pub open spec fn endpoint_view<E>(r: Result<(String, u16), E>) -> Result<(Seq<char>, u16), E> {
    match r {
        Ok((h, p)) => Ok((h@, p)),
        Err(e) => Err(e),
    }
}

/// Reads the stream endpoint out of the components of a parsed URL.
pub fn udp_endpoint(parsed: Option<UrlParts>) -> (r: Result<(String, u16), UdpAddressError>)
    ensures
        endpoint_view(r) == spec_udp_endpoint(parsed_components(parsed)),
{
    match parsed {
        None => Err(UdpAddressError::Unparsable),
        Some(parts) => {
            let udp = String::from_str("udp");
            proof {
                reveal_strlit("udp");
            }
            if parts.scheme != udp {
                return Err(UdpAddressError::WrongScheme);
            }
            match parts.host {
                None => Err(UdpAddressError::MissingHost),
                Some(h) => match parts.port {
                    None => Err(UdpAddressError::MissingPort),
                    Some(p) => Ok((h, p)),
                },
            }
        },
    }
}

/// Validates `address` as a `udp://<host>:<port>` stream target and returns
/// its host and port.
pub fn parse_udp_address(address: &str) -> (r: Result<(String, u16), UdpAddressError>)
    ensures
        endpoint_view(r) == spec_parse_udp_address(address@),
{
    proof {
        reveal_strlit("udp://");
    }
    if !starts_with(address, "udp://") {
        return Err(UdpAddressError::MissingPrefix);
    }
    let parsed = parse_url(address);
    udp_endpoint(parsed)
}

/// Validates `address` as a `udp://<host>:<port>` stream target and returns
/// its host and port; a refusal carries the text that says why.
pub fn validate_udp_address(address: &str) -> (r: Result<(String, u16), CommonError>)
    ensures
        match spec_parse_udp_address(address@) {
            Ok((host, port)) => r matches Ok((h, p)) && h@ == host && p == port,
            Err(why) => r matches Err(e) && e.spec_message() == why.spec_message(),
        },
{
    match parse_udp_address(address) {
        Ok(endpoint) => Ok(endpoint),
        Err(why) => Err(CommonError::CommonError(why.message())),
    }
}

/// Picks the address that a TCP server address resolved to: `resolved` is
/// `None` when resolution failed, else the resolved addresses in order, each
/// as displayed. The first one is the result; no address at all is an error.
pub fn validate_tcp_address(resolved: Option<Vec<String>>) -> (r: Result<String, CommonError>)
    ensures
        match resolved {
            Some(list) if list@.len() > 0 => r matches Ok(a) && a@ == list@[0]@,
            _ => r matches Err(e) && e.spec_message() == "Addess not correcr"@,
        },
{
    match resolved {
        Some(list) => {
            if list.len() > 0 {
                Ok(list[0].clone())
            } else {
                Err(CommonError::CommonError(String::from_str("Addess not correcr")))
            }
        },
        None => Err(CommonError::CommonError(String::from_str("Addess not correcr"))),
    }
}

/// The texts of the refusals, one per reason.
pub proof fn lemma_udp_error_messages()
    ensures
        UdpAddressError::MissingPrefix.spec_message()
            == "Invalid UDP address format. Expected: udp://<host>:<port>"@,
        UdpAddressError::WrongScheme.spec_message()
            == "Invalid UDP address format. Scheme must be udp"@,
        UdpAddressError::MissingHost.spec_message()
            == "Invalid UDP address format. Host is missing"@,
        UdpAddressError::MissingPort.spec_message()
            == "Invalid UDP address format. Port is missing"@,
        UdpAddressError::Unparsable.spec_message()
            == "Invalid UDP address format. Cannot parse URL"@,
{
}

/// A UDP stream target is accepted exactly when it starts with `udp://`
/// and the URL parser finds the `udp` scheme, a host and a port; the result
/// is that host and port. Otherwise the first missing part is the reason.
pub proof fn lemma_udp_address_laws(address: Seq<char>)
    ensures
        !"udp://"@.is_prefix_of(address) ==> spec_parse_udp_address(address) == Err::<
            (Seq<char>, u16),
            UdpAddressError,
        >(UdpAddressError::MissingPrefix),
        "udp://"@.is_prefix_of(address) ==> match url_components(address) {
            None => spec_parse_udp_address(address) == Err::<(Seq<char>, u16), UdpAddressError>(
                UdpAddressError::Unparsable,
            ),
            Some((scheme, host, port)) => {
                &&& scheme != "udp"@ ==> spec_parse_udp_address(address) == Err::<
                    (Seq<char>, u16),
                    UdpAddressError,
                >(UdpAddressError::WrongScheme)
                &&& (scheme == "udp"@ && host is None) ==> spec_parse_udp_address(address) == Err::<
                    (Seq<char>, u16),
                    UdpAddressError,
                >(UdpAddressError::MissingHost)
                &&& (scheme == "udp"@ && host is Some && port is None) ==> spec_parse_udp_address(
                    address,
                ) == Err::<(Seq<char>, u16), UdpAddressError>(UdpAddressError::MissingPort)
                &&& (scheme == "udp"@ && host is Some && port is Some) ==> spec_parse_udp_address(
                    address,
                ) == Ok::<(Seq<char>, u16), UdpAddressError>((host->Some_0, port->Some_0))
            },
        },
{
}

} // verus!
