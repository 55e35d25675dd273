//! What can go wrong while pinging through a gateway.
use crate::addr::Ipv4;
use crate::span::Span;
use vstd::prelude::*;

verus! {

#[verifier::external_type_specification]
#[verifier::external_body]
pub struct ExIoError(std::io::Error);

/// Why a ping through a gateway did not produce an answer.
#[derive(Debug)]
pub enum Error {
    /// No interface carries the given name.
    InterfaceNotFound(String),
    /// The named interface has no hardware address.
    NoMacAddress(String),
    /// The named interface has no IPv4 address.
    NoIpv4Address(String),
    /// The named interface does not offer an Ethernet channel.
    UnsupportedChannel(String),
    /// No ARP reply from the address within the timeout.
    ArpTimeout(Ipv4, Span),
    /// No ICMP echo reply from the address within the timeout.
    EchoTimeout(Ipv4, Span),
    /// The link layer accepted no frame and reported no error.
    SendDropped,
    /// The link layer reported an error.
    Io(std::io::Error),
}

impl From<std::io::Error> for Error {
    fn from(e: std::io::Error) -> (r: Self) {
        Error::Io(e)
    }
}

impl vstd::std_specs::convert::FromSpecImpl<std::io::Error> for Error {
    open spec fn obeys_from_spec() -> bool {
        true
    }

    open spec fn from_spec(e: std::io::Error) -> Self {
        Error::Io(e)
    }
}

/// What the outcome of handing a frame to the link layer means: `None` is a
/// frame dropped without a word, `Some(Err(e))` an error of the link layer.
pub fn check_sent(outcome: Option<Result<(), std::io::Error>>) -> (r: Result<(), Error>)
    ensures
        match outcome {
            None => r matches Err(Error::SendDropped),
            Some(Ok(())) => r is Ok,
            Some(Err(e)) => r == Err::<(), Error>(Error::Io(e)),
        },
{
    match outcome {
        Some(Ok(())) => Ok(()),
        Some(Err(e)) => Err(Error::Io(e)),
        None => Err(Error::SendDropped),
    }
}

} // verus!
