//! The URLs of ICE servers.

use vstd::prelude::*;
use webrtc::ice::url::{SchemeType, Url};
use crate::error::{Failure, TransportError, joined};

verus! {

/// What kind of server the URL of an ICE server names.
#[derive(Clone, Copy, Debug, PartialEq, Eq, Structural)]
pub enum IceScheme {
    Stun,
    Stuns,
    Turn,
    Turns,
    Unknown,
}

/// What `Url::parse_url` of the `webrtc` crate's ICE module reads from the URL of
/// an ICE server: its scheme, or the text of the error.
pub uninterp spec fn ice_url(raw: Seq<char>) -> Result<IceScheme, Seq<char>>;

/// `webrtc::ice::url::Url::parse_url`, with the scheme taken out of the result,
/// and an error turned into its text. The result is a function of the text
/// alone; which texts are URLs of ICE servers is not stated here.
#[verifier::external_body]
fn parse_ice_url(raw: &str) -> (parsed: Result<IceScheme, String>)
    ensures
        match parsed {
            Ok(scheme) => ice_url(raw@) == Ok::<IceScheme, Seq<char>>(scheme),
            Err(text) => ice_url(raw@) == Err::<IceScheme, Seq<char>>(text@),
        },
{
    match Url::parse_url(raw) {
        Ok(url) => match url.scheme {
            SchemeType::Stun => Ok(IceScheme::Stun),
            SchemeType::Stuns => Ok(IceScheme::Stuns),
            SchemeType::Turn => Ok(IceScheme::Turn),
            SchemeType::Turns => Ok(IceScheme::Turns),
            SchemeType::Unknown => Ok(IceScheme::Unknown),
        },
        Err(error) => Err(error.to_string()),
    }
}

/// Why a server cannot be used, if it cannot: its URL must be one, and it must
/// not be a relay, for which there are no credentials.
pub open spec fn server_refusal(
    url: Seq<char>,
    parsed: Result<IceScheme, Seq<char>>,
) -> Option<Failure> {
    match parsed {
        Err(reason) => Some(
            Failure::StartFailed("invalid ICE server '"@ + url + "': "@ + reason),
        ),
        Ok(IceScheme::Stun) | Ok(IceScheme::Stuns) => None,
        Ok(_) => Some(Failure::StartFailed("unsupported ICE server '"@ + url + "'"@)),
    }
}

/// Checks a server, given what its URL was read as.
pub fn check_ice_server(url: &str, parsed: &Result<IceScheme, String>) -> (result: Result<
    (),
    TransportError,
>)
    ensures
        ({
            let refusal = server_refusal(
                url@,
                match *parsed {
                    Ok(scheme) => Ok(scheme),
                    Err(reason) => Err(reason@),
                },
            );
            match result {
                Ok(_) => refusal is None,
                Err(error) => refusal == Some(error@),
            }
        }),
{
    match parsed {
        Err(reason) => {
            let mut message = joined("invalid ICE server '", url);
            message.append("': ");
            message.append(reason.as_str());
            Err(TransportError::StartFailed(message))
        },
        Ok(IceScheme::Stun) | Ok(IceScheme::Stuns) => Ok(()),
        Ok(_) => {
            let mut message = joined("unsupported ICE server '", url);
            message.append("'");
            Err(TransportError::StartFailed(message))
        },
    }
}

/// The texts of strings.
pub open spec fn texts(strings: Seq<String>) -> Seq<Seq<char>> {
    strings.map_values(|s: String| s@)
}

/// Why the servers from number `i` on cannot be used, if they cannot: for the
/// first of them that cannot.
pub open spec fn servers_refusal(urls: Seq<Seq<char>>, i: int) -> Option<Failure>
    decreases urls.len() - i,
{
    if i < 0 || i >= urls.len() {
        None
    } else {
        match server_refusal(urls[i], ice_url(urls[i])) {
            Some(failure) => Some(failure),
            None => servers_refusal(urls, i + 1),
        }
    }
}

/// Checks the servers that a transport is to use.
pub fn check_ice_servers(urls: &Vec<String>) -> (result: Result<(), TransportError>)
    ensures
        match result {
            Ok(_) => servers_refusal(texts(urls@), 0) is None,
            Err(error) => servers_refusal(texts(urls@), 0) == Some(error@),
        },
{
    let mut i: usize = 0;
    while i < urls.len()
        invariant
            i <= urls@.len(),
            servers_refusal(texts(urls@), 0) == servers_refusal(texts(urls@), i as int),
        decreases urls@.len() - i,
    {
        let url = urls[i].as_str();
        let parsed = parse_ice_url(url);
        assert(texts(urls@)[i as int] == url@);
        match check_ice_server(url, &parsed) {
            Ok(_) => {},
            Err(error) => {
                return Err(error);
            },
        }
        i = i + 1;
    }
    Ok(())
}

// ---------------------------------------------------------------------------
// Laws
// ---------------------------------------------------------------------------

/// Servers are accepted exactly where each of them can be used.
pub proof fn every_server_is_checked(urls: Seq<Seq<char>>, i: int)
    requires
        0 <= i,
    ensures
        servers_refusal(urls, i) is None <==> forall|k: int|
            i <= k < urls.len() ==> server_refusal(#[trigger] urls[k], ice_url(urls[k])) is None,
    decreases urls.len() - i,
{
    if i < urls.len() {
        every_server_is_checked(urls, i + 1);
    }
}

/// A server is of use exactly where its URL is one of STUN, encrypted or not. A URL
/// of another scheme and a text that is no URL are told apart.
pub proof fn only_stun_is_of_use(url: Seq<char>, scheme: IceScheme, reason: Seq<char>)
    ensures
        server_refusal(url, Ok(scheme)) is None <==> scheme is Stun || scheme is Stuns,
        !(scheme is Stun || scheme is Stuns) ==> server_refusal(url, Ok(scheme)) == Some(
            Failure::StartFailed("unsupported ICE server '"@ + url + "'"@),
        ),
        server_refusal(url, Err(reason)) == Some(
            Failure::StartFailed("invalid ICE server '"@ + url + "': "@ + reason),
        ),
{
}

/// The first server that is of no use gives the failure.
pub proof fn first_bad_server_is_reported(urls: Seq<Seq<char>>, i: int, k: int)
    requires
        0 <= i <= k < urls.len(),
        server_refusal(urls[k], ice_url(urls[k])) is Some,
        forall|j: int|
            i <= j < k ==> server_refusal(#[trigger] urls[j], ice_url(urls[j])) is None,
    ensures
        servers_refusal(urls, i) == server_refusal(urls[k], ice_url(urls[k])),
    decreases k - i,
{
    if i < k {
        first_bad_server_is_reported(urls, i + 1, k);
    }
}

/// The texts of strings are those of each, in their order.
pub proof fn texts_are_in_order(strings: Seq<String>, i: int)
    ensures
        texts(strings).len() == strings.len(),
        0 <= i < strings.len() ==> texts(strings)[i] == strings[i]@,
{
}

} // verus!
