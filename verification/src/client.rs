//! The market client: the endpoint it connects to and the request that opens every
//! session.

use vstd::prelude::*;
use vstd::string::StringExecFns;
use vstd::pervasive::unreached;
use crate::json::{json_string_array_text, write_string_array};

verus! {

/// Client of the market feed. It holds the endpoint; the sessions themselves are
/// opened by the caller's transport.
#[derive(Clone, Debug, PartialEq, Eq)]
pub struct MarketWsClient {
    ws_url: String,
}

/// The subscription request around the JSON array of the identifiers:
/// `{"assets_ids":` array `}`.
pub open spec fn spec_subscription(encoded_ids: Seq<char>) -> Seq<char> {
    "{\"assets_ids\":"@ + encoded_ids + "}"@
}

impl MarketWsClient {
    /// Endpoint of the market feed.
    pub const DEFAULT_WS_URL: &'static str = "wss://ws-subscriptions-clob.polymarket.com/ws/market";

    /// The endpoint that the client connects to.
    pub closed spec fn url(&self) -> Seq<char> {
        self.ws_url@
    }

    /// A client of the default endpoint.
    pub fn new() -> (client: MarketWsClient)
        ensures
            client.url() == Self::DEFAULT_WS_URL@,
    {
        MarketWsClient { ws_url: String::from_str(Self::DEFAULT_WS_URL) }
    }

    /// A client of the endpoint `ws_url`.
    pub fn with_url(ws_url: &str) -> (client: MarketWsClient)
        ensures
            client.url() == ws_url@,
    {
        MarketWsClient { ws_url: String::from_str(ws_url) }
    }

    pub fn ws_url(&self) -> (url: &str)
        ensures
            url@ == self.url(),
    {
        self.ws_url.as_str()
    }

    /// Puts the JSON array of the identifiers into the request object.
    pub fn frame_subscription(encoded_ids: &str) -> (request: String)
        ensures
            request@ == spec_subscription(encoded_ids@),
    {
        let mut request = String::from_str("{\"assets_ids\":");
        request.append(encoded_ids);
        request.append("}");
        request
    }

    /// The one frame that a session sends: the identifiers, in the order given, as
    /// the array of the request object.
    pub fn subscription_request(token_ids: &Vec<String>) -> (request: String)
        ensures
            request@ == spec_subscription(json_string_array_text(token_ids.deep_view())),
    {
        match write_string_array(token_ids) {
            Ok(encoded) => Self::frame_subscription(encoded.as_str()),
            Err(_) => unreached(),
        }
    }
}

impl Default for MarketWsClient {
    fn default() -> (client: MarketWsClient)
        ensures
            client.url() == MarketWsClient::DEFAULT_WS_URL@,
    {
        MarketWsClient::new()
    }
}

} // verus!
