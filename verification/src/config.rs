//! Bot connection settings, and the states an application goes through.
use vstd::prelude::*;

use crate::text::{owned, str_contains_char};

verus! {

/// The `[bot]` section of the configuration: where to connect, the access token, and a name
/// for logs.
#[derive(Debug, Clone, Default)]
pub struct BotConfig {
    pub ws_url: String,
    pub access_token: Option<String>,
    pub name: Option<String>,
}

/// The address a bot connects to when the configuration names none.
pub fn default_ws_url() -> (r: String)
    ensures
        r@ == "ws://127.0.0.1:8080"@,
{
    owned("ws://127.0.0.1:8080")
}

/// The connection URL with the access token appended as a query parameter (after `&` when the
/// URL has a query already, else after `?`); the URL alone when there is no token or it is
/// empty.
pub open spec fn url_with_token(url: Seq<char>, token: Option<Seq<char>>) -> Seq<char> {
    match token {
        Some(t) => if t.len() > 0 {
            if url.contains('?') {
                url + "&access_token="@ + t
            } else {
                url + "?access_token="@ + t
            }
        } else {
            url
        },
        None => url,
    }
}

impl BotConfig {
    pub fn ws_url_with_token(&self) -> (r: String)
        ensures
            r@ == url_with_token(self.ws_url@, self.access_token.deep_view()),
    {
        match &self.access_token {
            Some(token) => {
                if token.as_str().is_empty() {
                    return self.ws_url.clone();
                }
                let mut url = self.ws_url.clone();
                if str_contains_char(self.ws_url.as_str(), '?') {
                    url.push_str("&access_token=");
                } else {
                    url.push_str("?access_token=");
                }
                url.push_str(token.as_str());
                url
            },
            None => self.ws_url.clone(),
        }
    }
}

/// Where an application is in its life.
#[derive(Clone, Copy, Debug, PartialEq, Eq, Structural)]
pub enum AppState {
    /// Being built.
    Building,
    /// Running.
    Running,
    /// Shutting down.
    ShuttingDown,
}

} // verus!
