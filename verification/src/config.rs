//! The relay's settings, read from the environment with defaults.
use vstd::prelude::*;

use crate::keyed::str_eq;
use crate::outside::{base58_pubkey, header_char, header_value_valid, parse_pubkey};
use crate::text::{decimal_value, parse_decimal};

verus! {

/// The relay's settings.
#[derive(Debug)]
pub struct Config {
    pub port: u16,
    pub solana_rpc_http_url: String,
    pub solana_rpc_ws_url: String,
    pub program_id: String,
    pub cors_origin: String,
    pub turn_timeout_seconds: u64,
}

/// The settings a client may see.
#[derive(Debug)]
pub struct PublicConfig {
    pub program_id: String,
    pub solana_rpc_http_url: String,
    pub solana_rpc_ws_url: String,
    pub turn_timeout_seconds: u64,
    pub websocket_path: &'static str,
}

/// The raw values of the settings' environment variables, `None` where unset.
#[derive(Debug)]
pub struct ConfigSource {
    pub port: Option<String>,
    pub solana_rpc_http_url: Option<String>,
    pub solana_rpc_ws_url: Option<String>,
    pub program_id: Option<String>,
    pub cors_origin: Option<String>,
    pub turn_timeout_seconds: Option<String>,
}

#[derive(Clone, Copy, Debug, PartialEq, Eq, Structural)]
pub enum ConfigError {
    /// `PORT` is not a port number.
    InvalidPort,
    /// `TURN_TIMEOUT_SECONDS` is not an unsigned 64-bit number.
    InvalidTurnTimeout,
    /// `PROGRAM_ID` is not a base58 account address.
    InvalidProgramId,
}

/// A variable's value, or the default where it is unset.
pub open spec fn setting(value: Option<Seq<char>>, default: Seq<char>) -> Seq<char> {
    match value {
        Some(v) => v,
        None => default,
    }
}

fn setting_or(value: Option<String>, default: &str) -> (r: String)
    ensures
        r@ == setting(value.deep_view(), default@),
{
    match value {
        Some(v) => v,
        None => String::from_str(default),
    }
}

impl Config {
    /// The settings from the environment's values: the port and the turn
    /// timeout are decimal numbers, and each unset variable takes its default.
    pub fn from_source(source: ConfigSource) -> (r: Result<Config, ConfigError>)
        ensures
            match r {
                Ok(c) => {
                    &&& decimal_value(setting(source.port.deep_view(), "8080"@), u16::MAX as nat)
                        == Some(c.port as nat)
                    &&& decimal_value(
                        setting(source.turn_timeout_seconds.deep_view(), "90"@),
                        u64::MAX as nat,
                    ) == Some(c.turn_timeout_seconds as nat)
                    &&& c.solana_rpc_http_url@ == setting(
                        source.solana_rpc_http_url.deep_view(),
                        "https://api.devnet.solana.com"@,
                    )
                    &&& c.solana_rpc_ws_url@ == setting(
                        source.solana_rpc_ws_url.deep_view(),
                        "wss://api.devnet.solana.com"@,
                    )
                    &&& c.program_id@ == setting(
                        source.program_id.deep_view(),
                        "11111111111111111111111111111111"@,
                    )
                    &&& c.cors_origin@ == setting(
                        source.cors_origin.deep_view(),
                        "http://localhost:5173"@,
                    )
                },
                Err(ConfigError::InvalidPort) => decimal_value(
                    setting(source.port.deep_view(), "8080"@),
                    u16::MAX as nat,
                ) is None,
                Err(ConfigError::InvalidTurnTimeout) => decimal_value(
                    setting(source.port.deep_view(), "8080"@),
                    u16::MAX as nat,
                ) is Some && decimal_value(
                    setting(source.turn_timeout_seconds.deep_view(), "90"@),
                    u64::MAX as nat,
                ) is None,
                Err(ConfigError::InvalidProgramId) => false,
            },
    {
        let port_text = setting_or(source.port, "8080");
        let port = match parse_decimal(port_text.as_str(), u16::MAX as u64) {
            Some(p) => p as u16,
            None => return Err(ConfigError::InvalidPort),
        };
        let solana_rpc_http_url = setting_or(
            source.solana_rpc_http_url,
            "https://api.devnet.solana.com",
        );
        let solana_rpc_ws_url = setting_or(source.solana_rpc_ws_url, "wss://api.devnet.solana.com");
        let program_id = setting_or(source.program_id, "11111111111111111111111111111111");
        let cors_origin = setting_or(source.cors_origin, "http://localhost:5173");
        let timeout_text = setting_or(source.turn_timeout_seconds, "90");
        let turn_timeout_seconds = match parse_decimal(timeout_text.as_str(), u64::MAX) {
            Some(t) => t,
            None => return Err(ConfigError::InvalidTurnTimeout),
        };
        Ok(
            Config {
                port,
                solana_rpc_http_url,
                solana_rpc_ws_url,
                program_id,
                cors_origin,
                turn_timeout_seconds,
            },
        )
    }

    /// The settings a client may see, with the websocket path.
    pub fn public(&self) -> (p: PublicConfig)
        ensures
            p.program_id@ == self.program_id@,
            p.solana_rpc_http_url@ == self.solana_rpc_http_url@,
            p.solana_rpc_ws_url@ == self.solana_rpc_ws_url@,
            p.turn_timeout_seconds == self.turn_timeout_seconds,
            p.websocket_path@ == "/ws"@,
    {
        PublicConfig {
            program_id: self.program_id.clone(),
            solana_rpc_http_url: self.solana_rpc_http_url.clone(),
            solana_rpc_ws_url: self.solana_rpc_ws_url.clone(),
            turn_timeout_seconds: self.turn_timeout_seconds,
            websocket_path: "/ws",
        }
    }

    /// The program's address, decoded; an error where it is not a base58 address.
    pub fn validate_program_id(&self) -> (r: Result<Vec<u8>, ConfigError>)
        ensures
            match r {
                Ok(key) => base58_pubkey(self.program_id@) == Some(key@) && key@.len() == 32,
                Err(e) => e == ConfigError::InvalidProgramId && base58_pubkey(self.program_id@) is None,
            },
    {
        match parse_pubkey(self.program_id.as_str()) {
            Some(key) => Ok(key),
            None => Err(ConfigError::InvalidProgramId),
        }
    }
}

/// The origin cross-site requests are allowed from.
pub enum AllowedOrigin {
    /// Any origin.
    Any,
    /// Exactly this origin.
    Exact(String),
}

/// The allowed origin for a configured `CORS_ORIGIN`: `*` allows any origin; a
/// value that can stand in an HTTP header allows exactly that origin; any other
/// value falls back to allowing any origin.
pub fn allowed_origin(origin: &str) -> (r: AllowedOrigin)
    ensures
        origin@ == "*"@ ==> r is Any,
        origin@ != "*"@ && (forall|i: int| 0 <= i < origin@.len() ==> header_char(#[trigger] origin@[i]))
            ==> (r matches AllowedOrigin::Exact(o) && o@ == origin@),
        origin@ != "*"@ && !(forall|i: int| 0 <= i < origin@.len() ==> header_char(#[trigger] origin@[i]))
            ==> r is Any,
{
    if str_eq(origin, "*") {
        AllowedOrigin::Any
    } else if header_value_valid(origin) {
        AllowedOrigin::Exact(String::from_str(origin))
    } else {
        AllowedOrigin::Any
    }
}

} // verus!
