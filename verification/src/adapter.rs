//! The vocabulary by which a plugin may describe the chat platform it
//! connects to. The registry does not read any of it.
use vstd::prelude::*;

verus! {

/// The chat platform.
#[derive(Debug, Clone)]
pub enum AdapterPlatform {
    QQ,
    Wechat,
    Telegram,
    Discord,
    Kook,
    Other,
}

impl AdapterPlatform {
    /// The platform's name as written on the wire and in logs.
    pub open spec fn spec_str(&self) -> Seq<char> {
        match self {
            AdapterPlatform::QQ => "qq"@,
            AdapterPlatform::Wechat => "wechat"@,
            AdapterPlatform::Telegram => "telegram"@,
            AdapterPlatform::Discord => "discord"@,
            AdapterPlatform::Kook => "kook"@,
            AdapterPlatform::Other => "other"@,
        }
    }

    /// The platform's name as written on the wire and in logs.
    pub fn to_platform_str(&self) -> (r: &'static str)
        ensures
            r@ == self.spec_str(),
    {
        match self {
            AdapterPlatform::QQ => "qq",
            AdapterPlatform::Wechat => "wechat",
            AdapterPlatform::Telegram => "telegram",
            AdapterPlatform::Discord => "discord",
            AdapterPlatform::Kook => "kook",
            AdapterPlatform::Other => "other",
        }
    }
}

/// The protocol standard an adapter follows.
#[derive(Debug, Clone)]
pub enum AdapterStandard {
    OneBotV11,
    OneBotV12,
    Oicq,
    Icqq,
    Other,
}

impl AdapterStandard {
    /// The standard's name as written on the wire and in logs.
    pub open spec fn spec_str(&self) -> Seq<char> {
        match self {
            AdapterStandard::OneBotV11 => "onebot-v11"@,
            AdapterStandard::OneBotV12 => "onebot-v12"@,
            AdapterStandard::Oicq => "oicq"@,
            AdapterStandard::Icqq => "icqq"@,
            AdapterStandard::Other => "other"@,
        }
    }

    /// The standard's name as written on the wire and in logs.
    pub fn to_standard_str(&self) -> (r: &'static str)
        ensures
            r@ == self.spec_str(),
    {
        match self {
            AdapterStandard::OneBotV11 => "onebot-v11",
            AdapterStandard::OneBotV12 => "onebot-v12",
            AdapterStandard::Oicq => "oicq",
            AdapterStandard::Icqq => "icqq",
            AdapterStandard::Other => "other",
        }
    }
}

/// The implementation of the protocol an adapter talks to.
#[derive(Debug, Clone)]
pub enum AdapterProtocol {
    QQBOT,
    ICQQ,
    GoCqHttp,
    NapCat,
    LLOneBot,
    Lagrange,
    Console,
    Other,
}

impl AdapterProtocol {
    /// The implementation's name as written on the wire and in logs.
    pub open spec fn spec_str(&self) -> Seq<char> {
        match self {
            AdapterProtocol::QQBOT => "qqbot"@,
            AdapterProtocol::ICQQ => "icqq"@,
            AdapterProtocol::GoCqHttp => "gocq-http"@,
            AdapterProtocol::NapCat => "napcat"@,
            AdapterProtocol::LLOneBot => "llonebot"@,
            AdapterProtocol::Lagrange => "lagrange"@,
            AdapterProtocol::Console => "console"@,
            AdapterProtocol::Other => "other"@,
        }
    }

    /// The implementation's name as written on the wire and in logs.
    pub fn to_protocol_str(&self) -> (r: &'static str)
        ensures
            r@ == self.spec_str(),
    {
        match self {
            AdapterProtocol::QQBOT => "qqbot",
            AdapterProtocol::ICQQ => "icqq",
            AdapterProtocol::GoCqHttp => "gocq-http",
            AdapterProtocol::NapCat => "napcat",
            AdapterProtocol::LLOneBot => "llonebot",
            AdapterProtocol::Lagrange => "lagrange",
            AdapterProtocol::Console => "console",
            AdapterProtocol::Other => "other",
        }
    }
}

/// How an adapter exchanges messages.
#[derive(Debug, Clone)]
pub enum AdapterCommunication {
    Http,
    WebSocketServer,
    WebSocketClient,
    Grpc,
    Other,
}

impl AdapterCommunication {
    /// The transport's name as written on the wire and in logs.
    pub open spec fn spec_str(&self) -> Seq<char> {
        match self {
            AdapterCommunication::Http => "http"@,
            AdapterCommunication::WebSocketServer => "websocket-server"@,
            AdapterCommunication::WebSocketClient => "websocket-client"@,
            AdapterCommunication::Grpc => "grpc"@,
            AdapterCommunication::Other => "other"@,
        }
    }

    /// The transport's name as written on the wire and in logs.
    pub fn to_communication_str(&self) -> (r: &'static str)
        ensures
            r@ == self.spec_str(),
    {
        match self {
            AdapterCommunication::Http => "http",
            AdapterCommunication::WebSocketServer => "websocket-server",
            AdapterCommunication::WebSocketClient => "websocket-client",
            AdapterCommunication::Grpc => "grpc",
            AdapterCommunication::Other => "other",
        }
    }
}

/// What an adapter reports of itself.
#[derive(Debug, Clone)]
pub struct AdapterInfo {
    /// The adapter's name.
    pub name: &'static str,
    /// The adapter's version.
    pub version: &'static str,
    /// The platform, as `AdapterPlatform::to_platform_str` writes it.
    pub platform: &'static str,
    /// The standard, as `AdapterStandard::to_standard_str` writes it.
    pub standard: &'static str,
    /// The implementation, as `AdapterProtocol::to_protocol_str` writes it.
    pub protocol: &'static str,
    /// The transport, as `AdapterCommunication::to_communication_str` writes it.
    pub communication: &'static str,
    /// The address the adapter talks to, such as `ws://127.0.0.1:7000/ws`.
    pub address: Option<String>,
    /// When the connection was made.
    pub connect_time: u32,
    /// The secret used to authenticate.
    pub secret: Option<String>,
}

} // verus!
