use puniyu_plugin::adapter::{
    AdapterCommunication, AdapterInfo, AdapterPlatform, AdapterProtocol, AdapterStandard,
};

#[test]
fn platform_names() {
    assert_eq!(AdapterPlatform::QQ.to_platform_str(), "qq");
    assert_eq!(AdapterPlatform::Wechat.to_platform_str(), "wechat");
    assert_eq!(AdapterPlatform::Telegram.to_platform_str(), "telegram");
    assert_eq!(AdapterPlatform::Discord.to_platform_str(), "discord");
    assert_eq!(AdapterPlatform::Kook.to_platform_str(), "kook");
    assert_eq!(AdapterPlatform::Other.to_platform_str(), "other");
}

#[test]
fn standard_names() {
    assert_eq!(AdapterStandard::OneBotV11.to_standard_str(), "onebot-v11");
    assert_eq!(AdapterStandard::OneBotV12.to_standard_str(), "onebot-v12");
    assert_eq!(AdapterStandard::Oicq.to_standard_str(), "oicq");
    assert_eq!(AdapterStandard::Icqq.to_standard_str(), "icqq");
    assert_eq!(AdapterStandard::Other.to_standard_str(), "other");
}

#[test]
fn protocol_names() {
    assert_eq!(AdapterProtocol::QQBOT.to_protocol_str(), "qqbot");
    assert_eq!(AdapterProtocol::ICQQ.to_protocol_str(), "icqq");
    assert_eq!(AdapterProtocol::GoCqHttp.to_protocol_str(), "gocq-http");
    assert_eq!(AdapterProtocol::NapCat.to_protocol_str(), "napcat");
    assert_eq!(AdapterProtocol::LLOneBot.to_protocol_str(), "llonebot");
    assert_eq!(AdapterProtocol::Lagrange.to_protocol_str(), "lagrange");
    assert_eq!(AdapterProtocol::Console.to_protocol_str(), "console");
    assert_eq!(AdapterProtocol::Other.to_protocol_str(), "other");
}

#[test]
fn communication_names() {
    assert_eq!(AdapterCommunication::Http.to_communication_str(), "http");
    assert_eq!(AdapterCommunication::WebSocketServer.to_communication_str(), "websocket-server");
    assert_eq!(AdapterCommunication::WebSocketClient.to_communication_str(), "websocket-client");
    assert_eq!(AdapterCommunication::Grpc.to_communication_str(), "grpc");
    assert_eq!(AdapterCommunication::Other.to_communication_str(), "other");
}

#[test]
fn adapter_info_holds_rendered_names() {
    let info = AdapterInfo {
        name: "lagrange-onebot",
        version: "0.3.0",
        platform: AdapterPlatform::QQ.to_platform_str(),
        standard: AdapterStandard::OneBotV11.to_standard_str(),
        protocol: AdapterProtocol::Lagrange.to_protocol_str(),
        communication: AdapterCommunication::WebSocketClient.to_communication_str(),
        address: Some("ws://127.0.0.1:7000/ws".to_string()),
        connect_time: 1_700_000_000,
        secret: None,
    };
    let copy = info.clone();
    assert_eq!(copy.platform, "qq");
    assert_eq!(copy.standard, "onebot-v11");
    assert_eq!(copy.protocol, "lagrange");
    assert_eq!(copy.communication, "websocket-client");
    assert_eq!(copy.address.as_deref(), Some("ws://127.0.0.1:7000/ws"));
    assert_eq!(copy.connect_time, 1_700_000_000);
    assert!(copy.secret.is_none());
}
