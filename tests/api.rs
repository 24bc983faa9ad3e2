use wormhole_core::api::{InputHelperError, Mood, WormholeError};

#[test]
fn mood_words_on_the_wire() {
    assert_eq!(Mood::Happy.to_protocol_string(), "happy");
    assert_eq!(Mood::Lonely.to_protocol_string(), "lonely");
    assert_eq!(
        Mood::Errory(WormholeError::ServerError("bad".to_string())).to_protocol_string(),
        "errory"
    );
    assert_eq!(Mood::Scared.to_protocol_string(), "scary");
    assert_eq!(Mood::Unwelcome.to_protocol_string(), "unwelcome");
}

#[test]
fn input_helper_error_texts() {
    assert_eq!(InputHelperError::Inactive.message(), "Inactive");
    assert_eq!(
        InputHelperError::MustChooseNameplateFirst.message(),
        "Should Choose Nameplate first"
    );
    assert_eq!(
        InputHelperError::AlreadyChoseNameplate.description(),
        "Nameplate is already chosen, you can't go back!"
    );
    assert_eq!(
        InputHelperError::AlreadyChoseWords.description(),
        "Words are already chosen you can't go back!"
    );
}

use wormhole_core::api::{maybe_utf8, APIAction};
use wormhole_core::event::{Code, Key};

#[test]
fn test_display() {
    // the key of GotUnverifiedKey is redacted
    let w = serde_json::Value::String("howdy".to_string());
    assert_eq!(
        APIAction::GotWelcome(w).describe(),
        r#"APIAction::GotWelcome(String("howdy"))"#
    );
    assert_eq!(
        APIAction::GotCode(Code("4-code".into())).describe(),
        r#"APIAction::GotCode(Code("4-code"))"#
    );
    assert_eq!(
        APIAction::GotUnverifiedKey(Key("secret_key".into())).describe(),
        r#"APIAction::GotUnverifiedKey(REDACTED)"#
    );
    assert_eq!(
        APIAction::GotVerifier("verf".into()).describe(),
        r#"APIAction::GotVerifier(76657266)"#
    );
    let v = serde_json::Value::String("v1".to_string());
    assert_eq!(
        APIAction::GotVersions(v).describe(),
        r#"APIAction::GotVersions(String("v1"))"#
    );
    assert_eq!(
        APIAction::GotMessage("howdy".into()).describe(),
        r#"APIAction::GotMessage((s=howdy))"#
    );
    assert_eq!(
        APIAction::GotClosed(Ok(Mood::Happy)).describe(),
        r#"APIAction::GotClosed(Happy)"#
    );
}

#[test]
fn describe_closed_with_error_and_errory_mood() {
    let e = WormholeError::ConnectionError("gone \"away\"".to_string());
    assert_eq!(
        APIAction::GotClosed(Err(e.clone())).describe(),
        r#"APIAction::GotClosed(ConnectionError("gone \"away\""))"#
    );
    assert_eq!(
        APIAction::GotClosed(Ok(Mood::Errory(WormholeError::ServerError("x".to_string())))).describe(),
        r#"APIAction::GotClosed(Errory(ServerError("x")))"#
    );
}

#[test]
fn maybe_utf8_falls_back_to_hex() {
    assert_eq!(maybe_utf8(&vec![0xff, 0x00, 0xab]), "(hex=ff00ab)");
    assert_eq!(maybe_utf8(&b"hi".to_vec()), "(s=hi)");
    assert_eq!(maybe_utf8(&Vec::new()), "(s=)");
    assert_eq!(
        APIAction::GotVerifier(vec![0x0f, 0xa0]).describe(),
        "APIAction::GotVerifier(0fa0)"
    );
}

use wormhole_core::api::{decimal_text, APIEvent};

#[test]
fn describe_api_events() {
    assert_eq!(APIEvent::Start.describe(), "APIEvent::Start");
    assert_eq!(APIEvent::AllocateCode(2).describe(), "APIEvent::AllocateCode(2)");
    assert_eq!(APIEvent::AllocateCode(1230).describe(), "APIEvent::AllocateCode(1230)");
    assert_eq!(
        APIEvent::InputHelperChooseWords("purple-sausage".to_string()).describe(),
        "APIEvent::InputHelperChooseWords(purple-sausage)"
    );
    assert_eq!(
        APIEvent::SetCode(Code("4-purple-sausage".to_string())).describe(),
        r#"APIEvent::SetCode(Code("4-purple-sausage"))"#
    );
    assert_eq!(APIEvent::Send(vec![0xff, 0xfe]).describe(), "APIEvent::Send((hex=fffe))");
    assert_eq!(APIEvent::Send(b"hi".to_vec()).describe(), "APIEvent::Send((s=hi))");
}

#[test]
fn decimal_text_matches_std() {
    for n in [0usize, 7, 10, 99, 100, 4096, usize::MAX] {
        assert_eq!(decimal_text(n), n.to_string());
    }
}
