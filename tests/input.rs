use wormhole_core::api::InputHelperError;
use wormhole_core::event::{Code, Event, ListerEvent, Nameplate};
use wormhole_core::input::{InputMachine, InputState};

#[test]
fn input_misuse_is_reported() {
    let mut input = InputMachine::new();
    assert_eq!(input.choose_words("x".to_string()), Err(InputHelperError::Inactive));
    assert_eq!(input.refresh_nameplates(), Err(InputHelperError::Inactive));
    assert_eq!(input.choose_nameplate(Nameplate("4".to_string())), Err(InputHelperError::Inactive));
    input.start();
    assert_eq!(
        input.choose_words("x".to_string()),
        Err(InputHelperError::MustChooseNameplateFirst)
    );
    assert!(matches!(input.state, InputState::WantNameplate));
}

#[test]
fn input_receiver_path_builds_the_code() {
    let mut input = InputMachine::new();
    input.start();
    assert_eq!(input.refresh_nameplates(), Ok(vec![Event::Lister(ListerEvent::Refresh)]));
    assert_eq!(input.choose_nameplate(Nameplate("4".to_string())), Ok(()));
    assert_eq!(
        input.choose_nameplate(Nameplate("5".to_string())),
        Err(InputHelperError::AlreadyChoseNameplate)
    );
    assert_eq!(input.refresh_nameplates(), Err(InputHelperError::AlreadyChoseNameplate));
    assert_eq!(
        input.choose_words("purple-sausage".to_string()),
        Ok(Code("4-purple-sausage".to_string()))
    );
    assert!(matches!(input.state, InputState::Done));
    assert_eq!(
        input.choose_words("purple-sausage".to_string()),
        Err(InputHelperError::AlreadyChoseWords)
    );
    input.start();
    assert!(matches!(input.state, InputState::Done));
}
