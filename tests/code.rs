use wormhole_core::code::make_code;
use wormhole_core::event::{Code, Nameplate};

#[test]
fn code_joins_nameplate_and_words() {
    let words = vec!["purple".to_string(), "sausage".to_string()];
    let code = make_code(&Nameplate("4".to_string()), &words);
    assert_eq!(code, Code("4-purple-sausage".to_string()));
    assert_eq!(code.0.split('-').count(), words.len() + 1);
}

#[test]
fn code_without_words_is_the_nameplate() {
    assert_eq!(make_code(&Nameplate("12".to_string()), &Vec::new()), Code("12".to_string()));
}

use wormhole_core::code::split_code;

#[test]
fn split_code_at_first_dash() {
    assert_eq!(
        split_code(&Code("4-purple-sausage".to_string())),
        Some((Nameplate("4".to_string()), "purple-sausage".to_string()))
    );
    assert_eq!(
        split_code(&Code("123-x".to_string())),
        Some((Nameplate("123".to_string()), "x".to_string()))
    );
    assert_eq!(split_code(&Code("nodash".to_string())), None);
    assert_eq!(
        split_code(&Code("-w".to_string())),
        Some((Nameplate(String::new()), "w".to_string()))
    );
}
