use rustbot::replies::{reply_text, Reply};
use rustbot::text::{is_blank, starts_with};
use rustbot::token::{token_source, Args, TokenSource, DEFAULT_TOKEN_PATH};

#[test]
fn blank_texts_are_white_space_only() {
    assert!(is_blank(""));
    assert!(is_blank("   "));
    assert!(is_blank("\t\n\r "));
    assert!(is_blank("\u{3000}\u{a0}\u{2028}"));
    assert!(!is_blank(" a "));
    assert!(!is_blank("x"));
    assert!(!is_blank("\u{200b}"));
}

#[test]
fn prefixes_are_compared_character_by_character() {
    assert!(starts_with("https://youtu.be/x", "https://"));
    assert!(starts_with("abc", ""));
    assert!(starts_with("abc", "abc"));
    assert!(!starts_with("ab", "abc"));
    assert!(!starts_with("http://x", "https://"));
    assert!(starts_with("über", "üb"));
}

#[test]
fn replies_have_their_texts() {
    assert_eq!(reply_text(Reply::Ping), "ping");
    assert_eq!(reply_text(Reply::NotInVoiceChannel), "you are not in a voice channel");
    assert_eq!(reply_text(Reply::NotInChannel), "you are not in a channel");
    assert_eq!(reply_text(Reply::NeedVoiceChannel), "you need to specify a voice channel to split to");
    assert_eq!(reply_text(Reply::Searching), "searching");
    assert_eq!(reply_text(Reply::PlacedInQueue), "placed in queue");
    assert_eq!(reply_text(Reply::Playing), "playing");
    assert_eq!(reply_text(Reply::NotInCall), "not in a call");
    assert_eq!(reply_text(Reply::NothingPlaying), "nothing playing");
    assert_eq!(reply_text(Reply::EnabledLooping), "enabled looping");
    assert_eq!(reply_text(Reply::DisabledLooping), "disabled looping");
}

#[test]
fn token_argument_comes_before_token_file() {
    let args = Args { token_path: Some("file".to_string()), token: Some("abc".to_string()) };
    assert!(matches!(token_source(args), TokenSource::Argument(t) if t == "abc"));
}

#[test]
fn token_file_comes_before_default_file() {
    let args = Args { token_path: Some("my/token".to_string()), token: None };
    assert!(matches!(token_source(args), TokenSource::File(p) if p == "my/token"));
}

#[test]
fn default_token_file_without_arguments() {
    let args: Args<String> = Args { token_path: None, token: None };
    assert!(matches!(token_source(args), TokenSource::DefaultFile));
    assert_eq!(DEFAULT_TOKEN_PATH, "./token");
}
