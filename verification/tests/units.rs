use token_extractor::client::{known_clients, leveldb_dir, local_state_path, DiscordClient};
use token_extractor::scanner::is_segment_file;
use token_extractor::errors::ExtractError;
use token_extractor::game::{run_simulated_game, stop_simulated_game};
use token_extractor::stream_key::generate_stream_key;

#[test]
fn test_generate_stream_key() {
    let key1 = generate_stream_key();
    let key2 = generate_stream_key();

    assert!(key1.starts_with("stream_"));
    assert!(key2.starts_with("stream_"));
    assert_ne!(key1, key2);
    assert_eq!(key1.len(), 39); // "stream_" + 32 chars
}

#[test]
fn test_stream_key_suffix_is_alphanumeric() {
    let key = generate_stream_key();
    for c in key.chars().skip(7) {
        assert!(c.is_ascii_alphanumeric());
    }
}

#[test]
fn test_client_paths() {
    assert_eq!(DiscordClient::Stable.path(), "discord");
    assert_eq!(DiscordClient::Canary.path(), "discordcanary");
    assert_eq!(DiscordClient::Ptb.path(), "discordptb");
}

#[test]
fn test_known_clients_in_order() {
    let clients = known_clients();
    assert_eq!(
        clients,
        vec![DiscordClient::Stable, DiscordClient::Canary, DiscordClient::Ptb]
    );
}

#[test]
fn test_variant_root_joins_appdata() {
    let root = DiscordClient::Canary.variant_root("C:\\Users\\me\\AppData\\Roaming");
    assert_eq!(root, "C:\\Users\\me\\AppData\\Roaming\\discordcanary");
}

#[test]
fn test_storage_layout_paths() {
    assert_eq!(local_state_path("R\\discord"), "R\\discord\\Local State");
    assert_eq!(leveldb_dir("R\\discord"), "R\\discord\\Local Storage\\leveldb");
}

#[test]
fn test_segment_file_recognition() {
    assert!(is_segment_file("000123.ldb"));
    assert!(is_segment_file("000124.log"));
    assert!(!is_segment_file("LOCK"));
    assert!(!is_segment_file("MANIFEST-000001"));
    assert!(!is_segment_file("ldb"));
    assert!(!is_segment_file("notes.txt"));
}

#[test]
fn test_stop_simulated_game_image_name() {
    assert_eq!(stop_simulated_game("C:\\games\\demo\\demo.exe"), "demo.exe");
    assert_eq!(stop_simulated_game("dir/sub/game.exe"), "game.exe");
    assert_eq!(stop_simulated_game("mixed\\dir/game.exe"), "game.exe");
    assert_eq!(stop_simulated_game("plain.exe"), "plain.exe");
    assert_eq!(stop_simulated_game("ends-in-sep/"), "");
    assert_eq!(stop_simulated_game(""), "");
}

#[test]
fn test_run_simulated_game_target_path() {
    assert_eq!(
        run_simulated_game("C:\\games\\demo", "demo.exe"),
        "C:\\games\\demo\\demo.exe"
    );
}

#[test]
fn test_error_messages_are_distinct() {
    let all = [
        ExtractError::IoError,
        ExtractError::FormatError,
        ExtractError::CryptoError,
        ExtractError::UnsupportedPlatform,
        ExtractError::NoCredentialsFound,
    ];
    for (i, a) in all.iter().enumerate() {
        for (j, b) in all.iter().enumerate() {
            if i != j {
                assert_ne!(a.message(), b.message());
            }
        }
    }
    assert_eq!(
        ExtractError::NoCredentialsFound.message(),
        "no credentials recoverable from any client"
    );
}
