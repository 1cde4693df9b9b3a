//! Checks of the utility layers: hashing and encoding, configuration
//! builders, network names, strategies and time and math helpers.

use offchain_bot::crypto_utils::{AesUtils, CryptoUtils, HashUtils, KeyDerivationUtils, SignatureUtils};
use offchain_bot::jito::JitoConfigBuilder;
use offchain_bot::math_utils::MathUtils;
use offchain_bot::net_utils::{NetworkTools, NetworkUtils};
use offchain_bot::solana::{SolanaConfig, SolanaNetwork};
use offchain_bot::strategy::{StrategyError, StrategyFactory, StrategyParameters};
use offchain_bot::time_utils::TimeUtils;

#[test]
fn test_jito_config_builder() {
    let config = JitoConfigBuilder::new()
        .with_base_url("https://test.com".to_string())
        .with_timeout(60)
        .build();

    assert_eq!(config.base_url, "https://test.com");
    assert_eq!(config.timeout_seconds, 60);
}

#[test]
fn test_solana_network() {
    assert_eq!(SolanaNetwork::Mainnet.get_name(), "Mainnet");
    assert_eq!(SolanaNetwork::from_str("mainnet"), Some(SolanaNetwork::Mainnet));
    assert_eq!(SolanaNetwork::from_str("invalid"), None);
}

#[test]
fn test_solana_config() {
    let config = SolanaConfig::new(SolanaNetwork::Testnet);
    assert_eq!(config.network, SolanaNetwork::Testnet);
    assert_eq!(config.rpc_url, SolanaNetwork::Testnet.get_rpc_url());
}

#[test]
fn test_solana_network_case_and_aliases() {
    assert_eq!(SolanaNetwork::from_str("MAINNET-BETA"), Some(SolanaNetwork::Mainnet));
    assert_eq!(SolanaNetwork::from_str("Localhost"), Some(SolanaNetwork::Localnet));
    assert_eq!(SolanaNetwork::from_str("devnet"), Some(SolanaNetwork::Devnet));
}

#[test]
fn test_sha256() {
    let data = b"Hello, World!";
    let hash = CryptoUtils::sha256(data);
    assert_eq!(hash.len(), 32);

    // The same input produces the same hash.
    let hash2 = CryptoUtils::sha256(data);
    assert_eq!(hash, hash2);
}

#[test]
fn test_hmac() {
    let key = b"secret_key";
    let data = b"Hello, World!";
    let hmac = CryptoUtils::hmac_sha256(key, data);
    assert_eq!(hmac.len(), 32);
}

#[test]
fn test_random_bytes() {
    let bytes1 = CryptoUtils::random_bytes(32);
    let bytes2 = CryptoUtils::random_bytes(32);

    assert_eq!(bytes1.len(), 32);
    assert_eq!(bytes2.len(), 32);
    assert_ne!(bytes1, bytes2);
}

#[test]
fn test_base64() {
    let data = b"Hello, World!";
    let encoded = CryptoUtils::base64_encode(data);
    let decoded = CryptoUtils::base64_decode(&encoded).unwrap();

    assert_eq!(data, decoded.as_slice());
}

#[test]
fn test_base64_known_rendering() {
    assert_eq!(CryptoUtils::base64_encode(b"Hello, World!"), "SGVsbG8sIFdvcmxkIQ==");
    assert!(CryptoUtils::base64_decode("not@valid!").is_err());
}

#[test]
fn test_aes_encryption() {
    let key = AesUtils::generate_aes_key();
    let data = b"This is a test message for AES encryption!";

    let encrypted = AesUtils::encrypt_aes256(&key, data).unwrap();
    let decrypted = AesUtils::decrypt_aes256(&key, &encrypted).unwrap();

    assert_eq!(data, decrypted.as_slice());
}

#[test]
fn test_aes_block_alignment() {
    let key = AesUtils::generate_aes_key();
    // A whole number of blocks round-trips without a padding tail; the
    // tail byte stays outside 1..=16 so nothing looks like padding.
    let data = [0xAAu8; 32];
    let encrypted = AesUtils::encrypt_aes256(&key, &data).unwrap();
    assert_eq!(encrypted.len(), 32);
    assert_ne!(encrypted.as_slice(), &data);
    let decrypted = AesUtils::decrypt_aes256(&key, &encrypted).unwrap();
    assert_eq!(decrypted.as_slice(), &data);
    // A partial block grows to the next block boundary.
    let short = [9u8; 5];
    let encrypted = AesUtils::encrypt_aes256(&key, &short).unwrap();
    assert_eq!(encrypted.len(), 16);
    // Ragged ciphertext is refused.
    assert!(AesUtils::decrypt_aes256(&key, &encrypted[..15]).is_err());
    assert!(AesUtils::encrypt_aes256(&key, b"").unwrap().is_empty());
}

#[test]
fn test_password_hashing() {
    let password = b"my_password";
    let salt = CryptoUtils::generate_salt();

    let hash = CryptoUtils::hash_password(password, &salt);
    let is_valid = CryptoUtils::verify_password(password, &salt, &hash);

    assert!(is_valid);
    assert!(!CryptoUtils::verify_password(b"wrong_password", &salt, &hash));
}

#[test]
fn test_signature() {
    let (private_key, public_key) = SignatureUtils::generate_keypair();
    let data = b"Hello, World!";

    let signature = SignatureUtils::create_signature(&private_key, data).unwrap();
    let is_valid = SignatureUtils::verify_signature(&public_key, data, &signature).unwrap();

    assert!(is_valid);
}

#[test]
fn test_signature_rejects_tampering() {
    let (private_key, public_key) = SignatureUtils::generate_keypair();
    let signature = SignatureUtils::create_signature(&private_key, b"message one").unwrap();
    // The signature does not transfer to another message.
    assert!(!SignatureUtils::verify_signature(&public_key, b"message two", &signature).unwrap());
    // Mis-sized keys and signatures are refused outright.
    assert!(SignatureUtils::create_signature(&private_key[..31], b"m").is_err());
    assert!(SignatureUtils::verify_signature(&public_key[..31], b"m", &signature).is_err());
    assert!(SignatureUtils::verify_signature(&public_key, b"m", &signature[..63]).is_err());
}

#[test]
fn test_secure_compare() {
    let a = b"hello";
    let b = b"hello";
    let c = b"world";

    assert!(CryptoUtils::secure_compare(a, b));
    assert!(!CryptoUtils::secure_compare(a, c));
}

#[test]
fn test_key_derivation_lengths() {
    let key = KeyDerivationUtils::derive_key_from_password(b"pw", b"salt", 1000, 48);
    assert_eq!(key.len(), 48);
    // The derivation is a function of its inputs.
    let again = KeyDerivationUtils::derive_key_from_password(b"pw", b"salt", 1000, 48);
    assert_eq!(key, again);
    let other = KeyDerivationUtils::derive_key_from_password(b"pw2", b"salt", 1000, 48);
    assert_ne!(key, other);
    assert_eq!(AesUtils::generate_aes_key().len(), 32);
    assert_eq!(KeyDerivationUtils::generate_salt(16).len(), 16);
}

#[test]
fn test_string_hash_rendering() {
    // The well-known SHA-256 digest of "Hello, World!".
    let expected = "dffd6021bb2bd5b0af676290809ec3a53191dd81c7f70a4b28688a362182986f".to_string();
    assert_eq!(HashUtils::hash_string(b"Hello, World!"), expected);
    assert!(HashUtils::verify_string_hash(b"Hello, World!", &expected));
    assert!(!HashUtils::verify_string_hash(b"Hello, World?", &expected));
}

#[test]
fn test_port_validation() {
    assert!(NetworkUtils::is_valid_port(80));
    assert!(NetworkUtils::is_valid_port(8080));
    assert!(!NetworkUtils::is_valid_port(0));
}

#[test]
fn test_network_interfaces_placeholder() {
    let interfaces = NetworkTools::get_network_interfaces();
    assert_eq!(interfaces.len(), 1);
    assert_eq!(interfaces[0].name, "eth0");
    assert!(interfaces[0].is_up);
}

#[test]
fn test_current_timestamp() {
    let timestamp = TimeUtils::current_timestamp();
    assert!(timestamp > 0);
}

#[test]
fn test_time_diff() {
    let time1 = 1_700_000_000_000i64;
    let time2 = time1 + 2 * 3_600_000;

    assert_eq!(TimeUtils::time_diff_hours(time1, time2), 2);
    assert_eq!(TimeUtils::time_diff_hours(time2, time1), -2);
    assert_eq!(TimeUtils::time_diff_seconds(time1, time2), 7200);
}

#[test]
fn test_window_calculation() {
    let now = 1_700_000_123i64;
    let window_seconds = 3600i64;

    let window_start = TimeUtils::get_window_start(now, window_seconds);
    let window_end = TimeUtils::get_window_end(now, window_seconds);

    assert!(window_start <= now);
    assert!(window_end > now);
    assert_eq!(window_end - window_start, window_seconds);
    assert!(TimeUtils::is_same_window(window_start, now, window_seconds));
    assert_eq!(TimeUtils::count_windows(window_start, window_end, window_seconds), 2);
}

#[test]
fn test_business_day() {
    // 2024-01-01 10:00 UTC was a Monday; 2024-01-06 a Saturday.
    let monday = 1_704_103_200i64;
    let saturday = 1_704_535_200i64;

    assert!(TimeUtils::is_business_day(monday));
    assert!(!TimeUtils::is_business_day(saturday));
    assert!(TimeUtils::is_business_hours(monday));
    assert!(!TimeUtils::is_business_hours(monday + 12 * 3600));
}

#[test]
fn test_calculate_percentage_change() {
    // From 100 to 110: a 10% rise, in millionths.
    let result = MathUtils::calculate_percentage_change(100, 110);
    assert_eq!(result, 100_000);
    let fall = MathUtils::calculate_percentage_change(100, 90);
    assert_eq!(fall, -100_000);
    assert_eq!(MathUtils::calculate_percentage_change(0, 50), 0);
}

#[test]
fn test_moving_average() {
    let values = vec![1u64, 2, 3, 4, 5];
    let result = MathUtils::moving_average(&values, 3);
    assert_eq!(result, vec![2u64, 3, 4]);
    assert_eq!(MathUtils::moving_average(&values, 0).len(), 0);
    assert_eq!(MathUtils::moving_average(&values, 6).len(), 0);
}

#[test]
fn test_weighted_average_and_drawdown() {
    let values = vec![10u64, 20];
    let weights = vec![1u64, 3];
    assert_eq!(MathUtils::weighted_average(&values, &weights), Some(17));
    assert_eq!(MathUtils::weighted_average(&values, &vec![0u64, 0]), None);
    // Peak 100 falling to 60 is a 40% drawdown, in millionths.
    let series = vec![50u64, 100, 60, 80];
    assert_eq!(MathUtils::max_drawdown(&series), Some(400_000));
    assert_eq!(MathUtils::max_drawdown(&vec![1u64]), None);
}

#[test]
fn test_strategy_validation_errors() {
    let mut params = StrategyParameters::default();
    params.min_profit_threshold = 0;
    let rejected = StrategyFactory::create_base_strategy(
        "broken".to_string(),
        "zero threshold".to_string(),
        params,
    );
    assert_eq!(rejected.err(), Some(StrategyError::NonPositiveProfitThreshold));

    let mut no_dexes = StrategyParameters::default();
    no_dexes.supported_dexes = Vec::new();
    let rejected = StrategyFactory::create_base_strategy(
        "isolated".to_string(),
        "no exchanges".to_string(),
        no_dexes,
    );
    assert_eq!(rejected.err(), Some(StrategyError::NoSupportedDexes));

    let empty_name = StrategyFactory::create_base_strategy(
        String::new(),
        "anonymous".to_string(),
        StrategyParameters::default(),
    );
    assert_eq!(empty_name.err(), Some(StrategyError::EmptyName));

    let accepted = StrategyFactory::create_base_strategy(
        "fine".to_string(),
        "valid".to_string(),
        StrategyParameters::default(),
    );
    assert!(accepted.is_ok());
}

#[test]
fn test_strategy_presets_and_scoring() {
    let conservative = StrategyFactory::create_conservative_strategy();
    assert_eq!(conservative.name(), "Conservative");
    assert_eq!(conservative.parameters.min_profit_threshold, 10_000);
    let aggressive = StrategyFactory::create_aggressive_strategy();
    assert_eq!(aggressive.parameters.max_trade_amount, 50_000);
    let triangular = StrategyFactory::create_triangular_strategy();
    assert_eq!(triangular.parameters.position_size_multiplier, 1_500_000);
}
