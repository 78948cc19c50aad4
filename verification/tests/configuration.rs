use slot_race::client::GrpcClient;
use slot_race::config::{
    default_commitment, default_max_slots, default_stop_at_max, default_warmup_slots,
    parse_commitment, CommitmentLevel, Config, ConfigError, StreamConfig,
};

fn stream(name: &str) -> StreamConfig {
    StreamConfig {
        name: name.to_string(),
        endpoint: format!("https://{name}.example:443"),
        access_token: None,
    }
}

fn config(commitment: &str, streams: Vec<StreamConfig>) -> Config {
    Config {
        max_slots: default_max_slots(),
        stop_at_max: default_stop_at_max(),
        commitment: commitment.to_string(),
        warmup_slots: default_warmup_slots(),
        streams,
    }
}

#[test]
fn defaults_are_as_documented() {
    assert_eq!(default_max_slots(), 360);
    assert!(!default_stop_at_max());
    assert_eq!(default_commitment(), "processed");
    assert_eq!(default_warmup_slots(), 10);
}

#[test]
fn default_configuration_is_accepted() {
    let c = config(&default_commitment(), vec![stream("a")]);
    assert_eq!(c.validate(), Ok(()));
    assert_eq!(c.commitment_level(), Ok(CommitmentLevel::Processed));
}

#[test]
fn commitment_is_read_whatever_its_case() {
    assert_eq!(
        config("CONFIRMED", vec![stream("a")]).commitment_level(),
        Ok(CommitmentLevel::Confirmed)
    );
    assert_eq!(
        config("Finalized", vec![stream("a")]).commitment_level(),
        Ok(CommitmentLevel::Finalized)
    );
    assert_eq!(
        config("pRoCeSsEd", vec![stream("a")]).commitment_level(),
        Ok(CommitmentLevel::Processed)
    );
    assert_eq!(config("CONFIRMED", vec![stream("a")]).validate(), Ok(()));
}

#[test]
fn unknown_commitment_is_refused() {
    for bad in ["", "final", "processed ", "rooted", "confirmed!"] {
        let c = config(bad, vec![stream("a")]);
        assert_eq!(c.commitment_level(), Err(ConfigError::InvalidCommitment));
        assert_eq!(c.validate(), Err(ConfigError::InvalidCommitment));
    }
}

#[test]
fn a_configuration_without_streams_is_refused_first() {
    assert_eq!(config("processed", Vec::new()).validate(), Err(ConfigError::NoStreams));
    assert_eq!(config("nonsense", Vec::new()).validate(), Err(ConfigError::NoStreams));
}

#[test]
fn names_in_lower_case_stand_for_levels() {
    assert_eq!(parse_commitment(&"processed".to_string()), Some(CommitmentLevel::Processed));
    assert_eq!(parse_commitment(&"confirmed".to_string()), Some(CommitmentLevel::Confirmed));
    assert_eq!(parse_commitment(&"finalized".to_string()), Some(CommitmentLevel::Finalized));
    assert_eq!(parse_commitment(&"Processed".to_string()), None);
    assert_eq!(parse_commitment(&String::new()), None);
}

#[test]
fn a_client_keeps_its_stream() {
    let mut s = stream("alpha");
    s.access_token = Some("SECRET-REDACTED".to_string());
    let client = GrpcClient::new(s);
    assert_eq!(client.name(), "alpha");
    assert_eq!(client.endpoint(), "https://alpha.example:443");
    assert_eq!(client.access_token().as_deref(), Some("SECRET-REDACTED"));
    let open = GrpcClient::new(stream("beta"));
    assert!(open.access_token().is_none());
}
