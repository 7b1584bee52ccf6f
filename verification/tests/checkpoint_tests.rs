use burn_gradient_demo_app::checkpoint::{
    checkpoint_lookup, checkpoint_metadata, marker_path, metadata_path,
};
use serde_json::Value;

fn pretty(latent_dim: usize, num_classes: usize, saved_at: u64) -> String {
    let mut m = serde_json::Map::new();
    m.insert("model_type".to_string(), Value::from("VAE"));
    m.insert("latent_dim".to_string(), Value::from(latent_dim));
    m.insert("num_classes".to_string(), Value::from(num_classes));
    m.insert("saved_at".to_string(), Value::from(saved_at));
    serde_json::to_string_pretty(&Value::Object(m)).unwrap()
}

#[test]
fn metadata_text_is_pretty_json() {
    let text = checkpoint_metadata(256, 90, 1_700_000_000);
    assert_eq!(
        text,
        "{\n  \"latent_dim\": 256,\n  \"model_type\": \"VAE\",\n  \"num_classes\": 90,\n  \"saved_at\": 1700000000\n}"
    );
    assert_eq!(text, pretty(256, 90, 1_700_000_000));
    assert_eq!(checkpoint_metadata(0, 1, u64::MAX), pretty(0, 1, u64::MAX));
}

#[test]
fn checkpoint_file_paths() {
    assert_eq!(marker_path("./models"), "./models/vae_model.marker");
    assert_eq!(metadata_path("./models"), "./models/metadata.json");
}

#[test]
fn missing_marker_is_not_found() {
    assert_eq!(
        checkpoint_lookup("./models", false, Some("{}")),
        Err("Model checkpoint not found: ./models".to_string())
    );
}

#[test]
fn found_checkpoint_reports_json_metadata() {
    let text = checkpoint_metadata(256, 90, 5);
    assert_eq!(checkpoint_lookup("m", true, Some(&text)), Ok(true));
    assert_eq!(checkpoint_lookup("m", true, Some("not json")), Ok(false));
    assert_eq!(checkpoint_lookup("m", true, None), Ok(false));
}
