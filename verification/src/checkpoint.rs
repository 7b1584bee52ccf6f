//! Model checkpoints: where a checkpoint's files lie in its directory, the
//! text of its metadata file, and what loading decides from what it finds.

use crate::system_info::json_parses;
use crate::text::{decimal, push_decimal, push_str, string_from};
use vstd::prelude::*;

verus! {

/// The path of the marker file that shows a checkpoint was saved in `dir`.
pub open spec fn marker_path_text(dir: Seq<char>) -> Seq<char> {
    dir + "/vae_model.marker"@
}

/// The path of the metadata file of the checkpoint in `dir`.
pub open spec fn metadata_path_text(dir: Seq<char>) -> Seq<char> {
    dir + "/metadata.json"@
}

/// The path of the marker file of the checkpoint in `dir`.
pub fn marker_path(dir: &str) -> (res: String)
    ensures
        res@ == marker_path_text(dir@),
{
    let mut v: Vec<char> = Vec::new();
    push_str(&mut v, dir);
    push_str(&mut v, "/vae_model.marker");
    string_from(v.as_slice())
}

/// The path of the metadata file of the checkpoint in `dir`.
pub fn metadata_path(dir: &str) -> (res: String)
    ensures
        res@ == metadata_path_text(dir@),
{
    let mut v: Vec<char> = Vec::new();
    push_str(&mut v, dir);
    push_str(&mut v, "/metadata.json");
    string_from(v.as_slice())
}

/// The text of the metadata file: a JSON object with the model type and its
/// latent and class dimensions and the time it was saved (seconds since the
/// Unix epoch), members in key order, pretty-printed with two-space indent.
pub open spec fn metadata_text(latent_dim: nat, num_classes: nat, saved_at: nat) -> Seq<char> {
    "{\n  \"latent_dim\": "@ + decimal(latent_dim) + ",\n  \"model_type\": \"VAE\",\n  \"num_classes\": "@
        + decimal(num_classes) + ",\n  \"saved_at\": "@ + decimal(saved_at) + "\n}"@
}

/// The text of the metadata file of a model with `latent_dim` and
/// `num_classes`, saved at `saved_at` seconds since the Unix epoch.
pub fn checkpoint_metadata(latent_dim: usize, num_classes: usize, saved_at: u64) -> (res: String)
    ensures
        res@ == metadata_text(latent_dim as nat, num_classes as nat, saved_at as nat),
{
    let mut v: Vec<char> = Vec::new();
    push_str(&mut v, "{\n  \"latent_dim\": ");
    push_decimal(&mut v, latent_dim as u64);
    push_str(&mut v, ",\n  \"model_type\": \"VAE\",\n  \"num_classes\": ");
    push_decimal(&mut v, num_classes as u64);
    push_str(&mut v, ",\n  \"saved_at\": ");
    push_decimal(&mut v, saved_at);
    push_str(&mut v, "\n}");
    string_from(v.as_slice())
}

/// `serde_json::from_str::<serde_json::Value>` on `text`: whether it parses.
#[verifier::external_body]
fn json_is_valid(text: &str) -> (res: bool)
    ensures
        res == json_parses(text@),
{
    serde_json::from_str::<serde_json::Value>(text).is_ok()
}

/// The error text when `dir` holds no checkpoint.
pub open spec fn not_found_text(dir: Seq<char>) -> Seq<char> {
    "Model checkpoint not found: "@ + dir
}

/// What loading the checkpoint in `path` decides from whether its marker file
/// exists and the text of its metadata file (`None` when there is none or it
/// could not be read): without the marker, the checkpoint is not found;
/// with it, the checkpoint is found, and `true` tells that its metadata is
/// JSON, to be reported.
pub fn checkpoint_lookup(path: &str, marker_exists: bool, metadata: Option<&str>) -> (res: Result<
    bool,
    String,
>)
    ensures
        !marker_exists ==> (res matches Err(e) && e@ == not_found_text(path@)),
        marker_exists ==> res == Ok::<bool, String>(
            match metadata {
                Some(t) => json_parses(t@),
                None => false,
            },
        ),
{
    if !marker_exists {
        let mut v: Vec<char> = Vec::new();
        push_str(&mut v, "Model checkpoint not found: ");
        push_str(&mut v, path);
        return Err(string_from(v.as_slice()));
    }
    match metadata {
        Some(t) => Ok(json_is_valid(t)),
        None => Ok(false),
    }
}

} // verus!
