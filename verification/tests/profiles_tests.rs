use s3_turbo_list::profiles::{endpoint_url_has_template_placeholder, get_profile, is_endpoint_preset_name};

#[test]
fn bos_profile_has_no_stale_compatibility_caveat() {
    let bos = get_profile("bos").expect("bos profile must exist");
    for text in bos.notes.iter().chain(bos.limitations.iter()) {
        let lower = text.to_lowercase();
        assert!(
            !lower.contains("non-authoritative")
                && !lower.contains("pagination workaround")
                && !lower.contains("continuation-token"),
            "stale BOS compatibility caveat resurfaced: {:?}",
            text
        );
    }
}

#[test]
fn profile_lookup_ignores_case() {
    assert_eq!(get_profile("BOS").unwrap().name, "bos");
    assert!(get_profile("nope").is_none());
}

#[test]
fn preset_names_and_placeholders() {
    assert!(is_endpoint_preset_name("MinIO"));
    assert!(!is_endpoint_preset_name("aws"));
    assert!(endpoint_url_has_template_placeholder("https://<account-id>.r2.cloudflarestorage.com"));
    assert!(!endpoint_url_has_template_placeholder("https://s3.bj.bcebos.com"));
}
