use grok2api::model::{Cost, ModelInfo, ModelService, Tier};

#[test]
fn catalog_lists_twelve_models_in_order() {
    let ids: Vec<String> = ModelService::list().into_iter().map(|m| m.model_id).collect();
    assert_eq!(
        ids,
        vec![
            "grok-3",
            "grok-3-fast",
            "grok-4",
            "grok-4-mini",
            "grok-4-fast",
            "grok-4-heavy",
            "grok-4.1",
            "grok-4.1-fast",
            "grok-4.1-thinking",
            "grok-4.2-beta",
            "grok-imagine-1.0",
            "grok-imagine-1.0-video"
        ]
    );
}

#[test]
fn new_model_is_basic_and_cheap() {
    let m = ModelInfo::new("a", "b", "c", "d");
    assert_eq!(m.model_id, "a");
    assert_eq!(m.grok_model, "b");
    assert_eq!(m.model_mode, "c");
    assert_eq!(m.display_name, "d");
    assert_eq!(m.tier, Tier::Basic);
    assert_eq!(m.cost, Cost::Low);
    assert_eq!(m.description, "");
    assert!(!m.is_video && !m.is_image);
}

#[test]
fn get_finds_catalog_entries() {
    let heavy = ModelService::get("grok-4-heavy").unwrap();
    assert_eq!(heavy.tier, Tier::Super);
    assert_eq!(heavy.cost, Cost::High);
    assert_eq!(heavy.grok_model, "grok-4");
    assert_eq!(heavy.model_mode, "MODEL_MODE_HEAVY");
    let video = ModelService::get("grok-imagine-1.0-video").unwrap();
    assert!(video.is_video);
    assert_eq!(video.description, "Video generation model");
    let image = ModelService::get("grok-imagine-1.0").unwrap();
    assert!(image.is_image && !image.is_video);
    assert_eq!(image.description, "Image generation model");
    let mini = ModelService::get("grok-4-mini").unwrap();
    assert_eq!(mini.grok_model, "grok-4-mini-thinking-tahoe");
    assert_eq!(mini.display_name, "Grok 4 Mini");
    let thinking = ModelService::get("grok-4.1-thinking").unwrap();
    assert_eq!(thinking.cost, Cost::High);
    assert_eq!(thinking.tier, Tier::Basic);
    assert!(ModelService::get("grok-9").is_none());
}

#[test]
fn valid_matches_get() {
    assert!(ModelService::valid("grok-3"));
    assert!(ModelService::valid("grok-4.2-beta"));
    assert!(!ModelService::valid("GROK-3"));
    assert!(!ModelService::valid(""));
}

#[test]
fn pool_depends_on_tier() {
    assert_eq!(ModelService::pool_for_model("grok-4-heavy"), "ssoSuper");
    assert_eq!(ModelService::pool_for_model("grok-4"), "ssoBasic");
    assert_eq!(ModelService::pool_for_model("unknown"), "ssoBasic");
}

#[test]
fn catalog_ids_are_unique() {
    let ids: Vec<String> = ModelService::list().into_iter().map(|m| m.model_id).collect();
    for (i, a) in ids.iter().enumerate() {
        for b in &ids[i + 1..] {
            assert_ne!(a, b);
        }
    }
}

#[test]
fn every_listed_model_is_found_under_its_id() {
    for m in ModelService::list() {
        let found = ModelService::get(&m.model_id).unwrap();
        assert_eq!(found, m);
        assert!(ModelService::valid(&m.model_id));
    }
}
