use uzu::registry::{
    resolve_model_specialization, AnyModelConfig, Config, LalamoResolver, Model, ModelSpecialization,
};

fn model(path: Option<&str>) -> Model {
    Model {
        identifier: "m".to_string(),
        local_external_path: path.map(|p| p.to_string()),
        specializations: vec![ModelSpecialization::Chat, ModelSpecialization::Chat],
    }
}

#[test]
fn specialization_follows_the_kind_of_configuration() {
    assert_eq!(
        resolve_model_specialization(Some(AnyModelConfig::LanguageModelConfig)),
        Some(ModelSpecialization::Chat)
    );
    assert_eq!(
        resolve_model_specialization(Some(AnyModelConfig::ClassifierModelConfig)),
        Some(ModelSpecialization::Classification)
    );
    assert_eq!(
        resolve_model_specialization(Some(AnyModelConfig::TTSModelConfig)),
        Some(ModelSpecialization::TextToSpeech)
    );
    assert_eq!(resolve_model_specialization(None), None);
}

#[test]
fn lalamo_models_stand_below_the_directory() {
    let config = Config::lalamo("backend".to_string(), "1.2".to_string(), "/data".to_string());
    assert_eq!(config.identifier, "lalamo");
    assert_eq!(config.name, "Lalamo");
    assert_eq!(config.backend_identifier, "backend");
    assert_eq!(config.backend_version, "1.2");
    assert_eq!(config.path, format!("/data{}models", std::path::MAIN_SEPARATOR));
    assert_eq!(config.resolver, Some(LalamoResolver));
}

#[test]
fn a_separator_is_added_only_where_one_is_needed() {
    let bare = Config::lalamo(String::new(), String::new(), String::new());
    assert_eq!(bare.path, "models");
    let closed = Config::lalamo(String::new(), String::new(), "a/".to_string());
    assert_eq!(closed.path, "a/models");
    let separator = std::path::MAIN_SEPARATOR;
    for open in ["/data", "a", "a b", "/data/models", "."] {
        let config = Config::lalamo(String::new(), String::new(), open.to_string());
        assert_eq!(config.path, format!("{open}{separator}models"));
    }
}

#[test]
fn new_keeps_everything() {
    let config: Config<u8> = Config::new(
        "i".to_string(),
        "b".to_string(),
        "v".to_string(),
        "n".to_string(),
        "p".to_string(),
        Some(7),
    );
    assert_eq!(config.identifier, "i");
    assert_eq!(config.backend_identifier, "b");
    assert_eq!(config.backend_version, "v");
    assert_eq!(config.name, "n");
    assert_eq!(config.path, "p");
    assert_eq!(config.resolver, Some(7));
}

#[test]
fn resolver_writes_the_specialization_down() {
    let resolver = LalamoResolver;
    assert_eq!(resolver.directory(&model(Some("/m"))), Some(&"/m".to_string()));
    assert_eq!(resolver.directory(&model(None)), None);
    let resolved = resolver.resolve(model(Some("/m")), Some(AnyModelConfig::ClassifierModelConfig)).unwrap();
    assert_eq!(resolved.specializations, vec![ModelSpecialization::Classification]);
    assert_eq!(resolved.identifier, "m");
    assert_eq!(resolved.local_external_path, Some("/m".to_string()));
}

#[test]
fn resolver_drops_models_that_it_cannot_look_at() {
    assert_eq!(LalamoResolver.resolve(model(None), Some(AnyModelConfig::LanguageModelConfig)), None);
    assert_eq!(LalamoResolver.resolve(model(Some("/m")), None), None);
}
