//! Where models are found, and what they are for.

use vstd::prelude::*;

use std::path::Path;

verus! {

/// The kinds of model configuration.
#[derive(Clone, Copy, Debug, PartialEq, Eq, Structural)]
pub enum AnyModelConfig {
    LanguageModelConfig,
    ClassifierModelConfig,
    TTSModelConfig,
}

/// What a model is for.
#[derive(Clone, Copy, Debug, PartialEq, Eq, Structural)]
pub enum ModelSpecialization {
    Chat,
    Classification,
    TextToSpeech,
}

/// What a model with a configuration of the given kind is for.
pub open spec fn specialization(config: AnyModelConfig) -> ModelSpecialization {
    match config {
        AnyModelConfig::LanguageModelConfig => ModelSpecialization::Chat,
        AnyModelConfig::ClassifierModelConfig => ModelSpecialization::Classification,
        AnyModelConfig::TTSModelConfig => ModelSpecialization::TextToSpeech,
    }
}

/// Tells what a model is for, by the configuration in its directory: there is
/// none where the configuration could not be opened or understood.
pub fn resolve_model_specialization(config: Option<AnyModelConfig>) -> (res: Option<ModelSpecialization>)
    ensures
        res == match config {
            Some(config) => Some(specialization(config)),
            None => None,
        },
        config == Some(AnyModelConfig::LanguageModelConfig) <==> res == Some(ModelSpecialization::Chat),
        config == Some(AnyModelConfig::ClassifierModelConfig) <==> res == Some(
            ModelSpecialization::Classification,
        ),
        config == Some(AnyModelConfig::TTSModelConfig) <==> res == Some(ModelSpecialization::TextToSpeech),
        config is None <==> res is None,
{
    match config {
        Some(AnyModelConfig::LanguageModelConfig) => Some(ModelSpecialization::Chat),
        Some(AnyModelConfig::ClassifierModelConfig) => Some(ModelSpecialization::Classification),
        Some(AnyModelConfig::TTSModelConfig) => Some(ModelSpecialization::TextToSpeech),
        None => None,
    }
}

/// Two kinds of configuration are never for the same.
pub proof fn specialization_tells_kinds_apart(a: AnyModelConfig, b: AnyModelConfig)
    requires
        specialization(a) == specialization(b),
    ensures
        a == b,
{
}

/// A model that a registry lists.
#[derive(Clone, Debug, PartialEq, Eq)]
pub struct Model {
    pub identifier: String,
    /// The directory of a model that was not put there by this library.
    pub local_external_path: Option<String>,
    pub specializations: Vec<ModelSpecialization>,
}

/// Looks at the directories of models to tell what they are for.
#[derive(Clone, Copy, Debug, PartialEq, Eq, Structural)]
pub struct LalamoResolver;

impl LalamoResolver {
    /// The directory in which the configuration of a model is to be looked for.
    pub fn directory<'model>(&self, model: &'model Model) -> (res: Option<&'model String>)
        ensures
            match res {
                Some(path) => model.local_external_path == Some(*path),
                None => model.local_external_path is None,
            },
    {
        match &model.local_external_path {
            Some(path) => Some(path),
            None => None,
        }
    }

    /// Writes down what a model is for, by the configuration in its directory. A
    /// model without a directory, or without a configuration there, is dropped.
    pub fn resolve(&self, model: Model, config: Option<AnyModelConfig>) -> (res: Option<Model>)
        ensures
            match res {
                Some(resolved) => {
                    &&& model.local_external_path is Some
                    &&& config is Some
                    &&& resolved.specializations@ == seq![specialization(config->0)]
                    &&& resolved.identifier == model.identifier
                    &&& resolved.local_external_path == model.local_external_path
                },
                None => model.local_external_path is None || config is None,
            },
            model.local_external_path is Some && config == Some(AnyModelConfig::LanguageModelConfig) ==> res
                is Some && res->0.specializations@ == seq![ModelSpecialization::Chat],
            model.local_external_path is Some && config == Some(AnyModelConfig::ClassifierModelConfig)
                ==> res is Some && res->0.specializations@ == seq![ModelSpecialization::Classification],
            model.local_external_path is Some && config == Some(AnyModelConfig::TTSModelConfig) ==> res
                is Some && res->0.specializations@ == seq![ModelSpecialization::TextToSpeech],
    {
        let mut model = model;
        if model.local_external_path.is_none() {
            return None;
        }
        match resolve_model_specialization(config) {
            Some(specialization) => {
                model.specializations = vec![specialization];
                assert(model.specializations@ =~= seq![specialization]);
                Some(model)
            },
            None => None,
        }
    }
}

/// Whether `path` is that of `name` in the directory `base`: the one behind the
/// other, with a separator between them unless there is no directory or it ends in
/// one. A directory that ends in a colon, or in a character that separates on some
/// machines only, may or may not be followed by one.
pub open spec fn is_path_below(path: Seq<char>, base: Seq<char>, name: Seq<char>) -> bool {
    let plain = path == base + name;
    let separated = path == base + seq!['/'] + name || path == base + seq!['\\'] + name;
    if base.len() == 0 {
        plain
    } else if base.last() == '/' || base.last() == '\\' || base.last() == ':' {
        plain || separated
    } else {
        separated
    }
}

/// Whether a path is taken literally, with no part of it left to be interpreted.
pub open spec fn is_verbatim(path: Seq<char>) -> bool {
    seq!['\\', '\\', '?', '\\'].is_prefix_of(path)
}

/// The path of `name` in the directory `base`.
///
/// It is built by `Path::join`. Trusted: that a name made of small letters alone
/// is put behind the directory, with a separator between them where there is a
/// directory and it ends in neither a separator nor a colon. Of a verbatim path,
/// which is put in order first, nothing is claimed but that the name ends it. Which
/// separator the machine uses, a slash or a backslash, is left open.
#[verifier::external_body]
fn join_path(base: &str, name: &str) -> (res: String)
    requires
        forall|i: int| 0 <= i < name@.len() ==> 'a' <= #[trigger] name@[i] <= 'z',
        name@.len() > 0,
    ensures
        name@.is_suffix_of(res@),
        !is_verbatim(base@) ==> is_path_below(res@, base@, name@),
{
    Path::new(base).join(name).to_string_lossy().into_owned()
}

/// A place in which models are found. The resolver, where there is one, looks at
/// each of them.
#[derive(Clone, Debug)]
pub struct Config<Resolver> {
    pub identifier: String,
    pub backend_identifier: String,
    pub backend_version: String,
    pub name: String,
    pub path: String,
    pub resolver: Option<Resolver>,
}

impl<Resolver> Config<Resolver> {
    /// A place with everything given.
    pub fn new(
        identifier: String,
        backend_identifier: String,
        backend_version: String,
        name: String,
        path: String,
        resolver: Option<Resolver>,
    ) -> (res: Config<Resolver>)
        ensures
            res == (Config {
                identifier,
                backend_identifier,
                backend_version,
                name,
                path,
                resolver,
            }),
    {
        Config { identifier, backend_identifier, backend_version, name, path, resolver }
    }
}

impl Config<LalamoResolver> {
    /// The models below a directory of Lalamo's.
    pub fn lalamo(backend_identifier: String, backend_version: String, path: String) -> (res: Config<
        LalamoResolver,
    >)
        ensures
            res.identifier@ == "lalamo"@,
            res.backend_identifier == backend_identifier,
            res.backend_version == backend_version,
            res.name@ == "Lalamo"@,
            "models"@.is_suffix_of(res.path@),
            !is_verbatim(path@) ==> is_path_below(res.path@, path@, "models"@),
            path@.len() == 0 ==> res.path@ == "models"@,
            path@.len() > 0 && path@[0] != '\\' && path@.last() != '/' && path@.last() != '\\' && path@.last()
                != ':' ==> res.path@ == path@ + seq!['/'] + "models"@ || res.path@ == path@ + seq!['\\']
                + "models"@,
            path@.len() > 0 && path@[0] != '\\' ==> path@.is_prefix_of(res.path@),
            res.resolver == Some(LalamoResolver),
    {
        proof {
            reveal_strlit("models");
        }
        let models_path = join_path(path.as_str(), "models");
        proof {
            let verbatim = seq!['\\', '\\', '?', '\\'];
            if path@.len() == 0 {
                assert(!is_verbatim(path@));
                assert(path@ + "models"@ =~= "models"@);
            } else if path@[0] != '\\' {
                if is_verbatim(path@) {
                    assert(path@.take(4)[0] == verbatim[0]);
                }
                assert(models_path@.take(path@.len() as int) =~= path@);
            }
        }
        Config::new(
            "lalamo".to_owned(),
            backend_identifier,
            backend_version,
            "Lalamo".to_owned(),
            models_path,
            Some(LalamoResolver),
        )
    }
}

} // verus!
