//! The configuration: defaults for what the command line leaves open, and the
//! models that can be talked to.

use vstd::prelude::*;
use vstd::string::StringSliceAdditionalSpecFns;
use crate::json::{document, parse, Json, Member};
use crate::wire::{optional_text, read_optional_text};

verus! {

/// The timeout, in seconds, where none is set.
pub const DEFAULT_TIMEOUT: u64 = 1800;

/// How to reach one model.
#[derive(Debug, PartialEq, Eq)]
pub struct Model {
    /// The name that the server knows the model by.
    pub access_point: String,
    /// The server's host, where it is not the configuration's.
    pub base_url: Option<String>,
}

/// A [`Model`] in specifications.
pub ghost struct ModelView {
    pub access_point: Seq<char>,
    pub base_url: Option<Seq<char>>,
}

impl View for Model {
    type V = ModelView;

    open spec fn view(&self) -> ModelView {
        ModelView {
            access_point: self.access_point@,
            base_url: match self.base_url {
                Some(host) => Some(host@),
                None => None,
            },
        }
    }
}

/// A model under its name.
#[derive(Debug, PartialEq, Eq)]
pub struct ModelEntry {
    pub name: String,
    pub model: Model,
}

/// The map that `entries` spell, read in order: a later entry for a name
/// takes the place of an earlier one.
pub open spec fn table_of(entries: Seq<ModelEntry>) -> Map<Seq<char>, ModelView>
    decreases entries.len(),
{
    if entries.len() == 0 {
        Map::empty()
    } else {
        table_of(entries.drop_last()).insert(entries.last().name@, entries.last().model@)
    }
}

/// The models of a configuration, by name.
pub struct Models {
    entries: Vec<ModelEntry>,
}

impl View for Models {
    type V = Map<Seq<char>, ModelView>;

    closed spec fn view(&self) -> Map<Seq<char>, ModelView> {
        table_of(self.entries@)
    }
}

impl Models {
    /// No models.
    pub fn new() -> (models: Models)
        ensures
            models@ == Map::<Seq<char>, ModelView>::empty(),
    {
        Models { entries: Vec::new() }
    }

    /// Puts `model` under `name`, in place of what was there.
    pub fn insert(&mut self, name: String, model: Model)
        ensures
            final(self)@ == old(self)@.insert(name@, model@),
    {
        self.entries.push(ModelEntry { name, model });
        assert(self.entries@.drop_last() =~= old(self).entries@);
    }

    /// The model under `name`.
    pub fn get(&self, name: &String) -> (res: Option<&Model>)
        ensures
            match res {
                Some(model) => self@.contains_key(name@) && self@[name@] == model@,
                None => !self@.contains_key(name@),
            },
    {
        let mut i: usize = self.entries.len();
        assert(self.entries@.take(i as int) =~= self.entries@);
        while i > 0
            invariant
                i <= self.entries@.len(),
                self@.contains_key(name@) == table_of(self.entries@.take(i as int)).contains_key(
                    name@,
                ),
                self@.contains_key(name@) ==> self@[name@] == table_of(
                    self.entries@.take(i as int),
                )[name@],
            decreases i,
        {
            let ghost upto = self.entries@.take(i as int);
            assert(upto.drop_last() =~= self.entries@.take(i - 1));
            assert(upto.last() == self.entries@[i - 1]);
            i -= 1;
            if self.entries[i].name == *name {
                return Some(&self.entries[i].model);
            }
        }
        None
    }
}

/// The configuration.
pub struct Config {
    /// The system prompt.
    pub prompt: String,
    /// The request timeout, in seconds.
    pub timeout: u64,
    /// The name of the model to talk to where the command line names none.
    pub default_model: String,
    /// The server's host, for a model that names none.
    pub base_url: String,
    pub models: Models,
}

/// A [`Config`] in specifications.
pub ghost struct ConfigView {
    pub prompt: Seq<char>,
    pub timeout: u64,
    pub default_model: Seq<char>,
    pub base_url: Seq<char>,
    pub models: Map<Seq<char>, ModelView>,
}

impl View for Config {
    type V = ConfigView;

    open spec fn view(&self) -> ConfigView {
        ConfigView {
            prompt: self.prompt@,
            timeout: self.timeout,
            default_model: self.default_model@,
            base_url: self.base_url@,
            models: self.models@,
        }
    }
}

/// The configuration where nothing is set.
pub open spec fn blank() -> ConfigView {
    ConfigView {
        prompt: Seq::empty(),
        timeout: 0,
        default_model: Seq::empty(),
        base_url: Seq::empty(),
        models: Map::empty(),
    }
}

/// The configuration to work with, given what was loaded, if anything was:
/// a timeout of zero, or none, becomes the default.
pub open spec fn filled(loaded: Option<ConfigView>) -> ConfigView {
    match loaded {
        Some(config) => ConfigView {
            timeout: if config.timeout > 0 {
                config.timeout
            } else {
                DEFAULT_TIMEOUT
            },
            ..config
        },
        None => ConfigView { timeout: DEFAULT_TIMEOUT, ..blank() },
    }
}

/// The text of a member that may be left out: empty where it is missing,
/// `None` where it is there and no string.
pub open spec fn text_or_empty(object: Json, name: Seq<char>) -> Option<Seq<char>> {
    match object.field(name) {
        None => Some(Seq::empty()),
        Some(Json::Text(text)) => Some(text@),
        Some(_) => None,
    }
}

/// The number of a member that may be left out: zero where it is missing,
/// `None` where it is there and no unsigned 64-bit integer.
pub open spec fn number_or_zero(object: Json, name: Seq<char>) -> Option<u64> {
    match object.field(name) {
        None => Some(0),
        Some(Json::Number(Some(n))) => Some(n),
        Some(_) => None,
    }
}

/// The model that a JSON object spells: `access_point` is a string, and
/// `base_url` is a string, null or missing.
pub open spec fn model_of(object: Json) -> Option<ModelView> {
    match (object.field("access_point"@), optional_text(object, "base_url"@)) {
        (Some(Json::Text(access_point)), Some(base_url)) => Some(
            ModelView { access_point: access_point@, base_url },
        ),
        _ => None,
    }
}

/// The models that the members of a JSON object spell; `None` where one of
/// them spells no model.
pub open spec fn models_of(members: Seq<Member>) -> Option<Map<Seq<char>, ModelView>>
    decreases members.len(),
{
    if members.len() == 0 {
        Some(Map::empty())
    } else {
        match (models_of(members.drop_last()), model_of(members.last().value)) {
            (Some(earlier), Some(model)) => Some(earlier.insert(members.last().name@, model)),
            _ => None,
        }
    }
}

/// The models of a configuration object: none where `models` is missing,
/// `None` where it is there and no object of models.
pub open spec fn models_or_none(object: Json) -> Option<Map<Seq<char>, ModelView>> {
    match object.field("models"@) {
        None => Some(Map::empty()),
        Some(Json::Object(members)) => models_of(members@),
        Some(_) => None,
    }
}

/// The configuration that a JSON document spells. It has to be an object;
/// each member may be left out, and one that is there has to have its type.
pub open spec fn config_of(doc: Json) -> Option<ConfigView> {
    if !(doc is Object) {
        None
    } else {
        match (
            text_or_empty(doc, "prompt"@),
            number_or_zero(doc, "timeout"@),
            text_or_empty(doc, "default_model"@),
            text_or_empty(doc, "base_url"@),
            models_or_none(doc),
        ) {
            (Some(prompt), Some(timeout), Some(default_model), Some(base_url), Some(models)) => Some(
                ConfigView { prompt, timeout, default_model, base_url, models },
            ),
            _ => None,
        }
    }
}

/// The configuration that a file's text spells, if it spells one.
pub open spec fn config_of_text(text: Seq<u8>) -> Option<ConfigView> {
    match document(text) {
        Some(doc) => config_of(doc),
        None => None,
    }
}

/// Whether `res` is the executable form of `view`.
pub open spec fn same_config(res: Option<Config>, view: Option<ConfigView>) -> bool {
    match res {
        Some(config) => view == Some(config@),
        None => view is None,
    }
}

fn read_text_or_empty(object: &Json, name: &str) -> (res: Option<String>)
    ensures
        match res {
            Some(text) => text_or_empty(*object, name@) == Some(text@),
            None => text_or_empty(*object, name@) is None,
        },
{
    match object.get(name) {
        None => Some(String::new()),
        Some(Json::Text(text)) => Some(text.clone()),
        Some(_) => None,
    }
}

fn read_number_or_zero(object: &Json, name: &str) -> (res: Option<u64>)
    ensures
        res == number_or_zero(*object, name@),
{
    match object.get(name) {
        None => Some(0),
        Some(Json::Number(Some(n))) => Some(*n),
        Some(_) => None,
    }
}

impl Model {
    /// Reads a model from a JSON object.
    pub fn from_json(object: &Json) -> (res: Option<Model>)
        ensures
            match res {
                Some(model) => model_of(*object) == Some(model@),
                None => model_of(*object) is None,
            },
    {
        let access_point = match object.get("access_point") {
            Some(Json::Text(text)) => text.clone(),
            _ => {
                return None;
            },
        };
        match read_optional_text(object, "base_url") {
            Some(base_url) => Some(Model { access_point, base_url }),
            None => None,
        }
    }
}

impl Models {
    /// Reads the models of a configuration object.
    pub fn from_json(object: &Json) -> (res: Option<Models>)
        ensures
            match res {
                Some(models) => models_or_none(*object) == Some(models@),
                None => models_or_none(*object) is None,
            },
    {
        let members = match object.get("models") {
            None => {
                return Some(Models::new());
            },
            Some(Json::Object(members)) => members,
            Some(_) => {
                return None;
            },
        };
        let mut models = Models::new();
        let mut i: usize = 0;
        assert(members@.take(0) =~= Seq::<Member>::empty());
        while i < members.len()
            invariant
                i <= members@.len(),
                models_or_none(*object) == models_of(members@),
                models_of(members@.take(i as int)) == Some(models@),
            decreases members@.len() - i,
        {
            let ghost upto = members@.take(i + 1);
            assert(upto.drop_last() =~= members@.take(i as int));
            assert(upto.last() == members@[i as int]);
            match Model::from_json(&members[i].value) {
                Some(model) => {
                    models.insert(members[i].name.clone(), model);
                },
                None => {
                    proof {
                        lemma_models_fail(members@, i + 1);
                    }
                    return None;
                },
            }
            i += 1;
        }
        assert(members@.take(i as int) =~= members@);
        Some(models)
    }
}

/// Once the first `n` members spell no models, neither do all of them.
proof fn lemma_models_fail(members: Seq<Member>, n: int)
    requires
        0 <= n <= members.len(),
        models_of(members.take(n)) is None,
    ensures
        models_of(members) is None,
    decreases members.len() - n,
{
    if n == members.len() {
        assert(members.take(n) =~= members);
    } else {
        assert(members.take(n + 1).drop_last() =~= members.take(n));
        lemma_models_fail(members, n + 1);
    }
}

impl Config {
    /// Reads a configuration from a JSON document.
    pub fn from_json(doc: &Json) -> (res: Option<Config>)
        ensures
            same_config(res, config_of(*doc)),
    {
        match doc {
            Json::Object(_) => {},
            _ => {
                return None;
            },
        }
        let prompt = match read_text_or_empty(doc, "prompt") {
            Some(text) => text,
            None => {
                return None;
            },
        };
        let timeout = match read_number_or_zero(doc, "timeout") {
            Some(n) => n,
            None => {
                return None;
            },
        };
        let default_model = match read_text_or_empty(doc, "default_model") {
            Some(text) => text,
            None => {
                return None;
            },
        };
        let base_url = match read_text_or_empty(doc, "base_url") {
            Some(text) => text,
            None => {
                return None;
            },
        };
        match Models::from_json(doc) {
            Some(models) => Some(Config { prompt, timeout, default_model, base_url, models }),
            None => None,
        }
    }

    /// Reads a configuration from the text of a file.
    pub fn parse(text: &str) -> (res: Option<Config>)
        ensures
            same_config(res, config_of_text(text.spec_bytes())),
    {
        match parse(text.as_bytes()) {
            Some(doc) => Config::from_json(&doc),
            None => None,
        }
    }

    /// The configuration to work with, given what was loaded: a timeout of
    /// zero becomes the default, and where nothing was loaded everything is
    /// empty but the timeout.
    pub fn fill_config(config: Option<Config>) -> (res: Config)
        ensures
            res@ == filled(
                match config {
                    Some(loaded) => Some(loaded@),
                    None => None,
                },
            ),
    {
        match config {
            Some(config) => Config {
                prompt: config.prompt,
                timeout: if config.timeout > 0 {
                    config.timeout
                } else {
                    DEFAULT_TIMEOUT
                },
                default_model: config.default_model,
                base_url: config.base_url,
                models: config.models,
            },
            None => Config {
                prompt: String::new(),
                timeout: DEFAULT_TIMEOUT,
                default_model: String::new(),
                base_url: String::new(),
                models: Models::new(),
            },
        }
    }

    /// The configuration to work with, given the text of the configuration
    /// file, where there is one: a text that spells no configuration counts
    /// as none.
    pub fn new(file: Option<&str>) -> (res: Config)
        ensures
            res@ == filled(
                match file {
                    Some(text) => config_of_text(text.spec_bytes()),
                    None => None,
                },
            ),
    {
        match file {
            Some(text) => Config::fill_config(Config::parse(text)),
            None => Config::fill_config(None),
        }
    }
}

} // verus!
