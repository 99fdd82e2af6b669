//! The catalog of known embedding models and the description of a model.
use vstd::prelude::*;

use fastembed::{EmbeddingModel, TextEmbedding, UserDefinedEmbeddingModel};

verus! {

/// fastembed's `EmbeddingModel`, the enum of the models it can load,
/// carried through unopened.
#[verifier::external_type_specification]
#[verifier::external_body]
pub struct ExEmbeddingModel(EmbeddingModel);

/// fastembed's `UserDefinedEmbeddingModel`, the network and tokenizer files
/// of a model brought by the user, carried through unopened.
#[verifier::external_type_specification]
#[verifier::external_body]
pub struct ExUserDefinedEmbeddingModel(UserDefinedEmbeddingModel);

/// fastembed's `EmbeddingModel` is an enum without fields whose `Clone` is
/// derived: a clone is the same variant.
pub assume_specification[ <EmbeddingModel as Clone>::clone ](m: &EmbeddingModel) -> (r:
    EmbeddingModel)
    ensures
        r == *m,
;

/// fastembed's `EmbeddingModel` derives `PartialEq` and has no fields: two
/// values are equal exactly when they are the same variant.
pub assume_specification[ <EmbeddingModel as PartialEq>::eq ](
    a: &EmbeddingModel,
    b: &EmbeddingModel,
) -> (r: bool)
    ensures
        r == (*a == *b),
;

/// What a model is: its identifier, the length of its vectors and a
/// description.
#[derive(Clone, Debug)]
pub struct JSONModelInfo {
    pub name: String,
    pub dimension: u32,
    pub description: String,
}

impl JSONModelInfo {
    /// A field-by-field copy.
    pub fn copy(&self) -> (r: Self)
        ensures
            r == *self,
    {
        JSONModelInfo {
            name: self.name.clone(),
            dimension: self.dimension,
            description: self.description.clone(),
        }
    }

    /// The description with every field empty or zero, for a model that
    /// could not be found.
    pub fn empty() -> (r: Self)
        ensures
            r.name@.len() == 0,
            r.dimension == 0,
            r.description@.len() == 0,
    {
        JSONModelInfo { name: String::new(), dimension: 0, description: String::new() }
    }
}

/// The requested model identifier is not in the catalog.
#[derive(Clone, Copy, Debug, PartialEq, Eq)]
pub struct ModelNotFoundError;

impl ModelNotFoundError {
    /// The message that reports this error.
    pub fn message(&self) -> (r: String)
        ensures
            r@ == "The model you have searched for has not been found"@,
    {
        String::from_str("The model you have searched for has not been found")
    }
}

/// A model of the catalog: the model itself, its identifier, the length of
/// its vectors and a description.
#[derive(Clone, Debug)]
pub struct CatalogEntry {
    pub model: EmbeddingModel,
    pub model_code: String,
    pub dim: usize,
    pub description: String,
}

/// The description of a catalog entry. The dimension is narrowed to 32 bits.
pub open spec fn info_of(entry: CatalogEntry) -> JSONModelInfo {
    JSONModelInfo { name: entry.model_code, dimension: entry.dim as u32, description: entry.description }
}

/// The descriptions of `entries`, in order.
pub open spec fn catalog_infos(entries: Seq<CatalogEntry>) -> Seq<JSONModelInfo> {
    entries.map_values(|e: CatalogEntry| info_of(e))
}

/// The entry is named `name`.
pub open spec fn named(name: Seq<char>) -> spec_fn(CatalogEntry) -> bool {
    |e: CatalogEntry| e.model_code@ == name
}

/// The entry is for `model`.
pub open spec fn for_model(model: EmbeddingModel) -> spec_fn(CatalogEntry) -> bool {
    |e: CatalogEntry| e.model == model
}

/// Entry `i` is the first one that satisfies `p`.
pub open spec fn is_first_match(entries: Seq<CatalogEntry>, p: spec_fn(CatalogEntry) -> bool, i: int) -> bool {
    &&& 0 <= i < entries.len()
    &&& p(entries[i])
    &&& forall|j: int| 0 <= j < i ==> !p(#[trigger] entries[j])
}

/// The index of the first entry that satisfies `p`, if any does.
pub open spec fn first_match(entries: Seq<CatalogEntry>, p: spec_fn(CatalogEntry) -> bool) -> Option<int> {
    if exists|i: int| is_first_match(entries, p, i) {
        Some(choose|i: int| is_first_match(entries, p, i))
    } else {
        None
    }
}

/// The description of the first entry named `name`.
pub open spec fn resolve_spec(entries: Seq<CatalogEntry>, name: Seq<char>) -> Result<JSONModelInfo, ModelNotFoundError> {
    match first_match(entries, named(name)) {
        Some(i) => Ok(info_of(entries[i])),
        None => Err(ModelNotFoundError),
    }
}

/// The model of the first entry named `name`.
pub open spec fn model_by_name_spec(entries: Seq<CatalogEntry>, name: Seq<char>) -> Result<EmbeddingModel, ModelNotFoundError> {
    match first_match(entries, named(name)) {
        Some(i) => Ok(entries[i].model),
        None => Err(ModelNotFoundError),
    }
}

/// The description of the first entry for `model`.
pub open spec fn describe_spec(entries: Seq<CatalogEntry>, model: EmbeddingModel) -> Result<JSONModelInfo, ModelNotFoundError> {
    match first_match(entries, for_model(model)) {
        Some(i) => Ok(info_of(entries[i])),
        None => Err(ModelNotFoundError),
    }
}

/// A first match is the first match.
proof fn lemma_first_match_unique(entries: Seq<CatalogEntry>, p: spec_fn(CatalogEntry) -> bool, i: int)
    requires
        is_first_match(entries, p, i),
    ensures
        first_match(entries, p) == Some(i),
{
    let k = choose|k: int| is_first_match(entries, p, k);
    assert(is_first_match(entries, p, k));
    if k < i {
        assert(!p(entries[k]));
    } else if k > i {
        assert(!p(entries[i]));
    }
}

/// The fixed list of models that fastembed supports, in its order.
pub uninterp spec fn fastembed_catalog(tag: ()) -> Seq<CatalogEntry>;

/// No model occurs in two entries.
pub open spec fn models_distinct(entries: Seq<CatalogEntry>) -> bool {
    forall|i: int, j: int|
        0 <= i < entries.len() && 0 <= j < entries.len() && i != j ==> #[trigger] entries[i].model
            != #[trigger] entries[j].model
}

/// Relies on fastembed's TextEmbedding::list_supported_models: a fixed list
/// built the same way on every call (models_list in fastembed's
/// models/text_embedding.rs), each model with its identifier, dimension and
/// description, and each variant of `EmbeddingModel` listed once.
#[verifier::external_body]
fn supported_models() -> (r: Vec<CatalogEntry>)
    ensures
        r@ == fastembed_catalog(()),
        models_distinct(r@),
{
    TextEmbedding::list_supported_models()
        .into_iter()
        .map(|m| CatalogEntry {
            model: m.model,
            model_code: m.model_code,
            dim: m.dim,
            description: m.description,
        })
        .collect()
}

/// A model brought by the user: its description and its network and
/// tokenizer files.
pub struct UserDefinedModel {
    pub info: JSONModelInfo,
    pub model: UserDefinedEmbeddingModel,
}

/// The active model: a model of the catalog or one brought by the user.
pub enum HFEmbeddingModelOrUserDefinedModel {
    HuggingFace(EmbeddingModel),
    UserDefined(Box<UserDefinedModel>),
}

/// Where the model to start with comes from.
pub enum ModelSource {
    HuggingFace,
    Local(Box<UserDefinedModel>),
}

/// The description of the active model: looked up in the catalog for a
/// catalog model, carried along for a model of the user.
pub open spec fn describe_active_spec(
    entries: Seq<CatalogEntry>,
    current: HFEmbeddingModelOrUserDefinedModel,
) -> Result<JSONModelInfo, ModelNotFoundError> {
    match current {
        HFEmbeddingModelOrUserDefinedModel::HuggingFace(m) => describe_spec(entries, m),
        HFEmbeddingModelOrUserDefinedModel::UserDefined(u) => Ok(u.info),
    }
}

/// The identifier of the model to start with when none is given.
pub const DEFAULT_MODEL_NAME: &'static str = "Xenova/bge-base-en-v1.5";

/// The model to start with and its description: the first catalog model
/// named `DEFAULT_MODEL_NAME`, or the model that the user brought.
pub open spec fn initial_model_spec(entries: Seq<CatalogEntry>, source: ModelSource) -> Result<
    (HFEmbeddingModelOrUserDefinedModel, JSONModelInfo),
    ModelNotFoundError,
> {
    match source {
        ModelSource::HuggingFace => match first_match(entries, named(DEFAULT_MODEL_NAME@)) {
            Some(i) => Ok(
                (
                    HFEmbeddingModelOrUserDefinedModel::HuggingFace(entries[i].model),
                    info_of(entries[i]),
                ),
            ),
            None => Err(ModelNotFoundError),
        },
        ModelSource::Local(u) => Ok((HFEmbeddingModelOrUserDefinedModel::UserDefined(u), u.info)),
    }
}

/// A list of known models, searched in order.
#[derive(Clone, Debug)]
pub struct ModelCatalog {
    pub entries: Vec<CatalogEntry>,
}

impl ModelCatalog {
    /// The catalog of the models that fastembed supports.
    pub fn supported() -> (r: Self)
        ensures
            r.entries@ == fastembed_catalog(()),
            models_distinct(r.entries@),
    {
        ModelCatalog { entries: supported_models() }
    }

    /// The index of the first entry named `name`.
    pub fn position_of_name(&self, name: &String) -> (r: Option<usize>)
        ensures
            match r {
                Some(i) => first_match(self.entries@, named(name@)) == Some(i as int),
                None => first_match(self.entries@, named(name@)) is None,
            },
    {
        let mut i: usize = 0;
        while i < self.entries.len()
            invariant
                i <= self.entries@.len(),
                forall|j: int| 0 <= j < i ==> !named(name@)(#[trigger] self.entries@[j]),
            decreases self.entries@.len() - i,
        {
            if self.entries[i].model_code == *name {
                proof {
                    lemma_first_match_unique(self.entries@, named(name@), i as int);
                }
                return Some(i);
            }
            i = i + 1;
        }
        None
    }

    /// The index of the first entry for `model`.
    pub fn position_of_model(&self, model: &EmbeddingModel) -> (r: Option<usize>)
        ensures
            match r {
                Some(i) => first_match(self.entries@, for_model(*model)) == Some(i as int),
                None => first_match(self.entries@, for_model(*model)) is None,
            },
    {
        let mut i: usize = 0;
        while i < self.entries.len()
            invariant
                i <= self.entries@.len(),
                forall|j: int| 0 <= j < i ==> !for_model(*model)(#[trigger] self.entries@[j]),
            decreases self.entries@.len() - i,
        {
            if self.entries[i].model == *model {
                proof {
                    lemma_first_match_unique(self.entries@, for_model(*model), i as int);
                }
                return Some(i);
            }
            i = i + 1;
        }
        None
    }

    /// The description of entry `i`.
    pub fn info_at(&self, i: usize) -> (r: JSONModelInfo)
        requires
            i < self.entries@.len(),
        ensures
            r == info_of(self.entries@[i as int]),
    {
        let entry = &self.entries[i];
        JSONModelInfo {
            name: entry.model_code.clone(),
            dimension: entry.dim as u32,
            description: entry.description.clone(),
        }
    }

    /// The description of the first model named `name`.
    pub fn resolve(&self, name: &String) -> (r: Result<JSONModelInfo, ModelNotFoundError>)
        ensures
            r == resolve_spec(self.entries@, name@),
    {
        match self.position_of_name(name) {
            Some(i) => Ok(self.info_at(i)),
            None => Err(ModelNotFoundError),
        }
    }

    /// The first model named `name`.
    pub fn model_by_name(&self, name: &String) -> (r: Result<EmbeddingModel, ModelNotFoundError>)
        ensures
            r == model_by_name_spec(self.entries@, name@),
    {
        match self.position_of_name(name) {
            Some(i) => Ok(self.entries[i].model.clone()),
            None => Err(ModelNotFoundError),
        }
    }

    /// The description of `model`, from its first entry.
    pub fn describe(&self, model: &EmbeddingModel) -> (r: Result<JSONModelInfo, ModelNotFoundError>)
        ensures
            r == describe_spec(self.entries@, *model),
    {
        match self.position_of_model(model) {
            Some(i) => Ok(self.info_at(i)),
            None => Err(ModelNotFoundError),
        }
    }

    /// The description of the active model.
    pub fn describe_active(&self, current: &HFEmbeddingModelOrUserDefinedModel) -> (r: Result<
        JSONModelInfo,
        ModelNotFoundError,
    >)
        ensures
            r == describe_active_spec(self.entries@, *current),
    {
        match current {
            HFEmbeddingModelOrUserDefinedModel::HuggingFace(m) => self.describe(m),
            HFEmbeddingModelOrUserDefinedModel::UserDefined(u) => Ok(u.info.copy()),
        }
    }

    /// The model to start with from `source`, and its description.
    pub fn initial_model(&self, source: ModelSource) -> (r: Result<
        (HFEmbeddingModelOrUserDefinedModel, JSONModelInfo),
        ModelNotFoundError,
    >)
        ensures
            r == initial_model_spec(self.entries@, source),
    {
        match source {
            ModelSource::HuggingFace => {
                let name = String::from_str(DEFAULT_MODEL_NAME);
                match self.position_of_name(&name) {
                    Some(i) => Ok(
                        (
                            HFEmbeddingModelOrUserDefinedModel::HuggingFace(
                                self.entries[i].model.clone(),
                            ),
                            self.info_at(i),
                        ),
                    ),
                    None => Err(ModelNotFoundError),
                }
            },
            ModelSource::Local(u) => {
                let info = u.info.copy();
                Ok((HFEmbeddingModelOrUserDefinedModel::UserDefined(u), info))
            },
        }
    }

    /// The descriptions of all entries, in catalog order.
    pub fn list(&self) -> (r: Vec<JSONModelInfo>)
        ensures
            r@ == catalog_infos(self.entries@),
    {
        let mut r: Vec<JSONModelInfo> = Vec::new();
        let mut i: usize = 0;
        while i < self.entries.len()
            invariant
                i <= self.entries@.len(),
                r@ == self.entries@.take(i as int).map_values(|e: CatalogEntry| info_of(e)),
            decreases self.entries@.len() - i,
        {
            let info = self.info_at(i);
            r.push(info);
            proof {
                assert(self.entries@.take(i + 1).map_values(|e: CatalogEntry| info_of(e)) =~= self.entries@.take(
                    i as int,
                ).map_values(|e: CatalogEntry| info_of(e)).push(info_of(self.entries@[i as int])));
            }
            i = i + 1;
        }
        proof {
            assert(self.entries@.take(i as int) =~= self.entries@);
        }
        r
    }
}

/// A name resolves exactly when the list of descriptions holds it, and
/// then to the first listed model of that name.
pub proof fn lemma_listed_names_resolve(entries: Seq<CatalogEntry>, name: Seq<char>)
    ensures
        model_by_name_spec(entries, name) is Ok <==> exists|i: int|
            0 <= i < entries.len() && #[trigger] catalog_infos(entries)[i].name@ == name,
        resolve_spec(entries, name) is Ok <==> model_by_name_spec(entries, name) is Ok,
{
    let infos = catalog_infos(entries);
    if exists|i: int| 0 <= i < entries.len() && #[trigger] infos[i].name@ == name {
        let i = choose|i: int| 0 <= i < entries.len() && #[trigger] infos[i].name@ == name;
        lemma_first_match_exists(entries, named(name), i);
    } else {
        assert forall|i: int| !is_first_match(entries, named(name), i) by {
            if 0 <= i < entries.len() {
                assert(infos[i].name@ == entries[i].model_code@);
            }
        }
    }
}

/// When some entry satisfies `p`, a first one does.
proof fn lemma_first_match_exists(entries: Seq<CatalogEntry>, p: spec_fn(CatalogEntry) -> bool, i: int)
    requires
        0 <= i < entries.len(),
        p(entries[i]),
    ensures
        first_match(entries, p) is Some,
    decreases i,
{
    if forall|j: int| 0 <= j < i ==> !p(#[trigger] entries[j]) {
        assert(is_first_match(entries, p, i));
    } else {
        let j = choose|j: int| 0 <= j < i && p(#[trigger] entries[j]);
        lemma_first_match_exists(entries, p, j);
    }
}

/// In a catalog where no model occurs twice, the model found by a name is
/// described by that name's entry: the description of a model set by name
/// is the description resolved for that name.
pub proof fn lemma_set_model_is_described_by_its_name(entries: Seq<CatalogEntry>, name: Seq<char>)
    requires
        models_distinct(entries),
        model_by_name_spec(entries, name) is Ok,
    ensures
        describe_spec(entries, model_by_name_spec(entries, name)->Ok_0) == resolve_spec(entries, name),
{
    let i = first_match(entries, named(name))->Some_0;
    assert(is_first_match(entries, named(name), i));
    let m = entries[i].model;
    assert(is_first_match(entries, for_model(m), i)) by {
        assert forall|j: int| 0 <= j < i implies !for_model(m)(#[trigger] entries[j]) by {
            assert(entries[j].model != entries[i].model);
        }
    }
    lemma_first_match_unique(entries, for_model(m), i);
}

/// The description of the active model, looked up in fastembed's catalog
/// for a catalog model.
pub fn get_current_model_info(current_model: &HFEmbeddingModelOrUserDefinedModel) -> (r: Result<
    JSONModelInfo,
    ModelNotFoundError,
>)
    ensures
        r == describe_active_spec(fastembed_catalog(()), *current_model),
{
    let catalog = ModelCatalog::supported();
    catalog.describe_active(current_model)
}

/// The first model of fastembed's catalog whose identifier is
/// `proposed_model`.
pub fn get_model_by_string(proposed_model: String) -> (r: Result<EmbeddingModel, ModelNotFoundError>)
    ensures
        r == model_by_name_spec(fastembed_catalog(()), proposed_model@),
{
    let catalog = ModelCatalog::supported();
    catalog.model_by_name(&proposed_model)
}

/// The descriptions of all models of fastembed's catalog, in its order.
pub fn get_available_models() -> (r: Vec<JSONModelInfo>)
    ensures
        r@ == catalog_infos(fastembed_catalog(())),
{
    let catalog = ModelCatalog::supported();
    catalog.list()
}

} // verus!
