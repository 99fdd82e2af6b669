//! The slot that holds the active model.
use vstd::prelude::*;

use fastembed::EmbeddingModel;

use crate::models::{
    model_by_name_spec, CatalogEntry, HFEmbeddingModelOrUserDefinedModel, ModelCatalog,
    ModelNotFoundError,
};

verus! {

/// The active model after asking for the catalog model named `name`: that
/// model if the catalog has it, else the model that was active.
pub open spec fn after_set(
    current: HFEmbeddingModelOrUserDefinedModel,
    entries: Seq<CatalogEntry>,
    name: Seq<char>,
) -> HFEmbeddingModelOrUserDefinedModel {
    match model_by_name_spec(entries, name) {
        Ok(m) => HFEmbeddingModelOrUserDefinedModel::HuggingFace(m),
        Err(_) => current,
    }
}

/// The active model after asking for each of `names` in turn.
pub open spec fn after_sets(
    current: HFEmbeddingModelOrUserDefinedModel,
    entries: Seq<CatalogEntry>,
    names: Seq<Seq<char>>,
) -> HFEmbeddingModelOrUserDefinedModel
    decreases names.len(),
{
    if names.len() == 0 {
        current
    } else {
        after_set(after_sets(current, entries, names.drop_last()), entries, names.last())
    }
}

/// Holds the active model. Replacing it replaces the whole value at once.
pub struct ModelSlot {
    pub current: HFEmbeddingModelOrUserDefinedModel,
}

impl ModelSlot {
    /// A slot holding `model`.
    pub fn new(model: HFEmbeddingModelOrUserDefinedModel) -> (r: Self)
        ensures
            r.current == model,
    {
        ModelSlot { current: model }
    }

    /// Makes the first catalog model named `name` the active one. When the
    /// catalog has no such model, the slot keeps its model and the call
    /// fails.
    pub fn set_model_name(&mut self, catalog: &ModelCatalog, name: &String) -> (r: Result<
        (),
        ModelNotFoundError,
    >)
        ensures
            final(self).current == after_set(old(self).current, catalog.entries@, name@),
            r is Ok <==> model_by_name_spec(catalog.entries@, name@) is Ok,
            r is Err ==> r == Err::<(), ModelNotFoundError>(ModelNotFoundError),
    {
        match catalog.model_by_name(name) {
            Ok(model) => {
                self.current = HFEmbeddingModelOrUserDefinedModel::HuggingFace(model);
                Ok(())
            },
            Err(e) => Err(e),
        }
    }
}

/// Why a model could not be made the active one.
#[derive(Debug)]
pub enum SetModelError<E> {
    /// The catalog has no model of that name.
    NotFound(ModelNotFoundError),
    /// Loading the model failed.
    Load(E),
}

/// The active model together with the loaded handle that computes its
/// vectors. The two are only ever replaced together.
pub struct ActiveModel<H> {
    pub slot: ModelSlot,
    pub handle: H,
}

impl<H> ActiveModel<H> {
    /// The active model `model`, computed by `handle`.
    pub fn new(model: HFEmbeddingModelOrUserDefinedModel, handle: H) -> (r: Self)
        ensures
            r.slot.current == model,
            r.handle == handle,
    {
        ActiveModel { slot: ModelSlot::new(model), handle }
    }

    /// Makes the catalog model `model`, already loaded as `handle`, the
    /// active one.
    pub fn install(&mut self, model: EmbeddingModel, handle: H)
        ensures
            final(self).slot.current == HFEmbeddingModelOrUserDefinedModel::HuggingFace(model),
            final(self).handle == handle,
    {
        self.slot = ModelSlot::new(HFEmbeddingModelOrUserDefinedModel::HuggingFace(model));
        self.handle = handle;
    }
}

/// Looks up the first catalog model named `name` and loads it with `load`,
/// touching no shared state, so that the result can then be installed as a
/// whole. A name missing from the catalog is reported without loading.
pub fn load_model_by_name<H, E, L: Fn(EmbeddingModel) -> Result<H, E>>(
    catalog: &ModelCatalog,
    name: &String,
    load: L,
) -> (r: Result<(EmbeddingModel, H), SetModelError<E>>)
    requires
        forall|m: EmbeddingModel| #[trigger] load.requires((m,)),
    ensures
        match model_by_name_spec(catalog.entries@, name@) {
            Err(_) => r == Err::<(EmbeddingModel, H), SetModelError<E>>(
                SetModelError::NotFound(ModelNotFoundError),
            ),
            Ok(m) => exists|out: Result<H, E>|
                {
                    &&& #[trigger] load.ensures((m,), out)
                    &&& match out {
                        Ok(h) => r == Ok::<(EmbeddingModel, H), SetModelError<E>>((m, h)),
                        Err(e) => r == Err::<(EmbeddingModel, H), SetModelError<E>>(
                            SetModelError::Load(e),
                        ),
                    }
                },
        },
{
    match catalog.model_by_name(name) {
        Err(e) => Err(SetModelError::NotFound(e)),
        Ok(model) => {
            let out = load(model.clone());
            match out {
                Ok(handle) => Ok((model, handle)),
                Err(e) => Err(SetModelError::Load(e)),
            }
        },
    }
}

/// Whole replacement: after a non-empty run of requests for models that
/// the catalog has, the active model is the one that the last request named,
/// whatever was active before, so it is exactly one of the requested models
/// and never a mix of several.
pub proof fn lemma_last_set_wins(
    current: HFEmbeddingModelOrUserDefinedModel,
    entries: Seq<CatalogEntry>,
    names: Seq<Seq<char>>,
)
    requires
        names.len() > 0,
        forall|i: int| 0 <= i < names.len() ==> #[trigger] model_by_name_spec(entries, names[i]) is Ok,
    ensures
        after_sets(current, entries, names) == HFEmbeddingModelOrUserDefinedModel::HuggingFace(
            model_by_name_spec(entries, names.last())->Ok_0,
        ),
        exists|i: int|
            0 <= i < names.len() && after_sets(current, entries, names)
                == HFEmbeddingModelOrUserDefinedModel::HuggingFace(
                #[trigger] model_by_name_spec(entries, names[i])->Ok_0,
            ),
{
    assert(model_by_name_spec(entries, names[names.len() - 1]) is Ok);
}

} // verus!
