//! The list of models that the proxy offers.

use vstd::prelude::*;

use crate::json;
use crate::json::{Json, JsonView};
use crate::text;

verus! {

/// A model as a provider lists it.
#[derive(Debug)]
pub struct ModelInfo {
    pub id: String,
    pub owned_by: Option<String>,
    pub created: Option<u64>,
}

/// What a listed model says.
pub struct ModelView {
    pub id: Seq<char>,
    pub owned_by: Option<Seq<char>>,
    pub created: Option<u64>,
}

impl View for ModelInfo {
    type V = ModelView;

    open spec fn view(&self) -> ModelView {
        ModelView {
            id: self.id@,
            owned_by: text::opt_view(self.owned_by),
            created: self.created,
        }
    }
}

/// A list of models in the shape of the models endpoint.
pub open spec fn model_list(data: Seq<JsonView>) -> JsonView {
    JsonView::Object(
        json::fields().push(("object"@, JsonView::Str("list"@))).push(
            ("data"@, JsonView::Array(data)),
        ),
    )
}

/// The members of a model: its id and its owner.
pub open spec fn model_members(id: Seq<char>, owner: Seq<char>) -> Seq<(Seq<char>, JsonView)> {
    json::fields().push(("id"@, JsonView::Str(id))).push(
        ("object"@, JsonView::Str("model"@)),
    ).push(("owned_by"@, JsonView::Str(owner)))
}

/// A model of the built-in catalog.
pub open spec fn catalog_entry(id: Seq<char>, owner: Seq<char>) -> JsonView {
    JsonView::Object(model_members(id, owner))
}

/// A model that a provider lists. Where it names no owner, the provider is the owner.
pub open spec fn upstream_entry(model: ModelView, fallback_owner: Seq<char>) -> JsonView {
    let owner = match model.owned_by {
        Some(owner) => owner,
        None => fallback_owner,
    };
    match model.created {
        Some(created) => JsonView::Object(
            model_members(model.id, owner).push(("created"@, json::count_view(created))),
        ),
        None => JsonView::Object(model_members(model.id, owner)),
    }
}

/// A list of models in the shape of the models endpoint.
pub fn model_list_json(data: Vec<Json>) -> (j: Json)
    ensures
        j@ == model_list(json::items_view(data@)),
{
    let mut members = json::no_members();
    json::push_member(&mut members, "object", Json::string("list"));
    json::push_member(&mut members, "data", json::array(data));
    json::object(members)
}

fn members_of(id: &str, owner: &str) -> (members: Vec<(String, Json)>)
    ensures
        json::members_view(members@) == model_members(id@, owner@),
{
    let mut members = json::no_members();
    json::push_member(&mut members, "id", Json::string(id));
    json::push_member(&mut members, "object", Json::string("model"));
    json::push_member(&mut members, "owned_by", Json::string(owner));
    members
}

/// The entries of the first `n` ids of a catalog.
pub open spec fn catalog_entries(ids: Seq<Seq<char>>, owner: Seq<char>, n: int) -> Seq<JsonView>
    decreases n,
{
    if n <= 0 {
        seq![]
    } else {
        catalog_entries(ids, owner, n - 1).push(catalog_entry(ids[n - 1], owner))
    }
}

/// The list of the models in the catalog of a provider.
pub fn static_model_list_json_for_provider(provider: &str, ids: &Vec<String>) -> (j: Json)
    ensures
        j@ == model_list(
            catalog_entries(text::views(ids@), provider@, ids@.len() as int),
        ),
{
    let ghost v = text::views(ids@);
    let mut data: Vec<Json> = Vec::new();
    let mut i: usize = 0;
    assert(json::items_view(data@) =~= seq![]);
    while i < ids.len()
        invariant
            0 <= i <= ids@.len(),
            v == text::views(ids@),
            json::items_view(data@) == catalog_entries(v, provider@, i as int),
        decreases ids@.len() - i,
    {
        json::push_item(&mut data, json::object(members_of(ids[i].as_str(), provider)));
        i += 1;
    }
    model_list_json(data)
}

/// What a list of models says.
pub open spec fn model_views(models: Seq<ModelInfo>) -> Seq<ModelView> {
    Seq::new(models.len(), |i: int| models[i]@)
}

/// The entries of the first `n` models that a provider lists.
pub open spec fn upstream_entries(
    models: Seq<ModelView>,
    fallback_owner: Seq<char>,
    n: int,
) -> Seq<JsonView>
    decreases n,
{
    if n <= 0 {
        seq![]
    } else {
        upstream_entries(models, fallback_owner, n - 1).push(
            upstream_entry(models[n - 1], fallback_owner),
        )
    }
}

fn upstream_json(model: &ModelInfo, fallback_owner: &str) -> (j: Json)
    ensures
        j@ == upstream_entry(model@, fallback_owner@),
{
    let owner = match &model.owned_by {
        Some(owner) => owner.as_str(),
        None => fallback_owner,
    };
    let mut members = members_of(model.id.as_str(), owner);
    if let Some(created) = model.created {
        json::push_member(&mut members, "created", Json::number(created));
    }
    json::object(members)
}

/// The list of the models that a provider lists.
pub fn upstream_model_list_json(fallback_owner: &str, models: &Vec<ModelInfo>) -> (j: Json)
    ensures
        j@ == model_list(
            upstream_entries(model_views(models@), fallback_owner@, models@.len() as int),
        ),
{
    let ghost v = model_views(models@);
    let mut data: Vec<Json> = Vec::new();
    let mut i: usize = 0;
    assert(json::items_view(data@) =~= seq![]);
    while i < models.len()
        invariant
            0 <= i <= models@.len(),
            v == model_views(models@),
            json::items_view(data@) == upstream_entries(v, fallback_owner@, i as int),
        decreases models@.len() - i,
    {
        json::push_item(&mut data, upstream_json(&models[i], fallback_owner));
        i += 1;
    }
    model_list_json(data)
}

/// Where the list of models comes from.
#[derive(Debug)]
pub enum ModelSource {
    /// From the provider: the caller asks it.
    Upstream,
    /// From the catalog of this provider.
    Catalog(String),
}

/// What is to be known of the configured target to list models.
#[derive(Debug)]
pub struct ListingTarget {
    /// The name of the target's adapter, where there is one.
    pub adapter: Option<String>,
    /// The catalog that the adapter's name leads to, where it is that of one.
    pub adapter_catalog: Option<String>,
    /// The catalog that the target's name leads to.
    pub target_catalog: String,
    /// The adapter can list models.
    pub supports_listing: bool,
    /// The provider is configured.
    pub configured: bool,
}

/// The catalog to fall back on: the adapter's, else the target's.
pub open spec fn fallback_catalog(t: ListingTarget) -> Seq<char> {
    match (t.adapter, t.adapter_catalog) {
        (Some(_), Some(catalog)) => catalog@,
        _ => t.target_catalog@,
    }
}

/// The provider is asked for its models.
pub open spec fn asks_upstream(t: ListingTarget) -> bool {
    t.adapter is Some && t.supports_listing && t.configured
}

impl ListingTarget {
    /// The catalog to fall back on.
    pub fn fallback(&self) -> (name: String)
        ensures
            name@ == fallback_catalog(*self),
    {
        match (&self.adapter, &self.adapter_catalog) {
            (Some(_), Some(catalog)) => catalog.clone(),
            _ => self.target_catalog.clone(),
        }
    }

    /// Where the list of models comes from in the first place.
    pub fn source(&self) -> (s: ModelSource)
        ensures
            match s {
                ModelSource::Upstream => asks_upstream(*self),
                ModelSource::Catalog(name) => !asks_upstream(*self) && name@ == fallback_catalog(
                    *self,
                ),
            },
    {
        if self.adapter.is_some() && self.supports_listing && self.configured {
            ModelSource::Upstream
        } else {
            ModelSource::Catalog(self.fallback())
        }
    }

    /// The list of models, given what the provider answered and the ids in the catalog to
    /// fall back on. An answer without models counts as none.
    pub fn model_list(&self, answered: Option<Vec<ModelInfo>>, catalog: &Vec<String>) -> (j: Json)
        ensures
            j@ == (match (self.adapter, answered) {
                (Some(name), Some(models)) if asks_upstream(*self) && models@.len() > 0 => model_list(
                    upstream_entries(model_views(models@), name@, models@.len() as int),
                ),
                _ => model_list(
                    catalog_entries(
                        text::views(catalog@),
                        fallback_catalog(*self),
                        catalog@.len() as int,
                    ),
                ),
            }),
    {
        if self.supports_listing && self.configured {
            if let (Some(name), Some(models)) = (&self.adapter, &answered) {
                if models.len() > 0 {
                    return upstream_model_list_json(name.as_str(), models);
                }
            }
        }
        static_model_list_json_for_provider(self.fallback().as_str(), catalog)
    }
}

/// Every id of a catalog is listed as a model of its owner, at its place.
pub proof fn every_catalog_id_is_listed(ids: Seq<Seq<char>>, owner: Seq<char>, i: int)
    requires
        0 <= i < ids.len(),
    ensures
        ({
            let list = catalog_entries(ids, owner, ids.len() as int);
            &&& list.len() == ids.len()
            &&& json::says(list[i], "id"@, JsonView::Str(ids[i]))
            &&& json::says(list[i], "object"@, JsonView::Str("model"@))
            &&& json::says(list[i], "owned_by"@, JsonView::Str(owner))
        }),
{
    lemma_catalog_entry_at(ids, owner, ids.len() as int);
    let m = model_members(ids[i], owner);
    assert(m[0].0 == "id"@ && m[1].0 == "object"@ && m[2].0 == "owned_by"@);
}

proof fn lemma_catalog_entry_at(ids: Seq<Seq<char>>, owner: Seq<char>, n: int)
    requires
        0 <= n <= ids.len(),
    ensures
        catalog_entries(ids, owner, n).len() == n,
        forall|i: int| 0 <= i < n ==> #[trigger] catalog_entries(ids, owner, n)[i] == catalog_entry(ids[i], owner),
    decreases n,
{
    if n > 0 {
        lemma_catalog_entry_at(ids, owner, n - 1);
        let before = catalog_entries(ids, owner, n - 1);
        let now = catalog_entries(ids, owner, n);
        assert forall|i: int| 0 <= i < n implies #[trigger] now[i] == catalog_entry(ids[i], owner) by {
            if i < n - 1 {
                assert(now[i] == before[i]);
            }
        }
    }
}

/// Every model that the provider lists is listed, at its place, with its own owner or else the
/// provider's, and with the time of its making where that is known.
pub proof fn every_upstream_model_is_listed(models: Seq<ModelView>, fallback: Seq<char>, i: int)
    requires
        0 <= i < models.len(),
    ensures
        ({
            let list = upstream_entries(models, fallback, models.len() as int);
            &&& list.len() == models.len()
            &&& json::says(list[i], "id"@, JsonView::Str(models[i].id))
            &&& json::says(list[i], "object"@, JsonView::Str("model"@))
            &&& models[i].owned_by matches Some(owner) ==> json::says(
                list[i],
                "owned_by"@,
                JsonView::Str(owner),
            )
            &&& models[i].owned_by is None ==> json::says(
                list[i],
                "owned_by"@,
                JsonView::Str(fallback),
            )
            &&& models[i].created matches Some(t) ==> json::says(
                list[i],
                "created"@,
                JsonView::Number(json::NumberView::Unsigned(t)),
            )
            &&& models[i].created is None ==> list[i]->Object_0.len() == 3
        }),
{
    lemma_upstream_entry_at(models, fallback, models.len() as int);
    let owner = match models[i].owned_by {
        Some(owner) => owner,
        None => fallback,
    };
    let m = upstream_entry(models[i], fallback)->Object_0;
    assert(m[0] == ("id"@, JsonView::Str(models[i].id)));
    assert(m[1] == ("object"@, JsonView::Str("model"@)));
    assert(m[2] == ("owned_by"@, JsonView::Str(owner)));
    if models[i].created is Some {
        assert(m[3].0 == "created"@);
    }
}

proof fn lemma_upstream_entry_at(models: Seq<ModelView>, fallback: Seq<char>, n: int)
    requires
        0 <= n <= models.len(),
    ensures
        upstream_entries(models, fallback, n).len() == n,
        forall|i: int| 0 <= i < n ==> #[trigger] upstream_entries(models, fallback, n)[i] == upstream_entry(models[i], fallback),
    decreases n,
{
    if n > 0 {
        lemma_upstream_entry_at(models, fallback, n - 1);
        let before = upstream_entries(models, fallback, n - 1);
        let now = upstream_entries(models, fallback, n);
        assert forall|i: int| 0 <= i < n implies #[trigger] now[i] == upstream_entry(models[i], fallback) by {
            if i < n - 1 {
                assert(now[i] == before[i]);
            }
        }
    }
}

/// A list of models says that it is one, and holds the entries it is given.
pub proof fn model_lists_hold_their_entries(data: Seq<JsonView>)
    ensures
        json::says(model_list(data), "object"@, JsonView::Str("list"@)),
        json::says(model_list(data), "data"@, JsonView::Array(data)),
{
    let m = model_list(data)->Object_0;
    assert(m[0].0 == "object"@ && m[1].0 == "data"@);
}

/// The provider is asked where it has an adapter that can list models and is configured;
/// otherwise the catalog of the adapter stands in, or else that of the target.
pub proof fn models_come_from_the_provider_first(t: ListingTarget)
    ensures
        asks_upstream(t) <==> t.adapter is Some && t.supports_listing && t.configured,
        t.adapter is None ==> fallback_catalog(t) == t.target_catalog@,
        t.adapter_catalog is None ==> fallback_catalog(t) == t.target_catalog@,
        t.adapter is Some ==> (t.adapter_catalog matches Some(c) ==> fallback_catalog(t) == c@),
{
}

} // verus!
