//! The picker's model inventory: the curated presets folded in ahead of
//! the registry's presets, and the names the picker shows.

use vstd::prelude::*;

use crate::curated_models::{curated_presets, curated_table, preset_of, presets_view, CuratedModelV, ModelPreset, ModelPresetV};
use crate::text::{ascii_lower, chars_eq, chars_of, lower_chars};

verus! {

/// The reserve model's slug.
pub open spec fn reserve_model() -> Seq<char> {
    "gpt-reserve"@
}

/// The name shown for a model no preset names: the reserve model (in any
/// ASCII case) is "Luna Reserve"; any other model shows its slug.
pub open spec fn fallback_display_name(model: Seq<char>) -> Seq<char> {
    if ascii_lower(model) == ascii_lower(reserve_model()) {
        "Luna Reserve"@
    } else {
        model
    }
}

/// The name shown for `model` when no preset names it.
pub fn model_display_name(model: &str) -> (r: &str)
    ensures
        r@ == fallback_display_name(model@),
{
    let lowered = lower_chars(chars_of(model).as_slice());
    let reserve = lower_chars(chars_of("gpt-reserve").as_slice());
    if chars_eq(lowered.as_slice(), reserve.as_slice()) {
        proof {
            reveal_strlit("Luna Reserve");
        }
        "Luna Reserve"
    } else {
        model
    }
}

/// The ids of a list of presets.
pub open spec fn preset_ids(s: Seq<ModelPresetV>) -> Seq<Seq<char>> {
    s.map_values(|p: ModelPresetV| p.id)
}

/// The presets of `curated` whose id is not among `ids`, in order.
pub open spec fn not_listed(curated: Seq<ModelPresetV>, ids: Seq<Seq<char>>) -> Seq<ModelPresetV>
    decreases curated.len(),
{
    if curated.len() == 0 {
        Seq::empty()
    } else {
        let rest = not_listed(curated.drop_last(), ids);
        if ids.contains(curated.last().id) {
            rest
        } else {
            rest.push(curated.last())
        }
    }
}

/// The catalog made from the registry's presets: the curated presets the
/// registry does not also list (a registry entry with the same id wins),
/// then the registry's presets.
pub open spec fn merged_catalog(upstream: Seq<ModelPresetV>) -> Seq<ModelPresetV> {
    not_listed(curated_table().map_values(|e: CuratedModelV| preset_of(e)), preset_ids(upstream)) + upstream
}

/// The name the catalog shows for `model`: the display name of the first
/// preset for that model, else the fallback name.
pub open spec fn catalog_display_name(models: Seq<ModelPresetV>, model: Seq<char>) -> Seq<char>
    decreases models.len(),
{
    if models.len() == 0 {
        fallback_display_name(model)
    } else if models[0].model == model {
        models[0].display_name
    } else {
        catalog_display_name(models.drop_first(), model)
    }
}

fn copy_preset(p: &ModelPreset) -> (r: ModelPreset)
    ensures
        r@ == p@,
{
    ModelPreset {
        id: p.id.clone(),
        model: p.model.clone(),
        display_name: p.display_name.clone(),
        description: p.description.clone(),
        supports_personality: p.supports_personality,
        is_default: p.is_default,
        show_in_picker: p.show_in_picker,
        supported_in_api: p.supported_in_api,
    }
}

fn contains_id(v: &[ModelPreset], id: &str) -> (b: bool)
    ensures
        b == preset_ids(presets_view(v@)).contains(id@),
{
    let mut i: usize = 0;
    while i < v.len()
        invariant
            i <= v.len(),
            forall|k: int| 0 <= k < i ==> v@[k].id@ != id@,
        decreases v.len() - i,
    {
        if crate::text::str_eq(v[i].id.as_str(), id) {
            assert(preset_ids(presets_view(v@))[i as int] == id@);
            return true;
        }
        i += 1;
    }
    assert forall|k: int| 0 <= k < preset_ids(presets_view(v@)).len() implies preset_ids(presets_view(v@))[k] != id@ by {
        assert(preset_ids(presets_view(v@))[k] == v@[k].id@);
    }
    false
}

/// The picker's model inventory.
pub struct ModelCatalog {
    pub models: Vec<ModelPreset>,
}

impl ModelCatalog {
    /// The catalog for the registry's presets `models`: the curated presets
    /// first (those the registry does not list), then the registry's.
    pub fn new(models: Vec<ModelPreset>) -> (r: ModelCatalog)
        ensures
            presets_view(r.models@) == merged_catalog(presets_view(models@)),
    {
        let curated = curated_presets();
        let ghost cv = curated_table().map_values(|e: CuratedModelV| preset_of(e));
        let ghost ids = preset_ids(presets_view(models@));
        let mut merged: Vec<ModelPreset> = Vec::new();
        let mut i: usize = 0;
        while i < curated.len()
            invariant
                i <= curated.len(),
                presets_view(curated@) == cv,
                ids == preset_ids(presets_view(models@)),
                presets_view(merged@) == not_listed(cv.take(i as int), ids),
            decreases curated.len() - i,
        {
            assert(cv.take(i + 1).drop_last() =~= cv.take(i as int));
            assert(cv.take(i + 1).last() == curated@[i as int]@);
            if !contains_id(models.as_slice(), curated[i].id.as_str()) {
                merged.push(copy_preset(&curated[i]));
                proof {
                    assert(merged@[merged@.len() - 1]@ == curated@[i as int]@);
                    assert(presets_view(merged@) =~= not_listed(cv.take(i as int), ids).push(curated@[i as int]@));
                }
            }
            i += 1;
        }
        assert(cv.take(curated.len() as int) =~= cv);
        let ghost front = presets_view(merged@);
        let mut rest = models;
        merged.append(&mut rest);
        assert(presets_view(merged@) =~= front + presets_view(models@));
        ModelCatalog { models: merged }
    }

    /// The name shown for `model`.
    pub fn display_name(&self, model: &str) -> (r: String)
        ensures
            r@ == catalog_display_name(presets_view(self.models@), model@),
    {
        let ghost all = presets_view(self.models@);
        let mut i: usize = 0;
        assert(all.subrange(0, all.len() as int) =~= all);
        while i < self.models.len()
            invariant
                i <= self.models.len(),
                all == presets_view(self.models@),
                catalog_display_name(all, model@) == catalog_display_name(all.subrange(i as int, all.len() as int), model@),
            decreases self.models.len() - i,
        {
            let ghost rest = all.subrange(i as int, all.len() as int);
            assert(rest[0] == self.models@[i as int]@);
            assert(rest.drop_first() =~= all.subrange(i + 1, all.len() as int));
            if crate::text::str_eq(self.models[i].model.as_str(), model) {
                return self.models[i].display_name.clone();
            }
            i += 1;
        }
        model_display_name(model).to_string()
    }
}

proof fn lemma_not_listed_excludes(curated: Seq<ModelPresetV>, ids: Seq<Seq<char>>)
    ensures
        forall|j: int| 0 <= j < not_listed(curated, ids).len() ==> !ids.contains(#[trigger] not_listed(curated, ids)[j].id),
    decreases curated.len(),
{
    if curated.len() > 0 {
        let rest = not_listed(curated.drop_last(), ids);
        lemma_not_listed_excludes(curated.drop_last(), ids);
        if !ids.contains(curated.last().id) {
            let all = rest.push(curated.last());
            assert(not_listed(curated, ids) == all);
            assert forall|j: int| 0 <= j < all.len() implies !ids.contains(#[trigger] all[j].id) by {
                if j < rest.len() {
                    assert(all[j] == rest[j]);
                }
            }
        }
    }
}

/// A registry preset wins over a curated one with the same id: every
/// catalog entry whose id the registry lists is one of the registry's
/// presets (the catalog's tail), and every registry preset is in the
/// catalog.
pub proof fn lemma_registry_presets_win(upstream: Seq<ModelPresetV>, k: int)
    requires
        0 <= k < merged_catalog(upstream).len(),
        preset_ids(upstream).contains(merged_catalog(upstream)[k].id),
    ensures
        k >= merged_catalog(upstream).len() - upstream.len(),
        merged_catalog(upstream)[k] == upstream[k - (merged_catalog(upstream).len() - upstream.len())],
{
    let front = not_listed(curated_table().map_values(|e: CuratedModelV| preset_of(e)), preset_ids(upstream));
    lemma_not_listed_excludes(curated_table().map_values(|e: CuratedModelV| preset_of(e)), preset_ids(upstream));
    if k < front.len() {
        assert(merged_catalog(upstream)[k] == front[k]);
    }
}

} // verus!
