//! The refresh of the model directory, as far as it decides: which models
//! of a tier stay, which are new and which are gone, and when a probed
//! model counts as alive.

use crate::model::{lemma_filter_push, model_views, Model, ModelV};
use crate::text::same;
use vstd::prelude::*;

verus! {

/// What a refresh makes of a tier.
#[derive(Debug, PartialEq, Eq)]
pub struct TierDiff {
    /// The known models that upstream still offers, in their old order.
    pub kept: Vec<Model>,
    /// The models that upstream offers and that were not known, in the
    /// order of the fresh list.
    pub added: Vec<Model>,
    /// The known models that upstream no longer offers, in their old order.
    pub removed: Vec<Model>,
}

/// Whether one of the models has the identifier `id`.
pub open spec fn has_id(models: Seq<ModelV>, id: Seq<char>) -> bool {
    exists|i: int| 0 <= i < models.len() && (#[trigger] models[i]).id == id
}

/// Whether a probe that ended with the status `status` shows the model
/// alive: a success does, and so does 429, which tells that the model is
/// there and busy.
pub open spec fn alive(status: u16) -> bool {
    200 <= status <= 299 || status == 429
}

/// Whether a probe that ended with the given status shows the model alive.
pub fn is_alive(status: u16) -> (r: bool)
    ensures
        r == alive(status),
{
    (200 <= status && status <= 299) || status == 429
}

/// Whether one of the models has the identifier `id`.
pub fn knows(models: &[Model], id: &str) -> (r: bool)
    ensures
        r == has_id(model_views(models@), id@),
{
    let ghost all = model_views(models@);
    let mut i: usize = 0;
    while i < models.len()
        invariant
            i <= models.len(),
            all == model_views(models@),
            forall|k: int| 0 <= k < i ==> (#[trigger] all[k]).id != id@,
        decreases models.len() - i,
    {
        if same(models[i].id.as_str(), id) {
            assert(all[i as int].id == id@);
            return true;
        }
        i += 1;
    }
    false
}

/// The models of `from` that are, or are not, among `others`, in their
/// order.
fn select(from: &[Model], others: &[Model], want: bool) -> (r: Vec<Model>)
    ensures
        model_views(r@) == model_views(from@).filter(
            |m: ModelV| has_id(model_views(others@), m.id) == want,
        ),
{
    let ghost views = model_views(from@);
    let ghost pred = |m: ModelV| has_id(model_views(others@), m.id) == want;
    let mut out: Vec<Model> = Vec::new();
    let mut i: usize = 0;
    proof {
        reveal(Seq::filter);
        assert(views.take(0) =~= Seq::<ModelV>::empty());
        assert(model_views(out@) =~= views.take(0).filter(pred));
    }
    while i < from.len()
        invariant
            i <= from.len(),
            views == model_views(from@),
            pred == (|m: ModelV| has_id(model_views(others@), m.id) == want),
            model_views(out@) == views.take(i as int).filter(pred),
        decreases from.len() - i,
    {
        let m = &from[i];
        let ghost before = model_views(out@);
        if knows(others, m.id.as_str()) == want {
            out.push(m.deep_clone());
            assert(model_views(out@) =~= before.push(m@));
        }
        proof {
            assert(views.take(i + 1) =~= views.take(i as int).push(m@));
            lemma_filter_push(views.take(i as int), m@, pred);
        }
        i += 1;
    }
    assert(views.take(from.len() as int) =~= views);
    out
}

/// Compares the known models of a tier with the fresh list from upstream.
pub fn diff_tier(old: &[Model], fresh: &[Model]) -> (r: TierDiff)
    ensures
        model_views(r.kept@) == model_views(old@).filter(
            |m: ModelV| has_id(model_views(fresh@), m.id) == true,
        ),
        model_views(r.added@) == model_views(fresh@).filter(
            |m: ModelV| has_id(model_views(old@), m.id) == false,
        ),
        model_views(r.removed@) == model_views(old@).filter(
            |m: ModelV| has_id(model_views(fresh@), m.id) == false,
        ),
{
    TierDiff {
        kept: select(old, fresh, true),
        added: select(fresh, old, false),
        removed: select(old, fresh, false),
    }
}

/// The models of a tier after a refresh: those that were kept, then those
/// of the new ones that are alive.
pub fn merge(kept: Vec<Model>, healthy: Vec<Model>) -> (r: Vec<Model>)
    ensures
        model_views(r@) == model_views(kept@) + model_views(healthy@),
{
    let mut out = kept;
    let mut rest = healthy;
    out.append(&mut rest);
    assert(model_views(out@) =~= model_views(kept@) + model_views(healthy@));
    out
}

} // verus!
