//! The catalog data model: the remote index, its scenario descriptions, and
//! the scenario bodies (scenes with message templates). All of it is
//! immutable once loaded; settings refer to scenarios and scenes by position,
//! so the order of every list is meaningful.

use vstd::prelude::*;

verus! {

/// Description of one scenario as listed in the index: a display name, an
/// optional locale tag (a primary language subtag such as "en"), and the
/// filename under which the full scenario body is hosted.
pub struct ScenarioMeta {
    pub name: String,
    pub lang: Option<String>,
    pub filename: String,
}

/// One pairing moment: a display name and the interchangeable message
/// templates to draw from. Templates carry the placeholders `%1$s` and
/// `%2$s` for the two paired names.
pub struct Scene {
    pub name: String,
    pub messages: Vec<String>,
}

/// A themed collection of scenes. Order is meaningful: settings pin scenes
/// by position.
pub struct Scenario {
    pub scenes: Vec<Scene>,
}

/// The top-level manifest: a server display name, a free-text comment, the
/// ordered scenario list, and an optional extra "beta" scenario treated as
/// one more candidate at the end of the list.
pub struct Index {
    pub server_name: String,
    pub comment: String,
    pub scenarios: Vec<ScenarioMeta>,
    pub beta: Option<ScenarioMeta>,
}

/// The index together with every scenario body, in index order with the beta
/// entry last. Built once per session by `CatalogLoader`; selection never
/// mutates it.
pub struct LoadedIndex {
    pub inner: Index,
    pub scenarios: Vec<(ScenarioMeta, Scenario)>,
}

impl Clone for ScenarioMeta {
    fn clone(&self) -> (r: Self)
        ensures
            r == *self,
    {
        let lang = match &self.lang {
            Some(l) => Some(l.clone()),
            None => None,
        };
        let r = ScenarioMeta { name: self.name.clone(), lang, filename: self.filename.clone() };
        r
    }
}

pub(crate) fn clone_strings(v: &Vec<String>) -> (r: Vec<String>)
    ensures
        r@ == v@,
{
    let mut r: Vec<String> = Vec::new();
    let mut i: usize = 0;
    while i < v.len()
        invariant
            i <= v@.len(),
            r@ == v@.subrange(0, i as int),
        decreases v@.len() - i,
    {
        r.push(v[i].clone());
        proof {
            assert(r@ =~= v@.subrange(0, i + 1 as int));
        }
        i = i + 1;
    }
    proof {
        assert(v@.subrange(0, v@.len() as int) =~= v@);
    }
    r
}

} // verus!
