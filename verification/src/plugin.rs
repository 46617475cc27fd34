//! Shared plugin models: app connector identifiers and capability
//! summaries.

use vstd::prelude::*;

use crate::text::str_eq;

verus! {

/// The identifier of an app connector.
#[derive(Debug, Clone, PartialEq, Eq, Hash)]
pub struct AppConnectorId(pub String);

/// An app declared by a plugin.
#[derive(Debug, Clone, PartialEq, Eq)]
pub struct AppDeclaration {
    pub name: String,
    pub connector_id: AppConnectorId,
    pub category: Option<String>,
}

/// What a plugin contributes, for telemetry.
#[derive(Debug, Clone, Default, PartialEq, Eq)]
pub struct PluginCapabilitySummary {
    pub config_name: String,
    pub display_name: String,
    pub plugin_namespace: Option<String>,
    pub description: Option<String>,
    pub has_skills: bool,
    pub mcp_server_names: Vec<String>,
    pub app_connector_ids: Vec<AppConnectorId>,
}

/// Telemetry metadata of a plugin: its local id (as its configuration key)
/// when resolved, its backend id for a remote plugin, and its capabilities.
#[derive(Debug, Clone, PartialEq, Eq)]
pub struct PluginTelemetryMetadata {
    pub plugin_id: Option<String>,
    pub remote_plugin_id: Option<String>,
    pub capability_summary: Option<PluginCapabilitySummary>,
}

/// `s` with every repeated element dropped, keeping first occurrences in
/// their order.
pub open spec fn dedup_first(s: Seq<Seq<char>>) -> Seq<Seq<char>>
    decreases s.len(),
{
    if s.len() == 0 {
        Seq::empty()
    } else if s.drop_last().contains(s.last()) {
        dedup_first(s.drop_last())
    } else {
        dedup_first(s.drop_last()).push(s.last())
    }
}

/// The connector ids of a list of app declarations.
pub open spec fn declared_ids(apps: Seq<AppDeclaration>) -> Seq<Seq<char>> {
    apps.map_values(|a: AppDeclaration| a.connector_id.0@)
}

/// The views of a list of connector ids.
pub open spec fn ids_view(ids: Seq<AppConnectorId>) -> Seq<Seq<char>> {
    ids.map_values(|i: AppConnectorId| i.0@)
}

proof fn lemma_dedup_contains(s: Seq<Seq<char>>, x: Seq<char>)
    ensures
        dedup_first(s).contains(x) == s.contains(x),
    decreases s.len(),
{
    if s.len() > 0 {
        lemma_dedup_contains(s.drop_last(), x);
        if s.contains(x) && !s.drop_last().contains(x) {
            assert(s.last() == x) by {
                let k = choose|k: int| 0 <= k < s.len() && s[k] == x;
                if k < s.len() - 1 {
                    assert(s.drop_last()[k] == x);
                }
            }
        }
        if s.drop_last().contains(x) {
            let k = choose|k: int| 0 <= k < s.drop_last().len() && s.drop_last()[k] == x;
            assert(s[k] == x);
        }
        let d = dedup_first(s.drop_last());
        if !s.drop_last().contains(s.last()) {
            assert(d.push(s.last())[d.len() as int] == s.last());
            if d.contains(x) {
                let k = choose|k: int| 0 <= k < d.len() && d[k] == x;
                assert(d.push(s.last())[k] == x);
            }
            if d.push(s.last()).contains(x) {
                let k = choose|k: int| 0 <= k < d.len() + 1 && d.push(s.last())[k] == x;
                if k < d.len() {
                    assert(d[k] == x);
                }
            }
        }
    }
}

/// The connector ids of `app_declarations`, each once, in the order of
/// first declaration.
pub fn app_connector_ids_from_declarations(app_declarations: &[AppDeclaration]) -> (r: Vec<AppConnectorId>)
    ensures
        ids_view(r@) == dedup_first(declared_ids(app_declarations@)),
{
    let ghost all = declared_ids(app_declarations@);
    let mut ids: Vec<AppConnectorId> = Vec::new();
    let mut i: usize = 0;
    while i < app_declarations.len()
        invariant
            i <= app_declarations.len(),
            all == declared_ids(app_declarations@),
            ids_view(ids@) == dedup_first(all.take(i as int)),
        decreases app_declarations.len() - i,
    {
        let id = &app_declarations[i].connector_id;
        let ghost prefix = all.take(i as int);
        proof {
            assert(all.take(i + 1).drop_last() =~= prefix);
            assert(all.take(i + 1).last() == id.0@);
            lemma_dedup_contains(prefix, id.0@);
        }
        let mut seen = false;
        let mut k: usize = 0;
        while k < ids.len()
            invariant
                k <= ids.len(),
                seen == exists|j: int| 0 <= j < k && ids@[j].0@ == id.0@,
            decreases ids.len() - k,
        {
            if str_eq(ids[k].0.as_str(), id.0.as_str()) {
                seen = true;
            }
            k += 1;
        }
        proof {
            let d = ids_view(ids@);
            if seen {
                let j = choose|j: int| 0 <= j < ids@.len() && ids@[j].0@ == id.0@;
                assert(d[j] == id.0@);
            } else {
                assert forall|j: int| 0 <= j < d.len() implies d[j] != id.0@ by {
                    assert(d[j] == ids@[j].0@);
                }
            }
            assert(seen == d.contains(id.0@));
        }
        if !seen {
            let ghost before = ids_view(ids@);
            ids.push(AppConnectorId(id.0.clone()));
            assert(ids_view(ids@) =~= before.push(id.0@));
        }
        i += 1;
    }
    assert(all.take(app_declarations.len() as int) =~= all);
    ids
}

/// Law: the connector ids come out without repetition, and an id comes out
/// exactly when some declaration carries it.
pub proof fn lemma_connector_ids_unique_and_complete(s: Seq<Seq<char>>)
    ensures
        forall|i: int, j: int| 0 <= i < j < dedup_first(s).len() ==> dedup_first(s)[i] != dedup_first(s)[j],
        forall|x: Seq<char>| dedup_first(s).contains(x) == s.contains(x),
    decreases s.len(),
{
    assert forall|x: Seq<char>| dedup_first(s).contains(x) == s.contains(x) by {
        lemma_dedup_contains(s, x);
    }
    if s.len() > 0 {
        lemma_connector_ids_unique_and_complete(s.drop_last());
        lemma_dedup_contains(s.drop_last(), s.last());
        let d = dedup_first(s.drop_last());
        if !s.drop_last().contains(s.last()) {
            assert forall|i: int, j: int| 0 <= i < j < d.len() + 1 implies d.push(s.last())[i] != d.push(s.last())[j] by {
                if j == d.len() {
                    if d[i] == s.last() {
                        assert(d.contains(s.last()));
                    }
                }
            }
        }
    }
}

} // verus!
