//! The catalog of named routes: which there are, and which model each one leads to.
use vstd::prelude::*;

use crate::control::{error_response, refusal, ErrorReply};
use crate::env::{var, var_of};
use crate::table::{ascending, Table};
use crate::text::{
    filled, filled_of, has_char, join, listed, lists, opt_view, owned, views,
};

verus! {

/// The judge of route names may answer `verdict` for a name.
pub open spec fn may_judge<F: Fn(&str) -> bool>(judge: F, name: Seq<char>, verdict: bool) -> bool {
    exists|s: &str| #[trigger] call_ensures(judge, (s,), verdict) && s@ == name
}

proof fn lemma_push_contains(s: Seq<Seq<char>>, key: Seq<char>)
    ensures
        forall|k: Seq<char>| #[trigger] s.push(key).contains(k) <==> s.contains(k) || k == key,
{
    assert forall|k: Seq<char>| #[trigger] s.push(key).contains(k) <==> s.contains(k) || k
        == key by {
        if s.contains(k) {
            let n = choose|n: int| 0 <= n < s.len() && s[n] == k;
            assert(s.push(key)[n] == k);
        }
        assert(s.push(key)[s.len() as int] == key);
        if s.push(key).contains(k) && k != key {
            let n = choose|n: int| 0 <= n < s.push(key).len() && s.push(key)[n] == k;
            assert(s[n] == k);
        }
    }
}

/// Either table has the name.
pub open spec fn named_in(
    model_aliases: Map<Seq<char>, Seq<char>>,
    lumina_aliases: Map<Seq<char>, Seq<char>>,
    k: Seq<char>,
) -> bool {
    model_aliases.contains_key(k) || lumina_aliases.contains_key(k)
}

/// The names that either table has, in order.
fn route_keys(model_aliases: &Table, lumina_aliases: &Table) -> (r: Vec<String>)
    ensures
        ascending(views(r@)),
        forall|k: Seq<char>| #[trigger]
            views(r@).contains(k) <==> named_in(model_aliases@, lumina_aliases@, k),
{
    let mut all = model_aliases.duplicate();
    let more = lumina_aliases.sorted_keys();
    let mut i: usize = 0;
    while i < more.len()
        invariant
            i <= more.len(),
            forall|k: Seq<char>| #[trigger]
                all@.contains_key(k) <==> model_aliases@.contains_key(k) || views(
                    more@.take(i as int),
                ).contains(k),
        decreases more.len() - i,
    {
        let ghost had = views(more@.take(i as int));
        let ghost key = more@[i as int]@;
        all.insert(more[i].clone(), String::new());
        proof {
            assert(views(more@.take(i + 1)) =~= had.push(key));
            lemma_push_contains(had, key);
        }
        i = i + 1;
    }
    assert(more@.take(more@.len() as int) =~= more@);
    all.sorted_keys()
}

/// The names that either table has, in order, as far as `is_route_id` accepts them. A name that is
/// not shaped like a route, such as a reference to a model, is not published.
pub fn route_ids<F: Fn(&str) -> bool>(
    model_aliases: &Table,
    lumina_aliases: &Table,
    is_route_id: F,
) -> (r: Vec<String>)
    requires
        forall|s: &str| #[trigger] call_requires(is_route_id, (s,)),
    ensures
        ascending(views(r@)),
        forall|k: Seq<char>| #[trigger]
            views(r@).contains(k) ==> named_in(model_aliases@, lumina_aliases@, k) && may_judge(
                is_route_id,
                k,
                true,
            ),
        forall|k: Seq<char>|
            named_in(model_aliases@, lumina_aliases@, k) && !#[trigger] views(r@).contains(k)
                ==> may_judge(is_route_id, k, false),
{
    let keys = route_keys(model_aliases, lumina_aliases);
    let mut r: Vec<String> = Vec::new();
    let mut n: usize = 0;
    while n < keys.len()
        invariant
            n <= keys.len(),
            forall|s: &str| #[trigger] call_requires(is_route_id, (s,)),
            ascending(views(keys@)),
            ascending(views(r@)),
            forall|k: Seq<char>| #[trigger]
                views(r@).contains(k) ==> views(keys@.take(n as int)).contains(k) && may_judge(
                    is_route_id,
                    k,
                    true,
                ),
            forall|k: Seq<char>|
                views(keys@.take(n as int)).contains(k) && !#[trigger] views(r@).contains(k)
                    ==> may_judge(is_route_id, k, false),
        decreases keys.len() - n,
    {
        let ghost seen = views(keys@.take(n as int));
        let ghost kept = views(r@);
        let ghost key = keys@[n as int]@;
        let accepted = is_route_id(keys[n].as_str());
        assert(may_judge(is_route_id, key, accepted));
        if accepted {
            r.push(keys[n].clone());
        }
        proof {
            assert(views(keys@.take(n + 1)) =~= seen.push(key));
            lemma_push_contains(seen, key);
            if accepted {
                assert(views(r@) =~= kept.push(key));
                lemma_push_contains(kept, key);
                assert forall|a: int, b: int| 0 <= a < b < kept.push(key).len() implies
                    crate::table::precedes(
                    #[trigger] kept.push(key)[a],
                    #[trigger] kept.push(key)[b],
                ) by {
                    if b == kept.len() {
                        assert(kept.contains(kept[a]));
                        assert(seen.contains(kept[a]));
                        let p = seen.index_of(kept[a]);
                        assert(views(keys@)[p] == kept[a]);
                        assert(views(keys@)[n as int] == key);
                    }
                }
            }
        }
        n = n + 1;
    }
    assert(keys@.take(keys@.len() as int) =~= keys@);
    r
}

/// The names of either table that are not published.
pub open spec fn omitted_names(
    model_aliases: Map<Seq<char>, Seq<char>>,
    lumina_aliases: Map<Seq<char>, Seq<char>>,
    ids: Seq<String>,
) -> Set<Seq<char>> {
    model_aliases.dom().union(lumina_aliases.dom()).filter(|k: Seq<char>| !lists(ids, k))
}

/// How many names of either table are not published.
pub fn omitted_routes(model_aliases: &Table, lumina_aliases: &Table, ids: &[String]) -> (r: usize)
    ensures
        r == omitted_names(model_aliases@, lumina_aliases@, ids@).len(),
{
    let keys = route_keys(model_aliases, lumina_aliases);
    let mut n: usize = 0;
    let mut i: usize = 0;
    let ghost mut gone: Set<Seq<char>> = Set::empty();
    while i < keys.len()
        invariant
            i <= keys.len(),
            ascending(views(keys@)),
            gone.finite(),
            n == gone.len(),
            n <= i,
            forall|k: Seq<char>| #[trigger]
                gone.contains(k) <==> views(keys@.take(i as int)).contains(k) && !lists(ids@, k),
        decreases keys.len() - i,
    {
        let ghost seen = views(keys@.take(i as int));
        let ghost key = keys@[i as int]@;
        proof {
            assert(views(keys@.take(i + 1)) =~= seen.push(key));
            lemma_push_contains(seen, key);
            if seen.contains(key) {
                let p = seen.index_of(key);
                assert(views(keys@)[p] == key);
                assert(views(keys@)[i as int] == key);
                crate::table::lemma_precedes_irreflexive(key);
            }
        }
        if !listed(ids, keys[i].as_str()) {
            n = n + 1;
            proof {
                gone = gone.insert(key);
            }
        }
        i = i + 1;
    }
    proof {
        assert(keys@.take(keys@.len() as int) =~= keys@);
        let all = omitted_names(model_aliases@, lumina_aliases@, ids@);
        assert forall|k: Seq<char>| gone.contains(k) <==> all.contains(k) by {
            assert(views(keys@).contains(k) <==> named_in(model_aliases@, lumina_aliases@, k));
        }
        assert(gone =~= all);
    }
    n
}

/// What the operator is told where names were left out of the catalog: how many, and why. The
/// names are not told, since they are likely to refer to models.
pub fn omitted_warning(omitted: usize) -> (r: Option<(usize, &'static str)>)
    ensures
        if omitted == 0 {
            r is None
        } else {
            r matches Some((n, text)) && n == omitted && text@
                == "route catalog: alias keys that are not route names were omitted — a route id must be lowercase alphanumerics/-/_ so it cannot be a model reference"@
        },
{
    if omitted == 0 {
        None
    } else {
        Some(
            (
                omitted,
                "route catalog: alias keys that are not route names were omitted — a route id must be lowercase alphanumerics/-/_ so it cannot be a model reference",
            ),
        )
    }
}

/// Where a route leads: what the runtime table says, else the static one, trimmed and not blank.
pub open spec fn target_of(
    lumina: Map<Seq<char>, Seq<char>>,
    aliases: Map<Seq<char>, Seq<char>>,
    id: Seq<char>,
) -> Option<Seq<char>> {
    filled(
        match var(lumina, id) {
            Some(t) => Some(t),
            None => var(aliases, id),
        },
    )
}

/// Where a route leads.
pub fn route_target(lumina_aliases: &Table, model_aliases: &Table, id: &str) -> (r: Option<String>)
    ensures
        opt_view(r) == target_of(lumina_aliases@, model_aliases@, id@),
{
    match var_of(lumina_aliases, id) {
        Some(t) => filled_of(Some(t)),
        None => filled_of(var_of(model_aliases, id)),
    }
}

/// The name under which a target is recorded: the exact one, else that of its latest version where
/// the target names no version.
pub open spec fn registry_key(names: Seq<String>, target: Seq<char>) -> Option<Seq<char>> {
    if lists(names, target) {
        Some(target)
    } else if !target.contains(':') && lists(names, target + ":latest"@) {
        Some(target + ":latest"@)
    } else {
        None
    }
}

/// The name under which a target is recorded.
pub fn recorded_key(names: &[String], target: &str) -> (r: Option<String>)
    ensures
        opt_view(r) == registry_key(names@, target@),
{
    if listed(names, target) {
        Some(owned(target))
    } else if has_char(target, ':') {
        None
    } else {
        let latest = join(target, ":latest");
        if listed(names, latest.as_str()) {
            Some(latest)
        } else {
            None
        }
    }
}

/// What is known of a route: whether it leads anywhere, and the name under which its target is
/// recorded. Only a recorded target has a backend.
#[derive(Debug, PartialEq, Eq)]
pub struct RouteFacts {
    pub id: String,
    pub has_target: bool,
    pub target_key: Option<String>,
}

/// The facts are those of the route.
pub open spec fn facts_of(
    f: RouteFacts,
    id: Seq<char>,
    lumina: Map<Seq<char>, Seq<char>>,
    aliases: Map<Seq<char>, Seq<char>>,
    names: Seq<String>,
) -> bool {
    &&& f.id@ == id
    &&& f.has_target == (target_of(lumina, aliases, id) is Some)
    &&& opt_view(f.target_key) == (match target_of(lumina, aliases, id) {
        Some(t) => registry_key(names, t),
        None => None,
    })
}

/// Gathers the facts of each route, in order. `names` are the recorded models.
pub fn collect_route_facts(
    ids: &[String],
    lumina_aliases: &Table,
    model_aliases: &Table,
    names: &[String],
) -> (r: Vec<RouteFacts>)
    ensures
        r@.len() == ids@.len(),
        forall|i: int|
            0 <= i < ids@.len() ==> facts_of(
                #[trigger] r@[i],
                ids@[i]@,
                lumina_aliases@,
                model_aliases@,
                names@,
            ),
{
    let mut r: Vec<RouteFacts> = Vec::new();
    let mut i: usize = 0;
    while i < ids.len()
        invariant
            i <= ids.len(),
            r@.len() == i,
            forall|k: int|
                0 <= k < i ==> facts_of(
                    #[trigger] r@[k],
                    ids@[k]@,
                    lumina_aliases@,
                    model_aliases@,
                    names@,
                ),
        decreases ids.len() - i,
    {
        let id = ids[i].as_str();
        let facts = match route_target(lumina_aliases, model_aliases, id) {
            Some(t) => RouteFacts {
                id: owned(id),
                has_target: true,
                target_key: recorded_key(names, t.as_str()),
            },
            None => RouteFacts { id: owned(id), has_target: false, target_key: None },
        };
        r.push(facts);
        i = i + 1;
    }
    r
}

/// A target that the runtime table holds wins over the static one, and a name that is recorded
/// exactly wins over its latest version.
pub proof fn law_route_resolves_as_traffic_does(
    lumina: Map<Seq<char>, Seq<char>>,
    aliases: Map<Seq<char>, Seq<char>>,
    id: Seq<char>,
    names: Seq<String>,
    target: Seq<char>,
)
    ensures
        lumina.contains_key(id) ==> target_of(lumina, aliases, id) == filled(Some(lumina[id])),
        !lumina.contains_key(id) && aliases.contains_key(id) ==> target_of(lumina, aliases, id)
            == filled(Some(aliases[id])),
        !lumina.contains_key(id) && !aliases.contains_key(id) ==> target_of(lumina, aliases, id)
            is None,
        lists(names, target) ==> registry_key(names, target) == Some(target),
        registry_key(names, target) matches Some(k) ==> lists(names, k),
{
}

/// Is a request for one route refused? The reply does not repeat the name that was asked for.
pub fn get_route(ids: &[String], id: &str) -> (r: Option<ErrorReply>)
    ensures
        if lists(ids@, id@) {
            r is None
        } else {
            r matches Some(e) && refusal(e, 404, "unknown route"@)
        },
{
    if listed(ids, id) {
        None
    } else {
        Some(error_response(404, "unknown route"))
    }
}

/// A backend, as far as its liveness goes.
#[derive(Debug, PartialEq, Eq)]
pub struct LiveBackend {
    /// It is a service elsewhere, which is not probed.
    pub remote: bool,
    /// It is started when needed; being stopped is its rest.
    pub on_demand: bool,
    pub url: String,
}

/// The backend has to be up at all times, here.
pub open spec fn is_probed(b: LiveBackend) -> bool {
    !b.remote && !b.on_demand
}

/// Some backend at that address is probed.
pub open spec fn probed_at(backends: Seq<LiveBackend>, url: Seq<char>) -> bool {
    exists|i: int| 0 <= i < backends.len() && is_probed(#[trigger] backends[i]) && backends[i].url@
        == url
}

/// The addresses to probe, each once, in order.
pub fn probe_urls(backends: &[LiveBackend]) -> (r: Vec<String>)
    ensures
        ascending(views(r@)),
        forall|u: Seq<char>| #[trigger] views(r@).contains(u) <==> probed_at(backends@, u),
{
    let mut urls = Table::new();
    let mut i: usize = 0;
    while i < backends.len()
        invariant
            i <= backends.len(),
            forall|u: Seq<char>| #[trigger]
                urls@.contains_key(u) <==> probed_at(backends@.take(i as int), u),
        decreases backends.len() - i,
    {
        let ghost head = backends@.take(i as int);
        let ghost more = backends@.take(i + 1);
        let ghost b = backends@[i as int];
        if !backends[i].remote && !backends[i].on_demand {
            urls.insert(backends[i].url.clone(), String::new());
        }
        proof {
            assert forall|u: Seq<char>| probed_at(more, u) <==> probed_at(head, u) || (is_probed(b)
                && b.url@ == u) by {
                if probed_at(more, u) {
                    let k = choose|k: int|
                        0 <= k < more.len() && is_probed(#[trigger] more[k]) && more[k].url@ == u;
                    if k < i {
                        assert(head[k] == more[k]);
                    }
                }
                if probed_at(head, u) {
                    let k = choose|k: int|
                        0 <= k < head.len() && is_probed(#[trigger] head[k]) && head[k].url@ == u;
                    assert(more[k] == head[k]);
                }
                assert(more[i as int] == b);
            }
        }
        i = i + 1;
    }
    assert(backends@.take(backends@.len() as int) =~= backends@);
    urls.sorted_keys()
}

/// ASCII white space.
pub open spec fn is_blank_byte(b: u8) -> bool {
    b == 9 || b == 10 || b == 12 || b == 13 || b == 32
}

/// Some byte is not blank.
pub open spec fn has_content(value: Seq<u8>) -> bool {
    exists|i: int| 0 <= i < value.len() && !is_blank_byte(#[trigger] value[i])
}

/// Is a credential more than blank?
pub fn credential_present(value: &[u8]) -> (r: bool)
    ensures
        r == has_content(value@),
{
    let mut i: usize = 0;
    while i < value.len()
        invariant
            i <= value.len(),
            forall|k: int| 0 <= k < i ==> is_blank_byte(#[trigger] value@[k]),
        decreases value.len() - i,
    {
        let b: u8 = value[i];
        if !(b == 9 || b == 10 || b == 12 || b == 13 || b == 32) {
            assert(!is_blank_byte(value@[i as int]));
            return true;
        }
        i = i + 1;
    }
    false
}

/// A name is a route's where either table has it.
pub proof fn law_either_table_names_a_route(
    aliases: Map<Seq<char>, Seq<char>>,
    lumina: Map<Seq<char>, Seq<char>>,
    k: Seq<char>,
)
    ensures
        aliases.contains_key(k) ==> named_in(aliases, lumina, k),
        lumina.contains_key(k) ==> named_in(aliases, lumina, k),
        !aliases.contains_key(k) && !lumina.contains_key(k) ==> !named_in(aliases, lumina, k),
{
}

/// A name counts as left out where a table has it and the catalog does not.
pub proof fn law_left_out_names(
    aliases: Map<Seq<char>, Seq<char>>,
    lumina: Map<Seq<char>, Seq<char>>,
    ids: Seq<String>,
    k: Seq<char>,
)
    ensures
        omitted_names(aliases, lumina, ids).contains(k) <==> (aliases.contains_key(k)
            || lumina.contains_key(k)) && !views(ids).contains(k),
{
    crate::text::law_strings_are_seen_one_by_one(ids, 0, k);
}

/// Where the judge of route names always answers as `is_route` says, a published name is a route and
/// one that is not published is none.
pub proof fn law_judge_decides_what_is_published<F: Fn(&str) -> bool>(
    judge: F,
    is_route: spec_fn(Seq<char>) -> bool,
    name: Seq<char>,
)
    requires
        forall|s: &str, b: bool| #[trigger] call_ensures(judge, (s,), b) ==> b == is_route(s@),
    ensures
        may_judge(judge, name, true) ==> is_route(name),
        may_judge(judge, name, false) ==> !is_route(name),
{
}

/// A target without a version is recorded under its own name or under its latest version; one with a
/// version under its own name alone.
pub proof fn law_latest_version_is_tried(names: Seq<String>, target: Seq<char>)
    ensures
        lists(names, target) ==> registry_key(names, target) == Some(target),
        !lists(names, target) && !target.contains(':') && lists(names, target + ":latest"@)
            ==> registry_key(names, target) == Some(target + ":latest"@),
        !lists(names, target) && target.contains(':') ==> registry_key(names, target) is None,
        !lists(names, target) && !lists(names, target + ":latest"@) ==> registry_key(names, target)
            is None,
{
}

/// The facts of a route are its own name, whether it leads anywhere, and under which name its target
/// is recorded.
pub proof fn law_facts_are_of_their_route(
    f: RouteFacts,
    id: Seq<char>,
    lumina: Map<Seq<char>, Seq<char>>,
    aliases: Map<Seq<char>, Seq<char>>,
    names: Seq<String>,
)
    requires
        facts_of(f, id, lumina, aliases, names),
    ensures
        f.id@ == id,
        f.has_target <==> target_of(lumina, aliases, id) is Some,
        target_of(lumina, aliases, id) matches Some(t) ==> opt_view(f.target_key) == registry_key(
            names,
            t,
        ),
        !f.has_target ==> f.target_key is None,
{
}

/// Only a backend that has to be up here at all times is probed; an address is probed where such a
/// backend has it.
pub proof fn law_only_resident_backends_are_probed(backends: Seq<LiveBackend>, i: int)
    ensures
        0 <= i < backends.len() ==> (is_probed(backends[i]) <==> !backends[i].remote
            && !backends[i].on_demand),
        0 <= i < backends.len() && !backends[i].remote && !backends[i].on_demand ==> probed_at(
            backends,
            backends[i].url@,
        ),
        forall|url: Seq<char>| #[trigger]
            probed_at(backends, url) ==> exists|k: int|
                0 <= k < backends.len() && !backends[k].remote && !backends[k].on_demand && (
                #[trigger] backends[k]).url@ == url,
{
    if 0 <= i < backends.len() && !backends[i].remote && !backends[i].on_demand {
        assert(is_probed(backends[i]));
    }
    assert forall|url: Seq<char>| #[trigger] probed_at(backends, url) implies exists|k: int|
        0 <= k < backends.len() && !backends[k].remote && !backends[k].on_demand && (
        #[trigger] backends[k]).url@ == url by {
        let k = choose|k: int|
            0 <= k < backends.len() && is_probed(#[trigger] backends[k]) && backends[k].url@
                == url;
        assert(backends[k].url@ == url);
    }
}

/// A credential is there where one of its bytes is no white space of ASCII.
pub proof fn law_blank_credentials_are_none(value: Seq<u8>, i: int)
    ensures
        0 <= i < value.len() && value[i] > 32 ==> has_content(value),
        (forall|k: int|
            0 <= k < value.len() ==> seq![9u8, 10u8, 12u8, 13u8, 32u8].contains(#[trigger] value[k]))
            ==> !has_content(value),
        has_content(value) ==> exists|k: int|
            0 <= k < value.len() && #[trigger] value[k] != 9 && value[k] != 10 && value[k] != 12
                && value[k] != 13 && value[k] != 32,
        0 <= i < value.len() && value[i] == 11 ==> has_content(value),
{
    let blanks = seq![9u8, 10u8, 12u8, 13u8, 32u8];
    if 0 <= i < value.len() && (value[i] > 32 || value[i] == 11) {
        assert(!is_blank_byte(value[i]));
    }
    assert forall|b: u8| #[trigger] blanks.contains(b) implies is_blank_byte(b) by {
        let k = choose|k: int| 0 <= k < blanks.len() && blanks[k] == b;
        assert(0 <= k < 5);
    }
    if has_content(value) {
        let k = choose|k: int| 0 <= k < value.len() && !is_blank_byte(#[trigger] value[k]);
        assert(value[k] != 9);
        if forall|k: int| 0 <= k < value.len() ==> blanks.contains(#[trigger] value[k]) {
            assert(blanks.contains(value[k]));
        }
    }
}

} // verus!
