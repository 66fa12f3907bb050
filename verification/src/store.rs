//! Bulk seeding: building the runtime services from each setting's keys and
//! the per-key outcomes of the parameter store's fetch.
//!
//! The store itself is an external collaborator; the caller fetches each key
//! and hands in one outcome per key, in key order. A key the store does not
//! know is dropped, not placeheld; any other fetch failure aborts the whole
//! seeding, which is fatal before the stream loop starts.

use vstd::prelude::*;

use vstd::std_specs::iter::IteratorSpec;

use crate::config::{Config, Parameter, ParameterView, Service, ServiceView, Setting};
use crate::error::DaemonError;
use crate::value::{Value, ValueView};

verus! {

/// One key's fetch outcome: the store's value, a not-found answer, or any
/// other failure.
#[derive(Debug)]
pub enum FetchOutcome {
    Found(String),
    NotFound,
    Failed,
}

/// The mathematical shape of a [`FetchOutcome`].
pub enum FetchOutcomeView {
    Found(Seq<char>),
    NotFound,
    Failed,
}

impl View for FetchOutcome {
    type V = FetchOutcomeView;

    open spec fn view(&self) -> FetchOutcomeView {
        match self {
            FetchOutcome::Found(v) => FetchOutcomeView::Found(v@),
            FetchOutcome::NotFound => FetchOutcomeView::NotFound,
            FetchOutcome::Failed => FetchOutcomeView::Failed,
        }
    }
}

impl DeepView for FetchOutcome {
    type V = FetchOutcomeView;

    open spec fn deep_view(&self) -> FetchOutcomeView {
        self.view()
    }
}

/// The template variable name a key path yields: the final path segment after
/// the last separator, or the whole key when it has no separator.
pub open spec fn name_of_spec(key: Seq<char>) -> Seq<char>
    decreases key.len(),
{
    if key.len() == 0 {
        Seq::empty()
    } else if key.last() == '/' {
        Seq::empty()
    } else {
        name_of_spec(key.drop_last()).push(key.last())
    }
}

/// Derives the template variable name from a key path, as [`name_of_spec`] says.
pub fn parameter_name_of(key: &String) -> (r: String)
    ensures
        r@ == name_of_spec(key@),
{
    let mut current = String::new();
    let mut chars = key.as_str().chars();
    let ghost all = key@;
    loop
        invariant
            chars.obeys_prophetic_iter_laws(),
            chars.decrease() is Some,
            all == key@,
            chars.remaining().len() <= all.len(),
            all.take(all.len() - chars.remaining().len()) + chars.remaining() == all,
            current@ == name_of_spec(all.take(all.len() - chars.remaining().len())),
        ensures
            current@ == name_of_spec(all),
        decreases chars.decrease()->0,
    {
        let ghost done = all.take(all.len() - chars.remaining().len());
        match chars.next() {
            Some(c) => {
                let ghost next_done = all.take(all.len() - chars.remaining().len());
                proof {
                    assert(c == all[done.len() as int]);
                    assert(next_done =~= done.push(c));
                    assert(done.push(c).drop_last() =~= done);
                    assert(done.push(c).last() == c);
                }
                if c == '/' {
                    current = String::new();
                } else {
                    current.append(crate::render::char_to_str(c).as_str());
                    proof {
                        assert(current@ =~= name_of_spec(done).push(c));
                    }
                }
            },
            None => {
                proof {
                    assert(done =~= all);
                }
                break ;
            },
        }
    }
    current
}

/// The parameters seeding leaves for a setting: one per key the store found,
/// in key order, named after the key's final segment, valued with the store's
/// text; not-found keys are dropped.
pub open spec fn seeded_params(keys: Seq<Seq<char>>, outcomes: Seq<FetchOutcomeView>) -> Seq<
    ParameterView,
>
    decreases keys.len(),
{
    if keys.len() == 0 || outcomes.len() == 0 {
        Seq::empty()
    } else {
        let rest = seeded_params(keys.drop_last(), outcomes.drop_last());
        match outcomes.last() {
            FetchOutcomeView::Found(v) => rest.push(
                ParameterView {
                    ps_path: keys.last(),
                    name: name_of_spec(keys.last()),
                    value: ValueView::Text(v),
                },
            ),
            _ => rest,
        }
    }
}

/// How many keys the store found.
pub open spec fn count_found(outcomes: Seq<FetchOutcomeView>) -> int
    decreases outcomes.len(),
{
    if outcomes.len() == 0 {
        0
    } else {
        count_found(outcomes.drop_last()) + if outcomes.last() is Found {
            1int
        } else {
            0int
        }
    }
}

/// How many keys the store reported as not found.
pub open spec fn count_not_found(outcomes: Seq<FetchOutcomeView>) -> int
    decreases outcomes.len(),
{
    if outcomes.len() == 0 {
        0
    } else {
        count_not_found(outcomes.drop_last()) + if outcomes.last() is NotFound {
            1int
        } else {
            0int
        }
    }
}

/// No fetch failed outright (every outcome is a value or a clean not-found).
pub open spec fn no_failed(outcomes: Seq<FetchOutcomeView>) -> bool {
    forall|t: int| 0 <= t < outcomes.len() ==> !(#[trigger] outcomes[t] is Failed)
}

/// Law: after bulk seeding a setting whose `n` keys the store found and whose
/// remaining `m` keys it reported as not found, the service has exactly `n`
/// parameters: not-found keys are dropped, not placeheld.
pub proof fn lemma_seed_counts(keys: Seq<Seq<char>>, outcomes: Seq<FetchOutcomeView>)
    requires
        keys.len() == outcomes.len(),
        no_failed(outcomes),
    ensures
        seeded_params(keys, outcomes).len() == count_found(outcomes),
        count_found(outcomes) + count_not_found(outcomes) == outcomes.len(),
    decreases outcomes.len(),
{
    if outcomes.len() > 0 {
        assert forall|t: int| 0 <= t < outcomes.drop_last().len() implies !(
        #[trigger] outcomes.drop_last()[t] is Failed) by {
            assert(outcomes.drop_last()[t] == outcomes[t]);
        }
        lemma_seed_counts(keys.drop_last(), outcomes.drop_last());
        assert(!(outcomes.last() is Failed));
    }
}

/// `t` is the first outcome that failed outright.
pub open spec fn is_first_failed(outcomes: Seq<FetchOutcomeView>, t: int) -> bool {
    &&& 0 <= t < outcomes.len()
    &&& outcomes[t] is Failed
    &&& forall|u: int| 0 <= u < t ==> !(#[trigger] outcomes[u] is Failed)
}

/// Builds one runtime service from its setting and the per-key fetch outcomes:
/// keys the store found become parameters in key order; not-found keys are
/// dropped; the first outright failure aborts with the failing key's path.
pub fn build_service(setting: &Setting, outcomes: &Vec<FetchOutcome>) -> (r: Result<
    Service,
    DaemonError,
>)
    requires
        outcomes@.len() == setting.keys@.len(),
    ensures
        r matches Ok(svc) ==> ({
            &&& svc@.service_name == setting@.service_name
            &&& svc@.parameters == seeded_params(setting@.keys, outcomes.deep_view())
        }),
        r is Ok <==> no_failed(outcomes.deep_view()),
        r matches Err(e) ==> exists|t: int|
            is_first_failed(outcomes.deep_view(), t) && (e matches DaemonError::SsmGet { key_path }
                && key_path@ == setting@.keys[t]),
{
    let ghost keysdv = setting@.keys;
    let ghost outdv = outcomes.deep_view();
    let mut parameters: Vec<Parameter> = Vec::new();
    let mut k: usize = 0;
    while k < outcomes.len()
        invariant
            outcomes@.len() == setting.keys@.len(),
            keysdv == setting@.keys,
            outdv == outcomes.deep_view(),
            keysdv.len() == outdv.len(),
            k <= outdv.len(),
            forall|u: int| 0 <= u < k ==> !(#[trigger] outdv[u] is Failed),
            parameters.deep_view() == seeded_params(keysdv.take(k as int), outdv.take(k as int)),
        decreases outcomes.len() - k,
    {
        proof {
            assert(outdv[k as int] == outcomes@[k as int].deep_view());
            assert(keysdv[k as int] == setting.keys@[k as int]@);
            assert(keysdv.take((k + 1) as int).drop_last() =~= keysdv.take(k as int));
            assert(outdv.take((k + 1) as int).drop_last() =~= outdv.take(k as int));
            assert(keysdv.take((k + 1) as int).last() == keysdv[k as int]);
            assert(outdv.take((k + 1) as int).last() == outdv[k as int]);
        }
        match &outcomes[k] {
            FetchOutcome::Found(v) => {
                let p = Parameter {
                    ps_path: setting.keys[k].clone(),
                    name: parameter_name_of(&setting.keys[k]),
                    value: Value::Text(v.clone()),
                };
                proof {
                    assert(p.deep_view() == ParameterView {
                        ps_path: keysdv[k as int],
                        name: name_of_spec(keysdv[k as int]),
                        value: ValueView::Text(outdv[k as int]->Found_0),
                    });
                }
                let ghost pre = parameters@;
                let ghost predv = parameters.deep_view();
                parameters.push(p);
                proof {
                    let target = seeded_params(
                        keysdv.take((k + 1) as int),
                        outdv.take((k + 1) as int),
                    );
                    assert(predv.len() == pre.len());
                    assert(parameters.deep_view().len() == parameters@.len());
                    assert(target == predv.push(ParameterView {
                        ps_path: keysdv[k as int],
                        name: name_of_spec(keysdv[k as int]),
                        value: ValueView::Text(outdv[k as int]->Found_0),
                    }));
                    assert forall|m: int| 0 <= m < parameters.deep_view().len() implies
                        parameters.deep_view()[m] == target[m] by {
                        assert(parameters.deep_view()[m] == parameters@[m].deep_view());
                        if m < pre.len() {
                            assert(parameters@[m] == pre[m]);
                            assert(predv[m] == pre[m].deep_view());
                        }
                    }
                    assert(parameters.deep_view() =~= target);
                }
            },
            FetchOutcome::NotFound => {
                proof {
                    assert(seeded_params(keysdv.take((k + 1) as int), outdv.take((k + 1) as int))
                        == parameters.deep_view());
                }
            },
            FetchOutcome::Failed => {
                proof {
                    assert(is_first_failed(outdv, k as int));
                }
                return Err(DaemonError::SsmGet { key_path: setting.keys[k].clone() });
            },
        }
        k = k + 1;
    }
    proof {
        assert(keysdv.take(keysdv.len() as int) =~= keysdv);
        assert(outdv.take(outdv.len() as int) =~= outdv);
    }
    Ok(Service { service_name: setting.service_name.clone(), parameters })
}

/// Builds every runtime service from the configuration and the fetch outcomes,
/// one outcome row per setting, aligned with that setting's keys.
pub fn seed_services(config: &Config, outcomes: &Vec<Vec<FetchOutcome>>) -> (r: Result<
    Vec<Service>,
    DaemonError,
>)
    requires
        outcomes@.len() == config.settings@.len(),
        forall|k: int|
            0 <= k < outcomes@.len() ==> (#[trigger] outcomes@[k])@.len()
                == config.settings@[k].keys@.len(),
    ensures
        r is Ok <==> (forall|k: int|
            0 <= k < config@.settings.len() ==> no_failed(
                #[trigger] outcomes.deep_view()[k],
            )),
        r matches Ok(svcs) ==> ({
            &&& svcs.deep_view().len() == config@.settings.len()
            &&& forall|k: int|
                0 <= k < config@.settings.len() ==> (#[trigger] svcs.deep_view()[k]).service_name
                    == config@.settings[k].service_name && svcs.deep_view()[k].parameters
                    == seeded_params(config@.settings[k].keys, outcomes.deep_view()[k])
        }),
        r matches Err(e) ==> exists|k: int, t: int|
            0 <= k < config@.settings.len() && is_first_failed(outcomes.deep_view()[k], t) && (
            e matches DaemonError::SsmGet { key_path } && key_path@ == config@.settings[k].keys[t]),
{
    let mut services: Vec<Service> = Vec::new();
    let mut k: usize = 0;
    while k < config.settings.len()
        invariant
            outcomes@.len() == config.settings@.len(),
            forall|m: int|
                0 <= m < outcomes@.len() ==> (#[trigger] outcomes@[m])@.len()
                    == config.settings@[m].keys@.len(),
            k <= config.settings@.len(),
            services@.len() == k,
            forall|m: int| 0 <= m < k ==> no_failed(#[trigger] outcomes.deep_view()[m]),
            forall|m: int|
                0 <= m < k ==> (#[trigger] services.deep_view()[m]).service_name
                    == config@.settings[m].service_name && services.deep_view()[m].parameters
                    == seeded_params(config@.settings[m].keys, outcomes.deep_view()[m]),
        decreases config.settings.len() - k,
    {
        proof {
            assert(outcomes.deep_view()[k as int] == outcomes@[k as int].deep_view());
            assert(config@.settings[k as int] == config.settings@[k as int]@);
        }
        match build_service(&config.settings[k], &outcomes[k]) {
            Ok(svc) => {
                let ghost pre = services@;
                let ghost predv = services.deep_view();
                services.push(svc);
                proof {
                    assert(services.deep_view().len() == services@.len());
                    assert(predv.len() == pre.len());
                    assert forall|m: int| 0 <= m < k + 1 implies (
                    #[trigger] services.deep_view()[m]).service_name
                        == config@.settings[m].service_name && services.deep_view()[m].parameters
                        == seeded_params(config@.settings[m].keys, outcomes.deep_view()[m]) by {
                        assert(services.deep_view()[m] == services@[m].deep_view());
                        if m < k {
                            assert(services@[m] == pre[m]);
                            assert(predv[m] == pre[m].deep_view());
                        }
                    }
                }
            },
            Err(e) => {
                return Err(e);
            },
        }
        k = k + 1;
    }
    Ok(services)
}

} // verus!
