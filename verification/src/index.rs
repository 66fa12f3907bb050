//! The parameter index: resolving a change event's key against the runtime
//! services and mutating the one parameter it names.
//!
//! Resolution is a linear search over every service's parameter list, matching
//! on exact key-path equality. Key paths are a global namespace and should be
//! unique by configuration contract; where a path nevertheless occurs twice,
//! the first match wins, in service-list order then parameter-list order.

use vstd::prelude::*;

use crate::config::{Service, ServiceView, ParameterView};
use crate::value::{Value, ValueView};

verus! {

/// A decoded change notification: the changed key's full path and its new value.
#[derive(Debug)]
pub struct ChangeEvent {
    pub key_path: String,
    pub value: Value,
}

/// The mathematical shape of a [`ChangeEvent`].
pub struct ChangeEventView {
    pub key_path: Seq<char>,
    pub value: ValueView,
}

impl View for ChangeEvent {
    type V = ChangeEventView;

    open spec fn view(&self) -> ChangeEventView {
        ChangeEventView { key_path: self.key_path@, value: self.value@ }
    }
}

/// Parameter `j` of service `i` carries the key path `key`.
pub open spec fn param_matches(
    services: Seq<ServiceView>,
    key: Seq<char>,
    i: int,
    j: int,
) -> bool {
    &&& 0 <= i < services.len()
    &&& 0 <= j < services[i].parameters.len()
    &&& services[i].parameters[j].ps_path == key
}

/// Some managed parameter carries the key path `key`.
pub open spec fn some_param_matches(services: Seq<ServiceView>, key: Seq<char>) -> bool {
    exists|i: int, j: int| param_matches(services, key, i, j)
}

/// `(i, j)` is the first parameter carrying `key`, in service-list order then
/// parameter-list order.
pub open spec fn is_first_match(
    services: Seq<ServiceView>,
    key: Seq<char>,
    i: int,
    j: int,
) -> bool {
    &&& param_matches(services, key, i, j)
    &&& forall|i2: int, j2: int|
        param_matches(services, key, i2, j2) ==> i < i2 || (i == i2 && j <= j2)
}

/// The index with parameter `(i, j)` set to `v` and everything else unchanged.
pub open spec fn updated_at(services: Seq<ServiceView>, i: int, j: int, v: ValueView) -> Seq<
    ServiceView,
> {
    services.update(
        i,
        ServiceView {
            service_name: services[i].service_name,
            parameters: services[i].parameters.update(
                j,
                ParameterView {
                    ps_path: services[i].parameters[j].ps_path,
                    name: services[i].parameters[j].name,
                    value: v,
                },
            ),
        },
    )
}

/// `post` is `pre` with the first parameter matching `key` (owned by service
/// `i`) overwritten to `v`, and nothing else changed.
pub open spec fn applied_first_match(
    pre: Seq<ServiceView>,
    post: Seq<ServiceView>,
    key: Seq<char>,
    v: ValueView,
    i: int,
) -> bool {
    exists|j: int| is_first_match(pre, key, i, j) && post == updated_at(pre, i, j, v)
}

/// Finds the first parameter whose key path equals `key` exactly, if any.
pub fn resolve(services: &Vec<Service>, key: &String) -> (r: Option<(usize, usize)>)
    ensures
        r matches Some(p) ==> is_first_match(services.deep_view(), key@, p.0 as int, p.1 as int),
        r is None <==> !some_param_matches(services.deep_view(), key@),
{
    let ghost sv = services.deep_view();
    let mut i: usize = 0;
    while i < services.len()
        invariant
            sv == services.deep_view(),
            sv.len() == services.len(),
            i <= services.len(),
            forall|i2: int, j2: int| param_matches(sv, key@, i2, j2) ==> i2 >= i,
        decreases services.len() - i,
    {
        proof {
            assert(sv[i as int] == services@[i as int].deep_view());
        }
        let mut j: usize = 0;
        while j < services[i].parameters.len()
            invariant
                sv == services.deep_view(),
                sv.len() == services.len(),
                i < services.len(),
                j <= services@[i as int].parameters@.len(),
                sv[i as int] == services@[i as int].deep_view(),
                sv[i as int].parameters.len() == services@[i as int].parameters@.len(),
                forall|i2: int, j2: int| param_matches(sv, key@, i2, j2) ==> i2 >= i,
                forall|j2: int| 0 <= j2 < j ==> sv[i as int].parameters[j2].ps_path != key@,
            decreases services@[i as int].parameters@.len() - j,
        {
            proof {
                assert(sv[i as int].parameters[j as int]
                    == services@[i as int].parameters@[j as int].deep_view());
            }
            if services[i].parameters[j].ps_path == *key {
                proof {
                    assert(param_matches(sv, key@, i as int, j as int));
                }
                return Some((i, j));
            }
            j = j + 1;
        }
        proof {
            assert forall|i2: int, j2: int|
                param_matches(sv, key@, i2, j2) implies i2 >= i + 1 by {
                if i2 == i {
                    assert(sv[i as int].parameters[j2].ps_path != key@);
                }
            }
        }
        i = i + 1;
    }
    None
}

/// Applies one change event to the index: when the key resolves, only that one
/// parameter's value is overwritten, and the owning service's position is
/// returned so the caller can re-render that service alone. When no managed
/// parameter carries the key, the index is left untouched: a pure no-op.
pub fn apply_event(services: &mut Vec<Service>, event: &ChangeEvent) -> (r: Option<usize>)
    ensures
        r is None <==> !some_param_matches(old(services).deep_view(), event.key_path@),
        r is None ==> final(services).deep_view() == old(services).deep_view(),
        r matches Some(i) ==> applied_first_match(
            old(services).deep_view(),
            final(services).deep_view(),
            event.key_path@,
            event.value@,
            i as int,
        ),
{
    let ghost predv = services.deep_view();
    match resolve(services, &event.key_path) {
        None => None,
        Some((i, j)) => {
            let ghost pre = services@;
            services[i].parameters[j].value = event.value.clone();
            proof {
                let target = updated_at(predv, i as int, j as int, event.value@);
                assert(predv.len() == pre.len());
                assert(services.deep_view().len() == services@.len());
                assert forall|m: int| 0 <= m < services.deep_view().len() implies services.deep_view()[m]
                    == target[m] by {
                    assert(services.deep_view()[m] == services@[m].deep_view());
                    if m != i as int {
                        assert(services@[m] == pre[m]);
                        assert(predv[m] == pre[m].deep_view());
                        assert(target[m] == predv[m]);
                    } else {
                        let psold = pre[m].parameters;
                        let psnew = services@[m].parameters;
                        assert(psnew@ == psold@.update(j as int, psnew@[j as int]));
                        assert(services@[m].service_name@ == pre[m].service_name@);
                        let dvold = predv[m].parameters;
                        let dvnew = services.deep_view()[m].parameters;
                        assert(dvnew.len() == dvold.len());
                        assert forall|n: int| 0 <= n < dvnew.len() implies dvnew[n]
                            == target[m].parameters[n] by {
                            assert(dvnew[n] == psnew@[n].deep_view());
                            assert(dvold[n] == psold@[n].deep_view());
                            if n != j as int {
                                assert(psnew@[n] == psold@[n]);
                                assert(target[m].parameters[n] == dvold[n]);
                            } else {
                                assert(psnew@[n].ps_path@ == psold@[n].ps_path@);
                                assert(psnew@[n].name@ == psold@[n].name@);
                                assert(psnew@[n].value@ == event.value@);
                            }
                        }
                        assert(dvnew =~= target[m].parameters);
                        assert(services.deep_view()[m] == target[m]);
                    }
                }
                assert(services.deep_view() =~= target);
                assert(is_first_match(predv, event.key_path@, i as int, j as int)
                    && services.deep_view() == updated_at(
                    predv,
                    i as int,
                    j as int,
                    event.value@,
                ));
                assert(applied_first_match(
                    predv,
                    services.deep_view(),
                    event.key_path@,
                    event.value@,
                    i as int,
                ));
            }
            Some(i)
        },
    }
}

/// Law: applying the same change event a second time changes nothing more.
/// The first application resolves the key to the first matching parameter and
/// overwrites its value; after it, the same position is still the first match
/// (paths are untouched), and overwriting it with the same value again leaves
/// the index exactly as it was after the first application. Re-rendering the
/// owning service from an unchanged index merges an unchanged context, so the
/// rendered output is identical byte for byte.
pub proof fn lemma_apply_idempotent(
    services: Seq<ServiceView>,
    key: Seq<char>,
    v: ValueView,
    i: int,
    j: int,
)
    requires
        is_first_match(services, key, i, j),
    ensures
        is_first_match(updated_at(services, i, j, v), key, i, j),
        updated_at(updated_at(services, i, j, v), i, j, v) == updated_at(services, i, j, v),
{
    let once = updated_at(services, i, j, v);
    assert(once[i].parameters[j].ps_path == services[i].parameters[j].ps_path);
    assert forall|i2: int, j2: int| param_matches(once, key, i2, j2) implies i < i2 || (i == i2
        && j <= j2) by {
        if i2 == i {
            if j2 != j {
                assert(once[i2].parameters[j2] == services[i2].parameters[j2]);
            }
            assert(param_matches(services, key, i2, j2));
        } else {
            assert(once[i2] == services[i2]);
            assert(param_matches(services, key, i2, j2));
        }
    }
    let twice = updated_at(once, i, j, v);
    assert(once[i].parameters.update(j, once[i].parameters[j]) =~= once[i].parameters);
    assert(twice =~= once);
}

} // verus!
