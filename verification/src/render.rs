//! The render pipeline: planning and performing template renders.
//!
//! A render call takes a batch of services, in order. For each service it looks
//! the service's setting up by name, merges the service's parameters into a
//! render context that is shared across the whole batch (deliberately not reset
//! between services: a later service's parameter of the same name overwrites an
//! earlier one's), and produces a [`RenderStep`]: everything one render of one
//! output file needs. Failing to find a setting stops the batch at that
//! service; steps planned earlier stay planned, as the files rendered earlier
//! in a batch stay rendered on disk.
//!
//! The template engine itself is an external collaborator: [`render_step`]
//! hands the template text and the context to it and returns its output.

use vstd::prelude::*;

use vstd::std_specs::iter::IteratorSpec;

use crate::config::{Config, Service, ServiceView, is_first_setting_for, has_setting_for};
use crate::error::DaemonError;
use crate::value::{Value, ValueView};

verus! {

/// One planned render: the paths and reload command of the owning setting and
/// a snapshot of the render context at this point of the batch.
#[derive(Debug)]
pub struct RenderStep {
    pub service_name: String,
    pub template: String,
    pub rendered: String,
    pub reload_cmd: String,
    pub context: Vec<(String, Value)>,
}

/// The mathematical shape of a [`RenderStep`].
pub struct RenderStepView {
    pub service_name: Seq<char>,
    pub template: Seq<char>,
    pub rendered: Seq<char>,
    pub reload_cmd: Seq<char>,
    pub context: Seq<(Seq<char>, ValueView)>,
}

impl View for RenderStep {
    type V = RenderStepView;

    open spec fn view(&self) -> RenderStepView {
        RenderStepView {
            service_name: self.service_name@,
            template: self.template@,
            rendered: self.rendered@,
            reload_cmd: self.reload_cmd@,
            context: self.context.deep_view(),
        }
    }
}

impl DeepView for RenderStep {
    type V = RenderStepView;

    open spec fn deep_view(&self) -> RenderStepView {
        self.view()
    }
}

/// The context entries a service contributes, in parameter order.
pub open spec fn params_entries(params: Seq<crate::config::ParameterView>) -> Seq<
    (Seq<char>, ValueView),
> {
    params.map_values(|p: crate::config::ParameterView| (p.name, p.value))
}

/// The name-to-value mapping an entry list denotes: a later entry for the same
/// name overwrites an earlier one.
pub open spec fn ctx_map(entries: Seq<(Seq<char>, ValueView)>) -> Map<Seq<char>, ValueView>
    decreases entries.len(),
{
    if entries.len() == 0 {
        Map::empty()
    } else {
        ctx_map(entries.drop_last()).insert(entries.last().0, entries.last().1)
    }
}

/// The entries accumulated after merging the first `i` services of a batch.
pub open spec fn batch_entries(services: Seq<ServiceView>, i: int) -> Seq<(Seq<char>, ValueView)>
    decreases i,
{
    if i <= 0 {
        Seq::empty()
    } else {
        batch_entries(services, i - 1) + params_entries(services[i - 1].parameters)
    }
}

/// The shared render context as the `i`-th service of a batch sees it
/// (`i` services already merged).
pub open spec fn context_at(services: Seq<ServiceView>, i: int) -> Map<Seq<char>, ValueView> {
    ctx_map(batch_entries(services, i))
}

/// What the template engine returns for a template text and a context mapping:
/// `None` when the engine rejects the template, otherwise the rendered text.
pub uninterp spec fn hb_out(template: Seq<char>, ctx: Map<Seq<char>, ValueView>) -> Option<
    Seq<char>,
>;

/// Relies on handlebars::Handlebars::render_template (on a fresh registry,
/// without custom helpers): whether the template is accepted, and the rendered
/// text, are a function of the template text and of the name-to-value mapping
/// alone. Later entries of `context` overwrite earlier ones of the same name,
/// exactly as `ctx_map` collapses them, because each is inserted in turn into
/// the data map handed to the engine.
#[verifier::external_body]
fn hb_render(template: &str, context: &Vec<(String, Value)>) -> (r: Result<String, String>)
    ensures
        r matches Ok(s) ==> hb_out(template@, ctx_map(context.deep_view())) == Some(s@),
        r is Ok <==> hb_out(template@, ctx_map(context.deep_view())) is Some,
{
    let mut data = serde_json::Map::new();
    for (name, value) in context.iter() {
        let v = match value {
            Value::Null => serde_json::Value::Null,
            Value::Bool(b) => serde_json::Value::Bool(*b),
            Value::Int(i) => serde_json::Value::Number((*i).into()),
            Value::Text(s) => serde_json::Value::String(s.clone()),
        };
        data.insert(name.clone(), v);
    }
    match handlebars::Handlebars::new().render_template(template, &data) {
        Ok(s) => Ok(s),
        Err(e) => Err(e.to_string()),
    }
}

/// Renders one planned step from the template source text: the output is what
/// the engine makes of the step's context, and an engine failure names the
/// step's template path.
pub fn render_step(step: &RenderStep, template_source: &str) -> (r: Result<String, DaemonError>)
    ensures
        r matches Ok(s) ==> hb_out(template_source@, ctx_map(step@.context)) == Some(s@),
        r is Ok <==> hb_out(template_source@, ctx_map(step@.context)) is Some,
        r matches Err(e) ==> e matches DaemonError::RenderTemplate { template_path, message }
            && template_path@ == step@.template,
{
    match hb_render(template_source, &step.context) {
        Ok(s) => Ok(s),
        Err(message) => Err(DaemonError::RenderTemplate {
            template_path: step.template.clone(),
            message,
        }),
    }
}

/// Appends one context entry for every parameter of the service, in order.
fn push_service_entries(ctx: &mut Vec<(String, Value)>, service: &Service)
    ensures
        final(ctx).deep_view() == old(ctx).deep_view() + params_entries(service@.parameters),
{
    let ghost start = ctx.deep_view();
    let ghost entries = params_entries(service@.parameters);
    let mut k: usize = 0;
    while k < service.parameters.len()
        invariant
            k <= service.parameters.len(),
            entries == params_entries(service@.parameters),
            entries.len() == service@.parameters.len(),
            ctx.deep_view() == start + entries.take(k as int),
        decreases service.parameters.len() - k,
    {
        let entry = (service.parameters[k].name.clone(), service.parameters[k].value.clone());
        proof {
            assert(entry.deep_view() == entries[k as int]);
        }
        let ghost pre = ctx@;
        let ghost predv = ctx.deep_view();
        ctx.push(entry);
        proof {
            let target = start + entries.take((k + 1) as int);
            assert(predv.len() == pre.len());
            assert(entries.take(k as int).len() == k);
            assert(predv.len() == start.len() + k);
            assert(ctx@ == pre.push(entry));
            assert(ctx.deep_view().len() == ctx@.len());
            assert forall|i: int| 0 <= i < ctx.deep_view().len() implies ctx.deep_view()[i]
                == target[i] by {
                assert(ctx.deep_view()[i] == ctx@[i].deep_view());
                if i < pre.len() {
                    assert(ctx@[i] == pre[i]);
                    assert(predv[i] == pre[i].deep_view());
                    assert(predv[i] == (start + entries.take(k as int))[i]);
                    if i < start.len() {
                        assert((start + entries.take(k as int))[i] == start[i]);
                        assert(target[i] == start[i]);
                    } else {
                        assert((start + entries.take(k as int))[i] == entries.take(k as int)[i
                            - start.len()]);
                        assert(entries.take(k as int)[i - start.len()] == entries[i - start.len()]);
                        assert(target[i] == entries.take((k + 1) as int)[i - start.len()]);
                        assert(entries.take((k + 1) as int)[i - start.len()] == entries[i
                            - start.len()]);
                    }
                } else {
                    assert(ctx@[i] == entry);
                    assert(target[i] == entries.take((k + 1) as int)[i - start.len()]);
                    assert(entries.take((k + 1) as int)[i - start.len()] == entries[k as int]);
                }
            }
            assert(ctx.deep_view() =~= target);
        }
        k = k + 1;
    }
    proof {
        assert(entries.take(service@.parameters.len() as int) =~= entries);
    }
}

/// Copies the context entries, so a step can snapshot the shared context.
fn clone_entries(ctx: &Vec<(String, Value)>) -> (r: Vec<(String, Value)>)
    ensures
        r.deep_view() == ctx.deep_view(),
{
    let mut r: Vec<(String, Value)> = Vec::new();
    let mut k: usize = 0;
    while k < ctx.len()
        invariant
            k <= ctx.len(),
            r.deep_view() == ctx.deep_view().take(k as int),
        decreases ctx.len() - k,
    {
        let entry = (ctx[k].0.clone(), ctx[k].1.clone());
        proof {
            assert(entry.deep_view() == ctx.deep_view()[k as int]);
        }
        let ghost pre = r@;
        let ghost predv = r.deep_view();
        r.push(entry);
        proof {
            let target = ctx.deep_view().take((k + 1) as int);
            assert(predv.len() == pre.len());
            assert(ctx.deep_view().len() == ctx@.len());
            assert(predv == ctx.deep_view().take(k as int));
            assert(predv.len() == k);
            assert(r@ == pre.push(entry));
            assert(r.deep_view().len() == r@.len());
            assert forall|i: int| 0 <= i < r.deep_view().len() implies r.deep_view()[i]
                == target[i] by {
                assert(r.deep_view()[i] == r@[i].deep_view());
                if i < pre.len() {
                    assert(r@[i] == pre[i]);
                    assert(predv[i] == pre[i].deep_view());
                    assert(predv[i] == ctx.deep_view().take(k as int)[i]);
                    assert(ctx.deep_view().take(k as int)[i] == ctx.deep_view()[i]);
                    assert(target[i] == ctx.deep_view()[i]);
                } else {
                    assert(r@[i] == entry);
                    assert(target[i] == ctx.deep_view()[k as int]);
                }
            }
            assert(r.deep_view() =~= target);
        }
        k = k + 1;
    }
    proof {
        assert(ctx.deep_view().take(ctx.deep_view().len() as int) =~= ctx.deep_view());
    }
    r
}

/// The step `step` is the correct plan for service `k` of the batch: it names
/// that service, carries the paths and reload command of the first setting of
/// that name, and snapshots the shared context with services `0..=k` merged.
pub open spec fn step_matches(
    step: RenderStepView,
    services: Seq<ServiceView>,
    c: crate::config::ConfigView,
    k: int,
) -> bool {
    &&& step.service_name == services[k].service_name
    &&& exists|si: int|
        is_first_setting_for(c, services[k].service_name, si) && step.template
            == c.settings[si].template && step.rendered == c.settings[si].rendered
            && step.reload_cmd == c.settings[si].reload_cmd
    &&& step.context == batch_entries(services, k + 1)
}

/// Plans one service's render against the shared batch context: merges the
/// service's parameters into `ctx` and snapshots it, or fails without touching
/// `ctx` when no setting carries the service's name.
fn plan_with_context(ctx: &mut Vec<(String, Value)>, service: &Service, config: &Config) -> (r:
    Result<RenderStep, DaemonError>)
    ensures
        r matches Ok(step) ==> ({
            &&& step@.service_name == service@.service_name
            &&& exists|si: int|
                is_first_setting_for(config@, service@.service_name, si) && step@.template
                    == config@.settings[si].template && step@.rendered
                    == config@.settings[si].rendered && step@.reload_cmd
                    == config@.settings[si].reload_cmd
            &&& final(ctx).deep_view() == old(ctx).deep_view() + params_entries(service@.parameters)
            &&& step@.context == final(ctx).deep_view()
        }),
        r is Ok <==> has_setting_for(config@, service@.service_name),
        r matches Err(e) ==> ({
            &&& e matches DaemonError::SettingNotFound { setting } && setting@
                == service@.service_name
            &&& final(ctx).deep_view() == old(ctx).deep_view()
        }),
{
    let setting_index = match crate::config::find_setting(config, &service.service_name) {
        Some(si) => si,
        None => {
            return Err(DaemonError::SettingNotFound { setting: service.service_name.clone() });
        },
    };
    push_service_entries(ctx, service);
    let snapshot = clone_entries(ctx);
    let step = RenderStep {
        service_name: service.service_name.clone(),
        template: config.settings[setting_index].template.clone(),
        rendered: config.settings[setting_index].rendered.clone(),
        reload_cmd: config.settings[setting_index].reload_cmd.clone(),
        context: snapshot,
    };
    proof {
        assert(is_first_setting_for(config@, service@.service_name, setting_index as int));
        assert(step@.template == config@.settings[setting_index as int].template);
        assert(step@.rendered == config@.settings[setting_index as int].rendered);
        assert(step@.reload_cmd == config@.settings[setting_index as int].reload_cmd);
        assert(step@.context == ctx.deep_view());
    }
    Ok(step)
}

/// Plans the render of one service alone, with a fresh context: the scoped
/// re-render a change event triggers for the owning service.
pub fn plan_one(service: &Service, config: &Config) -> (r: Result<RenderStep, DaemonError>)
    ensures
        r matches Ok(step) ==> step_matches(step@, seq![service.deep_view()], config@, 0),
        r is Ok <==> has_setting_for(config@, service@.service_name),
        r matches Err(e) ==> e matches DaemonError::SettingNotFound { setting } && setting@
            == service@.service_name,
{
    let mut ctx: Vec<(String, Value)> = Vec::new();
    proof {
        assert(ctx.deep_view() =~= Seq::<(Seq<char>, ValueView)>::empty());
    }
    let r = plan_with_context(&mut ctx, service, config);
    proof {
        let sv = seq![service.deep_view()];
        assert(batch_entries(sv, 1) == batch_entries(sv, 0) + params_entries(sv[0].parameters));
        assert(Seq::<(Seq<char>, ValueView)>::empty() + params_entries(service@.parameters)
            =~= params_entries(service@.parameters));
        assert(batch_entries(sv, 1) =~= params_entries(service@.parameters));
    }
    r
}

/// Plans a whole batch render, sharing one context across the batch in order.
///
/// With no error, one step per service. On the first service whose name no
/// setting carries, planning stops: the steps for the earlier services are
/// still returned (and their files, once written, stay written — a failed
/// batch is not rolled back), together with the error.
pub fn plan_render(services: &Vec<Service>, config: &Config) -> (r: (
    Vec<RenderStep>,
    Option<DaemonError>,
))
    ensures
        r.1 is None ==> r.0.len() == services.len(),
        r.1 matches Some(e) ==> ({
            &&& r.0.len() < services.len()
            &&& !has_setting_for(config@, services.deep_view()[r.0.len() as int].service_name)
            &&& e matches DaemonError::SettingNotFound { setting } && setting@
                == services.deep_view()[r.0.len() as int].service_name
        }),
        forall|k: int|
            0 <= k < r.0.len() ==> #[trigger] step_matches(
                r.0.deep_view()[k],
                services.deep_view(),
                config@,
                k,
            ),
{
    let mut steps: Vec<RenderStep> = Vec::new();
    let mut ctx: Vec<(String, Value)> = Vec::new();
    let mut k: usize = 0;
    while k < services.len()
        invariant
            k <= services.len(),
            steps.len() == k,
            ctx.deep_view() == batch_entries(services.deep_view(), k as int),
            forall|m: int|
                0 <= m < k ==> #[trigger] step_matches(
                    steps.deep_view()[m],
                    services.deep_view(),
                    config@,
                    m,
                ),
        decreases services.len() - k,
    {
        match plan_with_context(&mut ctx, &services[k], config) {
            Ok(step) => {
                let ghost pre = steps@;
                let ghost predv = steps.deep_view();
                proof {
                    assert(services.deep_view()[k as int] == services@[k as int].deep_view());
                    assert(ctx.deep_view() == batch_entries(services.deep_view(), (k + 1) as int));
                    assert(step_matches(step@, services.deep_view(), config@, k as int));
                }
                steps.push(step);
                proof {
                    assert(steps.deep_view().len() == steps@.len());
                    assert(predv.len() == pre.len());
                    assert forall|m: int| 0 <= m < k + 1 implies #[trigger] step_matches(
                        steps.deep_view()[m],
                        services.deep_view(),
                        config@,
                        m,
                    ) by {
                        assert(steps.deep_view()[m] == steps@[m].deep_view());
                        if m < k {
                            assert(steps@[m] == pre[m]);
                            assert(predv[m] == pre[m].deep_view());
                            assert(step_matches(predv[m], services.deep_view(), config@, m));
                        } else {
                            assert(steps@[m] == step);
                        }
                    }
                }
            },
            Err(e) => {
                proof {
                    assert(services.deep_view()[k as int] == services@[k as int].deep_view());
                }
                return (steps, Some(e));
            },
        }
        k = k + 1;
    }
    (steps, None)
}

/// Splits a reload command on single spaces: the first piece is the program,
/// the rest its arguments. No quoting or escaping; consecutive spaces give
/// empty pieces, as the original whitespace split does.
pub open spec fn split_spec(s: Seq<char>) -> Seq<Seq<char>>
    decreases s.len(),
{
    if s.len() == 0 {
        seq![Seq::empty()]
    } else if s.last() == ' ' {
        split_spec(s.drop_last()).push(Seq::empty())
    } else {
        let r = split_spec(s.drop_last());
        r.update(r.len() - 1, r.last().push(s.last()))
    }
}

/// A split always yields at least one piece.
pub proof fn lemma_split_nonempty(s: Seq<char>)
    ensures
        split_spec(s).len() >= 1,
    decreases s.len(),
{
    if s.len() > 0 {
        lemma_split_nonempty(s.drop_last());
    }
}

/// Splits a reload command string on spaces, as [`split_spec`] says.
pub fn split_command(cmd: &String) -> (r: Vec<String>)
    ensures
        r.deep_view() == split_spec(cmd@),
        r.len() >= 1,
{
    let mut pieces: Vec<String> = Vec::new();
    let mut current = String::new();
    let mut chars = cmd.as_str().chars();
    let ghost all = cmd@;
    loop
        invariant
            chars.obeys_prophetic_iter_laws(),
            chars.decrease() is Some,
            all == cmd@,
            chars.remaining().len() <= all.len(),
            all.take(all.len() - chars.remaining().len()) + chars.remaining() == all,
            split_spec(all.take(all.len() - chars.remaining().len())) == pieces.deep_view().push(
                current@,
            ),
        ensures
            split_spec(all) == pieces.deep_view().push(current@),
        decreases chars.decrease()->0,
    {
        let ghost done = all.take(all.len() - chars.remaining().len());
        let ghost pre_pieces = pieces@;
        let ghost pre_piecesdv = pieces.deep_view();
        let ghost pre_current = current@;
        match chars.next() {
            Some(c) => {
                let ghost next_done = all.take(all.len() - chars.remaining().len());
                proof {
                    assert(c == all[done.len() as int]);
                    assert(next_done =~= done.push(c));
                    assert(done.push(c).drop_last() =~= done);
                    assert(done.push(c).last() == c);
                }
                if c == ' ' {
                    pieces.push(current);
                    current = String::new();
                    proof {
                        assert(pieces.deep_view().len() == pre_piecesdv.len() + 1);
                        assert forall|i: int| 0 <= i < pieces.deep_view().len() implies
                            pieces.deep_view()[i] == pre_piecesdv.push(pre_current)[i] by {
                            assert(pieces.deep_view()[i] == pieces@[i].deep_view());
                            if i < pre_pieces.len() {
                                assert(pieces@[i] == pre_pieces[i]);
                                assert(pre_piecesdv[i] == pre_pieces[i].deep_view());
                            }
                        }
                        assert(pieces.deep_view() =~= pre_piecesdv.push(pre_current));
                        assert(split_spec(done.push(c)) == split_spec(done).push(Seq::empty()));
                        assert(split_spec(next_done) =~~= pieces.deep_view().push(current@));
                    }
                } else {
                    current.append(char_to_str(c).as_str());
                    proof {
                        let prev = split_spec(done);
                        assert(split_spec(done.push(c)) == prev.update(
                            prev.len() - 1,
                            prev.last().push(c),
                        ));
                        assert(prev == pre_piecesdv.push(pre_current));
                        assert(prev.len() == pre_piecesdv.len() + 1);
                        assert(prev.last() == pre_current);
                        assert(current@ =~= pre_current.push(c));
                        assert(prev.update(prev.len() - 1, prev.last().push(c))
                            =~= pre_piecesdv.push(pre_current.push(c)));
                        assert(split_spec(next_done) =~~= pieces.deep_view().push(current@));
                    }
                }
            },
            None => {
                proof {
                    assert(done =~= all);
                }
                break ;
            },
        }
    }
    let ghost pre_pieces = pieces@;
    let ghost pre_piecesdv = pieces.deep_view();
    let ghost last_current = current@;
    pieces.push(current);
    proof {
        lemma_split_nonempty(all);
        assert forall|i: int| 0 <= i < pieces.deep_view().len() implies pieces.deep_view()[i]
            == pre_piecesdv.push(last_current)[i] by {
            assert(pieces.deep_view()[i] == pieces@[i].deep_view());
            if i < pre_pieces.len() {
                assert(pieces@[i] == pre_pieces[i]);
                assert(pre_piecesdv[i] == pre_pieces[i].deep_view());
            }
        }
        assert(pieces.deep_view() =~= pre_piecesdv.push(last_current));
        assert(pieces.deep_view() == split_spec(all));
    }
    pieces
}

/// The value the last entry named `n` carries, if any entry is named `n`.
pub open spec fn last_value_of(entries: Seq<(Seq<char>, ValueView)>, n: Seq<char>) -> Option<
    ValueView,
>
    decreases entries.len(),
{
    if entries.len() == 0 {
        None
    } else if entries.last().0 == n {
        Some(entries.last().1)
    } else {
        last_value_of(entries.drop_last(), n)
    }
}

/// An entry list's mapping holds exactly the names of its entries, each at the
/// value of its last entry of that name.
pub proof fn lemma_ctx_map_lookup(entries: Seq<(Seq<char>, ValueView)>, n: Seq<char>)
    ensures
        ctx_map(entries).contains_key(n) <==> last_value_of(entries, n) is Some,
        last_value_of(entries, n) matches Some(v) ==> ctx_map(entries)[n] == v,
    decreases entries.len(),
{
    if entries.len() > 0 {
        lemma_ctx_map_lookup(entries.drop_last(), n);
    }
}

/// In a concatenation, the later list's entry for a name wins; a name only the
/// earlier list carries keeps its value.
pub proof fn lemma_last_value_concat(
    a: Seq<(Seq<char>, ValueView)>,
    b: Seq<(Seq<char>, ValueView)>,
    n: Seq<char>,
)
    ensures
        last_value_of(a + b, n) == (if last_value_of(b, n) is Some {
            last_value_of(b, n)
        } else {
            last_value_of(a, n)
        }),
    decreases b.len(),
{
    if b.len() == 0 {
        assert(a + b =~= a);
    } else {
        assert((a + b).drop_last() =~= a + b.drop_last());
        assert((a + b).last() == b.last());
        lemma_last_value_concat(a, b.drop_last(), n);
    }
}

/// The value service `s` contributes for the name `n`: its last parameter of
/// that name, if it has one.
pub open spec fn service_value_of(s: ServiceView, n: Seq<char>) -> Option<ValueView> {
    last_value_of(params_entries(s.parameters), n)
}

/// Service `s` has a parameter named `n`.
pub open spec fn defines_name(s: ServiceView, n: Seq<char>) -> bool {
    service_value_of(s, n) is Some
}

/// Law: rendering two services in one batch call, where the two share no
/// parameter name, lets neither service's template observe the other's values
/// at the names it defines. The first service's context holds none of the
/// second's names at all; in the context the second service is rendered with,
/// every name the second defines carries the second's own value; and a name
/// only the first defines survives into the second's context unchanged — the
/// documented one-way sharing of the batch context.
pub proof fn lemma_batch_no_cross_contamination(a: ServiceView, b: ServiceView, n: Seq<char>)
    requires
        forall|m: Seq<char>| !(#[trigger] defines_name(a, m) && defines_name(b, m)),
    ensures
        defines_name(a, n) ==> context_at(seq![a, b], 1).contains_key(n) && context_at(
            seq![a, b],
            1,
        )[n] == service_value_of(a, n)->Some_0,
        defines_name(b, n) ==> !context_at(seq![a, b], 1).contains_key(n),
        defines_name(b, n) ==> context_at(seq![a, b], 2).contains_key(n) && context_at(
            seq![a, b],
            2,
        )[n] == service_value_of(b, n)->Some_0,
        defines_name(a, n) ==> context_at(seq![a, b], 2).contains_key(n) && context_at(
            seq![a, b],
            2,
        )[n] == service_value_of(a, n)->Some_0,
{
    let ea = params_entries(a.parameters);
    let eb = params_entries(b.parameters);
    let sv = seq![a, b];
    assert(sv[0] == a && sv[1] == b);
    assert(batch_entries(sv, 0) == Seq::<(Seq<char>, ValueView)>::empty());
    assert(batch_entries(sv, 1) == batch_entries(sv, 0) + ea);
    assert(batch_entries(sv, 1) =~= ea);
    assert(batch_entries(sv, 2) == batch_entries(sv, 1) + eb);
    assert(batch_entries(sv, 2) =~= ea + eb);
    lemma_ctx_map_lookup(ea, n);
    lemma_ctx_map_lookup(ea + eb, n);
    lemma_last_value_concat(ea, eb, n);
    assert(!(defines_name(a, n) && defines_name(b, n)));
}

/// Law: when both services of a batch define the same name, the later service
/// in batch order wins — its value is the one the shared context carries when
/// the later service renders.
pub proof fn lemma_batch_order_overwrite(a: ServiceView, b: ServiceView, n: Seq<char>)
    requires
        defines_name(b, n),
    ensures
        context_at(seq![a, b], 2).contains_key(n),
        context_at(seq![a, b], 2)[n] == service_value_of(b, n)->Some_0,
{
    let ea = params_entries(a.parameters);
    let eb = params_entries(b.parameters);
    let sv = seq![a, b];
    assert(sv[0] == a && sv[1] == b);
    assert(batch_entries(sv, 0) == Seq::<(Seq<char>, ValueView)>::empty());
    assert(batch_entries(sv, 1) == batch_entries(sv, 0) + ea);
    assert(batch_entries(sv, 1) =~= ea);
    assert(batch_entries(sv, 2) == batch_entries(sv, 1) + eb);
    assert(batch_entries(sv, 2) =~= ea + eb);
    lemma_ctx_map_lookup(ea + eb, n);
    lemma_last_value_concat(ea, eb, n);
}

/// Relies on char::to_string: the one-character string of `c`.
#[verifier::external_body]
pub(crate) fn char_to_str(c: char) -> (r: String)
    ensures
        r@ == seq![c],
{
    c.to_string()
}

} // verus!
