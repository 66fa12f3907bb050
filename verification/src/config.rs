//! The configuration model and the runtime parameter index types.
//!
//! A [`Setting`] statically describes one managed service: the remote keys it
//! depends on, its template path, output path and reload command. A [`Config`]
//! is the loaded list of settings. A [`Service`] is the runtime resolution of
//! one setting: the same name plus the currently known [`Parameter`] values.

use vstd::prelude::*;

use crate::value::{Value, ValueView};

verus! {

/// Static description of one managed service, as read from the configuration file.
#[derive(Debug)]
pub struct Setting {
    /// Unique key; a runtime `Service` refers back to it by exact string match.
    pub service_name: String,
    /// Remote parameter paths the service depends on; must be non-empty.
    pub keys: Vec<String>,
    /// Path of the template source file.
    pub template: String,
    /// Path the rendered output is written to.
    pub rendered: String,
    /// Command launched after a render; may be empty (no reload).
    pub reload_cmd: String,
}

/// The loaded configuration: a list of settings.
#[derive(Debug)]
pub struct Config {
    pub settings: Vec<Setting>,
}

/// One resolved remote parameter: its full remote path, the template variable
/// name derived from the final path segment, and the current value.
#[derive(Debug)]
pub struct Parameter {
    pub ps_path: String,
    pub name: String,
    pub value: Value,
}

/// Runtime state for one managed service: the setting it resolves to, by name,
/// and its current parameters. After seeding, only parameter values mutate.
#[derive(Debug)]
pub struct Service {
    pub service_name: String,
    pub parameters: Vec<Parameter>,
}

/// The mathematical shape of a [`Setting`].
pub struct SettingView {
    pub service_name: Seq<char>,
    pub keys: Seq<Seq<char>>,
    pub template: Seq<char>,
    pub rendered: Seq<char>,
    pub reload_cmd: Seq<char>,
}

/// The mathematical shape of a [`Config`].
pub struct ConfigView {
    pub settings: Seq<SettingView>,
}

/// The mathematical shape of a [`Parameter`].
pub struct ParameterView {
    pub ps_path: Seq<char>,
    pub name: Seq<char>,
    pub value: ValueView,
}

/// The mathematical shape of a [`Service`].
pub struct ServiceView {
    pub service_name: Seq<char>,
    pub parameters: Seq<ParameterView>,
}

impl View for Setting {
    type V = SettingView;

    open spec fn view(&self) -> SettingView {
        SettingView {
            service_name: self.service_name@,
            keys: self.keys.deep_view(),
            template: self.template@,
            rendered: self.rendered@,
            reload_cmd: self.reload_cmd@,
        }
    }
}

impl DeepView for Setting {
    type V = SettingView;

    open spec fn deep_view(&self) -> SettingView {
        self.view()
    }
}

impl View for Config {
    type V = ConfigView;

    open spec fn view(&self) -> ConfigView {
        ConfigView { settings: self.settings.deep_view() }
    }
}

impl View for Parameter {
    type V = ParameterView;

    open spec fn view(&self) -> ParameterView {
        ParameterView { ps_path: self.ps_path@, name: self.name@, value: self.value@ }
    }
}

impl DeepView for Parameter {
    type V = ParameterView;

    open spec fn deep_view(&self) -> ParameterView {
        self.view()
    }
}

impl View for Service {
    type V = ServiceView;

    open spec fn view(&self) -> ServiceView {
        ServiceView {
            service_name: self.service_name@,
            parameters: self.parameters.deep_view(),
        }
    }
}

impl DeepView for Service {
    type V = ServiceView;

    open spec fn deep_view(&self) -> ServiceView {
        self.view()
    }
}

/// A configuration is valid when every setting lists at least one key.
pub open spec fn config_valid(c: ConfigView) -> bool {
    forall|i: int| 0 <= i < c.settings.len() ==> c.settings[i].keys.len() > 0
}

/// `i` is the first setting whose key list is empty.
pub open spec fn is_first_empty_keys(c: ConfigView, i: int) -> bool {
    &&& 0 <= i < c.settings.len()
    &&& c.settings[i].keys.len() == 0
    &&& forall|j: int| 0 <= j < i ==> c.settings[j].keys.len() > 0
}

/// Checks the load-time invariant: every setting must name at least one key.
/// A configuration that fails here must be rejected before any network or
/// file side effect; the caller exits without seeding or rendering.
pub fn validate_config(config: &Config) -> (r: Result<(), crate::error::DaemonError>)
    ensures
        r is Ok <==> config_valid(config@),
        r matches Err(e) ==> exists|i: int|
            is_first_empty_keys(config@, i) && (e matches
            crate::error::DaemonError::EmptyKeys { service_name } && service_name@
                == config@.settings[i].service_name),
{
    let mut i: usize = 0;
    while i < config.settings.len()
        invariant
            i <= config.settings.len(),
            forall|j: int| 0 <= j < i ==> config@.settings[j].keys.len() > 0,
        decreases config.settings.len() - i,
    {
        if config.settings[i].keys.len() == 0 {
            let service_name = config.settings[i].service_name.clone();
            proof {
                assert(config@.settings[i as int].keys.len() == 0);
                assert(is_first_empty_keys(config@, i as int));
            }
            return Err(crate::error::DaemonError::EmptyKeys { service_name });
        }
        assert(config@.settings[i as int].keys.len() > 0);
        i = i + 1;
    }
    Ok(())
}

/// `i` is the first setting named `name`, in settings-list order.
pub open spec fn is_first_setting_for(c: ConfigView, name: Seq<char>, i: int) -> bool {
    &&& 0 <= i < c.settings.len()
    &&& c.settings[i].service_name == name
    &&& forall|j: int| 0 <= j < i ==> c.settings[j].service_name != name
}

/// Some setting is named `name`.
pub open spec fn has_setting_for(c: ConfigView, name: Seq<char>) -> bool {
    exists|i: int| 0 <= i < c.settings.len() && c.settings[i].service_name == name
}

/// Finds the first setting named `service_name`, the one a render of that
/// service uses; `None` exactly when no setting carries the name.
pub fn find_setting(config: &Config, service_name: &String) -> (r: Option<usize>)
    ensures
        r matches Some(i) ==> is_first_setting_for(config@, service_name@, i as int),
        r is None <==> !has_setting_for(config@, service_name@),
{
    let mut i: usize = 0;
    while i < config.settings.len()
        invariant
            i <= config.settings.len(),
            forall|j: int| 0 <= j < i ==> config@.settings[j].service_name != service_name@,
        decreases config.settings.len() - i,
    {
        if config.settings[i].service_name == *service_name {
            proof {
                assert(config@.settings[i as int].service_name == service_name@);
            }
            return Some(i);
        }
        proof {
            assert(config@.settings[i as int].service_name != service_name@);
        }
        i = i + 1;
    }
    None
}

} // verus!
