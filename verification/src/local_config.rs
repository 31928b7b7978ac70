//! Versioned, local-only configuration of the one-PC, two-source switcher.
//!
//! A configuration is valid when its version is supported, no present text field is blank, and
//! the two confirmed input values (once both exist) are distinct. Switching is fail-closed: an
//! invalid configuration never writes.

use crate::ownership::opt_view;
use crate::strmap::StrMap;
use crate::text::{debug_escaped, dec_digits, is_blank, push_debug_escaped, push_dec, str_is_blank, string_push};
use vstd::prelude::*;
use vstd::string::StringExecFns;

verus! {

pub const LOCAL_CONFIG_VERSION: u32 = 2;

/// One of the two locally configured monitor inputs.
#[derive(Debug, Clone, Copy, PartialEq, Eq, Hash, Structural)]
pub enum SourceSlot {
    A,
    B,
}

/// The array index of a slot.
pub open spec fn slot_index(s: SourceSlot) -> int {
    match s {
        SourceSlot::A => 0,
        SourceSlot::B => 1,
    }
}

/// The other slot.
pub open spec fn slot_opposite(s: SourceSlot) -> SourceSlot {
    match s {
        SourceSlot::A => SourceSlot::B,
        SourceSlot::B => SourceSlot::A,
    }
}

impl SourceSlot {
    pub fn index(self) -> (i: usize)
        ensures
            i == slot_index(self),
    {
        match self {
            SourceSlot::A => 0,
            SourceSlot::B => 1,
        }
    }

    pub fn opposite(self) -> (o: Self)
        ensures
            o == slot_opposite(self),
    {
        match self {
            SourceSlot::A => SourceSlot::B,
            SourceSlot::B => SourceSlot::A,
        }
    }

    /// Both slots, A first.
    pub fn all() -> (v: [SourceSlot; 2])
        ensures
            v@ == seq![SourceSlot::A, SourceSlot::B],
    {
        let v = [SourceSlot::A, SourceSlot::B];
        assert(v@ =~= seq![SourceSlot::A, SourceSlot::B]);
        v
    }
}

/// User-facing label and the DDC/CI input value confirmed for one source. `None` means
/// unconfirmed and must never be written.
#[derive(Debug, Clone, PartialEq, Eq)]
pub struct SourceConfig {
    pub label: String,
    pub confirmed_value: Option<u16>,
}

impl SourceConfig {
    pub fn new(label: String, confirmed_value: Option<u16>) -> (c: Self)
        ensures
            c.label == label,
            c.confirmed_value == confirmed_value,
    {
        SourceConfig { label, confirmed_value }
    }
}

/// Complete local application state persisted in one versioned document.
#[derive(Debug, Clone, PartialEq, Eq)]
pub struct LocalConfig {
    pub version: u32,
    /// Stable id understood by the local monitor driver.
    pub selected_monitor: Option<String>,
    /// Normalized manufacturer/model token used only for model-wide quirk lookup.
    pub selected_monitor_model_token: Option<String>,
    /// Exactly two slots, A then B.
    pub sources: [SourceConfig; 2],
    /// Monitor id → friendly user-facing name.
    pub monitor_aliases: StrMap<String>,
    /// Most recent source whose switch was an effective success; consulted only when live input
    /// read-back is unavailable.
    pub last_requested: Option<SourceSlot>,
}

/// Why a configuration is invalid.
#[derive(Debug, Clone, PartialEq, Eq)]
pub enum ConfigError {
    UnsupportedVersion { found: u32, supported: u32 },
    BlankSelectedMonitor,
    BlankSelectedMonitorModelToken,
    BlankSourceLabel(SourceSlot),
    DuplicateConfirmedValue(u16),
    BlankMonitorAliasId,
    BlankMonitorAlias(String),
}

/// Mathematical view of a configuration error.
pub enum ConfigErrorView {
    UnsupportedVersion { found: u32, supported: u32 },
    BlankSelectedMonitor,
    BlankSelectedMonitorModelToken,
    BlankSourceLabel(SourceSlot),
    DuplicateConfirmedValue(u16),
    BlankMonitorAliasId,
    BlankMonitorAlias(Seq<char>),
}

impl View for ConfigError {
    type V = ConfigErrorView;

    open spec fn view(&self) -> ConfigErrorView {
        match self {
            ConfigError::UnsupportedVersion { found, supported } => ConfigErrorView::UnsupportedVersion {
                found: *found,
                supported: *supported,
            },
            ConfigError::BlankSelectedMonitor => ConfigErrorView::BlankSelectedMonitor,
            ConfigError::BlankSelectedMonitorModelToken => ConfigErrorView::BlankSelectedMonitorModelToken,
            ConfigError::BlankSourceLabel(s) => ConfigErrorView::BlankSourceLabel(*s),
            ConfigError::DuplicateConfirmedValue(v) => ConfigErrorView::DuplicateConfirmedValue(*v),
            ConfigError::BlankMonitorAliasId => ConfigErrorView::BlankMonitorAliasId,
            ConfigError::BlankMonitorAlias(m) => ConfigErrorView::BlankMonitorAlias(m@),
        }
    }
}

/// A present value that is blank after trimming.
pub open spec fn present_blank(o: Option<String>) -> bool {
    o matches Some(s) && is_blank(s@)
}

/// Both confirmed values, A then B, when both exist.
pub open spec fn confirmed_pair(c: LocalConfig) -> Option<(u16, u16)> {
    match (c.sources@[0].confirmed_value, c.sources@[1].confirmed_value) {
        (Some(a), Some(b)) => Some((a, b)),
        _ => None,
    }
}

/// The confirmed value of A in a configuration where both exist.
pub open spec fn value_a(c: LocalConfig) -> u16 {
    match confirmed_pair(c) {
        Some((a, _)) => a,
        None => 0,
    }
}

/// The confirmed value of B in a configuration where both exist.
pub open spec fn value_b(c: LocalConfig) -> u16 {
    match confirmed_pair(c) {
        Some((_, b)) => b,
        None => 0,
    }
}

/// The shared value when both confirmed values exist and are equal.
pub open spec fn duplicate_value(c: LocalConfig) -> Option<u16> {
    match confirmed_pair(c) {
        Some((a, b)) => if a == b {
            Some(a)
        } else {
            None
        },
        None => None,
    }
}

/// The first alias entry (in key order, from position `i`) with a blank id or a blank alias.
pub open spec fn alias_problem(keys: Seq<Seq<char>>, vals: Seq<String>, i: nat) -> Option<ConfigErrorView>
    decreases keys.len() - i,
{
    if i >= keys.len() {
        None
    } else if is_blank(keys[i as int]) {
        Some(ConfigErrorView::BlankMonitorAliasId)
    } else if is_blank(vals[i as int]@) {
        Some(ConfigErrorView::BlankMonitorAlias(keys[i as int]))
    } else {
        alias_problem(keys, vals, i + 1)
    }
}

/// The first failed check of a configuration, in check order, or `None` when it is valid.
pub open spec fn config_problem(c: LocalConfig) -> Option<ConfigErrorView> {
    if c.version != LOCAL_CONFIG_VERSION {
        Some(ConfigErrorView::UnsupportedVersion { found: c.version, supported: LOCAL_CONFIG_VERSION })
    } else if present_blank(c.selected_monitor) {
        Some(ConfigErrorView::BlankSelectedMonitor)
    } else if present_blank(c.selected_monitor_model_token) {
        Some(ConfigErrorView::BlankSelectedMonitorModelToken)
    } else if is_blank(c.sources@[0].label@) {
        Some(ConfigErrorView::BlankSourceLabel(SourceSlot::A))
    } else if is_blank(c.sources@[1].label@) {
        Some(ConfigErrorView::BlankSourceLabel(SourceSlot::B))
    } else if duplicate_value(c) is Some {
        Some(ConfigErrorView::DuplicateConfirmedValue(duplicate_value(c)->0))
    } else {
        alias_problem(c.monitor_aliases.keys_view(), c.monitor_aliases.values_view(), 0)
    }
}

/// Ready to switch: valid, a non-blank monitor selected, and both values confirmed.
pub open spec fn config_ready(c: LocalConfig) -> bool {
    &&& config_problem(c) is None
    &&& c.selected_monitor matches Some(m) && !is_blank(m@)
    &&& confirmed_pair(c) is Some
}

fn opt_blank(o: &Option<String>) -> (b: bool)
    ensures
        b == present_blank(*o),
{
    match o {
        Some(s) => str_is_blank(s.as_str()),
        None => false,
    }
}

/// `a` carries the same configuration as `b`: every field equal, the aliases as the same map
/// with the same key order.
pub open spec fn same_config(a: LocalConfig, b: LocalConfig) -> bool {
    &&& a.version == b.version
    &&& a.selected_monitor == b.selected_monitor
    &&& a.selected_monitor_model_token == b.selected_monitor_model_token
    &&& a.sources@ == b.sources@
    &&& a.monitor_aliases.wf() == b.monitor_aliases.wf()
    &&& a.monitor_aliases@ == b.monitor_aliases@
    &&& a.monitor_aliases.keys_view() == b.monitor_aliases.keys_view()
    &&& a.last_requested == b.last_requested
}

impl LocalConfig {
    /// A copy of this configuration, field for field.
    pub fn duplicate(&self) -> (c: Self)
        requires
            self.monitor_aliases.wf(),
        ensures
            same_config(c, *self),
    {
        let selected_monitor = match &self.selected_monitor {
            Some(s) => Some(s.clone()),
            None => None,
        };
        let selected_monitor_model_token = match &self.selected_monitor_model_token {
            Some(s) => Some(s.clone()),
            None => None,
        };
        let a = SourceConfig { label: self.sources[0].label.clone(), confirmed_value: self.sources[0].confirmed_value };
        let b = SourceConfig { label: self.sources[1].label.clone(), confirmed_value: self.sources[1].confirmed_value };
        let c = LocalConfig {
            version: self.version,
            selected_monitor,
            selected_monitor_model_token,
            sources: [a, b],
            monitor_aliases: self.monitor_aliases.duplicate(),
            last_requested: self.last_requested,
        };
        assert(c.sources@ =~= self.sources@);
        c
    }
}

impl LocalConfig {
    /// The default, unconfigured state: current version, nothing selected, "Source A" and
    /// "Source B" labels, no values, no aliases.
    pub fn default_config() -> (c: Self)
        ensures
            c.version == LOCAL_CONFIG_VERSION,
            c.selected_monitor is None,
            c.selected_monitor_model_token is None,
            c.sources@[0].label@ == "Source A"@,
            c.sources@[0].confirmed_value is None,
            c.sources@[1].label@ == "Source B"@,
            c.sources@[1].confirmed_value is None,
            c.monitor_aliases.wf(),
            c.monitor_aliases@ == Map::<Seq<char>, String>::empty(),
            c.monitor_aliases.keys_view().len() == 0,
            c.last_requested is None,
    {
        LocalConfig {
            version: LOCAL_CONFIG_VERSION,
            selected_monitor: None,
            selected_monitor_model_token: None,
            sources: [
                SourceConfig::new("Source A".to_owned(), None),
                SourceConfig::new("Source B".to_owned(), None),
            ],
            monitor_aliases: StrMap::new(),
            last_requested: None,
        }
    }

    pub fn source(&self, slot: SourceSlot) -> (s: &SourceConfig)
        ensures
            *s == self.sources@[slot_index(slot)],
    {
        &self.sources[slot.index()]
    }

    /// Mutable access to one slot.
    pub fn source_mut(&mut self, slot: SourceSlot) -> (s: &mut SourceConfig)
        ensures
            *s == old(self).sources@[slot_index(slot)],
            final(self).sources@ == old(self).sources@.update(slot_index(slot), *final(s)),
            final(self).version == old(self).version,
            final(self).selected_monitor == old(self).selected_monitor,
            final(self).selected_monitor_model_token == old(self).selected_monitor_model_token,
            final(self).monitor_aliases == old(self).monitor_aliases,
            final(self).last_requested == old(self).last_requested,
    {
        &mut self.sources[slot.index()]
    }

    /// Replace one slot's confirmed value.
    pub fn set_confirmed_value(&mut self, slot: SourceSlot, value: Option<u16>)
        ensures
            final(self).sources@[slot_index(slot)].confirmed_value == value,
            final(self).sources@[slot_index(slot)].label == old(self).sources@[slot_index(slot)].label,
            final(self).sources@[1 - slot_index(slot)] == old(self).sources@[1 - slot_index(slot)],
            final(self).version == old(self).version,
            final(self).selected_monitor == old(self).selected_monitor,
            final(self).selected_monitor_model_token == old(self).selected_monitor_model_token,
            final(self).monitor_aliases == old(self).monitor_aliases,
            final(self).last_requested == old(self).last_requested,
    {
        match slot {
            SourceSlot::A => {
                self.sources[0].confirmed_value = value;
            },
            SourceSlot::B => {
                self.sources[1].confirmed_value = value;
            },
        }
    }

    /// The pair of confirmed values, in A/B order. `None` until both are configured.
    pub fn confirmed_values(&self) -> (r: Option<[u16; 2]>)
        ensures
            match r {
                Some(v) => confirmed_pair(*self) == Some((v@[0], v@[1])),
                None => confirmed_pair(*self) is None,
            },
    {
        match (self.sources[0].confirmed_value, self.sources[1].confirmed_value) {
            (Some(a), Some(b)) => Some([a, b]),
            _ => None,
        }
    }

    /// True only when switching has every required local input: a monitor, two distinct
    /// values, and a structurally valid configuration.
    pub fn is_ready(&self) -> (b: bool)
        requires
            self.monitor_aliases.wf(),
        ensures
            b == config_ready(*self),
    {
        let valid = self.validate().is_ok();
        let monitor_ok = match &self.selected_monitor {
            Some(m) => !str_is_blank(m.as_str()),
            None => false,
        };
        valid && monitor_ok && self.confirmed_values().is_some()
    }

    /// Check the configuration; the first failed check, in order, is the error.
    pub fn validate(&self) -> (r: Result<(), ConfigError>)
        requires
            self.monitor_aliases.wf(),
        ensures
            match r {
                Ok(()) => config_problem(*self) is None,
                Err(e) => config_problem(*self) == Some(e@),
            },
    {
        if self.version != LOCAL_CONFIG_VERSION {
            return Err(ConfigError::UnsupportedVersion { found: self.version, supported: LOCAL_CONFIG_VERSION });
        }
        if opt_blank(&self.selected_monitor) {
            return Err(ConfigError::BlankSelectedMonitor);
        }
        if opt_blank(&self.selected_monitor_model_token) {
            return Err(ConfigError::BlankSelectedMonitorModelToken);
        }
        if str_is_blank(self.sources[0].label.as_str()) {
            return Err(ConfigError::BlankSourceLabel(SourceSlot::A));
        }
        if str_is_blank(self.sources[1].label.as_str()) {
            return Err(ConfigError::BlankSourceLabel(SourceSlot::B));
        }
        match self.confirmed_values() {
            Some(v) => {
                if v[0] == v[1] {
                    return Err(ConfigError::DuplicateConfirmedValue(v[0]));
                }
            },
            None => {},
        }
        let n = self.monitor_aliases.len();
        let mut i: usize = 0;
        while i < n
            invariant
                self.monitor_aliases.wf(),
                n == self.monitor_aliases.keys_view().len(),
                self.monitor_aliases.keys_view().len() == self.monitor_aliases.values_view().len(),
                i <= n,
                config_problem(*self) == alias_problem(self.monitor_aliases.keys_view(), self.monitor_aliases.values_view(), 0),
                alias_problem(self.monitor_aliases.keys_view(), self.monitor_aliases.values_view(), 0)
                    == alias_problem(self.monitor_aliases.keys_view(), self.monitor_aliases.values_view(), i as nat),
            decreases n - i,
        {
            let id = self.monitor_aliases.key_at(i);
            let alias = self.monitor_aliases.value_at(i);
            proof {
                assert(id@ == self.monitor_aliases.keys_view()[i as int]);
            }
            if str_is_blank(id.as_str()) {
                return Err(ConfigError::BlankMonitorAliasId);
            }
            if str_is_blank(alias.as_str()) {
                return Err(ConfigError::BlankMonitorAlias(id.clone()));
            }
            i = i + 1;
        }
        Ok(())
    }
}

impl Default for LocalConfig {
    fn default() -> (c: Self)
        ensures
            c.version == LOCAL_CONFIG_VERSION,
            c.selected_monitor is None,
            c.selected_monitor_model_token is None,
            c.sources@[0].label@ == "Source A"@,
            c.sources@[0].confirmed_value is None,
            c.sources@[1].label@ == "Source B"@,
            c.sources@[1].confirmed_value is None,
            c.monitor_aliases.wf(),
            c.monitor_aliases@ == Map::<Seq<char>, String>::empty(),
            c.monitor_aliases.keys_view().len() == 0,
            c.last_requested is None,
    {
        LocalConfig::default_config()
    }
}

/// The human-readable text of a configuration error.
pub open spec fn config_error_text(e: ConfigErrorView) -> Seq<char> {
    match e {
        ConfigErrorView::UnsupportedVersion { found, supported } => "unsupported local config version "@ + dec_digits(
            found as nat,
        ) + "; supported version is "@ + dec_digits(supported as nat),
        ConfigErrorView::BlankSelectedMonitor => "selected monitor cannot be blank"@,
        ConfigErrorView::BlankSelectedMonitorModelToken => "selected monitor model token cannot be blank"@,
        ConfigErrorView::BlankSourceLabel(s) => "source "@ + (match s {
            SourceSlot::A => "A"@,
            SourceSlot::B => "B"@,
        }) + " label cannot be blank"@,
        ConfigErrorView::DuplicateConfirmedValue(v) => "source A and B must use distinct input values (both are "@
            + dec_digits(v as nat) + ")"@,
        ConfigErrorView::BlankMonitorAliasId => "monitor alias id cannot be blank"@,
        ConfigErrorView::BlankMonitorAlias(m) => "monitor alias for \""@ + debug_escaped(m) + "\" cannot be blank"@,
    }
}

impl ConfigError {
    /// The human-readable message of this error.
    pub fn message(&self) -> (s: String)
        ensures
            s@ == config_error_text(self@),
    {
        match self {
            ConfigError::UnsupportedVersion { found, supported } => {
                let mut s = "unsupported local config version ".to_owned();
                push_dec(&mut s, *found as u64);
                s.append("; supported version is ");
                push_dec(&mut s, *supported as u64);
                s
            },
            ConfigError::BlankSelectedMonitor => "selected monitor cannot be blank".to_owned(),
            ConfigError::BlankSelectedMonitorModelToken => "selected monitor model token cannot be blank".to_owned(),
            ConfigError::BlankSourceLabel(slot) => {
                let mut s = "source ".to_owned();
                match slot {
                    SourceSlot::A => s.append("A"),
                    SourceSlot::B => s.append("B"),
                }
                s.append(" label cannot be blank");
                s
            },
            ConfigError::DuplicateConfirmedValue(v) => {
                let mut s = "source A and B must use distinct input values (both are ".to_owned();
                push_dec(&mut s, *v as u64);
                s.append(")");
                s
            },
            ConfigError::BlankMonitorAliasId => "monitor alias id cannot be blank".to_owned(),
            ConfigError::BlankMonitorAlias(m) => {
                let mut s = "monitor alias for \"".to_owned();
                push_debug_escaped(&mut s, m.as_str());
                s.append("\" cannot be blank");
                s
            },
        }
    }
}

} // verus!
