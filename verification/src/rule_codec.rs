//! How rules are written in a configuration document.
//!
//! A document is a table whose key `rule` holds the list of the rules. A
//! rule is a table with its name, its priority, its condition under `if`,
//! and the tables `cpu` and `power` of the settings. A rule, or one of its
//! two tables of settings, that holds any other key is refused.

use vstd::prelude::*;
use vstd::string::*;
use crate::codec::{
    decode, encode, find, lemma_decode_plain, lemma_round_trip, plain, within,
    DecodeError, Entries, ExpressionView,
};
use crate::config::{
    optional_view, rule_views, CpuDeltaSpec, CpuDeltaSpecView, PowerDeltaSpec, PowerDeltaSpecView, Rule,
    RuleView,
};
use crate::document::{
    entry_views, item_views, lemma_key_name_round_trip, lemma_list_value_view,
    lemma_table_value_view, ConfigValue, ConfigValueView, Entry, Key,
};
use crate::expression::Expression;

verus! {

/// `true` for the keys of a rule.
pub open spec fn is_rule_key(key: Key) -> bool {
    key == Key::Name || key == Key::Priority || key == Key::If || key == Key::Cpu || key
        == Key::Power
}

/// `true` for the keys of the settings of CPUs.
pub open spec fn is_cpu_key(key: Key) -> bool {
    key == Key::For || key == Key::Governor || key == Key::EnergyPerformancePreference || key
        == Key::EnergyPerfBias || key == Key::FrequencyMhzMinimum || key
        == Key::FrequencyMhzMaximum || key == Key::Turbo
}

/// `true` for the keys of the settings of power supplies.
pub open spec fn is_power_key(key: Key) -> bool {
    key == Key::For || key == Key::ChargeThresholdStart || key == Key::ChargeThresholdEnd || key
        == Key::PlatformProfile
}

/// The kinds of table that hold only keys they know.
#[derive(Clone, Copy, Debug, PartialEq, Eq, Structural)]
pub enum Section {
    Rule,
    Cpu,
    Power,
}

/// `true` when `key` belongs in a table of this kind.
pub open spec fn belongs(section: Section, key: Key) -> bool {
    match section {
        Section::Rule => is_rule_key(key),
        Section::Cpu => is_cpu_key(key),
        Section::Power => is_power_key(key),
    }
}

/// `true` when the key of an entry is written as a key that belongs in a
/// table of this kind.
pub open spec fn entry_belongs(section: Section, name: Seq<char>) -> bool {
    match Key::named(name) {
        Some(key) => belongs(section, key),
        None => false,
    }
}

/// `true` when every entry from `from` on belongs in a table of this kind.
pub open spec fn all_belong(section: Section, entries: Entries, from: nat) -> bool
    decreases entries.len() - from,
{
    if from >= entries.len() {
        true
    } else {
        entry_belongs(section, entries[from as int].0) && all_belong(section, entries, from + 1)
    }
}

/// The expression under `key`, where the table holds the key.
pub open spec fn field(entries: Entries, key: Key) -> Result<Option<ExpressionView>, DecodeError> {
    match find(entries, key, 0) {
        Some(i) if within(entries, i) => match decode(entries[i].1) {
            Ok(e) => Ok(Some(e)),
            Err(e) => Err(e),
        },
        _ => Ok(None),
    }
}

/// The settings of CPUs without any setting.
pub open spec fn no_cpu_settings() -> CpuDeltaSpecView {
    CpuDeltaSpecView {
        for_: None,
        governor: None,
        energy_performance_preference: None,
        energy_performance_bias: None,
        frequency_mhz_minimum: None,
        frequency_mhz_maximum: None,
        turbo: None,
    }
}

/// The settings of power supplies without any setting.
pub open spec fn no_power_settings() -> PowerDeltaSpecView {
    PowerDeltaSpecView {
        for_: None,
        charge_threshold_start: None,
        charge_threshold_end: None,
        platform_profile: None,
    }
}

/// The settings of CPUs that a table stands for.
pub open spec fn decode_cpu_entries(entries: Entries) -> Result<CpuDeltaSpecView, DecodeError> {
    if !all_belong(Section::Cpu, entries, 0) {
        Err(DecodeError::UnknownKey)
    } else {
        match field(entries, Key::For) {
            Err(e) => Err(e),
            Ok(for_) => match field(entries, Key::Governor) {
                Err(e) => Err(e),
                Ok(governor) => match field(entries, Key::EnergyPerformancePreference) {
                    Err(e) => Err(e),
                    Ok(epp) => match field(entries, Key::EnergyPerfBias) {
                        Err(e) => Err(e),
                        Ok(epb) => match field(entries, Key::FrequencyMhzMinimum) {
                            Err(e) => Err(e),
                            Ok(minimum) => match field(entries, Key::FrequencyMhzMaximum) {
                                Err(e) => Err(e),
                                Ok(maximum) => match field(entries, Key::Turbo) {
                                    Err(e) => Err(e),
                                    Ok(turbo) => Ok(
                                        CpuDeltaSpecView {
                                            for_,
                                            governor,
                                            energy_performance_preference: epp,
                                            energy_performance_bias: epb,
                                            frequency_mhz_minimum: minimum,
                                            frequency_mhz_maximum: maximum,
                                            turbo,
                                        },
                                    ),
                                },
                            },
                        },
                    },
                },
            },
        }
    }
}

/// The settings of power supplies that a table stands for.
pub open spec fn decode_power_entries(entries: Entries) -> Result<PowerDeltaSpecView, DecodeError> {
    if !all_belong(Section::Power, entries, 0) {
        Err(DecodeError::UnknownKey)
    } else {
        match field(entries, Key::For) {
            Err(e) => Err(e),
            Ok(for_) => match field(entries, Key::ChargeThresholdStart) {
                Err(e) => Err(e),
                Ok(start) => match field(entries, Key::ChargeThresholdEnd) {
                    Err(e) => Err(e),
                    Ok(end) => match field(entries, Key::PlatformProfile) {
                        Err(e) => Err(e),
                        Ok(profile) => Ok(
                            PowerDeltaSpecView {
                                for_,
                                charge_threshold_start: start,
                                charge_threshold_end: end,
                                platform_profile: profile,
                            },
                        ),
                    },
                },
            },
        }
    }
}

/// The value under `key`, where the table holds the key.
pub open spec fn value_of(entries: Entries, key: Key) -> Option<ConfigValueView> {
    match find(entries, key, 0) {
        Some(i) if within(entries, i) => Some(entries[i].1),
        _ => None,
    }
}

/// The settings of CPUs of a rule: those of its table `cpu`, or none where
/// it has no such table.
pub open spec fn decode_cpu(value: Option<ConfigValueView>) -> Result<CpuDeltaSpecView, DecodeError> {
    match value {
        None => Ok(no_cpu_settings()),
        Some(ConfigValueView::Table(entries)) => decode_cpu_entries(entries),
        Some(_) => Err(DecodeError::ExpectedTable),
    }
}

/// The settings of power supplies of a rule.
pub open spec fn decode_power(value: Option<ConfigValueView>) -> Result<
    PowerDeltaSpecView,
    DecodeError,
> {
    match value {
        None => Ok(no_power_settings()),
        Some(ConfigValueView::Table(entries)) => decode_power_entries(entries),
        Some(_) => Err(DecodeError::ExpectedTable),
    }
}

/// The priority that a value stands for: a whole number from 0 to 65535.
pub open spec fn decode_priority(value: Option<ConfigValueView>) -> Result<u16, DecodeError> {
    match value {
        None => Err(DecodeError::MissingPriority),
        Some(ConfigValueView::Integer(i)) => if 0 <= i <= u16::MAX {
            Ok(i as u16)
        } else {
            Err(DecodeError::BadPriority)
        },
        Some(_) => Err(DecodeError::BadPriority),
    }
}

/// The name that a value stands for; a rule without a name has the empty
/// name.
pub open spec fn decode_name(value: Option<ConfigValueView>) -> Result<Seq<char>, DecodeError> {
    match value {
        None => Ok(Seq::empty()),
        Some(ConfigValueView::Text(s)) => Ok(s),
        Some(_) => Err(DecodeError::ExpectedText),
    }
}

/// The rule that a value stands for. A rule without a condition holds
/// always.
pub open spec fn decode_rule(value: ConfigValueView) -> Result<RuleView, DecodeError> {
    match value {
        ConfigValueView::Table(entries) => if !all_belong(Section::Rule, entries, 0) {
            Err(DecodeError::UnknownKey)
        } else {
            match decode_priority(value_of(entries, Key::Priority)) {
                Err(e) => Err(e),
                Ok(priority) => match decode_name(value_of(entries, Key::Name)) {
                    Err(e) => Err(e),
                    Ok(name) => match field(entries, Key::If) {
                        Err(e) => Err(e),
                        Ok(condition) => match decode_cpu(value_of(entries, Key::Cpu)) {
                            Err(e) => Err(e),
                            Ok(cpu) => match decode_power(value_of(entries, Key::Power)) {
                                Err(e) => Err(e),
                                Ok(power) => Ok(
                                    RuleView {
                                        name,
                                        priority,
                                        condition: match condition {
                                            Some(c) => c,
                                            None => ExpressionView::Boolean(true),
                                        },
                                        cpu,
                                        power,
                                    },
                                ),
                            },
                        },
                    },
                },
            }
        },
        _ => Err(DecodeError::ExpectedTable),
    }
}

/// The rules that the values up to `n` stand for; the first value that
/// stands for none is the failure.
pub open spec fn decode_rules(items: Seq<ConfigValueView>, n: nat) -> Result<
    Seq<RuleView>,
    DecodeError,
>
    decreases n,
{
    if n == 0 || n > items.len() {
        Ok(Seq::empty())
    } else {
        match decode_rules(items, (n - 1) as nat) {
            Err(e) => Err(e),
            Ok(front) => match decode_rule(items[n - 1]) {
                Err(e) => Err(e),
                Ok(rule) => Ok(front.push(rule)),
            },
        }
    }
}

/// The rules of a document: those of the list under its key `rule`, or
/// none where it has no such key. Other keys of the document are passed
/// over.
pub open spec fn decode_document(value: ConfigValueView) -> Result<Seq<RuleView>, DecodeError> {
    match value {
        ConfigValueView::Table(entries) => match value_of(entries, Key::Rule) {
            None => Ok(Seq::empty()),
            Some(ConfigValueView::List(items)) => decode_rules(items, items.len()),
            Some(_) => Err(DecodeError::ExpectedList),
        },
        _ => Err(DecodeError::ExpectedTable),
    }
}

fn find_entry(entries: &Vec<Entry>, key: Key) -> (r: Option<usize>)
    ensures
        match r {
            Some(i) => find(entry_views(entries@), key, 0) == Some(i as int) && i < entries@.len(),
            None => find(entry_views(entries@), key, 0).is_none(),
        },
{
    let mut i: usize = 0;
    while i < entries.len()
        invariant
            i <= entries@.len(),
            find(entry_views(entries@), key, 0) == find(entry_views(entries@), key, i as nat),
        decreases entries.len() - i,
    {
        match Key::from_str(entries[i].key.as_str()) {
            Some(k) => {
                if k == key {
                    return Some(i);
                }
            },
            None => {},
        }
        i += 1;
    }
    None
}

fn key_belongs(section: Section, key: Key) -> (r: bool)
    ensures
        r == belongs(section, key),
{
    match section {
        Section::Rule => match key {
            Key::Name | Key::Priority | Key::If | Key::Cpu | Key::Power => true,
            _ => false,
        },
        Section::Cpu => match key {
            Key::For | Key::Governor | Key::EnergyPerformancePreference | Key::EnergyPerfBias
            | Key::FrequencyMhzMinimum | Key::FrequencyMhzMaximum | Key::Turbo => true,
            _ => false,
        },
        Section::Power => match key {
            Key::For | Key::ChargeThresholdStart | Key::ChargeThresholdEnd
            | Key::PlatformProfile => true,
            _ => false,
        },
    }
}

fn check_keys(section: Section, entries: &Vec<Entry>) -> (r: bool)
    ensures
        r == all_belong(section, entry_views(entries@), 0),
{
    let mut i: usize = 0;
    while i < entries.len()
        invariant
            i <= entries@.len(),
            all_belong(section, entry_views(entries@), 0) == all_belong(
                section,
                entry_views(entries@),
                i as nat,
            ),
        decreases entries.len() - i,
    {
        let known = match Key::from_str(entries[i].key.as_str()) {
            Some(key) => key_belongs(section, key),
            None => false,
        };
        if !known {
            return false;
        }
        i += 1;
    }
    true
}

fn decode_field(entries: &Vec<Entry>, key: Key) -> (r: Result<Option<Expression>, DecodeError>)
    ensures
        match r {
            Ok(e) => field(entry_views(entries@), key) == Ok::<
                Option<ExpressionView>,
                DecodeError,
            >(crate::config::optional_view(e)),
            Err(e) => field(entry_views(entries@), key) == Err::<
                Option<ExpressionView>,
                DecodeError,
            >(e),
        },
{
    match find_entry(entries, key) {
        Some(i) => match Expression::decode(&entries[i].value) {
            Ok(e) => Ok(Some(e)),
            Err(e) => Err(e),
        },
        None => Ok(None),
    }
}

fn entry_value(entries: &Vec<Entry>, key: Key) -> (r: Option<&ConfigValue>)
    ensures
        match r {
            Some(v) => value_of(entry_views(entries@), key) == Some(v@),
            None => value_of(entry_views(entries@), key).is_none(),
        },
{
    match find_entry(entries, key) {
        Some(i) => Some(&entries[i].value),
        None => None,
    }
}

/// The view of a value that may be absent.
pub open spec fn optional_value_view(v: Option<&ConfigValue>) -> Option<ConfigValueView> {
    match v {
        Some(v) => Some(v@),
        None => None,
    }
}

impl CpuDeltaSpec {
    /// Reads the settings of CPUs from the table `cpu` of a rule, where it
    /// has one.
    pub fn decode(value: Option<&ConfigValue>) -> (r: Result<CpuDeltaSpec, DecodeError>)
        ensures
            match r {
                Ok(spec) => decode_cpu(optional_value_view(value)) == Ok::<
                    CpuDeltaSpecView,
                    DecodeError,
                >(spec@),
                Err(e) => decode_cpu(optional_value_view(value)) == Err::<
                    CpuDeltaSpecView,
                    DecodeError,
                >(e),
            },
    {
        let entries = match value {
            None => {
                return Ok(CpuDeltaSpec::new());
            },
            Some(ConfigValue::Table(entries)) => {
                proof {
                    lemma_table_value_view(*entries);
                }
                entries
            },
            Some(_) => {
                return Err(DecodeError::ExpectedTable);
            },
        };
        if !check_keys(Section::Cpu, entries) {
            return Err(DecodeError::UnknownKey);
        }
        let for_ = match decode_field(entries, Key::For) {
            Ok(v) => v,
            Err(e) => {
                return Err(e);
            },
        };
        let governor = match decode_field(entries, Key::Governor) {
            Ok(v) => v,
            Err(e) => {
                return Err(e);
            },
        };
        let epp = match decode_field(entries, Key::EnergyPerformancePreference) {
            Ok(v) => v,
            Err(e) => {
                return Err(e);
            },
        };
        let epb = match decode_field(entries, Key::EnergyPerfBias) {
            Ok(v) => v,
            Err(e) => {
                return Err(e);
            },
        };
        let minimum = match decode_field(entries, Key::FrequencyMhzMinimum) {
            Ok(v) => v,
            Err(e) => {
                return Err(e);
            },
        };
        let maximum = match decode_field(entries, Key::FrequencyMhzMaximum) {
            Ok(v) => v,
            Err(e) => {
                return Err(e);
            },
        };
        let turbo = match decode_field(entries, Key::Turbo) {
            Ok(v) => v,
            Err(e) => {
                return Err(e);
            },
        };
        Ok(
            CpuDeltaSpec {
                for_,
                governor,
                energy_performance_preference: epp,
                energy_performance_bias: epb,
                frequency_mhz_minimum: minimum,
                frequency_mhz_maximum: maximum,
                turbo,
            },
        )
    }
}

impl PowerDeltaSpec {
    /// Reads the settings of power supplies from the table `power` of a
    /// rule, where it has one.
    pub fn decode(value: Option<&ConfigValue>) -> (r: Result<PowerDeltaSpec, DecodeError>)
        ensures
            match r {
                Ok(spec) => decode_power(optional_value_view(value)) == Ok::<
                    PowerDeltaSpecView,
                    DecodeError,
                >(spec@),
                Err(e) => decode_power(optional_value_view(value)) == Err::<
                    PowerDeltaSpecView,
                    DecodeError,
                >(e),
            },
    {
        let entries = match value {
            None => {
                return Ok(PowerDeltaSpec::new());
            },
            Some(ConfigValue::Table(entries)) => {
                proof {
                    lemma_table_value_view(*entries);
                }
                entries
            },
            Some(_) => {
                return Err(DecodeError::ExpectedTable);
            },
        };
        if !check_keys(Section::Power, entries) {
            return Err(DecodeError::UnknownKey);
        }
        let for_ = match decode_field(entries, Key::For) {
            Ok(v) => v,
            Err(e) => {
                return Err(e);
            },
        };
        let start = match decode_field(entries, Key::ChargeThresholdStart) {
            Ok(v) => v,
            Err(e) => {
                return Err(e);
            },
        };
        let end = match decode_field(entries, Key::ChargeThresholdEnd) {
            Ok(v) => v,
            Err(e) => {
                return Err(e);
            },
        };
        let profile = match decode_field(entries, Key::PlatformProfile) {
            Ok(v) => v,
            Err(e) => {
                return Err(e);
            },
        };
        Ok(
            PowerDeltaSpec {
                for_,
                charge_threshold_start: start,
                charge_threshold_end: end,
                platform_profile: profile,
            },
        )
    }
}

impl Rule {
    /// Reads a rule from a value of a configuration document.
    pub fn decode(value: &ConfigValue) -> (r: Result<Rule, DecodeError>)
        ensures
            match r {
                Ok(rule) => decode_rule(value@) == Ok::<RuleView, DecodeError>(rule@),
                Err(e) => decode_rule(value@) == Err::<RuleView, DecodeError>(e),
            },
    {
        let entries = match value {
            ConfigValue::Table(entries) => {
                proof {
                    lemma_table_value_view(*entries);
                }
                entries
            },
            _ => {
                return Err(DecodeError::ExpectedTable);
            },
        };
        if !check_keys(Section::Rule, entries) {
            return Err(DecodeError::UnknownKey);
        }
        let priority: u16 = match entry_value(entries, Key::Priority) {
            None => {
                return Err(DecodeError::MissingPriority);
            },
            Some(ConfigValue::Integer(i)) => {
                if *i < 0 || *i > 65_535 {
                    return Err(DecodeError::BadPriority);
                }
                *i as u16
            },
            Some(_) => {
                return Err(DecodeError::BadPriority);
            },
        };
        let name = match entry_value(entries, Key::Name) {
            None => String::new(),
            Some(ConfigValue::Text(s)) => s.clone(),
            Some(_) => {
                return Err(DecodeError::ExpectedText);
            },
        };
        let condition = match decode_field(entries, Key::If) {
            Ok(Some(c)) => c,
            Ok(None) => Expression::Boolean(true),
            Err(e) => {
                return Err(e);
            },
        };
        let cpu = match CpuDeltaSpec::decode(entry_value(entries, Key::Cpu)) {
            Ok(c) => c,
            Err(e) => {
                return Err(e);
            },
        };
        let power = match PowerDeltaSpec::decode(entry_value(entries, Key::Power)) {
            Ok(p) => p,
            Err(e) => {
                return Err(e);
            },
        };
        Ok(Rule { name, priority, condition, cpu, power })
    }
}

/// The rules of a document.
pub fn decode_rules_of(document: &ConfigValue) -> (r: Result<Vec<Rule>, DecodeError>)
    ensures
        match r {
            Ok(rules) => decode_document(document@) == Ok::<Seq<RuleView>, DecodeError>(
                rule_views(rules@),
            ),
            Err(e) => decode_document(document@) == Err::<Seq<RuleView>, DecodeError>(e),
        },
{
    let entries = match document {
        ConfigValue::Table(entries) => {
            proof {
                lemma_table_value_view(*entries);
            }
            entries
        },
        _ => {
            return Err(DecodeError::ExpectedTable);
        },
    };
    let items = match entry_value(entries, Key::Rule) {
        None => {
            let none: Vec<Rule> = Vec::new();
            assert(rule_views(none@) =~= Seq::<RuleView>::empty());
            return Ok(none);
        },
        Some(ConfigValue::List(items)) => {
            proof {
                lemma_list_value_view(*items);
            }
            items
        },
        Some(_) => {
            return Err(DecodeError::ExpectedList);
        },
    };
    let ghost views = item_views(items@);
    let mut out: Vec<Rule> = Vec::new();
    let mut i: usize = 0;
    assert(rule_views(out@) =~= Seq::<RuleView>::empty());
    assert(decode_document(document@) == decode_rules(views, views.len()));
    while i < items.len()
        invariant
            i <= items@.len(),
            views == item_views(items@),
            decode_document(document@) == decode_rules(views, views.len()),
            decode_rules(views, i as nat) == Ok::<Seq<RuleView>, DecodeError>(rule_views(out@)),
        decreases items.len() - i,
    {
        assert(views[i as int] == items@[i as int]@);
        match Rule::decode(&items[i]) {
            Ok(rule) => {
                let ghost before = rule_views(out@);
                out.push(rule);
                assert(rule_views(out@) =~= before.push(rule@));
            },
            Err(e) => {
                proof {
                    lemma_decode_rules_fails(views, (i + 1) as nat, views.len());
                }
                return Err(e);
            },
        }
        i += 1;
    }
    Ok(out)
}

proof fn lemma_decode_rules_fails(items: Seq<ConfigValueView>, k: nat, n: nat)
    requires
        0 < k <= n <= items.len(),
        decode_rules(items, k).is_err(),
    ensures
        decode_rules(items, n) == decode_rules(items, k),
    decreases n - k,
{
    if k < n {
        lemma_decode_rules_fails(items, k, (n - 1) as nat);
    }
}

/// The entry that writes a setting, or nothing for a setting that is
/// absent.
pub open spec fn setting_entry(key: Key, setting: Option<ExpressionView>) -> Entries {
    match setting {
        Some(e) => seq![(key.name(), encode(e))],
        None => Seq::empty(),
    }
}

/// The table that writes the settings of CPUs: the entry of each setting
/// that is present, in the order `for`, governor, preference, bias, minimum
/// and maximum frequency, turbo.
pub open spec fn encode_cpu(spec: CpuDeltaSpecView) -> Entries {
    cpu_entries_from(spec, 0)
}

/// The table that writes the settings of power supplies.
pub open spec fn encode_power(spec: PowerDeltaSpecView) -> Entries {
    setting_entry(Key::For, spec.for_) + setting_entry(
        Key::ChargeThresholdStart,
        spec.charge_threshold_start,
    ) + setting_entry(Key::ChargeThresholdEnd, spec.charge_threshold_end) + setting_entry(
        Key::PlatformProfile,
        spec.platform_profile,
    )
}

/// The value that writes a rule.
pub open spec fn encode_rule(rule: RuleView) -> ConfigValueView {
    ConfigValueView::Table(
        seq![
            (Key::Name.name(), ConfigValueView::Text(rule.name)),
            (Key::Priority.name(), ConfigValueView::Integer(rule.priority as int)),
            (Key::If.name(), encode(rule.condition)),
            (Key::Cpu.name(), ConfigValueView::Table(encode_cpu(rule.cpu))),
            (Key::Power.name(), ConfigValueView::Table(encode_power(rule.power))),
        ],
    )
}

/// A setting is absent, or holds no string that names a sensor.
pub open spec fn plain_setting(setting: Option<ExpressionView>) -> bool {
    match setting {
        Some(e) => plain(e),
        None => true,
    }
}

/// No string inside the rule names a sensor.
pub open spec fn plain_rule(rule: RuleView) -> bool {
    &&& plain(rule.condition)
    &&& plain_setting(rule.cpu.for_)
    &&& plain_setting(rule.cpu.governor)
    &&& plain_setting(rule.cpu.energy_performance_preference)
    &&& plain_setting(rule.cpu.energy_performance_bias)
    &&& plain_setting(rule.cpu.frequency_mhz_minimum)
    &&& plain_setting(rule.cpu.frequency_mhz_maximum)
    &&& plain_setting(rule.cpu.turbo)
    &&& plain_setting(rule.power.for_)
    &&& plain_setting(rule.power.charge_threshold_start)
    &&& plain_setting(rule.power.charge_threshold_end)
    &&& plain_setting(rule.power.platform_profile)
}

/// A position moved one entry on.
pub open spec fn shifted(position: Option<int>) -> Option<int> {
    match position {
        Some(p) => Some(p + 1),
        None => None,
    }
}

proof fn lemma_find_behind(head: (Seq<char>, ConfigValueView), tail: Entries, key: Key, from: nat)
    ensures
        find(seq![head] + tail, key, from + 1) == shifted(find(tail, key, from)),
    decreases tail.len() - from,
{
    let all = seq![head] + tail;
    if from < tail.len() {
        assert(all[from as int + 1] == tail[from as int]);
        lemma_find_behind(head, tail, key, from + 1);
    }
}

proof fn lemma_all_belong_behind(
    section: Section,
    head: (Seq<char>, ConfigValueView),
    tail: Entries,
    from: nat,
)
    ensures
        all_belong(section, seq![head] + tail, from + 1) == all_belong(section, tail, from),
    decreases tail.len() - from,
{
    let all = seq![head] + tail;
    if from < tail.len() {
        assert(all[from as int + 1] == tail[from as int]);
        lemma_all_belong_behind(section, head, tail, from + 1);
    }
}

/// What is known of a table that begins with the entry of one setting:
/// the setting is read back, the other keys are found where they are found
/// in the rest, and the table holds only keys that belong where the rest
/// does.
proof fn lemma_setting_in_front(
    section: Section,
    key: Key,
    setting: Option<ExpressionView>,
    rest: Entries,
    other: Key,
)
    requires
        plain_setting(setting),
        belongs(section, key),
        find(rest, key, 0).is_none(),
    ensures
        field(setting_entry(key, setting) + rest, key) == Ok::<
            Option<ExpressionView>,
            DecodeError,
        >(setting),
        other != key ==> field(setting_entry(key, setting) + rest, other) == field(rest, other),
        other != key ==> (find(setting_entry(key, setting) + rest, other, 0).is_none() <==> find(
            rest,
            other,
            0,
        ).is_none()),
        all_belong(section, setting_entry(key, setting) + rest, 0) == all_belong(
            section,
            rest,
            0,
        ),
{
    lemma_key_name_round_trip(key);
    match setting {
        Some(e) => {
            let head = (key.name(), encode(e));
            let all = seq![head] + rest;
            assert(setting_entry(key, setting) + rest =~= all);
            lemma_round_trip(e);
            lemma_find_behind(head, rest, other, 0);
            lemma_find_behind(head, rest, key, 0);
            lemma_all_belong_behind(section, head, rest, 0);
            assert(all[0] == head);
            if other != key {
                match find(rest, other, 0) {
                    Some(p) => {
                        crate::rule_codec::lemma_find_in_range(rest, other, 0);
                        assert(all[p + 1] == rest[p]);
                    },
                    None => {},
                }
            }
        },
        None => {
            assert(setting_entry(key, setting) + rest =~= rest);
        },
    }
}

proof fn lemma_find_in_range(entries: Entries, key: Key, from: nat)
    ensures
        find(entries, key, from) matches Some(p) ==> from <= p < entries.len(),
    decreases entries.len() - from,
{
    if from < entries.len() {
        lemma_find_in_range(entries, key, from + 1);
    }
}

proof fn lemma_find_in_setting(key: Key, setting: Option<ExpressionView>, other: Key)
    requires
        other != key,
    ensures
        find(setting_entry(key, setting), other, 0).is_none(),
        find(Seq::<(Seq<char>, ConfigValueView)>::empty(), other, 0).is_none(),
{
    lemma_key_name_round_trip(key);
    match setting {
        Some(e) => {
            let entries = setting_entry(key, setting);
            assert(find(entries, other, 1).is_none());
        },
        None => {},
    }
}

/// The settings of power supplies are read back as they were written.
pub proof fn lemma_power_round_trip(spec: PowerDeltaSpecView)
    requires
        plain_setting(spec.for_),
        plain_setting(spec.charge_threshold_start),
        plain_setting(spec.charge_threshold_end),
        plain_setting(spec.platform_profile),
    ensures
        decode_power_entries(encode_power(spec)) == Ok::<PowerDeltaSpecView, DecodeError>(spec),
{
    let none = Seq::<(Seq<char>, ConfigValueView)>::empty();
    let e3 = setting_entry(Key::PlatformProfile, spec.platform_profile);
    let e2 = setting_entry(Key::ChargeThresholdEnd, spec.charge_threshold_end) + e3;
    let e1 = setting_entry(Key::ChargeThresholdStart, spec.charge_threshold_start) + e2;
    let e0 = setting_entry(Key::For, spec.for_) + e1;
    assert(e3 + none =~= e3);
    assert(encode_power(spec) =~= e0);
    lemma_find_in_setting(Key::PlatformProfile, spec.platform_profile, Key::For);
    lemma_find_in_setting(Key::PlatformProfile, spec.platform_profile, Key::ChargeThresholdStart);
    lemma_find_in_setting(Key::PlatformProfile, spec.platform_profile, Key::ChargeThresholdEnd);
    lemma_setting_in_front(
        Section::Power,
        Key::PlatformProfile,
        spec.platform_profile,
        none,
        Key::For,
    );
    assert(field(e3, Key::PlatformProfile) == field(
        setting_entry(Key::PlatformProfile, spec.platform_profile) + none,
        Key::PlatformProfile,
    ));
    assert(all_belong(Section::Power, e3, 0));
    lemma_setting_in_front(
        Section::Power,
        Key::ChargeThresholdEnd,
        spec.charge_threshold_end,
        e3,
        Key::PlatformProfile,
    );
    lemma_setting_in_front(
        Section::Power,
        Key::ChargeThresholdEnd,
        spec.charge_threshold_end,
        e3,
        Key::For,
    );
    lemma_setting_in_front(
        Section::Power,
        Key::ChargeThresholdEnd,
        spec.charge_threshold_end,
        e3,
        Key::ChargeThresholdStart,
    );
    lemma_setting_in_front(
        Section::Power,
        Key::ChargeThresholdStart,
        spec.charge_threshold_start,
        e2,
        Key::PlatformProfile,
    );
    lemma_setting_in_front(
        Section::Power,
        Key::ChargeThresholdStart,
        spec.charge_threshold_start,
        e2,
        Key::ChargeThresholdEnd,
    );
    lemma_setting_in_front(
        Section::Power,
        Key::ChargeThresholdStart,
        spec.charge_threshold_start,
        e2,
        Key::For,
    );
    lemma_setting_in_front(Section::Power, Key::For, spec.for_, e1, Key::PlatformProfile);
    lemma_setting_in_front(Section::Power, Key::For, spec.for_, e1, Key::ChargeThresholdEnd);
    lemma_setting_in_front(Section::Power, Key::For, spec.for_, e1, Key::ChargeThresholdStart);
}

/// The key of setting `i` of the settings of CPUs.
pub open spec fn cpu_key_at(i: nat) -> Key {
    if i == 0 {
        Key::For
    } else if i == 1 {
        Key::Governor
    } else if i == 2 {
        Key::EnergyPerformancePreference
    } else if i == 3 {
        Key::EnergyPerfBias
    } else if i == 4 {
        Key::FrequencyMhzMinimum
    } else if i == 5 {
        Key::FrequencyMhzMaximum
    } else {
        Key::Turbo
    }
}

/// Setting `i` of the settings of CPUs.
pub open spec fn cpu_setting_at(spec: CpuDeltaSpecView, i: nat) -> Option<ExpressionView> {
    if i == 0 {
        spec.for_
    } else if i == 1 {
        spec.governor
    } else if i == 2 {
        spec.energy_performance_preference
    } else if i == 3 {
        spec.energy_performance_bias
    } else if i == 4 {
        spec.frequency_mhz_minimum
    } else if i == 5 {
        spec.frequency_mhz_maximum
    } else {
        spec.turbo
    }
}

/// The entries of the settings of CPUs from setting `from` on.
pub open spec fn cpu_entries_from(spec: CpuDeltaSpecView, from: nat) -> Entries
    decreases 7 - from,
{
    if from >= 7 {
        Seq::empty()
    } else {
        setting_entry(cpu_key_at(from), cpu_setting_at(spec, from)) + cpu_entries_from(
            spec,
            from + 1,
        )
    }
}

proof fn lemma_cpu_keys(i: nat, j: nat)
    requires
        i < 7,
        j < 7,
    ensures
        belongs(Section::Cpu, cpu_key_at(i)),
        i != j ==> cpu_key_at(i) != cpu_key_at(j),
{
}

/// What holds of the entries from setting `from` on: they hold only keys
/// that belong, a setting before `from` is not among them, and a setting
/// from `from` on is read back.
pub open spec fn cpu_entries_read(spec: CpuDeltaSpecView, from: nat) -> bool {
    let entries = cpu_entries_from(spec, from);
    &&& all_belong(Section::Cpu, entries, 0)
    &&& forall|i: nat|
        i < 7 && i < from ==> find(entries, #[trigger] cpu_key_at(i), 0).is_none()
    &&& forall|i: nat|
        from <= i < 7 ==> field(entries, #[trigger] cpu_key_at(i)) == Ok::<
            Option<ExpressionView>,
            DecodeError,
        >(cpu_setting_at(spec, i))
}

proof fn lemma_cpu_entries_step(spec: CpuDeltaSpecView, from: nat)
    requires
        from < 7,
        plain_setting(cpu_setting_at(spec, from)),
        cpu_entries_read(spec, from + 1),
    ensures
        cpu_entries_read(spec, from),
{
    let key = cpu_key_at(from);
    let setting = cpu_setting_at(spec, from);
    let rest = cpu_entries_from(spec, from + 1);
    let entries = cpu_entries_from(spec, from);
    assert(entries == setting_entry(key, setting) + rest);
    lemma_cpu_keys(from, from);
    assert(find(rest, cpu_key_at(from), 0).is_none());
    lemma_setting_in_front(Section::Cpu, key, setting, rest, key);
    assert forall|i: nat| i < 7 && i < from implies find(
        entries,
        #[trigger] cpu_key_at(i),
        0,
    ).is_none() by {
        lemma_cpu_keys(i, from);
        assert(find(rest, cpu_key_at(i), 0).is_none());
        lemma_setting_in_front(Section::Cpu, key, setting, rest, cpu_key_at(i));
    }
    assert forall|i: nat| from <= i < 7 implies field(entries, #[trigger] cpu_key_at(i)) == Ok::<
        Option<ExpressionView>,
        DecodeError,
    >(cpu_setting_at(spec, i)) by {
        lemma_cpu_keys(i, from);
        if i > from {
            assert(field(rest, cpu_key_at(i)) == Ok::<Option<ExpressionView>, DecodeError>(
                cpu_setting_at(spec, i),
            ));
            lemma_setting_in_front(Section::Cpu, key, setting, rest, cpu_key_at(i));
        }
    }
}

proof fn lemma_cpu_entries_none(spec: CpuDeltaSpecView)
    ensures
        cpu_entries_read(spec, 7),
{
    assert(cpu_entries_from(spec, 7) =~= Seq::<(Seq<char>, ConfigValueView)>::empty());
}

proof fn lemma_cpu_entries_all(spec: CpuDeltaSpecView)
    requires
        plain_setting(spec.for_),
        plain_setting(spec.governor),
        plain_setting(spec.energy_performance_preference),
        plain_setting(spec.energy_performance_bias),
        plain_setting(spec.frequency_mhz_minimum),
        plain_setting(spec.frequency_mhz_maximum),
        plain_setting(spec.turbo),
    ensures
        cpu_entries_read(spec, 0),
{
    lemma_cpu_entries_none(spec);
    lemma_cpu_entries_step(spec, 6);
    lemma_cpu_entries_step(spec, 5);
    lemma_cpu_entries_step(spec, 4);
    lemma_cpu_entries_step(spec, 3);
    lemma_cpu_entries_step(spec, 2);
    lemma_cpu_entries_step(spec, 1);
    lemma_cpu_entries_step(spec, 0);
}

proof fn lemma_cpu_field(spec: CpuDeltaSpecView, i: nat)
    requires
        i < 7,
        cpu_entries_read(spec, 0),
    ensures
        field(cpu_entries_from(spec, 0), cpu_key_at(i)) == Ok::<
            Option<ExpressionView>,
            DecodeError,
        >(cpu_setting_at(spec, i)),
{
}

/// The settings of CPUs are read back as they were written.
pub proof fn lemma_cpu_round_trip(spec: CpuDeltaSpecView)
    requires
        plain_setting(spec.for_),
        plain_setting(spec.governor),
        plain_setting(spec.energy_performance_preference),
        plain_setting(spec.energy_performance_bias),
        plain_setting(spec.frequency_mhz_minimum),
        plain_setting(spec.frequency_mhz_maximum),
        plain_setting(spec.turbo),
    ensures
        decode_cpu_entries(encode_cpu(spec)) == Ok::<CpuDeltaSpecView, DecodeError>(spec),
{
    lemma_cpu_entries_all(spec);
    lemma_cpu_field(spec, 0);
    lemma_cpu_field(spec, 1);
    lemma_cpu_field(spec, 2);
    lemma_cpu_field(spec, 3);
    lemma_cpu_field(spec, 4);
    lemma_cpu_field(spec, 5);
    lemma_cpu_field(spec, 6);
}

/// Round trip for rules: a rule without a string that names a sensor is
/// read back as it was written.
pub proof fn lemma_rule_round_trip(rule: RuleView)
    requires
        plain_rule(rule),
    ensures
        decode_rule(encode_rule(rule)) == Ok::<RuleView, DecodeError>(rule),
{
    lemma_key_name_round_trip(Key::Name);
    lemma_key_name_round_trip(Key::Priority);
    lemma_key_name_round_trip(Key::If);
    lemma_key_name_round_trip(Key::Cpu);
    lemma_key_name_round_trip(Key::Power);
    lemma_cpu_round_trip(rule.cpu);
    lemma_power_round_trip(rule.power);
    lemma_round_trip(rule.condition);
    let entries = seq![
        (Key::Name.name(), ConfigValueView::Text(rule.name)),
        (Key::Priority.name(), ConfigValueView::Integer(rule.priority as int)),
        (Key::If.name(), encode(rule.condition)),
        (Key::Cpu.name(), ConfigValueView::Table(encode_cpu(rule.cpu))),
        (Key::Power.name(), ConfigValueView::Table(encode_power(rule.power))),
    ];
    assert(all_belong(Section::Rule, entries, 5));
    assert(all_belong(Section::Rule, entries, 4));
    assert(all_belong(Section::Rule, entries, 3));
    assert(all_belong(Section::Rule, entries, 2));
    assert(all_belong(Section::Rule, entries, 1));
    assert(all_belong(Section::Rule, entries, 0));
    assert(find(entries, Key::Name, 0) == Some(0int));
    assert(find(entries, Key::Priority, 1) == Some(1int));
    assert(find(entries, Key::Priority, 0) == Some(1int));
    assert(find(entries, Key::If, 2) == Some(2int));
    assert(find(entries, Key::If, 1) == Some(2int));
    assert(find(entries, Key::If, 0) == Some(2int));
    assert(find(entries, Key::Cpu, 3) == Some(3int));
    assert(find(entries, Key::Cpu, 2) == Some(3int));
    assert(find(entries, Key::Cpu, 1) == Some(3int));
    assert(find(entries, Key::Cpu, 0) == Some(3int));
    assert(find(entries, Key::Power, 4) == Some(4int));
    assert(find(entries, Key::Power, 3) == Some(4int));
    assert(find(entries, Key::Power, 2) == Some(4int));
    assert(find(entries, Key::Power, 1) == Some(4int));
    assert(find(entries, Key::Power, 0) == Some(4int));
}

proof fn lemma_field_plain(entries: Entries, key: Key)
    ensures
        field(entries, key) matches Ok(setting) ==> plain_setting(setting),
{
    lemma_find_in_range(entries, key, 0);
    if let Some(i) = find(entries, key, 0) {
        lemma_decode_plain(entries[i].1);
    }
}

/// What is read as a rule holds no string that names a sensor.
pub proof fn lemma_decode_rule_plain(value: ConfigValueView)
    ensures
        decode_rule(value) matches Ok(rule) ==> plain_rule(rule),
{
    if let ConfigValueView::Table(entries) = value {
        lemma_field_plain(entries, Key::If);
        if let Some(ConfigValueView::Table(cpu)) = value_of(entries, Key::Cpu) {
            lemma_field_plain(cpu, Key::For);
            lemma_field_plain(cpu, Key::Governor);
            lemma_field_plain(cpu, Key::EnergyPerformancePreference);
            lemma_field_plain(cpu, Key::EnergyPerfBias);
            lemma_field_plain(cpu, Key::FrequencyMhzMinimum);
            lemma_field_plain(cpu, Key::FrequencyMhzMaximum);
            lemma_field_plain(cpu, Key::Turbo);
        }
        if let Some(ConfigValueView::Table(power)) = value_of(entries, Key::Power) {
            lemma_field_plain(power, Key::For);
            lemma_field_plain(power, Key::ChargeThresholdStart);
            lemma_field_plain(power, Key::ChargeThresholdEnd);
            lemma_field_plain(power, Key::PlatformProfile);
        }
    }
}

/// Round trip: a rule that was read from a document, written again and
/// read again, is the rule that was read first.
pub proof fn lemma_rule_read_written_read(value: ConfigValueView)
    ensures
        decode_rule(value) matches Ok(rule) ==> decode_rule(encode_rule(rule)) == Ok::<
            RuleView,
            DecodeError,
        >(rule),
{
    lemma_decode_rule_plain(value);
    if let Ok(rule) = decode_rule(value) {
        lemma_rule_round_trip(rule);
    }
}

/// The entries of the first `n` settings of CPUs.
pub open spec fn cpu_entries_upto(spec: CpuDeltaSpecView, n: nat) -> Entries
    decreases n,
{
    if n == 0 {
        Seq::empty()
    } else {
        cpu_entries_upto(spec, (n - 1) as nat) + setting_entry(
            cpu_key_at((n - 1) as nat),
            cpu_setting_at(spec, (n - 1) as nat),
        )
    }
}

proof fn lemma_cpu_entries_meet(spec: CpuDeltaSpecView, k: nat)
    requires
        k <= 7,
    ensures
        cpu_entries_upto(spec, k) + cpu_entries_from(spec, k) == cpu_entries_from(spec, 0),
    decreases k,
{
    if k == 0 {
        assert(cpu_entries_upto(spec, 0) + cpu_entries_from(spec, 0) =~= cpu_entries_from(spec, 0));
    } else {
        lemma_cpu_entries_meet(spec, (k - 1) as nat);
        let front = cpu_entries_upto(spec, (k - 1) as nat);
        let entry = setting_entry(cpu_key_at((k - 1) as nat), cpu_setting_at(spec, (k - 1) as nat));
        let rest = cpu_entries_from(spec, k);
        assert((front + entry) + rest =~= front + (entry + rest));
    }
}

fn push_setting(entries: &mut Vec<Entry>, key: Key, setting: &Option<Expression>)
    ensures
        entry_views(final(entries)@) == entry_views(old(entries)@) + setting_entry(
            key,
            optional_view(*setting),
        ),
{
    let ghost before = entry_views(entries@);
    match setting {
        Some(e) => {
            let value = e.encode();
            entries.push(Entry { key: String::from_str(key.as_str()), value });
            assert(entry_views(entries@) =~= before + seq![(key.name(), encode(e@))]);
        },
        None => {
            assert(entry_views(entries@) =~= before + Seq::<(Seq<char>, ConfigValueView)>::empty());
        },
    }
}

fn push_entry(entries: &mut Vec<Entry>, key: Key, value: ConfigValue)
    ensures
        entry_views(final(entries)@) == entry_views(old(entries)@).push((key.name(), value@)),
{
    let ghost before = entry_views(entries@);
    entries.push(Entry { key: String::from_str(key.as_str()), value });
    assert(entry_views(entries@) =~= before.push((key.name(), value@)));
}

impl CpuDeltaSpec {
    /// Writes the settings of CPUs as the table `cpu` of a rule.
    pub fn encode(&self) -> (r: ConfigValue)
        ensures
            r@ == ConfigValueView::Table(encode_cpu(self@)),
    {
        let mut entries: Vec<Entry> = Vec::new();
        assert(entry_views(entries@) =~= cpu_entries_upto(self@, 0));
        push_setting(&mut entries, Key::For, &self.for_);
        assert(entry_views(entries@) == cpu_entries_upto(self@, 1));
        push_setting(&mut entries, Key::Governor, &self.governor);
        assert(entry_views(entries@) == cpu_entries_upto(self@, 2));
        push_setting(
            &mut entries,
            Key::EnergyPerformancePreference,
            &self.energy_performance_preference,
        );
        assert(entry_views(entries@) == cpu_entries_upto(self@, 3));
        push_setting(&mut entries, Key::EnergyPerfBias, &self.energy_performance_bias);
        assert(entry_views(entries@) == cpu_entries_upto(self@, 4));
        push_setting(&mut entries, Key::FrequencyMhzMinimum, &self.frequency_mhz_minimum);
        assert(entry_views(entries@) == cpu_entries_upto(self@, 5));
        push_setting(&mut entries, Key::FrequencyMhzMaximum, &self.frequency_mhz_maximum);
        assert(entry_views(entries@) == cpu_entries_upto(self@, 6));
        push_setting(&mut entries, Key::Turbo, &self.turbo);
        assert(entry_views(entries@) == cpu_entries_upto(self@, 7));
        proof {
            lemma_cpu_entries_meet(self@, 7);
            assert(cpu_entries_from(self@, 7) =~= Seq::<(Seq<char>, ConfigValueView)>::empty());
            assert(cpu_entries_upto(self@, 7) + cpu_entries_from(self@, 7) =~= cpu_entries_upto(
                self@,
                7,
            ));
            lemma_table_value_view(entries);
        }
        ConfigValue::Table(entries)
    }
}

impl PowerDeltaSpec {
    /// Writes the settings of power supplies as the table `power` of a
    /// rule.
    pub fn encode(&self) -> (r: ConfigValue)
        ensures
            r@ == ConfigValueView::Table(encode_power(self@)),
    {
        let mut entries: Vec<Entry> = Vec::new();
        let ghost none = entry_views(entries@);
        push_setting(&mut entries, Key::For, &self.for_);
        assert(entry_views(entries@) =~= setting_entry(Key::For, self@.for_));
        push_setting(&mut entries, Key::ChargeThresholdStart, &self.charge_threshold_start);
        push_setting(&mut entries, Key::ChargeThresholdEnd, &self.charge_threshold_end);
        push_setting(&mut entries, Key::PlatformProfile, &self.platform_profile);
        proof {
            lemma_table_value_view(entries);
        }
        ConfigValue::Table(entries)
    }
}

impl Rule {
    /// Writes the rule as a value of a configuration document.
    pub fn encode(&self) -> (r: ConfigValue)
        ensures
            r@ == encode_rule(self@),
    {
        let mut entries: Vec<Entry> = Vec::new();
        assert(entry_views(entries@) =~= Seq::<(Seq<char>, ConfigValueView)>::empty());
        push_entry(&mut entries, Key::Name, ConfigValue::Text(self.name.clone()));
        push_entry(&mut entries, Key::Priority, ConfigValue::Integer(self.priority as i64));
        push_entry(&mut entries, Key::If, self.condition.encode());
        push_entry(&mut entries, Key::Cpu, self.cpu.encode());
        push_entry(&mut entries, Key::Power, self.power.encode());
        proof {
            lemma_table_value_view(entries);
            assert(entry_views(entries@) =~= seq![
                (Key::Name.name(), ConfigValueView::Text(self@.name)),
                (Key::Priority.name(), ConfigValueView::Integer(self@.priority as int)),
                (Key::If.name(), encode(self@.condition)),
                (Key::Cpu.name(), ConfigValueView::Table(encode_cpu(self@.cpu))),
                (Key::Power.name(), ConfigValueView::Table(encode_power(self@.power))),
            ]);
        }
        ConfigValue::Table(entries)
    }
}

} // verus!
