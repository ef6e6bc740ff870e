//! Configuration documents: trees of tables, lists and plain values, as a
//! configuration file holds them, and the keys that the rules are written
//! with.

use vstd::prelude::*;
use crate::number::Fixed;
use crate::text::str_eq;

verus! {

/// One entry of a table.
#[derive(Debug, PartialEq, Eq)]
pub struct Entry {
    pub key: String,
    pub value: ConfigValue,
}

/// A value of a configuration document.
#[derive(Debug, PartialEq, Eq)]
pub enum ConfigValue {
    Boolean(bool),
    Integer(i64),
    /// A number with a fraction.
    Number(Fixed),
    Text(String),
    List(Vec<ConfigValue>),
    /// The entries of a table, in the order of the document.
    Table(Vec<Entry>),
}

/// The mathematical content of a [`ConfigValue`].
pub enum ConfigValueView {
    Boolean(bool),
    Integer(int),
    Number(int),
    Text(Seq<char>),
    List(Seq<ConfigValueView>),
    Table(Seq<(Seq<char>, ConfigValueView)>),
}

impl View for ConfigValue {
    type V = ConfigValueView;

    open spec fn view(&self) -> ConfigValueView
        decreases self,
    {
        match self {
            ConfigValue::Boolean(b) => ConfigValueView::Boolean(*b),
            ConfigValue::Integer(i) => ConfigValueView::Integer(*i as int),
            ConfigValue::Number(n) => ConfigValueView::Number(n@),
            ConfigValue::Text(s) => ConfigValueView::Text(s@),
            ConfigValue::List(items) => ConfigValueView::List(
                Seq::new(
                    items@.len(),
                    |i: int|
                        if 0 <= i < items@.len() {
                            items@[i].view()
                        } else {
                            ConfigValueView::Boolean(false)
                        },
                ),
            ),
            ConfigValue::Table(entries) => ConfigValueView::Table(
                Seq::new(entries@.len(), |i: int| entries@[i].key@).zip_with(
                    Seq::new(
                        entries@.len(),
                        |i: int|
                            if 0 <= i < entries@.len() {
                                entries@[i].value.view()
                            } else {
                                ConfigValueView::Boolean(false)
                            },
                    ),
                ),
            ),
        }
    }
}

/// The views of `items`, in order.
pub open spec fn item_views(items: Seq<ConfigValue>) -> Seq<ConfigValueView> {
    Seq::new(items.len(), |i: int| items[i]@)
}

/// The views of `entries`, in order.
pub open spec fn entry_views(entries: Seq<Entry>) -> Seq<(Seq<char>, ConfigValueView)> {
    Seq::new(entries.len(), |i: int| (entries[i].key@, entries[i].value@))
}

/// The view of a list is the list of the views.
pub proof fn lemma_list_value_view(items: Vec<ConfigValue>)
    ensures
        ConfigValue::List(items)@ == ConfigValueView::List(item_views(items@)),
{
    assert(ConfigValue::List(items)@ matches ConfigValueView::List(vs) && vs =~= item_views(
        items@,
    ));
}

/// The view of a table is the list of the views of its entries.
pub proof fn lemma_table_value_view(entries: Vec<Entry>)
    ensures
        ConfigValue::Table(entries)@ == ConfigValueView::Table(entry_views(entries@)),
{
    match ConfigValue::Table(entries)@ {
        ConfigValueView::Table(es) => {
            assert(es.len() == entries@.len());
            assert forall|i: int| 0 <= i < es.len() implies es[i] == entry_views(entries@)[i] by {
                assert(es[i] == (entries@[i].key@, entries@[i].value@));
            }
            assert(es =~= entry_views(entries@));
        },
        _ => {
            assert(false);
        },
    }
}

/// A key that the rules are written with.
#[derive(Clone, Copy, Debug, PartialEq, Eq, Structural)]
pub enum Key {
    Value,
    Plus,
    Minus,
    Multiply,
    Divide,
    Power,
    IsLessThan,
    IsMoreThan,
    And,
    Or,
    IsEqual,
    Leeway,
    Minimum,
    Maximum,
    Not,
    IsUnset,
    All,
    Any,
    If,
    Then,
    Else,
    CpuUsageSince,
    IsGovernorAvailable,
    IsEnergyPerformancePreferenceAvailable,
    IsEnergyPerfBiasAvailable,
    IsPlatformProfileAvailable,
    IsDriverLoaded,
    Rule,
    Name,
    Priority,
    Cpu,
    For,
    Governor,
    EnergyPerformancePreference,
    EnergyPerfBias,
    FrequencyMhzMinimum,
    FrequencyMhzMaximum,
    Turbo,
    ChargeThresholdStart,
    ChargeThresholdEnd,
    PlatformProfile,
}

impl Key {
    /// The key as it is written.
    pub open spec fn name(self) -> Seq<char> {
        match self {
            Key::Value => "value"@,
            Key::Plus => "plus"@,
            Key::Minus => "minus"@,
            Key::Multiply => "multiply"@,
            Key::Divide => "divide"@,
            Key::Power => "power"@,
            Key::IsLessThan => "is-less-than"@,
            Key::IsMoreThan => "is-more-than"@,
            Key::And => "and"@,
            Key::Or => "or"@,
            Key::IsEqual => "is-equal"@,
            Key::Leeway => "leeway"@,
            Key::Minimum => "minimum"@,
            Key::Maximum => "maximum"@,
            Key::Not => "not"@,
            Key::IsUnset => "is-unset"@,
            Key::All => "all"@,
            Key::Any => "any"@,
            Key::If => "if"@,
            Key::Then => "then"@,
            Key::Else => "else"@,
            Key::CpuUsageSince => "cpu-usage-since"@,
            Key::IsGovernorAvailable => "is-governor-available"@,
            Key::IsEnergyPerformancePreferenceAvailable => "is-energy-performance-preference-available"@,
            Key::IsEnergyPerfBiasAvailable => "is-energy-perf-bias-available"@,
            Key::IsPlatformProfileAvailable => "is-platform-profile-available"@,
            Key::IsDriverLoaded => "is-driver-loaded"@,
            Key::Rule => "rule"@,
            Key::Name => "name"@,
            Key::Priority => "priority"@,
            Key::Cpu => "cpu"@,
            Key::For => "for"@,
            Key::Governor => "governor"@,
            Key::EnergyPerformancePreference => "energy-performance-preference"@,
            Key::EnergyPerfBias => "energy-perf-bias"@,
            Key::FrequencyMhzMinimum => "frequency-mhz-minimum"@,
            Key::FrequencyMhzMaximum => "frequency-mhz-maximum"@,
            Key::Turbo => "turbo"@,
            Key::ChargeThresholdStart => "charge-threshold-start"@,
            Key::ChargeThresholdEnd => "charge-threshold-end"@,
            Key::PlatformProfile => "platform-profile"@,
        }
    }

    /// Every key, in the order in which names are tried.
    pub open spec fn every() -> Seq<Key> {
        seq![
            Key::Value,
            Key::Plus,
            Key::Minus,
            Key::Multiply,
            Key::Divide,
            Key::Power,
            Key::IsLessThan,
            Key::IsMoreThan,
            Key::And,
            Key::Or,
            Key::IsEqual,
            Key::Leeway,
            Key::Minimum,
            Key::Maximum,
            Key::Not,
            Key::IsUnset,
            Key::All,
            Key::Any,
            Key::If,
            Key::Then,
            Key::Else,
            Key::CpuUsageSince,
            Key::IsGovernorAvailable,
            Key::IsEnergyPerformancePreferenceAvailable,
            Key::IsEnergyPerfBiasAvailable,
            Key::IsPlatformProfileAvailable,
            Key::IsDriverLoaded,
            Key::Rule,
            Key::Name,
            Key::Priority,
            Key::Cpu,
            Key::For,
            Key::Governor,
            Key::EnergyPerformancePreference,
            Key::EnergyPerfBias,
            Key::FrequencyMhzMinimum,
            Key::FrequencyMhzMaximum,
            Key::Turbo,
            Key::ChargeThresholdStart,
            Key::ChargeThresholdEnd,
            Key::PlatformProfile,
        ]
    }

    /// The first key, from position `from` of [`Key::every`] on, that is
    /// written `name`.
    pub open spec fn named_from(name: Seq<char>, from: nat) -> Option<Key>
        decreases Key::every().len() - from,
    {
        if from >= Key::every().len() {
            None
        } else if Key::every()[from as int].name() == name {
            Some(Key::every()[from as int])
        } else {
            Key::named_from(name, from + 1)
        }
    }

    /// The key that is written `name`, if there is one.
    pub open spec fn named(name: Seq<char>) -> Option<Key> {
        Key::named_from(name, 0)
    }

    /// The key as it is written.
    pub fn as_str(&self) -> (r: &'static str)
        ensures
            r@ == self.name(),
    {
        match self {
            Key::Value => "value",
            Key::Plus => "plus",
            Key::Minus => "minus",
            Key::Multiply => "multiply",
            Key::Divide => "divide",
            Key::Power => "power",
            Key::IsLessThan => "is-less-than",
            Key::IsMoreThan => "is-more-than",
            Key::And => "and",
            Key::Or => "or",
            Key::IsEqual => "is-equal",
            Key::Leeway => "leeway",
            Key::Minimum => "minimum",
            Key::Maximum => "maximum",
            Key::Not => "not",
            Key::IsUnset => "is-unset",
            Key::All => "all",
            Key::Any => "any",
            Key::If => "if",
            Key::Then => "then",
            Key::Else => "else",
            Key::CpuUsageSince => "cpu-usage-since",
            Key::IsGovernorAvailable => "is-governor-available",
            Key::IsEnergyPerformancePreferenceAvailable => "is-energy-performance-preference-available",
            Key::IsEnergyPerfBiasAvailable => "is-energy-perf-bias-available",
            Key::IsPlatformProfileAvailable => "is-platform-profile-available",
            Key::IsDriverLoaded => "is-driver-loaded",
            Key::Rule => "rule",
            Key::Name => "name",
            Key::Priority => "priority",
            Key::Cpu => "cpu",
            Key::For => "for",
            Key::Governor => "governor",
            Key::EnergyPerformancePreference => "energy-performance-preference",
            Key::EnergyPerfBias => "energy-perf-bias",
            Key::FrequencyMhzMinimum => "frequency-mhz-minimum",
            Key::FrequencyMhzMaximum => "frequency-mhz-maximum",
            Key::Turbo => "turbo",
            Key::ChargeThresholdStart => "charge-threshold-start",
            Key::ChargeThresholdEnd => "charge-threshold-end",
            Key::PlatformProfile => "platform-profile",
        }
    }

    /// Every key, in the order in which names are tried.
    pub fn all() -> (r: [Key; 41])
        ensures
            r@ == Key::every(),
    {
        let r = [
            Key::Value,
            Key::Plus,
            Key::Minus,
            Key::Multiply,
            Key::Divide,
            Key::Power,
            Key::IsLessThan,
            Key::IsMoreThan,
            Key::And,
            Key::Or,
            Key::IsEqual,
            Key::Leeway,
            Key::Minimum,
            Key::Maximum,
            Key::Not,
            Key::IsUnset,
            Key::All,
            Key::Any,
            Key::If,
            Key::Then,
            Key::Else,
            Key::CpuUsageSince,
            Key::IsGovernorAvailable,
            Key::IsEnergyPerformancePreferenceAvailable,
            Key::IsEnergyPerfBiasAvailable,
            Key::IsPlatformProfileAvailable,
            Key::IsDriverLoaded,
            Key::Rule,
            Key::Name,
            Key::Priority,
            Key::Cpu,
            Key::For,
            Key::Governor,
            Key::EnergyPerformancePreference,
            Key::EnergyPerfBias,
            Key::FrequencyMhzMinimum,
            Key::FrequencyMhzMaximum,
            Key::Turbo,
            Key::ChargeThresholdStart,
            Key::ChargeThresholdEnd,
            Key::PlatformProfile,
        ];
        assert(r@ =~= Key::every());
        r
    }

    /// The key that is written `value`, if there is one.
    pub fn from_str(value: &str) -> (r: Option<Key>)
        ensures
            r == Key::named(value@),
    {
        let all = Key::all();
        let mut i: usize = 0;
        while i < 41
            invariant
                i <= 41,
                all@ == Key::every(),
                Key::every().len() == 41,
                Key::named(value@) == Key::named_from(value@, i as nat),
            decreases 41 - i,
        {
            if str_eq(all[i].as_str(), value) {
                return Some(all[i]);
            }
            i += 1;
        }
        None
    }
}

/// The position of a key in [`Key::every`].
pub open spec fn key_position(key: Key) -> nat {
    match key {
        Key::Value => 0,
        Key::Plus => 1,
        Key::Minus => 2,
        Key::Multiply => 3,
        Key::Divide => 4,
        Key::Power => 5,
        Key::IsLessThan => 6,
        Key::IsMoreThan => 7,
        Key::And => 8,
        Key::Or => 9,
        Key::IsEqual => 10,
        Key::Leeway => 11,
        Key::Minimum => 12,
        Key::Maximum => 13,
        Key::Not => 14,
        Key::IsUnset => 15,
        Key::All => 16,
        Key::Any => 17,
        Key::If => 18,
        Key::Then => 19,
        Key::Else => 20,
        Key::CpuUsageSince => 21,
        Key::IsGovernorAvailable => 22,
        Key::IsEnergyPerformancePreferenceAvailable => 23,
        Key::IsEnergyPerfBiasAvailable => 24,
        Key::IsPlatformProfileAvailable => 25,
        Key::IsDriverLoaded => 26,
        Key::Rule => 27,
        Key::Name => 28,
        Key::Priority => 29,
        Key::Cpu => 30,
        Key::For => 31,
        Key::Governor => 32,
        Key::EnergyPerformancePreference => 33,
        Key::EnergyPerfBias => 34,
        Key::FrequencyMhzMinimum => 35,
        Key::FrequencyMhzMaximum => 36,
        Key::Turbo => 37,
        Key::ChargeThresholdStart => 38,
        Key::ChargeThresholdEnd => 39,
        Key::PlatformProfile => 40,
    }
}

/// The length of a name and four of its characters, a blank standing for
/// one that the name is too short to have. No two keys agree in all five.
pub open spec fn key_fingerprint(name: Seq<char>) -> (nat, char, char, char, char) {
    (
        name.len(),
        name[0],
        if name.len() > 2 {
            name[2]
        } else {
            ' '
        },
        if name.len() > 3 {
            name[3]
        } else {
            ' '
        },
        if name.len() > 15 {
            name[15]
        } else {
            ' '
        },
    )
}

proof fn lemma_key_fingerprint(key: Key)
    ensures
        key_fingerprint(key.name()) == match key {
            Key::Value => (5nat, 'v', 'l', 'u', ' '),
            Key::Plus => (4nat, 'p', 'u', 's', ' '),
            Key::Minus => (5nat, 'm', 'n', 'u', ' '),
            Key::Multiply => (8nat, 'm', 'l', 't', ' '),
            Key::Divide => (6nat, 'd', 'v', 'i', ' '),
            Key::Power => (5nat, 'p', 'w', 'e', ' '),
            Key::IsLessThan => (12nat, 'i', '-', 'l', ' '),
            Key::IsMoreThan => (12nat, 'i', '-', 'm', ' '),
            Key::And => (3nat, 'a', 'd', ' ', ' '),
            Key::Or => (2nat, 'o', ' ', ' ', ' '),
            Key::IsEqual => (8nat, 'i', '-', 'e', ' '),
            Key::Leeway => (6nat, 'l', 'e', 'w', ' '),
            Key::Minimum => (7nat, 'm', 'n', 'i', ' '),
            Key::Maximum => (7nat, 'm', 'x', 'i', ' '),
            Key::Not => (3nat, 'n', 't', ' ', ' '),
            Key::IsUnset => (8nat, 'i', '-', 'u', ' '),
            Key::All => (3nat, 'a', 'l', ' ', ' '),
            Key::Any => (3nat, 'a', 'y', ' ', ' '),
            Key::If => (2nat, 'i', ' ', ' ', ' '),
            Key::Then => (4nat, 't', 'e', 'n', ' '),
            Key::Else => (4nat, 'e', 's', 'e', ' '),
            Key::CpuUsageSince => (15nat, 'c', 'u', '-', ' '),
            Key::IsGovernorAvailable => (21nat, 'i', '-', 'g', 'i'),
            Key::IsEnergyPerformancePreferenceAvailable => (42nat, 'i', '-', 'e', 'r'),
            Key::IsEnergyPerfBiasAvailable => (29nat, 'i', '-', 'e', 'b'),
            Key::IsPlatformProfileAvailable => (29nat, 'i', '-', 'p', 'f'),
            Key::IsDriverLoaded => (16nat, 'i', '-', 'd', 'd'),
            Key::Rule => (4nat, 'r', 'l', 'e', ' '),
            Key::Name => (4nat, 'n', 'm', 'e', ' '),
            Key::Priority => (8nat, 'p', 'i', 'o', ' '),
            Key::Cpu => (3nat, 'c', 'u', ' ', ' '),
            Key::For => (3nat, 'f', 'r', ' ', ' '),
            Key::Governor => (8nat, 'g', 'v', 'e', ' '),
            Key::EnergyPerformancePreference => (29nat, 'e', 'e', 'r', 'n'),
            Key::EnergyPerfBias => (16nat, 'e', 'e', 'r', 's'),
            Key::FrequencyMhzMinimum => (21nat, 'f', 'e', 'q', 'i'),
            Key::FrequencyMhzMaximum => (21nat, 'f', 'e', 'q', 'a'),
            Key::Turbo => (5nat, 't', 'r', 'b', ' '),
            Key::ChargeThresholdStart => (22nat, 'c', 'a', 'r', 'd'),
            Key::ChargeThresholdEnd => (20nat, 'c', 'a', 'r', 'd'),
            Key::PlatformProfile => (16nat, 'p', 'a', 't', 'e'),
        },
{
    reveal_strlit("value");
    reveal_strlit("plus");
    reveal_strlit("minus");
    reveal_strlit("multiply");
    reveal_strlit("divide");
    reveal_strlit("power");
    reveal_strlit("is-less-than");
    reveal_strlit("is-more-than");
    reveal_strlit("and");
    reveal_strlit("or");
    reveal_strlit("is-equal");
    reveal_strlit("leeway");
    reveal_strlit("minimum");
    reveal_strlit("maximum");
    reveal_strlit("not");
    reveal_strlit("is-unset");
    reveal_strlit("all");
    reveal_strlit("any");
    reveal_strlit("if");
    reveal_strlit("then");
    reveal_strlit("else");
    reveal_strlit("cpu-usage-since");
    reveal_strlit("is-governor-available");
    reveal_strlit("is-energy-performance-preference-available");
    reveal_strlit("is-energy-perf-bias-available");
    reveal_strlit("is-platform-profile-available");
    reveal_strlit("is-driver-loaded");
    reveal_strlit("rule");
    reveal_strlit("name");
    reveal_strlit("priority");
    reveal_strlit("cpu");
    reveal_strlit("for");
    reveal_strlit("governor");
    reveal_strlit("energy-performance-preference");
    reveal_strlit("energy-perf-bias");
    reveal_strlit("frequency-mhz-minimum");
    reveal_strlit("frequency-mhz-maximum");
    reveal_strlit("turbo");
    reveal_strlit("charge-threshold-start");
    reveal_strlit("charge-threshold-end");
    reveal_strlit("platform-profile");
}

/// Two keys are written differently.
pub proof fn lemma_key_names_differ(a: Key, b: Key)
    requires
        a != b,
    ensures
        a.name() != b.name(),
{
    lemma_key_fingerprint(a);
    lemma_key_fingerprint(b);
}

proof fn lemma_key_named_from(key: Key, from: nat)
    requires
        from <= key_position(key),
    ensures
        Key::named_from(key.name(), from) == Some(key),
    decreases key_position(key) - from,
{
    assert(Key::every()[key_position(key) as int] == key);
    if from < key_position(key) {
        lemma_key_names_differ(Key::every()[from as int], key);
        lemma_key_named_from(key, from + 1);
    }
}

/// A key is found again by the way it is written.
pub proof fn lemma_key_name_round_trip(key: Key)
    ensures
        Key::named(key.name()) == Some(key),
{
    lemma_key_named_from(key, 0);
}

} // verus!
