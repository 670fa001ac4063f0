//! Power profiles that can be combined and switched at run time: memory
//! saver, power save and always-on are independent flags; "normal" is the
//! state in which none of them is set.
//!
//! The numeric effect of a combination is given as exact fractions:
//! - polling interval: always-on wins over power save (x1/5); power save
//!   alone triples it (x3); otherwise unchanged;
//! - memory cache limit: memory saver alone decides (x1/4), independently
//!   of the other two flags.

use vstd::prelude::*;
use crate::text::str_eq;

verus! {

/// One combinable profile flag. "Normal" is not a flag.
#[derive(Debug, Clone, Copy, PartialEq, Eq, Hash, Structural)]
pub enum PowerProfileFlag {
    MemorySaver,
    PowerSave,
    AlwaysOn,
}

/// The wire name of a flag.
pub open spec fn pref_value_spec(f: PowerProfileFlag) -> Seq<char> {
    match f {
        PowerProfileFlag::MemorySaver => "memory_saver"@,
        PowerProfileFlag::PowerSave => "power_save"@,
        PowerProfileFlag::AlwaysOn => "always_on"@,
    }
}

/// The display label of a flag.
pub open spec fn label_spec(f: PowerProfileFlag) -> Seq<char> {
    match f {
        PowerProfileFlag::MemorySaver => "省メモリ"@,
        PowerProfileFlag::PowerSave => "省電力"@,
        PowerProfileFlag::AlwaysOn => "常時電源接続"@,
    }
}

/// The flag a wire name stands for.
pub open spec fn from_pref_value_spec(s: Seq<char>) -> Option<PowerProfileFlag> {
    if s == "memory_saver"@ {
        Some(PowerProfileFlag::MemorySaver)
    } else if s == "power_save"@ {
        Some(PowerProfileFlag::PowerSave)
    } else if s == "always_on"@ {
        Some(PowerProfileFlag::AlwaysOn)
    } else {
        None
    }
}

impl PowerProfileFlag {
    /// The wire name (`memory_saver`, `power_save`, `always_on`).
    pub fn pref_value(&self) -> (r: &'static str)
        ensures
            r@ == pref_value_spec(*self),
    {
        match self {
            PowerProfileFlag::MemorySaver => "memory_saver",
            PowerProfileFlag::PowerSave => "power_save",
            PowerProfileFlag::AlwaysOn => "always_on",
        }
    }

    /// The display label.
    pub fn label(&self) -> (r: &'static str)
        ensures
            r@ == label_spec(*self),
    {
        match self {
            PowerProfileFlag::MemorySaver => "省メモリ",
            PowerProfileFlag::PowerSave => "省電力",
            PowerProfileFlag::AlwaysOn => "常時電源接続",
        }
    }

    /// The flag named `value`; `None` for anything else, `"normal"`
    /// included.
    pub fn from_pref_value(value: &str) -> (r: Option<Self>)
        ensures
            r == from_pref_value_spec(value@),
    {
        if str_eq(value, "memory_saver") {
            Some(PowerProfileFlag::MemorySaver)
        } else if str_eq(value, "power_save") {
            Some(PowerProfileFlag::PowerSave)
        } else if str_eq(value, "always_on") {
            Some(PowerProfileFlag::AlwaysOn)
        } else {
            None
        }
    }
}

/// The current combination. All flags clear is "normal".
#[derive(Debug, Clone, Copy, PartialEq, Eq, Structural)]
pub struct PowerProfileFlags {
    pub memory_saver: bool,
    pub power_save: bool,
    pub always_on: bool,
}

impl Default for PowerProfileFlags {
    /// No flag set ("normal").
    fn default() -> (r: Self)
        ensures
            r == normal_flags(),
    {
        PowerProfileFlags { memory_saver: false, power_save: false, always_on: false }
    }
}

/// The "normal" combination: no flag set.
pub open spec fn normal_flags() -> PowerProfileFlags {
    PowerProfileFlags { memory_saver: false, power_save: false, always_on: false }
}

/// `flags` with `f` set.
pub open spec fn with_flag(flags: PowerProfileFlags, f: PowerProfileFlag) -> PowerProfileFlags {
    match f {
        PowerProfileFlag::MemorySaver => PowerProfileFlags { memory_saver: true, ..flags },
        PowerProfileFlag::PowerSave => PowerProfileFlags { power_save: true, ..flags },
        PowerProfileFlag::AlwaysOn => PowerProfileFlags { always_on: true, ..flags },
    }
}

/// Reading a list of wire names from position `i` on, starting from
/// `flags`: `"normal"` is skipped, a known name sets its flag, and the first
/// unknown name is the error.
pub open spec fn from_pref_values_from(
    values: Seq<Seq<char>>,
    i: int,
    flags: PowerProfileFlags,
) -> Result<PowerProfileFlags, Seq<char>>
    decreases values.len() - i,
{
    if i < 0 || i >= values.len() {
        Ok(flags)
    } else if values[i] == "normal"@ {
        from_pref_values_from(values, i + 1, flags)
    } else {
        match from_pref_value_spec(values[i]) {
            Some(f) => from_pref_values_from(values, i + 1, with_flag(flags, f)),
            None => Err(values[i]),
        }
    }
}

/// The combination a list of wire names selects.
pub open spec fn from_pref_values_spec(values: Seq<Seq<char>>) -> Result<PowerProfileFlags, Seq<char>> {
    from_pref_values_from(values, 0, normal_flags())
}

/// The wire names of the set flags, in the fixed order memory saver,
/// power save, always-on.
pub open spec fn active_pref_values_spec(flags: PowerProfileFlags) -> Seq<Seq<char>> {
    (if flags.memory_saver {
        seq!["memory_saver"@]
    } else {
        seq![]
    }) + (if flags.power_save {
        seq!["power_save"@]
    } else {
        seq![]
    }) + (if flags.always_on {
        seq!["always_on"@]
    } else {
        seq![]
    })
}

/// The labels of the set flags in the same order, or `["通常"]` when none
/// is set.
pub open spec fn active_labels_spec(flags: PowerProfileFlags) -> Seq<Seq<char>> {
    let l = (if flags.memory_saver {
        seq!["省メモリ"@]
    } else {
        seq![]
    }) + (if flags.power_save {
        seq!["省電力"@]
    } else {
        seq![]
    }) + (if flags.always_on {
        seq!["常時電源接続"@]
    } else {
        seq![]
    });
    if l.len() == 0 {
        seq!["通常"@]
    } else {
        l
    }
}

/// The models of a list of borrowed strings.
pub open spec fn strs_view(v: Seq<&str>) -> Seq<Seq<char>> {
    v.map_values(|s: &str| s@)
}

impl PowerProfileFlags {
    /// The combination a list of wire names selects. An empty list is
    /// "normal"; `"normal"` entries are ignored; the first unknown entry is
    /// returned as the error.
    pub fn from_pref_values(values: &[&str]) -> (r: Result<Self, String>)
        ensures
            match r {
                Ok(f) => from_pref_values_spec(strs_view(values@)) == Ok::<PowerProfileFlags, Seq<char>>(f),
                Err(e) => from_pref_values_spec(strs_view(values@)) == Err::<PowerProfileFlags, Seq<char>>(e@),
            },
    {
        let ghost vs = strs_view(values@);
        let mut flags = PowerProfileFlags { memory_saver: false, power_save: false, always_on: false };
        let mut i: usize = 0;
        while i < values.len()
            invariant
                i <= values.len(),
                vs == strs_view(values@),
                from_pref_values_spec(vs) == from_pref_values_from(vs, i as int, flags),
            decreases values.len() - i,
        {
            let v = values[i];
            assert(vs[i as int] == v@);
            if str_eq(v, "normal") {
                i += 1;
                continue;
            }
            match PowerProfileFlag::from_pref_value(v) {
                Some(PowerProfileFlag::MemorySaver) => flags.memory_saver = true,
                Some(PowerProfileFlag::PowerSave) => flags.power_save = true,
                Some(PowerProfileFlag::AlwaysOn) => flags.always_on = true,
                None => return Err(crate::text::owned(v)),
            }
            i += 1;
        }
        Ok(flags)
    }

    /// The wire names of the set flags, in a fixed order.
    pub fn active_pref_values(&self) -> (r: Vec<&'static str>)
        ensures
            strs_view(r@) == active_pref_values_spec(*self),
    {
        let mut out: Vec<&'static str> = Vec::new();
        if self.memory_saver {
            out.push(PowerProfileFlag::MemorySaver.pref_value());
        }
        if self.power_save {
            out.push(PowerProfileFlag::PowerSave.pref_value());
        }
        if self.always_on {
            out.push(PowerProfileFlag::AlwaysOn.pref_value());
        }
        proof {
            assert(strs_view(out@) =~= active_pref_values_spec(*self));
        }
        out
    }

    /// The labels of the set flags, or `["通常"]` when none is set.
    pub fn active_labels(&self) -> (r: Vec<&'static str>)
        ensures
            strs_view(r@) == active_labels_spec(*self),
    {
        let mut out: Vec<&'static str> = Vec::new();
        if self.memory_saver {
            out.push(PowerProfileFlag::MemorySaver.label());
        }
        if self.power_save {
            out.push(PowerProfileFlag::PowerSave.label());
        }
        if self.always_on {
            out.push(PowerProfileFlag::AlwaysOn.label());
        }
        let ghost l = strs_view(out@);
        if out.len() == 0 {
            out.push("通常");
        }
        proof {
            assert(strs_view(out@) =~= active_labels_spec(*self));
        }
        out
    }

    /// Whether no flag is set.
    pub fn is_normal(&self) -> (r: bool)
        ensures
            r == (*self == normal_flags()),
    {
        !self.memory_saver && !self.power_save && !self.always_on
    }
}

/// A non-negative fraction `num / den`.
#[derive(Debug, Clone, Copy, PartialEq, Eq, Structural)]
pub struct Ratio {
    pub num: u64,
    pub den: u64,
}

/// The numeric effect of a combination.
#[derive(Debug, Clone, Copy, PartialEq, Eq, Structural)]
pub struct EffectivePowerSettings {
    /// Factor applied to the base polling interval.
    pub poll_interval_multiplier: Ratio,
    /// Factor applied to memory caches (1 = no limit).
    pub memory_cache_limit_factor: Ratio,
}

/// The polling interval factor of a combination.
pub open spec fn poll_factor_spec(flags: PowerProfileFlags) -> Ratio {
    if flags.always_on {
        Ratio { num: 1, den: 5 }
    } else if flags.power_save {
        Ratio { num: 3, den: 1 }
    } else {
        Ratio { num: 1, den: 1 }
    }
}

/// The memory cache factor of a combination.
pub open spec fn memory_factor_spec(flags: PowerProfileFlags) -> Ratio {
    if flags.memory_saver {
        Ratio { num: 1, den: 4 }
    } else {
        Ratio { num: 1, den: 1 }
    }
}

/// The numeric effect of a combination: always-on wins the polling axis
/// over power save, and memory saver acts on its own axis only.
pub fn effective_settings(flags: PowerProfileFlags) -> (r: EffectivePowerSettings)
    ensures
        r.poll_interval_multiplier == poll_factor_spec(flags),
        r.memory_cache_limit_factor == memory_factor_spec(flags),
{
    let poll_interval_multiplier = if flags.always_on {
        Ratio { num: 1, den: 5 }
    } else if flags.power_save {
        Ratio { num: 3, den: 1 }
    } else {
        Ratio { num: 1, den: 1 }
    };
    let memory_cache_limit_factor = if flags.memory_saver {
        Ratio { num: 1, den: 4 }
    } else {
        Ratio { num: 1, den: 1 }
    };
    EffectivePowerSettings { poll_interval_multiplier, memory_cache_limit_factor }
}

/// The current combination, read anew by every polling iteration.
#[derive(Debug)]
pub struct PowerProfileRegistry {
    current: PowerProfileFlags,
}

impl View for PowerProfileRegistry {
    type V = PowerProfileFlags;

    closed spec fn view(&self) -> PowerProfileFlags {
        self.current
    }
}

impl PowerProfileRegistry {
    /// A registry in the "normal" state.
    pub fn new() -> (r: Self)
        ensures
            r@ == normal_flags(),
    {
        PowerProfileRegistry { current: PowerProfileFlags { memory_saver: false, power_save: false, always_on: false } }
    }

    /// The current combination.
    pub fn get(&self) -> (r: PowerProfileFlags)
        ensures
            r == self@,
    {
        self.current
    }

    /// Replaces the combination; the next `get` sees it.
    pub fn set(&mut self, flags: PowerProfileFlags)
        ensures
            final(self)@ == flags,
    {
        self.current = flags;
    }
}

/// The polling interval factor in force for a registry.
pub fn poll_interval_factor(registry: &PowerProfileRegistry) -> (r: Ratio)
    ensures
        r == poll_factor_spec(registry@),
{
    effective_settings(registry.get()).poll_interval_multiplier
}

/// The polling interval in force for a registry, from a base interval in
/// nanoseconds: the base times the exact factor, rounded down to the
/// nanosecond.
pub fn effective_poll_interval(registry: &PowerProfileRegistry, base_nanos: u64) -> (r: u128)
    ensures
        r == (base_nanos as int * poll_factor_spec(registry@).num as int) / poll_factor_spec(
            registry@,
        ).den as int,
{
    let f = poll_interval_factor(registry);
    let prod: u128 = (base_nanos as u128) * (f.num as u128);
    assert(prod == base_nanos as int * f.num as int) by (nonlinear_arith)
        requires
            prod == (base_nanos as u128) * (f.num as u128),
    ;
    prod / (f.den as u128)
}

// ---------------------------------------------------------------------------
// Laws
// ---------------------------------------------------------------------------

/// The wire names have pairwise different lengths, so they are distinct.
proof fn lemma_wire_name_lengths()
    ensures
        "memory_saver"@.len() == 12,
        "power_save"@.len() == 10,
        "always_on"@.len() == 9,
        "normal"@.len() == 6,
{
    reveal_strlit("memory_saver");
    reveal_strlit("power_save");
    reveal_strlit("always_on");
    reveal_strlit("normal");
}

/// Every flag is read back from its own wire name.
pub proof fn law_pref_value_round_trip(f: PowerProfileFlag)
    ensures
        from_pref_value_spec(pref_value_spec(f)) == Some(f),
{
    lemma_wire_name_lengths();
}

/// `"normal"` names no flag.
pub proof fn law_normal_is_not_a_flag()
    ensures
        from_pref_value_spec("normal"@) is None,
{
    lemma_wire_name_lengths();
}

/// Reading back the wire names of the set flags gives the same
/// combination.
pub proof fn law_active_pref_values_round_trip(flags: PowerProfileFlags)
    ensures
        from_pref_values_spec(active_pref_values_spec(flags)) == Ok::<PowerProfileFlags, Seq<char>>(flags),
{
    lemma_wire_name_lengths();
    let vs = active_pref_values_spec(flags);
    reveal_with_fuel(from_pref_values_from, 4);
    if flags.memory_saver {
        if flags.power_save {
            if flags.always_on {
                assert(vs =~= seq!["memory_saver"@, "power_save"@, "always_on"@]);
            } else {
                assert(vs =~= seq!["memory_saver"@, "power_save"@]);
            }
        } else {
            if flags.always_on {
                assert(vs =~= seq!["memory_saver"@, "always_on"@]);
            } else {
                assert(vs =~= seq!["memory_saver"@]);
            }
        }
    } else {
        if flags.power_save {
            if flags.always_on {
                assert(vs =~= seq!["power_save"@, "always_on"@]);
            } else {
                assert(vs =~= seq!["power_save"@]);
            }
        } else {
            if flags.always_on {
                assert(vs =~= seq!["always_on"@]);
            } else {
                assert(vs =~= Seq::<Seq<char>>::empty());
            }
        }
    }
}

/// The memory axis is independent of the polling axis: changing power save
/// or always-on never changes the memory factor.
pub proof fn law_memory_axis_independent(a: PowerProfileFlags, b: PowerProfileFlags)
    requires
        a.memory_saver == b.memory_saver,
    ensures
        memory_factor_spec(a) == memory_factor_spec(b),
{
}

/// Always-on decides the polling axis whatever else is set.
pub proof fn law_always_on_wins_polling(flags: PowerProfileFlags)
    requires
        flags.always_on,
    ensures
        poll_factor_spec(flags) == (Ratio { num: 1, den: 5 }),
{
}


/// Whether a wire name is accepted in a list: `"normal"` or a flag's name.
pub open spec fn is_pref_value(v: Seq<char>) -> bool {
    v == "normal"@ || from_pref_value_spec(v) is Some
}

/// Whether `name` occurs in `values` at or after position `i`.
pub open spec fn named_from(values: Seq<Seq<char>>, i: int, name: Seq<char>) -> bool {
    exists|k: int| i <= k < values.len() && values[k] == name
}

/// The combination whose flags are exactly those named in `values`.
pub open spec fn flags_named(values: Seq<Seq<char>>) -> PowerProfileFlags {
    PowerProfileFlags {
        memory_saver: named_from(values, 0, "memory_saver"@),
        power_save: named_from(values, 0, "power_save"@),
        always_on: named_from(values, 0, "always_on"@),
    }
}

proof fn lemma_from_pref_values_from(values: Seq<Seq<char>>, i: int, flags: PowerProfileFlags)
    requires
        0 <= i <= values.len(),
    ensures
        (forall|k: int| i <= k < values.len() ==> is_pref_value(#[trigger] values[k]))
            ==> from_pref_values_from(values, i, flags) == Ok::<PowerProfileFlags, Seq<char>>(
            PowerProfileFlags {
                memory_saver: flags.memory_saver || named_from(values, i, "memory_saver"@),
                power_save: flags.power_save || named_from(values, i, "power_save"@),
                always_on: flags.always_on || named_from(values, i, "always_on"@),
            },
        ),
        forall|j: int|
            i <= j < values.len() && !is_pref_value(#[trigger] values[j]) && (forall|k: int|
                i <= k < j ==> is_pref_value(#[trigger] values[k])) ==> from_pref_values_from(values, i, flags)
                == Err::<PowerProfileFlags, Seq<char>>(values[j]),
    decreases values.len() - i,
{
    lemma_wire_name_lengths();
    if i < values.len() {
        let v = values[i];
        let next = if v == "normal"@ {
            flags
        } else {
            match from_pref_value_spec(v) {
                Some(f) => with_flag(flags, f),
                None => flags,
            }
        };
        lemma_from_pref_values_from(values, i + 1, next);
        if forall|k: int| i <= k < values.len() ==> is_pref_value(#[trigger] values[k]) {
            assert(is_pref_value(values[i]));
            assert forall|k: int| i + 1 <= k < values.len() implies is_pref_value(#[trigger] values[k]) by {
                assert(is_pref_value(values[k]));
            }
            let a = named_from(values, i, "memory_saver"@);
            let b = named_from(values, i + 1, "memory_saver"@);
            assert(a == (b || v == "memory_saver"@)) by {
                if a {
                    let k = choose|k: int| i <= k < values.len() && values[k] == "memory_saver"@;
                    if k != i {
                        assert(i + 1 <= k < values.len() && values[k] == "memory_saver"@);
                    }
                }
                if b {
                    let k = choose|k: int| i + 1 <= k < values.len() && values[k] == "memory_saver"@;
                    assert(i <= k < values.len() && values[k] == "memory_saver"@);
                }
            }
            let a = named_from(values, i, "power_save"@);
            let b = named_from(values, i + 1, "power_save"@);
            assert(a == (b || v == "power_save"@)) by {
                if a {
                    let k = choose|k: int| i <= k < values.len() && values[k] == "power_save"@;
                    if k != i {
                        assert(i + 1 <= k < values.len() && values[k] == "power_save"@);
                    }
                }
                if b {
                    let k = choose|k: int| i + 1 <= k < values.len() && values[k] == "power_save"@;
                    assert(i <= k < values.len() && values[k] == "power_save"@);
                }
            }
            let a = named_from(values, i, "always_on"@);
            let b = named_from(values, i + 1, "always_on"@);
            assert(a == (b || v == "always_on"@)) by {
                if a {
                    let k = choose|k: int| i <= k < values.len() && values[k] == "always_on"@;
                    if k != i {
                        assert(i + 1 <= k < values.len() && values[k] == "always_on"@);
                    }
                }
                if b {
                    let k = choose|k: int| i + 1 <= k < values.len() && values[k] == "always_on"@;
                    assert(i <= k < values.len() && values[k] == "always_on"@);
                }
            }
        }
        assert forall|j: int|
            i <= j < values.len() && !is_pref_value(#[trigger] values[j]) && (forall|k: int|
                i <= k < j ==> is_pref_value(#[trigger] values[k])) implies from_pref_values_from(values, i, flags)
            == Err::<PowerProfileFlags, Seq<char>>(values[j]) by {
            if j > i {
                assert(is_pref_value(values[i]));
                assert forall|k: int| i + 1 <= k < j implies is_pref_value(#[trigger] values[k]) by {
                    assert(is_pref_value(values[k]));
                }
            }
        }
    }
}

/// A list of wire names selects exactly the flags it names, `"normal"`
/// adding none, as long as every name is known; otherwise the first
/// unknown name is the error.
pub proof fn law_pref_values_select_named_flags(values: Seq<Seq<char>>)
    ensures
        (forall|k: int| 0 <= k < values.len() ==> is_pref_value(#[trigger] values[k]))
            ==> from_pref_values_spec(values) == Ok::<PowerProfileFlags, Seq<char>>(flags_named(values)),
        forall|j: int|
            0 <= j < values.len() && !is_pref_value(#[trigger] values[j]) && (forall|k: int|
                0 <= k < j ==> is_pref_value(#[trigger] values[k])) ==> from_pref_values_spec(values)
                == Err::<PowerProfileFlags, Seq<char>>(values[j]),
{
    lemma_from_pref_values_from(values, 0, normal_flags());
}

} // verus!
