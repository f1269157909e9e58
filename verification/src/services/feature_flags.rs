//! Feature-flag source: boolean gates for opt-in code paths.
//!
//! Every flag is off unless it is set or its environment variable turns it on. Flag names
//! are expected to be snake_case; the variable of `ultrathink_enabled` is
//! `OPENCLAUDIA_FEATURE_ULTRATHINK_ENABLED`.

use vstd::prelude::*;

use crate::string_map::StringMap;
use crate::text;

verus! {

/// Resolves feature flags.
pub trait FeatureFlagSource: Send + Sync {
    /// Resolve `name`. Unknown flags are off.
    fn is_enabled(&self, name: &str) -> bool;
}

/// Flags that are set by hand, and the environment as it was last read.
#[derive(Clone, Debug)]
pub struct StaticFlags {
    entries: StringMap<bool>,
    environment: StringMap<String>,
}

/// The flags that are set and the environment variables that were read.
pub struct FlagsView {
    pub entries: Map<Seq<char>, bool>,
    pub environment: Map<Seq<char>, Seq<char>>,
}

impl View for StaticFlags {
    type V = FlagsView;

    closed spec fn view(&self) -> FlagsView {
        FlagsView {
            entries: self.entries@,
            environment: self.environment@.map_values(|s: String| s@),
        }
    }
}

/// The environment variable of a flag.
pub open spec fn flag_variable(name: Seq<char>) -> Seq<char> {
    "OPENCLAUDIA_FEATURE_"@ + text::ascii_uppercase(name)
}

/// The value of an environment variable turns a flag on.
pub open spec fn is_truthy(value: Seq<char>) -> bool {
    let v = text::ascii_lowercase(value);
    v == "1"@ || v == "true"@ || v == "on"@ || v == "yes"@
}

/// What the environment says of a flag.
pub open spec fn overridden(flags: FlagsView, name: Seq<char>) -> Option<bool> {
    if flags.environment.dom().contains(flag_variable(name)) {
        Some(is_truthy(flags.environment[flag_variable(name)]))
    } else {
        None
    }
}

/// Whether a flag is on: by the environment, else as it is set, else not.
pub open spec fn enabled(flags: FlagsView, name: Seq<char>) -> bool {
    match overridden(flags, name) {
        Some(value) => value,
        None => flags.entries.dom().contains(name) && flags.entries[name],
    }
}

impl Default for StaticFlags {
    fn default() -> (f: StaticFlags)
        ensures
            f@.entries == Map::<Seq<char>, bool>::empty(),
            f@.environment == Map::<Seq<char>, Seq<char>>::empty(),
    {
        StaticFlags::new()
    }
}

impl StaticFlags {
    /// No flags, and an empty environment.
    pub fn new() -> (f: StaticFlags)
        ensures
            f@.entries == Map::<Seq<char>, bool>::empty(),
            f@.environment == Map::<Seq<char>, Seq<char>>::empty(),
    {
        let f = StaticFlags { entries: StringMap::new(), environment: StringMap::new() };
        assert(f@.environment =~= Map::<Seq<char>, Seq<char>>::empty());
        f
    }

    /// Set a flag.
    pub fn set(&mut self, name: &str, value: bool)
        ensures
            final(self)@ == (FlagsView {
                entries: old(self)@.entries.insert(name@, value),
                ..old(self)@
            }),
    {
        self.entries.insert(name.to_owned(), value);
    }

    /// Chainable alias for `set`.
    pub fn with(self, name: &str, value: bool) -> (f: StaticFlags)
        ensures
            f@ == (FlagsView { entries: self@.entries.insert(name@, value), ..self@ }),
    {
        let mut flags = self;
        flags.set(name, value);
        flags
    }

    /// Record the value of an environment variable, or that it is not set.
    pub fn read_variable(&mut self, variable: &str, value: Option<&str>)
        ensures
            final(self)@ == (FlagsView {
                environment: match value {
                    Some(value) => old(self)@.environment.insert(variable@, value@),
                    None => old(self)@.environment.remove(variable@),
                },
                ..old(self)@
            }),
    {
        match value {
            Some(value) => {
                self.environment.insert(variable.to_owned(), value.to_owned());
                assert(self@.environment =~= old(self)@.environment.insert(variable@, value@));
            },
            None => {
                self.environment.remove(variable);
                assert(self@.environment =~= old(self)@.environment.remove(variable@));
            },
        }
    }

    /// The environment variable of a flag.
    pub fn variable_of(name: &str) -> (key: String)
        ensures
            key@ == flag_variable(name@),
    {
        let upper = text::to_ascii_uppercase(name);
        "OPENCLAUDIA_FEATURE_".to_owned().concat(upper.as_str())
    }

    /// Whether the value of an environment variable turns a flag on: `1`, `true`, `on`
    /// or `yes`, in any case.
    pub fn truthy(value: &str) -> (b: bool)
        ensures
            b == is_truthy(value@),
    {
        let v = text::to_ascii_lowercase(value);
        text::str_eq(v.as_str(), "1") || text::str_eq(v.as_str(), "true") || text::str_eq(
            v.as_str(),
            "on",
        ) || text::str_eq(v.as_str(), "yes")
    }

    /// What the environment says of a flag. Any value but a truthy one turns it off.
    fn env_override(&self, name: &str) -> (r: Option<bool>)
        ensures
            r == overridden(self@, name@),
    {
        let key = StaticFlags::variable_of(name);
        match self.environment.get(key.as_str()) {
            Some(raw) => Some(StaticFlags::truthy(raw.as_str())),
            None => None,
        }
    }
}

impl FeatureFlagSource for StaticFlags {
    fn is_enabled(&self, name: &str) -> (b: bool)
        ensures
            b == enabled(self@, name@),
    {
        if let Some(value) = self.env_override(name) {
            return value;
        }
        match self.entries.get(name) {
            Some(value) => *value,
            None => false,
        }
    }
}

/// The last value that was set is the one in force, where the environment says nothing.
pub proof fn last_setting_wins(flags: FlagsView, name: Seq<char>, first: bool, last: bool)
    requires
        overridden(flags, name) is None,
    ensures
        enabled(
            FlagsView {
                entries: flags.entries.insert(name, first).insert(name, last),
                ..flags
            },
            name,
        ) == last,
{
}

/// The environment wins over what is set, whatever it says.
pub proof fn environment_wins(flags: FlagsView, name: Seq<char>, value: Seq<char>)
    ensures
        enabled(
            FlagsView {
                environment: flags.environment.insert(flag_variable(name), value),
                ..flags
            },
            name,
        ) == is_truthy(value),
{
}

/// A flag that was never set and that the environment does not name is off.
pub proof fn unknown_flags_are_off(flags: FlagsView, name: Seq<char>)
    requires
        !flags.entries.dom().contains(name),
        !flags.environment.dom().contains(flag_variable(name)),
    ensures
        !enabled(flags, name),
{
}

/// A variable turns a flag on with `1`, `true`, `on` or `yes`, in capitals or not, and off with
/// anything else.
pub proof fn words_turn_flags_on(value: Seq<char>)
    ensures
        is_truthy("1"@),
        is_truthy("true"@),
        is_truthy("on"@),
        is_truthy("yes"@),
        is_truthy("TRUE"@),
        is_truthy(value) <==> is_truthy(text::ascii_lowercase(value)),
        is_truthy(value) ==> 1 <= value.len() <= 4,
        value.len() == 1 && value[0] != '1' ==> !is_truthy(value),
{
    reveal_strlit("1");
    reveal_strlit("true");
    reveal_strlit("on");
    reveal_strlit("yes");
    reveal_strlit("TRUE");
    assert(text::ascii_lowercase("1"@) =~= "1"@);
    assert(text::ascii_lowercase("true"@) =~= "true"@);
    assert(text::ascii_lowercase("on"@) =~= "on"@);
    assert(text::ascii_lowercase("yes"@) =~= "yes"@);
    assert(text::ascii_lowercase("TRUE"@) =~= "true"@);
    let low = text::ascii_lowercase(value);
    assert(text::ascii_lowercase(low) =~= low);
    if value.len() == 1 {
        assert(low[0] == text::ascii_lower(value[0]));
    }
}

/// The variable of a flag is its name in capitals behind the common prefix, so that flags with
/// different names in capitals have different variables.
pub proof fn flags_have_variables_of_their_own(a: Seq<char>, b: Seq<char>)
    ensures
        "OPENCLAUDIA_FEATURE_"@.is_prefix_of(flag_variable(a)),
        flag_variable(a) == flag_variable(b) <==> text::ascii_uppercase(a) == text::ascii_uppercase(
            b,
        ),
        flag_variable(a).len() == "OPENCLAUDIA_FEATURE_"@.len() + a.len(),
{
    let prefix = "OPENCLAUDIA_FEATURE_"@;
    let x = flag_variable(a);
    let y = flag_variable(b);
    let n = prefix.len() as int;
    assert(x.subrange(0, n) =~= prefix);
    assert(x.skip(n) =~= text::ascii_uppercase(a));
    assert(y.skip(n) =~= text::ascii_uppercase(b));
}

} // verus!
