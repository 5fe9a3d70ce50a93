use crate::json_value::Json;
use crate::text::{all_ascii, ascii_lowercase, chars_eq, chars_of, lowercase, lowercase_chars};
use vstd::prelude::*;

verus! {

#[derive(Clone, Copy, Debug, PartialEq, Eq, Structural)]
pub enum UseOrNot {
    /// Auto Detect
    Auto,
    /// Enabled
    Yes,
    /// Disabled
    No,
}

/// Whether a feature is enabled: as set, or as detected when set to detect.
pub open spec fn use_or_not_enabled(u: UseOrNot, detected: bool) -> bool {
    match u {
        UseOrNot::Auto => detected,
        UseOrNot::Yes => true,
        UseOrNot::No => false,
    }
}

/// What a text sets, in any case: `yes` or `true`, `no` or `false`, `auto`.
pub open spec fn use_or_not_of_str(s: Seq<char>) -> Option<UseOrNot> {
    let l = lowercase(s);
    if l == "yes"@ || l == "true"@ {
        Some(UseOrNot::Yes)
    } else if l == "no"@ || l == "false"@ {
        Some(UseOrNot::No)
    } else if l == "auto"@ {
        Some(UseOrNot::Auto)
    } else {
        None
    }
}

impl UseOrNot {
    /// Whether the feature is enabled, given what auto detection found.
    pub fn enabled(self, detected: bool) -> (r: bool)
        ensures
            r == use_or_not_enabled(self, detected),
    {
        match self {
            UseOrNot::Auto => detected,
            UseOrNot::Yes => true,
            UseOrNot::No => false,
        }
    }

    /// Reads a value from text.
    pub fn parse(s: &str) -> (r: Result<Self, &'static str>)
        ensures
            match use_or_not_of_str(s@) {
                Some(u) => r == Ok::<UseOrNot, &'static str>(u),
                None => r matches Err(m) && m@ == "Failed to parse value."@,
            },
            all_ascii(s@) ==> lowercase(s@) == ascii_lowercase(s@),
    {
        let l = lowercase_chars(&chars_of(s));
        if chars_eq(&l, &chars_of("yes")) || chars_eq(&l, &chars_of("true")) {
            Ok(UseOrNot::Yes)
        } else if chars_eq(&l, &chars_of("no")) || chars_eq(&l, &chars_of("false")) {
            Ok(UseOrNot::No)
        } else if chars_eq(&l, &chars_of("auto")) {
            Ok(UseOrNot::Auto)
        } else {
            Err("Failed to parse value.")
        }
    }

    /// Reads a value from JSON: a boolean sets it, a string is read as
    /// text is.
    pub fn from_json(v: &Json) -> (r: Result<Self, &'static str>)
        ensures
            match *v {
                Json::Boolean(b) => r == Ok::<UseOrNot, &'static str>(
                    if b {
                        UseOrNot::Yes
                    } else {
                        UseOrNot::No
                    },
                ),
                Json::Str(s) => match use_or_not_of_str(s@) {
                    Some(u) => r == Ok::<UseOrNot, &'static str>(u),
                    None => r matches Err(m) && m@ == "Failed to parse value."@,
                },
                _ => r matches Err(m) && m@ == "Unsupported JSON type."@,
            },
            *v matches Json::Str(s) ==> (all_ascii(s@) ==> lowercase(s@) == ascii_lowercase(s@)),
    {
        match v {
            Json::Boolean(b) => Ok(Self::from(*b)),
            Json::Str(s) => Self::parse(s.as_str()),
            _ => Err("Unsupported JSON type."),
        }
    }
}

/// Convert to bool (whether to enable some features)
pub trait ToBool {
    /// The setting.
    fn use_or_not(&self) -> UseOrNot;

    /// Auto detect function.
    fn detect(&self) -> bool;

    /// Return whether to enable some features: as set, or, when set to
    /// detect, as detection finds.
    fn to_bool(&self) -> (r: bool)
        default_ensures
            exists|u: UseOrNot|
                #[trigger] call_ensures(Self::use_or_not, (self,), u) && (if u == UseOrNot::Auto {
                    call_ensures(Self::detect, (self,), r)
                } else {
                    r == use_or_not_enabled(u, false)
                }),
    {
        let u = self.use_or_not();
        let d = if u == UseOrNot::Auto {
            self.detect()
        } else {
            false
        };
        u.enabled(d)
    }
}

impl Default for UseOrNot {
    fn default() -> (r: Self)
        ensures
            r == UseOrNot::Auto,
    {
        UseOrNot::Auto
    }
}

impl From<bool> for UseOrNot {
    fn from(v: bool) -> (r: Self) {
        if v {
            UseOrNot::Yes
        } else {
            UseOrNot::No
        }
    }
}

impl vstd::std_specs::convert::FromSpecImpl<bool> for UseOrNot {
    open spec fn obeys_from_spec() -> bool {
        true
    }

    open spec fn from_spec(v: bool) -> Self {
        if v {
            UseOrNot::Yes
        } else {
            UseOrNot::No
        }
    }
}

impl std::str::FromStr for UseOrNot {
    type Err = &'static str;

    /// Reads a value from text, as `UseOrNot::parse` does.
    fn from_str(s: &str) -> (r: Result<Self, Self::Err>)
        ensures
            match use_or_not_of_str(s@) {
                Some(u) => r == Ok::<UseOrNot, &'static str>(u),
                None => r matches Err(m) && m@ == "Failed to parse value."@,
            },
            all_ascii(s@) ==> lowercase(s@) == ascii_lowercase(s@),
    {
        Self::parse(s)
    }
}

} // verus!
