//! The platform's thermal warning level.
use crate::text::decimal_text;
use vstd::prelude::*;
use vstd::string::*;

verus! {

/// Thermal warning level as the power-management service reports it.
#[derive(Clone, Copy, Debug, PartialEq, Eq, Structural)]
pub enum ThermalLevel {
    Normal,
    Danger,
    Crisis,
    Unknown(u32),
}

/// The level a raw warning code stands for.
pub open spec fn level_of_code(code: u32) -> ThermalLevel {
    if code == 0 {
        ThermalLevel::Normal
    } else if code == 5 || code == 100 {
        ThermalLevel::Danger
    } else if code == 10 || code == 110 {
        ThermalLevel::Crisis
    } else {
        ThermalLevel::Unknown(code)
    }
}

pub open spec fn label_of(level: ThermalLevel) -> Seq<char> {
    match level {
        ThermalLevel::Normal => "Nominal"@,
        ThermalLevel::Danger => "Danger"@,
        ThermalLevel::Crisis => "Crisis"@,
        ThermalLevel::Unknown(_) => "Unknown"@,
    }
}

impl ThermalLevel {
    /// Every level but `Normal` means the machine is throttling.
    pub fn is_throttled(self) -> (r: bool)
        ensures
            r == !(self is Normal),
    {
        !matches!(self, ThermalLevel::Normal)
    }

    /// Short name of the level.
    pub fn label(self) -> (r: &'static str)
        ensures
            r@ == label_of(self),
    {
        match self {
            ThermalLevel::Normal => "Nominal",
            ThermalLevel::Danger => "Danger",
            ThermalLevel::Crisis => "Crisis",
            ThermalLevel::Unknown(_) => "Unknown",
        }
    }

    /// The level for a raw warning code.
    pub fn from_code(code: u32) -> (r: ThermalLevel)
        ensures
            r == level_of_code(code),
    {
        if code == 0 {
            ThermalLevel::Normal
        } else if code == 5 || code == 100 {
            ThermalLevel::Danger
        } else if code == 10 || code == 110 {
            ThermalLevel::Crisis
        } else {
            ThermalLevel::Unknown(code)
        }
    }

    /// Text shown for the level: its label, with the raw code for unknown ones.
    pub fn to_text(self) -> (r: String)
        ensures
            r@ == match self {
                ThermalLevel::Unknown(code) => "Unknown("@ + crate::text::decimal(code as nat) + ")"@,
                other => label_of(other),
            },
    {
        match self {
            ThermalLevel::Unknown(code) => {
                let mut text = String::from_str("Unknown(");
                text.append(decimal_text(code as u64).as_str());
                text.append(")");
                text
            },
            other => String::from_str(other.label()),
        }
    }
}

impl From<u32> for ThermalLevel {
    fn from(code: u32) -> ThermalLevel {
        ThermalLevel::from_code(code)
    }
}

impl vstd::std_specs::convert::FromSpecImpl<u32> for ThermalLevel {
    open spec fn obeys_from_spec() -> bool {
        true
    }

    open spec fn from_spec(code: u32) -> ThermalLevel {
        level_of_code(code)
    }
}

} // verus!
