//! The thermal guard: while a game runs, the CPU's temperature is watched and
//! power limits are applied once it gets too hot.
use vstd::prelude::*;
use crate::text::{push_text, texts};

verus! {

/// The temperature, in °C, from which limits are applied.
pub const THERMAL_LIMIT_C: u32 = 85;

/// Seconds between two readings of the temperature.
pub const THERMAL_POLL_SECS: u64 = 15;

/// The tool that applies the limits.
#[derive(Clone, Copy, Debug, PartialEq, Eq, Structural)]
pub enum ThermalTool {
    /// `intel-undervolt`
    IntelUndervolt,
    /// `ryzenadj`
    RyzenAdj,
}

/// The tool to use: `intel-undervolt` when installed, else `ryzenadj` when installed;
/// `None` when neither is, and the guard does nothing.
pub fn thermal_tool(has_intel_undervolt: bool, has_ryzenadj: bool) -> (t: Option<ThermalTool>)
    ensures
        t == (if has_intel_undervolt {
            Some(ThermalTool::IntelUndervolt)
        } else if has_ryzenadj {
            Some(ThermalTool::RyzenAdj)
        } else {
            None
        }),
{
    if has_intel_undervolt {
        Some(ThermalTool::IntelUndervolt)
    } else if has_ryzenadj {
        Some(ThermalTool::RyzenAdj)
    } else {
        None
    }
}

/// The guard runs when the user asked for it, unlocked mode is off (an unlocked
/// benchmark runs with no limits) and a tool is installed.
pub fn thermal_guard_enabled(requested: bool, unlocked: bool, has_tool: bool) -> (b: bool)
    ensures
        b == (requested && !unlocked && has_tool),
{
    requested && !unlocked && has_tool
}

/// The command that applies the limits with a tool.
pub open spec fn limit_command_of(tool: ThermalTool) -> Seq<Seq<char>> {
    match tool {
        ThermalTool::IntelUndervolt => seq!["intel-undervolt"@, "apply"@],
        ThermalTool::RyzenAdj => seq!["ryzenadj"@, "-a"@, "15000"@, "-b"@, "15000"@],
    }
}

pub fn limit_command(tool: ThermalTool) -> (c: Vec<String>)
    ensures
        texts(c@) == limit_command_of(tool),
{
    let mut c: Vec<String> = Vec::new();
    match tool {
        ThermalTool::IntelUndervolt => {
            push_text(&mut c, "intel-undervolt");
            push_text(&mut c, "apply");
        },
        ThermalTool::RyzenAdj => {
            push_text(&mut c, "ryzenadj");
            push_text(&mut c, "-a");
            push_text(&mut c, "15000");
            push_text(&mut c, "-b");
            push_text(&mut c, "15000");
        },
    }
    assert(texts(c@) =~= limit_command_of(tool));
    c
}

/// One reading of the guard: the limits are applied (the command returned) exactly when
/// the temperature could be read and is at least the limit.
pub fn thermal_action(temp_c: Option<u32>, tool: ThermalTool) -> (a: Option<Vec<String>>)
    ensures
        match a {
            Some(c) => temp_c matches Some(t) && t >= THERMAL_LIMIT_C && texts(c@)
                == limit_command_of(tool),
            None => !(temp_c matches Some(t) && t >= THERMAL_LIMIT_C),
        },
{
    match temp_c {
        Some(t) => if t >= THERMAL_LIMIT_C {
            Some(limit_command(tool))
        } else {
            None
        },
        None => None,
    }
}

} // verus!
