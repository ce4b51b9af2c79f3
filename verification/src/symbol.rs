//! The symbol table: the closed mapping from the library's logical input
//! event names to their stable byte codes, the range 0x00 through 0x5D.

use vstd::prelude::*;
use crate::strutil::str_eq;

verus! {

/// The byte code of a logical event name, or `None` when the name is not
/// in the table. The table is split in two halves only to keep each spec
/// body small.
pub open spec fn code_of_name(s: Seq<char>) -> Option<u8> {
    if code_of_name_low(s) is Some {
        code_of_name_low(s)
    } else {
        code_of_name_high(s)
    }
}

pub open spec fn code_of_name_low(s: Seq<char>) -> Option<u8> {
    if s == "None"@ {
        Some(0x00u8)
    } else if s == "Exit"@ {
        Some(0x01u8)
    } else if s == "ActionA"@ {
        Some(0x02u8)
    } else if s == "ActionB"@ {
        Some(0x03u8)
    } else if s == "ActionC"@ {
        Some(0x04u8)
    } else if s == "ActionH"@ {
        Some(0x05u8)
    } else if s == "ActionV"@ {
        Some(0x06u8)
    } else if s == "ActionD"@ {
        Some(0x07u8)
    } else if s == "MenuL"@ {
        Some(0x08u8)
    } else if s == "MenuR"@ {
        Some(0x09u8)
    } else if s == "Joy"@ {
        Some(0x0au8)
    } else if s == "Cam"@ {
        Some(0x0bu8)
    } else if s == "BumperL"@ {
        Some(0x0cu8)
    } else if s == "BumperR"@ {
        Some(0x0du8)
    } else if s == "TriggerL"@ {
        Some(0x0eu8)
    } else if s == "TriggerR"@ {
        Some(0x0fu8)
    } else if s == "Up"@ {
        Some(0x10u8)
    } else if s == "Down"@ {
        Some(0x11u8)
    } else if s == "Left"@ {
        Some(0x12u8)
    } else if s == "Right"@ {
        Some(0x13u8)
    } else if s == "HatUp"@ {
        Some(0x14u8)
    } else if s == "HatDown"@ {
        Some(0x15u8)
    } else if s == "HatLeft"@ {
        Some(0x16u8)
    } else if s == "HatRight"@ {
        Some(0x17u8)
    } else if s == "MicUp"@ {
        Some(0x18u8)
    } else if s == "MicDown"@ {
        Some(0x19u8)
    } else if s == "MicLeft"@ {
        Some(0x1au8)
    } else if s == "MicRight"@ {
        Some(0x1bu8)
    } else if s == "PovUp"@ {
        Some(0x1cu8)
    } else if s == "PovDown"@ {
        Some(0x1du8)
    } else if s == "PovLeft"@ {
        Some(0x1eu8)
    } else if s == "PovRight"@ {
        Some(0x1fu8)
    } else if s == "JoyX"@ {
        Some(0x20u8)
    } else if s == "JoyY"@ {
        Some(0x21u8)
    } else if s == "JoyZ"@ {
        Some(0x22u8)
    } else if s == "CamX"@ {
        Some(0x23u8)
    } else if s == "CamY"@ {
        Some(0x24u8)
    } else if s == "CamZ"@ {
        Some(0x25u8)
    } else if s == "Slew"@ {
        Some(0x26u8)
    } else if s == "Throttle"@ {
        Some(0x27u8)
    } else if s == "ThrottleL"@ {
        Some(0x28u8)
    } else if s == "ThrottleR"@ {
        Some(0x29u8)
    } else if s == "Volume"@ {
        Some(0x2au8)
    } else if s == "Wheel"@ {
        Some(0x2bu8)
    } else if s == "Rudder"@ {
        Some(0x2cu8)
    } else if s == "Gas"@ {
        Some(0x2du8)
    } else if s == "Brake"@ {
        Some(0x2eu8)
    } else if s == "MicPush"@ {
        Some(0x2fu8)
    } else {
        None
    }
}

pub open spec fn code_of_name_high(s: Seq<char>) -> Option<u8> {
    if s == "Trigger"@ {
        Some(0x30u8)
    } else if s == "Bumper"@ {
        Some(0x31u8)
    } else if s == "ActionL"@ {
        Some(0x32u8)
    } else if s == "ActionM"@ {
        Some(0x33u8)
    } else if s == "ActionR"@ {
        Some(0x34u8)
    } else if s == "Pinky"@ {
        Some(0x35u8)
    } else if s == "PinkyForward"@ {
        Some(0x36u8)
    } else if s == "PinkyBackward"@ {
        Some(0x37u8)
    } else if s == "FlapsUp"@ {
        Some(0x38u8)
    } else if s == "FlapsDown"@ {
        Some(0x39u8)
    } else if s == "BoatForward"@ {
        Some(0x3au8)
    } else if s == "BoatBackward"@ {
        Some(0x3bu8)
    } else if s == "AutopilotPath"@ {
        Some(0x3cu8)
    } else if s == "AutopilotAlt"@ {
        Some(0x3du8)
    } else if s == "EngineMotorL"@ {
        Some(0x3eu8)
    } else if s == "EngineMotorR"@ {
        Some(0x3fu8)
    } else if s == "EngineFuelFlowL"@ {
        Some(0x40u8)
    } else if s == "EngineFuelFlowR"@ {
        Some(0x41u8)
    } else if s == "EngineIgnitionL"@ {
        Some(0x42u8)
    } else if s == "EngineIgnitionR"@ {
        Some(0x43u8)
    } else if s == "SpeedbrakeBackward"@ {
        Some(0x44u8)
    } else if s == "SpeedbrakeForward"@ {
        Some(0x45u8)
    } else if s == "ChinaBackward"@ {
        Some(0x46u8)
    } else if s == "ChinaForward"@ {
        Some(0x47u8)
    } else if s == "Apu"@ {
        Some(0x48u8)
    } else if s == "RadarAltimeter"@ {
        Some(0x49u8)
    } else if s == "LandingGearSilence"@ {
        Some(0x4au8)
    } else if s == "Eac"@ {
        Some(0x4bu8)
    } else if s == "AutopilotToggle"@ {
        Some(0x4cu8)
    } else if s == "ThrottleButton"@ {
        Some(0x4du8)
    } else if s == "MouseX"@ {
        Some(0x4eu8)
    } else if s == "MouseY"@ {
        Some(0x4fu8)
    } else if s == "Mouse"@ {
        Some(0x50u8)
    } else if s == "PaddleLeft"@ {
        Some(0x51u8)
    } else if s == "PaddleRight"@ {
        Some(0x52u8)
    } else if s == "PinkyLeft"@ {
        Some(0x53u8)
    } else if s == "PinkyRight"@ {
        Some(0x54u8)
    } else if s == "Context"@ {
        Some(0x55u8)
    } else if s == "Dpi"@ {
        Some(0x56u8)
    } else if s == "ScrollX"@ {
        Some(0x57u8)
    } else if s == "ScrollY"@ {
        Some(0x58u8)
    } else if s == "Scroll"@ {
        Some(0x59u8)
    } else if s == "TrimUp"@ {
        Some(0x5au8)
    } else if s == "TrimDown"@ {
        Some(0x5bu8)
    } else if s == "TrimLeft"@ {
        Some(0x5cu8)
    } else if s == "TrimRight"@ {
        Some(0x5du8)
    } else {
        None
    }
}

/// The first half of the table, decided by character comparison.
fn name_to_hex_low(name: &str) -> (r: Option<u8>)
    ensures
        r == code_of_name_low(name@),
{
    if str_eq(name, "None") {
        Some(0x00u8)
    } else if str_eq(name, "Exit") {
        Some(0x01u8)
    } else if str_eq(name, "ActionA") {
        Some(0x02u8)
    } else if str_eq(name, "ActionB") {
        Some(0x03u8)
    } else if str_eq(name, "ActionC") {
        Some(0x04u8)
    } else if str_eq(name, "ActionH") {
        Some(0x05u8)
    } else if str_eq(name, "ActionV") {
        Some(0x06u8)
    } else if str_eq(name, "ActionD") {
        Some(0x07u8)
    } else if str_eq(name, "MenuL") {
        Some(0x08u8)
    } else if str_eq(name, "MenuR") {
        Some(0x09u8)
    } else if str_eq(name, "Joy") {
        Some(0x0au8)
    } else if str_eq(name, "Cam") {
        Some(0x0bu8)
    } else if str_eq(name, "BumperL") {
        Some(0x0cu8)
    } else if str_eq(name, "BumperR") {
        Some(0x0du8)
    } else if str_eq(name, "TriggerL") {
        Some(0x0eu8)
    } else if str_eq(name, "TriggerR") {
        Some(0x0fu8)
    } else if str_eq(name, "Up") {
        Some(0x10u8)
    } else if str_eq(name, "Down") {
        Some(0x11u8)
    } else if str_eq(name, "Left") {
        Some(0x12u8)
    } else if str_eq(name, "Right") {
        Some(0x13u8)
    } else if str_eq(name, "HatUp") {
        Some(0x14u8)
    } else if str_eq(name, "HatDown") {
        Some(0x15u8)
    } else if str_eq(name, "HatLeft") {
        Some(0x16u8)
    } else if str_eq(name, "HatRight") {
        Some(0x17u8)
    } else if str_eq(name, "MicUp") {
        Some(0x18u8)
    } else if str_eq(name, "MicDown") {
        Some(0x19u8)
    } else if str_eq(name, "MicLeft") {
        Some(0x1au8)
    } else if str_eq(name, "MicRight") {
        Some(0x1bu8)
    } else if str_eq(name, "PovUp") {
        Some(0x1cu8)
    } else if str_eq(name, "PovDown") {
        Some(0x1du8)
    } else if str_eq(name, "PovLeft") {
        Some(0x1eu8)
    } else if str_eq(name, "PovRight") {
        Some(0x1fu8)
    } else if str_eq(name, "JoyX") {
        Some(0x20u8)
    } else if str_eq(name, "JoyY") {
        Some(0x21u8)
    } else if str_eq(name, "JoyZ") {
        Some(0x22u8)
    } else if str_eq(name, "CamX") {
        Some(0x23u8)
    } else if str_eq(name, "CamY") {
        Some(0x24u8)
    } else if str_eq(name, "CamZ") {
        Some(0x25u8)
    } else if str_eq(name, "Slew") {
        Some(0x26u8)
    } else if str_eq(name, "Throttle") {
        Some(0x27u8)
    } else if str_eq(name, "ThrottleL") {
        Some(0x28u8)
    } else if str_eq(name, "ThrottleR") {
        Some(0x29u8)
    } else if str_eq(name, "Volume") {
        Some(0x2au8)
    } else if str_eq(name, "Wheel") {
        Some(0x2bu8)
    } else if str_eq(name, "Rudder") {
        Some(0x2cu8)
    } else if str_eq(name, "Gas") {
        Some(0x2du8)
    } else if str_eq(name, "Brake") {
        Some(0x2eu8)
    } else if str_eq(name, "MicPush") {
        Some(0x2fu8)
    } else {
        None
    }
}

/// The second half of the table.
fn name_to_hex_high(name: &str) -> (r: Option<u8>)
    ensures
        r == code_of_name_high(name@),
{
    if str_eq(name, "Trigger") {
        Some(0x30u8)
    } else if str_eq(name, "Bumper") {
        Some(0x31u8)
    } else if str_eq(name, "ActionL") {
        Some(0x32u8)
    } else if str_eq(name, "ActionM") {
        Some(0x33u8)
    } else if str_eq(name, "ActionR") {
        Some(0x34u8)
    } else if str_eq(name, "Pinky") {
        Some(0x35u8)
    } else if str_eq(name, "PinkyForward") {
        Some(0x36u8)
    } else if str_eq(name, "PinkyBackward") {
        Some(0x37u8)
    } else if str_eq(name, "FlapsUp") {
        Some(0x38u8)
    } else if str_eq(name, "FlapsDown") {
        Some(0x39u8)
    } else if str_eq(name, "BoatForward") {
        Some(0x3au8)
    } else if str_eq(name, "BoatBackward") {
        Some(0x3bu8)
    } else if str_eq(name, "AutopilotPath") {
        Some(0x3cu8)
    } else if str_eq(name, "AutopilotAlt") {
        Some(0x3du8)
    } else if str_eq(name, "EngineMotorL") {
        Some(0x3eu8)
    } else if str_eq(name, "EngineMotorR") {
        Some(0x3fu8)
    } else if str_eq(name, "EngineFuelFlowL") {
        Some(0x40u8)
    } else if str_eq(name, "EngineFuelFlowR") {
        Some(0x41u8)
    } else if str_eq(name, "EngineIgnitionL") {
        Some(0x42u8)
    } else if str_eq(name, "EngineIgnitionR") {
        Some(0x43u8)
    } else if str_eq(name, "SpeedbrakeBackward") {
        Some(0x44u8)
    } else if str_eq(name, "SpeedbrakeForward") {
        Some(0x45u8)
    } else if str_eq(name, "ChinaBackward") {
        Some(0x46u8)
    } else if str_eq(name, "ChinaForward") {
        Some(0x47u8)
    } else if str_eq(name, "Apu") {
        Some(0x48u8)
    } else if str_eq(name, "RadarAltimeter") {
        Some(0x49u8)
    } else if str_eq(name, "LandingGearSilence") {
        Some(0x4au8)
    } else if str_eq(name, "Eac") {
        Some(0x4bu8)
    } else if str_eq(name, "AutopilotToggle") {
        Some(0x4cu8)
    } else if str_eq(name, "ThrottleButton") {
        Some(0x4du8)
    } else if str_eq(name, "MouseX") {
        Some(0x4eu8)
    } else if str_eq(name, "MouseY") {
        Some(0x4fu8)
    } else if str_eq(name, "Mouse") {
        Some(0x50u8)
    } else if str_eq(name, "PaddleLeft") {
        Some(0x51u8)
    } else if str_eq(name, "PaddleRight") {
        Some(0x52u8)
    } else if str_eq(name, "PinkyLeft") {
        Some(0x53u8)
    } else if str_eq(name, "PinkyRight") {
        Some(0x54u8)
    } else if str_eq(name, "Context") {
        Some(0x55u8)
    } else if str_eq(name, "Dpi") {
        Some(0x56u8)
    } else if str_eq(name, "ScrollX") {
        Some(0x57u8)
    } else if str_eq(name, "ScrollY") {
        Some(0x58u8)
    } else if str_eq(name, "Scroll") {
        Some(0x59u8)
    } else if str_eq(name, "TrimUp") {
        Some(0x5au8)
    } else if str_eq(name, "TrimDown") {
        Some(0x5bu8)
    } else if str_eq(name, "TrimLeft") {
        Some(0x5cu8)
    } else if str_eq(name, "TrimRight") {
        Some(0x5du8)
    } else {
        None
    }
}

/// Resolves a logical event name to its byte code. Any name outside the
/// fixed table yields `None`, which callers turn into the fatal
/// `UnknownSymbol` failure.
pub fn name_to_hex(name: &str) -> (r: Option<u8>)
    ensures
        r == code_of_name(name@),
{
    let low = name_to_hex_low(name);
    if low.is_some() {
        low
    } else {
        name_to_hex_high(name)
    }
}

/// Every code in the table lies in the range 0x00 through 0x5D.
pub proof fn lemma_code_range(s: Seq<char>)
    ensures
        code_of_name(s) matches Some(c) ==> c <= 0x5d,
{
}

} // verus!
