//! The system driver: ending the emulation and asking how firmware boots.

use vstd::prelude::*;
use vstd::std_specs::convert::TryFromSpecImpl;

verus! {

/// Number of the system driver.
pub const DRIVER_NUM: u32 = 0xC000_0000;

/// Command that ends the emulation.
pub const CMD_EXIT: u32 = 1;

/// Command that asks how firmware boots.
pub const CMD_GET_FIRMWARE_BOOT_TYPE: u32 = 2;

/// Error codes of system calls.
#[derive(Clone, Copy, Debug, PartialEq, Eq, Structural)]
pub enum ErrorCode {
    Fail,
    Busy,
    Already,
    Off,
    Reserve,
    Invalid,
    Size,
    Cancel,
    NoMem,
    NoSupport,
    NoDevice,
    Uninstalled,
    NoAck,
    BadRVal,
}

/// Where firmware is loaded from.
#[derive(Clone, Copy, Debug, PartialEq, Eq, Structural)]
pub enum FirmwareBootType {
    Flash,
    Pldm,
}

impl FirmwareBootType {
    /// The number that stands for a boot type.
    pub open spec fn code(self) -> u32 {
        match self {
            FirmwareBootType::Flash => 1,
            FirmwareBootType::Pldm => 2,
        }
    }

    /// The boot type that a number stands for.
    pub open spec fn of_code(code: u32) -> Result<FirmwareBootType, ErrorCode> {
        if code == 1 {
            Ok(FirmwareBootType::Flash)
        } else if code == 2 {
            Ok(FirmwareBootType::Pldm)
        } else {
            Err(ErrorCode::Invalid)
        }
    }

    /// The number that stands for a boot type.
    pub fn to_u32(self) -> (r: u32)
        ensures
            r == self.code(),
    {
        match self {
            FirmwareBootType::Flash => 1,
            FirmwareBootType::Pldm => 2,
        }
    }
}

impl TryFrom<u32> for FirmwareBootType {
    type Error = ErrorCode;

    fn try_from(value: u32) -> (r: Result<FirmwareBootType, ErrorCode>)
        ensures
            r == FirmwareBootType::of_code(value),
    {
        if value == FirmwareBootType::Flash.to_u32() {
            Ok(FirmwareBootType::Flash)
        } else if value == FirmwareBootType::Pldm.to_u32() {
            Ok(FirmwareBootType::Pldm)
        } else {
            Err(ErrorCode::Invalid)
        }
    }
}

impl TryFromSpecImpl<u32> for FirmwareBootType {
    open spec fn obeys_try_from_spec() -> bool {
        true
    }

    open spec fn try_from_spec(value: u32) -> Result<FirmwareBootType, ErrorCode> {
        FirmwareBootType::of_code(value)
    }
}

/// A call of a driver's command.
#[derive(Clone, Copy, Debug, PartialEq, Eq, Structural)]
pub struct SyscallCommand {
    pub driver: u32,
    pub command: u32,
    pub arg0: u32,
    pub arg1: u32,
}

/// The system driver.
pub struct System {}

impl System {
    /// The call that ends the emulation with `code`.
    pub fn exit(code: u32) -> (r: SyscallCommand)
        ensures
            r == (SyscallCommand { driver: DRIVER_NUM, command: CMD_EXIT, arg0: code, arg1: 0 }),
    {
        SyscallCommand { driver: DRIVER_NUM, command: CMD_EXIT, arg0: code, arg1: 0 }
    }

    /// The call that asks how firmware boots.
    pub fn ask_firmware_boot_type() -> (r: SyscallCommand)
        ensures
            r == (SyscallCommand {
                driver: DRIVER_NUM,
                command: CMD_GET_FIRMWARE_BOOT_TYPE,
                arg0: 0,
                arg1: 0,
            }),
    {
        SyscallCommand {
            driver: DRIVER_NUM,
            command: CMD_GET_FIRMWARE_BOOT_TYPE,
            arg0: 0,
            arg1: 0,
        }
    }

    /// How firmware boots, from what that call returned.
    pub fn firmware_boot_type(reply: Result<u32, ErrorCode>) -> (r: Result<
        FirmwareBootType,
        ErrorCode,
    >)
        ensures
            r == match reply {
                Ok(value) => FirmwareBootType::of_code(value),
                Err(e) => Err(e),
            },
    {
        match reply {
            Ok(value) => FirmwareBootType::try_from(value),
            Err(e) => Err(e),
        }
    }
}

/// A number stands for a boot type exactly if it is that boot type's own.
pub proof fn law_boot_type_round_trip(boot_type: FirmwareBootType, code: u32)
    ensures
        FirmwareBootType::of_code(boot_type.code()) == Ok::<FirmwareBootType, ErrorCode>(boot_type),
        FirmwareBootType::of_code(code) == Ok::<FirmwareBootType, ErrorCode>(boot_type) <==> code
            == boot_type.code(),
{
}

/// The numbers of the boot types, and the one error for every other number.
pub proof fn law_boot_type_codes(code: u32)
    ensures
        FirmwareBootType::Flash.code() == 1,
        FirmwareBootType::Pldm.code() == 2,
        FirmwareBootType::of_code(code) is Err <==> code != 1 && code != 2,
        FirmwareBootType::of_code(code) matches Err(e) ==> e == ErrorCode::Invalid,
{
}

} // verus!
