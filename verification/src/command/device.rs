//! Commands that act on the module as a whole.

use vstd::prelude::*;
use vstd::string::StringSliceAdditionalSpecFns;
use crate::argument::{Argument, ArgumentModel};
use crate::codec::{Command, CommandModel};
use crate::number::Radix;
use crate::text::Text;

verus! {

/// A command without arguments, answered by a terminator alone.
pub open spec fn bare(prefix: &str, timeout_ms: u32) -> CommandModel {
    CommandModel {
        prefix: prefix.spec_bytes(),
        arguments: Seq::empty(),
        quoting: true,
        shape: Seq::empty(),
        timeout_ms,
    }
}

/// A number as a decimal argument.
pub open spec fn decimal(value: u32) -> ArgumentModel {
    ArgumentModel::Integer { value, radix: Radix::Decimal }
}

/// Start the network processor unit (NWP).
#[derive(Debug, Clone, Copy, PartialEq, Eq, Structural)]
pub struct Start {}

impl Start {
    /// The command as plain values.
    pub open spec fn request(self) -> CommandModel {
        bare("+start", 100)
    }

    /// The command, ready to be sent.
    pub fn command(&self) -> (out: Command)
        ensures
            out@ == self.request(),
    {
        Command::new("+start").timeout_ms(100)
    }
}

/// Stop the network processor unit (NWP).
#[derive(Debug, Clone, Copy, PartialEq, Eq, Structural)]
pub struct Stop {
    pub timeout: u16,
}

impl Stop {
    /// The command as plain values.
    pub open spec fn request(self) -> CommandModel {
        CommandModel { arguments: seq![decimal(self.timeout as u32)], ..bare("+stop", 100) }
    }

    /// The command, ready to be sent.
    pub fn command(&self) -> (out: Command)
        ensures
            out@ == self.request(),
    {
        let out = Command::new("+stop").timeout_ms(100).argument(
            Argument::Integer { value: self.timeout as u32, radix: Radix::Decimal },
        );
        assert(out@.arguments =~= self.request().arguments);
        out
    }
}

/// Test that the module is responsive.
#[derive(Debug, Clone, Copy, PartialEq, Eq, Structural)]
pub struct Test {}

impl Test {
    /// The command as plain values.
    pub open spec fn request(self) -> CommandModel {
        bare("+test", 100)
    }

    /// The command, ready to be sent.
    pub fn command(&self) -> (out: Command)
        ensures
            out@ == self.request(),
    {
        Command::new("+test").timeout_ms(100)
    }
}

/// Reboot the module.
#[derive(Debug, Clone, Copy, PartialEq, Eq, Structural)]
pub struct Reboot {}

impl Reboot {
    /// The command as plain values.
    pub open spec fn request(self) -> CommandModel {
        bare("+reboot", 100)
    }

    /// The command, ready to be sent.
    pub fn command(&self) -> (out: Command)
        ensures
            out@ == self.request(),
    {
        Command::new("+reboot").timeout_ms(100)
    }
}

/// Restore the factory state. Declares no timeout of its own.
#[derive(Debug, Clone, Copy, PartialEq, Eq, Structural)]
pub struct FactoryReset {}

impl FactoryReset {
    /// The command as plain values.
    pub open spec fn request(self) -> CommandModel {
        bare("+factoryreset", crate::codec::DEFAULT_TIMEOUT_MS)
    }

    /// The command, ready to be sent.
    pub fn command(&self) -> (out: Command)
        ensures
            out@ == self.request(),
    {
        Command::new("+factoryreset")
    }
}

/// Sleep for a number of seconds; for ever where that number is 0.
#[derive(Debug, Clone, Copy, PartialEq, Eq, Structural)]
pub struct Sleep {
    pub timeout: u32,
}

impl Sleep {
    /// The command as plain values.
    pub open spec fn request(self) -> CommandModel {
        CommandModel { arguments: seq![decimal(self.timeout)], ..bare("+sleep", 100) }
    }

    /// The command, ready to be sent.
    pub fn command(&self) -> (out: Command)
        ensures
            out@ == self.request(),
    {
        let out = Command::new("+sleep").timeout_ms(100).argument(
            Argument::Integer { value: self.timeout, radix: Radix::Decimal },
        );
        assert(out@.arguments =~= self.request().arguments);
        out
    }
}

/// Enter power saving mode.
#[derive(Debug, Clone, Copy, PartialEq, Eq, Structural)]
pub struct PowerSave {}

impl PowerSave {
    /// The command as plain values.
    pub open spec fn request(self) -> CommandModel {
        bare("+powersave", 100)
    }

    /// The command, ready to be sent.
    pub fn command(&self) -> (out: Command)
        ensures
            out@ == self.request(),
    {
        Command::new("+powersave").timeout_ms(100)
    }
}

/// Enter provisioning mode.
#[derive(Debug, Clone, Copy, PartialEq, Eq, Structural)]
pub struct ProvisioningStart {}

impl ProvisioningStart {
    /// The command as plain values.
    pub open spec fn request(self) -> CommandModel {
        bare("+provisioningStart", 100)
    }

    /// The command, ready to be sent.
    pub fn command(&self) -> (out: Command)
        ensures
            out@ == self.request(),
    {
        Command::new("+provisioningStart").timeout_ms(100)
    }
}

/// Leave provisioning mode.
#[derive(Debug, Clone, Copy, PartialEq, Eq, Structural)]
pub struct ProvisioningStop {}

impl ProvisioningStop {
    /// The command as plain values.
    pub open spec fn request(self) -> CommandModel {
        bare("+provisioningStop", 100)
    }

    /// The command, ready to be sent.
    pub fn command(&self) -> (out: Command)
        ensures
            out@ == self.request(),
    {
        Command::new("+provisioningStop").timeout_ms(100)
    }
}

/// Read a setting of the module.
#[derive(Debug)]
pub struct Get {
    pub id: Text<16>,
    pub option: Text<24>,
}

impl Get {
    /// The command as plain values.
    pub open spec fn request(self) -> CommandModel {
        CommandModel {
            arguments: seq![ArgumentModel::Text(self.id@), ArgumentModel::Text(self.option@)],
            ..bare("+get", 100)
        }
    }

    /// The command, ready to be sent.
    pub fn command(&self) -> (out: Command)
        ensures
            out@ == self.request(),
    {
        let out = Command::new("+get").timeout_ms(100).argument(self.id.to_argument()).argument(
            self.option.to_argument(),
        );
        assert(out@.arguments =~= self.request().arguments);
        out
    }
}

/// Write a setting of the module.
#[derive(Debug)]
pub struct SetOption {
    pub id: Text<16>,
    pub option: Text<24>,
}

impl SetOption {
    /// The command as plain values.
    pub open spec fn request(self) -> CommandModel {
        CommandModel {
            arguments: seq![ArgumentModel::Text(self.id@), ArgumentModel::Text(self.option@)],
            ..bare("+set", 100)
        }
    }

    /// The command, ready to be sent.
    pub fn command(&self) -> (out: Command)
        ensures
            out@ == self.request(),
    {
        let out = Command::new("+set").timeout_ms(100).argument(self.id.to_argument()).argument(
            self.option.to_argument(),
        );
        assert(out@.arguments =~= self.request().arguments);
        out
    }
}

} // verus!
