//! Older command enumeration of the console surface. It names the same
//! command table as `AtCommandSet`; its methods answer through that table.

use vstd::prelude::*;
use vstd::string::*;
use crate::at_command::{AtCommandSet, command_str_spec, match_command_spec, allow_write_spec,
    response_str_spec, help_str_spec};

verus! {

/// The commands the console recognises, under the older enumeration.
#[derive(Debug, Clone, Copy, PartialEq, Eq, Structural)]
pub enum AtCommand {
    At,
    AtCsq,
    AtGmr,
    AtId,
    AtMsgReceiveCnt,
    AtMsgReceive,
    AtMsgSend,
    TestMessage,
    RoutingTable,
    RadioStatus,
    AtList,
    NewLine,
    Unknown,
}

/// The `AtCommandSet` value each `AtCommand` value stands for.
pub open spec fn as_command_set(c: AtCommand) -> AtCommandSet {
    match c {
        AtCommand::At => AtCommandSet::At,
        AtCommand::AtCsq => AtCommandSet::AtCsq,
        AtCommand::AtGmr => AtCommandSet::AtGmr,
        AtCommand::AtId => AtCommandSet::AtId,
        AtCommand::AtMsgReceiveCnt => AtCommandSet::AtMsgReceiveCnt,
        AtCommand::AtMsgReceive => AtCommandSet::AtMsgReceive,
        AtCommand::AtMsgSend => AtCommandSet::AtMsgSend,
        AtCommand::TestMessage => AtCommandSet::TestMessage,
        AtCommand::RoutingTable => AtCommandSet::RoutingTable,
        AtCommand::RadioStatus => AtCommandSet::RadioStatus,
        AtCommand::AtList => AtCommandSet::AtList,
        AtCommand::NewLine => AtCommandSet::NewLine,
        AtCommand::Unknown => AtCommandSet::Unknown,
    }
}

impl AtCommand {
    /// The `AtCommand` value standing for an `AtCommandSet` value.
    pub fn of_command_set(c: AtCommandSet) -> (r: AtCommand)
        ensures
            as_command_set(r) == c,
    {
        match c {
            AtCommandSet::At => AtCommand::At,
            AtCommandSet::AtCsq => AtCommand::AtCsq,
            AtCommandSet::AtGmr => AtCommand::AtGmr,
            AtCommandSet::AtId => AtCommand::AtId,
            AtCommandSet::AtMsgReceiveCnt => AtCommand::AtMsgReceiveCnt,
            AtCommandSet::AtMsgReceive => AtCommand::AtMsgReceive,
            AtCommandSet::AtMsgSend => AtCommand::AtMsgSend,
            AtCommandSet::TestMessage => AtCommand::TestMessage,
            AtCommandSet::RoutingTable => AtCommand::RoutingTable,
            AtCommandSet::RadioStatus => AtCommand::RadioStatus,
            AtCommandSet::AtList => AtCommand::AtList,
            AtCommandSet::NewLine => AtCommand::NewLine,
            AtCommandSet::Unknown => AtCommand::Unknown,
        }
    }

    /// The `AtCommandSet` value this value stands for.
    pub fn to_command_set(self) -> (r: AtCommandSet)
        ensures
            r == as_command_set(self),
    {
        match self {
            AtCommand::At => AtCommandSet::At,
            AtCommand::AtCsq => AtCommandSet::AtCsq,
            AtCommand::AtGmr => AtCommandSet::AtGmr,
            AtCommand::AtId => AtCommandSet::AtId,
            AtCommand::AtMsgReceiveCnt => AtCommandSet::AtMsgReceiveCnt,
            AtCommand::AtMsgReceive => AtCommandSet::AtMsgReceive,
            AtCommand::AtMsgSend => AtCommandSet::AtMsgSend,
            AtCommand::TestMessage => AtCommandSet::TestMessage,
            AtCommand::RoutingTable => AtCommandSet::RoutingTable,
            AtCommand::RadioStatus => AtCommandSet::RadioStatus,
            AtCommand::AtList => AtCommandSet::AtList,
            AtCommand::NewLine => AtCommandSet::NewLine,
            AtCommand::Unknown => AtCommandSet::Unknown,
        }
    }

    /// Table index of each command.
    pub fn to_u8(self) -> (r: usize)
        ensures
            r == self.to_command_set_spec_index(),
    {
        self.to_command_set().to_u8()
    }

    /// The table index, as a spec value.
    pub open spec fn to_command_set_spec_index(self) -> int {
        match as_command_set(self) {
            AtCommandSet::At => 0int,
            AtCommandSet::AtCsq => 1int,
            AtCommandSet::AtGmr => 2int,
            AtCommandSet::AtId => 3int,
            AtCommandSet::AtMsgReceiveCnt => 4int,
            AtCommandSet::AtMsgReceive => 5int,
            AtCommandSet::AtMsgSend => 6int,
            AtCommandSet::TestMessage => 7int,
            AtCommandSet::RoutingTable => 8int,
            AtCommandSet::RadioStatus => 9int,
            AtCommandSet::AtList => 10int,
            AtCommandSet::NewLine => 11int,
            AtCommandSet::Unknown => 12int,
        }
    }

    /// The command at a table index; out-of-table indices read as
    /// `Unknown`.
    pub fn from(index: usize) -> (r: Self)
        ensures
            as_command_set(r) == AtCommandSet::from_spec(index as int),
    {
        AtCommand::of_command_set(AtCommandSet::from(index))
    }

    /// The command a whole line names.
    pub fn match_command(command: &str) -> (r: Option<Self>)
        ensures
            match r {
                Some(c) => match_command_spec(command.spec_bytes()) == Some(as_command_set(c)),
                None => match_command_spec(command.spec_bytes()) is None,
            },
    {
        match AtCommandSet::match_command(command) {
            Some(c) => Some(AtCommand::of_command_set(c)),
            None => None,
        }
    }

    /// The string a command is entered as.
    pub fn get_command(cmd: AtCommand) -> (r: Option<&'static str>)
        ensures
            match r {
                Some(s) => command_str_spec(as_command_set(cmd)) == Some(s.spec_bytes()),
                None => command_str_spec(as_command_set(cmd)) is None,
            },
    {
        AtCommandSet::get_command(cmd.to_command_set())
    }

    /// The canned response prefix of a command.
    pub fn get_response(cmd: AtCommand) -> (r: Option<&'static str>)
        ensures
            match r {
                Some(s) => response_str_spec(as_command_set(cmd)) == Some(s.spec_bytes()),
                None => response_str_spec(as_command_set(cmd)) is None,
            },
    {
        AtCommandSet::get_response(cmd.to_command_set())
    }

    /// The help text of a command.
    pub fn get_help(cmd: AtCommand) -> (r: Option<&'static str>)
        ensures
            match r {
                Some(s) => help_str_spec(as_command_set(cmd)) == Some(s.spec_bytes()),
                None => help_str_spec(as_command_set(cmd)) is None,
            },
    {
        AtCommandSet::get_help(cmd.to_command_set())
    }

    /// Whether the command takes a written `=`-argument.
    pub fn allow_write(cmd: AtCommand) -> (r: bool)
        ensures
            r == allow_write_spec(as_command_set(cmd)),
    {
        AtCommandSet::allow_write(cmd.to_command_set())
    }

    /// The command strings of the whole table, for the `AT?` listing.
    pub fn get_available_cmds() -> (r: Vec<&'static str>)
        ensures
            r@.len() == 11,
    {
        AtCommandSet::get_available_cmds()
    }
}

} // verus!
