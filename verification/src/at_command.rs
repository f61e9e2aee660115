//! Text-command console surface: the recognised `AT` command set, the
//! line parser that turns received characters into commands, and the
//! argument parser that turns an `AT+MSEND` argument string into a
//! transmit request.
//!
//! Contracts speak of command strings through their UTF-8 bytes; the
//! console line itself is a byte buffer, matched byte for byte.

use vstd::prelude::*;
use vstd::string::*;
use crate::bm_network_configs::BM_MAX_PAYLOAD_SIZE;
use crate::bm_network_packet::BmNetworkPacketPayload;
use crate::NetworkId;

verus! {

/// Longest console line kept; further characters are dropped.
pub const MAX_AT_CMD_CHARS: usize = 300;

pub const CARRIAGE_RETURN: u8 = 0x0D;

/// DEL, sent when the terminal's backspace is hit.
pub const BACKSPACE: u8 = 0x7F;

/// Byte equality of two slices.
pub fn bytes_eq(a: &[u8], b: &[u8]) -> (r: bool)
    ensures
        r == (a@ == b@),
{
    if a.len() != b.len() {
        proof {
            assert(a@ != b@);
        }
        return false;
    }
    let mut i: usize = 0;
    while i < a.len()
        invariant
            i <= a@.len(),
            a@.len() == b@.len(),
            forall|j: int| 0 <= j < i ==> a@[j] == b@[j],
        decreases a@.len() - i,
    {
        if a[i] != b[i] {
            return false;
        }
        i = i + 1;
    }
    proof {
        assert(a@ =~= b@);
    }
    true
}

/// Byte equality of a slice and a command string.
pub fn bytes_eq_str(a: &[u8], s: &str) -> (r: bool)
    ensures
        r == (a@ == s.spec_bytes()),
{
    bytes_eq(a, s.as_bytes())
}

/// The commands the console recognises.
#[derive(Debug, Clone, Copy, PartialEq, Eq, Structural)]
pub enum AtCommandSet {
    At,
    AtCsq,
    AtGmr,
    AtId,
    AtMsgReceiveCnt,
    AtMsgReceive,
    AtMsgSend,
    TestMessage,
    RoutingTable,
    RadioStatus,
    AtList,
    NewLine,
    Unknown,
}

/// The bytes of the command string each command is entered as; `None` for
/// the two pseudo-commands.
pub open spec fn command_str_spec(cmd: AtCommandSet) -> Option<Seq<u8>> {
    match cmd {
        AtCommandSet::At => Some("AT".spec_bytes()),
        AtCommandSet::AtCsq => Some("AT+CSQ".spec_bytes()),
        AtCommandSet::AtGmr => Some("AT+GMR".spec_bytes()),
        AtCommandSet::AtId => Some("AT+ID".spec_bytes()),
        AtCommandSet::AtMsgReceiveCnt => Some("AT+MCNT".spec_bytes()),
        AtCommandSet::AtMsgReceive => Some("AT+MRECV".spec_bytes()),
        AtCommandSet::AtMsgSend => Some("AT+MSEND".spec_bytes()),
        AtCommandSet::TestMessage => Some("AT+TMSG".spec_bytes()),
        AtCommandSet::RoutingTable => Some("AT+RTABLE".spec_bytes()),
        AtCommandSet::RadioStatus => Some("AT+ST".spec_bytes()),
        AtCommandSet::AtList => Some("AT?".spec_bytes()),
        AtCommandSet::NewLine => None,
        AtCommandSet::Unknown => None,
    }
}

/// The command a whole line names, if any.
pub open spec fn match_command_spec(line: Seq<u8>) -> Option<AtCommandSet> {
    if line == "AT".spec_bytes() {
        Some(AtCommandSet::At)
    } else if line == "AT+CSQ".spec_bytes() {
        Some(AtCommandSet::AtCsq)
    } else if line == "AT+GMR".spec_bytes() {
        Some(AtCommandSet::AtGmr)
    } else if line == "AT+ID".spec_bytes() {
        Some(AtCommandSet::AtId)
    } else if line == "AT+MCNT".spec_bytes() {
        Some(AtCommandSet::AtMsgReceiveCnt)
    } else if line == "AT+MRECV".spec_bytes() {
        Some(AtCommandSet::AtMsgReceive)
    } else if line == "AT+MSEND".spec_bytes() {
        Some(AtCommandSet::AtMsgSend)
    } else if line == "AT+TMSG".spec_bytes() {
        Some(AtCommandSet::TestMessage)
    } else if line == "AT+RTABLE".spec_bytes() {
        Some(AtCommandSet::RoutingTable)
    } else if line == "AT+ST".spec_bytes() {
        Some(AtCommandSet::RadioStatus)
    } else if line == "AT?".spec_bytes() {
        Some(AtCommandSet::AtList)
    } else {
        None
    }
}

/// Whether a command takes a written `=`-argument.
pub open spec fn allow_write_spec(cmd: AtCommandSet) -> bool {
    cmd == AtCommandSet::AtMsgSend
}

/// The bytes of the canned response prefix of each command; `None` for
/// the two pseudo-commands.
pub open spec fn response_str_spec(cmd: AtCommandSet) -> Option<Seq<u8>> {
    match cmd {
        AtCommandSet::At => Some("".spec_bytes()),
        AtCommandSet::AtCsq => Some("+CSQ:".spec_bytes()),
        AtCommandSet::AtGmr => Some("Version:".spec_bytes()),
        AtCommandSet::AtId => Some("+ID:".spec_bytes()),
        AtCommandSet::AtMsgReceiveCnt => Some("+COUNT: ".spec_bytes()),
        AtCommandSet::AtMsgReceive => Some("+RX: ".spec_bytes()),
        AtCommandSet::AtMsgSend => Some("".spec_bytes()),
        AtCommandSet::TestMessage => Some("+".spec_bytes()),
        AtCommandSet::RoutingTable => Some("".spec_bytes()),
        AtCommandSet::RadioStatus => Some("+".spec_bytes()),
        AtCommandSet::AtList => Some("".spec_bytes()),
        AtCommandSet::NewLine => None,
        AtCommandSet::Unknown => None,
    }
}

/// The bytes of the help text of each command; `None` for the two
/// pseudo-commands.
pub open spec fn help_str_spec(cmd: AtCommandSet) -> Option<Seq<u8>> {
    match cmd {
        AtCommandSet::At => Some("".spec_bytes()),
        AtCommandSet::AtCsq => Some("Command to get instantaneous RSSI.".spec_bytes()),
        AtCommandSet::AtGmr => Some("".spec_bytes()),
        AtCommandSet::AtId => Some("Enter Network ID as a 32bit value.".spec_bytes()),
        AtCommandSet::AtMsgReceiveCnt => Some(
            "Command to receive message from network.".spec_bytes(),
        ),
        AtCommandSet::AtMsgReceive => Some("Command to receive message from network.".spec_bytes()),
        AtCommandSet::AtMsgSend => Some(
            "Command to send message over mesh network.\n\rFormat: <dest id>,<ack required>,<ttl>,<payload>".spec_bytes(),
        ),
        AtCommandSet::TestMessage => Some("Command to send \"Hello World\".".spec_bytes()),
        AtCommandSet::RoutingTable => Some("Command to print out routing table.".spec_bytes()),
        AtCommandSet::RadioStatus => Some("Command to get radio status.".spec_bytes()),
        AtCommandSet::AtList => Some("Command to get list of available commands.".spec_bytes()),
        AtCommandSet::NewLine => None,
        AtCommandSet::Unknown => None,
    }
}

impl AtCommandSet {
    /// Table index of each command.
    pub fn to_u8(self) -> (r: usize)
        ensures
            r == match self {
                AtCommandSet::At => 0int,
                AtCommandSet::AtCsq => 1int,
                AtCommandSet::AtGmr => 2int,
                AtCommandSet::AtId => 3int,
                AtCommandSet::AtMsgReceiveCnt => 4int,
                AtCommandSet::AtMsgReceive => 5int,
                AtCommandSet::AtMsgSend => 6int,
                AtCommandSet::TestMessage => 7int,
                AtCommandSet::RoutingTable => 8int,
                AtCommandSet::RadioStatus => 9int,
                AtCommandSet::AtList => 10int,
                AtCommandSet::NewLine => 11int,
                AtCommandSet::Unknown => 12int,
            },
    {
        match self {
            AtCommandSet::At => 0,
            AtCommandSet::AtCsq => 1,
            AtCommandSet::AtGmr => 2,
            AtCommandSet::AtId => 3,
            AtCommandSet::AtMsgReceiveCnt => 4,
            AtCommandSet::AtMsgReceive => 5,
            AtCommandSet::AtMsgSend => 6,
            AtCommandSet::TestMessage => 7,
            AtCommandSet::RoutingTable => 8,
            AtCommandSet::RadioStatus => 9,
            AtCommandSet::AtList => 10,
            AtCommandSet::NewLine => 11,
            AtCommandSet::Unknown => 12,
        }
    }

    /// The command at a table index; out-of-table indices read as
    /// `Unknown`.
    pub fn from(index: usize) -> (r: Self)
        ensures
            index == 0 ==> r == AtCommandSet::At,
            index == 1 ==> r == AtCommandSet::AtCsq,
            index == 2 ==> r == AtCommandSet::AtGmr,
            index == 3 ==> r == AtCommandSet::AtId,
            index == 4 ==> r == AtCommandSet::AtMsgReceiveCnt,
            index == 5 ==> r == AtCommandSet::AtMsgReceive,
            index == 6 ==> r == AtCommandSet::AtMsgSend,
            index == 7 ==> r == AtCommandSet::TestMessage,
            index == 8 ==> r == AtCommandSet::RoutingTable,
            index == 9 ==> r == AtCommandSet::RadioStatus,
            index == 10 ==> r == AtCommandSet::AtList,
            index == 11 ==> r == AtCommandSet::NewLine,
            index >= 12 ==> r == AtCommandSet::Unknown,
    {
        match index {
            0 => AtCommandSet::At,
            1 => AtCommandSet::AtCsq,
            2 => AtCommandSet::AtGmr,
            3 => AtCommandSet::AtId,
            4 => AtCommandSet::AtMsgReceiveCnt,
            5 => AtCommandSet::AtMsgReceive,
            6 => AtCommandSet::AtMsgSend,
            7 => AtCommandSet::TestMessage,
            8 => AtCommandSet::RoutingTable,
            9 => AtCommandSet::RadioStatus,
            10 => AtCommandSet::AtList,
            11 => AtCommandSet::NewLine,
            _ => AtCommandSet::Unknown,
        }
    }

    /// The command a whole line names.
    pub fn match_command(command: &str) -> (r: Option<Self>)
        ensures
            r == match_command_spec(command.spec_bytes()),
    {
        Self::match_command_bytes(command.as_bytes())
    }

    /// The command a whole line of bytes names.
    pub fn match_command_bytes(line: &[u8]) -> (r: Option<Self>)
        ensures
            r == match_command_spec(line@),
    {
        if bytes_eq_str(line, "AT") {
            Some(AtCommandSet::At)
        } else if bytes_eq_str(line, "AT+CSQ") {
            Some(AtCommandSet::AtCsq)
        } else if bytes_eq_str(line, "AT+GMR") {
            Some(AtCommandSet::AtGmr)
        } else if bytes_eq_str(line, "AT+ID") {
            Some(AtCommandSet::AtId)
        } else if bytes_eq_str(line, "AT+MCNT") {
            Some(AtCommandSet::AtMsgReceiveCnt)
        } else if bytes_eq_str(line, "AT+MRECV") {
            Some(AtCommandSet::AtMsgReceive)
        } else if bytes_eq_str(line, "AT+MSEND") {
            Some(AtCommandSet::AtMsgSend)
        } else if bytes_eq_str(line, "AT+TMSG") {
            Some(AtCommandSet::TestMessage)
        } else if bytes_eq_str(line, "AT+RTABLE") {
            Some(AtCommandSet::RoutingTable)
        } else if bytes_eq_str(line, "AT+ST") {
            Some(AtCommandSet::RadioStatus)
        } else if bytes_eq_str(line, "AT?") {
            Some(AtCommandSet::AtList)
        } else {
            None
        }
    }

    /// The string a command is entered as.
    pub fn get_command(cmd: AtCommandSet) -> (r: Option<&'static str>)
        ensures
            match r {
                Some(s) => command_str_spec(cmd) == Some(s.spec_bytes()),
                None => command_str_spec(cmd) is None,
            },
    {
        match cmd {
            AtCommandSet::At => Some("AT"),
            AtCommandSet::AtCsq => Some("AT+CSQ"),
            AtCommandSet::AtGmr => Some("AT+GMR"),
            AtCommandSet::AtId => Some("AT+ID"),
            AtCommandSet::AtMsgReceiveCnt => Some("AT+MCNT"),
            AtCommandSet::AtMsgReceive => Some("AT+MRECV"),
            AtCommandSet::AtMsgSend => Some("AT+MSEND"),
            AtCommandSet::TestMessage => Some("AT+TMSG"),
            AtCommandSet::RoutingTable => Some("AT+RTABLE"),
            AtCommandSet::RadioStatus => Some("AT+ST"),
            AtCommandSet::AtList => Some("AT?"),
            AtCommandSet::NewLine => None,
            AtCommandSet::Unknown => None,
        }
    }

    /// The canned response prefix printed before a command's response
    /// value; `None` for the pseudo-commands.
    pub fn get_response(cmd: AtCommandSet) -> (r: Option<&'static str>)
        ensures
            match r {
                Some(s) => response_str_spec(cmd) == Some(s.spec_bytes()),
                None => response_str_spec(cmd) is None,
            },
    {
        match cmd {
            AtCommandSet::At => Some(""),
            AtCommandSet::AtCsq => Some("+CSQ:"),
            AtCommandSet::AtGmr => Some("Version:"),
            AtCommandSet::AtId => Some("+ID:"),
            AtCommandSet::AtMsgReceiveCnt => Some("+COUNT: "),
            AtCommandSet::AtMsgReceive => Some("+RX: "),
            AtCommandSet::AtMsgSend => Some(""),
            AtCommandSet::TestMessage => Some("+"),
            AtCommandSet::RoutingTable => Some(""),
            AtCommandSet::RadioStatus => Some("+"),
            AtCommandSet::AtList => Some(""),
            AtCommandSet::NewLine => None,
            AtCommandSet::Unknown => None,
        }
    }

    /// The help text printed for the `AT+<X>?` form; `None` for the
    /// pseudo-commands.
    pub fn get_help(cmd: AtCommandSet) -> (r: Option<&'static str>)
        ensures
            match r {
                Some(s) => help_str_spec(cmd) == Some(s.spec_bytes()),
                None => help_str_spec(cmd) is None,
            },
    {
        match cmd {
            AtCommandSet::At => Some(""),
            AtCommandSet::AtCsq => Some("Command to get instantaneous RSSI."),
            AtCommandSet::AtGmr => Some(""),
            AtCommandSet::AtId => Some("Enter Network ID as a 32bit value."),
            AtCommandSet::AtMsgReceiveCnt => Some("Command to receive message from network."),
            AtCommandSet::AtMsgReceive => Some("Command to receive message from network."),
            AtCommandSet::AtMsgSend => Some(
                "Command to send message over mesh network.\n\rFormat: <dest id>,<ack required>,<ttl>,<payload>",
            ),
            AtCommandSet::TestMessage => Some("Command to send \"Hello World\"."),
            AtCommandSet::RoutingTable => Some("Command to print out routing table."),
            AtCommandSet::RadioStatus => Some("Command to get radio status."),
            AtCommandSet::AtList => Some("Command to get list of available commands."),
            AtCommandSet::NewLine => None,
            AtCommandSet::Unknown => None,
        }
    }

    /// Whether the command takes a written `=`-argument.
    pub fn allow_write(cmd: AtCommandSet) -> (r: bool)
        ensures
            r == allow_write_spec(cmd),
    {
        match cmd {
            AtCommandSet::AtMsgSend => true,
            _ => false,
        }
    }

    /// The command strings of the whole table, for the `AT?` listing.
    pub fn get_available_cmds() -> (r: Vec<&'static str>)
        ensures
            r@.len() == 11,
            forall|i: int|
                0 <= i < 11 ==> command_str_spec(AtCommandSet::from_spec(i)) == Some(
                    (#[trigger] r@[i]).spec_bytes(),
                ),
    {
        let mut cmds: Vec<&'static str> = Vec::new();
        cmds.push("AT");
        cmds.push("AT+CSQ");
        cmds.push("AT+GMR");
        cmds.push("AT+ID");
        cmds.push("AT+MCNT");
        cmds.push("AT+MRECV");
        cmds.push("AT+MSEND");
        cmds.push("AT+TMSG");
        cmds.push("AT+RTABLE");
        cmds.push("AT+ST");
        cmds.push("AT?");
        proof {
            assert forall|i: int|
                0 <= i < 11 implies command_str_spec(AtCommandSet::from_spec(i)) == Some(
                (#[trigger] cmds@[i]).spec_bytes(),
            ) by {
                assert(cmds@.len() == 11);
            }
        }
        cmds
    }

    /// The command at a table index, as a spec value.
    pub open spec fn from_spec(index: int) -> AtCommandSet {
        if index == 0 {
            AtCommandSet::At
        } else if index == 1 {
            AtCommandSet::AtCsq
        } else if index == 2 {
            AtCommandSet::AtGmr
        } else if index == 3 {
            AtCommandSet::AtId
        } else if index == 4 {
            AtCommandSet::AtMsgReceiveCnt
        } else if index == 5 {
            AtCommandSet::AtMsgReceive
        } else if index == 6 {
            AtCommandSet::AtMsgSend
        } else if index == 7 {
            AtCommandSet::TestMessage
        } else if index == 8 {
            AtCommandSet::RoutingTable
        } else if index == 9 {
            AtCommandSet::RadioStatus
        } else if index == 10 {
            AtCommandSet::AtList
        } else if index == 11 {
            AtCommandSet::NewLine
        } else {
            AtCommandSet::Unknown
        }
    }
}

pub const QUESTION_MARK: u8 = 0x3F;

pub const EQUALS_SIGN: u8 = 0x3D;

pub const COMMA: u8 = 0x2C;

/// Some byte of the line is `b`.
pub open spec fn contains_byte(s: Seq<u8>, b: u8) -> bool {
    exists|i: int| 0 <= i < s.len() && s[i] == b
}

/// `i` is the first position of `b` in the line.
pub open spec fn is_first_index(s: Seq<u8>, b: u8, i: int) -> bool {
    &&& 0 <= i < s.len()
    &&& s[i] == b
    &&& forall|j: int| 0 <= j < i ==> s[j] != b
}

/// The first position of `b` in the line (meaningful when the line
/// contains it).
pub open spec fn first_index(s: Seq<u8>, b: u8) -> int {
    choose|i: int| is_first_index(s, b, i)
}

pub proof fn lemma_first_index_unique(s: Seq<u8>, b: u8, i: int)
    requires
        is_first_index(s, b, i),
    ensures
        first_index(s, b) == i,
{
    let j = first_index(s, b);
    assert(is_first_index(s, b, j));
    if j < i {
        assert(s[j] != b);
    }
    if j > i {
        assert(s[i] != b);
    }
}

/// The line opens with `AT`.
pub open spec fn starts_with_at(line: Seq<u8>) -> bool {
    line.len() >= 2 && line.subrange(0, 2) == "AT".spec_bytes()
}

/// The command a finished console line (already known to open with `AT`)
/// resolves to: the `AT+<X>?` help form, the `AT+<X>=<arg>` write form for
/// a command that takes one, or the plain command; anything else reads as
/// `Unknown`.
pub open spec fn parsed_command(line: Seq<u8>) -> AtCommandSet {
    if contains_byte(line, QUESTION_MARK) {
        if line == "AT?".spec_bytes() {
            AtCommandSet::AtList
        } else {
            match match_command_spec(line.take(line.len() - 1)) {
                Some(c) => c,
                None => AtCommandSet::Unknown,
            }
        }
    } else if contains_byte(line, EQUALS_SIGN) {
        match match_command_spec(line.subrange(0, first_index(line, EQUALS_SIGN))) {
            Some(c) => if allow_write_spec(c) {
                c
            } else {
                AtCommandSet::Unknown
            },
            None => AtCommandSet::Unknown,
        }
    } else {
        match match_command_spec(line) {
            Some(c) => c,
            None => AtCommandSet::Unknown,
        }
    }
}

/// Whether the line is a help form whose command matched.
pub open spec fn parsed_help(line: Seq<u8>) -> bool {
    &&& contains_byte(line, QUESTION_MARK)
    &&& line != "AT?".spec_bytes()
    &&& match_command_spec(line.take(line.len() - 1)) is Some
}

/// The stored argument of an accepted write form, if the line is one.
pub open spec fn parsed_write_arg(line: Seq<u8>) -> Option<Seq<u8>> {
    if !contains_byte(line, QUESTION_MARK) && contains_byte(line, EQUALS_SIGN) {
        match match_command_spec(line.subrange(0, first_index(line, EQUALS_SIGN))) {
            Some(c) => if allow_write_spec(c) {
                Some(line.subrange(first_index(line, EQUALS_SIGN) + 1, line.len() as int))
            } else {
                None
            },
            None => None,
        }
    } else {
        None
    }
}

/// First position of `b` in the slice, scanned left to right.
fn find_first_byte(line: &[u8], b: u8) -> (r: Option<usize>)
    ensures
        match r {
            Some(i) => is_first_index(line@, b, i as int),
            None => !contains_byte(line@, b),
        },
{
    let mut i: usize = 0;
    while i < line.len()
        invariant
            i <= line@.len(),
            forall|j: int| 0 <= j < i ==> line@[j] != b,
        decreases line@.len() - i,
    {
        if line[i] == b {
            return Some(i);
        }
        i = i + 1;
    }
    None
}

/// Resolves one finished console line: the command it names, whether the
/// help form was used, and the argument of an accepted write form.
pub fn parse_command_line(line: &[u8]) -> (r: (AtCommandSet, bool, Option<Vec<u8>>))
    requires
        line@.len() >= 1,
    ensures
        r.0 == parsed_command(line@),
        r.1 == parsed_help(line@),
        match r.2 {
            Some(a) => parsed_write_arg(line@) == Some(a@),
            None => parsed_write_arg(line@) is None,
        },
{
    if find_first_byte(line, QUESTION_MARK).is_some() {
        if bytes_eq_str(line, "AT?") {
            return (AtCommandSet::AtList, false, None);
        }
        let truncated = crate::bm_network_packet::slice_range(line, 0, line.len() - 1);
        proof {
            assert(truncated@ == line@.take(line@.len() - 1));
        }
        match AtCommandSet::match_command_bytes(truncated) {
            Some(found_cmd) => (found_cmd, true, None),
            None => (AtCommandSet::Unknown, false, None),
        }
    } else if let Some(eq_idx) = find_first_byte(line, EQUALS_SIGN) {
        proof {
            lemma_first_index_unique(line@, EQUALS_SIGN, eq_idx as int);
            assert(line.len() == line@.len());
            assert(eq_idx < line@.len());
        }
        let head = crate::bm_network_packet::slice_range(line, 0, eq_idx);
        match AtCommandSet::match_command_bytes(head) {
            Some(found_cmd) => {
                if AtCommandSet::allow_write(found_cmd) {
                    let tail = crate::bm_network_packet::slice_range(line, eq_idx + 1, line.len());
                    let mut arg: Vec<u8> = Vec::new();
                    let mut i: usize = 0;
                    while i < tail.len()
                        invariant
                            i <= tail@.len(),
                            arg@ =~= tail@.subrange(0, i as int),
                        decreases tail@.len() - i,
                    {
                        arg.push(tail[i]);
                        proof {
                            assert(arg@ =~= tail@.subrange(0, i + 1 as int));
                        }
                        i = i + 1;
                    }
                    proof {
                        assert(arg@ =~= line@.subrange(
                            first_index(line@, EQUALS_SIGN) + 1,
                            line@.len() as int,
                        ));
                    }
                    (found_cmd, false, Some(arg))
                } else {
                    (AtCommandSet::Unknown, false, None)
                }
            },
            None => (AtCommandSet::Unknown, false, None),
        }
    } else {
        match AtCommandSet::match_command_bytes(line) {
            Some(found_cmd) => (found_cmd, false, None),
            None => (AtCommandSet::Unknown, false, None),
        }
    }
}

/// Console line assembler: collects received characters into a command
/// line and resolves the line when the carriage return arrives.
#[derive(Debug)]
pub struct CommandParser {
    pub cmd_buffer: Vec<u8>,
    pub argument_buffer: Vec<u8>,
}

impl CommandParser {
    pub fn new() -> (r: CommandParser)
        ensures
            r.cmd_buffer@ =~= Seq::<u8>::empty(),
            r.argument_buffer@ =~= Seq::<u8>::empty(),
    {
        CommandParser { cmd_buffer: Vec::new(), argument_buffer: Vec::new() }
    }

    /// Feeds one received character. A carriage return finishes the line:
    /// an empty line reads as `NewLine`, a line that is too short or does
    /// not open with `AT` is discarded, and any other line is resolved —
    /// storing the argument when an accepted write form carried one. A
    /// backspace removes the last character; any other character is
    /// appended, or dropped once the line is full.
    pub fn handle_rx_char(&mut self, in_char: u8) -> (r: Option<(AtCommandSet, bool)>)
        ensures
            in_char == CARRIAGE_RETURN ==> ({
                let line = old(self).cmd_buffer@;
                &&& (line.len() == 0 ==> r == Some((AtCommandSet::NewLine, false)) && *final(self)
                    == *old(self))
                &&& (line.len() >= 1 ==> final(self).cmd_buffer@ == Seq::<u8>::empty())
                &&& (line.len() == 1 ==> r is None && final(self).argument_buffer@ == old(self).argument_buffer@)
                &&& (line.len() >= 2 && !starts_with_at(line) ==> r is None && final(self).argument_buffer@ == old(self).argument_buffer@)
                &&& (line.len() >= 2 && starts_with_at(line) ==> {
                    &&& r == Some((parsed_command(line), parsed_help(line)))
                    &&& final(self).argument_buffer@ == match parsed_write_arg(line) {
                        Some(a) => a,
                        None => old(self).argument_buffer@,
                    }
                })
            }),
            in_char == BACKSPACE ==> r is None && final(self).argument_buffer@ == old(self).argument_buffer@ && final(self).cmd_buffer@ == (if old(self).cmd_buffer@.len() > 0 {
                old(self).cmd_buffer@.drop_last()
            } else {
                old(self).cmd_buffer@
            }),
            in_char != CARRIAGE_RETURN && in_char != BACKSPACE ==> r is None && final(self).argument_buffer@ == old(self).argument_buffer@ && final(self).cmd_buffer@ == (if old(self).cmd_buffer@.len() < MAX_AT_CMD_CHARS {
                old(self).cmd_buffer@.push(in_char)
            } else {
                old(self).cmd_buffer@
            }),
    {
        if in_char == CARRIAGE_RETURN {
            if self.cmd_buffer.len() == 0 {
                return Some((AtCommandSet::NewLine, false));
            }
            if self.cmd_buffer.len() < 2 {
                self.cmd_buffer.clear();
                return None;
            }
            let head = crate::bm_network_packet::slice_range(self.cmd_buffer.as_slice(), 0, 2);
            if !bytes_eq_str(head, "AT") {
                self.cmd_buffer.clear();
                return None;
            }
            let (cmd, help, arg) = parse_command_line(self.cmd_buffer.as_slice());
            if let Some(a) = arg {
                self.argument_buffer = a;
            }
            self.cmd_buffer.clear();
            return Some((cmd, help));
        } else if in_char == BACKSPACE {
            if self.cmd_buffer.len() > 0 {
                self.cmd_buffer.pop();
            }
        } else {
            if self.cmd_buffer.len() < MAX_AT_CMD_CHARS {
                self.cmd_buffer.push(in_char);
            }
        }
        None
    }

    /// A copy of the stored write-form argument.
    pub fn get_cmd_arg(&self) -> (r: Vec<u8>)
        ensures
            r@ == self.argument_buffer@,
    {
        let mut r: Vec<u8> = Vec::new();
        let mut i: usize = 0;
        while i < self.argument_buffer.len()
            invariant
                i <= self.argument_buffer@.len(),
                r@ =~= self.argument_buffer@.subrange(0, i as int),
            decreases self.argument_buffer@.len() - i,
        {
            r.push(self.argument_buffer[i]);
            proof {
                assert(r@ =~= self.argument_buffer@.subrange(0, i + 1 as int));
            }
            i = i + 1;
        }
        proof {
            assert(r@ =~= self.argument_buffer@);
        }
        r
    }

    /// The stored argument read as a decimal number.
    pub fn get_cmd_arg_as_u32(&self) -> (r: Option<u32>)
        ensures
            r == parse_u32_spec(self.argument_buffer@),
    {
        parse_u32(self.argument_buffer.as_slice())
    }
}

/// Appends a byte slice to a buffer.
pub fn append_bytes(out: &mut Vec<u8>, s: &[u8])
    ensures
        final(out)@ == old(out)@ + s@,
{
    out.extend_from_slice(s);
    proof {
        assert(out@ =~= old(out)@ + s@);
    }
}

/// The framing every console response travels in: `CR LF`, the command's
/// canned prefix, the response value, `CR LF OK CR LF >`.
pub open spec fn framed_response(prefix: Seq<u8>, resp_val: Seq<u8>) -> Seq<u8> {
    "\r\n".spec_bytes() + prefix + resp_val + "\r\nOK\r\n>".spec_bytes()
}

/// The framing a help text travels in: `CR LF`, the text, `CR LF >`.
pub open spec fn framed_help(text: Seq<u8>) -> Seq<u8> {
    "\r\n".spec_bytes() + text + "\r\n>".spec_bytes()
}

/// The framed error response for a line that could not be handled.
pub open spec fn framed_error() -> Seq<u8> {
    "\r\nCmd Error\r\n>".spec_bytes()
}

/// Builds a command's framed response around a response value.
pub fn prepare_response(resp_enum: AtCommandSet, resp_val: &[u8]) -> (r: Vec<u8>)
    ensures
        r@ == framed_response(
            match response_str_spec(resp_enum) {
                Some(p) => p,
                None => Seq::<u8>::empty(),
            },
            resp_val@,
        ),
{
    let mut out: Vec<u8> = Vec::new();
    append_bytes(&mut out, "\r\n".as_bytes());
    if let Some(prefix) = AtCommandSet::get_response(resp_enum) {
        append_bytes(&mut out, prefix.as_bytes());
    }
    append_bytes(&mut out, resp_val);
    append_bytes(&mut out, "\r\nOK\r\n>".as_bytes());
    proof {
        assert(out@ =~= framed_response(
            match response_str_spec(resp_enum) {
                Some(p) => p,
                None => Seq::<u8>::empty(),
            },
            resp_val@,
        ));
    }
    out
}

/// Builds a command's framed help text.
pub fn prepare_help_str(resp_enum: AtCommandSet) -> (r: Vec<u8>)
    ensures
        r@ == framed_help(
            match help_str_spec(resp_enum) {
                Some(t) => t,
                None => Seq::<u8>::empty(),
            },
        ),
{
    let mut out: Vec<u8> = Vec::new();
    append_bytes(&mut out, "\r\n".as_bytes());
    if let Some(text) = AtCommandSet::get_help(resp_enum) {
        append_bytes(&mut out, text.as_bytes());
    }
    append_bytes(&mut out, "\r\n>".as_bytes());
    proof {
        assert(out@ =~= framed_help(
            match help_str_spec(resp_enum) {
                Some(t) => t,
                None => Seq::<u8>::empty(),
            },
        ));
    }
    out
}

/// Builds the framed error response.
pub fn prepare_error_response() -> (r: Vec<u8>)
    ensures
        r@ == framed_error(),
{
    let mut out: Vec<u8> = Vec::new();
    append_bytes(&mut out, "\r\nCmd Error\r\n>".as_bytes());
    proof {
        assert(out@ =~= framed_error());
    }
    out
}

/// Builds a command's framed response around a number, written in
/// decimal.
pub fn fmt_resp_uint_as_str_slice(resp_enum: AtCommandSet, resp_val: u32) -> (r: Vec<u8>)
    ensures
        exists|ds: Seq<u8>|
            {
                &&& all_dec_digits(ds)
                &&& ds.len() >= 1
                &&& dec_value(ds) == resp_val
                &&& (ds.len() > 1 ==> ds[0] != 48)
                &&& r@ == framed_response(
                    match response_str_spec(resp_enum) {
                        Some(p) => p,
                        None => Seq::<u8>::empty(),
                    },
                    ds,
                )
            },
{
    let value = u32_to_dec_bytes(resp_val);
    let r = prepare_response(resp_enum, value.as_slice());
    proof {
        let ds = value@;
        assert(all_dec_digits(ds) && ds.len() >= 1 && dec_value(ds) == resp_val && (ds.len() > 1
            ==> ds[0] != 48) && r@ == framed_response(
            match response_str_spec(resp_enum) {
                Some(p) => p,
                None => Seq::<u8>::empty(),
            },
            ds,
        ));
    }
    r
}

/// An ASCII decimal digit.
pub open spec fn is_dec_digit(b: u8) -> bool {
    48 <= b <= 57
}

/// Every byte of the string is a decimal digit.
pub open spec fn all_dec_digits(s: Seq<u8>) -> bool {
    forall|i: int| 0 <= i < s.len() ==> is_dec_digit(#[trigger] s[i])
}

/// The number a digit string denotes.
pub open spec fn dec_value(s: Seq<u8>) -> int
    decreases s.len(),
{
    if s.len() == 0 {
        0
    } else {
        dec_value(s.drop_last()) * 10 + (s.last() - 48)
    }
}

pub proof fn lemma_dec_value_nonneg(s: Seq<u8>)
    requires
        all_dec_digits(s),
    ensures
        dec_value(s) >= 0,
    decreases s.len(),
{
    if s.len() > 0 {
        assert(all_dec_digits(s.drop_last()));
        lemma_dec_value_nonneg(s.drop_last());
    }
}

/// A digit string denotes at least what any of its prefixes denotes.
pub proof fn lemma_dec_value_prefix(s: Seq<u8>, i: int)
    requires
        all_dec_digits(s),
        0 <= i <= s.len(),
    ensures
        dec_value(s.subrange(0, i)) <= dec_value(s),
    decreases s.len() - i,
{
    if i < s.len() {
        lemma_dec_value_prefix(s, i + 1);
        let p = s.subrange(0, i);
        let q = s.subrange(0, i + 1);
        assert(q.drop_last() =~= p);
        assert(all_dec_digits(p));
        lemma_dec_value_nonneg(p);
    } else {
        assert(s.subrange(0, i) =~= s);
    }
}

/// What reading the whole string as a decimal number yields: its value,
/// when it is non-empty, all digits, and fits.
pub open spec fn parse_u32_spec(s: Seq<u8>) -> Option<u32> {
    if s.len() >= 1 && all_dec_digits(s) && dec_value(s) <= u32::MAX {
        Some(dec_value(s) as u32)
    } else {
        None
    }
}

/// Reads a whole byte string as a decimal `u32`; refuses an empty string,
/// a non-digit, or a value that does not fit.
pub fn parse_u32(s: &[u8]) -> (r: Option<u32>)
    ensures
        r == parse_u32_spec(s@),
{
    if s.len() == 0 {
        return None;
    }
    let mut acc: u32 = 0;
    let mut i: usize = 0;
    while i < s.len()
        invariant
            i <= s@.len(),
            forall|j: int| 0 <= j < i ==> is_dec_digit(#[trigger] s@[j]),
            acc == dec_value(s@.subrange(0, i as int)),
        decreases s@.len() - i,
    {
        let b = s[i];
        if b < 48 || b > 57 {
            return None;
        }
        let d = (b - 48) as u32;
        proof {
            assert(s@.subrange(0, i + 1 as int).drop_last() =~= s@.subrange(0, i as int));
            assert(all_dec_digits(s@.subrange(0, i + 1 as int)));
        }
        if acc > (u32::MAX - d) / 10 {
            proof {
                let q = s@.subrange(0, i + 1 as int);
                assert(dec_value(q) == acc * 10 + d);
                assert(acc * 10 + d > u32::MAX) by (nonlinear_arith)
                    requires
                        acc > (u32::MAX - d) / 10,
                        d <= 9u32,
                ;
                if all_dec_digits(s@) {
                    lemma_dec_value_prefix(s@, i + 1);
                }
            }
            return None;
        }
        proof {
            assert(acc * 10 + d <= u32::MAX) by (nonlinear_arith)
                requires
                    acc <= (u32::MAX - d) / 10,
                    d <= 9u32,
            ;
        }
        acc = acc * 10 + d;
        i = i + 1;
    }
    proof {
        assert(s@.subrange(0, s@.len() as int) =~= s@);
    }
    Some(acc)
}

/// Reads a whole byte string as a decimal `u8`.
pub fn parse_u8(s: &[u8]) -> (r: Option<u8>)
    ensures
        s@.len() >= 1 && all_dec_digits(s@) && dec_value(s@) <= 255 ==> r == Some(
            dec_value(s@) as u8,
        ),
        !(s@.len() >= 1 && all_dec_digits(s@) && dec_value(s@) <= 255) ==> r is None,
{
    match parse_u32(s) {
        Some(v) => {
            proof {
                lemma_dec_value_nonneg(s@);
            }
            if v <= 255 {
                Some(v as u8)
            } else {
                None
            }
        },
        None => {
            proof {
                if s@.len() >= 1 && all_dec_digits(s@) {
                    lemma_dec_value_nonneg(s@);
                }
            }
            None
        },
    }
}

/// The number a digit string denotes when read least-significant first.
pub open spec fn dec_rev_value(s: Seq<u8>) -> int
    decreases s.len(),
{
    if s.len() == 0 {
        0
    } else {
        (s[0] - 48) + 10 * dec_rev_value(s.drop_first())
    }
}

/// Reading digits most-significant first and least-significant first
/// agree once one string is the other reversed.
pub proof fn lemma_dec_value_reverse(s: Seq<u8>)
    ensures
        dec_value(s.reverse()) == dec_rev_value(s),
    decreases s.len(),
{
    if s.len() > 0 {
        lemma_dec_value_reverse(s.drop_first());
        assert(s.reverse().drop_last() =~= s.drop_first().reverse());
        assert(s.reverse().last() == s[0]);
    }
}

/// Pushing one more (more-significant) digit scales its weight by the
/// digits already present.
proof fn lemma_dec_rev_push(s: Seq<u8>, d: u8)
    ensures
        dec_rev_value(s.push(d)) == dec_rev_value(s) + (d - 48) * vstd::arithmetic::power::pow(
            10,
            s.len() as nat,
        ),
    decreases s.len(),
{
    if s.len() == 0 {
        assert(s.push(d)[0] == d);
        assert(s.push(d).drop_first() =~= Seq::<u8>::empty());
        assert(dec_rev_value(Seq::<u8>::empty()) == 0);
        vstd::arithmetic::power::lemma_pow0(10);
        assert((d - 48) * 1 == d - 48) by (nonlinear_arith);
    } else {
        lemma_dec_rev_push(s.drop_first(), d);
        assert(s.push(d).drop_first() =~= s.drop_first().push(d));
        assert(s.push(d)[0] == s[0]);
        vstd::arithmetic::power::lemma_pow1(10);
        vstd::arithmetic::power::lemma_pow_adds(10, 1, (s.len() - 1) as nat);
        let p = vstd::arithmetic::power::pow(10, (s.len() - 1) as nat);
        assert(vstd::arithmetic::power::pow(10, s.len() as nat) == 10 * p);
        assert(10 * (dec_rev_value(s.drop_first()) + (d - 48) * p) == 10 * dec_rev_value(
            s.drop_first(),
        ) + (d - 48) * (10 * p)) by (nonlinear_arith);
    }
}

/// Writes a number as its decimal digit string — the inverse of
/// `parse_u32` on canonical (no leading zero) strings.
pub fn u32_to_dec_bytes(v: u32) -> (r: Vec<u8>)
    ensures
        r@.len() >= 1,
        all_dec_digits(r@),
        dec_value(r@) == v,
        r@.len() > 1 ==> r@[0] != 48,
{
    if v == 0 {
        let mut out: Vec<u8> = Vec::new();
        out.push(48);
        proof {
            assert(out@.drop_last() =~= Seq::<u8>::empty());
            assert(dec_value(Seq::<u8>::empty()) == 0);
        }
        return out;
    }
    let mut digits: Vec<u8> = Vec::new();
    let mut x = v;
    proof {
        vstd::arithmetic::power::lemma_pow0(10);
    }
    while x > 0
        invariant
            v == dec_rev_value(digits@) + x * vstd::arithmetic::power::pow(10, digits@.len()),
            all_dec_digits(digits@),
            x == 0 ==> digits@.len() >= 1 && digits@.last() != 48,
            x > 0 || digits@.len() >= 1,
        decreases x,
    {
        let d = (x % 10) as u8 + 48;
        let ghost pre = digits@;
        let ghost xpre = x as int;
        digits.push(d);
        x = x / 10;
        proof {
            let q = xpre / 10;
            let rr = xpre % 10;
            let p = vstd::arithmetic::power::pow(10, pre.len() as nat);
            lemma_dec_rev_push(pre, d);
            vstd::arithmetic::power::lemma_pow1(10);
            vstd::arithmetic::power::lemma_pow_adds(10, pre.len() as nat, 1);
            assert(vstd::arithmetic::power::pow(10, digits@.len() as nat) == p * 10);
            vstd::arithmetic::div_mod::lemma_fundamental_div_mod(xpre, 10);
            assert(xpre == 10 * q + rr);
            assert((10 * q + rr) * p == q * (p * 10) + rr * p) by (nonlinear_arith);
            assert(d - 48 == rr);
            assert(v == dec_rev_value(digits@) + q * (p * 10));
        }
    }
    let mut out: Vec<u8> = Vec::new();
    let mut j = digits.len();
    while j > 0
        invariant
            j <= digits@.len(),
            all_dec_digits(digits@),
            out@ =~= digits@.subrange(j as int, digits@.len() as int).reverse(),
        decreases j,
    {
        j = j - 1;
        out.push(digits[j]);
        proof {
            assert(out@ =~= digits@.subrange(j as int, digits@.len() as int).reverse());
        }
    }
    proof {
        assert(digits@.subrange(0, digits@.len() as int) =~= digits@);
        assert(out@ == digits@.reverse());
        lemma_dec_value_reverse(digits@);
        assert(out@[0] == digits@.last());
        assert(all_dec_digits(out@));
        vstd::arithmetic::power::lemma_pow0(10);
    }
    out
}

/// A transmit request as the console hands it over: destination id, ack
/// required, ttl, payload bytes.
pub type MessageTuple = (NetworkId, bool, u8, BmNetworkPacketPayload);

/// `i1 < i2 < i3` are the positions of the commas of the argument string,
/// and there are exactly three.
pub open spec fn comma_positions_ok(s: Seq<u8>, i1: int, i2: int, i3: int) -> bool {
    &&& 0 <= i1 < i2 < i3 < s.len()
    &&& s[i1] == COMMA && s[i2] == COMMA && s[i3] == COMMA
    &&& forall|j: int| 0 <= j < s.len() && j != i1 && j != i2 && j != i3 ==> s[j] != COMMA
}

pub proof fn lemma_comma_positions_unique(
    s: Seq<u8>,
    a1: int,
    a2: int,
    a3: int,
    b1: int,
    b2: int,
    b3: int,
)
    requires
        comma_positions_ok(s, a1, a2, a3),
        comma_positions_ok(s, b1, b2, b3),
    ensures
        a1 == b1 && a2 == b2 && a3 == b3,
{
    assert(s[a1] == COMMA && s[a2] == COMMA && s[a3] == COMMA);
    assert(s[b1] == COMMA && s[b2] == COMMA && s[b3] == COMMA);
    assert(a1 == b1 || a1 == b2 || a1 == b3);
    assert(a2 == b1 || a2 == b2 || a2 == b3);
    assert(a3 == b1 || a3 == b2 || a3 == b3);
    assert(b1 == a1 || b1 == a2 || b1 == a3);
    assert(b2 == a1 || b2 == a2 || b2 == a3);
    assert(b3 == a1 || b3 == a2 || b3 == a3);
}

/// What the `AT+MSEND` argument string `<dest>,<ack>,<ttl>,<payload>`
/// denotes: the destination and ttl read as decimal numbers, the ack flag
/// read as the word `true`, and the payload taken verbatim. Absent or
/// extra commas, a malformed number, or an oversize payload refuse the
/// whole string.
pub open spec fn msg_spec(s: Seq<u8>) -> Option<(u32, bool, u8, Seq<u8>)> {
    if exists|i1: int, i2: int, i3: int| comma_positions_ok(s, i1, i2, i3) {
        let (i1, i2, i3) = choose|i1: int, i2: int, i3: int| comma_positions_ok(s, i1, i2, i3);
        let dest = s.subrange(0, i1);
        let ackb = s.subrange(i1 + 1, i2);
        let ttlb = s.subrange(i2 + 1, i3);
        let pl = s.subrange(i3 + 1, s.len() as int);
        if dest.len() >= 1 && all_dec_digits(dest) && dec_value(dest) <= u32::MAX && ttlb.len()
            >= 1 && all_dec_digits(ttlb) && dec_value(ttlb) <= 255 && pl.len()
            <= BM_MAX_PAYLOAD_SIZE {
            Some(
                (
                    dec_value(dest) as u32,
                    ackb == "true".spec_bytes(),
                    dec_value(ttlb) as u8,
                    pl,
                ),
            )
        } else {
            None
        }
    } else {
        None
    }
}

/// Parses the `AT+MSEND` argument string into a transmit request, as
/// `msg_spec` says.
pub fn cmd_arg_into_msg(argument_buffer: &[u8]) -> (r: Option<MessageTuple>)
    ensures
        match r {
            Some((nid, ack, ttl, payload)) => msg_spec(argument_buffer@) matches Some(m) && nid
                == Some(m.0) && ack == m.1 && ttl == m.2 && payload@ == m.3,
            None => msg_spec(argument_buffer@) is None,
        },
{
    let s = argument_buffer;
    let mut c1: usize = 0;
    let mut c2: usize = 0;
    let mut c3: usize = 0;
    let mut count: usize = 0;
    let mut i: usize = 0;
    while i < s.len()
        invariant
            s@ == argument_buffer@,
            i <= s@.len(),
            count <= 3,
            count >= 1 ==> 0 <= c1 < i && s@[c1 as int] == COMMA,
            count >= 2 ==> c1 < c2 < i && s@[c2 as int] == COMMA,
            count >= 3 ==> c2 < c3 < i && s@[c3 as int] == COMMA,
            forall|j: int|
                0 <= j < i && j != c1 as int && j != c2 as int && j != c3 as int ==> s@[j] != COMMA,
            count == 0 ==> forall|j: int| 0 <= j < i ==> s@[j] != COMMA,
            count == 1 ==> forall|j: int| 0 <= j < i && j != c1 as int ==> s@[j] != COMMA,
            count == 2 ==> forall|j: int|
                0 <= j < i && j != c1 as int && j != c2 as int ==> s@[j] != COMMA,
        decreases s@.len() - i,
    {
        if s[i] == COMMA {
            if count == 0 {
                c1 = i;
            } else if count == 1 {
                c2 = i;
            } else if count == 2 {
                c3 = i;
            } else {
                proof {
                    assert forall|i1: int, i2: int, i3: int|
                        !comma_positions_ok(s@, i1, i2, i3) by {
                        if comma_positions_ok(s@, i1, i2, i3) {
                            assert(s@[i as int] == COMMA);
                            assert(i as int == i1 || i as int == i2 || i as int == i3);
                            assert(s@[c1 as int] == COMMA);
                            assert(c1 as int == i1 || c1 as int == i2 || c1 as int == i3);
                            assert(s@[c2 as int] == COMMA);
                            assert(c2 as int == i1 || c2 as int == i2 || c2 as int == i3);
                            assert(s@[c3 as int] == COMMA);
                            assert(c3 as int == i1 || c3 as int == i2 || c3 as int == i3);
                        }
                    }
                }
                return None;
            }
            count = count + 1;
        }
        i = i + 1;
    }
    if count != 3 {
        proof {
            assert forall|i1: int, i2: int, i3: int| !comma_positions_ok(s@, i1, i2, i3) by {
                if comma_positions_ok(s@, i1, i2, i3) {
                    assert(s@[i1] == COMMA);
                    assert(s@[i2] == COMMA);
                    assert(s@[i3] == COMMA);
                    if count == 0 {
                    } else if count == 1 {
                        assert(i1 == c1 as int && i2 == c1 as int);
                    } else {
                        assert(i1 == c1 as int || i1 == c2 as int);
                        assert(i2 == c1 as int || i2 == c2 as int);
                        assert(i3 == c1 as int || i3 == c2 as int);
                    }
                }
            }
        }
        return None;
    }
    proof {
        assert(comma_positions_ok(s@, c1 as int, c2 as int, c3 as int));
        let (i1, i2, i3) = choose|i1: int, i2: int, i3: int| comma_positions_ok(s@, i1, i2, i3);
        lemma_comma_positions_unique(s@, c1 as int, c2 as int, c3 as int, i1, i2, i3);
        assert((choose|i1: int, i2: int, i3: int| comma_positions_ok(s@, i1, i2, i3)) == (
        c1 as int,
        c2 as int,
        c3 as int,
        ));
    }
    let dest_part = crate::bm_network_packet::slice_range(s, 0, c1);
    let ack_part = crate::bm_network_packet::slice_range(s, c1 + 1, c2);
    let ttl_part = crate::bm_network_packet::slice_range(s, c2 + 1, c3);
    let payload_part = crate::bm_network_packet::slice_range(s, c3 + 1, s.len());
    let network_id = match parse_u32(dest_part) {
        Some(v) => v,
        None => {
            return None;
        },
    };
    let ack_required = bytes_eq_str(ack_part, "true");
    let ttl = match parse_u8(ttl_part) {
        Some(v) => v,
        None => {
            return None;
        },
    };
    if payload_part.len() > BM_MAX_PAYLOAD_SIZE {
        return None;
    }
    let mut payload: BmNetworkPacketPayload = Vec::new();
    let mut k: usize = 0;
    while k < payload_part.len()
        invariant
            k <= payload_part@.len(),
            payload@ =~= payload_part@.subrange(0, k as int),
        decreases payload_part@.len() - k,
    {
        payload.push(payload_part[k]);
        proof {
            assert(payload@ =~= payload_part@.subrange(0, k + 1 as int));
        }
        k = k + 1;
    }
    proof {
        assert(payload@ =~= payload_part@);
    }
    Some((Some(network_id), ack_required, ttl, payload))
}

} // verus!
