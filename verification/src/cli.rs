//! What the command line means: the texts shown to the user, how numbers are
//! read, and what a set of arguments asks the program to do.

use crate::address::{parsed_address, AddressError, HardwareAddress};
use crate::config::DEFAULT_MTU;
use vstd::prelude::*;
use vstd::string::*;
use vstd::utf8::is_ascii_chars;

verus! {

/// The help text up to the version number.
pub const HELP_HEAD: &'static str = "EtherCat ";

/// The help text after the version number.
pub const HELP_TAIL: &'static str = "
Copyright (c) Philip Conrad <conradp@chariot-chaser.net>, 2020.
All rights reserved. Released under the BSD-3 license.

Usage:
  ethercat [OPTIONS] SOURCE_IF DEST_MAC

Arguments:
 SOURCE_IF  Host interface to send/receive packets from.
 DEST_MAC   Destination MAC to send/receive packets to/from.

Options:
 -I     Size for receive buffer. [Default: 4096] (Not implemented yet.)
 -O     Size for send buffer. [Default: 1500]
 -i     File to read input from. Send buffer automatically flushes
        on EOF.
 -l     *Listen Mode*: Program does not terminate on exhausting STDIN, and
        will listen for packets indefinitely.
 -s     *Server Mode*: Binds STDIN and STDOUT of a program, turning it into an
        ethernet socket server on the host interface.
        - Read inbound messages from STDIN.
        - Write outbound messages to STDOUT.
          Output messages are delimited by line breaks. ('\\n')


Future:
 - Option to spoof sender MAC?
 - Option to spoof packet checksums?
 - Option(s) to allow VLAN tagging, and other tag stuff?
";

/// What is shown before the version number when only the version is asked
/// for.
pub const VERSION_HEAD: &'static str = "EtherCat version ";

/// Size of the receive buffer when none is asked for.
pub const DEFAULT_RECV_BUFFER: u16 = 4096;

/// What is said when a positional argument is missing.
pub const MISSING_ARGUMENTS: &'static str = "Error: Need both SOURCE_IF and DEST_MAC arguments.";

/// What is said of a destination with more than six components.
pub const TOO_MANY_COMPONENTS: &'static str = "Error: TooManyComponents";

/// What is said of a destination with fewer than six components.
pub const TOO_FEW_COMPONENTS: &'static str = "Error: TooFewComponents";

/// What is said of a destination with a component that is no byte.
pub const INVALID_COMPONENT: &'static str = "Error: InvalidComponent";

/// What is said of a send MTU of zero.
pub const ZERO_MTU: &'static str = "Error: The send buffer must hold at least one byte.";

/// What is said of a text that is not a number.
pub const NOT_A_NUMBER: &'static str = "not a number";

/// The help text for the program in version `version`.
pub fn gen_help_text(version: String) -> (text: String)
    ensures
        text@ == HELP_HEAD@ + version@ + HELP_TAIL@,
{
    let mut text = HELP_HEAD.to_owned();
    text.append(version.as_str());
    text.append(HELP_TAIL);
    text
}

/// The version of the program, written out from its parts: major, minor and
/// patch number separated by dots, then the pre-release tag, if any, as it
/// is.
pub fn version_number(major: &str, minor: &str, patch: &str, pre: &str) -> (text: String)
    ensures
        text@ == major@ + "."@ + minor@ + "."@ + patch@ + pre@,
{
    let mut text = major.to_owned();
    text.append(".");
    text.append(minor);
    text.append(".");
    text.append(patch);
    text.append(pre);
    text
}

/// The line shown when only the version is asked for.
pub fn version_text(version: &str) -> (text: String)
    ensures
        text@ == VERSION_HEAD@ + version@,
{
    let mut text = VERSION_HEAD.to_owned();
    text.append(version);
    text
}

/// The byte that stands for the plus sign.
const PLUS: u8 = 43;

/// The byte that stands for the digit zero.
const DIGIT_ZERO: u8 = 48;

/// The byte that stands for the digit nine.
const DIGIT_NINE: u8 = 57;

/// Whether `c` is one of the ten decimal digits.
pub open spec fn is_digit(c: char) -> bool {
    '0' <= c <= '9'
}

/// The number that a decimal digit stands for.
pub open spec fn digit_value(c: char) -> nat {
    (c as nat - '0' as nat) as nat
}

/// The number that a run of decimal digits stands for, most significant
/// digit first.
pub open spec fn decimal_value(digits: Seq<char>) -> nat
    decreases digits.len(),
{
    if digits.len() == 0 {
        0
    } else {
        10 * decimal_value(digits.drop_last()) + digit_value(digits.last())
    }
}

/// Whether every character of `text` is a decimal digit.
pub open spec fn all_digits(text: Seq<char>) -> bool {
    forall|i: int| 0 <= i < text.len() ==> is_digit(#[trigger] text[i])
}

/// The digits of a number written as `text`: the text itself, without the
/// plus sign that may stand in front.
pub open spec fn digits_of(text: Seq<char>) -> Seq<char> {
    if text.len() > 0 && text[0] == '+' {
        text.skip(1)
    } else {
        text
    }
}

/// The number written as `text`, if `text` is a number: one or more decimal
/// digits, with or without a plus sign in front, that stand for a value
/// within 32 bits. Leading zeros are digits like any other.
pub open spec fn number_of(text: Seq<char>) -> Option<u32> {
    let digits = digits_of(text);
    if digits.len() > 0 && all_digits(digits) && decimal_value(digits) <= u32::MAX {
        Some(decimal_value(digits) as u32)
    } else {
        None
    }
}

/// The value of a run of digits is at least the value of any run that it
/// starts with.
proof fn lemma_value_grows(digits: Seq<char>, k: int)
    requires
        0 <= k <= digits.len(),
    ensures
        decimal_value(digits.take(k)) <= decimal_value(digits),
    decreases digits.len() - k,
{
    if k == digits.len() {
        assert(digits.take(k) =~= digits);
    } else {
        lemma_value_grows(digits, k + 1);
        assert(digits.take(k + 1).drop_last() =~= digits.take(k));
    }
}

/// Reads an unsigned 32-bit number written in decimal.
pub fn parse_int(s: &str) -> (number: Result<u32, String>)
    ensures
        match number_of(s@) {
            Some(n) => number == Ok::<u32, String>(n),
            None => number is Err && number->Err_0@ == NOT_A_NUMBER@,
        },
{
    broadcast use is_ascii_spec_bytes;

    if !s.is_ascii() {
        proof {
            // A character outside ASCII is neither a digit nor a plus sign.
            let i = choose|i: int| 0 <= i < s@.len() && !('\0' <= #[trigger] s@[i] <= '\u{7f}');
            let digits = digits_of(s@);
            if digits.len() < s@.len() {
                assert(!is_digit(digits[i - 1]));
            }
        }
        return Err(NOT_A_NUMBER.to_owned());
    }
    let bytes = s.as_bytes();
    let n = bytes.len();
    let start: usize = if n > 0 && bytes[0] == PLUS {
        1
    } else {
        0
    };
    let ghost digits = digits_of(s@);
    if start == n {
        return Err(NOT_A_NUMBER.to_owned());
    }
    let mut value: u32 = 0;
    let mut i: usize = start;
    while i < n
        invariant
            start <= i <= n,
            n == s@.len(),
            n == bytes@.len(),
            is_ascii_chars(s@),
            digits == digits_of(s@),
            forall|j: int| 0 <= j < n ==> bytes@[j] == s@[j] as u8,
            digits == s@.skip(start as int),
            all_digits(digits.take(i - start)),
            value == decimal_value(digits.take(i - start)),
        decreases n - i,
    {
        let b = bytes[i];
        let ghost c = s@[i as int];
        assert(c == digits[i - start]);
        if b < DIGIT_ZERO || b > DIGIT_NINE {
            return Err(NOT_A_NUMBER.to_owned());
        }
        let next: u64 = value as u64 * 10 + (b - DIGIT_ZERO) as u64;
        proof {
            assert(digits.take(i + 1 - start).drop_last() =~= digits.take(i - start));
        }
        if next > u32::MAX as u64 {
            proof {
                lemma_value_grows(digits, i + 1 - start);
            }
            return Err(NOT_A_NUMBER.to_owned());
        }
        value = next as u32;
        i += 1;
    }
    assert(digits.take(i - start) =~= digits);
    Ok(value)
}

/// The arguments of one invocation, as read from the command line.
#[derive(Clone, Debug, PartialEq, Eq)]
pub struct Args {
    /// Help was asked for.
    pub help: bool,
    /// The version was asked for.
    pub version: bool,
    /// Size asked for the receive buffer. Reserved: nothing depends on it.
    pub recv_mtu: u16,
    /// Most payload bytes to send in one frame.
    pub send_mtu: u16,
    /// Keep listening once the input is exhausted.
    pub listen_mode: bool,
    /// The positional arguments: the interface's name, then the destination
    /// address.
    pub free: Vec<String>,
}

/// Why the arguments do not describe a session.
#[derive(Clone, Copy, Debug, PartialEq, Eq)]
pub enum ConfigurationError {
    /// The interface or the destination address is missing.
    MissingArguments,
    /// The destination is not a hardware address.
    UnparsableAddress(AddressError),
    /// The send MTU is zero.
    ZeroMtu,
}

/// A session to bring up.
#[derive(Clone, Debug, PartialEq, Eq)]
pub struct Launch {
    /// Name of the interface to run on.
    pub interface: String,
    /// Address to send every frame to.
    pub destination: HardwareAddress,
    /// Most payload bytes to send in one frame; not zero.
    pub mtu: u16,
    /// Keep listening once the input is exhausted.
    pub listen: bool,
}

/// The mathematical content of a [`Launch`].
pub struct LaunchView {
    pub interface: Seq<char>,
    pub destination: HardwareAddress,
    pub mtu: u16,
    pub listen: bool,
}

impl View for Launch {
    type V = LaunchView;

    open spec fn view(&self) -> LaunchView {
        LaunchView {
            interface: self.interface@,
            destination: self.destination,
            mtu: self.mtu,
            listen: self.listen,
        }
    }
}

/// What an invocation asks for.
#[derive(Clone, Debug, PartialEq, Eq)]
pub enum Startup {
    /// Show the help text and leave with success.
    ShowHelp,
    /// Show the version and leave with success.
    ShowVersion,
    /// Bring a session up.
    Connect(Launch),
}

/// The mathematical content of a [`Startup`].
pub enum StartupView {
    ShowHelp,
    ShowVersion,
    Connect(LaunchView),
}

impl View for Startup {
    type V = StartupView;

    open spec fn view(&self) -> StartupView {
        match self {
            Startup::ShowHelp => StartupView::ShowHelp,
            Startup::ShowVersion => StartupView::ShowVersion,
            Startup::Connect(launch) => StartupView::Connect(launch@),
        }
    }
}

/// The session to bring up for an interface name, the outcome of reading the
/// destination address, an MTU and the listen flag: none if the address could
/// not be read, none if the MTU is zero.
pub open spec fn launch_of(
    interface: Seq<char>,
    destination: Result<HardwareAddress, AddressError>,
    mtu: u16,
    listen: bool,
) -> Result<LaunchView, ConfigurationError> {
    match destination {
        Err(error) => Err(ConfigurationError::UnparsableAddress(error)),
        Ok(address) => if mtu == 0 {
            Err(ConfigurationError::ZeroMtu)
        } else {
            Ok(LaunchView { interface, destination: address, mtu, listen })
        },
    }
}

/// What the arguments ask for. Help goes before everything, the version
/// before everything but help; only then are the positional arguments looked
/// at, the destination address first read by `pnet`.
pub open spec fn startup_of(args: Args) -> Result<StartupView, ConfigurationError> {
    if args.help {
        Ok(StartupView::ShowHelp)
    } else if args.version {
        Ok(StartupView::ShowVersion)
    } else if args.free@.len() < 2 {
        Err(ConfigurationError::MissingArguments)
    } else {
        match launch_of(
            args.free@[0]@,
            parsed_address(args.free@[1]@),
            args.send_mtu,
            args.listen_mode,
        ) {
            Ok(launch) => Ok(StartupView::Connect(launch)),
            Err(error) => Err(error),
        }
    }
}

impl Launch {
    /// Puts a session's settings together once the destination address has
    /// been read, or says why there is no session to bring up.
    pub fn assemble(
        interface: String,
        destination: Result<HardwareAddress, AddressError>,
        mtu: u16,
        listen: bool,
    ) -> (launch: Result<Launch, ConfigurationError>)
        ensures
            match launch {
                Ok(l) => launch_of(interface@, destination, mtu, listen) == Ok::<
                    LaunchView,
                    ConfigurationError,
                >(l@),
                Err(e) => launch_of(interface@, destination, mtu, listen) == Err::<
                    LaunchView,
                    ConfigurationError,
                >(e),
            },
    {
        match destination {
            Err(error) => Err(ConfigurationError::UnparsableAddress(error)),
            Ok(address) => if mtu == 0 {
                Err(ConfigurationError::ZeroMtu)
            } else {
                Ok(Launch { interface, destination: address, mtu, listen })
            },
        }
    }
}

impl Args {
    /// The arguments of an invocation, with the default in place of each
    /// size that was not given.
    pub fn with_defaults(
        help: bool,
        version: bool,
        recv_mtu: Option<u16>,
        send_mtu: Option<u16>,
        listen_mode: bool,
        free: Vec<String>,
    ) -> (args: Args)
        ensures
            args == (Args {
                help,
                version,
                recv_mtu: match recv_mtu {
                    Some(size) => size,
                    None => DEFAULT_RECV_BUFFER,
                },
                send_mtu: match send_mtu {
                    Some(size) => size,
                    None => DEFAULT_MTU,
                },
                listen_mode,
                free,
            }),
    {
        Args {
            help,
            version,
            recv_mtu: match recv_mtu {
                Some(size) => size,
                None => DEFAULT_RECV_BUFFER,
            },
            send_mtu: match send_mtu {
                Some(size) => size,
                None => DEFAULT_MTU,
            },
            listen_mode,
            free,
        }
    }

    /// Says what the arguments ask for, or why they ask for nothing that can
    /// be done.
    pub fn startup(&self) -> (startup: Result<Startup, ConfigurationError>)
        ensures
            match startup {
                Ok(s) => startup_of(*self) == Ok::<StartupView, ConfigurationError>(s@),
                Err(e) => startup_of(*self) == Err::<StartupView, ConfigurationError>(e),
            },
    {
        if self.help {
            Ok(Startup::ShowHelp)
        } else if self.version {
            Ok(Startup::ShowVersion)
        } else if self.free.len() < 2 {
            Err(ConfigurationError::MissingArguments)
        } else {
            let destination = HardwareAddress::parse(self.free[1].as_str());
            match Launch::assemble(
                self.free[0].clone(),
                destination,
                self.send_mtu,
                self.listen_mode,
            ) {
                Ok(launch) => Ok(Startup::Connect(launch)),
                Err(error) => Err(error),
            }
        }
    }
}

impl Startup {
    /// The exit code of an invocation that only asks for a text to be
    /// shown: success. An invocation that asks for a session has none yet.
    pub fn exit_code(&self) -> (code: Option<i32>)
        ensures
            code == (match self@ {
                StartupView::ShowHelp => Some(0i32),
                StartupView::ShowVersion => Some(0i32),
                StartupView::Connect(_) => None,
            }),
    {
        match self {
            Startup::ShowHelp => Some(0),
            Startup::ShowVersion => Some(0),
            Startup::Connect(_) => None,
        }
    }
}

impl ConfigurationError {
    /// The text in which `self` is told to the user.
    pub open spec fn message_spec(self) -> Seq<char> {
        match self {
            ConfigurationError::MissingArguments => MISSING_ARGUMENTS@,
            ConfigurationError::UnparsableAddress(AddressError::TooManyComponents) => {
                TOO_MANY_COMPONENTS@
            },
            ConfigurationError::UnparsableAddress(AddressError::TooFewComponents) => {
                TOO_FEW_COMPONENTS@
            },
            ConfigurationError::UnparsableAddress(AddressError::InvalidComponent) => {
                INVALID_COMPONENT@
            },
            ConfigurationError::ZeroMtu => ZERO_MTU@,
        }
    }

    /// The text to tell the user.
    pub fn message(self) -> (text: String)
        ensures
            text@ == self.message_spec(),
    {
        match self {
            ConfigurationError::MissingArguments => MISSING_ARGUMENTS.to_owned(),
            ConfigurationError::UnparsableAddress(AddressError::TooManyComponents) => {
                TOO_MANY_COMPONENTS.to_owned()
            },
            ConfigurationError::UnparsableAddress(AddressError::TooFewComponents) => {
                TOO_FEW_COMPONENTS.to_owned()
            },
            ConfigurationError::UnparsableAddress(AddressError::InvalidComponent) => {
                INVALID_COMPONENT.to_owned()
            },
            ConfigurationError::ZeroMtu => ZERO_MTU.to_owned(),
        }
    }

    /// The exit code of a process that was given such arguments.
    pub fn exit_code(self) -> (code: i32)
        ensures
            code == 1,
    {
        1
    }
}

} // verus!
