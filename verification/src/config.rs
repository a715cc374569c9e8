//! The text form of a session's configuration: one peer for each line,
//! six fields separated by single spaces, in this order: local AS number,
//! local address, remote AS number, remote address, `active` or `passive`,
//! and the advertised prefix as address, `/` and length.
//!
//! Numbers are written in decimal digits, without sign; an address is four
//! numbers of at most 255 separated by dots.

use crate::bgp::AutonomousSystemNumber;
use crate::routing::{IpPrefix, Ipv4Addr};
use crate::{Config, Mode};
use vstd::prelude::*;
use vstd::string::StringSliceAdditionalSpecFns;

verus! {

/// Why a configuration was not accepted: the number of fields of a line is
/// not six, or the named field is not of its form.
#[derive(Clone, Copy, Debug, PartialEq, Eq, Structural)]
pub enum ConfigError {
    FieldCount,
    LocalAs,
    LocalAddress,
    RemoteAs,
    RemoteAddress,
    Mode,
    Prefix,
}

/// The octet of a space.
pub const SPACE: u8 = 32;

/// The octet of a dot.
pub const DOT: u8 = 46;

/// The octet of a slash.
pub const SLASH: u8 = 47;

/// The octet of a line feed.
pub const LINE_FEED: u8 = 10;

/// Whether the octet is a decimal digit.
pub open spec fn is_digit(octet: u8) -> bool {
    48 <= octet <= 57
}

/// Whether every octet is a decimal digit.
pub open spec fn all_digits(text: Seq<u8>) -> bool {
    forall|i: int| 0 <= i < text.len() ==> is_digit(#[trigger] text[i])
}

/// The number that a run of decimal digits writes.
pub open spec fn digits_value(text: Seq<u8>) -> nat
    decreases text.len(),
{
    if text.len() == 0 {
        0
    } else {
        digits_value(text.drop_last()) * 10 + (text.last() - 48) as nat
    }
}

/// The number that `text` writes: one or more decimal digits whose value is
/// at most `max`.
pub open spec fn number_of(text: Seq<u8>, max: nat) -> Option<nat> {
    if text.len() > 0 && all_digits(text) && digits_value(text) <= max {
        Some(digits_value(text))
    } else {
        None
    }
}

/// The pieces of `text` between the occurrences of `separator`. There is
/// always one piece more than there are separators, so a text that starts
/// or ends with the separator, or holds two in a row, has empty pieces.
pub open spec fn split(text: Seq<u8>, separator: u8) -> Seq<Seq<u8>>
    decreases text.len(),
{
    if text.len() == 0 {
        seq![Seq::empty()]
    } else if text.last() == separator {
        split(text.drop_last(), separator).push(Seq::empty())
    } else {
        let before = split(text.drop_last(), separator);
        before.drop_last().push(before.last().push(text.last()))
    }
}

/// The octets of `active`.
pub open spec fn active_word() -> Seq<u8> {
    seq![97u8, 99u8, 116u8, 105u8, 118u8, 101u8]
}

/// The octets of `passive`.
pub open spec fn passive_word() -> Seq<u8> {
    seq![112u8, 97u8, 115u8, 115u8, 105u8, 118u8, 101u8]
}

/// The mode that a field names.
pub open spec fn mode_of(field: Seq<u8>) -> Option<Mode> {
    if field == active_word() {
        Some(Mode::Active)
    } else if field == passive_word() {
        Some(Mode::Passive)
    } else {
        None
    }
}

/// The address that a field writes: four numbers of at most 255 between
/// three dots.
pub open spec fn address_of(field: Seq<u8>) -> Option<Ipv4Addr> {
    let parts = split(field, 46);
    if parts.len() == 4 && number_of(parts[0], 255) is Some && number_of(parts[1], 255) is Some
        && number_of(parts[2], 255) is Some && number_of(parts[3], 255) is Some {
        Some(
            Ipv4Addr::of(
                number_of(parts[0], 255)->0 as u8,
                number_of(parts[1], 255)->0 as u8,
                number_of(parts[2], 255)->0 as u8,
                number_of(parts[3], 255)->0 as u8,
            ),
        )
    } else {
        None
    }
}

/// The prefix that a field writes: an address, a slash, and a length of at
/// most 32. Bits of the address beyond the length are cleared.
pub open spec fn prefix_of(field: Seq<u8>) -> Option<IpPrefix> {
    let parts = split(field, 47);
    if parts.len() == 2 && address_of(parts[0]) is Some && number_of(parts[1], 32) is Some {
        Some(IpPrefix::of(address_of(parts[0])->0, number_of(parts[1], 32)->0 as u8))
    } else {
        None
    }
}

/// The configuration that six fields write; the error names the first
/// field that is not of its form.
pub open spec fn config_of_fields(fields: Seq<Seq<u8>>) -> Result<Config, ConfigError> {
    if fields.len() != 6 {
        Err(ConfigError::FieldCount)
    } else if number_of(fields[0], 0xffff) is None {
        Err(ConfigError::LocalAs)
    } else if address_of(fields[1]) is None {
        Err(ConfigError::LocalAddress)
    } else if number_of(fields[2], 0xffff) is None {
        Err(ConfigError::RemoteAs)
    } else if address_of(fields[3]) is None {
        Err(ConfigError::RemoteAddress)
    } else if mode_of(fields[4]) is None {
        Err(ConfigError::Mode)
    } else if prefix_of(fields[5]) is None {
        Err(ConfigError::Prefix)
    } else {
        Ok(
            Config {
                as_number: AutonomousSystemNumber(number_of(fields[0], 0xffff)->0 as u16),
                my_ip_addr: address_of(fields[1])->0,
                remote_as_number: AutonomousSystemNumber(number_of(fields[2], 0xffff)->0 as u16),
                remote_ip_addr: address_of(fields[3])->0,
                mode: mode_of(fields[4])->0,
                advertisement_network: prefix_of(fields[5])->0,
            },
        )
    }
}

/// The configuration that a line writes: its fields are the pieces between
/// its spaces.
pub open spec fn config_of_line(line: Seq<u8>) -> Result<Config, ConfigError> {
    config_of_fields(split(line, 32))
}

/// The configurations that lines write, in order. An empty line writes
/// none; the first line in error gives its error to the whole.
pub open spec fn configs_of_lines(lines: Seq<Seq<u8>>) -> Result<Seq<Config>, ConfigError>
    decreases lines.len(),
{
    if lines.len() == 0 {
        Ok(Seq::empty())
    } else {
        match configs_of_lines(lines.drop_last()) {
            Err(e) => Err(e),
            Ok(before) => if lines.last().len() == 0 {
                Ok(before)
            } else {
                match config_of_line(lines.last()) {
                    Err(e) => Err(e),
                    Ok(config) => Ok(before.push(config)),
                }
            },
        }
    }
}

/// The configurations that a text writes: its lines are the pieces between
/// its line feeds.
pub open spec fn configs_of_text(text: Seq<u8>) -> Result<Seq<Config>, ConfigError> {
    configs_of_lines(split(text, 10))
}

/// What each piece of a list holds.
pub open spec fn pieces(parts: Seq<Vec<u8>>) -> Seq<Seq<u8>> {
    Seq::new(parts.len(), |i: int| parts[i]@)
}

/// The octets of each string of a list.
pub open spec fn octets_of(args: Seq<&str>) -> Seq<Seq<u8>> {
    Seq::new(args.len(), |i: int| args[i].spec_bytes())
}

/// A longer run of digits writes no smaller number than its start.
pub proof fn lemma_digits_value_grows(text: Seq<u8>, start: int)
    requires
        0 <= start <= text.len(),
        all_digits(text),
    ensures
        digits_value(text.take(start)) <= digits_value(text),
    decreases text.len() - start,
{
    if start < text.len() {
        let shorter = text.drop_last();
        assert(all_digits(shorter)) by {
            assert forall|i: int| 0 <= i < shorter.len() implies is_digit(
                #[trigger] shorter[i],
            ) by {
                assert(shorter[i] == text[i]);
            }
        }
        assert(shorter.take(start) =~= text.take(start));
        lemma_digits_value_grows(shorter, start);
    } else {
        assert(text.take(start) =~= text);
    }
}

/// A copy of the octets of a slice.
pub fn octets_to_vec(octets: &[u8]) -> (copy: Vec<u8>)
    ensures
        copy@ == octets@,
{
    let mut copy: Vec<u8> = Vec::new();
    let mut i: usize = 0;
    while i < octets.len()
        invariant
            i <= octets.len(),
            copy@ == octets@.take(i as int),
        decreases octets.len() - i,
    {
        copy.push(octets[i]);
        i = i + 1;
        assert(copy@ =~= octets@.take(i as int));
    }
    assert(octets@.take(octets.len() as int) =~= octets@);
    copy
}

/// The pieces of `text` between the occurrences of `separator`.
pub fn split_octets(text: &Vec<u8>, separator: u8) -> (parts: Vec<Vec<u8>>)
    ensures
        pieces(parts@) == split(text@, separator),
        parts.len() >= 1,
{
    let mut parts: Vec<Vec<u8>> = Vec::new();
    let mut current: Vec<u8> = Vec::new();
    let mut i: usize = 0;
    assert(text@.take(0) =~= Seq::<u8>::empty());
    assert(pieces(parts@).push(current@) =~= seq![Seq::<u8>::empty()]);
    while i < text.len()
        invariant
            i <= text.len(),
            split(text@.take(i as int), separator) == pieces(parts@).push(current@),
        decreases text.len() - i,
    {
        let octet: u8 = text[i];
        let ghost seen = text@.take(i as int);
        let ghost next = text@.take(i + 1);
        proof {
            assert(next.drop_last() =~= seen);
            assert(next.last() == octet);
            assert(pieces(parts@).push(current@).drop_last() =~= pieces(parts@));
        }
        if octet == separator {
            proof {
                assert(pieces(parts@.push(current)) =~= pieces(parts@).push(current@));
            }
            parts.push(current);
            current = Vec::new();
            assert(split(next, separator) =~= pieces(parts@).push(current@));
        } else {
            current.push(octet);
            assert(split(next, separator) =~= pieces(parts@).push(current@));
        }
        i = i + 1;
    }
    proof {
        assert(text@.take(text.len() as int) =~= text@);
        assert(pieces(parts@.push(current)) =~= pieces(parts@).push(current@));
    }
    parts.push(current);
    parts
}

/// Reads a number of at most `max` from decimal digits.
pub fn parse_number(text: &Vec<u8>, max: u32) -> (number: Option<u32>)
    requires
        max <= 0xffff,
    ensures
        match number {
            Some(n) => number_of(text@, max as nat) == Some(n as nat),
            None => number_of(text@, max as nat) is None,
        },
{
    if text.len() == 0 {
        return None;
    }
    let mut value: u32 = 0;
    let mut i: usize = 0;
    assert(text@.take(0) =~= Seq::<u8>::empty());
    while i < text.len()
        invariant
            i <= text.len(),
            max <= 0xffff,
            value <= max,
            value == digits_value(text@.take(i as int)),
            all_digits(text@.take(i as int)),
        decreases text.len() - i,
    {
        let octet: u8 = text[i];
        if octet < 48 || octet > 57 {
            assert(!is_digit(text@[i as int]));
            return None;
        }
        let ghost next = text@.take(i + 1);
        proof {
            assert(next.drop_last() =~= text@.take(i as int));
            assert(next.last() == octet);
            assert(all_digits(next)) by {
                assert forall|j: int| 0 <= j < next.len() implies is_digit(#[trigger] next[j]) by {
                    if j < i {
                        assert(next[j] == text@.take(i as int)[j]);
                    }
                }
            }
        }
        let grown: u32 = value * 10 + (octet - 48) as u32;
        if grown > max {
            proof {
                if all_digits(text@) {
                    lemma_digits_value_grows(text@, i + 1);
                }
            }
            return None;
        }
        value = grown;
        i = i + 1;
    }
    assert(text@.take(text.len() as int) =~= text@);
    Some(value)
}

/// Reads `active` or `passive`.
pub fn parse_mode(field: &Vec<u8>) -> (mode: Option<Mode>)
    ensures
        mode == mode_of(field@),
{
    if field.len() == 6 && field[0] == 97 && field[1] == 99 && field[2] == 116 && field[3] == 105
        && field[4] == 118 && field[5] == 101 {
        assert(field@ =~= active_word());
        Some(Mode::Active)
    } else if field.len() == 7 && field[0] == 112 && field[1] == 97 && field[2] == 115 && field[3]
        == 115 && field[4] == 105 && field[5] == 118 && field[6] == 101 {
        assert(field@ =~= passive_word());
        Some(Mode::Passive)
    } else {
        None
    }
}

/// Reads an address in dotted decimal form.
pub fn parse_address(field: &Vec<u8>) -> (address: Option<Ipv4Addr>)
    ensures
        address == address_of(field@),
{
    let parts: Vec<Vec<u8>> = split_octets(field, DOT);
    if parts.len() != 4 {
        return None;
    }
    assert(pieces(parts@)[0] == parts@[0]@ && pieces(parts@)[1] == parts@[1]@ && pieces(
        parts@,
    )[2] == parts@[2]@ && pieces(parts@)[3] == parts@[3]@);
    let a: u32 = match parse_number(&parts[0], 255) {
        Some(n) => n,
        None => {
            return None;
        },
    };
    let b: u32 = match parse_number(&parts[1], 255) {
        Some(n) => n,
        None => {
            return None;
        },
    };
    let c: u32 = match parse_number(&parts[2], 255) {
        Some(n) => n,
        None => {
            return None;
        },
    };
    let d: u32 = match parse_number(&parts[3], 255) {
        Some(n) => n,
        None => {
            return None;
        },
    };
    Some(Ipv4Addr::new(a as u8, b as u8, c as u8, d as u8))
}

/// Reads a prefix: an address, a slash and a length.
pub fn parse_prefix(field: &Vec<u8>) -> (prefix: Option<IpPrefix>)
    ensures
        prefix == prefix_of(field@),
{
    let parts: Vec<Vec<u8>> = split_octets(field, SLASH);
    if parts.len() != 2 {
        return None;
    }
    assert(pieces(parts@)[0] == parts@[0]@ && pieces(parts@)[1] == parts@[1]@);
    let address: Ipv4Addr = match parse_address(&parts[0]) {
        Some(a) => a,
        None => {
            return None;
        },
    };
    let length: u32 = match parse_number(&parts[1], 32) {
        Some(n) => n,
        None => {
            return None;
        },
    };
    Some(IpPrefix::new(address, length as u8))
}

impl Mode {
    /// Reads `active` or `passive`.
    pub fn from_str(s: &str) -> (mode: Result<Mode, ConfigError>)
        ensures
            mode == match mode_of(s.spec_bytes()) {
                Some(m) => Ok::<Mode, ConfigError>(m),
                None => Err(ConfigError::Mode),
            },
    {
        match parse_mode(&octets_to_vec(s.as_bytes())) {
            Some(m) => Ok(m),
            None => Err(ConfigError::Mode),
        }
    }
}

impl IpPrefix {
    /// Reads a prefix from its text form, such as `10.0.0.0/8`.
    pub fn from_str(s: &str) -> (prefix: Result<IpPrefix, ConfigError>)
        ensures
            prefix == match prefix_of(s.spec_bytes()) {
                Some(p) => Ok::<IpPrefix, ConfigError>(p),
                None => Err(ConfigError::Prefix),
            },
    {
        match parse_prefix(&octets_to_vec(s.as_bytes())) {
            Some(p) => Ok(p),
            None => Err(ConfigError::Prefix),
        }
    }
}

impl Config {
    /// Reads a configuration from its six fields.
    pub fn parse_fields(fields: &Vec<Vec<u8>>) -> (config: Result<Config, ConfigError>)
        ensures
            config == config_of_fields(pieces(fields@)),
    {
        if fields.len() != 6 {
            return Err(ConfigError::FieldCount);
        }
        assert(pieces(fields@)[0] == fields@[0]@ && pieces(fields@)[1] == fields@[1]@ && pieces(
            fields@,
        )[2] == fields@[2]@ && pieces(fields@)[3] == fields@[3]@ && pieces(fields@)[4]
            == fields@[4]@ && pieces(fields@)[5] == fields@[5]@);
        let as_number: u32 = match parse_number(&fields[0], 0xffff) {
            Some(n) => n,
            None => {
                return Err(ConfigError::LocalAs);
            },
        };
        let my_ip_addr: Ipv4Addr = match parse_address(&fields[1]) {
            Some(a) => a,
            None => {
                return Err(ConfigError::LocalAddress);
            },
        };
        let remote_as_number: u32 = match parse_number(&fields[2], 0xffff) {
            Some(n) => n,
            None => {
                return Err(ConfigError::RemoteAs);
            },
        };
        let remote_ip_addr: Ipv4Addr = match parse_address(&fields[3]) {
            Some(a) => a,
            None => {
                return Err(ConfigError::RemoteAddress);
            },
        };
        let mode: Mode = match parse_mode(&fields[4]) {
            Some(m) => m,
            None => {
                return Err(ConfigError::Mode);
            },
        };
        let advertisement_network: IpPrefix = match parse_prefix(&fields[5]) {
            Some(p) => p,
            None => {
                return Err(ConfigError::Prefix);
            },
        };
        Ok(
            Config {
                as_number: AutonomousSystemNumber::new(as_number as u16),
                my_ip_addr,
                remote_as_number: AutonomousSystemNumber::new(remote_as_number as u16),
                remote_ip_addr,
                mode,
                advertisement_network,
            },
        )
    }

    /// Reads a configuration from its six fields, given as strings.
    pub fn parse_args(args: Vec<&str>) -> (config: Result<Config, ConfigError>)
        ensures
            config == config_of_fields(octets_of(args@)),
    {
        let mut fields: Vec<Vec<u8>> = Vec::new();
        let mut i: usize = 0;
        while i < args.len()
            invariant
                i <= args.len(),
                fields.len() == i,
                forall|j: int| 0 <= j < i ==> (#[trigger] fields@[j])@ == args@[j].spec_bytes(),
            decreases args.len() - i,
        {
            fields.push(octets_to_vec(args[i].as_bytes()));
            i = i + 1;
        }
        assert(pieces(fields@) =~= octets_of(args@));
        Self::parse_fields(&fields)
    }

    /// Reads a configuration from one line.
    pub fn parse_line(line: &Vec<u8>) -> (config: Result<Config, ConfigError>)
        ensures
            config == config_of_line(line@),
    {
        let fields: Vec<Vec<u8>> = split_octets(line, SPACE);
        Self::parse_fields(&fields)
    }

    /// Reads the configurations of all peers from the text of a
    /// configuration file.
    pub fn parse_text(text: &Vec<u8>) -> (configs: Result<Vec<Config>, ConfigError>)
        ensures
            match configs {
                Ok(list) => configs_of_text(text@) == Ok::<Seq<Config>, ConfigError>(list@),
                Err(e) => configs_of_text(text@) == Err::<Seq<Config>, ConfigError>(e),
            },
    {
        let lines: Vec<Vec<u8>> = split_octets(text, LINE_FEED);
        let mut configs: Vec<Config> = Vec::new();
        let mut i: usize = 0;
        assert(pieces(lines@).take(0) =~= Seq::<Seq<u8>>::empty());
        while i < lines.len()
            invariant
                i <= lines.len(),
                pieces(lines@) == split(text@, 10),
                configs_of_lines(pieces(lines@).take(i as int)) == Ok::<Seq<Config>, ConfigError>(
                    configs@,
                ),
            decreases lines.len() - i,
        {
            let ghost next = pieces(lines@).take(i + 1);
            proof {
                assert(next.drop_last() =~= pieces(lines@).take(i as int));
                assert(next.last() == lines@[i as int]@);
            }
            if lines[i].len() != 0 {
                match Self::parse_line(&lines[i]) {
                    Ok(config) => {
                        configs.push(config);
                    },
                    Err(e) => {
                        proof {
                            lemma_error_stays(pieces(lines@), i + 1);
                        }
                        return Err(e);
                    },
                }
            }
            i = i + 1;
        }
        assert(pieces(lines@).take(lines.len() as int) =~= pieces(lines@));
        Ok(configs)
    }
}

/// Once the lines up to `end` give an error, all the lines give that error.
pub proof fn lemma_error_stays(lines: Seq<Seq<u8>>, end: int)
    requires
        0 <= end <= lines.len(),
        configs_of_lines(lines.take(end)) is Err,
    ensures
        configs_of_lines(lines) == configs_of_lines(lines.take(end)),
    decreases lines.len() - end,
{
    if end < lines.len() {
        assert(lines.take(end + 1).drop_last() =~= lines.take(end));
        lemma_error_stays(lines, end + 1);
    } else {
        assert(lines.take(end) =~= lines);
    }
}

} // verus!
