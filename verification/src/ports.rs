//! The ports of a session, and the handshake line that the daemon reports them in.

use crate::error::CoreError;
use crate::number::{
    all_digits, decimal, decimal_int, i32_from, is_digit, law_decimal_reads_back,
    law_nat_round_trip, law_signed_round_trip, nat_from, nat_text, parse_nat, parse_signed,
};
use crate::text::{
    chars_of, debug_text, is_white_space, is_word, join, law_words_of_join, quoted, string_of,
    views, words, words_in,
};
use vstd::prelude::*;
use vstd::string::*;

verus! {

/// The ports of a session.
#[derive(Debug, Clone, Copy, PartialEq, Eq, Structural)]
pub enum PortId {
    /// Daemon control port.
    Daemon,
    /// Port that the front end listens on for messages from Spider.
    GuiListenToSpider,
    /// Port that the front end sends to Spider on.
    GuiSendToSpider,
    /// Port of the audio engine.
    Scsynth,
    /// Port for external cues.
    TauOscCues,
}

/// The ports of a session and the token that goes with its messages.
#[derive(Debug, Clone, Copy, PartialEq, Eq, Structural)]
pub struct Ports {
    pub daemon: u16,
    pub gui_listen: u16,
    pub gui_send: u16,
    pub scsynth: u16,
    pub osc_cues: u16,
    pub token: i32,
}

/// The port that a handshake field gives.
pub open spec fn port_field(f: Seq<char>) -> Option<nat> {
    parse_nat(f, 65535)
}

/// Why a handshake line is refused, if it is: too few fields, or the first field
/// that is not what it should be.
pub open spec fn handshake_fault(line: Seq<char>) -> Option<Seq<char>> {
    let f = words(line);
    if f.len() < 6 {
        Some("expected 6 fields, got "@ + decimal(f.len()) + ": "@ + quoted(line))
    } else if port_field(f[0]) is None {
        Some("bad port "@ + quoted(f[0]))
    } else if port_field(f[1]) is None {
        Some("bad port "@ + quoted(f[1]))
    } else if port_field(f[2]) is None {
        Some("bad port "@ + quoted(f[2]))
    } else if port_field(f[3]) is None {
        Some("bad port "@ + quoted(f[3]))
    } else if port_field(f[4]) is None {
        Some("bad port "@ + quoted(f[4]))
    } else if parse_signed(f[5]) is None {
        Some("bad token "@ + quoted(f[5]))
    } else {
        None
    }
}

/// The ports of a handshake line that is not refused.
pub open spec fn handshake_ports(line: Seq<char>) -> Ports {
    let f = words(line);
    Ports {
        daemon: port_field(f[0])->0 as u16,
        gui_listen: port_field(f[1])->0 as u16,
        gui_send: port_field(f[2])->0 as u16,
        scsynth: port_field(f[3])->0 as u16,
        osc_cues: port_field(f[4])->0 as u16,
        token: parse_signed(f[5])->0 as i32,
    }
}

fn port(f: &[char]) -> (r: Result<u16, CoreError>)
    ensures
        match r {
            Ok(p) => port_field(f@) == Some(p as nat),
            Err(CoreError::Handshake(t)) => port_field(f@) is None && t@ == "bad port "@ + quoted(f@),
            Err(_) => false,
        },
{
    match nat_from(f, 65535) {
        Some(n) => Ok(n as u16),
        None => {
            let mut t: String = String::from_str("bad port ");
            t.append(debug_text(string_of(f).as_str()).as_str());
            Err(CoreError::Handshake(t))
        },
    }
}

impl Ports {
    pub open spec fn port_of(self, id: PortId) -> u16 {
        match id {
            PortId::Daemon => self.daemon,
            PortId::GuiListenToSpider => self.gui_listen,
            PortId::GuiSendToSpider => self.gui_send,
            PortId::Scsynth => self.scsynth,
            PortId::TauOscCues => self.osc_cues,
        }
    }

    pub fn get(&self, id: PortId) -> (r: u16)
        ensures
            r == self.port_of(id),
    {
        match id {
            PortId::Daemon => self.daemon,
            PortId::GuiListenToSpider => self.gui_listen,
            PortId::GuiSendToSpider => self.gui_send,
            PortId::Scsynth => self.scsynth,
            PortId::TauOscCues => self.osc_cues,
        }
    }

    /// A table of ports that were allocated here rather than reported by a daemon.
    pub fn from_parts(
        daemon: u16,
        gui_listen: u16,
        gui_send: u16,
        scsynth: u16,
        osc_cues: u16,
        token: i32,
    ) -> (r: Ports)
        ensures
            r == (Ports { daemon, gui_listen, gui_send, scsynth, osc_cues, token }),
    {
        Ports { daemon, gui_listen, gui_send, scsynth, osc_cues, token }
    }

    /// Reads the daemon's handshake line: the five ports and the token, in order,
    /// with white space between them. More fields may follow.
    pub fn parse_daemon_line(line: &str) -> (r: Result<Ports, CoreError>)
        ensures
            match r {
                Ok(p) => handshake_fault(line@) is None && p == handshake_ports(line@),
                Err(CoreError::Handshake(t)) => handshake_fault(line@) == Some(t@),
                Err(_) => false,
            },
    {
        let cs: Vec<char> = chars_of(line);
        let f: Vec<&[char]> = words_in(cs.as_slice());
        assert(views(f@).len() == f@.len());
        assert(forall|i: int| 0 <= i < f@.len() ==> views(f@)[i] == #[trigger] f@[i]@);
        if f.len() < 6 {
            let mut t: String = String::from_str("expected 6 fields, got ");
            t.append(nat_text(f.len() as u64).as_str());
            t.append(": ");
            t.append(debug_text(line).as_str());
            return Err(CoreError::Handshake(t));
        }
        let daemon: u16 = match port(f[0]) {
            Ok(p) => p,
            Err(e) => {
                return Err(e);
            },
        };
        let gui_listen: u16 = match port(f[1]) {
            Ok(p) => p,
            Err(e) => {
                return Err(e);
            },
        };
        let gui_send: u16 = match port(f[2]) {
            Ok(p) => p,
            Err(e) => {
                return Err(e);
            },
        };
        let scsynth: u16 = match port(f[3]) {
            Ok(p) => p,
            Err(e) => {
                return Err(e);
            },
        };
        let osc_cues: u16 = match port(f[4]) {
            Ok(p) => p,
            Err(e) => {
                return Err(e);
            },
        };
        match i32_from(f[5]) {
            Some(token) => Ok(
                Ports { daemon, gui_listen, gui_send, scsynth, osc_cues, token },
            ),
            None => {
                let mut t: String = String::from_str("bad token ");
                t.append(debug_text(string_of(f[5]).as_str()).as_str());
                Err(CoreError::Handshake(t))
            },
        }
    }
}

/// The fields of the handshake line for some ports.
pub open spec fn handshake_fields(p: Ports) -> Seq<Seq<char>> {
    seq![
        decimal(p.daemon as nat),
        decimal(p.gui_listen as nat),
        decimal(p.gui_send as nat),
        decimal(p.scsynth as nat),
        decimal(p.osc_cues as nat),
        decimal_int(p.token as int),
    ]
}

proof fn lemma_digits_are_a_word(s: Seq<char>)
    requires
        all_digits(s),
    ensures
        is_word(s),
{
    assert forall|i: int| 0 <= i < s.len() implies !is_white_space(#[trigger] s[i]) by {
        assert(is_digit(s[i]));
    }
}

proof fn lemma_decimal_is_a_word(n: int)
    ensures
        is_word(decimal_int(n)),
{
    if n < 0 {
        law_decimal_reads_back((-n) as nat);
        lemma_digits_are_a_word(decimal((-n) as nat));
        let d = decimal((-n) as nat);
        let s = decimal_int(n);
        assert forall|i: int| 0 <= i < s.len() implies !is_white_space(#[trigger] s[i]) by {
            if i > 0 {
                assert(s[i] == d[i - 1]);
            }
        }
    } else {
        law_decimal_reads_back(n as nat);
        lemma_digits_are_a_word(decimal(n as nat));
    }
}

/// A handshake line reads back as the ports and the token that it was made of.
pub proof fn law_handshake_reads_back(p: Ports)
    ensures
        handshake_fault(join(handshake_fields(p), " "@)) is None,
        handshake_ports(join(handshake_fields(p), " "@)) == p,
{
    let f = handshake_fields(p);
    lemma_decimal_is_a_word(p.daemon as int);
    lemma_decimal_is_a_word(p.gui_listen as int);
    lemma_decimal_is_a_word(p.gui_send as int);
    lemma_decimal_is_a_word(p.scsynth as int);
    lemma_decimal_is_a_word(p.osc_cues as int);
    lemma_decimal_is_a_word(p.token as int);
    law_words_of_join(f);
    law_nat_round_trip(p.daemon as nat, 65535);
    law_nat_round_trip(p.gui_listen as nat, 65535);
    law_nat_round_trip(p.gui_send as nat, 65535);
    law_nat_round_trip(p.scsynth as nat, 65535);
    law_nat_round_trip(p.osc_cues as nat, 65535);
    law_signed_round_trip(p.token as int);
}

/// A handshake line is refused for the first of its fields that is not what it should
/// be, and the refusal quotes that field.
pub proof fn law_first_bad_field_is_named(f: Seq<Seq<char>>, i: int)
    requires
        f.len() >= 6,
        forall|j: int| 0 <= j < f.len() ==> is_word(#[trigger] f[j]),
        0 <= i < 6,
        forall|j: int| 0 <= j < i ==> parse_nat(#[trigger] f[j], 0xffff) is Some,
        i < 5 ==> parse_nat(f[i], 0xffff) is None,
        i == 5 ==> parse_signed(f[i]) is None,
    ensures
        handshake_fault(join(f, " "@)) == Some(
            if i < 5 {
                "bad port "@ + quoted(f[i])
            } else {
                "bad token "@ + quoted(f[i])
            },
        ),
{
    law_words_of_join(f);
}

/// A line of fewer fields than six is refused, with their number and the line.
pub proof fn law_too_few_fields_are_counted(f: Seq<Seq<char>>)
    requires
        f.len() < 6,
        forall|j: int| 0 <= j < f.len() ==> is_word(#[trigger] f[j]),
    ensures
        handshake_fault(join(f, " "@)) == Some(
            "expected 6 fields, got "@ + decimal(f.len()) + ": "@ + quoted(join(f, " "@)),
        ),
{
    law_words_of_join(f);
}

/// The fields of a handshake stand in one order: the daemon's port, the one to listen
/// on, the one to send to, the engine's, the one for cues, and the token; whatever
/// follows is not read.
pub proof fn law_handshake_fields_in_order(f: Seq<Seq<char>>)
    requires
        f.len() >= 6,
        forall|j: int| 0 <= j < f.len() ==> is_word(#[trigger] f[j]),
        handshake_fault(join(f, " "@)) is None,
    ensures
        ({
            let p = handshake_ports(join(f, " "@));
            &&& parse_nat(f[0], 0xffff) == Some(p.daemon as nat)
            &&& parse_nat(f[1], 0xffff) == Some(p.gui_listen as nat)
            &&& parse_nat(f[2], 0xffff) == Some(p.gui_send as nat)
            &&& parse_nat(f[3], 0xffff) == Some(p.scsynth as nat)
            &&& parse_nat(f[4], 0xffff) == Some(p.osc_cues as nat)
            &&& parse_signed(f[5]) == Some(p.token as int)
        }),
{
    law_words_of_join(f);
}

/// A port is asked for by what it is for.
pub proof fn law_each_port_has_its_use(p: Ports)
    ensures
        p.port_of(PortId::Daemon) == p.daemon,
        p.port_of(PortId::GuiListenToSpider) == p.gui_listen,
        p.port_of(PortId::GuiSendToSpider) == p.gui_send,
        p.port_of(PortId::Scsynth) == p.scsynth,
        p.port_of(PortId::TauOscCues) == p.osc_cues,
{
}

} // verus!
