//! OSC messages and packets as the library sees them, and the datagrams that
//! carry them.

use crate::error::CoreError;
use rosc::OscType as WireType;
use rustfft::num_traits::FromBytes;
use vstd::prelude::*;
use vstd::string::*;

verus! {

/// A point in time: seconds, and fractions of a second.
#[derive(Debug, Clone, Copy, PartialEq, Eq, Structural)]
pub struct OscTime {
    pub seconds: u32,
    pub fractional: u32,
}

/// A colour.
#[derive(Debug, Clone, Copy, PartialEq, Eq, Structural)]
pub struct OscColor {
    pub red: u8,
    pub green: u8,
    pub blue: u8,
    pub alpha: u8,
}

/// The parts of a MIDI message.
#[derive(Debug, Clone, Copy, PartialEq, Eq, Structural)]
pub struct OscMidiMessage {
    pub port: u8,
    pub status: u8,
    pub data1: u8,
    pub data2: u8,
}

/// One argument of an OSC message. Floating-point arguments are held as their
/// bits.
#[derive(Debug, PartialEq)]
pub enum OscType {
    Int(i32),
    /// A 32-bit float, by its bits.
    Float(u32),
    String(String),
    Blob(Vec<u8>),
    Time(OscTime),
    Long(i64),
    /// A 64-bit float, by its bits.
    Double(u64),
    Char(char),
    Color(OscColor),
    Midi(OscMidiMessage),
    Bool(bool),
    Array(Vec<OscType>),
    Nil,
    Inf,
}

/// What an argument says.
#[verifier::ext_equal]
pub enum ArgView {
    Int(i32),
    Float(u32),
    Text(Seq<char>),
    Blob(Seq<u8>),
    Time(OscTime),
    Long(i64),
    Double(u64),
    Char(char),
    Color(OscColor),
    Midi(OscMidiMessage),
    Bool(bool),
    Array(Seq<ArgView>),
    Nil,
    Inf,
}

impl OscType {
    pub open spec fn view(&self) -> ArgView
        decreases self,
    {
        match self {
            OscType::Int(v) => ArgView::Int(*v),
            OscType::Float(v) => ArgView::Float(*v),
            OscType::String(v) => ArgView::Text(v@),
            OscType::Blob(v) => ArgView::Blob(v@),
            OscType::Time(v) => ArgView::Time(*v),
            OscType::Long(v) => ArgView::Long(*v),
            OscType::Double(v) => ArgView::Double(*v),
            OscType::Char(v) => ArgView::Char(*v),
            OscType::Color(v) => ArgView::Color(*v),
            OscType::Midi(v) => ArgView::Midi(*v),
            OscType::Bool(v) => ArgView::Bool(*v),
            OscType::Array(v) => ArgView::Array(
                Seq::new(
                    v@.len(),
                    |i: int|
                        if 0 <= i < v@.len() {
                            v@[i].view()
                        } else {
                            arbitrary()
                        },
                ),
            ),
            OscType::Nil => ArgView::Nil,
            OscType::Inf => ArgView::Inf,
        }
    }
}

impl Clone for OscType {
    fn clone(&self) -> (r: OscType)
        ensures
            r@ == self@,
        decreases self,
    {
        match self {
            OscType::Int(v) => OscType::Int(*v),
            OscType::Float(v) => OscType::Float(*v),
            OscType::String(v) => OscType::String(v.clone()),
            OscType::Blob(v) => {
                let mut copy: Vec<u8> = Vec::new();
                let mut i: usize = 0;
                while i < v.len()
                    invariant
                        i <= v@.len(),
                        copy@ == v@.take(i as int),
                    decreases v@.len() - i,
                {
                    copy.push(v[i]);
                    i = i + 1;
                    assert(copy@ =~= v@.take(i as int));
                }
                assert(copy@ =~= v@);
                OscType::Blob(copy)
            },
            OscType::Time(v) => OscType::Time(*v),
            OscType::Long(v) => OscType::Long(*v),
            OscType::Double(v) => OscType::Double(*v),
            OscType::Char(v) => OscType::Char(*v),
            OscType::Color(v) => OscType::Color(*v),
            OscType::Midi(v) => OscType::Midi(*v),
            OscType::Bool(v) => OscType::Bool(*v),
            OscType::Array(v) => {
                let mut copy: Vec<OscType> = Vec::new();
                let mut i: usize = 0;
                while i < v.len()
                    invariant
                        i <= v@.len(),
                        copy@.len() == i,
                        forall|j: int| 0 <= j < i ==> (#[trigger] copy@[j])@ == v@[j]@,
                        decreases_to!(self => v@),
                    decreases v@.len() - i,
                {
                    let a: OscType = v[i].clone();
                    copy.push(a);
                    i = i + 1;
                }
                let r: OscType = OscType::Array(copy);
                assert(r@->Array_0 =~= self@->Array_0);
                r
            },
            OscType::Nil => OscType::Nil,
            OscType::Inf => OscType::Inf,
        }
    }
}

pub open spec fn arg_views(v: Seq<OscType>) -> Seq<ArgView> {
    Seq::new(v.len(), |i: int| v[i]@)
}

/// An OSC message: an address and its arguments.
#[derive(Debug, Clone, PartialEq)]
pub struct OscMessage {
    pub addr: String,
    pub args: Vec<OscType>,
}

/// What a message says.
#[verifier::ext_equal]
pub struct OscMessageView {
    pub addr: Seq<char>,
    pub args: Seq<ArgView>,
}

impl View for OscMessage {
    type V = OscMessageView;

    open spec fn view(&self) -> OscMessageView {
        OscMessageView { addr: self.addr@, args: arg_views(self.args@) }
    }
}

pub open spec fn message_views(v: Seq<OscMessage>) -> Seq<OscMessageView> {
    Seq::new(v.len(), |i: int| v[i]@)
}

/// A packet: a message, or a bundle of packets with the time they are meant for.
pub enum Packet {
    Message(OscMessage),
    Bundle { timetag: OscTime, content: Vec<Packet> },
}

/// What a packet says.
#[verifier::ext_equal]
pub enum PacketView {
    Message(OscMessageView),
    Bundle { timetag: OscTime, content: Seq<PacketView> },
}

impl Packet {
    pub open spec fn view(&self) -> PacketView
        decreases self,
    {
        match self {
            Packet::Message(m) => PacketView::Message(m@),
            Packet::Bundle { timetag, content } => PacketView::Bundle {
                timetag: *timetag,
                content: Seq::new(
                    content@.len(),
                    |i: int|
                        if 0 <= i < content@.len() {
                            content@[i].view()
                        } else {
                            arbitrary()
                        },
                ),
            },
        }
    }
}

/// The messages of a packet, in the order in which they stand in it.
pub open spec fn messages_of(p: PacketView) -> Seq<OscMessageView>
    decreases p, 0int,
{
    match p {
        PacketView::Message(m) => seq![m],
        PacketView::Bundle { content, .. } => messages_of_all(content),
    }
}

pub open spec fn messages_of_all(s: Seq<PacketView>) -> Seq<OscMessageView>
    decreases s, 1int,
{
    if s.len() == 0 {
        seq![]
    } else {
        messages_of_all(s.subrange(0, s.len() - 1)) + messages_of(s[s.len() - 1])
    }
}

/// An error of the OSC encoder or decoder.
#[verifier::external_type_specification]
#[verifier::external_body]
pub struct ExOscError(rosc::OscError);

/// A packet as the OSC decoder hands it out.
#[verifier::external_type_specification]
#[verifier::external_body]
pub struct ExOscPacket(rosc::OscPacket);

/// An argument as the OSC encoder and decoder hold it.
#[verifier::external_type_specification]
#[verifier::external_body]
pub struct ExOscType(WireType);

/// The packet that `rosc` reads from a datagram, if it accepts the datagram.
pub uninterp spec fn decoded(bytes: Seq<u8>) -> Option<PacketView>;

/// The bytes that `rosc` writes for a message.
pub uninterp spec fn encoded(addr: Seq<char>, args: Seq<ArgView>) -> Seq<u8>;

/// Whether a text has no NUL in it.
pub open spec fn no_nul(s: Seq<char>) -> bool {
    forall|i: int| 0 <= i < s.len() ==> #[trigger] s[i] != '\0'
}

/// Whether an argument survives the wire: no NUL in a text, no NaN, a blob whose
/// length fits its length field, and nothing else inside an array.
pub open spec fn survives(a: ArgView) -> bool
    decreases a,
{
    match a {
        ArgView::Float(b) => b % 0x8000_0000 <= 0x7f80_0000,
        ArgView::Double(b) => b % 0x8000_0000_0000_0000 <= 0x7ff0_0000_0000_0000,
        ArgView::Text(s) => no_nul(s),
        ArgView::Blob(b) => b.len() <= 0xffff_ffff,
        ArgView::Array(s) => forall|i: int| 0 <= i < s.len() ==> survives(#[trigger] s[i]),
        _ => true,
    }
}

/// Whether a message comes back from the wire as it was sent.
pub open spec fn survives_wire(m: OscMessageView) -> bool {
    &&& m.addr.len() > 0 && m.addr[0] == '/' && no_nul(m.addr)
    &&& forall|i: int| 0 <= i < m.args.len() ==> survives(#[trigger] m.args[i])
}

/// An argument as `rosc` holds it, field for field; those that need more than one
/// word are left to `compound_to_wire`.
#[verifier::external_body]
fn arg_to_wire(a: &OscType) -> WireType {
    match a {
        OscType::Int(v) => WireType::Int(*v),
        OscType::Float(b) => WireType::Float(FromBytes::from_be_bytes(&b.to_be_bytes())),
        OscType::String(s) => WireType::String(s.clone()),
        OscType::Blob(b) => WireType::Blob(b.clone()),
        OscType::Long(v) => WireType::Long(*v),
        OscType::Double(b) => WireType::Double(FromBytes::from_be_bytes(&b.to_be_bytes())),
        OscType::Char(c) => WireType::Char(*c),
        OscType::Bool(v) => WireType::Bool(*v),
        OscType::Nil => WireType::Nil,
        _ => compound_to_wire(a),
    }
}

/// A time, a colour, a MIDI message or an array as `rosc` holds it, field for field;
/// what is none of these is the infinitum, since `arg_to_wire` takes the others.
#[verifier::external_body]
fn compound_to_wire(a: &OscType) -> WireType {
    match a {
        OscType::Time(t) => WireType::Time((t.seconds, t.fractional).into()),
        OscType::Color(OscColor { red, green, blue, alpha }) => {
            WireType::Color(rosc::OscColor { red: *red, green: *green, blue: *blue, alpha: *alpha })
        },
        OscType::Midi(OscMidiMessage { port, status, data1, data2 }) => WireType::Midi(
            rosc::OscMidiMessage { port: *port, status: *status, data1: *data1, data2: *data2 },
        ),
        OscType::Array(v) => WireType::Array(v.iter().map(arg_to_wire).collect()),
        _ => WireType::Inf,
    }
}

/// `rosc::encoder::encode` on one message. It never fails: it writes to a vector.
/// Its bytes are named, and those of a message whose address starts with a slash,
/// whose texts hold no NUL, whose floats are no NaN and whose blobs fit their length
/// field are read back as that message by `rosc::decoder::decode_udp`.
#[verifier::external_body]
fn wire_encode(m: &OscMessage) -> (r: Result<Vec<u8>, rosc::OscError>)
    ensures
        r is Ok,
        r->Ok_0@ == encoded(m@.addr, m@.args),
        survives_wire(m@) ==> decoded(r->Ok_0@) == Some(PacketView::Message(m@)),
{
    let args = m.args.iter().map(arg_to_wire).collect();
    rosc::encoder::encode(&rosc::OscPacket::Message(rosc::OscMessage { addr: m.addr.clone(), args }))
}

/// A `rosc` argument as an argument of this library, field for field; those that
/// need more than one word are left to `compound_from_wire`.
#[verifier::external_body]
fn arg_from_wire(a: WireType) -> OscType {
    match a {
        WireType::Int(v) => OscType::Int(v),
        WireType::Float(v) => OscType::Float(v.to_bits()),
        WireType::String(v) => OscType::String(v),
        WireType::Blob(v) => OscType::Blob(v),
        WireType::Long(v) => OscType::Long(v),
        WireType::Double(v) => OscType::Double(v.to_bits()),
        WireType::Char(v) => OscType::Char(v),
        WireType::Bool(v) => OscType::Bool(v),
        WireType::Nil => OscType::Nil,
        _ => compound_from_wire(a),
    }
}

/// A `rosc` time, colour, MIDI message or array as one of this library, field for
/// field; what is none of these is the infinitum, since `arg_from_wire` takes the
/// others.
#[verifier::external_body]
fn compound_from_wire(a: WireType) -> OscType {
    match a {
        WireType::Time(rosc::OscTime { seconds, fractional }) => {
            OscType::Time(OscTime { seconds, fractional })
        },
        WireType::Color(rosc::OscColor { red, green, blue, alpha }) => {
            OscType::Color(OscColor { red, green, blue, alpha })
        },
        WireType::Midi(rosc::OscMidiMessage { port, status, data1, data2 }) => {
            OscType::Midi(OscMidiMessage { port, status, data1, data2 })
        },
        WireType::Array(v) => OscType::Array(v.content.into_iter().map(arg_from_wire).collect()),
        _ => OscType::Inf,
    }
}

/// A `rosc` packet as a packet of this library: address, arguments, time tag and
/// contents, one for one.
#[verifier::external_body]
fn packet_from_wire(p: rosc::OscPacket) -> Packet {
    match p {
        rosc::OscPacket::Message(m) => Packet::Message(
            OscMessage { addr: m.addr, args: m.args.into_iter().map(arg_from_wire).collect() },
        ),
        rosc::OscPacket::Bundle(b) => Packet::Bundle {
            timetag: OscTime { seconds: b.timetag.seconds, fractional: b.timetag.fractional },
            content: b.content.into_iter().map(packet_from_wire).collect(),
        },
    }
}

/// `rosc::decoder::decode_udp`: the packet at the start of a datagram. Which
/// datagrams it accepts, and what it reads from them, is named.
#[verifier::external_body]
fn wire_decode(bytes: &[u8]) -> (r: Result<Packet, rosc::OscError>)
    ensures
        match r {
            Ok(p) => decoded(bytes@) == Some(p@),
            Err(_) => decoded(bytes@) is None,
        },
{
    match rosc::decoder::decode_udp(bytes) {
        Ok((_, p)) => Ok(packet_from_wire(p)),
        Err(e) => Err(e),
    }
}

/// The text of a `rosc` error.
#[verifier::external_body]
fn wire_error_text(e: &rosc::OscError) -> String {
    format!("{}", e)
}

/// The bytes of a message, ready for the socket. There are some for every message.
pub fn encode(m: &OscMessage) -> (r: Result<Vec<u8>, CoreError>)
    ensures
        r is Ok,
        r->Ok_0@ == encoded(m@.addr, m@.args),
        survives_wire(m@) ==> decoded(r->Ok_0@) == Some(PacketView::Message(m@)),
{
    match wire_encode(m) {
        Ok(bytes) => Ok(bytes),
        Err(e) => Err(CoreError::Osc(wire_error_text(&e))),
    }
}

/// The packet in a datagram.
pub fn decode(bytes: &[u8]) -> (r: Result<Packet, CoreError>)
    ensures
        match r {
            Ok(p) => decoded(bytes@) == Some(p@),
            Err(e) => decoded(bytes@) is None && e is Osc,
        },
{
    match wire_decode(bytes) {
        Ok(p) => Ok(p),
        Err(e) => Err(CoreError::Osc(wire_error_text(&e))),
    }
}

proof fn lemma_messages_push(s: Seq<PacketView>, p: PacketView)
    ensures
        messages_of_all(s.push(p)) == messages_of_all(s) + messages_of(p),
{
    let t = s.push(p);
    assert(t.subrange(0, t.len() - 1) =~= s);
}

proof fn lemma_messages_split(s: Seq<PacketView>, k: int)
    requires
        0 <= k < s.len(),
    ensures
        messages_of_all(s.take(k + 1)) == messages_of_all(s.take(k)) + messages_of(s[k]),
{
    assert(s.take(k + 1) =~= s.take(k).push(s[k]));
    lemma_messages_push(s.take(k), s[k]);
}

/// The messages of a packet, bundles unpacked, in the order in which they stand in
/// it.
pub fn dispatch(packet: Packet) -> (r: Vec<OscMessage>)
    ensures
        message_views(r@) == messages_of(packet@),
    decreases packet,
{
    match packet {
        Packet::Message(m) => {
            let mut out: Vec<OscMessage> = Vec::new();
            out.push(m);
            assert(message_views(out@) =~= seq![m@]);
            out
        },
        Packet::Bundle { timetag: _, content } => {
            let ghost all = content@;
            let ghost views = packet@->content;
            let mut rest: Vec<Packet> = content;
            let mut out: Vec<OscMessage> = Vec::new();
            let ghost mut n: int = 0;
            assert(message_views(out@) =~= messages_of_all(views.take(0)));
            while rest.len() > 0
                invariant
                    0 <= n,
                    n + rest@.len() == all.len(),
                    rest@ == all.skip(n),
                    views.len() == all.len(),
                    forall|i: int| 0 <= i < all.len() ==> #[trigger] views[i] == all[i]@,
                    message_views(out@) == messages_of_all(views.take(n)),
                    decreases_to!(packet => all),
                decreases rest@.len(),
            {
                let ghost before = message_views(out@);
                let inner: Packet = rest.remove(0);
                assert(inner == all[n]);
                let mut more: Vec<OscMessage> = dispatch(inner);
                let ghost added = message_views(more@);
                out.append(&mut more);
                assert(message_views(out@) =~= before + added);
                proof {
                    lemma_messages_split(views, n);
                    assert(all.skip(n).remove(0) =~= all.skip(n + 1));
                    n = n + 1;
                }
            }
            assert(views.take(n) =~= views);
            out
        },
    }
}

/// The messages of a datagram; none when it is not OSC.
pub fn received(bytes: &[u8]) -> (r: Vec<OscMessage>)
    ensures
        message_views(r@) == (match decoded(bytes@) {
            Some(p) => messages_of(p),
            None => seq![],
        }),
{
    match decode(bytes) {
        Ok(p) => dispatch(p),
        Err(_) => {
            let out: Vec<OscMessage> = Vec::new();
            assert(message_views(out@) =~= seq![]);
            out
        },
    }
}

/// A message alone is itself; a bundle is what its parts are, in their order, however
/// deep they are packed.
pub proof fn law_bundles_unpack_in_order(
    m: OscMessageView,
    timetag: OscTime,
    parts: Seq<PacketView>,
    last: PacketView,
)
    ensures
        messages_of(PacketView::Message(m)) == seq![m],
        messages_of((PacketView::Bundle { timetag, content: Seq::empty() })).len() == 0,
        messages_of((PacketView::Bundle { timetag, content: parts.push(last) })) == messages_of(
            (PacketView::Bundle { timetag, content: parts }),
        ) + messages_of(last),
{
    lemma_messages_push(parts, last);
}

} // verus!
