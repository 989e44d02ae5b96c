//! The OSC monitor: what it counts and logs of the packets that it receives,
//! and when it changes its port.
use vstd::prelude::*;
use vstd::string::StringExecFns;

use crate::text::{
    cat, cat3, decimal, joined, lemma_joined_first, signed_decimal, str_join, texts, to_decimal, to_signed_decimal,
};

verus! {

/// The largest packet that is received.
pub const OSC_BUFFER: usize = 1500;

/// The decimals of a float in the log.
pub const FLOAT_DECIMALS: u8 = 2;

/// The decimals of a double in the log.
pub const DOUBLE_DECIMALS: u8 = 4;

/// What an OSC argument holds, as far as the log shows it.
pub enum OscArgView {
    Int(int),
    /// A float, as it is written out.
    Float(Seq<char>),
    Text(Seq<char>),
    /// A blob, by its length.
    Blob(nat),
    Long(int),
    /// A double, as it is written out.
    Double(Seq<char>),
    Bool(bool),
    Nil,
    Inf,
    Other,
}

/// What an OSC packet holds.
pub enum OscView {
    Message { addr: Seq<char>, args: Seq<OscArgView> },
    Bundle(Seq<OscView>),
}

/// `rosc::OscPacket`, a message or a bundle of packets.
#[verifier::external_type_specification]
#[verifier::external_body]
pub struct ExOscPacket(rosc::OscPacket);

/// `rosc::OscType`, an argument of a message.
#[verifier::external_type_specification]
#[verifier::external_body]
pub struct ExOscType(rosc::OscType);

/// The contents of an OSC packet.
pub uninterp spec fn packet_contents(p: rosc::OscPacket) -> OscView;

/// The contents of an OSC argument, floats and doubles written out with so many
/// decimals.
pub uninterp spec fn arg_contents(a: rosc::OscType, float_decimals: u8, double_decimals: u8) -> OscArgView;

/// What the OSC decoder makes of the bytes of a datagram, if it is a packet.
pub uninterp spec fn osc_decoded(bytes: Seq<u8>) -> Option<OscView>;

/// The contents of several packets.
pub open spec fn packets_contents(v: Seq<rosc::OscPacket>) -> Seq<OscView> {
    v.map_values(|p: rosc::OscPacket| packet_contents(p))
}

/// The contents of several arguments, with the decimals of the log.
pub open spec fn args_contents(v: Seq<rosc::OscType>) -> Seq<OscArgView> {
    v.map_values(|a: rosc::OscType| arg_contents(a, FLOAT_DECIMALS, DOUBLE_DECIMALS))
}

/// `rosc::decoder::decode_udp`. The result depends on the bytes alone; which
/// bytes are a packet, and of what, is not said here. The decoder calls itself
/// for every bundle in a bundle, so its input is bounded.
#[verifier::external_body]
fn decode_udp(bytes: &[u8]) -> (r: Option<rosc::OscPacket>)
    requires
        bytes@.len() <= OSC_BUFFER,
    ensures
        match r {
            Some(p) => osc_decoded(bytes@) == Some(packet_contents(p)),
            None => osc_decoded(bytes@) is None,
        },
{
    match rosc::decoder::decode_udp(bytes) {
        Ok((_, packet)) => Some(packet),
        Err(_) => None,
    }
}

/// A packet taken apart.
pub enum PacketParts<'a> {
    Message { addr: &'a str, args: &'a Vec<rosc::OscType> },
    Bundle { content: &'a Vec<rosc::OscPacket> },
}

/// The two variants of `rosc::OscPacket`: a message with its address and
/// arguments, or a bundle with its packets.
#[verifier::external_body]
fn packet_parts<'a>(p: &'a rosc::OscPacket) -> (r: PacketParts<'a>)
    ensures
        match r {
            PacketParts::Message { addr, args } => packet_contents(*p) == (OscView::Message {
                addr: addr@,
                args: args_contents(args@),
            }),
            PacketParts::Bundle { content } => packet_contents(*p) == OscView::Bundle(
                packets_contents(content@),
            ),
        },
{
    match p {
        rosc::OscPacket::Message(m) => PacketParts::Message { addr: &m.addr, args: &m.args },
        rosc::OscPacket::Bundle(b) => PacketParts::Bundle { content: &b.content },
    }
}

/// An OSC argument, as far as the log shows it.
pub enum OscArg {
    Int(i32),
    Float(String),
    Text(String),
    Blob(usize),
    Long(i64),
    Double(String),
    Bool(bool),
    Nil,
    Inf,
    Other,
}

impl View for OscArg {
    type V = OscArgView;

    open spec fn view(&self) -> OscArgView {
        match *self {
            OscArg::Int(v) => OscArgView::Int(v as int),
            OscArg::Float(t) => OscArgView::Float(t@),
            OscArg::Text(t) => OscArgView::Text(t@),
            OscArg::Blob(n) => OscArgView::Blob(n as nat),
            OscArg::Long(v) => OscArgView::Long(v as int),
            OscArg::Double(t) => OscArgView::Double(t@),
            OscArg::Bool(b) => OscArgView::Bool(b),
            OscArg::Nil => OscArgView::Nil,
            OscArg::Inf => OscArgView::Inf,
            OscArg::Other => OscArgView::Other,
        }
    }
}

/// The variants of `rosc::OscType`. Floating-point values are written out with
/// the given numbers of decimals; how that text looks is not said here.
#[verifier::external_body]
fn arg_parts(a: &rosc::OscType, float_decimals: u8, double_decimals: u8) -> (r: OscArg)
    ensures
        r@ == arg_contents(*a, float_decimals, double_decimals),
{
    match a {
        rosc::OscType::Int(v) => OscArg::Int(*v),
        rosc::OscType::Float(v) => OscArg::Float(format!("{:.*}", float_decimals as usize, v)),
        rosc::OscType::String(v) => OscArg::Text(v.clone()),
        rosc::OscType::Blob(b) => OscArg::Blob(b.len()),
        rosc::OscType::Long(v) => OscArg::Long(*v),
        rosc::OscType::Double(v) => OscArg::Double(format!("{:.*}", double_decimals as usize, v)),
        rosc::OscType::Bool(v) => OscArg::Bool(*v),
        rosc::OscType::Nil => OscArg::Nil,
        rosc::OscType::Inf => OscArg::Inf,
        _ => OscArg::Other,
    }
}

/// An argument as the log shows it.
pub open spec fn arg_text(a: OscArgView) -> Seq<char> {
    match a {
        OscArgView::Int(v) => signed_decimal(v),
        OscArgView::Float(t) => t,
        OscArgView::Text(t) => "\""@ + t + "\""@,
        OscArgView::Blob(n) => "<blob "@ + decimal(n) + ">"@,
        OscArgView::Long(v) => signed_decimal(v) + "L"@,
        OscArgView::Double(t) => t,
        OscArgView::Bool(b) => if b {
            "true"@
        } else {
            "false"@
        },
        OscArgView::Nil => "nil"@,
        OscArgView::Inf => "inf"@,
        OscArgView::Other => "?"@,
    }
}

/// Shows an argument in the log.
pub fn fmt_osc_arg(arg: OscArg) -> (s: String)
    ensures
        s@ == arg_text(arg@),
{
    match arg {
        OscArg::Int(v) => to_signed_decimal(v as i64),
        OscArg::Float(t) => t,
        OscArg::Text(t) => cat3("\"", t.as_str(), "\""),
        OscArg::Blob(n) => {
            let d = to_decimal(n as u64);
            cat3("<blob ", d.as_str(), ">")
        },
        OscArg::Long(v) => {
            let d = to_signed_decimal(v);
            cat(d.as_str(), "L")
        },
        OscArg::Double(t) => t,
        OscArg::Bool(b) => if b {
            "true".to_owned()
        } else {
            "false".to_owned()
        },
        OscArg::Nil => "nil".to_owned(),
        OscArg::Inf => "inf".to_owned(),
        OscArg::Other => "?".to_owned(),
    }
}

/// The arguments of a message as the log shows them.
pub open spec fn args_text(args: Seq<OscArgView>) -> Seq<char> {
    joined(args.map_values(|a: OscArgView| arg_text(a)), ", "@)
}

/// A message as the log shows it.
pub open spec fn message_text(addr: Seq<char>, args: Seq<OscArgView>, source: Seq<char>) -> Seq<char> {
    if args_text(args).len() == 0 {
        addr + " from "@ + source
    } else {
        addr + " ["@ + args_text(args) + "] from "@ + source
    }
}

/// Shows a message in the log.
pub fn log_message(addr: &str, args: &Vec<OscArg>, source: &str) -> (s: String)
    ensures
        s@ == message_text(addr@, args@.map_values(|a: OscArg| a@), source@),
{
    let ghost shown = args@.map_values(|a: OscArg| a@).map_values(|a: OscArgView| arg_text(a));
    let mut list: Vec<String> = Vec::new();
    let mut i: usize = 0;
    while i < args.len()
        invariant
            i <= args@.len(),
            shown == args@.map_values(|a: OscArg| a@).map_values(|a: OscArgView| arg_text(a)),
            texts(list@) =~= shown.take(i as int),
        decreases args@.len() - i,
    {
        let t = fmt_osc_arg(copy_arg(&args[i]));
        let ghost before = texts(list@);
        list.push(t);
        assert(texts(list@) =~= before.push(t@));
        i += 1;
    }
    assert(shown.take(i as int) =~= shown);
    let joined_args = str_join(&list, ", ");
    if joined_args.as_str().is_empty() {
        cat3(addr, " from ", source)
    } else {
        let mut s = cat3(addr, " [", joined_args.as_str());
        s.append("] from ");
        s.append(source);
        s
    }
}

fn copy_arg(a: &OscArg) -> (r: OscArg)
    ensures
        r@ == a@,
{
    match a {
        OscArg::Int(v) => OscArg::Int(*v),
        OscArg::Float(t) => OscArg::Float(t.clone()),
        OscArg::Text(t) => OscArg::Text(t.clone()),
        OscArg::Blob(n) => OscArg::Blob(*n),
        OscArg::Long(v) => OscArg::Long(*v),
        OscArg::Double(t) => OscArg::Double(t.clone()),
        OscArg::Bool(b) => OscArg::Bool(*b),
        OscArg::Nil => OscArg::Nil,
        OscArg::Inf => OscArg::Inf,
        OscArg::Other => OscArg::Other,
    }
}

/// Number of messages in a packet; a bundle has those of all its packets.
pub open spec fn message_count(p: OscView) -> nat
    decreases p,
{
    match p {
        OscView::Message { .. } => 1,
        OscView::Bundle(items) => count_in(items, items.len()),
    }
}

/// Number of messages in the first `k` packets.
pub open spec fn count_in(items: Seq<OscView>, k: nat) -> nat
    decreases items, k,
{
    if k == 0 || k > items.len() {
        0
    } else {
        count_in(items, (k - 1) as nat) + message_count(items[k - 1])
    }
}

/// The log lines of a packet, in order.
pub open spec fn packet_lines(p: OscView, source: Seq<char>) -> Seq<Seq<char>>
    decreases p,
{
    match p {
        OscView::Message { addr, args } => seq![message_text(addr, args, source)],
        OscView::Bundle(items) => lines_in(items, items.len(), source),
    }
}

/// The log lines of the first `k` packets.
pub open spec fn lines_in(items: Seq<OscView>, k: nat, source: Seq<char>) -> Seq<Seq<char>>
    decreases items, k,
{
    if k == 0 || k > items.len() {
        Seq::empty()
    } else {
        lines_in(items, (k - 1) as nat, source) + packet_lines(items[k - 1], source)
    }
}

/// There is one log line for each message.
pub proof fn law_one_line_per_message(p: OscView, source: Seq<char>)
    ensures
        packet_lines(p, source).len() == message_count(p),
    decreases p,
{
    match p {
        OscView::Message { .. } => {},
        OscView::Bundle(items) => {
            lemma_lines_in(items, items.len(), source);
        },
    }
}

proof fn lemma_lines_in(items: Seq<OscView>, k: nat, source: Seq<char>)
    ensures
        lines_in(items, k, source).len() == count_in(items, k),
    decreases items, k,
{
    if k > 0 && k <= items.len() {
        lemma_lines_in(items, (k - 1) as nat, source);
        law_one_line_per_message(items[k - 1], source);
    }
}

/// Writes the log lines of a packet behind `lines`.
pub fn log_packet(p: &rosc::OscPacket, source: &str, lines: &mut Vec<String>)
    ensures
        texts(final(lines)@) == texts(old(lines)@) + packet_lines(packet_contents(*p), source@),
    decreases packet_contents(*p),
{
    match packet_parts(p) {
        PacketParts::Message { addr, args } => {
            let mut own: Vec<OscArg> = Vec::new();
            let mut i: usize = 0;
            while i < args.len()
                invariant
                    i <= args@.len(),
                    own@.map_values(|a: OscArg| a@) =~= args_contents(args@).take(i as int),
                decreases args@.len() - i,
            {
                let a = arg_parts(&args[i], FLOAT_DECIMALS, DOUBLE_DECIMALS);
                let ghost before = own@.map_values(|a: OscArg| a@);
                own.push(a);
                assert(own@.map_values(|a: OscArg| a@) =~= before.push(a@));
                i += 1;
            }
            assert(args_contents(args@).take(i as int) =~= args_contents(args@));
            let line = log_message(addr, &own, source);
            let ghost before = texts(lines@);
            lines.push(line);
            assert(texts(lines@) =~= before + seq![line@]);
        },
        PacketParts::Bundle { content } => {
            let ghost start = texts(lines@);
            let ghost items = packets_contents(content@);
            let mut k: usize = 0;
            assert(start =~= start + lines_in(items, 0, source@));
            while k < content.len()
                invariant
                    k <= content@.len(),
                    items == packets_contents(content@),
                    packet_contents(*p) == OscView::Bundle(items),
                    texts(lines@) =~= start + lines_in(items, k as nat, source@),
                decreases content@.len() - k,
            {
                assert(items[k as int] == packet_contents(content@[k as int]));
                assert(decreases_to!(packet_contents(*p) => packet_contents(*p)->Bundle_0[k as int]));
                log_packet(&content[k], source, lines);
                k += 1;
            }
        },
    }
}

/// What the monitor makes of a datagram.
pub struct OscTraffic {
    /// Number of messages, for the traffic counter.
    pub messages: u64,
    /// One line for each message, for the traffic log.
    pub lines: Vec<String>,
}

/// Takes in a datagram; what is no OSC packet is passed over.
pub fn observe_osc(bytes: &[u8], source: &str) -> (r: Option<OscTraffic>)
    requires
        bytes@.len() <= OSC_BUFFER,
    ensures
        match r {
            Some(t) => {
                &&& osc_decoded(bytes@) matches Some(p) && texts(t.lines@) == packet_lines(
                    p,
                    source@,
                ) && t.messages == message_count(p)
            },
            None => osc_decoded(bytes@) is None,
        },
{
    match decode_udp(bytes) {
        None => None,
        Some(p) => {
            let mut lines: Vec<String> = Vec::new();
            assert(texts(lines@) =~= Seq::<Seq<char>>::empty());
            log_packet(&p, source, &mut lines);
            proof {
                law_one_line_per_message(packet_contents(p), source@);
                assert(texts(lines@) =~= packet_lines(packet_contents(p), source@));
                assert(texts(lines@).len() == lines@.len());
            }
            Some(OscTraffic { messages: lines.len() as u64, lines })
        },
    }
}

// ── The port ──

/// Where the listener stands.
#[derive(Clone, Copy, Debug, PartialEq, Eq, Structural)]
pub enum ListenerState {
    /// It listens on a port.
    Listening(u16),
    /// It could not bind yet and waits for another port.
    Waiting,
}

/// What is to be shown of the listener: its port and whether it listens.
#[derive(Clone, Copy, Debug, PartialEq, Eq, Structural)]
pub struct ListenerReport {
    pub port: u16,
    pub listening: bool,
}

/// Whether a request for a port makes the listener bind again.
pub fn must_bind(state: ListenerState, port: u16) -> (r: bool)
    ensures
        r == (state != ListenerState::Listening(port)),
{
    match state {
        ListenerState::Listening(current) => current != port,
        ListenerState::Waiting => true,
    }
}

/// The listener after it tried to bind to a port. A listener that has a port
/// keeps it when the new one cannot be had; the report then names the kept one.
pub fn after_bind(state: ListenerState, port: u16, bound: bool) -> (r: (
    ListenerState,
    ListenerReport,
))
    ensures
        r.0 == if bound {
            ListenerState::Listening(port)
        } else {
            state
        },
        r.1 == (ListenerReport {
            port: if bound {
                port
            } else {
                match state {
                    ListenerState::Listening(current) => current,
                    ListenerState::Waiting => port,
                }
            },
            listening: bound,
        }),
{
    if bound {
        (ListenerState::Listening(port), ListenerReport { port, listening: true })
    } else {
        match state {
            ListenerState::Listening(current) => (
                state,
                ListenerReport { port: current, listening: false },
            ),
            ListenerState::Waiting => (state, ListenerReport { port, listening: false }),
        }
    }
}

/// How the log shows an argument: numbers in decimal, a long one with an `L`, texts in
/// quotes, blobs by their length, and the rest by a word.
pub proof fn law_shown_argument(arg: OscArg, s: String)
    requires
        call_ensures(fmt_osc_arg, (arg,), s),
    ensures
        arg matches OscArg::Int(v) ==> s@ == signed_decimal(v as int),
        arg matches OscArg::Long(v) ==> s@ == signed_decimal(v as int) + "L"@,
        arg matches OscArg::Float(t) ==> s@ == t@,
        arg matches OscArg::Double(t) ==> s@ == t@,
        arg matches OscArg::Text(t) ==> s@ == "\""@ + t@ + "\""@,
        arg matches OscArg::Blob(n) ==> s@ == "<blob "@ + decimal(n as nat) + ">"@,
        arg == OscArg::Bool(true) ==> s@ == "true"@,
        arg == OscArg::Bool(false) ==> s@ == "false"@,
        arg is Nil ==> s@ == "nil"@,
        arg is Inf ==> s@ == "inf"@,
        arg is Other ==> s@ == "?"@,
{
}

/// How the log shows a message: its address, its arguments in brackets with commas between
/// them where there is anything to show, and where it came from.
pub proof fn law_shown_message(addr: &str, args: Vec<OscArg>, source: &str, s: String)
    requires
        call_ensures(log_message, (addr, &args, source), s),
    ensures
        args@.len() == 0 ==> s@ == addr@ + " from "@ + source@,
        args@.len() == 1 && arg_text(args@[0]@).len() > 0 ==> s@ == addr@ + " ["@ + arg_text(
            args@[0]@,
        ) + "] from "@ + source@,
        args@.len() == 2 && arg_text(args@[0]@).len() > 0 ==> s@ == addr@ + " ["@ + (arg_text(
            args@[0]@,
        ) + ", "@ + arg_text(args@[1]@)) + "] from "@ + source@,
{
    let v = args@.map_values(|a: OscArg| a@);
    let t = v.map_values(|a: OscArgView| arg_text(a));
    if args@.len() == 1 {
        assert(t =~= seq![arg_text(args@[0]@)]);
    }
    if args@.len() == 2 {
        lemma_joined_first(t, ", "@);
        assert(t.drop_first() =~= seq![arg_text(args@[1]@)]);
    }
}

/// A message of a datagram counts once and is one line; a bundle counts and shows what its
/// packets do, one after the other. What is no packet is passed over.
pub proof fn law_overheard_datagram(
    bytes: &[u8],
    source: &str,
    r: Option<OscTraffic>,
    items: Seq<OscView>,
)
    requires
        call_ensures(observe_osc, (bytes, source), r),
        bytes@.len() <= OSC_BUFFER,
    ensures
        r is None <==> osc_decoded(bytes@) is None,
        r matches Some(t) ==> t.lines@.len() == t.messages,
        osc_decoded(bytes@) matches Some(OscView::Message { addr, args }) ==> (r matches Some(t)
            && t.messages == 1 && t.lines@[0]@ == message_text(addr, args, source@)),
        osc_decoded(bytes@) == Some(OscView::Bundle(items)) && items.len() == 0 ==> (
        r matches Some(t) && t.messages == 0),
        osc_decoded(bytes@) == Some(OscView::Bundle(items)) && items.len() > 0 ==> (
        r matches Some(t) && t.messages == message_count(OscView::Bundle(items.drop_last()))
            + message_count(items.last()) && texts(t.lines@) == packet_lines(
            OscView::Bundle(items.drop_last()),
            source@,
        ) + packet_lines(items.last(), source@)),
{
    if let Some(t) = r {
        let p = osc_decoded(bytes@)->0;
        law_one_line_per_message(p, source@);
        assert(texts(t.lines@).len() == t.lines@.len());
        if let OscView::Message { addr, args } = p {
            assert(texts(t.lines@)[0] == t.lines@[0]@);
        }
        if p == OscView::Bundle(items) && items.len() > 0 {
            let front = items.drop_last();
            lemma_front(items, front.len() as nat, source@);
        }
    }
}

proof fn lemma_front(items: Seq<OscView>, k: nat, source: Seq<char>)
    requires
        items.len() > 0,
        k < items.len(),
    ensures
        count_in(items, k) == count_in(items.drop_last(), k),
        lines_in(items, k, source) == lines_in(items.drop_last(), k, source),
    decreases k,
{
    if k > 0 {
        lemma_front(items, (k - 1) as nat, source);
        assert(items.drop_last()[k - 1] == items[k - 1]);
    }
}

/// The lines of a packet stand behind those that were there.
pub proof fn law_lines_are_added(
    p: &rosc::OscPacket,
    source: &str,
    lines: &mut Vec<String>,
    i: int,
)
    requires
        call_ensures(log_packet, (p, source, lines), ()),
    ensures
        final(lines)@.len() == old(lines)@.len() + message_count(packet_contents(*p)),
        0 <= i < old(lines)@.len() ==> final(lines)@[i]@ == old(lines)@[i]@,
        packet_contents(*p) matches OscView::Message { addr, args } ==> final(lines)@[old(lines)@.len() as int]@ == message_text(addr, args, source@),
{
    law_one_line_per_message(packet_contents(*p), source@);
    let b = texts(old(lines)@);
    let a = texts(final(lines)@);
    assert(b.len() == old(lines)@.len() && a.len() == final(lines)@.len());
    if 0 <= i < b.len() {
        assert(a[i] == final(lines)@[i]@ && b[i] == old(lines)@[i]@);
    }
    if packet_contents(*p) is Message {
        assert(a[b.len() as int] == final(lines)@[b.len() as int]@);
    }
}

/// A listener binds for a port that it does not listen on; one that got it listens on it
/// and need not bind again, and one that did not get it keeps what it had.
pub proof fn law_listener(
    state: ListenerState,
    port: u16,
    bound: bool,
    r: (ListenerState, ListenerReport),
    must: bool,
    again: bool,
)
    requires
        call_ensures(must_bind, (state, port), must),
        call_ensures(after_bind, (state, port, bound), r),
        call_ensures(must_bind, (r.0, port), again),
    ensures
        !must <==> state == ListenerState::Listening(port),
        bound ==> !again && r.1.port == port,
        !bound ==> again == must && r.0 == state,
        r.1.listening == bound,
        !bound && state is Waiting ==> r.1.port == port,
        !bound ==> (state matches ListenerState::Listening(current) ==> r.1.port == current),
{
}

} // verus!
