//! WebSocket: the upgrade request, and the buffers that make a byte stream of discrete messages.
//!
//! One control packet is one write followed by one flush, so one flushed write is one binary
//! message: the flush that ends a packet ends a frame on the wire.

use crate::cli::ConnectionArgs;
use crate::error::{Error, ErrorView};
use crate::text;
use tokio_tungstenite::tungstenite::client::{ClientRequestBuilder, IntoClientRequest};
use tokio_tungstenite::tungstenite::http::{Request, Uri};
use vstd::prelude::*;

verus! {

/// The subprotocol name of MQTT: a server rejects the upgrade if it is missing.
pub const MQTT_SUBPROTOCOL: &'static str = "mqtt";

/// The path of the upgrade request.
pub const WS_PATH: &'static str = "/mqtt";

/// The address of the upgrade request.
pub open spec fn upgrade_address(args: &ConnectionArgs) -> Seq<char> {
    "ws://"@ + args.broker@ + ":"@ + text::decimal_text(args.spec_port() as nat) + WS_PATH@
}

/// The address a text stands for, as it is shown, or what keeps it from being one.
pub uninterp spec fn parsed_uri(text: Seq<char>) -> Result<Seq<char>, Seq<char>>;

/// Read a text as an address, and show it.
///
/// Trusted: the `FromStr` and the `Display` of `http::Uri`, which `tokio_tungstenite` exports.
/// Which texts are an address is named, not described.
#[verifier::external_body]
fn parse_uri(text: &str) -> (res: Result<String, String>)
    ensures
        match (res, parsed_uri(text@)) {
            (Ok(shown), Ok(expected)) => shown@ == expected,
            (Err(e), Err(fault)) => e@ == fault,
            _ => false,
        },
{
    text.parse::<Uri>().map(|u| u.to_string()).map_err(|e| e.to_string())
}

/// Refuse an address that could not be read as one.
pub fn checked_address(broker: &str, uri: String, parsed: &Result<String, String>) -> (res: Result<
    String,
    Error,
>)
    ensures
        match (res, *parsed) {
            (Ok(kept), Ok(_)) => kept@ == uri@,
            (Err(e), Err(fault)) => e@ == broker_error(broker@, fault@),
            _ => false,
        },
{
    match parsed {
        Ok(_) => Ok(uri),
        Err(fault) => {
            let mut message = String::from_str("--broker ");
            message.append(text::quoted(broker).as_str());
            message.append(": ");
            message.append(fault.as_str());
            Err(Error::Usage(message))
        },
    }
}

/// The failure to make an address of a broker name.
pub open spec fn broker_error(broker: Seq<char>, fault: Seq<char>) -> ErrorView {
    ErrorView::Usage("--broker "@ + text::quoted_text(broker) + ": "@ + fault)
}

/// The address of the upgrade request; a broker name that makes no address is refused.
pub fn upgrade_uri(args: &ConnectionArgs) -> (res: Result<String, Error>)
    ensures
        match (res, parsed_uri(upgrade_address(args))) {
            (Ok(uri), Ok(_)) => uri@ == upgrade_address(args),
            (Err(e), Err(fault)) => e@ == broker_error(args.broker@, fault),
            _ => false,
        },
{
    let mut uri = String::from_str("ws://");
    uri.append(args.broker.as_str());
    uri.append(":");
    uri.append(text::decimal(args.port() as u64).as_str());
    uri.append(WS_PATH);
    let parsed = parse_uri(uri.as_str());
    checked_address(args.broker.as_str(), uri, &parsed)
}

/// `http::Request`: a request and its headers.
#[verifier::external_type_specification]
#[verifier::external_body]
#[verifier::reject_recursive_types(T)]
pub struct ExRequest<T>(Request<T>);

/// The subprotocols among the headers of a request, in order.
pub uninterp spec fn subprotocols_of(request: Request<()>) -> Seq<Seq<u8>>;

/// The address a request is for, as it is shown.
pub uninterp spec fn target_of(request: Request<()>) -> Seq<char>;

/// What keeps an upgrade request from being built, if anything.
pub uninterp spec fn request_fault(uri: Seq<char>, subprotocol: Seq<char>) -> Option<Seq<char>>;

/// Build the request for an upgrade.
///
/// Trusted: `ClientRequestBuilder` of `tokio_tungstenite`, that is `new`, `with_sub_protocol` and
/// `into_client_request`. The request is for the address, and asks for the subprotocol and no
/// other. Its key is drawn at random, and nothing is said of it. Which addresses and subprotocols
/// make a request is named, not described.
#[verifier::external_body]
fn build_request(uri: &str, subprotocol: &str) -> (res: Result<Request<()>, String>)
    ensures
        match (res, request_fault(uri@, subprotocol@)) {
            (Ok(request), None) => {
                &&& parsed_uri(uri@) == Ok::<Seq<char>, Seq<char>>(target_of(request))
                &&& subprotocols_of(request) == seq![vstd::utf8::encode_utf8(subprotocol@)]
            },
            (Err(e), Some(fault)) => e@ == fault,
            _ => false,
        },
{
    let uri = uri.parse::<Uri>().map_err(|e| e.to_string())?;
    let builder = ClientRequestBuilder::new(uri).with_sub_protocol(subprotocol);
    builder.into_client_request().map_err(|e| e.to_string())
}

/// The failure to build the upgrade request.
pub fn request_error(e: &str) -> (error: Error)
    ensures
        error@ == ErrorView::Usage("building the WebSocket Upgrade request: "@ + e@),
{
    let mut message = String::from_str("building the WebSocket Upgrade request: ");
    message.append(e);
    Error::Usage(message)
}

/// Refuse an upgrade request that could not be built.
pub fn checked_request(built: Result<Request<()>, String>) -> (res: Result<Request<()>, Error>)
    ensures
        match (res, built) {
            (Ok(request), Ok(b)) => request == b,
            (Err(e), Err(fault)) => e@ == ErrorView::Usage(
                "building the WebSocket Upgrade request: "@ + fault@,
            ),
            _ => false,
        },
{
    match built {
        Ok(request) => Ok(request),
        Err(e) => Err(request_error(e.as_str())),
    }
}

/// The upgrade request: for the broker's address, asking for the MQTT subprotocol.
pub fn upgrade_request(args: &ConnectionArgs) -> (res: Result<Request<()>, Error>)
    ensures
        match (
            res,
            parsed_uri(upgrade_address(args)),
            request_fault(upgrade_address(args), MQTT_SUBPROTOCOL@),
        ) {
            (Ok(request), Ok(target), None) => {
                &&& target_of(request) == target
                &&& subprotocols_of(request) == seq![vstd::utf8::encode_utf8(MQTT_SUBPROTOCOL@)]
            },
            (Err(e), Err(fault), _) => e@ == broker_error(args.broker@, fault),
            (Err(e), Ok(_), Some(fault)) => e@ == ErrorView::Usage(
                "building the WebSocket Upgrade request: "@ + fault,
            ),
            _ => false,
        },
{
    match upgrade_uri(args) {
        Ok(uri) => checked_request(build_request(uri.as_str(), MQTT_SUBPROTOCOL)),
        Err(e) => Err(e),
    }
}

/// The failure of the upgrade.
pub fn upgrade_error(e: &str) -> (error: Error)
    ensures
        error@ == ErrorView::Usage("WebSocket Upgrade failed: "@ + e@),
{
    let mut message = String::from_str("WebSocket Upgrade failed: ");
    message.append(e);
    Error::Usage(message)
}

/// What a WebSocket gives: a message, or its end.
pub enum Incoming {
    /// Bytes of the stream.
    Binary(Vec<u8>),
    /// The peer closes.
    Close,
    /// There is nothing more.
    End,
    /// A message that carries no bytes of the stream.
    Other,
}

/// Whether the byte stream goes on after a message.
#[derive(Clone, Copy, Debug, PartialEq, Eq, Structural)]
pub enum ReadStep {
    /// Look at the buffer again.
    Again,
    /// The stream has ended, as a clean close ends one.
    Ended,
}

/// What a flush has to do next.
#[derive(Clone, Copy, Debug, PartialEq, Eq, Structural)]
pub enum FlushStep {
    /// A frame is on its way: flush the socket, then the flush is done.
    FinishFrame,
    /// Nothing of ours to send: flush the socket all the same, which may hold a reply of its own.
    FlushIdle,
    /// Wait until the socket takes a frame, then hand it one.
    SendFrame,
}

/// What the buffers hold.
#[verifier::ext_equal]
pub struct WsView {
    /// Bytes that have arrived and were not read yet.
    pub unread: Seq<u8>,
    /// Bytes that were written and not handed over yet.
    pub unsent: Seq<u8>,
    /// A frame was handed over and is not flushed yet.
    pub sending: bool,
}

impl WsView {
    /// What a flush has to do next.
    pub open spec fn flush_step(self) -> FlushStep {
        if self.sending {
            FlushStep::FinishFrame
        } else if self.unsent.len() == 0 {
            FlushStep::FlushIdle
        } else {
            FlushStep::SendFrame
        }
    }

    /// What a read with this much room gives: as many of the unread bytes as fit.
    pub open spec fn readable(self, room: nat) -> Seq<u8> {
        if room < self.unread.len() {
            self.unread.take(room as int)
        } else {
            self.unread
        }
    }

    /// After a read with this much room.
    pub open spec fn after_read(self, room: nat) -> WsView {
        WsView { unread: self.unread.skip(self.readable(room).len() as int), ..self }
    }

    /// After bytes were written: nothing is sent before a flush.
    pub open spec fn with_written(self, bytes: Seq<u8>) -> WsView {
        WsView { unsent: self.unsent + bytes, ..self }
    }

    /// After a frame was handed over.
    pub open spec fn frame_taken(self) -> WsView {
        WsView { unsent: Seq::empty(), ..self }
    }

    /// Nothing read or written yet.
    pub open spec fn fresh() -> WsView {
        WsView { unread: Seq::empty(), unsent: Seq::empty(), sending: false }
    }

    /// After the next message arrived.
    pub open spec fn with_incoming(self, incoming: Incoming) -> WsView {
        WsView {
            unread: match incoming {
                Incoming::Binary(bytes) => bytes@,
                _ => Seq::empty(),
            },
            ..self
        }
    }

    /// Whether the byte stream goes on after a message.
    pub open spec fn read_step(incoming: Incoming) -> ReadStep {
        match incoming {
            Incoming::Binary(_) => ReadStep::Again,
            Incoming::Other => ReadStep::Again,
            Incoming::Close => ReadStep::Ended,
            Incoming::End => ReadStep::Ended,
        }
    }

    /// After the socket took a frame.
    pub open spec fn started(self) -> WsView {
        WsView { sending: true, ..self }
    }

    /// After a frame was flushed.
    pub open spec fn flushed(self) -> WsView {
        WsView { sending: false, ..self }
    }
}

/// The buffers between a byte stream and a WebSocket.
pub struct WsBuffers {
    read_buf: Vec<u8>,
    read_pos: usize,
    write_buf: Vec<u8>,
    sending: bool,
}

impl View for WsBuffers {
    type V = WsView;

    closed spec fn view(&self) -> WsView {
        WsView {
            unread: self.read_buf@.skip(self.read_pos as int),
            unsent: self.write_buf@,
            sending: self.sending,
        }
    }
}

impl WsBuffers {
    /// The reading position lies within what arrived.
    pub closed spec fn wf(&self) -> bool {
        self.read_pos <= self.read_buf@.len()
    }

    /// Nothing read or written yet.
    pub fn new() -> (buffers: WsBuffers)
        ensures
            buffers.wf(),
            buffers@ == WsView::fresh(),
    {
        let buffers = WsBuffers {
            read_buf: Vec::new(),
            read_pos: 0,
            write_buf: Vec::new(),
            sending: false,
        };
        assert(buffers@.unread =~= Seq::<u8>::empty());
        buffers
    }

    /// Whether there are bytes to read without waiting.
    pub fn has_unread(&self) -> (res: bool)
        requires
            self.wf(),
        ensures
            res == (self@.unread.len() > 0),
    {
        self.read_pos < self.read_buf.len()
    }

    /// Take at most `room` of the bytes that arrived.
    pub fn read(&mut self, room: usize) -> (bytes: Vec<u8>)
        requires
            old(self).wf(),
        ensures
            final(self).wf(),
            bytes@ == old(self)@.readable(room as nat),
            final(self)@ == old(self)@.after_read(room as nat),
    {
        let left: usize = self.read_buf.len() - self.read_pos;
        let n: usize = if left < room {
            left
        } else {
            room
        };
        let bytes = vstd::slice::slice_to_vec(
            vstd::slice::slice_subrange(
                self.read_buf.as_slice(),
                self.read_pos,
                self.read_pos + n,
            ),
        );
        self.read_pos = self.read_pos + n;
        assert(bytes@ =~= old(self)@.readable(room as nat));
        assert(self@.unread =~= old(self)@.after_read(room as nat).unread);
        bytes
    }

    /// The next message arrived; everything before it has been read.
    pub fn on_message(&mut self, incoming: Incoming) -> (step: ReadStep)
        requires
            old(self).wf(),
            old(self)@.unread.len() == 0,
        ensures
            final(self).wf(),
            final(self)@ == old(self)@.with_incoming(incoming),
            step == WsView::read_step(incoming),
    {
        self.read_pos = 0;
        match incoming {
            Incoming::Binary(bytes) => {
                self.read_buf = bytes;
                assert(self@.unread =~= self.read_buf@);
                ReadStep::Again
            },
            Incoming::Other => {
                self.read_buf = Vec::new();
                assert(self@.unread =~= Seq::<u8>::empty());
                ReadStep::Again
            },
            _ => {
                self.read_buf = Vec::new();
                assert(self@.unread =~= Seq::<u8>::empty());
                ReadStep::Ended
            },
        }
    }

    /// Accept bytes. They are buffered only: a frame ends at a flush, not at a write.
    pub fn write(&mut self, bytes: &[u8])
        requires
            old(self).wf(),
        ensures
            final(self).wf(),
            final(self)@ == old(self)@.with_written(bytes@),
    {
        self.write_buf.extend_from_slice(bytes);
        assert(self@.unsent =~= old(self)@.unsent + bytes@);
    }

    /// What a flush has to do next.
    pub fn flush_step(&self) -> (step: FlushStep)
        ensures
            step == self@.flush_step(),
    {
        if self.sending {
            FlushStep::FinishFrame
        } else if self.write_buf.len() == 0 {
            FlushStep::FlushIdle
        } else {
            FlushStep::SendFrame
        }
    }

    /// Take everything that was written as one frame.
    pub fn take_frame(&mut self) -> (frame: Vec<u8>)
        requires
            old(self).wf(),
        ensures
            final(self).wf(),
            frame@ == old(self)@.unsent,
            final(self)@ == old(self)@.frame_taken(),
    {
        let mut frame: Vec<u8> = Vec::new();
        core::mem::swap(&mut frame, &mut self.write_buf);
        frame
    }

    /// The socket took the frame.
    pub fn frame_started(&mut self)
        requires
            old(self).wf(),
        ensures
            final(self).wf(),
            final(self)@ == old(self)@.started(),
    {
        self.sending = true;
    }

    /// The frame is flushed.
    pub fn frame_flushed(&mut self)
        requires
            old(self).wf(),
        ensures
            final(self).wf(),
            final(self)@ == old(self)@.flushed(),
    {
        self.sending = false;
    }
}

/// However a packet is cut into writes, the flush that follows sends it as one frame, whole and in
/// order, and leaves nothing behind.
pub proof fn one_flush_is_one_frame(buffers: WsView, first: Seq<u8>, rest: Seq<u8>)
    requires
        buffers.unsent.len() == 0,
        !buffers.sending,
        first.len() > 0,
    ensures
        buffers.with_written(first).with_written(rest) == buffers.with_written(first + rest),
        buffers.with_written(first).with_written(rest).unsent == first + rest,
        buffers.with_written(first).with_written(rest).flush_step() == FlushStep::SendFrame,
        buffers.with_written(first).with_written(rest).frame_taken() == buffers,
        buffers.flush_step() == FlushStep::FlushIdle,
{
    assert(buffers.with_written(first).with_written(rest).unsent =~= first + rest);
    assert(buffers.with_written(first + rest).unsent =~= first + rest);
    assert(buffers.with_written(first).with_written(rest).frame_taken().unsent =~= buffers.unsent);
}

/// Reading a message in pieces loses and reorders nothing: the pieces, then what is left, are the
/// bytes that arrived. A read with room gives something as long as something is left.
pub proof fn reads_keep_the_bytes(buffers: WsView, first: nat, second: nat)
    ensures
        buffers.readable(first) + buffers.after_read(first).readable(second) + buffers.after_read(
            first,
        ).after_read(second).unread == buffers.unread,
        first > 0 && buffers.unread.len() > 0 ==> buffers.readable(first).len() > 0,
{
    assert(buffers.readable(first) + buffers.after_read(first).readable(second)
        + buffers.after_read(first).after_read(second).unread =~= buffers.unread);
}

/// The upgrade is asked for over plain `ws`, at the broker's own name and the port that is dialled,
/// under the path `/mqtt`.
pub proof fn the_upgrade_is_asked_of_the_broker(args: &ConnectionArgs)
    ensures
        ({
            let address = upgrade_address(args);
            let name = args.broker@;
            let port = text::decimal_text(args.spec_port() as nat);
            &&& address.len() == name.len() + port.len() + 11
            &&& address.take(5) == seq!['w', 's', ':', '/', '/']
            &&& address.subrange(5, name.len() as int + 5) == name
            &&& address[name.len() as int + 5] == ':'
            &&& address.subrange(name.len() as int + 6, name.len() as int + 6 + port.len()) == port
            &&& address.skip(name.len() as int + 6 + port.len()) == seq!['/', 'm', 'q', 't', 't']
        }),
{
    reveal_strlit("ws://");
    reveal_strlit(":");
    reveal_strlit("/mqtt");
    let address = upgrade_address(args);
    let name = args.broker@;
    let port = text::decimal_text(args.spec_port() as nat);
    assert(address.take(5) =~= seq!['w', 's', ':', '/', '/']);
    assert(address.subrange(5, name.len() as int + 5) =~= name);
    assert(address.subrange(name.len() as int + 6, name.len() as int + 6 + port.len()) =~= port);
    assert(address.skip(name.len() as int + 6 + port.len()) =~= seq!['/', 'm', 'q', 't', 't']);
}

/// A frame that is on its way is finished before anything else, a new one is sent exactly when
/// bytes wait, and what was read is left alone by it all.
pub proof fn a_frame_is_finished_before_the_next(buffers: WsView, bytes: Seq<u8>)
    ensures
        buffers.flush_step() == FlushStep::FinishFrame <==> buffers.sending,
        buffers.flush_step() == FlushStep::SendFrame <==> !buffers.sending && buffers.unsent.len()
            > 0,
        buffers.flush_step() == FlushStep::FlushIdle <==> !buffers.sending && buffers.unsent.len()
            == 0,
        buffers.with_written(bytes).unsent == buffers.unsent + bytes,
        buffers.with_written(bytes).unread == buffers.unread,
        buffers.with_written(bytes).sending == buffers.sending,
        buffers.frame_taken().unsent.len() == 0,
        buffers.frame_taken().unread == buffers.unread,
        buffers.frame_taken().sending == buffers.sending,
{
}

/// A read gives as many bytes as there are and as fit, and leaves what waits to be sent alone.
pub proof fn a_read_gives_what_fits(buffers: WsView, room: nat)
    ensures
        buffers.readable(room).len() <= room,
        buffers.readable(room).len() == room || buffers.readable(room).len()
            == buffers.unread.len(),
        buffers.readable(room).is_prefix_of(buffers.unread),
        buffers.after_read(room).unread.len() == buffers.unread.len() - buffers.readable(room).len(),
        buffers.after_read(room).unsent == buffers.unsent,
        buffers.after_read(room).sending == buffers.sending,
{
    assert(buffers.readable(room) =~= buffers.unread.take(buffers.readable(room).len() as int));
}

/// A broker name that makes no address is blamed in the error, with what is wrong.
pub proof fn the_broker_is_blamed_for_its_name(broker: Seq<char>, fault: Seq<char>)
    ensures
        broker_error(broker, fault) matches ErrorView::Usage(m) && {
            &&& text::holds(m, text::quoted_text(broker))
            &&& text::holds(m, fault)
        },
{
    let named = "--broker "@ + text::quoted_text(broker);
    text::lemma_holds_appended("--broker "@, fault, text::quoted_text(broker));
    text::lemma_holds_appended(named, text::quoted_text(broker), ": "@);
    text::lemma_holds_appended(named + ": "@, text::quoted_text(broker), fault);
}

/// The bytes of a message are read as they came; a message without bytes gives none, and only the
/// close or the end of the socket ends the stream. What waits to be sent is left alone.
pub proof fn messages_are_read_as_they_came(buffers: WsView, incoming: Incoming)
    requires
        buffers.unread.len() == 0,
    ensures
        ({
            let after = buffers.with_incoming(incoming);
            &&& incoming matches Incoming::Binary(bytes) ==> after.unread == bytes@
            &&& incoming !is Binary ==> after == buffers
            &&& after.unsent == buffers.unsent
            &&& after.sending == buffers.sending
        }),
        WsView::read_step(incoming) == ReadStep::Ended <==> incoming is Close || incoming is End,
{
    if incoming !is Binary {
        assert(buffers.with_incoming(incoming).unread =~= buffers.unread);
    }
}

/// A flush of what was written hands over one frame and finishes it, and then there is nothing left
/// to do; what was read is left alone.
pub proof fn a_flush_comes_to_an_end(buffers: WsView)
    requires
        buffers.flush_step() == FlushStep::SendFrame,
    ensures
        buffers.frame_taken().started().flush_step() == FlushStep::FinishFrame,
        buffers.frame_taken().started().flushed().flush_step() == FlushStep::FlushIdle,
        buffers.frame_taken().started().flushed().unread == buffers.unread,
        buffers.started().unsent == buffers.unsent,
        buffers.flushed().unsent == buffers.unsent,
        WsView::fresh().flush_step() == FlushStep::FlushIdle,
        WsView::fresh().unread.len() == 0,
{
}

/// The subprotocol that is asked for is MQTT's.
pub proof fn the_subprotocol_is_mqtt(args: &ConnectionArgs)
    ensures
        MQTT_SUBPROTOCOL@ == seq!['m', 'q', 't', 't'],
        upgrade_address(args).skip(upgrade_address(args).len() - 4) == MQTT_SUBPROTOCOL@,
{
    reveal_strlit("mqtt");
    reveal_strlit("/mqtt");
    assert(MQTT_SUBPROTOCOL@ =~= seq!['m', 'q', 't', 't']);
    assert(upgrade_address(args).skip(upgrade_address(args).len() - 4) =~= MQTT_SUBPROTOCOL@);
}

} // verus!
