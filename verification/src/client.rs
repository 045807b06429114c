//! The session engine: settings, the client, and its operations.
//!
//! The engine neither reads nor writes a transport. An operation changes the
//! session, writes packets to the client's buffer, and answers with an
//! [`Action`] that says what the owner of the transport has to do next.

use vstd::prelude::*;
use std::collections::VecDeque;
use std::sync::Arc;
use std::time::Duration;
use crate::session;
use crate::error::{Error, PacketIdentifierError, StorageError};
use crate::mq_error::{IoErrorKind, MQError};
use crate::mqtt::{
    filters_view, opt_text, opt_will, texts_view, Connack, Connect, Packet, PacketView, Suback,
    Subscribe, Unsubscribe,
};
use crate::msg::{Message, MessageView};
use crate::outside::random_u32;
use crate::proto::{
    ConnectReturnCode, LastWill, LastWillView, PacketIdentifier, Protocol, QoS,
    SubscribeReturnCodes, SubscribeTopic,
};
use crate::session::{
    connect_packet, normalized, unbound, wrote, ActionView, AfterFlushView, ClientState, ClientView,
    OptionsView, PollView, ReconnectMethod, StoreOutcome, WaitView,
};
use crate::store::Store;
use crate::subscription::{Subscription, Subscriptions};
use crate::topic::{to_topic_name, to_topic_path, topic_name_of};
use crate::wire::encode;
use crate::write::MqttWrite;

verus! {

/// How a message is to be published: at which level, and whether the broker
/// is to retain it.
#[derive(Debug, Clone, Copy, PartialEq, Eq, Structural)]
pub struct PubOpt {
    pub qos: QoS,
    pub retain: bool,
}

impl PubOpt {
    pub fn new(qos: QoS, retain: bool) -> (r: PubOpt)
        ensures
            r == (PubOpt { qos, retain }),
    {
        PubOpt { qos, retain }
    }

    pub fn at_most_once() -> (r: PubOpt)
        ensures
            r == (PubOpt { qos: QoS::AtMostOnce, retain: false }),
    {
        PubOpt { qos: QoS::AtMostOnce, retain: false }
    }

    pub fn at_least_once() -> (r: PubOpt)
        ensures
            r == (PubOpt { qos: QoS::AtLeastOnce, retain: false }),
    {
        PubOpt { qos: QoS::AtLeastOnce, retain: false }
    }

    pub fn exactly_once() -> (r: PubOpt)
        ensures
            r == (PubOpt { qos: QoS::ExactlyOnce, retain: false }),
    {
        PubOpt { qos: QoS::ExactlyOnce, retain: false }
    }

    pub fn qos(&self) -> (r: QoS)
        ensures
            r == self.qos,
    {
        self.qos
    }

    pub fn is_retain(&self) -> (r: bool)
        ensures
            r == self.retain,
    {
        self.retain
    }
}

/// What is left to do once written bytes have been flushed.
#[derive(Debug, Clone, PartialEq, Eq)]
pub enum AfterFlush {
    /// Nothing.
    Nothing,
    /// The message, acknowledged at level 1, goes to the user.
    Deliver(Box<Message>),
    /// The PUBREL went out: the exchange waits for its PUBCOMP, and the
    /// message leaves the outgoing store.
    Release(PacketIdentifier),
    /// The PUBCOMP went out: the message leaves the incoming store.
    Complete(PacketIdentifier),
}

impl View for AfterFlush {
    type V = AfterFlushView;

    open spec fn view(&self) -> AfterFlushView {
        match self {
            AfterFlush::Nothing => AfterFlushView::Nothing,
            AfterFlush::Deliver(m) => AfterFlushView::Deliver(m@),
            AfterFlush::Release(pid) => AfterFlushView::Release(*pid),
            AfterFlush::Complete(pid) => AfterFlushView::Complete(*pid),
        }
    }
}

/// What the owner of the transport has to do next.
#[derive(Debug, PartialEq)]
pub enum Action {
    /// Nothing: the operation has ended, with a message for the user or
    /// without one.
    Done(Option<Box<Message>>),
    /// Send the written bytes and flush, then report to `_flush` how that
    /// went.
    Flush(AfterFlush),
    /// Wait for the duration and connect anew.
    Reconnect(Duration),
}

/// What an optional message holds.
pub open spec fn opt_message(m: Option<Box<Message>>) -> Option<MessageView> {
    match m {
        Some(m) => Some(m@),
        None => None,
    }
}

impl View for Action {
    type V = ActionView;

    open spec fn view(&self) -> ActionView {
        match self {
            Action::Done(m) => ActionView::Done(opt_message(*m)),
            Action::Flush(after) => ActionView::Flush(after@),
            Action::Reconnect(dur) => ActionView::Reconnect(*dur),
        }
    }
}

/// What an operation answers, as mathematics.
pub open spec fn answer(r: Result<Action, Error>) -> Result<ActionView, Error> {
    match r {
        Ok(action) => Ok(action@),
        Err(e) => Err(e),
    }
}

/// What `accept` needs before it can go on.
#[derive(Debug, Clone, Copy, PartialEq)]
pub enum Poll {
    /// Read one packet, giving up after that many nanoseconds if a number is
    /// given.
    Read(Option<u64>),
    /// Wait for the duration and connect anew.
    Reconnect(Duration),
}

impl View for Poll {
    type V = PollView;

    open spec fn view(&self) -> PollView {
        match self {
            Poll::Read(limit) => PollView::Read(*limit),
            Poll::Reconnect(dur) => PollView::Reconnect(*dur),
        }
    }
}

/// How one turn of `await` ends.
#[derive(Debug, Clone, PartialEq, Eq)]
pub enum Wait {
    /// The wait is over, with a message for the user or without one.
    Ready(Option<Box<Message>>),
    /// Accept again.
    Again,
    /// A PINGREQ was written: send it, whether that works or not, and accept
    /// again.
    Ping,
}

impl View for Wait {
    type V = WaitView;

    open spec fn view(&self) -> WaitView {
        match self {
            Wait::Ready(m) => WaitView::Ready(opt_message(*m)),
            Wait::Again => WaitView::Again,
            Wait::Ping => WaitView::Ping,
        }
    }
}

/// What a store holds, if there is one.
pub open spec fn store_view(store: Option<Box<dyn Store>>) -> Option<Map<u16, MessageView>> {
    match store {
        Some(store) => Some(store.contents()),
        None => None,
    }
}

/// The settings of a client.
pub struct ClientOptions {
    protocol: Protocol,
    keep_alive: Option<u16>,
    clean_session: bool,
    client_id: Option<String>,
    last_will: Option<LastWill>,
    username: Option<String>,
    password: Option<String>,
    reconnect: ReconnectMethod,
    incoming_store: Option<Box<dyn Store>>,
    outgoing_store: Option<Box<dyn Store>>,
}

impl View for ClientOptions {
    type V = OptionsView;

    closed spec fn view(&self) -> OptionsView {
        OptionsView {
            protocol: self.protocol,
            keep_alive: self.keep_alive,
            clean_session: self.clean_session,
            client_id: opt_text(self.client_id),
            last_will: opt_will(self.last_will),
            username: opt_text(self.username),
            password: opt_text(self.password),
            reconnect: self.reconnect,
            incoming_store: store_view(self.incoming_store),
            outgoing_store: store_view(self.outgoing_store),
        }
    }
}

/// A copy of an optional string.
fn copy_text(s: &Option<String>) -> (r: Option<String>)
    ensures
        opt_text(r) == opt_text(*s),
{
    match s {
        Some(s) => Some(s.clone()),
        None => None,
    }
}

impl ClientOptions {
    /// Settings for MQTT 3.1.1 with a keep-alive of 30 seconds and a clean
    /// session, which stays disconnected when the connection is lost. There
    /// is no client identifier, last will, user name, password or store.
    pub fn new() -> (r: ClientOptions)
        ensures
            r@ == (OptionsView {
                protocol: Protocol::MQTT(4),
                keep_alive: Some(30u16),
                clean_session: true,
                client_id: None,
                last_will: None,
                username: None,
                password: None,
                reconnect: ReconnectMethod::ForeverDisconnect,
                incoming_store: None,
                outgoing_store: None,
            }),
    {
        ClientOptions {
            protocol: Protocol::MQTT(4),
            keep_alive: Some(30),
            clean_session: true,
            client_id: None,
            last_will: None,
            username: None,
            password: None,
            reconnect: ReconnectMethod::ForeverDisconnect,
            incoming_store: None,
            outgoing_store: None,
        }
    }

    /// The CONNECT packet that the settings make.
    pub fn _generate_connect_packet(&self) -> (r: Box<Connect>)
        ensures
            r@ == connect_packet(self@),
    {
        let keep_alive = if let Some(secs) = self.keep_alive {
            secs
        } else {
            0
        };
        let client_id = match &self.client_id {
            Some(id) => id.clone(),
            None => String::new(),
        };
        let last_will = match &self.last_will {
            Some(will) => Some(will.duplicate()),
            None => None,
        };
        Box::new(
            Connect {
                protocol: self.protocol,
                keep_alive,
                client_id,
                clean_session: self.clean_session,
                last_will,
                username: copy_text(&self.username),
                password: copy_text(&self.password),
            },
        )
    }
}

/// The decimal digits of a number, as text.
pub fn decimal_text(n: u32) -> (r: String)
    ensures
        r@ == session::decimal(n as nat),
    decreases n,
{
    let d = n % 10;
    let digit: &'static str = if d == 0 {
        "0"
    } else if d == 1 {
        "1"
    } else if d == 2 {
        "2"
    } else if d == 3 {
        "3"
    } else if d == 4 {
        "4"
    } else if d == 5 {
        "5"
    } else if d == 6 {
        "6"
    } else if d == 7 {
        "7"
    } else if d == 8 {
        "8"
    } else {
        "9"
    };
    proof {
        reveal_strlit("0");
        reveal_strlit("1");
        reveal_strlit("2");
        reveal_strlit("3");
        reveal_strlit("4");
        reveal_strlit("5");
        reveal_strlit("6");
        reveal_strlit("7");
        reveal_strlit("8");
        reveal_strlit("9");
    }
    if n < 10 {
        digit.to_owned()
    } else {
        let mut text = decimal_text(n / 10);
        text.append(digit);
        text
    }
}

/// The client identifier that is made from a number.
pub fn client_id_from(n: u32) -> (r: String)
    ensures
        r@ == session::client_id_of(n),
{
    let mut text = "mqttc_".to_owned();
    proof {
        reveal_strlit("mqttc_");
    }
    let digits = decimal_text(n);
    text.append(digits.as_str());
    text
}

impl ClientOptions {
    /// Sets the keep-alive interval, in seconds.
    pub fn set_keep_alive(&mut self, secs: u16) -> (ret: &mut ClientOptions)
        ensures
            ret@ == (OptionsView { keep_alive: Some(secs), ..old(self)@ }),
            *final(self) == *final(ret),
    {
        self.keep_alive = Some(secs);
        self
    }

    /// Sets the protocol revision.
    pub fn set_protocol(&mut self, protocol: Protocol) -> (ret: &mut ClientOptions)
        ensures
            ret@ == (OptionsView { protocol, ..old(self)@ }),
            *final(self) == *final(ret),
    {
        self.protocol = protocol;
        self
    }

    /// Sets the client identifier.
    pub fn set_client_id(&mut self, client_id: String) -> (ret: &mut ClientOptions)
        ensures
            ret@ == (OptionsView { client_id: Some(client_id@), ..old(self)@ }),
            *final(self) == *final(ret),
    {
        self.client_id = Some(client_id);
        self
    }

    /// Sets whether the broker is to start a clean session.
    pub fn set_clean_session(&mut self, clean_session: bool) -> (ret: &mut ClientOptions)
        ensures
            ret@ == (OptionsView { clean_session, ..old(self)@ }),
            *final(self) == *final(ret),
    {
        self.clean_session = clean_session;
        self
    }

    /// Sets the store for messages of level 2 that arrive.
    pub fn set_incomming_store(&mut self, store: Box<dyn Store>) -> (ret: &mut ClientOptions)
        ensures
            ret@ == (OptionsView { incoming_store: store_view(Some(store)), ..old(self)@ }),
            *final(self) == *final(ret),
    {
        self.incoming_store = Some(store);
        self
    }

    /// Sets the store for messages of level 2 that are sent.
    pub fn set_outgoing_store(&mut self, store: Box<dyn Store>) -> (ret: &mut ClientOptions)
        ensures
            ret@ == (OptionsView { outgoing_store: store_view(Some(store)), ..old(self)@ }),
            *final(self) == *final(ret),
    {
        self.outgoing_store = Some(store);
        self
    }

    /// Sets a client identifier made from a random number.
    pub fn generate_client_id(&mut self) -> (ret: &mut ClientOptions)
        ensures
            exists|n: u32|
                ret@ == (OptionsView {
                    client_id: Some(#[trigger] session::client_id_of(n)),
                    ..old(self)@
                }),
            *final(self) == *final(ret),
    {
        let id = random_u32();
        self.client_id = Some(client_id_from(id));
        assert(self@ == (OptionsView { client_id: Some(session::client_id_of(id)), ..old(self)@ }));
        self
    }

    /// Sets the user name.
    pub fn set_username(&mut self, username: String) -> (ret: &mut ClientOptions)
        ensures
            ret@ == (OptionsView { username: Some(username@), ..old(self)@ }),
            *final(self) == *final(ret),
    {
        self.username = Some(username);
        self
    }

    /// Sets the password.
    pub fn set_password(&mut self, password: String) -> (ret: &mut ClientOptions)
        ensures
            ret@ == (OptionsView { password: Some(password@), ..old(self)@ }),
            *final(self) == *final(ret),
    {
        self.password = Some(password);
        self
    }

    /// Sets the last will, whose topic must be a topic name.
    pub fn set_last_will(&mut self, topic: &str, message: String, pub_opt: PubOpt) -> (r: Result<
        (),
        Error,
    >)
        ensures
            match topic_name_of(topic@) {
                Ok(name) => r is Ok && final(self)@ == (OptionsView {
                    last_will: Some(
                        LastWillView {
                            topic: name.path,
                            message: message@,
                            qos: pub_opt.qos,
                            retain: pub_opt.retain,
                        },
                    ),
                    ..old(self)@
                }),
                Err(e) => r == Err::<(), Error>(Error::Mqtt(e)) && final(self)@ == old(self)@,
            },
    {
        let topic_name = match to_topic_name(topic) {
            Ok(topic_name) => topic_name,
            Err(e) => {
                return Err(Error::Mqtt(e));
            },
        };
        self.last_will = Some(
            LastWill {
                topic: topic_name.path(),
                message,
                qos: pub_opt.qos(),
                retain: pub_opt.is_retain(),
            },
        );
        Ok(())
    }

    /// Sets or clears the last will.
    pub fn set_last_will_opt(&mut self, last_will: Option<LastWill>) -> (ret: &mut ClientOptions)
        ensures
            ret@ == (OptionsView { last_will: opt_will(last_will), ..old(self)@ }),
            *final(self) == *final(ret),
    {
        self.last_will = last_will;
        self
    }

    /// Sets what to do when the connection is lost.
    pub fn set_reconnect(&mut self, reconnect: ReconnectMethod) -> (ret: &mut ClientOptions)
        ensures
            ret@ == (OptionsView { reconnect, ..old(self)@ }),
            *final(self) == *final(ret),
    {
        self.reconnect = reconnect;
        self
    }

    /// Starts a session on a transport that has just been opened, at the
    /// time `now`: a client identifier is made if there is none, and the
    /// handshake begins. If the CONNECT cannot be written, there is no client.
    pub fn connect(self, now: u64) -> (r: Result<(Client, Action), Error>)
        ensures
            exists|n: u32|
                {
                    let opts = if self@.client_id is None {
                        OptionsView {
                            client_id: Some(#[trigger] session::client_id_of(n)),
                            ..self@
                        }
                    } else {
                        self@
                    };
                    match session::handshake(session::fresh(opts, now)) {
                        (s, Ok(action)) => r matches Ok((client, a)) && client@ == s && a@
                            == action,
                        (_, Err(e)) => r matches Err(err) && err == e,
                    }
                },
    {
        let ghost before = self@;
        let mut settings = self;
        let mut id: u32 = 0;
        if settings.client_id.is_none() {
            id = random_u32();
            settings.client_id = Some(client_id_from(id));
        }
        let ghost opts = settings@;
        let mut client = Client {
            state: ClientState::Disconnected,
            opts: settings,
            conn: MqttWrite::new(),
            session_present: false,
            last_flush: now,
            last_pid: PacketIdentifier::zero(),
            await_ping: false,
            incoming_pub: VecDeque::new(),
            incoming_rec: VecDeque::new(),
            incoming_rel: VecDeque::new(),
            outgoing_ack: VecDeque::new(),
            outgoing_rec: VecDeque::new(),
            outgoing_comp: VecDeque::new(),
            await_suback: VecDeque::new(),
            await_unsuback: VecDeque::new(),
            subscriptions: Subscriptions::new(),
        };
        proof {
            assert(views(client.incoming_pub@) =~= Seq::empty());
            assert(views(client.await_suback@) =~= Seq::empty());
            assert(views(client.await_unsuback@) =~= Seq::empty());
            assert(client@ == session::fresh(opts, now));
            assert(opts == if before.client_id is None {
                OptionsView { client_id: Some(session::client_id_of(id)), ..before }
            } else {
                before
            });
        }
        // Send CONNECT then wait CONNACK
        match client._handshake() {
            Ok(action) => Ok((client, action)),
            Err(e) => Err(e),
        }
    }
}

/// What a queue of boxed values holds.
pub open spec fn views<T: View>(q: Seq<Box<T>>) -> Seq<T::V> {
    Seq::new(q.len(), |i: int| q[i]@)
}

/// Adds a value at the back of a queue.
fn enqueue<T: View>(q: &mut VecDeque<Box<T>>, x: Box<T>)
    ensures
        views(final(q)@) == views(old(q)@).push(x@),
{
    q.push_back(x);
}

/// Takes the value at the front of a queue.
fn dequeue<T: View>(q: &mut VecDeque<Box<T>>) -> (r: Option<Box<T>>)
    ensures
        match r {
            Some(x) => old(q)@.len() > 0 && x@ == views(old(q)@)[0] && views(final(q)@) == views(
                old(q)@,
            ).drop_first(),
            None => old(q)@.len() == 0 && final(q)@ == old(q)@,
        },
{
    q.pop_front()
}

/// The numbers of exchanges that are under way, queue by queue.
#[derive(Debug, Clone, Copy, PartialEq, Eq)]
pub struct InFlight {
    pub incoming_pub: usize,
    pub incoming_rec: usize,
    pub incoming_rel: usize,
    pub outgoing_ack: usize,
    pub outgoing_rec: usize,
    pub outgoing_comp: usize,
    pub await_suback: usize,
    pub await_unsuback: usize,
}

/// A session with a broker.
pub struct Client {
    state: ClientState,
    opts: ClientOptions,
    conn: MqttWrite,
    session_present: bool,
    last_flush: u64,
    last_pid: PacketIdentifier,
    await_ping: bool,
    incoming_pub: VecDeque<Box<Message>>,
    incoming_rec: VecDeque<Box<Message>>,
    incoming_rel: VecDeque<PacketIdentifier>,
    outgoing_ack: VecDeque<Box<Message>>,
    outgoing_rec: VecDeque<Box<Message>>,
    outgoing_comp: VecDeque<PacketIdentifier>,
    await_suback: VecDeque<Box<Subscribe>>,
    await_unsuback: VecDeque<Box<Unsubscribe>>,
    subscriptions: Subscriptions,
}

impl View for Client {
    type V = ClientView;

    closed spec fn view(&self) -> ClientView {
        ClientView {
            state: self.state,
            opts: self.opts@,
            written: self.conn@,
            session_present: self.session_present,
            last_flush: self.last_flush,
            last_pid: self.last_pid,
            await_ping: self.await_ping,
            incoming_pub: views(self.incoming_pub@),
            incoming_rec: views(self.incoming_rec@),
            incoming_rel: self.incoming_rel@,
            outgoing_ack: views(self.outgoing_ack@),
            outgoing_rec: views(self.outgoing_rec@),
            outgoing_comp: self.outgoing_comp@,
            await_suback: views(self.await_suback@),
            await_unsuback: views(self.await_unsuback@),
            subscriptions: self.subscriptions@,
        }
    }
}

impl Client {
    /// Whether the broker kept a session from before, as the last CONNACK
    /// said.
    pub fn session_present(&self) -> (r: bool)
        ensures
            r == self@.session_present,
    {
        self.session_present
    }

    /// Where the session stands.
    pub fn state(&self) -> (r: ClientState)
        ensures
            r == self@.state,
    {
        self.state
    }

    /// Whether a PINGRESP is awaited.
    pub fn awaits_ping(&self) -> (r: bool)
        ensures
            r == self@.await_ping,
    {
        self.await_ping
    }

    /// The packet identifier that was handed out last.
    pub fn last_pid(&self) -> (r: PacketIdentifier)
        ensures
            r == self@.last_pid,
    {
        self.last_pid
    }

    /// How many exchanges are under way, queue by queue.
    pub fn in_flight(&self) -> (r: InFlight)
        ensures
            r.incoming_pub == self@.incoming_pub.len(),
            r.incoming_rec == self@.incoming_rec.len(),
            r.incoming_rel == self@.incoming_rel.len(),
            r.outgoing_ack == self@.outgoing_ack.len(),
            r.outgoing_rec == self@.outgoing_rec.len(),
            r.outgoing_comp == self@.outgoing_comp.len(),
            r.await_suback == self@.await_suback.len(),
            r.await_unsuback == self@.await_unsuback.len(),
    {
        InFlight {
            incoming_pub: self.incoming_pub.len(),
            incoming_rec: self.incoming_rec.len(),
            incoming_rel: self.incoming_rel.len(),
            outgoing_ack: self.outgoing_ack.len(),
            outgoing_rec: self.outgoing_rec.len(),
            outgoing_comp: self.outgoing_comp.len(),
            await_suback: self.await_suback.len(),
            await_unsuback: self.await_unsuback.len(),
        }
    }

    /// The granted subscriptions, as the filters and levels to ask for them
    /// again.
    pub fn subscriptions(&self) -> (r: Vec<SubscribeTopic>)
        ensures
            filters_view(r@) == crate::subscription::requests(self@.subscriptions),
    {
        self.subscriptions.values()
    }

    /// The message that the incoming store keeps under `pid`. The store's
    /// contents stay as they are.
    pub fn incoming_stored(&mut self, pid: PacketIdentifier) -> (r: Result<Box<Message>, Error>)
        ensures
            final(self)@ == old(self)@,
            old(self)@.opts.incoming_store is None ==> r matches Err(
                Error::IncomingStorageAbsent,
            ),
            old(self)@.opts.incoming_store is Some ==> r is Ok || r matches Err(Error::Storage(_)),
            r matches Ok(m) ==> old(self)@.opts.incoming_store matches Some(kept)
                && kept.contains_key(pid.0) && kept[pid.0] == m@,
    {
        match &mut self.opts.incoming_store {
            Some(store) => match store.get(pid) {
                Ok(m) => Ok(m),
                Err(e) => Err(Error::Storage(e)),
            },
            None => Err(Error::IncomingStorageAbsent),
        }
    }

    /// The message that the outgoing store keeps under `pid`. The store's
    /// contents stay as they are.
    pub fn outgoing_stored(&mut self, pid: PacketIdentifier) -> (r: Result<Box<Message>, Error>)
        ensures
            final(self)@ == old(self)@,
            old(self)@.opts.outgoing_store is None ==> r matches Err(
                Error::OutgoingStorageAbsent,
            ),
            old(self)@.opts.outgoing_store is Some ==> r is Ok || r matches Err(Error::Storage(_)),
            r matches Ok(m) ==> old(self)@.opts.outgoing_store matches Some(kept)
                && kept.contains_key(pid.0) && kept[pid.0] == m@,
    {
        match &mut self.opts.outgoing_store {
            Some(store) => match store.get(pid) {
                Ok(m) => Ok(m),
                Err(e) => Err(Error::Storage(e)),
            },
            None => Err(Error::OutgoingStorageAbsent),
        }
    }

    /// Sets what to do when the connection is lost.
    pub fn set_reconnect(&mut self, reconnect: ReconnectMethod)
        ensures
            final(self)@ == (ClientView {
                opts: OptionsView { reconnect, ..old(self)@.opts },
                ..old(self)@
            }),
    {
        self.opts.reconnect = reconnect;
    }

    /// Hands over the bytes written so far, for the transport to send.
    pub fn take_output(&mut self) -> (r: Vec<u8>)
        ensures
            r@ == old(self)@.written,
            final(self)@ == (ClientView { written: Seq::empty(), ..old(self)@ }),
    {
        self.conn.take_bytes()
    }

    /// Whether the session is connected and waits for nothing.
    pub fn _normalized(&self) -> (r: bool)
        ensures
            r == normalized(self@),
    {
        (self.state == ClientState::Connected) && (!self.await_ping) && (self.outgoing_ack.len()
            == 0) && (self.outgoing_rec.len() == 0) && (self.outgoing_comp.len() == 0) && (
        self.incoming_pub.len() == 0) && (self.incoming_rec.len() == 0) && (
        self.incoming_rel.len() == 0) && (self.await_suback.len() == 0) && (
        self.await_unsuback.len() == 0)
    }

    /// Takes the next packet identifier.
    pub fn _next_pid(&mut self) -> (r: PacketIdentifier)
        ensures
            r == old(self)@.last_pid.successor(),
            final(self)@ == (ClientView { last_pid: r, ..old(self)@ }),
    {
        self.last_pid = self.last_pid.next();
        self.last_pid
    }

    /// Lets go of the connection: the waits for SUBACK, UNSUBACK and
    /// PINGRESP end, the publish queues stay.
    pub fn _unbind(&mut self)
        ensures
            final(self)@ == unbound(old(self)@),
    {
        self.await_unsuback.clear();
        self.await_suback.clear();
        self.await_ping = false;
        self.state = ClientState::Disconnected;
        assert(views(self.await_unsuback@) =~= Seq::empty());
        assert(views(self.await_suback@) =~= Seq::empty());
    }

    /// Ends the session's connection.
    pub fn terminate(&mut self)
        ensures
            final(self)@ == unbound(old(self)@),
    {
        self._unbind();
    }

    /// Writes a packet to the buffer, if it is one that can be written.
    pub fn _write_packet(&mut self, packet: &Packet) -> (r: Result<(), Error>)
        ensures
            match encode(packet@) {
                Ok(_) => r is Ok && final(self)@ == wrote(old(self)@, packet@),
                Err(e) => r == Err::<(), Error>(Error::Mqtt(e)) && final(self)@ == old(self)@,
            },
    {
        match self.conn.write_packet(packet) {
            Ok(_) => Ok(()),
            Err(e) => Err(Error::Mqtt(e)),
        }
    }

    /// Writes a packet of a kind that can always be written: an
    /// acknowledgement, a PINGREQ or a DISCONNECT.
    fn write_short(&mut self, packet: &Packet)
        requires
            packet is Puback || packet is Pubrec || packet is Pubrel || packet is Pubcomp
                || packet is Pingreq || packet is Disconnect,
        ensures
            final(self)@ == wrote(old(self)@, packet@),
            encode(packet@) is Ok,
    {
        let _ = self._write_packet(packet);
    }

    /// A message arrives. `put` in the contract is how the call of the
    /// incoming store ended, if one was made.
    pub fn _handle_message(&mut self, message: Box<Message>) -> (r: Result<Action, Error>)
        ensures
            exists|put: Result<(), StorageError>|
                (final(self)@, answer(r)) == #[trigger] session::handle_message(
                    old(self)@,
                    message@,
                    put,
                ),
    {
        let ghost pre = self@;
        let ghost m = message@;
        match message.qos {
            QoS::AtMostOnce => {
                assert((self@, Ok::<ActionView, Error>(ActionView::Done(Some(m))))
                    == session::handle_message(pre, m, Ok(())));
                Ok(Action::Done(Some(message)))
            },
            QoS::AtLeastOnce => {
                let pid = match message.pid {
                    Some(pid) => pid,
                    None => {
                        assert((self@, Err::<ActionView, Error>(
                            Error::Mqtt(MQError::IncorrectPacketFormat),
                        )) == session::handle_message(pre, m, Ok(())));
                        return Err(Error::Mqtt(MQError::IncorrectPacketFormat));
                    },
                };
                enqueue(&mut self.incoming_pub, message.duplicate());
                self.write_short(&Packet::Puback(pid));
                assert((self@, Ok::<ActionView, Error>(
                    ActionView::Flush(AfterFlushView::Deliver(m)),
                )) == session::handle_message(pre, m, Ok(())));
                Ok(Action::Flush(AfterFlush::Deliver(message)))
            },
            QoS::ExactlyOnce => {
                let pid = match message.pid {
                    Some(pid) => pid,
                    None => {
                        assert((self@, Err::<ActionView, Error>(
                            Error::Mqtt(MQError::IncorrectPacketFormat),
                        )) == session::handle_message(pre, m, Ok(())));
                        return Err(Error::Mqtt(MQError::IncorrectPacketFormat));
                    },
                };
                enqueue(&mut self.incoming_rec, message.duplicate());
                let put = match &mut self.opts.incoming_store {
                    Some(store) => store.put(message),
                    None => {
                        assert((self@, Err::<ActionView, Error>(Error::IncomingStorageAbsent))
                            == session::handle_message(pre, m, Ok(())));
                        return Err(Error::IncomingStorageAbsent);
                    },
                };
                let r = self._after_put_incoming(pid, put);
                assert((self@, answer(r)) == session::handle_message(pre, m, put));
                r
            },
        }
    }

    /// What follows the call that put a message of level 2 that arrived into
    /// the incoming store: see [`session::after_put_incoming`].
    pub fn _after_put_incoming(
        &mut self,
        pid: PacketIdentifier,
        put: Result<(), StorageError>,
    ) -> (r: Result<Action, Error>)
        ensures
            (final(self)@, answer(r)) == session::after_put_incoming(old(self)@, pid, put),
    {
        match put {
            Err(e) => Err(Error::Storage(e)),
            Ok(_) => {
                self.write_short(&Packet::Pubrec(pid));
                Ok(Action::Flush(AfterFlush::Nothing))
            },
        }
    }

    /// What follows the call that asked the incoming store for the message
    /// of a PUBREL: see [`session::after_get`].
    pub fn _after_get(
        &mut self,
        pid: PacketIdentifier,
        got: Result<Box<Message>, StorageError>,
    ) -> (r: Result<Action, Error>)
        ensures
            (final(self)@, answer(r)) == session::after_get(old(self)@, pid, handed(got)),
    {
        match got {
            Ok(message) => {
                self.incoming_rel.push_back(pid);
                Ok(Action::Done(Some(message)))
            },
            Err(e) => Err(Error::Storage(e)),
        }
    }

    /// What follows the call that put a message of level 2 that is published
    /// into the outgoing store, where `bytes` are those of its PUBLISH: see
    /// [`session::after_put_outgoing`].
    pub fn _after_put_outgoing(
        &mut self,
        message: Box<Message>,
        bytes: Vec<u8>,
        put: Result<(), StorageError>,
    ) -> (r: Result<(), Error>)
        ensures
            (final(self)@, session::flush_next(r)) == session::after_put_outgoing(
                old(self)@,
                message@,
                bytes@,
                put,
            ),
    {
        match put {
            Err(e) => Err(Error::Storage(e)),
            Ok(_) => {
                enqueue(&mut self.outgoing_rec, message);
                self.conn.write_all(bytes.as_slice());
                Ok(())
            },
        }
    }

    /// What follows the call that deleted a message from a store: see
    /// [`session::after_delete`].
    pub fn _after_delete(delete: Result<(), StorageError>) -> (r: Result<
        Option<Box<Message>>,
        Error,
    >)
        ensures
            delivered(r) == session::after_delete(delete),
    {
        match delete {
            Ok(_) => Ok(None),
            Err(e) => Err(Error::Storage(e)),
        }
    }

    /// A PUBACK arrives.
    fn on_puback(&mut self, pid: PacketIdentifier) -> (r: Result<Action, Error>)
        ensures
            (final(self)@, answer(r)) == session::on_puback(old(self)@, pid),
    {
        let unhandled = Error::PacketIdentifierError(PacketIdentifierError::UnhandledPuback(pid));
        if let Some(message) = dequeue(&mut self.outgoing_ack) {
            match message.pid {
                Some(found) => if found.0 == pid.0 {
                    Ok(Action::Done(None))
                } else {
                    Err(unhandled)
                },
                None => Err(unhandled),
            }
        } else {
            Err(unhandled)
        }
    }

    /// A PUBREC arrives.
    fn on_pubrec(&mut self, pid: PacketIdentifier) -> (r: Result<Action, Error>)
        ensures
            (final(self)@, answer(r)) == session::on_pubrec(old(self)@, pid),
    {
        let unhandled = Error::PacketIdentifierError(PacketIdentifierError::UnhandledPubrec(pid));
        if let Some(message) = dequeue(&mut self.outgoing_rec) {
            let same = match message.pid {
                Some(found) => found.0 == pid.0,
                None => false,
            };
            if same {
                self.write_short(&Packet::Pubrel(pid));
                Ok(Action::Flush(AfterFlush::Release(pid)))
            } else {
                Err(unhandled)
            }
        } else {
            Err(unhandled)
        }
    }

    /// A PUBREL arrives. `got` in the contract is what the incoming store
    /// gave, if it was asked.
    fn on_pubrel(&mut self, pid: PacketIdentifier) -> (r: Result<Action, Error>)
        ensures
            exists|got: Result<MessageView, StorageError>|
                session::credible_get(old(self)@, pid, got) && (final(self)@, answer(r))
                    == #[trigger] session::on_pubrel(old(self)@, pid, got),
    {
        let ghost pre = self@;
        let unhandled = Error::PacketIdentifierError(PacketIdentifierError::UnhandledPubrel(pid));
        let ghost none = Err::<MessageView, StorageError>(StorageError::Unavailable);
        if let Some(message) = dequeue(&mut self.incoming_rec) {
            let same = match message.pid {
                Some(found) => found.0 == pid.0,
                None => false,
            };
            if same {
                let got = match &mut self.opts.incoming_store {
                    Some(store) => store.get(pid),
                    None => {
                        assert((self@, Err::<ActionView, Error>(Error::IncomingStorageAbsent))
                            == session::on_pubrel(pre, pid, none));
                        return Err(Error::IncomingStorageAbsent);
                    },
                };
                let ghost found = handed(got);
                let r = self._after_get(pid, got);
                assert(session::credible_get(pre, pid, found) && (self@, answer(r))
                    == session::on_pubrel(pre, pid, found));
                r
            } else {
                assert((self@, Err::<ActionView, Error>(unhandled)) == session::on_pubrel(
                    pre,
                    pid,
                    none,
                ));
                Err(unhandled)
            }
        } else {
            assert((self@, Err::<ActionView, Error>(unhandled)) == session::on_pubrel(
                pre,
                pid,
                none,
            ));
            Err(unhandled)
        }
    }

    /// A PUBCOMP arrives.
    fn on_pubcomp(&mut self, pid: PacketIdentifier) -> (r: Result<Action, Error>)
        ensures
            (final(self)@, answer(r)) == session::on_pubcomp(old(self)@, pid),
    {
        if let Some(_) = self.outgoing_comp.pop_front() {
            Ok(Action::Done(None))
        } else {
            Err(Error::PacketIdentifierError(PacketIdentifierError::UnhandledPubcomp(pid)))
        }
    }

    /// A SUBACK arrives.
    fn on_suback(&mut self, suback: &Suback) -> (r: Result<Action, Error>)
        ensures
            (final(self)@, answer(r)) == session::on_suback(old(self)@, suback@),
    {
        let ghost pre = self@;
        if let Some(subscribe) = dequeue(&mut self.await_suback) {
            if subscribe.pid.0 == suback.pid.0 {
                if subscribe.topics.len() == suback.return_codes.len() {
                    let ghost s1 = self@;
                    let ghost request = subscribe@;
                    let ghost codes = suback@.return_codes;
                    let n = subscribe.topics.len();
                    let mut i: usize = 0;
                    while i < n
                        invariant
                            i <= n,
                            n == subscribe.topics@.len(),
                            n == suback.return_codes@.len(),
                            request == subscribe@,
                            codes == suback.return_codes@,
                            pre == old(self)@,
                            pre.await_suback.len() > 0,
                            request == pre.await_suback[0],
                            request.pid == suback@.pid,
                            s1 == (ClientView {
                                await_suback: pre.await_suback.drop_first(),
                                ..pre
                            }),
                            self@ == (ClientView { subscriptions: self@.subscriptions, ..s1 }),
                            session::install(s1.subscriptions, request, codes, 0)
                                == session::install(self@.subscriptions, request, codes, i as int),
                        decreases n - i,
                    {
                        let sub_topic = &subscribe.topics[i];
                        match suback.return_codes[i] {
                            SubscribeReturnCodes::Success(qos) => {
                                let topic_path = match to_topic_path(
                                    sub_topic.topic_path.as_str(),
                                ) {
                                    Ok(topic_path) => topic_path,
                                    Err(e) => {
                                        return Err(Error::Mqtt(e));
                                    },
                                };
                                let sub = Subscription { pid: subscribe.pid, topic_path, qos };
                                self.subscriptions.insert(sub);
                            },
                            SubscribeReturnCodes::Failure => {
                                // ignore subscription
                            },
                        }
                        i += 1;
                    }
                    Ok(Action::Done(None))
                } else {
                    Err(Error::ProtocolViolation)
                }
            } else {
                Err(Error::ProtocolViolation)
            }
        } else {
            Err(Error::ProtocolViolation)
        }
    }

    /// An UNSUBACK arrives.
    fn on_unsuback(&mut self, pid: PacketIdentifier) -> (r: Result<Action, Error>)
        ensures
            (final(self)@, answer(r)) == session::on_unsuback(old(self)@, pid),
    {
        if let Some(unsubscribe) = dequeue(&mut self.await_unsuback) {
            if unsubscribe.pid.0 == pid.0 {
                let ghost s1 = self@;
                let ghost topics = unsubscribe@.topics;
                let n = unsubscribe.topics.len();
                let mut i: usize = 0;
                while i < n
                    invariant
                        i <= n,
                        n == unsubscribe.topics@.len(),
                        topics == unsubscribe@.topics,
                        self@ == (ClientView { subscriptions: self@.subscriptions, ..s1 }),
                        session::uninstall(s1.subscriptions, topics, 0) == session::uninstall(
                            self@.subscriptions,
                            topics,
                            i as int,
                        ),
                    decreases n - i,
                {
                    self.subscriptions.remove(&unsubscribe.topics[i]);
                    i += 1;
                }
                Ok(Action::Done(None))
            } else {
                Err(Error::ProtocolViolation)
            }
        } else {
            Err(Error::ProtocolViolation)
        }
    }

    /// A CONNACK arrives during the handshake.
    fn on_connack(&mut self, connack: &Connack) -> (r: Result<Action, Error>)
        ensures
            (final(self)@, answer(r)) == session::on_connack(old(self)@, *connack),
    {
        if connack.code == ConnectReturnCode::Accepted {
            self.session_present = connack.session_present;
            self.state = ClientState::Connected;
            Ok(Action::Done(None))
        } else {
            Err(Error::ConnectionRefused(connack.code))
        }
    }

    /// A packet arrives in a connected session.
    fn on_packet(&mut self, packet: Packet) -> (r: Result<Action, Error>)
        requires
            old(self)@.state == ClientState::Connected,
        ensures
            exists|store: StoreOutcome|
                session::credible(old(self)@, packet@, store) && (final(self)@, answer(r))
                    == #[trigger] session::parse_packet(old(self)@, packet@, store),
    {
        let ghost pre = self@;
        let ghost p = packet@;
        let ghost idle = StoreOutcome { put: Ok(()), got: Err(StorageError::Unavailable) };
        match packet {
            Packet::Connack(_) => {
                assert((self@, Err::<ActionView, Error>(Error::AlreadyConnected))
                    == session::parse_packet(pre, p, idle));
                Err(Error::AlreadyConnected)
            },
            Packet::Publish(publish) => {
                let message = match Message::from_pub(publish) {
                    Ok(message) => message,
                    Err(e) => {
                        assert((self@, Err::<ActionView, Error>(Error::Mqtt(e)))
                            == session::parse_packet(pre, p, idle));
                        return Err(Error::Mqtt(e));
                    },
                };
                let ghost m = message@;
                let r = self._handle_message(message);
                proof {
                    let put = choose|put: Result<(), StorageError>|
                        (self@, answer(r)) == #[trigger] session::handle_message(pre, m, put);
                    assert((self@, answer(r)) == session::parse_packet(
                        pre,
                        p,
                        StoreOutcome { put, got: Err(StorageError::Unavailable) },
                    ));
                }
                r
            },
            Packet::Puback(pid) => {
                let r = self.on_puback(pid);
                assert((self@, answer(r)) == session::parse_packet(pre, p, idle));
                r
            },
            Packet::Pubrec(pid) => {
                let r = self.on_pubrec(pid);
                assert((self@, answer(r)) == session::parse_packet(pre, p, idle));
                r
            },
            Packet::Pubrel(pid) => {
                let r = self.on_pubrel(pid);
                proof {
                    let got = choose|got: Result<MessageView, StorageError>|
                        session::credible_get(pre, pid, got) && (self@, answer(r))
                            == #[trigger] session::on_pubrel(pre, pid, got);
                    let store = StoreOutcome { put: Ok(()), got };
                    assert(session::credible(pre, p, store) && (self@, answer(r))
                        == session::parse_packet(pre, p, store));
                }
                r
            },
            Packet::Pubcomp(pid) => {
                let r = self.on_pubcomp(pid);
                assert((self@, answer(r)) == session::parse_packet(pre, p, idle));
                r
            },
            Packet::Suback(suback) => {
                let r = self.on_suback(&suback);
                assert((self@, answer(r)) == session::parse_packet(pre, p, idle));
                r
            },
            Packet::Unsuback(pid) => {
                let r = self.on_unsuback(pid);
                assert((self@, answer(r)) == session::parse_packet(pre, p, idle));
                r
            },
            Packet::Pingresp => {
                self.await_ping = false;
                assert((self@, Ok::<ActionView, Error>(ActionView::Done(None)))
                    == session::parse_packet(pre, p, idle));
                Ok(Action::Done(None))
            },
            _ => {
                assert((self@, Err::<ActionView, Error>(Error::UnrecognizedPacket))
                    == session::parse_packet(pre, p, idle));
                Err(Error::UnrecognizedPacket)
            },
        }
    }

    /// A packet arrives. `store` in the contract is how the call of a store
    /// ended, if one was made.
    pub fn _parse_packet(&mut self, packet: Packet) -> (r: Result<Action, Error>)
        ensures
            exists|store: StoreOutcome|
                session::credible(old(self)@, packet@, store) && (final(self)@, answer(r))
                    == #[trigger] session::parse_packet(old(self)@, packet@, store),
    {
        let ghost pre = self@;
        let ghost p = packet@;
        let ghost idle = StoreOutcome { put: Ok(()), got: Err(StorageError::Unavailable) };
        match self.state {
            ClientState::Handshake => {
                match packet {
                    Packet::Connack(ref connack) => {
                        let r = self.on_connack(connack);
                        assert((self@, answer(r)) == session::parse_packet(pre, p, idle));
                        r
                    },
                    _ => {
                        assert((self@, Err::<ActionView, Error>(Error::HandshakeFailed))
                            == session::parse_packet(pre, p, idle));
                        Err(Error::HandshakeFailed)
                    },
                }
            },
            ClientState::Connected => self.on_packet(packet),
            ClientState::Disconnected => {
                assert((self@, Err::<ActionView, Error>(Error::ConnectionAbort))
                    == session::parse_packet(pre, p, idle));
                Err(Error::ConnectionAbort)
            },
        }
    }

    /// Appends the bytes of a packet that was written aside.
    fn write_ready(&mut self, scratch: MqttWrite, packet: Ghost<PacketView>)
        requires
            encode(packet@) == Ok::<Seq<u8>, MQError>(scratch@),
        ensures
            final(self)@ == wrote(old(self)@, packet@),
    {
        let bytes = scratch.into_bytes();
        self.conn.write_all(bytes.as_slice());
    }

    /// Makes the message of `publish`, notes it as under way and writes its
    /// PUBLISH. `put` in the contract is how the call of the outgoing store
    /// ended, if one was made.
    pub fn _publish(&mut self, topic: &str, payload: Vec<u8>, pubopt: PubOpt) -> (r: Result<
        (),
        Error,
    >)
        ensures
            exists|put: Result<(), StorageError>|
                (final(self)@, session::flush_next(r)) == #[trigger] session::publish(
                    old(self)@,
                    topic@,
                    payload@,
                    pubopt.qos,
                    pubopt.retain,
                    put,
                ),
    {
        let ghost pre = self@;
        let ghost idle = Ok::<(), StorageError>(());
        let ghost text = topic@;
        let ghost data = payload@;
        let topic = match to_topic_name(topic) {
            Ok(topic) => topic,
            Err(e) => {
                assert((self@, Err::<ActionView, Error>(Error::Mqtt(e))) == session::publish(
                    pre,
                    text,
                    data,
                    pubopt.qos,
                    pubopt.retain,
                    idle,
                ));
                return Err(Error::Mqtt(e));
            },
        };
        let qos = pubopt.qos();
        let next = self.last_pid.next();
        if qos == QoS::ExactlyOnce && self.opts.outgoing_store.is_none() {
            self.last_pid = next;
            assert((self@, Err::<ActionView, Error>(Error::OutgoingStorageAbsent))
                == session::publish(pre, text, data, pubopt.qos, pubopt.retain, idle));
            return Err(Error::OutgoingStorageAbsent);
        }
        let pid = match qos {
            QoS::AtMostOnce => None,
            _ => Some(next),
        };
        let message = Box::new(
            Message { topic, qos, retain: pubopt.is_retain(), pid, payload: Arc::new(payload) },
        );
        let ghost m = message@;
        assert(session::outgoing_message(pre, text, data, pubopt.qos, pubopt.retain) == Ok::<
            MessageView,
            MQError,
        >(m));
        let packet = Packet::Publish(message.to_pub(None, false));
        let ghost p = packet@;
        let mut scratch = MqttWrite::new();
        match scratch.write_packet(&packet) {
            Ok(_) => {},
            Err(e) => {
                assert((self@, Err::<ActionView, Error>(Error::Mqtt(e))) == session::publish(
                    pre,
                    text,
                    data,
                    pubopt.qos,
                    pubopt.retain,
                    idle,
                ));
                return Err(Error::Mqtt(e));
            },
        }
        let ghost done = Ok::<ActionView, Error>(ActionView::Flush(AfterFlushView::Nothing));
        match qos {
            QoS::AtMostOnce => {
                self.write_ready(scratch, Ghost(p));
                assert((self@, done) == session::publish(
                    pre,
                    text,
                    data,
                    pubopt.qos,
                    pubopt.retain,
                    idle,
                ));
            },
            QoS::AtLeastOnce => {
                self.last_pid = next;
                enqueue(&mut self.outgoing_ack, message);
                self.write_ready(scratch, Ghost(p));
                assert((self@, done) == session::publish(
                    pre,
                    text,
                    data,
                    pubopt.qos,
                    pubopt.retain,
                    idle,
                ));
            },
            QoS::ExactlyOnce => {
                self.last_pid = next;
                let put = match &mut self.opts.outgoing_store {
                    Some(store) => store.put(message.duplicate()),
                    None => {
                        return Err(Error::OutgoingStorageAbsent);
                    },
                };
                let r = self._after_put_outgoing(message, scratch.into_bytes(), put);
                assert((self@, session::flush_next(r)) == session::publish(
                    pre,
                    text,
                    data,
                    pubopt.qos,
                    pubopt.retain,
                    put,
                ));
                return r;
            },
        }
        Ok(())
    }

    /// Publishes a message: see [`session::publish`].
    pub fn publish(&mut self, topic: &str, payload: Vec<u8>, pubopt: PubOpt) -> (r: Result<
        Action,
        Error,
    >)
        ensures
            exists|put: Result<(), StorageError>|
                (final(self)@, answer(r)) == #[trigger] session::publish(
                    old(self)@,
                    topic@,
                    payload@,
                    pubopt.qos,
                    pubopt.retain,
                    put,
                ),
    {
        match self._publish(topic, payload, pubopt) {
            Ok(_) => Ok(Action::Flush(AfterFlush::Nothing)),
            Err(e) => Err(e),
        }
    }

    /// Notes a SUBSCRIBE for the filters as under way and writes it.
    pub fn _subscribe(&mut self, subs: Vec<SubscribeTopic>) -> (r: Result<(), Error>)
        ensures
            (final(self)@, session::flush_next(r)) == session::subscribe(
                old(self)@,
                filters_view(subs@),
            ),
    {
        let pid = self.last_pid.next();
        let packet = Packet::Subscribe(Box::new(Subscribe { pid, topics: subs }));
        let ghost p = packet@;
        let mut scratch = MqttWrite::new();
        match scratch.write_packet(&packet) {
            Ok(_) => {},
            Err(e) => {
                return Err(Error::Mqtt(e));
            },
        }
        self.last_pid = pid;
        match packet {
            Packet::Subscribe(subscribe) => {
                enqueue(&mut self.await_suback, subscribe);
            },
            _ => {},
        }
        self.write_ready(scratch, Ghost(p));
        Ok(())
    }

    /// Subscribes to the filters: see [`session::subscribe`].
    pub fn subscribe(&mut self, subs: Vec<SubscribeTopic>) -> (r: Result<Action, Error>)
        ensures
            (final(self)@, answer(r)) == session::subscribe(old(self)@, filters_view(subs@)),
    {
        match self._subscribe(subs) {
            Ok(_) => Ok(Action::Flush(AfterFlush::Nothing)),
            Err(e) => Err(e),
        }
    }

    /// Notes an UNSUBSCRIBE for the filters as under way and writes it.
    pub fn _unsubscribe(&mut self, unsubs: Vec<String>) -> (r: Result<(), Error>)
        ensures
            (final(self)@, session::flush_next(r)) == session::unsubscribe(
                old(self)@,
                texts_view(unsubs@),
            ),
    {
        let pid = self.last_pid.next();
        let packet = Packet::Unsubscribe(Box::new(Unsubscribe { pid, topics: unsubs }));
        let ghost p = packet@;
        let mut scratch = MqttWrite::new();
        match scratch.write_packet(&packet) {
            Ok(_) => {},
            Err(e) => {
                return Err(Error::Mqtt(e));
            },
        }
        self.last_pid = pid;
        match packet {
            Packet::Unsubscribe(unsubscribe) => {
                enqueue(&mut self.await_unsuback, unsubscribe);
            },
            _ => {},
        }
        self.write_ready(scratch, Ghost(p));
        Ok(())
    }

    /// Unsubscribes from the filters: see [`session::unsubscribe`].
    pub fn unsubscribe(&mut self, unsubs: Vec<String>) -> (r: Result<Action, Error>)
        ensures
            (final(self)@, answer(r)) == session::unsubscribe(old(self)@, texts_view(unsubs@)),
    {
        match self._unsubscribe(unsubs) {
            Ok(_) => Ok(Action::Flush(AfterFlush::Nothing)),
            Err(e) => Err(e),
        }
    }

    /// Writes a DISCONNECT.
    pub fn _disconnect(&mut self)
        ensures
            final(self)@ == wrote(old(self)@, PacketView::Disconnect),
    {
        self.write_short(&Packet::Disconnect);
    }

    /// Ends the use of the client, and hands over what is written and still
    /// to be sent.
    pub fn disconnect(self) -> (r: Vec<u8>)
        ensures
            r@ == self@.written,
    {
        self.conn.into_bytes()
    }

    /// Asks the broker for a sign of life.
    pub fn ping(&mut self) -> (r: Result<Action, Error>)
        ensures
            final(self)@ == session::ping(old(self)@),
            answer(r) == Ok::<ActionView, Error>(ActionView::Flush(AfterFlushView::Nothing)),
    {
        self.await_ping = true;
        self.write_short(&Packet::Pingreq);
        Ok(Action::Flush(AfterFlush::Nothing))
    }

    /// The user confirms a message of level 2: see [`session::complete`].
    pub fn complete(&mut self, pid: PacketIdentifier) -> (r: Result<Action, Error>)
        ensures
            (final(self)@, answer(r)) == session::complete(old(self)@, pid),
    {
        let waiting = self.incoming_rel.len();
        if waiting == 0 {
            return Err(Error::ProtocolViolation);
        }
        let same_pid = self.incoming_rel[waiting - 1];
        if same_pid.0 == pid.0 {
            let _ = self.incoming_rel.pop_back();
            assert(self.incoming_rel@ =~= old(self).incoming_rel@.drop_last());
            self.write_short(&Packet::Pubcomp(pid));
            Ok(Action::Flush(AfterFlush::Complete(pid)))
        } else {
            Err(Error::ProtocolViolation)
        }
    }

    /// What follows a flush: see [`session::flushed`]. `delete` in the
    /// contract is how the call of a store ended, if one was made.
    pub fn _flush(&mut self, after: AfterFlush, outcome: Result<u64, IoErrorKind>) -> (r: Result<
        Option<Box<Message>>,
        Error,
    >)
        ensures
            exists|delete: Result<(), StorageError>|
                (final(self)@, delivered(r)) == #[trigger] session::flushed(
                    old(self)@,
                    after@,
                    outcome,
                    delete,
                ),
    {
        let ghost pre = self@;
        let ghost a = after@;
        let ghost idle = Ok::<(), StorageError>(());
        let now = match outcome {
            Ok(now) => now,
            Err(kind) => {
                assert((self@, Err::<Option<MessageView>, Error>(Error::Io(kind)))
                    == session::flushed(pre, a, outcome, idle));
                return Err(Error::Io(kind));
            },
        };
        self.last_flush = now;
        match after {
            AfterFlush::Nothing => {
                assert((self@, Ok::<Option<MessageView>, Error>(None)) == session::flushed(
                    pre,
                    a,
                    outcome,
                    idle,
                ));
                Ok(None)
            },
            AfterFlush::Deliver(message) => {
                let _ = dequeue(&mut self.incoming_pub);
                assert((self@, Ok::<Option<MessageView>, Error>(Some(message@)))
                    == session::flushed(pre, a, outcome, idle));
                Ok(Some(message))
            },
            AfterFlush::Release(pid) => {
                self.outgoing_comp.push_back(pid);
                let delete = match &mut self.opts.outgoing_store {
                    Some(store) => store.delete(pid),
                    None => {
                        assert((self@, Err::<Option<MessageView>, Error>(
                            Error::OutgoingStorageAbsent,
                        )) == session::flushed(pre, a, outcome, idle));
                        return Err(Error::OutgoingStorageAbsent);
                    },
                };
                let r = Client::_after_delete(delete);
                assert((self@, delivered(r)) == session::flushed(pre, a, outcome, delete));
                r
            },
            AfterFlush::Complete(pid) => {
                let delete = match &mut self.opts.incoming_store {
                    Some(store) => store.delete(pid),
                    None => {
                        assert((self@, Err::<Option<MessageView>, Error>(
                            Error::IncomingStorageAbsent,
                        )) == session::flushed(pre, a, outcome, idle));
                        return Err(Error::IncomingStorageAbsent);
                    },
                };
                let r = Client::_after_delete(delete);
                assert((self@, delivered(r)) == session::flushed(pre, a, outcome, delete));
                r
            },
        }
    }
}

/// What a store gave, as mathematics.
pub open spec fn handed(got: Result<Box<Message>, StorageError>) -> Result<
    MessageView,
    StorageError,
> {
    match got {
        Ok(m) => Ok(m@),
        Err(e) => Err(e),
    }
}

/// What an operation hands to the user, as mathematics.
pub open spec fn delivered(r: Result<Option<Box<Message>>, Error>) -> Result<
    Option<MessageView>,
    Error,
> {
    match r {
        Ok(m) => Ok(opt_message(m)),
        Err(e) => Err(e),
    }
}

impl Client {
    /// Writes the CONNECT of the settings.
    pub fn _connect(&mut self) -> (r: Result<Action, Error>)
        ensures
            match encode(PacketView::Connect(connect_packet(old(self)@.opts))) {
                Ok(_) => answer(r) == Ok::<ActionView, Error>(
                    ActionView::Flush(AfterFlushView::Nothing),
                ) && final(self)@ == wrote(
                    old(self)@,
                    PacketView::Connect(connect_packet(old(self)@.opts)),
                ),
                Err(e) => (r matches Err(err) && err == Error::Mqtt(e)) && final(self)@ == old(
                    self,
                )@,
            },
    {
        let connect = self.opts._generate_connect_packet();
        let packet = Packet::Connect(connect);
        match self._write_packet(&packet) {
            Ok(_) => Ok(Action::Flush(AfterFlush::Nothing)),
            Err(e) => Err(e),
        }
    }

    /// Begins the handshake: see [`session::handshake`].
    pub fn _handshake(&mut self) -> (r: Result<Action, Error>)
        ensures
            (final(self)@, answer(r)) == session::handshake(old(self)@),
    {
        self.state = ClientState::Handshake;
        // send CONNECT; the CONNACK comes with the next `await`
        self._connect()
    }

    /// Connects anew, on a transport that has just been opened: see
    /// [`session::reconnect`].
    pub fn reconnect(&mut self) -> (r: Result<Action, Error>)
        ensures
            (final(self)@, answer(r)) == session::reconnect(old(self)@),
    {
        if self.state == ClientState::Connected {
            return Ok(Action::Done(None));
        }
        self._handshake()
    }

    /// Asks again for all the subscriptions of the session.
    pub fn _resubscribe(&mut self)
        ensures
            final(self)@ == session::resubscribe(old(self)@),
    {
        let subs = self.subscriptions.values();
        let _ = self._subscribe(subs);
    }

    /// What the reconnect policy says when the connection is lost.
    pub fn _try_reconnect(&self) -> (r: Result<Action, Error>)
        ensures
            answer(r) == session::try_reconnect(self@),
    {
        match self.opts.reconnect {
            ReconnectMethod::ForeverDisconnect => Err(Error::Disconnected),
            ReconnectMethod::ReconnectAfter(dur) => Ok(Action::Reconnect(dur)),
        }
    }

    /// What `accept` needs before it reads, at the time `now`: see
    /// [`session::poll`].
    pub fn poll(&self, now: u64) -> (r: Result<Poll, Error>)
        ensures
            match session::poll(self@, now) {
                Ok(p) => r matches Ok(poll) && poll@ == p,
                Err(e) => r matches Err(err) && err == e,
            },
    {
        match self.state {
            ClientState::Disconnected => match self.opts.reconnect {
                ReconnectMethod::ForeverDisconnect => Err(Error::Disconnected),
                ReconnectMethod::ReconnectAfter(dur) => Ok(Poll::Reconnect(dur)),
            },
            _ => {
                // Don't forget to send PING packets in time
                if let Some(secs) = self.opts.keep_alive {
                    let keep_alive: u64 = (secs as u64) * 1_000_000_000;
                    let elapsed: u64 = if now >= self.last_flush {
                        now - self.last_flush
                    } else {
                        0
                    };
                    if elapsed >= keep_alive {
                        return Err(Error::Timeout);
                    }
                    Ok(Poll::Read(Some(keep_alive - elapsed)))
                } else {
                    Ok(Poll::Read(None))
                }
            },
        }
    }

    /// Takes what was read from the transport: see [`session::accept`].
    /// `store` in the contract is how the call of a store ended, if one was
    /// made.
    pub fn accept(&mut self, read: Result<Packet, MQError>) -> (r: Result<Action, Error>)
        ensures
            exists|store: StoreOutcome|
                (read matches Ok(packet) ==> session::credible(old(self)@, packet@, store)) && (
                final(self)@, answer(r)) == #[trigger] session::accept(
                    old(self)@,
                    session::read_view(read),
                    store,
                ),
    {
        let ghost pre = self@;
        let ghost input = session::read_view(read);
        let ghost idle = StoreOutcome { put: Ok(()), got: Err(StorageError::Unavailable) };
        match read {
            Ok(packet) => {
                let ghost p = packet@;
                let r = self._parse_packet(packet);
                let ghost store = choose|store: StoreOutcome|
                    session::credible(pre, p, store) && (self@, answer(r))
                        == #[trigger] session::parse_packet(pre, p, store);
                match r {
                    Err(Error::ConnectionAbort) => {
                        self._unbind();
                        assert((self@, answer(r)) == session::accept(pre, input, store));
                        Err(Error::ConnectionAbort)
                    },
                    r => {
                        assert((self@, answer(r)) == session::accept(pre, input, store));
                        r
                    },
                }
            },
            Err(err) => {
                match err {
                    MQError::UnexpectedEof => {
                        let r = self._try_reconnect();
                        self._unbind();
                        assert((self@, answer(r)) == session::accept(pre, input, idle));
                        r
                    },
                    MQError::Io(kind) => {
                        match kind {
                            IoErrorKind::WouldBlock | IoErrorKind::TimedOut => {
                                assert((self@, Err::<ActionView, Error>(Error::Timeout))
                                    == session::accept(pre, input, idle));
                                Err(Error::Timeout)
                            },
                            IoErrorKind::UnexpectedEof
                            | IoErrorKind::ConnectionRefused
                            | IoErrorKind::ConnectionReset
                            | IoErrorKind::ConnectionAborted => {
                                let r = self._try_reconnect();
                                self._unbind();
                                assert((self@, answer(r)) == session::accept(pre, input, idle));
                                r
                            },
                            _ => {
                                self._unbind();
                                assert((self@, Err::<ActionView, Error>(Error::Io(kind)))
                                    == session::accept(pre, input, idle));
                                Err(Error::Io(kind))
                            },
                        }
                    },
                    _ => {
                        assert((self@, Err::<ActionView, Error>(Error::Mqtt(err)))
                            == session::accept(pre, input, idle));
                        Err(Error::Mqtt(err))
                    },
                }
            },
        }
    }

    /// One turn of the wait for a message, on what `accept` answered: see
    /// [`session::await_turn`].
    pub fn await_turn(&mut self, accepted: Result<Option<Box<Message>>, Error>) -> (r: Result<
        Wait,
        Error,
    >)
        ensures
            match session::await_turn(old(self)@, delivered(accepted)) {
                (s, Ok(w)) => final(self)@ == s && (r matches Ok(wait) && wait@ == w),
                (s, Err(e)) => final(self)@ == s && (r matches Err(err) && err == e),
            },
    {
        match accepted {
            Ok(message) => {
                if let Some(m) = message {
                    return Ok(Wait::Ready(Some(m)));
                }
            },
            Err(e) => {
                match e {
                    Error::Timeout => {
                        if self.state == ClientState::Connected {
                            if !self.await_ping {
                                let _ = self.ping();
                                return Ok(Wait::Ping);
                            } else {
                                self._unbind();
                            }
                        } else {
                            return Err(Error::Timeout);
                        }
                    },
                    _ => {
                        return Err(e);
                    },
                }
            },
        }
        if self._normalized() {
            return Ok(Wait::Ready(None));
        }
        Ok(Wait::Again)
    }
}

} // verus!
