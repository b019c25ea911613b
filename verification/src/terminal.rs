//! Web terminals: the table of open terminal sessions, and what the bridge
//! between a WebSocket and a terminal does with each thing that arrives.
//! The terminals and sockets themselves are the caller's.
use vstd::prelude::*;
use std::collections::HashMap;

verus! {

broadcast use vstd::std_specs::hash::group_hash_axioms;

/// The open terminal sessions, by id (a UUID as its 128-bit number), with
/// the ids in the order the sessions were opened.
pub struct TerminalTable<S> {
    sessions: HashMap<u128, S>,
    order: Vec<u128>,
}

impl<S> View for TerminalTable<S> {
    type V = Map<u128, S>;

    closed spec fn view(&self) -> Map<u128, S> {
        self.sessions@
    }
}

impl<S> TerminalTable<S> {
    /// The ids are those of the sessions, each once.
    pub closed spec fn wf(&self) -> bool {
        &&& self.order@.no_duplicates()
        &&& forall|k: u128| self.order@.contains(k) <==> self.sessions@.contains_key(k)
    }

    /// No sessions.
    pub fn new() -> (r: Self)
        ensures
            r.wf(),
            r@ == Map::<u128, S>::empty(),
    {
        TerminalTable { sessions: HashMap::new(), order: Vec::new() }
    }

    /// Adds a session under `id`, replacing one already there.
    pub fn insert(&mut self, id: u128, session: S)
        requires
            old(self).wf(),
        ensures
            final(self).wf(),
            final(self)@ == old(self)@.insert(id, session),
    {
        let ghost before = self.order@;
        let had = self.sessions.contains_key(&id);
        self.sessions.insert(id, session);
        if !had {
            self.order.push(id);
            proof {
                assert(!before.contains(id));
                assert forall|a: int, b: int| 0 <= a < b < self.order@.len() implies self.order@[a] != self.order@[b] by {
                    if b == before.len() {
                        assert(self.order@[a] == before[a]);
                        assert(before.contains(before[a]));
                    } else {
                        assert(self.order@[a] == before[a]);
                        assert(self.order@[b] == before[b]);
                    }
                }
            }
        }
        proof {
            assert forall|k: u128| self.order@.contains(k) <==> self.sessions@.contains_key(k) by {
                if k != id {
                    if self.order@.contains(k) {
                        let i = choose|i: int| 0 <= i < self.order@.len() && self.order@[i] == k;
                        if !had {
                            assert(i < before.len());
                        }
                        assert(before[i] == k);
                        assert(before.contains(k));
                    }
                    if before.contains(k) {
                        let i = choose|i: int| 0 <= i < before.len() && before[i] == k;
                        assert(self.order@[i] == k);
                    }
                } else {
                    if !had {
                        assert(self.order@[self.order@.len() - 1] == id);
                    } else {
                        assert(before.contains(id));
                        let i = choose|i: int| 0 <= i < before.len() && before[i] == id;
                        assert(self.order@[i] == id);
                    }
                }
            }
        }
    }

    /// Removes the session under `id`, if there is one.
    pub fn remove(&mut self, id: u128) -> (r: Option<S>)
        requires
            old(self).wf(),
        ensures
            final(self).wf(),
            final(self)@ == old(self)@.remove(id),
            match r {
                Some(s) => old(self)@.contains_key(id) && s == old(self)@[id],
                None => !old(self)@.contains_key(id),
            },
    {
        let r = self.sessions.remove(&id);
        let mut i: usize = 0;
        while i < self.order.len() && self.order[i] != id
            invariant
                i <= self.order@.len(),
                self.order@ == old(self).order@,
                forall|j: int| 0 <= j < i ==> self.order@[j] != id,
            decreases self.order@.len() - i,
        {
            i = i + 1;
        }
        if i < self.order.len() {
            let ghost before = self.order@;
            self.order.remove(i);
            proof {
                assert(before[i as int] == id);
                assert forall|a: int, b: int| 0 <= a < b < self.order@.len() implies self.order@[a] != self.order@[b] by {
                    let a2 = if a < i { a } else { a + 1 };
                    let b2 = if b < i { b } else { b + 1 };
                    assert(self.order@[a] == before[a2]);
                    assert(self.order@[b] == before[b2]);
                }
                assert forall|k: u128| self.order@.contains(k) <==> self.sessions@.contains_key(k) by {
                    if self.order@.contains(k) {
                        let j = choose|j: int| 0 <= j < self.order@.len() && self.order@[j] == k;
                        let j2 = if j < i { j } else { j + 1 };
                        assert(before[j2] == k);
                        assert(before.contains(k));
                        if k == id {
                            assert(j2 != i);
                        }
                    }
                    if self.sessions@.contains_key(k) {
                        assert(old(self).sessions@.contains_key(k) && k != id);
                        assert(before.contains(k));
                        let j = choose|j: int| 0 <= j < before.len() && before[j] == k;
                        assert(j != i);
                        let j3 = if j < i { j } else { j - 1 };
                        assert(self.order@[j3] == k);
                    }
                }
            }
        } else {
            proof {
                assert(!old(self).order@.contains(id));
                assert forall|k: u128| self.order@.contains(k) <==> self.sessions@.contains_key(k) by {
                    if k == id {
                        assert(!self.order@.contains(k));
                    }
                }
            }
        }
        r
    }

    /// Whether a session is open under `id`.
    pub fn contains(&self, id: u128) -> (r: bool)
        ensures
            r == self@.contains_key(id),
    {
        self.sessions.contains_key(&id)
    }

    /// The session under `id`.
    pub fn get(&self, id: u128) -> (r: Option<&S>)
        ensures
            match r {
                Some(s) => self@.contains_key(id) && *s == self@[id],
                None => !self@.contains_key(id),
            },
    {
        self.sessions.get(&id)
    }

    /// How many sessions are open.
    pub fn len(&self) -> (r: usize)
        ensures
            r == self@.len(),
    {
        self.sessions.len()
    }

    /// The ids of the open sessions, each once, oldest first.
    pub fn ids(&self) -> (r: Vec<u128>)
        requires
            self.wf(),
        ensures
            r@.no_duplicates(),
            forall|k: u128| r@.contains(k) <==> self@.contains_key(k),
    {
        self.order.clone()
    }
}

/// A terminal control message sent as text over the socket.
#[derive(Debug, Clone, Copy, PartialEq, Eq, Structural)]
pub enum TerminalControl {
    Resize { cols: u16, rows: u16 },
}

/// What arrives from the socket.
#[derive(Debug)]
pub enum WsInput {
    Binary(Vec<u8>),
    /// A text message, with the control message it reads as, if any.
    Text { text: String, control: Option<TerminalControl> },
    Ping(Vec<u8>),
    Pong(Vec<u8>),
    /// The socket closed, ended or failed.
    Closed,
}

/// What the bridge does next.
#[derive(Debug)]
pub enum BridgeAction {
    /// Write these bytes to the terminal.
    WriteBytes(Vec<u8>),
    /// Write this text to the terminal.
    WriteText(String),
    /// Resize the terminal.
    Resize { cols: u16, rows: u16 },
    /// Send these bytes to the socket.
    SendBinary(Vec<u8>),
    /// Answer a ping.
    SendPong(Vec<u8>),
    /// Stop bridging, removing the session when asked to.
    Stop { remove_session: bool },
    Nothing,
}

/// The bridge between a WebSocket and a terminal session.
pub struct PtyBridge;

impl PtyBridge {
    /// What the bridge does with a socket message: bytes and non-control
    /// text go to the terminal, a resize message resizes it, a ping is
    /// answered, and a closed socket stops the bridge (removing the session
    /// if it was created for this socket).
    pub fn on_socket(msg: WsInput, remove_on_close: bool) -> (r: BridgeAction)
        ensures
            match msg {
                WsInput::Binary(b) => r == BridgeAction::WriteBytes(b),
                WsInput::Text { text, control } => match control {
                    Some(TerminalControl::Resize { cols, rows }) => r == (BridgeAction::Resize { cols, rows }),
                    None => r == BridgeAction::WriteText(text),
                },
                WsInput::Ping(p) => r == BridgeAction::SendPong(p),
                WsInput::Pong(_) => r is Nothing,
                WsInput::Closed => r == (BridgeAction::Stop { remove_session: remove_on_close }),
            },
    {
        match msg {
            WsInput::Binary(b) => BridgeAction::WriteBytes(b),
            WsInput::Text { text, control } => match control {
                Some(TerminalControl::Resize { cols, rows }) => BridgeAction::Resize { cols, rows },
                None => BridgeAction::WriteText(text),
            },
            WsInput::Ping(p) => BridgeAction::SendPong(p),
            WsInput::Pong(_) => BridgeAction::Nothing,
            WsInput::Closed => BridgeAction::Stop { remove_session: remove_on_close },
        }
    }

    /// What the bridge does with the terminal's output: sends it on.
    pub fn on_terminal_output(data: Vec<u8>) -> (r: BridgeAction)
        ensures
            r == BridgeAction::SendBinary(data),
    {
        BridgeAction::SendBinary(data)
    }
}

} // verus!
