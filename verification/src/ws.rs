//! The listener registry and the per-connection messaging primitives.
//!
//! A listener is a connection identifier plus the sending half of that
//! connection's outbound channel; the registry maps identifiers to
//! listeners and fans one message out to every one of them. Identifiers
//! are assigned from a counter, so their uniqueness is proved, not
//! assumed. Every message handed out is recorded in a ghost history of
//! [`SendEvent`]s, which is what the contracts about private replies and
//! broadcasts speak of.
//!
//! The heartbeat rule of the inbound protocol — the case- and
//! whitespace-insensitive match on `ping` — is decided here as well.

use tokio::sync::mpsc::UnboundedSender;
use vstd::prelude::*;

verus! {

#[verifier::external_type_specification]
#[verifier::external_body]
#[verifier::reject_recursive_types(T)]
pub struct ExUnboundedSender<T>(UnboundedSender<T>);

/// The sending half of one connection's outbound channel. The receiving
/// half is drained by that connection's forward task, which writes each
/// message to the network.
pub type Sender = UnboundedSender<String>;

/// One connected listener: its identifier and its outbound handle.
#[derive(Debug)]
pub struct Client {
    pub id: u64,
    pub sender: Sender,
}

impl Client {
    pub fn new(id: u64, sender: Sender) -> (r: Client)
        ensures
            r.id == id,
            r.sender == sender,
    {
        Client { id, sender }
    }

    /// Relies on tokio's `UnboundedSender::send`: queues the message for
    /// the connection's forward task without blocking; it fails only when
    /// the receiving side is gone, and delivery is not guaranteed either
    /// way, so nothing is promised of the outcome.
    #[verifier::external_body]
    pub fn send_message(&self, msg: &String) -> (ok: bool) {
        self.sender.send(msg.clone()).is_ok()
    }
}

/// One message handed to the outbound channels, as the contracts see it:
/// either a private message to one listener or a broadcast to every
/// listener registered at that moment.
pub enum SendEvent {
    ToOne { id: u64, msg: Seq<char> },
    ToAll { recipients: Set<u64>, msg: Seq<char> },
}

/// The listener registry.
pub struct Listeners {
    pub clients: Vec<Client>,
    pub next_id: u64,
    pub sent: Ghost<Seq<SendEvent>>,
}

impl Listeners {
    /// The registered identifiers, in registration order.
    pub open spec fn ids_seq(self) -> Seq<u64> {
        self.clients@.map_values(|c: Client| c.id)
    }

    /// The set of registered identifiers.
    pub open spec fn ids(self) -> Set<u64> {
        self.ids_seq().to_set()
    }

    /// The number of registered listeners.
    pub open spec fn count_spec(self) -> nat {
        self.clients@.len()
    }

    /// Every message handed out so far, in order.
    pub open spec fn history(self) -> Seq<SendEvent> {
        self.sent@
    }

    /// Identifiers are distinct and below the counter.
    pub open spec fn wf(self) -> bool {
        &&& self.ids_seq().no_duplicates()
        &&& forall|i: int|
            0 <= i < self.clients@.len() ==> #[trigger] self.clients@[i].id < self.next_id
    }

    /// The registered listeners are untouched between `pre` and `post`.
    pub open spec fn same_clients(pre: Listeners, post: Listeners) -> bool {
        post.clients@ == pre.clients@ && post.next_id == pre.next_id
    }

    /// With distinct identifiers there are as many identifiers as
    /// listeners.
    pub proof fn lemma_count_is_ids_len(self)
        requires
            self.wf(),
        ensures
            self.ids().len() == self.count_spec(),
    {
        self.ids_seq().unique_seq_to_set();
    }

    /// An empty registry.
    pub fn new() -> (r: Listeners)
        ensures
            r.wf(),
            r.count_spec() == 0,
            r.ids() == Set::<u64>::empty(),
            r.history() == Seq::<SendEvent>::empty(),
            r.next_id == 0,
    {
        let r = Listeners { clients: Vec::new(), next_id: 0, sent: Ghost(Seq::empty()) };
        proof {
            assert(r.ids() =~= Set::<u64>::empty());
        }
        r
    }

    /// Registers a new listener under a fresh identifier and returns it.
    pub fn add(&mut self, sender: Sender) -> (id: u64)
        requires
            old(self).wf(),
            old(self).next_id < u64::MAX,
        ensures
            final(self).wf(),
            id == old(self).next_id,
            !old(self).ids().contains(id),
            final(self).ids() == old(self).ids().insert(id),
            final(self).count_spec() == old(self).count_spec() + 1,
            final(self).history() == old(self).history(),
            final(self).next_id == old(self).next_id + 1,
    {
        let id = self.next_id;
        self.next_id = self.next_id + 1;
        self.clients.push(Client { id, sender });
        proof {
            let pre = old(self).ids_seq();
            let post = self.ids_seq();
            assert(post =~= pre.push(id));
            assert(!pre.contains(id));
            assert(post.no_duplicates()) by {
                assert forall|i: int, j: int|
                    0 <= i < post.len() && 0 <= j < post.len() && i != j implies post[i]
                    != post[j] by {
                    if i < pre.len() && j < pre.len() {
                    } else if j == pre.len() {
                        assert(pre[i] != id);
                    } else {
                        assert(pre[j] != id);
                    }
                }
            }
            assert(self.ids() =~= old(self).ids().insert(id)) by {
                assert forall|x: u64| post.contains(x) implies pre.contains(x) || x == id by {
                    let k = choose|k: int| 0 <= k < post.len() && post[k] == x;
                    if k < pre.len() {
                        assert(pre[k] == x);
                    }
                }
                assert forall|x: u64| pre.contains(x) || x == id implies post.contains(x) by {
                    if x == id {
                        assert(post[pre.len() as int] == x);
                    } else {
                        let k = choose|k: int| 0 <= k < pre.len() && pre[k] == x;
                        assert(post[k] == x);
                    }
                }
            }
        }
        id
    }

    /// Deregisters the listener with the given identifier, reporting
    /// whether it was registered.
    pub fn remove(&mut self, id: u64) -> (found: bool)
        requires
            old(self).wf(),
        ensures
            final(self).wf(),
            found == old(self).ids().contains(id),
            final(self).ids() == old(self).ids().remove(id),
            final(self).count_spec() == old(self).count_spec() - (if found {
                1int
            } else {
                0int
            }),
            final(self).history() == old(self).history(),
            final(self).next_id == old(self).next_id,
    {
        let mut i: usize = 0;
        while i < self.clients.len()
            invariant
                old(self).wf(),
                i <= self.clients@.len(),
                self.clients@ == old(self).clients@,
                self.next_id == old(self).next_id,
                self.sent@ == old(self).sent@,
                forall|j: int| 0 <= j < i ==> #[trigger] self.clients@[j].id != id,
            decreases self.clients@.len() - i,
        {
            if self.clients[i].id == id {
                self.clients.remove(i);
                proof {
                    let pre = old(self).ids_seq();
                    let post = self.ids_seq();
                    assert(pre.len() == old(self).clients@.len());
                    assert(pre[i as int] == old(self).clients@[i as int].id);
                    assert(pre[i as int] == id);
                    assert(pre.contains(id));
                    assert(post =~= pre.remove(i as int));
                    assert forall|k: int| 0 <= k < post.len() implies (post[k] == pre[
                        if k < i as int {
                            k
                        } else {
                            k + 1
                        }
                    ] && post[k] != id) by {
                        let k0 = if k < i as int {
                            k
                        } else {
                            k + 1
                        };
                        assert(post[k] == pre[k0]);
                        assert(pre[k0] != pre[i as int]);
                    }
                    assert(post.no_duplicates());
                    assert(self.ids() =~= old(self).ids().remove(id)) by {
                        assert forall|x: u64| self.ids().contains(x) implies old(
                            self,
                        ).ids().contains(x) && x != id by {
                            let k = choose|k: int| 0 <= k < post.len() && post[k] == x;
                            let k0 = if k < i as int {
                                k
                            } else {
                                k + 1
                            };
                            assert(pre[k0] == x);
                        }
                        assert forall|x: u64|
                            old(self).ids().contains(x) && x != id implies self.ids().contains(
                            x,
                        ) by {
                            let k0 = choose|k0: int| 0 <= k0 < pre.len() && pre[k0] == x;
                            let k = if k0 < i as int {
                                k0
                            } else {
                                k0 - 1
                            };
                            assert(k0 != i as int);
                            assert(post[k] == pre[k0]);
                        }
                    }
                }
                return true;
            }
            i = i + 1;
        }
        proof {
            let pre = old(self).ids_seq();
            assert forall|k: int| 0 <= k < pre.len() implies pre[k] != id by {
                assert(self.clients@[k].id != id);
            }
            assert(!pre.contains(id));
            assert(self.ids() =~= old(self).ids().remove(id));
        }
        false
    }

    /// The number of registered listeners.
    pub fn count(&self) -> (n: usize)
        ensures
            n == self.count_spec(),
    {
        self.clients.len()
    }

    /// Hands `msg` to the listener with the given identifier only,
    /// reporting whether it was registered. A failed handoff for a gone
    /// listener is not distinguished: delivery is never guaranteed.
    pub fn send_to(&mut self, id: u64, msg: &String) -> (found: bool)
        requires
            old(self).wf(),
        ensures
            final(self).wf(),
            Self::same_clients(*old(self), *final(self)),
            found == old(self).ids().contains(id),
            final(self).history() == if found {
                old(self).history().push(SendEvent::ToOne { id, msg: msg@ })
            } else {
                old(self).history()
            },
    {
        let mut i: usize = 0;
        while i < self.clients.len()
            invariant
                old(self).wf(),
                i <= self.clients@.len(),
                self.clients@ == old(self).clients@,
                self.next_id == old(self).next_id,
                self.sent@ == old(self).sent@,
                forall|j: int| 0 <= j < i ==> #[trigger] self.clients@[j].id != id,
            decreases self.clients@.len() - i,
        {
            if self.clients[i].id == id {
                let _ = self.clients[i].send_message(msg);
                proof {
                    assert(self.ids_seq()[i as int] == self.clients@[i as int].id);
                    assert(self.ids_seq().contains(id));
                    self.sent@ = self.sent@.push(SendEvent::ToOne { id, msg: msg@ });
                    assert(self.clients@ == old(self).clients@);
                    assert(self.ids_seq() == old(self).ids_seq());
                }
                return true;
            }
            i = i + 1;
        }
        proof {
            assert(!self.ids_seq().contains(id));
        }
        false
    }

    /// Hands `msg` to every registered listener independently; a failed
    /// handoff for one listener does not keep it from the others.
    pub fn broadcast(&mut self, msg: &String)
        requires
            old(self).wf(),
        ensures
            final(self).wf(),
            Self::same_clients(*old(self), *final(self)),
            final(self).history() == old(self).history().push(
                SendEvent::ToAll { recipients: old(self).ids(), msg: msg@ },
            ),
    {
        let mut i: usize = 0;
        while i < self.clients.len()
            invariant
                old(self).wf(),
                i <= self.clients@.len(),
                self.clients@ == old(self).clients@,
                self.next_id == old(self).next_id,
                self.sent@ == old(self).sent@,
            decreases self.clients@.len() - i,
        {
            let _ = self.clients[i].send_message(msg);
            i = i + 1;
        }
        proof {
            self.sent@ = self.sent@.push(SendEvent::ToAll { recipients: self.ids(), msg: msg@ });
        }
    }
}

/// The characters the heartbeat match ignores at either end: the Unicode
/// whitespace characters.
pub open spec fn is_ws_char(c: char) -> bool {
    ||| c == '\t' || c == '\n' || c == '\u{b}' || c == '\u{c}' || c == '\r'
    ||| c == ' ' || c == '\u{85}' || c == '\u{a0}' || c == '\u{1680}'
    ||| '\u{2000}' <= c && c <= '\u{200a}'
    ||| c == '\u{2028}' || c == '\u{2029}' || c == '\u{202f}' || c == '\u{205f}'
    ||| c == '\u{3000}'
}

/// `s` without its leading ignored characters.
pub open spec fn trim_front(s: Seq<char>) -> Seq<char>
    decreases s.len(),
{
    if s.len() > 0 && is_ws_char(s.first()) {
        trim_front(s.drop_first())
    } else {
        s
    }
}

/// `s` without its trailing ignored characters.
pub open spec fn trim_back(s: Seq<char>) -> Seq<char>
    decreases s.len(),
{
    if s.len() > 0 && is_ws_char(s.last()) {
        trim_back(s.drop_last())
    } else {
        s
    }
}

/// `s` without ignored characters at either end.
pub open spec fn trimmed(s: Seq<char>) -> Seq<char> {
    trim_back(trim_front(s))
}

/// The lower-case form of one of the letters `A` to `Z`; any other
/// character stands for itself.
pub open spec fn lower_char(c: char) -> char {
    if 'A' <= c && c <= 'Z' {
        ((c as u8) + 32) as char
    } else {
        c
    }
}

/// The heartbeat rule of the inbound protocol: whether a text frame is the
/// word `ping`, ignoring case and surrounding whitespace.
pub open spec fn is_ping_text(s: Seq<char>) -> bool {
    let t = trimmed(s);
    &&& t.len() == 4
    &&& lower_char(t[0]) == 'p'
    &&& lower_char(t[1]) == 'i'
    &&& lower_char(t[2]) == 'n'
    &&& lower_char(t[3]) == 'g'
}

/// Whether the heartbeat match ignores `c`.
fn is_ws(c: char) -> (r: bool)
    ensures
        r == is_ws_char(c),
{
    (c == '\t' || c == '\n' || c == '\u{b}' || c == '\u{c}' || c == '\r') || (c == ' ' || c
        == '\u{85}' || c == '\u{a0}' || c == '\u{1680}') || ('\u{2000}' <= c && c <= '\u{200a}')
        || (c == '\u{2028}' || c == '\u{2029}' || c == '\u{202f}' || c == '\u{205f}') || (c
        == '\u{3000}')
}

/// The lower-case form of `c` under the heartbeat match.
fn lower(c: char) -> (r: char)
    ensures
        r == lower_char(c),
{
    if 'A' <= c && c <= 'Z' {
        ((c as u8) + 32) as char
    } else {
        c
    }
}

/// Decides the heartbeat rule for a received text frame.
#[verifier::rlimit(60)]
pub fn is_ping(s: &str) -> (r: bool)
    ensures
        r == is_ping_text(s@),
{
    let len = s.unicode_len();
    let mut start: usize = 0;
    proof {
        assert(s@.skip(0) =~= s@);
    }
    while start < len && is_ws(s.get_char(start))
        invariant
            start <= len,
            len == s@.len(),
            trim_front(s@) == trim_front(s@.skip(start as int)),
        decreases len - start,
    {
        proof {
            assert(s@.skip(start as int).first() == s@[start as int]);
            assert(s@.skip(start as int).drop_first() =~= s@.skip(start + 1 as int));
        }
        start = start + 1;
    }
    proof {
        if start == len {
            assert(s@.skip(start as int) =~= Seq::<char>::empty());
            assert(trim_front(s@) =~= Seq::<char>::empty());
        } else {
            assert(s@.skip(start as int).first() == s@[start as int]);
            assert(trim_front(s@) =~= s@.skip(start as int));
        }
    }
    let mut end: usize = len;
    proof {
        assert(s@.subrange(start as int, end as int) =~= s@.skip(start as int));
    }
    while end > start && is_ws(s.get_char(end - 1))
        invariant
            start <= end <= len,
            len == s@.len(),
            trim_back(s@.skip(start as int)) == trim_back(s@.subrange(start as int, end as int)),
        decreases end,
    {
        proof {
            let t = s@.subrange(start as int, end as int);
            assert(t.last() == s@[end - 1]);
            assert(t.drop_last() =~= s@.subrange(start as int, end - 1));
        }
        end = end - 1;
    }
    let ghost t = s@.subrange(start as int, end as int);
    proof {
        if end == start {
            assert(t =~= Seq::<char>::empty());
            assert(trim_back(t) =~= t);
        } else {
            assert(t.last() == s@[end - 1]);
            assert(trim_back(t) =~= t);
        }
        assert(trimmed(s@) == t);
    }
    if end - start == 4 {
        let r = lower(s.get_char(start)) == 'p' && lower(s.get_char(start + 1)) == 'i' && lower(
            s.get_char(start + 2),
        ) == 'n' && lower(s.get_char(start + 3)) == 'g';
        proof {
            assert(t[0] == s@[start as int]);
            assert(t[1] == s@[start + 1]);
            assert(t[2] == s@[start + 2]);
            assert(t[3] == s@[start + 3]);
        }
        r
    } else {
        false
    }
}

} // verus!
