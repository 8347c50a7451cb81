//! Admission gate that rate-limits commands per (command, channel, user).
//!
//! Time is a caller-supplied millisecond reading of a monotonic clock, so the
//! gate itself is a plain value. Sharing it between concurrent handlers is done
//! by putting it behind a reader/writer lock: `check_cooldown` only reads,
//! `update_cooldown` writes.
use vstd::prelude::*;

verus! {

/// Cooldown in a direct (private) conversation, in milliseconds.
pub const DM_COOLDOWN_MS: u64 = 3000;

/// Cooldown in a shared (group) conversation, in milliseconds.
pub const CAVEGEN_COOLDOWN_MS: u64 = 10000;

/// The kind of conversation a command was issued in.
#[derive(Clone, Copy, PartialEq, Eq, Structural, Debug)]
pub enum Conversation {
    Private,
    Shared,
}

/// The cooldown that applies in a conversation of kind `c`.
pub open spec fn threshold(c: Conversation) -> u64 {
    match c {
        Conversation::Private => DM_COOLDOWN_MS,
        Conversation::Shared => CAVEGEN_COOLDOWN_MS,
    }
}

/// Executable form of `threshold`.
pub fn cooldown_threshold(c: Conversation) -> (r: u64)
    ensures
        r == threshold(c),
{
    match c {
        Conversation::Private => DM_COOLDOWN_MS,
        Conversation::Shared => CAVEGEN_COOLDOWN_MS,
    }
}

/// What is being rate-limited: a command used by a user in a channel.
#[derive(Debug)]
pub struct CooldownKey {
    pub command: String,
    pub channel: String,
    pub user: String,
}

pub type KeyView = (Seq<char>, Seq<char>, Seq<char>);

impl View for CooldownKey {
    type V = KeyView;

    open spec fn view(&self) -> KeyView {
        (self.command@, self.channel@, self.user@)
    }
}

impl CooldownKey {
    pub fn new(command: &str, channel: &str, user: &str) -> (r: CooldownKey)
        ensures
            r@ == (command@, channel@, user@),
    {
        CooldownKey {
            command: command.to_owned(),
            channel: channel.to_owned(),
            user: user.to_owned(),
        }
    }

    pub fn same_as(&self, other: &CooldownKey) -> (r: bool)
        ensures
            r == (self@ == other@),
    {
        self.command == other.command && self.channel == other.channel && self.user
            == other.user
    }
}

/// Last admission time per key. A key without a record has never been admitted.
#[derive(Debug)]
pub struct CooldownGate {
    keys: Vec<CooldownKey>,
    times: Vec<u64>,
}

/// Whether a command under a key may run at time `now`, given the last-use map.
pub open spec fn admits(m: Map<KeyView, u64>, key: KeyView, c: Conversation, now: u64) -> bool {
    !m.contains_key(key) || m[key] + threshold(c) <= now
}

impl View for CooldownGate {
    type V = Map<KeyView, u64>;

    /// The last-use time of each key that has one.
    closed spec fn view(&self) -> Map<KeyView, u64> {
        Map::new(
            |k: KeyView| exists|i: int| 0 <= i < self.keys@.len() && self.keys@[i]@ == k,
            |k: KeyView|
                self.times@[choose|i: int| 0 <= i < self.keys@.len() && self.keys@[i]@ == k],
        )
    }
}

impl CooldownGate {
    /// One time per key, and keys pairwise distinct.
    pub closed spec fn wf(&self) -> bool {
        &&& self.keys@.len() == self.times@.len()
        &&& forall|i: int, j: int|
            0 <= i < j < self.keys@.len() ==> self.keys@[i]@ != self.keys@[j]@
    }

    proof fn lemma_view_at(&self, i: int)
        requires
            self.wf(),
            0 <= i < self.keys@.len(),
        ensures
            self@.contains_key(self.keys@[i]@),
            self@[self.keys@[i]@] == self.times@[i],
    {
        let k = self.keys@[i]@;
        assert(self@.contains_key(k));
        let j = choose|j: int| 0 <= j < self.keys@.len() && self.keys@[j]@ == k;
        assert(j == i) by {
            if j < i {
                assert(self.keys@[j]@ != self.keys@[i]@);
            } else if i < j {
                assert(self.keys@[i]@ != self.keys@[j]@);
            }
        }
    }

    pub fn new() -> (r: CooldownGate)
        ensures
            r.wf(),
            r@ == Map::<KeyView, u64>::empty(),
    {
        let r = CooldownGate { keys: Vec::new(), times: Vec::new() };
        assert(r@ =~= Map::<KeyView, u64>::empty());
        r
    }

    /// Position of the record for `key`, if there is one.
    fn find(&self, key: &CooldownKey) -> (r: Option<usize>)
        requires
            self.wf(),
        ensures
            match r {
                Some(i) => i < self.keys@.len() && self.keys@[i as int]@ == key@,
                None => forall|i: int| 0 <= i < self.keys@.len() ==> self.keys@[i]@ != key@,
            },
    {
        let mut i: usize = 0;
        while i < self.keys.len()
            invariant
                i <= self.keys@.len(),
                forall|j: int| 0 <= j < i ==> self.keys@[j]@ != key@,
            decreases self.keys@.len() - i,
        {
            if self.keys[i].same_as(key) {
                return Some(i);
            }
            i = i + 1;
        }
        None
    }

    /// The last admission time of `key`, if it was ever admitted.
    pub fn last_use(&self, key: &CooldownKey) -> (r: Option<u64>)
        requires
            self.wf(),
        ensures
            match r {
                Some(t) => self@.contains_key(key@) && self@[key@] == t,
                None => !self@.contains_key(key@),
            },
    {
        match self.find(key) {
            Some(i) => {
                proof {
                    self.lemma_view_at(i as int);
                }
                Some(self.times[i])
            },
            None => None,
        }
    }
}

/// Whether the command under `key` may run at time `now`: yes when the key
/// has no record, or when its cooldown for this kind of chat has elapsed.
pub fn check_cooldown(gate: &CooldownGate, key: &CooldownKey, conversation: Conversation, now: u64) -> (r: bool)
    requires
        gate.wf(),
    ensures
        r == admits(gate@, key@, conversation, now),
{
    match gate.last_use(key) {
        None => true,
        Some(t) => {
            let limit = cooldown_threshold(conversation);
            t <= now && now - t >= limit
        },
    }
}

/// Marks `key` as admitted at `now`, whatever its earlier record held.
pub fn update_cooldown(gate: &mut CooldownGate, key: CooldownKey, now: u64)
    requires
        old(gate).wf(),
    ensures
        final(gate).wf(),
        final(gate)@ == old(gate)@.insert(key@, now),
{
    let ghost before = *gate;
    let ghost k = key@;
    match gate.find(&key) {
        Some(i) => {
            gate.times.set(i, now);
            proof {
                assert forall|x: KeyView| #[trigger] gate@.contains_key(x) == before@.insert(k, now).contains_key(x) by {
                    if before@.contains_key(x) {
                        let j = choose|j: int| 0 <= j < before.keys@.len() && before.keys@[j]@ == x;
                        assert(gate.keys@[j]@ == x);
                    }
                    if gate@.contains_key(x) {
                        let j = choose|j: int| 0 <= j < gate.keys@.len() && gate.keys@[j]@ == x;
                        assert(before.keys@[j]@ == x);
                    }
                }
                assert forall|x: KeyView| #[trigger] gate@.contains_key(x) implies gate@[x] == before@.insert(k, now)[x] by {
                    let j = choose|j: int| 0 <= j < gate.keys@.len() && gate.keys@[j]@ == x;
                    gate.lemma_view_at(j);
                    if j != i as int {
                        before.lemma_view_at(j);
                    }
                }
                assert(gate@ =~= before@.insert(k, now));
            }
        },
        None => {
            gate.keys.push(key);
            gate.times.push(now);
            proof {
                let n = before.keys@.len() as int;
                assert forall|x: KeyView| #[trigger] gate@.contains_key(x) == before@.insert(k, now).contains_key(x) by {
                    if before@.contains_key(x) {
                        let j = choose|j: int| 0 <= j < before.keys@.len() && before.keys@[j]@ == x;
                        assert(gate.keys@[j]@ == x);
                    }
                    if x == k {
                        assert(gate.keys@[n]@ == x);
                    }
                    if gate@.contains_key(x) {
                        let j = choose|j: int| 0 <= j < gate.keys@.len() && gate.keys@[j]@ == x;
                        if j < n {
                            assert(before.keys@[j]@ == x);
                        }
                    }
                }
                assert forall|x: KeyView| #[trigger] gate@.contains_key(x) implies gate@[x] == before@.insert(k, now)[x] by {
                    let j = choose|j: int| 0 <= j < gate.keys@.len() && gate.keys@[j]@ == x;
                    gate.lemma_view_at(j);
                    if j < n {
                        before.lemma_view_at(j);
                    }
                }
                assert(gate@ =~= before@.insert(k, now));
            }
        },
    }
}

/// After `key` is admitted at `stamp`, a check of the same key in a
/// conversation of kind `c` fails at every time before `stamp + threshold(c)`
/// and succeeds at every time from then on.
pub proof fn lemma_cooldown_window(m: Map<KeyView, u64>, key: KeyView, stamp: u64, c: Conversation, now: u64)
    ensures
        admits(m.insert(key, stamp), key, c, now) <==> stamp + threshold(c) <= now,
{
}

/// The private cooldown is shorter than the shared one, and the difference
/// shows at the private boundary: there a private check succeeds while a
/// shared check of the same record fails; at the shared boundary both succeed.
pub proof fn lemma_private_threshold_shorter(m: Map<KeyView, u64>, key: KeyView, stamp: u64)
    requires
        stamp + CAVEGEN_COOLDOWN_MS <= u64::MAX,
    ensures
        threshold(Conversation::Private) < threshold(Conversation::Shared),
        admits(m.insert(key, stamp), key, Conversation::Private, (stamp + DM_COOLDOWN_MS) as u64),
        !admits(m.insert(key, stamp), key, Conversation::Shared, (stamp + DM_COOLDOWN_MS) as u64),
        admits(m.insert(key, stamp), key, Conversation::Private, (stamp + CAVEGEN_COOLDOWN_MS) as u64),
        admits(m.insert(key, stamp), key, Conversation::Shared, (stamp + CAVEGEN_COOLDOWN_MS) as u64),
        !admits(m.insert(key, stamp), key, Conversation::Shared, (stamp + CAVEGEN_COOLDOWN_MS - 1) as u64),
{
}

/// Admitting one key leaves every check of any other key as it was.
pub proof fn lemma_keys_independent(m: Map<KeyView, u64>, key: KeyView, stamp: u64, other: KeyView, c: Conversation, now: u64)
    requires
        other != key,
    ensures
        admits(m.insert(key, stamp), other, c, now) == admits(m, other, c, now),
{
}

} // verus!
