use vstd::prelude::*;

use crate::codec::{frame_result, frame_text};
use crate::model::{ChannelType, CoinbaseParameters, CoinbaseSubscription, Frame, StreamError};

verus! {

#[verifier::external_type_specification]
#[verifier::external_body]
#[verifier::reject_recursive_types(T)]
pub struct ExUnboundedSender<T>(tokio::sync::mpsc::UnboundedSender<T>);

/// What polling one receive half gave.
#[derive(Debug, Clone, PartialEq, Eq)]
pub enum EntryPoll {
    /// No frame is ready yet.
    Pending,
    /// A frame arrived.
    Ready(Frame),
    /// Reading the socket failed.
    Failed(String),
    /// The socket has ended.
    Ended,
}

/// What the caller of a polling round does next.
#[derive(Debug, PartialEq)]
pub enum PollStep {
    /// Poll the receive half at this index and report what it gave.
    Poll(usize),
    /// The round is over: this is the next item of the unified stream.
    Deliver(Result<String, StreamError>),
    /// The round is over: no entry had anything ready.
    Pending,
    /// The round is over: no subscription is left.
    Closed,
}

/// Whether a list of identities holds none twice.
pub open spec fn unique(ids: Seq<(ChannelType, Seq<char>)>) -> bool {
    forall|i: int, j: int| 0 <= i < j < ids.len() ==> ids[i] != ids[j]
}

/// The identities after adding one: a new identity goes last, a known one
/// keeps its place.
pub open spec fn added(ids: Seq<(ChannelType, Seq<char>)>, id: (ChannelType, Seq<char>)) -> Seq<
    (ChannelType, Seq<char>),
> {
    if ids.contains(id) {
        ids
    } else {
        ids.push(id)
    }
}

/// The entry that the `k`-th poll of a round over `n` entries that started at
/// `start` goes to.
pub open spec fn round_position(start: nat, n: nat, k: nat) -> nat
    recommends
        n > 0,
{
    (start + k) % (n as int) as nat
}

/// Adding an identity twice leaves exactly one entry for it, and the second
/// addition changes nothing that the first did not.
pub proof fn lemma_add_twice_keeps_one_entry(
    ids: Seq<(ChannelType, Seq<char>)>,
    id: (ChannelType, Seq<char>),
)
    requires
        unique(ids),
    ensures
        added(added(ids, id), id) == added(ids, id),
        added(ids, id).contains(id),
        unique(added(ids, id)),
        forall|i: int, j: int|
            0 <= i < added(ids, id).len() && 0 <= j < added(ids, id).len() && added(ids, id)[i]
                == id && added(ids, id)[j] == id ==> i == j,
{
    let once = added(ids, id);
    if !ids.contains(id) {
        assert(once[ids.len() as int] == id);
        assert forall|i: int, j: int| 0 <= i < j < once.len() implies once[i] != once[j] by {
            if j == ids.len() {
                assert(ids[i] == once[i]);
            }
        }
    }
    assert(once.contains(id));
}

/// A round over `n` entries that starts anywhere reaches every entry within
/// its first `n` polls, so an entry that has data is polled, and its data
/// delivered, before the round can end pending, however many entries before
/// it have none.
pub proof fn lemma_round_reaches_every_entry(start: nat, n: nat, b: nat)
    requires
        start < n,
        b < n,
    ensures
        exists|k: nat| k < n && #[trigger] round_position(start, n, k) == b,
{
    if start <= b {
        let k = (b - start) as nat;
        assert(round_position(start, n, k) == b) by {
            assert((start + k) % n == b) by (nonlinear_arith)
                requires
                    start + k == b,
                    b < n,
            ;
        }
    } else {
        let k = (n - start + b) as nat;
        assert(k < n);
        assert(round_position(start, n, k) == b) by {
            assert((start + k) % n == b) by (nonlinear_arith)
                requires
                    start + k == n + b,
                    b < n,
            ;
        }
    }
}

/// Disconnecting is idempotent: disconnecting a session that was just
/// disconnected, or that has no registered sender, signals nothing and
/// leaves it as it was.
pub proof fn lemma_disconnect_idempotent<R>(
    first: &CoinbaseWebsocket<R>,
    once: &CoinbaseWebsocket<R>,
    twice: &CoinbaseWebsocket<R>,
)
    requires
        once.disconnected_from(first),
        twice.disconnected_from(once),
    ensures
        twice.signalled() == once.signalled(),
        twice.senders() == once.senders(),
        twice.same_but_senders(once),
        first.senders().len() == 0 ==> {
            &&& once.signalled() == first.signalled()
            &&& once.senders() == first.senders()
            &&& once.same_but_senders(first)
        },
{
    assert(twice.senders() =~= once.senders());
    assert(twice.signalled() =~= once.signalled());
    if first.senders().len() == 0 {
        assert(once.senders() =~= first.senders());
        assert(once.signalled() =~= first.signalled());
    }
}

/// Whether polling an entry gave something that ends the round with it.
pub open spec fn settles(o: EntryPoll) -> bool {
    o is Ready || o is Failed
}

/// What a round delivers for an outcome that settles it.
pub open spec fn delivered(o: EntryPoll) -> PollStep {
    match o {
        EntryPoll::Ready(f) => PollStep::Deliver(frame_result(f)),
        EntryPoll::Failed(m) => PollStep::Deliver(Err(StreamError::TransportError(m))),
        _ => PollStep::Pending,
    }
}

/// How many polls, from the `k`-th on, a round over `n` entries started at
/// `start` makes before the first whose outcome settles it; `n` where none
/// does.
pub open spec fn first_settled(start: nat, n: nat, outcome_of: spec_fn(usize) -> EntryPoll, k: nat) -> nat
    decreases n - k,
{
    if k >= n {
        n
    } else if settles(outcome_of(round_position(start, n, k) as usize)) {
        k
    } else {
        first_settled(start, n, outcome_of, k + 1)
    }
}

/// The index of the step that ends such a round: the one after the
/// settling poll, or the one after the last poll where nothing settles.
pub open spec fn round_end(start: nat, n: nat, outcome_of: spec_fn(usize) -> EntryPoll) -> nat {
    let m = first_settled(start, n, outcome_of, 0);
    if m < n {
        m + 1
    } else {
        n
    }
}

/// `states` and `steps` record one polling round in which polling the entry
/// at index `i` gives `outcome_of(i)`: `states[1]` and `steps[0]` come from
/// starting the round on `states[0]`, and each later state and step from
/// reporting, to the state before it, what the entry that the step before
/// named gave.
pub open spec fn round_run<R>(
    states: Seq<CoinbaseWebsocket<R>>,
    steps: Seq<PollStep>,
    outcome_of: spec_fn(usize) -> EntryPoll,
) -> bool {
    &&& steps.len() >= 1
    &&& states.len() == steps.len() + 1
    &&& forall|k: int| 0 <= k < states.len() ==> (#[trigger] states[k]).wf()
    &&& states[1].started_from(&states[0], steps[0])
    &&& forall|k: int|
        1 <= k < steps.len() ==> {
            &&& steps[k - 1] is Poll
            &&& states[k + 1 as int].reported_from(
                &states[k],
                outcome_of(steps[k - 1]->Poll_0),
                #[trigger] steps[k],
            )
        }
}

proof fn lemma_run_step<R>(
    states: Seq<CoinbaseWebsocket<R>>,
    steps: Seq<PollStep>,
    outcome_of: spec_fn(usize) -> EntryPoll,
    k: int,
)
    requires
        round_run(states, steps, outcome_of),
        1 <= k < steps.len(),
    ensures
        steps[k - 1] is Poll,
        states[k + 1].reported_from(&states[k], outcome_of(steps[k - 1]->Poll_0), steps[k]),
{
    let step = steps[k];
    assert(1 <= k < steps.len() ==> {
        &&& steps[k - 1] is Poll
        &&& states[k + 1].reported_from(&states[k], outcome_of(steps[k - 1]->Poll_0), step)
    });
}

proof fn lemma_first_settled(start: nat, n: nat, outcome_of: spec_fn(usize) -> EntryPoll, j: nat)
    ensures
        j <= n ==> j <= first_settled(start, n, outcome_of, j) <= n,
        forall|k: nat|
            j <= k < first_settled(start, n, outcome_of, j) ==> !settles(
                outcome_of(#[trigger] round_position(start, n, k) as usize),
            ),
        first_settled(start, n, outcome_of, j) < n ==> settles(
            outcome_of(round_position(start, n, first_settled(start, n, outcome_of, j)) as usize),
        ),
    decreases n - j,
{
    if j < n && !settles(outcome_of(round_position(start, n, j) as usize)) {
        lemma_first_settled(start, n, outcome_of, j + 1);
    }
}

proof fn lemma_round_prefix<R>(
    states: Seq<CoinbaseWebsocket<R>>,
    steps: Seq<PollStep>,
    outcome_of: spec_fn(usize) -> EntryPoll,
    k: nat,
)
    requires
        round_run(states, steps, outcome_of),
        states[0].entries().len() > 0,
        forall|i: usize| !(#[trigger] outcome_of(i) is Ended),
        k < steps.len(),
        k < round_end(states[0].cursor(), states[0].entries().len(), outcome_of),
    ensures
        ({
            let n = states[0].entries().len();
            let c = states[0].cursor();
            &&& steps[k as int] == PollStep::Poll(round_position(c, n, k) as usize)
            &&& states[k + 1 as int].in_round_spec()
            &&& states[k + 1 as int].round_start() == c
            &&& states[k + 1 as int].round_polled() == k
            &&& states[k + 1 as int].entries() == states[0].entries()
            &&& states[k + 1 as int].cursor() == c
        }),
    decreases k,
{
    let n = states[0].entries().len();
    let c = states[0].cursor();
    assert(states[0].wf());
    lemma_first_settled(c, n, outcome_of, 0);
    if k == 0 {
        assert(round_position(c, n, 0) == c) by {
            assert((c + 0nat) % n == c) by (nonlinear_arith)
                requires
                    c < n,
            ;
        }
    } else {
        lemma_round_prefix(states, steps, outcome_of, (k - 1) as nat);
        let before = states[k as int];
        let o = outcome_of(steps[k - 1]->Poll_0);
        assert(states[k + 1 as int].reported_from(&before, o, steps[k as int]));
        assert(before.round_next() == round_position(c, n, (k - 1) as nat));
        assert(!settles(o));
        assert(states[k as int].wf());
        assert(!(o is Ended));
    }
}

/// A polling round goes through the entries in turn from the cursor and
/// ends at the first one whose outcome settles it: a frame or a read failure
/// of that entry is delivered, and the next round starts after it. It ends
/// pending only after every entry was polled with nothing ready. So an entry
/// with data is reached within as many polls as there are entries, however
/// many entries before it stay silent, and its data is delivered.
#[verifier::rlimit(50)]
pub proof fn lemma_round_delivers_first_settled<R>(
    states: Seq<CoinbaseWebsocket<R>>,
    steps: Seq<PollStep>,
    outcome_of: spec_fn(usize) -> EntryPoll,
)
    requires
        round_run(states, steps, outcome_of),
        states[0].entries().len() > 0,
        forall|i: usize| !(#[trigger] outcome_of(i) is Ended),
    ensures
        ({
            let n = states[0].entries().len();
            let c = states[0].cursor();
            let m = first_settled(c, n, outcome_of, 0);
            let t = round_end(c, n, outcome_of);
            &&& steps.len() <= t + 1
            &&& forall|k: int|
                0 <= k < steps.len() && k < t ==> steps[k] == PollStep::Poll(
                    round_position(c, n, k as nat) as usize,
                )
            &&& steps.len() == t + 1 && m < n ==> {
                &&& steps[t as int] == delivered(outcome_of(round_position(c, n, m) as usize))
                &&& states[t + 1 as int].cursor() == round_position(round_position(c, n, m), n, 1)
                &&& states[t + 1 as int].entries() == states[0].entries()
            }
            &&& steps.len() == t + 1 && m == n ==> steps[t as int] is Pending
        }),
{
    let n = states[0].entries().len();
    let c = states[0].cursor();
    let m = first_settled(c, n, outcome_of, 0);
    let t = round_end(c, n, outcome_of);
    lemma_first_settled(c, n, outcome_of, 0);
    assert forall|k: int| 0 <= k < steps.len() && k < t implies steps[k] == PollStep::Poll(
        round_position(c, n, k as nat) as usize,
    ) by {
        lemma_round_prefix(states, steps, outcome_of, k as nat);
    }
    if steps.len() > t {
        lemma_round_prefix(states, steps, outcome_of, (t - 1) as nat);
        let before = states[t as int];
        let o = outcome_of(steps[t - 1]->Poll_0);
        assert(states[t + 1 as int].reported_from(&before, o, steps[t as int]));
        assert(before.round_next() == round_position(c, n, (t - 1) as nat));
        assert(states[t as int].wf());
        assert(!(o is Ended));
        if m < n {
            assert(settles(o));
        } else {
            assert(!settles(o));
        }
        assert(!(steps[t as int] is Poll));
        if steps.len() > t + 1 {
            let kk: int = t + 1int;
            lemma_run_step(states, steps, outcome_of, kk);
            assert(kk - 1 == t);
        }
    }
}

/// An entry with data is not starved by silent ones: in a round in which the
/// entry at index `b` has the frame `f` and every other entry has nothing,
/// wherever `b` stands, the round never ends pending or closed, polls at
/// most as many times as there are entries, and delivers what `f` decodes
/// to.
pub proof fn lemma_silent_entries_do_not_starve<R>(
    states: Seq<CoinbaseWebsocket<R>>,
    steps: Seq<PollStep>,
    outcome_of: spec_fn(usize) -> EntryPoll,
    b: usize,
    f: Frame,
)
    requires
        round_run(states, steps, outcome_of),
        b < states[0].entries().len(),
        outcome_of(b) == EntryPoll::Ready(f),
        forall|i: usize| i != b ==> (#[trigger] outcome_of(i)) is Pending,
    ensures
        steps.len() <= states[0].entries().len() + 1,
        forall|k: int|
            0 <= k < steps.len() ==> (#[trigger] steps[k]) is Poll || steps[k] == PollStep::Deliver(
                frame_result(f),
            ),
        steps.last() is Deliver ==> states.last().entries() == states[0].entries(),
{
    let n = states[0].entries().len();
    let c = states[0].cursor();
    assert forall|i: usize| !(#[trigger] outcome_of(i) is Ended) by {
        if i != b {
            assert(outcome_of(i) is Pending);
        }
    }
    assert(states[0].wf());
    lemma_round_reaches_every_entry(c, n, b as nat);
    let kb = choose|k: nat| k < n && #[trigger] round_position(c, n, k) == b as nat;
    lemma_first_settled(c, n, outcome_of, 0);
    let m = first_settled(c, n, outcome_of, 0);
    assert(settles(outcome_of(round_position(c, n, kb) as usize)));
    assert(m <= kb);
    assert(m < n);
    let pm = round_position(c, n, m) as usize;
    assert(settles(outcome_of(pm)));
    assert(pm == b);
    lemma_round_delivers_first_settled(states, steps, outcome_of);
}

/// Two subscriptions that both have a frame waiting are each served once in
/// two rounds in a row: the first round delivers the frame of the entry at
/// the cursor and moves the cursor past it, and the second, where the other
/// entry's frame still waits, delivers that one. So the two frames come out
/// one each, in one order or the other.
pub proof fn lemma_two_frames_each_delivered_once<R>(
    first: Seq<CoinbaseWebsocket<R>>,
    first_steps: Seq<PollStep>,
    first_outcome: spec_fn(usize) -> EntryPoll,
    second: Seq<CoinbaseWebsocket<R>>,
    second_steps: Seq<PollStep>,
    second_outcome: spec_fn(usize) -> EntryPoll,
    f0: Frame,
    f1: Frame,
)
    requires
        round_run(first, first_steps, first_outcome),
        round_run(second, second_steps, second_outcome),
        first[0].entries().len() == 2,
        first_outcome(0) == EntryPoll::Ready(f0),
        first_outcome(1) == EntryPoll::Ready(f1),
        forall|i: usize| !(#[trigger] first_outcome(i) is Ended),
        first_steps.last() is Deliver,
        second[0] == first.last(),
        forall|i: usize| !(#[trigger] second_outcome(i) is Ended),
        second_outcome((1 - first[0].cursor()) as usize) == first_outcome(
            (1 - first[0].cursor()) as usize,
        ),
        second_steps.last() is Deliver,
    ensures
        first_steps.len() == 2,
        second_steps.len() == 2,
        (first_steps.last() == PollStep::Deliver(frame_result(f0)) && second_steps.last()
            == PollStep::Deliver(frame_result(f1))) || (first_steps.last() == PollStep::Deliver(
            frame_result(f1),
        ) && second_steps.last() == PollStep::Deliver(frame_result(f0))),
{
    let c = first[0].cursor();
    assert(first[0].wf());
    assert(c < 2);
    assert(round_position(c, 2, 0) == c) by {
        assert((c + 0nat) % 2 == c) by (nonlinear_arith)
            requires
                c < 2,
        ;
    }
    let d = (1 - c) as nat;
    assert(round_position(c, 2, 1) == d) by {
        assert((c + 1nat) % 2 == 1 - c) by (nonlinear_arith)
            requires
                c < 2,
        ;
    }
    assert(round_position(d, 2, 0) == d) by {
        assert((d + 0nat) % 2 == d) by (nonlinear_arith)
            requires
                d < 2,
        ;
    }
    lemma_first_settled(c, 2, first_outcome, 0);
    assert(settles(first_outcome(c as usize)));
    assert(first_settled(c, 2, first_outcome, 0) == 0);
    lemma_round_delivers_first_settled(first, first_steps, first_outcome);
    assert(first_steps.len() == 2) by {
        if first_steps.len() == 1 {
            assert(first_steps[0] is Poll);
        }
    }
    assert(second[0].cursor() == d);
    assert(second[0].entries().len() == 2);
    lemma_first_settled(d, 2, second_outcome, 0);
    assert(settles(second_outcome(d as usize)));
    assert(first_settled(d, 2, second_outcome, 0) == 0);
    lemma_round_delivers_first_settled(second, second_steps, second_outcome);
    assert(second_steps.len() == 2) by {
        if second_steps.len() == 1 {
            assert(second_steps[0] is Poll);
        }
    }
    if c == 0 {
        assert(d == 1);
    } else {
        assert(d == 0);
    }
}

/// A frame that is not text fails only its own delivery: a round in which
/// one entry has a binary frame and the others nothing delivers
/// `UnexpectedFrameKind` and keeps every entry, and the next round, in which
/// another entry has a text frame and the others nothing, delivers that
/// text.
pub proof fn lemma_bad_frame_does_not_stop_others<R>(
    first: Seq<CoinbaseWebsocket<R>>,
    first_steps: Seq<PollStep>,
    first_outcome: spec_fn(usize) -> EntryPoll,
    second: Seq<CoinbaseWebsocket<R>>,
    second_steps: Seq<PollStep>,
    second_outcome: spec_fn(usize) -> EntryPoll,
    a: usize,
    bytes: Vec<u8>,
    b: usize,
    text: String,
)
    requires
        round_run(first, first_steps, first_outcome),
        a < first[0].entries().len(),
        first_outcome(a) == EntryPoll::Ready(Frame::Binary(bytes)),
        forall|i: usize| i != a ==> (#[trigger] first_outcome(i)) is Pending,
        first_steps.last() is Deliver,
        round_run(second, second_steps, second_outcome),
        second[0] == first.last(),
        b < first[0].entries().len(),
        second_outcome(b) == EntryPoll::Ready(Frame::Text(text)),
        forall|i: usize| i != b ==> (#[trigger] second_outcome(i)) is Pending,
    ensures
        first_steps.last() == PollStep::Deliver(Err(StreamError::UnexpectedFrameKind)),
        second[0].entries() == first[0].entries(),
        forall|k: int|
            0 <= k < second_steps.len() ==> (#[trigger] second_steps[k]) is Poll || second_steps[k]
                == PollStep::Deliver(Ok(text)),
        second_steps.len() <= first[0].entries().len() + 1,
{
    lemma_silent_entries_do_not_starve(first, first_steps, first_outcome, a, Frame::Binary(bytes));
    assert(first_steps[first_steps.len() - 1] is Deliver);
    lemma_silent_entries_do_not_starve(second, second_steps, second_outcome, b, Frame::Text(text));
}

/// `(a + b) % n` without overflow.
fn wrap_add(a: usize, b: usize, n: usize) -> (r: usize)
    requires
        a < n,
        b < n,
    ensures
        r == round_position(a as nat, n as nat, b as nat),
{
    if b < n - a {
        assert((a + b) % (n as int) == a + b) by (nonlinear_arith)
            requires
                0 <= a + b < n,
        ;
        a + b
    } else {
        assert((a + b) % (n as int) == a + b - n) by (nonlinear_arith)
            requires
                n <= a + b < 2 * n,
        ;
        b - (n - a)
    }
}

/// A streaming session: live subscriptions, polled in rounds that rotate
/// their starting entry, and the cancellation senders of their sockets.
pub struct CoinbaseWebsocket<R> {
    subscriptions: Vec<CoinbaseSubscription>,
    streams: Vec<R>,
    parameters: CoinbaseParameters,
    disconnection_senders: Vec<tokio::sync::mpsc::UnboundedSender<()>>,
    cursor: usize,
    start: usize,
    polled: usize,
    in_round: bool,
    signalled: Ghost<Seq<tokio::sync::mpsc::UnboundedSender<()>>>,
}

impl<R> CoinbaseWebsocket<R> {
    /// The identities of the live subscriptions, in polling order.
    pub closed spec fn entries(&self) -> Seq<(ChannelType, Seq<char>)> {
        self.subscriptions@.map_values(|e: CoinbaseSubscription| e@)
    }

    /// The receive halves, aligned with `entries`.
    pub closed spec fn streams(&self) -> Seq<R> {
        self.streams@
    }

    /// What the session was created with.
    pub closed spec fn params(&self) -> CoinbaseParameters {
        self.parameters
    }

    /// The registered cancellation senders.
    pub closed spec fn senders(&self) -> Seq<tokio::sync::mpsc::UnboundedSender<()>> {
        self.disconnection_senders@
    }

    /// The cancellation senders signalled so far, in the order they were
    /// signalled.
    pub closed spec fn signalled(&self) -> Seq<tokio::sync::mpsc::UnboundedSender<()>> {
        self.signalled@
    }

    /// The entry the next round starts at.
    pub closed spec fn cursor(&self) -> nat {
        self.cursor as nat
    }

    /// The entry the current round started at.
    pub closed spec fn round_start(&self) -> nat {
        self.start as nat
    }

    /// How many entries the current round has polled.
    pub closed spec fn round_polled(&self) -> nat {
        self.polled as nat
    }

    /// Whether a round is in progress.
    pub closed spec fn in_round_spec(&self) -> bool {
        self.in_round
    }

    /// The entry the current round polls next.
    pub open spec fn round_next(&self) -> nat {
        round_position(self.round_start(), self.entries().len(), self.round_polled())
    }

    /// The session's invariant: no identity is live twice, every identity
    /// has its receive half, and the cursor and a round in progress point at
    /// live entries.
    pub closed spec fn wf(&self) -> bool {
        &&& unique(self.entries())
        &&& self.streams@.len() == self.subscriptions@.len()
        &&& self.entries().len() == 0 ==> self.cursor == 0
        &&& self.entries().len() > 0 ==> self.cursor < self.entries().len()
        &&& self.in_round ==> {
            &&& self.start < self.entries().len()
            &&& self.polled < self.entries().len()
        }
    }

    /// Everything but the cancellation senders is as before.
    pub open spec fn same_but_senders(&self, other: &Self) -> bool {
        &&& self.entries() == other.entries()
        &&& self.streams() == other.streams()
        &&& self.params() == other.params()
        &&& self.cursor() == other.cursor()
        &&& self.round_start() == other.round_start()
        &&& self.round_polled() == other.round_polled()
        &&& self.in_round_spec() == other.in_round_spec()
    }

    /// `self` is what disconnecting `before` leaves: every sender that was
    /// registered signalled once, in order, an empty registry, and
    /// everything else as it was.
    pub open spec fn disconnected_from(&self, before: &Self) -> bool {
        &&& self.signalled() == before.signalled() + before.senders()
        &&& self.senders().len() == 0
        &&& self.same_but_senders(before)
    }

    /// `self` and `r` are what starting a round on `before` gives.
    pub open spec fn started_from(&self, before: &Self, r: PollStep) -> bool {
        &&& self.entries() == before.entries()
        &&& self.streams() == before.streams()
        &&& self.senders() == before.senders()
        &&& self.params() == before.params()
        &&& self.signalled() == before.signalled()
        &&& self.cursor() == before.cursor()
        &&& (before.entries().len() == 0 ==> r is Closed && !self.in_round_spec())
        &&& (before.entries().len() > 0 ==> {
            &&& self.in_round_spec()
            &&& self.round_start() == before.cursor()
            &&& self.round_polled() == 0
            &&& r == PollStep::Poll(before.cursor() as usize)
        })
    }

    /// `self` and `r` are what reporting `outcome` to the round in progress
    /// on `before` gives.
    pub open spec fn reported_from(&self, before: &Self, outcome: EntryPoll, r: PollStep) -> bool {
        &&& (self.senders() == before.senders())
        &&& (self.params() == before.params())
        &&& (self.signalled() == before.signalled())
        &&& (!(outcome is Ended) ==> {
            &&& self.entries() == before.entries()
            &&& self.streams() == before.streams()
        })
        &&& (outcome is Pending ==> {
            &&& self.cursor() == before.cursor()
            &&& if before.round_polled() + 1 == before.entries().len() {
                r is Pending && !self.in_round_spec()
            } else {
                &&& self.in_round_spec()
                &&& self.round_start() == before.round_start()
                &&& self.round_polled() == before.round_polled() + 1
                &&& r == PollStep::Poll(self.round_next() as usize)
            }
        })
        &&& (outcome matches EntryPoll::Ready(f) ==> {
            &&& r == PollStep::Deliver(frame_result(f))
            &&& !self.in_round_spec()
            &&& self.cursor() == round_position(before.round_next(), before.entries().len(), 1)
        })
        &&& (outcome matches EntryPoll::Failed(m) ==> {
            &&& r == PollStep::Deliver(Err(StreamError::TransportError(m)))
            &&& !self.in_round_spec()
            &&& self.cursor() == round_position(before.round_next(), before.entries().len(), 1)
        })
        &&& (outcome is Ended ==> {
            let n = (before.entries().len() - 1) as nat;
            let p = before.round_next() as int;
            &&& self.entries() == before.entries().remove(p)
            &&& self.streams() == before.streams().remove(p)
            &&& n == 0 ==> r is Closed && !self.in_round_spec()
            &&& n > 0 ==> {
                &&& self.in_round_spec()
                &&& self.round_start() == p % (n as int)
                &&& self.round_polled() == 0
                &&& r == PollStep::Poll((p % (n as int)) as usize)
            }
        })
    }

    /// No identity of a well-formed session is live twice.
    pub proof fn lemma_unique_entries(&self)
        requires
            self.wf(),
        ensures
            unique(self.entries()),
    {
    }

    /// A session with no subscription.
    pub fn new(parameters: CoinbaseParameters) -> (r: Self)
        ensures
            r.wf(),
            r.params() == parameters,
            r.entries().len() == 0,
            r.senders().len() == 0,
            r.cursor() == 0,
            r.signalled().len() == 0,
            !r.in_round_spec(),
    {
        let r = CoinbaseWebsocket {
            subscriptions: Vec::new(),
            streams: Vec::new(),
            parameters,
            disconnection_senders: Vec::new(),
            cursor: 0,
            start: 0,
            polled: 0,
            in_round: false,
            signalled: Ghost(Seq::empty()),
        };
        assert(r.entries() =~= Seq::empty());
        r
    }

    /// What the session was created with.
    pub fn parameters(&self) -> (r: CoinbaseParameters)
        ensures
            r == self.params(),
    {
        self.parameters
    }

    /// How many subscriptions are live.
    pub fn len(&self) -> (r: usize)
        ensures
            r == self.entries().len(),
    {
        self.subscriptions.len()
    }

    /// Whether no subscription is live.
    pub fn is_empty(&self) -> (r: bool)
        ensures
            r == (self.entries().len() == 0),
    {
        self.subscriptions.len() == 0
    }

    /// How many cancellation senders are registered.
    pub fn senders_len(&self) -> (r: usize)
        ensures
            r == self.senders().len(),
    {
        self.disconnection_senders.len()
    }

    /// Whether a polling round is in progress.
    pub fn in_round(&self) -> (r: bool)
        ensures
            r == self.in_round_spec(),
    {
        self.in_round
    }

    /// The identity of the entry at an index.
    pub fn subscription(&self, i: usize) -> (r: &CoinbaseSubscription)
        requires
            i < self.entries().len(),
        ensures
            r@ == self.entries()[i as int],
    {
        &self.subscriptions[i]
    }

    /// The index of an identity among the live entries.
    pub fn position(&self, id: &CoinbaseSubscription) -> (r: Option<usize>)
        ensures
            r matches Some(i) ==> i < self.entries().len() && self.entries()[i as int] == id@,
            r is None ==> !self.entries().contains(id@),
    {
        let mut i: usize = 0;
        while i < self.subscriptions.len()
            invariant
                i <= self.subscriptions@.len(),
                self.entries().len() == self.subscriptions@.len(),
                forall|k: int| 0 <= k < i ==> self.entries()[k] != id@,
            decreases self.subscriptions.len() - i,
        {
            if self.subscriptions[i] == *id {
                return Some(i);
            }
            i = i + 1;
        }
        None
    }
}

impl<R> CoinbaseWebsocket<R> {
    /// Mutable access to the receive half at an index, for polling it.
    pub fn stream_mut(&mut self, i: usize) -> (r: &mut R)
        requires
            old(self).wf(),
            i < old(self).entries().len(),
        ensures
            *r == old(self).streams()[i as int],
            final(self).streams() =~= old(self).streams().update(i as int, *final(r)),
            final(self).entries() =~= old(self).entries(),
            final(self).wf(),
            final(self).senders() == old(self).senders(),
            final(self).params() == old(self).params(),
            final(self).signalled() == old(self).signalled(),
            final(self).cursor() == old(self).cursor(),
            final(self).round_start() == old(self).round_start(),
            final(self).round_polled() == old(self).round_polled(),
            final(self).in_round_spec() == old(self).in_round_spec(),
    {
        &mut self.streams[i]
    }

    /// Adds a live subscription with the receive half of its socket and the
    /// cancellation sender of its send half. An identity that is already
    /// live keeps its place and takes the new receive half; the old one is
    /// dropped. The sender is registered either way. A round in progress
    /// ends.
    pub fn subscribe_(
        &mut self,
        subscription: CoinbaseSubscription,
        stream: R,
        sender: tokio::sync::mpsc::UnboundedSender<()>,
    )
        requires
            old(self).wf(),
        ensures
            final(self).wf(),
            unique(final(self).entries()),
            final(self).entries() == added(old(self).entries(), subscription@),
            exists|j: int|
                0 <= j < final(self).entries().len() && final(self).entries()[j] == subscription@
                    && final(self).streams()[j] == stream,
            forall|k: int|
                0 <= k < old(self).entries().len() && old(self).entries()[k] != subscription@
                    ==> final(self).streams()[k] == old(self).streams()[k],
            final(self).senders() == old(self).senders().push(sender),
            final(self).params() == old(self).params(),
            final(self).signalled() == old(self).signalled(),
            final(self).cursor() == old(self).cursor(),
            !final(self).in_round_spec(),
    {
        let ghost id = subscription@;
        match self.position(&subscription) {
            Some(i) => {
                self.subscriptions.set(i, subscription);
                self.streams.set(i, stream);
                assert(self.entries() =~= old(self).entries().update(i as int, id));
                assert(old(self).entries().update(i as int, id) =~= old(self).entries());
                assert(self.streams()[i as int] == stream);
            },
            None => {
                self.subscriptions.push(subscription);
                self.streams.push(stream);
                assert(self.entries() =~= old(self).entries().push(id));
                assert(self.streams() =~= old(self).streams().push(stream));
                assert(self.entries()[old(self).entries().len() as int] == id);
            },
        }
        self.disconnection_senders.push(sender);
        self.in_round = false;
    }

    /// Relies on tokio's `UnboundedSender::send`: it hands `()` to the task
    /// that owns the send half of the socket at index `i` of the registry,
    /// without waiting, and fails only where that task is gone, in which
    /// case there is nothing left to cancel. The call is recorded in
    /// `signalled`; nothing else changes.
    #[verifier::external_body]
    fn signal_at(&mut self, i: usize)
        requires
            i < old(self).senders().len(),
        ensures
            final(self).signalled() == old(self).signalled().push(old(self).senders()[i as int]),
            final(self).senders() == old(self).senders(),
            final(self).same_but_senders(old(self)),
            final(self).wf() == old(self).wf(),
    {
        self.disconnection_senders[i].send(()).ok();
    }

    /// Signals every registered cancellation sender once, in order, so that
    /// each socket's send half closes, then empties the registry. Nothing
    /// else changes.
    pub fn disconnect(&mut self)
        requires
            old(self).wf(),
        ensures
            final(self).wf(),
            final(self).disconnected_from(old(self)),
    {
        let mut i: usize = 0;
        while i < self.disconnection_senders.len()
            invariant
                i <= self.disconnection_senders@.len(),
                self.wf(),
                self.senders() == old(self).senders(),
                self.same_but_senders(old(self)),
                self.signalled() == old(self).signalled() + old(self).senders().take(i as int),
            decreases self.disconnection_senders.len() - i,
        {
            self.signal_at(i);
            assert(old(self).senders().take(i + 1) =~= old(self).senders().take(i as int).push(
                old(self).senders()[i as int],
            ));
            assert(self.signalled() =~= old(self).signalled() + old(self).senders().take(i + 1));
            i = i + 1;
        }
        assert(old(self).senders().take(i as int) =~= old(self).senders());
        self.disconnection_senders.clear();
    }

    /// Starts a polling round at the cursor. With no live subscription the
    /// stream is closed.
    pub fn start_round(&mut self) -> (r: PollStep)
        requires
            old(self).wf(),
        ensures
            final(self).wf(),
            final(self).started_from(old(self), r),
    {
        if self.subscriptions.len() == 0 {
            self.in_round = false;
            return PollStep::Closed;
        }
        self.start = self.cursor;
        self.polled = 0;
        self.in_round = true;
        PollStep::Poll(self.cursor)
    }

    /// Takes what polling the entry `round_next` gave, and says what to do
    /// next. A pending entry passes the turn to the next one, and the round
    /// ends pending once every entry has been polled. A frame or a read
    /// failure ends the round with that result, and the next round starts
    /// after this entry. An ended entry is removed, and the round starts
    /// again where it stood; it ends closed when no entry is left.
    pub fn report(&mut self, outcome: EntryPoll) -> (r: PollStep)
        requires
            old(self).wf(),
            old(self).in_round_spec(),
        ensures
            final(self).wf(),
            final(self).reported_from(old(self), outcome, r),
    {
        let n = self.subscriptions.len();
        let pos = wrap_add(self.start, self.polled, n);
        match outcome {
            EntryPoll::Pending => {
                if self.polled + 1 == n {
                    self.in_round = false;
                    PollStep::Pending
                } else {
                    self.polled = self.polled + 1;
                    PollStep::Poll(wrap_add(self.start, self.polled, n))
                }
            },
            EntryPoll::Ready(f) => {
                self.in_round = false;
                self.cursor = (pos + 1) % n;
                PollStep::Deliver(frame_text(f))
            },
            EntryPoll::Failed(m) => {
                self.in_round = false;
                self.cursor = (pos + 1) % n;
                PollStep::Deliver(Err(StreamError::TransportError(m)))
            },
            EntryPoll::Ended => {
                self.subscriptions.remove(pos);
                self.streams.remove(pos);
                proof {
                    assert(self.entries() =~= old(self).entries().remove(pos as int));
                    assert(self.streams() =~= old(self).streams().remove(pos as int));
                    let ids = old(self).entries();
                    assert forall|i: int, j: int|
                        0 <= i < j < self.entries().len() implies self.entries()[i]
                        != self.entries()[j] by {
                        let i0 = if i < pos { i } else { i + 1 };
                        let j0 = if j < pos { j } else { j + 1 };
                        assert(self.entries()[i] == ids[i0]);
                        assert(self.entries()[j] == ids[j0]);
                    }
                }
                let m = n - 1;
                if m == 0 {
                    self.cursor = 0;
                    self.in_round = false;
                    PollStep::Closed
                } else {
                    self.cursor = self.cursor % m;
                    self.start = pos % m;
                    self.polled = 0;
                    PollStep::Poll(pos % m)
                }
            },
        }
    }
}

} // verus!
