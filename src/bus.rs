//! The driver's collaborators (bus, reset line, delay source) and the ghost
//! model of the transactions issued to them.
use display_interface::DisplayError;
use vstd::prelude::*;

verus! {

/// Declared so that driver results can carry display_interface's error.
#[verifier::external_type_specification]
#[verifier::external_body]
pub struct ExDisplayError(DisplayError);

/// A write-only command/data channel to the controller. The
/// command/data selector line is driven by the implementation.
pub trait Bus {
    /// Sends bytes in the command phase.
    fn send_commands(&mut self, cmd: &[u8]) -> Result<(), DisplayError>;

    /// Sends bytes in the data phase.
    fn send_data(&mut self, data: &[u8]) -> Result<(), DisplayError>;

    /// Sends `count` copies of `byte` in the data phase, as one stream.
    fn send_data_repeated(&mut self, byte: u8, count: usize) -> Result<(), DisplayError>;
}

/// The controller's hardware reset line.
pub trait ResetPin {
    fn set_high(&mut self) -> Result<(), DisplayError>;

    fn set_low(&mut self) -> Result<(), DisplayError>;
}

/// A blocking delay source.
pub trait Delay {
    fn delay_ms(&mut self, ms: u32);
}

/// One transaction that the driver issues.
pub enum Op {
    /// Bytes sent in the command phase.
    Command(Seq<u8>),
    /// Bytes sent in the data phase.
    Data(Seq<u8>),
    /// The reset line driven high.
    ResetHigh,
    /// The reset line driven low.
    ResetLow,
    /// A delay of the given number of milliseconds.
    DelayMs(u32),
}

/// A transaction together with whether it succeeded.
pub struct Event {
    pub op: Op,
    pub ok: bool,
}

/// `n` copies of `x`.
pub open spec fn repeated<T>(x: T, n: nat) -> Seq<T> {
    Seq::new(n, |i: int| x)
}

/// The transactions of a command frame: the opcode in the command phase,
/// then its parameters in the data phase.
pub open spec fn frame(opcode: u8, params: Seq<u8>) -> Seq<Op> {
    seq![Op::Command(seq![opcode]), Op::Data(params)]
}

/// `events` is a run of `plan` that stopped at its first failure: the
/// events follow the plan in order, all but the last succeeded, and the run
/// ends early only on a failure. `ok` tells whether the whole plan ran.
pub open spec fn ran(plan: Seq<Op>, events: Seq<Event>, ok: bool) -> bool {
    &&& events.len() <= plan.len()
    &&& forall|i: int| 0 <= i < events.len() ==> #[trigger] events[i].op == plan[i]
    &&& forall|i: int| 0 <= i < events.len() - 1 ==> #[trigger] events[i].ok
    &&& ok ==> events.len() == plan.len() && (events.len() == 0 || events.last().ok)
    &&& !ok ==> events.len() > 0 && !events.last().ok
}

/// The log went from `before` to `after` by a run of `plan` whose outcome
/// is `ok`.
pub open spec fn performed(before: Seq<Event>, after: Seq<Event>, plan: Seq<Op>, ok: bool) -> bool {
    &&& before.len() <= after.len()
    &&& after.subrange(0, before.len() as int) == before
    &&& ran(plan, after.subrange(before.len() as int, after.len() as int), ok)
}

/// Nothing planned, nothing done.
pub proof fn lemma_performed_empty(log: Seq<Event>)
    ensures
        performed(log, log, seq![], true),
{
    assert(log.subrange(0, log.len() as int) =~= log);
    assert(log.subrange(log.len() as int, log.len() as int) =~= seq![]);
}

/// A single transaction is a run of the plan that holds just it.
pub proof fn lemma_performed_one(log: Seq<Event>, op: Op, ok: bool)
    ensures
        performed(log, log.push(Event { op, ok }), seq![op], ok),
{
    let after = log.push(Event { op, ok });
    assert(after.subrange(0, log.len() as int) =~= log);
    assert(after.subrange(log.len() as int, after.len() as int) =~= seq![Event { op, ok }]);
}

/// A successful run of `p` followed by a run of `q` is a run of `p + q`.
pub proof fn lemma_performed_then(a: Seq<Event>, b: Seq<Event>, c: Seq<Event>, p: Seq<Op>, q: Seq<Op>, ok: bool)
    requires
        performed(a, b, p, true),
        performed(b, c, q, ok),
    ensures
        performed(a, c, p + q, ok),
{
    let ea = b.subrange(a.len() as int, b.len() as int);
    let eb = c.subrange(b.len() as int, c.len() as int);
    let e = c.subrange(a.len() as int, c.len() as int);
    assert(e =~= ea + eb) by {
        assert forall|i: int| 0 <= i < e.len() implies e[i] == (ea + eb)[i] by {
            if i < ea.len() {
                assert(b.subrange(0, b.len() as int) == b);
                assert(c.subrange(0, b.len() as int)[a.len() + i] == c[a.len() + i]);
            }
        }
    }
    assert(c.subrange(0, a.len() as int) =~= c.subrange(0, b.len() as int).subrange(0, a.len() as int));
    assert forall|i: int| 0 <= i < e.len() implies #[trigger] e[i].op == (p + q)[i] by {
        if i < ea.len() {
            assert(e[i] == ea[i]);
        } else {
            assert(e[i] == eb[i - ea.len()]);
        }
    }
    assert forall|i: int| 0 <= i < e.len() - 1 implies #[trigger] e[i].ok by {
        if i < ea.len() {
            assert(e[i] == ea[i]);
            if i == ea.len() - 1 {
                assert(ea.last().ok);
            }
        } else {
            assert(e[i] == eb[i - ea.len()]);
        }
    }
    if eb.len() == 0 {
        assert(e =~= ea);
    } else {
        assert(e.last() == eb.last());
    }
}

/// A run that failed part way through a prefix of `plan` is a failed run
/// of `plan`.
pub proof fn lemma_performed_failed_prefix(a: Seq<Event>, b: Seq<Event>, done: Seq<Op>, plan: Seq<Op>)
    requires
        performed(a, b, done, false),
        done.len() <= plan.len(),
        done == plan.take(done.len() as int),
    ensures
        performed(a, b, plan, false),
{
    lemma_performed_failed(a, b, done, plan.skip(done.len() as int));
    assert(done + plan.skip(done.len() as int) =~= plan);
}

/// A run that failed part way through `p` is a failed run of any plan that
/// starts with `p`.
pub proof fn lemma_performed_failed(a: Seq<Event>, b: Seq<Event>, p: Seq<Op>, q: Seq<Op>)
    requires
        performed(a, b, p, false),
    ensures
        performed(a, b, p + q, false),
{
    let e = b.subrange(a.len() as int, b.len() as int);
    assert forall|i: int| 0 <= i < e.len() implies #[trigger] e[i].op == (p + q)[i] by {
        assert(e[i].op == p[i]);
    }
}

} // verus!
