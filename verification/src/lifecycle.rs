//! The per-operation lifecycle state machine: how a slot reacts to kernel
//! completions, and how a buffered completion list is split into incremental
//! updates and a terminal result.

use vstd::prelude::*;
use crate::ext::spec_more;
use crate::pool::BorrowedBuf;

verus! {

/// A completion record derived from a raw kernel completion entry: a
/// non-negative count on success or the positive error number on failure,
/// the raw flags, and the borrowed buffer the flags selected, if any.
pub struct CqeResult {
    pub result: Result<u32, i32>,
    pub flags: u32,
    pub buf: Option<BorrowedBuf>,
}

/// A record without the more-completions-to-follow bit ends its operation.
pub open spec fn is_terminal(c: CqeResult) -> bool {
    !spec_more(c.flags)
}

/// What a raw completion result decodes to.
pub open spec fn spec_result(result: i32) -> Result<u32, i32> {
    if result >= 0 {
        Ok(result as u32)
    } else {
        Err((-result) as i32)
    }
}

impl CqeResult {
    /// Decodes a raw completion: a negative result is an operating-system
    /// error code, anything else a success count. No buffer is attached yet.
    pub fn from_raw(result: i32, flags: u32) -> (r: CqeResult)
        requires
            result != i32::MIN,
        ensures
            r.result == spec_result(result),
            r.flags == flags,
            r.buf is None,
    {
        let decoded: Result<u32, i32> = if result >= 0 {
            Ok(result as u32)
        } else {
            Err(-result)
        };
        CqeResult { result: decoded, flags, buf: None }
    }
}

/// The lifecycle of one slot in the operation table.
pub enum Lifecycle<T> {
    /// Descriptor pushed; no completion seen, no waker registered.
    Submitted,
    /// As `Submitted`, plus the waker to invoke on completion.
    Waiting(core::task::Waker),
    /// A terminal completion is buffered, awaiting the handle's next poll.
    Completed(CqeResult),
    /// One or more completions with the more flag arrived; no terminal seen,
    /// or a terminal is buffered at the end awaiting the next poll.
    CompletionList(Vec<CqeResult>),
    /// The handle was dropped in-flight; the slot owns the payload until the
    /// kernel confirms the operation is over.
    Ignored(Option<T>),
}

/// The lifecycle state names, for queries from outside the state machine.
#[derive(PartialEq, Eq, Structural, Clone, Copy, Debug)]
pub enum StateKind {
    Submitted,
    Waiting,
    Completed,
    MultiPending,
    Abandoned,
}

/// What a slot transition hands back to the dispatcher: the state to store,
/// whether the slot is now collectable, the waker to invoke, and a record
/// that was not stored and whose buffer must be reclaimed.
pub struct CompleteOutcome<T> {
    pub next: Lifecycle<T>,
    pub collect: bool,
    pub wake: Option<core::task::Waker>,
    pub discarded: Option<CqeResult>,
}

impl<T> Lifecycle<T> {
    /// The state name of this lifecycle value.
    pub open spec fn kind_spec(&self) -> StateKind {
        match self {
            Lifecycle::Submitted => StateKind::Submitted,
            Lifecycle::Waiting(_) => StateKind::Waiting,
            Lifecycle::Completed(_) => StateKind::Completed,
            Lifecycle::CompletionList(_) => StateKind::MultiPending,
            Lifecycle::Ignored(_) => StateKind::Abandoned,
        }
    }

    /// Reports the state name.
    pub fn kind(&self) -> (k: StateKind)
        ensures
            k == self.kind_spec(),
    {
        match self {
            Lifecycle::Submitted => StateKind::Submitted,
            Lifecycle::Waiting(_) => StateKind::Waiting,
            Lifecycle::Completed(_) => StateKind::Completed,
            Lifecycle::CompletionList(_) => StateKind::MultiPending,
            Lifecycle::Ignored(_) => StateKind::Abandoned,
        }
    }

    /// One step of the completion state machine. A terminal record parks the
    /// result for the next poll; a non-terminal one starts or extends the
    /// completion list; a waiting waker is handed back to be woken; an
    /// abandoned slot discards the record and becomes collectable on the
    /// terminal one. A slot holding an unconsumed terminal record admits no
    /// further completion.
    pub fn complete(self, cqe: CqeResult) -> (o: CompleteOutcome<T>)
        requires
            !(self is Completed),
        ensures
            match self {
                Lifecycle::Submitted => {
                    &&& o.collect == false
                    &&& o.wake is None
                    &&& o.discarded is None
                    &&& if spec_more(cqe.flags) {
                        o.next matches Lifecycle::CompletionList(l) && l@ =~= seq![cqe]
                    } else {
                        o.next == Lifecycle::<T>::Completed(cqe)
                    }
                },
                Lifecycle::Waiting(w) => {
                    &&& o.collect == false
                    &&& o.wake == Some(w)
                    &&& o.discarded is None
                    &&& if spec_more(cqe.flags) {
                        o.next matches Lifecycle::CompletionList(l) && l@ =~= seq![cqe]
                    } else {
                        o.next == Lifecycle::<T>::Completed(cqe)
                    }
                },
                Lifecycle::CompletionList(l0) => {
                    &&& o.collect == false
                    &&& o.wake is None
                    &&& o.discarded is None
                    &&& o.next matches Lifecycle::CompletionList(l) && l@ == l0@.push(cqe)
                },
                Lifecycle::Ignored(p) => {
                    &&& o.collect == !spec_more(cqe.flags)
                    &&& o.wake is None
                    &&& o.discarded == Some(cqe)
                    &&& o.next == Lifecycle::Ignored(p)
                },
                Lifecycle::Completed(_) => true,
            },
    {
        match self {
            Lifecycle::Submitted => {
                if io_uring::cqueue::more(cqe.flags) {
                    let mut l: Vec<CqeResult> = Vec::new();
                    l.push(cqe);
                    CompleteOutcome { next: Lifecycle::CompletionList(l), collect: false, wake: None, discarded: None }
                } else {
                    CompleteOutcome { next: Lifecycle::Completed(cqe), collect: false, wake: None, discarded: None }
                }
            }
            Lifecycle::Waiting(w) => {
                if io_uring::cqueue::more(cqe.flags) {
                    let mut l: Vec<CqeResult> = Vec::new();
                    l.push(cqe);
                    CompleteOutcome { next: Lifecycle::CompletionList(l), collect: false, wake: Some(w), discarded: None }
                } else {
                    CompleteOutcome { next: Lifecycle::Completed(cqe), collect: false, wake: Some(w), discarded: None }
                }
            }
            Lifecycle::CompletionList(mut l) => {
                l.push(cqe);
                CompleteOutcome { next: Lifecycle::CompletionList(l), collect: false, wake: None, discarded: None }
            }
            Lifecycle::Ignored(p) => {
                let more = io_uring::cqueue::more(cqe.flags);
                CompleteOutcome { next: Lifecycle::Ignored(p), collect: !more, wake: None, discarded: Some(cqe) }
            }
            Lifecycle::Completed(c) => {
                CompleteOutcome { next: Lifecycle::Completed(c), collect: false, wake: None, discarded: None }
            }
        }
    }
}

/// The sequence a buffered optional terminal record contributes to the list.
pub open spec fn opt_seq(t: Option<CqeResult>) -> Seq<CqeResult> {
    match t {
        Some(c) => seq![c],
        None => Seq::empty(),
    }
}

/// Splits a buffered completion list into the non-terminal records to feed
/// to `update`, the first terminal record if one arrived, and the records
/// after the terminal, which the protocol rules out but whose buffers are
/// reclaimed rather than leaked.
pub fn partition_completions(list: Vec<CqeResult>) -> (r: (Vec<CqeResult>, Option<CqeResult>, Vec<CqeResult>))
    ensures
        list@ == r.0@ + opt_seq(r.1) + r.2@,
        forall|i: int| 0 <= i < r.0@.len() ==> !is_terminal(#[trigger] r.0@[i]),
        r.1 matches Some(t) ==> is_terminal(t),
        r.1 is None ==> r.2@.len() == 0,
{
    let mut rest = list;
    let mut updates: Vec<CqeResult> = Vec::new();
    let mut terminal: Option<CqeResult> = None;
    while terminal.is_none() && rest.len() > 0
        invariant
            list@ == updates@ + opt_seq(terminal) + rest@,
            forall|i: int| 0 <= i < updates@.len() ==> !is_terminal(#[trigger] updates@[i]),
            terminal matches Some(t) ==> is_terminal(t),
        decreases rest@.len(),
    {
        let c = rest.remove(0);
        if io_uring::cqueue::more(c.flags) {
            updates.push(c);
            proof {
                assert(list@ =~= updates@ + opt_seq(terminal) + rest@);
            }
        } else {
            terminal = Some(c);
            proof {
                assert(list@ =~= updates@ + opt_seq(terminal) + rest@);
            }
        }
    }
    (updates, terminal, rest)
}

/// The length of the leading run of non-terminal records: the number of
/// `update` calls a poll of the list performs before the terminal, if any.
pub open spec fn nonterminal_prefix_len(s: Seq<CqeResult>) -> int
    decreases s.len(),
{
    if s.len() == 0 {
        0
    } else if is_terminal(s.first()) {
        0
    } else {
        1 + nonterminal_prefix_len(s.drop_first())
    }
}

/// The leading non-terminal run ends exactly at the first terminal record.
pub proof fn lemma_prefix_len(list: Seq<CqeResult>, k: int)
    requires
        0 <= k <= list.len(),
        forall|i: int| 0 <= i < k ==> !is_terminal(#[trigger] list[i]),
        k == list.len() || is_terminal(list[k]),
    ensures
        nonterminal_prefix_len(list) == k,
    decreases list.len(),
{
    if list.len() == 0 {
    } else if k == 0 {
    } else {
        let rest = list.drop_first();
        assert(!is_terminal(list[0]));
        assert forall|i: int| 0 <= i < k - 1 implies !is_terminal(#[trigger] rest[i]) by {
            let j = i + 1;
            assert(!is_terminal(list[j]));
        }
        if k < list.len() {
            assert(rest[k - 1] == list[k]);
        }
        lemma_prefix_len(rest, k - 1);
    }
}

/// A multishot run of completions — some number of non-terminal records
/// followed by exactly one terminal — splits into exactly those updates, in
/// order, and that terminal, with nothing left over.
pub proof fn lemma_multishot_split(
    list: Seq<CqeResult>,
    updates: Seq<CqeResult>,
    terminal: Option<CqeResult>,
    rest: Seq<CqeResult>,
    k: int,
)
    requires
        0 <= k,
        list.len() == k + 1,
        forall|i: int| 0 <= i < k ==> !is_terminal(#[trigger] list[i]),
        is_terminal(list[k]),
        list == updates + opt_seq(terminal) + rest,
        forall|i: int| 0 <= i < updates.len() ==> !is_terminal(#[trigger] updates[i]),
        terminal matches Some(t) ==> is_terminal(t),
        terminal is None ==> rest.len() == 0,
    ensures
        updates =~= list.take(k),
        terminal == Some(list[k]),
        rest.len() == 0,
{
    if terminal is None {
        assert(list.len() == updates.len());
        assert(!is_terminal(updates[k]));
        assert(false);
    }
    let u = updates.len() as int;
    if u < k {
        assert(list[u] == opt_seq(terminal)[0]);
        assert(!is_terminal(list[u]));
        assert(false);
    }
    if u > k {
        assert(updates[k] == list[k]);
        assert(false);
    }
    assert(list[k] == opt_seq(terminal)[0]);
    assert forall|i: int| 0 <= i < k implies updates[i] == list.take(k)[i] by {
        assert(updates[i] == list[i]);
    }
}

/// The awaitable half of an operation: a poll either stays pending or hands
/// the payload's user-facing result out, at most one ready per poll.
pub enum OpPoll<O> {
    Pending,
    Ready(O),
}

/// What every operation payload offers the handle: `complete` consumes the
/// payload on the terminal record and produces the user-facing output;
/// `update` accumulates one non-terminal record of a multishot operation.
pub trait Completable: Sized {
    type Output;

    fn complete(self, cqe: CqeResult) -> Self::Output;

    fn update(&mut self, cqe: CqeResult);
}

} // verus!
