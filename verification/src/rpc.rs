//! Questions and answers between callers and the one task that answers them:
//! a bounded channel of questions, each with a slot for its answer.

use futures::FutureExt;
use vstd::prelude::*;

verus! {

/// How many questions can wait at once.
pub const BUF_SIZE: usize = 4;

/// Why a call or a reply failed.
#[derive(Clone, Copy, Debug, PartialEq, Eq, Structural)]
pub enum RpcError {
    /// The answering side is gone.
    ReceiverClosed,
    /// The asking side is gone.
    SenderClosed,
    /// No question is waiting.
    Empty,
}

impl RpcError {
    /// The error in words.
    pub fn message(&self) -> (text: &'static str)
        ensures
            text@ == match *self {
                RpcError::ReceiverClosed => "Receiver end closed"@,
                RpcError::SenderClosed => "Sender end closed"@,
                RpcError::Empty => "No pending queries"@,
            },
    {
        match self {
            RpcError::ReceiverClosed => "Receiver end closed",
            RpcError::SenderClosed => "Sender end closed",
            RpcError::Empty => "No pending queries",
        }
    }
}

/// `tokio::sync::mpsc::Receiver`, carried as it is.
#[verifier::external_type_specification]
#[verifier::external_body]
#[verifier::reject_recursive_types(T)]
pub struct ExQuestions<T>(tokio::sync::mpsc::Receiver<T>);

/// `tokio::sync::mpsc::Sender`, carried as it is.
#[verifier::external_type_specification]
#[verifier::external_body]
#[verifier::reject_recursive_types(T)]
pub struct ExAsker<T>(tokio::sync::mpsc::Sender<T>);

/// `tokio::sync::oneshot::Sender`, carried as it is.
#[verifier::external_type_specification]
#[verifier::external_body]
#[verifier::reject_recursive_types(T)]
pub struct ExAnswerSlot<T>(tokio::sync::oneshot::Sender<T>);

/// The side that asks. Its copies share one channel.
#[verifier::reject_recursive_types(Question)]
#[verifier::reject_recursive_types(Answer)]
pub struct RpcHandle<Question, Answer> {
    pub tx: tokio::sync::mpsc::Sender<(Question, tokio::sync::oneshot::Sender<Answer>)>,
}

/// The side that answers; one task owns it.
#[verifier::reject_recursive_types(Question)]
#[verifier::reject_recursive_types(Answer)]
pub struct RpcReceiver<Question, Answer> {
    pub rx: tokio::sync::mpsc::Receiver<(Question, tokio::sync::oneshot::Sender<Answer>)>,
}

/// `tokio::sync::mpsc::channel`: the two ends of a channel that holds up to
/// `buffer` messages. The call panics where `buffer` is zero or above an
/// eighth of what the machine can count.
#[verifier::external_body]
fn channel<T>(buffer: usize) -> (ends: (
    tokio::sync::mpsc::Sender<T>,
    tokio::sync::mpsc::Receiver<T>,
))
    requires
        0 < buffer <= usize::MAX / 8,
{
    tokio::sync::mpsc::channel(buffer)
}

/// `tokio::sync::mpsc::Sender::clone`: another sender of the same channel.
#[verifier::external_body]
fn clone_sender<T>(tx: &tokio::sync::mpsc::Sender<T>) -> (copy: tokio::sync::mpsc::Sender<T>) {
    tx.clone()
}

/// `tokio::sync::mpsc::Receiver::recv`, polled once through
/// `futures::FutureExt::now_or_never`: nothing where no message is ready,
/// else the message, or none where the channel is closed and empty.
#[verifier::external_body]
fn poll_message<T>(rx: &mut tokio::sync::mpsc::Receiver<T>) -> (polled: Option<Option<T>>) {
    rx.recv().now_or_never()
}

/// `tokio::sync::oneshot::Sender::send`: whether the value was handed to the
/// receiving side; it is not where that side is gone.
#[verifier::external_body]
fn send_answer<T>(slot: tokio::sync::oneshot::Sender<T>, answer: T) -> (sent: bool) {
    slot.send(answer).is_ok()
}

/// A handle and a receiver on a new channel.
pub fn rpc<Question, Answer>() -> (ends: (RpcHandle<Question, Answer>, RpcReceiver<Question, Answer>)) {
    let (tx, rx) = channel(BUF_SIZE);
    (RpcHandle { tx }, RpcReceiver { rx })
}

impl<Question, Answer> Clone for RpcHandle<Question, Answer> {
    fn clone(&self) -> (copy: Self) {
        RpcHandle { tx: clone_sender(&self.tx) }
    }
}

/// What a poll that does not wait makes of the channel: `Empty` where no
/// question is ready, `ReceiverClosed` where the channel is closed, else the
/// question.
pub fn polled<T>(message: Option<Option<T>>) -> (taken: Result<T, RpcError>)
    ensures
        taken == match message {
            None => Err::<T, RpcError>(RpcError::Empty),
            Some(None) => Err::<T, RpcError>(RpcError::ReceiverClosed),
            Some(Some(m)) => Ok::<T, RpcError>(m),
        },
{
    match message {
        None => Err(RpcError::Empty),
        Some(None) => Err(RpcError::ReceiverClosed),
        Some(Some(m)) => Ok(m),
    }
}

/// What a poll that waits makes of the channel: `SenderClosed` where the
/// channel is closed, else the question.
pub fn received<T>(message: Option<T>) -> (taken: Result<T, RpcError>)
    ensures
        taken == match message {
            None => Err::<T, RpcError>(RpcError::SenderClosed),
            Some(m) => Ok::<T, RpcError>(m),
        },
{
    match message {
        None => Err(RpcError::SenderClosed),
        Some(m) => Ok(m),
    }
}

/// What a reply comes to: `SenderClosed` where the answer could not be
/// delivered.
pub fn delivered(sent: bool) -> (done: Result<(), RpcError>)
    ensures
        done == if sent {
            Ok::<(), RpcError>(())
        } else {
            Err::<(), RpcError>(RpcError::SenderClosed)
        },
{
    if sent {
        Ok(())
    } else {
        Err(RpcError::SenderClosed)
    }
}

/// What a call comes to: `ReceiverClosed` where the question could not be
/// sent or no answer came.
pub fn called<Answer>(sent: bool, answer: Option<Answer>) -> (got: Result<Answer, RpcError>)
    ensures
        got == match answer {
            Some(a) => if sent {
                Ok::<Answer, RpcError>(a)
            } else {
                Err::<Answer, RpcError>(RpcError::ReceiverClosed)
            },
            None => Err::<Answer, RpcError>(RpcError::ReceiverClosed),
        },
{
    match answer {
        Some(a) => if sent {
            Ok(a)
        } else {
            Err(RpcError::ReceiverClosed)
        },
        None => Err(RpcError::ReceiverClosed),
    }
}

/// Answers `question` with `func` and hands the answer to `slot`:
/// `SenderClosed` where the asker is gone. `func` runs once, on `question`.
pub fn reply_with<Question, Answer, F>(
    question: Question,
    slot: tokio::sync::oneshot::Sender<Answer>,
    func: F,
) -> (done: Result<(), RpcError>) where F: FnOnce(Question) -> Answer
    requires
        func.requires((question,)),
    ensures
        done == Ok::<(), RpcError>(()) || done == Err::<(), RpcError>(RpcError::SenderClosed),
        exists|answer: Answer| func.ensures((question,), answer),
{
    let answer = func(question);
    assert(func.ensures((question,), answer));
    delivered(send_answer(slot, answer))
}

/// What becomes of what a poll that does not wait brought: nothing ready
/// gives `Empty`, a closed channel `ReceiverClosed`, and a question is
/// answered with `func`, which gives `Ok` or, where the asker is gone,
/// `SenderClosed`.
pub fn try_reply<Question, Answer, F>(
    message: Option<Option<(Question, tokio::sync::oneshot::Sender<Answer>)>>,
    func: F,
) -> (done: Result<(), RpcError>) where F: FnOnce(Question) -> Answer
    requires
        forall|q: Question| func.requires((q,)),
    ensures
        match message {
            None => done == Err::<(), RpcError>(RpcError::Empty),
            Some(None) => done == Err::<(), RpcError>(RpcError::ReceiverClosed),
            Some(Some((question, _))) => {
                &&& done == Ok::<(), RpcError>(()) || done == Err::<(), RpcError>(
                    RpcError::SenderClosed,
                )
                &&& exists|answer: Answer| func.ensures((question,), answer)
            },
        },
{
    match polled(message) {
        Err(e) => Err(e),
        Ok((question, slot)) => reply_with(question, slot, func),
    }
}

/// What becomes of what a poll that waits brought: a closed channel gives
/// `SenderClosed`, and a question is answered with `func`, which gives `Ok`
/// or, where the asker is gone, `SenderClosed`.
pub fn reply<Question, Answer, F>(
    message: Option<(Question, tokio::sync::oneshot::Sender<Answer>)>,
    func: F,
) -> (done: Result<(), RpcError>) where F: FnOnce(Question) -> Answer
    requires
        forall|q: Question| func.requires((q,)),
    ensures
        match message {
            None => done == Err::<(), RpcError>(RpcError::SenderClosed),
            Some((question, _)) => {
                &&& done == Ok::<(), RpcError>(()) || done == Err::<(), RpcError>(
                    RpcError::SenderClosed,
                )
                &&& exists|answer: Answer| func.ensures((question,), answer)
            },
        },
{
    match received(message) {
        Err(e) => Err(e),
        Ok((question, slot)) => reply_with(question, slot, func),
    }
}

/// The contract of `func` admits an answer to some question.
pub open spec fn admits_an_answer<Question, Answer, F: FnOnce(Question) -> Answer>(func: F) -> bool {
    exists|question: Question, answer: Answer| #[trigger] func.ensures((question,), answer)
}

impl<Question, Answer> RpcReceiver<Question, Answer> {
    /// Answers one question with `func` if one is ready, without waiting:
    /// polls the channel once and leaves the rest to `try_reply`. Whether a
    /// question is ready is for the channel to say; what is owed whatever it
    /// says is that `Ok` and `SenderClosed` come only after `func` gave an
    /// answer.
    pub fn try_reply_once<F>(&mut self, func: F) -> (done: Result<(), RpcError>)
        where F: FnOnce(Question) -> Answer
        requires
            forall|q: Question| func.requires((q,)),
        ensures
            match done {
                Ok(()) => admits_an_answer(func),
                Err(RpcError::SenderClosed) => admits_an_answer(func),
                Err(RpcError::Empty) => true,
                Err(RpcError::ReceiverClosed) => true,
            },
    {
        try_reply(poll_message(&mut self.rx), func)
    }
}

} // verus!
