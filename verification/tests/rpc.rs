use bcdn::rpc::{
    called, delivered, polled, received, reply, reply_with, rpc, try_reply, RpcError, BUF_SIZE,
};
use tokio::sync::oneshot;

#[derive(Clone)]
enum Q {
    Ping(u32),
    Quit,
}

#[derive(PartialEq, Debug, Clone)]
enum A {
    Pong(u32),
    Done,
}

#[test]
fn basic_test() {
    let (tx, mut rx) = rpc();
    let mut cont = true;
    let mut ask = |q: Q, cont: &mut bool| {
        let (slot, mut answer) = oneshot::channel();
        assert!(tx.clone().tx.try_send((q, slot)).is_ok());
        rx.try_reply_once(|q| match q {
            Q::Ping(value) => A::Pong(value),
            Q::Quit => {
                *cont = false;
                A::Done
            }
        })
        .unwrap();
        answer.try_recv().unwrap()
    };
    assert_eq!(ask(Q::Ping(1), &mut cont), A::Pong(1));
    for i in 0..1024 * 100 {
        assert_eq!(ask(Q::Ping(i), &mut cont), A::Pong(i));
    }
    assert!(cont);
    assert_eq!(ask(Q::Quit, &mut cont), A::Done);
    assert!(!cont);
}

#[test]
fn try_reply_once_without_a_question() {
    let (tx, mut rx) = rpc::<u32, u32>();
    assert_eq!(rx.try_reply_once(|q| q + 1), Err(RpcError::Empty));
    drop(tx);
    assert_eq!(rx.try_reply_once(|q| q + 1), Err(RpcError::ReceiverClosed));
}

#[test]
fn try_reply_once_answers_in_order() {
    let (tx, mut rx) = rpc::<u32, u32>();
    let (first, mut first_answer) = oneshot::channel();
    let (second, mut second_answer) = oneshot::channel();
    tx.tx.try_send((10, first)).unwrap();
    tx.clone().tx.try_send((20, second)).unwrap();
    assert_eq!(rx.try_reply_once(|q| q + 1), Ok(()));
    assert_eq!(first_answer.try_recv(), Ok(11));
    assert!(second_answer.try_recv().is_err());
    assert_eq!(rx.try_reply_once(|q| q * 2), Ok(()));
    assert_eq!(second_answer.try_recv(), Ok(40));
    assert_eq!(rx.try_reply_once(|q| q), Err(RpcError::Empty));
}

#[test]
fn try_reply_once_to_a_caller_that_left() {
    let (tx, mut rx) = rpc::<u32, u32>();
    let (slot, answer) = oneshot::channel();
    tx.tx.try_send((1, slot)).unwrap();
    drop(answer);
    let mut ran = false;
    assert_eq!(
        rx.try_reply_once(|q| {
            ran = true;
            q
        }),
        Err(RpcError::SenderClosed)
    );
    assert!(ran);
}

#[test]
fn four_questions_can_wait() {
    assert_eq!(BUF_SIZE, 4);
    let (tx, mut rx) = rpc::<u32, u32>();
    let mut answers = Vec::new();
    for i in 0..4 {
        let (slot, answer) = oneshot::channel();
        assert!(tx.tx.try_send((i, slot)).is_ok());
        answers.push(answer);
    }
    let (slot, _answer) = oneshot::channel();
    assert!(tx.tx.try_send((4, slot)).is_err());
    for i in 0..4 {
        assert_eq!(rx.try_reply_once(|q| q + 100), Ok(()));
        assert_eq!(answers[i].try_recv(), Ok(i as u32 + 100));
    }
}

#[test]
fn outcomes_of_channel_events() {
    assert_eq!(polled::<u32>(None), Err(RpcError::Empty));
    assert_eq!(polled::<u32>(Some(None)), Err(RpcError::ReceiverClosed));
    assert_eq!(polled(Some(Some(3))), Ok(3));
    assert_eq!(received::<u32>(None), Err(RpcError::SenderClosed));
    assert_eq!(received(Some(3)), Ok(3));
    assert_eq!(delivered(true), Ok(()));
    assert_eq!(delivered(false), Err(RpcError::SenderClosed));
    assert_eq!(called(true, Some(3)), Ok(3));
    assert_eq!(called(false, Some(3)), Err(RpcError::ReceiverClosed));
    assert_eq!(called::<u32>(true, None), Err(RpcError::ReceiverClosed));
}

#[test]
fn reply_with_hands_the_answer_over() {
    let (slot, mut answer) = oneshot::channel();
    assert_eq!(reply_with(20u32, slot, |q| q + 1), Ok(()));
    assert_eq!(answer.try_recv(), Ok(21));
    let (slot, answer) = oneshot::channel::<u32>();
    drop(answer);
    let mut ran = 0;
    assert_eq!(
        reply_with(20u32, slot, |q| {
            ran += 1;
            q
        }),
        Err(RpcError::SenderClosed)
    );
    assert_eq!(ran, 1);
}

#[test]
fn try_reply_for_each_outcome_of_a_poll() {
    let mut ran = 0;
    assert_eq!(
        try_reply::<u32, u32, _>(None, |q| {
            ran += 1;
            q
        }),
        Err(RpcError::Empty)
    );
    assert_eq!(
        try_reply::<u32, u32, _>(Some(None), |q| {
            ran += 1;
            q
        }),
        Err(RpcError::ReceiverClosed)
    );
    assert_eq!(ran, 0);
    let (slot, mut answer) = oneshot::channel();
    assert_eq!(
        try_reply(Some(Some((7u32, slot))), |q| {
            ran += 1;
            q * 3
        }),
        Ok(())
    );
    assert_eq!(ran, 1);
    assert_eq!(answer.try_recv(), Ok(21));
    let (slot, answer) = oneshot::channel::<u32>();
    drop(answer);
    assert_eq!(try_reply(Some(Some((7u32, slot))), |q| q), Err(RpcError::SenderClosed));
}

#[test]
fn reply_for_each_outcome_of_a_wait() {
    let mut ran = 0;
    assert_eq!(
        reply::<u32, u32, _>(None, |q| {
            ran += 1;
            q
        }),
        Err(RpcError::SenderClosed)
    );
    assert_eq!(ran, 0);
    let (slot, mut answer) = oneshot::channel();
    assert_eq!(reply(Some((7u32, slot)), |q| q + 1), Ok(()));
    assert_eq!(answer.try_recv(), Ok(8));
    let (slot, answer) = oneshot::channel::<u32>();
    drop(answer);
    assert_eq!(reply(Some((7u32, slot)), |q| q), Err(RpcError::SenderClosed));
}
