//! The dispatcher: the one place where queued commands are carried out, one
//! after the other, in the order in which they were queued.

use crate::client::ClientView;
use crate::command::{
    answers, execute, parse_command, planned, reply_views, resolve_verb, ReplyView,
};
use crate::engine::ServerEngine;
use crate::message::CmdMessage;
use crate::model::{lemma_delivered_wf, EngineView};
use vstd::prelude::*;

verus! {

/// Whether `after` is `plain` but for the inbox of the client `id`, which
/// has gained the server's message for each of `replies`, in their order.
pub open spec fn answered(
    plain: EngineView,
    after: EngineView,
    id: usize,
    replies: Seq<ReplyView>,
) -> bool {
    let had = plain.clients[id as int].inbox;
    let got = after.clients[id as int].inbox;
    &&& after == (EngineView {
        clients: plain.clients.update(id as int, ClientView { inbox: got, ..plain.clients[id as int] }),
        ..plain
    })
    &&& got.len() == had.len() + replies.len()
    &&& got.take(had.len() as int) == had
    &&& forall|i: int| 0 <= i < replies.len() ==> answers(got[had.len() + i], #[trigger] replies[i])
}

/// Whether `next` is what `e` becomes when its oldest queued command is
/// taken off the bus and carried out, and the client that issued it is
/// answered.
pub open spec fn steps_to(e: EngineView, next: EngineView) -> bool {
    &&& e.commands.len() > 0
    &&& answered(
        planned(e.popped(), e.commands[0].id, e.commands[0].payload).engine,
        next,
        e.commands[0].id,
        planned(e.popped(), e.commands[0].id, e.commands[0].payload).replies,
    )
}

/// Whether `last` is what `e` becomes when its queued commands are carried
/// out one by one, oldest first, until none is left.
pub open spec fn drains_to(e: EngineView, last: EngineView) -> bool
    decreases e.commands.len(),
{
    if e.commands.len() == 0 {
        last == e
    } else {
        exists|next: EngineView| #[trigger]
            steps_to(e, next) && next.commands.len() < e.commands.len() && drains_to(next, last)
    }
}

/// Carries out the command `cmd` and answers the client that issued it.
pub fn dispatch(engine: &mut ServerEngine, cmd: CmdMessage)
    requires
        old(engine).wf(),
        old(engine)@.knows(cmd@.id),
    ensures
        final(engine).wf(),
        answered(
            planned(old(engine)@, cmd@.id, cmd@.payload).engine,
            final(engine)@,
            cmd@.id,
            planned(old(engine)@, cmd@.id, cmd@.payload).replies,
        ),
        final(engine)@.clients.len() == old(engine)@.clients.len(),
        final(engine)@.channels.len() >= old(engine)@.channels.len(),
        final(engine)@.commands == old(engine)@.commands,
{
    let id = cmd.id;
    let request = parse_command(cmd.payload.as_str());
    let verb = resolve_verb(request.verb.as_str());
    let replies = execute(engine, id, verb, &request);
    let ghost plain = engine@;
    let ghost had = plain.clients[id as int].inbox;
    let ghost plan = reply_views(replies@);
    let mut i: usize = 0;
    proof {
        assert(plain.clients =~= plain.clients.update(id as int, plain.clients[id as int]));
        assert(had.take(had.len() as int) =~= had);
    }
    while i < replies.len()
        invariant
            i <= replies.len(),
            plain.knows(id),
            plan == reply_views(replies@),
            had == plain.clients[id as int].inbox,
            engine.wf(),
            answered(plain, engine@, id, plan.take(i as int)),
        decreases replies.len() - i,
    {
        let msg = replies[i].render();
        let ghost before = engine@;
        proof {
            lemma_delivered_wf(before, id, msg@);
        }
        engine.deliver(id, msg);
        proof {
            let got = engine@.clients[id as int].inbox;
            assert(got.take(had.len() as int) =~= had);
            assert(engine@.clients =~= plain.clients.update(
                id as int,
                ClientView { inbox: got, ..plain.clients[id as int] },
            ));
        }
        i += 1;
    }
    assert(plan.take(i as int) =~= plan);
}

/// Carries out every queued command, oldest first, and answers each client
/// through its inbound bus. The command bus is empty afterwards.
pub fn handle_service_bus(engine: &mut ServerEngine)
    requires
        old(engine).wf(),
    ensures
        final(engine).wf(),
        final(engine)@.commands.len() == 0,
        drains_to(old(engine)@, final(engine)@),
        final(engine)@.clients.len() == old(engine)@.clients.len(),
        final(engine)@.channels.len() >= old(engine)@.channels.len(),
{
    loop
        invariant
            engine.wf(),
            engine@.clients.len() == old(engine)@.clients.len(),
            engine@.channels.len() >= old(engine)@.channels.len(),
            forall|last: EngineView| #[trigger]
                drains_to(engine@, last) ==> drains_to(old(engine)@, last),
        ensures
            engine.wf(),
            engine@.commands.len() == 0,
            drains_to(old(engine)@, engine@),
            engine@.clients.len() == old(engine)@.clients.len(),
            engine@.channels.len() >= old(engine)@.channels.len(),
        decreases engine@.commands.len(),
    {
        let ghost before = engine@;
        match engine.next_command() {
            None => {
                assert(drains_to(before, before));
                break ;
            },
            Some(cmd) => {
                dispatch(engine, cmd);
                proof {
                    let next = engine@;
                    assert forall|last: EngineView| #[trigger]
                        drains_to(next, last) implies drains_to(old(engine)@, last) by {
                        assert(steps_to(before, next) && next.commands.len()
                            < before.commands.len() && drains_to(next, last));
                        assert(drains_to(before, last));
                    }
                }
            },
        }
    }
}

} // verus!
