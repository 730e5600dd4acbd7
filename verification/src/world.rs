//! What surrounds a bridge task, as a model: the stored resources, the body
//! stream, the completion signal, and the faults that each may have. A task
//! run against the model shows what an upload leaves behind.
//!
//! Nothing here runs. The model says what performing an action means, so
//! that the laws of an upload can be stated and proved of every stream and
//! of every state of the storage.

use crate::bridge::{is_terminal, start, transition, ActionView, EventView, Phase};
use crate::destination::destination_of;
use crate::outcome::{description, OutcomeView, UploadErrorView};
use crate::response::{
    response_for, ResponseView, FAILURE_PREFIX, STATUS_INTERNAL_SERVER_ERROR, STATUS_OK,
};
use vstd::prelude::*;

verus! {

/// A write that is going to fail.
pub struct WriteFault {
    /// How many writes succeed before it.
    pub after: nat,
    /// How many bytes of its chunk are stored all the same.
    pub accepted: nat,
    /// What the storage says of it.
    pub cause: Seq<char>,
}

/// The surroundings of one bridge task.
pub struct World {
    /// The stored resources: content by name.
    pub files: Map<Seq<char>, Seq<u8>>,
    /// The name of the destination that the task holds open, if any.
    pub held: Option<Seq<char>>,
    /// The chunks that the stream has yet to deliver, next one first.
    pub body: Seq<Seq<u8>>,
    /// What the stream fails with behind them, where it does not end.
    pub stream_fault: Option<Seq<char>>,
    /// What opening a destination fails with, where it does.
    pub open_fault: Option<Seq<char>>,
    /// The write that fails, where one does.
    pub write_fault: Option<WriteFault>,
    /// Whether the receiving half of the completion signal is still there.
    pub listening: bool,
    /// The outcomes that the receiving half has got, oldest first.
    pub received: Seq<OutcomeView>,
}

/// The world after `bytes` were given to the destination `name`, and what
/// came of the write. A write that fails leaves the bytes that it accepted.
pub open spec fn perform_write(world: World, name: Seq<char>, bytes: Seq<u8>) -> (
    World,
    EventView,
) {
    let content = world.files[name];
    match world.write_fault {
        None => (
            World { files: world.files.insert(name, content + bytes), ..world },
            EventView::Written,
        ),
        Some(fault) => if fault.after > 0 {
            (
                World {
                    files: world.files.insert(name, content + bytes),
                    write_fault: Some(WriteFault { after: (fault.after - 1) as nat, ..fault }),
                    ..world
                },
                EventView::Written,
            )
        } else {
            (
                World {
                    files: world.files.insert(name, content + partial(fault, bytes)),
                    write_fault: None,
                    ..world
                },
                EventView::WriteFailed(fault.cause),
            )
        },
    }
}

/// The part of `bytes` that a failing write stores.
pub open spec fn partial(fault: WriteFault, bytes: Seq<u8>) -> Seq<u8> {
    if fault.accepted < bytes.len() {
        bytes.take(fault.accepted as int)
    } else {
        bytes
    }
}

/// The world after `action` was performed, and the event that came of it.
/// Opening creates the destination or empties it. Pulling takes the next
/// chunk off the stream. Writing adds to the end of the destination held.
/// Sending reaches the receiving half if it is still there. The last action
/// of a task, and a write with no destination held, have no event.
pub open spec fn perform(world: World, action: ActionView) -> (World, Option<EventView>) {
    match action {
        ActionView::Open(name) => match world.open_fault {
            Some(cause) => (world, Some(EventView::OpenFailed(cause))),
            None => (
                World { files: world.files.insert(name, Seq::empty()), held: Some(name), ..world },
                Some(EventView::Opened),
            ),
        },
        ActionView::Pull => if world.body.len() > 0 {
            (
                World { body: world.body.drop_first(), ..world },
                Some(EventView::Chunk(world.body.first())),
            )
        } else {
            match world.stream_fault {
                Some(cause) => (world, Some(EventView::StreamFailed(cause))),
                None => (world, Some(EventView::EndOfStream)),
            }
        },
        ActionView::Write(bytes) => match world.held {
            Some(name) => {
                let (after, event) = perform_write(world, name, bytes);
                (after, Some(event))
            },
            None => (world, None),
        },
        ActionView::Send(outcome) => if world.listening {
            (
                World { received: world.received.push(outcome), ..world },
                Some(EventView::Delivered),
            )
        } else {
            (world, Some(EventView::Undelivered(outcome)))
        },
        ActionView::Finish => (World { held: None, ..world }, None),
        ActionView::Abort(_) => (World { held: None, ..world }, None),
    }
}

/// How far an action is from the end of a task that pulls nothing more.
pub open spec fn distance(action: ActionView) -> nat {
    match action {
        ActionView::Open(_) => 4,
        ActionView::Write(_) => 3,
        ActionView::Pull => 2,
        ActionView::Send(_) => 1,
        ActionView::Finish => 0,
        ActionView::Abort(_) => 0,
    }
}

/// Where a task in `phase` that asked for `action` ends, and the world that
/// it leaves: the action is performed, the task takes the event and asks for
/// the next action, until no event comes or the task refuses one.
pub open spec fn run(phase: Phase, action: ActionView, world: World) -> (Phase, World)
    decreases world.body.len(), distance(action),
{
    let (after, event) = perform(world, action);
    match event {
        None => (phase, after),
        Some(event) => match transition(phase, event) {
            None => (phase, after),
            Some((next, then)) => run(next, then, after),
        },
    }
}

/// Where the task for the request path `path` ends, and the world that it
/// leaves.
pub open spec fn upload(path: Seq<char>, world: World) -> (Phase, World) {
    let (phase, action) = start(path);
    run(phase, action, world)
}

/// Where a task that has `outcome` to report ends, and the world that it
/// leaves: the outcome reaches the receiving half if that is still there,
/// and the destination is released either way.
spec fn reported(world: World, outcome: OutcomeView) -> (Phase, World) {
    if world.listening {
        (Phase::Finished, World { received: world.received.push(outcome), held: None, ..world })
    } else {
        (Phase::Aborted, World { held: None, ..world })
    }
}

/// The outcome of an upload that meets no fault of the storage: success
/// where the stream ends, else the failure of the stream.
spec fn ending(world: World) -> OutcomeView {
    match world.stream_fault {
        None => Ok(()),
        Some(cause) => Err(UploadErrorView::Stream(cause)),
    }
}

/// Whether the storage lets every destination be opened and takes every
/// byte written.
pub open spec fn storage_is_sound(world: World) -> bool {
    world.open_fault is None && world.write_fault is None
}

/// A task that sends its outcome ends as `reported` says.
proof fn lemma_report(world: World, outcome: OutcomeView)
    ensures
        run(Phase::Reporting, ActionView::Send(outcome), world) == reported(world, outcome),
{
    reveal_with_fuel(run, 3);
}

/// A task that pulls, on storage that takes every byte, adds all that the
/// stream still delivers to the destination and reports how the stream
/// ended.
proof fn lemma_pull(world: World, name: Seq<char>)
    requires
        world.held == Some(name),
        world.files.dom().contains(name),
        world.write_fault is None,
    ensures
        run(Phase::Pulling, ActionView::Pull, world) == reported(
            World {
                files: world.files.insert(name, world.files[name] + world.body.flatten()),
                body: Seq::empty(),
                ..world
            },
            ending(world),
        ),
    decreases world.body.len(),
{
    let expected = World {
        files: world.files.insert(name, world.files[name] + world.body.flatten()),
        body: Seq::empty(),
        ..world
    };
    if world.body.len() == 0 {
        assert(world.files[name] + world.body.flatten() =~= world.files[name]);
        assert(expected.files =~= world.files);
        assert(expected.body =~= world.body);
        assert(expected == world);
        lemma_report(world, ending(world));
        reveal_with_fuel(run, 2);
    } else {
        let chunk = world.body.first();
        let rest = world.body.drop_first();
        let pulled = World { body: rest, ..world };
        let written = World {
            files: world.files.insert(name, world.files[name] + chunk),
            ..pulled
        };
        assert(run(Phase::Pulling, ActionView::Pull, world) == run(
            Phase::Writing,
            ActionView::Write(chunk),
            pulled,
        ));
        assert(run(Phase::Writing, ActionView::Write(chunk), pulled) == run(
            Phase::Pulling,
            ActionView::Pull,
            written,
        ));
        lemma_pull(written, name);
        let reached = World {
            files: written.files.insert(name, written.files[name] + rest.flatten()),
            body: Seq::empty(),
            ..written
        };
        assert((world.files[name] + chunk) + rest.flatten() =~= world.files[name]
            + world.body.flatten());
        assert(reached.files =~= expected.files);
        assert(reached == expected);
    }
}

/// A task that pulls, on storage whose write fails on one of the chunks
/// still to come, stores the chunks before it and what the failing write
/// accepted, pulls nothing after it, and reports the failure of the
/// storage.
proof fn lemma_pull_to_fault(world: World, name: Seq<char>, fault: WriteFault)
    requires
        world.held == Some(name),
        world.files.dom().contains(name),
        world.write_fault == Some(fault),
        fault.after < world.body.len(),
    ensures
        run(Phase::Pulling, ActionView::Pull, world) == reported(
            World {
                files: world.files.insert(
                    name,
                    world.files[name] + world.body.take(fault.after as int).flatten() + partial(
                        fault,
                        world.body[fault.after as int],
                    ),
                ),
                body: world.body.skip(fault.after as int + 1),
                write_fault: None,
                ..world
            },
            Err(UploadErrorView::Storage(fault.cause)),
        ),
    decreases fault.after,
{
    let k = fault.after as int;
    let expected = World {
        files: world.files.insert(
            name,
            world.files[name] + world.body.take(k).flatten() + partial(fault, world.body[k]),
        ),
        body: world.body.skip(k + 1),
        write_fault: None,
        ..world
    };
    let chunk = world.body.first();
    let rest = world.body.drop_first();
    let pulled = World { body: rest, ..world };
    assert(run(Phase::Pulling, ActionView::Pull, world) == run(
        Phase::Writing,
        ActionView::Write(chunk),
        pulled,
    ));
    if k == 0 {
        let failed = World {
            files: world.files.insert(name, world.files[name] + partial(fault, chunk)),
            write_fault: None,
            ..pulled
        };
        let outcome = Err(UploadErrorView::Storage(fault.cause));
        assert(run(Phase::Writing, ActionView::Write(chunk), pulled) == run(
            Phase::Reporting,
            ActionView::Send(outcome),
            failed,
        ));
        lemma_report(failed, outcome);
        assert(world.body.take(0).flatten() =~= Seq::<u8>::empty());
        assert(world.files[name] + world.body.take(0).flatten() =~= world.files[name]);
        assert(rest =~= world.body.skip(1));
        assert(failed.files =~= expected.files);
        assert(failed == expected);
    } else {
        let later = WriteFault { after: (k - 1) as nat, ..fault };
        let written = World {
            files: world.files.insert(name, world.files[name] + chunk),
            write_fault: Some(later),
            ..pulled
        };
        assert(run(Phase::Writing, ActionView::Write(chunk), pulled) == run(
            Phase::Pulling,
            ActionView::Pull,
            written,
        ));
        lemma_pull_to_fault(written, name, later);
        let reached = World {
            files: written.files.insert(
                name,
                written.files[name] + rest.take(k - 1).flatten() + partial(later, rest[k - 1]),
            ),
            body: rest.skip(k),
            write_fault: None,
            ..written
        };
        assert(world.body.take(k).drop_first() =~= rest.take(k - 1));
        assert(world.body.take(k).first() == chunk);
        assert(world.body.take(k).flatten() == chunk + rest.take(k - 1).flatten());
        assert((world.files[name] + chunk) + rest.take(k - 1).flatten() =~= world.files[name]
            + world.body.take(k).flatten());
        assert(rest.skip(k) =~= world.body.skip(k + 1));
        assert(reached.files =~= expected.files);
        assert(reached == expected);
    }
}

/// A task that pulls, on storage whose failing write lies behind all that
/// the stream still delivers, never meets the fault.
proof fn lemma_pull_past_fault(world: World, name: Seq<char>, fault: WriteFault)
    requires
        world.held == Some(name),
        world.write_fault == Some(fault),
        fault.after >= world.body.len(),
    ensures
        ({
            let (phase, after) = run(Phase::Pulling, ActionView::Pull, world);
            &&& phase == reported(world, ending(world)).0
            &&& after.held is None
            &&& after.received == reported(world, ending(world)).1.received
        }),
    decreases world.body.len(),
{
    if world.body.len() == 0 {
        lemma_report(world, ending(world));
        reveal_with_fuel(run, 2);
    } else {
        let chunk = world.body.first();
        let rest = world.body.drop_first();
        let pulled = World { body: rest, ..world };
        let later = WriteFault { after: (fault.after - 1) as nat, ..fault };
        let written = World {
            files: world.files.insert(name, world.files[name] + chunk),
            write_fault: Some(later),
            ..pulled
        };
        assert(run(Phase::Pulling, ActionView::Pull, world) == run(
            Phase::Writing,
            ActionView::Write(chunk),
            pulled,
        ));
        assert(run(Phase::Writing, ActionView::Write(chunk), pulled) == run(
            Phase::Pulling,
            ActionView::Pull,
            written,
        ));
        lemma_pull_past_fault(written, name, later);
    }
}

/// An upload to a path that names a destination, on storage that lets it be
/// opened, runs as a task that pulls with the destination empty in its hand.
proof fn lemma_begin(path: Seq<char>, name: Seq<char>, world: World)
    requires
        destination_of(path) == Some(name),
        world.open_fault is None,
    ensures
        upload(path, world) == run(
            Phase::Pulling,
            ActionView::Pull,
            World { files: world.files.insert(name, Seq::empty()), held: Some(name), ..world },
        ),
{
    reveal_with_fuel(run, 2);
}

/// What an upload on storage that takes every byte comes to.
proof fn lemma_upload_on_sound_storage(path: Seq<char>, name: Seq<char>, world: World)
    requires
        destination_of(path) == Some(name),
        storage_is_sound(world),
    ensures
        upload(path, world) == reported(
            World {
                files: world.files.insert(name, world.body.flatten()),
                held: Some(name),
                body: Seq::empty(),
                ..world
            },
            ending(world),
        ),
{
    let opened = World {
        files: world.files.insert(name, Seq::empty()),
        held: Some(name),
        ..world
    };
    lemma_begin(path, name, world);
    lemma_pull(opened, name);
    let reached = World {
        files: opened.files.insert(name, opened.files[name] + world.body.flatten()),
        body: Seq::empty(),
        ..opened
    };
    let expected = World {
        files: world.files.insert(name, world.body.flatten()),
        held: Some(name),
        body: Seq::empty(),
        ..world
    };
    assert(Seq::<u8>::empty() + world.body.flatten() =~= world.body.flatten());
    assert(reached.files =~= expected.files);
    assert(reached == expected);
}

/// Every upload comes to an end, whatever the stream and the storage do, and
/// tries to send one outcome. Where the receiving half of the signal is
/// there, it gets that one outcome and the task ends as finished. Where it
/// is gone, it gets nothing and the task ends as aborted.
pub proof fn upload_reports_once(path: Seq<char>, world: World)
    ensures
        ({
            let (phase, after) = upload(path, world);
            &&& is_terminal(phase)
            &&& after.held is None
            &&& world.listening ==> phase == Phase::Finished && after.received.len()
                == world.received.len() + 1 && after.received.drop_last() == world.received
            &&& !world.listening ==> phase == Phase::Aborted && after.received == world.received
        }),
{
    match destination_of(path) {
        None => {
            lemma_report(world, Err(UploadErrorView::Path));
        },
        Some(name) => {
            match world.open_fault {
                Some(cause) => {
                    lemma_report(world, Err(UploadErrorView::Storage(cause)));
                    reveal_with_fuel(run, 2);
                },
                None => {
                    let opened = World {
                        files: world.files.insert(name, Seq::empty()),
                        held: Some(name),
                        ..world
                    };
                    lemma_begin(path, name, world);
                    match world.write_fault {
                        Some(fault) => {
                            if fault.after < world.body.len() {
                                lemma_pull_to_fault(opened, name, fault);
                            } else {
                                lemma_pull_past_fault(opened, name, fault);
                            }
                        },
                        None => {
                            lemma_pull(opened, name);
                        },
                    }
                },
            }
        },
    }
    let (phase, after) = upload(path, world);
    if world.listening {
        assert(after.received.drop_last() =~= world.received);
    }
}

/// An upload whose stream delivers its chunks and ends, on storage that
/// takes every byte: the destination holds the chunks joined in the order
/// of their arrival, whatever it held before, and no other resource has
/// changed. The outcome is success, and the response to it is 200 without a
/// body.
pub proof fn upload_stores_the_body(path: Seq<char>, name: Seq<char>, world: World)
    requires
        destination_of(path) == Some(name),
        world.stream_fault is None,
        storage_is_sound(world),
    ensures
        ({
            let (phase, after) = upload(path, world);
            &&& after.files == world.files.insert(name, world.body.flatten())
            &&& after.body.len() == 0
            &&& world.listening ==> after.received == world.received.push(Ok(()))
            &&& response_for(Some(Ok(()))) == ResponseView { status: STATUS_OK, body: Seq::empty() }
        }),
{
    lemma_upload_on_sound_storage(path, name, world);
}

/// An upload whose stream delivers some chunks and then fails, on storage
/// that takes every byte: the destination holds the chunks that came before
/// the failure, joined in the order of their arrival, and nothing else. The
/// outcome is the failure of the stream, and the response to it is 500 with
/// that failure described.
pub proof fn upload_keeps_what_came_before_a_stream_failure(
    path: Seq<char>,
    name: Seq<char>,
    cause: Seq<char>,
    world: World,
)
    requires
        destination_of(path) == Some(name),
        world.stream_fault == Some(cause),
        storage_is_sound(world),
    ensures
        ({
            let (phase, after) = upload(path, world);
            let outcome = Err(UploadErrorView::Stream(cause));
            &&& after.files == world.files.insert(name, world.body.flatten())
            &&& after.body.len() == 0
            &&& world.listening ==> after.received == world.received.push(outcome)
            &&& response_for(Some(outcome)) == ResponseView {
                status: STATUS_INTERNAL_SERVER_ERROR,
                body: FAILURE_PREFIX@ + description(UploadErrorView::Stream(cause)),
            }
        }),
{
    lemma_upload_on_sound_storage(path, name, world);
}

/// An upload of an empty body that ends: the destination exists and is
/// empty afterwards, whatever it held before. The outcome is success.
pub proof fn empty_upload_leaves_an_empty_destination(
    path: Seq<char>,
    name: Seq<char>,
    world: World,
)
    requires
        destination_of(path) == Some(name),
        world.body.len() == 0,
        world.stream_fault is None,
        storage_is_sound(world),
    ensures
        ({
            let (phase, after) = upload(path, world);
            &&& after.files.dom().contains(name)
            &&& after.files[name] == Seq::<u8>::empty()
            &&& after.files == world.files.insert(name, Seq::empty())
            &&& world.listening ==> after.received == world.received.push(Ok(()))
            &&& response_for(Some(Ok(()))).status == STATUS_OK
        }),
{
    lemma_upload_on_sound_storage(path, name, world);
    assert(world.body.flatten() =~= Seq::<u8>::empty());
}

/// The same successful upload made twice leaves what it left the first
/// time: the second replaces the content of the destination by the same
/// content and adds nothing to it.
pub proof fn upload_again_changes_nothing(path: Seq<char>, name: Seq<char>, world: World)
    requires
        destination_of(path) == Some(name),
        world.stream_fault is None,
        storage_is_sound(world),
    ensures
        ({
            let (first, once) = upload(path, world);
            let (second, twice) = upload(path, World { body: world.body, ..once });
            &&& twice.files == once.files
            &&& twice.files[name] == world.body.flatten()
        }),
{
    lemma_upload_on_sound_storage(path, name, world);
    let (first, once) = upload(path, world);
    let again = World { body: world.body, ..once };
    lemma_upload_on_sound_storage(path, name, again);
    let (second, twice) = upload(path, again);
    assert(twice.files =~= once.files);
}

/// An upload to a path that names no destination touches no resource and
/// pulls nothing from the stream. The outcome is the path failure, and the
/// response to it is 500.
pub proof fn upload_without_a_name_touches_nothing(path: Seq<char>, world: World)
    requires
        destination_of(path) is None,
    ensures
        ({
            let (phase, after) = upload(path, world);
            let outcome = Err(UploadErrorView::Path);
            &&& after.files == world.files
            &&& after.body == world.body
            &&& world.listening ==> after.received == world.received.push(outcome)
            &&& response_for(Some(outcome)).status == STATUS_INTERNAL_SERVER_ERROR
        }),
{
    lemma_report(world, Err(UploadErrorView::Path));
}

/// An upload whose destination cannot be opened pulls nothing from the
/// stream and changes no resource. The outcome is the failure of the
/// storage.
pub proof fn failed_open_consumes_nothing(
    path: Seq<char>,
    name: Seq<char>,
    cause: Seq<char>,
    world: World,
)
    requires
        destination_of(path) == Some(name),
        world.open_fault == Some(cause),
    ensures
        ({
            let (phase, after) = upload(path, world);
            let outcome = Err(UploadErrorView::Storage(cause));
            &&& after.files == world.files
            &&& after.body == world.body
            &&& world.listening ==> after.received == world.received.push(outcome)
            &&& response_for(Some(outcome)).status == STATUS_INTERNAL_SERVER_ERROR
        }),
{
    lemma_report(world, Err(UploadErrorView::Storage(cause)));
    reveal_with_fuel(run, 2);
}

/// An upload that meets a failing write stops there: the destination holds
/// the chunks written before, and of the failing chunk what the storage
/// accepted; the chunks behind it stay in the stream, unpulled. The outcome
/// is the failure of the storage.
pub proof fn failed_write_ends_the_consumption(
    path: Seq<char>,
    name: Seq<char>,
    fault: WriteFault,
    world: World,
)
    requires
        destination_of(path) == Some(name),
        world.open_fault is None,
        world.write_fault == Some(fault),
        fault.after < world.body.len(),
    ensures
        ({
            let (phase, after) = upload(path, world);
            let outcome = Err(UploadErrorView::Storage(fault.cause));
            let k = fault.after as int;
            &&& after.files == world.files.insert(
                name,
                world.body.take(k).flatten() + partial(fault, world.body[k]),
            )
            &&& after.body == world.body.skip(k + 1)
            &&& world.listening ==> after.received == world.received.push(outcome)
            &&& response_for(Some(outcome)).status == STATUS_INTERNAL_SERVER_ERROR
        }),
{
    let opened = World {
        files: world.files.insert(name, Seq::empty()),
        held: Some(name),
        ..world
    };
    lemma_begin(path, name, world);
    lemma_pull_to_fault(opened, name, fault);
    let k = fault.after as int;
    let (phase, after) = upload(path, world);
    assert(Seq::<u8>::empty() + world.body.take(k).flatten() =~= world.body.take(k).flatten());
    assert(after.files =~= world.files.insert(
        name,
        world.body.take(k).flatten() + partial(fault, world.body[k]),
    ));
}

} // verus!
