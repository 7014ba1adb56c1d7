//! What becomes of a message for a subchannel, of the IPC senders that it names
//! and of the subsenders in it.

use crate::mux::demux::{
    data_sorted, failures, message_handled, named_in, names_of, protos_of, receivable,
    recorded_after, releases, resolved, resolved_all, to_connect, Connection, DemuxerView, Effect,
    Handled, MailboxMap, ProtoSender, Resolutions, ResolvedMessage, ResolvedMessageOrDisconnect,
    Strictness,
};
use crate::mux::error::{MuxError, MuxErrorView};
use crate::mux::laws::lemma_failures_at;
use crate::mux::mailbox::{accepts, delivered, MailboxId};
use crate::mux::protocol::{Attachments, IpcSenderAndOrId, MultiMessage, SubChannelId};
use crate::mux::receiver::{receiver_handled, MultiReceiverView};
use crate::mux::sender::{Outgoing, SubChannelDisconnector};
use crate::mux::subchannel_router::select::{selectable_handled, SelectableView, SetId};
use crate::mux::uuids::{hyphenated, parsed_uuid, Uuid};
use vstd::prelude::*;

verus! {

/// How many of the first names come with the sender itself.
pub open spec fn brought_by(named: Seq<IpcSenderAndOrId>, n: int) -> nat
    decreases n,
{
    if n <= 0 {
        0
    } else {
        brought_by(named, n - 1) + if named[n - 1] is IpcSender {
            1nat
        } else {
            0
        }
    }
}

/// The UUID that comes with, or stands for, an IPC sender, as text.
pub open spec fn text_of(named: IpcSenderAndOrId) -> Seq<char> {
    match named {
        IpcSenderAndOrId::IpcSender(_, text) => text@,
        IpcSenderAndOrId::IpcSenderId(text) => text@,
    }
}

/// One of the first names comes with the sender itself, under the given UUID.
pub open spec fn brings_uuid(named: Seq<IpcSenderAndOrId>, n: int, uuid: Uuid) -> bool {
    exists|j: int|
        {
            &&& 0 <= j < n
            &&& (#[trigger] named[j]) is IpcSender
            &&& parsed_uuid(text_of(named[j])) == Ok::<Uuid, Seq<char>>(uuid)
        }
}

/// A name can be resolved: its text is a UUID, and the sender has been connected
/// or has been received before under the UUID, be it in the same message.
pub open spec fn name_resolves(
    senders: Map<Uuid, Connection>,
    named: Seq<IpcSenderAndOrId>,
    outcomes: Seq<Result<Connection, MuxError>>,
    i: int,
) -> bool {
    match parsed_uuid(text_of(named[i])) {
        Ok(uuid) => if named[i] is IpcSender {
            brought_by(named, i) < outcomes.len() && outcomes[brought_by(named, i) as int] is Ok
        } else {
            senders.contains_key(uuid) || brings_uuid(named, i, uuid)
        },
        Err(_) => false,
    }
}

/// A name cannot be resolved, for the given reason.
pub open spec fn name_fails(
    senders: Map<Uuid, Connection>,
    named: Seq<IpcSenderAndOrId>,
    outcomes: Seq<Result<Connection, MuxError>>,
    i: int,
    reason: MuxErrorView,
) -> bool {
    match parsed_uuid(text_of(named[i])) {
        Ok(uuid) => if named[i] is IpcSender {
            &&& brought_by(named, i) < outcomes.len()
            &&& outcomes[brought_by(named, i) as int] matches Err(e)
            &&& e@ == reason
        } else {
            &&& !senders.contains_key(uuid)
            &&& !brings_uuid(named, i, uuid)
            &&& reason == MuxErrorView::Disconnected
        },
        Err(text) => reason == MuxErrorView::InternalError("invalid UUID: "@ + text),
    }
}

/// What a name that could be resolved stands for: the connection of the sender
/// that came with it, or the one that is known under the UUID afterwards.
pub open spec fn name_means(
    named: Seq<IpcSenderAndOrId>,
    outcomes: Seq<Result<Connection, MuxError>>,
    senders_after: Map<Uuid, Connection>,
    i: int,
    connection: Connection,
) -> bool {
    if named[i] is IpcSender {
        outcomes[brought_by(named, i) as int] == Ok::<Connection, MuxError>(connection)
    } else {
        let uuid = parsed_uuid(text_of(named[i]))->Ok_0;
        senders_after.contains_key(uuid) && senders_after[uuid] == connection
    }
}

/// The senders that came with the first names are known under their UUIDs,
/// except that the first one under a UUID stays.
pub open spec fn senders_received(
    senders: Map<Uuid, Connection>,
    named: Seq<IpcSenderAndOrId>,
    outcomes: Seq<Result<Connection, MuxError>>,
    n: int,
    senders_after: Map<Uuid, Connection>,
) -> bool {
    &&& forall|uuid: Uuid| #[trigger]
        senders_after.contains_key(uuid) == (senders.contains_key(uuid) || brings_uuid(
            named,
            n,
            uuid,
        ))
    &&& forall|uuid: Uuid| #[trigger]
        senders.contains_key(uuid) ==> senders_after[uuid] == senders[uuid]
    &&& forall|i: int|
        #![trigger named[i]]
        {
            let uuid = parsed_uuid(text_of(named[i]))->Ok_0;
            0 <= i < n && named[i] is IpcSender && !senders.contains_key(uuid) && !brings_uuid(
                named,
                i,
                uuid,
            ) ==> outcomes[brought_by(named, i) as int] == Ok::<Connection, MuxError>(
                senders_after[uuid],
            )
        }
}

proof fn lemma_prefix(named: Seq<IpcSenderAndOrId>, n: int)
    requires
        named.len() > 0,
        0 <= n <= named.len() - 1,
    ensures
        brought_by(named.drop_last(), n) == brought_by(named, n),
        forall|uuid: Uuid| #[trigger]
            brings_uuid(named.drop_last(), n, uuid) == brings_uuid(named, n, uuid),
    decreases n,
{
    if n > 0 {
        lemma_prefix(named, n - 1);
    }
    assert forall|uuid: Uuid| #[trigger]
        brings_uuid(named.drop_last(), n, uuid) == brings_uuid(named, n, uuid) by {
        if brings_uuid(named.drop_last(), n, uuid) {
            let j = choose|j: int|
                {
                    &&& 0 <= j < n
                    &&& (#[trigger] named.drop_last()[j]) is IpcSender
                    &&& parsed_uuid(text_of(named.drop_last()[j])) == Ok::<Uuid, Seq<char>>(uuid)
                };
            assert(named[j] == named.drop_last()[j]);
        }
        if brings_uuid(named, n, uuid) {
            let j = choose|j: int|
                {
                    &&& 0 <= j < n
                    &&& (#[trigger] named[j]) is IpcSender
                    &&& parsed_uuid(text_of(named[j])) == Ok::<Uuid, Seq<char>>(uuid)
                };
            assert(named.drop_last()[j] == named[j]);
        }
    }
}

proof fn lemma_resolved_prefix(
    senders: Map<Uuid, Connection>,
    named: Seq<IpcSenderAndOrId>,
    outcomes: Seq<Result<Connection, MuxError>>,
)
    requires
        forall|i: int|
            #![trigger named[i]]
            0 <= i < named.len() ==> name_resolves(senders, named, outcomes, i),
    ensures
        ({
            let after = resolved_all(senders, named, outcomes);
            &&& after.error is None
            &&& after.connections.len() == named.len()
            &&& brought_by(named, named.len() as int) <= outcomes.len()
            &&& after.outcomes == outcomes.skip(brought_by(named, named.len() as int) as int)
            &&& senders_received(senders, named, outcomes, named.len() as int, after.senders)
            &&& forall|i: int|
                #![trigger after.connections[i]]
                0 <= i < named.len() ==> name_means(
                    named,
                    outcomes,
                    after.senders,
                    i,
                    after.connections[i],
                )
        }),
    decreases named.len(),
{
    let n = named.len() as int;
    let after = resolved_all(senders, named, outcomes);
    if n == 0 {
        assert(outcomes.skip(0) =~= outcomes);
    } else {
        let earlier = named.drop_last();
        lemma_prefix(named, n - 1);
        assert forall|i: int| #![trigger earlier[i]] 0 <= i < earlier.len() implies name_resolves(
            senders,
            earlier,
            outcomes,
            i,
        ) by {
            assert(earlier[i] == named[i]);
            lemma_prefix(named, i);
        }
        lemma_resolved_prefix(senders, earlier, outcomes);
        let before = resolved_all(senders, earlier, outcomes);
        let last = named[n - 1];
        assert(name_resolves(senders, named, outcomes, n - 1));
        let taken = brought_by(named, n - 1);
        let uuid = parsed_uuid(text_of(last))->Ok_0;
        assert(after == ({
            let r = resolved(before.senders, named.last(), before.outcomes);
            Resolutions {
                connections: before.connections.push(r.connection->Ok_0),
                error: None,
                senders: r.senders,
                outcomes: r.outcomes,
            }
        })) by {
            if last is IpcSender {
                assert(before.outcomes[0] == outcomes[taken as int]);
            } else {
                assert(before.senders.contains_key(uuid));
            }
        }
        if last is IpcSender {
            assert(before.outcomes[0] == outcomes[taken as int]);
            assert(before.outcomes.drop_first() =~= outcomes.skip((taken + 1) as int));
        }
        assert forall|u: Uuid| #[trigger]
            after.senders.contains_key(u) == (senders.contains_key(u) || brings_uuid(
                named,
                n,
                u,
            )) by {
            assert(before.senders.contains_key(u) == (senders.contains_key(u) || brings_uuid(
                earlier,
                n - 1,
                u,
            )));
            assert(brings_uuid(earlier, n - 1, u) == brings_uuid(named, n - 1, u));
            if brings_uuid(named, n - 1, u) {
                let j = choose|j: int|
                    {
                        &&& 0 <= j < n - 1
                        &&& (#[trigger] named[j]) is IpcSender
                        &&& parsed_uuid(text_of(named[j])) == Ok::<Uuid, Seq<char>>(u)
                    };
                assert(named[j] is IpcSender);
            }
            if brings_uuid(named, n, u) {
                let j = choose|j: int|
                    {
                        &&& 0 <= j < n
                        &&& (#[trigger] named[j]) is IpcSender
                        &&& parsed_uuid(text_of(named[j])) == Ok::<Uuid, Seq<char>>(u)
                    };
                if j < n - 1 {
                    assert(named[j] is IpcSender);
                }
            }
            if last is IpcSender && u == uuid {
                assert(named[n - 1] is IpcSender);
            }
        }
        assert forall|u: Uuid| #[trigger] senders.contains_key(u) implies after.senders[u]
            == senders[u] by {
            assert(before.senders.contains_key(u));
        }
        assert forall|i: int| #![trigger named[i]]
            {
                let u = parsed_uuid(text_of(named[i]))->Ok_0;
                0 <= i < n && named[i] is IpcSender && !senders.contains_key(u) && !brings_uuid(
                    named,
                    i,
                    u,
                ) ==> outcomes[brought_by(named, i) as int] == Ok::<Connection, MuxError>(
                    after.senders[u],
                )
            } by {
            let u = parsed_uuid(text_of(named[i]))->Ok_0;
            if 0 <= i < n && named[i] is IpcSender && !senders.contains_key(u) && !brings_uuid(
                named,
                i,
                u,
            ) {
                assert(name_resolves(senders, named, outcomes, i));
                lemma_prefix(named, i);
                if i < n - 1 {
                    assert(earlier[i] == named[i]);
                    assert(brings_uuid(earlier, n - 1, u));
                    assert(before.senders.contains_key(u));
                    assert(after.senders[u] == before.senders[u]);
                } else {
                    assert(!brings_uuid(earlier, n - 1, u));
                    assert(!before.senders.contains_key(u));
                }
            }
        }
        assert forall|i: int| #![trigger after.connections[i]] 0 <= i < n implies name_means(
            named,
            outcomes,
            after.senders,
            i,
            after.connections[i],
        ) by {
            lemma_prefix(named, if i < n - 1 {
                i
            } else {
                n - 1
            });
            if i < n - 1 {
                assert(earlier[i] == named[i]);
                assert(after.connections[i] == before.connections[i]);
                assert(name_means(earlier, outcomes, before.senders, i, before.connections[i]));
            }
        }
    }
}

proof fn lemma_resolved_fails(
    senders: Map<Uuid, Connection>,
    named: Seq<IpcSenderAndOrId>,
    outcomes: Seq<Result<Connection, MuxError>>,
    n: int,
    reason: MuxErrorView,
)
    requires
        0 <= n < named.len(),
        forall|i: int|
            #![trigger named[i]]
            0 <= i < n ==> name_resolves(senders, named, outcomes, i),
        name_fails(senders, named, outcomes, n, reason),
    ensures
        ({
            let after = resolved_all(senders, named, outcomes);
            let resolved = resolved_all(senders, named.take(n), outcomes);
            &&& after.error == Some(reason)
            &&& after.connections == resolved.connections
            &&& after.senders == resolved.senders
        }),
    decreases named.len(),
{
    let earlier = named.drop_last();
    lemma_prefix(named, n);
    if n < named.len() - 1 {
        assert forall|i: int| #![trigger earlier[i]] 0 <= i < n implies name_resolves(
            senders,
            earlier,
            outcomes,
            i,
        ) by {
            assert(earlier[i] == named[i]);
            lemma_prefix(named, i);
        }
        assert(earlier[n] == named[n]);
        assert(name_fails(senders, earlier, outcomes, n, reason));
        lemma_resolved_fails(senders, earlier, outcomes, n, reason);
        assert(earlier.take(n) =~= named.take(n));
    } else {
        assert(named.take(n) =~= earlier);
        assert forall|i: int| #![trigger earlier[i]] 0 <= i < earlier.len() implies name_resolves(
            senders,
            earlier,
            outcomes,
            i,
        ) by {
            assert(earlier[i] == named[i]);
            lemma_prefix(named, i);
        }
        lemma_resolved_prefix(senders, earlier, outcomes);
        let before = resolved_all(senders, earlier, outcomes);
        let last = named[n];
        match parsed_uuid(text_of(last)) {
            Ok(uuid) => {
                if last is IpcSender {
                    assert(before.outcomes[0] == outcomes[brought_by(named, n) as int]);
                } else {
                    assert(before.senders.contains_key(uuid) == (senders.contains_key(uuid)
                        || brings_uuid(earlier, n, uuid)));
                }
            },
            Err(_) => {},
        }
    }
}

/// The names in a message up to the first one that cannot be resolved, if there
/// is one.
pub open spec fn resolves_up_to(
    senders: Map<Uuid, Connection>,
    named: Seq<IpcSenderAndOrId>,
    outcomes: Seq<Result<Connection, MuxError>>,
    n: int,
    reason: Option<MuxErrorView>,
) -> bool {
    &&& 0 <= n <= named.len()
    &&& forall|i: int|
        #![trigger named[i]]
        0 <= i < n ==> name_resolves(senders, named, outcomes, i)
    &&& match reason {
        Some(reason) => n < named.len() && name_fails(senders, named, outcomes, n, reason),
        None => n == named.len(),
    }
}

/// The IPC senders that a message names are resolved one by one. Each stands for
/// the connection of the sender that came with it, or for the one known under
/// its UUID. A sender that came with its UUID is known under it from then on,
/// unless another one is. The first name that cannot be resolved ends it, with
/// the reason for that.
pub proof fn law_names_are_resolved_in_order(
    senders: Map<Uuid, Connection>,
    named: Seq<IpcSenderAndOrId>,
    outcomes: Seq<Result<Connection, MuxError>>,
    n: int,
    reason: Option<MuxErrorView>,
)
    requires
        resolves_up_to(senders, named, outcomes, n, reason),
    ensures
        ({
            let after = resolved_all(senders, named, outcomes);
            &&& after.error == reason
            &&& after.connections.len() == n
            &&& senders_received(senders, named, outcomes, n, after.senders)
            &&& forall|i: int|
                #![trigger after.connections[i]]
                0 <= i < n ==> name_means(
                    named,
                    outcomes,
                    after.senders,
                    i,
                    after.connections[i],
                )
        }),
{
    let first = named.take(n);
    let after = resolved_all(senders, named, outcomes);
    lemma_take(named, n);
    assert forall|i: int| #![trigger first[i]] 0 <= i < first.len() implies name_resolves(
        senders,
        first,
        outcomes,
        i,
    ) by {
        assert(first[i] == named[i]);
        assert(brought_by(first, i) == brought_by(named, i));
        assert(forall|uuid: Uuid| #[trigger]
            brings_uuid(first, i, uuid) == brings_uuid(named, i, uuid));
    }
    lemma_resolved_prefix(senders, first, outcomes);
    match reason {
        Some(reason) => {
            lemma_resolved_fails(senders, named, outcomes, n, reason);
        },
        None => {
            assert(first =~= named);
        },
    }
    let earlier = resolved_all(senders, first, outcomes);
    assert(after.senders == earlier.senders);
    assert forall|uuid: Uuid| #[trigger]
        after.senders.contains_key(uuid) == (senders.contains_key(uuid) || brings_uuid(
            named,
            n,
            uuid,
        )) by {
        assert(brings_uuid(first, n, uuid) == brings_uuid(named, n, uuid));
    }
    assert forall|i: int| #![trigger named[i]]
        {
            let uuid = parsed_uuid(text_of(named[i]))->Ok_0;
            0 <= i < n && named[i] is IpcSender && !senders.contains_key(uuid) && !brings_uuid(
                named,
                i,
                uuid,
            ) ==> outcomes[brought_by(named, i) as int] == Ok::<Connection, MuxError>(
                after.senders[uuid],
            )
        } by {
        if 0 <= i < n {
            assert(first[i] == named[i]);
            assert(brought_by(first, i) == brought_by(named, i));
            let uuid = parsed_uuid(text_of(named[i]))->Ok_0;
            assert(brings_uuid(first, i, uuid) == brings_uuid(named, i, uuid));
        }
    }
    assert forall|i: int| #![trigger after.connections[i]] 0 <= i < n implies name_means(
        named,
        outcomes,
        after.senders,
        i,
        after.connections[i],
    ) by {
        assert(first[i] == named[i]);
        assert(brought_by(first, i) == brought_by(named, i));
        assert(name_means(first, outcomes, earlier.senders, i, earlier.connections[i]));
    }
}

proof fn lemma_take(named: Seq<IpcSenderAndOrId>, n: int)
    requires
        0 <= n <= named.len(),
    ensures
        forall|i: int| 0 <= i <= n ==> #[trigger] brought_by(named.take(n), i) == brought_by(named, i),
        forall|i: int, uuid: Uuid|
            0 <= i <= n ==> #[trigger] brings_uuid(named.take(n), i, uuid) == brings_uuid(
                named,
                i,
                uuid,
            ),
    decreases named.len(),
{
    if n < named.len() {
        let earlier = named.drop_last();
        lemma_take(earlier, n);
        assert(earlier.take(n) =~= named.take(n));
        assert forall|i: int| 0 <= i <= n implies #[trigger] brought_by(named.take(n), i)
            == brought_by(named, i) by {
            lemma_prefix(named, i);
            assert(brought_by(earlier.take(n), i) == brought_by(earlier, i));
        }
        assert forall|i: int, uuid: Uuid| 0 <= i <= n implies #[trigger] brings_uuid(
            named.take(n),
            i,
            uuid,
        ) == brings_uuid(named, i, uuid) by {
            lemma_prefix(named, i);
            assert(brings_uuid(earlier.take(n), i, uuid) == brings_uuid(earlier, i, uuid));
        }
    } else {
        assert(named.take(n) =~= named);
    }
}

/// A message has been handled by the receiving end with the given UUID, which is
/// in a set or not.
pub open spec fn handled_in(
    in_set: bool,
    before: DemuxerView,
    boxes: MailboxMap,
    message: MultiMessage,
    receiver: Uuid,
    outcomes: Seq<Result<Connection, MuxError>>,
    outcome: Handled,
    after: DemuxerView,
    boxes_after: MailboxMap,
) -> bool {
    if in_set {
        exists|set: SetId| #[trigger]
            selectable_handled(
                SelectableView { uuid: receiver, set, demuxer: before },
                boxes,
                message,
                outcomes,
                outcome,
                SelectableView { uuid: receiver, set, demuxer: after },
                boxes_after,
            )
    } else {
        ||| message_handled(
            before,
            boxes,
            message,
            receiver,
            outcomes,
            outcome,
            after,
            boxes_after,
        )
        ||| receiver_handled(
            MultiReceiverView { uuid: receiver, demuxer: before },
            boxes,
            message,
            outcomes,
            outcome,
            MultiReceiverView { uuid: receiver, demuxer: after },
            boxes_after,
        )
    }
}

/// The IPC senders that the subsenders in a message belong to, in order.
pub open spec fn carriers(senders: Seq<(SubChannelId, IpcSenderAndOrId)>) -> Seq<IpcSenderAndOrId> {
    Seq::new(senders.len(), |i: int| senders[i].1)
}

/// A disconnector of its own for a subsender that has arrived at a source.
pub open spec fn is_its_own(
    disconnector: SubChannelDisconnector,
    scid: SubChannelId,
    connection: Connection,
    source: Uuid,
) -> bool {
    &&& disconnector.sub_channel_id == scid
    &&& disconnector.ipc_sender == connection.ipc_sender
    &&& disconnector.source == source
    &&& disconnector.multi_sender == connection.multi_sender
}

/// A subsender is the last one of the first ones in a message that is for the
/// given subchannel.
pub open spec fn is_last_for(protos: Seq<ProtoSender>, n: int, j: int, scid: Uuid) -> bool {
    &&& 0 <= j < n
    &&& protos[j].scid.0 == scid
    &&& forall|l: int| j < l < n ==> (#[trigger] protos[l]).scid.0 != scid
}

/// The disconnectors that are on record once the first subsenders in a message
/// have arrived: for each subchannel that of the last of them, or the one that
/// was there before if none of them is for it.
pub open spec fn on_record(
    disconnectors: Map<Uuid, SubChannelDisconnector>,
    protos: Seq<ProtoSender>,
    n: int,
    scid: Uuid,
    disconnector: SubChannelDisconnector,
) -> bool {
    ||| exists|j: int| #[trigger]
        is_last_for(protos, n, j, scid) && *protos[j].disconnector == disconnector
    ||| {
        &&& forall|j: int| 0 <= j < n ==> (#[trigger] protos[j]).scid.0 != scid
        &&& disconnectors.contains_key(scid)
        &&& disconnectors[scid] == disconnector
    }
}

proof fn lemma_on_record(
    disconnectors: Map<Uuid, SubChannelDisconnector>,
    protos: Seq<ProtoSender>,
    n: int,
    scid: Uuid,
    disconnector: SubChannelDisconnector,
)
    requires
        0 <= n <= protos.len(),
    ensures
        recorded_after(disconnectors, protos.take(n)).contains_pair(scid, disconnector)
            == on_record(disconnectors, protos, n, scid, disconnector),
    decreases n,
{
    let first = protos.take(n);
    if n > 0 {
        lemma_on_record(disconnectors, protos, n - 1, scid, disconnector);
        assert(first.drop_last() =~= protos.take(n - 1));
        let last = protos[n - 1];
        assert(first.last() == last);
        if last.scid.0 == scid {
            assert(is_last_for(protos, n, n - 1, scid));
            assert forall|j: int| #[trigger] is_last_for(protos, n, j, scid) implies j == n - 1 by {
                if j < n - 1 {
                    assert(protos[n - 1].scid.0 != scid);
                }
            }
        } else {
            assert forall|j: int| #[trigger]
                is_last_for(protos, n, j, scid) == is_last_for(protos, n - 1, j, scid) by {
                if is_last_for(protos, n - 1, j, scid) {
                    assert forall|l: int| j < l < n implies (#[trigger] protos[l]).scid.0
                        != scid by {}
                }
            }
            if exists|j: int| #[trigger]
                is_last_for(protos, n - 1, j, scid) && *protos[j].disconnector == disconnector {
                let j = choose|j: int| #[trigger]
                    is_last_for(protos, n - 1, j, scid) && *protos[j].disconnector == disconnector;
                assert(is_last_for(protos, n, j, scid));
            }
            if exists|j: int| #[trigger]
                is_last_for(protos, n, j, scid) && *protos[j].disconnector == disconnector {
                let j = choose|j: int| #[trigger]
                    is_last_for(protos, n, j, scid) && *protos[j].disconnector == disconnector;
                assert(is_last_for(protos, n - 1, j, scid));
            }
        }
    }
}

/// The first subsenders in a message have arrived, in order: each is for its
/// subchannel, belongs to the connection that its IPC sender stands for, and is
/// at the receiving end. It shares the disconnector on record for its
/// subchannel or has one of its own, which is on record from then on.
pub open spec fn subsenders_arrived(
    before: DemuxerView,
    senders: Seq<(SubChannelId, IpcSenderAndOrId)>,
    receiver: Uuid,
    outcomes: Seq<Result<Connection, MuxError>>,
    n: int,
    after: DemuxerView,
    protos: Seq<ProtoSender>,
) -> bool {
    &&& protos.len() == n
    &&& forall|i: int|
        #![trigger protos[i]]
        0 <= i < n ==> {
            &&& protos[i].scid == senders[i].0
            &&& protos[i].source == receiver
            &&& name_means(carriers(senders), outcomes, after.senders, i, protos[i].connection)
            &&& {
                ||| is_its_own(
                    *protos[i].disconnector,
                    protos[i].scid,
                    protos[i].connection,
                    receiver,
                )
                ||| on_record(
                    before.disconnectors,
                    protos,
                    i,
                    protos[i].scid.0,
                    *protos[i].disconnector,
                )
            }
        }
    &&& forall|scid: Uuid, disconnector: SubChannelDisconnector|
        #![trigger after.disconnectors.contains_pair(scid, disconnector)]
        after.disconnectors.contains_pair(scid, disconnector) == on_record(
            before.disconnectors,
            protos,
            n,
            scid,
            disconnector,
        )
    &&& senders_received(before.senders, carriers(senders), outcomes, n, after.senders)
}

/// Each of the given subsenders is let go of, in order, and nothing else is done.
pub open spec fn all_let_go(effects: Seq<Effect>, protos: Seq<ProtoSender>) -> bool {
    &&& effects.len() == protos.len()
    &&& forall|i: int|
        #![trigger effects[i]]
        0 <= i < protos.len() ==> effects[i] == Effect::Release(protos[i].disconnector)
}

/// For each of the given subsenders, in order, the receiver of its subchannel is
/// told that it was lost on its way over the subchannel `via`, and it is let go
/// of. Nothing else is done.
pub open spec fn all_reported(
    effects: Seq<Effect>,
    protos: Seq<ProtoSender>,
    via: SubChannelId,
) -> bool {
    &&& effects.len() == 2 * protos.len()
    &&& forall|i: int|
        #![trigger protos[i]]
        0 <= i < protos.len() ==> {
            &&& effects[2 * i] == Effect::Send(
                Outgoing {
                    to: protos[i].connection.ipc_sender,
                    message: MultiMessage::ReceiveFailed { scid: protos[i].scid, via },
                },
            )
            &&& effects[2 * i + 1] == Effect::Release(protos[i].disconnector)
        }
}

/// A message has been put in a mailbox after all that it held, and no other
/// mailbox has changed.
pub open spec fn put_last(
    boxes: MailboxMap,
    id: MailboxId,
    message: ResolvedMessage,
    boxes_after: MailboxMap,
) -> bool {
    &&& boxes_after.contains_key(id)
    &&& boxes_after[id].messages == boxes[id].messages.push(
        ResolvedMessageOrDisconnect::ResolvedMessage(message),
    )
    &&& boxes_after[id].senders == boxes[id].senders
    &&& boxes_after[id].receiving == boxes[id].receiving
    &&& forall|other: MailboxId|
        #![trigger boxes.contains_key(other)]
        #![trigger boxes_after.contains_key(other)]
        other != id ==> {
            &&& boxes_after.contains_key(other) == boxes.contains_key(other)
            &&& boxes.contains_key(other) ==> boxes_after[other] == boxes[other]
        }
}

/// What becomes of a message for a subchannel.
///
/// The subsenders in it arrive in order, up to one whose IPC sender cannot be
/// resolved. That one makes the message fail, and those before it are let go of.
/// If there is none, the message is put in the mailbox of its subchannel, as it
/// came and with all its subsenders. If nobody receives from the mailbox, the
/// subsenders are let go of, and the sender is told that it is disconnected,
/// except in a set, where the mailbox may be about to be replaced. A
/// disconnected subchannel is answered in the same way in any case. For a
/// subchannel that is not known, the receivers of the subsenders are told that
/// they are lost.
pub proof fn law_message_is_sorted(
    in_set: bool,
    before: DemuxerView,
    boxes: MailboxMap,
    scid: SubChannelId,
    payload: Vec<u8>,
    senders: Vec<(SubChannelId, IpcSenderAndOrId)>,
    attachments: Attachments,
    receiver: Uuid,
    outcomes: Seq<Result<Connection, MuxError>>,
    outcome: Handled,
    after: DemuxerView,
    boxes_after: MailboxMap,
    n: int,
    reason: Option<MuxErrorView>,
) -> (protos: Seq<ProtoSender>)
    requires
        handled_in(
            in_set,
            before,
            boxes,
            MultiMessage::Data(scid, payload, senders, attachments),
            receiver,
            outcomes,
            outcome,
            after,
            boxes_after,
        ),
        resolves_up_to(before.senders, carriers(senders@), outcomes, n, reason),
    ensures
        after.clients == before.clients,
        after.sub_channels == before.sub_channels,
        subsenders_arrived(before, senders@, receiver, outcomes, n, after, protos),
        reason matches Some(e) ==> {
            &&& outcome.result matches Err(error)
            &&& error@ == e
            &&& all_let_go(outcome.effects@, protos)
            &&& boxes_after == boxes
        },
        reason is None && before.sub_channels.contains_key(scid.0) ==> match before.sub_channels[scid.0].sender {
            Some(id) => if boxes.contains_key(id) && boxes[id].receiving {
                &&& outcome.result is Ok
                &&& outcome.effects@.len() == 0
                &&& exists|message: ResolvedMessage|
                    {
                        &&& message.scid == scid
                        &&& message.payload == payload
                        &&& message.senders@ == protos
                        &&& message.attachments == attachments
                        &&& #[trigger] put_last(boxes, id, message, boxes_after)
                    }
            } else {
                &&& in_set ==> outcome.result is Ok
                &&& !in_set ==> outcome.result == Err::<(), MuxError>(MuxError::Disconnected)
                &&& all_let_go(outcome.effects@, protos)
                &&& boxes_after == boxes
            },
            None => {
                &&& outcome.result == Err::<(), MuxError>(MuxError::Disconnected)
                &&& all_let_go(outcome.effects@, protos)
                &&& boxes_after == boxes
            },
        },
        reason is None && !before.sub_channels.contains_key(scid.0) ==> {
            &&& outcome.result matches Err(error)
            &&& in_set ==> error@ == MuxErrorView::Disconnected
            &&& !in_set ==> error@ == MuxErrorView::InternalError(
                "invalid subchannel id "@ + hyphenated(scid.0),
            )
            &&& all_reported(outcome.effects@, protos, scid)
            &&& boxes_after == boxes
        },
{
    let named = carriers(senders@);
    assert(names_of(senders@) =~= named);
    law_names_are_resolved_in_order(before.senders, named, outcomes, n, reason);
    let resolutions = resolved_all(before.senders, named, outcomes);
    let protos = choose|protos: Seq<ProtoSender>|
        {
            &&& #[trigger] protos_of(
                protos,
                senders@,
                resolutions.connections,
                receiver,
                before.disconnectors,
            )
            &&& after == DemuxerView {
                senders: resolutions.senders,
                disconnectors: recorded_after(before.disconnectors, protos),
                ..before
            }
            &&& match resolutions.error {
                Some(e) => {
                    &&& outcome.result is Err
                    &&& outcome.result->Err_0@ == e
                    &&& outcome.effects@ == releases(protos)
                    &&& boxes_after == boxes
                },
                None => data_sorted(
                    before,
                    boxes,
                    scid,
                    payload,
                    protos,
                    attachments,
                    if in_set {
                        Strictness::Lenient
                    } else {
                        Strictness::Strict
                    },
                    outcome,
                    boxes_after,
                ),
            }
        };
    assert forall|i: int| #![trigger protos[i]] 0 <= i < n implies {
        &&& protos[i].scid == senders@[i].0
        &&& protos[i].source == receiver
        &&& name_means(named, outcomes, after.senders, i, protos[i].connection)
        &&& {
            ||| is_its_own(
                *protos[i].disconnector,
                protos[i].scid,
                protos[i].connection,
                receiver,
            )
            ||| on_record(
                before.disconnectors,
                protos,
                i,
                protos[i].scid.0,
                *protos[i].disconnector,
            )
        }
    } by {
        lemma_on_record(
            before.disconnectors,
            protos,
            i,
            protos[i].scid.0,
            *protos[i].disconnector,
        );
        assert(resolutions.connections[i] == protos[i].connection);
    }
    assert(protos.take(n) =~= protos);
    assert forall|scid: Uuid, disconnector: SubChannelDisconnector|
        #![trigger after.disconnectors.contains_pair(scid, disconnector)]
        after.disconnectors.contains_pair(scid, disconnector) == on_record(
            before.disconnectors,
            protos,
            n,
            scid,
            disconnector,
        ) by {
        lemma_on_record(before.disconnectors, protos, n, scid, disconnector);
    }
    if reason is None && before.sub_channels.contains_key(scid.0) {
        match before.sub_channels[scid.0].sender {
            Some(id) => {
                if accepts(boxes, id) {
                    let message = choose|message: ResolvedMessage|
                        {
                            &&& message.scid == scid
                            &&& message.payload == payload
                            &&& message.senders@ == protos
                            &&& message.attachments == attachments
                            &&& boxes_after == #[trigger] delivered(
                                boxes,
                                id,
                                ResolvedMessageOrDisconnect::ResolvedMessage(message),
                            )
                        };
                    assert(put_last(boxes, id, message, boxes_after));
                }
            },
            None => {},
        }
    }
    if reason is None && !before.sub_channels.contains_key(scid.0) {
        assert(outcome.effects@ == failures(protos, scid));
        if protos.len() > 0 {
            lemma_failures_at(protos, scid, 0);
        }
        assert forall|i: int| #![trigger protos[i]] 0 <= i < protos.len() implies {
            &&& outcome.effects@[2 * i] == Effect::Send(
                Outgoing {
                    to: protos[i].connection.ipc_sender,
                    message: MultiMessage::ReceiveFailed { scid: protos[i].scid, via: scid },
                },
            )
            &&& outcome.effects@[2 * i + 1] == Effect::Release(protos[i].disconnector)
        } by {
            lemma_failures_at(protos, scid, i);
        }
    }
    protos
}

/// A name can be resolved if the sender that came with it can be connected: its
/// text is a UUID, and it came with its sender, or one was received before under
/// the UUID, be it in the same message.
pub open spec fn is_connectable(known: Set<Uuid>, named: Seq<IpcSenderAndOrId>, i: int) -> bool {
    match parsed_uuid(text_of(named[i])) {
        Ok(uuid) => named[i] is IpcSender || known.contains(uuid) || brings_uuid(named, i, uuid),
        Err(_) => false,
    }
}

proof fn lemma_shift(named: Seq<IpcSenderAndOrId>, i: int)
    requires
        0 < i <= named.len(),
    ensures
        brought_by(named, i) == brought_by(named.drop_first(), i - 1) + if named[0] is IpcSender {
            1nat
        } else {
            0
        },
        forall|uuid: Uuid| #[trigger]
            brings_uuid(named, i, uuid) == (brings_uuid(named.drop_first(), i - 1, uuid) || (
            named[0] is IpcSender && parsed_uuid(text_of(named[0])) == Ok::<Uuid, Seq<char>>(uuid))),
    decreases i,
{
    let rest = named.drop_first();
    reveal_with_fuel(brought_by, 2);
    if i > 1 {
        lemma_shift(named, i - 1);
        assert(rest[i - 2] == named[i - 1]);
    }
    assert forall|uuid: Uuid| #[trigger]
        brings_uuid(named, i, uuid) == (brings_uuid(rest, i - 1, uuid) || (named[0] is IpcSender
            && parsed_uuid(text_of(named[0])) == Ok::<Uuid, Seq<char>>(uuid))) by {
        if brings_uuid(named, i, uuid) {
            let j = choose|j: int|
                {
                    &&& 0 <= j < i
                    &&& (#[trigger] named[j]) is IpcSender
                    &&& parsed_uuid(text_of(named[j])) == Ok::<Uuid, Seq<char>>(uuid)
                };
            if j > 0 {
                assert(rest[j - 1] == named[j]);
            }
        }
        if brings_uuid(rest, i - 1, uuid) {
            let j = choose|j: int|
                {
                    &&& 0 <= j < i - 1
                    &&& (#[trigger] rest[j]) is IpcSender
                    &&& parsed_uuid(text_of(rest[j])) == Ok::<Uuid, Seq<char>>(uuid)
                };
            assert(named[j + 1] == rest[j]);
        }
    }
}

/// The IPC senders that have to be connected before a message is handled are
/// those that came with the names in it, in order and under their UUIDs, up to
/// the first name that cannot be resolved.
pub proof fn law_senders_are_connected_in_order(
    known: Set<Uuid>,
    named: Seq<IpcSenderAndOrId>,
    n: int,
)
    requires
        0 <= n <= named.len(),
        forall|i: int| #![trigger named[i]] 0 <= i < n ==> is_connectable(known, named, i),
        n < named.len() ==> !is_connectable(known, named, n),
    ensures
        to_connect(known, named).len() == brought_by(named, n),
        forall|i: int|
            #![trigger named[i]]
            0 <= i < n ==> (named[i] matches IpcSenderAndOrId::IpcSender(sender, text) ==> {
                &&& brought_by(named, i) < brought_by(named, n)
                &&& to_connect(known, named)[brought_by(named, i) as int].0 == *sender
                &&& parsed_uuid(text@) == Ok::<Uuid, Seq<char>>(
                    to_connect(known, named)[brought_by(named, i) as int].1,
                )
            }),
    decreases named.len(),
{
    if named.len() > 0 {
        let rest = named.drop_first();
        if n == 0 {
            assert(!is_connectable(known, named, 0));
            if named[0] is IpcSenderId {
                assert(to_connect(known, named).len() == 0);
            }
        } else {
            assert(is_connectable(known, named, 0));
            let uuid = parsed_uuid(text_of(named[0]))->Ok_0;
            assert(!brings_uuid(named, 0, uuid));
            let known_then = if named[0] is IpcSender {
                known.insert(uuid)
            } else {
                known
            };
            assert forall|i: int| #![trigger rest[i]] 0 <= i < n - 1 implies is_connectable(
                known_then,
                rest,
                i,
            ) by {
                assert(rest[i] == named[i + 1]);
                lemma_shift(named, i + 1);
                assert(is_connectable(known, named, i + 1));
            }
            if n < named.len() {
                assert(rest[n - 1] == named[n]);
                lemma_shift(named, n);
            }
            law_senders_are_connected_in_order(known_then, rest, n - 1);
            lemma_shift(named, n);
            let all = to_connect(known, named);
            let later = to_connect(known_then, rest);
            assert forall|i: int| #![trigger named[i]] 0 <= i < n implies (
            named[i] matches IpcSenderAndOrId::IpcSender(sender, text) ==> {
                &&& brought_by(named, i) < brought_by(named, n)
                &&& all[brought_by(named, i) as int].0 == *sender
                &&& parsed_uuid(text@) == Ok::<Uuid, Seq<char>>(
                    all[brought_by(named, i) as int].1,
                )
            }) by {
                if i > 0 {
                    lemma_shift(named, i);
                    assert(rest[i - 1] == named[i]);
                    if named[i] is IpcSender {
                        let at = brought_by(rest, i - 1) as int;
                        if named[0] is IpcSender {
                            assert(all[at + 1] == later[at]);
                        } else {
                            assert(all == later);
                        }
                    }
                }
            }
        }
    }
}

proof fn lemma_brought_by_monotone(named: Seq<IpcSenderAndOrId>, i: int, n: int)
    requires
        0 <= i <= n,
    ensures
        brought_by(named, i) <= brought_by(named, n),
    decreases n - i,
{
    if i < n {
        lemma_brought_by_monotone(named, i, n - 1);
    }
}

proof fn lemma_brought_at(named: Seq<IpcSenderAndOrId>, n: int, k: nat) -> (j: int)
    requires
        0 <= n,
        k < brought_by(named, n),
    ensures
        0 <= j < n,
        brought_by(named, j) == k,
        named[j] is IpcSender,
    decreases n,
{
    if k < brought_by(named, n - 1) {
        lemma_brought_at(named, n - 1, k)
    } else {
        n - 1
    }
}

proof fn lemma_connectable_length(known: Set<Uuid>, named: Seq<IpcSenderAndOrId>, i: int) -> (n: int)
    requires
        0 <= i <= named.len(),
        forall|j: int| #![trigger named[j]] 0 <= j < i ==> is_connectable(known, named, j),
    ensures
        i <= n <= named.len(),
        forall|j: int| #![trigger named[j]] 0 <= j < n ==> is_connectable(known, named, j),
        n < named.len() ==> !is_connectable(known, named, n),
    decreases named.len() - i,
{
    if i < named.len() && is_connectable(known, named, i) {
        lemma_connectable_length(known, named, i + 1)
    } else {
        i
    }
}

/// The IPC senders that a message names.
pub open spec fn names_in(message: MultiMessage) -> Seq<IpcSenderAndOrId> {
    match message {
        MultiMessage::Data(_, _, senders, _) => carriers(senders@),
        MultiMessage::Sending { via_chan, .. } => seq![via_chan],
        _ => Seq::empty(),
    }
}

/// A message that can be handled with some outcomes of connecting leaves nothing
/// open: for each name that comes with its sender, as long as all names before
/// it could be resolved, there is an outcome, and a connection is that of the
/// very sender under its UUID. A copy that the message tells of can be counted.
pub proof fn law_receivable_message_has_its_outcomes(
    state: DemuxerView,
    message: MultiMessage,
    outcomes: Seq<Result<Connection, MuxError>>,
    i: int,
)
    requires
        receivable(state, message, outcomes),
    ensures
        outcomes.len() <= brought_by(names_in(message), names_in(message).len() as int),
        0 <= i < names_in(message).len() && (forall|j: int|
            #![trigger names_in(message)[j]]
            0 <= j < i ==> name_resolves(state.senders, names_in(message), outcomes, j)) ==> (
        names_in(message)[i] matches IpcSenderAndOrId::IpcSender(sender, text) ==> (parsed_uuid(
            text@,
        ) matches Ok(uuid) ==> {
            let at = brought_by(names_in(message), i) as int;
            &&& at < outcomes.len()
            &&& outcomes[at] matches Ok(connection) ==> *connection.ipc_sender == *sender
                && connection.uuid == uuid
        })),
        message matches MultiMessage::Sending { scid, .. } ==> (state.sub_channels.contains_key(
            scid.0,
        ) ==> state.sub_channels[scid.0].in_flight.len() < usize::MAX),
        message matches MultiMessage::SendingViaIpcChannel { scid, .. } ==> (
        state.sub_channels.contains_key(scid.0) ==> state.sub_channels[scid.0].in_flight.len()
            < usize::MAX),
{
    let named = names_in(message);
    assert(named_in(message) =~= named);
    let known = state.senders.dom();
    let all = to_connect(known, named);
    let n = lemma_connectable_length(known, named, 0);
    law_senders_are_connected_in_order(known, named, n);
    lemma_brought_by_monotone(named, n, named.len() as int);
    if 0 <= i < named.len() && (forall|j: int|
        #![trigger named[j]]
        0 <= j < i ==> name_resolves(state.senders, named, outcomes, j)) {
        match named[i] {
            IpcSenderAndOrId::IpcSender(sender, text) => {
                if parsed_uuid(text@) is Ok {
                    assert forall|j: int| #![trigger named[j]] 0 <= j <= i implies is_connectable(
                        known,
                        named,
                        j,
                    ) by {
                        if j < i {
                            assert(name_resolves(state.senders, named, outcomes, j));
                        }
                    }
                    assert(i < n) by {
                        if n <= i {
                            assert(is_connectable(known, named, n));
                        }
                    }
                    let at = brought_by(named, i);
                    assert(at < all.len());
                    if at >= outcomes.len() {
                        let last = (outcomes.len() - 1) as nat;
                        let j = lemma_brought_at(named, i, last);
                        assert(name_resolves(state.senders, named, outcomes, j));
                        assert(false);
                    }
                    assert(outcomes[at as int] is Ok ==> *outcomes[at as int]->Ok_0.ipc_sender
                        == all[at as int].0);
                }
            },
            IpcSenderAndOrId::IpcSenderId(_) => {},
        }
    }
}

} // verus!
