//! The state of a QMP session, and the exchanges that every operation is made of.
use crate::block_device::{BlockCleanupState, BlockDeviceCleanupPending};
use crate::error::{in_context, message, Error, ErrorModel, Layer, LayerModel};
use crate::qmp::ccw::{CcwModel, CcwSubChannel};
use crate::qmp::fdset::{collect_block_fdsets, collected};
use crate::qmp::pci::{Bridge, BridgeModel};
use crate::qmp::wire::{
    failure_error, unexpected_reply, CommandModel, FailureKind, FailureModel, FdsetInfo,
    MigrationInfo, QmpCommand, QmpError, QmpReply,
};
use crate::table::Table;
use crate::text::{cat2, cat3, same};
use vstd::prelude::*;

verus! {

/// A QMP session: what is known of QEMU, and the replies that were not looked at yet.
#[derive(Clone, Debug)]
pub struct Qmp {
    pub replies: Vec<QmpReply>,
    pub qmp_sock_path: Option<String>,
    /// The size of a memory block of the guest, in bytes. Memory that is hot-plugged in another
    /// unit is never brought online.
    pub guest_memory_block_size: u64,
    /// The subchannel on which s390x devices get their addresses.
    pub ccw_subchannel: Option<CcwSubChannel>,
    /// The hot-plug slots of the bridges `pci-bridge-0`, `pci-bridge-1` and so on.
    pub pci_bridge_devices: Vec<Bridge>,
    /// The fdsets behind each hot-plugged block device. They are kept until the backend is gone,
    /// because a format driver may open an extent again at any time.
    pub block_fdsets: Table<Vec<i64>>,
}

/// The model of a [`Qmp`] session.
pub struct QmpModel {
    pub replies: Seq<QmpReply>,
    pub socket_path: Option<Seq<char>>,
    pub guest_memory_block_size: u64,
    pub ccw: Option<CcwModel>,
    pub bridges: Seq<BridgeModel>,
    pub block_fdsets: Map<Seq<char>, Seq<i64>>,
}

impl View for Qmp {
    type V = QmpModel;

    open spec fn view(&self) -> QmpModel {
        QmpModel {
            replies: self.replies@,
            socket_path: self.qmp_sock_path.deep_view(),
            guest_memory_block_size: self.guest_memory_block_size,
            ccw: self.ccw_subchannel.deep_view(),
            bridges: self.pci_bridge_devices.deep_view(),
            block_fdsets: self.block_fdsets.deep_view(),
        }
    }
}

/// How far an operation has come: it waits for the reply to a command, or it is done.
pub enum Flow<T, C> {
    Waiting(C),
    Done(Result<T, ErrorModel>),
}

/// A result of an operation, with its error as a model.
pub open spec fn outcome<T: DeepView>(r: Result<T, Error>) -> Result<T::V, ErrorModel> {
    match r {
        Ok(value) => Ok(value.deep_view()),
        Err(error) => Err(error.deep_view()),
    }
}

/// How far an operation has come, as a model.
pub open spec fn flow<T: DeepView, C: DeepView>(r: Result<Result<T, Error>, C>) -> Flow<T::V, C::V> {
    match r {
        Ok(result) => Flow::Done(outcome(result)),
        Err(command) => Flow::Waiting(command.deep_view()),
    }
}

/// A step of an operation: the session after it, and how far the operation has come.
pub type Step<T> = (QmpModel, Flow<T, CommandModel>);

/// The session after the next reply was looked at.
pub open spec fn taken(q: QmpModel) -> QmpModel {
    QmpModel { replies: q.replies.drop_first(), ..q }
}

/// The session with other known fdsets.
pub open spec fn with_fdsets(q: QmpModel, fdsets: Map<Seq<char>, Seq<i64>>) -> QmpModel {
    QmpModel { block_fdsets: fdsets, ..q }
}

/// What a reply says to a command that gives nothing back.
pub open spec fn done_in(reply: QmpReply) -> Result<(), FailureModel> {
    match reply {
        QmpReply::Done => Ok(()),
        QmpReply::Failed(error) => Err(error.deep_view()),
        _ => Err(unexpected_reply()),
    }
}

/// What a reply says to `query-fdsets`.
pub open spec fn fdsets_in(reply: QmpReply) -> Result<Seq<FdsetInfo>, FailureModel> {
    match reply {
        QmpReply::Fdsets(fdsets) => Ok(fdsets@),
        QmpReply::Failed(error) => Err(error.deep_view()),
        _ => Err(unexpected_reply()),
    }
}

/// What a reply says to a command that lists names.
pub open spec fn names_in(reply: QmpReply) -> Result<Seq<Seq<char>>, FailureModel> {
    match reply {
        QmpReply::Names(names) => Ok(names.deep_view()),
        QmpReply::Failed(error) => Err(error.deep_view()),
        _ => Err(unexpected_reply()),
    }
}

/// A failed exchange, with its failure as a model.
pub open spec fn exchange<T: DeepView>(r: Result<T, QmpError>) -> Result<T::V, FailureModel> {
    match r {
        Ok(value) => Ok(value.deep_view()),
        Err(error) => Err(error.deep_view()),
    }
}

pub fn decode_done(reply: QmpReply) -> (r: Result<(), QmpError>)
    ensures
        exchange(r) == done_in(reply),
{
    match reply {
        QmpReply::Done => Ok(()),
        QmpReply::Failed(error) => Err(error),
        _ => Err(QmpError::unexpected()),
    }
}

pub fn decode_fdsets(reply: QmpReply) -> (r: Result<Vec<FdsetInfo>, QmpError>)
    ensures
        match r {
            Ok(fdsets) => fdsets_in(reply) == Ok::<Seq<FdsetInfo>, FailureModel>(fdsets@),
            Err(error) => fdsets_in(reply) == Err::<Seq<FdsetInfo>, FailureModel>(
                error.deep_view(),
            ),
        },
{
    match reply {
        QmpReply::Fdsets(fdsets) => Ok(fdsets),
        QmpReply::Failed(error) => Err(error),
        _ => Err(QmpError::unexpected()),
    }
}

pub fn decode_names(reply: QmpReply) -> (r: Result<Vec<String>, QmpError>)
    ensures
        exchange(r) == names_in(reply),
{
    match reply {
        QmpReply::Names(names) => Ok(names),
        QmpReply::Failed(error) => Err(error),
        _ => Err(QmpError::unexpected()),
    }
}

/// The error of a cleanup that left `state` behind.
pub open spec fn cleanup_error(
    node_name: Seq<char>,
    details: Seq<char>,
    state: BlockCleanupState,
) -> ErrorModel {
    seq![LayerModel::CleanupPending { node_name, details, state }]
}

/// The error of a cleanup that left `state` behind.
pub fn cleanup_state_error(node_name: &str, details: String, state: BlockCleanupState) -> (r: Error)
    ensures
        r.deep_view() == cleanup_error(node_name@, details@, state),
{
    Error::of(
        Layer::CleanupPending(
            BlockDeviceCleanupPending::with_state(node_name.to_owned(), details, state),
        ),
    )
}

/// The error of an operation whose rollback failed too and left `state` behind.
pub fn incomplete_block_cleanup(
    node_name: &str,
    primary_error: &str,
    rollback_error: &str,
    state: BlockCleanupState,
) -> (r: Error)
    ensures
        r.deep_view() == cleanup_error(
            node_name@,
            primary_error@ + "; rollback failed: "@ + rollback_error@,
            state,
        ),
{
    cleanup_state_error(
        node_name,
        cat2(primary_error, "; rollback failed: ").concat(rollback_error),
        state,
    )
}

/// The reply to `command`, where it is there.
pub open spec fn asked(q: QmpModel, command: CommandModel) -> Result<QmpReply, CommandModel> {
    if q.replies.len() == 0 {
        Err(command)
    } else {
        Ok(q.replies[0])
    }
}

/// Asking QEMU for its fdsets and noting which of them belong to block devices.
pub open spec fn refreshed(q: QmpModel) -> Step<()> {
    if q.replies.len() == 0 {
        (q, Flow::Waiting(CommandModel::QueryFdsets))
    } else {
        match fdsets_in(q.replies[0]) {
            Ok(fdsets) => (with_fdsets(taken(q), collected(fdsets)), Flow::Done(Ok(()))),
            Err(failure) => (
                taken(q),
                Flow::Done(Err(in_context(failure_error(failure), "query QEMU fdsets"@))),
            ),
        }
    }
}

/// What came of opening a connection.
pub open spec fn connected_in(reply: QmpReply) -> Result<(), ErrorModel> {
    match reply {
        QmpReply::NotConnected(error) => Err(error.deep_view()),
        _ => match done_in(reply) {
            Ok(_) => Ok(()),
            Err(failure) => Err(message(failure.text)),
        },
    }
}

fn decode_connected(reply: QmpReply) -> (r: Result<(), Error>)
    ensures
        outcome(r) == connected_in(reply),
{
    match reply {
        QmpReply::NotConnected(error) => Err(error),
        other => match decode_done(other) {
            Ok(_) => Ok(()),
            Err(failure) => Err(Error::msg(failure.text)),
        },
    }
}

/// Opening a new connection and reading the fdsets again.
pub open spec fn reconnected(q: QmpModel) -> Step<()> {
    match q.socket_path {
        None => (
            q,
            Flow::Done(Err(message("QMP socket path is unavailable for reconnection"@))),
        ),
        Some(path) => if q.replies.len() == 0 {
            (q, Flow::Waiting(CommandModel::Connect(path)))
        } else {
            match connected_in(q.replies[0]) {
                Ok(_) => refreshed(taken(q)),
                Err(error) => (taken(q), Flow::Done(Err(error))),
            }
        },
    }
}

/// Reading the fdsets, over a new connection where the reply was lost.
pub open spec fn refreshed_recovering(q: QmpModel) -> Step<()> {
    if q.replies.len() == 0 {
        (q, Flow::Waiting(CommandModel::QueryFdsets))
    } else {
        match fdsets_in(q.replies[0]) {
            Ok(fdsets) => (with_fdsets(taken(q), collected(fdsets)), Flow::Done(Ok(()))),
            Err(failure) => if failure.kind == FailureKind::Io {
                reconnected(taken(q))
            } else {
                (
                    taken(q),
                    Flow::Done(Err(message("QEMU rejected query-fdsets: "@ + failure.text))),
                )
            },
        }
    }
}

/// Whether QEMU lists an object of that name among the peripherals.
pub open spec fn frontend_found(q: QmpModel, node_name: Seq<char>) -> Step<bool> {
    if q.replies.len() == 0 {
        (q, Flow::Waiting(CommandModel::QomList("/machine/peripheral"@)))
    } else {
        match names_in(q.replies[0]) {
            Ok(names) => (taken(q), Flow::Done(Ok(names.contains(node_name)))),
            Err(failure) => (taken(q), Flow::Done(Err(failure_error(failure)))),
        }
    }
}

/// Whether QEMU lists a block node of that name.
pub open spec fn backend_found(q: QmpModel, node_name: Seq<char>) -> Step<bool> {
    if q.replies.len() == 0 {
        (q, Flow::Waiting(CommandModel::QueryNamedBlockNodes))
    } else {
        match names_in(q.replies[0]) {
            Ok(names) => (taken(q), Flow::Done(Ok(names.contains(node_name)))),
            Err(failure) => (taken(q), Flow::Done(Err(failure_error(failure)))),
        }
    }
}

/// Whether `name` is among `names`.
pub fn contains_name(names: &Vec<String>, name: &str) -> (r: bool)
    ensures
        r == names.deep_view().contains(name@),
{
    let mut i: usize = 0;
    while i < names.len()
        invariant
            0 <= i <= names@.len(),
            forall|j: int| 0 <= j < i ==> (#[trigger] names.deep_view()[j]) != name@,
        decreases names@.len() - i,
    {
        assert(names.deep_view()[i as int] == names@[i as int]@);
        if same(names[i].as_str(), name) {
            return true;
        }
        i = i + 1;
    }
    false
}

impl Qmp {
    /// A session over the socket at `qmp_sock_path`, before anything is known of QEMU.
    pub fn over(qmp_sock_path: Option<String>) -> (r: Qmp)
        ensures
            r@ == (QmpModel {
                replies: seq![],
                socket_path: qmp_sock_path.deep_view(),
                guest_memory_block_size: 0,
                ccw: None,
                bridges: seq![],
                block_fdsets: Map::empty(),
            }),
    {
        let r = Qmp {
            replies: Vec::new(),
            qmp_sock_path,
            guest_memory_block_size: 0,
            ccw_subchannel: None,
            pci_bridge_devices: Vec::new(),
            block_fdsets: Table::new(),
        };
        assert(r@.bridges =~= seq![]);
        r
    }

    /// The next reply, where there is one; otherwise `command`, which is to be sent.
    pub fn ask(&mut self, command: QmpCommand) -> (r: Result<QmpReply, QmpCommand>)
        ensures
            match r {
                Ok(reply) => old(self)@.replies.len() > 0 && reply == old(self)@.replies[0]
                    && final(self)@ == taken(old(self)@),
                Err(waiting) => old(self)@.replies.len() == 0 && waiting == command && final(self)@
                    == old(self)@,
            },
    {
        if self.replies.len() == 0 {
            return Err(command);
        }
        let reply = self.replies.remove(0);
        assert(self.replies@ =~= old(self).replies@.drop_first());
        Ok(reply)
    }

    /// Asks QEMU for its fdsets and notes which of them belong to block devices.
    pub fn refresh_block_fdsets(&mut self) -> (r: Result<Result<(), Error>, QmpCommand>)
        ensures
            (final(self)@, flow(r)) == refreshed(old(self)@),
    {
        let reply = self.ask(QmpCommand::QueryFdsets)?;
        match decode_fdsets(reply) {
            Ok(fdsets) => {
                self.block_fdsets = collect_block_fdsets(&fdsets);
                Ok(Ok(()))
            },
            Err(error) => Ok(Err(error.into_error().context_str("query QEMU fdsets"))),
        }
    }

    /// Opens a new connection and reads the fdsets again.
    pub fn reconnect(&mut self) -> (r: Result<Result<(), Error>, QmpCommand>)
        ensures
            (final(self)@, flow(r)) == reconnected(old(self)@),
    {
        let path = match &self.qmp_sock_path {
            Some(path) => path.clone(),
            None => {
                return Ok(
                    Err(Error::msg_str("QMP socket path is unavailable for reconnection")),
                );
            },
        };
        let reply = self.ask(QmpCommand::Connect(path))?;
        match decode_connected(reply) {
            Ok(_) => self.refresh_block_fdsets(),
            Err(error) => Ok(Err(error)),
        }
    }

    /// Reads the fdsets, over a new connection where the reply was lost.
    pub fn refresh_block_fdsets_recovering(&mut self) -> (r: Result<
        Result<(), Error>,
        QmpCommand,
    >)
        ensures
            (final(self)@, flow(r)) == refreshed_recovering(old(self)@),
    {
        let reply = self.ask(QmpCommand::QueryFdsets)?;
        match decode_fdsets(reply) {
            Ok(fdsets) => {
                self.block_fdsets = collect_block_fdsets(&fdsets);
                Ok(Ok(()))
            },
            Err(error) => if error.kind == FailureKind::Io {
                self.reconnect()
            } else {
                Ok(Err(Error::msg(cat2("QEMU rejected query-fdsets: ", error.text.as_str()))))
            },
        }
    }

    /// Whether QEMU lists an object of that name among the peripherals.
    pub fn frontend_exists(&mut self, node_name: &str) -> (r: Result<
        Result<bool, Error>,
        QmpCommand,
    >)
        ensures
            (final(self)@, flow(r)) == frontend_found(old(self)@, node_name@),
    {
        let reply = self.ask(QmpCommand::QomList("/machine/peripheral".to_owned()))?;
        match decode_names(reply) {
            Ok(names) => Ok(Ok(contains_name(&names, node_name))),
            Err(error) => Ok(Err(error.into_error())),
        }
    }

    /// Whether QEMU lists a block node of that name.
    pub fn block_backend_exists(&mut self, node_name: &str) -> (r: Result<
        Result<bool, Error>,
        QmpCommand,
    >)
        ensures
            (final(self)@, flow(r)) == backend_found(old(self)@, node_name@),
    {
        let reply = self.ask(QmpCommand::QueryNamedBlockNodes)?;
        match decode_names(reply) {
            Ok(names) => Ok(Ok(contains_name(&names, node_name))),
            Err(error) => Ok(Err(error.into_error())),
        }
    }
}

/// What a reading of the clock says. A clock that cannot be read has run out.
pub open spec fn elapsed_in(reply: QmpReply) -> u64 {
    match reply {
        QmpReply::Elapsed(nanos) => nanos,
        _ => u64::MAX,
    }
}

/// What is left of `limit` at the reading `now` of a clock that stood at `start`; none where the
/// time is up.
pub open spec fn time_left(start: u64, now: u64, limit: u64) -> Option<u64> {
    let passed = if now >= start {
        now - start
    } else {
        0
    };
    if passed >= limit {
        None
    } else {
        Some((limit - passed) as u64)
    }
}

pub fn elapsed(reply: QmpReply) -> (r: u64)
    ensures
        r == elapsed_in(reply),
{
    match reply {
        QmpReply::Elapsed(nanos) => nanos,
        _ => u64::MAX,
    }
}

pub fn remaining_time(start: u64, now: u64, limit: u64) -> (r: Option<u64>)
    ensures
        r == time_left(start, now, limit),
{
    let passed: u64 = if now >= start {
        now - start
    } else {
        0
    };
    if passed >= limit {
        None
    } else {
        Some(limit - passed)
    }
}

/// A command that gives nothing back, with `what` around its failure.
pub open spec fn executed(q: QmpModel, command: CommandModel, what: Seq<char>) -> Step<()> {
    if q.replies.len() == 0 {
        (q, Flow::Waiting(command))
    } else {
        (
            taken(q),
            Flow::Done(
                match done_in(q.replies[0]) {
                    Ok(_) => Ok(()),
                    Err(failure) => Err(in_context(failure_error(failure), what)),
                },
            ),
        )
    }
}

/// How long QEMU may take to accept a connection, in nanoseconds.
pub const CONNECT_DEADLINE: u64 = 50_000_000_000;

/// The pause between two attempts to connect, in nanoseconds.
pub const RETRY_SLEEP: u64 = 50_000_000;

/// A session over a socket, before anything is known of QEMU.
pub open spec fn fresh(path: Option<Seq<char>>, replies: Seq<QmpReply>) -> QmpModel {
    QmpModel {
        replies,
        socket_path: path,
        guest_memory_block_size: 0,
        ccw: None,
        bridges: seq![],
        block_fdsets: Map::empty(),
    }
}

/// Attempts to connect, one after the other with a pause between them, until one succeeds or the
/// time is up. `last` is why the latest attempt failed.
pub open spec fn established(
    path: Seq<char>,
    replies: Seq<QmpReply>,
    start: u64,
    last: Option<ErrorModel>,
) -> Step<()>
    decreases replies.len(),
{
    let q = fresh(Some(path), replies);
    if replies.len() == 0 {
        (q, Flow::Waiting(CommandModel::Clock))
    } else if time_left(start, elapsed_in(replies[0]), CONNECT_DEADLINE) is None {
        (
            taken(q),
            Flow::Done(
                Err(
                    in_context(
                        match last {
                            Some(error) => error,
                            None => message("QMP init timed out"@),
                        },
                        "timed out waiting for QMP ready: "@ + path,
                    ),
                ),
            ),
        )
    } else {
        match reconnected(taken(q)) {
            (q1, Flow::Waiting(command)) => (q1, Flow::Waiting(command)),
            (q1, Flow::Done(Ok(_))) => (q1, Flow::Done(Ok(()))),
            (q1, Flow::Done(Err(error))) => if q1.replies.len() == 0 {
                (q1, Flow::Waiting(CommandModel::Sleep(RETRY_SLEEP as int)))
            } else {
                proof {
                    lemma_reconnecting_takes_replies(taken(q));
                }
                established(path, q1.replies.drop_first(), start, Some(error))
            },
        }
    }
}

/// A new connection adds no replies.
pub proof fn lemma_reconnecting_takes_replies(q: QmpModel)
    ensures
        reconnected(q).0.replies.len() <= q.replies.len(),
{
}

/// A session with QEMU, once it accepts a connection.
pub open spec fn session_opened(path: Seq<char>, replies: Seq<QmpReply>) -> Step<()> {
    if replies.len() == 0 {
        (fresh(Some(path), replies), Flow::Waiting(CommandModel::Clock))
    } else {
        established(path, replies.drop_first(), elapsed_in(replies[0]), None)
    }
}

impl Qmp {
    /// A session over the socket at `qmp_sock_path`, once QEMU accepts a connection there.
    /// `replies` are those that have come back so far.
    pub fn new(qmp_sock_path: &str, replies: Vec<QmpReply>) -> (r: Result<
        Result<Qmp, Error>,
        QmpCommand,
    >)
        ensures
            match r {
                Err(command) => session_opened(qmp_sock_path@, replies@).1 == Flow::<
                    (),
                    CommandModel,
                >::Waiting(command.deep_view()),
                Ok(Err(error)) => session_opened(qmp_sock_path@, replies@).1 == Flow::<
                    (),
                    CommandModel,
                >::Done(Err(error.deep_view())),
                Ok(Ok(qmp)) => session_opened(qmp_sock_path@, replies@) == (
                    qmp@,
                    Flow::<(), CommandModel>::Done(Ok(())),
                ),
            },
    {
        let mut qmp = Qmp::over(Some(qmp_sock_path.to_owned()));
        qmp.replies = replies;
        let start: u64 = elapsed(qmp.ask(QmpCommand::Clock)?);
        let ghost all = qmp@.replies;
        let mut last: Option<Error> = None;
        loop
            invariant
                qmp@ == fresh(Some(qmp_sock_path@), qmp@.replies),
                established(qmp_sock_path@, all, start, None) == established(
                    qmp_sock_path@,
                    qmp@.replies,
                    start,
                    last.deep_view(),
                ),
                session_opened(qmp_sock_path@, replies@) == established(
                    qmp_sock_path@,
                    all,
                    start,
                    None,
                ),
            decreases qmp@.replies.len(),
        {
            let now = elapsed(qmp.ask(QmpCommand::Clock)?);
            if remaining_time(start, now, CONNECT_DEADLINE).is_none() {
                let error = match last {
                    Some(error) => error,
                    None => Error::msg_str("QMP init timed out"),
                };
                return Ok(
                    Err(
                        error.context(cat2("timed out waiting for QMP ready: ", qmp_sock_path)),
                    ),
                );
            }
            proof {
                lemma_reconnecting_takes_replies(qmp@);
            }
            match qmp.reconnect()? {
                Ok(_) => {
                    return Ok(Ok(qmp));
                },
                Err(error) => {
                    let _ = qmp.ask(QmpCommand::Sleep(RETRY_SLEEP))?;
                    let rest = qmp.replies;
                    qmp = Qmp::over(Some(qmp_sock_path.to_owned()));
                    qmp.replies = rest;
                    last = Some(error);
                },
            }
        }
    }

    fn execute(&mut self, command: QmpCommand, what: &str) -> (r: Result<
        Result<(), Error>,
        QmpCommand,
    >)
        ensures
            (final(self)@, flow(r)) == executed(old(self)@, command.deep_view(), what@),
    {
        let reply = self.ask(command)?;
        match decode_done(reply) {
            Ok(_) => Ok(Ok(())),
            Err(failure) => Ok(Err(failure.into_error().context_str(what))),
        }
    }

    /// Leaves memory that is shared with the host out of migrations.
    pub fn set_ignore_shared_memory_capability(&mut self) -> (r: Result<
        Result<(), Error>,
        QmpCommand,
    >)
        ensures
            (final(self)@, flow(r)) == executed(
                old(self)@,
                CommandModel::IgnoreSharedMemory,
                "set ignore shared memory capability"@,
            ),
    {
        self.execute(QmpCommand::IgnoreSharedMemory, "set ignore shared memory capability")
    }

    /// Migrates the guest to `uri`.
    pub fn execute_migration(&mut self, uri: &str) -> (r: Result<Result<(), Error>, QmpCommand>)
        ensures
            (final(self)@, flow(r)) == executed(
                old(self)@,
                CommandModel::Migrate(uri@),
                "execute migration"@,
            ),
    {
        self.execute(QmpCommand::Migrate(uri.to_owned()), "execute migration")
    }

    /// Takes a migrated guest in from `uri`.
    pub fn execute_migration_incoming(&mut self, uri: &str) -> (r: Result<
        Result<(), Error>,
        QmpCommand,
    >)
        ensures
            (final(self)@, flow(r)) == executed(
                old(self)@,
                CommandModel::MigrateIncoming(uri@),
                "execute migration incoming"@,
            ),
    {
        self.execute(QmpCommand::MigrateIncoming(uri.to_owned()), "execute migration incoming")
    }

    /// What QEMU says of a migration.
    pub fn execute_query_migrate(&mut self) -> (r: Result<
        Result<MigrationInfo, Error>,
        QmpCommand,
    >)
        ensures
            (final(self)@, flow(r)) == migration_queried(old(self)@),
    {
        let reply = self.ask(QmpCommand::QueryMigrate)?;
        match reply {
            QmpReply::Migration(info) => Ok(Ok(info)),
            QmpReply::Failed(failure) => Ok(Err(failure.into_error())),
            _ => Ok(Err(QmpError::unexpected().into_error())),
        }
    }

    /// Pauses the guest.
    pub fn qmp_stop(&mut self) -> (r: Result<Result<(), Error>, QmpCommand>)
        ensures
            (final(self)@, flow(r)) == executed(
                old(self)@,
                CommandModel::Stop,
                "execute qmp stop"@,
            ),
    {
        self.execute(QmpCommand::Stop, "execute qmp stop")
    }

    /// Lets the guest go on.
    pub fn qmp_cont(&mut self) -> (r: Result<Result<(), Error>, QmpCommand>)
        ensures
            (final(self)@, flow(r)) == executed(
                old(self)@,
                CommandModel::Cont,
                "execute qmp cont"@,
            ),
    {
        self.execute(QmpCommand::Cont, "execute qmp cont")
    }

    pub fn set_ccw_subchannel(&mut self, subchannel: CcwSubChannel)
        ensures
            final(self)@ == (QmpModel { ccw: Some(subchannel.deep_view()), ..old(self)@ }),
    {
        self.ccw_subchannel = Some(subchannel);
    }

    pub fn set_guest_memory_block_size(&mut self, size: u64)
        ensures
            final(self)@ == (QmpModel { guest_memory_block_size: size, ..old(self)@ }),
    {
        self.guest_memory_block_size = size;
    }

    pub fn guest_memory_block_size(&self) -> (r: u64)
        ensures
            r == self@.guest_memory_block_size,
    {
        self.guest_memory_block_size
    }
}

/// Asking what there is to say of a migration.
pub open spec fn migration_queried(q: QmpModel) -> Step<MigrationInfo> {
    if q.replies.len() == 0 {
        (q, Flow::Waiting(CommandModel::QueryMigrate))
    } else {
        (
            taken(q),
            Flow::Done(
                match q.replies[0] {
                    QmpReply::Migration(info) => Ok(info),
                    QmpReply::Failed(failure) => Err(failure_error(failure.deep_view())),
                    _ => Err(failure_error(unexpected_reply())),
                },
            ),
        )
    }
}

/// The path of the QMP socket: the file itself, or the file in the jail of a sandbox.
pub fn get_qmp_socket_path(jailer_root: Option<&str>, socket_file: &str) -> (r: String)
    ensures
        r@ == match jailer_root {
            Some(root) => root@ + "/"@ + socket_file@,
            None => socket_file@,
        },
{
    match jailer_root {
        Some(root) => cat3(root, "/", socket_file),
        None => socket_file.to_owned(),
    }
}

} // verus!
