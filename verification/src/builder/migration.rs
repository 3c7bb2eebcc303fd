//! Taking over the channels of another node.
use crate::builder::error::BuildError;
use crate::error::IoErrorKind;
use crate::text::to_decimal;
use crate::types::Txid;
use vstd::prelude::*;

verus! {

/// Channel data to migrate from an external implementation.
///
/// The data is written to the configured store during the build process, before channel monitors are
/// read. The storage key for each monitor is derived by deserializing the monitor and extracting the
/// funding outpoint.
#[derive(Clone, Debug)]
pub struct ChannelDataMigration {
    /// Serialized ChannelManager bytes.
    pub channel_manager: Option<Vec<u8>>,
    /// Serialized channel monitor bytes.
    pub channel_monitors: Vec<Vec<u8>>,
}

impl Default for ChannelDataMigration {
    fn default() -> (migration: Self)
        ensures
            migration.channel_manager is None,
            migration.channel_monitors@.len() == 0,
    {
        ChannelDataMigration { channel_manager: None, channel_monitors: Vec::new() }
    }
}

/// What a serialized channel monitor says of its channel: the transaction and the output that fund it,
/// and the number of its latest update.
pub type DecodedMonitor = (Txid, u16, u64);

/// What a migration needs to know of a channel monitor.
#[derive(Debug)]
pub struct MonitorSummary {
    /// The key under which it is stored.
    pub key: String,
    pub update_id: u64,
}

/// What a summary says.
#[verifier::ext_equal]
pub struct MonitorSummaryView {
    pub key: Seq<char>,
    pub update_id: u64,
}

impl View for MonitorSummary {
    type V = MonitorSummaryView;

    open spec fn view(&self) -> MonitorSummaryView {
        MonitorSummaryView { key: self.key@, update_id: self.update_id }
    }
}

/// The key under which the monitor of a channel is stored: the transaction, as it is shown, and the
/// output that fund it.
pub open spec fn monitor_key_text(txid: Seq<u8>, index: u16) -> Seq<char> {
    crate::hex::hex_text(txid.reverse()) + "_"@ + crate::text::decimal(index as nat)
}

/// The key under which the monitor of a channel is stored.
pub fn monitor_key(txid: Txid, index: u16) -> (key: String)
    ensures
        key@ == monitor_key_text(txid.0@, index),
{
    let mut key = txid.to_text();
    key.append("_");
    key.append(to_decimal(index as u64).as_str());
    key
}

/// The summary of a channel monitor.
pub open spec fn summary_of(monitor: DecodedMonitor) -> MonitorSummaryView {
    let (txid, index, update_id) = monitor;
    MonitorSummaryView { key: monitor_key_text(txid.0@, index), update_id }
}

/// Sums up a channel monitor, given what decoding it gave.
pub fn summarize_monitor(read: Option<DecodedMonitor>) -> (summary: Option<MonitorSummary>)
    ensures
        match read {
            Some(monitor) => summary matches Some(summary) && summary@ == summary_of(monitor),
            None => summary is None,
        },
{
    match read {
        None => None,
        Some((txid, index, update_id)) => {
            let key = monitor_key(txid, index);
            Some(MonitorSummary { key, update_id })
        },
    }
}

/// Whether something migrated is written, given what the store holds in its place. Where the store
/// cannot tell nothing is written.
pub open spec fn write_decision<T>(
    read: Result<T, IoErrorKind>,
    replaces: spec_fn(T) -> bool,
) -> Result<bool, BuildError> {
    match read {
        Ok(found) => Ok::<bool, BuildError>(replaces(found)),
        Err(IoErrorKind::NotFound) => Ok::<bool, BuildError>(true),
        Err(_) => Err::<bool, BuildError>(BuildError::ReadFailed),
    }
}

/// Whether a migrated channel manager is written: only where the store holds none. One that is there is
/// never replaced, whatever it is.
pub open spec fn manager_write(read: Result<(), IoErrorKind>) -> Result<bool, BuildError> {
    write_decision(read, |found: ()| false)
}

/// Whether a migrated channel manager is written.
pub fn should_write_manager(read: Result<(), IoErrorKind>) -> (write: Result<bool, BuildError>)
    ensures
        write == manager_write(read),
{
    match read {
        Ok(_) => Ok(false),
        Err(IoErrorKind::NotFound) => Ok(true),
        Err(_) => Err(BuildError::ReadFailed),
    }
}

/// Whether a channel monitor in the store is older than one with an update of this number. One that
/// cannot be decoded is not.
pub open spec fn is_older(found: Option<DecodedMonitor>, migrated_update_id: u64) -> bool {
    found matches Some(monitor) && monitor.2 < migrated_update_id
}

/// Whether a migrated channel monitor is written: where the store holds none, or an older one. One that
/// cannot be decoded is not replaced.
pub open spec fn monitor_write(
    migrated_update_id: u64,
    read: Result<Option<DecodedMonitor>, IoErrorKind>,
) -> Result<bool, BuildError> {
    write_decision(read, |found: Option<DecodedMonitor>| is_older(found, migrated_update_id))
}

/// Whether a migrated channel monitor is written, given what decoding the one in the store gave.
pub fn should_write_monitor(
    migrated_update_id: u64,
    read: Result<Option<DecodedMonitor>, IoErrorKind>,
) -> (write: Result<bool, BuildError>)
    ensures
        write == monitor_write(migrated_update_id, read),
{
    match read {
        Ok(Some((_, _, update_id))) => Ok(update_id < migrated_update_id),
        Ok(None) => Ok(false),
        Err(IoErrorKind::NotFound) => Ok(true),
        Err(_) => Err(BuildError::ReadFailed),
    }
}

/// How far a migration is.
#[derive(Debug)]
pub enum MigrationStep {
    /// Look for a channel manager in the store.
    ReadManager,
    /// Write the migrated channel manager.
    WriteManager,
    /// Decode the channel monitor at this position of the migration.
    DecodeMonitor { position: usize },
    /// Look for the channel monitor at this position of the migration in the store, and decode what is
    /// found.
    ReadMonitor { position: usize, monitor: MonitorSummary },
    /// Write the channel monitor at this position of the migration.
    WriteMonitor { position: usize, key: String },
    /// The migration is over.
    Return(Result<(), BuildError>),
}

/// How far a migration is.
pub enum MigrationStepView {
    ReadManager,
    WriteManager,
    DecodeMonitor { position: int },
    ReadMonitor { position: int, monitor: MonitorSummaryView },
    WriteMonitor { position: int, key: Seq<char> },
    Return(Result<(), BuildError>),
}

impl View for MigrationStep {
    type V = MigrationStepView;

    open spec fn view(&self) -> MigrationStepView {
        match *self {
            MigrationStep::ReadManager => MigrationStepView::ReadManager,
            MigrationStep::WriteManager => MigrationStepView::WriteManager,
            MigrationStep::DecodeMonitor { position } => MigrationStepView::DecodeMonitor {
                position: position as int,
            },
            MigrationStep::ReadMonitor { position, monitor } => MigrationStepView::ReadMonitor {
                position: position as int,
                monitor: monitor@,
            },
            MigrationStep::WriteMonitor { position, key } => MigrationStepView::WriteMonitor {
                position: position as int,
                key: key@,
            },
            MigrationStep::Return(result) => MigrationStepView::Return(result),
        }
    }
}

/// What came of a step.
#[derive(Debug)]
pub enum MigrationReply {
    /// Whether the store holds a channel manager.
    ManagerRead(Result<(), IoErrorKind>),
    /// What decoding a migrated channel monitor gave.
    Decoded(Option<DecodedMonitor>),
    /// What decoding the channel monitor in the store gave.
    MonitorRead(Result<Option<DecodedMonitor>, IoErrorKind>),
    Written(Result<(), IoErrorKind>),
}

/// The step that begins with the channel monitor at a position.
pub open spec fn monitor_step(position: int, monitor_count: int) -> MigrationStepView {
    if position >= monitor_count {
        MigrationStepView::Return(Ok(()))
    } else {
        MigrationStepView::DecodeMonitor { position }
    }
}

/// Begins with the channel monitor at a position.
fn begin_monitor(position: usize, monitor_count: usize) -> (step: MigrationStep)
    ensures
        step@ == monitor_step(position as int, monitor_count as int),
{
    if position >= monitor_count {
        MigrationStep::Return(Ok(()))
    } else {
        MigrationStep::DecodeMonitor { position }
    }
}

/// The step that a migration begins with.
pub open spec fn first_step(migration: ChannelDataMigration) -> MigrationStepView {
    if migration.channel_manager is Some {
        MigrationStepView::ReadManager
    } else {
        monitor_step(0, migration.channel_monitors@.len() as int)
    }
}

/// The step that a migration begins with.
pub fn begin_migration(migration: &ChannelDataMigration) -> (step: MigrationStep)
    ensures
        step@ == first_step(*migration),
{
    if migration.channel_manager.is_some() {
        MigrationStep::ReadManager
    } else {
        begin_monitor(0, migration.channel_monitors.len())
    }
}

/// The step that follows a step of a migration of a number of channel monitors. A monitor that cannot be
/// decoded ends the migration. An answer to something else changes nothing.
pub open spec fn step_after(
    step: MigrationStepView,
    reply: MigrationReply,
    monitor_count: int,
) -> MigrationStepView {
    match (step, reply) {
        (MigrationStepView::ReadManager, MigrationReply::ManagerRead(read)) => match manager_write(
            read,
        ) {
            Ok(true) => MigrationStepView::WriteManager,
            Ok(false) => monitor_step(0, monitor_count),
            Err(e) => MigrationStepView::Return(Err(e)),
        },
        (MigrationStepView::WriteManager, MigrationReply::Written(written)) => if written is Ok {
            monitor_step(0, monitor_count)
        } else {
            MigrationStepView::Return(Err(BuildError::WriteFailed))
        },
        (
            MigrationStepView::DecodeMonitor { position },
            MigrationReply::Decoded(decoded),
        ) => match decoded {
            Some(monitor) => MigrationStepView::ReadMonitor {
                position,
                monitor: summary_of(monitor),
            },
            None => MigrationStepView::Return(Err(BuildError::ReadFailed)),
        },
        (
            MigrationStepView::ReadMonitor { position, monitor },
            MigrationReply::MonitorRead(read),
        ) => match monitor_write(monitor.update_id, read) {
            Ok(true) => MigrationStepView::WriteMonitor { position, key: monitor.key },
            Ok(false) => monitor_step(position + 1, monitor_count),
            Err(e) => MigrationStepView::Return(Err(e)),
        },
        (
            MigrationStepView::WriteMonitor { position, .. },
            MigrationReply::Written(written),
        ) => if written is Ok {
            monitor_step(position + 1, monitor_count)
        } else {
            MigrationStepView::Return(Err(BuildError::WriteFailed))
        },
        _ => step,
    }
}

/// The step that follows a step of a migration, given what came of it.
pub fn after_migration_step(
    step: MigrationStep,
    reply: MigrationReply,
    migration: &ChannelDataMigration,
) -> (next: MigrationStep)
    requires
        step matches MigrationStep::ReadMonitor { position, .. } ==> position
            < migration.channel_monitors@.len(),
        step matches MigrationStep::WriteMonitor { position, .. } ==> position
            < migration.channel_monitors@.len(),
    ensures
        next@ == step_after(step@, reply, migration.channel_monitors@.len() as int),
{
    let n: usize = migration.channel_monitors.len();
    match (step, reply) {
        (
            MigrationStep::ReadManager,
            MigrationReply::ManagerRead(read),
        ) => match should_write_manager(read) {
            Ok(write) => {
                if write {
                    MigrationStep::WriteManager
                } else {
                    begin_monitor(0, n)
                }
            },
            Err(e) => MigrationStep::Return(Err(e)),
        },
        (MigrationStep::WriteManager, MigrationReply::Written(written)) => {
            if written.is_ok() {
                begin_monitor(0, n)
            } else {
                MigrationStep::Return(Err(BuildError::WriteFailed))
            }
        },
        (
            MigrationStep::DecodeMonitor { position },
            MigrationReply::Decoded(decoded),
        ) => match summarize_monitor(decoded) {
            Some(monitor) => MigrationStep::ReadMonitor { position, monitor },
            None => MigrationStep::Return(Err(BuildError::ReadFailed)),
        },
        (
            MigrationStep::ReadMonitor { position, monitor },
            MigrationReply::MonitorRead(read),
        ) => match should_write_monitor(monitor.update_id, read) {
            Ok(write) => {
                if write {
                    MigrationStep::WriteMonitor { position, key: monitor.key }
                } else {
                    begin_monitor(position + 1, n)
                }
            },
            Err(e) => MigrationStep::Return(Err(e)),
        },
        (MigrationStep::WriteMonitor { position, .. }, MigrationReply::Written(written)) => {
            if written.is_ok() {
                begin_monitor(position + 1, n)
            } else {
                MigrationStep::Return(Err(BuildError::WriteFailed))
            }
        },
        (step, _) => step,
    }
}

/// A monitor in the store is never replaced by one that is not newer, nor is one that cannot be decoded,
/// nor is anything written where the store cannot tell what it holds.
pub proof fn law_newer_monitors_are_kept(
    position: int,
    monitor: MonitorSummaryView,
    read: Result<Option<DecodedMonitor>, IoErrorKind>,
    monitor_count: int,
)
    requires
        step_after(
            MigrationStepView::ReadMonitor { position, monitor },
            MigrationReply::MonitorRead(read),
            monitor_count,
        ) is WriteMonitor,
    ensures
        read matches Err(e) ==> e == IoErrorKind::NotFound,
        read matches Ok(found) ==> is_older(found, monitor.update_id),
{
}

/// A channel manager in the store is never replaced.
pub proof fn law_the_channel_manager_is_kept(read: Result<(), IoErrorKind>, monitor_count: int)
    requires
        step_after(
            MigrationStepView::ReadManager,
            MigrationReply::ManagerRead(read),
            monitor_count,
        ) is WriteManager,
    ensures
        read == Err::<(), IoErrorKind>(IoErrorKind::NotFound),
{
}

/// What a store holds of the channels.
#[verifier::ext_equal]
pub struct ChannelStore {
    pub manager: Option<Seq<u8>>,
    /// The channel monitors, by their keys.
    pub monitors: Map<Seq<char>, Seq<u8>>,
}

/// How serialized channel monitors are decoded.
pub type MonitorDecoder = spec_fn(Seq<u8>) -> Option<DecodedMonitor>;

/// What comes of a step on a store that fails at nothing, and what the store holds then.
pub open spec fn perform(
    step: MigrationStepView,
    store: ChannelStore,
    migration: ChannelDataMigration,
    decode: MonitorDecoder,
) -> (MigrationReply, ChannelStore) {
    match step {
        MigrationStepView::ReadManager => (
            MigrationReply::ManagerRead(
                if store.manager is Some {
                    Ok(())
                } else {
                    Err(IoErrorKind::NotFound)
                },
            ),
            store,
        ),
        MigrationStepView::WriteManager => (
            MigrationReply::Written(Ok(())),
            ChannelStore { manager: Some(migration.channel_manager->0@), ..store },
        ),
        MigrationStepView::DecodeMonitor { position } => (
            MigrationReply::Decoded(decode(migration.channel_monitors@[position]@)),
            store,
        ),
        MigrationStepView::ReadMonitor { monitor, .. } => (
            MigrationReply::MonitorRead(
                if store.monitors.dom().contains(monitor.key) {
                    Ok(decode(store.monitors[monitor.key]))
                } else {
                    Err(IoErrorKind::NotFound)
                },
            ),
            store,
        ),
        MigrationStepView::WriteMonitor { position, key } => (
            MigrationReply::Written(Ok(())),
            ChannelStore {
                monitors: store.monitors.insert(key, migration.channel_monitors@[position]@),
                ..store
            },
        ),
        MigrationStepView::Return(_) => (MigrationReply::Written(Ok(())), store),
    }
}

/// Where a migration is after a number of further steps, and what the store holds then.
pub open spec fn run(
    step: MigrationStepView,
    store: ChannelStore,
    migration: ChannelDataMigration,
    decode: MonitorDecoder,
    steps: nat,
) -> (MigrationStepView, ChannelStore)
    decreases steps,
{
    if steps == 0 {
        (step, store)
    } else {
        let (reply, after) = perform(step, store, migration, decode);
        run(
            step_after(step, reply, migration.channel_monitors@.len() as int),
            after,
            migration,
            decode,
            (steps - 1) as nat,
        )
    }
}

/// More steps than any migration takes.
pub open spec fn enough_steps(migration: ChannelDataMigration) -> nat {
    3 * migration.channel_monitors@.len() + 2
}

/// The key of the channel monitor at a position of a migration.
pub open spec fn key_at(
    migration: ChannelDataMigration,
    decode: MonitorDecoder,
    i: int,
) -> Seq<char> {
    summary_of(decode(migration.channel_monitors@[i]@)->0).key
}

/// Whether every channel monitor of a migration can be decoded, and no two are of the same channel.
pub open spec fn is_sound(migration: ChannelDataMigration, decode: MonitorDecoder) -> bool {
    &&& forall|i: int|
        0 <= i < migration.channel_monitors@.len() ==> decode(
            (#[trigger] migration.channel_monitors@[i])@,
        ) is Some
    &&& forall|i: int, j: int|
        0 <= i < j < migration.channel_monitors@.len() ==> #[trigger] key_at(migration, decode, i)
            != #[trigger] key_at(migration, decode, j)
}

/// Whether the channel monitor at a position of a migration goes into a store.
pub open spec fn goes_in(
    migration: ChannelDataMigration,
    decode: MonitorDecoder,
    monitors: Map<Seq<char>, Seq<u8>>,
    i: int,
) -> bool {
    let key = key_at(migration, decode, i);
    monitors.dom().contains(key) ==> is_older(
        decode(monitors[key]),
        summary_of(decode(migration.channel_monitors@[i]@)->0).update_id,
    )
}

/// The channel monitors of a store once those of a migration below a position went in.
pub open spec fn taken_over(
    migration: ChannelDataMigration,
    decode: MonitorDecoder,
    monitors: Map<Seq<char>, Seq<u8>>,
    n: int,
) -> Map<Seq<char>, Seq<u8>>
    decreases n,
{
    if n <= 0 {
        monitors
    } else {
        let before = taken_over(migration, decode, monitors, n - 1);
        if goes_in(migration, decode, before, n - 1) {
            before.insert(
                key_at(migration, decode, n - 1),
                migration.channel_monitors@[n - 1]@,
            )
        } else {
            before
        }
    }
}

/// From the channel monitor at a position on, all that are left go in, each in at most three steps.
proof fn lemma_run_monitors(
    store: ChannelStore,
    monitors: Map<Seq<char>, Seq<u8>>,
    migration: ChannelDataMigration,
    decode: MonitorDecoder,
    i: int,
    steps: nat,
)
    requires
        is_sound(migration, decode),
        0 <= i <= migration.channel_monitors@.len(),
        store.monitors == taken_over(migration, decode, monitors, i),
        steps >= 3 * (migration.channel_monitors@.len() - i),
    ensures
        ({
            let n = migration.channel_monitors@.len() as int;
            run(monitor_step(i, n), store, migration, decode, steps) == (
                MigrationStepView::Return(Ok::<(), BuildError>(())),
                ChannelStore {
                    monitors: taken_over(migration, decode, monitors, n),
                    ..store
                },
            )
        }),
    decreases migration.channel_monitors@.len() - i, steps,
{
    let n = migration.channel_monitors@.len() as int;
    if i == n {
        lemma_run_over(store, migration, decode, Ok(()), steps);
    } else {
        let bytes = migration.channel_monitors@[i]@;
        let monitor = summary_of(decode(bytes)->0);
        assert(decode(bytes) is Some);
        let reading = MigrationStepView::ReadMonitor { position: i, monitor };
        let one = (steps - 1) as nat;
        let two = (steps - 2) as nat;
        assert(run(monitor_step(i, n), store, migration, decode, steps) == run(
            reading,
            store,
            migration,
            decode,
            one,
        ));
        assert(taken_over(migration, decode, monitors, i + 1) == (if goes_in(
            migration,
            decode,
            store.monitors,
            i,
        ) {
            store.monitors.insert(monitor.key, bytes)
        } else {
            store.monitors
        }));
        if goes_in(migration, decode, store.monitors, i) {
            let writing = MigrationStepView::WriteMonitor { position: i, key: monitor.key };
            let after = ChannelStore { monitors: store.monitors.insert(monitor.key, bytes), ..store };
            assert(run(reading, store, migration, decode, one) == run(
                writing,
                store,
                migration,
                decode,
                two,
            ));
            assert(run(writing, store, migration, decode, two) == run(
                monitor_step(i + 1, n),
                after,
                migration,
                decode,
                (steps - 3) as nat,
            ));
            lemma_run_monitors(after, monitors, migration, decode, i + 1, (steps - 3) as nat);
        } else {
            assert(run(reading, store, migration, decode, one) == run(
                monitor_step(i + 1, n),
                store,
                migration,
                decode,
                two,
            ));
            lemma_run_monitors(store, monitors, migration, decode, i + 1, two);
        }
    }
}

/// A migration that is over changes nothing any more.
proof fn lemma_run_over(
    store: ChannelStore,
    migration: ChannelDataMigration,
    decode: MonitorDecoder,
    result: Result<(), BuildError>,
    steps: nat,
)
    ensures
        run(MigrationStepView::Return(result), store, migration, decode, steps) == (
            MigrationStepView::Return(result),
            store,
        ),
    decreases steps,
{
    if steps > 0 {
        lemma_run_over(store, migration, decode, result, (steps - 1) as nat);
    }
}

/// What went in stays as it is while those of other channels go in.
proof fn lemma_taken_over(
    migration: ChannelDataMigration,
    decode: MonitorDecoder,
    monitors: Map<Seq<char>, Seq<u8>>,
    n: int,
)
    requires
        is_sound(migration, decode),
        0 <= n <= migration.channel_monitors@.len(),
    ensures
        forall|i: int|
            #![trigger key_at(migration, decode, i)]
            0 <= i < n ==> {
                let key = key_at(migration, decode, i);
                let after = taken_over(migration, decode, monitors, n);
                &&& after.dom().contains(key)
                &&& after[key] == if goes_in(migration, decode, monitors, i) {
                    migration.channel_monitors@[i]@
                } else {
                    monitors[key]
                }
            },
        forall|key: Seq<char>|
            #![trigger taken_over(migration, decode, monitors, n).dom().contains(key)]
            (forall|i: int| 0 <= i < n ==> key != #[trigger] key_at(migration, decode, i)) ==> {
                let after = taken_over(migration, decode, monitors, n);
                &&& after.dom().contains(key) == monitors.dom().contains(key)
                &&& after[key] == monitors[key]
            },
    decreases n,
{
    if n > 0 {
        lemma_taken_over(migration, decode, monitors, n - 1);
        let before = taken_over(migration, decode, monitors, n - 1);
        let after = taken_over(migration, decode, monitors, n);
        let last = key_at(migration, decode, n - 1);
        assert(before.dom().contains(last) == monitors.dom().contains(last) && before[last]
            == monitors[last]);
        assert forall|key: Seq<char>|
            (forall|i: int| 0 <= i < n ==> key != #[trigger] key_at(
                migration,
                decode,
                i,
            )) implies #[trigger] after.dom().contains(key) == monitors.dom().contains(key)
            && after[key] == monitors[key] by {
            assert(key != last);
            assert(before.dom().contains(key) == monitors.dom().contains(key));
        }
    }
}

/// What a migration leaves in a store that fails at nothing, where all its channel monitors can be
/// decoded and no two are of the same channel. It succeeds. A channel manager that was there stays,
/// whatever it is; the migrated one goes in where there was none. A migrated channel monitor goes in
/// where there was none of its channel, or an older one; what else was there stays, even if it cannot be
/// decoded. Nothing else changes.
pub proof fn law_a_migration_takes_over_what_is_newer(
    migration: ChannelDataMigration,
    store: ChannelStore,
    decode: MonitorDecoder,
)
    requires
        is_sound(migration, decode),
    ensures
        ({
            let (end, after) = run(
                first_step(migration),
                store,
                migration,
                decode,
                enough_steps(migration),
            );
            &&& end == MigrationStepView::Return(Ok::<(), BuildError>(()))
            &&& after.manager == (match (store.manager, migration.channel_manager) {
                (None, Some(bytes)) => Some(bytes@),
                _ => store.manager,
            })
            &&& forall|i: int|
                #![trigger key_at(migration, decode, i)]
                0 <= i < migration.channel_monitors@.len() ==> {
                    let key = key_at(migration, decode, i);
                    let migrated = migration.channel_monitors@[i]@;
                    &&& after.monitors.dom().contains(key)
                    &&& after.monitors[key] == if !store.monitors.dom().contains(key) || is_older(
                        decode(store.monitors[key]),
                        summary_of(decode(migrated)->0).update_id,
                    ) {
                        migrated
                    } else {
                        store.monitors[key]
                    }
                }
            &&& forall|key: Seq<char>|
                (forall|i: int|
                    0 <= i < migration.channel_monitors@.len() ==> key != #[trigger] key_at(
                        migration,
                        decode,
                        i,
                    )) ==> {
                    &&& #[trigger] after.monitors.dom().contains(key)
                        == store.monitors.dom().contains(key)
                    &&& after.monitors[key] == store.monitors[key]
                }
        }),
{
    lemma_run(migration, store, decode);
    lemma_taken_over(
        migration,
        decode,
        store.monitors,
        migration.channel_monitors@.len() as int,
    );
}

/// The end of a migration, and what it leaves in a store.
proof fn lemma_run(migration: ChannelDataMigration, store: ChannelStore, decode: MonitorDecoder)
    requires
        is_sound(migration, decode),
    ensures
        run(first_step(migration), store, migration, decode, enough_steps(migration)) == (
            MigrationStepView::Return(Ok::<(), BuildError>(())),
            ChannelStore {
                manager: match (store.manager, migration.channel_manager) {
                    (None, Some(bytes)) => Some(bytes@),
                    _ => store.manager,
                },
                monitors: taken_over(
                    migration,
                    decode,
                    store.monitors,
                    migration.channel_monitors@.len() as int,
                ),
            },
        ),
{
    let n = migration.channel_monitors@.len() as int;
    let steps = enough_steps(migration);
    match migration.channel_manager {
        None => lemma_run_monitors(store, store.monitors, migration, decode, 0, steps),
        Some(bytes) => {
            let one = (steps - 1) as nat;
            let two = (steps - 2) as nat;
            if store.manager is Some {
                assert(run(first_step(migration), store, migration, decode, steps) == run(
                    monitor_step(0, n),
                    store,
                    migration,
                    decode,
                    one,
                ));
                lemma_run_monitors(store, store.monitors, migration, decode, 0, one);
            } else {
                let after = ChannelStore { manager: Some(bytes@), ..store };
                assert(run(first_step(migration), store, migration, decode, steps) == run(
                    MigrationStepView::WriteManager,
                    store,
                    migration,
                    decode,
                    one,
                ));
                assert(run(MigrationStepView::WriteManager, store, migration, decode, one) == run(
                    monitor_step(0, n),
                    after,
                    migration,
                    decode,
                    two,
                ));
                lemma_run_monitors(after, store.monitors, migration, decode, 0, two);
            }
        },
    }
}

/// A migration that was carried out changes nothing when it is carried out once more.
pub proof fn law_a_second_migration_changes_nothing(
    migration: ChannelDataMigration,
    store: ChannelStore,
    decode: MonitorDecoder,
)
    requires
        is_sound(migration, decode),
    ensures
        ({
            let steps = enough_steps(migration);
            let once = run(first_step(migration), store, migration, decode, steps).1;
            run(first_step(migration), once, migration, decode, steps) == (
                MigrationStepView::Return(Ok::<(), BuildError>(())),
                once,
            )
        }),
{
    let n = migration.channel_monitors@.len() as int;
    let steps = enough_steps(migration);
    lemma_run(migration, store, decode);
    let once = run(first_step(migration), store, migration, decode, steps).1;
    lemma_run(migration, once, decode);
    let twice = run(first_step(migration), once, migration, decode, steps).1;
    lemma_taken_over(migration, decode, store.monitors, n);
    lemma_taken_over(migration, decode, once.monitors, n);
    assert forall|i: int| 0 <= i < n implies !#[trigger] goes_in(
        migration,
        decode,
        once.monitors,
        i,
    ) by {
        let key = key_at(migration, decode, i);
        assert(once.monitors.dom().contains(key));
    }
    assert forall|key: Seq<char>| #[trigger]
        twice.monitors.dom().contains(key) == once.monitors.dom().contains(key)
            && twice.monitors[key] == once.monitors[key] by {
        if exists|i: int| 0 <= i < n && key == #[trigger] key_at(migration, decode, i) {
            let i = choose|i: int| 0 <= i < n && key == #[trigger] key_at(migration, decode, i);
            assert(!goes_in(migration, decode, once.monitors, i));
        }
    }
    assert(twice.monitors =~= once.monitors);
}

/// A channel monitor in the store is older exactly if it can be decoded and its latest update has a lower
/// number: one with the same number is as good, and one that cannot be decoded may be newer.
pub proof fn law_older_is_fewer_updates(txid: Txid, index: u16, update_id: u64, migrated: u64)
    ensures
        is_older(Some((txid, index, update_id)), migrated) <==> update_id < migrated,
        !is_older(None, migrated),
{
}

/// What is written: a channel manager only where the store has none, a channel monitor only where the store
/// has none or an older one. A store that cannot tell what it holds fails the migration.
pub proof fn law_what_is_written(
    kind: IoErrorKind,
    txid: Txid,
    index: u16,
    update_id: u64,
    migrated: u64,
)
    ensures
        manager_write(Ok(())) == Ok::<bool, BuildError>(false),
        manager_write(Err(IoErrorKind::NotFound)) == Ok::<bool, BuildError>(true),
        monitor_write(migrated, Ok(None)) == Ok::<bool, BuildError>(false),
        monitor_write(migrated, Err(IoErrorKind::NotFound)) == Ok::<bool, BuildError>(true),
        monitor_write(migrated, Ok(Some((txid, index, update_id)))) == Ok::<bool, BuildError>(
            update_id < migrated,
        ),
        kind != IoErrorKind::NotFound ==> manager_write(Err(kind)) == Err::<bool, BuildError>(
            BuildError::ReadFailed,
        ) && monitor_write(migrated, Err(kind)) == Err::<bool, BuildError>(BuildError::ReadFailed),
{
}

/// Channels have keys of their own: the transaction that funds them as it is shown, an underscore, and the
/// position of the output in decimal digits.
pub proof fn law_monitor_keys_tell_channels_apart(a: DecodedMonitor, b: DecodedMonitor)
    ensures
        summary_of(a).key == crate::hex::hex_text(a.0.0@.reverse()) + seq!['_']
            + crate::text::decimal(a.1 as nat),
        summary_of(a).update_id == a.2,
        summary_of(a).key == summary_of(b).key <==> a.0.0@ == b.0.0@ && a.1 == b.1,
{
    reveal_strlit("_");
    assert("_"@ =~= seq!['_']);
    let (ra, rb) = (a.0.0@.reverse(), b.0.0@.reverse());
    let (ha, hb) = (crate::hex::hex_text(ra), crate::hex::hex_text(rb));
    let (da, db) = (crate::text::decimal(a.1 as nat), crate::text::decimal(b.1 as nat));
    let (ka, kb) = (ha + "_"@ + da, hb + "_"@ + db);
    if ka == kb {
        assert(ha.len() == 64 && hb.len() == 64);
        assert(ha =~= ka.subrange(0, 64));
        assert(hb =~= kb.subrange(0, 64));
        assert(da =~= ka.subrange(65, ka.len() as int));
        assert(db =~= kb.subrange(65, kb.len() as int));
        crate::hex::law_hex_injective(ra, rb);
        crate::text::law_decimal_round_trip(a.1 as nat);
        crate::text::law_decimal_round_trip(b.1 as nat);
        assert(a.0.0@ =~= ra.reverse());
        assert(b.0.0@ =~= rb.reverse());
    }
}

/// Whatever fails ends a migration: a read as a failed read, a write as a failed write, and a migrated
/// channel monitor that cannot be decoded as a failed read. Nothing is written after that.
pub proof fn law_failures_end_a_migration(
    position: int,
    monitor: MonitorSummaryView,
    key: Seq<char>,
    kind: IoErrorKind,
    count: int,
    reply: MigrationReply,
    result: Result<(), BuildError>,
)
    ensures
        kind != IoErrorKind::NotFound ==> step_after(
            MigrationStepView::ReadManager,
            MigrationReply::ManagerRead(Err(kind)),
            count,
        ) == MigrationStepView::Return(Err(BuildError::ReadFailed)),
        kind != IoErrorKind::NotFound ==> step_after(
            MigrationStepView::ReadMonitor { position, monitor },
            MigrationReply::MonitorRead(Err(kind)),
            count,
        ) == MigrationStepView::Return(Err(BuildError::ReadFailed)),
        step_after(
            MigrationStepView::DecodeMonitor { position },
            MigrationReply::Decoded(None),
            count,
        ) == MigrationStepView::Return(Err(BuildError::ReadFailed)),
        step_after(
            MigrationStepView::WriteManager,
            MigrationReply::Written(Err(kind)),
            count,
        ) == MigrationStepView::Return(Err(BuildError::WriteFailed)),
        step_after(
            MigrationStepView::WriteMonitor { position, key },
            MigrationReply::Written(Err(kind)),
            count,
        ) == MigrationStepView::Return(Err(BuildError::WriteFailed)),
        step_after(MigrationStepView::Return(result), reply, count) == MigrationStepView::Return(
            result,
        ),
{
}

/// What a migration writes: the channel manager where the store has none, and a channel monitor where the
/// store has none or one of fewer updates.
pub proof fn law_newer_channel_data_is_written(
    txid: Txid,
    index: u16,
    stored: u64,
    migrated: u64,
    over_stored: Result<bool, BuildError>,
    over_unreadable: Result<bool, BuildError>,
    where_none_is: Result<bool, BuildError>,
    manager_over_stored: Result<bool, BuildError>,
    manager_where_none_is: Result<bool, BuildError>,
)
    requires
        call_ensures(
            should_write_monitor,
            (migrated, Ok(Some((txid, index, stored)))),
            over_stored,
        ),
        call_ensures(should_write_monitor, (migrated, Ok(None)), over_unreadable),
        call_ensures(
            should_write_monitor,
            (migrated, Err(IoErrorKind::NotFound)),
            where_none_is,
        ),
        call_ensures(should_write_manager, (Ok(()),), manager_over_stored),
        call_ensures(should_write_manager, (Err(IoErrorKind::NotFound),), manager_where_none_is),
    ensures
        over_stored == Ok::<bool, BuildError>(stored < migrated),
        over_unreadable == Ok::<bool, BuildError>(false),
        where_none_is == Ok::<bool, BuildError>(true),
        manager_over_stored == Ok::<bool, BuildError>(false),
        manager_where_none_is == Ok::<bool, BuildError>(true),
{
}

/// The monitors of two channels have the same key exactly if they are of the same funding.
pub proof fn law_monitors_have_keys_of_their_own(
    a: Txid,
    i: u16,
    first: String,
    b: Txid,
    j: u16,
    second: String,
)
    requires
        call_ensures(monitor_key, (a, i), first),
        call_ensures(monitor_key, (b, j), second),
    ensures
        first@ == second@ <==> a.0@ == b.0@ && i == j,
{
    law_monitor_keys_tell_channels_apart((a, i, 0), (b, j, 0));
}

} // verus!
