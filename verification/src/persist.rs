//! How the document gets to disk: where it is kept, in which steps it is
//! written, which of two writers gives way, and when window moves are saved.
use vstd::prelude::*;

use crate::external::now_seconds;
use crate::path::{
    child_of, is_extension_dot, parent_of, path_of, stem, with_extension_of, DataPath, PathView,
};
use crate::store::next_generation;
use crate::text::{decimal, decimal_text, decimals_are_distinct};

verus! {

/// Where the document is kept: under the directory that the platform gives the
/// application, else under a directory of its own in the user's data directory.
pub open spec fn document_path(
    app_dir: Option<PathView>,
    data_dir: Option<PathView>,
) -> Option<PathView> {
    match app_dir {
        Some(dir) => Some(child_of(dir, "todos.json"@)),
        None => match data_dir {
            Some(dir) => Some(child_of(child_of(dir, "usticky"@), "todos.json"@)),
            None => None,
        },
    }
}

/// Where the document is kept; `None` where no directory is known.
pub fn resolve_data_path(app_dir: Option<DataPath>, data_dir: Option<DataPath>) -> (r: Option<
    DataPath,
>)
    ensures
        path_of(r) == document_path(path_of(app_dir), path_of(data_dir)),
{
    match app_dir {
        Some(dir) => Some(dir.join("todos.json")),
        None => match data_dir {
            Some(dir) => Some(dir.join("usticky").join("todos.json")),
            None => None,
        },
    }
}

/// The name under which an unreadable document is set aside at the time `ts`
/// (seconds since the epoch).
pub fn backup_path(path: &DataPath, ts: i64) -> (r: DataPath)
    ensures
        r@ == with_extension_of(path@, "json.bak."@ + decimal(ts as int)),
{
    let mut ext = "json.bak.".to_owned();
    let digits = decimal_text(ts);
    ext.append(digits.as_str());
    path.with_extension(ext.as_str())
}

/// The name under which an unreadable document is set aside now.
pub fn backup_corrupt_file(path: &DataPath) -> (r: DataPath)
    ensures
        exists|ts: i64|
            r@ == with_extension_of(path@, "json.bak."@ + #[trigger] decimal(ts as int)),
{
    let ts = now_seconds();
    backup_path(path, ts)
}

/// Documents that are set aside at different times never overwrite each other,
/// nor the document itself, whose name is `todos.json`.
pub proof fn backups_do_not_collide(path: PathView, a: i64, b: i64)
    requires
        a != b,
        path.names.len() > 0,
        path.names.last() == "todos.json"@,
    ensures
        with_extension_of(path, "json.bak."@ + decimal(a as int)) != with_extension_of(
            path,
            "json.bak."@ + decimal(b as int),
        ),
        with_extension_of(path, "json.bak."@ + decimal(a as int)) != path,
{
    reveal_strlit("todos.json");
    reveal_strlit("..");
    reveal_strlit("json.bak.");
    reveal_strlit(".");
    decimals_are_distinct(a as int, b as int);
    let front = stem(path.names.last()) + "."@;
    let ext_a = "json.bak."@ + decimal(a as int);
    let ext_b = "json.bak."@ + decimal(b as int);
    assert("todos.json"@.len() != ".."@.len());
    let pa = with_extension_of(path, ext_a);
    let pb = with_extension_of(path, ext_b);
    assert(pa.names.last() == front + ext_a);
    assert(pb.names.last() == front + ext_b);
    if pa == pb {
        assert((front + ext_a).skip(front.len() as int) == ext_a);
        assert((front + ext_b).skip(front.len() as int) == ext_b);
        let n = "json.bak."@.len() as int;
        assert(ext_a.skip(n) == decimal(a as int));
        assert(ext_b.skip(n) == decimal(b as int));
    }
    assert(is_extension_dot("todos.json"@, 5));
    let k = choose|k: int| is_extension_dot("todos.json"@, k);
    assert(k == 5);
    assert(front.len() == 6);
    assert((front + ext_a).len() > 10);
}

/// The permission bits of the files that the program creates on Unix: they are
/// for their owner alone.
pub const PRIVATE_MODE: u32 = 0o600;

/// One thing to do on disk while the document is written.
#[derive(Debug, Clone, Copy, PartialEq, Eq, Structural)]
pub enum PersistStage {
    /// Create the directory, with all above it.
    CreateDir,
    /// Create the temporary file, readable by its owner alone.
    OpenTmp,
    /// Turn the document into bytes.
    Serialize,
    /// Write the bytes to the temporary file.
    WriteTmp,
    /// Flush the temporary file to the device.
    SyncTmp,
    /// Move the temporary file over the document.
    Rename,
    /// Flush the directory to the device.
    SyncDir,
}

/// What the writer does next.
#[derive(Debug, Clone, Copy, PartialEq, Eq, Structural)]
pub enum PersistStep {
    Do(PersistStage),
    Done,
    Failed(PersistStage),
}

/// The files that take part in a write.
#[derive(Debug)]
pub struct PersistPlan {
    /// The directory of the document, where it has one.
    pub dir: Option<DataPath>,
    /// The temporary file beside the document.
    pub tmp: DataPath,
    /// Whether the directory itself is flushed at the end.
    pub sync_dir: bool,
}

/// The plan for writing the document at `path`. Directories are flushed on
/// Unix only.
pub fn persist_plan(path: &DataPath, unix: bool) -> (r: PersistPlan)
    ensures
        path_of(r.dir) == parent_of(path@),
        r.tmp@ == with_extension_of(path@, "json.tmp"@),
        r.sync_dir == (unix && parent_of(path@) is Some),
{
    let dir = path.parent();
    let sync_dir = unix && dir.is_some();
    PersistPlan { dir, tmp: path.with_extension("json.tmp"), sync_dir }
}

/// The temporary file is never the document itself, whose name is `todos.json`.
pub proof fn temporary_file_is_another(path: PathView)
    requires
        path.names.len() > 0,
        path.names.last() == "todos.json"@,
    ensures
        with_extension_of(path, "json.tmp"@) != path,
{
    reveal_strlit("todos.json");
    reveal_strlit("..");
    reveal_strlit("json.tmp");
    reveal_strlit(".");
    assert("todos.json"@.len() != ".."@.len());
    assert(is_extension_dot("todos.json"@, 5));
    let k = choose|k: int| is_extension_dot("todos.json"@, k);
    assert(k == 5);
    let name = stem(path.names.last()) + "."@ + "json.tmp"@;
    assert(name.len() == 14);
    assert(with_extension_of(path, "json.tmp"@).names.last() == name);
}

/// The first step of a write.
pub open spec fn first_step(has_dir: bool) -> PersistStep {
    if has_dir {
        PersistStep::Do(PersistStage::CreateDir)
    } else {
        PersistStep::Do(PersistStage::OpenTmp)
    }
}

/// The step after `stage`. A failure ends the write, except that of flushing
/// the directory: by then the document is in place.
pub open spec fn step_after(sync_dir: bool, stage: PersistStage, ok: bool) -> PersistStep {
    match stage {
        PersistStage::SyncDir => PersistStep::Done,
        _ => if !ok {
            PersistStep::Failed(stage)
        } else {
            match stage {
                PersistStage::CreateDir => PersistStep::Do(PersistStage::OpenTmp),
                PersistStage::OpenTmp => PersistStep::Do(PersistStage::Serialize),
                PersistStage::Serialize => PersistStep::Do(PersistStage::WriteTmp),
                PersistStage::WriteTmp => PersistStep::Do(PersistStage::SyncTmp),
                PersistStage::SyncTmp => PersistStep::Do(PersistStage::Rename),
                PersistStage::Rename => if sync_dir {
                    PersistStep::Do(PersistStage::SyncDir)
                } else {
                    PersistStep::Done
                },
                PersistStage::SyncDir => PersistStep::Done,
            }
        },
    }
}

impl PersistPlan {
    /// The first step of the write.
    pub fn begin(&self) -> (r: PersistStep)
        ensures
            r == first_step(self.dir is Some),
    {
        if self.dir.is_some() {
            PersistStep::Do(PersistStage::CreateDir)
        } else {
            PersistStep::Do(PersistStage::OpenTmp)
        }
    }

    /// The step after `stage`, which went well or not.
    pub fn next(&self, stage: PersistStage, ok: bool) -> (r: PersistStep)
        ensures
            r == step_after(self.sync_dir, stage, ok),
    {
        match stage {
            PersistStage::SyncDir => PersistStep::Done,
            _ => if !ok {
                PersistStep::Failed(stage)
            } else {
                match stage {
                    PersistStage::CreateDir => PersistStep::Do(PersistStage::OpenTmp),
                    PersistStage::OpenTmp => PersistStep::Do(PersistStage::Serialize),
                    PersistStage::Serialize => PersistStep::Do(PersistStage::WriteTmp),
                    PersistStage::WriteTmp => PersistStep::Do(PersistStage::SyncTmp),
                    PersistStage::SyncTmp => PersistStep::Do(PersistStage::Rename),
                    PersistStage::Rename => if self.sync_dir {
                        PersistStep::Do(PersistStage::SyncDir)
                    } else {
                        PersistStep::Done
                    },
                    PersistStage::SyncDir => PersistStep::Done,
                }
            },
        }
    }
}

/// What the user is told of a failed stage, in front of the system's own words.
pub fn failure_context(stage: PersistStage) -> (r: &'static str)
    ensures
        r@ == match stage {
            PersistStage::CreateDir => "create data dir"@,
            PersistStage::OpenTmp => "create tmp file"@,
            PersistStage::Serialize => "serialize"@,
            PersistStage::WriteTmp => "write tmp"@,
            PersistStage::SyncTmp => "fsync tmp"@,
            PersistStage::Rename => "atomic rename"@,
            PersistStage::SyncDir => "fsync data dir"@,
        },
{
    match stage {
        PersistStage::CreateDir => "create data dir",
        PersistStage::OpenTmp => "create tmp file",
        PersistStage::Serialize => "serialize",
        PersistStage::WriteTmp => "write tmp",
        PersistStage::SyncTmp => "fsync tmp",
        PersistStage::Rename => "atomic rename",
        PersistStage::SyncDir => "fsync data dir",
    }
}

/// How far a stage is from the end of a write.
pub open spec fn stages_left(stage: PersistStage) -> nat {
    match stage {
        PersistStage::CreateDir => 6,
        PersistStage::OpenTmp => 5,
        PersistStage::Serialize => 4,
        PersistStage::WriteTmp => 3,
        PersistStage::SyncTmp => 2,
        PersistStage::Rename => 1,
        PersistStage::SyncDir => 0,
    }
}

/// The stages that a write performs from `stage` on, where `ok` says which ones
/// go well.
pub open spec fn performed(
    sync_dir: bool,
    ok: spec_fn(PersistStage) -> bool,
    stage: PersistStage,
) -> Seq<PersistStage>
    decreases stages_left(stage),
{
    match step_after(sync_dir, stage, ok(stage)) {
        PersistStep::Do(next) => if stages_left(next) < stages_left(stage) {
            seq![stage] + performed(sync_dir, ok, next)
        } else {
            seq![stage]
        },
        _ => seq![stage],
    }
}

/// How a write ends that stands before `stage`.
pub open spec fn persist_result(
    sync_dir: bool,
    ok: spec_fn(PersistStage) -> bool,
    stage: PersistStage,
) -> PersistStep
    decreases stages_left(stage),
{
    match step_after(sync_dir, stage, ok(stage)) {
        PersistStep::Do(next) => if stages_left(next) < stages_left(stage) {
            persist_result(sync_dir, ok, next)
        } else {
            PersistStep::Done
        },
        end => end,
    }
}

/// Whether everything up to and including the replacement of the document goes
/// well.
pub open spec fn all_well(has_dir: bool, ok: spec_fn(PersistStage) -> bool) -> bool {
    &&& has_dir ==> ok(PersistStage::CreateDir)
    &&& ok(PersistStage::OpenTmp)
    &&& ok(PersistStage::Serialize)
    &&& ok(PersistStage::WriteTmp)
    &&& ok(PersistStage::SyncTmp)
    &&& ok(PersistStage::Rename)
}

/// A write is reported as done if and only if the document was replaced; the
/// document is touched only after the new bytes are safely in the temporary
/// file, and a failure names a stage that failed.
pub proof fn write_is_atomic(
    has_dir: bool,
    sync_dir: bool,
    ok: spec_fn(PersistStage) -> bool,
)
    ensures
        persist_result(sync_dir, ok, first_step(has_dir)->Do_0) == PersistStep::Done <==> all_well(
            has_dir,
            ok,
        ),
        performed(sync_dir, ok, first_step(has_dir)->Do_0).contains(PersistStage::Rename) ==> ok(
            PersistStage::OpenTmp,
        ) && ok(PersistStage::Serialize) && ok(PersistStage::WriteTmp) && ok(
            PersistStage::SyncTmp,
        ),
        match persist_result(sync_dir, ok, first_step(has_dir)->Do_0) {
            PersistStep::Failed(stage) => !ok(stage) && performed(
                sync_dir,
                ok,
                first_step(has_dir)->Do_0,
            ).last() == stage,
            _ => true,
        },
{
    let start = first_step(has_dir)->Do_0;
    lemma_write_from(sync_dir, ok, start);
    assert(stages_left(PersistStage::CreateDir) == 6);
    assert(stages_left(PersistStage::OpenTmp) == 5);
    assert(stages_left(PersistStage::Serialize) == 4);
    assert(stages_left(PersistStage::WriteTmp) == 3);
    assert(stages_left(PersistStage::SyncTmp) == 2);
    assert(stages_left(PersistStage::Rename) == 1);
}

/// How a write goes on that stands before `stage`.
proof fn lemma_write_from(
    sync_dir: bool,
    ok: spec_fn(PersistStage) -> bool,
    stage: PersistStage,
)
    ensures
        performed(sync_dir, ok, stage).len() > 0,
        persist_result(sync_dir, ok, stage) == PersistStep::Done <==> forall|s: PersistStage|
            1 <= #[trigger] stages_left(s) <= stages_left(stage) ==> ok(s),
        performed(sync_dir, ok, stage).contains(PersistStage::Rename) ==> forall|s: PersistStage|
            2 <= #[trigger] stages_left(s) <= stages_left(stage) ==> ok(s),
        persist_result(sync_dir, ok, stage) matches PersistStep::Failed(s) ==> !ok(s)
            && performed(sync_dir, ok, stage).last() == s,
    decreases stages_left(stage),
{
    match step_after(sync_dir, stage, ok(stage)) {
        PersistStep::Do(next) => {
            lemma_write_from(sync_dir, ok, next);
            let rest = performed(sync_dir, ok, next);
            let all = seq![stage] + rest;
            assert(performed(sync_dir, ok, stage) == all);
            assert(all.last() == rest.last());
            if all.contains(PersistStage::Rename) && stage != PersistStage::Rename {
                let i = choose|i: int| 0 <= i < all.len() && all[i] == PersistStage::Rename;
                assert(rest[i - 1] == PersistStage::Rename);
            }
            assert(stages_left(next) == stages_left(stage) - 1);
            assert(forall|s: PersistStage| #[trigger]
                stages_left(s) == stages_left(stage) ==> s == stage);
        },
        _ => {
            assert(performed(sync_dir, ok, stage) == seq![stage]);
            assert(stages_left(stage) >= 1 || stage == PersistStage::SyncDir);
            assert(forall|s: PersistStage| #[trigger]
                stages_left(s) == stages_left(stage) ==> s == stage);
        },
    }
}

/// Which generation of the document is on disk, as far as this process knows.
#[derive(Debug)]
pub struct DiskRecord {
    pub written: u64,
}

impl DiskRecord {
    /// Nothing has been written yet.
    pub fn new() -> (r: DiskRecord)
        ensures
            r.written == 0,
    {
        DiskRecord { written: 0 }
    }

    /// Tells whether a document of the given generation may be written: not
    /// where a later one is on disk.
    pub fn admits(&self, generation: u64) -> (r: bool)
        ensures
            r == (generation >= self.written),
    {
        generation >= self.written
    }

    /// Records that a document of the given generation is on disk.
    pub fn record(&mut self, generation: u64)
        requires
            generation >= old(self).written,
        ensures
            final(self).written == generation,
    {
        self.written = generation;
    }
}

/// The generation on disk after the documents `generations` asked to be written, one after
/// the other.
pub open spec fn disk_after(written: u64, generations: Seq<u64>) -> u64
    decreases generations.len(),
{
    if generations.len() == 0 {
        written
    } else {
        let before = disk_after(written, generations.drop_last());
        if generations.last() >= before {
            generations.last()
        } else {
            before
        }
    }
}

/// Every change of the store raises the number of its generation, as long as
/// there is a larger one: a later snapshot is never taken for an earlier one.
pub proof fn changes_raise_the_generation(g: u64)
    ensures
        next_generation(g) >= g,
        g < u64::MAX ==> next_generation(g) > g,
{
}

/// However writers overtake each other, the document on disk is of the latest
/// generation that asked to be written: an older snapshot never replaces a
/// newer one.
pub proof fn latest_generation_wins(written: u64, generations: Seq<u64>)
    ensures
        disk_after(written, generations) >= written,
        forall|i: int|
            0 <= i < generations.len() ==> disk_after(written, generations)
                >= #[trigger] generations[i],
        disk_after(written, generations) == written || generations.contains(
            disk_after(written, generations),
        ),
    decreases generations.len(),
{
    if generations.len() > 0 {
        let init = generations.drop_last();
        latest_generation_wins(written, init);
        assert forall|i: int| 0 <= i < generations.len() implies disk_after(written, generations)
            >= #[trigger] generations[i] by {
            if i < init.len() {
                assert(init[i] == generations[i]);
            }
        }
        let g = disk_after(written, generations);
        if g == generations.last() {
            assert(generations[generations.len() - 1] == g);
        } else if init.contains(g) {
            let i = choose|i: int| 0 <= i < init.len() && init[i] == g;
            assert(generations[i] == g);
        }
    }
}

/// How long the window must be still before its geometry is saved.
pub const GEOM_QUIET_MS: u64 = 200;

/// Whether a save of the window's geometry is outstanding.
#[derive(Debug, Clone, Copy, PartialEq, Eq, Structural)]
pub enum GeomSaver {
    /// Nothing has changed since the last save.
    Idle,
    /// Something has changed; the quiet period is running.
    Waiting,
}

/// What the saver hears.
#[derive(Debug, Clone, Copy, PartialEq, Eq, Structural)]
pub enum GeomSignal {
    /// The window was moved or resized.
    Changed,
    /// The quiet period ran out.
    Quiet,
}

/// What the saver does.
#[derive(Debug, Clone, Copy, PartialEq, Eq, Structural)]
pub enum GeomAction {
    /// Wait for the next change.
    Wait,
    /// Start the quiet period over.
    StartQuietPeriod,
    /// Save the document as it stands, then wait for the next change.
    Save,
}

/// What the saver does and becomes.
pub open spec fn geom_step(saver: GeomSaver, signal: GeomSignal) -> (GeomSaver, GeomAction) {
    match (saver, signal) {
        (_, GeomSignal::Changed) => (GeomSaver::Waiting, GeomAction::StartQuietPeriod),
        (GeomSaver::Waiting, GeomSignal::Quiet) => (GeomSaver::Idle, GeomAction::Save),
        (GeomSaver::Idle, GeomSignal::Quiet) => (GeomSaver::Idle, GeomAction::Wait),
    }
}

impl GeomSaver {
    /// What the saver does on a signal.
    pub fn on(&mut self, signal: GeomSignal) -> (r: GeomAction)
        ensures
            (*final(self), r) == geom_step(*old(self), signal),
    {
        match signal {
            GeomSignal::Changed => {
                *self = GeomSaver::Waiting;
                GeomAction::StartQuietPeriod
            },
            GeomSignal::Quiet => match *self {
                GeomSaver::Waiting => {
                    *self = GeomSaver::Idle;
                    GeomAction::Save
                },
                GeomSaver::Idle => GeomAction::Wait,
            },
        }
    }
}

/// The state of an idle saver after a series of signals.
pub open spec fn saver_after(signals: Seq<GeomSignal>) -> GeomSaver
    decreases signals.len(),
{
    if signals.len() == 0 {
        GeomSaver::Idle
    } else {
        geom_step(saver_after(signals.drop_last()), signals.last()).0
    }
}

/// How often an idle saver saves over a series of signals.
pub open spec fn saves(signals: Seq<GeomSignal>) -> nat
    decreases signals.len(),
{
    if signals.len() == 0 {
        0
    } else {
        saves(signals.drop_last()) + if geom_step(
            saver_after(signals.drop_last()),
            signals.last(),
        ).1 == GeomAction::Save {
            1nat
        } else {
            0nat
        }
    }
}

/// However many changes come in a row, they are saved once, and only when the
/// window has come to rest.
pub proof fn a_burst_is_saved_once(n: nat)
    requires
        n > 0,
    ensures
        saves(Seq::new(n, |i: int| GeomSignal::Changed)) == 0,
        saves(Seq::new(n, |i: int| GeomSignal::Changed).push(GeomSignal::Quiet)) == 1,
        saver_after(Seq::new(n, |i: int| GeomSignal::Changed).push(GeomSignal::Quiet))
            == GeomSaver::Idle,
{
    let burst = Seq::new(n, |i: int| GeomSignal::Changed);
    lemma_burst(n);
    let all = burst.push(GeomSignal::Quiet);
    assert(all.drop_last() == burst);
    assert(all.last() == GeomSignal::Quiet);
}

proof fn lemma_burst(n: nat)
    ensures
        saves(Seq::new(n, |i: int| GeomSignal::Changed)) == 0,
        n > 0 ==> saver_after(Seq::new(n, |i: int| GeomSignal::Changed)) == GeomSaver::Waiting,
    decreases n,
{
    let burst = Seq::new(n, |i: int| GeomSignal::Changed);
    if n > 0 {
        lemma_burst((n - 1) as nat);
        assert(burst.drop_last() == Seq::new((n - 1) as nat, |i: int| GeomSignal::Changed));
        assert(burst.last() == GeomSignal::Changed);
    }
}

/// The document is `todos.json`, right in the directory that the platform gives
/// the application, and else in a directory `usticky` in the user's data
/// directory.
pub proof fn the_document_is_kept_by_the_application(
    app_dir: PathView,
    data_dir: Option<PathView>,
)
    ensures
        ({
            let r = document_path(Some(app_dir), data_dir);
            &&& r is Some
            &&& r.unwrap().anchor == app_dir.anchor
            &&& r.unwrap().names =~= app_dir.names.push("todos.json"@)
        }),
        data_dir is None ==> document_path(None, data_dir) is None,
        data_dir is Some ==> {
            let r = document_path(None, data_dir);
            &&& r is Some
            &&& r.unwrap().anchor == data_dir.unwrap().anchor
            &&& r.unwrap().names =~= data_dir.unwrap().names.push("usticky"@).push("todos.json"@)
        },
{
}

/// Where everything goes well, these stages are performed, in this order: the
/// directory where there is one, then the temporary file, then the replacement,
/// then the directory again where it is flushed.
pub proof fn writes_go_through_all_stages(
    has_dir: bool,
    sync_dir: bool,
    ok: spec_fn(PersistStage) -> bool,
)
    requires
        has_dir ==> ok(PersistStage::CreateDir),
        ok(PersistStage::OpenTmp),
        ok(PersistStage::Serialize),
        ok(PersistStage::WriteTmp),
        ok(PersistStage::SyncTmp),
        ok(PersistStage::Rename),
    ensures
        first_step(has_dir) is Do,
        ({
            let first: Seq<PersistStage> = if has_dir {
                seq![PersistStage::CreateDir]
            } else {
                seq![]
            };
            let middle = seq![
                PersistStage::OpenTmp,
                PersistStage::Serialize,
                PersistStage::WriteTmp,
                PersistStage::SyncTmp,
                PersistStage::Rename,
            ];
            let end: Seq<PersistStage> = if sync_dir {
                seq![PersistStage::SyncDir]
            } else {
                seq![]
            };
            performed(sync_dir, ok, first_step(has_dir)->Do_0) =~= first + middle + end
        }),
        persist_result(sync_dir, ok, first_step(has_dir)->Do_0) is Done,
{
    reveal_with_fuel(performed, 8);
    reveal_with_fuel(persist_result, 8);
}

/// A stage that goes wrong is the last, and the write fails by it; only the
/// flushing of the directory may go wrong in a write that is done.
pub proof fn a_failure_is_the_end(sync_dir: bool, stage: PersistStage)
    ensures
        stage != PersistStage::SyncDir ==> step_after(sync_dir, stage, false)
            == PersistStep::Failed(stage),
        stage != PersistStage::SyncDir ==> !(step_after(sync_dir, stage, true) is Failed),
        step_after(sync_dir, PersistStage::SyncDir, false) == PersistStep::Done,
        step_after(sync_dir, PersistStage::SyncDir, true) == PersistStep::Done,
{
}

/// A change starts the quiet period over; when it runs out, what has changed is
/// saved, and nothing where nothing has.
pub proof fn rest_saves_what_has_changed(saver: GeomSaver)
    ensures
        geom_step(saver, GeomSignal::Changed).0 is Waiting,
        geom_step(saver, GeomSignal::Changed).1 is StartQuietPeriod,
        geom_step(saver, GeomSignal::Quiet).0 is Idle,
        saver is Waiting ==> geom_step(saver, GeomSignal::Quiet).1 is Save,
        saver is Idle ==> geom_step(saver, GeomSignal::Quiet).1 is Wait,
{
}

/// A save is outstanding exactly while the last thing heard is a change, and one
/// more is made exactly where such a change is followed by rest.
pub proof fn changes_are_saved_at_rest(signals: Seq<GeomSignal>, next: GeomSignal)
    ensures
        saver_after(signals) is Waiting <==> signals.len() > 0 && signals[signals.len() - 1]
            == GeomSignal::Changed,
        saves(signals.push(next)) == saves(signals) + if next == GeomSignal::Quiet
            && signals.len() > 0 && signals[signals.len() - 1] == GeomSignal::Changed {
            1int
        } else {
            0int
        },
{
    assert(signals.push(next).drop_last() =~= signals);
}

/// The window must be still for a fifth of a second before its geometry is saved,
/// and what is written is for its owner to read and to write, and for nobody else.
pub proof fn files_are_for_their_owner()
    ensures
        GEOM_QUIET_MS * 5 == 1000,
        PRIVATE_MODE == (4 + 2) * 64,
{
}

} // verus!
