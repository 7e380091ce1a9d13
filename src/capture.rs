//! Stream capture by descriptor rotation: the names of the backing files,
//! the three renumbering steps that swap two descriptors, a model of the
//! descriptor table that shows what a capture does to it, and the life of
//! one capturer.

use vstd::prelude::*;
use crate::decimal::{lemma_nat_text_injective, nat_text, push_nat_text};
use crate::outside::{push_str, random_u64};

verus! {

/// The standard stream that a capturer redirects.
#[derive(PartialEq, Eq, Structural, Clone, Copy, Debug)]
pub enum StreamKind {
    Input,
    Output,
    Error,
}

/// The descriptor number of a standard stream.
pub open spec fn stream_fd(kind: StreamKind) -> i32 {
    match kind {
        StreamKind::Input => 0,
        StreamKind::Output => 1,
        StreamKind::Error => 2,
    }
}

impl StreamKind {
    /// The descriptor number of this stream.
    pub fn fd(&self) -> (r: i32)
        ensures
            r == stream_fd(*self),
    {
        match self {
            StreamKind::Input => 0,
            StreamKind::Output => 1,
            StreamKind::Error => 2,
        }
    }
}

/// What a temporary file is for; each role has its own name prefix.
#[derive(PartialEq, Eq, Structural, Clone, Copy, Debug)]
pub enum FileRole {
    /// Backing file of a captured input stream.
    Stdin,
    /// Backing file of a captured output stream.
    Stdout,
    /// Backing file of a captured error stream.
    Stderr,
    /// Throwaway file of one descriptor rotation.
    Scratch,
    /// File that holds a token pool.
    Pool,
}

/// The backing file role of a stream.
pub open spec fn stream_role(kind: StreamKind) -> FileRole {
    match kind {
        StreamKind::Input => FileRole::Stdin,
        StreamKind::Output => FileRole::Stdout,
        StreamKind::Error => FileRole::Stderr,
    }
}

/// The name prefix of a role.
pub open spec fn role_prefix(role: FileRole) -> Seq<char> {
    match role {
        FileRole::Stdin => "/tmp/capture_stdin_"@,
        FileRole::Stdout => "/tmp/capture_stdout_"@,
        FileRole::Stderr => "/tmp/capture_stderr_"@,
        FileRole::Scratch => "/tmp/exchange_local_fd_"@,
        FileRole::Pool => "/tmp/jobserver_"@,
    }
}

/// The name of the file of `role` with identifier `id`.
pub open spec fn file_name_text(role: FileRole, id: nat) -> Seq<char> {
    role_prefix(role) + nat_text(id)
}

/// The name of the file of `role` with identifier `id`.
pub fn file_name(role: FileRole, id: u64) -> (r: String)
    ensures
        r@ == file_name_text(role, id as nat),
{
    let mut r = String::new();
    match role {
        FileRole::Stdin => push_str(&mut r, "/tmp/capture_stdin_"),
        FileRole::Stdout => push_str(&mut r, "/tmp/capture_stdout_"),
        FileRole::Stderr => push_str(&mut r, "/tmp/capture_stderr_"),
        FileRole::Scratch => push_str(&mut r, "/tmp/exchange_local_fd_"),
        FileRole::Pool => push_str(&mut r, "/tmp/jobserver_"),
    }
    push_nat_text(&mut r, id);
    assert(r@ =~= file_name_text(role, id as nat));
    r
}

/// The position at which the prefixes of two roles differ.
spec fn prefix_split(r1: FileRole, r2: FileRole) -> int {
    if (r1 == FileRole::Scratch || r1 == FileRole::Pool || r2 == FileRole::Scratch || r2 == FileRole::Pool) {
        5
    } else {
        16
    }
}

/// Names of files of different roles, or with different identifiers,
/// differ.
pub proof fn lemma_file_names_distinct(r1: FileRole, id1: nat, r2: FileRole, id2: nat)
    requires
        r1 != r2 || id1 != id2,
    ensures
        file_name_text(r1, id1) != file_name_text(r2, id2),
{
    reveal_strlit("/tmp/capture_stdin_");
    reveal_strlit("/tmp/capture_stdout_");
    reveal_strlit("/tmp/capture_stderr_");
    reveal_strlit("/tmp/exchange_local_fd_");
    reveal_strlit("/tmp/jobserver_");
    let n1 = file_name_text(r1, id1);
    let n2 = file_name_text(r2, id2);
    if r1 == r2 {
        if n1 == n2 {
            assert(nat_text(id1) =~= n1.skip(role_prefix(r1).len() as int));
            assert(nat_text(id2) =~= n2.skip(role_prefix(r2).len() as int));
            lemma_nat_text_injective(id1, id2);
        }
    } else {
        let p = prefix_split(r1, r2);
        assert(n1[p] == role_prefix(r1)[p]);
        assert(n2[p] == role_prefix(r2)[p]);
    }
}

/// A fresh name for a file of `role`, with an identifier drawn from the
/// operating system; `None` where it gives none.
pub fn fresh_file_name(role: FileRole) -> (r: Option<String>)
    ensures
        r matches Some(n) ==> exists|id: u64| n@ == file_name_text(role, id as nat),
{
    match random_u64() {
        Some(id) => Some(file_name(role, id)),
        None => None,
    }
}

/// One renumbering: the open file at `from` moves to `to`, closing what
/// was at `to`, and `from` is left empty.
#[derive(PartialEq, Eq, Structural, Clone, Copy, Debug)]
pub struct Renumber {
    pub from: i32,
    pub to: i32,
}

/// The steps that swap the files at `a` and `b` through the free slot
/// `scratch`.
pub open spec fn rotation_steps(a: i32, b: i32, scratch: i32) -> Seq<Renumber> {
    seq![
        Renumber { from: a, to: scratch },
        Renumber { from: b, to: a },
        Renumber { from: scratch, to: b },
    ]
}

/// The steps that swap the files at descriptors `a` and `b`, moving `a`'s
/// file through the slot `scratch` first.
pub fn rotation_plan(a: i32, b: i32, scratch: i32) -> (r: Vec<Renumber>)
    ensures
        r@ == rotation_steps(a, b, scratch),
{
    let r = vec![
        Renumber { from: a, to: scratch },
        Renumber { from: b, to: a },
        Renumber { from: scratch, to: b },
    ];
    assert(r@ =~= rotation_steps(a, b, scratch));
    r
}

/// An open file in the model: its bytes and the position of the next read
/// or write.
pub struct OpenFile {
    pub data: Seq<u8>,
    pub pos: nat,
}

/// A model of a descriptor table: for each open slot, the file open there.
pub type FdTable = Map<int, OpenFile>;

/// A freshly created, empty file.
pub open spec fn fresh_file() -> OpenFile {
    OpenFile { data: Seq::empty(), pos: 0 }
}

/// A file holding `data`, positioned at its start.
pub open spec fn file_from_start(data: Seq<u8>) -> OpenFile {
    OpenFile { data, pos: 0 }
}

/// The table after one renumbering.
pub open spec fn renumbered(t: FdTable, step: Renumber) -> FdTable {
    t.insert(step.to as int, t[step.from as int]).remove(step.from as int)
}

/// The table after a run of renumberings, in order.
pub open spec fn apply_steps(t: FdTable, steps: Seq<Renumber>) -> FdTable
    decreases steps.len(),
{
    if steps.len() == 0 {
        t
    } else {
        apply_steps(renumbered(t, steps[0]), steps.drop_first())
    }
}

/// The table with the files at `a` and `b` exchanged.
pub open spec fn swapped(t: FdTable, a: int, b: int) -> FdTable {
    t.insert(a, t[b]).insert(b, t[a])
}

/// The file after `bytes` are written at its position, which then moves
/// past them; bytes beyond them stay. The position is at most the length.
pub open spec fn file_written(f: OpenFile, bytes: Seq<u8>) -> OpenFile {
    OpenFile {
        data: f.data.take(f.pos as int) + bytes + (if f.pos + bytes.len() < f.data.len() {
            f.data.skip((f.pos + bytes.len()) as int)
        } else {
            Seq::empty()
        }),
        pos: f.pos + bytes.len(),
    }
}

/// The table after `bytes` are written to the file at `slot`.
pub open spec fn written(t: FdTable, slot: int, bytes: Seq<u8>) -> FdTable {
    t.insert(slot, file_written(t[slot], bytes))
}

/// The table after each of `writes` is written to the file at `slot`, in
/// order.
pub open spec fn written_all(t: FdTable, slot: int, writes: Seq<Seq<u8>>) -> FdTable
    decreases writes.len(),
{
    if writes.len() == 0 {
        t
    } else {
        written(written_all(t, slot, writes.drop_last()), slot, writes.last())
    }
}

/// All of `writes`, one after another.
pub open spec fn concat(writes: Seq<Seq<u8>>) -> Seq<u8>
    decreases writes.len(),
{
    if writes.len() == 0 {
        Seq::empty()
    } else {
        concat(writes.drop_last()) + writes.last()
    }
}

/// What reading the file at `slot` to its end yields.
pub open spec fn remaining(t: FdTable, slot: int) -> Seq<u8> {
    t[slot].data.skip(t[slot].pos as int)
}

/// The three renumberings through a free scratch slot exchange the files
/// at two open slots and leave the scratch slot free.
pub proof fn lemma_rotation_swaps(t: FdTable, a: i32, b: i32, scratch: i32)
    requires
        t.contains_key(a as int),
        t.contains_key(b as int),
        !t.contains_key(scratch as int),
        a != b,
    ensures
        apply_steps(t, rotation_steps(a, b, scratch)) == swapped(t, a as int, b as int),
{
    let steps = rotation_steps(a, b, scratch);
    let t1 = renumbered(t, steps[0]);
    let t2 = renumbered(t1, steps[1]);
    let t3 = renumbered(t2, steps[2]);
    assert(steps.drop_first().drop_first().drop_first() =~= Seq::<Renumber>::empty());
    assert(apply_steps(t, steps) == apply_steps(t1, steps.drop_first()));
    assert(apply_steps(t1, steps.drop_first()) == apply_steps(t2, steps.drop_first().drop_first()));
    assert(apply_steps(t2, steps.drop_first().drop_first()) == apply_steps(t3, steps.drop_first().drop_first().drop_first()));
    assert(t3 =~= swapped(t, a as int, b as int));
}

/// Starting a capture and stopping it with nothing written in between
/// gives back exactly the table from before the start, and the backing
/// file, fresh at the start, holds no bytes: the capture yields nothing.
pub proof fn lemma_capture_without_writes(t: FdTable, stream: i32, backing: i32, scratch: i32)
    requires
        t.contains_key(stream as int),
        t.contains_key(backing as int),
        !t.contains_key(scratch as int),
        t[backing as int] == fresh_file(),
        stream != backing,
    ensures
        apply_steps(apply_steps(t, rotation_steps(stream, backing, scratch)), rotation_steps(backing, stream, scratch)) == t,
        apply_steps(apply_steps(t, rotation_steps(stream, backing, scratch)), rotation_steps(backing, stream, scratch))[backing as int].data
            == Seq::<u8>::empty(),
{
    lemma_rotation_swaps(t, stream, backing, scratch);
    let t1 = swapped(t, stream as int, backing as int);
    lemma_rotation_swaps(t1, backing, stream, scratch);
    assert(swapped(t1, backing as int, stream as int) =~= t);
}

proof fn lemma_writes_to_fresh_file(t: FdTable, slot: int, writes: Seq<Seq<u8>>)
    requires
        t.contains_key(slot),
        t[slot] == fresh_file(),
    ensures
        written_all(t, slot, writes).contains_key(slot),
        written_all(t, slot, writes)[slot].data == concat(writes),
        written_all(t, slot, writes)[slot].pos == concat(writes).len(),
        forall|k: int| k != slot ==> #[trigger] written_all(t, slot, writes).contains_key(k) == t.contains_key(k)
            && written_all(t, slot, writes)[k] == t[k],
    decreases writes.len(),
{
    if writes.len() > 0 {
        lemma_writes_to_fresh_file(t, slot, writes.drop_last());
        let f = written_all(t, slot, writes.drop_last())[slot];
        assert(f.data.take(f.pos as int) =~= f.data);
        assert(file_written(f, writes.last()).data =~= concat(writes));
    }
}

/// Whatever is written to a captured stream between the start and the
/// stop of the capture ends up in the backing file, all of it, in order,
/// and nothing else; every other descriptor, the stream's own file
/// included, is as it was before the start.
pub proof fn lemma_capture_round_trip(
    t: FdTable,
    stream: i32,
    backing: i32,
    scratch: i32,
    writes: Seq<Seq<u8>>,
)
    requires
        t.contains_key(stream as int),
        t.contains_key(backing as int),
        !t.contains_key(scratch as int),
        t[backing as int] == fresh_file(),
        stream != backing,
    ensures
        ({
            let during = apply_steps(t, rotation_steps(stream, backing, scratch));
            let after = apply_steps(written_all(during, stream as int, writes), rotation_steps(backing, stream, scratch));
            &&& after[backing as int].data == concat(writes)
            &&& after.remove(backing as int) == t.remove(backing as int)
        }),
{
    lemma_rotation_swaps(t, stream, backing, scratch);
    let during = swapped(t, stream as int, backing as int);
    let w = written_all(during, stream as int, writes);
    lemma_writes_to_fresh_file(during, stream as int, writes);
    lemma_rotation_swaps(w, backing, stream, scratch);
    let after = swapped(w, backing as int, stream as int);
    assert forall|k: int| k != backing && k != stream implies #[trigger] w.contains_key(k) == t.contains_key(k)
        && w[k] == t[k] by {
        assert(w.contains_key(k) == during.contains_key(k));
    }
    assert(w[backing as int] == during[backing as int]);
    assert(after.remove(backing as int) =~= t.remove(backing as int));
}

/// Once the input stream is rotated onto a backing file that holds `input`
/// and is positioned at its start, reading the input stream to its end
/// yields exactly `input`.
pub proof fn lemma_input_reads_back(t: FdTable, backing: i32, scratch: i32, input: Seq<u8>)
    requires
        t.contains_key(0),
        t.contains_key(backing as int),
        !t.contains_key(scratch as int),
        t[backing as int] == file_from_start(input),
        backing != 0,
    ensures
        remaining(apply_steps(t, rotation_steps(0, backing, scratch)), 0) == input,
{
    lemma_rotation_swaps(t, 0, backing, scratch);
    assert(input.skip(0) =~= input);
}

/// Where a capturer is in its single use.
#[derive(PartialEq, Eq, Structural, Clone, Copy, Debug)]
pub enum CapturePhase {
    /// Made; the stream is not redirected yet.
    Ready,
    /// The stream is redirected onto the backing file.
    Active,
    /// The stream is restored, or was restored by other means.
    Finished,
}

/// The standard streams that are captured right now. A stream has at most
/// one capture at a time: a second one would save the first one's backing
/// file as the stream's own file.
#[derive(Debug)]
pub struct ActiveStreams {
    input: bool,
    output: bool,
    error: bool,
}

impl ActiveStreams {
    /// Whether `kind` is captured.
    pub closed spec fn is_active(&self, kind: StreamKind) -> bool {
        match kind {
            StreamKind::Input => self.input,
            StreamKind::Output => self.output,
            StreamKind::Error => self.error,
        }
    }

    /// No stream captured.
    pub fn new() -> (a: ActiveStreams)
        ensures
            forall|k: StreamKind| !a.is_active(k),
    {
        ActiveStreams { input: false, output: false, error: false }
    }

    /// Whether `kind` is captured.
    pub fn active(&self, kind: StreamKind) -> (r: bool)
        ensures
            r == self.is_active(kind),
    {
        match kind {
            StreamKind::Input => self.input,
            StreamKind::Output => self.output,
            StreamKind::Error => self.error,
        }
    }

    /// Marks `kind` captured; refused where it already is.
    pub fn begin(&mut self, kind: StreamKind) -> (r: Result<(), CaptureError>)
        ensures
            old(self).is_active(kind) ==> r == Err::<(), CaptureError>(CaptureError::StreamBusy)
                && forall|k: StreamKind| final(self).is_active(k) == old(self).is_active(k),
            !old(self).is_active(kind) ==> r is Ok && final(self).is_active(kind)
                && forall|k: StreamKind| k != kind ==> final(self).is_active(k) == old(self).is_active(k),
    {
        if self.active(kind) {
            return Err(CaptureError::StreamBusy);
        }
        match kind {
            StreamKind::Input => self.input = true,
            StreamKind::Output => self.output = true,
            StreamKind::Error => self.error = true,
        }
        Ok(())
    }

    /// Marks `kind` no longer captured.
    pub fn end(&mut self, kind: StreamKind)
        ensures
            !final(self).is_active(kind),
            forall|k: StreamKind| k != kind ==> final(self).is_active(k) == old(self).is_active(k),
    {
        match kind {
            StreamKind::Input => self.input = false,
            StreamKind::Output => self.output = false,
            StreamKind::Error => self.error = false,
        }
    }
}

/// A capturer used out of order.
#[derive(PartialEq, Eq, Structural, Clone, Copy, Debug)]
pub enum CaptureError {
    /// A second start of the same capture.
    AlreadyStarted,
    /// A stop of a capture that is not running.
    NotActive,
    /// A start on a stream that another capture holds.
    StreamBusy,
}

/// One capture of a standard stream onto a backing file.
#[derive(Debug)]
pub struct StreamCapturer {
    kind: StreamKind,
    capture_fd: i32,
    file_name: String,
    phase: CapturePhase,
}

impl StreamCapturer {
    /// The captured stream.
    pub closed spec fn stream(&self) -> StreamKind {
        self.kind
    }

    /// The descriptor of the backing file.
    pub closed spec fn backing_fd(&self) -> i32 {
        self.capture_fd
    }

    /// The name of the backing file.
    pub closed spec fn backing_name(&self) -> Seq<char> {
        self.file_name@
    }

    /// Where the capture is.
    pub closed spec fn phase(&self) -> CapturePhase {
        self.phase
    }

    /// The backing file's descriptor is not one of the standard streams.
    pub closed spec fn wf(&self) -> bool {
        self.capture_fd > 2
    }

    /// What `wf` means for the descriptors.
    pub proof fn lemma_wf(&self)
        requires
            self.wf(),
        ensures
            self.backing_fd() != stream_fd(self.stream()),
            self.backing_fd() > 2,
    {
    }

    /// A capture of `kind` onto the backing file `file_name`, open at
    /// descriptor `capture_fd`, which is not a standard stream's.
    pub fn new(kind: StreamKind, capture_fd: i32, file_name: String) -> (c: StreamCapturer)
        requires
            capture_fd > 2,
        ensures
            c.wf(),
            c.stream() == kind,
            c.backing_fd() == capture_fd,
            c.backing_name() == file_name@,
            c.phase() == CapturePhase::Ready,
    {
        StreamCapturer { kind, capture_fd, file_name, phase: CapturePhase::Ready }
    }

    /// The captured stream.
    pub fn kind(&self) -> (r: StreamKind)
        ensures
            r == self.stream(),
    {
        self.kind
    }

    /// The name of the backing file.
    pub fn file_name(&self) -> (r: &String)
        ensures
            r@ == self.backing_name(),
    {
        &self.file_name
    }

    /// The descriptor of the backing file.
    pub fn capture_fd(&self) -> (r: i32)
        ensures
            r == self.backing_fd(),
    {
        self.capture_fd
    }

    /// Where the capture is.
    pub fn current_phase(&self) -> (r: CapturePhase)
        ensures
            r == self.phase(),
    {
        self.phase
    }

    /// Starts the capture: the renumberings that swap the stream with the
    /// backing file through the free slot `scratch`. A capture starts once,
    /// and only on a stream that no other capture holds.
    pub fn start_capture(&mut self, active: &mut ActiveStreams, scratch: i32) -> (r: Result<Vec<Renumber>, CaptureError>)
        ensures
            old(self).phase() == CapturePhase::Ready && !old(active).is_active(old(self).stream()) ==> {
                &&& r matches Ok(plan) && plan@ == rotation_steps(
                    stream_fd(old(self).stream()),
                    old(self).backing_fd(),
                    scratch,
                )
                &&& final(self).phase() == CapturePhase::Active
                &&& final(active).is_active(old(self).stream())
                &&& forall|k: StreamKind| k != old(self).stream() ==> final(active).is_active(k) == old(active).is_active(k)
            },
            old(self).phase() != CapturePhase::Ready ==> {
                &&& r == Err::<Vec<Renumber>, CaptureError>(CaptureError::AlreadyStarted)
                &&& final(self).phase() == old(self).phase()
                &&& forall|k: StreamKind| final(active).is_active(k) == old(active).is_active(k)
            },
            old(self).phase() == CapturePhase::Ready && old(active).is_active(old(self).stream()) ==> {
                &&& r == Err::<Vec<Renumber>, CaptureError>(CaptureError::StreamBusy)
                &&& final(self).phase() == old(self).phase()
                &&& forall|k: StreamKind| final(active).is_active(k) == old(active).is_active(k)
            },
            final(self).stream() == old(self).stream(),
            final(self).backing_fd() == old(self).backing_fd(),
            final(self).backing_name() == old(self).backing_name(),
            final(self).wf() == old(self).wf(),
    {
        if self.phase != CapturePhase::Ready {
            return Err(CaptureError::AlreadyStarted);
        }
        match active.begin(self.kind) {
            Ok(()) => {},
            Err(e) => return Err(e),
        }
        self.phase = CapturePhase::Active;
        Ok(rotation_plan(self.kind.fd(), self.capture_fd, scratch))
    }

    /// Stops the capture: the renumberings that swap the backing file and
    /// the stream back through the free slot `scratch`. The stream is free
    /// for another capture afterwards.
    pub fn stop_capture(&mut self, active: &mut ActiveStreams, scratch: i32) -> (r: Result<Vec<Renumber>, CaptureError>)
        ensures
            old(self).phase() == CapturePhase::Active ==> {
                &&& r matches Ok(plan) && plan@ == rotation_steps(
                    old(self).backing_fd(),
                    stream_fd(old(self).stream()),
                    scratch,
                )
                &&& final(self).phase() == CapturePhase::Finished
                &&& !final(active).is_active(old(self).stream())
                &&& forall|k: StreamKind| k != old(self).stream() ==> final(active).is_active(k) == old(active).is_active(k)
            },
            old(self).phase() != CapturePhase::Active ==> {
                &&& r == Err::<Vec<Renumber>, CaptureError>(CaptureError::NotActive)
                &&& final(self).phase() == old(self).phase()
                &&& forall|k: StreamKind| final(active).is_active(k) == old(active).is_active(k)
            },
            final(self).stream() == old(self).stream(),
            final(self).backing_fd() == old(self).backing_fd(),
            final(self).backing_name() == old(self).backing_name(),
            final(self).wf() == old(self).wf(),
    {
        if self.phase != CapturePhase::Active {
            return Err(CaptureError::NotActive);
        }
        active.end(self.kind);
        self.phase = CapturePhase::Finished;
        Ok(rotation_plan(self.capture_fd, self.kind.fd(), scratch))
    }

    /// Ends the capture without a rotation, where the stream was already
    /// restored by other means; only the backing file remains to collect.
    /// A running capture frees its stream.
    pub fn finish_restored(&mut self, active: &mut ActiveStreams)
        ensures
            final(self).phase() == CapturePhase::Finished,
            old(self).phase() == CapturePhase::Active ==> !final(active).is_active(old(self).stream())
                && forall|k: StreamKind| k != old(self).stream() ==> final(active).is_active(k) == old(active).is_active(k),
            old(self).phase() != CapturePhase::Active ==> forall|k: StreamKind| final(active).is_active(k) == old(active).is_active(k),
            final(self).stream() == old(self).stream(),
            final(self).backing_fd() == old(self).backing_fd(),
            final(self).backing_name() == old(self).backing_name(),
            final(self).wf() == old(self).wf(),
    {
        if self.phase == CapturePhase::Active {
            active.end(self.kind);
        }
        self.phase = CapturePhase::Finished;
    }
}

/// A capture by `c` that starts through the free slot `scratch` and stops
/// through the free slot `scratch2` leaves in its backing file exactly the
/// bytes written to the stream in between, in order, and every other
/// descriptor, the stream's own file included, as it was before the start.
pub proof fn lemma_capturer_round_trip(
    c: StreamCapturer,
    t: FdTable,
    scratch: i32,
    scratch2: i32,
    writes: Seq<Seq<u8>>,
)
    requires
        c.wf(),
        t.contains_key(stream_fd(c.stream()) as int),
        t.contains_key(c.backing_fd() as int),
        t[c.backing_fd() as int] == fresh_file(),
        !t.contains_key(scratch as int),
        !t.contains_key(scratch2 as int),
    ensures
        ({
            let s = stream_fd(c.stream());
            let b = c.backing_fd();
            let during = apply_steps(t, rotation_steps(s, b, scratch));
            let after = apply_steps(written_all(during, s as int, writes), rotation_steps(b, s, scratch2));
            &&& after[b as int].data == concat(writes)
            &&& after.remove(b as int) == t.remove(b as int)
        }),
        writes.len() == 0 ==> apply_steps(
            apply_steps(t, rotation_steps(stream_fd(c.stream()), c.backing_fd(), scratch)),
            rotation_steps(c.backing_fd(), stream_fd(c.stream()), scratch2),
        ) == t,
{
    c.lemma_wf();
    let s = stream_fd(c.stream());
    let b = c.backing_fd();
    lemma_rotation_swaps(t, s, b, scratch);
    let during = swapped(t, s as int, b as int);
    let w = written_all(during, s as int, writes);
    lemma_writes_to_fresh_file(during, s as int, writes);
    lemma_rotation_swaps(w, b, s, scratch2);
    let after = swapped(w, b as int, s as int);
    assert forall|k: int| k != b && k != s implies #[trigger] w.contains_key(k) == t.contains_key(k)
        && w[k] == t[k] by {
        assert(w.contains_key(k) == during.contains_key(k));
    }
    assert(b != s);
    assert(w.contains_key(b as int) == during.contains_key(b as int));
    assert(w[b as int] == during[b as int]);
    assert(after.remove(b as int) =~= t.remove(b as int));
    if writes.len() == 0 {
        assert(w == during);
        assert(swapped(during, b as int, s as int) =~= t);
    }
}

} // verus!
