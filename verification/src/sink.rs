//! The worker's state machine: the buffer/flush/rotate protocol.
//!
//! A single worker owns the entry buffer, the active-file size accounting and
//! the retention window, and consumes one message at a time. Handling a
//! message yields effects — bytes to append to the active file, and possibly
//! a rotation — which the surrounding process performs; all decisions are
//! made here.
//!
//! For each new entry of length `L`, in this exact order:
//! 1. if `file_size + L` would exceed `rotate_size`, rotate first (the
//!    rotated-out file never receives bytes of a newer generation), and only
//!    then attribute `L` to the fresh file;
//! 2. if the buffer fill plus `L` would exceed `buffer_size`, flush the
//!    buffered bytes first and then place the entry alone in the buffer, so
//!    the fill never exceeds the capacity except for a single oversized
//!    entry.

use vstd::prelude::*;

use crate::buffer::EntryBuffer;
use crate::names::archive_name_bytes;
use crate::names::archive_file_name;
use crate::names::is_archive_name;
use crate::names::names_seq;
use crate::names::lemma_archive_name_round_trip;
use crate::names::renamed_name_bytes;
use crate::names::renamed_file_name;
use crate::timestamp::Timestamp;

verus! {

/// One message from a producer to the worker.
pub enum LogMessage {
    /// Write the buffered bytes to the active file now.
    FlushRequest,
    /// Rotate the active file now, unconditionally.
    RotateRequest,
    /// One pre-formatted log line, terminator included.
    Entry(Vec<u8>),
}

/// What a rotation asks the surrounding process to do: rename the active
/// file to `renamed_name`, reopen the log path fresh, compress the renamed
/// file into `archive_name`, and delete the `pruned` archives, oldest first.
pub struct Rotation {
    /// The wall-clock stamp the names were rendered from.
    pub timestamp: Timestamp,
    /// The name the active file is renamed to.
    pub renamed_name: Vec<u8>,
    /// The compressed name the archive will carry; this is what the
    /// retention window tracks.
    pub archive_name: Vec<u8>,
    /// Archives pruned from the retention window, oldest first; each is to
    /// be deleted from disk, best effort.
    pub pruned: Vec<Vec<u8>>,
}

/// The outward effects of handling one message. The rotation, if any, comes
/// first; then `write`, if any, is appended to the (possibly fresh) active
/// file, echoed to standard output when the sink says so.
pub struct Effects {
    /// A rotation to perform, before any write.
    pub rotation: Option<Rotation>,
    /// Bytes to append to the active file.
    pub write: Option<Vec<u8>>,
}

/// The worker's whole state: configuration, entry buffer, active-file size
/// accounting, and the retention window of archive names in creation order.
pub struct Sink {
    /// File name of the active log up to the extension's dot.
    pub stem: Vec<u8>,
    /// Extension of the active log, without its dot.
    pub ext: Vec<u8>,
    /// How many archives the retention window may hold.
    pub retain: usize,
    /// Capacity of the entry buffer in bytes.
    pub buffer_size: usize,
    /// Rotation threshold for the active file in bytes.
    pub rotate_size: usize,
    /// Whether flushed bytes are echoed to standard output.
    pub stdout_echo: bool,
    /// The bounded entry buffer.
    pub buffer: EntryBuffer,
    /// Bytes attributed to the current file generation, advanced when an
    /// entry is accepted — before the entry is necessarily flushed.
    pub file_size: usize,
    /// Archive names in creation order; the oldest sits first.
    pub window: Vec<Vec<u8>>,
    /// Model of the bytes appended to the active file since it was opened.
    pub file: Ghost<Seq<u8>>,
}

/// The retention window as a sequence of archive names.
pub open spec fn window_model(s: Sink) -> Seq<Seq<u8>> {
    names_seq(s.window)
}

/// Every name in the retention window has the archive shape for the sink's
/// stem and extension.
pub open spec fn window_ok(s: Sink) -> bool {
    forall|i: int|
        0 <= i < window_model(s).len() ==> is_archive_name(
            #[trigger] window_model(s)[i],
            s.stem@,
            s.ext@,
        )
}

/// A step that leaves the window, stem and extension alone preserves
/// `window_ok`.
proof fn lemma_window_ok_same(pre: Sink, post: Sink)
    requires
        window_ok(pre),
        post.window == pre.window,
        post.stem@ == pre.stem@,
        post.ext@ == pre.ext@,
    ensures
        window_ok(post),
{
    assert forall|i: int|
        0 <= i < window_model(post).len() implies is_archive_name(
        #[trigger] window_model(post)[i],
        post.stem@,
        post.ext@,
    ) by {
        assert(window_model(post) == window_model(pre));
        assert(is_archive_name(window_model(pre)[i], pre.stem@, pre.ext@));
    }
}

/// The two sinks agree on every configuration field.
pub open spec fn same_config(pre: Sink, post: Sink) -> bool {
    &&& post.stem@ == pre.stem@
    &&& post.ext@ == pre.ext@
    &&& post.retain == pre.retain
    &&& post.buffer_size == pre.buffer_size
    &&& post.rotate_size == pre.rotate_size
    &&& post.stdout_echo == pre.stdout_echo
}

/// How many archives a rotation prunes from a window that held
/// `window_len` before the new archive is appended.
pub open spec fn pruned_count(window_len: int, retain: int) -> int {
    if window_len + 1 > retain {
        window_len + 1 - retain
    } else {
        0
    }
}

/// The rotation's names are rendered from its timestamp over the sink's
/// stem and extension.
pub open spec fn rotation_names_ok(pre: Sink, r: Rotation) -> bool {
    &&& r.timestamp.wf()
    &&& r.renamed_name@ == renamed_name_bytes(pre.stem@, pre.ext@, r.timestamp)
    &&& r.archive_name@ == archive_name_bytes(pre.stem@, pre.ext@, r.timestamp)
}

/// How a rotation reshapes the retention window: the new archive name is
/// appended, then the oldest names are pruned until the bound `retain`
/// holds again; exactly the pruned ones are reported for deletion.
pub open spec fn rotation_window_post(pre: Sink, post: Sink, r: Rotation) -> bool {
    let pushed = window_model(pre).push(r.archive_name@);
    let cut = pruned_count(window_model(pre).len() as int, pre.retain as int);
    &&& names_seq(r.pruned) == pushed.take(cut)
    &&& window_model(post) == pushed.skip(cut)
    &&& window_model(post).len() <= pre.retain
}

/// Everything a rotation does to the sink: file size accounting restarts at
/// zero, the active-file model is empty again, the buffer is untouched, and
/// the window is reshaped as `rotation_window_post` says.
pub open spec fn rotate_post(pre: Sink, post: Sink, r: Rotation) -> bool {
    &&& rotation_names_ok(pre, r)
    &&& rotation_window_post(pre, post, r)
    &&& same_config(pre, post)
    &&& post.file_size == 0
    &&& post.file@ == Seq::<u8>::empty()
    &&& post.buffer == pre.buffer
}

/// Everything a flush does: the previously buffered bytes, exactly, are
/// appended to the active-file model and handed out to be written, and the
/// buffer is empty afterwards.
pub open spec fn flush_post(pre: Sink, post: Sink, w: Seq<u8>) -> bool {
    &&& w == pre.buffer.bytes()
    &&& post.buffer.bytes() == Seq::<u8>::empty()
    &&& post.buffer.entry_list() == Seq::<Seq<u8>>::empty()
    &&& post.file@ == pre.file@ + w
    &&& post.file_size == pre.file_size
    &&& window_model(post) == window_model(pre)
    &&& same_config(pre, post)
}

/// Everything accepting one entry does, in policy order: rotation first when
/// the prospective file size would exceed the threshold — only then is the
/// entry attributed to the fresh file — and an implicit flush when the
/// prospective fill would exceed the buffer capacity, after which the entry
/// sits alone in the buffer.
pub open spec fn entry_post(pre: Sink, post: Sink, data: Seq<u8>, eff: Effects) -> bool {
    let len = data.len() as int;
    let rotated = pre.file_size + len > pre.rotate_size;
    let flushed = pre.buffer.bytes().len() + len > pre.buffer_size;
    &&& (eff.rotation is Some) == rotated
    &&& (eff.write is Some) == flushed
    &&& same_config(pre, post)
    &&& post.file_size == if rotated {
        len
    } else {
        pre.file_size + len
    }
    &&& match eff.rotation {
        Some(r) => rotation_names_ok(pre, r) && rotation_window_post(pre, post, r),
        None => window_model(post) == window_model(pre),
    }
    &&& match eff.write {
        Some(w) => w@ == pre.buffer.bytes() && post.buffer.bytes() == data
            && post.buffer.entry_list() == seq![data],
        None => post.buffer.bytes() == pre.buffer.bytes() + data && post.buffer.entry_list()
            == pre.buffer.entry_list().push(data),
    }
    &&& post.file@ == (if rotated {
        Seq::<u8>::empty()
    } else {
        pre.file@
    }) + (if flushed {
        pre.buffer.bytes()
    } else {
        Seq::<u8>::empty()
    })
}

/// Buffer capacity law: in any well-formed sink — and every handler returns
/// one — the buffer fill never exceeds the configured capacity, except when
/// the buffer holds exactly one entry whose own length exceeds it.
pub proof fn lemma_buffer_capacity(s: Sink)
    requires
        s.wf(),
    ensures
        s.buffer.bytes().len() <= s.buffer_size || (s.buffer.entry_list().len() == 1
            && s.buffer.entry_list()[0].len() > s.buffer_size),
{
    s.buffer.lemma_capacity();
}

/// Flush correctness law: after a flush the active file holds exactly the
/// previously buffered bytes, appended, and the buffer is empty.
pub proof fn lemma_flush_correctness(pre: Sink, post: Sink, w: Seq<u8>)
    requires
        flush_post(pre, post, w),
    ensures
        post.file@ == pre.file@ + pre.buffer.bytes(),
        post.buffer.bytes().len() == 0,
{
}

/// Rotation-before-entry law: when accepting an entry of length `L` would
/// push the cumulative file size past the threshold, a rotation happens and
/// the size accounting afterwards reflects only the entry accepted after the
/// rotation point.
pub proof fn lemma_rotation_before_entry(pre: Sink, post: Sink, data: Seq<u8>, eff: Effects)
    requires
        entry_post(pre, post, data, eff),
        pre.file_size + data.len() > pre.rotate_size,
    ensures
        eff.rotation is Some,
        post.file_size == data.len(),
{
}

/// Retention bound law: after any rotation the window holds at most
/// `retain` archives, and what was pruned is exactly the oldest run of the
/// window with the new archive appended.
pub proof fn lemma_retention_bound(pre: Sink, post: Sink, r: Rotation)
    requires
        rotation_window_post(pre, post, r),
    ensures
        window_model(post).len() <= pre.retain,
        names_seq(r.pruned) + window_model(post) == window_model(pre).push(r.archive_name@),
{
    let pushed = window_model(pre).push(r.archive_name@);
    let cut = pruned_count(window_model(pre).len() as int, pre.retain as int);
    assert(pushed.take(cut) + pushed.skip(cut) =~= pushed);
}

impl Sink {
    /// The buffer respects its capacity (but for a single oversized entry),
    /// the capacity is the configured one, and every name in the retention
    /// window has the archive shape.
    pub open spec fn wf(self) -> bool {
        &&& self.buffer.wf()
        &&& self.buffer.cap() == self.buffer_size
        &&& window_ok(self)
    }

    /// Rotates now: restarts the size accounting, renders the archive names
    /// from the wall clock, appends the archive to the retention window and
    /// prunes it down to `retain`, and empties the active-file model for the
    /// fresh file.
    #[verifier::loop_isolation(false)]
    pub fn rotate_now(&mut self) -> (r: Rotation)
        requires
            old(self).wf(),
        ensures
            final(self).wf(),
            rotate_post(*old(self), *final(self), r),
    {
        self.file_size = 0;
        let t = crate::timestamp::now();
        let renamed = renamed_file_name(&self.stem, &self.ext, &t);
        let archive = archive_file_name(&self.stem, &self.ext, &t);
        let archive_again = archive_file_name(&self.stem, &self.ext, &t);
        proof {
            lemma_archive_name_round_trip(self.stem@, self.ext@, t);
        }
        self.window.push(archive_again);
        let ghost pushed = window_model(*old(self)).push(archive@);
        proof {
            assert(names_seq(self.window) =~= pushed);
            self.file@ = Seq::<u8>::empty();
        }
        let mut pruned: Vec<Vec<u8>> = Vec::new();
        proof {
            assert(names_seq(pruned) =~= pushed.take(0));
            assert(names_seq(self.window) =~= pushed.skip(0));
        }
        let ghost cut = pruned_count(window_model(*old(self)).len() as int,
            self.retain as int);
        while self.window.len() > self.retain
            invariant
                self.stem == old(self).stem,
                self.ext == old(self).ext,
                self.retain == old(self).retain,
                self.buffer_size == old(self).buffer_size,
                self.rotate_size == old(self).rotate_size,
                self.stdout_echo == old(self).stdout_echo,
                self.buffer == old(self).buffer,
                self.file_size == 0,
                self.file@ == Seq::<u8>::empty(),
                pruned@.len() + self.window@.len() == pushed.len(),
                pruned@.len() <= cut,
                names_seq(pruned) == pushed.take(pruned@.len() as int),
                names_seq(self.window) == pushed.skip(pruned@.len() as int),
            decreases self.window@.len(),
        {
            let ghost done = pruned@.len() as int;
            let ghost prev = names_seq(self.window);
            let ghost prevw = self.window;
            let oldest = self.window.remove(0);
            pruned.push(oldest);
            proof {
                assert(prev == pushed.skip(done));
                assert(self.window@ == prevw@.remove(0));
                assert(forall|i: int|
                    0 <= i < self.window@.len() ==> self.window@[i] == prevw@[i + 1]);
                assert(oldest@ == prev[0]);
                assert(prev[0] == pushed[done]);
                assert(names_seq(pruned) =~= pushed.take(done + 1));
                assert forall|i: int|
                    0 <= i < names_seq(self.window).len() implies names_seq(
                    self.window)[i] == pushed.skip(done + 1)[i] by {
                    assert(self.window@[i] == prevw@[i + 1]);
                    assert(names_seq(self.window)[i] == prevw@[i + 1]@);
                    assert(names_seq(prevw)[i + 1] == prevw@[i + 1]@);
                    assert(names_seq(prevw) == pushed.skip(done));
                    assert(pushed.skip(done)[i + 1] == pushed[done + 1 + i]);
                    assert(pushed.skip(done + 1)[i] == pushed[done + 1 + i]);
                }
                assert(names_seq(self.window) =~= pushed.skip(done + 1));
            }
        }
        proof {
            assert(pruned@.len() == cut);
            assert(names_seq(self.window) == pushed.skip(cut));
            assert forall|i: int|
                0 <= i < pushed.len() implies is_archive_name(#[trigger] pushed[i],
                    old(self).stem@, old(self).ext@) by {
                if i < window_model(*old(self)).len() {
                    assert(pushed[i] == window_model(*old(self))[i]);
                } else {
                    assert(pushed[i] == archive@);
                }
            }
            assert forall|i: int|
                0 <= i < names_seq(self.window).len() implies is_archive_name(
                    #[trigger] names_seq(self.window)[i], self.stem@, self.ext@) by {
                assert(names_seq(self.window)[i] == pushed[i + cut]);
            }
        }
        Rotation { timestamp: t, renamed_name: renamed, archive_name: archive, pruned }
    }

    /// Flushes: takes the buffered bytes out to be written to the active
    /// file, and records them in the active-file model.
    pub fn handle_flush(&mut self) -> (w: Vec<u8>)
        requires
            old(self).wf(),
        ensures
            final(self).wf(),
            flush_post(*old(self), *final(self), w@),
    {
        let w = self.buffer.take_and_clear();
        proof {
            self.file@ = self.file@ + w@;
            lemma_window_ok_same(*old(self), *self);
        }
        w
    }

    /// Accepts one entry under the buffer/flush/rotate policy: rotate first
    /// if the prospective file size would exceed `rotate_size`, then flush
    /// first if the prospective fill would exceed `buffer_size`.
    pub fn handle_entry(&mut self, data: Vec<u8>) -> (eff: Effects)
        requires
            old(self).wf(),
        ensures
            final(self).wf(),
            entry_post(*old(self), *final(self), data@, eff),
    {
        let len = data.len();
        let rotation: Option<Rotation> = if self.file_size > self.rotate_size || len
            > self.rotate_size - self.file_size {
            let r = self.rotate_now();
            let ghost rotated = *self;
            self.file_size = len;
            proof {
                lemma_window_ok_same(rotated, *self);
            }
            Some(r)
        } else {
            self.file_size = self.file_size + len;
            proof {
                lemma_window_ok_same(*old(self), *self);
            }
            None
        };
        let ghost mid = *self;
        let write: Option<Vec<u8>> = if self.buffer.would_overflow(len) {
            let w = self.buffer.take_and_clear();
            proof {
                self.file@ = self.file@ + w@;
            }
            self.buffer.append(&data);
            Some(w)
        } else {
            self.buffer.append(&data);
            None
        };
        proof {
            lemma_window_ok_same(mid, *self);
            assert(self.buffer.wf());
            assert(self.buffer.cap() == self.buffer_size);
        }
        Effects { rotation, write }
    }

    /// Builds the worker state at startup: an empty buffer of the configured
    /// capacity, the size the active file already has on disk, and a
    /// retention window reconciled from the given directory listing —
    /// exactly the names of archive shape, sorted chronologically.
    pub fn new(
        stem: Vec<u8>,
        ext: Vec<u8>,
        retain: usize,
        buffer_size: usize,
        rotate_size: usize,
        stdout_echo: bool,
        initial_file_size: usize,
        dir_names: Vec<Vec<u8>>,
    ) -> (s: Sink)
        ensures
            s.wf(),
            s.stem@ == stem@,
            s.ext@ == ext@,
            s.retain == retain,
            s.buffer_size == buffer_size,
            s.rotate_size == rotate_size,
            s.stdout_echo == stdout_echo,
            s.file_size == initial_file_size,
            s.buffer.bytes() == Seq::<u8>::empty(),
            s.buffer.entry_list() == Seq::<Seq<u8>>::empty(),
            s.file@ == Seq::<u8>::empty(),
            crate::startup::reconciled(names_seq(dir_names), stem@, ext@, window_model(s)),
    {
        let window = crate::startup::reconcile(dir_names, &stem, &ext);
        Sink {
            stem,
            ext,
            retain,
            buffer_size,
            rotate_size,
            stdout_echo,
            buffer: EntryBuffer::new(buffer_size),
            file_size: initial_file_size,
            window,
            file: Ghost(Seq::empty()),
        }
    }

    /// Handles one message, in the order the channel delivered it.
    pub fn handle_message(&mut self, msg: LogMessage) -> (eff: Effects)
        requires
            old(self).wf(),
        ensures
            final(self).wf(),
            match msg {
                LogMessage::FlushRequest => eff.rotation is None && match eff.write {
                    Some(w) => flush_post(*old(self), *final(self), w@),
                    None => false,
                },
                LogMessage::RotateRequest => eff.write is None && match eff.rotation {
                    Some(r) => rotate_post(*old(self), *final(self), r),
                    None => false,
                },
                LogMessage::Entry(data) => entry_post(*old(self), *final(self), data@, eff),
            },
    {
        match msg {
            LogMessage::FlushRequest => {
                let w = self.handle_flush();
                Effects { rotation: None, write: Some(w) }
            },
            LogMessage::RotateRequest => {
                let r = self.rotate_now();
                Effects { rotation: Some(r), write: None }
            },
            LogMessage::Entry(data) => self.handle_entry(data),
        }
    }
}

} // verus!
