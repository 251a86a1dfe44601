//! The capture session state machine: one device selection and at most one
//! running capture worker, driven by select / start / stop operations.
//!
//! The executable state is mirrored by a ghost model, and every operation's
//! contract states its transition as a step of that model; a trace lemma
//! then shows that no sequence of operations ever has two live workers.

use vstd::prelude::*;

use crate::directory::{device_names, names_contain, InterfaceDescriptor};

verus! {

/// A session operation that could not be carried out.
#[derive(Clone, PartialEq, Eq, Debug)]
pub enum SessionError {
    /// The named interface is not in the current directory listing.
    DeviceNotFound,
    /// A capture worker is already running.
    AlreadyCapturing,
    /// No device has been selected yet.
    NoDeviceSelected,
    /// No capture worker is running.
    NotCapturing,
    /// The OS refused to open the capture handle; carries its reason.
    OpenFailed(String),
    /// The state lock could not be taken.
    LockUnavailable,
}

/// Ghost model of the session: the selected device name (empty when none)
/// and whether a capture worker is live.
pub ghost struct SessionModel {
    pub selected: Seq<char>,
    pub active: bool,
}

/// The model of a fresh session: nothing selected, no worker.
pub open spec fn init_model() -> SessionModel {
    SessionModel { selected: Seq::empty(), active: false }
}

/// One control operation, as seen by the model: the device names the
/// directory reported at the time, and for a start, whether the OS open
/// succeeded.
pub ghost enum SessionOp {
    Select { name: Seq<char>, names: Seq<Seq<char>> },
    Start { names: Seq<Seq<char>>, opened: bool },
    Stop,
}

/// Whether a start may proceed from model `m` against the listing `names`:
/// no worker live, a device selected, and that device still listed.
pub open spec fn start_allowed(m: SessionModel, names: Seq<Seq<char>>) -> bool {
    !m.active && m.selected.len() > 0 && names_contain(names, m.selected)
}

/// The model after one operation.
pub open spec fn apply_op(m: SessionModel, op: SessionOp) -> SessionModel {
    match op {
        SessionOp::Select { name, names } => if names_contain(names, name) {
            SessionModel { selected: name, active: m.active }
        } else {
            m
        },
        SessionOp::Start { names, opened } => if start_allowed(m, names) && opened {
            SessionModel { selected: m.selected, active: true }
        } else {
            m
        },
        SessionOp::Stop => if m.active {
            SessionModel { selected: m.selected, active: false }
        } else {
            m
        },
    }
}

/// The model after a sequence of operations.
pub open spec fn apply_ops(m: SessionModel, ops: Seq<SessionOp>) -> SessionModel
    decreases ops.len(),
{
    if ops.len() == 0 {
        m
    } else {
        apply_ops(apply_op(m, ops[0]), ops.skip(1))
    }
}

/// How one operation changes the number of live workers: a start that
/// proceeds spawns one, a stop of a live worker retires one.
pub open spec fn worker_delta(m: SessionModel, op: SessionOp) -> int {
    match op {
        SessionOp::Select { .. } => 0,
        SessionOp::Start { names, opened } => if start_allowed(m, names) && opened {
            1int
        } else {
            0int
        },
        SessionOp::Stop => if m.active {
            -1int
        } else {
            0int
        },
    }
}

/// The number of live workers after running `ops` from model `m` with `w`
/// workers live.
pub open spec fn workers_after(m: SessionModel, w: int, ops: Seq<SessionOp>) -> int
    decreases ops.len(),
{
    if ops.len() == 0 {
        w
    } else {
        workers_after(apply_op(m, ops[0]), w + worker_delta(m, ops[0]), ops.skip(1))
    }
}

/// Along any run of operations, the number of live workers is exactly one
/// when the model says a capture is active and zero otherwise.
pub proof fn lemma_workers_track_model(m: SessionModel, w: int, ops: Seq<SessionOp>)
    requires
        w == if m.active {
            1int
        } else {
            0int
        },
    ensures
        workers_after(m, w, ops) == if apply_ops(m, ops).active {
            1int
        } else {
            0int
        },
    decreases ops.len(),
{
    if ops.len() > 0 {
        let m2 = apply_op(m, ops[0]);
        let w2 = w + worker_delta(m, ops[0]);
        lemma_workers_track_model(m2, w2, ops.skip(1));
    }
}

/// For every sequence of select / start / stop operations from a fresh
/// session, at most one capture worker is live at its end — and hence, as
/// this holds of every prefix, at every instant.
pub proof fn lemma_at_most_one_worker(ops: Seq<SessionOp>)
    ensures
        workers_after(init_model(), 0, ops) <= 1,
{
    lemma_workers_track_model(init_model(), 0, ops);
}

/// The capture session: the selected device name (empty when none) and
/// whether a capture worker is live. The host keeps it behind one lock and
/// holds the cancellation handle of the worker it marks active.
pub struct CaptureSession {
    pub selected: String,
    pub active: bool,
}

impl View for CaptureSession {
    type V = SessionModel;

    open spec fn view(&self) -> SessionModel {
        SessionModel { selected: self.selected@, active: self.active }
    }
}

impl CaptureSession {
    /// A fresh session: nothing selected, no worker.
    pub fn new() -> (s: Self)
        ensures
            s@ == init_model(),
    {
        let s = CaptureSession { selected: String::new(), active: false };
        proof {
            assert(s@.selected =~= init_model().selected);
        }
        s
    }

    /// Records `name` as the device a future start will use, provided the
    /// directory listing contains it; a running capture is not affected.
    /// Fails with `DeviceNotFound` exactly when the name is not listed.
    pub fn select_device(&mut self, name: String, devices: &Vec<InterfaceDescriptor>) -> (r: Result<
        (),
        SessionError,
    >)
        ensures
            final(self)@ == apply_op(
                old(self)@,
                (SessionOp::Select { name: name@, names: device_names(devices@) }),
            ),
            r is Ok <==> names_contain(device_names(devices@), name@),
            r is Err ==> r == Err::<(), SessionError>(SessionError::DeviceNotFound),
    {
        match crate::directory::find_device(devices, &name) {
            Some(i) => {
                proof {
                    assert(device_names(devices@)[i as int] == devices@[i as int].name@);
                }
                self.selected = name;
                Ok(())
            },
            None => Err(SessionError::DeviceNotFound),
        }
    }

    /// Decides whether a capture may start now, and against which listed
    /// interface: fails with `AlreadyCapturing` when a worker is live, with
    /// `NoDeviceSelected` when nothing is selected, and with
    /// `DeviceNotFound` when the selected device has left the listing;
    /// otherwise yields the position of the device to open. Touches
    /// nothing: the session changes only once the open succeeds and
    /// `mark_started` is called.
    pub fn prepare_start(&self, devices: &Vec<InterfaceDescriptor>) -> (r: Result<
        usize,
        SessionError,
    >)
        ensures
            r is Ok <==> start_allowed(self@, device_names(devices@)),
            r matches Ok(i) ==> i < devices@.len() && devices@[i as int].name@ == self.selected@,
            self.active ==> r == Err::<usize, SessionError>(SessionError::AlreadyCapturing),
            !self.active && self.selected@.len() == 0 ==> r == Err::<usize, SessionError>(
                SessionError::NoDeviceSelected,
            ),
            !self.active && self.selected@.len() > 0 && !names_contain(
                device_names(devices@),
                self.selected@,
            ) ==> r == Err::<usize, SessionError>(SessionError::DeviceNotFound),
    {
        if self.active {
            return Err(SessionError::AlreadyCapturing);
        }
        if self.selected.as_str().is_empty() {
            return Err(SessionError::NoDeviceSelected);
        }
        match crate::directory::find_device(devices, &self.selected) {
            Some(i) => {
                proof {
                    assert(device_names(devices@)[i as int] == devices@[i as int].name@);
                }
                Ok(i)
            },
            None => Err(SessionError::DeviceNotFound),
        }
    }

    /// Records that the OS capture handle was opened and the worker
    /// spawned: together with a successful `prepare_start` this is the
    /// start step of the session model.
    pub fn mark_started(&mut self)
        requires
            !old(self).active,
        ensures
            final(self)@ == (SessionModel { selected: old(self)@.selected, active: true }),
    {
        self.active = true;
    }

    /// Stops the running capture: the host must cancel the worker through
    /// the handle it holds exactly when this returns `Ok`. Fails with
    /// `NotCapturing`, leaving the session unchanged, exactly when no
    /// worker is live.
    pub fn stop_capture(&mut self) -> (r: Result<(), SessionError>)
        ensures
            final(self)@ == apply_op(old(self)@, SessionOp::Stop),
            r is Ok <==> old(self).active,
            r is Err ==> r == Err::<(), SessionError>(SessionError::NotCapturing),
    {
        if self.active {
            self.active = false;
            Ok(())
        } else {
            Err(SessionError::NotCapturing)
        }
    }

    /// Records that the worker ended on its own (a fatal read error), so
    /// the session does not keep a dangling handle.
    pub fn mark_worker_ended(&mut self)
        ensures
            final(self)@ == (SessionModel { selected: old(self)@.selected, active: false }),
    {
        self.active = false;
    }
}

} // verus!
