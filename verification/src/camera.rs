//! The controller: which device the camera is on, whether it is meant to be
//! streaming, and what a switch to another device takes. It decides; the
//! caller opens, starts and stops the sessions.

use vstd::prelude::*;
use crate::device::{find_device, lemma_position_of, position_of, CameraDevice};
use crate::error::CameraError;
use crate::frame::Frame;
use crate::sample::{normalize, RawSample};

verus! {

/// A controller as a value: the device it is on, the session it owns if it
/// owns one, and whether it is meant to be streaming.
pub struct CameraView<S> {
    pub device: CameraDevice,
    pub session: Option<S>,
    pub running: bool,
}

/// What `set_device` found out about the device asked for.
#[derive(Debug, Clone, Copy, PartialEq, Eq, Structural)]
pub enum Switch {
    /// The controller is on that device already. Nothing is to be done.
    Unchanged,
    /// The device is enumerated at this index. The caller opens a session
    /// on it and hands the outcome to `attach`.
    Open(usize),
}

impl<S> CameraView<S> {
    /// A controller only streams on a session that it owns.
    pub open spec fn well_formed(self) -> bool {
        self.running ==> self.session is Some
    }

    /// The controller that has picked `device` and has no session on it yet.
    pub open spec fn on(device: CameraDevice) -> Self {
        CameraView { device, session: None, running: false }
    }

    /// The controller after `start`: streaming, if there is a session.
    pub open spec fn started(self) -> Self {
        CameraView { running: self.session is Some, ..self }
    }

    /// The controller after `stop`.
    pub open spec fn stopped(self) -> Self {
        CameraView { running: false, ..self }
    }

    /// The controller after it gave up its session.
    pub open spec fn torn_down(self) -> Self {
        CameraView { session: None, running: false, ..self }
    }

    /// The controller after a new session on `device` took the place of
    /// the one it had. Whether it is meant to be streaming stays as it was.
    pub open spec fn attached(self, device: CameraDevice, session: S) -> Self {
        CameraView { device, session: Some(session), running: self.running }
    }

    /// What `set_device` returns for `target`, given what the backend
    /// enumerates, and the controller that it leaves. A target that cannot
    /// be resolved costs the controller its session.
    pub open spec fn switched(self, target: CameraDevice, devices: Seq<CameraDevice>) -> (
        Result<Switch, CameraError>,
        Self,
    ) {
        if target.id@ == self.device.id@ {
            (Ok(Switch::Unchanged), self)
        } else {
            match position_of(devices, target.id@) {
                Some(index) => (Ok(Switch::Open(index as usize)), self),
                None => (Err(CameraError::DeviceNotFound), self.torn_down()),
            }
        }
    }
}

/// The facade's state machine. It owns at most one capture session, of a
/// type `S` that the backend chooses, and decides what is to be done to
/// it; the caller does it. A session that the controller lets go of is
/// dropped then and there.
#[derive(Debug)]
pub struct Camera<S> {
    device: CameraDevice,
    session: Option<S>,
    running: bool,
}

impl<S> View for Camera<S> {
    type V = CameraView<S>;

    closed spec fn view(&self) -> CameraView<S> {
        CameraView { device: self.device, session: self.session, running: self.running }
    }
}

impl<S> Camera<S> {
    #[verifier::type_invariant]
    spec fn well_formed(self) -> bool {
        self.running ==> self.session is Some
    }

    /// Picks the first enumerated device. The controller is idle and has no
    /// session yet: the caller opens one on `device()` and hands the
    /// outcome to `attach`.
    pub fn new_default_device(devices: &Vec<CameraDevice>) -> (res: Result<Self, CameraError>)
        ensures
            match res {
                Ok(camera) => devices@.len() > 0 && camera@ == CameraView::<S>::on(devices@[0]),
                Err(e) => devices@.len() == 0 && e == CameraError::NoDeviceAvailable,
            },
    {
        if devices.len() == 0 {
            return Err(CameraError::NoDeviceAvailable);
        }
        Ok(Camera { device: devices[0].clone(), session: None, running: false })
    }

    /// The devices that the backend's nodes stand for, in their order. Each
    /// node is an id and, where it has one, a name.
    pub fn device_list(nodes: &Vec<(String, Option<String>)>) -> (res: Vec<CameraDevice>)
        ensures
            res@.len() == nodes@.len(),
            forall|i: int|
                0 <= i < nodes@.len() ==> (#[trigger] res@[i]).id == nodes@[i].0 && res@[i].name
                    == (match nodes@[i].1 {
                    Some(name) => name,
                    None => nodes@[i].0,
                }),
    {
        let mut devices: Vec<CameraDevice> = Vec::with_capacity(nodes.len());
        let mut index: usize = 0;
        while index < nodes.len()
            invariant
                index <= nodes@.len(),
                devices@.len() == index,
                forall|i: int|
                    0 <= i < index ==> (#[trigger] devices@[i]).id == nodes@[i].0
                        && devices@[i].name == (match nodes@[i].1 {
                        Some(name) => name,
                        None => nodes@[i].0,
                    }),
            decreases nodes@.len() - index,
        {
            let id = nodes[index].0.clone();
            let name = match &nodes[index].1 {
                Some(name) => Some(name.clone()),
                None => None,
            };
            devices.push(CameraDevice::from_node(id, name));
            index += 1;
        }
        devices
    }

    /// The device that the controller is on.
    pub fn device(&self) -> (res: CameraDevice)
        ensures
            res == self@.device,
    {
        self.device.clone()
    }

    /// The session that the controller owns, if it owns one. A consumer
    /// waits on its slot, whether the controller is streaming or idle;
    /// without a session there is nothing to wait for.
    pub fn session(&self) -> (res: Option<&S>)
        ensures
            res == (match self@.session {
                Some(session) => Some(&session),
                None => None,
            }),
            self@.well_formed(),
    {
        proof {
            use_type_invariant(self);
        }
        self.session.as_ref()
    }

    /// Whether the controller is meant to be streaming.
    pub fn is_running(&self) -> (res: bool)
        ensures
            res == self@.running,
            self@.well_formed(),
    {
        proof {
            use_type_invariant(self);
        }
        self.running
    }

    /// Asks for streaming. Returns whether the session is to be told to
    /// start: it is not when it was told already, nor when there is none.
    pub fn start(&mut self) -> (tell: bool)
        ensures
            final(self)@ == old(self)@.started(),
            tell == (old(self)@.session is Some && !old(self)@.running),
    {
        proof {
            use_type_invariant(&*self);
        }
        if self.running || self.session.is_none() {
            return false;
        }
        self.running = true;
        true
    }

    /// Takes in how the session answered to being told to start. One that
    /// failed to start leaves the controller idle.
    pub fn confirm_start(&mut self, started: bool) -> (res: Result<(), CameraError>)
        ensures
            res == (if started {
                Ok::<(), CameraError>(())
            } else {
                Err(CameraError::BackendStartFailed)
            }),
            final(self)@ == (if started {
                old(self)@
            } else {
                old(self)@.stopped()
            }),
    {
        if started {
            Ok(())
        } else {
            self.running = false;
            Err(CameraError::BackendStartFailed)
        }
    }

    /// Asks for streaming to end. Returns whether the session is to be
    /// told to stop: it is not when it is idle already.
    pub fn stop(&mut self) -> (tell: bool)
        ensures
            final(self)@ == old(self)@.stopped(),
            tell == old(self)@.running,
    {
        let tell = self.running;
        self.running = false;
        tell
    }

    /// Decides what a switch to `device` takes, given what the backend
    /// enumerates now. A switch to the device that the controller is on
    /// takes nothing. A device that is not enumerated ends streaming and
    /// costs the controller its session, which is dropped here.
    pub fn set_device(
        &mut self,
        device: &CameraDevice,
        devices: &Vec<CameraDevice>,
    ) -> (res: Result<Switch, CameraError>)
        ensures
            (res, final(self)@) == old(self)@.switched(*device, devices@),
    {
        if self.device.same_device(device) {
            return Ok(Switch::Unchanged);
        }
        match find_device(devices, device) {
            Some(index) => Ok(Switch::Open(index)),
            None => {
                self.running = false;
                self.session = None;
                Err(CameraError::DeviceNotFound)
            },
        }
    }

    /// Takes in what opening a session on `device` gave. A new session
    /// takes the place of the old one, and the result says whether it is to
    /// be told to start: it is when the controller is meant to be
    /// streaming. Without a new session the controller stays as it is.
    pub fn attach(&mut self, device: CameraDevice, opened: Option<S>) -> (res: Result<
        bool,
        CameraError,
    >)
        ensures
            match opened {
                Some(session) => {
                    &&& final(self)@ == old(self)@.attached(device, session)
                    &&& res == Ok::<bool, CameraError>(old(self)@.running)
                },
                None => {
                    &&& final(self)@ == old(self)@
                    &&& res == Err::<bool, CameraError>(CameraError::BackendOpenFailed)
                },
            },
    {
        match opened {
            Some(session) => {
                self.session = Some(session);
                self.device = device;
                Ok(self.running)
            },
            None => Err(CameraError::BackendOpenFailed),
        }
    }

    /// Ends one round of waiting: `sample` is what the session's slot
    /// handed out. A sample that cannot be normalized is no frame this
    /// round, and without a session there is no frame at all.
    pub fn wait_for_frame(&self, sample: Option<RawSample>) -> (res: Option<Frame>)
        ensures
            match res {
                Some(frame) => {
                    &&& self@.session is Some
                    &&& sample matches Some(raw) && raw.normalizes_to(Ok(frame@))
                },
                None => {
                    ||| self@.session is None
                    ||| sample is None
                    ||| exists|e: CameraError| (#[trigger] sample->Some_0.normalizes_to(Err(e)))
                },
            },
    {
        if self.session.is_none() {
            return None;
        }
        match sample {
            Some(raw) => match normalize(raw) {
                Ok(frame) => Some(frame),
                Err(_) => None,
            },
            None => None,
        }
    }
}

/// A switch to the device that the controller is on changes nothing: the
/// session, whether it is streaming, and the device stay as they are.
pub proof fn lemma_same_device_changes_nothing<S>(
    camera: CameraView<S>,
    target: CameraDevice,
    devices: Seq<CameraDevice>,
)
    requires
        target.id@ == camera.device.id@,
    ensures
        camera.switched(target, devices) == (Ok::<Switch, CameraError>(Switch::Unchanged), camera),
{
}

/// A switch to a device that is not enumerated fails and leaves the
/// controller idle and without a session, whatever it was doing.
pub proof fn lemma_unknown_device_tears_down<S>(
    camera: CameraView<S>,
    target: CameraDevice,
    devices: Seq<CameraDevice>,
)
    requires
        target.id@ != camera.device.id@,
        forall|i: int| 0 <= i < devices.len() ==> devices[i].id@ != target.id@,
    ensures
        ({
            let (res, after) = camera.switched(target, devices);
            &&& res == Err::<Switch, CameraError>(CameraError::DeviceNotFound)
            &&& after.session is None
            &&& !after.running
            &&& after.device == camera.device
            &&& after.well_formed()
        }),
{
    lemma_position_of(devices, target.id@);
}

/// A switch to another device that is enumerated, once the new session is
/// attached, leaves the controller on that device and on the new session,
/// streaming if and only if it was streaming before.
pub proof fn lemma_switch_keeps_running<S>(
    camera: CameraView<S>,
    target: CameraDevice,
    devices: Seq<CameraDevice>,
    session: S,
)
    requires
        camera.well_formed(),
        devices.len() <= usize::MAX,
        target.id@ != camera.device.id@,
        exists|i: int| 0 <= i < devices.len() && devices[i].id@ == target.id@,
    ensures
        ({
            let (res, planned) = camera.switched(target, devices);
            &&& planned == camera
            &&& res matches Ok(Switch::Open(index))
            &&& index < devices.len()
            &&& devices[index as int].id@ == target.id@
            &&& ({
                let after = planned.attached(devices[index as int], session);
                &&& after.running == camera.running
                &&& after.session == Some(session)
                &&& after.well_formed()
            })
        }),
{
    lemma_position_of(devices, target.id@);
}

/// Starting what is started and stopping what is stopped change nothing,
/// and neither `start` nor `stop` leaves a controller streaming without a
/// session.
pub proof fn lemma_start_stop_idempotent<S>(camera: CameraView<S>)
    ensures
        camera.started().started() == camera.started(),
        camera.stopped().stopped() == camera.stopped(),
        camera.started().well_formed(),
        camera.stopped().well_formed(),
        camera.started().session == camera.session,
        camera.stopped().session == camera.session,
{
}

/// No step of the controller leaves it streaming without a session.
pub proof fn lemma_steps_keep_well_formed<S>(
    camera: CameraView<S>,
    target: CameraDevice,
    devices: Seq<CameraDevice>,
    session: S,
)
    requires
        camera.well_formed(),
    ensures
        CameraView::<S>::on(target).well_formed(),
        camera.started().well_formed(),
        camera.stopped().well_formed(),
        camera.torn_down().well_formed(),
        camera.attached(target, session).well_formed(),
        camera.switched(target, devices).1.well_formed(),
{
}

} // verus!
