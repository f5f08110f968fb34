//! Hardware discovery: which peripherals answer on the I2C bus at boot, and which
//! tasks are spawned for them.
//!
//! Each known address is read once, in a fixed order. A device that does not answer
//! is absent, whatever the error was.
use vstd::prelude::*;

verus! {

/// I2C address of the SSD1306 display.
pub const SSD1306_ADDR: u8 = 0x3C;

/// Address of the OV2640 camera on its I2C-compatible control bus.
pub const CAMERA_SCCB_ADDR: u8 = 0x30;

/// I2C address of the audio codec.
pub const AUDIO_CODEC_ADDR: u8 = 0x1A;

/// Which peripherals answered.
#[derive(Debug, Clone, PartialEq, Eq, Structural)]
pub struct DetectedHardware {
    /// The display, at [`SSD1306_ADDR`].
    pub oled: bool,
    /// The camera, at [`CAMERA_SCCB_ADDR`].
    pub camera: bool,
    /// The audio codec, at [`AUDIO_CODEC_ADDR`].
    pub audio: bool,
}

impl Default for DetectedHardware {
    /// A bare board.
    fn default() -> (hardware: DetectedHardware)
        ensures
            hardware == (DetectedHardware { oled: false, camera: false, audio: false }),
    {
        DetectedHardware { oled: false, camera: false, audio: false }
    }
}

/// Whether a device is there, given what came of reading a byte from its address:
/// any error means that it is not.
pub fn probe_i2c_device<E>(reply: &Result<(), E>) -> (present: bool)
    ensures
        present == (reply is Ok),
{
    match reply {
        Ok(_) => true,
        Err(_) => false,
    }
}

/// The addresses that are read, in this order.
pub open spec fn probe_order() -> Seq<u8> {
    seq![SSD1306_ADDR, CAMERA_SCCB_ADDR, AUDIO_CODEC_ADDR]
}

/// What is known of the hardware after the first answers, `true` for a device that
/// is there.
pub open spec fn hardware_of(answers: Seq<bool>) -> DetectedHardware {
    DetectedHardware {
        oled: answers.len() > 0 && answers[0],
        camera: answers.len() > 1 && answers[1],
        audio: answers.len() > 2 && answers[2],
    }
}

/// A scan of the I2C bus. Its view is the answers so far.
pub struct HardwareProbe {
    answered: u8,
    found: DetectedHardware,
}

impl View for HardwareProbe {
    type V = Seq<bool>;

    closed spec fn view(&self) -> Seq<bool> {
        Seq::new(
            self.answered as nat,
            |i: int|
                if i == 0 {
                    self.found.oled
                } else if i == 1 {
                    self.found.camera
                } else {
                    self.found.audio
                },
        )
    }
}

impl HardwareProbe {
    #[verifier::type_invariant]
    spec fn valid(self) -> bool {
        self.answered <= 3 && self.found == hardware_of(self@)
    }

    /// A scan with all addresses still to read.
    pub fn new() -> (probe: HardwareProbe)
        ensures
            probe@ == Seq::<bool>::empty(),
    {
        HardwareProbe {
            answered: 0,
            found: DetectedHardware { oled: false, camera: false, audio: false },
        }
    }

    /// The address to read next, `None` when each has been read.
    pub fn next_address(&self) -> (address: Option<u8>)
        ensures
            self@.len() <= probe_order().len(),
            address == (if self@.len() < probe_order().len() {
                Some(probe_order()[self@.len() as int])
            } else {
                None
            }),
    {
        proof {
            use_type_invariant(self);
        }
        match self.answered {
            0 => Some(SSD1306_ADDR),
            1 => Some(CAMERA_SCCB_ADDR),
            2 => Some(AUDIO_CODEC_ADDR),
            _ => None,
        }
    }

    /// Takes up what came of reading from [`HardwareProbe::next_address`]; does
    /// nothing when each address has been read.
    pub fn record<E>(&mut self, reply: &Result<(), E>)
        ensures
            old(self)@.len() <= probe_order().len(),
            final(self)@ == (if old(self)@.len() < probe_order().len() {
                old(self)@.push(reply is Ok)
            } else {
                old(self)@
            }),
    {
        proof {
            use_type_invariant(&*self);
        }
        let present = probe_i2c_device(reply);
        let DetectedHardware { oled, camera, .. } = self.hardware();
        let (answered, found) = match self.answered {
            0 => (1, DetectedHardware { oled: present, camera: false, audio: false }),
            1 => (2, DetectedHardware { oled, camera: present, audio: false }),
            2 => (3, DetectedHardware { oled, camera, audio: present }),
            _ => return,
        };
        *self = HardwareProbe { answered, found };
    }

    /// What has been found so far.
    pub fn hardware(&self) -> (hardware: DetectedHardware)
        ensures
            self@.len() <= probe_order().len(),
            hardware == hardware_of(self@),
    {
        proof {
            use_type_invariant(self);
        }
        DetectedHardware {
            oled: self.found.oled,
            camera: self.found.camera,
            audio: self.found.audio,
        }
    }
}

/// A task that the firmware may spawn at boot.
#[derive(Debug, Clone, Copy, PartialEq, Eq, Structural)]
pub enum BootTask {
    Oled,
    Camera,
    Audio,
    Wifi,
    EspNow,
}

/// Whether a task has what it needs.
pub open spec fn spawned(hardware: DetectedHardware, task: BootTask) -> bool {
    match task {
        BootTask::Oled => hardware.oled,
        BootTask::Camera => hardware.camera,
        BootTask::Audio => hardware.audio,
        BootTask::Wifi => true,
        BootTask::EspNow => true,
    }
}

/// Whether a task is spawned: one that drives a peripheral is if the peripheral was
/// found, the radio tasks always are.
pub fn should_spawn(hardware: &DetectedHardware, task: BootTask) -> (spawn: bool)
    ensures
        spawn == spawned(*hardware, task),
        task is Oled ==> spawn == hardware.oled,
        task is Camera ==> spawn == hardware.camera,
        task is Audio ==> spawn == hardware.audio,
        task is Wifi || task is EspNow ==> spawn,
{
    match task {
        BootTask::Oled => hardware.oled,
        BootTask::Camera => hardware.camera,
        BootTask::Audio => hardware.audio,
        BootTask::Wifi => true,
        BootTask::EspNow => true,
    }
}

/// What is logged about a task at boot.
pub open spec fn boot_message_of(hardware: DetectedHardware, task: BootTask) -> Option<Seq<char>> {
    match task {
        BootTask::Oled => if hardware.oled {
            Some("[SrkOS] SSD1306 OLED detected -- spawning oled_task"@)
        } else {
            Some("[SrkOS] No Screen Detected -- skipping oled_task"@)
        },
        BootTask::Camera => if hardware.camera {
            Some("[SrkOS] Camera (OV2640) detected -- spawning camera_task"@)
        } else {
            None
        },
        BootTask::Audio => if hardware.audio {
            Some("[SrkOS] Audio codec detected -- spawning audio_task"@)
        } else {
            None
        },
        BootTask::Wifi => None,
        BootTask::EspNow => None,
    }
}

/// The line that is logged about a task at boot, if any.
pub fn boot_message(hardware: &DetectedHardware, task: BootTask) -> (message: Option<&'static str>)
    ensures
        (match message {
            Some(text) => Some(text@),
            None => None,
        }) == boot_message_of(*hardware, task),
{
    match task {
        BootTask::Oled => if hardware.oled {
            Some("[SrkOS] SSD1306 OLED detected -- spawning oled_task")
        } else {
            Some("[SrkOS] No Screen Detected -- skipping oled_task")
        },
        BootTask::Camera => if hardware.camera {
            Some("[SrkOS] Camera (OV2640) detected -- spawning camera_task")
        } else {
            None
        },
        BootTask::Audio => if hardware.audio {
            Some("[SrkOS] Audio codec detected -- spawning audio_task")
        } else {
            None
        },
        BootTask::Wifi => None,
        BootTask::EspNow => None,
    }
}

/// A full scan reports each device exactly as it answered.
pub proof fn lemma_scan_reports_answers(oled: bool, camera: bool, audio: bool)
    ensures
        hardware_of(Seq::<bool>::empty().push(oled).push(camera).push(audio)) == (
        DetectedHardware { oled, camera, audio }),
{
}

/// An answer says nothing about any other device.
pub proof fn lemma_answers_are_independent(answers: Seq<bool>, i: int, answer: bool)
    requires
        answers.len() == probe_order().len(),
        0 <= i < answers.len(),
    ensures
        i != 0 ==> hardware_of(answers.update(i, answer)).oled == hardware_of(answers).oled,
        i != 1 ==> hardware_of(answers.update(i, answer)).camera == hardware_of(answers).camera,
        i != 2 ==> hardware_of(answers.update(i, answer)).audio == hardware_of(answers).audio,
{
}

/// A board on which nothing answers boots with the radio tasks alone.
pub proof fn lemma_bare_board_boots(answers: Seq<bool>, task: BootTask)
    requires
        forall|i: int| 0 <= i < answers.len() ==> !answers[i],
    ensures
        spawned(hardware_of(answers), task) <==> task is Wifi || task is EspNow,
{
}

/// A board on which every device answers boots with all tasks.
pub proof fn lemma_full_board_boots(answers: Seq<bool>, task: BootTask)
    requires
        answers.len() == probe_order().len(),
        forall|i: int| 0 <= i < answers.len() ==> answers[i],
    ensures
        spawned(hardware_of(answers), task),
{
}

/// A device that was not read yet counts as absent, and one that was read counts as
/// it answered, however far the scan has come.
pub proof fn lemma_partial_scan(answers: Seq<bool>)
    ensures
        answers.len() == 0 ==> !hardware_of(answers).oled,
        answers.len() <= 1 ==> !hardware_of(answers).camera,
        answers.len() <= 2 ==> !hardware_of(answers).audio,
        answers.len() >= 1 ==> hardware_of(answers).oled == answers[0],
        answers.len() >= 2 ==> hardware_of(answers).camera == answers[1],
        answers.len() >= 3 ==> hardware_of(answers).audio == answers[2],
{
}

/// The display is read first, then the camera, then the audio codec, and no other
/// address is.
pub proof fn lemma_addresses_in_order()
    ensures
        probe_order().len() == 3,
        probe_order()[0] == 0x3C,
        probe_order()[1] == 0x30,
        probe_order()[2] == 0x1A,
{
}

/// On every board, each peripheral's task is spawned exactly if that peripheral
/// answered, and the radio tasks are spawned whatever answered.
pub proof fn lemma_tasks_follow_their_peripherals(hardware: DetectedHardware)
    ensures
        spawned(hardware, BootTask::Oled) <==> hardware.oled,
        spawned(hardware, BootTask::Camera) <==> hardware.camera,
        spawned(hardware, BootTask::Audio) <==> hardware.audio,
        spawned(hardware, BootTask::Wifi),
        spawned(hardware, BootTask::EspNow),
{
}

/// From the bus to the tasks: after a full scan, the task of a device is spawned
/// exactly if the device answered, whatever the others did.
pub proof fn lemma_answers_decide_tasks(oled: bool, camera: bool, audio: bool)
    ensures
        ({
            let hardware = hardware_of(seq![oled, camera, audio]);
            &&& spawned(hardware, BootTask::Oled) == oled
            &&& spawned(hardware, BootTask::Camera) == camera
            &&& spawned(hardware, BootTask::Audio) == audio
        }),
{
}

/// Two boards on which a device answers alike treat its task alike: they spawn it
/// both or neither, and log the same about it.
pub proof fn lemma_tasks_ignore_other_peripherals(a: DetectedHardware, b: DetectedHardware)
    ensures
        a.oled == b.oled ==> spawned(a, BootTask::Oled) == spawned(b, BootTask::Oled)
            && boot_message_of(a, BootTask::Oled) == boot_message_of(b, BootTask::Oled),
        a.camera == b.camera ==> spawned(a, BootTask::Camera) == spawned(b, BootTask::Camera)
            && boot_message_of(a, BootTask::Camera) == boot_message_of(b, BootTask::Camera),
        a.audio == b.audio ==> spawned(a, BootTask::Audio) == spawned(b, BootTask::Audio)
            && boot_message_of(a, BootTask::Audio) == boot_message_of(b, BootTask::Audio),
{
}

/// What is logged agrees with what is spawned: a screen that is missing is reported,
/// another device is mentioned only if its task is spawned, and the radio tasks are
/// never mentioned.
pub proof fn lemma_log_agrees_with_tasks(hardware: DetectedHardware)
    ensures
        hardware.oled ==> boot_message_of(hardware, BootTask::Oled) == Some(
            "[SrkOS] SSD1306 OLED detected -- spawning oled_task"@,
        ),
        !hardware.oled ==> boot_message_of(hardware, BootTask::Oled) == Some(
            "[SrkOS] No Screen Detected -- skipping oled_task"@,
        ),
        hardware.camera ==> boot_message_of(hardware, BootTask::Camera) == Some(
            "[SrkOS] Camera (OV2640) detected -- spawning camera_task"@,
        ),
        !hardware.camera ==> boot_message_of(hardware, BootTask::Camera) is None,
        hardware.audio ==> boot_message_of(hardware, BootTask::Audio) == Some(
            "[SrkOS] Audio codec detected -- spawning audio_task"@,
        ),
        !hardware.audio ==> boot_message_of(hardware, BootTask::Audio) is None,
        boot_message_of(hardware, BootTask::Wifi) is None,
        boot_message_of(hardware, BootTask::EspNow) is None,
{
}

} // verus!
