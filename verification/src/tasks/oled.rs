//! OLED: the display state, driven by commands and by time.
//!
//! The display shows a face, and over it a menu that the BOOT button drives: a
//! click moves the cursor, a long press opens the menu or acts on the highlighted
//! item. A menu that nobody touches closes by itself.
use crate::ipc::{Command, FaceMood};
use vstd::prelude::*;

verus! {

/// Size of the framebuffer in bytes: 128 columns by 64 rows, one bit each.
pub const FRAMEBUFFER_SIZE: usize = 1024;

/// Frame period in milliseconds, for about 30 frames per second.
pub const FRAME_PERIOD_MS: u64 = 33;

/// Seconds without a button command after which the menu closes.
pub const MENU_INACTIVITY_SECS: u64 = 10;

/// The pixels of the display.
pub struct Framebuffer {
    pub bytes: [u8; FRAMEBUFFER_SIZE],
}

impl Framebuffer {
    /// All pixels dark.
    pub fn new() -> (framebuffer: Framebuffer)
        ensures
            framebuffer.bytes@ == Seq::new(FRAMEBUFFER_SIZE as nat, |i: int| 0u8),
    {
        Framebuffer { bytes: [0; FRAMEBUFFER_SIZE] }
    }
}

/// Level of the menu.
#[derive(Debug, Clone, Copy, PartialEq, Eq, Structural)]
pub enum MenuDepth {
    /// Talk, Mood, Settings, Exit.
    Main,
    /// Set Happy, Set Sleep, Back.
    Mood,
    /// Wi-Fi Info, Volume, Back.
    Settings,
}

/// The number of items at a level of the menu.
pub open spec fn items_at(depth: MenuDepth) -> u8 {
    match depth {
        MenuDepth::Main => 4,
        MenuDepth::Mood => 3,
        MenuDepth::Settings => 3,
    }
}

/// The number of items at a level of the menu.
pub fn menu_item_count(depth: MenuDepth) -> (count: u8)
    ensures
        count == items_at(depth),
{
    match depth {
        MenuDepth::Main => 4,
        MenuDepth::Mood => 3,
        MenuDepth::Settings => 3,
    }
}

/// The display state.
#[derive(Debug, Clone, Copy, PartialEq, Eq, Structural)]
pub struct OledState {
    /// Mood of the face.
    pub face_mood: FaceMood,
    /// Whether the menu is shown.
    pub menu_open: bool,
    /// Level of the menu.
    pub menu_depth: MenuDepth,
    /// Index of the highlighted item.
    pub selected_item: u8,
}

/// Label of a mood.
pub open spec fn mood_label(mood: FaceMood) -> Seq<char> {
    match mood {
        FaceMood::Happy => "Happy"@,
        FaceMood::Sad => "Sad"@,
        FaceMood::Neutral => "Neutral"@,
        FaceMood::Excited => "Excited"@,
        FaceMood::Mad => "Mad"@,
        FaceMood::Sleeping => "Sleeping"@,
    }
}

/// Label of a level of the menu.
pub open spec fn menu_label(depth: MenuDepth) -> Seq<char> {
    match depth {
        MenuDepth::Main => "Menu:Main"@,
        MenuDepth::Mood => "Menu:Mood"@,
        MenuDepth::Settings => "Menu:Settings"@,
    }
}

impl OledState {
    /// A neutral face, and the menu closed.
    pub open spec fn initial() -> OledState {
        OledState {
            face_mood: FaceMood::Neutral,
            menu_open: false,
            menu_depth: MenuDepth::Main,
            selected_item: 0,
        }
    }

    /// The cursor stands on an item of the menu.
    pub open spec fn well_formed(self) -> bool {
        self.selected_item < items_at(self.menu_depth)
    }

    /// The same face, with the menu open at the first item of `depth`.
    pub open spec fn at_menu(self, depth: MenuDepth) -> OledState {
        OledState { menu_open: true, menu_depth: depth, selected_item: 0, ..self }
    }

    /// The same face, with the menu closed.
    pub open spec fn menu_closed(self) -> OledState {
        OledState { menu_open: false, menu_depth: MenuDepth::Main, selected_item: 0, ..self }
    }

    /// The state after a long press.
    pub open spec fn after_select(self) -> OledState {
        if !self.menu_open {
            self.at_menu(MenuDepth::Main)
        } else {
            match self.menu_depth {
                MenuDepth::Main => if self.selected_item == 0 {
                    self
                } else if self.selected_item == 1 {
                    self.at_menu(MenuDepth::Mood)
                } else if self.selected_item == 2 {
                    self.at_menu(MenuDepth::Settings)
                } else {
                    self.menu_closed()
                },
                MenuDepth::Mood => OledState {
                    face_mood: if self.selected_item == 0 {
                        FaceMood::Happy
                    } else if self.selected_item == 1 {
                        FaceMood::Sleeping
                    } else {
                        self.face_mood
                    },
                    ..self.at_menu(MenuDepth::Main)
                },
                MenuDepth::Settings => self.at_menu(MenuDepth::Main),
            }
        }
    }

    /// The state after a click.
    pub open spec fn after_next(self) -> OledState {
        if self.menu_open {
            OledState {
                selected_item: ((self.selected_item + 1) % (items_at(self.menu_depth) as int)) as u8,
                ..self
            }
        } else {
            self
        }
    }

    /// The state after a command.
    pub open spec fn after(self, cmd: Command) -> OledState {
        match cmd {
            Command::SetFaceExpression(mood) => if self.menu_open {
                self
            } else {
                OledState { face_mood: mood, ..self }
            },
            Command::MenuNextItem => self.after_next(),
            Command::MenuSelect => self.after_select(),
            _ => self,
        }
    }

    /// A neutral face, and the menu closed.
    pub fn new() -> (state: OledState)
        ensures
            state == OledState::initial(),
    {
        OledState {
            face_mood: FaceMood::Neutral,
            menu_open: false,
            menu_depth: MenuDepth::Main,
            selected_item: 0,
        }
    }

    /// Label for logging: the menu level while the menu is open, else the mood.
    pub fn label(&self) -> (label: &'static str)
        ensures
            label@ == (if self.menu_open {
                menu_label(self.menu_depth)
            } else {
                mood_label(self.face_mood)
            }),
    {
        if self.menu_open {
            match self.menu_depth {
                MenuDepth::Main => "Menu:Main",
                MenuDepth::Mood => "Menu:Mood",
                MenuDepth::Settings => "Menu:Settings",
            }
        } else {
            match self.face_mood {
                FaceMood::Happy => "Happy",
                FaceMood::Sad => "Sad",
                FaceMood::Neutral => "Neutral",
                FaceMood::Excited => "Excited",
                FaceMood::Mad => "Mad",
                FaceMood::Sleeping => "Sleeping",
            }
        }
    }
}

impl Default for OledState {
    fn default() -> (state: OledState)
        ensures
            state == OledState::initial(),
    {
        OledState::new()
    }
}

/// The display state after a command.
///
/// | Command             | Effect                                           |
/// |---------------------|--------------------------------------------------|
/// | `SetFaceExpression` | Sets the mood; ignored while the menu is open    |
/// | `MenuNextItem`      | Moves the cursor down, from the last item to the first; nothing while the menu is closed |
/// | `MenuSelect`        | Opens the menu, enters a level, or acts on an item |
/// | all others          | None                                             |
///
/// The cursor of an open menu may stand beyond its items, but not at 255, where
/// it cannot be moved.
pub fn handle_command(state: OledState, cmd: &Command) -> (next: OledState)
    requires
        state.menu_open && *cmd == Command::MenuNextItem ==> state.selected_item < u8::MAX,
    ensures
        next == state.after(*cmd),
        cmd matches Command::SetFaceExpression(mood) ==> next == (if state.menu_open {
            state
        } else {
            OledState { face_mood: *mood, ..state }
        }),
        *cmd is MoveServo || *cmd is StreamAudio || *cmd is StreamVideo ==> next == state,
{
    match cmd {
        Command::SetFaceExpression(mood) => {
            if state.menu_open {
                state
            } else {
                OledState { face_mood: *mood, ..state }
            }
        },
        Command::MenuNextItem => {
            if !state.menu_open {
                state
            } else {
                let count = menu_item_count(state.menu_depth);
                OledState { selected_item: (state.selected_item + 1) % count, ..state }
            }
        },
        Command::MenuSelect => handle_menu_select(state),
        _ => state,
    }
}

/// The display state after a long press.
pub fn handle_menu_select(state: OledState) -> (next: OledState)
    ensures
        next == state.after_select(),
        state.menu_open && state.menu_depth is Mood && state.selected_item == 0
            ==> next.face_mood is Happy,
        state.menu_open && state.menu_depth is Mood && state.selected_item == 1
            ==> next.face_mood is Sleeping,
        !(state.menu_open && state.menu_depth is Mood && state.selected_item <= 1)
            ==> next.face_mood == state.face_mood,
{
    if !state.menu_open {
        return OledState {
            menu_open: true,
            menu_depth: MenuDepth::Main,
            selected_item: 0,
            ..state
        };
    }
    match state.menu_depth {
        MenuDepth::Main => match state.selected_item {
            // Talk belongs to the audio pipeline.
            0 => state,
            1 => OledState { menu_depth: MenuDepth::Mood, selected_item: 0, ..state },
            2 => OledState { menu_depth: MenuDepth::Settings, selected_item: 0, ..state },
            // Exit, or a cursor beyond the items.
            _ => OledState {
                menu_open: false,
                menu_depth: MenuDepth::Main,
                selected_item: 0,
                ..state
            },
        },
        MenuDepth::Mood => match state.selected_item {
            0 => OledState {
                face_mood: FaceMood::Happy,
                menu_depth: MenuDepth::Main,
                selected_item: 0,
                ..state
            },
            1 => OledState {
                face_mood: FaceMood::Sleeping,
                menu_depth: MenuDepth::Main,
                selected_item: 0,
                ..state
            },
            // Back, or a cursor beyond the items.
            _ => OledState { menu_depth: MenuDepth::Main, selected_item: 0, ..state },
        },
        // Wi-Fi Info, Volume and Back all return.
        MenuDepth::Settings => OledState {
            menu_depth: MenuDepth::Main,
            selected_item: 0,
            ..state
        },
    }
}

/// The display state together with the time, in clock ticks, of the last button
/// command.
#[derive(Debug, Clone, Copy, PartialEq, Eq, Structural)]
pub struct OledTask {
    pub state: OledState,
    pub last_activity: u64,
}

/// Whether a command comes from the button.
pub open spec fn is_button_command(cmd: Command) -> bool {
    cmd is MenuNextItem || cmd is MenuSelect
}

impl OledTask {
    /// The task after it took up what the bus had, at `received_at`.
    pub open spec fn after_receiving(self, received: Option<Command>, received_at: u64) -> OledTask {
        match received {
            Some(cmd) => OledTask {
                state: self.state.after(cmd),
                last_activity: if is_button_command(cmd) {
                    received_at
                } else {
                    self.last_activity
                },
            },
            None => self,
        }
    }

    /// The task after the check for inactivity, at `now`.
    pub open spec fn after_check(self, now: u64, ticks_per_sec: u64) -> OledTask {
        if self.state.menu_open && now - self.last_activity > MENU_INACTIVITY_SECS * ticks_per_sec {
            OledTask { state: self.state.menu_closed(), ..self }
        } else {
            self
        }
    }

    /// The initial state, with the inactivity counted from `now`.
    pub fn new(now: u64) -> (task: OledTask)
        ensures
            task == (OledTask { state: OledState::initial(), last_activity: now }),
    {
        OledTask { state: OledState::new(), last_activity: now }
    }

    /// One frame of the display: takes up a command, if the bus had one at
    /// `received_at`, and closes the menu if no button command came for more than
    /// [`MENU_INACTIVITY_SECS`] seconds up to `now`. The clock does not run
    /// backwards.
    pub fn frame(
        &mut self,
        received: Option<Command>,
        received_at: u64,
        now: u64,
        ticks_per_sec: u64,
    )
        requires
            old(self).state.menu_open && received == Some(Command::MenuNextItem) ==> old(
                self,
            ).state.selected_item < u8::MAX,
            old(self).after_receiving(received, received_at).last_activity <= now,
            MENU_INACTIVITY_SECS * ticks_per_sec <= u64::MAX,
        ensures
            *final(self) == old(self).after_receiving(received, received_at).after_check(
                now,
                ticks_per_sec,
            ),
            received matches Some(cmd) ==> final(self).state.face_mood == old(self).state.after(
                cmd,
            ).face_mood,
            received is None ==> final(self).state.face_mood == old(self).state.face_mood,
            final(self).state.menu_open ==> now - final(self).last_activity <= 10 * ticks_per_sec,
    {
        if let Some(cmd) = received {
            match cmd {
                Command::MenuNextItem | Command::MenuSelect => {
                    self.last_activity = received_at;
                },
                _ => {},
            }
            self.state = handle_command(self.state, &cmd);
        }
        let time_since_activity = now - self.last_activity;
        if self.state.menu_open && time_since_activity > MENU_INACTIVITY_SECS * ticks_per_sec {
            self.state.menu_open = false;
            self.state.menu_depth = MenuDepth::Main;
            self.state.selected_item = 0;
        }
    }
}

impl OledState {
    /// The state after a run of commands.
    pub open spec fn after_all(self, cmds: Seq<Command>) -> OledState
        decreases cmds.len(),
    {
        if cmds.len() == 0 {
            self
        } else {
            self.after_all(cmds.drop_last()).after(cmds.last())
        }
    }

    /// A closed menu is at the first item of the main level.
    pub open spec fn at_rest_when_closed(self) -> bool {
        self.menu_open || (self.menu_depth is Main && self.selected_item == 0)
    }
}

/// No command moves the cursor off the menu.
pub proof fn lemma_cursor_stays_on_menu(state: OledState, cmd: Command)
    requires
        state.well_formed(),
    ensures
        state.after(cmd).well_formed(),
{
}

/// Whatever commands come after boot, the cursor stands on an item of the menu,
/// where the next command can be handled, and a closed menu is at the first item
/// of the main level.
pub proof fn lemma_runs_keep_state_valid(cmds: Seq<Command>)
    ensures
        OledState::initial().after_all(cmds).well_formed(),
        OledState::initial().after_all(cmds).selected_item < u8::MAX,
        OledState::initial().after_all(cmds).at_rest_when_closed(),
    decreases cmds.len(),
{
    if cmds.len() > 0 {
        lemma_runs_keep_state_valid(cmds.drop_last());
        lemma_cursor_stays_on_menu(
            OledState::initial().after_all(cmds.drop_last()),
            cmds.last(),
        );
    }
}

/// As many clicks, one after the other.
pub open spec fn clicks(count: nat) -> Seq<Command> {
    Seq::new(count, |i: int| Command::MenuNextItem)
}

/// Clicks move the cursor of an open menu down one item each, from the last to the
/// first, and change nothing else.
pub proof fn lemma_clicks_move_cursor(state: OledState, count: nat)
    requires
        state.menu_open,
        state.well_formed(),
    ensures
        state.after_all(clicks(count)) == (OledState {
            selected_item: ((state.selected_item + count) % (items_at(
                state.menu_depth,
            ) as int)) as u8,
            ..state
        }),
    decreases count,
{
    if count > 0 {
        let fewer = (count - 1) as nat;
        lemma_clicks_move_cursor(state, fewer);
        assert(clicks(count).drop_last() =~= clicks(fewer));
        assert(clicks(count).last() == Command::MenuNextItem);
        let items = items_at(state.menu_depth) as int;
        vstd::arithmetic::div_mod::lemma_add_mod_noop(state.selected_item + fewer, 1, items);
        vstd::arithmetic::div_mod::lemma_small_mod(1, items as nat);
    } else {
        vstd::arithmetic::div_mod::lemma_small_mod(
            state.selected_item as nat,
            items_at(state.menu_depth) as nat,
        );
    }
}

/// As many clicks as there are items bring the cursor back where it was.
pub proof fn lemma_clicks_cycle(state: OledState)
    requires
        state.menu_open,
        state.well_formed(),
    ensures
        state.after_all(clicks(items_at(state.menu_depth) as nat)) == state,
{
    lemma_clicks_move_cursor(state, items_at(state.menu_depth) as nat);
}

/// A click does nothing while the menu is closed.
pub proof fn lemma_click_needs_menu(state: OledState)
    requires
        !state.menu_open,
    ensures
        state.after(Command::MenuNextItem) == state,
{
}

/// A face command sets the mood and nothing else while the menu is closed, and does
/// nothing while it is open.
pub proof fn lemma_face_command(state: OledState, mood: FaceMood)
    ensures
        state.menu_open ==> state.after(Command::SetFaceExpression(mood)) == state,
        !state.menu_open ==> state.after(Command::SetFaceExpression(mood)) == (OledState {
            face_mood: mood,
            ..state
        }),
{
}

/// From the web to the display: a face command that a client posts is accepted,
/// goes over the bus unchanged, and sets the mood of a display whose menu is closed.
pub proof fn lemma_posted_face_is_shown(
    request: crate::tasks::http::RequestView,
    mood: FaceMood,
    state: OledState,
)
    requires
        crate::tasks::http::posts_command(request.method, request.path),
        crate::tasks::http::body_command(request.body) == Some(Command::SetFaceExpression(mood)),
        !state.menu_open,
    ensures
        crate::tasks::http::accepted_command(crate::tasks::http::request_route(request)) matches Some(
            command,
        ) && {
            let waiting = crate::ipc::after_send(Seq::empty(), command);
            &&& waiting.len() == 1
            &&& state.after(waiting[0]) == (OledState { face_mood: mood, ..state })
        },
{
    crate::tasks::http::lemma_accepted_command_is_posted(request);
}

/// Servo and streaming commands leave the display as it is.
pub proof fn lemma_other_commands_keep_display(state: OledState, cmd: Command)
    requires
        cmd is MoveServo || cmd is StreamVideo || cmd is StreamAudio,
    ensures
        state.after(cmd) == state,
{
}

/// A long press in a sub-menu leads back to the first item of the main level, with
/// the menu still open.
pub proof fn lemma_submenus_return(state: OledState)
    requires
        state.menu_open,
        !(state.menu_depth is Main),
    ensures
        state.after(Command::MenuSelect).menu_open,
        state.after(Command::MenuSelect).menu_depth is Main,
        state.after(Command::MenuSelect).selected_item == 0,
{
}

/// The menu closes on a long press at the last item of the main level, and on no
/// other command.
pub proof fn lemma_only_exit_closes(state: OledState, cmd: Command)
    requires
        state.menu_open,
        state.well_formed(),
    ensures
        !state.after(cmd).menu_open <==> cmd is MenuSelect && state.menu_depth is Main
            && state.selected_item == items_at(MenuDepth::Main) - 1,
{
}

/// The mood changes only by a face command while the menu is closed, and by the
/// first two items of the mood level.
pub proof fn lemma_mood_changes(state: OledState, cmd: Command)
    requires
        state.after(cmd).face_mood != state.face_mood,
    ensures
        (!state.menu_open && cmd == Command::SetFaceExpression(state.after(cmd).face_mood)) || (
        state.menu_open && cmd is MenuSelect && state.menu_depth is Mood && state.selected_item
            <= 1),
{
}

/// A frame keeps the cursor on the menu, and leaves the menu open only if a button
/// command came within the last [`MENU_INACTIVITY_SECS`] seconds.
pub proof fn lemma_frame_keeps_task_valid(
    task: OledTask,
    received: Option<Command>,
    received_at: u64,
    now: u64,
    ticks_per_sec: u64,
)
    requires
        task.state.well_formed(),
    ensures
        ({
            let next = task.after_receiving(received, received_at).after_check(now, ticks_per_sec);
            &&& next.state.well_formed()
            &&& next.state.menu_open ==> now - next.last_activity <= MENU_INACTIVITY_SECS
                * ticks_per_sec
        }),
{
}

/// A menu that nobody touched for too long closes, and the face stays.
pub proof fn lemma_idle_menu_closes(task: OledTask, now: u64, ticks_per_sec: u64)
    requires
        now - task.last_activity > MENU_INACTIVITY_SECS * ticks_per_sec,
        task.state.at_rest_when_closed(),
    ensures
        task.after_receiving(None, now).after_check(now, ticks_per_sec).state
            == task.state.menu_closed(),
{
}

/// A button command keeps the menu from closing for [`MENU_INACTIVITY_SECS`]
/// seconds: the frame then does what the command does, and no more.
pub proof fn lemma_button_defers_closing(
    task: OledTask,
    cmd: Command,
    received_at: u64,
    now: u64,
    ticks_per_sec: u64,
)
    requires
        is_button_command(cmd),
        now - received_at <= MENU_INACTIVITY_SECS * ticks_per_sec,
    ensures
        task.after_receiving(Some(cmd), received_at).after_check(now, ticks_per_sec) == (OledTask {
            state: task.state.after(cmd),
            last_activity: received_at,
        }),
{
}

/// One frame of the display: what the bus had and when, and when the check for
/// inactivity was made.
pub struct FrameInput {
    pub received: Option<Command>,
    pub received_at: u64,
    pub now: u64,
}

impl OledTask {
    /// The task after a run of frames.
    pub open spec fn after_frames(self, frames: Seq<FrameInput>, ticks_per_sec: u64) -> OledTask
        decreases frames.len(),
    {
        if frames.len() == 0 {
            self
        } else {
            let last = frames.last();
            self.after_frames(frames.drop_last(), ticks_per_sec).after_receiving(
                last.received,
                last.received_at,
            ).after_check(last.now, ticks_per_sec)
        }
    }

    /// All of the task but the mood of the face.
    pub open spec fn same_menu(self, other: OledTask) -> bool {
        &&& self.state.menu_open == other.state.menu_open
        &&& self.state.menu_depth == other.state.menu_depth
        &&& self.state.selected_item == other.state.selected_item
        &&& self.last_activity == other.last_activity
    }
}

/// Whatever frames come after boot, the cursor stands on an item of the menu, where
/// the next frame can be handled, a closed menu is at the first item of the main
/// level, and an open one was touched in time for the last frame.
pub proof fn lemma_frames_keep_task_valid(
    start: u64,
    frames: Seq<FrameInput>,
    ticks_per_sec: u64,
)
    ensures
        ({
            let task = (OledTask {
                state: OledState::initial(),
                last_activity: start,
            }).after_frames(frames, ticks_per_sec);
            &&& task.state.well_formed()
            &&& task.state.selected_item < u8::MAX
            &&& task.state.at_rest_when_closed()
            &&& task.state.menu_open && frames.len() > 0 ==> frames.last().now - task.last_activity
                <= MENU_INACTIVITY_SECS * ticks_per_sec
        }),
    decreases frames.len(),
{
    if frames.len() > 0 {
        lemma_frames_keep_task_valid(start, frames.drop_last(), ticks_per_sec);
    }
}

/// The frames without the commands that do not come from the button.
pub open spec fn button_only(frames: Seq<FrameInput>) -> Seq<FrameInput> {
    frames.map_values(
        |frame: FrameInput|
            FrameInput {
                received: match frame.received {
                    Some(cmd) => if is_button_command(cmd) {
                        Some(cmd)
                    } else {
                        None
                    },
                    None => None,
                },
                ..frame
            },
    )
}

/// Commands that do not come from the button neither move the menu nor put off its
/// closing: over any run of frames, the menu does what it would do without them.
pub proof fn lemma_other_commands_do_not_defer(
    task: OledTask,
    frames: Seq<FrameInput>,
    ticks_per_sec: u64,
)
    ensures
        task.after_frames(frames, ticks_per_sec).same_menu(
            task.after_frames(button_only(frames), ticks_per_sec),
        ),
    decreases frames.len(),
{
    if frames.len() > 0 {
        lemma_other_commands_do_not_defer(task, frames.drop_last(), ticks_per_sec);
        assert(button_only(frames).drop_last() =~= button_only(frames.drop_last()));
    }
}

/// Over a run of frames without a button command, whatever else comes, an open menu
/// stays open exactly as long as no frame finds it overdue, and a closed one stays
/// closed.
pub proof fn lemma_menu_stays_open_in_time(
    task: OledTask,
    frames: Seq<FrameInput>,
    ticks_per_sec: u64,
)
    requires
        forall|i: int|
            0 <= i < frames.len() ==> ((#[trigger] frames[i]).received matches Some(cmd)
                ==> !is_button_command(cmd)),
    ensures
        task.after_frames(frames, ticks_per_sec).last_activity == task.last_activity,
        task.after_frames(frames, ticks_per_sec).state.menu_open <==> task.state.menu_open && forall|
            i: int,
        |
            0 <= i < frames.len() ==> (#[trigger] frames[i]).now - task.last_activity
                <= MENU_INACTIVITY_SECS * ticks_per_sec,
    decreases frames.len(),
{
    if frames.len() > 0 {
        let before = frames.drop_last();
        lemma_menu_stays_open_in_time(task, before, ticks_per_sec);
        assert(frames.last() == frames[frames.len() - 1]);
        assert(forall|i: int| 0 <= i < before.len() ==> before[i] == #[trigger] frames[i]);
        let limit = MENU_INACTIVITY_SECS * ticks_per_sec;
        assert((forall|i: int|
            0 <= i < frames.len() ==> (#[trigger] frames[i]).now - task.last_activity <= limit)
            <==> (forall|i: int|
            0 <= i < before.len() ==> (#[trigger] before[i]).now - task.last_activity <= limit)
            && frames.last().now - task.last_activity <= limit);
    }
}

/// A frame without a command in which the menu is not overdue changes nothing.
pub proof fn lemma_quiet_frame(task: OledTask, received_at: u64, now: u64, ticks_per_sec: u64)
    requires
        !task.state.menu_open || now - task.last_activity <= MENU_INACTIVITY_SECS * ticks_per_sec,
    ensures
        task.after_receiving(None, received_at).after_check(now, ticks_per_sec) == task,
{
}

/// A long press on an item of the mood level sets the mood that the item names,
/// whatever face was shown before, and keeps the face on any other item.
pub proof fn lemma_mood_items_set_their_mood(state: OledState)
    requires
        state.menu_open,
        state.menu_depth is Mood,
    ensures
        ({
            let next = state.after(Command::MenuSelect);
            &&& state.selected_item == 0 ==> next.face_mood is Happy
            &&& state.selected_item == 1 ==> next.face_mood is Sleeping
            &&& state.selected_item > 1 ==> next.face_mood == state.face_mood
            &&& next.menu_open && next.menu_depth is Main && next.selected_item == 0
        }),
{
}

/// What a long press shows of the mood level does not depend on the face before it.
pub proof fn lemma_mood_items_ignore_the_face(state: OledState, mood: FaceMood)
    requires
        state.menu_open,
        state.menu_depth is Mood,
        state.selected_item <= 1,
    ensures
        state.after(Command::MenuSelect) == (OledState { face_mood: mood, ..state }).after(
            Command::MenuSelect,
        ),
{
}

/// A long press outside the mood level keeps the face.
pub proof fn lemma_select_keeps_the_face(state: OledState)
    requires
        !state.menu_open || !(state.menu_depth is Mood),
    ensures
        state.after(Command::MenuSelect).face_mood == state.face_mood,
{
}

/// A long press opens a closed menu at the first item of the main level.
pub proof fn lemma_select_opens(state: OledState)
    requires
        !state.menu_open,
    ensures
        state.after(Command::MenuSelect).menu_open,
        state.after(Command::MenuSelect).menu_depth is Main,
        state.after(Command::MenuSelect).selected_item == 0,
        state.after(Command::MenuSelect).face_mood == state.face_mood,
{
}

/// A long press on an item of the main level: the first does nothing, the second and
/// third lead to the first item of the mood and settings levels, and any other
/// closes the menu.
pub proof fn lemma_main_items_lead_on(state: OledState)
    requires
        state.menu_open,
        state.menu_depth is Main,
    ensures
        ({
            let next = state.after(Command::MenuSelect);
            &&& state.selected_item == 0 ==> next == state
            &&& state.selected_item == 1 ==> next.menu_open && next.menu_depth is Mood
            &&& state.selected_item == 2 ==> next.menu_open && next.menu_depth is Settings
            &&& state.selected_item >= 3 ==> !next.menu_open && next.menu_depth is Main
            &&& state.selected_item > 0 ==> next.selected_item == 0
            &&& next.face_mood == state.face_mood
        }),
{
}

/// A click in an open menu goes to the item below, from the last item to the first,
/// and stays at that level with that face. There are four items at the main level and
/// three at the others. A cursor beyond the items comes back among them.
pub proof fn lemma_click_goes_to_the_item_below(state: OledState)
    requires
        state.menu_open,
        state.selected_item < u8::MAX,
    ensures
        ({
            let next = state.after(Command::MenuNextItem);
            let count: int = if state.menu_depth is Main { 4 } else { 3 };
            &&& state.selected_item < count - 1 ==> next.selected_item == state.selected_item + 1
            &&& state.selected_item == count - 1 ==> next.selected_item == 0
            &&& next.selected_item < count
            &&& (state.selected_item + 1 - next.selected_item) % count == 0
            &&& next.menu_open
            &&& next.menu_depth == state.menu_depth
            &&& next.face_mood == state.face_mood
        }),
{
}

/// A face command shows the face that it names, whatever face was shown before, so
/// that of two in a row the second one stands.
pub proof fn lemma_latest_face_stands(state: OledState, first: FaceMood, second: FaceMood)
    requires
        !state.menu_open,
    ensures
        state.after(Command::SetFaceExpression(first)).face_mood == first,
        state.after(Command::SetFaceExpression(first)).after(
            Command::SetFaceExpression(second),
        ).face_mood == second,
        state.after(Command::SetFaceExpression(first)).after(Command::SetFaceExpression(second))
            == state.after(Command::SetFaceExpression(second)),
{
}

/// At boot the face is neutral and the menu closed.
pub proof fn lemma_display_at_boot()
    ensures
        OledState::initial().face_mood is Neutral,
        !OledState::initial().menu_open,
        OledState::initial().menu_depth is Main,
        OledState::initial().selected_item == 0,
{
}

/// A frame handles every command that it receives, from whatever state, as the
/// command alone would be handled, unless the menu is then open and overdue: then
/// the menu closes and the face stays. Button commands alone count as activity.
pub proof fn lemma_frame_handles_its_command(
    task: OledTask,
    cmd: Command,
    received_at: u64,
    now: u64,
    ticks_per_sec: u64,
)
    ensures
        ({
            let next = task.after_receiving(Some(cmd), received_at).after_check(now, ticks_per_sec);
            let handled = task.state.after(cmd);
            let active_at = if cmd is MenuNextItem || cmd is MenuSelect {
                received_at
            } else {
                task.last_activity
            };
            let overdue = now - active_at > 10 * ticks_per_sec;
            &&& next.last_activity == active_at
            &&& next.state.face_mood == handled.face_mood
            &&& !(handled.menu_open && overdue) ==> next.state == handled
            &&& handled.menu_open && overdue ==> !next.state.menu_open
                && next.state.menu_depth is Main && next.state.selected_item == 0
        }),
{
}

/// A frame that receives a face command while the menu is closed shows that face,
/// whatever face was shown before, and changes nothing else.
pub proof fn lemma_frame_shows_the_face(
    task: OledTask,
    mood: FaceMood,
    received_at: u64,
    now: u64,
    ticks_per_sec: u64,
)
    requires
        !task.state.menu_open,
    ensures
        ({
            let next = task.after_receiving(
                Some(Command::SetFaceExpression(mood)),
                received_at,
            ).after_check(now, ticks_per_sec);
            &&& next.state.face_mood == mood
            &&& !next.state.menu_open
            &&& next.state.menu_depth == task.state.menu_depth
            &&& next.state.selected_item == task.state.selected_item
            &&& next.last_activity == task.last_activity
        }),
{
}

/// Over a run of frames that starts with a closed menu and has no button command in
/// it, the face shown is that of the last face command.
pub proof fn lemma_frames_show_the_latest_face(
    task: OledTask,
    frames: Seq<FrameInput>,
    k: int,
    mood: FaceMood,
    ticks_per_sec: u64,
)
    requires
        !task.state.menu_open,
        forall|i: int|
            0 <= i < frames.len() ==> ((#[trigger] frames[i]).received matches Some(cmd) ==> !(
            cmd is MenuNextItem) && !(cmd is MenuSelect)),
        0 <= k < frames.len(),
        frames[k].received == Some(Command::SetFaceExpression(mood)),
        forall|i: int|
            k < i < frames.len() ==> ((#[trigger] frames[i]).received matches Some(cmd) ==> !(
            cmd is SetFaceExpression)),
    ensures
        task.after_frames(frames, ticks_per_sec).state.face_mood == mood,
    decreases frames.len(),
{
    let before = frames.drop_last();
    lemma_menu_stays_open_in_time(task, before, ticks_per_sec);
    assert(frames.last() == frames[frames.len() - 1]);
    if k < frames.len() - 1 {
        lemma_frames_show_the_latest_face(task, before, k, mood, ticks_per_sec);
    }
}

} // verus!
