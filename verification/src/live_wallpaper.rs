//! The in-app live wallpaper preview: which video the embedded player
//! shows, and the commands sent to that player.
//!
//! The controller decides; the caller drives the player. Each operation
//! returns a [`ControlStep`]: either a command for the player, whose
//! outcome the caller hands back through [`LiveWallpaperController::resume`],
//! or the operation's result.
use vstd::prelude::*;
use crate::models::AppState;
use crate::scanner::scan_live;

verus! {

/// Replaces the live wallpapers of `state` with the video files among
/// `files` (the regular files found under `root`, in the order found).
pub fn scan_and_load_live(root: &str, files: &Vec<String>, state: &mut AppState)
    ensures
        final(state)@.live_wallpapers == crate::scanner::found_items(
            root@,
            crate::text::string_views(files@),
            crate::scanner::video_extensions(),
        ),
        final(state)@.live_categories == crate::scanner::found_categories(
            root@,
            crate::text::string_views(files@),
            crate::scanner::video_extensions(),
        ),
        final(state)@.static_wallpapers == old(state)@.static_wallpapers,
        final(state)@.categories == old(state)@.categories,
        final(state)@.active_category == old(state)@.active_category,
        final(state)@.active_live_category == old(state)@.active_live_category,
{
    scan_live(root, files, state);
}

/// A command for the embedded player.
pub enum PlayerCommand {
    /// Load the video at this path, looping, muted, video on, audio off.
    LoadFile(String),
    /// Unpause.
    Play,
    /// Pause.
    Pause,
    /// Stop playback.
    Stop,
    /// Mute or unmute.
    SetMute(bool),
}

/// Why a controller operation failed.
pub enum ControllerError {
    /// The player reported this error.
    Player(String),
    /// There is no player.
    NotInitialized,
}

/// What the caller does next.
pub enum ControlStep {
    /// Send this command to the player and hand its outcome to `resume`.
    Issue(PlayerCommand),
    /// The operation is over, with this result.
    Done(Result<(), ControllerError>),
}

/// An abstract player command.
pub enum CommandView {
    LoadFile(Seq<char>),
    Play,
    Pause,
    Stop,
    SetMute(bool),
}

/// An abstract controller error.
pub enum ErrorView {
    Player(Seq<char>),
    NotInitialized,
}

/// An abstract step.
pub enum StepView {
    Issue(CommandView),
    Done(Result<(), ErrorView>),
}

impl View for PlayerCommand {
    type V = CommandView;

    open spec fn view(&self) -> CommandView {
        match self {
            PlayerCommand::LoadFile(p) => CommandView::LoadFile(p@),
            PlayerCommand::Play => CommandView::Play,
            PlayerCommand::Pause => CommandView::Pause,
            PlayerCommand::Stop => CommandView::Stop,
            PlayerCommand::SetMute(m) => CommandView::SetMute(*m),
        }
    }
}

impl View for ControllerError {
    type V = ErrorView;

    open spec fn view(&self) -> ErrorView {
        match self {
            ControllerError::Player(e) => ErrorView::Player(e@),
            ControllerError::NotInitialized => ErrorView::NotInitialized,
        }
    }
}

impl View for ControlStep {
    type V = StepView;

    open spec fn view(&self) -> StepView {
        match self {
            ControlStep::Issue(c) => StepView::Issue(c@),
            ControlStep::Done(Ok(())) => StepView::Done(Ok(())),
            ControlStep::Done(Err(e)) => StepView::Done(Err(e@)),
        }
    }
}

/// The operation in progress, waiting for the outcome of a command.
pub enum Pending {
    /// Nothing is in progress.
    Idle,
    /// `play`: the video at this path is being loaded.
    Loading(Seq<char>),
    /// `play`: the video at this path was loaded and is being started.
    Starting(Seq<char>),
    /// `stop`: playback is being stopped.
    Stopping,
    /// `pause`: playback is being paused.
    Pausing,
    /// `set_mute`: the volume is being muted or unmuted.
    Muting,
}

/// The abstract controller.
pub struct ControllerView {
    /// Whether there is a player.
    pub has_player: bool,
    /// The video last started, if any.
    pub current_path: Option<Seq<char>>,
    /// The operation in progress.
    pub pending: Pending,
}

/// Starting `play(path)`: with a player, load the video; without one,
/// nothing happens and the operation succeeds.
pub open spec fn start_play(c: ControllerView, path: Seq<char>) -> (ControllerView, StepView) {
    if c.has_player {
        (
            ControllerView { has_player: c.has_player, current_path: c.current_path, pending: Pending::Loading(path) },
            StepView::Issue(CommandView::LoadFile(path)),
        )
    } else {
        (c, StepView::Done(Ok(())))
    }
}

/// Starting `stop()`: with a player, stop it; without one, forget the
/// current video and succeed.
pub open spec fn start_stop(c: ControllerView) -> (ControllerView, StepView) {
    if c.has_player {
        (
            ControllerView { has_player: c.has_player, current_path: c.current_path, pending: Pending::Stopping },
            StepView::Issue(CommandView::Stop),
        )
    } else {
        (
            ControllerView { has_player: c.has_player, current_path: None, pending: c.pending },
            StepView::Done(Ok(())),
        )
    }
}

/// Starting `pause()`: with a player, pause it; without one, succeed.
pub open spec fn start_pause(c: ControllerView) -> (ControllerView, StepView) {
    if c.has_player {
        (
            ControllerView { has_player: c.has_player, current_path: c.current_path, pending: Pending::Pausing },
            StepView::Issue(CommandView::Pause),
        )
    } else {
        (c, StepView::Done(Ok(())))
    }
}

/// Starting `set_mute(mute)`: with a player, pass it on; without one,
/// fail with `NotInitialized`.
pub open spec fn start_set_mute(c: ControllerView, mute: bool) -> (ControllerView, StepView) {
    if c.has_player {
        (
            ControllerView { has_player: c.has_player, current_path: c.current_path, pending: Pending::Muting },
            StepView::Issue(CommandView::SetMute(mute)),
        )
    } else {
        (c, StepView::Done(Err(ErrorView::NotInitialized)))
    }
}

/// The controller once the operation in progress is over.
pub open spec fn idle_with(c: ControllerView, current_path: Option<Seq<char>>) -> ControllerView {
    ControllerView { has_player: c.has_player, current_path, pending: Pending::Idle }
}

/// Going on after the player reported `outcome` for the last command:
/// a failure ends the operation with that error and leaves the current
/// video as it was; a loaded video is started; a started video becomes
/// the current one; a stop forgets the current video.
pub open spec fn after_outcome(c: ControllerView, outcome: Result<(), Seq<char>>) -> (ControllerView, StepView) {
    match outcome {
        Err(e) => (idle_with(c, c.current_path), StepView::Done(Err(ErrorView::Player(e)))),
        Ok(()) => match c.pending {
            Pending::Loading(p) => (
                ControllerView { has_player: c.has_player, current_path: c.current_path, pending: Pending::Starting(p) },
                StepView::Issue(CommandView::Play),
            ),
            Pending::Starting(p) => (idle_with(c, Some(p)), StepView::Done(Ok(()))),
            Pending::Stopping => (idle_with(c, None), StepView::Done(Ok(()))),
            _ => (idle_with(c, c.current_path), StepView::Done(Ok(()))),
        },
    }
}

/// The embedded preview player's controller.
pub struct LiveWallpaperController {
    has_player: bool,
    current_path: Option<String>,
    pending: PendingOp,
}

/// The operation in progress.
enum PendingOp {
    Idle,
    Loading(String),
    Starting(String),
    Stopping,
    Pausing,
    Muting,
}

impl View for LiveWallpaperController {
    type V = ControllerView;

    closed spec fn view(&self) -> ControllerView {
        ControllerView {
            has_player: self.has_player,
            current_path: match self.current_path {
                Some(p) => Some(p@),
                None => None,
            },
            pending: match self.pending {
                PendingOp::Idle => Pending::Idle,
                PendingOp::Loading(p) => Pending::Loading(p@),
                PendingOp::Starting(p) => Pending::Starting(p@),
                PendingOp::Stopping => Pending::Stopping,
                PendingOp::Pausing => Pending::Pausing,
                PendingOp::Muting => Pending::Muting,
            },
        }
    }
}

/// The abstract outcome of a player command.
pub open spec fn outcome_view(o: Result<(), String>) -> Result<(), Seq<char>> {
    match o {
        Ok(()) => Ok(()),
        Err(e) => Err(e@),
    }
}

impl LiveWallpaperController {
    /// A controller for a player whose creation had outcome `player`:
    /// with a player and no current video, or the player's error.
    pub fn new(player: Result<(), String>) -> (r: Result<Self, ControllerError>)
        ensures
            match player {
                Ok(()) => r matches Ok(c) && c@ == (ControllerView {
                    has_player: true,
                    current_path: None,
                    pending: Pending::Idle,
                }),
                Err(e) => r matches Err(err) && err@ == ErrorView::Player(e@),
            },
    {
        match player {
            Ok(()) => Ok(LiveWallpaperController { has_player: true, current_path: None, pending: PendingOp::Idle }),
            Err(e) => Err(ControllerError::Player(e)),
        }
    }

    /// Whether no operation is waiting for the player.
    pub fn is_idle(&self) -> (r: bool)
        ensures
            r == (self@.pending == Pending::Idle),
    {
        match self.pending {
            PendingOp::Idle => true,
            _ => false,
        }
    }

    /// Starts playing the video at `path`.
    pub fn play(&mut self, path: String) -> (r: ControlStep)
        requires
            old(self)@.pending == Pending::Idle,
        ensures
            (final(self)@, r@) == start_play(old(self)@, path@),
    {
        if self.has_player {
            let cmd = PlayerCommand::LoadFile(path.clone());
            self.pending = PendingOp::Loading(path);
            ControlStep::Issue(cmd)
        } else {
            ControlStep::Done(Ok(()))
        }
    }

    /// Starts stopping playback.
    pub fn stop(&mut self) -> (r: ControlStep)
        requires
            old(self)@.pending == Pending::Idle,
        ensures
            (final(self)@, r@) == start_stop(old(self)@),
    {
        if self.has_player {
            self.pending = PendingOp::Stopping;
            ControlStep::Issue(PlayerCommand::Stop)
        } else {
            self.current_path = None;
            ControlStep::Done(Ok(()))
        }
    }

    /// Starts pausing playback.
    pub fn pause(&mut self) -> (r: ControlStep)
        requires
            old(self)@.pending == Pending::Idle,
        ensures
            (final(self)@, r@) == start_pause(old(self)@),
    {
        if self.has_player {
            self.pending = PendingOp::Pausing;
            ControlStep::Issue(PlayerCommand::Pause)
        } else {
            ControlStep::Done(Ok(()))
        }
    }

    /// Starts muting or unmuting the player.
    pub fn set_mute(&mut self, mute: bool) -> (r: ControlStep)
        requires
            old(self)@.pending == Pending::Idle,
        ensures
            (final(self)@, r@) == start_set_mute(old(self)@, mute),
    {
        if self.has_player {
            self.pending = PendingOp::Muting;
            ControlStep::Issue(PlayerCommand::SetMute(mute))
        } else {
            ControlStep::Done(Err(ControllerError::NotInitialized))
        }
    }

    /// Goes on with the operation in progress, given the outcome of the
    /// last command sent to the player.
    pub fn resume(&mut self, outcome: Result<(), String>) -> (r: ControlStep)
        requires
            old(self)@.pending != Pending::Idle,
        ensures
            (final(self)@, r@) == after_outcome(old(self)@, outcome_view(outcome)),
    {
        let mut pending = PendingOp::Idle;
        std::mem::swap(&mut pending, &mut self.pending);
        match outcome {
            Err(e) => ControlStep::Done(Err(ControllerError::Player(e))),
            Ok(()) => match pending {
                PendingOp::Loading(p) => {
                    self.pending = PendingOp::Starting(p);
                    ControlStep::Issue(PlayerCommand::Play)
                },
                PendingOp::Starting(p) => {
                    self.current_path = Some(p);
                    ControlStep::Done(Ok(()))
                },
                PendingOp::Stopping => {
                    self.current_path = None;
                    ControlStep::Done(Ok(()))
                },
                _ => ControlStep::Done(Ok(())),
            },
        }
    }

    /// A frame of the preview, `width` by `height` pixels: frames are not
    /// rendered, so this fails, saying so when there is a player and
    /// failing with `NotInitialized` without one.
    pub fn render_frame(&self, width: u32, height: u32) -> (r: Result<(), ControllerError>)
        ensures
            self@.has_player ==> (r matches Err(ControllerError::Player(e)) && e@
                == "Preview not implemented in this version"@),
            !self@.has_player ==> (r matches Err(ControllerError::NotInitialized)),
    {
        if self.has_player {
            Err(ControllerError::Player(crate::text::to_owned_string("Preview not implemented in this version")))
        } else {
            Err(ControllerError::NotInitialized)
        }
    }

    /// The video last started, if any.
    pub fn current_path(&self) -> (r: Option<String>)
        ensures
            match r {
                Some(p) => self@.current_path == Some(p@),
                None => self@.current_path is None,
            },
    {
        match &self.current_path {
            Some(p) => Some(p.clone()),
            None => None,
        }
    }

    /// Whether a video was started and not stopped since.
    pub fn is_playing(&self) -> (r: bool)
        ensures
            r == self@.current_path is Some,
    {
        self.current_path.is_some()
    }
}

/// A successful `play(path)` makes `path` the current video: after the
/// player loads and starts it, the controller is idle again with `path`
/// current, and the operation reports success.
pub proof fn law_play_success_sets_current(c: ControllerView, path: Seq<char>)
    requires
        c.has_player,
        c.pending == Pending::Idle,
    ensures
        ({
            let (c1, s1) = start_play(c, path);
            let (c2, s2) = after_outcome(c1, Ok(()));
            let (c3, s3) = after_outcome(c2, Ok(()));
            &&& s1 == StepView::Issue(CommandView::LoadFile(path))
            &&& s2 == StepView::Issue(CommandView::Play)
            &&& s3 == StepView::Done(Ok(()))
            &&& c3.current_path == Some(path)
            &&& c3.pending == Pending::Idle
            &&& c3.has_player
        }),
{
}

/// A player failure during `play` ends it with that failure and leaves
/// the current video as it was.
pub proof fn law_failed_play_keeps_current(c: ControllerView, path: Seq<char>, e: Seq<char>, failed_at_load: bool)
    requires
        c.has_player,
        c.pending == Pending::Idle,
    ensures
        ({
            let (c1, s1) = start_play(c, path);
            let c2 = if failed_at_load { c1 } else { after_outcome(c1, Ok(())).0 };
            let (c3, s3) = after_outcome(c2, Err(e));
            &&& s3 == StepView::Done(Err(ErrorView::Player(e)))
            &&& c3.current_path == c.current_path
            &&& c3.pending == Pending::Idle
        }),
{
}

/// A successful `stop` leaves no current video, with or without a player.
pub proof fn law_stop_clears_current(c: ControllerView)
    requires
        c.pending == Pending::Idle,
    ensures
        ({
            let (c1, s1) = start_stop(c);
            if c.has_player {
                let (c2, s2) = after_outcome(c1, Ok(()));
                &&& s1 == StepView::Issue(CommandView::Stop)
                &&& s2 == StepView::Done(Ok(()))
                &&& c2.current_path is None
                &&& c2.pending == Pending::Idle
            } else {
                &&& s1 == StepView::Done(Ok(()))
                &&& c1.current_path is None
            }
        }),
{
}

/// Pausing and muting never change the current video, whatever the player
/// answers.
pub proof fn law_pause_and_mute_keep_current(c: ControllerView, mute: bool, outcome: Result<(), Seq<char>>)
    requires
        c.pending == Pending::Idle,
    ensures
        ({
            let (p1, ps) = start_pause(c);
            let p2 = if c.has_player { after_outcome(p1, outcome).0 } else { p1 };
            let (m1, ms) = start_set_mute(c, mute);
            let m2 = if c.has_player { after_outcome(m1, outcome).0 } else { m1 };
            &&& p2.current_path == c.current_path
            &&& m2.current_path == c.current_path
            &&& p2.pending == Pending::Idle
            &&& m2.pending == Pending::Idle
        }),
{
}

/// Without a player, `set_mute` fails with `NotInitialized`.
pub proof fn law_mute_without_player_fails(c: ControllerView, mute: bool)
    requires
        !c.has_player,
    ensures
        start_set_mute(c, mute).1 == StepView::Done(Err(ErrorView::NotInitialized)),
{
}

} // verus!
