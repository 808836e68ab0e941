//! The desktop live wallpaper: the state of the background `mpv` process,
//! pausing it while a full-screen window is in front, the command line it
//! is started with, and the choice of the window it draws into.
//!
//! Talking to Windows and starting or ending processes is left to the
//! caller; these functions decide what to do and keep the state.
use vstd::prelude::*;
use crate::text::{append_chars, chars_equal, chars_of, decimal, decimal_chars, lemma_not_starts_with, starts_with, string_from_chars, string_views, to_owned_string};

verus! {

/// The state of the desktop live wallpaper.
pub struct LiveWallpaperEngine {
    mpv_process_id: Option<u32>,
    wallpaper_active: bool,
    current_live_path: Option<String>,
    paused_for_fullscreen: bool,
}

/// The abstract state of the desktop live wallpaper.
pub struct EngineView {
    /// The process id of the running `mpv`, if one was started.
    pub mpv_process_id: Option<u32>,
    /// Whether a live wallpaper is on the desktop.
    pub wallpaper_active: bool,
    /// The video of the live wallpaper, kept while it is paused.
    pub current_live_path: Option<Seq<char>>,
    /// Whether the wallpaper was paused because of a full-screen window.
    pub paused_for_fullscreen: bool,
}

impl View for LiveWallpaperEngine {
    type V = EngineView;

    closed spec fn view(&self) -> EngineView {
        EngineView {
            mpv_process_id: self.mpv_process_id,
            wallpaper_active: self.wallpaper_active,
            current_live_path: match self.current_live_path {
                Some(p) => Some(p@),
                None => None,
            },
            paused_for_fullscreen: self.paused_for_fullscreen,
        }
    }
}

/// No live wallpaper, nothing running, nothing paused.
pub open spec fn engine_stopped() -> EngineView {
    EngineView {
        mpv_process_id: None,
        wallpaper_active: false,
        current_live_path: None,
        paused_for_fullscreen: false,
    }
}

/// The state once `mpv` was started with process id `pid` for the video
/// at `path`.
pub open spec fn engine_launched(pid: u32, path: Seq<char>) -> EngineView {
    EngineView {
        mpv_process_id: Some(pid),
        wallpaper_active: true,
        current_live_path: Some(path),
        paused_for_fullscreen: false,
    }
}

/// Pausing for a full-screen window: an active wallpaper loses its
/// process and stops being active; otherwise nothing changes.
pub open spec fn engine_paused(e: EngineView) -> EngineView {
    if e.wallpaper_active {
        EngineView { mpv_process_id: None, wallpaper_active: false, ..e }
    } else {
        e
    }
}

/// Whether the live wallpaper must be started again to resume: it is not
/// active and no process is running.
pub open spec fn needs_relaunch(e: EngineView) -> bool {
    !e.wallpaper_active && e.mpv_process_id is None
}

/// What the full-screen monitor does on one of its checks.
pub enum MonitorAction {
    /// Nothing.
    Nothing,
    /// The wallpaper was paused: end this `mpv` process, if any.
    EndProcess(Option<u32>),
    /// The full-screen window is gone: start the live wallpaper again
    /// with this video.
    Relaunch(String),
}

/// The abstract action of the full-screen monitor.
pub enum MonitorActionView {
    Nothing,
    EndProcess(Option<u32>),
    Relaunch(Seq<char>),
}

impl View for MonitorAction {
    type V = MonitorActionView;

    open spec fn view(&self) -> MonitorActionView {
        match self {
            MonitorAction::Nothing => MonitorActionView::Nothing,
            MonitorAction::EndProcess(p) => MonitorActionView::EndProcess(*p),
            MonitorAction::Relaunch(p) => MonitorActionView::Relaunch(p@),
        }
    }
}

/// One check of the full-screen monitor, given whether pausing is enabled
/// and whether a full-screen window is in front:
/// - pausing disabled: nothing;
/// - full screen, wallpaper active and not yet paused: mark it paused and
///   pause it, ending its process;
/// - no full screen after a pause: clear the mark and, when the video is
///   known and nothing runs, start it again;
/// - otherwise nothing.
pub open spec fn monitor_step(e: EngineView, pause_enabled: bool, fullscreen: bool) -> (EngineView, MonitorActionView) {
    if !pause_enabled {
        (e, MonitorActionView::Nothing)
    } else if fullscreen {
        if e.wallpaper_active && !e.paused_for_fullscreen {
            let marked = EngineView { paused_for_fullscreen: true, ..e };
            (engine_paused(marked), MonitorActionView::EndProcess(e.mpv_process_id))
        } else {
            (e, MonitorActionView::Nothing)
        }
    } else if e.paused_for_fullscreen {
        let cleared = EngineView { paused_for_fullscreen: false, ..e };
        match e.current_live_path {
            Some(p) => if needs_relaunch(cleared) {
                (cleared, MonitorActionView::Relaunch(p))
            } else {
                (cleared, MonitorActionView::Nothing)
            },
            None => (cleared, MonitorActionView::Nothing),
        }
    } else {
        (e, MonitorActionView::Nothing)
    }
}

impl LiveWallpaperEngine {
    /// No live wallpaper.
    pub fn new() -> (r: Self)
        ensures
            r@ == engine_stopped(),
    {
        LiveWallpaperEngine {
            mpv_process_id: None,
            wallpaper_active: false,
            current_live_path: None,
            paused_for_fullscreen: false,
        }
    }

    /// Stops the live wallpaper: forgets everything, and returns the
    /// process to end, if one was started.
    pub fn stop_live_wallpaper(&mut self) -> (r: Option<u32>)
        ensures
            r == old(self)@.mpv_process_id,
            final(self)@ == engine_stopped(),
    {
        let pid = self.mpv_process_id;
        self.mpv_process_id = None;
        self.current_live_path = None;
        self.wallpaper_active = false;
        self.paused_for_fullscreen = false;
        pid
    }

    /// Records that `mpv` was started with process id `pid` for the video
    /// at `path`.
    pub fn record_launch(&mut self, pid: u32, path: String)
        ensures
            final(self)@ == engine_launched(pid, path@),
    {
        self.mpv_process_id = Some(pid);
        self.current_live_path = Some(path);
        self.wallpaper_active = true;
        self.paused_for_fullscreen = false;
    }

    /// Pauses an active wallpaper: returns its process to end (if any) and
    /// marks it inactive; does nothing to an inactive one.
    pub fn pause_for_fullscreen(&mut self) -> (r: Option<u32>)
        ensures
            final(self)@ == engine_paused(old(self)@),
            r == (if old(self)@.wallpaper_active { old(self)@.mpv_process_id } else { None }),
    {
        if self.wallpaper_active {
            let pid = self.mpv_process_id;
            self.mpv_process_id = None;
            self.wallpaper_active = false;
            pid
        } else {
            None
        }
    }

    /// Whether resuming must start the live wallpaper again: it is not
    /// active and no process runs.
    pub fn resume_after_fullscreen(&self) -> (r: bool)
        ensures
            r == needs_relaunch(self@),
    {
        !self.wallpaper_active && self.mpv_process_id.is_none()
    }

    /// Whether a live wallpaper is on the desktop.
    pub fn is_live_wallpaper_active(&self) -> (r: bool)
        ensures
            r == self@.wallpaper_active,
    {
        self.wallpaper_active
    }

    /// The video of the live wallpaper, if known.
    pub fn current_live_path(&self) -> (r: Option<String>)
        ensures
            match r {
                Some(p) => self@.current_live_path == Some(p@),
                None => self@.current_live_path is None,
            },
    {
        match &self.current_live_path {
            Some(p) => Some(p.clone()),
            None => None,
        }
    }

    /// One check of the full-screen monitor.
    pub fn monitor_check(&mut self, pause_enabled: bool, fullscreen: bool) -> (r: MonitorAction)
        ensures
            (final(self)@, r@) == monitor_step(old(self)@, pause_enabled, fullscreen),
    {
        if !pause_enabled {
            MonitorAction::Nothing
        } else if fullscreen {
            if self.wallpaper_active && !self.paused_for_fullscreen {
                self.paused_for_fullscreen = true;
                let pid = self.pause_for_fullscreen();
                MonitorAction::EndProcess(pid)
            } else {
                MonitorAction::Nothing
            }
        } else if self.paused_for_fullscreen {
            self.paused_for_fullscreen = false;
            match self.current_live_path() {
                Some(p) => if self.resume_after_fullscreen() {
                    MonitorAction::Relaunch(p)
                } else {
                    MonitorAction::Nothing
                },
                None => MonitorAction::Nothing,
            }
        } else {
            MonitorAction::Nothing
        }
    }
}

/// A full-screen window pauses an active wallpaper once, and its going
/// away starts the same video again.
pub proof fn law_pause_then_resume(pid: u32, path: Seq<char>)
    ensures
        ({
            let e0 = engine_launched(pid, path);
            let (e1, a1) = monitor_step(e0, true, true);
            let (e2, a2) = monitor_step(e1, true, true);
            let (e3, a3) = monitor_step(e2, true, false);
            &&& a1 == MonitorActionView::EndProcess(Some(pid))
            &&& !e1.wallpaper_active
            &&& e1.mpv_process_id is None
            &&& e1.paused_for_fullscreen
            &&& a2 == MonitorActionView::Nothing
            &&& e2 == e1
            &&& a3 == MonitorActionView::Relaunch(path)
            &&& !e3.paused_for_fullscreen
        }),
{
}

/// With pausing disabled the monitor never acts.
pub proof fn law_monitor_disabled_does_nothing(e: EngineView, fullscreen: bool)
    ensures
        monitor_step(e, false, fullscreen) == (e, MonitorActionView::Nothing),
{
}

/// Stopping forgets the video, so a later check never starts it again.
pub proof fn law_stop_prevents_relaunch(fullscreen: bool)
    ensures
        monitor_step(engine_stopped(), true, fullscreen).1 == MonitorActionView::Nothing,
{
}

// ---------------------------------------------------------------------------
// Is the window in front full screen?
// ---------------------------------------------------------------------------

/// What was read of the window in front.
pub struct ForegroundWindow {
    /// Whether there is a window in front.
    pub present: bool,
    /// Whether it is visible.
    pub visible: bool,
    /// Whether it is minimised.
    pub minimized: bool,
    /// The id of the process that owns it (0 when unknown).
    pub process_id: u32,
    /// Its window class name (empty when unknown).
    pub class_name: String,
    /// Its rectangle, when it could be read: left, top, right, bottom.
    pub rect: Option<(i32, i32, i32, i32)>,
    /// Its window style bits.
    pub style: u32,
}

/// The window classes of the shell itself, which never count as full
/// screen.
pub open spec fn shell_classes() -> Seq<Seq<char>> {
    seq![
        "Progman"@, "WorkerW"@, "Shell_TrayWnd"@, "Shell_SecondaryTrayWnd"@,
        "Windows.UI.Core.CoreWindow"@, "ApplicationFrameWindow"@, "DV2ControlHost"@,
        "TaskListThumbnailWnd"@, "TopLevelWindowForOverflowXamlIsland"@,
    ]
}

/// The style bits of a window with a title bar (`WS_CAPTION`).
pub open spec fn ws_caption() -> u32 {
    0x00C0_0000
}

/// Whether the window in front is full screen: it exists, is visible and
/// not minimised, belongs to another (known) process than `own_pid`, is not
/// part of the shell, its rectangle could be read, it has no title bar, and
/// it covers the whole `screen_w` by `screen_h` screen.
pub open spec fn is_fullscreen_spec(w: ForegroundWindow, own_pid: u32, screen_w: i32, screen_h: i32) -> bool {
    &&& w.present
    &&& w.visible
    &&& !w.minimized
    &&& w.process_id != own_pid
    &&& w.process_id != 0
    &&& !shell_classes().contains(w.class_name@)
    &&& w.rect is Some
    &&& (w.style & ws_caption()) != ws_caption()
    &&& w.rect.unwrap().0 <= 0
    &&& w.rect.unwrap().1 <= 0
    &&& w.rect.unwrap().2 >= screen_w
    &&& w.rect.unwrap().3 >= screen_h
}

/// The shell's own windows are never full screen: a window in front whose
/// class is the desktop (`Progman`, `WorkerW`), a taskbar, the start menu
/// or another shell surface does not pause the live wallpaper, whatever
/// its rectangle, style and process.
pub proof fn law_shell_windows_are_never_fullscreen(w: ForegroundWindow, own_pid: u32, screen_w: i32, screen_h: i32)
    requires
        w.class_name@ == "Progman"@
            || w.class_name@ == "WorkerW"@
            || w.class_name@ == "Shell_TrayWnd"@
            || w.class_name@ == "Shell_SecondaryTrayWnd"@
            || w.class_name@ == "Windows.UI.Core.CoreWindow"@
            || w.class_name@ == "ApplicationFrameWindow"@
            || w.class_name@ == "DV2ControlHost"@
            || w.class_name@ == "TaskListThumbnailWnd"@
            || w.class_name@ == "TopLevelWindowForOverflowXamlIsland"@,
    ensures
        !is_fullscreen_spec(w, own_pid, screen_w, screen_h),
{
    let c = shell_classes();
    assert(c[0] == "Progman"@);
    assert(c[1] == "WorkerW"@);
    assert(c[2] == "Shell_TrayWnd"@);
    assert(c[3] == "Shell_SecondaryTrayWnd"@);
    assert(c[4] == "Windows.UI.Core.CoreWindow"@);
    assert(c[5] == "ApplicationFrameWindow"@);
    assert(c[6] == "DV2ControlHost"@);
    assert(c[7] == "TaskListThumbnailWnd"@);
    assert(c[8] == "TopLevelWindowForOverflowXamlIsland"@);
}

/// Whether `x` is one of the strings of `list`.
fn in_str_list(x: &Vec<char>, list: &Vec<&str>) -> (r: bool)
    ensures
        r == list@.map_values(|s: &str| s@).contains(x@),
{
    let ghost lv = list@.map_values(|s: &str| s@);
    let mut i: usize = 0;
    while i < list.len()
        invariant
            i <= list.len(),
            lv == list@.map_values(|s: &str| s@),
            forall|k: int| 0 <= k < i ==> lv[k] != x@,
        decreases list.len() - i,
    {
        let c = chars_of(list[i]);
        if chars_equal(&c, x) {
            assert(lv[i as int] == x@);
            return true;
        }
        i = i + 1;
    }
    false
}

/// Whether the window in front is full screen.
pub fn is_foreground_fullscreen(w: &ForegroundWindow, own_pid: u32, screen_w: i32, screen_h: i32) -> (r: bool)
    ensures
        r == is_fullscreen_spec(*w, own_pid, screen_w, screen_h),
{
    if !w.present || !w.visible || w.minimized {
        return false;
    }
    if w.process_id == own_pid || w.process_id == 0 {
        return false;
    }
    let list: Vec<&str> = vec![
        "Progman", "WorkerW", "Shell_TrayWnd", "Shell_SecondaryTrayWnd",
        "Windows.UI.Core.CoreWindow", "ApplicationFrameWindow", "DV2ControlHost",
        "TaskListThumbnailWnd", "TopLevelWindowForOverflowXamlIsland",
    ];
    assert(list@.map_values(|s: &str| s@) =~= shell_classes());
    let name = chars_of(w.class_name.as_str());
    if in_str_list(&name, &list) {
        return false;
    }
    match w.rect {
        None => false,
        Some((left, top, right, bottom)) => {
            let caption: u32 = 0x00C0_0000;
            if (w.style & caption) == caption {
                return false;
            }
            left <= 0 && top <= 0 && right >= screen_w && bottom >= screen_h
        },
    }
}

// ---------------------------------------------------------------------------
// The window the wallpaper draws into
// ---------------------------------------------------------------------------

/// A top-level window, as met while enumerating them.
pub struct TopWindow {
    /// Its handle (not 0).
    pub handle: usize,
    /// Its window class name.
    pub class_name: String,
    /// Whether it hosts the desktop icons (`SHELLDLL_DefView`).
    pub hosts_desktop_icons: bool,
    /// The first `WorkerW` window after it, if any (0 when none).
    pub worker_after: usize,
}

/// The first pass over the windows, stopping at the first hit: a window
/// hosting the desktop icons gives the `WorkerW` after it when there is
/// one, and otherwise marks that the icons were seen; once they were seen,
/// a `WorkerW` window is taken.
pub open spec fn first_pass(ws: Seq<TopWindow>, seen_icons: bool) -> Option<usize>
    decreases ws.len(),
{
    if ws.len() == 0 {
        None
    } else {
        let w = ws[0];
        if w.hosts_desktop_icons {
            if w.worker_after != 0 {
                Some(w.worker_after)
            } else {
                first_pass(ws.drop_first(), true)
            }
        } else if seen_icons && w.class_name@ == "WorkerW"@ {
            Some(w.handle)
        } else {
            first_pass(ws.drop_first(), seen_icons)
        }
    }
}

/// The second pass: the first `WorkerW` window that does not host the
/// desktop icons.
pub open spec fn second_pass(ws: Seq<TopWindow>) -> Option<usize>
    decreases ws.len(),
{
    if ws.len() == 0 {
        None
    } else if ws[0].class_name@ == "WorkerW"@ && !ws[0].hosts_desktop_icons {
        Some(ws[0].handle)
    } else {
        second_pass(ws.drop_first())
    }
}

/// The window to draw into: the first pass's, else the second's, else
/// the program manager window, else the desktop window (0 means none).
pub open spec fn wallpaper_window_spec(ws: Seq<TopWindow>, progman: usize, desktop: usize) -> Option<usize> {
    match first_pass(ws, false) {
        Some(h) => Some(h),
        None => match second_pass(ws) {
            Some(h) => Some(h),
            None => if progman != 0 {
                Some(progman)
            } else if desktop != 0 {
                Some(desktop)
            } else {
                None
            },
        },
    }
}

/// Whether every window of `ws` has a handle (not 0).
pub open spec fn all_handles(ws: Seq<TopWindow>) -> bool {
    forall|i: int| 0 <= i < ws.len() ==> #[trigger] ws[i].handle != 0
}

/// The first pass over the windows.
fn run_first_pass(ws: &Vec<TopWindow>) -> (r: Option<usize>)
    requires
        all_handles(ws@),
    ensures
        r == first_pass(ws@, false),
        r matches Some(h) ==> h != 0,
{
    let worker = chars_of("WorkerW");
    let mut seen = false;
    let mut i: usize = 0;
    assert(ws@.skip(0) =~= ws@);
    while i < ws.len()
        invariant
            i <= ws.len(),
            worker@ == "WorkerW"@,
            all_handles(ws@),
            first_pass(ws@, false) == first_pass(ws@.skip(i as int), seen),
        decreases ws.len() - i,
    {
        let w = &ws[i];
        assert(ws@.skip(i as int)[0] == *w);
        assert(ws@.skip(i as int).drop_first() =~= ws@.skip(i + 1));
        if w.hosts_desktop_icons {
            if w.worker_after != 0 {
                return Some(w.worker_after);
            }
            seen = true;
        } else if seen {
            let name = chars_of(w.class_name.as_str());
            if chars_equal(&name, &worker) {
                return Some(w.handle);
            }
        }
        i = i + 1;
    }
    None
}

/// The second pass over the windows.
fn run_second_pass(ws: &Vec<TopWindow>) -> (r: Option<usize>)
    requires
        all_handles(ws@),
    ensures
        r == second_pass(ws@),
        r matches Some(h) ==> h != 0,
{
    let worker = chars_of("WorkerW");
    let mut i: usize = 0;
    assert(ws@.skip(0) =~= ws@);
    while i < ws.len()
        invariant
            i <= ws.len(),
            worker@ == "WorkerW"@,
            all_handles(ws@),
            second_pass(ws@) == second_pass(ws@.skip(i as int)),
        decreases ws.len() - i,
    {
        let w = &ws[i];
        assert(ws@.skip(i as int)[0] == *w);
        assert(ws@.skip(i as int).drop_first() =~= ws@.skip(i + 1));
        let name = chars_of(w.class_name.as_str());
        if chars_equal(&name, &worker) && !w.hosts_desktop_icons {
            return Some(w.handle);
        }
        i = i + 1;
    }
    None
}

/// The window the live wallpaper draws into, given the top-level windows
/// in the order enumerated, the program manager window and the desktop
/// window (0 for a missing one). The window found is never 0.
pub fn find_workerw(ws: &Vec<TopWindow>, progman: usize, desktop: usize) -> (r: Option<usize>)
    requires
        all_handles(ws@),
    ensures
        r == wallpaper_window_spec(ws@, progman, desktop),
        r matches Some(h) ==> h != 0,
{
    match run_first_pass(ws) {
        Some(h) => Some(h),
        None => match run_second_pass(ws) {
            Some(h) => Some(h),
            None => if progman != 0 {
                Some(progman)
            } else if desktop != 0 {
                Some(desktop)
            } else {
                None
            },
        },
    }
}

// ---------------------------------------------------------------------------
// The command line of the background player
// ---------------------------------------------------------------------------

/// A path as handed to `mpv`: without a leading `\\?\`.
pub open spec fn without_verbatim_prefix(p: Seq<char>) -> Seq<char> {
    if p.len() >= 4 && p.take(4) == "\\\\?\\"@ {
        p.skip(4)
    } else {
        p
    }
}

/// The arguments of the background `mpv` that draws the live wallpaper
/// into window `hwnd`, muted or not, logging to `log_path`, playing `video`.
pub open spec fn live_mpv_args(hwnd: u64, mute: bool, log_path: Seq<char>, video: Seq<char>) -> Seq<Seq<char>> {
    seq![
        "--player-operation-mode=cplayer"@,
        "--wid="@ + decimal(hwnd as nat),
        "--force-window=yes"@,
        "--loop-file=inf"@,
        if mute { "--mute=yes"@ } else { "--mute=no"@ },
        "--no-border"@,
        "--no-window-dragging"@,
        "--no-input-default-bindings"@,
        "--input-vo-keyboard=no"@,
        "--vo=gpu"@,
        "--hwdec=auto-safe"@,
        "--panscan=1.0"@,
        "--keep-open=yes"@,
        "--log-file="@ + log_path,
        "--priority=belownormal"@,
        "--vd-lavc-threads=2"@,
        "--demuxer-max-bytes=8M"@,
        "--demuxer-max-back-bytes=2M"@,
        "--cache=no"@,
        "--deband=no"@,
        "--dither-depth=no"@,
        without_verbatim_prefix(video),
    ]
}

/// The live wallpaper loops without end: the background player is asked
/// for `--loop-file=inf`, and no other option (every argument before the
/// video) sets looping otherwise.
pub proof fn law_live_wallpaper_loops_forever(hwnd: u64, mute: bool, log_path: Seq<char>, video: Seq<char>)
    ensures
        live_mpv_args(hwnd, mute, log_path, video).contains("--loop-file=inf"@),
        forall|i: int|
            0 <= i < live_mpv_args(hwnd, mute, log_path, video).len() - 1 && #[trigger] starts_with(
                live_mpv_args(hwnd, mute, log_path, video)[i],
                "--loop"@,
            ) ==> live_mpv_args(hwnd, mute, log_path, video)[i] == "--loop-file=inf"@,
{
    let args = live_mpv_args(hwnd, mute, log_path, video);
    reveal_strlit("--player-operation-mode=cplayer");
    reveal_strlit("--force-window=yes");
    reveal_strlit("--loop-file=inf");
    reveal_strlit("--no-border");
    reveal_strlit("--no-window-dragging");
    reveal_strlit("--no-input-default-bindings");
    reveal_strlit("--input-vo-keyboard=no");
    reveal_strlit("--vo=gpu");
    reveal_strlit("--hwdec=auto-safe");
    reveal_strlit("--panscan=1.0");
    reveal_strlit("--keep-open=yes");
    reveal_strlit("--priority=belownormal");
    reveal_strlit("--vd-lavc-threads=2");
    reveal_strlit("--demuxer-max-bytes=8M");
    reveal_strlit("--demuxer-max-back-bytes=2M");
    reveal_strlit("--cache=no");
    reveal_strlit("--deband=no");
    reveal_strlit("--dither-depth=no");
    reveal_strlit("--wid=");
    reveal_strlit("--mute=yes");
    reveal_strlit("--mute=no");
    reveal_strlit("--log-file=");
    reveal_strlit("--loop");
    assert(args[3] == "--loop-file=inf"@);
    assert(args.len() == 22);
    assert forall|i: int| 0 <= i < args.len() - 1 && i != 3 implies !starts_with(args[i], "--loop"@) by {
        if i == 0 {
            lemma_not_starts_with(args[0], "--loop"@, 2);
        } else if i == 1 {
            lemma_not_starts_with(args[1], "--loop"@, 2);
        } else if i == 2 {
            lemma_not_starts_with(args[2], "--loop"@, 2);
        } else if i == 4 {
            lemma_not_starts_with(args[4], "--loop"@, 2);
        } else if i == 5 {
            lemma_not_starts_with(args[5], "--loop"@, 2);
        } else if i == 6 {
            lemma_not_starts_with(args[6], "--loop"@, 2);
        } else if i == 7 {
            lemma_not_starts_with(args[7], "--loop"@, 2);
        } else if i == 8 {
            lemma_not_starts_with(args[8], "--loop"@, 2);
        } else if i == 9 {
            lemma_not_starts_with(args[9], "--loop"@, 2);
        } else if i == 10 {
            lemma_not_starts_with(args[10], "--loop"@, 2);
        } else if i == 11 {
            lemma_not_starts_with(args[11], "--loop"@, 2);
        } else if i == 12 {
            lemma_not_starts_with(args[12], "--loop"@, 2);
        } else if i == 13 {
            lemma_not_starts_with(args[13], "--loop"@, 4);
        } else if i == 14 {
            lemma_not_starts_with(args[14], "--loop"@, 2);
        } else if i == 15 {
            lemma_not_starts_with(args[15], "--loop"@, 2);
        } else if i == 16 {
            lemma_not_starts_with(args[16], "--loop"@, 2);
        } else if i == 17 {
            lemma_not_starts_with(args[17], "--loop"@, 2);
        } else if i == 18 {
            lemma_not_starts_with(args[18], "--loop"@, 2);
        } else if i == 19 {
            lemma_not_starts_with(args[19], "--loop"@, 2);
        } else if i == 20 {
            lemma_not_starts_with(args[20], "--loop"@, 2);
        }
    }
}

/// `p` without a leading `\\?\`.
pub fn strip_verbatim_prefix(p: &str) -> (r: String)
    ensures
        r@ == without_verbatim_prefix(p@),
{
    let v = chars_of(p);
    let prefix = chars_of("\\\\?\\");
    proof {
        reveal_strlit("\\\\?\\");
    }
    if v.len() >= 4 {
        let head = crate::text::char_range(&v, 0, 4);
        if chars_equal(&head, &prefix) {
            let rest = crate::text::char_range(&v, 4, v.len());
            assert(rest@ =~= v@.skip(4));
            return string_from_chars(&rest);
        }
    }
    string_from_chars(&v)
}

/// A string made of `prefix` followed by `rest`.
fn prefixed(prefix: &str, rest: &Vec<char>) -> (r: String)
    ensures
        r@ == prefix@ + rest@,
{
    let mut v = chars_of(prefix);
    append_chars(&mut v, rest);
    string_from_chars(&v)
}

/// The arguments of the background `mpv` for the live wallpaper.
pub fn live_wallpaper_args(hwnd: u64, mute: bool, log_path: &str, video: &str) -> (r: Vec<String>)
    ensures
        string_views(r@) == live_mpv_args(hwnd, mute, log_path@, video@),
{
    let mut r: Vec<String> = Vec::new();
    r.push(to_owned_string("--player-operation-mode=cplayer"));
    r.push(prefixed("--wid=", &decimal_chars(hwnd)));
    r.push(to_owned_string("--force-window=yes"));
    r.push(to_owned_string("--loop-file=inf"));
    if mute {
        r.push(to_owned_string("--mute=yes"));
    } else {
        r.push(to_owned_string("--mute=no"));
    }
    r.push(to_owned_string("--no-border"));
    r.push(to_owned_string("--no-window-dragging"));
    r.push(to_owned_string("--no-input-default-bindings"));
    r.push(to_owned_string("--input-vo-keyboard=no"));
    r.push(to_owned_string("--vo=gpu"));
    r.push(to_owned_string("--hwdec=auto-safe"));
    r.push(to_owned_string("--panscan=1.0"));
    r.push(to_owned_string("--keep-open=yes"));
    r.push(prefixed("--log-file=", &chars_of(log_path)));
    r.push(to_owned_string("--priority=belownormal"));
    r.push(to_owned_string("--vd-lavc-threads=2"));
    r.push(to_owned_string("--demuxer-max-bytes=8M"));
    r.push(to_owned_string("--demuxer-max-back-bytes=2M"));
    r.push(to_owned_string("--cache=no"));
    r.push(to_owned_string("--deband=no"));
    r.push(to_owned_string("--dither-depth=no"));
    r.push(strip_verbatim_prefix(video));
    assert(string_views(r@) =~= live_mpv_args(hwnd, mute, log_path@, video@));
    r
}

/// The arguments that end one process by id, with its children
/// (`taskkill /PID <pid> /F /T`), or without them when `tree` is false.
pub open spec fn taskkill_pid_args(pid: u32, tree: bool) -> Seq<Seq<char>> {
    if tree {
        seq!["/PID"@, decimal(pid as nat), "/F"@, "/T"@]
    } else {
        seq!["/PID"@, decimal(pid as nat), "/F"@]
    }
}

/// The arguments of `taskkill` that end the process `pid` (and its
/// children when `tree`).
pub fn taskkill_args(pid: u32, tree: bool) -> (r: Vec<String>)
    ensures
        string_views(r@) == taskkill_pid_args(pid, tree),
{
    let mut r: Vec<String> = Vec::new();
    r.push(to_owned_string("/PID"));
    let d = decimal_chars(pid as u64);
    r.push(string_from_chars(&d));
    r.push(to_owned_string("/F"));
    if tree {
        r.push(to_owned_string("/T"));
    }
    assert(string_views(r@) =~= taskkill_pid_args(pid, tree));
    r
}

/// The arguments of `taskkill` that end every `mpv` and its children.
pub open spec fn taskkill_all_players_spec() -> Seq<Seq<char>> {
    seq!["/IM"@, "mpv.exe"@, "/F"@, "/T"@]
}

/// The arguments of `taskkill` that end every `mpv` and its children.
pub fn taskkill_all_players_args() -> (r: Vec<String>)
    ensures
        string_views(r@) == taskkill_all_players_spec(),
{
    let mut r: Vec<String> = Vec::new();
    r.push(to_owned_string("/IM"));
    r.push(to_owned_string("mpv.exe"));
    r.push(to_owned_string("/F"));
    r.push(to_owned_string("/T"));
    assert(string_views(r@) =~= taskkill_all_players_spec());
    r
}

/// The places where a bundled `mpv` is looked for, in order: next to the
/// executable, in an `mpv` folder next to it, and in an `mpv` folder of
/// the working directory.
pub open spec fn mpv_candidates_spec(exe_dir: Seq<char>, sep: char) -> Seq<Seq<char>> {
    seq![
        crate::paths::joined(exe_dir, "mpv.exe"@, sep),
        crate::paths::joined(crate::paths::joined(exe_dir, "mpv"@, sep), "mpv.exe"@, sep),
        crate::paths::joined("mpv"@, "mpv.exe"@, sep),
    ]
}

/// The places where a bundled `mpv` is looked for, in order, given the
/// executable's folder and the separator `sep`.
pub fn mpv_candidates(exe_dir: &str, sep: char) -> (r: Vec<String>)
    requires
        crate::paths::is_sep(sep),
    ensures
        string_views(r@) == mpv_candidates_spec(exe_dir@, sep),
{
    let d = chars_of(exe_dir);
    let exe = chars_of("mpv.exe");
    let sub = chars_of("mpv");
    let first = crate::paths::join_with_separator(&d, &exe, sep);
    let sub_dir = crate::paths::join_with_separator(&d, &sub, sep);
    let second = crate::paths::join_with_separator(&sub_dir, &exe, sep);
    let third = crate::paths::join_with_separator(&sub, &exe, sep);
    let mut r: Vec<String> = Vec::new();
    r.push(string_from_chars(&first));
    r.push(string_from_chars(&second));
    r.push(string_from_chars(&third));
    assert(string_views(r@) =~= mpv_candidates_spec(exe_dir@, sep));
    r
}

} // verus!
