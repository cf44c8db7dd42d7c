//! The window's own state: what it was opened with, and what its handlers
//! decide. The widgets themselves stay with the caller.

use vstd::prelude::*;
use crate::machine::Command;
use crate::progress::{seek_of, seek_request, SeekRequest};

verus! {

/// What a click on the video-info button does.
#[derive(Clone, Copy, Debug, PartialEq, Eq, Structural)]
pub enum InfoWindowAction {
    /// The info window does not exist yet: it is created and shown.
    Open,
    /// The info window exists: it is brought to the front.
    Present,
}

/// The mathematical model of a window manager.
pub struct WindowView {
    pub title: Seq<char>,
    pub default_width: i32,
    pub default_height: i32,
    pub video_path: Seq<char>,
    pub css_path: Seq<char>,
    /// Whether the progress slider is being dragged.
    pub is_dragging: bool,
    /// Whether the video-info window has been created.
    pub info_window: bool,
    /// Whether the pause image lies over the picture.
    pub pause_overlay: bool,
}

/// The state of a player window.
pub struct WindowManager {
    title: String,
    default_width: i32,
    default_height: i32,
    video_path: String,
    css_path: String,
    is_dragging: bool,
    video_info_window: bool,
    pause_overlay: bool,
}

impl View for WindowManager {
    type V = WindowView;

    closed spec fn view(&self) -> WindowView {
        WindowView {
            title: self.title@,
            default_width: self.default_width,
            default_height: self.default_height,
            video_path: self.video_path@,
            css_path: self.css_path@,
            is_dragging: self.is_dragging,
            info_window: self.video_info_window,
            pause_overlay: self.pause_overlay,
        }
    }
}

/// Whether the pause image is shown once a command has been carried out:
/// playing hides it, pausing shows it, stopping leaves it as it is.
pub open spec fn overlay_after(command: Command, shown: bool) -> bool {
    match command {
        Command::Play => false,
        Command::Pause => true,
        Command::Stop => shown,
    }
}

impl WindowManager {
    /// A window that is not dragged, has no info window and shows no pause
    /// image.
    pub fn new(
        title: String,
        default_width: i32,
        default_height: i32,
        video_path: String,
        css_path: String,
    ) -> (w: WindowManager)
        ensures
            w@ == (WindowView {
                title: title@,
                default_width,
                default_height,
                video_path: video_path@,
                css_path: css_path@,
                is_dragging: false,
                info_window: false,
                pause_overlay: false,
            }),
    {
        WindowManager {
            title,
            default_width,
            default_height,
            video_path,
            css_path,
            is_dragging: false,
            video_info_window: false,
            pause_overlay: false,
        }
    }

    /// The window's title.
    pub fn title(&self) -> (r: &str)
        ensures
            r@ == self@.title,
    {
        self.title.as_str()
    }

    /// The width the window opens with.
    pub fn default_width(&self) -> (r: i32)
        ensures
            r == self@.default_width,
    {
        self.default_width
    }

    /// The height the window opens with.
    pub fn default_height(&self) -> (r: i32)
        ensures
            r == self@.default_height,
    {
        self.default_height
    }

    /// The media that the window plays.
    pub fn video_path(&self) -> (r: &str)
        ensures
            r@ == self@.video_path,
    {
        self.video_path.as_str()
    }

    /// The style sheet of the window.
    pub fn css_path(&self) -> (r: &str)
        ensures
            r@ == self@.css_path,
    {
        self.css_path.as_str()
    }

    /// Whether the progress slider is being dragged.
    pub fn is_dragging(&self) -> (r: bool)
        ensures
            r == self@.is_dragging,
    {
        self.is_dragging
    }

    /// Whether the pause image lies over the picture.
    pub fn pause_overlay(&self) -> (r: bool)
        ensures
            r == self@.pause_overlay,
    {
        self.pause_overlay
    }

    /// The drag of the progress slider begins.
    pub fn drag_begin(&mut self)
        ensures
            final(self)@ == (WindowView { is_dragging: true, ..old(self)@ }),
    {
        self.is_dragging = true;
    }

    /// The drag of the progress slider ends at a position, in nanoseconds:
    /// the pipeline is to seek there, if the duration is known.
    pub fn drag_end(&mut self, position: i64, duration: Option<u64>) -> (r: Option<SeekRequest>)
        ensures
            final(self)@ == (WindowView { is_dragging: false, ..old(self)@ }),
            r == seek_of(position, duration),
    {
        self.is_dragging = false;
        seek_request(position, duration)
    }

    /// A click on the video-info button: the first click opens the info
    /// window, every later one brings it to the front.
    pub fn video_info_clicked(&mut self) -> (r: InfoWindowAction)
        ensures
            final(self)@ == (WindowView { info_window: true, ..old(self)@ }),
            r == if old(self)@.info_window {
                InfoWindowAction::Present
            } else {
                InfoWindowAction::Open
            },
    {
        if self.video_info_window {
            InfoWindowAction::Present
        } else {
            self.video_info_window = true;
            InfoWindowAction::Open
        }
    }

    /// A command has been carried out: says whether the pause image is to
    /// be shown now.
    pub fn command_done(&mut self, command: Command) -> (r: bool)
        ensures
            r == overlay_after(command, old(self)@.pause_overlay),
            final(self)@ == (WindowView { pause_overlay: r, ..old(self)@ }),
    {
        match command {
            Command::Play => {
                self.pause_overlay = false;
            },
            Command::Pause => {
                self.pause_overlay = true;
            },
            Command::Stop => {},
        }
        self.pause_overlay
    }
}

} // verus!
