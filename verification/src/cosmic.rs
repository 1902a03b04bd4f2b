//! The desktop shell: workspaces, a panel, a launcher and notifications,
//! and the compositor that ties them to the display, the graphics and the
//! input of a session.

use crate::collections::btree_get_mut;
use crate::graphics::{
    framebuffer_result, new_framebuffer, pages_after_framebuffer, Compositor, CompositorState,
    GraphicsError, PixelFormat,
};
use crate::input::{InputEvent, InputEventType, InputManager, InputState, KeyCode, MouseButton};
use crate::memory::PageAllocator;
use crate::wayland::{DisplayState, WaylandDisplay, WaylandError};
use std::collections::BTreeMap;
use vstd::prelude::*;

verus! {

/// Why a desktop operation did not succeed.
#[derive(Debug, Clone, Copy, PartialEq, Eq, Structural)]
pub enum CosmicError {
    WaylandError(WaylandError),
    GraphicsError(GraphicsError),
    CompositorNotInitialized,
    InvalidConfiguration,
    SessionManagerError,
}

impl From<WaylandError> for CosmicError {
    fn from(err: WaylandError) -> (out: CosmicError) {
        CosmicError::WaylandError(err)
    }
}

impl vstd::std_specs::convert::FromSpecImpl<WaylandError> for CosmicError {
    open spec fn obeys_from_spec() -> bool {
        true
    }

    open spec fn from_spec(err: WaylandError) -> CosmicError {
        CosmicError::WaylandError(err)
    }
}

impl From<GraphicsError> for CosmicError {
    fn from(err: GraphicsError) -> (out: CosmicError) {
        CosmicError::GraphicsError(err)
    }
}

impl vstd::std_specs::convert::FromSpecImpl<GraphicsError> for CosmicError {
    open spec fn obeys_from_spec() -> bool {
        true
    }

    open spec fn from_spec(err: GraphicsError) -> CosmicError {
        CosmicError::GraphicsError(err)
    }
}

/// The graphics result as a desktop result.
pub open spec fn lift_graphics<T>(r: Result<T, GraphicsError>) -> Result<T, CosmicError> {
    match r {
        Ok(value) => Ok(value),
        Err(e) => Err(CosmicError::GraphicsError(e)),
    }
}

/// The colour of the background of a new workspace: dark gray.
pub const DEFAULT_BACKGROUND_COLOR: u32 = 0x2D2D2D;

/// The height of the panel of a new session.
pub const DEFAULT_PANEL_HEIGHT: u32 = 32;

/// Where a new window is put.
pub const DEFAULT_WINDOW_POSITION: i32 = 100;

/// The window that a click on the desktop gives the focus to.
pub const FIRST_WINDOW: u32 = 1;

/// How the background picture is fitted to the screen.
#[derive(Debug, Clone, Copy, PartialEq, Eq, Structural)]
pub enum BackgroundMode {
    Stretch,
    Fit,
    Fill,
    Center,
    Tile,
    Color,
}

/// What is behind the windows of a workspace.
#[derive(Debug)]
pub struct CosmicBackground {
    pub image_path: Option<String>,
    pub color: u32,
    pub mode: BackgroundMode,
}

/// A set of windows that are shown together.
#[derive(Debug)]
pub struct CosmicWorkspace {
    pub id: u32,
    pub name: String,
    pub windows: Vec<u32>,
    pub active_window: Option<u32>,
    pub background: Option<CosmicBackground>,
}

/// Where the panel sits.
#[derive(Debug, Clone, Copy, PartialEq, Eq, Structural)]
pub enum PanelPosition {
    Top,
    Bottom,
    Left,
    Right,
}

/// A small program that lives in the panel.
#[derive(Debug)]
pub struct CosmicApplet {
    pub id: u32,
    pub name: &'static str,
    pub width: u32,
    pub height: u32,
    pub surface_id: Option<u32>,
}

/// The bar at the edge of the screen.
#[derive(Debug)]
pub struct CosmicPanel {
    pub id: u32,
    pub height: u32,
    pub position: PanelPosition,
    pub applets: Vec<CosmicApplet>,
}

/// A program that the launcher offers.
#[derive(Debug)]
pub struct CosmicApplication {
    pub id: u32,
    pub name: &'static str,
    pub command: &'static str,
    pub icon: Option<&'static str>,
    pub surface_id: Option<u32>,
}

/// The menu of programs.
#[derive(Debug)]
pub struct CosmicLauncher {
    pub id: u32,
    pub visible: bool,
    pub search_text: String,
    pub applications: Vec<CosmicApplication>,
}

/// How urgent a notification is.
#[derive(Debug, Clone, Copy, PartialEq, Eq, Structural)]
pub enum NotificationUrgency {
    Low,
    Normal,
    Critical,
}

/// A message for the user.
#[derive(Debug)]
pub struct CosmicNotification {
    pub id: u32,
    pub title: String,
    pub body: String,
    pub timestamp: u64,
    pub urgency: NotificationUrgency,
}

/// The test that lets every notification pass but those with the id `id`.
pub open spec fn notification_other_than(id: u32) -> spec_fn(CosmicNotification) -> bool {
    |notification: CosmicNotification| notification.id != id
}

/// Whether `workspace` is a new workspace with the id `id` and the name
/// `name`: no window, and a plain dark gray background.
pub open spec fn is_new_workspace(workspace: CosmicWorkspace, id: u32, name: Seq<char>) -> bool {
    &&& workspace.id == id
    &&& workspace.name@ == name
    &&& workspace.windows@ == Seq::<u32>::empty()
    &&& workspace.active_window is None
    &&& workspace.background is Some
    &&& workspace.background->Some_0.image_path is None
    &&& workspace.background->Some_0.color == DEFAULT_BACKGROUND_COLOR
    &&& workspace.background->Some_0.mode == BackgroundMode::Color
}

/// Whether `after` is the workspace `before` with the window `window_id`
/// added behind its windows; a workspace without an active window makes
/// the new one active.
pub open spec fn with_window(before: CosmicWorkspace, after: CosmicWorkspace, window_id: u32) -> bool {
    &&& after.id == before.id
    &&& after.name == before.name
    &&& after.background == before.background
    &&& after.windows@ == before.windows@.push(window_id)
    &&& after.active_window == if before.active_window is None {
        Some(window_id)
    } else {
        before.active_window
    }
}

/// Whether `after` is the map `before` with a new value under `key` and
/// every other entry as it was.
pub open spec fn changed_at<V>(before: Map<u32, V>, after: Map<u32, V>, key: u32) -> bool {
    &&& after.dom() == before.dom().insert(key)
    &&& forall|k: u32| k != key && before.contains_key(k) ==> #[trigger] after[k] == before[k]
}

/// Whether `application` is the launcher entry with the given texts.
pub open spec fn is_application(
    application: CosmicApplication,
    id: u32,
    name: Seq<char>,
    command: Seq<char>,
    icon: Seq<char>,
) -> bool {
    &&& application.id == id
    &&& application.name@ == name
    &&& application.command@ == command
    &&& application.icon is Some
    &&& application.icon->Some_0@ == icon
    &&& application.surface_id is None
}

/// Whether `applications` are `before` followed by the six programs that
/// every session offers.
pub open spec fn with_default_applications(
    before: Seq<CosmicApplication>,
    applications: Seq<CosmicApplication>,
) -> bool {
    let n = before.len() as int;
    &&& applications.len() == n + 6
    &&& applications.take(n) == before
    &&& is_application(applications[n], 1, "Terminal"@, "cosmic-term"@, "terminal"@)
    &&& is_application(applications[n + 1], 2, "Files"@, "cosmic-files"@, "folder"@)
    &&& is_application(
        applications[n + 2],
        3,
        "Settings"@,
        "cosmic-settings"@,
        "preferences-system"@,
    )
    &&& is_application(applications[n + 3], 4, "Text Editor"@, "cosmic-edit"@, "text-editor"@)
    &&& is_application(applications[n + 4], 5, "List Files (ls)"@, "ls"@, "folder-open"@)
    &&& is_application(applications[n + 5], 6, "Show Directory (pwd)"@, "pwd"@, "folder"@)
}

/// The shell: what the user sees besides the windows.
#[derive(Debug)]
pub struct CosmicShell {
    pub workspaces: BTreeMap<u32, CosmicWorkspace>,
    pub active_workspace: Option<u32>,
    pub next_workspace_id: u32,
    pub panel: Option<CosmicPanel>,
    pub launcher: Option<CosmicLauncher>,
    pub notifications: Vec<CosmicNotification>,
}

impl CosmicShell {
    /// The ids of the workspaces are the numbers from 1 up to the counter,
    /// without a gap.
    pub open spec fn wf(self) -> bool {
        &&& self.next_workspace_id >= 1
        &&& forall|id: u32|
            self.workspaces@.contains_key(id) <==> 1 <= id < self.next_workspace_id
    }

    /// Whether the launcher is shown; `None` where there is no launcher.
    pub open spec fn launcher_visible(self) -> Option<bool> {
        match self.launcher {
            Some(launcher) => Some(launcher.visible),
            None => None,
        }
    }

    /// The height of the panel, if there is one.
    pub open spec fn panel_height(self) -> Option<u32> {
        match self.panel {
            Some(panel) => Some(panel.height),
            None => None,
        }
    }

    /// Whether `after` is the shell `self` with the launcher toggled: shown
    /// if it was hidden and hidden if it was shown, its search text
    /// cleared, and everything else as it was.
    pub open spec fn toggled(self, after: CosmicShell) -> bool {
        &&& self.launcher is Some
        &&& after.launcher is Some
        &&& after.launcher->Some_0.visible == !self.launcher->Some_0.visible
        &&& after.launcher->Some_0.search_text@ == Seq::<char>::empty()
        &&& after.launcher->Some_0.id == self.launcher->Some_0.id
        &&& after.launcher->Some_0.applications == self.launcher->Some_0.applications
        &&& after.workspaces == self.workspaces
        &&& after.active_workspace == self.active_workspace
        &&& after.next_workspace_id == self.next_workspace_id
        &&& after.panel == self.panel
        &&& after.notifications == self.notifications
    }

    /// Whether `after` and `r` are the shell and the answer after a window
    /// was created with the answer `created` and, where it was created,
    /// put on the active workspace. A window that was created stays where
    /// the active workspace does not exist, and that is the failure then.
    pub open spec fn window_placed(
        self,
        created: Result<u32, CosmicError>,
        after: CosmicShell,
        r: Result<u32, CosmicError>,
    ) -> bool {
        match created {
            Err(_) => r == created && after == self,
            Ok(window_id) => match self.active_workspace {
                Some(workspace_id) => if self.workspaces@.contains_key(workspace_id) {
                    &&& r == created
                    &&& changed_at(self.workspaces@, after.workspaces@, workspace_id)
                    &&& with_window(
                        self.workspaces@[workspace_id],
                        after.workspaces@[workspace_id],
                        window_id,
                    )
                    &&& after.active_workspace == self.active_workspace
                    &&& after.next_workspace_id == self.next_workspace_id
                    &&& after.panel == self.panel
                    &&& after.launcher == self.launcher
                    &&& after.notifications == self.notifications
                } else {
                    r == Err::<u32, CosmicError>(CosmicError::InvalidConfiguration) && after
                        == self
                },
                None => r == created && after == self,
            },
        }
    }

    /// Whether `after` differs from `self` at most in the launcher being
    /// shown, its search text, and the active workspace.
    pub open spec fn same_but_view(self, after: CosmicShell) -> bool {
        &&& after.workspaces == self.workspaces
        &&& after.next_workspace_id == self.next_workspace_id
        &&& after.panel == self.panel
        &&& after.notifications == self.notifications
        &&& after.launcher is Some <==> self.launcher is Some
        &&& self.launcher is Some ==> after.launcher->Some_0.id == self.launcher->Some_0.id
            && after.launcher->Some_0.applications == self.launcher->Some_0.applications
    }

    /// A shell without a workspace, a panel, a launcher or a notification.
    pub fn new() -> (shell: CosmicShell)
        ensures
            shell.wf(),
            shell.workspaces@ == Map::<u32, CosmicWorkspace>::empty(),
            shell.active_workspace is None,
            shell.next_workspace_id == 1,
            shell.panel is None,
            shell.launcher is None,
            shell.notifications@ == Seq::<CosmicNotification>::empty(),
    {
        CosmicShell {
            workspaces: BTreeMap::new(),
            active_workspace: None,
            next_workspace_id: 1,
            panel: None,
            launcher: None,
            notifications: Vec::new(),
        }
    }

    /// Creates a workspace with the name `name` and answers its id. The
    /// first workspace becomes the active one.
    pub fn create_workspace(&mut self, name: String) -> (r: Result<u32, CosmicError>)
        ensures
            old(self).wf() ==> final(self).wf(),
            r == if old(self).next_workspace_id < u32::MAX {
                Ok::<u32, CosmicError>(old(self).next_workspace_id)
            } else {
                Err::<u32, CosmicError>(CosmicError::SessionManagerError)
            },
            r is Err ==> *final(self) == *old(self),
            r is Ok ==> {
                &&& final(self).next_workspace_id == old(self).next_workspace_id + 1
                &&& changed_at(old(self).workspaces@, final(self).workspaces@, r->Ok_0)
                &&& is_new_workspace(final(self).workspaces@[r->Ok_0], r->Ok_0, name@)
                &&& final(self).active_workspace == if old(self).active_workspace is None {
                    Some(r->Ok_0)
                } else {
                    old(self).active_workspace
                }
                &&& final(self).panel == old(self).panel
                &&& final(self).launcher == old(self).launcher
                &&& final(self).notifications == old(self).notifications
            },
    {
        if self.next_workspace_id == u32::MAX {
            return Err(CosmicError::SessionManagerError);
        }
        let workspace_id = self.next_workspace_id;
        self.next_workspace_id += 1;
        let workspace = CosmicWorkspace {
            id: workspace_id,
            name,
            windows: Vec::new(),
            active_window: None,
            background: Some(
                CosmicBackground {
                    image_path: None,
                    color: DEFAULT_BACKGROUND_COLOR,
                    mode: BackgroundMode::Color,
                },
            ),
        };
        self.workspaces.insert(workspace_id, workspace);
        if self.active_workspace.is_none() {
            self.active_workspace = Some(workspace_id);
        }
        Ok(workspace_id)
    }

    /// Makes the workspace `workspace_id` the active one.
    pub fn switch_workspace(&mut self, workspace_id: u32) -> (r: Result<(), CosmicError>)
        ensures
            r == if old(self).workspaces@.contains_key(workspace_id) {
                Ok::<(), CosmicError>(())
            } else {
                Err::<(), CosmicError>(CosmicError::InvalidConfiguration)
            },
            *final(self) == if r is Ok {
                CosmicShell { active_workspace: Some(workspace_id), ..*old(self) }
            } else {
                *old(self)
            },
    {
        if self.workspaces.contains_key(&workspace_id) {
            self.active_workspace = Some(workspace_id);
            Ok(())
        } else {
            Err(CosmicError::InvalidConfiguration)
        }
    }

    /// Puts the window `window_id` on the workspace `workspace_id`.
    pub fn add_window_to_workspace(&mut self, workspace_id: u32, window_id: u32) -> (r: Result<
        (),
        CosmicError,
    >)
        ensures
            old(self).wf() ==> final(self).wf(),
            r == if old(self).workspaces@.contains_key(workspace_id) {
                Ok::<(), CosmicError>(())
            } else {
                Err::<(), CosmicError>(CosmicError::InvalidConfiguration)
            },
            r is Err ==> *final(self) == *old(self),
            r is Ok ==> {
                &&& changed_at(old(self).workspaces@, final(self).workspaces@, workspace_id)
                &&& with_window(
                    old(self).workspaces@[workspace_id],
                    final(self).workspaces@[workspace_id],
                    window_id,
                )
                &&& final(self).active_workspace == old(self).active_workspace
                &&& final(self).next_workspace_id == old(self).next_workspace_id
                &&& final(self).panel == old(self).panel
                &&& final(self).launcher == old(self).launcher
                &&& final(self).notifications == old(self).notifications
            },
    {
        let ghost before = self.workspaces@;
        if !self.workspaces.contains_key(&workspace_id) {
            return Err(CosmicError::InvalidConfiguration);
        }
        match self.workspaces.remove(&workspace_id) {
            Some(mut workspace) => {
                workspace.windows.push(window_id);
                if workspace.active_window.is_none() {
                    workspace.active_window = Some(window_id);
                }
                self.workspaces.insert(workspace_id, workspace);
                assert(self.workspaces@.dom() =~= before.dom().insert(workspace_id));
                assert(before.dom().insert(workspace_id) =~= before.dom());
                Ok(())
            },
            None => Ok(()),
        }
    }

    /// Gives the shell a panel, which replaces the one it had, and answers
    /// the id of the panel, which is always 1.
    pub fn create_panel(&mut self, height: u32, position: PanelPosition) -> (r: Result<
        u32,
        CosmicError,
    >)
        ensures
            r == Ok::<u32, CosmicError>(1),
            final(self).panel is Some,
            final(self).panel->Some_0.id == 1,
            final(self).panel->Some_0.height == height,
            final(self).panel->Some_0.position == position,
            final(self).panel->Some_0.applets@ == Seq::<CosmicApplet>::empty(),
            final(self).workspaces == old(self).workspaces,
            final(self).active_workspace == old(self).active_workspace,
            final(self).next_workspace_id == old(self).next_workspace_id,
            final(self).launcher == old(self).launcher,
            final(self).notifications == old(self).notifications,
    {
        let panel = CosmicPanel { id: 1, height, position, applets: Vec::new() };
        self.panel = Some(panel);
        Ok(1)
    }

    /// Gives the shell a launcher, which replaces the one it had. It is
    /// hidden and offers nothing yet.
    pub fn create_launcher(&mut self) -> (r: Result<(), CosmicError>)
        ensures
            r == Ok::<(), CosmicError>(()),
            final(self).launcher is Some,
            final(self).launcher->Some_0.id == 1,
            !final(self).launcher->Some_0.visible,
            final(self).launcher->Some_0.search_text@ == Seq::<char>::empty(),
            final(self).launcher->Some_0.applications@ == Seq::<CosmicApplication>::empty(),
            final(self).workspaces == old(self).workspaces,
            final(self).active_workspace == old(self).active_workspace,
            final(self).next_workspace_id == old(self).next_workspace_id,
            final(self).panel == old(self).panel,
            final(self).notifications == old(self).notifications,
    {
        let launcher = CosmicLauncher {
            id: 1,
            visible: false,
            search_text: String::new(),
            applications: Vec::new(),
        };
        self.launcher = Some(launcher);
        Ok(())
    }

    /// Shows the launcher if it is hidden and hides it if it is shown, and
    /// clears its search text.
    pub fn toggle_launcher(&mut self) -> (r: Result<(), CosmicError>)
        ensures
            r == if old(self).launcher is Some {
                Ok::<(), CosmicError>(())
            } else {
                Err::<(), CosmicError>(CosmicError::InvalidConfiguration)
            },
            r is Ok ==> old(self).toggled(*final(self)),
            r is Err ==> *final(self) == *old(self),
    {
        match self.launcher.take() {
            Some(mut launcher) => {
                launcher.visible = !launcher.visible;
                launcher.search_text = String::new();
                self.launcher = Some(launcher);
                Ok(())
            },
            None => Err(CosmicError::InvalidConfiguration),
        }
    }

    /// Adds a notification that was raised at the time `timestamp` and
    /// answers its id: one more than the number of notifications there are.
    pub fn add_notification(
        &mut self,
        title: String,
        body: String,
        urgency: NotificationUrgency,
        timestamp: u64,
    ) -> (r: Result<u32, CosmicError>)
        ensures
            r == if old(self).notifications@.len() < u32::MAX {
                Ok::<u32, CosmicError>((old(self).notifications@.len() + 1) as u32)
            } else {
                Err::<u32, CosmicError>(CosmicError::SessionManagerError)
            },
            r is Err ==> *final(self) == *old(self),
            r is Ok ==> {
                &&& final(self).notifications@.len() == old(self).notifications@.len() + 1
                &&& final(self).notifications@.drop_last() == old(self).notifications@
                &&& final(self).notifications@.last().id == r->Ok_0
                &&& final(self).notifications@.last().title@ == title@
                &&& final(self).notifications@.last().body@ == body@
                &&& final(self).notifications@.last().timestamp == timestamp
                &&& final(self).notifications@.last().urgency == urgency
                &&& final(self).workspaces == old(self).workspaces
                &&& final(self).active_workspace == old(self).active_workspace
                &&& final(self).next_workspace_id == old(self).next_workspace_id
                &&& final(self).panel == old(self).panel
                &&& final(self).launcher == old(self).launcher
            },
    {
        let count = self.notifications.len();
        if count >= u32::MAX as usize {
            return Err(CosmicError::SessionManagerError);
        }
        let notification_id = count as u32 + 1;
        let notification = CosmicNotification {
            id: notification_id,
            title,
            body,
            timestamp,
            urgency,
        };
        self.notifications.push(notification);
        assert(self.notifications@.drop_last() =~= old(self).notifications@);
        Ok(notification_id)
    }

    /// Removes every notification with the id `notification_id`.
    pub fn remove_notification(&mut self, notification_id: u32) -> (r: Result<(), CosmicError>)
        ensures
            r == Ok::<(), CosmicError>(()),
            final(self).notifications@ == old(self).notifications@.filter(
                notification_other_than(notification_id),
            ),
            final(self).workspaces == old(self).workspaces,
            final(self).active_workspace == old(self).active_workspace,
            final(self).next_workspace_id == old(self).next_workspace_id,
            final(self).panel == old(self).panel,
            final(self).launcher == old(self).launcher,
    {
        let ghost all = self.notifications@;
        let ghost keep = notification_other_than(notification_id);
        let mut i: usize = self.notifications.len();
        assert(all.skip(i as int) =~= Seq::<CosmicNotification>::empty());
        assert(all.take(i as int) =~= all);
        assert(all + Seq::<CosmicNotification>::empty() =~= all);
        while i > 0
            invariant
                i <= all.len(),
                keep == notification_other_than(notification_id),
                self.notifications@ == all.take(i as int) + all.skip(i as int).filter(keep),
                self.workspaces == old(self).workspaces,
                self.active_workspace == old(self).active_workspace,
                self.next_workspace_id == old(self).next_workspace_id,
                self.panel == old(self).panel,
                self.launcher == old(self).launcher,
            decreases i,
        {
            i -= 1;
            let ghost tail = all.skip(i + 1);
            let ghost here = all[i as int];
            proof {
                assert(all.skip(i as int) =~= seq![here] + tail);
                Seq::filter_distributes_over_add(seq![here], tail, keep);
                assert(seq![here] =~= Seq::<CosmicNotification>::empty().push(here));
                Seq::<CosmicNotification>::empty().lemma_filter_push(here, keep);
                assert(Seq::<CosmicNotification>::empty().filter(keep) =~= Seq::<
                    CosmicNotification,
                >::empty());
                assert(all.take(i + 1) =~= all.take(i as int).push(here));
            }
            if self.notifications[i].id == notification_id {
                self.notifications.remove(i);
                assert(self.notifications@ =~= all.take(i as int) + all.skip(i as int).filter(
                    keep,
                ));
            } else {
                assert(self.notifications@ =~= all.take(i as int) + all.skip(i as int).filter(
                    keep,
                ));
            }
        }
        assert(all.take(0) + all.skip(0).filter(keep) =~= all.skip(0).filter(keep));
        assert(all.skip(0) =~= all);
        Ok(())
    }

    /// The active workspace, if there is one.
    pub fn get_active_workspace(&self) -> (found: Option<&CosmicWorkspace>)
        ensures
            found is Some <==> self.active_workspace is Some && self.workspaces@.contains_key(
                self.active_workspace->Some_0,
            ),
            found is Some ==> *found->Some_0 == self.workspaces@[self.active_workspace->Some_0],
    {
        match self.active_workspace {
            Some(id) => self.workspaces.get(&id),
            None => None,
        }
    }

    /// The active workspace, to be changed in place.
    pub fn get_active_workspace_mut(&mut self) -> (found: Option<&mut CosmicWorkspace>)
        ensures
            found is Some <==> old(self).active_workspace is Some && old(self).workspaces@.contains_key(old(self).active_workspace->Some_0),
            found is Some ==> *found->Some_0 == old(self).workspaces@[old(self).active_workspace->Some_0] && final(self).workspaces@ == old(self).workspaces@.insert(old(self).active_workspace->Some_0, *final(found->Some_0)),
            found is None ==> final(self).workspaces@ == old(self).workspaces@,
            final(self).active_workspace == old(self).active_workspace,
            final(self).next_workspace_id == old(self).next_workspace_id,
            final(self).panel == old(self).panel,
            final(self).launcher == old(self).launcher,
            final(self).notifications == old(self).notifications,
    {
        match self.active_workspace {
            Some(active_id) => btree_get_mut(&mut self.workspaces, active_id),
            None => None,
        }
    }
}

/// The parts of a session that the desktop works with. Each is `None`
/// until it is set up.
pub struct Session {
    pub display: Option<WaylandDisplay>,
    pub graphics: Option<Compositor>,
    pub input: Option<InputManager>,
}

/// The abstract state of a session.
pub struct SessionState {
    pub display: Option<DisplayState>,
    pub graphics: Option<CompositorState>,
    pub input: Option<InputState>,
}

impl View for Session {
    type V = SessionState;

    open spec fn view(&self) -> SessionState {
        SessionState {
            display: crate::wayland::slot_state(self.display),
            graphics: crate::graphics::slot_state(self.graphics),
            input: crate::input::slot_state(self.input),
        }
    }
}

impl SessionState {
    /// The graphics, where they are set up, satisfy their invariant.
    pub open spec fn wf(self) -> bool {
        self.graphics is Some ==> self.graphics->Some_0.wf()
    }

    /// What setting up a session for a screen of `width` by `height`
    /// pixels answers, up to the point where the shell is furnished.
    pub open spec fn setup_result(self, next_addr: u64, width: u32, height: u32) -> Result<
        (),
        CosmicError,
    > {
        if self.display is Some {
            Err(CosmicError::WaylandError(WaylandError::ProtocolError))
        } else if self.graphics is Some {
            Err(CosmicError::GraphicsError(GraphicsError::InvalidFramebuffer))
        } else if framebuffer_result(next_addr, width, height, PixelFormat::RGBA8888) is Err {
            lift_graphics(framebuffer_result(next_addr, width, height, PixelFormat::RGBA8888))
        } else if self.input is Some {
            Err(CosmicError::CompositorNotInitialized)
        } else {
            Ok(())
        }
    }

    /// The session after a set-up was tried: the display, the graphics,
    /// their framebuffer and the input are set up in this order, as far
    /// as the set-up got.
    pub open spec fn after_setup(self, next_addr: u64, width: u32, height: u32) -> SessionState {
        if self.display is Some {
            self
        } else if self.graphics is Some {
            SessionState { display: Some(DisplayState::empty()), ..self }
        } else if framebuffer_result(next_addr, width, height, PixelFormat::RGBA8888) is Err {
            SessionState {
                display: Some(DisplayState::empty()),
                graphics: Some(CompositorState::empty()),
                ..self
            }
        } else {
            SessionState {
                display: Some(DisplayState::empty()),
                graphics: Some(
                    CompositorState {
                        framebuffer: Some(
                            new_framebuffer(next_addr, width, height, PixelFormat::RGBA8888),
                        ),
                        ..CompositorState::empty()
                    },
                ),
                input: if self.input is Some {
                    self.input
                } else {
                    Some(InputState::initial())
                },
            }
        }
    }

    /// What a click on the desktop answers: the first window gets the
    /// focus of the graphics and of the input, where there is a window.
    pub open spec fn click_result(self) -> Result<(), CosmicError> {
        match self.graphics {
            Some(graphics) => if graphics.windows.len() as usize > 0 {
                if graphics.focus_result(Some(FIRST_WINDOW)) is Err {
                    lift_graphics(graphics.focus_result(Some(FIRST_WINDOW)))
                } else if self.input is None {
                    Err(CosmicError::CompositorNotInitialized)
                } else {
                    Ok(())
                }
            } else {
                Ok(())
            },
            None => Ok(()),
        }
    }

    /// The session after a click on the desktop.
    pub open spec fn after_click(self) -> SessionState {
        match self.graphics {
            Some(graphics) => if graphics.windows.len() as usize > 0 {
                SessionState {
                    graphics: Some(graphics.after_focus(Some(FIRST_WINDOW))),
                    input: if graphics.focus_result(Some(FIRST_WINDOW)) is Ok {
                        match self.input {
                            Some(input) => Some(
                                InputState { focus_window: Some(FIRST_WINDOW), ..input },
                            ),
                            None => None,
                        }
                    } else {
                        self.input
                    },
                    ..self
                }
            } else {
                self
            },
            None => self,
        }
    }

    /// What creating a window with its surface answers.
    pub open spec fn window_result(self) -> Result<u32, CosmicError> {
        match self.graphics {
            Some(graphics) => if graphics.next_window_id == u32::MAX
                || graphics.next_surface_id == u32::MAX {
                Err(CosmicError::GraphicsError(GraphicsError::OutOfMemory))
            } else {
                Ok(graphics.next_window_id)
            },
            None => Err(CosmicError::GraphicsError(GraphicsError::InvalidFramebuffer)),
        }
    }

    /// The graphics after a window of `width` by `height` pixels was
    /// created with a surface of its own. Where the surface cannot be
    /// created, the window stays behind without one.
    pub open spec fn after_window(self, title: Seq<char>, width: u32, height: u32) -> SessionState {
        match self.graphics {
            Some(graphics) => {
                let with_window = graphics.after_create_window(
                    title,
                    DEFAULT_WINDOW_POSITION,
                    DEFAULT_WINDOW_POSITION,
                    width,
                    height,
                );
                let with_surface = with_window.after_create_surface(
                    width,
                    height,
                    PixelFormat::RGBA8888,
                );
                SessionState {
                    graphics: Some(
                        if graphics.next_window_id == u32::MAX {
                            graphics
                        } else if graphics.next_surface_id == u32::MAX {
                            with_window
                        } else {
                            with_surface.after_attach(
                                graphics.next_window_id,
                                graphics.next_surface_id,
                            )
                        },
                    ),
                    ..self
                }
            },
            None => self,
        }
    }
}

/// The part of the desktop that input events change.
pub struct DesktopView {
    /// Whether the launcher is shown; `None` where there is no launcher.
    pub launcher_visible: Option<bool>,
    /// The search text of the launcher, where there is one.
    pub search_text: Option<Seq<char>>,
    pub active_workspace: Option<u32>,
    pub session: SessionState,
}

impl DesktopView {
    /// What the action `action` answers.
    pub open spec fn action_result(self, action: DesktopAction) -> Result<(), CosmicError> {
        match action {
            DesktopAction::ToggleLauncher => if self.launcher_visible is Some {
                Ok(())
            } else {
                Err(CosmicError::InvalidConfiguration)
            },
            DesktopAction::FocusFirstWindow => self.session.click_result(),
            _ => Ok(()),
        }
    }

    /// The desktop after the action `action`, where `workspaces` are the
    /// ids of the workspaces there are.
    pub open spec fn after_action(self, workspaces: Set<u32>, action: DesktopAction) -> DesktopView {
        match action {
            DesktopAction::Nothing => self,
            DesktopAction::ToggleLauncher => match self.launcher_visible {
                Some(visible) => DesktopView {
                    launcher_visible: Some(!visible),
                    search_text: Some(Seq::empty()),
                    ..self
                },
                None => self,
            },
            DesktopAction::SwitchWorkspace(number) => if workspaces.contains(number) {
                DesktopView { active_workspace: Some(number), ..self }
            } else {
                self
            },
            DesktopAction::FocusFirstWindow => DesktopView {
                session: self.session.after_click(),
                ..self
            },
        }
    }

    /// How many input events wait.
    pub open spec fn waiting(self) -> nat {
        match self.session.input {
            Some(input) => input.events.len(),
            None => 0,
        }
    }

    /// The desktop with the oldest input event taken from the queue.
    pub open spec fn popped(self) -> DesktopView {
        match self.session.input {
            Some(input) => DesktopView {
                session: SessionState {
                    input: Some(InputState { events: input.events.skip(1), ..input }),
                    ..self.session
                },
                ..self
            },
            None => self,
        }
    }

    /// The desktop after the oldest input event was taken and handled.
    pub open spec fn after_oldest(self, workspaces: Set<u32>, panel_height: Option<u32>) -> DesktopView {
        self.popped().after_action(
            workspaces,
            action_of(self.session.input->Some_0.events[0], panel_height),
        )
    }

    /// What handling the oldest input event answers.
    pub open spec fn oldest_result(self, panel_height: Option<u32>) -> Result<(), CosmicError> {
        self.popped().action_result(action_of(self.session.input->Some_0.events[0], panel_height))
    }

    /// The desktop after the waiting input events were handled, oldest
    /// first, up to and with the first that fails.
    pub open spec fn drained(self, workspaces: Set<u32>, panel_height: Option<u32>) -> DesktopView
        decreases self.waiting(),
    {
        if self.waiting() == 0 {
            self
        } else if self.oldest_result(panel_height) is Err {
            self.after_oldest(workspaces, panel_height)
        } else {
            self.after_oldest(workspaces, panel_height).drained(workspaces, panel_height)
        }
    }

    /// What handling the waiting input events answers: the failure of the
    /// first event that fails, if one does.
    pub open spec fn drain_result(self, workspaces: Set<u32>, panel_height: Option<u32>) -> Result<
        (),
        CosmicError,
    >
        decreases self.waiting(),
    {
        if self.waiting() == 0 {
            Ok(())
        } else if self.oldest_result(panel_height) is Err {
            self.oldest_result(panel_height)
        } else {
            self.after_oldest(workspaces, panel_height).drain_result(workspaces, panel_height)
        }
    }
}

/// What the desktop does about an input event.
#[derive(Debug, Clone, Copy, PartialEq, Eq, Structural)]
pub enum DesktopAction {
    /// The event does not concern the desktop.
    Nothing,
    /// Show or hide the launcher.
    ToggleLauncher,
    /// Make the workspace with this number the active one, if it exists.
    SwitchWorkspace(u32),
    /// Give the first window the focus.
    FocusFirstWindow,
}

/// The number of the workspace that the key `key` switches to, if it is
/// one of the number keys 1 to 9.
pub open spec fn workspace_of_key(key: KeyCode) -> Option<u32> {
    match key {
        KeyCode::Num1 => Some(1u32),
        KeyCode::Num2 => Some(2u32),
        KeyCode::Num3 => Some(3u32),
        KeyCode::Num4 => Some(4u32),
        KeyCode::Num5 => Some(5u32),
        KeyCode::Num6 => Some(6u32),
        KeyCode::Num7 => Some(7u32),
        KeyCode::Num8 => Some(8u32),
        KeyCode::Num9 => Some(9u32),
        _ => None,
    }
}

/// What the desktop does about the event `event` when the panel, if there
/// is one, has the height `panel_height`. The space key toggles the
/// launcher; a number key switches the workspace; a left click on the
/// panel toggles the launcher, and one below it gives the first window
/// the focus.
pub open spec fn action_of(event: InputEvent, panel_height: Option<u32>) -> DesktopAction {
    match event.event_type {
        InputEventType::KeyPress => match KeyCode::spec_from_u32(event.code) {
            Some(KeyCode::Space) => DesktopAction::ToggleLauncher,
            Some(key) => match workspace_of_key(key) {
                Some(number) => DesktopAction::SwitchWorkspace(number),
                None => DesktopAction::Nothing,
            },
            None => DesktopAction::Nothing,
        },
        InputEventType::MouseButtonPress => match MouseButton::spec_from_u32(event.code) {
            Some(MouseButton::Left) => if panel_height is Some && 0 <= event.y < (
            panel_height->Some_0 as i32) {
                DesktopAction::ToggleLauncher
            } else {
                DesktopAction::FocusFirstWindow
            },
            _ => DesktopAction::Nothing,
        },
        _ => DesktopAction::Nothing,
    }
}

/// What the desktop does about the event `event`.
pub fn decide(event: InputEvent, panel_height: Option<u32>) -> (action: DesktopAction)
    ensures
        action == action_of(event, panel_height),
{
    match event.event_type {
        InputEventType::KeyPress => match KeyCode::from_u32(event.code) {
            Some(KeyCode::Space) => DesktopAction::ToggleLauncher,
            Some(key) => {
                let code = key.code();
                if 2 <= code && code <= 10 {
                    DesktopAction::SwitchWorkspace(code - 1)
                } else {
                    DesktopAction::Nothing
                }
            },
            None => DesktopAction::Nothing,
        },
        InputEventType::MouseButtonPress => match MouseButton::from_u32(event.code) {
            Some(MouseButton::Left) => {
                match panel_height {
                    Some(height) => {
                        if event.y >= 0 && event.y < #[verifier::truncate]
                        (height as i32) {
                            DesktopAction::ToggleLauncher
                        } else {
                            DesktopAction::FocusFirstWindow
                        }
                    },
                    None => DesktopAction::FocusFirstWindow,
                }
            },
            _ => DesktopAction::Nothing,
        },
        _ => DesktopAction::Nothing,
    }
}

/// The desktop compositor: the shell and the size of the screen.
#[derive(Debug)]
pub struct CosmicCompositor {
    pub shell: CosmicShell,
    pub session_active: bool,
    pub display_width: u32,
    pub display_height: u32,
    pub next_notification_id: u32,
}

impl CosmicCompositor {
    /// A compositor for a screen of the given size whose session has not
    /// started.
    pub fn new(display_width: u32, display_height: u32) -> (compositor: CosmicCompositor)
        ensures
            compositor.shell.wf(),
            compositor.shell.workspaces@ == Map::<u32, CosmicWorkspace>::empty(),
            compositor.shell.active_workspace is None,
            compositor.shell.next_workspace_id == 1,
            compositor.shell.panel is None,
            compositor.shell.launcher is None,
            compositor.shell.notifications@ == Seq::<CosmicNotification>::empty(),
            !compositor.session_active,
            compositor.display_width == display_width,
            compositor.display_height == display_height,
            compositor.next_notification_id == 1,
    {
        CosmicCompositor {
            shell: CosmicShell::new(),
            session_active: false,
            display_width,
            display_height,
            next_notification_id: 1,
        }
    }

    /// Sets up the display, the graphics with a framebuffer of the size of
    /// the screen, and the input of `session`, as far as it gets.
    fn set_up_session(&self, session: &mut Session, pages: &mut PageAllocator) -> (r: Result<
        (),
        CosmicError,
    >)
        requires
            old(pages).wf(),
        ensures
            final(pages).wf(),
            r == old(session)@.setup_result(
                old(pages)@,
                self.display_width,
                self.display_height,
            ),
            final(session)@ == old(session)@.after_setup(
                old(pages)@,
                self.display_width,
                self.display_height,
            ),
            r is Ok ==> final(session)@.wf(),
            final(pages)@ == if old(session)@.display is None && old(session)@.graphics is None {
                pages_after_framebuffer(
                    old(pages)@,
                    self.display_width,
                    self.display_height,
                    PixelFormat::RGBA8888,
                )
            } else {
                old(pages)@
            },
    {
        match crate::wayland::wayland_init(&mut session.display) {
            Ok(_) => {},
            Err(e) => {
                return Err(CosmicError::from(e));
            },
        }
        match crate::graphics::graphics_init(&mut session.graphics) {
            Ok(_) => {},
            Err(e) => {
                return Err(CosmicError::from(e));
            },
        }
        match crate::graphics::graphics_init_framebuffer(
            &mut session.graphics,
            pages,
            self.display_width,
            self.display_height,
            PixelFormat::RGBA8888,
        ) {
            Ok(_) => {},
            Err(e) => {
                return Err(CosmicError::from(e));
            },
        }
        match crate::input::input_init(&mut session.input) {
            Ok(_) => {},
            Err(_) => {
                return Err(CosmicError::CompositorNotInitialized);
            },
        }
        Ok(())
    }

    /// Starts the session: sets up the display, the graphics and the input
    /// of `session`, and furnishes the shell with a first workspace, a
    /// panel at the top, and a launcher with the six programs that every
    /// session offers. Where a step fails, the session does not start; what
    /// was set up before stays.
    pub fn initialize(&mut self, session: &mut Session, pages: &mut PageAllocator) -> (r: Result<
        (),
        CosmicError,
    >)
        requires
            old(pages).wf(),
        ensures
            final(pages).wf(),
            final(self).display_width == old(self).display_width,
            final(self).display_height == old(self).display_height,
            final(self).next_notification_id == old(self).next_notification_id,
            r == if old(session)@.setup_result(
                old(pages)@,
                old(self).display_width,
                old(self).display_height,
            ) is Err {
                old(session)@.setup_result(
                    old(pages)@,
                    old(self).display_width,
                    old(self).display_height,
                )
            } else if old(self).shell.next_workspace_id == u32::MAX {
                Err::<(), CosmicError>(CosmicError::SessionManagerError)
            } else {
                Ok::<(), CosmicError>(())
            },
            r is Err ==> final(self).shell == old(self).shell && final(self).session_active == old(self).session_active,
            final(session)@ == old(session)@.after_setup(
                old(pages)@,
                old(self).display_width,
                old(self).display_height,
            ),
            final(pages)@ == if old(session)@.display is None && old(session)@.graphics is None {
                pages_after_framebuffer(
                    old(pages)@,
                    old(self).display_width,
                    old(self).display_height,
                    PixelFormat::RGBA8888,
                )
            } else {
                old(pages)@
            },
            r is Ok ==> {
                let id = old(self).shell.next_workspace_id;
                &&& final(self).session_active
                &&& final(session)@.wf()
                &&& final(self).shell.next_workspace_id == id + 1
                &&& changed_at(old(self).shell.workspaces@, final(self).shell.workspaces@, id)
                &&& is_new_workspace(final(self).shell.workspaces@[id], id, "Workspace 1"@)
                &&& final(self).shell.active_workspace == if old(self).shell.active_workspace
                    is None {
                    Some(id)
                } else {
                    old(self).shell.active_workspace
                }
                &&& final(self).shell.notifications == old(self).shell.notifications
                &&& final(self).shell.panel is Some
                &&& final(self).shell.panel->Some_0.id == 1
                &&& final(self).shell.panel->Some_0.height == DEFAULT_PANEL_HEIGHT
                &&& final(self).shell.panel->Some_0.position == PanelPosition::Top
                &&& final(self).shell.panel->Some_0.applets@ == Seq::<CosmicApplet>::empty()
                &&& final(self).shell.launcher is Some
                &&& final(self).shell.launcher->Some_0.id == 1
                &&& !final(self).shell.launcher->Some_0.visible
                &&& final(self).shell.launcher->Some_0.search_text@ == Seq::<char>::empty()
                &&& with_default_applications(
                    Seq::empty(),
                    final(self).shell.launcher->Some_0.applications@,
                )
            },
            old(self).shell.wf() ==> final(self).shell.wf(),
    {
        match self.set_up_session(session, pages) {
            Ok(_) => {},
            Err(e) => {
                return Err(e);
            },
        }
        match self.shell.create_workspace("Workspace 1".to_owned()) {
            Ok(_) => {},
            Err(e) => {
                return Err(e);
            },
        }
        let _ = self.shell.create_panel(DEFAULT_PANEL_HEIGHT, PanelPosition::Top);
        let _ = self.shell.create_launcher();
        let _ = self.add_default_applications();
        self.session_active = true;
        Ok(())
    }

    /// Adds the six programs that every session offers to the launcher,
    /// if there is one.
    fn add_default_applications(&mut self) -> (r: Result<(), CosmicError>)
        ensures
            r == Ok::<(), CosmicError>(()),
            final(self).session_active == old(self).session_active,
            final(self).display_width == old(self).display_width,
            final(self).display_height == old(self).display_height,
            final(self).next_notification_id == old(self).next_notification_id,
            final(self).shell.workspaces == old(self).shell.workspaces,
            final(self).shell.active_workspace == old(self).shell.active_workspace,
            final(self).shell.next_workspace_id == old(self).shell.next_workspace_id,
            final(self).shell.panel == old(self).shell.panel,
            final(self).shell.notifications == old(self).shell.notifications,
            final(self).shell.launcher is Some <==> old(self).shell.launcher is Some,
            old(self).shell.launcher is Some ==> {
                let before = old(self).shell.launcher->Some_0;
                let after = final(self).shell.launcher->Some_0;
                &&& after.id == before.id
                &&& after.visible == before.visible
                &&& after.search_text == before.search_text
                &&& with_default_applications(before.applications@, after.applications@)
            },
    {
        match self.shell.launcher.take() {
            Some(mut launcher) => {
                let ghost before = launcher.applications@;
                launcher.applications.push(
                    CosmicApplication {
                        id: 1,
                        name: "Terminal",
                        command: "cosmic-term",
                        icon: Some("terminal"),
                        surface_id: None,
                    },
                );
                launcher.applications.push(
                    CosmicApplication {
                        id: 2,
                        name: "Files",
                        command: "cosmic-files",
                        icon: Some("folder"),
                        surface_id: None,
                    },
                );
                launcher.applications.push(
                    CosmicApplication {
                        id: 3,
                        name: "Settings",
                        command: "cosmic-settings",
                        icon: Some("preferences-system"),
                        surface_id: None,
                    },
                );
                launcher.applications.push(
                    CosmicApplication {
                        id: 4,
                        name: "Text Editor",
                        command: "cosmic-edit",
                        icon: Some("text-editor"),
                        surface_id: None,
                    },
                );
                launcher.applications.push(
                    CosmicApplication {
                        id: 5,
                        name: "List Files (ls)",
                        command: "ls",
                        icon: Some("folder-open"),
                        surface_id: None,
                    },
                );
                launcher.applications.push(
                    CosmicApplication {
                        id: 6,
                        name: "Show Directory (pwd)",
                        command: "pwd",
                        icon: Some("folder"),
                        surface_id: None,
                    },
                );
                assert(launcher.applications@.take(before.len() as int) =~= before);
                self.shell.launcher = Some(launcher);
            },
            None => {},
        }
        Ok(())
    }

    /// Gives the first window the focus of the graphics and of the input,
    /// where the graphics are set up and there is a window.
    fn focus_window_at_position(session: &mut Session, _x: i32, _y: i32) -> (r: Result<
        (),
        CosmicError,
    >)
        ensures
            r == old(session)@.click_result(),
            final(session)@ == old(session)@.after_click(),
            old(session)@.wf() ==> final(session)@.wf(),
    {
        if session.graphics.is_none() {
            return Ok(());
        }
        let (window_count, _) = crate::graphics::graphics_get_stats(&session.graphics);
        if window_count > 0 {
            match crate::graphics::graphics_set_window_focus(
                &mut session.graphics,
                Some(FIRST_WINDOW),
            ) {
                Ok(_) => {},
                Err(e) => {
                    return Err(CosmicError::from(e));
                },
            }
            match crate::input::input_set_focus_window(&mut session.input, Some(FIRST_WINDOW)) {
                Ok(_) => {},
                Err(_) => {
                    return Err(CosmicError::CompositorNotInitialized);
                },
            }
        }
        Ok(())
    }

    /// Whether `after` and `after_session` are what the action `action`
    /// makes of the compositor `self` and the session `session`, with the
    /// answer `r`.
    pub open spec fn acted(
        self,
        session: SessionState,
        action: DesktopAction,
        after: CosmicCompositor,
        after_session: SessionState,
        r: Result<(), CosmicError>,
    ) -> bool {
        &&& after.session_active == self.session_active
        &&& after.display_width == self.display_width
        &&& after.display_height == self.display_height
        &&& after.next_notification_id == self.next_notification_id
        &&& match action {
            DesktopAction::Nothing => r is Ok && after.shell == self.shell && after_session
                == session,
            DesktopAction::ToggleLauncher => after_session == session && if self.shell.launcher
                is Some {
                r is Ok && self.shell.toggled(after.shell)
            } else {
                r == Err::<(), CosmicError>(CosmicError::InvalidConfiguration) && after.shell
                    == self.shell
            },
            DesktopAction::SwitchWorkspace(number) => r is Ok && after_session == session
                && after.shell == if self.shell.workspaces@.contains_key(number) {
                CosmicShell { active_workspace: Some(number), ..self.shell }
            } else {
                self.shell
            },
            DesktopAction::FocusFirstWindow => r == session.click_result() && after_session
                == session.after_click() && after.shell == self.shell,
        }
    }

    /// The part of the desktop that input events change.
    pub open spec fn desktop_view(self, session: SessionState) -> DesktopView {
        DesktopView {
            launcher_visible: self.shell.launcher_visible(),
            search_text: match self.shell.launcher {
                Some(launcher) => Some(launcher.search_text@),
                None => None,
            },
            active_workspace: self.shell.active_workspace,
            session,
        }
    }

    /// Carries out what the desktop does about an input event.
    pub fn act(&mut self, session: &mut Session, action: DesktopAction) -> (r: Result<
        (),
        CosmicError,
    >)
        ensures
            old(self).acted(old(session)@, action, *final(self), final(session)@, r),
            r == old(self).desktop_view(old(session)@).action_result(action),
            final(self).desktop_view(final(session)@) == old(self).desktop_view(
                old(session)@,
            ).after_action(old(self).shell.workspaces@.dom(), action),
            old(session)@.wf() ==> final(session)@.wf(),
            old(self).shell.wf() ==> final(self).shell.wf(),
    {
        match action {
            DesktopAction::Nothing => Ok(()),
            DesktopAction::ToggleLauncher => self.shell.toggle_launcher(),
            DesktopAction::SwitchWorkspace(number) => {
                if self.shell.workspaces.contains_key(&number) {
                    self.shell.switch_workspace(number)
                } else {
                    Ok(())
                }
            },
            DesktopAction::FocusFirstWindow => Self::focus_window_at_position(session, 0, 0),
        }
    }

    /// Handles one input event: the space key and a left click on the
    /// panel toggle the launcher, a number key switches to the workspace
    /// of that number, and a left click elsewhere gives the first window
    /// the focus.
    pub fn handle_input_event(&mut self, session: &mut Session, event: InputEvent) -> (r: Result<
        (),
        CosmicError,
    >)
        ensures
            old(self).acted(
                old(session)@,
                action_of(event, old(self).shell.panel_height()),
                *final(self),
                final(session)@,
                r,
            ),
            r == old(self).desktop_view(old(session)@).action_result(
                action_of(event, old(self).shell.panel_height()),
            ),
            final(self).desktop_view(final(session)@) == old(self).desktop_view(
                old(session)@,
            ).after_action(
                old(self).shell.workspaces@.dom(),
                action_of(event, old(self).shell.panel_height()),
            ),
            old(session)@.wf() ==> final(session)@.wf(),
            old(self).shell.wf() ==> final(self).shell.wf(),
    {
        let panel_height = match &self.shell.panel {
            Some(panel) => Some(panel.height),
            None => None,
        };
        let action = decide(event, panel_height);
        self.act(session, action)
    }

    /// Paints the picture of the session.
    pub fn render_frame(&mut self, session: &mut Session) -> (r: Result<(), CosmicError>)
        requires
            old(session)@.wf(),
        ensures
            final(session)@.wf(),
            *final(self) == *old(self),
            match old(session)@.graphics {
                Some(graphics) => r == lift_graphics(graphics.composite_result())
                    && final(session)@ == (SessionState {
                    graphics: Some(graphics.after_composite()),
                    ..old(session)@
                }),
                None => r == Err::<(), CosmicError>(
                    CosmicError::GraphicsError(GraphicsError::InvalidFramebuffer),
                ) && final(session)@ == old(session)@,
            },
    {
        match crate::graphics::graphics_composite(&mut session.graphics) {
            Ok(_) => Ok(()),
            Err(e) => Err(CosmicError::from(e)),
        }
    }

    /// Handles what has come in: the messages of the display, and then the
    /// input events that wait, oldest first, until the queue is empty or
    /// an event fails. An event changes the shell at most in the launcher
    /// being shown, its search text, and in the active workspace.
    pub fn process_events(&mut self, session: &mut Session) -> (r: Result<(), CosmicError>)
        requires
            old(session)@.wf(),
        ensures
            final(session)@.wf(),
            old(self).shell.wf() ==> final(self).shell.wf(),
            old(session)@.display is None ==> r == Err::<(), CosmicError>(
                CosmicError::WaylandError(WaylandError::InvalidResource),
            ) && *final(self) == *old(self) && final(session)@ == old(session)@,
            old(session)@.display is Some ==> r == old(self).desktop_view(
                old(session)@,
            ).drain_result(old(self).shell.workspaces@.dom(), old(self).shell.panel_height())
                && final(self).desktop_view(final(session)@) == old(self).desktop_view(
                old(session)@,
            ).drained(old(self).shell.workspaces@.dom(), old(self).shell.panel_height()),
            old(self).shell.same_but_view(final(self).shell),
            final(self).session_active == old(self).session_active,
            final(self).display_width == old(self).display_width,
            final(self).display_height == old(self).display_height,
            final(self).next_notification_id == old(self).next_notification_id,
    {
        match crate::wayland::wayland_dispatch_events(&mut session.display) {
            Ok(_) => {},
            Err(e) => {
                return Err(CosmicError::from(e));
            },
        }
        match crate::wayland::wayland_flush_clients(&mut session.display) {
            Ok(_) => {},
            Err(e) => {
                return Err(CosmicError::from(e));
            },
        }
        let ghost workspaces = self.shell.workspaces@.dom();
        let ghost panel_height = self.shell.panel_height();
        let ghost start = self.desktop_view(session@);
        loop
            invariant
                session@.wf(),
                old(self).shell.wf() ==> self.shell.wf(),
                old(session)@.display is Some,
                workspaces == old(self).shell.workspaces@.dom(),
                panel_height == old(self).shell.panel_height(),
                start == old(self).desktop_view(old(session)@),
                self.desktop_view(session@).drained(workspaces, panel_height) == start.drained(
                    workspaces,
                    panel_height,
                ),
                self.desktop_view(session@).drain_result(workspaces, panel_height)
                    == start.drain_result(workspaces, panel_height),
                old(self).shell.same_but_view(self.shell),
                self.session_active == old(self).session_active,
                self.display_width == old(self).display_width,
                self.display_height == old(self).display_height,
                self.next_notification_id == old(self).next_notification_id,
            decreases
                    match session@.input {
                        Some(input) => input.events.len(),
                        None => 0,
                    },
        {
            let event = match crate::input::input_pop_event(&mut session.input) {
                Some(event) => event,
                None => {
                    return Ok(());
                },
            };
            match self.handle_input_event(session, event) {
                Ok(_) => {},
                Err(e) => {
                    return Err(e);
                },
            }
        }
    }

    /// Creates a window of `width` by `height` pixels with a surface of
    /// its own, and puts it on the active workspace, if there is one.
    pub fn create_window(
        &mut self,
        session: &mut Session,
        title: &'static str,
        width: u32,
        height: u32,
    ) -> (r: Result<u32, CosmicError>)
        ensures
            old(session)@.wf() ==> final(session)@.wf(),
            old(self).shell.wf() ==> final(self).shell.wf(),
            final(session)@ == old(session)@.after_window(title@, width, height),
            final(self).session_active == old(self).session_active,
            final(self).display_width == old(self).display_width,
            final(self).display_height == old(self).display_height,
            final(self).next_notification_id == old(self).next_notification_id,
            old(self).shell.window_placed(old(session)@.window_result(), final(self).shell, r),
    {
        let window_id = match crate::graphics::graphics_create_window(
            &mut session.graphics,
            title,
            DEFAULT_WINDOW_POSITION,
            DEFAULT_WINDOW_POSITION,
            width,
            height,
        ) {
            Ok(id) => id,
            Err(e) => {
                return Err(CosmicError::from(e));
            },
        };
        let surface_id = match crate::graphics::graphics_create_surface(
            &mut session.graphics,
            width,
            height,
            PixelFormat::RGBA8888,
        ) {
            Ok(id) => id,
            Err(e) => {
                return Err(CosmicError::from(e));
            },
        };
        match crate::graphics::graphics_attach_surface_to_window(
            &mut session.graphics,
            window_id,
            surface_id,
        ) {
            Ok(_) => {},
            Err(e) => {
                return Err(CosmicError::from(e));
            },
        }
        if let Some(workspace_id) = self.shell.active_workspace {
            match self.shell.add_window_to_workspace(workspace_id, window_id) {
                Ok(_) => {},
                Err(e) => {
                    return Err(e);
                },
            }
        }
        Ok(window_id)
    }

    /// The shell.
    pub fn get_shell(&self) -> (shell: &CosmicShell)
        ensures
            *shell == self.shell,
    {
        &self.shell
    }

    /// The shell, to be changed in place.
    pub fn get_shell_mut(&mut self) -> (shell: &mut CosmicShell)
        ensures
            *shell == old(self).shell,
            *final(self) == (CosmicCompositor { shell: *final(shell), ..*old(self) }),
    {
        &mut self.shell
    }
}

/// Starts the desktop: creates the compositor for a screen of the given
/// size and starts its session. A second start is refused.
pub fn cosmic_init(
    slot: &mut Option<CosmicCompositor>,
    session: &mut Session,
    pages: &mut PageAllocator,
    display_width: u32,
    display_height: u32,
) -> (r: Result<(), CosmicError>)
    requires
        old(pages).wf(),
    ensures
        final(pages).wf(),
        r == if *old(slot) is Some {
            Err::<(), CosmicError>(CosmicError::CompositorNotInitialized)
        } else {
            old(session)@.setup_result(old(pages)@, display_width, display_height)
        },
        *old(slot) is Some ==> *final(slot) == *old(slot) && final(session)@ == old(session)@
            && final(pages)@ == old(pages)@,
        *old(slot) is None ==> final(session)@ == old(session)@.after_setup(
            old(pages)@,
            display_width,
            display_height,
        ) && final(pages)@ == if old(session)@.display is None && old(session)@.graphics
            is None {
            pages_after_framebuffer(
                old(pages)@,
                display_width,
                display_height,
                PixelFormat::RGBA8888,
            )
        } else {
            old(pages)@
        },
        r is Err ==> *final(slot) == *old(slot),
        r is Ok ==> {
            let shell = final(slot)->Some_0.shell;
            &&& *final(slot) is Some
            &&& final(slot)->Some_0.session_active
            &&& final(slot)->Some_0.display_width == display_width
            &&& final(slot)->Some_0.display_height == display_height
            &&& final(slot)->Some_0.next_notification_id == 1
            &&& final(session)@.wf()
            &&& shell.wf()
            &&& shell.next_workspace_id == 2
            &&& shell.workspaces@.dom() == set![1u32]
            &&& is_new_workspace(shell.workspaces@[1], 1, "Workspace 1"@)
            &&& shell.active_workspace == Some(1u32)
            &&& shell.notifications@ == Seq::<CosmicNotification>::empty()
            &&& shell.panel is Some
            &&& shell.panel->Some_0.id == 1
            &&& shell.panel->Some_0.height == DEFAULT_PANEL_HEIGHT
            &&& shell.panel->Some_0.position == PanelPosition::Top
            &&& shell.panel->Some_0.applets@ == Seq::<CosmicApplet>::empty()
            &&& shell.launcher is Some
            &&& shell.launcher->Some_0.id == 1
            &&& !shell.launcher->Some_0.visible
            &&& shell.launcher->Some_0.search_text@ == Seq::<char>::empty()
            &&& with_default_applications(Seq::empty(), shell.launcher->Some_0.applications@)
        },
{
    if slot.is_some() {
        return Err(CosmicError::CompositorNotInitialized);
    }
    let mut compositor = CosmicCompositor::new(display_width, display_height);
    match compositor.initialize(session, pages) {
        Ok(_) => {},
        Err(e) => {
            return Err(e);
        },
    }
    *slot = Some(compositor);
    Ok(())
}

/// The desktop compositor, if the desktop was started.
pub fn cosmic_get_compositor(slot: &mut Option<CosmicCompositor>) -> (found: Option<
    &mut CosmicCompositor,
>)
    ensures
        found is Some <==> *old(slot) is Some,
        found is Some ==> *found->Some_0 == old(slot)->Some_0 && *final(slot) == Some(
            *final(found->Some_0),
        ),
        found is None ==> *final(slot) == *old(slot),
{
    slot.as_mut()
}

/// Handles what has come in for the desktop.
pub fn cosmic_process_events(slot: &mut Option<CosmicCompositor>, session: &mut Session) -> (r:
    Result<(), CosmicError>)
    requires
        old(session)@.wf(),
    ensures
        final(session)@.wf(),
        *final(slot) is Some <==> *old(slot) is Some,
        *old(slot) is None ==> r == Err::<(), CosmicError>(CosmicError::CompositorNotInitialized)
            && final(session)@ == old(session)@,
        *old(slot) is Some ==> {
            let before = old(slot)->Some_0;
            let after = final(slot)->Some_0;
            let view = before.desktop_view(old(session)@);
            &&& before.shell.same_but_view(after.shell)
            &&& after.session_active == before.session_active
            &&& old(session)@.display is None ==> r == Err::<(), CosmicError>(
                CosmicError::WaylandError(WaylandError::InvalidResource),
            ) && after == before && final(session)@ == old(session)@
            &&& old(session)@.display is Some ==> r == view.drain_result(
                before.shell.workspaces@.dom(),
                before.shell.panel_height(),
            ) && after.desktop_view(final(session)@) == view.drained(
                before.shell.workspaces@.dom(),
                before.shell.panel_height(),
            )
        },
{
    match slot {
        Some(compositor) => compositor.process_events(session),
        None => Err(CosmicError::CompositorNotInitialized),
    }
}

/// Paints the picture of the desktop.
pub fn cosmic_render_frame(slot: &mut Option<CosmicCompositor>, session: &mut Session) -> (r:
    Result<(), CosmicError>)
    requires
        old(session)@.wf(),
    ensures
        final(session)@.wf(),
        *final(slot) == *old(slot),
        *old(slot) is None ==> r == Err::<(), CosmicError>(CosmicError::CompositorNotInitialized)
            && final(session)@ == old(session)@,
        *old(slot) is Some ==> match old(session)@.graphics {
            Some(graphics) => r == lift_graphics(graphics.composite_result()) && final(session)@
                == (SessionState { graphics: Some(graphics.after_composite()), ..old(session)@ }),
            None => r == Err::<(), CosmicError>(
                CosmicError::GraphicsError(GraphicsError::InvalidFramebuffer),
            ) && final(session)@ == old(session)@,
        },
{
    match slot {
        Some(compositor) => compositor.render_frame(session),
        None => Err(CosmicError::CompositorNotInitialized),
    }
}

/// Creates a window on the desktop.
pub fn cosmic_create_window(
    slot: &mut Option<CosmicCompositor>,
    session: &mut Session,
    title: &'static str,
    width: u32,
    height: u32,
) -> (r: Result<u32, CosmicError>)
    ensures
        old(session)@.wf() ==> final(session)@.wf(),
        *final(slot) is Some <==> *old(slot) is Some,
        *old(slot) is None ==> r == Err::<u32, CosmicError>(CosmicError::CompositorNotInitialized)
            && final(session)@ == old(session)@,
        *old(slot) is Some ==> {
            let before = old(slot)->Some_0;
            let after = final(slot)->Some_0;
            &&& final(session)@ == old(session)@.after_window(title@, width, height)
            &&& before.shell.window_placed(old(session)@.window_result(), after.shell, r)
            &&& after.session_active == before.session_active
            &&& after.display_width == before.display_width
            &&& after.display_height == before.display_height
            &&& after.next_notification_id == before.next_notification_id
        },
{
    match slot {
        Some(compositor) => compositor.create_window(session, title, width, height),
        None => Err(CosmicError::CompositorNotInitialized),
    }
}

/// Raises a notification at the time `timestamp`.
pub fn cosmic_show_notification(
    slot: &mut Option<CosmicCompositor>,
    title: String,
    body: String,
    urgency: NotificationUrgency,
    timestamp: u64,
) -> (r: Result<u32, CosmicError>)
    ensures
        *final(slot) is Some <==> *old(slot) is Some,
        *old(slot) is None ==> r == Err::<u32, CosmicError>(CosmicError::CompositorNotInitialized),
        *old(slot) is Some ==> {
            let before = old(slot)->Some_0.shell.notifications@;
            let after = final(slot)->Some_0.shell.notifications@;
            &&& r == if before.len() < u32::MAX {
                Ok::<u32, CosmicError>((before.len() + 1) as u32)
            } else {
                Err::<u32, CosmicError>(CosmicError::SessionManagerError)
            }
            &&& r is Err ==> *final(slot) == *old(slot)
            &&& r is Ok ==> after.len() == before.len() + 1 && after.drop_last() == before
                && after.last().id == r->Ok_0 && after.last().title@ == title@
                && after.last().body@ == body@ && after.last().timestamp == timestamp
                && after.last().urgency == urgency
        },
{
    match slot {
        Some(compositor) => compositor.shell.add_notification(title, body, urgency, timestamp),
        None => Err(CosmicError::CompositorNotInitialized),
    }
}

/// Shows or hides the launcher of the desktop.
pub fn cosmic_toggle_launcher(slot: &mut Option<CosmicCompositor>) -> (r: Result<(), CosmicError>)
    ensures
        *final(slot) is Some <==> *old(slot) is Some,
        *old(slot) is None ==> r == Err::<(), CosmicError>(CosmicError::CompositorNotInitialized),
        *old(slot) is Some ==> {
            &&& r == if old(slot)->Some_0.shell.launcher is Some {
                Ok::<(), CosmicError>(())
            } else {
                Err::<(), CosmicError>(CosmicError::InvalidConfiguration)
            }
            &&& r is Ok ==> old(slot)->Some_0.shell.toggled(final(slot)->Some_0.shell)
            &&& r is Err ==> *final(slot) == *old(slot)
        },
{
    match slot {
        Some(compositor) => compositor.shell.toggle_launcher(),
        None => Err(CosmicError::CompositorNotInitialized),
    }
}

/// Makes the workspace `workspace_id` the active one.
pub fn cosmic_switch_workspace(slot: &mut Option<CosmicCompositor>, workspace_id: u32) -> (r:
    Result<(), CosmicError>)
    ensures
        *final(slot) is Some <==> *old(slot) is Some,
        *old(slot) is None ==> r == Err::<(), CosmicError>(CosmicError::CompositorNotInitialized),
        *old(slot) is Some ==> {
            &&& r == if old(slot)->Some_0.shell.workspaces@.contains_key(workspace_id) {
                Ok::<(), CosmicError>(())
            } else {
                Err::<(), CosmicError>(CosmicError::InvalidConfiguration)
            }
            &&& final(slot)->Some_0.shell == if r is Ok {
                CosmicShell { active_workspace: Some(workspace_id), ..old(slot)->Some_0.shell }
            } else {
                old(slot)->Some_0.shell
            }
        },
{
    match slot {
        Some(compositor) => compositor.shell.switch_workspace(workspace_id),
        None => Err(CosmicError::CompositorNotInitialized),
    }
}

/// Whether the session of the desktop runs.
pub fn cosmic_is_session_active(slot: &Option<CosmicCompositor>) -> (active: bool)
    ensures
        active == match *slot {
            Some(compositor) => compositor.session_active,
            None => false,
        },
{
    match slot {
        Some(compositor) => compositor.session_active,
        None => false,
    }
}

} // verus!
