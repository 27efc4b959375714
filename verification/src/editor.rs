use vstd::prelude::*;

verus! {

/// Special keys a widget reacts to.
#[derive(PartialEq, Eq, Structural, Clone, Copy, Debug)]
pub enum WidgetKey {
    Escape,
    Return,
    Delete,
    Tab,
    Space,
    Up,
    Right,
    Down,
    Left,
}

/// A rectangle: x, y, width, height.
pub type Rect = (usize, usize, usize, usize);

/// Whether the position lies inside the rectangle.
pub open spec fn rect_contains(rect: Rect, pos: (usize, usize)) -> bool {
    rect.0 <= pos.0 < rect.0 + rect.2 && rect.1 <= pos.1 < rect.1 + rect.3
}

/// Drawing primitives of the editor's screen. A slice keeps its length, which the
/// contracts restate.
pub trait Draw2D {
    /// The frame that filling the rectangle of the given frame with the color makes.
    /// Implementations say what they draw; this default draws nothing.
    open spec fn rect_drawn(&self, frame: Seq<u8>, rect: Rect, stride: usize, color: [u8; 4]) -> Seq<u8> {
        frame
    }

    /// Fills the rectangle of a frame with the color.
    fn draw_rect(&self, frame: &mut [u8], rect: &Rect, stride: usize, color: &[u8; 4])
        ensures
            final(frame)@.len() == old(frame)@.len(),
            final(frame)@ == self.rect_drawn(old(frame)@, *rect, stride, *color);

    /// The destination that copying the source pixels into its rectangle makes.
    /// Implementations say what they copy; this default copies nothing.
    open spec fn slice_copied(&self, dest: Seq<u8>, source: Seq<u8>, rect: Rect, dest_stride: usize) -> Seq<u8> {
        dest
    }

    /// Copies the source pixels into the rectangle of the destination.
    fn copy_slice(&self, dest: &mut [u8], source: &[u8], rect: &Rect, dest_stride: usize)
        ensures
            final(dest)@.len() == old(dest)@.len(),
            final(dest)@ == self.slice_copied(old(dest)@, source@, *rect, dest_stride);
}

/// The state of the editor screen the code editor works with.
pub struct ScreenContext<D: Draw2D> {
    pub draw2d: D,
    pub color_black: [u8; 4],
    /// Whether the code editor is open.
    pub code_editor_is_active: bool,
    /// The code being edited.
    pub code_editor_value: String,
    /// Whether the node the code belongs to has to take the new code.
    pub code_editor_update_node: bool,
}

/// A text editor that can be embedded in a widget.
pub trait TextEditorWidget {
    /// The font the editor draws and measures text with.
    type Font;

    /// The text being edited. Implementations describe themselves through this and the
    /// following spec functions; the defaults describe an editor without text, room or
    /// reaction to the mouse.
    open spec fn text_view(&self) -> Seq<char> {
        Seq::empty()
    }

    /// The rectangle the editor occupies inside its widget.
    open spec fn rect_view(&self) -> Rect {
        (0, 0, 0, 0)
    }

    /// Whether the editor consumes a key.
    open spec fn takes_key(&self, char: Option<char>, key: Option<WidgetKey>, font: &Self::Font) -> bool {
        false
    }

    /// Whether the editor consumes a mouse press at the position.
    open spec fn takes_mouse_down(&self, pos: (usize, usize), font: &Self::Font) -> bool {
        false
    }

    /// Whether the editor consumes a mouse release at the position.
    open spec fn takes_mouse_up(&self, pos: (usize, usize), font: &Self::Font) -> bool {
        false
    }

    /// Whether the editor consumes a mouse drag to the position.
    open spec fn takes_mouse_dragged(&self, pos: (usize, usize), font: &Self::Font) -> bool {
        false
    }

    /// Whether the editor consumes a mouse wheel movement.
    open spec fn takes_mouse_wheel(&self, delta: (isize, isize), font: &Self::Font) -> bool {
        false
    }

    /// An empty editor.
    fn new() -> (e: Self) where Self: Sized
        ensures
            e.text_view() == Seq::<char>::empty();

    /// Returns the rectangle the editor occupies inside its widget.
    fn rect(&self) -> (r: Rect)
        ensures
            r == self.rect_view();

    /// Returns the text being edited.
    fn text(&self) -> (r: String)
        ensures
            r@ == self.text_view();

    /// Replaces the text.
    fn set_text(&mut self, text: String)
        ensures
            final(self).text_view() == text@;

    /// Draws the editor into the frame.
    fn draw(&mut self, frame: &mut [u8], rect: Rect, stride: usize, font: &Self::Font)
        ensures
            final(frame)@.len() == old(frame)@.len();

    /// Handles a key; returns whether it was consumed.
    fn key_down(&mut self, char: Option<char>, key: Option<WidgetKey>, font: &Self::Font) -> (r: bool)
        ensures
            r == old(self).takes_key(char, key, font);

    /// Handles a mouse press at a position relative to the editor; returns whether it
    /// was consumed.
    fn mouse_down(&mut self, pos: (usize, usize), font: &Self::Font) -> (r: bool)
        ensures
            r == old(self).takes_mouse_down(pos, font);

    /// Handles a mouse release at a position relative to the editor; returns whether it
    /// was consumed.
    fn mouse_up(&mut self, pos: (usize, usize), font: &Self::Font) -> (r: bool)
        ensures
            r == old(self).takes_mouse_up(pos, font);

    /// Handles a mouse drag to a position relative to the editor; returns whether it was
    /// consumed.
    fn mouse_dragged(&mut self, pos: (usize, usize), font: &Self::Font) -> (r: bool)
        ensures
            r == old(self).takes_mouse_dragged(pos, font);

    /// Handles a mouse wheel movement; returns whether it was consumed.
    fn mouse_wheel(&mut self, delta: (isize, isize), font: &Self::Font) -> (r: bool)
        ensures
            r == old(self).takes_mouse_wheel(delta, font);
}

/// A widget that shows a code editor over the screen, drawing it into its own buffer.
pub struct CodeEditorWidget<E: TextEditorWidget> {
    pub rect: Rect,
    /// Whether the buffer has to be drawn again.
    pub dirty: bool,
    pub buffer: Vec<u8>,
    pub editor: E,
}

/// The position relative to the widget's rectangle.
pub open spec fn to_local(rect: Rect, pos: (usize, usize)) -> (usize, usize) {
    ((pos.0 - rect.0) as usize, (pos.1 - rect.1) as usize)
}

/// Where a mouse event at a screen position reaches the editor: inside the editor's
/// rectangle (relative to the widget), relative to the editor; a drag gets the
/// editor's left edge as its x coordinate. `None` outside the editor.
pub open spec fn editor_event_pos(widget: Rect, editor: Rect, pos: (usize, usize), drag: bool) -> Option<(usize, usize)> {
    let local = to_local(widget, pos);
    if rect_contains(editor, local) {
        if drag {
            Some((editor.0, (local.1 - editor.1) as usize))
        } else {
            Some(((local.0 - editor.0) as usize, (local.1 - editor.1) as usize))
        }
    } else {
        None
    }
}

/// Computes where a mouse event at a screen position reaches the editor; see
/// [`editor_event_pos`].
pub fn editor_position(widget: Rect, editor: Rect, pos: (usize, usize), drag: bool) -> (r: Option<(usize, usize)>)
    requires
        pos.0 >= widget.0,
        pos.1 >= widget.1,
    ensures
        r == editor_event_pos(widget, editor, pos, drag),
{
    let local = (pos.0 - widget.0, pos.1 - widget.1);
    if local.0 >= editor.0 && local.0 - editor.0 < editor.2 && local.1 >= editor.1 && local.1 - editor.1 < editor.3 {
        if drag {
            Some((editor.0, local.1 - editor.1))
        } else {
            Some((local.0 - editor.0, local.1 - editor.1))
        }
    } else {
        None
    }
}

impl<E: TextEditorWidget> CodeEditorWidget<E> {
    /// A widget with a new, empty editor in the rectangle (the text lines are not loaded
    /// into it); it is drawn on first use.
    pub fn new<D: Draw2D>(_text: Vec<String>, rect: Rect, _context: &ScreenContext<D>) -> (w: Self)
        ensures
            w.editor.text_view() == Seq::<char>::empty(),
            w.rect == rect,
            w.dirty,
            w.buffer@ == seq![0u8],
    {
        let editor = E::new();
        let buffer = vec![0u8; 1];
        CodeEditorWidget { rect, dirty: true, buffer, editor }
    }

    /// Sets the code being edited.
    pub fn set_code(&mut self, value: String)
        ensures
            final(self).editor.text_view() == value@,
            final(self).rect == old(self).rect,
            final(self).dirty == old(self).dirty,
            final(self).buffer == old(self).buffer,
    {
        self.editor.set_text(value);
    }

    /// Resizes the widget.
    pub fn _resize(&mut self, width: usize, height: usize)
        ensures
            *final(self) == (CodeEditorWidget { rect: (old(self).rect.0, old(self).rect.1, width, height), ..*old(self) }),
    {
        self.rect.2 = width;
        self.rect.3 = height;
    }

    /// Clears the buffer and fills it black: every byte is set to zero, then the
    /// rectangle of the widget's size is drawn in black.
    fn clear_buffer<D: Draw2D>(&mut self, context: &ScreenContext<D>)
        ensures
            final(self).rect == old(self).rect,
            final(self).dirty == old(self).dirty,
            final(self).editor == old(self).editor,
            final(self).buffer@.len() == old(self).buffer@.len(),
            final(self).buffer@ == context.draw2d.rect_drawn(
                Seq::new(old(self).buffer@.len(), |i: int| 0u8),
                (0, 0, old(self).rect.2, old(self).rect.3),
                old(self).rect.2,
                context.color_black,
            ),
    {
        let n = self.buffer.len();
        let mut i: usize = 0;
        while i < n
            invariant
                i <= n,
                n == self.buffer@.len(),
                self.rect == old(self).rect,
                self.dirty == old(self).dirty,
                self.editor == old(self).editor,
                self.buffer@.len() == old(self).buffer@.len(),
                forall|k: int| 0 <= k < i ==> self.buffer@[k] == 0u8,
            decreases n - i,
        {
            self.buffer.set(i, 0);
            i = i + 1;
        }
        assert(self.buffer@ =~= Seq::new(old(self).buffer@.len(), |i: int| 0u8));
        let safe_rect: Rect = (0, 0, self.rect.2, self.rect.3);
        let stride = self.rect.2;
        context.draw2d.draw_rect(self.buffer.as_mut_slice(), &safe_rect, stride, &context.color_black);
    }

    /// Draws the widget into the frame at the rectangle. The buffer is made the size of
    /// the rectangle (four bytes a pixel) and drawn again where it changed; the editor is
    /// drawn with a margin of 200 pixels on the left, 50 on top, 100 on the right and 50
    /// at the bottom.
    pub fn draw<D: Draw2D>(
        &mut self,
        frame: &mut [u8],
        rect: Rect,
        _anim_counter: usize,
        font: &E::Font,
        context: &mut ScreenContext<D>,
    )
        requires
            rect.2 * rect.3 * 4 <= usize::MAX,
            (old(self).dirty || old(self).buffer@.len() != rect.2 * rect.3 * 4) ==> (rect.2 >= 300 && rect.3 >= 100),
        ensures
            final(self).rect == rect,
            !final(self).dirty,
            final(self).buffer@.len() == rect.2 * rect.3 * 4,
            final(context).code_editor_is_active == old(context).code_editor_is_active,
            final(context).code_editor_value == old(context).code_editor_value,
            final(context).code_editor_update_node == old(context).code_editor_update_node,
            final(context).draw2d == old(context).draw2d,
            final(context).color_black == old(context).color_black,
            !old(self).dirty && old(self).buffer@.len() == rect.2 * rect.3 * 4 ==> final(self).buffer == old(self).buffer
                && final(self).editor == old(self).editor,
            final(frame)@ == old(context).draw2d.slice_copied(old(frame)@, final(self).buffer@, rect, rect.2),
    {
        let size = rect.2 * rect.3 * 4;
        if self.buffer.len() != size {
            self.buffer = vec![0u8; size];
            self.dirty = true;
        }
        self.rect = rect;
        if self.dirty {
            self.clear_buffer(context);
            let editor_rect: Rect = (200, 50, rect.2 - 300, rect.3 - 100);
            let stride = rect.2;
            self.editor.draw(self.buffer.as_mut_slice(), editor_rect, stride, font);
        }
        self.dirty = false;
        context.draw2d.copy_slice(frame, self.buffer.as_slice(), &rect, rect.2);
    }

    /// Handles a key: Escape closes the code editor; a key the editor consumes marks the
    /// widget for drawing and hands the code to the node.
    pub fn key_down<D: Draw2D>(
        &mut self,
        char: Option<char>,
        key: Option<WidgetKey>,
        font: &E::Font,
        context: &mut ScreenContext<D>,
    ) -> (r: bool)
        ensures
            key == Some(WidgetKey::Escape) ==> {
                &&& r
                &&& *final(self) == *old(self)
                &&& !final(context).code_editor_is_active
                &&& final(context).code_editor_value == old(context).code_editor_value
                &&& final(context).code_editor_update_node == old(context).code_editor_update_node
            },
            key != Some(WidgetKey::Escape) ==> {
                &&& r == old(self).editor.takes_key(char, key, font)
                &&& final(self).rect == old(self).rect
                &&& final(self).buffer == old(self).buffer
                &&& if r {
                    &&& final(self).dirty
                    &&& *final(context) == (ScreenContext {
                        code_editor_value: final(context).code_editor_value,
                        code_editor_update_node: true,
                        ..*old(context)
                    })
                    &&& final(context).code_editor_value@ == final(self).editor.text_view()
                } else {
                    &&& final(self).dirty == old(self).dirty
                    &&& *final(context) == *old(context)
                }
            },
    {
        match key {
            Some(WidgetKey::Escape) => {
                context.code_editor_is_active = false;
                return true;
            },
            _ => {},
        }
        let consumed = self.editor.key_down(char, key, font);
        if consumed {
            self.dirty = true;
            context.code_editor_value = self.editor.text();
            context.code_editor_update_node = true;
        }
        consumed
    }

    /// Handles a mouse press: inside the editor it goes to the editor, relative to it;
    /// elsewhere it is not consumed and nothing changes.
    pub fn mouse_down<D: Draw2D>(&mut self, pos: (usize, usize), font: &E::Font, context: &mut ScreenContext<D>) -> (r: bool)
        requires
            pos.0 >= old(self).rect.0,
            pos.1 >= old(self).rect.1,
        ensures
            final(self).rect == old(self).rect,
            final(self).dirty == old(self).dirty,
            final(self).buffer == old(self).buffer,
            *final(context) == *old(context),
            match editor_event_pos(old(self).rect, old(self).editor.rect_view(), pos, false) {
                Some(p) => r == old(self).editor.takes_mouse_down(p, font),
                None => !r && final(self).editor == old(self).editor,
            },
    {
        let er = self.editor.rect();
        match editor_position(self.rect, er, pos, false) {
            Some(local_pos) => self.editor.mouse_down(local_pos, font),
            None => false,
        }
    }

    /// Handles a mouse release: inside the editor it goes to the editor, relative to it;
    /// elsewhere it is not consumed and nothing changes.
    pub fn mouse_up<D: Draw2D>(&mut self, pos: (usize, usize), font: &E::Font, context: &mut ScreenContext<D>) -> (r: bool)
        requires
            pos.0 >= old(self).rect.0,
            pos.1 >= old(self).rect.1,
        ensures
            final(self).rect == old(self).rect,
            final(self).dirty == old(self).dirty,
            final(self).buffer == old(self).buffer,
            *final(context) == *old(context),
            match editor_event_pos(old(self).rect, old(self).editor.rect_view(), pos, false) {
                Some(p) => r == old(self).editor.takes_mouse_up(p, font),
                None => !r && final(self).editor == old(self).editor,
            },
    {
        let mut consumed = false;
        let er = self.editor.rect();
        match editor_position(self.rect, er, pos, false) {
            Some(local_pos) => consumed = self.editor.mouse_up(local_pos, font),
            None => {},
        }
        consumed
    }

    /// Handles a mouse drag: inside the editor it goes to the editor, whose x coordinate
    /// it receives as the editor's left edge and y relative to the editor; elsewhere it is
    /// not consumed and nothing changes.
    pub fn mouse_dragged<D: Draw2D>(&mut self, pos: (usize, usize), font: &E::Font, context: &mut ScreenContext<D>) -> (r: bool)
        requires
            pos.0 >= old(self).rect.0,
            pos.1 >= old(self).rect.1,
        ensures
            final(self).rect == old(self).rect,
            final(self).dirty == old(self).dirty,
            final(self).buffer == old(self).buffer,
            *final(context) == *old(context),
            match editor_event_pos(old(self).rect, old(self).editor.rect_view(), pos, true) {
                Some(p) => r == old(self).editor.takes_mouse_dragged(p, font),
                None => !r && final(self).editor == old(self).editor,
            },
    {
        let mut consumed = false;
        let er = self.editor.rect();
        match editor_position(self.rect, er, pos, true) {
            Some(local_pos) => consumed = self.editor.mouse_dragged(local_pos, font),
            None => {},
        }
        consumed
    }

    /// Hands a mouse wheel movement to the editor.
    pub fn mouse_wheel<D: Draw2D>(&mut self, delta: (isize, isize), font: &E::Font, _context: &mut ScreenContext<D>) -> (r: bool)
        ensures
            r == old(self).editor.takes_mouse_wheel(delta, font),
            final(self).rect == old(self).rect,
            final(self).dirty == old(self).dirty,
            final(self).buffer == old(self).buffer,
    {
        let consumed;
        consumed = self.editor.mouse_wheel(delta, font);
        consumed
    }
}

// ---------------------------------------------------------------------------
// Server state icons

/// The states of the game server the editor runs.
#[derive(PartialEq, Eq, Structural, Clone, Copy, Debug)]
pub enum ServerState {
    Stopped,
    Running,
    Paused,
}

/// The icons of the Play, Pause and Stop buttons for a server state: the button of the
/// current state is filled.
pub open spec fn state_icons(state: ServerState) -> (Seq<char>, Seq<char>, Seq<char>) {
    match state {
        ServerState::Running => ("play-fill"@, "play-pause"@, "stop"@),
        ServerState::Paused => ("play"@, "play-pause-fill"@, "stop"@),
        ServerState::Stopped => ("play"@, "play-pause"@, "stop-fill"@),
    }
}

/// Returns the icon names of the Play, Pause and Stop buttons for the server state.
pub fn server_state_icons(state: ServerState) -> (r: (String, String, String))
    ensures
        (r.0@, r.1@, r.2@) == state_icons(state),
{
    match state {
        ServerState::Running => (String::from_str("play-fill"), String::from_str("play-pause"), String::from_str("stop")),
        ServerState::Paused => (String::from_str("play"), String::from_str("play-pause-fill"), String::from_str("stop")),
        ServerState::Stopped => (String::from_str("play"), String::from_str("play-pause"), String::from_str("stop-fill")),
    }
}

/// What happens in the editor that concerns its game server.
#[derive(PartialEq, Eq, Structural, Clone, Copy, Debug)]
pub enum ServerEvent {
    /// The Play button was pressed.
    Play,
    /// The Pause button was pressed.
    Pause,
    /// The Stop button was pressed.
    Stop,
    /// A project was loaded.
    ProjectLoaded,
    /// A frame of the editor passed.
    Frame,
}

/// What the editor does with its server for an event.
#[derive(PartialEq, Eq, Structural, Clone, Copy, Debug)]
pub enum ServerAction {
    /// Nothing.
    Idle,
    /// Start the server, clear its interactions and debug messages, and tell that it was
    /// started.
    Start,
    /// Tell that the server was paused.
    Paused,
    /// Run one tick of the client and the server.
    Tick,
    /// Hand the server the project again and stop it.
    Stop,
}

/// The editor's step for a server event: the state the editor then sets (none where it
/// leaves it to the server), what it does with the server, and whether the Play, Pause
/// and Stop icons are shown anew. Play starts the server; Pause pauses a running server
/// and ticks a paused one once; Stop stops it; loading a project stops it; and every
/// frame ticks a running server.
pub open spec fn server_step_of(state: ServerState, event: ServerEvent) -> (Option<ServerState>, ServerAction, bool) {
    match event {
        ServerEvent::Play => (None, ServerAction::Start, true),
        ServerEvent::Pause => match state {
            ServerState::Running => (Some(ServerState::Paused), ServerAction::Paused, true),
            ServerState::Paused => (None, ServerAction::Tick, false),
            ServerState::Stopped => (None, ServerAction::Idle, false),
        },
        ServerEvent::Stop => (None, ServerAction::Stop, true),
        ServerEvent::ProjectLoaded => (Some(ServerState::Stopped), ServerAction::Idle, true),
        ServerEvent::Frame => match state {
            ServerState::Running => (None, ServerAction::Tick, false),
            _ => (None, ServerAction::Idle, false),
        },
    }
}

/// Decides the editor's step for a server event; see [`server_step_of`].
pub fn server_step(state: ServerState, event: ServerEvent) -> (r: (Option<ServerState>, ServerAction, bool))
    ensures
        r == server_step_of(state, event),
{
    match event {
        ServerEvent::Play => (None, ServerAction::Start, true),
        ServerEvent::Pause => match state {
            ServerState::Running => (Some(ServerState::Paused), ServerAction::Paused, true),
            ServerState::Paused => (None, ServerAction::Tick, false),
            ServerState::Stopped => (None, ServerAction::Idle, false),
        },
        ServerEvent::Stop => (None, ServerAction::Stop, true),
        ServerEvent::ProjectLoaded => (Some(ServerState::Stopped), ServerAction::Idle, true),
        ServerEvent::Frame => match state {
            ServerState::Running => (None, ServerAction::Tick, false),
            _ => (None, ServerAction::Idle, false),
        },
    }
}

/// The editor's reaction to changes of the server state.
pub trait EldironEditor {
    /// The user interface whose buttons show the server state.
    type Ui;

    /// The state of the server the editor runs. Implementations describe themselves
    /// through this and [`EldironEditor::button_icon`]; the defaults describe a stopped
    /// server and an interface without buttons.
    open spec fn state_view(&self) -> ServerState {
        ServerState::Stopped
    }

    /// The icon the menubar button with the name shows, if the interface has that button.
    open spec fn button_icon(ui: Self::Ui, button: Seq<char>) -> Option<Seq<char>> {
        None
    }

    /// Returns the state of the server.
    fn server_state(&self) -> (s: ServerState)
        ensures
            s == self.state_view();

    /// Shows the icon on the menubar button with the name, if the interface has it; the
    /// other buttons keep theirs.
    fn set_button_icon(ui: &mut Self::Ui, button: &str, icon: String)
        ensures
            Self::button_icon(*final(ui), button@)
                == (if Self::button_icon(*old(ui), button@) is Some { Some(icon@) } else { None }),
            forall|b: Seq<char>| b != button@ ==> #[trigger] Self::button_icon(*final(ui), b) == Self::button_icon(*old(ui), b);

    /// Shows the server state on the Play, Pause and Stop buttons of the interface (see
    /// [`state_icons`]): only the button of the current state is filled. Buttons the
    /// interface lacks stay missing, the other buttons keep their icons, and the editor
    /// is unchanged.
    fn update_server_state_icons(&mut self, ui: &mut Self::Ui)
        where Self: Sized
        ensures
            *final(self) == *old(self),
            Self::button_icon(*old(ui), "Play"@) is Some
                ==> Self::button_icon(*final(ui), "Play"@) == Some(state_icons(old(self).state_view()).0),
            Self::button_icon(*old(ui), "Pause"@) is Some
                ==> Self::button_icon(*final(ui), "Pause"@) == Some(state_icons(old(self).state_view()).1),
            Self::button_icon(*old(ui), "Stop"@) is Some
                ==> Self::button_icon(*final(ui), "Stop"@) == Some(state_icons(old(self).state_view()).2),
            forall|b: Seq<char>| Self::button_icon(*old(ui), b) is None ==> #[trigger] Self::button_icon(*final(ui), b) is None,
            forall|b: Seq<char>| b != "Play"@ && b != "Pause"@ && b != "Stop"@
                ==> #[trigger] Self::button_icon(*final(ui), b) == Self::button_icon(*old(ui), b),
    {
        proof {
            reveal_strlit("Play");
            reveal_strlit("Pause");
            reveal_strlit("Stop");
        }
        assert("Play"@[0] == 'P' && "Stop"@[0] == 'S' && "Pause"@.len() == 5 && "Play"@.len() == 4);
        assert("Play"@ != "Stop"@ && "Play"@ != "Pause"@ && "Pause"@ != "Stop"@);
        let (play, pause, stop) = server_state_icons(self.server_state());
        let ghost u0 = *ui;
        Self::set_button_icon(ui, "Play", play);
        let ghost u1 = *ui;
        Self::set_button_icon(ui, "Pause", pause);
        let ghost u2 = *ui;
        Self::set_button_icon(ui, "Stop", stop);
        assert(Self::button_icon(*ui, "Play"@) == Self::button_icon(u2, "Play"@));
        assert(Self::button_icon(u2, "Play"@) == Self::button_icon(u1, "Play"@));
        assert(Self::button_icon(*ui, "Pause"@) == Self::button_icon(u2, "Pause"@));
        assert(Self::button_icon(u1, "Pause"@) == Self::button_icon(u0, "Pause"@));
        assert(Self::button_icon(u2, "Stop"@) == Self::button_icon(u0, "Stop"@)) by {
            assert(Self::button_icon(u2, "Stop"@) == Self::button_icon(u1, "Stop"@));
        }
    }
}

} // verus!
