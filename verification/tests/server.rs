use eldiron::editor::{EldironEditor, server_step, ServerAction, ServerEvent, server_state_icons, CodeEditorWidget, Draw2D, Rect, ScreenContext, ServerState, TextEditorWidget, WidgetKey};
use eldiron::io::{login_or_register, login_outcome, login_request, IOError, LoginRequest, ServerIO};
use eldiron::update::CharacterData;
use eldiron::pools::{partition_regions, pool_of_region, MAX_REGIONS_PER_POOL};
use eldiron::update::GameUpdate;
use eldiron::server::{LobbyAction, PackedRoute, Server};
use eldiron::types::Position;

#[test]
fn regions_fill_pools_in_order() {
    let ids: Vec<u128> = (1..=5).collect();
    assert_eq!(partition_regions(&ids, 2), vec![vec![1, 2], vec![3, 4], vec![5]]);
    assert_eq!(partition_regions(&ids, 5), vec![vec![1, 2, 3, 4, 5]]);
    assert!(partition_regions(&vec![], 3).is_empty());
}

#[test]
fn a_full_pool_passes_the_next_region_on() {
    let ids: Vec<u128> = (0..201).collect();
    let pools = partition_regions(&ids, MAX_REGIONS_PER_POOL);
    assert_eq!(pools.len(), 3);
    assert_eq!(pools[0].len(), 100);
    assert_eq!(pools[1].len(), 100);
    assert_eq!(pools[2], vec![200]);
    assert_eq!(pools.iter().filter(|p| p.contains(&100)).count(), 1);
    assert_eq!(pools.concat(), ids);
}

#[test]
fn messages_go_to_the_pool_of_the_region() {
    let pools = vec![vec![1, 2], vec![3], vec![3, 4]];
    assert_eq!(pool_of_region(&pools, 3), Some(1));
    assert_eq!(pool_of_region(&pools, 4), Some(2));
    assert_eq!(pool_of_region(&pools, 9), None);
}

#[test]
fn server_state_icons_fill_the_current_button() {
    assert_eq!(server_state_icons(ServerState::Running), ("play-fill".to_string(), "play-pause".to_string(), "stop".to_string()));
    assert_eq!(server_state_icons(ServerState::Paused), ("play".to_string(), "play-pause-fill".to_string(), "stop".to_string()));
    assert_eq!(server_state_icons(ServerState::Stopped), ("play".to_string(), "play-pause".to_string(), "stop-fill".to_string()));
}

struct NoStorage;

impl ServerIO for NoStorage {
    fn new() -> Self {
        NoStorage
    }
}

#[test]
fn storage_without_operations_answers_not_implemented() {
    let mut io = NoStorage::new();
    assert!(matches!(io.system_login("url".to_string(), "pw".to_string()), Err(IOError::NotImplemented)));
    assert!(matches!(io.login_user("a".to_string(), "b".to_string()), Err(IOError::NotImplemented)));
    assert!(matches!(io.does_user_exist("a".to_string()), Err(IOError::NotImplemented)));
    assert!(matches!(io.create_user("a".to_string(), "b".to_string()), Err(IOError::NotImplemented)));
    assert!(matches!(io.list_user_characters("a".to_string()), Err(IOError::NotImplemented)));
}

#[test]
fn new_game_update_is_empty() {
    let a = GameUpdate::new();
    let b = GameUpdate::new();
    assert!(a.position.is_none() && a.region.is_none() && a.screen.is_none());
    assert!(a.characters.is_empty() && a.messages.is_empty() && a.audio.is_empty());
    assert_eq!(a.max_transition_time, 0);
    assert_ne!(a.id, b.id);
}

struct Canvas;

impl Draw2D for Canvas {
    fn draw_rect(&self, frame: &mut [u8], _rect: &Rect, _stride: usize, color: &[u8; 4]) {
        for px in frame.chunks_mut(4) {
            px.copy_from_slice(color);
        }
    }

    fn copy_slice(&self, dest: &mut [u8], source: &[u8], _rect: &Rect, _dest_stride: usize) {
        let n = dest.len().min(source.len());
        dest[..n].copy_from_slice(&source[..n]);
    }
}

struct Editor {
    text: String,
    rect: Rect,
    last_mouse: Option<(usize, usize)>,
}

impl TextEditorWidget for Editor {
    type Font = ();

    fn new() -> Self {
        Editor { text: String::new(), rect: (200, 50, 100, 100), last_mouse: None }
    }

    fn rect(&self) -> Rect {
        self.rect
    }

    fn text(&self) -> String {
        self.text.clone()
    }

    fn set_text(&mut self, text: String) {
        self.text = text;
    }

    fn draw(&mut self, _frame: &mut [u8], _rect: Rect, _stride: usize, _font: &()) {}

    fn key_down(&mut self, char: Option<char>, _key: Option<WidgetKey>, _font: &()) -> bool {
        match char {
            Some(c) => {
                self.text.push(c);
                true
            }
            None => false,
        }
    }

    fn mouse_down(&mut self, pos: (usize, usize), _font: &()) -> bool {
        self.last_mouse = Some(pos);
        true
    }

    fn mouse_up(&mut self, pos: (usize, usize), _font: &()) -> bool {
        self.last_mouse = Some(pos);
        true
    }

    fn mouse_dragged(&mut self, pos: (usize, usize), _font: &()) -> bool {
        self.last_mouse = Some(pos);
        true
    }

    fn mouse_wheel(&mut self, _delta: (isize, isize), _font: &()) -> bool {
        false
    }
}

fn context() -> ScreenContext<Canvas> {
    ScreenContext {
        draw2d: Canvas,
        color_black: [0, 0, 0, 255],
        code_editor_is_active: true,
        code_editor_value: String::new(),
        code_editor_update_node: false,
    }
}

#[test]
fn code_editor_keys() {
    let mut ctx = context();
    let mut w: CodeEditorWidget<Editor> = CodeEditorWidget::new(vec![], (10, 10, 400, 200), &ctx);
    w.set_code("x".to_string());
    assert!(w.key_down(Some('y'), None, &(), &mut ctx));
    assert_eq!(ctx.code_editor_value, "xy");
    assert!(ctx.code_editor_update_node);
    assert!(!w.key_down(None, Some(WidgetKey::Up), &(), &mut ctx));
    assert!(w.key_down(None, Some(WidgetKey::Escape), &(), &mut ctx));
    assert!(!ctx.code_editor_is_active);
}

#[test]
fn code_editor_mouse_positions_are_relative() {
    let mut ctx = context();
    let mut w: CodeEditorWidget<Editor> = CodeEditorWidget::new(vec![], (10, 10, 400, 200), &ctx);
    assert!(w.mouse_down((215, 70), &(), &mut ctx));
    assert_eq!(w.editor.last_mouse, Some((5, 10)));
    assert!(w.mouse_up((216, 71), &(), &mut ctx));
    assert_eq!(w.editor.last_mouse, Some((6, 11)));
    // A drag hands the editor its left edge as the x coordinate.
    assert!(w.mouse_dragged((220, 75), &(), &mut ctx));
    assert_eq!(w.editor.last_mouse, Some((200, 15)));
    // Outside the editor nothing is consumed.
    assert!(!w.mouse_down((12, 12), &(), &mut ctx));
    assert!(!w.mouse_wheel((0, 1), &(), &mut ctx));
}

#[test]
fn code_editor_draws_into_a_buffer_of_the_rect() {
    let mut ctx = context();
    let mut w: CodeEditorWidget<Editor> = CodeEditorWidget::new(vec![], (0, 0, 300, 100), &ctx);
    let mut frame = vec![7u8; 300 * 100 * 4];
    w.draw(&mut frame, (0, 0, 300, 100), 0, &(), &mut ctx);
    assert_eq!(w.buffer.len(), 300 * 100 * 4);
    assert!(!w.dirty);
    assert_eq!(&frame[0..4], &[0, 0, 0, 255]);
}

struct Accounts {
    users: Vec<(String, String)>,
}

impl ServerIO for Accounts {
    fn new() -> Self {
        Accounts { users: vec![] }
    }

    fn login_user(&self, user_name: String, password: String) -> Result<(), IOError> {
        match self.users.iter().find(|u| u.0 == user_name) {
            Some(u) if u.1 == password => Ok(()),
            Some(_) => Err(IOError::WrongPassword),
            None => Err(IOError::UserNotFound),
        }
    }

    fn list_user_characters(&self, _user_name: String) -> Result<Vec<CharacterData>, IOError> {
        Ok(vec![])
    }
}

#[test]
fn lobby_login_keeps_the_storage_error() {
    let mut io = Some(Accounts { users: vec![("ann".to_string(), "pw".to_string())] });
    let ok = login_or_register(&mut io, false, "ann".to_string(), "pw".to_string());
    assert!(ok.valid_user && ok.error.is_none());
    assert_eq!(ok.characters.map(|c| c.len()), Some(0));
    let wrong = login_or_register(&mut io, false, "ann".to_string(), "nope".to_string());
    assert!(!wrong.valid_user && matches!(wrong.error, Some(IOError::WrongPassword)));
    let register = login_or_register(&mut io, true, "bob".to_string(), "pw".to_string());
    assert!(matches!(register.error, Some(IOError::NotImplemented)));
    let mut none: Option<Accounts> = None;
    let nothing = login_or_register(&mut none, false, "ann".to_string(), "pw".to_string());
    assert!(!nothing.valid_user && nothing.error.is_none() && nothing.characters.is_none());
}

#[test]
fn code_editor_resizes() {
    let ctx = context();
    let mut w: CodeEditorWidget<Editor> = CodeEditorWidget::new(vec![], (5, 6, 400, 200), &ctx);
    w._resize(640, 480);
    assert_eq!(w.rect, (5, 6, 640, 480));
}

#[test]
fn new_characters_start_at_the_default_position() {
    let mut server = Server::new();
    assert!(server.create_character(1, "Ann".to_string(), "".to_string(), "Elf".to_string(), "Main".to_string()).is_none());
    assert!(server.players_region_ids.is_empty());
    server.player_default_position = Some(Position::new(7, 3, 4));
    server.user_names.insert(1, "ann".to_string());
    let c = server.create_character(1, "Ann".to_string(), "".to_string(), "Elf".to_string(), "Main".to_string()).unwrap();
    assert_eq!(c.id, 1);
    assert_eq!(c.user_name, Some("ann".to_string()));
    assert_eq!(c.position, Position::new(7, 3, 4));
    assert_eq!(c.name, Some("Ann".to_string()));
    assert_eq!(c.class, None);
    assert_eq!(c.race, Some("Elf".to_string()));
    assert_eq!(c.screen, Some("Main".to_string()));
    assert_eq!(server.players_region_ids.get(&1), Some(&7));
}

#[test]
fn player_instances_get_fresh_ids() {
    let mut server = Server::new();
    server.player_default_position = Some(Position::new(2, 0, 0));
    let (a, pa) = server.create_player_instance();
    let (b, _) = server.create_player_instance();
    assert_ne!(a, b);
    assert_eq!(pa, Some(Position::new(2, 0, 0)));
    assert_eq!(server.players_region_ids.get(&a), Some(&2));
    server.user_names.insert(a, "ann".to_string());
    server.destroy_player_instance(a);
    assert!(server.user_names.get(&a).is_none());
}

#[test]
fn packed_actions_are_routed() {
    let mut server = Server::new();
    server.character_transferred(5, 9);
    assert!(matches!(server.route_packed_action(5, true, None), PackedRoute::ToRegion(9)));
    assert!(matches!(server.route_packed_action(5, false, None), PackedRoute::Ignore));
    let enter = LobbyAction::EnterWithCharacter { name: "Ann".to_string() };
    assert!(matches!(server.route_packed_action(6, true, Some(enter)), PackedRoute::Lobby(LobbyAction::EnterWithCharacter { .. })));
    assert!(matches!(server.route_packed_action(6, false, None), PackedRoute::Ignore));
    let local = LobbyAction::LoginLocal { user: "ann".to_string(), screen: "Main".to_string() };
    assert!(matches!(server.route_packed_action(6, false, Some(local)), PackedRoute::Lobby(LobbyAction::LoginLocal { .. })));
    server.allow_local_users = false;
    let local = LobbyAction::LoginLocal { user: "ann".to_string(), screen: "Main".to_string() };
    assert!(matches!(server.route_packed_action(6, false, Some(local)), PackedRoute::Ignore));
}

#[test]
fn valid_users_keep_their_name() {
    let mut server = Server::new();
    let mut io = Some(Accounts { users: vec![("ann".to_string(), "pw".to_string())] });
    let (wrong, told) = server.login_user(&mut io, 3, false, "ann".to_string(), "nope".to_string(), "Main".to_string());
    assert!(!wrong.valid_user);
    assert!(told.name.is_none() && told.screen.is_none() && matches!(told.error, Some(Some(IOError::WrongPassword))));
    assert!(server.user_names.get(&3).is_none());
    let (ok, told) = server.login_user(&mut io, 3, false, "ann".to_string(), "pw".to_string(), "Main".to_string());
    assert!(ok.valid_user);
    assert_eq!(told.name, Some("ann".to_string()));
    assert_eq!(told.screen, Some("Main".to_string()));
    assert!(matches!(told.error, Some(None)));
    assert_eq!(server.user_names.get(&3), Some(&"ann".to_string()));
}

#[test]
fn login_outcomes_follow_the_storage() {
    let ok = login_outcome(Ok(()), Some(Ok(vec![])));
    assert!(ok.valid_user && ok.error.is_none() && ok.characters.map(|c| c.len()) == Some(0));
    let unlisted = login_outcome(Ok(()), Some(Err(IOError::NotImplemented)));
    assert!(unlisted.valid_user && unlisted.characters.is_none());
    let refused = login_outcome(Err(IOError::UserAlreadyExists), None);
    assert!(!refused.valid_user && matches!(refused.error, Some(IOError::UserAlreadyExists)) && refused.characters.is_none());
}

#[test]
fn registering_creates_the_user() {
    assert!(matches!(login_request(true, "ann".to_string(), "pw".to_string()),
        LoginRequest::CreateUser { ref user, ref password } if user == "ann" && password == "pw"));
    assert!(matches!(login_request(false, "ann".to_string(), "pw".to_string()),
        LoginRequest::LoginUser { ref user, ref password } if user == "ann" && password == "pw"));
}

#[test]
fn new_ids_are_version_four() {
    for _ in 0..8 {
        let id = GameUpdate::new().id;
        assert_eq!((id >> 76) & 0xf, 4);
        assert_eq!((id >> 62) & 0x3, 2);
    }
}

#[test]
fn editor_server_steps() {
    assert_eq!(server_step(ServerState::Stopped, ServerEvent::Play), (None, ServerAction::Start, true));
    assert_eq!(server_step(ServerState::Running, ServerEvent::Pause), (Some(ServerState::Paused), ServerAction::Paused, true));
    assert_eq!(server_step(ServerState::Paused, ServerEvent::Pause), (None, ServerAction::Tick, false));
    assert_eq!(server_step(ServerState::Stopped, ServerEvent::Pause), (None, ServerAction::Idle, false));
    assert_eq!(server_step(ServerState::Paused, ServerEvent::Stop), (None, ServerAction::Stop, true));
    assert_eq!(server_step(ServerState::Running, ServerEvent::ProjectLoaded), (Some(ServerState::Stopped), ServerAction::Idle, true));
    assert_eq!(server_step(ServerState::Running, ServerEvent::Frame), (None, ServerAction::Tick, false));
    assert_eq!(server_step(ServerState::Paused, ServerEvent::Frame), (None, ServerAction::Idle, false));
}

struct Buttons {
    icons: Vec<(String, String)>,
}

struct Controls {
    state: ServerState,
}

impl EldironEditor for Controls {
    type Ui = Buttons;

    fn server_state(&self) -> ServerState {
        self.state
    }

    fn set_button_icon(ui: &mut Buttons, button: &str, icon: String) {
        for entry in ui.icons.iter_mut() {
            if entry.0 == button {
                entry.1 = icon.clone();
            }
        }
    }
}

#[test]
fn menubar_shows_the_server_state() {
    let mut ui = Buttons { icons: vec![("Play".to_string(), "x".to_string()), ("Stop".to_string(), "x".to_string()), ("Undo".to_string(), "undo".to_string())] };
    let mut editor = Controls { state: ServerState::Paused };
    editor.update_server_state_icons(&mut ui);
    assert_eq!(ui.icons, vec![("Play".to_string(), "play".to_string()), ("Stop".to_string(), "stop".to_string()), ("Undo".to_string(), "undo".to_string())]);
    editor.state = ServerState::Stopped;
    editor.update_server_state_icons(&mut ui);
    assert_eq!(ui.icons[1].1, "stop-fill");
}
