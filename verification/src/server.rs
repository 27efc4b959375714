use vstd::prelude::*;
use std::collections::HashMap;
use crate::types::Position;
use crate::io::{login_or_register, IOError, LoginOutcome, ServerIO};

verus! {

broadcast use vstd::std_specs::hash::group_hash_axioms;

/// The bookkeeping of the server on its players: the region each player is in, the user
/// name each logged in player has, and where new players start. Sending the messages
/// that these decisions lead to is the caller's part.
pub struct Server {
    /// The region of each player, so that its messages go to the right region.
    pub players_region_ids: HashMap<u128, u128>,
    /// The user name of each player that logged in or registered.
    pub user_names: HashMap<u128, String>,
    /// Where new players start.
    pub player_default_position: Option<Position>,
    /// Whether users may log in locally, without a password (games without a server).
    pub allow_local_users: bool,
}

/// A new character, as the region it starts in creates it.
pub struct NewCharacter {
    pub id: u128,
    pub user_name: Option<String>,
    pub position: Position,
    pub name: Option<String>,
    pub class: Option<String>,
    pub race: Option<String>,
    pub screen: Option<String>,
}

/// What a packed action of a player in the lobby asks for.
pub enum LobbyAction {
    /// Enter the game with a new character.
    CreateCharacter { name: String, class: String, race: String, screen: String },
    /// Enter the game with a stored character.
    EnterWithCharacter { name: String },
    /// Log in, or register with `register`.
    LoginRegister { user: String, password: String, screen: String, register: bool },
    /// Log in locally, without a password.
    LoginLocal { user: String, screen: String },
}

/// Where a packed action goes.
pub enum PackedRoute {
    /// To the region the player is in.
    ToRegion(u128),
    /// To the lobby, which removes the player from it and handles the action.
    Lobby(LobbyAction),
    /// Nowhere: it could not be read, or it is not allowed.
    Ignore,
}

/// The value of a text field of a new character: none for an empty text.
pub open spec fn optional_text(s: String) -> Option<String> {
    if s@.len() == 0 { None } else { Some(s) }
}

/// Where a packed action goes: a player in a region sends it there where it reads as a
/// player action; a player in the lobby has it handled there, but for a local login
/// where local users are not allowed.
pub open spec fn packed_route(
    regions: Map<u128, u128>,
    allow_local_users: bool,
    player: u128,
    is_player_action: bool,
    lobby_action: Option<LobbyAction>,
) -> PackedRoute {
    if regions.contains_key(player) {
        if is_player_action { PackedRoute::ToRegion(regions[player]) } else { PackedRoute::Ignore }
    } else {
        match lobby_action {
            Some(LobbyAction::LoginLocal { user, screen }) =>
                if allow_local_users { PackedRoute::Lobby(LobbyAction::LoginLocal { user, screen }) } else { PackedRoute::Ignore },
            Some(a) => PackedRoute::Lobby(a),
            None => PackedRoute::Ignore,
        }
    }
}

fn optional(s: String) -> (r: Option<String>)
    ensures
        r == optional_text(s),
{
    if s.as_str().is_empty() { None } else { Some(s) }
}

impl Server {
    /// A server that knows no players, where local users may log in.
    pub fn new() -> (s: Self)
        ensures
            s.players_region_ids@ == Map::<u128, u128>::empty(),
            s.user_names@ == Map::<u128, String>::empty(),
            s.player_default_position is None,
            s.allow_local_users,
    {
        Server {
            players_region_ids: HashMap::new(),
            user_names: HashMap::new(),
            player_default_position: None,
            allow_local_users: true,
        }
    }

    /// Records the region a player was moved to.
    pub fn character_transferred(&mut self, player: u128, region: u128)
        ensures
            final(self).players_region_ids@ == old(self).players_region_ids@.insert(player, region),
            final(self).user_names@ == old(self).user_names@,
            final(self).player_default_position == old(self).player_default_position,
            final(self).allow_local_users == old(self).allow_local_users,
    {
        self.players_region_ids.insert(player, region);
    }

    /// Creates a new player character at the default position, with the player's user
    /// name where it has one; empty texts leave class and race unset. The player is then
    /// in the region of the default position. Without a default position nothing happens.
    pub fn create_character(&mut self, id: u128, name: String, class: String, race: String, screen: String) -> (r: Option<NewCharacter>)
        ensures
            final(self).user_names@ == old(self).user_names@,
            final(self).player_default_position == old(self).player_default_position,
            final(self).allow_local_users == old(self).allow_local_users,
            match old(self).player_default_position {
                Some(p) => {
                    &&& final(self).players_region_ids@ == old(self).players_region_ids@.insert(id, p.region)
                    &&& r == Some(NewCharacter {
                        id,
                        user_name: old(self).user_names@.get(id),
                        position: p,
                        name: Some(name),
                        class: optional_text(class),
                        race: optional_text(race),
                        screen: Some(screen),
                    })
                },
                None => r is None && final(self).players_region_ids@ == old(self).players_region_ids@,
            },
    {
        match self.player_default_position {
            Some(position) => {
                let user_name = match self.user_names.get(&id) {
                    Some(n) => Some(n.clone()),
                    None => None,
                };
                let c = NewCharacter {
                    id,
                    user_name,
                    position,
                    name: Some(name),
                    class: optional(class),
                    race: optional(race),
                    screen: Some(screen),
                };
                self.players_region_ids.insert(id, position.region);
                Some(c)
            },
            None => None,
        }
    }

    /// Creates a player instance under a new random id; with a default position the
    /// player is in its region and the position is returned with the id.
    pub fn create_player_instance(&mut self) -> (r: (u128, Option<Position>))
        ensures
            final(self).user_names@ == old(self).user_names@,
            final(self).player_default_position == old(self).player_default_position,
            final(self).allow_local_users == old(self).allow_local_users,
            r.1 == old(self).player_default_position,
            crate::ids::is_v4_id(r.0),
            match old(self).player_default_position {
                Some(p) => final(self).players_region_ids@ == old(self).players_region_ids@.insert(r.0, p.region),
                None => final(self).players_region_ids@ == old(self).players_region_ids@,
            },
    {
        let uuid = crate::ids::new_uuid();
        match self.player_default_position {
            Some(position) => {
                self.players_region_ids.insert(uuid, position.region);
                (uuid, Some(position))
            },
            None => (uuid, None),
        }
    }

    /// Forgets the user name of a destroyed player instance.
    pub fn destroy_player_instance(&mut self, uuid: u128)
        ensures
            final(self).user_names@ == old(self).user_names@.remove(uuid),
            final(self).players_region_ids@ == old(self).players_region_ids@,
            final(self).player_default_position == old(self).player_default_position,
            final(self).allow_local_users == old(self).allow_local_users,
    {
        self.user_names.remove(&uuid);
    }

    /// Decides where a packed action of a player goes; `is_player_action` tells whether
    /// it reads as an action for a region, `lobby_action` what it reads as in the lobby.
    pub fn route_packed_action(&self, player: u128, is_player_action: bool, lobby_action: Option<LobbyAction>) -> (r: PackedRoute)
        ensures
            r == packed_route(self.players_region_ids@, self.allow_local_users, player, is_player_action, lobby_action),
    {
        match self.players_region_ids.get(&player) {
            Some(region) => {
                if is_player_action { PackedRoute::ToRegion(*region) } else { PackedRoute::Ignore }
            },
            None => {
                match lobby_action {
                    Some(LobbyAction::LoginLocal { user, screen }) => {
                        if self.allow_local_users {
                            PackedRoute::Lobby(LobbyAction::LoginLocal { user, screen })
                        } else {
                            PackedRoute::Ignore
                        }
                    },
                    Some(a) => PackedRoute::Lobby(a),
                    None => PackedRoute::Ignore,
                }
            },
        }
    }

    /// Logs in or registers a user of the lobby through the storage (see
    /// [`crate::io::login_request`]): a valid user's name is kept for the player. Returns
    /// what came of it and what the lobby is told of the user (see [`notice_of`]).
    pub fn login_user<I: ServerIO>(
        &mut self,
        io: &mut Option<I>,
        player: u128,
        register: bool,
        user: String,
        password: String,
        screen: String,
    ) -> (r: (LoginOutcome, LobbyNotice))
        ensures
            r.0.valid_user ==> final(self).user_names@ == old(self).user_names@.insert(player, user),
            !r.0.valid_user ==> final(self).user_names@ == old(self).user_names@,
            *old(io) is None ==> !r.0.valid_user && r.0.error is None && r.0.characters is None,
            *old(io) is Some ==> (r.0.valid_user <==> r.0.error is None),
            r.0.characters is Some ==> r.0.valid_user,
            r.1 == notice_of(r.0.valid_user, r.0.error, user, screen),
            final(self).players_region_ids@ == old(self).players_region_ids@,
            final(self).player_default_position == old(self).player_default_position,
            final(self).allow_local_users == old(self).allow_local_users,
    {
        let outcome = login_or_register(io, register, user.clone(), password);
        let notice = lobby_notice(outcome.valid_user, outcome.error, user.clone(), screen);
        if outcome.valid_user {
            self.user_names.insert(player, user);
        }
        (outcome, notice)
    }
}

/// What the lobby is told of one of its users after a login: the user's name, the name
/// of the screen the user plays on, and the error to show (none to clear it), each only
/// where it changes.
pub struct LobbyNotice {
    pub name: Option<String>,
    pub screen: Option<String>,
    pub error: Option<Option<IOError>>,
}

/// What the lobby is told after a login: a valid user gets its name and screen and its
/// error cleared; a refused one gets the storage's error (which the storage turns into
/// text); without a storage nothing is told.
pub open spec fn notice_of(valid_user: bool, error: Option<IOError>, user: String, screen: String) -> LobbyNotice {
    if valid_user {
        LobbyNotice { name: Some(user), screen: Some(screen), error: Some(None) }
    } else {
        match error {
            Some(e) => LobbyNotice { name: None, screen: None, error: Some(Some(e)) },
            None => LobbyNotice { name: None, screen: None, error: None },
        }
    }
}

/// Decides what the lobby is told after a login; see [`notice_of`].
pub fn lobby_notice(valid_user: bool, error: Option<IOError>, user: String, screen: String) -> (r: LobbyNotice)
    ensures
        r == notice_of(valid_user, error, user, screen),
{
    if valid_user {
        LobbyNotice { name: Some(user), screen: Some(screen), error: Some(None) }
    } else {
        match error {
            Some(e) => LobbyNotice { name: None, screen: None, error: Some(Some(e)) },
            None => LobbyNotice { name: None, screen: None, error: None },
        }
    }
}

} // verus!
