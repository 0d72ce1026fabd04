//! The application's state, split by concern.
use vstd::prelude::*;
use crate::app::config::Config;
use crate::app::message::Message;
use crate::app::room::Room;
use crate::app::user::User;
use crate::text::{push_char, push_str};
use crate::ui::TabView;
use crate::util::clock::{unix_now_secs, utc_clock_stamp};

verus! {

/// Debug log entries kept by default.
pub const DEFAULT_MAX_DEBUG_LOGS: usize = 100;

#[derive(Clone, Copy, PartialEq, Eq, Structural, Debug)]
pub enum AppState {
    Normal,
    Input,
    Login,
    Settings,
}

/// Core application state.
pub struct AppCore {
    pub state: AppState,
    pub view: TabView,
    pub focused_pane: PaneIdentifier,
    pub should_quit: bool,
    pub notification: Option<String>,
    pub error: Option<String>,
    pub config: Config,
}

/// Input and selection state of the user interface.
pub struct UiState {
    pub input: String,
    pub selected_user: Option<usize>,
    pub selected_room_idx: usize,
    pub selected_message_idx: Option<usize>,
    /// Position of the ASCII-art pane.
    pub my_aa_position: (u16, u16),
    pub username_edit_buffer: String,
    pub status_selection_index: usize,
}

/// Users, rooms and messages known to the client.
pub struct DataState {
    pub users: Vec<User>,
    pub rooms: Vec<Room>,
    pub messages: Vec<Message>,
    pub current_user: User,
    pub current_room: usize,
}

/// Debug and settings logs.
pub struct LogState {
    pub debug_logs: Vec<String>,
    pub settings_logs: Vec<String>,
    pub max_debug_logs: usize,
}

/// Connection state of the legacy link.
pub struct NetworkState {
    pub connection_status: ConnectionStatus,
    pub should_reconnect: bool,
}

#[derive(Clone, Copy, PartialEq, Eq, Structural, Debug)]
pub enum PaneIdentifier {
    Rooms,
    Users,
    Messages,
    AsciiArt,
}

#[derive(Debug)]
pub enum ConnectionStatus {
    Disconnected,
    Connecting,
    Connected,
    Error(String),
}

impl ConnectionStatus {
    /// A copy of the status.
    pub fn duplicate(&self) -> (r: ConnectionStatus)
        ensures
            r == *self,
    {
        match self {
            ConnectionStatus::Disconnected => ConnectionStatus::Disconnected,
            ConnectionStatus::Connecting => ConnectionStatus::Connecting,
            ConnectionStatus::Connected => ConnectionStatus::Connected,
            ConnectionStatus::Error(reason) => ConnectionStatus::Error(reason.clone()),
        }
    }

    pub fn is_connected(&self) -> (r: bool)
        ensures
            r == (*self is Connected),
    {
        match self {
            ConnectionStatus::Connected => true,
            _ => false,
        }
    }
}

impl AppCore {
    /// The normal state on the rooms tab, nothing pending.
    pub fn new(config: Config) -> (r: AppCore)
        ensures
            r.state == AppState::Normal,
            r.view == TabView::Rooms,
            r.focused_pane == PaneIdentifier::Rooms,
            !r.should_quit,
            r.notification is None,
            r.error is None,
            r.config == config,
    {
        AppCore {
            state: AppState::Normal,
            view: TabView::Rooms,
            focused_pane: PaneIdentifier::Rooms,
            should_quit: false,
            notification: None,
            error: None,
            config,
        }
    }

    pub fn should_quit(&self) -> (r: bool)
        ensures
            r == self.should_quit,
    {
        self.should_quit
    }

    pub fn set_error(&mut self, error: String)
        ensures
            final(self).error == Some(error),
            final(self).notification == old(self).notification,
            final(self).should_quit == old(self).should_quit,
    {
        self.error = Some(error);
    }

    pub fn clear_error(&mut self)
        ensures
            final(self).error is None,
            final(self).notification == old(self).notification,
            final(self).should_quit == old(self).should_quit,
    {
        self.error = None;
    }

    pub fn set_notification(&mut self, msg: String)
        ensures
            final(self).notification == Some(msg),
            final(self).error == old(self).error,
            final(self).should_quit == old(self).should_quit,
    {
        self.notification = Some(msg);
    }

    pub fn clear_notification(&mut self)
        ensures
            final(self).notification is None,
            final(self).error == old(self).error,
            final(self).should_quit == old(self).should_quit,
    {
        self.notification = None;
    }
}

impl UiState {
    /// Empty input, nothing selected, first room.
    pub fn new() -> (r: UiState)
        ensures
            r.input@.len() == 0,
            r.selected_user is None,
            r.selected_room_idx == 0,
            r.selected_message_idx is None,
            r.my_aa_position == (0u16, 0u16),
            r.username_edit_buffer@.len() == 0,
            r.status_selection_index == 0,
    {
        UiState {
            input: String::new(),
            selected_user: None,
            selected_room_idx: 0,
            selected_message_idx: None,
            my_aa_position: (0, 0),
            username_edit_buffer: String::new(),
            status_selection_index: 0,
        }
    }

    pub fn clear_input(&mut self)
        ensures
            final(self).input@.len() == 0,
            final(self).selected_user == old(self).selected_user,
            final(self).selected_room_idx == old(self).selected_room_idx,
            final(self).selected_message_idx == old(self).selected_message_idx,
    {
        self.input = String::new();
    }

    pub fn reset_selections(&mut self)
        ensures
            final(self).selected_user is None,
            final(self).selected_room_idx == 0,
            final(self).selected_message_idx is None,
            final(self).input == old(self).input,
    {
        self.selected_user = None;
        self.selected_room_idx = 0;
        self.selected_message_idx = None;
    }
}

impl DataState {
    pub fn new(current_user: User) -> (r: DataState)
        ensures
            r.users@.len() == 0,
            r.rooms@.len() == 0,
            r.messages@.len() == 0,
            r.current_user == current_user,
            r.current_room == 0,
    {
        DataState { users: Vec::new(), rooms: Vec::new(), messages: Vec::new(), current_user, current_room: 0 }
    }

    pub fn add_user(&mut self, user: User)
        ensures
            final(self).users@ == old(self).users@.push(user),
            final(self).rooms@ == old(self).rooms@,
            final(self).current_room == old(self).current_room,
    {
        self.users.push(user);
    }

    pub fn add_room(&mut self, room: Room)
        ensures
            final(self).rooms@ == old(self).rooms@.push(room),
            final(self).users@ == old(self).users@,
            final(self).current_room == old(self).current_room,
    {
        self.rooms.push(room);
    }

    pub fn add_message(&mut self, message: Message)
        ensures
            final(self).messages@ == old(self).messages@.push(message),
            final(self).rooms@ == old(self).rooms@,
            final(self).users@ == old(self).users@,
    {
        self.messages.push(message);
    }

    /// The current room, if the index points at one.
    pub fn get_current_room(&self) -> (r: Option<&Room>)
        ensures
            self.current_room < self.rooms@.len() <==> r is Some,
            r matches Some(room) ==> *room == self.rooms@[self.current_room as int],
    {
        if self.current_room < self.rooms.len() {
            Some(&self.rooms[self.current_room])
        } else {
            None
        }
    }

    /// The current room for changing, if the index points at one.
    pub fn get_current_room_mut(&mut self) -> (r: Option<&mut Room>)
        ensures
            (old(self).current_room < old(self).rooms@.len()) == (r is Some),
            r matches Some(room) ==> *room == old(self).rooms@[old(self).current_room as int]
                && final(self).rooms@ == old(self).rooms@.update(
                old(self).current_room as int,
                *final(room),
            ),
            r is None ==> final(self).rooms@ == old(self).rooms@,
            final(self).current_room == old(self).current_room,
            final(self).users@ == old(self).users@,
    {
        if self.current_room < self.rooms.len() {
            let i = self.current_room;
            Some(&mut self.rooms[i])
        } else {
            None
        }
    }

    /// The user at the selected index, if any.
    pub fn get_selected_user(&self, selected_idx: Option<usize>) -> (r: Option<&User>)
        ensures
            match selected_idx {
                Some(i) => if i < self.users@.len() {
                    r matches Some(u) && *u == self.users@[i as int]
                } else {
                    r is None
                },
                None => r is None,
            },
    {
        match selected_idx {
            Some(i) => if i < self.users.len() {
                Some(&self.users[i])
            } else {
                None
            },
            None => None,
        }
    }

    /// Moves to room `idx` when it exists; otherwise nothing changes.
    pub fn set_current_room_idx(&mut self, idx: usize)
        ensures
            final(self).current_room == (if idx < old(self).rooms@.len() {
                idx
            } else {
                old(self).current_room
            }),
            final(self).rooms@ == old(self).rooms@,
            final(self).users@ == old(self).users@,
    {
        if idx < self.rooms.len() {
            self.current_room = idx;
        }
    }
}

pub open spec fn views_of(v: Seq<String>) -> Seq<Seq<char>> {
    v.map_values(|s: String| s@)
}

/// `s` with `e` appended, less its first entry when it then holds more than `max`.
pub open spec fn bounded_push(s: Seq<Seq<char>>, e: Seq<char>, max: nat) -> Seq<Seq<char>> {
    if s.len() + 1 > max {
        s.push(e).drop_first()
    } else {
        s.push(e)
    }
}

/// `[stamp] message`.
pub open spec fn log_entry(stamp: Seq<char>, message: Seq<char>) -> Seq<char> {
    seq!['['] + stamp + seq![']', ' '] + message
}

impl LogState {
    /// Empty logs keeping up to the default number of debug entries.
    pub fn new() -> (r: LogState)
        ensures
            r.debug_logs@.len() == 0,
            r.settings_logs@.len() == 0,
            r.max_debug_logs == DEFAULT_MAX_DEBUG_LOGS,
    {
        LogState { debug_logs: Vec::new(), settings_logs: Vec::new(), max_debug_logs: DEFAULT_MAX_DEBUG_LOGS }
    }

    /// Appends `[time] message` to the debug log, dropping the oldest entry
    /// when the log grows past its limit.
    pub fn add_debug_log(&mut self, message: String)
        requires
            old(self).debug_logs@.len() < usize::MAX,
        ensures
            exists|stamp: Seq<char>|
                views_of(final(self).debug_logs@) == bounded_push(
                    views_of(old(self).debug_logs@),
                    #[trigger] log_entry(stamp, message@),
                    old(self).max_debug_logs as nat,
                ),
            final(self).settings_logs == old(self).settings_logs,
            final(self).max_debug_logs == old(self).max_debug_logs,
    {
        let stamp = utc_clock_stamp(unix_now_secs());
        let entry = Self::entry(stamp.as_str(), message.as_str());
        let ghost e = entry@;
        self.debug_logs.push(entry);
        assert(views_of(self.debug_logs@) =~= views_of(old(self).debug_logs@).push(e));
        if self.debug_logs.len() > self.max_debug_logs {
            let ghost grown = self.debug_logs@;
            self.debug_logs.remove(0);
            assert(views_of(self.debug_logs@) =~= views_of(grown).drop_first());
        }
        assert(views_of(self.debug_logs@) == bounded_push(
            views_of(old(self).debug_logs@),
            log_entry(stamp@, message@),
            old(self).max_debug_logs as nat,
        ));
    }

    /// Appends `[time] message` to the settings log.
    pub fn add_settings_log(&mut self, message: String)
        ensures
            final(self).settings_logs@.len() == old(self).settings_logs@.len() + 1,
            final(self).settings_logs@.drop_last() == old(self).settings_logs@,
            exists|stamp: Seq<char>|
                #![trigger log_entry(stamp, message@)]
                final(self).settings_logs@.last()@ == log_entry(stamp, message@),
            final(self).debug_logs == old(self).debug_logs,
    {
        let stamp = utc_clock_stamp(unix_now_secs());
        let entry = Self::entry(stamp.as_str(), message.as_str());
        self.settings_logs.push(entry);
        assert(self.settings_logs@.drop_last() =~= old(self).settings_logs@);
        assert(self.settings_logs@.last()@ == log_entry(stamp@, message@));
    }

    fn entry(stamp: &str, message: &str) -> (r: String)
        ensures
            r@ == log_entry(stamp@, message@),
    {
        let mut out = String::new();
        push_char(&mut out, '[');
        push_str(&mut out, stamp);
        push_char(&mut out, ']');
        push_char(&mut out, ' ');
        push_str(&mut out, message);
        assert(out@ =~= log_entry(stamp@, message@));
        out
    }

    pub fn clear_debug_logs(&mut self)
        ensures
            final(self).debug_logs@.len() == 0,
            final(self).settings_logs == old(self).settings_logs,
            final(self).max_debug_logs == old(self).max_debug_logs,
    {
        self.debug_logs.clear();
    }

    pub fn clear_settings_logs(&mut self)
        ensures
            final(self).settings_logs@.len() == 0,
            final(self).debug_logs == old(self).debug_logs,
            final(self).max_debug_logs == old(self).max_debug_logs,
    {
        self.settings_logs.clear();
    }
}

impl NetworkState {
    pub fn new() -> (r: NetworkState)
        ensures
            r.connection_status is Disconnected,
            !r.should_reconnect,
    {
        NetworkState { connection_status: ConnectionStatus::Disconnected, should_reconnect: false }
    }

    /// Connected; a pending reconnect request is dropped.
    pub fn set_connected(&mut self)
        ensures
            final(self).connection_status is Connected,
            !final(self).should_reconnect,
    {
        self.connection_status = ConnectionStatus::Connected;
        self.should_reconnect = false;
    }

    pub fn set_connecting(&mut self)
        ensures
            final(self).connection_status is Connecting,
            final(self).should_reconnect == old(self).should_reconnect,
    {
        self.connection_status = ConnectionStatus::Connecting;
    }

    pub fn set_disconnected(&mut self)
        ensures
            final(self).connection_status is Disconnected,
            final(self).should_reconnect == old(self).should_reconnect,
    {
        self.connection_status = ConnectionStatus::Disconnected;
    }

    pub fn set_error(&mut self, error: String)
        ensures
            final(self).connection_status == ConnectionStatus::Error(error),
            final(self).should_reconnect == old(self).should_reconnect,
    {
        self.connection_status = ConnectionStatus::Error(error);
    }

    pub fn request_reconnect(&mut self)
        ensures
            final(self).should_reconnect,
            final(self).connection_status == old(self).connection_status,
    {
        self.should_reconnect = true;
    }

    pub fn is_connected(&self) -> (r: bool)
        ensures
            r == (self.connection_status is Connected),
    {
        self.connection_status.is_connected()
    }

    pub fn needs_reconnect(&self) -> (r: bool)
        ensures
            r == self.should_reconnect,
    {
        self.should_reconnect
    }
}

} // verus!
