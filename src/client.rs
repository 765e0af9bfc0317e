//! The state of the terminal client: its screens, one-line text inputs,
//! chat and search panes, and how keys and packets from the server change
//! it. Drawing and the terminal itself belong to the program around it.
use vstd::prelude::*;

use crate::protocol::{AuthPayload, ChatPayload, HistoryPayload, SearchPayload};
use crate::timestamp::Timestamp;

verus! {

/// What `str::trim` makes of a text.
pub uninterp spec fn trimmed_of(s: Seq<char>) -> Seq<char>;

/// What `NaiveDate::parse_from_str(s, "%Y-%m-%d")` makes of a text, taken
/// as midnight UTC.
pub uninterp spec fn date_midnight_of(s: Seq<char>) -> Option<Timestamp>;

/// What `DateTime::parse_from_rfc3339` makes of a text, as an instant.
pub uninterp spec fn rfc3339_of(s: Seq<char>) -> Option<Timestamp>;

/// Relies on `str::trim`: the text without leading and trailing white
/// space; the result depends on the text alone.
#[verifier::external_body]
fn trim(s: &str) -> (r: &str)
    ensures
        r@ == trimmed_of(s@),
{
    s.trim()
}

/// Relies on `String::push`: appends one character.
#[verifier::external_body]
fn push_char(s: &mut String, c: char)
    ensures
        final(s)@ == old(s)@.push(c),
{
    s.push(c)
}

/// Relies on chrono's `NaiveDate::parse_from_str` with `%Y-%m-%d`, and
/// `and_hms_opt(0, 0, 0)`, which cannot fail, in UTC.
#[verifier::external_body]
fn parse_date_midnight(s: &str) -> (r: Option<Timestamp>)
    ensures
        r == date_midnight_of(s@),
{
    match chrono::NaiveDate::parse_from_str(s, "%Y-%m-%d") {
        Ok(d) => match d.and_hms_opt(0, 0, 0) {
            Some(t) => {
                let t = t.and_utc();
                Some(Timestamp { secs: t.timestamp(), nanos: t.timestamp_subsec_nanos() })
            },
            None => None,
        },
        Err(_) => None,
    }
}

/// Relies on chrono's `DateTime::parse_from_rfc3339`, taken as an instant.
#[verifier::external_body]
fn parse_rfc3339(s: &str) -> (r: Option<Timestamp>)
    ensures
        r == rfc3339_of(s@),
{
    match chrono::DateTime::parse_from_rfc3339(s) {
        Ok(t) => Some(Timestamp { secs: t.timestamp(), nanos: t.timestamp_subsec_nanos() }),
        Err(_) => None,
    }
}

/// The instant a search bound names: nothing for blank text, else a
/// `YYYY-MM-DD` date at midnight UTC, else an RFC 3339 instant.
pub open spec fn datetime_of(s: Seq<char>) -> Option<Timestamp> {
    let t = trimmed_of(s);
    if t.len() == 0 {
        None
    } else if date_midnight_of(t) is Some {
        date_midnight_of(t)
    } else {
        rfc3339_of(t)
    }
}

/// Reads a search bound; see [`datetime_of`].
pub fn parse_datetime(s: &str) -> (r: Option<Timestamp>)
    ensures
        r == datetime_of(s@),
{
    let t = trim(s);
    if t.is_empty() {
        return None;
    }
    match parse_date_midnight(t) {
        Some(d) => Some(d),
        None => parse_rfc3339(t),
    }
}

#[derive(Debug, Clone, Copy, PartialEq, Eq, Structural)]
pub enum Screen {
    Login,
    Chat,
    Search,
}

/// A one-line text input. The cursor is a byte offset and always stands at
/// the end of the text: typing appends and backspace removes the last
/// character.
#[derive(Clone)]
pub struct Input {
    value: String,
    cursor: usize,
}

impl View for Input {
    type V = Seq<char>;

    closed spec fn view(&self) -> Seq<char> {
        self.value@
    }
}

impl Input {
    /// The cursor is at the end of the text: it is the text's length in
    /// bytes, as `str::len` reports it.
    pub closed spec fn wf(&self) -> bool {
        self.cursor == vstd::utf8::encode_utf8(self.value@).len() as usize
    }

    pub fn new() -> (r: Input)
        ensures
            r.wf(),
            r@ == Seq::<char>::empty(),
    {
        let value = String::new();
        let cursor = value.as_str().len();
        Input { value, cursor }
    }

    /// Types `ch` at the cursor.
    pub fn insert(&mut self, ch: char)
        requires
            old(self).wf(),
        ensures
            final(self).wf(),
            final(self)@ == old(self)@.push(ch),
    {
        push_char(&mut self.value, ch);
        self.cursor = self.value.as_str().len();
    }

    /// Removes the character before the cursor, if there is one.
    pub fn delete_back(&mut self)
        requires
            old(self).wf(),
        ensures
            final(self).wf(),
            final(self)@ == if old(self)@.len() == 0 {
                old(self)@
            } else {
                old(self)@.drop_last()
            },
    {
        let n = self.value.as_str().unicode_len();
        if n == 0 {
            return;
        }
        let kept = self.value.as_str().substring_char(0, n - 1).to_owned();
        self.value = kept;
        self.cursor = self.value.as_str().len();
        assert(self.value@ =~= old(self)@.drop_last());
    }

    /// Empties the input.
    pub fn clear(&mut self)
        ensures
            final(self).wf(),
            final(self)@ == Seq::<char>::empty(),
    {
        self.value = String::new();
        self.cursor = self.value.as_str().len();
    }

    /// Where the cursor stands, in bytes: the text's length, as `str::len`
    /// reports it.
    pub fn cursor(&self) -> (r: usize)
        requires
            self.wf(),
        ensures
            r == vstd::utf8::encode_utf8(self@).len() as usize,
    {
        self.cursor
    }

    /// The text typed so far.
    pub fn as_str(&self) -> (r: &str)
        ensures
            r@ == self@,
    {
        self.value.as_str()
    }
}

impl Default for Input {
    fn default() -> (r: Input)
        ensures
            r.wf(),
            r@ == Seq::<char>::empty(),
    {
        Input::new()
    }
}

/// One line of a chat or search pane.
#[derive(Debug, Clone)]
pub struct ChatLine {
    pub username: String,
    pub content: String,
    pub timestamp: String,
    pub is_system: bool,
}

/// The client's whole state.
pub struct App {
    pub screen: Screen,
    // Login form: field 0 is the name, field 1 the password.
    pub login_field: usize,
    pub login_username: Input,
    pub login_password: Input,
    pub is_register: bool,
    pub login_error: String,
    // Chat pane; `scroll` counts lines up from the bottom.
    pub messages: Vec<ChatLine>,
    pub chat_input: Input,
    pub online_count: usize,
    pub scroll: usize,
    pub viewport_height: u16,
    // Search overlay: fields 0 to 3 are query, user, from and to.
    pub search_field: usize,
    pub search_query: Input,
    pub search_user: Input,
    pub search_from: Input,
    pub search_to: Input,
    pub search_results: Vec<ChatLine>,
    pub search_scroll: usize,
    pub quit: bool,
}

/// How far a pane of `len` lines can scroll up in a viewport of `height`.
pub open spec fn max_scroll(len: nat, height: u16) -> int {
    if len > height {
        len - height
    } else {
        0
    }
}

/// Scrolling up by three lines, no further than `max`.
pub open spec fn scrolled_up(scroll: usize, max: int) -> usize {
    if scroll + 3 < max {
        (scroll + 3) as usize
    } else {
        max as usize
    }
}

/// Scrolling down by three lines, no further than the bottom.
pub open spec fn scrolled_down(scroll: usize) -> usize {
    if scroll >= 3 {
        (scroll - 3) as usize
    } else {
        0
    }
}

/// A text input after backspace.
pub open spec fn backspaced(s: Seq<char>) -> Seq<char> {
    if s.len() == 0 {
        s
    } else {
        s.drop_last()
    }
}

/// The lower bound of the scroll positions `max_scroll` allows.
fn scroll_limit(len: usize, height: u16) -> (r: usize)
    ensures
        r == max_scroll(len as nat, height),
{
    len.saturating_sub(height as usize)
}

impl App {
    /// Every input keeps its cursor at its end, and the search field is
    /// one of the four.
    pub open spec fn wf(&self) -> bool {
        &&& self.login_username.wf()
        &&& self.login_password.wf()
        &&& self.chat_input.wf()
        &&& self.search_query.wf()
        &&& self.search_user.wf()
        &&& self.search_from.wf()
        &&& self.search_to.wf()
        &&& self.search_field < 4
    }

    /// The login screen, with every field empty.
    pub fn new() -> (app: App)
        ensures
            app.wf(),
            app.screen == Screen::Login,
            app.login_field == 0,
            app.login_username@.len() == 0,
            app.login_password@.len() == 0,
            !app.is_register,
            app.login_error@.len() == 0,
            app.messages@.len() == 0,
            app.chat_input@.len() == 0,
            app.online_count == 0,
            app.scroll == 0,
            app.viewport_height == 20,
            app.search_field == 0,
            app.search_query@.len() == 0,
            app.search_user@.len() == 0,
            app.search_from@.len() == 0,
            app.search_to@.len() == 0,
            app.search_results@.len() == 0,
            app.search_scroll == 0,
            !app.quit,
    {
        App {
            screen: Screen::Login,
            login_field: 0,
            login_username: Input::new(),
            login_password: Input::new(),
            is_register: false,
            login_error: String::new(),
            messages: Vec::new(),
            chat_input: Input::new(),
            online_count: 0,
            scroll: 0,
            viewport_height: 20,
            search_field: 0,
            search_query: Input::new(),
            search_user: Input::new(),
            search_from: Input::new(),
            search_to: Input::new(),
            search_results: Vec::new(),
            search_scroll: 0,
            quit: false,
        }
    }

    /// Adds a line at the bottom of the chat pane.
    pub fn push_message(&mut self, line: ChatLine)
        ensures
            *final(self) == (App { messages: final(self).messages, ..*old(self) }),
            final(self).messages@ == old(self).messages@.push(line),
    {
        self.messages.push(line);
    }

    /// Scrolls the chat pane up by three lines, no further than its top.
    pub fn scroll_up(&mut self)
        ensures
            *final(self) == (App {
                scroll: scrolled_up(
                    old(self).scroll,
                    max_scroll(old(self).messages@.len(), old(self).viewport_height),
                ),
                ..*old(self)
            }),
    {
        let max = scroll_limit(self.messages.len(), self.viewport_height);
        let up = self.scroll.saturating_add(3);
        self.scroll = if up < max {
            up
        } else {
            max
        };
    }

    /// Scrolls the chat pane down by three lines, no further than its bottom.
    pub fn scroll_down(&mut self)
        ensures
            *final(self) == (App { scroll: scrolled_down(old(self).scroll), ..*old(self) }),
    {
        self.scroll = self.scroll.saturating_sub(3);
    }

    /// Scrolls the search results up by three lines, no further than their top.
    pub fn search_scroll_up(&mut self)
        ensures
            *final(self) == (App {
                search_scroll: scrolled_up(
                    old(self).search_scroll,
                    max_scroll(old(self).search_results@.len(), old(self).viewport_height),
                ),
                ..*old(self)
            }),
    {
        let max = scroll_limit(self.search_results.len(), self.viewport_height);
        let up = self.search_scroll.saturating_add(3);
        self.search_scroll = if up < max {
            up
        } else {
            max
        };
    }

    /// Scrolls the search results down by three lines, no further than
    /// their bottom.
    pub fn search_scroll_down(&mut self)
        ensures
            *final(self) == (App { search_scroll: scrolled_down(old(self).search_scroll), ..*old(self) }),
    {
        self.search_scroll = self.search_scroll.saturating_sub(3);
    }
}

/// The search input that has the focus.
pub fn active_search_field(app: &mut App) -> (r: &mut Input)
    ensures
        old(app).search_field == 0 ==> *r == old(app).search_query && *final(app) == (App {
            search_query: *final(r),
            ..*old(app)
        }),
        old(app).search_field == 1 ==> *r == old(app).search_user && *final(app) == (App {
            search_user: *final(r),
            ..*old(app)
        }),
        old(app).search_field == 2 ==> *r == old(app).search_from && *final(app) == (App {
            search_from: *final(r),
            ..*old(app)
        }),
        old(app).search_field != 0 && old(app).search_field != 1 && old(app).search_field != 2
            ==> *r == old(app).search_to && *final(app) == (App { search_to: *final(r), ..*old(app) }),
{
    match app.search_field {
        0 => &mut app.search_query,
        1 => &mut app.search_user,
        2 => &mut app.search_from,
        _ => &mut app.search_to,
    }
}

/// The keys the client reacts to.
#[derive(Debug, Clone, Copy, PartialEq, Eq, Structural)]
pub enum KeyCode {
    Char(char),
    Tab,
    BackTab,
    Enter,
    Backspace,
    Esc,
    PageUp,
    PageDown,
    Other,
}

/// A key press, and whether Control was held.
#[derive(Debug, Clone, Copy, PartialEq, Eq, Structural)]
pub struct Key {
    pub code: KeyCode,
    pub ctrl: bool,
}

/// A packet the client is to send.
pub enum Outgoing {
    Register(AuthPayload),
    Login(AuthPayload),
    Chat(ChatPayload),
    Search(SearchPayload),
    History(HistoryPayload),
    Users,
}

/// Control held with the character `c`.
pub open spec fn ctrl_char(key: Key, c: char) -> bool {
    key.ctrl && key.code == KeyCode::Char(c)
}

/// The effect of a key on the login screen.
pub open spec fn login_key_effect(o: App, n: App, key: Key, r: Option<Outgoing>) -> bool {
    if ctrl_char(key, 'c') || ctrl_char(key, 'q') {
        n == (App { quit: true, ..o }) && r is None
    } else if ctrl_char(key, 'r') {
        n == (App { is_register: !o.is_register, login_error: n.login_error, ..o })
            && n.login_error@.len() == 0 && r is None
    } else {
        match key.code {
            KeyCode::Tab => n == (App { login_field: if o.login_field == 0 { 1 } else { 0 }, ..o })
                && r is None,
            KeyCode::BackTab => n == (App {
                login_field: if o.login_field == 1 { 0 } else { 1 },
                ..o
            }) && r is None,
            KeyCode::Enter => {
                let name = trimmed_of(o.login_username@);
                if name.len() == 0 || o.login_password@.len() == 0 {
                    n == (App { login_error: n.login_error, ..o }) && n.login_error@
                        == "Username and password are required"@ && r is None
                } else {
                    n == o && match r {
                        Some(Outgoing::Register(p)) => o.is_register && p.username@ == name
                            && p.password@ == o.login_password@,
                        Some(Outgoing::Login(p)) => !o.is_register && p.username@ == name
                            && p.password@ == o.login_password@,
                        _ => false,
                    }
                }
            },
            KeyCode::Backspace => r is None && if o.login_field == 0 {
                n == (App { login_username: n.login_username, ..o }) && n.login_username@
                    == backspaced(o.login_username@)
            } else {
                n == (App { login_password: n.login_password, ..o }) && n.login_password@
                    == backspaced(o.login_password@)
            },
            KeyCode::Char(c) => r is None && if o.login_field == 0 {
                n == (App { login_username: n.login_username, ..o }) && n.login_username@
                    == o.login_username@.push(c)
            } else {
                n == (App { login_password: n.login_password, ..o }) && n.login_password@
                    == o.login_password@.push(c)
            },
            _ => n == o && r is None,
        }
    }
}

/// The effect of a key on the chat screen.
pub open spec fn chat_key_effect(o: App, n: App, key: Key, r: Option<Outgoing>) -> bool {
    if ctrl_char(key, 'c') || ctrl_char(key, 'q') {
        n == (App { quit: true, ..o }) && r is None
    } else if ctrl_char(key, 'f') {
        n == (App {
            screen: Screen::Search,
            search_results: n.search_results,
            search_scroll: 0,
            ..o
        }) && n.search_results@.len() == 0 && r is None
    } else {
        match key.code {
            KeyCode::PageUp => n == (App {
                scroll: scrolled_up(o.scroll, max_scroll(o.messages@.len(), o.viewport_height)),
                ..o
            }) && r is None,
            KeyCode::PageDown => n == (App { scroll: scrolled_down(o.scroll), ..o }) && r is None,
            KeyCode::Enter => {
                let content = trimmed_of(o.chat_input@);
                if content.len() == 0 {
                    n == o && r is None
                } else {
                    n == (App { chat_input: n.chat_input, ..o }) && n.chat_input@.len() == 0
                        && (r matches Some(Outgoing::Chat(p)) && p.content@ == content)
                }
            },
            KeyCode::Backspace => n == (App { chat_input: n.chat_input, ..o }) && n.chat_input@
                == backspaced(o.chat_input@) && r is None,
            KeyCode::Char(c) => n == (App { chat_input: n.chat_input, ..o }) && n.chat_input@
                == o.chat_input@.push(c) && r is None,
            _ => n == o && r is None,
        }
    }
}

/// The search input of `a` that has the focus, as text.
pub open spec fn active_field_text(a: App) -> Seq<char> {
    if a.search_field == 0 {
        a.search_query@
    } else if a.search_field == 1 {
        a.search_user@
    } else if a.search_field == 2 {
        a.search_from@
    } else {
        a.search_to@
    }
}

/// `n` is `o` with only the focused search input changed, to `text`.
pub open spec fn active_field_set(o: App, n: App, text: Seq<char>) -> bool {
    if o.search_field == 0 {
        n == (App { search_query: n.search_query, ..o }) && n.search_query@ == text
    } else if o.search_field == 1 {
        n == (App { search_user: n.search_user, ..o }) && n.search_user@ == text
    } else if o.search_field == 2 {
        n == (App { search_from: n.search_from, ..o }) && n.search_from@ == text
    } else {
        n == (App { search_to: n.search_to, ..o }) && n.search_to@ == text
    }
}

/// The effect of a key on the search overlay.
pub open spec fn search_key_effect(o: App, n: App, key: Key, r: Option<Outgoing>) -> bool {
    if key.code == KeyCode::Esc {
        n == (App { screen: Screen::Chat, ..o }) && r is None
    } else if ctrl_char(key, 'c') {
        n == (App { quit: true, ..o }) && r is None
    } else {
        match key.code {
            KeyCode::Tab => n == (App { search_field: ((o.search_field + 1) % 4) as usize, ..o })
                && r is None,
            KeyCode::BackTab => n == (App { search_field: ((o.search_field + 3) % 4) as usize, ..o })
                && r is None,
            KeyCode::PageUp => n == (App {
                search_scroll: scrolled_up(
                    o.search_scroll,
                    max_scroll(o.search_results@.len(), o.viewport_height),
                ),
                ..o
            }) && r is None,
            KeyCode::PageDown => n == (App { search_scroll: scrolled_down(o.search_scroll), ..o })
                && r is None,
            KeyCode::Enter => {
                let query = trimmed_of(o.search_query@);
                let user = trimmed_of(o.search_user@);
                let from = datetime_of(o.search_from@);
                let to = datetime_of(o.search_to@);
                n == o && if query.len() == 0 && user.len() == 0 && from is None && to is None {
                    r is None
                } else {
                    (r matches Some(Outgoing::Search(p)) && p.query@ == query && p.username@ == user
                        && p.from == from && p.to == to)
                }
            },
            KeyCode::Backspace => active_field_set(o, n, backspaced(active_field_text(o)))
                && r is None,
            KeyCode::Char(c) => active_field_set(o, n, active_field_text(o).push(c)) && r is None,
            _ => n == o && r is None,
        }
    }
}

/// The effect of a key on whichever screen is showing.
pub open spec fn key_effect(o: App, n: App, key: Key, r: Option<Outgoing>) -> bool {
    match o.screen {
        Screen::Login => login_key_effect(o, n, key, r),
        Screen::Chat => chat_key_effect(o, n, key, r),
        Screen::Search => search_key_effect(o, n, key, r),
    }
}

/// Reacts to a key on the login screen.
pub fn handle_login_key(app: &mut App, key: Key) -> (r: Option<Outgoing>)
    requires
        old(app).wf(),
    ensures
        final(app).wf(),
        login_key_effect(*old(app), *final(app), key, r),
{
    if key.ctrl && (key.code == KeyCode::Char('c') || key.code == KeyCode::Char('q')) {
        app.quit = true;
        return None;
    }
    if key.ctrl && key.code == KeyCode::Char('r') {
        app.is_register = !app.is_register;
        app.login_error = String::new();
        return None;
    }
    match key.code {
        KeyCode::Tab => {
            app.login_field = if app.login_field == 0 {
                1
            } else {
                0
            };
            None
        },
        KeyCode::BackTab => {
            app.login_field = if app.login_field == 1 {
                0
            } else {
                1
            };
            None
        },
        KeyCode::Enter => {
            let username = trim(app.login_username.as_str()).to_owned();
            let password = app.login_password.as_str().to_owned();
            if username.as_str().is_empty() || password.as_str().is_empty() {
                app.login_error = "Username and password are required".to_owned();
                return None;
            }
            let payload = AuthPayload { username, password };
            if app.is_register {
                Some(Outgoing::Register(payload))
            } else {
                Some(Outgoing::Login(payload))
            }
        },
        KeyCode::Backspace => {
            if app.login_field == 0 {
                app.login_username.delete_back();
            } else {
                app.login_password.delete_back();
            }
            None
        },
        KeyCode::Char(c) => {
            if app.login_field == 0 {
                app.login_username.insert(c);
            } else {
                app.login_password.insert(c);
            }
            None
        },
        _ => None,
    }
}

/// Reacts to a key on the chat screen.
pub fn handle_chat_key(app: &mut App, key: Key) -> (r: Option<Outgoing>)
    requires
        old(app).wf(),
    ensures
        final(app).wf(),
        chat_key_effect(*old(app), *final(app), key, r),
{
    if key.ctrl && (key.code == KeyCode::Char('c') || key.code == KeyCode::Char('q')) {
        app.quit = true;
        return None;
    }
    if key.ctrl && key.code == KeyCode::Char('f') {
        app.screen = Screen::Search;
        app.search_results.clear();
        app.search_scroll = 0;
        return None;
    }
    match key.code {
        KeyCode::PageUp => {
            app.scroll_up();
            None
        },
        KeyCode::PageDown => {
            app.scroll_down();
            None
        },
        KeyCode::Enter => {
            let content = trim(app.chat_input.as_str()).to_owned();
            if content.as_str().is_empty() {
                return None;
            }
            app.chat_input.clear();
            Some(Outgoing::Chat(ChatPayload { content }))
        },
        KeyCode::Backspace => {
            app.chat_input.delete_back();
            None
        },
        KeyCode::Char(c) => {
            app.chat_input.insert(c);
            None
        },
        _ => None,
    }
}

/// Reacts to a key on the search overlay.
pub fn handle_search_key(app: &mut App, key: Key) -> (r: Option<Outgoing>)
    requires
        old(app).wf(),
    ensures
        final(app).wf(),
        search_key_effect(*old(app), *final(app), key, r),
{
    if key.code == KeyCode::Esc {
        app.screen = Screen::Chat;
        return None;
    }
    if key.ctrl && key.code == KeyCode::Char('c') {
        app.quit = true;
        return None;
    }
    match key.code {
        KeyCode::Tab => {
            app.search_field = (app.search_field + 1) % 4;
            None
        },
        KeyCode::BackTab => {
            app.search_field = (app.search_field + 3) % 4;
            None
        },
        KeyCode::PageUp => {
            app.search_scroll_up();
            None
        },
        KeyCode::PageDown => {
            app.search_scroll_down();
            None
        },
        KeyCode::Enter => {
            let payload = SearchPayload {
                query: trim(app.search_query.as_str()).to_owned(),
                username: trim(app.search_user.as_str()).to_owned(),
                from: parse_datetime(app.search_from.as_str()),
                to: parse_datetime(app.search_to.as_str()),
            };
            if payload.query.as_str().is_empty() && payload.username.as_str().is_empty()
                && payload.from.is_none() && payload.to.is_none() {
                return None;
            }
            Some(Outgoing::Search(payload))
        },
        KeyCode::Backspace => {
            active_search_field(app).delete_back();
            None
        },
        KeyCode::Char(c) => {
            active_search_field(app).insert(c);
            None
        },
        _ => None,
    }
}

/// Reacts to a key on whichever screen is showing.
pub fn handle_key(app: &mut App, key: Key) -> (r: Option<Outgoing>)
    requires
        old(app).wf(),
    ensures
        final(app).wf(),
        key_effect(*old(app), *final(app), key, r),
{
    match app.screen {
        Screen::Login => handle_login_key(app, key),
        Screen::Chat => handle_chat_key(app, key),
        Screen::Search => handle_search_key(app, key),
    }
}

/// The rows a response carried, as the client reads them.
pub enum ResponseRows {
    /// Messages, already laid out as lines.
    Messages(Vec<ChatLine>),
    /// The users online; only their number is shown.
    Users(usize),
}

/// Something that arrived from the server, decoded.
pub enum NetEvent {
    Disconnected,
    /// A chat line, with its time already formatted.
    Broadcast(ChatLine),
    /// The text of a system notice.
    System(String),
    Response(bool, String, Option<ResponseRows>),
}

/// The number of past messages asked for right after logging in.
pub const HISTORY_ON_LOGIN: usize = 50;

/// The effect of a server event on the client.
pub open spec fn net_effect(o: App, n: App, ev: NetEvent, out: Seq<Outgoing>) -> bool {
    match ev {
        NetEvent::Disconnected => out.len() == 0 && n == (App { messages: n.messages, ..o })
            && n.messages@.len() == o.messages@.len() + 1 && n.messages@.drop_last() == o.messages@
            && n.messages@.last().is_system && n.messages@.last().content@
            == "Disconnected from server."@ && n.messages@.last().username@.len() == 0,
        NetEvent::Broadcast(line) => out.len() == 0 && n == (App { messages: n.messages, ..o })
            && n.messages@ == o.messages@.push(line),
        NetEvent::System(text) => out.len() == 0 && n == (App { messages: n.messages, ..o })
            && n.messages@.len() == o.messages@.len() + 1 && n.messages@.drop_last() == o.messages@
            && n.messages@.last().is_system && n.messages@.last().content == text
            && n.messages@.last().username@.len() == 0,
        NetEvent::Response(success, message, rows) => if o.screen == Screen::Login {
            if success {
                &&& n == (App { screen: Screen::Chat, login_error: n.login_error, ..o })
                &&& n.login_error@.len() == 0
                &&& out.len() == 2
                &&& out[0] matches Outgoing::History(h) && h.limit == HISTORY_ON_LOGIN
                &&& out[1] is Users
            } else {
                n == (App { login_error: message, ..o }) && out.len() == 0
            }
        } else if o.screen == Screen::Search {
            &&& out.len() == 0
            &&& n == (App { search_results: n.search_results, ..o })
            &&& match rows {
                Some(ResponseRows::Messages(lines)) => n.search_results@ == lines@,
                _ => n.search_results@.len() == 0,
            }
        } else {
            &&& out.len() == 0
            &&& match rows {
                Some(ResponseRows::Messages(lines)) => n == (App { messages: n.messages, ..o })
                    && n.messages@ == lines@ + o.messages@,
                Some(ResponseRows::Users(count)) => n == (App { online_count: count, ..o }),
                None => n == o,
            }
        },
    }
}

/// A system line with this text.
fn system_line(content: String) -> (r: ChatLine)
    ensures
        r.is_system,
        r.content == content,
        r.username@.len() == 0,
        r.timestamp@.len() == 0,
{
    ChatLine { username: String::new(), content, timestamp: String::new(), is_system: true }
}

/// Reacts to something from the server; returns the packets to send.
pub fn handle_net(app: &mut App, ev: NetEvent) -> (out: Vec<Outgoing>)
    ensures
        net_effect(*old(app), *final(app), ev, out@),
{
    let mut out: Vec<Outgoing> = Vec::new();
    match ev {
        NetEvent::Disconnected => {
            app.push_message(system_line("Disconnected from server.".to_owned()));
            assert(app.messages@.drop_last() =~= old(app).messages@);
        },
        NetEvent::Broadcast(line) => {
            app.push_message(line);
        },
        NetEvent::System(text) => {
            app.push_message(system_line(text));
            assert(app.messages@.drop_last() =~= old(app).messages@);
        },
        NetEvent::Response(success, message, rows) => {
            if app.screen == Screen::Login {
                if success {
                    app.screen = Screen::Chat;
                    app.login_error = String::new();
                    out.push(Outgoing::History(HistoryPayload { limit: HISTORY_ON_LOGIN }));
                    out.push(Outgoing::Users);
                } else {
                    app.login_error = message;
                }
            } else if app.screen == Screen::Search {
                match rows {
                    Some(ResponseRows::Messages(lines)) => {
                        app.search_results = lines;
                    },
                    _ => {
                        app.search_results = Vec::new();
                    },
                }
            } else {
                match rows {
                    Some(ResponseRows::Messages(lines)) => {
                        let mut history = lines;
                        let mut rest: Vec<ChatLine> = Vec::new();
                        std::mem::swap(&mut rest, &mut app.messages);
                        history.append(&mut rest);
                        app.messages = history;
                    },
                    Some(ResponseRows::Users(count)) => {
                        app.online_count = count;
                    },
                    None => {},
                }
            }
        },
    }
    out
}

} // verus!
