//! The first-time setup form: three fields that are filled in turn, and the
//! settings that the filled form makes.

use vstd::prelude::*;
use crate::config::{Config, ConfigView};
use crate::text::string_of;

verus! {

/// The field of the form that takes the keys.
#[derive(Debug, Clone, Copy, PartialEq, Eq, Structural)]
pub enum Field {
    Url,
    User,
    Pass,
}

impl Field {
    /// The field that the tabulator key leads to: the next one, and the
    /// first one after the last.
    pub open spec fn after_tab(self) -> Field {
        match self {
            Field::Url => Field::User,
            Field::User => Field::Pass,
            Field::Pass => Field::Url,
        }
    }

    /// The field that the enter key leads to: the next one, and the last one
    /// stays.
    pub open spec fn after_enter(self) -> Field {
        match self {
            Field::Url => Field::User,
            Field::User => Field::Pass,
            Field::Pass => Field::Pass,
        }
    }

    /// The field that the tabulator key leads to.
    pub fn next(self) -> (out: Field)
        ensures
            out == self.after_tab(),
    {
        match self {
            Field::Url => Field::User,
            Field::User => Field::Pass,
            Field::Pass => Field::Url,
        }
    }

    /// The field that the enter key leads to.
    pub fn advance(self) -> (out: Field)
        ensures
            out == self.after_enter(),
    {
        match self {
            Field::Url => Field::User,
            Field::User => Field::Pass,
            Field::Pass => Field::Pass,
        }
    }
}

/// A key as the form takes it.
#[derive(Debug, Clone, Copy, PartialEq, Eq)]
pub enum SetupKey {
    Esc,
    Tab,
    Left,
    Right,
    Backspace,
    Enter,
    Char(char),
    Other,
}

/// The form: the three texts, the field that takes the keys, and the place
/// in that field at which the next character goes in.
#[derive(Debug)]
pub struct SetupForm {
    pub url: Vec<char>,
    pub user: Vec<char>,
    pub pass: Vec<char>,
    pub field: Field,
    pub cursor: usize,
}

/// The form as a mathematical value.
pub struct FormView {
    pub url: Seq<char>,
    pub user: Seq<char>,
    pub pass: Seq<char>,
    pub field: Field,
    pub cursor: int,
}

impl View for SetupForm {
    type V = FormView;

    open spec fn view(&self) -> FormView {
        FormView {
            url: self.url@,
            user: self.user@,
            pass: self.pass@,
            field: self.field,
            cursor: self.cursor as int,
        }
    }
}

impl FormView {
    /// The text of the field that takes the keys.
    pub open spec fn active(self) -> Seq<char> {
        match self.field {
            Field::Url => self.url,
            Field::User => self.user,
            Field::Pass => self.pass,
        }
    }

    /// The form with `text` in the field that takes the keys and the cursor
    /// at `cursor`.
    pub open spec fn with_active(self, text: Seq<char>, cursor: int) -> FormView {
        match self.field {
            Field::Url => FormView { url: text, cursor, ..self },
            Field::User => FormView { user: text, cursor, ..self },
            Field::Pass => FormView { pass: text, cursor, ..self },
        }
    }

    /// The cursor lies within the field that takes the keys.
    pub open spec fn wf(self) -> bool {
        0 <= self.cursor <= self.active().len()
    }

    /// The form after a key. The tabulator key goes round the fields, the
    /// enter key goes on to the next field, and both put the cursor at the
    /// start. The arrow keys move the cursor within the field. The
    /// backspace key takes out the character before the cursor, and a
    /// character goes in at the cursor. Any other key leaves the form as it
    /// is.
    pub open spec fn after_key(self, key: SetupKey) -> FormView {
        match key {
            SetupKey::Tab => FormView { field: self.field.after_tab(), cursor: 0, ..self },
            SetupKey::Enter => if self.field == Field::Pass {
                self
            } else {
                FormView { field: self.field.after_enter(), cursor: 0, ..self }
            },
            SetupKey::Left => FormView {
                cursor: if self.cursor > 0 {
                    self.cursor - 1
                } else {
                    0
                },
                ..self
            },
            SetupKey::Right => FormView {
                cursor: if self.cursor < self.active().len() {
                    self.cursor + 1
                } else {
                    self.cursor
                },
                ..self
            },
            SetupKey::Backspace => if self.cursor > 0 {
                self.with_active(self.active().remove(self.cursor - 1), self.cursor - 1)
            } else {
                self
            },
            SetupKey::Char(c) => self.with_active(
                self.active().insert(self.cursor, c),
                self.cursor + 1,
            ),
            SetupKey::Esc => self,
            SetupKey::Other => self,
        }
    }
}

/// What the program does after a key.
#[derive(Debug, Clone, Copy, PartialEq, Eq, Structural)]
pub enum SetupStep {
    /// Show the form again and wait for the next key.
    Continue,
    /// Leave the setup without settings.
    Cancel,
    /// Make the settings from the form.
    Finish,
}

/// What the program does after `key` on a form whose keys go to `field`:
/// the escape key cancels, the enter key in the last field finishes, and
/// every other key goes on.
pub open spec fn step_after(field: Field, key: SetupKey) -> SetupStep {
    match key {
        SetupKey::Esc => SetupStep::Cancel,
        SetupKey::Enter => if field == Field::Pass {
            SetupStep::Finish
        } else {
            SetupStep::Continue
        },
        _ => SetupStep::Continue,
    }
}

/// Whether `salt` is a salt as the setup makes it: twelve small letters of
/// ASCII.
pub open spec fn is_salt(salt: Seq<char>) -> bool {
    salt.len() == 12 && forall|i: int| 0 <= i < salt.len() ==> 'a' <= #[trigger] salt[i] <= 'z'
}

/// The MD5 digest of the UTF-8 bytes of `text`, written as 32 hexadecimal
/// digits with small letters.
pub uninterp spec fn md5_hex(text: Seq<char>) -> Seq<char>;

/// `md5::compute` on the bytes of `text`, the digest formatted with `{:x}`:
/// the result depends on the text alone.
#[verifier::external_body]
fn md5_hex_of(text: &str) -> (out: String)
    ensures
        out@ == md5_hex(text@),
{
    format!("{:x}", md5::compute(text))
}

/// `rand::Rng::gen_range` on the thread's generator, for the bytes from `a`
/// to `z`: some small letter.
#[verifier::external_body]
fn random_letter() -> (c: char)
    ensures
        'a' <= c <= 'z',
{
    rand::Rng::gen_range(&mut rand::thread_rng(), b'a'..=b'z') as char
}

/// A new salt: twelve small letters picked at random.
pub fn generate_salt() -> (out: String)
    ensures
        is_salt(out@),
{
    let mut out = String::new();
    let mut i: usize = 0;
    while i < 12
        invariant
            i <= 12,
            out@.len() == i,
            forall|k: int| 0 <= k < out@.len() ==> 'a' <= #[trigger] out@[k] <= 'z',
        decreases 12 - i,
    {
        let c = random_letter();
        out.push(c);
        i += 1;
    }
    out
}

/// The settings that a form makes with `salt`: address and user as
/// entered, the token that stands for the password salted with `salt`, a
/// poll every 2 seconds, karaoke off.
pub open spec fn settings_of(form: FormView, salt: Seq<char>) -> ConfigView {
    ConfigView {
        navidrome_url: form.url,
        navidrome_user: form.user,
        navidrome_token: md5_hex(form.pass + salt),
        navidrome_salt: salt,
        refresh_interval: 2,
        karaoke_enabled: false,
    }
}

impl SetupForm {
    /// The cursor lies within the field that takes the keys.
    pub open spec fn wf(&self) -> bool {
        self@.wf()
    }

    /// The empty form, with the keys going to the first field.
    pub fn new() -> (out: Self)
        ensures
            out.wf(),
            out@ == (FormView {
                url: Seq::empty(),
                user: Seq::empty(),
                pass: Seq::empty(),
                field: Field::Url,
                cursor: 0,
            }),
    {
        SetupForm {
            url: Vec::new(),
            user: Vec::new(),
            pass: Vec::new(),
            field: Field::Url,
            cursor: 0,
        }
    }

    /// Takes a key: changes the form as the key asks, and says what the
    /// program does next. A character can go in only while the field has
    /// room for one more.
    pub fn handle_key(&mut self, key: SetupKey) -> (step: SetupStep)
        requires
            old(self).wf(),
            key is Char ==> old(self)@.active().len() < usize::MAX,
        ensures
            final(self).wf(),
            final(self)@ == old(self)@.after_key(key),
            step == step_after(old(self).field, key),
    {
        match key {
            SetupKey::Esc => SetupStep::Cancel,
            SetupKey::Tab => {
                self.field = self.field.next();
                self.cursor = 0;
                SetupStep::Continue
            },
            SetupKey::Left => {
                if self.cursor > 0 {
                    self.cursor -= 1;
                }
                SetupStep::Continue
            },
            SetupKey::Right => {
                let len = match self.field {
                    Field::Url => self.url.len(),
                    Field::User => self.user.len(),
                    Field::Pass => self.pass.len(),
                };
                if self.cursor < len {
                    self.cursor += 1;
                }
                SetupStep::Continue
            },
            SetupKey::Backspace => {
                if self.cursor > 0 {
                    match self.field {
                        Field::Url => {
                            self.url.remove(self.cursor - 1);
                        },
                        Field::User => {
                            self.user.remove(self.cursor - 1);
                        },
                        Field::Pass => {
                            self.pass.remove(self.cursor - 1);
                        },
                    }
                    self.cursor -= 1;
                }
                SetupStep::Continue
            },
            SetupKey::Enter => {
                match self.field {
                    Field::Pass => SetupStep::Finish,
                    _ => {
                        self.field = self.field.advance();
                        self.cursor = 0;
                        SetupStep::Continue
                    },
                }
            },
            SetupKey::Char(c) => {
                match self.field {
                    Field::Url => {
                        self.url.insert(self.cursor, c);
                    },
                    Field::User => {
                        self.user.insert(self.cursor, c);
                    },
                    Field::Pass => {
                        self.pass.insert(self.cursor, c);
                    },
                }
                self.cursor += 1;
                SetupStep::Continue
            },
            SetupKey::Other => SetupStep::Continue,
        }
    }

    /// The password as the form shows it: one `*` for each of its
    /// characters.
    pub fn masked_password(&self) -> (out: String)
        ensures
            out@.len() == self.pass@.len(),
            forall|i: int| 0 <= i < out@.len() ==> out@[i] == '*',
    {
        let mut out = String::new();
        let mut i: usize = 0;
        while i < self.pass.len()
            invariant
                i <= self.pass@.len(),
                out@.len() == i,
                forall|k: int| 0 <= k < out@.len() ==> out@[k] == '*',
            decreases self.pass@.len() - i,
        {
            out.push('*');
            i += 1;
        }
        out
    }

    /// The settings that the form makes with `salt`.
    pub fn into_config(&self, salt: String) -> (cfg: Config)
        ensures
            cfg@ == settings_of(self@, salt@),
    {
        let mut salted = string_of(&self.pass);
        vstd::string::StringExecFns::append(&mut salted, salt.as_str());
        let token = md5_hex_of(salted.as_str());
        Config {
            navidrome_url: string_of(&self.url),
            navidrome_user: string_of(&self.user),
            navidrome_token: token,
            navidrome_salt: salt,
            refresh_interval: 2,
            karaoke_enabled: false,
        }
    }

    /// The settings that the form makes, with a new salt.
    pub fn finish(&self) -> (cfg: Config)
        ensures
            is_salt(cfg@.navidrome_salt),
            cfg@ == settings_of(self@, cfg@.navidrome_salt),
    {
        self.into_config(generate_salt())
    }
}

} // verus!
