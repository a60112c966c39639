//! The command sequence that brings up the display, and the state the panel
//! is in after each acknowledged command.
//!
//! A `Startup` session hands out one command at a time; the caller sends it
//! to the display and reports whether the write succeeded. The first failure
//! ends the session.
use vstd::prelude::*;

verus! {

/// 7-bit bus address of the display controller.
pub const LCD_ADDRESS: u8 = 0x3E;

/// 7-bit bus address of the backlight controller.
pub const RGB_ADDRESS: u8 = 0x60;

/// A backlight colour, one byte per channel.
#[derive(Clone, Copy, Debug, PartialEq, Eq, Structural)]
pub struct Rgb {
    pub r: u8,
    pub g: u8,
    pub b: u8,
}

/// One operation on the display.
pub enum Command {
    /// Initialise the display controller and the backlight controller.
    Init { lcd_address: u8, rgb_address: u8 },
    /// Set the backlight colour.
    SetRgb(Rgb),
    /// Show or hide the underline cursor.
    SetCursor(bool),
    /// Write text at the cursor position.
    WriteText(String),
    /// Turn the blinking block cursor on or off.
    SetBlink(bool),
}

/// Model of a command, with the text as a character sequence.
pub ghost enum CommandModel {
    Init { lcd_address: u8, rgb_address: u8 },
    SetRgb(Rgb),
    SetCursor(bool),
    WriteText(Seq<char>),
    SetBlink(bool),
}

impl View for Command {
    type V = CommandModel;

    open spec fn view(&self) -> CommandModel {
        match self {
            Command::Init { lcd_address, rgb_address } => CommandModel::Init {
                lcd_address: *lcd_address,
                rgb_address: *rgb_address,
            },
            Command::SetRgb(c) => CommandModel::SetRgb(*c),
            Command::SetCursor(on) => CommandModel::SetCursor(*on),
            Command::WriteText(t) => CommandModel::WriteText(t@),
            Command::SetBlink(on) => CommandModel::SetBlink(*on),
        }
    }
}

/// What an initialised display shows, as mirrored from the commands sent.
pub struct Panel {
    pub lcd_address: u8,
    pub rgb_address: u8,
    /// The backlight colour, once one has been set.
    pub backlight: Option<Rgb>,
    pub cursor: bool,
    pub blink: bool,
    /// The characters written since the display was cleared.
    pub text: String,
}

/// Model of a panel, with the text as a character sequence.
pub ghost struct PanelModel {
    pub lcd_address: u8,
    pub rgb_address: u8,
    pub backlight: Option<Rgb>,
    pub cursor: bool,
    pub blink: bool,
    pub text: Seq<char>,
}

impl View for Panel {
    type V = PanelModel;

    open spec fn view(&self) -> PanelModel {
        PanelModel {
            lcd_address: self.lcd_address,
            rgb_address: self.rgb_address,
            backlight: self.backlight,
            cursor: self.cursor,
            blink: self.blink,
            text: self.text@,
        }
    }
}

/// The model of an optional panel.
pub open spec fn panel_model(p: Option<Panel>) -> Option<PanelModel> {
    match p {
        Some(p) => Some(p@),
        None => None,
    }
}

/// The panel after `c` has been acknowledged; `None` is a display that has
/// not been initialised. Initialisation clears the screen and turns both
/// cursors off; other commands need an initialised display.
pub open spec fn apply(p: Option<PanelModel>, c: CommandModel) -> Option<PanelModel> {
    match c {
        CommandModel::Init { lcd_address, rgb_address } => Some(
            PanelModel {
                lcd_address,
                rgb_address,
                backlight: None,
                cursor: false,
                blink: false,
                text: Seq::empty(),
            },
        ),
        CommandModel::SetRgb(color) => match p {
            Some(q) => Some(PanelModel { backlight: Some(color), ..q }),
            None => None,
        },
        CommandModel::SetCursor(on) => match p {
            Some(q) => Some(PanelModel { cursor: on, ..q }),
            None => None,
        },
        CommandModel::WriteText(t) => match p {
            Some(q) => Some(PanelModel { text: q.text + t, ..q }),
            None => None,
        },
        CommandModel::SetBlink(on) => match p {
            Some(q) => Some(PanelModel { blink: on, ..q }),
            None => None,
        },
    }
}

/// The panel after every command of `script` has been acknowledged, in order.
pub open spec fn run(script: Seq<CommandModel>) -> Option<PanelModel>
    decreases script.len(),
{
    if script.len() == 0 {
        None
    } else {
        apply(run(script.drop_last()), script.last())
    }
}

/// The text the display greets with.
pub open spec fn greeting_text() -> Seq<char> {
    seq!['H', 'e', 'l', 'l', 'o', ',', ' ', 'w', 'o', 'r', 'l', 'd', '!']
}

/// Full-brightness white.
pub open spec fn white() -> Rgb {
    Rgb { r: 255, g: 255, b: 255 }
}

/// The startup script: initialise, white backlight, cursor on, greeting, blink on.
pub open spec fn greeting_script() -> Seq<CommandModel> {
    seq![
        CommandModel::Init { lcd_address: LCD_ADDRESS, rgb_address: RGB_ADDRESS },
        CommandModel::SetRgb(white()),
        CommandModel::SetCursor(true),
        CommandModel::WriteText(greeting_text()),
        CommandModel::SetBlink(true),
    ]
}

/// The startup script as commands to send.
pub fn greeting_commands() -> (r: Vec<Command>)
    ensures
        r@.map_values(|c: Command| c@) == greeting_script(),
{
    let text = String::from_str("Hello, world!");
    proof {
        reveal_strlit("Hello, world!");
    }
    assert(text@ =~= greeting_text());
    let mut r: Vec<Command> = Vec::new();
    r.push(Command::Init { lcd_address: LCD_ADDRESS, rgb_address: RGB_ADDRESS });
    r.push(Command::SetRgb(Rgb { r: 255, g: 255, b: 255 }));
    r.push(Command::SetCursor(true));
    r.push(Command::WriteText(text));
    r.push(Command::SetBlink(true));
    assert(r@.map_values(|c: Command| c@) =~= greeting_script());
    r
}

/// Applies an acknowledged command to the mirrored panel.
fn apply_command(p: &mut Option<Panel>, c: &Command)
    ensures
        panel_model(*final(p)) == apply(panel_model(*old(p)), c@),
{
    match c {
        Command::Init { lcd_address, rgb_address } => {
            *p = Some(
                Panel {
                    lcd_address: *lcd_address,
                    rgb_address: *rgb_address,
                    backlight: None,
                    cursor: false,
                    blink: false,
                    text: String::new(),
                },
            );
        },
        Command::SetRgb(color) => {
            if let Some(q) = p {
                q.backlight = Some(*color);
            }
        },
        Command::SetCursor(on) => {
            if let Some(q) = p {
                q.cursor = *on;
            }
        },
        Command::WriteText(t) => {
            if let Some(q) = p {
                q.text.append(t.as_str());
            }
        },
        Command::SetBlink(on) => {
            if let Some(q) = p {
                q.blink = *on;
            }
        },
    }
}

/// Where a startup session stands.
#[derive(Clone, Copy, Debug, PartialEq, Eq, Structural)]
pub enum Progress {
    /// Commands remain to be sent.
    Pending,
    /// Every command was acknowledged.
    Done,
    /// The command at index `step` failed; nothing after it was sent.
    Failed { step: usize },
}

/// A run of a command script against the display, stopping at the first failure.
pub struct Startup {
    commands: Vec<Command>,
    sent: usize,
    failed: bool,
    panel: Option<Panel>,
}

impl Startup {
    /// The commands of the session, in order.
    pub closed spec fn script(&self) -> Seq<CommandModel> {
        self.commands@.map_values(|c: Command| c@)
    }

    /// How many commands have been acknowledged.
    pub closed spec fn sent(&self) -> nat {
        self.sent as nat
    }

    /// Whether a command has failed.
    pub closed spec fn failed(&self) -> bool {
        self.failed
    }

    /// The mirrored panel.
    pub closed spec fn panel_model(&self) -> Option<PanelModel> {
        panel_model(self.panel)
    }

    /// The panel mirrors exactly the acknowledged prefix of the script.
    pub open spec fn wf(&self) -> bool {
        &&& self.sent() <= self.script().len()
        &&& self.panel_model() == run(self.script().take(self.sent() as int))
    }

    /// A session that will send `commands` in order.
    pub fn new(commands: Vec<Command>) -> (s: Startup)
        ensures
            s.wf(),
            s.script() == commands@.map_values(|c: Command| c@),
            s.sent() == 0,
            !s.failed(),
            s.panel_model() is None,
    {
        let s = Startup { commands, sent: 0, failed: false, panel: None };
        assert(s.script().take(0) =~= Seq::<CommandModel>::empty());
        s
    }

    /// A session that sends the greeting script.
    pub fn greeting() -> (s: Startup)
        ensures
            s.wf(),
            s.script() == greeting_script(),
            s.sent() == 0,
            !s.failed(),
            s.panel_model() is None,
    {
        Startup::new(greeting_commands())
    }

    /// The command to send next: none once the script is done or a command failed.
    pub fn next_command(&self) -> (r: Option<&Command>)
        requires
            self.wf(),
        ensures
            !self.failed() && self.sent() < self.script().len() ==> (r matches Some(c) && (c@
                == self.script()[self.sent() as int])),
            self.failed() || self.sent() == self.script().len() ==> r is None,
    {
        if self.failed || self.sent >= self.commands.len() {
            None
        } else {
            Some(&self.commands[self.sent])
        }
    }

    /// Records whether the pending command was acknowledged.
    pub fn report(&mut self, ok: bool)
        requires
            old(self).wf(),
            !old(self).failed(),
            old(self).sent() < old(self).script().len(),
        ensures
            final(self).wf(),
            final(self).script() == old(self).script(),
            ok ==> final(self).sent() == old(self).sent() + 1 && !final(self).failed()
                && final(self).panel_model() == apply(
                old(self).panel_model(),
                old(self).script()[old(self).sent() as int],
            ),
            !ok ==> final(self).sent() == old(self).sent() && final(self).failed()
                && final(self).panel_model() == old(self).panel_model(),
    {
        if ok {
            let ghost before = self.script();
            let ghost n = self.sent as int;
            assert(self.commands@.len() == before.len());
            let total = self.commands.len();
            assert(n < total);
            apply_command(&mut self.panel, &self.commands[self.sent]);
            self.sent = self.sent + 1;
            assert(before.take(n + 1).drop_last() =~= before.take(n));
        } else {
            self.failed = true;
        }
    }

    /// Where the session stands.
    pub fn progress(&self) -> (r: Progress)
        requires
            self.wf(),
        ensures
            self.failed() ==> r == (Progress::Failed { step: self.sent() as usize }),
            !self.failed() && self.sent() == self.script().len() ==> r == Progress::Done,
            !self.failed() && self.sent() < self.script().len() ==> r == Progress::Pending,
    {
        if self.failed {
            Progress::Failed { step: self.sent }
        } else if self.sent == self.commands.len() {
            Progress::Done
        } else {
            Progress::Pending
        }
    }

    /// The panel as mirrored from the acknowledged commands; `None` before
    /// the display has been initialised.
    pub fn panel(&self) -> (r: &Option<Panel>)
        ensures
            panel_model(*r) == self.panel_model(),
    {
        &self.panel
    }
}

/// The panel showing the greeting: configured addresses, white backlight,
/// both cursors on.
pub open spec fn greeted_panel() -> PanelModel {
    PanelModel {
        lcd_address: LCD_ADDRESS,
        rgb_address: RGB_ADDRESS,
        backlight: Some(white()),
        cursor: true,
        blink: true,
        text: greeting_text(),
    }
}

/// The backlight colour of a panel, if it is initialised and has one.
pub open spec fn backlight_of(p: Option<PanelModel>) -> Option<Rgb> {
    match p {
        Some(q) => q.backlight,
        None => None,
    }
}

/// Whether `script` holds a command setting the backlight to `c`.
pub open spec fn sends_color(script: Seq<CommandModel>, c: Rgb) -> bool {
    exists|i: int| 0 <= i < script.len() && #[trigger] script[i] == CommandModel::SetRgb(c)
}

/// Once the whole greeting script is acknowledged the display shows the
/// greeting at the configured addresses, with white backlight and both
/// cursors on.
pub proof fn lemma_greeting_panel()
    ensures
        run(greeting_script()) == Some(greeted_panel()),
{
    let s = greeting_script();
    assert(s.take(0) =~= Seq::<CommandModel>::empty());
    assert(s.take(1).drop_last() =~= s.take(0));
    assert(s.take(2).drop_last() =~= s.take(1));
    assert(s.take(3).drop_last() =~= s.take(2));
    assert(s.take(4).drop_last() =~= s.take(3));
    assert(s.take(5).drop_last() =~= s.take(4));
    assert(s.take(5) =~= s);
    assert(Seq::<char>::empty() + greeting_text() =~= greeting_text());
    assert(run(s.take(1)) == apply(None, s[0]));
    assert(run(s.take(2)) == apply(run(s.take(1)), s[1]));
    assert(run(s.take(3)) == apply(run(s.take(2)), s[2]));
    assert(run(s.take(4)) == apply(run(s.take(3)), s[3]));
    assert(run(s.take(5)) == apply(run(s.take(4)), s[4]));
}

/// A greeting session whose every command was acknowledged leaves the
/// display showing the greeting.
pub proof fn lemma_greeting_session_done(s: Startup)
    requires
        s.wf(),
        s.script() == greeting_script(),
        s.sent() == greeting_script().len(),
    ensures
        s.panel_model() == Some(greeted_panel()),
{
    lemma_greeting_panel();
    assert(s.script().take(s.sent() as int) =~= greeting_script());
}

/// The backlight only ever shows a colour that the script sent, one byte per channel.
pub proof fn lemma_backlight_was_sent(script: Seq<CommandModel>)
    ensures
        forall|c: Rgb| #[trigger] backlight_of(run(script)) == Some(c) ==> sends_color(script, c),
    decreases script.len(),
{
    if script.len() > 0 {
        let earlier = script.drop_last();
        lemma_backlight_was_sent(earlier);
        assert forall|c: Rgb| #[trigger] backlight_of(run(script)) == Some(c) implies sends_color(script, c) by {
            if script.last() != CommandModel::SetRgb(c) {
                assert(run(script) == apply(run(earlier), script.last()));
                assert(backlight_of(run(earlier)) == Some(c));
                assert(sends_color(earlier, c));
                let i = choose|i: int| 0 <= i < earlier.len() && #[trigger] earlier[i] == CommandModel::SetRgb(c);
                assert(script[i] == CommandModel::SetRgb(c));
            } else {
                assert(script[script.len() - 1] == CommandModel::SetRgb(c));
            }
        }
    }
}

} // verus!
