//! What the session has to tell the shell after an event: which surfaces to fetch again
//! (a bit mask, the only thing that crosses the language boundary), and what to hand to the
//! application (text to commit, keys to pass through, "open the settings page").

use vstd::prelude::*;
use crate::command::Command;

verus! {

/// The candidate bar changed: fetch its bitmap again.
pub const BAR: i32 = 1;

/// The keyboard changed: fetch its bitmap again.
pub const KEYBOARD: i32 = 2;

/// There is something for the application (text or keys): take it.
pub const COMMIT: i32 = 4;

/// The pinyin line changed: mirror it once with `setComposingText`.
pub const PREEDIT: i32 = 8;

/// A fling or slide is still running: keep ticking frames.
pub const FLING: i32 = 16;

/// The user asked for the settings page: close the keyboard and open it.
pub const SETTINGS: i32 = 32;

/// A cloud prediction request is in flight: keep polling for the result.
pub const PREDICTING: i32 = 64;

/// The state the mask is read from.
#[derive(Debug, Clone, Copy)]
pub struct SurfaceState {
    /// The expanded candidate panel covers the keyboard.
    pub expanded: bool,
    /// The expanded panel must be drawn again (or was never drawn).
    pub expanded_dirty: bool,
    /// The keyboard must be drawn again.
    pub keyboard_dirty: bool,
    /// The candidate bar must be drawn again.
    pub bar_dirty: bool,
    /// The pinyin line changed.
    pub preedit_dirty: bool,
    /// Text or keys wait for the application.
    pub pending_output: bool,
    /// Some fling or slide is running.
    pub moving: bool,
    /// The settings page was asked for.
    pub pending_settings: bool,
    /// A prediction request is in flight.
    pub predicting: bool,
}

/// `flag` when `on`, else nothing.
pub open spec fn bit(on: bool, flag: i32) -> int {
    if on {
        flag as int
    } else {
        0
    }
}

/// The mask for a state: where the keyboard would be, the expanded panel decides while it
/// is open, the keyboard otherwise.
pub open spec fn spec_mask(s: SurfaceState) -> int {
    bit(s.bar_dirty, BAR) + bit(
        if s.expanded {
            s.expanded_dirty
        } else {
            s.keyboard_dirty
        },
        KEYBOARD,
    ) + bit(s.pending_output, COMMIT) + bit(s.preedit_dirty, PREEDIT) + bit(s.moving, FLING) + bit(
        s.pending_settings,
        SETTINGS,
    ) + bit(s.predicting, PREDICTING)
}

/// Which surfaces to fetch again and what to do next, as the bit mask the shell reads.
pub fn mask(s: &SurfaceState) -> (mask: i32)
    ensures
        mask == spec_mask(*s),
        0 <= mask < 128,
        (mask & FLING != 0) == s.moving,
        (mask & SETTINGS != 0) == s.pending_settings,
        (mask & COMMIT != 0) == s.pending_output,
        (mask & BAR != 0) == s.bar_dirty,
        (mask & PREEDIT != 0) == s.preedit_dirty,
        (mask & PREDICTING != 0) == s.predicting,
{
    let mut mask: i32 = 0;
    if s.bar_dirty {
        assert((0i32 | 1i32) == 1i32) by (bit_vector);
        mask = mask | BAR;
    }
    assert(mask == bit(s.bar_dirty, BAR));
    let keyboard = if s.expanded {
        s.expanded_dirty
    } else {
        s.keyboard_dirty
    };
    if keyboard {
        assert(0 <= mask < 2 ==> (mask | 2) == mask + 2) by (bit_vector);
        mask = mask | KEYBOARD;
    }
    assert(mask == bit(s.bar_dirty, BAR) + bit(keyboard, KEYBOARD));
    if s.pending_output {
        assert(0 <= mask < 4 ==> (mask | 4) == mask + 4) by (bit_vector);
        mask = mask | COMMIT;
    }
    assert(mask == bit(s.bar_dirty, BAR) + bit(keyboard, KEYBOARD) + bit(s.pending_output, COMMIT));
    if s.preedit_dirty {
        assert(0 <= mask < 8 ==> (mask | 8) == mask + 8) by (bit_vector);
        mask = mask | PREEDIT;
    }
    assert(mask == bit(s.bar_dirty, BAR) + bit(keyboard, KEYBOARD) + bit(s.pending_output, COMMIT)
        + bit(s.preedit_dirty, PREEDIT));
    if s.moving {
        assert(0 <= mask < 16 ==> (mask | 16) == mask + 16) by (bit_vector);
        mask = mask | FLING;
    }
    assert(mask == bit(s.bar_dirty, BAR) + bit(keyboard, KEYBOARD) + bit(s.pending_output, COMMIT)
        + bit(s.preedit_dirty, PREEDIT) + bit(s.moving, FLING));
    if s.pending_settings {
        assert(0 <= mask < 32 ==> (mask | 32) == mask + 32) by (bit_vector);
        mask = mask | SETTINGS;
    }
    assert(mask == bit(s.bar_dirty, BAR) + bit(keyboard, KEYBOARD) + bit(s.pending_output, COMMIT)
        + bit(s.preedit_dirty, PREEDIT) + bit(s.moving, FLING) + bit(s.pending_settings, SETTINGS));
    if s.predicting {
        assert(0 <= mask < 64 ==> (mask | 64) == mask + 64) by (bit_vector);
        mask = mask | PREDICTING;
    }
    proof {
        lemma_each_flag_has_its_bit(*s);
    }
    mask
}

proof fn lemma_flag_bits(a: bool, b: bool, c: bool, d: bool, e: bool, f: bool, g: bool, m: i32)
    by (bit_vector)
    requires
        m == (if a { 1i32 } else { 0i32 }) + (if b { 2i32 } else { 0i32 }) + (if c { 4i32 } else { 0i32 }) + (if d {
            8i32
        } else {
            0i32
        }) + (if e { 16i32 } else { 0i32 }) + (if f { 32i32 } else { 0i32 }) + (if g { 64i32 } else { 0i32 }),
    ensures
        (m & 1i32 != 0i32) == a,
        (m & 2i32 != 0i32) == b,
        (m & 4i32 != 0i32) == c,
        (m & 8i32 != 0i32) == d,
        (m & 16i32 != 0i32) == e,
        (m & 32i32 != 0i32) == f,
        (m & 64i32 != 0i32) == g,
{
}

/// Each flag of the mask has a bit of its own, the numbers the Kotlin side reads, and each
/// bit is set exactly when its condition holds: the bar, the keyboard (the expanded panel
/// while it is open), text or keys for the application, the pinyin line, a running fling or
/// slide, the settings page, a prediction in flight.
pub proof fn lemma_each_flag_has_its_bit(s: SurfaceState)
    ensures
        BAR == 1 && KEYBOARD == 2 && COMMIT == 4 && PREEDIT == 8,
        FLING == 16 && SETTINGS == 32 && PREDICTING == 64,
        0 <= spec_mask(s) < 128,
        (spec_mask(s) as i32 & BAR != 0) == s.bar_dirty,
        (spec_mask(s) as i32 & KEYBOARD != 0) == (if s.expanded {
            s.expanded_dirty
        } else {
            s.keyboard_dirty
        }),
        (spec_mask(s) as i32 & COMMIT != 0) == s.pending_output,
        (spec_mask(s) as i32 & PREEDIT != 0) == s.preedit_dirty,
        (spec_mask(s) as i32 & FLING != 0) == s.moving,
        (spec_mask(s) as i32 & SETTINGS != 0) == s.pending_settings,
        (spec_mask(s) as i32 & PREDICTING != 0) == s.predicting,
{
    let keyboard = if s.expanded {
        s.expanded_dirty
    } else {
        s.keyboard_dirty
    };
    let m: i32 = ((if s.bar_dirty { 1i32 } else { 0i32 }) + (if keyboard { 2i32 } else { 0i32 }) + (if s.pending_output {
        4i32
    } else {
        0i32
    }) + (if s.preedit_dirty { 8i32 } else { 0i32 }) + (if s.moving { 16i32 } else { 0i32 }) + (if s.pending_settings {
        32i32
    } else {
        0i32
    }) + (if s.predicting { 64i32 } else { 0i32 })) as i32;
    assert(m as int == spec_mask(s));
    lemma_flag_bits(s.bar_dirty, keyboard, s.pending_output, s.preedit_dirty, s.moving, s.pending_settings, s.predicting, m);
}

/// How many steps a signed step count stands for.
pub open spec fn magnitude(steps: isize) -> nat {
    if steps < 0 {
        (-(steps as int)) as nat
    } else {
        steps as nat
    }
}

/// What waits for the application: text to commit (appended in order), keys to pass
/// through (in order), and whether the settings page was asked for.
#[derive(Debug)]
pub struct Outbox {
    commit: Option<String>,
    commands: Vec<Command>,
    settings: bool,
}

impl Outbox {
    /// The text waiting to be committed (`None`: nothing).
    pub closed spec fn spec_commit(&self) -> Option<Seq<char>> {
        match self.commit {
            Some(t) => Some(t@),
            None => None,
        }
    }

    /// The keys waiting to be passed through, oldest first.
    pub closed spec fn spec_commands(&self) -> Seq<Command> {
        self.commands@
    }

    /// Whether the settings page was asked for.
    pub closed spec fn spec_settings(&self) -> bool {
        self.settings
    }

    /// Nothing waiting.
    pub fn new() -> (outbox: Outbox)
        ensures
            outbox.spec_commit() is None,
            outbox.spec_commands().len() == 0,
            !outbox.spec_settings(),
    {
        Outbox { commit: None, commands: Vec::new(), settings: false }
    }

    /// Whether text or keys wait for the application (the [`COMMIT`] bit).
    pub fn has_output(&self) -> (has: bool)
        ensures
            has == (self.spec_commit() is Some || self.spec_commands().len() > 0),
    {
        self.commit.is_some() || self.commands.len() > 0
    }

    /// Adds text to what will be committed, after whatever is already waiting.
    pub fn commit_text(&mut self, text: &str)
        ensures
            final(self).spec_commit() == Some(
                match old(self).spec_commit() {
                    Some(t) => t + text@,
                    None => text@,
                },
            ),
            final(self).spec_commands() == old(self).spec_commands(),
            final(self).spec_settings() == old(self).spec_settings(),
    {
        let mut pending = match self.commit.take() {
            Some(t) => t,
            None => String::new(),
        };
        pending.append(text);
        self.commit = Some(pending);
    }

    /// Queues a key for the application.
    pub fn push_command(&mut self, command: Command)
        ensures
            final(self).spec_commands() == old(self).spec_commands().push(command),
            final(self).spec_commit() == old(self).spec_commit(),
            final(self).spec_settings() == old(self).spec_settings(),
    {
        self.commands.push(command);
    }

    /// Queues the cursor moves of a drag on the space bar: `steps` moves right (positive) or
    /// left (negative). While composing nothing is queued: the field then shows our pinyin,
    /// and moving the application's cursor would scramble it.
    pub fn move_cursor(&mut self, composing: bool, steps: isize)
        ensures
            final(self).spec_commands() == (if composing {
                old(self).spec_commands()
            } else {
                old(self).spec_commands() + Seq::new(
                    magnitude(steps),
                    |i: int| if steps > 0 { Command::MoveRight } else { Command::MoveLeft },
                )
            }),
            final(self).spec_commit() == old(self).spec_commit(),
            final(self).spec_settings() == old(self).spec_settings(),
    {
        if composing {
            return;
        }
        let command = if steps > 0 {
            Command::MoveRight
        } else {
            Command::MoveLeft
        };
        let count: usize = if steps < 0 {
            if steps == isize::MIN {
                (isize::MAX as usize) + 1
            } else {
                (-steps) as usize
            }
        } else {
            steps as usize
        };
        let ghost start = self.commands@;
        let mut i: usize = 0;
        while i < count
            invariant
                i <= count,
                count == magnitude(steps),
                self.commands@ =~= start + Seq::new(i as nat, |j: int| command),
                self.commit == old(self).commit,
                self.settings == old(self).settings,
            decreases count - i,
        {
            self.commands.push(command);
            i += 1;
        }
        assert(Seq::new(count as nat, |j: int| command) =~= Seq::new(
            magnitude(steps),
            |j: int| if steps > 0 { Command::MoveRight } else { Command::MoveLeft },
        ));
    }

    /// Notes that the settings page was asked for.
    pub fn request_settings(&mut self)
        ensures
            final(self).spec_settings(),
            final(self).spec_commit() == old(self).spec_commit(),
            final(self).spec_commands() == old(self).spec_commands(),
    {
        self.settings = true;
    }

    /// Takes the text to commit, leaving nothing waiting.
    pub fn take_commit(&mut self) -> (text: Option<String>)
        ensures
            match text {
                Some(t) => old(self).spec_commit() == Some(t@),
                None => old(self).spec_commit() is None,
            },
            final(self).spec_commit() is None,
            final(self).spec_commands() == old(self).spec_commands(),
            final(self).spec_settings() == old(self).spec_settings(),
    {
        self.commit.take()
    }

    /// Takes the keys to pass through, as the numbers of [`Command::code`], oldest first.
    pub fn take_commands(&mut self) -> (codes: Vec<i32>)
        ensures
            codes@ == old(self).spec_commands().map_values(|c: Command| c.spec_code()),
            final(self).spec_commands().len() == 0,
            final(self).spec_commit() == old(self).spec_commit(),
            final(self).spec_settings() == old(self).spec_settings(),
    {
        let mut codes: Vec<i32> = Vec::new();
        let mut i: usize = 0;
        while i < self.commands.len()
            invariant
                i <= self.commands.len(),
                codes@ =~= self.commands@.take(i as int).map_values(|c: Command| c.spec_code()),
            decreases self.commands.len() - i,
        {
            codes.push(self.commands[i].code());
            i += 1;
        }
        assert(self.commands@.take(self.commands.len() as int) =~= self.commands@);
        self.commands = Vec::new();
        codes
    }

    /// Takes "open the settings page", leaving it unasked.
    pub fn take_settings(&mut self) -> (asked: bool)
        ensures
            asked == old(self).spec_settings(),
            !final(self).spec_settings(),
            final(self).spec_commit() == old(self).spec_commit(),
            final(self).spec_commands() == old(self).spec_commands(),
    {
        let asked = self.settings;
        self.settings = false;
        asked
    }
}

impl Default for Outbox {
    /// Nothing waiting.
    fn default() -> (outbox: Outbox)
        ensures
            outbox.spec_commit() is None,
            outbox.spec_commands().len() == 0,
            !outbox.spec_settings(),
    {
        Outbox::new()
    }
}

} // verus!
