//! The logger's state: a colour for every level, a threshold, and where the
//! registration with the logging facade stands.
//!
//! The logger does no output and holds no lock. It says what line a record
//! makes and what initialization has to do next; whoever owns the logger
//! writes the line, makes the offer to the facade, and guards the logger
//! where threads share it.

use crate::color::reset_sequence;
use crate::color::Color;
use crate::facade::set_max_level;
use crate::level::Level;
use log::SetLoggerError;
use vstd::prelude::*;

verus! {

/// The least urgent level whose records are rendered. The logging facade is
/// given the same ceiling when the logger is registered with it.
pub const CEILING: Level = Level::Info;

/// Where the one-time registration with the logging facade stands.
#[derive(Debug, Clone, Copy, PartialEq, Eq, Structural)]
pub enum Registration {
    /// No registration has been attempted.
    Pending,
    /// The facade took this logger.
    Registered,
    /// The facade refused: it already had a logger.
    Rejected,
}

/// The facade already had a logger when this one was offered to it.
#[derive(Debug, Clone, Copy, PartialEq, Eq, Structural)]
pub struct AlreadyRegisteredError;

impl AlreadyRegisteredError {
    /// The error in words.
    pub fn message(&self) -> (text: String)
        ensures
            text@ == "a logger was already registered with the logging facade"@,
    {
        String::from_str("a logger was already registered with the logging facade")
    }
}

/// What initialization needs next.
#[derive(Debug, Clone, Copy, PartialEq, Eq)]
pub enum InitStep {
    /// The logger has to be offered to the facade, and the facade's answer
    /// handed to `ColorLogger::initialize`.
    Register,
    /// Registration was settled earlier, with this result. Nothing is left
    /// to do.
    Settled(Result<(), AlreadyRegisteredError>),
}

/// One row of the colour table: a level and the colour its records get.
type Entry = (Level, Color);

/// The position of the first entry at or after `from` that is keyed by
/// `level`, or the table's length where there is none.
spec fn first_slot(table: Seq<Entry>, level: Level, from: int) -> int
    decreases table.len() - from,
{
    if from < 0 || from >= table.len() {
        table.len() as int
    } else if table[from].0 == level {
        from
    } else {
        first_slot(table, level, from + 1)
    }
}

/// The colour that `table` gives to `level`: that of the first entry keyed
/// by it, and the terminal's default where no entry is.
spec fn lookup(table: Seq<Entry>, level: Level) -> Color {
    let slot = first_slot(table, level, 0);
    if slot < table.len() {
        table[slot].1
    } else {
        Color::Default
    }
}

/// Every level keys exactly one entry of `table`.
spec fn one_entry_per_level(table: Seq<Entry>) -> bool {
    &&& table.len() == 5
    &&& forall|level: Level| #[trigger] first_slot(table, level, 0) < table.len()
    &&& forall|i: int, j: int|
        0 <= i < j < table.len() ==> (#[trigger] table[i]).0 != (#[trigger] table[j]).0
}

/// The colour a level has before anyone changes it.
pub open spec fn default_color(level: Level) -> Color {
    match level {
        Level::Error => Color::Rgb { r: 255, g: 0, b: 0 },
        Level::Warn => Color::Rgb { r: 255, g: 255, b: 0 },
        _ => Color::Default,
    }
}

/// The line that a record of `message` makes in `color`: the colour's escape
/// sequence, the message, and the reset sequence. The console adds the line
/// break.
pub open spec fn rendered_line(color: Color, message: Seq<char>) -> Seq<char> {
    color.escape_sequence() + message + reset_sequence()
}

/// What a logger is, seen from outside: a total map from levels to colours,
/// the current threshold, and where registration stands.
pub struct LoggerView {
    pub colors: Map<Level, Color>,
    pub level: Level,
    pub registration: Registration,
}

impl LoggerView {
    /// What initialization needs next in this state.
    pub open spec fn next_step(self) -> InitStep {
        match self.registration {
            Registration::Pending => InitStep::Register,
            Registration::Registered => InitStep::Settled(Ok(())),
            Registration::Rejected => InitStep::Settled(Err(AlreadyRegisteredError)),
        }
    }

    /// The state after initialization was asked for with `threshold` and the
    /// facade answered the offer, taking the logger (`accepted`) or not.
    /// Only a pending registration is settled by the answer, and only a
    /// logger that the facade took gets the threshold.
    pub open spec fn after_initialize(self, threshold: Option<Level>, accepted: bool) -> LoggerView {
        match self.registration {
            Registration::Pending => if accepted {
                LoggerView {
                    level: match threshold {
                        Some(level) => level,
                        None => self.level,
                    },
                    registration: Registration::Registered,
                    ..self
                }
            } else {
                LoggerView { registration: Registration::Rejected, ..self }
            },
            _ => self,
        }
    }

    /// What initialization reports in this state when the facade's answer
    /// is `accepted`.
    pub open spec fn initialize_result(self, accepted: bool) -> Result<(), AlreadyRegisteredError> {
        match self.registration {
            Registration::Pending => if accepted {
                Ok(())
            } else {
                Err(AlreadyRegisteredError)
            },
            Registration::Registered => Ok(()),
            Registration::Rejected => Err(AlreadyRegisteredError),
        }
    }
}

/// A colour for each level, the threshold, and the state of registration.
/// Every level keys exactly one entry of the table, at all times.
pub struct ColorLogger {
    color: [Entry; 5],
    level: Level,
    registration: Registration,
}

impl View for ColorLogger {
    type V = LoggerView;

    closed spec fn view(&self) -> LoggerView {
        LoggerView {
            colors: Map::new(|level: Level| true, |level: Level| lookup(self.color@, level)),
            level: self.level,
            registration: self.registration,
        }
    }
}

/// Where `first_slot` points, the entry is keyed by the level sought.
proof fn lemma_first_slot_keyed(table: Seq<Entry>, level: Level, from: int)
    requires
        0 <= from <= table.len(),
    ensures
        from <= first_slot(table, level, from) <= table.len(),
        first_slot(table, level, from) < table.len() ==> table[first_slot(
            table,
            level,
            from,
        )].0 == level,
    decreases table.len() - from,
{
    if from < table.len() && table[from].0 != level {
        lemma_first_slot_keyed(table, level, from + 1);
    }
}

/// Tables with the same keys in the same places have the same slots.
proof fn lemma_first_slot_same_keys(a: Seq<Entry>, b: Seq<Entry>, level: Level, from: int)
    requires
        a.len() == b.len(),
        forall|k: int| 0 <= k < a.len() ==> (#[trigger] a[k]).0 == b[k].0,
    ensures
        first_slot(a, level, from) == first_slot(b, level, from),
    decreases a.len() - from,
{
    if 0 <= from < a.len() && a[from].0 != level {
        lemma_first_slot_same_keys(a, b, level, from + 1);
    }
}

impl ColorLogger {
    #[verifier::type_invariant]
    spec fn well_formed(self) -> bool {
        one_entry_per_level(self.color@)
    }

    /// The colour that records of `level` are rendered in.
    #[verifier::inline]
    pub open spec fn spec_find_color(&self, level: Level) -> Color {
        self@.colors[level]
    }

    /// The logger's own threshold.
    #[verifier::inline]
    pub open spec fn spec_get_level(&self) -> Level {
        self@.level
    }

    /// A logger with the default colours and the threshold `Info`, not yet
    /// offered to the facade.
    pub fn new() -> (logger: ColorLogger)
        ensures
            logger@.colors.dom() == Set::<Level>::full(),
            forall|level: Level| #[trigger] logger.find_color(level) == default_color(level),
            logger.get_level() == Level::Info,
            logger@.registration == Registration::Pending,
    {
        let color = [
            (Level::Error, Color::rgb([255, 0, 0])),
            (Level::Warn, Color::rgb([255, 255, 0])),
            (Level::Info, Color::Default),
            (Level::Debug, Color::Default),
            (Level::Trace, Color::Default),
        ];
        proof {
            reveal_with_fuel(first_slot, 6);
            assert forall|level: Level| #[trigger]
                first_slot(color@, level, 0) < color@.len() && lookup(color@, level)
                    == default_color(level) by {
                assert(first_slot(color@, level, 0) == level.rank() - 1);
            }
        }
        let logger = ColorLogger { color, level: Level::Info, registration: Registration::Pending };
        assert(logger@.colors.dom() =~= Set::<Level>::full());
        logger
    }

    /// The colour that records of `level` are rendered in.
    #[verifier::when_used_as_spec(spec_find_color)]
    pub fn find_color(&self, level: Level) -> (color: Color)
        ensures
            color == self@.colors[level],
    {
        let mut i: usize = 0;
        while i < 5
            invariant
                i <= 5,
                first_slot(self.color@, level, 0) == first_slot(self.color@, level, i as int),
            decreases 5 - i,
        {
            let entry = self.color[i];
            if entry.0 == level {
                return entry.1;
            }
            i += 1;
        }
        // No entry is keyed by `level`: the answer of a table that lacks one.
        // A logger's table never does.
        Color::Default
    }

    /// Gives records of `level` the colour `color`, from now on.
    pub fn change_color(&mut self, level: Level, color: Color)
        ensures
            final(self).find_color(level) == color,
            forall|other: Level|
                other != level ==> #[trigger] final(self).find_color(other) == old(self).find_color(
                    other,
                ),
            final(self)@ == (LoggerView {
                colors: old(self)@.colors.insert(level, color),
                ..old(self)@
            }),
    {
        proof {
            use_type_invariant(&*self);
        }
        let mut table = self.color;
        let mut i: usize = 0;
        while i < 5
            invariant
                i <= 5,
                forall|k: int| 0 <= k < 5 ==> (#[trigger] table@[k]).0 == self.color@[k].0,
                forall|k: int|
                    0 <= k < i ==> (#[trigger] table@[k]).1 == (if self.color@[k].0 == level {
                        color
                    } else {
                        self.color@[k].1
                    }),
                forall|k: int| i <= k < 5 ==> (#[trigger] table@[k]) == self.color@[k],
            decreases 5 - i,
        {
            if table[i].0 == level {
                table[i] = (level, color);
            }
            i += 1;
        }
        proof {
            let before = self.color@;
            let after = table@;
            assert forall|l: Level| #[trigger]
                first_slot(after, l, 0) == first_slot(before, l, 0) by {
                lemma_first_slot_same_keys(after, before, l, 0);
            }
            assert forall|l: Level| #[trigger]
                lookup(after, l) == (if l == level {
                    color
                } else {
                    lookup(before, l)
                }) by {
                lemma_first_slot_keyed(before, l, 0);
                assert(first_slot(after, l, 0) == first_slot(before, l, 0));
            }
            assert(one_entry_per_level(after));
        }
        self.color = table;
        assert(self@.colors =~= old(self)@.colors.insert(level, color));
    }

    /// Sets the logger's own threshold.
    pub fn set_level(&mut self, level: Level)
        ensures
            final(self).get_level() == level,
            final(self)@ == (LoggerView { level: level, ..old(self)@ }),
    {
        proof {
            use_type_invariant(&*self);
        }
        self.level = level;
    }

    /// The logger's own threshold.
    #[verifier::when_used_as_spec(spec_get_level)]
    pub fn get_level(&self) -> (level: Level)
        ensures
            level == self@.level,
    {
        self.level
    }

    /// Whether records of `level` are rendered: those at least as urgent as
    /// `CEILING` are. The ceiling is fixed; the threshold that `set_level`
    /// sets is kept and reported, and does not decide here.
    pub fn enabled(&self, level: Level) -> (admitted: bool)
        ensures
            admitted == CEILING.admits(level),
    {
        CEILING.admits(level)
    }

    /// The line to write to the console for a record of `level` that says
    /// `message`, or `None` where such records are not rendered.
    pub fn log(&self, level: Level, message: &str) -> (line: Option<String>)
        ensures
            match line {
                Some(text) => CEILING.admits(level) && text@ == rendered_line(
                    self.find_color(level),
                    message@,
                ),
                None => !CEILING.admits(level),
            },
    {
        if !self.enabled(level) {
            return None;
        }
        let color = self.find_color(level);
        let mut text = color.terminal_format();
        text.append(message);
        text.append("\x1b[0m");
        proof {
            reveal_strlit("\x1b[0m");
            assert(text@ =~= rendered_line(color, message@));
        }
        Some(text)
    }

    /// Nothing is buffered, so there is nothing to flush.
    pub fn flush(&self) {
    }

    /// What initialization needs next: to offer the logger to the facade
    /// while no offer has been made, and nothing after that.
    pub fn begin_initialize(&self) -> (step: InitStep)
        ensures
            step == self@.next_step(),
    {
        match self.registration {
            Registration::Pending => InitStep::Register,
            Registration::Registered => InitStep::Settled(Ok(())),
            Registration::Rejected => InitStep::Settled(Err(AlreadyRegisteredError)),
        }
    }

    /// Settles initialization with `outcome`, the facade's answer to the
    /// offer of this logger. Where the registration was pending and the
    /// facade took the logger, the facade is given `CEILING` and the logger
    /// the threshold, if one is supplied. Where the facade refused, the
    /// refusal is recorded and reported. Where registration was settled
    /// before, nothing changes and the earlier result is reported again.
    pub fn initialize(
        &mut self,
        threshold: Option<Level>,
        outcome: Result<(), SetLoggerError>,
    ) -> (result: Result<(), AlreadyRegisteredError>)
        ensures
            final(self)@ == old(self)@.after_initialize(threshold, outcome is Ok),
            result == old(self)@.initialize_result(outcome is Ok),
    {
        proof {
            use_type_invariant(&*self);
        }
        match self.registration {
            Registration::Pending => match outcome {
                Ok(()) => {
                    set_max_level(CEILING);
                    if let Some(level) = threshold {
                        self.level = level;
                    }
                    self.registration = Registration::Registered;
                    Ok(())
                },
                Err(_) => {
                    self.registration = Registration::Rejected;
                    Err(AlreadyRegisteredError)
                },
            },
            Registration::Registered => Ok(()),
            Registration::Rejected => Err(AlreadyRegisteredError),
        }
    }
}

/// Every level has a colour, in every state of the logger.
pub proof fn lemma_every_level_has_a_color(logger: ColorLogger)
    ensures
        logger@.colors.dom() == Set::<Level>::full(),
{
    assert(logger@.colors.dom() =~= Set::<Level>::full());
}

/// The colours after each update of `updates`, a level and its new colour,
/// was applied to `colors`, the first one first.
pub open spec fn apply_updates(colors: Map<Level, Color>, updates: Seq<(Level, Color)>) -> Map<
    Level,
    Color,
>
    decreases updates.len(),
{
    if updates.len() == 0 {
        colors
    } else {
        apply_updates(colors, updates.drop_last()).insert(updates.last().0, updates.last().1)
    }
}

/// No two of `updates` are to the same level.
pub open spec fn distinct_levels(updates: Seq<(Level, Color)>) -> bool {
    forall|i: int, j: int|
        0 <= i < j < updates.len() ==> (#[trigger] updates[i]).0 != (#[trigger] updates[j]).0
}

/// What `lemma_no_update_is_lost` says, of any table that gives every level
/// a colour.
proof fn lemma_updates_of_total_table(colors: Map<Level, Color>, updates: Seq<(Level, Color)>)
    requires
        colors.dom() == Set::<Level>::full(),
        distinct_levels(updates),
    ensures
        apply_updates(colors, updates).dom() == Set::<Level>::full(),
        forall|i: int|
            0 <= i < updates.len() ==> apply_updates(colors, updates)[(#[trigger] updates[i]).0]
                == updates[i].1,
        forall|level: Level|
            (forall|i: int| 0 <= i < updates.len() ==> (#[trigger] updates[i]).0 != level)
                ==> #[trigger] apply_updates(colors, updates)[level] == colors[level],
    decreases updates.len(),
{
    if updates.len() > 0 {
        let earlier = updates.drop_last();
        lemma_updates_of_total_table(colors, earlier);
        assert(apply_updates(colors, updates).dom() =~= Set::<Level>::full());
        assert forall|i: int| 0 <= i < updates.len() implies apply_updates(
            colors,
            updates,
        )[(#[trigger] updates[i]).0] == updates[i].1 by {
            if i < updates.len() - 1 {
                assert(earlier[i] == updates[i]);
                assert(updates[i].0 != updates[updates.len() - 1].0);
            }
        }
        assert forall|level: Level|
            (forall|i: int|
                0 <= i < updates.len() ==> (#[trigger] updates[i]).0
                    != level) implies #[trigger] apply_updates(colors, updates)[level]
            == colors[level] by {
            assert(updates[updates.len() - 1].0 != level);
            assert forall|i: int| 0 <= i < earlier.len() implies (#[trigger] earlier[i]).0
                != level by {
                assert(earlier[i] == updates[i]);
            }
        }
    }
}

/// No update is lost: where the updates are to distinct levels, each of them
/// is in the logger's table once all were applied, in whatever order that
/// was, and the levels that none of them names keep their colour.
pub proof fn lemma_no_update_is_lost(logger: ColorLogger, updates: Seq<(Level, Color)>)
    requires
        distinct_levels(updates),
    ensures
        forall|i: int|
            0 <= i < updates.len() ==> apply_updates(
                logger@.colors,
                updates,
            )[(#[trigger] updates[i]).0] == updates[i].1,
        forall|level: Level|
            (forall|i: int| 0 <= i < updates.len() ==> (#[trigger] updates[i]).0 != level)
                ==> #[trigger] apply_updates(logger@.colors, updates)[level]
                == logger@.colors[level],
{
    lemma_every_level_has_a_color(logger);
    lemma_updates_of_total_table(logger@.colors, updates);
}

/// The order of updates to distinct levels does not matter: applied to the
/// same logger, the same updates in any two orders end in the same table.
pub proof fn lemma_update_order_is_irrelevant(
    logger: ColorLogger,
    one: Seq<(Level, Color)>,
    other: Seq<(Level, Color)>,
)
    requires
        distinct_levels(one),
        distinct_levels(other),
        forall|i: int| 0 <= i < one.len() ==> other.contains(#[trigger] one[i]),
        forall|i: int| 0 <= i < other.len() ==> one.contains(#[trigger] other[i]),
    ensures
        apply_updates(logger@.colors, one) == apply_updates(logger@.colors, other),
{
    let colors = logger@.colors;
    lemma_every_level_has_a_color(logger);
    lemma_updates_of_total_table(colors, one);
    lemma_updates_of_total_table(colors, other);
    assert forall|level: Level| #[trigger]
        apply_updates(colors, one)[level] == apply_updates(colors, other)[level] by {
        if exists|i: int| 0 <= i < one.len() && (#[trigger] one[i]).0 == level {
            let i = choose|i: int| 0 <= i < one.len() && (#[trigger] one[i]).0 == level;
            assert(other.contains(one[i]));
            let j = choose|j: int| 0 <= j < other.len() && other[j] == one[i];
            assert(other[j].0 == level);
        } else {
            assert forall|j: int| 0 <= j < other.len() implies (#[trigger] other[j]).0
                != level by {
                assert(one.contains(other[j]));
                let i = choose|i: int| 0 <= i < one.len() && one[i] == other[j];
                assert(one[i].0 == other[j].0);
            }
        }
    }
    assert(apply_updates(colors, one) =~= apply_updates(colors, other));
}

/// Initializing again changes nothing: once initialization has been asked
/// for, whatever the facade answered, asking again leaves every colour, the
/// threshold and the registration as they were, whatever threshold is
/// supplied and whatever the facade answers then, and reports what was
/// reported the first time.
pub proof fn lemma_initialize_again_changes_nothing(
    logger: ColorLogger,
    first_threshold: Option<Level>,
    first_outcome: Result<(), SetLoggerError>,
    threshold: Option<Level>,
    outcome: Result<(), SetLoggerError>,
)
    ensures
        ({
            let once = logger@.after_initialize(first_threshold, first_outcome is Ok);
            let again = once.after_initialize(threshold, outcome is Ok);
            &&& again == once
            &&& forall|level: Level| again.colors[level] == once.colors[level]
            &&& again.level == once.level
            &&& once.initialize_result(outcome is Ok) == logger@.initialize_result(
                first_outcome is Ok,
            )
        }),
{
}

} // verus!
