//! Short-lived map notices and the warnings that raise them.
//!
//! At most seven notices are shown; a new one pushes out the oldest. Each notice lasts
//! five seconds. A warning is raised when its condition starts to hold and not again
//! until the condition has cleared.

use vstd::prelude::*;

use crate::text::push_all;

verus! {

/// How long a notice stays on screen, in milliseconds.
pub const TOAST_MILLIS: u32 = 5000;

/// Most notices shown at once.
pub const MAX_TOASTS: usize = 7;

/// Number of watched conditions: four unhappy classes, low food and low coin.
pub const WARNING_COUNT: usize = 6;

/// Severity of a notice; each has its own sound.
#[derive(Clone, Copy, Debug, PartialEq, Eq, Structural)]
pub enum ToastLevel {
    Info,
    Warning,
    Error,
}

/// What clicking a notice does.
#[derive(Clone, Copy, Debug, PartialEq, Eq, Structural)]
pub enum ToastAction {
    /// Opens the governance panel.
    OpenGovernance,
}

/// One notice.
#[derive(Clone, Debug)]
pub struct Toast {
    /// Message shown.
    pub text: String,
    /// Severity.
    pub level: ToastLevel,
    /// What clicking it does, if anything.
    pub action: Option<ToastAction>,
    /// Time left on screen, in milliseconds.
    pub millis_left: u32,
}

/// Sound slot of each severity.
pub open spec fn level_slot(level: ToastLevel) -> int {
    match level {
        ToastLevel::Info => 0,
        ToastLevel::Warning => 1,
        ToastLevel::Error => 2,
    }
}

fn slot_of(level: ToastLevel) -> (slot: usize)
    ensures
        slot == level_slot(level),
{
    match level {
        ToastLevel::Info => 0,
        ToastLevel::Warning => 1,
        ToastLevel::Error => 2,
    }
}

/// A fresh notice with no action.
pub open spec fn fresh_toast(text: Seq<char>, level: ToastLevel, toast: Toast) -> bool {
    &&& toast.text@ == text
    &&& toast.level == level
    &&& toast.action is None
    &&& toast.millis_left == TOAST_MILLIS
}

impl Toast {
    /// An informational notice.
    pub fn info(text: &str) -> (toast: Toast)
        ensures
            fresh_toast(text@, ToastLevel::Info, toast),
    {
        Toast::new(text, ToastLevel::Info)
    }

    /// A warning notice.
    pub fn warning(text: &str) -> (toast: Toast)
        ensures
            fresh_toast(text@, ToastLevel::Warning, toast),
    {
        Toast::new(text, ToastLevel::Warning)
    }

    /// An error notice.
    pub fn error(text: &str) -> (toast: Toast)
        ensures
            fresh_toast(text@, ToastLevel::Error, toast),
    {
        Toast::new(text, ToastLevel::Error)
    }

    fn new(text: &str, level: ToastLevel) -> (toast: Toast)
        ensures
            fresh_toast(text@, level, toast),
    {
        Toast { text: String::from_str(text), level, action: None, millis_left: TOAST_MILLIS }
    }

    /// The same notice, doing `action` when clicked.
    pub fn with_action(self, action: ToastAction) -> (toast: Toast)
        ensures
            toast.text == self.text,
            toast.level == self.level,
            toast.millis_left == self.millis_left,
            toast.action == Some(action),
    {
        let mut toast = self;
        toast.action = Some(action);
        toast
    }
}

/// The last `MAX_TOASTS` notices of `toasts`.
pub open spec fn newest(toasts: Seq<Toast>) -> Seq<Toast> {
    if toasts.len() > MAX_TOASTS {
        toasts.subrange(toasts.len() - MAX_TOASTS, toasts.len() as int)
    } else {
        toasts
    }
}

/// The queue after `toast` arrives.
pub open spec fn pushed(toasts: Seq<Toast>, toast: Toast) -> Seq<Toast> {
    newest(toasts.push(toast))
}

/// `toast` after `elapsed` more milliseconds on screen.
pub open spec fn aged_toast(toast: Toast, elapsed: u32) -> Toast {
    Toast { millis_left: (toast.millis_left - elapsed) as u32, ..toast }
}

/// The notices still showing after `elapsed` milliseconds, in their order.
pub open spec fn aged(toasts: Seq<Toast>, elapsed: u32) -> Seq<Toast>
    decreases toasts.len(),
{
    if toasts.len() == 0 {
        toasts
    } else {
        let rest = aged(toasts.drop_first(), elapsed);
        if toasts[0].millis_left > elapsed {
            seq![aged_toast(toasts[0], elapsed)] + rest
        } else {
            rest
        }
    }
}

/// The notices on screen and the sounds they still have to play.
pub struct ToastQueue {
    /// Notices, oldest first.
    pub toasts: Vec<Toast>,
    /// Per severity (info, warning, error): a notice of it arrived since the last sound.
    pub pending_sounds: [bool; 3],
}

impl ToastQueue {
    /// An empty queue with no sounds due.
    pub fn new() -> (queue: ToastQueue)
        ensures
            queue.toasts@.len() == 0,
            queue.pending_sounds@ == seq![false, false, false],
    {
        let queue = ToastQueue { toasts: Vec::new(), pending_sounds: [false, false, false] };
        assert(queue.pending_sounds@ =~= seq![false, false, false]);
        queue
    }

    /// Shows `toast`, dropping the oldest notice when more than seven would show, and
    /// marks its severity's sound as due.
    pub fn push(&mut self, toast: Toast)
        ensures
            final(self).toasts@ == pushed(old(self).toasts@, toast),
            final(self).pending_sounds@ == old(self).pending_sounds@.update(
                level_slot(toast.level),
                true,
            ),
    {
        let slot = slot_of(toast.level);
        let p = self.pending_sounds;
        self.pending_sounds = [
            if slot == 0 {
                true
            } else {
                p[0]
            },
            if slot == 1 {
                true
            } else {
                p[1]
            },
            if slot == 2 {
                true
            } else {
                p[2]
            },
        ];
        assert(self.pending_sounds@ =~= p@.update(slot as int, true));
        let ghost grown = self.toasts@.push(toast);
        let ghost sounds = self.pending_sounds;
        self.toasts.push(toast);
        while self.toasts.len() > MAX_TOASTS
            invariant
                self.pending_sounds == sounds,
                grown.len() >= self.toasts@.len(),
                self.toasts@ == grown.subrange(grown.len() - self.toasts@.len(), grown.len() as int),
                self.toasts@.len() >= MAX_TOASTS || self.toasts@.len() == grown.len(),
            decreases self.toasts@.len(),
        {
            self.toasts.remove(0);
            assert(self.toasts@ =~= grown.subrange(
                grown.len() - self.toasts@.len(),
                grown.len() as int,
            ));
        }
        proof {
            if grown.len() <= MAX_TOASTS {
                assert(grown.subrange(0, grown.len() as int) =~= grown);
            }
        }
    }

    /// Removes every notice and every due sound.
    pub fn clear(&mut self)
        ensures
            final(self).toasts@.len() == 0,
            final(self).pending_sounds@ == seq![false, false, false],
    {
        self.toasts = Vec::new();
        self.pending_sounds = [false, false, false];
        assert(self.pending_sounds@ =~= seq![false, false, false]);
    }

    /// Hands over the due sounds, at most one per severity, and marks none as due.
    pub fn take_pending_sounds(&mut self) -> (due: [bool; 3])
        ensures
            due == old(self).pending_sounds,
            final(self).pending_sounds@ == seq![false, false, false],
            final(self).toasts@ == old(self).toasts@,
    {
        let due = self.pending_sounds;
        self.pending_sounds = [false, false, false];
        assert(self.pending_sounds@ =~= seq![false, false, false]);
        due
    }

    /// Lets `elapsed` milliseconds pass: each notice loses that much time and those with
    /// none left disappear.
    pub fn advance(&mut self, elapsed: u32)
        ensures
            final(self).toasts@ == aged(old(self).toasts@, elapsed),
            final(self).pending_sounds == old(self).pending_sounds,
    {
        let mut waiting = Vec::new();
        std::mem::swap(&mut waiting, &mut self.toasts);
        let ghost original = waiting@;
        let mut kept: Vec<Toast> = Vec::new();
        while waiting.len() > 0
            invariant
                kept@ + aged(waiting@, elapsed) == aged(original, elapsed),
            decreases waiting@.len(),
        {
            let ghost rest = waiting@;
            let toast = waiting.remove(0);
            assert(waiting@ =~= rest.drop_first());
            if toast.millis_left > elapsed {
                let ghost kept_before = kept@;
                let aged_one = Toast {
                    text: toast.text,
                    level: toast.level,
                    action: toast.action,
                    millis_left: toast.millis_left - elapsed,
                };
                kept.push(aged_one);
                assert(kept@ + aged(waiting@, elapsed) =~= kept_before + aged(rest, elapsed));
            }
        }
        assert(aged(waiting@, elapsed) =~= Seq::<Toast>::empty());
        assert(kept@ =~= aged(original, elapsed));
        self.toasts = kept;
    }

    /// Removes the notice at `index`, as clicking it does.
    pub fn dismiss(&mut self, index: usize)
        requires
            index < old(self).toasts@.len(),
        ensures
            final(self).toasts@ == old(self).toasts@.remove(index as int),
            final(self).pending_sounds == old(self).pending_sounds,
    {
        self.toasts.remove(index);
    }
}

/// Names of the social classes, nobles first.
pub const POP_CLASS_NAMES: [&'static str; 4] = ["Nobles", "Citizens", "Plebeians", "Slaves"];

/// Message of warning `index`.
pub open spec fn warning_text(index: int) -> Seq<char> {
    if index < 4 {
        POP_CLASS_NAMES@[index]@ + " are unhappy."@
    } else if index == 4 {
        "Food stores are almost empty."@
    } else {
        "The treasury is almost empty."@
    }
}

/// The clickable warning notice for condition `index`.
pub open spec fn is_warning_toast(index: int, toast: Toast) -> bool {
    &&& toast.text@ == warning_text(index)
    &&& toast.level == ToastLevel::Warning
    &&& toast.action == Some(ToastAction::OpenGovernance)
    &&& toast.millis_left == TOAST_MILLIS
}

/// The queue after the first `count` conditions are looked at: each one that holds now
/// and did not before (`active`) raises its notice from `warnings`.
pub open spec fn raise_warnings(
    queue: Seq<Toast>,
    active: Seq<bool>,
    conditions: Seq<bool>,
    count: int,
    warnings: Seq<Toast>,
) -> Seq<Toast>
    decreases count,
{
    if count <= 0 {
        queue
    } else {
        let before = raise_warnings(queue, active, conditions, count - 1, warnings);
        if conditions[count - 1] && !active[count - 1] {
            pushed(before, warnings[count - 1])
        } else {
            before
        }
    }
}

proof fn lemma_raise_ignores_later_warnings(
    queue: Seq<Toast>,
    active: Seq<bool>,
    conditions: Seq<bool>,
    count: int,
    warnings: Seq<Toast>,
    later: int,
    toast: Toast,
)
    requires
        later >= count,
        0 <= later < warnings.len(),
    ensures
        raise_warnings(queue, active, conditions, count, warnings) == raise_warnings(
            queue,
            active,
            conditions,
            count,
            warnings.update(later, toast),
        ),
    decreases count,
{
    if count > 0 {
        lemma_raise_ignores_later_warnings(queue, active, conditions, count - 1, warnings, later, toast);
    }
}

/// A warning is raised only when its condition starts to hold: looking again at the
/// conditions seen last time raises nothing.
pub proof fn lemma_steady_conditions_raise_nothing(
    queue: Seq<Toast>,
    conditions: Seq<bool>,
    count: int,
    warnings: Seq<Toast>,
)
    ensures
        raise_warnings(queue, conditions, conditions, count, warnings) == queue,
    decreases count,
{
    if count > 0 {
        lemma_steady_conditions_raise_nothing(queue, conditions, count - 1, warnings);
    }
}

/// A condition that holds now and did not at the last look raises its warning, and the
/// warning is still shown once every condition has been looked at.
pub proof fn lemma_new_condition_raises_its_warning(
    queue: Seq<Toast>,
    active: Seq<bool>,
    conditions: Seq<bool>,
    warnings: Seq<Toast>,
    index: int,
)
    requires
        0 <= index < WARNING_COUNT,
        conditions.len() == WARNING_COUNT,
        active.len() == WARNING_COUNT,
        conditions[index],
        !active[index],
    ensures
        raise_warnings(queue, active, conditions, WARNING_COUNT as int, warnings).contains(
            warnings[index],
        ),
{
    lemma_raised_warning_stays(queue, active, conditions, WARNING_COUNT as int, warnings, index);
    let shown = raise_warnings(queue, active, conditions, WARNING_COUNT as int, warnings);
    let back = choose|back: int|
        back <= WARNING_COUNT - index - 1 && #[trigger] at_from_end(shown, back, warnings[index]);
    assert(shown[shown.len() - 1 - back] == warnings[index]);
}

/// `toast` stands `back` places before the end of `shown`.
spec fn at_from_end(shown: Seq<Toast>, back: int, toast: Toast) -> bool {
    0 <= back < shown.len() && shown[shown.len() - 1 - back] == toast
}

/// Once raised, warning `index` stays among the shown notices, at most one place further
/// from the end for each later condition.
proof fn lemma_raised_warning_stays(
    queue: Seq<Toast>,
    active: Seq<bool>,
    conditions: Seq<bool>,
    count: int,
    warnings: Seq<Toast>,
    index: int,
)
    requires
        0 <= index < count <= WARNING_COUNT,
        conditions.len() == WARNING_COUNT,
        active.len() == WARNING_COUNT,
        conditions[index],
        !active[index],
    ensures
        exists|back: int|
            back <= count - index - 1 && #[trigger] at_from_end(
                raise_warnings(queue, active, conditions, count, warnings),
                back,
                warnings[index],
            ),
    decreases count,
{
    let before = raise_warnings(queue, active, conditions, count - 1, warnings);
    let shown = raise_warnings(queue, active, conditions, count, warnings);
    if count == index + 1 {
        assert(shown == pushed(before, warnings[index]));
        assert(at_from_end(shown, 0, warnings[index]));
    } else {
        lemma_raised_warning_stays(queue, active, conditions, count - 1, warnings, index);
        let back = choose|back: int|
            back <= count - 1 - index - 1 && #[trigger] at_from_end(before, back, warnings[index]);
        if conditions[count - 1] && !active[count - 1] {
            let grown = before.push(warnings[count - 1]);
            assert(grown[grown.len() - 1 - (back + 1)] == warnings[index]);
            assert(at_from_end(shown, back + 1, warnings[index]));
        } else {
            assert(at_from_end(shown, back, warnings[index]));
        }
    }
}

/// At most seven notices show: when one arrives at a queue of seven or fewer it becomes
/// the last, the queue grows by one up to seven, and the oldest ones leave first.
pub proof fn lemma_queue_keeps_the_newest_seven(toasts: Seq<Toast>, toast: Toast)
    requires
        toasts.len() <= MAX_TOASTS,
    ensures
        pushed(toasts, toast).len() == if toasts.len() < MAX_TOASTS {
            toasts.len() + 1int
        } else {
            MAX_TOASTS as int
        },
        pushed(toasts, toast).last() == toast,
        pushed(toasts, toast).drop_last() == toasts.subrange(
            toasts.len() + 1 - pushed(toasts, toast).len(),
            toasts.len() as int,
        ),
{
    let grown = toasts.push(toast);
    let shown = pushed(toasts, toast);
    if toasts.len() < MAX_TOASTS {
        assert(shown == grown);
        assert(shown.drop_last() =~= toasts.subrange(0, toasts.len() as int));
    } else {
        assert(shown.drop_last() =~= toasts.subrange(1, toasts.len() as int));
    }
}

fn warning_message(index: usize) -> (text: String)
    requires
        index < WARNING_COUNT,
    ensures
        text@ == warning_text(index as int),
{
    let mut text = String::new();
    if index < 4 {
        push_all(&mut text, POP_CLASS_NAMES[index]);
        push_all(&mut text, " are unhappy.");
    } else if index == 4 {
        push_all(&mut text, "Food stores are almost empty.");
    } else {
        push_all(&mut text, "The treasury is almost empty.");
    }
    text
}

/// Tracks which warnings are active, so a lasting shortage raises one notice until it clears.
pub struct WarningWatch {
    /// Player whose warnings are tracked.
    pub player: Option<usize>,
    /// Per condition: it held at the last look.
    pub active: [bool; 6],
    /// The start of the game has been announced.
    pub announced_game: bool,
}

/// Announcement shown when a local game begins.
pub const GAME_STARTED: &'static str = "Local practice started.";

impl WarningWatch {
    /// A watch that has seen nothing yet.
    pub fn new() -> (watch: WarningWatch)
        ensures
            watch.player is None,
            watch.active@ == seq![false, false, false, false, false, false],
            !watch.announced_game,
    {
        let watch = WarningWatch { player: None, active: [false, false, false, false, false, false], announced_game: false };
        assert(watch.active@ =~= seq![false, false, false, false, false, false]);
        watch
    }

    /// Looks at `player`'s warning conditions (four unhappy classes, low food, low coin).
    /// Watching a new player clears the notices; the first look announces the game; each
    /// condition that now holds and did not before raises a clickable warning.
    pub fn observe(&mut self, player: usize, conditions: [bool; 6], toasts: &mut ToastQueue)
        ensures
            final(self).player == Some(player),
            final(self).active == conditions,
            final(self).announced_game,
            ({
                let switched = old(self).player != Some(player);
                let base = if switched {
                    Seq::<Toast>::empty()
                } else {
                    old(toasts).toasts@
                };
                let active = if switched {
                    seq![false, false, false, false, false, false]
                } else {
                    old(self).active@
                };
                exists|announcement: Toast, warnings: Seq<Toast>|
                    {
                        &&& fresh_toast(GAME_STARTED@, ToastLevel::Info, announcement)
                        &&& warnings.len() == WARNING_COUNT
                        &&& forall|i: int|
                            0 <= i < WARNING_COUNT && conditions@[i] && !active[i]
                                ==> is_warning_toast(i, #[trigger] warnings[i])
                        &&& final(toasts).toasts@ == raise_warnings(
                            if old(self).announced_game {
                                base
                            } else {
                                pushed(base, announcement)
                            },
                            active,
                            conditions@,
                            WARNING_COUNT as int,
                            warnings,
                        )
                    }
            }),
            old(self).player == Some(player) && old(self).announced_game && old(self).active
                == conditions ==> final(toasts).toasts@ == old(toasts).toasts@,
            ({
                let switched = old(self).player != Some(player);
                let due = if switched {
                    seq![false, false, false]
                } else {
                    old(toasts).pending_sounds@
                };
                let active = if switched {
                    seq![false, false, false, false, false, false]
                } else {
                    old(self).active@
                };
                &&& final(toasts).pending_sounds@[0] == (due[0] || !old(self).announced_game)
                &&& final(toasts).pending_sounds@[1] == (due[1] || exists|i: int|
                    0 <= i < WARNING_COUNT && #[trigger] conditions@[i] && !active[i])
                &&& final(toasts).pending_sounds@[2] == due[2]
            }),
    {
        let switched = self.player != Some(player);
        if switched {
            toasts.clear();
            self.player = Some(player);
            self.active = [false, false, false, false, false, false];
            assert(self.active@ =~= seq![false, false, false, false, false, false]);
        }
        let announcement = Toast::info(GAME_STARTED);
        let ghost announced = self.announced_game;
        if !self.announced_game {
            toasts.push(announcement);
            self.announced_game = true;
        } else {
        }
        let ghost start_queue = toasts.toasts@;
        let ghost start_sounds = toasts.pending_sounds@;
        let ghost active = self.active@;
        assert(start_queue == if announced {
            if switched { Seq::<Toast>::empty() } else { old(toasts).toasts@ }
        } else {
            pushed(if switched { Seq::<Toast>::empty() } else { old(toasts).toasts@ }, announcement)
        });
        assert(active == if switched { seq![false, false, false, false, false, false] } else { old(self).active@ });
        let ghost mut warnings = Seq::new(
            6,
            |i: int| Toast {
                text: arbitrary(),
                level: ToastLevel::Warning,
                action: Some(ToastAction::OpenGovernance),
                millis_left: TOAST_MILLIS,
            },
        );
        let mut index: usize = 0;
        while index < WARNING_COUNT
            invariant
                index <= WARNING_COUNT,
                active.len() == 6,
                self.active@.len() == 6,
                forall|i: int| index <= i < 6 ==> self.active@[i] == active[i],
                forall|i: int| 0 <= i < index ==> self.active@[i] == conditions@[i],
                warnings.len() == 6,
                forall|i: int|
                    0 <= i < index && conditions@[i] && !active[i] ==> is_warning_toast(
                        i,
                        #[trigger] warnings[i],
                    ),
                self.player == Some(player),
                self.announced_game,
                toasts.toasts@ == raise_warnings(start_queue, active, conditions@, index as int, warnings),
                toasts.pending_sounds@[0] == start_sounds[0],
                toasts.pending_sounds@[2] == start_sounds[2],
                toasts.pending_sounds@[1] == (start_sounds[1] || exists|i: int|
                    0 <= i < index && #[trigger] conditions@[i] && !active[i]),
            decreases WARNING_COUNT - index,
        {
            let holds = conditions[index];
            if holds && !self.active[index] {
                let warning = Toast::warning(warning_message(index).as_str()).with_action(
                    ToastAction::OpenGovernance,
                );
                proof {
                    lemma_raise_ignores_later_warnings(
                        start_queue,
                        active,
                        conditions@,
                        index as int,
                        warnings,
                        index as int,
                        warning,
                    );
                    warnings = warnings.update(index as int, warning);
                }
                toasts.push(warning);
            }
            let a = self.active;
            self.active = [
                if index == 0 {
                    holds
                } else {
                    a[0]
                },
                if index == 1 {
                    holds
                } else {
                    a[1]
                },
                if index == 2 {
                    holds
                } else {
                    a[2]
                },
                if index == 3 {
                    holds
                } else {
                    a[3]
                },
                if index == 4 {
                    holds
                } else {
                    a[4]
                },
                if index == 5 {
                    holds
                } else {
                    a[5]
                },
            ];
            index = index + 1;
        }
        assert(self.active@ =~= conditions@);
        proof {
            assert(fresh_toast(GAME_STARTED@, ToastLevel::Info, announcement));
            assert(warnings.len() == WARNING_COUNT);
            assert(toasts.toasts@ == raise_warnings(start_queue, active, conditions@, WARNING_COUNT as int, warnings));
            if !switched && announced && active == conditions@ {
                lemma_steady_conditions_raise_nothing(start_queue, conditions@, 6, warnings);
            }
        }
    }
}

} // verus!
