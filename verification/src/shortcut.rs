//! A chord of modifier keys, as a setting: what a hold is taken with. Keys with
//! characters are not part of it.

use vstd::prelude::*;
use vstd::string::*;

use crate::text::same_text;

verus! {

/// One modifier key.
#[derive(Clone, Copy, Debug, PartialEq, Eq, Structural)]
pub enum Key {
    Control,
    Option,
    Shift,
    Command,
}

/// The modifier keys held at one moment, as the system reports them.
#[derive(Clone, Copy, Debug, Default, PartialEq, Eq, Structural)]
pub struct Modifiers {
    pub option: bool,
    pub shift: bool,
    pub command: bool,
    pub control: bool,
}

impl Key {
    /// In the order the keys sit on the keyboard.
    pub const ALL: [Key; 4] = [Key::Control, Key::Option, Key::Shift, Key::Command];

    /// The key's symbol, as the menu bar spells it.
    pub open spec fn symbol_text(self) -> Seq<char> {
        match self {
            Key::Control => "⌃"@,
            Key::Option => "⌥"@,
            Key::Shift => "⇧"@,
            Key::Command => "⌘"@,
        }
    }

    /// The key's name in a stored chord.
    pub open spec fn stored_text(self) -> Seq<char> {
        match self {
            Key::Control => "control"@,
            Key::Option => "option"@,
            Key::Shift => "shift"@,
            Key::Command => "command"@,
        }
    }

    /// The key's symbol, as the menu bar spells it.
    pub fn symbol(self) -> (r: &'static str)
        ensures
            r@ == self.symbol_text(),
    {
        match self {
            Key::Control => "⌃",
            Key::Option => "⌥",
            Key::Shift => "⇧",
            Key::Command => "⌘",
        }
    }

    /// The key's name in a stored chord.
    pub fn stored(self) -> (r: &'static str)
        ensures
            r@ == self.stored_text(),
    {
        match self {
            Key::Control => "control",
            Key::Option => "option",
            Key::Shift => "shift",
            Key::Command => "command",
        }
    }

    /// The key a stored name names; `None` for a name no key has.
    pub fn from_stored(name: &str) -> (r: Option<Key>)
        ensures
            r == key_named(name@),
    {
        proof {
            lemma_key_names_differ();
        }
        if same_text(Key::Control.stored(), name) {
            Some(Key::Control)
        } else if same_text(Key::Option.stored(), name) {
            Some(Key::Option)
        } else if same_text(Key::Shift.stored(), name) {
            Some(Key::Shift)
        } else if same_text(Key::Command.stored(), name) {
            Some(Key::Command)
        } else {
            None
        }
    }
}

/// The key whose stored name a text is, if any.
pub open spec fn key_named(name: Seq<char>) -> Option<Key> {
    if name == Key::Control.stored_text() {
        Some(Key::Control)
    } else if name == Key::Option.stored_text() {
        Some(Key::Option)
    } else if name == Key::Shift.stored_text() {
        Some(Key::Shift)
    } else if name == Key::Command.stored_text() {
        Some(Key::Command)
    } else {
        None
    }
}

/// No two keys share a stored name, and no name holds the `+` that joins them.
pub proof fn lemma_key_names_differ()
    ensures
        forall|k: Key| key_named(#[trigger] k.stored_text()) == Some(k),
        forall|k: Key, i: int|
            0 <= i < k.stored_text().len() ==> #[trigger] k.stored_text()[i] != '+',
        forall|k: Key| #[trigger] k.stored_text().len() > 0,
{
    reveal_strlit("control");
    reveal_strlit("option");
    reveal_strlit("shift");
    reveal_strlit("command");
    assert("control"@.len() == 7 && "option"@.len() == 6 && "shift"@.len() == 5
        && "command"@.len() == 7);
    assert("control"@ != "command"@) by {
        assert("control"@[2] != "command"@[2]);
    }
    assert forall|k: Key| key_named(#[trigger] k.stored_text()) == Some(k) by {
        match k {
            Key::Control => {},
            Key::Option => {},
            Key::Shift => {},
            Key::Command => {},
        }
    }
}

/// A set of modifier keys held together.
#[derive(Clone, Copy, Debug, Default, PartialEq, Eq, Structural)]
pub struct Chord {
    pub control: bool,
    pub option: bool,
    pub shift: bool,
    pub command: bool,
}

/// AppKit's modifier flag for a held Shift key.
pub const SHIFT_FLAG: u64 = 0x2_0000;
/// AppKit's modifier flag for a held Control key.
pub const CONTROL_FLAG: u64 = 0x4_0000;
/// AppKit's modifier flag for a held Option key.
pub const OPTION_FLAG: u64 = 0x8_0000;
/// AppKit's modifier flag for a held Command key.
pub const COMMAND_FLAG: u64 = 0x10_0000;

impl Modifiers {
    /// The keys an event's modifier flags say are held.
    pub fn of(flags: u64) -> (r: Modifiers)
        ensures
            r.option == (flags & OPTION_FLAG != 0),
            r.shift == (flags & SHIFT_FLAG != 0),
            r.command == (flags & COMMAND_FLAG != 0),
            r.control == (flags & CONTROL_FLAG != 0),
    {
        Modifiers {
            option: flags & OPTION_FLAG != 0,
            shift: flags & SHIFT_FLAG != 0,
            command: flags & COMMAND_FLAG != 0,
            control: flags & CONTROL_FLAG != 0,
        }
    }
}

/// Whether modifier flags say the Command key is held.
pub fn command_in(flags: u64) -> (r: bool)
    ensures
        r == (flags & COMMAND_FLAG != 0),
{
    flags & COMMAND_FLAG != 0
}

impl Chord {
    /// The chord that holds no key.
    pub open spec fn empty() -> Chord {
        Chord { control: false, option: false, shift: false, command: false }
    }

    /// The chord that holds no key: a shortcut that is off.
    pub fn none() -> (r: Chord)
        ensures
            r == Chord::empty(),
    {
        Chord { control: false, option: false, shift: false, command: false }
    }

    /// Whether the chord holds a key.
    pub open spec fn holds(self, key: Key) -> bool {
        match key {
            Key::Control => self.control,
            Key::Option => self.option,
            Key::Shift => self.shift,
            Key::Command => self.command,
        }
    }

    /// The chord with a key held as well.
    pub open spec fn with_key(self, key: Key) -> Chord {
        self.set_key(key, true)
    }

    /// The chord with a key held or not.
    pub open spec fn set_key(self, key: Key, held: bool) -> Chord {
        match key {
            Key::Control => Chord { control: held, ..self },
            Key::Option => Chord { option: held, ..self },
            Key::Shift => Chord { shift: held, ..self },
            Key::Command => Chord { command: held, ..self },
        }
    }

    /// The chord with `key` held as well.
    pub fn with(self, key: Key) -> (r: Chord)
        ensures
            r == self.with_key(key),
    {
        self.set(key, true)
    }

    /// Whether the chord holds `key`.
    pub fn has(&self, key: Key) -> (r: bool)
        ensures
            r == self.holds(key),
    {
        match key {
            Key::Control => self.control,
            Key::Option => self.option,
            Key::Shift => self.shift,
            Key::Command => self.command,
        }
    }

    /// This chord with `key` held or not.
    pub fn set(self, key: Key, held: bool) -> (r: Chord)
        ensures
            r == self.set_key(key, held),
    {
        match key {
            Key::Control => Chord { control: held, ..self },
            Key::Option => Chord { option: held, ..self },
            Key::Shift => Chord { shift: held, ..self },
            Key::Command => Chord { command: held, ..self },
        }
    }

    /// Whether the chord holds no key.
    pub fn is_empty(&self) -> (r: bool)
        ensures
            r == (*self == Chord::empty()),
    {
        !self.control && !self.option && !self.shift && !self.command
    }

    /// Whether the keys held are exactly this chord. An empty chord matches nothing:
    /// a shortcut with no keys is one that is off.
    pub fn matches(&self, held: Modifiers) -> (r: bool)
        ensures
            r == (*self != Chord::empty() && self.control == held.control && self.option
                == held.option && self.shift == held.shift && self.command == held.command),
    {
        !self.is_empty() && self.control == held.control && self.option == held.option
            && self.shift == held.shift && self.command == held.command
    }

    /// The symbols of the keys held, in keyboard order; empty for no keys.
    pub open spec fn label_text(self) -> Seq<char> {
        part_if(self.control, Key::Control.symbol_text()) + part_if(
            self.option,
            Key::Option.symbol_text(),
        ) + part_if(self.shift, Key::Shift.symbol_text()) + part_if(
            self.command,
            Key::Command.symbol_text(),
        )
    }

    /// The names of the keys held, in keyboard order.
    pub open spec fn stored_names(self) -> Seq<Seq<char>> {
        name_if(self.control, Key::Control) + name_if(self.option, Key::Option) + name_if(
            self.shift,
            Key::Shift,
        ) + name_if(self.command, Key::Command)
    }

    /// The chord as it is kept in the defaults: the keys' names joined by `+`.
    pub open spec fn stored_text(self) -> Seq<char> {
        join_plus(self.stored_names())
    }

    /// The symbols of the keys held, in keyboard order; empty for no keys.
    pub fn label(&self) -> (r: String)
        ensures
            r@ == self.label_text(),
    {
        let mut label = String::new();
        let mut i: usize = 0;
        let keys = Key::ALL;
        while i < 4
            invariant
                i <= 4,
                keys@ == seq![Key::Control, Key::Option, Key::Shift, Key::Command],
                label@ == label_upto(*self, i as int),
            decreases 4 - i,
        {
            let key = keys[i];
            if self.has(key) {
                label.append(key.symbol());
            }
            i = i + 1;
        }
        proof {
            reveal_with_fuel(label_upto, 5);
        }
        assert(label_upto(*self, 4) =~= self.label_text());
        label
    }

    /// The chord as it is kept in the defaults: the keys' names joined by `+`.
    pub fn stored(&self) -> (r: String)
        ensures
            r@ == self.stored_text(),
    {
        let mut stored = String::new();
        let mut first = true;
        let mut i: usize = 0;
        let keys = Key::ALL;
        while i < 4
            invariant
                i <= 4,
                keys@ == seq![Key::Control, Key::Option, Key::Shift, Key::Command],
                stored@ == join_plus(names_upto(*self, i as int)),
                first == (names_upto(*self, i as int).len() == 0),
            decreases 4 - i,
        {
            let key = keys[i];
            if self.has(key) {
                let ghost before = names_upto(*self, i as int);
                if !first {
                    stored.append("+");
                    proof {
                        reveal_strlit("+");
                    }
                }
                stored.append(key.stored());
                first = false;
                assert(names_upto(*self, i + 1) =~= before.push(key.stored_text()));
                assert(before.push(key.stored_text()).drop_last() =~= before);
            } else {
                assert(names_upto(*self, i + 1) =~= names_upto(*self, i as int));
            }
            i = i + 1;
        }
        proof {
            reveal_with_fuel(names_upto, 5);
        }
        assert(names_upto(*self, 4) =~= self.stored_names());
        stored
    }

    /// A chord as `stored` wrote it; `None` for anything else, so a bad value falls
    /// back to the default rather than to no keys.
    pub fn from_stored(value: &str) -> (r: Option<Chord>)
        ensures
            r == chord_from_text(value@),
    {
        let n = value.unicode_len();
        if n == 0 {
            return Some(Chord::none());
        }
        let mut acc: Option<Chord> = Some(Chord::none());
        let mut start: usize = 0;
        let mut i: usize = 0;
        assert(value@.take(0) =~= Seq::<char>::empty());
        while i < n
            invariant
                n == value@.len(),
                start <= i <= n,
                split_plus(value@.take(i as int)).len() > 0,
                acc == chord_of_pieces(split_plus(value@.take(i as int)).drop_last()),
                split_plus(value@.take(i as int)).last() == value@.subrange(
                    start as int,
                    i as int,
                ),
            decreases n - i,
        {
            let c = value.get_char(i);
            let ghost prefix = value@.take(i as int);
            let ghost pieces = split_plus(prefix);
            assert(value@.take(i + 1).drop_last() =~= prefix);
            assert(value@.take(i + 1).last() == c);
            if c == '+' {
                let piece = value.substring_char(start, i);
                let key = Key::from_stored(piece);
                assert(pieces.push(Seq::<char>::empty()).drop_last() =~= pieces);
                assert(pieces.drop_last().push(pieces.last()) =~= pieces);
                acc = match (acc, key) {
                    (Some(chord), Some(key)) => Some(chord.with(key)),
                    _ => None,
                };
                start = i + 1;
                assert(value@.subrange(start as int, i + 1) =~= Seq::<char>::empty());
            } else {
                assert(pieces.update(pieces.len() - 1, pieces.last().push(c)).drop_last()
                    =~= pieces.drop_last());
                assert(value@.subrange(start as int, i + 1) =~= value@.subrange(
                    start as int,
                    i as int,
                ).push(c));
            }
            i = i + 1;
        }
        assert(value@.take(n as int) =~= value@);
        let ghost pieces = split_plus(value@);
        assert(pieces.drop_last().push(pieces.last()) =~= pieces);
        let piece = value.substring_char(start, n);
        let key = Key::from_stored(piece);
        match (acc, key) {
            (Some(chord), Some(key)) => Some(chord.with(key)),
            _ => None,
        }
    }
}

/// `part` when `held`, else nothing.
pub open spec fn part_if(held: bool, part: Seq<char>) -> Seq<char> {
    if held {
        part
    } else {
        Seq::empty()
    }
}

/// The key's name alone when `held`, else no name.
pub open spec fn name_if(held: bool, key: Key) -> Seq<Seq<char>> {
    if held {
        seq![key.stored_text()]
    } else {
        Seq::empty()
    }
}

/// The keys in keyboard order.
pub open spec fn keyboard_order() -> Seq<Key> {
    seq![Key::Control, Key::Option, Key::Shift, Key::Command]
}

/// The label of the keys of `chord` among the first `i` in keyboard order.
pub open spec fn label_upto(chord: Chord, i: int) -> Seq<char>
    decreases i,
{
    if i <= 0 {
        Seq::empty()
    } else {
        label_upto(chord, i - 1) + part_if(
            chord.holds(keyboard_order()[i - 1]),
            keyboard_order()[i - 1].symbol_text(),
        )
    }
}

/// The names of the keys of `chord` among the first `i` in keyboard order.
pub open spec fn names_upto(chord: Chord, i: int) -> Seq<Seq<char>>
    decreases i,
{
    if i <= 0 {
        Seq::empty()
    } else {
        names_upto(chord, i - 1) + name_if(
            chord.holds(keyboard_order()[i - 1]),
            keyboard_order()[i - 1],
        )
    }
}

/// Names joined by `+`.
pub open spec fn join_plus(names: Seq<Seq<char>>) -> Seq<char>
    decreases names.len(),
{
    if names.len() == 0 {
        Seq::empty()
    } else if names.len() == 1 {
        names[0]
    } else {
        join_plus(names.drop_last()) + seq!['+'] + names.last()
    }
}

/// A text cut at every `+`, as `split('+')` cuts it: one piece more than there are `+`.
pub open spec fn split_plus(text: Seq<char>) -> Seq<Seq<char>>
    decreases text.len(),
{
    if text.len() == 0 {
        seq![Seq::empty()]
    } else {
        let pieces = split_plus(text.drop_last());
        if text.last() == '+' {
            pieces.push(Seq::empty())
        } else {
            pieces.update(pieces.len() - 1, pieces.last().push(text.last()))
        }
    }
}

/// The chord whose keys the pieces name, one key per piece; `None` when a piece names
/// no key.
pub open spec fn chord_of_pieces(pieces: Seq<Seq<char>>) -> Option<Chord>
    decreases pieces.len(),
{
    if pieces.len() == 0 {
        Some(Chord::empty())
    } else {
        match chord_of_pieces(pieces.drop_last()) {
            Some(chord) => match key_named(pieces.last()) {
                Some(key) => Some(chord.with_key(key)),
                None => None,
            },
            None => None,
        }
    }
}

/// The chord a stored text reads as: no keys for the empty text, else the keys its
/// `+`-separated pieces name.
pub open spec fn chord_from_text(text: Seq<char>) -> Option<Chord> {
    if text.len() == 0 {
        Some(Chord::empty())
    } else {
        chord_of_pieces(split_plus(text))
    }
}

/// Whether a text holds no `+`.
pub open spec fn plus_free(text: Seq<char>) -> bool {
    forall|i: int| 0 <= i < text.len() ==> #[trigger] text[i] != '+'
}

proof fn lemma_split_plus_free(text: Seq<char>)
    requires
        plus_free(text),
    ensures
        split_plus(text) == seq![text],
    decreases text.len(),
{
    if text.len() > 0 {
        lemma_split_plus_free(text.drop_last());
        assert(text.drop_last().push(text.last()) =~= text);
        assert(seq![text.drop_last()].update(0, text.drop_last().push(text.last())) =~= seq![
            text,
        ]);
    } else {
        assert(text =~= Seq::<char>::empty());
    }
}

proof fn lemma_split_plus_after(front: Seq<char>, back: Seq<char>)
    requires
        plus_free(back),
    ensures
        split_plus(front + seq!['+'] + back) == split_plus(front).push(back),
    decreases back.len(),
{
    let whole = front + seq!['+'] + back;
    if back.len() == 0 {
        assert(whole.drop_last() =~= front);
        assert(back =~= Seq::<char>::empty());
    } else {
        let shorter = back.drop_last();
        lemma_split_plus_after(front, shorter);
        assert(whole.drop_last() =~= front + seq!['+'] + shorter);
        assert(whole.last() == back.last());
        let pieces = split_plus(front).push(shorter);
        assert(shorter.push(back.last()) =~= back);
        assert(pieces.update(pieces.len() - 1, pieces.last().push(back.last())) =~= split_plus(
            front,
        ).push(back));
    }
}

proof fn lemma_split_join(names: Seq<Seq<char>>)
    requires
        names.len() > 0,
        forall|i: int| 0 <= i < names.len() ==> plus_free(#[trigger] names[i]),
    ensures
        split_plus(join_plus(names)) == names,
    decreases names.len(),
{
    if names.len() == 1 {
        lemma_split_plus_free(names[0]);
        assert(seq![names[0]] =~= names);
    } else {
        lemma_split_join(names.drop_last());
        assert(plus_free(names[names.len() - 1]));
        lemma_split_plus_after(join_plus(names.drop_last()), names.last());
        assert(names.drop_last().push(names.last()) =~= names);
    }
}

/// A chord stored and read back is the chord it was: what the defaults keep of a
/// shortcut survives a relaunch, the empty one included.
pub proof fn lemma_chord_survives_storing(chord: Chord)
    ensures
        chord_from_text(chord.stored_text()) == Some(chord),
{
    lemma_key_names_differ();
    let names = chord.stored_names();
    if names.len() == 0 {
        assert(chord == Chord::empty());
    } else {
        assert forall|i: int| 0 <= i < names.len() implies plus_free(#[trigger] names[i]) by {
            let k = choose|k: Key| names[i] == k.stored_text();
            assert(names[i] == k.stored_text());
        }
        lemma_split_join(names);
        assert(join_plus(names).len() > 0) by {
            reveal_with_fuel(join_plus, 2);
            if names.len() > 1 {
                assert(join_plus(names).len() >= names.last().len());
            }
        }
        reveal_with_fuel(chord_of_pieces, 5);
        assert(chord_of_pieces(names) == Some(chord));
    }
}

} // verus!
