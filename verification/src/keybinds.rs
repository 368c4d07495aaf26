//! The keybind dispatcher: normalizes a key-down event into a chord string
//! (the key identifier, prefixed with `ctrl+` when the control modifier is
//! held), looks the chord up in the session's keybind table, and names the
//! action bound to it.

use crate::tools::ToolsTypes;
use vstd::prelude::*;

verus! {

/// What a keybind can ask the editor to do.
#[derive(Clone, Copy, PartialEq, Eq, Structural, Debug)]
pub enum KeybindActions {
    Undo,
    PreviousTool,
    NextTool,
    ToolChange(ToolsTypes),
}

/// Relies on `<String as Add<&str>>::add`: concatenation of the two texts.
#[verifier::external_body]
fn concat_str(a: &str, b: &str) -> (r: String)
    ensures
        r@ == a@ + b@,
{
    a.to_owned() + b
}

/// Compares two texts by their characters.
pub fn str_eq(a: &str, b: &str) -> (r: bool)
    ensures
        r == (a@ == b@),
{
    a.to_owned() == b.to_owned()
}

/// The chord string a key-down event normalizes to.
pub open spec fn spec_chord(key: Seq<char>, ctrl: bool) -> Seq<char> {
    if ctrl {
        "ctrl+"@ + key
    } else {
        key
    }
}

/// Builds the normalized chord string for a pressed key: the key identifier
/// itself, prefixed with `ctrl+` when the control modifier was held.
pub fn normalize_chord(key: &str, ctrl: bool) -> (chord: String)
    ensures
        chord@ == spec_chord(key@, ctrl),
{
    if ctrl {
        concat_str("ctrl+", key)
    } else {
        key.to_owned()
    }
}

/// The mapping from normalized chord strings to keybind actions, static for
/// the session. Chords are unique, as keys of a map.
pub struct KeybindTable {
    pub entries: Vec<(String, KeybindActions)>,
}

/// The action the table binds to a chord: that of the first entry whose
/// chord matches, or `None` when no entry does.
pub open spec fn spec_lookup(
    es: Seq<(String, KeybindActions)>,
    chord: Seq<char>,
) -> Option<KeybindActions>
    decreases es.len(),
{
    if es.len() == 0 {
        None
    } else if es[0].0@ == chord {
        Some(es[0].1)
    } else {
        spec_lookup(es.drop_first(), chord)
    }
}

impl KeybindTable {
    /// Chords are pairwise distinct.
    pub open spec fn wf(self) -> bool {
        forall|i: int, j: int|
            0 <= i < self.entries@.len() && 0 <= j < self.entries@.len() && i != j
                ==> (#[trigger] self.entries@[i]).0@ != (#[trigger] self.entries@[j]).0@
    }

    /// Finds the action bound to a chord, if any.
    pub fn lookup(&self, chord: &str) -> (r: Option<KeybindActions>)
        ensures
            r == spec_lookup(self.entries@, chord@),
    {
        let n = self.entries.len();
        proof {
            assert(self.entries@.skip(0) =~= self.entries@);
        }
        let mut i: usize = 0;
        while i < n
            invariant
                i <= n,
                n == self.entries@.len(),
                spec_lookup(self.entries@, chord@) == spec_lookup(
                    self.entries@.skip(i as int),
                    chord@,
                ),
            decreases n - i,
        {
            proof {
                assert(self.entries@.skip(i as int)[0] == self.entries@[i as int]);
                assert(self.entries@.skip(i as int).drop_first() =~= self.entries@.skip(
                    i as int + 1,
                ));
            }
            if str_eq(self.entries[i].0.as_str(), chord) {
                return Some(self.entries[i].1);
            }
            i += 1;
        }
        proof {
            assert(self.entries@.skip(n as int) =~= Seq::<(String, KeybindActions)>::empty());
        }
        None
    }
}

/// What the standard session keybinds are: undo on `ctrl+z`, tool cycling
/// on the bracket keys, and one letter per tool.
pub open spec fn spec_default_binds(es: Seq<(String, KeybindActions)>) -> bool {
    &&& es.len() == 12
    &&& es[0].0@ == "ctrl+z"@ && es[0].1 == KeybindActions::Undo
    &&& es[1].0@ == "["@ && es[1].1 == KeybindActions::PreviousTool
    &&& es[2].0@ == "]"@ && es[2].1 == KeybindActions::NextTool
    &&& es[3].0@ == "c"@ && es[3].1 == KeybindActions::ToolChange(ToolsTypes::ClickFill)
    &&& es[4].0@ == "b"@ && es[4].1 == KeybindActions::ToolChange(ToolsTypes::BucketFill)
    &&& es[5].0@ == "i"@ && es[5].1 == KeybindActions::ToolChange(ToolsTypes::Invert)
    &&& es[6].0@ == "l"@ && es[6].1 == KeybindActions::ToolChange(ToolsTypes::Line)
    &&& es[7].0@ == "r"@ && es[7].1 == KeybindActions::ToolChange(ToolsTypes::Rect)
    &&& es[8].0@ == "e"@ && es[8].1 == KeybindActions::ToolChange(ToolsTypes::Ellipse)
    &&& es[9].0@ == "g"@ && es[9].1 == KeybindActions::ToolChange(ToolsTypes::Greyscale)
    &&& es[10].0@ == "a"@ && es[10].1 == KeybindActions::ToolChange(ToolsTypes::Gaussian)
    &&& es[11].0@ == "o"@ && es[11].1 == KeybindActions::ToolChange(ToolsTypes::Box)
}

/// The keybind table every session starts with.
pub fn default_keybinds() -> (t: KeybindTable)
    ensures
        t.wf(),
        spec_default_binds(t.entries@),
{
    let mut entries: Vec<(String, KeybindActions)> = Vec::new();
    entries.push(("ctrl+z".to_owned(), KeybindActions::Undo));
    entries.push(("[".to_owned(), KeybindActions::PreviousTool));
    entries.push(("]".to_owned(), KeybindActions::NextTool));
    entries.push(("c".to_owned(), KeybindActions::ToolChange(ToolsTypes::ClickFill)));
    entries.push(("b".to_owned(), KeybindActions::ToolChange(ToolsTypes::BucketFill)));
    entries.push(("i".to_owned(), KeybindActions::ToolChange(ToolsTypes::Invert)));
    entries.push(("l".to_owned(), KeybindActions::ToolChange(ToolsTypes::Line)));
    entries.push(("r".to_owned(), KeybindActions::ToolChange(ToolsTypes::Rect)));
    entries.push(("e".to_owned(), KeybindActions::ToolChange(ToolsTypes::Ellipse)));
    entries.push(("g".to_owned(), KeybindActions::ToolChange(ToolsTypes::Greyscale)));
    entries.push(("a".to_owned(), KeybindActions::ToolChange(ToolsTypes::Gaussian)));
    entries.push(("o".to_owned(), KeybindActions::ToolChange(ToolsTypes::Box)));
    proof {
        reveal_strlit("ctrl+z");
        reveal_strlit("[");
        reveal_strlit("]");
        reveal_strlit("c");
        reveal_strlit("b");
        reveal_strlit("i");
        reveal_strlit("l");
        reveal_strlit("r");
        reveal_strlit("e");
        reveal_strlit("g");
        reveal_strlit("a");
        reveal_strlit("o");
        assert("ctrl+z"@.len() == 6);
        assert("["@[0] == '[' && "["@.len() == 1);
        assert("]"@[0] == ']' && "]"@.len() == 1);
        assert("c"@[0] == 'c' && "c"@.len() == 1);
        assert("b"@[0] == 'b' && "b"@.len() == 1);
        assert("i"@[0] == 'i' && "i"@.len() == 1);
        assert("l"@[0] == 'l' && "l"@.len() == 1);
        assert("r"@[0] == 'r' && "r"@.len() == 1);
        assert("e"@[0] == 'e' && "e"@.len() == 1);
        assert("g"@[0] == 'g' && "g"@.len() == 1);
        assert("a"@[0] == 'a' && "a"@.len() == 1);
        assert("o"@[0] == 'o' && "o"@.len() == 1);
        assert forall|i: int, j: int|
            0 <= i < entries@.len() && 0 <= j < entries@.len() && i != j implies (
        #[trigger] entries@[i]).0@ != (#[trigger] entries@[j]).0@ by {
            assert(entries@.len() == 12);
        }
    }
    KeybindTable { entries }
}

/// Dispatches one key-down event: the action bound to the event's
/// normalized chord, or `None` when the chord is unbound and the event has
/// no effect.
pub fn dispatch_keydown(table: &KeybindTable, key: &str, ctrl: bool) -> (r: Option<
    KeybindActions,
>)
    ensures
        r == spec_lookup(table.entries@, spec_chord(key@, ctrl)),
{
    let chord = normalize_chord(key, ctrl);
    table.lookup(chord.as_str())
}

} // verus!
