//! The texts and sizes of the key binding help.

use crate::text::push_char;
use vstd::prelude::*;
use vstd::string::*;

verus! {

/// What a key does, and the key that does it.
#[derive(Clone, Debug, PartialEq, Eq)]
pub struct Binding {
    /// The name of the action.
    pub action: String,
    /// The key, as it is shown.
    pub input: String,
    /// Whether the help lists the binding.
    pub visible: bool,
}

/// The line at the foot of the screen that names a few keys.
#[derive(Debug)]
pub struct HelpFooter;

/// The window that lists all keys.
#[derive(Debug, Default)]
pub struct HelpModal;

/// The bindings that the help lists, in their order.
pub open spec fn visible_bindings(all: Seq<Binding>) -> Seq<Binding>
    decreases all.len(),
{
    if all.len() == 0 {
        Seq::empty()
    } else if all.last().visible {
        visible_bindings(all.drop_last()).push(all.last())
    } else {
        visible_bindings(all.drop_last())
    }
}

/// The footer's text: for each binding its key, a space and its action,
/// with ` / ` between two bindings.
pub open spec fn footer_text(bindings: Seq<Binding>) -> Seq<char>
    decreases bindings.len(),
{
    if bindings.len() == 0 {
        Seq::empty()
    } else {
        let last = bindings.last();
        let entry = last.input@ + seq![' '] + last.action@;
        if bindings.len() == 1 {
            entry
        } else {
            footer_text(bindings.drop_last()) + seq![' ', '/', ' '] + entry
        }
    }
}

/// The height of the modal for this many listed bindings: a title line and
/// the lines of the general section, a gap, a title line and a line for each
/// binding, a line to spare. No more than a `u16` holds.
pub open spec fn modal_height(bindings: int) -> int {
    let height = HelpModal::GENERAL_LENGTH + 3 + bindings;
    if height > u16::MAX {
        u16::MAX as int
    } else {
        height
    }
}

impl HelpFooter {
    /// The footer's text for these bindings.
    pub fn text(&self, bindings: &Vec<Binding>) -> (text: String)
        ensures
            text@ == footer_text(bindings@),
    {
        let mut text = String::new();
        let mut i: usize = 0;
        while i < bindings.len()
            invariant
                i <= bindings.len(),
                text@ == footer_text(bindings@.take(i as int)),
            decreases bindings.len() - i,
        {
            if i > 0 {
                text.append(" / ");
                proof {
                    reveal_strlit(" / ");
                }
            }
            text.append(bindings[i].input.as_str());
            push_char(&mut text, ' ');
            text.append(bindings[i].action.as_str());
            i += 1;
            proof {
                let now = bindings@.take(i as int);
                assert(now.drop_last() =~= bindings@.take(i - 1));
            }
        }
        assert(bindings@.take(i as int) =~= bindings@);
        text
    }
}

impl HelpModal {
    /// The number of lines in the general section, its title apart.
    pub const GENERAL_LENGTH: u16 = 3;

    /// The share of the screen's width that the modal takes, in percent.
    pub const WIDTH_PERCENT: u16 = 60;

    /// The bindings that the modal lists: those that are visible.
    pub fn bindings<'a>(all: &'a Vec<Binding>) -> (listed: Vec<&'a Binding>)
        ensures
            listed@.map_values(|binding: &Binding| *binding) == visible_bindings(all@),
    {
        let mut listed: Vec<&'a Binding> = Vec::new();
        let mut i: usize = 0;
        while i < all.len()
            invariant
                i <= all.len(),
                listed@.map_values(|binding: &Binding| *binding) == visible_bindings(
                    all@.take(i as int),
                ),
            decreases all.len() - i,
        {
            if all[i].visible {
                listed.push(&all[i]);
            }
            i += 1;
            proof {
                let now = all@.take(i as int);
                assert(now.drop_last() =~= all@.take(i - 1));
            }
        }
        assert(all@.take(i as int) =~= all@);
        listed
    }

    /// The modal's title.
    pub fn title(&self) -> (title: &'static str)
        ensures
            title@ == "Help"@,
    {
        "Help"
    }

    /// The modal's width, in percent of the screen's, and its height in
    /// lines, for this many listed bindings.
    pub fn dimensions(&self, bindings: usize) -> (size: (u16, u16))
        ensures
            size.0 == Self::WIDTH_PERCENT,
            size.1 == modal_height(bindings as int),
    {
        let fixed: usize = 6;
        let height: u16 = if bindings > 65535 - fixed {
            u16::MAX
        } else {
            (bindings + fixed) as u16
        };
        (Self::WIDTH_PERCENT, height)
    }
}

} // verus!
