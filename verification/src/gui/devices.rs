//! Choosing a source on a machine this console does not sit at.
//!
//! The console never looks at its own hardware: it asks the radio's host, and
//! shows what the host says.

use crate::text::push_text;
use crate::text::text;
use crate::ui::device::flag_text;
use crate::ui::device::DeviceKind;
use crate::ui::device::DeviceList;
use vstd::prelude::*;
use vstd::string::*;

verus! {

/// What the host has said about its hardware.
#[derive(Debug, PartialEq, Eq)]
pub enum Offer {
    /// Nothing asked yet, or asked and still waiting.
    Unasked,
    /// The host does not offer device selection.
    NotOffered,
    /// The host's own answer, one list per kind.
    Listed(Vec<DeviceList>),
}

impl Default for Offer {
    fn default() -> (r: Self)
        ensures
            r is Unasked,
    {
        Offer::Unasked
    }
}

impl Offer {
    /// The lists to draw, if the host gave any.
    pub fn lists(&self) -> (r: &[DeviceList])
        ensures
            r@ == (match self {
                Offer::Listed(lists) => lists@,
                _ => Seq::empty(),
            }),
    {
        match self {
            Offer::Listed(lists) => lists.as_slice(),
            _ => {
                let none: &[DeviceList] = &[];
                assert(none@ =~= Seq::empty());
                none
            },
        }
    }
}

/// What stands under a group's heading where it has no rows.
pub open spec fn empty_text(list: DeviceList) -> Option<Seq<char>> {
    match list.error {
        Some(why) => Some("unavailable: "@ + why@),
        None => if list.devices@.len() == 0 {
            Some("nothing attached"@)
        } else {
            None
        },
    }
}

/// What stands under a group's heading where it has no rows: the host's own
/// reason, or that nothing is attached.
pub fn empty_line(list: &DeviceList) -> (r: Option<String>)
    ensures
        match empty_text(*list) {
            Some(line) => r matches Some(s) && s@ == line,
            None => r is None,
        },
{
    match &list.error {
        Some(why) => {
            let mut out = text("unavailable: ");
            push_text(&mut out, why.as_str());
            Some(out)
        },
        None => {
            if list.devices.len() == 0 {
                Some(text("nothing attached"))
            } else {
                None
            }
        },
    }
}

/// What is shown instead of lists, where there are none.
pub open spec fn absent_text(offer: Offer) -> Option<Seq<char>> {
    match offer {
        Offer::Unasked => Some("asking the radio's host what it has…"@),
        Offer::NotOffered => Some(
            "this server does not offer device selection — set its sources with --if-out"@,
        ),
        Offer::Listed(_) => None,
    }
}

/// What is shown instead of lists, where there are none.
pub fn absent_line(offer: &Offer) -> (r: Option<&'static str>)
    ensures
        match absent_text(*offer) {
            Some(line) => r matches Some(s) && s@ == line,
            None => r is None,
        },
{
    match offer {
        Offer::Unasked => Some("asking the radio's host what it has…"),
        Offer::NotOffered => Some(
            "this server does not offer device selection — set its sources with --if-out",
        ),
        Offer::Listed(_) => None,
    }
}

/// The flag an operator would type to get the same device.
pub fn flag_for(kind: DeviceKind) -> (r: &'static str)
    ensures
        r@ == flag_text(kind),
{
    kind.flag()
}

/// Four situations, four different lines: not asked, not offered, found
/// nothing, and could not look never read alike.
pub proof fn the_four_situations_read_differently(empty: DeviceList, broken: DeviceList)
    requires
        empty.error is None,
        empty.devices@.len() == 0,
        broken.error is Some,
    ensures
        absent_text(Offer::Unasked)->0 != absent_text(Offer::NotOffered)->0,
        absent_text(Offer::NotOffered)->0 != empty_text(empty)->0,
        absent_text(Offer::Unasked)->0 != empty_text(empty)->0,
        empty_text(broken)->0 != empty_text(empty)->0,
{
    reveal_strlit("asking the radio's host what it has…");
    reveal_strlit("this server does not offer device selection — set its sources with --if-out");
    reveal_strlit("nothing attached");
    reveal_strlit("unavailable: ");
    assert(absent_text(Offer::Unasked)->0[0] == 'a');
    assert(absent_text(Offer::NotOffered)->0[0] == 't');
    assert(empty_text(empty)->0[0] == 'n');
    assert(empty_text(broken)->0[0] == 'u');
}

/// A group that has rows has no line in their place; one whose host could not
/// look quotes the reason, whatever rows it has.
pub proof fn a_broken_group_quotes_its_reason(list: DeviceList)
    ensures
        list.error is None && list.devices@.len() > 0 <==> empty_text(list) is None,
        list.error matches Some(why) ==> empty_text(list)->0.len() >= why@.len() && empty_text(
            list,
        )->0.skip(empty_text(list)->0.len() - why@.len()) == why@,
{
    if let Some(why) = list.error {
        let line = empty_text(list)->0;
        assert(line.skip(line.len() - why@.len()) =~= why@);
    }
}

} // verus!
