//! Dock state: badge text, visibility, bounce numbering and the Dock menu.
//! The calls that show any of it to the system are made around it.

use vstd::prelude::*;
use crate::text::owned;

verus! {

/// How the Dock icon bounces.
#[derive(Debug, Clone, Copy, PartialEq, Eq, Structural)]
pub enum BounceType {
    /// Bounce once.
    Critical,
    /// Bounce until the user clicks.
    Informational,
}

/// A Dock menu item.
#[derive(Debug)]
pub struct DockMenuItem {
    /// Label.
    pub label: String,
    /// Enabled.
    pub enabled: bool,
    /// Submenu.
    pub submenu: Option<Vec<DockMenuItem>>,
}

/// Dock badge, visibility, bounce counter and menu.
#[derive(Debug)]
pub struct DockManager {
    badge: String,
    visible: bool,
    bounce_id: u64,
    menu: Vec<DockMenuItem>,
}

impl DockManager {
    /// The badge text.
    pub closed spec fn badge_spec(&self) -> Seq<char> {
        self.badge@
    }

    /// Whether the icon is shown.
    pub closed spec fn visible_spec(&self) -> bool {
        self.visible
    }

    /// The id that the next bounce gets.
    pub closed spec fn next_bounce(&self) -> u64 {
        self.bounce_id
    }

    /// The Dock menu.
    pub closed spec fn menu_spec(&self) -> Seq<DockMenuItem> {
        self.menu@
    }

    /// No badge, visible, first bounce id 0, no menu.
    pub fn new() -> (r: DockManager)
        ensures
            r.badge_spec() == Seq::<char>::empty(),
            r.visible_spec(),
            r.next_bounce() == 0,
            r.menu_spec() == Seq::<DockMenuItem>::empty(),
    {
        DockManager { badge: String::new(), visible: true, bounce_id: 0, menu: Vec::new() }
    }

    /// Sets the badge text (empty clears it); the rest is unchanged.
    pub fn set_badge(&mut self, text: &str) -> (r: Result<(), ()>)
        ensures
            r is Ok,
            final(self).badge_spec() == text@,
            final(self).visible_spec() == old(self).visible_spec(),
            final(self).next_bounce() == old(self).next_bounce(),
            final(self).menu_spec() == old(self).menu_spec(),
    {
        self.badge = owned(text);
        Ok(())
    }

    /// The badge text.
    pub fn get_badge(&self) -> (r: String)
        ensures
            r@ == self.badge_spec(),
    {
        self.badge.clone()
    }

    /// Starts a bounce; the id is the counter, which then advances
    /// (wrapping at the end of `u64`).
    pub fn bounce(&mut self, bounce_type: BounceType) -> (id: u64)
        ensures
            id == old(self).next_bounce(),
            final(self).next_bounce() == (if id == u64::MAX { 0 } else { (id + 1) as u64 }),
            final(self).badge_spec() == old(self).badge_spec(),
            final(self).visible_spec() == old(self).visible_spec(),
            final(self).menu_spec() == old(self).menu_spec(),
    {
        let id = self.bounce_id;
        self.bounce_id = id.wrapping_add(1);
        id
    }

    /// Replaces the Dock menu; the rest is unchanged.
    pub fn set_menu(&mut self, items: Vec<DockMenuItem>) -> (r: Result<(), ()>)
        ensures
            r is Ok,
            final(self).menu_spec() == items@,
            final(self).badge_spec() == old(self).badge_spec(),
            final(self).visible_spec() == old(self).visible_spec(),
            final(self).next_bounce() == old(self).next_bounce(),
    {
        self.menu = items;
        Ok(())
    }

    /// Shows the icon.
    pub fn show(&mut self) -> (r: Result<(), ()>)
        ensures
            r is Ok,
            final(self).visible_spec(),
            final(self).badge_spec() == old(self).badge_spec(),
            final(self).next_bounce() == old(self).next_bounce(),
            final(self).menu_spec() == old(self).menu_spec(),
    {
        self.visible = true;
        Ok(())
    }

    /// Hides the icon.
    pub fn hide_icon(&mut self) -> (r: Result<(), ()>)
        ensures
            r is Ok,
            !final(self).visible_spec(),
            final(self).badge_spec() == old(self).badge_spec(),
            final(self).next_bounce() == old(self).next_bounce(),
            final(self).menu_spec() == old(self).menu_spec(),
    {
        self.visible = false;
        Ok(())
    }

    /// Whether the icon is shown.
    pub fn is_visible(&self) -> (r: bool)
        ensures
            r == self.visible_spec(),
    {
        self.visible
    }

    /// The number of top-level menu items.
    pub fn menu_len(&self) -> (r: usize)
        ensures
            r == self.menu_spec().len(),
    {
        self.menu.len()
    }
}

} // verus!
