//! Menus: items with labels, accelerators, roles and click ids, the
//! default application menu, and lookup of an item by click id. Building
//! the native menu and calling the click callback are left to the
//! application.

use vstd::prelude::*;
use crate::config_file::opt_string_view;
use crate::text::{chars_of, owned, push_str, seq_eq, string_from};

verus! {

/// A menu item (`-` as label is a separator).
#[derive(Debug)]
pub struct MenuItem {
    /// Label.
    pub label: String,
    /// Accelerator.
    pub accelerator: Option<String>,
    /// Enabled.
    pub enabled: bool,
    /// Checked.
    pub checked: bool,
    /// Submenu.
    pub submenu: Option<Vec<MenuItem>>,
    /// Role (quit, copy, paste, ...).
    pub role: Option<String>,
    /// Click id.
    pub click_id: Option<String>,
}

/// A menu template.
#[derive(Debug)]
pub struct MenuTemplate {
    /// The top-level items.
    pub items: Vec<MenuItem>,
}

/// An enabled, unchecked item with this label, accelerator, role and click id.
pub open spec fn item_is(m: MenuItem, label: Seq<char>, accelerator: Option<Seq<char>>, role: Option<Seq<char>>, click_id: Option<Seq<char>>) -> bool {
    &&& m.label@ == label
    &&& opt_string_view(m.accelerator) == accelerator
    &&& m.enabled
    &&& !m.checked
    &&& opt_string_view(m.role) == role
    &&& opt_string_view(m.click_id) == click_id
}

/// The default application menu: File, Edit, View, Window and Help, with
/// their items, accelerators, roles and click ids.
pub open spec fn is_default_app_menu(t: MenuTemplate, app_name: Seq<char>) -> bool {
    &&& t.items@.len() == 5
    &&& item_is(t.items@[0], "File"@, None, None, None)
    &&& t.items@[0].submenu is Some
    &&& t.items@[0].submenu->0@.len() == 4
    &&& item_is(t.items@[0].submenu->0@[0], "Open File..."@, Some("CommandOrControl+O"@), None, Some("file-open"@))
    &&& t.items@[0].submenu->0@[0].submenu is None
    &&& item_is(t.items@[0].submenu->0@[1], "Save"@, Some("CommandOrControl+S"@), None, Some("file-save"@))
    &&& t.items@[0].submenu->0@[1].submenu is None
    &&& item_is(t.items@[0].submenu->0@[2], "-"@, None, None, None)
    &&& t.items@[0].submenu->0@[2].submenu is None
    &&& item_is(t.items@[0].submenu->0@[3], "Quit"@, Some("CommandOrControl+Q"@), Some("quit"@), Some("quit"@))
    &&& t.items@[0].submenu->0@[3].submenu is None
    &&& item_is(t.items@[1], "Edit"@, None, None, None)
    &&& t.items@[1].submenu is Some
    &&& t.items@[1].submenu->0@.len() == 7
    &&& item_is(t.items@[1].submenu->0@[0], "Undo"@, Some("CommandOrControl+Z"@), Some("undo"@), Some("edit-undo"@))
    &&& t.items@[1].submenu->0@[0].submenu is None
    &&& item_is(t.items@[1].submenu->0@[1], "Redo"@, Some("Shift+CommandOrControl+Z"@), Some("redo"@), Some("edit-redo"@))
    &&& t.items@[1].submenu->0@[1].submenu is None
    &&& item_is(t.items@[1].submenu->0@[2], "-"@, None, None, None)
    &&& t.items@[1].submenu->0@[2].submenu is None
    &&& item_is(t.items@[1].submenu->0@[3], "Cut"@, Some("CommandOrControl+X"@), Some("cut"@), Some("edit-cut"@))
    &&& t.items@[1].submenu->0@[3].submenu is None
    &&& item_is(t.items@[1].submenu->0@[4], "Copy"@, Some("CommandOrControl+C"@), Some("copy"@), Some("edit-copy"@))
    &&& t.items@[1].submenu->0@[4].submenu is None
    &&& item_is(t.items@[1].submenu->0@[5], "Paste"@, Some("CommandOrControl+V"@), Some("paste"@), Some("edit-paste"@))
    &&& t.items@[1].submenu->0@[5].submenu is None
    &&& item_is(t.items@[1].submenu->0@[6], "Select All"@, Some("CommandOrControl+A"@), Some("selectAll"@), Some("edit-select-all"@))
    &&& t.items@[1].submenu->0@[6].submenu is None
    &&& item_is(t.items@[2], "View"@, None, None, None)
    &&& t.items@[2].submenu is Some
    &&& t.items@[2].submenu->0@.len() == 3
    &&& item_is(t.items@[2].submenu->0@[0], "Reload"@, Some("CommandOrControl+R"@), Some("reload"@), Some("view-reload"@))
    &&& t.items@[2].submenu->0@[0].submenu is None
    &&& item_is(t.items@[2].submenu->0@[1], "Toggle Fullscreen"@, Some("F11"@), None, Some("view-fullscreen"@))
    &&& t.items@[2].submenu->0@[1].submenu is None
    &&& item_is(t.items@[2].submenu->0@[2], "Developer Tools"@, Some("F12"@), None, Some("view-devtools"@))
    &&& t.items@[2].submenu->0@[2].submenu is None
    &&& item_is(t.items@[3], "Window"@, None, None, None)
    &&& t.items@[3].submenu is Some
    &&& t.items@[3].submenu->0@.len() == 2
    &&& item_is(t.items@[3].submenu->0@[0], "Minimize"@, Some("CommandOrControl+M"@), Some("minimize"@), Some("window-minimize"@))
    &&& t.items@[3].submenu->0@[0].submenu is None
    &&& item_is(t.items@[3].submenu->0@[1], "Close"@, Some("CommandOrControl+W"@), Some("close"@), Some("window-close"@))
    &&& t.items@[3].submenu->0@[1].submenu is None
    &&& item_is(t.items@[4], "Help"@, None, None, None)
    &&& t.items@[4].submenu is Some
    &&& t.items@[4].submenu->0@.len() == 1
    &&& item_is(t.items@[4].submenu->0@[0], "About "@ + app_name, None, None, Some("help-about"@))
    &&& t.items@[4].submenu->0@[0].submenu is None
}

fn leaf(label: String, accelerator: Option<String>, role: Option<String>, click_id: Option<String>) -> (r: MenuItem)
    ensures
        r.label == label,
        r.accelerator == accelerator,
        r.enabled,
        !r.checked,
        r.role == role,
        r.click_id == click_id,
        r.submenu is None,
{
    MenuItem { label, accelerator, enabled: true, checked: false, submenu: None, role, click_id }
}

fn top_menu(label: String, items: Vec<MenuItem>) -> (r: MenuItem)
    ensures
        r.label == label,
        r.accelerator is None,
        r.enabled,
        !r.checked,
        r.role is None,
        r.click_id is None,
        r.submenu == Some(items),
{
    MenuItem { label, accelerator: None, enabled: true, checked: false, submenu: Some(items), role: None, click_id: None }
}

fn about_label(app_name: &str) -> (r: String)
    ensures
        r@ == "About "@ + app_name@,
{
    let mut v = chars_of("About ");
    push_str(&mut v, app_name);
    string_from(v.as_slice())
}

impl MenuTemplate {
    /// The default application menu for `app_name`.
    pub fn default_app_menu(app_name: &str) -> (r: MenuTemplate)
        ensures
            is_default_app_menu(r, app_name@),
    {
        let mut items: Vec<MenuItem> = Vec::new();
        let mut sub0: Vec<MenuItem> = Vec::new();
        sub0.push(leaf(owned("Open File..."), Some(owned("CommandOrControl+O")), None, Some(owned("file-open"))));
        sub0.push(leaf(owned("Save"), Some(owned("CommandOrControl+S")), None, Some(owned("file-save"))));
        sub0.push(leaf(owned("-"), None, None, None));
        sub0.push(leaf(owned("Quit"), Some(owned("CommandOrControl+Q")), Some(owned("quit")), Some(owned("quit"))));
        items.push(top_menu(owned("File"), sub0));
        let mut sub1: Vec<MenuItem> = Vec::new();
        sub1.push(leaf(owned("Undo"), Some(owned("CommandOrControl+Z")), Some(owned("undo")), Some(owned("edit-undo"))));
        sub1.push(leaf(owned("Redo"), Some(owned("Shift+CommandOrControl+Z")), Some(owned("redo")), Some(owned("edit-redo"))));
        sub1.push(leaf(owned("-"), None, None, None));
        sub1.push(leaf(owned("Cut"), Some(owned("CommandOrControl+X")), Some(owned("cut")), Some(owned("edit-cut"))));
        sub1.push(leaf(owned("Copy"), Some(owned("CommandOrControl+C")), Some(owned("copy")), Some(owned("edit-copy"))));
        sub1.push(leaf(owned("Paste"), Some(owned("CommandOrControl+V")), Some(owned("paste")), Some(owned("edit-paste"))));
        sub1.push(leaf(owned("Select All"), Some(owned("CommandOrControl+A")), Some(owned("selectAll")), Some(owned("edit-select-all"))));
        items.push(top_menu(owned("Edit"), sub1));
        let mut sub2: Vec<MenuItem> = Vec::new();
        sub2.push(leaf(owned("Reload"), Some(owned("CommandOrControl+R")), Some(owned("reload")), Some(owned("view-reload"))));
        sub2.push(leaf(owned("Toggle Fullscreen"), Some(owned("F11")), None, Some(owned("view-fullscreen"))));
        sub2.push(leaf(owned("Developer Tools"), Some(owned("F12")), None, Some(owned("view-devtools"))));
        items.push(top_menu(owned("View"), sub2));
        let mut sub3: Vec<MenuItem> = Vec::new();
        sub3.push(leaf(owned("Minimize"), Some(owned("CommandOrControl+M")), Some(owned("minimize")), Some(owned("window-minimize"))));
        sub3.push(leaf(owned("Close"), Some(owned("CommandOrControl+W")), Some(owned("close")), Some(owned("window-close"))));
        items.push(top_menu(owned("Window"), sub3));
        let mut sub4: Vec<MenuItem> = Vec::new();
        sub4.push(leaf(about_label(app_name), None, None, Some(owned("help-about"))));
        items.push(top_menu(owned("Help"), sub4));
        MenuTemplate { items }
    }
}

/// The first item, depth first in menu order, whose click id is `id`.
pub open spec fn find_item_spec(items: Seq<MenuItem>, id: Seq<char>) -> Option<MenuItem>
    decreases items,
{
    if items.len() == 0 {
        None
    } else {
        let first = items[0];
        if first.click_id is Some && first.click_id->0@ == id {
            Some(first)
        } else {
            let inner = match first.submenu {
                Some(sub) => {
                    proof {
                        assert(decreases_to!(items => items[0]));
                    }
                    find_item_spec(sub@, id)
                },
                None => None,
            };
            if inner is Some {
                inner
            } else {
                find_item_spec(items.drop_first(), id)
            }
        }
    }
}

fn find_item<'a>(items: &'a [MenuItem], click_id: &str) -> (r: Option<&'a MenuItem>)
    ensures
        match find_item_spec(items@, click_id@) {
            Some(m) => r is Some && *r->0 == m,
            None => r is None,
        },
    decreases items@,
{
    let id = chars_of(click_id);
    let n = items.len();
    let mut i: usize = 0;
    assert(items@.skip(0) =~= items@);
    while i < n
        invariant
            n == items@.len(),
            0 <= i <= n,
            id@ == click_id@,
            find_item_spec(items@.skip(i as int), click_id@) == find_item_spec(items@, click_id@),
        decreases n - i,
    {
        let ghost rest = items@.skip(i as int);
        assert(rest[0] == items@[i as int]);
        assert(rest.drop_first() =~= items@.skip(i as int + 1));
        let item = &items[i];
        if let Some(c) = &item.click_id {
            let cv = chars_of(c.as_str());
            if seq_eq(cv.as_slice(), id.as_slice()) {
                return Some(item);
            }
        }
        if let Some(sub) = &item.submenu {
            proof {
                assert(decreases_to!(items@ => items@[i as int]));
            }
            let found = find_item(sub.as_slice(), click_id);
            if found.is_some() {
                return found;
            }
        }
        i = i + 1;
    }
    assert(items@.skip(n as int) =~= Seq::<MenuItem>::empty());
    None
}

/// A menu manager for one template.
#[derive(Debug)]
pub struct NativeMenu {
    template: MenuTemplate,
    created: bool,
}

impl NativeMenu {
    /// The template.
    pub closed spec fn template_spec(&self) -> MenuTemplate {
        self.template
    }

    /// Whether the menu was created.
    pub closed spec fn is_created(&self) -> bool {
        self.created
    }

    /// A manager for `template`, not yet created.
    pub fn new(template: MenuTemplate) -> (r: NativeMenu)
        ensures
            r.template_spec() == template,
            !r.is_created(),
    {
        NativeMenu { template, created: false }
    }

    /// Marks the menu created (a second call changes nothing).
    pub fn create(&mut self) -> (r: Result<(), ()>)
        ensures
            r is Ok,
            final(self).is_created(),
            final(self).template_spec() == old(self).template_spec(),
    {
        if self.created {
            return Ok(());
        }
        self.created = true;
        Ok(())
    }

    /// The item with click id `click_id`, depth first in menu order.
    pub fn get_menu_item(&self, click_id: &str) -> (r: Option<&MenuItem>)
        ensures
            match find_item_spec(self.template_spec().items@, click_id@) {
                Some(m) => r is Some && *r->0 == m,
                None => r is None,
            },
    {
        find_item(self.template.items.as_slice(), click_id)
    }

    /// The template.
    pub fn template(&self) -> (r: &MenuTemplate)
        ensures
            *r == self.template_spec(),
    {
        &self.template
    }
}

} // verus!
