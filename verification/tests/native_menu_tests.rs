use nefu::native_menu::{MenuItem, MenuTemplate, NativeMenu};

#[test]
fn test_default_app_menu() {
    let template = MenuTemplate::default_app_menu("TestApp");
    assert_eq!(template.items.len(), 5);
    let file_menu = &template.items[0];
    assert_eq!(file_menu.label, "File");
    assert!(file_menu.submenu.is_some());
    let submenu = file_menu.submenu.as_ref().unwrap();
    let quit_item = submenu.iter().find(|m| m.click_id == Some("quit".to_string()));
    assert!(quit_item.is_some());
    assert_eq!(quit_item.unwrap().role, Some("quit".to_string()));
}

#[test]
fn test_find_menu_item() {
    let template = MenuTemplate::default_app_menu("TestApp");
    let menu = NativeMenu::new(template);
    let item = menu.get_menu_item("edit-copy");
    assert!(item.is_some());
    assert_eq!(item.unwrap().label, "Copy");
    let item = menu.get_menu_item("nonexistent");
    assert!(item.is_none());
}

#[test]
fn test_separator() {
    let sep = MenuItem {
        label: "-".to_string(),
        accelerator: None,
        enabled: true,
        checked: false,
        role: None,
        click_id: None,
        submenu: None,
    };
    assert_eq!(sep.label, "-");
}

// ---- further cases ----

#[test]
fn menu_labels_in_order() {
    let template = MenuTemplate::default_app_menu("X");
    let labels: Vec<&str> = template.items.iter().map(|m| m.label.as_str()).collect();
    assert_eq!(labels, vec!["File", "Edit", "View", "Window", "Help"]);
}

#[test]
fn create_succeeds_and_template_is_kept() {
    let mut menu = NativeMenu::new(MenuTemplate::default_app_menu("X"));
    assert!(menu.create().is_ok());
    assert_eq!(menu.template().items.len(), 5);
    assert_eq!(menu.get_menu_item("file-save").unwrap().accelerator, Some("CommandOrControl+S".to_string()));
}
