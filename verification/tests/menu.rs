use bg3_debug_tool::call_parser::ParsedValue;
use bg3_debug_tool::menu::{tip_text, window_title, Menu, MenuView};
use bg3_debug_tool::menu_console::{Console, HISTORY_SIZE};

#[test]
fn running_a_call_echoes_it_and_keeps_it() {
    let mut c = Console::new();
    assert!(c.reclaim_focus);
    c.reclaim_focus = false;
    c.text = "AddGold(100)".to_string();
    let call = c.run().expect("a call");
    assert_eq!(call.ident, "AddGold");
    assert!(matches!(call.args[0], ParsedValue::Int(100)));
    assert_eq!(c.output, ">> AddGold(100)\n");
    assert!(c.text.is_empty());
    assert!(!c.reclaim_focus);
    c.finish(Some("1"));
    assert_eq!(c.output, ">> AddGold(100)\n1\n");
    assert!(c.reclaim_focus);
    assert_eq!(c.history.prev(""), Some("AddGold(100)"));
}

#[test]
fn a_line_that_is_not_a_call_is_reported() {
    let mut c = Console::new();
    c.reclaim_focus = false;
    c.text = "not a call".to_string();
    assert!(c.run().is_none());
    assert_eq!(c.output, ">> not a call\nexpected a function call: Name(value, ...)\n");
    assert!(c.reclaim_focus);
    assert_eq!(c.history.prev("x"), Some("not a call"));
}

#[test]
fn a_bad_argument_is_reported_by_name() {
    let mut c = Console::new();
    c.text = "AddGold(Gold)".to_string();
    assert!(c.run().is_none());
    assert_eq!(c.output, ">> AddGold(Gold)\nunknown Osiris argument type 'Gold'\n");
}

#[test]
fn calls_without_a_result_end_with_a_line_break() {
    let mut c = Console::new();
    c.text = "Foo()".to_string();
    assert!(c.run().is_some());
    c.finish(None);
    assert_eq!(c.output, ">> Foo()\n\n");
    c.clear_output();
    assert!(c.output.is_empty());
}

#[test]
fn the_history_keeps_a_hundred_lines() {
    assert_eq!(HISTORY_SIZE, 100);
    let mut c = Console::new();
    for i in 0..105 {
        c.text = format!("F({i})");
        let _ = c.run();
        c.finish(None);
    }
    assert_eq!(c.history.prev(""), Some("F(104)"));
    for _ in 0..98 {
        c.history.prev("");
    }
    assert_eq!(c.history.prev(""), Some("F(5)"));
    assert_eq!(c.history.prev(""), Some("F(5)"));
}

#[test]
fn arrow_keys_browse_the_history() {
    let mut c = Console::new();
    for line in ["A()", "B()"] {
        c.text = line.to_string();
        let _ = c.run();
        c.finish(None);
    }
    c.text = "C(".to_string();
    c.browse(true);
    assert_eq!(c.text, "B()");
    c.browse(true);
    assert_eq!(c.text, "A()");
    c.browse(true);
    assert_eq!(c.text, "A()");
    c.browse(false);
    assert_eq!(c.text, "B()");
    c.browse(false);
    assert_eq!(c.text, "C(");
    c.browse(false);
    assert_eq!(c.text, "C(");
}

#[test]
fn hotkeys_show_and_hide_the_menu() {
    let mut m = Menu::new();
    assert!(m.opened && m.tip_opened);
    assert_eq!(m.frame(false, true), MenuView::Window);
    assert!(m.tip_opened);
    assert_eq!(m.frame(true, false), MenuView::Tip);
    assert_eq!(m.frame(false, true), MenuView::Nothing);
    assert_eq!(m.frame(false, true), MenuView::Tip);
    assert_eq!(m.frame(true, true), MenuView::Window);
    m.close();
    assert_eq!(m.frame(false, false), MenuView::Tip);
    assert_eq!(tip_text(), "Press F11 to open the Debug Menu, F9 to hide this text");
    assert_eq!(window_title(), "Baldur's Gate 3 Debug Tool");
}
